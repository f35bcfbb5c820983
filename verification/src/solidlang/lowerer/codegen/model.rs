//! What the lowering of functions gives, as functions on the state of
//! the lowerer and of the function that is being lowered.

use crate::globals::{name_in, Symbol};
use crate::ir::comp::{
    IRCompBinaryOperation, IRCompBinaryOperationKind, IRCompKindView, IRCompUnaryOperation,
    IRCompUnaryOperationKind, IRCompView,
};
use crate::ir::interpreter::bytes::{bytes_of_uint, Endianness};
use crate::ir::{IRFunctionView, IRType, IRValue};
use crate::solidlang::ast::{
    ASTExpression, ASTExpressionKind, ASTFunctionDef, ASTItem, ASTItemKind, ASTModule, ASTOperator,
    ASTStatement, ASTStatementBlock, ASTStatementKind, ASTType,
};
use crate::solidlang::context::function::FunctionView;
use crate::solidlang::context::item::{
    empty_scope, function_templates, resolve_function, with_last, ScopeView,
};
use crate::solidlang::context::layout::LayoutError;
use crate::solidlang::context::pool::PoolRef;
use crate::solidlang::context::template::{Template, TemplateKind};
use crate::solidlang::context::ty::{size_and_align, Ty, TyPrimitive, TyView};
use crate::solidlang::lowerer::codegen::{
    resolve_name, void_value, CodegenView, ResultView, ValueView,
};
use crate::solidlang::lowerer::error::{
    CompileError, CompileErrorKind, OverloadError, ResolveError, TemplateError, TypeError,
};
use crate::solidlang::lowerer::model::{
    ast_type_to_ty, fail, instantiation_scopes, no_pending, process_items, relayout_one,
    resolve_unresolved, resolve_unresolved_generics, CompiledView, Lowered, LowererView,
};
use crate::solidlang::span::Span;
use crate::text::decimal;
use vstd::prelude::*;

verus! {

/// The state of the lowering: that of the lowerer and that of the function
/// that is being lowered.
pub struct CompileState<'a> {
    pub lowerer: LowererView<'a>,
    pub codegen: CodegenView,
}

/// A result with the state in which the lowering goes on.
pub type Step<'a, T> = Result<(T, CompileState<'a>), CompileError>;

/// Whether the primitive type is an integer.
pub open spec fn is_integer(primitive: TyPrimitive) -> bool {
    match primitive {
        TyPrimitive::Bool | TyPrimitive::Char | TyPrimitive::Void => false,
        _ => true,
    }
}

/// Whether the primitive type is an integer with a sign.
pub open spec fn is_signed(primitive: TyPrimitive) -> bool {
    match primitive {
        TyPrimitive::I8 | TyPrimitive::I16 | TyPrimitive::I32 | TyPrimitive::I64 => true,
        _ => false,
    }
}

/// The largest number that a literal of the integer type can be.
pub open spec fn max_literal(primitive: TyPrimitive) -> nat {
    match primitive {
        TyPrimitive::U8 => 0xff,
        TyPrimitive::I8 => 0x7f,
        TyPrimitive::U16 => 0xffff,
        TyPrimitive::I16 => 0x7fff,
        TyPrimitive::U32 => 0xffff_ffff,
        TyPrimitive::I32 => 0x7fff_ffff,
        TyPrimitive::U64 => 0xffff_ffff_ffff_ffff,
        TyPrimitive::I64 => 0x7fff_ffff_ffff_ffff,
        _ => 0,
    }
}

/// The bytes of the number `value` as a constant of the integer type.
pub open spec fn literal_bytes(value: u64, primitive: TyPrimitive, endian: Endianness) -> Seq<u8> {
    bytes_of_uint(value as nat, size_and_align(TyView::Primitive(primitive)).0, endian)
}

pub open spec fn bool_ty() -> TyView {
    TyView::Primitive(TyPrimitive::Bool)
}

pub open spec fn void_ty() -> TyView {
    TyView::Primitive(TyPrimitive::Void)
}

/// The storage that a value of the type needs. A type that is still
/// unknown has none.
pub open spec fn ir_type_of(ty: TyView) -> Option<IRType> {
    match ty {
        TyView::PlaceholderUnknown => None,
        _ => Some(IRType { size: size_and_align(ty).0 as u64, align: size_and_align(ty).1 as u64 }),
    }
}

/// The symbol of `name`, which is interned if it is new.
pub open spec fn intern_name<'a>(st: LowererView<'a>, name: Seq<char>, span: Span) -> Lowered<
    'a,
    Symbol,
> {
    if st.names.dom().contains(name) {
        Ok((Symbol { index: st.names[name] }, st))
    } else if st.count < u64::MAX {
        Ok(
            (
                Symbol { index: st.count as u64 },
                LowererView {
                    names: st.names.insert(name, st.count as u64),
                    count: st.count + 1,
                    ..st
                },
            ),
        )
    } else {
        Err(fail(CompileErrorKind::LimitExceeded, span))
    }
}

/// A new name for a value or a label of the function: `prefix` and the
/// number of names that were made before.
pub open spec fn new_id<'a>(st: CompileState<'a>, prefix: Seq<char>, span: Span) -> Step<
    'a,
    Symbol,
> {
    if st.codegen.counter >= u64::MAX {
        Err(fail(CompileErrorKind::LimitExceeded, span))
    } else {
        match intern_name(st.lowerer, prefix + decimal(st.codegen.counter), span) {
            Err(e) => Err(e),
            Ok((id, lowerer)) => Ok(
                (
                    id,
                    CompileState {
                        lowerer,
                        codegen: CodegenView { counter: st.codegen.counter + 1, ..st.codegen },
                    },
                ),
            ),
        }
    }
}

/// Adds a computation.
pub open spec fn emit<'a>(st: CompileState<'a>, kind: IRCompKindView, id: Option<Symbol>)
    -> CompileState<'a> {
    CompileState {
        codegen: CodegenView { comps: st.codegen.comps.push(IRCompView { kind, id }), ..st.codegen },
        ..st
    }
}

/// Lets `label` stand for the computation that is added next.
pub open spec fn place<'a>(st: CompileState<'a>, label: Symbol) -> CompileState<'a> {
    CompileState {
        codegen: CodegenView {
            label_defs: st.codegen.label_defs.push((label, st.codegen.comps.len() as u64)),
            ..st.codegen
        },
        ..st
    }
}

/// Adds a computation under a new name and gives the value of the type
/// `ty` that it yields.
pub open spec fn emit_value<'a>(st: CompileState<'a>, kind: IRCompKindView, ty: TyView, span: Span)
    -> Step<'a, ResultView> {
    match new_id(st, "_v"@, span) {
        Err(e) => Err(e),
        Ok((id, st1)) => Ok(
            (ResultView::Value(ValueView { id: Some(id), ty }), emit(st1, kind, Some(id))),
        ),
    }
}

/// The value as an operand of a computation. A value without a name is
/// none.
pub open spec fn operand_of(value: ValueView, span: Span) -> Result<IRValue, CompileError> {
    match value.id {
        Some(id) => Ok(IRValue { id }),
        None => Err(fail(CompileErrorKind::Type(TypeError::OperatorMismatch), span)),
    }
}

/// An identifier: the value that it stands for, which has to be of the
/// expected type.
pub open spec fn c_ident<'a>(
    st: CompileState<'a>,
    name: Symbol,
    expected: Option<TyView>,
    span: Span,
) -> Step<'a, ResultView> {
    match resolve_name(st.codegen.scopes, name) {
        None => Err(fail(CompileErrorKind::Resolve(ResolveError::UnknownIdentifier), span)),
        Some(value) => if expected is Some && expected->0 != value.ty {
            Err(fail(CompileErrorKind::Type(TypeError::UnexpectedType), span))
        } else {
            Ok((ResultView::Value(value), st))
        },
    }
}

/// A number: a constant of the expected type, which has to be an integer
/// type that holds the number, or of `i32` where no type is expected.
pub open spec fn c_integer<'a>(
    st: CompileState<'a>,
    value: u64,
    expected: Option<TyView>,
    span: Span,
) -> Step<'a, ResultView> {
    let ty = match expected {
        Some(ty) => ty,
        None => TyView::Primitive(TyPrimitive::I32),
    };
    match ty {
        TyView::Primitive(primitive) => if !is_integer(primitive) {
            Err(fail(CompileErrorKind::Type(TypeError::UnexpectedType), span))
        } else if value > max_literal(primitive) {
            Err(fail(CompileErrorKind::Type(TypeError::LiteralOverflow), span))
        } else {
            emit_value(
                st,
                IRCompKindView::Constant(literal_bytes(value, primitive, st.lowerer.endian)),
                ty,
                span,
            )
        },
        _ => Err(fail(CompileErrorKind::Type(TypeError::UnexpectedType), span)),
    }
}

/// A truth value: a constant of one byte, 1 for `true` and 0 for `false`.
pub open spec fn c_boolean<'a>(
    st: CompileState<'a>,
    value: bool,
    expected: Option<TyView>,
    span: Span,
) -> Step<'a, ResultView> {
    if expected is Some && expected->0 != bool_ty() {
        Err(fail(CompileErrorKind::Type(TypeError::UnexpectedType), span))
    } else {
        emit_value(
            st,
            IRCompKindView::Constant(
                seq![if value {
                    1u8
                } else {
                    0u8
                }],
            ),
            bool_ty(),
            span,
        )
    }
}

/// The computation for a unary operator on an operand of the given type:
/// `!` is defined on truth values, `-` on integers with a sign and `~` on
/// all integers.
pub open spec fn unary_kind(operator: ASTOperator, ty: TyView) -> Option<IRCompUnaryOperationKind> {
    match ty {
        TyView::Primitive(primitive) => match operator {
            ASTOperator::BoolNot => if primitive == TyPrimitive::Bool {
                Some(IRCompUnaryOperationKind::BoolNot)
            } else {
                None
            },
            ASTOperator::Minus => if is_signed(primitive) {
                Some(IRCompUnaryOperationKind::SignedNegation)
            } else {
                None
            },
            ASTOperator::BitNot => if is_integer(primitive) {
                Some(IRCompUnaryOperationKind::BitNot)
            } else {
                None
            },
            _ => None,
        },
        _ => None,
    }
}

/// A unary operation on a value.
pub open spec fn c_unary<'a>(
    st: CompileState<'a>,
    operator: ASTOperator,
    value: ValueView,
    span: Span,
) -> Step<'a, ResultView> {
    match (unary_kind(operator, value.ty), operand_of(value, span)) {
        (Some(kind), Ok(operand)) => emit_value(
            st,
            IRCompKindView::UnaryOperation(IRCompUnaryOperation { kind, operand }),
            value.ty,
            span,
        ),
        _ => Err(fail(CompileErrorKind::Type(TypeError::OperatorMismatch), span)),
    }
}

/// Whether the operator compares its operands.
pub open spec fn is_comparison_operator(operator: ASTOperator) -> bool {
    match operator {
        ASTOperator::Equal
        | ASTOperator::NotEqual
        | ASTOperator::Greater
        | ASTOperator::Lesser
        | ASTOperator::GreaterEqual
        | ASTOperator::LesserEqual => true,
        _ => false,
    }
}

/// The computation for a binary operator. The operators on truth values
/// compute bit by bit on the one byte of their operands.
pub open spec fn binary_kind(operator: ASTOperator) -> Option<IRCompBinaryOperationKind> {
    match operator {
        ASTOperator::Plus => Some(IRCompBinaryOperationKind::Plus),
        ASTOperator::Minus => Some(IRCompBinaryOperationKind::Minus),
        ASTOperator::Mul => Some(IRCompBinaryOperationKind::Mul),
        ASTOperator::Div => Some(IRCompBinaryOperationKind::Div),
        ASTOperator::Mod => Some(IRCompBinaryOperationKind::Mod),
        ASTOperator::BitAnd => Some(IRCompBinaryOperationKind::BitAnd),
        ASTOperator::BitOr => Some(IRCompBinaryOperationKind::BitOr),
        ASTOperator::BoolAnd => Some(IRCompBinaryOperationKind::BitAnd),
        ASTOperator::BoolOr => Some(IRCompBinaryOperationKind::BitOr),
        ASTOperator::BitRShift => Some(IRCompBinaryOperationKind::BitRShift),
        ASTOperator::BitLShift => Some(IRCompBinaryOperationKind::BitLShift),
        ASTOperator::Equal => Some(IRCompBinaryOperationKind::Equal),
        ASTOperator::NotEqual => Some(IRCompBinaryOperationKind::NotEqual),
        ASTOperator::Greater => Some(IRCompBinaryOperationKind::Greater),
        ASTOperator::Lesser => Some(IRCompBinaryOperationKind::Lesser),
        ASTOperator::GreaterEqual => Some(IRCompBinaryOperationKind::GreaterEqual),
        ASTOperator::LesserEqual => Some(IRCompBinaryOperationKind::LesserEqual),
        _ => None,
    }
}

/// Whether a binary operator that does not compare is defined for a left
/// operand of the given type: `&&` and `||` for truth values, the others
/// for integers.
pub open spec fn left_operand_fits(operator: ASTOperator, ty: TyView) -> bool {
    match ty {
        TyView::Primitive(primitive) => match operator {
            ASTOperator::BoolAnd | ASTOperator::BoolOr => primitive == TyPrimitive::Bool,
            _ => is_integer(primitive),
        },
        _ => false,
    }
}

/// A binary operation on two values, which yields a value of the type
/// `ty`.
pub open spec fn c_binary<'a>(
    st: CompileState<'a>,
    operator: ASTOperator,
    left: ValueView,
    right: ValueView,
    ty: TyView,
    span: Span,
) -> Step<'a, ResultView> {
    match (binary_kind(operator), operand_of(left, span), operand_of(right, span)) {
        (Some(kind), Ok(left_operand), Ok(right_operand)) => emit_value(
            st,
            IRCompKindView::BinaryOperation(
                IRCompBinaryOperation { kind, left_operand, right_operand },
            ),
            ty,
            span,
        ),
        _ => Err(fail(CompileErrorKind::Type(TypeError::OperatorMismatch), span)),
    }
}

/// The type that is asked of the last expression of a block: the expected
/// one, where it is a type of values.
pub open spec fn wanted(expected: Option<TyView>) -> Option<TyView> {
    if expected is Some && expected->0 != void_ty() {
        expected
    } else {
        None
    }
}

/// The state within a block: with a scope of items and a scope of names
/// of its own.
pub open spec fn enter_block<'a>(st: CompileState<'a>) -> CompileState<'a> {
    CompileState {
        lowerer: LowererView { scopes: st.lowerer.scopes.push(empty_scope()), ..st.lowerer },
        codegen: CodegenView { scopes: st.codegen.scopes.push(Seq::empty()), ..st.codegen },
    }
}

/// The state behind a block.
pub open spec fn leave_block<'a>(st: CompileState<'a>) -> CompileState<'a> {
    CompileState {
        lowerer: LowererView { scopes: st.lowerer.scopes.drop_last(), ..st.lowerer },
        codegen: CodegenView { scopes: st.codegen.scopes.drop_last(), ..st.codegen },
    }
}

/// Binds `name` to `value` in the innermost scope of names.
pub open spec fn bind<'a>(st: CompileState<'a>, name: Symbol, value: ValueView) -> CompileState<
    'a,
> {
    CompileState {
        codegen: CodegenView {
            scopes: st.codegen.scopes.drop_last().push(
                st.codegen.scopes.last().push((name, value)),
            ),
            ..st.codegen
        },
        ..st
    }
}

/// The items among the first `count` statements of a block.
pub open spec fn block_items<'a>(block: &'a ASTStatementBlock, count: nat) -> Seq<&'a ASTItem>
    decreases count,
{
    if count == 0 || count > block.statements.len() {
        Seq::empty()
    } else {
        match &block.statements[count - 1].kind {
            ASTStatementKind::Item(item) => block_items(block, (count - 1) as nat).push(item),
            _ => block_items(block, (count - 1) as nat),
        }
    }
}

/// The items of a module.
pub open spec fn module_items<'a>(module: &'a ASTModule, count: nat) -> Seq<&'a ASTItem>
    decreases count,
{
    if count == 0 || count > module.items.len() {
        Seq::empty()
    } else {
        module_items(module, (count - 1) as nat).push(&module.items[count - 1])
    }
}

/// The type that a type of the program stands for, with its layout. Every
/// name in it has to stand for something by now.
pub open spec fn resolve_type<'a>(st: LowererView<'a>, ast_ty: &'a ASTType) -> Lowered<
    'a,
    (PoolRef<Ty>, TyView),
> {
    match ast_type_to_ty(st, no_pending(), *ast_ty) {
        Err(e) => Err(e),
        Ok((ty, st1, pending)) => match resolve_unresolved(st1, pending.unresolved) {
            Err(e) => Err(e),
            Ok(((), st2)) => match resolve_unresolved_generics(
                st2,
                pending.generics,
                st2.max_depth,
            ) {
                Err(e) => Err(e),
                Ok(((), st3)) => match relayout_one(st3, ty, ast_ty.span) {
                    Err(e) => Err(e),
                    Ok(((), st4)) => Ok(((ty, st4.tys[ty.index as int]), st4)),
                },
            },
        },
    }
}

/// Whether lowering the expression fails with the error `e` before it has
/// changed anything: an identifier, a number and a truth value fail so, and
/// so does a call of a function that is no function of a template, unless a
/// name for its value is missing.
pub open spec fn fails_first(expression: &ASTExpression, e: CompileError) -> bool {
    match &expression.kind {
        ASTExpressionKind::Ident(_) => true,
        ASTExpressionKind::IntegerLiteral(_) => true,
        ASTExpressionKind::Boolean(_) => true,
        ASTExpressionKind::Call(callee, _) => !(callee.kind is TemplateApplication) && e.kind
            != CompileErrorKind::LimitExceeded,
        _ => false,
    }
}

/// The handle of the type that `ast_ty` stands for and the types as they
/// are when its layout is computed, if it comes to that.
pub open spec fn resolved_for_layout<'a>(st: LowererView<'a>, ast_ty: &'a ASTType) -> Option<
    (PoolRef<Ty>, Seq<TyView>),
> {
    match ast_type_to_ty(st, no_pending(), *ast_ty) {
        Err(_) => None,
        Ok((ty, st1, pending)) => match resolve_unresolved(st1, pending.unresolved) {
            Err(_) => None,
            Ok(((), st2)) => match resolve_unresolved_generics(
                st2,
                pending.generics,
                st2.max_depth,
            ) {
                Err(_) => None,
                Ok(((), st3)) => Some((ty, st3.tys)),
            },
        },
    }
}

/// The types that the first `count` of the given types of the program
/// stand for.
pub open spec fn resolve_types<'a>(st: LowererView<'a>, ast_tys: Seq<&'a ASTType>, count: nat)
    -> Lowered<'a, Seq<(PoolRef<Ty>, TyView)>>
    decreases count,
{
    if count == 0 || count > ast_tys.len() {
        Ok((Seq::empty(), st))
    } else {
        match resolve_types(st, ast_tys, (count - 1) as nat) {
            Err(e) => Err(e),
            Ok((firsts, st1)) => match resolve_type(st1, ast_tys[count - 1]) {
                Err(e) => Err(e),
                Ok((last, st2)) => Ok((firsts.push(last), st2)),
            },
        }
    }
}

/// The types of the parameters of a function, as they are written.
pub open spec fn param_types<'a>(function_def: &'a ASTFunctionDef) -> Seq<&'a ASTType> {
    Seq::new(function_def.params.len() as nat, |i: int| &function_def.params[i].ast_type)
}

/// The name of a function in the intermediate representation: its name in
/// the program, two underscores, and the number of functions that were named
/// before.
pub open spec fn get_ir_name<'a>(st: LowererView<'a>, name: Symbol, span: Span) -> Lowered<
    'a,
    Symbol,
> {
    if name.index >= st.count {
        Err(fail(CompileErrorKind::Resolve(ResolveError::UnknownIdentifier), span))
    } else if st.counter >= u64::MAX {
        Err(fail(CompileErrorKind::LimitExceeded, span))
    } else {
        match intern_name(st, name_in(st.names, name) + "__"@ + decimal(st.counter), span) {
            Err(e) => Err(e),
            Ok((ir_name, st1)) => Ok((ir_name, LowererView { counter: st.counter + 1, ..st1 })),
        }
    }
}

/// The signature of a function: the types of its parameters and of what
/// it returns, which is `void` where nothing is written, and its name in the
/// intermediate representation.
pub open spec fn declare_function<'a>(st: LowererView<'a>, function_def: &'a ASTFunctionDef)
    -> Lowered<'a, FunctionView> {
    match resolve_types(st, param_types(function_def), function_def.params.len() as nat) {
        Err(e) => Err(e),
        Ok((params, st1)) => match (match &function_def.return_type {
            Some(ast_ty) => match resolve_type(st1, ast_ty) {
                Err(e) => Err(e),
                Ok(((_, ty), st2)) => Ok((ty, st2)),
            },
            None => Ok((void_ty(), st1)),
        }) {
            Err(e) => Err(e),
            Ok((return_type, st2)) => match get_ir_name(
                st2,
                function_def.name,
                function_def.span,
            ) {
                Err(e) => Err(e),
                Ok((ir_name, st3)) => Ok(
                    (
                        FunctionView {
                            path: seq![function_def.name],
                            params: params.map_values(|p: (PoolRef<Ty>, TyView)| p.1),
                            return_type,
                            ir_name,
                        },
                        st3,
                    ),
                ),
            },
        },
    }
}

/// The names and the storage of the first `count` parameters of a function
/// in the intermediate representation, with the names to which they are
/// bound in the function.
pub open spec fn lower_params<'a>(
    st: LowererView<'a>,
    function_def: &'a ASTFunctionDef,
    function: FunctionView,
    count: nat,
) -> Lowered<'a, (Seq<(Option<Symbol>, IRType)>, Seq<(Symbol, ValueView)>)>
    decreases count,
{
    if count == 0 || count > function_def.params.len() || count > function.params.len() {
        Ok(((Seq::empty(), Seq::empty()), st))
    } else {
        match lower_params(st, function_def, function, (count - 1) as nat) {
            Err(e) => Err(e),
            Ok(((params, bindings), st1)) => match (
                intern_name(st1, "_param_"@ + decimal((count - 1) as nat), function_def.span),
                ir_type_of(function.params[count - 1]),
            ) {
                (Err(e), _) => Err(e),
                (Ok(_), None) => Err(
                    fail(CompileErrorKind::Layout(LayoutError::Unresolved), function_def.span),
                ),
                (Ok((id, st2)), Some(ir_type)) => Ok(
                    (
                        (
                            params.push((Some(id), ir_type)),
                            bindings.push(
                                (
                                    function_def.params[count - 1].name,
                                    ValueView { id: Some(id), ty: function.params[count - 1] },
                                ),
                            ),
                        ),
                        st2,
                    ),
                ),
            },
        }
    }
}

/// The path of a callee: the identifiers of a chain of static accesses.
pub open spec fn static_path<'a>(expression: &'a ASTExpression) -> Option<Seq<Symbol>>
    decreases expression,
{
    match &expression.kind {
        ASTExpressionKind::Ident(name) => Some(seq![*name]),
        ASTExpressionKind::StaticAccess(inner, name) => match static_path(inner) {
            Some(path) => Some(path.push(*name)),
            None => None,
        },
        _ => None,
    }
}

/// What a speculative lowering of the arguments of a call for one function
/// gave: the state behind it, the arguments as operands, and whether one of
/// them returns from the function.
pub struct Speculation<'a> {
    pub state: CompileState<'a>,
    pub args: Seq<IRValue>,
    pub returning: bool,
}

/// The candidates for a call that fit it: how many there are, and the
/// first of them with what the lowering of the arguments gave for it.
pub struct Resolution<'a> {
    pub count: nat,
    pub winner: Option<(FunctionView, Speculation<'a>)>,
}

/// The labels for `continue` and `break` of the innermost loop.
pub open spec fn innermost_loop(st: CodegenView) -> Option<(Symbol, Symbol)> {
    if st.loops.len() > 0 {
        Some(st.loops.last())
    } else {
        None
    }
}

/// A jump to `label`.
pub open spec fn emit_jump<'a>(st: CompileState<'a>, label: Symbol) -> CompileState<'a> {
    emit(st, IRCompKindView::Jmp(label), None)
}

/// The return of `value` from the function. A value without a name is
/// given one by a constant of no bytes.
pub open spec fn c_return<'a>(st: CompileState<'a>, value: ValueView, span: Span) -> Step<
    'a,
    ResultView,
> {
    match value.id {
        Some(id) => Ok(
            (ResultView::Returning, emit(st, IRCompKindView::Return(IRValue { id }), None)),
        ),
        None => match new_id(st, "_v"@, span) {
            Err(e) => Err(e),
            Ok((id, st1)) => Ok(
                (
                    ResultView::Returning,
                    emit(
                        emit(st1, IRCompKindView::Constant(Seq::empty()), Some(id)),
                        IRCompKindView::Return(IRValue { id }),
                        None,
                    ),
                ),
            ),
        },
    }
}

/// The head of a branch on the truth value `condition`: two new labels and
/// a jump to the first of them where the condition does not hold.
pub open spec fn branch_head<'a>(st: CompileState<'a>, condition: ValueView, span: Span) -> Step<
    'a,
    (Symbol, Symbol),
> {
    match new_id(st, "_l"@, span) {
        Err(e) => Err(e),
        Ok((first, st1)) => match new_id(st1, "_l"@, span) {
            Err(e) => Err(e),
            Ok((second, st2)) => match branch_jump(st2, condition, first, span) {
                Err(e) => Err(e),
                Ok(((), st3)) => Ok(((first, second), st3)),
            },
        },
    }
}

/// A jump to `label` where the truth value `condition` does not hold: the
/// negation of the condition, and a jump where the negation holds.
pub open spec fn branch_jump<'a>(
    st: CompileState<'a>,
    condition: ValueView,
    label: Symbol,
    span: Span,
) -> Step<'a, ()> {
    match operand_of(condition, span) {
        Err(e) => Err(e),
        Ok(operand) => match new_id(st, "_v"@, span) {
            Err(e) => Err(e),
            Ok((negation, st1)) => Ok(
                (
                    (),
                    emit(
                        emit(
                            st1,
                            IRCompKindView::UnaryOperation(
                                IRCompUnaryOperation {
                                    kind: IRCompUnaryOperationKind::BoolNot,
                                    operand,
                                },
                            ),
                            Some(negation),
                        ),
                        IRCompKindView::If(IRValue { id: negation }, label),
                        None,
                    ),
                ),
            ),
        },
    }
}

/// The place in memory in which the branches of an `if` leave its value,
/// where a value of the type `ty` is expected of it.
pub open spec fn value_slot<'a>(st: CompileState<'a>, expected: Option<TyView>, span: Span) -> Step<
    'a,
    Option<(Symbol, IRType)>,
> {
    match wanted(expected) {
        None => Ok((None, st)),
        Some(ty) => match ir_type_of(ty) {
            None => Err(fail(CompileErrorKind::Layout(LayoutError::Unresolved), span)),
            Some(ir_type) => match new_id(st, "_v"@, span) {
                Err(e) => Err(e),
                Ok((slot, st1)) => Ok(
                    (Some((slot, ir_type)), emit(st1, IRCompKindView::Alloc(ir_type), Some(slot))),
                ),
            },
        },
    }
}

/// Leaves the value of a branch in the place for the value of the `if`.
pub open spec fn store_branch<'a>(
    st: CompileState<'a>,
    slot: Option<(Symbol, IRType)>,
    result: ResultView,
    span: Span,
) -> Step<'a, ()> {
    match (slot, result) {
        (Some((slot, ir_type)), ResultView::Value(value)) => match operand_of(value, span) {
            Err(e) => Err(e),
            Ok(operand) => Ok(
                (
                    (),
                    emit(
                        st,
                        IRCompKindView::Store(ir_type, IRValue { id: slot }, operand),
                        None,
                    ),
                ),
            ),
        },
        _ => Ok(((), st)),
    }
}

/// What an `if` gives behind its branches: nothing where both return;
/// else the value that they left in its place, of the expected type; or the
/// value of the type `void` where none is expected.
pub open spec fn merge_branches<'a>(
    st: CompileState<'a>,
    slot: Option<(Symbol, IRType)>,
    expected: Option<TyView>,
    first: ResultView,
    second: ResultView,
    span: Span,
) -> Step<'a, ResultView> {
    match (first, second) {
        (ResultView::Returning, ResultView::Returning) => Ok((ResultView::Returning, st)),
        (ResultView::Value(a), ResultView::Value(b)) if a.ty != b.ty => Err(
            fail(CompileErrorKind::Type(TypeError::BranchMismatch), span),
        ),
        _ => match (slot, wanted(expected)) {
            (Some((slot, ir_type)), Some(ty)) => emit_value(
                st,
                IRCompKindView::Load(ir_type, IRValue { id: slot }),
                ty,
                span,
            ),
            _ => Ok((ResultView::Value(void_value()), st)),
        },
    }
}

/// What a block gives: what its last statement gave, which has to be a
/// value of the expected type where one is expected; else the value of the
/// type `void`.
pub open spec fn block_result(result: ResultView, expected: Option<TyView>, span: Span) -> Result<
    ResultView,
    CompileError,
> {
    match result {
        ResultView::Returning => Ok(ResultView::Returning),
        ResultView::Value(value) => match wanted(expected) {
            Some(ty) => if value.ty == ty {
                Ok(ResultView::Value(value))
            } else {
                Err(fail(CompileErrorKind::Type(TypeError::UnexpectedType), span))
            },
            None => Ok(ResultView::Value(void_value())),
        },
    }
}

/// The function of the intermediate representation that a lowered function
/// becomes, and the state of the lowerer with it. A function that returns a
/// value returns what its body gave.
pub open spec fn finish_function<'a>(
    st: CompileState<'a>,
    function: FunctionView,
    params: Seq<(Option<Symbol>, IRType)>,
    result: ResultView,
    span: Span,
) -> Lowered<'a, ()> {
    match (
        ir_type_of(function.return_type),
        match result {
            ResultView::Value(value) => if function.return_type != void_ty() {
                c_return(st, value, span)
            } else {
                Ok((ResultView::Returning, st))
            },
            ResultView::Returning => Ok((ResultView::Returning, st)),
        },
    ) {
        (_, Err(e)) => Err(e),
        (None, _) => Err(fail(CompileErrorKind::Layout(LayoutError::Unresolved), span)),
        (Some(return_type), Ok((_, st1))) => Ok(
            (
                (),
                LowererView {
                    items: st1.lowerer.items.push(
                        IRFunctionView {
                            name: function.ir_name,
                            return_type,
                            params,
                            comps: st1.codegen.comps,
                            label_defs: st1.codegen.label_defs,
                        },
                    ),
                    ..st1.lowerer
                },
            ),
        ),
    }
}

} // verus!

verus! {

/// The function that came out of the template for the arguments before,
/// if there is one.
pub open spec fn find_compiled<'a>(
    compiled: Seq<CompiledView<'a>>,
    template: PoolRef<Template<'a>>,
    args: Seq<PoolRef<Ty>>,
) -> Option<FunctionView>
    decreases compiled.len(),
{
    if compiled.len() == 0 {
        None
    } else if compiled.last().template == template && compiled.last().args == args {
        Some(compiled.last().function)
    } else {
        find_compiled(compiled.drop_last(), template, args)
    }
}

/// The function of the template, where it is the template of a function.
pub open spec fn template_function<'a>(st: LowererView<'a>, template: PoolRef<Template<'a>>)
    -> &'a ASTFunctionDef {
    match st.templates[template.index as int].kind {
        TemplateKind::Function(function_def) => function_def,
        TemplateKind::Struct(_) => arbitrary(),
    }
}

/// The arguments of a call.
pub open spec fn call_args<'a>(expression: &'a ASTExpression) -> Seq<ASTExpression> {
    match &expression.kind {
        ASTExpressionKind::Call(_, args) => args@,
        _ => Seq::empty(),
    }
}

/// Whether the function takes as many arguments as the call gives.
pub open spec fn fits_call(function: FunctionView, args: nat) -> bool {
    function.params.len() == args
}

/// The candidates that take as many arguments as the call gives.
pub open spec fn fitting(candidates: Seq<FunctionView>, args: nat) -> Seq<FunctionView> {
    candidates.filter(|f: FunctionView| fits_call(f, args))
}

/// The handles of resolved types.
pub open spec fn handles(resolved: Seq<(PoolRef<Ty>, TyView)>) -> Seq<PoolRef<Ty>> {
    resolved.map_values(|r: (PoolRef<Ty>, TyView)| r.0)
}

/// The types that are given to a template in a call, as they are written.
pub open spec fn type_arg_refs<'a>(type_args: &'a Vec<ASTType>) -> Seq<&'a ASTType> {
    Seq::new(type_args.len() as nat, |i: int| &type_args[i])
}

/// What the call gives once one function was selected for it.
pub open spec fn finish_call<'a>(
    resolution: Resolution<'a>,
    expected: Option<TyView>,
    span: Span,
) -> Step<'a, ResultView> {
    if resolution.count == 0 {
        Err(fail(CompileErrorKind::Overload(OverloadError::NoMatch), span))
    } else if resolution.count > 1 {
        Err(fail(CompileErrorKind::Overload(OverloadError::Ambiguous), span))
    } else {
        match resolution.winner {
            None => Err(fail(CompileErrorKind::Overload(OverloadError::NoMatch), span)),
            Some((function, speculation)) => if expected is Some && expected->0
                != function.return_type {
                Err(fail(CompileErrorKind::Type(TypeError::UnexpectedType), span))
            } else if speculation.returning {
                Ok((ResultView::Returning, speculation.state))
            } else {
                emit_value(
                    speculation.state,
                    IRCompKindView::FunctionCall {
                        name: function.ir_name,
                        args: speculation.args,
                    },
                    function.return_type,
                    span,
                )
            },
        }
    }
}

/// What lowering an expression gives, where a value of the type
/// `expected` is asked of it, if any.
pub open spec fn c_expr<'a>(
    st: CompileState<'a>,
    expression: &'a ASTExpression,
    expected: Option<TyView>,
    depth: nat,
) -> Step<'a, ResultView>
    decreases depth, expression, 4nat, 0nat,
{
    let span = expression.span;
    match &expression.kind {
        ASTExpressionKind::Ident(name) => c_ident(st, *name, expected, span),
        ASTExpressionKind::IntegerLiteral(value) => c_integer(st, *value, expected, span),
        ASTExpressionKind::Boolean(value) => c_boolean(st, *value, expected, span),
        ASTExpressionKind::UnaryOperation(operator, operand) => match c_expr(
            st,
            operand,
            expected,
            depth,
        ) {
            Err(e) => Err(e),
            Ok((ResultView::Returning, st1)) => Ok((ResultView::Returning, st1)),
            Ok((ResultView::Value(value), st1)) => c_unary(st1, *operator, value, span),
        },
        ASTExpressionKind::BinaryOperation(operator, left, right) => if *operator
            == ASTOperator::Assign {
            Err(fail(CompileErrorKind::NotImplemented, span))
        } else if binary_kind(*operator) is None {
            Err(fail(CompileErrorKind::Type(TypeError::OperatorMismatch), span))
        } else if is_comparison_operator(*operator) && expected is Some && expected->0
            != bool_ty() {
            Err(fail(CompileErrorKind::Type(TypeError::UnexpectedType), span))
        } else {
            match c_expr(
                st,
                left,
                if is_comparison_operator(*operator) {
                    None
                } else {
                    expected
                },
                depth,
            ) {
                Err(e) => Err(e),
                Ok((ResultView::Returning, st1)) => Ok((ResultView::Returning, st1)),
                Ok((ResultView::Value(left_value), st1)) => if !is_comparison_operator(*operator)
                    && !left_operand_fits(*operator, left_value.ty) {
                    Err(fail(CompileErrorKind::Type(TypeError::OperatorMismatch), span))
                } else {
                    match c_expr(st1, right, Some(left_value.ty), depth) {
                        Err(e) => Err(e),
                        Ok((ResultView::Returning, st2)) => Ok((ResultView::Returning, st2)),
                        Ok((ResultView::Value(right_value), st2)) => c_binary(
                            st2,
                            *operator,
                            left_value,
                            right_value,
                            if is_comparison_operator(*operator) {
                                bool_ty()
                            } else {
                                left_value.ty
                            },
                            span,
                        ),
                    }
                },
            }
        },
        ASTExpressionKind::If(_, _, _) => c_if(st, expression, expected, depth),
        ASTExpressionKind::While(_, _) => c_while(st, expression, expected, depth),
        ASTExpressionKind::Block(block) => c_block(st, block, expected, depth),
        ASTExpressionKind::Call(_, _) => c_call(st, expression, expected, depth),
        _ => Err(fail(CompileErrorKind::NotImplemented, span)),
    }
}

/// An `if`: the condition; a jump behind the first branch where it does
/// not hold; the first branch; and where there is a second branch, a jump
/// behind it, and the second branch. Where a value is expected there have to
/// be two branches, which leave their values in one place in memory.
pub open spec fn c_if<'a>(
    st: CompileState<'a>,
    expression: &'a ASTExpression,
    expected: Option<TyView>,
    depth: nat,
) -> Step<'a, ResultView>
    decreases depth, expression, 3nat, 0nat,
{
    let span = expression.span;
    match &expression.kind {
        ASTExpressionKind::If(condition, first, second) => if wanted(expected) is Some
            && second is None {
            Err(fail(CompileErrorKind::Type(TypeError::MissingElse), span))
        } else {
            match value_slot(st, expected, span) {
                Err(e) => Err(e),
                Ok((slot, st0)) => match c_expr(st0, condition, Some(bool_ty()), depth) {
                    Err(e) => Err(e),
                    Ok((ResultView::Returning, st1)) => Ok((ResultView::Returning, st1)),
                    Ok((ResultView::Value(value), st1)) => match branch_head(st1, value, span) {
                        Err(e) => Err(e),
                        Ok(((if_end, else_end), st2)) => match c_block(
                            st2,
                            first,
                            expected,
                            depth,
                        ) {
                            Err(e) => Err(e),
                            Ok((first_result, st3)) => match store_branch(
                                st3,
                                slot,
                                first_result,
                                span,
                            ) {
                                Err(e) => Err(e),
                                Ok(((), st4)) => match second {
                                    None => Ok(
                                        (ResultView::Value(void_value()), place(st4, if_end)),
                                    ),
                                    Some(second) => match c_block(
                                        place(emit_jump(st4, else_end), if_end),
                                        second,
                                        expected,
                                        depth,
                                    ) {
                                        Err(e) => Err(e),
                                        Ok((second_result, st5)) => match store_branch(
                                            st5,
                                            slot,
                                            second_result,
                                            span,
                                        ) {
                                            Err(e) => Err(e),
                                            Ok(((), st6)) => merge_branches(
                                                place(st6, else_end),
                                                slot,
                                                expected,
                                                first_result,
                                                second_result,
                                                span,
                                            ),
                                        },
                                    },
                                },
                            },
                        },
                    },
                },
            }
        },
        _ => Err(fail(CompileErrorKind::NotImplemented, span)),
    }
}

/// The state within a loop with the given labels for `continue` and
/// `break`.
pub open spec fn enter_loop<'a>(st: CompileState<'a>, begin: Symbol, end: Symbol) -> CompileState<
    'a,
> {
    CompileState {
        codegen: CodegenView { loops: st.codegen.loops.push((begin, end)), ..st.codegen },
        ..st
    }
}

/// The state behind a loop, around which the loops `loops` lie.
pub open spec fn leave_loop<'a>(st: CompileState<'a>, loops: Seq<(Symbol, Symbol)>)
    -> CompileState<'a> {
    CompileState { codegen: CodegenView { loops, ..st.codegen }, ..st }
}

/// A `while`: a label; the condition; a jump behind the loop where it does
/// not hold; the body; a jump back to the first label; and the label behind
/// the loop. It gives the value of the type `void`.
pub open spec fn c_while<'a>(
    st: CompileState<'a>,
    expression: &'a ASTExpression,
    expected: Option<TyView>,
    depth: nat,
) -> Step<'a, ResultView>
    decreases depth, expression, 3nat, 0nat,
{
    let span = expression.span;
    match &expression.kind {
        ASTExpressionKind::While(condition, body) => if wanted(expected) is Some {
            Err(fail(CompileErrorKind::Type(TypeError::UnexpectedType), span))
        } else {
            match new_id(st, "_l"@, span) {
                Err(e) => Err(e),
                Ok((begin, st1)) => match new_id(st1, "_l"@, span) {
                    Err(e) => Err(e),
                    Ok((end, st2)) => match c_expr(
                        enter_loop(place(st2, begin), begin, end),
                        condition,
                        Some(bool_ty()),
                        depth,
                    ) {
                        Err(e) => Err(e),
                        Ok((ResultView::Returning, st3)) => Ok(
                            (ResultView::Returning, leave_loop(st3, st.codegen.loops)),
                        ),
                        Ok((ResultView::Value(value), st3)) => match branch_jump(
                            st3,
                            value,
                            end,
                            span,
                        ) {
                            Err(e) => Err(e),
                            Ok(((), st4)) => match c_block(st4, body, Some(void_ty()), depth) {
                                Err(e) => Err(e),
                                Ok((_, st5)) => Ok(
                                    (
                                        ResultView::Value(void_value()),
                                        leave_loop(
                                            place(emit_jump(st5, begin), end),
                                            st.codegen.loops,
                                        ),
                                    ),
                                ),
                            },
                        },
                    },
                },
            }
        },
        _ => Err(fail(CompileErrorKind::NotImplemented, span)),
    }
}

/// A call: the functions with the path of the callee that take as many
/// arguments as are given are tried one by one; for each of them the
/// arguments are lowered, from the state before the call, with the types of
/// its parameters expected. Exactly one of them has to fit; the call goes on
/// from the state that lowering the arguments for it gave.
pub open spec fn c_call<'a>(
    st: CompileState<'a>,
    expression: &'a ASTExpression,
    expected: Option<TyView>,
    depth: nat,
) -> Step<'a, ResultView>
    decreases depth, expression, 3nat, 0nat,
{
    let span = expression.span;
    match &expression.kind {
        ASTExpressionKind::Call(callee, args) => match &callee.kind {
            ASTExpressionKind::TemplateApplication(inner, type_args) => match static_path(inner) {
                None => Err(fail(CompileErrorKind::NotImplemented, span)),
                Some(path) => if depth == 0 {
                    Err(fail(CompileErrorKind::Template(TemplateError::DepthExceeded), span))
                } else {
                    match resolve_types(
                        st.lowerer,
                        type_arg_refs(type_args),
                        type_args.len() as nat,
                    ) {
                        Err(e) => Err(e),
                        Ok((resolved, lowerer)) => {
                            let templates = function_templates(
                                lowerer.scopes,
                                lowerer.templates,
                                path,
                            );
                            match c_template_candidates(
                                lowerer,
                                expression,
                                templates,
                                templates.len(),
                                handles(resolved),
                                depth,
                            ) {
                                Err(e) => Err(e),
                                Ok((candidates, lowerer1)) => {
                                    let st1 = CompileState { lowerer: lowerer1, ..st };
                                    let fits = fitting(candidates, args.len() as nat);
                                    finish_call(
                                        c_resolve(st1, expression, fits, fits.len(), depth),
                                        expected,
                                        span,
                                    )
                                },
                            }
                        },
                    }
                },
            },
            _ => match static_path(callee) {
                None => Err(fail(CompileErrorKind::NotImplemented, span)),
                Some(path) => {
                    let fits = fitting(
                        resolve_function(st.lowerer.scopes, path),
                        args.len() as nat,
                    );
                    finish_call(
                        c_resolve(st, expression, fits, fits.len(), depth),
                        expected,
                        span,
                    )
                },
            },
        },
        _ => Err(fail(CompileErrorKind::NotImplemented, span)),
    }
}

/// The functions that the first `count` of the templates give for the
/// arguments.
pub open spec fn c_template_candidates<'a>(
    st: LowererView<'a>,
    expression: &'a ASTExpression,
    templates: Seq<PoolRef<Template<'a>>>,
    count: nat,
    args: Seq<PoolRef<Ty>>,
    depth: nat,
) -> Lowered<'a, Seq<FunctionView>>
    decreases depth, expression, 2nat, count,
{
    if count == 0 || count > templates.len() || depth == 0 {
        Ok((Seq::empty(), st))
    } else {
        match c_template_candidates(
            st,
            expression,
            templates,
            (count - 1) as nat,
            args,
            depth,
        ) {
            Err(e) => Err(e),
            Ok((firsts, st1)) => match instantiate_function(
                st1,
                templates[count - 1],
                args,
                (depth - 1) as nat,
                expression.span,
            ) {
                Err(e) => Err(e),
                Ok((last, st2)) => Ok((firsts.push(last), st2)),
            },
        }
    }
}

/// How many of the first `count` candidates fit the call, and the first
/// of them that does.
pub open spec fn c_resolve<'a>(
    st: CompileState<'a>,
    expression: &'a ASTExpression,
    candidates: Seq<FunctionView>,
    count: nat,
    depth: nat,
) -> Resolution<'a>
    decreases depth, expression, 2nat, count,
{
    if count == 0 || count > candidates.len() {
        Resolution { count: 0, winner: None }
    } else {
        let firsts = c_resolve(st, expression, candidates, (count - 1) as nat, depth);
        match c_speculate(
            st,
            expression,
            candidates[count - 1],
            call_args(expression).len(),
            depth,
        ) {
            None => firsts,
            Some(speculation) => Resolution {
                count: firsts.count + 1,
                winner: if firsts.winner is Some {
                    firsts.winner
                } else {
                    Some((candidates[count - 1], speculation))
                },
            },
        }
    }
}

/// What lowering the first `count` arguments of the call gives for the
/// function: nothing where one of them cannot be lowered with the type of
/// its parameter expected, or has another type. Behind an argument that
/// returns from the function no further one is lowered.
pub open spec fn c_speculate<'a>(
    st: CompileState<'a>,
    expression: &'a ASTExpression,
    function: FunctionView,
    count: nat,
    depth: nat,
) -> Option<Speculation<'a>>
    decreases depth, expression, 1nat, count,
{
    if count == 0 {
        Some(Speculation { state: st, args: Seq::empty(), returning: false })
    } else {
        match c_speculate(st, expression, function, (count - 1) as nat, depth) {
            None => None,
            Some(firsts) => if firsts.returning {
                Some(firsts)
            } else {
                match &expression.kind {
                    ASTExpressionKind::Call(_, args) => if count <= args.len() && count
                        <= function.params.len() {
                        match c_expr(
                            firsts.state,
                            &args[count - 1],
                            Some(function.params[count - 1]),
                            depth,
                        ) {
                            Err(_) => None,
                            Ok((ResultView::Returning, state)) => Some(
                                Speculation { state, args: firsts.args, returning: true },
                            ),
                            Ok((ResultView::Value(value), state)) => if value.ty
                                == function.params[count - 1] && value.id is Some {
                                Some(
                                    Speculation {
                                        state,
                                        args: firsts.args.push(IRValue { id: value.id->0 }),
                                        returning: false,
                                    },
                                )
                            } else {
                                None
                            },
                        }
                    } else {
                        None
                    },
                    _ => None,
                }
            },
        }
    }
}

/// A block: in a scope of its own, the items of the block are processed
/// and its functions are lowered; then its statements are lowered in their
/// order.
pub open spec fn c_block<'a>(
    st: CompileState<'a>,
    block: &'a ASTStatementBlock,
    expected: Option<TyView>,
    depth: nat,
) -> Step<'a, ResultView>
    decreases depth, block, 2nat, 0nat,
{
    let st0 = enter_block(st);
    match process_items(st0.lowerer, block_items(block, block.statements.len() as nat)) {
        Err(e) => Err(e),
        Ok(((), lowerer)) => match lower_block_functions(
            lowerer,
            block,
            block.statements.len() as nat,
            depth,
        ) {
            Err(e) => Err(e),
            Ok(((), lowerer1)) => match c_statements(
                CompileState { lowerer: lowerer1, ..st0 },
                block,
                block.statements.len() as nat,
                expected,
                depth,
            ) {
                Err(e) => Err(e),
                Ok((result, st1)) => match block_result(result, expected, block.span) {
                    Err(e) => Err(e),
                    Ok(result) => Ok((result, leave_block(st1))),
                },
            },
        },
    }
}

/// The first `count` statements of a block. Behind a statement that
/// returns from the function no further one is lowered. A value is asked of
/// the last statement alone.
pub open spec fn c_statements<'a>(
    st: CompileState<'a>,
    block: &'a ASTStatementBlock,
    count: nat,
    expected: Option<TyView>,
    depth: nat,
) -> Step<'a, ResultView>
    decreases depth, block, 1nat, count,
{
    if count == 0 || count > block.statements.len() {
        Ok((ResultView::Value(void_value()), st))
    } else {
        match c_statements(st, block, (count - 1) as nat, expected, depth) {
            Err(e) => Err(e),
            Ok((ResultView::Returning, st1)) => Ok((ResultView::Returning, st1)),
            Ok((ResultView::Value(_), st1)) => c_statement(
                st1,
                &block.statements[count - 1],
                if count == block.statements.len() {
                    wanted(expected)
                } else {
                    None
                },
                depth,
            ),
        }
    }
}

/// A statement. Where it is an expression, a value of the type `expected`
/// is asked of it, if any.
pub open spec fn c_statement<'a>(
    st: CompileState<'a>,
    statement: &'a ASTStatement,
    expected: Option<TyView>,
    depth: nat,
) -> Step<'a, ResultView>
    decreases depth, statement, 0nat, 0nat,
{
    let span = statement.span;
    match &statement.kind {
        ASTStatementKind::Semicolon => Ok((ResultView::Value(void_value()), st)),
        ASTStatementKind::Item(_) => Ok((ResultView::Value(void_value()), st)),
        ASTStatementKind::LocalBinding(name, hint, value) => match value {
            None => Err(fail(CompileErrorKind::NotImplemented, span)),
            Some(value) => match (match hint {
                None => Ok((None, st.lowerer)),
                Some(ast_ty) => match resolve_type(st.lowerer, ast_ty) {
                    Err(e) => Err(e),
                    Ok(((_, ty), lowerer)) => Ok((Some(ty), lowerer)),
                },
            }) {
                Err(e) => Err(e),
                Ok((hint_ty, lowerer)) => match c_expr(
                    CompileState { lowerer, ..st },
                    value,
                    hint_ty,
                    depth,
                ) {
                    Err(e) => Err(e),
                    Ok((ResultView::Returning, st1)) => Ok((ResultView::Returning, st1)),
                    Ok((ResultView::Value(value), st1)) => if value.ty == void_ty() {
                        Err(fail(CompileErrorKind::Type(TypeError::UnexpectedType), span))
                    } else {
                        Ok((ResultView::Value(void_value()), bind(st1, *name, value)))
                    },
                },
            },
        },
        ASTStatementKind::Expression(expression) => c_expr(st, expression, expected, depth),
        ASTStatementKind::Return(expression) => match c_expr(
            st,
            expression,
            Some(st.codegen.return_type),
            depth,
        ) {
            Err(e) => Err(e),
            Ok((ResultView::Returning, st1)) => Ok((ResultView::Returning, st1)),
            Ok((ResultView::Value(value), st1)) => c_return(st1, value, span),
        },
        ASTStatementKind::Break => match innermost_loop(st.codegen) {
            None => Err(fail(CompileErrorKind::OutsideLoop, span)),
            Some((_, end)) => Ok((ResultView::Value(void_value()), emit_jump(st, end))),
        },
        ASTStatementKind::Continue => match innermost_loop(st.codegen) {
            None => Err(fail(CompileErrorKind::OutsideLoop, span)),
            Some((begin, _)) => Ok((ResultView::Value(void_value()), emit_jump(st, begin))),
        },
    }
}

/// Lowers the functions among the first `count` statements of a block.
pub open spec fn lower_block_functions<'a>(
    st: LowererView<'a>,
    block: &'a ASTStatementBlock,
    count: nat,
    depth: nat,
) -> Lowered<'a, ()>
    decreases depth, block, 1nat, count,
{
    if count == 0 || count > block.statements.len() {
        Ok(((), st))
    } else {
        match lower_block_functions(st, block, (count - 1) as nat, depth) {
            Err(e) => Err(e),
            Ok(((), st1)) => match &block.statements[count - 1].kind {
                ASTStatementKind::Item(item) => lower_item_function(st1, item, depth),
                _ => Ok(((), st1)),
            },
        }
    }
}

/// Declares the function `function` in the innermost scope.
pub open spec fn with_function<'a>(st: LowererView<'a>, function: FunctionView) -> LowererView<
    'a,
> {
    LowererView {
        scopes: with_last(
            st.scopes,
            |scope: ScopeView<'a>| ScopeView { functions: scope.functions.push(function), ..scope },
        ),
        ..st
    }
}

/// Lowers the item where it is a function: its signature is resolved, it
/// is declared in the innermost scope, and its body is lowered.
pub open spec fn lower_item_function<'a>(st: LowererView<'a>, item: &'a ASTItem, depth: nat)
    -> Lowered<'a, ()>
    decreases depth, item, 0nat, 0nat,
{
    match &item.kind {
        ASTItemKind::FunctionDef(function_def) => match declare_function(st, function_def) {
            Err(e) => Err(e),
            Ok((function, st1)) => lower_function(
                with_function(st1, function),
                function_def,
                function,
                depth,
            ),
        },
        _ => Ok(((), st)),
    }
}

/// The state in which the lowering of the body of a function begins: its
/// parameters are bound, nothing is made yet.
pub open spec fn function_state<'a>(
    st: LowererView<'a>,
    function: FunctionView,
    bindings: Seq<(Symbol, ValueView)>,
) -> CompileState<'a> {
    CompileState {
        lowerer: st,
        codegen: CodegenView {
            scopes: seq![bindings],
            comps: Seq::empty(),
            label_defs: Seq::empty(),
            counter: 0,
            return_type: function.return_type,
            loops: Seq::empty(),
        },
    }
}

/// Lowers a function with the signature `function`: its parameters get the
/// names `_param_0`, `_param_1` and so on; its body is lowered with the type
/// that it returns expected; the function of the intermediate representation
/// that comes of it is added to those that were lowered.
pub open spec fn lower_function<'a>(
    st: LowererView<'a>,
    function_def: &'a ASTFunctionDef,
    function: FunctionView,
    depth: nat,
) -> Lowered<'a, ()>
    decreases depth, function_def, 0nat, 0nat,
{
    if function_def.params.len() != function.params.len() {
        Err(fail(CompileErrorKind::Type(TypeError::UnexpectedType), function_def.span))
    } else {
        match lower_params(st, function_def, function, function_def.params.len() as nat) {
            Err(e) => Err(e),
            Ok(((params, bindings), st1)) => match c_block(
                function_state(st1, function, bindings),
                &function_def.statement_block,
                Some(function.return_type),
                depth,
            ) {
                Err(e) => Err(e),
                Ok((result, st2)) => finish_function(
                    st2,
                    function,
                    params,
                    result,
                    function_def.span,
                ),
            },
        }
    }
}

/// The function that the template of a function gives for the arguments:
/// the one that it gave before for the same arguments, if there is one. Else
/// the function is lowered in the scopes in which the template was declared,
/// with the parameters of the template standing for the arguments.
pub open spec fn instantiate_function<'a>(
    st: LowererView<'a>,
    template: PoolRef<Template<'a>>,
    args: Seq<PoolRef<Ty>>,
    depth: nat,
    span: Span,
) -> Lowered<'a, FunctionView>
    decreases depth, template_function(st, template), 1nat, 0nat,
{
    match find_compiled(st.compiled, template, args) {
        Some(function) => Ok((function, st)),
        None => if template.index >= st.templates.len() {
            Err(fail(CompileErrorKind::Resolve(ResolveError::UnknownTemplate), span))
        } else {
            let view = st.templates[template.index as int];
            match view.kind {
                TemplateKind::Struct(_) => Err(
                    fail(CompileErrorKind::Resolve(ResolveError::UnknownTemplate), span),
                ),
                TemplateKind::Function(function_def) => if args.len() != view.params.len() {
                    Err(fail(CompileErrorKind::Template(TemplateError::ArityMismatch), span))
                } else {
                    match declare_function(
                        LowererView { scopes: instantiation_scopes(view, args), ..st },
                        function_def,
                    ) {
                        Err(e) => Err(e),
                        Ok((function, st1)) => match lower_function(
                            LowererView {
                                compiled: st1.compiled.push(
                                    CompiledView { template, args, function },
                                ),
                                ..st1
                            },
                            function_def,
                            function,
                            depth,
                        ) {
                            Err(e) => Err(e),
                            Ok(((), st2)) => Ok((function, LowererView { scopes: st.scopes, ..st2 })),
                        },
                    }
                },
            }
        },
    }
}

/// Lowers the functions among the first `count` items of a module.
pub open spec fn lower_module_functions<'a>(
    st: LowererView<'a>,
    module: &'a ASTModule,
    count: nat,
    depth: nat,
) -> Lowered<'a, ()>
    decreases depth, module, 1nat, count,
{
    if count == 0 || count > module.items.len() {
        Ok(((), st))
    } else {
        match lower_module_functions(st, module, (count - 1) as nat, depth) {
            Err(e) => Err(e),
            Ok(((), st1)) => lower_item_function(st1, &module.items[count - 1], depth),
        }
    }
}

} // verus!

verus! {

/// The handles of the primitive types in a pool that held `base` types
/// before they were added.
pub open spec fn default_handles(base: nat) -> Seq<PoolRef<Ty>> {
    Seq::new(11, |k: int| crate::solidlang::lowerer::model::ty_ref((base + k) as nat))
}

/// Adds the primitive types to the pool and declares them under their
/// names in the innermost scope.
pub open spec fn register_defaults<'a>(st: LowererView<'a>) -> Lowered<'a, ()> {
    if st.tys.len() + 11 > usize::MAX || st.count + 11 > u64::MAX {
        Err(fail(CompileErrorKind::LimitExceeded, crate::solidlang::lowerer::model::no_span()))
    } else {
        let interned = crate::solidlang::context::item::intern_defaults(st.names, st.count, 11);
        Ok(
            (
                (),
                LowererView {
                    tys: st.tys + crate::solidlang::context::ty::default_primitives().map_values(
                        |p: TyPrimitive| TyView::Primitive(p),
                    ),
                    names: interned.0,
                    count: interned.1,
                    scopes: with_last(
                        st.scopes,
                        |scope: ScopeView<'a>|
                            ScopeView {
                                tys: scope.tys + crate::solidlang::context::item::default_entries(
                                    interned.2,
                                    default_handles(st.tys.len()),
                                ),
                                ..scope
                            },
                    ),
                    ..st
                },
            ),
        )
    }
}

/// Lowers a module: in a scope in which the primitive types are declared,
/// the items of the module are processed and its functions are lowered.
pub open spec fn process_module<'a>(st: LowererView<'a>, module: &'a ASTModule) -> Lowered<
    'a,
    (),
> {
    match register_defaults(LowererView { scopes: st.scopes.push(empty_scope()), ..st }) {
        Err(e) => Err(e),
        Ok(((), st1)) => match process_items(
            st1,
            module_items(module, module.items.len() as nat),
        ) {
            Err(e) => Err(e),
            Ok(((), st2)) => match lower_module_functions(
                st2,
                module,
                module.items.len() as nat,
                st2.max_depth,
            ) {
                Err(e) => Err(e),
                Ok(((), st3)) => Ok(((), LowererView { scopes: st3.scopes.drop_last(), ..st3 })),
            },
        },
    }
}

} // verus!
