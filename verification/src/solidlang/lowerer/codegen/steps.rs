//! The single steps of the lowering of a function.

use crate::globals::Symbol;
use crate::ir::comp::{
    IRComp, IRCompBinaryOperation, IRCompBinaryOperationKind, IRCompConstant, IRCompKind,
    IRCompUnaryOperation, IRCompUnaryOperationKind,
};
use crate::ir::interpreter::bytes::encode_uint;
use crate::ir::{IRItem, IRItemFunctionDef, IRItemKind, IRType, IRValue};
use crate::solidlang::ast::{ASTFunctionDef, ASTOperator, ASTType};
use crate::solidlang::context::function::{Function, FunctionView};
use crate::solidlang::context::layout::{aligned_fields, LayoutError};
use crate::solidlang::context::pool::PoolRef;
use crate::solidlang::context::ty::{
    laid_out, lemma_relayout_struct, relayout_sizes, Ty, TyKind, TyPrimitive, TyView,
};
use crate::solidlang::lowerer::codegen::model::{
    binary_kind, block_result, branch_head, branch_jump, c_binary, c_boolean, c_ident, c_integer,
    c_return, c_unary, declare_function, emit_value, finish_function, get_ir_name, intern_name,
    ir_type_of, is_comparison_operator, is_integer, is_signed, left_operand_fits, lower_params,
    max_literal, merge_branches, new_id, operand_of, param_types, place, resolve_type,
    resolved_for_layout,
    resolve_types, store_branch, unary_kind, value_slot, wanted, CompileState,
};
use crate::solidlang::lowerer::codegen::{
    CodegenContext, CompilationResult, ResultView, Value, ValueView,
};
use crate::solidlang::lowerer::error::{
    CompileError, CompileErrorKind, ResolveError, TypeError,
};
use crate::solidlang::lowerer::model::LowererView;
use crate::solidlang::lowerer::{pending_view, Lowerer, Unresolved, UnresolvedGeneric};
use crate::solidlang::span::Span;
use crate::text::{decimal, push_decimal, push_str, string_from_chars};
use vstd::prelude::*;

verus! {

/// The state of the lowering.
pub open spec fn compile_state<'a>(lowerer: &Lowerer<'a>, ctx: &CodegenContext) -> CompileState<
    'a,
> {
    CompileState { lowerer: lowerer@, codegen: ctx@ }
}

pub fn check_integer(primitive: TyPrimitive) -> (r: bool)
    ensures
        r == is_integer(primitive),
{
    match primitive {
        TyPrimitive::Bool | TyPrimitive::Char | TyPrimitive::Void => false,
        _ => true,
    }
}

pub fn check_signed(primitive: TyPrimitive) -> (r: bool)
    ensures
        r == is_signed(primitive),
{
    match primitive {
        TyPrimitive::I8 | TyPrimitive::I16 | TyPrimitive::I32 | TyPrimitive::I64 => true,
        _ => false,
    }
}

/// The largest number that a literal of the integer type can be.
pub fn largest_literal(primitive: TyPrimitive) -> (r: u64)
    ensures
        r == max_literal(primitive),
{
    match primitive {
        TyPrimitive::U8 => 0xff,
        TyPrimitive::I8 => 0x7f,
        TyPrimitive::U16 => 0xffff,
        TyPrimitive::I16 => 0x7fff,
        TyPrimitive::U32 => 0xffff_ffff,
        TyPrimitive::I32 => 0x7fff_ffff,
        TyPrimitive::U64 => 0xffff_ffff_ffff_ffff,
        TyPrimitive::I64 => 0x7fff_ffff_ffff_ffff,
        _ => 0,
    }
}

/// The storage that a value of the type needs.
pub fn ir_type(ty: &Ty) -> (r: Option<IRType>)
    ensures
        r == ir_type_of(ty@),
{
    if ty.is_placeholder() {
        None
    } else {
        let (size, align) = ty.get_size_and_align();
        Some(IRType { size: size as u64, align: align as u64 })
    }
}

/// The value as an operand of a computation.
pub fn value_operand(value: &Value, span: Span) -> (r: Result<IRValue, CompileError>)
    ensures
        r == operand_of(value@, span),
{
    match value.id {
        Some(id) => Ok(IRValue { id }),
        None => Err(
            CompileError { kind: CompileErrorKind::Type(TypeError::OperatorMismatch), span },
        ),
    }
}

pub fn check_comparison_operator(operator: ASTOperator) -> (r: bool)
    ensures
        r == is_comparison_operator(operator),
{
    match operator {
        ASTOperator::Equal
        | ASTOperator::NotEqual
        | ASTOperator::Greater
        | ASTOperator::Lesser
        | ASTOperator::GreaterEqual
        | ASTOperator::LesserEqual => true,
        _ => false,
    }
}

pub fn binary_operation_kind(operator: ASTOperator) -> (r: Option<IRCompBinaryOperationKind>)
    ensures
        r == binary_kind(operator),
{
    match operator {
        ASTOperator::Plus => Some(IRCompBinaryOperationKind::Plus),
        ASTOperator::Minus => Some(IRCompBinaryOperationKind::Minus),
        ASTOperator::Mul => Some(IRCompBinaryOperationKind::Mul),
        ASTOperator::Div => Some(IRCompBinaryOperationKind::Div),
        ASTOperator::Mod => Some(IRCompBinaryOperationKind::Mod),
        ASTOperator::BitAnd => Some(IRCompBinaryOperationKind::BitAnd),
        ASTOperator::BitOr => Some(IRCompBinaryOperationKind::BitOr),
        ASTOperator::BoolAnd => Some(IRCompBinaryOperationKind::BitAnd),
        ASTOperator::BoolOr => Some(IRCompBinaryOperationKind::BitOr),
        ASTOperator::BitRShift => Some(IRCompBinaryOperationKind::BitRShift),
        ASTOperator::BitLShift => Some(IRCompBinaryOperationKind::BitLShift),
        ASTOperator::Equal => Some(IRCompBinaryOperationKind::Equal),
        ASTOperator::NotEqual => Some(IRCompBinaryOperationKind::NotEqual),
        ASTOperator::Greater => Some(IRCompBinaryOperationKind::Greater),
        ASTOperator::Lesser => Some(IRCompBinaryOperationKind::Lesser),
        ASTOperator::GreaterEqual => Some(IRCompBinaryOperationKind::GreaterEqual),
        ASTOperator::LesserEqual => Some(IRCompBinaryOperationKind::LesserEqual),
        _ => None,
    }
}

pub fn unary_operation_kind(operator: ASTOperator, ty: &Ty) -> (r: Option<
    IRCompUnaryOperationKind,
>)
    ensures
        r == unary_kind(operator, ty@),
{
    match &ty.kind {
        TyKind::Primitive(primitive) => match operator {
            ASTOperator::BoolNot => match primitive {
                TyPrimitive::Bool => Some(IRCompUnaryOperationKind::BoolNot),
                _ => None,
            },
            ASTOperator::Minus => if check_signed(*primitive) {
                Some(IRCompUnaryOperationKind::SignedNegation)
            } else {
                None
            },
            ASTOperator::BitNot => if check_integer(*primitive) {
                Some(IRCompUnaryOperationKind::BitNot)
            } else {
                None
            },
            _ => None,
        },
        _ => None,
    }
}

pub fn check_left_operand(operator: ASTOperator, ty: &Ty) -> (r: bool)
    ensures
        r == left_operand_fits(operator, ty@),
{
    match &ty.kind {
        TyKind::Primitive(primitive) => match operator {
            ASTOperator::BoolAnd | ASTOperator::BoolOr => match primitive {
                TyPrimitive::Bool => true,
                _ => false,
            },
            _ => check_integer(*primitive),
        },
        _ => false,
    }
}

/// The type that is asked of the last expression of a block.
pub fn wanted_ty(expected: Option<&Ty>) -> (r: Option<&Ty>)
    ensures
        option_ty_view(r) == wanted(option_ty_view(expected)),
{
    match expected {
        Some(ty) => if ty.equals(&Ty::from_primitive(TyPrimitive::Void)) {
            None
        } else {
            Some(ty)
        },
        None => None,
    }
}

/// The view of a type that may be expected.
pub open spec fn option_ty_view(ty: Option<&Ty>) -> Option<TyView> {
    match ty {
        Some(ty) => Some(ty@),
        None => None,
    }
}

impl<'a> Lowerer<'a> {
    /// The symbol of `name`.
    pub fn intern_name(&mut self, name: &str, span: Span) -> (r: Result<Symbol, CompileError>)
        requires
            old(self).wf(),
        ensures
            final(self).wf(),
            final(self)@.scopes == old(self)@.scopes,
            r is Err ==> final(self)@ == old(self)@,
            match r {
                Ok(symbol) => intern_name(old(self)@, name@, span) == Ok::<
                    (Symbol, LowererView<'a>),
                    CompileError,
                >((symbol, final(self)@)),
                Err(e) => intern_name(old(self)@, name@, span) == Err::<
                    (Symbol, LowererView<'a>),
                    CompileError,
                >(e),
            },
    {
        match self.interner.try_intern(name) {
            Some(symbol) => Ok(symbol),
            None => Err(CompileError { kind: CompileErrorKind::LimitExceeded, span }),
        }
    }

    /// A new name for a value or a label of the function.
    pub fn new_id(&mut self, ctx: &mut CodegenContext, prefix: &str, span: Span) -> (r: Result<
        Symbol,
        CompileError,
    >)
        requires
            old(self).wf(),
        ensures
            final(self).wf(),
            final(self)@.scopes == old(self)@.scopes,
            final(ctx)@.scopes == old(ctx)@.scopes,
            r is Err ==> compile_state(final(self), final(ctx)) == compile_state(old(self), old(ctx)),
            match r {
                Ok(symbol) => new_id(compile_state(old(self), old(ctx)), prefix@, span) == Ok::<
                    (Symbol, CompileState<'a>),
                    CompileError,
                >((symbol, compile_state(final(self), final(ctx)))),
                Err(e) => new_id(compile_state(old(self), old(ctx)), prefix@, span) == Err::<
                    (Symbol, CompileState<'a>),
                    CompileError,
                >(e),
            },
    {
        if ctx.counter >= u64::MAX {
            return Err(CompileError { kind: CompileErrorKind::LimitExceeded, span });
        }
        let mut name: Vec<char> = Vec::new();
        push_str(&mut name, prefix);
        push_decimal(&mut name, ctx.counter);
        let text = string_from_chars(&name);
        assert(text@ =~= prefix@ + decimal(ctx.counter as nat));
        let id = match self.intern_name(text.as_str(), span) {
            Err(e) => {
                return Err(e);
            },
            Ok(id) => id,
        };
        ctx.counter = ctx.counter + 1;
        Ok(id)
    }

    /// Adds a computation under a new name and gives the value that it
    /// yields.
    pub fn emit_value(&mut self, ctx: &mut CodegenContext, kind: IRCompKind, ty: Ty, span: Span)
        -> (r: Result<CompilationResult, CompileError>)
        requires
            old(self).wf(),
        ensures
            final(self).wf(),
            final(self)@.scopes == old(self)@.scopes,
            final(ctx)@.scopes == old(ctx)@.scopes,
            r is Err ==> compile_state(final(self), final(ctx)) == compile_state(old(self), old(ctx)),
            match r {
                Ok(result) => emit_value(compile_state(old(self), old(ctx)), kind@, ty@, span)
                    == Ok::<(ResultView, CompileState<'a>), CompileError>(
                    (result@, compile_state(final(self), final(ctx))),
                ),
                Err(e) => emit_value(compile_state(old(self), old(ctx)), kind@, ty@, span)
                    == Err::<(ResultView, CompileState<'a>), CompileError>(e),
            },
    {
        let id = match self.new_id(ctx, "_v", span) {
            Err(e) => {
                return Err(e);
            },
            Ok(id) => id,
        };
        ctx.add_computation(IRComp { kind, id: Some(id) });
        Ok(CompilationResult::Value(Value::new_direct(id, ty)))
    }

    /// An identifier.
    pub fn compile_ident(&self, ctx: &CodegenContext, name: Symbol, expected: Option<&Ty>, span: Span)
        -> (r: Result<CompilationResult, CompileError>)
        ensures
            match r {
                Ok(result) => c_ident(
                    compile_state(self, ctx),
                    name,
                    option_ty_view(expected),
                    span,
                ) == Ok::<(ResultView, CompileState<'a>), CompileError>(
                    (result@, compile_state(self, ctx)),
                ),
                Err(e) => c_ident(compile_state(self, ctx), name, option_ty_view(expected), span)
                    == Err::<(ResultView, CompileState<'a>), CompileError>(e),
            },
    {
        match ctx.resolve_name(name) {
            None => Err(
                CompileError {
                    kind: CompileErrorKind::Resolve(ResolveError::UnknownIdentifier),
                    span,
                },
            ),
            Some(value) => {
                match expected {
                    Some(expected) => if !value.ty.equals(expected) {
                        return Err(
                            CompileError {
                                kind: CompileErrorKind::Type(TypeError::UnexpectedType),
                                span,
                            },
                        );
                    },
                    None => {},
                }
                Ok(CompilationResult::Value(value))
            },
        }
    }

    /// A number.
    pub fn compile_integer(
        &mut self,
        ctx: &mut CodegenContext,
        value: u64,
        expected: Option<&Ty>,
        span: Span,
    ) -> (r: Result<CompilationResult, CompileError>)
        requires
            old(self).wf(),
        ensures
            final(self).wf(),
            final(self)@.scopes == old(self)@.scopes,
            final(ctx)@.scopes == old(ctx)@.scopes,
            r is Err ==> compile_state(final(self), final(ctx)) == compile_state(old(self), old(ctx)),
            match r {
                Ok(result) => c_integer(
                    compile_state(old(self), old(ctx)),
                    value,
                    option_ty_view(expected),
                    span,
                ) == Ok::<(ResultView, CompileState<'a>), CompileError>(
                    (result@, compile_state(final(self), final(ctx))),
                ),
                Err(e) => c_integer(
                    compile_state(old(self), old(ctx)),
                    value,
                    option_ty_view(expected),
                    span,
                ) == Err::<(ResultView, CompileState<'a>), CompileError>(e),
            },
    {
        let i32_ty = Ty::from_primitive(TyPrimitive::I32);
        let expected_type = match expected {
            Some(expected) => expected,
            None => &i32_ty,
        };
        let primitive = match &expected_type.kind {
            TyKind::Primitive(primitive) => *primitive,
            _ => {
                return Err(
                    CompileError { kind: CompileErrorKind::Type(TypeError::UnexpectedType), span },
                );
            },
        };
        if !check_integer(primitive) {
            return Err(
                CompileError { kind: CompileErrorKind::Type(TypeError::UnexpectedType), span },
            );
        }
        if value > largest_literal(primitive) {
            return Err(
                CompileError { kind: CompileErrorKind::Type(TypeError::LiteralOverflow), span },
            );
        }
        let ty = Ty::from_primitive(primitive);
        let (width, _) = ty.get_size_and_align();
        let bytes = encode_uint(value, width, self.endian);
        self.emit_value(ctx, IRCompKind::Constant(IRCompConstant { bytes }), ty, span)
    }

    /// A truth value.
    pub fn compile_boolean(
        &mut self,
        ctx: &mut CodegenContext,
        value: bool,
        expected: Option<&Ty>,
        span: Span,
    ) -> (r: Result<CompilationResult, CompileError>)
        requires
            old(self).wf(),
        ensures
            final(self).wf(),
            final(self)@.scopes == old(self)@.scopes,
            final(ctx)@.scopes == old(ctx)@.scopes,
            r is Err ==> compile_state(final(self), final(ctx)) == compile_state(old(self), old(ctx)),
            match r {
                Ok(result) => c_boolean(
                    compile_state(old(self), old(ctx)),
                    value,
                    option_ty_view(expected),
                    span,
                ) == Ok::<(ResultView, CompileState<'a>), CompileError>(
                    (result@, compile_state(final(self), final(ctx))),
                ),
                Err(e) => c_boolean(
                    compile_state(old(self), old(ctx)),
                    value,
                    option_ty_view(expected),
                    span,
                ) == Err::<(ResultView, CompileState<'a>), CompileError>(e),
            },
    {
        let bool_type = Ty::from_primitive(TyPrimitive::Bool);
        match expected {
            Some(expected) => if !expected.equals(&bool_type) {
                return Err(
                    CompileError { kind: CompileErrorKind::Type(TypeError::UnexpectedType), span },
                );
            },
            None => {},
        }
        let mut bytes: Vec<u8> = Vec::new();
        bytes.push(if value { 1 } else { 0 });
        proof {
            assert(bytes@ =~= seq![if value {
                1u8
            } else {
                0u8
            }]);
        }
        self.emit_value(ctx, IRCompKind::Constant(IRCompConstant { bytes }), bool_type, span)
    }

    /// A unary operation on a value.
    pub fn compile_unary(
        &mut self,
        ctx: &mut CodegenContext,
        operator: ASTOperator,
        value: &Value,
        span: Span,
    ) -> (r: Result<CompilationResult, CompileError>)
        requires
            old(self).wf(),
        ensures
            final(self).wf(),
            final(self)@.scopes == old(self)@.scopes,
            final(ctx)@.scopes == old(ctx)@.scopes,
            match r {
                Ok(result) => c_unary(compile_state(old(self), old(ctx)), operator, value@, span)
                    == Ok::<(ResultView, CompileState<'a>), CompileError>(
                    (result@, compile_state(final(self), final(ctx))),
                ),
                Err(e) => c_unary(compile_state(old(self), old(ctx)), operator, value@, span)
                    == Err::<(ResultView, CompileState<'a>), CompileError>(e),
            },
    {
        match (unary_operation_kind(operator, &value.ty), value_operand(value, span)) {
            (Some(kind), Ok(operand)) => self.emit_value(
                ctx,
                IRCompKind::UnaryOperation(IRCompUnaryOperation { kind, operand }),
                value.ty.clone(),
                span,
            ),
            _ => Err(
                CompileError { kind: CompileErrorKind::Type(TypeError::OperatorMismatch), span },
            ),
        }
    }

    /// A binary operation on two values.
    pub fn compile_binary(
        &mut self,
        ctx: &mut CodegenContext,
        operator: ASTOperator,
        left: &Value,
        right: &Value,
        ty: Ty,
        span: Span,
    ) -> (r: Result<CompilationResult, CompileError>)
        requires
            old(self).wf(),
        ensures
            final(self).wf(),
            final(self)@.scopes == old(self)@.scopes,
            final(ctx)@.scopes == old(ctx)@.scopes,
            match r {
                Ok(result) => c_binary(
                    compile_state(old(self), old(ctx)),
                    operator,
                    left@,
                    right@,
                    ty@,
                    span,
                ) == Ok::<(ResultView, CompileState<'a>), CompileError>(
                    (result@, compile_state(final(self), final(ctx))),
                ),
                Err(e) => c_binary(
                    compile_state(old(self), old(ctx)),
                    operator,
                    left@,
                    right@,
                    ty@,
                    span,
                ) == Err::<(ResultView, CompileState<'a>), CompileError>(e),
            },
    {
        match (
            binary_operation_kind(operator),
            value_operand(left, span),
            value_operand(right, span),
        ) {
            (Some(kind), Ok(left_operand), Ok(right_operand)) => self.emit_value(
                ctx,
                IRCompKind::BinaryOperation(
                    IRCompBinaryOperation { kind, left_operand, right_operand },
                ),
                ty,
                span,
            ),
            _ => Err(
                CompileError { kind: CompileErrorKind::Type(TypeError::OperatorMismatch), span },
            ),
        }
    }

    /// The return of `value` from the function.
    pub fn compile_return(&mut self, ctx: &mut CodegenContext, value: &Value, span: Span) -> (r:
        Result<CompilationResult, CompileError>)
        requires
            old(self).wf(),
        ensures
            final(self).wf(),
            final(self)@.scopes == old(self)@.scopes,
            final(ctx)@.scopes == old(ctx)@.scopes,
            match r {
                Ok(result) => c_return(compile_state(old(self), old(ctx)), value@, span) == Ok::<
                    (ResultView, CompileState<'a>),
                    CompileError,
                >((result@, compile_state(final(self), final(ctx)))),
                Err(e) => c_return(compile_state(old(self), old(ctx)), value@, span) == Err::<
                    (ResultView, CompileState<'a>),
                    CompileError,
                >(e),
            },
    {
        let id = match value.id {
            Some(id) => id,
            None => {
                let id = match self.new_id(ctx, "_v", span) {
                    Err(e) => {
                        return Err(e);
                    },
                    Ok(id) => id,
                };
                let bytes: Vec<u8> = Vec::new();
                ctx.add_computation(
                    IRComp { kind: IRCompKind::Constant(IRCompConstant { bytes }), id: Some(id) },
                );
                id
            },
        };
        ctx.add_computation(IRComp { kind: IRCompKind::Return(IRValue { id }), id: None });
        Ok(CompilationResult::Returning)
    }

    /// A jump to `label` where the truth value `condition` does not hold.
    pub fn compile_branch_jump(
        &mut self,
        ctx: &mut CodegenContext,
        condition: &Value,
        label: Symbol,
        span: Span,
    ) -> (r: Result<(), CompileError>)
        requires
            old(self).wf(),
        ensures
            final(self).wf(),
            final(self)@.scopes == old(self)@.scopes,
            final(ctx)@.scopes == old(ctx)@.scopes,
            match r {
                Ok(()) => branch_jump(compile_state(old(self), old(ctx)), condition@, label, span)
                    == Ok::<((), CompileState<'a>), CompileError>(
                    ((), compile_state(final(self), final(ctx))),
                ),
                Err(e) => branch_jump(compile_state(old(self), old(ctx)), condition@, label, span)
                    == Err::<((), CompileState<'a>), CompileError>(e),
            },
    {
        let operand = match value_operand(condition, span) {
            Err(e) => {
                return Err(e);
            },
            Ok(operand) => operand,
        };
        let negation = match self.new_id(ctx, "_v", span) {
            Err(e) => {
                return Err(e);
            },
            Ok(id) => id,
        };
        ctx.add_computation(
            IRComp {
                kind: IRCompKind::UnaryOperation(
                    IRCompUnaryOperation { kind: IRCompUnaryOperationKind::BoolNot, operand },
                ),
                id: Some(negation),
            },
        );
        ctx.add_computation(
            IRComp { kind: IRCompKind::If(IRValue { id: negation }, label), id: None },
        );
        Ok(())
    }

    /// The head of a branch on the truth value `condition`.
    pub fn compile_branch_head(&mut self, ctx: &mut CodegenContext, condition: &Value, span: Span)
        -> (r: Result<(Symbol, Symbol), CompileError>)
        requires
            old(self).wf(),
        ensures
            final(self).wf(),
            final(self)@.scopes == old(self)@.scopes,
            final(ctx)@.scopes == old(ctx)@.scopes,
            match r {
                Ok(labels) => branch_head(compile_state(old(self), old(ctx)), condition@, span)
                    == Ok::<((Symbol, Symbol), CompileState<'a>), CompileError>(
                    (labels, compile_state(final(self), final(ctx))),
                ),
                Err(e) => branch_head(compile_state(old(self), old(ctx)), condition@, span)
                    == Err::<((Symbol, Symbol), CompileState<'a>), CompileError>(e),
            },
    {
        let first = match self.new_id(ctx, "_l", span) {
            Err(e) => {
                return Err(e);
            },
            Ok(id) => id,
        };
        let second = match self.new_id(ctx, "_l", span) {
            Err(e) => {
                return Err(e);
            },
            Ok(id) => id,
        };
        match self.compile_branch_jump(ctx, condition, first, span) {
            Err(e) => Err(e),
            Ok(()) => Ok((first, second)),
        }
    }

    /// The place in memory in which the branches of an `if` leave its
    /// value.
    pub fn compile_value_slot(&mut self, ctx: &mut CodegenContext, expected: Option<&Ty>, span: Span)
        -> (r: Result<Option<(Symbol, IRType)>, CompileError>)
        requires
            old(self).wf(),
        ensures
            final(self).wf(),
            final(self)@.scopes == old(self)@.scopes,
            final(ctx)@.scopes == old(ctx)@.scopes,
            match r {
                Ok(slot) => value_slot(
                    compile_state(old(self), old(ctx)),
                    option_ty_view(expected),
                    span,
                ) == Ok::<(Option<(Symbol, IRType)>, CompileState<'a>), CompileError>(
                    (slot, compile_state(final(self), final(ctx))),
                ),
                Err(e) => value_slot(
                    compile_state(old(self), old(ctx)),
                    option_ty_view(expected),
                    span,
                ) == Err::<(Option<(Symbol, IRType)>, CompileState<'a>), CompileError>(e),
            },
    {
        let ty = match wanted_ty(expected) {
            None => {
                return Ok(None);
            },
            Some(ty) => ty,
        };
        let ir_type = match ir_type(ty) {
            None => {
                return Err(
                    CompileError { kind: CompileErrorKind::Layout(LayoutError::Unresolved), span },
                );
            },
            Some(ir_type) => ir_type,
        };
        let slot = match self.new_id(ctx, "_v", span) {
            Err(e) => {
                return Err(e);
            },
            Ok(id) => id,
        };
        ctx.add_computation(IRComp { kind: IRCompKind::Alloc(ir_type), id: Some(slot) });
        Ok(Some((slot, ir_type)))
    }
}

/// Leaves the value of a branch in the place for the value of the `if`.
pub fn compile_store_branch<'a>(
    lowerer: &Lowerer<'a>,
    ctx: &mut CodegenContext,
    slot: Option<(Symbol, IRType)>,
    result: &CompilationResult,
    span: Span,
) -> (r: Result<(), CompileError>)
    ensures
        final(ctx)@.scopes == old(ctx)@.scopes,
        match r {
            Ok(()) => store_branch(compile_state(lowerer, old(ctx)), slot, result@, span) == Ok::<
                ((), CompileState<'a>),
                CompileError,
            >(((), compile_state(lowerer, final(ctx)))),
            Err(e) => store_branch(compile_state(lowerer, old(ctx)), slot, result@, span) == Err::<
                ((), CompileState<'a>),
                CompileError,
            >(e),
        },
{
    match (slot, result) {
        (Some((slot, ir_type)), CompilationResult::Value(value)) => {
            let operand = match value_operand(value, span) {
                Err(e) => {
                    return Err(e);
                },
                Ok(operand) => operand,
            };
            ctx.add_computation(
                IRComp { kind: IRCompKind::Store(ir_type, IRValue { id: slot }, operand), id: None },
            );
            Ok(())
        },
        _ => Ok(()),
    }
}

/// What a block gives.
pub fn compile_block_result(result: CompilationResult, expected: Option<&Ty>, span: Span) -> (r:
    Result<CompilationResult, CompileError>)
    ensures
        match r {
            Ok(checked) => block_result(result@, option_ty_view(expected), span) == Ok::<
                ResultView,
                CompileError,
            >(checked@),
            Err(e) => block_result(result@, option_ty_view(expected), span) == Err::<
                ResultView,
                CompileError,
            >(e),
        },
{
    match result {
        CompilationResult::Returning => Ok(CompilationResult::Returning),
        CompilationResult::Value(value) => match wanted_ty(expected) {
            Some(ty) => if value.ty.equals(ty) {
                Ok(CompilationResult::Value(value))
            } else {
                Err(CompileError { kind: CompileErrorKind::Type(TypeError::UnexpectedType), span })
            },
            None => Ok(CompilationResult::Value(Value::new_none())),
        },
    }
}

} // verus!

verus! {

/// The views of resolved types.
pub open spec fn resolved_view(resolved: Seq<(PoolRef<Ty>, Ty)>) -> Seq<(PoolRef<Ty>, TyView)> {
    resolved.map_values(|r: (PoolRef<Ty>, Ty)| (r.0, r.1@))
}

impl<'a> Lowerer<'a> {
    /// What an `if` gives behind its branches.
    pub fn compile_merge_branches(
        &mut self,
        ctx: &mut CodegenContext,
        slot: Option<(Symbol, IRType)>,
        expected: Option<&Ty>,
        first: &CompilationResult,
        second: &CompilationResult,
        span: Span,
    ) -> (r: Result<CompilationResult, CompileError>)
        requires
            old(self).wf(),
        ensures
            final(self).wf(),
            final(self)@.scopes == old(self)@.scopes,
            final(ctx)@.scopes == old(ctx)@.scopes,
            match r {
                Ok(result) => merge_branches(
                    compile_state(old(self), old(ctx)),
                    slot,
                    option_ty_view(expected),
                    first@,
                    second@,
                    span,
                ) == Ok::<(ResultView, CompileState<'a>), CompileError>(
                    (result@, compile_state(final(self), final(ctx))),
                ),
                Err(e) => merge_branches(
                    compile_state(old(self), old(ctx)),
                    slot,
                    option_ty_view(expected),
                    first@,
                    second@,
                    span,
                ) == Err::<(ResultView, CompileState<'a>), CompileError>(e),
            },
    {
        match (first, second) {
            (CompilationResult::Returning, CompilationResult::Returning) => {
                return Ok(CompilationResult::Returning);
            },
            (CompilationResult::Value(a), CompilationResult::Value(b)) => {
                if !a.ty.equals(&b.ty) {
                    return Err(
                        CompileError {
                            kind: CompileErrorKind::Type(TypeError::BranchMismatch),
                            span,
                        },
                    );
                }
            },
            _ => {},
        }
        match (slot, wanted_ty(expected)) {
            (Some((slot, ir_type)), Some(ty)) => self.emit_value(
                ctx,
                IRCompKind::Load(ir_type, IRValue { id: slot }),
                ty.clone(),
                span,
            ),
            _ => Ok(CompilationResult::Value(Value::new_none())),
        }
    }

    /// The type that a type of the program stands for, with its layout.
    pub fn resolve_type(&mut self, ast_ty: &'a ASTType) -> (r: Result<
        (PoolRef<Ty>, Ty),
        CompileError,
    >)
        requires
            old(self).wf(),
        ensures
            final(self).wf(),
            r is Ok ==> final(self)@.scopes == old(self)@.scopes,
            match r {
                Ok((ty, value)) => resolve_type(old(self)@, ast_ty) == Ok::<
                    ((PoolRef<Ty>, TyView), LowererView<'a>),
                    CompileError,
                >(((ty, value@), final(self)@)),
                Err(e) => resolve_type(old(self)@, ast_ty) == Err::<
                    ((PoolRef<Ty>, TyView), LowererView<'a>),
                    CompileError,
                >(e),
            },
            r matches Ok((ty, value)) ==> ty.index < final(self)@.tys.len(),
            r matches Ok((ty, value)) ==> final(self)@.tys[ty.index as int] == value@,
            match r {
                Ok((ty, value)) => value@ is Struct ==> ({
                    let found = resolved_for_layout(old(self)@, ast_ty)->0;
                    let pool = found.1;
                    let sizes = relayout_sizes(pool, ty.index as int, pool.len());
                    &&& pool[ty.index as int] is Struct
                    &&& value@ == laid_out(pool[ty.index as int]->fields, sizes)
                    &&& aligned_fields(sizes)
                    &&& value@->align >= 1
                    &&& value@->size as nat % value@->align as nat == 0
                }),
                Err(_) => true,
            },
    {
        let mut unresolved: Vec<Unresolved> = Vec::new();
        let mut unresolved_with_generics: Vec<UnresolvedGeneric> = Vec::new();
        proof {
            assert(pending_view(unresolved@, unresolved_with_generics@).unresolved
                =~= crate::solidlang::lowerer::model::no_pending().unresolved);
            assert(pending_view(unresolved@, unresolved_with_generics@).generics
                =~= crate::solidlang::lowerer::model::no_pending().generics);
        }
        let ty = match self.ast_type_to_ty(ast_ty, &mut unresolved, &mut unresolved_with_generics) {
            Err(e) => {
                return Err(e);
            },
            Ok(ty) => ty,
        };
        proof {
            assert(pending_view(unresolved@, Seq::empty()).unresolved == pending_view(
                unresolved@,
                unresolved_with_generics@,
            ).unresolved);
            assert(pending_view(Seq::empty(), unresolved_with_generics@).generics == pending_view(
                unresolved@,
                unresolved_with_generics@,
            ).generics);
        }
        match self.resolve_unresolved(&unresolved) {
            Err(e) => {
                return Err(e);
            },
            Ok(()) => {},
        }
        let depth = self.max_depth;
        match self.resolve_unresolved_generics(&unresolved_with_generics, depth) {
            Err(e) => {
                return Err(e);
            },
            Ok(()) => {},
        }
        let ghost pool = self@.tys;
        match self.relayout_one(ty, ast_ty.span) {
            Err(e) => {
                return Err(e);
            },
            Ok(()) => {},
        }
        proof {
            if pool[ty.index as int] is Struct {
                lemma_relayout_struct(pool, ty.index as int, pool.len());
            }
        }
        let value = self.tys.get(ty).clone();
        Ok((ty, value))
    }

    /// The types that the given types of the program stand for.
    pub fn resolve_types(&mut self, ast_tys: &Vec<&'a ASTType>) -> (r: Result<
        Vec<(PoolRef<Ty>, Ty)>,
        CompileError,
    >)
        requires
            old(self).wf(),
        ensures
            final(self).wf(),
            r is Ok ==> final(self)@.scopes == old(self)@.scopes,
            match r {
                Ok(resolved) => resolve_types(old(self)@, ast_tys@, ast_tys.len() as nat) == Ok::<
                    (Seq<(PoolRef<Ty>, TyView)>, LowererView<'a>),
                    CompileError,
                >((resolved_view(resolved@), final(self)@)),
                Err(e) => resolve_types(old(self)@, ast_tys@, ast_tys.len() as nat) == Err::<
                    (Seq<(PoolRef<Ty>, TyView)>, LowererView<'a>),
                    CompileError,
                >(e),
            },
    {
        let ghost start = self@;
        let mut resolved: Vec<(PoolRef<Ty>, Ty)> = Vec::new();
        let mut i: usize = 0;
        proof {
            assert(resolved_view(resolved@) =~= Seq::empty());
        }
        while i < ast_tys.len()
            invariant
                i <= ast_tys.len(),
                self.wf(),
                start == old(self)@,
                self@.scopes == start.scopes,
                resolve_types(start, ast_tys@, i as nat) == Ok::<
                    (Seq<(PoolRef<Ty>, TyView)>, LowererView<'a>),
                    CompileError,
                >((resolved_view(resolved@), self@)),
            decreases ast_tys.len() - i,
        {
            match self.resolve_type(ast_tys[i]) {
                Err(e) => {
                    proof {
                        assert(((i + 1) as nat - 1) as nat == i as nat);
                        assert(resolve_types(start, ast_tys@, (i + 1) as nat) == Err::<
                            (Seq<(PoolRef<Ty>, TyView)>, LowererView<'a>),
                            CompileError,
                        >(e));
                        lemma_resolve_types_error(
                            start,
                            ast_tys@,
                            (i + 1) as nat,
                            ast_tys.len() as nat,
                        );
                    }
                    return Err(e);
                },
                Ok(entry) => {
                    proof {
                        assert(resolved_view(resolved@.push(entry)) =~= resolved_view(
                            resolved@,
                        ).push((entry.0, entry.1@)));
                    }
                    resolved.push(entry);
                },
            }
            i = i + 1;
        }
        Ok(resolved)
    }

    /// The name of a function in the intermediate representation.
    pub fn get_ir_name(&mut self, name: Symbol, span: Span) -> (r: Result<Symbol, CompileError>)
        requires
            old(self).wf(),
        ensures
            final(self).wf(),
            final(self)@.scopes == old(self)@.scopes,
            match r {
                Ok(ir_name) => get_ir_name(old(self)@, name, span) == Ok::<
                    (Symbol, LowererView<'a>),
                    CompileError,
                >((ir_name, final(self)@)),
                Err(e) => get_ir_name(old(self)@, name, span) == Err::<
                    (Symbol, LowererView<'a>),
                    CompileError,
                >(e),
            },
    {
        let base = match self.interner.get(&name) {
            None => {
                return Err(
                    CompileError {
                        kind: CompileErrorKind::Resolve(ResolveError::UnknownIdentifier),
                        span,
                    },
                );
            },
            Some(base) => base,
        };
        if self.counter >= u64::MAX {
            return Err(CompileError { kind: CompileErrorKind::LimitExceeded, span });
        }
        let mut text: Vec<char> = Vec::new();
        push_str(&mut text, base.as_str());
        push_str(&mut text, "__");
        push_decimal(&mut text, self.counter);
        let mangled = string_from_chars(&text);
        assert(mangled@ =~= crate::globals::name_in(old(self)@.names, name) + "__"@ + decimal(
            self.counter as nat,
        ));
        let ir_name = match self.intern_name(mangled.as_str(), span) {
            Err(e) => {
                return Err(e);
            },
            Ok(ir_name) => ir_name,
        };
        self.counter = self.counter + 1;
        Ok(ir_name)
    }

    /// The signature of a function.
    pub fn declare_function(&mut self, function_def: &'a ASTFunctionDef) -> (r: Result<
        Function,
        CompileError,
    >)
        requires
            old(self).wf(),
        ensures
            final(self).wf(),
            r is Ok ==> final(self)@.scopes == old(self)@.scopes,
            match r {
                Ok(function) => declare_function(old(self)@, function_def) == Ok::<
                    (FunctionView, LowererView<'a>),
                    CompileError,
                >((function@, final(self)@)),
                Err(e) => declare_function(old(self)@, function_def) == Err::<
                    (FunctionView, LowererView<'a>),
                    CompileError,
                >(e),
            },
    {
        let mut ast_tys: Vec<&'a ASTType> = Vec::new();
        let mut i: usize = 0;
        while i < function_def.params.len()
            invariant
                i <= function_def.params.len(),
                ast_tys@ == param_types(function_def).take(i as int),
            decreases function_def.params.len() - i,
        {
            ast_tys.push(&function_def.params[i].ast_type);
            i = i + 1;
            assert(ast_tys@ =~= param_types(function_def).take(i as int));
        }
        proof {
            assert(param_types(function_def).take(function_def.params.len() as int)
                =~= param_types(function_def));
        }
        let resolved = match self.resolve_types(&ast_tys) {
            Err(e) => {
                return Err(e);
            },
            Ok(resolved) => resolved,
        };
        let return_type = match &function_def.return_type {
            Some(ast_ty) => match self.resolve_type(ast_ty) {
                Err(e) => {
                    return Err(e);
                },
                Ok((_, ty)) => ty,
            },
            None => Ty::from_primitive(TyPrimitive::Void),
        };
        let ir_name = match self.get_ir_name(function_def.name, function_def.span) {
            Err(e) => {
                return Err(e);
            },
            Ok(ir_name) => ir_name,
        };
        let mut params: Vec<Ty> = Vec::new();
        let mut k: usize = 0;
        proof {
            assert(crate::solidlang::context::function::tys_view(params@) =~= resolved_view(
                resolved@,
            ).take(0).map_values(|p: (PoolRef<Ty>, TyView)| p.1));
        }
        while k < resolved.len()
            invariant
                k <= resolved.len(),
                crate::solidlang::context::function::tys_view(params@) == resolved_view(
                    resolved@,
                ).take(k as int).map_values(|p: (PoolRef<Ty>, TyView)| p.1),
            decreases resolved.len() - k,
        {
            let ty = resolved[k].1.clone();
            proof {
                let all = resolved_view(resolved@);
                assert(all.take(k + 1) =~= all.take(k as int).push(all[k as int]));
                assert(all[k as int].1 == ty@);
                assert(crate::solidlang::context::function::tys_view(params@.push(ty))
                    =~= crate::solidlang::context::function::tys_view(params@).push(ty@));
                assert(all.take(k as int).push(all[k as int]).map_values(
                    |p: (PoolRef<Ty>, TyView)| p.1,
                ) =~= all.take(k as int).map_values(|p: (PoolRef<Ty>, TyView)| p.1).push(
                    all[k as int].1,
                ));
            }
            params.push(ty);
            k = k + 1;
        }
        proof {
            let all = resolved_view(resolved@);
            assert(all.take(resolved.len() as int) =~= all);
        }
        let mut path: Vec<Symbol> = Vec::new();
        path.push(function_def.name);
        assert(path@ =~= seq![function_def.name]);
        Ok(Function { path, params, return_type, ir_name })
    }

    /// The names and the storage of the parameters of a function in the
    /// intermediate representation, with their bindings.
    pub fn lower_params(&mut self, function_def: &'a ASTFunctionDef, function: &Function) -> (r:
        Result<(Vec<(Option<Symbol>, IRType)>, Vec<(Symbol, Value)>), CompileError>)
        requires
            old(self).wf(),
            function_def.params.len() == function.params.len(),
        ensures
            final(self).wf(),
            final(self)@.scopes == old(self)@.scopes,
            match r {
                Ok((params, bindings)) => lower_params(
                    old(self)@,
                    function_def,
                    function@,
                    function_def.params.len() as nat,
                ) == Ok::<
                    (
                        (Seq<(Option<Symbol>, IRType)>, Seq<(Symbol, ValueView)>),
                        LowererView<'a>,
                    ),
                    CompileError,
                >(
                    (
                        (params@, crate::solidlang::lowerer::codegen::bindings_view(bindings@)),
                        final(self)@,
                    ),
                ),
                Err(e) => lower_params(
                    old(self)@,
                    function_def,
                    function@,
                    function_def.params.len() as nat,
                ) == Err::<
                    (
                        (Seq<(Option<Symbol>, IRType)>, Seq<(Symbol, ValueView)>),
                        LowererView<'a>,
                    ),
                    CompileError,
                >(e),
            },
    {
        let ghost start = self@;
        let mut params: Vec<(Option<Symbol>, IRType)> = Vec::new();
        let mut bindings: Vec<(Symbol, Value)> = Vec::new();
        let mut i: usize = 0;
        proof {
            assert(crate::solidlang::lowerer::codegen::bindings_view(bindings@) =~= Seq::empty());
        }
        while i < function_def.params.len()
            invariant
                i <= function_def.params.len(),
                function_def.params.len() == function.params.len(),
                self.wf(),
                start == old(self)@,
                self@.scopes == start.scopes,
                lower_params(start, function_def, function@, i as nat) == Ok::<
                    (
                        (Seq<(Option<Symbol>, IRType)>, Seq<(Symbol, ValueView)>),
                        LowererView<'a>,
                    ),
                    CompileError,
                >(
                    (
                        (params@, crate::solidlang::lowerer::codegen::bindings_view(bindings@)),
                        self@,
                    ),
                ),
            decreases function_def.params.len() - i,
        {
            let mut text: Vec<char> = Vec::new();
            push_str(&mut text, "_param_");
            push_decimal(&mut text, i as u64);
            let name = string_from_chars(&text);
            assert(name@ =~= "_param_"@ + decimal(i as nat));
            let interned = self.intern_name(name.as_str(), function_def.span);
            let ty = &function.params[i];
            assert(function@.params[i as int] == ty@);
            let storage = ir_type(ty);
            proof {
                assert(((i + 1) as nat - 1) as nat == i as nat);
            }
            match (interned, storage) {
                (Err(e), _) => {
                    proof {
                        lemma_lower_params_error(
                            start,
                            function_def,
                            function@,
                            (i + 1) as nat,
                            function_def.params.len() as nat,
                        );
                    }
                    return Err(e);
                },
                (Ok(_), None) => {
                    proof {
                        lemma_lower_params_error(
                            start,
                            function_def,
                            function@,
                            (i + 1) as nat,
                            function_def.params.len() as nat,
                        );
                    }
                    return Err(
                        CompileError {
                            kind: CompileErrorKind::Layout(LayoutError::Unresolved),
                            span: function_def.span,
                        },
                    );
                },
                (Ok(id), Some(ir_type)) => {
                    params.push((Some(id), ir_type));
                    let value = Value::new_direct(id, ty.clone());
                    proof {
                        assert(crate::solidlang::lowerer::codegen::bindings_view(
                            bindings@.push((function_def.params[i as int].name, value)),
                        ) =~= crate::solidlang::lowerer::codegen::bindings_view(bindings@).push(
                            (function_def.params[i as int].name, value@),
                        ));
                    }
                    bindings.push((function_def.params[i].name, value));
                },
            }
            i = i + 1;
        }
        Ok((params, bindings))
    }

    /// Adds the function of the intermediate representation that a lowered
    /// function becomes to those that were lowered.
    pub fn finish_function(
        &mut self,
        ctx: CodegenContext,
        function: &Function,
        params: Vec<(Option<Symbol>, IRType)>,
        result: &CompilationResult,
        span: Span,
    ) -> (r: Result<(), CompileError>)
        requires
            old(self).wf(),
        ensures
            final(self).wf(),
            final(self)@.scopes == old(self)@.scopes,
            match r {
                Ok(()) => finish_function(
                    compile_state(old(self), &ctx),
                    function@,
                    params@,
                    result@,
                    span,
                ) == Ok::<((), LowererView<'a>), CompileError>(((), final(self)@)),
                Err(e) => finish_function(
                    compile_state(old(self), &ctx),
                    function@,
                    params@,
                    result@,
                    span,
                ) == Err::<((), LowererView<'a>), CompileError>(e),
            },
    {
        let mut ctx = ctx;
        let returns_value = !function.return_type.equals(&Ty::from_primitive(TyPrimitive::Void));
        let returned = match result {
            CompilationResult::Value(value) => if returns_value {
                self.compile_return(&mut ctx, value, span)
            } else {
                Ok(CompilationResult::Returning)
            },
            CompilationResult::Returning => Ok(CompilationResult::Returning),
        };
        match returned {
            Err(e) => {
                return Err(e);
            },
            Ok(_) => {},
        }
        let return_type = match ir_type(&function.return_type) {
            None => {
                return Err(
                    CompileError { kind: CompileErrorKind::Layout(LayoutError::Unresolved), span },
                );
            },
            Some(return_type) => return_type,
        };
        let item = IRItem {
            kind: IRItemKind::FunctionDef(
                IRItemFunctionDef {
                    name: function.ir_name,
                    return_type,
                    params,
                    comps: ctx.comps,
                    label_defs: ctx.label_defs,
                },
            ),
        };
        proof {
            assert(crate::ir::items_view(self.items@.push(item)) =~= crate::ir::items_view(
                self.items@,
            ).push(item@));
        }
        self.items.push(item);
        Ok(())
    }
}

proof fn lemma_resolve_types_error<'a>(
    st: LowererView<'a>,
    ast_tys: Seq<&'a ASTType>,
    i: nat,
    count: nat,
)
    requires
        i <= count <= ast_tys.len(),
        resolve_types(st, ast_tys, i) is Err,
    ensures
        resolve_types(st, ast_tys, count) == resolve_types(st, ast_tys, i),
    decreases count - i,
{
    if i < count {
        lemma_resolve_types_error(st, ast_tys, i + 1, count);
    }
}

proof fn lemma_lower_params_error<'a>(
    st: LowererView<'a>,
    function_def: &'a ASTFunctionDef,
    function: FunctionView,
    i: nat,
    count: nat,
)
    requires
        i <= count,
        count <= function_def.params.len(),
        count <= function.params.len(),
        lower_params(st, function_def, function, i) is Err,
    ensures
        lower_params(st, function_def, function, count) == lower_params(
            st,
            function_def,
            function,
            i,
        ),
    decreases count - i,
{
    if i < count {
        lemma_lower_params_error(st, function_def, function, i + 1, count);
    }
}

} // verus!
