//! The lowering of expressions, statements and functions.

use crate::globals::Symbol;
use crate::ir::comp::{IRComp, IRCompFunctionCall, IRCompKind};
use crate::ir::IRValue;
use crate::solidlang::ast::{
    ASTExpression, ASTExpressionKind, ASTFunctionDef, ASTItem, ASTItemKind, ASTModule,
    ASTOperator, ASTStatement, ASTStatementBlock, ASTStatementKind, ASTType,
};
use crate::solidlang::context::function::{Function, FunctionView};
use crate::solidlang::context::item::functions_view;
use crate::solidlang::context::pool::PoolRef;
use crate::solidlang::context::template::{Template, TemplateKind};
use crate::solidlang::context::ty::{Ty, TyPrimitive, TyView};
use crate::solidlang::lowerer::codegen::model::{
    block_items, c_block, c_call, c_expr, c_if, c_resolve, c_speculate, c_statement, c_statements,
    c_template_candidates, c_while, call_args, enter_block, fails_first, find_compiled,
    finish_call, fits_call,
    fitting, handles, instantiate_function, lower_block_functions, lower_function,
    lower_item_function, lower_module_functions, module_items, static_path, type_arg_refs,
    CompileState, Resolution, Speculation,
};
use crate::solidlang::lowerer::codegen::steps::{
    binary_operation_kind, check_comparison_operator, check_left_operand, compile_block_result,
    compile_state, compile_store_branch, option_ty_view, resolved_view, wanted_ty,
};
use crate::solidlang::lowerer::codegen::{
    CodegenContext, CompilationResult, Compiled, ResultView, Value,
};
use crate::solidlang::lowerer::error::{
    CompileError, CompileErrorKind, OverloadError, ResolveError, TemplateError, TypeError,
};
use crate::solidlang::lowerer::model::LowererView;
use crate::solidlang::lowerer::Lowerer;
use crate::solidlang::span::Span;
use vstd::prelude::*;

verus! {

/// The path of a callee.
pub fn collect_static_access_path<'a>(expression: &'a ASTExpression) -> (r: Option<Vec<Symbol>>)
    ensures
        match r {
            Some(path) => static_path(expression) == Some(path@),
            None => static_path(expression) is None,
        },
    decreases expression,
{
    match &expression.kind {
        ASTExpressionKind::Ident(name) => {
            let mut path: Vec<Symbol> = Vec::new();
            path.push(*name);
            assert(path@ =~= seq![*name]);
            Some(path)
        },
        ASTExpressionKind::StaticAccess(inner, name) => match collect_static_access_path(inner) {
            Some(path) => {
                let mut path = path;
                path.push(*name);
                Some(path)
            },
            None => None,
        },
        _ => None,
    }
}

/// The candidates that take `args` arguments.
fn fitting_functions(candidates: Vec<Function>, args: usize) -> (r: Vec<Function>)
    ensures
        functions_view(r@) == fitting(functions_view(candidates@), args as nat),
{
    let ghost all = functions_view(candidates@);
    let ghost keep = |f: FunctionView| fits_call(f, args as nat);
    let mut r: Vec<Function> = Vec::new();
    let mut i: usize = 0;
    proof {
        reveal(Seq::filter);
        assert(functions_view(r@) =~= all.take(0).filter(keep));
    }
    while i < candidates.len()
        invariant
            i <= candidates.len(),
            all == functions_view(candidates@),
            keep == |f: FunctionView| fits_call(f, args as nat),
            functions_view(r@) == all.take(i as int).filter(keep),
        decreases candidates.len() - i,
    {
        proof {
            reveal(Seq::filter);
            assert(all.take(i + 1).drop_last() =~= all.take(i as int));
            assert(all.take(i + 1).last() == candidates@[i as int]@);
        }
        if candidates[i].params.len() == args {
            let function = candidates[i].clone();
            proof {
                assert(functions_view(r@.push(function)) =~= functions_view(r@).push(function@));
            }
            r.push(function);
        }
        i = i + 1;
    }
    proof {
        assert(all.take(candidates.len() as int) =~= all);
    }
    r
}

/// The items among the statements of a block.
fn collect_block_items<'a>(block: &'a ASTStatementBlock) -> (r: Vec<&'a ASTItem>)
    ensures
        r@ == block_items(block, block.statements.len() as nat),
{
    let mut r: Vec<&'a ASTItem> = Vec::new();
    let mut i: usize = 0;
    while i < block.statements.len()
        invariant
            i <= block.statements.len(),
            r@ == block_items(block, i as nat),
        decreases block.statements.len() - i,
    {
        match &block.statements[i].kind {
            ASTStatementKind::Item(item) => {
                r.push(item);
            },
            _ => {},
        }
        i = i + 1;
    }
    r
}

/// What was found out about a call for the candidates that were tried:
/// how many of them fit, and for the first of them the function and the
/// state, the arguments and the return that lowering its arguments gave.
pub struct Trial<'a> {
    pub count: usize,
    pub winner: Option<(Function, Lowerer<'a>, CodegenContext, Vec<IRValue>, bool)>,
}

impl<'a> View for Trial<'a> {
    type V = Resolution<'a>;

    open spec fn view(&self) -> Resolution<'a> {
        Resolution {
            count: self.count as nat,
            winner: match self.winner {
                Some((function, lowerer, ctx, args, returning)) => Some(
                    (
                        function@,
                        Speculation {
                            state: compile_state(&lowerer, &ctx),
                            args: args@,
                            returning,
                        },
                    ),
                ),
                None => None,
            },
        }
    }
}

impl<'a> Trial<'a> {
    /// The state of the first candidate that fits is in order.
    pub open spec fn wf(&self, scopes: nat, names: nat) -> bool {
        self.winner matches Some((_, lowerer, ctx, _, _)) ==> lowerer.wf() && lowerer@.scopes.len()
            == scopes && ctx@.scopes.len() == names
    }
}

impl<'a> Lowerer<'a> {
    /// Lowers an expression, of which a value of the type `expected_type`
    /// is asked, if any.
    pub fn compile_expression(
        &mut self,
        expression: &'a ASTExpression,
        codegen_context: &mut CodegenContext,
        expected_type: Option<&Ty>,
        depth: usize,
    ) -> (r: Result<CompilationResult, CompileError>)
        requires
            old(self).wf(),
        ensures
            final(self).wf(),
            r is Ok ==> final(self)@.scopes.len() == old(self)@.scopes.len(),
            r is Ok ==> final(codegen_context)@.scopes.len() == old(codegen_context)@.scopes.len(),
            r matches Err(e) && fails_first(expression, e) ==> compile_state(final(self), final(codegen_context)) == compile_state(
                old(self),
                old(codegen_context),
            ),
            match r {
                Ok(result) => c_expr(
                    compile_state(old(self), old(codegen_context)),
                    expression,
                    option_ty_view(expected_type),
                    depth as nat,
                ) == Ok::<(ResultView, CompileState<'a>), CompileError>(
                    (result@, compile_state(final(self), final(codegen_context))),
                ),
                Err(e) => c_expr(
                    compile_state(old(self), old(codegen_context)),
                    expression,
                    option_ty_view(expected_type),
                    depth as nat,
                ) == Err::<(ResultView, CompileState<'a>), CompileError>(e),
            },
        decreases depth, expression, 4nat, 0nat,
    {
        let span = expression.span;
        match &expression.kind {
            ASTExpressionKind::Ident(ident) => self.compile_ident(
                codegen_context,
                *ident,
                expected_type,
                span,
            ),
            ASTExpressionKind::IntegerLiteral(integer) => self.compile_integer(
                codegen_context,
                *integer,
                expected_type,
                span,
            ),
            ASTExpressionKind::Boolean(value) => self.compile_boolean(
                codegen_context,
                *value,
                expected_type,
                span,
            ),
            ASTExpressionKind::UnaryOperation(operator, operand) => {
                let value = match self.compile_expression(
                    operand,
                    codegen_context,
                    expected_type,
                    depth,
                ) {
                    Err(e) => {
                        return Err(e);
                    },
                    Ok(CompilationResult::Returning) => {
                        return Ok(CompilationResult::Returning);
                    },
                    Ok(CompilationResult::Value(value)) => value,
                };
                self.compile_unary(codegen_context, *operator, &value, span)
            },
            ASTExpressionKind::BinaryOperation(operator, left_operand, right_operand) => {
                match operator {
                    ASTOperator::Assign => {
                        return Err(CompileError { kind: CompileErrorKind::NotImplemented, span });
                    },
                    _ => {},
                }
                if binary_operation_kind(*operator).is_none() {
                    return Err(
                        CompileError {
                            kind: CompileErrorKind::Type(TypeError::OperatorMismatch),
                            span,
                        },
                    );
                }
                let compares = check_comparison_operator(*operator);
                if compares {
                    match expected_type {
                        Some(expected) => if !expected.equals(
                            &Ty::from_primitive(TyPrimitive::Bool),
                        ) {
                            return Err(
                                CompileError {
                                    kind: CompileErrorKind::Type(TypeError::UnexpectedType),
                                    span,
                                },
                            );
                        },
                        None => {},
                    }
                }
                let left = match self.compile_expression(
                    left_operand,
                    codegen_context,
                    if compares {
                        None
                    } else {
                        expected_type
                    },
                    depth,
                ) {
                    Err(e) => {
                        return Err(e);
                    },
                    Ok(CompilationResult::Returning) => {
                        return Ok(CompilationResult::Returning);
                    },
                    Ok(CompilationResult::Value(value)) => value,
                };
                if !compares && !check_left_operand(*operator, &left.ty) {
                    return Err(
                        CompileError {
                            kind: CompileErrorKind::Type(TypeError::OperatorMismatch),
                            span,
                        },
                    );
                }
                let right = match self.compile_expression(
                    right_operand,
                    codegen_context,
                    Some(&left.ty),
                    depth,
                ) {
                    Err(e) => {
                        return Err(e);
                    },
                    Ok(CompilationResult::Returning) => {
                        return Ok(CompilationResult::Returning);
                    },
                    Ok(CompilationResult::Value(value)) => value,
                };
                let ty = if compares {
                    Ty::from_primitive(TyPrimitive::Bool)
                } else {
                    left.ty.clone()
                };
                self.compile_binary(codegen_context, *operator, &left, &right, ty, span)
            },
            ASTExpressionKind::If(_, _, _) => self.compile_if(
                expression,
                codegen_context,
                expected_type,
                depth,
            ),
            ASTExpressionKind::While(_, _) => self.compile_while(
                expression,
                codegen_context,
                expected_type,
                depth,
            ),
            ASTExpressionKind::Block(block) => self.compile_statement_block(
                block,
                codegen_context,
                expected_type,
                depth,
            ),
            ASTExpressionKind::Call(_, _) => self.compile_call(
                expression,
                codegen_context,
                expected_type,
                depth,
            ),
            _ => Err(CompileError { kind: CompileErrorKind::NotImplemented, span }),
        }
    }

    /// Lowers an `if`.
    #[verifier::rlimit(80)]
    pub fn compile_if(
        &mut self,
        expression: &'a ASTExpression,
        codegen_context: &mut CodegenContext,
        expected_type: Option<&Ty>,
        depth: usize,
    ) -> (r: Result<CompilationResult, CompileError>)
        requires
            old(self).wf(),
        ensures
            final(self).wf(),
            r is Ok ==> final(self)@.scopes.len() == old(self)@.scopes.len(),
            r is Ok ==> final(codegen_context)@.scopes.len() == old(codegen_context)@.scopes.len(),
            match r {
                Ok(result) => c_if(
                    compile_state(old(self), old(codegen_context)),
                    expression,
                    option_ty_view(expected_type),
                    depth as nat,
                ) == Ok::<(ResultView, CompileState<'a>), CompileError>(
                    (result@, compile_state(final(self), final(codegen_context))),
                ),
                Err(e) => c_if(
                    compile_state(old(self), old(codegen_context)),
                    expression,
                    option_ty_view(expected_type),
                    depth as nat,
                ) == Err::<(ResultView, CompileState<'a>), CompileError>(e),
            },
        decreases depth, expression, 3nat, 0nat,
    {
        let span = expression.span;
        let (condition, if_block, else_block) = match &expression.kind {
            ASTExpressionKind::If(condition, if_block, else_block) => (
                condition,
                if_block,
                else_block,
            ),
            _ => {
                return Err(CompileError { kind: CompileErrorKind::NotImplemented, span });
            },
        };
        if wanted_ty(expected_type).is_some() && else_block.is_none() {
            return Err(
                CompileError { kind: CompileErrorKind::Type(TypeError::MissingElse), span },
            );
        }
        let slot = match self.compile_value_slot(codegen_context, expected_type, span) {
            Err(e) => {
                return Err(e);
            },
            Ok(slot) => slot,
        };
        let bool_type = Ty::from_primitive(TyPrimitive::Bool);
        let condition = match self.compile_expression(
            condition,
            codegen_context,
            Some(&bool_type),
            depth,
        ) {
            Err(e) => {
                return Err(e);
            },
            Ok(CompilationResult::Returning) => {
                return Ok(CompilationResult::Returning);
            },
            Ok(CompilationResult::Value(value)) => value,
        };
        let (if_end_label, else_end_label) = match self.compile_branch_head(
            codegen_context,
            &condition,
            span,
        ) {
            Err(e) => {
                return Err(e);
            },
            Ok(labels) => labels,
        };
        let first = match self.compile_statement_block(
            if_block,
            codegen_context,
            expected_type,
            depth,
        ) {
            Err(e) => {
                return Err(e);
            },
            Ok(result) => result,
        };
        match compile_store_branch(self, codegen_context, slot, &first, span) {
            Err(e) => {
                return Err(e);
            },
            Ok(()) => {},
        }
        match else_block {
            None => {
                codegen_context.place_label(if_end_label);
                Ok(CompilationResult::Value(Value::new_none()))
            },
            Some(else_block) => {
                codegen_context.add_computation(
                    IRComp { kind: IRCompKind::Jmp(else_end_label), id: None },
                );
                codegen_context.place_label(if_end_label);
                let second = match self.compile_statement_block(
                    else_block,
                    codegen_context,
                    expected_type,
                    depth,
                ) {
                    Err(e) => {
                        return Err(e);
                    },
                    Ok(result) => result,
                };
                match compile_store_branch(self, codegen_context, slot, &second, span) {
                    Err(e) => {
                        return Err(e);
                    },
                    Ok(()) => {},
                }
                codegen_context.place_label(else_end_label);
                self.compile_merge_branches(
                    codegen_context,
                    slot,
                    expected_type,
                    &first,
                    &second,
                    span,
                )
            },
        }
    }

    /// Lowers a `while`.
    #[verifier::rlimit(80)]
    pub fn compile_while(
        &mut self,
        expression: &'a ASTExpression,
        codegen_context: &mut CodegenContext,
        expected_type: Option<&Ty>,
        depth: usize,
    ) -> (r: Result<CompilationResult, CompileError>)
        requires
            old(self).wf(),
        ensures
            final(self).wf(),
            r is Ok ==> final(self)@.scopes.len() == old(self)@.scopes.len(),
            r is Ok ==> final(codegen_context)@.scopes.len() == old(codegen_context)@.scopes.len(),
            match r {
                Ok(result) => c_while(
                    compile_state(old(self), old(codegen_context)),
                    expression,
                    option_ty_view(expected_type),
                    depth as nat,
                ) == Ok::<(ResultView, CompileState<'a>), CompileError>(
                    (result@, compile_state(final(self), final(codegen_context))),
                ),
                Err(e) => c_while(
                    compile_state(old(self), old(codegen_context)),
                    expression,
                    option_ty_view(expected_type),
                    depth as nat,
                ) == Err::<(ResultView, CompileState<'a>), CompileError>(e),
            },
        decreases depth, expression, 3nat, 0nat,
    {
        let span = expression.span;
        let (condition, block) = match &expression.kind {
            ASTExpressionKind::While(condition, block) => (condition, block),
            _ => {
                return Err(CompileError { kind: CompileErrorKind::NotImplemented, span });
            },
        };
        if wanted_ty(expected_type).is_some() {
            return Err(
                CompileError { kind: CompileErrorKind::Type(TypeError::UnexpectedType), span },
            );
        }
        let while_begin_label = match self.new_id(codegen_context, "_l", span) {
            Err(e) => {
                return Err(e);
            },
            Ok(label) => label,
        };
        let while_end_label = match self.new_id(codegen_context, "_l", span) {
            Err(e) => {
                return Err(e);
            },
            Ok(label) => label,
        };
        codegen_context.place_label(while_begin_label);
        let outer_loops = crate::ir::copy_pairs(&codegen_context.loops);
        codegen_context.loops.push((while_begin_label, while_end_label));
        let bool_type = Ty::from_primitive(TyPrimitive::Bool);
        let condition = match self.compile_expression(
            condition,
            codegen_context,
            Some(&bool_type),
            depth,
        ) {
            Err(e) => {
                return Err(e);
            },
            Ok(CompilationResult::Returning) => {
                codegen_context.loops = outer_loops;
                return Ok(CompilationResult::Returning);
            },
            Ok(CompilationResult::Value(value)) => value,
        };
        match self.compile_branch_jump(codegen_context, &condition, while_end_label, span) {
            Err(e) => {
                return Err(e);
            },
            Ok(()) => {},
        }
        let void_type = Ty::from_primitive(TyPrimitive::Void);
        match self.compile_statement_block(block, codegen_context, Some(&void_type), depth) {
            Err(e) => {
                return Err(e);
            },
            Ok(_) => {},
        }
        codegen_context.add_computation(
            IRComp { kind: IRCompKind::Jmp(while_begin_label), id: None },
        );
        codegen_context.place_label(while_end_label);
        codegen_context.loops = outer_loops;
        Ok(CompilationResult::Value(Value::new_none()))
    }
}

} // verus!

verus! {

impl<'a> Lowerer<'a> {
    /// Lowers the arguments of a call for one function.
    pub fn speculate(
        &mut self,
        codegen_context: &mut CodegenContext,
        expression: &'a ASTExpression,
        function: &Function,
        depth: usize,
    ) -> (r: Option<(Vec<IRValue>, bool)>)
        requires
            old(self).wf(),
            expression.kind is Call,
        ensures
            match r {
                Some((args, returning)) => {
                    &&& c_speculate(
                        compile_state(old(self), old(codegen_context)),
                        expression,
                        function@,
                        call_args(expression).len(),
                        depth as nat,
                    ) == Some(
                        Speculation {
                            state: compile_state(final(self), final(codegen_context)),
                            args: args@,
                            returning,
                        },
                    )
                    &&& final(self).wf()
                    &&& final(self)@.scopes.len() == old(self)@.scopes.len()
                    &&& final(codegen_context)@.scopes.len() == old(codegen_context)@.scopes.len()
                },
                None => c_speculate(
                    compile_state(old(self), old(codegen_context)),
                    expression,
                    function@,
                    call_args(expression).len(),
                    depth as nat,
                ) is None,
            },
        decreases depth, expression, 1nat, 0nat,
    {
        let ghost start = compile_state(self, codegen_context);
        let args = match &expression.kind {
            ASTExpressionKind::Call(_, args) => args,
            _ => {
                return None;
            },
        };
        let mut ir_args: Vec<IRValue> = Vec::new();
        let mut i: usize = 0;
        while i < args.len()
            invariant
                i <= args.len(),
                self.wf(),
                expression.kind is Call,
                args@ == call_args(expression),
                expression.kind->Call_1 == *args,
                start == compile_state(old(self), old(codegen_context)),
                self@.scopes.len() == old(self)@.scopes.len(),
                codegen_context@.scopes.len() == old(codegen_context)@.scopes.len(),
                c_speculate(start, expression, function@, i as nat, depth as nat) == Some(
                    Speculation {
                        state: compile_state(self, codegen_context),
                        args: ir_args@,
                        returning: false,
                    },
                ),
            decreases args.len() - i,
        {
            proof {
                assert(((i + 1) as nat - 1) as nat == i as nat);
            }
            if i >= function.params.len() {
                proof {
                    lemma_speculate_none(
                        start,
                        expression,
                        function@,
                        (i + 1) as nat,
                        args.len() as nat,
                        depth as nat,
                    );
                }
                return None;
            }
            let param = &function.params[i];
            assert(function@.params[i as int] == param@);
            match self.compile_expression(&args[i], codegen_context, Some(param), depth) {
                Err(_) => {
                    proof {
                        lemma_speculate_none(
                            start,
                            expression,
                            function@,
                            (i + 1) as nat,
                            args.len() as nat,
                            depth as nat,
                        );
                    }
                    return None;
                },
                Ok(CompilationResult::Returning) => {
                    proof {
                        lemma_speculate_returning(
                            start,
                            expression,
                            function@,
                            (i + 1) as nat,
                            args.len() as nat,
                            depth as nat,
                        );
                    }
                    return Some((ir_args, true));
                },
                Ok(CompilationResult::Value(value)) => {
                    let id = match value.id {
                        Some(id) if value.ty.equals(param) => id,
                        _ => {
                            proof {
                                lemma_speculate_none(
                                    start,
                                    expression,
                                    function@,
                                    (i + 1) as nat,
                                    args.len() as nat,
                                    depth as nat,
                                );
                            }
                            return None;
                        },
                    };
                    ir_args.push(IRValue { id });
                },
            }
            i = i + 1;
        }
        Some((ir_args, false))
    }

    /// Tries the candidates for a call one by one, each from the present
    /// state.
    pub fn resolve_call(
        &self,
        codegen_context: &CodegenContext,
        expression: &'a ASTExpression,
        candidates: &Vec<Function>,
        depth: usize,
    ) -> (r: Trial<'a>)
        requires
            self.wf(),
            expression.kind is Call,
        ensures
            r@ == c_resolve(
                compile_state(self, codegen_context),
                expression,
                functions_view(candidates@),
                candidates.len() as nat,
                depth as nat,
            ),
            r.wf(self@.scopes.len(), codegen_context@.scopes.len()),
        decreases depth, expression, 2nat, 0nat,
    {
        let ghost start = compile_state(self, codegen_context);
        let ghost all = functions_view(candidates@);
        let mut trial: Trial<'a> = Trial { count: 0, winner: None };
        let mut i: usize = 0;
        while i < candidates.len()
            invariant
                i <= candidates.len(),
                self.wf(),
                expression.kind is Call,
                start == compile_state(self, codegen_context),
                all == functions_view(candidates@),
                trial.count <= i,
                trial@ == c_resolve(start, expression, all, i as nat, depth as nat),
                trial.wf(self@.scopes.len(), codegen_context@.scopes.len()),
            decreases candidates.len() - i,
        {
            let mut lowerer = self.clone();
            let mut context = codegen_context.clone();
            proof {
                assert(((i + 1) as nat - 1) as nat == i as nat);
                assert(all[i as int] == candidates@[i as int]@);
            }
            match lowerer.speculate(&mut context, expression, &candidates[i], depth) {
                None => {},
                Some((args, returning)) => {
                    let count = trial.count + 1;
                    let winner = match trial.winner {
                        Some(winner) => Some(winner),
                        None => Some((candidates[i].clone(), lowerer, context, args, returning)),
                    };
                    trial = Trial { count, winner };
                },
            }
            i = i + 1;
        }
        trial
    }

    /// Goes on from the state of the function that was selected for a
    /// call.
    pub fn finish_call(
        &mut self,
        codegen_context: &mut CodegenContext,
        trial: Trial<'a>,
        expected_type: Option<&Ty>,
        span: Span,
    ) -> (r: Result<CompilationResult, CompileError>)
        requires
            old(self).wf(),
            trial.wf(old(self)@.scopes.len(), old(codegen_context)@.scopes.len()),
        ensures
            final(self).wf(),
            r is Ok ==> final(self)@.scopes.len() == old(self)@.scopes.len(),
            r is Ok ==> final(codegen_context)@.scopes.len() == old(codegen_context)@.scopes.len(),
            r matches Err(e) && e.kind != CompileErrorKind::LimitExceeded ==> compile_state(final(self), final(codegen_context)) == compile_state(
                old(self),
                old(codegen_context),
            ),
            match r {
                Ok(result) => finish_call(trial@, option_ty_view(expected_type), span) == Ok::<
                    (ResultView, CompileState<'a>),
                    CompileError,
                >((result@, compile_state(final(self), final(codegen_context)))),
                Err(e) => finish_call(trial@, option_ty_view(expected_type), span) == Err::<
                    (ResultView, CompileState<'a>),
                    CompileError,
                >(e),
            },
    {
        if trial.count == 0 {
            return Err(
                CompileError { kind: CompileErrorKind::Overload(OverloadError::NoMatch), span },
            );
        }
        if trial.count > 1 {
            return Err(
                CompileError { kind: CompileErrorKind::Overload(OverloadError::Ambiguous), span },
            );
        }
        let (function, lowerer, context, args, param_returning) = match trial.winner {
            None => {
                return Err(
                    CompileError { kind: CompileErrorKind::Overload(OverloadError::NoMatch), span },
                );
            },
            Some(winner) => winner,
        };
        match expected_type {
            Some(expected) => if !function.return_type.equals(expected) {
                return Err(
                    CompileError { kind: CompileErrorKind::Type(TypeError::UnexpectedType), span },
                );
            },
            None => {},
        }
        *self = lowerer;
        *codegen_context = context;
        if param_returning {
            // One of the arguments returns from the function.
            return Ok(CompilationResult::Returning);
        }
        self.emit_value(
            codegen_context,
            IRCompKind::FunctionCall(IRCompFunctionCall { name: function.ir_name, args }),
            function.return_type,
            span,
        )
    }

    /// Lowers a call.
    pub fn compile_call(
        &mut self,
        expression: &'a ASTExpression,
        codegen_context: &mut CodegenContext,
        expected_type: Option<&Ty>,
        depth: usize,
    ) -> (r: Result<CompilationResult, CompileError>)
        requires
            old(self).wf(),
        ensures
            final(self).wf(),
            r is Ok ==> final(self)@.scopes.len() == old(self)@.scopes.len(),
            r is Ok ==> final(codegen_context)@.scopes.len() == old(codegen_context)@.scopes.len(),
            r matches Err(e) && fails_first(expression, e) ==> compile_state(final(self), final(codegen_context)) == compile_state(
                old(self),
                old(codegen_context),
            ),
            match r {
                Ok(result) => c_call(
                    compile_state(old(self), old(codegen_context)),
                    expression,
                    option_ty_view(expected_type),
                    depth as nat,
                ) == Ok::<(ResultView, CompileState<'a>), CompileError>(
                    (result@, compile_state(final(self), final(codegen_context))),
                ),
                Err(e) => c_call(
                    compile_state(old(self), old(codegen_context)),
                    expression,
                    option_ty_view(expected_type),
                    depth as nat,
                ) == Err::<(ResultView, CompileState<'a>), CompileError>(e),
            },
        decreases depth, expression, 3nat, 0nat,
    {
        let span = expression.span;
        let (callee, args) = match &expression.kind {
            ASTExpressionKind::Call(callee, args) => (callee, args),
            _ => {
                return Err(CompileError { kind: CompileErrorKind::NotImplemented, span });
            },
        };
        let candidates = match &callee.kind {
            ASTExpressionKind::TemplateApplication(inner, type_args) => {
                let path = match collect_static_access_path(inner) {
                    None => {
                        return Err(CompileError { kind: CompileErrorKind::NotImplemented, span });
                    },
                    Some(path) => path,
                };
                if depth == 0 {
                    return Err(
                        CompileError {
                            kind: CompileErrorKind::Template(TemplateError::DepthExceeded),
                            span,
                        },
                    );
                }
                let mut ast_tys: Vec<&'a ASTType> = Vec::new();
                let mut i: usize = 0;
                while i < type_args.len()
                    invariant
                        i <= type_args.len(),
                        ast_tys@ == type_arg_refs(type_args).take(i as int),
                    decreases type_args.len() - i,
                {
                    ast_tys.push(&type_args[i]);
                    i = i + 1;
                    assert(ast_tys@ =~= type_arg_refs(type_args).take(i as int));
                }
                proof {
                    assert(type_arg_refs(type_args).take(type_args.len() as int) =~= type_arg_refs(
                        type_args,
                    ));
                }
                let resolved = match self.resolve_types(&ast_tys) {
                    Err(e) => {
                        return Err(e);
                    },
                    Ok(resolved) => resolved,
                };
                let mut type_handles: Vec<PoolRef<Ty>> = Vec::new();
                let mut k: usize = 0;
                while k < resolved.len()
                    invariant
                        k <= resolved.len(),
                        type_handles@ == handles(resolved_view(resolved@)).take(k as int),
                    decreases resolved.len() - k,
                {
                    type_handles.push(resolved[k].0);
                    k = k + 1;
                    assert(type_handles@ =~= handles(resolved_view(resolved@)).take(k as int));
                }
                proof {
                    assert(handles(resolved_view(resolved@)).take(resolved.len() as int)
                        =~= handles(resolved_view(resolved@)));
                }
                let templates = self.context.function_templates(&self.templates, &path);
                match self.template_candidates(expression, &templates, &type_handles, depth) {
                    Err(e) => {
                        return Err(e);
                    },
                    Ok(candidates) => candidates,
                }
            },
            _ => {
                let path = match collect_static_access_path(callee) {
                    None => {
                        return Err(CompileError { kind: CompileErrorKind::NotImplemented, span });
                    },
                    Some(path) => path,
                };
                self.context.resolve_function(&path)
            },
        };
        let fits = fitting_functions(candidates, args.len());
        let trial = self.resolve_call(codegen_context, expression, &fits, depth);
        self.finish_call(codegen_context, trial, expected_type, span)
    }

    /// The functions that the templates give for the arguments.
    pub fn template_candidates(
        &mut self,
        expression: &'a ASTExpression,
        templates: &Vec<PoolRef<Template<'a>>>,
        args: &Vec<PoolRef<Ty>>,
        depth: usize,
    ) -> (r: Result<Vec<Function>, CompileError>)
        requires
            old(self).wf(),
            depth > 0,
        ensures
            final(self).wf(),
            r is Ok ==> final(self)@.scopes.len() == old(self)@.scopes.len(),
            match r {
                Ok(candidates) => c_template_candidates(
                    old(self)@,
                    expression,
                    templates@,
                    templates.len() as nat,
                    args@,
                    depth as nat,
                ) == Ok::<(Seq<FunctionView>, LowererView<'a>), CompileError>(
                    (functions_view(candidates@), final(self)@),
                ),
                Err(e) => c_template_candidates(
                    old(self)@,
                    expression,
                    templates@,
                    templates.len() as nat,
                    args@,
                    depth as nat,
                ) == Err::<(Seq<FunctionView>, LowererView<'a>), CompileError>(e),
            },
        decreases depth, expression, 2nat, 0nat,
    {
        let ghost start = self@;
        let mut candidates: Vec<Function> = Vec::new();
        let mut i: usize = 0;
        proof {
            assert(functions_view(candidates@) =~= Seq::empty());
        }
        while i < templates.len()
            invariant
                i <= templates.len(),
                depth > 0,
                self.wf(),
                start == old(self)@,
                self@.scopes.len() == start.scopes.len(),
                c_template_candidates(
                    start,
                    expression,
                    templates@,
                    i as nat,
                    args@,
                    depth as nat,
                ) == Ok::<(Seq<FunctionView>, LowererView<'a>), CompileError>(
                    (functions_view(candidates@), self@),
                ),
            decreases templates.len() - i,
        {
            proof {
                assert(((i + 1) as nat - 1) as nat == i as nat);
            }
            match self.instantiate_function(templates[i], args, depth - 1, expression.span) {
                Err(e) => {
                    proof {
                        lemma_template_candidates_error(
                            start,
                            expression,
                            templates@,
                            (i + 1) as nat,
                            templates.len() as nat,
                            args@,
                            depth as nat,
                        );
                    }
                    return Err(e);
                },
                Ok(function) => {
                    proof {
                        assert(functions_view(candidates@.push(function)) =~= functions_view(
                            candidates@,
                        ).push(function@));
                    }
                    candidates.push(function);
                },
            }
            i = i + 1;
        }
        Ok(candidates)
    }

    /// The function that came out of the template for the arguments
    /// before.
    pub fn find_compiled(&self, template: PoolRef<Template<'a>>, args: &Vec<PoolRef<Ty>>) -> (r:
        Option<Function>)
        ensures
            match r {
                Some(function) => find_compiled(self@.compiled, template, args@) == Some(
                    function@,
                ),
                None => find_compiled(self@.compiled, template, args@) is None,
            },
    {
        let ghost all = self@.compiled;
        let mut i: usize = self.codegen.compiled.len();
        proof {
            assert(all.take(i as int) =~= all);
        }
        while i > 0
            invariant
                i <= self.codegen.compiled.len(),
                all == self@.compiled,
                find_compiled(all, template, args@) == find_compiled(
                    all.take(i as int),
                    template,
                    args@,
                ),
            decreases i,
        {
            i = i - 1;
            let entry = &self.codegen.compiled[i];
            proof {
                assert(all.take(i + 1).last() == entry@);
                assert(all.take(i + 1).drop_last() =~= all.take(i as int));
            }
            if entry.template.same(&template) && crate::solidlang::lowerer::same_refs(
                &entry.args,
                args,
            ) {
                return Some(entry.function.clone());
            }
        }
        None
    }
}

proof fn lemma_speculate_none<'a>(
    st: CompileState<'a>,
    expression: &'a ASTExpression,
    function: FunctionView,
    i: nat,
    count: nat,
    depth: nat,
)
    requires
        i <= count,
        c_speculate(st, expression, function, i, depth) is None,
    ensures
        c_speculate(st, expression, function, count, depth) is None,
    decreases count - i,
{
    if i < count {
        lemma_speculate_none(st, expression, function, i + 1, count, depth);
    }
}

proof fn lemma_speculate_returning<'a>(
    st: CompileState<'a>,
    expression: &'a ASTExpression,
    function: FunctionView,
    i: nat,
    count: nat,
    depth: nat,
)
    requires
        i <= count,
        c_speculate(st, expression, function, i, depth) matches Some(speculation)
            && speculation.returning,
    ensures
        c_speculate(st, expression, function, count, depth) == c_speculate(
            st,
            expression,
            function,
            i,
            depth,
        ),
    decreases count - i,
{
    if i < count {
        lemma_speculate_returning(st, expression, function, i + 1, count, depth);
    }
}

proof fn lemma_template_candidates_error<'a>(
    st: LowererView<'a>,
    expression: &'a ASTExpression,
    templates: Seq<PoolRef<Template<'a>>>,
    i: nat,
    count: nat,
    args: Seq<PoolRef<Ty>>,
    depth: nat,
)
    requires
        i <= count <= templates.len(),
        depth > 0,
        c_template_candidates(st, expression, templates, i, args, depth) is Err,
    ensures
        c_template_candidates(st, expression, templates, count, args, depth)
            == c_template_candidates(st, expression, templates, i, args, depth),
    decreases count - i,
{
    if i < count {
        lemma_template_candidates_error(st, expression, templates, i + 1, count, args, depth);
    }
}

} // verus!

verus! {

impl<'a> Lowerer<'a> {
    /// Puts the scopes in which a template is instantiated in the place of
    /// the present ones, which are returned.
    pub fn enter_instantiation(&mut self, template: Template<'a>, args: &Vec<PoolRef<Ty>>) -> (r:
        crate::solidlang::context::item::SavedScopes<'a>)
        requires
            old(self).wf(),
            args.len() == template.params.len(),
        ensures
            final(self).wf(),
            r@ == old(self)@.scopes,
            final(self)@ == (LowererView {
                scopes: crate::solidlang::lowerer::model::instantiation_scopes(template@, args@),
                ..old(self)@
            }),
    {
        let ghost view = template@;
        let params = template.params;
        let saved_scopes = self.context.swap_scopes(template.saved_scopes);
        self.context.start_scope();
        let mut i: usize = 0;
        proof {
            assert(Seq::new(0, |k: int| (seq![view.params[k]], args@[k])) =~= Seq::<
                (Seq<Symbol>, PoolRef<Ty>),
            >::empty());
        }
        while i < args.len()
            invariant
                i <= args.len(),
                args.len() == params.len(),
                params@ == view.params,
                self.wf(),
                self.tys == old(self).tys,
                self.templates == old(self).templates,
                self.instances == old(self).instances,
                self.codegen == old(self).codegen,
                self.interner == old(self).interner,
                self.items == old(self).items,
                self.counter == old(self).counter,
                self.endian == old(self).endian,
                self.max_depth == old(self).max_depth,
                self.context@ == view.saved_scopes.push(
                    crate::solidlang::context::item::ScopeView {
                        tys: Seq::new(i as nat, |k: int| (seq![view.params[k]], args@[k])),
                        ..crate::solidlang::context::item::empty_scope()
                    },
                ),
            decreases args.len() - i,
        {
            let mut path: Vec<Symbol> = Vec::new();
            path.push(params[i]);
            proof {
                assert(path@ =~= seq![view.params[i as int]]);
            }
            self.context.register_ty(&path, args[i]);
            i = i + 1;
            proof {
                let before = crate::solidlang::context::item::ScopeView {
                    tys: Seq::new((i - 1) as nat, |k: int| (seq![view.params[k]], args@[k])),
                    ..crate::solidlang::context::item::empty_scope()
                };
                let after = crate::solidlang::context::item::ScopeView {
                    tys: Seq::new(i as nat, |k: int| (seq![view.params[k]], args@[k])),
                    ..crate::solidlang::context::item::empty_scope()
                };
                assert(before.tys.push((path@, args@[i - 1])) =~= after.tys);
                assert(view.saved_scopes.push(before).drop_last() =~= view.saved_scopes);
                assert(self.context@ =~= view.saved_scopes.push(after));
            }
        }
        saved_scopes
    }

    /// The function that the template of a function gives for the
    /// arguments.
    pub fn instantiate_function(
        &mut self,
        template: PoolRef<Template<'a>>,
        args: &Vec<PoolRef<Ty>>,
        depth: usize,
        span: Span,
    ) -> (r: Result<Function, CompileError>)
        requires
            old(self).wf(),
        ensures
            final(self).wf(),
            r is Ok ==> final(self)@.scopes == old(self)@.scopes,
            match r {
                Ok(function) => instantiate_function(
                    old(self)@,
                    template,
                    args@,
                    depth as nat,
                    span,
                ) == Ok::<(FunctionView, LowererView<'a>), CompileError>(
                    (function@, final(self)@),
                ),
                Err(e) => instantiate_function(old(self)@, template, args@, depth as nat, span)
                    == Err::<(FunctionView, LowererView<'a>), CompileError>(e),
            },
        decreases
                depth,
                crate::solidlang::lowerer::codegen::model::template_function(
                    old(self)@,
                    template,
                ),
                1nat,
                0nat,
    {
        match self.find_compiled(template, args) {
            Some(function) => {
                return Ok(function);
            },
            None => {},
        }
        let found = match self.templates.try_get(template) {
            Some(found) => found.clone(),
            None => {
                return Err(
                    CompileError {
                        kind: CompileErrorKind::Resolve(ResolveError::UnknownTemplate),
                        span,
                    },
                );
            },
        };
        let function_def = match found.kind {
            TemplateKind::Function(function_def) => function_def,
            TemplateKind::Struct(_) => {
                return Err(
                    CompileError {
                        kind: CompileErrorKind::Resolve(ResolveError::UnknownTemplate),
                        span,
                    },
                );
            },
        };
        if args.len() != found.params.len() {
            return Err(
                CompileError {
                    kind: CompileErrorKind::Template(TemplateError::ArityMismatch),
                    span,
                },
            );
        }
        let saved_scopes = self.enter_instantiation(found, args);
        let function = match self.declare_function(function_def) {
            Err(e) => {
                return Err(e);
            },
            Ok(function) => function,
        };
        let entry = Compiled {
            template,
            args: crate::solidlang::lowerer::copy_ty_refs(args),
            function: function.clone(),
        };
        proof {
            assert(self.codegen.compiled@.push(entry).map_values(|c: Compiled<'a>| c@)
                =~= self.codegen@.push(entry@));
        }
        self.codegen.compiled.push(entry);
        match self.lower_function(function_def, &function, depth) {
            Err(e) => {
                return Err(e);
            },
            Ok(()) => {},
        }
        self.context.swap_scopes(saved_scopes);
        Ok(function)
    }

    /// Lowers a function with the signature `function`.
    pub fn lower_function(
        &mut self,
        function_def: &'a ASTFunctionDef,
        function: &Function,
        depth: usize,
    ) -> (r: Result<(), CompileError>)
        requires
            old(self).wf(),
        ensures
            final(self).wf(),
            r is Ok ==> final(self)@.scopes.len() == old(self)@.scopes.len(),
            match r {
                Ok(()) => lower_function(old(self)@, function_def, function@, depth as nat)
                    == Ok::<((), LowererView<'a>), CompileError>(((), final(self)@)),
                Err(e) => lower_function(old(self)@, function_def, function@, depth as nat)
                    == Err::<((), LowererView<'a>), CompileError>(e),
            },
        decreases depth, function_def, 0nat, 0nat,
    {
        if function_def.params.len() != function.params.len() {
            return Err(
                CompileError {
                    kind: CompileErrorKind::Type(TypeError::UnexpectedType),
                    span: function_def.span,
                },
            );
        }
        let (params, bindings) = match self.lower_params(function_def, function) {
            Err(e) => {
                return Err(e);
            },
            Ok(lowered) => lowered,
        };
        let ghost names = crate::solidlang::lowerer::codegen::bindings_view(bindings@);
        let mut scopes: Vec<Vec<(Symbol, Value)>> = Vec::new();
        scopes.push(bindings);
        let mut codegen_context = CodegenContext {
            scopes,
            comps: Vec::new(),
            label_defs: Vec::new(),
            counter: 0,
            return_type: function.return_type.clone(),
            loops: Vec::new(),
        };
        proof {
            assert(codegen_context@.scopes[0] == names);
            assert(codegen_context@.scopes =~= seq![names]);
            assert(codegen_context@.comps =~= Seq::empty());
        }
        let result = match self.compile_statement_block(
            &function_def.statement_block,
            &mut codegen_context,
            Some(&function.return_type),
            depth,
        ) {
            Err(e) => {
                return Err(e);
            },
            Ok(result) => result,
        };
        self.finish_function(codegen_context, function, params, &result, function_def.span)
    }

    /// Lowers the item where it is a function.
    pub fn lower_item_function(&mut self, item: &'a ASTItem, depth: usize) -> (r: Result<
        (),
        CompileError,
    >)
        requires
            old(self).wf(),
            old(self)@.scopes.len() > 0,
        ensures
            final(self).wf(),
            r is Ok ==> final(self)@.scopes.len() == old(self)@.scopes.len(),
            match r {
                Ok(()) => lower_item_function(old(self)@, item, depth as nat) == Ok::<
                    ((), LowererView<'a>),
                    CompileError,
                >(((), final(self)@)),
                Err(e) => lower_item_function(old(self)@, item, depth as nat) == Err::<
                    ((), LowererView<'a>),
                    CompileError,
                >(e),
            },
        decreases depth, item, 0nat, 0nat,
    {
        match &item.kind {
            ASTItemKind::FunctionDef(function_def) => {
                let function = match self.declare_function(function_def) {
                    Err(e) => {
                        return Err(e);
                    },
                    Ok(function) => function,
                };
                self.context.register_function(function.clone());
                self.lower_function(function_def, &function, depth)
            },
            _ => Ok(()),
        }
    }

    /// Lowers the functions among the statements of a block.
    pub fn lower_block_functions(&mut self, block: &'a ASTStatementBlock, depth: usize) -> (r:
        Result<(), CompileError>)
        requires
            old(self).wf(),
            old(self)@.scopes.len() > 0,
        ensures
            final(self).wf(),
            r is Ok ==> final(self)@.scopes.len() == old(self)@.scopes.len(),
            match r {
                Ok(()) => lower_block_functions(
                    old(self)@,
                    block,
                    block.statements.len() as nat,
                    depth as nat,
                ) == Ok::<((), LowererView<'a>), CompileError>(((), final(self)@)),
                Err(e) => lower_block_functions(
                    old(self)@,
                    block,
                    block.statements.len() as nat,
                    depth as nat,
                ) == Err::<((), LowererView<'a>), CompileError>(e),
            },
        decreases depth, block, 1nat, 0nat,
    {
        let ghost start = self@;
        let mut i: usize = 0;
        while i < block.statements.len()
            invariant
                i <= block.statements.len(),
                self.wf(),
                start == old(self)@,
                start.scopes.len() > 0,
                self@.scopes.len() == start.scopes.len(),
                lower_block_functions(start, block, i as nat, depth as nat) == Ok::<
                    ((), LowererView<'a>),
                    CompileError,
                >(((), self@)),
            decreases block.statements.len() - i,
        {
            proof {
                assert(((i + 1) as nat - 1) as nat == i as nat);
            }
            match &block.statements[i].kind {
                ASTStatementKind::Item(item) => {
                    match self.lower_item_function(item, depth) {
                        Err(e) => {
                            proof {
                                lemma_block_functions_error(
                                    start,
                                    block,
                                    (i + 1) as nat,
                                    block.statements.len() as nat,
                                    depth as nat,
                                );
                            }
                            return Err(e);
                        },
                        Ok(()) => {},
                    }
                },
                _ => {},
            }
            i = i + 1;
        }
        Ok(())
    }

    /// Lowers a block.
    pub fn compile_statement_block(
        &mut self,
        block: &'a ASTStatementBlock,
        codegen_context: &mut CodegenContext,
        expected_type: Option<&Ty>,
        depth: usize,
    ) -> (r: Result<CompilationResult, CompileError>)
        requires
            old(self).wf(),
        ensures
            final(self).wf(),
            r is Ok ==> final(self)@.scopes.len() == old(self)@.scopes.len(),
            r is Ok ==> final(codegen_context)@.scopes.len() == old(codegen_context)@.scopes.len(),
            match r {
                Ok(result) => c_block(
                    compile_state(old(self), old(codegen_context)),
                    block,
                    option_ty_view(expected_type),
                    depth as nat,
                ) == Ok::<(ResultView, CompileState<'a>), CompileError>(
                    (result@, compile_state(final(self), final(codegen_context))),
                ),
                Err(e) => c_block(
                    compile_state(old(self), old(codegen_context)),
                    block,
                    option_ty_view(expected_type),
                    depth as nat,
                ) == Err::<(ResultView, CompileState<'a>), CompileError>(e),
            },
        decreases depth, block, 2nat, 0nat,
    {
        self.context.start_scope();
        codegen_context.start_scope();
        assert(compile_state(self, codegen_context) == enter_block(
            compile_state(old(self), old(codegen_context)),
        ));
        let items = collect_block_items(block);
        match self.process_items(&items) {
            Err(e) => {
                return Err(e);
            },
            Ok(()) => {},
        }
        match self.lower_block_functions(block, depth) {
            Err(e) => {
                return Err(e);
            },
            Ok(()) => {},
        }
        let result = match self.compile_statements(block, codegen_context, expected_type, depth) {
            Err(e) => {
                return Err(e);
            },
            Ok(result) => result,
        };
        let checked = match compile_block_result(result, expected_type, block.span) {
            Err(e) => {
                return Err(e);
            },
            Ok(checked) => checked,
        };
        self.context.close_scope();
        codegen_context.close_scope();
        Ok(checked)
    }

    /// Lowers the statements of a block.
    pub fn compile_statements(
        &mut self,
        block: &'a ASTStatementBlock,
        codegen_context: &mut CodegenContext,
        expected_type: Option<&Ty>,
        depth: usize,
    ) -> (r: Result<CompilationResult, CompileError>)
        requires
            old(self).wf(),
            old(self)@.scopes.len() > 0,
            old(codegen_context)@.scopes.len() > 0,
        ensures
            final(self).wf(),
            r is Ok ==> final(self)@.scopes.len() == old(self)@.scopes.len(),
            r is Ok ==> final(codegen_context)@.scopes.len() == old(codegen_context)@.scopes.len(),
            match r {
                Ok(result) => c_statements(
                    compile_state(old(self), old(codegen_context)),
                    block,
                    block.statements.len() as nat,
                    option_ty_view(expected_type),
                    depth as nat,
                ) == Ok::<(ResultView, CompileState<'a>), CompileError>(
                    (result@, compile_state(final(self), final(codegen_context))),
                ),
                Err(e) => c_statements(
                    compile_state(old(self), old(codegen_context)),
                    block,
                    block.statements.len() as nat,
                    option_ty_view(expected_type),
                    depth as nat,
                ) == Err::<(ResultView, CompileState<'a>), CompileError>(e),
            },
        decreases depth, block, 1nat, 0nat,
    {
        let ghost start = compile_state(self, codegen_context);
        let ghost expected = option_ty_view(expected_type);
        let mut last = CompilationResult::Value(Value::new_none());
        let mut i: usize = 0;
        while i < block.statements.len()
            invariant
                i <= block.statements.len(),
                self.wf(),
                start == compile_state(old(self), old(codegen_context)),
                expected == option_ty_view(expected_type),
                self@.scopes.len() == old(self)@.scopes.len(),
                codegen_context@.scopes.len() == old(codegen_context)@.scopes.len(),
                old(self)@.scopes.len() > 0,
                old(codegen_context)@.scopes.len() > 0,
                last@ is Value,
                c_statements(start, block, i as nat, expected, depth as nat) == Ok::<
                    (ResultView, CompileState<'a>),
                    CompileError,
                >((last@, compile_state(self, codegen_context))),
            decreases block.statements.len() - i,
        {
            proof {
                assert(((i + 1) as nat - 1) as nat == i as nat);
            }
            let asked = if i + 1 == block.statements.len() {
                wanted_ty(expected_type)
            } else {
                None
            };
            match self.compile_statement(&block.statements[i], codegen_context, asked, depth) {
                Err(e) => {
                    proof {
                        lemma_statements_error(
                            start,
                            block,
                            (i + 1) as nat,
                            block.statements.len() as nat,
                            expected,
                            depth as nat,
                        );
                    }
                    return Err(e);
                },
                Ok(CompilationResult::Returning) => {
                    proof {
                        lemma_statements_returning(
                            start,
                            block,
                            (i + 1) as nat,
                            block.statements.len() as nat,
                            expected,
                            depth as nat,
                        );
                    }
                    return Ok(CompilationResult::Returning);
                },
                Ok(CompilationResult::Value(value)) => {
                    last = CompilationResult::Value(value);
                },
            }
            i = i + 1;
        }
        Ok(last)
    }

    /// Lowers a statement.
    #[verifier::rlimit(80)]
    pub fn compile_statement(
        &mut self,
        statement: &'a ASTStatement,
        codegen_context: &mut CodegenContext,
        expected_type: Option<&Ty>,
        depth: usize,
    ) -> (r: Result<CompilationResult, CompileError>)
        requires
            old(self).wf(),
            old(self)@.scopes.len() > 0,
            old(codegen_context)@.scopes.len() > 0,
        ensures
            final(self).wf(),
            r is Ok ==> final(self)@.scopes.len() == old(self)@.scopes.len(),
            r is Ok ==> final(codegen_context)@.scopes.len() == old(codegen_context)@.scopes.len(),
            match r {
                Ok(result) => c_statement(
                    compile_state(old(self), old(codegen_context)),
                    statement,
                    option_ty_view(expected_type),
                    depth as nat,
                ) == Ok::<(ResultView, CompileState<'a>), CompileError>(
                    (result@, compile_state(final(self), final(codegen_context))),
                ),
                Err(e) => c_statement(
                    compile_state(old(self), old(codegen_context)),
                    statement,
                    option_ty_view(expected_type),
                    depth as nat,
                ) == Err::<(ResultView, CompileState<'a>), CompileError>(e),
            },
        decreases depth, statement, 0nat, 0nat,
    {
        let span = statement.span;
        match &statement.kind {
            ASTStatementKind::Semicolon => Ok(CompilationResult::Value(Value::new_none())),
            ASTStatementKind::Item(_) => Ok(CompilationResult::Value(Value::new_none())),
            ASTStatementKind::LocalBinding(name, hint, value) => {
                let value = match value {
                    None => {
                        return Err(CompileError { kind: CompileErrorKind::NotImplemented, span });
                    },
                    Some(value) => value,
                };
                let hint_ty = match hint {
                    None => None,
                    Some(ast_ty) => match self.resolve_type(ast_ty) {
                        Err(e) => {
                            return Err(e);
                        },
                        Ok((_, ty)) => Some(ty),
                    },
                };
                let result = match &hint_ty {
                    Some(ty) => self.compile_expression(value, codegen_context, Some(ty), depth),
                    None => self.compile_expression(value, codegen_context, None, depth),
                };
                match result {
                    Err(e) => Err(e),
                    Ok(CompilationResult::Returning) => Ok(CompilationResult::Returning),
                    Ok(CompilationResult::Value(value)) => {
                        if value.ty.equals(&Ty::from_primitive(TyPrimitive::Void)) {
                            return Err(
                                CompileError {
                                    kind: CompileErrorKind::Type(TypeError::UnexpectedType),
                                    span,
                                },
                            );
                        }
                        codegen_context.bind(*name, value);
                        Ok(CompilationResult::Value(Value::new_none()))
                    },
                }
            },
            ASTStatementKind::Expression(expression) => self.compile_expression(
                expression,
                codegen_context,
                expected_type,
                depth,
            ),
            ASTStatementKind::Return(expression) => {
                let return_type = codegen_context.return_type.clone();
                match self.compile_expression(
                    expression,
                    codegen_context,
                    Some(&return_type),
                    depth,
                ) {
                    Err(e) => Err(e),
                    Ok(CompilationResult::Returning) => Ok(CompilationResult::Returning),
                    Ok(CompilationResult::Value(value)) => self.compile_return(
                        codegen_context,
                        &value,
                        span,
                    ),
                }
            },
            ASTStatementKind::Break => {
                if codegen_context.loops.len() == 0 {
                    return Err(CompileError { kind: CompileErrorKind::OutsideLoop, span });
                }
                let (_, end) = codegen_context.loops[codegen_context.loops.len() - 1];
                codegen_context.add_computation(IRComp { kind: IRCompKind::Jmp(end), id: None });
                Ok(CompilationResult::Value(Value::new_none()))
            },
            ASTStatementKind::Continue => {
                if codegen_context.loops.len() == 0 {
                    return Err(CompileError { kind: CompileErrorKind::OutsideLoop, span });
                }
                let (begin, _) = codegen_context.loops[codegen_context.loops.len() - 1];
                codegen_context.add_computation(IRComp { kind: IRCompKind::Jmp(begin), id: None });
                Ok(CompilationResult::Value(Value::new_none()))
            },
        }
    }

    /// Lowers the functions among the items of a module.
    pub fn lower_module_functions(&mut self, module: &'a ASTModule, depth: usize) -> (r: Result<
        (),
        CompileError,
    >)
        requires
            old(self).wf(),
            old(self)@.scopes.len() > 0,
        ensures
            final(self).wf(),
            r is Ok ==> final(self)@.scopes.len() == old(self)@.scopes.len(),
            match r {
                Ok(()) => lower_module_functions(
                    old(self)@,
                    module,
                    module.items.len() as nat,
                    depth as nat,
                ) == Ok::<((), LowererView<'a>), CompileError>(((), final(self)@)),
                Err(e) => lower_module_functions(
                    old(self)@,
                    module,
                    module.items.len() as nat,
                    depth as nat,
                ) == Err::<((), LowererView<'a>), CompileError>(e),
            },
        decreases depth, module, 1nat, 0nat,
    {
        let ghost start = self@;
        let mut i: usize = 0;
        while i < module.items.len()
            invariant
                i <= module.items.len(),
                self.wf(),
                start == old(self)@,
                start.scopes.len() > 0,
                self@.scopes.len() == start.scopes.len(),
                lower_module_functions(start, module, i as nat, depth as nat) == Ok::<
                    ((), LowererView<'a>),
                    CompileError,
                >(((), self@)),
            decreases module.items.len() - i,
        {
            proof {
                assert(((i + 1) as nat - 1) as nat == i as nat);
            }
            match self.lower_item_function(&module.items[i], depth) {
                Err(e) => {
                    proof {
                        lemma_module_functions_error(
                            start,
                            module,
                            (i + 1) as nat,
                            module.items.len() as nat,
                            depth as nat,
                        );
                    }
                    return Err(e);
                },
                Ok(()) => {},
            }
            i = i + 1;
        }
        Ok(())
    }
}

proof fn lemma_block_functions_error<'a>(
    st: LowererView<'a>,
    block: &'a ASTStatementBlock,
    i: nat,
    count: nat,
    depth: nat,
)
    requires
        i <= count <= block.statements.len(),
        lower_block_functions(st, block, i, depth) is Err,
    ensures
        lower_block_functions(st, block, count, depth) == lower_block_functions(
            st,
            block,
            i,
            depth,
        ),
    decreases count - i,
{
    if i < count {
        lemma_block_functions_error(st, block, i + 1, count, depth);
    }
}

proof fn lemma_module_functions_error<'a>(
    st: LowererView<'a>,
    module: &'a ASTModule,
    i: nat,
    count: nat,
    depth: nat,
)
    requires
        i <= count <= module.items.len(),
        lower_module_functions(st, module, i, depth) is Err,
    ensures
        lower_module_functions(st, module, count, depth) == lower_module_functions(
            st,
            module,
            i,
            depth,
        ),
    decreases count - i,
{
    if i < count {
        lemma_module_functions_error(st, module, i + 1, count, depth);
    }
}

proof fn lemma_statements_error<'a>(
    st: CompileState<'a>,
    block: &'a ASTStatementBlock,
    i: nat,
    count: nat,
    expected: Option<TyView>,
    depth: nat,
)
    requires
        i <= count <= block.statements.len(),
        c_statements(st, block, i, expected, depth) is Err,
    ensures
        c_statements(st, block, count, expected, depth) == c_statements(
            st,
            block,
            i,
            expected,
            depth,
        ),
    decreases count - i,
{
    if i < count {
        lemma_statements_error(st, block, i + 1, count, expected, depth);
    }
}

proof fn lemma_statements_returning<'a>(
    st: CompileState<'a>,
    block: &'a ASTStatementBlock,
    i: nat,
    count: nat,
    expected: Option<TyView>,
    depth: nat,
)
    requires
        i <= count <= block.statements.len(),
        c_statements(st, block, i, expected, depth) matches Ok((ResultView::Returning, _)),
    ensures
        c_statements(st, block, count, expected, depth) == c_statements(
            st,
            block,
            i,
            expected,
            depth,
        ),
    decreases count - i,
{
    if i < count {
        lemma_statements_returning(st, block, i + 1, count, expected, depth);
    }
}

} // verus!

verus! {

/// The items of a module.
fn collect_module_items<'a>(module: &'a ASTModule) -> (r: Vec<&'a ASTItem>)
    ensures
        r@ == module_items(module, module.items.len() as nat),
{
    let mut r: Vec<&'a ASTItem> = Vec::new();
    let mut i: usize = 0;
    while i < module.items.len()
        invariant
            i <= module.items.len(),
            r@ == module_items(module, i as nat),
        decreases module.items.len() - i,
    {
        r.push(&module.items[i]);
        i = i + 1;
    }
    r
}

impl<'a> Lowerer<'a> {
    /// Lowers a module. What comes of it are the functions of the module
    /// in the intermediate representation, those that came out of templates
    /// among them, and the interner with the names that were made.
    pub fn process_module(self, module: &'a ASTModule) -> (r: Result<
        (crate::ir::IRModule, crate::globals::StringInterner),
        CompileError,
    >)
        requires
            self.wf(),
        ensures
            match r {
                Ok((ir_module, interner)) => {
                    &&& crate::solidlang::lowerer::codegen::model::process_module(self@, module)
                        matches Ok(((), st))
                    &&& ir_module@ == st.items
                    &&& interner.names() == st.names
                    &&& interner.count() == st.count
                    &&& interner.wf()
                },
                Err(e) => crate::solidlang::lowerer::codegen::model::process_module(self@, module)
                    == Err::<((), LowererView<'a>), CompileError>(e),
            },
    {
        let mut lowerer = self;
        lowerer.context.start_scope();
        if lowerer.tys.len() > usize::MAX - 11 || lowerer.interner.len() > u64::MAX - 11 {
            return Err(
                CompileError {
                    kind: CompileErrorKind::LimitExceeded,
                    span: Span { start: 0, len: 0 },
                },
            );
        }
        let ghost entered = lowerer@;
        let default_tys = lowerer.context.create_and_register_default_types(
            &mut lowerer.tys,
            &mut lowerer.interner,
        );
        proof {
            let base = entered.tys.len();
            assert(default_tys.handles() =~= crate::solidlang::lowerer::codegen::model::default_handles(
                base,
            ));
            assert(crate::solidlang::lowerer::codegen::model::register_defaults(entered) == Ok::<
                ((), LowererView<'a>),
                CompileError,
            >(((), lowerer@)));
        }
        let items = collect_module_items(module);
        match lowerer.process_items(&items) {
            Err(e) => {
                return Err(e);
            },
            Ok(()) => {},
        }
        let depth = lowerer.max_depth;
        match lowerer.lower_module_functions(module, depth) {
            Err(e) => {
                return Err(e);
            },
            Ok(()) => {},
        }
        lowerer.context.close_scope();
        Ok((crate::ir::IRModule { items: lowerer.items }, lowerer.interner))
    }
}

} // verus!
