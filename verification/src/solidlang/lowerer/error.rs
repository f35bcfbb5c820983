//! The errors of the lowering.

use crate::solidlang::context::layout::LayoutError;
use crate::solidlang::span::Span;
use vstd::prelude::*;

verus! {

/// A name that stands for nothing, or for something else than was asked
/// for.
#[derive(Debug, Clone, Copy, PartialEq, Eq, Structural)]
pub enum ResolveError {
    /// No type has the name.
    UnknownType,
    /// No template has the name.
    UnknownTemplate,
    /// No value has the name.
    UnknownIdentifier,
    /// A template is named without type arguments.
    GenericArity,
}

/// Types that do not fit.
#[derive(Debug, Clone, Copy, PartialEq, Eq, Structural)]
pub enum TypeError {
    /// The operator is not defined for the type of its operand.
    OperatorMismatch,
    /// The expression has another type than the one that is expected.
    UnexpectedType,
    /// The number does not fit into the type that it is to have.
    LiteralOverflow,
    /// An `if` without `else` stands where a value is expected.
    MissingElse,
    /// The two branches of an `if` have values of different types.
    BranchMismatch,
}

/// A call that does not select one function.
#[derive(Debug, Clone, Copy, PartialEq, Eq, Structural)]
pub enum OverloadError {
    /// No function fits the call.
    NoMatch,
    /// Several functions fit the call.
    Ambiguous,
}

/// A template that cannot be instantiated.
#[derive(Debug, Clone, Copy, PartialEq, Eq, Structural)]
pub enum TemplateError {
    /// The template has another number of parameters than arguments are
    /// given.
    ArityMismatch,
    /// Templates are instantiated within templates deeper than the limit
    /// allows.
    DepthExceeded,
}

#[derive(Debug, Clone, Copy, PartialEq, Eq, Structural)]
pub enum CompileErrorKind {
    Resolve(ResolveError),
    Layout(LayoutError),
    Type(TypeError),
    Overload(OverloadError),
    Template(TemplateError),
    /// `break` or `continue` outside of a loop.
    OutsideLoop,
    /// A construct of the language that is not lowered yet.
    NotImplemented,
    /// The program needs more types, templates or symbols than there are
    /// handles for them.
    LimitExceeded,
}

/// Why a program cannot be lowered, and at which place of its text.
#[derive(Debug, Clone, Copy, PartialEq, Eq, Structural)]
pub struct CompileError {
    pub kind: CompileErrorKind,
    pub span: Span,
}

} // verus!
