//! The computations of the intermediate representation.

use crate::globals::Symbol;
use crate::ir::{IRType, IRValue};
use vstd::prelude::*;

verus! {

#[derive(Debug)]
pub struct IRCompFunctionCall {
    pub name: Symbol,
    pub args: Vec<IRValue>,
}

#[derive(Debug, Clone, Copy, PartialEq, Eq, Structural)]
pub enum IRCompBinaryOperationKind {
    Plus,
    Minus,
    Mul,
    Div,
    Mod,
    BitAnd,
    BitOr,
    BitRShift,
    BitLShift,
    Equal,
    NotEqual,
    Greater,
    Lesser,
    GreaterEqual,
    LesserEqual,
}

#[derive(Debug, Clone, Copy, PartialEq, Eq, Structural)]
pub struct IRCompBinaryOperation {
    pub kind: IRCompBinaryOperationKind,
    pub left_operand: IRValue,
    pub right_operand: IRValue,
}

#[derive(Debug, Clone, Copy, PartialEq, Eq, Structural)]
pub enum IRCompUnaryOperationKind {
    BoolNot,
    SignedNegation,
    BitNot,
}

#[derive(Debug, Clone, Copy, PartialEq, Eq, Structural)]
pub struct IRCompUnaryOperation {
    pub kind: IRCompUnaryOperationKind,
    pub operand: IRValue,
}

#[derive(Debug)]
pub struct IRCompConstant {
    pub bytes: Vec<u8>,
}

#[derive(Debug)]
pub enum IRCompKind {
    /// Yields the result of the function call
    FunctionCall(IRCompFunctionCall),
    /// Yields the result of the operation
    BinaryOperation(IRCompBinaryOperation),
    /// Yields the result of the operation
    UnaryOperation(IRCompUnaryOperation),
    /// Yields the constant
    Constant(IRCompConstant),
    /// Yields a pointer to a new location on the stack
    Alloc(IRType),
    /// Yields nothing, takes the second value and writes it to the location given by the first
    Store(IRType, IRValue, IRValue),
    /// Yields the value at the location
    Load(IRType, IRValue),
    /// Yields nothing, takes the second value and writes it to the location given by the first (with an offset)
    OffsetStore(IRType, IRValue, IRValue, u64),
    /// Yields the value at the location (with an offset)
    OffsetLoad(IRType, IRValue, u64),
    /// Yields nothing, returns from the function with the value
    Return(IRValue),
    /// Yields nothing, jumps to the label if the first byte of the value is not zero
    If(IRValue, Symbol),
    /// Yields nothing, jumps to the label
    Jmp(Symbol),
}

/// One computation of a function, with the name under which later
/// computations refer to what it yields.
#[derive(Debug)]
pub struct IRComp {
    pub kind: IRCompKind,
    pub id: Option<Symbol>,
}

/// What an [`IRCompKind`] is, with sequences in place of vectors.
pub enum IRCompKindView {
    FunctionCall { name: Symbol, args: Seq<IRValue> },
    BinaryOperation(IRCompBinaryOperation),
    UnaryOperation(IRCompUnaryOperation),
    Constant(Seq<u8>),
    Alloc(IRType),
    Store(IRType, IRValue, IRValue),
    Load(IRType, IRValue),
    OffsetStore(IRType, IRValue, IRValue, u64),
    OffsetLoad(IRType, IRValue, u64),
    Return(IRValue),
    If(IRValue, Symbol),
    Jmp(Symbol),
}

/// What an [`IRComp`] is, with sequences in place of vectors.
pub struct IRCompView {
    pub kind: IRCompKindView,
    pub id: Option<Symbol>,
}

impl View for IRCompKind {
    type V = IRCompKindView;

    open spec fn view(&self) -> IRCompKindView {
        match *self {
            IRCompKind::FunctionCall(call) => IRCompKindView::FunctionCall {
                name: call.name,
                args: call.args@,
            },
            IRCompKind::BinaryOperation(operation) => IRCompKindView::BinaryOperation(operation),
            IRCompKind::UnaryOperation(operation) => IRCompKindView::UnaryOperation(operation),
            IRCompKind::Constant(constant) => IRCompKindView::Constant(constant.bytes@),
            IRCompKind::Alloc(ir_type) => IRCompKindView::Alloc(ir_type),
            IRCompKind::Store(ir_type, location, value) => IRCompKindView::Store(
                ir_type,
                location,
                value,
            ),
            IRCompKind::Load(ir_type, location) => IRCompKindView::Load(ir_type, location),
            IRCompKind::OffsetStore(ir_type, location, value, offset) => {
                IRCompKindView::OffsetStore(ir_type, location, value, offset)
            },
            IRCompKind::OffsetLoad(ir_type, location, offset) => IRCompKindView::OffsetLoad(
                ir_type,
                location,
                offset,
            ),
            IRCompKind::Return(value) => IRCompKindView::Return(value),
            IRCompKind::If(value, label) => IRCompKindView::If(value, label),
            IRCompKind::Jmp(label) => IRCompKindView::Jmp(label),
        }
    }
}

impl View for IRComp {
    type V = IRCompView;

    open spec fn view(&self) -> IRCompView {
        IRCompView { kind: self.kind@, id: self.id }
    }
}

/// The views of a sequence of computations.
pub open spec fn comps_view(comps: Seq<IRComp>) -> Seq<IRCompView> {
    comps.map_values(|comp: IRComp| comp@)
}

/// A copy of the values.
pub fn copy_values(values: &Vec<IRValue>) -> (r: Vec<IRValue>)
    ensures
        r@ == values@,
{
    let mut r: Vec<IRValue> = Vec::new();
    let mut i: usize = 0;
    while i < values.len()
        invariant
            i <= values.len(),
            r@ == values@.take(i as int),
        decreases values.len() - i,
    {
        r.push(values[i]);
        i = i + 1;
        assert(values@.take(i as int) =~= values@.take(i - 1).push(values@[i - 1]));
    }
    assert(values@.take(values.len() as int) =~= values@);
    r
}

impl Clone for IRCompKind {
    fn clone(&self) -> (r: Self)
        ensures
            r@ == self@,
    {
        match self {
            IRCompKind::FunctionCall(call) => IRCompKind::FunctionCall(
                IRCompFunctionCall { name: call.name, args: copy_values(&call.args) },
            ),
            IRCompKind::BinaryOperation(operation) => IRCompKind::BinaryOperation(*operation),
            IRCompKind::UnaryOperation(operation) => IRCompKind::UnaryOperation(*operation),
            IRCompKind::Constant(constant) => {
                let bytes = constant.bytes.clone();
                assert(bytes@ =~= constant.bytes@);
                IRCompKind::Constant(IRCompConstant { bytes })
            },
            IRCompKind::Alloc(ir_type) => IRCompKind::Alloc(*ir_type),
            IRCompKind::Store(ir_type, location, value) => IRCompKind::Store(
                *ir_type,
                *location,
                *value,
            ),
            IRCompKind::Load(ir_type, location) => IRCompKind::Load(*ir_type, *location),
            IRCompKind::OffsetStore(ir_type, location, value, offset) => IRCompKind::OffsetStore(
                *ir_type,
                *location,
                *value,
                *offset,
            ),
            IRCompKind::OffsetLoad(ir_type, location, offset) => IRCompKind::OffsetLoad(
                *ir_type,
                *location,
                *offset,
            ),
            IRCompKind::Return(value) => IRCompKind::Return(*value),
            IRCompKind::If(value, label) => IRCompKind::If(*value, *label),
            IRCompKind::Jmp(label) => IRCompKind::Jmp(*label),
        }
    }
}

impl Clone for IRComp {
    fn clone(&self) -> (r: Self)
        ensures
            r@ == self@,
    {
        IRComp { kind: self.kind.clone(), id: self.id }
    }
}

/// A copy of the computations.
pub fn copy_comps(comps: &Vec<IRComp>) -> (r: Vec<IRComp>)
    ensures
        comps_view(r@) == comps_view(comps@),
{
    let mut r: Vec<IRComp> = Vec::new();
    let mut i: usize = 0;
    while i < comps.len()
        invariant
            i <= comps.len(),
            comps_view(r@) == comps_view(comps@.take(i as int)),
        decreases comps.len() - i,
    {
        let comp = comps[i].clone();
        proof {
            assert(comps@.take(i + 1) =~= comps@.take(i as int).push(comps@[i as int]));
            assert(comps_view(r@.push(comp)) =~= comps_view(r@).push(comp@));
            assert(comps_view(comps@.take(i as int).push(comps@[i as int])) =~= comps_view(
                comps@.take(i as int),
            ).push(comps@[i as int]@));
        }
        r.push(comp);
        i = i + 1;
    }
    assert(comps@.take(comps.len() as int) =~= comps@);
    r
}

} // verus!
