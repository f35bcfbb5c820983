//! The interpreter of the intermediate representation.

pub mod bytes;
pub mod semantics;
pub mod value;

use crate::globals::Symbol;
use crate::ir::comp::{IRCompBinaryOperationKind, IRCompKind, IRCompUnaryOperationKind};
use crate::ir::interpreter::bytes::{
    bytes_of_uint, decode_uint, lemma_pow256_values, pow256, Endianness,
};
use crate::ir::interpreter::semantics::{
    binary_operation, binary_uint, call, empty_values, enter, entry_frame, execute, frame_size,
    is_comparison, is_operand_width, jump_target, leave, load, operand, operands, pointer_of, run,
    step, store, unary_operation, well_formed, well_formed_frame, zeros, Action, FrameView,
    IRInterpreterError, IRInterpreterLimits, MachineView, Outcome,
};
use crate::ir::interpreter::value::{values_view, IRInterpreterValue};
use crate::ir::{
    find_label, find_name, items_view, IRFunctionView, IRItemFunctionDef, IRItemKind, IRModule,
    IRValue,
};
use std::collections::HashMap;
use vstd::prelude::*;

verus! {

broadcast use vstd::std_specs::hash::group_hash_axioms;

/// An active call.
struct IRInterpreterFrame {
    function: u64,
    values: Vec<IRInterpreterValue>,
    pc: usize,
    memory_base: usize,
}

impl View for IRInterpreterFrame {
    type V = FrameView;

    closed spec fn view(&self) -> FrameView {
        FrameView {
            function: self.function,
            values: values_view(self.values@),
            pc: self.pc as nat,
            memory_base: self.memory_base as nat,
        }
    }
}

/// The active calls and the memory they allocated.
struct IRInterpreterStack {
    frames: Vec<IRInterpreterFrame>,
    memory: Vec<u8>,
}

impl View for IRInterpreterStack {
    type V = MachineView;

    closed spec fn view(&self) -> MachineView {
        MachineView {
            frames: self.frames@.map_values(|frame: IRInterpreterFrame| frame@),
            memory: self.memory@,
        }
    }
}

/// What a computation asks for. The memory is changed in place.
enum IRInterpreterAction {
    Yield { value: IRInterpreterValue, jump: Option<usize> },
    Call { function: u64, args: Vec<IRInterpreterValue> },
    Return { value: IRInterpreterValue },
}

impl IRInterpreterAction {
    spec fn view_with(self, memory: Seq<u8>) -> Action {
        match self {
            IRInterpreterAction::Yield { value, jump } => Action::Yield {
                value: value@,
                memory,
                jump: match jump {
                    Some(target) => Some(target as nat),
                    None => None,
                },
            },
            IRInterpreterAction::Call { function, args } => Action::Call {
                function,
                args: values_view(args@),
            },
            IRInterpreterAction::Return { value } => Action::Return { value: value@ },
        }
    }
}

/// The machine after a step.
enum IRInterpreterOutcome {
    Running(IRInterpreterStack),
    Finished(IRInterpreterValue),
    Failed(IRInterpreterError),
}

impl View for IRInterpreterOutcome {
    type V = Outcome;

    closed spec fn view(&self) -> Outcome {
        match *self {
            IRInterpreterOutcome::Running(machine) => Outcome::Running(machine@),
            IRInterpreterOutcome::Finished(value) => Outcome::Finished(value@),
            IRInterpreterOutcome::Failed(e) => Outcome::Failed(e),
        }
    }
}

/// Runs the functions of the modules that were loaded into it.
pub struct IRInterpreter {
    functions: HashMap<u64, IRItemFunctionDef>,
    endian: Endianness,
    limits: IRInterpreterLimits,
}

/// The result of a call as the bytes of the value.
pub open spec fn result_view(result: Result<IRInterpreterValue, IRInterpreterError>) -> Result<
    Seq<u8>,
    IRInterpreterError,
> {
    match result {
        Ok(value) => Ok(value@),
        Err(e) => Err(e),
    }
}

/// The functions after those of `items` were loaded, in their order, into
/// `functions`. A function replaces an earlier one of the same name.
pub open spec fn loaded(functions: Map<u64, IRFunctionView>, items: Seq<IRFunctionView>) -> Map<
    u64,
    IRFunctionView,
>
    decreases items.len(),
{
    if items.len() == 0 {
        functions
    } else {
        loaded(functions, items.drop_last()).insert(items.last().name.index, items.last())
    }
}

pub const DEFAULT_MAX_FRAMES: usize = 0x1_0000;

pub const DEFAULT_MAX_VALUES: usize = 0x1000_0000;

pub const DEFAULT_MAX_MEMORY: usize = 0x4000_0000;

pub const DEFAULT_MAX_STEPS: u64 = 0xffff_ffff_ffff_ffff;

proof fn lemma_find_name_first(names: Seq<Option<Symbol>>, name: Symbol, i: int)
    requires
        0 <= i <= names.len(),
        forall|j: int| 0 <= j < i ==> names[j] != Some(name),
        i < names.len() ==> names[i] == Some(name),
    ensures
        find_name(names, name) == if i < names.len() {
            Some(i)
        } else {
            None
        },
    decreases names.len(),
{
    if names.len() > 0 && i > 0 {
        let rest = names.drop_first();
        assert forall|j: int| 0 <= j < i - 1 implies rest[j] != Some(name) by {
            assert(rest[j] == names[j + 1]);
        }
        lemma_find_name_first(rest, name, i - 1);
    }
}

/// The index of the value named `id` among the values of `function`.
fn find_value(function: &IRItemFunctionDef, id: Symbol) -> (r: Option<usize>)
    requires
        frame_size(function@) <= usize::MAX,
    ensures
        r matches Some(i) ==> find_name(function@.value_names(), id) == Some(i as int) && i
            < frame_size(function@),
        r is None ==> find_name(function@.value_names(), id) is None,
{
    let ghost names = function@.value_names();
    let params = function.params.len();
    let mut i: usize = 0;
    while i < params
        invariant
            i <= params,
            params == function.params.len(),
            names == function@.value_names(),
            forall|j: int| 0 <= j < i ==> names[j] != Some(id),
        decreases params - i,
    {
        let found = match function.params[i].0 {
            Some(name) => name == id,
            None => false,
        };
        assert(names[i as int] == function.params@[i as int].0);
        if found {
            proof {
                lemma_find_name_first(names, id, i as int);
            }
            return Some(i);
        }
        i = i + 1;
    }
    let comps = function.comps.len();
    let mut k: usize = 0;
    while k < comps
        invariant
            k <= comps,
            comps == function.comps.len(),
            params == function.params.len(),
            params + comps <= usize::MAX,
            names == function@.value_names(),
            forall|j: int| 0 <= j < params + k ==> names[j] != Some(id),
        decreases comps - k,
    {
        let found = match function.comps[k].id {
            Some(name) => name == id,
            None => false,
        };
        assert(names[params + k] == function.comps@[k as int].id);
        if found {
            proof {
                lemma_find_name_first(names, id, params + k);
            }
            return Some(params + k);
        }
        k = k + 1;
    }
    proof {
        lemma_find_name_first(names, id, names.len() as int);
    }
    None
}

} // verus!

verus! {

proof fn lemma_find_label_take(defs: Seq<(Symbol, u64)>, label: Symbol, i: int)
    requires
        0 <= i <= defs.len(),
        forall|j: int| i <= j < defs.len() ==> defs[j].0 != label,
    ensures
        find_label(defs, label) == find_label(defs.take(i), label),
    decreases defs.len() - i,
{
    if i < defs.len() {
        assert(defs.drop_last().take(i) =~= defs.take(i));
        lemma_find_label_take(defs.drop_last(), label, i);
    } else {
        assert(defs.take(i) =~= defs);
    }
}

/// The target of the last definition of `label`.
fn find_label_target(defs: &Vec<(Symbol, u64)>, label: Symbol) -> (r: Option<u64>)
    ensures
        r == find_label(defs@, label),
{
    let mut i: usize = defs.len();
    while i > 0
        invariant
            i <= defs.len(),
            forall|j: int| i <= j < defs.len() ==> defs@[j].0 != label,
        decreases i,
    {
        i = i - 1;
        if defs[i].0 == label {
            proof {
                lemma_find_label_take(defs@, label, i + 1);
                assert(defs@.take(i + 1).last() == defs@[i as int]);
            }
            return Some(defs[i].1);
        }
    }
    proof {
        lemma_find_label_take(defs@, label, 0);
    }
    None
}

/// The index of the computation to which a jump to `label` leads.
fn find_jump_target(function: &IRItemFunctionDef, label: Symbol) -> (r: Result<
    usize,
    IRInterpreterError,
>)
    ensures
        match r {
            Ok(target) => jump_target(function@, label) == Ok::<nat, IRInterpreterError>(
                target as nat,
            ),
            Err(e) => jump_target(function@, label) == Err::<nat, IRInterpreterError>(e),
        },
{
    match find_label_target(&function.label_defs, label) {
        Some(target) => {
            if target <= function.comps.len() as u64 {
                Ok(target as usize)
            } else {
                Err(IRInterpreterError::UnknownLabel)
            }
        },
        None => Err(IRInterpreterError::UnknownLabel),
    }
}

/// The value named `value` among the values of a frame of `function`.
fn get_operand<'a>(
    function: &IRItemFunctionDef,
    values: &'a Vec<IRInterpreterValue>,
    value: IRValue,
) -> (r: Option<&'a IRInterpreterValue>)
    requires
        values.len() == frame_size(function@),
    ensures
        match r {
            Some(v) => operand(function@, values_view(values@), value) == Some(v@),
            None => operand(function@, values_view(values@), value) is None,
        },
{
    match find_value(function, value.id) {
        Some(i) => Some(&values[i]),
        None => None,
    }
}

/// The values of the operands `args`.
fn get_operands(
    function: &IRItemFunctionDef,
    values: &Vec<IRInterpreterValue>,
    args: &Vec<IRValue>,
) -> (r: Option<Vec<IRInterpreterValue>>)
    requires
        values.len() == frame_size(function@),
    ensures
        match r {
            Some(v) => operands(function@, values_view(values@), args@) == Some(values_view(v@)),
            None => operands(function@, values_view(values@), args@) is None,
        },
{
    let mut result: Vec<IRInterpreterValue> = Vec::new();
    let mut i: usize = 0;
    while i < args.len()
        invariant
            i <= args.len(),
            values.len() == frame_size(function@),
            operands(function@, values_view(values@), args@.take(i as int)) == Some(
                values_view(result@),
            ),
        decreases args.len() - i,
    {
        proof {
            assert(args@.take(i + 1).drop_last() =~= args@.take(i as int));
            assert(args@.take(i + 1).last() == args@[i as int]);
        }
        match get_operand(function, values, args[i]) {
            Some(v) => {
                let copy = v.clone();
                proof {
                    assert(values_view(result@.push(copy)) =~= values_view(result@).push(v@));
                }
                result.push(copy);
            },
            None => {
                proof {
                    lemma_operands_none(function@, values_view(values@), args@, i + 1);
                }
                return None;
            },
        }
        i = i + 1;
    }
    proof {
        assert(args@.take(args.len() as int) =~= args@);
    }
    Some(result)
}

proof fn lemma_operands_none(
    function: IRFunctionView,
    values: Seq<Seq<u8>>,
    args: Seq<IRValue>,
    i: int,
)
    requires
        0 <= i <= args.len(),
        operands(function, values, args.take(i)) is None,
    ensures
        operands(function, values, args) is None,
    decreases args.len() - i,
{
    if i < args.len() {
        assert(args.take(i + 1).drop_last() =~= args.take(i));
        lemma_operands_none(function, values, args, i + 1);
    } else {
        assert(args.take(i) =~= args);
    }
}

/// The modulus of arithmetic on `width` bytes.
fn modulus(width: usize) -> (m: u128)
    requires
        is_operand_width(width as nat),
    ensures
        m == pow256(width as nat),
        0 < m <= 0x1_0000_0000_0000_0000,
{
    proof {
        lemma_pow256_values();
    }
    if width == 1 {
        0x100
    } else if width == 2 {
        0x1_0000
    } else if width == 4 {
        0x1_0000_0000
    } else {
        0x1_0000_0000_0000_0000
    }
}

/// The result of a binary operation on two unsigned numbers of `width`
/// bytes.
fn compute_binary(kind: IRCompBinaryOperationKind, a: u64, b: u64, width: usize) -> (r: Result<
    u64,
    IRInterpreterError,
>)
    requires
        is_operand_width(width as nat),
        a < pow256(width as nat),
        b < pow256(width as nat),
    ensures
        r == binary_uint(kind, a, b, width as nat),
{
    let m = modulus(width);
    let wide_a = a as u128;
    let wide_b = b as u128;
    match kind {
        IRCompBinaryOperationKind::Plus => Ok(((wide_a + wide_b) % m) as u64),
        IRCompBinaryOperationKind::Minus => Ok(((wide_a + m - wide_b) % m) as u64),
        IRCompBinaryOperationKind::Mul => {
            assert(wide_a * wide_b <= 0xffff_ffff_ffff_ffff * 0xffff_ffff_ffff_ffff)
                by (nonlinear_arith)
                requires
                    0 <= wide_a <= 0xffff_ffff_ffff_ffff,
                    0 <= wide_b <= 0xffff_ffff_ffff_ffff,
            ;
            Ok(((wide_a * wide_b) % m) as u64)
        },
        IRCompBinaryOperationKind::Div => if b == 0 {
            Err(IRInterpreterError::DivisionByZero)
        } else {
            Ok(a / b)
        },
        IRCompBinaryOperationKind::Mod => if b == 0 {
            Err(IRInterpreterError::DivisionByZero)
        } else {
            Ok(a % b)
        },
        IRCompBinaryOperationKind::BitAnd => Ok(a & b),
        IRCompBinaryOperationKind::BitOr => Ok(a | b),
        IRCompBinaryOperationKind::BitRShift => if b >= 8 * (width as u64) {
            Err(IRInterpreterError::InvalidShift)
        } else {
            Ok(a >> b)
        },
        IRCompBinaryOperationKind::BitLShift => if b >= 8 * (width as u64) {
            Err(IRInterpreterError::InvalidShift)
        } else {
            Ok((((a << b) as u128) % m) as u64)
        },
        IRCompBinaryOperationKind::Equal => Ok(if a == b { 1 } else { 0 }),
        IRCompBinaryOperationKind::NotEqual => Ok(if a != b { 1 } else { 0 }),
        IRCompBinaryOperationKind::Greater => Ok(if a > b { 1 } else { 0 }),
        IRCompBinaryOperationKind::Lesser => Ok(if a < b { 1 } else { 0 }),
        IRCompBinaryOperationKind::GreaterEqual => Ok(if a >= b { 1 } else { 0 }),
        IRCompBinaryOperationKind::LesserEqual => Ok(if a <= b { 1 } else { 0 }),
    }
}

fn check_comparison(kind: IRCompBinaryOperationKind) -> (r: bool)
    ensures
        r == is_comparison(kind),
{
    match kind {
        IRCompBinaryOperationKind::Equal
        | IRCompBinaryOperationKind::NotEqual
        | IRCompBinaryOperationKind::Greater
        | IRCompBinaryOperationKind::Lesser
        | IRCompBinaryOperationKind::GreaterEqual
        | IRCompBinaryOperationKind::LesserEqual => true,
        _ => false,
    }
}

fn check_operand_width(len: usize) -> (r: bool)
    ensures
        r == is_operand_width(len as nat),
{
    len == 1 || len == 2 || len == 4 || len == 8
}

/// The result of a binary operation on two values.
fn apply_binary(
    kind: IRCompBinaryOperationKind,
    left: &IRInterpreterValue,
    right: &IRInterpreterValue,
    endian: Endianness,
) -> (r: Result<IRInterpreterValue, IRInterpreterError>)
    ensures
        result_view(r) == binary_operation(kind, left@, right@, endian),
{
    let width = left.bytes.len();
    if width != right.bytes.len() || !check_operand_width(width) {
        return Ok(IRInterpreterValue::void());
    }
    proof {
        crate::ir::interpreter::bytes::lemma_bytes_of_uint_of_bytes(left@, endian);
        crate::ir::interpreter::bytes::lemma_bytes_of_uint_of_bytes(right@, endian);
        lemma_pow256_values();
    }
    let a = left.into_uint(endian);
    let b = right.into_uint(endian);
    match compute_binary(kind, a, b, width) {
        Err(e) => Err(e),
        Ok(v) => {
            let out = if check_comparison(kind) {
                1
            } else {
                width
            };
            Ok(IRInterpreterValue::from_uint(v, out, endian))
        },
    }
}

/// The result of a unary operation on a value.
fn apply_unary(kind: IRCompUnaryOperationKind, operand: &IRInterpreterValue, endian: Endianness)
    -> (r: IRInterpreterValue)
    ensures
        r@ == unary_operation(kind, operand@, endian),
{
    let width = operand.bytes.len();
    if !check_operand_width(width) {
        return IRInterpreterValue::void();
    }
    proof {
        crate::ir::interpreter::bytes::lemma_bytes_of_uint_of_bytes(operand@, endian);
        lemma_pow256_values();
    }
    let a = operand.into_uint(endian) as u128;
    let m = modulus(width);
    match kind {
        IRCompUnaryOperationKind::BoolNot => if width == 1 {
            IRInterpreterValue::from_uint(if a == 0 { 1 } else { 0 }, 1, endian)
        } else {
            IRInterpreterValue::void()
        },
        IRCompUnaryOperationKind::SignedNegation => IRInterpreterValue::from_uint(
            ((m - a) % m) as u64,
            width,
            endian,
        ),
        IRCompUnaryOperationKind::BitNot => IRInterpreterValue::from_uint(
            (m - 1 - a) as u64,
            width,
            endian,
        ),
    }
}

} // verus!

verus! {

/// The address in the first eight bytes of `value`.
fn read_pointer(value: &IRInterpreterValue, endian: Endianness) -> (r: Option<u64>)
    ensures
        match r {
            Some(address) => pointer_of(value@, endian) == Some(address as nat),
            None => pointer_of(value@, endian) is None,
        },
{
    if value.bytes.len() < 8 {
        return None;
    }
    let mut first: Vec<u8> = Vec::new();
    let mut i: usize = 0;
    while i < 8
        invariant
            i <= 8,
            value.bytes.len() >= 8,
            first@ == value@.take(i as int),
        decreases 8 - i,
    {
        first.push(value.bytes[i]);
        i = i + 1;
        assert(value@.take(i as int) =~= value@.take(i - 1).push(value@[i - 1]));
    }
    Some(decode_uint(&first, endian))
}

/// Writes the first `size` bytes of `value` at `address`.
fn write_memory(memory: &mut Vec<u8>, address: u128, size: u64, value: &IRInterpreterValue) -> (r:
    Result<(), IRInterpreterError>)
    requires
        address <= 0x2_0000_0000_0000_0000,
    ensures
        match r {
            Ok(()) => store(old(memory)@, address as nat, size as nat, value@) == Ok::<
                Seq<u8>,
                IRInterpreterError,
            >(final(memory)@),
            Err(e) => store(old(memory)@, address as nat, size as nat, value@) == Err::<
                Seq<u8>,
                IRInterpreterError,
            >(e) && final(memory)@ == old(memory)@,
        },
        final(memory).len() == old(memory).len(),
{
    if (value.bytes.len() as u128) < size as u128 {
        return Err(IRInterpreterError::InvalidOperand);
    }
    if address + size as u128 > memory.len() as u128 {
        return Err(IRInterpreterError::InvalidAccess);
    }
    let base = address as usize;
    let count = size as usize;
    let mut i: usize = 0;
    while i < count
        invariant
            i <= count,
            base + count <= memory.len(),
            count <= value.bytes.len(),
            memory.len() == old(memory).len(),
            memory@ == old(memory)@.take(base as int) + value@.take(i as int) + old(memory)@.skip(
                base + i,
            ),
        decreases count - i,
    {
        let ghost before = memory@;
        memory.set(base + i, value.bytes[i]);
        proof {
            assert(memory@ =~= old(memory)@.take(base as int) + value@.take(i + 1) + old(
                memory,
            )@.skip(base + i + 1));
        }
        i = i + 1;
    }
    proof {
        assert(old(memory)@.take(base as int) + value@.take(0) + old(memory)@.skip(base as int)
            =~= old(memory)@);
    }
    Ok(())
}

/// Reads `size` bytes at `address`.
fn read_memory(memory: &Vec<u8>, address: u128, size: u64) -> (r: Result<
    IRInterpreterValue,
    IRInterpreterError,
>)
    requires
        address <= 0x2_0000_0000_0000_0000,
    ensures
        result_view(r) == load(memory@, address as nat, size as nat),
{
    if address + size as u128 > memory.len() as u128 {
        return Err(IRInterpreterError::InvalidAccess);
    }
    let base = address as usize;
    let count = size as usize;
    let mut bytes: Vec<u8> = Vec::new();
    let mut i: usize = 0;
    while i < count
        invariant
            i <= count,
            base + count <= memory.len(),
            bytes@ == memory@.subrange(base as int, base + i),
        decreases count - i,
    {
        bytes.push(memory[base + i]);
        i = i + 1;
        assert(memory@.subrange(base as int, base + i) =~= memory@.subrange(
            base as int,
            base + i - 1,
        ).push(memory@[base + i - 1]));
    }
    Ok(IRInterpreterValue { bytes })
}

/// Allocates `size` zero bytes at the end of the memory and gives their
/// address.
fn allocate(memory: &mut Vec<u8>, size: u64, endian: Endianness, limits: IRInterpreterLimits)
    -> (r: Result<IRInterpreterValue, IRInterpreterError>)
    ensures
        match r {
            Ok(pointer) => {
                &&& old(memory).len() + size <= limits.max_memory
                &&& pointer@ == bytes_of_uint(old(memory).len() as nat, 8, endian)
                &&& final(memory)@ == old(memory)@ + zeros(size as nat)
            },
            Err(e) => {
                &&& old(memory).len() + size > limits.max_memory
                &&& e == IRInterpreterError::StackExhausted
                &&& final(memory)@ == old(memory)@
            },
        },
{
    if memory.len() as u128 + size as u128 > limits.max_memory as u128 {
        return Err(IRInterpreterError::StackExhausted);
    }
    let pointer = IRInterpreterValue::from_uint(memory.len() as u64, 8, endian);
    let count = size as usize;
    let mut i: usize = 0;
    while i < count
        invariant
            i <= count,
            old(memory).len() + count <= usize::MAX,
            memory@ == old(memory)@ + zeros(i as nat),
        decreases count - i,
    {
        memory.push(0);
        i = i + 1;
        assert(memory@ =~= old(memory)@ + zeros(i as nat));
    }
    proof {
        assert(old(memory)@ + zeros(0) =~= old(memory)@);
    }
    Ok(pointer)
}

} // verus!

verus! {

impl IRInterpreter {
    /// The loaded functions, each under the index of its name.
    pub closed spec fn functions(&self) -> Map<u64, IRFunctionView> {
        self.functions@.map_values(|function: IRItemFunctionDef| function@)
    }

    /// The byte order in which the interpreter reads and writes numbers.
    pub closed spec fn endianness(&self) -> Endianness {
        self.endian
    }

    /// The bounds within which the interpreter runs.
    pub closed spec fn limits(&self) -> IRInterpreterLimits {
        self.limits
    }

    /// The bounds of an interpreter made by [`IRInterpreter::new`].
    pub open spec fn default_limits() -> IRInterpreterLimits {
        IRInterpreterLimits {
            max_frames: DEFAULT_MAX_FRAMES,
            max_values: DEFAULT_MAX_VALUES,
            max_memory: DEFAULT_MAX_MEMORY,
            max_steps: DEFAULT_MAX_STEPS,
        }
    }

    /// An interpreter without functions that computes in the byte order of
    /// the machine, within the default bounds.
    pub fn new() -> (r: Self)
        ensures
            r.functions() == Map::<u64, IRFunctionView>::empty(),
            r.limits() == Self::default_limits(),
    {
        Self::with(
            Endianness::host(),
            IRInterpreterLimits {
                max_frames: DEFAULT_MAX_FRAMES,
                max_values: DEFAULT_MAX_VALUES,
                max_memory: DEFAULT_MAX_MEMORY,
                max_steps: DEFAULT_MAX_STEPS,
            },
        )
    }

    /// An interpreter without functions that computes in the given byte
    /// order within the given bounds.
    pub fn with(endian: Endianness, limits: IRInterpreterLimits) -> (r: Self)
        ensures
            r.functions() == Map::<u64, IRFunctionView>::empty(),
            r.endianness() == endian,
            r.limits() == limits,
    {
        let r = Self { functions: HashMap::new(), endian, limits };
        assert(r.functions() =~= Map::<u64, IRFunctionView>::empty());
        r
    }

    /// Loads the functions of `module`. A function replaces one of the same
    /// name that was loaded before.
    pub fn load_module(&mut self, module: IRModule)
        ensures
            final(self).functions() == loaded(old(self).functions(), module@),
            final(self).endianness() == old(self).endianness(),
            final(self).limits() == old(self).limits(),
    {
        let ghost all = module@;
        let ghost items = module.items@;
        for item in it: module.items
            invariant
                it.seq() == items,
                all == items_view(items),
                self.endian == old(self).endian,
                self.limits == old(self).limits,
                self.functions() == loaded(old(self).functions(), all.take(it.index())),
        {
            let ghost before = self.functions();
            let ghost i = it.index();
            proof {
                assert(all.take(i + 1).drop_last() =~= all.take(i));
                assert(all.take(i + 1).last() == item@);
            }
            match item.kind {
                IRItemKind::FunctionDef(function_def) => {
                    let ghost view = function_def@;
                    let key = function_def.name.index;
                    self.functions.insert(key, function_def);
                    proof {
                        assert(self.functions() =~= before.insert(key, view));
                    }
                },
            }
        }
        proof {
            assert(all.take(all.len() as int) =~= all);
        }
    }

    /// What the computation `kind` of `function` does in a frame with the
    /// given values. The memory is changed in place.
    fn execute(
        &self,
        function: &IRItemFunctionDef,
        values: &Vec<IRInterpreterValue>,
        memory: &mut Vec<u8>,
        kind: &IRCompKind,
    ) -> (r: Result<IRInterpreterAction, IRInterpreterError>)
        requires
            values.len() == frame_size(function@),
            old(memory).len() <= self.limits.max_memory,
        ensures
            match r {
                Ok(action) => execute(
                    function@,
                    values_view(values@),
                    old(memory)@,
                    kind@,
                    self.endian,
                    self.limits,
                ) == Ok::<Action, IRInterpreterError>(action.view_with(final(memory)@)),
                Err(e) => execute(
                    function@,
                    values_view(values@),
                    old(memory)@,
                    kind@,
                    self.endian,
                    self.limits,
                ) == Err::<Action, IRInterpreterError>(e),
            },
            old(memory).len() <= final(memory).len() <= self.limits.max_memory,
            r matches Ok(IRInterpreterAction::Yield { jump: Some(target), .. }) ==> target
                <= function.comps.len(),
            r matches Ok(IRInterpreterAction::Call { .. }) ==> final(memory)@ == old(memory)@,
            r matches Ok(IRInterpreterAction::Return { .. }) ==> final(memory)@ == old(memory)@,
    {
        match kind {
            IRCompKind::FunctionCall(function_call) => {
                match get_operands(function, values, &function_call.args) {
                    None => Err(IRInterpreterError::UnknownValue),
                    Some(args) => Ok(
                        IRInterpreterAction::Call { function: function_call.name.index, args },
                    ),
                }
            },
            IRCompKind::BinaryOperation(operation) => {
                let left = get_operand(function, values, operation.left_operand);
                let right = get_operand(function, values, operation.right_operand);
                match (left, right) {
                    (Some(left), Some(right)) => {
                        match apply_binary(operation.kind, left, right, self.endian) {
                            Ok(value) => Ok(IRInterpreterAction::Yield { value, jump: None }),
                            Err(e) => Err(e),
                        }
                    },
                    _ => Err(IRInterpreterError::UnknownValue),
                }
            },
            IRCompKind::UnaryOperation(operation) => {
                match get_operand(function, values, operation.operand) {
                    Some(value) => Ok(
                        IRInterpreterAction::Yield {
                            value: apply_unary(operation.kind, value, self.endian),
                            jump: None,
                        },
                    ),
                    None => Err(IRInterpreterError::UnknownValue),
                }
            },
            IRCompKind::Constant(constant) => {
                let bytes = constant.bytes.clone();
                assert(bytes@ =~= constant.bytes@);
                Ok(IRInterpreterAction::Yield { value: IRInterpreterValue { bytes }, jump: None })
            },
            IRCompKind::Alloc(ir_type) => {
                match allocate(memory, ir_type.size, self.endian, self.limits) {
                    Ok(value) => Ok(IRInterpreterAction::Yield { value, jump: None }),
                    Err(e) => Err(e),
                }
            },
            IRCompKind::Store(ir_type, location, value) => self.execute_store(
                function,
                values,
                memory,
                ir_type.size,
                *location,
                *value,
                0,
            ),
            IRCompKind::Load(ir_type, location) => self.execute_load(
                function,
                values,
                memory,
                ir_type.size,
                *location,
                0,
            ),
            IRCompKind::OffsetStore(ir_type, location, value, offset) => self.execute_store(
                function,
                values,
                memory,
                ir_type.size,
                *location,
                *value,
                *offset,
            ),
            IRCompKind::OffsetLoad(ir_type, location, offset) => self.execute_load(
                function,
                values,
                memory,
                ir_type.size,
                *location,
                *offset,
            ),
            IRCompKind::Return(value) => {
                match get_operand(function, values, *value) {
                    Some(value) => Ok(IRInterpreterAction::Return { value: value.clone() }),
                    None => Err(IRInterpreterError::UnknownValue),
                }
            },
            IRCompKind::If(value, label) => {
                match get_operand(function, values, *value) {
                    None => Err(IRInterpreterError::UnknownValue),
                    Some(condition) => {
                        if condition.bytes.len() == 0 {
                            Err(IRInterpreterError::InvalidOperand)
                        } else if condition.bytes[0] != 0 {
                            match find_jump_target(function, *label) {
                                Ok(target) => Ok(
                                    IRInterpreterAction::Yield {
                                        value: IRInterpreterValue::void(),
                                        jump: Some(target),
                                    },
                                ),
                                Err(e) => Err(e),
                            }
                        } else {
                            Ok(
                                IRInterpreterAction::Yield {
                                    value: IRInterpreterValue::void(),
                                    jump: None,
                                },
                            )
                        }
                    },
                }
            },
            IRCompKind::Jmp(label) => {
                match find_jump_target(function, *label) {
                    Ok(target) => Ok(
                        IRInterpreterAction::Yield {
                            value: IRInterpreterValue::void(),
                            jump: Some(target),
                        },
                    ),
                    Err(e) => Err(e),
                }
            },
        }
    }

    fn execute_store(
        &self,
        function: &IRItemFunctionDef,
        values: &Vec<IRInterpreterValue>,
        memory: &mut Vec<u8>,
        size: u64,
        location: IRValue,
        value: IRValue,
        offset: u64,
    ) -> (r: Result<IRInterpreterAction, IRInterpreterError>)
        requires
            values.len() == frame_size(function@),
        ensures
            match r {
                Ok(action) => crate::ir::interpreter::semantics::execute_store(
                    function@,
                    values_view(values@),
                    old(memory)@,
                    size as nat,
                    location,
                    value,
                    offset as nat,
                    self.endian,
                ) == Ok::<Action, IRInterpreterError>(action.view_with(final(memory)@)),
                Err(e) => crate::ir::interpreter::semantics::execute_store(
                    function@,
                    values_view(values@),
                    old(memory)@,
                    size as nat,
                    location,
                    value,
                    offset as nat,
                    self.endian,
                ) == Err::<Action, IRInterpreterError>(e),
            },
            final(memory).len() == old(memory).len(),
    {
        let location = get_operand(function, values, location);
        let value = get_operand(function, values, value);
        match (location, value) {
            (Some(location), Some(value)) => {
                match read_pointer(location, self.endian) {
                    None => Err(IRInterpreterError::InvalidOperand),
                    Some(address) => {
                        match write_memory(memory, address as u128 + offset as u128, size, value) {
                            Ok(()) => Ok(
                                IRInterpreterAction::Yield {
                                    value: IRInterpreterValue::void(),
                                    jump: None,
                                },
                            ),
                            Err(e) => Err(e),
                        }
                    },
                }
            },
            _ => Err(IRInterpreterError::UnknownValue),
        }
    }

    fn execute_load(
        &self,
        function: &IRItemFunctionDef,
        values: &Vec<IRInterpreterValue>,
        memory: &Vec<u8>,
        size: u64,
        location: IRValue,
        offset: u64,
    ) -> (r: Result<IRInterpreterAction, IRInterpreterError>)
        requires
            values.len() == frame_size(function@),
        ensures
            match r {
                Ok(action) => crate::ir::interpreter::semantics::execute_load(
                    function@,
                    values_view(values@),
                    memory@,
                    size as nat,
                    location,
                    offset as nat,
                    self.endian,
                ) == Ok::<Action, IRInterpreterError>(action.view_with(memory@)),
                Err(e) => crate::ir::interpreter::semantics::execute_load(
                    function@,
                    values_view(values@),
                    memory@,
                    size as nat,
                    location,
                    offset as nat,
                    self.endian,
                ) == Err::<Action, IRInterpreterError>(e),
            },
    {
        match get_operand(function, values, location) {
            None => Err(IRInterpreterError::UnknownValue),
            Some(location) => {
                match read_pointer(location, self.endian) {
                    None => Err(IRInterpreterError::InvalidOperand),
                    Some(address) => {
                        match read_memory(memory, address as u128 + offset as u128, size) {
                            Ok(value) => Ok(IRInterpreterAction::Yield { value, jump: None }),
                            Err(e) => Err(e),
                        }
                    },
                }
            },
        }
    }
}

} // verus!

verus! {

impl IRInterpreterStack {
    spec fn well_formed(&self, interpreter: &IRInterpreter) -> bool {
        well_formed(interpreter.functions(), interpreter.limits, self@)
    }
}

impl IRInterpreter {
    /// The loaded function with the key `key`.
    fn function(&self, key: u64) -> (r: Option<&IRItemFunctionDef>)
        ensures
            match r {
                Some(function) => self.functions().dom().contains(key) && self.functions()[key]
                    == function@,
                None => !self.functions().dom().contains(key),
            },
    {
        self.functions.get(&key)
    }

    /// Begins a call of the function `key` on top of the frames of `machine`.
    fn enter(&self, machine: IRInterpreterStack, key: u64, args: Vec<IRInterpreterValue>) -> (r:
        IRInterpreterOutcome)
        requires
            machine.frames.len() > 0 ==> machine.well_formed(self),
            machine.frames.len() == 0 ==> machine.memory.len() == 0,
            machine.frames.len() > 0 ==> {
                let top = machine@.frames.last();
                top.pc < self.functions()[top.function].comps.len()
            },
        ensures
            r@ == enter(
                self.functions(),
                self.limits,
                machine@.frames,
                machine@.memory,
                key,
                values_view(args@),
            ),
            r matches IRInterpreterOutcome::Running(next) ==> next.well_formed(self),
    {
        let mut machine = machine;
        let mut values = args;
        let function = match self.function(key) {
            None => {
                return IRInterpreterOutcome::Failed(IRInterpreterError::UnknownFunction);
            },
            Some(function) => function,
        };
        if values.len() != function.params.len() {
            return IRInterpreterOutcome::Failed(IRInterpreterError::ArgumentCount);
        }
        let comps = function.comps.len();
        if machine.frames.len() >= self.limits.max_frames || comps > self.limits.max_values
            || values.len() > self.limits.max_values - comps {
            return IRInterpreterOutcome::Failed(IRInterpreterError::StackExhausted);
        }
        let ghost given = values_view(values@);
        let mut i: usize = 0;
        while i < comps
            invariant
                i <= comps,
                given.len() + comps <= usize::MAX,
                values_view(values@) == given + empty_values(i as nat),
            decreases comps - i,
        {
            let void = IRInterpreterValue::void();
            proof {
                assert(values_view(values@.push(void)) =~= values_view(values@).push(void@));
                assert((given + empty_values(i as nat)).push(Seq::<u8>::empty()) =~= given
                    + empty_values((i + 1) as nat));
            }
            values.push(void);
            i = i + 1;
        }
        proof {
            assert(given + empty_values(0) =~= given);
        }
        let frame = IRInterpreterFrame {
            function: key,
            values,
            pc: 0,
            memory_base: machine.memory.len(),
        };
        let ghost before = machine@;
        machine.frames.push(frame);
        proof {
            assert(machine@.frames =~= before.frames.push(frame@));
            assert(frame@ == entry_frame(
                key,
                self.functions()[key],
                given,
                before.memory.len(),
            ));
            assert forall|i: int| 0 <= i < machine@.frames.len() implies well_formed_frame(
                self.functions(),
                self.limits,
                #[trigger] machine@.frames[i],
                machine@.memory.len(),
                i + 1 < machine@.frames.len(),
            ) by {
                if i < before.frames.len() {
                    assert(machine@.frames[i] == before.frames[i]);
                    assert(well_formed_frame(
                        self.functions(),
                        self.limits,
                        before.frames[i],
                        before.memory.len(),
                        i + 1 < before.frames.len(),
                    ));
                }
            }
            assert forall|i: int, j: int| 0 <= i <= j < machine@.frames.len() implies (
            #[trigger] machine@.frames[i]).memory_base <= (
            #[trigger] machine@.frames[j]).memory_base by {
                if j < before.frames.len() {
                    assert(machine@.frames[i] == before.frames[i]);
                    assert(machine@.frames[j] == before.frames[j]);
                } else if i < before.frames.len() {
                    assert(machine@.frames[i] == before.frames[i]);
                    assert(well_formed_frame(
                        self.functions(),
                        self.limits,
                        before.frames[i],
                        before.memory.len(),
                        i + 1 < before.frames.len(),
                    ));
                }
            }
        }
        IRInterpreterOutcome::Running(machine)
    }

    /// Ends the call of `frame`, which was the innermost one of `machine`
    /// and is no longer among its frames, with `value`.
    fn leave(&self, machine: IRInterpreterStack, frame: IRInterpreterFrame, value: IRInterpreterValue)
        -> (r: IRInterpreterOutcome)
        requires
            well_formed(
                self.functions(),
                self.limits,
                MachineView { frames: machine@.frames.push(frame@), memory: machine@.memory },
            ),
        ensures
            r@ == leave(
                self.functions(),
                MachineView { frames: machine@.frames.push(frame@), memory: machine@.memory },
                value@,
            ),
            r matches IRInterpreterOutcome::Running(next) ==> next.well_formed(self),
    {
        let mut machine = machine;
        let ghost callers = machine@.frames;
        let ghost whole = MachineView { frames: callers.push(frame@), memory: machine@.memory };
        proof {
            assert(whole.frames.drop_last() =~= callers);
            assert(whole.frames.last() == frame@);
            assert(well_formed_frame(
                self.functions(),
                self.limits,
                whole.frames[callers.len() as int],
                whole.memory.len(),
                false,
            ));
        }
        machine.memory.truncate(frame.memory_base);
        proof {
            assert(machine.memory@ =~= whole.memory.take(frame.memory_base as int));
        }
        match machine.frames.pop() {
            None => IRInterpreterOutcome::Finished(value),
            Some(caller) => {
                let mut caller = caller;
                let ghost before = caller@;
                let ghost rest = machine@.frames;
                proof {
                    assert(before == callers.last());
                    assert(rest =~= callers.drop_last());
                    assert(whole.frames[callers.len() - 1] == before);
                    assert(well_formed_frame(
                        self.functions(),
                        self.limits,
                        whole.frames[callers.len() - 1],
                        whole.memory.len(),
                        true,
                    ));
                }
                let slot = match self.function(caller.function) {
                    Some(function) => function.params.len() + caller.pc,
                    None => 0,
                };
                let ghost result = value@;
                caller.values.set(slot, value);
                caller.pc = caller.pc + 1;
                proof {
                    assert(values_view(caller.values@) =~= before.values.update(
                        slot as int,
                        result,
                    ));
                }
                let ghost after = caller@;
                machine.frames.push(caller);
                proof {
                    assert(machine@.frames =~= rest.push(after));
                    assert forall|i: int| 0 <= i < machine@.frames.len() implies well_formed_frame(
                        self.functions(),
                        self.limits,
                        #[trigger] machine@.frames[i],
                        machine@.memory.len(),
                        i + 1 < machine@.frames.len(),
                    ) by {
                        assert(whole.frames[i].memory_base <= whole.frames[callers.len() as int].memory_base);
                        assert(well_formed_frame(
                            self.functions(),
                            self.limits,
                            whole.frames[i],
                            whole.memory.len(),
                            true,
                        ));
                        if i < rest.len() {
                            assert(machine@.frames[i] == whole.frames[i]);
                        }
                    }
                    assert forall|i: int, j: int|
                        0 <= i <= j < machine@.frames.len() implies (
                    #[trigger] machine@.frames[i]).memory_base <= (
                    #[trigger] machine@.frames[j]).memory_base by {
                        assert(whole.frames[i].memory_base <= whole.frames[j].memory_base);
                        assert(machine@.frames[i].memory_base == whole.frames[i].memory_base);
                        assert(machine@.frames[j].memory_base == whole.frames[j].memory_base);
                    }
                }
                IRInterpreterOutcome::Running(machine)
            },
        }
    }

    /// One step of the machine.
    fn step(&self, machine: IRInterpreterStack) -> (r: IRInterpreterOutcome)
        requires
            machine.well_formed(self),
        ensures
            r@ == step(self.functions(), self.endian, self.limits, machine@),
            r matches IRInterpreterOutcome::Running(next) ==> next.well_formed(self),
    {
        let mut machine = machine;
        let ghost whole = machine@;
        let popped = machine.frames.pop();
        let mut frame = match popped {
            Some(frame) => frame,
            None => {
                return IRInterpreterOutcome::Failed(IRInterpreterError::StackExhausted);
            },
        };
        let ghost top = frame@;
        let ghost callers = machine@.frames;
        proof {
            assert(callers =~= whole.frames.drop_last());
            assert(top == whole.frames.last());
            assert(whole.frames =~= callers.push(top));
            assert(well_formed_frame(
                self.functions(),
                self.limits,
                whole.frames[whole.frames.len() - 1],
                whole.memory.len(),
                false,
            ));
        }
        let function = match self.function(frame.function) {
            Some(function) => function,
            None => {
                return IRInterpreterOutcome::Failed(IRInterpreterError::UnknownFunction);
            },
        };
        if frame.pc >= function.comps.len() {
            return self.leave(machine, frame, IRInterpreterValue::void());
        }
        let comp = &function.comps[frame.pc];
        proof {
            assert(function@.comps[frame.pc as int] == comp@);
        }
        let action = self.execute(function, &frame.values, &mut machine.memory, &comp.kind);
        match action {
            Err(e) => IRInterpreterOutcome::Failed(e),
            Ok(IRInterpreterAction::Yield { value, jump }) => {
                let slot = function.params.len() + frame.pc;
                let ghost result = value@;
                frame.values.set(slot, value);
                frame.pc = match jump {
                    Some(target) => target,
                    None => frame.pc + 1,
                };
                proof {
                    assert(values_view(frame.values@) =~= top.values.update(slot as int, result));
                }
                let ghost after = frame@;
                machine.frames.push(frame);
                proof {
                    assert(machine@.frames =~= callers.push(after));
                    assert forall|i: int| 0 <= i < machine@.frames.len() implies well_formed_frame(
                        self.functions(),
                        self.limits,
                        #[trigger] machine@.frames[i],
                        machine@.memory.len(),
                        i + 1 < machine@.frames.len(),
                    ) by {
                        assert(well_formed_frame(
                            self.functions(),
                            self.limits,
                            whole.frames[i],
                            whole.memory.len(),
                            i + 1 < whole.frames.len(),
                        ));
                        if i < callers.len() {
                            assert(machine@.frames[i] == whole.frames[i]);
                        }
                    }
                    assert forall|i: int, j: int|
                        0 <= i <= j < machine@.frames.len() implies (
                    #[trigger] machine@.frames[i]).memory_base <= (
                    #[trigger] machine@.frames[j]).memory_base by {
                        assert(whole.frames[i].memory_base <= whole.frames[j].memory_base);
                        assert(machine@.frames[i].memory_base == whole.frames[i].memory_base);
                        assert(machine@.frames[j].memory_base == whole.frames[j].memory_base);
                    }
                }
                IRInterpreterOutcome::Running(machine)
            },
            Ok(IRInterpreterAction::Call { function: key, args }) => {
                machine.frames.push(frame);
                proof {
                    assert(machine@.frames =~= whole.frames);
                    assert(machine@ == whole);
                }
                self.enter(machine, key, args)
            },
            Ok(IRInterpreterAction::Return { value }) => {
                proof {
                    assert(machine@.memory == whole.memory);
                }
                self.leave(machine, frame, value)
            },
        }
    }

    /// Runs the function named `function_name` on the arguments `args` and
    /// gives what it returns: the value of the `return` that ends the call, or
    /// the empty value where the call runs off the end of the function.
    pub fn call_function(&self, function_name: Symbol, args: &[IRInterpreterValue]) -> (r: Result<
        IRInterpreterValue,
        IRInterpreterError,
    >)
        ensures
            result_view(r) == call(
                self.functions(),
                self.endianness(),
                self.limits(),
                function_name,
                values_view(args@),
            ),
    {
        let mut given: Vec<IRInterpreterValue> = Vec::new();
        let mut i: usize = 0;
        while i < args.len()
            invariant
                i <= args.len(),
                values_view(given@) == values_view(args@.take(i as int)),
            decreases args.len() - i,
        {
            let copy = args[i].clone();
            proof {
                assert(args@.take(i + 1) =~= args@.take(i as int).push(args@[i as int]));
                assert(values_view(given@.push(copy)) =~= values_view(given@).push(copy@));
                assert(values_view(args@.take(i as int).push(args@[i as int])) =~= values_view(
                    args@.take(i as int),
                ).push(args@[i as int]@));
            }
            given.push(copy);
            i = i + 1;
        }
        proof {
            assert(args@.take(args.len() as int) =~= args@);
        }
        let empty = IRInterpreterStack { frames: Vec::new(), memory: Vec::new() };
        proof {
            assert(empty@.frames =~= Seq::<FrameView>::empty());
            assert(empty@.memory =~= Seq::<u8>::empty());
        }
        let mut outcome = self.enter(empty, function_name.index, given);
        let mut steps = self.limits.max_steps;
        loop
            invariant
                outcome matches IRInterpreterOutcome::Running(machine) ==> machine.well_formed(
                    self,
                ),
                run(self.functions(), self.endian, self.limits, outcome@, steps as nat) == call(
                    self.functions(),
                    self.endian,
                    self.limits,
                    function_name,
                    values_view(args@),
                ),
            decreases steps,
        {
            match outcome {
                IRInterpreterOutcome::Finished(value) => {
                    return Ok(value);
                },
                IRInterpreterOutcome::Failed(e) => {
                    return Err(e);
                },
                IRInterpreterOutcome::Running(machine) => {
                    if steps == 0 {
                        return Err(IRInterpreterError::StepLimit);
                    }
                    outcome = self.step(machine);
                    steps = steps - 1;
                },
            }
        }
    }
}

} // verus!
