//! What running a function means: a machine of call frames and a byte
//! memory, and the step that it takes for each computation.

use crate::globals::Symbol;
use crate::ir::comp::{IRCompBinaryOperationKind, IRCompKindView, IRCompUnaryOperationKind};
use crate::ir::interpreter::bytes::{bytes_of_uint, pow256, uint_of_bytes, Endianness};
use crate::ir::{find_label, find_name, IRFunctionView, IRValue};
use vstd::prelude::*;

verus! {

/// Why a run of the interpreter stopped without a result.
#[derive(Debug, Clone, Copy, PartialEq, Eq, Structural)]
pub enum IRInterpreterError {
    /// A jump names a label that the function does not define, or one that
    /// lies behind the end of the function.
    UnknownLabel,
    /// A call names a function that is not loaded.
    UnknownFunction,
    /// A computation refers to a value that the function does not define.
    UnknownValue,
    /// A call hands over another number of arguments than the function has
    /// parameters.
    ArgumentCount,
    /// A value is too short for what the computation does with it.
    InvalidOperand,
    /// A load or store reaches outside the memory that is allocated.
    InvalidAccess,
    /// A division or remainder by zero.
    DivisionByZero,
    /// A shift by at least as many bits as the operand has.
    InvalidShift,
    /// The calls are nested deeper, a function has more values or the
    /// frames allocate more memory than the limits allow.
    StackExhausted,
    /// The run took more steps than the limits allow.
    StepLimit,
}

/// The bounds within which the interpreter runs.
#[derive(Debug, Clone, Copy, PartialEq, Eq, Structural)]
pub struct IRInterpreterLimits {
    /// The number of calls that may be active at once.
    pub max_frames: usize,
    /// The number of values, parameters included, that one function may
    /// have.
    pub max_values: usize,
    /// The number of bytes that the active calls may have allocated.
    pub max_memory: usize,
    /// The number of computations that one run may execute.
    pub max_steps: u64,
}

/// An active call: the function, its values, the index of the computation
/// that runs next, and the size that the memory had when the call began.
pub struct FrameView {
    pub function: u64,
    pub values: Seq<Seq<u8>>,
    pub pc: nat,
    pub memory_base: nat,
}

/// The active calls, the innermost last, and the memory they allocated.
/// An address is an index into the memory.
pub struct MachineView {
    pub frames: Seq<FrameView>,
    pub memory: Seq<u8>,
}

/// What one computation asks of the machine.
pub enum Action {
    /// Store `value` as the result of the computation, go on with `memory`,
    /// and continue at `jump`, or at the next computation where it is `None`.
    Yield { value: Seq<u8>, memory: Seq<u8>, jump: Option<nat> },
    /// Call `function` with `args`.
    Call { function: u64, args: Seq<Seq<u8>> },
    /// Return `value` to the caller.
    Return { value: Seq<u8> },
}

/// The machine after a step.
pub enum Outcome {
    Running(MachineView),
    Finished(Seq<u8>),
    Failed(IRInterpreterError),
}

/// Whether integers of `len` bytes exist.
pub open spec fn is_operand_width(len: nat) -> bool {
    len == 1 || len == 2 || len == 4 || len == 8
}

/// Whether the operation yields a truth value of one byte.
pub open spec fn is_comparison(kind: IRCompBinaryOperationKind) -> bool {
    match kind {
        IRCompBinaryOperationKind::Equal
        | IRCompBinaryOperationKind::NotEqual
        | IRCompBinaryOperationKind::Greater
        | IRCompBinaryOperationKind::Lesser
        | IRCompBinaryOperationKind::GreaterEqual
        | IRCompBinaryOperationKind::LesserEqual => true,
        _ => false,
    }
}

pub open spec fn truth(b: bool) -> u64 {
    if b {
        1
    } else {
        0
    }
}

/// The result of a binary operation on two unsigned numbers of `width`
/// bytes. Arithmetic wraps around; comparisons give one or zero.
pub open spec fn binary_uint(kind: IRCompBinaryOperationKind, a: u64, b: u64, width: nat) -> Result<
    u64,
    IRInterpreterError,
> {
    let m = pow256(width);
    match kind {
        IRCompBinaryOperationKind::Plus => Ok(((a + b) % (m as int)) as u64),
        IRCompBinaryOperationKind::Minus => Ok(((a + m - b) % (m as int)) as u64),
        IRCompBinaryOperationKind::Mul => Ok(((a * b) % (m as int)) as u64),
        IRCompBinaryOperationKind::Div => if b == 0 {
            Err(IRInterpreterError::DivisionByZero)
        } else {
            Ok(a / b)
        },
        IRCompBinaryOperationKind::Mod => if b == 0 {
            Err(IRInterpreterError::DivisionByZero)
        } else {
            Ok(a % b)
        },
        IRCompBinaryOperationKind::BitAnd => Ok(a & b),
        IRCompBinaryOperationKind::BitOr => Ok(a | b),
        IRCompBinaryOperationKind::BitRShift => if b >= 8 * width {
            Err(IRInterpreterError::InvalidShift)
        } else {
            Ok(a >> b)
        },
        IRCompBinaryOperationKind::BitLShift => if b >= 8 * width {
            Err(IRInterpreterError::InvalidShift)
        } else {
            Ok((((a << b) as int) % (m as int)) as u64)
        },
        IRCompBinaryOperationKind::Equal => Ok(truth(a == b)),
        IRCompBinaryOperationKind::NotEqual => Ok(truth(a != b)),
        IRCompBinaryOperationKind::Greater => Ok(truth(a > b)),
        IRCompBinaryOperationKind::Lesser => Ok(truth(a < b)),
        IRCompBinaryOperationKind::GreaterEqual => Ok(truth(a >= b)),
        IRCompBinaryOperationKind::LesserEqual => Ok(truth(a <= b)),
    }
}

/// The result of a binary operation on two values. Operands of different
/// widths, or of a width that no integer has, give the empty value.
pub open spec fn binary_operation(
    kind: IRCompBinaryOperationKind,
    left: Seq<u8>,
    right: Seq<u8>,
    endian: Endianness,
) -> Result<Seq<u8>, IRInterpreterError> {
    if left.len() != right.len() || !is_operand_width(left.len()) {
        Ok(Seq::empty())
    } else {
        match binary_uint(
            kind,
            uint_of_bytes(left, endian) as u64,
            uint_of_bytes(right, endian) as u64,
            left.len(),
        ) {
            Err(e) => Err(e),
            Ok(v) => Ok(
                bytes_of_uint(
                    v as nat,
                    if is_comparison(kind) {
                        1
                    } else {
                        left.len()
                    },
                    endian,
                ),
            ),
        }
    }
}

/// The result of a unary operation on a value. The negation of a truth
/// value is defined on one byte; the two others on every integer width.
/// Everything else gives the empty value.
pub open spec fn unary_operation(
    kind: IRCompUnaryOperationKind,
    operand: Seq<u8>,
    endian: Endianness,
) -> Seq<u8> {
    let width = operand.len();
    let a = uint_of_bytes(operand, endian);
    let m = pow256(width);
    if !is_operand_width(width) {
        Seq::empty()
    } else {
        match kind {
            IRCompUnaryOperationKind::BoolNot => if width == 1 {
                bytes_of_uint(truth(a == 0) as nat, 1, endian)
            } else {
                Seq::empty()
            },
            IRCompUnaryOperationKind::SignedNegation => bytes_of_uint(
                ((m - a) % (m as int)) as nat,
                width,
                endian,
            ),
            IRCompUnaryOperationKind::BitNot => bytes_of_uint((m - 1 - a) as nat, width, endian),
        }
    }
}

/// The address that a value holds: the number in its first eight bytes.
pub open spec fn pointer_of(value: Seq<u8>, endian: Endianness) -> Option<nat> {
    if value.len() >= 8 {
        Some(uint_of_bytes(value.take(8), endian))
    } else {
        None
    }
}

/// The value of the function's value named `value` in the frame.
pub open spec fn operand(function: IRFunctionView, values: Seq<Seq<u8>>, value: IRValue) -> Option<
    Seq<u8>,
> {
    match find_name(function.value_names(), value.id) {
        Some(i) => Some(values[i]),
        None => None,
    }
}

/// The values of several operands, or `None` if one of them is unknown.
pub open spec fn operands(function: IRFunctionView, values: Seq<Seq<u8>>, args: Seq<IRValue>)
    -> Option<Seq<Seq<u8>>>
    decreases args.len(),
{
    if args.len() == 0 {
        Some(Seq::empty())
    } else {
        match operands(function, values, args.drop_last()) {
            None => None,
            Some(firsts) => match operand(function, values, args.last()) {
                None => None,
                Some(last) => Some(firsts.push(last)),
            },
        }
    }
}

/// The index of the computation to which a jump to `label` leads.
pub open spec fn jump_target(function: IRFunctionView, label: Symbol) -> Result<
    nat,
    IRInterpreterError,
> {
    match find_label(function.label_defs, label) {
        Some(target) => if target <= function.comps.len() {
            Ok(target as nat)
        } else {
            Err(IRInterpreterError::UnknownLabel)
        },
        None => Err(IRInterpreterError::UnknownLabel),
    }
}

/// The memory after `size` bytes of `value` were written at `address`.
pub open spec fn store(memory: Seq<u8>, address: nat, size: nat, value: Seq<u8>) -> Result<
    Seq<u8>,
    IRInterpreterError,
> {
    if value.len() < size {
        Err(IRInterpreterError::InvalidOperand)
    } else if address + size > memory.len() {
        Err(IRInterpreterError::InvalidAccess)
    } else {
        Ok(memory.take(address as int) + value.take(size as int) + memory.skip((address + size) as int))
    }
}

/// The `size` bytes of the memory at `address`.
pub open spec fn load(memory: Seq<u8>, address: nat, size: nat) -> Result<
    Seq<u8>,
    IRInterpreterError,
> {
    if address + size > memory.len() {
        Err(IRInterpreterError::InvalidAccess)
    } else {
        Ok(memory.subrange(address as int, (address + size) as int))
    }
}

/// `count` zero bytes.
pub open spec fn zeros(count: nat) -> Seq<u8> {
    Seq::new(count, |i: int| 0u8)
}

/// `count` empty values.
pub open spec fn empty_values(count: nat) -> Seq<Seq<u8>> {
    Seq::new(count, |i: int| Seq::<u8>::empty())
}

pub open spec fn yield_value(value: Seq<u8>, memory: Seq<u8>) -> Result<
    Action,
    IRInterpreterError,
> {
    Ok(Action::Yield { value, memory, jump: None })
}

/// What the computation `kind` of `function` does in a frame with the given
/// values and memory.
pub open spec fn execute(
    function: IRFunctionView,
    values: Seq<Seq<u8>>,
    memory: Seq<u8>,
    kind: IRCompKindView,
    endian: Endianness,
    limits: IRInterpreterLimits,
) -> Result<Action, IRInterpreterError> {
    match kind {
        IRCompKindView::FunctionCall { name, args } => match operands(function, values, args) {
            None => Err(IRInterpreterError::UnknownValue),
            Some(args) => Ok(Action::Call { function: name.index, args }),
        },
        IRCompKindView::BinaryOperation(operation) => match (
            operand(function, values, operation.left_operand),
            operand(function, values, operation.right_operand),
        ) {
            (Some(left), Some(right)) => match binary_operation(
                operation.kind,
                left,
                right,
                endian,
            ) {
                Ok(value) => yield_value(value, memory),
                Err(e) => Err(e),
            },
            _ => Err(IRInterpreterError::UnknownValue),
        },
        IRCompKindView::UnaryOperation(operation) => match operand(
            function,
            values,
            operation.operand,
        ) {
            Some(value) => yield_value(unary_operation(operation.kind, value, endian), memory),
            None => Err(IRInterpreterError::UnknownValue),
        },
        IRCompKindView::Constant(bytes) => yield_value(bytes, memory),
        IRCompKindView::Alloc(ir_type) => if memory.len() + ir_type.size > limits.max_memory {
            Err(IRInterpreterError::StackExhausted)
        } else {
            yield_value(
                bytes_of_uint(memory.len(), 8, endian),
                memory + zeros(ir_type.size as nat),
            )
        },
        IRCompKindView::Store(ir_type, location, value) => execute_store(
            function,
            values,
            memory,
            ir_type.size as nat,
            location,
            value,
            0,
            endian,
        ),
        IRCompKindView::Load(ir_type, location) => execute_load(
            function,
            values,
            memory,
            ir_type.size as nat,
            location,
            0,
            endian,
        ),
        IRCompKindView::OffsetStore(ir_type, location, value, offset) => execute_store(
            function,
            values,
            memory,
            ir_type.size as nat,
            location,
            value,
            offset as nat,
            endian,
        ),
        IRCompKindView::OffsetLoad(ir_type, location, offset) => execute_load(
            function,
            values,
            memory,
            ir_type.size as nat,
            location,
            offset as nat,
            endian,
        ),
        IRCompKindView::Return(value) => match operand(function, values, value) {
            Some(value) => Ok(Action::Return { value }),
            None => Err(IRInterpreterError::UnknownValue),
        },
        IRCompKindView::If(value, label) => match operand(function, values, value) {
            None => Err(IRInterpreterError::UnknownValue),
            Some(condition) => if condition.len() == 0 {
                Err(IRInterpreterError::InvalidOperand)
            } else if condition[0] != 0 {
                match jump_target(function, label) {
                    Ok(target) => Ok(
                        Action::Yield { value: Seq::empty(), memory, jump: Some(target) },
                    ),
                    Err(e) => Err(e),
                }
            } else {
                yield_value(Seq::empty(), memory)
            },
        },
        IRCompKindView::Jmp(label) => match jump_target(function, label) {
            Ok(target) => Ok(Action::Yield { value: Seq::empty(), memory, jump: Some(target) }),
            Err(e) => Err(e),
        },
    }
}

pub open spec fn execute_store(
    function: IRFunctionView,
    values: Seq<Seq<u8>>,
    memory: Seq<u8>,
    size: nat,
    location: IRValue,
    value: IRValue,
    offset: nat,
    endian: Endianness,
) -> Result<Action, IRInterpreterError> {
    match (operand(function, values, location), operand(function, values, value)) {
        (Some(location), Some(value)) => match pointer_of(location, endian) {
            None => Err(IRInterpreterError::InvalidOperand),
            Some(address) => match store(memory, address + offset, size, value) {
                Ok(memory) => yield_value(Seq::empty(), memory),
                Err(e) => Err(e),
            },
        },
        _ => Err(IRInterpreterError::UnknownValue),
    }
}

pub open spec fn execute_load(
    function: IRFunctionView,
    values: Seq<Seq<u8>>,
    memory: Seq<u8>,
    size: nat,
    location: IRValue,
    offset: nat,
    endian: Endianness,
) -> Result<Action, IRInterpreterError> {
    match operand(function, values, location) {
        None => Err(IRInterpreterError::UnknownValue),
        Some(location) => match pointer_of(location, endian) {
            None => Err(IRInterpreterError::InvalidOperand),
            Some(address) => match load(memory, address + offset, size) {
                Ok(value) => yield_value(value, memory),
                Err(e) => Err(e),
            },
        },
    }
}

/// The number of values of a function: its parameters and its computations.
pub open spec fn frame_size(function: IRFunctionView) -> nat {
    function.params.len() + function.comps.len()
}

/// The frame in which a call of `function` begins. The arguments are the
/// first values; the results of the computations are empty until they run.
pub open spec fn entry_frame(
    key: u64,
    function: IRFunctionView,
    args: Seq<Seq<u8>>,
    memory_base: nat,
) -> FrameView {
    FrameView {
        function: key,
        values: args + empty_values(function.comps.len()),
        pc: 0,
        memory_base,
    }
}

/// Begins a call of the function `key` on top of the frames `frames`.
pub open spec fn enter(
    functions: Map<u64, IRFunctionView>,
    limits: IRInterpreterLimits,
    frames: Seq<FrameView>,
    memory: Seq<u8>,
    key: u64,
    args: Seq<Seq<u8>>,
) -> Outcome {
    if !functions.dom().contains(key) {
        Outcome::Failed(IRInterpreterError::UnknownFunction)
    } else if args.len() != functions[key].params.len() {
        Outcome::Failed(IRInterpreterError::ArgumentCount)
    } else if frames.len() >= limits.max_frames || frame_size(functions[key])
        > limits.max_values {
        Outcome::Failed(IRInterpreterError::StackExhausted)
    } else {
        Outcome::Running(
            MachineView {
                frames: frames.push(entry_frame(key, functions[key], args, memory.len())),
                memory,
            },
        )
    }
}

/// Ends the innermost call with `value`: its memory is released and the
/// value becomes the result of the calling computation, or of the run if
/// no call is left.
pub open spec fn leave(functions: Map<u64, IRFunctionView>, machine: MachineView, value: Seq<u8>)
    -> Outcome {
    let frame = machine.frames.last();
    let callers = machine.frames.drop_last();
    if callers.len() == 0 {
        Outcome::Finished(value)
    } else {
        let caller = callers.last();
        let slot = functions[caller.function].params.len() + caller.pc;
        Outcome::Running(
            MachineView {
                frames: callers.drop_last().push(
                    FrameView {
                        values: caller.values.update(slot as int, value),
                        pc: caller.pc + 1,
                        ..caller
                    },
                ),
                memory: machine.memory.take(frame.memory_base as int),
            },
        )
    }
}

/// One step of a machine with at least one frame: the innermost call runs
/// its next computation, or returns the empty value at the end of its
/// function.
pub open spec fn step(
    functions: Map<u64, IRFunctionView>,
    endian: Endianness,
    limits: IRInterpreterLimits,
    machine: MachineView,
) -> Outcome {
    let frame = machine.frames.last();
    let function = functions[frame.function];
    if frame.pc >= function.comps.len() {
        leave(functions, machine, Seq::empty())
    } else {
        match execute(
            function,
            frame.values,
            machine.memory,
            function.comps[frame.pc as int].kind,
            endian,
            limits,
        ) {
            Err(e) => Outcome::Failed(e),
            Ok(Action::Yield { value, memory, jump }) => Outcome::Running(
                MachineView {
                    frames: machine.frames.drop_last().push(
                        FrameView {
                            values: frame.values.update(
                                (function.params.len() + frame.pc) as int,
                                value,
                            ),
                            pc: match jump {
                                Some(target) => target,
                                None => frame.pc + 1,
                            },
                            ..frame
                        },
                    ),
                    memory,
                },
            ),
            Ok(Action::Call { function: key, args }) => enter(
                functions,
                limits,
                machine.frames,
                machine.memory,
                key,
                args,
            ),
            Ok(Action::Return { value }) => leave(functions, machine, value),
        }
    }
}

/// The result of running the machine for at most `steps` steps.
pub open spec fn run(
    functions: Map<u64, IRFunctionView>,
    endian: Endianness,
    limits: IRInterpreterLimits,
    outcome: Outcome,
    steps: nat,
) -> Result<Seq<u8>, IRInterpreterError>
    decreases steps,
{
    match outcome {
        Outcome::Finished(value) => Ok(value),
        Outcome::Failed(e) => Err(e),
        Outcome::Running(machine) => if steps == 0 {
            Err(IRInterpreterError::StepLimit)
        } else {
            run(
                functions,
                endian,
                limits,
                step(functions, endian, limits, machine),
                (steps - 1) as nat,
            )
        },
    }
}

/// The result of calling the function named `name` with `args`.
pub open spec fn call(
    functions: Map<u64, IRFunctionView>,
    endian: Endianness,
    limits: IRInterpreterLimits,
    name: Symbol,
    args: Seq<Seq<u8>>,
) -> Result<Seq<u8>, IRInterpreterError> {
    run(
        functions,
        endian,
        limits,
        enter(functions, limits, Seq::empty(), Seq::empty(), name.index, args),
        limits.max_steps as nat,
    )
}

/// Whether the frames fit the functions and the memory: there is a frame,
/// each frame has a loaded function, a value for each of its names and a
/// place within it, and the frames' memory bases grow up to the size of the
/// memory.
pub open spec fn well_formed(
    functions: Map<u64, IRFunctionView>,
    limits: IRInterpreterLimits,
    machine: MachineView,
) -> bool {
    &&& 0 < machine.frames.len() <= limits.max_frames
    &&& machine.memory.len() <= limits.max_memory
    &&& forall|i: int|
        0 <= i < machine.frames.len() ==> well_formed_frame(
            functions,
            limits,
            #[trigger] machine.frames[i],
            machine.memory.len(),
            i + 1 < machine.frames.len(),
        )
    &&& forall|i: int, j: int|
        0 <= i <= j < machine.frames.len() ==> (#[trigger] machine.frames[i]).memory_base <= (
        #[trigger] machine.frames[j]).memory_base
}

/// Whether a frame fits the functions and a memory of `memory` bytes. A
/// frame that waits for a call to return stands at that call.
pub open spec fn well_formed_frame(
    functions: Map<u64, IRFunctionView>,
    limits: IRInterpreterLimits,
    frame: FrameView,
    memory: nat,
    waiting: bool,
) -> bool {
    &&& functions.dom().contains(frame.function)
    &&& frame.values.len() == frame_size(functions[frame.function])
    &&& frame.values.len() <= limits.max_values
    &&& frame.pc <= functions[frame.function].comps.len()
    &&& frame.memory_base <= memory
    &&& waiting ==> frame.pc < functions[frame.function].comps.len()
}

} // verus!
