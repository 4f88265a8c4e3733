//! Execution of decoded instructions.
pub mod execute;
pub mod execute_heap;
pub mod frame_stack;
pub mod local_variables;
pub mod machine;
pub mod natives;
pub mod op_code;
pub mod program_counter;

use vstd::prelude::*;

use crate::executor::frame_stack::FrameStack;
use crate::executor::local_variables::LocalVariables;
use crate::executor::op_code::OffsetDirection;

verus! {

/// The kind of a value, as runtime errors name it.
#[derive(Debug, Clone, Copy, PartialEq, Eq, Structural)]
pub enum ValueKind {
    Int,
    Long,
    Float,
    Double,
    ReturnAddress,
    Reference,
    Invalid,
    Array,
    Object,
}

/// Why an instruction could not be executed.
#[derive(Debug, Clone, Copy, PartialEq, Eq, Structural)]
pub enum RuntimeError {
    /// A reference that must not be `null` is.
    NullPointer,
    /// An array element outside the array was accessed.
    ArrayIndexOutOfBounds { length: usize, index: i32 },
    /// A value of another kind than the instruction needs.
    InvalidType { expected: ValueKind, actual: ValueKind },
    /// An operand was missing from the operand stack.
    StackUnderflow,
    /// The operand stack would exceed its maximal depth.
    StackOverflow,
    /// A local variable slot does not exist or holds no readable value.
    InvalidLocalVariable(usize),
    /// A reference does not denote an object of the heap.
    InvalidReference(usize),
    /// An integer division or remainder by zero.
    DivisionByZero,
    /// An array of negative length was requested.
    NegativeArraySize(i32),
    /// A class that an instruction names does not exist.
    ClassNotFound,
    /// A method that an instruction names does not exist in its class.
    MethodNotFound,
    /// A field that an instruction names does not exist.
    FieldNotFound,
    /// The message of a throwable was read before it was set, or set twice.
    InvalidMessage,
    /// An array holds elements of another kind than the instruction works with.
    WrongArrayType,
    /// A value does not fit into the elements of an array.
    ValueOutOfRange(i32),
    /// An array is too long for its length to be an int.
    ArrayTooLong,
    /// The instruction is not implemented.
    Unsupported,
    /// A string was expected, and the reference denotes another object.
    NotAString,
}

/// The value a method returns.
#[derive(Clone, Copy, PartialEq, Eq, Structural)]
pub enum ReturnValue {
    Int(i32),
    Long(i64),
    Float(u32),
    Double(u64),
    Void,
    Reference(Option<usize>),
}

/// What the machine does after an instruction.
#[derive(Clone, Copy, PartialEq, Eq, Structural)]
pub enum Update {
    /// Continue with the next instruction.
    Continue,
    /// Leave the current method with a value.
    Return(ReturnValue),
    /// Jump by the given number of instructions.
    GoTo(usize, OffsetDirection),
    /// Invoke method `method` of class `class`; its arguments are on the operand stack.
    MethodCall { class: usize, method: usize, is_static: bool },
    /// Throw the object with the given index.
    Exception(usize),
    /// The instruction computes with floating point numbers; the program that runs the
    /// machine carries it out on the frame.
    FloatOperation,
}

/// The local variables and operand stack of one method invocation.
pub struct Frame {
    pub local_variables: LocalVariables,
    pub operand_stack: FrameStack,
}

impl Frame {
    /// The operand stack is within its maximal depth.
    pub open spec fn wf(&self) -> bool {
        self.operand_stack.wf()
    }
}

} // verus!
