//! The machine that runs methods: it executes one instruction per step, calls and returns
//! from methods, and unwinds to exception handlers. What reaches outside the machine
//! (printing, reading input, floating point arithmetic) it hands to the program that runs
//! it, which carries it out and resumes the machine.
use vstd::prelude::*;

use crate::class::members::{exception_tables_view, ExceptionTableModel, NativeMethod};
use crate::class::{Code, ExceptionTable, Method, MethodCode};
use crate::executor::frame_stack::{stack_depth, value_size, FrameStack, StackValue};
use crate::executor::local_variables::{
    readable, spec_get, spec_set, stack_to_variable, writable, LocalVariables, VariableValue,
    VariableValueOrValue,
};
use crate::executor::op_code::{FloatCmp, OffsetDirection, OpCode};
use crate::executor::program_counter::{ProgramCounter, ProgramCounterError};
use crate::executor::execute_heap::executed;
use crate::executor::{Frame, ReturnValue, RuntimeError, Update};
use crate::heap::{Heap, HeapModel, HeapObject, ObjectData, ObjectDataModel};

verus! {

/// A method invocation: its frame, its program counter and the method it runs.
pub struct ExecutorFrame {
    pub frame: Frame,
    pub pc: ProgramCounter,
    pub class: usize,
    pub method: usize,
    pub code: std::rc::Rc<Code>,
}

impl ExecutorFrame {
    /// The operand stack is within its depth and the program counter within the code.
    pub open spec fn wf(&self) -> bool {
        self.frame.wf() && self.pc.wf()
    }
}

/// Why the machine stopped with an error.
#[derive(Debug, Clone, Copy, PartialEq, Eq, Structural)]
pub enum MachineError {
    Runtime(RuntimeError),
    ProgramCounter(ProgramCounterError),
    /// The method to run has no bytecode, or empty bytecode.
    NoBytecode,
    /// An invocation and the invoked method disagree about being static.
    StaticMismatch,
    /// A class or method index does not exist.
    InvalidMethod,
    /// The machine was resumed although it does not wait for a result, or stepped while it
    /// waits for one.
    NotWaiting,
    AwaitingResult,
}

/// A floating point instruction, which the program that runs the machine carries out.
#[derive(Debug, Clone, Copy, PartialEq, Eq, Structural)]
pub enum FloatInstruction {
    D2f,
    D2i,
    D2l,
    Dadd,
    Dcmp(FloatCmp),
    Ddiv,
    Dmul,
    Dneg,
    Drem,
    Dsub,
    F2d,
    F2i,
    F2l,
    Fadd,
    Fcmp(FloatCmp),
    Fdiv,
    Fmul,
    Fneg,
    Frem,
    Fsub,
    I2d,
    I2f,
    L2d,
    L2f,
}

/// What the program that runs the machine does after a step.
pub enum Step {
    /// Step again.
    Continue,
    /// The first method returned: the program ends.
    Finished,
    /// Carry out a native method with these arguments (the receiver first), then resume
    /// with its result.
    Native { method: NativeMethod, arguments: Vec<StackValue> },
    /// Carry out a floating point instruction on these operands (in the order they were
    /// pushed), then resume with its result.
    Float { instruction: FloatInstruction, operands: Vec<StackValue> },
    /// An exception was thrown and no handler caught it.
    UncaughtException(usize),
    /// The machine failed.
    Failed(MachineError),
}

/// The machine: the invocations that wait for a callee and the current one.
pub struct Machine {
    pub frame_stack: Vec<ExecutorFrame>,
    pub current: ExecutorFrame,
    /// Whether the machine waits for the result of a native method or a floating point
    /// instruction.
    pub waiting: bool,
}

impl Machine {
    /// Every invocation is well formed.
    pub open spec fn wf(&self) -> bool {
        &&& self.current.wf()
        &&& forall|i: int| 0 <= i < self.frame_stack@.len() ==> #[trigger] self.frame_stack@[i].wf()
    }

    /// Checks that every invocation is well formed.
    pub fn is_consistent(&self) -> (r: bool)
        ensures
            r == self.wf(),
    {
        if !self.current.frame.operand_stack.is_within_depth() || !self.current.pc.is_within_code() {
            return false;
        }
        let mut i: usize = 0;
        while i < self.frame_stack.len()
            invariant
                i <= self.frame_stack@.len(),
                forall|j: int| 0 <= j < i ==> #[trigger] self.frame_stack@[j].wf(),
            decreases self.frame_stack@.len() - i,
        {
            let f = &self.frame_stack[i];
            if !f.frame.operand_stack.is_within_depth() || !f.pc.is_within_code() {
                assert(!self.frame_stack@[i as int].wf());
                return false;
            }
            i = i + 1;
        }
        true
    }
}

/// The bytecode of method `method` of class `class`, if it has any.
pub open spec fn bytecode_of(heap: &Heap, class: usize, method: usize) -> Option<Code> {
    if class < heap.classes@.len() && method < heap.classes@[class as int].methods@.len() {
        match heap.classes@[class as int].methods@[method as int].code {
            MethodCode::Bytecode(code) => Some(*code),
            MethodCode::Native(_) => None,
        }
    } else {
        None
    }
}

/// The arguments of a call: the top `count` values of the stack, in the order they were
/// pushed.
pub open spec fn call_arguments(s: Seq<StackValue>, count: nat) -> Seq<StackValue> {
    s.subrange(s.len() - count, s.len() as int)
}

/// The local variables of a callee after its arguments are stored from slot `index` on;
/// long and double arguments take two slots. `None` when they do not fit.
pub open spec fn fill_arguments(l: Seq<VariableValue>, args: Seq<StackValue>, index: int) -> Option<
    Seq<VariableValue>,
>
    decreases args.len(),
{
    if args.len() == 0 {
        Some(l)
    } else {
        let v = stack_to_variable(args[0]);
        if writable(l, index, v) {
            fill_arguments(
                spec_set(l, index, v),
                args.drop_first(),
                index + if args[0] is Long || args[0] is Double {
                    2int
                } else {
                    1int
                },
            )
        } else {
            None
        }
    }
}

/// The local variable slot that argument `i` of `args` goes to: after the slots of the
/// arguments before it, two for each long or double and one for any other value.
pub open spec fn argument_slot(args: Seq<StackValue>, i: int) -> int
    decreases i,
{
    if i <= 0 || i > args.len() {
        0
    } else {
        argument_slot(args, i - 1) + if args[i - 1] is Long || args[i - 1] is Double {
            2int
        } else {
            1int
        }
    }
}

proof fn lemma_argument_slot_shift(args: Seq<StackValue>, i: int)
    requires
        args.len() > 0,
        1 <= i <= args.len(),
    ensures
        argument_slot(args, i) == argument_slot(args, 1) + argument_slot(args.drop_first(), i - 1),
        argument_slot(args, 1) == (if args[0] is Long || args[0] is Double {
            2int
        } else {
            1int
        }),
        0 <= argument_slot(args.drop_first(), i - 1) <= argument_slot(args.drop_first(), args.len() - 1),
    decreases i,
{
    assert(argument_slot(args, 0) == 0);
    assert(argument_slot(args.drop_first(), 0) == 0);
    if i > 1 {
        lemma_argument_slot_shift(args, i - 1);
        assert(args.drop_first()[i - 2] == args[i - 1]);
    }
    lemma_argument_slot_grows(args.drop_first(), i - 1, args.len() - 1);
}

proof fn lemma_argument_slot_grows(args: Seq<StackValue>, i: int, j: int)
    requires
        0 <= i <= j <= args.len(),
    ensures
        0 <= argument_slot(args, i) <= argument_slot(args, j),
        i < j ==> argument_slot(args, i) < argument_slot(args, j),
    decreases j,
{
    if j > 0 {
        lemma_argument_slot_grows(args, if i < j { i } else { j - 1 }, j - 1);
    }
}

/// Storing the arguments of a call into fresh local variables (all invalid from `index` on)
/// puts argument `i` at slot `index + argument_slot(args, i)`, where it reads back as the
/// argument, and leaves the slots before `index` alone, provided the slots suffice.
pub proof fn lemma_arguments_in_slots(l: Seq<VariableValue>, args: Seq<StackValue>, index: int)
    requires
        0 <= index,
        index + argument_slot(args, args.len() as int) <= l.len(),
        forall|k: int| index <= k < l.len() ==> #[trigger] l[k] is Invalid,
    ensures
        fill_arguments(l, args, index) is Some,
        fill_arguments(l, args, index)->0.len() == l.len(),
        forall|k: int| 0 <= k < index ==> #[trigger] fill_arguments(l, args, index)->0[k] == l[k],
        forall|i: int|
            0 <= i < args.len() ==> readable(fill_arguments(l, args, index)->0, index + #[trigger] argument_slot(args, i))
                && spec_get(fill_arguments(l, args, index)->0, index + argument_slot(args, i))
                == stack_to_variable(args[i]),
    decreases args.len(),
{
    if args.len() > 0 {
        let v = stack_to_variable(args[0]);
        let size = if args[0] is Long || args[0] is Double { 2int } else { 1int };
        lemma_argument_slot_shift(args, args.len() as int);
        assert(writable(l, index, v));
        let l1 = spec_set(l, index, v);
        crate::executor::local_variables::lemma_get_after_set(l, index, v);
        assert(l1.len() == l.len());
        assert forall|k: int| 0 <= k < index implies #[trigger] l1[k] == l[k] by {}
        assert forall|k: int| index + size <= k < l1.len() implies #[trigger] l1[k] is Invalid by {
            assert(l1[k] == l[k]);
        }
        let rest = args.drop_first();
        lemma_arguments_in_slots(l1, rest, index + size);
        let l2 = fill_arguments(l1, rest, index + size)->0;
        assert(fill_arguments(l, args, index) == fill_arguments(l1, rest, index + size));
        assert(l2[index] == l1[index]);
        if size == 2 {
            assert(l2[index + 1] == l1[index + 1]);
        }
        assert forall|i: int| 0 <= i < args.len() implies readable(l2, index + #[trigger] argument_slot(args, i))
            && spec_get(l2, index + argument_slot(args, i)) == stack_to_variable(args[i]) by {
            if i == 0 {
                assert(argument_slot(args, 0) == 0);
            } else {
                lemma_argument_slot_shift(args, i);
                assert(rest[i - 1] == args[i]);
                assert(index + argument_slot(args, i) == index + size + argument_slot(rest, i - 1));
            }
        }
    }
}

/// The arguments of a call are the values pushed last, in the order they were pushed.
pub proof fn lemma_call_arguments_in_order(s: Seq<StackValue>, args: Seq<StackValue>)
    ensures
        call_arguments(s + args, args.len()) == args,
{
    assert(call_arguments(s + args, args.len()) =~= args);
}

/// Moves the arguments of a call from the caller's operand stack into the callee's local
/// variables.
pub fn prepare_parameters(
    current_frame: &mut Frame,
    new_locals: &mut LocalVariables,
    count: usize,
) -> (r: Result<(), RuntimeError>)
    requires
        old(current_frame).wf(),
    ensures
        final(current_frame).wf(),
        final(current_frame).operand_stack.capacity() == old(current_frame).operand_stack.capacity(),
        final(current_frame).local_variables@ == old(current_frame).local_variables@,
        r is Ok <==> count <= old(current_frame).operand_stack@.len() && fill_arguments(
            old(new_locals)@,
            call_arguments(old(current_frame).operand_stack@, count as nat),
            0,
        ) is Some,
        r is Ok ==> {
            &&& final(current_frame).operand_stack@ == old(current_frame).operand_stack@.subrange(
                0,
                old(current_frame).operand_stack@.len() - count,
            )
            &&& Some(final(new_locals)@) == fill_arguments(
                old(new_locals)@,
                call_arguments(old(current_frame).operand_stack@, count as nat),
                0,
            )
        },
{
    let ghost s0 = current_frame.operand_stack@;
    let mut popped: Vec<StackValue> = Vec::new();
    let mut k: usize = 0;
    while k < count
        invariant
            current_frame.wf(),
            k <= count,
            k <= s0.len(),
            current_frame.operand_stack@ == s0.subrange(0, s0.len() - k),
            current_frame.operand_stack.capacity() == old(current_frame).operand_stack.capacity(),
            current_frame.local_variables@ == old(current_frame).local_variables@,
            popped@.len() == k,
            forall|j: int| 0 <= j < k ==> #[trigger] popped@[j] == s0[s0.len() - 1 - j],
            s0 == old(current_frame).operand_stack@,
        decreases count - k,
    {
        match current_frame.operand_stack.pop() {
            Some(v) => {
                popped.push(v);
                proof {
                    assert(s0.subrange(0, s0.len() - k).drop_last() =~= s0.subrange(
                        0,
                        s0.len() - (k + 1),
                    ));
                }
            },
            None => return Err(RuntimeError::StackUnderflow),
        }
        k = k + 1;
    }
    let ghost args = call_arguments(s0, count as nat);
    let mut index: usize = 0;
    let mut j: usize = 0;
    let ghost l0 = new_locals@;
    assert(args.subrange(0, args.len() as int) =~= args);
    while j < count
        invariant
            current_frame.wf(),
            current_frame.operand_stack.capacity() == old(current_frame).operand_stack.capacity(),
            current_frame.local_variables@ == old(current_frame).local_variables@,
            current_frame.operand_stack@ == s0.subrange(0, s0.len() - count),
            j <= count,
            count <= s0.len(),
            popped@.len() == count,
            args == call_arguments(s0, count as nat),
            forall|t: int| 0 <= t < count ==> #[trigger] popped@[t] == s0[s0.len() - 1 - t],
            fill_arguments(l0, args, 0) == fill_arguments(
                new_locals@,
                args.subrange(j as int, args.len() as int),
                index as int,
            ),
            index <= 2 * j,
            l0 == old(new_locals)@,
            s0 == old(current_frame).operand_stack@,
        decreases count - j,
    {
        let v = popped[count - 1 - j];
        assert(v == args[j as int]);
        let value = VariableValueOrValue::from_stack_value(v);
        let n = new_locals.len();
        let size: usize = if let StackValue::Long(_) = v {
            2
        } else if let StackValue::Double(_) = v {
            2
        } else {
            1
        };
        let fits = if size == 2 {
            index < n && index < n - 1
        } else {
            index < n
        };
        let ghost rest = args.subrange(j as int, args.len() as int);
        assert(rest[0] == v);
        if !fits {
            assert(!writable(new_locals@, index as int, value));
            assert(rest.len() > 0);
            assert(fill_arguments(new_locals@, rest, index as int) is None);
            assert(fill_arguments(l0, args, 0) is None);
            assert(fill_arguments(
                old(new_locals)@,
                call_arguments(old(current_frame).operand_stack@, count as nat),
                0,
            ) is None);
            return Err(RuntimeError::InvalidLocalVariable(index));
        }
        new_locals.set(index, value);
        assert(rest.drop_first() =~= args.subrange(j + 1, args.len() as int));
        index = index + size;
        j = j + 1;
    }
    assert(args.subrange(count as int, args.len() as int) =~= Seq::<StackValue>::empty());
    Ok(())
}


/// The code of method `method` of class `class`, shared with the heap.
fn code_of(heap: &Heap, class: usize, method: usize) -> (r: Option<std::rc::Rc<Code>>)
    ensures
        r is Some <==> bytecode_of(heap, class, method) is Some,
        r matches Some(c) ==> bytecode_of(heap, class, method) == Some(*c),
{
    if class >= heap.classes.len() || method >= heap.classes[class].methods.len() {
        return None;
    }
    match &heap.classes[class].methods[method].code {
        MethodCode::Bytecode(code) => Some(code.clone()),
        MethodCode::Native(_) => None,
    }
}

/// The value pushed onto the caller's operand stack when a method returns `v`.
pub open spec fn returned_value(v: ReturnValue) -> Option<StackValue> {
    match v {
        ReturnValue::Int(i) => Some(StackValue::Int(i)),
        ReturnValue::Long(l) => Some(StackValue::Long(l)),
        ReturnValue::Float(f) => Some(StackValue::Float(f)),
        ReturnValue::Double(d) => Some(StackValue::Double(d)),
        ReturnValue::Reference(r) => Some(StackValue::Reference(r)),
        ReturnValue::Void => None,
    }
}

/// What a method returns is what its caller gets: `ireturn`, `lreturn`, `freturn`,
/// `dreturn` and `areturn` return the value on top of the callee's stack, of their own kind,
/// and that same value is pushed onto the caller's stack; `return` gives the caller nothing.
pub proof fn lemma_returned_value_reaches_caller(
    s: Seq<StackValue>,
    i: i32,
    l: i64,
    f: u32,
    d: u64,
    r: Option<usize>,
)
    ensures
        crate::executor::execute::return_effect(OpCode::Ireturn, s.push(StackValue::Int(i))) matches Ok(v)
            && returned_value(v) == Some(StackValue::Int(i)),
        crate::executor::execute::return_effect(OpCode::Lreturn, s.push(StackValue::Long(l))) matches Ok(v)
            && returned_value(v) == Some(StackValue::Long(l)),
        crate::executor::execute::return_effect(OpCode::Freturn, s.push(StackValue::Float(f))) matches Ok(v)
            && returned_value(v) == Some(StackValue::Float(f)),
        crate::executor::execute::return_effect(OpCode::Dreturn, s.push(StackValue::Double(d))) matches Ok(v)
            && returned_value(v) == Some(StackValue::Double(d)),
        crate::executor::execute::return_effect(OpCode::Areturn, s.push(StackValue::Reference(r))) matches Ok(v)
            && returned_value(v) == Some(StackValue::Reference(r)),
        crate::executor::execute::return_effect(OpCode::Return, s) matches Ok(v) && returned_value(v) is None,
        crate::executor::execute::return_effect(OpCode::Ireturn, s.push(StackValue::Long(l))) is Err,
        crate::executor::execute::return_effect(OpCode::Lreturn, s.push(StackValue::Int(i))) is Err,
{
}

/// The stack value of a returned value.
pub fn return_to_stack(v: ReturnValue) -> (r: Option<StackValue>)
    ensures
        r == returned_value(v),
{
    match v {
        ReturnValue::Int(i) => Some(StackValue::Int(i)),
        ReturnValue::Long(l) => Some(StackValue::Long(l)),
        ReturnValue::Float(f) => Some(StackValue::Float(f)),
        ReturnValue::Double(d) => Some(StackValue::Double(d)),
        ReturnValue::Reference(r) => Some(StackValue::Reference(r)),
        ReturnValue::Void => None,
    }
}

/// Takes the top `count` values off a frame's operand stack, in the order they were pushed.
pub fn pop_arguments(frame: &mut Frame, count: usize) -> (r: Result<Vec<StackValue>, RuntimeError>)
    requires
        old(frame).wf(),
    ensures
        final(frame).wf(),
        final(frame).operand_stack.capacity() == old(frame).operand_stack.capacity(),
        final(frame).local_variables@ == old(frame).local_variables@,
        r is Ok <==> count <= old(frame).operand_stack@.len(),
        r matches Ok(args) ==> args@ == call_arguments(old(frame).operand_stack@, count as nat)
            && final(frame).operand_stack@ == old(frame).operand_stack@.subrange(
            0,
            old(frame).operand_stack@.len() - count,
        ),
{
    let ghost s0 = frame.operand_stack@;
    let mut popped: Vec<StackValue> = Vec::new();
    let mut k: usize = 0;
    while k < count
        invariant
            frame.wf(),
            k <= count,
            k <= s0.len(),
            frame.operand_stack@ == s0.subrange(0, s0.len() - k),
            frame.operand_stack.capacity() == old(frame).operand_stack.capacity(),
            frame.local_variables@ == old(frame).local_variables@,
            popped@.len() == k,
            forall|j: int| 0 <= j < k ==> #[trigger] popped@[j] == s0[s0.len() - 1 - j],
            s0 == old(frame).operand_stack@,
        decreases count - k,
    {
        match frame.operand_stack.pop() {
            Some(v) => {
                popped.push(v);
                proof {
                    assert(s0.subrange(0, s0.len() - k).drop_last() =~= s0.subrange(
                        0,
                        s0.len() - (k + 1),
                    ));
                }
            },
            None => return Err(RuntimeError::StackUnderflow),
        }
        k = k + 1;
    }
    let mut args: Vec<StackValue> = Vec::new();
    let mut j: usize = 0;
    while j < count
        invariant
            j <= count,
            count <= s0.len(),
            popped@.len() == count,
            forall|t: int| 0 <= t < count ==> #[trigger] popped@[t] == s0[s0.len() - 1 - t],
            args@ == call_arguments(s0, count as nat).take(j as int),
        decreases count - j,
    {
        args.push(popped[count - 1 - j]);
        proof {
            assert(args@ =~= call_arguments(s0, count as nat).take(j + 1));
        }
        j = j + 1;
    }
    assert(call_arguments(s0, count as nat).take(count as int) =~= call_arguments(s0, count as nat));
    Ok(args)
}

/// The machine `m1` and step `r` after the current program counter of `m0` moved `offset`
/// instructions forward: only the counter moves, and only within the code.
pub open spec fn advanced(m0: Machine, offset: usize, m1: Machine, r: Step) -> bool {
    &&& m1.frame_stack == m0.frame_stack
    &&& m1.waiting == m0.waiting
    &&& m1.current.frame == m0.current.frame
    &&& m1.current.code == m0.current.code
    &&& m1.current.class == m0.current.class
    &&& m1.current.method == m0.current.method
    &&& m1.current.pc.length() == m0.current.pc.length()
    &&& (m0.current.pc.position() + offset < m0.current.pc.length() ==> r is Continue
        && m1.current.pc.position() == m0.current.pc.position() + offset)
    &&& (m0.current.pc.position() + offset >= m0.current.pc.length() ==> r is Failed
        && m1.current.pc.position() == m0.current.pc.position())
}

/// The machine `m1` and step `r` after the current program counter of `m0` moved `offset`
/// instructions backward: only the counter moves, and not before the first instruction.
pub open spec fn went_back(m0: Machine, offset: usize, m1: Machine, r: Step) -> bool {
    &&& m1.frame_stack == m0.frame_stack
    &&& m1.waiting == m0.waiting
    &&& m1.current.frame == m0.current.frame
    &&& m1.current.code == m0.current.code
    &&& m1.current.class == m0.current.class
    &&& m1.current.method == m0.current.method
    &&& m1.current.pc.length() == m0.current.pc.length()
    &&& (offset <= m0.current.pc.position() ==> r is Continue
        && m1.current.pc.position() == m0.current.pc.position() - offset)
    &&& (offset > m0.current.pc.position() ==> r is Failed
        && m1.current.pc.position() == m0.current.pc.position())
}

/// The machine `m1` and step `r` after the current method of `m0` returned `value`: the
/// machine finishes when there is no caller; otherwise the caller continues after its
/// call with the value on its operand stack.
pub open spec fn returned(m0: Machine, value: ReturnValue, m1: Machine, r: Step) -> bool {
    &&& m1.waiting == m0.waiting
    &&& (m0.frame_stack@.len() == 0 ==> r is Finished)
    &&& (m0.frame_stack@.len() > 0 ==> {
        let caller = m0.frame_stack@.last();
        let pushed = match returned_value(value) {
            Some(v) => stack_depth(caller.frame.operand_stack@.push(v)) <= caller.frame.operand_stack.capacity(),
            None => true,
        };
        &&& m1.frame_stack@ == m0.frame_stack@.drop_last()
        &&& m1.current.class == caller.class
        &&& m1.current.method == caller.method
        &&& m1.current.code == caller.code
        &&& m1.current.frame.local_variables@ == caller.frame.local_variables@
        &&& (r is Continue <==> pushed && caller.pc.position() + 1 < caller.pc.length())
        &&& (r is Continue || r is Failed)
        &&& r is Continue ==> {
            &&& m1.current.pc.position() == caller.pc.position() + 1
            &&& m1.current.frame.operand_stack@ == match returned_value(value) {
                Some(v) => caller.frame.operand_stack@.push(v),
                None => caller.frame.operand_stack@,
            }
        }
    })
}

/// The machine `m1` and result `r` after machine `m0` was handed `value`, the result of the
/// native method or floating point instruction it waits for: the value (if any) is pushed
/// and the machine continues after the instruction. A machine that waits for nothing is
/// left alone.
pub open spec fn resumed(m0: Machine, value: Option<StackValue>, m1: Machine, r: Result<(), MachineError>) -> bool {
    let s0 = m0.current.frame.operand_stack@;
    if !m0.waiting {
        r == Err::<(), MachineError>(MachineError::NotWaiting) && m1 == m0
    } else {
        &&& (r is Ok <==> (match value {
            Some(v) => stack_depth(s0) + value_size(v) <= m0.current.frame.operand_stack.capacity(),
            None => true,
        }) && m0.current.pc.position() + 1 < m0.current.pc.length())
        &&& r is Ok ==> {
            &&& !m1.waiting
            &&& m1.frame_stack == m0.frame_stack
            &&& m1.current.class == m0.current.class
            &&& m1.current.method == m0.current.method
            &&& m1.current.code == m0.current.code
            &&& m1.current.pc.position() == m0.current.pc.position() + 1
            &&& m1.current.frame.local_variables@ == m0.current.frame.local_variables@
            &&& m1.current.frame.operand_stack@ == match value {
                Some(v) => s0.push(v),
                None => s0,
            }
        }
    }
}

/// A call of a bytecode method followed by its return leaves the caller as it was before
/// the call, but without the arguments, with the returned value on its operand stack and
/// one instruction further on.
pub proof fn lemma_call_then_return(
    m0: Machine,
    h0: Heap,
    class: usize,
    method: usize,
    is_static: bool,
    m1: Machine,
    h1: Heap,
    r1: Step,
    value: ReturnValue,
    m2: Machine,
    r2: Step,
)
    requires
        invoked(m0, h0, class, method, is_static, m1, h1, r1),
        bytecode_of(&h0, class, method) is Some,
        r1 is Continue,
        returned(m1, value, m2, r2),
        r2 is Continue,
    ensures
        ({
            let s0 = m0.current.frame.operand_stack@;
            let rest = s0.subrange(0, s0.len() - call_count(method_of(&h0, class, method)));
            &&& h1@ == h0@
            &&& m2.frame_stack@ == m0.frame_stack@
            &&& m2.current.class == m0.current.class
            &&& m2.current.method == m0.current.method
            &&& m2.current.code == m0.current.code
            &&& m2.current.frame.local_variables@ == m0.current.frame.local_variables@
            &&& m2.current.pc.position() == m0.current.pc.position() + 1
            &&& m2.current.frame.operand_stack@ == match returned_value(value) {
                Some(v) => rest.push(v),
                None => rest,
            }
        }),
{
}

/// A native method handed out by a call, and the machine resumed with its result: the
/// caller continues one instruction further on, with the arguments replaced by the result.
pub proof fn lemma_native_call_then_resume(
    m0: Machine,
    h0: Heap,
    class: usize,
    method: usize,
    is_static: bool,
    m1: Machine,
    h1: Heap,
    r1: Step,
    value: Option<StackValue>,
    m2: Machine,
    r2: Result<(), MachineError>,
)
    requires
        invoked(m0, h0, class, method, is_static, m1, h1, r1),
        r1 is Native,
        resumed(m1, value, m2, r2),
        r2 is Ok,
    ensures
        ({
            let s0 = m0.current.frame.operand_stack@;
            let rest = s0.subrange(0, s0.len() - call_count(method_of(&h0, class, method)));
            &&& h1@ == h0@
            &&& !m2.waiting
            &&& m2.frame_stack == m0.frame_stack
            &&& m2.current.class == m0.current.class
            &&& m2.current.method == m0.current.method
            &&& m2.current.code == m0.current.code
            &&& m2.current.frame.local_variables@ == m0.current.frame.local_variables@
            &&& m2.current.pc.position() == m0.current.pc.position() + 1
            &&& m2.current.frame.operand_stack@ == match value {
                Some(v) => rest.push(v),
                None => rest,
            }
        }),
{
}

impl Machine {
    /// A machine about to run method `method` of class `class` from its first instruction,
    /// with empty operand stack and invalid local variables.
    pub fn new(heap: &Heap, class: usize, method: usize) -> (r: Result<Machine, MachineError>)
        ensures
            r is Ok <==> (bytecode_of(heap, class, method) matches Some(c)
                && c.byte_code@.len() > 0),
            r matches Ok(m) ==> {
                let c = bytecode_of(heap, class, method)->0;
                &&& m.wf()
                &&& !m.waiting
                &&& m.frame_stack@.len() == 0
                &&& m.current.class == class
                &&& m.current.method == method
                &&& *m.current.code == c
                &&& m.current.pc.position() == 0
                &&& m.current.pc.length() == c.byte_code@.len()
                &&& m.current.frame.operand_stack@.len() == 0
                &&& m.current.frame.operand_stack.capacity() == c.stack_depth
                &&& m.current.frame.local_variables@ == Seq::new(
                    c.local_variable_count as nat,
                    |i: int| VariableValue::Invalid,
                )
            },
    {
        let code = match code_of(heap, class, method) {
            Some(c) => c,
            None => return Err(MachineError::NoBytecode),
        };
        if code.byte_code.len() == 0 {
            return Err(MachineError::NoBytecode);
        }
        let frame = Frame {
            local_variables: LocalVariables::new(code.local_variable_count),
            operand_stack: FrameStack::new(code.stack_depth),
        };
        let pc = ProgramCounter::new(code.byte_code.len());
        Ok(
            Machine {
                frame_stack: Vec::new(),
                current: ExecutorFrame { frame, pc, class, method, code },
                waiting: false,
            },
        )
    }

    /// Moves the current program counter `offset` instructions forward.
    fn advance(&mut self, offset: usize) -> (r: Step)
        requires
            old(self).wf(),
        ensures
            final(self).wf(),
            advanced(*old(self), offset, *final(self), r),
    {
        match self.current.pc.next(offset) {
            Ok(()) => Step::Continue,
            Err(e) => Step::Failed(MachineError::ProgramCounter(e)),
        }
    }

    /// Moves the current program counter `offset` instructions backward.
    fn go_back(&mut self, offset: usize) -> (r: Step)
        requires
            old(self).wf(),
        ensures
            final(self).wf(),
            went_back(*old(self), offset, *final(self), r),
    {
        match self.current.pc.previous(offset) {
            Ok(()) => Step::Continue,
            Err(e) => Step::Failed(MachineError::ProgramCounter(e)),
        }
    }

    /// Returns from the current method with `value`: the caller continues after its call
    /// with the value on its operand stack; the machine finishes when there is no caller.
    pub fn return_value(&mut self, value: ReturnValue) -> (r: Step)
        requires
            old(self).wf(),
        ensures
            final(self).wf(),
            returned(*old(self), value, *final(self), r),
    {
        let caller = match self.frame_stack.pop() {
            Some(f) => f,
            None => return Step::Finished,
        };
        self.current = caller;
        proof {
            assert(old(self).frame_stack@.last().wf());
        }
        if let Some(v) = return_to_stack(value) {
            proof {
                crate::executor::frame_stack::lemma_push_then_pop(
                    self.current.frame.operand_stack@,
                    v,
                );
            }
            if self.current.frame.operand_stack.push(v).is_err() {
                return Step::Failed(MachineError::Runtime(RuntimeError::StackOverflow));
            }
        }
        self.advance(1)
    }

    /// Hands the machine the result of the native method or floating point instruction it
    /// waits for: the value (if any) is pushed and the machine continues after the
    /// instruction.
    pub fn resume(&mut self, value: Option<StackValue>) -> (r: Result<(), MachineError>)
        requires
            old(self).wf(),
        ensures
            final(self).wf(),
            resumed(*old(self), value, *final(self), r),
    {
        if !self.waiting {
            return Err(MachineError::NotWaiting);
        }
        self.waiting = false;
        if let Some(v) = value {
            if self.current.frame.operand_stack.push(v).is_err() {
                return Err(MachineError::Runtime(RuntimeError::StackOverflow));
            }
        }
        match self.advance(1) {
            Step::Failed(e) => Err(e),
            _ => Ok(()),
        }
    }
}


// ---------------------------------------------------------------------------------------------
// Calls

/// The number of values a call takes off the caller's operand stack: the arguments and,
/// for an instance method, the receiver.
pub open spec fn call_count(m: Method) -> nat {
    m.parameters@.len() + if m.is_static {
        0nat
    } else {
        1nat
    }
}

/// The method `method` of class `class`.
pub open spec fn method_of(heap: &Heap, class: usize, method: usize) -> Method {
    heap.classes@[class as int].methods@[method as int]
}

/// Whether `Throwable.<init>` can record the message in `args` (the receiver first): the
/// receiver is a throwable without a message and the message is a reference.
pub open spec fn message_settable(h: HeapModel, args: Seq<StackValue>) -> bool {
    &&& receiver(args) matches Some(i)
    &&& i < h.objects.len()
    &&& h.objects[i as int].1 == ObjectDataModel::Throwable(None)
    &&& args.len() > 1
    &&& args[1] is Reference
}

/// The message of the throwable that receives `args`, once it is set.
pub open spec fn receiver_message(h: HeapModel, args: Seq<StackValue>) -> Option<Option<usize>> {
    match receiver(args) {
        Some(i) => if i < h.objects.len() {
            match h.objects[i as int].1 {
                ObjectDataModel::Throwable(Some(m)) => Some(m),
                _ => None,
            }
        } else {
            None
        },
        None => None,
    }
}

/// The machine `m1`, heap `h1` and step `r` after machine `m0` called method `method` of
/// class `class` on heap `h0`. A bytecode method gets a new invocation whose local variables
/// hold the arguments, and the caller waits below it. `Object.<init>`, `Throwable.<init>`
/// and `Throwable.getMessage` run at once; the other native methods are handed out with
/// their arguments.
pub open spec fn invoked(
    m0: Machine,
    h0: Heap,
    class: usize,
    method: usize,
    is_static: bool,
    m1: Machine,
    h1: Heap,
    r: Step,
) -> bool {
    let s0 = m0.current.frame.operand_stack@;
    let pc = m0.current.pc;
    if class >= h0.classes@.len() || method >= h0.classes@[class as int].methods@.len() {
        r == Step::Failed(MachineError::InvalidMethod) && m1 == m0 && h1@ == h0@
    } else {
        let m = method_of(&h0, class, method);
        let count = call_count(m);
        let args = call_arguments(s0, count);
        let rest = s0.subrange(0, s0.len() - count);
        &&& h1@.classes == h0@.classes
        &&& match m.code {
            MethodCode::Bytecode(code) => {
                let locals = fill_arguments(
                    Seq::new(code.local_variable_count as nat, |i: int| VariableValue::Invalid),
                    args,
                    0,
                );
                &&& h1@ == h0@
                &&& (r is Continue <==> m.is_static == is_static && code.byte_code@.len() > 0
                    && count <= s0.len() && locals is Some)
                &&& (r is Continue || r is Failed)
                &&& r is Continue ==> {
                    &&& !m1.waiting
                    &&& m1.frame_stack@.len() == m0.frame_stack@.len() + 1
                    &&& m1.frame_stack@.drop_last() == m0.frame_stack@
                    &&& m1.frame_stack@.last().frame.operand_stack@ == rest
                    &&& m1.frame_stack@.last().frame.local_variables@ == m0.current.frame.local_variables@
                    &&& m1.frame_stack@.last().pc == pc
                    &&& m1.frame_stack@.last().code == m0.current.code
                    &&& m1.frame_stack@.last().class == m0.current.class
                    &&& m1.frame_stack@.last().method == m0.current.method
                    &&& m1.current.class == class
                    &&& m1.current.method == method
                    &&& *m1.current.code == code
                    &&& m1.current.pc.position() == 0
                    &&& m1.current.pc.length() == code.byte_code@.len()
                    &&& m1.current.frame.operand_stack@.len() == 0
                    &&& m1.current.frame.operand_stack.capacity() == code.stack_depth
                    &&& locals == Some(m1.current.frame.local_variables@)
                }
            },
            MethodCode::Native(n) => {
                let continues = {
                    &&& !m1.waiting
                    &&& m1.frame_stack == m0.frame_stack
                    &&& m1.current.class == m0.current.class
                    &&& m1.current.method == m0.current.method
                    &&& m1.current.code == m0.current.code
                    &&& m1.current.frame.local_variables@ == m0.current.frame.local_variables@
                    &&& m1.current.pc.position() == pc.position() + 1
                };
                match n {
                    NativeMethod::ObjectInit => {
                        &&& h1@ == h0@
                        &&& (r is Continue <==> count <= s0.len() && pc.position() + 1 < pc.length())
                        &&& (r is Continue || r is Failed)
                        &&& r is Continue ==> continues && m1.current.frame.operand_stack@ == rest
                    },
                    NativeMethod::ThrowableInit => {
                        &&& (r is Continue <==> count <= s0.len() && message_settable(h0@, args)
                            && pc.position() + 1 < pc.length())
                        &&& (r is Continue || r is Failed)
                        &&& r is Continue ==> {
                            let i = receiver(args)->0 as int;
                            &&& continues
                            &&& m1.current.frame.operand_stack@ == rest
                            &&& h1@.objects == h0@.objects.update(
                                i,
                                (h0@.objects[i].0, ObjectDataModel::Throwable(Some(args[1]->Reference_0))),
                            )
                        }
                    },
                    NativeMethod::ThrowableGetMessage => {
                        &&& h1@ == h0@
                        &&& (r is Continue <==> count <= s0.len() && receiver_message(h0@, args) is Some
                            && stack_depth(rest) + 1 <= m0.current.frame.operand_stack.capacity()
                            && pc.position() + 1 < pc.length())
                        &&& (r is Continue || r is Failed)
                        &&& r is Continue ==> continues && m1.current.frame.operand_stack@ == rest.push(
                            StackValue::Reference(receiver_message(h0@, args)->0),
                        )
                    },
                    _ => {
                        &&& h1@ == h0@
                        &&& (r is Native <==> count <= s0.len())
                        &&& (r is Native || r is Failed)
                        &&& r is Native ==> {
                            &&& m1.waiting
                            &&& r == Step::Native { method: n, arguments: r->arguments }
                            &&& r->arguments@ == args
                            &&& m1.frame_stack == m0.frame_stack
                            &&& m1.current.pc == pc
                            &&& m1.current.class == m0.current.class
                            &&& m1.current.method == m0.current.method
                            &&& m1.current.code == m0.current.code
                            &&& m1.current.frame.local_variables@ == m0.current.frame.local_variables@
                            &&& m1.current.frame.operand_stack@ == rest
                        }
                    },
                }
            },
        }
    }
}

impl Machine {
    /// Calls method `method` of class `class`. A bytecode method gets a new invocation
    /// whose local variables hold the arguments; the caller waits below it. A native method
    /// of the machine's own runs at once; one that reaches outside is handed to the program
    /// that runs the machine.
    pub fn invoke(&mut self, heap: &mut Heap, class: usize, method: usize, is_static: bool) -> (r: Step)
        requires
            old(self).wf(),
            old(heap).wf(),
            !old(self).waiting,
        ensures
            final(self).wf(),
            final(heap).wf(),
            invoked(*old(self), *old(heap), class, method, is_static, *final(self), *final(heap), r),
    {
        if class >= heap.classes.len() || method >= heap.classes[class].methods.len() {
            return Step::Failed(MachineError::InvalidMethod);
        }
        let m = &heap.classes[class].methods[method];
        let depth = self.current.frame.operand_stack.len();
        let count = match m.parameters.len().checked_add(if m.is_static { 0usize } else { 1usize }) {
            Some(c) => c,
            None => return Step::Failed(MachineError::Runtime(RuntimeError::StackUnderflow)),
        };
        match &m.code {
            MethodCode::Bytecode(code) => {
                if is_static != m.is_static {
                    return Step::Failed(MachineError::StaticMismatch);
                }
                if code.byte_code.len() == 0 {
                    return Step::Failed(MachineError::NoBytecode);
                }
                let code = code.clone();
                let mut locals = LocalVariables::new(code.local_variable_count);
                match prepare_parameters(&mut self.current.frame, &mut locals, count) {
                    Ok(()) => {},
                    Err(e) => return Step::Failed(MachineError::Runtime(e)),
                }
                let callee = ExecutorFrame {
                    frame: Frame {
                        local_variables: locals,
                        operand_stack: FrameStack::new(code.stack_depth),
                    },
                    pc: ProgramCounter::new(code.byte_code.len()),
                    class,
                    method,
                    code,
                };
                let mut caller = callee;
                std::mem::swap(&mut self.current, &mut caller);
                let ghost before = self.frame_stack@;
                self.frame_stack.push(caller);
                proof {
                    assert(self.frame_stack@.drop_last() =~= before);
                    assert forall|i: int| 0 <= i < self.frame_stack@.len() implies #[trigger] self.frame_stack@[i].wf() by {
                        if i < before.len() {
                            assert(self.frame_stack@[i] == before[i]);
                        }
                    }
                }
                Step::Continue
            },
            MethodCode::Native(n) => {
                let n = *n;
                let arguments = match pop_arguments(&mut self.current.frame, count) {
                    Ok(a) => a,
                    Err(e) => return Step::Failed(MachineError::Runtime(e)),
                };
                match n {
                    NativeMethod::ObjectInit => self.advance(1),
                    NativeMethod::ThrowableInit => {
                        match set_message(heap, &arguments) {
                            Ok(()) => self.advance(1),
                            Err(e) => Step::Failed(MachineError::Runtime(e)),
                        }
                    },
                    NativeMethod::ThrowableGetMessage => {
                        let message = match message_of(heap, &arguments) {
                            Ok(m) => m,
                            Err(e) => return Step::Failed(MachineError::Runtime(e)),
                        };
                        if self.current.frame.operand_stack.push(StackValue::Reference(message)).is_err() {
                            return Step::Failed(MachineError::Runtime(RuntimeError::StackOverflow));
                        }
                        self.advance(1)
                    },
                    _ => {
                        self.waiting = true;
                        Step::Native { method: n, arguments }
                    },
                }
            },
        }
    }
}

/// The object a native method's receiver denotes.
pub open spec fn receiver(args: Seq<StackValue>) -> Option<usize> {
    if args.len() > 0 {
        match args[0] {
            StackValue::Reference(Some(i)) => Some(i),
            _ => None,
        }
    } else {
        None
    }
}

/// `Throwable.<init>(String)`: records the message of a throwable whose message is not
/// set yet.
fn set_message(heap: &mut Heap, args: &Vec<StackValue>) -> (r: Result<(), RuntimeError>)
    requires
        old(heap).wf(),
    ensures
        final(heap).wf(),
        final(heap)@.classes == old(heap)@.classes,
        final(heap)@.codes == old(heap)@.codes,
        r is Ok <==> (receiver(args@) matches Some(i) && i < old(heap)@.objects.len() && old(heap)@.objects[i as int].1
            == ObjectDataModel::Throwable(None) && args@.len() > 1 && args@[1] is Reference),
        r is Ok ==> final(heap)@.objects == old(heap)@.objects.update(
            receiver(args@)->0 as int,
            (
                old(heap)@.objects[receiver(args@)->0 as int].0,
                ObjectDataModel::Throwable(Some(args@[1]->Reference_0)),
            ),
        ),
        r is Err ==> final(heap)@ == old(heap)@,
{
    let this = match args.len() > 1 {
        true => match args[0] {
            StackValue::Reference(Some(i)) => i,
            _ => return Err(RuntimeError::NullPointer),
        },
        false => return Err(RuntimeError::InvalidMessage),
    };
    let message = match args[1] {
        StackValue::Reference(m) => m,
        _ => return Err(RuntimeError::InvalidMessage),
    };
    if this >= heap.objects.len() {
        return Err(RuntimeError::InvalidReference(this));
    }
    assert(heap@.objects[this as int] == heap.objects@[this as int]@);
    match heap.objects[this].data {
        ObjectData::Throwable(None) => {},
        _ => return Err(RuntimeError::InvalidMessage),
    }
    let class = heap.objects[this].class;
    let ghost h0 = heap@;
    let mut object = HeapObject { class, data: ObjectData::Throwable(Some(message)) };
    heap.objects.set_and_swap(this, &mut object);
    proof {
        assert(heap@.objects =~= h0.objects.update(
            this as int,
            (h0.objects[this as int].0, ObjectDataModel::Throwable(Some(message))),
        ));
    }
    Ok(())
}

/// `Throwable.get_message()`: the message of a throwable whose message is set.
fn message_of(heap: &Heap, args: &Vec<StackValue>) -> (r: Result<Option<usize>, RuntimeError>)
    ensures
        r is Ok <==> (receiver(args@) matches Some(i) && i < heap@.objects.len()
            && heap@.objects[i as int].1 matches ObjectDataModel::Throwable(Some(_))),
        r matches Ok(m) ==> heap@.objects[receiver(args@)->0 as int].1 == ObjectDataModel::Throwable(Some(m)),
{
    if args.len() == 0 {
        return Err(RuntimeError::NullPointer);
    }
    let this = match args[0] {
        StackValue::Reference(Some(i)) => i,
        _ => return Err(RuntimeError::NullPointer),
    };
    if this >= heap.objects.len() {
        return Err(RuntimeError::InvalidReference(this));
    }
    assert(heap@.objects[this as int] == heap.objects@[this as int]@);
    match heap.objects[this].data {
        ObjectData::Throwable(Some(m)) => Ok(m),
        _ => Err(RuntimeError::InvalidMessage),
    }
}


// ---------------------------------------------------------------------------------------------
// Exceptions

/// Whether a handler catches an exception of class `exception_class` thrown at `pc`: the
/// handler is active there and catches every class or exactly that one.
pub open spec fn handler_catches(
    entry: ExceptionTableModel,
    pc: int,
    exception_class: crate::class::ClassIdentifierModel,
) -> bool {
    &&& entry.start <= pc < entry.end
    &&& entry.catch_type matches Some(c) ==> c == exception_class
}

/// The index of the first handler of `table` that catches the exception.
pub open spec fn handler_index(
    table: Seq<ExceptionTableModel>,
    pc: int,
    exception_class: crate::class::ClassIdentifierModel,
) -> Option<int> {
    if exists|k: int| 0 <= k < table.len() && #[trigger] handler_catches(table[k], pc, exception_class) {
        Some(
            choose|k: int|
                0 <= k < table.len() && #[trigger] handler_catches(table[k], pc, exception_class)
                    && forall|j: int|
                    0 <= j < k ==> !handler_catches(table[j], pc, exception_class),
        )
    } else {
        None
    }
}

/// A handler is active from its start up to, but not including, its end: it catches at
/// `pc` exactly when `start <= pc < end` and it catches every class or the exception's
/// class. The handler chosen for an exception is the first one that catches it.
pub proof fn lemma_handler_ranges(
    table: Seq<ExceptionTableModel>,
    pc: int,
    cls: crate::class::ClassIdentifierModel,
)
    ensures
        forall|k: int|
            0 <= k < table.len() ==> (#[trigger] handler_catches(table[k], pc, cls) <==> (table[k].start
                <= pc && pc < table[k].end && (table[k].catch_type is None || table[k].catch_type
                == Some(cls)))),
        handler_index(table, pc, cls) matches Some(k) ==> 0 <= k < table.len() && handler_catches(
            table[k],
            pc,
            cls,
        ) && forall|j: int| 0 <= j < k ==> !handler_catches(#[trigger] table[j], pc, cls),
        handler_index(table, pc, cls) is None ==> forall|k: int|
            0 <= k < table.len() ==> !#[trigger] handler_catches(table[k], pc, cls),
{
    if exists|k: int| 0 <= k < table.len() && #[trigger] handler_catches(table[k], pc, cls) {
        let w = choose|k: int| 0 <= k < table.len() && #[trigger] handler_catches(table[k], pc, cls);
        lemma_first_handler(table, pc, cls, 0, w);
    }
}

proof fn lemma_first_handler(
    table: Seq<ExceptionTableModel>,
    pc: int,
    cls: crate::class::ClassIdentifierModel,
    n: int,
    w: int,
)
    requires
        0 <= n <= w < table.len(),
        handler_catches(table[w], pc, cls),
        forall|j: int| 0 <= j < n ==> !#[trigger] handler_catches(table[j], pc, cls),
    ensures
        exists|k: int|
            0 <= k < table.len() && #[trigger] handler_catches(table[k], pc, cls) && forall|j: int|
                0 <= j < k ==> !handler_catches(table[j], pc, cls),
    decreases w - n,
{
    if handler_catches(table[n], pc, cls) {
        assert(forall|j: int| 0 <= j < n ==> !handler_catches(table[j], pc, cls));
    } else {
        lemma_first_handler(table, pc, cls, n + 1, w);
    }
}

/// The handler of `table` that catches the exception at the position of invocation `f`,
/// if any.
pub open spec fn frame_handler(
    table: Seq<ExceptionTableModel>,
    f: ExecutorFrame,
    exception_class: crate::class::ClassIdentifierModel,
) -> Option<int> {
    handler_index(table, f.pc.position() as int, exception_class)
}

/// The exception table that every invocation is searched with: that of the first method,
/// the one the machine was started with (the outermost invocation).
pub open spec fn searched_table(all: Seq<ExecutorFrame>) -> Seq<ExceptionTableModel> {
    exception_tables_view(all[0].code.exception_table@)
}

/// Finds the first handler of a method that catches the exception.
fn find_handler(table: &Vec<ExceptionTable>, pc: usize, exception_class: &crate::class::ClassIdentifier) -> (r:
    Option<usize>)
    ensures
        r is Some <==> handler_index(exception_tables_view(table@), pc as int, exception_class@) is Some,
        r matches Some(k) ==> handler_index(exception_tables_view(table@), pc as int, exception_class@)
            == Some(k as int) && k < table@.len(),
{
    let ghost t = exception_tables_view(table@);
    let mut k: usize = 0;
    while k < table.len()
        invariant
            k <= table@.len(),
            t == exception_tables_view(table@),
            forall|j: int| 0 <= j < k ==> !handler_catches(#[trigger] t[j], pc as int, exception_class@),
        decreases table@.len() - k,
    {
        let entry = &table[k];
        assert(t[k as int] == entry@);
        let active = entry.active.start <= pc && pc < entry.active.end;
        let catches = match &entry.catch_type {
            None => true,
            Some(c) => c.equals(exception_class),
        };
        if active && catches {
            proof {
                assert(handler_catches(t[k as int], pc as int, exception_class@));
                let w = choose|w: int|
                    0 <= w < t.len() && #[trigger] handler_catches(t[w], pc as int, exception_class@)
                        && forall|j: int|
                        0 <= j < w ==> !handler_catches(t[j], pc as int, exception_class@);
                if w < k {
                } else if w > k {
                }
            }
            return Some(k);
        }
        k = k + 1;
    }
    None
}

/// The innermost of the invocations `all` (the outermost first) at whose position `table`
/// has a handler for exceptions of class `cls`.
pub open spec fn catching_depth(
    table: Seq<ExceptionTableModel>,
    all: Seq<ExecutorFrame>,
    cls: crate::class::ClassIdentifierModel,
) -> Option<int> {
    if exists|d: int|
        0 <= d < all.len() && #[trigger] frame_handler(table, all[d], cls) is Some && forall|j: int|
            d < j < all.len() ==> #[trigger] frame_handler(table, all[j], cls) is None {
        Some(
            choose|d: int|
                0 <= d < all.len() && #[trigger] frame_handler(table, all[d], cls) is Some
                    && forall|j: int|
                    d < j < all.len() ==> #[trigger] frame_handler(table, all[j], cls) is None,
        )
    } else {
        None
    }
}

/// The machine `m1` and step `r` after machine `m0` threw the object `e` of heap `h`. Every
/// invocation, from the current one outwards, is searched with the exception table of the
/// first method (the one the machine was started with) at its own position: the innermost
/// one for which a handler of that table catches the exception continues at that handler
/// (the first one that catches it), with only the exception on its operand stack, and the
/// invocations inside it are left. When none does, the machine stops with the uncaught
/// exception.
pub open spec fn thrown(m0: Machine, h: HeapModel, e: usize, m1: Machine, r: Step) -> bool {
    &&& m1.waiting == m0.waiting
    &&& if e >= h.objects.len() {
        r == Step::Failed(MachineError::Runtime(RuntimeError::InvalidReference(e)))
    } else {
        let cls = h.classes[h.objects[e as int].0 as int].identifier;
        let all = m0.invocations();
        let table = searched_table(all);
        match catching_depth(table, all, cls) {
            None => r == Step::UncaughtException(e),
            Some(d) => {
                let f = all[d];
                let handler = table[frame_handler(table, f, cls)->0].handler_position;
                &&& m1.frame_stack@ == m0.frame_stack@.take(d)
                &&& m1.current.class == f.class
                &&& m1.current.method == f.method
                &&& m1.current.code == f.code
                &&& m1.current.frame.local_variables@ == f.frame.local_variables@
                &&& (r is Continue <==> 1 <= f.frame.operand_stack.capacity() && handler < f.pc.length())
                &&& (r is Continue || r is Failed)
                &&& r is Continue ==> m1.current.frame.operand_stack@ == seq![StackValue::Reference(Some(e))]
                    && m1.current.pc.position() == handler
            },
        }
    }
}

impl Machine {
    /// The invocations from the outermost to the current one.
    pub open spec fn invocations(&self) -> Seq<ExecutorFrame> {
        self.frame_stack@.push(self.current)
    }

    /// Throws the object `e`. Every invocation, from the current one outwards, is searched
    /// with the exception table of the first method at its own position: the innermost one
    /// for which a handler catches the exception continues at that handler (the first one
    /// that catches it), with only the exception on its operand stack; the invocations
    /// inside it are left. When none does, the machine stops with the uncaught exception.
    #[verifier::rlimit(80)]
    #[verifier::spinoff_prover]
    pub fn throw(&mut self, heap: &Heap, e: usize) -> (r: Step)
        requires
            old(self).wf(),
            heap.wf(),
        ensures
            final(self).wf(),
            thrown(*old(self), heap@, e, *final(self), r),
    {
        if e >= heap.objects.len() {
            return Step::Failed(MachineError::Runtime(RuntimeError::InvalidReference(e)));
        }
        assert(heap@.objects[e as int] == heap.objects@[e as int]@);
        let class_index = heap.objects[e].class;
        assert(heap@.classes[class_index as int] == heap.classes@[class_index as int]@);
        let exception_class = &heap.classes[class_index].class_identifier;
        let ghost cls = heap@.classes[heap@.objects[e as int].0 as int].identifier;
        let ghost all = self.invocations();
        let ghost table = searched_table(all);
        let first = if self.frame_stack.len() > 0 {
            self.frame_stack[0].code.clone()
        } else {
            self.current.code.clone()
        };
        assert(exception_tables_view(first.exception_table@) == table);
        loop
            invariant
                self.wf(),
                self.waiting == old(self).waiting,
                all == old(self).invocations(),
                exception_class@ == cls,
                e < heap@.objects.len(),
                cls == heap@.classes[heap@.objects[e as int].0 as int].identifier,
                self.frame_stack@.len() < all.len(),
                self.frame_stack@ == old(self).frame_stack@.take(self.frame_stack@.len() as int),
                self.current == all[self.frame_stack@.len() as int],
                table == exception_tables_view(first.exception_table@),
                table == searched_table(all),
                forall|j: int|
                    self.frame_stack@.len() < j < all.len() ==> #[trigger] frame_handler(table, all[j], cls)
                        is None,
            decreases self.frame_stack@.len(),
        {
            let pc = self.current.pc.current();
            match find_handler(&first.exception_table, pc, exception_class) {
                Some(k) => {
                    assert(frame_handler(table, all[self.frame_stack@.len() as int], cls) == Some(k as int));
                    let handler = first.exception_table[k].handler_position;
                    assert(table[k as int].handler_position == handler);
                    self.current.frame.operand_stack.clear();
                    if self.current.frame.operand_stack.push(StackValue::Reference(Some(e))).is_err() {
                        return Step::Failed(MachineError::Runtime(RuntimeError::StackOverflow));
                    }
                    assert(self.current.frame.operand_stack@ =~= seq![StackValue::Reference(Some(e))]);
                    return match self.current.pc.set(handler) {
                        Ok(()) => Step::Continue,
                        Err(err) => Step::Failed(MachineError::ProgramCounter(err)),
                    };
                },
                None => {
                    let ghost d = self.frame_stack@.len();
                    assert(frame_handler(table, all[d as int], cls) is None);
                    match self.frame_stack.pop() {
                        Some(f) => {
                            proof {
                                assert(old(self).frame_stack@.take(d as int)[d - 1] == f);
                                assert(self.frame_stack@ =~= old(self).frame_stack@.take(d - 1));
                                assert(all[d - 1] == old(self).frame_stack@[d - 1]);
                                assert(old(self).frame_stack@[d - 1].wf());
                            }
                            self.current = f;
                        },
                        None => {
                            return Step::UncaughtException(e);
                        },
                    }
                },
            }
        }
    }
}


// ---------------------------------------------------------------------------------------------
// Floating point instructions

/// The floating point instruction that an instruction is, if it is one.
pub open spec fn float_instruction_of(op: OpCode) -> Option<FloatInstruction> {
    match op {
        OpCode::D2f => Some(FloatInstruction::D2f),
        OpCode::D2i => Some(FloatInstruction::D2i),
        OpCode::D2l => Some(FloatInstruction::D2l),
        OpCode::Dadd => Some(FloatInstruction::Dadd),
        OpCode::Dcmp(c) => Some(FloatInstruction::Dcmp(c)),
        OpCode::Ddiv => Some(FloatInstruction::Ddiv),
        OpCode::Dmul => Some(FloatInstruction::Dmul),
        OpCode::Dneg => Some(FloatInstruction::Dneg),
        OpCode::Drem => Some(FloatInstruction::Drem),
        OpCode::Dsub => Some(FloatInstruction::Dsub),
        OpCode::F2d => Some(FloatInstruction::F2d),
        OpCode::F2i => Some(FloatInstruction::F2i),
        OpCode::F2l => Some(FloatInstruction::F2l),
        OpCode::Fadd => Some(FloatInstruction::Fadd),
        OpCode::Fcmp(c) => Some(FloatInstruction::Fcmp(c)),
        OpCode::Fdiv => Some(FloatInstruction::Fdiv),
        OpCode::Fmul => Some(FloatInstruction::Fmul),
        OpCode::Fneg => Some(FloatInstruction::Fneg),
        OpCode::Frem => Some(FloatInstruction::Frem),
        OpCode::Fsub => Some(FloatInstruction::Fsub),
        OpCode::I2d => Some(FloatInstruction::I2d),
        OpCode::I2f => Some(FloatInstruction::I2f),
        OpCode::L2d => Some(FloatInstruction::L2d),
        OpCode::L2f => Some(FloatInstruction::L2f),
        _ => None,
    }
}

/// The kinds of the operands of a floating point instruction, in the order they are pushed.
pub open spec fn float_operand_kinds(i: FloatInstruction) -> Seq<crate::executor::ValueKind> {
    match i {
        FloatInstruction::D2f | FloatInstruction::D2i | FloatInstruction::D2l
        | FloatInstruction::Dneg => seq![crate::executor::ValueKind::Double],
        FloatInstruction::Dadd | FloatInstruction::Dcmp(_) | FloatInstruction::Ddiv
        | FloatInstruction::Dmul | FloatInstruction::Drem | FloatInstruction::Dsub => seq![
            crate::executor::ValueKind::Double,
            crate::executor::ValueKind::Double,
        ],
        FloatInstruction::F2d | FloatInstruction::F2i | FloatInstruction::F2l
        | FloatInstruction::Fneg => seq![crate::executor::ValueKind::Float],
        FloatInstruction::I2d | FloatInstruction::I2f => seq![crate::executor::ValueKind::Int],
        FloatInstruction::L2d | FloatInstruction::L2f => seq![crate::executor::ValueKind::Long],
        _ => seq![crate::executor::ValueKind::Float, crate::executor::ValueKind::Float],
    }
}

/// The floating point instruction that an instruction is, if it is one.
pub fn float_instruction(op: &OpCode) -> (r: Option<FloatInstruction>)
    ensures
        r == float_instruction_of(*op),
{
    match op {
        OpCode::D2f => Some(FloatInstruction::D2f),
        OpCode::D2i => Some(FloatInstruction::D2i),
        OpCode::D2l => Some(FloatInstruction::D2l),
        OpCode::Dadd => Some(FloatInstruction::Dadd),
        OpCode::Dcmp(c) => Some(FloatInstruction::Dcmp(*c)),
        OpCode::Ddiv => Some(FloatInstruction::Ddiv),
        OpCode::Dmul => Some(FloatInstruction::Dmul),
        OpCode::Dneg => Some(FloatInstruction::Dneg),
        OpCode::Drem => Some(FloatInstruction::Drem),
        OpCode::Dsub => Some(FloatInstruction::Dsub),
        OpCode::F2d => Some(FloatInstruction::F2d),
        OpCode::F2i => Some(FloatInstruction::F2i),
        OpCode::F2l => Some(FloatInstruction::F2l),
        OpCode::Fadd => Some(FloatInstruction::Fadd),
        OpCode::Fcmp(c) => Some(FloatInstruction::Fcmp(*c)),
        OpCode::Fdiv => Some(FloatInstruction::Fdiv),
        OpCode::Fmul => Some(FloatInstruction::Fmul),
        OpCode::Fneg => Some(FloatInstruction::Fneg),
        OpCode::Frem => Some(FloatInstruction::Frem),
        OpCode::Fsub => Some(FloatInstruction::Fsub),
        OpCode::I2d => Some(FloatInstruction::I2d),
        OpCode::I2f => Some(FloatInstruction::I2f),
        OpCode::L2d => Some(FloatInstruction::L2d),
        OpCode::L2f => Some(FloatInstruction::L2f),
        _ => None,
    }
}

/// The kinds of the operands of a floating point instruction.
fn operand_kinds(i: FloatInstruction) -> (r: Vec<crate::executor::ValueKind>)
    ensures
        r@ == float_operand_kinds(i),
{
    let mut v: Vec<crate::executor::ValueKind> = Vec::new();
    match i {
        FloatInstruction::D2f | FloatInstruction::D2i | FloatInstruction::D2l
        | FloatInstruction::Dneg => {
            v.push(crate::executor::ValueKind::Double);
        },
        FloatInstruction::Dadd | FloatInstruction::Dcmp(_) | FloatInstruction::Ddiv
        | FloatInstruction::Dmul | FloatInstruction::Drem | FloatInstruction::Dsub => {
            v.push(crate::executor::ValueKind::Double);
            v.push(crate::executor::ValueKind::Double);
        },
        FloatInstruction::F2d | FloatInstruction::F2i | FloatInstruction::F2l
        | FloatInstruction::Fneg => {
            v.push(crate::executor::ValueKind::Float);
        },
        FloatInstruction::I2d | FloatInstruction::I2f => {
            v.push(crate::executor::ValueKind::Int);
        },
        FloatInstruction::L2d | FloatInstruction::L2f => {
            v.push(crate::executor::ValueKind::Long);
        },
        _ => {
            v.push(crate::executor::ValueKind::Float);
            v.push(crate::executor::ValueKind::Float);
        },
    }
    assert(v@ =~= float_operand_kinds(i));
    v
}

/// Whether the top of `s` holds operands of the kinds that instruction `i` takes.
pub open spec fn float_operands_fit(s: Seq<StackValue>, i: FloatInstruction) -> bool {
    let kinds = float_operand_kinds(i);
    &&& kinds.len() <= s.len()
    &&& forall|k: int| 0 <= k < kinds.len() ==> #[trigger] crate::executor::execute::kind_of(
        call_arguments(s, kinds.len())[k],
    ) == kinds[k]
}

/// Takes the operands of a floating point instruction off the stack, checking their kinds.
fn pop_float_operands(frame: &mut Frame, i: FloatInstruction) -> (r: Result<Vec<StackValue>, RuntimeError>)
    requires
        old(frame).wf(),
    ensures
        final(frame).wf(),
        final(frame).operand_stack.capacity() == old(frame).operand_stack.capacity(),
        final(frame).local_variables@ == old(frame).local_variables@,
        r is Ok <==> float_operands_fit(old(frame).operand_stack@, i),
        r matches Ok(args) ==> {
            let n = float_operand_kinds(i).len();
            &&& n <= old(frame).operand_stack@.len()
            &&& args@ == call_arguments(old(frame).operand_stack@, n)
            &&& forall|k: int| 0 <= k < n ==> #[trigger] crate::executor::execute::kind_of(args@[k])
                == float_operand_kinds(i)[k]
            &&& final(frame).operand_stack@ == old(frame).operand_stack@.subrange(
                0,
                old(frame).operand_stack@.len() - n,
            )
        },
{
    let kinds = operand_kinds(i);
    let args = match pop_arguments(frame, kinds.len()) {
        Ok(a) => a,
        Err(e) => return Err(e),
    };
    let mut k: usize = 0;
    while k < kinds.len()
        invariant
            frame.wf(),
            frame.operand_stack.capacity() == old(frame).operand_stack.capacity(),
            frame.local_variables@ == old(frame).local_variables@,
            kinds@ == float_operand_kinds(i),
            kinds@.len() <= old(frame).operand_stack@.len(),
            args@ == call_arguments(old(frame).operand_stack@, kinds@.len()),
            frame.operand_stack@ == old(frame).operand_stack@.subrange(
                0,
                old(frame).operand_stack@.len() - kinds@.len(),
            ),
            k <= kinds@.len(),
            args@.len() == kinds@.len(),
            forall|j: int| 0 <= j < k ==> #[trigger] crate::executor::execute::kind_of(args@[j]) == kinds@[j],
        decreases kinds@.len() - k,
    {
        let actual = crate::executor::execute::value_kind(&args[k]);
        if actual != kinds[k] {
            return Err(RuntimeError::InvalidType { expected: kinds[k], actual });
        }
        k = k + 1;
    }
    Ok(args)
}

// ---------------------------------------------------------------------------------------------
// Steps

/// The machine `m1` and step `r` after machine `m0` was handed floating point instruction
/// `op`: its operands are taken off the stack and handed out, and the machine waits for the
/// result.
pub open spec fn float_handed_out(m0: Machine, op: OpCode, m1: Machine, r: Step) -> bool {
    match float_instruction_of(op) {
        None => r == Step::Failed(MachineError::Runtime(RuntimeError::Unsupported)),
        Some(i) => {
            let s0 = m0.current.frame.operand_stack@;
            let n = float_operand_kinds(i).len();
            &&& (r is Float <==> float_operands_fit(s0, i))
            &&& (r is Float || r is Failed)
            &&& r is Float ==> {
                &&& r->instruction == i
                &&& r->operands@ == call_arguments(s0, n)
                &&& m1.waiting
                &&& m1.frame_stack == m0.frame_stack
                &&& m1.current.pc == m0.current.pc
                &&& m1.current.class == m0.current.class
                &&& m1.current.method == m0.current.method
                &&& m1.current.code == m0.current.code
                &&& m1.current.frame.local_variables@ == m0.current.frame.local_variables@
                &&& m1.current.frame.operand_stack@ == s0.subrange(0, s0.len() - n)
            }
        },
    }
}

/// The machine `m1`, heap `h1` and step `r` after machine `m0` carried out what instruction
/// `op` asked for with `update`, on heap `h0`.
pub open spec fn applied(m0: Machine, h0: Heap, op: OpCode, update: Update, m1: Machine, h1: Heap, r: Step) -> bool {
    match update {
        Update::Continue => h1@ == h0@ && advanced(m0, 1, m1, r),
        Update::GoTo(o, OffsetDirection::Forward) => h1@ == h0@ && advanced(m0, o, m1, r),
        Update::GoTo(o, OffsetDirection::Backward) => h1@ == h0@ && went_back(m0, o, m1, r),
        Update::Return(v) => h1@ == h0@ && returned(m0, v, m1, r),
        Update::MethodCall { class, method, is_static } => invoked(m0, h0, class, method, is_static, m1, h1, r),
        Update::Exception(e) => h1@ == h0@ && thrown(m0, h0@, e, m1, r),
        Update::FloatOperation => h1@ == h0@ && float_handed_out(m0, op, m1, r),
    }
}

/// Machine `m` with `f` as the frame of its current invocation.
pub open spec fn with_frame(m: Machine, f: Frame) -> Machine {
    Machine {
        frame_stack: m.frame_stack,
        current: ExecutorFrame {
            frame: f,
            pc: m.current.pc,
            class: m.current.class,
            method: m.current.method,
            code: m.current.code,
        },
        waiting: m.waiting,
    }
}

/// The machine `m1`, heap `h1` and step `r` after one step of machine `m0` on heap `h0`: a
/// machine that waits for a result does not step; otherwise the current instruction runs
/// on the current frame and the heap, and the machine carries out what it asks for.
pub open spec fn stepped(m0: Machine, h0: Heap, m1: Machine, h1: Heap, r: Step) -> bool {
    let pc = m0.current.pc.position();
    if m0.waiting {
        r == Step::Failed(MachineError::AwaitingResult) && m1 == m0 && h1@ == h0@
    } else if pc >= m0.current.code.byte_code@.len() {
        r == Step::Failed(MachineError::NoBytecode) && m1 == m0 && h1@ == h0@
    } else {
        let op = m0.current.code.byte_code@[pc as int];
        exists|f: Frame, h: Heap, u: Result<Update, RuntimeError>|
            #[trigger] executed(op, m0.current.frame, h0, f, h, u) && match u {
                Err(e) => r == Step::Failed(MachineError::Runtime(e)) && m1 == with_frame(m0, f) && h1 == h,
                Ok(u) => applied(with_frame(m0, f), h, op, u, m1, h1, r),
            }
    }
}


impl Machine {
    /// Carries out what an instruction asks for after it ran.
    pub fn apply(&mut self, heap: &mut Heap, op: &OpCode, update: Update) -> (r: Step)
        requires
            old(self).wf(),
            old(heap).wf(),
            !old(self).waiting,
        ensures
            final(self).wf(),
            final(heap).wf(),
            applied(*old(self), *old(heap), *op, update, *final(self), *final(heap), r),
    {
        match update {
            Update::Continue => self.advance(1),
            Update::GoTo(offset, OffsetDirection::Forward) => self.advance(offset),
            Update::GoTo(offset, OffsetDirection::Backward) => self.go_back(offset),
            Update::Return(value) => self.return_value(value),
            Update::MethodCall { class, method, is_static } => self.invoke(heap, class, method, is_static),
            Update::Exception(e) => self.throw(heap, e),
            Update::FloatOperation => {
                let instruction = match float_instruction(op) {
                    Some(i) => i,
                    None => return Step::Failed(MachineError::Runtime(RuntimeError::Unsupported)),
                };
                let operands = match pop_float_operands(&mut self.current.frame, instruction) {
                    Ok(a) => a,
                    Err(e) => return Step::Failed(MachineError::Runtime(e)),
                };
                self.waiting = true;
                Step::Float { instruction, operands }
            },
        }
    }

    /// Runs the current instruction and carries out what it asks for.
    pub fn step(&mut self, heap: &mut Heap) -> (r: Step)
        requires
            old(self).wf(),
            old(heap).wf(),
        ensures
            final(self).wf(),
            final(heap).wf(),
            stepped(*old(self), *old(heap), *final(self), *final(heap), r),
    {
        if self.waiting {
            return Step::Failed(MachineError::AwaitingResult);
        }
        let pc = self.current.pc.current();
        let code = self.current.code.clone();
        if pc >= code.byte_code.len() {
            return Step::Failed(MachineError::NoBytecode);
        }
        let op = &code.byte_code[pc];
        let ghost m0 = *self;
        let ghost h0 = *heap;
        let result = op.execute(&mut self.current.frame, heap);
        let ghost f = self.current.frame;
        let ghost h = *heap;
        proof {
            assert(executed(*op, m0.current.frame, h0, f, h, result));
            assert(*self == with_frame(m0, f));
        }
        match result {
            Ok(update) => self.apply(heap, op, update),
            Err(e) => Step::Failed(MachineError::Runtime(e)),
        }
    }
}

} // verus!
