//! The operand stack of a method invocation.
use vstd::prelude::*;

use crate::class::members::FieldValue;

verus! {

/// A value on the operand stack. Floating point values are IEEE 754 bit patterns; a
/// reference is the index of an object on the heap, or `None` for `null`.
#[derive(Debug, Clone, Copy, PartialEq, Eq, Structural)]
pub enum StackValue {
    /// Covers int, byte, short, boolean and char.
    Int(i32),
    Long(i64),
    Float(u32),
    Double(u64),
    /// An absolute instruction position, used by subroutine jumps.
    ReturnAddress(usize),
    Reference(Option<usize>),
}

/// How many stack slots a value occupies.
#[derive(Clone, Copy, PartialEq, Eq, Structural)]
pub enum StackValueSize {
    One,
    Two,
}

/// The number of slots a value occupies: two for long and double values, one otherwise.
pub open spec fn value_size(v: StackValue) -> nat {
    match v {
        StackValue::Long(_) | StackValue::Double(_) => 2,
        _ => 1,
    }
}

/// The number of slots that the values `s` occupy.
pub open spec fn stack_depth(s: Seq<StackValue>) -> nat
    decreases s.len(),
{
    if s.len() == 0 {
        0
    } else {
        stack_depth(s.drop_last()) + value_size(s.last())
    }
}

impl StackValueSize {
    /// The number of slots.
    pub fn slots(self) -> (r: usize)
        ensures
            r == (if self == StackValueSize::One { 1usize } else { 2usize }),
    {
        match self {
            StackValueSize::One => 1,
            StackValueSize::Two => 2,
        }
    }
}

impl StackValue {
    /// How many slots this value occupies.
    pub fn size(&self) -> (r: StackValueSize)
        ensures
            r == (if value_size(*self) == 2 { StackValueSize::Two } else { StackValueSize::One }),
    {
        match self {
            StackValue::Long(_) | StackValue::Double(_) => StackValueSize::Two,
            _ => StackValueSize::One,
        }
    }

    /// The name of this value's type.
    pub fn kind_name(&self) -> (r: &'static str)
        ensures
            r@ == stack_type_name(*self),
    {
        match self {
            StackValue::Int(_) => {
                proof {
                    reveal_strlit("int");
                }
                "int"
            },
            StackValue::Long(_) => {
                proof {
                    reveal_strlit("long");
                }
                "long"
            },
            StackValue::Float(_) => {
                proof {
                    reveal_strlit("float");
                }
                "float"
            },
            StackValue::Double(_) => {
                proof {
                    reveal_strlit("double");
                }
                "double"
            },
            StackValue::ReturnAddress(_) => {
                proof {
                    reveal_strlit("return_address");
                }
                "return_address"
            },
            StackValue::Reference(_) => {
                proof {
                    reveal_strlit("reference");
                }
                "reference"
            },
        }
    }

    /// The stack value that a field value becomes when it is pushed: the small integral
    /// types widen to int (a char without sign, the others with it).
    pub fn from_field_value(value: FieldValue) -> (r: StackValue)
        ensures
            r == field_to_stack(value),
    {
        match value {
            FieldValue::Byte(v) => StackValue::Int(v as i32),
            FieldValue::Short(v) => StackValue::Int(v as i32),
            FieldValue::Int(v) => StackValue::Int(v),
            FieldValue::Long(v) => StackValue::Long(v),
            FieldValue::Char(v) => StackValue::Int(v as i32),
            FieldValue::Float(v) => StackValue::Float(v),
            FieldValue::Double(v) => StackValue::Double(v),
            FieldValue::Boolean(v) => StackValue::Int(v as i32),
            FieldValue::Reference(v) => StackValue::Reference(v),
        }
    }
}

/// The name of a stack value's type.
pub open spec fn stack_type_name(v: StackValue) -> Seq<char> {
    match v {
        StackValue::Int(_) => seq!['i', 'n', 't'],
        StackValue::Long(_) => seq!['l', 'o', 'n', 'g'],
        StackValue::Float(_) => seq!['f', 'l', 'o', 'a', 't'],
        StackValue::Double(_) => seq!['d', 'o', 'u', 'b', 'l', 'e'],
        StackValue::ReturnAddress(_) => seq![
            'r', 'e', 't', 'u', 'r', 'n', '_', 'a', 'd', 'd', 'r', 'e', 's', 's',
        ],
        StackValue::Reference(_) => seq!['r', 'e', 'f', 'e', 'r', 'e', 'n', 'c', 'e'],
    }
}

/// The stack value that a field value becomes.
pub open spec fn field_to_stack(value: FieldValue) -> StackValue {
    match value {
        FieldValue::Byte(v) => StackValue::Int(v as i32),
        FieldValue::Short(v) => StackValue::Int(v as i32),
        FieldValue::Int(v) => StackValue::Int(v),
        FieldValue::Long(v) => StackValue::Long(v),
        FieldValue::Char(v) => StackValue::Int(v as i32),
        FieldValue::Float(v) => StackValue::Float(v),
        FieldValue::Double(v) => StackValue::Double(v),
        FieldValue::Boolean(v) => StackValue::Int(v as i32),
        FieldValue::Reference(v) => StackValue::Reference(v),
    }
}

/// Loading a field or an array element widens it as Java does: a byte or a short becomes the
/// int of the same value (its sign kept, so a stored -1 loads as -1), a char or a boolean the
/// int of its unsigned value; ints, longs, floats, doubles and references are pushed as they
/// are.
pub proof fn lemma_field_to_stack_widens(
    b: i8,
    sh: i16,
    c: u16,
    z: u8,
    i: i32,
    l: i64,
    f: u32,
    d: u64,
    r: Option<usize>,
)
    ensures
        field_to_stack(FieldValue::Byte(b)) is Int && field_to_stack(FieldValue::Byte(b))->Int_0 as int
            == b as int,
        field_to_stack(FieldValue::Short(sh)) is Int && field_to_stack(FieldValue::Short(sh))->Int_0 as int
            == sh as int,
        field_to_stack(FieldValue::Char(c)) is Int && field_to_stack(FieldValue::Char(c))->Int_0 as int
            == c as int,
        field_to_stack(FieldValue::Boolean(z)) is Int && field_to_stack(FieldValue::Boolean(z))->Int_0 as int
            == z as int,
        field_to_stack(FieldValue::Int(i)) == StackValue::Int(i),
        field_to_stack(FieldValue::Long(l)) == StackValue::Long(l),
        field_to_stack(FieldValue::Float(f)) == StackValue::Float(f),
        field_to_stack(FieldValue::Double(d)) == StackValue::Double(d),
        field_to_stack(FieldValue::Reference(r)) == StackValue::Reference(r),
{
}

/// The operand stack of one method invocation, bounded by the maximal depth that the
/// method's code attribute gives (long and double values count twice).
pub struct FrameStack {
    values: Vec<StackValue>,
    max_depth: usize,
}

impl View for FrameStack {
    type V = Seq<StackValue>;

    closed spec fn view(&self) -> Seq<StackValue> {
        self.values@
    }
}

impl FrameStack {
    /// The maximal depth of this stack.
    pub closed spec fn capacity(&self) -> nat {
        self.max_depth as nat
    }

    /// The values never take more slots than the maximal depth.
    pub open spec fn wf(&self) -> bool {
        stack_depth(self@) <= self.capacity()
    }

    /// An empty stack with room for `max_depth` slots.
    pub fn new(max_depth: usize) -> (r: FrameStack)
        ensures
            r@ == Seq::<StackValue>::empty(),
            r.capacity() == max_depth,
            r.wf(),
    {
        FrameStack { values: Vec::new(), max_depth }
    }

    /// The number of slots the values on the stack occupy.
    pub fn depth(&self) -> (r: usize)
        requires
            self.wf(),
        ensures
            r == stack_depth(self@),
    {
        let mut d: usize = 0;
        let mut i: usize = 0;
        while i < self.values.len()
            invariant
                i <= self.values@.len(),
                d == stack_depth(self.values@.take(i as int)),
                stack_depth(self.values@) <= self.max_depth,
            decreases self.values@.len() - i,
        {
            proof {
                assert(self.values@.take(i + 1).drop_last() =~= self.values@.take(i as int));
                lemma_depth_prefix(self.values@, i as int + 1);
            }
            d = d + self.values[i].size().slots();
            i = i + 1;
        }
        assert(self.values@.take(i as int) =~= self.values@);
        d
    }

    /// The number of values on the stack.
    pub fn len(&self) -> (r: usize)
        ensures
            r == self@.len(),
    {
        self.values.len()
    }

    /// Whether the values take no more slots than the maximal depth.
    pub fn is_within_depth(&self) -> (r: bool)
        ensures
            r == self.wf(),
    {
        let mut d: u128 = 0;
        let mut i: usize = 0;
        while i < self.values.len()
            invariant
                i <= self.values@.len(),
                d == stack_depth(self.values@.take(i as int)),
                d <= 2 * i,
            decreases self.values@.len() - i,
        {
            proof {
                assert(self.values@.take(i + 1).drop_last() =~= self.values@.take(i as int));
            }
            d = d + self.values[i].size().slots() as u128;
            i = i + 1;
        }
        assert(self.values@.take(i as int) =~= self.values@);
        d <= self.max_depth as u128
    }

    /// Pushes a value if it fits; otherwise hands it back and leaves the stack unchanged.
    pub fn push(&mut self, value: StackValue) -> (r: Result<(), StackValue>)
        requires
            old(self).wf(),
        ensures
            final(self).wf(),
            final(self).capacity() == old(self).capacity(),
            r is Ok <==> stack_depth(old(self)@) + value_size(value) <= old(self).capacity(),
            r is Ok ==> final(self)@ == old(self)@.push(value),
            r is Err ==> final(self)@ == old(self)@ && r == Err::<(), StackValue>(value),
    {
        let depth = self.depth();
        let size = value.size().slots();
        if size > self.max_depth || depth > self.max_depth - size {
            return Err(value);
        }
        self.values.push(value);
        proof {
            assert(self.values@.drop_last() =~= old(self).values@);
        }
        Ok(())
    }

    /// Removes and returns the top value; `None` when the stack is empty.
    pub fn pop(&mut self) -> (r: Option<StackValue>)
        requires
            old(self).wf(),
        ensures
            final(self).wf(),
            final(self).capacity() == old(self).capacity(),
            old(self)@.len() == 0 ==> r is None && final(self)@ == old(self)@,
            old(self)@.len() > 0 ==> r == Some(old(self)@.last()) && final(self)@ == old(
                self,
            )@.drop_last(),
    {
        let r = self.values.pop();
        proof {
            if old(self).values@.len() > 0 {
                assert(self.values@ =~= old(self).values@.drop_last());
            }
        }
        r
    }

    /// Removes all values.
    pub fn clear(&mut self)
        requires
            old(self).wf(),
        ensures
            final(self).wf(),
            final(self).capacity() == old(self).capacity(),
            final(self)@ == Seq::<StackValue>::empty(),
    {
        self.values.clear();
    }
}

/// Longs and doubles take two slots of the operand stack's depth, every other value one.
pub proof fn lemma_value_slots(s: Seq<StackValue>, i: i32, l: i64, f: u32, d: u64, a: usize, r: Option<usize>)
    ensures
        stack_depth(s.push(StackValue::Long(l))) == stack_depth(s) + 2,
        stack_depth(s.push(StackValue::Double(d))) == stack_depth(s) + 2,
        stack_depth(s.push(StackValue::Int(i))) == stack_depth(s) + 1,
        stack_depth(s.push(StackValue::Float(f))) == stack_depth(s) + 1,
        stack_depth(s.push(StackValue::ReturnAddress(a))) == stack_depth(s) + 1,
        stack_depth(s.push(StackValue::Reference(r))) == stack_depth(s) + 1,
        stack_depth(Seq::<StackValue>::empty()) == 0,
{
    lemma_push_then_pop(s, StackValue::Long(l));
    lemma_push_then_pop(s, StackValue::Double(d));
    lemma_push_then_pop(s, StackValue::Int(i));
    lemma_push_then_pop(s, StackValue::Float(f));
    lemma_push_then_pop(s, StackValue::ReturnAddress(a));
    lemma_push_then_pop(s, StackValue::Reference(r));
}

/// The slots of a prefix never exceed those of the whole.
proof fn lemma_depth_prefix(s: Seq<StackValue>, n: int)
    requires
        0 <= n <= s.len(),
    ensures
        stack_depth(s.take(n)) <= stack_depth(s),
    decreases s.len() - n,
{
    if n < s.len() {
        lemma_depth_prefix(s, n + 1);
        assert(s.take(n + 1).drop_last() =~= s.take(n));
    } else {
        assert(s.take(n) =~= s);
    }
}

/// What a successful push puts on the stack, the next pop takes off again, and the stack
/// is as it was before the push.
pub proof fn lemma_push_then_pop(s: Seq<StackValue>, v: StackValue)
    ensures
        s.push(v).len() > 0,
        s.push(v).last() == v,
        s.push(v).drop_last() == s,
        stack_depth(s.push(v)) == stack_depth(s) + value_size(v),
{
    assert(s.push(v).drop_last() =~= s);
}

} // verus!
