//! The local variables of a method invocation. Long and double values occupy two
//! consecutive slots, each holding 32 of their 64 bits.
use vstd::prelude::*;

use crate::executor::frame_stack::StackValue;

verus! {

/// The content of one local variable slot.
#[derive(Clone, Copy, PartialEq, Eq, Structural)]
pub enum VariableValue {
    /// Covers int, byte, short, char and boolean.
    Int(i32),
    /// The low 32 bits of a long; the next slot holds the high ones.
    LongFirst(u32),
    LongSecond(u32),
    Float(u32),
    /// The low 32 bits of a double's bit pattern; the next slot holds the high ones.
    DoubleFirst(u32),
    DoubleSecond(u32),
    ReturnAddress(usize),
    Invalid,
    Reference(Option<usize>),
}

/// A value read from or written to the local variables, with long and double values whole.
#[derive(Clone, Copy, PartialEq, Eq, Structural)]
pub enum VariableValueOrValue {
    Int(i32),
    Long(i64),
    Float(u32),
    Double(u64),
    ReturnAddress(usize),
    Invalid,
    Reference(Option<usize>),
}

/// The name of a local variable value's type.
pub open spec fn variable_type_name(v: VariableValueOrValue) -> Seq<char> {
    match v {
        VariableValueOrValue::Int(_) => seq!['i', 'n', 't'],
        VariableValueOrValue::Long(_) => seq!['l', 'o', 'n', 'g'],
        VariableValueOrValue::Float(_) => seq!['f', 'l', 'o', 'a', 't'],
        VariableValueOrValue::Double(_) => seq!['d', 'o', 'u', 'b', 'l', 'e'],
        VariableValueOrValue::ReturnAddress(_) => seq![
            'r', 'e', 't', 'u', 'r', 'n', '_', 'a', 'd', 'd', 'r', 'e', 's', 's',
        ],
        VariableValueOrValue::Reference(_) => seq!['r', 'e', 'f', 'e', 'r', 'e', 'n', 'c', 'e'],
        VariableValueOrValue::Invalid => seq!['i', 'n', 'v', 'a', 'l', 'i', 'd', '!'],
    }
}

/// The low 32 bits of a 64-bit pattern.
pub open spec fn low_half(bits: u64) -> u32 {
    (bits & 0xffff_ffff) as u32
}

/// The high 32 bits of a 64-bit pattern.
pub open spec fn high_half(bits: u64) -> u32 {
    (bits >> 32) as u32
}

/// The 64-bit pattern made of two halves.
pub open spec fn join_halves(low: u32, high: u32) -> u64 {
    ((high as u64) << 32) | (low as u64)
}

/// Splitting a 64-bit pattern into halves and joining them gives it back.
pub proof fn lemma_halves(bits: u64)
    ensures
        join_halves(low_half(bits), high_half(bits)) == bits,
{
    assert((((((bits >> 32) as u32) as u64) << 32) | (((bits & 0xffff_ffff) as u32) as u64))
        == bits) by (bit_vector);
}

/// The slots after writing `value` at `index`. When the slot held the second half of a
/// long or double, the first half is invalidated; a long or double also fills the next slot.
pub open spec fn spec_set(s: Seq<VariableValue>, index: int, value: VariableValueOrValue) -> Seq<
    VariableValue,
> {
    let s1 = if index > 0 && (s[index] is LongSecond || s[index] is DoubleSecond) {
        s.update(index - 1, VariableValue::Invalid)
    } else {
        s
    };
    match value {
        VariableValueOrValue::Int(i) => s1.update(index, VariableValue::Int(i)),
        VariableValueOrValue::Long(l) => s1.update(
            index + 1,
            VariableValue::LongSecond(high_half(l as u64)),
        ).update(index, VariableValue::LongFirst(low_half(l as u64))),
        VariableValueOrValue::Float(f) => s1.update(index, VariableValue::Float(f)),
        VariableValueOrValue::Double(d) => s1.update(
            index + 1,
            VariableValue::DoubleSecond(high_half(d)),
        ).update(index, VariableValue::DoubleFirst(low_half(d))),
        VariableValueOrValue::ReturnAddress(r) => s1.update(index, VariableValue::ReturnAddress(r)),
        VariableValueOrValue::Invalid => s1.update(index, VariableValue::Invalid),
        VariableValueOrValue::Reference(r) => s1.update(index, VariableValue::Reference(r)),
    }
}

/// Whether `value` can be written at `index`: the slot exists, and so does the next one
/// for a long or double.
pub open spec fn writable(s: Seq<VariableValue>, index: int, value: VariableValueOrValue) -> bool {
    &&& 0 <= index < s.len()
    &&& (value is Long || value is Double) ==> index + 1 < s.len()
}

/// Whether the slot at `index` can be read: it exists, does not hold the second half of a
/// long or double, and a first half is followed by its second half.
pub open spec fn readable(s: Seq<VariableValue>, index: int) -> bool {
    &&& 0 <= index < s.len()
    &&& !(s[index] is LongSecond)
    &&& !(s[index] is DoubleSecond)
    &&& s[index] is LongFirst ==> index + 1 < s.len() && s[index + 1] is LongSecond
    &&& s[index] is DoubleFirst ==> index + 1 < s.len() && s[index + 1] is DoubleSecond
}

/// The value read from a readable slot.
pub open spec fn spec_get(s: Seq<VariableValue>, index: int) -> VariableValueOrValue {
    match s[index] {
        VariableValue::Int(i) => VariableValueOrValue::Int(i),
        VariableValue::LongFirst(l1) => VariableValueOrValue::Long(
            join_halves(l1, s[index + 1]->LongSecond_0) as i64,
        ),
        VariableValue::Float(f) => VariableValueOrValue::Float(f),
        VariableValue::DoubleFirst(d1) => VariableValueOrValue::Double(
            join_halves(d1, s[index + 1]->DoubleSecond_0),
        ),
        VariableValue::ReturnAddress(r) => VariableValueOrValue::ReturnAddress(r),
        VariableValue::Reference(r) => VariableValueOrValue::Reference(r),
        _ => VariableValueOrValue::Invalid,
    }
}

/// The local variables of one invocation.
pub struct LocalVariables {
    local_variables: Vec<VariableValue>,
}

impl View for LocalVariables {
    type V = Seq<VariableValue>;

    closed spec fn view(&self) -> Seq<VariableValue> {
        self.local_variables@
    }
}

impl LocalVariables {
    /// `length` slots, all invalid.
    pub fn new(length: usize) -> (r: LocalVariables)
        ensures
            r@ == Seq::new(length as nat, |i: int| VariableValue::Invalid),
    {
        let mut v: Vec<VariableValue> = Vec::new();
        let mut i: usize = 0;
        while i < length
            invariant
                i <= length,
                v@ == Seq::new(i as nat, |j: int| VariableValue::Invalid),
            decreases length - i,
        {
            v.push(VariableValue::Invalid);
            i = i + 1;
            assert(v@ =~= Seq::new(i as nat, |j: int| VariableValue::Invalid));
        }
        LocalVariables { local_variables: v }
    }

    /// The number of slots.
    pub fn len(&self) -> (r: usize)
        ensures
            r == self@.len(),
    {
        self.local_variables.len()
    }

    /// Writes `value` at `index`.
    pub fn set(&mut self, index: usize, value: VariableValueOrValue)
        requires
            writable(old(self)@, index as int, value),
        ensures
            final(self)@ == spec_set(old(self)@, index as int, value),
    {
        let n = self.local_variables.len();
        if index > 0 {
            let old_slot = self.local_variables[index];
            if let VariableValue::LongSecond(_) = old_slot {
                self.local_variables.set(index - 1, VariableValue::Invalid);
            } else if let VariableValue::DoubleSecond(_) = old_slot {
                self.local_variables.set(index - 1, VariableValue::Invalid);
            }
        }
        let slot = match value {
            VariableValueOrValue::Int(i) => VariableValue::Int(i),
            VariableValueOrValue::Long(l) => {
                let bits = l as u64;
                self.local_variables.set(
                    index + 1,
                    VariableValue::LongSecond((bits >> 32) as u32),
                );
                VariableValue::LongFirst((bits & 0xffff_ffff) as u32)
            },
            VariableValueOrValue::Float(f) => VariableValue::Float(f),
            VariableValueOrValue::Double(d) => {
                self.local_variables.set(index + 1, VariableValue::DoubleSecond((d >> 32) as u32));
                VariableValue::DoubleFirst((d & 0xffff_ffff) as u32)
            },
            VariableValueOrValue::ReturnAddress(r) => VariableValue::ReturnAddress(r),
            VariableValueOrValue::Invalid => VariableValue::Invalid,
            VariableValueOrValue::Reference(r) => VariableValue::Reference(r),
        };
        self.local_variables.set(index, slot);
    }

    /// Whether the slot at `index` can be read.
    pub fn can_get(&self, index: usize) -> (r: bool)
        ensures
            r == readable(self@, index as int),
    {
        if index >= self.local_variables.len() {
            return false;
        }
        match self.local_variables[index] {
            VariableValue::LongSecond(_) | VariableValue::DoubleSecond(_) => false,
            VariableValue::LongFirst(_) => index + 1 < self.local_variables.len() && matches!(
                self.local_variables[index + 1],
                VariableValue::LongSecond(_)
            ),
            VariableValue::DoubleFirst(_) => index + 1 < self.local_variables.len() && matches!(
                self.local_variables[index + 1],
                VariableValue::DoubleSecond(_)
            ),
            _ => true,
        }
    }

    /// Reads the value at `index`, joining the halves of a long or double.
    pub fn get(&self, index: usize) -> (r: VariableValueOrValue)
        requires
            readable(self@, index as int),
        ensures
            r == spec_get(self@, index as int),
    {
        let n = self.local_variables.len();
        match self.local_variables[index] {
            VariableValue::Int(i) => VariableValueOrValue::Int(i),
            VariableValue::LongFirst(l1) => {
                let l2 = match self.local_variables[index + 1] {
                    VariableValue::LongSecond(v) => v,
                    _ => 0,
                };
                VariableValueOrValue::Long((((l2 as u64) << 32) | (l1 as u64)) as i64)
            },
            VariableValue::Float(f) => VariableValueOrValue::Float(f),
            VariableValue::DoubleFirst(d1) => {
                let d2 = match self.local_variables[index + 1] {
                    VariableValue::DoubleSecond(v) => v,
                    _ => 0,
                };
                VariableValueOrValue::Double(((d2 as u64) << 32) | (d1 as u64))
            },
            VariableValue::ReturnAddress(r) => VariableValueOrValue::ReturnAddress(r),
            VariableValue::Reference(r) => VariableValueOrValue::Reference(r),
            _ => VariableValueOrValue::Invalid,
        }
    }
}

/// Reading a slot just written gives back the value written, long and double values
/// included.
pub proof fn lemma_get_after_set(s: Seq<VariableValue>, index: int, value: VariableValueOrValue)
    requires
        writable(s, index, value),
    ensures
        readable(spec_set(s, index, value), index),
        spec_get(spec_set(s, index, value), index) == value,
{
    match value {
        VariableValueOrValue::Long(l) => {
            lemma_halves(l as u64);
            assert((join_halves(low_half(l as u64), high_half(l as u64)) as i64) == l) by {
                assert(((l as u64) as i64) == l) by (bit_vector);
            }
        },
        VariableValueOrValue::Double(d) => {
            lemma_halves(d);
        },
        _ => {},
    }
}

/// Writing a slot leaves every slot other than it, the one before and the one after alone.
pub proof fn lemma_set_elsewhere(
    s: Seq<VariableValue>,
    index: int,
    value: VariableValueOrValue,
    other: int,
)
    requires
        writable(s, index, value),
        0 <= other < s.len(),
        other < index - 1 || other > index + 1,
    ensures
        spec_set(s, index, value).len() == s.len(),
        spec_set(s, index, value)[other] == s[other],
{
}

/// The local variable value that a stack value becomes when it is stored.
pub open spec fn stack_to_variable(v: StackValue) -> VariableValueOrValue {
    match v {
        StackValue::Int(i) => VariableValueOrValue::Int(i),
        StackValue::Long(l) => VariableValueOrValue::Long(l),
        StackValue::Float(f) => VariableValueOrValue::Float(f),
        StackValue::Double(d) => VariableValueOrValue::Double(d),
        StackValue::ReturnAddress(r) => VariableValueOrValue::ReturnAddress(r),
        StackValue::Reference(r) => VariableValueOrValue::Reference(r),
    }
}

/// The stack value that a local variable value becomes when it is loaded; `None` for an
/// invalid slot.
pub open spec fn variable_to_stack(v: VariableValueOrValue) -> Option<StackValue> {
    match v {
        VariableValueOrValue::Int(i) => Some(StackValue::Int(i)),
        VariableValueOrValue::Long(l) => Some(StackValue::Long(l)),
        VariableValueOrValue::Float(f) => Some(StackValue::Float(f)),
        VariableValueOrValue::Double(d) => Some(StackValue::Double(d)),
        VariableValueOrValue::ReturnAddress(r) => Some(StackValue::ReturnAddress(r)),
        VariableValueOrValue::Reference(r) => Some(StackValue::Reference(r)),
        VariableValueOrValue::Invalid => None,
    }
}

impl VariableValueOrValue {
    /// The local variable value that a stack value becomes.
    pub fn from_stack_value(v: StackValue) -> (r: VariableValueOrValue)
        ensures
            r == stack_to_variable(v),
    {
        match v {
            StackValue::Int(i) => VariableValueOrValue::Int(i),
            StackValue::Long(l) => VariableValueOrValue::Long(l),
            StackValue::Float(f) => VariableValueOrValue::Float(f),
            StackValue::Double(d) => VariableValueOrValue::Double(d),
            StackValue::ReturnAddress(r) => VariableValueOrValue::ReturnAddress(r),
            StackValue::Reference(r) => VariableValueOrValue::Reference(r),
        }
    }

    /// The stack value this becomes; `None` for an invalid slot.
    pub fn to_stack_value(self) -> (r: Option<StackValue>)
        ensures
            r == variable_to_stack(self),
    {
        match self {
            VariableValueOrValue::Int(i) => Some(StackValue::Int(i)),
            VariableValueOrValue::Long(l) => Some(StackValue::Long(l)),
            VariableValueOrValue::Float(f) => Some(StackValue::Float(f)),
            VariableValueOrValue::Double(d) => Some(StackValue::Double(d)),
            VariableValueOrValue::ReturnAddress(r) => Some(StackValue::ReturnAddress(r)),
            VariableValueOrValue::Reference(r) => Some(StackValue::Reference(r)),
            VariableValueOrValue::Invalid => None,
        }
    }

    /// The name of this value's type; `invalid!` for a slot without a readable value.
    pub fn kind_name(&self) -> (r: &'static str)
        ensures
            r@ == variable_type_name(*self),
    {
        match self {
            VariableValueOrValue::Int(_) => {
                proof {
                    reveal_strlit("int");
                }
                "int"
            },
            VariableValueOrValue::Long(_) => {
                proof {
                    reveal_strlit("long");
                }
                "long"
            },
            VariableValueOrValue::Float(_) => {
                proof {
                    reveal_strlit("float");
                }
                "float"
            },
            VariableValueOrValue::Double(_) => {
                proof {
                    reveal_strlit("double");
                }
                "double"
            },
            VariableValueOrValue::ReturnAddress(_) => {
                proof {
                    reveal_strlit("return_address");
                }
                "return_address"
            },
            VariableValueOrValue::Reference(_) => {
                proof {
                    reveal_strlit("reference");
                }
                "reference"
            },
            VariableValueOrValue::Invalid => {
                proof {
                    reveal_strlit("invalid!");
                }
                "invalid!"
            },
        }
    }

    /// How many slots this value occupies.
    pub fn size(&self) -> (r: crate::executor::frame_stack::StackValueSize)
        ensures
            r == (if *self is Long || *self is Double {
                crate::executor::frame_stack::StackValueSize::Two
            } else {
                crate::executor::frame_stack::StackValueSize::One
            }),
    {
        match self {
            VariableValueOrValue::Long(_) | VariableValueOrValue::Double(_) => {
                crate::executor::frame_stack::StackValueSize::Two
            },
            _ => crate::executor::frame_stack::StackValueSize::One,
        }
    }
}

} // verus!
