//! The lines that the native print methods write, for the values that need no floating
//! point formatting.
use vstd::prelude::*;

use crate::class::identifier_text;
use crate::class::members::NativeMethod;
use crate::classloader::file_parser::{char_from_u32, is_scalar_value, push_char};
use crate::executor::execute::type_error;
use crate::executor::frame_stack::StackValue;
use crate::executor::{RuntimeError, ValueKind};
use crate::heap::{Heap, HeapModel, ObjectData, ObjectDataModel};

verus! {

/// The decimal digit with value `d`.
pub open spec fn digit(d: nat) -> char {
    if d == 0 {
        '0'
    } else if d == 1 {
        '1'
    } else if d == 2 {
        '2'
    } else if d == 3 {
        '3'
    } else if d == 4 {
        '4'
    } else if d == 5 {
        '5'
    } else if d == 6 {
        '6'
    } else if d == 7 {
        '7'
    } else if d == 8 {
        '8'
    } else {
        '9'
    }
}

/// The decimal digits of `n`, without leading zeros.
pub open spec fn decimal(n: nat) -> Seq<char>
    decreases n,
{
    if n < 10 {
        seq![digit(n)]
    } else {
        decimal(n / 10).push(digit(n % 10))
    }
}

/// The decimal text of an integer: a minus sign before the digits of a negative one.
pub open spec fn signed_decimal(v: int) -> Seq<char> {
    if v < 0 {
        seq!['-'] + decimal((-v) as nat)
    } else {
        decimal(v as nat)
    }
}

/// The number that a string of decimal digits spells, the first digit the most significant.
pub open spec fn digits_value(cs: Seq<char>) -> int
    decreases cs.len(),
{
    if cs.len() == 0 {
        0
    } else {
        digits_value(cs.drop_last()) * 10 + (cs.last() as int - '0' as int)
    }
}

/// Whether every character of `cs` is one of `0` to `9`.
pub open spec fn all_digits(cs: Seq<char>) -> bool {
    forall|i: int| 0 <= i < cs.len() ==> '0' <= #[trigger] cs[i] <= '9'
}

/// The decimal text of a natural number reads back as that number: it is made of the
/// digits `0` to `9` only, spells the number with its most significant digit first, and has
/// no leading zero (only zero itself starts with `0`).
pub proof fn lemma_decimal_reads_back(n: nat)
    ensures
        decimal(n).len() >= 1,
        all_digits(decimal(n)),
        digits_value(decimal(n)) == n,
        decimal(n)[0] == '0' <==> n == 0,
    decreases n,
{
    assert forall|k: nat| k < 10 implies #[trigger] digit(k) as int - '0' as int == k && '0' <= digit(k)
        <= '9' by {}
    if n < 10 {
        assert(decimal(n).drop_last() =~= Seq::<char>::empty());
        assert(digits_value(Seq::<char>::empty()) == 0);
    } else {
        lemma_decimal_reads_back(n / 10);
        assert(digit(n % 10) as int - '0' as int == n % 10);
        let d = decimal(n);
        assert(d.drop_last() =~= decimal(n / 10));
        assert(d[0] == decimal(n / 10)[0]);
        assert(n == (n / 10) * 10 + n % 10);
        assert(all_digits(d)) by {
            assert forall|i: int| 0 <= i < d.len() implies '0' <= #[trigger] d[i] <= '9' by {
                if i < d.len() - 1 {
                    assert(d[i] == decimal(n / 10)[i]);
                }
            }
        }
    }
}

/// The decimal text of an integer is a minus sign followed by the text of its magnitude
/// when it is negative, and the text of the number itself otherwise; either way the digits
/// read back as the magnitude.
pub proof fn lemma_signed_decimal_reads_back(v: int)
    ensures
        v < 0 ==> signed_decimal(v)[0] == '-' && signed_decimal(v).drop_first() == decimal((-v) as nat)
            && digits_value(signed_decimal(v).drop_first()) == -v,
        v >= 0 ==> signed_decimal(v) == decimal(v as nat) && digits_value(signed_decimal(v)) == v
            && all_digits(signed_decimal(v)),
{
    if v < 0 {
        lemma_decimal_reads_back((-v) as nat);
        assert((seq!['-'] + decimal((-v) as nat)).drop_first() =~= decimal((-v) as nat));
    } else {
        lemma_decimal_reads_back(v as nat);
    }
}

fn digit_char(d: u64) -> (c: char)
    requires
        d < 10,
    ensures
        c == digit(d as nat),
{
    match d {
        0 => '0',
        1 => '1',
        2 => '2',
        3 => '3',
        4 => '4',
        5 => '5',
        6 => '6',
        7 => '7',
        8 => '8',
        _ => '9',
    }
}

fn push_decimal(out: &mut String, n: u64)
    ensures
        final(out)@ == old(out)@ + decimal(n as nat),
    decreases n,
{
    if n >= 10 {
        push_decimal(out, n / 10);
    }
    push_char(out, digit_char(n % 10));
    assert(out@ =~= old(out)@ + decimal(n as nat));
}

/// The decimal text of `v`.
pub fn decimal_text(v: i64) -> (r: String)
    ensures
        r@ == signed_decimal(v as int),
{
    let mut out = String::new();
    if v < 0 {
        push_char(&mut out, '-');
        let magnitude: u64 = if v == i64::MIN {
            0x8000_0000_0000_0000u64
        } else {
            (-v) as u64
        };
        push_decimal(&mut out, magnitude);
    } else {
        push_decimal(&mut out, v as u64);
    }
    assert(out@ =~= signed_decimal(v as int));
    out
}

/// What `println(char)` writes for the int `c`: the character with that scalar value, or
/// U+FFFD where there is none.
pub open spec fn char_line(c: i32) -> Seq<char> {
    if is_scalar_value(c as u32) {
        seq![(c as u32) as char]
    } else {
        seq!['\u{FFFD}']
    }
}

/// The line that a print method writes for `arguments` (the receiver first), without its
/// line break. `println(Object)` writes the class identifier, `@` and the object's index.
/// The methods that take a float or a double, and those that do not print, are refused as
/// unsupported here.
pub open spec fn printed_line(h: HeapModel, method: NativeMethod, arguments: Seq<StackValue>) -> Result<
    Seq<char>,
    RuntimeError,
> {
    if arguments.len() != 2 {
        Err(RuntimeError::StackUnderflow)
    } else {
        let v = arguments[1];
        match method {
            NativeMethod::PrintlnInt => match v {
                StackValue::Int(i) => Ok(signed_decimal(i as int)),
                _ => Err(type_error(ValueKind::Int, v)),
            },
            NativeMethod::PrintlnLong => match v {
                StackValue::Long(l) => Ok(signed_decimal(l as int)),
                _ => Err(type_error(ValueKind::Long, v)),
            },
            NativeMethod::PrintlnBoolean => match v {
                StackValue::Int(i) => if i == 0 {
                    Ok("false"@)
                } else if i == 1 {
                    Ok("true"@)
                } else {
                    Err(RuntimeError::ValueOutOfRange(i))
                },
                _ => Err(type_error(ValueKind::Int, v)),
            },
            NativeMethod::PrintlnChar => match v {
                StackValue::Int(c) => Ok(char_line(c)),
                _ => Err(type_error(ValueKind::Int, v)),
            },
            NativeMethod::PrintlnString => match v {
                StackValue::Reference(None) => Err(RuntimeError::NullPointer),
                StackValue::Reference(Some(i)) => if i < h.objects.len() {
                    match h.objects[i as int].1 {
                        ObjectDataModel::Text(t) => Ok(t),
                        _ => Err(RuntimeError::NotAString),
                    }
                } else {
                    Err(RuntimeError::InvalidReference(i))
                },
                _ => Err(type_error(ValueKind::Reference, v)),
            },
            NativeMethod::PrintlnObject => match v {
                StackValue::Reference(None) => Ok("null"@),
                StackValue::Reference(Some(i)) => if i < h.objects.len() {
                    Ok(
                        identifier_text(h.classes[h.objects[i as int].0 as int].identifier)
                            + seq!['@'] + decimal(i as nat),
                    )
                } else {
                    Err(RuntimeError::InvalidReference(i))
                },
                _ => Err(type_error(ValueKind::Reference, v)),
            },
            _ => Err(RuntimeError::Unsupported),
        }
    }
}

/// The line that the print method `method` writes for `arguments`, without its line break.
pub fn println_line(heap: &Heap, method: NativeMethod, arguments: &Vec<StackValue>) -> (r: Result<
    String,
    RuntimeError,
>)
    requires
        heap.wf(),
    ensures
        match printed_line(heap@, method, arguments@) {
            Ok(t) => r matches Ok(s) && s@ == t,
            Err(e) => r == Err::<String, RuntimeError>(e),
        },
{
    if arguments.len() != 2 {
        return Err(RuntimeError::StackUnderflow);
    }
    let v = arguments[1];
    match method {
        NativeMethod::PrintlnInt => match v {
            StackValue::Int(i) => Ok(decimal_text(i as i64)),
            _ => Err(RuntimeError::InvalidType { expected: ValueKind::Int, actual: crate::executor::execute::value_kind(&v) }),
        },
        NativeMethod::PrintlnLong => match v {
            StackValue::Long(l) => Ok(decimal_text(l)),
            _ => Err(RuntimeError::InvalidType { expected: ValueKind::Long, actual: crate::executor::execute::value_kind(&v) }),
        },
        NativeMethod::PrintlnBoolean => match v {
            StackValue::Int(i) => if i == 0 {
                Ok(String::from_str("false"))
            } else if i == 1 {
                Ok(String::from_str("true"))
            } else {
                Err(RuntimeError::ValueOutOfRange(i))
            },
            _ => Err(RuntimeError::InvalidType { expected: ValueKind::Int, actual: crate::executor::execute::value_kind(&v) }),
        },
        NativeMethod::PrintlnChar => match v {
            StackValue::Int(c) => {
                let mut out = String::new();
                match char_from_u32(c as u32) {
                    Some(ch) => push_char(&mut out, ch),
                    None => push_char(&mut out, '\u{FFFD}'),
                }
                Ok(out)
            },
            _ => Err(RuntimeError::InvalidType { expected: ValueKind::Int, actual: crate::executor::execute::value_kind(&v) }),
        },
        NativeMethod::PrintlnString => match v {
            StackValue::Reference(None) => Err(RuntimeError::NullPointer),
            StackValue::Reference(Some(i)) => {
                if i >= heap.objects.len() {
                    return Err(RuntimeError::InvalidReference(i));
                }
                assert(heap@.objects[i as int] == heap.objects@[i as int]@);
                match &heap.objects[i].data {
                    ObjectData::Text(t) => Ok(t.clone()),
                    _ => Err(RuntimeError::NotAString),
                }
            },
            _ => Err(RuntimeError::InvalidType { expected: ValueKind::Reference, actual: crate::executor::execute::value_kind(&v) }),
        },
        NativeMethod::PrintlnObject => match v {
            StackValue::Reference(None) => Ok(String::from_str("null")),
            StackValue::Reference(Some(i)) => {
                if i >= heap.objects.len() {
                    return Err(RuntimeError::InvalidReference(i));
                }
                assert(heap@.objects[i as int] == heap.objects@[i as int]@);
                let c = heap.objects[i].class;
                assert(heap@.classes[c as int] == heap.classes@[c as int]@);
                let mut out = heap.classes[c].class_identifier.display_text();
                push_char(&mut out, '@');
                push_decimal(&mut out, i as u64);
                Ok(out)
            },
            _ => Err(RuntimeError::InvalidType { expected: ValueKind::Reference, actual: crate::executor::execute::value_kind(&v) }),
        },
        _ => Err(RuntimeError::Unsupported),
    }
}

} // verus!
