//! What each instruction does to the frame and the heap.
use vstd::prelude::*;

use crate::classloader::opcode_parser::branch_parts;
use crate::executor::frame_stack::{stack_depth, StackValue};
use crate::executor::local_variables::{
    readable, spec_get, spec_set, stack_to_variable, variable_to_stack, writable, VariableValue,
    VariableValueOrValue,
};
use crate::executor::op_code::{Dup, Ldc, OffsetDirection, OpCode};
use crate::executor::{Frame, ReturnValue, RuntimeError, Update, ValueKind};

verus! {

// ---------------------------------------------------------------------------------------------
// Operands

/// The kind of a stack value.
pub open spec fn kind_of(v: StackValue) -> ValueKind {
    match v {
        StackValue::Int(_) => ValueKind::Int,
        StackValue::Long(_) => ValueKind::Long,
        StackValue::Float(_) => ValueKind::Float,
        StackValue::Double(_) => ValueKind::Double,
        StackValue::ReturnAddress(_) => ValueKind::ReturnAddress,
        StackValue::Reference(_) => ValueKind::Reference,
    }
}

/// The error for a value of the wrong kind.
pub open spec fn type_error(expected: ValueKind, v: StackValue) -> RuntimeError {
    RuntimeError::InvalidType { expected, actual: kind_of(v) }
}

/// The top of the stack as an int.
pub open spec fn top_int(s: Seq<StackValue>) -> Result<i32, RuntimeError> {
    if s.len() == 0 {
        Err(RuntimeError::StackUnderflow)
    } else {
        match s.last() {
            StackValue::Int(i) => Ok(i),
            v => Err(type_error(ValueKind::Int, v)),
        }
    }
}

/// The top of the stack as a long.
pub open spec fn top_long(s: Seq<StackValue>) -> Result<i64, RuntimeError> {
    if s.len() == 0 {
        Err(RuntimeError::StackUnderflow)
    } else {
        match s.last() {
            StackValue::Long(l) => Ok(l),
            v => Err(type_error(ValueKind::Long, v)),
        }
    }
}

/// The top of the stack as a reference.
pub open spec fn top_reference(s: Seq<StackValue>) -> Result<Option<usize>, RuntimeError> {
    if s.len() == 0 {
        Err(RuntimeError::StackUnderflow)
    } else {
        match s.last() {
            StackValue::Reference(r) => Ok(r),
            v => Err(type_error(ValueKind::Reference, v)),
        }
    }
}

/// The top of the stack, whatever its kind.
pub open spec fn top_value(s: Seq<StackValue>) -> Result<StackValue, RuntimeError> {
    if s.len() == 0 {
        Err(RuntimeError::StackUnderflow)
    } else {
        Ok(s.last())
    }
}

/// Pops an int.
pub(crate) fn pop_int(frame: &mut Frame) -> (r: Result<i32, RuntimeError>)
    requires
        old(frame).wf(),
    ensures
        final(frame).wf(),
        r == top_int(old(frame).operand_stack@),
        r is Ok ==> final(frame).operand_stack@ == old(frame).operand_stack@.drop_last(),
        final(frame).operand_stack.capacity() == old(frame).operand_stack.capacity(),
        final(frame).local_variables@ == old(frame).local_variables@,
{
    match frame.operand_stack.pop() {
        Some(StackValue::Int(i)) => Ok(i),
        Some(v) => Err(RuntimeError::InvalidType { expected: ValueKind::Int, actual: value_kind(&v) }),
        None => Err(RuntimeError::StackUnderflow),
    }
}

/// Pops a long.
pub(crate) fn pop_long(frame: &mut Frame) -> (r: Result<i64, RuntimeError>)
    requires
        old(frame).wf(),
    ensures
        final(frame).wf(),
        r == top_long(old(frame).operand_stack@),
        r is Ok ==> final(frame).operand_stack@ == old(frame).operand_stack@.drop_last(),
        final(frame).operand_stack.capacity() == old(frame).operand_stack.capacity(),
        final(frame).local_variables@ == old(frame).local_variables@,
{
    match frame.operand_stack.pop() {
        Some(StackValue::Long(l)) => Ok(l),
        Some(v) => Err(RuntimeError::InvalidType { expected: ValueKind::Long, actual: value_kind(&v) }),
        None => Err(RuntimeError::StackUnderflow),
    }
}

/// Pops a reference.
pub(crate) fn pop_reference(frame: &mut Frame) -> (r: Result<Option<usize>, RuntimeError>)
    requires
        old(frame).wf(),
    ensures
        final(frame).wf(),
        r == top_reference(old(frame).operand_stack@),
        r is Ok ==> final(frame).operand_stack@ == old(frame).operand_stack@.drop_last(),
        final(frame).operand_stack.capacity() == old(frame).operand_stack.capacity(),
        final(frame).local_variables@ == old(frame).local_variables@,
{
    match frame.operand_stack.pop() {
        Some(StackValue::Reference(r)) => Ok(r),
        Some(v) => Err(
            RuntimeError::InvalidType { expected: ValueKind::Reference, actual: value_kind(&v) },
        ),
        None => Err(RuntimeError::StackUnderflow),
    }
}

/// Pops a value of any kind.
pub(crate) fn pop_value(frame: &mut Frame) -> (r: Result<StackValue, RuntimeError>)
    requires
        old(frame).wf(),
    ensures
        final(frame).wf(),
        r == top_value(old(frame).operand_stack@),
        r is Ok ==> final(frame).operand_stack@ == old(frame).operand_stack@.drop_last(),
        final(frame).operand_stack.capacity() == old(frame).operand_stack.capacity(),
        final(frame).local_variables@ == old(frame).local_variables@,
{
    match frame.operand_stack.pop() {
        Some(v) => Ok(v),
        None => Err(RuntimeError::StackUnderflow),
    }
}

/// Pushes a value; fails when the stack is full.
pub(crate) fn push_value(frame: &mut Frame, v: StackValue) -> (r: Result<(), RuntimeError>)
    requires
        old(frame).wf(),
    ensures
        final(frame).wf(),
        final(frame).operand_stack.capacity() == old(frame).operand_stack.capacity(),
        final(frame).local_variables@ == old(frame).local_variables@,
        r is Ok <==> stack_depth(old(frame).operand_stack@.push(v)) <= old(
            frame,
        ).operand_stack.capacity(),
        r is Ok ==> final(frame).operand_stack@ == old(frame).operand_stack@.push(v),
        r is Err ==> r == Err::<(), RuntimeError>(RuntimeError::StackOverflow),
{
    proof {
        crate::executor::frame_stack::lemma_push_then_pop(frame.operand_stack@, v);
    }
    match frame.operand_stack.push(v) {
        Ok(()) => Ok(()),
        Err(_) => Err(RuntimeError::StackOverflow),
    }
}

/// The kind of a stack value.
pub fn value_kind(v: &StackValue) -> (r: ValueKind)
    ensures
        r == kind_of(*v),
{
    match v {
        StackValue::Int(_) => ValueKind::Int,
        StackValue::Long(_) => ValueKind::Long,
        StackValue::Float(_) => ValueKind::Float,
        StackValue::Double(_) => ValueKind::Double,
        StackValue::ReturnAddress(_) => ValueKind::ReturnAddress,
        StackValue::Reference(_) => ValueKind::Reference,
    }
}

// ---------------------------------------------------------------------------------------------
// Integer arithmetic

/// Division rounding toward zero, as the JVM divides.
pub open spec fn trunc_div(a: int, b: int) -> int {
    if a >= 0 && b > 0 {
        a / b
    } else if a >= 0 {
        -(a / (-b))
    } else if b > 0 {
        -((-a) / b)
    } else {
        (-a) / (-b)
    }
}

/// The remainder that goes with [`trunc_div`]: it has the sign of the dividend.
pub open spec fn trunc_rem(a: int, b: int) -> int {
    a - b * trunc_div(a, b)
}

/// Whether `r` equals `v` up to a multiple of 2^32: what an int operation gives when the
/// exact result does not fit.
pub open spec fn congruent_32(r: int, v: int) -> bool {
    (r - v) % 0x1_0000_0000 == 0
}

/// Whether `r` equals `v` up to a multiple of 2^64.
pub open spec fn congruent_64(r: int, v: int) -> bool {
    (r - v) % 0x1_0000_0000_0000_0000 == 0
}

/// Division rounding toward zero and its remainder: the quotient times the divisor plus the
/// remainder is the dividend, the remainder is smaller than the divisor in magnitude and has
/// the sign of the dividend (or is zero), and the quotient is no larger than the dividend in
/// magnitude.
pub proof fn lemma_trunc_division(a: int, b: int)
    requires
        b != 0,
    ensures
        b * trunc_div(a, b) + trunc_rem(a, b) == a,
        trunc_rem(a, b) == 0 || (trunc_rem(a, b) < 0) == (a < 0),
        -b < trunc_rem(a, b) < b || b < trunc_rem(a, b) < -b,
        -a <= trunc_div(a, b) <= a || a <= trunc_div(a, b) <= -a,
        (a >= 0) == (b > 0) ==> trunc_div(a, b) >= 0,
        (a >= 0) != (b > 0) ==> trunc_div(a, b) <= 0,
        b == 1 ==> trunc_div(a, b) == a,
        b == -1 ==> trunc_div(a, b) == -a,
        b >= 2 || b <= -2 ==> -a <= 2 * trunc_div(a, b) <= a || a <= 2 * trunc_div(a, b) <= -a,
{
    let m = if a >= 0 { a } else { -a };
    let n = if b > 0 { b } else { -b };
    vstd::arithmetic::div_mod::lemma_fundamental_div_mod(m, n);
    let q0 = m / n;
    let r0 = m % n;
    assert(0 <= r0 < n);
    assert(0 <= q0 <= m) by (nonlinear_arith)
        requires
            m == n * q0 + r0,
            0 <= r0,
            r0 < n,
            n >= 1,
            m >= 0,
    {
        assert(q0 >= 0) by (nonlinear_arith)
            requires
                m == n * q0 + r0,
                r0 < n,
                m >= 0,
                n >= 1,
        ;
    }
    if n >= 2 {
        assert(2 * q0 <= m) by (nonlinear_arith)
            requires
                m == n * q0 + r0,
                0 <= r0,
                q0 >= 0,
                n >= 2,
        ;
    }
    if n == 1 {
        assert(q0 == m) by (nonlinear_arith)
            requires
                m == n * q0 + r0,
                0 <= r0 < n,
                n == 1,
        ;
    }
    let q = trunc_div(a, b);
    if a >= 0 && b > 0 {
        assert(q == q0);
    } else if a >= 0 {
        assert(q == -q0);
        assert(b * q == n * q0) by (nonlinear_arith)
            requires
                b == -n,
                q == -q0,
        ;
    } else if b > 0 {
        assert(q == -q0);
        assert(b * q == -(n * q0)) by (nonlinear_arith)
            requires
                b == n,
                q == -q0,
        ;
    } else {
        assert(q == q0);
        assert(b * q == -(n * q0)) by (nonlinear_arith)
            requires
                b == -n,
                q == q0,
        ;
    }
}

/// The int that an instruction pushed onto `s`, when its result is `s` with one int more.
pub open spec fn pushed_int(e: Result<Seq<StackValue>, RuntimeError>, s: Seq<StackValue>) -> Option<int> {
    match e {
        Ok(u) => if u.len() == s.len() + 1 && u.drop_last() == s && u.last() is Int {
            Some(u.last()->Int_0 as int)
        } else {
            None
        },
        Err(_) => None,
    }
}

/// `s` with the ints `a` and then `b` pushed.
pub open spec fn with_ints(s: Seq<StackValue>, a: i32, b: i32) -> Seq<StackValue> {
    s.push(StackValue::Int(a)).push(StackValue::Int(b))
}

/// Two ints pushed onto `s` are popped back in the order they were pushed.
proof fn lemma_int_pair_of(s: Seq<StackValue>, a: i32, b: i32)
    ensures
        int_pair(with_ints(s, a, b)) == Ok::<(Seq<StackValue>, i32, i32), RuntimeError>((s, a, b)),
        top_int(s.push(StackValue::Int(a))) == Ok::<i32, RuntimeError>(a),
        s.push(StackValue::Int(a)).drop_last() == s,
        forall|x: StackValue| #[trigger] s.push(x).drop_last() == s,
{
    assert forall|x: StackValue| #[trigger] s.push(x).drop_last() == s by {
        assert(s.push(x).drop_last() =~= s);
    }
    let t = with_ints(s, a, b);
    assert(t.drop_last() =~= s.push(StackValue::Int(a)));
    assert(t.drop_last().drop_last() =~= s);
    assert(s.push(StackValue::Int(a)).drop_last() =~= s);
}

/// Int addition, subtraction, multiplication and negation as Java defines them: the result
/// is the int that equals the exact result up to a multiple of 2^32, so the exact result
/// itself when it fits. Each pops its operands (`a` pushed first, `b` on top) and pushes the
/// result.
pub proof fn lemma_int_wrapping_arithmetic(s: Seq<StackValue>, a: i32, b: i32)
    ensures
        ({
            let r = pushed_int(stack_effect(OpCode::Iadd, with_ints(s, a, b)), s);
            r is Some && congruent_32(r->0, a + b) && (i32::MIN <= a + b <= i32::MAX ==> r->0 == a + b)
        }),
        ({
            let r = pushed_int(stack_effect(OpCode::Isub, with_ints(s, a, b)), s);
            r is Some && congruent_32(r->0, a - b) && (i32::MIN <= a - b <= i32::MAX ==> r->0 == a - b)
        }),
        ({
            let r = pushed_int(stack_effect(OpCode::Imul, with_ints(s, a, b)), s);
            r is Some && congruent_32(r->0, a * b) && (i32::MIN <= a * b <= i32::MAX ==> r->0 == a * b)
        }),
        ({
            let r = pushed_int(stack_effect(OpCode::Ineg, s.push(StackValue::Int(a))), s);
            r is Some && congruent_32(r->0, -a) && (a != i32::MIN ==> r->0 == -a)
        }),
{
    lemma_int_pair_of(s, a, b);
    let m: int = 0x1_0000_0000;
    vstd::arithmetic::div_mod::lemma_mod_multiples_basic(-1, m);
    vstd::arithmetic::div_mod::lemma_mod_multiples_basic(0, m);
    vstd::arithmetic::div_mod::lemma_mod_multiples_basic(1, m);
    let sum = vstd::wrapping::i32_specs::wrapping_add(a, b);
    assert(congruent_32(sum as int, a + b)) by {
        assert(sum - (a + b) == 0 || sum - (a + b) == 1 * m || sum - (a + b) == (-1) * m);
    }
    let dif = vstd::wrapping::i32_specs::wrapping_sub(a, b);
    assert(congruent_32(dif as int, a - b)) by {
        assert(dif - (a - b) == 0 || dif - (a - b) == 1 * m || dif - (a - b) == (-1) * m);
    }
    let neg = vstd::wrapping::i32_specs::wrapping_sub(0, a);
    assert(congruent_32(neg as int, -a)) by {
        assert(neg - (0 - a) == 0 || neg - (0 - a) == 1 * m || neg - (0 - a) == (-1) * m);
    }
    let p = a * b;
    let sm = vstd::wrapping::i32_specs::signed_crop(p);
    vstd::arithmetic::div_mod::lemma_fundamental_div_mod(p, m);
    let k = p / m;
    if p % m > i32::MAX {
        vstd::arithmetic::div_mod::lemma_mod_multiples_basic(-k - 1, m);
        assert(sm - p == (-k - 1) * m);
    } else {
        vstd::arithmetic::div_mod::lemma_mod_multiples_basic(-k, m);
        assert(sm - p == (-k) * m);
    }
    assert(congruent_32(sm as int, p));
}

/// Int division as Java defines it: `idiv` rounds toward zero and `irem` gives the matching
/// remainder, which has the sign of the dividend and is smaller than the divisor in
/// magnitude; the smallest int divided by -1 gives itself with remainder 0; dividing by zero
/// is an error. Each pops its operands (`a` pushed first, `b` on top) and pushes the result.
pub proof fn lemma_int_division(s: Seq<StackValue>, a: i32, b: i32)
    ensures
        b == 0 ==> stack_effect(OpCode::Idiv, with_ints(s, a, b)) == Err::<Seq<StackValue>, RuntimeError>(
            RuntimeError::DivisionByZero,
        ),
        b == 0 ==> stack_effect(OpCode::Irem, with_ints(s, a, b)) == Err::<Seq<StackValue>, RuntimeError>(
            RuntimeError::DivisionByZero,
        ),
        b != 0 && !(a == i32::MIN && b == -1) ==> ({
            let q = pushed_int(stack_effect(OpCode::Idiv, with_ints(s, a, b)), s);
            let r = pushed_int(stack_effect(OpCode::Irem, with_ints(s, a, b)), s);
            &&& q is Some && r is Some
            &&& b * q->0 + r->0 == a
            &&& r->0 == 0 || (r->0 < 0) == (a < 0)
            &&& -b < r->0 < b || b < r->0 < -b
        }),
        a == i32::MIN && b == -1 ==> stack_effect(OpCode::Idiv, with_ints(s, a, b)) == Ok::<
            Seq<StackValue>,
            RuntimeError,
        >(s.push(StackValue::Int(i32::MIN))) && stack_effect(OpCode::Irem, with_ints(s, a, b)) == Ok::<
            Seq<StackValue>,
            RuntimeError,
        >(s.push(StackValue::Int(0))),
{
    lemma_int_pair_of(s, a, b);
    if b != 0 {
        lemma_trunc_division(a as int, b as int);
        if a == i32::MIN && b == -1 {
            assert(0x8000_0000int / 1 == 0x8000_0000int);
            assert(trunc_div(a as int, b as int) == 0x8000_0000);
            assert(trunc_rem(a as int, b as int) == 0);
            assert((0x8000_0000int) as i32 == i32::MIN) by (bit_vector);
        } else {
            let q = trunc_div(a as int, b as int);
            assert(i32::MIN <= q <= i32::MAX);
        }
    }
}

/// The value an instruction pushed onto `s`, when its result is `s` with one value more.
pub open spec fn pushed_value(e: Result<Seq<StackValue>, RuntimeError>, s: Seq<StackValue>) -> Option<StackValue> {
    match e {
        Ok(u) => if u.len() == s.len() + 1 && u.drop_last() == s {
            Some(u.last())
        } else {
            None
        },
        Err(_) => None,
    }
}

/// The conversions between ints and longs and the narrowing of ints, as Java defines them:
/// `i2b` keeps the low 8 bits with their sign (-128 to 127), `i2s` the low 16 bits with
/// their sign, `i2c` the low 16 bits without sign (0 to 65535), so each leaves an int that
/// already fits unchanged; `i2l` gives the long of the same value; `l2i` keeps the low 32
/// bits. Each pops its operand and pushes the result.
pub proof fn lemma_conversions(s: Seq<StackValue>, a: i32, l: i64)
    ensures
        pushed_value(stack_effect(OpCode::I2b, s.push(StackValue::Int(a))), s) matches Some(
            StackValue::Int(r),
        ) && -0x80 <= r <= 0x7f && r & 0xff == a & 0xff && (-0x80 <= a <= 0x7f ==> r == a),
        pushed_value(stack_effect(OpCode::I2s, s.push(StackValue::Int(a))), s) matches Some(
            StackValue::Int(r),
        ) && -0x8000 <= r <= 0x7fff && r & 0xffff == a & 0xffff && (-0x8000 <= a <= 0x7fff ==> r == a),
        pushed_value(stack_effect(OpCode::I2c, s.push(StackValue::Int(a))), s) matches Some(
            StackValue::Int(r),
        ) && 0 <= r <= 0xffff && r == a & 0xffff,
        pushed_value(stack_effect(OpCode::I2l, s.push(StackValue::Int(a))), s) matches Some(
            StackValue::Long(r),
        ) && r as int == a as int,
        pushed_value(stack_effect(OpCode::L2i, s.push(StackValue::Long(l))), s) matches Some(
            StackValue::Int(r),
        ) && (r as i64) & 0xffff_ffff == l & 0xffff_ffff && (i32::MIN <= l <= i32::MAX ==> r == l),
{
    assert forall|x: StackValue| #[trigger] s.push(x).drop_last() == s by {
        assert(s.push(x).drop_last() =~= s);
    }
    assert(s.push(StackValue::Int(a)).drop_last() =~= s);
    assert(s.push(StackValue::Long(l)).drop_last() =~= s);
    assert(-0x80 <= ((a as i8) as i32) <= 0x7f && ((a as i8) as i32) & 0xff == a & 0xff && (-0x80 <= a
        <= 0x7f ==> (a as i8) as i32 == a)) by (bit_vector);
    assert(-0x8000 <= ((a as i16) as i32) <= 0x7fff && ((a as i16) as i32) & 0xffff == a & 0xffff && (
    -0x8000 <= a <= 0x7fff ==> (a as i16) as i32 == a)) by (bit_vector);
    assert(0 <= ((a as u16) as i32) <= 0xffff && ((a as u16) as i32) == a & 0xffff) by (bit_vector);
    assert(((l as i32) as i64) & 0xffff_ffff == l & 0xffff_ffff && (-0x8000_0000 <= l <= 0x7fff_ffff
        ==> (l as i32) as i64 == l)) by (bit_vector);
}

/// `s` with the longs `a` and then `b` pushed.
pub open spec fn with_longs(s: Seq<StackValue>, a: i64, b: i64) -> Seq<StackValue> {
    s.push(StackValue::Long(a)).push(StackValue::Long(b))
}

/// Long arithmetic as Java defines it: `ladd`, `lsub` and `lmul` give the long that equals
/// the exact result up to a multiple of 2^64; `ldiv` rounds toward zero and `lrem` gives
/// the matching remainder with the sign of the dividend (the smallest long divided by -1
/// gives itself with remainder 0); `lcmp` pushes 1, 0 or -1 as `a` is greater than, equal
/// to or less than `b`. Each pops its operands (`a` pushed first, `b` on top) and pushes the
/// result.
pub proof fn lemma_long_arithmetic(s: Seq<StackValue>, a: i64, b: i64)
    ensures
        pushed_value(stack_effect(OpCode::Ladd, with_longs(s, a, b)), s) matches Some(StackValue::Long(r))
            && congruent_64(r as int, a + b) && (i64::MIN <= a + b <= i64::MAX ==> r == a + b),
        pushed_value(stack_effect(OpCode::Lsub, with_longs(s, a, b)), s) matches Some(StackValue::Long(r))
            && congruent_64(r as int, a - b) && (i64::MIN <= a - b <= i64::MAX ==> r == a - b),
        pushed_value(stack_effect(OpCode::Lmul, with_longs(s, a, b)), s) matches Some(StackValue::Long(r))
            && congruent_64(r as int, a * b) && (i64::MIN <= a * b <= i64::MAX ==> r == a * b),
        b == 0 ==> stack_effect(OpCode::Ldiv, with_longs(s, a, b)) == Err::<Seq<StackValue>, RuntimeError>(
            RuntimeError::DivisionByZero,
        ),
        b == 0 ==> stack_effect(OpCode::Lrem, with_longs(s, a, b)) == Err::<Seq<StackValue>, RuntimeError>(
            RuntimeError::DivisionByZero,
        ),
        b != 0 && !(a == i64::MIN && b == -1) ==> ({
            let q = pushed_value(stack_effect(OpCode::Ldiv, with_longs(s, a, b)), s);
            let r = pushed_value(stack_effect(OpCode::Lrem, with_longs(s, a, b)), s);
            &&& q is Some && (q->0) is Long
            &&& r is Some && (r->0) is Long
            &&& b * (q->0)->Long_0 + (r->0)->Long_0 == a
            &&& (r->0)->Long_0 == 0 || ((r->0)->Long_0 < 0) == (a < 0)
            &&& -b < (r->0)->Long_0 < b || b < (r->0)->Long_0 < -b
        }),
        a == i64::MIN && b == -1 ==> pushed_value(stack_effect(OpCode::Ldiv, with_longs(s, a, b)), s) == Some(
            StackValue::Long(i64::MIN),
        ) && pushed_value(stack_effect(OpCode::Lrem, with_longs(s, a, b)), s) == Some(StackValue::Long(0)),
{
    let t = with_longs(s, a, b);
    assert(t.drop_last() =~= s.push(StackValue::Long(a)));
    assert(t.drop_last().drop_last() =~= s);
    assert forall|x: StackValue| #[trigger] s.push(x).drop_last() == s by {
        assert(s.push(x).drop_last() =~= s);
    }
    let m: int = 0x1_0000_0000_0000_0000;
    vstd::arithmetic::div_mod::lemma_mod_multiples_basic(-1, m);
    vstd::arithmetic::div_mod::lemma_mod_multiples_basic(0, m);
    vstd::arithmetic::div_mod::lemma_mod_multiples_basic(1, m);
    let sum = vstd::wrapping::i64_specs::wrapping_add(a, b);
    assert(congruent_64(sum as int, a + b)) by {
        assert(sum - (a + b) == 0 || sum - (a + b) == 1 * m || sum - (a + b) == (-1) * m);
    }
    let dif = vstd::wrapping::i64_specs::wrapping_sub(a, b);
    assert(congruent_64(dif as int, a - b)) by {
        assert(dif - (a - b) == 0 || dif - (a - b) == 1 * m || dif - (a - b) == (-1) * m);
    }
    let p = a * b;
    let sm = vstd::wrapping::i64_specs::signed_crop(p);
    vstd::arithmetic::div_mod::lemma_fundamental_div_mod(p, m);
    let k = p / m;
    if p % m > i64::MAX {
        vstd::arithmetic::div_mod::lemma_mod_multiples_basic(-k - 1, m);
        assert(sm - p == (-k - 1) * m);
    } else {
        vstd::arithmetic::div_mod::lemma_mod_multiples_basic(-k, m);
        assert(sm - p == (-k) * m);
    }
    assert(congruent_64(sm as int, p));
    if b != 0 {
        lemma_trunc_division(a as int, b as int);
        if a == i64::MIN && b == -1 {
            assert(0x8000_0000_0000_0000int / 1 == 0x8000_0000_0000_0000int);
            assert(trunc_div(a as int, b as int) == 0x8000_0000_0000_0000);
            assert(trunc_rem(a as int, b as int) == 0);
            assert((0x8000_0000_0000_0000int) as i64 == i64::MIN) by (bit_vector);
        } else {
            let q = trunc_div(a as int, b as int);
            assert(i64::MIN <= q <= i64::MAX);
        }
    }
}

/// Comparing two longs pushes 1, 0 or -1 as `a` (pushed first) is greater than, equal to or
/// less than `b` (on top).
pub proof fn lemma_long_comparison(s: Seq<StackValue>, a: i64, b: i64)
    ensures
        pushed_value(stack_effect(OpCode::Lcmp, with_longs(s, a, b)), s) == Some(
            StackValue::Int(
                if a > b {
                    1i32
                } else if a < b {
                    -1i32
                } else {
                    0i32
                },
            ),
        ),
{
    let t = with_longs(s, a, b);
    assert(t.drop_last() =~= s.push(StackValue::Long(a)));
    assert(t.drop_last().drop_last() =~= s);
    assert forall|x: StackValue| #[trigger] s.push(x).drop_last() == s by {
        assert(s.push(x).drop_last() =~= s);
    }
}

/// The int shifts as Java defines them: only the low five bits of the distance count;
/// `ishl` by one doubles (wrapping), `ishr` by one halves rounding down and keeps the sign,
/// and `iushr` by one halves the operand's unsigned value, so its result is never negative.
pub proof fn lemma_int_shifts(a: i32, b: i32)
    ensures
        int_binary(OpCode::Ishl, a, b) == int_binary(OpCode::Ishl, a, b & 0x1f),
        int_binary(OpCode::Ishr, a, b) == int_binary(OpCode::Ishr, a, b & 0x1f),
        int_binary(OpCode::Iushr, a, b) == int_binary(OpCode::Iushr, a, b & 0x1f),
        int_binary(OpCode::Ishl, a, 1) == Ok::<i32, RuntimeError>(vstd::wrapping::i32_specs::wrapping_add(a, a)),
        int_binary(OpCode::Ishr, a, 1) matches Ok(r) && 2 * r <= a <= 2 * r + 1,
        int_binary(OpCode::Iushr, a, 1) matches Ok(r) && 0 <= r && 2 * r <= (if a < 0 {
            a + 0x1_0000_0000
        } else {
            a as int
        }) <= 2 * r + 1,
        int_binary(OpCode::Iushr, a, 0) == Ok::<i32, RuntimeError>(a),
        a >= 0 ==> int_binary(OpCode::Iushr, a, b) == int_binary(OpCode::Ishr, a, b),
{
    assert(((b & 0x1f) & 0x1f) == (b & 0x1f)) by (bit_vector);
    assert((1i32 & 0x1f) == 1i32) by (bit_vector);
    assert((0i32 & 0x1f) == 0i32) by (bit_vector);
    assert((a << 1u32) as int == (if a + a > i32::MAX {
        a + a - 0x1_0000_0000
    } else if a + a < i32::MIN {
        a + a + 0x1_0000_0000
    } else {
        a + a
    })) by (bit_vector);
    assert(2 * (a >> 1u32) <= a <= 2 * (a >> 1u32) + 1) by (bit_vector);
    assert(0 <= (((a as u32) >> 1u32) as i32) && 2 * (((a as u32) >> 1u32) as i32) <= (if a < 0 {
        a + 0x1_0000_0000
    } else {
        a as int
    }) <= 2 * (((a as u32) >> 1u32) as i32) + 1) by (bit_vector);
    assert((((a as u32) >> 0u32) as i32) == a) by (bit_vector);
    let sh = ((b & 0x1f) as u32);
    assert(sh < 32) by (bit_vector) requires sh == ((b & 0x1f) as u32);
    assert(a >= 0 && sh < 32 ==> (((a as u32) >> sh) as i32) == (a >> sh)) by (bit_vector)
        requires
            sh < 32,
    ;
}

/// The result of an int instruction with two operands.
pub open spec fn int_binary(op: OpCode, a: i32, b: i32) -> Result<i32, RuntimeError> {
    match op {
        OpCode::Iadd => Ok(vstd::wrapping::i32_specs::wrapping_add(a, b)),
        OpCode::Isub => Ok(vstd::wrapping::i32_specs::wrapping_sub(a, b)),
        OpCode::Imul => Ok(vstd::wrapping::i32_specs::wrapping_mul(a, b)),
        OpCode::Idiv => if b == 0 {
            Err(RuntimeError::DivisionByZero)
        } else {
            Ok(trunc_div(a as int, b as int) as i32)
        },
        OpCode::Irem => if b == 0 {
            Err(RuntimeError::DivisionByZero)
        } else {
            Ok(trunc_rem(a as int, b as int) as i32)
        },
        OpCode::Iand => Ok(a & b),
        OpCode::Ior => Ok(a | b),
        OpCode::Ixor => Ok(a ^ b),
        OpCode::Ishl => Ok(a << ((b & 0x1f) as u32)),
        OpCode::Ishr => Ok(a >> ((b & 0x1f) as u32)),
        OpCode::Iushr => Ok((((a as u32) >> ((b & 0x1f) as u32)) as i32)),
        _ => Err(RuntimeError::Unsupported),
    }
}

/// The result of a long instruction with two long operands.
pub open spec fn long_binary(op: OpCode, a: i64, b: i64) -> Result<StackValue, RuntimeError> {
    match op {
        OpCode::Ladd => Ok(StackValue::Long(vstd::wrapping::i64_specs::wrapping_add(a, b))),
        OpCode::Lsub => Ok(StackValue::Long(vstd::wrapping::i64_specs::wrapping_sub(a, b))),
        OpCode::Lmul => Ok(StackValue::Long(vstd::wrapping::i64_specs::wrapping_mul(a, b))),
        OpCode::Ldiv => if b == 0 {
            Err(RuntimeError::DivisionByZero)
        } else {
            Ok(StackValue::Long(long_quotient(a, b)))
        },
        OpCode::Lrem => if b == 0 {
            Err(RuntimeError::DivisionByZero)
        } else {
            Ok(StackValue::Long(long_remainder(a, b)))
        },
        OpCode::Land => Ok(StackValue::Long(a & b)),
        OpCode::Lor => Ok(StackValue::Long(a | b)),
        OpCode::Lxor => Ok(StackValue::Long(a ^ b)),
        OpCode::Lcmp => Ok(
            StackValue::Int(
                if a > b {
                    1i32
                } else if a == b {
                    0i32
                } else {
                    -1i32
                },
            ),
        ),
        _ => Err(RuntimeError::Unsupported),
    }
}

/// The quotient of two longs, rounded toward zero and wrapped to 64 bits.
pub open spec fn long_quotient(a: i64, b: i64) -> i64 {
    trunc_div(a as int, b as int) as i64
}

/// The remainder of two longs, with the sign of the dividend.
pub open spec fn long_remainder(a: i64, b: i64) -> i64 {
    trunc_rem(a as int, b as int) as i64
}

/// The result of a long shift by an int amount (only the low six bits count).
pub open spec fn long_shift(op: OpCode, a: i64, b: i32) -> i64 {
    match op {
        OpCode::Lshl => a << ((b & 0x3f) as u32),
        OpCode::Lshr => a >> ((b & 0x3f) as u32),
        _ => (((a as u64) >> ((b & 0x3f) as u32)) as i64),
    }
}

/// The result of an instruction with one int operand.
pub open spec fn int_unary(op: OpCode, a: i32) -> StackValue {
    match op {
        OpCode::Ineg => StackValue::Int(vstd::wrapping::i32_specs::wrapping_sub(0, a)),
        OpCode::I2b => StackValue::Int((a as i8) as i32),
        OpCode::I2c => StackValue::Int((a as u16) as i32),
        OpCode::I2s => StackValue::Int((a as i16) as i32),
        _ => StackValue::Long(a as i64),
    }
}

/// The result of an instruction with one long operand.
pub open spec fn long_unary(op: OpCode, a: i64) -> StackValue {
    match op {
        OpCode::Lneg => StackValue::Long(vstd::wrapping::i64_specs::wrapping_sub(0, a)),
        _ => StackValue::Int(a as i32),
    }
}

/// The two int operands on top of the stack (the second one on top) and the rest.
pub open spec fn int_pair(s: Seq<StackValue>) -> Result<(Seq<StackValue>, i32, i32), RuntimeError> {
    match top_int(s) {
        Err(e) => Err(e),
        Ok(b) => match top_int(s.drop_last()) {
            Err(e) => Err(e),
            Ok(a) => Ok((s.drop_last().drop_last(), a, b)),
        },
    }
}

/// The two long operands on top of the stack (the second one on top) and the rest.
pub open spec fn long_pair(s: Seq<StackValue>) -> Result<(Seq<StackValue>, i64, i64), RuntimeError> {
    match top_long(s) {
        Err(e) => Err(e),
        Ok(b) => match top_long(s.drop_last()) {
            Err(e) => Err(e),
            Ok(a) => Ok((s.drop_last().drop_last(), a, b)),
        },
    }
}

/// Whether an instruction only works on the operand stack and computes without floating
/// point numbers.
pub open spec fn is_stack_instruction(op: OpCode) -> bool {
    match op {
        OpCode::Iadd | OpCode::Isub | OpCode::Imul | OpCode::Idiv | OpCode::Irem | OpCode::Iand
        | OpCode::Ior | OpCode::Ixor | OpCode::Ishl | OpCode::Ishr | OpCode::Iushr => true,
        OpCode::Ladd | OpCode::Lsub | OpCode::Lmul | OpCode::Ldiv | OpCode::Lrem | OpCode::Land
        | OpCode::Lor | OpCode::Lxor | OpCode::Lcmp => true,
        OpCode::Lshl | OpCode::Lshr | OpCode::Lushr => true,
        OpCode::Ineg | OpCode::I2b | OpCode::I2c | OpCode::I2s | OpCode::I2l => true,
        OpCode::Lneg | OpCode::L2i => true,
        OpCode::Iconst(_) | OpCode::Bipush(_) | OpCode::Sipush(_) | OpCode::Lconst(_)
        | OpCode::Fconst(_) | OpCode::Dconst(_) => true,
        OpCode::Ldc(Ldc::Int(_)) | OpCode::Ldc(Ldc::Long(_)) | OpCode::Ldc(Ldc::Float(_))
        | OpCode::Ldc(Ldc::Double(_)) => true,
        OpCode::Dup(Dup::Dup) | OpCode::Nop => true,
        _ => false,
    }
}

/// The operand stack after an instruction that only works on the operand stack, before
/// the result is pushed against the stack's maximal depth.
pub open spec fn stack_effect(op: OpCode, s: Seq<StackValue>) -> Result<Seq<StackValue>, RuntimeError> {
    match op {
        OpCode::Iadd | OpCode::Isub | OpCode::Imul | OpCode::Idiv | OpCode::Irem | OpCode::Iand
        | OpCode::Ior | OpCode::Ixor | OpCode::Ishl | OpCode::Ishr | OpCode::Iushr => match int_pair(
            s,
        ) {
            Ok((rest, a, b)) => match int_binary(op, a, b) {
                Ok(v) => Ok(rest.push(StackValue::Int(v))),
                Err(e) => Err(e),
            },
            Err(e) => Err(e),
        },
        OpCode::Ladd | OpCode::Lsub | OpCode::Lmul | OpCode::Ldiv | OpCode::Lrem | OpCode::Land
        | OpCode::Lor | OpCode::Lxor | OpCode::Lcmp => match long_pair(s) {
            Ok((rest, a, b)) => match long_binary(op, a, b) {
                Ok(v) => Ok(rest.push(v)),
                Err(e) => Err(e),
            },
            Err(e) => Err(e),
        },
        OpCode::Lshl | OpCode::Lshr | OpCode::Lushr => match top_int(s) {
            Ok(b) => match top_long(s.drop_last()) {
                Ok(a) => Ok(s.drop_last().drop_last().push(StackValue::Long(long_shift(op, a, b)))),
                Err(e) => Err(e),
            },
            Err(e) => Err(e),
        },
        OpCode::Ineg | OpCode::I2b | OpCode::I2c | OpCode::I2s | OpCode::I2l => match top_int(s) {
            Ok(a) => Ok(s.drop_last().push(int_unary(op, a))),
            Err(e) => Err(e),
        },
        OpCode::Lneg | OpCode::L2i => match top_long(s) {
            Ok(a) => Ok(s.drop_last().push(long_unary(op, a))),
            Err(e) => Err(e),
        },
        OpCode::Iconst(v) | OpCode::Bipush(v) | OpCode::Sipush(v) => Ok(s.push(StackValue::Int(v))),
        OpCode::Lconst(v) => Ok(s.push(StackValue::Long(v))),
        OpCode::Fconst(v) => Ok(s.push(StackValue::Float(v))),
        OpCode::Dconst(v) => Ok(s.push(StackValue::Double(v))),
        OpCode::Ldc(Ldc::Int(v)) => Ok(s.push(StackValue::Int(v))),
        OpCode::Ldc(Ldc::Long(v)) => Ok(s.push(StackValue::Long(v))),
        OpCode::Ldc(Ldc::Float(v)) => Ok(s.push(StackValue::Float(v))),
        OpCode::Ldc(Ldc::Double(v)) => Ok(s.push(StackValue::Double(v))),
        OpCode::Dup(Dup::Dup) => match top_value(s) {
            Ok(v) => Ok(s.push(v)),
            Err(e) => Err(e),
        },
        _ => Ok(s),
    }
}

/// Division of two ints rounding toward zero; the quotient of the smallest int by -1
/// wraps around to the smallest int.
fn int_divide(a: i32, b: i32) -> (r: (i32, i32))
    requires
        b != 0,
    ensures
        r.0 == trunc_div(a as int, b as int) as i32,
        r.1 == trunc_rem(a as int, b as int) as i32,
{
    let x = a as i64;
    let y = b as i64;
    let ax: u64 = if x < 0 { (-x) as u64 } else { x as u64 };
    let ay: u64 = if y < 0 { (-y) as u64 } else { y as u64 };
    let q = ax / ay;
    assert(q <= ax) by (nonlinear_arith)
        requires
            ay >= 1,
            q == ax / ay,
    ;
    let signed_q: i64 = if (x < 0) != (y < 0) { -(q as i64) } else { q as i64 };
    assert(signed_q == trunc_div(a as int, b as int));
    assert(-0x4000_0000_0000_0000 <= y * signed_q <= 0x4000_0000_0000_0000) by (nonlinear_arith)
        requires
            -0x8000_0000 <= y <= 0x8000_0000,
            -0x8000_0000 <= signed_q <= 0x8000_0000,
    ;
    let rem: i64 = x - y * signed_q;
    (signed_q as i32, rem as i32)
}

/// Division of two longs rounding toward zero; the quotient of the smallest long by -1
/// wraps around to the smallest long.
fn long_divide(a: i64, b: i64) -> (r: (i64, i64))
    requires
        b != 0,
    ensures
        r.0 == long_quotient(a, b),
        r.1 == long_remainder(a, b),
{
    let x = a as i128;
    let y = b as i128;
    let ax: u128 = if x < 0 { (-x) as u128 } else { x as u128 };
    let ay: u128 = if y < 0 { (-y) as u128 } else { y as u128 };
    let q = ax / ay;
    assert(q <= ax) by (nonlinear_arith)
        requires
            ay >= 1,
            q == ax / ay,
    ;
    let signed_q: i128 = if (x < 0) != (y < 0) { -(q as i128) } else { q as i128 };
    assert(signed_q == trunc_div(a as int, b as int));
    assert(-0x4000_0000_0000_0000_0000_0000_0000_0000 <= y * signed_q
        <= 0x4000_0000_0000_0000_0000_0000_0000_0000) by (nonlinear_arith)
        requires
            -0x8000_0000_0000_0000 <= y <= 0x8000_0000_0000_0000,
            -0x8000_0000_0000_0000 <= signed_q <= 0x8000_0000_0000_0000,
    ;
    let rem: i128 = x - y * signed_q;
    (signed_q as i64, rem as i64)
}

/// The result of an int instruction with two operands.
fn int_binary_value(op: &OpCode, a: i32, b: i32) -> (r: Result<i32, RuntimeError>)
    ensures
        r == int_binary(*op, a, b),
{
    match op {
        OpCode::Iadd => Ok(a.wrapping_add(b)),
        OpCode::Isub => Ok(a.wrapping_sub(b)),
        OpCode::Imul => Ok(a.wrapping_mul(b)),
        OpCode::Idiv => if b == 0 {
            Err(RuntimeError::DivisionByZero)
        } else {
            Ok(int_divide(a, b).0)
        },
        OpCode::Irem => if b == 0 {
            Err(RuntimeError::DivisionByZero)
        } else {
            Ok(int_divide(a, b).1)
        },
        OpCode::Iand => Ok(a & b),
        OpCode::Ior => Ok(a | b),
        OpCode::Ixor => Ok(a ^ b),
        OpCode::Ishl | OpCode::Ishr | OpCode::Iushr => Ok(int_shift_value(op, a, b)),
        _ => Err(RuntimeError::Unsupported),
    }
}

/// The result of an int shift; only the low five bits of the amount count.
fn int_shift_value(op: &OpCode, a: i32, b: i32) -> (r: i32)
    requires
        *op is Ishl || *op is Ishr || *op is Iushr,
    ensures
        r == int_binary(*op, a, b)->Ok_0,
{
    let m = b & 0x1f;
    assert(0 <= m < 32) by (bit_vector)
        requires
            m == b & 0x1f,
    ;
    let s = m as u32;
    match op {
        OpCode::Ishl => a << s,
        OpCode::Ishr => a >> s,
        _ => ((a as u32) >> s) as i32,
    }
}

/// The result of a long instruction with two long operands.
fn long_binary_value(op: &OpCode, a: i64, b: i64) -> (r: Result<StackValue, RuntimeError>)
    ensures
        r == long_binary(*op, a, b),
{
    match op {
        OpCode::Ladd => Ok(StackValue::Long(a.wrapping_add(b))),
        OpCode::Lsub => Ok(StackValue::Long(a.wrapping_sub(b))),
        OpCode::Lmul => Ok(StackValue::Long(a.wrapping_mul(b))),
        OpCode::Ldiv => if b == 0 {
            Err(RuntimeError::DivisionByZero)
        } else {
            Ok(StackValue::Long(long_divide(a, b).0))
        },
        OpCode::Lrem => if b == 0 {
            Err(RuntimeError::DivisionByZero)
        } else {
            Ok(StackValue::Long(long_divide(a, b).1))
        },
        OpCode::Land => Ok(StackValue::Long(a & b)),
        OpCode::Lor => Ok(StackValue::Long(a | b)),
        OpCode::Lxor => Ok(StackValue::Long(a ^ b)),
        OpCode::Lcmp => Ok(
            StackValue::Int(
                if a > b {
                    1i32
                } else if a == b {
                    0i32
                } else {
                    -1i32
                },
            ),
        ),
        _ => Err(RuntimeError::Unsupported),
    }
}

/// The result of a long shift.
fn long_shift_value(op: &OpCode, a: i64, b: i32) -> (r: i64)
    ensures
        r == long_shift(*op, a, b),
{
    let m = b & 0x3f;
    assert(0 <= m < 64) by (bit_vector)
        requires
            m == b & 0x3f,
    ;
    let s = m as u32;
    match op {
        OpCode::Lshl => a << s,
        OpCode::Lshr => a >> s,
        _ => ((a as u64) >> s) as i64,
    }
}

/// The result of an instruction with one int operand.
fn int_unary_value(op: &OpCode, a: i32) -> (r: StackValue)
    ensures
        r == int_unary(*op, a),
{
    match op {
        OpCode::Ineg => StackValue::Int(0i32.wrapping_sub(a)),
        OpCode::I2b => StackValue::Int((a as i8) as i32),
        OpCode::I2c => StackValue::Int((a as u16) as i32),
        OpCode::I2s => StackValue::Int((a as i16) as i32),
        _ => StackValue::Long(a as i64),
    }
}

/// The result of an instruction with one long operand.
fn long_unary_value(op: &OpCode, a: i64) -> (r: StackValue)
    ensures
        r == long_unary(*op, a),
{
    match op {
        OpCode::Lneg => StackValue::Long(0i64.wrapping_sub(a)),
        _ => StackValue::Int(a as i32),
    }
}

/// Runs an instruction that only works on the operand stack.
pub fn execute_stack_instruction(op: &OpCode, frame: &mut Frame) -> (r: Result<Update, RuntimeError>)
    requires
        old(frame).wf(),
        is_stack_instruction(*op),
    ensures
        final(frame).wf(),
        final(frame).operand_stack.capacity() == old(frame).operand_stack.capacity(),
        final(frame).local_variables@ == old(frame).local_variables@,
        match stack_effect(*op, old(frame).operand_stack@) {
            Ok(s) => if stack_depth(s) <= old(frame).operand_stack.capacity() {
                r == Ok::<Update, RuntimeError>(Update::Continue) && final(frame).operand_stack@ == s
            } else {
                r == Err::<Update, RuntimeError>(RuntimeError::StackOverflow)
            },
            Err(e) => r == Err::<Update, RuntimeError>(e),
        },
{
    let ghost s0 = frame.operand_stack@;
    let result: StackValue = match op {
        OpCode::Iadd | OpCode::Isub | OpCode::Imul | OpCode::Idiv | OpCode::Irem | OpCode::Iand
        | OpCode::Ior | OpCode::Ixor | OpCode::Ishl | OpCode::Ishr | OpCode::Iushr => {
            let b = match pop_int(frame) {
                Ok(v) => v,
                Err(e) => return Err(e),
            };
            let a = match pop_int(frame) {
                Ok(v) => v,
                Err(e) => return Err(e),
            };
            match int_binary_value(op, a, b) {
                Ok(v) => StackValue::Int(v),
                Err(e) => return Err(e),
            }
        },
        OpCode::Ladd | OpCode::Lsub | OpCode::Lmul | OpCode::Ldiv | OpCode::Lrem | OpCode::Land
        | OpCode::Lor | OpCode::Lxor | OpCode::Lcmp => {
            let b = match pop_long(frame) {
                Ok(v) => v,
                Err(e) => return Err(e),
            };
            let a = match pop_long(frame) {
                Ok(v) => v,
                Err(e) => return Err(e),
            };
            match long_binary_value(op, a, b) {
                Ok(v) => v,
                Err(e) => return Err(e),
            }
        },
        OpCode::Lshl | OpCode::Lshr | OpCode::Lushr => {
            let b = match pop_int(frame) {
                Ok(v) => v,
                Err(e) => return Err(e),
            };
            let a = match pop_long(frame) {
                Ok(v) => v,
                Err(e) => return Err(e),
            };
            StackValue::Long(long_shift_value(op, a, b))
        },
        OpCode::Ineg | OpCode::I2b | OpCode::I2c | OpCode::I2s | OpCode::I2l => {
            let a = match pop_int(frame) {
                Ok(v) => v,
                Err(e) => return Err(e),
            };
            int_unary_value(op, a)
        },
        OpCode::Lneg | OpCode::L2i => {
            let a = match pop_long(frame) {
                Ok(v) => v,
                Err(e) => return Err(e),
            };
            long_unary_value(op, a)
        },
        OpCode::Iconst(v) | OpCode::Bipush(v) | OpCode::Sipush(v) => StackValue::Int(*v),
        OpCode::Lconst(v) => StackValue::Long(*v),
        OpCode::Fconst(v) => StackValue::Float(*v),
        OpCode::Dconst(v) => StackValue::Double(*v),
        OpCode::Ldc(Ldc::Int(v)) => StackValue::Int(*v),
        OpCode::Ldc(Ldc::Long(v)) => StackValue::Long(*v),
        OpCode::Ldc(Ldc::Float(v)) => StackValue::Float(*v),
        OpCode::Ldc(Ldc::Double(v)) => StackValue::Double(*v),
        OpCode::Dup(Dup::Dup) => {
            let v = match pop_value(frame) {
                Ok(v) => v,
                Err(e) => return Err(e),
            };
            proof {
                assert(frame.operand_stack@.push(v) =~= s0);
            }
            match push_value(frame, v) {
                Ok(()) => {},
                Err(e) => return Err(e),
            }
            v
        },
        _ => {
            return Ok(Update::Continue);
        },
    };
    match push_value(frame, result) {
        Ok(()) => Ok(Update::Continue),
        Err(e) => Err(e),
    }
}


// ---------------------------------------------------------------------------------------------
// Jumps

/// Whether two references denote the same object: objects are compared by identity, which
/// is their index on the heap.
pub fn trait_pointer_eq(p: usize, q: usize) -> (r: bool)
    ensures
        r == (p == q),
{
    p == q
}

/// Whether an instruction is a conditional or unconditional jump that the machine runs.
pub open spec fn is_jump_instruction(op: OpCode) -> bool {
    branch_parts(op) is Some && !(op is Jsr)
}

/// Whether a jump on one int operand is taken.
pub open spec fn int_condition(op: OpCode, a: i32) -> bool {
    match op {
        OpCode::IfEq(..) => a == 0,
        OpCode::IfNe(..) => a != 0,
        OpCode::IfLt(..) => a < 0,
        OpCode::IfGe(..) => a >= 0,
        OpCode::IfGt(..) => a > 0,
        _ => a <= 0,
    }
}

/// Whether a jump comparing two ints is taken.
pub open spec fn int_comparison(op: OpCode, a: i32, b: i32) -> bool {
    match op {
        OpCode::IficmpEq(..) => a == b,
        OpCode::IficmpNe(..) => a != b,
        OpCode::IficmpLt(..) => a < b,
        OpCode::IficmpGe(..) => a >= b,
        OpCode::IficmpGt(..) => a > b,
        _ => a <= b,
    }
}

/// The operand stack after a jump instruction, and whether the jump is taken. Two
/// references are the same when they denote the same object (or both are `null`).
pub open spec fn jump_effect(op: OpCode, s: Seq<StackValue>) -> Result<(Seq<StackValue>, bool), RuntimeError> {
    match op {
        OpCode::IfEq(..) | OpCode::IfNe(..) | OpCode::IfLt(..) | OpCode::IfGe(..)
        | OpCode::IfGt(..) | OpCode::IfLe(..) => match top_int(s) {
            Ok(a) => Ok((s.drop_last(), int_condition(op, a))),
            Err(e) => Err(e),
        },
        OpCode::IficmpEq(..) | OpCode::IficmpNe(..) | OpCode::IficmpLt(..)
        | OpCode::IficmpGe(..) | OpCode::IficmpGt(..) | OpCode::IficmpLe(..) => match int_pair(s) {
            Ok((rest, a, b)) => Ok((rest, int_comparison(op, a, b))),
            Err(e) => Err(e),
        },
        OpCode::IfacmpEq(..) | OpCode::IfacmpNe(..) => match top_reference(s) {
            Ok(b) => match top_reference(s.drop_last()) {
                Ok(a) => Ok(
                    (s.drop_last().drop_last(), if op is IfacmpEq {
                        a == b
                    } else {
                        a != b
                    }),
                ),
                Err(e) => Err(e),
            },
            Err(e) => Err(e),
        },
        OpCode::IfNull(..) | OpCode::IfNonNull(..) => match top_reference(s) {
            Ok(a) => Ok((s.drop_last(), if op is IfNull {
                a is None
            } else {
                a is Some
            })),
            Err(e) => Err(e),
        },
        _ => Ok((s, true)),
    }
}

/// Whether a jump instruction, on the stack `before`, pops to `after` and jumps (or not) as
/// `taken` says, to its own distance and direction.
pub open spec fn jumps_as(op: OpCode, before: Seq<StackValue>, after: Seq<StackValue>, taken: bool) -> bool {
    jump_effect(op, before) == Ok::<(Seq<StackValue>, bool), RuntimeError>((after, taken))
}

/// The conditions of the jumps on one int, as Java states them: `ifeq` jumps when the int is
/// zero, `ifne` when it is not, `iflt`, `ifge`, `ifgt` and `ifle` when it is below, at least,
/// above or at most zero. Each pops the int.
pub proof fn lemma_int_jumps(s: Seq<StackValue>, a: i32, o: usize, d: OffsetDirection)
    ensures
        jumps_as(OpCode::IfEq(o, d), s.push(StackValue::Int(a)), s, a == 0),
        jumps_as(OpCode::IfNe(o, d), s.push(StackValue::Int(a)), s, a != 0),
        jumps_as(OpCode::IfLt(o, d), s.push(StackValue::Int(a)), s, a < 0),
        jumps_as(OpCode::IfGe(o, d), s.push(StackValue::Int(a)), s, a >= 0),
        jumps_as(OpCode::IfGt(o, d), s.push(StackValue::Int(a)), s, a > 0),
        jumps_as(OpCode::IfLe(o, d), s.push(StackValue::Int(a)), s, a <= 0),
{
    assert(s.push(StackValue::Int(a)).drop_last() =~= s);
}

/// The conditions of the jumps comparing two ints, as Java states them, with `a` pushed
/// first and `b` on top: `if_icmpeq` jumps when `a == b`, `if_icmpne` when `a != b`,
/// `if_icmplt` when `a < b`, `if_icmpge` when `a >= b` (so also when they are equal),
/// `if_icmpgt` when `a > b` and `if_icmple` when `a <= b`. Each pops both ints.
pub proof fn lemma_int_comparison_jumps(s: Seq<StackValue>, a: i32, b: i32, o: usize, d: OffsetDirection)
    ensures
        jumps_as(OpCode::IficmpEq(o, d), s.push(StackValue::Int(a)).push(StackValue::Int(b)), s, a == b),
        jumps_as(OpCode::IficmpNe(o, d), s.push(StackValue::Int(a)).push(StackValue::Int(b)), s, a != b),
        jumps_as(OpCode::IficmpLt(o, d), s.push(StackValue::Int(a)).push(StackValue::Int(b)), s, a < b),
        jumps_as(OpCode::IficmpGe(o, d), s.push(StackValue::Int(a)).push(StackValue::Int(b)), s, a >= b),
        jumps_as(OpCode::IficmpGt(o, d), s.push(StackValue::Int(a)).push(StackValue::Int(b)), s, a > b),
        jumps_as(OpCode::IficmpLe(o, d), s.push(StackValue::Int(a)).push(StackValue::Int(b)), s, a <= b),
{
    let t = s.push(StackValue::Int(a)).push(StackValue::Int(b));
    assert(t.drop_last() =~= s.push(StackValue::Int(a)));
    assert(t.drop_last().drop_last() =~= s);
}

/// The conditions of the jumps on references: `if_acmpeq` jumps when both denote the same
/// object (or both are `null`), `if_acmpne` when they do not, `ifnull` when the reference is
/// `null` and `ifnonnull` when it is not. `goto` always jumps and leaves the stack alone.
pub proof fn lemma_reference_jumps(
    s: Seq<StackValue>,
    x: Option<usize>,
    y: Option<usize>,
    o: usize,
    d: OffsetDirection,
)
    ensures
        jumps_as(
            OpCode::IfacmpEq(o, d),
            s.push(StackValue::Reference(x)).push(StackValue::Reference(y)),
            s,
            x == y,
        ),
        jumps_as(
            OpCode::IfacmpNe(o, d),
            s.push(StackValue::Reference(x)).push(StackValue::Reference(y)),
            s,
            x != y,
        ),
        jumps_as(OpCode::IfNull(o, d), s.push(StackValue::Reference(x)), s, x is None),
        jumps_as(OpCode::IfNonNull(o, d), s.push(StackValue::Reference(x)), s, x is Some),
        jumps_as(OpCode::Goto(o, d), s, s, true),
{
    let t = s.push(StackValue::Reference(x)).push(StackValue::Reference(y));
    assert(t.drop_last() =~= s.push(StackValue::Reference(x)));
    assert(t.drop_last().drop_last() =~= s);
    assert(s.push(StackValue::Reference(x)).drop_last() =~= s);
}

/// Every jump goes its own distance in its own direction.
pub proof fn lemma_jump_targets(o: usize, d: OffsetDirection)
    ensures
        branch_parts(OpCode::IfEq(o, d)) == Some((o, d)),
        branch_parts(OpCode::IfNe(o, d)) == Some((o, d)),
        branch_parts(OpCode::IfLt(o, d)) == Some((o, d)),
        branch_parts(OpCode::IfGe(o, d)) == Some((o, d)),
        branch_parts(OpCode::IfGt(o, d)) == Some((o, d)),
        branch_parts(OpCode::IfLe(o, d)) == Some((o, d)),
        branch_parts(OpCode::IficmpEq(o, d)) == Some((o, d)),
        branch_parts(OpCode::IficmpNe(o, d)) == Some((o, d)),
        branch_parts(OpCode::IficmpLt(o, d)) == Some((o, d)),
        branch_parts(OpCode::IficmpGe(o, d)) == Some((o, d)),
        branch_parts(OpCode::IficmpGt(o, d)) == Some((o, d)),
        branch_parts(OpCode::IficmpLe(o, d)) == Some((o, d)),
        branch_parts(OpCode::IfacmpEq(o, d)) == Some((o, d)),
        branch_parts(OpCode::IfacmpNe(o, d)) == Some((o, d)),
        branch_parts(OpCode::IfNull(o, d)) == Some((o, d)),
        branch_parts(OpCode::IfNonNull(o, d)) == Some((o, d)),
        branch_parts(OpCode::Goto(o, d)) == Some((o, d)),
{
}

/// Runs a jump instruction.
pub fn execute_jump(op: &OpCode, frame: &mut Frame) -> (r: Result<Update, RuntimeError>)
    requires
        old(frame).wf(),
        is_jump_instruction(*op),
    ensures
        final(frame).wf(),
        final(frame).operand_stack.capacity() == old(frame).operand_stack.capacity(),
        final(frame).local_variables@ == old(frame).local_variables@,
        match jump_effect(*op, old(frame).operand_stack@) {
            Ok((s, taken)) => final(frame).operand_stack@ == s && r == Ok::<Update, RuntimeError>(
                if taken {
                    Update::GoTo((branch_parts(*op)->0).0, (branch_parts(*op)->0).1)
                } else {
                    Update::Continue
                },
            ),
            Err(e) => r == Err::<Update, RuntimeError>(e),
        },
{
    let (offset, direction) = match op {
        OpCode::IfEq(o, d) | OpCode::IfNe(o, d) | OpCode::IfLt(o, d) | OpCode::IfGe(o, d)
        | OpCode::IfGt(o, d) | OpCode::IfLe(o, d) | OpCode::IficmpEq(o, d)
        | OpCode::IficmpNe(o, d) | OpCode::IficmpLt(o, d) | OpCode::IficmpGe(o, d)
        | OpCode::IficmpGt(o, d) | OpCode::IficmpLe(o, d) | OpCode::IfacmpEq(o, d)
        | OpCode::IfacmpNe(o, d) | OpCode::Goto(o, d) | OpCode::Jsr(o, d) | OpCode::IfNull(o, d)
        | OpCode::IfNonNull(o, d) => (*o, *d),
        _ => (0, OffsetDirection::Forward),
    };
    let taken = match op {
        OpCode::IfEq(..) | OpCode::IfNe(..) | OpCode::IfLt(..) | OpCode::IfGe(..)
        | OpCode::IfGt(..) | OpCode::IfLe(..) => {
            let a = match pop_int(frame) {
                Ok(v) => v,
                Err(e) => return Err(e),
            };
            match op {
                OpCode::IfEq(..) => a == 0,
                OpCode::IfNe(..) => a != 0,
                OpCode::IfLt(..) => a < 0,
                OpCode::IfGe(..) => a >= 0,
                OpCode::IfGt(..) => a > 0,
                _ => a <= 0,
            }
        },
        OpCode::IficmpEq(..) | OpCode::IficmpNe(..) | OpCode::IficmpLt(..)
        | OpCode::IficmpGe(..) | OpCode::IficmpGt(..) | OpCode::IficmpLe(..) => {
            let b = match pop_int(frame) {
                Ok(v) => v,
                Err(e) => return Err(e),
            };
            let a = match pop_int(frame) {
                Ok(v) => v,
                Err(e) => return Err(e),
            };
            match op {
                OpCode::IficmpEq(..) => a == b,
                OpCode::IficmpNe(..) => a != b,
                OpCode::IficmpLt(..) => a < b,
                OpCode::IficmpGe(..) => a >= b,
                OpCode::IficmpGt(..) => a > b,
                _ => a <= b,
            }
        },
        OpCode::IfacmpEq(..) | OpCode::IfacmpNe(..) => {
            let b = match pop_reference(frame) {
                Ok(v) => v,
                Err(e) => return Err(e),
            };
            let a = match pop_reference(frame) {
                Ok(v) => v,
                Err(e) => return Err(e),
            };
            let same = match (a, b) {
                (Some(x), Some(y)) => trait_pointer_eq(x, y),
                (None, None) => true,
                _ => false,
            };
            if let OpCode::IfacmpEq(..) = op {
                same
            } else {
                !same
            }
        },
        OpCode::IfNull(..) | OpCode::IfNonNull(..) => {
            let a = match pop_reference(frame) {
                Ok(v) => v,
                Err(e) => return Err(e),
            };
            if let OpCode::IfNull(..) = op {
                a.is_none()
            } else {
                a.is_some()
            }
        },
        _ => true,
    };
    if taken {
        Ok(Update::GoTo(offset, direction))
    } else {
        Ok(Update::Continue)
    }
}

// ---------------------------------------------------------------------------------------------
// Local variables

/// Whether an instruction reads or writes local variables.
pub open spec fn is_local_instruction(op: OpCode) -> bool {
    match op {
        OpCode::Aload(_) | OpCode::Dload(_) | OpCode::Fload(_) | OpCode::Iload(_)
        | OpCode::Lload(_) => true,
        OpCode::Astore(_) | OpCode::Dstore(_) | OpCode::Fstore(_) | OpCode::Istore(_)
        | OpCode::Lstore(_) => true,
        OpCode::Iinc { .. } => true,
        _ => false,
    }
}

/// The local variables and operand stack after an instruction that reads or writes local
/// variables, before the loaded value is pushed against the stack's maximal depth. Loads
/// and stores do not look at the kind of the value.
pub open spec fn local_effect(op: OpCode, l: Seq<VariableValue>, s: Seq<StackValue>) -> Result<
    (Seq<VariableValue>, Seq<StackValue>),
    RuntimeError,
> {
    match op {
        OpCode::Aload(i) | OpCode::Dload(i) | OpCode::Fload(i) | OpCode::Iload(i)
        | OpCode::Lload(i) => if readable(l, i as int) && variable_to_stack(
            spec_get(l, i as int),
        ) is Some {
            Ok((l, s.push(variable_to_stack(spec_get(l, i as int))->0)))
        } else {
            Err(RuntimeError::InvalidLocalVariable(i))
        },
        OpCode::Astore(i) | OpCode::Dstore(i) | OpCode::Fstore(i) | OpCode::Istore(i)
        | OpCode::Lstore(i) => match top_value(s) {
            Ok(v) => if writable(l, i as int, stack_to_variable(v)) {
                Ok((spec_set(l, i as int, stack_to_variable(v)), s.drop_last()))
            } else {
                Err(RuntimeError::InvalidLocalVariable(i))
            },
            Err(e) => Err(e),
        },
        OpCode::Iinc { index, constant } => if readable(l, index as int) {
            match spec_get(l, index as int) {
                VariableValueOrValue::Int(a) => Ok(
                    (
                        spec_set(
                            l,
                            index as int,
                            VariableValueOrValue::Int(
                                vstd::wrapping::i32_specs::wrapping_add(a, constant),
                            ),
                        ),
                        s,
                    ),
                ),
                _ => Err(
                    RuntimeError::InvalidType { expected: ValueKind::Int, actual: ValueKind::Invalid },
                ),
            }
        } else {
            Err(RuntimeError::InvalidLocalVariable(index))
        },
        _ => Ok((l, s)),
    }
}

/// Whether `op` stores the top of the stack into local variable `i`.
pub open spec fn stores_to(op: OpCode, i: usize) -> bool {
    ||| op == OpCode::Istore(i)
    ||| op == OpCode::Lstore(i)
    ||| op == OpCode::Fstore(i)
    ||| op == OpCode::Dstore(i)
    ||| op == OpCode::Astore(i)
}

/// Whether `op` loads local variable `i` onto the stack.
pub open spec fn loads_from(op: OpCode, i: usize) -> bool {
    ||| op == OpCode::Iload(i)
    ||| op == OpCode::Lload(i)
    ||| op == OpCode::Fload(i)
    ||| op == OpCode::Dload(i)
    ||| op == OpCode::Aload(i)
}

/// A store into local variable `i` followed by a load of `i` gives the stored value back,
/// whatever its kind: the store takes `v` off the stack and leaves the local variables
/// `spec_set(l, i, v)`, and the load puts `v` back on top and leaves them as they are. The
/// store only needs the slot (two slots for a long or a double) to exist. The stack holds
/// as many values after the load as before the store, so the load fits in it.
pub proof fn lemma_store_then_load(
    store: OpCode,
    load: OpCode,
    i: usize,
    l: Seq<VariableValue>,
    s: Seq<StackValue>,
    v: StackValue,
)
    requires
        stores_to(store, i),
        loads_from(load, i),
        writable(l, i as int, stack_to_variable(v)),
    ensures
        local_effect(store, l, s.push(v)) == Ok::<(Seq<VariableValue>, Seq<StackValue>), RuntimeError>(
            (spec_set(l, i as int, stack_to_variable(v)), s),
        ),
        local_effect(load, spec_set(l, i as int, stack_to_variable(v)), s) == Ok::<
            (Seq<VariableValue>, Seq<StackValue>),
            RuntimeError,
        >((spec_set(l, i as int, stack_to_variable(v)), s.push(v))),
{
    assert(s.push(v).drop_last() =~= s);
    assert(top_value(s.push(v)) == Ok::<StackValue, RuntimeError>(v));
    crate::executor::local_variables::lemma_get_after_set(l, i as int, stack_to_variable(v));
    assert(variable_to_stack(stack_to_variable(v)) == Some(v));
}

/// `iinc` adds its constant to the int in a local variable, wrapping as int addition does:
/// afterwards the variable reads back as the int equal to the old value plus the constant up
/// to a multiple of 2^32 (exactly that sum when it fits); the stack and the variables away
/// from it are unchanged. A variable that holds no int is refused.
pub proof fn lemma_iinc_adds(l: Seq<VariableValue>, s: Seq<StackValue>, index: usize, constant: i32)
    requires
        readable(l, index as int),
    ensures
        spec_get(l, index as int) is Int ==> ({
            let x = spec_get(l, index as int)->Int_0;
            let e = local_effect(OpCode::Iinc { index, constant }, l, s);
            let l2 = e->Ok_0.0;
            &&& e is Ok && e->Ok_0.1 == s
            &&& l2.len() == l.len() && readable(l2, index as int)
            &&& spec_get(l2, index as int) is Int
            &&& congruent_32(spec_get(l2, index as int)->Int_0 as int, x + constant)
            &&& i32::MIN <= x + constant <= i32::MAX ==> spec_get(l2, index as int)->Int_0 == x + constant
            &&& forall|o: int|
                0 <= o < l.len() && (o < index - 1 || o > index + 1) ==> #[trigger] l2[o] == l[o]
        }),
        !(spec_get(l, index as int) is Int) ==> local_effect(OpCode::Iinc { index, constant }, l, s) is Err,
{
    if let VariableValueOrValue::Int(x) = spec_get(l, index as int) {
        let y = vstd::wrapping::i32_specs::wrapping_add(x, constant);
        let v = VariableValueOrValue::Int(y);
        crate::executor::local_variables::lemma_get_after_set(l, index as int, v);
        assert forall|o: int| 0 <= o < l.len() && (o < index - 1 || o > index + 1) implies #[trigger] spec_set(
            l,
            index as int,
            v,
        )[o] == l[o] by {
            crate::executor::local_variables::lemma_set_elsewhere(l, index as int, v, o);
        }
        let m: int = 0x1_0000_0000;
        vstd::arithmetic::div_mod::lemma_mod_multiples_basic(-1, m);
        vstd::arithmetic::div_mod::lemma_mod_multiples_basic(0, m);
        vstd::arithmetic::div_mod::lemma_mod_multiples_basic(1, m);
        assert(congruent_32(y as int, x + constant)) by {
            assert(y - (x + constant) == 0 || y - (x + constant) == 1 * m || y - (x + constant) == (-1) * m);
        }
    }
}

/// Runs an instruction that reads or writes local variables.
pub fn execute_local(op: &OpCode, frame: &mut Frame) -> (r: Result<Update, RuntimeError>)
    requires
        old(frame).wf(),
        is_local_instruction(*op),
    ensures
        final(frame).wf(),
        final(frame).operand_stack.capacity() == old(frame).operand_stack.capacity(),
        match local_effect(*op, old(frame).local_variables@, old(frame).operand_stack@) {
            Ok((l, s)) => if stack_depth(s) <= old(frame).operand_stack.capacity() {
                r == Ok::<Update, RuntimeError>(Update::Continue) && final(frame).local_variables@
                    == l && final(frame).operand_stack@ == s
            } else {
                r == Err::<Update, RuntimeError>(RuntimeError::StackOverflow)
            },
            Err(e) => r == Err::<Update, RuntimeError>(e),
        },
{
    match op {
        OpCode::Aload(i) | OpCode::Dload(i) | OpCode::Fload(i) | OpCode::Iload(i)
        | OpCode::Lload(i) => {
            let i = *i;
            if !frame.local_variables.can_get(i) {
                return Err(RuntimeError::InvalidLocalVariable(i));
            }
            let v = match frame.local_variables.get(i).to_stack_value() {
                Some(v) => v,
                None => return Err(RuntimeError::InvalidLocalVariable(i)),
            };
            match push_value(frame, v) {
                Ok(()) => Ok(Update::Continue),
                Err(e) => Err(e),
            }
        },
        OpCode::Astore(i) | OpCode::Dstore(i) | OpCode::Fstore(i) | OpCode::Istore(i)
        | OpCode::Lstore(i) => {
            let i = *i;
            let v = match pop_value(frame) {
                Ok(v) => v,
                Err(e) => return Err(e),
            };
            let value = VariableValueOrValue::from_stack_value(v);
            let n = frame.local_variables.len();
            let fits = match value {
                VariableValueOrValue::Long(_) | VariableValueOrValue::Double(_) => i < n && i
                    < n - 1,
                _ => i < n,
            };
            if !fits {
                return Err(RuntimeError::InvalidLocalVariable(i));
            }
            frame.local_variables.set(i, value);
            Ok(Update::Continue)
        },
        OpCode::Iinc { index, constant } => {
            let index = *index;
            if !frame.local_variables.can_get(index) {
                return Err(RuntimeError::InvalidLocalVariable(index));
            }
            match frame.local_variables.get(index) {
                VariableValueOrValue::Int(a) => {
                    frame.local_variables.set(
                        index,
                        VariableValueOrValue::Int(a.wrapping_add(*constant)),
                    );
                    Ok(Update::Continue)
                },
                _ => Err(
                    RuntimeError::InvalidType { expected: ValueKind::Int, actual: ValueKind::Invalid },
                ),
            }
        },
        _ => Ok(Update::Continue),
    }
}

// ---------------------------------------------------------------------------------------------
// Returns

/// Whether an instruction returns from the current method.
pub open spec fn is_return_instruction(op: OpCode) -> bool {
    match op {
        OpCode::Ireturn | OpCode::Lreturn | OpCode::Freturn | OpCode::Dreturn | OpCode::Areturn
        | OpCode::Return => true,
        _ => false,
    }
}

/// The value a return instruction returns, taken from the top of the stack.
pub open spec fn return_effect(op: OpCode, s: Seq<StackValue>) -> Result<ReturnValue, RuntimeError> {
    match op {
        OpCode::Ireturn => match top_int(s) {
            Ok(v) => Ok(ReturnValue::Int(v)),
            Err(e) => Err(e),
        },
        OpCode::Lreturn => match top_long(s) {
            Ok(v) => Ok(ReturnValue::Long(v)),
            Err(e) => Err(e),
        },
        OpCode::Areturn => match top_reference(s) {
            Ok(v) => Ok(ReturnValue::Reference(v)),
            Err(e) => Err(e),
        },
        OpCode::Freturn => match top_value(s) {
            Ok(StackValue::Float(v)) => Ok(ReturnValue::Float(v)),
            Ok(v) => Err(type_error(ValueKind::Float, v)),
            Err(e) => Err(e),
        },
        OpCode::Dreturn => match top_value(s) {
            Ok(StackValue::Double(v)) => Ok(ReturnValue::Double(v)),
            Ok(v) => Err(type_error(ValueKind::Double, v)),
            Err(e) => Err(e),
        },
        _ => Ok(ReturnValue::Void),
    }
}

/// Runs a return instruction.
pub fn execute_return(op: &OpCode, frame: &mut Frame) -> (r: Result<Update, RuntimeError>)
    requires
        old(frame).wf(),
        is_return_instruction(*op),
    ensures
        final(frame).wf(),
        final(frame).operand_stack.capacity() == old(frame).operand_stack.capacity(),
        final(frame).local_variables@ == old(frame).local_variables@,
        match return_effect(*op, old(frame).operand_stack@) {
            Ok(v) => r == Ok::<Update, RuntimeError>(Update::Return(v)),
            Err(e) => r == Err::<Update, RuntimeError>(e),
        },
{
    let value = match op {
        OpCode::Ireturn => match pop_int(frame) {
            Ok(v) => ReturnValue::Int(v),
            Err(e) => return Err(e),
        },
        OpCode::Lreturn => match pop_long(frame) {
            Ok(v) => ReturnValue::Long(v),
            Err(e) => return Err(e),
        },
        OpCode::Areturn => match pop_reference(frame) {
            Ok(v) => ReturnValue::Reference(v),
            Err(e) => return Err(e),
        },
        OpCode::Freturn => match pop_value(frame) {
            Ok(StackValue::Float(v)) => ReturnValue::Float(v),
            Ok(v) => return Err(
                RuntimeError::InvalidType { expected: ValueKind::Float, actual: value_kind(&v) },
            ),
            Err(e) => return Err(e),
        },
        OpCode::Dreturn => match pop_value(frame) {
            Ok(StackValue::Double(v)) => ReturnValue::Double(v),
            Ok(v) => return Err(
                RuntimeError::InvalidType { expected: ValueKind::Double, actual: value_kind(&v) },
            ),
            Err(e) => return Err(e),
        },
        _ => ReturnValue::Void,
    };
    Ok(Update::Return(value))
}

// ---------------------------------------------------------------------------------------------
// Floating point

/// Whether an instruction computes with floating point numbers. The machine leaves those
/// to the program that runs it.
pub open spec fn is_float_instruction(op: OpCode) -> bool {
    match op {
        OpCode::D2f | OpCode::D2i | OpCode::D2l | OpCode::Dadd | OpCode::Dcmp(_) | OpCode::Ddiv
        | OpCode::Dmul | OpCode::Dneg | OpCode::Drem | OpCode::Dsub | OpCode::F2d | OpCode::F2i
        | OpCode::F2l | OpCode::Fadd | OpCode::Fcmp(_) | OpCode::Fdiv | OpCode::Fmul
        | OpCode::Fneg | OpCode::Frem | OpCode::Fsub | OpCode::I2d | OpCode::I2f | OpCode::L2d
        | OpCode::L2f => true,
        _ => false,
    }
}

} // verus!
