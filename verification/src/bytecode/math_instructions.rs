//! Arithmetic on ints and longs. As the JVM demands, results wrap around on
//! overflow.
use vstd::prelude::*;

use crate::bytecode::{
    only_stack_changed, pop_int, pop_long, popped, spec_pop_int,
    spec_pop_long, stack_usable, unbox,
};
use crate::jvm_model::{JvmError, JvmResult, JvmStackFrame, JvmType, JvmValue, type_error};

verus! {

/// A binary operation on two ints.
#[derive(Debug, Clone, Copy, PartialEq, Eq, Structural)]
pub enum IntOp {
    Add,
    Sub,
    Mul,
    Div,
    Rem,
}

/// A binary operation on two longs.
#[derive(Debug, Clone, Copy, PartialEq, Eq, Structural)]
pub enum LongOp {
    Add,
    And,
}

/// `a op b` on ints; division and remainder truncate towards zero.
pub open spec fn int_op(op: IntOp, a: i32, b: i32) -> i32 {
    match op {
        IntOp::Add => a.wrapping_add(b),
        IntOp::Sub => a.wrapping_sub(b),
        IntOp::Mul => a.wrapping_mul(b),
        IntOp::Div => a.checked_div(b).unwrap(),
        IntOp::Rem => a.checked_rem(b).unwrap(),
    }
}

/// `a op b` on longs.
pub open spec fn long_op(op: LongOp, a: i64, b: i64) -> i64 {
    match op {
        LongOp::Add => a.wrapping_add(b),
        LongOp::And => a & b,
    }
}

/// A long shifted left by the low six bits of an int.
pub open spec fn long_shl(a: i64, b: i32) -> i64 {
    a << ((b & 63) as u32)
}

/// The outcome and the operand stack after taking `b` then `a` off the stack
/// and pushing `a op b`, for ints.
pub open spec fn int_binary_step(s: Seq<JvmValue>, op: IntOp) -> (Result<(), JvmError>, Seq<JvmValue>) {
    match spec_pop_int(s) {
        Err(e) => (Err(e), popped(s)),
        Ok(b) => match spec_pop_int(popped(s)) {
            Err(e) => (Err(e), popped(popped(s))),
            Ok(a) => (Ok(()), popped(popped(s)).push(JvmValue::Int(int_op(op, a, b)))),
        },
    }
}

/// The same for longs.
pub open spec fn long_binary_step(s: Seq<JvmValue>, op: LongOp) -> (Result<(), JvmError>, Seq<JvmValue>) {
    match spec_pop_long(s) {
        Err(e) => (Err(e), popped(s)),
        Ok(b) => match spec_pop_long(popped(s)) {
            Err(e) => (Err(e), popped(popped(s))),
            Ok(a) => (Ok(()), popped(popped(s)).push(JvmValue::Long(long_op(op, a, b)))),
        },
    }
}

/// Taking the shift distance (an int) then a long off the stack and pushing
/// the shifted long.
pub open spec fn long_shift_step(s: Seq<JvmValue>) -> (Result<(), JvmError>, Seq<JvmValue>) {
    match spec_pop_int(s) {
        Err(e) => (Err(e), popped(s)),
        Ok(b) => match spec_pop_long(popped(s)) {
            Err(e) => (Err(e), popped(popped(s))),
            Ok(a) => (Ok(()), popped(popped(s)).push(JvmValue::Long(long_shl(a, b)))),
        },
    }
}

/// Taking an int off the stack and pushing its negation (which wraps for the
/// least int).
pub open spec fn int_negate_step(s: Seq<JvmValue>) -> (Result<(), JvmError>, Seq<JvmValue>) {
    match spec_pop_int(s) {
        Err(e) => (Err(e), popped(s)),
        Ok(x) => (Ok(()), popped(s).push(JvmValue::Int(0i32.wrapping_sub(x)))),
    }
}

/// When both operands of a division are ints, the divisor is not zero and
/// the quotient fits an int.
pub open spec fn int_division_defined(s: Seq<JvmValue>) -> bool {
    match (spec_pop_int(s), spec_pop_int(popped(s))) {
        (Ok(b), Ok(a)) => b != 0 && !(a == i32::MIN && b == -1),
        _ => true,
    }
}

/// The value and the type check that `iinc` meets at local `index`.
pub open spec fn increment_step(locals: Seq<JvmValue>, index: int, delta: i8) -> Result<Seq<JvmValue>, JvmError> {
    if index >= locals.len() {
        Err(JvmError::NoLocalVariableFound)
    } else if let JvmValue::Int(v) = locals[index] {
        Ok(locals.update(index, JvmValue::Int(v.wrapping_add(delta as i32))))
    } else {
        Err(type_error(JvmType::Int, locals[index]))
    }
}

proof fn lemma_div_bounded(n: int, m: int)
    by (nonlinear_arith)
    requires
        n >= 0,
        m >= 1,
    ensures
        0 <= n / m <= n,
        m >= 2 && n >= 1 ==> n / m < n,
        0 <= n % m < m,
{
}

/// Division and remainder of ints are defined unless the divisor is zero or
/// the quotient overflows.
proof fn lemma_int_division_defined(a: i32, b: i32)
    requires
        b != 0,
        !(a == i32::MIN && b == -1),
    ensures
        a.checked_div(b) is Some,
        a.checked_rem(b) is Some,
{
    let x = a as int;
    let d = b as int;
    if x > 0 && d > 0 {
        lemma_div_bounded(x, d);
    } else if x < 0 && d < 0 {
        lemma_div_bounded(-x, -d);
    } else if x < 0 {
        lemma_div_bounded(-x, d);
    } else if x > 0 {
        lemma_div_bounded(x, -d);
    }
}

/// `iinc`: adds the signed byte after the local's index to that int local.
pub fn increment_instruction(frame: &mut JvmStackFrame, code: &[u8]) -> (res: JvmResult<()>)
    requires
        old(frame).program_counter + 2 <= code@.len(),
        code@[old(frame).program_counter as int] < old(frame).local_variables@.len() ==> !(old(
            frame,
        ).local_variables@[code@[old(frame).program_counter as int] as int] is Unusable),
    ensures
        ({
            let pc = old(frame).program_counter as int;
            let step = increment_step(old(frame).local_variables@, code@[pc] as int, code@[pc + 1] as i8);
            &&& unbox(res) == match step {
                Ok(_) => Ok(()),
                Err(e) => Err(e),
            }
            &&& final(frame).local_variables@ == match step {
                Ok(l) => l,
                Err(_) => old(frame).local_variables@,
            }
        }),
        final(frame).program_counter == old(frame).program_counter + 2,
        final(frame).operand_stack@ == old(frame).operand_stack@,
        crate::bytecode::same_activation(*old(frame), *final(frame)),
{
    let index_value = code[frame.program_counter] as usize;
    frame.program_counter = frame.program_counter + 1;
    let const_value = code[frame.program_counter] as i8;
    frame.program_counter = frame.program_counter + 1;
    if index_value >= frame.local_variables.len() {
        return Err(JvmError::NoLocalVariableFound.bx());
    }
    match frame.local_variables[index_value] {
        JvmValue::Int(v) => {
            frame.local_variables.set(index_value, JvmValue::Int(v.wrapping_add(const_value as i32)));
        },
        other => {
            return Err(JvmError::TypeError { expected: JvmType::Int, found: other.get_type() }.bx());
        },
    }
    Ok(())
}

/// Takes two ints off the stack and pushes the result of `op` on them.
fn generic_two_operand_int(frame: &mut JvmStackFrame, op: IntOp) -> (res: JvmResult<()>)
    requires
        stack_usable(*old(frame)),
        op == IntOp::Div || op == IntOp::Rem ==> int_division_defined(old(frame).operand_stack@),
    ensures
        stack_usable(*final(frame)),
        (unbox(res), final(frame).operand_stack@) == int_binary_step(old(frame).operand_stack@, op),
        only_stack_changed(*old(frame), *final(frame)),
{
    let value_b = pop_int(frame)?;
    let value_a = pop_int(frame)?;
    proof {
        if op == IntOp::Div || op == IntOp::Rem {
            lemma_int_division_defined(value_a, value_b);
        }
    }
    let result = match op {
        IntOp::Add => value_a.wrapping_add(value_b),
        IntOp::Sub => value_a.wrapping_sub(value_b),
        IntOp::Mul => value_a.wrapping_mul(value_b),
        IntOp::Div => match value_a.checked_div(value_b) {
            Some(v) => v,
            None => vstd::pervasive::unreached(),
        },
        IntOp::Rem => match value_a.checked_rem(value_b) {
            Some(v) => v,
            None => vstd::pervasive::unreached(),
        },
    };
    frame.operand_stack.push(JvmValue::Int(result));
    Ok(())
}

/// Takes two longs off the stack and pushes the result of `op` on them.
fn generic_two_operand_long(frame: &mut JvmStackFrame, op: LongOp) -> (res: JvmResult<()>)
    requires
        stack_usable(*old(frame)),
    ensures
        stack_usable(*final(frame)),
        (unbox(res), final(frame).operand_stack@) == long_binary_step(old(frame).operand_stack@, op),
        only_stack_changed(*old(frame), *final(frame)),
{
    let value_b = pop_long(frame)?;
    let value_a = pop_long(frame)?;
    let result = match op {
        LongOp::Add => value_a.wrapping_add(value_b),
        LongOp::And => value_a & value_b,
    };
    frame.operand_stack.push(JvmValue::Long(result));
    Ok(())
}

/// `iadd`
pub fn integer_add_instruction(frame: &mut JvmStackFrame) -> (res: JvmResult<()>)
    requires
        stack_usable(*old(frame)),
    ensures
        stack_usable(*final(frame)),
        (unbox(res), final(frame).operand_stack@) == int_binary_step(old(frame).operand_stack@, IntOp::Add),
        only_stack_changed(*old(frame), *final(frame)),
{
    generic_two_operand_int(frame, IntOp::Add)
}

/// `isub`
pub fn integer_subtract_instruction(frame: &mut JvmStackFrame) -> (res: JvmResult<()>)
    requires
        stack_usable(*old(frame)),
    ensures
        stack_usable(*final(frame)),
        (unbox(res), final(frame).operand_stack@) == int_binary_step(old(frame).operand_stack@, IntOp::Sub),
        only_stack_changed(*old(frame), *final(frame)),
{
    generic_two_operand_int(frame, IntOp::Sub)
}

/// `imul`
pub fn integer_muliply_instruction(frame: &mut JvmStackFrame) -> (res: JvmResult<()>)
    requires
        stack_usable(*old(frame)),
    ensures
        stack_usable(*final(frame)),
        (unbox(res), final(frame).operand_stack@) == int_binary_step(old(frame).operand_stack@, IntOp::Mul),
        only_stack_changed(*old(frame), *final(frame)),
{
    generic_two_operand_int(frame, IntOp::Mul)
}

/// `idiv`
pub fn integer_divide_instruction(frame: &mut JvmStackFrame) -> (res: JvmResult<()>)
    requires
        stack_usable(*old(frame)),
        int_division_defined(old(frame).operand_stack@),
    ensures
        stack_usable(*final(frame)),
        (unbox(res), final(frame).operand_stack@) == int_binary_step(old(frame).operand_stack@, IntOp::Div),
        only_stack_changed(*old(frame), *final(frame)),
{
    generic_two_operand_int(frame, IntOp::Div)
}

/// `irem`
pub fn integer_remainder_instruction(frame: &mut JvmStackFrame) -> (res: JvmResult<()>)
    requires
        stack_usable(*old(frame)),
        int_division_defined(old(frame).operand_stack@),
    ensures
        stack_usable(*final(frame)),
        (unbox(res), final(frame).operand_stack@) == int_binary_step(old(frame).operand_stack@, IntOp::Rem),
        only_stack_changed(*old(frame), *final(frame)),
{
    generic_two_operand_int(frame, IntOp::Rem)
}

/// `ineg`
pub fn integer_negate_instruction(frame: &mut JvmStackFrame) -> (res: JvmResult<()>)
    requires
        stack_usable(*old(frame)),
    ensures
        stack_usable(*final(frame)),
        (unbox(res), final(frame).operand_stack@) == int_negate_step(old(frame).operand_stack@),
        only_stack_changed(*old(frame), *final(frame)),
{
    let value = pop_int(frame)?;
    frame.operand_stack.push(JvmValue::Int(0i32.wrapping_sub(value)));
    Ok(())
}

/// `ladd`
pub fn long_add_instruction(frame: &mut JvmStackFrame) -> (res: JvmResult<()>)
    requires
        stack_usable(*old(frame)),
    ensures
        stack_usable(*final(frame)),
        (unbox(res), final(frame).operand_stack@) == long_binary_step(old(frame).operand_stack@, LongOp::Add),
        only_stack_changed(*old(frame), *final(frame)),
{
    generic_two_operand_long(frame, LongOp::Add)
}

/// `land`
pub fn long_and_instruction(frame: &mut JvmStackFrame) -> (res: JvmResult<()>)
    requires
        stack_usable(*old(frame)),
    ensures
        stack_usable(*final(frame)),
        (unbox(res), final(frame).operand_stack@) == long_binary_step(old(frame).operand_stack@, LongOp::And),
        only_stack_changed(*old(frame), *final(frame)),
{
    generic_two_operand_long(frame, LongOp::And)
}

/// `lshl`
pub fn shift_left_long_instruction(frame: &mut JvmStackFrame) -> (res: JvmResult<()>)
    requires
        stack_usable(*old(frame)),
    ensures
        stack_usable(*final(frame)),
        (unbox(res), final(frame).operand_stack@) == long_shift_step(old(frame).operand_stack@),
        only_stack_changed(*old(frame), *final(frame)),
{
    let value_2 = pop_int(frame)?;
    let value_1 = pop_long(frame)?;
    let distance = value_2 & 63;
    proof {
        assert(0 <= value_2 & 63i32 < 64) by (bit_vector);
    }
    let result = value_1 << (distance as u32);
    frame.operand_stack.push(JvmValue::Long(result));
    Ok(())
}


/// Shifting a long by 0 leaves it as it is.
pub proof fn lemma_shl_by_zero(a: i64)
    ensures
        long_shl(a, 0) == a,
{
    assert((a << ((0i32 & 63i32) as u32)) == a) by (bit_vector);
}

/// Shifting a long left by one doubles it (wrapping).
pub proof fn lemma_shl_by_one(a: i64)
    ensures
        long_shl(a, 1) == a.wrapping_add(a),
{
    assert((a << ((1i32 & 63i32) as u32)) == a.wrapping_add(a)) by (bit_vector);
}

/// For the shift distances of a long (0 to 63), shifting one place further
/// is shifting the result once more: with the two lemmas above, a long
/// shifted by `b` in 0..64 is the long doubled `b` times, that is
/// `a * 2^b` wrapped to 64 bits.
pub proof fn lemma_shl_one_further(a: i64, b: i32)
    requires
        0 <= b < 63,
    ensures
        long_shl(a, (b + 1) as i32) == long_shl(long_shl(a, b), 1),
{
    let c = (b + 1) as i32;
    assert((a << ((c & 63i32) as u32)) == ((a << ((b & 63i32) as u32)) << ((1i32 & 63i32) as u32))) by (bit_vector)
        requires
            0 <= b < 63,
            c == b + 1,
    ;
}

/// Only the low six bits of the distance count: shifting by `b` is shifting
/// by `b` mod 64.
pub proof fn lemma_shl_distance_mod_64(a: i64, b: i32)
    ensures
        long_shl(a, b) == long_shl(a, b & 63),
{
    assert((a << ((b & 63i32) as u32)) == (a << (((b & 63i32) & 63i32) as u32))) by (bit_vector);
}

} // verus!
