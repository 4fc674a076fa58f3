//! Conditional branches on ints: against zero, or between two ints.
use vstd::prelude::*;

use crate::bytecode::{
    branch_target, branch_in_bounds, only_stack_and_pc_changed, pop_int, popped, read_i16_from_bytecode,
    spec_pop_int, spec_u16_at, stack_usable, unbox,
};
use crate::jvm_model::{JvmResult, JvmStackFrame, JvmValue};

verus! {

/// How a conditional branch compares two ints.
#[derive(Debug, Clone, Copy, PartialEq, Eq, Structural)]
pub enum IntCondition {
    Equals,
    NotEquals,
    LessThan,
    LessThanOrEquals,
    GreaterThan,
    GreaterThanOrEquals,
}

/// `a` compares to `b` as `cond` asks.
pub open spec fn int_condition_holds(cond: IntCondition, a: i32, b: i32) -> bool {
    match cond {
        IntCondition::Equals => a == b,
        IntCondition::NotEquals => a != b,
        IntCondition::LessThan => a < b,
        IntCondition::LessThanOrEquals => a <= b,
        IntCondition::GreaterThan => a > b,
        IntCondition::GreaterThanOrEquals => a >= b,
    }
}

/// Where the program counter goes from `pc` (just behind the opcode of a
/// conditional branch): to the branch target when the branch is taken, past
/// the two offset bytes otherwise.
pub open spec fn branch_step(pc: usize, code: Seq<u8>, taken: bool) -> usize {
    if taken {
        branch_target(pc, spec_u16_at(code, pc as int) as i16)
    } else {
        (pc + 2) as usize
    }
}

/// Compares two ints as `cond` asks.
pub fn condition_holds(cond: IntCondition, a: i32, b: i32) -> (res: bool)
    ensures
        res == int_condition_holds(cond, a, b),
{
    match cond {
        IntCondition::Equals => a == b,
        IntCondition::NotEquals => a != b,
        IntCondition::LessThan => a < b,
        IntCondition::LessThanOrEquals => a <= b,
        IntCondition::GreaterThan => a > b,
        IntCondition::GreaterThanOrEquals => a >= b,
    }
}

/// Sets the program counter as a conditional branch that `taken` decides does.
pub(crate) fn branch(frame: &mut JvmStackFrame, code: &[u8], taken: bool)
    requires
        branch_in_bounds(code@),
        old(frame).program_counter + 2 <= code@.len(),
    ensures
        final(frame).program_counter == branch_step(old(frame).program_counter, code@, taken),
        only_stack_and_pc_changed(*old(frame), *final(frame)),
        final(frame).operand_stack@ == old(frame).operand_stack@,
{
    if !taken {
        frame.program_counter = frame.program_counter + 2;
        return;
    }
    let instruction_start = frame.program_counter as isize - 1;
    let branch_offset = read_i16_from_bytecode(frame, code) as isize;
    frame.program_counter = (instruction_start + branch_offset) as usize;
}

/// Takes an int off the stack and branches when it compares to zero as
/// `cond` asks.
fn generic_if_instruction(frame: &mut JvmStackFrame, code: &[u8], cond: IntCondition) -> (res: JvmResult<()>)
    requires
        stack_usable(*old(frame)),
        branch_in_bounds(code@),
        old(frame).program_counter + 2 <= code@.len(),
    ensures
        stack_usable(*final(frame)),
        only_stack_and_pc_changed(*old(frame), *final(frame)),
        zero_branch_result(old(frame).operand_stack@, old(frame).program_counter, code@, cond, unbox(res), final(frame).operand_stack@, final(frame).program_counter),
{
    let value = pop_int(frame)?;
    let taken = condition_holds(cond, value, 0);
    branch(frame, code, taken);
    Ok(())
}

/// Takes two ints off the stack and branches when the first pushed compares
/// to the second as `cond` asks.
fn generic_if_compare_instruction(frame: &mut JvmStackFrame, code: &[u8], cond: IntCondition) -> (res: JvmResult<()>)
    requires
        stack_usable(*old(frame)),
        branch_in_bounds(code@),
        old(frame).program_counter + 2 <= code@.len(),
    ensures
        stack_usable(*final(frame)),
        only_stack_and_pc_changed(*old(frame), *final(frame)),
        compare_branch_result(old(frame).operand_stack@, old(frame).program_counter, code@, cond, unbox(res), final(frame).operand_stack@, final(frame).program_counter),
{
    let value2 = pop_int(frame)?;
    let value1 = pop_int(frame)?;
    let taken = condition_holds(cond, value1, value2);
    branch(frame, code, taken);
    Ok(())
}

/// What `if_icmp<cond>` does: the outcome, the operand stack and the program
/// counter after it, from the operand stack and program counter before.
pub open spec fn compare_branch_result(
    s: Seq<JvmValue>,
    pc: usize,
    code: Seq<u8>,
    cond: IntCondition,
    res: Result<(), crate::jvm_model::JvmError>,
    s2: Seq<JvmValue>,
    pc2: usize,
) -> bool {
    match spec_pop_int(s) {
        Err(e) => res == Err::<(), _>(e) && s2 == popped(s) && pc2 == pc,
        Ok(v2) => match spec_pop_int(popped(s)) {
            Err(e) => res == Err::<(), _>(e) && s2 == popped(popped(s)) && pc2 == pc,
            Ok(v1) => res is Ok && s2 == popped(popped(s)) && pc2 == branch_step(
                pc,
                code,
                int_condition_holds(cond, v1, v2),
            ),
        },
    }
}

/// What `if<cond>` does.
pub open spec fn zero_branch_result(
    s: Seq<JvmValue>,
    pc: usize,
    code: Seq<u8>,
    cond: IntCondition,
    res: Result<(), crate::jvm_model::JvmError>,
    s2: Seq<JvmValue>,
    pc2: usize,
) -> bool {
    &&& s2 == popped(s)
    &&& match spec_pop_int(s) {
        Err(e) => res == Err::<(), _>(e) && pc2 == pc,
        Ok(v) => res is Ok && pc2 == branch_step(pc, code, int_condition_holds(cond, v, 0)),
    }
}

/// `ifeq`
pub fn if_equals_instruction(frame: &mut JvmStackFrame, code: &[u8]) -> (res: JvmResult<()>)
    requires
        stack_usable(*old(frame)),
        branch_in_bounds(code@),
        old(frame).program_counter + 2 <= code@.len(),
    ensures
        stack_usable(*final(frame)),
        only_stack_and_pc_changed(*old(frame), *final(frame)),
        zero_branch_result(
            old(frame).operand_stack@,
            old(frame).program_counter,
            code@,
            IntCondition::Equals,
            unbox(res),
            final(frame).operand_stack@,
            final(frame).program_counter,
        ),
{
    generic_if_instruction(frame, code, IntCondition::Equals)
}

/// `ifne`
pub fn if_not_equals_instruction(frame: &mut JvmStackFrame, code: &[u8]) -> (res: JvmResult<()>)
    requires
        stack_usable(*old(frame)),
        branch_in_bounds(code@),
        old(frame).program_counter + 2 <= code@.len(),
    ensures
        stack_usable(*final(frame)),
        only_stack_and_pc_changed(*old(frame), *final(frame)),
        zero_branch_result(
            old(frame).operand_stack@,
            old(frame).program_counter,
            code@,
            IntCondition::NotEquals,
            unbox(res),
            final(frame).operand_stack@,
            final(frame).program_counter,
        ),
{
    generic_if_instruction(frame, code, IntCondition::NotEquals)
}

/// `iflt`
pub fn if_less_than_instruction(frame: &mut JvmStackFrame, code: &[u8]) -> (res: JvmResult<()>)
    requires
        stack_usable(*old(frame)),
        branch_in_bounds(code@),
        old(frame).program_counter + 2 <= code@.len(),
    ensures
        stack_usable(*final(frame)),
        only_stack_and_pc_changed(*old(frame), *final(frame)),
        zero_branch_result(
            old(frame).operand_stack@,
            old(frame).program_counter,
            code@,
            IntCondition::LessThan,
            unbox(res),
            final(frame).operand_stack@,
            final(frame).program_counter,
        ),
{
    generic_if_instruction(frame, code, IntCondition::LessThan)
}

/// `ifle`
pub fn if_less_than_or_equals_instruction(frame: &mut JvmStackFrame, code: &[u8]) -> (res: JvmResult<()>)
    requires
        stack_usable(*old(frame)),
        branch_in_bounds(code@),
        old(frame).program_counter + 2 <= code@.len(),
    ensures
        stack_usable(*final(frame)),
        only_stack_and_pc_changed(*old(frame), *final(frame)),
        zero_branch_result(
            old(frame).operand_stack@,
            old(frame).program_counter,
            code@,
            IntCondition::LessThanOrEquals,
            unbox(res),
            final(frame).operand_stack@,
            final(frame).program_counter,
        ),
{
    generic_if_instruction(frame, code, IntCondition::LessThanOrEquals)
}

/// `ifgt`
pub fn if_greater_than_instruction(frame: &mut JvmStackFrame, code: &[u8]) -> (res: JvmResult<()>)
    requires
        stack_usable(*old(frame)),
        branch_in_bounds(code@),
        old(frame).program_counter + 2 <= code@.len(),
    ensures
        stack_usable(*final(frame)),
        only_stack_and_pc_changed(*old(frame), *final(frame)),
        zero_branch_result(
            old(frame).operand_stack@,
            old(frame).program_counter,
            code@,
            IntCondition::GreaterThan,
            unbox(res),
            final(frame).operand_stack@,
            final(frame).program_counter,
        ),
{
    generic_if_instruction(frame, code, IntCondition::GreaterThan)
}

/// `ifge`
pub fn if_greater_than_or_equals_instruction(frame: &mut JvmStackFrame, code: &[u8]) -> (res: JvmResult<()>)
    requires
        stack_usable(*old(frame)),
        branch_in_bounds(code@),
        old(frame).program_counter + 2 <= code@.len(),
    ensures
        stack_usable(*final(frame)),
        only_stack_and_pc_changed(*old(frame), *final(frame)),
        zero_branch_result(
            old(frame).operand_stack@,
            old(frame).program_counter,
            code@,
            IntCondition::GreaterThanOrEquals,
            unbox(res),
            final(frame).operand_stack@,
            final(frame).program_counter,
        ),
{
    generic_if_instruction(frame, code, IntCondition::GreaterThanOrEquals)
}

/// `if_icmpeq`
pub fn if_compare_equals_instruction(frame: &mut JvmStackFrame, code: &[u8]) -> (res: JvmResult<()>)
    requires
        stack_usable(*old(frame)),
        branch_in_bounds(code@),
        old(frame).program_counter + 2 <= code@.len(),
    ensures
        stack_usable(*final(frame)),
        only_stack_and_pc_changed(*old(frame), *final(frame)),
        compare_branch_result(
            old(frame).operand_stack@,
            old(frame).program_counter,
            code@,
            IntCondition::Equals,
            unbox(res),
            final(frame).operand_stack@,
            final(frame).program_counter,
        ),
{
    generic_if_compare_instruction(frame, code, IntCondition::Equals)
}

/// `if_icmpne`
pub fn if_compare_not_equals_instruction(frame: &mut JvmStackFrame, code: &[u8]) -> (res: JvmResult<()>)
    requires
        stack_usable(*old(frame)),
        branch_in_bounds(code@),
        old(frame).program_counter + 2 <= code@.len(),
    ensures
        stack_usable(*final(frame)),
        only_stack_and_pc_changed(*old(frame), *final(frame)),
        compare_branch_result(
            old(frame).operand_stack@,
            old(frame).program_counter,
            code@,
            IntCondition::NotEquals,
            unbox(res),
            final(frame).operand_stack@,
            final(frame).program_counter,
        ),
{
    generic_if_compare_instruction(frame, code, IntCondition::NotEquals)
}

/// `if_icmplt`
pub fn if_compare_less_than_instruction(frame: &mut JvmStackFrame, code: &[u8]) -> (res: JvmResult<()>)
    requires
        stack_usable(*old(frame)),
        branch_in_bounds(code@),
        old(frame).program_counter + 2 <= code@.len(),
    ensures
        stack_usable(*final(frame)),
        only_stack_and_pc_changed(*old(frame), *final(frame)),
        compare_branch_result(
            old(frame).operand_stack@,
            old(frame).program_counter,
            code@,
            IntCondition::LessThan,
            unbox(res),
            final(frame).operand_stack@,
            final(frame).program_counter,
        ),
{
    generic_if_compare_instruction(frame, code, IntCondition::LessThan)
}

/// `if_icmple`
pub fn if_compare_less_than_or_equals_instruction(frame: &mut JvmStackFrame, code: &[u8]) -> (res: JvmResult<()>)
    requires
        stack_usable(*old(frame)),
        branch_in_bounds(code@),
        old(frame).program_counter + 2 <= code@.len(),
    ensures
        stack_usable(*final(frame)),
        only_stack_and_pc_changed(*old(frame), *final(frame)),
        compare_branch_result(
            old(frame).operand_stack@,
            old(frame).program_counter,
            code@,
            IntCondition::LessThanOrEquals,
            unbox(res),
            final(frame).operand_stack@,
            final(frame).program_counter,
        ),
{
    generic_if_compare_instruction(frame, code, IntCondition::LessThanOrEquals)
}

/// `if_icmpgt`
pub fn if_compare_greater_than_instruction(frame: &mut JvmStackFrame, code: &[u8]) -> (res: JvmResult<()>)
    requires
        stack_usable(*old(frame)),
        branch_in_bounds(code@),
        old(frame).program_counter + 2 <= code@.len(),
    ensures
        stack_usable(*final(frame)),
        only_stack_and_pc_changed(*old(frame), *final(frame)),
        compare_branch_result(
            old(frame).operand_stack@,
            old(frame).program_counter,
            code@,
            IntCondition::GreaterThan,
            unbox(res),
            final(frame).operand_stack@,
            final(frame).program_counter,
        ),
{
    generic_if_compare_instruction(frame, code, IntCondition::GreaterThan)
}

/// `if_icmpge`
pub fn if_compare_greater_than_or_equals_instruction(frame: &mut JvmStackFrame, code: &[u8]) -> (res: JvmResult<()>)
    requires
        stack_usable(*old(frame)),
        branch_in_bounds(code@),
        old(frame).program_counter + 2 <= code@.len(),
    ensures
        stack_usable(*final(frame)),
        only_stack_and_pc_changed(*old(frame), *final(frame)),
        compare_branch_result(
            old(frame).operand_stack@,
            old(frame).program_counter,
            code@,
            IntCondition::GreaterThanOrEquals,
            unbox(res),
            final(frame).operand_stack@,
            final(frame).program_counter,
        ),
{
    generic_if_compare_instruction(frame, code, IntCondition::GreaterThanOrEquals)
}


/// How the six comparisons of the conditional branches relate, over all
/// pairs of ints: exactly one of "less", "equal" and "greater" holds; "equal"
/// holds of two equal ints; "less" is "greater" with the operands swapped;
/// each of "not equal", "at least" and "at most" holds exactly when its
/// opposite does not; and "at least" is "greater or equal".
pub proof fn lemma_conditions_relate(a: i32, b: i32)
    ensures
        int_condition_holds(IntCondition::Equals, a, a),
        int_condition_holds(IntCondition::LessThan, a, b) <==> int_condition_holds(IntCondition::GreaterThan, b, a),
        int_condition_holds(IntCondition::Equals, a, b) <==> a == b,
        (int_condition_holds(IntCondition::LessThan, a, b) as int) + (int_condition_holds(
            IntCondition::Equals,
            a,
            b,
        ) as int) + (int_condition_holds(IntCondition::GreaterThan, a, b) as int) == 1,
        int_condition_holds(IntCondition::LessThan, a, b) ==> a < b,
        int_condition_holds(IntCondition::NotEquals, a, b) <==> !int_condition_holds(IntCondition::Equals, a, b),
        int_condition_holds(IntCondition::GreaterThanOrEquals, a, b) <==> !int_condition_holds(
            IntCondition::LessThan,
            a,
            b,
        ),
        int_condition_holds(IntCondition::LessThanOrEquals, a, b) <==> !int_condition_holds(
            IntCondition::GreaterThan,
            a,
            b,
        ),
        int_condition_holds(IntCondition::GreaterThanOrEquals, a, b) <==> (int_condition_holds(
            IntCondition::GreaterThan,
            a,
            b,
        ) || int_condition_holds(IntCondition::Equals, a, b)),
{
}

/// A conditional branch on two equal ints is taken exactly for "equal",
/// "at least" and "at most".
pub proof fn lemma_equal_operands_branch(a: i32)
    ensures
        int_condition_holds(IntCondition::Equals, a, a),
        int_condition_holds(IntCondition::GreaterThanOrEquals, a, a),
        int_condition_holds(IntCondition::LessThanOrEquals, a, a),
        !int_condition_holds(IntCondition::NotEquals, a, a),
        !int_condition_holds(IntCondition::LessThan, a, a),
        !int_condition_holds(IntCondition::GreaterThan, a, a),
{
}

} // verus!
