//! Conditional branches on null references.
use vstd::prelude::*;

use crate::bytecode::comparisons_instructions::{branch, branch_step};
use crate::bytecode::{
    branch_in_bounds, only_stack_and_pc_changed, pop_reference, popped, spec_pop_reference,
    stack_usable, unbox,
};
use crate::jvm_model::{JvmError, JvmResult, JvmStackFrame, JvmValue};

verus! {

/// What `ifnull` (`on_null`) or `ifnonnull` (`!on_null`) does.
pub open spec fn null_branch_result(
    s: Seq<JvmValue>,
    pc: usize,
    code: Seq<u8>,
    on_null: bool,
    res: Result<(), JvmError>,
    s2: Seq<JvmValue>,
    pc2: usize,
) -> bool {
    &&& s2 == popped(s)
    &&& match spec_pop_reference(s) {
        Err(e) => res == Err::<(), _>(e) && pc2 == pc,
        Ok(r) => res is Ok && pc2 == branch_step(pc, code, (r is None) == on_null),
    }
}

/// Takes a reference off the stack and branches when its being null is `on_null`.
fn generic_if_reference_instruction(frame: &mut JvmStackFrame, code: &[u8], on_null: bool) -> (res: JvmResult<()>)
    requires
        stack_usable(*old(frame)),
        branch_in_bounds(code@),
        old(frame).program_counter + 2 <= code@.len(),
    ensures
        stack_usable(*final(frame)),
        only_stack_and_pc_changed(*old(frame), *final(frame)),
        null_branch_result(
            old(frame).operand_stack@,
            old(frame).program_counter,
            code@,
            on_null,
            unbox(res),
            final(frame).operand_stack@,
            final(frame).program_counter,
        ),
{
    let reference = pop_reference(frame)?;
    let taken = reference.is_none() == on_null;
    branch(frame, code, taken);
    Ok(())
}

/// `ifnull`
pub fn if_null_instruction(frame: &mut JvmStackFrame, code: &[u8]) -> (res: JvmResult<()>)
    requires
        stack_usable(*old(frame)),
        branch_in_bounds(code@),
        old(frame).program_counter + 2 <= code@.len(),
    ensures
        stack_usable(*final(frame)),
        only_stack_and_pc_changed(*old(frame), *final(frame)),
        null_branch_result(
            old(frame).operand_stack@,
            old(frame).program_counter,
            code@,
            true,
            unbox(res),
            final(frame).operand_stack@,
            final(frame).program_counter,
        ),
{
    generic_if_reference_instruction(frame, code, true)
}

/// `ifnonnull`
pub fn if_not_null_instruction(frame: &mut JvmStackFrame, code: &[u8]) -> (res: JvmResult<()>)
    requires
        stack_usable(*old(frame)),
        branch_in_bounds(code@),
        old(frame).program_counter + 2 <= code@.len(),
    ensures
        stack_usable(*final(frame)),
        only_stack_and_pc_changed(*old(frame), *final(frame)),
        null_branch_result(
            old(frame).operand_stack@,
            old(frame).program_counter,
            code@,
            false,
            unbox(res),
            final(frame).operand_stack@,
            final(frame).program_counter,
        ),
{
    generic_if_reference_instruction(frame, code, false)
}

} // verus!
