//! Instructions that rearrange the operand stack.
use vstd::prelude::*;

use crate::bytecode::{only_stack_changed, popped, stack_usable, unbox};
use crate::jvm_model::{JvmError, JvmResult, JvmStackFrame, JvmValue};

verus! {

/// `pop`: drops the top value, if any.
pub fn pop_instruction(frame: &mut JvmStackFrame) -> (res: JvmResult<()>)
    requires
        stack_usable(*old(frame)),
    ensures
        stack_usable(*final(frame)),
        res is Ok,
        final(frame).operand_stack@ == popped(old(frame).operand_stack@),
        only_stack_changed(*old(frame), *final(frame)),
{
    let _ = frame.operand_stack.pop();
    Ok(())
}

/// `dup`: pushes a copy of the top value.
pub fn dup_instruction(frame: &mut JvmStackFrame) -> (res: JvmResult<()>)
    requires
        stack_usable(*old(frame)),
    ensures
        stack_usable(*final(frame)),
        old(frame).operand_stack@.len() == 0 ==> unbox(res) == Err::<(), _>(JvmError::NoOperandFound)
            && final(frame).operand_stack@ == old(frame).operand_stack@,
        old(frame).operand_stack@.len() > 0 ==> res is Ok && final(frame).operand_stack@ == old(
            frame,
        ).operand_stack@.push(old(frame).operand_stack@.last()),
        only_stack_changed(*old(frame), *final(frame)),
{
    let len = frame.operand_stack.len();
    if len == 0 {
        return Err(JvmError::NoOperandFound.bx());
    }
    let value = frame.operand_stack[len - 1];
    frame.operand_stack.push(value);
    Ok(())
}

/// `dup_x1`: puts a copy of the top value under the two top values.
pub fn dup_x1_instruction(frame: &mut JvmStackFrame) -> (res: JvmResult<()>)
    requires
        stack_usable(*old(frame)),
        old(frame).operand_stack@.len() != 1,
    ensures
        stack_usable(*final(frame)),
        old(frame).operand_stack@.len() == 0 ==> unbox(res) == Err::<(), _>(JvmError::NoOperandFound)
            && final(frame).operand_stack@ == old(frame).operand_stack@,
        old(frame).operand_stack@.len() >= 2 ==> res is Ok && final(frame).operand_stack@ == old(
            frame,
        ).operand_stack@.insert(
            old(frame).operand_stack@.len() - 2,
            old(frame).operand_stack@.last(),
        ),
        only_stack_changed(*old(frame), *final(frame)),
{
    let len = frame.operand_stack.len();
    if len == 0 {
        return Err(JvmError::NoOperandFound.bx());
    }
    let value = frame.operand_stack[len - 1];
    frame.operand_stack.insert(len - 2, value);
    proof {
        assert forall|i: int| 0 <= i < frame.operand_stack@.len() implies !(
        #[trigger] frame.operand_stack@[i] is Unusable) by {
            if i < len - 2 {
                assert(frame.operand_stack@[i] == old(frame).operand_stack@[i]);
            } else if i > len - 2 {
                assert(frame.operand_stack@[i] == old(frame).operand_stack@[i - 1]);
            }
        }
    }
    Ok(())
}

} // verus!
