//! Conversions between primitive types.
use vstd::prelude::*;

use crate::bytecode::{only_stack_changed, pop_int, popped, spec_pop_int, stack_usable, unbox};
use crate::jvm_model::{JvmError, JvmResult, JvmStackFrame, JvmValue};

verus! {

/// Taking an int off the stack and pushing it widened to a long
/// (`to_long`) or cut to its low 16 bits, as an unsigned char.
pub open spec fn int_conversion_step(s: Seq<JvmValue>, to_long: bool) -> (Result<(), JvmError>, Seq<JvmValue>) {
    match spec_pop_int(s) {
        Err(e) => (Err(e), popped(s)),
        Ok(v) => (
            Ok(()),
            popped(s).push(
                if to_long {
                    JvmValue::Long(v as i64)
                } else {
                    JvmValue::Int(v as u16 as i32)
                },
            ),
        ),
    }
}

/// `i2l`: widens an int to a long.
pub fn int_to_long_instruction(frame: &mut JvmStackFrame) -> (res: JvmResult<()>)
    requires
        stack_usable(*old(frame)),
    ensures
        stack_usable(*final(frame)),
        (unbox(res), final(frame).operand_stack@) == int_conversion_step(old(frame).operand_stack@, true),
        only_stack_changed(*old(frame), *final(frame)),
{
    let value = pop_int(frame)?;
    frame.operand_stack.push(JvmValue::Long(value as i64));
    Ok(())
}

/// `i2c`: keeps the low 16 bits of the int, zero-extended.
pub fn int_to_char_instruction(frame: &mut JvmStackFrame) -> (res: JvmResult<()>)
    requires
        stack_usable(*old(frame)),
    ensures
        stack_usable(*final(frame)),
        (unbox(res), final(frame).operand_stack@) == int_conversion_step(old(frame).operand_stack@, false),
        only_stack_changed(*old(frame), *final(frame)),
{
    let value = pop_int(frame)?;
    frame.operand_stack.push(JvmValue::Int(value as u16 as i32));
    Ok(())
}

} // verus!
