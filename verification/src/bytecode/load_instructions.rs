//! Instructions that load local variables and array elements onto the stack.
use vstd::prelude::*;

use crate::bytecode::{
    JvmException, Step, expect_int, expect_reference, only_stack_and_pc_changed, only_stack_changed, pop_int,
    pop_reference, popped, read_u8_from_bytecode, spec_pop_int, spec_pop_reference, stack_usable, unbox,
};
use crate::jvm_heap::{JvmHeap, live, values_live};
use crate::jvm_model::{HeapObject, JvmError, JvmResult, JvmStackFrame, JvmType, JvmValue, type_error};

verus! {

/// What loading local `index` as an int (`reference` false) or a reference
/// (`reference` true) gives.
pub open spec fn local_load(locals: Seq<JvmValue>, index: int, reference: bool) -> Result<JvmValue, JvmError> {
    if index < 0 || index >= locals.len() {
        Err(JvmError::NoLocalVariableFound)
    } else if reference {
        if locals[index] is Reference {
            Ok(locals[index])
        } else {
            Err(type_error(JvmType::Reference, locals[index]))
        }
    } else if locals[index] is Int {
        Ok(locals[index])
    } else {
        Err(type_error(JvmType::Int, locals[index]))
    }
}

/// The local at `index`, when there is one, is no filler.
pub open spec fn local_usable(locals: Seq<JvmValue>, index: int) -> bool {
    0 <= index < locals.len() ==> !(locals[index] is Unusable)
}

/// Pushes local `index`, checked to be an int or a reference.
fn generic_load(frame: &mut JvmStackFrame, index: usize, reference: bool) -> (res: JvmResult<()>)
    requires
        stack_usable(*old(frame)),
        local_usable(old(frame).local_variables@, index as int),
    ensures
        stack_usable(*final(frame)),
        only_stack_changed(*old(frame), *final(frame)),
        unbox(res) == match local_load(old(frame).local_variables@, index as int, reference) {
            Ok(_) => Ok(()),
            Err(e) => Err(e),
        },
        final(frame).operand_stack@ == match local_load(old(frame).local_variables@, index as int, reference) {
            Ok(v) => old(frame).operand_stack@.push(v),
            Err(_) => old(frame).operand_stack@,
        },
{
    if index < frame.local_variables.len() {
        let value = frame.local_variables[index];
        if reference {
            expect_reference(value)?;
        } else {
            expect_int(value)?;
        }
        frame.operand_stack.push(value);
        Ok(())
    } else {
        Err(JvmError::NoLocalVariableFound.bx())
    }
}

/// `iload_<index>`
pub fn integer_load(frame: &mut JvmStackFrame, index: usize) -> (res: JvmResult<()>)
    requires
        stack_usable(*old(frame)),
        local_usable(old(frame).local_variables@, index as int),
    ensures
        stack_usable(*final(frame)),
        only_stack_changed(*old(frame), *final(frame)),
        unbox(res) == match local_load(old(frame).local_variables@, index as int, false) {
            Ok(_) => Ok(()),
            Err(e) => Err(e),
        },
        final(frame).operand_stack@ == match local_load(old(frame).local_variables@, index as int, false) {
            Ok(v) => old(frame).operand_stack@.push(v),
            Err(_) => old(frame).operand_stack@,
        },
{
    generic_load(frame, index, false)
}

/// `aload_<index>`
pub fn reference_load_instruction(frame: &mut JvmStackFrame, index: usize) -> (res: JvmResult<()>)
    requires
        stack_usable(*old(frame)),
        local_usable(old(frame).local_variables@, index as int),
    ensures
        stack_usable(*final(frame)),
        only_stack_changed(*old(frame), *final(frame)),
        unbox(res) == match local_load(old(frame).local_variables@, index as int, true) {
            Ok(_) => Ok(()),
            Err(e) => Err(e),
        },
        final(frame).operand_stack@ == match local_load(old(frame).local_variables@, index as int, true) {
            Ok(v) => old(frame).operand_stack@.push(v),
            Err(_) => old(frame).operand_stack@,
        },
{
    generic_load(frame, index, true)
}

/// `iload`: the local's index is the byte after the opcode.
pub fn integer_load_n(frame: &mut JvmStackFrame, code: &[u8]) -> (res: JvmResult<()>)
    requires
        stack_usable(*old(frame)),
        old(frame).program_counter < code@.len(),
        local_usable(old(frame).local_variables@, code@[old(frame).program_counter as int] as int),
    ensures
        stack_usable(*final(frame)),
        only_stack_and_pc_changed(*old(frame), *final(frame)),
        final(frame).program_counter == old(frame).program_counter + 1,
        ({
            let l = local_load(
                old(frame).local_variables@,
                code@[old(frame).program_counter as int] as int,
                false,
            );
            &&& unbox(res) == match l {
                Ok(_) => Ok(()),
                Err(e) => Err(e),
            }
            &&& final(frame).operand_stack@ == match l {
                Ok(v) => old(frame).operand_stack@.push(v),
                Err(_) => old(frame).operand_stack@,
            }
        }),
{
    let index_value = read_u8_from_bytecode(frame, code) as usize;
    generic_load(frame, index_value, false)
}

/// `aload`: the local's index is the byte after the opcode.
pub fn reference_load_n(frame: &mut JvmStackFrame, code: &[u8]) -> (res: JvmResult<()>)
    requires
        stack_usable(*old(frame)),
        old(frame).program_counter < code@.len(),
        local_usable(old(frame).local_variables@, code@[old(frame).program_counter as int] as int),
    ensures
        stack_usable(*final(frame)),
        only_stack_and_pc_changed(*old(frame), *final(frame)),
        final(frame).program_counter == old(frame).program_counter + 1,
        ({
            let l = local_load(
                old(frame).local_variables@,
                code@[old(frame).program_counter as int] as int,
                true,
            );
            &&& unbox(res) == match l {
                Ok(_) => Ok(()),
                Err(e) => Err(e),
            }
            &&& final(frame).operand_stack@ == match l {
                Ok(v) => old(frame).operand_stack@.push(v),
                Err(_) => old(frame).operand_stack@,
            }
        }),
{
    let index_value = read_u8_from_bytecode(frame, code) as usize;
    generic_load(frame, index_value, true)
}

/// The element at `index` of an int array (`chars` false) or a char array
/// (`chars` true), widened to an int: `None` when the index is out of bounds,
/// an error when `obj` is no array of that kind.
pub open spec fn array_element(obj: HeapObject, index: i32, chars: bool) -> Result<Option<JvmValue>, JvmError> {
    match obj {
        HeapObject::IntArray(items) => if chars {
            Err(JvmError::IncompatibleArrayType)
        } else if 0 <= index < items@.len() {
            Ok(Some(JvmValue::Int(items@[index as int])))
        } else {
            Ok(None)
        },
        HeapObject::CharacterArray(items) => if !chars {
            Err(JvmError::IncompatibleArrayType)
        } else if 0 <= index < items@.len() {
            Ok(Some(JvmValue::Int(items@[index as int] as i32)))
        } else {
            Ok(None)
        },
        _ => Err(JvmError::IncompatibleArrayType),
    }
}

/// What an array load does to the operand stack, and its outcome.
pub open spec fn array_load_step(s: Seq<JvmValue>, slots: Seq<Option<HeapObject>>, chars: bool) -> (
    Result<Step, JvmError>,
    Seq<JvmValue>,
) {
    match spec_pop_int(s) {
        Err(e) => (Err(e), popped(s)),
        Ok(index) => match spec_pop_reference(popped(s)) {
            Err(e) => (Err(e), popped(popped(s))),
            Ok(None) => (Ok(Step::Throw(JvmException::NullPointer)), popped(popped(s))),
            Ok(Some(r)) => match array_element(slots[r as int].unwrap(), index, chars) {
                Err(e) => (Err(e), popped(popped(s))),
                Ok(None) => (Ok(Step::Throw(JvmException::ArrayIndexOutOfBounds)), popped(popped(s))),
                Ok(Some(v)) => (Ok(Step::Next), popped(popped(s)).push(v)),
            },
        },
    }
}

/// Takes an index and an array reference off the stack and pushes the element.
fn generic_load_array_instruction(frame: &mut JvmStackFrame, heap: &JvmHeap, chars: bool) -> (res: JvmResult<Step>)
    requires
        stack_usable(*old(frame)),
        values_live(old(frame).operand_stack@, heap@),
    ensures
        stack_usable(*final(frame)),
        values_live(final(frame).operand_stack@, heap@),
        only_stack_changed(*old(frame), *final(frame)),
        (unbox(res), final(frame).operand_stack@) == array_load_step(old(frame).operand_stack@, heap@, chars),
{
    let ghost s = frame.operand_stack@;
    let index = pop_int(frame)?;
    let array_ref = match pop_reference(frame)? {
        Some(r) => r,
        None => return Ok(Step::Throw(JvmException::NullPointer)),
    };
    proof {
        assert(s[s.len() - 2] == JvmValue::Reference(Some(array_ref)));
    }
    let value = match heap.get(array_ref) {
        HeapObject::IntArray(items) => {
            if chars {
                return Err(JvmError::IncompatibleArrayType.bx());
            }
            if index < 0 || index as usize >= items.len() {
                return Ok(Step::Throw(JvmException::ArrayIndexOutOfBounds));
            }
            JvmValue::Int(items[index as usize])
        },
        HeapObject::CharacterArray(items) => {
            if !chars {
                return Err(JvmError::IncompatibleArrayType.bx());
            }
            if index < 0 || index as usize >= items.len() {
                return Ok(Step::Throw(JvmException::ArrayIndexOutOfBounds));
            }
            JvmValue::Int(items[index as usize] as i32)
        },
        _ => return Err(JvmError::IncompatibleArrayType.bx()),
    };
    frame.operand_stack.push(value);
    Ok(Step::Next)
}

/// `iaload`
pub fn load_integer_array_instruction(frame: &mut JvmStackFrame, heap: &JvmHeap) -> (res: JvmResult<Step>)
    requires
        stack_usable(*old(frame)),
        values_live(old(frame).operand_stack@, heap@),
    ensures
        stack_usable(*final(frame)),
        values_live(final(frame).operand_stack@, heap@),
        only_stack_changed(*old(frame), *final(frame)),
        (unbox(res), final(frame).operand_stack@) == array_load_step(old(frame).operand_stack@, heap@, false),
{
    generic_load_array_instruction(frame, heap, false)
}

/// `caload`
pub fn load_character_array_instruction(frame: &mut JvmStackFrame, heap: &JvmHeap) -> (res: JvmResult<Step>)
    requires
        stack_usable(*old(frame)),
        values_live(old(frame).operand_stack@, heap@),
    ensures
        stack_usable(*final(frame)),
        values_live(final(frame).operand_stack@, heap@),
        only_stack_changed(*old(frame), *final(frame)),
        (unbox(res), final(frame).operand_stack@) == array_load_step(old(frame).operand_stack@, heap@, true),
{
    generic_load_array_instruction(frame, heap, true)
}

} // verus!
