//! Instructions that store into local variables and array elements.
use vstd::prelude::*;

use crate::bytecode::{
    JvmException, Step, only_stack_changed, pop_int, pop_long, pop_reference, popped,
    read_u8_from_bytecode, same_activation, spec_pop_int, spec_pop_long, spec_pop_reference, stack_usable,
    unbox,
};
use crate::jvm_heap::{JvmHeap, live, objects_kept, values_live};
use crate::jvm_model::{HeapObject, JvmError, JvmResult, JvmStackFrame, JvmValue};

verus! {

/// What taking the value to store off the stack gives: an int
/// (`reference` false) or a reference (`reference` true).
pub open spec fn store_value(s: Seq<JvmValue>, reference: bool) -> Result<JvmValue, JvmError> {
    if reference {
        match spec_pop_reference(s) {
            Ok(r) => Ok(JvmValue::Reference(r)),
            Err(e) => Err(e),
        }
    } else {
        match spec_pop_int(s) {
            Ok(v) => Ok(JvmValue::Int(v)),
            Err(e) => Err(e),
        }
    }
}

/// Takes an int or a reference off the stack and stores it in local `index`.
fn generic_store(frame: &mut JvmStackFrame, index: usize, reference: bool) -> (res: JvmResult<()>)
    requires
        stack_usable(*old(frame)),
        store_value(old(frame).operand_stack@, reference) is Ok ==> index < old(frame).local_variables@.len(),
    ensures
        stack_usable(*final(frame)),
        same_activation(*old(frame), *final(frame)),
        final(frame).program_counter == old(frame).program_counter,
        final(frame).operand_stack@ == popped(old(frame).operand_stack@),
        unbox(res) == match store_value(old(frame).operand_stack@, reference) {
            Ok(_) => Ok(()),
            Err(e) => Err(e),
        },
        final(frame).local_variables@ == match store_value(old(frame).operand_stack@, reference) {
            Ok(v) => old(frame).local_variables@.update(index as int, v),
            Err(_) => old(frame).local_variables@,
        },
{
    let value = if reference {
        JvmValue::Reference(pop_reference(frame)?)
    } else {
        JvmValue::Int(pop_int(frame)?)
    };
    frame.local_variables.set(index, value);
    Ok(())
}

/// `istore_<index>`
pub fn store_integer_instruction(frame: &mut JvmStackFrame, index: usize) -> (res: JvmResult<()>)
    requires
        stack_usable(*old(frame)),
        store_value(old(frame).operand_stack@, false) is Ok ==> index < old(frame).local_variables@.len(),
    ensures
        stack_usable(*final(frame)),
        same_activation(*old(frame), *final(frame)),
        final(frame).program_counter == old(frame).program_counter,
        final(frame).operand_stack@ == popped(old(frame).operand_stack@),
        unbox(res) == match store_value(old(frame).operand_stack@, false) {
            Ok(_) => Ok(()),
            Err(e) => Err(e),
        },
        final(frame).local_variables@ == match store_value(old(frame).operand_stack@, false) {
            Ok(v) => old(frame).local_variables@.update(index as int, v),
            Err(_) => old(frame).local_variables@,
        },
{
    generic_store(frame, index, false)
}

/// `astore_<index>`
pub fn store_reference_instruction(frame: &mut JvmStackFrame, index: usize) -> (res: JvmResult<()>)
    requires
        stack_usable(*old(frame)),
        store_value(old(frame).operand_stack@, true) is Ok ==> index < old(frame).local_variables@.len(),
    ensures
        stack_usable(*final(frame)),
        same_activation(*old(frame), *final(frame)),
        final(frame).program_counter == old(frame).program_counter,
        final(frame).operand_stack@ == popped(old(frame).operand_stack@),
        unbox(res) == match store_value(old(frame).operand_stack@, true) {
            Ok(_) => Ok(()),
            Err(e) => Err(e),
        },
        final(frame).local_variables@ == match store_value(old(frame).operand_stack@, true) {
            Ok(v) => old(frame).local_variables@.update(index as int, v),
            Err(_) => old(frame).local_variables@,
        },
{
    generic_store(frame, index, true)
}

/// `istore`: the local's index is the byte after the opcode.
pub fn store_integer_n_instruction(frame: &mut JvmStackFrame, code: &[u8]) -> (res: JvmResult<()>)
    requires
        stack_usable(*old(frame)),
        old(frame).program_counter < code@.len(),
        store_value(old(frame).operand_stack@, false) is Ok ==> code@[old(frame).program_counter as int]
            < old(frame).local_variables@.len(),
    ensures
        stack_usable(*final(frame)),
        same_activation(*old(frame), *final(frame)),
        final(frame).program_counter == old(frame).program_counter + 1,
        final(frame).operand_stack@ == popped(old(frame).operand_stack@),
        unbox(res) == match store_value(old(frame).operand_stack@, false) {
            Ok(_) => Ok(()),
            Err(e) => Err(e),
        },
        final(frame).local_variables@ == match store_value(old(frame).operand_stack@, false) {
            Ok(v) => old(frame).local_variables@.update(
                code@[old(frame).program_counter as int] as int,
                v,
            ),
            Err(_) => old(frame).local_variables@,
        },
{
    let index_value = read_u8_from_bytecode(frame, code) as usize;
    generic_store(frame, index_value, false)
}

/// `astore`: the local's index is the byte after the opcode.
pub fn store_reference_n_instruction(frame: &mut JvmStackFrame, code: &[u8]) -> (res: JvmResult<()>)
    requires
        stack_usable(*old(frame)),
        old(frame).program_counter < code@.len(),
        store_value(old(frame).operand_stack@, true) is Ok ==> code@[old(frame).program_counter as int]
            < old(frame).local_variables@.len(),
    ensures
        stack_usable(*final(frame)),
        same_activation(*old(frame), *final(frame)),
        final(frame).program_counter == old(frame).program_counter + 1,
        final(frame).operand_stack@ == popped(old(frame).operand_stack@),
        unbox(res) == match store_value(old(frame).operand_stack@, true) {
            Ok(_) => Ok(()),
            Err(e) => Err(e),
        },
        final(frame).local_variables@ == match store_value(old(frame).operand_stack@, true) {
            Ok(v) => old(frame).local_variables@.update(
                code@[old(frame).program_counter as int] as int,
                v,
            ),
            Err(_) => old(frame).local_variables@,
        },
{
    let index_value = read_u8_from_bytecode(frame, code) as usize;
    generic_store(frame, index_value, true)
}

/// The primitive arrays that the store instructions write to.
#[derive(Debug, Clone, Copy, PartialEq, Eq, Structural)]
pub enum ArrayStoreKind {
    Int,
    Long,
    Character,
}

/// What taking the value to store into an array of `kind` off the stack gives.
pub open spec fn array_store_value(s: Seq<JvmValue>, kind: ArrayStoreKind) -> Result<JvmValue, JvmError> {
    match kind {
        ArrayStoreKind::Long => match spec_pop_long(s) {
            Ok(v) => Ok(JvmValue::Long(v)),
            Err(e) => Err(e),
        },
        _ => match spec_pop_int(s) {
            Ok(v) => Ok(JvmValue::Int(v)),
            Err(e) => Err(e),
        },
    }
}

/// The length of `obj` when it is an array of `kind`.
pub open spec fn primitive_array_len(obj: HeapObject, kind: ArrayStoreKind) -> Option<nat> {
    match (kind, obj) {
        (ArrayStoreKind::Int, HeapObject::IntArray(items)) => Some(items@.len()),
        (ArrayStoreKind::Long, HeapObject::LongArray(items)) => Some(items@.len()),
        (ArrayStoreKind::Character, HeapObject::CharacterArray(items)) => Some(items@.len()),
        _ => None,
    }
}

/// `after` is the array `before` with element `index` set to `v` (a char
/// array keeps the low 16 bits of the int).
pub open spec fn array_stored(before: HeapObject, after: HeapObject, index: int, v: JvmValue) -> bool {
    match (before, after, v) {
        (HeapObject::IntArray(a), HeapObject::IntArray(b), JvmValue::Int(x)) => b@ == a@.update(index, x),
        (HeapObject::LongArray(a), HeapObject::LongArray(b), JvmValue::Long(x)) => b@ == a@.update(index, x),
        (HeapObject::CharacterArray(a), HeapObject::CharacterArray(b), JvmValue::Int(x)) => b@
            == a@.update(index, x as u16),
        _ => false,
    }
}

/// What a primitive array store does: the outcome, and whether (and where)
/// it writes.
pub open spec fn array_store_outcome(s: Seq<JvmValue>, slots: Seq<Option<HeapObject>>, kind: ArrayStoreKind) -> Result<
    Step,
    JvmError,
> {
    match array_store_value(s, kind) {
        Err(e) => Err(e),
        Ok(v) => match spec_pop_int(popped(s)) {
            Err(e) => Err(e),
            Ok(index) => match spec_pop_reference(popped(popped(s))) {
                Err(e) => Err(e),
                Ok(None) => Ok(Step::Throw(JvmException::NullPointer)),
                Ok(Some(r)) => match primitive_array_len(slots[r as int].unwrap(), kind) {
                    None => Ok(Step::Throw(JvmException::ArrayStore)),
                    Some(len) => if index < 0 || index >= len {
                        Ok(Step::Throw(JvmException::ArrayIndexOutOfBounds))
                    } else {
                        Ok(Step::Next)
                    },
                },
            },
        },
    }
}

/// The operand stack after an array store: what it took off.
pub open spec fn array_store_stack(s: Seq<JvmValue>, kind: ArrayStoreKind) -> Seq<JvmValue> {
    if array_store_value(s, kind) is Err || spec_pop_int(popped(s)) is Err {
        if array_store_value(s, kind) is Err {
            popped(s)
        } else {
            popped(popped(s))
        }
    } else {
        popped(popped(popped(s)))
    }
}

/// The array that a store writes to, when it writes.
pub open spec fn array_store_target(s: Seq<JvmValue>) -> usize {
    spec_pop_reference(popped(popped(s)))->Ok_0->Some_0
}

/// Takes a value, an index and an array reference off the stack and stores
/// the value in the array.
fn store_generic_array_instruction(frame: &mut JvmStackFrame, heap: &mut JvmHeap, kind: ArrayStoreKind) -> (res: JvmResult<Step>)
    requires
        stack_usable(*old(frame)),
        old(heap).wf(),
        values_live(old(frame).operand_stack@, old(heap)@),
    ensures
        stack_usable(*final(frame)),
        final(heap).wf(),
        values_live(final(frame).operand_stack@, final(heap)@),
        only_stack_changed(*old(frame), *final(frame)),
        array_store_result(*old(frame), *final(frame), old(heap)@, final(heap)@, kind, unbox(res)),
        final(heap).free_list() == old(heap).free_list(),
        final(heap).allocations() == old(heap).allocations(),
        final(heap).min_allocations() == old(heap).min_allocations(),
        final(heap).gc_due() == old(heap).gc_due(),
        objects_kept(old(heap)@, final(heap)@),
{
    let ghost s = frame.operand_stack@;
    let value = match kind {
        ArrayStoreKind::Long => JvmValue::Long(pop_long(frame)?),
        _ => JvmValue::Int(pop_int(frame)?),
    };
    let index = pop_int(frame)?;
    let array_ref = match pop_reference(frame)? {
        Some(r) => r,
        None => return Ok(Step::Throw(JvmException::NullPointer)),
    };
    proof {
        assert(s[s.len() - 3] == JvmValue::Reference(Some(array_ref)));
    }
    let len = match (kind, heap.get(array_ref)) {
        (ArrayStoreKind::Int, HeapObject::IntArray(items)) => items.len(),
        (ArrayStoreKind::Long, HeapObject::LongArray(items)) => items.len(),
        (ArrayStoreKind::Character, HeapObject::CharacterArray(items)) => items.len(),
        _ => return Ok(Step::Throw(JvmException::ArrayStore)),
    };
    if index < 0 || index as usize >= len {
        return Ok(Step::Throw(JvmException::ArrayIndexOutOfBounds));
    }
    let ghost before = heap@;
    let obj = heap.get_mut(array_ref);
    match obj {
        HeapObject::IntArray(items) => {
            if let JvmValue::Int(v) = value {
                items.set(index as usize, v);
            }
        },
        HeapObject::LongArray(items) => {
            if let JvmValue::Long(v) = value {
                items.set(index as usize, v);
            }
        },
        HeapObject::CharacterArray(items) => {
            if let JvmValue::Int(v) = value {
                items.set(index as usize, v as u16);
            }
        },
        _ => {},
    }
    proof {
        assert forall|i: int| 0 <= i < frame.operand_stack@.len() implies (
        #[trigger] frame.operand_stack@[i] matches JvmValue::Reference(Some(r)) ==> live(heap@, r)) by {
            assert(frame.operand_stack@[i] == s[i]);
        }
    }
    Ok(Step::Next)
}

/// What storing into an array of `kind` does to the operand stack `b` (of a
/// frame that becomes `a`) and the heap slots `hb` (which become `ha`), with
/// the outcome `res`: the stack loses the value, the index and the
/// reference; only when the store goes ahead does the array's element
/// change, and nothing else on the heap.
pub open spec fn array_store_result(
    b: JvmStackFrame,
    a: JvmStackFrame,
    hb: Seq<Option<HeapObject>>,
    ha: Seq<Option<HeapObject>>,
    kind: ArrayStoreKind,
    res: Result<Step, JvmError>,
) -> bool {
    let s = b.operand_stack@;
    &&& res == array_store_outcome(s, hb, kind)
    &&& a.operand_stack@ == array_store_stack(s, kind)
    &&& res matches Ok(Step::Next) ==> ({
        let r = array_store_target(s) as int;
        &&& ha == hb.update(r, ha[r])
        &&& array_stored(hb[r].unwrap(), ha[r].unwrap(), spec_pop_int(popped(s))->Ok_0 as int, array_store_value(s, kind)->Ok_0)
    })
    &&& !(res matches Ok(Step::Next)) ==> ha == hb
}

/// `iastore`
pub fn store_integer_array_instruction(frame: &mut JvmStackFrame, heap: &mut JvmHeap) -> (res: JvmResult<Step>)
    requires
        stack_usable(*old(frame)),
        old(heap).wf(),
        values_live(old(frame).operand_stack@, old(heap)@),
    ensures
        stack_usable(*final(frame)),
        final(heap).wf(),
        values_live(final(frame).operand_stack@, final(heap)@),
        only_stack_changed(*old(frame), *final(frame)),
        array_store_result(*old(frame), *final(frame), old(heap)@, final(heap)@, ArrayStoreKind::Int, unbox(res)),
        final(heap).free_list() == old(heap).free_list(),
        final(heap).allocations() == old(heap).allocations(),
        final(heap).min_allocations() == old(heap).min_allocations(),
        final(heap).gc_due() == old(heap).gc_due(),
        objects_kept(old(heap)@, final(heap)@),
{
    store_generic_array_instruction(frame, heap, ArrayStoreKind::Int)
}

/// `lastore`
pub fn store_long_array_instruction(frame: &mut JvmStackFrame, heap: &mut JvmHeap) -> (res: JvmResult<Step>)
    requires
        stack_usable(*old(frame)),
        old(heap).wf(),
        values_live(old(frame).operand_stack@, old(heap)@),
    ensures
        stack_usable(*final(frame)),
        final(heap).wf(),
        values_live(final(frame).operand_stack@, final(heap)@),
        only_stack_changed(*old(frame), *final(frame)),
        array_store_result(*old(frame), *final(frame), old(heap)@, final(heap)@, ArrayStoreKind::Long, unbox(res)),
        final(heap).free_list() == old(heap).free_list(),
        final(heap).allocations() == old(heap).allocations(),
        final(heap).min_allocations() == old(heap).min_allocations(),
        final(heap).gc_due() == old(heap).gc_due(),
        objects_kept(old(heap)@, final(heap)@),
{
    store_generic_array_instruction(frame, heap, ArrayStoreKind::Long)
}

/// `castore`
pub fn store_character_array_instruction(frame: &mut JvmStackFrame, heap: &mut JvmHeap) -> (res: JvmResult<Step>)
    requires
        stack_usable(*old(frame)),
        old(heap).wf(),
        values_live(old(frame).operand_stack@, old(heap)@),
    ensures
        stack_usable(*final(frame)),
        final(heap).wf(),
        values_live(final(frame).operand_stack@, final(heap)@),
        only_stack_changed(*old(frame), *final(frame)),
        array_store_result(*old(frame), *final(frame), old(heap)@, final(heap)@, ArrayStoreKind::Character, unbox(res)),
        final(heap).free_list() == old(heap).free_list(),
        final(heap).allocations() == old(heap).allocations(),
        final(heap).min_allocations() == old(heap).min_allocations(),
        final(heap).gc_due() == old(heap).gc_due(),
        objects_kept(old(heap)@, final(heap)@),
{
    store_generic_array_instruction(frame, heap, ArrayStoreKind::Character)
}

} // verus!
