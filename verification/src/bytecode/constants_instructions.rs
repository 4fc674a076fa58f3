//! Instructions that push constants.
use vstd::prelude::*;

use crate::bytecode::{
    only_stack_and_pc_changed, only_stack_changed, read_u16_from_bytecode, read_u8_from_bytecode,
    spec_u16_at, stack_usable, unbox, validate_cp_index,
};
use crate::class_cache::{CacheEntry, ClassCache};
use crate::class_file::{ConstantPool, ConstantValue, ConstantValueV, cp_utf8, valid_cp_index};
use crate::field_initialisation::initialise_object_fields;
use crate::jvm_cache::string_pool::{StringPool, VALUE_FIELD_NAME};
use crate::jvm_heap::{JvmHeap, live};
use crate::jvm_model::{
    ClassId, DescriptorType, FieldInfo, HeapObject, JvmError, JvmResult, JvmStackFrame, JvmValue, default_value_of,
};
use std::rc::Rc;

verus! {

/// `nop`
pub fn nop_instruction(frame: &mut JvmStackFrame) -> (res: JvmResult<()>)
    ensures
        res is Ok,
        *final(frame) == *old(frame),
{
    Ok(())
}

/// `aconst_null`: pushes the null reference.
pub fn null_const_instruction(frame: &mut JvmStackFrame) -> (res: JvmResult<()>)
    requires
        stack_usable(*old(frame)),
    ensures
        stack_usable(*final(frame)),
        res is Ok,
        final(frame).operand_stack@ == old(frame).operand_stack@.push(JvmValue::Reference(None)),
        only_stack_changed(*old(frame), *final(frame)),
{
    frame.operand_stack.push(JvmValue::Reference(None));
    Ok(())
}

/// `iconst_<value>`: pushes `value` (from -1 to 5).
pub fn integer_const_instruction(frame: &mut JvmStackFrame, value: i32) -> (res: JvmResult<()>)
    requires
        stack_usable(*old(frame)),
    ensures
        stack_usable(*final(frame)),
        res is Ok,
        final(frame).operand_stack@ == old(frame).operand_stack@.push(JvmValue::Int(value)),
        only_stack_changed(*old(frame), *final(frame)),
{
    frame.operand_stack.push(JvmValue::Int(value));
    Ok(())
}

/// `bipush`: pushes the signed byte after the opcode.
pub fn bipush_instruction(frame: &mut JvmStackFrame, code: &[u8]) -> (res: JvmResult<()>)
    requires
        stack_usable(*old(frame)),
        old(frame).program_counter < code@.len(),
    ensures
        stack_usable(*final(frame)),
        res is Ok,
        final(frame).operand_stack@ == old(frame).operand_stack@.push(
            JvmValue::Int(code@[old(frame).program_counter as int] as i8 as i32),
        ),
        final(frame).program_counter == old(frame).program_counter + 1,
        only_stack_and_pc_changed(*old(frame), *final(frame)),
{
    let read_value = read_u8_from_bytecode(frame, code);
    let push_value = (read_value as i8) as i32;
    frame.operand_stack.push(JvmValue::Int(push_value));
    Ok(())
}

/// `sipush`: pushes the signed short after the opcode.
pub fn sipush_instruction(frame: &mut JvmStackFrame, code: &[u8]) -> (res: JvmResult<()>)
    requires
        stack_usable(*old(frame)),
        old(frame).program_counter + 2 <= code@.len(),
    ensures
        stack_usable(*final(frame)),
        res is Ok,
        final(frame).operand_stack@ == old(frame).operand_stack@.push(
            JvmValue::Int(spec_u16_at(code@, old(frame).program_counter as int) as i16 as i32),
        ),
        final(frame).program_counter == old(frame).program_counter + 2,
        only_stack_and_pc_changed(*old(frame), *final(frame)),
{
    let push_value = (read_u16_from_bytecode(frame, code) as i16) as i32;
    frame.operand_stack.push(JvmValue::Int(push_value));
    Ok(())
}

/// The value that a long or double constant pushes; any other constant is
/// no operand of `ldc2_w`.
pub open spec fn wide_constant(c: ConstantValueV) -> Result<JvmValue, JvmError> {
    match c {
        ConstantValueV::Long(l) => Ok(JvmValue::Long(l)),
        ConstantValueV::Double(d) => Ok(JvmValue::Double(d)),
        _ => Err(JvmError::InvalidConstantPoolIndex),
    }
}

/// `ldc2_w`: pushes the long or double constant that the two bytes after the
/// opcode name.
pub fn ldc2w_instruction(frame: &mut JvmStackFrame, code: &[u8], constant_pool: &ConstantPool) -> (res: JvmResult<()>)
    requires
        stack_usable(*old(frame)),
        old(frame).program_counter + 2 <= code@.len(),
        spec_u16_at(code@, old(frame).program_counter as int) < constant_pool@.len(),
    ensures
        stack_usable(*final(frame)),
        final(frame).program_counter == old(frame).program_counter + 2,
        only_stack_and_pc_changed(*old(frame), *final(frame)),
        ({
            let index = spec_u16_at(code@, old(frame).program_counter as int);
            let outcome = if index == 0 {
                Err(JvmError::InvalidConstantPoolIndex)
            } else {
                wide_constant(constant_pool@[index as int])
            };
            &&& unbox(res) == match outcome {
                Ok(_) => Ok(()),
                Err(e) => Err(e),
            }
            &&& final(frame).operand_stack@ == match outcome {
                Ok(v) => old(frame).operand_stack@.push(v),
                Err(_) => old(frame).operand_stack@,
            }
        }),
{
    let bytecode_value = read_u16_from_bytecode(frame, code);
    let constant_index = validate_cp_index(bytecode_value)?;
    let value = match constant_pool.get(constant_index) {
        ConstantValue::Long(long) => JvmValue::Long(*long),
        ConstantValue::Double(double) => JvmValue::Double(*double),
        _ => return Err(JvmError::InvalidConstantPoolIndex.bx()),
    };
    frame.operand_stack.push(value);
    Ok(())
}

/// What `ldc` does after the constant that it names was looked up: an int or
/// a float is pushed at once; a class or a string needs the class loader and
/// the string pool, which the interpreter brings in.
#[derive(Debug, Clone, Copy, PartialEq, Eq, Structural)]
pub enum LdcStep {
    Pushed,
    /// Push the `java/lang/Class` object of the class named by the Utf8 constant.
    LoadClass { name_index: usize },
    /// Push the interned string of the Utf8 constant, which the constant at
    /// `constant_index` refers to.
    LoadString { utf8_index: usize, constant_index: u16 },
}

/// The constant kinds that `ldc` takes but this machine does not support.
pub open spec fn ldc_unsupported(c: ConstantValueV) -> bool {
    c is MethodRef || c is InterfaceMethodRef || c is MethodHandle || c is MethodType
}

/// What `ldc` does with the constant `c` at `index`.
pub open spec fn ldc_outcome(c: ConstantValueV, index: u16) -> Result<(LdcStep, Option<JvmValue>), JvmError> {
    match c {
        ConstantValueV::Int(v) => Ok((LdcStep::Pushed, Some(JvmValue::Int(v)))),
        ConstantValueV::Float(v) => Ok((LdcStep::Pushed, Some(JvmValue::Float(v)))),
        ConstantValueV::Class { name_index } => Ok((LdcStep::LoadClass { name_index }, None)),
        ConstantValueV::String { utf8_index } => Ok(
            (LdcStep::LoadString { utf8_index, constant_index: index }, None),
        ),
        _ => Err(JvmError::InvalidConstantPoolIndex),
    }
}

/// The constant pool index that `ldc` (one byte) or `ldc_w` (two bytes) reads.
pub open spec fn ldc_index(code: Seq<u8>, pc: usize, wide: bool) -> u16 {
    if wide {
        spec_u16_at(code, pc as int)
    } else {
        code[pc as int] as u16
    }
}

/// `ldc` (`wide` false) and `ldc_w` (`wide` true): pushes the int or float
/// constant that the operand names, or says what the interpreter must do for
/// a class or string constant.
pub fn generic_ldc_instruction(
    frame: &mut JvmStackFrame,
    code: &[u8],
    constant_pool: &ConstantPool,
    wide: bool,
) -> (res: JvmResult<LdcStep>)
    requires
        stack_usable(*old(frame)),
        old(frame).program_counter + (if wide {
            2int
        } else {
            1int
        }) <= code@.len(),
        ldc_index(code@, old(frame).program_counter, wide) < constant_pool@.len(),
        ldc_index(code@, old(frame).program_counter, wide) != 0 ==> !ldc_unsupported(
            constant_pool@[ldc_index(code@, old(frame).program_counter, wide) as int],
        ),
    ensures
        stack_usable(*final(frame)),
        final(frame).program_counter == old(frame).program_counter + if wide {
            2int
        } else {
            1int
        },
        only_stack_and_pc_changed(*old(frame), *final(frame)),
        ({
            let index = ldc_index(code@, old(frame).program_counter, wide);
            let outcome = if index == 0 {
                Err(JvmError::InvalidConstantPoolIndex)
            } else {
                ldc_outcome(constant_pool@[index as int], index)
            };
            &&& unbox(res) == match outcome {
                Ok((step, _)) => Ok(step),
                Err(e) => Err(e),
            }
            &&& final(frame).operand_stack@ == match outcome {
                Ok((_, Some(v))) => old(frame).operand_stack@.push(v),
                _ => old(frame).operand_stack@,
            }
        }),
{
    let bytecode_value = if wide {
        read_u16_from_bytecode(frame, code)
    } else {
        read_u8_from_bytecode(frame, code) as u16
    };
    let constant_index = validate_cp_index(bytecode_value)?;
    let value = match constant_pool.get(constant_index) {
        ConstantValue::Int(v) => JvmValue::Int(*v),
        ConstantValue::Float(float) => JvmValue::Float(*float),
        ConstantValue::Class { name_index } => {
            return Ok(LdcStep::LoadClass { name_index: *name_index });
        },
        ConstantValue::String { utf8_index } => {
            return Ok(LdcStep::LoadString { utf8_index: *utf8_index, constant_index: bytecode_value });
        },
        _ => return Err(JvmError::InvalidConstantPoolIndex.bx()),
    };
    frame.operand_stack.push(value);
    Ok(LdcStep::Pushed)
}

/// The string object for the Utf8 constant at `utf8_index` of
/// `constant_pool`, as `ldc` loads it: the pooled one with its text, else a
/// new object of the string class `string_class` (whose fields are laid out
/// as `fields`) holding the text, which is pooled. Either way the class's
/// cache then holds the reference for the constant at `constant_index`.
pub fn create_string_from_constant(
    constant_pool: &ConstantPool,
    cache: &mut ClassCache,
    string_pool: &mut StringPool,
    heap: &mut JvmHeap,
    utf8_index: usize,
    constant_index: u16,
    string_class: ClassId,
    fields: &[FieldInfo],
) -> (res: JvmValue)
    requires
        valid_cp_index(constant_pool@.len() as int, utf8_index),
        cp_utf8(constant_pool@, utf8_index as int) is Some,
        old(cache).wf(),
        old(string_pool).wf(),
        old(heap).wf(),
        old(heap).allocations() + 1 < usize::MAX,
        exists|i: int| 0 <= i < fields@.len() && fields@[i].name@ == VALUE_FIELD_NAME@,
        forall|i: int|
            0 <= i < fields@.len() && #[trigger] fields@[i].name@ == VALUE_FIELD_NAME@ ==> fields@[i].descriptor_type
                == DescriptorType::Reference,
        old(string_pool).value_index() matches Some(i) ==> i < fields@.len() && fields@[i as int].name@
            == VALUE_FIELD_NAME@ && forall|j: int| 0 <= j < i ==> fields@[j].name@ != VALUE_FIELD_NAME@,
    ensures
        ({
            let text = cp_utf8(constant_pool@, utf8_index as int).unwrap();
            res matches JvmValue::Reference(Some(r)) && {
                &&& final(string_pool)@ == old(string_pool)@.insert(text, r)
                &&& final(cache).entry(constant_index) == Some(CacheEntry::StringPoolRef(r))
                &&& old(string_pool)@.contains_key(text) ==> r == old(string_pool)@[text] && final(heap)@
                    == old(heap)@
                &&& !old(string_pool)@.contains_key(text) ==> {
                    &&& !live(old(heap)@, r)
                    &&& final(heap)@[r as int] matches Some(HeapObject::Object { class: c, fields: f })
                    &&& c == string_class
                    &&& final(string_pool).value_index() matches Some(i)
                    &&& i < fields@.len() && fields@[i as int].name@ == VALUE_FIELD_NAME@
                    &&& forall|j: int| 0 <= j < i ==> fields@[j].name@ != VALUE_FIELD_NAME@
                    &&& f@[i as int] matches JvmValue::Reference(Some(a))
                    &&& f@ == fields@.map_values(|fi: FieldInfo| default_value_of(fi.descriptor_type)).update(
                        i as int,
                        JvmValue::Reference(Some(a)),
                    )
                    &&& a != r && !live(old(heap)@, a)
                    &&& final(heap)@[a as int] matches Some(HeapObject::CharacterArray(chars))
                    &&& chars@ == text.map_values(|ch: char| ch as u16)
                    &&& forall|k: int|
                        0 <= k < old(heap)@.len() && k != r && k != a ==> final(heap)@[k] == old(heap)@[k]
                }
            }
        }),
        final(cache).wf(),
        forall|j: u16| j != constant_index ==> final(cache).entry(j) == old(cache).entry(j),
        final(string_pool).wf(),
        final(heap).wf(),
{
    let text = match constant_pool.get_utf8(utf8_index) {
        Some(t) => t,
        None => vstd::pervasive::unreached(),
    };
    let ghost old_heap = heap@;
    let string_ref = match string_pool.find_string(text) {
        Some(string_ref) => {
            proof {
                assert(string_pool@.insert(text@, string_ref) =~= string_pool@);
            }
            string_ref
        },
        None => {
            let mut string_obj = initialise_object_fields(string_class, fields);
            proof {
                assert(string_obj->Object_fields@.len() == fields@.len());
            }
            string_pool.initialise_string_fields(text, &mut string_obj, heap, fields);
            let ghost after_init = heap@;
            let ghost made = string_obj;
            let reference = heap.allocate(string_obj);
            string_pool.register(text.to_owned(), reference);
            proof {
                if live(old_heap, reference) {
                    assert(after_init[reference as int] is Some);
                }
                let i = string_pool.value_index()->Some_0;
                let a = made->Object_fields@[i as int]->Reference_0->Some_0;
                assert(live(after_init, a));
                assert(a != reference);
                assert(heap@[a as int] == after_init[a as int]);
            }
            reference
        },
    };
    cache.register(constant_index, Rc::new(CacheEntry::StringPoolRef(string_ref)));
    JvmValue::Reference(Some(string_ref))
}

} // verus!
