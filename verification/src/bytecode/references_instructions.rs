//! Arrays, type checks and throwing: the instructions on references.
use vstd::prelude::*;

use crate::bytecode::{
    JvmException, Step, only_stack_and_pc_changed, only_stack_changed, pop_int, pop_reference, popped,
    read_u8_from_bytecode, same_activation, spec_pop_int, spec_pop_reference, stack_usable, unbox,
};
use crate::class_cache::TypeInfo;
use crate::field_initialisation::initialise_object_fields;
use crate::class_hierarchy::{ClassHierarchy, subclass_of};
use crate::jvm_heap::{JvmHeap, live, objects_kept, values_live};
use crate::jvm_model::{
    ClassId, DescriptorType, FieldInfo, FrameReturn, HeapObject, JvmError, JvmResult, JvmStackFrame, JvmValue,
    ObjectArray, ObjectArrayType, default_value_of, descriptor_type_of,
};
use crate::text::str_to_chars;
use vstd::string::StrSliceExecFns;

verus! {

pub const BOOLEAN_ARR: u8 = 4;
pub const CHAR_ARR: u8 = 5;
pub const FLOAT_ARR: u8 = 6;
pub const DOUBLE_ARR: u8 = 7;
pub const BYTE_ARR: u8 = 8;
pub const SHORT_ARR: u8 = 9;
pub const INT_ARR: u8 = 10;
pub const LONG_ARR: u8 = 11;

/// The number of elements of an array; `None` for an object that is no array.
pub open spec fn array_len(obj: HeapObject) -> Option<nat> {
    match obj {
        HeapObject::IntArray(items) => Some(items@.len()),
        HeapObject::ByteArray(items) => Some(items@.len()),
        HeapObject::BooleanArray(items) => Some(items@.len()),
        HeapObject::CharacterArray(items) => Some(items@.len()),
        HeapObject::ShortArray(items) => Some(items@.len()),
        HeapObject::FloatArray(items) => Some(items@.len()),
        HeapObject::DoubleArray(items) => Some(items@.len()),
        HeapObject::LongArray(items) => Some(items@.len()),
        HeapObject::ObjectArray(arr) => Some(arr.array@.len()),
        HeapObject::Object { .. } => None,
    }
}

/// What `arraylength` does to the operand stack, and its outcome.
pub open spec fn array_length_step(s: Seq<JvmValue>, slots: Seq<Option<HeapObject>>) -> (
    Result<Step, JvmError>,
    Seq<JvmValue>,
) {
    match spec_pop_reference(s) {
        Err(e) => (Err(e), popped(s)),
        Ok(None) => (Ok(Step::Throw(JvmException::NullPointer)), popped(s)),
        Ok(Some(r)) => match array_len(slots[r as int].unwrap()) {
            None => (Err(JvmError::ExpectedArray), popped(s)),
            Some(n) => (Ok(Step::Next), popped(s).push(JvmValue::Int(n as i32))),
        },
    }
}

/// `arraylength`: pushes the length of the array that the popped reference names.
pub fn array_length_instruction(frame: &mut JvmStackFrame, heap: &JvmHeap) -> (res: JvmResult<Step>)
    requires
        stack_usable(*old(frame)),
        values_live(old(frame).operand_stack@, heap@),
    ensures
        stack_usable(*final(frame)),
        values_live(final(frame).operand_stack@, heap@),
        only_stack_changed(*old(frame), *final(frame)),
        (unbox(res), final(frame).operand_stack@) == array_length_step(old(frame).operand_stack@, heap@),
{
    let ghost s = frame.operand_stack@;
    let array_ref = match pop_reference(frame)? {
        Some(r) => r,
        None => return Ok(Step::Throw(JvmException::NullPointer)),
    };
    proof {
        assert(s[s.len() - 1] == JvmValue::Reference(Some(array_ref)));
    }
    let array_len = match heap.get(array_ref) {
        HeapObject::IntArray(items) => items.len(),
        HeapObject::ByteArray(items) => items.len(),
        HeapObject::BooleanArray(items) => items.len(),
        HeapObject::CharacterArray(items) => items.len(),
        HeapObject::ShortArray(items) => items.len(),
        HeapObject::FloatArray(items) => items.len(),
        HeapObject::DoubleArray(items) => items.len(),
        HeapObject::LongArray(items) => items.len(),
        HeapObject::ObjectArray(arr) => arr.array.len(),
        _ => return Err(JvmError::ExpectedArray.bx()),
    };
    frame.operand_stack.push(JvmValue::Int(#[verifier::truncate] (array_len as i32)));
    Ok(Step::Next)
}

/// `obj` is the array that `newarray` makes for the type code `atype` and
/// `n` elements: every element zero (false, 0 or the bits of 0.0).
pub open spec fn is_zero_array(obj: HeapObject, atype: u8, n: nat) -> bool {
    match obj {
        HeapObject::BooleanArray(v) => atype == BOOLEAN_ARR && v@ == Seq::new(n, |i: int| false),
        HeapObject::CharacterArray(v) => atype == CHAR_ARR && v@ == Seq::new(n, |i: int| 0u16),
        HeapObject::FloatArray(v) => atype == FLOAT_ARR && v@ == Seq::new(n, |i: int| 0u32),
        HeapObject::DoubleArray(v) => atype == DOUBLE_ARR && v@ == Seq::new(n, |i: int| 0u64),
        HeapObject::ByteArray(v) => atype == BYTE_ARR && v@ == Seq::new(n, |i: int| 0i8),
        HeapObject::ShortArray(v) => atype == SHORT_ARR && v@ == Seq::new(n, |i: int| 0i16),
        HeapObject::IntArray(v) => atype == INT_ARR && v@ == Seq::new(n, |i: int| 0i32),
        HeapObject::LongArray(v) => atype == LONG_ARR && v@ == Seq::new(n, |i: int| 0i64),
        _ => false,
    }
}

/// The array type codes that `newarray` knows.
pub open spec fn known_array_type(atype: u8) -> bool {
    BOOLEAN_ARR <= atype <= LONG_ARR
}

/// A vector of `n` copies of `value`.
fn filled<T: Copy>(value: T, n: usize) -> (res: Vec<T>)
    ensures
        res@ == Seq::new(n as nat, |i: int| value),
{
    let mut v: Vec<T> = Vec::new();
    let mut i: usize = 0;
    while i < n
        invariant
            i <= n,
            v@ == Seq::new(i as nat, |k: int| value),
        decreases n - i,
    {
        v.push(value);
        i += 1;
        proof {
            assert(v@ =~= Seq::new(i as nat, |k: int| value));
        }
    }
    v
}

/// The zero array of type code `atype` and `n` elements.
fn zero_array(atype: u8, n: usize) -> (res: JvmResult<HeapObject>)
    ensures
        known_array_type(atype) ==> (res matches Ok(obj) && is_zero_array(obj, atype, n as nat)),
        !known_array_type(atype) ==> unbox(res) == Err::<HeapObject, _>(JvmError::InvalidArrayType(atype)),
{
    let object = match atype {
        BOOLEAN_ARR => HeapObject::BooleanArray(filled(false, n)),
        CHAR_ARR => HeapObject::CharacterArray(filled(0u16, n)),
        FLOAT_ARR => HeapObject::FloatArray(filled(0u32, n)),
        DOUBLE_ARR => HeapObject::DoubleArray(filled(0u64, n)),
        BYTE_ARR => HeapObject::ByteArray(filled(0i8, n)),
        SHORT_ARR => HeapObject::ShortArray(filled(0i16, n)),
        INT_ARR => HeapObject::IntArray(filled(0i32, n)),
        LONG_ARR => HeapObject::LongArray(filled(0i64, n)),
        _ => return Err(JvmError::InvalidArrayType(atype).bx()),
    };
    Ok(object)
}

/// What `newarray` does to the frame `b` (which becomes `a`) and the heap
/// `hb` (which becomes `ha`), with the outcome `res`: the length is popped;
/// a missing int is the error, a negative length throws with the program
/// counter back on the opcode, an unknown type code is an error, and
/// otherwise a zero array of that type and length takes the last freed slot,
/// or a new one, and a reference to it is pushed.
pub open spec fn new_array_result(
    code: Seq<u8>,
    b: JvmStackFrame,
    a: JvmStackFrame,
    hb: JvmHeap,
    ha: JvmHeap,
    res: Result<Step, JvmError>,
) -> bool {
    let atype = code[b.program_counter as int];
    let pc = b.program_counter;
    match spec_pop_int(b.operand_stack@) {
        Err(e) => res == Err::<Step, _>(e) && a.program_counter == pc + 1 && a.operand_stack@ == popped(
            b.operand_stack@,
        ) && ha@ == hb@,
        Ok(n) => if n < 0 {
            res == Ok::<Step, JvmError>(Step::Throw(JvmException::NegativeArraySize)) && a.program_counter == pc
                && a.operand_stack@ == popped(b.operand_stack@) && ha@ == hb@
        } else if !known_array_type(atype) {
            res == Err::<Step, _>(JvmError::InvalidArrayType(atype)) && a.program_counter == pc + 1
                && a.operand_stack@ == popped(b.operand_stack@) && ha@ == hb@
        } else {
            &&& res == Ok::<Step, JvmError>(Step::Next)
            &&& a.program_counter == pc + 1
            &&& a.operand_stack@.len() == b.operand_stack@.len()
            &&& a.operand_stack@.last() matches JvmValue::Reference(Some(r))
            &&& ha@[r as int] matches Some(obj)
            &&& is_zero_array(obj, atype, n as nat)
            &&& hb.free_list().len() > 0 ==> r == hb.free_list().last() && ha@ == hb@.update(r as int, Some(obj))
            &&& hb.free_list().len() == 0 ==> r == hb@.len() && ha@ == hb@.push(Some(obj))
        },
    }
}

/// `newarray`: makes a zero array of the type code after the opcode and of
/// the popped length, and pushes a reference to it. A negative length throws
/// a `NegativeArraySizeException` (with the program counter back behind the
/// opcode).
pub fn new_array_instruction(frame: &mut JvmStackFrame, code: &[u8], heap: &mut JvmHeap) -> (res: JvmResult<Step>)
    requires
        stack_usable(*old(frame)),
        old(heap).wf(),
        values_live(old(frame).operand_stack@, old(heap)@),
        old(frame).program_counter < code@.len(),
        old(heap).allocations() < usize::MAX,
    ensures
        objects_kept(old(heap)@, final(heap)@),
        stack_usable(*final(frame)),
        final(heap).wf(),
        values_live(final(frame).operand_stack@, final(heap)@),
        only_stack_and_pc_changed(*old(frame), *final(frame)),
        final(frame).operand_stack@.len() >= popped(old(frame).operand_stack@).len(),
        final(frame).operand_stack@.subrange(0, popped(old(frame).operand_stack@).len() as int) == popped(
            old(frame).operand_stack@,
        ),
        new_array_result(code@, *old(frame), *final(frame), *old(heap), *final(heap), unbox(res)),
{
    let ghost s = frame.operand_stack@;
    let array_type_value = read_u8_from_bytecode(frame, code);
    let operand_value = pop_int(frame)?;
    if operand_value < 0 {
        frame.program_counter = frame.program_counter - 1;
        return Ok(Step::Throw(JvmException::NegativeArraySize));
    }
    let array_size = operand_value as usize;
    let object = zero_array(array_type_value, array_size)?;
    let ghost before = heap@;
    let ghost free_before = heap.free_list();
    let array_ref = heap.allocate(object);
    frame.operand_stack.push(JvmValue::Reference(Some(array_ref)));
    proof {
        assert forall|i: int| 0 <= i < frame.operand_stack@.len() implies (
        #[trigger] frame.operand_stack@[i] matches JvmValue::Reference(Some(r)) ==> live(heap@, r)) by {
            if i < frame.operand_stack@.len() - 1 {
                assert(frame.operand_stack@[i] == s[i]);
                if let JvmValue::Reference(Some(r)) = s[i] {
                    assert(live(before, r));
                    if free_before.len() > 0 {
                        assert(heap@[r as int] is Some);
                    } else {
                        assert(heap@[r as int] == before[r as int]);
                    }
                }
            }
        }
        assert(frame.operand_stack@.subrange(0, popped(s).len() as int) =~= popped(s));
    }
    Ok(Step::Next)
}

/// The element type and the dimension of the arrays that `anewarray` makes
/// for the resolved type `t`: one more dimension than `t`; a primitive type
/// is only an element type when it is an array itself.
pub open spec fn object_array_type_of(t: TypeInfo) -> Result<(ObjectArrayType, usize), JvmError> {
    match t.object_or_array {
        ObjectArrayType::Primitive(_) => if t.dimension == 0 {
            Err(JvmError::InvalidMultidimensionalPrimitiveArrayDimension)
        } else {
            Ok((t.object_or_array, (t.dimension + 1) as usize))
        },
        _ => Ok((t.object_or_array, (t.dimension + 1) as usize)),
    }
}

/// Converts a resolved type to the element type and dimension of an array of it.
pub fn determine_object_array_type_and_dimension(type_info: TypeInfo) -> (res: JvmResult<(ObjectArrayType, usize)>)
    requires
        type_info.dimension < usize::MAX,
    ensures
        unbox(res) == object_array_type_of(type_info),
{
    match type_info.object_or_array {
        ObjectArrayType::Primitive(_) => {
            if type_info.dimension == 0 {
                Err(JvmError::InvalidMultidimensionalPrimitiveArrayDimension.bx())
            } else {
                Ok((type_info.object_or_array, type_info.dimension + 1))
            }
        },
        _ => Ok((type_info.object_or_array, type_info.dimension + 1)),
    }
}

/// The rest of `anewarray` once its type is resolved: makes an array of
/// null references of the popped length and pushes a reference to it. A
/// negative length throws a `NegativeArraySizeException` (with the program
/// counter back behind the opcode, before the two index bytes).
pub fn new_object_array(frame: &mut JvmStackFrame, heap: &mut JvmHeap, type_info: TypeInfo) -> (res: JvmResult<Step>)
    requires
        stack_usable(*old(frame)),
        old(heap).wf(),
        values_live(old(frame).operand_stack@, old(heap)@),
        type_info.dimension < usize::MAX,
        old(frame).program_counter >= 2,
        old(heap).allocations() < usize::MAX,
    ensures
        stack_usable(*final(frame)),
        final(heap).wf(),
        values_live(final(frame).operand_stack@, final(heap)@),
        only_stack_and_pc_changed(*old(frame), *final(frame)),
        ({
            let pc = old(frame).program_counter;
            match object_array_type_of(type_info) {
                Err(e) => unbox(res) == Err::<Step, _>(e) && *final(frame) == *old(frame) && final(heap)@ == old(heap)@,
                Ok((t, d)) => match spec_pop_int(old(frame).operand_stack@) {
                    Err(e) => unbox(res) == Err::<Step, _>(e) && final(frame).program_counter == pc
                        && final(frame).operand_stack@ == popped(old(frame).operand_stack@) && final(heap)@ == old(heap)@,
                    Ok(n) => if n < 0 {
                        unbox(res) == Ok::<Step, JvmError>(Step::Throw(JvmException::NegativeArraySize))
                            && final(frame).program_counter == pc - 2 && final(frame).operand_stack@ == popped(
                            old(frame).operand_stack@,
                        ) && final(heap)@ == old(heap)@
                    } else {
                        &&& unbox(res) == Ok::<Step, JvmError>(Step::Next)
                        &&& final(frame).program_counter == pc
                        &&& final(frame).operand_stack@.len() == old(frame).operand_stack@.len()
                        &&& final(frame).operand_stack@.drop_last() == popped(old(frame).operand_stack@)
                        &&& final(frame).operand_stack@.last() matches JvmValue::Reference(Some(r))
                        &&& final(heap)@[r as int] matches Some(HeapObject::ObjectArray(arr))
                        &&& arr.array@ == Seq::new(n as nat, |i: int| None::<usize>)
                        &&& arr.dimension == d && arr.object_array_type == t
                        &&& old(heap).free_list().len() > 0 ==> r == old(heap).free_list().last()
                            && final(heap)@ == old(heap)@.update(r as int, final(heap)@[r as int])
                        &&& old(heap).free_list().len() == 0 ==> r == old(heap)@.len()
                            && final(heap)@ == old(heap)@.push(final(heap)@[r as int])
                    },
                },
            }
        }),
{
    let ghost s = frame.operand_stack@;
    let (array_type, array_dimension) = determine_object_array_type_and_dimension(type_info)?;
    let operand_value = pop_int(frame)?;
    if operand_value < 0 {
        frame.program_counter = frame.program_counter - 2;
        return Ok(Step::Throw(JvmException::NegativeArraySize));
    }
    let array_size = operand_value as usize;
    let object_array = ObjectArray {
        array: filled(None, array_size),
        dimension: array_dimension,
        object_array_type: array_type,
    };
    let ghost before = heap@;
    let ghost free_before = heap.free_list();
    let array_ref = heap.allocate(HeapObject::ObjectArray(object_array));
    frame.operand_stack.push(JvmValue::Reference(Some(array_ref)));
    proof {
        assert forall|i: int| 0 <= i < frame.operand_stack@.len() implies (
        #[trigger] frame.operand_stack@[i] matches JvmValue::Reference(Some(r)) ==> live(heap@, r)) by {
            if i < frame.operand_stack@.len() - 1 {
                assert(frame.operand_stack@[i] == s[i]);
                if let JvmValue::Reference(Some(r)) = s[i] {
                    assert(live(before, r));
                    if free_before.len() > 0 {
                        assert(heap@[r as int] is Some);
                    } else {
                        assert(heap@[r as int] == before[r as int]);
                    }
                }
            }
        }
        assert(frame.operand_stack@.drop_last() =~= popped(s));
    }
    Ok(Step::Next)
}

/// The class that the type entry of `new` names; an array type there is an
/// invalid class index.
pub fn class_of_new_type(type_info: TypeInfo, cp_index: u16) -> (res: JvmResult<ClassId>)
    ensures
        match type_info.object_or_array {
            ObjectArrayType::Class(c) => res == Ok::<ClassId, Box<JvmError>>(c),
            _ => res matches Err(e) && *e == JvmError::InvalidClassIndex(cp_index as usize),
        },
{
    match type_info.object_or_array {
        ObjectArrayType::Class(class) => Ok(class),
        _ => Err(JvmError::InvalidClassIndex(cp_index as usize).bx()),
    }
}

/// The rest of `new` once its class is resolved and initialised: makes an
/// object of class `class` whose fields, laid out as `field_infos`, hold
/// their types' default values, and pushes a reference to it.
pub fn new_object(frame: &mut JvmStackFrame, heap: &mut JvmHeap, class: ClassId, field_infos: &[FieldInfo])
    requires
        old(heap).wf(),
        values_live(old(frame).operand_stack@, old(heap)@),
        old(heap).allocations() < usize::MAX,
    ensures
        final(heap).wf(),
        values_live(final(frame).operand_stack@, final(heap)@),
        only_stack_changed(*old(frame), *final(frame)),
        final(frame).program_counter == old(frame).program_counter,
        final(frame).operand_stack@.len() == old(frame).operand_stack@.len() + 1,
        final(frame).operand_stack@.drop_last() == old(frame).operand_stack@,
        final(frame).operand_stack@.last() matches JvmValue::Reference(Some(r)) && {
            &&& final(heap)@[r as int] matches Some(HeapObject::Object { class: c, fields })
            &&& c == class
            &&& fields@ == field_infos@.map_values(|f: FieldInfo| default_value_of(f.descriptor_type))
            &&& !live(old(heap)@, r)
            &&& forall|i: int| 0 <= i < old(heap)@.len() && i != r ==> final(heap)@[i] == old(heap)@[i]
        },
{
    let ghost s = frame.operand_stack@;
    let object = initialise_object_fields(class, field_infos);
    let ghost before = heap@;
    let ghost free_before = heap.free_list();
    let object_ref = heap.allocate(object);
    frame.operand_stack.push(JvmValue::Reference(Some(object_ref)));
    proof {
        assert forall|i: int| 0 <= i < frame.operand_stack@.len() implies (
        #[trigger] frame.operand_stack@[i] matches JvmValue::Reference(Some(r)) ==> live(heap@, r)) by {
            if i < frame.operand_stack@.len() - 1 {
                assert(frame.operand_stack@[i] == s[i]);
                if let JvmValue::Reference(Some(r)) = s[i] {
                    assert(live(before, r));
                    if free_before.len() > 0 {
                        assert(heap@[r as int] is Some);
                    } else {
                        assert(heap@[r as int] == before[r as int]);
                    }
                }
            }
        }
        assert(frame.operand_stack@.drop_last() =~= s);
    }
}

/// Every class that an object of the heap names is in the hierarchy.
pub open spec fn heap_classes_known(slots: Seq<Option<HeapObject>>, n: nat) -> bool {
    forall|r: int| 0 <= r < slots.len() ==> object_classes_known(#[trigger] slots[r], n)
}

/// The class of an object, or the element class of an array of objects, is
/// one of the first `n`.
pub open spec fn object_classes_known(slot: Option<HeapObject>, n: nat) -> bool {
    match slot {
        Some(HeapObject::Object { class, .. }) => class < n,
        Some(HeapObject::ObjectArray(arr)) => arr.object_array_type matches ObjectArrayType::Class(c) ==> c < n,
        _ => true,
    }
}

/// A type names a class of the hierarchy, if it names a class.
pub open spec fn type_known(t: ObjectArrayType, n: nat) -> bool {
    t matches ObjectArrayType::Class(c) ==> c < n
}

/// A plain object of class `obj_class` is an instance of the expected type.
pub open spec fn non_array_instance_of(
    supers: Seq<Option<ClassId>>,
    ifaces: Seq<Seq<ClassId>>,
    obj_class: ClassId,
    expected: ObjectArrayType,
    dimension: usize,
) -> bool {
    match expected {
        ObjectArrayType::Class(parent) => dimension == 0 && subclass_of(supers, ifaces, parent as int, obj_class as int),
        _ => false,
    }
}

/// An array of primitives of type `array_type` is an instance of the
/// expected type: an array of the same primitive, or `java/lang/Object`.
pub open spec fn primitive_array_instance_of(
    supers: Seq<Option<ClassId>>,
    array_type: DescriptorType,
    expected: ObjectArrayType,
    dimension: usize,
) -> bool {
    match expected {
        ObjectArrayType::Primitive(t) => dimension == 1 && t == array_type,
        ObjectArrayType::Class(c) => supers[c as int] is None && dimension == 0,
    }
}

/// An array of references is an instance of the expected type: of a class
/// that its element class extends (or of `java/lang/Object`), or of the same
/// primitive, with the same dimension.
pub open spec fn object_array_instance_of(
    supers: Seq<Option<ClassId>>,
    ifaces: Seq<Seq<ClassId>>,
    arr_type: ObjectArrayType,
    arr_dimension: usize,
    expected: ObjectArrayType,
    dimension: usize,
) -> bool {
    match expected {
        ObjectArrayType::Class(ec) => if dimension == 0 && supers[ec as int] is None {
            true
        } else {
            (arr_type matches ObjectArrayType::Class(c) && subclass_of(supers, ifaces, ec as int, c as int))
                && dimension == arr_dimension
        },
        ObjectArrayType::Primitive(et) => (arr_type matches ObjectArrayType::Primitive(t) && t == et) && dimension
            == arr_dimension,
    }
}

/// The primitive type of an array of primitives.
pub open spec fn primitive_array_type(obj: HeapObject) -> Option<DescriptorType> {
    match obj {
        HeapObject::IntArray(_) => Some(DescriptorType::Integer),
        HeapObject::ByteArray(_) => Some(DescriptorType::Byte),
        HeapObject::BooleanArray(_) => Some(DescriptorType::Boolean),
        HeapObject::CharacterArray(_) => Some(DescriptorType::Character),
        HeapObject::ShortArray(_) => Some(DescriptorType::Short),
        HeapObject::FloatArray(_) => Some(DescriptorType::Float),
        HeapObject::DoubleArray(_) => Some(DescriptorType::Double),
        HeapObject::LongArray(_) => Some(DescriptorType::Long),
        _ => None,
    }
}

/// `obj` is an instance of the expected type (an array of that type when
/// `dimension` is not 0).
pub open spec fn instance_of(
    supers: Seq<Option<ClassId>>,
    ifaces: Seq<Seq<ClassId>>,
    expected: ObjectArrayType,
    dimension: usize,
    obj: HeapObject,
) -> bool {
    match obj {
        HeapObject::Object { class, .. } => non_array_instance_of(supers, ifaces, class, expected, dimension),
        HeapObject::ObjectArray(arr) => object_array_instance_of(
            supers,
            ifaces,
            arr.object_array_type,
            arr.dimension,
            expected,
            dimension,
        ),
        _ => primitive_array_instance_of(supers, primitive_array_type(obj).unwrap(), expected, dimension),
    }
}

fn check_non_array_instance_of(
    hierarchy: &ClassHierarchy,
    obj_class: ClassId,
    expected_type: ObjectArrayType,
    expected_dimension: usize,
) -> (res: bool)
    requires
        hierarchy.wf(),
        obj_class < hierarchy.supers().len(),
        type_known(expected_type, hierarchy.supers().len()),
    ensures
        res == non_array_instance_of(
            hierarchy.supers(),
            hierarchy.ifaces(),
            obj_class,
            expected_type,
            expected_dimension,
        ),
{
    match expected_type {
        ObjectArrayType::Class(parent) => expected_dimension == 0 && hierarchy.is_sublcass_of(parent, obj_class),
        _ => false,
    }
}

fn check_array_instance_of(
    hierarchy: &ClassHierarchy,
    array_type: DescriptorType,
    expected_type: ObjectArrayType,
    expected_dimension: usize,
) -> (res: bool)
    requires
        hierarchy.wf(),
        type_known(expected_type, hierarchy.supers().len()),
    ensures
        res == primitive_array_instance_of(hierarchy.supers(), array_type, expected_type, expected_dimension),
{
    let types_match = match expected_type {
        ObjectArrayType::Primitive(descriptor_type) => descriptor_type == array_type,
        ObjectArrayType::Class(class) => {
            if hierarchy.is_root(class) && 0 == expected_dimension {
                return true;
            } else {
                false
            }
        },
    };
    expected_dimension == 1 && types_match
}

fn check_object_array_instance_of(
    hierarchy: &ClassHierarchy,
    obj_array: &ObjectArray,
    expected_type: ObjectArrayType,
    expected_dimension: usize,
) -> (res: bool)
    requires
        hierarchy.wf(),
        type_known(obj_array.object_array_type, hierarchy.supers().len()),
        type_known(expected_type, hierarchy.supers().len()),
    ensures
        res == object_array_instance_of(
            hierarchy.supers(),
            hierarchy.ifaces(),
            obj_array.object_array_type,
            obj_array.dimension,
            expected_type,
            expected_dimension,
        ),
{
    let types_match = match expected_type {
        ObjectArrayType::Class(ex_class) => {
            if expected_dimension == 0 && hierarchy.is_root(ex_class) {
                return true;
            } else {
                match obj_array.object_array_type {
                    ObjectArrayType::Class(class) => hierarchy.is_sublcass_of(ex_class, class),
                    _ => false,
                }
            }
        },
        ObjectArrayType::Primitive(ex_descriptor_type) => match obj_array.object_array_type {
            ObjectArrayType::Primitive(descriptor_type) => descriptor_type == ex_descriptor_type,
            _ => false,
        },
    };
    let dimensions_match = expected_dimension == obj_array.dimension;
    types_match && dimensions_match
}

/// 1 when `object` is an instance of the expected type, 0 otherwise.
pub fn check_instance_of(
    hierarchy: &ClassHierarchy,
    expected_type: ObjectArrayType,
    dimension_if_array: usize,
    object: &HeapObject,
) -> (res: JvmResult<i32>)
    requires
        hierarchy.wf(),
        object_classes_known(Some(*object), hierarchy.supers().len()),
        type_known(expected_type, hierarchy.supers().len()),
    ensures
        unbox(res) == Ok::<i32, JvmError>(
            if instance_of(hierarchy.supers(), hierarchy.ifaces(), expected_type, dimension_if_array, *object) {
                1i32
            } else {
                0i32
            },
        ),
{
    let matches = match object {
        HeapObject::Object { class, fields: _ } => check_non_array_instance_of(
            hierarchy,
            *class,
            expected_type,
            dimension_if_array,
        ),
        HeapObject::IntArray(_) => check_array_instance_of(
            hierarchy,
            DescriptorType::Integer,
            expected_type,
            dimension_if_array,
        ),
        HeapObject::ByteArray(_) => check_array_instance_of(
            hierarchy,
            DescriptorType::Byte,
            expected_type,
            dimension_if_array,
        ),
        HeapObject::BooleanArray(_) => check_array_instance_of(
            hierarchy,
            DescriptorType::Boolean,
            expected_type,
            dimension_if_array,
        ),
        HeapObject::CharacterArray(_) => check_array_instance_of(
            hierarchy,
            DescriptorType::Character,
            expected_type,
            dimension_if_array,
        ),
        HeapObject::ShortArray(_) => check_array_instance_of(
            hierarchy,
            DescriptorType::Short,
            expected_type,
            dimension_if_array,
        ),
        HeapObject::FloatArray(_) => check_array_instance_of(
            hierarchy,
            DescriptorType::Float,
            expected_type,
            dimension_if_array,
        ),
        HeapObject::DoubleArray(_) => check_array_instance_of(
            hierarchy,
            DescriptorType::Double,
            expected_type,
            dimension_if_array,
        ),
        HeapObject::LongArray(_) => check_array_instance_of(
            hierarchy,
            DescriptorType::Long,
            expected_type,
            dimension_if_array,
        ),
        HeapObject::ObjectArray(object_array) => check_object_array_instance_of(
            hierarchy,
            object_array,
            expected_type,
            dimension_if_array,
        ),
    };
    let result: i32 = if matches {
        1
    } else {
        0
    };
    Ok(result)
}

/// The rest of `instanceof` once its type is resolved: pops a reference and
/// pushes 1 when it names an instance of the type, 0 otherwise (also for null).
pub fn instance_of_instruction_tail(frame: &mut JvmStackFrame, heap: &JvmHeap, hierarchy: &ClassHierarchy, type_info: TypeInfo) -> (res: JvmResult<()>)
    requires
        stack_usable(*old(frame)),
        values_live(old(frame).operand_stack@, heap@),
        hierarchy.wf(),
        heap_classes_known(heap@, hierarchy.supers().len()),
        type_known(type_info.object_or_array, hierarchy.supers().len()),
    ensures
        stack_usable(*final(frame)),
        values_live(final(frame).operand_stack@, heap@),
        only_stack_changed(*old(frame), *final(frame)),
        match spec_pop_reference(old(frame).operand_stack@) {
            Err(e) => unbox(res) == Err::<(), _>(e) && final(frame).operand_stack@ == popped(
                old(frame).operand_stack@,
            ),
            Ok(None) => res is Ok && final(frame).operand_stack@ == popped(old(frame).operand_stack@).push(
                JvmValue::Int(0),
            ),
            Ok(Some(r)) => res is Ok && final(frame).operand_stack@ == popped(old(frame).operand_stack@).push(
                JvmValue::Int(
                    if instance_of(
                        hierarchy.supers(),
                        hierarchy.ifaces(),
                        type_info.object_or_array,
                        type_info.dimension,
                        heap@[r as int].unwrap(),
                    ) {
                        1
                    } else {
                        0
                    },
                ),
            ),
        },
{
    let ghost s = frame.operand_stack@;
    let object_ref = match pop_reference(frame)? {
        Some(reference) => reference,
        None => {
            frame.operand_stack.push(JvmValue::Int(0));
            return Ok(());
        },
    };
    proof {
        assert(s[s.len() - 1] == JvmValue::Reference(Some(object_ref)));
    }
    let object = heap.get(object_ref);
    let instance_of_result = check_instance_of(hierarchy, type_info.object_or_array, type_info.dimension, object)?;
    frame.operand_stack.push(JvmValue::Int(instance_of_result));
    Ok(())
}

/// The element type and dimension that an array must have to hold a
/// reference to `element`.
pub open spec fn store_type_of(element: HeapObject) -> (ObjectArrayType, usize) {
    match element {
        HeapObject::Object { class, .. } => (ObjectArrayType::Class(class), 1),
        HeapObject::ObjectArray(arr) => (arr.object_array_type, (arr.dimension + 1) as usize),
        _ => (ObjectArrayType::Primitive(primitive_array_type(element).unwrap()), 2),
    }
}

/// An array of element type `arr_type` and dimension `arr_dimension` can
/// hold a reference to an object that needs the expected element type and
/// dimension.
pub open spec fn array_accepts(
    supers: Seq<Option<ClassId>>,
    ifaces: Seq<Seq<ClassId>>,
    arr_type: ObjectArrayType,
    arr_dimension: usize,
    expected: ObjectArrayType,
    dimension: usize,
) -> bool {
    &&& arr_dimension == dimension
    &&& match (arr_type, expected) {
        (ObjectArrayType::Class(c), ObjectArrayType::Class(ec)) => subclass_of(supers, ifaces, c as int, ec as int),
        (ObjectArrayType::Primitive(t), ObjectArrayType::Primitive(et)) => t == et,
        _ => false,
    }
}

/// The element type and dimension an array needs to hold `element`.
fn get_valid_object_array_store_for_element(element: &HeapObject) -> (res: (ObjectArrayType, usize))
    requires
        element matches HeapObject::ObjectArray(arr) ==> arr.dimension < usize::MAX,
    ensures
        res == store_type_of(*element),
{
    match element {
        HeapObject::Object { class, fields: _ } => (ObjectArrayType::Class(*class), 1),
        HeapObject::IntArray(_) => (ObjectArrayType::Primitive(DescriptorType::Integer), 2),
        HeapObject::ByteArray(_) => (ObjectArrayType::Primitive(DescriptorType::Byte), 2),
        HeapObject::BooleanArray(_) => (ObjectArrayType::Primitive(DescriptorType::Boolean), 2),
        HeapObject::CharacterArray(_) => (ObjectArrayType::Primitive(DescriptorType::Character), 2),
        HeapObject::ShortArray(_) => (ObjectArrayType::Primitive(DescriptorType::Short), 2),
        HeapObject::FloatArray(_) => (ObjectArrayType::Primitive(DescriptorType::Float), 2),
        HeapObject::DoubleArray(_) => (ObjectArrayType::Primitive(DescriptorType::Double), 2),
        HeapObject::LongArray(_) => (ObjectArrayType::Primitive(DescriptorType::Long), 2),
        HeapObject::ObjectArray(object_array) => (object_array.object_array_type, object_array.dimension + 1),
    }
}

fn check_object_array_type_matches_expected_element_type(
    hierarchy: &ClassHierarchy,
    obj_array: &ObjectArray,
    expected_type: ObjectArrayType,
    expected_dimension: usize,
) -> (res: bool)
    requires
        hierarchy.wf(),
        type_known(obj_array.object_array_type, hierarchy.supers().len()),
        type_known(expected_type, hierarchy.supers().len()),
    ensures
        res == array_accepts(
            hierarchy.supers(),
            hierarchy.ifaces(),
            obj_array.object_array_type,
            obj_array.dimension,
            expected_type,
            expected_dimension,
        ),
{
    obj_array.dimension == expected_dimension && match obj_array.object_array_type {
        ObjectArrayType::Class(class) => match expected_type {
            ObjectArrayType::Class(ex_class) => hierarchy.is_sublcass_of(class, ex_class),
            _ => false,
        },
        ObjectArrayType::Primitive(descriptor_type) => match expected_type {
            ObjectArrayType::Primitive(ex_descriptor_type) => ex_descriptor_type == descriptor_type,
            _ => false,
        },
    }
}

/// Every object array of the heap has a dimension below the largest `usize`.
pub open spec fn dimensions_bounded(slots: Seq<Option<HeapObject>>) -> bool {
    forall|r: int|
        0 <= r < slots.len() ==> (#[trigger] slots[r] matches Some(HeapObject::ObjectArray(arr))
            ==> arr.dimension < usize::MAX)
}

/// What `aastore` does: the outcome (and, when it stores, the array and
/// index that it stores to).
pub open spec fn object_array_store_outcome(
    supers: Seq<Option<ClassId>>,
    ifaces: Seq<Seq<ClassId>>,
    s: Seq<JvmValue>,
    slots: Seq<Option<HeapObject>>,
) -> Result<Step, JvmError> {
    match spec_pop_reference(s) {
        Err(e) => Err(e),
        Ok(value) => match spec_pop_int(popped(s)) {
            Err(e) => Err(e),
            Ok(index) => match spec_pop_reference(popped(popped(s))) {
                Err(e) => Err(e),
                Ok(None) => Ok(Step::Throw(JvmException::NullPointer)),
                Ok(Some(r)) => match slots[r as int].unwrap() {
                    HeapObject::ObjectArray(arr) => if index < 0 || index >= arr.array@.len() {
                        Ok(Step::Throw(JvmException::ArrayIndexOutOfBounds))
                    } else if (value matches Some(v) && !array_accepts(
                        supers,
                        ifaces,
                        arr.object_array_type,
                        arr.dimension,
                        store_type_of(slots[v as int].unwrap()).0,
                        store_type_of(slots[v as int].unwrap()).1,
                    )) {
                        Ok(Step::Throw(JvmException::ArrayStore))
                    } else {
                        Ok(Step::Next)
                    },
                    _ => Ok(Step::Throw(JvmException::ArrayStore)),
                },
            },
        },
    }
}

/// The operand stack after `aastore`.
pub open spec fn object_array_store_stack(s: Seq<JvmValue>) -> Seq<JvmValue> {
    if spec_pop_reference(s) is Err {
        popped(s)
    } else if spec_pop_int(popped(s)) is Err {
        popped(popped(s))
    } else {
        popped(popped(popped(s)))
    }
}

/// `aastore`: takes a reference, an index and an array reference off the
/// stack and stores the reference in the array, when the array's type can
/// hold it.
pub fn store_object_array_instruction(frame: &mut JvmStackFrame, heap: &mut JvmHeap, hierarchy: &ClassHierarchy) -> (res: JvmResult<Step>)
    requires
        stack_usable(*old(frame)),
        old(heap).wf(),
        values_live(old(frame).operand_stack@, old(heap)@),
        hierarchy.wf(),
        heap_classes_known(old(heap)@, hierarchy.supers().len()),
        dimensions_bounded(old(heap)@),
    ensures
        stack_usable(*final(frame)),
        final(heap).wf(),
        values_live(final(frame).operand_stack@, final(heap)@),
        heap_classes_known(final(heap)@, hierarchy.supers().len()),
        dimensions_bounded(final(heap)@),
        only_stack_changed(*old(frame), *final(frame)),
        unbox(res) == object_array_store_outcome(
            hierarchy.supers(),
            hierarchy.ifaces(),
            old(frame).operand_stack@,
            old(heap)@,
        ),
        final(frame).operand_stack@ == object_array_store_stack(old(frame).operand_stack@),
        res matches Ok(Step::Next) ==> ({
            let s = old(frame).operand_stack@;
            let r = spec_pop_reference(popped(popped(s)))->Ok_0->Some_0 as int;
            let index = spec_pop_int(popped(s))->Ok_0 as int;
            let value = spec_pop_reference(s)->Ok_0;
            &&& final(heap)@ == old(heap)@.update(r, final(heap)@[r])
            &&& final(heap)@[r] matches Some(HeapObject::ObjectArray(after))
            &&& old(heap)@[r] matches Some(HeapObject::ObjectArray(before))
            &&& after.array@ == before.array@.update(index, value)
            &&& after.dimension == before.dimension
            &&& after.object_array_type == before.object_array_type
        }),
        !(res matches Ok(Step::Next)) ==> final(heap)@ == old(heap)@,
        final(heap).free_list() == old(heap).free_list(),
        final(heap).allocations() == old(heap).allocations(),
        final(heap).min_allocations() == old(heap).min_allocations(),
        final(heap).gc_due() == old(heap).gc_due(),
{
    let ghost s = frame.operand_stack@;
    let value = pop_reference(frame)?;
    let expected_storage_type = match value {
        Some(non_null) => {
            proof {
                assert(s[s.len() - 1] == JvmValue::Reference(Some(non_null)));
                assert(heap@[non_null as int] matches Some(obj) ==> object_classes_known(
                    heap@[non_null as int],
                    hierarchy.supers().len(),
                ));
            }
            Some(get_valid_object_array_store_for_element(heap.get(non_null)))
        },
        None => None,
    };
    let index = pop_int(frame)?;
    let array_ref = match pop_reference(frame)? {
        Some(array_ref) => array_ref,
        None => return Ok(Step::Throw(JvmException::NullPointer)),
    };
    proof {
        assert(s[s.len() - 3] == JvmValue::Reference(Some(array_ref)));
        assert(object_classes_known(heap@[array_ref as int], hierarchy.supers().len()));
        if let Some(v) = value {
            assert(object_classes_known(heap@[v as int], hierarchy.supers().len()));
        }
    }
    let is_storage_valid = match heap.get(array_ref) {
        HeapObject::ObjectArray(obj_array) => {
            if index < 0 || index as usize >= obj_array.array.len() {
                return Ok(Step::Throw(JvmException::ArrayIndexOutOfBounds));
            }
            match expected_storage_type {
                Some((expected_type, expected_dimension)) => check_object_array_type_matches_expected_element_type(
                    hierarchy,
                    obj_array,
                    expected_type,
                    expected_dimension,
                ),
                None => true,
            }
        },
        _ => return Ok(Step::Throw(JvmException::ArrayStore)),
    };
    if !is_storage_valid {
        return Ok(Step::Throw(JvmException::ArrayStore));
    }
    let ghost before = heap@;
    let obj = heap.get_mut(array_ref);
    match obj {
        HeapObject::ObjectArray(obj_array) => {
            obj_array.array.set(index as usize, value);
        },
        _ => {},
    }
    proof {
        assert forall|i: int| 0 <= i < frame.operand_stack@.len() implies (
        #[trigger] frame.operand_stack@[i] matches JvmValue::Reference(Some(r)) ==> live(heap@, r)) by {
            assert(frame.operand_stack@[i] == s[i]);
        }
        assert forall|r: int| 0 <= r < heap@.len() implies object_classes_known(
            #[trigger] heap@[r],
            hierarchy.supers().len(),
        ) by {
            assert(object_classes_known(before[r], hierarchy.supers().len()));
        }
        assert forall|r: int|
            0 <= r < heap@.len() implies (#[trigger] heap@[r] matches Some(HeapObject::ObjectArray(arr))
            ==> arr.dimension < usize::MAX) by {
            assert(before[r] matches Some(HeapObject::ObjectArray(arr)) ==> arr.dimension < usize::MAX);
        }
    }
    Ok(Step::Next)
}

/// `athrow`: takes a reference to an object off the stack and, when its
/// class extends `throwable`, makes the frame throw it.
pub fn throw_exception_instruction(
    frame: &mut JvmStackFrame,
    heap: &JvmHeap,
    hierarchy: &ClassHierarchy,
    throwable: ClassId,
) -> (res: JvmResult<Step>)
    requires
        stack_usable(*old(frame)),
        values_live(old(frame).operand_stack@, heap@),
        hierarchy.wf(),
        heap_classes_known(heap@, hierarchy.supers().len()),
        throwable < hierarchy.supers().len(),
        spec_pop_reference(old(frame).operand_stack@) matches Ok(Some(r)) ==> heap@[r as int] matches Some(
            HeapObject::Object { .. },
        ),
    ensures
        stack_usable(*final(frame)),
        values_live(final(frame).operand_stack@, heap@),
        final(frame).operand_stack@ == popped(old(frame).operand_stack@),
        final(frame).local_variables@ == old(frame).local_variables@,
        final(frame).program_counter == old(frame).program_counter,
        final(frame).class == old(frame).class,
        final(frame).method_index == old(frame).method_index,
        final(frame).bytecode_index == old(frame).bytecode_index,
        final(frame).is_void == old(frame).is_void,
        match spec_pop_reference(old(frame).operand_stack@) {
            Err(e) => unbox(res) == Err::<Step, _>(e) && final(frame).should_return == old(frame).should_return
                && final(frame).return_value == old(frame).return_value,
            Ok(None) => unbox(res) == Ok::<Step, JvmError>(Step::Throw(JvmException::NullPointer))
                && final(frame).should_return == old(frame).should_return && final(frame).return_value == old(
                frame,
            ).return_value,
            Ok(Some(r)) => if subclass_of(
                hierarchy.supers(),
                hierarchy.ifaces(),
                throwable as int,
                heap@[r as int]->Some_0->Object_class as int,
            ) {
                unbox(res) == Ok::<Step, JvmError>(Step::Next) && final(frame).should_return == FrameReturn::Exception
                    && final(frame).return_value == Some(JvmValue::Reference(Some(r)))
            } else {
                unbox(res) == Err::<Step, _>(JvmError::ExpectedThrowable) && final(frame).should_return == old(
                    frame,
                ).should_return && final(frame).return_value == old(frame).return_value
            },
        },
{
    let ghost s = frame.operand_stack@;
    let exception_ref = match pop_reference(frame)? {
        Some(ex_ref) => ex_ref,
        None => return Ok(Step::Throw(JvmException::NullPointer)),
    };
    proof {
        assert(s[s.len() - 1] == JvmValue::Reference(Some(exception_ref)));
        assert(object_classes_known(heap@[exception_ref as int], hierarchy.supers().len()));
    }
    let exception_class = match heap.get(exception_ref) {
        HeapObject::Object { class, fields: _ } => *class,
        _ => vstd::pervasive::unreached(),
    };
    if !hierarchy.is_sublcass_of(throwable, exception_class) {
        return Err(JvmError::ExpectedThrowable.bx());
    }
    frame.set_exception(exception_ref);
    Ok(Step::Next)
}

/// What a class or array type name stands for: a class by its name, or a
/// primitive type.
#[derive(Debug, Clone, PartialEq, Eq)]
pub enum TypeName {
    Class(String),
    Primitive(DescriptorType),
}

/// The number of `[` that `s` starts with, from position `i` on.
pub open spec fn leading_brackets(s: Seq<char>, i: int) -> int
    decreases s.len() - i,
{
    if 0 <= i < s.len() && s[i] == '[' {
        leading_brackets(s, i + 1)
    } else {
        i
    }
}

/// What `determine_type_and_dimension_if_array` gives for `s`: the element
/// type named by the type name and the number of its array dimensions.
pub open spec fn type_and_dimension(s: Seq<char>) -> (Option<Seq<char>>, Option<DescriptorType>, int) {
    let d = leading_brackets(s, 0);
    if d == 0 {
        (Some(s), None, 0)
    } else if s[d] == 'L' {
        (Some(s.subrange(d + 1, s.len() - 1)), None, d)
    } else {
        (None, Some(descriptor_type_of(s[d])), d)
    }
}

/// A type name that names an array has an element type after its `[`s,
/// and the class name of an `L...;` element type has room for both ends.
pub open spec fn type_name_well_formed(s: Seq<char>) -> bool {
    let d = leading_brackets(s, 0);
    d > 0 ==> d < s.len() && (s[d] == 'L' ==> d + 2 <= s.len())
}

proof fn lemma_leading_brackets(s: Seq<char>, i: int)
    requires
        0 <= i <= s.len(),
    ensures
        i <= leading_brackets(s, i) <= s.len(),
        forall|k: int| i <= k < leading_brackets(s, i) ==> s[k] == '[',
        leading_brackets(s, i) < s.len() ==> s[leading_brackets(s, i)] != '[',
    decreases s.len() - i,
{
    if i < s.len() && s[i] == '[' {
        lemma_leading_brackets(s, i + 1);
    }
}

/// Splits a class or array type name into its element type and its
/// dimension (0 for no array): a class to load, by name, or a primitive type.
pub fn determine_type_and_dimension_if_array(object_type: &str) -> (res: (TypeName, usize))
    requires
        type_name_well_formed(object_type@),
    ensures
        ({
            let (class_name, primitive, d) = type_and_dimension(object_type@);
            &&& res.1 == d
            &&& match res.0 {
                TypeName::Class(name) => class_name == Some(name@),
                TypeName::Primitive(t) => primitive == Some(t),
            }
        }),
{
    let chars = str_to_chars(object_type);
    let ghost s = object_type@;
    proof {
        lemma_leading_brackets(s, 0);
    }
    let mut dimension: usize = 0;
    while dimension < chars.len() && chars[dimension] == '['
        invariant
            chars@ == s,
            0 <= dimension <= s.len(),
            leading_brackets(s, dimension as int) == leading_brackets(s, 0),
        decreases s.len() - dimension,
    {
        dimension += 1;
    }
    if dimension == 0 {
        return (TypeName::Class(object_type.to_owned()), 0);
    }
    if chars[dimension] == 'L' {
        let name = object_type.substring_char(dimension + 1, chars.len() - 1);
        (TypeName::Class(name.to_owned()), dimension)
    } else {
        (TypeName::Primitive(DescriptorType::from_char(chars[dimension])), dimension)
    }
}


/// Whether `object_type` is a type name that
/// `determine_type_and_dimension_if_array` can split.
pub fn type_name_checked(object_type: &str) -> (res: bool)
    ensures
        res == type_name_well_formed(object_type@),
{
    let chars = str_to_chars(object_type);
    let ghost s = object_type@;
    proof {
        lemma_leading_brackets(s, 0);
    }
    let mut dimension: usize = 0;
    while dimension < chars.len() && chars[dimension] == '['
        invariant
            chars@ == s,
            0 <= dimension <= s.len(),
            leading_brackets(s, dimension as int) == leading_brackets(s, 0),
        decreases s.len() - dimension,
    {
        dimension += 1;
    }
    if dimension == 0 {
        return true;
    }
    dimension < chars.len() && (chars[dimension] != 'L' || 2 <= chars.len() - dimension)
}

} // verus!
