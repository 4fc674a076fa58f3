//! Reading and writing the fields of objects and the static fields of
//! classes, once the field is resolved.
use vstd::prelude::*;

use crate::bytecode::{
    JvmException, Step, only_stack_changed, pop_any, pop_reference, popped, spec_pop_any,
    spec_pop_reference, stack_usable, unbox,
};
use crate::jvm_heap::{JvmHeap, live, values_live};
use crate::jvm_model::{
    ClassId, DescriptorType, FieldInfo, HeapObject, JvmError, JvmResult, JvmStackFrame, JvmValue, StaticFieldInfo,
    value_matches,
};
use crate::class_file::{ClassFile, cp_class_name};
use crate::class_hierarchy::ClassHierarchy;
use crate::text::str_equal;

verus! {

/// The position of the field named `name` among the fields of an object of
/// class `class`: the one `class` declares, else the first of that name.
pub open spec fn field_position(fields: Seq<FieldInfo>, class: ClassId, name: Seq<char>) -> Option<int> {
    if exists|i: int| 0 <= i < fields.len() && fields[i].name@ == name && fields[i].class == class {
        Some(
            choose|i: int|
                0 <= i < fields.len() && fields[i].name@ == name && fields[i].class == class && forall|j: int|
                    0 <= j < i ==> !(fields[j].name@ == name && fields[j].class == class),
        )
    } else if exists|i: int| 0 <= i < fields.len() && fields[i].name@ == name {
        Some(
            choose|i: int|
                0 <= i < fields.len() && fields[i].name@ == name && forall|j: int| 0 <= j < i ==> fields[j].name@ != name,
        )
    } else {
        None
    }
}

/// Finds the field named `field_name` among `fields`, the fields of the
/// objects of class `declared_class` (named `class_name`).
pub fn find_field_index(
    declared_class: ClassId,
    class_name: &str,
    fields: &[FieldInfo],
    field_name: &str,
) -> (res: JvmResult<usize>)
    ensures
        match field_position(fields@, declared_class, field_name@) {
            Some(i) => res == Ok::<usize, Box<JvmError>>(i as usize),
            None => res matches Err(e) && (*e matches JvmError::FieldNotFound { class_name: c, field_name: f }
                && c@ == class_name@ && f@ == field_name@),
        },
{
    let mut i: usize = 0;
    while i < fields.len()
        invariant
            i <= fields@.len(),
            forall|j: int| 0 <= j < i ==> !(fields@[j].name@ == field_name@ && fields@[j].class == declared_class),
        decreases fields@.len() - i,
    {
        if str_equal(fields[i].name.as_str(), field_name) && fields[i].class == declared_class {
            proof {
                let k = choose|k: int|
                    0 <= k < fields@.len() && fields@[k].name@ == field_name@ && fields@[k].class == declared_class
                        && forall|j: int|
                        0 <= j < k ==> !(fields@[j].name@ == field_name@ && fields@[j].class == declared_class);
                if k < i {
                } else if k > i {
                    assert(!(fields@[i as int].name@ == field_name@ && fields@[i as int].class == declared_class));
                }
            }
            return Ok(i);
        }
        i += 1;
    }
    let mut i: usize = 0;
    while i < fields.len()
        invariant
            i <= fields@.len(),
            forall|j: int| 0 <= j < fields@.len() ==> !(fields@[j].name@ == field_name@ && fields@[j].class == declared_class),
            forall|j: int| 0 <= j < i ==> fields@[j].name@ != field_name@,
        decreases fields@.len() - i,
    {
        if str_equal(fields[i].name.as_str(), field_name) {
            proof {
                let k = choose|k: int|
                    0 <= k < fields@.len() && fields@[k].name@ == field_name@ && forall|j: int|
                        0 <= j < k ==> fields@[j].name@ != field_name@;
                if k < i {
                } else if k > i {
                    assert(fields@[i as int].name@ != field_name@);
                }
            }
            return Ok(i);
        }
        i += 1;
    }
    Err(JvmError::FieldNotFound { class_name: class_name.to_owned(), field_name: field_name.to_owned() }.bx())
}

/// The object that a popped reference names is a plain object with a field
/// at `index`.
pub open spec fn field_readable(s: Seq<JvmValue>, slots: Seq<Option<HeapObject>>, index: usize) -> bool {
    spec_pop_reference(s) matches Ok(Some(r)) ==> slots[r as int] matches Some(
        HeapObject::Object { fields, .. },
    ) && index < fields@.len()
}

/// The rest of `getfield` once the field is resolved to position `field_index`:
/// pops an object reference and pushes the object's field.
pub fn get_field(frame: &mut JvmStackFrame, heap: &JvmHeap, field_index: usize) -> (res: JvmResult<Step>)
    requires
        stack_usable(*old(frame)),
        values_live(old(frame).operand_stack@, heap@),
        field_readable(old(frame).operand_stack@, heap@, field_index),
        spec_pop_reference(old(frame).operand_stack@) matches Ok(Some(r)) ==> !(heap@[r as int]->Some_0->Object_fields@[field_index as int] is Unusable)
            && (heap@[r as int]->Some_0->Object_fields@[field_index as int] matches JvmValue::Reference(Some(x)) ==> live(heap@, x)),
    ensures
        stack_usable(*final(frame)),
        values_live(final(frame).operand_stack@, heap@),
        only_stack_changed(*old(frame), *final(frame)),
        match spec_pop_reference(old(frame).operand_stack@) {
            Err(e) => unbox(res) == Err::<Step, _>(e) && final(frame).operand_stack@ == popped(old(frame).operand_stack@),
            Ok(None) => unbox(res) == Ok::<Step, JvmError>(Step::Throw(JvmException::NullPointer))
                && final(frame).operand_stack@ == popped(old(frame).operand_stack@),
            Ok(Some(r)) => unbox(res) == Ok::<Step, JvmError>(Step::Next) && final(frame).operand_stack@ == popped(
                old(frame).operand_stack@,
            ).push(heap@[r as int]->Some_0->Object_fields@[field_index as int]),
        },
{
    let ghost s = frame.operand_stack@;
    let object_ref = match pop_reference(frame)? {
        Some(reference) => reference,
        None => return Ok(Step::Throw(JvmException::NullPointer)),
    };
    proof {
        assert(s[s.len() - 1] == JvmValue::Reference(Some(object_ref)));
    }
    let value = match heap.get(object_ref) {
        HeapObject::Object { class: _, fields } => fields[field_index],
        _ => vstd::pervasive::unreached(),
    };
    frame.operand_stack.push(value);
    proof {
        assert forall|i: int| 0 <= i < frame.operand_stack@.len() implies (
        #[trigger] frame.operand_stack@[i] matches JvmValue::Reference(Some(x)) ==> live(heap@, x)) by {
            if i < frame.operand_stack@.len() - 1 {
                assert(frame.operand_stack@[i] == s[i]);
            }
        }
    }
    Ok(Step::Next)
}

/// The rest of `putfield` once the field is resolved to position
/// `field_index` with type `field_descriptor`: pops a value and an object
/// reference and stores the value in the object's field.
pub fn put_field(
    frame: &mut JvmStackFrame,
    heap: &mut JvmHeap,
    field_index: usize,
    field_descriptor: DescriptorType,
) -> (res: JvmResult<Step>)
    requires
        stack_usable(*old(frame)),
        old(heap).wf(),
        values_live(old(frame).operand_stack@, old(heap)@),
        spec_pop_any(old(frame).operand_stack@) matches Ok(v) ==> ({
            &&& field_readable(popped(old(frame).operand_stack@), old(heap)@, field_index)
            &&& spec_pop_reference(popped(old(frame).operand_stack@)) matches Ok(Some(_)) ==> value_matches(
                v,
                field_descriptor,
            )
        }),
    ensures
        stack_usable(*final(frame)),
        final(heap).wf(),
        values_live(final(frame).operand_stack@, final(heap)@),
        only_stack_changed(*old(frame), *final(frame)),
        final(heap).free_list() == old(heap).free_list(),
        final(heap).allocations() == old(heap).allocations(),
        final(heap).min_allocations() == old(heap).min_allocations(),
        final(heap).gc_due() == old(heap).gc_due(),
        match spec_pop_any(old(frame).operand_stack@) {
            Err(e) => unbox(res) == Err::<Step, _>(e) && final(frame).operand_stack@ == popped(old(frame).operand_stack@)
                && final(heap)@ == old(heap)@,
            Ok(v) => {
                let s1 = popped(old(frame).operand_stack@);
                &&& final(frame).operand_stack@ == popped(s1)
                &&& match spec_pop_reference(s1) {
                    Err(e) => unbox(res) == Err::<Step, _>(e) && final(heap)@ == old(heap)@,
                    Ok(None) => unbox(res) == Ok::<Step, JvmError>(Step::Throw(JvmException::NullPointer))
                        && final(heap)@ == old(heap)@,
                    Ok(Some(r)) => {
                        &&& unbox(res) == Ok::<Step, JvmError>(Step::Next)
                        &&& final(heap)@ == old(heap)@.update(r as int, final(heap)@[r as int])
                        &&& final(heap)@[r as int] matches Some(HeapObject::Object { class, fields })
                        &&& class == old(heap)@[r as int]->Some_0->Object_class
                        &&& fields@ == old(heap)@[r as int]->Some_0->Object_fields@.update(field_index as int, v)
                    },
                }
            },
        },
{
    let ghost s = frame.operand_stack@;
    let value = pop_any(frame)?;
    let object_ref = match pop_reference(frame)? {
        Some(reference) => reference,
        None => return Ok(Step::Throw(JvmException::NullPointer)),
    };
    proof {
        assert(s[s.len() - 2] == JvmValue::Reference(Some(object_ref)));
        assert(!(value is Unusable));
    }
    let matches = value.matches_type(field_descriptor);
    if !matches {
        return vstd::pervasive::unreached();
    }
    let object = heap.get_mut(object_ref);
    match object {
        HeapObject::Object { class: _, fields } => {
            fields.set(field_index, value);
        },
        _ => {},
    }
    proof {
        assert forall|i: int| 0 <= i < frame.operand_stack@.len() implies (
        #[trigger] frame.operand_stack@[i] matches JvmValue::Reference(Some(x)) ==> live(heap@, x)) by {
            assert(frame.operand_stack@[i] == s[i]);
        }
    }
    Ok(Step::Next)
}

/// The rest of `getstatic` once the static field is resolved: pushes its value.
pub fn get_static(frame: &mut JvmStackFrame, field: &StaticFieldInfo) -> (res: JvmResult<()>)
    requires
        stack_usable(*old(frame)),
        !(field.value is Unusable),
    ensures
        stack_usable(*final(frame)),
        res is Ok,
        final(frame).operand_stack@ == old(frame).operand_stack@.push(field.value),
        only_stack_changed(*old(frame), *final(frame)),
{
    frame.operand_stack.push(field.value);
    Ok(())
}

/// The rest of `putstatic` once the static field is resolved: pops a value
/// of the field's type and stores it.
pub fn put_static(frame: &mut JvmStackFrame, field: &mut StaticFieldInfo) -> (res: JvmResult<()>)
    requires
        stack_usable(*old(frame)),
        spec_pop_any(old(frame).operand_stack@) matches Ok(v) ==> value_matches(v, old(field).descriptor_type),
    ensures
        stack_usable(*final(frame)),
        final(frame).operand_stack@ == popped(old(frame).operand_stack@),
        only_stack_changed(*old(frame), *final(frame)),
        final(field).name@ == old(field).name@,
        final(field).descriptor_type == old(field).descriptor_type,
        final(field).field_class_file_index == old(field).field_class_file_index,
        match spec_pop_any(old(frame).operand_stack@) {
            Err(e) => unbox(res) == Err::<(), _>(e) && final(field).value == old(field).value,
            Ok(v) => res is Ok && final(field).value == v,
        },
{
    let descriptor = field.descriptor_type;
    let value = pop_any(frame)?;
    let matches = value.matches_type(descriptor);
    if !matches {
        return vstd::pervasive::unreached();
    }
    field.value = value;
    Ok(())
}

/// The position of the first of `fields`, from `i` on, named `name`.
pub open spec fn first_static_named(fields: Seq<StaticFieldInfo>, name: Seq<char>, i: int) -> Option<int>
    decreases fields.len() - i,
{
    if i < 0 || i >= fields.len() {
        None
    } else if fields[i].name@ == name {
        Some(i)
    } else {
        first_static_named(fields, name, i + 1)
    }
}

/// Where the static field `name` that class `c` uses lives: the class, up
/// the super chain from `c`, that first declares it, with its position there;
/// else the class where the search ended, one without static fields known or
/// without a super class.
pub open spec fn static_field_owner(
    supers: Seq<Option<ClassId>>,
    statics: Seq<Option<Vec<StaticFieldInfo>>>,
    c: int,
    name: Seq<char>,
) -> Result<(int, int), int>
    decreases c,
{
    match statics[c] {
        None => Err(c),
        Some(v) => match first_static_named(v@, name, 0) {
            Some(i) => Ok((c, i)),
            None => match supers[c] {
                Some(s) => if 0 <= s < c {
                    static_field_owner(supers, statics, s as int, name)
                } else {
                    Err(c)
                },
                None => Err(c),
            },
        },
    }
}

/// The name of the class whose file is `cf`.
pub open spec fn class_name_of(cf: ClassFile) -> Seq<char> {
    cp_class_name(cf.constant_pool@, cf.class_index as int).unwrap()
}

/// Finds the static field `name` that class `class` uses: the class up its
/// super chain that declares it, and its position among that class's static
/// fields (`static_fields` holds them per class, where they are known).
pub fn find_static_field_class_with_index(
    hierarchy: &ClassHierarchy,
    class_files: &Vec<ClassFile>,
    static_fields: &Vec<Option<Vec<StaticFieldInfo>>>,
    class: ClassId,
    name: &str,
) -> (res: JvmResult<(ClassId, usize)>)
    requires
        hierarchy.wf(),
        class < hierarchy.supers().len(),
        static_fields@.len() == hierarchy.supers().len(),
        class_files@.len() == hierarchy.supers().len(),
        forall|c: int|
            0 <= c < class_files@.len() ==> (#[trigger] class_files@[c]).wf() && cp_class_name(
                class_files@[c].constant_pool@,
                class_files@[c].class_index as int,
            ) is Some,
    ensures
        match static_field_owner(hierarchy.supers(), static_fields@, class as int, name@) {
            Ok((c, i)) => res matches Ok((rc, ri)) && rc as int == c && ri as int == i,
            Err(c) => res matches Err(e) && (*e matches JvmError::StaticFieldNotFound {
                class_name: n,
                field_name: f,
            } && n@ == class_name_of(class_files@[c]) && f@ == name@),
        },
{
    let ghost supers = hierarchy.supers();
    let mut current = class;
    loop
        invariant
            hierarchy.wf(),
            supers == hierarchy.supers(),
            current < supers.len(),
            static_fields@.len() == supers.len(),
            static_field_owner(supers, static_fields@, class as int, name@) == static_field_owner(
                supers,
                static_fields@,
                current as int,
                name@,
            ),
        ensures
            current < supers.len(),
            static_field_owner(supers, static_fields@, class as int, name@) == Err::<(int, int), int>(current as int),
        decreases current,
    {
        proof {
            hierarchy.lemma_loaded_before(current);
        }
        match &static_fields[current] {
            None => {
                break;
            },
            Some(fields) => {
                proof {
                    assert(static_fields@[current as int] == Some(*fields));
                }
                let mut i: usize = 0;
                while i < fields.len()
                    invariant
                        supers == hierarchy.supers(),
                        current < static_fields@.len(),
                        static_fields@[current as int] == Some(*fields),
                        static_field_owner(supers, static_fields@, class as int, name@) == static_field_owner(
                            supers,
                            static_fields@,
                            current as int,
                            name@,
                        ),
                        i <= fields@.len(),
                        first_static_named(fields@, name@, 0) == first_static_named(fields@, name@, i as int),
                    decreases fields@.len() - i,
                {
                    if str_equal(name, fields[i].name.as_str()) {
                        proof {
                            assert(first_static_named(fields@, name@, i as int) == Some(i as int));
                            assert(static_field_owner(supers, static_fields@, current as int, name@) == Ok::<
                                (int, int),
                                int,
                            >((current as int, i as int)));
                        }
                        return Ok((current, i));
                    }
                    i += 1;
                }
                proof {
                    assert(static_fields@[current as int] == Some(*fields));
                }
                match hierarchy.super_class(current) {
                    Some(parent) => {
                        current = parent;
                    },
                    None => {
                        break;
                    },
                }
            },
        }
    }
    proof {
        assert(class_files@[current as int].wf());
    }
    let class_name = match class_files[current].get_class_name() {
        Some(n) => n,
        None => vstd::pervasive::unreached(),
    };
    Err(JvmError::StaticFieldNotFound { class_name: class_name.to_owned(), field_name: name.to_owned() }.bx())
}

} // verus!
