use jvankom::jvm_heap::JvmHeap;
use jvankom::jvm_model::{
    FrameReturn, HeapObject, JvmStackFrame, JvmThread, JvmValue, ObjectArray, ObjectArrayType,
};

const TEST_CLASS: usize = 0;

fn mock_thread(reference: Option<usize>) -> JvmThread {
    let mut t = JvmThread::new();
    t.push(JvmStackFrame {
        class: TEST_CLASS,
        method_index: 0,
        bytecode_index: 0,
        local_variables: vec![JvmValue::Reference(reference)],
        operand_stack: vec![],
        program_counter: 0,
        is_void: true,
        should_return: FrameReturn::NotReturning,
        return_value: None,
    });
    t
}

fn get_mock_obj(reference1: Option<usize>, reference2: Option<usize>) -> HeapObject {
    HeapObject::Object {
        class: TEST_CLASS,
        fields: vec![JvmValue::Reference(reference1), JvmValue::Reference(reference2)],
    }
}

fn get_mock_arr(reference1: Option<usize>, reference2: Option<usize>) -> HeapObject {
    let arr = ObjectArray {
        array: vec![reference1, reference2],
        dimension: 1,
        object_array_type: ObjectArrayType::Class(TEST_CLASS),
    };
    HeapObject::ObjectArray(arr)
}

#[test]
fn test_allocate() {
    let mut heap = JvmHeap::new(2, 100);
    let r1 = heap.allocate(get_mock_obj(None, None));
    let r2 = heap.allocate(get_mock_obj(None, None));
    let r3 = heap.allocate(get_mock_obj(None, None));

    assert!(r1 != r2 && r1 != r3 && r2 != r3);
    assert_eq!(4, heap.heap_size());
    assert_eq!(3, heap.get_allocated_count());
}

#[test]
fn test_gc_frees_all_unreachable_objects() {
    let mut heap = JvmHeap::new(2, 0);

    heap.allocate(get_mock_obj(None, None));
    heap.allocate(get_mock_obj(None, None));
    heap.allocate(get_mock_obj(None, None));
    assert_eq!(3, heap.get_allocated_count());

    heap.perform_gc(&[], &[], &[]);

    assert_eq!(0, heap.get_allocated_count());
}

#[test]
fn test_gc_frees_all_reachable_objects() {
    let mut heap = JvmHeap::new(2, 0);

    let r1 = heap.allocate(get_mock_obj(None, None));
    let r2 = heap.allocate(get_mock_obj(None, None));
    let r3 = heap.allocate(get_mock_obj(Some(r1), Some(r2)));
    assert_eq!(3, heap.get_allocated_count());

    let t = mock_thread(Some(r3));
    heap.perform_gc(&[&t], &[], &[]);

    assert_eq!(3, heap.get_allocated_count());
}

#[test]
fn test_gc_resets_should_gc_flag() {
    let mut heap = JvmHeap::new(2, 1);

    heap.allocate(get_mock_obj(None, None));
    heap.allocate(get_mock_obj(None, None));
    assert!(heap.should_gc);

    heap.perform_gc(&[], &[], &[]);

    assert!(!heap.should_gc);
}

#[test]
fn test_gc_freed_slots_are_reused() {
    let mut heap = JvmHeap::new(4, 100);

    heap.allocate(get_mock_obj(None, None));
    heap.allocate(get_mock_obj(None, None));
    heap.allocate(get_mock_obj(None, None));
    let heap_len_before = heap.heap_size();

    heap.perform_gc(&[], &[], &[]);

    heap.allocate(get_mock_obj(None, None));
    heap.allocate(get_mock_obj(None, None));
    heap.allocate(get_mock_obj(None, None));

    assert_eq!(heap_len_before, heap.heap_size());
}

#[test]
fn test_gc_array_elements_kept_when_array_is_reachable() {
    let mut heap = JvmHeap::new(4, 100);

    let r1 = heap.allocate(get_mock_obj(None, None));
    let r2 = heap.allocate(get_mock_obj(None, None));
    let arr = heap.allocate(get_mock_arr(Some(r1), Some(r2)));

    let t = mock_thread(Some(arr));
    heap.perform_gc(&[&t], &[], &[]);

    assert_eq!(3, heap.get_allocated_count());
}

#[test]
fn test_gc_self_referential_object_is_freed() {
    let mut heap = JvmHeap::new(2, 0);

    let r1 = heap.allocate(get_mock_obj(None, None));
    let r2 = heap.allocate(get_mock_obj(None, None));
    let object = heap.get_mut(r1);
    match object {
        HeapObject::Object { class: _, fields } => {
            fields[0] = JvmValue::Reference(Some(r1));
            fields[1] = JvmValue::Reference(Some(r2));
        }
        _ => panic!("Expected object"),
    }

    let r3 = heap.allocate(get_mock_arr(None, None));
    let r4 = heap.allocate(get_mock_obj(Some(r3), None));

    let thread = mock_thread(Some(r4));
    heap.perform_gc(&[&thread], &[], &[]);

    assert_eq!(2, heap.get_allocated_count());
}

#[test]
fn gc_keeps_interned_strings_and_static_values() {
    let mut heap = JvmHeap::new(2, 100);
    let s = heap.allocate(HeapObject::CharacterArray(vec![104, 105]));
    let st = heap.allocate(get_mock_obj(None, None));
    let lost = heap.allocate(get_mock_obj(None, None));
    heap.perform_gc(&[], &[s], &[JvmValue::Reference(Some(st)), JvmValue::Int(3)]);
    assert_eq!(2, heap.get_allocated_count());
    assert!(matches!(heap.get(s), HeapObject::CharacterArray(_)));
    assert!(matches!(heap.get(st), HeapObject::Object { .. }));
    let again = heap.allocate(get_mock_obj(None, None));
    assert_eq!(lost, again);
}

#[test]
fn allocation_takes_last_free_slot_first() {
    let mut heap = JvmHeap::new(4, 100);
    assert_eq!(3, heap.allocate(get_mock_obj(None, None)));
    assert_eq!(2, heap.allocate(get_mock_obj(None, None)));
    assert_eq!(1, heap.allocate(get_mock_obj(None, None)));
    assert_eq!(4, heap.allocate(get_mock_obj(None, None)));
    assert!(!heap.should_gc);
}
