use jvankom::bytecode::access_check::{check_has_access, get_package_name, AccessLevel};
use jvankom::bytecode::field_instructions::{find_field_index, get_field, put_field, put_static};
use jvankom::bytecode::method_descriptor_parser::{parse_descriptor, pop_params, pop_params_for_virtual};
use jvankom::bytecode::references_instructions::{
    check_instance_of, store_object_array_instruction, throw_exception_instruction,
};
use jvankom::bytecode::{JvmException, Step};
use jvankom::class_file::{ExceptionTableEntry, FieldAccessFlags, MethodAccessFlags};
use jvankom::class_hierarchy::ClassHierarchy;
use jvankom::exceptions::{catch_exception, find_exception_handler, propagate_exception};
use jvankom::field_initialisation::{initialise_object_fields, parse_field_descriptor};
use jvankom::jvm_cache::method_signature_cache::MethodSignatureCache;
use jvankom::jvm_cache::string_pool::StringPool;
use jvankom::jvm_heap::JvmHeap;
use jvankom::jvm_model::{
    DescriptorType, FieldInfo, FrameReturn, HeapObject, JvmError, JvmStackFrame, JvmThread, JvmType, JvmValue,
    ObjectArray, ObjectArrayType, StaticFieldInfo,
};
use jvankom::native_method_resolver::system_methods::array_copy;
use jvankom::v_table::{VTable, VTableEntry};

fn frame(stack: Vec<JvmValue>) -> JvmStackFrame {
    JvmStackFrame {
        class: 0,
        method_index: 0,
        bytecode_index: 0,
        local_variables: vec![],
        operand_stack: stack,
        program_counter: 1,
        is_void: false,
        should_return: FrameReturn::NotReturning,
        return_value: None,
    }
}

/// Object (0) <- Throwable (1) <- Exception (2); Runnable (3) is an interface
/// of Task (4), which extends Object.
fn hierarchy() -> ClassHierarchy {
    let mut h = ClassHierarchy::new();
    assert_eq!(0, h.add_class(None, vec![]));
    assert_eq!(1, h.add_class(Some(0), vec![]));
    assert_eq!(2, h.add_class(Some(1), vec![]));
    assert_eq!(3, h.add_class(Some(0), vec![]));
    assert_eq!(4, h.add_class(Some(0), vec![3]));
    h
}

#[test]
fn subclasses_follow_supers_and_interfaces() {
    let h = hierarchy();
    assert!(h.is_sublcass_of(0, 2));
    assert!(h.is_sublcass_of(1, 2));
    assert!(h.is_sublcass_of(2, 2));
    assert!(!h.is_sublcass_of(2, 1));
    assert!(h.is_sublcass_of(3, 4));
    assert!(!h.is_sublcass_of(3, 2));
    assert!(h.is_root(0));
    assert!(!h.is_root(4));
}

#[test]
fn instance_checks() {
    let h = hierarchy();
    let exception = HeapObject::Object { class: 2, fields: vec![] };
    assert_eq!(1, check_instance_of(&h, ObjectArrayType::Class(1), 0, &exception).unwrap());
    assert_eq!(0, check_instance_of(&h, ObjectArrayType::Class(4), 0, &exception).unwrap());
    assert_eq!(0, check_instance_of(&h, ObjectArrayType::Class(1), 1, &exception).unwrap());

    let ints = HeapObject::IntArray(vec![1]);
    assert_eq!(1, check_instance_of(&h, ObjectArrayType::Primitive(DescriptorType::Integer), 1, &ints).unwrap());
    assert_eq!(1, check_instance_of(&h, ObjectArrayType::Class(0), 0, &ints).unwrap());
    assert_eq!(0, check_instance_of(&h, ObjectArrayType::Primitive(DescriptorType::Long), 1, &ints).unwrap());

    let tasks = HeapObject::ObjectArray(ObjectArray {
        array: vec![None],
        dimension: 1,
        object_array_type: ObjectArrayType::Class(4),
    });
    assert_eq!(1, check_instance_of(&h, ObjectArrayType::Class(3), 1, &tasks).unwrap());
    assert_eq!(0, check_instance_of(&h, ObjectArrayType::Class(3), 2, &tasks).unwrap());
    assert_eq!(1, check_instance_of(&h, ObjectArrayType::Class(0), 0, &tasks).unwrap());
}

#[test]
fn object_array_store_checks_element_type() {
    let h = hierarchy();
    let mut heap = JvmHeap::new(2, 100);
    let array = heap.allocate(HeapObject::ObjectArray(ObjectArray {
        array: vec![None, None],
        dimension: 1,
        object_array_type: ObjectArrayType::Class(1),
    }));
    let exception = heap.allocate(HeapObject::Object { class: 2, fields: vec![] });
    let task = heap.allocate(HeapObject::Object { class: 4, fields: vec![] });

    let mut f = frame(vec![
        JvmValue::Reference(Some(array)),
        JvmValue::Int(1),
        JvmValue::Reference(Some(exception)),
    ]);
    assert_eq!(Step::Next, store_object_array_instruction(&mut f, &mut heap, &h).unwrap());
    assert!(matches!(heap.get(array), HeapObject::ObjectArray(a) if a.array == vec![None, Some(exception)]));

    let mut f = frame(vec![
        JvmValue::Reference(Some(array)),
        JvmValue::Int(0),
        JvmValue::Reference(Some(task)),
    ]);
    assert_eq!(
        Step::Throw(JvmException::ArrayStore),
        store_object_array_instruction(&mut f, &mut heap, &h).unwrap()
    );

    let mut f = frame(vec![JvmValue::Reference(Some(array)), JvmValue::Int(2), JvmValue::Reference(None)]);
    assert_eq!(
        Step::Throw(JvmException::ArrayIndexOutOfBounds),
        store_object_array_instruction(&mut f, &mut heap, &h).unwrap()
    );
}

#[test]
fn athrow_checks_throwable() {
    let h = hierarchy();
    let mut heap = JvmHeap::new(2, 100);
    let exception = heap.allocate(HeapObject::Object { class: 2, fields: vec![] });
    let task = heap.allocate(HeapObject::Object { class: 4, fields: vec![] });

    let mut f = frame(vec![JvmValue::Reference(Some(exception))]);
    assert_eq!(Step::Next, throw_exception_instruction(&mut f, &heap, &h, 1).unwrap());
    assert_eq!(FrameReturn::Exception, f.should_return);
    assert_eq!(Some(JvmValue::Reference(Some(exception))), f.return_value);

    let mut f = frame(vec![JvmValue::Reference(Some(task))]);
    assert!(matches!(
        *throw_exception_instruction(&mut f, &heap, &h, 1).unwrap_err(),
        JvmError::ExpectedThrowable
    ));

    let mut f = frame(vec![JvmValue::Reference(None)]);
    assert_eq!(
        Step::Throw(JvmException::NullPointer),
        throw_exception_instruction(&mut f, &heap, &h, 1).unwrap()
    );
}

#[test]
fn exception_handlers() {
    let h = hierarchy();
    let table = [
        ExceptionTableEntry { start_pc: 0, end_pc: 4, handler_pc: 20, catch_type: 5 },
        ExceptionTableEntry { start_pc: 0, end_pc: 10, handler_pc: 30, catch_type: 0 },
    ];
    // the first entry catches class 2's subclasses only
    assert_eq!(Some(30), find_exception_handler(&h, &table, &[Some(2), None], 3, 1));
    assert_eq!(Some(20), find_exception_handler(&h, &table, &[Some(1), None], 3, 2));
    assert_eq!(Some(30), find_exception_handler(&h, &table, &[Some(1), None], 6, 2));
    assert_eq!(None, find_exception_handler(&h, &table, &[Some(1), None], 11, 2));

    let mut f = frame(vec![JvmValue::Int(1), JvmValue::Int(2)]);
    f.should_return = FrameReturn::Exception;
    f.return_value = Some(JvmValue::Reference(Some(7)));
    catch_exception(&mut f, 30, 7);
    assert_eq!(vec![JvmValue::Reference(Some(7))], f.operand_stack);
    assert_eq!(30, f.program_counter);
    assert_eq!(FrameReturn::NotReturning, f.should_return);
    assert_eq!(None, f.return_value);

    let mut thread = JvmThread::new();
    thread.push(frame(vec![]));
    thread.push(frame(vec![JvmValue::Int(3)]));
    assert!(propagate_exception(&mut thread, 7));
    assert_eq!(1, thread.len());
    assert_eq!(FrameReturn::Exception, thread.top_frame().should_return);
    assert!(!propagate_exception(&mut thread, 7));
    assert_eq!(0, thread.len());
}

#[test]
fn access_levels() {
    let h = hierarchy();
    assert_eq!(AccessLevel::Public, AccessLevel::from(MethodAccessFlags::new(0x0001).unwrap()));
    assert_eq!(AccessLevel::Private, AccessLevel::from(FieldAccessFlags::new(0x0002).unwrap()));
    assert_eq!(AccessLevel::Package, AccessLevel::from(FieldAccessFlags::new(0x0008).unwrap()));
    assert_eq!("java/lang", get_package_name("java/lang/String"));
    assert_eq!("", get_package_name("Main"));
    assert!(check_has_access(&h, 2, "a/Exception", 1, "b/Throwable", AccessLevel::Protected));
    assert!(!check_has_access(&h, 1, "a/Throwable", 2, "b/Exception", AccessLevel::Protected));
    assert!(check_has_access(&h, 1, "a/Throwable", 2, "a/Exception", AccessLevel::Package));
    assert!(!check_has_access(&h, 1, "a/Throwable", 2, "a/Exception", AccessLevel::Private));
    assert!(check_has_access(&h, 2, "a/Exception", 2, "a/Exception", AccessLevel::Private));
}

#[test]
fn method_descriptors() {
    let types = parse_descriptor("(I[JLjava/lang/String;J)V").unwrap();
    assert_eq!(
        vec![DescriptorType::Long, DescriptorType::Reference, DescriptorType::Reference, DescriptorType::Integer],
        types
    );
    let types = parse_descriptor("([II)V").unwrap();
    assert_eq!(vec![DescriptorType::Integer, DescriptorType::Reference], types);
    let types = parse_descriptor("([[Ljava/lang/String;J[[D)V").unwrap();
    assert_eq!(vec![DescriptorType::Reference, DescriptorType::Long, DescriptorType::Reference], types);
    let types = parse_descriptor("(JLjava/lang/Object;I)V").unwrap();
    assert_eq!(vec![DescriptorType::Integer, DescriptorType::Reference, DescriptorType::Long], types);
    assert!(parse_descriptor("()I").unwrap().is_empty());
    assert!(matches!(*parse_descriptor("IV").unwrap_err(), JvmError::InvalidMethodDescriptor(d) if d == "IV"));

    let mut f = frame(vec![
        JvmValue::Reference(Some(9)),
        JvmValue::Int(1),
        JvmValue::Long(2),
        JvmValue::Reference(None),
    ]);
    let params = pop_params(&[DescriptorType::Reference, DescriptorType::Long, DescriptorType::Integer], &mut f).unwrap();
    assert_eq!(
        vec![JvmValue::Int(1), JvmValue::Long(2), JvmValue::Unusable, JvmValue::Reference(None)],
        params
    );
    assert_eq!(vec![JvmValue::Reference(Some(9))], f.operand_stack);

    let mut f = frame(vec![JvmValue::Int(5)]);
    let params = pop_params_for_virtual(3, &[DescriptorType::Integer], &mut f).unwrap();
    assert_eq!(vec![JvmValue::Reference(Some(3)), JvmValue::Int(5)], params);
}

#[test]
fn fields() {
    let fields = vec![
        FieldInfo { name: "x".to_owned(), class: 0, field_class_file_index: 0, descriptor_type: DescriptorType::Integer },
        FieldInfo { name: "x".to_owned(), class: 1, field_class_file_index: 0, descriptor_type: DescriptorType::Long },
    ];
    assert_eq!(1, find_field_index(1, "B", &fields, "x").unwrap());
    assert_eq!(0, find_field_index(2, "C", &fields, "x").unwrap());
    assert!(matches!(
        *find_field_index(2, "C", &fields, "y").unwrap_err(),
        JvmError::FieldNotFound { class_name, field_name } if class_name == "C" && field_name == "y"
    ));

    let object = initialise_object_fields(1, &fields);
    assert!(matches!(&object, HeapObject::Object { class: 1, fields } if fields == &vec![JvmValue::Int(0), JvmValue::Long(0)]));
    assert_eq!(DescriptorType::Reference, parse_field_descriptor("[I"));
    assert_eq!(DescriptorType::Boolean, parse_field_descriptor("Z"));

    let mut heap = JvmHeap::new(2, 100);
    let r = heap.allocate(object);
    let mut f = frame(vec![JvmValue::Reference(Some(r)), JvmValue::Long(8)]);
    assert_eq!(Step::Next, put_field(&mut f, &mut heap, 1, DescriptorType::Long).unwrap());
    let mut f = frame(vec![JvmValue::Reference(Some(r))]);
    assert_eq!(Step::Next, get_field(&mut f, &heap, 1).unwrap());
    assert_eq!(vec![JvmValue::Long(8)], f.operand_stack);

    let mut field = StaticFieldInfo {
        name: "s".to_owned(),
        descriptor_type: DescriptorType::Integer,
        field_class_file_index: 0,
        value: JvmValue::Int(0),
    };
    let mut f = frame(vec![JvmValue::Int(12)]);
    put_static(&mut f, &mut field).unwrap();
    assert_eq!(JvmValue::Int(12), field.value);
}

#[test]
fn string_pool_interns() {
    let mut pool = StringPool::new();
    assert_eq!(None, pool.find_string("hello"));
    pool.register("hello".to_owned(), 4);
    pool.register("world".to_owned(), 6);
    assert_eq!(Some(4), pool.find_string("hello"));
    assert_eq!(Some(6), pool.find_string("world"));
    pool.register("hello".to_owned(), 8);
    assert_eq!(Some(8), pool.find_string("hello"));
    assert_eq!(vec![8, 6], pool.get_string_references());
    assert_eq!(vec![104, 105], StringPool::string_to_arr("hi"));
}

#[test]
fn method_signature_ids() {
    let mut cache = MethodSignatureCache::new();
    let a = cache.get_id("run", "()V");
    let b = cache.get_id("stop", "()V");
    let c = cache.get_id("run", "(I)V");
    assert_eq!((0, 0), (a.name_id(), a.descriptor_id()));
    assert_eq!((1, 0), (b.name_id(), b.descriptor_id()));
    assert_eq!((0, 1), (c.name_id(), c.descriptor_id()));
    assert_eq!(a, cache.get_id("run", "()V"));
}

#[test]
fn v_table_registers() {
    let mut cache = MethodSignatureCache::new();
    let run = cache.get_id("run", "()V");
    let stop = cache.get_id("stop", "()V");
    let mut table = VTable::new();
    assert_eq!(None, table.get(run));
    table.register(run, VTableEntry::new(3, 1, Some(0)));
    table.register(stop, VTableEntry::new(4, 2, None));
    assert_eq!(Some(VTableEntry::new(3, 1, Some(0))), table.get(run));
    table.register(run, VTableEntry::new(5, 0, None));
    assert_eq!(Some(VTableEntry::new(5, 0, None)), table.get(run));
    assert_eq!(Some(VTableEntry::new(4, 2, None)), table.get(stop));
}

#[test]
fn system_array_copy() {
    let mut heap = JvmHeap::new(2, 100);
    let src = heap.allocate(HeapObject::IntArray(vec![1, 2, 3, 4]));
    let dst = heap.allocate(HeapObject::IntArray(vec![0, 0, 0, 0, 0]));
    let params = vec![
        JvmValue::Reference(Some(src)),
        JvmValue::Int(1),
        JvmValue::Reference(Some(dst)),
        JvmValue::Int(2),
        JvmValue::Int(3),
    ];
    assert_eq!(Step::Next, array_copy(&mut heap, params).unwrap());
    assert!(matches!(heap.get(dst), HeapObject::IntArray(v) if v == &vec![0, 0, 2, 3, 4]));

    let params = vec![
        JvmValue::Reference(Some(src)),
        JvmValue::Int(0),
        JvmValue::Reference(Some(src)),
        JvmValue::Int(1),
        JvmValue::Int(3),
    ];
    array_copy(&mut heap, params).unwrap();
    assert!(matches!(heap.get(src), HeapObject::IntArray(v) if v == &vec![1, 1, 2, 3]));

    let params = vec![
        JvmValue::Reference(None),
        JvmValue::Int(0),
        JvmValue::Reference(Some(src)),
        JvmValue::Int(0),
        JvmValue::Int(0),
    ];
    assert_eq!(Step::Throw(JvmException::NullPointer), array_copy(&mut heap, params).unwrap());

    let params = vec![
        JvmValue::Reference(Some(src)),
        JvmValue::Long(0),
        JvmValue::Reference(None),
        JvmValue::Int(0),
        JvmValue::Int(0),
    ];
    let err = array_copy(&mut heap, params).unwrap_err();
    assert!(matches!(*err, JvmError::TypeError { expected: JvmType::Int, found: JvmType::Long }));
}

#[test]
fn error_messages() {
    let fields = vec![
        JvmValue::Int(-3),
        JvmValue::Reference(Some(4)),
        JvmValue::Reference(None),
        JvmValue::Long(i64::MIN),
        JvmValue::Float(1065353216),
        JvmValue::Unusable,
    ];
    let shown = format!("{fields:?}");
    let err = JvmError::UnhandledException { reference: 7, class_name: "a/E".to_owned(), fields };
    assert_eq!(format!("Unhandled exception: a/E (adr. 7) fields:{shown}"), err.message());
    assert_eq!(
        "Unhandled exception: a/E (adr. 7) fields:[Int(-3), Reference(Some(4)), Reference(None), Long(-9223372036854775808), Float(1065353216), Unusable]",
        err.message()
    );
    let err = JvmError::ProgramCounterOutOfBounds { current_index: 120, bytecode_len: 9 };
    assert_eq!("Program counter is out of bounds, index is 120, bytecode length is 9", err.message());
    let err = JvmError::TypeError { expected: JvmType::Int, found: JvmType::Reference };
    assert_eq!("Type error: expected Int found Reference", err.message());
    let err = JvmError::UnimplementedInstruction(0x92);
    assert_eq!("Instruction with code '146' not yet implemented", err.message());
    let err = JvmError::ClassParserError {
        parsed_class: "a/B".to_owned(),
        error: jvankom::class_parser::ClassParserError::InvalidMagicNumber,
    };
    assert_eq!("Parsing error:Invalid magic number for 'a/B'", err.message());
    let err = JvmError::ClassVerificationError {
        verified_class: "a/B".to_owned(),
        error: jvankom::class_verifier::VerifierError::MissingReturnFromMethod,
    };
    assert_eq!("Verification error:Missing return instruction from method for 'a/B'", err.message());
    let err = JvmError::NativeMethodImplementationNotFound {
        class_name: "a/B".to_owned(),
        method_name: "go".to_owned(),
        method_descriptor: "()V".to_owned(),
    };
    assert_eq!("Native method implementation not found for: a/B.go()V", err.message());
    assert_eq!("Invalid constant pool index'", JvmError::InvalidConstantPoolIndex.message());
}

#[test]
fn signature_numbers_persist_over_many_lookups() {
    let mut cache = MethodSignatureCache::new();
    let first = cache.get_id("run", "()V");
    let names = ["a", "b", "c", "d", "e"];
    for (k, name) in names.iter().enumerate() {
        let id = cache.get_id(name, "(I)V");
        // a name not seen before gets the number of names seen so far
        assert_eq!(k as u32 + 1, id.name_id());
        assert_ne!(first, id);
    }
    assert_eq!(first, cache.get_id("run", "()V"));
    assert_eq!(cache.get_id("c", "(I)V"), cache.get_id("c", "(I)V"));
    assert_ne!(cache.get_id("c", "(I)V"), cache.get_id("c", "()V"));
}
