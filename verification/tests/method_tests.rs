use jvankom::bytecode::constants_instructions::{create_string_from_constant, LdcStep};
use jvankom::bytecode::field_instructions::find_static_field_class_with_index;
use jvankom::bytecode::method_instructions::{
    check_invoked_method, find_called_method, find_virtual_method, invoke_method, read_interface_method_ref,
    read_invokeinterface_params, read_method_ref, resolve_virtual_method, CallCheck, InvokeStep,
};
use jvankom::bytecode::references_instructions::{class_of_new_type, new_object};
use jvankom::class_cache::{CacheEntry, ClassCache, TypeInfo};
use jvankom::class_file::{
    Attribute, Bytecode, ClassAccessFlags, ClassFile, ClassFileVersion, ConstantPool, ConstantValue, Field,
    FieldAccessFlags, Method, MethodAccessFlags,
};
use jvankom::class_hierarchy::ClassHierarchy;
use jvankom::jvm::{
    class_initialiser_frame, entry_frame, fetch_instruction, initialise_class, return_from_frame, thread_step, ReturnStep, ThreadStep,
};
use jvankom::exceptions::{
    call_exception_constructor, entry_covers, handle_exception, next_catch_class, throw_jvm_exception, ExceptionStep,
};
use jvankom::class_file::ExceptionTableEntry;
use jvankom::bytecode::method_descriptor_parser::pop_params_for_special;
use jvankom::bytecode::read_class_type;
use jvankom::bytecode::JvmException;
use jvankom::field_initialisation::{determine_object_fields, determine_static_fields};
use jvankom::bytecode::instruction_table::{execute_instruction, frame_ready, runtime_instruction, Dispatch, RuntimeInstruction};
use jvankom::jvm_cache::method_signature_cache::MethodSignatureCache;
use jvankom::jvm_cache::string_pool::StringPool;
use jvankom::jvm_heap::JvmHeap;
use jvankom::jvm_model::{
    DescriptorType, FieldInfo, FrameReturn, HeapObject, JvmError, JvmStackFrame, JvmThread, JvmValue,
    ObjectArrayType, StaticFieldInfo,
};
use jvankom::native_method_resolver::jvankom_print_stream_methods::{print_text, string_characters, StringChars};
use jvankom::v_table::{VTable, VTableEntry};
use jvankom::bytecode::resolution::{
    invoke_interface_step, invoke_static_or_special_step, invoke_virtual_step, object_field_step, static_field_step,
    ldc_object_step, type_step, LdcAction, ResolveAction,
};
use jvankom::native_method_resolver::{find_native_method, run_native_method, NativeMethod};
use jvankom::jvm_model::JvmType;

const PUBLIC: u16 = 0x0001;
const PRIVATE: u16 = 0x0002;
const STATIC: u16 = 0x0008;
const FINAL: u16 = 0x0010;
const NATIVE: u16 = 0x0100;
const ABSTRACT: u16 = 0x0400;

/// A method as its name, descriptor, access flags and whether it has code.
struct MethodSpec {
    name: &'static str,
    descriptor: &'static str,
    flags: u16,
    code: bool,
}

fn method(name: &'static str, descriptor: &'static str, flags: u16, code: bool) -> MethodSpec {
    MethodSpec { name, descriptor, flags, code }
}

/// A class file named `name` with the given super class name and methods;
/// its constant pool is the class names followed by the method names and
/// descriptors.
fn class_file(name: &str, super_name: Option<&str>, methods: &[MethodSpec]) -> ClassFile {
    let mut pool = vec![
        ConstantValue::Unusable,
        ConstantValue::Utf8(name.to_owned()),
        ConstantValue::Class { name_index: 1 },
    ];
    let super_class_index = match super_name {
        Some(s) => {
            pool.push(ConstantValue::Utf8(s.to_owned()));
            pool.push(ConstantValue::Class { name_index: pool.len() - 1 });
            Some(pool.len() - 1)
        }
        None => None,
    };
    let mut built = vec![];
    for m in methods {
        pool.push(ConstantValue::Utf8(m.name.to_owned()));
        let name_index = pool.len() - 1;
        pool.push(ConstantValue::Utf8(m.descriptor.to_owned()));
        let descriptor_index = pool.len() - 1;
        let attributes = if m.code {
            vec![Attribute::Code(Bytecode {
                code: vec![0xb1],
                max_stack: 1,
                max_locals: 3,
                exception_table: vec![],
                attributes: vec![],
            })]
        } else {
            vec![]
        };
        built.push(Method {
            name_index,
            descriptor_index,
            access_flags: MethodAccessFlags::new(m.flags).unwrap(),
            attributes,
        });
    }
    ClassFile {
        version: ClassFileVersion { major: 52, minor: 0 },
        class_index: 2,
        super_class_index,
        interfaces: vec![],
        constant_pool: ConstantPool::new(pool),
        methods: built,
        fields: vec![],
        access_flags: ClassAccessFlags::new(PUBLIC).unwrap(),
        attributes: vec![],
    }
}

/// java/lang/Object (0); a/A (1) extends it with an abstract `run`; a/B (2)
/// extends A with a concrete `run` and a private `secret`; a/I (3) is an
/// interface with a default `greet`; b/C (4) extends Object and implements I.
fn classes() -> (ClassHierarchy, Vec<ClassFile>) {
    let mut h = ClassHierarchy::new();
    h.add_class(None, vec![]);
    h.add_class(Some(0), vec![]);
    h.add_class(Some(1), vec![]);
    h.add_class(Some(0), vec![]);
    h.add_class(Some(0), vec![3]);
    let files = vec![
        class_file(
            "java/lang/Object",
            None,
            &[
                method("toString", "()Ljava/lang/String;", PUBLIC, true),
                method("hashCode", "()I", PUBLIC | NATIVE, false),
            ],
        ),
        class_file("a/A", Some("java/lang/Object"), &[method("run", "()V", PUBLIC | ABSTRACT, false)]),
        class_file(
            "a/B",
            Some("a/A"),
            &[
                method("run", "()V", PUBLIC, true),
                method("secret", "(I)I", PRIVATE, true),
                method("make", "()La/B;", PUBLIC | STATIC, true),
            ],
        ),
        class_file("a/I", Some("java/lang/Object"), &[method("greet", "()V", PUBLIC, true)]),
        class_file("b/C", Some("java/lang/Object"), &[]),
    ];
    (h, files)
}

fn empty_frame(pc: usize) -> JvmStackFrame {
    JvmStackFrame {
        class: 0,
        method_index: 0,
        bytecode_index: 0,
        local_variables: vec![],
        operand_stack: vec![],
        program_counter: pc,
        is_void: true,
        should_return: FrameReturn::NotReturning,
        return_value: None,
    }
}

#[test]
fn virtual_methods_resolve_up_the_chain() {
    let (h, files) = classes();
    let entry = find_virtual_method(&h, &files, 2, "run", "()V").unwrap();
    assert_eq!((2, 0, Some(0)), (entry.resolved_class, entry.method_index, entry.bytecode_index));

    let entry = find_virtual_method(&h, &files, 2, "toString", "()Ljava/lang/String;").unwrap();
    assert_eq!((0, 0, Some(0)), (entry.resolved_class, entry.method_index, entry.bytecode_index));

    let entry = find_virtual_method(&h, &files, 4, "greet", "()V").unwrap();
    assert_eq!((3, 0, Some(0)), (entry.resolved_class, entry.method_index, entry.bytecode_index));
    // the class that declares the method is one that the object's class extends
    assert!(h.is_sublcass_of(entry.resolved_class, 4));

    let entry = find_virtual_method(&h, &files, 1, "hashCode", "()I").unwrap();
    assert_eq!((0, 1, None), (entry.resolved_class, entry.method_index, entry.bytecode_index));
}

#[test]
fn abstract_or_missing_virtual_method_is_an_error() {
    let (h, files) = classes();
    assert!(matches!(
        *find_virtual_method(&h, &files, 1, "run", "()V").unwrap_err(),
        JvmError::VirtualMethodError { method_name, method_descriptor } if method_name == "run" && method_descriptor == "()V"
    ));
    assert!(find_virtual_method(&h, &files, 4, "run", "()V").is_err());
}

#[test]
fn virtual_table_caches_resolution() {
    let (h, files) = classes();
    let mut signatures = MethodSignatureCache::new();
    let id = signatures.get_id("run", "()V");
    let mut table = VTable::new();
    assert!(table.get(id).is_none());
    let entry = resolve_virtual_method(&mut table, id, &h, &files, 2, "run", "()V").unwrap();
    assert_eq!(2, entry.resolved_class);
    assert_eq!(Some(entry), table.get(id));
    // a later resolution is answered from the table, whatever the names say
    let again = resolve_virtual_method(&mut table, id, &h, &files, 2, "missing", "()V").unwrap();
    assert_eq!(entry, again);

    let mut empty = VTable::new();
    assert!(resolve_virtual_method(&mut empty, id, &h, &files, 1, "run", "()V").is_err());
    assert!(empty.get(id).is_none());
}

#[test]
fn invoked_methods_are_checked() {
    let (h, files) = classes();
    assert_eq!(CallCheck::Allowed, check_invoked_method(&h, &files, 4, 2, 0, false));
    assert_eq!(CallCheck::Allowed, check_invoked_method(&h, &files, 2, 2, 1, false));
    assert_eq!(CallCheck::IllegalAccess, check_invoked_method(&h, &files, 4, 2, 1, false));
    assert_eq!(CallCheck::IncompatibleClassChange, check_invoked_method(&h, &files, 4, 2, 2, false));
    assert_eq!(CallCheck::Allowed, check_invoked_method(&h, &files, 4, 2, 2, true));
    assert_eq!(CallCheck::IncompatibleClassChange, check_invoked_method(&h, &files, 4, 2, 0, true));
}

#[test]
fn invoking_pushes_a_frame_or_hands_out_native_calls() {
    let (_, files) = classes();
    let mut thread = JvmThread::new();
    let step = invoke_method(&mut thread, 2, &files[2], Some(0), 1, vec![JvmValue::Reference(Some(4)), JvmValue::Int(3)])
        .unwrap();
    assert!(matches!(step, InvokeStep::Pushed));
    assert_eq!(1, thread.len());
    let frame = thread.top_frame();
    assert_eq!(
        vec![JvmValue::Reference(Some(4)), JvmValue::Int(3), JvmValue::Unusable],
        frame.local_variables
    );
    assert_eq!((2, 1, 0, 0), (frame.class, frame.method_index, frame.bytecode_index, frame.program_counter));
    assert!(!frame.is_void);

    let step = invoke_method(&mut thread, 0, &files[0], None, 1, vec![JvmValue::Reference(Some(7))]).unwrap();
    assert!(matches!(step, InvokeStep::Native(p) if p == vec![JvmValue::Reference(Some(7))]));
    assert_eq!(1, thread.len());

    let err = invoke_method(&mut thread, 1, &files[1], None, 0, vec![]).unwrap_err();
    assert!(matches!(
        *err,
        JvmError::ExpectedNativeMethod { method_name, method_descriptor } if method_name == "run" && method_descriptor == "()V"
    ));
}

#[test]
fn method_references_are_read_from_the_pool() {
    let pool = ConstantPool::new(vec![
        ConstantValue::Unusable,
        ConstantValue::Utf8("a/B".to_owned()),
        ConstantValue::Class { name_index: 1 },
        ConstantValue::Utf8("run".to_owned()),
        ConstantValue::Utf8("()V".to_owned()),
        ConstantValue::NameAndType { name_index: 3, descriptor_index: 4 },
        ConstantValue::MethodRef { class_index: 2, name_and_type_index: 5 },
        ConstantValue::InterfaceMethodRef { class_index: 2, name_and_type_index: 5 },
    ]);
    let mut cf = class_file("a/X", None, &[]);
    cf.constant_pool = pool;
    assert_eq!(("a/B", "run", "()V"), read_method_ref(&cf, 6).unwrap());
    assert_eq!(("a/B", "run", "()V"), read_interface_method_ref(&cf, 7).unwrap());
    assert!(matches!(*read_method_ref(&cf, 7).unwrap_err(), JvmError::InvalidMethodRefIndex(7)));
    assert!(matches!(
        *read_interface_method_ref(&cf, 6).unwrap_err(),
        JvmError::InvalidInterfaceMethodRefIndex(6)
    ));
}

#[test]
fn called_methods_are_found_by_name_and_descriptor() {
    let (_, files) = classes();
    assert_eq!((2, Some(0)), find_called_method(&files[2], "a/B", "make", "()La/B;").unwrap());
    assert!(matches!(
        *find_called_method(&files[2], "a/B", "make", "()V").unwrap_err(),
        JvmError::MethodNotFound { class_name, method_name } if class_name == "a/B" && method_name == "make"
    ));
}

#[test]
fn invokeinterface_operands() {
    let code = [0xb9, 0x00, 0x05, 0x02, 0x00];
    let mut frame = empty_frame(1);
    assert_eq!((5, 2), read_invokeinterface_params(&mut frame, &code).unwrap());
    assert_eq!(5, frame.program_counter);

    let code = [0xb9, 0x00, 0x00, 0x02, 0x00];
    let mut frame = empty_frame(1);
    assert!(matches!(
        *read_invokeinterface_params(&mut frame, &code).unwrap_err(),
        JvmError::InvalidConstantPoolIndex
    ));
}

fn static_field(name: &str, value: i32) -> StaticFieldInfo {
    StaticFieldInfo {
        name: name.to_owned(),
        descriptor_type: DescriptorType::Integer,
        field_class_file_index: 0,
        value: JvmValue::Int(value),
    }
}

#[test]
fn static_fields_are_found_up_the_chain() {
    let (h, files) = classes();
    let statics = vec![
        Some(vec![static_field("count", 1)]),
        Some(vec![]),
        Some(vec![static_field("x", 2), static_field("y", 3)]),
        None,
        Some(vec![]),
    ];
    assert_eq!((2, 1), find_static_field_class_with_index(&h, &files, &statics, 2, "y").unwrap());
    assert_eq!((0, 0), find_static_field_class_with_index(&h, &files, &statics, 2, "count").unwrap());
    assert!(matches!(
        *find_static_field_class_with_index(&h, &files, &statics, 2, "z").unwrap_err(),
        JvmError::StaticFieldNotFound { class_name, field_name } if class_name == "java/lang/Object" && field_name == "z"
    ));
    assert!(matches!(
        *find_static_field_class_with_index(&h, &files, &statics, 3, "count").unwrap_err(),
        JvmError::StaticFieldNotFound { class_name, .. } if class_name == "a/I"
    ));
}

#[test]
fn new_objects_get_default_fields() {
    assert_eq!(3, class_of_new_type(TypeInfo { object_or_array: ObjectArrayType::Class(3), dimension: 0 }, 9).unwrap());
    assert!(matches!(
        *class_of_new_type(TypeInfo { object_or_array: ObjectArrayType::Primitive(DescriptorType::Integer), dimension: 0 }, 9).unwrap_err(),
        JvmError::InvalidClassIndex(9)
    ));

    let fields = vec![
        FieldInfo { name: "a".to_owned(), class: 2, field_class_file_index: 0, descriptor_type: DescriptorType::Integer },
        FieldInfo { name: "b".to_owned(), class: 2, field_class_file_index: 1, descriptor_type: DescriptorType::Reference },
    ];
    let mut heap = JvmHeap::new(2, 100);
    let mut frame = empty_frame(3);
    frame.operand_stack.push(JvmValue::Int(1));
    new_object(&mut frame, &mut heap, 2, &fields);
    assert_eq!(2, frame.operand_stack.len());
    let r = match frame.operand_stack[1] {
        JvmValue::Reference(Some(r)) => r,
        _ => panic!("expected a reference"),
    };
    assert!(matches!(
        heap.get(r),
        HeapObject::Object { class: 2, fields } if fields == &vec![JvmValue::Int(0), JvmValue::Reference(None)]
    ));
}

#[test]
fn string_constants_are_interned() {
    let pool = ConstantPool::new(vec![
        ConstantValue::Unusable,
        ConstantValue::Utf8("hi".to_owned()),
        ConstantValue::String { utf8_index: 1 },
    ]);
    let fields = vec![
        FieldInfo { name: "value".to_owned(), class: 5, field_class_file_index: 0, descriptor_type: DescriptorType::Reference },
        FieldInfo { name: "hash".to_owned(), class: 5, field_class_file_index: 1, descriptor_type: DescriptorType::Integer },
    ];
    let mut cache = ClassCache::new();
    let mut strings = StringPool::new();
    let mut heap = JvmHeap::new(2, 100);
    let first = create_string_from_constant(&pool, &mut cache, &mut strings, &mut heap, 1, 2, 5, &fields);
    let r = match first {
        JvmValue::Reference(Some(r)) => r,
        _ => panic!("expected a reference"),
    };
    assert_eq!(Some(r), strings.find_string("hi"));
    assert_eq!(Some(r), cache.get_string_pool_ref(2));
    let chars = match string_characters(&heap, &vec![first], 0).unwrap() {
        StringChars::Chars(c) => c,
        _ => panic!("expected characters"),
    };
    assert_eq!(vec!['h', 'i'], print_text(&chars));
    // the new string's `value` refers to a fresh char array; `hash` keeps its default
    let array = match heap.get(r) {
        HeapObject::Object { class: 5, fields } => match fields[..] {
            [JvmValue::Reference(Some(a)), JvmValue::Int(0)] => a,
            _ => panic!("unexpected fields"),
        },
        _ => panic!("expected a string object"),
    };
    assert_ne!(r, array);
    assert!(matches!(heap.get(array), HeapObject::CharacterArray(c) if c == &vec![104u16, 105]));

    let allocated = heap.get_allocated_count();
    let second = create_string_from_constant(&pool, &mut cache, &mut strings, &mut heap, 1, 2, 5, &fields);
    assert_eq!(first, second);
    assert_eq!(allocated, heap.get_allocated_count());
}

#[test]
fn frames_return_values_to_their_callers() {
    let mut thread = JvmThread::new();
    let mut caller = empty_frame(0);
    caller.is_void = false;
    thread.push(caller);
    let mut callee = empty_frame(0);
    callee.is_void = false;
    callee.return_value = Some(JvmValue::Int(42));
    thread.push(callee);
    assert_eq!(ReturnStep::Continue, return_from_frame(&mut thread).unwrap());
    assert_eq!(vec![JvmValue::Int(42)], thread.top_frame().operand_stack);

    thread.top_frame_mut().return_value = Some(JvmValue::Int(7));
    assert_eq!(ReturnStep::Finished(Some(JvmValue::Int(7))), return_from_frame(&mut thread).unwrap());
    assert!(!thread.has_frames());

    let mut broken = empty_frame(0);
    broken.is_void = false;
    thread.push(broken);
    assert!(matches!(*return_from_frame(&mut thread).unwrap_err(), JvmError::MissingReturnValue));
}

#[test]
fn instructions_are_fetched_in_order() {
    let code = [0x03, 0x3c, 0xb1];
    let mut frame = empty_frame(1);
    assert_eq!(0x3c, fetch_instruction(&mut frame, &code));
    assert_eq!(2, frame.program_counter);
}

#[test]
fn entry_frames_need_a_static_method_with_code() {
    let (_, files) = classes();
    let frame = entry_frame(2, &files[2], "a/B", "make", "()La/B;", vec![]).unwrap();
    assert_eq!((2, 2, 0, 0), (frame.class, frame.method_index, frame.bytecode_index, frame.program_counter));
    assert_eq!(vec![JvmValue::Unusable; 3], frame.local_variables);
    assert!(matches!(
        *entry_frame(2, &files[2], "a/B", "run", "()V", vec![]).unwrap_err(),
        JvmError::ExpectedStaticMethod { method_name, .. } if method_name == "run"
    ));
    assert!(matches!(
        *entry_frame(2, &files[2], "a/B", "main", "()V", vec![]).unwrap_err(),
        JvmError::MethodNotFound { class_name, method_name } if class_name == "a/B" && method_name == "main"
    ));
    let native = class_file("a/N", None, &[method("go", "()V", PUBLIC | STATIC | NATIVE, false)]);
    assert!(matches!(
        *entry_frame(0, &native, "a/N", "go", "()V", vec![]).unwrap_err(),
        JvmError::ExpectedNonNativeMethod { method_name, method_descriptor } if method_name == "go" && method_descriptor == "()V"
    ));
}

#[test]
fn class_initialisers() {
    let (_, files) = classes();
    assert!(class_initialiser_frame(2, &files[2]).unwrap().is_none());
    let with = class_file("a/S", None, &[method("<clinit>", "()V", STATIC, true)]);
    let frame = class_initialiser_frame(7, &with).unwrap().unwrap();
    assert_eq!((7, 0), (frame.class, frame.method_index));
    assert!(frame.is_void);
    let native = class_file("a/T", None, &[method("<clinit>", "()V", STATIC | NATIVE, false)]);
    assert!(matches!(
        *class_initialiser_frame(8, &native).unwrap_err(),
        JvmError::ExpectedNonNativeMethod { method_name, .. } if method_name == "<clinit>"
    ));
}

#[test]
fn thread_steps() {
    let code = [0x03, 0xb1];
    let mut thread = JvmThread::new();
    thread.push(empty_frame(0));
    assert_eq!(ThreadStep::Execute(0x03), thread_step(&mut thread, &code).unwrap());
    assert_eq!(1, thread.top_frame().program_counter);

    thread.top_frame_mut().set_exception(9);
    assert_eq!(ThreadStep::Throwing(9), thread_step(&mut thread, &code).unwrap());
    assert_eq!(1, thread.len());

    thread.top_frame_mut().unset_exception();
    thread.top_frame_mut().should_return = FrameReturn::Returning;
    assert_eq!(ThreadStep::Returned(ReturnStep::Finished(None)), thread_step(&mut thread, &code).unwrap());
    assert!(!thread.has_frames());
}

#[test]
fn exceptions_are_raised_with_their_constructor() {
    let exception = class_file(
        "java/lang/NullPointerException",
        None,
        &[method("<init>", "()V", PUBLIC, true)],
    );
    let fields = vec![FieldInfo {
        name: "message".to_owned(),
        class: 3,
        field_class_file_index: 0,
        descriptor_type: DescriptorType::Reference,
    }];
    let constructor = call_exception_constructor(3, &exception, JvmValue::Reference(Some(5))).unwrap();
    assert_eq!(JvmValue::Reference(Some(5)), constructor.local_variables[0]);

    let mut heap = JvmHeap::new(2, 100);
    let mut thread = JvmThread::new();
    thread.push(empty_frame(4));
    throw_jvm_exception(&mut thread, &mut heap, 3, &exception, &fields).unwrap();
    assert_eq!(2, thread.len());
    let thrower = &thread.get_stack_frames()[0];
    assert_eq!(FrameReturn::Exception, thrower.should_return);
    let r = match thrower.return_value {
        Some(JvmValue::Reference(Some(r))) => r,
        _ => panic!("expected the exception"),
    };
    assert!(matches!(heap.get(r), HeapObject::Object { class: 3, fields } if fields == &vec![JvmValue::Reference(None)]));
    assert_eq!(vec![JvmValue::Reference(Some(r)), JvmValue::Unusable, JvmValue::Unusable], thread.top_frame().local_variables);

    let no_constructor = class_file("a/E", None, &[]);
    assert!(matches!(
        *call_exception_constructor(3, &no_constructor, JvmValue::Reference(Some(5))).unwrap_err(),
        JvmError::MethodNotFound { class_name, method_name } if class_name == "a/E" && method_name == "<init>"
    ));
}

#[test]
fn instance_call_arguments() {
    let types = vec![DescriptorType::Integer];
    let mut frame = empty_frame(0);
    frame.operand_stack = vec![JvmValue::Reference(Some(6)), JvmValue::Int(2)];
    assert_eq!(
        Some(vec![JvmValue::Reference(Some(6)), JvmValue::Int(2)]),
        pop_params_for_special(&types, &mut frame).unwrap()
    );
    assert!(frame.operand_stack.is_empty());
    frame.operand_stack = vec![JvmValue::Reference(None), JvmValue::Int(2)];
    assert_eq!(None, pop_params_for_special(&types, &mut frame).unwrap());
}

#[test]
fn class_types_are_read_from_the_pool() {
    let (_, files) = classes();
    assert_eq!("a/B", read_class_type(&files[2], 2).unwrap());
    assert!(matches!(*read_class_type(&files[2], 1).unwrap_err(), JvmError::InvalidClassIndex(1)));
}

#[test]
fn instruction_table_runs_frame_instructions() {
    let pool = ConstantPool::new(vec![ConstantValue::Unusable]);
    let mut heap = JvmHeap::new(2, 100);
    let code = [0x05, 0x10, 0x07, 0x60, 0xac];
    let mut frame = empty_frame(1);
    assert_eq!(Dispatch::Done, execute_instruction(0x05, &mut frame, &code, &pool, &mut heap).unwrap());
    frame.program_counter = 2;
    assert_eq!(Dispatch::Done, execute_instruction(0x10, &mut frame, &code, &pool, &mut heap).unwrap());
    assert_eq!(vec![JvmValue::Int(2), JvmValue::Int(7)], frame.operand_stack);
    assert_eq!(Dispatch::Done, execute_instruction(0x60, &mut frame, &code, &pool, &mut heap).unwrap());
    assert_eq!(vec![JvmValue::Int(9)], frame.operand_stack);
    assert_eq!(Dispatch::Done, execute_instruction(0xac, &mut frame, &code, &pool, &mut heap).unwrap());
    assert_eq!(FrameReturn::Returning, frame.should_return);
    assert_eq!(Some(JvmValue::Int(9)), frame.return_value);
}

#[test]
fn instruction_table_refuses_and_hands_on() {
    let pool = ConstantPool::new(vec![ConstantValue::Unusable]);
    let mut heap = JvmHeap::new(2, 100);
    let code = [0x6c];
    let mut frame = empty_frame(1);
    frame.operand_stack = vec![JvmValue::Int(1), JvmValue::Int(0)];
    assert_eq!(Dispatch::Refused, execute_instruction(0x6c, &mut frame, &code, &pool, &mut heap).unwrap());
    assert_eq!(vec![JvmValue::Int(1), JvmValue::Int(0)], frame.operand_stack);
    // bipush with its operand past the end of the code
    assert_eq!(Dispatch::Refused, execute_instruction(0x10, &mut frame, &code, &pool, &mut heap).unwrap());
    // a local that was never set
    frame.local_variables = vec![JvmValue::Unusable];
    assert_eq!(Dispatch::Refused, execute_instruction(0x1a, &mut frame, &code, &pool, &mut heap).unwrap());
    // getfield needs the heap and the classes
    assert_eq!(Dispatch::Runtime, execute_instruction(0xb4, &mut frame, &code, &pool, &mut heap).unwrap());
    assert_eq!(1, frame.program_counter);
    // an empty stack is an operand error, not a refusal
    frame.operand_stack = vec![];
    assert!(matches!(*execute_instruction(0x60, &mut frame, &code, &pool, &mut heap).unwrap_err(), JvmError::NoOperandFound));
    // opcodes that no table knows (i2c among them) are unimplemented
    for op in [0x13u8, 0x92, 0xff] {
        assert!(matches!(
            *execute_instruction(op, &mut frame, &code, &pool, &mut heap).unwrap_err(),
            JvmError::UnimplementedInstruction(o) if o == op
        ));
    }
}

#[test]
fn thrown_objects_are_caught_or_unwind() {
    let (h, _) = classes();
    let table = vec![
        ExceptionTableEntry { start_pc: 0, end_pc: 4, handler_pc: 10, catch_type: 7 },
        ExceptionTableEntry { start_pc: 0, end_pc: 4, handler_pc: 20, catch_type: 0 },
    ];
    assert!(entry_covers(table[0], 4));
    assert!(!entry_covers(table[0], 5));

    let mut thread = JvmThread::new();
    let mut caller = empty_frame(3);
    caller.operand_stack = vec![JvmValue::Int(1)];
    thread.push(caller);
    let mut top = empty_frame(3);
    top.operand_stack = vec![JvmValue::Int(5), JvmValue::Int(6)];
    thread.push(top);
    // the first entry catches a/A and its subclasses, the second anything
    assert_eq!(ExceptionStep::Caught, handle_exception(&mut thread, &h, &table, &[Some(1), None], 9, 2));
    assert_eq!(10, thread.top_frame().program_counter);
    assert_eq!(vec![JvmValue::Reference(Some(9))], thread.top_frame().operand_stack);
    thread.top_frame_mut().program_counter = 3;
    assert_eq!(ExceptionStep::Caught, handle_exception(&mut thread, &h, &table, &[Some(3), None], 9, 2));
    assert_eq!(20, thread.top_frame().program_counter);

    thread.top_frame_mut().program_counter = 8;
    assert_eq!(ExceptionStep::Unwound, handle_exception(&mut thread, &h, &table, &[Some(1), None], 9, 2));
    assert_eq!(1, thread.len());
    assert_eq!(FrameReturn::Exception, thread.top_frame().should_return);
    assert_eq!(Some(JvmValue::Reference(Some(9))), thread.top_frame().return_value);
    assert_eq!(ExceptionStep::Unhandled, handle_exception(&mut thread, &h, &[], &[], 9, 2));
    assert!(!thread.has_frames());
}

#[test]
fn classes_are_initialised_super_class_first() {
    let mut h = ClassHierarchy::new();
    h.add_class(None, vec![]);
    h.add_class(Some(0), vec![]);
    h.add_class(Some(1), vec![]);
    let files = vec![
        class_file("java/lang/Object", None, &[]),
        class_file("a/A", Some("java/lang/Object"), &[method("<clinit>", "()V", STATIC, true)]),
        class_file("a/B", Some("a/A"), &[method("<clinit>", "()V", STATIC, true)]),
    ];
    let mut initialised = vec![false; 3];
    let mut statics: Vec<Option<Vec<StaticFieldInfo>>> = vec![None, None, None];
    let mut thread = JvmThread::new();
    initialise_class(&mut thread, &h, &files, &mut initialised, &mut statics, 2).unwrap();
    assert_eq!(vec![true, true, true], initialised);
    assert!(statics.iter().all(|s| matches!(s, Some(v) if v.is_empty())));
    // B's initialiser is pushed first, so A's, on top, runs first
    assert_eq!(2, thread.len());
    assert_eq!(2, thread.get_stack_frames()[0].class);
    assert_eq!(1, thread.get_stack_frames()[1].class);

    // nothing more happens once they are initialised
    initialise_class(&mut thread, &h, &files, &mut initialised, &mut statics, 2).unwrap();
    assert_eq!(2, thread.len());
}

#[test]
fn a_class_initialiser_without_code_stops_initialisation() {
    let mut h = ClassHierarchy::new();
    h.add_class(None, vec![]);
    h.add_class(Some(0), vec![]);
    let files = vec![
        class_file("java/lang/Object", None, &[]),
        class_file("a/A", Some("java/lang/Object"), &[method("<clinit>", "()V", STATIC | NATIVE, false)]),
    ];
    let mut initialised = vec![false; 2];
    let mut statics: Vec<Option<Vec<StaticFieldInfo>>> = vec![None, None];
    let mut thread = JvmThread::new();
    assert!(matches!(
        *initialise_class(&mut thread, &h, &files, &mut initialised, &mut statics, 1).unwrap_err(),
        JvmError::ExpectedNonNativeMethod { method_name, .. } if method_name == "<clinit>"
    ));
    assert_eq!(vec![false, true], initialised);
    assert!(statics[0].is_none() && statics[1].is_none());
    assert_eq!(0, thread.len());
}

/// `cf` with a field of each given name, descriptor and flags.
fn with_fields(mut cf: ClassFile, fields: &[(&str, &str, u16)]) -> ClassFile {
    let mut pool: Vec<ConstantValue> = cf.constant_pool.get_all_constants().to_vec();
    for (name, descriptor, flags) in fields {
        pool.push(ConstantValue::Utf8(name.to_string()));
        let name_index = pool.len() - 1;
        pool.push(ConstantValue::Utf8(descriptor.to_string()));
        let descriptor_index = pool.len() - 1;
        cf.fields.push(Field {
            name_index,
            descriptor_index,
            access_flags: FieldAccessFlags::new(*flags).unwrap(),
            attributes: vec![],
        });
    }
    cf.constant_pool = ConstantPool::new(pool);
    cf
}

#[test]
fn object_fields_put_the_super_class_first() {
    let mut h = ClassHierarchy::new();
    h.add_class(None, vec![]);
    h.add_class(Some(0), vec![]);
    let files = vec![
        with_fields(class_file("a/P", None, &[]), &[("x", "I", PUBLIC), ("count", "J", PUBLIC | STATIC)]),
        with_fields(class_file("a/Q", Some("a/P"), &[]), &[("y", "Ljava/lang/String;", PRIVATE), ("x", "J", 0)]),
    ];
    let fields = determine_object_fields(&h, &files, 1);
    let layout: Vec<(String, usize, usize, DescriptorType)> =
        fields.iter().map(|f| (f.name.clone(), f.class, f.field_class_file_index, f.descriptor_type)).collect();
    assert_eq!(
        vec![
            ("x".to_owned(), 0, 0, DescriptorType::Integer),
            ("y".to_owned(), 1, 0, DescriptorType::Reference),
            ("x".to_owned(), 1, 1, DescriptorType::Long),
        ],
        layout
    );
}

#[test]
fn instruction_table_runs_array_instructions() {
    let pool = ConstantPool::new(vec![ConstantValue::Unusable]);
    let mut heap = JvmHeap::new(2, 100);
    // newarray int; then iastore and iaload on it
    let code = [0xbc, 10];
    let mut frame = empty_frame(1);
    frame.operand_stack = vec![JvmValue::Int(3)];
    assert!(frame_ready(&frame, &heap));
    assert_eq!(Dispatch::Done, execute_instruction(0xbc, &mut frame, &code, &pool, &mut heap).unwrap());
    let array = frame.operand_stack[0];
    assert!(matches!(heap.get(match array { JvmValue::Reference(Some(r)) => r, _ => panic!("expected an array") }), HeapObject::IntArray(a) if a == &vec![0, 0, 0]));
    frame.operand_stack = vec![array, JvmValue::Int(1), JvmValue::Int(42)];
    assert_eq!(Dispatch::Done, execute_instruction(0x4f, &mut frame, &code, &pool, &mut heap).unwrap());
    frame.operand_stack = vec![array, JvmValue::Int(1)];
    assert_eq!(Dispatch::Done, execute_instruction(0x2e, &mut frame, &code, &pool, &mut heap).unwrap());
    assert_eq!(vec![JvmValue::Int(42)], frame.operand_stack);
    frame.operand_stack = vec![array, JvmValue::Int(3)];
    assert_eq!(
        Dispatch::Threw(JvmException::ArrayIndexOutOfBounds),
        execute_instruction(0x2e, &mut frame, &code, &pool, &mut heap).unwrap()
    );
    frame.operand_stack = vec![array];
    assert_eq!(Dispatch::Done, execute_instruction(0xbe, &mut frame, &code, &pool, &mut heap).unwrap());
    assert_eq!(vec![JvmValue::Int(3)], frame.operand_stack);

    // a reference to a slot that holds no object is no frame to run on
    frame.local_variables = vec![JvmValue::Reference(Some(99))];
    assert!(!frame_ready(&frame, &heap));
}

/// A class file named `name` whose fields are the given names, descriptors
/// and access flags.
fn class_with_fields(name: &str, fields: &[(&str, &str, u16)]) -> ClassFile {
    let mut pool = vec![
        ConstantValue::Unusable,
        ConstantValue::Utf8(name.to_owned()),
        ConstantValue::Class { name_index: 1 },
    ];
    let mut built = vec![];
    for (field_name, descriptor, flags) in fields {
        pool.push(ConstantValue::Utf8((*field_name).to_owned()));
        let name_index = pool.len() - 1;
        pool.push(ConstantValue::Utf8((*descriptor).to_owned()));
        let descriptor_index = pool.len() - 1;
        built.push(Field {
            name_index,
            descriptor_index,
            access_flags: FieldAccessFlags::new(*flags).unwrap(),
            attributes: vec![],
        });
    }
    ClassFile {
        version: ClassFileVersion { major: 52, minor: 0 },
        class_index: 2,
        super_class_index: None,
        interfaces: vec![],
        constant_pool: ConstantPool::new(pool),
        methods: vec![],
        fields: built,
        access_flags: ClassAccessFlags::new(PUBLIC).unwrap(),
        attributes: vec![],
    }
}

/// The static fields of `class` are exactly `expected`, by name and type.
fn assert_static_fields(class: &ClassFile, expected: &[(&str, DescriptorType)]) {
    let fields = determine_static_fields(class);
    assert_eq!(expected.len(), fields.len());
    for (name, desc) in expected {
        let present = fields.iter().any(|field| field.name == *name && field.descriptor_type == *desc);
        assert!(present, "{name} {desc:?}");
    }
}

#[test]
fn test_determine_static_fields_string() {
    let string = class_with_fields(
        "java/lang/String",
        &[
            ("value", "[C", PRIVATE | FINAL),
            ("hash", "I", PRIVATE),
            ("serialVersionUID", "J", PRIVATE | STATIC | FINAL),
            ("serialPersistentFields", "[Ljava/io/ObjectStreamField;", PRIVATE | STATIC | FINAL),
            ("CASE_INSENSITIVE_ORDER", "Ljava/util/Comparator;", PUBLIC | STATIC | FINAL),
        ],
    );
    assert_static_fields(
        &string,
        &[
            ("serialVersionUID", DescriptorType::Long),
            ("serialPersistentFields", DescriptorType::Reference),
            ("CASE_INSENSITIVE_ORDER", DescriptorType::Reference),
        ],
    );
}

#[test]
fn test_determine_static_fields_object() {
    let object = class_with_fields("java/lang/Object", &[]);
    assert_static_fields(&object, &[]);
}

#[test]
fn test_determine_static_fields_math() {
    let void = class_with_fields("java/lang/Void", &[("TYPE", "Ljava/lang/Class;", PUBLIC | STATIC | FINAL)]);
    assert_static_fields(&void, &[("TYPE", DescriptorType::Reference)]);
}

/// The classes of `classes`, where b/C (4) calls: its constant pool holds
/// a/B.make (8), a/B.run (12), the interface method a/I.greet (17),
/// a/B.secret (21), the field a/B.count (24) and a/B.x (26). a/B has one
/// field entry, public.
fn calling_classes() -> (ClassHierarchy, Vec<ClassFile>) {
    let (h, mut files) = classes();
    files[4].constant_pool = ConstantPool::new(vec![
        ConstantValue::Unusable,
        ConstantValue::Utf8("b/C".to_owned()),
        ConstantValue::Class { name_index: 1 },
        ConstantValue::Utf8("a/B".to_owned()),
        ConstantValue::Class { name_index: 3 },
        ConstantValue::Utf8("make".to_owned()),
        ConstantValue::Utf8("()La/B;".to_owned()),
        ConstantValue::NameAndType { name_index: 5, descriptor_index: 6 },
        ConstantValue::MethodRef { class_index: 4, name_and_type_index: 7 },
        ConstantValue::Utf8("run".to_owned()),
        ConstantValue::Utf8("()V".to_owned()),
        ConstantValue::NameAndType { name_index: 9, descriptor_index: 10 },
        ConstantValue::MethodRef { class_index: 4, name_and_type_index: 11 },
        ConstantValue::Utf8("a/I".to_owned()),
        ConstantValue::Class { name_index: 13 },
        ConstantValue::Utf8("greet".to_owned()),
        ConstantValue::NameAndType { name_index: 15, descriptor_index: 10 },
        ConstantValue::InterfaceMethodRef { class_index: 14, name_and_type_index: 16 },
        ConstantValue::Utf8("secret".to_owned()),
        ConstantValue::Utf8("(I)I".to_owned()),
        ConstantValue::NameAndType { name_index: 18, descriptor_index: 19 },
        ConstantValue::MethodRef { class_index: 4, name_and_type_index: 20 },
        ConstantValue::Utf8("count".to_owned()),
        ConstantValue::NameAndType { name_index: 22, descriptor_index: 25 },
        ConstantValue::FieldRef { class_index: 4, name_and_type_index: 23 },
        ConstantValue::Utf8("I".to_owned()),
        ConstantValue::FieldRef { class_index: 4, name_and_type_index: 27 },
        ConstantValue::NameAndType { name_index: 28, descriptor_index: 25 },
        ConstantValue::Utf8("x".to_owned()),
    ]);
    files[2].fields.push(Field {
        name_index: 1,
        descriptor_index: 1,
        access_flags: FieldAccessFlags::new(PUBLIC).unwrap(),
        attributes: vec![],
    });
    (h, files)
}

/// A frame of b/C whose program counter stands behind the opcode of an
/// instruction whose first operands are the constant pool index `index`.
fn calling_frame(index: u8, stack: Vec<JvmValue>) -> (JvmStackFrame, Vec<u8>) {
    let mut frame = empty_frame(1);
    frame.class = 4;
    frame.operand_stack = stack;
    (frame, vec![0xb8, 0x00, index, 0x01, 0x00])
}

#[test]
fn invokestatic_loads_initialises_then_calls() {
    let (h, files) = calling_classes();
    let mut cache = ClassCache::new();
    let mut initialised = vec![true; 5];
    initialised[2] = false;
    let (mut frame, code) = calling_frame(8, vec![]);

    let action =
        invoke_static_or_special_step(&mut frame, &code, &mut cache, &h, &files, &initialised, false, None).unwrap();
    assert!(matches!(action, ResolveAction::Load(name) if name == "a/B"));
    assert_eq!(1, frame.program_counter);

    let action =
        invoke_static_or_special_step(&mut frame, &code, &mut cache, &h, &files, &initialised, false, Some(2)).unwrap();
    assert!(matches!(action, ResolveAction::InitialiseAndRewind(2)));
    assert_eq!(0, frame.program_counter);
    assert_eq!((1, 1), cache.get_storage_efficiency());

    // once initialised, the instruction runs again and the cache answers
    initialised[2] = true;
    frame.program_counter = 1;
    let action =
        invoke_static_or_special_step(&mut frame, &code, &mut cache, &h, &files, &initialised, false, None).unwrap();
    assert!(matches!(
        action,
        ResolveAction::Invoke { class: 2, method_index: 2, bytecode_index: Some(0), params } if params.is_empty()
    ));
    assert_eq!(3, frame.program_counter);
    assert_eq!(1, cache.get_cache_hits());
}

#[test]
fn invokestatic_and_invokespecial_checks() {
    let (h, files) = calling_classes();
    let initialised = vec![true; 5];
    // `secret` is an instance method: invokestatic refuses it
    let mut cache = ClassCache::new();
    let (mut frame, code) = calling_frame(21, vec![JvmValue::Int(1)]);
    let action =
        invoke_static_or_special_step(&mut frame, &code, &mut cache, &h, &files, &initialised, false, Some(2)).unwrap();
    assert!(matches!(action, ResolveAction::Throw(JvmException::IncompatibleClassChange)));
    assert_eq!(1, frame.program_counter);
    // and b/C may not call the private method of a/B
    let action =
        invoke_static_or_special_step(&mut frame, &code, &mut cache, &h, &files, &initialised, true, Some(2)).unwrap();
    assert!(matches!(action, ResolveAction::Throw(JvmException::IllegalAccess)));
    assert_eq!(vec![JvmValue::Int(1)], frame.operand_stack);
    assert_eq!((0, 0), cache.get_storage_efficiency());
    // a constant pool index of 0 is refused
    let (mut frame, code) = calling_frame(0, vec![]);
    let err =
        invoke_static_or_special_step(&mut frame, &code, &mut cache, &h, &files, &initialised, false, None).unwrap_err();
    assert!(matches!(*err, JvmError::InvalidConstantPoolIndex));
}

#[test]
fn invokevirtual_dispatches_on_the_object() {
    let (h, files) = calling_classes();
    let initialised = vec![true; 5];
    let mut cache = ClassCache::new();
    let mut v_tables: Vec<VTable> = (0..5).map(|_| VTable::new()).collect();
    let mut signatures = MethodSignatureCache::new();
    let mut heap = JvmHeap::new(2, 100);
    let object = heap.allocate(HeapObject::Object { class: 2, fields: vec![] });

    let (mut frame, code) = calling_frame(12, vec![JvmValue::Reference(Some(object))]);
    let action = invoke_virtual_step(
        &mut frame, &code, &mut cache, &mut v_tables, &mut signatures, &heap, &h, &files, &initialised, 0, None,
    )
    .unwrap();
    assert!(matches!(action, ResolveAction::Load(name) if name == "a/B"));
    let action = invoke_virtual_step(
        &mut frame, &code, &mut cache, &mut v_tables, &mut signatures, &heap, &h, &files, &initialised, 0, Some(2),
    )
    .unwrap();
    assert!(matches!(
        action,
        ResolveAction::Invoke { class: 2, method_index: 0, bytecode_index: Some(0), params }
            if params == vec![JvmValue::Reference(Some(object))]
    ));
    assert_eq!(3, frame.program_counter);
    assert!(frame.operand_stack.is_empty());
    // the object's class now resolves `run` from its virtual table
    let id = signatures.get_id("run", "()V");
    assert_eq!(Some(VTableEntry::new(2, 0, Some(0))), v_tables[2].get(id));

    // a null object throws, with the program counter behind the opcode
    let (mut frame, code) = calling_frame(12, vec![JvmValue::Reference(None)]);
    let action = invoke_virtual_step(
        &mut frame, &code, &mut cache, &mut v_tables, &mut signatures, &heap, &h, &files, &initialised, 0, None,
    )
    .unwrap();
    assert!(matches!(action, ResolveAction::Throw(JvmException::NullPointer)));
    assert_eq!(1, frame.program_counter);
}

#[test]
fn invokeinterface_needs_an_implementing_class() {
    let (h, files) = calling_classes();
    let initialised = vec![true; 5];
    let mut cache = ClassCache::new();
    let mut v_tables: Vec<VTable> = (0..5).map(|_| VTable::new()).collect();
    let mut signatures = MethodSignatureCache::new();
    let mut heap = JvmHeap::new(2, 100);
    let c = heap.allocate(HeapObject::Object { class: 4, fields: vec![] });
    let b = heap.allocate(HeapObject::Object { class: 2, fields: vec![] });

    let (mut frame, code) = calling_frame(17, vec![JvmValue::Reference(Some(c))]);
    let action = invoke_interface_step(
        &mut frame, &code, &mut cache, &mut v_tables, &mut signatures, &heap, &h, &files, &initialised, 0, Some(3),
    )
    .unwrap();
    assert!(matches!(
        action,
        ResolveAction::Invoke { class: 3, method_index: 0, bytecode_index: Some(0), params }
            if params == vec![JvmValue::Reference(Some(c))]
    ));
    assert_eq!(5, frame.program_counter);

    // a/B does not implement a/I; the call is now answered from the cache
    let (mut frame, code) = calling_frame(17, vec![JvmValue::Reference(Some(b))]);
    let action = invoke_interface_step(
        &mut frame, &code, &mut cache, &mut v_tables, &mut signatures, &heap, &h, &files, &initialised, 0, None,
    )
    .unwrap();
    assert!(matches!(action, ResolveAction::Throw(JvmException::IncompatibleClassChange)));
    assert_eq!(1, frame.program_counter);
    assert_eq!(1, cache.get_cache_hits());
    assert!(cache.get_interface_method(17).is_some());
}

#[test]
fn static_fields_are_resolved_read_and_written() {
    let (h, files) = calling_classes();
    let initialised = vec![true; 5];
    let mut cache = ClassCache::new();
    let mut statics: Vec<Option<Vec<StaticFieldInfo>>> = vec![Some(vec![]); 5];
    statics[2] = Some(vec![static_field("count", 5)]);

    let (mut frame, code) = calling_frame(24, vec![]);
    let action =
        static_field_step(&mut frame, &code, &mut cache, &h, &files, &initialised, &mut statics, false, None).unwrap();
    assert!(matches!(action, ResolveAction::Load(name) if name == "a/B"));
    let action =
        static_field_step(&mut frame, &code, &mut cache, &h, &files, &initialised, &mut statics, false, Some(2)).unwrap();
    assert!(matches!(action, ResolveAction::Done));
    assert_eq!(vec![JvmValue::Int(5)], frame.operand_stack);
    assert_eq!(3, frame.program_counter);

    // putstatic through the cache
    let (mut frame, code) = calling_frame(24, vec![JvmValue::Int(9)]);
    let action =
        static_field_step(&mut frame, &code, &mut cache, &h, &files, &initialised, &mut statics, true, None).unwrap();
    assert!(matches!(action, ResolveAction::Done));
    assert_eq!(JvmValue::Int(9), statics[2].as_ref().unwrap()[0].value);
    assert!(frame.operand_stack.is_empty());

    // a long does not go into an int field
    let (mut frame, code) = calling_frame(24, vec![JvmValue::Long(1)]);
    let err =
        static_field_step(&mut frame, &code, &mut cache, &h, &files, &initialised, &mut statics, true, None).unwrap_err();
    assert!(matches!(*err, JvmError::TypeError { expected: JvmType::Int, found: JvmType::Long }));
}

#[test]
fn object_fields_are_resolved() {
    let (h, files) = calling_classes();
    let mut cache = ClassCache::new();
    let mut layouts: Vec<Option<Vec<FieldInfo>>> = vec![None; 5];
    let (mut frame, code) = calling_frame(26, vec![]);
    let action = object_field_step(&mut frame, &code, &mut cache, &h, &files, &layouts, Some(2)).unwrap();
    // the class is loaded but its layout is not known yet
    assert!(matches!(action, ResolveAction::Load(name) if name == "a/B"));
    layouts[2] = Some(vec![FieldInfo {
        name: "x".to_owned(),
        class: 2,
        field_class_file_index: 0,
        descriptor_type: DescriptorType::Integer,
    }]);
    let action = object_field_step(&mut frame, &code, &mut cache, &h, &files, &layouts, Some(2)).unwrap();
    assert!(matches!(action, ResolveAction::Field { field_index: 0, descriptor: DescriptorType::Integer }));
    assert_eq!(3, frame.program_counter);
    let (mut frame, code) = calling_frame(26, vec![]);
    let action = object_field_step(&mut frame, &code, &mut cache, &h, &files, &layouts, None).unwrap();
    assert!(matches!(action, ResolveAction::Field { field_index: 0, .. }));
    assert_eq!(1, cache.get_cache_hits());
}

#[test]
fn class_constants_resolve_to_types() {
    let (_, mut files) = calling_classes();
    // b/C's pool gets the array type [[La/B; (29, 30) and [I (31, 32)
    let mut pool = vec![ConstantValue::Unusable];
    for i in 1..files[4].constant_pool.len() {
        pool.push(files[4].constant_pool.get(i).clone());
    }
    pool.push(ConstantValue::Utf8("[[La/B;".to_owned()));
    pool.push(ConstantValue::Class { name_index: 29 });
    pool.push(ConstantValue::Utf8("[I".to_owned()));
    pool.push(ConstantValue::Class { name_index: 31 });
    files[4].constant_pool = ConstantPool::new(pool);
    let mut initialised = vec![true; 5];
    initialised[2] = false;
    let mut cache = ClassCache::new();

    // `new a/B`: load, then initialise and come back
    let (mut frame, code) = calling_frame(4, vec![]);
    let action = type_step(&mut frame, &code, &mut cache, &files, &initialised, true, None).unwrap();
    assert!(matches!(action, ResolveAction::Load(name) if name == "a/B"));
    let action = type_step(&mut frame, &code, &mut cache, &files, &initialised, true, Some(2)).unwrap();
    assert!(matches!(action, ResolveAction::InitialiseAndRewind(2)));
    assert_eq!(0, frame.program_counter);
    frame.program_counter = 1;
    let action = type_step(&mut frame, &code, &mut cache, &files, &initialised, true, None).unwrap();
    assert!(matches!(
        action,
        ResolveAction::Type(TypeInfo { object_or_array: ObjectArrayType::Class(2), dimension: 0 })
    ));
    assert_eq!(3, frame.program_counter);

    // `anewarray [[La/B;` loads the element class and counts the dimensions
    initialised[2] = true;
    let (mut frame, code) = calling_frame(30, vec![]);
    let action = type_step(&mut frame, &code, &mut cache, &files, &initialised, false, None).unwrap();
    assert!(matches!(action, ResolveAction::Load(name) if name == "a/B"));
    let action = type_step(&mut frame, &code, &mut cache, &files, &initialised, false, Some(2)).unwrap();
    assert!(matches!(
        action,
        ResolveAction::Type(TypeInfo { object_or_array: ObjectArrayType::Class(2), dimension: 2 })
    ));

    // a primitive array needs no class
    let (mut frame, code) = calling_frame(32, vec![]);
    let action = type_step(&mut frame, &code, &mut cache, &files, &initialised, false, None).unwrap();
    assert!(matches!(
        action,
        ResolveAction::Type(TypeInfo { object_or_array: ObjectArrayType::Primitive(DescriptorType::Integer), dimension: 1 })
    ));
    // and `new` of it is refused once it is cached
    let (mut frame, code) = calling_frame(32, vec![]);
    let err = type_step(&mut frame, &code, &mut cache, &files, &initialised, true, None).unwrap_err();
    assert!(matches!(*err, JvmError::InvalidClassIndex(32)));
}

#[test]
fn runtime_opcodes_are_named() {
    assert_eq!(Some(RuntimeInstruction::Ldc), runtime_instruction(0x12));
    assert_eq!(Some(RuntimeInstruction::InvokeSpecial), runtime_instruction(0xb7));
    assert_eq!(Some(RuntimeInstruction::InstanceOf), runtime_instruction(0xc1));
    assert_eq!(None, runtime_instruction(0x60));
    assert_eq!(None, runtime_instruction(0x92));
}

#[test]
fn native_methods_are_found_and_run() {
    assert_eq!(NativeMethod::ObjectConstructor, find_native_method("java/lang/Object", "<init>", "()V").unwrap());
    assert_eq!(NativeMethod::RegisterNatives, find_native_method("java/lang/Class", "registerNatives", "()V").unwrap());
    assert_eq!(
        NativeMethod::ArrayCopy,
        find_native_method("java/lang/System", "arraycopy", "(Ljava/lang/Object;ILjava/lang/Object;II)V").unwrap()
    );
    assert_eq!(NativeMethod::LongBitsToDouble, find_native_method("java/lang/Double", "longBitsToDouble", "(J)D").unwrap());
    let err = find_native_method("java/lang/Object", "hashCode", "()I").unwrap_err();
    assert!(matches!(
        *err,
        JvmError::NativeMethodImplementationNotFound { class_name, method_name, method_descriptor }
            if class_name == "java/lang/Object" && method_name == "hashCode" && method_descriptor == "()I"
    ));

    let one = 1.0f32.to_bits();
    assert_eq!(
        Some(JvmValue::Int(one as i32)),
        run_native_method(NativeMethod::FloatToRawIntBits, &vec![JvmValue::Float(one)]).unwrap()
    );
    assert_eq!(
        Some(JvmValue::Double(0x4000000000000000)),
        run_native_method(NativeMethod::LongBitsToDouble, &vec![JvmValue::Long(0x4000000000000000)]).unwrap()
    );
    assert_eq!(
        Some(JvmValue::Int(0)),
        run_native_method(NativeMethod::DesiredAssertionStatus0, &vec![JvmValue::Reference(Some(3))]).unwrap()
    );
    assert_eq!(None, run_native_method(NativeMethod::RegisterNatives, &vec![]).unwrap());
    let err = run_native_method(NativeMethod::GetPrimitiveClass, &vec![JvmValue::Int(1)]).unwrap_err();
    assert!(matches!(*err, JvmError::TypeError { expected: JvmType::Reference, found: JvmType::Int }));
}

#[test]
fn ldc_of_strings_and_classes() {
    let (_, mut files) = calling_classes();
    files.push(class_file("java/lang/String", Some("java/lang/Object"), &[]));
    files.push(class_file("java/lang/Class", Some("java/lang/Object"), &[]));
    let mut initialised = vec![true; 7];
    initialised[5] = false;
    let mut cache = ClassCache::new();
    let mut frame = empty_frame(2);
    frame.class = 4;
    let step = LdcStep::LoadString { utf8_index: 1, constant_index: 9 };
    let action = ldc_object_step(&mut frame, &mut cache, step, &files, &initialised, false, None);
    assert!(matches!(action, LdcAction::Load(name) if name == "java/lang/String"));
    let action = ldc_object_step(&mut frame, &mut cache, step, &files, &initialised, false, Some(5));
    assert!(matches!(action, LdcAction::InitialiseAndRewind(5)));
    assert_eq!(0, frame.program_counter);

    initialised[5] = true;
    frame.program_counter = 2;
    let action = ldc_object_step(&mut frame, &mut cache, step, &files, &initialised, false, Some(5));
    assert!(matches!(action, LdcAction::MakeString { class: 5, utf8_index: 1, constant_index: 9 }));
    // once interned, the string comes from the cache
    cache.register(9, std::rc::Rc::new(CacheEntry::StringPoolRef(12)));
    let action = ldc_object_step(&mut frame, &mut cache, step, &files, &initialised, false, None);
    assert!(matches!(action, LdcAction::Done));
    assert_eq!(vec![JvmValue::Reference(Some(12))], frame.operand_stack);

    let step = LdcStep::LoadClass { name_index: 3 };
    let mut frame = empty_frame(3);
    frame.class = 4;
    let action = ldc_object_step(&mut frame, &mut cache, step, &files, &initialised, true, Some(6));
    assert!(matches!(action, LdcAction::MakeClassObject { class: 6, name_index: 3 }));
}

#[test]
fn branches_in_long_code() {
    let pool = ConstantPool::new(vec![ConstantValue::Unusable]);
    let mut heap = JvmHeap::new(2, 100);
    let mut code = vec![0u8; 70000];
    // goto +5 at 69990
    code[69990] = 0xa7;
    code[69991] = 0x00;
    code[69992] = 0x05;
    let mut frame = empty_frame(69991);
    assert_eq!(Dispatch::Done, execute_instruction(0xa7, &mut frame, &code, &pool, &mut heap).unwrap());
    assert_eq!(69995, frame.program_counter);
}

#[test]
fn catch_classes_are_asked_for_in_table_order() {
    let (h, _) = classes();
    let table = vec![
        ExceptionTableEntry { start_pc: 0, end_pc: 4, handler_pc: 10, catch_type: 7 },
        ExceptionTableEntry { start_pc: 0, end_pc: 4, handler_pc: 20, catch_type: 8 },
        ExceptionTableEntry { start_pc: 5, end_pc: 9, handler_pc: 30, catch_type: 9 },
    ];
    let mut catch_classes = vec![None, None, None];
    assert_eq!(Some(0), next_catch_class(&h, &table, &catch_classes, 2, 2));
    // a/A (1) catches a/B (2): the search can decide without loading more
    catch_classes[0] = Some(1);
    assert_eq!(None, next_catch_class(&h, &table, &catch_classes, 2, 2));
    // b/C (4) does not catch a/B: the next covering entry is asked for
    catch_classes[0] = Some(4);
    assert_eq!(Some(1), next_catch_class(&h, &table, &catch_classes, 2, 2));
    catch_classes[1] = Some(4);
    assert_eq!(None, next_catch_class(&h, &table, &catch_classes, 2, 2));
}
