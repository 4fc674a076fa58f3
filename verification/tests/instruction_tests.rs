use jvankom::bytecode::comparisons_instructions::{
    if_compare_greater_than_instruction, if_compare_less_than_instruction, if_equals_instruction,
    if_not_equals_instruction,
};
use jvankom::bytecode::constants_instructions::{
    bipush_instruction, generic_ldc_instruction, integer_const_instruction, ldc2w_instruction,
    null_const_instruction, sipush_instruction, LdcStep,
};
use jvankom::bytecode::control_instructions::{
    goto_instruction, integer_return_instruction, lookup_switch_instruction,
    object_return_instruction, return_instruction, table_switch_instruction,
};
use jvankom::bytecode::conversions_instructions::{int_to_char_instruction, int_to_long_instruction};
use jvankom::bytecode::extended_instructions::{if_not_null_instruction, if_null_instruction};
use jvankom::bytecode::load_instructions::{
    integer_load, integer_load_n, load_character_array_instruction, load_integer_array_instruction,
    reference_load_instruction,
};
use jvankom::bytecode::math_instructions::{
    increment_instruction, integer_add_instruction, integer_divide_instruction,
    integer_muliply_instruction, integer_negate_instruction, integer_remainder_instruction,
    integer_subtract_instruction, long_add_instruction, long_and_instruction,
    shift_left_long_instruction,
};
use jvankom::bytecode::references_instructions::{
    array_length_instruction, determine_type_and_dimension_if_array, new_array_instruction,
    new_object_array, TypeName, INT_ARR,
};
use jvankom::bytecode::stack_instructions::{dup_instruction, dup_x1_instruction, pop_instruction};
use jvankom::bytecode::store_instructions::{
    store_character_array_instruction, store_integer_array_instruction, store_integer_instruction,
    store_reference_n_instruction,
};
use jvankom::bytecode::{validate_cp_index, JvmException, Step};
use jvankom::class_cache::TypeInfo;
use jvankom::class_file::{ConstantPool, ConstantValue};
use jvankom::jvm_heap::JvmHeap;
use jvankom::jvm_model::{
    DescriptorType, FrameReturn, HeapObject, JvmError, JvmStackFrame, JvmType, JvmValue,
    ObjectArrayType,
};

fn frame(stack: Vec<JvmValue>, locals: Vec<JvmValue>, pc: usize) -> JvmStackFrame {
    JvmStackFrame {
        class: 0,
        method_index: 0,
        bytecode_index: 0,
        local_variables: locals,
        operand_stack: stack,
        program_counter: pc,
        is_void: false,
        should_return: FrameReturn::NotReturning,
        return_value: None,
    }
}

fn ints(values: &[i32]) -> Vec<JvmValue> {
    values.iter().map(|v| JvmValue::Int(*v)).collect()
}

#[test]
fn integer_arithmetic_wraps() {
    let mut f = frame(ints(&[i32::MAX, 1]), vec![], 1);
    integer_add_instruction(&mut f).unwrap();
    assert_eq!(ints(&[i32::MIN]), f.operand_stack);

    let mut f = frame(ints(&[3, 10]), vec![], 1);
    integer_subtract_instruction(&mut f).unwrap();
    assert_eq!(ints(&[-7]), f.operand_stack);

    let mut f = frame(ints(&[0x10000, 0x10000]), vec![], 1);
    integer_muliply_instruction(&mut f).unwrap();
    assert_eq!(ints(&[0]), f.operand_stack);

    let mut f = frame(ints(&[i32::MIN]), vec![], 1);
    integer_negate_instruction(&mut f).unwrap();
    assert_eq!(ints(&[i32::MIN]), f.operand_stack);
}

#[test]
fn division_truncates_towards_zero() {
    let mut f = frame(ints(&[-7, 2]), vec![], 1);
    integer_divide_instruction(&mut f).unwrap();
    assert_eq!(ints(&[-3]), f.operand_stack);

    let mut f = frame(ints(&[-7, 2]), vec![], 1);
    integer_remainder_instruction(&mut f).unwrap();
    assert_eq!(ints(&[-1]), f.operand_stack);
}

#[test]
fn operand_errors() {
    let mut f = frame(vec![], vec![], 1);
    let err = integer_add_instruction(&mut f).unwrap_err();
    assert!(matches!(*err, JvmError::NoOperandFound));

    let mut f = frame(vec![JvmValue::Int(1), JvmValue::Long(2)], vec![], 1);
    let err = integer_add_instruction(&mut f).unwrap_err();
    assert!(matches!(
        *err,
        JvmError::TypeError { expected: JvmType::Int, found: JvmType::Long }
    ));
    assert_eq!(ints(&[1]), f.operand_stack);
}

#[test]
fn long_arithmetic() {
    let mut f = frame(vec![JvmValue::Long(i64::MAX), JvmValue::Long(1)], vec![], 1);
    long_add_instruction(&mut f).unwrap();
    assert_eq!(vec![JvmValue::Long(i64::MIN)], f.operand_stack);

    let mut f = frame(vec![JvmValue::Long(0b1100), JvmValue::Long(0b1010)], vec![], 1);
    long_and_instruction(&mut f).unwrap();
    assert_eq!(vec![JvmValue::Long(0b1000)], f.operand_stack);

    let mut f = frame(vec![JvmValue::Long(1), JvmValue::Int(65)], vec![], 1);
    shift_left_long_instruction(&mut f).unwrap();
    assert_eq!(vec![JvmValue::Long(2)], f.operand_stack);
}

#[test]
fn increment_local() {
    let code = [0x84, 1, 0xFF];
    let mut f = frame(vec![], ints(&[5, 7]), 1);
    increment_instruction(&mut f, &code).unwrap();
    assert_eq!(ints(&[5, 6]), f.local_variables);
    assert_eq!(3, f.program_counter);

    let code = [0x84, 4, 1];
    let mut f = frame(vec![], ints(&[5]), 1);
    let err = increment_instruction(&mut f, &code).unwrap_err();
    assert!(matches!(*err, JvmError::NoLocalVariableFound));
}

#[test]
fn conversions() {
    let mut f = frame(ints(&[-2]), vec![], 1);
    int_to_long_instruction(&mut f).unwrap();
    assert_eq!(vec![JvmValue::Long(-2)], f.operand_stack);

    let mut f = frame(ints(&[70000]), vec![], 1);
    int_to_char_instruction(&mut f).unwrap();
    assert_eq!(ints(&[4464]), f.operand_stack);

    let mut f = frame(ints(&[-1]), vec![], 1);
    int_to_char_instruction(&mut f).unwrap();
    assert_eq!(ints(&[65535]), f.operand_stack);
}

#[test]
fn branches() {
    let code = [0x99, 0x00, 0x08, 0, 0, 0, 0, 0, 0, 0];
    let mut f = frame(ints(&[0]), vec![], 1);
    if_equals_instruction(&mut f, &code).unwrap();
    assert_eq!(8, f.program_counter);

    let mut f = frame(ints(&[0]), vec![], 1);
    if_not_equals_instruction(&mut f, &code).unwrap();
    assert_eq!(3, f.program_counter);

    let code = [0, 0, 0, 0, 0xa3, 0xFF, 0xFC];
    let mut f = frame(ints(&[5, 2]), vec![], 5);
    if_compare_greater_than_instruction(&mut f, &code).unwrap();
    assert_eq!(0, f.program_counter);

    let mut f = frame(ints(&[5, 2]), vec![], 5);
    if_compare_less_than_instruction(&mut f, &code).unwrap();
    assert_eq!(7, f.program_counter);

    let code = [0xc6, 0x00, 0x05, 0, 0, 0];
    let mut f = frame(vec![JvmValue::Reference(None)], vec![], 1);
    if_null_instruction(&mut f, &code).unwrap();
    assert_eq!(5, f.program_counter);
    let mut f = frame(vec![JvmValue::Reference(None)], vec![], 1);
    if_not_null_instruction(&mut f, &code).unwrap();
    assert_eq!(3, f.program_counter);

    let code = [0, 0xa7, 0xFF, 0xFF];
    let mut f = frame(vec![], vec![], 2);
    goto_instruction(&mut f, &code).unwrap();
    assert_eq!(0, f.program_counter);
}

#[test]
fn switches() {
    // lookupswitch at 0: padding 3, default 20, 2 pairs: (1 -> 10), (5 -> 30)
    let mut code = vec![0xab, 0, 0, 0];
    for v in [20i32, 2, 1, 10, 5, 30] {
        code.extend_from_slice(&v.to_be_bytes());
    }
    let mut f = frame(ints(&[5]), vec![], 1);
    lookup_switch_instruction(&mut f, &code).unwrap();
    assert_eq!(30, f.program_counter);
    let mut f = frame(ints(&[7]), vec![], 1);
    lookup_switch_instruction(&mut f, &code).unwrap();
    assert_eq!(20, f.program_counter);

    // tableswitch at 0: default 40, low 3, high 5, offsets 11, 12, 13
    let mut code = vec![0xaa, 0, 0, 0];
    for v in [40i32, 3, 5, 11, 12, 13] {
        code.extend_from_slice(&v.to_be_bytes());
    }
    let mut f = frame(ints(&[4]), vec![], 1);
    table_switch_instruction(&mut f, &code).unwrap();
    assert_eq!(12, f.program_counter);
    let mut f = frame(ints(&[9]), vec![], 1);
    table_switch_instruction(&mut f, &code).unwrap();
    assert_eq!(40, f.program_counter);
}

#[test]
fn return_instructions() {
    let mut f = frame(ints(&[4]), vec![], 1);
    integer_return_instruction(&mut f).unwrap();
    assert_eq!(FrameReturn::Returning, f.should_return);
    assert_eq!(Some(JvmValue::Int(4)), f.return_value);

    let mut f = frame(ints(&[4]), vec![], 1);
    let err = object_return_instruction(&mut f).unwrap_err();
    assert!(matches!(*err, JvmError::TypeError { expected: JvmType::Reference, .. }));
    assert_eq!(FrameReturn::NotReturning, f.should_return);

    let mut f = frame(vec![], vec![], 1);
    return_instruction(&mut f).unwrap();
    assert_eq!(FrameReturn::Returning, f.should_return);
    assert_eq!(None, f.return_value);
}

#[test]
fn constants() {
    let mut f = frame(vec![], vec![], 1);
    null_const_instruction(&mut f).unwrap();
    integer_const_instruction(&mut f, -1).unwrap();
    assert_eq!(vec![JvmValue::Reference(None), JvmValue::Int(-1)], f.operand_stack);

    let code = [0x10, 0xFE];
    let mut f = frame(vec![], vec![], 1);
    bipush_instruction(&mut f, &code).unwrap();
    assert_eq!(ints(&[-2]), f.operand_stack);

    let code = [0x11, 0x80, 0x00];
    let mut f = frame(vec![], vec![], 1);
    sipush_instruction(&mut f, &code).unwrap();
    assert_eq!(ints(&[-32768]), f.operand_stack);

    let pool = ConstantPool::new(vec![
        ConstantValue::Unusable,
        ConstantValue::Long(99),
        ConstantValue::Unusable,
        ConstantValue::Int(7),
        ConstantValue::String { utf8_index: 5 },
        ConstantValue::Utf8("hi".to_owned()),
    ]);
    let code = [0x14, 0x00, 0x01];
    let mut f = frame(vec![], vec![], 1);
    ldc2w_instruction(&mut f, &code, &pool).unwrap();
    assert_eq!(vec![JvmValue::Long(99)], f.operand_stack);

    let code = [0x12, 3];
    let mut f = frame(vec![], vec![], 1);
    assert_eq!(LdcStep::Pushed, generic_ldc_instruction(&mut f, &code, &pool, false).unwrap());
    assert_eq!(ints(&[7]), f.operand_stack);

    let code = [0x13, 0, 4];
    let mut f = frame(vec![], vec![], 1);
    let step = generic_ldc_instruction(&mut f, &code, &pool, true).unwrap();
    assert_eq!(LdcStep::LoadString { utf8_index: 5, constant_index: 4 }, step);
    assert!(f.operand_stack.is_empty());

    let code = [0x12, 0];
    let mut f = frame(vec![], vec![], 1);
    let err = generic_ldc_instruction(&mut f, &code, &pool, false).unwrap_err();
    assert!(matches!(*err, JvmError::InvalidConstantPoolIndex));
    assert!(validate_cp_index(0).is_err());
    assert_eq!(9, validate_cp_index(9).unwrap());
}

#[test]
fn loads_and_stores() {
    let mut f = frame(vec![], vec![JvmValue::Int(3), JvmValue::Reference(Some(2))], 1);
    integer_load(&mut f, 0).unwrap();
    reference_load_instruction(&mut f, 1).unwrap();
    assert_eq!(vec![JvmValue::Int(3), JvmValue::Reference(Some(2))], f.operand_stack);
    let err = integer_load(&mut f, 1).unwrap_err();
    assert!(matches!(*err, JvmError::TypeError { expected: JvmType::Int, found: JvmType::Reference }));
    let err = integer_load(&mut f, 5).unwrap_err();
    assert!(matches!(*err, JvmError::NoLocalVariableFound));

    let code = [0x15, 0];
    let mut f = frame(vec![], ints(&[9]), 1);
    integer_load_n(&mut f, &code).unwrap();
    assert_eq!(ints(&[9]), f.operand_stack);
    assert_eq!(2, f.program_counter);

    let mut f = frame(ints(&[11]), ints(&[0, 0]), 1);
    store_integer_instruction(&mut f, 1).unwrap();
    assert_eq!(ints(&[0, 11]), f.local_variables);

    let code = [0x3a, 0];
    let mut f = frame(vec![JvmValue::Reference(None)], ints(&[1]), 1);
    store_reference_n_instruction(&mut f, &code).unwrap();
    assert_eq!(vec![JvmValue::Reference(None)], f.local_variables);
}

#[test]
fn stack_shuffles() {
    let mut f = frame(ints(&[1, 2]), vec![], 1);
    dup_instruction(&mut f).unwrap();
    assert_eq!(ints(&[1, 2, 2]), f.operand_stack);
    dup_x1_instruction(&mut f).unwrap();
    assert_eq!(ints(&[1, 2, 2, 2]), f.operand_stack);
    pop_instruction(&mut f).unwrap();
    assert_eq!(ints(&[1, 2, 2]), f.operand_stack);

    let mut f = frame(ints(&[1, 2]), vec![], 1);
    dup_x1_instruction(&mut f).unwrap();
    assert_eq!(ints(&[2, 1, 2]), f.operand_stack);

    let mut f = frame(vec![], vec![], 1);
    assert!(matches!(*dup_instruction(&mut f).unwrap_err(), JvmError::NoOperandFound));
}

#[test]
fn arrays() {
    let mut heap = JvmHeap::new(2, 100);
    let code = [0xbc, INT_ARR];
    let mut f = frame(ints(&[3]), vec![], 1);
    assert_eq!(Step::Next, new_array_instruction(&mut f, &code, &mut heap).unwrap());
    let array = match f.operand_stack[0] {
        JvmValue::Reference(Some(r)) => r,
        _ => panic!("expected reference"),
    };
    assert!(matches!(heap.get(array), HeapObject::IntArray(v) if v == &vec![0, 0, 0]));

    let mut f = frame(vec![JvmValue::Reference(Some(array)), JvmValue::Int(1), JvmValue::Int(42)], vec![], 1);
    assert_eq!(Step::Next, store_integer_array_instruction(&mut f, &mut heap).unwrap());
    let mut f = frame(vec![JvmValue::Reference(Some(array)), JvmValue::Int(1)], vec![], 1);
    assert_eq!(Step::Next, load_integer_array_instruction(&mut f, &heap).unwrap());
    assert_eq!(ints(&[42]), f.operand_stack);

    let mut f = frame(vec![JvmValue::Reference(Some(array)), JvmValue::Int(3)], vec![], 1);
    assert_eq!(
        Step::Throw(JvmException::ArrayIndexOutOfBounds),
        load_integer_array_instruction(&mut f, &heap).unwrap()
    );
    let mut f = frame(vec![JvmValue::Reference(Some(array)), JvmValue::Int(0)], vec![], 1);
    assert!(matches!(
        *load_character_array_instruction(&mut f, &heap).unwrap_err(),
        JvmError::IncompatibleArrayType
    ));
    let mut f = frame(vec![JvmValue::Reference(Some(array)), JvmValue::Int(0), JvmValue::Int(65)], vec![], 1);
    assert_eq!(
        Step::Throw(JvmException::ArrayStore),
        store_character_array_instruction(&mut f, &mut heap).unwrap()
    );
    let mut f = frame(vec![JvmValue::Reference(None)], vec![], 1);
    assert_eq!(
        Step::Throw(JvmException::NullPointer),
        array_length_instruction(&mut f, &heap).unwrap()
    );
    let mut f = frame(vec![JvmValue::Reference(Some(array))], vec![], 1);
    array_length_instruction(&mut f, &heap).unwrap();
    assert_eq!(ints(&[3]), f.operand_stack);

    let mut f = frame(ints(&[-1]), vec![], 1);
    assert_eq!(
        Step::Throw(JvmException::NegativeArraySize),
        new_array_instruction(&mut f, &code, &mut heap).unwrap()
    );
    assert_eq!(1, f.program_counter);

    let code = [0xbc, 99];
    let mut f = frame(ints(&[1]), vec![], 1);
    assert!(matches!(
        *new_array_instruction(&mut f, &code, &mut heap).unwrap_err(),
        JvmError::InvalidArrayType(99)
    ));

    let info = TypeInfo { object_or_array: ObjectArrayType::Class(0), dimension: 0 };
    let mut f = frame(ints(&[2]), vec![], 3);
    assert_eq!(Step::Next, new_object_array(&mut f, &mut heap, info).unwrap());
    let objects = match f.operand_stack[0] {
        JvmValue::Reference(Some(r)) => r,
        _ => panic!("expected reference"),
    };
    assert!(matches!(heap.get(objects), HeapObject::ObjectArray(a) if a.dimension == 1 && a.array == vec![None, None]));

    let info = TypeInfo { object_or_array: ObjectArrayType::Primitive(DescriptorType::Integer), dimension: 0 };
    let mut f = frame(ints(&[2]), vec![], 3);
    assert!(matches!(
        *new_object_array(&mut f, &mut heap, info).unwrap_err(),
        JvmError::InvalidMultidimensionalPrimitiveArrayDimension
    ));
}

#[test]
fn array_type_names() {
    let (name, dimension) = determine_type_and_dimension_if_array("java/lang/String");
    assert_eq!(TypeName::Class("java/lang/String".to_owned()), name);
    assert_eq!(0, dimension);

    let (name, dimension) = determine_type_and_dimension_if_array("[[Ljava/lang/Object;");
    assert_eq!(TypeName::Class("java/lang/Object".to_owned()), name);
    assert_eq!(2, dimension);

    let (name, dimension) = determine_type_and_dimension_if_array("[J");
    assert_eq!(TypeName::Primitive(DescriptorType::Long), name);
    assert_eq!(1, dimension);
}
