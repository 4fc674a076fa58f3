use jvankom::class_file::{
    Attribute, ClassAccessFlags, ConstantPool, FieldAccessFlags, Method, MethodAccessFlags,
};
use jvankom::class_parser::{parse_from_bytes, ClassParserError};
use jvankom::class_verifier::verify_class_file;

fn push_u16(bytes: &mut Vec<u8>, value: u16) {
    bytes.extend_from_slice(&value.to_be_bytes());
}

fn push_u32(bytes: &mut Vec<u8>, value: u32) {
    bytes.extend_from_slice(&value.to_be_bytes());
}

fn push_utf8(bytes: &mut Vec<u8>, text: &str) {
    bytes.push(1);
    push_u16(bytes, text.len() as u16);
    bytes.extend_from_slice(text.as_bytes());
}

fn push_code(bytes: &mut Vec<u8>, code: &[u8]) {
    push_u16(bytes, 8); // "Code"
    push_u32(bytes, 12 + code.len() as u32);
    push_u16(bytes, 1); // max_stack
    push_u16(bytes, 1); // max_locals
    push_u32(bytes, code.len() as u32);
    bytes.extend_from_slice(code);
    push_u16(bytes, 0); // exception table
    push_u16(bytes, 0); // attributes
}

/// The class file that `javac` makes of
/// `public class Test { private int a; public void hello() { ... } }`.
fn test_class_bytes() -> Vec<u8> {
    let mut b = vec![0xCA, 0xFE, 0xBA, 0xBE];
    push_u16(&mut b, 0);
    push_u16(&mut b, 52);
    push_u16(&mut b, 15);
    b.push(10); // 1: Methodref java/lang/Object.<init>:()V
    push_u16(&mut b, 3);
    push_u16(&mut b, 12);
    b.push(7); // 2: Class Test
    push_u16(&mut b, 13);
    b.push(7); // 3: Class java/lang/Object
    push_u16(&mut b, 14);
    push_utf8(&mut b, "a"); // 4
    push_utf8(&mut b, "I"); // 5
    push_utf8(&mut b, "<init>"); // 6
    push_utf8(&mut b, "()V"); // 7
    push_utf8(&mut b, "Code"); // 8
    push_utf8(&mut b, "hello"); // 9
    push_utf8(&mut b, "SourceFile"); // 10
    push_utf8(&mut b, "Test.java"); // 11
    b.push(12); // 12: NameAndType <init>:()V
    push_u16(&mut b, 6);
    push_u16(&mut b, 7);
    push_utf8(&mut b, "Test"); // 13
    push_utf8(&mut b, "java/lang/Object"); // 14
    push_u16(&mut b, 0x0021); // public super
    push_u16(&mut b, 2);
    push_u16(&mut b, 3);
    push_u16(&mut b, 0); // interfaces
    push_u16(&mut b, 1); // fields
    push_u16(&mut b, 0x0002);
    push_u16(&mut b, 4);
    push_u16(&mut b, 5);
    push_u16(&mut b, 0);
    push_u16(&mut b, 2); // methods
    push_u16(&mut b, 0x0001);
    push_u16(&mut b, 6);
    push_u16(&mut b, 7);
    push_u16(&mut b, 1);
    push_code(&mut b, &[0x2a, 0xb7, 0x00, 0x01, 0xb1]);
    push_u16(&mut b, 0x0001);
    push_u16(&mut b, 9);
    push_u16(&mut b, 7);
    push_u16(&mut b, 1);
    push_code(&mut b, &[0x03, 0x57, 0xb1]);
    push_u16(&mut b, 1); // attributes
    push_u16(&mut b, 10);
    push_u32(&mut b, 2);
    push_u16(&mut b, 11);
    b
}

fn assert_method_values(
    method: &Method,
    const_pool: &ConstantPool,
    expected_name: &str,
    expected_descriptor: &str,
) {
    let name = const_pool.get_utf8(method.name_index).unwrap();
    assert_eq!(expected_name, name);

    let descriptor = const_pool.get_utf8(method.descriptor_index).unwrap();
    assert_eq!(expected_descriptor, descriptor);

    let code: Vec<_> = method
        .attributes
        .iter()
        .filter_map(|atr| match atr {
            Attribute::Code(c) => Some(c),
            _ => None,
        })
        .collect();

    assert_eq!(1, code.len());
    assert!(!code[0].code.is_empty());
    assert!(code[0].max_stack > 0);
    assert!(code[0].max_locals > 0);

    assert!(method.access_flags.check_flag(MethodAccessFlags::PUBLIC_FLAG));
    let unexpected_field_flags = [
        MethodAccessFlags::PRIVATE_FLAG,
        MethodAccessFlags::PROTECTED_FLAG,
        MethodAccessFlags::FINAL_FLAG,
        MethodAccessFlags::STATIC_FLAG,
        MethodAccessFlags::SYNTHETIC_FLAG,
        MethodAccessFlags::STRICT_FLAG,
        MethodAccessFlags::SYNCHRONIZED_FLAG,
        MethodAccessFlags::NATIVE_FLAG,
        MethodAccessFlags::VARARGS_FLAG,
    ];
    for flag in unexpected_field_flags {
        assert!(!method.access_flags.check_flag(flag));
    }
}

#[test]
fn test_parse_ok() {
    let class = parse_from_bytes(test_class_bytes()).unwrap();
    assert_eq!("Test", class.get_class_name().unwrap());
    assert_eq!("java/lang/Object", class.get_super_class_name().unwrap());
    assert_eq!(1, class.fields.len());
    assert!(class.interfaces.is_empty());

    let field = &class.fields[0];
    let field_name = class.constant_pool.get_utf8(field.name_index).unwrap();
    assert_eq!("a", field_name);

    let field_type = class.constant_pool.get_utf8(field.descriptor_index).unwrap();
    assert_eq!("I", field_type);

    assert!(field.access_flags.check_flag(FieldAccessFlags::PRIVATE_FLAG));
    let unexpected_field_flags = [
        FieldAccessFlags::PUBLIC_FLAG,
        FieldAccessFlags::PROTECTED_FLAG,
        FieldAccessFlags::FINAL_FLAG,
        FieldAccessFlags::STATIC_FLAG,
        FieldAccessFlags::SYNTHETIC_FLAG,
        FieldAccessFlags::TRANSIENT_FLAG,
        FieldAccessFlags::VOLATILE_FLAG,
        FieldAccessFlags::ENUM_FLAG,
    ];
    for flag in unexpected_field_flags {
        assert!(!field.access_flags.check_flag(flag))
    }
    assert!(field.attributes.is_empty());

    let method1 = &class.methods[0];
    let method2 = &class.methods[1];
    assert_method_values(method1, &class.constant_pool, "<init>", "()V");
    assert_method_values(method2, &class.constant_pool, "hello", "()V");

    assert!(class.access_flags.check_flag(ClassAccessFlags::PUBLIC_FLAG));
    assert!(class.access_flags.check_flag(ClassAccessFlags::SUPER_FLAG));
    let unexpected_class_flags = [
        ClassAccessFlags::ABSTRACT_FLAG,
        ClassAccessFlags::ANNOTATION_FLAG,
        ClassAccessFlags::SYNTHETIC_FLAG,
        ClassAccessFlags::INTERFACE_FLAG,
        ClassAccessFlags::FINAL_FLAG,
        ClassAccessFlags::ENUM_FLAG,
    ];
    for flag in unexpected_class_flags {
        assert!(!class.access_flags.check_flag(flag));
    }

    assert_eq!(1, class.attributes.len());
    let sourcefile = match &class.attributes[0] {
        Attribute::SourceFile { sourcefile_index } => {
            class.constant_pool.get_utf8(*sourcefile_index).unwrap()
        }
        _ => panic!("expected source file attribute"),
    };
    assert_eq!("Test.java", sourcefile)
}

#[test]
fn test_parse_unexpected_end_of_file() {
    let result = parse_from_bytes(vec![0xCA, 0xFE, 0xBA, 0xBE, 0x0]);
    let error = result.unwrap_err();
    assert!(matches!(error, ClassParserError::UnexpectedEndOfFile));
}

#[test]
fn test_parse_invalid_magic_number() {
    let result = parse_from_bytes(vec![0xCA, 0xFE, 0x01, 0xBE, 0x0]);
    let error = result.unwrap_err();
    assert!(matches!(error, ClassParserError::InvalidMagicNumber));
}

#[test]
fn test_parse_empty_file() {
    let result = parse_from_bytes(vec![]);
    let error = result.unwrap_err();
    assert!(matches!(error, ClassParserError::EmptyFile));
}

#[test]
fn test_parse_trailing_bytes() {
    let mut bytes = test_class_bytes();
    bytes.push(0);
    let result = parse_from_bytes(bytes);
    let error = result.unwrap_err();
    assert!(matches!(error, ClassParserError::ExpectedEndOfFile));
}

#[test]
fn test_verify_ok() {
    let class = parse_from_bytes(test_class_bytes()).unwrap();
    verify_class_file(class).unwrap();
}

#[test]
fn parse_keeps_version_and_method_lookup() {
    let class = parse_from_bytes(test_class_bytes()).unwrap();
    assert_eq!(52, class.version.major);
    assert_eq!(0, class.version.minor);
    let (method_index, bytecode_index) = class.get_method_and_bytecode_index("hello", "()V").unwrap();
    assert_eq!(1, method_index);
    assert_eq!(Some(0), bytecode_index);
    assert!(class.get_method_and_bytecode_index("hello", "(I)V").is_none());
}

#[test]
fn parse_rejects_invalid_constant_tag() {
    let mut bytes = vec![0xCA, 0xFE, 0xBA, 0xBE, 0, 0, 0, 52, 0, 2];
    bytes.push(99);
    bytes.extend_from_slice(&[0, 0, 0, 0]);
    let result = parse_from_bytes(bytes);
    assert!(matches!(result.unwrap_err(), ClassParserError::InvalidTag));
}
