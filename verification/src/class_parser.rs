//! Parsing of the binary class file format.
//!
//! The format is given by the `spec_*` functions below, which read a byte
//! sequence from a position and return the value read with the position after
//! it, or the error met first. The executable parser is proved to return
//! exactly what they describe.
use vstd::prelude::*;
use vstd::utf8::*;

use crate::class_file::{
    attribute_view, attributes_view, class_flags_valid, cp_utf8, field_flags_valid,
    cp_wf, constant_indices_valid, lemma_attributes_view_push, method_flags_valid, valid_cp_index, Attribute, AttributeV, Bytecode, BytecodeV,
    ClassAccessFlags, ClassFile, ClassFileV, ClassFileVersion, ConstantPool, ConstantValue,
    ConstantValueV, ExceptionTableEntry, Field, FieldAccessFlags, FieldV, Method,
    MethodAccessFlags, MethodV,
};
use crate::text::str_equal;

verus! {

pub const CLASS_FILE_MAGIC: u32 = 0xCAFEBABE;
pub const UTF8_TAG: u8 = 1;
pub const INTEGER_TAG: u8 = 3;
pub const FLOAT_TAG: u8 = 4;
pub const LONG_TAG: u8 = 5;
pub const DOUBLE_TAG: u8 = 6;
pub const CLASS_TAG: u8 = 7;
pub const STRING_TAG: u8 = 8;
pub const FIELDREF_TAG: u8 = 9;
pub const METHODREF_TAG: u8 = 10;
pub const INTERFACE_METHODREF_TAG: u8 = 11;
pub const NAME_AND_TYPE_TAG: u8 = 12;
pub const METHOD_HANDLE_TAG: u8 = 15;
pub const METHOD_TYPE_TAG: u8 = 16;
pub const INVOKE_DYNAMIC_TAG: u8 = 18;

#[derive(Debug, Clone)]
pub enum ClassParserError {
    EmptyFile,
    ErrorReadingFile(String),
    UnexpectedEndOfFile,
    ExpectedEndOfFile,
    InvalidMagicNumber,
    InvalidConstantsPoolSize,
    InvalidTag,
    InvalidUtf8String(String),
    InvalidReferenceKind,
    ExpectedUtf8,
    InvalidAttributeLength,
    InvalidConstantPoolIndex,
    InvalidFieldAccessFlags,
    InvalidMethodAccessFlags,
    InvalidClassAccessFlags,
}

impl ClassParserError {
    /// The description of the error that is shown to the user.
    pub open spec fn text(&self) -> Seq<char> {
        match self {
            ClassParserError::EmptyFile => "File is empty"@,
            ClassParserError::ErrorReadingFile(desc) => desc@,
            ClassParserError::UnexpectedEndOfFile => "Unexpected end of file"@,
            ClassParserError::ExpectedEndOfFile => "Expecting end of file - extra bytes present"@,
            ClassParserError::InvalidMagicNumber => "Invalid magic number"@,
            ClassParserError::InvalidConstantsPoolSize => "Invalid constants pool size"@,
            ClassParserError::InvalidTag => "Invalid constant pool tag"@,
            ClassParserError::InvalidUtf8String(desc) => desc@,
            ClassParserError::InvalidReferenceKind => "Invalid reference kind"@,
            ClassParserError::ExpectedUtf8 => "Expected UTF8 constant value"@,
            ClassParserError::InvalidAttributeLength => "Invalid attribute length"@,
            ClassParserError::InvalidConstantPoolIndex => "Invalid constant pool index"@,
            ClassParserError::InvalidFieldAccessFlags => "Invalid field access flags"@,
            ClassParserError::InvalidMethodAccessFlags => "Invalid method access flags"@,
            ClassParserError::InvalidClassAccessFlags => "Invalid class access flags"@,
        }
    }

    /// The description of the error that is shown to the user.
    pub fn message(&self) -> (res: String)
        ensures
            res@ == self.text(),
    {
        match self {
            ClassParserError::EmptyFile => "File is empty".to_owned(),
            ClassParserError::ErrorReadingFile(desc) => desc.as_str().to_owned(),
            ClassParserError::UnexpectedEndOfFile => "Unexpected end of file".to_owned(),
            ClassParserError::ExpectedEndOfFile => "Expecting end of file - extra bytes present".to_owned(),
            ClassParserError::InvalidMagicNumber => "Invalid magic number".to_owned(),
            ClassParserError::InvalidConstantsPoolSize => "Invalid constants pool size".to_owned(),
            ClassParserError::InvalidTag => "Invalid constant pool tag".to_owned(),
            ClassParserError::InvalidUtf8String(desc) => desc.as_str().to_owned(),
            ClassParserError::InvalidReferenceKind => "Invalid reference kind".to_owned(),
            ClassParserError::ExpectedUtf8 => "Expected UTF8 constant value".to_owned(),
            ClassParserError::InvalidAttributeLength => "Invalid attribute length".to_owned(),
            ClassParserError::InvalidConstantPoolIndex => "Invalid constant pool index".to_owned(),
            ClassParserError::InvalidFieldAccessFlags => "Invalid field access flags".to_owned(),
            ClassParserError::InvalidMethodAccessFlags => "Invalid method access flags".to_owned(),
            ClassParserError::InvalidClassAccessFlags => "Invalid class access flags".to_owned(),
        }
    }
}

/// Mathematical counterpart of a parse error. `PoolOverrun` stands for a
/// constant pool whose last entry is an 8-byte constant that runs one slot past
/// the declared pool size; no value of the error type stands for it.
pub enum ParseErrorV {
    EmptyFile,
    ErrorReadingFile(Seq<char>),
    UnexpectedEndOfFile,
    ExpectedEndOfFile,
    InvalidMagicNumber,
    InvalidConstantsPoolSize,
    InvalidTag,
    InvalidUtf8String(Seq<char>),
    InvalidReferenceKind,
    ExpectedUtf8,
    InvalidAttributeLength,
    InvalidConstantPoolIndex,
    InvalidFieldAccessFlags,
    InvalidMethodAccessFlags,
    InvalidClassAccessFlags,
    PoolOverrun,
}

impl View for ClassParserError {
    type V = ParseErrorV;

    open spec fn view(&self) -> ParseErrorV {
        match *self {
            ClassParserError::EmptyFile => ParseErrorV::EmptyFile,
            ClassParserError::ErrorReadingFile(s) => ParseErrorV::ErrorReadingFile(s@),
            ClassParserError::UnexpectedEndOfFile => ParseErrorV::UnexpectedEndOfFile,
            ClassParserError::ExpectedEndOfFile => ParseErrorV::ExpectedEndOfFile,
            ClassParserError::InvalidMagicNumber => ParseErrorV::InvalidMagicNumber,
            ClassParserError::InvalidConstantsPoolSize => ParseErrorV::InvalidConstantsPoolSize,
            ClassParserError::InvalidTag => ParseErrorV::InvalidTag,
            ClassParserError::InvalidUtf8String(s) => ParseErrorV::InvalidUtf8String(s@),
            ClassParserError::InvalidReferenceKind => ParseErrorV::InvalidReferenceKind,
            ClassParserError::ExpectedUtf8 => ParseErrorV::ExpectedUtf8,
            ClassParserError::InvalidAttributeLength => ParseErrorV::InvalidAttributeLength,
            ClassParserError::InvalidConstantPoolIndex => ParseErrorV::InvalidConstantPoolIndex,
            ClassParserError::InvalidFieldAccessFlags => ParseErrorV::InvalidFieldAccessFlags,
            ClassParserError::InvalidMethodAccessFlags => ParseErrorV::InvalidMethodAccessFlags,
            ClassParserError::InvalidClassAccessFlags => ParseErrorV::InvalidClassAccessFlags,
        }
    }
}

/// The value read, with the position after it, or the first error met.
pub type PResult<T> = Result<(T, int), ParseErrorV>;

/// Puts `acc` in front of the sequence that `r` read.
pub open spec fn prepend<T>(acc: Seq<T>, r: PResult<Seq<T>>) -> PResult<Seq<T>> {
    match r {
        Ok((v, q)) => Ok((acc + v, q)),
        Err(e) => Err(e),
    }
}

pub open spec fn be_u16(b0: u8, b1: u8) -> u16 {
    (b0 as int * 0x100 + b1 as int) as u16
}

pub open spec fn be_u32(hi: u16, lo: u16) -> u32 {
    (hi as int * 0x10000 + lo as int) as u32
}

pub open spec fn be_u64(hi: u32, lo: u32) -> u64 {
    (hi as int * 0x1_0000_0000 + lo as int) as u64
}

pub open spec fn spec_u8(s: Seq<u8>, p: int) -> PResult<u8> {
    if 0 <= p && p + 1 <= s.len() {
        Ok((s[p], p + 1))
    } else {
        Err(ParseErrorV::UnexpectedEndOfFile)
    }
}

pub open spec fn spec_u16(s: Seq<u8>, p: int) -> PResult<u16> {
    if 0 <= p && p + 2 <= s.len() {
        Ok((be_u16(s[p], s[p + 1]), p + 2))
    } else {
        Err(ParseErrorV::UnexpectedEndOfFile)
    }
}

pub open spec fn spec_u32(s: Seq<u8>, p: int) -> PResult<u32> {
    if 0 <= p && p + 4 <= s.len() {
        Ok((be_u32(be_u16(s[p], s[p + 1]), be_u16(s[p + 2], s[p + 3])), p + 4))
    } else {
        Err(ParseErrorV::UnexpectedEndOfFile)
    }
}

pub open spec fn spec_u64(s: Seq<u8>, p: int) -> PResult<u64> {
    if 0 <= p && p + 8 <= s.len() {
        Ok(
            (
                be_u64(
                    be_u32(be_u16(s[p], s[p + 1]), be_u16(s[p + 2], s[p + 3])),
                    be_u32(be_u16(s[p + 4], s[p + 5]), be_u16(s[p + 6], s[p + 7])),
                ),
                p + 8,
            ),
        )
    } else {
        Err(ParseErrorV::UnexpectedEndOfFile)
    }
}

pub open spec fn spec_bytes(s: Seq<u8>, p: int, n: int) -> PResult<Seq<u8>> {
    if 0 <= p && 0 <= n && p + n <= s.len() {
        Ok((s.subrange(p, p + n), p + n))
    } else {
        Err(ParseErrorV::UnexpectedEndOfFile)
    }
}

/// A constant pool index: not zero and below the pool size.
pub open spec fn spec_index(s: Seq<u8>, p: int, cp_size: int) -> PResult<usize> {
    match spec_u16(s, p) {
        Ok((v, q)) => if 0 < v < cp_size {
            Ok((v as usize, q))
        } else {
            Err(ParseErrorV::InvalidConstantPoolIndex)
        },
        Err(e) => Err(e),
    }
}

/// Two constant pool indices in a row.
pub open spec fn spec_index_pair(s: Seq<u8>, p: int, cp_size: int) -> PResult<(usize, usize)> {
    match spec_index(s, p, cp_size) {
        Ok((a, q)) => match spec_index(s, q, cp_size) {
            Ok((b, r)) => Ok(((a, b), r)),
            Err(e) => Err(e),
        },
        Err(e) => Err(e),
    }
}

/// The description of the error that `String::from_utf8` reports for bytes
/// that are not valid UTF-8.
pub uninterp spec fn utf8_error_description(bytes: Seq<u8>) -> Seq<char>;

pub open spec fn spec_utf8_constant(s: Seq<u8>, p: int) -> PResult<ConstantValueV> {
    match spec_u16(s, p) {
        Ok((size, q)) => match spec_bytes(s, q, size as int) {
            Ok((b, r)) => if valid_utf8(b) {
                Ok((ConstantValueV::Utf8(decode_utf8(b)), r))
            } else {
                Err(ParseErrorV::InvalidUtf8String(utf8_error_description(b)))
            },
            Err(e) => Err(e),
        },
        Err(e) => Err(e),
    }
}

/// The constant that follows a tag byte.
pub open spec fn spec_constant_value(s: Seq<u8>, p: int, tag: u8, cp_size: int) -> PResult<
    ConstantValueV,
> {
    if tag == UTF8_TAG {
        spec_utf8_constant(s, p)
    } else if tag == INTEGER_TAG {
        match spec_u32(s, p) {
            Ok((v, q)) => Ok((ConstantValueV::Int(v as i32), q)),
            Err(e) => Err(e),
        }
    } else if tag == FLOAT_TAG {
        match spec_u32(s, p) {
            Ok((v, q)) => Ok((ConstantValueV::Float(v), q)),
            Err(e) => Err(e),
        }
    } else if tag == LONG_TAG {
        match spec_u64(s, p) {
            Ok((v, q)) => Ok((ConstantValueV::Long(v as i64), q)),
            Err(e) => Err(e),
        }
    } else if tag == DOUBLE_TAG {
        match spec_u64(s, p) {
            Ok((v, q)) => Ok((ConstantValueV::Double(v), q)),
            Err(e) => Err(e),
        }
    } else if tag == CLASS_TAG {
        match spec_index(s, p, cp_size) {
            Ok((i, q)) => Ok((ConstantValueV::Class { name_index: i }, q)),
            Err(e) => Err(e),
        }
    } else if tag == STRING_TAG {
        match spec_index(s, p, cp_size) {
            Ok((i, q)) => Ok((ConstantValueV::String { utf8_index: i }, q)),
            Err(e) => Err(e),
        }
    } else if tag == FIELDREF_TAG {
        match spec_index_pair(s, p, cp_size) {
            Ok(((a, b), q)) => Ok(
                (ConstantValueV::FieldRef { class_index: a, name_and_type_index: b }, q),
            ),
            Err(e) => Err(e),
        }
    } else if tag == METHODREF_TAG {
        match spec_index_pair(s, p, cp_size) {
            Ok(((a, b), q)) => Ok(
                (ConstantValueV::MethodRef { class_index: a, name_and_type_index: b }, q),
            ),
            Err(e) => Err(e),
        }
    } else if tag == INTERFACE_METHODREF_TAG {
        match spec_index_pair(s, p, cp_size) {
            Ok(((a, b), q)) => Ok(
                (ConstantValueV::InterfaceMethodRef { class_index: a, name_and_type_index: b }, q),
            ),
            Err(e) => Err(e),
        }
    } else if tag == NAME_AND_TYPE_TAG {
        match spec_index_pair(s, p, cp_size) {
            Ok(((a, b), q)) => Ok(
                (ConstantValueV::NameAndType { name_index: a, descriptor_index: b }, q),
            ),
            Err(e) => Err(e),
        }
    } else if tag == METHOD_HANDLE_TAG {
        match spec_u8(s, p) {
            Ok((kind, q)) => if !(1 <= kind <= 9) {
                Err(ParseErrorV::InvalidReferenceKind)
            } else {
                match spec_index(s, q, cp_size) {
                    Ok((i, r)) => Ok(
                        (ConstantValueV::MethodHandle { reference_kind: kind, reference_index: i }, r),
                    ),
                    Err(e) => Err(e),
                }
            },
            Err(e) => Err(e),
        }
    } else if tag == METHOD_TYPE_TAG {
        match spec_index(s, p, cp_size) {
            Ok((i, q)) => Ok((ConstantValueV::MethodType { descriptor_index: i }, q)),
            Err(e) => Err(e),
        }
    } else if tag == INVOKE_DYNAMIC_TAG {
        match spec_index_pair(s, p, cp_size) {
            Ok(((a, b), q)) => Ok(
                (
                    ConstantValueV::InvokeDynamic {
                        bootstrap_method_attr_index: a,
                        name_and_type_index: b,
                    },
                    q,
                ),
            ),
            Err(e) => Err(e),
        }
    } else {
        Err(ParseErrorV::InvalidTag)
    }
}

/// Entries from slot `idx` up to the pool size; an 8-byte constant takes two slots.
pub open spec fn spec_pool_entries(s: Seq<u8>, p: int, size: int, idx: int) -> PResult<
    Seq<ConstantValueV>,
>
    decreases if idx < size {
        size - idx
    } else {
        0
    },
{
    if idx >= size {
        Ok((Seq::empty(), p))
    } else {
        match spec_u8(s, p) {
            Ok((tag, q)) => match spec_constant_value(s, q, tag, size) {
                Ok((c, r)) => if tag == DOUBLE_TAG || tag == LONG_TAG {
                    prepend(seq![c, ConstantValueV::Unusable], spec_pool_entries(s, r, size, idx + 2))
                } else {
                    prepend(seq![c], spec_pool_entries(s, r, size, idx + 1))
                },
                Err(e) => Err(e),
            },
            Err(e) => Err(e),
        }
    }
}

pub open spec fn spec_constant_pool(s: Seq<u8>, p: int) -> PResult<Seq<ConstantValueV>> {
    match spec_u16(s, p) {
        Ok((size, q)) => if size == 0 {
            Err(ParseErrorV::InvalidConstantsPoolSize)
        } else {
            match spec_pool_entries(s, q, size as int, 1) {
                Ok((entries, r)) => {
                    let pool = seq![ConstantValueV::Unusable] + entries;
                    if pool.len() != size {
                        Err(ParseErrorV::PoolOverrun)
                    } else {
                        Ok((pool, r))
                    }
                },
                Err(e) => Err(e),
            }
        },
        Err(e) => Err(e),
    }
}

/// `n` constant pool indices in a row.
pub open spec fn spec_index_list(s: Seq<u8>, p: int, cp_size: int, n: int) -> PResult<Seq<usize>>
    decreases n,
{
    if n <= 0 {
        Ok((Seq::empty(), p))
    } else {
        match spec_index(s, p, cp_size) {
            Ok((i, q)) => prepend(seq![i], spec_index_list(s, q, cp_size, n - 1)),
            Err(e) => Err(e),
        }
    }
}

pub open spec fn spec_interfaces(s: Seq<u8>, p: int, cp_size: int) -> PResult<Seq<usize>> {
    match spec_u16(s, p) {
        Ok((n, q)) => spec_index_list(s, q, cp_size, n as int),
        Err(e) => Err(e),
    }
}

/// The super class index: zero for none, otherwise below the pool size.
pub open spec fn spec_super_class(s: Seq<u8>, p: int, cp_size: int) -> PResult<Option<usize>> {
    match spec_u16(s, p) {
        Ok((v, q)) => if v >= cp_size {
            Err(ParseErrorV::InvalidConstantPoolIndex)
        } else if v == 0 {
            Ok((None, q))
        } else {
            Ok((Some(v as usize), q))
        },
        Err(e) => Err(e),
    }
}

pub open spec fn exception_entry_at(s: Seq<u8>, p: int) -> ExceptionTableEntry {
    ExceptionTableEntry {
        start_pc: be_u16(s[p], s[p + 1]),
        end_pc: be_u16(s[p + 2], s[p + 3]),
        handler_pc: be_u16(s[p + 4], s[p + 5]),
        catch_type: be_u16(s[p + 6], s[p + 7]),
    }
}

/// `n` exception table entries of 8 bytes each.
pub open spec fn spec_exception_table(s: Seq<u8>, p: int, n: int) -> PResult<Seq<ExceptionTableEntry>> {
    if 0 <= p && 0 <= n && p + 8 * n <= s.len() {
        Ok((Seq::new(n as nat, |i: int| exception_entry_at(s, p + 8 * i)), p + 8 * n))
    } else {
        Err(ParseErrorV::UnexpectedEndOfFile)
    }
}

pub open spec fn code_name() -> Seq<char> {
    seq!['C', 'o', 'd', 'e']
}

pub open spec fn constant_value_name() -> Seq<char> {
    seq!['C', 'o', 'n', 's', 't', 'a', 'n', 't', 'V', 'a', 'l', 'u', 'e']
}

pub open spec fn source_file_name() -> Seq<char> {
    seq!['S', 'o', 'u', 'r', 'c', 'e', 'F', 'i', 'l', 'e']
}

/// A count of attributes followed by the attributes.
pub open spec fn spec_attributes(s: Seq<u8>, p: int, cp: Seq<ConstantValueV>) -> PResult<
    Seq<AttributeV>,
>
    decreases s.len() - p,
{
    match spec_u16(s, p) {
        Ok((n, q)) => spec_attribute_list(s, q, cp, n as int),
        Err(e) => Err(e),
    }
}

/// `n` attributes, each a name index followed by the attribute. A parsed
/// attribute always ends after it starts (`lemma_attribute_advances`); the
/// check on the end position only serves to show that this definition terminates.
pub open spec fn spec_attribute_list(s: Seq<u8>, p: int, cp: Seq<ConstantValueV>, n: int) -> PResult<
    Seq<AttributeV>,
>
    decreases s.len() - p,
{
    if n <= 0 {
        Ok((Seq::empty(), p))
    } else {
        match spec_index(s, p, cp.len() as int) {
            Ok((name_index, q)) => match spec_attribute(s, q, cp, name_index) {
                Ok((a, r)) => if p < r <= s.len() {
                    prepend(seq![a], spec_attribute_list(s, r, cp, n - 1))
                } else {
                    Err(ParseErrorV::UnexpectedEndOfFile)
                },
                Err(e) => Err(e),
            },
            Err(e) => Err(e),
        }
    }
}

/// An attribute after its name index: the length, then the body that the
/// name selects; the body must take exactly the declared length.
pub open spec fn spec_attribute(s: Seq<u8>, p: int, cp: Seq<ConstantValueV>, name_index: usize) -> PResult<
    AttributeV,
>
    decreases s.len() - p,
{
    match spec_u32(s, p) {
        Ok((length, q)) => match cp_utf8(cp, name_index as int) {
            None => Err(ParseErrorV::ExpectedUtf8),
            Some(name) => {
                let body = if name == code_name() {
                    spec_code(s, q, cp)
                } else if name == constant_value_name() {
                    match spec_index(s, q, cp.len() as int) {
                        Ok((i, r)) => Ok((AttributeV::ConstantValue { value_index: i }, r)),
                        Err(e) => Err(e),
                    }
                } else if name == source_file_name() {
                    match spec_index(s, q, cp.len() as int) {
                        Ok((i, r)) => Ok((AttributeV::SourceFile { sourcefile_index: i }, r)),
                        Err(e) => Err(e),
                    }
                } else {
                    match spec_bytes(s, q, length as int) {
                        Ok((b, r)) => Ok((AttributeV::Unknown { name_index, info: b }, r)),
                        Err(e) => Err(e),
                    }
                };
                match body {
                    Ok((a, r)) => if length as int != r - q {
                        Err(ParseErrorV::InvalidAttributeLength)
                    } else {
                        Ok((a, r))
                    },
                    Err(e) => Err(e),
                }
            },
        },
        Err(e) => Err(e),
    }
}

/// The body of a `Code` attribute.
pub open spec fn spec_code(s: Seq<u8>, p: int, cp: Seq<ConstantValueV>) -> PResult<AttributeV>
    decreases s.len() - p,
{
    match spec_u16(s, p) {
        Ok((max_stack, p1)) => match spec_u16(s, p1) {
            Ok((max_locals, p2)) => match spec_u32(s, p2) {
                Ok((code_length, p3)) => match spec_bytes(s, p3, code_length as int) {
                    Ok((code, p4)) => match spec_u16(s, p4) {
                        Ok((et_len, p5)) => match spec_exception_table(s, p5, et_len as int) {
                            Ok((table, p6)) => if p < p6 <= s.len() {
                                match spec_attributes(s, p6, cp) {
                                    Ok((attrs, p7)) => Ok(
                                        (
                                            AttributeV::Code(
                                                BytecodeV {
                                                    code,
                                                    max_stack,
                                                    max_locals,
                                                    exception_table: table,
                                                    attributes: attrs,
                                                },
                                            ),
                                            p7,
                                        ),
                                    ),
                                    Err(e) => Err(e),
                                }
                            } else {
                                Err(ParseErrorV::UnexpectedEndOfFile)
                            },
                            Err(e) => Err(e),
                        },
                        Err(e) => Err(e),
                    },
                    Err(e) => Err(e),
                },
                Err(e) => Err(e),
            },
            Err(e) => Err(e),
        },
        Err(e) => Err(e),
    }
}

/// A field: flags, name index, descriptor index and attributes.
pub open spec fn spec_field(s: Seq<u8>, p: int, cp: Seq<ConstantValueV>) -> PResult<FieldV> {
    match spec_u16(s, p) {
        Ok((flags, p1)) => if !field_flags_valid(flags) {
            Err(ParseErrorV::InvalidFieldAccessFlags)
        } else {
            match spec_index_pair(s, p1, cp.len() as int) {
                Ok(((n, d), p2)) => match spec_attributes(s, p2, cp) {
                    Ok((attrs, p3)) => Ok(
                        (
                            FieldV {
                                name_index: n,
                                descriptor_index: d,
                                access_flags: flags,
                                attributes: attrs,
                            },
                            p3,
                        ),
                    ),
                    Err(e) => Err(e),
                },
                Err(e) => Err(e),
            }
        },
        Err(e) => Err(e),
    }
}

pub open spec fn spec_field_list(s: Seq<u8>, p: int, cp: Seq<ConstantValueV>, n: int) -> PResult<
    Seq<FieldV>,
>
    decreases n,
{
    if n <= 0 {
        Ok((Seq::empty(), p))
    } else {
        match spec_field(s, p, cp) {
            Ok((f, q)) => prepend(seq![f], spec_field_list(s, q, cp, n - 1)),
            Err(e) => Err(e),
        }
    }
}

pub open spec fn spec_fields(s: Seq<u8>, p: int, cp: Seq<ConstantValueV>) -> PResult<Seq<FieldV>> {
    match spec_u16(s, p) {
        Ok((n, q)) => spec_field_list(s, q, cp, n as int),
        Err(e) => Err(e),
    }
}

/// A method: flags, name index, descriptor index and attributes.
pub open spec fn spec_method(s: Seq<u8>, p: int, cp: Seq<ConstantValueV>) -> PResult<MethodV> {
    match spec_u16(s, p) {
        Ok((flags, p1)) => if !method_flags_valid(flags) {
            Err(ParseErrorV::InvalidMethodAccessFlags)
        } else {
            match spec_index_pair(s, p1, cp.len() as int) {
                Ok(((n, d), p2)) => match spec_attributes(s, p2, cp) {
                    Ok((attrs, p3)) => Ok(
                        (
                            MethodV {
                                name_index: n,
                                descriptor_index: d,
                                access_flags: flags,
                                attributes: attrs,
                            },
                            p3,
                        ),
                    ),
                    Err(e) => Err(e),
                },
                Err(e) => Err(e),
            }
        },
        Err(e) => Err(e),
    }
}

pub open spec fn spec_method_list(s: Seq<u8>, p: int, cp: Seq<ConstantValueV>, n: int) -> PResult<
    Seq<MethodV>,
>
    decreases n,
{
    if n <= 0 {
        Ok((Seq::empty(), p))
    } else {
        match spec_method(s, p, cp) {
            Ok((m, q)) => prepend(seq![m], spec_method_list(s, q, cp, n - 1)),
            Err(e) => Err(e),
        }
    }
}

pub open spec fn spec_methods(s: Seq<u8>, p: int, cp: Seq<ConstantValueV>) -> PResult<Seq<MethodV>> {
    match spec_u16(s, p) {
        Ok((n, q)) => spec_method_list(s, q, cp, n as int),
        Err(e) => Err(e),
    }
}

/// The parts of a class file after its constant pool, from position `p`.
pub open spec fn spec_class_body(s: Seq<u8>, p: int, version: ClassFileVersion, cp: Seq<
    ConstantValueV,
>) -> Result<ClassFileV, ParseErrorV> {
    match spec_u16(s, p) {
        Ok((flags, p1)) => if !class_flags_valid(flags) {
            Err(ParseErrorV::InvalidClassAccessFlags)
        } else {
            match spec_index(s, p1, cp.len() as int) {
                Ok((this_class, p2)) => match spec_super_class(s, p2, cp.len() as int) {
                    Ok((super_class, p3)) => match spec_interfaces(s, p3, cp.len() as int) {
                        Ok((interfaces, p4)) => match spec_fields(s, p4, cp) {
                            Ok((fields, p5)) => match spec_methods(s, p5, cp) {
                                Ok((methods, p6)) => match spec_attributes(s, p6, cp) {
                                    Ok((attributes, p7)) => if p7 != s.len() {
                                        Err(ParseErrorV::ExpectedEndOfFile)
                                    } else {
                                        Ok(
                                            ClassFileV {
                                                version,
                                                class_index: this_class,
                                                super_class_index: super_class,
                                                interfaces,
                                                constant_pool: cp,
                                                methods,
                                                fields,
                                                access_flags: flags,
                                                attributes,
                                            },
                                        )
                                    },
                                    Err(e) => Err(e),
                                },
                                Err(e) => Err(e),
                            },
                            Err(e) => Err(e),
                        },
                        Err(e) => Err(e),
                    },
                    Err(e) => Err(e),
                },
                Err(e) => Err(e),
            }
        },
        Err(e) => Err(e),
    }
}

/// A whole class file: magic number, minor and major version, constant pool,
/// then the body, with no byte left over.
pub open spec fn spec_class_file(s: Seq<u8>) -> Result<ClassFileV, ParseErrorV> {
    match spec_u32(s, 0) {
        Ok((magic, p1)) => if magic != CLASS_FILE_MAGIC {
            Err(ParseErrorV::InvalidMagicNumber)
        } else {
            match spec_u16(s, p1) {
                Ok((minor, p2)) => match spec_u16(s, p2) {
                    Ok((major, p3)) => match spec_constant_pool(s, p3) {
                        Ok((cp, p4)) => spec_class_body(
                            s,
                            p4,
                            ClassFileVersion { major, minor },
                            cp,
                        ),
                        Err(e) => Err(e),
                    },
                    Err(e) => Err(e),
                },
                Err(e) => Err(e),
            }
        },
        Err(e) => Err(e),
    }
}

/// What parsing a class file from `bytes` gives.
pub open spec fn spec_parse_from_bytes(bytes: Seq<u8>) -> Result<ClassFileV, ParseErrorV> {
    if bytes.len() == 0 {
        Err(ParseErrorV::EmptyFile)
    } else {
        spec_class_file(bytes)
    }
}


/// The indices that a parsed class file holds point into its constant pool.
pub open spec fn class_file_view_wf(v: ClassFileV) -> bool {
    let len = v.constant_pool.len() as int;
    &&& cp_wf(v.constant_pool)
    &&& valid_cp_index(len, v.class_index)
    &&& v.super_class_index matches Some(i) ==> valid_cp_index(len, i)
    &&& methods_valid(v.methods, len)
    &&& fields_valid(v.fields, len)
}

/// The name and descriptor indices of every field point into a pool of length `len`.
pub open spec fn fields_valid(fs: Seq<FieldV>, len: int) -> bool {
    forall|i: int|
        0 <= i < fs.len() ==> valid_cp_index(len, #[trigger] fs[i].name_index) && valid_cp_index(
            len,
            fs[i].descriptor_index,
        )
}

/// The name and descriptor indices of every method point into a pool of length `len`.
pub open spec fn methods_valid(ms: Seq<MethodV>, len: int) -> bool {
    forall|i: int|
        0 <= i < ms.len() ==> valid_cp_index(len, #[trigger] ms[i].name_index) && valid_cp_index(
            len,
            ms[i].descriptor_index,
        )
}

proof fn lemma_constant_value_valid(s: Seq<u8>, p: int, tag: u8, size: int)
    ensures
        spec_constant_value(s, p, tag, size) matches Ok((c, _)) ==> constant_indices_valid(c, size),
{
}

proof fn lemma_pool_entries_valid(s: Seq<u8>, p: int, size: int, idx: int)
    ensures
        spec_pool_entries(s, p, size, idx) matches Ok((es, _)) ==> forall|k: int|
            0 <= k < es.len() ==> constant_indices_valid(#[trigger] es[k], size),
    decreases
            if idx < size {
                size - idx
            } else {
                0
            },
{
    if idx < size {
        if let Ok((tag, q)) = spec_u8(s, p) {
            lemma_constant_value_valid(s, q, tag, size);
            if let Ok((c, r)) = spec_constant_value(s, q, tag, size) {
                if tag == DOUBLE_TAG || tag == LONG_TAG {
                    lemma_pool_entries_valid(s, r, size, idx + 2);
                    if let Ok((rest, _)) = spec_pool_entries(s, r, size, idx + 2) {
                        let es = seq![c, ConstantValueV::Unusable] + rest;
                        assert forall|k: int| 0 <= k < es.len() implies constant_indices_valid(
                            #[trigger] es[k],
                            size,
                        ) by {
                            if k >= 2 {
                                assert(es[k] == rest[k - 2]);
                            }
                        }
                    }
                } else {
                    lemma_pool_entries_valid(s, r, size, idx + 1);
                    if let Ok((rest, _)) = spec_pool_entries(s, r, size, idx + 1) {
                        let es = seq![c] + rest;
                        assert forall|k: int| 0 <= k < es.len() implies constant_indices_valid(
                            #[trigger] es[k],
                            size,
                        ) by {
                            if k >= 1 {
                                assert(es[k] == rest[k - 1]);
                            }
                        }
                    }
                }
            }
        }
    }
}

/// A parsed constant pool is well formed.
pub proof fn lemma_constant_pool_wf(s: Seq<u8>, p: int)
    ensures
        spec_constant_pool(s, p) matches Ok((cp, _)) ==> cp_wf(cp),
{
    if let Ok((size, q)) = spec_u16(s, p) {
        if size != 0 {
            lemma_pool_entries_valid(s, q, size as int, 1);
            if let Ok((entries, r)) = spec_pool_entries(s, q, size as int, 1) {
                let pool = seq![ConstantValueV::Unusable] + entries;
                if pool.len() == size {
                    assert forall|k: int| 0 <= k < pool.len() implies constant_indices_valid(
                        #[trigger] pool[k],
                        pool.len() as int,
                    ) by {
                        if k >= 1 {
                            assert(pool[k] == entries[k - 1]);
                        }
                    }
                }
            }
        }
    }
}

proof fn lemma_field_valid(s: Seq<u8>, p: int, cp: Seq<ConstantValueV>)
    ensures
        spec_field(s, p, cp) matches Ok((f, _)) ==> valid_cp_index(cp.len() as int, f.name_index)
            && valid_cp_index(cp.len() as int, f.descriptor_index),
{
}

proof fn lemma_method_valid(s: Seq<u8>, p: int, cp: Seq<ConstantValueV>)
    ensures
        spec_method(s, p, cp) matches Ok((m, _)) ==> valid_cp_index(cp.len() as int, m.name_index)
            && valid_cp_index(cp.len() as int, m.descriptor_index),
{
}

proof fn lemma_view_wf(cf: &ClassFile)
    requires
        class_file_view_wf(cf@),
    ensures
        cf.wf(),
{
    let v = cf@;
    assert forall|i: int| 0 <= i < cf.methods@.len() implies valid_cp_index(
        cf.constant_pool@.len() as int,
        #[trigger] cf.methods@[i].name_index,
    ) && valid_cp_index(cf.constant_pool@.len() as int, cf.methods@[i].descriptor_index) by {
        assert(v.methods[i] == cf.methods@[i]@);
        assert(valid_cp_index(cf.constant_pool@.len() as int, v.methods[i].name_index));
    }
    assert forall|i: int| 0 <= i < cf.fields@.len() implies valid_cp_index(
        cf.constant_pool@.len() as int,
        #[trigger] cf.fields@[i].name_index,
    ) && valid_cp_index(cf.constant_pool@.len() as int, cf.fields@[i].descriptor_index) by {
        assert(v.fields[i] == cf.fields@[i]@);
        assert(valid_cp_index(cf.constant_pool@.len() as int, v.fields[i].name_index));
    }
}

proof fn lemma_field_list_valid(s: Seq<u8>, p: int, cp: Seq<ConstantValueV>, n: int)
    ensures
        spec_field_list(s, p, cp, n) matches Ok((fs, _)) ==> fields_valid(fs, cp.len() as int),
    decreases n,
{
    if n <= 0 {
        assert(spec_field_list(s, p, cp, n) == Ok::<(Seq<FieldV>, int), ParseErrorV>((Seq::empty(), p)));
    } else {
        if let Ok((f, q)) = spec_field(s, p, cp) {
            lemma_field_valid(s, p, cp);
            assert(spec_field_list(s, p, cp, n) == prepend(seq![f], spec_field_list(s, q, cp, n - 1)));
            lemma_field_list_valid(s, q, cp, n - 1);
            if let Ok((rest, r)) = spec_field_list(s, q, cp, n - 1) {
                let fs = seq![f] + rest;
                assert(spec_field_list(s, p, cp, n) == Ok::<(Seq<_>, int), ParseErrorV>((fs, r)));
                assert(fs[0] == f);
                assert forall|k: int| 0 <= k < fs.len() implies valid_cp_index(
                    cp.len() as int,
                    #[trigger] fs[k].name_index,
                ) && valid_cp_index(cp.len() as int, fs[k].descriptor_index) by {
                    if k >= 1 {
                        assert(fs[k] == rest[k - 1]);
                    }
                }
            }
        }
    }
}

proof fn lemma_method_list_valid(s: Seq<u8>, p: int, cp: Seq<ConstantValueV>, n: int)
    ensures
        spec_method_list(s, p, cp, n) matches Ok((ms, _)) ==> methods_valid(ms, cp.len() as int),
    decreases n,
{
    if n <= 0 {
        assert(spec_method_list(s, p, cp, n) == Ok::<(Seq<MethodV>, int), ParseErrorV>((Seq::empty(), p)));
    } else {
        if let Ok((m, q)) = spec_method(s, p, cp) {
            lemma_method_valid(s, p, cp);
            assert(spec_method_list(s, p, cp, n) == prepend(seq![m], spec_method_list(s, q, cp, n - 1)));
            lemma_method_list_valid(s, q, cp, n - 1);
            if let Ok((rest, r)) = spec_method_list(s, q, cp, n - 1) {
                let ms = seq![m] + rest;
                assert(spec_method_list(s, p, cp, n) == Ok::<(Seq<_>, int), ParseErrorV>((ms, r)));
                assert(ms[0] == m);
                assert forall|k: int| 0 <= k < ms.len() implies valid_cp_index(
                    cp.len() as int,
                    #[trigger] ms[k].name_index,
                ) && valid_cp_index(cp.len() as int, ms[k].descriptor_index) by {
                    if k >= 1 {
                        assert(ms[k] == rest[k - 1]);
                    }
                }
            }
        }
    }
}

/// Every class file that the parser accepts is well formed: its constant pool
/// entries, class, super class, field and method indices point into the pool.
pub proof fn lemma_parsed_class_file_wf(bytes: Seq<u8>)
    ensures
        spec_parse_from_bytes(bytes) matches Ok(v) ==> class_file_view_wf(v),
{
    if bytes.len() > 0 {
        if let Ok((magic, p1)) = spec_u32(bytes, 0) {
            if let Ok((minor, p2)) = spec_u16(bytes, p1) {
                if let Ok((major, p3)) = spec_u16(bytes, p2) {
                    lemma_constant_pool_wf(bytes, p3);
                    if let Ok((cp, p4)) = spec_constant_pool(bytes, p3) {
                        lemma_class_body_wf(bytes, p4, ClassFileVersion { major, minor }, cp);
                    }
                }
            }
        }
    }
}

proof fn lemma_class_body_wf(s: Seq<u8>, p: int, version: ClassFileVersion, cp: Seq<ConstantValueV>)
    requires
        cp_wf(cp),
    ensures
        spec_class_body(s, p, version, cp) matches Ok(v) ==> class_file_view_wf(v),
{
    if let Ok((flags, p1)) = spec_u16(s, p) {
        if let Ok((this_class, p2)) = spec_index(s, p1, cp.len() as int) {
            if let Ok((super_class, p3)) = spec_super_class(s, p2, cp.len() as int) {
                if let Ok((interfaces, p4)) = spec_interfaces(s, p3, cp.len() as int) {
                    if let Ok((n, q)) = spec_u16(s, p4) {
                        lemma_field_list_valid(s, q, cp, n as int);
                    }
                    if let Ok((fields, p5)) = spec_fields(s, p4, cp) {
                        if let Ok((n, q)) = spec_u16(s, p5) {
                            lemma_method_list_valid(s, q, cp, n as int);
                        }
                    }
                }
            }
        }
    }
}

/// Every index that a list of constant pool indices holds lies in the pool.
proof fn lemma_index_list_valid(s: Seq<u8>, p: int, cp_size: int, n: int)
    ensures
        spec_index_list(s, p, cp_size, n) matches Ok((v, _)) ==> forall|k: int|
            0 <= k < v.len() ==> 0 < #[trigger] v[k] < cp_size,
    decreases n,
{
    if n > 0 {
        if let Ok((i, q)) = spec_index(s, p, cp_size) {
            lemma_index_list_valid(s, q, cp_size, n - 1);
            if let Ok((rest, _)) = spec_index_list(s, q, cp_size, n - 1) {
                let v = seq![i] + rest;
                assert forall|k: int| 0 <= k < v.len() implies 0 < #[trigger] v[k] < cp_size by {
                    if k > 0 {
                        assert(v[k] == rest[k - 1]);
                    }
                }
            }
        }
    }
}

/// A class file that the parser accepts has class access flags that are a
/// valid combination, and each interface it names is an index into its
/// constant pool.
pub proof fn lemma_parsed_class_file_checked(bytes: Seq<u8>)
    ensures
        spec_parse_from_bytes(bytes) matches Ok(v) ==> {
            &&& class_flags_valid(v.access_flags)
            &&& forall|k: int|
                0 <= k < v.interfaces.len() ==> valid_cp_index(v.constant_pool.len() as int, #[trigger] v.interfaces[k])
        },
{
    if bytes.len() > 0 {
        if let Ok((magic, p1)) = spec_u32(bytes, 0) {
            if let Ok((minor, p2)) = spec_u16(bytes, p1) {
                if let Ok((major, p3)) = spec_u16(bytes, p2) {
                    if let Ok((cp, p4)) = spec_constant_pool(bytes, p3) {
                        if let Ok((flags, q1)) = spec_u16(bytes, p4) {
                            if let Ok((this_class, q2)) = spec_index(bytes, q1, cp.len() as int) {
                                if let Ok((super_class, q3)) = spec_super_class(bytes, q2, cp.len() as int) {
                                    if let Ok((n, q4)) = spec_u16(bytes, q3) {
                                        lemma_index_list_valid(bytes, q4, cp.len() as int, n as int);
                                    }
                                }
                            }
                        }
                    }
                }
            }
        }
    }
}

/// Every attribute of `attrs` that the parser does not know by name names a
/// UTF-8 constant of `cp`.
pub open spec fn attributes_named(attrs: Seq<AttributeV>, cp: Seq<ConstantValueV>) -> bool {
    forall|k: int|
        0 <= k < attrs.len() ==> (#[trigger] attrs[k] matches AttributeV::Unknown { name_index, .. } ==> cp_utf8(
            cp,
            name_index as int,
        ) is Some)
}

/// The fields that the parser reads passed their flag check, and their
/// attributes are named.
pub open spec fn fields_checked(fs: Seq<FieldV>, cp: Seq<ConstantValueV>) -> bool {
    forall|k: int|
        0 <= k < fs.len() ==> field_flags_valid(#[trigger] fs[k].access_flags) && attributes_named(
            fs[k].attributes,
            cp,
        )
}

/// The methods that the parser reads passed their flag check, and their
/// attributes are named.
pub open spec fn methods_checked(ms: Seq<MethodV>, cp: Seq<ConstantValueV>) -> bool {
    forall|k: int|
        0 <= k < ms.len() ==> method_flags_valid(#[trigger] ms[k].access_flags) && attributes_named(
            ms[k].attributes,
            cp,
        )
}

proof fn lemma_attribute_list_named(s: Seq<u8>, p: int, cp: Seq<ConstantValueV>, n: int)
    ensures
        spec_attribute_list(s, p, cp, n) matches Ok((attrs, _)) ==> attributes_named(attrs, cp),
    decreases n,
{
    if n > 0 {
        if let Ok((name_index, q)) = spec_index(s, p, cp.len() as int) {
            if let Ok((a, r)) = spec_attribute(s, q, cp, name_index) {
                if p < r <= s.len() {
                    lemma_attribute_list_named(s, r, cp, n - 1);
                    if let Ok((rest, _)) = spec_attribute_list(s, r, cp, n - 1) {
                        let attrs = seq![a] + rest;
                        assert forall|k: int| 0 <= k < attrs.len() implies (#[trigger] attrs[k] matches AttributeV::Unknown {
                            name_index: ni,
                            ..
                        } ==> cp_utf8(cp, ni as int) is Some) by {
                            if k > 0 {
                                assert(attrs[k] == rest[k - 1]);
                            }
                        }
                    }
                }
            }
        }
    }
}

proof fn lemma_field_list_checked(s: Seq<u8>, p: int, cp: Seq<ConstantValueV>, n: int)
    ensures
        spec_field_list(s, p, cp, n) matches Ok((fs, _)) ==> fields_checked(fs, cp),
    decreases n,
{
    if n > 0 {
        if let Ok((f, q)) = spec_field(s, p, cp) {
            if let Ok((flags, p1)) = spec_u16(s, p) {
                if let Ok(((a, b), p2)) = spec_index_pair(s, p1, cp.len() as int) {
                    if let Ok((m, q2)) = spec_u16(s, p2) {
                        lemma_attribute_list_named(s, q2, cp, m as int);
                    }
                }
            }
            lemma_field_list_checked(s, q, cp, n - 1);
            if let Ok((rest, _)) = spec_field_list(s, q, cp, n - 1) {
                let fs = seq![f] + rest;
                assert forall|k: int| 0 <= k < fs.len() implies field_flags_valid(#[trigger] fs[k].access_flags)
                    && attributes_named(fs[k].attributes, cp) by {
                    if k > 0 {
                        assert(fs[k] == rest[k - 1]);
                    }
                }
            }
        }
    }
}

proof fn lemma_method_list_checked(s: Seq<u8>, p: int, cp: Seq<ConstantValueV>, n: int)
    ensures
        spec_method_list(s, p, cp, n) matches Ok((ms, _)) ==> methods_checked(ms, cp),
    decreases n,
{
    if n > 0 {
        if let Ok((m, q)) = spec_method(s, p, cp) {
            if let Ok((flags, p1)) = spec_u16(s, p) {
                if let Ok(((a, b), p2)) = spec_index_pair(s, p1, cp.len() as int) {
                    if let Ok((c, q2)) = spec_u16(s, p2) {
                        lemma_attribute_list_named(s, q2, cp, c as int);
                    }
                }
            }
            lemma_method_list_checked(s, q, cp, n - 1);
            if let Ok((rest, _)) = spec_method_list(s, q, cp, n - 1) {
                let ms = seq![m] + rest;
                assert forall|k: int| 0 <= k < ms.len() implies method_flags_valid(#[trigger] ms[k].access_flags)
                    && attributes_named(ms[k].attributes, cp) by {
                    if k > 0 {
                        assert(ms[k] == rest[k - 1]);
                    }
                }
            }
        }
    }
}

/// What the parser accepts: a class file whose constant pool has as many
/// entries as the count at bytes 8 and 9 says, which is above 0; whose class,
/// super class, interface, field and method indices point into the pool;
/// whose class, field and method access flags passed their checks; whose
/// attributes not known by name name a UTF-8 constant; and whose attribute
/// table, the last part, ends with the last byte, so that every byte was
/// read.
pub proof fn lemma_parse_law(bytes: Seq<u8>)
    ensures
        spec_parse_from_bytes(bytes) matches Ok(v) ==> {
            &&& spec_u16(bytes, 8) matches Ok((n, _)) && n > 0 && v.constant_pool.len() == n
            &&& class_file_view_wf(v)
            &&& forall|k: int|
                0 <= k < v.interfaces.len() ==> valid_cp_index(v.constant_pool.len() as int, #[trigger] v.interfaces[k])
            &&& class_flags_valid(v.access_flags)
            &&& fields_checked(v.fields, v.constant_pool)
            &&& methods_checked(v.methods, v.constant_pool)
            &&& attributes_named(v.attributes, v.constant_pool)
            &&& exists|p: int|
                spec_attributes(bytes, p, v.constant_pool) == Ok::<(Seq<AttributeV>, int), ParseErrorV>(
                    (v.attributes, bytes.len() as int),
                )
        },
{
    lemma_parsed_class_file_wf(bytes);
    lemma_parsed_class_file_checked(bytes);
    if bytes.len() > 0 {
        if let Ok((magic, p1)) = spec_u32(bytes, 0) {
            if let Ok((minor, p2)) = spec_u16(bytes, p1) {
                if let Ok((major, p3)) = spec_u16(bytes, p2) {
                    if let Ok((cp, p4)) = spec_constant_pool(bytes, p3) {
                        if let Ok((flags, q1)) = spec_u16(bytes, p4) {
                            if let Ok((this_class, q2)) = spec_index(bytes, q1, cp.len() as int) {
                                if let Ok((super_class, q3)) = spec_super_class(bytes, q2, cp.len() as int) {
                                    if let Ok((interfaces, q4)) = spec_interfaces(bytes, q3, cp.len() as int) {
                                        if let Ok((n, r)) = spec_u16(bytes, q4) {
                                            lemma_field_list_checked(bytes, r, cp, n as int);
                                        }
                                        if let Ok((fields, q5)) = spec_fields(bytes, q4, cp) {
                                            if let Ok((n, r)) = spec_u16(bytes, q5) {
                                                lemma_method_list_checked(bytes, r, cp, n as int);
                                            }
                                            if let Ok((methods, q6)) = spec_methods(bytes, q5, cp) {
                                                if let Ok((n, r)) = spec_u16(bytes, q6) {
                                                    lemma_attribute_list_named(bytes, r, cp, n as int);
                                                }
                                                if let Ok((attributes, q7)) = spec_attributes(bytes, q6, cp) {
                                                    assert(spec_attributes(bytes, q6, cp) matches Ok((_, e)) && e
                                                        == q7);
                                                }
                                            }
                                        }
                                    }
                                }
                            }
                        }
                    }
                }
            }
        }
    }
}

/// Each entry of a parsed exception table is four two-byte numbers read one
/// after the other from its 8-byte record: `start_pc` first, then `end_pc`,
/// `handler_pc` and `catch_type`.
pub proof fn lemma_exception_entries_in_order(s: Seq<u8>, p: int, n: int)
    ensures
        spec_exception_table(s, p, n) matches Ok((es, end)) ==> {
            &&& es.len() == n
            &&& end == p + 8 * n
            &&& forall|k: int|
                0 <= k < n ==> {
                    let q = p + 8 * k;
                    &&& spec_u16(s, q) == Ok::<(u16, int), ParseErrorV>((#[trigger] es[k].start_pc, q + 2))
                    &&& spec_u16(s, q + 2) == Ok::<(u16, int), ParseErrorV>((es[k].end_pc, q + 4))
                    &&& spec_u16(s, q + 4) == Ok::<(u16, int), ParseErrorV>((es[k].handler_pc, q + 6))
                    &&& spec_u16(s, q + 6) == Ok::<(u16, int), ParseErrorV>((es[k].catch_type, q + 8))
                }
        },
{
    if let Ok((es, end)) = spec_exception_table(s, p, n) {
        assert forall|k: int| 0 <= k < n implies {
            let q = p + 8 * k;
            &&& spec_u16(s, q) == Ok::<(u16, int), ParseErrorV>((#[trigger] es[k].start_pc, q + 2))
            &&& spec_u16(s, q + 2) == Ok::<(u16, int), ParseErrorV>((es[k].end_pc, q + 4))
            &&& spec_u16(s, q + 4) == Ok::<(u16, int), ParseErrorV>((es[k].handler_pc, q + 6))
            &&& spec_u16(s, q + 6) == Ok::<(u16, int), ParseErrorV>((es[k].catch_type, q + 8))
        } by {
            assert(0 <= 8 * k);
            assert(8 * k + 8 <= 8 * n) by (nonlinear_arith)
                requires
                    0 <= k < n,
            ;
        }
    }
}

/// Parses a class file from its bytes, with the outcome that
/// `spec_parse_from_bytes` describes. A constant pool whose last entry is an
/// 8-byte constant running one slot past the declared size is left out.
pub fn parse_from_bytes(bytes: Vec<u8>) -> (res: Result<ClassFile, ClassParserError>)
    requires
        spec_parse_from_bytes(bytes@) != Err::<ClassFileV, ParseErrorV>(ParseErrorV::PoolOverrun),
    ensures
        match res {
            Ok(cf) => spec_parse_from_bytes(bytes@) == Ok::<ClassFileV, ParseErrorV>(cf@)
                && cf.wf(),
            Err(e) => spec_parse_from_bytes(bytes@) == Err::<ClassFileV, ParseErrorV>(e@),
        },
{
    match try_parse_from_bytes(bytes) {
        Some(res) => res,
        None => vstd::pervasive::unreached(),
    }
}

/// Parses a class file from its bytes; `None` exactly for a constant pool whose
/// last entry is an 8-byte constant running one slot past the declared size.
pub fn try_parse_from_bytes(bytes: Vec<u8>) -> (res: Option<Result<ClassFile, ClassParserError>>)
    ensures
        match res {
            Some(Ok(cf)) => spec_parse_from_bytes(bytes@) == Ok::<ClassFileV, ParseErrorV>(cf@)
                && cf.wf(),
            Some(Err(e)) => spec_parse_from_bytes(bytes@) == Err::<ClassFileV, ParseErrorV>(e@),
            None => spec_parse_from_bytes(bytes@) == Err::<ClassFileV, ParseErrorV>(
                ParseErrorV::PoolOverrun,
            ),
        },
{
    if bytes.len() == 0 {
        return Some(Err(ClassParserError::EmptyFile));
    }
    let ghost b = bytes@;
    let mut parser = ClassParser::new(bytes);
    match parser.parse_class_file() {
        Ok(cf) => {
            proof {
                lemma_parsed_class_file_wf(b);
                lemma_view_wf(&cf);
            }
            Some(Ok(cf))
        },
        Err(Some(e)) => Some(Err(e)),
        Err(None) => None,
    }
}

/// Decodes `bytes` with `String::from_utf8`. Claimed of it: it succeeds
/// exactly on valid UTF-8 (as vstd's `valid_utf8` states it) and then holds
/// the decoded characters; on failure the description of its error is a
/// function of the bytes alone.
#[verifier::external_body]
fn string_from_utf8(bytes: Vec<u8>) -> (res: Result<String, String>)
    ensures
        res is Ok <==> valid_utf8(bytes@),
        res matches Ok(s) ==> s@ == decode_utf8(bytes@),
        res matches Err(m) ==> m@ == utf8_error_description(bytes@),
{
    match String::from_utf8(bytes) {
        Ok(s) => Ok(s),
        Err(e) => Err(e.to_string()),
    }
}


/// `res` is what `sp` describes: the value read (seen through `view`) with the
/// final position `end`, or the same error.
pub open spec fn outcome<T, V>(
    res: Result<T, ClassParserError>,
    end: int,
    sp: PResult<V>,
    view: spec_fn(T) -> V,
) -> bool {
    match res {
        Ok(v) => sp == Ok::<(V, int), ParseErrorV>((view(v), end)),
        Err(e) => sp == Err::<(V, int), ParseErrorV>(e@),
    }
}

pub proof fn lemma_prepend_assoc<T>(a: Seq<T>, b: Seq<T>, r: PResult<Seq<T>>)
    ensures
        prepend(a, prepend(b, r)) == prepend(a + b, r),
{
    match r {
        Ok((v, q)) => {
            assert(a + (b + v) =~= (a + b) + v);
        },
        Err(e) => {},
    }
}

pub proof fn lemma_prepend_empty<T>(r: PResult<Seq<T>>)
    ensures
        prepend(Seq::<T>::empty(), r) == r,
{
    match r {
        Ok((v, q)) => {
            assert(Seq::<T>::empty() + v =~= v);
        },
        Err(e) => {},
    }
}

pub proof fn lemma_prepend_empty_result<T>(acc: Seq<T>, q: int)
    ensures
        prepend(acc, Ok((Seq::<T>::empty(), q))) == Ok::<(Seq<T>, int), ParseErrorV>((acc, q)),
{
    assert(acc + Seq::<T>::empty() =~= acc);
}

proof fn lemma_be_u16(h: u8, l: u8)
    ensures
        ((h as u16) << 8u16) | (l as u16) == be_u16(h, l),
{
    assert(((h as u16) << 8u16) | (l as u16) == (h as u16) * 256 + (l as u16)) by (bit_vector);
}

proof fn lemma_be_u32(h: u16, l: u16)
    ensures
        ((h as u32) << 16u32) | (l as u32) == be_u32(h, l),
{
    assert(((h as u32) << 16u32) | (l as u32) == (h as u32) * 65536 + (l as u32)) by (bit_vector);
}

proof fn lemma_be_u64(h: u32, l: u32)
    ensures
        ((h as u64) << 32u64) | (l as u64) == be_u64(h, l),
{
    assert(((h as u64) << 32u64) | (l as u64) == (h as u64) * 0x1_0000_0000 + (l as u64))
        by (bit_vector);
}

/// A cursor over the bytes of a class file.
struct ClassParser {
    bytes: Vec<u8>,
    index: usize,
}

impl ClassParser {
    spec fn inv(&self) -> bool {
        self.index <= self.bytes@.len() <= usize::MAX
    }

    fn new(bytes: Vec<u8>) -> (res: Self)
        ensures
            res.bytes@ == bytes@,
            res.index == 0,
            res.inv(),
    {
        let _length = bytes.len();
        Self { bytes, index: 0 }
    }

    fn check_left(&self, bytes_to_check: usize) -> (res: bool)
        requires
            self.inv(),
        ensures
            res == (self.index + bytes_to_check <= self.bytes@.len()),
    {
        bytes_to_check <= self.bytes.len() - self.index
    }

    fn read_u8(&mut self) -> (res: u8)
        requires
            old(self).inv(),
            old(self).index + 1 <= old(self).bytes@.len(),
        ensures
            final(self).inv(),
            final(self).bytes@ == old(self).bytes@,
            final(self).index == old(self).index + 1,
            res == old(self).bytes@[old(self).index as int],
    {
        let value = self.bytes[self.index];
        self.index += 1;
        value
    }

    fn read_u16(&mut self) -> (res: u16)
        requires
            old(self).inv(),
            old(self).index + 2 <= old(self).bytes@.len(),
        ensures
            final(self).inv(),
            final(self).bytes@ == old(self).bytes@,
            final(self).index == old(self).index + 2,
            res == be_u16(
                old(self).bytes@[old(self).index as int],
                old(self).bytes@[old(self).index + 1],
            ),
    {
        let high_bits = self.read_u8();
        let low_bits = self.read_u8();
        proof {
            lemma_be_u16(high_bits, low_bits);
        }
        ((high_bits as u16) << 8u16) | (low_bits as u16)
    }

    fn read_u32(&mut self) -> (res: u32)
        requires
            old(self).inv(),
            old(self).index + 4 <= old(self).bytes@.len(),
        ensures
            final(self).inv(),
            final(self).bytes@ == old(self).bytes@,
            final(self).index == old(self).index + 4,
            spec_u32(old(self).bytes@, old(self).index as int) == Ok::<_, ParseErrorV>(
                (res, old(self).index + 4),
            ),
    {
        let high_bits = self.read_u16();
        let low_bits = self.read_u16();
        proof {
            lemma_be_u32(high_bits, low_bits);
        }
        ((high_bits as u32) << 16u32) | (low_bits as u32)
    }

    fn read_u64(&mut self) -> (res: u64)
        requires
            old(self).inv(),
            old(self).index + 8 <= old(self).bytes@.len(),
        ensures
            final(self).inv(),
            final(self).bytes@ == old(self).bytes@,
            final(self).index == old(self).index + 8,
            spec_u64(old(self).bytes@, old(self).index as int) == Ok::<_, ParseErrorV>(
                (res, old(self).index + 8),
            ),
    {
        let high_bits = self.read_u32();
        let low_bits = self.read_u32();
        proof {
            lemma_be_u64(high_bits, low_bits);
        }
        ((high_bits as u64) << 32u64) | (low_bits as u64)
    }

    fn parse_u8(&mut self) -> (res: Result<u8, ClassParserError>)
        requires
            old(self).inv(),
        ensures
            final(self).bytes@ == old(self).bytes@,
            final(self).inv(),
            final(self).index >= old(self).index,
            outcome(
                res,
                final(self).index as int,
                spec_u8(old(self).bytes@, old(self).index as int),
                |v: u8| v,
            ),
    {
        if self.check_left(1) {
            Ok(self.read_u8())
        } else {
            Err(ClassParserError::UnexpectedEndOfFile)
        }
    }

    fn parse_u16(&mut self) -> (res: Result<u16, ClassParserError>)
        requires
            old(self).inv(),
        ensures
            final(self).bytes@ == old(self).bytes@,
            final(self).inv(),
            final(self).index >= old(self).index,
            outcome(
                res,
                final(self).index as int,
                spec_u16(old(self).bytes@, old(self).index as int),
                |v: u16| v,
            ),
            res is Err ==> final(self).index == old(self).index,
    {
        if self.check_left(2) {
            Ok(self.read_u16())
        } else {
            Err(ClassParserError::UnexpectedEndOfFile)
        }
    }

    fn parse_u32(&mut self) -> (res: Result<u32, ClassParserError>)
        requires
            old(self).inv(),
        ensures
            final(self).bytes@ == old(self).bytes@,
            final(self).inv(),
            final(self).index >= old(self).index,
            outcome(
                res,
                final(self).index as int,
                spec_u32(old(self).bytes@, old(self).index as int),
                |v: u32| v,
            ),
    {
        if self.check_left(4) {
            Ok(self.read_u32())
        } else {
            Err(ClassParserError::UnexpectedEndOfFile)
        }
    }

    fn parse_u64(&mut self) -> (res: Result<u64, ClassParserError>)
        requires
            old(self).inv(),
        ensures
            final(self).bytes@ == old(self).bytes@,
            final(self).inv(),
            final(self).index >= old(self).index,
            outcome(
                res,
                final(self).index as int,
                spec_u64(old(self).bytes@, old(self).index as int),
                |v: u64| v,
            ),
    {
        if self.check_left(8) {
            Ok(self.read_u64())
        } else {
            Err(ClassParserError::UnexpectedEndOfFile)
        }
    }

    fn parse_byte_array(&mut self, size: usize) -> (res: Result<Vec<u8>, ClassParserError>)
        requires
            old(self).inv(),
        ensures
            final(self).bytes@ == old(self).bytes@,
            final(self).inv(),
            final(self).index >= old(self).index,
            outcome(
                res,
                final(self).index as int,
                spec_bytes(old(self).bytes@, old(self).index as int, size as int),
                |v: Vec<u8>| v@,
            ),
            res is Err ==> final(self).index == old(self).index,
    {
        if self.check_left(size) {
            let end_index = self.index + size;
            let bytes = vstd::slice::slice_to_vec(
                vstd::slice::slice_subrange(self.bytes.as_slice(), self.index, end_index),
            );
            self.index = end_index;
            Ok(bytes)
        } else {
            Err(ClassParserError::UnexpectedEndOfFile)
        }
    }

    fn parse_index(&mut self, constant_pool_size: usize) -> (res: Result<usize, ClassParserError>)
        requires
            old(self).inv(),
        ensures
            final(self).bytes@ == old(self).bytes@,
            final(self).inv(),
            final(self).index >= old(self).index,
            outcome(
                res,
                final(self).index as int,
                spec_index(old(self).bytes@, old(self).index as int, constant_pool_size as int),
                |v: usize| v,
            ),
            res is Err ==> final(self).index == if old(self).index + 2 <= old(self).bytes@.len() {
                old(self).index + 2
            } else {
                old(self).index as int
            },
    {
        let read_index = self.parse_u16()? as usize;
        if read_index != 0 && read_index < constant_pool_size {
            Ok(read_index)
        } else {
            Err(ClassParserError::InvalidConstantPoolIndex)
        }
    }

    fn parse_index_pair(&mut self, constant_pool_size: usize) -> (res: Result<
        (usize, usize),
        ClassParserError,
    >)
        requires
            old(self).inv(),
        ensures
            final(self).bytes@ == old(self).bytes@,
            final(self).inv(),
            final(self).index >= old(self).index,
            outcome(
                res,
                final(self).index as int,
                spec_index_pair(
                    old(self).bytes@,
                    old(self).index as int,
                    constant_pool_size as int,
                ),
                |v: (usize, usize)| v,
            ),
    {
        let first = self.parse_index(constant_pool_size)?;
        let second = self.parse_index(constant_pool_size)?;
        Ok((first, second))
    }

    fn parse_utf8_constant(&mut self) -> (res: Result<ConstantValue, ClassParserError>)
        requires
            old(self).inv(),
        ensures
            final(self).bytes@ == old(self).bytes@,
            final(self).inv(),
            final(self).index >= old(self).index,
            outcome(
                res,
                final(self).index as int,
                spec_utf8_constant(old(self).bytes@, old(self).index as int),
                |v: ConstantValue| v@,
            ),
    {
        let size = self.parse_u16()? as usize;
        let bytes = self.parse_byte_array(size)?;
        match string_from_utf8(bytes) {
            Ok(string) => Ok(ConstantValue::Utf8(string)),
            Err(description) => Err(ClassParserError::InvalidUtf8String(description)),
        }
    }

    /// The constant that follows `tag`.
    fn parse_constant_value(&mut self, tag: u8, constant_pool_size: usize) -> (res: Result<
        ConstantValue,
        ClassParserError,
    >)
        requires
            old(self).inv(),
        ensures
            final(self).bytes@ == old(self).bytes@,
            final(self).inv(),
            final(self).index >= old(self).index,
            outcome(
                res,
                final(self).index as int,
                spec_constant_value(
                    old(self).bytes@,
                    old(self).index as int,
                    tag,
                    constant_pool_size as int,
                ),
                |v: ConstantValue| v@,
            ),
    {
        if tag == UTF8_TAG {
            self.parse_utf8_constant()
        } else if tag == INTEGER_TAG {
            let int_bytes = self.parse_u32()?;
            Ok(ConstantValue::Int(int_bytes as i32))
        } else if tag == FLOAT_TAG {
            let float_bytes = self.parse_u32()?;
            Ok(ConstantValue::Float(float_bytes))
        } else if tag == LONG_TAG {
            let long_bytes = self.parse_u64()?;
            Ok(ConstantValue::Long(long_bytes as i64))
        } else if tag == DOUBLE_TAG {
            let double_bytes = self.parse_u64()?;
            Ok(ConstantValue::Double(double_bytes))
        } else if tag == CLASS_TAG {
            let index = self.parse_index(constant_pool_size)?;
            Ok(ConstantValue::Class { name_index: index })
        } else if tag == STRING_TAG {
            let index = self.parse_index(constant_pool_size)?;
            Ok(ConstantValue::String { utf8_index: index })
        } else if tag == FIELDREF_TAG {
            let (class_index, name_and_type_index) = self.parse_index_pair(constant_pool_size)?;
            Ok(ConstantValue::FieldRef { class_index, name_and_type_index })
        } else if tag == METHODREF_TAG {
            let (class_index, name_and_type_index) = self.parse_index_pair(constant_pool_size)?;
            Ok(ConstantValue::MethodRef { class_index, name_and_type_index })
        } else if tag == INTERFACE_METHODREF_TAG {
            let (class_index, name_and_type_index) = self.parse_index_pair(constant_pool_size)?;
            Ok(ConstantValue::InterfaceMethodRef { class_index, name_and_type_index })
        } else if tag == NAME_AND_TYPE_TAG {
            let (name_index, descriptor_index) = self.parse_index_pair(constant_pool_size)?;
            Ok(ConstantValue::NameAndType { name_index, descriptor_index })
        } else if tag == METHOD_HANDLE_TAG {
            let reference_kind = self.parse_u8()?;
            if !(1 <= reference_kind && reference_kind <= 9) {
                return Err(ClassParserError::InvalidReferenceKind);
            }
            let reference_index = self.parse_index(constant_pool_size)?;
            Ok(ConstantValue::MethodHandle { reference_kind, reference_index })
        } else if tag == METHOD_TYPE_TAG {
            let descriptor_index = self.parse_index(constant_pool_size)?;
            Ok(ConstantValue::MethodType { descriptor_index })
        } else if tag == INVOKE_DYNAMIC_TAG {
            let (bootstrap_method_attr_index, name_and_type_index) = self.parse_index_pair(
                constant_pool_size,
            )?;
            Ok(ConstantValue::InvokeDynamic { bootstrap_method_attr_index, name_and_type_index })
        } else {
            Err(ClassParserError::InvalidTag)
        }
    }

    /// The constant pool. `Err(None)` stands for a pool whose last entry is an
    /// 8-byte constant that runs past the declared size.
    fn parse_constant_pool(&mut self) -> (res: Result<ConstantPool, Option<ClassParserError>>)
        requires
            old(self).inv(),
        ensures
            final(self).bytes@ == old(self).bytes@,
            final(self).inv(),
            final(self).index >= old(self).index,
            match res {
                Ok(cp) => spec_constant_pool(old(self).bytes@, old(self).index as int) == Ok::<
                    (Seq<ConstantValueV>, int),
                    ParseErrorV,
                >((cp@, final(self).index as int)),
                Err(Some(e)) => spec_constant_pool(old(self).bytes@, old(self).index as int)
                    == Err::<(Seq<ConstantValueV>, int), ParseErrorV>(e@),
                Err(None) => spec_constant_pool(old(self).bytes@, old(self).index as int)
                    == Err::<(Seq<ConstantValueV>, int), ParseErrorV>(ParseErrorV::PoolOverrun),
            },
    {
        let ghost p0 = self.index as int;
        let constants_size = match self.parse_u16() {
            Ok(v) => v as usize,
            Err(e) => return Err(Some(e)),
        };
        if constants_size == 0 {
            return Err(Some(ClassParserError::InvalidConstantsPoolSize));
        }
        let ghost s = self.bytes@;
        let ghost start = self.index as int;
        let ghost whole = spec_pool_entries(s, start, constants_size as int, 1);
        let mut constants_pool_values: Vec<ConstantValue> = Vec::new();
        constants_pool_values.push(ConstantValue::Unusable);
        let mut constants_index: usize = 1;
        let ghost mut acc: Seq<ConstantValueV> = Seq::empty();
        proof {
            lemma_prepend_empty(whole);
        }
        while constants_index < constants_size
            invariant
                self.bytes@ == s,
                s == old(self).bytes@,
                p0 == old(self).index,
                self.inv(),
                self.index >= start,
                start >= p0,
                spec_u16(s, p0) == Ok::<(u16, int), ParseErrorV>((constants_size as u16, start)),
                0 < constants_size <= 0xffff,
                1 <= constants_index <= constants_size + 1,
                constants_pool_values@.len() == constants_index,
                acc.len() == constants_index - 1,
                constants_pool_values@[0]@ == ConstantValueV::Unusable,
                forall|k: int|
                    1 <= k < constants_index ==> #[trigger] constants_pool_values@[k]@ == acc[k - 1],
                whole == spec_pool_entries(s, start, constants_size as int, 1),
                whole == prepend(
                    acc,
                    spec_pool_entries(s, self.index as int, constants_size as int, constants_index as int),
                ),
            decreases constants_size + 1 - constants_index,
        {
            let ghost p = self.index as int;
            assert(spec_pool_entries(s, p, constants_size as int, constants_index as int) == match spec_u8(s, p) {
                Ok((tag, q)) => match spec_constant_value(s, q, tag, constants_size as int) {
                    Ok((c, r)) => if tag == DOUBLE_TAG || tag == LONG_TAG {
                        prepend(
                            seq![c, ConstantValueV::Unusable],
                            spec_pool_entries(s, r, constants_size as int, constants_index + 2),
                        )
                    } else {
                        prepend(seq![c], spec_pool_entries(s, r, constants_size as int, constants_index + 1))
                    },
                    Err(e) => Err(e),
                },
                Err(e) => Err(e),
            });
            let tag = match self.parse_u8() {
                Ok(t) => t,
                Err(e) => return Err(Some(e)),
            };
            let value = match self.parse_constant_value(tag, constants_size) {
                Ok(v) => v,
                Err(e) => return Err(Some(e)),
            };
            let ghost cv = value@;
            constants_pool_values.push(value);
            if tag == DOUBLE_TAG || tag == LONG_TAG {
                constants_pool_values.push(ConstantValue::Unusable);
                proof {
                    lemma_prepend_assoc(
                        acc,
                        seq![cv, ConstantValueV::Unusable],
                        spec_pool_entries(s, self.index as int, constants_size as int, constants_index + 2),
                    );
                    acc = acc + seq![cv, ConstantValueV::Unusable];
                }
                constants_index += 2;
            } else {
                proof {
                    lemma_prepend_assoc(
                        acc,
                        seq![cv],
                        spec_pool_entries(s, self.index as int, constants_size as int, constants_index + 1),
                    );
                    acc = acc + seq![cv];
                }
                constants_index += 1;
            }
        }
        proof {
            assert(spec_pool_entries(s, self.index as int, constants_size as int, constants_index as int)
                == Ok::<(Seq<ConstantValueV>, int), ParseErrorV>((Seq::empty(), self.index as int)));
            lemma_prepend_empty_result(acc, self.index as int);
            assert(constants_pool_values@.map_values(|c: ConstantValue| c@) =~= seq![
                ConstantValueV::Unusable,
            ] + acc);
        }
        if constants_size != constants_pool_values.len() {
            return Err(None);
        }
        Ok(ConstantPool::new(constants_pool_values))
    }

    fn parse_interfaces(&mut self, constant_pool_size: usize) -> (res: Result<
        Vec<usize>,
        ClassParserError,
    >)
        requires
            old(self).inv(),
        ensures
            final(self).bytes@ == old(self).bytes@,
            final(self).inv(),
            final(self).index >= old(self).index,
            outcome(
                res,
                final(self).index as int,
                spec_interfaces(old(self).bytes@, old(self).index as int, constant_pool_size as int),
                |v: Vec<usize>| v@,
            ),
    {
        let ghost p0 = self.index as int;
        let interfaces_size = self.parse_u16()? as usize;
        let ghost s = self.bytes@;
        let ghost start = self.index as int;
        let mut interfaces: Vec<usize> = Vec::new();
        let mut i: usize = 0;
        proof {
            lemma_prepend_empty(
                spec_index_list(s, self.index as int, constant_pool_size as int, interfaces_size as int),
            );
            assert(interfaces@ =~= Seq::<usize>::empty());
        }
        let ghost whole = spec_index_list(s, self.index as int, constant_pool_size as int, interfaces_size as int);
        while i < interfaces_size
            invariant
                self.bytes@ == s,
                self.inv(),
                self.index >= start,
                start >= p0,
                p0 == old(self).index,
                s == old(self).bytes@,
                i <= interfaces_size,
                whole == spec_interfaces(s, p0, constant_pool_size as int),
                whole == prepend(
                    interfaces@,
                    spec_index_list(
                        s,
                        self.index as int,
                        constant_pool_size as int,
                        (interfaces_size - i) as int,
                    ),
                ),
            decreases interfaces_size - i,
        {
            let ghost acc = interfaces@;
            let ghost p = self.index as int;
            assert(spec_index_list(s, p, constant_pool_size as int, (interfaces_size - i) as int)
                == match spec_index(s, p, constant_pool_size as int) {
                Ok((v, q)) => prepend(
                    seq![v],
                    spec_index_list(s, q, constant_pool_size as int, (interfaces_size - i - 1) as int),
                ),
                Err(e) => Err(e),
            });
            let interface_index = self.parse_index(constant_pool_size)?;
            proof {
                lemma_prepend_assoc(
                    acc,
                    seq![interface_index],
                    spec_index_list(
                        s,
                        self.index as int,
                        constant_pool_size as int,
                        (interfaces_size - i - 1) as int,
                    ),
                );
            }
            interfaces.push(interface_index);
            assert(interfaces@ =~= acc + seq![interface_index]);
            i += 1;
        }
        proof {
            assert(spec_index_list(s, self.index as int, constant_pool_size as int, 0)
                == Ok::<(Seq<usize>, int), ParseErrorV>((Seq::empty(), self.index as int)));
            lemma_prepend_empty_result(interfaces@, self.index as int);
        }
        Ok(interfaces)
    }

    fn parse_exception_table(&mut self, exception_table_length: usize) -> (res: Result<
        Vec<ExceptionTableEntry>,
        ClassParserError,
    >)
        requires
            old(self).inv(),
        ensures
            final(self).bytes@ == old(self).bytes@,
            final(self).inv(),
            final(self).index >= old(self).index,
            outcome(
                res,
                final(self).index as int,
                spec_exception_table(
                    old(self).bytes@,
                    old(self).index as int,
                    exception_table_length as int,
                ),
                |v: Vec<ExceptionTableEntry>| v@,
            ),
    {
        let ghost s = self.bytes@;
        let ghost p0 = self.index as int;
        let mut exception_table: Vec<ExceptionTableEntry> = Vec::new();
        let mut i: usize = 0;
        while i < exception_table_length
            invariant
                self.bytes@ == s,
                s == old(self).bytes@,
                p0 == old(self).index,
                self.inv(),
                i <= exception_table_length,
                self.index == p0 + 8 * i,
                exception_table@.len() == i,
                forall|k: int|
                    0 <= k < i ==> #[trigger] exception_table@[k] == exception_entry_at(s, p0 + 8 * k),
            decreases exception_table_length - i,
        {
            let start_pc = self.parse_u16()?;
            let end_pc = self.parse_u16()?;
            let handler_pc = self.parse_u16()?;
            let catch_type = self.parse_u16()?;
            let exception_table_entry = ExceptionTableEntry { start_pc, end_pc, handler_pc, catch_type };
            exception_table.push(exception_table_entry);
            i += 1;
        }
        proof {
            assert(exception_table@ =~= Seq::new(
                exception_table_length as nat,
                |k: int| exception_entry_at(s, p0 + 8 * k),
            ));
        }
        Ok(exception_table)
    }

    /// A count of attributes followed by the attributes.
    fn parse_attributes(&mut self, constant_pool: &ConstantPool) -> (res: Result<
        Vec<Attribute>,
        ClassParserError,
    >)
        requires
            old(self).inv(),
        ensures
            final(self).bytes@ == old(self).bytes@,
            final(self).inv(),
            final(self).index >= old(self).index,
            outcome(
                res,
                final(self).index as int,
                spec_attributes(old(self).bytes@, old(self).index as int, constant_pool@),
                |v: Vec<Attribute>| attributes_view(v@),
            ),
        decreases old(self).bytes@.len() - old(self).index, 2int,
    {
        let ghost s = self.bytes@;
        let ghost p0 = self.index as int;
        let ghost cp = constant_pool@;
        let attributes_count = self.parse_u16()? as usize;
        let ghost start = self.index as int;
        let ghost whole = spec_attribute_list(s, start, cp, attributes_count as int);
        let mut attributes: Vec<Attribute> = Vec::new();
        let mut i: usize = 0;
        proof {
            lemma_prepend_empty(whole);
            assert(attributes_view(attributes@) =~= Seq::<AttributeV>::empty());
        }
        while i < attributes_count
            invariant
                self.bytes@ == s,
                s == old(self).bytes@,
                p0 == old(self).index,
                cp == constant_pool@,
                self.inv(),
                self.index >= start,
                start == p0 + 2,
                i <= attributes_count,
                whole == spec_attributes(s, p0, cp),
                whole == prepend(
                    attributes_view(attributes@),
                    spec_attribute_list(s, self.index as int, cp, (attributes_count - i) as int),
                ),
            decreases attributes_count - i,
        {
            let ghost acc = attributes_view(attributes@);
            let ghost p = self.index as int;
            let attribute_name_index = self.parse_index(constant_pool.len())?;
            let attribute = self.parse_attribute(constant_pool, attribute_name_index)?;
            let ghost av = attribute_view(attribute);
            proof {
                lemma_prepend_assoc(
                    acc,
                    seq![av],
                    spec_attribute_list(s, self.index as int, cp, (attributes_count - i - 1) as int),
                );
                lemma_attributes_view_push(attributes@, attribute);
            }
            attributes.push(attribute);
            proof {
                assert(acc.push(av) =~= acc + seq![av]);
            }
            i += 1;
        }
        proof {
            lemma_prepend_empty_result(attributes_view(attributes@), self.index as int);
        }
        Ok(attributes)
    }

    /// An attribute after its name index.
    fn parse_attribute(&mut self, constant_pool: &ConstantPool, attribute_name_index: usize) -> (res:
        Result<Attribute, ClassParserError>)
        requires
            old(self).inv(),
            0 < attribute_name_index < constant_pool@.len(),
        ensures
            final(self).bytes@ == old(self).bytes@,
            final(self).inv(),
            final(self).index >= old(self).index,
            outcome(
                res,
                final(self).index as int,
                spec_attribute(
                    old(self).bytes@,
                    old(self).index as int,
                    constant_pool@,
                    attribute_name_index,
                ),
                |v: Attribute| attribute_view(v),
            ),
        decreases old(self).bytes@.len() - old(self).index, 1int,
    {
        let attribute_length = self.parse_u32()? as usize;
        let attribute_name = match constant_pool.get_utf8(attribute_name_index) {
            Some(name) => name,
            None => return Err(ClassParserError::ExpectedUtf8),
        };
        let start_index = self.index;
        proof {
            reveal_strlit("Code");
            reveal_strlit("ConstantValue");
            reveal_strlit("SourceFile");
            assert("Code"@ =~= code_name());
            assert("ConstantValue"@ =~= constant_value_name());
            assert("SourceFile"@ =~= source_file_name());
        }
        let attribute = if str_equal(attribute_name, "Code") {
            self.parse_bytecode_attribute(constant_pool)?
        } else if str_equal(attribute_name, "ConstantValue") {
            let value_index = self.parse_index(constant_pool.len())?;
            Attribute::ConstantValue { value_index }
        } else if str_equal(attribute_name, "SourceFile") {
            let sourcefile_index = self.parse_index(constant_pool.len())?;
            Attribute::SourceFile { sourcefile_index }
        } else {
            let info = self.parse_byte_array(attribute_length)?;
            Attribute::Unknown { name_index: attribute_name_index, info }
        };
        let read_bytes = self.index - start_index;
        Self::expect_attribute_length(attribute_length, read_bytes)?;
        Ok(attribute)
    }

    fn expect_attribute_length(expected: usize, actual: usize) -> (res: Result<(), ClassParserError>)
        ensures
            res is Ok <==> expected == actual,
            res matches Err(e) ==> e == ClassParserError::InvalidAttributeLength,
    {
        if expected == actual {
            Ok(())
        } else {
            Err(ClassParserError::InvalidAttributeLength)
        }
    }

    /// The body of a `Code` attribute.
    fn parse_bytecode_attribute(&mut self, constant_pool: &ConstantPool) -> (res: Result<
        Attribute,
        ClassParserError,
    >)
        requires
            old(self).inv(),
        ensures
            final(self).bytes@ == old(self).bytes@,
            final(self).inv(),
            final(self).index >= old(self).index,
            outcome(
                res,
                final(self).index as int,
                spec_code(old(self).bytes@, old(self).index as int, constant_pool@),
                |v: Attribute| attribute_view(v),
            ),
        decreases old(self).bytes@.len() - old(self).index, 0int,
    {
        let max_stack = self.parse_u16()?;
        let max_locals = self.parse_u16()?;
        let code_length = self.parse_u32()? as usize;
        let code = self.parse_byte_array(code_length)?;
        let exception_table_length = self.parse_u16()? as usize;
        let exception_table = self.parse_exception_table(exception_table_length)?;
        let attributes = self.parse_attributes(constant_pool)?;
        let bytecode = Bytecode { code, max_stack, max_locals, exception_table, attributes };
        Ok(Attribute::Code(bytecode))
    }

    fn parse_field_access_flags(&mut self) -> (res: Result<FieldAccessFlags, ClassParserError>)
        requires
            old(self).inv(),
        ensures
            final(self).bytes@ == old(self).bytes@,
            final(self).inv(),
            final(self).index >= old(self).index,
            outcome(
                res,
                final(self).index as int,
                match spec_u16(old(self).bytes@, old(self).index as int) {
                    Ok((flags, q)) => if !field_flags_valid(flags) {
                        Err(ParseErrorV::InvalidFieldAccessFlags)
                    } else {
                        Ok((flags, q))
                    },
                    Err(e) => Err(e),
                },
                |v: FieldAccessFlags| v@,
            ),
    {
        let raw_flags = self.parse_u16()?;
        if let Some(access_flags) = FieldAccessFlags::new(raw_flags) {
            Ok(access_flags)
        } else {
            Err(ClassParserError::InvalidFieldAccessFlags)
        }
    }

    fn parse_method_access_flags(&mut self) -> (res: Result<MethodAccessFlags, ClassParserError>)
        requires
            old(self).inv(),
        ensures
            final(self).bytes@ == old(self).bytes@,
            final(self).inv(),
            final(self).index >= old(self).index,
            outcome(
                res,
                final(self).index as int,
                match spec_u16(old(self).bytes@, old(self).index as int) {
                    Ok((flags, q)) => if !method_flags_valid(flags) {
                        Err(ParseErrorV::InvalidMethodAccessFlags)
                    } else {
                        Ok((flags, q))
                    },
                    Err(e) => Err(e),
                },
                |v: MethodAccessFlags| v@,
            ),
    {
        let raw_flags = self.parse_u16()?;
        if let Some(access_flags) = MethodAccessFlags::new(raw_flags) {
            Ok(access_flags)
        } else {
            Err(ClassParserError::InvalidMethodAccessFlags)
        }
    }

    fn parse_class_access_flags(&mut self) -> (res: Result<ClassAccessFlags, ClassParserError>)
        requires
            old(self).inv(),
        ensures
            final(self).bytes@ == old(self).bytes@,
            final(self).inv(),
            final(self).index >= old(self).index,
            outcome(
                res,
                final(self).index as int,
                match spec_u16(old(self).bytes@, old(self).index as int) {
                    Ok((flags, q)) => if !class_flags_valid(flags) {
                        Err(ParseErrorV::InvalidClassAccessFlags)
                    } else {
                        Ok((flags, q))
                    },
                    Err(e) => Err(e),
                },
                |v: ClassAccessFlags| v@,
            ),
    {
        let raw_flags = self.parse_u16()?;
        if let Some(access_flags) = ClassAccessFlags::new(raw_flags) {
            Ok(access_flags)
        } else {
            Err(ClassParserError::InvalidClassAccessFlags)
        }
    }

    fn parse_field(&mut self, constant_pool: &ConstantPool) -> (res: Result<Field, ClassParserError>)
        requires
            old(self).inv(),
        ensures
            final(self).bytes@ == old(self).bytes@,
            final(self).inv(),
            final(self).index >= old(self).index,
            outcome(
                res,
                final(self).index as int,
                spec_field(old(self).bytes@, old(self).index as int, constant_pool@),
                |v: Field| v@,
            ),
    {
        let access_flags = self.parse_field_access_flags()?;
        let name_index = self.parse_index(constant_pool.len())?;
        let descriptor_index = self.parse_index(constant_pool.len())?;
        let attributes = self.parse_attributes(constant_pool)?;
        Ok(Field { name_index, descriptor_index, access_flags, attributes })
    }

    fn parse_fields(&mut self, constant_pool: &ConstantPool) -> (res: Result<
        Vec<Field>,
        ClassParserError,
    >)
        requires
            old(self).inv(),
        ensures
            final(self).bytes@ == old(self).bytes@,
            final(self).inv(),
            final(self).index >= old(self).index,
            outcome(
                res,
                final(self).index as int,
                spec_fields(old(self).bytes@, old(self).index as int, constant_pool@),
                |v: Vec<Field>| v@.map_values(|f: Field| f@),
            ),
    {
        let ghost s = self.bytes@;
        let ghost p0 = self.index as int;
        let ghost cp = constant_pool@;
        let fields_count = self.parse_u16()? as usize;
        let ghost start = self.index as int;
        let ghost whole = spec_field_list(s, start, cp, fields_count as int);
        let mut fields: Vec<Field> = Vec::new();
        let mut i: usize = 0;
        proof {
            lemma_prepend_empty(whole);
            assert(fields@.map_values(|f: Field| f@) =~= Seq::<FieldV>::empty());
        }
        while i < fields_count
            invariant
                self.bytes@ == s,
                s == old(self).bytes@,
                p0 == old(self).index,
                cp == constant_pool@,
                self.inv(),
                self.index >= start,
                start == p0 + 2,
                i <= fields_count,
                whole == spec_fields(s, p0, cp),
                whole == prepend(
                    fields@.map_values(|f: Field| f@),
                    spec_field_list(s, self.index as int, cp, (fields_count - i) as int),
                ),
            decreases fields_count - i,
        {
            let ghost acc = fields@.map_values(|f: Field| f@);
            let field = self.parse_field(constant_pool)?;
            let ghost fv = field@;
            proof {
                lemma_prepend_assoc(
                    acc,
                    seq![fv],
                    spec_field_list(s, self.index as int, cp, (fields_count - i - 1) as int),
                );
            }
            fields.push(field);
            proof {
                assert(fields@.map_values(|f: Field| f@) =~= acc + seq![fv]);
            }
            i += 1;
        }
        proof {
            lemma_prepend_empty_result(fields@.map_values(|f: Field| f@), self.index as int);
        }
        Ok(fields)
    }

    fn parse_method(&mut self, constant_pool: &ConstantPool) -> (res: Result<Method, ClassParserError>)
        requires
            old(self).inv(),
        ensures
            final(self).bytes@ == old(self).bytes@,
            final(self).inv(),
            final(self).index >= old(self).index,
            outcome(
                res,
                final(self).index as int,
                spec_method(old(self).bytes@, old(self).index as int, constant_pool@),
                |v: Method| v@,
            ),
    {
        let access_flags = self.parse_method_access_flags()?;
        let name_index = self.parse_index(constant_pool.len())?;
        let descriptor_index = self.parse_index(constant_pool.len())?;
        let attributes = self.parse_attributes(constant_pool)?;
        Ok(Method { name_index, descriptor_index, access_flags, attributes })
    }

    fn parse_methods(&mut self, constant_pool: &ConstantPool) -> (res: Result<
        Vec<Method>,
        ClassParserError,
    >)
        requires
            old(self).inv(),
        ensures
            final(self).bytes@ == old(self).bytes@,
            final(self).inv(),
            final(self).index >= old(self).index,
            outcome(
                res,
                final(self).index as int,
                spec_methods(old(self).bytes@, old(self).index as int, constant_pool@),
                |v: Vec<Method>| v@.map_values(|m: Method| m@),
            ),
    {
        let ghost s = self.bytes@;
        let ghost p0 = self.index as int;
        let ghost cp = constant_pool@;
        let methods_count = self.parse_u16()? as usize;
        let ghost start = self.index as int;
        let ghost whole = spec_method_list(s, start, cp, methods_count as int);
        let mut methods: Vec<Method> = Vec::new();
        let mut i: usize = 0;
        proof {
            lemma_prepend_empty(whole);
            assert(methods@.map_values(|m: Method| m@) =~= Seq::<MethodV>::empty());
        }
        while i < methods_count
            invariant
                self.bytes@ == s,
                s == old(self).bytes@,
                p0 == old(self).index,
                cp == constant_pool@,
                self.inv(),
                self.index >= start,
                start == p0 + 2,
                i <= methods_count,
                whole == spec_methods(s, p0, cp),
                whole == prepend(
                    methods@.map_values(|m: Method| m@),
                    spec_method_list(s, self.index as int, cp, (methods_count - i) as int),
                ),
            decreases methods_count - i,
        {
            let ghost acc = methods@.map_values(|m: Method| m@);
            let method = self.parse_method(constant_pool)?;
            let ghost mv = method@;
            proof {
                lemma_prepend_assoc(
                    acc,
                    seq![mv],
                    spec_method_list(s, self.index as int, cp, (methods_count - i - 1) as int),
                );
            }
            methods.push(method);
            proof {
                assert(methods@.map_values(|m: Method| m@) =~= acc + seq![mv]);
            }
            i += 1;
        }
        proof {
            lemma_prepend_empty_result(methods@.map_values(|m: Method| m@), self.index as int);
        }
        Ok(methods)
    }

    fn validate_magic(&mut self) -> (res: Result<(), ClassParserError>)
        requires
            old(self).inv(),
        ensures
            final(self).bytes@ == old(self).bytes@,
            final(self).inv(),
            final(self).index >= old(self).index,
            outcome(
                res,
                final(self).index as int,
                match spec_u32(old(self).bytes@, old(self).index as int) {
                    Ok((magic, q)) => if magic != CLASS_FILE_MAGIC {
                        Err(ParseErrorV::InvalidMagicNumber)
                    } else {
                        Ok(((), q))
                    },
                    Err(e) => Err(e),
                },
                |v: ()| v,
            ),
    {
        let magic = self.parse_u32()?;
        if magic == CLASS_FILE_MAGIC {
            Ok(())
        } else {
            Err(ClassParserError::InvalidMagicNumber)
        }
    }

    /// (minor version, major version), in the order the format stores them.
    fn parse_versions(&mut self) -> (res: Result<(u16, u16), ClassParserError>)
        requires
            old(self).inv(),
        ensures
            final(self).bytes@ == old(self).bytes@,
            final(self).inv(),
            final(self).index >= old(self).index,
            outcome(
                res,
                final(self).index as int,
                match spec_u16(old(self).bytes@, old(self).index as int) {
                    Ok((minor, q)) => match spec_u16(old(self).bytes@, q) {
                        Ok((major, r)) => Ok(((minor, major), r)),
                        Err(e) => Err(e),
                    },
                    Err(e) => Err(e),
                },
                |v: (u16, u16)| v,
            ),
    {
        let minor = self.parse_u16()?;
        let major = self.parse_u16()?;
        Ok((minor, major))
    }

    /// The whole class file. `Err(None)` stands for a constant pool whose last
    /// entry runs past the declared size.
    fn parse_class_file(&mut self) -> (res: Result<ClassFile, Option<ClassParserError>>)
        requires
            old(self).inv(),
            old(self).index == 0,
        ensures
            match res {
                Ok(cf) => spec_class_file(old(self).bytes@) == Ok::<ClassFileV, ParseErrorV>(cf@),
                Err(Some(e)) => spec_class_file(old(self).bytes@) == Err::<ClassFileV, ParseErrorV>(
                    e@,
                ),
                Err(None) => spec_class_file(old(self).bytes@) == Err::<ClassFileV, ParseErrorV>(
                    ParseErrorV::PoolOverrun,
                ),
            },
    {
        match self.validate_magic() {
            Ok(()) => {},
            Err(e) => return Err(Some(e)),
        }
        let (minor, major) = match self.parse_versions() {
            Ok(v) => v,
            Err(e) => return Err(Some(e)),
        };
        let constant_pool = self.parse_constant_pool()?;
        let res = self.parse_class_body(ClassFileVersion { major, minor }, constant_pool);
        match res {
            Ok(cf) => Ok(cf),
            Err(e) => Err(Some(e)),
        }
    }

    /// The class file after its constant pool.
    fn parse_class_body(&mut self, version: ClassFileVersion, constant_pool: ConstantPool) -> (res:
        Result<ClassFile, ClassParserError>)
        requires
            old(self).inv(),
        ensures
            match res {
                Ok(cf) => spec_class_body(old(self).bytes@, old(self).index as int, version, constant_pool@)
                    == Ok::<ClassFileV, ParseErrorV>(cf@),
                Err(e) => spec_class_body(old(self).bytes@, old(self).index as int, version, constant_pool@)
                    == Err::<ClassFileV, ParseErrorV>(e@),
            },
    {
        let access_flags = self.parse_class_access_flags()?;
        let this_class = self.parse_index(constant_pool.len())?;
        let super_class = self.parse_super_class(constant_pool.len())?;
        let interfaces = self.parse_interfaces(constant_pool.len())?;
        let fields = self.parse_fields(&constant_pool)?;
        let methods = self.parse_methods(&constant_pool)?;
        let attributes = self.parse_attributes(&constant_pool)?;
        if self.index != self.bytes.len() {
            return Err(ClassParserError::ExpectedEndOfFile);
        }
        Ok(
            ClassFile {
                version,
                class_index: this_class,
                super_class_index: super_class,
                interfaces,
                constant_pool,
                methods,
                fields,
                access_flags,
                attributes,
            },
        )
    }

    fn parse_super_class(&mut self, constant_pool_size: usize) -> (res: Result<
        Option<usize>,
        ClassParserError,
    >)
        requires
            old(self).inv(),
        ensures
            final(self).bytes@ == old(self).bytes@,
            final(self).inv(),
            final(self).index >= old(self).index,
            outcome(
                res,
                final(self).index as int,
                spec_super_class(old(self).bytes@, old(self).index as int, constant_pool_size as int),
                |v: Option<usize>| v,
            ),
    {
        let index = self.parse_u16()? as usize;
        if index >= constant_pool_size {
            return Err(ClassParserError::InvalidConstantPoolIndex);
        }
        if index == 0 {
            Ok(None)
        } else {
            Ok(Some(index))
        }
    }
}

} // verus!
