//! In-memory representation of a parsed Java class file, with the lookups
//! the rest of the virtual machine performs on its constant pool.
use vstd::prelude::*;

use crate::text::{opt_text, opt_text2, opt_text3, str_equal};

verus! {

/// A constant pool entry. Indices into the constant pool are never zero.
/// Floating point constants are kept as their IEEE 754 bit patterns.
#[derive(Debug, Clone)]
pub enum ConstantValue {
    Int(i32),
    Long(i64),
    /// bits of an `f32`
    Float(u32),
    /// bits of an `f64`
    Double(u64),
    Utf8(String),
    Class { name_index: usize },
    String { utf8_index: usize },
    NameAndType { name_index: usize, descriptor_index: usize },
    FieldRef { class_index: usize, name_and_type_index: usize },
    MethodRef { class_index: usize, name_and_type_index: usize },
    InterfaceMethodRef { class_index: usize, name_and_type_index: usize },
    MethodHandle { reference_kind: u8, reference_index: usize },
    MethodType { descriptor_index: usize },
    InvokeDynamic { bootstrap_method_attr_index: usize, name_and_type_index: usize },
    /// placeholder after long and double
    Unusable,
}

/// Mathematical counterpart of a constant pool entry.
pub enum ConstantValueV {
    Int(i32),
    Long(i64),
    Float(u32),
    Double(u64),
    Utf8(Seq<char>),
    Class { name_index: usize },
    String { utf8_index: usize },
    NameAndType { name_index: usize, descriptor_index: usize },
    FieldRef { class_index: usize, name_and_type_index: usize },
    MethodRef { class_index: usize, name_and_type_index: usize },
    InterfaceMethodRef { class_index: usize, name_and_type_index: usize },
    MethodHandle { reference_kind: u8, reference_index: usize },
    MethodType { descriptor_index: usize },
    InvokeDynamic { bootstrap_method_attr_index: usize, name_and_type_index: usize },
    Unusable,
}

impl View for ConstantValue {
    type V = ConstantValueV;

    open spec fn view(&self) -> ConstantValueV {
        match *self {
            ConstantValue::Int(v) => ConstantValueV::Int(v),
            ConstantValue::Long(v) => ConstantValueV::Long(v),
            ConstantValue::Float(v) => ConstantValueV::Float(v),
            ConstantValue::Double(v) => ConstantValueV::Double(v),
            ConstantValue::Utf8(s) => ConstantValueV::Utf8(s@),
            ConstantValue::Class { name_index } => ConstantValueV::Class { name_index },
            ConstantValue::String { utf8_index } => ConstantValueV::String { utf8_index },
            ConstantValue::NameAndType { name_index, descriptor_index } =>
                ConstantValueV::NameAndType { name_index, descriptor_index },
            ConstantValue::FieldRef { class_index, name_and_type_index } =>
                ConstantValueV::FieldRef { class_index, name_and_type_index },
            ConstantValue::MethodRef { class_index, name_and_type_index } =>
                ConstantValueV::MethodRef { class_index, name_and_type_index },
            ConstantValue::InterfaceMethodRef { class_index, name_and_type_index } =>
                ConstantValueV::InterfaceMethodRef { class_index, name_and_type_index },
            ConstantValue::MethodHandle { reference_kind, reference_index } =>
                ConstantValueV::MethodHandle { reference_kind, reference_index },
            ConstantValue::MethodType { descriptor_index } =>
                ConstantValueV::MethodType { descriptor_index },
            ConstantValue::InvokeDynamic { bootstrap_method_attr_index, name_and_type_index } =>
                ConstantValueV::InvokeDynamic { bootstrap_method_attr_index, name_and_type_index },
            ConstantValue::Unusable => ConstantValueV::Unusable,
        }
    }
}

/// An index that may stand in the constant pool: not zero and below its length.
pub open spec fn valid_cp_index(len: int, index: usize) -> bool {
    0 < index < len
}

/// Every index held by the entry points into a pool of length `len`.
pub open spec fn constant_indices_valid(c: ConstantValueV, len: int) -> bool {
    match c {
        ConstantValueV::Class { name_index } => valid_cp_index(len, name_index),
        ConstantValueV::String { utf8_index } => valid_cp_index(len, utf8_index),
        ConstantValueV::NameAndType { name_index, descriptor_index } =>
            valid_cp_index(len, name_index) && valid_cp_index(len, descriptor_index),
        ConstantValueV::FieldRef { class_index, name_and_type_index } =>
            valid_cp_index(len, class_index) && valid_cp_index(len, name_and_type_index),
        ConstantValueV::MethodRef { class_index, name_and_type_index } =>
            valid_cp_index(len, class_index) && valid_cp_index(len, name_and_type_index),
        ConstantValueV::InterfaceMethodRef { class_index, name_and_type_index } =>
            valid_cp_index(len, class_index) && valid_cp_index(len, name_and_type_index),
        ConstantValueV::MethodHandle { reference_kind, reference_index } =>
            valid_cp_index(len, reference_index),
        ConstantValueV::MethodType { descriptor_index } => valid_cp_index(len, descriptor_index),
        ConstantValueV::InvokeDynamic { bootstrap_method_attr_index, name_and_type_index } =>
            valid_cp_index(len, bootstrap_method_attr_index) && valid_cp_index(
                len,
                name_and_type_index,
            ),
        _ => true,
    }
}

/// A well-formed constant pool: not empty, and every inner index points into it.
pub open spec fn cp_wf(cp: Seq<ConstantValueV>) -> bool {
    &&& cp.len() > 0
    &&& forall|i: int| 0 <= i < cp.len() ==> constant_indices_valid(#[trigger] cp[i], cp.len() as int)
}

/// The text of the UTF-8 entry at `index`, if that entry is one.
pub open spec fn cp_utf8(cp: Seq<ConstantValueV>, index: int) -> Option<Seq<char>> {
    match cp[index] {
        ConstantValueV::Utf8(s) => Some(s),
        _ => None,
    }
}

/// The name of the class entry at `index`, if that entry is a class whose name is UTF-8.
pub open spec fn cp_class_name(cp: Seq<ConstantValueV>, index: int) -> Option<Seq<char>> {
    match cp[index] {
        ConstantValueV::Class { name_index } => cp_utf8(cp, name_index as int),
        _ => None,
    }
}

/// The (name, descriptor) of the name-and-type entry at `index`.
pub open spec fn cp_name_and_type(cp: Seq<ConstantValueV>, index: int) -> Option<(Seq<char>, Seq<char>)> {
    match cp[index] {
        ConstantValueV::NameAndType { name_index, descriptor_index } => match cp_utf8(
            cp,
            name_index as int,
        ) {
            Some(n) => match cp_utf8(cp, descriptor_index as int) {
                Some(d) => Some((n, d)),
                None => None,
            },
            None => None,
        },
        _ => None,
    }
}

/// The (class index, name-and-type index) of the method reference at `index`.
pub open spec fn cp_method_ref(cp: Seq<ConstantValueV>, index: int) -> Option<(usize, usize)> {
    match cp[index] {
        ConstantValueV::MethodRef { class_index, name_and_type_index } => Some(
            (class_index, name_and_type_index),
        ),
        _ => None,
    }
}

/// The (class index, name-and-type index) of the interface method reference at `index`.
pub open spec fn cp_interface_method_ref(cp: Seq<ConstantValueV>, index: int) -> Option<(usize, usize)> {
    match cp[index] {
        ConstantValueV::InterfaceMethodRef { class_index, name_and_type_index } => Some(
            (class_index, name_and_type_index),
        ),
        _ => None,
    }
}

/// The (class index, name-and-type index) of the field reference at `index`.
pub open spec fn cp_field_ref(cp: Seq<ConstantValueV>, index: int) -> Option<(usize, usize)> {
    match cp[index] {
        ConstantValueV::FieldRef { class_index, name_and_type_index } => Some(
            (class_index, name_and_type_index),
        ),
        _ => None,
    }
}

/// Class name, member name and descriptor reached from a (class, name-and-type) pair.
pub open spec fn cp_member(cp: Seq<ConstantValueV>, class_i: int, nat_i: int) -> Option<
    (Seq<char>, Seq<char>, Seq<char>),
> {
    match cp_class_name(cp, class_i) {
        Some(c) => match cp_name_and_type(cp, nat_i) {
            Some((n, d)) => Some((c, n, d)),
            None => None,
        },
        None => None,
    }
}

#[derive(Debug, Clone, Copy)]
pub struct ExceptionTableEntry {
    pub start_pc: u16,
    pub end_pc: u16,
    pub handler_pc: u16,
    pub catch_type: u16,
}

#[derive(Debug)]
pub struct Bytecode {
    pub code: Vec<u8>,
    pub max_stack: u16,
    pub max_locals: u16,
    pub exception_table: Vec<ExceptionTableEntry>,
    pub attributes: Vec<Attribute>,
}

#[derive(Debug, Clone, Copy)]
pub struct InnerClass {
    pub inner_class_info_index: usize,
    pub outer_class_info_index: usize,
    pub inner_name_index: Option<usize>,
    pub inner_class_access_flags: ClassAccessFlags,
}

#[derive(Debug)]
pub enum Attribute {
    Code(Bytecode),
    ConstantValue { value_index: usize },
    SourceFile { sourcefile_index: usize },
    InnerClasses(Vec<InnerClass>),
    Unknown { name_index: usize, info: Vec<u8> },
}

/// Mathematical counterpart of a `Code` attribute.
pub struct BytecodeV {
    pub code: Seq<u8>,
    pub max_stack: u16,
    pub max_locals: u16,
    pub exception_table: Seq<ExceptionTableEntry>,
    pub attributes: Seq<AttributeV>,
}

/// Mathematical counterpart of an attribute.
pub enum AttributeV {
    Code(BytecodeV),
    ConstantValue { value_index: usize },
    SourceFile { sourcefile_index: usize },
    InnerClasses(Seq<InnerClass>),
    Unknown { name_index: usize, info: Seq<u8> },
}

pub open spec fn attribute_view(a: Attribute) -> AttributeV
    decreases a,
{
    match a {
        Attribute::Code(b) => AttributeV::Code(bytecode_view(b)),
        Attribute::ConstantValue { value_index } => AttributeV::ConstantValue { value_index },
        Attribute::SourceFile { sourcefile_index } => AttributeV::SourceFile { sourcefile_index },
        Attribute::InnerClasses(v) => AttributeV::InnerClasses(v@),
        Attribute::Unknown { name_index, info } => AttributeV::Unknown { name_index, info: info@ },
    }
}

pub open spec fn bytecode_view(b: Bytecode) -> BytecodeV
    decreases b,
{
    BytecodeV {
        code: b.code@,
        max_stack: b.max_stack,
        max_locals: b.max_locals,
        exception_table: b.exception_table@,
        attributes: attributes_view(b.attributes@),
    }
}

pub open spec fn attributes_view(s: Seq<Attribute>) -> Seq<AttributeV>
    decreases s,
{
    if s.len() == 0 {
        Seq::empty()
    } else {
        seq![attribute_view(s[0])] + attributes_view(s.subrange(1, s.len() as int))
    }
}

pub proof fn lemma_attributes_view(s: Seq<Attribute>)
    ensures
        attributes_view(s).len() == s.len(),
        forall|i: int| 0 <= i < s.len() ==> #[trigger] attributes_view(s)[i] == attribute_view(s[i]),
    decreases s.len(),
{
    if s.len() > 0 {
        lemma_attributes_view(s.subrange(1, s.len() as int));
    }
}

/// Where some attribute is a `Code` attribute, a first one is.
proof fn lemma_first_code_exists(av: Seq<AttributeV>, k: int)
    requires
        0 <= k < av.len(),
        av[k] is Code,
    ensures
        exists|i: int| 0 <= i < av.len() && av[i] is Code && forall|j: int| 0 <= j < i ==> !(#[trigger] av[j] is Code),
    decreases k,
{
    if exists|j: int| 0 <= j < k && av[j] is Code {
        let j = choose|j: int| 0 <= j < k && av[j] is Code;
        lemma_first_code_exists(av, j);
    } else {
        assert(av[k] is Code && forall|j: int| 0 <= j < k ==> !(#[trigger] av[j] is Code));
    }
}

/// The first `Code` attribute's position names a `Code` attribute.
pub proof fn lemma_code_index(s: Seq<Attribute>)
    ensures
        first_code_index(attributes_view(s)) matches Some(b) ==> 0 <= b < s.len() && s[b] is Code,
{
    lemma_attributes_view(s);
    let av = attributes_view(s);
    if exists|i: int| 0 <= i < av.len() && av[i] is Code {
        lemma_first_code_exists(av, choose|i: int| 0 <= i < av.len() && av[i] is Code);
    }
    if let Some(b) = first_code_index(av) {
        assert(0 <= b < av.len() && av[b] is Code);
        assert(av[b] == attribute_view(s[b]));
        match s[b] {
            Attribute::Code(_) => {},
            _ => {
                assert(!(attribute_view(s[b]) is Code));
            },
        }
    }
}

/// A method that `find_method` finds lies in range, has the descriptor asked
/// for, and its code position is that of its first `Code` attribute, which
/// is a `Code` attribute.
pub proof fn lemma_found_method(cf: ClassFile, name: Seq<char>, descriptor: Seq<char>, from: int)
    ensures
        cf.find_method(name, descriptor, from) matches Some((m, b)) ==> {
            &&& 0 <= m < cf.methods@.len()
            &&& cp_utf8(cf.constant_pool@, cf.methods@[m].descriptor_index as int) == Some(descriptor)
            &&& b == first_code_index(attributes_view(cf.methods@[m].attributes@))
            &&& b matches Some(i) ==> 0 <= i < cf.methods@[m].attributes@.len()
                && cf.methods@[m].attributes@[i] is Code
        },
    decreases cf.methods@.len() - from,
{
    if 0 <= from < cf.methods@.len() {
        lemma_found_method(cf, name, descriptor, from + 1);
        lemma_code_index(cf.methods@[from].attributes@);
    }
}

pub proof fn lemma_attributes_view_push(s: Seq<Attribute>, a: Attribute)
    ensures
        attributes_view(s.push(a)) == attributes_view(s).push(attribute_view(a)),
{
    lemma_attributes_view(s);
    lemma_attributes_view(s.push(a));
    assert(attributes_view(s.push(a)) =~= attributes_view(s).push(attribute_view(a)));
}

impl View for Attribute {
    type V = AttributeV;

    open spec fn view(&self) -> AttributeV {
        attribute_view(*self)
    }
}

impl View for Bytecode {
    type V = BytecodeV;

    open spec fn view(&self) -> BytecodeV {
        bytecode_view(*self)
    }
}

pub const FIELD_PUBLIC_FLAG: u16 = 0x0001;
pub const FIELD_PRIVATE_FLAG: u16 = 0x0002;
pub const FIELD_PROTECTED_FLAG: u16 = 0x0004;
pub const FIELD_STATIC_FLAG: u16 = 0x0008;
pub const FIELD_FINAL_FLAG: u16 = 0x0010;
pub const FIELD_VOLATILE_FLAG: u16 = 0x0040;
pub const FIELD_TRANSIENT_FLAG: u16 = 0x0080;
pub const FIELD_SYNTHETIC_FLAG: u16 = 0x1000;
pub const FIELD_ENUM_FLAG: u16 = 0x4000;

/// `flag` is set in `bits`.
pub open spec fn flag_set(bits: u16, flag: u16) -> bool {
    bits & flag != 0
}

/// How many of the public, private and protected bits (0x1, 0x2, 0x4) are set.
pub open spec fn visibility_count(bits: u16) -> int {
    (if flag_set(bits, 0x0001) { 1int } else { 0 }) + (if flag_set(bits, 0x0004) { 1int } else { 0 })
        + (if flag_set(bits, 0x0002) { 1int } else { 0 })
}

/// The raw field flags that the JVM accepts: at most one visibility and not
/// both volatile and final.
pub open spec fn field_flags_valid(bits: u16) -> bool {
    visibility_count(bits) <= 1 && !(flag_set(bits, FIELD_VOLATILE_FLAG) && flag_set(
        bits,
        FIELD_FINAL_FLAG,
    ))
}

#[derive(Debug, Clone, Copy)]
pub struct FieldAccessFlags {
    access_flags: u16,
}

impl View for FieldAccessFlags {
    type V = u16;

    closed spec fn view(&self) -> u16 {
        self.access_flags
    }
}

impl FieldAccessFlags {
    pub const PUBLIC_FLAG: u16 = 0x0001;
    pub const PRIVATE_FLAG: u16 = 0x0002;
    pub const PROTECTED_FLAG: u16 = 0x0004;
    pub const STATIC_FLAG: u16 = 0x0008;
    pub const FINAL_FLAG: u16 = 0x0010;
    pub const VOLATILE_FLAG: u16 = 0x0040;
    pub const TRANSIENT_FLAG: u16 = 0x0080;
    pub const SYNTHETIC_FLAG: u16 = 0x1000;
    pub const ENUM_FLAG: u16 = 0x4000;

    /// Accepts `access_flags` exactly when they are a valid field flag combination.
    pub fn new(access_flags: u16) -> (res: Option<Self>)
        ensures
            res is Some <==> field_flags_valid(access_flags),
            res matches Some(f) ==> f@ == access_flags,
    {
        let flags = Self { access_flags };
        let mut access_count: u8 = 0;
        if flags.check_flag(Self::PUBLIC_FLAG) {
            access_count += 1;
        }
        if flags.check_flag(Self::PROTECTED_FLAG) {
            access_count += 1;
        }
        if flags.check_flag(Self::PRIVATE_FLAG) {
            access_count += 1;
        }
        if access_count > 1 {
            return None;
        }
        let is_invalid_combination = flags.check_flag(Self::VOLATILE_FLAG) && flags.check_flag(
            Self::FINAL_FLAG,
        );
        if is_invalid_combination {
            return None;
        }
        Some(flags)
    }

    pub fn check_flag(self, flag: u16) -> (res: bool)
        ensures
            res == flag_set(self@, flag),
    {
        self.access_flags & flag != 0
    }
}

pub const METHOD_PUBLIC_FLAG: u16 = 0x0001;
pub const METHOD_PRIVATE_FLAG: u16 = 0x0002;
pub const METHOD_PROTECTED_FLAG: u16 = 0x0004;
pub const METHOD_STATIC_FLAG: u16 = 0x0008;
pub const METHOD_FINAL_FLAG: u16 = 0x0010;
pub const METHOD_SYNCHRONIZED_FLAG: u16 = 0x0020;
pub const METHOD_NATIVE_FLAG: u16 = 0x0100;
pub const METHOD_ABSTRACT_FLAG: u16 = 0x0400;
pub const METHOD_STRICT_FLAG: u16 = 0x0800;

/// The raw method flags that the JVM accepts: at most one visibility, and an
/// abstract method is none of final, native, static, synchronized, strict or private.
pub open spec fn method_flags_valid(bits: u16) -> bool {
    &&& visibility_count(bits) <= 1
    &&& !(flag_set(bits, METHOD_ABSTRACT_FLAG) && (flag_set(bits, METHOD_FINAL_FLAG) || flag_set(
        bits,
        METHOD_NATIVE_FLAG,
    ) || flag_set(bits, METHOD_STATIC_FLAG) || flag_set(bits, METHOD_SYNCHRONIZED_FLAG)
        || flag_set(bits, METHOD_STRICT_FLAG) || flag_set(bits, METHOD_PRIVATE_FLAG)))
}

#[derive(Debug, Clone, Copy)]
pub struct MethodAccessFlags {
    access_flags: u16,
}

impl View for MethodAccessFlags {
    type V = u16;

    closed spec fn view(&self) -> u16 {
        self.access_flags
    }
}

impl MethodAccessFlags {
    pub const PUBLIC_FLAG: u16 = 0x0001;
    pub const PRIVATE_FLAG: u16 = 0x0002;
    pub const PROTECTED_FLAG: u16 = 0x0004;
    pub const STATIC_FLAG: u16 = 0x0008;
    pub const FINAL_FLAG: u16 = 0x0010;
    pub const SYNCHRONIZED_FLAG: u16 = 0x0020;
    pub const BRIDGE_FLAG: u16 = 0x0040;
    pub const VARARGS_FLAG: u16 = 0x0080;
    pub const NATIVE_FLAG: u16 = 0x0100;
    pub const ABSTRACT_FLAG: u16 = 0x0400;
    pub const STRICT_FLAG: u16 = 0x0800;
    pub const SYNTHETIC_FLAG: u16 = 0x1000;

    /// Accepts `access_flags` exactly when they are a valid method flag combination.
    pub fn new(access_flags: u16) -> (res: Option<Self>)
        ensures
            res is Some <==> method_flags_valid(access_flags),
            res matches Some(f) ==> f@ == access_flags,
    {
        let flags = Self { access_flags };
        let mut access_count: u8 = 0;
        if flags.check_flag(Self::PUBLIC_FLAG) {
            access_count += 1;
        }
        if flags.check_flag(Self::PROTECTED_FLAG) {
            access_count += 1;
        }
        if flags.check_flag(Self::PRIVATE_FLAG) {
            access_count += 1;
        }
        if access_count > 1 {
            return None;
        }
        let is_invalid_combination = flags.check_flag(Self::ABSTRACT_FLAG) && (flags.check_flag(
            Self::FINAL_FLAG,
        ) || flags.check_flag(Self::NATIVE_FLAG) || flags.check_flag(Self::STATIC_FLAG)
            || flags.check_flag(Self::SYNCHRONIZED_FLAG) || flags.check_flag(Self::STRICT_FLAG)
            || flags.check_flag(Self::PRIVATE_FLAG));
        if is_invalid_combination {
            return None;
        }
        Some(flags)
    }

    pub fn check_flag(self, flag: u16) -> (res: bool)
        ensures
            res == flag_set(self@, flag),
    {
        self.access_flags & flag != 0
    }
}

pub const CLASS_FINAL_FLAG: u16 = 0x0010;
pub const CLASS_INTERFACE_FLAG: u16 = 0x0200;
pub const CLASS_ABSTRACT_FLAG: u16 = 0x0400;
pub const CLASS_ANNOTATION_FLAG: u16 = 0x2000;
pub const CLASS_ENUM_FLAG: u16 = 0x4000;

/// The raw class flags that the JVM accepts: an interface is abstract, an
/// annotation is an interface, and an enum is not final.
pub open spec fn class_flags_valid(bits: u16) -> bool {
    &&& !(flag_set(bits, CLASS_INTERFACE_FLAG) && !flag_set(bits, CLASS_ABSTRACT_FLAG))
    &&& !(flag_set(bits, CLASS_ANNOTATION_FLAG) && !flag_set(bits, CLASS_INTERFACE_FLAG))
    &&& !(flag_set(bits, CLASS_ENUM_FLAG) && flag_set(bits, CLASS_FINAL_FLAG))
}

#[derive(Debug, Clone, Copy)]
pub struct ClassAccessFlags {
    access_flags: u16,
}

impl View for ClassAccessFlags {
    type V = u16;

    closed spec fn view(&self) -> u16 {
        self.access_flags
    }
}

impl ClassAccessFlags {
    pub const PUBLIC_FLAG: u16 = 0x0001;
    pub const FINAL_FLAG: u16 = 0x0010;
    pub const SUPER_FLAG: u16 = 0x0020;
    pub const INTERFACE_FLAG: u16 = 0x0200;
    pub const ABSTRACT_FLAG: u16 = 0x0400;
    pub const SYNTHETIC_FLAG: u16 = 0x1000;
    pub const ANNOTATION_FLAG: u16 = 0x2000;
    pub const ENUM_FLAG: u16 = 0x4000;

    /// Accepts `access_flags` exactly when they are a valid class flag combination.
    pub fn new(access_flags: u16) -> (res: Option<Self>)
        ensures
            res is Some <==> class_flags_valid(access_flags),
            res matches Some(f) ==> f@ == access_flags,
    {
        let flags = Self { access_flags };
        if flags.check_flag(Self::INTERFACE_FLAG) && !flags.check_flag(Self::ABSTRACT_FLAG) {
            return None;
        }
        if flags.check_flag(Self::ANNOTATION_FLAG) && !flags.check_flag(Self::INTERFACE_FLAG) {
            return None;
        }
        if flags.check_flag(Self::ENUM_FLAG) && flags.check_flag(Self::FINAL_FLAG) {
            return None;
        }
        Some(flags)
    }

    pub fn check_flag(self, flag: u16) -> (res: bool)
        ensures
            res == flag_set(self@, flag),
    {
        self.access_flags & flag != 0
    }
}


pub struct FieldV {
    pub name_index: usize,
    pub descriptor_index: usize,
    pub access_flags: u16,
    pub attributes: Seq<AttributeV>,
}

#[derive(Debug)]
pub struct Field {
    pub name_index: usize,
    pub descriptor_index: usize,
    pub access_flags: FieldAccessFlags,
    pub attributes: Vec<Attribute>,
}

impl View for Field {
    type V = FieldV;

    open spec fn view(&self) -> FieldV {
        FieldV {
            name_index: self.name_index,
            descriptor_index: self.descriptor_index,
            access_flags: self.access_flags@,
            attributes: attributes_view(self.attributes@),
        }
    }
}

pub struct MethodV {
    pub name_index: usize,
    pub descriptor_index: usize,
    pub access_flags: u16,
    pub attributes: Seq<AttributeV>,
}

#[derive(Debug)]
pub struct Method {
    pub name_index: usize,
    pub descriptor_index: usize,
    pub access_flags: MethodAccessFlags,
    pub attributes: Vec<Attribute>,
}

impl View for Method {
    type V = MethodV;

    open spec fn view(&self) -> MethodV {
        MethodV {
            name_index: self.name_index,
            descriptor_index: self.descriptor_index,
            access_flags: self.access_flags@,
            attributes: attributes_view(self.attributes@),
        }
    }
}

impl Method {
    /// The `Code` attribute at position `index` of the method's attributes.
    pub fn get_bytecode(&self, index: usize) -> (res: &Bytecode)
        requires
            index < self.attributes@.len(),
            self.attributes@[index as int] is Code,
        ensures
            self.attributes@[index as int] == Attribute::Code(*res),
    {
        match &self.attributes[index] {
            Attribute::Code(bytecode) => bytecode,
            _ => vstd::pervasive::unreached(),
        }
    }
}

/// An optional position as a mathematical integer.
pub open spec fn opt_int(o: Option<usize>) -> Option<int> {
    match o {
        Some(v) => Some(v as int),
        None => None,
    }
}

/// The position of the first `Code` attribute among `attrs`, if any.
pub open spec fn first_code_index(attrs: Seq<AttributeV>) -> Option<int> {
    if exists|i: int| 0 <= i < attrs.len() && attrs[i] is Code {
        Some(
            choose|i: int|
                0 <= i < attrs.len() && attrs[i] is Code && forall|j: int|
                    0 <= j < i ==> !(#[trigger] attrs[j] is Code),
        )
    } else {
        None
    }
}

/// A table of constants; entry 0 is never used.
#[derive(Debug, Clone)]
pub struct ConstantPool {
    constant_pool_table: Vec<ConstantValue>,
}

impl View for ConstantPool {
    type V = Seq<ConstantValueV>;

    closed spec fn view(&self) -> Seq<ConstantValueV> {
        self.constant_pool_table@.map_values(|c: ConstantValue| c@)
    }
}

impl ConstantPool {
    pub fn new(constant_pool_table: Vec<ConstantValue>) -> (res: Self)
        requires
            constant_pool_table@.len() > 0,
        ensures
            res@ == constant_pool_table@.map_values(|c: ConstantValue| c@),
    {
        Self { constant_pool_table }
    }

    pub fn get_all_constants(&self) -> (res: &[ConstantValue])
        ensures
            res@.map_values(|c: ConstantValue| c@) == self@,
    {
        self.constant_pool_table.as_slice()
    }

    pub fn len(&self) -> (res: usize)
        ensures
            res == self@.len(),
    {
        self.constant_pool_table.len()
    }

    pub fn get(&self, index: usize) -> (res: &ConstantValue)
        requires
            valid_cp_index(self@.len() as int, index),
        ensures
            res@ == self@[index as int],
    {
        &self.constant_pool_table[index]
    }

    pub fn get_utf8(&self, index: usize) -> (res: Option<&str>)
        requires
            valid_cp_index(self@.len() as int, index),
        ensures
            opt_text(res) == cp_utf8(self@, index as int),
    {
        match self.get(index) {
            ConstantValue::Utf8(s) => Some(s.as_str()),
            _ => None,
        }
    }

    /// returns the class, method name and method descriptor based on method ref index
    pub fn get_class_methodname_descriptor(&self, method_ref_index: usize) -> (res: Option<
        (&str, &str, &str),
    >)
        requires
            cp_wf(self@),
            valid_cp_index(self@.len() as int, method_ref_index),
        ensures
            opt_text3(res) == match cp_method_ref(
                self@,
                method_ref_index as int,
            ) {
                Some((c, n)) => cp_member(self@, c as int, n as int),
                None => None,
            },
    {
        proof {
            assert(constant_indices_valid(self@[method_ref_index as int], self@.len() as int));
        }
        let (class_i, name_and_type_i) = self.get_method_ref(method_ref_index)?;
        let class = self.get_class_name(class_i)?;
        let (method_name, method_descriptor) = self.get_name_and_type(name_and_type_i)?;
        Some((class, method_name, method_descriptor))
    }

    /// returns the class, field name and field descriptor based on field ref index
    pub fn get_field_class_name_type(&self, field_ref_index: usize) -> (res: Option<(&str, &str, &str)>)
        requires
            cp_wf(self@),
            valid_cp_index(self@.len() as int, field_ref_index),
        ensures
            opt_text3(res) == match cp_field_ref(self@, field_ref_index as int) {
                Some((c, n)) => cp_member(self@, c as int, n as int),
                None => None,
            },
    {
        proof {
            assert(constant_indices_valid(self@[field_ref_index as int], self@.len() as int));
        }
        let (class_i, name_and_type_i) = match self.get(field_ref_index) {
            ConstantValue::FieldRef { class_index, name_and_type_index } => (*class_index, *name_and_type_index),
            _ => return None,
        };
        let class = self.get_class_name(class_i)?;
        let (field_name, field_descriptor) = self.get_name_and_type(name_and_type_i)?;
        Some((class, field_name, field_descriptor))
    }

    /// returns the class, method name and method descriptor based on interface method ref index
    pub fn get_interface_method(&self, interface_method_ref_index: usize) -> (res: Option<
        (&str, &str, &str),
    >)
        requires
            cp_wf(self@),
            valid_cp_index(self@.len() as int, interface_method_ref_index),
        ensures
            opt_text3(res) == match cp_interface_method_ref(
                self@,
                interface_method_ref_index as int,
            ) {
                Some((c, n)) => cp_member(self@, c as int, n as int),
                None => None,
            },
    {
        proof {
            assert(constant_indices_valid(
                self@[interface_method_ref_index as int],
                self@.len() as int,
            ));
        }
        let (class_i, name_and_type_i) = match self.get(interface_method_ref_index) {
            ConstantValue::InterfaceMethodRef { class_index, name_and_type_index } => (
                *class_index,
                *name_and_type_index,
            ),
            _ => return None,
        };
        let class = self.get_class_name(class_i)?;
        let (method_name, method_descriptor) = self.get_name_and_type(name_and_type_i)?;
        Some((class, method_name, method_descriptor))
    }

    pub fn get_method_ref(&self, index: usize) -> (res: Option<(usize, usize)>)
        requires
            valid_cp_index(self@.len() as int, index),
        ensures
            res == cp_method_ref(self@, index as int),
    {
        match self.get(index) {
            ConstantValue::MethodRef { class_index, name_and_type_index } => Some(
                (*class_index, *name_and_type_index),
            ),
            _ => None,
        }
    }

    /// returns (name, descriptor)
    pub fn get_name_and_type(&self, name_and_type_index: usize) -> (res: Option<(&str, &str)>)
        requires
            cp_wf(self@),
            valid_cp_index(self@.len() as int, name_and_type_index),
        ensures
            opt_text2(res) == cp_name_and_type(
                self@,
                name_and_type_index as int,
            ),
    {
        proof {
            assert(constant_indices_valid(self@[name_and_type_index as int], self@.len() as int));
        }
        match self.get(name_and_type_index) {
            ConstantValue::NameAndType { name_index, descriptor_index } => {
                let name = self.get_utf8(*name_index)?;
                let descriptor = self.get_utf8(*descriptor_index)?;
                Some((name, descriptor))
            },
            _ => None,
        }
    }

    pub fn get_class_name(&self, class_index: usize) -> (res: Option<&str>)
        requires
            cp_wf(self@),
            valid_cp_index(self@.len() as int, class_index),
        ensures
            opt_text(res) == cp_class_name(self@, class_index as int),
    {
        proof {
            assert(constant_indices_valid(self@[class_index as int], self@.len() as int));
        }
        let name_index = match self.get(class_index) {
            ConstantValue::Class { name_index } => *name_index,
            _ => return None,
        };
        let class_name = self.get_utf8(name_index)?;
        Some(class_name)
    }
}

#[derive(Debug, Clone, Copy)]
pub struct ClassFileVersion {
    pub major: u16,
    pub minor: u16,
}

#[derive(Debug)]
pub struct ClassFile {
    pub version: ClassFileVersion,
    pub class_index: usize,
    pub super_class_index: Option<usize>,
    pub interfaces: Vec<usize>,
    pub constant_pool: ConstantPool,
    pub methods: Vec<Method>,
    pub fields: Vec<Field>,
    pub access_flags: ClassAccessFlags,
    pub attributes: Vec<Attribute>,
}

/// Mathematical counterpart of a class file.
pub struct ClassFileV {
    pub version: ClassFileVersion,
    pub class_index: usize,
    pub super_class_index: Option<usize>,
    pub interfaces: Seq<usize>,
    pub constant_pool: Seq<ConstantValueV>,
    pub methods: Seq<MethodV>,
    pub fields: Seq<FieldV>,
    pub access_flags: u16,
    pub attributes: Seq<AttributeV>,
}

impl View for ClassFile {
    type V = ClassFileV;

    open spec fn view(&self) -> ClassFileV {
        ClassFileV {
            version: self.version,
            class_index: self.class_index,
            super_class_index: self.super_class_index,
            interfaces: self.interfaces@,
            constant_pool: self.constant_pool@,
            methods: self.methods@.map_values(|m: Method| m@),
            fields: self.fields@.map_values(|f: Field| f@),
            access_flags: self.access_flags@,
            attributes: attributes_view(self.attributes@),
        }
    }
}

impl ClassFile {
    /// The indices the class file holds point into its constant pool, and the
    /// constant pool is well formed.
    pub open spec fn wf(&self) -> bool {
        let cp = self.constant_pool@;
        &&& cp_wf(cp)
        &&& valid_cp_index(cp.len() as int, self.class_index)
        &&& self.super_class_index matches Some(s) ==> valid_cp_index(cp.len() as int, s)
        &&& forall|i: int|
            0 <= i < self.methods@.len() ==> valid_cp_index(
                cp.len() as int,
                #[trigger] self.methods@[i].name_index,
            ) && valid_cp_index(cp.len() as int, self.methods@[i].descriptor_index)
        &&& forall|i: int|
            0 <= i < self.fields@.len() ==> valid_cp_index(
                cp.len() as int,
                #[trigger] self.fields@[i].name_index,
            ) && valid_cp_index(cp.len() as int, self.fields@[i].descriptor_index)
    }

    pub fn get_class_name(&self) -> (res: Option<&str>)
        requires
            self.wf(),
        ensures
            opt_text(res) == cp_class_name(self.constant_pool@, self.class_index as int),
    {
        self.constant_pool.get_class_name(self.class_index)
    }

    pub fn get_super_class_name(&self) -> (res: Option<&str>)
        requires
            self.wf(),
        ensures
            opt_text(res) == match self.super_class_index {
                Some(s) => cp_class_name(self.constant_pool@, s as int),
                None => None,
            },
    {
        let super_index = self.super_class_index?;
        self.constant_pool.get_class_name(super_index)
    }

    /// The method with this name and descriptor: its position, and the
    /// position of its `Code` attribute if it has one. The search stops with
    /// `None` at the first method whose name or descriptor entry (when the name
    /// matches) is not UTF-8.
    pub open spec fn find_method(&self, name: Seq<char>, descriptor: Seq<char>, from: int) -> Option<
        (int, Option<int>),
    >
        decreases self.methods@.len() - from,
    {
        if from < 0 || from >= self.methods@.len() {
            None
        } else {
            let m = self.methods@[from];
            let cp = self.constant_pool@;
            match cp_utf8(cp, m.name_index as int) {
                None => None,
                Some(n) => if n == name {
                    match cp_utf8(cp, m.descriptor_index as int) {
                        None => None,
                        Some(d) => if d == descriptor {
                            Some((from, first_code_index(attributes_view(m.attributes@))))
                        } else {
                            self.find_method(name, descriptor, from + 1)
                        },
                    }
                } else {
                    self.find_method(name, descriptor, from + 1)
                },
            }
        }
    }

    pub fn get_method_and_bytecode_index(&self, method_name: &str, descriptor: &str) -> (res:
        Option<(usize, Option<usize>)>)
        requires
            self.wf(),
        ensures
            match res {
                Some((m, b)) => Some((m as int, opt_int(b))),
                None => None,
            } == self.find_method(method_name@, descriptor@, 0),
    {
        let mut index: usize = 0;
        while index < self.methods.len()
            invariant
                self.wf(),
                0 <= index <= self.methods@.len(),
                self.find_method(method_name@, descriptor@, 0) == self.find_method(
                    method_name@,
                    descriptor@,
                    index as int,
                ),
            decreases self.methods@.len() - index,
        {
            let method = &self.methods[index];
            let name = self.constant_pool.get_utf8(method.name_index)?;
            let mut methods_match = false;
            if str_equal(name, method_name) {
                let desc = self.constant_pool.get_utf8(method.descriptor_index)?;
                methods_match = str_equal(desc, descriptor);
            }
            if methods_match {
                let bytecode_index = find_code_attribute(&method.attributes);
                return Some((index, bytecode_index));
            }
            index += 1;
        }
        None
    }
}

/// The position of the first `Code` attribute in `attributes`.
pub fn find_code_attribute(attributes: &Vec<Attribute>) -> (res: Option<usize>)
    ensures
        opt_int(res) == first_code_index(attributes_view(attributes@)),
{
    proof {
        lemma_attributes_view(attributes@);
    }
    let ghost av = attributes_view(attributes@);
    let mut i: usize = 0;
    while i < attributes.len()
        invariant
            av == attributes_view(attributes@),
            av.len() == attributes@.len(),
            forall|k: int| 0 <= k < av.len() ==> #[trigger] av[k] == attribute_view(attributes@[k]),
            0 <= i <= attributes@.len(),
            forall|j: int| 0 <= j < i ==> !(#[trigger] av[j] is Code),
        decreases attributes@.len() - i,
    {
        if let Attribute::Code(_) = &attributes[i] {
            assert(av[i as int] is Code);
            let ghost c = choose|k: int|
                0 <= k < av.len() && av[k] is Code && forall|j: int|
                    0 <= j < k ==> !(#[trigger] av[j] is Code);
            assert(av[i as int] is Code && forall|j: int| 0 <= j < i ==> !(#[trigger] av[j] is Code));
            assert(c == i) by {
                if c < i {
                    assert(!(av[c] is Code));
                } else if c > i {
                    assert(!(av[i as int] is Code));
                }
            }
            return Some(i);
        }
        assert(!(av[i as int] is Code));
        i += 1;
    }
    None
}

} // verus!
