//! The runtime data model of the virtual machine: values, heap objects,
//! stack frames and threads. Classes are referred to by their position in the
//! class table (`ClassId`).
use vstd::prelude::*;

use crate::class_file::{cp_utf8, valid_cp_index, ClassFile};
use crate::class_parser::ClassParserError;
use crate::class_verifier::VerifierError;
use crate::text::{append_decimal, append_signed, decimal_text, signed_text, str_to_chars};
use vstd::string::StringExecFns;

verus! {

pub const STRING_CLASS_NAME: &'static str = "java/lang/String";
pub const CLASS_CLASS_NAME: &'static str = "java/lang/Class";
pub const OBJECT_CLASS_NAME: &'static str = "java/lang/Object";
pub const THROWABLE_CLASS_NAME: &'static str = "java/lang/Throwable";
pub const SYSTEM_CLASS_NAME: &'static str = "java/lang/System";
pub const FLOAT_CLASS_NAME: &'static str = "java/lang/Float";
pub const DOUBLE_CLASS_NAME: &'static str = "java/lang/Double";
pub const NULL_POINTER_EXCEPTION_NAME: &'static str = "java/lang/NullPointerException";
pub const NEGATIVE_ARRAY_SIZE_EXCEPTION_NAME: &'static str = "java/lang/NegativeArraySizeException";
pub const ARRAY_INDEX_OUT_OF_BOUNDS_EXCEPTION_NAME: &'static str = "java/lang/ArrayIndexOutOfBoundsException";
pub const ARRAY_STORE_EXCEPTION_NAME: &'static str = "java/lang/ArrayStoreException";
pub const ARITHMETIC_EXCEPTION_NAME: &'static str = "java/lang/ArithmeticException";
pub const ILLEGAL_ACCESS_ERROR_NAME: &'static str = "java/lang/IllegalAccessError";
pub const INCOMPATIBLE_CLASS_CHANGE_ERROR_NAME: &'static str = "java/lang/IncompatibleClassChangeError";
pub const CLASS_CAST_EXCEPTION_NAME: &'static str = "java/lang/ClassCastException";
pub const THROWABLE_INTERFACE_NAME: &'static str = "java/lang/Throwable";
pub const ARRAY_CLASS_NAME: &'static str = "java/lang/reflect/Array";
pub const JVANKOM_PRINT_STEAM_CLASS_NAME: &'static str = "jvankomrt/JVankoMPrintStream";

/// A class, named by its position in the class table.
pub type ClassId = usize;

#[derive(Debug, Clone, Copy, PartialEq, Eq, Hash, Structural)]
pub enum DescriptorType {
    Integer,
    Long,
    Reference,
    Short,
    Character,
    Byte,
    Float,
    Double,
    Boolean,
}

/// The type that a descriptor character stands for; every character that
/// names no primitive stands for a reference.
pub open spec fn descriptor_type_of(c: char) -> DescriptorType {
    if c == 'I' {
        DescriptorType::Integer
    } else if c == 'J' {
        DescriptorType::Long
    } else if c == 'F' {
        DescriptorType::Float
    } else if c == 'D' {
        DescriptorType::Double
    } else if c == 'B' {
        DescriptorType::Byte
    } else if c == 'C' {
        DescriptorType::Character
    } else if c == 'S' {
        DescriptorType::Short
    } else if c == 'Z' {
        DescriptorType::Boolean
    } else {
        DescriptorType::Reference
    }
}

/// The zero value of a field of the given type.
pub open spec fn default_value_of(t: DescriptorType) -> JvmValue {
    match t {
        DescriptorType::Integer | DescriptorType::Character | DescriptorType::Byte
        | DescriptorType::Boolean | DescriptorType::Short => JvmValue::Int(0),
        DescriptorType::Long => JvmValue::Long(0),
        DescriptorType::Reference => JvmValue::Reference(None),
        DescriptorType::Float => JvmValue::Float(0),
        DescriptorType::Double => JvmValue::Double(0),
    }
}

/// A zero value: the int or long 0, a float or double whose bits are all
/// zero (0.0), or the null reference.
pub open spec fn is_zero_value(v: JvmValue) -> bool {
    ||| v == JvmValue::Int(0)
    ||| v == JvmValue::Long(0)
    ||| v == JvmValue::Float(0)
    ||| v == JvmValue::Double(0)
    ||| v == JvmValue::Reference(None)
}

/// A field that was never assigned holds zero, false or null: the default
/// value of every type is a zero value of that type.
pub proof fn lemma_default_values_are_zero(t: DescriptorType)
    ensures
        is_zero_value(default_value_of(t)),
        value_matches(default_value_of(t), t),
{
}

impl DescriptorType {
    pub fn create_default_value(self) -> (res: JvmValue)
        ensures
            res == default_value_of(self),
            is_zero_value(res),
            value_matches(res, self),
    {
        match self {
            DescriptorType::Integer | DescriptorType::Character | DescriptorType::Byte
            | DescriptorType::Boolean | DescriptorType::Short => JvmValue::Int(0),
            DescriptorType::Long => JvmValue::Long(0),
            DescriptorType::Reference => JvmValue::Reference(None),
            DescriptorType::Float => JvmValue::Float(0),
            DescriptorType::Double => JvmValue::Double(0),
        }
    }

    /// The type that a descriptor character stands for.
    pub fn from_char(value: char) -> (res: Self)
        ensures
            res == descriptor_type_of(value),
    {
        match value {
            'I' => DescriptorType::Integer,
            'J' => DescriptorType::Long,
            'F' => DescriptorType::Float,
            'D' => DescriptorType::Double,
            'B' => DescriptorType::Byte,
            'C' => DescriptorType::Character,
            'S' => DescriptorType::Short,
            'Z' => DescriptorType::Boolean,
            _ => DescriptorType::Reference,
        }
    }
}

#[derive(Debug, Clone, Copy, PartialEq, Eq, Structural)]
pub enum JvmType {
    Int,
    Long,
    Float,
    Double,
    Reference,
}

impl JvmType {
    /// The name of the type as the user sees it.
    pub open spec fn text(self) -> Seq<char> {
        match self {
            JvmType::Int => "Int"@,
            JvmType::Long => "Long"@,
            JvmType::Float => "Float"@,
            JvmType::Double => "Double"@,
            JvmType::Reference => "Reference"@,
        }
    }

    pub fn description(self) -> (res: &'static str)
        ensures
            res@ == self.text(),
    {
        match self {
            Self::Int => "Int",
            Self::Long => "Long",
            Self::Float => "Float",
            Self::Double => "Double",
            Self::Reference => "Reference",
        }
    }
}

/// A value in a local variable, an operand stack slot or a field. Floating
/// point values are kept as their IEEE 754 bit patterns; a reference is a heap
/// slot (never zero) or null.
#[derive(Debug, Clone, Copy, PartialEq, Eq, Structural)]
pub enum JvmValue {
    Int(i32),
    Long(i64),
    /// bits of an `f32`
    Float(u32),
    /// bits of an `f64`
    Double(u64),
    Reference(Option<usize>),
    /// Unusable value following longs and doubles
    Unusable,
}

pub open spec fn type_of(v: JvmValue) -> JvmType
    recommends
        !(v is Unusable),
{
    match v {
        JvmValue::Int(_) => JvmType::Int,
        JvmValue::Long(_) => JvmType::Long,
        JvmValue::Float(_) => JvmType::Float,
        JvmValue::Double(_) => JvmType::Double,
        _ => JvmType::Reference,
    }
}

/// A value fits a descriptor type: an int fits the int-like types.
pub open spec fn value_matches(v: JvmValue, t: DescriptorType) -> bool {
    match v {
        JvmValue::Int(_) => t == DescriptorType::Short || t == DescriptorType::Boolean || t
            == DescriptorType::Character || t == DescriptorType::Byte || t == DescriptorType::Integer,
        JvmValue::Long(_) => t == DescriptorType::Long,
        JvmValue::Float(_) => t == DescriptorType::Float,
        JvmValue::Double(_) => t == DescriptorType::Double,
        JvmValue::Reference(_) => t == DescriptorType::Reference,
        JvmValue::Unusable => false,
    }
}

impl JvmValue {
    pub fn get_type(self) -> (res: JvmType)
        requires
            !(self is Unusable),
        ensures
            res == type_of(self),
    {
        match self {
            Self::Int(_) => JvmType::Int,
            Self::Long(_) => JvmType::Long,
            Self::Float(_) => JvmType::Float,
            Self::Double(_) => JvmType::Double,
            Self::Reference(_) => JvmType::Reference,
            Self::Unusable => vstd::pervasive::unreached(),
        }
    }

    pub fn matches_type(self, desciptor: DescriptorType) -> (res: bool)
        requires
            !(self is Unusable),
        ensures
            res == value_matches(self, desciptor),
    {
        match self {
            JvmValue::Int(_) => matches!(
                desciptor,
                DescriptorType::Short | DescriptorType::Boolean | DescriptorType::Character
                    | DescriptorType::Byte | DescriptorType::Integer
            ),
            JvmValue::Long(_) => matches!(desciptor, DescriptorType::Long),
            JvmValue::Float(_) => matches!(desciptor, DescriptorType::Float),
            JvmValue::Double(_) => matches!(desciptor, DescriptorType::Double),
            JvmValue::Reference(_) => matches!(desciptor, DescriptorType::Reference),
            JvmValue::Unusable => vstd::pervasive::unreached(),
        }
    }
}

#[derive(Debug, Clone)]
pub enum JvmError {
    ClassParserError { parsed_class: String, error: ClassParserError },
    ClassLoaderError(String),
    MethodNotFound { class_name: String, method_name: String },
    UnimplementedInstruction(u8),
    NoOperandFound,
    NoLocalVariableFound,
    ExpectedThrowable,
    ProgramCounterOutOfBounds { current_index: usize, bytecode_len: usize },
    TypeError { expected: JvmType, found: JvmType },
    MissingReturnValue,
    InvalidReference,
    InvalidArrayType(u8),
    ClassVerificationError { verified_class: String, error: VerifierError },
    IncompatibleArrayType,
    InvalidMethodDescriptor(String),
    InvalidConstantPoolIndex,
    InvalidMethodRefIndex(usize),
    InvalidInterfaceMethodRefIndex(usize),
    InvalidFieldRefIndex(usize),
    InvalidClassIndex(usize),
    VirtualMethodError { method_name: String, method_descriptor: String },
    ExpectedNonNativeMethod { method_name: String, method_descriptor: String },
    ExpectedNativeMethod { method_name: String, method_descriptor: String },
    ExpectedStaticMethod { method_name: String, method_descriptor: String },
    NativeMethodImplementationNotFound {
        class_name: String,
        method_name: String,
        method_descriptor: String,
    },
    FieldNotFound { class_name: String, field_name: String },
    StaticFieldNotFound { class_name: String, field_name: String },
    ExpectedArray,
    ExpectedNonArrayObject,
    UnhandledException { reference: usize, class_name: String, fields: Vec<JvmValue> },
    InvalidMultidimensionalPrimitiveArrayDimension,
}

impl JvmError {
    pub fn bx(self) -> (res: Box<Self>)
        ensures
            *res == self,
    {
        Box::new(self)
    }
}

pub type JvmResult<T> = Result<T, Box<JvmError>>;

/// The type error met when `found` stands where a value of type `expected` belongs.
pub open spec fn type_error(expected: JvmType, found: JvmValue) -> JvmError {
    JvmError::TypeError { expected, found: type_of(found) }
}

#[derive(Debug, Clone)]
pub struct ObjectArray {
    /// heap references (never zero) or null
    pub array: Vec<Option<usize>>,
    /// at least 1
    pub dimension: usize,
    pub object_array_type: ObjectArrayType,
}

#[derive(Debug, Clone, Copy, PartialEq, Eq, Structural)]
pub enum ObjectArrayType {
    Class(ClassId),
    Primitive(DescriptorType),
}

/// An object on the heap. Float and double arrays hold bit patterns.
#[derive(Debug, Clone)]
pub enum HeapObject {
    Object { class: ClassId, fields: Vec<JvmValue> },
    IntArray(Vec<i32>),
    ByteArray(Vec<i8>),
    BooleanArray(Vec<bool>),
    CharacterArray(Vec<u16>),
    ShortArray(Vec<i16>),
    FloatArray(Vec<u32>),
    DoubleArray(Vec<u64>),
    LongArray(Vec<i64>),
    ObjectArray(ObjectArray),
}

#[derive(Debug, Clone, Copy, PartialEq, Eq, Structural)]
pub enum FrameReturn {
    NotReturning,
    Returning,
    Exception,
}

/// An activation of a method: the class (by its id) and method it runs, its
/// local variables, operand stack and program counter.
#[derive(Debug, Clone)]
pub struct JvmStackFrame {
    pub class: ClassId,
    pub method_index: usize,
    pub bytecode_index: usize,
    pub local_variables: Vec<JvmValue>,
    pub operand_stack: Vec<JvmValue>,
    pub program_counter: usize,
    pub is_void: bool,
    pub should_return: FrameReturn,
    pub return_value: Option<JvmValue>,
}

/// `f` is a fresh activation of method `method_index` of `class_file` (the
/// class `class`) running its `Code` attribute at `bytecode_index`: the first
/// locals hold `params`, the others are unusable, the operand stack is empty
/// and the method is void when its descriptor ends with `V`.
pub open spec fn is_fresh_frame(
    f: JvmStackFrame,
    class: ClassId,
    class_file: ClassFile,
    method_index: usize,
    bytecode_index: usize,
    params: Seq<JvmValue>,
) -> bool {
    let m = class_file.methods@[method_index as int];
    let b = m.attributes@[bytecode_index as int]->Code_0;
    let d = cp_utf8(class_file.constant_pool@, m.descriptor_index as int).unwrap();
    &&& f.class == class
    &&& f.method_index == method_index
    &&& f.bytecode_index == bytecode_index
    &&& f.local_variables@ == params + Seq::new(
        (b.max_locals - params.len()) as nat,
        |i: int| JvmValue::Unusable,
    )
    &&& f.operand_stack@ == Seq::<JvmValue>::empty()
    &&& f.program_counter == 0
    &&& f.is_void == (d.len() > 0 && d.last() == 'V')
    &&& f.should_return == FrameReturn::NotReturning
    &&& f.return_value is None
}

impl JvmStackFrame {
    /// A fresh frame for method `method_index` of `class_file` (the class
    /// `class`), running its `Code` attribute at `bytecode_index`: the first
    /// locals hold `params`, the others are unusable until stored to; the
    /// method is void when its descriptor ends with `V`.
    pub fn new(
        class: ClassId,
        class_file: &ClassFile,
        method_index: usize,
        bytecode_index: usize,
        params: Vec<JvmValue>,
    ) -> (res: Self)
        requires
            class_file.wf(),
            method_index < class_file.methods@.len(),
            bytecode_index < class_file.methods@[method_index as int].attributes@.len(),
            class_file.methods@[method_index as int].attributes@[bytecode_index as int] is Code,
            params@.len() <= class_file.methods@[method_index as int].attributes@[bytecode_index as int]->Code_0.max_locals,
            cp_utf8(
                class_file.constant_pool@,
                class_file.methods@[method_index as int].descriptor_index as int,
            ) is Some,
        ensures
            is_fresh_frame(res, class, *class_file, method_index, bytecode_index, params@),
    {
        let method = &class_file.methods[method_index];
        proof {
            assert(valid_cp_index(
                class_file.constant_pool@.len() as int,
                class_file.methods@[method_index as int].name_index,
            ));
        }
        let bytecode = method.get_bytecode(bytecode_index);
        let operand_stack: Vec<JvmValue> = Vec::new();
        let max_locals = bytecode.max_locals as usize;
        let mut local_variables = params;
        let ghost p = local_variables@;
        while local_variables.len() < max_locals
            invariant
                max_locals >= p.len(),
                p.len() <= local_variables@.len() <= max_locals,
                local_variables@.subrange(0, p.len() as int) == p,
                forall|i: int|
                    p.len() <= i < local_variables@.len() ==> local_variables@[i] == JvmValue::Unusable,
            decreases max_locals - local_variables@.len(),
        {
            local_variables.push(JvmValue::Unusable);
        }
        proof {
            assert(local_variables@ =~= p + Seq::new(
                (max_locals - p.len()) as nat,
                |i: int| JvmValue::Unusable,
            ));
        }
        let descriptor = match class_file.constant_pool.get_utf8(method.descriptor_index) {
            Some(d) => d,
            None => vstd::pervasive::unreached(),
        };
        let chars = str_to_chars(descriptor);
        let is_void = chars.len() > 0 && chars[chars.len() - 1] == 'V';
        Self {
            method_index,
            local_variables,
            operand_stack,
            program_counter: 0,
            bytecode_index,
            class,
            is_void,
            should_return: FrameReturn::NotReturning,
            return_value: None,
        }
    }

    pub fn set_exception(&mut self, exception_ref: usize)
        ensures
            final(self).return_value == Some(JvmValue::Reference(Some(exception_ref))),
            final(self).should_return == FrameReturn::Exception,
            final(self).class == old(self).class,
            final(self).method_index == old(self).method_index,
            final(self).bytecode_index == old(self).bytecode_index,
            final(self).local_variables@ == old(self).local_variables@,
            final(self).operand_stack@ == old(self).operand_stack@,
            final(self).program_counter == old(self).program_counter,
            final(self).is_void == old(self).is_void,
    {
        self.return_value = Some(JvmValue::Reference(Some(exception_ref)));
        self.should_return = FrameReturn::Exception;
    }

    pub fn unset_exception(&mut self)
        ensures
            final(self).return_value is None,
            final(self).should_return == FrameReturn::NotReturning,
            final(self).class == old(self).class,
            final(self).method_index == old(self).method_index,
            final(self).bytecode_index == old(self).bytecode_index,
            final(self).local_variables@ == old(self).local_variables@,
            final(self).operand_stack@ == old(self).operand_stack@,
            final(self).program_counter == old(self).program_counter,
            final(self).is_void == old(self).is_void,
    {
        self.return_value = None;
        self.should_return = FrameReturn::NotReturning;
    }
}

/// A thread: its stack of frames, the last one on top.
#[derive(Debug, Clone)]
pub struct JvmThread {
    stack: Vec<JvmStackFrame>,
}

impl View for JvmThread {
    type V = Seq<JvmStackFrame>;

    closed spec fn view(&self) -> Seq<JvmStackFrame> {
        self.stack@
    }
}

impl JvmThread {
    pub fn new() -> (res: Self)
        ensures
            res@ == Seq::<JvmStackFrame>::empty(),
    {
        Self { stack: Vec::new() }
    }

    pub fn len(&self) -> (res: usize)
        ensures
            res == self@.len(),
    {
        self.stack.len()
    }

    pub fn has_frames(&self) -> (res: bool)
        ensures
            res == (self@.len() > 0),
    {
        self.stack.len() != 0
    }

    pub fn push(&mut self, frame: JvmStackFrame)
        ensures
            final(self)@ == old(self)@.push(frame),
    {
        self.stack.push(frame);
    }

    pub fn pop(&mut self) -> (res: Option<JvmStackFrame>)
        ensures
            old(self)@.len() == 0 ==> res is None && final(self)@ == old(self)@,
            old(self)@.len() > 0 ==> res == Some(old(self)@.last()) && final(self)@ == old(
                self,
            )@.drop_last(),
    {
        self.stack.pop()
    }

    pub fn top_frame(&self) -> (res: &JvmStackFrame)
        requires
            self@.len() > 0,
        ensures
            *res == self@.last(),
    {
        &self.stack[self.stack.len() - 1]
    }

    /// The top frame, to change in place.
    pub fn top_frame_mut(&mut self) -> (res: &mut JvmStackFrame)
        requires
            old(self)@.len() > 0,
        ensures
            *res == old(self)@.last(),
            final(self)@ == old(self)@.update(old(self)@.len() - 1, *final(res)),
    {
        let last = self.stack.len() - 1;
        &mut self.stack[last]
    }

    /// Replaces the top frame with `frame`.
    pub fn set_top_frame(&mut self, frame: JvmStackFrame)
        requires
            old(self)@.len() > 0,
        ensures
            final(self)@ == old(self)@.update(old(self)@.len() - 1, frame),
    {
        let last = self.stack.len() - 1;
        self.stack.set(last, frame);
    }

    pub fn insert(&mut self, index: usize, frame: JvmStackFrame)
        requires
            index <= old(self)@.len(),
        ensures
            final(self)@ == old(self)@.insert(index as int, frame),
    {
        self.stack.insert(index, frame);
    }

    pub fn peek_at(&self, index: usize) -> (res: &JvmStackFrame)
        requires
            index < self@.len(),
        ensures
            *res == self@[index as int],
    {
        &self.stack[index]
    }

    /// Replaces the frame at `index` with `frame`.
    pub fn set_frame_at(&mut self, index: usize, frame: JvmStackFrame)
        requires
            index < old(self)@.len(),
        ensures
            final(self)@ == old(self)@.update(index as int, frame),
    {
        self.stack.set(index, frame);
    }

    pub fn get_stack_frames(&self) -> (res: &[JvmStackFrame])
        ensures
            res@ == self@,
    {
        self.stack.as_slice()
    }
}

#[derive(Debug, Clone)]
pub struct FieldInfo {
    pub name: String,
    /// the class that declares the field, whose class file holds its entry
    pub class: ClassId,
    /// the position of the field's entry in that class file
    pub field_class_file_index: usize,
    pub descriptor_type: DescriptorType,
}

#[derive(Debug, Clone)]
pub struct StaticFieldInfo {
    pub name: String,
    pub descriptor_type: DescriptorType,
    /// index into the class file
    pub field_class_file_index: usize,
    pub value: JvmValue,
}

impl JvmError {
    /// The description of the error that is shown to the user.
    pub open spec fn text(&self) -> Seq<char> {
        match self {
            JvmError::ClassParserError { parsed_class, error } => "Parsing error:"@ + error.text() + " for '"@ + parsed_class@ + "'"@,
            JvmError::ClassLoaderError(err) => err@,
            JvmError::MethodNotFound { class_name, method_name } => "Method '"@ + method_name@ + "' not found for '"@ + class_name@ + "'"@,
            JvmError::UnimplementedInstruction(instruction) => "Instruction with code '"@ + decimal_text(instruction as nat) + "' not yet implemented"@,
            JvmError::NoOperandFound => "No operand found"@,
            JvmError::NoLocalVariableFound => "No local variable found"@,
            JvmError::TypeError { expected, found } => "Type error: expected "@ + expected.text() + " found "@ + found.text(),
            JvmError::ProgramCounterOutOfBounds { current_index, bytecode_len } => "Program counter is out of bounds, index is "@ + decimal_text(current_index as nat) + ", bytecode length is "@ + decimal_text(bytecode_len as nat),
            JvmError::MissingReturnValue => "Missing method return value"@,
            JvmError::ClassVerificationError { verified_class, error } => "Verification error:"@ + error.text() + " for '"@ + verified_class@ + "'"@,
            JvmError::InvalidArrayType(array_type) => "Invalid array type '"@ + decimal_text(array_type as nat) + "'"@,
            JvmError::InvalidReference => "Reference points to invalid memory"@,
            JvmError::IncompatibleArrayType => "Incompatible array type"@,
            JvmError::InvalidMethodDescriptor(desc) => "Invalid method descriptor: '"@ + desc@ + "'"@,
            JvmError::InvalidMethodRefIndex(index) => "Invalid method ref index: '"@ + decimal_text(index as nat) + "'"@,
            JvmError::InvalidInterfaceMethodRefIndex(index) => "Invalid interface method ref index: '"@ + decimal_text(index as nat) + "'"@,
            JvmError::InvalidFieldRefIndex(index) => "Invalid field ref index: '"@ + decimal_text(index as nat) + "'"@,
            JvmError::InvalidConstantPoolIndex => "Invalid constant pool index'"@,
            JvmError::InvalidClassIndex(index) => "Invalid class index: '"@ + decimal_text(index as nat) + "'"@,
            JvmError::VirtualMethodError { method_name, method_descriptor } => "Error calling virtual method: "@ + method_name@ + method_descriptor@,
            JvmError::ExpectedNonNativeMethod { method_name, method_descriptor } => "Expected method to not be native: "@ + method_name@ + method_descriptor@,
            JvmError::ExpectedNativeMethod { method_name, method_descriptor } => "Expected method to be native: "@ + method_name@ + method_descriptor@,
            JvmError::ExpectedStaticMethod { method_name, method_descriptor } => "Expected method to be static: "@ + method_name@ + method_descriptor@,
            JvmError::NativeMethodImplementationNotFound { class_name, method_name, method_descriptor } => "Native method implementation not found for: "@ + class_name@ + "."@ + method_name@ + method_descriptor@,
            JvmError::FieldNotFound { class_name, field_name } => "Field not found: "@ + class_name@ + "."@ + field_name@,
            JvmError::StaticFieldNotFound { class_name, field_name } => "Static field not found: "@ + class_name@ + "."@ + field_name@,
            JvmError::ExpectedArray => "Expected array object"@,
            JvmError::ExpectedNonArrayObject => "Expected non-array object"@,
            JvmError::UnhandledException { reference, class_name, fields } => "Unhandled exception: "@ + class_name@ + " (adr. "@ + decimal_text(reference as nat) + ") fields:"@ + values_debug_text(fields@),
            JvmError::InvalidMultidimensionalPrimitiveArrayDimension => "Invalid multi-dimensional primitive array dimension"@,
            JvmError::ExpectedThrowable => "Expected class to be instance of Throwable"@,
        }
    }

    /// The description of the error that is shown to the user.
    pub fn message(&self) -> (res: String)
        ensures
            res@ == self.text(),
    {
        let mut res = String::new();
        match self {
            JvmError::ClassParserError { parsed_class, error } => {
                res.append("Parsing error:");
                res.append(error.message().as_str());
                res.append(" for '");
                res.append(parsed_class.as_str());
                res.append("'");
            },
            JvmError::ClassLoaderError(err) => {
                res.append(err.as_str());
            },
            JvmError::MethodNotFound { class_name, method_name } => {
                res.append("Method '");
                res.append(method_name.as_str());
                res.append("' not found for '");
                res.append(class_name.as_str());
                res.append("'");
            },
            JvmError::UnimplementedInstruction(instruction) => {
                res.append("Instruction with code '");
                append_decimal(&mut res, *instruction as u64);
                res.append("' not yet implemented");
            },
            JvmError::NoOperandFound => {
                res.append("No operand found");
            },
            JvmError::NoLocalVariableFound => {
                res.append("No local variable found");
            },
            JvmError::TypeError { expected, found } => {
                res.append("Type error: expected ");
                res.append(expected.description());
                res.append(" found ");
                res.append(found.description());
            },
            JvmError::ProgramCounterOutOfBounds { current_index, bytecode_len } => {
                res.append("Program counter is out of bounds, index is ");
                append_decimal(&mut res, *current_index as u64);
                res.append(", bytecode length is ");
                append_decimal(&mut res, *bytecode_len as u64);
            },
            JvmError::MissingReturnValue => {
                res.append("Missing method return value");
            },
            JvmError::ClassVerificationError { verified_class, error } => {
                res.append("Verification error:");
                res.append(error.message().as_str());
                res.append(" for '");
                res.append(verified_class.as_str());
                res.append("'");
            },
            JvmError::InvalidArrayType(array_type) => {
                res.append("Invalid array type '");
                append_decimal(&mut res, *array_type as u64);
                res.append("'");
            },
            JvmError::InvalidReference => {
                res.append("Reference points to invalid memory");
            },
            JvmError::IncompatibleArrayType => {
                res.append("Incompatible array type");
            },
            JvmError::InvalidMethodDescriptor(desc) => {
                res.append("Invalid method descriptor: '");
                res.append(desc.as_str());
                res.append("'");
            },
            JvmError::InvalidMethodRefIndex(index) => {
                res.append("Invalid method ref index: '");
                append_decimal(&mut res, *index as u64);
                res.append("'");
            },
            JvmError::InvalidInterfaceMethodRefIndex(index) => {
                res.append("Invalid interface method ref index: '");
                append_decimal(&mut res, *index as u64);
                res.append("'");
            },
            JvmError::InvalidFieldRefIndex(index) => {
                res.append("Invalid field ref index: '");
                append_decimal(&mut res, *index as u64);
                res.append("'");
            },
            JvmError::InvalidConstantPoolIndex => {
                res.append("Invalid constant pool index'");
            },
            JvmError::InvalidClassIndex(index) => {
                res.append("Invalid class index: '");
                append_decimal(&mut res, *index as u64);
                res.append("'");
            },
            JvmError::VirtualMethodError { method_name, method_descriptor } => {
                res.append("Error calling virtual method: ");
                res.append(method_name.as_str());
                res.append(method_descriptor.as_str());
            },
            JvmError::ExpectedNonNativeMethod { method_name, method_descriptor } => {
                res.append("Expected method to not be native: ");
                res.append(method_name.as_str());
                res.append(method_descriptor.as_str());
            },
            JvmError::ExpectedNativeMethod { method_name, method_descriptor } => {
                res.append("Expected method to be native: ");
                res.append(method_name.as_str());
                res.append(method_descriptor.as_str());
            },
            JvmError::ExpectedStaticMethod { method_name, method_descriptor } => {
                res.append("Expected method to be static: ");
                res.append(method_name.as_str());
                res.append(method_descriptor.as_str());
            },
            JvmError::NativeMethodImplementationNotFound { class_name, method_name, method_descriptor } => {
                res.append("Native method implementation not found for: ");
                res.append(class_name.as_str());
                res.append(".");
                res.append(method_name.as_str());
                res.append(method_descriptor.as_str());
            },
            JvmError::FieldNotFound { class_name, field_name } => {
                res.append("Field not found: ");
                res.append(class_name.as_str());
                res.append(".");
                res.append(field_name.as_str());
            },
            JvmError::StaticFieldNotFound { class_name, field_name } => {
                res.append("Static field not found: ");
                res.append(class_name.as_str());
                res.append(".");
                res.append(field_name.as_str());
            },
            JvmError::ExpectedArray => {
                res.append("Expected array object");
            },
            JvmError::ExpectedNonArrayObject => {
                res.append("Expected non-array object");
            },
            JvmError::UnhandledException { reference, class_name, fields } => {
                res.append("Unhandled exception: ");
                res.append(class_name.as_str());
                res.append(" (adr. ");
                append_decimal(&mut res, *reference as u64);
                res.append(") fields:");
                append_values_debug(&mut res, fields);
            },
            JvmError::InvalidMultidimensionalPrimitiveArrayDimension => {
                res.append("Invalid multi-dimensional primitive array dimension");
            },
            JvmError::ExpectedThrowable => {
                res.append("Expected class to be instance of Throwable");
            },
        }
        res
    }
}

/// What a possibly null reference is shown as.
pub open spec fn option_ref_text(r: Option<usize>) -> Seq<char> {
    match r {
        Some(x) => "Some("@ + decimal_text(x as nat) + ")"@,
        None => "None"@,
    }
}

/// What a value is shown as: its kind and its contents.
pub open spec fn value_debug_text(v: JvmValue) -> Seq<char> {
    match v {
        JvmValue::Int(i) => "Int("@ + signed_text(i as int) + ")"@,
        JvmValue::Long(l) => "Long("@ + signed_text(l as int) + ")"@,
        JvmValue::Float(b) => "Float("@ + decimal_text(b as nat) + ")"@,
        JvmValue::Double(b) => "Double("@ + decimal_text(b as nat) + ")"@,
        JvmValue::Reference(r) => "Reference("@ + option_ref_text(r) + ")"@,
        JvmValue::Unusable => "Unusable"@,
    }
}

/// The values shown one after the other, separated by commas.
pub open spec fn values_debug_items(vs: Seq<JvmValue>) -> Seq<char>
    decreases vs.len(),
{
    if vs.len() == 0 {
        Seq::empty()
    } else if vs.len() == 1 {
        value_debug_text(vs[0])
    } else {
        values_debug_items(vs.drop_last()) + ", "@ + value_debug_text(vs.last())
    }
}

/// A list of values as it is shown: in brackets, separated by commas.
pub open spec fn values_debug_text(vs: Seq<JvmValue>) -> Seq<char> {
    "["@ + values_debug_items(vs) + "]"@
}

/// Appends what `v` is shown as to `s`.
fn append_value_debug(s: &mut String, v: JvmValue)
    ensures
        final(s)@ == old(s)@ + value_debug_text(v),
{
    match v {
        JvmValue::Int(i) => {
            s.append("Int(");
            append_signed(s, i as i64);
            s.append(")");
        },
        JvmValue::Long(l) => {
            s.append("Long(");
            append_signed(s, l);
            s.append(")");
        },
        JvmValue::Float(b) => {
            s.append("Float(");
            append_decimal(s, b as u64);
            s.append(")");
        },
        JvmValue::Double(b) => {
            s.append("Double(");
            append_decimal(s, b);
            s.append(")");
        },
        JvmValue::Reference(r) => {
            s.append("Reference(");
            match r {
                Some(x) => {
                    s.append("Some(");
                    append_decimal(s, x as u64);
                    s.append(")");
                },
                None => {
                    s.append("None");
                },
            }
            s.append(")");
        },
        JvmValue::Unusable => {
            s.append("Unusable");
        },
    }
    proof {
        assert(final(s)@ =~= old(s)@ + value_debug_text(v));
    }
}

/// Appends what the list `vs` is shown as to `s`.
fn append_values_debug(s: &mut String, vs: &Vec<JvmValue>)
    ensures
        final(s)@ == old(s)@ + values_debug_text(vs@),
{
    s.append("[");
    let mut i: usize = 0;
    while i < vs.len()
        invariant
            i <= vs@.len(),
            s@ == old(s)@ + "["@ + values_debug_items(vs@.subrange(0, i as int)),
        decreases vs@.len() - i,
    {
        let ghost before = s@;
        if i > 0 {
            s.append(", ");
        }
        append_value_debug(s, vs[i]);
        proof {
            let next = vs@.subrange(0, i + 1);
            assert(next.drop_last() =~= vs@.subrange(0, i as int));
            if i == 0 {
                assert(values_debug_items(vs@.subrange(0, 0)) =~= Seq::<char>::empty());
                assert(s@ =~= old(s)@ + "["@ + values_debug_items(next));
            } else {
                assert(s@ =~= old(s)@ + "["@ + values_debug_items(next));
            }
        }
        i += 1;
    }
    s.append("]");
    proof {
        assert(vs@.subrange(0, vs@.len() as int) =~= vs@);
        assert(s@ =~= old(s)@ + values_debug_text(vs@));
    }
}

} // verus!
