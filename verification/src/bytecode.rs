//! Bytecode: the instruction set and the semantics of each supported instruction.
//!
//! An instruction works on the frame of the method that runs it and on the
//! bytes of that method's code; the program counter stands just behind the
//! opcode when the instruction starts. Where the JVM throws one of its own
//! exceptions, the instruction says so in its result and the interpreter
//! raises it.
use vstd::prelude::*;

use crate::class_file::{ClassFile, cp_class_name, cp_wf, valid_cp_index};
use crate::text::opt_text;
use crate::jvm_model::{
    JvmError, JvmResult, JvmStackFrame, JvmType, JvmValue, type_error, ARRAY_INDEX_OUT_OF_BOUNDS_EXCEPTION_NAME,
    ARRAY_STORE_EXCEPTION_NAME, ILLEGAL_ACCESS_ERROR_NAME, INCOMPATIBLE_CLASS_CHANGE_ERROR_NAME, NEGATIVE_ARRAY_SIZE_EXCEPTION_NAME, NULL_POINTER_EXCEPTION_NAME,
};

pub mod access_check;
pub mod comparisons_instructions;
pub mod constants_instructions;
pub mod control_instructions;
pub mod conversions_instructions;
pub mod extended_instructions;
pub mod instruction_table;
pub mod field_instructions;
pub mod load_instructions;
pub mod stack_instructions;
pub mod store_instructions;
pub mod math_instructions;
pub mod method_descriptor_parser;
pub mod method_instructions;
pub mod references_instructions;
pub mod resolution;

verus! {

// From https://docs.oracle.com/javase/specs/jvms/se7/html/jvms-7.html
pub const NOP: u8 = 0x00;
pub const ACONST_NULL: u8 = 0x1;
pub const ICONST_M1: u8 = 0x2;
pub const ICONST_0: u8 = 0x3;
pub const ICONST_1: u8 = 0x4;
pub const ICONST_2: u8 = 0x5;
pub const ICONST_3: u8 = 0x6;
pub const ICONST_4: u8 = 0x7;
pub const ICONST_5: u8 = 0x8;
pub const BIPUSH: u8 = 0x10;
pub const SIPUSH: u8 = 0x11;
pub const LDC: u8 = 0x12;
pub const LDC_W: u8 = 0x13;
pub const LDC2_W: u8 = 0x14;
pub const ILOAD: u8 = 0x15;
pub const ALOAD: u8 = 0x19;
pub const ILOAD_0: u8 = 0x1a;
pub const ILOAD_1: u8 = 0x1b;
pub const ILOAD_2: u8 = 0x1c;
pub const ILOAD_3: u8 = 0x1d;
pub const ALOAD_0: u8 = 0x2a;
pub const ALOAD_1: u8 = 0x2b;
pub const ALOAD_2: u8 = 0x2c;
pub const ALOAD_3: u8 = 0x2d;
pub const IALOAD: u8 = 0x2e;
pub const CALOAD: u8 = 0x34;
pub const ISTORE: u8 = 0x36;
pub const ASTORE: u8 = 0x3a;
pub const ISTORE_0: u8 = 0x3b;
pub const ISTORE_1: u8 = 0x3c;
pub const ISTORE_2: u8 = 0x3d;
pub const ISTORE_3: u8 = 0x3e;
pub const ASTORE_0: u8 = 0x4b;
pub const ASTORE_1: u8 = 0x4c;
pub const ASTORE_2: u8 = 0x4d;
pub const ASTORE_3: u8 = 0x4e;
pub const IASTORE: u8 = 0x4f;
pub const LASTORE: u8 = 0x50;
pub const AASTORE: u8 = 0x53;
pub const CASTORE: u8 = 0x55;
pub const POP: u8 = 0x57;
pub const DUP: u8 = 0x59;
pub const DUP_X1: u8 = 0x5a;
pub const IADD: u8 = 0x60;
pub const LADD: u8 = 0x61;
pub const ISUB: u8 = 0x64;
pub const IMUL: u8 = 0x68;
pub const IDIV: u8 = 0x6c;
pub const IREM: u8 = 0x70;
pub const INEG: u8 = 0x74;
pub const LSHL: u8 = 0x79;
pub const LAND: u8 = 0x7f;
pub const IINC: u8 = 0x84;
pub const I2L: u8 = 0x85;
pub const I2C: u8 = 0x92;
pub const IFEQ: u8 = 0x99;
pub const IFNE: u8 = 0x9a;
pub const IFLT: u8 = 0x9b;
pub const IFGE: u8 = 0x9c;
pub const IFGT: u8 = 0x9d;
pub const IFLE: u8 = 0x9e;
pub const IF_ICMPEQ: u8 = 0x9f;
pub const IF_ICMPNE: u8 = 0xa0;
pub const IF_ICMPLT: u8 = 0xa1;
pub const IF_ICMPGE: u8 = 0xa2;
pub const IF_ICMPGT: u8 = 0xa3;
pub const IF_ICMPLE: u8 = 0xa4;
pub const GOTO: u8 = 0xa7;
pub const TABLESWITCH: u8 = 0xaa;
pub const LOOKUPSWITCH: u8 = 0xab;
pub const IRETURN: u8 = 0xac;
pub const DRETURN: u8 = 0xaf;
pub const ARETURN: u8 = 0xb0;
pub const RETURN: u8 = 0xb1;
pub const GETSTATIC: u8 = 0xb2;
pub const PUTSTATIC: u8 = 0xb3;
pub const GETFIELD: u8 = 0xb4;
pub const PUTFIELD: u8 = 0xb5;
pub const INVOKEVIRTUAL: u8 = 0xb6;
pub const INVOKESPECIAL: u8 = 0xb7;
pub const INVOKESTATIC: u8 = 0xb8;
pub const INVOKEINTERFACE: u8 = 0xb9;
pub const NEW: u8 = 0xbb;
pub const NEWARRAY: u8 = 0xbc;
pub const ANEWARRAY: u8 = 0xbd;
pub const ARRAYLENGTH: u8 = 0xbe;
pub const ATHROW: u8 = 0xbf;
pub const INSTANCEOF: u8 = 0xc1;
pub const IFNULL: u8 = 0xc6;
pub const IFNONNULL: u8 = 0xc7;

/// An exception that the JVM itself throws while running an instruction.
#[derive(Debug, Clone, Copy, PartialEq, Eq, Structural)]
pub enum JvmException {
    NullPointer,
    ArrayIndexOutOfBounds,
    NegativeArraySize,
    ArrayStore,
    IllegalAccess,
    IncompatibleClassChange,
}

impl JvmException {
    /// The class of the exception.
    pub fn class_name(self) -> (res: &'static str)
        ensures
            res@ == match self {
                JvmException::NullPointer => NULL_POINTER_EXCEPTION_NAME@,
                JvmException::ArrayIndexOutOfBounds => ARRAY_INDEX_OUT_OF_BOUNDS_EXCEPTION_NAME@,
                JvmException::NegativeArraySize => NEGATIVE_ARRAY_SIZE_EXCEPTION_NAME@,
                JvmException::ArrayStore => ARRAY_STORE_EXCEPTION_NAME@,
                JvmException::IllegalAccess => ILLEGAL_ACCESS_ERROR_NAME@,
                JvmException::IncompatibleClassChange => INCOMPATIBLE_CLASS_CHANGE_ERROR_NAME@,
            },
    {
        match self {
            JvmException::NullPointer => NULL_POINTER_EXCEPTION_NAME,
            JvmException::ArrayIndexOutOfBounds => ARRAY_INDEX_OUT_OF_BOUNDS_EXCEPTION_NAME,
            JvmException::NegativeArraySize => NEGATIVE_ARRAY_SIZE_EXCEPTION_NAME,
            JvmException::ArrayStore => ARRAY_STORE_EXCEPTION_NAME,
            JvmException::IllegalAccess => ILLEGAL_ACCESS_ERROR_NAME,
            JvmException::IncompatibleClassChange => INCOMPATIBLE_CLASS_CHANGE_ERROR_NAME,
        }
    }
}

/// What the interpreter does after an instruction that did not fail.
#[derive(Debug, Clone, Copy, PartialEq, Eq, Structural)]
pub enum Step {
    /// Go on with the instruction at the program counter.
    Next,
    /// Throw the exception; the program counter stands just behind the
    /// opcode of the instruction that threw it.
    Throw(JvmException),
}

/// The error of a result, taken out of its box.
pub open spec fn unbox<T>(r: JvmResult<T>) -> Result<T, JvmError> {
    match r {
        Ok(v) => Ok(v),
        Err(e) => Err(*e),
    }
}

/// The operand stack once its top value, if any, is taken off.
pub open spec fn popped(s: Seq<JvmValue>) -> Seq<JvmValue> {
    if s.len() == 0 {
        s
    } else {
        s.drop_last()
    }
}

/// What taking any value off the stack gives.
pub open spec fn spec_pop_any(s: Seq<JvmValue>) -> Result<JvmValue, JvmError> {
    if s.len() == 0 {
        Err(JvmError::NoOperandFound)
    } else {
        Ok(s.last())
    }
}

/// What taking an int off the stack gives.
pub open spec fn spec_pop_int(s: Seq<JvmValue>) -> Result<i32, JvmError> {
    if s.len() == 0 {
        Err(JvmError::NoOperandFound)
    } else if let JvmValue::Int(v) = s.last() {
        Ok(v)
    } else {
        Err(type_error(JvmType::Int, s.last()))
    }
}

/// What taking a long off the stack gives.
pub open spec fn spec_pop_long(s: Seq<JvmValue>) -> Result<i64, JvmError> {
    if s.len() == 0 {
        Err(JvmError::NoOperandFound)
    } else if let JvmValue::Long(v) = s.last() {
        Ok(v)
    } else {
        Err(type_error(JvmType::Long, s.last()))
    }
}

/// What taking a reference off the stack gives.
pub open spec fn spec_pop_reference(s: Seq<JvmValue>) -> Result<Option<usize>, JvmError> {
    if s.len() == 0 {
        Err(JvmError::NoOperandFound)
    } else if let JvmValue::Reference(r) = s.last() {
        Ok(r)
    } else {
        Err(type_error(JvmType::Reference, s.last()))
    }
}

/// No slot of the operand stack holds the filler that follows a long or a
/// double in the local variables.
pub open spec fn stack_usable(f: JvmStackFrame) -> bool {
    forall|i: int| 0 <= i < f.operand_stack@.len() ==> !(#[trigger] f.operand_stack@[i] is Unusable)
}

/// `b` runs the same method as `a`, with the same return state.
pub open spec fn same_activation(a: JvmStackFrame, b: JvmStackFrame) -> bool {
    &&& b.class == a.class
    &&& b.method_index == a.method_index
    &&& b.bytecode_index == a.bytecode_index
    &&& b.is_void == a.is_void
    &&& b.should_return == a.should_return
    &&& b.return_value == a.return_value
}

/// `b` is `a` with at most its operand stack changed.
pub open spec fn only_stack_changed(a: JvmStackFrame, b: JvmStackFrame) -> bool {
    &&& same_activation(a, b)
    &&& b.local_variables@ == a.local_variables@
    &&& b.program_counter == a.program_counter
}

/// `b` is `a` with at most its operand stack and program counter changed.
pub open spec fn only_stack_and_pc_changed(a: JvmStackFrame, b: JvmStackFrame) -> bool {
    &&& same_activation(a, b)
    &&& b.local_variables@ == a.local_variables@
}

/// The byte at the program counter and the one after it, as a big-endian
/// unsigned number.
pub open spec fn spec_u16_at(code: Seq<u8>, pc: int) -> u16 {
    (code[pc] as int * 256 + code[pc + 1] as int) as u16
}

/// A method's code is shorter than 65536 bytes, as the class file format demands.
pub open spec fn code_in_bounds(code: Seq<u8>) -> bool {
    code.len() < 65536
}

/// A branch by a 16-bit offset from anywhere in `code` stays within the
/// range of a signed machine word: a machine limit that no real code comes
/// near.
pub open spec fn branch_in_bounds(code: Seq<u8>) -> bool {
    code.len() <= isize::MAX - 0x8000
}

/// Where a branch goes: `offset` bytes from the opcode, which stands just
/// before `pc`.
pub open spec fn branch_target(pc: usize, offset: i16) -> usize {
    (pc - 1 + offset) as usize
}

/// Takes any value off the operand stack.
pub fn pop_any(frame: &mut JvmStackFrame) -> (res: JvmResult<JvmValue>)
    requires
        stack_usable(*old(frame)),
    ensures
        stack_usable(*final(frame)),
        unbox(res) == spec_pop_any(old(frame).operand_stack@),
        final(frame).operand_stack@ == popped(old(frame).operand_stack@),
        only_stack_changed(*old(frame), *final(frame)),
{
    match frame.operand_stack.pop() {
        Some(value) => Ok(value),
        None => Err(JvmError::NoOperandFound.bx()),
    }
}

/// Takes an int off the operand stack; the value is gone also when it is no int.
pub fn pop_int(frame: &mut JvmStackFrame) -> (res: JvmResult<i32>)
    requires
        stack_usable(*old(frame)),
    ensures
        stack_usable(*final(frame)),
        unbox(res) == spec_pop_int(old(frame).operand_stack@),
        final(frame).operand_stack@ == popped(old(frame).operand_stack@),
        only_stack_changed(*old(frame), *final(frame)),
{
    match frame.operand_stack.pop() {
        Some(a) => expect_int(a),
        None => Err(JvmError::NoOperandFound.bx()),
    }
}

/// Takes a long off the operand stack; the value is gone also when it is no long.
pub fn pop_long(frame: &mut JvmStackFrame) -> (res: JvmResult<i64>)
    requires
        stack_usable(*old(frame)),
    ensures
        stack_usable(*final(frame)),
        unbox(res) == spec_pop_long(old(frame).operand_stack@),
        final(frame).operand_stack@ == popped(old(frame).operand_stack@),
        only_stack_changed(*old(frame), *final(frame)),
{
    match frame.operand_stack.pop() {
        Some(a) => expect_long(a),
        None => Err(JvmError::NoOperandFound.bx()),
    }
}

/// Takes a reference off the operand stack; the value is gone also when it is
/// no reference.
pub fn pop_reference(frame: &mut JvmStackFrame) -> (res: JvmResult<Option<usize>>)
    requires
        stack_usable(*old(frame)),
    ensures
        stack_usable(*final(frame)),
        unbox(res) == spec_pop_reference(old(frame).operand_stack@),
        final(frame).operand_stack@ == popped(old(frame).operand_stack@),
        only_stack_changed(*old(frame), *final(frame)),
{
    match frame.operand_stack.pop() {
        Some(a) => expect_reference(a),
        None => Err(JvmError::NoOperandFound.bx()),
    }
}

/// The int that `value` holds.
pub fn expect_int(value: JvmValue) -> (res: JvmResult<i32>)
    requires
        !(value is Unusable),
    ensures
        unbox(res) == match value {
            JvmValue::Int(v) => Ok(v),
            _ => Err(type_error(JvmType::Int, value)),
        },
{
    match value {
        JvmValue::Int(v) => Ok(v),
        _ => Err(JvmError::TypeError { expected: JvmType::Int, found: value.get_type() }.bx()),
    }
}

/// The long that `value` holds.
pub fn expect_long(value: JvmValue) -> (res: JvmResult<i64>)
    requires
        !(value is Unusable),
    ensures
        unbox(res) == match value {
            JvmValue::Long(v) => Ok(v),
            _ => Err(type_error(JvmType::Long, value)),
        },
{
    match value {
        JvmValue::Long(v) => Ok(v),
        _ => Err(JvmError::TypeError { expected: JvmType::Long, found: value.get_type() }.bx()),
    }
}

/// The bits of the double that `value` holds.
pub fn expect_double(value: JvmValue) -> (res: JvmResult<u64>)
    requires
        !(value is Unusable),
    ensures
        unbox(res) == match value {
            JvmValue::Double(v) => Ok(v),
            _ => Err(type_error(JvmType::Double, value)),
        },
{
    match value {
        JvmValue::Double(v) => Ok(v),
        _ => Err(JvmError::TypeError { expected: JvmType::Double, found: value.get_type() }.bx()),
    }
}

/// The bits of the float that `value` holds.
pub fn expect_float(value: JvmValue) -> (res: JvmResult<u32>)
    requires
        !(value is Unusable),
    ensures
        unbox(res) == match value {
            JvmValue::Float(v) => Ok(v),
            _ => Err(type_error(JvmType::Float, value)),
        },
{
    match value {
        JvmValue::Float(v) => Ok(v),
        _ => Err(JvmError::TypeError { expected: JvmType::Float, found: value.get_type() }.bx()),
    }
}

/// The reference that `value` holds.
pub fn expect_reference(value: JvmValue) -> (res: JvmResult<Option<usize>>)
    requires
        !(value is Unusable),
    ensures
        unbox(res) == match value {
            JvmValue::Reference(r) => Ok(r),
            _ => Err(type_error(JvmType::Reference, value)),
        },
{
    match value {
        JvmValue::Reference(r) => Ok(r),
        _ => Err(
            JvmError::TypeError { expected: JvmType::Reference, found: value.get_type() }.bx(),
        ),
    }
}

/// Reads the byte at the program counter and moves past it.
pub fn read_u8_from_bytecode(frame: &mut JvmStackFrame, code: &[u8]) -> (res: u8)
    requires
        old(frame).program_counter < code@.len(),
    ensures
        res == code@[old(frame).program_counter as int],
        final(frame).program_counter == old(frame).program_counter + 1,
        same_activation(*old(frame), *final(frame)),
        final(frame).local_variables@ == old(frame).local_variables@,
        final(frame).operand_stack@ == old(frame).operand_stack@,
{
    let value = code[frame.program_counter];
    frame.program_counter = frame.program_counter + 1;
    value
}

/// Reads the two bytes at the program counter as a big-endian unsigned
/// number and moves past them.
pub fn read_u16_from_bytecode(frame: &mut JvmStackFrame, code: &[u8]) -> (res: u16)
    requires
        old(frame).program_counter + 2 <= code@.len(),
    ensures
        res == spec_u16_at(code@, old(frame).program_counter as int),
        final(frame).program_counter == old(frame).program_counter + 2,
        same_activation(*old(frame), *final(frame)),
        final(frame).local_variables@ == old(frame).local_variables@,
        final(frame).operand_stack@ == old(frame).operand_stack@,
{
    let byte1 = code[frame.program_counter] as u16;
    frame.program_counter = frame.program_counter + 1;
    let byte2 = code[frame.program_counter] as u16;
    frame.program_counter = frame.program_counter + 1;
    proof {
        assert((byte1 << 8u16) | byte2 == byte1 * 256 + byte2) by (bit_vector)
            requires
                byte1 < 256,
                byte2 < 256,
        ;
    }
    (byte1 << 8) | byte2
}

/// Reads the two bytes at the program counter as a big-endian signed
/// number and moves past them.
pub fn read_i16_from_bytecode(frame: &mut JvmStackFrame, code: &[u8]) -> (res: i16)
    requires
        old(frame).program_counter + 2 <= code@.len(),
    ensures
        res == spec_u16_at(code@, old(frame).program_counter as int) as i16,
        final(frame).program_counter == old(frame).program_counter + 2,
        same_activation(*old(frame), *final(frame)),
        final(frame).local_variables@ == old(frame).local_variables@,
        final(frame).operand_stack@ == old(frame).operand_stack@,
{
    read_u16_from_bytecode(frame, code) as i16
}

/// A constant pool index taken from the code: zero names no constant.
pub fn validate_cp_index(unvalidated_cp_index: u16) -> (res: JvmResult<usize>)
    ensures
        unbox(res) == if unvalidated_cp_index == 0 {
            Err(JvmError::InvalidConstantPoolIndex)
        } else {
            Ok(unvalidated_cp_index as usize)
        },
{
    if unvalidated_cp_index == 0 {
        Err(JvmError::InvalidConstantPoolIndex.bx())
    } else {
        Ok(unvalidated_cp_index as usize)
    }
}

/// The name of the class that the constant at `type_index` of
/// `class_file`'s constant pool names.
pub fn read_class_type(class_file: &ClassFile, type_index: usize) -> (res: JvmResult<&str>)
    requires
        cp_wf(class_file.constant_pool@),
        valid_cp_index(class_file.constant_pool@.len() as int, type_index),
    ensures
        match cp_class_name(class_file.constant_pool@, type_index as int) {
            Some(n) => res matches Ok(t) && t@ == n,
            None => res matches Err(e) && *e == JvmError::InvalidClassIndex(type_index),
        },
{
    match class_file.constant_pool.get_class_name(type_index) {
        Some(name) => Ok(name),
        None => Err(JvmError::InvalidClassIndex(type_index).bx()),
    }
}

} // verus!
