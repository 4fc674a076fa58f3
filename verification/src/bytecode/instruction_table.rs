//! The instruction table: which instruction each opcode runs, for the
//! instructions that work on the frame, the code and the heap alone.
use vstd::prelude::*;

use crate::bytecode::comparisons_instructions::{
    if_compare_equals_instruction, if_compare_greater_than_instruction,
    if_compare_greater_than_or_equals_instruction, if_compare_less_than_instruction,
    if_compare_less_than_or_equals_instruction, if_compare_not_equals_instruction, if_equals_instruction,
    if_greater_than_instruction, if_greater_than_or_equals_instruction, if_less_than_instruction,
    if_less_than_or_equals_instruction, if_not_equals_instruction,
};
use crate::bytecode::constants_instructions::{
    bipush_instruction, integer_const_instruction, ldc2w_instruction, nop_instruction, null_const_instruction,
    sipush_instruction,
};
use crate::bytecode::control_instructions::{
    double_return_instruction, goto_instruction, integer_return_instruction, object_return_instruction,
    return_instruction,
};
use crate::bytecode::conversions_instructions::int_to_long_instruction;
use crate::bytecode::extended_instructions::{if_not_null_instruction, if_null_instruction};
use crate::bytecode::load_instructions::{
    integer_load, integer_load_n, local_usable, reference_load_instruction, reference_load_n,
};
use crate::bytecode::math_instructions::{
    int_division_defined, integer_add_instruction, integer_divide_instruction, integer_muliply_instruction,
    integer_negate_instruction, integer_remainder_instruction, integer_subtract_instruction, long_add_instruction,
    long_and_instruction, shift_left_long_instruction, increment_instruction,
};
use crate::bytecode::stack_instructions::{dup_instruction, dup_x1_instruction, pop_instruction};
use crate::bytecode::store_instructions::{
    store_integer_instruction, store_integer_n_instruction, store_reference_instruction,
    store_reference_n_instruction, store_value,
};
use crate::bytecode::{
    spec_pop_int, popped, spec_u16_at, stack_usable, ACONST_NULL, ALOAD, ALOAD_0, ALOAD_1, ALOAD_2, ALOAD_3,
    ARETURN, ASTORE, ASTORE_0, ASTORE_1, ASTORE_2, ASTORE_3, BIPUSH, DRETURN, DUP, DUP_X1, GOTO, I2L, IADD, ICONST_0,
    ICONST_1, ICONST_2, ICONST_3, ICONST_4, ICONST_5, ICONST_M1, IDIV, IFEQ, IFGE, IFGT, IFLE, IFLT, IFNE, IFNONNULL,
    IFNULL, IF_ICMPEQ, IF_ICMPGE, IF_ICMPGT, IF_ICMPLE, IF_ICMPLT, IF_ICMPNE, IINC, ILOAD, ILOAD_0, ILOAD_1, ILOAD_2,
    ILOAD_3, IMUL, INEG, IREM, IRETURN, ISTORE, ISTORE_0, ISTORE_1, ISTORE_2, ISTORE_3, ISUB, LADD, LAND, LDC2_W,
    LSHL, NOP, POP, RETURN, SIPUSH,
};
use crate::bytecode::load_instructions::{load_character_array_instruction, load_integer_array_instruction};
use crate::bytecode::references_instructions::{array_length_instruction, new_array_instruction};
use crate::bytecode::store_instructions::{
    store_character_array_instruction, store_integer_array_instruction, store_long_array_instruction,
};
use crate::bytecode::{JvmException, Step, AASTORE, ANEWARRAY, ATHROW, GETFIELD, GETSTATIC, INSTANCEOF, INVOKEINTERFACE, INVOKESPECIAL, INVOKESTATIC, INVOKEVIRTUAL, LDC, NEW, PUTFIELD, PUTSTATIC, ARRAYLENGTH, CALOAD, CASTORE, IALOAD, IASTORE, LASTORE, NEWARRAY};
use crate::bytecode::comparisons_instructions::{IntCondition, compare_branch_result, zero_branch_result};
use crate::bytecode::constants_instructions::wide_constant;
use crate::bytecode::control_instructions::{ReturnKind, return_result};
use crate::bytecode::conversions_instructions::int_conversion_step;
use crate::bytecode::extended_instructions::null_branch_result;
use crate::bytecode::load_instructions::{array_load_step, local_load};
use crate::bytecode::math_instructions::{
    IntOp, LongOp, increment_step, int_binary_step, int_negate_step, long_binary_step, long_shift_step,
};
use crate::bytecode::references_instructions::{array_length_step, new_array_result};
use crate::bytecode::store_instructions::{ArrayStoreKind, array_store_result};
use crate::bytecode::{branch_target, only_stack_and_pc_changed, only_stack_changed, same_activation, unbox};
use crate::class_file::ConstantValueV;
use crate::jvm_model::{FrameReturn, JvmError};
use crate::class_file::ConstantPool;
use crate::jvm_heap::{JvmHeap, live, objects_kept, values_live};
use crate::jvm_model::{HeapObject, JvmResult, JvmStackFrame, JvmValue};

verus! {

/// What the table did with an opcode.
#[derive(Debug, Clone, Copy, PartialEq, Eq, Structural)]
pub enum Dispatch {
    /// The instruction ran (its own result says whether it failed).
    Done,
    /// The instruction throws this exception; the program counter stands
    /// just behind the opcode.
    Threw(JvmException),
    /// The instruction needs the loaded classes or the caches: the
    /// interpreter handles it.
    Runtime,
    /// The frame does not let the instruction run: an operand past the end
    /// of the code, an unset local variable, a store to a local that does
    /// not exist, an integer division by zero or of the least int by -1,
    /// `dup_x1` on a single value, or a branch in code so long that its
    /// target would leave the range of a machine word.
    Refused,
}

/// The instructions that end the method.
pub open spec fn is_return(instruction: u8) -> bool {
    instruction == IRETURN || instruction == DRETURN || instruction == ARETURN || instruction == RETURN
}

/// `b` runs the same method as `a`.
pub open spec fn same_method(a: JvmStackFrame, b: JvmStackFrame) -> bool {
    &&& b.class == a.class
    &&& b.method_index == a.method_index
    &&& b.bytecode_index == a.bytecode_index
    &&& b.is_void == a.is_void
}

/// Frame `f` holds a reference to slot `r` on its operand stack or in a
/// local variable.
pub open spec fn holds_ref(f: JvmStackFrame, r: usize) -> bool {
    ||| exists|i: int| 0 <= i < f.operand_stack@.len() && #[trigger] f.operand_stack@[i] == JvmValue::Reference(Some(r))
    ||| exists|i: int|
        0 <= i < f.local_variables@.len() && #[trigger] f.local_variables@[i] == JvmValue::Reference(Some(r))
}

/// Every reference that `b` holds, `a` held already.
pub open spec fn no_new_refs(a: JvmStackFrame, b: JvmStackFrame) -> bool {
    forall|r: usize| #[trigger] holds_ref(b, r) ==> holds_ref(a, r)
}

/// Every reference on the operand stack or in a local variable of `f`
/// names an object of the heap `slots`.
pub open spec fn frame_live(f: JvmStackFrame, slots: Seq<Option<HeapObject>>) -> bool {
    &&& values_live(f.operand_stack@, slots)
    &&& values_live(f.local_variables@, slots)
}

/// A frame that holds no reference that a frame with live references did
/// not hold has live references too.
proof fn lemma_live_without_new_refs(a: JvmStackFrame, b: JvmStackFrame, slots: Seq<Option<HeapObject>>)
    requires
        frame_live(a, slots),
        no_new_refs(a, b),
    ensures
        frame_live(b, slots),
{
    assert forall|i: int| 0 <= i < b.operand_stack@.len() implies (#[trigger] b.operand_stack@[i] matches JvmValue::Reference(
        Some(r),
    ) ==> live(slots, r)) by {
        if let JvmValue::Reference(Some(r)) = b.operand_stack@[i] {
            assert(holds_ref(b, r));
            lemma_held_is_live(a, slots, r);
        }
    }
    assert forall|i: int| 0 <= i < b.local_variables@.len() implies (#[trigger] b.local_variables@[i] matches JvmValue::Reference(
        Some(r),
    ) ==> live(slots, r)) by {
        if let JvmValue::Reference(Some(r)) = b.local_variables@[i] {
            assert(holds_ref(b, r));
            lemma_held_is_live(a, slots, r);
        }
    }
}

/// A reference that a frame with live references holds is live.
proof fn lemma_held_is_live(a: JvmStackFrame, slots: Seq<Option<HeapObject>>, r: usize)
    requires
        frame_live(a, slots),
        holds_ref(a, r),
    ensures
        live(slots, r),
{
    if exists|i: int| 0 <= i < a.operand_stack@.len() && #[trigger] a.operand_stack@[i] == JvmValue::Reference(Some(r)) {
        let i = choose|i: int| 0 <= i < a.operand_stack@.len() && #[trigger] a.operand_stack@[i] == JvmValue::Reference(Some(r));
        assert(a.operand_stack@[i] matches JvmValue::Reference(Some(x)) ==> live(slots, x));
    } else {
        let i = choose|i: int|
            0 <= i < a.local_variables@.len() && #[trigger] a.local_variables@[i] == JvmValue::Reference(Some(r));
        assert(a.local_variables@[i] matches JvmValue::Reference(Some(x)) ==> live(slots, x));
    }
}

/// Values whose references were live stay live while no object is freed.
proof fn lemma_live_kept(v: Seq<JvmValue>, a: Seq<Option<HeapObject>>, b: Seq<Option<HeapObject>>)
    requires
        values_live(v, a),
        objects_kept(a, b),
    ensures
        values_live(v, b),
{
    assert forall|i: int| 0 <= i < v.len() implies (#[trigger] v[i] matches JvmValue::Reference(Some(r)) ==> live(b, r)) by {
        if let JvmValue::Reference(Some(r)) = v[i] {
            assert(live(a, r));
        }
    }
}

/// Whether the values of `values` are no fillers (when `usable` is asked
/// for) and their references name objects of `heap`.
fn values_checked(values: &Vec<JvmValue>, heap: &JvmHeap, usable: bool) -> (res: bool)
    ensures
        res == ((usable ==> forall|i: int| 0 <= i < values@.len() ==> !(#[trigger] values@[i] is Unusable))
            && values_live(values@, heap@)),
{
    let mut i: usize = 0;
    while i < values.len()
        invariant
            i <= values@.len(),
            usable ==> forall|j: int| 0 <= j < i ==> !(#[trigger] values@[j] is Unusable),
            forall|j: int| 0 <= j < i ==> (#[trigger] values@[j] matches JvmValue::Reference(Some(r)) ==> live(heap@, r)),
        decreases values@.len() - i,
    {
        match values[i] {
            JvmValue::Unusable => {
                if usable {
                    return false;
                }
            },
            JvmValue::Reference(Some(r)) => {
                if !heap.is_live(r) {
                    return false;
                }
            },
            _ => {},
        }
        i += 1;
    }
    true
}

/// Whether `frame` may run an instruction on `heap`: its operand stack
/// holds no filler, and every reference on it names an object of the heap.
pub fn frame_ready(frame: &JvmStackFrame, heap: &JvmHeap) -> (res: bool)
    ensures
        res == (stack_usable(*frame) && frame_live(*frame, heap@)),
{
    values_checked(&frame.operand_stack, heap, true) && values_checked(&frame.local_variables, heap, false)
}

/// Whether local `index` can be loaded.
fn loadable(frame: &JvmStackFrame, index: usize) -> (res: bool)
    ensures
        res == local_usable(frame.local_variables@, index as int),
{
    if index < frame.local_variables.len() {
        match frame.local_variables[index] {
            JvmValue::Unusable => false,
            _ => true,
        }
    } else {
        true
    }
}

/// Whether a store of an int (`reference` false) or a reference to local
/// `index` stays within the locals.
fn storable(frame: &JvmStackFrame, index: usize, reference: bool) -> (res: bool)
    ensures
        res == (store_value(frame.operand_stack@, reference) is Ok ==> index < frame.local_variables@.len()),
{
    if index < frame.local_variables.len() {
        return true;
    }
    let n = frame.operand_stack.len();
    if n == 0 {
        return true;
    }
    match frame.operand_stack[n - 1] {
        JvmValue::Int(_) => reference,
        JvmValue::Reference(_) => !reference,
        _ => true,
    }
}

/// Whether the two ints on top of the stack, where they are ints, can be
/// divided.
fn divisible(frame: &JvmStackFrame) -> (res: bool)
    ensures
        res == int_division_defined(frame.operand_stack@),
{
    let n = frame.operand_stack.len();
    if n < 2 {
        return true;
    }
    let ghost s = frame.operand_stack@;
    proof {
        assert(popped(s).last() == s[n - 2]);
        assert(popped(s).len() == n - 1);
    }
    match (frame.operand_stack[n - 2], frame.operand_stack[n - 1]) {
        (JvmValue::Int(a), JvmValue::Int(b)) => b != 0 && !(a == i32::MIN && b == -1),
        _ => true,
    }
}

/// The instructions that the table runs with the heap: the int and char
/// array loads and stores, the long array store, `arraylength` and
/// `newarray`.
pub open spec fn is_heap_instruction(instruction: u8) -> bool {
    ||| instruction == IALOAD
    ||| instruction == CALOAD
    ||| instruction == ARRAYLENGTH
    ||| instruction == IASTORE
    ||| instruction == LASTORE
    ||| instruction == CASTORE
    ||| instruction == NEWARRAY
}

/// The branching instructions: `if<cond>`, `if_icmp<cond>`, `goto`,
/// `ifnull` and `ifnonnull`.
pub open spec fn is_branch(instruction: u8) -> bool {
    ||| IFEQ <= instruction <= IF_ICMPLE
    ||| instruction == GOTO
    ||| instruction == IFNULL
    ||| instruction == IFNONNULL
}

/// The instructions that the table runs on the frame alone.
pub open spec fn is_frame_instruction(instruction: u8) -> bool {
    ||| instruction == NOP
    ||| instruction == ACONST_NULL
    ||| ICONST_M1 <= instruction <= ICONST_5
    ||| instruction == BIPUSH
    ||| instruction == SIPUSH
    ||| instruction == LDC2_W
    ||| instruction == ILOAD
    ||| instruction == ALOAD
    ||| ILOAD_0 <= instruction <= ILOAD_3
    ||| ALOAD_0 <= instruction <= ALOAD_3
    ||| instruction == ISTORE
    ||| instruction == ASTORE
    ||| ISTORE_0 <= instruction <= ISTORE_3
    ||| ASTORE_0 <= instruction <= ASTORE_3
    ||| instruction == POP
    ||| instruction == DUP
    ||| instruction == DUP_X1
    ||| instruction == IADD
    ||| instruction == LADD
    ||| instruction == ISUB
    ||| instruction == IMUL
    ||| instruction == INEG
    ||| instruction == LSHL
    ||| instruction == LAND
    ||| instruction == IDIV
    ||| instruction == IREM
    ||| instruction == IINC
    ||| instruction == I2L
    ||| is_branch(instruction)
    ||| is_return(instruction)
}

/// The instructions that need the loaded classes or the caches: `ldc`,
/// `aastore`, the field and invoke instructions, `new`, `anewarray`,
/// `athrow` and `instanceof`.
pub open spec fn is_runtime_instruction(instruction: u8) -> bool {
    ||| instruction == LDC
    ||| instruction == AASTORE
    ||| GETSTATIC <= instruction <= INVOKEINTERFACE
    ||| instruction == NEW
    ||| instruction == ANEWARRAY
    ||| instruction == ATHROW
    ||| instruction == INSTANCEOF
}

/// The instructions that the table runs itself.
pub open spec fn in_table(instruction: u8) -> bool {
    is_frame_instruction(instruction) || is_heap_instruction(instruction)
}

/// The frame `f`, whose code is `code` and whose constant pool has
/// `pool_len` entries, does not let `instruction` run (see
/// `Dispatch::Refused`).
pub open spec fn refused(instruction: u8, code: Seq<u8>, pool_len: int, f: JvmStackFrame) -> bool {
    let pc = f.program_counter as int;
    let s = f.operand_stack@;
    let l = f.local_variables@;
    if instruction == BIPUSH || instruction == NEWARRAY {
        pc >= code.len()
    } else if instruction == SIPUSH {
        pc + 2 > code.len()
    } else if instruction == LDC2_W {
        pc + 2 > code.len() || spec_u16_at(code, pc) >= pool_len
    } else if instruction == ILOAD || instruction == ALOAD {
        pc >= code.len() || !local_usable(l, code[pc] as int)
    } else if ILOAD_0 <= instruction <= ILOAD_3 {
        !local_usable(l, instruction - ILOAD_0)
    } else if ALOAD_0 <= instruction <= ALOAD_3 {
        !local_usable(l, instruction - ALOAD_0)
    } else if instruction == ISTORE || instruction == ASTORE {
        pc >= code.len() || (store_value(s, instruction == ASTORE) is Ok && code[pc] >= l.len())
    } else if ISTORE_0 <= instruction <= ISTORE_3 {
        store_value(s, false) is Ok && instruction - ISTORE_0 >= l.len()
    } else if ASTORE_0 <= instruction <= ASTORE_3 {
        store_value(s, true) is Ok && instruction - ASTORE_0 >= l.len()
    } else if instruction == DUP_X1 {
        s.len() == 1
    } else if instruction == IDIV || instruction == IREM {
        !int_division_defined(s)
    } else if instruction == IINC {
        pc + 2 > code.len() || !local_usable(l, code[pc] as int)
    } else if is_branch(instruction) {
        pc + 2 > code.len() || code.len() > isize::MAX - 0x8000
    } else {
        false
    }
}

/// The outcome of an instruction that ends normally or fails, as the table
/// reports it.
pub open spec fn unit_of(res: Result<Dispatch, JvmError>) -> Result<(), JvmError> {
    match res {
        Ok(_) => Ok(()),
        Err(e) => Err(e),
    }
}

/// The outcome of an instruction that may throw, as the table reports it.
pub open spec fn step_of(res: Result<Dispatch, JvmError>) -> Result<Step, JvmError> {
    match res {
        Ok(Dispatch::Threw(e)) => Ok(Step::Throw(e)),
        Ok(_) => Ok(Step::Next),
        Err(e) => Err(e),
    }
}

/// `a` is `b` with `v` pushed and nothing else changed.
pub open spec fn pushes(b: JvmStackFrame, a: JvmStackFrame, v: JvmValue) -> bool {
    a.operand_stack@ == b.operand_stack@.push(v) && only_stack_changed(b, a)
}

/// `a` is `b` once local `index` has been loaded onto the stack (an int or
/// a reference), with the outcome `res`.
pub open spec fn loads(b: JvmStackFrame, a: JvmStackFrame, index: int, reference: bool, res: Result<(), JvmError>) -> bool {
    let l = local_load(b.local_variables@, index, reference);
    &&& res == match l {
        Ok(_) => Ok(()),
        Err(e) => Err(e),
    }
    &&& a.operand_stack@ == match l {
        Ok(v) => b.operand_stack@.push(v),
        Err(_) => b.operand_stack@,
    }
    &&& only_stack_and_pc_changed(b, a)
}

/// `a` is `b` once the top of the stack has been stored into local `index`
/// (an int or a reference), with the outcome `res`.
pub open spec fn stores(b: JvmStackFrame, a: JvmStackFrame, index: int, reference: bool, res: Result<(), JvmError>) -> bool {
    let v = store_value(b.operand_stack@, reference);
    &&& same_activation(b, a)
    &&& a.operand_stack@ == popped(b.operand_stack@)
    &&& res == match v {
        Ok(_) => Ok(()),
        Err(e) => Err(e),
    }
    &&& a.local_variables@ == match v {
        Ok(x) => b.local_variables@.update(index, x),
        Err(_) => b.local_variables@,
    }
}

/// The comparison of a conditional branch on ints.
pub open spec fn branch_condition(instruction: u8) -> IntCondition {
    if instruction == IFEQ || instruction == IF_ICMPEQ {
        IntCondition::Equals
    } else if instruction == IFNE || instruction == IF_ICMPNE {
        IntCondition::NotEquals
    } else if instruction == IFLT || instruction == IF_ICMPLT {
        IntCondition::LessThan
    } else if instruction == IFGE || instruction == IF_ICMPGE {
        IntCondition::GreaterThanOrEquals
    } else if instruction == IFGT || instruction == IF_ICMPGT {
        IntCondition::GreaterThan
    } else {
        IntCondition::LessThanOrEquals
    }
}

/// What `instruction`, one that works on the frame alone, does to the frame
/// `b`, whose code is `code` and whose constant pool is `pool`: it becomes
/// `a`, with the outcome `res`.
pub open spec fn frame_instruction_ran(
    instruction: u8,
    code: Seq<u8>,
    pool: Seq<ConstantValueV>,
    b: JvmStackFrame,
    a: JvmStackFrame,
    res: Result<(), JvmError>,
) -> bool {
    let pc = b.program_counter;
    let s = b.operand_stack@;
    if instruction == NOP {
        a == b && res is Ok
    } else if instruction == ACONST_NULL {
        pushes(b, a, JvmValue::Reference(None)) && res is Ok
    } else if ICONST_M1 <= instruction <= ICONST_5 {
        pushes(b, a, JvmValue::Int((instruction - ICONST_0) as i32)) && res is Ok
    } else if instruction == BIPUSH {
        &&& a.operand_stack@ == s.push(JvmValue::Int(code[pc as int] as i8 as i32))
        &&& a.program_counter == pc + 1
        &&& only_stack_and_pc_changed(b, a)
        &&& res is Ok
    } else if instruction == SIPUSH {
        &&& a.operand_stack@ == s.push(JvmValue::Int(spec_u16_at(code, pc as int) as i16 as i32))
        &&& a.program_counter == pc + 2
        &&& only_stack_and_pc_changed(b, a)
        &&& res is Ok
    } else if instruction == LDC2_W {
        let index = spec_u16_at(code, pc as int);
        let outcome = if index == 0 {
            Err(JvmError::InvalidConstantPoolIndex)
        } else {
            wide_constant(pool[index as int])
        };
        &&& res == match outcome {
            Ok(_) => Ok(()),
            Err(e) => Err(e),
        }
        &&& a.operand_stack@ == match outcome {
            Ok(v) => s.push(v),
            Err(_) => s,
        }
        &&& a.program_counter == pc + 2
        &&& only_stack_and_pc_changed(b, a)
    } else if instruction == ILOAD || instruction == ALOAD {
        loads(b, a, code[pc as int] as int, instruction == ALOAD, res) && a.program_counter == pc + 1
    } else if ILOAD_0 <= instruction <= ILOAD_3 {
        loads(b, a, instruction - ILOAD_0, false, res) && a.program_counter == pc
    } else if ALOAD_0 <= instruction <= ALOAD_3 {
        loads(b, a, instruction - ALOAD_0, true, res) && a.program_counter == pc
    } else if instruction == ISTORE || instruction == ASTORE {
        stores(b, a, code[pc as int] as int, instruction == ASTORE, res) && a.program_counter == pc + 1
    } else if ISTORE_0 <= instruction <= ISTORE_3 {
        stores(b, a, instruction - ISTORE_0, false, res) && a.program_counter == pc
    } else if ASTORE_0 <= instruction <= ASTORE_3 {
        stores(b, a, instruction - ASTORE_0, true, res) && a.program_counter == pc
    } else if instruction == POP {
        a.operand_stack@ == popped(s) && only_stack_changed(b, a) && res is Ok
    } else if instruction == DUP || instruction == DUP_X1 {
        &&& only_stack_changed(b, a)
        &&& s.len() == 0 ==> res == Err::<(), _>(JvmError::NoOperandFound) && a.operand_stack@ == s
        &&& s.len() > 0 ==> res is Ok && a.operand_stack@ == if instruction == DUP {
            s.push(s.last())
        } else {
            s.insert(s.len() - 2, s.last())
        }
    } else if instruction == IADD || instruction == ISUB || instruction == IMUL || instruction == IDIV
        || instruction == IREM {
        let op = if instruction == IADD {
            IntOp::Add
        } else if instruction == ISUB {
            IntOp::Sub
        } else if instruction == IMUL {
            IntOp::Mul
        } else if instruction == IDIV {
            IntOp::Div
        } else {
            IntOp::Rem
        };
        (res, a.operand_stack@) == int_binary_step(s, op) && only_stack_changed(b, a)
    } else if instruction == LADD || instruction == LAND {
        let op = if instruction == LADD {
            LongOp::Add
        } else {
            LongOp::And
        };
        (res, a.operand_stack@) == long_binary_step(s, op) && only_stack_changed(b, a)
    } else if instruction == INEG {
        (res, a.operand_stack@) == int_negate_step(s) && only_stack_changed(b, a)
    } else if instruction == LSHL {
        (res, a.operand_stack@) == long_shift_step(s) && only_stack_changed(b, a)
    } else if instruction == I2L {
        (res, a.operand_stack@) == int_conversion_step(s, true) && only_stack_changed(b, a)
    } else if instruction == IINC {
        let step = increment_step(b.local_variables@, code[pc as int] as int, code[pc + 1] as i8);
        &&& res == match step {
            Ok(_) => Ok(()),
            Err(e) => Err(e),
        }
        &&& a.local_variables@ == match step {
            Ok(l) => l,
            Err(_) => b.local_variables@,
        }
        &&& a.program_counter == pc + 2
        &&& a.operand_stack@ == s
        &&& same_activation(b, a)
    } else if is_branch(instruction) {
        &&& only_stack_and_pc_changed(b, a)
        &&& if instruction == GOTO {
            res is Ok && a.operand_stack@ == s && a.program_counter == branch_target(
                pc,
                spec_u16_at(code, pc as int) as i16,
            )
        } else if instruction == IFNULL || instruction == IFNONNULL {
            null_branch_result(s, pc, code, instruction == IFNULL, res, a.operand_stack@, a.program_counter)
        } else if instruction <= IFLE {
            zero_branch_result(s, pc, code, branch_condition(instruction), res, a.operand_stack@, a.program_counter)
        } else {
            compare_branch_result(s, pc, code, branch_condition(instruction), res, a.operand_stack@, a.program_counter)
        }
    } else if instruction == IRETURN || instruction == DRETURN || instruction == ARETURN {
        let kind = if instruction == IRETURN {
            ReturnKind::Int
        } else if instruction == DRETURN {
            ReturnKind::Double
        } else {
            ReturnKind::Reference
        };
        return_result(b, a, kind, res)
    } else {
        &&& res is Ok
        &&& a.should_return == FrameReturn::Returning
        &&& a.return_value == b.return_value
        &&& a.operand_stack@ == s
        &&& a.local_variables@ == b.local_variables@
        &&& a.program_counter == pc
        &&& same_method(b, a)
    }
}

/// What `instruction`, one that works with the heap, does to the frame `b`
/// (which becomes `a`) and the heap `hb` (which becomes `ha`), with the
/// outcome `res`.
pub open spec fn heap_instruction_ran(
    instruction: u8,
    code: Seq<u8>,
    b: JvmStackFrame,
    a: JvmStackFrame,
    hb: JvmHeap,
    ha: JvmHeap,
    res: Result<Step, JvmError>,
) -> bool {
    let s = b.operand_stack@;
    if instruction == IALOAD || instruction == CALOAD || instruction == ARRAYLENGTH {
        &&& ha == hb
        &&& only_stack_changed(b, a)
        &&& (res, a.operand_stack@) == if instruction == ARRAYLENGTH {
            array_length_step(s, hb@)
        } else {
            array_load_step(s, hb@, instruction == CALOAD)
        }
    } else if instruction == NEWARRAY {
        new_array_result(code, b, a, hb, ha, res) && only_stack_and_pc_changed(b, a)
    } else {
        let kind = if instruction == IASTORE {
            ArrayStoreKind::Int
        } else if instruction == LASTORE {
            ArrayStoreKind::Long
        } else {
            ArrayStoreKind::Character
        };
        &&& array_store_result(b, a, hb@, ha@, kind, res)
        &&& only_stack_changed(b, a)
        &&& ha.free_list() == hb.free_list()
        &&& ha.allocations() == hb.allocations()
    }
}

/// What the table does with `instruction` on the frame `b`, whose code is
/// `code` and whose constant pool is `pool`, and the heap `hb`: an
/// instruction that needs the classes is left to the interpreter, one that the
/// frame does not let run is refused, and any other runs, making the frame
/// `a` and the heap `ha`, with the outcome `res`; an opcode that neither
/// knows is an error.
pub open spec fn dispatched(
    instruction: u8,
    code: Seq<u8>,
    pool: Seq<ConstantValueV>,
    b: JvmStackFrame,
    a: JvmStackFrame,
    hb: JvmHeap,
    ha: JvmHeap,
    res: Result<Dispatch, JvmError>,
) -> bool {
    if is_runtime_instruction(instruction) {
        res == Ok::<Dispatch, JvmError>(Dispatch::Runtime)
    } else if !in_table(instruction) {
        res == Err::<Dispatch, JvmError>(JvmError::UnimplementedInstruction(instruction))
    } else if refused(instruction, code, pool.len() as int, b) {
        res == Ok::<Dispatch, JvmError>(Dispatch::Refused)
    } else if is_heap_instruction(instruction) {
        &&& res matches Ok(d) ==> d is Done || d is Threw
        &&& heap_instruction_ran(instruction, code, b, a, hb, ha, step_of(res))
    } else {
        &&& res matches Ok(d) ==> d is Done
        &&& ha == hb
        &&& frame_instruction_ran(instruction, code, pool, b, a, unit_of(res))
    }
}

/// Runs `instruction` on `frame`, whose code is `code` and whose class's
/// constant pool is `constant_pool`, where it works on the frame, the code
/// and the heap alone; the program counter stands just behind the opcode.
/// What it does with each opcode is `dispatched`. The frame's operand
/// stack stays free of fillers, every reference on the frame keeps naming
/// an object of the heap, no object is freed, and the frame keeps running
/// the same method; only a return instruction makes it return, and only
/// `newarray` brings a reference that the frame did not hold.
pub fn execute_instruction(
    instruction: u8,
    frame: &mut JvmStackFrame,
    code: &[u8],
    constant_pool: &ConstantPool,
    heap: &mut JvmHeap,
) -> (res: JvmResult<Dispatch>)
    requires
        stack_usable(*old(frame)),
        old(heap).wf(),
        frame_live(*old(frame), old(heap)@),
        old(heap).allocations() < usize::MAX,
    ensures
        stack_usable(*final(frame)),
        same_method(*old(frame), *final(frame)),
        final(heap).wf(),
        frame_live(*final(frame), final(heap)@),
        objects_kept(old(heap)@, final(heap)@),
        instruction != NEWARRAY ==> no_new_refs(*old(frame), *final(frame)),
        (res matches Ok(d) && (d == Dispatch::Runtime || d == Dispatch::Refused)) || !in_table(instruction)
            ==> *final(frame) == *old(frame) && final(heap)@ == old(heap)@,
        dispatched(instruction, code@, constant_pool@, *old(frame), *final(frame), *old(heap), *final(heap), unbox(res)),
        !is_return(instruction) ==> final(frame).should_return == old(frame).should_return
            && final(frame).return_value == old(frame).return_value,
{
    let pc = frame.program_counter;
    let len = code.len();
    let step = if instruction == NOP {
        nop_instruction(frame)
    } else if instruction == ACONST_NULL {
        null_const_instruction(frame)
    } else if instruction == ICONST_M1 {
        integer_const_instruction(frame, -1)
    } else if instruction == ICONST_0 {
        integer_const_instruction(frame, 0)
    } else if instruction == ICONST_1 {
        integer_const_instruction(frame, 1)
    } else if instruction == ICONST_2 {
        integer_const_instruction(frame, 2)
    } else if instruction == ICONST_3 {
        integer_const_instruction(frame, 3)
    } else if instruction == ICONST_4 {
        integer_const_instruction(frame, 4)
    } else if instruction == ICONST_5 {
        integer_const_instruction(frame, 5)
    } else if instruction == BIPUSH {
        if pc >= len {
            return Ok(Dispatch::Refused);
        }
        bipush_instruction(frame, code)
    } else if instruction == SIPUSH {
        if pc >= len || len - pc < 2 {
            return Ok(Dispatch::Refused);
        }
        sipush_instruction(frame, code)
    } else if instruction == LDC2_W {
        if pc >= len || len - pc < 2 {
            return Ok(Dispatch::Refused);
        }
        let index = ((code[pc] as usize) * 256) + code[pc + 1] as usize;
        proof {
            assert(index == spec_u16_at(code@, pc as int));
        }
        if index >= constant_pool.len() {
            return Ok(Dispatch::Refused);
        }
        ldc2w_instruction(frame, code, constant_pool)
    } else if instruction == ILOAD || instruction == ALOAD {
        if pc >= len || !loadable(frame, code[pc] as usize) {
            return Ok(Dispatch::Refused);
        }
        if instruction == ILOAD {
            integer_load_n(frame, code)
        } else {
            reference_load_n(frame, code)
        }
    } else if ILOAD_0 <= instruction && instruction <= ILOAD_3 {
        let index = (instruction - ILOAD_0) as usize;
        if !loadable(frame, index) {
            return Ok(Dispatch::Refused);
        }
        integer_load(frame, index)
    } else if ALOAD_0 <= instruction && instruction <= ALOAD_3 {
        let index = (instruction - ALOAD_0) as usize;
        if !loadable(frame, index) {
            return Ok(Dispatch::Refused);
        }
        reference_load_instruction(frame, index)
    } else if instruction == ISTORE || instruction == ASTORE {
        let reference = instruction == ASTORE;
        if pc >= len || !storable(frame, code[pc] as usize, reference) {
            return Ok(Dispatch::Refused);
        }
        if reference {
            store_reference_n_instruction(frame, code)
        } else {
            store_integer_n_instruction(frame, code)
        }
    } else if ISTORE_0 <= instruction && instruction <= ISTORE_3 {
        let index = (instruction - ISTORE_0) as usize;
        if !storable(frame, index, false) {
            return Ok(Dispatch::Refused);
        }
        store_integer_instruction(frame, index)
    } else if ASTORE_0 <= instruction && instruction <= ASTORE_3 {
        let index = (instruction - ASTORE_0) as usize;
        if !storable(frame, index, true) {
            return Ok(Dispatch::Refused);
        }
        store_reference_instruction(frame, index)
    } else if instruction == POP {
        pop_instruction(frame)
    } else if instruction == DUP {
        dup_instruction(frame)
    } else if instruction == DUP_X1 {
        if frame.operand_stack.len() == 1 {
            return Ok(Dispatch::Refused);
        }
        dup_x1_instruction(frame)
    } else if instruction == IADD {
        integer_add_instruction(frame)
    } else if instruction == LADD {
        long_add_instruction(frame)
    } else if instruction == ISUB {
        integer_subtract_instruction(frame)
    } else if instruction == IMUL {
        integer_muliply_instruction(frame)
    } else if instruction == INEG {
        integer_negate_instruction(frame)
    } else if instruction == LSHL {
        shift_left_long_instruction(frame)
    } else if instruction == LAND {
        long_and_instruction(frame)
    } else if instruction == IDIV || instruction == IREM {
        if !divisible(frame) {
            return Ok(Dispatch::Refused);
        }
        if instruction == IDIV {
            integer_divide_instruction(frame)
        } else {
            integer_remainder_instruction(frame)
        }
    } else if instruction == IINC {
        if pc >= len || len - pc < 2 || !loadable(frame, code[pc] as usize) {
            return Ok(Dispatch::Refused);
        }
        increment_instruction(frame, code)
    } else if instruction == I2L {
        int_to_long_instruction(frame)
    } else if (IFEQ <= instruction && instruction <= IF_ICMPLE) || instruction == GOTO || instruction == IFNULL
        || instruction == IFNONNULL {
        if pc >= len || len - pc < 2 || len > (isize::MAX as usize) - 0x8000 {
            return Ok(Dispatch::Refused);
        }
        if instruction == IFEQ {
            if_equals_instruction(frame, code)
        } else if instruction == IFNE {
            if_not_equals_instruction(frame, code)
        } else if instruction == IFLT {
            if_less_than_instruction(frame, code)
        } else if instruction == IFGE {
            if_greater_than_or_equals_instruction(frame, code)
        } else if instruction == IFGT {
            if_greater_than_instruction(frame, code)
        } else if instruction == IFLE {
            if_less_than_or_equals_instruction(frame, code)
        } else if instruction == IF_ICMPEQ {
            if_compare_equals_instruction(frame, code)
        } else if instruction == IF_ICMPNE {
            if_compare_not_equals_instruction(frame, code)
        } else if instruction == IF_ICMPLT {
            if_compare_less_than_instruction(frame, code)
        } else if instruction == IF_ICMPGE {
            if_compare_greater_than_or_equals_instruction(frame, code)
        } else if instruction == IF_ICMPGT {
            if_compare_greater_than_instruction(frame, code)
        } else if instruction == IF_ICMPLE {
            if_compare_less_than_or_equals_instruction(frame, code)
        } else if instruction == IFNULL {
            if_null_instruction(frame, code)
        } else if instruction == IFNONNULL {
            if_not_null_instruction(frame, code)
        } else {
            goto_instruction(frame, code)
        }
    } else if instruction == IRETURN {
        integer_return_instruction(frame)
    } else if instruction == DRETURN {
        double_return_instruction(frame)
    } else if instruction == ARETURN {
        object_return_instruction(frame)
    } else if instruction == RETURN {
        return_instruction(frame)
    } else {
        let ghost before = *frame;
        let ghost slots = heap@;
        let step = if instruction == IALOAD {
            load_integer_array_instruction(frame, heap)
        } else if instruction == CALOAD {
            load_character_array_instruction(frame, heap)
        } else if instruction == ARRAYLENGTH {
            array_length_instruction(frame, heap)
        } else if instruction == IASTORE {
            store_integer_array_instruction(frame, heap)
        } else if instruction == LASTORE {
            store_long_array_instruction(frame, heap)
        } else if instruction == CASTORE {
            store_character_array_instruction(frame, heap)
        } else if instruction == NEWARRAY {
            if pc >= len {
                return Ok(Dispatch::Refused);
            }
            new_array_instruction(frame, code, heap)
        } else if instruction == LDC || instruction == AASTORE || (GETSTATIC <= instruction && instruction
            <= INVOKEINTERFACE) || instruction == NEW || instruction == ANEWARRAY || instruction == ATHROW
            || instruction == INSTANCEOF {
            return Ok(Dispatch::Runtime);
        } else {
            return Err(JvmError::UnimplementedInstruction(instruction).bx());
        };
        proof {
            lemma_live_kept(before.local_variables@, slots, heap@);
        }
        return match step {
            Ok(Step::Next) => Ok(Dispatch::Done),
            Ok(Step::Throw(exception)) => Ok(Dispatch::Threw(exception)),
            Err(e) => Err(e),
        };
    };
    proof {
        lemma_live_without_new_refs(*old(frame), *frame, heap@);
    }
    match step {
        Ok(()) => Ok(Dispatch::Done),
        Err(e) => Err(e),
    }
}


/// The instructions that the interpreter runs with the loaded classes.
#[derive(Debug, Clone, Copy, PartialEq, Eq, Structural)]
pub enum RuntimeInstruction {
    Ldc,
    AaStore,
    GetStatic,
    PutStatic,
    GetField,
    PutField,
    InvokeVirtual,
    InvokeSpecial,
    InvokeStatic,
    InvokeInterface,
    New,
    ANewArray,
    AThrow,
    InstanceOf,
}

/// The instruction that the interpreter runs for `instruction`, where it is
/// one of those that `is_runtime_instruction` names.
pub open spec fn runtime_instruction_of(instruction: u8) -> Option<RuntimeInstruction> {
    if instruction == LDC {
        Some(RuntimeInstruction::Ldc)
    } else if instruction == AASTORE {
        Some(RuntimeInstruction::AaStore)
    } else if instruction == GETSTATIC {
        Some(RuntimeInstruction::GetStatic)
    } else if instruction == PUTSTATIC {
        Some(RuntimeInstruction::PutStatic)
    } else if instruction == GETFIELD {
        Some(RuntimeInstruction::GetField)
    } else if instruction == PUTFIELD {
        Some(RuntimeInstruction::PutField)
    } else if instruction == INVOKEVIRTUAL {
        Some(RuntimeInstruction::InvokeVirtual)
    } else if instruction == INVOKESPECIAL {
        Some(RuntimeInstruction::InvokeSpecial)
    } else if instruction == INVOKESTATIC {
        Some(RuntimeInstruction::InvokeStatic)
    } else if instruction == INVOKEINTERFACE {
        Some(RuntimeInstruction::InvokeInterface)
    } else if instruction == NEW {
        Some(RuntimeInstruction::New)
    } else if instruction == ANEWARRAY {
        Some(RuntimeInstruction::ANewArray)
    } else if instruction == ATHROW {
        Some(RuntimeInstruction::AThrow)
    } else if instruction == INSTANCEOF {
        Some(RuntimeInstruction::InstanceOf)
    } else {
        None
    }
}

/// The instruction that the interpreter runs for the opcode `instruction`,
/// which `execute_instruction` answered with `Dispatch::Runtime`.
pub fn runtime_instruction(instruction: u8) -> (res: Option<RuntimeInstruction>)
    ensures
        res == runtime_instruction_of(instruction),
        res is Some <==> is_runtime_instruction(instruction),
{
    if instruction == LDC {
        Some(RuntimeInstruction::Ldc)
    } else if instruction == AASTORE {
        Some(RuntimeInstruction::AaStore)
    } else if instruction == GETSTATIC {
        Some(RuntimeInstruction::GetStatic)
    } else if instruction == PUTSTATIC {
        Some(RuntimeInstruction::PutStatic)
    } else if instruction == GETFIELD {
        Some(RuntimeInstruction::GetField)
    } else if instruction == PUTFIELD {
        Some(RuntimeInstruction::PutField)
    } else if instruction == INVOKEVIRTUAL {
        Some(RuntimeInstruction::InvokeVirtual)
    } else if instruction == INVOKESPECIAL {
        Some(RuntimeInstruction::InvokeSpecial)
    } else if instruction == INVOKESTATIC {
        Some(RuntimeInstruction::InvokeStatic)
    } else if instruction == INVOKEINTERFACE {
        Some(RuntimeInstruction::InvokeInterface)
    } else if instruction == NEW {
        Some(RuntimeInstruction::New)
    } else if instruction == ANEWARRAY {
        Some(RuntimeInstruction::ANewArray)
    } else if instruction == ATHROW {
        Some(RuntimeInstruction::AThrow)
    } else if instruction == INSTANCEOF {
        Some(RuntimeInstruction::InstanceOf)
    } else {
        None
    }
}

} // verus!
