//! Jumps, switches and returns.
use vstd::prelude::*;

use crate::bytecode::{
    branch_target, branch_in_bounds, code_in_bounds, expect_double, expect_int, expect_reference, only_stack_and_pc_changed,
    pop_int, popped, read_i16_from_bytecode, same_activation, spec_pop_int, spec_u16_at, stack_usable,
    unbox,
};
use crate::jvm_model::{FrameReturn, JvmError, JvmResult, JvmStackFrame, JvmType, JvmValue, type_error};

verus! {

/// The four bytes at `p` as a big-endian signed number.
pub open spec fn spec_i32_at(code: Seq<u8>, p: int) -> i32 {
    (code[p] as int * 0x1000000 + code[p + 1] as int * 0x10000 + code[p + 2] as int * 0x100
        + code[p + 3] as int) as i32
}

/// The padding that aligns the operands of a switch (which start at `pc`)
/// to a multiple of four bytes from the start of the code.
pub open spec fn switch_padding(pc: int) -> int {
    (4 - pc % 4) % 4
}

/// The `(match, offset)` pairs of a `lookupswitch` whose pairs start at `start`.
pub open spec fn lookup_pairs(code: Seq<u8>, start: int, n: nat) -> Seq<(i32, i32)> {
    Seq::new(n, |k: int| (spec_i32_at(code, start + 8 * k), spec_i32_at(code, start + 8 * k + 4)))
}

/// The offset of the first pair from the `k`-th on whose match is `key`;
/// `default` when there is none.
pub open spec fn first_match_from(pairs: Seq<(i32, i32)>, k: int, key: i32, default: i32) -> i32
    decreases pairs.len() - k,
{
    if k < 0 || k >= pairs.len() {
        default
    } else if pairs[k].0 == key {
        pairs[k].1
    } else {
        first_match_from(pairs, k + 1, key, default)
    }
}

/// The jump offsets of a `tableswitch` whose table starts at `start`.
pub open spec fn jump_table(code: Seq<u8>, start: int, n: nat) -> Seq<i32> {
    Seq::new(n, |k: int| spec_i32_at(code, start + 4 * k))
}

/// Where the operands of a `lookupswitch` start (behind the padding), when
/// the opcode stands just before `pc`.
pub open spec fn lookup_operands(pc: usize) -> int {
    pc + switch_padding(pc as int)
}

/// The number of pairs of a `lookupswitch`.
pub open spec fn lookup_npairs(code: Seq<u8>, pc: usize) -> i32 {
    spec_i32_at(code, lookup_operands(pc) + 4)
}

/// The whole `lookupswitch` (padding, default, pair count and pairs) lies
/// in the code, with a pair count that is not negative.
pub open spec fn lookup_switch_fits(code: Seq<u8>, pc: usize) -> bool {
    &&& code_in_bounds(code)
    &&& lookup_operands(pc) + 8 <= code.len()
    &&& lookup_npairs(code, pc) >= 0
    &&& lookup_operands(pc) + 8 + 8 * lookup_npairs(code, pc) <= code.len()
}

/// The offset that a `lookupswitch` jumps by for `key`.
pub open spec fn lookup_offset(code: Seq<u8>, pc: usize, key: i32) -> i32 {
    let p = lookup_operands(pc);
    first_match_from(
        lookup_pairs(code, p + 8, lookup_npairs(code, pc) as nat),
        0,
        key,
        spec_i32_at(code, p),
    )
}

/// The bounds of a `tableswitch`.
pub open spec fn table_low(code: Seq<u8>, pc: usize) -> i32 {
    spec_i32_at(code, lookup_operands(pc) + 4)
}

pub open spec fn table_high(code: Seq<u8>, pc: usize) -> i32 {
    spec_i32_at(code, lookup_operands(pc) + 8)
}

/// The number of jump offsets of a `tableswitch`.
pub open spec fn table_size(code: Seq<u8>, pc: usize) -> int {
    table_high(code, pc) - table_low(code, pc) + 1
}

/// The whole `tableswitch` lies in the code, with bounds that give a table
/// of a size that is not negative and fits an int.
pub open spec fn table_switch_fits(code: Seq<u8>, pc: usize) -> bool {
    &&& code_in_bounds(code)
    &&& lookup_operands(pc) + 12 <= code.len()
    &&& 0 <= table_size(code, pc) <= i32::MAX
    &&& lookup_operands(pc) + 12 + 4 * table_size(code, pc) <= code.len()
}

/// The offset that a `tableswitch` jumps by for `index`.
pub open spec fn table_offset(code: Seq<u8>, pc: usize, index: i32) -> i32 {
    let p = lookup_operands(pc);
    if index < table_low(code, pc) || index > table_high(code, pc) {
        spec_i32_at(code, p)
    } else {
        jump_table(code, p + 12, table_size(code, pc) as nat)[index - table_low(code, pc)]
    }
}

/// Reads the four bytes at the program counter as a big-endian signed
/// number and moves past them.
fn read_i32_from_bytecode(frame: &mut JvmStackFrame, code: &[u8]) -> (res: i32)
    requires
        old(frame).program_counter + 4 <= code@.len(),
    ensures
        res == spec_i32_at(code@, old(frame).program_counter as int),
        final(frame).program_counter == old(frame).program_counter + 4,
        same_activation(*old(frame), *final(frame)),
        final(frame).local_variables@ == old(frame).local_variables@,
        final(frame).operand_stack@ == old(frame).operand_stack@,
{
    let pc = frame.program_counter;
    let b0 = code[pc] as u32;
    let b1 = code[pc + 1] as u32;
    let b2 = code[pc + 2] as u32;
    let b3 = code[pc + 3] as u32;
    frame.program_counter = pc + 4;
    let bits = (b0 << 24u32) | (b1 << 16u32) | (b2 << 8u32) | b3;
    proof {
        assert((b0 << 24u32) | (b1 << 16u32) | (b2 << 8u32) | b3 == b0 * 0x1000000 + b1 * 0x10000
            + b2 * 0x100 + b3) by (bit_vector)
            requires
                b0 < 256,
                b1 < 256,
                b2 < 256,
                b3 < 256,
        ;
    }
    bits as i32
}

/// `goto`: jumps by the signed offset after the opcode.
pub fn goto_instruction(frame: &mut JvmStackFrame, code: &[u8]) -> (res: JvmResult<()>)
    requires
        branch_in_bounds(code@),
        old(frame).program_counter + 2 <= code@.len(),
    ensures
        res is Ok,
        final(frame).program_counter == branch_target(
            old(frame).program_counter,
            spec_u16_at(code@, old(frame).program_counter as int) as i16,
        ),
        final(frame).operand_stack@ == old(frame).operand_stack@,
        only_stack_and_pc_changed(*old(frame), *final(frame)),
{
    let offset_base = frame.program_counter as isize - 1;
    let offset = read_i16_from_bytecode(frame, code) as isize;
    frame.program_counter = (offset_base + offset) as usize;
    Ok(())
}

/// `lookupswitch`: takes an int key off the stack and jumps by the offset
/// of the first pair that matches it, or by the default offset.
pub fn lookup_switch_instruction(frame: &mut JvmStackFrame, code: &[u8]) -> (res: JvmResult<()>)
    requires
        stack_usable(*old(frame)),
        old(frame).program_counter >= 1,
        lookup_switch_fits(code@, old(frame).program_counter),
        spec_pop_int(old(frame).operand_stack@) matches Ok(key) ==> i32::MIN <= old(
            frame,
        ).program_counter - 1 + lookup_offset(code@, old(frame).program_counter, key) <= i32::MAX,
    ensures
        stack_usable(*final(frame)),
        only_stack_and_pc_changed(*old(frame), *final(frame)),
        final(frame).operand_stack@ == popped(old(frame).operand_stack@),
        match spec_pop_int(old(frame).operand_stack@) {
            Err(e) => unbox(res) == Err::<(), _>(e) && final(frame).program_counter == lookup_operands(
                old(frame).program_counter,
            ) + 8 + 8 * lookup_npairs(code@, old(frame).program_counter),
            Ok(key) => res is Ok && final(frame).program_counter == (old(frame).program_counter - 1
                + lookup_offset(code@, old(frame).program_counter, key)) as usize,
        },
{
    let ghost pc0 = frame.program_counter;
    let instruction_start = (frame.program_counter - 1) as i32;
    let padding_size = (4 - (frame.program_counter % 4)) % 4;
    frame.program_counter = frame.program_counter + padding_size;
    let default = read_i32_from_bytecode(frame, code);
    let npairs = read_i32_from_bytecode(frame, code);
    let ghost start = frame.program_counter as int;
    let ghost all = lookup_pairs(code@, start, npairs as nat);
    let mut pairs: Vec<(i32, i32)> = Vec::new();
    let mut k: i32 = 0;
    while k < npairs
        invariant
            0 <= k <= npairs,
            npairs == lookup_npairs(code@, pc0),
            start == lookup_operands(pc0) + 8,
            lookup_switch_fits(code@, pc0),
            all == lookup_pairs(code@, start, npairs as nat),
            frame.program_counter == start + 8 * k,
            pairs@ == all.subrange(0, k as int),
            same_activation(*old(frame), *frame),
            frame.local_variables@ == old(frame).local_variables@,
            frame.operand_stack@ == old(frame).operand_stack@,
        decreases npairs - k,
    {
        let match_key = read_i32_from_bytecode(frame, code);
        let offset = read_i32_from_bytecode(frame, code);
        pairs.push((match_key, offset));
        proof {
            assert(pairs@ =~= all.subrange(0, k + 1));
        }
        k = k + 1;
    }
    proof {
        assert(pairs@ =~= all);
    }
    let key = pop_int(frame)?;
    let mut offset = default;
    let mut i: usize = 0;
    while i < pairs.len()
        invariant_except_break
            offset == default,
        invariant
            i <= pairs@.len(),
            pairs@ == all,
            first_match_from(all, 0, key, default) == first_match_from(all, i as int, key, default),
        ensures
            offset == first_match_from(all, 0, key, default),
        decreases pairs@.len() - i,
    {
        if pairs[i].0 == key {
            offset = pairs[i].1;
            break;
        }
        i = i + 1;
    }
    let target_address = instruction_start + offset;
    frame.program_counter = #[verifier::truncate] (target_address as usize);
    Ok(())
}

/// `tableswitch`: takes an int index off the stack and jumps by the table's
/// offset for it, or by the default offset when the index is out of the
/// table's bounds.
pub fn table_switch_instruction(frame: &mut JvmStackFrame, code: &[u8]) -> (res: JvmResult<()>)
    requires
        stack_usable(*old(frame)),
        old(frame).program_counter >= 1,
        table_switch_fits(code@, old(frame).program_counter),
        spec_pop_int(old(frame).operand_stack@) matches Ok(index) ==> i32::MIN <= old(
            frame,
        ).program_counter - 1 + table_offset(code@, old(frame).program_counter, index) <= i32::MAX,
    ensures
        stack_usable(*final(frame)),
        only_stack_and_pc_changed(*old(frame), *final(frame)),
        final(frame).operand_stack@ == popped(old(frame).operand_stack@),
        match spec_pop_int(old(frame).operand_stack@) {
            Err(e) => unbox(res) == Err::<(), _>(e) && final(frame).program_counter == lookup_operands(
                old(frame).program_counter,
            ) + 12 + 4 * table_size(code@, old(frame).program_counter),
            Ok(index) => res is Ok && final(frame).program_counter == (old(frame).program_counter - 1
                + table_offset(code@, old(frame).program_counter, index)) as usize,
        },
{
    let ghost pc0 = frame.program_counter;
    let instruction_start = (frame.program_counter - 1) as i32;
    let padding_size = (4 - (frame.program_counter % 4)) % 4;
    frame.program_counter = frame.program_counter + padding_size;
    let default = read_i32_from_bytecode(frame, code);
    let low = read_i32_from_bytecode(frame, code);
    let high = read_i32_from_bytecode(frame, code);
    let jump_table_size = high - low + 1;
    let ghost start = frame.program_counter as int;
    let ghost all = jump_table(code@, start, jump_table_size as nat);
    let mut table: Vec<i32> = Vec::new();
    let mut k: i32 = 0;
    while k < jump_table_size
        invariant
            0 <= k <= jump_table_size,
            jump_table_size == table_size(code@, pc0),
            start == lookup_operands(pc0) + 12,
            table_switch_fits(code@, pc0),
            all == jump_table(code@, start, jump_table_size as nat),
            frame.program_counter == start + 4 * k,
            table@ == all.subrange(0, k as int),
            same_activation(*old(frame), *frame),
            frame.local_variables@ == old(frame).local_variables@,
            frame.operand_stack@ == old(frame).operand_stack@,
        decreases jump_table_size - k,
    {
        let offset = read_i32_from_bytecode(frame, code);
        table.push(offset);
        proof {
            assert(table@ =~= all.subrange(0, k + 1));
        }
        k = k + 1;
    }
    proof {
        assert(table@ =~= all);
    }
    let index = pop_int(frame)?;
    let target_address = if index < low || index > high {
        instruction_start + default
    } else {
        instruction_start + table[(index - low) as usize]
    };
    frame.program_counter = #[verifier::truncate] (target_address as usize);
    Ok(())
}

/// `return`: the method returns without a value.
pub fn return_instruction(frame: &mut JvmStackFrame) -> (res: JvmResult<()>)
    ensures
        res is Ok,
        final(frame).should_return == FrameReturn::Returning,
        final(frame).return_value == old(frame).return_value,
        final(frame).operand_stack@ == old(frame).operand_stack@,
        final(frame).local_variables@ == old(frame).local_variables@,
        final(frame).program_counter == old(frame).program_counter,
        final(frame).class == old(frame).class,
        final(frame).method_index == old(frame).method_index,
        final(frame).bytecode_index == old(frame).bytecode_index,
        final(frame).is_void == old(frame).is_void,
{
    frame.should_return = FrameReturn::Returning;
    Ok(())
}

/// The kind of value that a returning instruction hands back.
#[derive(Debug, Clone, Copy, PartialEq, Eq, Structural)]
pub enum ReturnKind {
    Int,
    Reference,
    Double,
}

/// The type that a value must have to be returned as `kind`.
pub open spec fn return_type(kind: ReturnKind) -> JvmType {
    match kind {
        ReturnKind::Int => JvmType::Int,
        ReturnKind::Reference => JvmType::Reference,
        ReturnKind::Double => JvmType::Double,
    }
}

/// `v` can be returned as `kind`.
pub open spec fn returnable(v: JvmValue, kind: ReturnKind) -> bool {
    match kind {
        ReturnKind::Int => v is Int,
        ReturnKind::Reference => v is Reference,
        ReturnKind::Double => v is Double,
    }
}

/// What a returning instruction does: with no operand it fails and changes
/// nothing; otherwise it takes the top value off the stack and, when it has
/// the right type, the frame returns it.
pub open spec fn return_result(a: JvmStackFrame, b: JvmStackFrame, kind: ReturnKind, res: Result<(), JvmError>) -> bool {
    let s = a.operand_stack@;
    &&& b.class == a.class
    &&& b.method_index == a.method_index
    &&& b.bytecode_index == a.bytecode_index
    &&& b.is_void == a.is_void
    &&& b.local_variables@ == a.local_variables@
    &&& b.program_counter == a.program_counter
    &&& b.operand_stack@ == popped(s)
    &&& if s.len() == 0 {
        res == Err::<(), _>(JvmError::NoOperandFound) && b.should_return == a.should_return
            && b.return_value == a.return_value
    } else if returnable(s.last(), kind) {
        res is Ok && b.should_return == FrameReturn::Returning && b.return_value == Some(s.last())
    } else {
        res == Err::<(), _>(type_error(return_type(kind), s.last())) && b.should_return
            == a.should_return && b.return_value == a.return_value
    }
}

/// Takes the value to return off the stack and checks its type.
fn generic_return_instruction(frame: &mut JvmStackFrame, kind: ReturnKind) -> (res: JvmResult<()>)
    requires
        stack_usable(*old(frame)),
    ensures
        stack_usable(*final(frame)),
        return_result(*old(frame), *final(frame), kind, unbox(res)),
{
    let ghost s = frame.operand_stack@;
    match frame.operand_stack.pop() {
        Some(value_to_return) => {
            proof {
                assert(!(s[s.len() - 1] is Unusable));
            }
            match kind {
                ReturnKind::Int => {
                    expect_int(value_to_return)?;
                },
                ReturnKind::Reference => {
                    expect_reference(value_to_return)?;
                },
                ReturnKind::Double => {
                    expect_double(value_to_return)?;
                },
            }
            frame.should_return = FrameReturn::Returning;
            frame.return_value = Some(value_to_return);
            Ok(())
        },
        None => Err(JvmError::NoOperandFound.bx()),
    }
}

/// `ireturn`
pub fn integer_return_instruction(frame: &mut JvmStackFrame) -> (res: JvmResult<()>)
    requires
        stack_usable(*old(frame)),
    ensures
        stack_usable(*final(frame)),
        return_result(*old(frame), *final(frame), ReturnKind::Int, unbox(res)),
{
    generic_return_instruction(frame, ReturnKind::Int)
}

/// `areturn`
pub fn object_return_instruction(frame: &mut JvmStackFrame) -> (res: JvmResult<()>)
    requires
        stack_usable(*old(frame)),
    ensures
        stack_usable(*final(frame)),
        return_result(*old(frame), *final(frame), ReturnKind::Reference, unbox(res)),
{
    generic_return_instruction(frame, ReturnKind::Reference)
}

/// `dreturn`
pub fn double_return_instruction(frame: &mut JvmStackFrame) -> (res: JvmResult<()>)
    requires
        stack_usable(*old(frame)),
    ensures
        stack_usable(*final(frame)),
        return_result(*old(frame), *final(frame), ReturnKind::Double, unbox(res)),
{
    generic_return_instruction(frame, ReturnKind::Double)
}

} // verus!
