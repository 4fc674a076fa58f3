//! Native methods of the machine's own print stream.
use vstd::prelude::*;

use crate::bytecode::{JvmException, expect_reference, unbox};
use crate::jvm_heap::JvmHeap;
use crate::jvm_model::{HeapObject, JvmError, JvmResult, JvmValue};

verus! {

/// What reading the characters of a string object gives: its characters, or
/// a null reference on the way.
#[derive(Debug, Clone, PartialEq, Eq)]
pub enum StringChars {
    Chars(Vec<u16>),
    Throw(JvmException),
}

/// The string object that `v` refers to has the field at `value_index`, and
/// a reference there names a char array.
pub open spec fn string_readable(v: JvmValue, slots: Seq<Option<HeapObject>>, value_index: usize) -> bool {
    v matches JvmValue::Reference(Some(r)) ==> {
        &&& r < slots.len()
        &&& slots[r as int] matches Some(HeapObject::Object { fields, .. })
        &&& value_index < fields@.len()
        &&& fields@[value_index as int] is Reference
        &&& fields@[value_index as int] matches JvmValue::Reference(Some(d)) ==> d < slots.len()
            && slots[d as int] matches Some(HeapObject::CharacterArray(_))
    }
}

/// The characters of the string object that `params[0]` refers to, found
/// through its `value` field (at `value_index`).
pub fn string_characters(heap: &JvmHeap, params: &Vec<JvmValue>, value_index: usize) -> (res: JvmResult<StringChars>)
    requires
        params@.len() >= 1,
        params@[0] is Reference,
        string_readable(params@[0], heap@, value_index),
    ensures
        match params@[0] {
            JvmValue::Reference(None) => res matches Ok(StringChars::Throw(JvmException::NullPointer)),
            JvmValue::Reference(Some(r)) => {
                let field = heap@[r as int]->Some_0->Object_fields@[value_index as int];
                match field {
                    JvmValue::Reference(None) => res matches Ok(StringChars::Throw(JvmException::NullPointer)),
                    JvmValue::Reference(Some(d)) => res matches Ok(StringChars::Chars(c)) && c@
                        == heap@[d as int]->Some_0->CharacterArray_0@,
                    _ => false,
                }
            },
            _ => false,
        },
{
    let string_ref = expect_reference(params[0])?;
    let str_ref = match string_ref {
        Some(r) => r,
        None => return Ok(StringChars::Throw(JvmException::NullPointer)),
    };
    let data_jvm_value = match heap.get(str_ref) {
        HeapObject::Object { class: _, fields } => fields[value_index],
        _ => vstd::pervasive::unreached(),
    };
    let data_ref = expect_reference(data_jvm_value)?;
    let data_not_null = match data_ref {
        Some(d) => d,
        None => return Ok(StringChars::Throw(JvmException::NullPointer)),
    };
    match heap.get(data_not_null) {
        HeapObject::CharacterArray(items) => Ok(StringChars::Chars(items.clone())),
        _ => vstd::pervasive::unreached(),
    }
}

/// The text that the print stream writes for some UTF-16 units: each unit
/// cut to its low byte, read as a Latin-1 character.
pub fn print_text(chars: &[u16]) -> (res: Vec<char>)
    ensures
        res@ == chars@.map_values(|c: u16| (c as u8) as char),
{
    let mut res: Vec<char> = Vec::new();
    let mut i: usize = 0;
    while i < chars.len()
        invariant
            i <= chars@.len(),
            res@ == chars@.subrange(0, i as int).map_values(|c: u16| (c as u8) as char),
        decreases chars@.len() - i,
    {
        let byte = #[verifier::truncate] (chars[i] as u8);
        res.push(byte as char);
        i += 1;
        proof {
            assert(res@ =~= chars@.subrange(0, i as int).map_values(|c: u16| (c as u8) as char));
        }
    }
    proof {
        assert(chars@.subrange(0, chars@.len() as int) =~= chars@);
    }
    res
}

} // verus!
