//! Native methods of `java/lang/System`.
use vstd::prelude::*;

use crate::bytecode::{JvmException, Step, expect_int, expect_reference, unbox};
use crate::jvm_heap::JvmHeap;
use crate::jvm_model::{HeapObject, JvmError, JvmResult, JvmType, JvmValue, type_error};

verus! {

/// The elements of an array, copied out of the heap.
enum TempArrayCopy {
    Int(Vec<i32>),
    Byte(Vec<i8>),
    Boolean(Vec<bool>),
    Character(Vec<u16>),
    Short(Vec<i16>),
    Float(Vec<u32>),
    Double(Vec<u64>),
    Long(Vec<i64>),
    Object(Vec<Option<usize>>),
}

/// `dst` with the `n` elements from `dp` on replaced by those of `src` from `sp` on.
pub open spec fn spliced<T>(dst: Seq<T>, dp: int, src: Seq<T>, sp: int, n: int) -> Seq<T> {
    dst.subrange(0, dp) + src.subrange(sp, sp + n) + dst.subrange(dp + n, dst.len() as int)
}

/// Both objects are arrays of the same kind.
pub open spec fn same_array_kind(a: HeapObject, b: HeapObject) -> bool {
    match (a, b) {
        (HeapObject::IntArray(_), HeapObject::IntArray(_)) => true,
        (HeapObject::ByteArray(_), HeapObject::ByteArray(_)) => true,
        (HeapObject::BooleanArray(_), HeapObject::BooleanArray(_)) => true,
        (HeapObject::CharacterArray(_), HeapObject::CharacterArray(_)) => true,
        (HeapObject::ShortArray(_), HeapObject::ShortArray(_)) => true,
        (HeapObject::FloatArray(_), HeapObject::FloatArray(_)) => true,
        (HeapObject::DoubleArray(_), HeapObject::DoubleArray(_)) => true,
        (HeapObject::LongArray(_), HeapObject::LongArray(_)) => true,
        (HeapObject::ObjectArray(_), HeapObject::ObjectArray(_)) => true,
        _ => false,
    }
}

/// The number of elements of an array (0 for an object that is no array).
pub open spec fn elements_len(obj: HeapObject) -> int {
    match obj {
        HeapObject::IntArray(v) => v@.len() as int,
        HeapObject::ByteArray(v) => v@.len() as int,
        HeapObject::BooleanArray(v) => v@.len() as int,
        HeapObject::CharacterArray(v) => v@.len() as int,
        HeapObject::ShortArray(v) => v@.len() as int,
        HeapObject::FloatArray(v) => v@.len() as int,
        HeapObject::DoubleArray(v) => v@.len() as int,
        HeapObject::LongArray(v) => v@.len() as int,
        HeapObject::ObjectArray(a) => a.array@.len() as int,
        _ => 0,
    }
}

/// `after` is the array `dst` with `n` elements from `dp` on copied from
/// `src`, from `sp` on; an array of references keeps its type and dimension.
pub open spec fn copied(src: HeapObject, dst: HeapObject, after: HeapObject, sp: int, dp: int, n: int) -> bool {
    match (src, dst, after) {
        (HeapObject::IntArray(s), HeapObject::IntArray(d), HeapObject::IntArray(a)) => a@ == spliced(d@, dp, s@, sp, n),
        (HeapObject::ByteArray(s), HeapObject::ByteArray(d), HeapObject::ByteArray(a)) => a@ == spliced(d@, dp, s@, sp, n),
        (HeapObject::BooleanArray(s), HeapObject::BooleanArray(d), HeapObject::BooleanArray(a)) => a@ == spliced(
            d@,
            dp,
            s@,
            sp,
            n,
        ),
        (HeapObject::CharacterArray(s), HeapObject::CharacterArray(d), HeapObject::CharacterArray(a)) => a@
            == spliced(d@, dp, s@, sp, n),
        (HeapObject::ShortArray(s), HeapObject::ShortArray(d), HeapObject::ShortArray(a)) => a@ == spliced(
            d@,
            dp,
            s@,
            sp,
            n,
        ),
        (HeapObject::FloatArray(s), HeapObject::FloatArray(d), HeapObject::FloatArray(a)) => a@ == spliced(
            d@,
            dp,
            s@,
            sp,
            n,
        ),
        (HeapObject::DoubleArray(s), HeapObject::DoubleArray(d), HeapObject::DoubleArray(a)) => a@ == spliced(
            d@,
            dp,
            s@,
            sp,
            n,
        ),
        (HeapObject::LongArray(s), HeapObject::LongArray(d), HeapObject::LongArray(a)) => a@ == spliced(d@, dp, s@, sp, n),
        (HeapObject::ObjectArray(s), HeapObject::ObjectArray(d), HeapObject::ObjectArray(a)) => a.array@ == spliced(
            d.array@,
            dp,
            s.array@,
            sp,
            n,
        ) && a.dimension == d.dimension && a.object_array_type == d.object_array_type,
        _ => false,
    }
}

/// `v[from..to]`, copied.
fn slice_to_vec<T: Copy>(v: &Vec<T>, from: usize, to: usize) -> (res: Vec<T>)
    requires
        from <= to <= v@.len(),
    ensures
        res@ == v@.subrange(from as int, to as int),
{
    let mut res: Vec<T> = Vec::new();
    let mut i = from;
    while i < to
        invariant
            from <= i <= to <= v@.len(),
            res@ == v@.subrange(from as int, i as int),
        decreases to - i,
    {
        res.push(v[i]);
        i += 1;
        proof {
            assert(res@ =~= v@.subrange(from as int, i as int));
        }
    }
    res
}

/// Overwrites `dst` from `at` on with the elements of `src`, which were
/// taken from `whole` at `from`.
fn copy_into<T: Copy>(dst: &mut Vec<T>, at: usize, src: &Vec<T>, Ghost(whole): Ghost<Seq<T>>, Ghost(from): Ghost<int>)
    requires
        at + src@.len() <= old(dst)@.len(),
        0 <= from,
        from + src@.len() <= whole.len(),
        src@ == whole.subrange(from, from + src@.len()),
    ensures
        final(dst)@ == spliced(old(dst)@, at as int, whole, from, src@.len() as int),
{
    let mut i: usize = 0;
    while i < src.len()
        invariant
            at + src@.len() <= dst@.len(),
            dst@.len() == old(dst)@.len(),
            i <= src@.len(),
            dst@ == spliced(old(dst)@, at as int, src@.subrange(0, i as int), 0, i as int),
        decreases src@.len() - i,
    {
        proof {
            assert(dst.len() == dst@.len());
        }
        dst.set(at + i, src[i]);
        i += 1;
        proof {
            assert(dst@ =~= spliced(old(dst)@, at as int, src@.subrange(0, i as int), 0, i as int));
        }
    }
    proof {
        assert(src@.subrange(0, src@.len() as int) =~= src@);
        assert(dst@ =~= spliced(old(dst)@, at as int, whole, from, src@.len() as int));
    }
}

/// The error met when the arguments of `System.arraycopy` do not have the
/// types it takes (two references and three ints), checked in order.
pub open spec fn array_copy_type_error(p: Seq<JvmValue>) -> Option<JvmError> {
    if !(p[0] is Reference) {
        Some(type_error(JvmType::Reference, p[0]))
    } else if !(p[1] is Int) {
        Some(type_error(JvmType::Int, p[1]))
    } else if !(p[2] is Reference) {
        Some(type_error(JvmType::Reference, p[2]))
    } else if !(p[3] is Int) {
        Some(type_error(JvmType::Int, p[3]))
    } else if !(p[4] is Int) {
        Some(type_error(JvmType::Int, p[4]))
    } else {
        None
    }
}

/// `System.arraycopy(src, srcPos, dest, destPos, length)`: copies `length`
/// elements of the source array from `srcPos` on into the destination array
/// from `destPos` on; an argument of the wrong type is an error, and a null
/// array throws a `NullPointerException`.
pub fn array_copy(heap: &mut JvmHeap, params: Vec<JvmValue>) -> (res: JvmResult<Step>)
    requires
        old(heap).wf(),
        params@.len() >= 5,
        forall|i: int| 0 <= i < 5 ==> !(#[trigger] params@[i] is Unusable),
        array_copy_type_error(params@) is None ==> (params@[0] matches JvmValue::Reference(Some(s))
            && params@[2] matches JvmValue::Reference(Some(d)) ==> ({
            let sp = params@[1]->Int_0 as int;
            let dp = params@[3]->Int_0 as int;
            let n = params@[4]->Int_0 as int;
            &&& s < old(heap)@.len() && old(heap)@[s as int] is Some
            &&& d < old(heap)@.len() && old(heap)@[d as int] is Some
            &&& same_array_kind(old(heap)@[s as int].unwrap(), old(heap)@[d as int].unwrap())
            &&& 0 <= sp && 0 <= dp && 0 <= n
            &&& sp + n <= elements_len(old(heap)@[s as int].unwrap())
            &&& dp + n <= elements_len(old(heap)@[d as int].unwrap())
        })),
    ensures
        final(heap).wf(),
        final(heap).free_list() == old(heap).free_list(),
        final(heap).allocations() == old(heap).allocations(),
        final(heap).min_allocations() == old(heap).min_allocations(),
        final(heap).gc_due() == old(heap).gc_due(),
        match array_copy_type_error(params@) {
            Some(e) => unbox(res) == Err::<Step, JvmError>(e) && final(heap)@ == old(heap)@,
            None => match (params@[0], params@[2]) {
                (JvmValue::Reference(Some(s)), JvmValue::Reference(Some(d))) => ({
                    &&& unbox(res) == Ok::<Step, JvmError>(Step::Next)
                    &&& final(heap)@ == old(heap)@.update(d as int, final(heap)@[d as int])
                    &&& final(heap)@[d as int] is Some
                    &&& copied(
                        old(heap)@[s as int].unwrap(),
                        old(heap)@[d as int].unwrap(),
                        final(heap)@[d as int].unwrap(),
                        params@[1]->Int_0 as int,
                        params@[3]->Int_0 as int,
                        params@[4]->Int_0 as int,
                    )
                }),
                _ => unbox(res) == Ok::<Step, JvmError>(Step::Throw(JvmException::NullPointer))
                    && final(heap)@ == old(heap)@,
            },
        },
{
    let src_ref = expect_reference(params[0])?;
    let src_pos = expect_int(params[1])?;
    let dst_ref = expect_reference(params[2])?;
    let dst_pos = expect_int(params[3])?;
    let length = expect_int(params[4])?;
    let src_r = match src_ref {
        Some(r) => r,
        None => return Ok(Step::Throw(JvmException::NullPointer)),
    };
    let dst_r = match dst_ref {
        Some(d) => d,
        None => return Ok(Step::Throw(JvmException::NullPointer)),
    };
    let src_pos = src_pos as usize;
    let end = src_pos + length as usize;
    let slice = match heap.get(src_r) {
        HeapObject::IntArray(a) => TempArrayCopy::Int(slice_to_vec(a, src_pos, end)),
        HeapObject::ByteArray(a) => TempArrayCopy::Byte(slice_to_vec(a, src_pos, end)),
        HeapObject::BooleanArray(a) => TempArrayCopy::Boolean(slice_to_vec(a, src_pos, end)),
        HeapObject::CharacterArray(a) => TempArrayCopy::Character(slice_to_vec(a, src_pos, end)),
        HeapObject::ShortArray(a) => TempArrayCopy::Short(slice_to_vec(a, src_pos, end)),
        HeapObject::FloatArray(a) => TempArrayCopy::Float(slice_to_vec(a, src_pos, end)),
        HeapObject::DoubleArray(a) => TempArrayCopy::Double(slice_to_vec(a, src_pos, end)),
        HeapObject::LongArray(a) => TempArrayCopy::Long(slice_to_vec(a, src_pos, end)),
        HeapObject::ObjectArray(a) => TempArrayCopy::Object(slice_to_vec(&a.array, src_pos, end)),
        _ => vstd::pervasive::unreached(),
    };
    let dst_pos = dst_pos as usize;
    let ghost source = heap@[src_r as int].unwrap();
    let dst = heap.get_mut(dst_r);
    match (slice, dst) {
        (TempArrayCopy::Int(src), HeapObject::IntArray(d)) => copy_into(d, dst_pos, &src, Ghost(source->IntArray_0@), Ghost(src_pos as int)),
        (TempArrayCopy::Byte(src), HeapObject::ByteArray(d)) => copy_into(d, dst_pos, &src, Ghost(source->ByteArray_0@), Ghost(src_pos as int)),
        (TempArrayCopy::Boolean(src), HeapObject::BooleanArray(d)) => copy_into(d, dst_pos, &src, Ghost(source->BooleanArray_0@), Ghost(src_pos as int)),
        (TempArrayCopy::Character(src), HeapObject::CharacterArray(d)) => copy_into(d, dst_pos, &src, Ghost(source->CharacterArray_0@), Ghost(src_pos as int)),
        (TempArrayCopy::Short(src), HeapObject::ShortArray(d)) => copy_into(d, dst_pos, &src, Ghost(source->ShortArray_0@), Ghost(src_pos as int)),
        (TempArrayCopy::Float(src), HeapObject::FloatArray(d)) => copy_into(d, dst_pos, &src, Ghost(source->FloatArray_0@), Ghost(src_pos as int)),
        (TempArrayCopy::Double(src), HeapObject::DoubleArray(d)) => copy_into(d, dst_pos, &src, Ghost(source->DoubleArray_0@), Ghost(src_pos as int)),
        (TempArrayCopy::Long(src), HeapObject::LongArray(d)) => copy_into(d, dst_pos, &src, Ghost(source->LongArray_0@), Ghost(src_pos as int)),
        (TempArrayCopy::Object(src), HeapObject::ObjectArray(d)) => copy_into(&mut d.array, dst_pos, &src, Ghost(source->ObjectArray_0.array@), Ghost(src_pos as int)),
        _ => vstd::pervasive::unreached(),
    }
    Ok(Step::Next)
}

} // verus!
