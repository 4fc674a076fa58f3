//! The object heap: numbered slots (slot 0 is never used, so that a reference
//! is never zero), allocation into free slots, and a mark-and-sweep collector.
use vstd::prelude::*;

use crate::jvm_model::{HeapObject, JvmStackFrame, JvmThread, JvmValue};

verus! {

/// Number of occupied slots in `s`.
pub open spec fn count_some(s: Seq<Option<HeapObject>>) -> nat
    decreases s.len(),
{
    if s.len() == 0 {
        0
    } else {
        count_some(s.drop_last()) + if s.last() is Some {
            1nat
        } else {
            0nat
        }
    }
}

pub proof fn lemma_count_some_push(s: Seq<Option<HeapObject>>, x: Option<HeapObject>)
    ensures
        count_some(s.push(x)) == count_some(s) + if x is Some {
            1nat
        } else {
            0nat
        },
{
    assert(s.push(x).drop_last() =~= s);
}

pub proof fn lemma_count_some_update(s: Seq<Option<HeapObject>>, i: int, x: Option<HeapObject>)
    requires
        0 <= i < s.len(),
    ensures
        count_some(s.update(i, x)) + (if s[i] is Some {
            1int
        } else {
            0int
        }) == count_some(s) + (if x is Some {
            1int
        } else {
            0int
        }),
    decreases s.len(),
{
    if i == s.len() - 1 {
        assert(s.update(i, x).drop_last() =~= s.drop_last());
    } else {
        lemma_count_some_update(s.drop_last(), i, x);
        assert(s.update(i, x).drop_last() =~= s.drop_last().update(i, x));
    }
}

/// `obj` holds a reference to slot `b`: in a field, or as an element of an
/// array of references.
pub open spec fn holds_ref(obj: HeapObject, b: int) -> bool {
    match obj {
        HeapObject::Object { class, fields } => exists|k: int|
            0 <= k < fields@.len() && value_refers(#[trigger] fields@[k], b),
        HeapObject::ObjectArray(arr) => exists|k: int|
            0 <= k < arr.array@.len() && elem_refers(#[trigger] arr.array@[k], b),
        _ => false,
    }
}

/// The array element `e` refers to slot `b`.
pub open spec fn elem_refers(e: Option<usize>, b: int) -> bool {
    e matches Some(x) && x as int == b
}

/// Slot `a` is occupied by an object that refers to slot `b`.
pub open spec fn points_to(slots: Seq<Option<HeapObject>>, a: int, b: int) -> bool {
    0 <= a < slots.len() && slots[a] is Some && holds_ref(slots[a].unwrap(), b) && 0 <= b
}

/// The `i`-th slot of the chain `p` refers to the next one.
pub open spec fn path_step(slots: Seq<Option<HeapObject>>, p: Seq<int>, i: int) -> bool {
    points_to(slots, p[i], p[i + 1])
}

/// A chain of slots, each referring to the next.
pub open spec fn is_path(slots: Seq<Option<HeapObject>>, p: Seq<int>) -> bool {
    p.len() >= 1 && forall|i: int| 0 <= i < p.len() - 1 ==> #[trigger] path_step(slots, p, i)
}

/// Slot `r` can be reached from some root by following references.
pub open spec fn reachable(slots: Seq<Option<HeapObject>>, root: spec_fn(int) -> bool, r: int) -> bool {
    exists|p: Seq<int>| #[trigger] is_path(slots, p) && root(p[0]) && p.last() == r
}

/// Slot `r` holds an object.
pub open spec fn live(slots: Seq<Option<HeapObject>>, r: usize) -> bool {
    r < slots.len() && slots[r as int] is Some
}

/// Every object of the heap `a` is still in `b`.
pub open spec fn objects_kept(a: Seq<Option<HeapObject>>, b: Seq<Option<HeapObject>>) -> bool {
    forall|x: usize| #[trigger] live(a, x) ==> live(b, x)
}

/// Every reference among `values` names an object of the heap.
pub open spec fn values_live(values: Seq<JvmValue>, slots: Seq<Option<HeapObject>>) -> bool {
    forall|i: int|
        0 <= i < values.len() ==> (#[trigger] values[i] matches JvmValue::Reference(Some(r)) ==> live(
            slots,
            r,
        ))
}

/// `v` is a reference to slot `r`.
pub open spec fn value_refers(v: JvmValue, r: int) -> bool {
    v matches JvmValue::Reference(Some(x)) && x as int == r
}

/// Some frame of a thread holds a reference to slot `r` in a local variable,
/// an operand stack slot or its return value.
pub open spec fn frame_refers(f: JvmStackFrame, r: int) -> bool {
    ||| exists|k: int| 0 <= k < f.local_variables@.len() && value_refers(#[trigger] f.local_variables@[k], r)
    ||| exists|k: int| 0 <= k < f.operand_stack@.len() && value_refers(#[trigger] f.operand_stack@[k], r)
    ||| (f.return_value matches Some(v) && value_refers(v, r))
}

/// The roots of the collector: what the threads' frames refer to, the
/// interned strings and the values of static fields.
pub open spec fn gc_root(
    threads: Seq<&JvmThread>,
    strings: Seq<usize>,
    statics: Seq<JvmValue>,
    r: int,
) -> bool {
    ||| exists|t: int, i: int|
        0 <= t < threads.len() && 0 <= i < threads[t]@.len() && frame_refers(
            #[trigger] threads[t]@[i],
            r,
        )
    ||| exists|k: int| 0 <= k < strings.len() && #[trigger] strings[k] == r
    ||| exists|k: int| 0 <= k < statics.len() && value_refers(#[trigger] statics[k], r)
}

/// The roots as a predicate on slots.
pub open spec fn gc_roots(threads: Seq<&JvmThread>, strings: Seq<usize>, statics: Seq<JvmValue>) -> spec_fn(
    int,
) -> bool {
    |r: int| gc_root(threads, strings, statics, r)
}

/// Every reference that an object or a root holds names an occupied slot.
pub open spec fn refs_valid(slots: Seq<Option<HeapObject>>, root: spec_fn(int) -> bool) -> bool {
    &&& forall|r: int| #[trigger] root(r) ==> 1 <= r < slots.len() && slots[r] is Some
    &&& forall|a: int, b: int| #[trigger] points_to(slots, a, b) ==> 1 <= b < slots.len() && slots[b] is Some
}

#[derive(Debug, Clone)]
pub struct JvmHeap {
    heap: Vec<Option<HeapObject>>,
    free_slots: Vec<usize>,
    min_allocations_before_gc: usize,
    /// allocations before GC
    allocations_counter: usize,
    /// if GC should run
    pub should_gc: bool,
}

impl View for JvmHeap {
    type V = Seq<Option<HeapObject>>;

    closed spec fn view(&self) -> Seq<Option<HeapObject>> {
        self.heap@
    }
}

impl JvmHeap {
    /// The slots that the next allocations take, the last one first.
    pub closed spec fn free_list(&self) -> Seq<usize> {
        self.free_slots@
    }

    /// A collection has been asked for.
    pub closed spec fn gc_due(&self) -> bool {
        self.should_gc
    }

    /// Allocations since the last collection.
    pub closed spec fn allocations(&self) -> nat {
        self.allocations_counter as nat
    }

    /// Allocations after which a collection is asked for once no slot is free.
    pub closed spec fn min_allocations(&self) -> nat {
        self.min_allocations_before_gc as nat
    }

    /// Slot 0 is never used; the free list holds each empty slot exactly once.
    pub closed spec fn wf(&self) -> bool {
        &&& self.heap@.len() >= 2
        &&& self.heap@[0] is None
        &&& self.free_slots@.no_duplicates()
        &&& forall|k: int|
            0 <= k < self.free_slots@.len() ==> 1 <= #[trigger] self.free_slots@[k] < self.heap@.len()
                && self.heap@[self.free_slots@[k] as int] is None
        &&& forall|i: int|
            1 <= i < self.heap@.len() && #[trigger] self.heap@[i] is None ==> self.free_slots@.contains(
                i as usize,
            )
        &&& self.free_slots@.len() + count_some(self.heap@) + 1 == self.heap@.len()
    }

    /// A heap of `initial_heap_size` slots (at least 2), all free.
    pub fn new(initial_heap_size: usize, min_allocations_before_gc: usize) -> (res: Self)
        ensures
            res.wf(),
            res@ == Seq::new(
                if initial_heap_size < 2 {
                    2nat
                } else {
                    initial_heap_size as nat
                },
                |i: int| None::<HeapObject>,
            ),
            res.free_list() == Seq::new((res@.len() - 1) as nat, |k: int| (k + 1) as usize),
            res.allocations() == 0,
            res.min_allocations() == min_allocations_before_gc,
            !res.gc_due(),
    {
        let heap_size = if initial_heap_size < 2 {
            2
        } else {
            initial_heap_size
        };
        let mut heap: Vec<Option<HeapObject>> = Vec::new();
        let mut free_slots: Vec<usize> = Vec::new();
        let mut i: usize = 0;
        while i < heap_size
            invariant
                i <= heap_size,
                heap@.len() == i,
                forall|k: int| 0 <= k < i ==> heap@[k] is None,
                free_slots@ == Seq::new((if i == 0 { 0 } else { i - 1 }) as nat, |k: int| (k + 1) as usize),
                count_some(heap@) == 0,
            decreases heap_size - i,
        {
            proof {
                lemma_count_some_push(heap@, None);
            }
            heap.push(None);
            if i > 0 {
                free_slots.push(i);
                assert(free_slots@ =~= Seq::new(i as nat, |k: int| (k + 1) as usize));
            } else {
                assert(free_slots@ =~= Seq::new(0nat, |k: int| (k + 1) as usize));
            }
            i += 1;
        }
        let res = Self {
            heap,
            free_slots,
            should_gc: false,
            allocations_counter: 0,
            min_allocations_before_gc,
        };
        proof {
            assert(res.heap@ =~= Seq::new(heap_size as nat, |i: int| None::<HeapObject>));
            assert forall|i: int|
                1 <= i < res.heap@.len() && #[trigger] res.heap@[i] is None implies res.free_slots@.contains(
                i as usize,
            ) by {
                assert(res.free_slots@[i - 1] == i as usize);
            }
        }
        res
    }

    /// The object in slot `reference`.
    pub fn get(&self, reference: usize) -> (res: &HeapObject)
        requires
            reference < self@.len(),
            self@[reference as int] is Some,
        ensures
            Some(*res) == self@[reference as int],
    {
        match &self.heap[reference] {
            Some(obj) => obj,
            None => vstd::pervasive::unreached(),
        }
    }

    /// The object in slot `reference`, to change in place.
    pub fn get_mut(&mut self, reference: usize) -> (res: &mut HeapObject)
        requires
            old(self).wf(),
            reference < old(self)@.len(),
            old(self)@[reference as int] is Some,
        ensures
            Some(*res) == old(self)@[reference as int],
            final(self)@ == old(self)@.update(reference as int, Some(*final(res))),
            final(self).wf(),
            final(self).free_list() == old(self).free_list(),
            final(self).allocations() == old(self).allocations(),
            final(self).min_allocations() == old(self).min_allocations(),
            final(self).gc_due() == old(self).gc_due(),
    {
        proof {
            assert forall|x: HeapObject| true implies count_some(self.heap@.update(reference as int, Some(x)))
                == count_some(self.heap@) by {
                lemma_count_some_update(self.heap@, reference as int, Some(x));
            }
        }
        match &mut self.heap[reference] {
            Some(obj) => obj,
            None => vstd::pervasive::unreached(),
        }
    }

    /// Puts `object` in the occupied slot `reference`.
    pub fn replace(&mut self, reference: usize, object: HeapObject)
        requires
            old(self).wf(),
            reference < old(self)@.len(),
            old(self)@[reference as int] is Some,
        ensures
            final(self).wf(),
            final(self)@ == old(self)@.update(reference as int, Some(object)),
            final(self).free_list() == old(self).free_list(),
            final(self).allocations() == old(self).allocations(),
            final(self).min_allocations() == old(self).min_allocations(),
            final(self).gc_due() == old(self).gc_due(),
    {
        proof {
            lemma_count_some_update(self.heap@, reference as int, Some(object));
        }
        self.heap.set(reference, Some(object));
        proof {
            assert forall|i: int|
                1 <= i < self.heap@.len() && #[trigger] self.heap@[i] is None implies self.free_slots@.contains(
                i as usize,
            ) by {
                assert(old(self).heap@[i] is None);
            }
        }
    }

    /// Puts `object` in a free slot (the last of the free list) or, when none
    /// is free, in a new slot at the end; returns that slot. A collection is
    /// then asked for when no slot is free and enough allocations were made.
    pub fn allocate(&mut self, object: HeapObject) -> (res: usize)
        requires
            old(self).wf(),
            old(self).allocations() < usize::MAX,
        ensures
            final(self).wf(),
            1 <= res < final(self)@.len(),
            final(self)@[res as int] == Some(object),
            !live(old(self)@, res),
            old(self).free_list().len() > 0 ==> res == old(self).free_list().last() && res < old(self)@.len() && final(self)@
                == old(self)@.update(res as int, Some(object)) && final(self).free_list() == old(
                self,
            ).free_list().drop_last(),
            old(self).free_list().len() == 0 ==> res == old(self)@.len() && final(self)@ == old(
                self,
            )@.push(Some(object)) && final(self).free_list() == old(self).free_list(),
            final(self).allocations() == old(self).allocations() + 1,
            final(self).min_allocations() == old(self).min_allocations(),
            final(self).gc_due() == (final(self).free_list().len() == 0 && final(self).allocations()
                >= final(self).min_allocations()),
    {
        self.allocations_counter += 1;
        let reference = if let Some(free_index) = self.free_slots.pop() {
            proof {
                assert(old(self).free_slots@.last() == free_index);
                lemma_count_some_update(self.heap@, free_index as int, Some(object));
            }
            self.heap.set(free_index, Some(object));
            proof {
                assert forall|k: int| 0 <= k < self.free_slots@.len() implies 1
                    <= #[trigger] self.free_slots@[k] < self.heap@.len()
                    && self.heap@[self.free_slots@[k] as int] is None by {
                    assert(old(self).free_slots@[k] == self.free_slots@[k]);
                    assert(old(self).free_slots@.no_duplicates());
                    assert(self.free_slots@[k] != free_index);
                }
                assert forall|i: int|
                    1 <= i < self.heap@.len() && #[trigger] self.heap@[i] is None implies self.free_slots@.contains(
                    i as usize,
                ) by {
                    assert(self.heap@[free_index as int] is Some);
                    assert(i != free_index as int);
                    assert(self.heap.len() == self.heap@.len());
                    assert(old(self).heap@[i] is None);
                    assert(old(self).free_slots@.contains(i as usize));
                    let k = choose|k: int|
                        0 <= k < old(self).free_slots@.len() && old(self).free_slots@[k] == i as usize;
                    assert(k != old(self).free_slots@.len() - 1);
                    assert(self.free_slots@[k] == i as usize);
                }
            }
            free_index
        } else {
            let new_index = self.heap.len();
            proof {
                lemma_count_some_push(self.heap@, Some(object));
            }
            self.heap.push(Some(object));
            proof {
                assert forall|i: int|
                    1 <= i < self.heap@.len() && #[trigger] self.heap@[i] is None implies self.free_slots@.contains(
                    i as usize,
                ) by {
                    assert(i < old(self).heap@.len());
                    assert(old(self).heap@[i] is None);
                }
            }
            new_index
        };
        self.should_gc = self.free_slots.len() == 0 && self.allocations_counter
            >= self.min_allocations_before_gc;
        reference
    }

    /// Number of occupied slots.
    pub fn get_allocated_count(&self) -> (res: usize)
        requires
            self.wf(),
        ensures
            res == count_some(self@),
    {
        self.heap.len() - self.free_slots.len() - 1
    }

    /// Number of slots, free or occupied, slot 0 included.
    pub fn heap_size(&self) -> (res: usize)
        ensures
            res == self@.len(),
    {
        self.heap.len()
    }

    /// Whether slot `reference` holds an object.
    pub fn is_live(&self, reference: usize) -> (res: bool)
        ensures
            res == live(self@, reference),
    {
        reference < self.heap.len() && self.heap[reference].is_some()
    }

    /// Whether the allocation counter can count one more allocation.
    pub fn can_allocate(&self) -> (res: bool)
        ensures
            res == (self.allocations() < usize::MAX),
    {
        self.allocations_counter < usize::MAX
    }

    /// Frees every object that no root reaches, by following references from
    /// the threads' frames, the interned strings and the static field values;
    /// the reachable objects stay as they were. The freed slots join the free
    /// list and the allocation counter starts again.
    pub fn perform_gc(
        &mut self,
        threads: &[&JvmThread],
        strings_in_string_pool: &[usize],
        static_field_values: &[JvmValue],
    )
        requires
            old(self).wf(),
            refs_valid(
                old(self)@,
                gc_roots(threads@, strings_in_string_pool@, static_field_values@),
            ),
        ensures
            final(self).wf(),
            final(self)@.len() == old(self)@.len(),
            forall|i: int|
                0 <= i < old(self)@.len() ==> #[trigger] final(self)@[i] == if reachable(
                    old(self)@,
                    gc_roots(threads@, strings_in_string_pool@, static_field_values@),
                    i,
                ) {
                    old(self)@[i]
                } else {
                    None
                },
            final(self).allocations() == 0,
            final(self).min_allocations() == old(self).min_allocations(),
            !final(self).gc_due(),
            final(self).free_list().len() >= old(self).free_list().len(),
            final(self).free_list().subrange(0, old(self).free_list().len() as int) == old(self).free_list(),
            forall|i: int|
                1 <= i < old(self)@.len() ==> (#[trigger] final(self).free_list().contains(i as usize) <==> (old(
                    self,
                ).free_list().contains(i as usize) || (old(self)@[i] is Some && !reachable(
                    old(self)@,
                    gc_roots(threads@, strings_in_string_pool@, static_field_values@),
                    i,
                )))),
    {
        self.allocations_counter = 0;
        self.should_gc = false;
        let ghost root = gc_roots(threads@, strings_in_string_pool@, static_field_values@);
        let mut reachable_objects: Vec<bool> = Vec::new();
        let mut i: usize = 0;
        while i < self.heap.len()
            invariant
                i <= self.heap@.len(),
                reachable_objects@.len() == i,
                forall|k: int| 0 <= k < i ==> !reachable_objects@[k],
            decreases self.heap@.len() - i,
        {
            reachable_objects.push(false);
            i += 1;
        }
        let mut object_refs: Vec<usize> = Vec::new();
        let ghost slots = self.heap@;
        proof {
            assert(marking_sound(slots, root, reachable_objects@, object_refs@, Set::empty()));
        }
        Self::find_inital_reachable(
            threads,
            strings_in_string_pool,
            static_field_values,
            Ghost(slots),
            &mut reachable_objects,
            &mut object_refs,
        );
        self.find_secondary_reachable(Ghost(root), &mut reachable_objects, &mut object_refs);
        proof {
            lemma_marked_is_reachable(slots, root, reachable_objects@);
        }
        self.free_undreachable_objects(&reachable_objects);
    }
}


/// Number of unmarked slots.
pub open spec fn count_false(s: Seq<bool>) -> nat
    decreases s.len(),
{
    if s.len() == 0 {
        0
    } else {
        count_false(s.drop_last()) + if s.last() {
            0nat
        } else {
            1nat
        }
    }
}

pub proof fn lemma_count_false_mark(s: Seq<bool>, i: int)
    requires
        0 <= i < s.len(),
        !s[i],
    ensures
        count_false(s.update(i, true)) + 1 == count_false(s),
    decreases s.len(),
{
    if i == s.len() - 1 {
        assert(s.update(i, true).drop_last() =~= s.drop_last());
    } else {
        lemma_count_false_mark(s.drop_last(), i);
        assert(s.update(i, true).drop_last() =~= s.drop_last().update(i, true));
    }
}

/// The state of the marking phase: `marked` slots are reachable objects;
/// the work list holds marked slots, once each; a marked slot that is neither
/// on the work list nor `pending` has all the slots it refers to marked.
pub open spec fn marking_sound(
    slots: Seq<Option<HeapObject>>,
    root: spec_fn(int) -> bool,
    marked: Seq<bool>,
    wl: Seq<usize>,
    pending: Set<usize>,
) -> bool {
    &&& marked.len() == slots.len()
    &&& !marked[0]
    &&& forall|i: int|
        0 <= i < marked.len() && #[trigger] marked[i] ==> reachable(slots, root, i) && 1 <= i
            && slots[i] is Some
    &&& wl.no_duplicates()
    &&& forall|k: int|
        0 <= k < wl.len() ==> (#[trigger] wl[k]) < marked.len() && marked[wl[k] as int]
            && !pending.contains(wl[k])
    &&& forall|x: usize| #[trigger] pending.contains(x) ==> (x as int) < marked.len() && marked[x as int]
    &&& forall|a: int, b: int|
        0 <= a < marked.len() && marked[a] && !wl.contains(a as usize) && !pending.contains(
            a as usize,
        ) && #[trigger] points_to(slots, a, b) ==> 0 <= b < marked.len() && marked[b]
}

/// Under valid references, a reachable slot is occupied.
proof fn lemma_reachable_valid(slots: Seq<Option<HeapObject>>, root: spec_fn(int) -> bool, r: int)
    requires
        refs_valid(slots, root),
        reachable(slots, root, r),
    ensures
        1 <= r < slots.len() && slots[r] is Some,
{
    let p = choose|p: Seq<int>| #[trigger] is_path(slots, p) && root(p[0]) && p.last() == r;
    if p.len() == 1 {
        assert(root(p[0]));
    } else {
        assert(path_step(slots, p, p.len() - 2));
    }
}

proof fn lemma_root_path(slots: Seq<Option<HeapObject>>, root: spec_fn(int) -> bool, r: int)
    requires
        root(r),
    ensures
        reachable(slots, root, r),
{
    let p = seq![r];
    assert(is_path(slots, p));
}

proof fn lemma_path_step(slots: Seq<Option<HeapObject>>, root: spec_fn(int) -> bool, a: int, b: int)
    requires
        reachable(slots, root, a),
        points_to(slots, a, b),
    ensures
        reachable(slots, root, b),
{
    let p = choose|p: Seq<int>| #[trigger] is_path(slots, p) && root(p[0]) && p.last() == a;
    let q = p.push(b);
    assert forall|i: int| 0 <= i < q.len() - 1 implies #[trigger] path_step(slots, q, i) by {
        if i < p.len() - 1 {
            assert(path_step(slots, p, i));
            assert(q[i] == p[i] && q[i + 1] == p[i + 1]);
        } else {
            assert(q[i] == a && q[i + 1] == b);
        }
    }
    assert(is_path(slots, q));
}

/// Once the work list is empty and every root is marked, the marked slots
/// are exactly the reachable ones.
proof fn lemma_marked_is_reachable(
    slots: Seq<Option<HeapObject>>,
    root: spec_fn(int) -> bool,
    marked: Seq<bool>,
)
    requires
        marking_sound(slots, root, marked, Seq::empty(), Set::empty()),
        forall|r: int| #[trigger] root(r) ==> 0 <= r < marked.len() && marked[r],
    ensures
        forall|i: int| 0 <= i < slots.len() ==> (#[trigger] marked[i] <==> reachable(slots, root, i)),
{
    assert forall|i: int| 0 <= i < slots.len() && reachable(slots, root, i) implies #[trigger] marked[i] by {
        let p = choose|p: Seq<int>| #[trigger] is_path(slots, p) && root(p[0]) && p.last() == i;
        lemma_path_marked(slots, root, marked, p, p.len() - 1);
    }
}

proof fn lemma_path_marked(
    slots: Seq<Option<HeapObject>>,
    root: spec_fn(int) -> bool,
    marked: Seq<bool>,
    p: Seq<int>,
    j: int,
)
    requires
        marking_sound(slots, root, marked, Seq::empty(), Set::empty()),
        forall|r: int| #[trigger] root(r) ==> 0 <= r < marked.len() && marked[r],
        is_path(slots, p),
        root(p[0]),
        0 <= j < p.len(),
    ensures
        0 <= p[j] < marked.len() && marked[p[j]],
    decreases j,
{
    if j > 0 {
        lemma_path_marked(slots, root, marked, p, j - 1);
        assert(path_step(slots, p, j - 1));
        assert(!Seq::<usize>::empty().contains(p[j - 1] as usize));
    }
}

impl JvmHeap {
    /// Marks the slot that `value` refers to, when it is a reference to an
    /// unmarked slot, and puts it on the work list.
    fn mark_reachable_if_ref(
        value: JvmValue,
        Ghost(slots): Ghost<Seq<Option<HeapObject>>>,
        Ghost(root): Ghost<spec_fn(int) -> bool>,
        Ghost(pending): Ghost<Set<usize>>,
        reachable_objects: &mut Vec<bool>,
        object_refs: &mut Vec<usize>,
    )
        requires
            marking_sound(slots, root, old(reachable_objects)@, old(object_refs)@, pending),
            refs_valid(slots, root),
            forall|r: int| value_refers(value, r) ==> reachable(slots, root, r),
        ensures
            marking_sound(slots, root, final(reachable_objects)@, final(object_refs)@, pending),
            forall|r: int|
                value_refers(value, r) ==> 0 <= r < final(reachable_objects)@.len()
                    && final(reachable_objects)@[r],
            final(reachable_objects)@.len() == old(reachable_objects)@.len(),
            forall|i: int|
                0 <= i < old(reachable_objects)@.len() && old(reachable_objects)@[i]
                    ==> #[trigger] final(reachable_objects)@[i],
            2 * count_false(final(reachable_objects)@) + final(object_refs)@.len() <= 2 * count_false(
                old(reachable_objects)@,
            ) + old(object_refs)@.len(),
    {
        if let JvmValue::Reference(Some(reference)) = value {
            proof {
                assert(value_refers(value, reference as int));
                lemma_reachable_valid(slots, root, reference as int);
            }
            if !reachable_objects[reference] {
                Self::mark(reference, Ghost(slots), Ghost(root), Ghost(pending), reachable_objects, object_refs);
            }
        }
    }

    /// Marks the unmarked, reachable slot `reference` and puts it on the work list.
    fn mark(
        reference: usize,
        Ghost(slots): Ghost<Seq<Option<HeapObject>>>,
        Ghost(root): Ghost<spec_fn(int) -> bool>,
        Ghost(pending): Ghost<Set<usize>>,
        reachable_objects: &mut Vec<bool>,
        object_refs: &mut Vec<usize>,
    )
        requires
            marking_sound(slots, root, old(reachable_objects)@, old(object_refs)@, pending),
            refs_valid(slots, root),
            1 <= reference < slots.len(),
            slots[reference as int] is Some,
            reachable(slots, root, reference as int),
            !old(reachable_objects)@[reference as int],
        ensures
            marking_sound(slots, root, final(reachable_objects)@, final(object_refs)@, pending),
            final(reachable_objects)@ == old(reachable_objects)@.update(reference as int, true),
            final(object_refs)@ == old(object_refs)@.push(reference),
            2 * count_false(final(reachable_objects)@) + final(object_refs)@.len() + 1 == 2
                * count_false(old(reachable_objects)@) + old(object_refs)@.len(),
    {
        proof {
            lemma_count_false_mark(reachable_objects@, reference as int);
            assert(!old(object_refs)@.contains(reference));
            assert(!pending.contains(reference));
        }
        object_refs.push(reference);
        reachable_objects.set(reference, true);
        proof {
            let m = reachable_objects@;
            let wl = object_refs@;
            assert forall|k: int| 0 <= k < wl.len() implies (#[trigger] wl[k]) < m.len() && m[wl[k] as int]
                && !pending.contains(wl[k]) by {
                if k < wl.len() - 1 {
                    assert(wl[k] == old(object_refs)@[k]);
                }
            }
            assert forall|a: int, b: int|
                0 <= a < m.len() && m[a] && !wl.contains(a as usize) && !pending.contains(a as usize)
                    && #[trigger] points_to(slots, a, b) implies 0 <= b < m.len() && m[b] by {
                if a == reference as int {
                    assert(wl[wl.len() - 1] == a as usize);
                }
                assert(a != reference);
                assert(!old(object_refs)@.contains(a as usize)) by {
                    if old(object_refs)@.contains(a as usize) {
                        let k = choose|k: int|
                            0 <= k < old(object_refs)@.len() && old(object_refs)@[k] == a as usize;
                        assert(wl[k] == a as usize);
                    }
                }
            }
        }
    }

    /// Marks every slot that a value of `values` refers to.
    fn mark_values(
        values: &[JvmValue],
        Ghost(slots): Ghost<Seq<Option<HeapObject>>>,
        Ghost(root): Ghost<spec_fn(int) -> bool>,
        reachable_objects: &mut Vec<bool>,
        object_refs: &mut Vec<usize>,
    )
        requires
            marking_sound(slots, root, old(reachable_objects)@, old(object_refs)@, Set::empty()),
            refs_valid(slots, root),
            forall|k: int, r: int|
                0 <= k < values@.len() && #[trigger] value_refers(values@[k], r) ==> root(r),
        ensures
            marking_sound(slots, root, final(reachable_objects)@, final(object_refs)@, Set::empty()),
            forall|k: int, r: int|
                0 <= k < values@.len() && #[trigger] value_refers(values@[k], r) ==> 0 <= r
                    < final(reachable_objects)@.len() && final(reachable_objects)@[r],
            final(reachable_objects)@.len() == old(reachable_objects)@.len(),
            forall|i: int|
                0 <= i < old(reachable_objects)@.len() && old(reachable_objects)@[i]
                    ==> #[trigger] final(reachable_objects)@[i],
    {
        let mut i: usize = 0;
        while i < values.len()
            invariant
                marking_sound(slots, root, reachable_objects@, object_refs@, Set::empty()),
                refs_valid(slots, root),
                forall|k: int, r: int|
                    0 <= k < values@.len() && #[trigger] value_refers(values@[k], r) ==> root(r),
                i <= values@.len(),
                forall|k: int, r: int|
                    0 <= k < i && #[trigger] value_refers(values@[k], r) ==> 0 <= r
                        < reachable_objects@.len() && reachable_objects@[r],
                reachable_objects@.len() == old(reachable_objects)@.len(),
                forall|j: int|
                    0 <= j < old(reachable_objects)@.len() && old(reachable_objects)@[j]
                        ==> #[trigger] reachable_objects@[j],
            decreases values@.len() - i,
        {
            let ghost before = reachable_objects@;
            proof {
                assert forall|r: int| value_refers(values@[i as int], r) implies reachable(slots, root, r) by {
                    lemma_root_path(slots, root, r);
                }
            }
            Self::mark_reachable_if_ref(
                values[i],
                Ghost(slots),
                Ghost(root),
                Ghost(Set::empty()),
                reachable_objects,
                object_refs,
            );
            proof {
                assert forall|k: int, r: int|
                    0 <= k < i + 1 && #[trigger] value_refers(values@[k], r) implies 0 <= r
                        < reachable_objects@.len() && reachable_objects@[r] by {
                    if k < i {
                        assert(before[r]);
                    }
                }
            }
            i += 1;
        }
    }

    /// Marks what the roots refer to: static field values, interned strings,
    /// then the local variables, operand stacks and return values of every
    /// frame of every thread.
    fn find_inital_reachable(
        threads: &[&JvmThread],
        strings_in_string_pool: &[usize],
        static_field_values: &[JvmValue],
        Ghost(slots): Ghost<Seq<Option<HeapObject>>>,
        reachable_objects: &mut Vec<bool>,
        object_refs: &mut Vec<usize>,
    )
        requires
            marking_sound(
                slots,
                gc_roots(threads@, strings_in_string_pool@, static_field_values@),
                old(reachable_objects)@,
                old(object_refs)@,
                Set::empty(),
            ),
            refs_valid(slots, gc_roots(threads@, strings_in_string_pool@, static_field_values@)),
        ensures
            marking_sound(
                slots,
                gc_roots(threads@, strings_in_string_pool@, static_field_values@),
                final(reachable_objects)@,
                final(object_refs)@,
                Set::empty(),
            ),
            forall|r: int|
                #[trigger] gc_root(threads@, strings_in_string_pool@, static_field_values@, r) ==> 0
                    <= r < final(reachable_objects)@.len() && final(reachable_objects)@[r],
    {
        let ghost root = gc_roots(threads@, strings_in_string_pool@, static_field_values@);
        proof {
            assert forall|k: int, r: int|
                0 <= k < static_field_values@.len() && #[trigger] value_refers(static_field_values@[k],
                    r,
                ) implies root(r) by {
                assert(gc_root(threads@, strings_in_string_pool@, static_field_values@, r));
            }
        }
        Self::mark_values(static_field_values, Ghost(slots), Ghost(root), reachable_objects, object_refs);
        let mut s: usize = 0;
        while s < strings_in_string_pool.len()
            invariant
                root == gc_roots(threads@, strings_in_string_pool@, static_field_values@),
                marking_sound(slots, root, reachable_objects@, object_refs@, Set::empty()),
                refs_valid(slots, root),
                s <= strings_in_string_pool@.len(),
                forall|k: int, r: int|
                    0 <= k < static_field_values@.len() && #[trigger] value_refers(static_field_values@[k],
                        r,
                    ) ==> 0 <= r < reachable_objects@.len() && reachable_objects@[r],
                forall|k: int|
                    0 <= k < s ==> (#[trigger] strings_in_string_pool@[k]) < reachable_objects@.len()
                        && reachable_objects@[strings_in_string_pool@[k] as int],
            decreases strings_in_string_pool@.len() - s,
        {
            let string_ref = strings_in_string_pool[s];
            proof {
                assert(gc_root(threads@, strings_in_string_pool@, static_field_values@, string_ref as int));
                assert(root(string_ref as int));
                lemma_root_path(slots, root, string_ref as int);
            }
            if !reachable_objects[string_ref] {
                Self::mark(
                    string_ref,
                    Ghost(slots),
                    Ghost(root),
                    Ghost(Set::empty()),
                    reachable_objects,
                    object_refs,
                );
            }
            s += 1;
        }
        let mut t: usize = 0;
        while t < threads.len()
            invariant
                root == gc_roots(threads@, strings_in_string_pool@, static_field_values@),
                marking_sound(slots, root, reachable_objects@, object_refs@, Set::empty()),
                refs_valid(slots, root),
                t <= threads@.len(),
                forall|k: int, r: int|
                    0 <= k < static_field_values@.len() && #[trigger] value_refers(static_field_values@[k],
                        r,
                    ) ==> 0 <= r < reachable_objects@.len() && reachable_objects@[r],
                forall|k: int|
                    0 <= k < strings_in_string_pool@.len() ==> (#[trigger] strings_in_string_pool@[k])
                        < reachable_objects@.len() && reachable_objects@[strings_in_string_pool@[k] as int],
                forall|u: int, i: int, r: int|
                    0 <= u < t && 0 <= i < threads@[u]@.len() && #[trigger] frame_refers(threads@[u]@[i],
                        r,
                    ) ==> 0 <= r < reachable_objects@.len() && reachable_objects@[r],
            decreases threads@.len() - t,
        {
            let frames = threads[t].get_stack_frames();
            let mut f: usize = 0;
            while f < frames.len()
                invariant
                    root == gc_roots(threads@, strings_in_string_pool@, static_field_values@),
                    marking_sound(slots, root, reachable_objects@, object_refs@, Set::empty()),
                    refs_valid(slots, root),
                    t < threads@.len(),
                    frames@ == threads@[t as int]@,
                    f <= frames@.len(),
                    forall|k: int, r: int|
                        0 <= k < static_field_values@.len() && #[trigger] value_refers(static_field_values@[k],
                            r,
                        ) ==> 0 <= r < reachable_objects@.len() && reachable_objects@[r],
                    forall|k: int|
                        0 <= k < strings_in_string_pool@.len() ==> (#[trigger] strings_in_string_pool@[k])
                            < reachable_objects@.len()
                            && reachable_objects@[strings_in_string_pool@[k] as int],
                    forall|u: int, i: int, r: int|
                        0 <= u < t && 0 <= i < threads@[u]@.len() && #[trigger] frame_refers(threads@[u]@[i],
                            r,
                        ) ==> 0 <= r < reachable_objects@.len() && reachable_objects@[r],
                    forall|i: int, r: int|
                        0 <= i < f && #[trigger] frame_refers(frames@[i], r) ==> 0 <= r
                            < reachable_objects@.len() && reachable_objects@[r],
                decreases frames@.len() - f,
            {
                let frame = &frames[f];
                let ghost before = reachable_objects@;
                proof {
                    assert forall|k: int, r: int|
                        0 <= k < frame.local_variables@.len() && #[trigger] value_refers(frame.local_variables@[k],
                            r,
                        ) implies root(r) by {
                        assert(frame_refers(threads@[t as int]@[f as int], r));
                        assert(gc_root(threads@, strings_in_string_pool@, static_field_values@, r));
                    }
                    assert forall|k: int, r: int|
                        0 <= k < frame.operand_stack@.len() && #[trigger] value_refers(frame.operand_stack@[k],
                            r,
                        ) implies root(r) by {
                        assert(frame_refers(threads@[t as int]@[f as int], r));
                        assert(gc_root(threads@, strings_in_string_pool@, static_field_values@, r));
                    }
                }
                Self::mark_values(
                    frame.local_variables.as_slice(),
                    Ghost(slots),
                    Ghost(root),
                    reachable_objects,
                    object_refs,
                );
                Self::mark_values(
                    frame.operand_stack.as_slice(),
                    Ghost(slots),
                    Ghost(root),
                    reachable_objects,
                    object_refs,
                );
                if let Some(return_value) = frame.return_value {
                    proof {
                        assert forall|r: int| value_refers(return_value, r) implies reachable(
                            slots,
                            root,
                            r,
                        ) by {
                            assert(frame_refers(threads@[t as int]@[f as int], r));
                            assert(gc_root(threads@, strings_in_string_pool@, static_field_values@, r));
                            lemma_root_path(slots, root, r);
                        }
                    }
                    Self::mark_reachable_if_ref(
                        return_value,
                        Ghost(slots),
                        Ghost(root),
                        Ghost(Set::empty()),
                        reachable_objects,
                        object_refs,
                    );
                }
                proof {
                    assert forall|i: int, r: int|
                        0 <= i < f + 1 && #[trigger] frame_refers(frames@[i], r) implies 0 <= r
                            < reachable_objects@.len() && reachable_objects@[r] by {
                        if i < f {
                            assert(before[r]);
                        }
                    }
                }
                f += 1;
            }
            t += 1;
        }
    }

    /// Follows the references held by marked objects until the work list is empty.
    fn find_secondary_reachable(
        &self,
        Ghost(root): Ghost<spec_fn(int) -> bool>,
        reachable_objects: &mut Vec<bool>,
        object_refs: &mut Vec<usize>,
    )
        requires
            marking_sound(self@, root, old(reachable_objects)@, old(object_refs)@, Set::empty()),
            refs_valid(self@, root),
            forall|r: int| #[trigger] root(r) ==> 0 <= r < old(reachable_objects)@.len() && old(reachable_objects)@[r],
        ensures
            marking_sound(self@, root, final(reachable_objects)@, Seq::empty(), Set::empty()),
            final(object_refs)@.len() == 0,
            forall|r: int| #[trigger] root(r) ==> 0 <= r < final(reachable_objects)@.len() && final(reachable_objects)@[r],
    {
        let ghost slots = self@;
        while object_refs.len() > 0
            invariant
                slots == self@,
                marking_sound(slots, root, reachable_objects@, object_refs@, Set::empty()),
                refs_valid(slots, root),
                forall|r: int| #[trigger] root(r) ==> 0 <= r < reachable_objects@.len() && reachable_objects@[r],
            decreases 2 * count_false(reachable_objects@) + object_refs@.len(),
        {
            let ghost wl0 = object_refs@;
            let ghost measure0: nat = 2 * count_false(reachable_objects@) + object_refs@.len();
            let obj_ref = match object_refs.pop() {
                Some(r) => r,
                None => vstd::pervasive::unreached(),
            };
            let ghost pending = Set::empty().insert(obj_ref);
            proof {
                assert(wl0[wl0.len() - 1] == obj_ref);
                assert(!object_refs@.contains(obj_ref)) by {
                    if object_refs@.contains(obj_ref) {
                        let k = choose|k: int| 0 <= k < object_refs@.len() && object_refs@[k] == obj_ref;
                        assert(wl0[k] == wl0[wl0.len() - 1]);
                    }
                }
                assert forall|k: int| 0 <= k < object_refs@.len() implies (#[trigger] object_refs@[k])
                    < reachable_objects@.len() && reachable_objects@[object_refs@[k] as int]
                    && !pending.contains(object_refs@[k]) by {
                    assert(object_refs@[k] == wl0[k]);
                }
                assert forall|a: int, b: int|
                    0 <= a < reachable_objects@.len() && reachable_objects@[a] && !object_refs@.contains(
                        a as usize,
                    ) && !pending.contains(a as usize) && #[trigger] points_to(slots, a, b) implies 0
                    <= b < reachable_objects@.len() && reachable_objects@[b] by {
                    assert(!wl0.contains(a as usize)) by {
                        if wl0.contains(a as usize) {
                            let k = choose|k: int| 0 <= k < wl0.len() && wl0[k] == a as usize;
                            if k < wl0.len() - 1 {
                                assert(object_refs@[k] == a as usize);
                            }
                        }
                    }
                }
                assert(marking_sound(slots, root, reachable_objects@, object_refs@, pending));
            }
            let obj = match &self.heap[obj_ref] {
                Some(o) => o,
                None => vstd::pervasive::unreached(),
            };
            match obj {
                HeapObject::Object { class: _, fields } => {
                    let mut k: usize = 0;
                    while k < fields.len()
                        invariant
                            slots == self@,
                            slots[obj_ref as int] == Some(*obj),
                            *obj == (HeapObject::Object { class: obj->class, fields: *fields }),
                            marking_sound(slots, root, reachable_objects@, object_refs@, pending),
                            pending == Set::empty().insert(obj_ref),
                            refs_valid(slots, root),
                            reachable(slots, root, obj_ref as int),
                            1 <= obj_ref < slots.len(),
                            k <= fields@.len(),
                            forall|r: int| #[trigger] root(r) ==> 0 <= r < reachable_objects@.len() && reachable_objects@[r],
                            forall|j: int, r: int|
                                0 <= j < k && #[trigger] value_refers(fields@[j], r) ==> 0 <= r
                                    < reachable_objects@.len() && reachable_objects@[r],
                            2 * count_false(reachable_objects@) + object_refs@.len() < measure0,
                        decreases fields@.len() - k,
                    {
                        let ghost before = reachable_objects@;
                        proof {
                            assert forall|r: int| value_refers(fields@[k as int], r) implies reachable(
                                slots,
                                root,
                                r,
                            ) by {
                                assert(value_refers(fields@[k as int], r));
                                assert(obj->fields@[k as int] == fields@[k as int]);
                                assert(holds_ref(*obj, r));
                                assert(points_to(slots, obj_ref as int, r));
                                lemma_path_step(slots, root, obj_ref as int, r);
                            }
                        }
                        Self::mark_reachable_if_ref(
                            fields[k],
                            Ghost(slots),
                            Ghost(root),
                            Ghost(pending),
                            reachable_objects,
                            object_refs,
                        );
                        proof {
                            assert forall|j: int, r: int|
                                0 <= j < k + 1 && #[trigger] value_refers(fields@[j], r) implies 0 <= r
                                    < reachable_objects@.len() && reachable_objects@[r] by {
                                if j < k {
                                    assert(before[r]);
                                }
                            }
                        }
                        k += 1;
                    }
                    proof {
                        assert forall|b: int| #[trigger] points_to(slots, obj_ref as int, b) implies 0 <= b
                            < reachable_objects@.len() && reachable_objects@[b] by {
                            let j = choose|j: int|
                                0 <= j < fields@.len() && value_refers(#[trigger] fields@[j], b);
                            assert(value_refers(fields@[j], b));
                        }
                    }
                },
                HeapObject::ObjectArray(arr) => {
                    let mut k: usize = 0;
                    while k < arr.array.len()
                        invariant
                            slots == self@,
                            slots[obj_ref as int] == Some(*obj),
                            *obj == HeapObject::ObjectArray(*arr),
                            marking_sound(slots, root, reachable_objects@, object_refs@, pending),
                            pending == Set::empty().insert(obj_ref),
                            refs_valid(slots, root),
                            reachable(slots, root, obj_ref as int),
                            1 <= obj_ref < slots.len(),
                            k <= arr.array@.len(),
                            forall|r: int| #[trigger] root(r) ==> 0 <= r < reachable_objects@.len() && reachable_objects@[r],
                            forall|j: int|
                                0 <= j < k && (#[trigger] arr.array@[j]) is Some ==> (arr.array@[j]->0 as int)
                                    < reachable_objects@.len() && reachable_objects@[arr.array@[j]->0 as int],
                            2 * count_false(reachable_objects@) + object_refs@.len() < measure0,
                        decreases arr.array@.len() - k,
                    {
                        let ghost before = reachable_objects@;
                        if let Some(reference) = arr.array[k] {
                            proof {
                                assert(holds_ref(*obj, reference as int));
                                assert(points_to(slots, obj_ref as int, reference as int));
                                lemma_path_step(slots, root, obj_ref as int, reference as int);
                                lemma_reachable_valid(slots, root, reference as int);
                            }
                            if !reachable_objects[reference] {
                                Self::mark(
                                    reference,
                                    Ghost(slots),
                                    Ghost(root),
                                    Ghost(pending),
                                    reachable_objects,
                                    object_refs,
                                );
                            }
                        }
                        proof {
                            assert forall|j: int|
                                0 <= j < k + 1 && (#[trigger] arr.array@[j]) is Some implies (
                                arr.array@[j]->0 as int) < reachable_objects@.len()
                                && reachable_objects@[arr.array@[j]->0 as int] by {
                                if j < k {
                                    assert(before[arr.array@[j]->0 as int]);
                                }
                            }
                        }
                        k += 1;
                    }
                    proof {
                        assert forall|b: int| #[trigger] points_to(slots, obj_ref as int, b) implies 0 <= b
                            < reachable_objects@.len() && reachable_objects@[b] by {
                            let j = choose|j: int|
                                0 <= j < arr.array@.len() && elem_refers(#[trigger] arr.array@[j], b);
                            assert(arr.array@[j] is Some);
                        }
                    }
                },
                _ => {
                    proof {
                        assert forall|b: int| #[trigger] points_to(slots, obj_ref as int, b) implies false by {}
                    }
                },
            }
            proof {
                let m = reachable_objects@;
                let wl = object_refs@;
                assert forall|a: int, b: int|
                    0 <= a < m.len() && m[a] && !wl.contains(a as usize) && !Set::<usize>::empty().contains(
                        a as usize,
                    ) && #[trigger] points_to(slots, a, b) implies 0 <= b < m.len() && m[b] by {
                    assert(reachable_objects.len() == m.len());
                    if a != obj_ref {
                        assert(!pending.contains(a as usize));
                    }
                }
            }
        }
    }

    /// Frees every occupied slot that is not marked; a freed slot joins the free list.
    fn free_undreachable_objects(&mut self, reachable_objects: &Vec<bool>)
        requires
            old(self).wf(),
            reachable_objects@.len() == old(self)@.len(),
            !reachable_objects@[0],
            forall|i: int| 0 <= i < reachable_objects@.len() && #[trigger] reachable_objects@[i] ==> old(self)@[i] is Some,
        ensures
            final(self).wf(),
            final(self)@.len() == old(self)@.len(),
            forall|i: int|
                0 <= i < old(self)@.len() ==> #[trigger] final(self)@[i] == if reachable_objects@[i] {
                    old(self)@[i]
                } else {
                    None
                },
            final(self).allocations() == old(self).allocations(),
            final(self).min_allocations() == old(self).min_allocations(),
            final(self).gc_due() == old(self).gc_due(),
            final(self).free_list().len() >= old(self).free_list().len(),
            final(self).free_list().subrange(0, old(self).free_list().len() as int) == old(self).free_list(),
            forall|i: int|
                1 <= i < old(self)@.len() ==> (#[trigger] final(self).free_list().contains(i as usize) <==> (old(
                    self,
                ).free_list().contains(i as usize) || (old(self)@[i] is Some && !reachable_objects@[i]))),
    {
        let ghost free0 = self.free_slots@;
        let mut index: usize = 1;
        while index < self.heap.len()
            invariant
                1 <= index <= self.heap@.len(),
                self.heap@.len() == old(self).heap@.len(),
                reachable_objects@.len() == self.heap@.len(),
                free0 == old(self).free_slots@,
                self.allocations_counter == old(self).allocations_counter,
                self.min_allocations_before_gc == old(self).min_allocations_before_gc,
                self.should_gc == old(self).should_gc,
                old(self).wf(),
                self.heap@[0] is None,
                forall|i: int|
                    1 <= i < index ==> #[trigger] self.heap@[i] == if reachable_objects@[i] {
                        old(self).heap@[i]
                    } else {
                        None
                    },
                forall|i: int| index <= i < self.heap@.len() ==> #[trigger] self.heap@[i] == old(self).heap@[i],
                self.free_slots@.subrange(0, free0.len() as int) == free0,
                self.free_slots@.len() >= free0.len(),
                forall|k: int|
                    free0.len() <= k < self.free_slots@.len() ==> 1 <= #[trigger] self.free_slots@[k] < index
                        && old(self).heap@[self.free_slots@[k] as int] is Some
                        && !reachable_objects@[self.free_slots@[k] as int],
                forall|k1: int, k2: int|
                    free0.len() <= k1 < k2 < self.free_slots@.len() ==> #[trigger] self.free_slots@[k1]
                        < #[trigger] self.free_slots@[k2],
                forall|i: int|
                    1 <= i < index && old(self).heap@[i] is Some && !reachable_objects@[i]
                        ==> #[trigger] self.free_slots@.contains(i as usize),
                self.free_slots@.len() + count_some(self.heap@) + 1 == self.heap@.len(),
            decreases self.heap@.len() - index,
        {
            if !reachable_objects[index] && self.heap[index].is_some() {
                let ghost fs = self.free_slots@;
                proof {
                    lemma_count_some_update(self.heap@, index as int, None);
                }
                self.heap.set(index, None);
                self.free_slots.push(index);
                proof {
                    assert(self.free_slots@.subrange(0, free0.len() as int) =~= fs.subrange(0, free0.len() as int));
                    assert forall|i: int|
                        1 <= i < index + 1 && old(self).heap@[i] is Some && !reachable_objects@[i]
                            implies #[trigger] self.free_slots@.contains(i as usize) by {
                        if i < index {
                            assert(fs.contains(i as usize));
                            let k = choose|k: int| 0 <= k < fs.len() && fs[k] == i as usize;
                            assert(self.free_slots@[k] == i as usize);
                        } else {
                            assert(self.free_slots@[fs.len() as int] == i as usize);
                        }
                    }
                }
            }
            index += 1;
        }
        proof {
            let fs = self.free_slots@;
            assert forall|k1: int, k2: int| 0 <= k1 < k2 < fs.len() implies fs[k1] != fs[k2] by {
                if k2 < free0.len() {
                    assert(free0[k1] == fs[k1] && free0[k2] == fs[k2]);
                } else if k1 < free0.len() {
                    assert(free0[k1] == fs[k1]);
                    assert(old(self).heap@[fs[k1] as int] is None);
                }
            }
            assert forall|k: int| 0 <= k < fs.len() implies 1 <= #[trigger] fs[k] < self.heap@.len()
                && self.heap@[fs[k] as int] is None by {
                if k < free0.len() {
                    assert(free0[k] == fs[k]);
                    assert(old(self).heap@[free0[k] as int] is None);
                }
                assert(self.heap@[fs[k] as int] == if reachable_objects@[fs[k] as int] {
                    old(self).heap@[fs[k] as int]
                } else {
                    None
                });
            }
            assert forall|i: int|
                1 <= i < self.heap@.len() && #[trigger] self.heap@[i] is None implies fs.contains(i as usize) by {
                if old(self).heap@[i] is None {
                    let k = choose|k: int| 0 <= k < free0.len() && free0[k] == i as usize;
                    assert(fs[k] == i as usize);
                }
            }
        }
    }
}

} // verus!
