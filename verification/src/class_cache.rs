//! What a class remembers of the constants its code has resolved, by
//! constant pool index. The entries sit in one array that covers the
//! indices from the lowest registered one to the highest.
use vstd::prelude::*;

use crate::jvm_cache::method_call_cache::{InterfaceMethodCallInfo, StaticMethodCallInfo, VirtualMethodCallInfo};
use crate::jvm_model::{ClassId, ObjectArrayType};
use std::rc::Rc;

verus! {

/// A resolved field: the class that declares it and its position there.
#[derive(Debug, Clone, Copy, PartialEq, Eq, Structural)]
pub struct FieldAccessInfo {
    pub target_class: ClassId,
    pub field_index: usize,
}

/// A resolved type: a class, or the element type of an array with its
/// dimension (0 when it is no array).
#[derive(Debug, Clone, Copy, PartialEq, Eq, Structural)]
pub struct TypeInfo {
    pub object_or_array: ObjectArrayType,
    /// dimension if array
    pub dimension: usize,
}

/// A resolved constant.
#[derive(Debug, Clone)]
pub enum CacheEntry {
    StaticMethodCall(StaticMethodCallInfo),
    VirtualMethodCall(VirtualMethodCallInfo),
    InterfaceMethodCall(InterfaceMethodCallInfo),
    Type(TypeInfo),
    StaticFieldAccess(FieldAccessInfo),
    NonStaticFieldAccess(FieldAccessInfo),
    StringPoolRef(usize),
}

/// Class specific runtime cached information.
#[derive(Debug)]
pub struct ClassCache {
    /// the constant pool index of the first slot
    offset: i64,
    array: Vec<Option<Rc<CacheEntry>>>,
    /// how many lookups found an entry of the kind asked for
    cache_hits: usize,
}

/// The number of occupied slots.
pub open spec fn count_occupied<T>(s: Seq<Option<T>>) -> nat
    decreases s.len(),
{
    if s.len() == 0 {
        0
    } else {
        count_occupied(s.drop_last()) + if s.last() is Some {
            1nat
        } else {
            0nat
        }
    }
}

proof fn lemma_count_occupied_append<T>(a: Seq<Option<T>>, b: Seq<Option<T>>)
    ensures
        count_occupied(a + b) == count_occupied(a) + count_occupied(b),
    decreases b.len(),
{
    if b.len() == 0 {
        assert(a + b =~= a);
    } else {
        lemma_count_occupied_append(a, b.drop_last());
        assert((a + b).drop_last() =~= a + b.drop_last());
    }
}

proof fn lemma_count_occupied_single<T>(x: Option<T>)
    ensures
        count_occupied(seq![x]) == if x is Some {
            1nat
        } else {
            0nat
        },
{
    assert(seq![x].drop_last() =~= Seq::<Option<T>>::empty());
    assert(count_occupied(Seq::<Option<T>>::empty()) == 0);
}

impl ClassCache {
    /// The slots cover constant pool indices, an empty cache starts at 0,
    /// and the first and the last slot are occupied.
    pub closed spec fn wf(&self) -> bool {
        &&& 0 <= self.offset
        &&& self.offset + self.array@.len() <= 0x10000
        &&& self.array@.len() == 0 ==> self.offset == 0
        &&& self.array@.len() > 0 ==> self.array@[0] is Some && self.array@.last() is Some
    }

    /// The entry registered for the constant at `index`.
    pub closed spec fn entry(&self, index: u16) -> Option<CacheEntry> {
        let i = index - self.offset;
        if 0 <= i < self.array@.len() {
            match self.array@[i] {
                Some(e) => Some(*e),
                None => None,
            }
        } else {
            None
        }
    }

    /// The number of slots.
    pub closed spec fn slots(&self) -> nat {
        self.array@.len()
    }

    /// The number of occupied slots.
    pub closed spec fn occupied(&self) -> nat {
        count_occupied(self.array@)
    }

    /// The lowest index the slots cover.
    pub closed spec fn first_index(&self) -> int {
        self.offset as int
    }

    /// The number of lookups that found what they asked for.
    pub closed spec fn hits(&self) -> nat {
        self.cache_hits as nat
    }

    pub fn new() -> (res: Self)
        ensures
            res.wf(),
            forall|i: u16| res.entry(i) is None,
            res.slots() == 0,
            res.occupied() == 0,
            res.hits() == 0,
    {
        Self { offset: 0, array: Vec::new(), cache_hits: 0 }
    }

    /// Registers `entry` for the constant at `index`, growing the slots at
    /// the front or the back when the index lies outside them.
    pub fn register(&mut self, index: u16, entry: Rc<CacheEntry>)
        requires
            old(self).wf(),
        ensures
            final(self).wf(),
            final(self).entry(index) == Some(*entry),
            forall|j: u16| j != index ==> final(self).entry(j) == old(self).entry(j),
            final(self).hits() == old(self).hits(),
            old(self).slots() == 0 ==> final(self).slots() == 1 && final(self).first_index() == index,
            old(self).slots() > 0 && index < old(self).first_index() ==> final(self).slots() == old(self).slots()
                + (old(self).first_index() - index) && final(self).first_index() == index,
            old(self).slots() > 0 && old(self).first_index() + old(self).slots() <= index ==> final(self).slots()
                == index - old(self).first_index() + 1 && final(self).first_index() == old(self).first_index(),
            old(self).slots() > 0 && old(self).first_index() <= index < old(self).first_index() + old(
                self,
            ).slots() ==> final(self).slots() == old(self).slots() && final(self).first_index() == old(
                self,
            ).first_index(),
            old(self).entry(index) is None ==> final(self).occupied() == old(self).occupied() + 1,
            old(self).entry(index) is Some ==> final(self).occupied() == old(self).occupied(),
            final(self).registered_indices() == old(self).registered_indices().insert(index as int),
    {
        let ghost old_array = self.array@;
        let ghost before = *self;
        let offset_index = index as i64 - self.offset;
        if offset_index >= 0 && (offset_index as usize) < self.array.len() {
            proof {
                lemma_count_occupied_append(
                    old_array.subrange(0, offset_index as int),
                    old_array.subrange(offset_index as int, old_array.len() as int),
                );
                lemma_count_occupied_append(
                    old_array.subrange(0, offset_index as int),
                    seq![Some(entry)] + old_array.subrange(offset_index + 1, old_array.len() as int),
                );
                lemma_count_occupied_append(
                    seq![old_array[offset_index as int]],
                    old_array.subrange(offset_index + 1, old_array.len() as int),
                );
                lemma_count_occupied_append(
                    seq![Some(entry)],
                    old_array.subrange(offset_index + 1, old_array.len() as int),
                );
                assert(old_array =~= old_array.subrange(0, offset_index as int) + old_array.subrange(
                    offset_index as int,
                    old_array.len() as int,
                ));
                assert(old_array.subrange(offset_index as int, old_array.len() as int) =~= seq![
                    old_array[offset_index as int],
                ] + old_array.subrange(offset_index + 1, old_array.len() as int));
                assert(old_array.update(offset_index as int, Some(entry)) =~= old_array.subrange(
                    0,
                    offset_index as int,
                ) + (seq![Some(entry)] + old_array.subrange(offset_index + 1, old_array.len() as int)));
                lemma_count_occupied_single(Some(entry));
                lemma_count_occupied_single(old_array[offset_index as int]);
            }
            self.array.set(offset_index as usize, Some(entry));
        } else if self.array.len() == 0 {
            self.offset = index as i64;
            self.array.push(Some(entry));
            proof {
                assert(count_occupied(old_array) == 0);
                lemma_count_occupied_single(Some(entry));
                assert(self.array@ =~= seq![Some(entry)]);
            }
        } else if offset_index < 0 {
            let number_to_extend = (0 - offset_index) as usize;
            self.offset = index as i64;
            let mut new_arr: Vec<Option<Rc<CacheEntry>>> = Vec::new();
            new_arr.push(Some(entry));
            proof {
                lemma_count_occupied_single(Some(entry));
                assert(new_arr@ =~= seq![Some(entry)]);
            }
            while new_arr.len() < number_to_extend
                invariant
                    1 <= new_arr@.len() <= number_to_extend,
                    new_arr@[0] == Some(entry),
                    forall|k: int| 1 <= k < new_arr@.len() ==> new_arr@[k] is None,
                    count_occupied(new_arr@) == 1,
                decreases number_to_extend - new_arr@.len(),
            {
                proof {
                    assert(new_arr@.push(None).drop_last() =~= new_arr@);
                }
                new_arr.push(None);
            }
            let mut rest: Vec<Option<Rc<CacheEntry>>> = Vec::new();
            std::mem::swap(&mut rest, &mut self.array);
            proof {
                lemma_count_occupied_append(new_arr@, rest@);
            }
            new_arr.append(&mut rest);
            self.array = new_arr;
        } else {
            let len = self.array.len();
            let number_to_extend = offset_index as usize - len + 1;
            let mut extension: Vec<Option<Rc<CacheEntry>>> = Vec::new();
            while extension.len() + 1 < number_to_extend
                invariant
                    extension@.len() + 1 <= number_to_extend,
                    forall|k: int| 0 <= k < extension@.len() ==> extension@[k] is None,
                    count_occupied(extension@) == 0,
                decreases number_to_extend - extension@.len(),
            {
                proof {
                    assert(extension@.push(None).drop_last() =~= extension@);
                }
                extension.push(None);
            }
            proof {
                assert(extension@.push(Some(entry)).drop_last() =~= extension@);
            }
            extension.push(Some(entry));
            proof {
                lemma_count_occupied_append(self.array@, extension@);
            }
            self.array.append(&mut extension);
        }
        proof {
            assert(self.registered_indices() =~= before.registered_indices().insert(index as int)) by {
                assert forall|j: int| #[trigger] self.registered_indices().contains(j) <==> before.registered_indices().insert(
                    index as int,
                ).contains(j) by {
                    if 0 <= j < 0x10000 && j != index as int {
                        assert((j as u16) != index);
                    }
                }
            }
        }
    }

    /// The entry for the constant at `index`, if registered.
    fn get_entry(&self, index: u16) -> (res: Option<&Rc<CacheEntry>>)
        requires
            self.wf(),
        ensures
            match res {
                Some(e) => self.entry(index) == Some(**e),
                None => self.entry(index) is None,
            },
    {
        let offset_index = index as i64 - self.offset;
        if offset_index < 0 || offset_index as usize >= self.array.len() {
            return None;
        }
        self.array[offset_index as usize].as_ref()
    }

    /// Counts a lookup that found what it asked for.
    fn count_hit(&mut self)
        ensures
            final(self).hits() == if old(self).hits() < usize::MAX {
                old(self).hits() + 1
            } else {
                old(self).hits()
            },
            final(self).array@ == old(self).array@,
            final(self).offset == old(self).offset,
    {
        self.cache_hits = self.cache_hits.saturating_add(1);
    }

    /// The resolved type registered for the constant at `index`.
    pub fn get_type(&mut self, index: u16) -> (res: Option<TypeInfo>)
        requires
            old(self).wf(),
        ensures
            final(self).wf(),
            forall|j: u16| final(self).entry(j) == old(self).entry(j),
            res == match old(self).entry(index) {
                Some(CacheEntry::Type(info)) => Some(info),
                _ => None,
            },
            res is Some ==> final(self).hits() == if old(self).hits() < usize::MAX {
                old(self).hits() + 1
            } else {
                old(self).hits()
            },
            res is None ==> final(self).hits() == old(self).hits(),
    {
        let found = match self.get_entry(index) {
            Some(entry) => match &**entry {
                CacheEntry::Type(info) => Some(*info),
                _ => None,
            },
            None => None,
        };
        if found.is_some() {
            self.count_hit();
        }
        found
    }

    /// The resolved non-static field registered for the constant at `index`.
    pub fn get_non_static_field_access(&mut self, index: u16) -> (res: Option<FieldAccessInfo>)
        requires
            old(self).wf(),
        ensures
            final(self).wf(),
            forall|j: u16| final(self).entry(j) == old(self).entry(j),
            res == match old(self).entry(index) {
                Some(CacheEntry::NonStaticFieldAccess(info)) => Some(info),
                _ => None,
            },
            res is Some ==> final(self).hits() == if old(self).hits() < usize::MAX {
                old(self).hits() + 1
            } else {
                old(self).hits()
            },
            res is None ==> final(self).hits() == old(self).hits(),
    {
        let found = match self.get_entry(index) {
            Some(entry) => match &**entry {
                CacheEntry::NonStaticFieldAccess(info) => Some(*info),
                _ => None,
            },
            None => None,
        };
        if found.is_some() {
            self.count_hit();
        }
        found
    }

    /// The resolved static field registered for the constant at `index`.
    pub fn get_static_field_access(&mut self, index: u16) -> (res: Option<FieldAccessInfo>)
        requires
            old(self).wf(),
        ensures
            final(self).wf(),
            forall|j: u16| final(self).entry(j) == old(self).entry(j),
            res == match old(self).entry(index) {
                Some(CacheEntry::StaticFieldAccess(info)) => Some(info),
                _ => None,
            },
            res is Some ==> final(self).hits() == if old(self).hits() < usize::MAX {
                old(self).hits() + 1
            } else {
                old(self).hits()
            },
            res is None ==> final(self).hits() == old(self).hits(),
    {
        let found = match self.get_entry(index) {
            Some(entry) => match &**entry {
                CacheEntry::StaticFieldAccess(info) => Some(*info),
                _ => None,
            },
            None => None,
        };
        if found.is_some() {
            self.count_hit();
        }
        found
    }

    /// The interned string registered for the constant at `index`.
    pub fn get_string_pool_ref(&mut self, index: u16) -> (res: Option<usize>)
        requires
            old(self).wf(),
        ensures
            final(self).wf(),
            forall|j: u16| final(self).entry(j) == old(self).entry(j),
            res == match old(self).entry(index) {
                Some(CacheEntry::StringPoolRef(r)) => Some(r),
                _ => None,
            },
            res is Some ==> final(self).hits() == if old(self).hits() < usize::MAX {
                old(self).hits() + 1
            } else {
                old(self).hits()
            },
            res is None ==> final(self).hits() == old(self).hits(),
    {
        let found = match self.get_entry(index) {
            Some(entry) => match &**entry {
                CacheEntry::StringPoolRef(string_ref) => Some(*string_ref),
                _ => None,
            },
            None => None,
        };
        if found.is_some() {
            self.count_hit();
        }
        found
    }

    /// The resolved virtual call registered for the constant at `index`.
    pub fn get_virtual_method(&mut self, index: u16) -> (res: Option<&VirtualMethodCallInfo>)
        requires
            old(self).wf(),
        ensures
            final(self).wf(),
            forall|j: u16| final(self).entry(j) == old(self).entry(j),
            match res {
                Some(info) => old(self).entry(index) == Some(CacheEntry::VirtualMethodCall(*info)),
                None => !(old(self).entry(index) matches Some(CacheEntry::VirtualMethodCall(_))),
            },
            res is Some ==> final(self).hits() == if old(self).hits() < usize::MAX {
                old(self).hits() + 1
            } else {
                old(self).hits()
            },
            res is None ==> final(self).hits() == old(self).hits(),
    {
        let is_virtual = match self.get_entry(index) {
            Some(entry) => match &**entry {
                CacheEntry::VirtualMethodCall(_) => true,
                _ => false,
            },
            None => false,
        };
        if !is_virtual {
            return None;
        }
        self.count_hit();
        match self.get_entry(index) {
            Some(entry) => match &**entry {
                CacheEntry::VirtualMethodCall(info) => Some(info),
                _ => None,
            },
            None => None,
        }
    }

    /// The resolved interface call registered for the constant at `index`.
    pub fn get_interface_method(&mut self, index: u16) -> (res: Option<&InterfaceMethodCallInfo>)
        requires
            old(self).wf(),
        ensures
            final(self).wf(),
            forall|j: u16| final(self).entry(j) == old(self).entry(j),
            match res {
                Some(info) => old(self).entry(index) == Some(CacheEntry::InterfaceMethodCall(*info)),
                None => !(old(self).entry(index) matches Some(CacheEntry::InterfaceMethodCall(_))),
            },
            res is Some ==> final(self).hits() == if old(self).hits() < usize::MAX {
                old(self).hits() + 1
            } else {
                old(self).hits()
            },
            res is None ==> final(self).hits() == old(self).hits(),
    {
        let is_interface = match self.get_entry(index) {
            Some(entry) => match &**entry {
                CacheEntry::InterfaceMethodCall(_) => true,
                _ => false,
            },
            None => false,
        };
        if !is_interface {
            return None;
        }
        self.count_hit();
        match self.get_entry(index) {
            Some(entry) => match &**entry {
                CacheEntry::InterfaceMethodCall(info) => Some(info),
                _ => None,
            },
            None => None,
        }
    }

    /// The resolved static call registered for the constant at `index`.
    pub fn get_static_method(&mut self, index: u16) -> (res: Option<&StaticMethodCallInfo>)
        requires
            old(self).wf(),
        ensures
            final(self).wf(),
            forall|j: u16| final(self).entry(j) == old(self).entry(j),
            match res {
                Some(info) => old(self).entry(index) == Some(CacheEntry::StaticMethodCall(*info)),
                None => !(old(self).entry(index) matches Some(CacheEntry::StaticMethodCall(_))),
            },
            res is Some ==> final(self).hits() == if old(self).hits() < usize::MAX {
                old(self).hits() + 1
            } else {
                old(self).hits()
            },
            res is None ==> final(self).hits() == old(self).hits(),
    {
        let is_static = match self.get_entry(index) {
            Some(entry) => match &**entry {
                CacheEntry::StaticMethodCall(_) => true,
                _ => false,
            },
            None => false,
        };
        if !is_static {
            return None;
        }
        self.count_hit();
        match self.get_entry(index) {
            Some(entry) => match &**entry {
                CacheEntry::StaticMethodCall(info) => Some(info),
                _ => None,
            },
            None => None,
        }
    }

    /// The number of lookups that found what they asked for.
    pub fn get_cache_hits(&self) -> (res: usize)
        ensures
            res == self.hits(),
    {
        self.cache_hits
    }

    /// The number of occupied slots and the number of all slots.
    pub fn get_storage_efficiency(&self) -> (res: (usize, usize))
        ensures
            res.0 == self.occupied(),
            res.1 == self.slots(),
    {
        let mut used: usize = 0;
        let mut i: usize = 0;
        while i < self.array.len()
            invariant
                i <= self.array@.len(),
                used == count_occupied(self.array@.subrange(0, i as int)),
                used <= i,
            decreases self.array@.len() - i,
        {
            proof {
                assert(self.array@.subrange(0, i + 1).drop_last() =~= self.array@.subrange(0, i as int));
            }
            if self.array[i].is_some() {
                used += 1;
            }
            i += 1;
        }
        proof {
            assert(self.array@.subrange(0, self.array@.len() as int) =~= self.array@);
        }
        (used, self.array.len())
    }
}


/// The positions `j` from `off` on, below `off + n`, whose slot `a[j - off]`
/// is occupied.
pub open spec fn occupied_positions<T>(a: Seq<Option<T>>, off: int, n: int) -> Set<int> {
    Set::new(|j: int| off <= j < off + n && a[j - off] is Some)
}

/// The occupied slots among the first `n` are as many as their positions.
proof fn lemma_occupied_positions<T>(a: Seq<Option<T>>, off: int, n: int)
    requires
        0 <= n <= a.len(),
    ensures
        occupied_positions(a, off, n).finite(),
        occupied_positions(a, off, n).len() == count_occupied(a.subrange(0, n)),
    decreases n,
{
    if n == 0 {
        assert(occupied_positions(a, off, 0) =~= Set::<int>::empty());
        assert(a.subrange(0, 0) =~= Seq::<Option<T>>::empty());
    } else {
        lemma_occupied_positions(a, off, n - 1);
        let prev = occupied_positions(a, off, n - 1);
        assert(a.subrange(0, n).drop_last() =~= a.subrange(0, n - 1));
        if a[n - 1] is Some {
            assert(occupied_positions(a, off, n) =~= prev.insert(off + n - 1));
            assert(!prev.contains(off + n - 1));
        } else {
            assert(occupied_positions(a, off, n) =~= prev);
        }
    }
}

impl ClassCache {
    /// The constant pool indices that have an entry.
    pub open spec fn registered_indices(&self) -> Set<int> {
        Set::new(|j: int| 0 <= j < 0x10000 && self.entry(j as u16) is Some)
    }

    /// The slots span exactly the registered indices, from the lowest to the
    /// highest, and the occupied slots are as many as the registered
    /// indices: what `get_storage_efficiency` reports is the number of
    /// entries and the width of their range.
    pub proof fn lemma_storage_span(&self)
        requires
            self.wf(),
        ensures
            self.registered_indices().finite(),
            self.occupied() == self.registered_indices().len(),
            self.slots() == 0 <==> self.registered_indices().is_empty(),
            self.slots() > 0 ==> {
                &&& self.registered_indices().contains(self.first_index())
                &&& self.registered_indices().contains(self.first_index() + self.slots() - 1)
                &&& forall|j: int|
                    #[trigger] self.registered_indices().contains(j) ==> self.first_index() <= j < self.first_index()
                        + self.slots()
            },
    {
        let a = self.array@;
        let off = self.offset as int;
        lemma_occupied_positions(a, off, a.len() as int);
        assert(a.subrange(0, a.len() as int) =~= a);
        assert(self.registered_indices() =~= occupied_positions(a, off, a.len() as int)) by {
            assert forall|j: int| #[trigger] self.registered_indices().contains(j) <==> occupied_positions(
                a,
                off,
                a.len() as int,
            ).contains(j) by {
                if 0 <= j < 0x10000 {
                    assert((j as u16) as int == j);
                }
                if off <= j < off + a.len() {
                    assert((j as u16) as int == j);
                }
            }
        }
        if a.len() == 0 {
            assert(self.registered_indices() =~= Set::<int>::empty());
        } else {
            assert(occupied_positions(a, off, a.len() as int).contains(off));
            assert(occupied_positions(a, off, a.len() as int).contains(off + a.len() - 1));
        }
    }
}

} // verus!
