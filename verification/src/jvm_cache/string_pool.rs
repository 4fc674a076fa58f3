//! Interned strings: the heap object of each string constant, by its text.
use vstd::prelude::*;

use crate::jvm_heap::{JvmHeap, live};
use crate::jvm_model::{DescriptorType, FieldInfo, HeapObject, JvmValue};
use crate::text::str_equal;
use vstd::std_specs::vec::axiom_spec_len;

verus! {

/// The field of `java/lang/String` that holds the characters.
pub const VALUE_FIELD_NAME: &'static str = "value";

/// The string objects of the heap, each under its text once.
#[derive(Debug)]
pub struct StringPool {
    /// the position of the `value` field among a string object's fields,
    /// once it was looked up
    string_value_index: Option<usize>,
    string_references: Vec<(String, usize)>,
}

/// The map that a list of `(text, reference)` entries stands for.
pub open spec fn entries_map(e: Seq<(Seq<char>, usize)>) -> Map<Seq<char>, usize>
    decreases e.len(),
{
    if e.len() == 0 {
        Map::empty()
    } else {
        entries_map(e.drop_last()).insert(e.last().0, e.last().1)
    }
}

/// No text occurs twice among the entries.
pub open spec fn keys_unique(e: Seq<(Seq<char>, usize)>) -> bool {
    forall|i: int, j: int| 0 <= i < j < e.len() ==> #[trigger] e[i].0 != #[trigger] e[j].0
}

/// With unique texts, the map holds exactly the entries.
proof fn lemma_entries_map(e: Seq<(Seq<char>, usize)>)
    requires
        keys_unique(e),
    ensures
        forall|i: int| 0 <= i < e.len() ==> #[trigger] entries_map(e).contains_key(e[i].0) && entries_map(e)[e[i].0]
            == e[i].1,
        forall|k: Seq<char>| #[trigger] entries_map(e).contains_key(k) ==> exists|i: int| 0 <= i < e.len() && e[i].0 == k,
    decreases e.len(),
{
    if e.len() > 0 {
        let d = e.drop_last();
        assert(keys_unique(d)) by {
            assert forall|i: int, j: int| 0 <= i < j < d.len() implies #[trigger] d[i].0 != #[trigger] d[j].0 by {
                assert(d[i] == e[i] && d[j] == e[j]);
            }
        }
        lemma_entries_map(d);
        assert forall|i: int| 0 <= i < e.len() implies #[trigger] entries_map(e).contains_key(e[i].0)
            && entries_map(e)[e[i].0] == e[i].1 by {
            if i < e.len() - 1 {
                assert(d[i] == e[i]);
                assert(entries_map(d).contains_key(d[i].0));
                assert(e[i].0 != e[e.len() - 1].0);
            }
        }
        assert forall|k: Seq<char>| #[trigger] entries_map(e).contains_key(k) implies exists|i: int|
            0 <= i < e.len() && e[i].0 == k by {
            if k != e.last().0 {
                assert(entries_map(d).contains_key(k));
                let i = choose|i: int| 0 <= i < d.len() && d[i].0 == k;
                assert(e[i] == d[i]);
            } else {
                assert(e[e.len() - 1].0 == k);
            }
        }
    }
}

/// Replacing the value of an entry replaces it in the map.
proof fn lemma_entries_update(e: Seq<(Seq<char>, usize)>, i: int, val: usize)
    requires
        keys_unique(e),
        0 <= i < e.len(),
    ensures
        entries_map(e.update(i, (e[i].0, val))) == entries_map(e).insert(e[i].0, val),
    decreases e.len(),
{
    let key = e[i].0;
    let e2 = e.update(i, (key, val));
    let d = e.drop_last();
    if i == e.len() - 1 {
        assert(e2.drop_last() =~= d);
        assert(entries_map(e2) =~= entries_map(e).insert(key, val));
    } else {
        assert(keys_unique(d)) by {
            assert forall|a: int, b: int| 0 <= a < b < d.len() implies #[trigger] d[a].0 != #[trigger] d[b].0 by {
                assert(d[a] == e[a] && d[b] == e[b]);
            }
        }
        assert(d[i] == e[i]);
        lemma_entries_update(d, i, val);
        assert(e2.drop_last() =~= d.update(i, (key, val)));
        assert(e2.last() == e.last());
        assert(key != e.last().0) by {
            assert(e[i].0 != e[e.len() - 1].0);
        }
        assert(entries_map(e2) =~= entries_map(e).insert(key, val));
    }
}

/// The entries as texts and references.
pub open spec fn entries_view(v: Seq<(String, usize)>) -> Seq<(Seq<char>, usize)> {
    v.map_values(|p: (String, usize)| (p.0@, p.1))
}

impl View for StringPool {
    type V = Map<Seq<char>, usize>;

    closed spec fn view(&self) -> Map<Seq<char>, usize> {
        entries_map(entries_view(self.string_references@))
    }
}

impl StringPool {
    /// No text is pooled twice.
    pub closed spec fn wf(&self) -> bool {
        keys_unique(entries_view(self.string_references@))
    }

    /// The pooled references, in the order the strings were registered.
    pub closed spec fn references(&self) -> Seq<usize> {
        self.string_references@.map_values(|p: (String, usize)| p.1)
    }

    /// The position of the `value` field, once looked up.
    pub closed spec fn value_index(&self) -> Option<usize> {
        self.string_value_index
    }

    pub fn new() -> (res: Self)
        ensures
            res.wf(),
            res@ == Map::<Seq<char>, usize>::empty(),
            res.references() == Seq::<usize>::empty(),
            res.value_index() is None,
    {
        let res = Self { string_value_index: None, string_references: Vec::new() };
        proof {
            assert(entries_view(res.string_references@) =~= Seq::<(Seq<char>, usize)>::empty());
            assert(res.references() =~= Seq::<usize>::empty());
        }
        res
    }

    /// The position of the entry for `string`, if any.
    fn position(&self, string: &str) -> (res: Option<usize>)
        requires
            self.wf(),
        ensures
            match res {
                Some(i) => i < self.string_references@.len() && self.string_references@[i as int].0@ == string@,
                None => forall|i: int| 0 <= i < self.string_references@.len() ==> self.string_references@[i].0@ != string@,
            },
    {
        let mut i: usize = 0;
        while i < self.string_references.len()
            invariant
                i <= self.string_references@.len(),
                forall|j: int| 0 <= j < i ==> self.string_references@[j].0@ != string@,
            decreases self.string_references@.len() - i,
        {
            if str_equal(self.string_references[i].0.as_str(), string) {
                return Some(i);
            }
            i += 1;
        }
        None
    }

    /// The reference of the pooled string with the text of `string`.
    pub fn find_string(&self, string: &str) -> (res: Option<usize>)
        requires
            self.wf(),
        ensures
            res == if self@.contains_key(string@) {
                Some(self@[string@])
            } else {
                None::<usize>
            },
    {
        let ghost e = entries_view(self.string_references@);
        proof {
            lemma_entries_map(e);
        }
        match self.position(string) {
            Some(i) => {
                proof {
                    assert(e[i as int].0 == string@);
                }
                Some(self.string_references[i].1)
            },
            None => {
                proof {
                    if self@.contains_key(string@) {
                        let i = choose|i: int| 0 <= i < e.len() && e[i].0 == string@;
                        assert(self.string_references@[i].0@ == string@);
                    }
                }
                None
            },
        }
    }

    /// Pools `reference` under the text of `string`, in place of what was
    /// pooled under it.
    pub fn register(&mut self, string: String, reference: usize)
        requires
            old(self).wf(),
        ensures
            final(self).wf(),
            final(self)@ == old(self)@.insert(string@, reference),
            registers(*old(self), *final(self), string@, reference),
            final(self).value_index() == old(self).value_index(),
            !old(self)@.contains_key(string@) ==> final(self).references() == old(self).references().push(reference),
            old(self)@.contains_key(string@) ==> exists|i: int|
                0 <= i < old(self).references().len() && old(self).references()[i] == old(self)@[string@]
                    && final(self).references() == old(self).references().update(i, reference),
    {
        let ghost e = entries_view(self.string_references@);
        let ghost key = string@;
        proof {
            lemma_entries_map(e);
        }
        match self.position(string.as_str()) {
            Some(i) => {
                self.string_references.set(i, (string, reference));
                proof {
                    let e2 = entries_view(self.string_references@);
                    assert(e2 =~= e.update(i as int, (key, reference)));
                    assert(keys_unique(e2)) by {
                        assert forall|a: int, b: int| 0 <= a < b < e2.len() implies #[trigger] e2[a].0
                            != #[trigger] e2[b].0 by {
                            assert(e[i as int].0 == key);
                            if a != i && b != i {
                                assert(e2[a] == e[a] && e2[b] == e[b]);
                            } else if a == i {
                                assert(e2[b] == e[b]);
                            } else {
                                assert(e2[a] == e[a]);
                            }
                        }
                    }
                    assert(e[i as int].0 == key);
                    lemma_entries_update(e, i as int, reference);
                    assert(entries_map(e).contains_key(e[i as int].0));
                    assert(old(self).references()[i as int] == e[i as int].1);
                    assert(old(self).references()[i as int] == old(self)@[key]);
                    assert(self.references() =~= old(self).references().update(i as int, reference));
                }
            },
            None => {
                self.string_references.push((string, reference));
                proof {
                    let e2 = entries_view(self.string_references@);
                    assert(e2 =~= e.push((key, reference)));
                    assert(e2.drop_last() =~= e);
                    assert(keys_unique(e2)) by {
                        assert forall|a: int, b: int| 0 <= a < b < e2.len() implies #[trigger] e2[a].0
                            != #[trigger] e2[b].0 by {
                            assert(e2[a] == e[a]);
                            if b < e.len() {
                                assert(e2[b] == e[b]);
                            } else {
                                assert(old(self).string_references@[a].0@ != key);
                            }
                        }
                    }
                    assert(!old(self)@.contains_key(key)) by {
                        if old(self)@.contains_key(key) {
                            let j = choose|j: int| 0 <= j < e.len() && e[j].0 == key;
                            assert(old(self).string_references@[j].0@ == key);
                        }
                    }
                    assert(self.references() =~= old(self).references().push(reference));
                }
            },
        }
    }

    /// The references of all pooled strings, in the order they were pooled.
    pub fn get_string_references(&self) -> (res: Vec<usize>)
        requires
            self.wf(),
        ensures
            res@ == self.references(),
            forall|k: Seq<char>| #[trigger] self@.contains_key(k) ==> res@.contains(self@[k]),
    {
        let ghost e = entries_view(self.string_references@);
        proof {
            lemma_entries_map(e);
        }
        let mut res: Vec<usize> = Vec::new();
        let mut i: usize = 0;
        while i < self.string_references.len()
            invariant
                i <= self.string_references@.len(),
                res@ == self.references().subrange(0, i as int),
            decreases self.string_references@.len() - i,
        {
            res.push(self.string_references[i].1);
            i += 1;
            proof {
                assert(res@ =~= self.references().subrange(0, i as int));
            }
        }
        proof {
            assert(res@ =~= self.references());
            assert forall|k: Seq<char>| #[trigger] self@.contains_key(k) implies res@.contains(self@[k]) by {
                let j = choose|j: int| 0 <= j < e.len() && e[j].0 == k;
                assert(res@[j] == self@[k]);
            }
        }
        res
    }

    /// The UTF-16 units of the characters of `string`, each character cut to
    /// its low 16 bits.
    pub fn string_to_arr(string: &str) -> (res: Vec<u16>)
        ensures
            res@ == string@.map_values(|c: char| c as u16),
    {
        let chars = crate::text::str_to_chars(string);
        let mut res: Vec<u16> = Vec::new();
        let mut i: usize = 0;
        while i < chars.len()
            invariant
                chars@ == string@,
                i <= chars@.len(),
                res@ == string@.subrange(0, i as int).map_values(|c: char| c as u16),
            decreases chars@.len() - i,
        {
            res.push(#[verifier::truncate] (chars[i] as u16));
            i += 1;
            proof {
                assert(res@ =~= string@.subrange(0, i as int).map_values(|c: char| c as u16));
            }
        }
        proof {
            assert(string@.subrange(0, chars@.len() as int) =~= string@);
        }
        res
    }

    /// The position of the `value` field among the non-static fields of
    /// `java/lang/String`.
    pub fn find_value_field(fields: &[FieldInfo]) -> (res: usize)
        requires
            exists|i: int| 0 <= i < fields@.len() && fields@[i].name@ == VALUE_FIELD_NAME@,
            forall|i: int|
                0 <= i < fields@.len() && #[trigger] fields@[i].name@ == VALUE_FIELD_NAME@ ==> fields@[i].descriptor_type
                    == DescriptorType::Reference,
        ensures
            res < fields@.len(),
            fields@[res as int].name@ == VALUE_FIELD_NAME@,
            forall|j: int| 0 <= j < res ==> fields@[j].name@ != VALUE_FIELD_NAME@,
    {
        let mut i: usize = 0;
        while i < fields.len()
            invariant
                i <= fields@.len(),
                forall|j: int| 0 <= j < i ==> fields@[j].name@ != VALUE_FIELD_NAME@,
                exists|k: int| 0 <= k < fields@.len() && fields@[k].name@ == VALUE_FIELD_NAME@,
            decreases fields@.len() - i,
        {
            if str_equal(fields[i].name.as_str(), VALUE_FIELD_NAME) {
                return i;
            }
            i += 1;
        }
        proof {
            let k = choose|k: int| 0 <= k < fields@.len() && fields@[k].name@ == VALUE_FIELD_NAME@;
            assert(fields@[k].name@ != VALUE_FIELD_NAME@);
        }
        vstd::pervasive::unreached()
    }

    /// Gives a new string object the characters of `string`: a char array
    /// is allocated and the object's `value` field refers to it. `fields`
    /// are the non-static fields of `java/lang/String`.
    pub fn initialise_string_fields(
        &mut self,
        string: &str,
        string_obj: &mut HeapObject,
        jvm_heap: &mut JvmHeap,
        fields: &[FieldInfo],
    )
        requires
            old(self).wf(),
            old(jvm_heap).wf(),
            old(jvm_heap).allocations() < usize::MAX,
            *old(string_obj) is Object,
            exists|i: int| 0 <= i < fields@.len() && fields@[i].name@ == VALUE_FIELD_NAME@,
            forall|i: int|
                0 <= i < fields@.len() && #[trigger] fields@[i].name@ == VALUE_FIELD_NAME@ ==> fields@[i].descriptor_type
                    == DescriptorType::Reference,
            old(self).value_index() matches Some(i) ==> i < (*old(string_obj))->Object_fields@.len(),
            old(self).value_index() is None ==> fields@.len() <= (*old(string_obj))->Object_fields@.len(),
            old(self).value_index() matches Some(i) ==> fields@[i as int].name@ == VALUE_FIELD_NAME@
                && forall|j: int| 0 <= j < i ==> fields@[j].name@ != VALUE_FIELD_NAME@,
        ensures
            final(jvm_heap).allocations() == old(jvm_heap).allocations() + 1,
            final(jvm_heap)@.len() >= old(jvm_heap)@.len(),
            final(self).wf(),
            final(self)@ == old(self)@,
            final(jvm_heap).wf(),
            *final(string_obj) is Object,
            (*final(string_obj))->Object_class == (*old(string_obj))->Object_class,
            final(self).value_index() matches Some(i) && i < fields@.len() && fields@[i as int].name@
                == VALUE_FIELD_NAME@ && (forall|j: int| 0 <= j < i ==> fields@[j].name@ != VALUE_FIELD_NAME@)
                && ({
                let r = (*final(string_obj))->Object_fields@[i as int]->Reference_0->Some_0;
                &&& (*final(string_obj))->Object_fields@ == (*old(string_obj))->Object_fields@.update(
                    i as int,
                    JvmValue::Reference(Some(r)),
                )
                &&& live(final(jvm_heap)@, r)
                &&& !live(old(jvm_heap)@, r)
                &&& final(jvm_heap)@[r as int] matches Some(HeapObject::CharacterArray(chars))
                &&& chars@ == string@.map_values(|c: char| c as u16)
                &&& forall|k: int| 0 <= k < old(jvm_heap)@.len() && k != r ==> final(jvm_heap)@[k]
                    == old(jvm_heap)@[k]
            }),
    {
        let arr = HeapObject::CharacterArray(Self::string_to_arr(string));
        let ghost before = jvm_heap@;
        let ghost free_before = jvm_heap.free_list();
        let arr_ref = jvm_heap.allocate(arr);
        let data_index = match self.string_value_index {
            Some(data_index) => data_index,
            None => {
                let data_index = Self::find_value_field(fields);
                self.string_value_index = Some(data_index);
                data_index
            },
        };
        match string_obj {
            HeapObject::Object { class: _, fields: obj_fields } => {
                obj_fields.set(data_index, JvmValue::Reference(Some(arr_ref)));
            },
            _ => {},
        }
        proof {
            if free_before.len() > 0 {
                assert forall|k: int| 0 <= k < before.len() && k != arr_ref implies jvm_heap@[k] == before[k] by {}
            }
        }
    }
}


/// What `register` does to the pool `p`, making `q`, for the text `text`
/// and the reference `r`.
pub open spec fn registers(p: StringPool, q: StringPool, text: Seq<char>, r: usize) -> bool {
    &&& q.wf()
    &&& q@ == p@.insert(text, r)
    &&& !p@.contains_key(text) ==> q.references() == p.references().push(r)
}

/// From a new pool, registering `k` distinct texts one after the other
/// (`pools[i + 1]` is `pools[i]` with `texts[i]` registered as `refs[i]`)
/// leaves exactly the `k` references pooled, in the order they were
/// registered, each under its text.
pub proof fn lemma_registered_references(pools: Seq<StringPool>, texts: Seq<Seq<char>>, refs: Seq<usize>)
    requires
        pools.len() == texts.len() + 1,
        refs.len() == texts.len(),
        pools[0]@ == Map::<Seq<char>, usize>::empty(),
        pools[0].references() == Seq::<usize>::empty(),
        texts.no_duplicates(),
        forall|i: int| 0 <= i < texts.len() ==> #[trigger] registers(pools[i], pools[i + 1], texts[i], refs[i]),
    ensures
        pools.last().references() == refs,
        forall|i: int| 0 <= i < texts.len() ==> #[trigger] pools.last()@.contains_key(texts[i]) && pools.last()@[texts[i]]
            == refs[i],
        pools.last()@.dom() == texts.to_set(),
    decreases texts.len(),
{
    let k = texts.len();
    if k > 0 {
        let p = pools.drop_last();
        let t = texts.drop_last();
        let r = refs.drop_last();
        assert forall|i: int| 0 <= i < t.len() implies #[trigger] registers(p[i], p[i + 1], t[i], r[i]) by {
            assert(registers(pools[i], pools[i + 1], texts[i], refs[i]));
        }
        assert(t.no_duplicates()) by {
            assert forall|a: int, b: int| 0 <= a < b < t.len() implies t[a] != t[b] by {
                assert(texts[a] != texts[b]);
            }
        }
        lemma_registered_references(p, t, r);
        assert(p.last() == pools[k - 1]);
        assert(registers(pools[k - 1], pools[k as int], texts[k - 1], refs[k - 1]));
        assert(!pools[k - 1]@.contains_key(texts[k - 1])) by {
            if t.to_set().contains(texts[k - 1]) {
                let a = choose|a: int| 0 <= a < t.len() && t[a] == texts[k - 1];
                assert(texts[a] == texts[k - 1]);
            }
        }
        assert(refs =~= r.push(refs[k - 1]));
        assert(pools.last()@.dom() =~= texts.to_set()) by {
            assert(texts =~= t.push(texts[k - 1]));
            assert forall|x: Seq<char>| pools.last()@.dom().contains(x) <==> texts.to_set().contains(x) by {
                if x == texts[k - 1] {
                    assert(texts[k - 1] == x);
                } else if t.to_set().contains(x) {
                    let a = choose|a: int| 0 <= a < t.len() && t[a] == x;
                    assert(texts[a] == x);
                } else if texts.to_set().contains(x) {
                    let a = choose|a: int| 0 <= a < texts.len() && texts[a] == x;
                    assert(t[a] == x);
                }
            }
        }
        assert forall|i: int| 0 <= i < texts.len() implies #[trigger] pools.last()@.contains_key(texts[i])
            && pools.last()@[texts[i]] == refs[i] by {
            if i < k - 1 {
                assert(p.last()@.contains_key(t[i]));
                assert(texts[i] != texts[k - 1]);
            }
        }
    } else {
        assert(refs =~= Seq::<usize>::empty());
        assert(pools.last()@.dom() =~= texts.to_set());
    }
}

} // verus!
