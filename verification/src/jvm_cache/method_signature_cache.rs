//! Small numbers for method names and descriptors: the first name seen gets
//! 0, the next new one 1, and so on; descriptors are counted apart.
use vstd::prelude::*;

use crate::text::str_equal;

verus! {

/// A method's name and descriptor, by their numbers.
#[derive(Debug, Clone, Copy, PartialEq, Eq, Hash, Structural)]
pub struct MethodSignatureId {
    name_id: u32,
    descriptor_id: u32,
}

impl MethodSignatureId {
    /// The number of the method's name.
    pub closed spec fn name(self) -> u32 {
        self.name_id
    }

    /// The number of the method's descriptor.
    pub closed spec fn descriptor(self) -> u32 {
        self.descriptor_id
    }

    /// The number of the method's name.
    pub fn name_id(&self) -> (res: u32)
        ensures
            res == self.name(),
    {
        self.name_id
    }

    /// The number of the method's descriptor.
    pub fn descriptor_id(&self) -> (res: u32)
        ensures
            res == self.descriptor(),
    {
        self.descriptor_id
    }
}

/// The position of `s` in `v`, if it occurs.
pub open spec fn position_of(v: Seq<Seq<char>>, s: Seq<char>) -> Option<int> {
    if exists|i: int| 0 <= i < v.len() && v[i] == s {
        Some(choose|i: int| 0 <= i < v.len() && v[i] == s)
    } else {
        None
    }
}

/// The names seen so far, each once, in the order they were first seen; a
/// name's number is its position.
#[derive(Debug)]
pub struct MethodSignatureCache {
    method_names: Vec<String>,
    method_descriptors: Vec<String>,
}

/// The texts of some strings.
pub open spec fn texts(v: Seq<String>) -> Seq<Seq<char>> {
    v.map_values(|s: String| s@)
}

/// What a list of names becomes once `s` has been looked up: `s` is added
/// at the end when it was not there.
pub open spec fn registered(v: Seq<Seq<char>>, s: Seq<char>) -> Seq<Seq<char>> {
    if v.contains(s) {
        v
    } else {
        v.push(s)
    }
}

/// The number of `s` in `v` once it has been looked up.
pub open spec fn id_in(v: Seq<Seq<char>>, s: Seq<char>) -> int {
    match position_of(v, s) {
        Some(i) => i,
        None => v.len() as int,
    }
}

impl MethodSignatureCache {
    /// The names seen, by number.
    pub closed spec fn names(&self) -> Seq<Seq<char>> {
        texts(self.method_names@)
    }

    /// The descriptors seen, by number.
    pub closed spec fn descriptors(&self) -> Seq<Seq<char>> {
        texts(self.method_descriptors@)
    }

    /// The numbers that looking up `name` and `descriptor` gives.
    pub closed spec fn signature(&self, name: Seq<char>, descriptor: Seq<char>) -> MethodSignatureId {
        MethodSignatureId {
            name_id: id_in(self.names(), name) as u32,
            descriptor_id: id_in(self.descriptors(), descriptor) as u32,
        }
    }

    /// No name and no descriptor occurs twice.
    pub closed spec fn wf(&self) -> bool {
        self.names().no_duplicates() && self.descriptors().no_duplicates()
    }

    pub fn new() -> (res: Self)
        ensures
            res.wf(),
            res.names() == Seq::<Seq<char>>::empty(),
            res.descriptors() == Seq::<Seq<char>>::empty(),
    {
        let res = Self { method_names: Vec::new(), method_descriptors: Vec::new() };
        proof {
            assert(res.names() =~= Seq::<Seq<char>>::empty());
            assert(res.descriptors() =~= Seq::<Seq<char>>::empty());
        }
        res
    }

    /// The number of `s` in `v`, which is added when new.
    fn lookup_or_add(v: &mut Vec<String>, s: &str) -> (res: u32)
        requires
            texts(old(v)@).no_duplicates(),
        ensures
            texts(final(v)@).no_duplicates(),
            texts(final(v)@) == registered(texts(old(v)@), s@),
            res == id_in(texts(old(v)@), s@) as u32,
    {
        let ghost t = texts(v@);
        let mut i: usize = 0;
        while i < v.len()
            invariant
                i <= v@.len(),
                v@ == old(v)@,
                t == texts(v@),
                t.no_duplicates(),
                forall|j: int| 0 <= j < i ==> t[j] != s@,
            decreases v@.len() - i,
        {
            if str_equal(v[i].as_str(), s) {
                proof {
                    assert(t[i as int] == s@);
                    assert(t.contains(s@));
                    let k = choose|k: int| 0 <= k < t.len() && t[k] == s@;
                    if k != i {
                        assert(t[k] == t[i as int]);
                    }
                }
                return #[verifier::truncate] (i as u32);
            }
            i += 1;
        }
        let id = #[verifier::truncate] (v.len() as u32);
        proof {
            assert(!t.contains(s@));
        }
        v.push(s.to_owned());
        proof {
            assert(texts(v@) =~= t.push(s@));
            assert forall|a: int, b: int| 0 <= a < b < texts(v@).len() implies texts(v@)[a] != texts(v@)[b] by {
                if b == t.len() {
                    assert(t[a] != s@);
                }
            }
        }
        id
    }

    /// The numbers of a method's name and descriptor, each new one taking
    /// the next number of its kind.
    pub fn get_id(&mut self, name: &str, descriptor: &str) -> (res: MethodSignatureId)
        requires
            old(self).wf(),
        ensures
            final(self).wf(),
            final(self).names() == registered(old(self).names(), name@),
            final(self).descriptors() == registered(old(self).descriptors(), descriptor@),
            res.name() == id_in(old(self).names(), name@) as u32,
            res.descriptor() == id_in(old(self).descriptors(), descriptor@) as u32,
            res == old(self).signature(name@, descriptor@),
            extends(old(self).names(), final(self).names()),
            extends(old(self).descriptors(), final(self).descriptors()),
            final(self).names().contains(name@),
            final(self).descriptors().contains(descriptor@),
    {
        proof {
            lemma_registered_extends(self.names(), name@);
            lemma_registered_extends(self.descriptors(), descriptor@);
        }
        let name_id = Self::lookup_or_add(&mut self.method_names, name);
        let descriptor_id = Self::lookup_or_add(&mut self.method_descriptors, descriptor);
        MethodSignatureId { name_id, descriptor_id }
    }
}

/// A name keeps its number: looking it up again gives the same number and
/// adds nothing.
pub proof fn lemma_id_stable(v: Seq<Seq<char>>, s: Seq<char>)
    ensures
        registered(registered(v, s), s) == registered(v, s),
        id_in(registered(v, s), s) == id_in(v, s),
{
    if !v.contains(s) {
        let w = v.push(s);
        assert(w[v.len() as int] == s);
        assert(w.contains(s));
        let k = choose|k: int| 0 <= k < w.len() && w[k] == s;
        if k < v.len() {
            assert(v[k] == s);
        }
    }
}

/// Different names get different numbers.
pub proof fn lemma_ids_distinct(v: Seq<Seq<char>>, a: Seq<char>, b: Seq<char>)
    requires
        v.no_duplicates(),
        a != b,
    ensures
        id_in(registered(registered(v, a), b), a) != id_in(registered(v, a), b),
{
    let w = registered(v, a);
    let x = registered(w, b);
    assert(w.contains(a)) by {
        if !v.contains(a) {
            assert(w[v.len() as int] == a);
        }
    }
    let ia = choose|i: int| 0 <= i < w.len() && w[i] == a;
    assert(x.contains(a)) by {
        if !w.contains(b) {
            assert(x[ia] == a);
        }
    }
    let ja = choose|i: int| 0 <= i < x.len() && x[i] == a;
    if w.contains(b) {
        let ib = choose|i: int| 0 <= i < w.len() && w[i] == b;
        assert(x == w);
        assert(ja != ib);
    } else {
        assert(id_in(w, b) == w.len());
        assert(ja < w.len()) by {
            if ja == w.len() {
                assert(x[ja] == b);
            }
        }
    }
}


/// `w` starts with `v`: what was seen by `v` is still where it was.
pub open spec fn extends(v: Seq<Seq<char>>, w: Seq<Seq<char>>) -> bool {
    v.len() <= w.len() && w.subrange(0, v.len() as int) == v
}

/// Looking a name up keeps the names seen before where they were, and adds
/// no name twice.
pub proof fn lemma_registered_extends(v: Seq<Seq<char>>, s: Seq<char>)
    ensures
        extends(v, registered(v, s)),
        registered(v, s).contains(s),
        v.no_duplicates() ==> registered(v, s).no_duplicates(),
{
    if !v.contains(s) {
        let w = v.push(s);
        assert(w.subrange(0, v.len() as int) =~= v);
        assert(w[v.len() as int] == s);
        if v.no_duplicates() {
            assert forall|i: int, j: int| 0 <= i < w.len() && 0 <= j < w.len() && i != j implies w[i] != w[j] by {
                if i < v.len() && j < v.len() {
                } else if i < v.len() {
                    assert(w[i] == v[i]);
                } else {
                    assert(w[j] == v[j]);
                }
            }
        }
    } else {
        assert(v.subrange(0, v.len() as int) =~= v);
    }
}

/// What extends what extends `u` extends `u`.
pub proof fn lemma_extends_transitive(u: Seq<Seq<char>>, v: Seq<Seq<char>>, w: Seq<Seq<char>>)
    requires
        extends(u, v),
        extends(v, w),
    ensures
        extends(u, w),
{
    assert(w.subrange(0, u.len() as int) =~= v.subrange(0, u.len() as int));
}

/// A name keeps its number through every later lookup, however far apart:
/// once `s` has been seen, a list of names that starts with the list then
/// gives it the same number.
pub proof fn lemma_id_persists(v: Seq<Seq<char>>, w: Seq<Seq<char>>, s: Seq<char>)
    requires
        extends(v, w),
        w.no_duplicates(),
        v.contains(s),
    ensures
        id_in(w, s) == id_in(v, s),
{
    let i = choose|i: int| 0 <= i < v.len() && v[i] == s;
    assert(w[i] == w.subrange(0, v.len() as int)[i]);
    assert(w[i] == s);
    let j = choose|j: int| 0 <= j < w.len() && w[j] == s;
    assert(j == i);
    let k = choose|k: int| 0 <= k < v.len() && v[k] == s;
    assert(w[k] == w.subrange(0, v.len() as int)[k]);
    assert(k == i);
}

/// Two names seen have the same number exactly when they are the same name.
pub proof fn lemma_id_injective(w: Seq<Seq<char>>, a: Seq<char>, b: Seq<char>)
    requires
        w.no_duplicates(),
        w.contains(a),
        w.contains(b),
    ensures
        id_in(w, a) == id_in(w, b) <==> a == b,
{
    let i = choose|i: int| 0 <= i < w.len() && w[i] == a;
    let j = choose|j: int| 0 <= j < w.len() && w[j] == b;
}

/// A name not seen before gets the next number: the number of names seen.
pub proof fn lemma_new_id(v: Seq<Seq<char>>, s: Seq<char>)
    requires
        !v.contains(s),
    ensures
        id_in(v, s) == v.len(),
{
}

impl MethodSignatureCache {
    /// Over any number of lookups in between, from the cache `earlier` to the
    /// cache `later` (each lookup extends what was seen), a method signature
    /// seen by `earlier` keeps its numbers, and two signatures seen by
    /// `later` get the same numbers exactly when they are the same (while
    /// the numbers fit in 32 bits).
    pub proof fn lemma_signatures_persist(
        earlier: MethodSignatureCache,
        later: MethodSignatureCache,
        name: Seq<char>,
        descriptor: Seq<char>,
        other_name: Seq<char>,
        other_descriptor: Seq<char>,
    )
        requires
            later.wf(),
            later.names().len() <= u32::MAX + 1,
            later.descriptors().len() <= u32::MAX + 1,
            extends(earlier.names(), later.names()),
            extends(earlier.descriptors(), later.descriptors()),
        ensures
            earlier.names().contains(name) && earlier.descriptors().contains(descriptor) ==> later.signature(
                name,
                descriptor,
            ) == earlier.signature(name, descriptor),
            later.names().contains(name) && later.descriptors().contains(descriptor) && later.names().contains(
                other_name,
            ) && later.descriptors().contains(other_descriptor) ==> (later.signature(name, descriptor)
                == later.signature(other_name, other_descriptor) <==> name == other_name && descriptor
                == other_descriptor),
    {
        if earlier.names().contains(name) && earlier.descriptors().contains(descriptor) {
            lemma_id_persists(earlier.names(), later.names(), name);
            lemma_id_persists(earlier.descriptors(), later.descriptors(), descriptor);
        }
        if later.names().contains(name) && later.descriptors().contains(descriptor) && later.names().contains(
            other_name,
        ) && later.descriptors().contains(other_descriptor) {
            lemma_id_injective(later.names(), name, other_name);
            lemma_id_injective(later.descriptors(), descriptor, other_descriptor);
            lemma_id_bounded(later.names(), name);
            lemma_id_bounded(later.names(), other_name);
            lemma_id_bounded(later.descriptors(), descriptor);
            lemma_id_bounded(later.descriptors(), other_descriptor);
        }
    }
}

/// The number of a name seen is a position of the list.
proof fn lemma_id_bounded(w: Seq<Seq<char>>, s: Seq<char>)
    requires
        w.contains(s),
    ensures
        0 <= id_in(w, s) < w.len(),
{
}

} // verus!
