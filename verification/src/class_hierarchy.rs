//! The loaded classes as a graph: each class, named by its id, has an
//! optional super class and a list of direct interfaces.
use vstd::prelude::*;

use crate::jvm_heap::{count_false, lemma_count_false_mark};
use crate::jvm_model::ClassId;

verus! {

/// The super class and the direct interfaces of every loaded class.
#[derive(Debug, Clone)]
pub struct ClassHierarchy {
    super_classes: Vec<Option<ClassId>>,
    interfaces: Vec<Vec<ClassId>>,
}

/// Class `p` is the super class or a direct interface of class `c`.
pub open spec fn extends_directly(supers: Seq<Option<ClassId>>, ifaces: Seq<Seq<ClassId>>, c: int, p: int) -> bool {
    &&& 0 <= c < supers.len()
    &&& {
        ||| supers[c] matches Some(s) && s == p
        ||| exists|k: int| 0 <= k < ifaces[c].len() && #[trigger] ifaces[c][k] == p
    }
}

/// The `i`-th class of the chain `p` extends the next one directly.
pub open spec fn chain_step(supers: Seq<Option<ClassId>>, ifaces: Seq<Seq<ClassId>>, p: Seq<int>, i: int) -> bool {
    extends_directly(supers, ifaces, p[i], p[i + 1])
}

/// A chain of classes, each extending the next directly.
pub open spec fn is_chain(supers: Seq<Option<ClassId>>, ifaces: Seq<Seq<ClassId>>, p: Seq<int>) -> bool {
    p.len() >= 1 && forall|i: int| 0 <= i < p.len() - 1 ==> #[trigger] chain_step(supers, ifaces, p, i)
}

/// Class `child` is `parent` or extends it through super classes and
/// interfaces.
pub open spec fn subclass_of(supers: Seq<Option<ClassId>>, ifaces: Seq<Seq<ClassId>>, parent: int, child: int) -> bool {
    exists|p: Seq<int>| #[trigger] is_chain(supers, ifaces, p) && p[0] == child && p.last() == parent
}

/// The state of the search: `visited` classes are ones that `child`
/// extends (or `child` itself); the work list holds
/// visited classes once each; a visited class that is neither on the work
/// list nor `current` has all its direct parents visited; `parent`, once
/// visited, is on the work list.
pub open spec fn search_sound(
    supers: Seq<Option<ClassId>>,
    ifaces: Seq<Seq<ClassId>>,
    child: int,
    parent: usize,
    visited: Seq<bool>,
    work: Seq<ClassId>,
    current: Option<ClassId>,
) -> bool {
    &&& visited.len() == supers.len()
    &&& forall|i: int| 0 <= i < visited.len() && #[trigger] visited[i] ==> subclass_of(supers, ifaces, i, child)
    &&& work.no_duplicates()
    &&& forall|k: int| 0 <= k < work.len() ==> (#[trigger] work[k]) < visited.len() && visited[work[k] as int]
        && current != Some(work[k])
    &&& current matches Some(c) ==> (c as int) < visited.len() && visited[c as int] && c != parent
    &&& forall|a: int, b: int|
        0 <= a < visited.len() && visited[a] && !work.contains(a as usize) && current != Some(a as usize)
            && #[trigger] extends_directly(supers, ifaces, a, b) ==> 0 <= b < visited.len() && visited[b]
    &&& (parent as int) < visited.len() && visited[parent as int] ==> work.contains(parent)
}

/// Every class extends itself.
pub proof fn lemma_chain_single(supers: Seq<Option<ClassId>>, ifaces: Seq<Seq<ClassId>>, c: int)
    ensures
        subclass_of(supers, ifaces, c, c),
{
    let p = seq![c];
    assert(is_chain(supers, ifaces, p));
}

/// A class extends what a class it extends extends directly.
pub proof fn lemma_chain_extend(supers: Seq<Option<ClassId>>, ifaces: Seq<Seq<ClassId>>, child: int, a: int, b: int)
    requires
        subclass_of(supers, ifaces, a, child),
        extends_directly(supers, ifaces, a, b),
    ensures
        subclass_of(supers, ifaces, b, child),
{
    let p = choose|p: Seq<int>| #[trigger] is_chain(supers, ifaces, p) && p[0] == child && p.last() == a;
    let q = p.push(b);
    assert forall|i: int| 0 <= i < q.len() - 1 implies #[trigger] chain_step(supers, ifaces, q, i) by {
        if i < p.len() - 1 {
            assert(chain_step(supers, ifaces, p, i));
            assert(q[i] == p[i] && q[i + 1] == p[i + 1]);
        } else {
            assert(q[i] == a && q[i + 1] == b);
        }
    }
    assert(is_chain(supers, ifaces, q));
}

/// Once the work list is empty, every class that `child` reaches is visited.
proof fn lemma_closed(
    supers: Seq<Option<ClassId>>,
    ifaces: Seq<Seq<ClassId>>,
    child: int,
    parent: usize,
    visited: Seq<bool>,
    p: Seq<int>,
    j: int,
)
    requires
        search_sound(supers, ifaces, child, parent, visited, Seq::empty(), None),
        0 <= child < visited.len(),
        visited[child],
        is_chain(supers, ifaces, p),
        p[0] == child,
        0 <= j < p.len(),
    ensures
        0 <= p[j] < visited.len() && visited[p[j]],
    decreases j,
{
    if j > 0 {
        lemma_closed(supers, ifaces, child, parent, visited, p, j - 1);
        assert(chain_step(supers, ifaces, p, j - 1));
        assert(!Seq::<ClassId>::empty().contains(p[j - 1] as usize));
    }
}

impl ClassHierarchy {
    /// Every class named as a super class or an interface was loaded before
    /// the class that names it.
    pub closed spec fn wf(&self) -> bool {
        &&& self.super_classes@.len() == self.interfaces@.len()
        &&& forall|c: int|
            0 <= c < self.super_classes@.len() ==> (#[trigger] self.super_classes@[c] matches Some(s)
                ==> s < c)
        &&& forall|c: int, k: int|
            0 <= c < self.interfaces@.len() && 0 <= k < self.interfaces@[c]@.len() ==> #[trigger] self.interfaces@[c]@[k]
                < c
    }

    /// A class's super class and interfaces were loaded before it.
    pub proof fn lemma_loaded_before(&self, c: ClassId)
        requires
            self.wf(),
            c < self.supers().len(),
        ensures
            self.supers()[c as int] matches Some(s) ==> s < c,
            forall|k: int| 0 <= k < self.ifaces()[c as int].len() ==> #[trigger] self.ifaces()[c as int][k] < c,
    {
        assert(self.ifaces()[c as int] == self.interfaces@[c as int]@);
    }

    /// What a class extends was loaded before it (or is the class itself).
    pub proof fn lemma_ancestor_loaded_before(&self, parent: int, child: int)
        requires
            self.wf(),
            0 <= child < self.supers().len(),
            subclass_of(self.supers(), self.ifaces(), parent, child),
        ensures
            0 <= parent <= child,
    {
        let p = choose|p: Seq<int>| #[trigger] is_chain(self.supers(), self.ifaces(), p) && p[0] == child && p.last()
            == parent;
        self.lemma_chain_descends(p, p.len() - 1);
    }

    /// Along a chain, each class was loaded no later than the first.
    proof fn lemma_chain_descends(&self, p: Seq<int>, i: int)
        requires
            self.wf(),
            is_chain(self.supers(), self.ifaces(), p),
            0 <= p[0] < self.supers().len(),
            0 <= i < p.len(),
        ensures
            0 <= p[i] <= p[0],
        decreases i,
    {
        if i > 0 {
            self.lemma_chain_descends(p, i - 1);
            assert(chain_step(self.supers(), self.ifaces(), p, i - 1));
            let c = p[i - 1];
            if self.supers()[c] matches Some(s) && s == p[i] {
                assert(self.super_classes@[c] matches Some(s2) ==> s2 < c);
            } else {
                let k = choose|k: int| 0 <= k < self.ifaces()[c].len() && #[trigger] self.ifaces()[c][k] == p[i];
                assert(self.ifaces()[c] == self.interfaces@[c]@);
                assert(self.interfaces@[c]@[k] < c);
            }
        }
    }

    /// The super class of each class.
    pub closed spec fn supers(&self) -> Seq<Option<ClassId>> {
        self.super_classes@
    }

    /// The direct interfaces of each class.
    pub closed spec fn ifaces(&self) -> Seq<Seq<ClassId>> {
        self.interfaces@.map_values(|v: Vec<ClassId>| v@)
    }

    /// No class yet.
    pub fn new() -> (res: Self)
        ensures
            res.wf(),
            res.supers() == Seq::<Option<ClassId>>::empty(),
            res.ifaces() == Seq::<Seq<ClassId>>::empty(),
    {
        let res = Self { super_classes: Vec::new(), interfaces: Vec::new() };
        proof {
            assert(res.ifaces() =~= Seq::<Seq<ClassId>>::empty());
        }
        res
    }

    /// The number of classes.
    pub fn len(&self) -> (res: usize)
        requires
            self.wf(),
        ensures
            res == self.supers().len(),
    {
        self.super_classes.len()
    }

    /// Adds a class with the given super class and interfaces, all loaded
    /// already; returns its id.
    pub fn add_class(&mut self, super_class: Option<ClassId>, interfaces: Vec<ClassId>) -> (res: ClassId)
        requires
            old(self).wf(),
            super_class matches Some(s) ==> s < old(self).supers().len(),
            forall|k: int| 0 <= k < interfaces@.len() ==> #[trigger] interfaces@[k] < old(self).supers().len(),
        ensures
            final(self).wf(),
            res == old(self).supers().len(),
            final(self).supers() == old(self).supers().push(super_class),
            final(self).ifaces() == old(self).ifaces().push(interfaces@),
    {
        let id = self.super_classes.len();
        let ghost ifaces_old = interfaces@;
        self.super_classes.push(super_class);
        self.interfaces.push(interfaces);
        proof {
            assert(self.ifaces() =~= old(self).ifaces().push(ifaces_old));
            assert forall|c: int, k: int|
                0 <= c < self.interfaces@.len() && 0 <= k < self.interfaces@[c]@.len() implies #[trigger] self.interfaces@[c]@[k]
                < self.super_classes@.len() by {
                if c < id {
                    assert(self.interfaces@[c] == old(self).interfaces@[c]);
                }
            }
        }
        id
    }

    /// The super class of `class`.
    pub fn super_class(&self, class: ClassId) -> (res: Option<ClassId>)
        requires
            self.wf(),
            class < self.supers().len(),
        ensures
            res == self.supers()[class as int],
            res matches Some(s) ==> s < self.supers().len(),
    {
        self.super_classes[class]
    }

    /// The direct interfaces of `class`.
    pub fn interfaces_of(&self, class: ClassId) -> (res: &Vec<ClassId>)
        requires
            self.wf(),
            class < self.supers().len(),
        ensures
            res@ == self.ifaces()[class as int],
            forall|k: int| 0 <= k < res@.len() ==> #[trigger] res@[k] < self.supers().len(),
    {
        proof {
            assert(self.ifaces()[class as int] == self.interfaces@[class as int]@);
        }
        &self.interfaces[class]
    }

    /// The class has no super class (it is `java/lang/Object`).
    pub fn is_root(&self, class: ClassId) -> (res: bool)
        requires
            self.wf(),
            class < self.supers().len(),
        ensures
            res == (self.supers()[class as int] is None),
    {
        self.super_classes[class].is_none()
    }

    /// Whether `child` is `parent` or extends it, through its super classes
    /// and its interfaces, at any depth.
    pub fn is_sublcass_of(&self, parent: ClassId, child: ClassId) -> (res: bool)
        requires
            self.wf(),
            parent < self.supers().len(),
            child < self.supers().len(),
        ensures
            res == subclass_of(self.supers(), self.ifaces(), parent as int, child as int),
    {
        let ghost supers = self.supers();
        let ghost ifaces = self.ifaces();
        let n = self.super_classes.len();
        let mut visited: Vec<bool> = Vec::new();
        let mut i: usize = 0;
        while i < n
            invariant
                n == supers.len(),
                i <= n,
                visited@.len() == i,
                forall|k: int| 0 <= k < i ==> !visited@[k],
            decreases n - i,
        {
            visited.push(false);
            i += 1;
        }
        proof {
            lemma_count_false_mark(visited@, child as int);
            lemma_chain_single(supers, ifaces, child as int);
        }
        visited.set(child, true);
        let mut work: Vec<ClassId> = Vec::new();
        work.push(child);
        proof {
            assert(work@.contains(child)) by {
                assert(work@[0] == child);
            }
        }
        while work.len() > 0
            invariant
                self.wf(),
                supers == self.supers(),
                ifaces == self.ifaces(),
                child < supers.len(),
                parent < supers.len(),
                visited@[child as int],
                search_sound(supers, ifaces, child as int, parent, visited@, work@, None),
            decreases 2 * count_false(visited@) + work@.len(),
        {
            let ghost w0 = work@;
            let ghost measure0: nat = 2 * count_false(visited@) + work@.len();
            let c = match work.pop() {
                Some(c) => c,
                None => vstd::pervasive::unreached(),
            };
            proof {
                assert(w0[w0.len() - 1] == c);
            }
            if c == parent {
                proof {
                    assert(visited@[c as int]);
                }
                return true;
            }
            proof {
                assert(!work@.contains(c)) by {
                    if work@.contains(c) {
                        let k = choose|k: int| 0 <= k < work@.len() && work@[k] == c;
                        assert(w0[k] == w0[w0.len() - 1]);
                    }
                }
                assert forall|k: int| 0 <= k < work@.len() implies (#[trigger] work@[k]) < visited@.len()
                    && visited@[work@[k] as int] && Some(c) != Some(work@[k]) by {
                    assert(work@[k] == w0[k]);
                }
                assert forall|a: int, b: int|
                    0 <= a < visited@.len() && visited@[a] && !work@.contains(a as usize) && Some(c) != Some(
                        a as usize,
                    ) && #[trigger] extends_directly(supers, ifaces, a, b) implies 0 <= b < visited@.len()
                    && visited@[b] by {
                    assert(visited.len() == visited@.len());
                    assert(!w0.contains(a as usize)) by {
                        if w0.contains(a as usize) {
                            let k = choose|k: int| 0 <= k < w0.len() && w0[k] == a as usize;
                            if k < w0.len() - 1 {
                                assert(work@[k] == a as usize);
                            }
                        }
                    }
                }
                assert((parent as int) < visited@.len() && visited@[parent as int] ==> work@.contains(parent)) by {
                    if (parent as int) < visited@.len() && visited@[parent as int] {
                        assert(w0.contains(parent));
                        let k = choose|k: int| 0 <= k < w0.len() && w0[k] == parent;
                        assert(k != w0.len() - 1);
                        assert(work@[k] == parent);
                    }
                }
                assert(search_sound(supers, ifaces, child as int, parent, visited@, work@, Some(c)));
            }
            if let Some(s) = self.super_classes[c] {
                if !visited[s] {
                    Self::visit(Ghost(supers), Ghost(ifaces), Ghost(child as int), parent, c, s, &mut visited, &mut work);
                }
            }
            let parents = &self.interfaces[c];
            let mut k: usize = 0;
            while k < parents.len()
                invariant
                    self.wf(),
                    supers == self.supers(),
                    ifaces == self.ifaces(),
                    c < supers.len(),
                    parents@ == ifaces[c as int],
                    k <= parents@.len(),
                    child < supers.len(),
                    parent < supers.len(),
                    visited@[child as int],
                    search_sound(supers, ifaces, child as int, parent, visited@, work@, Some(c)),
                    supers[c as int] matches Some(s) ==> visited@[s as int],
                    forall|j: int| 0 <= j < k ==> visited@[#[trigger] parents@[j] as int],
                    2 * count_false(visited@) + work@.len() < measure0,
                decreases parents@.len() - k,
            {
                let i = parents[k];
                proof {
                    assert(ifaces[c as int] == self.interfaces@[c as int]@);
                }
                if !visited[i] {
                    Self::visit(Ghost(supers), Ghost(ifaces), Ghost(child as int), parent, c, i, &mut visited, &mut work);
                }
                k += 1;
            }
            proof {
                assert forall|a: int, b: int|
                    0 <= a < visited@.len() && visited@[a] && !work@.contains(a as usize) && None::<ClassId> != Some(
                        a as usize,
                    ) && #[trigger] extends_directly(supers, ifaces, a, b) implies 0 <= b < visited@.len()
                    && visited@[b] by {
                    assert(visited.len() == visited@.len());
                    if a == c as int {
                        assert(self.super_classes@[a] == supers[a]);
                        assert(ifaces[a] == self.interfaces@[a]@);
                        if supers[a] matches Some(sa) && sa == b {
                            assert(visited@[b]);
                        } else {
                            let j = choose|j: int| 0 <= j < ifaces[a].len() && #[trigger] ifaces[a][j] == b;
                            assert(self.interfaces@[a]@[j] < supers.len());
                            assert(visited@[parents@[j] as int]);
                        }
                    } else {
                        assert(Some(c) != Some(a as usize));
                    }
                }
            }
        }
        proof {
            assert(work@ =~= Seq::<ClassId>::empty());
            if subclass_of(supers, ifaces, parent as int, child as int) {
                let p = choose|p: Seq<int>|
                    #[trigger] is_chain(supers, ifaces, p) && p[0] == child as int && p.last() == parent as int;
                lemma_closed(supers, ifaces, child as int, parent, visited@, p, p.len() - 1);
                assert(!Seq::<ClassId>::empty().contains(parent));
            }
        }
        false
    }

    /// Marks the unvisited class `next`, a direct parent of the visited class
    /// `current`, and puts it on the work list.
    fn visit(
        Ghost(supers): Ghost<Seq<Option<ClassId>>>,
        Ghost(ifaces): Ghost<Seq<Seq<ClassId>>>,
        Ghost(child): Ghost<int>,
        parent: ClassId,
        current: ClassId,
        next: ClassId,
        visited: &mut Vec<bool>,
        work: &mut Vec<ClassId>,
    )
        requires
            search_sound(supers, ifaces, child, parent, old(visited)@, old(work)@, Some(current)),
            extends_directly(supers, ifaces, current as int, next as int),
            next < old(visited)@.len(),
            !old(visited)@[next as int],
        ensures
            search_sound(supers, ifaces, child, parent, final(visited)@, final(work)@, Some(current)),
            final(visited)@ == old(visited)@.update(next as int, true),
            final(work)@ == old(work)@.push(next),
            2 * count_false(final(visited)@) + final(work)@.len() + 1 == 2 * count_false(old(visited)@)
                + old(work)@.len(),
    {
        proof {
            lemma_count_false_mark(visited@, next as int);
            lemma_chain_extend(supers, ifaces, child, current as int, next as int);
            assert(!old(work)@.contains(next));
        }
        work.push(next);
        visited.set(next, true);
        proof {
            let m = visited@;
            let wl = work@;
            assert(wl[wl.len() - 1] == next);
            assert forall|k: int| 0 <= k < wl.len() implies (#[trigger] wl[k]) < m.len() && m[wl[k] as int]
                && Some(current) != Some(wl[k]) by {
                if k < wl.len() - 1 {
                    assert(wl[k] == old(work)@[k]);
                }
            }
            assert forall|a: int, b: int|
                0 <= a < m.len() && m[a] && !wl.contains(a as usize) && Some(current) != Some(a as usize)
                    && #[trigger] extends_directly(supers, ifaces, a, b) implies 0 <= b < m.len() && m[b] by {
                assert(visited.len() == m.len());
                if a == next as int {
                    assert(wl[wl.len() - 1] == a as usize);
                }
                assert(!old(work)@.contains(a as usize)) by {
                    if old(work)@.contains(a as usize) {
                        let k = choose|k: int| 0 <= k < old(work)@.len() && old(work)@[k] == a as usize;
                        assert(wl[k] == a as usize);
                    }
                }
            }
            assert((parent as int) < m.len() && m[parent as int] ==> wl.contains(parent)) by {
                if (parent as int) < m.len() && m[parent as int] {
                    if next == parent {
                        assert(wl[wl.len() - 1] == parent);
                    } else {
                        let k = choose|k: int| 0 <= k < old(work)@.len() && old(work)@[k] == parent;
                        assert(wl[k] == parent);
                    }
                }
            }
        }
    }
}

} // verus!
