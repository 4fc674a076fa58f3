//! A class's table of virtual methods: for each method signature, the method
//! that objects of the class run for it.
use vstd::prelude::*;

use crate::jvm_cache::method_signature_cache::MethodSignatureId;
use crate::jvm_model::ClassId;

verus! {

/// The method that a virtual call resolves to.
#[derive(Debug, Clone, Copy, PartialEq, Eq, Structural)]
pub struct VTableEntry {
    pub resolved_class: ClassId,
    pub method_index: usize,
    pub bytecode_index: Option<usize>,
}

impl VTableEntry {
    pub fn new(resolved_class: ClassId, method_index: usize, bytecode_index: Option<usize>) -> (res: Self)
        ensures
            res == (VTableEntry { resolved_class, method_index, bytecode_index }),
    {
        Self { resolved_class, method_index, bytecode_index }
    }
}

/// The entry registered under `id` among `e`, if any.
pub open spec fn lookup(e: Seq<(MethodSignatureId, VTableEntry)>, id: MethodSignatureId) -> Option<VTableEntry> {
    if exists|i: int| 0 <= i < e.len() && e[i].0 == id {
        Some(e[choose|i: int| 0 <= i < e.len() && e[i].0 == id].1)
    } else {
        None
    }
}

/// No signature is registered twice.
pub open spec fn ids_unique(e: Seq<(MethodSignatureId, VTableEntry)>) -> bool {
    forall|i: int, j: int| 0 <= i < j < e.len() ==> #[trigger] e[i].0 != #[trigger] e[j].0
}

#[derive(Debug)]
pub struct VTable {
    methods: Vec<(MethodSignatureId, VTableEntry)>,
}

impl VTable {
    /// The entry that a signature resolves to.
    pub closed spec fn resolves(&self, id: MethodSignatureId) -> Option<VTableEntry> {
        lookup(self.methods@, id)
    }

    pub closed spec fn wf(&self) -> bool {
        ids_unique(self.methods@)
    }

    pub fn new() -> (res: Self)
        ensures
            res.wf(),
            forall|id: MethodSignatureId| res.resolves(id) is None,
    {
        Self { methods: Vec::new() }
    }

    /// The position of `id`'s entry, if any.
    fn position(&self, id: MethodSignatureId) -> (res: Option<usize>)
        requires
            self.wf(),
        ensures
            match res {
                Some(i) => i < self.methods@.len() && self.methods@[i as int].0 == id,
                None => forall|i: int| 0 <= i < self.methods@.len() ==> self.methods@[i].0 != id,
            },
    {
        let mut i: usize = 0;
        while i < self.methods.len()
            invariant
                i <= self.methods@.len(),
                forall|j: int| 0 <= j < i ==> self.methods@[j].0 != id,
            decreases self.methods@.len() - i,
        {
            if self.methods[i].0 == id {
                return Some(i);
            }
            i += 1;
        }
        None
    }

    /// The entry registered for `id`.
    pub fn get(&self, id: MethodSignatureId) -> (res: Option<VTableEntry>)
        requires
            self.wf(),
        ensures
            res == self.resolves(id),
    {
        match self.position(id) {
            Some(i) => {
                proof {
                    let k = choose|k: int| 0 <= k < self.methods@.len() && self.methods@[k].0 == id;
                    if k != i {
                        assert(self.methods@[k].0 != self.methods@[i as int].0);
                    }
                }
                Some(self.methods[i].1)
            },
            None => None,
        }
    }

    /// Registers `entry` for `id`, in place of what was registered for it.
    pub fn register(&mut self, id: MethodSignatureId, entry: VTableEntry)
        requires
            old(self).wf(),
        ensures
            final(self).wf(),
            final(self).resolves(id) == Some(entry),
            forall|other: MethodSignatureId| other != id ==> final(self).resolves(other) == old(self).resolves(other),
    {
        let ghost e = self.methods@;
        match self.position(id) {
            Some(i) => {
                self.methods.set(i, (id, entry));
                proof {
                    let e2 = self.methods@;
                    assert forall|a: int, b: int| 0 <= a < b < e2.len() implies #[trigger] e2[a].0 != #[trigger] e2[b].0 by {
                        if a != i && b != i {
                            assert(e[a].0 != e[b].0);
                        } else if a == i {
                            assert(e[i as int].0 != e[b].0);
                        } else {
                            assert(e[a].0 != e[i as int].0);
                        }
                    }
                    assert(e2[i as int] == (id, entry));
                    let k = choose|k: int| 0 <= k < e2.len() && e2[k].0 == id;
                    if k != i {
                        assert(e2[k].0 != e2[i as int].0);
                    }
                    assert(lookup(e2, id) == Some(entry));
                    assert forall|other: MethodSignatureId| other != id implies lookup(e2, other) == lookup(e, other) by {
                        if exists|j: int| 0 <= j < e.len() && e[j].0 == other {
                            let j = choose|j: int| 0 <= j < e.len() && e[j].0 == other;
                            assert(e2[j] == e[j]);
                            let j2 = choose|j2: int| 0 <= j2 < e2.len() && e2[j2].0 == other;
                            if j2 != j {
                                assert(e2[j2] == e[j2]);
                            }
                        }
                        if exists|j: int| 0 <= j < e2.len() && e2[j].0 == other {
                            let j = choose|j: int| 0 <= j < e2.len() && e2[j].0 == other;
                            assert(e2[j] == e[j]);
                        }
                    }
                }
            },
            None => {
                self.methods.push((id, entry));
                proof {
                    let e2 = self.methods@;
                    assert(e2[e.len() as int] == (id, entry));
                    let k = choose|k: int| 0 <= k < e2.len() && e2[k].0 == id;
                    if k < e.len() {
                        assert(e2[k] == e[k]);
                    }
                    assert(lookup(e2, id) == Some(entry));
                    assert forall|other: MethodSignatureId| other != id implies lookup(e2, other) == lookup(e, other) by {
                        if exists|j: int| 0 <= j < e.len() && e[j].0 == other {
                            let j = choose|j: int| 0 <= j < e.len() && e[j].0 == other;
                            assert(e2[j] == e[j]);
                            let j2 = choose|j2: int| 0 <= j2 < e2.len() && e2[j2].0 == other;
                            if j2 != j {
                                assert(e2[j2] == e[j2]);
                            }
                        }
                        if exists|j: int| 0 <= j < e2.len() && e2[j].0 == other {
                            let j = choose|j: int| 0 <= j < e2.len() && e2[j].0 == other;
                            assert(e2[j] == e[j]);
                        }
                    }
                }
            },
        }
    }
}

} // verus!
