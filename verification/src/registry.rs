//! The arena-backed module registry of one scope.
//!
//! The registry owns every loaded module of its scope and hands out stable
//! index handles: the arena is append-only, a module id is registered at
//! most once, and the module behind an index never changes except for the
//! monotone fill of its struct-shape memo.  Reclamation re-homes modules
//! resolved in a shorter-lived scope into this arena, promoting them one
//! generation.

use vstd::prelude::*;
use crate::ids::ModuleId;
use crate::loaded_module::{memo_view, LoadedModule, LoadedModuleV};
use crate::tables::{assoc_lookup, lemma_assoc_lookup_mem, lemma_assoc_push_all};
use crate::types::StructDef;

verus! {

broadcast use vstd::seq::group_seq_axioms, vstd::std_specs::vec::group_vec_axioms;

/// Owns the loaded modules of one scope and registers each under its id.
#[derive(Debug)]
pub struct ModuleRegistry {
    pub modules: Vec<LoadedModule>,
    pub table: Vec<(ModuleId, usize)>,
}

/// `post` is `pre` grown only in the ways a registry may grow: modules are
/// appended, never removed or replaced; a registered id keeps its index;
/// and an existing module changes only by monotone memo fill.
pub open spec fn registry_extends(pre: ModuleRegistry, post: ModuleRegistry) -> bool {
    &&& pre.modules@.len() <= post.modules@.len()
    &&& forall|j: int| 0 <= j < pre.modules@.len()
        ==> (#[trigger] post.modules@[j]@).module == pre.modules@[j]@.module
    &&& forall|j: int| 0 <= j < pre.modules@.len()
        ==> (#[trigger] post.modules@[j]@).memo.len() == pre.modules@[j]@.memo.len()
    &&& forall|j: int, i: int| 0 <= j < pre.modules@.len()
        && 0 <= i < pre.modules@[j]@.memo.len() && pre.modules@[j]@.memo[i] is Some
        ==> (#[trigger] post.modules@[j]@.memo[i]) == pre.modules@[j]@.memo[i]
    &&& forall|id: ModuleId| #[trigger] pre.spec_get(id) is Some
        ==> post.spec_get(id) == pre.spec_get(id)
}

/// `registry_extends` composes.
pub proof fn lemma_registry_extends_trans(a: ModuleRegistry, b: ModuleRegistry, c: ModuleRegistry)
    requires
        registry_extends(a, b),
        registry_extends(b, c),
    ensures
        registry_extends(a, c),
{
}

/// A registered index points inside the arena.
pub proof fn lemma_get_in_range(r: ModuleRegistry, id: ModuleId)
    requires
        r.wf(),
        r.spec_get(id) is Some,
    ensures
        r.spec_get(id)->Some_0 < r.count(),
{
    lemma_assoc_lookup_mem(r.table@, id);
    let k = choose|k: int| 0 <= k < r.table@.len() && #[trigger] r.table@[k]
        == (id, r.spec_get(id)->Some_0);
    assert(r.table@[k].1 < r.modules@.len());
}

impl ModuleRegistry {
    /// Well-formedness: every registered index is in the arena and every
    /// module in the arena is itself well formed.
    pub open spec fn wf(&self) -> bool {
        &&& forall|k: int| 0 <= k < self.table@.len()
            ==> (#[trigger] self.table@[k].1) < self.modules@.len()
        &&& forall|j: int| 0 <= j < self.modules@.len()
            ==> (#[trigger] self.modules@[j]).wf()
    }

    /// The arena index registered for `id`, if any.
    pub open spec fn spec_get(&self, id: ModuleId) -> Option<usize> {
        assoc_lookup(self.table@, id)
    }

    /// How many modules the arena holds.
    pub open spec fn count(&self) -> nat {
        self.modules@.len()
    }

    /// The mathematical value of the module at arena index `j`.
    pub open spec fn module_view(&self, j: int) -> LoadedModuleV {
        self.modules@[j]@
    }

    /// An empty registry.
    pub fn new() -> (r: ModuleRegistry)
        ensures
            r.wf(),
            r.count() == 0,
            forall|id: ModuleId| #[trigger] r.spec_get(id) is None,
    {
        let r = ModuleRegistry { modules: Vec::new(), table: Vec::new() };
        proof {
            assert(forall|id: ModuleId| #[trigger] r.spec_get(id) is None);
        }
        r
    }

    /// Pure lookup: the arena index registered for `id`.  No side effects;
    /// in particular an absent id is never recorded.
    #[verifier::loop_isolation(false)]
    pub fn get(&self, id: &ModuleId) -> (r: Option<usize>)
        ensures
            r == self.spec_get(*id),
    {
        let n = self.table.len();
        proof {
            assert(self.table@.skip(0) =~= self.table@);
        }
        for i in 0..n
            invariant
                assoc_lookup(self.table@, *id) == assoc_lookup(self.table@.skip(i as int), *id),
        {
            proof {
                assert(self.table@.skip(i as int).first() == self.table@[i as int]);
                assert(self.table@.skip(i as int).drop_first() =~= self.table@.skip(i as int + 1));
            }
            if self.table[i].0 == *id {
                return Some(self.table[i].1);
            }
        }
        None
    }

    /// The module behind a handle; the reference is borrowed from the
    /// arena and the module it denotes never changes (memo fill aside).
    pub fn module_at(&self, j: usize) -> (r: &LoadedModule)
        requires
            j < self.count(),
        ensures
            *r == self.modules@[j as int],
    {
        &self.modules[j]
    }

    /// Registers `module` under `id`: if the id is already present the new
    /// value is discarded and the existing index returned, so concurrent
    /// racers for one id would all observe one retained allocation;
    /// otherwise the module is appended to the arena and registered.
    pub fn or_insert(&mut self, id: ModuleId, module: LoadedModule) -> (j: usize)
        requires
            old(self).wf(),
            module.wf(),
        ensures
            final(self).wf(),
            registry_extends(*old(self), *final(self)),
            old(self).spec_get(id) matches Some(k) ==> j == k && *final(self) == *old(self),
            old(self).spec_get(id) is None ==> {
                &&& j == old(self).count()
                &&& final(self).count() == old(self).count() + 1
                &&& final(self).spec_get(id) == Some(j)
                &&& final(self).module_view(j as int) == module@
                &&& forall|x: ModuleId| x != id
                    ==> #[trigger] final(self).spec_get(x) == old(self).spec_get(x)
                &&& forall|k: int| 0 <= k < old(self).count()
                    ==> #[trigger] final(self).modules@[k] == old(self).modules@[k]
            },
    {
        match self.get(&id) {
            Some(k) => k,
            None => {
                let j = self.modules.len();
                self.modules.push(module);
                proof {
                    lemma_assoc_push_all(self.table@, (id, j));
                }
                self.table.push((id, j));
                j
            }
        }
    }

    /// Re-homes a batch of modules resolved in another, shorter-lived
    /// scope into this arena: each is registered under its own id, with
    /// already-registered ids keeping their existing module.
    #[verifier::loop_isolation(false)]
    pub fn reclaim(&mut self, batch: Vec<LoadedModule>)
        requires
            old(self).wf(),
            forall|i: int| 0 <= i < batch@.len() ==> (#[trigger] batch@[i]).wf(),
        ensures
            final(self).wf(),
            registry_extends(*old(self), *final(self)),
            forall|i: int| 0 <= i < batch@.len()
                ==> final(self).spec_get(#[trigger] batch@[i]@.module.self_id) is Some,
            forall|i: int| 0 <= i < batch@.len()
                && old(self).spec_get(batch@[i]@.module.self_id) is None
                && (forall|k: int| 0 <= k < i
                    ==> batch@[k]@.module.self_id != batch@[i]@.module.self_id)
                ==> (final(self).spec_get(#[trigger] batch@[i]@.module.self_id) matches Some(j)
                    && final(self).module_view(j as int) == batch@[i]@),
            forall|x: ModuleId| old(self).spec_get(x) is None
                && (forall|k: int| 0 <= k < batch@.len()
                    ==> batch@[k]@.module.self_id != x)
                ==> #[trigger] final(self).spec_get(x) is None,
    {
        let ghost orig = batch@;
        let mut batch = batch;
        while batch.len() > 0
            invariant
                self.wf(),
                registry_extends(*old(self), *self),
                batch@.len() <= orig.len(),
                batch@ =~= orig.skip(orig.len() - batch@.len()),
                forall|i: int| 0 <= i < orig.len() - batch@.len()
                    ==> self.spec_get(#[trigger] orig[i]@.module.self_id) is Some,
                forall|i: int| 0 <= i < orig.len() - batch@.len()
                    && old(self).spec_get(orig[i]@.module.self_id) is None
                    && (forall|k: int| 0 <= k < i
                        ==> orig[k]@.module.self_id != orig[i]@.module.self_id)
                    ==> (self.spec_get(#[trigger] orig[i]@.module.self_id) matches Some(j)
                        && self.module_view(j as int) == orig[i]@),
                forall|x: ModuleId| old(self).spec_get(x) is None
                    && (forall|k: int| 0 <= k < orig.len() - batch@.len()
                        ==> orig[k]@.module.self_id != x)
                    ==> #[trigger] self.spec_get(x) is None,
            decreases batch@.len(),
        {
            let ghost pre = *self;
            let m = batch.remove(0);
            let ghost p = orig.len() - batch@.len() - 1;
            proof {
                assert(m == orig[p]);
                assert(batch@ =~= orig.skip(orig.len() - batch@.len()));
            }
            let id = m.self_id();
            self.or_insert(id, m);
            proof {
                lemma_registry_extends_trans(*old(self), pre, *self);
                if old(self).spec_get(orig[p]@.module.self_id) is None
                    && (forall|k: int| 0 <= k < p
                        ==> orig[k]@.module.self_id != orig[p]@.module.self_id) {
                    assert(pre.spec_get(id) is None);
                    assert(self.spec_get(orig[p]@.module.self_id) matches Some(j)
                        && self.module_view(j as int) == orig[p]@);
                }
                assert forall|i: int| 0 <= i < p
                    && old(self).spec_get(orig[i]@.module.self_id) is None
                    && (forall|k: int| 0 <= k < i
                        ==> orig[k]@.module.self_id != orig[i]@.module.self_id)
                    implies (self.spec_get(#[trigger] orig[i]@.module.self_id) matches Some(j)
                        && self.module_view(j as int) == orig[i]@) by {
                    let idv = orig[i]@.module.self_id;
                    assert(pre.spec_get(idv) matches Some(j)
                        && pre.module_view(j as int) == orig[i]@);
                    lemma_get_in_range(pre, idv);
                }
            }
        }
    }

    /// Merges a memo snapshot back into the module at arena index `j`:
    /// every slot the snapshot resolved and the arena has not is written;
    /// filled arena slots keep what they have.
    #[verifier::loop_isolation(false)]
    pub fn absorb_memo(&mut self, j: usize, memo: &Vec<Option<StructDef>>)
        requires
            old(self).wf(),
            j < old(self).count(),
            memo@.len() == old(self).module_view(j as int).memo.len(),
        ensures
            final(self).wf(),
            registry_extends(*old(self), *final(self)),
            final(self).count() == old(self).count(),
            final(self).table == old(self).table,
            forall|k: int| 0 <= k < old(self).count() && k != j
                ==> final(self).modules@[k] == old(self).modules@[k],
            final(self).module_view(j as int).module == old(self).module_view(j as int).module,
            forall|i: int| 0 <= i < memo@.len()
                ==> final(self).module_view(j as int).memo[i] == (
                    if old(self).module_view(j as int).memo[i] is Some {
                        old(self).module_view(j as int).memo[i]
                    } else {
                        memo_view(memo@)[i]
                    }),
            (forall|i: int| 0 <= i < memo@.len()
                ==> old(self).module_view(j as int).memo[i] is Some
                    || memo_view(memo@)[i] is None) ==> *final(self) == *old(self),
    {
        let n = memo.len();
        for i in 0..n
            invariant
                self.wf(),
                self.count() == old(self).count(),
                self.table == old(self).table,
                forall|k: int| 0 <= k < old(self).count() && k != j
                    ==> self.modules@[k] == old(self).modules@[k],
                self.module_view(j as int).module == old(self).module_view(j as int).module,
                self.module_view(j as int).memo.len()
                    == old(self).module_view(j as int).memo.len(),
                forall|i2: int| i <= i2 < memo@.len()
                    ==> self.module_view(j as int).memo[i2]
                        == old(self).module_view(j as int).memo[i2],
                forall|i2: int| 0 <= i2 < i
                    ==> self.module_view(j as int).memo[i2] == (
                        if old(self).module_view(j as int).memo[i2] is Some {
                            old(self).module_view(j as int).memo[i2]
                        } else {
                            memo_view(memo@)[i2]
                        }),
                (forall|i2: int| 0 <= i2 < i
                    ==> old(self).module_view(j as int).memo[i2] is Some
                        || memo_view(memo@)[i2] is None) ==> *self == *old(self),
        {
            let ghost pre_iter = *self;
            if self.modules[j].struct_def_memo[i].is_none() {
                match &memo[i] {
                    Some(d) => {
                        let dup = d.duplicate();
                        self.modules[j].cache_struct_def(i, dup);
                    }
                    None => {}
                }
            }
            proof {
                if forall|i2: int| 0 <= i2 < i + 1
                    ==> old(self).module_view(j as int).memo[i2] is Some
                        || memo_view(memo@)[i2] is None {
                    assert(old(self).module_view(j as int).memo[i as int] is Some
                        || memo_view(memo@)[i as int] is None);
                    assert(memo_view(memo@)[i as int] == (match memo@[i as int] {
                        Some(d) => Some(d.def_view()),
                        None => None,
                    }));
                    assert(pre_iter == *old(self));
                    assert(*self == *old(self));
                }
            }
        }
        proof {
            assert(registry_extends(*old(self), *final(self)));
        }
    }
}

} // verus!
