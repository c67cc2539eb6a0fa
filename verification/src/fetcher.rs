//! The pluggable strategy for retrieving a module that is not cached yet.
//!
//! A fetcher answers a module id with the fetched module or with absence;
//! absence is an ordinary outcome, never a fault.  The null fetcher always
//! answers absent, so only already-cached or newly-published modules are
//! visible through it; the fake fetcher serves an in-memory table and
//! counts how often it is consulted.

use vstd::prelude::*;
use crate::file_format::{CompiledModule, CompiledModuleV};
use crate::ids::ModuleId;
use crate::loaded_module::module_wf;
use crate::tables::{assoc_lookup, lemma_assoc_push_all};

verus! {

broadcast use vstd::seq::group_seq_axioms, vstd::std_specs::vec::group_vec_axioms;

/// A source of raw modules.  Fetching may keep bookkeeping (a consultation
/// count, say) but never changes what any id would answer with, and a
/// module it serves with a clean finding is internally consistent.
pub trait ModuleFetcher: Sized {
    /// The fetcher's own invariant.
    spec fn inv(&self) -> bool;

    /// What the fetcher answers for `id`.
    spec fn response(&self, id: ModuleId) -> Option<CompiledModuleV>;

    /// Retrieves the module stored under `id`, or reports it absent.
    fn get_module(&mut self, id: &ModuleId) -> (r: Option<CompiledModule>)
        requires
            old(self).inv(),
        ensures
            final(self).inv(),
            r is None <==> old(self).response(*id) is None,
            (r matches Some(m) ==> old(self).response(*id) == Some(m@)),
            (r matches Some(m) ==> (m@.rejected is None ==> module_wf(m@.module))),
            forall|x: ModuleId| final(self).response(x) == old(self).response(x);
}

/// The fetcher that always answers absent.
#[derive(Clone, Copy, Debug)]
pub struct NullFetcher;

impl ModuleFetcher for NullFetcher {
    open spec fn inv(&self) -> bool {
        true
    }

    open spec fn response(&self, id: ModuleId) -> Option<CompiledModuleV> {
        None
    }

    fn get_module(&mut self, id: &ModuleId) -> (r: Option<CompiledModule>) {
        None
    }
}

/// A fetcher backed by an in-memory table, for exercising the caches
/// without chain state.  `fetch_count` says how often it was consulted.
#[derive(Debug)]
pub struct FakeFetcher {
    pub table: Vec<(ModuleId, CompiledModule)>,
    pub fetch_count: u64,
}

impl FakeFetcher {
    /// An empty fake fetcher.
    pub fn new() -> (r: FakeFetcher)
        ensures
            r.inv(),
            r.fetch_count == 0,
            forall|x: ModuleId| #[trigger] r.response(x) is None,
    {
        FakeFetcher { table: Vec::new(), fetch_count: 0 }
    }

    /// Stores `module` under its own id; an id already served keeps its
    /// first module.
    pub fn publish(&mut self, module: CompiledModule)
        requires
            old(self).inv(),
            module@.rejected is None ==> module_wf(module@.module),
        ensures
            final(self).inv(),
            final(self).fetch_count == old(self).fetch_count,
            final(self).response(module@.module.self_id) == (
                if old(self).response(module@.module.self_id) is Some {
                    old(self).response(module@.module.self_id)
                } else {
                    Some(module@)
                }),
            forall|x: ModuleId| x != module@.module.self_id
                ==> #[trigger] final(self).response(x) == old(self).response(x),
    {
        let id = module.self_id;
        proof {
            lemma_assoc_push_all(self.table@, (id, module));
        }
        self.table.push((id, module));
    }

    /// Empties the table: every id answers absent afterwards.
    pub fn clear(&mut self)
        requires
            old(self).inv(),
        ensures
            final(self).inv(),
            forall|x: ModuleId| #[trigger] final(self).response(x) is None,
    {
        self.table.clear();
    }
}

impl ModuleFetcher for FakeFetcher {
    open spec fn inv(&self) -> bool {
        forall|k: int| 0 <= k < self.table@.len()
            ==> ((#[trigger] self.table@[k].1)@.rejected is None
                ==> module_wf(self.table@[k].1@.module))
    }

    open spec fn response(&self, id: ModuleId) -> Option<CompiledModuleV> {
        match assoc_lookup(self.table@, id) {
            Some(m) => Some(m@),
            None => None,
        }
    }

    #[verifier::loop_isolation(false)]
    fn get_module(&mut self, id: &ModuleId) -> (r: Option<CompiledModule>) {
        if self.fetch_count < u64::MAX {
            self.fetch_count = self.fetch_count + 1;
        }
        let n = self.table.len();
        proof {
            assert(self.table@.skip(0) =~= self.table@);
        }
        for i in 0..n
            invariant
                assoc_lookup(self.table@, *id)
                    == assoc_lookup(self.table@.skip(i as int), *id),
        {
            proof {
                assert(self.table@.skip(i as int).first() == self.table@[i as int]);
                assert(self.table@.skip(i as int).drop_first()
                    =~= self.table@.skip(i as int + 1));
            }
            if self.table[i].0 == *id {
                return Some(self.table[i].1.duplicate());
            }
        }
        None
    }
}

} // verus!
