//! A verified module prepared for resolution.
//!
//! Loading precomputes two name tables (function name to definition index,
//! struct name to definition index) and attaches a memo table that maps a
//! struct-definition index to its previously resolved shape.  The memo is
//! filled lazily and monotonically: a slot is written at most once, so the
//! shape recorded for an index never changes.

use vstd::prelude::*;
use crate::file_format::{FunctionDefinition, ModuleV, VerifiedModule};
use crate::ids::ModuleId;
use crate::tables::{assoc_lookup, lemma_assoc_lookup_mem, lemma_assoc_push_all};
use crate::types::{StructDef, StructDefV};

verus! {

broadcast use vstd::seq::group_seq_axioms, vstd::std_specs::vec::group_vec_axioms;

/// Internal consistency of a module's tables: every struct definition
/// points at a struct handle the module really has.
pub open spec fn module_wf(m: ModuleV) -> bool {
    forall|i: int| 0 <= i < m.struct_defs.len()
        ==> #[trigger] m.struct_defs[i].struct_handle < m.struct_handles.len()
}

/// The name under which struct definition `j` of module `m` answers: the
/// name of the handle it is defined against.
pub open spec fn struct_def_name(m: ModuleV, j: int) -> u64 {
    m.struct_handles[m.struct_defs[j].struct_handle as int].name
}

/// Definition `i` of module `m` is a function named `name`.
pub open spec fn is_fn_named(m: ModuleV, i: int, name: u64) -> bool {
    0 <= i < m.function_defs.len() && m.function_defs[i].name == name
}

/// Definition `i` of module `m` is the first function named `name`: the
/// one the precomputed table answers with.
pub open spec fn is_first_fn_named(m: ModuleV, i: int, name: u64) -> bool {
    is_fn_named(m, i, name) && forall|j: int| 0 <= j < i
        ==> (#[trigger] m.function_defs[j]).name != name
}

/// Module `m` defines some function named `name`.
pub open spec fn has_fn_named(m: ModuleV, name: u64) -> bool {
    exists|i: int| is_fn_named(m, i, name)
}

/// Definition `j` of module `m` is a struct named `name`.
pub open spec fn is_struct_named(m: ModuleV, j: int, name: u64) -> bool {
    0 <= j < m.struct_defs.len() && struct_def_name(m, j) == name
}

/// Definition `j` of module `m` is the first struct named `name`: the one
/// the precomputed table answers with.
pub open spec fn is_first_struct_named(m: ModuleV, j: int, name: u64) -> bool {
    is_struct_named(m, j, name) && forall|i: int| 0 <= i < j
        ==> #[trigger] struct_def_name(m, i) != name
}

/// Module `m` defines some struct named `name`.
pub open spec fn has_struct_named(m: ModuleV, name: u64) -> bool {
    exists|j: int| is_struct_named(m, j, name)
}

/// The function-name table is exactly right for the module: every entry
/// points at a definition with the entry's name, and every defined name
/// has an entry.
pub open spec fn fn_table_wf(tbl: Seq<(u64, usize)>, m: ModuleV) -> bool {
    &&& forall|k: int| 0 <= k < tbl.len()
        ==> is_first_fn_named(m, #[trigger] tbl[k].1 as int, tbl[k].0)
    &&& forall|j: int| 0 <= j < m.function_defs.len()
        ==> assoc_lookup(tbl, #[trigger] m.function_defs[j].name) is Some
}

/// The struct-name table is exactly right for the module.
pub open spec fn struct_table_wf(tbl: Seq<(u64, usize)>, m: ModuleV) -> bool {
    &&& forall|k: int| 0 <= k < tbl.len()
        ==> is_first_struct_named(m, #[trigger] tbl[k].1 as int, tbl[k].0)
    &&& forall|j: int| 0 <= j < m.struct_defs.len()
        ==> assoc_lookup(tbl, #[trigger] struct_def_name(m, j)) is Some
}

/// The mathematical value of a memo table.
pub open spec fn memo_view(memo: Seq<Option<StructDef>>) -> Seq<Option<StructDefV>> {
    Seq::new(memo.len(), |i: int| match memo[i] {
        Some(d) => Some(d.def_view()),
        None => None,
    })
}

/// The mathematical value of a loaded module: its verified tables and
/// definitions, plus the current contents of its struct-shape memo.
pub struct LoadedModuleV {
    pub module: ModuleV,
    pub memo: Seq<Option<StructDefV>>,
}

/// A verified module together with its precomputed name tables and its
/// struct-shape memo.  Owned by the arena of the scope that loaded it;
/// everything but the memo is immutable after loading.
#[derive(Debug)]
pub struct LoadedModule {
    pub module: VerifiedModule,
    pub function_defs_table: Vec<(u64, usize)>,
    pub struct_defs_table: Vec<(u64, usize)>,
    pub struct_def_memo: Vec<Option<StructDef>>,
}

impl View for LoadedModule {
    type V = LoadedModuleV;

    open spec fn view(&self) -> LoadedModuleV {
        LoadedModuleV { module: self.module@, memo: memo_view(self.struct_def_memo@) }
    }
}

/// Looks a name up in an association table.
#[verifier::loop_isolation(false)]
fn lookup_name(tbl: &Vec<(u64, usize)>, name: u64) -> (r: Option<usize>)
    ensures
        r == assoc_lookup(tbl@, name),
{
    let n = tbl.len();
    proof {
        assert(tbl@.skip(0) =~= tbl@);
    }
    for i in 0..n
        invariant
            assoc_lookup(tbl@, name) == assoc_lookup(tbl@.skip(i as int), name),
    {
        proof {
            assert(tbl@.skip(i as int).first() == tbl@[i as int]);
            assert(tbl@.skip(i as int).drop_first() =~= tbl@.skip(i as int + 1));
        }
        if tbl[i].0 == name {
            return Some(tbl[i].1);
        }
    }
    None
}

/// A copy of a memo table with the same contents.
#[verifier::loop_isolation(false)]
pub fn duplicate_memo(v: &Vec<Option<StructDef>>) -> (r: Vec<Option<StructDef>>)
    ensures
        memo_view(r@) == memo_view(v@),
{
    let mut r: Vec<Option<StructDef>> = Vec::new();
    let n = v.len();
    for i in 0..n
        invariant
            r@.len() == i,
            forall|j: int| 0 <= j < i ==> memo_view(r@)[j] == memo_view(v@)[j],
    {
        match &v[i] {
            Some(d) => {
                r.push(Some(d.duplicate()));
            }
            None => {
                r.push(None);
            }
        }
    }
    proof {
        assert(memo_view(r@) =~= memo_view(v@));
    }
    r
}

impl LoadedModule {
    /// Well-formedness: the module's internal indices are consistent, both
    /// name tables are exactly right for it, and the memo has one slot per
    /// struct definition.
    pub open spec fn wf(&self) -> bool {
        &&& module_wf(self.module@)
        &&& fn_table_wf(self.function_defs_table@, self.module@)
        &&& struct_table_wf(self.struct_defs_table@, self.module@)
        &&& self.struct_def_memo@.len() == self.module@.struct_defs.len()
    }

    /// Wraps a verified module: precomputes the two name tables and
    /// attaches an empty memo.
    #[verifier::loop_isolation(false)]
    pub fn new(module: VerifiedModule) -> (r: LoadedModule)
        requires
            module_wf(module@),
        ensures
            r.wf(),
            r@.module == module@,
            r@.memo.len() == module@.struct_defs.len(),
            forall|i: int| 0 <= i < r@.memo.len() ==> r@.memo[i] is None,
    {
        let ghost mv = module@;
        let mut function_defs_table: Vec<(u64, usize)> = Vec::new();
        let fn_count = module.function_defs.len();
        for j in 0..fn_count
            invariant
                fn_count == mv.function_defs.len(),
                mv == module@,
                forall|k: int| 0 <= k < function_defs_table@.len()
                    ==> is_first_fn_named(mv, #[trigger] function_defs_table@[k].1 as int,
                        function_defs_table@[k].0),
                forall|i: int| 0 <= i < j
                    ==> assoc_lookup(function_defs_table@,
                        #[trigger] mv.function_defs[i].name) is Some,
        {
            let name = module.function_defs[j].name;
            if lookup_name(&function_defs_table, name).is_none() {
                proof {
                    assert(forall|j2: int| 0 <= j2 < j
                        ==> (#[trigger] mv.function_defs[j2]).name != name);
                    lemma_assoc_push_all(function_defs_table@, (name, j));
                }
                function_defs_table.push((name, j));
            }
        }

        let mut struct_defs_table: Vec<(u64, usize)> = Vec::new();
        let struct_count = module.struct_defs.len();
        for j in 0..struct_count
            invariant
                struct_count == mv.struct_defs.len(),
                mv == module@,
                forall|k: int| 0 <= k < struct_defs_table@.len()
                    ==> is_first_struct_named(mv, #[trigger] struct_defs_table@[k].1 as int,
                        struct_defs_table@[k].0),
                forall|i: int| 0 <= i < j
                    ==> assoc_lookup(struct_defs_table@,
                        #[trigger] struct_def_name(mv, i)) is Some,
        {
            proof {
                assert(mv.struct_defs[j as int] == module.struct_defs@[j as int]@);
                assert(mv.struct_defs[j as int].struct_handle < mv.struct_handles.len());
            }
            let handle_idx = module.struct_defs[j].struct_handle;
            let name = module.struct_handles[handle_idx as usize].name;
            if lookup_name(&struct_defs_table, name).is_none() {
                proof {
                    assert(forall|i2: int| 0 <= i2 < j
                        ==> #[trigger] struct_def_name(mv, i2) != name);
                    lemma_assoc_push_all(struct_defs_table@, (name, j));
                }
                struct_defs_table.push((name, j));
            }
        }

        let mut struct_def_memo: Vec<Option<StructDef>> = Vec::new();
        for j in 0..struct_count
            invariant
                struct_def_memo@.len() == j,
                forall|i: int| 0 <= i < j ==> struct_def_memo@[i] is None,
        {
            struct_def_memo.push(None);
        }

        LoadedModule { module, function_defs_table, struct_defs_table, struct_def_memo }
    }

    /// A copy of the wrapped module and of the current memo contents, for
    /// resolution that must not hold a borrow of the owning arena.
    pub fn snapshot(&self) -> (r: (VerifiedModule, Vec<Option<StructDef>>))
        ensures
            r.0@ == self@.module,
            memo_view(r.1@) == self@.memo,
    {
        (self.module.duplicate(), duplicate_memo(&self.struct_def_memo))
    }

    /// The id of the wrapped module.
    pub fn self_id(&self) -> (r: ModuleId)
        ensures
            r == self@.module.self_id,
    {
        self.module.self_id
    }

    /// The index of the function definition named `name`, through the
    /// precomputed table.
    pub fn function_def_index(&self, name: u64) -> (r: Option<usize>)
        requires
            self.wf(),
        ensures
            (r matches Some(i) ==> is_first_fn_named(self@.module, i as int, name)),
            r is None ==> !has_fn_named(self@.module, name),
    {
        let r = lookup_name(&self.function_defs_table, name);
        proof {
            if r is Some {
                lemma_assoc_lookup_mem(self.function_defs_table@, name);
                let tbl = self.function_defs_table@;
                let k = choose|k: int| 0 <= k < tbl.len() && #[trigger] tbl[k]
                    == (name, r->Some_0);
                assert(is_first_fn_named(self@.module, tbl[k].1 as int, tbl[k].0));
            }
        }
        r
    }

    /// The index of the struct definition named `name`, through the
    /// precomputed table.
    pub fn struct_def_index(&self, name: u64) -> (r: Option<usize>)
        requires
            self.wf(),
        ensures
            (r matches Some(j) ==> is_first_struct_named(self@.module, j as int, name)),
            r is None ==> !has_struct_named(self@.module, name),
    {
        let r = lookup_name(&self.struct_defs_table, name);
        proof {
            if r is Some {
                lemma_assoc_lookup_mem(self.struct_defs_table@, name);
                let tbl = self.struct_defs_table@;
                let k = choose|k: int| 0 <= k < tbl.len() && #[trigger] tbl[k]
                    == (name, r->Some_0);
                assert(is_first_struct_named(self@.module, tbl[k].1 as int, tbl[k].0));
            }
        }
        r
    }

    /// The memoized shape for struct-definition index `idx`, if the slot
    /// has been filled.
    pub fn cached_struct_def_at(&self, idx: usize) -> (r: Option<StructDef>)
        requires
            idx < self@.memo.len(),
        ensures
            (self@.memo[idx as int] matches Some(dv)
                ==> (r matches Some(d) && d.def_view() == dv)),
            self@.memo[idx as int] is None ==> r is None,
    {
        match &self.struct_def_memo[idx] {
            Some(d) => Some(d.duplicate()),
            None => None,
        }
    }

    /// Records the resolved shape for struct-definition index `idx`.  The
    /// first write to a slot wins; a redundant later write is dropped, so
    /// the memo is a monotone fill.
    pub fn cache_struct_def(&mut self, idx: usize, def: StructDef)
        requires
            idx < old(self)@.memo.len(),
        ensures
            final(self).module == old(self).module,
            final(self).function_defs_table == old(self).function_defs_table,
            final(self).struct_defs_table == old(self).struct_defs_table,
            old(self)@.memo[idx as int] is None
                ==> final(self)@.memo =~= old(self)@.memo.update(idx as int,
                    Some(def.def_view())),
            old(self)@.memo[idx as int] is Some ==> *final(self) == *old(self),
            final(self).wf() == old(self).wf(),
    {
        if self.struct_def_memo[idx].is_none() {
            self.struct_def_memo.set(idx, Some(def));
            proof {
                assert(final(self)@.memo =~= old(self)@.memo.update(idx as int,
                    Some(def.def_view())));
            }
        }
    }
}

} // verus!
