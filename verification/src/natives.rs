//! The native-type dispatch registry.
//!
//! A closed, statically known set of built-in struct types, keyed by the
//! declaring module's id and the struct's name.  A module may declare a
//! struct native instead of giving it fields; resolution then asks this
//! registry for the descriptor, and absence is a linkage fault rather than
//! an unknown dependency.

use vstd::prelude::*;
use crate::ids::ModuleId;
use crate::tables::{assoc_lookup, lemma_assoc_push_all};
use crate::types::NativeStructType;

verus! {

broadcast use vstd::seq::group_seq_axioms, vstd::std_specs::vec::group_vec_axioms;

/// Maps (module id, struct name) to the built-in type declared there.
#[derive(Debug)]
pub struct NativeRegistry {
    pub entries: Vec<((ModuleId, u64), NativeStructType)>,
}

impl NativeRegistry {
    /// The descriptor registered for the pair, if any.
    pub open spec fn spec_lookup(&self, id: ModuleId, name: u64) -> Option<NativeStructType> {
        assoc_lookup(self.entries@, (id, name))
    }

    /// An empty registry.
    pub fn new() -> (r: NativeRegistry)
        ensures
            forall|id: ModuleId, name: u64| #[trigger] r.spec_lookup(id, name) is None,
    {
        let r = NativeRegistry { entries: Vec::new() };
        proof {
            assert(forall|id: ModuleId, name: u64| #[trigger] r.spec_lookup(id, name) is None);
        }
        r
    }

    /// Registers a descriptor for the pair; the first registration for a
    /// pair wins.
    pub fn register(&mut self, id: ModuleId, name: u64, ty: NativeStructType)
        ensures
            final(self).spec_lookup(id, name) == (
                if old(self).spec_lookup(id, name) is Some {
                    old(self).spec_lookup(id, name)
                } else {
                    Some(ty)
                }),
            forall|id2: ModuleId, name2: u64| (id2, name2) != (id, name)
                ==> #[trigger] final(self).spec_lookup(id2, name2)
                    == old(self).spec_lookup(id2, name2),
    {
        proof {
            lemma_assoc_push_all(self.entries@, ((id, name), ty));
        }
        self.entries.push(((id, name), ty));
    }

    /// Looks the pair up.
    #[verifier::loop_isolation(false)]
    pub fn lookup(&self, id: &ModuleId, name: u64) -> (r: Option<NativeStructType>)
        ensures
            r == self.spec_lookup(*id, name),
    {
        let n = self.entries.len();
        proof {
            assert(self.entries@.skip(0) =~= self.entries@);
        }
        for i in 0..n
            invariant
                assoc_lookup(self.entries@, (*id, name))
                    == assoc_lookup(self.entries@.skip(i as int), (*id, name)),
        {
            proof {
                assert(self.entries@.skip(i as int).first() == self.entries@[i as int]);
                assert(self.entries@.skip(i as int).drop_first()
                    =~= self.entries@.skip(i as int + 1));
            }
            if self.entries[i].0.0 == *id && self.entries[i].0.1 == name {
                return Some(self.entries[i].1);
            }
        }
        None
    }
}

} // verus!
