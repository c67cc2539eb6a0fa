//! Identifiers for on-chain modules.

use vstd::prelude::*;

verus! {

/// Uniquely identifies a module published on chain: the address of the
/// publishing account together with the module's name.  Names and addresses
/// are interned symbols, carried as plain integers.  Equality is structural,
/// and a `ModuleId` is the cache key everywhere in this crate.
#[derive(Clone, Copy, PartialEq, Eq, Structural, Debug)]
pub struct ModuleId {
    pub address: u64,
    pub name: u64,
}

impl ModuleId {
    pub fn new(address: u64, name: u64) -> (r: ModuleId)
        ensures
            r.address == address,
            r.name == name,
    {
        ModuleId { address, name }
    }
}

} // verus!
