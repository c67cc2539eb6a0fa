//! Association tables: ordered key-value lists looked up by first match.
//!
//! Both the module registry (module id to arena index) and a loaded
//! module's precomputed name tables (name to definition index) are such
//! lists; the first entry for a key wins, so inserts never change what an
//! existing key maps to.

use vstd::prelude::*;

verus! {

/// The value the list associates with `key`: that of the first entry
/// carrying the key, if any.
pub open spec fn assoc_lookup<K, V>(entries: Seq<(K, V)>, key: K) -> Option<V>
    decreases entries,
{
    if entries.len() == 0 {
        None
    } else if entries.first().0 == key {
        Some(entries.first().1)
    } else {
        assoc_lookup(entries.drop_first(), key)
    }
}

/// Appending an entry changes only what a previously absent key maps to.
pub proof fn lemma_assoc_lookup_push<K, V>(entries: Seq<(K, V)>, key: K, entry: (K, V))
    ensures
        assoc_lookup(entries, key) is Some
            ==> assoc_lookup(entries.push(entry), key) == assoc_lookup(entries, key),
        assoc_lookup(entries, key) is None && entry.0 == key
            ==> assoc_lookup(entries.push(entry), key) == Some(entry.1),
        assoc_lookup(entries, key) is None && entry.0 != key
            ==> assoc_lookup(entries.push(entry), key) is None,
    decreases entries.len(),
{
    if entries.len() == 0 {
        assert(entries.push(entry).first() == entry);
        assert(entries.push(entry).drop_first() =~= Seq::<(K, V)>::empty());
        assert(assoc_lookup(Seq::<(K, V)>::empty(), key) is None);
    } else {
        assert(entries.push(entry).first() == entries.first());
        assert(entries.push(entry).drop_first() =~= entries.drop_first().push(entry));
        lemma_assoc_lookup_push(entries.drop_first(), key, entry);
    }
}

/// A successful lookup points at an entry of the list with that key.
pub proof fn lemma_assoc_lookup_mem<K, V>(entries: Seq<(K, V)>, key: K)
    requires
        assoc_lookup(entries, key) is Some,
    ensures
        exists|i: int| 0 <= i < entries.len() && #[trigger] entries[i]
            == (key, assoc_lookup(entries, key)->Some_0),
    decreases entries.len(),
{
    if entries.first().0 == key {
        assert(entries[0] == (key, assoc_lookup(entries, key)->Some_0));
    } else {
        lemma_assoc_lookup_mem(entries.drop_first(), key);
        let i = choose|i: int| 0 <= i < entries.drop_first().len()
            && #[trigger] entries.drop_first()[i]
                == (key, assoc_lookup(entries.drop_first(), key)->Some_0);
        assert(entries[i + 1] == (key, assoc_lookup(entries, key)->Some_0));
    }
}

/// The effect of appending one entry on every key's lookup at once.
pub proof fn lemma_assoc_push_all<K, V>(entries: Seq<(K, V)>, entry: (K, V))
    ensures
        forall|key: K| #![trigger assoc_lookup(entries.push(entry), key)]
            assoc_lookup(entries.push(entry), key) == (
                if assoc_lookup(entries, key) is Some {
                    assoc_lookup(entries, key)
                } else if entry.0 == key {
                    Some(entry.1)
                } else {
                    None
                }),
{
    assert forall|key: K|
        assoc_lookup(entries.push(entry), key) == (
            if assoc_lookup(entries, key) is Some {
                assoc_lookup(entries, key)
            } else if entry.0 == key {
                Some(entry.1)
            } else {
                None
            }) by {
        lemma_assoc_lookup_push(entries, key, entry);
    }
}

} // verus!
