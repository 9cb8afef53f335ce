//! Ordered sets of integer keys: reading offsets in ascending order, and
//! recording which member identities have been seen.

use std::collections::BTreeSet;

use vstd::prelude::*;
use vstd::std_specs::btree::spec_btree_keys_iter;
use vstd::std_specs::cmp::OrdSpec;
use vstd::std_specs::iter::IteratorSpec;

verus! {

broadcast use vstd::std_specs::btree::group_btree_axioms, vstd::laws_cmp::group_laws_cmp;

proof fn lemma_keys_increase(keys: Seq<&u64>)
    requires
        vstd::std_specs::btree::increasing_seq(keys),
    ensures
        forall|i: int, j: int| 0 <= i < j < keys.len() ==> *keys[i] < *keys[j],
{
    assert(vstd::laws_cmp::obeys_cmp::<&u64>());
    assert(vstd::laws_cmp::obeys_cmp::<u64>());
    vstd::std_specs::btree::axiom_increasing_seq_meaning(keys);
    assert forall|i: int, j: int| 0 <= i < j < keys.len() implies *keys[i] < *keys[j] by {
        assert(OrdSpec::cmp_spec(&keys[i], &keys[j]) is Less);
    }
}

/// The members of the set in strictly ascending order (its iteration order).
pub fn ascending_offsets(offsets: &BTreeSet<u64>) -> (ascending: Vec<u64>)
    ensures
        forall|i: int, j: int| 0 <= i < j < ascending.len() ==> ascending[i] < ascending[j],
        ascending@.to_set() == offsets@,
{
    let mut ascending: Vec<u64> = Vec::new();
    let ghost keys = IteratorSpec::remaining(&spec_btree_keys_iter(offsets));
    for offset in iter: offsets.iter()
        invariant
            iter.seq() == keys,
            ascending@ == keys.take(iter.index() as int).map_values(|r: &u64| *r),
    {
        ascending.push(*offset);
        assert(ascending@ =~= keys.take(iter.index() + 1).map_values(|r: &u64| *r));
    }
    proof {
        assert(ascending@ =~= keys.map_values(|r: &u64| *r));
        assert(keys.unref() =~= ascending@);
        lemma_keys_increase(keys);
    }
    ascending
}

/// Adds an offset to the set.
pub fn insert_offset(offsets: &mut BTreeSet<u64>, offset: u64)
    ensures
        final(offsets)@ == old(offsets)@.insert(offset),
{
    offsets.insert(offset);
}

/// The identity of a projected member: its three contributing offsets and
/// its analyzed range.
pub type MemberIdentity = (usize, usize, usize, usize, usize);

/// An empty set of identities.
pub fn new_identity_set() -> (set: BTreeSet<MemberIdentity>)
    ensures
        set@ == Set::<MemberIdentity>::empty(),
{
    BTreeSet::new()
}

/// Records an identity; true when it had not been seen before.
pub fn insert_identity(set: &mut BTreeSet<MemberIdentity>, identity: MemberIdentity) -> (fresh: bool)
    ensures
        final(set)@ == old(set)@.insert(identity),
        fresh == !old(set)@.contains(identity),
{
    set.insert(identity)
}

/// Records a key; true when it had not been seen before.
pub fn insert_key(set: &mut BTreeSet<u64>, key: u64) -> (fresh: bool)
    ensures
        final(set)@ == old(set)@.insert(key),
        fresh == !old(set)@.contains(key),
{
    set.insert(key)
}

/// An empty set of key pairs.
pub fn new_pair_set() -> (set: BTreeSet<(u64, u64)>)
    ensures
        set@ == Set::<(u64, u64)>::empty(),
{
    BTreeSet::new()
}

/// Records a key pair; true when it had not been seen before.
pub fn insert_pair(set: &mut BTreeSet<(u64, u64)>, key: (u64, u64)) -> (fresh: bool)
    ensures
        final(set)@ == old(set)@.insert(key),
        fresh == !old(set)@.contains(key),
{
    set.insert(key)
}

/// Whether the key pair has been recorded.
pub fn contains_pair(set: &BTreeSet<(u64, u64)>, key: (u64, u64)) -> (found: bool)
    ensures
        found == set@.contains(key),
{
    set.contains(&key)
}

} // verus!
