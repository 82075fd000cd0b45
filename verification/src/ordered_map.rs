//! Declaration of indexmap's ordered map type, and spec-level helpers for
//! reasoning about its contents as a sequence of key/value pairs in
//! insertion order.

use vstd::prelude::*;

verus! {

/// indexmap's `IndexMap` is a hash map that keeps its entries in insertion
/// order; verified code sees it only through the trusted wrappers in
/// `registry`, whose contracts speak of its contents as an ordered sequence
/// of pairs.
#[verifier::external_type_specification]
#[verifier::external_body]
#[verifier::reject_recursive_types(K)]
#[verifier::reject_recursive_types(V)]
#[verifier::reject_recursive_types(S)]
pub struct ExIndexMap<K, V, S>(indexmap::IndexMap<K, V, S>);

/// Whether an entry sequence holds the key `k`.
pub open spec fn entries_have_key<V>(entries: Seq<(Seq<char>, V)>, k: Seq<char>) -> bool {
    exists|i: int| 0 <= i < entries.len() && #[trigger] entries[i].0 == k
}

/// Whether no two entries of the sequence share a key. Every `IndexMap`
/// value reachable in this crate keeps this, because the wrappers insert
/// only keys that are absent.
pub open spec fn entries_unique<V>(entries: Seq<(Seq<char>, V)>) -> bool {
    forall|i: int, j: int|
        0 <= i < j < entries.len() ==> #[trigger] entries[i].0 != #[trigger] entries[j].0
}

/// Pushing a fresh key onto a duplicate-free entry sequence keeps it
/// duplicate-free.
pub proof fn lemma_push_fresh_key_unique<V>(entries: Seq<(Seq<char>, V)>, k: Seq<char>, v: V)
    requires
        entries_unique(entries),
        !entries_have_key(entries, k),
    ensures
        entries_unique(entries.push((k, v))),
{
    let pushed = entries.push((k, v));
    assert forall|i: int, j: int| 0 <= i < j < pushed.len() implies #[trigger] pushed[i].0
        != #[trigger] pushed[j].0 by {
        if j == entries.len() {
            assert(pushed[i] == entries[i]);
        } else {
            assert(pushed[i] == entries[i]);
            assert(pushed[j] == entries[j]);
        }
    }
}

} // verus!
