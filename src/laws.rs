use vstd::prelude::*;

use crate::gateway::{
    after_add, payload_fits_spec, retained, EVICTION_THRESHOLD, RETAIN_COUNT,
};
use crate::store::{
    keys_unique, lemma_newest_unique, lemma_value_at, lemma_without_key, newest,
    value_of, without_key, EntryModel,
};
use crate::volatile::{volatile_insert_spec, VOLATILE_CAPACITY, VOLATILE_VALUE_LIMIT};

verus! {

/// An accepted write keeps one entry per key, and a read of its key then
/// finds the value just written.
pub proof fn lemma_add_then_get(s: Seq<EntryModel>, k: Seq<char>, v: Seq<char>)
    requires
        keys_unique(s),
    ensures
        keys_unique(after_add(s, k, v)),
        value_of(after_add(s, k, v), k) == Some(v),
{
    lemma_newest_unique(s, RETAIN_COUNT as int);
    let w = without_key(retained(s), k);
    lemma_without_key(retained(s), k);
    let r = after_add(s, k, v);
    assert(r == w.push((k, v)));
    assert forall|a: int, b: int|
        0 <= a < r.len() && 0 <= b < r.len() && (#[trigger] r[a]).0 == (#[trigger] r[b]).0
        implies a == b by {
        if a < w.len() && b == w.len() {
            assert(w[a].0 == k);
        }
        if b < w.len() && a == w.len() {
            assert(w[b].0 == k);
        }
    }
    lemma_value_at(r, w.len() as int);
}

/// Last write wins: after writing `v1` and then `v2` under `k`, a read of
/// `k` finds `v2`.
pub proof fn lemma_last_write_wins(s: Seq<EntryModel>, k: Seq<char>, v1: Seq<char>, v2: Seq<char>)
    requires
        keys_unique(s),
        payload_fits_spec(k, v1),
        payload_fits_spec(k, v2),
    ensures
        value_of(after_add(after_add(s, k, v1), k, v2), k) == Some(v2),
{
    lemma_add_then_get(s, k, v1);
    lemma_add_then_get(after_add(s, k, v1), k, v2);
}

/// A key that was deleted, or never written, reads as absent.
pub proof fn lemma_absent_after_delete(s: Seq<EntryModel>, k: Seq<char>)
    requires
        keys_unique(s),
    ensures
        value_of(without_key(s, k), k) is None,
        value_of(Seq::<EntryModel>::empty(), k) is None,
{
    lemma_without_key(s, k);
}

/// Deleting a key twice leaves the same entries as deleting it once.
pub proof fn lemma_delete_idempotent(s: Seq<EntryModel>, k: Seq<char>)
    requires
        keys_unique(s),
    ensures
        without_key(without_key(s, k), k) == without_key(s, k),
        value_of(without_key(without_key(s, k), k), k) is None,
{
    lemma_without_key(s, k);
}

/// Eviction keeps exactly the `n` newest entries, in order, and every entry
/// it drops was created before every entry it keeps.
pub proof fn lemma_evict_keeps_newest(s: Seq<EntryModel>, n: int)
    requires
        0 <= n <= s.len(),
    ensures
        newest(s, n).len() == n,
        forall|i: int| 0 <= i < n ==> #[trigger] newest(s, n)[i] == s[s.len() - n + i],
{
}

/// Once the store has reached the threshold, the retention check leaves
/// exactly the retained number of entries, the newest ones.
pub proof fn lemma_retention_at_threshold(s: Seq<EntryModel>)
    requires
        s.len() >= EVICTION_THRESHOLD,
    ensures
        retained(s).len() == RETAIN_COUNT,
        retained(s) == s.subrange(s.len() - RETAIN_COUNT, s.len() as int),
{
}

/// The volatile store drops a value that is too long and changes nothing.
pub proof fn lemma_volatile_oversize_is_noop(s: Seq<EntryModel>, k: Seq<char>, v: Seq<char>)
    requires
        crate::gateway::byte_len(v) >= VOLATILE_VALUE_LIMIT,
    ensures
        volatile_insert_spec(s, k, v) == s,
{
}

/// An insert into a full volatile store clears it first: the one entry left
/// is the new one.
pub proof fn lemma_volatile_full_clears(s: Seq<EntryModel>, k: Seq<char>, v: Seq<char>)
    requires
        s.len() >= VOLATILE_CAPACITY,
        crate::gateway::byte_len(v) < VOLATILE_VALUE_LIMIT,
    ensures
        volatile_insert_spec(s, k, v).len() == 1,
        value_of(volatile_insert_spec(s, k, v), k) == Some(v),
{
    let r = volatile_insert_spec(s, k, v);
    assert(keys_unique(r));
    lemma_value_at(r, 0);
}

} // verus!
