use vstd::prelude::*;

use crate::gateway::byte_len;
use crate::store::{lemma_without_key, value_of, without_key, EntryModel, EntryStore};

verus! {

/// Once the volatile store holds this many entries, the next insert clears it.
pub const VOLATILE_CAPACITY: usize = 1000;

/// Values of this many bytes or more are dropped by the volatile store.
pub const VOLATILE_VALUE_LIMIT: usize = 10000;

/// The entries after `insert(k, v)` on the volatile store.
pub open spec fn volatile_insert_spec(s: Seq<EntryModel>, k: Seq<char>, v: Seq<char>) -> Seq<
    EntryModel,
> {
    if byte_len(v) >= VOLATILE_VALUE_LIMIT {
        s
    } else if s.len() >= VOLATILE_CAPACITY {
        seq![(k, v)]
    } else {
        without_key(s, k).push((k, v))
    }
}

/// An in-process store that clears itself when full.
///
/// Inserting under a present key replaces its value. A value that is too
/// long is dropped without a word; an insert into a full store first drops
/// every entry.
pub struct VolatileStore {
    data: EntryStore,
}

impl View for VolatileStore {
    type V = Seq<EntryModel>;

    closed spec fn view(&self) -> Seq<EntryModel> {
        self.data@
    }
}

impl VolatileStore {
    /// The store's invariant: one entry per key.
    pub open spec fn wf(&self) -> bool {
        crate::store::keys_unique(self@)
    }

    /// An empty store.
    pub fn new() -> (r: Self)
        ensures
            r@ == Seq::<EntryModel>::empty(),
            r.wf(),
    {
        VolatileStore { data: EntryStore::new() }
    }

    /// The number of live entries.
    pub fn count(&self) -> (r: usize)
        ensures
            r == self@.len(),
    {
        self.data.count()
    }

    /// The value stored under `key`, or `None`.
    pub fn find(&self, key: &str) -> (r: Option<String>)
        requires
            self.wf(),
        ensures
            match r {
                Some(v) => value_of(self@, key@) == Some(v@),
                None => value_of(self@, key@) is None,
            },
    {
        self.data.find(key)
    }

    /// Stores `value` under `key`, under the volatile store's size rules.
    pub fn insert(&mut self, key: String, value: String)
        requires
            old(self).wf(),
        ensures
            final(self).wf(),
            final(self)@ == volatile_insert_spec(old(self)@, key@, value@),
    {
        if value.as_str().len() >= VOLATILE_VALUE_LIMIT {
            return ;
        }
        if self.data.count() >= VOLATILE_CAPACITY {
            self.data.clear();
        }
        self.data.delete(key.as_str());
        proof {
            lemma_without_key(self.data@, key@);
        }
        let ghost mid = self.data@;
        let _ = self.data.insert(key, value);
        proof {
            if old(self)@.len() >= VOLATILE_CAPACITY {
                assert(mid =~= Seq::<EntryModel>::empty());
                assert(self@ =~= seq![(key@, value@)]);
            }
        }
    }

    /// Removes the entry for `key`; nothing happens when there is none.
    pub fn delete(&mut self, key: &str)
        requires
            old(self).wf(),
        ensures
            final(self).wf(),
            final(self)@ == without_key(old(self)@, key@),
    {
        self.data.delete(key)
    }
}

} // verus!
