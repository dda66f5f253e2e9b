use vstd::prelude::*;

use crate::error::StorageFailure;

verus! {

/// The model of one entry: its key and its value.
pub type EntryModel = (Seq<char>, Seq<char>);

/// One stored key/value pair.
pub struct Entry {
    pub key: String,
    pub value: String,
}

impl View for Entry {
    type V = EntryModel;

    open spec fn view(&self) -> EntryModel {
        (self.key@, self.value@)
    }
}

/// Some entry of `s` has the key `k`.
pub open spec fn has_key(s: Seq<EntryModel>, k: Seq<char>) -> bool {
    exists|i: int| 0 <= i < s.len() && (#[trigger] s[i]).0 == k
}

/// The position of an entry with the key `k`, when there is one.
pub open spec fn key_position(s: Seq<EntryModel>, k: Seq<char>) -> int {
    choose|i: int| 0 <= i < s.len() && (#[trigger] s[i]).0 == k
}

/// The value stored under `k`, if any.
pub open spec fn value_of(s: Seq<EntryModel>, k: Seq<char>) -> Option<Seq<char>> {
    if has_key(s, k) {
        Some(s[key_position(s, k)].1)
    } else {
        None
    }
}

/// No two entries share a key.
pub open spec fn keys_unique(s: Seq<EntryModel>) -> bool {
    forall|i: int, j: int|
        0 <= i < s.len() && 0 <= j < s.len() && (#[trigger] s[i]).0 == (#[trigger] s[j]).0
            ==> i == j
}

/// The entries with the entry for `k` taken out, if there was one.
pub open spec fn without_key(s: Seq<EntryModel>, k: Seq<char>) -> Seq<EntryModel> {
    if has_key(s, k) {
        s.remove(key_position(s, k))
    } else {
        s
    }
}

/// The `n` most recently created entries (all of them when there are no more than `n`).
pub open spec fn newest(s: Seq<EntryModel>, n: int) -> Seq<EntryModel> {
    if s.len() <= n {
        s
    } else {
        s.subrange(s.len() - n, s.len() as int)
    }
}

/// In a store with unique keys, the entry at `i` is the one that `value_of` finds.
pub proof fn lemma_value_at(s: Seq<EntryModel>, i: int)
    requires
        keys_unique(s),
        0 <= i < s.len(),
    ensures
        has_key(s, s[i].0),
        key_position(s, s[i].0) == i,
        value_of(s, s[i].0) == Some(s[i].1),
{
    assert(has_key(s, s[i].0));
    let p = key_position(s, s[i].0);
    assert(s[p].0 == s[i].0);
}

/// Taking one entry out keeps the keys unique, and the removed key is gone.
pub proof fn lemma_remove_unique(s: Seq<EntryModel>, i: int)
    requires
        keys_unique(s),
        0 <= i < s.len(),
    ensures
        keys_unique(s.remove(i)),
        !has_key(s.remove(i), s[i].0),
{
    let r = s.remove(i);
    assert forall|a: int, b: int|
        0 <= a < r.len() && 0 <= b < r.len() && (#[trigger] r[a]).0 == (#[trigger] r[b]).0
        implies a == b by {
        let a2 = if a < i { a } else { a + 1 };
        let b2 = if b < i { b } else { b + 1 };
        assert(r[a] == s[a2]);
        assert(r[b] == s[b2]);
    }
    if has_key(r, s[i].0) {
        let a = choose|a: int| 0 <= a < r.len() && (#[trigger] r[a]).0 == s[i].0;
        let a2 = if a < i { a } else { a + 1 };
        assert(r[a] == s[a2]);
    }
}

/// `without_key` keeps the keys unique and leaves no entry for `k`.
pub proof fn lemma_without_key(s: Seq<EntryModel>, k: Seq<char>)
    requires
        keys_unique(s),
    ensures
        keys_unique(without_key(s, k)),
        !has_key(without_key(s, k), k),
{
    if has_key(s, k) {
        let p = key_position(s, k);
        lemma_remove_unique(s, p);
    }
}

/// A suffix of a sequence with unique keys has unique keys.
pub proof fn lemma_newest_unique(s: Seq<EntryModel>, n: int)
    requires
        keys_unique(s),
        n >= 0,
    ensures
        keys_unique(newest(s, n)),
{
    if s.len() > n {
        let r = newest(s, n);
        let off = s.len() - n;
        assert forall|a: int, b: int|
            0 <= a < r.len() && 0 <= b < r.len() && (#[trigger] r[a]).0 == (#[trigger] r[b]).0
            implies a == b by {
            assert(r[a] == s[a + off]);
            assert(r[b] == s[b + off]);
        }
    }
}

/// Entries kept in creation order, oldest first, with unique keys.
///
/// The position of an entry stands for its creation time: `insert` appends,
/// so an entry created later always sits after one created earlier.
pub struct EntryStore {
    entries: Vec<Entry>,
}

impl View for EntryStore {
    type V = Seq<EntryModel>;

    closed spec fn view(&self) -> Seq<EntryModel> {
        self.entries@.map_values(|e: Entry| e@)
    }
}

impl EntryStore {
    /// The store's invariant: at most one entry per key.
    pub open spec fn wf(&self) -> bool {
        keys_unique(self@)
    }

    /// An empty store.
    pub fn new() -> (r: Self)
        ensures
            r@ == Seq::<EntryModel>::empty(),
            r.wf(),
    {
        let r = EntryStore { entries: Vec::new() };
        assert(r@ =~= Seq::<EntryModel>::empty());
        r
    }

    /// The number of live entries.
    pub fn count(&self) -> (r: usize)
        ensures
            r == self@.len(),
    {
        self.entries.len()
    }

    /// The index of the entry for `key`, if there is one.
    fn position(&self, key: &String) -> (r: Option<usize>)
        requires
            self.wf(),
        ensures
            match r {
                Some(i) => i < self@.len() && self@[i as int].0 == key@ && has_key(self@, key@)
                    && key_position(self@, key@) == i,
                None => !has_key(self@, key@),
            },
    {
        let mut i: usize = 0;
        while i < self.entries.len()
            invariant
                self.wf(),
                i <= self.entries@.len(),
                self@.len() == self.entries@.len(),
                forall|j: int| 0 <= j < i ==> (#[trigger] self@[j]).0 != key@,
            decreases self.entries@.len() - i,
        {
            assert(self@[i as int] == self.entries@[i as int]@);
            if self.entries[i].key == *key {
                proof {
                    lemma_value_at(self@, i as int);
                }
                return Some(i);
            }
            i += 1;
        }
        None
    }

    /// The value stored under `key`, or `None` when no entry has that key.
    pub fn find(&self, key: &str) -> (r: Option<String>)
        requires
            self.wf(),
        ensures
            match r {
                Some(v) => value_of(self@, key@) == Some(v@),
                None => value_of(self@, key@) is None,
            },
    {
        let k = key.to_string();
        match self.position(&k) {
            Some(i) => {
                assert(self@[i as int] == self.entries@[i as int]@);
                Some(self.entries[i].value.clone())
            },
            None => None,
        }
    }

    /// Adds a new entry, the newest of all.
    ///
    /// Like a table whose key column is its primary key, the store refuses an
    /// entry whose key is already present: callers delete first to replace.
    pub fn insert(&mut self, key: String, value: String) -> (r: Result<(), StorageFailure>)
        requires
            old(self).wf(),
        ensures
            final(self).wf(),
            r is Ok <==> !has_key(old(self)@, key@),
            r is Ok ==> final(self)@ == old(self)@.push((key@, value@)),
            r is Err ==> final(self)@ == old(self)@,
    {
        match self.position(&key) {
            Some(_) => Err(StorageFailure),
            None => {
                let ghost before = self@;
                self.entries.push(Entry { key, value });
                assert(self@ =~= before.push((key@, value@)));
                assert forall|a: int, b: int|
                    0 <= a < self@.len() && 0 <= b < self@.len() && (#[trigger] self@[a]).0 == (
                    #[trigger] self@[b]).0 implies a == b by {
                    if a < before.len() && b == before.len() {
                        assert(before[a].0 == key@);
                    }
                    if b < before.len() && a == before.len() {
                        assert(before[b].0 == key@);
                    }
                }
                Ok(())
            },
        }
    }

    /// Removes the entry for `key`; nothing happens when there is none.
    pub fn delete(&mut self, key: &str)
        requires
            old(self).wf(),
        ensures
            final(self).wf(),
            final(self)@ == without_key(old(self)@, key@),
    {
        let k = key.to_string();
        proof {
            lemma_without_key(self@, key@);
        }
        match self.position(&k) {
            Some(i) => {
                let ghost before = self@;
                let _ = self.entries.remove(i);
                assert(self@ =~= before.remove(i as int));
            },
            None => {},
        }
    }

    /// Keeps the `retain_count` most recently created entries and drops the rest.
    pub fn delete_old_entries(&mut self, retain_count: usize)
        requires
            old(self).wf(),
        ensures
            final(self).wf(),
            final(self)@ == newest(old(self)@, retain_count as int),
    {
        proof {
            lemma_newest_unique(self@, retain_count as int);
        }
        let len = self.entries.len();
        if len > retain_count {
            let ghost before = self@;
            let kept = self.entries.split_off(len - retain_count);
            self.entries = kept;
            assert(self@ =~= newest(before, retain_count as int));
        }
    }

    /// Removes every entry.
    pub fn clear(&mut self)
        ensures
            final(self)@ == Seq::<EntryModel>::empty(),
            final(self).wf(),
    {
        self.entries.clear();
        assert(self@ =~= Seq::<EntryModel>::empty());
    }
}

} // verus!
