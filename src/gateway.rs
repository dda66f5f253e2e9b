use vstd::prelude::*;

use crate::error::AddError;
use crate::store::{
    lemma_newest_unique, lemma_without_key, newest, value_of, without_key, EntryModel,
    EntryStore,
};

verus! {

/// Keys of this many bytes or more are refused.
pub const KEY_LIMIT: usize = 1000;

/// Values of this many bytes or more are refused.
pub const VALUE_LIMIT: usize = 4000;

/// Once the store holds this many entries, a write first evicts the oldest ones.
pub const EVICTION_THRESHOLD: usize = 1000;

/// How many of the newest entries an eviction keeps.
pub const RETAIN_COUNT: usize = 100;

/// The length in bytes of the UTF-8 encoding of `s`, as `str::len` reports it.
pub open spec fn byte_len(s: Seq<char>) -> usize {
    vstd::utf8::encode_utf8(s).len() as usize
}

/// A key and a value that the gateway accepts.
pub open spec fn payload_fits_spec(k: Seq<char>, v: Seq<char>) -> bool {
    byte_len(k) < KEY_LIMIT && byte_len(v) < VALUE_LIMIT
}

/// A store of `count` entries must be trimmed before the next write.
pub open spec fn needs_eviction_spec(count: int) -> bool {
    count >= EVICTION_THRESHOLD
}

/// The entries after the retention check that precedes every write.
pub open spec fn retained(s: Seq<EntryModel>) -> Seq<EntryModel> {
    if needs_eviction_spec(s.len() as int) {
        newest(s, RETAIN_COUNT as int)
    } else {
        s
    }
}

/// The entries after an accepted write of `v` under `k`.
pub open spec fn after_add(s: Seq<EntryModel>, k: Seq<char>, v: Seq<char>) -> Seq<EntryModel> {
    without_key(retained(s), k).push((k, v))
}

/// Whether the gateway accepts `key` and `value` by their sizes.
pub fn payload_fits(key: &str, value: &str) -> (r: bool)
    ensures
        r == payload_fits_spec(key@, value@),
{
    key.len() < KEY_LIMIT && value.len() < VALUE_LIMIT
}

/// Whether a store of `count` entries must be trimmed before the next write.
pub fn needs_eviction(count: usize) -> (r: bool)
    ensures
        r == needs_eviction_spec(count as int),
{
    count >= EVICTION_THRESHOLD
}

/// The gateway: validates writes, runs retention, and replaces entries by key.
pub struct Model {
    data: EntryStore,
}

impl View for Model {
    type V = Seq<EntryModel>;

    closed spec fn view(&self) -> Seq<EntryModel> {
        self.data@
    }
}

impl Model {
    /// The gateway's invariant: the store underneath keeps one entry per key.
    pub open spec fn wf(&self) -> bool {
        crate::store::keys_unique(self@)
    }

    /// A gateway in front of `data`.
    pub fn new(data: EntryStore) -> (r: Self)
        requires
            data.wf(),
        ensures
            r@ == data@,
            r.wf(),
    {
        Model { data }
    }

    /// The value last written under `key`, or `None` when there is none.
    pub fn get(&self, key: &str) -> (r: Option<String>)
        requires
            self.wf(),
        ensures
            match r {
                Some(v) => value_of(self@, key@) == Some(v@),
                None => value_of(self@, key@) is None,
            },
    {
        self.data.find(key)
    }

    /// Writes `value` under `key`, replacing what was there.
    ///
    /// A key or value that is too long is refused and nothing changes.
    /// Otherwise the oldest entries are evicted first when the store has
    /// reached the threshold, then the old entry for `key` is dropped and the
    /// new one becomes the newest.
    pub fn add(&mut self, key: String, value: String) -> (r: Result<(), AddError>)
        requires
            old(self).wf(),
        ensures
            final(self).wf(),
            r is Ok <==> payload_fits_spec(key@, value@),
            r is Err ==> r == Err::<(), AddError>(AddError::PayloadTooLarge) && final(self)@
                == old(self)@,
            r is Ok ==> final(self)@ == after_add(old(self)@, key@, value@),
    {
        if !payload_fits(key.as_str(), value.as_str()) {
            return Err(AddError::PayloadTooLarge);
        }
        self.delete_old_entries();
        self.data.delete(key.as_str());
        proof {
            lemma_newest_unique(old(self)@, RETAIN_COUNT as int);
            lemma_without_key(retained(old(self)@), key@);
        }
        match self.data.insert(key, value) {
            Ok(()) => Ok(()),
            Err(_) => Err(AddError::WriteFailure),
        }
    }

    /// Evicts all but the newest entries once the store has reached the threshold.
    pub fn delete_old_entries(&mut self)
        requires
            old(self).wf(),
        ensures
            final(self).wf(),
            final(self)@ == retained(old(self)@),
    {
        let count = self.data.count();
        if !needs_eviction(count) {
            return ;
        }
        self.data.delete_old_entries(RETAIN_COUNT);
    }
}

} // verus!
