use vstd::prelude::*;

use crate::error::{AddError, StorageFailure};
use crate::gateway::{payload_fits, payload_fits_spec, needs_eviction, RETAIN_COUNT};

verus! {

/// What a write through a durable store must do next.
///
/// A durable store lives outside the process, so each of its operations can
/// fail on its own. The functions below take the outcome of one operation and
/// decide the next one; the caller runs it and hands the outcome back.
#[derive(Debug, Clone, Copy, PartialEq, Eq)]
pub enum AddAction {
    /// Ask the store how many entries it holds.
    CountEntries,
    /// Keep only this many of the newest entries.
    EvictTo(usize),
    /// Delete the entry for the key being written.
    DeleteExisting,
    /// Insert the new entry.
    InsertEntry,
    /// The write is over, with this outcome.
    Finish(Result<(), AddError>),
}

/// The first step of a write of `value` under `key`.
pub fn start_add(key: &str, value: &str) -> (r: AddAction)
    ensures
        r == (if payload_fits_spec(key@, value@) {
            AddAction::CountEntries
        } else {
            AddAction::Finish(Err(AddError::PayloadTooLarge))
        }),
{
    if payload_fits(key, value) {
        AddAction::CountEntries
    } else {
        AddAction::Finish(Err(AddError::PayloadTooLarge))
    }
}

/// The step after the store was asked for its size.
pub fn after_count(count: Result<usize, StorageFailure>) -> (r: AddAction)
    ensures
        r == (match count {
            Err(_) => AddAction::Finish(Err(AddError::WriteFailure)),
            Ok(c) => if c >= crate::gateway::EVICTION_THRESHOLD {
                AddAction::EvictTo(RETAIN_COUNT)
            } else {
                AddAction::DeleteExisting
            },
        }),
{
    match count {
        Err(_) => AddAction::Finish(Err(AddError::WriteFailure)),
        Ok(c) => if needs_eviction(c) {
            AddAction::EvictTo(RETAIN_COUNT)
        } else {
            AddAction::DeleteExisting
        },
    }
}

/// The step after the oldest entries were evicted.
pub fn after_evict(outcome: Result<(), StorageFailure>) -> (r: AddAction)
    ensures
        r == (match outcome {
            Err(_) => AddAction::Finish(Err(AddError::WriteFailure)),
            Ok(_) => AddAction::DeleteExisting,
        }),
{
    match outcome {
        Err(_) => AddAction::Finish(Err(AddError::WriteFailure)),
        Ok(_) => AddAction::DeleteExisting,
    }
}

/// The step after the old entry for the key was deleted.
pub fn after_delete(outcome: Result<(), StorageFailure>) -> (r: AddAction)
    ensures
        r == (match outcome {
            Err(_) => AddAction::Finish(Err(AddError::WriteFailure)),
            Ok(_) => AddAction::InsertEntry,
        }),
{
    match outcome {
        Err(_) => AddAction::Finish(Err(AddError::WriteFailure)),
        Ok(_) => AddAction::InsertEntry,
    }
}

/// The step after the new entry was inserted: the write is over.
pub fn after_insert(outcome: Result<(), StorageFailure>) -> (r: AddAction)
    ensures
        r == (match outcome {
            Err(_) => AddAction::Finish(Err(AddError::WriteFailure)),
            Ok(_) => AddAction::Finish(Ok(())),
        }),
{
    match outcome {
        Err(_) => AddAction::Finish(Err(AddError::WriteFailure)),
        Ok(_) => AddAction::Finish(Ok(())),
    }
}

/// What a read answers when the store's lookup ended with `found`.
///
/// A failed lookup reads as a missing key.
pub fn read_outcome(found: Result<Option<String>, StorageFailure>) -> (r: Option<String>)
    ensures
        r == (match found {
            Ok(v) => v,
            Err(_) => None,
        }),
{
    match found {
        Ok(v) => v,
        Err(_) => None,
    }
}

} // verus!
