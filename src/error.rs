use vstd::prelude::*;

verus! {

/// The backing medium could not complete an operation.
#[derive(Debug, Clone, Copy, PartialEq, Eq, Structural)]
pub struct StorageFailure;

/// Why a write through the gateway was refused.
#[derive(Debug, Clone, Copy, PartialEq, Eq, Structural)]
pub enum AddError {
    /// The key or the value is longer than the gateway accepts.
    PayloadTooLarge,
    /// The store failed while the write was under way.
    WriteFailure,
}

/// Turns any error of the backing medium into a `StorageFailure`.
pub fn handle_err<E>(err: E) -> (r: StorageFailure)
    ensures
        r == StorageFailure,
{
    let _ = err;
    StorageFailure
}

} // verus!
