//! Why a ledger operation failed.

use vstd::prelude::*;

verus! {

/// A failure of the store. An operation that fails leaves the ledger as it
/// was.
#[derive(Clone, Copy, Debug, PartialEq, Eq, Structural)]
pub enum StorageFailure {
    /// The identifier of a new entry is already that of an entry.
    DuplicateId,
    /// The clock shows a time that no entry can record.
    ClockOutOfRange,
    /// A total of durations does not fit the store's integers.
    TotalOverflow,
}

impl StorageFailure {
    /// The failure in words.
    pub fn message(&self) -> (r: &'static str)
        ensures
            r@ == match *self {
                StorageFailure::DuplicateId => "an entry with this identifier already exists"@,
                StorageFailure::ClockOutOfRange => "the clock is outside the supported years"@,
                StorageFailure::TotalOverflow => "the total of durations is too large"@,
            },
    {
        match self {
            StorageFailure::DuplicateId => "an entry with this identifier already exists",
            StorageFailure::ClockOutOfRange => "the clock is outside the supported years",
            StorageFailure::TotalOverflow => "the total of durations is too large",
        }
    }
}

} // verus!
