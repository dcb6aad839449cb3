use vstd::prelude::*;

verus! {

/// What can go wrong in the library's own logic. Failures of the
/// filesystem itself are reported by the caller that performs the I/O.
#[derive(Debug)]
pub enum PathError {
    /// The path has no parent directory or no final component.
    FailedRetrievingFileMetadata(String),
    /// `~` or a `$VARIABLE` in the path could not be expanded.
    FailedExpandingPath(String),
    /// The path cannot be stored as one line of a ledger.
    InvalidLedgerEntry(String),
}

} // verus!
