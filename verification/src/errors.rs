use vstd::prelude::*;

verus! {

/// Why a copy operation failed.
#[derive(Clone, Copy, PartialEq, Eq, Structural, Debug)]
pub enum CopyErrorKind {
    /// Listing databases or collections failed.
    Catalog,
    /// The source cursor failed to open or to read mid-stream.
    Cursor,
    /// A bulk insert into the destination failed.
    Insert,
    /// A malformed limit or a missing catalog entry.
    Configuration,
}

/// A failed copy, paired with the number of documents already durably
/// written to the destination before the failure (fully flushed batches
/// only), so a caller can report partial progress.
#[derive(Clone, Copy, PartialEq, Eq, Structural, Debug)]
pub struct CopyFailure {
    pub kind: CopyErrorKind,
    pub documents_copied: u64,
}

impl CopyFailure {
    pub fn new(kind: CopyErrorKind, documents_copied: u64) -> (r: Self)
        ensures
            r.kind == kind,
            r.documents_copied == documents_copied,
    {
        CopyFailure { kind, documents_copied }
    }
}

} // verus!
