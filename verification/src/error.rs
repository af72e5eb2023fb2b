use vstd::prelude::*;

verus! {

/// Failure taxonomy for archive parsing and entry classification.
#[derive(Debug, Clone, Copy, PartialEq, Eq, Structural)]
pub enum ZipError {
    /// A trailer or record signature did not match, or a declared length is
    /// inconsistent with the stream bounds.
    MalformedArchive,
    /// The stream ended before a declared field was fully read.
    TruncatedArchive,
    /// The entry is not a legacy-stream-cipher candidate. Exclusion is a
    /// normal outcome, not a fault of the archive.
    UnsupportedEntry,
    /// An extra-field sub-record walk ran past its declared bounds.
    MalformedExtraField,
}

} // verus!
