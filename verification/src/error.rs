//! Error taxonomy of the decode-merge-aggregate engine.

use crate::interner::SymbolId;
use vstd::prelude::*;

verus! {

/// Everything that can go wrong while decoding, building, merging or
/// inferring.
///
/// `Format`, `Version`, `Truncated` and `Graph` abort decoding of the whole
/// file they occur in: no partial graph is trusted. `Checksum` and
/// `Underconstrained` are scoped to one function; they are surfaced as
/// warnings while the rest of the file is still aggregated.
#[derive(Clone, Copy, Debug, PartialEq, Eq, Structural)]
pub enum CovError {
    /// The stream's magic token is unrecognized in either byte order, a tag
    /// is unknown for the stream's kind, or a record carries trailing bytes.
    Format,
    /// The format version lies outside the supported range.
    Version,
    /// The stream or a record's payload ends in the middle of a field.
    Truncated,
    /// Malformed notes: a block index out of range, a record out of place,
    /// or an unterminated function.
    Graph,
    /// The checksum in a data file does not match the notes-derived graph
    /// for one function (stale or rebuilt binary).
    Checksum,
    /// Arc inference left some arc without a count, or the measured counts
    /// violate flow conservation: the notes/data pairing is inconsistent.
    Underconstrained,
}

/// A per-function, non-fatal failure collected during merging or inference.
/// The function it names is excluded from aggregated statistics.
#[derive(Clone, Copy, Debug, PartialEq, Eq, Structural)]
pub struct Warning {
    /// Interned name of the affected function.
    pub name: SymbolId,
    /// Either `CovError::Checksum` or `CovError::Underconstrained`.
    pub kind: CovError,
}

} // verus!
