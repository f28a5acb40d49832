//! Error kinds of the library.
//!
//! Construction-time failures (a malformed manifest pattern, a malformed
//! search pattern) abort the operation that raised them; per-file failures
//! during scanning or traversal are isolated to that file and reported
//! alongside the successful results.

use vstd::prelude::*;

verus! {

/// Everything that can go wrong inside the library or at its edges.
#[derive(Debug, Clone, PartialEq, Eq)]
pub enum TeamSearchError {
    /// The manifest file could not be opened or read. Fatal: there is no
    /// owner data to proceed with. Holds the path that was tried.
    ManifestReadError(String),
    /// A glob or search pattern is not syntactically valid, or a pattern
    /// set could not be compiled. Holds the offending pattern string
    /// (empty when no single pattern can be blamed).
    InvalidPatternError(String),
    /// One directory entry could not be traversed. Holds a description.
    WalkError(String),
    /// One file's contents could not be read during scanning. Holds the
    /// path of that file.
    FileReadError(String),
}

} // verus!
