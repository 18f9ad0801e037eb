//! Merges same-schema CSV files, one per named folder, into a single
//! output: the first available header is kept once, and every body line
//! is prefixed with the name of the folder it came from.

use vstd::prelude::*;

pub mod aggregate;
pub mod config;
pub mod laws;
pub mod text;

verus! {

/// Run-wide policy for a folder whose input file does not exist.
#[derive(Debug, Copy, Clone, PartialEq, Eq, Structural)]
pub enum ErrorMode {
    /// Abort the whole run on a missing input file.
    Panic,
    /// Silently skip folders whose input file is missing.
    Skip,
}

} // verus!
