//! The failures that the library reports.

use vstd::prelude::*;

verus! {

/// What can go wrong in a terminal session.
#[derive(Debug, Clone, Copy, PartialEq, Eq)]
pub enum Error {
    /// A read, write or other system call failed.
    IoFailure,
    /// The pseudo-terminal could not be opened or the child not spawned.
    SpawnFailure,
    /// The working directory of the child could not be resolved.
    NotFound,
    /// The stream holds a sequence that cannot be rendered again without loss.
    Unsupported(&'static str),
}

/// The error raised for a 24-bit colour selection.
pub open spec fn truecolor() -> Error {
    Error::Unsupported("truecolor")
}

} // verus!
