//! The kinds of failure that end a run.

use vstd::prelude::*;

verus! {

/// What went wrong, by kind. None of them is recovered from: each ends the
/// run.
#[derive(Clone, Copy, PartialEq, Eq, Debug, Structural)]
pub enum ErrorKind {
    /// A backend configuration that is unsupported or not implemented yet.
    Config,
    /// The index could not be fetched.
    Network,
    /// A document or a version string is malformed.
    Parse,
    /// The index lacks the package, or offers no release of it.
    NotFound,
    /// The version record could not be read or written.
    Io,
    /// The change could not be staged or committed.
    Commit,
}

} // verus!
