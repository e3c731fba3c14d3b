//! Error taxonomy of the library.

use vstd::prelude::*;

verus! {

/// Why an operation could not produce a result.
///
/// `NotFound`: a pipeline name is unknown, or no log entry exists.
/// `IoError`: persisted data could not be used (an unreadable date).
/// `ConfigError`: pipeline definitions are absent or malformed.
/// `ExecutionFailure`: a pipeline step returned non-success.
#[derive(Clone, Copy, Debug, PartialEq, Eq, Structural)]
pub enum PipelightError {
    NotFound,
    IoError,
    ConfigError,
    ExecutionFailure,
}

} // verus!
