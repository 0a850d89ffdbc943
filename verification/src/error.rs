//! The ways in which the setup fails.

use vstd::prelude::*;

verus! {

/// Why a step of the setup failed.
#[derive(Clone, Copy, Debug, PartialEq, Eq, Structural)]
pub enum SetupError {
    /// A file or directory could not be read or written.
    IoError,
    /// The registry holds no record of the name or identifier asked for.
    NotFound,
    /// The environment file names an identifier that the registry does not hold.
    InconsistentState,
    /// The deployment client reported a failure.
    NetworkError,
    /// The driver answered an action with an event of another kind.
    UnexpectedEvent,
}

} // verus!
