//! The failures that the launcher reports to its caller.
use vstd::prelude::*;

verus! {

/// Every failure of the launcher, each with a message the user can act on.
///
/// Failures that come from the disk, the network or a serializer arrive here
/// as the text that their source gave.
#[derive(Clone, Debug, PartialEq, Eq)]
pub enum LauncherError {
    AuthError(String),
    NetworkError(String),
    IoError(String),
    SerializationError(String),
    /// The game process could not be started.
    GameError(String),
    /// The version directory does not exist.
    VersionNotFound(String),
    /// Neither the bundled runtime nor a system-wide one was found.
    JavaNotFound,
    InsufficientMemory,
    UpdateError(String),
    SkinError(String),
    SessionExpired,
    /// An installation stage failed.
    InstallError(String),
    /// An installation of this version is already in flight.
    InstallConflict(String),
    Unknown(String),
}

} // verus!
