//! The ways an operation on the registry can fail.

use vstd::prelude::*;

verus! {

/// Why an operation on the registry failed.
#[derive(Debug, Clone, PartialEq, Eq)]
pub enum RegistryError {
    /// No project has the given name.
    NotFound,
    /// The project's directory is missing and it has no source to fetch it from.
    SourceUnavailable,
    /// The project's source is of a kind that cannot be fetched.
    UnsupportedSourceType,
    /// The directory does not lie within the root directory.
    PathOutsideRoot,
    /// Fetching the project failed to authenticate.
    CredentialsError(String),
    /// Reading, writing, cloning or starting a process failed.
    IoError(String),
    /// The home or configuration directory of the user cannot be determined.
    HomeOrConfigDirUnresolvable,
}

} // verus!
