//! Failure kinds of an installation run.

use vstd::prelude::*;

verus! {

/// Why an installation step failed.
#[derive(Clone, Copy, Debug, PartialEq, Eq, Structural)]
pub enum InstallError {
    /// The manifest endpoint refused the version (HTTP 403): permanent.
    InvalidVersion,
    /// The manifest was fetched but lists no `.zip` archive.
    EmptyManifest,
    /// A transport failure or an unexpected HTTP status: may be retried.
    NetworkError,
    /// A downloaded archive is not a well-formed zip container.
    ArchiveFormatError,
    /// A directory could not be created or a file could not be written.
    FilesystemError,
}

} // verus!
