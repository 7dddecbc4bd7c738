//! The error taxonomy of a run.

use vstd::prelude::*;

verus! {

/// Every way a run can fail. Each variant is produced at exactly one
/// stage of the pipeline; the unverified front end maps a variant to the
/// human-readable message naming the failing path or cause.
#[derive(Debug, Clone, Copy, PartialEq, Eq, Structural)]
pub enum RunError {
    /// The user configuration file exists but could not be read.
    ConfigFileUnreadable,
    /// The user configuration file was read but is not a valid document.
    ConfigFileMalformed,
    /// An explicit profile path does not resolve, or auto-discovery
    /// through the profile index file failed.
    ProfileNotFound,
    /// The resolved list of mailbox files is empty.
    NoInputFiles,
    /// A mailbox file could not be read during extraction.
    UnreadableFile,
}

} // verus!
