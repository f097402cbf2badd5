//! What can go wrong while one extension is brought to its desired state.

use vstd::prelude::*;

verus! {

/// The classes of failure that the agent tells apart.
#[derive(Debug, Clone, Copy, PartialEq, Eq, Structural)]
pub enum ErrorKind {
    /// The desired state could not be read or understood.
    Config,
    /// A package could not be downloaded.
    Fetch,
    /// An archive is corrupt or holds an entry that leaves its target.
    Extract,
    /// A lifecycle script could not be started or ended with a failure.
    Script,
    /// A file or directory could not be read, written or removed.
    Filesystem,
    /// A tool that the agent needs is not installed.
    Dependency,
    /// The caller answered an effect with an event of another kind.
    Protocol,
}

/// A failure that ends the work on one extension for this pass.
#[derive(Debug, Clone, Copy, PartialEq, Eq, Structural)]
pub enum ExtensionError {
    /// There is no fingerprint for the extension to go by.
    Canonicalization,
    /// The version marker is there but could not be read.
    MarkerUnreadable,
    /// The package endpoint gave no response.
    FetchFailed,
    /// The package endpoint answered with a status outside 200..=299.
    FetchRejected(u16),
    /// The downloaded archive could not be written into the cache.
    CacheWriteFailed,
    /// The cached archive could not be read.
    ArchiveUnreadable,
    /// The archive could not be opened or one of its entries not be read.
    ArchiveCorrupt,
    /// The entry at this index would be written outside the target.
    UnsafeEntryPath(usize),
    /// The entries could not be written below the target.
    UnpackFailed,
    /// The script shell could not be started.
    ScriptNotStarted,
    /// The script ended with this exit code, which is not 0.
    ScriptFailed(i32),
    /// The record of the script's run could not be written.
    RunLogWriteFailed,
    /// The marker of the script's run could not be written.
    RanMarkerWriteFailed,
    /// The version marker could not be written.
    VersionMarkerWriteFailed,
    /// The extension's directory could not be removed.
    RemoveFailed,
    /// The effect was answered with an event of another kind.
    UnexpectedEvent,
}

impl ExtensionError {
    /// The class that the failure belongs to.
    pub open spec fn spec_kind(self) -> ErrorKind {
        match self {
            ExtensionError::Canonicalization => ErrorKind::Config,
            ExtensionError::FetchFailed => ErrorKind::Fetch,
            ExtensionError::FetchRejected(_) => ErrorKind::Fetch,
            ExtensionError::ArchiveCorrupt => ErrorKind::Extract,
            ExtensionError::UnsafeEntryPath(_) => ErrorKind::Extract,
            ExtensionError::ScriptNotStarted => ErrorKind::Script,
            ExtensionError::ScriptFailed(_) => ErrorKind::Script,
            ExtensionError::MarkerUnreadable => ErrorKind::Filesystem,
            ExtensionError::CacheWriteFailed => ErrorKind::Filesystem,
            ExtensionError::ArchiveUnreadable => ErrorKind::Filesystem,
            ExtensionError::UnpackFailed => ErrorKind::Filesystem,
            ExtensionError::RunLogWriteFailed => ErrorKind::Filesystem,
            ExtensionError::RanMarkerWriteFailed => ErrorKind::Filesystem,
            ExtensionError::VersionMarkerWriteFailed => ErrorKind::Filesystem,
            ExtensionError::RemoveFailed => ErrorKind::Filesystem,
            ExtensionError::UnexpectedEvent => ErrorKind::Protocol,
        }
    }

    /// The class that the failure belongs to.
    #[verifier::when_used_as_spec(spec_kind)]
    pub fn kind(self) -> (k: ErrorKind)
        ensures
            k == self.spec_kind(),
    {
        match self {
            ExtensionError::Canonicalization => ErrorKind::Config,
            ExtensionError::FetchFailed => ErrorKind::Fetch,
            ExtensionError::FetchRejected(_) => ErrorKind::Fetch,
            ExtensionError::ArchiveCorrupt => ErrorKind::Extract,
            ExtensionError::UnsafeEntryPath(_) => ErrorKind::Extract,
            ExtensionError::ScriptNotStarted => ErrorKind::Script,
            ExtensionError::ScriptFailed(_) => ErrorKind::Script,
            ExtensionError::MarkerUnreadable => ErrorKind::Filesystem,
            ExtensionError::CacheWriteFailed => ErrorKind::Filesystem,
            ExtensionError::ArchiveUnreadable => ErrorKind::Filesystem,
            ExtensionError::UnpackFailed => ErrorKind::Filesystem,
            ExtensionError::RunLogWriteFailed => ErrorKind::Filesystem,
            ExtensionError::RanMarkerWriteFailed => ErrorKind::Filesystem,
            ExtensionError::VersionMarkerWriteFailed => ErrorKind::Filesystem,
            ExtensionError::RemoveFailed => ErrorKind::Filesystem,
            ExtensionError::UnexpectedEvent => ErrorKind::Protocol,
        }
    }
}

} // verus!
