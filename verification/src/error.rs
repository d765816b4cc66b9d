//! The tagged error type surfaced at the public boundary.

use vstd::prelude::*;

verus! {

/// Errors that can occur during snapshot operations.
///
/// Each variant carries a human-readable message. The variants distinguish
/// the failure kinds that callers react to differently: a missing remote
/// snapshot, a malformed manifest, a network failure, a filesystem failure,
/// a size or digest mismatch, a unit of work that failed to complete, and a
/// generic download failure.
#[derive(Debug, Clone)]
pub enum SnapshotError {
    /// The remote responded 404 for a manifest.
    NotFound(String),
    /// A manifest or archive entry did not parse against the expected shape.
    InvalidFormat(String),
    /// A network or HTTP failure.
    Transport(String),
    /// A filesystem failure.
    Io(String),
    /// A size or digest mismatch on downloaded or restored bytes.
    Integrity(String),
    /// A spawned unit of work failed to complete.
    TaskFailed(String),
    /// A download failure that none of the kinds above covers.
    DownloadFailed(String),
}

impl SnapshotError {
    /// The message carried by the error, whatever its kind.
    pub fn message(&self) -> (r: &String)
        ensures
            r@ == (match self {
                SnapshotError::NotFound(m) => m@,
                SnapshotError::InvalidFormat(m) => m@,
                SnapshotError::Transport(m) => m@,
                SnapshotError::Io(m) => m@,
                SnapshotError::Integrity(m) => m@,
                SnapshotError::TaskFailed(m) => m@,
                SnapshotError::DownloadFailed(m) => m@,
            }),
    {
        match self {
            SnapshotError::NotFound(m) => m,
            SnapshotError::InvalidFormat(m) => m,
            SnapshotError::Transport(m) => m,
            SnapshotError::Io(m) => m,
            SnapshotError::Integrity(m) => m,
            SnapshotError::TaskFailed(m) => m,
            SnapshotError::DownloadFailed(m) => m,
        }
    }
}

} // verus!
