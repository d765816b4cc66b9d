//! Data structures for snapshot operations.

use vstd::prelude::*;

verus! {

/// Metadata for a snapshot, describing its location and chunks.
///
/// Immutable once fetched; one instance per shard. The order of `chunks` is
/// significant: it is the order in which the archive was split, and the
/// merge stage concatenates the decompressed chunks in exactly this order.
#[derive(Debug, Clone)]
pub struct SnapshotMetadata {
    /// Base path for the snapshot in remote object storage.
    pub key_base: String,
    /// Ordered list of chunk object names.
    pub chunks: Vec<String>,
    /// Unix timestamp when the snapshot was created (informational only).
    pub timestamp: i64,
}

impl SnapshotMetadata {
    /// The invariant of a usable manifest: the chunk list is non-empty.
    pub open spec fn wf(&self) -> bool {
        self.chunks@.len() > 0
    }
}

/// Configuration for downloading snapshots. Immutable for the duration of a
/// run; supplied by the caller.
#[derive(Debug, Clone)]
pub struct DownloadConfig {
    /// Base URL for snapshot downloads.
    pub snapshot_download_url: String,
    /// Working directory for downloads.
    pub snapshot_download_dir: String,
    /// Logical network / namespace name.
    pub network: String,
    /// Maximum number of concurrent downloads.
    pub max_concurrent_downloads: usize,
    /// Skip all verification and trust existing files completely.
    pub skip_verify: bool,
}

impl DownloadConfig {
    /// The invariant the pipeline needs: at least one download may run.
    pub open spec fn wf(&self) -> bool {
        self.max_concurrent_downloads >= 1
    }
}

impl Default for DownloadConfig {
    /// The stock configuration: the public snapshot bucket, a hidden working
    /// directory, the main network, four workers, and full verification.
    fn default() -> (c: DownloadConfig)
        ensures
            c.snapshot_download_url@ ==
                "https://pub-d352dd8819104a778e20d08888c5a661.r2.dev"@,
            c.snapshot_download_dir@ == ".rocks.snapshot"@,
            c.network@ == "FARCASTER_NETWORK_MAINNET"@,
            c.max_concurrent_downloads == 4usize,
            c.skip_verify == false,
            c.wf(),
    {
        DownloadConfig {
            snapshot_download_url: String::from_str(
                "https://pub-d352dd8819104a778e20d08888c5a661.r2.dev",
            ),
            snapshot_download_dir: String::from_str(".rocks.snapshot"),
            network: String::from_str("FARCASTER_NETWORK_MAINNET"),
            max_concurrent_downloads: 4,
            skip_verify: false,
        }
    }
}

/// Stage control for the snapshot download process.
///
/// Determines which of the pipeline phases run for a given invocation;
/// `MergeOnly` and `ExtractOnly` assume the artifacts of the preceding phase
/// already exist on disk, enabling a crash-recovered or staged restart.
#[derive(Debug, Clone, Copy, PartialEq, Eq, Structural)]
pub enum ExecutionStage {
    /// Execute all stages.
    All,
    /// Only download chunks.
    DownloadOnly,
    /// Only merge chunks into one archive.
    MergeOnly,
    /// Only extract the archive to the target directory.
    ExtractOnly,
}

} // verus!
