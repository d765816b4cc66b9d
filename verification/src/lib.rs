//! Bootstraps a local database directory from remote, chunked, compressed
//! snapshot archives, with resumability, integrity verification and bounded
//! concurrency.
//!
//! The crate holds the verified core of the pipeline: the decision logic of
//! the four stages (fetch metadata, download chunks, merge chunks, extract
//! the archive), the fingerprint verifier, the manifest codec and the stage
//! orchestrator. Network and file system access is performed by the caller,
//! which drives the orchestrator state machine and feeds results back in.

pub mod codec_laws;
pub mod download;
pub mod error;
pub mod extract;
pub mod gzip;
pub mod humanize;
pub mod json;
pub mod md5sum;
pub mod metadata;
pub mod merge;
pub mod orchestrator;
pub mod paths;
pub mod sst_verify;
pub mod strnum;
pub mod types;
pub mod verify;

pub use error::SnapshotError;
pub use sst_verify::verify_sst_magic_number;
pub use sst_verify::ROCKSDB_MAGIC_NUMBER;
pub use types::{DownloadConfig, ExecutionStage};
