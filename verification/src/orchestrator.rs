//! The stage orchestrator: sequences metadata resolution, download, merge
//! and extraction per shard, as a state machine.
//!
//! The caller owns every effect — network, file system, concurrency — and
//! drives the machine in a loop: ask [`Orchestrator::next_action`] what to
//! do, perform it, and hand the outcome back through
//! [`Orchestrator::on_event`]. Shards are processed strictly one after the
//! other, in the order the caller supplied; a fatal outcome stops the run
//! before the next shard or stage, and on full success of an `All` run the
//! working directory is removed, leaving the target directory as the only
//! surviving artifact.

use crate::download::{chunk_paths_in_order, chunk_urls_in_order};
use crate::error::SnapshotError;
use crate::extract::ExtractStats;
use crate::metadata::{
    interpret_metadata_response, map_covers, map_entries_wf, parse_metadata_map, render_map_view,
    render_metadata_map, sp_map_get, sp_map_has_key, MetadataMap,
};
use crate::paths::{
    chunk_local_path_spec, chunk_remote_url_spec, metadata_file_path, metadata_file_path_spec,
    metadata_url, metadata_url_spec, shard_dir, shard_dir_spec, tar_path, tar_path_spec,
};
use crate::strnum::dec_digits;
use crate::types::{DownloadConfig, ExecutionStage};
use vstd::prelude::*;

verus! {

/// Where the orchestrator stands in one invocation.
#[derive(Debug, Clone, Copy, PartialEq, Eq, Structural)]
pub enum Phase {
    /// The working directory must be created first.
    Init,
    /// A staged restart: try to load the persisted metadata file.
    LoadMeta,
    /// Resolving manifests, next for the shard at this index.
    Fetch {
        /// Index into the caller's shard list.
        next: usize,
    },
    /// All manifests are known and must be persisted.
    Persist,
    /// The shard at this index needs its working subdirectory.
    ShardInit {
        /// Index into the caller's shard list.
        idx: usize,
    },
    /// The shard at this index is downloading chunks.
    ShardDownload {
        /// Index into the caller's shard list.
        idx: usize,
    },
    /// The shard at this index is merging chunks into its archive.
    ShardMerge {
        /// Index into the caller's shard list.
        idx: usize,
    },
    /// The shard at this index is being extracted.
    ShardExtract {
        /// Index into the caller's shard list.
        idx: usize,
    },
    /// Every shard succeeded in a full run: remove the working directory.
    Cleanup,
    /// The invocation succeeded.
    Done,
    /// A fatal error stopped the invocation.
    Failed,
}

/// What the caller must do next.
pub enum OrchestratorAction {
    /// Create the working directory (and any missing parents).
    EnsureWorkdir {
        /// The working directory.
        path: String,
    },
    /// Read the persisted metadata file; reply with its content, or with
    /// nothing when it cannot be read.
    LoadMetadataFile {
        /// The metadata file path.
        path: String,
    },
    /// Fetch the manifest for one shard; reply with the HTTP status and
    /// body, or with a transport failure.
    FetchManifest {
        /// The manifest URL.
        url: String,
        /// The shard the manifest belongs to.
        shard_id: u32,
    },
    /// Write the rendered metadata map to the metadata file.
    PersistMetadata {
        /// The metadata file path.
        path: String,
        /// The file content to write.
        content: String,
    },
    /// Create one shard's working subdirectory.
    EnsureShardDir {
        /// The shard subdirectory.
        path: String,
        /// The shard it belongs to.
        shard_id: u32,
    },
    /// Download every chunk that fails the fingerprint verifier, bounded
    /// by the configured concurrency, retrying per chunk; the lists are
    /// in manifest order and index-aligned.
    DownloadChunks {
        /// Local chunk paths, in manifest order.
        filenames: Vec<String>,
        /// Remote chunk URLs, in manifest order.
        urls: Vec<String>,
        /// Trust existing files outright.
        skip_verify: bool,
        /// The shard being downloaded.
        shard_id: u32,
    },
    /// Decompress the chunks in order and concatenate them into the
    /// shard's archive.
    MergeChunks {
        /// Local chunk paths, in manifest order.
        chunk_paths: Vec<String>,
        /// The archive to produce.
        tar_path: String,
        /// The shard being merged.
        shard_id: u32,
    },
    /// Unpack the shard's archive into the target directory.
    ExtractArchive {
        /// The archive to read.
        tar_path: String,
        /// The target directory.
        target_dir: String,
        /// The shard being extracted.
        shard_id: u32,
    },
    /// Remove the whole working directory.
    RemoveWorkdir {
        /// The working directory.
        path: String,
    },
    /// Nothing is left to do.
    Finish,
}

/// What came of the last action.
pub enum OrchestratorEvent {
    /// The working directory exists.
    WorkdirReady,
    /// The working directory could not be created.
    WorkdirFailed {
        /// The underlying failure, rendered.
        message: String,
    },
    /// The metadata file was read (or found unreadable).
    MetadataFileRead {
        /// The file content, when readable.
        content: Option<String>,
    },
    /// The manifest request got an HTTP answer.
    ManifestFetched {
        /// The HTTP status code.
        status: u16,
        /// The response body.
        body: String,
    },
    /// The manifest request failed below HTTP.
    ManifestUnreachable {
        /// The underlying failure, rendered.
        message: String,
    },
    /// The metadata file was written.
    MetadataPersisted,
    /// The metadata file could not be written.
    PersistFailed {
        /// The underlying failure, rendered.
        message: String,
    },
    /// The shard subdirectory exists.
    ShardDirReady,
    /// The shard subdirectory could not be created.
    ShardDirFailed {
        /// The underlying failure, rendered.
        message: String,
    },
    /// Every chunk of the shard is on disk and verified.
    ChunksDownloaded,
    /// A chunk failed after the whole retry budget.
    DownloadFailed {
        /// The first error surfaced.
        error: SnapshotError,
    },
    /// The shard's archive was produced.
    MergeCompleted,
    /// Merging failed.
    MergeFailed {
        /// The error surfaced.
        error: SnapshotError,
    },
    /// The shard was extracted.
    ExtractCompleted {
        /// The extraction counters, for observability only.
        stats: ExtractStats,
    },
    /// Extraction failed.
    ExtractFailed {
        /// The error surfaced.
        error: SnapshotError,
    },
    /// The working directory is gone.
    WorkdirRemoved,
    /// The working directory could not be removed.
    CleanupFailed {
        /// The underlying failure, rendered.
        message: String,
    },
}

/// Which stages of the pipeline a given stage selection runs.
pub open spec fn stage_downloads(stage: ExecutionStage) -> bool {
    stage == ExecutionStage::All || stage == ExecutionStage::DownloadOnly
}

/// Whether the merge stage runs.
pub open spec fn stage_merges(stage: ExecutionStage) -> bool {
    stage == ExecutionStage::All || stage == ExecutionStage::MergeOnly
}

/// Whether the extract stage runs.
pub open spec fn stage_extracts(stage: ExecutionStage) -> bool {
    stage == ExecutionStage::All || stage == ExecutionStage::ExtractOnly
}

/// Whether the stage starts from persisted metadata.
pub open spec fn stage_loads_metadata(stage: ExecutionStage) -> bool {
    stage == ExecutionStage::MergeOnly || stage == ExecutionStage::ExtractOnly
}

/// The phase that begins manifest resolution: straight to persisting an
/// empty map when no shards were asked for.
pub open spec fn sp_begin_fetch(len: int) -> Phase {
    if len > 0 {
        Phase::Fetch { next: 0 }
    } else {
        Phase::Persist
    }
}

/// The phase after finishing the shard before `idx`: the next shard, or
/// the end of the run (with cleanup only for a full run).
pub open spec fn sp_advance_shard(stage: ExecutionStage, idx: int, len: int) -> Phase {
    if idx < len {
        Phase::ShardInit { idx: idx as usize }
    } else if stage == ExecutionStage::All {
        Phase::Cleanup
    } else {
        Phase::Done
    }
}

/// The first in-shard phase once the shard directory exists: download
/// when the stage downloads, else straight to the stage's own work.
pub open spec fn sp_after_shard_dir(stage: ExecutionStage, idx: int) -> Phase {
    if stage_downloads(stage) {
        Phase::ShardDownload { idx: idx as usize }
    } else if stage == ExecutionStage::MergeOnly {
        Phase::ShardMerge { idx: idx as usize }
    } else {
        Phase::ShardExtract { idx: idx as usize }
    }
}

/// The phase after a shard's download: a `DownloadOnly` run leaves the
/// chunk files in place and moves to the next shard; a full run merges.
pub open spec fn sp_after_download(stage: ExecutionStage, idx: int, len: int) -> Phase {
    if stage_merges(stage) {
        Phase::ShardMerge { idx: idx as usize }
    } else {
        sp_advance_shard(stage, idx + 1, len)
    }
}

/// The phase after a shard's merge: a `MergeOnly` run moves to the next
/// shard; a full run extracts.
pub open spec fn sp_after_merge(stage: ExecutionStage, idx: int, len: int) -> Phase {
    if stage_extracts(stage) {
        Phase::ShardExtract { idx: idx as usize }
    } else {
        sp_advance_shard(stage, idx + 1, len)
    }
}

/// Under `DownloadOnly` no merge, extract or cleanup phase is ever
/// entered, and under `MergeOnly`/`ExtractOnly` no download phase: each
/// stage selection runs exactly its own pipeline phases.
pub proof fn lemma_stage_gating(stage: ExecutionStage, idx: int, len: int)
    requires
        0 <= idx <= len,
    ensures
        stage == ExecutionStage::DownloadOnly ==> !(sp_after_shard_dir(stage, idx)
            is ShardMerge) && !(sp_after_shard_dir(stage, idx) is ShardExtract) && !(
        sp_after_download(stage, idx, len) is ShardMerge) && !(sp_advance_shard(
            stage,
            idx,
            len,
        ) is Cleanup),
        stage == ExecutionStage::MergeOnly ==> !(sp_after_shard_dir(stage, idx)
            is ShardDownload) && !(sp_after_merge(stage, idx, len) is ShardExtract),
        stage == ExecutionStage::ExtractOnly ==> !(sp_after_shard_dir(stage, idx)
            is ShardDownload) && !(sp_after_shard_dir(stage, idx) is ShardMerge),
{
}

/// The orchestrator's state: the run's immutable inputs, the manifests
/// known so far, and the current phase.
pub struct Orchestrator {
    /// The run's configuration.
    pub config: DownloadConfig,
    /// The target directory the archives restore into.
    pub db_dir: String,
    /// The shards to process, in the caller's order.
    pub shard_ids: Vec<u32>,
    /// Which pipeline phases run.
    pub stage: ExecutionStage,
    /// The manifests known so far.
    pub metadata: MetadataMap,
    /// Where the run stands.
    pub phase: Phase,
}

impl Orchestrator {
    /// Every listed shard has a manifest, and every held manifest has a
    /// non-empty chunk list.
    pub open spec fn metadata_complete(&self) -> bool {
        map_covers(self.metadata@, self.shard_ids@) && map_entries_wf(self.metadata@)
    }

    /// The orchestrator's invariant: the configuration admits a download,
    /// phase indices stay within the shard list, and every phase past
    /// resolution has complete metadata.
    pub open spec fn wf(&self) -> bool {
        &&& self.config.wf()
        &&& map_entries_wf(self.metadata@)
        &&& match self.phase {
            Phase::Fetch { next } => next < self.shard_ids@.len() && (forall|i: int|
                0 <= i < next ==> sp_map_get(
                    self.metadata@,
                    dec_digits(#[trigger] self.shard_ids@[i] as int),
                ) is Some),
            Phase::Persist => self.metadata_complete(),
            Phase::ShardInit { idx } => idx < self.shard_ids@.len() && self.metadata_complete(),
            Phase::ShardDownload { idx } => idx < self.shard_ids@.len()
                && self.metadata_complete(),
            Phase::ShardMerge { idx } => idx < self.shard_ids@.len() && self.metadata_complete(),
            Phase::ShardExtract { idx } => idx < self.shard_ids@.len()
                && self.metadata_complete(),
            _ => true,
        }
    }

    /// A fresh orchestrator for one invocation.
    pub fn new(
        config: DownloadConfig,
        db_dir: String,
        shard_ids: Vec<u32>,
        stage: ExecutionStage,
    ) -> (r: Orchestrator)
        requires
            config.wf(),
        ensures
            r.wf(),
            r.phase == Phase::Init,
            r.config == config,
            r.db_dir == db_dir,
            r.shard_ids == shard_ids,
            r.stage == stage,
            r.metadata@ == Seq::<(Seq<char>, crate::metadata::ManifestView)>::empty(),
    {
        Orchestrator {
            config,
            db_dir,
            shard_ids,
            stage,
            metadata: MetadataMap::new(),
            phase: Phase::Init,
        }
    }

    /// The manifest of the shard at `idx`.
    fn shard_manifest(&self, idx: usize) -> (r: &crate::types::SnapshotMetadata)
        requires
            self.wf(),
            idx < self.shard_ids@.len(),
            self.metadata_complete(),
        ensures
            Some(r@) == sp_map_get(self.metadata@, dec_digits(self.shard_ids@[idx as int] as int)),
            r.chunks@.len() > 0,
    {
        proof {
            let key = dec_digits(self.shard_ids@[idx as int] as int);
            assert(sp_map_get(self.metadata@, key) is Some);
            lemma_sp_map_get_in(self.metadata@, key);
            let j = choose|j: int|
                0 <= j < self.metadata@.len() && #[trigger] self.metadata@[j] == (
                key,
                sp_map_get(self.metadata@, key)->0,
                );
            assert(self.metadata@[j].1.chunks.len() > 0);
        }
        match self.metadata.get_shard(self.shard_ids[idx]) {
            Option::Some(m) => m,
            Option::None => unreached(),
        }
    }

    /// What the caller must do in the current phase. The action's paths
    /// and URLs are exactly the derived ones of [`crate::paths`], and the
    /// chunk lists stand in manifest order.
    pub fn next_action(&self) -> (r: OrchestratorAction)
        requires
            self.wf(),
        ensures
            self.phase is Init ==> (r matches OrchestratorAction::EnsureWorkdir { path } && path@
                == self.config.snapshot_download_dir@),
            self.phase is LoadMeta ==> (r matches OrchestratorAction::LoadMetadataFile { path }
                && path@ == metadata_file_path_spec(self.config.snapshot_download_dir@)),
            self.phase matches Phase::Fetch { next } ==> (r
                matches OrchestratorAction::FetchManifest { url, shard_id } && url@
                == metadata_url_spec(
                self.config.snapshot_download_url@,
                self.config.network@,
                self.shard_ids@[next as int],
            ) && shard_id == self.shard_ids@[next as int]),
            self.phase is Persist ==> (r matches OrchestratorAction::PersistMetadata {
                path,
                content,
            } && path@ == metadata_file_path_spec(self.config.snapshot_download_dir@) && content@
                == render_map_view(self.metadata@)),
            self.phase matches Phase::ShardInit { idx } ==> (r
                matches OrchestratorAction::EnsureShardDir { path, shard_id } && path@
                == shard_dir_spec(
                self.config.snapshot_download_dir@,
                self.shard_ids@[idx as int],
            ) && shard_id == self.shard_ids@[idx as int]),
            self.phase matches Phase::ShardDownload { idx } ==> (r
                matches OrchestratorAction::DownloadChunks {
                filenames,
                urls,
                skip_verify,
                shard_id,
            } && {
                let m = sp_map_get(
                    self.metadata@,
                    dec_digits(self.shard_ids@[idx as int] as int),
                )->0;
                &&& skip_verify == self.config.skip_verify
                &&& shard_id == self.shard_ids@[idx as int]
                &&& filenames@.len() == m.chunks.len()
                &&& urls@.len() == m.chunks.len()
                &&& forall|i: int|
                    0 <= i < m.chunks.len() ==> (#[trigger] filenames@[i]@
                        == chunk_local_path_spec(
                        self.config.snapshot_download_dir@,
                        self.shard_ids@[idx as int],
                        m.chunks[i],
                    ) && urls@[i]@ == chunk_remote_url_spec(
                        self.config.snapshot_download_url@,
                        m.key_base,
                        m.chunks[i],
                    ))
            }),
            self.phase matches Phase::ShardMerge { idx } ==> (r
                matches OrchestratorAction::MergeChunks { chunk_paths, tar_path, shard_id } && {
                let m = sp_map_get(
                    self.metadata@,
                    dec_digits(self.shard_ids@[idx as int] as int),
                )->0;
                &&& shard_id == self.shard_ids@[idx as int]
                &&& tar_path@ == tar_path_spec(
                    self.config.snapshot_download_dir@,
                    self.shard_ids@[idx as int],
                )
                &&& chunk_paths@.len() == m.chunks.len()
                &&& forall|i: int|
                    0 <= i < m.chunks.len() ==> #[trigger] chunk_paths@[i]@
                        == chunk_local_path_spec(
                        self.config.snapshot_download_dir@,
                        self.shard_ids@[idx as int],
                        m.chunks[i],
                    )
            }),
            self.phase matches Phase::ShardExtract { idx } ==> (r
                matches OrchestratorAction::ExtractArchive { tar_path, target_dir, shard_id }
                && shard_id == self.shard_ids@[idx as int] && tar_path@ == tar_path_spec(
                self.config.snapshot_download_dir@,
                self.shard_ids@[idx as int],
            ) && target_dir@ == self.db_dir@),
            self.phase is Cleanup ==> (r matches OrchestratorAction::RemoveWorkdir { path }
                && path@ == self.config.snapshot_download_dir@),
            self.phase is Done || self.phase is Failed ==> r is Finish,
    {
        let workdir = self.config.snapshot_download_dir.as_str();
        match self.phase {
            Phase::Init => OrchestratorAction::EnsureWorkdir {
                path: String::from_str(workdir),
            },
            Phase::LoadMeta => OrchestratorAction::LoadMetadataFile {
                path: metadata_file_path(workdir),
            },
            Phase::Fetch { next } => {
                let shard_id = self.shard_ids[next];
                OrchestratorAction::FetchManifest {
                    url: metadata_url(
                        self.config.snapshot_download_url.as_str(),
                        self.config.network.as_str(),
                        shard_id,
                    ),
                    shard_id,
                }
            },
            Phase::Persist => OrchestratorAction::PersistMetadata {
                path: metadata_file_path(workdir),
                content: render_metadata_map(&self.metadata),
            },
            Phase::ShardInit { idx } => {
                let shard_id = self.shard_ids[idx];
                OrchestratorAction::EnsureShardDir { path: shard_dir(workdir, shard_id), shard_id }
            },
            Phase::ShardDownload { idx } => {
                let shard_id = self.shard_ids[idx];
                let m = self.shard_manifest(idx);
                let filenames = chunk_paths_in_order(workdir, shard_id, &m.chunks);
                let urls = chunk_urls_in_order(
                    self.config.snapshot_download_url.as_str(),
                    m.key_base.as_str(),
                    &m.chunks,
                );
                OrchestratorAction::DownloadChunks {
                    filenames,
                    urls,
                    skip_verify: self.config.skip_verify,
                    shard_id,
                }
            },
            Phase::ShardMerge { idx } => {
                let shard_id = self.shard_ids[idx];
                let m = self.shard_manifest(idx);
                OrchestratorAction::MergeChunks {
                    chunk_paths: chunk_paths_in_order(workdir, shard_id, &m.chunks),
                    tar_path: tar_path(workdir, shard_id),
                    shard_id,
                }
            },
            Phase::ShardExtract { idx } => {
                let shard_id = self.shard_ids[idx];
                OrchestratorAction::ExtractArchive {
                    tar_path: tar_path(workdir, shard_id),
                    target_dir: String::from_str(self.db_dir.as_str()),
                    shard_id,
                }
            },
            Phase::Cleanup => OrchestratorAction::RemoveWorkdir {
                path: String::from_str(workdir),
            },
            Phase::Done => OrchestratorAction::Finish,
            Phase::Failed => OrchestratorAction::Finish,
        }
    }
}

/// Looking a key up after adding an entry at the end: earlier entries
/// still win; the new entry answers only for a key not seen before.
pub proof fn lemma_sp_map_get_push(
    es: Seq<(Seq<char>, crate::metadata::ManifestView)>,
    p: (Seq<char>, crate::metadata::ManifestView),
    k: Seq<char>,
)
    ensures
        sp_map_get(es.push(p), k) == (match sp_map_get(es, k) {
            Option::Some(m) => Option::Some(m),
            Option::None => {
                if p.0 == k {
                    Option::Some(p.1)
                } else {
                    Option::None
                }
            },
        }),
    decreases es.len(),
{
    if es.len() == 0 {
        assert(es.push(p)[0] == p);
        assert(es.push(p).skip(1) =~= Seq::<(Seq<char>, crate::metadata::ManifestView)>::empty());
        if p.0 == k {
            assert(sp_map_get(es.push(p), k) == Some(p.1));
        } else {
            assert(sp_map_get(es.push(p), k) == sp_map_get(es.push(p).skip(1), k));
        }
    } else {
        assert(es.push(p)[0] == es[0]);
        assert(es.push(p).skip(1) =~= es.skip(1).push(p));
        lemma_sp_map_get_push(es.skip(1), p, k);
    }
}

/// A manifest found under a key is one of the entries.
pub proof fn lemma_sp_map_get_in(
    es: Seq<(Seq<char>, crate::metadata::ManifestView)>,
    k: Seq<char>,
)
    requires
        sp_map_get(es, k) is Some,
    ensures
        exists|i: int|
            0 <= i < es.len() && #[trigger] es[i] == (k, sp_map_get(es, k)->0),
    decreases es.len(),
{
    if es[0].0 == k {
        assert(es[0] == (k, sp_map_get(es, k)->0));
    } else {
        lemma_sp_map_get_in(es.skip(1), k);
        let i = choose|i: int|
            0 <= i < es.skip(1).len() && #[trigger] es.skip(1)[i] == (k, sp_map_get(
                es.skip(1),
                k,
            )->0);
        assert(es[i + 1] == (k, sp_map_get(es, k)->0));
    }
}

/// Which events answer which phases.
pub open spec fn expects(phase: Phase, ev: OrchestratorEvent) -> bool {
    match phase {
        Phase::Init => ev is WorkdirReady || ev is WorkdirFailed,
        Phase::LoadMeta => ev is MetadataFileRead,
        Phase::Fetch { next } => ev is ManifestFetched || ev is ManifestUnreachable,
        Phase::Persist => ev is MetadataPersisted || ev is PersistFailed,
        Phase::ShardInit { idx } => ev is ShardDirReady || ev is ShardDirFailed,
        Phase::ShardDownload { idx } => ev is ChunksDownloaded || ev is DownloadFailed,
        Phase::ShardMerge { idx } => ev is MergeCompleted || ev is MergeFailed,
        Phase::ShardExtract { idx } => ev is ExtractCompleted || ev is ExtractFailed,
        Phase::Cleanup => ev is WorkdirRemoved || ev is CleanupFailed,
        Phase::Done => false,
        Phase::Failed => false,
    }
}

impl Orchestrator {
    /// Consumes the outcome of the last action and moves to the next
    /// phase. A fatal outcome moves to `Failed` and surfaces the error,
    /// exactly when the result is an error; everything but the phase and
    /// the manifests is left untouched.
    #[verifier::rlimit(100)]
    pub fn on_event(&mut self, ev: OrchestratorEvent) -> (r: Result<(), SnapshotError>)
        requires
            old(self).wf(),
            expects(old(self).phase, ev),
        ensures
            final(self).wf(),
            final(self).config == old(self).config,
            final(self).db_dir == old(self).db_dir,
            final(self).shard_ids == old(self).shard_ids,
            final(self).stage == old(self).stage,
            (r is Err) == (final(self).phase is Failed),
            ev is WorkdirReady ==> (r is Ok && final(self).metadata == old(self).metadata
                && final(self).phase == (if stage_loads_metadata(old(self).stage) {
                Phase::LoadMeta
            } else {
                sp_begin_fetch(old(self).shard_ids@.len() as int)
            })),
            ev matches OrchestratorEvent::WorkdirFailed { message } ==> (r matches Err(e)
                && e is Io),
            ev matches OrchestratorEvent::MetadataFileRead { content } ==> (r is Ok && {
                let loaded = (match content {
                    Option::Some(text) => crate::metadata::sp_metadata_map(text@),
                    Option::None => Option::None,
                });
                match loaded {
                    Option::Some(es) => {
                        if map_covers(es, old(self).shard_ids@) && map_entries_wf(es) {
                            final(self).metadata@ == es && final(self).phase == sp_advance_shard(
                                old(self).stage,
                                0,
                                old(self).shard_ids@.len() as int,
                            )
                        } else {
                            final(self).metadata == old(self).metadata && final(self).phase
                                == sp_begin_fetch(old(self).shard_ids@.len() as int)
                        }
                    },
                    Option::None => final(self).metadata == old(self).metadata
                        && final(self).phase == sp_begin_fetch(
                        old(self).shard_ids@.len() as int,
                    ),
                }
            }),
            old(self).phase matches Phase::Fetch { next } ==> ev
                matches OrchestratorEvent::ManifestFetched { status, body } ==> {
                let id = old(self).shard_ids@[next as int];
                let key = dec_digits(id as int);
                if 200 <= status < 300 && (crate::metadata::sp_manifest(body@) matches Some(m)
                    && m.chunks.len() > 0) {
                    let m = crate::metadata::sp_manifest(body@)->0;
                    &&& r is Ok
                    &&& final(self).metadata@ == (if sp_map_has_key(old(self).metadata@, key) {
                        old(self).metadata@
                    } else {
                        old(self).metadata@.push((key, m))
                    })
                    &&& final(self).phase == (if next + 1 < old(self).shard_ids@.len() {
                        Phase::Fetch { next: (next + 1) as usize }
                    } else {
                        Phase::Persist
                    })
                } else {
                    &&& final(self).phase is Failed
                    &&& (status == 404 ==> (r matches Err(e) && e is NotFound))
                    &&& ((status < 200 || status >= 300) && status != 404 ==> (r matches Err(e)
                        && e is DownloadFailed))
                    &&& (200 <= status < 300 ==> (r matches Err(e) && e is InvalidFormat))
                }
            },
            ev matches OrchestratorEvent::ManifestUnreachable { message } ==> (r matches Err(e)
                && e is Transport),
            ev is MetadataPersisted ==> (r is Ok && final(self).metadata == old(self).metadata
                && final(self).phase == sp_advance_shard(
                old(self).stage,
                0,
                old(self).shard_ids@.len() as int,
            )),
            ev matches OrchestratorEvent::PersistFailed { message } ==> (r matches Err(e)
                && e is Io),
            old(self).phase matches Phase::ShardInit { idx } ==> ev is ShardDirReady ==> (
            r is Ok && final(self).metadata == old(self).metadata && final(self).phase
                == sp_after_shard_dir(old(self).stage, idx as int)),
            ev matches OrchestratorEvent::ShardDirFailed { message } ==> (r matches Err(e)
                && e is Io),
            old(self).phase matches Phase::ShardDownload { idx } ==> ev is ChunksDownloaded
                ==> (r is Ok && final(self).metadata == old(self).metadata && final(self).phase
                == sp_after_download(
                old(self).stage,
                idx as int,
                old(self).shard_ids@.len() as int,
            )),
            ev matches OrchestratorEvent::DownloadFailed { error } ==> (r matches Err(e) && e
                == error),
            old(self).phase matches Phase::ShardMerge { idx } ==> ev is MergeCompleted ==> (
            r is Ok && final(self).metadata == old(self).metadata && final(self).phase
                == sp_after_merge(
                old(self).stage,
                idx as int,
                old(self).shard_ids@.len() as int,
            )),
            ev matches OrchestratorEvent::MergeFailed { error } ==> (r matches Err(e) && e
                == error),
            old(self).phase matches Phase::ShardExtract { idx } ==> ev
                matches OrchestratorEvent::ExtractCompleted { stats } ==> (r is Ok
                && final(self).metadata == old(self).metadata && final(self).phase
                == sp_advance_shard(
                old(self).stage,
                idx + 1,
                old(self).shard_ids@.len() as int,
            )),
            ev matches OrchestratorEvent::ExtractFailed { error } ==> (r matches Err(e) && e
                == error),
            ev is WorkdirRemoved ==> (r is Ok && final(self).phase is Done),
            ev matches OrchestratorEvent::CleanupFailed { message } ==> (r matches Err(e)
                && e is Io),
    {
        let stage = self.stage;
        let len = self.shard_ids.len();
        match ev {
            OrchestratorEvent::WorkdirReady => {
                if stage == ExecutionStage::MergeOnly || stage == ExecutionStage::ExtractOnly {
                    self.phase = Phase::LoadMeta;
                } else if len > 0 {
                    self.phase = Phase::Fetch { next: 0 };
                } else {
                    self.phase = Phase::Persist;
                }
                Ok(())
            },
            OrchestratorEvent::WorkdirFailed { message } => {
                self.phase = Phase::Failed;
                Err(SnapshotError::Io(message))
            },
            OrchestratorEvent::MetadataFileRead { content } => {
                let mut usable: Option<MetadataMap> = None;
                match &content {
                    Option::Some(text) => {
                        match parse_metadata_map(text.as_str()) {
                            Option::Some(mm) => {
                                if mm.has_all_shards(&self.shard_ids) && mm.all_wf() {
                                    usable = Some(mm);
                                }
                            },
                            Option::None => {},
                        }
                    },
                    Option::None => {},
                }
                match usable {
                    Option::Some(mm) => {
                        self.metadata = mm;
                        if len > 0 {
                            self.phase = Phase::ShardInit { idx: 0 };
                        } else if stage == ExecutionStage::All {
                            self.phase = Phase::Cleanup;
                        } else {
                            self.phase = Phase::Done;
                        }
                    },
                    Option::None => {
                        if len > 0 {
                            self.phase = Phase::Fetch { next: 0 };
                        } else {
                            self.phase = Phase::Persist;
                        }
                    },
                }
                Ok(())
            },
            OrchestratorEvent::ManifestFetched { status, body } => {
                let next: usize = match self.phase {
                    Phase::Fetch { next } => next,
                    _ => unreached(),
                };
                let shard_id = self.shard_ids[next];
                let url = metadata_url(
                    self.config.snapshot_download_url.as_str(),
                    self.config.network.as_str(),
                    shard_id,
                );
                match interpret_metadata_response(status, body.as_str(), url.as_str()) {
                    Ok(md) => {
                        let ghost before = self.metadata@;
                        let ghost newkey = dec_digits(shard_id as int);
                        let key = crate::strnum::u64_to_dec_string(shard_id as u64);
                        if !self.metadata.contains_key(key.as_str()) {
                            self.metadata.insert(key, md);
                            proof {
                                assert forall|k2: Seq<char>| true implies #[trigger] sp_map_get(
                                    self.metadata@,
                                    k2,
                                ) == (match sp_map_get(before, k2) {
                                    Option::Some(m0) => Option::Some(m0),
                                    Option::None => {
                                        if newkey == k2 {
                                            Option::Some(md@)
                                        } else {
                                            Option::None
                                        }
                                    },
                                }) by {
                                    lemma_sp_map_get_push(before, (newkey, md@), k2);
                                }
                                crate::metadata::lemma_sp_map_get_has_key(before, newkey);
                            }
                        } else {
                            proof {
                                crate::metadata::lemma_sp_map_get_has_key(before, newkey);
                            }
                        }
                        proof {
                            assert forall|i: int|
                                0 <= i < self.metadata@.len() implies (
                            #[trigger] self.metadata@[i].1).chunks.len() > 0 by {
                                if i < before.len() {
                                    assert(self.metadata@[i] == before[i]);
                                    assert(before[i].1.chunks.len() > 0);
                                } else {
                                    assert(self.metadata@[i] == (newkey, md@));
                                }
                            }
                            assert(map_entries_wf(self.metadata@));
                            assert forall|i: int| 0 <= i <= next as int implies sp_map_get(
                                self.metadata@,
                                dec_digits(#[trigger] self.shard_ids@[i] as int),
                            ) is Some by {}
                            if next as int + 1 == self.shard_ids@.len() {
                                assert(map_covers(self.metadata@, self.shard_ids@));
                            }
                        }
                        if next + 1 < len {
                            self.phase = Phase::Fetch { next: next + 1 };
                        } else {
                            self.phase = Phase::Persist;
                        }
                        Ok(())
                    },
                    Err(e) => {
                        self.phase = Phase::Failed;
                        Err(e)
                    },
                }
            },
            OrchestratorEvent::ManifestUnreachable { message } => {
                self.phase = Phase::Failed;
                Err(SnapshotError::Transport(message))
            },
            OrchestratorEvent::MetadataPersisted => {
                if len > 0 {
                    self.phase = Phase::ShardInit { idx: 0 };
                } else if stage == ExecutionStage::All {
                    self.phase = Phase::Cleanup;
                } else {
                    self.phase = Phase::Done;
                }
                Ok(())
            },
            OrchestratorEvent::PersistFailed { message } => {
                self.phase = Phase::Failed;
                Err(SnapshotError::Io(message))
            },
            OrchestratorEvent::ShardDirReady => {
                let idx: usize = match self.phase {
                    Phase::ShardInit { idx } => idx,
                    _ => unreached(),
                };
                if stage == ExecutionStage::All || stage == ExecutionStage::DownloadOnly {
                    self.phase = Phase::ShardDownload { idx };
                } else if stage == ExecutionStage::MergeOnly {
                    self.phase = Phase::ShardMerge { idx };
                } else {
                    self.phase = Phase::ShardExtract { idx };
                }
                Ok(())
            },
            OrchestratorEvent::ShardDirFailed { message } => {
                self.phase = Phase::Failed;
                Err(SnapshotError::Io(message))
            },
            OrchestratorEvent::ChunksDownloaded => {
                let idx: usize = match self.phase {
                    Phase::ShardDownload { idx } => idx,
                    _ => unreached(),
                };
                if stage == ExecutionStage::All || stage == ExecutionStage::MergeOnly {
                    self.phase = Phase::ShardMerge { idx };
                } else {
                    self.advance_shard(idx);
                }
                Ok(())
            },
            OrchestratorEvent::DownloadFailed { error } => {
                self.phase = Phase::Failed;
                Err(error)
            },
            OrchestratorEvent::MergeCompleted => {
                let idx: usize = match self.phase {
                    Phase::ShardMerge { idx } => idx,
                    _ => unreached(),
                };
                if stage == ExecutionStage::All || stage == ExecutionStage::ExtractOnly {
                    self.phase = Phase::ShardExtract { idx };
                } else {
                    self.advance_shard(idx);
                }
                Ok(())
            },
            OrchestratorEvent::MergeFailed { error } => {
                self.phase = Phase::Failed;
                Err(error)
            },
            OrchestratorEvent::ExtractCompleted { stats: _ } => {
                let idx: usize = match self.phase {
                    Phase::ShardExtract { idx } => idx,
                    _ => unreached(),
                };
                self.advance_shard(idx);
                Ok(())
            },
            OrchestratorEvent::ExtractFailed { error } => {
                self.phase = Phase::Failed;
                Err(error)
            },
            OrchestratorEvent::WorkdirRemoved => {
                self.phase = Phase::Done;
                Ok(())
            },
            OrchestratorEvent::CleanupFailed { message } => {
                self.phase = Phase::Failed;
                Err(SnapshotError::Io(message))
            },
        }
    }

    /// Moves to the shard after `idx`, or to the end of the run.
    fn advance_shard(&mut self, idx: usize)
        requires
            old(self).wf(),
            idx < old(self).shard_ids@.len(),
            old(self).metadata_complete(),
        ensures
            *final(self) == (Orchestrator {
                phase: sp_advance_shard(
                    old(self).stage,
                    idx + 1,
                    old(self).shard_ids@.len() as int,
                ),
                ..*old(self)
            }),
            final(self).wf(),
    {
        let n = self.shard_ids.len();
        if idx + 1 < n {
            self.phase = Phase::ShardInit { idx: idx + 1 };
        } else if self.stage == ExecutionStage::All {
            self.phase = Phase::Cleanup;
        } else {
            self.phase = Phase::Done;
        }
    }
}

} // verus!
