use snapsync::error::SnapshotError;
use snapsync::extract::ExtractStats;
use snapsync::orchestrator::{Orchestrator, OrchestratorAction, OrchestratorEvent};
use snapsync::types::{DownloadConfig, ExecutionStage};

fn config() -> DownloadConfig {
    DownloadConfig {
        snapshot_download_url: "https://cdn".to_string(),
        snapshot_download_dir: ".work".to_string(),
        network: "net".to_string(),
        max_concurrent_downloads: 4,
        skip_verify: false,
    }
}

const MANIFEST: &str = "{\"key_base\":\"net/0\",\"chunks\":[\"a.gz\",\"b.gz\"],\"timestamp\":1000}";

#[test]
fn full_run_walks_all_stages_and_cleans_up() {
    let mut orch = Orchestrator::new(config(), ".rocks".to_string(), vec![0], ExecutionStage::All);

    match orch.next_action() {
        OrchestratorAction::EnsureWorkdir { path } => assert_eq!(path, ".work"),
        _ => panic!("expected the working directory first"),
    }
    orch.on_event(OrchestratorEvent::WorkdirReady).unwrap();

    match orch.next_action() {
        OrchestratorAction::FetchManifest { url, shard_id } => {
            assert_eq!(url, "https://cdn/net/0/latest.json");
            assert_eq!(shard_id, 0);
        }
        _ => panic!("expected a manifest fetch"),
    }
    orch.on_event(OrchestratorEvent::ManifestFetched { status: 200, body: MANIFEST.to_string() })
        .unwrap();

    match orch.next_action() {
        OrchestratorAction::PersistMetadata { path, content } => {
            assert_eq!(path, ".work/metadata.json");
            assert_eq!(content, format!("{{\"0\":{}}}", MANIFEST));
        }
        _ => panic!("expected metadata persistence"),
    }
    orch.on_event(OrchestratorEvent::MetadataPersisted).unwrap();

    match orch.next_action() {
        OrchestratorAction::EnsureShardDir { path, shard_id } => {
            assert_eq!(path, ".work/shard-0");
            assert_eq!(shard_id, 0);
        }
        _ => panic!("expected the shard directory"),
    }
    orch.on_event(OrchestratorEvent::ShardDirReady).unwrap();

    match orch.next_action() {
        OrchestratorAction::DownloadChunks { filenames, urls, skip_verify, shard_id } => {
            assert_eq!(shard_id, 0);
            assert!(!skip_verify);
            assert_eq!(
                filenames,
                vec![".work/shard-0/a.gz".to_string(), ".work/shard-0/b.gz".to_string()]
            );
            assert_eq!(
                urls,
                vec!["https://cdn/net/0/a.gz".to_string(), "https://cdn/net/0/b.gz".to_string()]
            );
        }
        _ => panic!("expected the download stage"),
    }
    orch.on_event(OrchestratorEvent::ChunksDownloaded).unwrap();

    match orch.next_action() {
        OrchestratorAction::MergeChunks { chunk_paths, tar_path, shard_id } => {
            assert_eq!(shard_id, 0);
            assert_eq!(tar_path, ".work/shard_0_snapshot.tar");
            assert_eq!(
                chunk_paths,
                vec![".work/shard-0/a.gz".to_string(), ".work/shard-0/b.gz".to_string()]
            );
        }
        _ => panic!("expected the merge stage"),
    }
    orch.on_event(OrchestratorEvent::MergeCompleted).unwrap();

    match orch.next_action() {
        OrchestratorAction::ExtractArchive { tar_path, target_dir, shard_id } => {
            assert_eq!(shard_id, 0);
            assert_eq!(tar_path, ".work/shard_0_snapshot.tar");
            assert_eq!(target_dir, ".rocks");
        }
        _ => panic!("expected the extract stage"),
    }
    orch.on_event(OrchestratorEvent::ExtractCompleted { stats: ExtractStats::new() }).unwrap();

    // On full success of an All run the working directory is removed.
    match orch.next_action() {
        OrchestratorAction::RemoveWorkdir { path } => assert_eq!(path, ".work"),
        _ => panic!("expected the cleanup"),
    }
    orch.on_event(OrchestratorEvent::WorkdirRemoved).unwrap();
    assert!(matches!(orch.next_action(), OrchestratorAction::Finish));
}

#[test]
fn failed_download_stops_the_run_before_extraction() {
    let mut orch = Orchestrator::new(config(), ".rocks".to_string(), vec![0], ExecutionStage::All);
    orch.on_event(OrchestratorEvent::WorkdirReady).unwrap();
    assert!(matches!(orch.next_action(), OrchestratorAction::FetchManifest { .. }));
    orch.on_event(OrchestratorEvent::ManifestFetched { status: 200, body: MANIFEST.to_string() })
        .unwrap();
    orch.on_event(OrchestratorEvent::MetadataPersisted).unwrap();
    orch.on_event(OrchestratorEvent::ShardDirReady).unwrap();

    // Both chunks were scheduled for download, in manifest order.
    match orch.next_action() {
        OrchestratorAction::DownloadChunks { filenames, .. } => {
            assert_eq!(
                filenames,
                vec![".work/shard-0/a.gz".to_string(), ".work/shard-0/b.gz".to_string()]
            );
        }
        _ => panic!("expected the download stage"),
    }

    // One chunk exhausted its retry budget with a transport error.
    let err = orch
        .on_event(OrchestratorEvent::DownloadFailed {
            error: SnapshotError::Transport("connection refused".to_string()),
        })
        .unwrap_err();
    assert!(matches!(err, SnapshotError::Transport(_)));

    // The run is over: no merge and no extraction are ever asked for.
    assert!(matches!(orch.next_action(), OrchestratorAction::Finish));
}

#[test]
fn manifest_errors_are_fatal_for_the_run() {
    let mut orch = Orchestrator::new(config(), ".rocks".to_string(), vec![7], ExecutionStage::All);
    orch.on_event(OrchestratorEvent::WorkdirReady).unwrap();
    let err = orch
        .on_event(OrchestratorEvent::ManifestFetched { status: 404, body: String::new() })
        .unwrap_err();
    assert!(matches!(err, SnapshotError::NotFound(_)));
    assert!(matches!(orch.next_action(), OrchestratorAction::Finish));
}

#[test]
fn extract_only_with_persisted_metadata_does_no_network_work() {
    let mut orch =
        Orchestrator::new(config(), ".rocks".to_string(), vec![0], ExecutionStage::ExtractOnly);
    orch.on_event(OrchestratorEvent::WorkdirReady).unwrap();

    // The persisted file is consulted instead of the network.
    match orch.next_action() {
        OrchestratorAction::LoadMetadataFile { path } => assert_eq!(path, ".work/metadata.json"),
        _ => panic!("expected the metadata file load"),
    }
    let persisted = format!("{{\"0\":{}}}", MANIFEST);
    orch.on_event(OrchestratorEvent::MetadataFileRead { content: Some(persisted) }).unwrap();

    // Straight to the shard, and straight to extraction: no fetch, no
    // download, no merge.
    match orch.next_action() {
        OrchestratorAction::EnsureShardDir { path, .. } => assert_eq!(path, ".work/shard-0"),
        _ => panic!("expected the shard directory"),
    }
    orch.on_event(OrchestratorEvent::ShardDirReady).unwrap();
    match orch.next_action() {
        OrchestratorAction::ExtractArchive { tar_path, target_dir, .. } => {
            assert_eq!(tar_path, ".work/shard_0_snapshot.tar");
            assert_eq!(target_dir, ".rocks");
        }
        _ => panic!("expected the extract stage"),
    }
    orch.on_event(OrchestratorEvent::ExtractCompleted { stats: ExtractStats::new() }).unwrap();

    // Not an All run: the working directory stays.
    assert!(matches!(orch.next_action(), OrchestratorAction::Finish));
}

#[test]
fn extract_only_without_metadata_falls_back_to_resolution() {
    let mut orch =
        Orchestrator::new(config(), ".rocks".to_string(), vec![0], ExecutionStage::ExtractOnly);
    orch.on_event(OrchestratorEvent::WorkdirReady).unwrap();
    assert!(matches!(orch.next_action(), OrchestratorAction::LoadMetadataFile { .. }));
    orch.on_event(OrchestratorEvent::MetadataFileRead { content: None }).unwrap();
    assert!(matches!(orch.next_action(), OrchestratorAction::FetchManifest { .. }));
}

#[test]
fn download_only_stops_after_the_chunks() {
    let mut orch =
        Orchestrator::new(config(), ".rocks".to_string(), vec![0], ExecutionStage::DownloadOnly);
    orch.on_event(OrchestratorEvent::WorkdirReady).unwrap();
    orch.on_event(OrchestratorEvent::ManifestFetched { status: 200, body: MANIFEST.to_string() })
        .unwrap();
    orch.on_event(OrchestratorEvent::MetadataPersisted).unwrap();
    orch.on_event(OrchestratorEvent::ShardDirReady).unwrap();
    assert!(matches!(orch.next_action(), OrchestratorAction::DownloadChunks { .. }));
    orch.on_event(OrchestratorEvent::ChunksDownloaded).unwrap();
    // Chunk files are left in place; no merge, no extract, no cleanup.
    assert!(matches!(orch.next_action(), OrchestratorAction::Finish));
}

#[test]
fn shards_are_processed_in_the_callers_order() {
    let mut orch =
        Orchestrator::new(config(), ".rocks".to_string(), vec![2, 1], ExecutionStage::DownloadOnly);
    orch.on_event(OrchestratorEvent::WorkdirReady).unwrap();
    match orch.next_action() {
        OrchestratorAction::FetchManifest { shard_id, .. } => assert_eq!(shard_id, 2),
        _ => panic!("expected a manifest fetch"),
    }
    let m2 = "{\"key_base\":\"net/2\",\"chunks\":[\"c2.gz\"],\"timestamp\":1}";
    let m1 = "{\"key_base\":\"net/1\",\"chunks\":[\"c1.gz\"],\"timestamp\":1}";
    orch.on_event(OrchestratorEvent::ManifestFetched { status: 200, body: m2.to_string() })
        .unwrap();
    match orch.next_action() {
        OrchestratorAction::FetchManifest { shard_id, .. } => assert_eq!(shard_id, 1),
        _ => panic!("expected the second manifest fetch"),
    }
    orch.on_event(OrchestratorEvent::ManifestFetched { status: 200, body: m1.to_string() })
        .unwrap();
    orch.on_event(OrchestratorEvent::MetadataPersisted).unwrap();

    match orch.next_action() {
        OrchestratorAction::EnsureShardDir { shard_id, .. } => assert_eq!(shard_id, 2),
        _ => panic!("expected shard 2 first"),
    }
    orch.on_event(OrchestratorEvent::ShardDirReady).unwrap();
    match orch.next_action() {
        OrchestratorAction::DownloadChunks { urls, .. } => {
            assert_eq!(urls, vec!["https://cdn/net/2/c2.gz".to_string()]);
        }
        _ => panic!("expected shard 2's download"),
    }
    orch.on_event(OrchestratorEvent::ChunksDownloaded).unwrap();
    match orch.next_action() {
        OrchestratorAction::EnsureShardDir { shard_id, .. } => assert_eq!(shard_id, 1),
        _ => panic!("expected shard 1 second"),
    }
}
