use snapsync::error::SnapshotError;
use snapsync::types::{DownloadConfig, ExecutionStage};

#[test]
fn stock_configuration() {
    let c = DownloadConfig::default();
    assert_eq!(c.snapshot_download_url, "https://pub-d352dd8819104a778e20d08888c5a661.r2.dev");
    assert_eq!(c.snapshot_download_dir, ".rocks.snapshot");
    assert_eq!(c.network, "FARCASTER_NETWORK_MAINNET");
    assert_eq!(c.max_concurrent_downloads, 4);
    assert!(!c.skip_verify);
}

#[test]
fn stages_compare_by_variant() {
    assert_eq!(ExecutionStage::All, ExecutionStage::All);
    assert_ne!(ExecutionStage::All, ExecutionStage::DownloadOnly);
    assert_ne!(ExecutionStage::MergeOnly, ExecutionStage::ExtractOnly);
}

#[test]
fn errors_carry_their_message() {
    let e = SnapshotError::NotFound("missing".to_string());
    assert_eq!(e.message(), "missing");
    let t = SnapshotError::Transport("refused".to_string());
    assert_eq!(t.message(), "refused");
}
