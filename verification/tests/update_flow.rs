use ventoy_toybox::cache::{cache_matches_tag, validate_cache, CachedPackage};
use ventoy_toybox::pipeline::{elevation_outcome, plan_download, step, DownloadPlan, UpdateEvent, UpdateStage};
use ventoy_toybox::release::{parse_release, Release};

fn pkg(version: &str, path: &str) -> CachedPackage {
    CachedPackage { version: version.to_string(), path: path.to_string() }
}

fn scenario_release() -> Release {
    let body = "{\"tag_name\":\"v1.2.0\",\"assets\":[{\"name\":\"ventoy-windows.zip\",\"browser_download_url\":\"https://x/a\"},{\"name\":\"ventoy-linux.tar.gz\",\"browser_download_url\":\"https://x/b\"}]}";
    parse_release(body).expect("manifest should parse")
}

#[test]
fn deleted_archive_invalidates_cache() {
    // the recorded file is gone, so the record is treated as absent
    let stale = validate_cache(Some(pkg("1.2.0", "/cache/pkg.zip")), false);
    assert!(stale.is_none());
    let fresh = validate_cache(Some(pkg("1.2.0", "/cache/pkg.zip")), true);
    assert!(fresh.is_some());
    assert!(validate_cache(None, true).is_none());
}

#[test]
fn deleted_archive_forces_fresh_download() {
    let release = scenario_release();
    // after startup screening dropped the stale record, planning downloads anew
    let cached = validate_cache(Some(pkg("1.2.0", "/cache/pkg.zip")), false);
    match plan_download(&release, &cached, "linux", "/cache") {
        DownloadPlan::Fetch { url, pkg_path, dest_dir } => {
            assert_eq!(url, "https://x/b");
            assert_eq!(pkg_path, "/cache/ventoy-linux.tar.gz");
            assert_eq!(dest_dir, "/cache/ventoy-v1.2.0-linux");
        },
        _ => panic!("a fresh download should be planned"),
    }
}

#[test]
fn matching_cache_is_reused() {
    let release = scenario_release();
    assert!(cache_matches_tag(&pkg("1.2.0", "/cache/a.zip"), "v1.2.0"));
    assert!(!cache_matches_tag(&pkg("1.1.0", "/cache/a.zip"), "v1.2.0"));
    let cached = Some(pkg("1.2.0", "/cache/old/ventoy-linux.tar.gz"));
    match plan_download(&release, &cached, "linux", "/cache") {
        DownloadPlan::UseCached { archive, dest_dir } => {
            assert_eq!(archive, "/cache/old/ventoy-linux.tar.gz");
            assert_eq!(dest_dir, "/cache/old/ventoy-v1.2.0-linux");
        },
        _ => panic!("the cached archive should be reused"),
    }
}

#[test]
fn unmatched_platform_yields_no_asset() {
    let release = scenario_release();
    match plan_download(&release, &None, "macos", "/cache") {
        DownloadPlan::NoAsset { message } => {
            assert_eq!(message, "failed to find correct pkg for native os");
        },
        _ => panic!("no asset fits this platform"),
    }
}

#[test]
fn elevation_succeeds_above_the_shell_threshold() {
    assert!(elevation_outcome(33).is_ok());
    assert_eq!(elevation_outcome(32).unwrap_err(), "admin privileges denied!");
    assert_eq!(elevation_outcome(0).unwrap_err(), "admin privileges denied!");
    assert_eq!(elevation_outcome(-1).unwrap_err(), "admin privileges denied!");
}

#[test]
fn stage_transitions() {
    assert_eq!(step(UpdateStage::AwaitingManifest, UpdateEvent::ManifestReady), UpdateStage::FoundRelease);
    assert_eq!(step(UpdateStage::FoundRelease, UpdateEvent::DownloadRequested), UpdateStage::Downloading);
    assert_eq!(step(UpdateStage::Downloading, UpdateEvent::DownloadFinished), UpdateStage::Done);
    assert_eq!(step(UpdateStage::Downloading, UpdateEvent::DownloadFailed), UpdateStage::Failed);
    assert_eq!(step(UpdateStage::Failed, UpdateEvent::RetryRequested), UpdateStage::Downloading);
    assert_eq!(step(UpdateStage::Done, UpdateEvent::ResetRequested), UpdateStage::AwaitingManifest);
}

#[test]
fn inapplicable_events_keep_the_stage() {
    assert_eq!(step(UpdateStage::Done, UpdateEvent::ManifestReady), UpdateStage::Done);
    assert_eq!(step(UpdateStage::AwaitingManifest, UpdateEvent::DownloadRequested), UpdateStage::AwaitingManifest);
    assert_eq!(step(UpdateStage::FoundRelease, UpdateEvent::DownloadFinished), UpdateStage::FoundRelease);
    assert_eq!(step(UpdateStage::Done, UpdateEvent::RetryRequested), UpdateStage::Done);
    assert_eq!(step(UpdateStage::AwaitingManifest, UpdateEvent::DownloadFailed), UpdateStage::AwaitingManifest);
}
