use translation_engine::download::DownloadPlan;
use translation_engine::download::DownloadProgress;
use translation_engine::download::plan_download;

#[test]
fn complete_cache_means_no_transfer() {
    assert_eq!(plan_download(Some(100), 100), DownloadPlan::UseCached);
    assert_eq!(plan_download(Some(101), 100), DownloadPlan::UseCached);
}

#[test]
fn missing_or_short_cache_is_fetched_in_full() {
    assert_eq!(plan_download(None, 100), DownloadPlan::Fetch);
    assert_eq!(plan_download(Some(99), 100), DownloadPlan::Fetch);
    assert_eq!(plan_download(Some(0), 1), DownloadPlan::Fetch);
}

#[test]
fn download_decision_is_idempotent() {
    // Once the cache covers the remote size, a second call decides the same
    // way: zero transfer both times.
    let first = plan_download(Some(4096), 4096);
    let second = plan_download(Some(4096), 4096);
    assert_eq!(first, DownloadPlan::UseCached);
    assert_eq!(second, DownloadPlan::UseCached);
}

#[test]
fn progress_is_clamped_to_the_total() {
    let mut progress = DownloadProgress::new(10);
    assert_eq!(progress.downloaded, 0);
    progress.record_chunk(4);
    assert_eq!(progress.downloaded, 4);
    progress.record_chunk(7);
    assert_eq!(progress.downloaded, 10);
    progress.record_chunk(1);
    assert_eq!(progress.downloaded, 10);
    assert_eq!(progress.total, 10);
}
