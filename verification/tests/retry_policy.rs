use convert_invert::events::{DownloadFailure, RetryReason, RetryTarget, SearchRequest};
use convert_invert::items::SearchItem;
use convert_invert::retry::{build_retry, capped_backoff, PipelineSettings};

fn base_settings() -> PipelineSettings {
    PipelineSettings {
        search_timeout_secs: 10,
        max_search_timeout_secs: 120,
        max_search_retries: 2,
        max_judge_retries: 2,
        max_download_retries: 2,
        base_backoff_secs: 5,
        max_backoff_secs: 60,
        max_concurrent_searches: 1,
        max_concurrent_judges: 1,
        max_concurrent_downloads: 1,
    }
}

fn search_request() -> SearchRequest {
    SearchRequest {
        item: SearchItem {
            id: 1,
            track: "Track".to_string(),
            album: "Album".to_string(),
            artist: "Artist".to_string(),
        },
        search_attempts: 0,
        judge_attempts: 0,
        download_attempts: 0,
        timeout_secs: 10,
    }
}

#[test]
fn capped_backoff_limits_and_scales() {
    assert_eq!(capped_backoff(5, 0, 60), 5);
    assert_eq!(capped_backoff(5, 1, 60), 10);
    assert_eq!(capped_backoff(5, 2, 60), 20);
    assert_eq!(capped_backoff(40, 2, 60), 60);
}

#[test]
fn capped_backoff_saturates() {
    assert_eq!(capped_backoff(u64::MAX, 1, u64::MAX), u64::MAX);
    assert_eq!(capped_backoff(1, 80, u64::MAX), u64::MAX);
    assert_eq!(capped_backoff(0, 80, 60), 0);
}

#[test]
fn retry_search_no_results_increases_timeout() {
    let settings = base_settings();
    let request = search_request();
    let retry = build_retry(&settings, request, RetryReason::SearchNoResults).expect("retry");
    match retry.target {
        RetryTarget::Search(next) => {
            assert_eq!(next.search_attempts, 1);
            assert_eq!(next.timeout_secs, 20);
        }
    }
}

#[test]
fn retry_judge_no_match_backoff_only() {
    let settings = base_settings();
    let mut request = search_request();
    request.judge_attempts = 1;
    let retry = build_retry(&settings, request, RetryReason::JudgeNoMatch).expect("retry");
    match retry.target {
        RetryTarget::Search(next) => {
            assert_eq!(next.judge_attempts, 2);
            assert_eq!(next.timeout_secs, settings.search_timeout_secs);
        }
    }
}

#[test]
fn retry_download_failed_increments_download_attempts() {
    let settings = base_settings();
    let mut request = search_request();
    request.download_attempts = 1;
    let retry = build_retry(
        &settings,
        request,
        RetryReason::DownloadFailed(DownloadFailure::Failed),
    )
    .expect("retry");
    match retry.target {
        RetryTarget::Search(next) => {
            assert_eq!(next.download_attempts, 2);
        }
    }
}

#[test]
fn retry_respects_limits() {
    let settings = base_settings();
    let mut request = search_request();
    request.search_attempts = settings.max_search_retries;
    assert!(build_retry(&settings, request, RetryReason::SearchNoResults).is_none());
}

#[test]
fn retry_keeps_reason_and_backoff() {
    let settings = base_settings();
    let request = search_request();
    let retry = build_retry(&settings, request, RetryReason::SearchNoResults).expect("retry");
    assert!(matches!(retry.reason, RetryReason::SearchNoResults));
    assert_eq!(retry.backoff_secs, 10);
}

#[test]
fn retry_counters_never_decrease() {
    let settings = base_settings();
    let mut request = search_request();
    request.search_attempts = 1;
    request.judge_attempts = 1;
    request.download_attempts = 1;
    let retry = build_retry(&settings, request, RetryReason::JudgeNoMatch).expect("retry");
    match retry.target {
        RetryTarget::Search(next) => {
            assert_eq!(next.search_attempts, 1);
            assert_eq!(next.judge_attempts, 2);
            assert_eq!(next.download_attempts, 1);
        }
    }
}
