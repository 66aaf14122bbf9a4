use aoscbootstrap::download::{
    after_failure, needs_download, worker_count, CachedFile, FetchFailure, RetryDecision,
};
use aoscbootstrap::package::PackageMeta;

fn bash() -> PackageMeta {
    PackageMeta {
        name: "bash".to_string(),
        path: "pool/b/bash_5.1_amd64.deb".to_string(),
        size: 1416614,
        checksum: "0f3a".to_string(),
        version: "5.1".to_string(),
    }
}

#[test]
fn missing_archive_is_fetched() {
    assert!(needs_download(None, &bash()));
}

#[test]
fn archive_with_size_and_checksum_is_skipped() {
    let file = CachedFile { size: 1416614, checksum: "0f3a".to_string() };
    assert!(!needs_download(Some(&file), &bash()));
}

#[test]
fn archive_of_another_size_or_checksum_is_fetched() {
    let short = CachedFile { size: 1416613, checksum: "0f3a".to_string() };
    assert!(needs_download(Some(&short), &bash()));
    let other = CachedFile { size: 1416614, checksum: "0f3b".to_string() };
    assert!(needs_download(Some(&other), &bash()));
    let upper = CachedFile { size: 1416614, checksum: "0F3A".to_string() };
    assert!(needs_download(Some(&upper), &bash()));
    let empty = CachedFile { size: 0, checksum: String::new() };
    assert!(needs_download(Some(&empty), &bash()));
}

#[test]
fn populated_cache_fetches_nothing() {
    let packages = vec![bash(), bash(), bash()];
    let cache: Vec<CachedFile> = packages
        .iter()
        .map(|p| CachedFile { size: p.size, checksum: p.checksum.clone() })
        .collect();
    let fetched = packages
        .iter()
        .zip(cache.iter())
        .filter(|(p, f)| needs_download(Some(*f), *p))
        .count();
    assert_eq!(fetched, 0);
}

#[test]
fn passing_failures_are_tried_three_times_in_all() {
    assert_eq!(
        after_failure(1, FetchFailure::Transient),
        RetryDecision::RetryAfter { millis: 1000 }
    );
    assert_eq!(
        after_failure(2, FetchFailure::Transient),
        RetryDecision::RetryAfter { millis: 2000 }
    );
    assert_eq!(after_failure(3, FetchFailure::Transient), RetryDecision::GiveUp);
    assert_eq!(after_failure(4, FetchFailure::Transient), RetryDecision::GiveUp);
    assert_eq!(after_failure(u32::MAX, FetchFailure::Transient), RetryDecision::GiveUp);
}

#[test]
fn failure_before_any_attempt_counts_as_the_first() {
    assert_eq!(
        after_failure(0, FetchFailure::Transient),
        RetryDecision::RetryAfter { millis: 1000 }
    );
}

#[test]
fn wrong_checksum_is_final() {
    for attempts in 0..5 {
        assert_eq!(after_failure(attempts, FetchFailure::ChecksumMismatch), RetryDecision::GiveUp);
        assert_eq!(after_failure(attempts, FetchFailure::Permanent), RetryDecision::GiveUp);
    }
}

#[test]
fn workers_never_exceed_the_packages() {
    assert_eq!(worker_count(4, 8), 4);
    assert_eq!(worker_count(100, 8), 8);
    assert_eq!(worker_count(8, 8), 8);
    assert_eq!(worker_count(0, 8), 0);
    assert_eq!(worker_count(5, 0), 0);
}
