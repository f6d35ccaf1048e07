use quicksync::download::classify_status;
use quicksync::download::range_header_value;
use quicksync::download::resume_url;
use quicksync::download::total_size;
use quicksync::download::DownloadProgress;
use quicksync::download::MemSink;
use quicksync::download::RetryState;
use quicksync::download::StatusClass;
use quicksync::errors::SyncError;

#[test]
fn rejects_not_206() {
    // a 200 answer to a range request means the server ignored the resume
    assert_eq!(classify_status(200), StatusClass::NotResumable);
    let err = SyncError::NotResumable {
        status: "200 OK".to_string(),
    };
    assert_eq!(
        err.message(),
        "expected 206 Partial Content, but got 200 OK"
    );
}

#[test]
fn fails_when_server_fails() {
    assert_eq!(classify_status(500), StatusClass::RemoteFailure);
    let err = SyncError::RemoteFailure {
        url: "http://host/file".to_string(),
        status: "500 Internal Server Error".to_string(),
        detail: "Unknown error".to_string(),
    };
    assert!(err.message().contains("failed to download from"));
}

#[test]
fn only_206_resumes() {
    assert_eq!(classify_status(206), StatusClass::PartialContent);
    assert_eq!(classify_status(204), StatusClass::NotResumable);
    assert_eq!(classify_status(299), StatusClass::NotResumable);
    assert_eq!(classify_status(301), StatusClass::RemoteFailure);
    assert_eq!(classify_status(404), StatusClass::RemoteFailure);
    assert_eq!(classify_status(199), StatusClass::RemoteFailure);
}

#[test]
fn range_header_asks_from_the_resume_offset() {
    assert_eq!(range_header_value(0), "bytes=0-");
    assert_eq!(range_header_value(1234567890), "bytes=1234567890-");
}

#[test]
fn pinned_redirect_takes_precedence() {
    let pinned = Some("http://mirror-7/file".to_string());
    assert_eq!(resume_url(&pinned, "http://origin/file"), "http://mirror-7/file");
    assert_eq!(resume_url(&None, "http://origin/file"), "http://origin/file");
}

#[test]
fn total_size_adds_the_resume_offset() {
    assert_eq!(total_size(1000, 234), Some(1234));
    assert_eq!(total_size(0, 0), Some(0));
    assert_eq!(total_size(u64::MAX, 1), None);
}

#[test]
fn retries_after_failure() {
    // one retry in the budget: two attempts in all
    let mut retry = RetryState::new(1);
    assert!(retry.on_failure());
    assert!(!retry.on_failure());

    let mut no_retries = RetryState::new(0);
    assert!(!no_retries.on_failure());
}

#[test]
fn interrupted_download_resumes_without_loss_or_repetition() {
    // the remote file
    let remote: Vec<u8> = (0u32..2000).map(|i| (i * 7 % 251) as u8) .collect();

    // first attempt: interrupted after 50 bytes
    let mut sink = MemSink::new();
    sink.write_all(&remote[..50]);

    // resume: seek to the end, request everything from that offset on
    let offset = sink.len();
    assert_eq!(offset, 50);
    assert_eq!(range_header_value(offset as u64), "bytes=50-");
    sink.write_all(&remote[offset..]);

    // byte for byte what a single uninterrupted download yields
    assert_eq!(sink.into_bytes(), remote);
}

#[test]
fn progress_reports_are_rate_limited() {
    let mut progress = DownloadProgress::new(0, 1000);
    // first chunk: one per-mille done, always reported
    assert_eq!(progress.on_chunk(1), Some(1));
    // one more per-mille is not an advance of more than one
    assert_eq!(progress.on_chunk(1), None);
    // jumping to 50 per-mille is
    assert_eq!(progress.on_chunk(48), Some(50));
    // completion
    assert_eq!(progress.on_chunk(950), Some(1000));
}

#[test]
fn progress_resumes_count_from_the_offset() {
    let mut progress = DownloadProgress::new(500, 1000);
    assert_eq!(progress.on_chunk(100), Some(600));
}

#[test]
fn progress_with_unknown_total_counts_as_complete() {
    let mut progress = DownloadProgress::new(0, 0);
    assert_eq!(progress.on_chunk(10), Some(1000));
    assert_eq!(progress.on_chunk(10), None);
}
