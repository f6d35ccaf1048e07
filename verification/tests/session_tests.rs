use quicksync::errors::SyncError;
use quicksync::manifest::RestorePoint;
use quicksync::restore::file_url;
use quicksync::restore::metadata_url;
use quicksync::restore::previous_hash_hex;
use quicksync::restore::restore_script_url;
use quicksync::restore::PlanOutcome;
use quicksync::restore::RestoreSession;

/// Unwraps a plan that must carry work to do.
fn must_restore(r: Result<PlanOutcome, SyncError>) -> RestoreSession {
    match r.unwrap() {
        PlanOutcome::Restore(session) => session,
        PlanOutcome::FullySynced => panic!("expected restore points to apply"),
    }
}

#[test]
fn getting_previous_hash() {
    // the anchor is the first two bytes of the stored aggregated hash,
    // hex-encoded to four characters
    let result = previous_hash_hex(&[0xAA, 0xBB]);
    assert_eq!("aabb", result);
    let longer = previous_hash_hex(&[0xAA, 0xBB, 0xCC, 0xDD]);
    assert_eq!("aabb", longer);
}

#[test]
fn fails_on_hash_mismatch() {
    // local database at layer 99, its previous-hash anchor reads "ffff",
    // while the manifest's point for layer 100 declares hash "aaaa"
    let mut session = must_restore(RestoreSession::plan_restore(99, 0, "100,200,aaaa", 0));
    assert!(session.needs_chain_check());
    let err = session.verify_chain("ffff").unwrap_err();
    assert!(err.message().contains("unexpected hash"));
    assert!(matches!(err, SyncError::HashMismatch { .. }));
}

#[test]
fn no_matching_restore_points() {
    // local database at layer 80; the manifest only covers 200 onward, so
    // layers 81 to 199 cannot be restored from it
    let err = RestoreSession::plan_restore(80, 0, "200,300,aaaa", 0).unwrap_err();
    assert!(err
        .message()
        .contains("No suitable restore points found, seems that state.sql is too old"));
}

#[test]
fn fully_synced_is_a_no_op_not_an_error() {
    // local database at layer 299; the manifest covers nothing past layer
    // 300, so there is nothing to apply and nothing wrong
    let outcome = RestoreSession::plan_restore(299, 0, "100,200,aaaa\n200,300,bbbb", 0).unwrap();
    assert!(matches!(outcome, PlanOutcome::FullySynced));
    // far beyond coverage is still a no-op
    let outcome = RestoreSession::plan_restore(5000, 0, "100,200,aaaa\n200,300,bbbb", 0).unwrap();
    assert!(matches!(outcome, PlanOutcome::FullySynced));
    // but with a jump-back the recent history is re-applied
    let session = must_restore(RestoreSession::plan_restore(
        5000,
        0,
        "100,200,aaaa\n200,300,bbbb",
        1,
    ));
    assert_eq!(session.total(), 1);
}

#[test]
fn chain_check_passes_on_matching_prefix() {
    let mut session = must_restore(RestoreSession::plan_restore(99, 0, "100,200,bbbbcdef", 0));
    // the anchor must equal the first four characters of the published hash
    assert!(session.verify_chain("bbbc").is_err());
    assert!(session.verify_chain("bbbb").is_ok());
}

#[test]
fn genesis_point_needs_no_chain_check() {
    let mut session = must_restore(RestoreSession::plan_restore(0, 10, "0,100,aaaa", 0));
    assert!(!session.needs_chain_check());
    session.skip_chain_check();
}

#[test]
fn session_walks_the_plan_in_order() {
    let mut session = must_restore(RestoreSession::plan_restore(
        98,
        0,
        "0,100,aaaa\n100,200,bbbb\n200,300,cccc",
        0,
    ));
    assert_eq!(session.total(), 3);
    assert!(!session.is_done());
    assert_eq!(session.current(), &RestorePoint::new(0, 100, "aaaa".to_string()));
    session.skip_chain_check();
    session.on_fetched_compressed();
    session.advance();
    assert_eq!(session.current(), &RestorePoint::new(100, 200, "bbbb".to_string()));
    assert!(session.verify_chain("bbbb").is_ok());
    session.on_fetched_compressed();
    session.advance();
    assert!(session.verify_chain("cccc").is_ok());
    session.on_compressed_failure();
    session.on_fetched_plain();
    session.advance();
    assert!(session.is_done());
}

#[test]
fn downloading_file() {
    // the relative URL of a compressed diff artifact
    let point = RestorePoint::new(100, 200, "abcd".to_string());
    let url = file_url(1, &point, Some(".zst"));
    assert_eq!(url, "1/100_200_abcd/state.sql_diff.100_200.sql.zst");
    let plain = file_url(1, &point, None);
    assert_eq!(plain, "1/100_200_abcd/state.sql_diff.100_200.sql");
}

#[test]
fn session_tries_the_compressed_artifact_first() {
    let mut session = must_restore(RestoreSession::plan_restore(99, 0, "100,200,abcd", 0));
    // the URLs unlock only once the chain link is checked
    assert!(session.verify_chain("abcd").is_ok());
    assert_eq!(
        session.diff_download_url("http://host", 0, "1.2.3", true),
        "http://host/0/100_200_abcd/state.sql_diff.100_200.sql.zst?version=1.2.3"
    );
    // the plain artifact is the fallback after a failed compressed download
    session.on_compressed_failure();
    assert_eq!(
        session.diff_download_url("http://host", 0, "1.2.3", false),
        "http://host/0/100_200_abcd/state.sql_diff.100_200.sql?version=1.2.3"
    );
}

#[test]
fn endpoint_urls_follow_the_layout() {
    assert_eq!(metadata_url("http://host", 0), "http://host/0/metadata.csv");
    assert_eq!(
        restore_script_url("http://host", 42, "1.2.3"),
        "http://host/42/restore.sql?version=1.2.3"
    );
}
