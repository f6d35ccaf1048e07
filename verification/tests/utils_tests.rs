use quicksync::progress::ReaderWithBytes;
use quicksync::progress::ReaderWithProgress;
use quicksync::utils::calculate_latest_layer;
use quicksync::utils::extract_number_from_url;
use quicksync::utils::next_backup_name;
use quicksync::utils::version_prefix;

#[test]
fn test_extract_number_valid() {
    let url = "https://quicksync-downloads.spacemesh.network/10/61579.sql.zst";
    assert_eq!(extract_number_from_url(url).unwrap(), 61579);
}

#[test]
fn test_extract_number_invalid() {
    let url = "https://quicksync.spacemesh.network/state.zst";
    assert!(extract_number_from_url(url).is_none());
}

#[test]
fn extract_number_needs_digits_after_a_slash() {
    // the suffix alone is not enough
    assert!(extract_number_from_url("https://host/x.sql.zst").is_none());
    // the digits must directly follow a slash
    assert!(extract_number_from_url("https://host/a10.sql.zst").is_none());
    // a number too large for u64 is no match
    assert!(extract_number_from_url("https://host/99999999999999999999.sql.zst").is_none());
}

#[test]
fn version_prefix_drops_build_metadata() {
    assert_eq!(version_prefix("1.6.5+local"), "1.6.5");
    assert_eq!(version_prefix("1.6.5"), "1.6.5");
    assert_eq!(version_prefix("1.6.5+a+b"), "1.6.5");
    assert_eq!(version_prefix(""), "");
}

#[test]
fn latest_layer_follows_the_clock() {
    // one hour since genesis at five minutes a layer
    assert_eq!(calculate_latest_layer(3_600_000, 0, 300_000), 12);
    // partial layers are truncated
    assert_eq!(calculate_latest_layer(3_599_999, 0, 300_000), 11);
    assert_eq!(calculate_latest_layer(100, 100, 300_000), 0);
}

#[test]
fn backup_names_count_up() {
    assert_eq!(next_backup_name(1), "state.sql.bak.1");
    assert_eq!(next_backup_name(27), "state.sql.bak.27");
}

#[test]
fn byte_reader_reports_every_thousand_megabytes() {
    let mut reader = ReaderWithBytes::new(());
    assert_eq!(reader.record_read(500 * 1024 * 1024), None);
    // one byte past the step: report the total in whole megabytes
    assert_eq!(reader.record_read(500 * 1024 * 1024 + 1), Some(1000));
    // the step starts over from the report
    assert_eq!(reader.record_read(100), None);
}

#[test]
fn percent_reader_reports_each_new_percent() {
    let mut reader = ReaderWithProgress::new((), 200);
    // one byte of two hundred rounds to one percent
    assert_eq!(reader.record_read(1), Some(1));
    // the same percent again is not reported
    assert_eq!(reader.record_read(1), None);
    assert_eq!(reader.record_read(2), Some(2));
    assert_eq!(reader.record_read(196), Some(100));
    assert_eq!(reader.record_read(10), None);
}
