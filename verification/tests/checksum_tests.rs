use quicksync::checksum::checksum_of_bytes;
use quicksync::checksum::checksum_of_chunks;
use quicksync::checksum::digests_match;
use quicksync::checksum::get_link_to_archive_md5;
use quicksync::checksum::get_link_to_db_md5;
use quicksync::checksum::ChecksumState;
use quicksync::hexfmt::hex_encode;
use quicksync::strip_trailing_newline;

#[test]
fn checksum_matches_known_md5_vectors() {
    assert_eq!(checksum_of_bytes(b""), "d41d8cd98f00b204e9800998ecf8427e");
    assert_eq!(checksum_of_bytes(b"abc"), "900150983cd24fb0d6963f7d28e17f72");
    assert_eq!(
        checksum_of_bytes(b"abcdefghijklmnopqrstuvwxyz"),
        "c3fcd3d76192e4007dfb496cca67e13b"
    );
}

#[test]
fn checksum_is_independent_of_chunking() {
    let whole = checksum_of_bytes(b"hello world");

    let mut state = ChecksumState::new();
    state.update(b"hello");
    state.update(b" ");
    state.update(b"world");
    assert_eq!(state.finalize(), whole);

    let chunks: Vec<Vec<u8>> = vec![b"hel".to_vec(), b"lo world".to_vec()];
    assert_eq!(checksum_of_chunks(&chunks), whole);

    let one: Vec<Vec<u8>> = vec![b"hello world".to_vec()];
    assert_eq!(checksum_of_chunks(&one), whole);
}

#[test]
fn digest_comparison_ignores_hex_case() {
    assert!(digests_match(
        "900150983cd24fb0d6963f7d28e17f72",
        "900150983CD24FB0D6963F7D28E17F72"
    ));
    assert!(digests_match("aabb", "aabb"));
}

#[test]
fn digest_mismatch_is_false_not_an_error() {
    // two well-formed digests that differ: a plain false
    assert!(!digests_match(
        "900150983cd24fb0d6963f7d28e17f72",
        "d41d8cd98f00b204e9800998ecf8427e"
    ));
    assert!(!digests_match("aabb", "aab"));
}

#[test]
fn hex_encoding_is_lower_case_two_digits_per_byte() {
    assert_eq!(hex_encode(&[0xAA, 0xBB]), "aabb");
    assert_eq!(hex_encode(&[0x00, 0x0f, 0xf0]), "000ff0");
    assert_eq!(hex_encode(&[]), "");
}

#[test]
fn checksum_links_are_derived_from_archive_urls() {
    assert_eq!(
        get_link_to_db_md5("https://host/path/state.sql.zst").as_deref(),
        Some("https://host/path/state.sql.md5")
    );
    assert_eq!(
        get_link_to_db_md5("https://host/path/state.sql.zip").as_deref(),
        Some("https://host/path/state.sql.md5")
    );
    assert_eq!(get_link_to_db_md5("https://host/path/state.tar"), None);
    assert_eq!(
        get_link_to_archive_md5("https://host/state.zst"),
        "https://host/state.zst.md5"
    );
}

#[test]
fn one_trailing_newline_is_stripped_from_checksum_bodies() {
    assert_eq!(strip_trailing_newline("aabbccdd\n"), "aabbccdd");
    // a trailing "\r\n" counts as one newline
    assert_eq!(strip_trailing_newline("aabbccdd\r\n"), "aabbccdd");
    // exactly one newline goes, never more
    assert_eq!(strip_trailing_newline("aabbccdd\n\n"), "aabbccdd\n");
    // other trailing whitespace stays
    assert_eq!(strip_trailing_newline("aabbccdd \t\n"), "aabbccdd \t");
    assert_eq!(strip_trailing_newline("aabbccdd "), "aabbccdd ");
    assert_eq!(strip_trailing_newline("aabbccdd"), "aabbccdd");
    assert_eq!(strip_trailing_newline(""), "");
}
