use quicksync::errors::SyncError;
use quicksync::manifest::find_restore_points;
use quicksync::manifest::RestorePoint;
use quicksync::restore::layer_from;
use quicksync::restore::RestoreSession;

#[test]
fn restore_points_dont_have_missing_data() {
    let metadata = r#"
    100,200,bbbb
    200,300,ijkl
    "#;
    // 90-100 are not available for restore
    let result = find_restore_points(90, metadata, 0).unwrap();
    assert!(result.is_empty());
}

#[test]
fn finding_restore_points() {
    let points = [
        RestorePoint::new(0, 100, "aaaa".to_string()),
        RestorePoint::new(100, 200, "bbbb".to_string()),
        RestorePoint::new(200, 300, "ijkl".to_string()),
    ];
    let metadata = &points
        .iter()
        .map(|p| p.to_line())
        .collect::<Vec<_>>()
        .join("\n");

    let result = find_restore_points(99, metadata, 0).unwrap();
    assert_eq!(result, points);

    let result = find_restore_points(100, metadata, 0).unwrap();
    assert_eq!(result, points[1..]);

    let result = find_restore_points(101, metadata, 0).unwrap();
    assert_eq!(result, points[1..]);

    let result = find_restore_points(101, metadata, 1).unwrap();
    assert_eq!(result, points);

    let result = find_restore_points(150, metadata, 0).unwrap();
    assert_eq!(result, points[1..]);

    let result = find_restore_points(150, metadata, 1).unwrap();
    assert_eq!(result, points);

    // `jump_back` over the first point
    let result = find_restore_points(150, metadata, 5).unwrap();
    assert_eq!(result, points);

    let result = find_restore_points(300, metadata, 0).unwrap();
    assert!(result.is_empty());

    // synced but jumping back 1
    let result = find_restore_points(300, metadata, 1).unwrap();
    assert_eq!(result, points[2..]);

    // synced but jumping back 1
    let result = find_restore_points(300, metadata, 2).unwrap();
    assert_eq!(result, points[1..]);

    let result = find_restore_points(500, metadata, 1).unwrap();
    assert_eq!(result, points[2..]);
}

#[test]
fn malformed_manifest_is_an_error() {
    assert_eq!(
        find_restore_points(0, "bogus", 0),
        Err(SyncError::ManifestParse)
    );
    // a hash shorter than the four characters the chain check needs
    assert_eq!(
        find_restore_points(0, "0,100,abc", 0),
        Err(SyncError::ManifestParse)
    );
    // a missing field
    assert_eq!(
        find_restore_points(0, "0,100", 0),
        Err(SyncError::ManifestParse)
    );
    // a layer number that is not a number
    assert_eq!(
        find_restore_points(0, "x,100,aaaa", 0),
        Err(SyncError::ManifestParse)
    );
    // a layer number that does not fit u32
    assert_eq!(
        find_restore_points(0, "0,5000000000,aaaa", 0),
        Err(SyncError::ManifestParse)
    );
}

#[test]
fn empty_and_blank_manifests_parse_to_nothing() {
    assert_eq!(find_restore_points(0, "", 0), Ok(vec![]));
    assert_eq!(find_restore_points(0, "\n  \n\t\n", 5), Ok(vec![]));
}

#[test]
fn windows_line_endings_are_tolerated() {
    let result = find_restore_points(0, "0,100,aaaa\r\n100,200,bbbb\r\n", 0).unwrap();
    assert_eq!(
        result,
        [
            RestorePoint::new(0, 100, "aaaa".to_string()),
            RestorePoint::new(100, 200, "bbbb".to_string()),
        ]
    );
}

#[test]
fn hash_may_contain_commas() {
    // everything after the second comma belongs to the hash
    let result = find_restore_points(0, "0,100,aa,bb", 0).unwrap();
    assert_eq!(result, [RestorePoint::new(0, 100, "aa,bb".to_string())]);
}

#[test]
fn leading_zeros_are_tolerated() {
    let result = find_restore_points(5, "000,0100,aaaa", 0).unwrap();
    assert_eq!(result, [RestorePoint::new(0, 100, "aaaa".to_string())]);
}

#[test]
fn to_line_round_trip() {
    let p = RestorePoint::new(100, 200, "bbbb".to_string());
    assert_eq!(p.to_line(), "100,200,bbbb");
    let parsed = find_restore_points(100, &p.to_line(), 0).unwrap();
    assert_eq!(parsed, [p]);
}

#[test]
fn layer_from_applies_untrusted_margin() {
    // latest committed layer 99 with a margin of 10 distrusted layers
    assert_eq!(layer_from(99, 10), 90);
    // the margin clamps at the genesis layer
    assert_eq!(layer_from(3, 10), 0);
    assert_eq!(layer_from(99, 0), 100);
}

#[test]
fn plan_reports_too_old_when_margin_falls_before_coverage() {
    // local database at layer 99, distrusting the last 10 layers, must
    // re-fetch from layer 90 -- which the manifest does not cover
    let err = RestoreSession::plan_restore(99, 10, "100,200,bbbb\n200,300,ijkl", 0).unwrap_err();
    assert_eq!(err, SyncError::NoRestorePoints);
    assert_eq!(
        err.message(),
        "No suitable restore points found, seems that state.sql is too old"
    );
}
