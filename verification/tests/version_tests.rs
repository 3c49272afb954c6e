use noraneko_winupdater::updater::Updater;
use noraneko_winupdater::version::parse_version;

#[test]
fn test_is_newer_version() {
    let cases = vec![
        ("1.0.0", "1.0.1", true),
        ("1.0.0", "1.0.0", false),
        ("", "1.0.0", true),
        ("0.0.0", "1.0.0", true),
        ("v1.0.0", "v1.0.1", true),
        ("v1.0.0", "1.0.1", true),
        ("1.0.0", "1.1.0", true),
        ("1.1.0", "1.0.1", false),
        ("1.0.0", "2.0.0", true),
        ("2.0.0", "1.9.9", false),
        ("1.0.0-beta", "1.0.0", false),
        ("1.10.0", "1.9.0", false),
        ("1.2.3", "1.2.4", true),
        ("1.2.4", "1.2.3", false),
    ];

    for (current, latest, expected) in cases {
        assert_eq!(Updater::is_newer_version(current, latest), expected);
    }
}

#[test]
fn test_is_newer_version_numeric_not_lexical() {
    assert!(Updater::is_newer_version("1.9.9", "2.0.0"));
    assert!(!Updater::is_newer_version("2.0.0", "1.9.9"));
    assert!(!Updater::is_newer_version("1.10.0", "1.9.0"));
    assert!(Updater::is_newer_version("1.9.0", "1.10.0"));
}

#[test]
fn test_is_newer_version_suffix_ignored() {
    assert!(!Updater::is_newer_version("1.0.0-beta", "1.0.0"));
    assert!(!Updater::is_newer_version("1.0.0", "1.0.0-beta"));
    assert!(!Updater::is_newer_version("1.0.0+build5", "1.0.0"));
}

#[test]
fn test_is_newer_version_unknown_current() {
    assert!(Updater::is_newer_version("", ""));
    assert!(Updater::is_newer_version("0.0.0", "0.0.0"));
    assert!(Updater::is_newer_version("v0.0.0", "0.0.1"));
    assert!(Updater::is_newer_version("", "anything"));
}

#[test]
fn test_parse_version_plain() {
    assert_eq!(parse_version("1.2.3"), vec![1, 2, 3]);
    assert_eq!(Updater::parse_version("1.2.3"), vec![1, 2, 3]);
}

#[test]
fn test_parse_version_suffix_and_partial_segments() {
    assert_eq!(parse_version("1.2.3-beta.4"), vec![1, 2, 3]);
    assert_eq!(parse_version("1.2rc.3"), vec![1, 2, 3]);
    assert_eq!(parse_version("1..3"), vec![1, 3]);
    assert_eq!(parse_version("abc"), Vec::<u32>::new());
    assert_eq!(parse_version(""), Vec::<u32>::new());
    assert_eq!(parse_version("007.8"), vec![7, 8]);
}

#[test]
fn test_parse_version_oversized_segment_dropped() {
    assert_eq!(parse_version("1.99999999999999999999.2"), vec![1, 2]);
    assert_eq!(parse_version("4294967295.4294967296"), vec![4294967295]);
}

#[test]
fn test_is_newer_version_missing_positions_are_zero() {
    assert!(!Updater::is_newer_version("1.2", "1.2.0"));
    assert!(!Updater::is_newer_version("1.2.0", "1.2"));
    assert!(Updater::is_newer_version("1.2", "1.2.1"));
}
