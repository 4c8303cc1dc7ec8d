use pkg_install::version::normalize_version;

#[test]
fn upper_case_hash_gets_prefix_and_lower_case() {
    assert_eq!(normalize_version("ABC123"), "version-abc123");
}

#[test]
fn prefixed_upper_case_hash_is_lowered() {
    assert_eq!(normalize_version("version-ABC123"), "version-abc123");
}

#[test]
fn normalizing_twice_changes_nothing() {
    for raw in ["ABC123", "version-ABC123", "Version-9f8E", "", "version-", "x"] {
        let once = normalize_version(raw);
        assert_eq!(normalize_version(&once), once);
    }
}

#[test]
fn canonical_identifier_is_kept() {
    assert_eq!(normalize_version("version-31fc142272764f02"), "version-31fc142272764f02");
}

#[test]
fn mixed_case_prefix_is_not_doubled() {
    assert_eq!(normalize_version("VERSION-Deadbeef"), "version-deadbeef");
}

#[test]
fn non_ascii_capitals_are_lowered() {
    assert_eq!(normalize_version("ÄB"), "version-äb");
    assert_eq!(normalize_version(&normalize_version("ÄB")), "version-äb");
}
