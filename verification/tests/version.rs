use budget_master_9000::version::{current_version, parse_ver, version_is_newer};

#[test]
fn semver_compare() {
    assert!(version_is_newer("1.1.0", "1.0.0"));
    assert!(version_is_newer("v1.2.0", "1.1.9"));
    assert!(!version_is_newer("1.0.0", "1.0.0"));
    assert!(!version_is_newer("1.0.0", "1.1.0"));
}

#[test]
fn parse_ver_reads_major_minor_patch() {
    assert_eq!(parse_ver("1.2.3"), (1, 2, 3));
    assert_eq!(parse_ver("  v10.0.7  "), (10, 0, 7));
    assert_eq!(parse_ver("vv2.5"), (2, 5, 0));
    assert_eq!(parse_ver("1.2.3-beta.4"), (1, 2, 3));
    assert_eq!(parse_ver(""), (0, 0, 0));
    assert_eq!(parse_ver("release"), (0, 0, 0));
    assert_eq!(parse_ver("1..2"), (1, 2, 0));
    assert_eq!(parse_ver("007.08.9"), (7, 8, 9));
}

#[test]
fn parse_ver_reads_oversized_numbers_as_zero() {
    assert_eq!(parse_ver("18446744073709551615.1.2"), (u64::MAX, 1, 2));
    assert_eq!(parse_ver("18446744073709551616.1.2"), (0, 1, 2));
    assert_eq!(parse_ver("1.99999999999999999999999.3"), (1, 0, 3));
}

#[test]
fn newer_is_an_order_on_examples() {
    let vs = ["0.9.9", "1.0.0", "v1.0.1", "1.1", "1.10.0", "2"];
    for (i, a) in vs.iter().enumerate() {
        assert!(!version_is_newer(a, a));
        for (j, b) in vs.iter().enumerate() {
            assert_eq!(version_is_newer(a, b), i > j);
        }
    }
    assert!(!version_is_newer("v1.2.0", "1.2.0"));
    assert!(!version_is_newer("1.2.0", "v1.2.0"));
}

#[test]
fn current_version_is_this_release() {
    assert_eq!(current_version(), "1.2.0");
    assert!(!version_is_newer(&current_version(), "1.2.0"));
}
