use openc3_cosmos_app::version::{is_at_least, is_newer, parse_number, strip_tag, triple};

#[test]
fn version_comparison() {
    assert!(is_newer("0.2.0", "0.1.0"));
    assert!(is_newer("1.0.0", "0.9.9"));
    assert!(is_newer("0.1.1", "0.1.0"));
    assert!(!is_newer("0.1.0", "0.1.0"));
    assert!(!is_newer("0.1.0", "0.2.0"));
    // Prerelease/build suffixes are ignored (we compare the X.Y.Z core).
    assert!(is_newer("0.2.0-rc1", "0.1.0"));
    assert!(!is_at_least("7.3.9", "7.4.0"));
    assert!(is_at_least("7.4.0", "7.4.0"));
    assert!(is_at_least("7.4.1", "7.4.0"));
    assert!(is_at_least("8.0.0", "7.4.0"));
}

#[test]
fn tag_prefix_stripping() {
    assert_eq!(strip_tag("v0.2.0"), "0.2.0");
    assert_eq!(strip_tag("V1.2.3"), "1.2.3");
    assert_eq!(strip_tag("v7.3.0"), "7.3.0");
    assert_eq!(strip_tag("3.4.5"), "3.4.5");
    assert_eq!(strip_tag(""), "");
}

#[test]
fn only_one_prefix_is_stripped() {
    assert_eq!(strip_tag("vv1"), "v1");
    assert_eq!(strip_tag("  v1.2 \n"), "1.2");
    assert_eq!(strip_tag("v"), "");
    assert_eq!(strip_tag("v 1"), " 1");
    assert_eq!(strip_tag("release-1"), "release-1");
}

#[test]
fn triples_of_odd_versions() {
    assert_eq!(triple("1.2.3"), (1, 2, 3));
    assert_eq!(triple("1.2"), (1, 2, 0));
    assert_eq!(triple("7"), (7, 0, 0));
    assert_eq!(triple(""), (0, 0, 0));
    assert_eq!(triple("1.2.3.4"), (1, 2, 3));
    assert_eq!(triple("1. 2 .3"), (1, 2, 3));
    assert_eq!(triple("a.2.c"), (0, 2, 0));
    assert_eq!(triple("1.2.3+build.5"), (1, 2, 3));
    assert_eq!(triple("-1.2.3"), (0, 0, 0));
    assert_eq!(triple("18446744073709551615.1.1"), (u64::MAX, 1, 1));
    assert_eq!(triple("18446744073709551616.1.1"), (0, 1, 1));
    assert_eq!(triple("..3"), (0, 0, 3));
    assert_eq!(triple("٣.1.1"), (0, 1, 1));
}

#[test]
fn numbers_are_read_as_the_standard_library_reads_them() {
    for text in [
        "0", "7", "007", "+5", "+", "-", "-5", "", " 1", "1 ", "1_000", "12a", "++1",
        "18446744073709551615", "18446744073709551616", "99999999999999999999999",
        "000000000000000000000000000001",
    ] {
        assert_eq!(parse_number(text), text.parse::<u64>().ok(), "{text}");
    }
}

#[test]
fn order_of_versions_is_strict() {
    let list = ["0.1.0", "0.1.1-rc2", "0.2", "1.0.0", "1.0.10", "1.2.3+x"];
    for (i, a) in list.iter().enumerate() {
        for (j, b) in list.iter().enumerate() {
            assert_eq!(is_newer(a, b), i > j);
            assert_eq!(is_at_least(a, b), i >= j);
        }
    }
}

#[test]
fn suffix_changes_nothing_in_the_order() {
    assert!(!is_newer("1.2.3-rc1", "1.2.3"));
    assert!(!is_newer("1.2.3", "1.2.3-rc1"));
    assert!(is_at_least("1.2.3-rc1", "1.2.3+build"));
}
