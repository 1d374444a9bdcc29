use update_check::{is_newer_version, parse_version};

#[test]
fn equal_versions_are_not_newer() {
    for v in ["1.0.0", "", "2.0", "v1", "1.x.0", "0", "10.20.30.40", "..", "+3.1"] {
        assert!(!is_newer_version(v, v), "{v:?} compared with itself");
    }
}

#[test]
fn greater_component_decides_both_ways() {
    let ordered = [
        ("1.0.0", "1.0.1"),
        ("1.0.9", "1.1.0"),
        ("1.9.9", "2.0.0"),
        ("1.9.0", "1.10.0"),
        ("2", "2.0.1"),
        ("", "0.0.1"),
        ("0.9", "1"),
    ];
    for (older, newer) in ordered {
        assert!(is_newer_version(newer, older), "{newer:?} over {older:?}");
        assert!(!is_newer_version(older, newer), "{older:?} over {newer:?}");
    }
}

#[test]
fn components_compare_as_numbers() {
    assert!(is_newer_version("1.10.0", "1.9.0"));
    assert!(!is_newer_version("1.9.0", "1.10.0"));
    assert!(is_newer_version("10", "9"));
    assert!(!is_newer_version("1.02", "1.2"));
    assert!(!is_newer_version("1.2", "1.02"));
}

#[test]
fn first_difference_decides() {
    assert!(is_newer_version("2.0.0", "1.9.9"));
    assert!(!is_newer_version("1.9.9", "2.0.0"));
    assert!(is_newer_version("1.2.0", "1.1.9"));
}

#[test]
fn segment_that_is_no_number_counts_as_zero() {
    assert!(!is_newer_version("1.x.0", "1.0.1"));
    assert!(is_newer_version("1.0.1", "1.x.0"));
    assert!(!is_newer_version("1.x.5", "1.0.5"));
    assert!(!is_newer_version("1.0.5", "1.x.5"));
    assert!(is_newer_version("1.1.0", "1.beta.9"));
    assert!(!is_newer_version("abc", "0"));
    assert!(!is_newer_version("0", "abc"));
}

#[test]
fn missing_trailing_segment_counts_as_zero() {
    assert!(!is_newer_version("2.0", "2.0.0"));
    assert!(!is_newer_version("2.0.0", "2.0"));
    assert!(is_newer_version("2.0.1", "2.0"));
    assert!(!is_newer_version("2.0", "2.0.1"));
    assert!(!is_newer_version("2.0.0.0.0", "2"));
}

#[test]
fn trailing_zero_segment_changes_nothing() {
    for (a, b) in [("1.2", "1.1"), ("1.1", "1.2"), ("1.2", "1.2"), ("", "0"), ("3", "")] {
        let longer = format!("{a}.0");
        assert_eq!(is_newer_version(&longer, b), is_newer_version(a, b));
        assert_eq!(is_newer_version(b, &longer), is_newer_version(b, a));
    }
}

#[test]
fn empty_strings() {
    assert!(!is_newer_version("", ""));
    assert!(is_newer_version("1.0.0", ""));
    assert!(!is_newer_version("", "1.0.0"));
    assert!(!is_newer_version("", "0.0.0"));
    assert!(!is_newer_version("0.0.0", ""));
}

#[test]
fn leading_v_is_not_stripped_by_the_comparison() {
    assert!(!is_newer_version("v9.9.9", "1.0.0"));
    assert!(is_newer_version("1.0.0", "v9.9.9"));
    assert!(is_newer_version("v1.2.0", "0.1.9"));
    assert!(!is_newer_version("v1.0.0", "0.1.0"));
    assert_eq!(parse_version("v9.9.9"), vec![0, 9, 9]);
}

#[test]
fn parse_reads_each_segment() {
    assert_eq!(parse_version("1.2.3"), vec![1, 2, 3]);
    assert_eq!(parse_version("10.20.30.40"), vec![10, 20, 30, 40]);
    assert_eq!(parse_version("7"), vec![7]);
    assert_eq!(parse_version("0"), vec![0]);
}

#[test]
fn parse_of_empty_string_has_no_components() {
    assert_eq!(parse_version(""), Vec::<u32>::new());
}

#[test]
fn parse_keeps_the_place_of_a_bad_segment() {
    assert_eq!(parse_version("1.x.0"), vec![1, 0, 0]);
    assert_eq!(parse_version("1..2"), vec![1, 0, 2]);
    assert_eq!(parse_version("1."), vec![1, 0]);
    assert_eq!(parse_version(".1"), vec![0, 1]);
    assert_eq!(parse_version("."), vec![0, 0]);
    assert_eq!(parse_version("1.2-rc1.3"), vec![1, 0, 3]);
}

#[test]
fn parse_accepts_a_plus_sign_and_leading_zeros() {
    assert_eq!(parse_version("+5"), vec![5]);
    assert_eq!(parse_version("1.+2"), vec![1, 2]);
    assert_eq!(parse_version("007"), vec![7]);
    assert_eq!(parse_version("+"), vec![0]);
    assert_eq!(parse_version("++5"), vec![0]);
    assert_eq!(parse_version("5+"), vec![0]);
}

#[test]
fn parse_rejects_signs_spaces_and_other_digits() {
    assert_eq!(parse_version("-1"), vec![0]);
    assert_eq!(parse_version(" 1"), vec![0]);
    assert_eq!(parse_version("1 "), vec![0]);
    assert_eq!(parse_version("1,5"), vec![0]);
    assert_eq!(parse_version("0x10"), vec![0]);
    assert_eq!(parse_version("\u{0661}"), vec![0]);
    assert_eq!(parse_version("\u{ff11}.2"), vec![0, 2]);
    assert_eq!(parse_version("1.\u{e9}.3"), vec![1, 0, 3]);
}

#[test]
fn parse_holds_the_largest_component() {
    assert_eq!(parse_version("4294967295"), vec![4294967295]);
    assert_eq!(parse_version("+4294967295"), vec![4294967295]);
    assert_eq!(parse_version("00004294967295"), vec![4294967295]);
    assert_eq!(parse_version("429496729"), vec![429496729]);
}

#[test]
fn parse_counts_a_number_too_large_as_zero() {
    assert_eq!(parse_version("4294967296"), vec![0]);
    assert_eq!(parse_version("4294967300"), vec![0]);
    assert_eq!(parse_version("42949672950"), vec![0]);
    assert_eq!(parse_version("99999999999999999999999"), vec![0]);
    assert_eq!(parse_version("1.4294967296.2"), vec![1, 0, 2]);
    assert_eq!(parse_version("4294967296x"), vec![0]);
    assert!(!is_newer_version("4294967296", "1"));
    assert!(is_newer_version("4294967295", "4294967294"));
}

#[test]
fn parse_agrees_with_the_standard_integer_parser() {
    let segments = [
        "0", "1", "42", "+42", "-42", "", "+", "-", "a", "1a", "a1", "0000", "4294967295",
        "4294967296", "18446744073709551616", " 7", "7 ", "+-7", "1_000", "\u{0663}",
    ];
    for segment in segments {
        let expected = segment.parse::<u32>().unwrap_or(0);
        let text = format!("3.{segment}.4");
        assert_eq!(parse_version(&text), vec![3, expected, 4], "segment {segment:?}");
    }
}

#[test]
fn unreadable_segment_reads_like_zero() {
    let pairs = [
        ("x", "0"),
        ("1.x", "1.0"),
        ("beta.7", "0.7"),
        ("1.x.3", "1.0.3"),
        ("2..1", "2.0.1"),
        ("2.-1.1", "2.0.1"),
        ("2.4294967296.1", "2.0.1"),
    ];
    let others = ["", "0", "0.7", "1", "1.0.2", "1.0.3", "1.0.4", "2.0.0", "2.0.1", "2.0.2", "3"];
    for (spelled, plain) in pairs {
        assert!(!is_newer_version(spelled, plain));
        assert!(!is_newer_version(plain, spelled));
        for other in others {
            assert_eq!(is_newer_version(spelled, other), is_newer_version(plain, other));
            assert_eq!(is_newer_version(other, spelled), is_newer_version(other, plain));
        }
    }
}

#[test]
fn newer_is_transitive_and_one_sided() {
    let versions = ["", "0.0.1", "0.1", "0.1.0", "0.9", "1", "1.0.1", "1.x.2", "1.2", "1.10", "2"];
    for a in versions {
        for b in versions {
            assert!(!(is_newer_version(a, b) && is_newer_version(b, a)));
            for c in versions {
                if is_newer_version(a, b) && is_newer_version(b, c) {
                    assert!(is_newer_version(a, c), "{a:?} > {b:?} > {c:?}");
                }
            }
        }
    }
}

#[test]
fn versions_that_differ_are_ordered() {
    let versions = ["", "0.0.1", "0.1", "0.9", "1", "1.0.1", "1.2", "1.10", "2"];
    for (i, a) in versions.iter().enumerate() {
        for (j, b) in versions.iter().enumerate() {
            assert_eq!(is_newer_version(a, b), i > j, "{a:?} over {b:?}");
        }
    }
}
