//! Ordering tests, including the corpus of weird real-world versions.

use std::cmp::Ordering;
use ufpm::foundry::version::{against_installed, compare, compare_segment, Comparison};

/// Plain numeric versions order numerically, not lexicographically.
#[test]
fn numeric_versions_compare_numerically() {
    assert_eq!(compare("1.9.0", "1.10.0"), Ordering::Less);
    assert_eq!(compare("0.9", "0.10"), Ordering::Less);
    assert_eq!(compare("2.0.0", "2.0.0"), Ordering::Equal);
    assert_eq!(compare("10.0", "9.9"), Ordering::Greater);
}

/// More segments win when the shared prefix is equal.
#[test]
fn longer_versions_win_on_equal_prefix() {
    assert_eq!(compare("1.0", "1.0.0"), Ordering::Less);
    assert_eq!(compare("1.0.0", "1.0"), Ordering::Greater);
}

/// Non-numeric segments fall back to case-insensitive lexicographic.
#[test]
fn weird_real_world_versions_are_total() {
    assert_eq!(compare("V1.0.1", "V1.0.2"), Ordering::Less);
    assert_eq!(compare("v1.1", "V1.1"), Ordering::Equal);
    assert_eq!(compare("1..1", "1.0.1"), Ordering::Less);
    assert_eq!(compare("0.3.a", "0.3.b"), Ordering::Less);
    assert_eq!(compare("3+", "4"), Ordering::Less);
    assert_eq!(compare("2.4b", "2.4b"), Ordering::Equal);
}

/// Identical strings are the same version.
#[test]
fn identical_versions_are_same() {
    assert_eq!(against_installed("5.1.1", "5.1.1"), Comparison::Same);
}

/// A numerically higher available version is an update.
#[test]
fn higher_available_version_is_newer() {
    assert_eq!(against_installed("5.0.0", "5.1.1"), Comparison::Newer);
    assert_eq!(against_installed("V1.0.1", "V1.1"), Comparison::Newer);
    assert_eq!(against_installed("1.0", "1.0.0"), Comparison::Newer);
}

/// Different-but-not-newer versions are flagged as changed, never
/// silently treated as up to date or as an update.
#[test]
fn incomparable_versions_are_changed() {
    assert_eq!(against_installed("2.0.0", "1.9.0"), Comparison::Changed);
    assert_eq!(against_installed("v1.1", "V1.1"), Comparison::Changed);
    assert_eq!(against_installed("2.0-beta.3", "2.0.0"), Comparison::Changed);
}

/// Numbers compare by value however long they are, zeros in front count for
/// nothing, and a leading plus sign belongs to a number.
#[test]
fn huge_segments_compare_numerically() {
    assert_eq!(compare("99999999999999999999", "100000000000000000000"), Ordering::Less);
    assert_eq!(compare("18446744073709551616", "9"), Ordering::Greater);
    assert_eq!(compare("18446744073709551615", "18446744073709551614"), Ordering::Greater);
    assert_eq!(compare("20240101120000000001", "20240101120000000002"), Ordering::Less);
    assert_eq!(compare("00018446744073709551616", "18446744073709551616"), Ordering::Equal);
    assert_eq!(compare_segment("18446744073709551616", "9"), Ordering::Greater);
    assert_eq!(compare("000", "0"), Ordering::Equal);
    assert_eq!(compare("+7", "7"), Ordering::Equal);
    assert_eq!(compare("+", "7"), Ordering::Less);
}

/// A version ranks like itself in lowercase, whatever else it holds.
#[test]
fn case_does_not_matter() {
    for version in ["V1.0-BETA.3", "1.2", "", "..", "\u{391}\u{3a3}.A\u{3a3}", "\u{130}X.İ"] {
        assert_eq!(compare(version, &version.to_ascii_lowercase()), Ordering::Equal, "{version}");
        assert_eq!(compare(&version.to_ascii_lowercase(), version), Ordering::Equal, "{version}");
    }
}

/// An update never goes both ways.
#[test]
fn updates_are_one_way() {
    for (a, b) in [("1.0", "1.1"), ("V1", "v2"), ("1.0.a", "1.0.b"), ("1", "1.0")] {
        assert_eq!(against_installed(a, b), Comparison::Newer);
        assert_eq!(against_installed(b, a), Comparison::Changed);
    }
}
