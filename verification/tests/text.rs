//! Tests for strings, sorting and paths.

use ufpm::order::sort;
use ufpm::{paths, text};

/// Decimal notation, both ways.
#[test]
fn numbers_and_texts() {
    assert_eq!(text::number_text(0), "0");
    assert_eq!(text::number_text(u64::MAX), "18446744073709551615");
    assert_eq!(text::count_text(42), "42");
    let digits = |text: &str| text::significant_digits(text).map(String::from_iter);
    assert_eq!(digits("18446744073709551616").as_deref(), Some("18446744073709551616"));
    assert_eq!(digits("+0012").as_deref(), Some("12"));
    assert_eq!(digits("00").as_deref(), Some(""));
    assert_eq!(digits("-1"), None);
    assert_eq!(digits(""), None);
    assert_eq!(digits("+"), None);
    assert_eq!(digits("1x"), None);
}

/// Splitting keeps empty pieces, joining undoes it.
#[test]
fn splitting_and_joining() {
    assert_eq!(text::split("1..2", '.'), ["1", "", "2"]);
    assert_eq!(text::split("", '.'), [""]);
    assert_eq!(text::split_at_either("a/b\\c", '/', '\\'), ["a", "b", "c"]);
    let pieces = text::split("a,b,,c", ',');
    assert_eq!(text::join(&pieces, ","), "a,b,,c");
    assert_eq!(text::join(&Vec::new(), ","), "");
}

/// Padding and trimming count characters, and know Unicode white space.
#[test]
fn padding_and_trimming() {
    assert_eq!(text::pad_end("é", 3), "é  ");
    assert_eq!(text::pad_end("long", 2), "long");
    assert_eq!(text::trim_end("a \t\u{3000}"), "a");
    assert_eq!(text::trim_end("  "), "");
}

/// White space is what Unicode lists as such, and nothing else.
#[test]
fn white_space_is_listed_in_full() {
    let white = [
        0x9, 0xa, 0xb, 0xc, 0xd, 0x20, 0x85, 0xa0, 0x1680, 0x2000, 0x2001, 0x2002, 0x2003, 0x2004,
        0x2005, 0x2006, 0x2007, 0x2008, 0x2009, 0x200a, 0x2028, 0x2029, 0x202f, 0x205f, 0x3000,
    ];
    for c in '\0'..=char::MAX {
        let trimmed = text::trim_end(&c.to_string());
        assert_eq!(trimmed.is_empty(), white.contains(&u32::from(c)), "{c:?}");
    }
}

/// Substrings, anywhere and empty.
#[test]
fn substrings() {
    assert!(text::contains("dice so nice", "so"));
    assert!(text::contains("abc", ""));
    assert!(!text::contains("abc", "abcd"));
    assert!(!text::contains("abc", "ac"));
}

/// Lists that hold each text once.
#[test]
fn merging_lists() {
    let mut list = vec!["b".to_owned()];
    text::merge(&mut list, vec!["a".to_owned(), "b".to_owned(), "a".to_owned()]);
    assert_eq!(list, ["b", "a"]);
}

/// Sorting goes by code points.
#[test]
fn sorting_strings() {
    let unsorted = vec!["b".to_owned(), "B".to_owned(), "a".to_owned(), String::new(), "aa".to_owned()];
    assert_eq!(sort(unsorted), ["", "B", "a", "aa", "b"]);
}

/// Paths are joined with one separator; absolute parts stand for themselves.
#[test]
fn joining_paths() {
    assert_eq!(paths::join("/a", "b"), "/a/b");
    assert_eq!(paths::join("/a/", "b"), "/a/b");
    assert_eq!(paths::join("", "b"), "b");
    assert_eq!(paths::join("/a", "/b"), "/b");
    assert_eq!(paths::join_all("/a", &vec!["b".to_owned(), "c".to_owned()]), "/a/b/c");
    assert_eq!(paths::directory("/a/b.zip"), "/a");
    assert_eq!(paths::directory("/b.zip"), "/");
    assert_eq!(paths::directory("b.zip"), "");
    for path in ["a//b", "a/b", "a/./b", "a/.//b", "a/b/", "a/b/.", "a", "./b", ".", "..", "../b", "/a", "//a", "/./a", "//a//b", "a/..", "a/../b", "a.", "a/b.", "x/.a"] {
        let parent = std::path::Path::new(path).parent().unwrap();
        assert_eq!(paths::directory(path), parent.to_str().unwrap(), "{path}");
    }
    assert_eq!(paths::name("/a/b.zip"), "b.zip");
    assert_eq!(paths::name("b"), "b");
    assert_eq!(paths::name("/a/"), "");
}
