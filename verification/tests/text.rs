//! Text primitives, against what the standard library does.

use webrtc_room::directory::Directory;
use webrtc_room::roster::Roster;
use webrtc_room::scan::{find, is_blank, is_whitespace, parse_port, strip_prefix, trimmed};
use webrtc_room::text::{decimal, hexadecimal, precedes, same, truncated, two_digits};

const SAMPLES: [&str; 12] = [
    "",
    "a",
    "b",
    "ab",
    "abc",
    "  a b ",
    "\u{e9}",
    "\u{e9}a",
    "\u{1f3a4}",
    "\t\n",
    "z",
    "\u{3000}wide\u{a0}",
];

#[test]
fn white_space_is_what_unicode_says() {
    for code in 0..=0x10_ffffu32 {
        if let Some(c) = char::from_u32(code) {
            assert_eq!(is_whitespace(c), c.is_whitespace(), "{code:x}");
        }
    }
}

#[test]
fn trimming_takes_both_ends() {
    for s in SAMPLES {
        assert_eq!(trimmed(s), s.trim());
        assert_eq!(is_blank(s), s.trim().is_empty());
    }
    assert_eq!(trimmed("\r\n \u{2003}x y\u{85}"), "x y");
}

#[test]
fn comparison_is_by_bytes() {
    for a in SAMPLES {
        for b in SAMPLES {
            assert_eq!(same(a, b), a == b);
            assert_eq!(precedes(a, b), a < b);
        }
    }
}

#[test]
fn truncation_counts_characters() {
    assert_eq!(truncated("\u{e9}\u{e9}\u{e9}", 2), "\u{e9}\u{e9}");
    assert_eq!(truncated("ab", 2), "ab");
    assert_eq!(truncated("ab", 0), "");
    assert_eq!(truncated("", 5), "");
}

#[test]
fn numbers_are_written_as_usual() {
    for n in [0, 7, 10, 99, 100, 65535, u64::MAX] {
        assert_eq!(decimal(n), format!("{n}"));
        assert_eq!(hexadecimal(n, 16), format!("{n:016x}"));
    }
    for n in [0, 5, 9, 10, 59, 100] {
        assert_eq!(two_digits(n), format!("{n:02}"));
    }
    assert_eq!(hexadecimal(0xabc, 2), "bc");
    assert_eq!(hexadecimal(1, 0), "");
}

#[test]
fn ports_parse_as_the_standard_library_does() {
    for text in [
        "", "0", "1", "3478", "65535", "65536", "99999999999999999999", "+80", "+", "-", "-0",
        "++1", "1_0", " 1", "1 ", "0080", "\u{661}", "1a", "a1", "99999x",
    ] {
        assert_eq!(parse_port(text), text.parse::<u16>().ok(), "{text:?}");
    }
}

#[test]
fn searching_and_stripping() {
    assert_eq!(find("a;b;c", ';'), 1);
    assert_eq!(find("\u{e9};", ';'), 1);
    assert_eq!(find("abc", ';'), 3);
    assert_eq!(find("", ';'), 0);
    assert_eq!(strip_prefix("name=value", "name="), Some("value"));
    assert_eq!(strip_prefix("name=", "name="), Some(""));
    assert_eq!(strip_prefix("nam", "name="), None);
    assert_eq!(strip_prefix("other=value", "name="), None);
    assert_eq!(strip_prefix("\u{e9}x", "\u{e9}"), Some("x"));
}

#[test]
fn a_directory_replaces_and_lists() {
    let mut directory: Directory<u32> = Directory::new();
    assert_eq!(directory.len(), 0);
    directory.insert("one".to_string(), 1);
    directory.insert("two".to_string(), 2);
    directory.insert("one".to_string(), 11);
    assert_eq!(directory.len(), 2);
    assert_eq!(directory.get("one"), Some(&11));
    assert_eq!(directory.get("three"), None);
    assert!(directory.contains_key("two"));
    assert!(!directory.contains_key("three"));
    if let Some(value) = directory.get_mut("two") {
        *value = 22;
    }
    assert!(directory.get_mut("three").is_none());
    assert_eq!(directory.get("two"), Some(&22));
    let mut keys = directory.keys();
    keys.sort();
    assert_eq!(keys, vec!["one".to_string(), "two".to_string()]);
}

#[test]
fn a_roster_keeps_the_order_of_arrival() {
    let mut roster: Roster<u32> = Roster::new();
    roster.insert("b".to_string(), 1);
    roster.insert("a".to_string(), 2);
    roster.insert("b".to_string(), 3);
    assert_eq!(roster.ids(), vec!["b".to_string(), "a".to_string()]);
    assert_eq!(roster.get("b"), Some(&3));
    if let Some(value) = roster.get_mut("a") {
        *value = 20;
    }
    assert_eq!(roster.remove("a"), Some(20));
    assert_eq!(roster.remove("a"), None);
    assert!(!roster.contains("a"));
    assert!(roster.contains("b"));
    assert_eq!(roster.ids(), vec!["b".to_string()]);
}
