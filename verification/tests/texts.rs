use nocturned::json::Json;
use nocturned::table::{TextMap, TextSet};
use nocturned::text::{
    contains, decimal_text, ends_with, joined, padded_text, parse_u32, remove_all, same,
    same_ignoring_case, starts_with, to_uppercase, trim, trim_leading, trim_trailing,
};

#[test]
fn texts_are_compared_as_the_standard_library_does() {
    let samples = ["", "a", "ab", "ba", "aab", "äb", "aAbB", " a b ", "•", "a•b"];
    for a in samples {
        for b in samples {
            assert_eq!(same(a, b), a == b);
            assert_eq!(starts_with(a, b), a.starts_with(b));
            assert_eq!(ends_with(a, b), a.ends_with(b));
            assert_eq!(contains(a, b), a.contains(b));
            assert_eq!(joined(a, b), format!("{a}{b}"));
            if !b.is_empty() {
                assert_eq!(remove_all(a, b), a.replace(b, ""));
                assert_eq!(trim_trailing(a, b), a.trim_end_matches(b));
            }
            assert_eq!(same_ignoring_case(a, b), a.eq_ignore_ascii_case(b));
        }
        assert_eq!(to_uppercase(a), a.to_ascii_uppercase());
        assert_eq!(trim_leading(a, 'a'), a.trim_start_matches('a'));
    }
}

#[test]
fn white_space_is_trimmed_as_the_standard_library_does() {
    for code in 0..=0x10FFFFu32 {
        if let Some(c) = char::from_u32(code) {
            let s = format!("{c}x{c}");
            assert_eq!(trim(&s), s.trim());
        }
    }
    assert_eq!(trim(" \t\n"), "");
}

#[test]
fn numbers_are_written_and_read() {
    for n in [0u64, 9, 10, 99, 100, 4294967295, 4294967296, u64::MAX] {
        assert_eq!(decimal_text(n), n.to_string());
        assert_eq!(padded_text(n, 6), format!("{n:06}"));
    }
    for s in ["", "0", "007", "+7", "-7", "+", "4294967295", "4294967296", "1a", " 1"] {
        assert_eq!(parse_u32(s), s.parse::<u32>().ok());
    }
}

#[test]
fn tables_keep_one_value_for_each_text() {
    let mut map: TextMap<u32> = TextMap::new();
    assert!(map.get("a").is_none());
    map.insert("a".to_string(), 1);
    map.insert("b".to_string(), 2);
    map.insert("a".to_string(), 3);
    assert_eq!(map.get("a"), Some(&3));
    *map.get_mut("b").unwrap() = 5;
    assert_eq!(map.remove("b"), Some(5));
    assert_eq!(map.remove("b"), None);
    assert_eq!(map.keys(), vec!["a".to_string()]);
    let mut set = TextSet::new();
    set.insert("x".to_string());
    set.insert("x".to_string());
    assert!(set.contains("x"));
    assert!(!set.remove("y"));
    assert_eq!(set.drain(), vec!["x".to_string()]);
    assert!(!set.contains("x"));
}

#[test]
fn members_are_set_and_found() {
    let mut doc = Json::table().and("a", Json::unsigned(1));
    doc.set("b", Json::text("x"));
    doc.set("a", Json::signed(-2));
    assert_eq!(doc.get_i64("a"), Some(-2));
    assert_eq!(doc.get_u64("a"), None);
    assert_eq!(doc.get_str("b"), Some("x"));
    assert!(doc.get("c").is_none());
    let mut null = Json::Null;
    null.set("k", Json::Bool(true));
    assert_eq!(null.get_bool("k"), Some(true));
    assert_eq!(Json::signed(3).as_u64(), Some(3));
}
