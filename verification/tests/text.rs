//! The text helpers, held against the standard library on every character.

use cortexd::ids::is_v7;
use cortexd::json::{as_number, as_optional_bool, as_text, read_record, Json, RecordRules};
use cortexd::text::{
    any_control, byte_len, contains_text, decimal_text, hex_text, is_before, is_blank, is_control,
    is_white_space, starts_with, to_ascii_lowercase, truncate_utf8,
};
use cortexd::time::Instant;

#[test]
fn white_space_and_control_agree_with_std_on_every_character() {
    for c in char::MIN..=char::MAX {
        assert_eq!(is_white_space(c), c.is_whitespace(), "{c:?}");
        assert_eq!(is_control(c), c.is_control(), "{c:?}");
    }
}

#[test]
fn texts_are_measured_in_bytes() {
    for text in ["", "a", "é", "日本", "a\u{1F600}b"] {
        assert_eq!(byte_len(text), text.len());
    }
    assert!(is_blank(" \t\u{3000}"));
    assert!(!is_blank(" x "));
    assert!(any_control("a\u{0}b"));
}

#[test]
fn truncation_keeps_whole_characters() {
    assert_eq!(truncate_utf8("héllo", 2), "h");
    assert_eq!(truncate_utf8("héllo", 3), "hé");
    assert_eq!(truncate_utf8("abc", 10), "abc");
    assert_eq!(truncate_utf8("\u{1F600}", 3), "");
}

#[test]
fn texts_are_searched_and_ordered_as_std_does() {
    let samples = ["", "a", "ab", "b", "é", "z", "\u{1F600}", "Tasks/one.md"];
    for a in samples {
        for b in samples {
            assert_eq!(is_before(a, b), a < b);
            assert_eq!(starts_with(a, b), a.starts_with(b));
            assert_eq!(contains_text(a, b), a.contains(b));
        }
        assert_eq!(to_ascii_lowercase(a), a.to_ascii_lowercase());
    }
}

#[test]
fn numbers_and_bytes_are_written_out() {
    for n in [0u64, 9, 10, 4096, u64::MAX] {
        assert_eq!(decimal_text(n), n.to_string());
    }
    assert_eq!(hex_text(&[0, 15, 16, 255]), "000f10ff");
}

#[test]
fn versions_and_instants_are_read_by_their_crates() {
    assert!(is_v7(uuid::Uuid::now_v7().as_u128()));
    assert!(!is_v7(uuid::Uuid::from_u128(1).as_u128()));
    assert_eq!(
        Instant::parse("1970-01-01T00:00:01.5Z"),
        Some(Instant { seconds: 1, nanos: 500_000_000 })
    );
    assert_eq!(Instant::parse("yesterday"), None);
}

#[test]
fn records_are_read_by_their_rules() {
    let member = |name: &str, value: u64| (name.to_owned(), Json::Unsigned(value));
    let strict = RecordRules { refuse_unknown: true, refuse_repeated: true };
    let lenient = RecordRules { refuse_unknown: false, refuse_repeated: false };
    let repeated = Json::Object(vec![member("a", 1), member("b", 2), member("a", 3)]);
    assert!(read_record(&repeated, &vec!["a", "b"], strict).is_none());
    let fields = read_record(&repeated, &vec!["a"], lenient).expect("a record");
    assert_eq!(as_number(fields[0]), Some(3), "the last of a repeated member counts");
    let unknown = Json::Object(vec![member("a", 1), member("c", 2)]);
    assert!(read_record(&unknown, &vec!["a"], strict).is_none());
    assert!(read_record(&Json::Null, &vec!["a"], lenient).is_none());
    let positional = Json::Array(vec![Json::Text("x".to_owned())]);
    let fields = read_record(&positional, &vec!["a"], strict).expect("a record");
    assert_eq!(as_text(fields[0]).as_deref(), Some("x"));
    assert_eq!(as_optional_bool(None), Some(None));
}
