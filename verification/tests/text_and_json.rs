use auto_cursor::json::{JsonMember, JsonNumber, JsonValue, merge_json_value};
use auto_cursor::numbers::{hex_text, i64_text, parse_u32, parse_usize, u64_text};
use auto_cursor::text::{
    contains, ends_with, extract_digits, first_piece, last_piece, safe_truncate_string,
    second_piece, split_char, starts_with, trim,
};

fn to_value(v: &serde_json::Value) -> JsonValue {
    match v {
        serde_json::Value::Null => JsonValue::Null,
        serde_json::Value::Bool(b) => JsonValue::Bool(*b),
        serde_json::Value::Number(n) => JsonValue::Number(JsonNumber {
            as_i64: n.as_i64(),
            as_u64: n.as_u64(),
            text: n.to_string(),
        }),
        serde_json::Value::String(s) => JsonValue::Str(s.clone()),
        serde_json::Value::Array(a) => JsonValue::Array(a.iter().map(to_value).collect()),
        serde_json::Value::Object(m) => JsonValue::Object(
            m.iter()
                .map(|(k, v)| JsonMember { key: k.clone(), value: to_value(v) })
                .collect(),
        ),
    }
}

fn json(text: &str) -> JsonValue {
    to_value(&serde_json::from_str::<serde_json::Value>(text).unwrap())
}

fn to_serde(v: &JsonValue) -> serde_json::Value {
    match v {
        JsonValue::Null => serde_json::Value::Null,
        JsonValue::Bool(b) => serde_json::Value::Bool(*b),
        JsonValue::Number(n) => serde_json::from_str(&n.text).unwrap(),
        JsonValue::Str(s) => serde_json::Value::String(s.clone()),
        JsonValue::Array(a) => serde_json::Value::Array(a.iter().map(to_serde).collect()),
        JsonValue::Object(m) => {
            let mut map = serde_json::Map::new();
            for member in m {
                map.insert(member.key.clone(), to_serde(&member.value));
            }
            serde_json::Value::Object(map)
        }
    }
}

#[test]
fn truncation_counts_characters() {
    assert_eq!(safe_truncate_string("你好世界", 2), "你好...");
    assert_eq!(safe_truncate_string("abc", 3), "abc");
    assert_eq!(safe_truncate_string("", 0), "");
}

#[test]
fn trimming_and_pieces() {
    assert_eq!(trim("  a b \n"), "a b");
    assert_eq!(first_piece("user@example.com", '@'), "user");
    assert_eq!(last_piece("/home/me/project", '/'), "project");
    assert_eq!(last_piece("no-slash", '/'), "no-slash");
    assert_eq!(second_piece("a::b::c", "::"), Some("b".to_string()));
    assert_eq!(second_piece("abc", "::"), None);
    assert_eq!(split_char("a,,b", ','), vec!["a".to_string(), "".to_string(), "b".to_string()]);
}

#[test]
fn searching_text() {
    assert!(contains("hello world", "o w"));
    assert!(!contains("hello", "world"));
    assert!(starts_with("cursor_backup_x", "cursor_backup_"));
    assert!(ends_with("a.tar.gz", ".tar.gz"));
    assert_eq!(extract_digits("+86 138-0013-8000"), "8613800138000");
}

#[test]
fn numbers_in_text() {
    assert_eq!(u64_text(0), "0");
    assert_eq!(u64_text(18446744073709551615), "18446744073709551615");
    assert_eq!(i64_text(-9223372036854775808), "-9223372036854775808");
    assert_eq!(hex_text(255), "ff");
    assert_eq!(parse_usize("+42"), Some(42));
    assert_eq!(parse_usize(""), None);
    assert_eq!(parse_usize("4x"), None);
    assert_eq!(parse_u32("4294967296"), None);
}

#[test]
fn json_lookup_and_edit() {
    let mut v = json(r#"{"a": 1, "b": "x", "c": [true]}"#);
    assert_eq!(v.get_i64("a"), Some(1));
    assert_eq!(v.get_str("b"), Some("x".to_string()));
    assert_eq!(v.get_array("c").map(|a| a.len()), Some(1));
    assert_eq!(v.get_str("a"), None);
    v.insert("b".to_string(), JsonValue::Bool(false));
    assert_eq!(v.get_bool("b"), Some(false));
    assert!(v.remove("a"));
    assert!(!v.remove("a"));
    assert_eq!(to_serde(&v), serde_json::from_str::<serde_json::Value>(r#"{"b": false, "c": [true]}"#).unwrap());
}

#[test]
fn merge_adds_and_replaces_members() {
    let mut target = json(r#"{"a": {"x": 1, "y": 2}, "b": 3}"#);
    let patch = json(r#"{"a": {"y": 5, "z": 6}, "c": null}"#);
    merge_json_value(&mut target, &patch);
    assert_eq!(
        to_serde(&target),
        serde_json::from_str::<serde_json::Value>(r#"{"a": {"x": 1, "y": 5, "z": 6}, "b": 3, "c": null}"#).unwrap()
    );
}

#[test]
fn merging_twice_changes_nothing_more() {
    let mut target = json(r#"{"a": {"x": 1}, "list": [1, 2]}"#);
    let patch = json(r#"{"a": {"x": 2, "w": [3]}, "list": [9]}"#);
    merge_json_value(&mut target, &patch);
    let once = to_serde(&target);
    merge_json_value(&mut target, &patch);
    assert_eq!(to_serde(&target), once);
}

#[test]
fn merging_a_non_object_replaces_the_target() {
    let mut target = json(r#"{"a": 1}"#);
    merge_json_value(&mut target, &json("[1, 2]"));
    assert_eq!(to_serde(&target), serde_json::from_str::<serde_json::Value>("[1, 2]").unwrap());
}
