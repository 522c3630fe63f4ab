//! The JSON value: lookups, reading text, `$ref` pointers, compact text.

use api2cli::json::JsonValue;
use api2cli::spec::{parse_schema_obj, resolve_ref, SpecLoader};
use api2cli::text::replace_str;

fn to_json(v: &serde_json::Value) -> JsonValue {
    match v {
        serde_json::Value::Null => JsonValue::Null,
        serde_json::Value::Bool(b) => JsonValue::Bool(*b),
        serde_json::Value::Number(n) => JsonValue::Number(n.to_string()),
        serde_json::Value::String(s) => JsonValue::Str(s.clone()),
        serde_json::Value::Array(a) => JsonValue::Array(a.iter().map(to_json).collect()),
        serde_json::Value::Object(m) => {
            JsonValue::Object(m.iter().map(|(k, v)| (k.clone(), to_json(v))).collect())
        }
    }
}

fn doc(text: &str) -> (serde_json::Value, JsonValue) {
    let v: serde_json::Value = serde_json::from_str(text).unwrap();
    let j = to_json(&v);
    (v, j)
}

#[test]
fn schema_defaults_are_compact_text_unquoted() {
    for (text, want) in [
        (r#"{"default": "available"}"#, "available"),
        (r#"{"default": ""}"#, ""),
        (r#"{"default": 10}"#, "10"),
        (r#"{"default": -2.5}"#, "-2.5"),
        (r#"{"default": true}"#, "true"),
        (r#"{"default": null}"#, "null"),
        (r#"{"default": [1, "a"]}"#, r#"[1,"a"]"#),
        (r#"{"default": {"b": 1, "a": [] }}"#, r#"{"a":[],"b":1}"#),
        (r#"{"default": "say \"hi\"\n"}"#, r#"say \"hi\"\n"#),
    ] {
        let (_, j) = doc(text);
        assert_eq!(parse_schema_obj(&j).default.as_deref(), Some(want), "{text}");
    }
}

#[test]
fn documents_read_as_json_else_yaml() {
    let j = SpecLoader::document_of_text(r#"{"openapi": "3.0.0", "n": [1, 2]}"#).unwrap();
    assert_eq!(j.get("openapi").and_then(|v| v.as_str()), Some("3.0.0"));
    assert!(matches!(j.get("n"), Some(JsonValue::Array(a)) if a.len() == 2));
    let y = SpecLoader::document_of_text("swagger: \"2.0\"\ninfo:\n  title: T\n").unwrap();
    assert_eq!(y.get("swagger").and_then(|v| v.as_str()), Some("2.0"));
    assert_eq!(
        y.get("info").and_then(|i| i.get("title")).and_then(|v| v.as_str()),
        Some("T")
    );
    let err = SpecLoader::document_of_text("a: [1\n").unwrap_err();
    assert!(err.starts_with("not valid JSON or YAML: "), "{err}");
}

#[test]
fn get_finds_members_of_objects_only() {
    let (_, j) = doc(r#"{"a":1,"b":"x"}"#);
    assert!(matches!(j.get("a"), Some(JsonValue::Number(n)) if n == "1"));
    assert_eq!(j.get("b").and_then(|v| v.as_str()), Some("x"));
    assert!(j.get("c").is_none());
    let (_, arr) = doc(r#"["a"]"#);
    assert!(arr.get("0").is_none());
    let first = JsonValue::Object(vec![
        ("k".to_string(), JsonValue::Bool(true)),
        ("k".to_string(), JsonValue::Bool(false)),
    ]);
    assert_eq!(first.get("k").and_then(|v| v.as_bool()), Some(true));
}

/// A `$ref` object pointing at `pointer`.
fn reference(pointer: &str) -> JsonValue {
    JsonValue::Object(vec![("$ref".to_string(), JsonValue::Str(pointer.to_string()))])
}

#[test]
fn refs_follow_json_pointers() {
    let (_, j) = doc(r#"{"a":{"b/c":[10,{"d~e":"hit"}]},"":{"":"empty"},"m~1":"lit"}"#);
    let at = |p: &str| resolve_ref(&reference(p), &j);
    assert_eq!(at("#/a/b~1c/1/d~0e").as_ref().and_then(|v| v.as_str()), Some("hit"));
    assert!(matches!(at("#/a/b~1c/0"), Some(JsonValue::Number(n)) if n == "10"));
    assert!(at("#/a/b~1c/01").is_none());
    assert!(at("#/a/b~1c/+1").is_none());
    assert!(at("#/a/b~1c/2").is_none());
    assert!(at("#a").is_none());
    assert!(at("/a").is_none());
    assert_eq!(at("#//").as_ref().and_then(|v| v.as_str()), Some("empty"));
    assert_eq!(at("#/m~01").as_ref().and_then(|v| v.as_str()), Some("lit"));
    assert!(matches!(at("#"), Some(JsonValue::Object(_))));
    assert!(resolve_ref(&JsonValue::Str("x".to_string()), &j).is_none());
}

#[test]
fn replace_str_matches_std_replace() {
    for (s, pat, rep) in [
        ("/pet/{petId}", "{petId}", "7"),
        ("aaa", "aa", "b"),
        ("ab", "", "-"),
        ("", "", "x"),
        ("", "a", "x"),
        ("{a}{a}", "{a}", ""),
    ] {
        assert_eq!(replace_str(s, pat, rep), s.replace(pat, rep), "{s:?} {pat:?}");
    }
}
