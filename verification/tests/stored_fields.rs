use klawply::field_map::{comes_before, FieldMap};
use klawply::fields::{load_fields, merge_fields, read_resume, resume_is_blank, save_fields};
use klawply::json::{
    collect_fields, from_value, json_fields, json_string, parse_json, parse_json_bytes,
    value_to_string, Json, Member,
};

fn map(pairs: &[(&str, &str)]) -> FieldMap {
    let mut m = FieldMap::new();
    for (k, v) in pairs {
        m.insert(k.to_string(), v.to_string());
    }
    m
}

fn pairs(m: &FieldMap) -> Vec<(&str, &str)> {
    m.entries().iter().map(|(k, v)| (k.as_str(), v.as_str())).collect()
}

#[test]
fn map_is_ordered_by_name() {
    let m = map(&[("b", "2"), ("a", "1"), ("c", "3"), ("a", "4")]);
    assert_eq!(pairs(&m), [("a", "4"), ("b", "2"), ("c", "3")]);
    assert_eq!(m.keys(), ["a", "b", "c"]);
    assert_eq!(m.len(), 3);
    assert!(!m.is_empty());
    assert_eq!(m.get("b"), Some(&"2".to_string()));
    assert_eq!(m.get("d"), None);
    assert!(FieldMap::new().is_empty());
    assert!(comes_before("ab", "b"));
    assert!(comes_before("a", "ab"));
    assert!(!comes_before("a", "a"));
}

#[test]
fn resume_is_blank_without_text() {
    assert_eq!(read_resume(None), "");
    assert_eq!(read_resume(Some("cv".to_string())), "cv");
    assert!(resume_is_blank(" \n"));
    assert!(!resume_is_blank("cv"));
}

#[test]
fn missing_or_corrupt_fields_are_none() {
    assert!(load_fields(None).is_empty());
    assert!(load_fields(Some("{".to_string())).is_empty());
    assert!(load_fields(Some("[1]".to_string())).is_empty());
    assert!(load_fields(Some("\"x\"".to_string())).is_empty());
}

#[test]
fn values_are_loaded_as_text() {
    let raw = r#"{"n": 3, "s": "x", "t": true, "z": null, "o": {"b": 1, "a": [2]}, "f": 1.50}"#;
    let m = load_fields(Some(raw.to_string()));
    assert_eq!(
        pairs(&m),
        [("f", "1.5"), ("n", "3"), ("o", "{\"a\":[2],\"b\":1}"), ("s", "x"), ("t", "true")]
    );
}

#[test]
fn saved_fields_load_again() {
    let m = map(&[("email", "a@b.c"), ("name", "Ada \"L\"\n…"), ("", "odd")]);
    let s = save_fields(&m).unwrap();
    assert_eq!(pairs(&load_fields(Some(s.clone()))), pairs(&m));
    assert_eq!(
        s,
        "{\n  \"\": \"odd\",\n  \"email\": \"a@b.c\",\n  \"name\": \"Ada \\\"L\\\"\\n…\"\n}"
    );
    assert_eq!(save_fields(&FieldMap::new()).unwrap(), "{}");
}

#[test]
fn updates_win_and_blank_ones_do_not() {
    let raw = save_fields(&map(&[("city", "Oslo"), ("email", "old"), ("phone", "1")])).unwrap();
    let updates = map(&[("city", "  "), ("email", "new"), ("name", "Ada"), ("phone", "1")]);
    let merged = merge_fields(Some(raw), &updates).unwrap();
    assert_eq!(merged.changed, ["email", "name"]);
    let after = load_fields(Some(merged.json));
    assert_eq!(pairs(&after), [("city", "Oslo"), ("email", "new"), ("name", "Ada"), ("phone", "1")]);
}

#[test]
fn merging_again_changes_nothing() {
    let updates = map(&[("email", "new"), ("name", "Ada")]);
    let once = merge_fields(None, &updates).unwrap();
    assert_eq!(once.changed, ["email", "name"]);
    let twice = merge_fields(Some(once.json.clone()), &updates).unwrap();
    assert!(twice.changed.is_empty());
    assert_eq!(twice.json, once.json);
}

#[test]
fn blank_updates_are_no_change() {
    let merged = merge_fields(None, &map(&[("a", ""), ("b", " ")])).unwrap();
    assert!(merged.changed.is_empty());
    assert_eq!(merged.json, "{}");
}

#[test]
fn json_values_are_read() {
    let v = parse_json(r#"{"b": true, "n": -5, "u": 18446744073709551615, "a": ["x", null]}"#).unwrap();
    assert_eq!(v.get("b").and_then(|x| x.as_bool()), Some(true));
    assert_eq!(v.get("n").and_then(|x| x.as_i64()), Some(-5));
    assert_eq!(v.get("u").and_then(|x| x.as_i64()), None);
    let a = v.get("a").and_then(|x| x.as_array()).unwrap();
    assert_eq!(a.len(), 2);
    assert_eq!(a[0].as_str(), Some("x"));
    assert!(matches!(a[1], Json::Null));
    assert!(v.get("missing").is_none());
    assert!(v.text_at("b").is_none());
    assert!(v.as_str().is_none());
    assert!(parse_json("{,}").is_none());
    assert!(parse_json_bytes(b"[1, 2").is_none());
    assert!(parse_json_bytes(b"[1, 2]").is_some());
    assert!(parse_json_bytes(&[0xff]).is_none());
}

#[test]
fn serde_values_are_taken_over() {
    let v = serde_json::Value::from(vec!["a", "b"]);
    let j = from_value(v);
    assert_eq!(j.as_array().unwrap()[1].as_str(), Some("b"));
}

#[test]
fn json_literals_escape_what_they_must() {
    assert_eq!(json_string("a\"b\\c\nd"), r#""a\"b\\c\nd""#);
    assert_eq!(json_string("\u{1}é"), "\"\\u0001é\"");
    let m = map(&[("b", "2"), ("a", "\"")]);
    assert_eq!(json_fields(&m), r#"{"a":"\"","b":"2"}"#);
}

#[test]
fn field_text_of_each_kind_of_value() {
    let member = |value: Json, rendered: &str| Member {
        name: "k".to_string(),
        value,
        rendered: rendered.to_string(),
    };
    assert_eq!(value_to_string(&member(Json::Text("t".into()), "\"t\"")), Some("t".to_string()));
    assert_eq!(
        value_to_string(&member(Json::Number("1.5".into(), None), "1.5")),
        Some("1.5".to_string())
    );
    assert_eq!(value_to_string(&member(Json::Bool(false), "false")), Some("false".to_string()));
    assert_eq!(value_to_string(&member(Json::Null, "null")), None);
    assert_eq!(value_to_string(&member(Json::Array(vec![]), "[]")), Some("[]".to_string()));
    let all = collect_fields(&vec![
        member(Json::Text("first".into()), ""),
        member(Json::Null, ""),
        member(Json::Text("last".into()), ""),
    ]);
    assert_eq!(all.get("k"), Some(&"last".to_string()));
}
