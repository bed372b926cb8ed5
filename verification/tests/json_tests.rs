use iron_nest::json::{
    checkbox_save, editor_kind, json_bytes, member_save, number_save, text_save, EditorKind,
    JsonValue, NumberEditorError,
};

fn from_serde(v: &serde_json::Value) -> JsonValue {
    match v {
        serde_json::Value::Null => JsonValue::Null,
        serde_json::Value::Bool(b) => JsonValue::Bool(*b),
        serde_json::Value::Number(n) => JsonValue::Number(n.to_string()),
        serde_json::Value::String(s) => JsonValue::Str(s.clone()),
        serde_json::Value::Array(a) => JsonValue::Array(a.iter().map(from_serde).collect()),
        serde_json::Value::Object(o) => {
            JsonValue::Object(o.iter().map(|(k, v)| (k.clone(), from_serde(v))).collect())
        }
    }
}

#[test]
fn writes_the_same_bytes_as_serde_json() {
    let texts = [
        "null",
        "true",
        "-12.5",
        "\"line\\nbreak \\\"quoted\\\" é\"",
        "[1,[2,[]],{}]",
        "{\"fish_tank\":{\"light\":{\"blue\":true,\"white\":false},\"pump\":{\"filter\":3}},\"name\":\"tank\"}",
    ];
    for text in texts {
        let value: serde_json::Value = serde_json::from_str(text).unwrap();
        assert_eq!(json_bytes(&from_serde(&value)), serde_json::to_vec(&value).unwrap(), "{text}");
    }
}

#[test]
fn editors_by_value() {
    assert_eq!(editor_kind(&JsonValue::Bool(true)), EditorKind::Checkbox(true));
    assert_eq!(editor_kind(&JsonValue::Str("a".into())), EditorKind::Text);
    assert_eq!(editor_kind(&JsonValue::Number("3".into())), EditorKind::Number);
    assert_eq!(editor_kind(&JsonValue::Object(vec![])), EditorKind::Fields);
    assert_eq!(editor_kind(&JsonValue::Null), EditorKind::Raw);
    assert_eq!(editor_kind(&JsonValue::Array(vec![])), EditorKind::Raw);
}

#[test]
fn simple_editors_save_json() {
    assert_eq!(checkbox_save(true), b"true".to_vec());
    assert_eq!(checkbox_save(false), b"false".to_vec());
    assert_eq!(text_save("say \"hi\""), serde_json::to_vec("say \"hi\"").unwrap());
    assert_eq!(text_save(""), b"\"\"".to_vec());
}

#[test]
fn number_editor_accepts_numbers_only() {
    assert_eq!(number_save(&Some(JsonValue::Number("42".into()))), Ok(b"42".to_vec()));
    assert_eq!(number_save(&Some(JsonValue::Str("42".into()))), Err(NumberEditorError::NotANumber));
    assert_eq!(number_save(&None), Err(NumberEditorError::Unparsable));
}

#[test]
fn member_editor_saves_the_whole_object() {
    let members = || {
        vec![
            ("blue".to_string(), JsonValue::Bool(true)),
            ("white".to_string(), JsonValue::Bool(false)),
        ]
    };
    assert_eq!(member_save(members(), 1, JsonValue::Bool(true)), b"{\"blue\":true,\"white\":true}".to_vec());
    assert_eq!(
        member_save(members(), 0, JsonValue::Str("off".into())),
        b"{\"blue\":\"off\",\"white\":false}".to_vec()
    );
}

#[test]
fn string_escapes() {
    assert_eq!(text_save("a\u{1}\n\t\"\\é\u{7f}"), b"\"a\\u0001\\n\\t\\\"\\\\\xc3\xa9\x7f\"".to_vec());
    assert_eq!(text_save("\u{8}\u{c}\r\u{1f}"), b"\"\\b\\f\\r\\u001f\"".to_vec());
    for s in ["plain", "\u{0}\u{1b}/", "quote \" and \\ back", "日本"] {
        assert_eq!(text_save(s), serde_json::to_vec(s).unwrap(), "{s:?}");
    }
}
