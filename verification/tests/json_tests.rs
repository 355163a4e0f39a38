use log_ship::event::{render_event_line, Event};
use log_ship::json::{
    obj_contains_key, obj_get, obj_remove, obj_set, parse_json, to_json_bytes, JsonData, JsonNum,
};

fn parse(s: &str) -> JsonData {
    parse_json(s).expect("the text should parse")
}

#[test]
fn parse_and_reserialize() {
    let d = parse(r#"{"a":1,"b":[true,null,"x"],"c":{"d":-2}}"#);
    let bytes = to_json_bytes(&d);
    assert_eq!(
        String::from_utf8(bytes).unwrap(),
        r#"{"a":1,"b":[true,null,"x"],"c":{"d":-2}}"#
    );
}

#[test]
fn string_escapes() {
    let d = JsonData::Str("a\"b\\c\n\t\u{1}".to_string());
    let bytes = to_json_bytes(&d);
    assert_eq!(
        String::from_utf8(bytes).unwrap(),
        "\"a\\\"b\\\\c\\n\\t\\u0001\""
    );
}

#[test]
fn number_forms() {
    let d = parse("9223372036854775807");
    assert!(matches!(d, JsonData::Num(JsonNum::Int(9223372036854775807))));
    // one past i64::MAX still fits u64
    let d = parse("9223372036854775808");
    assert!(matches!(d, JsonData::Num(JsonNum::UInt(9223372036854775808))));
    let d = parse("1.5");
    match d {
        JsonData::Num(JsonNum::Float(t)) => assert_eq!(t, "1.5"),
        _ => panic!("expected float text"),
    }
    assert_eq!(String::from_utf8(to_json_bytes(&parse("-42"))).unwrap(), "-42");
    assert_eq!(String::from_utf8(to_json_bytes(&parse("1.5"))).unwrap(), "1.5");
}

#[test]
fn parse_rejects_bad_text() {
    assert!(parse_json("{nope").is_none());
    assert!(parse_json("").is_none());
    assert!(parse_json(r#"{"a":}"#).is_none());
}

#[test]
fn object_operations() {
    let mut fields: Vec<(String, JsonData)> = vec![
        ("a".to_string(), JsonData::Num(JsonNum::Int(1))),
        ("b".to_string(), JsonData::Bool(true)),
    ];
    assert!(obj_contains_key(&fields, "a"));
    assert!(!obj_contains_key(&fields, "c"));
    assert!(matches!(
        obj_get(&fields, "b"),
        Some(JsonData::Bool(true))
    ));

    // setting an existing key replaces it in place
    obj_set(&mut fields, "a".to_string(), JsonData::Num(JsonNum::Int(2)));
    assert_eq!(fields.len(), 2);
    assert!(matches!(
        obj_get(&fields, "a"),
        Some(JsonData::Num(JsonNum::Int(2)))
    ));

    // setting a fresh key appends
    obj_set(&mut fields, "c".to_string(), JsonData::Null);
    assert_eq!(fields.len(), 3);
    assert_eq!(fields[2].0, "c");

    let removed = obj_remove(&mut fields, "b");
    assert!(matches!(removed, Some(JsonData::Bool(true))));
    assert_eq!(fields.len(), 2);
    assert!(obj_remove(&mut fields, "missing").is_none());
}

#[test]
fn event_lines() {
    assert!(render_event_line(&Event::Boundary).is_none());

    let line = render_event_line(&Event::Raw("plain text".to_string())).unwrap();
    assert_eq!(line, b"plain text\n".to_vec());

    let line = render_event_line(&Event::Json(parse(r#"{"k":"v"}"#))).unwrap();
    assert_eq!(line, b"{\"k\":\"v\"}\n".to_vec());
}
