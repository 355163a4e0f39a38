use log_ship::event::Event;
use log_ship::json::{obj_get, parse_json, JsonData, JsonNum};
use log_ship::transforms::{
    insert_field_apply, insert_ts_apply, kv_apply, parse_ts_type, script_argument, script_outcome,
    ScriptArg, TransformOutcome, TsType,
};

fn obj_event(s: &str) -> Event {
    Event::Json(parse_json(s).unwrap())
}

fn expect_fields(outcome: TransformOutcome) -> Vec<(String, JsonData)> {
    match outcome {
        TransformOutcome::Emit(Event::Json(JsonData::Obj(fields))) => fields,
        _ => panic!("expected a structured event out"),
    }
}

/// The field injector without overwrite leaves an existing field alone;
/// with overwrite it replaces it. Other fields are untouched.
#[test]
fn field_injector_overwrite_rule() {
    let value = JsonData::Str("a".to_string());

    let out = expect_fields(insert_field_apply(
        obj_event(r#"{"host":"b","x":1}"#),
        &"host".to_string(),
        &value,
        false,
    ));
    match obj_get(&out, "host") {
        Some(JsonData::Str(s)) => assert_eq!(s, "b"),
        _ => panic!("host should still be b"),
    }
    assert!(matches!(
        obj_get(&out, "x"),
        Some(JsonData::Num(JsonNum::Int(1)))
    ));
    assert_eq!(out.len(), 2);

    let out = expect_fields(insert_field_apply(
        obj_event(r#"{"host":"b","x":1}"#),
        &"host".to_string(),
        &value,
        true,
    ));
    match obj_get(&out, "host") {
        Some(JsonData::Str(s)) => assert_eq!(s, "a"),
        _ => panic!("host should be a"),
    }
    assert!(matches!(
        obj_get(&out, "x"),
        Some(JsonData::Num(JsonNum::Int(1)))
    ));

    // a missing field is added either way
    let out = expect_fields(insert_field_apply(
        obj_event(r#"{"x":1}"#),
        &"host".to_string(),
        &value,
        false,
    ));
    assert!(matches!(obj_get(&out, "host"), Some(JsonData::Str(_))));
}

#[test]
fn field_injector_skips_and_halts() {
    let value = JsonData::Null;
    assert!(matches!(
        insert_field_apply(Event::Boundary, &"f".to_string(), &value, false),
        TransformOutcome::Skip
    ));
    assert!(matches!(
        insert_field_apply(Event::Raw("x".to_string()), &"f".to_string(), &value, false),
        TransformOutcome::Skip
    ));
    // a structured event that is not an object halts the stage
    assert!(matches!(
        insert_field_apply(obj_event("[1,2]"), &"f".to_string(), &value, false),
        TransformOutcome::Halt
    ));
}

#[test]
fn ts_type_names() {
    assert_eq!(parse_ts_type("epoch"), Some(TsType::Epoch));
    assert_eq!(parse_ts_type("EPOCH"), Some(TsType::Epoch));
    assert_eq!(parse_ts_type("Rfc2822"), Some(TsType::Rfc2822));
    assert_eq!(parse_ts_type("rfc3339"), Some(TsType::Rfc3339));
    assert_eq!(parse_ts_type("RFC3339"), Some(TsType::Rfc3339));
    assert_eq!(parse_ts_type("iso8601"), None);
    assert_eq!(parse_ts_type(""), None);
}

#[test]
fn timestamp_injector() {
    let out = expect_fields(insert_ts_apply(
        obj_event(r#"{"x":1}"#),
        &"t".to_string(),
        TsType::Epoch,
        false,
    ));
    match obj_get(&out, "t") {
        Some(JsonData::Num(JsonNum::Int(ms))) => assert!(*ms > 1_000_000_000_000),
        _ => panic!("expected an epoch timestamp"),
    }

    // an existing value survives without overwrite
    let out = expect_fields(insert_ts_apply(
        obj_event(r#"{"t":7}"#),
        &"t".to_string(),
        TsType::Epoch,
        false,
    ));
    assert!(matches!(
        obj_get(&out, "t"),
        Some(JsonData::Num(JsonNum::Int(7)))
    ));

    let out = expect_fields(insert_ts_apply(
        obj_event(r#"{"x":1}"#),
        &"when".to_string(),
        TsType::Rfc3339,
        false,
    ));
    match obj_get(&out, "when") {
        Some(JsonData::Str(s)) => assert!(s.contains('T')),
        _ => panic!("expected timestamp text"),
    }
}

/// The key-value parser takes the source field out and merges its pairs;
/// a colliding key without overwrite lands under `<field>.<key>`.
#[test]
fn kv_parser() {
    let out = expect_fields(kv_apply(
        obj_event(r#"{"msg":"a=1 quoted=\"two words\" bare"}"#),
        &"msg".to_string(),
        false,
    ));
    assert!(obj_get(&out, "msg").is_none());
    match obj_get(&out, "a") {
        Some(JsonData::Str(s)) => assert_eq!(s, "1"),
        _ => panic!("a should be the text 1"),
    }
    match obj_get(&out, "quoted") {
        Some(JsonData::Str(s)) => assert_eq!(s, "two words"),
        _ => panic!("quoted should be unquoted"),
    }
    // a valueless key lands as null
    assert!(matches!(obj_get(&out, "bare"), Some(JsonData::Null)));

    let out = expect_fields(kv_apply(
        obj_event(r#"{"msg":"a=new","a":"old"}"#),
        &"msg".to_string(),
        false,
    ));
    match obj_get(&out, "a") {
        Some(JsonData::Str(s)) => assert_eq!(s, "old"),
        _ => panic!("a should keep its old value"),
    }
    match obj_get(&out, "msg.a") {
        Some(JsonData::Str(s)) => assert_eq!(s, "new"),
        _ => panic!("the colliding key should be prefixed"),
    }

    let out = expect_fields(kv_apply(
        obj_event(r#"{"msg":"a=new","a":"old"}"#),
        &"msg".to_string(),
        true,
    ));
    match obj_get(&out, "a") {
        Some(JsonData::Str(s)) => assert_eq!(s, "new"),
        _ => panic!("overwrite should replace a"),
    }

    // an event without the field passes unchanged
    let out = expect_fields(kv_apply(obj_event(r#"{"x":1}"#), &"msg".to_string(), false));
    assert_eq!(out.len(), 1);
}

#[test]
fn script_mediation() {
    // a boundary is never handed to the script
    assert!(matches!(script_argument(Event::Boundary, true), Ok(None)));

    // matching modes pass through
    match script_argument(Event::Raw("line".to_string()), true) {
        Ok(Some(ScriptArg::Text(t))) => assert_eq!(t, "line"),
        other => panic!("expected the raw text, got {:?}", other),
    }
    match script_argument(obj_event(r#"{"a":1}"#), false) {
        Ok(Some(ScriptArg::Record(fields))) => assert_eq!(fields[0].0, "a"),
        other => panic!("expected the record, got {:?}", other),
    }

    // a structured event in text mode becomes its one-line JSON text
    match script_argument(obj_event(r#"{"a":1}"#), true) {
        Ok(Some(ScriptArg::Text(t))) => assert_eq!(t, r#"{"a":1}"#),
        other => panic!("expected JSON text, got {:?}", other),
    }

    // a raw event in record mode must read as a JSON object
    match script_argument(Event::Raw(r#"{"a":1}"#.to_string()), false) {
        Ok(Some(ScriptArg::Record(fields))) => assert_eq!(fields[0].0, "a"),
        other => panic!("expected the parsed record, got {:?}", other),
    }
    assert!(script_argument(Event::Raw("not json".to_string()), false).is_err());
    assert!(script_argument(obj_event("[1,2]"), false).is_err());

    // the script's return value: none drops the event, a record goes on
    assert!(matches!(script_outcome(None), TransformOutcome::Skip));
    match script_outcome(Some(vec![("k".to_string(), JsonData::Null)])) {
        TransformOutcome::Emit(Event::Json(JsonData::Obj(fields))) => {
            assert_eq!(fields[0].0, "k")
        }
        other => panic!("expected a structured event, got {:?}", other),
    }
}
