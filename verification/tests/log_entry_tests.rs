use log_ship::config::{default_timestamp_field, ConfigFile, TimestampFormat};
use log_ship::json::parse_json;
use log_ship::log_entry::{LogEntry, LogEntryError};
use log_ship::log_value::LogValue;

fn secs(s: u64) -> u64 {
    // whole seconds as milliseconds
    s * 1000
}

#[test]
fn object_array() {
    let json = r#"{ "t": 1647392005, "stream": "default", "hello": "world", "number": 7, "null": null, "bool": true, "obj": { "key": "value" }, "array": [3, "h", null] }"#;
    let le = LogEntry::try_from(json).expect("Error creating LogEntry");

    assert_eq!(
        secs(1647392005),
        le.get(default_timestamp_field().as_str())
            .expect("Error getting t")
            .as_timestamp()
            .unwrap()
    );
    assert_eq!(
        r#"{"key": "value"}"#,
        le.get("obj").expect("Error getting obj").as_string().unwrap()
    );
    assert_eq!(
        r#"[3,"h",null]"#,
        le.get("array").expect("Error getting array").as_string().unwrap()
    );
}

#[test]
fn timestamp_fields_and_formats() {
    let mut config = ConfigFile::default();

    config.timestamp_field = "time".to_string();
    config.timestamp_format = TimestampFormat::EPOCH;
    let json = r#"{ "time": 1647392005, "t": "hello", "hello": "world", "number": 7, "null": null, "bool": true, "obj": { "key": "value" }, "array": [3, "h", null] }"#;
    let value = parse_json(json).expect("Error parsing JSON");
    let le = LogEntry::from_json(value, &config).expect("Error creating LogEntry");

    assert_eq!(
        secs(1647392005),
        le.get("time").expect("Error getting t").as_timestamp().unwrap()
    );
    assert_eq!(
        "hello",
        le.get("t").expect("Error getting t").as_string().unwrap()
    );

    config.timestamp_field = "ts".to_string();
    config.timestamp_format = TimestampFormat::RFC2822;
    let json = r#"{ "ts": "Tue, 1 Jul 2003 10:52:37 -0400", "t": "hello", "hello": "world", "number": 7, "null": null, "bool": true, "obj": { "key": "value" }, "array": [3, "h", null] }"#;
    let value = parse_json(json).expect("Error parsing JSON");
    let le = LogEntry::from_json(value, &config).expect("Error creating LogEntry");

    assert_eq!(
        secs(1057071157),
        le.get("ts").expect("Error getting t").as_timestamp().unwrap()
    );
    assert_eq!(
        "hello",
        le.get("t").expect("Error getting t").as_string().unwrap()
    );

    config.timestamp_field = "time_stamp".to_string();
    config.timestamp_format = TimestampFormat::RFC3339;
    let json = r#"{ "time_stamp": "1996-12-19T16:39:57-05:00", "t": "hello", "hello": "world", "number": 7, "null": null, "bool": true, "obj": { "key": "value" }, "array": [3, "h", null] }"#;
    let value = parse_json(json).expect("Error parsing JSON");
    let le = LogEntry::from_json(value, &config).expect("Error creating LogEntry");

    assert_eq!(
        secs(851031597),
        le.get("time_stamp")
            .expect("Error getting t")
            .as_timestamp()
            .unwrap()
    );
    assert_eq!(
        "hello",
        le.get("t").expect("Error getting t").as_string().unwrap()
    );
}

#[test]
fn timestamp_units_by_magnitude() {
    // seconds, milliseconds and microseconds are told apart by magnitude
    let le = LogEntry::try_from(r#"{"t": 1647392005}"#).unwrap();
    assert_eq!(le.get("t").unwrap().as_timestamp(), Some(1647392005000));

    let le = LogEntry::try_from(r#"{"t": 1647392005123}"#).unwrap();
    assert_eq!(le.get("t").unwrap().as_timestamp(), Some(1647392005123));

    let le = LogEntry::try_from(r#"{"t": 1647392005123456}"#).unwrap();
    assert_eq!(le.get("t").unwrap().as_timestamp(), Some(1647392005123));

    // a decimal string works too
    let le = LogEntry::try_from(r#"{"t": "1647392005"}"#).unwrap();
    assert_eq!(le.get("t").unwrap().as_timestamp(), Some(1647392005000));
}

#[test]
fn entry_errors() {
    // not JSON at all
    assert!(matches!(
        LogEntry::try_from("{nope"),
        Err(LogEntryError::Json(_))
    ));
    // not an object
    assert!(matches!(
        LogEntry::try_from("[1,2]"),
        Err(LogEntryError::InvalidFormat(_))
    ));
    // no timestamp field
    assert!(matches!(
        LogEntry::try_from(r#"{"x": 1}"#),
        Err(LogEntryError::InvalidFormat(_))
    ));
    // a negative timestamp
    assert!(matches!(
        LogEntry::try_from(r#"{"t": -5}"#),
        Err(LogEntryError::InvalidFormat(_))
    ));
    // a field name with forbidden characters
    assert!(matches!(
        LogEntry::try_from(r#"{"t": 1, "bad name": 2}"#),
        Err(LogEntryError::InvalidFormat(_))
    ));
    // prefixed names are fine
    assert!(LogEntry::try_from(r#"{"t": 1, "+message": "x", "-minus": 2}"#).is_ok());
}

#[test]
fn field_operations() {
    let mut le = LogEntry::with_capacity(4);
    assert!(le.is_empty());
    le.insert("a".to_string(), LogValue::Integer(1));
    le.insert("b".to_string(), LogValue::Bool(true));
    assert_eq!(le.len(), 2);
    assert_eq!(le.get("a"), Some(&LogValue::Integer(1)));
    assert_eq!(le.get("missing"), None);

    let old = le.set("a".to_string(), LogValue::Integer(2));
    assert_eq!(old, Some(LogValue::Integer(1)));
    assert_eq!(le.len(), 2);
    let old = le.set("c".to_string(), LogValue::Null);
    assert_eq!(old, None);
    assert_eq!(le.len(), 3);
}

#[test]
fn trimmed_names() {
    let le = LogEntry::from_iter(vec![
        ("+message".to_string(), LogValue::Str("x".to_string())),
        ("-minus".to_string(), LogValue::Integer(1)),
        ("plain".to_string(), LogValue::Null),
    ]);
    let trimmed = le.trim_fields();
    let names = trimmed.trimmed_fields();
    assert_eq!(names, vec!["message", "minus", "plain"]);
    assert_eq!(trimmed.get("message"), Some(&LogValue::Str("x".to_string())));

    let names = le.trimmed_fields();
    assert_eq!(names, vec!["message", "minus", "plain"]);
}

#[test]
fn entry_equality() {
    let a = LogEntry::from_iter(vec![
        ("x".to_string(), LogValue::Integer(1)),
        ("y".to_string(), LogValue::Bool(true)),
    ]);
    // equal regardless of field order
    let b = LogEntry::from_iter(vec![
        ("y".to_string(), LogValue::Bool(true)),
        ("x".to_string(), LogValue::Integer(1)),
    ]);
    let c = LogEntry::from_iter(vec![("x".to_string(), LogValue::Integer(2))]);
    assert_eq!(a, b);
    assert_ne!(a, c);
}
