use log_ship::log_value::{round_duration, round_timestamp, LogValue};

#[test]
fn to_type_bytes() {
    let lv = LogValue::Null;
    let (t, b) = lv.to_type_bytes();
    let v = LogValue::from_type_bytes(t, b.as_slice()).unwrap();
    assert_eq!(lv, v);

    let lv = LogValue::Bool(true);
    let (t, b) = lv.to_type_bytes();
    let v = LogValue::from_type_bytes(t, b.as_slice()).unwrap();
    assert_eq!(lv, v);

    let lv = LogValue::Bool(false);
    let (t, b) = lv.to_type_bytes();
    let v = LogValue::from_type_bytes(t, b.as_slice()).unwrap();
    assert_eq!(lv, v);

    let lv = LogValue::Integer(-34567);
    let (t, b) = lv.to_type_bytes();
    let v = LogValue::from_type_bytes(t, b.as_slice()).unwrap();
    assert_eq!(lv, v);

    let lv = LogValue::Float("-1234.5678".to_string());
    let (t, b) = lv.to_type_bytes();
    let v = LogValue::from_type_bytes(t, b.as_slice()).unwrap();
    assert_eq!(lv, v);

    let lv = LogValue::Str("hello world".to_string());
    let (t, b) = lv.to_type_bytes();
    let v = LogValue::from_type_bytes(t, b.as_slice()).unwrap();
    assert_eq!(lv, v);

    // 234567 whole seconds
    let lv = LogValue::TimeStamp(234567 * 1000);
    let (t, b) = lv.to_type_bytes();
    let v = LogValue::from_type_bytes(t, b.as_slice()).unwrap();
    assert_eq!(lv, v);
}

#[test]
fn as_bytes_order() {
    let a_bytes = LogValue::Integer(0x56789i64).as_index_bytes();
    let b_bytes = LogValue::Integer(0x12345i64).as_index_bytes();

    println!("{:?} > {:?}", a_bytes, b_bytes);
    assert!(a_bytes > b_bytes);

    let a_bytes = LogValue::Integer(299445174i64).as_index_bytes();
    let b_bytes = LogValue::Integer(660210456i64).as_index_bytes();

    println!("{:?} < {:?}", a_bytes, b_bytes);
    assert!(a_bytes < b_bytes);
}

#[test]
fn bad_payload_lengths() {
    let (t, _b) = LogValue::Integer(7).to_type_bytes();
    assert!(LogValue::from_type_bytes(t, &[1, 2, 3]).is_err());
    let (t, _b) = LogValue::TimeStamp(7).to_type_bytes();
    assert!(LogValue::from_type_bytes(t, &[]).is_err());
}

#[test]
fn accessors() {
    assert_eq!(LogValue::Bool(true).as_bool(), Some(true));
    assert_eq!(LogValue::Integer(5).as_bool(), None);
    assert_eq!(LogValue::Integer(5).as_int(), Some(5));
    assert_eq!(LogValue::Str("x".to_string()).as_string(), Some("x".to_string()));
    assert_eq!(LogValue::TimeStamp(1500).as_timestamp(), Some(1500));
}

#[test]
fn rounding() {
    // 2 minutes 59.999 seconds rounds down to 2 minutes
    assert_eq!(round_duration(179_999), 120_000);
    assert_eq!(round_duration(120_000), 120_000);
    assert_eq!(
        round_timestamp(LogValue::TimeStamp(179_999)),
        LogValue::TimeStamp(120_000)
    );
}
