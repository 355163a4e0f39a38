use log_ship::event::Event;
use log_ship::json::{JsonData, JsonNum};
use log_ship::syslog::{fortinet_apply, parse_syslog, parse_syslog_message};
use log_ship::transforms::TransformOutcome;

fn get<'a>(fields: &'a [(String, JsonData)], key: &str) -> Option<&'a JsonData> {
    fields.iter().find(|(k, _)| k == key).map(|(_, v)| v)
}

const FORTINET_LINE: &str = r#"<190>date=2023-07-07 time=14:02:12 devname=FGT60D4Q16025343 devid=FGT60D4Q16025343 logid=1059028704 type=utm subtype=app-ctrl eventtype=app-ctrl-all level=information vd="root" appid=15895 user="" srcip=192.168.1.110 srcport=38348 srcintf="internal" dstip=74.6.231.19 dstport=443 dstintf="wan1" proto=6 service="HTTPS" policyid=1 sessionid=962 applist="default" appcat="Network.Service" app="SSL" action=pass hostname="www.yahoo.com" url="/" msg="Network.Service: SSL," apprisk=elevated"#;

#[test]
fn syslog_test() {
    let map = parse_syslog(FORTINET_LINE, "t");
    println!("{:?}", map);
    // the plain syslog reading of this line yields at least a timestamp
    assert!(get(&map, "t").is_some());
}

/// The firewall-log parser on the sample line: a timestamp under `t`, and
/// the `key=value` pairs as fields.
#[test]
fn fortinet_test() {
    let out = fortinet_apply(Event::Raw(FORTINET_LINE.to_string()), &"t".to_string());
    let fields = match out {
        TransformOutcome::Emit(Event::Json(JsonData::Obj(fields))) => fields,
        _ => panic!("expected a structured event"),
    };

    match get(&fields, "srcip") {
        Some(JsonData::Str(s)) => assert_eq!(s, "192.168.1.110"),
        _ => panic!("srcip missing"),
    }
    match get(&fields, "action") {
        Some(JsonData::Str(s)) => assert_eq!(s, "pass"),
        _ => panic!("action missing"),
    }
    match get(&fields, "t") {
        Some(JsonData::Num(JsonNum::Int(secs))) => assert!(*secs > 0),
        _ => panic!("timestamp missing"),
    }
    // the date and time pairs themselves are withheld
    assert!(get(&fields, "date").is_none());
    assert!(get(&fields, "time").is_none());
    // quoted values come through unquoted
    match get(&fields, "vd") {
        Some(JsonData::Str(s)) => assert_eq!(s, "root"),
        _ => panic!("vd missing"),
    }
}

/// A well-formed RFC 5424 line: the named parts land under their keys and
/// the body lands under `+message`.
#[test]
fn rfc5424_parts() {
    let line = "<165>1 2003-10-11T22:14:15.003Z mymachine.example.com appname 1234 ID47 - just a body";
    let fields = parse_syslog(line, "when");

    match get(&fields, "when") {
        Some(JsonData::Num(JsonNum::Int(ms))) => assert_eq!(*ms, 1065910455003),
        _ => panic!("timestamp missing"),
    }
    match get(&fields, "app_name") {
        Some(JsonData::Str(s)) => assert_eq!(s, "appname"),
        _ => panic!("app_name missing"),
    }
    match get(&fields, "hostname") {
        Some(JsonData::Str(s)) => assert_eq!(s, "mymachine.example.com"),
        _ => panic!("hostname missing"),
    }
    match get(&fields, "proc_id") {
        Some(JsonData::Num(JsonNum::Int(pid))) => assert_eq!(*pid, 1234),
        _ => panic!("proc_id missing"),
    }
    match get(&fields, "msg_id") {
        Some(JsonData::Str(s)) => assert_eq!(s, "ID47"),
        _ => panic!("msg_id missing"),
    }
    match get(&fields, "+message") {
        Some(JsonData::Str(s)) => assert_eq!(s, "just a body"),
        _ => panic!("+message missing"),
    }
}

/// A JSON body is merged into the record field by field.
#[test]
fn json_body_merged() {
    let line = r#"<165>1 2003-10-11T22:14:15.003Z host app 1 - - {"inner":5}"#;
    let fields = parse_syslog(line, "t");
    assert!(get(&fields, "+message").is_none());
    match get(&fields, "inner") {
        Some(JsonData::Num(JsonNum::Int(v))) => assert_eq!(*v, 5),
        _ => panic!("the body's field should be merged"),
    }
}

#[test]
fn wrapper_splits_parts() {
    let parts = parse_syslog_message(
        "<165>1 2003-10-11T22:14:15.003Z host app 1234 ID47 - the body",
        2024,
    );
    assert_eq!(parts.hostname.as_deref(), Some("host"));
    assert_eq!(parts.appname.as_deref(), Some("app"));
    assert_eq!(parts.procid_num, Some(1234));
    assert_eq!(parts.msgid.as_deref(), Some("ID47"));
    assert_eq!(parts.msg, "the body");
    assert_eq!(parts.timestamp_millis, Some(1065910455003));
}

/// A year-less RFC 3164 date is completed with the supplied year and read
/// in UTC, so the parse is a function of the line and the year: the same
/// arguments give the same parts, and an impossible date in that year makes
/// the whole line its own message.
#[test]
fn year_completion_is_deterministic() {
    let line = "<34>Feb 2 12:00:00 myhost myapp[42]: hello";
    let first = parse_syslog_message(line, 2021);
    let again = parse_syslog_message(line, 2021);
    // 2021-02-02T12:00:00Z
    assert_eq!(first.timestamp_millis, Some(1612267200000));
    assert_eq!(again.timestamp_millis, first.timestamp_millis);
    assert_eq!(first.hostname.as_deref(), Some("myhost"));
    assert_eq!(first.appname.as_deref(), Some("myapp"));
    assert_eq!(first.procid_num, Some(42));
    assert_eq!(first.msg, "hello");

    let leap_line = "<34>Feb 29 12:00:00 myhost myapp[42]: hello";
    // in a leap year the date resolves and the header parses
    let leap = parse_syslog_message(leap_line, 2020);
    assert_eq!(leap.hostname.as_deref(), Some("myhost"));
    assert_eq!(leap.timestamp_millis, Some(1582977600000));
    // in a common year it cannot, and the whole line is the message
    let common = parse_syslog_message(leap_line, 2021);
    assert_eq!(common.timestamp_millis, None);
    assert_eq!(common.hostname, None);
    assert_eq!(common.msg, leap_line);
}

#[test]
fn timestamp_text_forms() {
    // a fixed instant renders and parses both ways
    assert_eq!(
        log_ship::time::rfc2822_of_millis(0).as_deref(),
        Some("Thu, 1 Jan 1970 00:00:00 +0000")
    );
    assert_eq!(
        log_ship::time::parse_rfc2822_millis("Tue, 1 Jul 2003 10:52:37 -0400"),
        Some(1057071157000)
    );
    assert_eq!(
        log_ship::time::parse_rfc3339_millis("1996-12-19T16:39:57-05:00"),
        Some(851031597000)
    );
    assert_eq!(log_ship::time::parse_rfc2822_millis("not a date"), None);
    assert_eq!(
        log_ship::time::rfc3339_of_millis(851031597000).as_deref(),
        Some("1996-12-19T21:39:57+00:00")
    );
    // years the RFC 2822 form cannot carry come back as None instead of
    // aborting: the first instant of year 10000, and one before year 0
    assert_eq!(log_ship::time::rfc2822_of_millis(253_402_300_800_000), None);
    assert_eq!(log_ship::time::rfc2822_of_millis(-62_167_219_200_001), None);
    // the 3339 form carries both
    assert!(log_ship::time::rfc3339_of_millis(253_402_300_800_000).is_some());
}
