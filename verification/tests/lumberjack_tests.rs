use std::io::Write;

use log_ship::lumberjack::{Event, LumberjackCodec};

fn be32(n: u32) -> [u8; 4] {
    [(n >> 24) as u8, (n >> 16) as u8, (n >> 8) as u8, n as u8]
}

fn build_frame(entries: &[(u32, &[u8])]) -> Vec<u8> {
    // the inner event entries
    let mut payload: Vec<u8> = Vec::new();
    for (seq, data) in entries {
        payload.push(b'2');
        payload.push(b'J');
        payload.extend_from_slice(&be32(*seq));
        payload.extend_from_slice(&be32(data.len() as u32));
        payload.extend_from_slice(data);
    }
    // compress them
    let mut encoder =
        flate2::write::ZlibEncoder::new(Vec::new(), flate2::Compression::default());
    encoder.write_all(&payload).unwrap();
    let compressed = encoder.finish().unwrap();
    // the outer window and payload headers
    let mut frame: Vec<u8> = Vec::new();
    frame.push(b'2');
    frame.push(b'W');
    frame.extend_from_slice(&be32(entries.len() as u32));
    frame.push(b'2');
    frame.push(b'C');
    frame.extend_from_slice(&be32(compressed.len() as u32));
    frame.extend_from_slice(&compressed);
    frame
}

/// A frame with two JSON payloads, sequences 1 and 2: two structured
/// events, in sequence order.
#[test]
fn two_events_in_order() {
    let mut frame = build_frame(&[
        (1, br#"{"n":1}"#),
        (2, br#"{"n":2}"#),
    ]);

    let mut codec = LumberjackCodec {};
    let request = codec.decode(&mut frame).unwrap().unwrap();
    assert_eq!(frame.len(), 0);
    assert_eq!(request.events.len(), 2);
    assert_eq!(request.events[0].sequence, 1);
    assert_eq!(request.events[1].sequence, 2);
    assert_eq!(request.events[0].raw, r#"{"n":1}"#);
    assert_eq!(request.events[1].raw, r#"{"n":2}"#);

    // each payload reads as a structured event
    for (i, event) in request.events.iter().enumerate() {
        let d = log_ship::json::parse_json(&event.raw).expect("the payload should be JSON");
        match d {
            log_ship::json::JsonData::Obj(fields) => {
                assert_eq!(fields[0].0, "n");
                match &fields[0].1 {
                    log_ship::json::JsonData::Num(log_ship::json::JsonNum::Int(v)) => {
                        assert_eq!(*v, (i + 1) as i64)
                    }
                    _ => panic!("n should be a number"),
                }
            }
            _ => panic!("the payload should be an object"),
        }
    }
}

#[test]
fn empty_buffer_is_not_a_frame() {
    let mut empty: Vec<u8> = Vec::new();
    let mut codec = LumberjackCodec {};
    assert!(matches!(codec.decode(&mut empty), Ok(None)));
}

#[test]
fn malformed_frames_fail() {
    let mut codec = LumberjackCodec {};

    let mut short = vec![b'2', b'W', 0, 0];
    assert!(codec.decode(&mut short).is_err());

    let mut wrong_code = build_frame(&[(1, b"x")]);
    wrong_code[1] = b'Q';
    assert!(codec.decode(&mut wrong_code).is_err());

    // a corrupt zlib stream
    let mut corrupt = build_frame(&[(1, b"x")]);
    let n = corrupt.len();
    corrupt[n - 1] ^= 0xff;
    corrupt[n - 2] ^= 0xff;
    assert!(codec.decode(&mut corrupt).is_err());
}

#[test]
fn lossy_payload_decoding() {
    // invalid UTF-8 becomes the replacement character rather than being
    // handed back unchanged
    let event = Event::new(7, &[0x61, 0xff, 0x62]);
    assert_eq!(event.sequence, 7);
    assert_eq!(event.raw, "a\u{fffd}b");
}
