use log_ship::channel::Callback;
use log_ship::event::Event;
use log_ship::tailer::{
    check_offset, format_offset, initial_position, line_event, parse_offset, plain_line_event,
    plan_tailer_instances, scan_lines, tailer_step, LineOutcome, TailerAction, TailerState,
    WatchEvent,
};

/// Writing `"test\n"` to a fresh tailed file yields one raw event with
/// payload `test`, and its acknowledgement persists offset `5`.
#[test]
fn single_line_event_and_ack() {
    let content: Vec<u8> = b"test\n".to_vec();
    let (lines, end) = scan_lines(&content, 0, false);
    assert_eq!(lines.len(), 1);
    assert_eq!(lines[0].0, b"test".to_vec());
    assert_eq!(lines[0].1, 5);
    assert_eq!(end, 5);

    let line = String::from_utf8(lines[0].0.clone()).unwrap();
    match line_event(line, false) {
        LineOutcome::Emit(Event::Raw(s)) => assert_eq!(s, "test"),
        _ => panic!("expected a raw event"),
    }

    let ack = Callback::new(5);
    assert_eq!(ack.call(), Some(5));
    assert_eq!(format_offset(5), b"5".to_vec());
}

/// From the beginning, a partial line is completed by the next append and
/// comes out as one event; the state file ends at the whole length.
#[test]
fn partial_line_completed() {
    let start = initial_position(true, None, None).unwrap();
    assert_eq!(start.offset, 0);
    assert_eq!(start.write_state, Some(0));

    // "hello " alone is not a complete line
    let content: Vec<u8> = b"hello ".to_vec();
    let (lines, end) = scan_lines(&content, 0, false);
    assert_eq!(lines.len(), 0);
    assert_eq!(end, 0);

    // after "world\n" arrives the whole line comes out at once
    let content: Vec<u8> = b"hello world\n".to_vec();
    let (lines, end) = scan_lines(&content, 0, false);
    assert_eq!(lines.len(), 1);
    assert_eq!(lines[0].0, b"hello world".to_vec());
    assert_eq!(end, 12);
    assert_eq!(format_offset(12), b"12".to_vec());
}

/// Ten lines, a rename, ten more lines: ten events, the rotation boundary,
/// then ten events from offset zero, in that order.
#[test]
fn rotation_boundary_sequence() {
    let mut events: Vec<Event> = Vec::new();

    let mut content: Vec<u8> = Vec::new();
    for i in 0..10 {
        content.extend_from_slice(format!("This is line {}\n", i).as_bytes());
    }
    let mut state = TailerState::Open { offset: 0 };
    let (lines, end) = scan_lines(&content, 0, false);
    for (line, _pos) in lines {
        match line_event(String::from_utf8(line).unwrap(), false) {
            LineOutcome::Emit(e) => events.push(e),
            LineOutcome::AckOnly => {}
        }
    }
    state = log_ship::tailer::apply_read(state, end as u64);

    // the rename and its arrival event with the matching cookie
    let (state2, action) = tailer_step(
        state,
        WatchEvent::MovedFrom {
            is_target: true,
            cookie: 42,
        },
    );
    assert_eq!(action, TailerAction::Ignore);
    // the arrival event names the rotated-to file, not the target
    let (state3, action) = tailer_step(
        state2,
        WatchEvent::MovedTo {
            is_target: false,
            cookie: 42,
        },
    );
    assert_eq!(action, TailerAction::FinishRotation);
    assert_eq!(state3, TailerState::NoFile);

    // the boundary event carries an ack that persists offset zero
    match line_event(String::new(), false) {
        LineOutcome::Emit(e) => events.push(e),
        LineOutcome::AckOnly => panic!("the boundary must be emitted"),
    }
    assert_eq!(format_offset(0), b"0".to_vec());

    // the recreated file opens at offset zero
    let (state4, action) = tailer_step(state3, WatchEvent::Modify { is_target: true });
    assert_eq!(action, TailerAction::ReadMore);
    assert_eq!(state4, TailerState::Open { offset: 0 });

    let mut content2: Vec<u8> = Vec::new();
    for i in 0..10 {
        content2.extend_from_slice(format!("This is new line {}\n", i).as_bytes());
    }
    let (lines, _end) = scan_lines(&content2, 0, false);
    for (line, _pos) in lines {
        match line_event(String::from_utf8(line).unwrap(), false) {
            LineOutcome::Emit(e) => events.push(e),
            LineOutcome::AckOnly => {}
        }
    }

    assert_eq!(events.len(), 21);
    for i in 0..10 {
        match &events[i] {
            Event::Raw(s) => assert_eq!(s, &format!("This is line {}", i)),
            _ => panic!("expected a raw event"),
        }
    }
    assert!(matches!(events[10], Event::Boundary));
    for i in 0..10 {
        match &events[11 + i] {
            Event::Raw(s) => assert_eq!(s, &format!("This is new line {}", i)),
            _ => panic!("expected a raw event"),
        }
    }
}

/// A state file pointing beyond the file's end resets to zero, and the
/// rescan from zero produces every line of the new file.
#[test]
fn truncation_recovery() {
    let (offset, reset) = check_offset(100, 20);
    assert_eq!((offset, reset), (0, true));
    let (offset, reset) = check_offset(20, 20);
    assert_eq!((offset, reset), (20, false));

    let content: Vec<u8> = b"a\nbb\nccc\n".to_vec();
    let (lines, end) = scan_lines(&content, 0, false);
    assert_eq!(lines.len(), 3);
    assert_eq!(lines[0].0, b"a".to_vec());
    assert_eq!(lines[1].0, b"bb".to_vec());
    assert_eq!(lines[2].0, b"ccc".to_vec());
    assert_eq!(end, 9);
}

/// Restarting from an acknowledged offset re-emits exactly the lines after
/// it: nothing acknowledged again, nothing skipped.
#[test]
fn resume_after_restart() {
    let content: Vec<u8> = b"one\ntwo\nthree\n".to_vec();
    let (lines, _end) = scan_lines(&content, 0, false);
    assert_eq!(lines.len(), 3);

    // the process dies after acknowledging line one (offset 4)
    let acked = lines[0].1;
    let state_file = format_offset(acked as u64);
    let resumed_at = parse_offset(state_file.as_slice()).unwrap();
    assert_eq!(resumed_at, 4);

    let (rest, _end) = scan_lines(&content, resumed_at as usize, false);
    assert_eq!(rest.len(), 2);
    assert_eq!(rest[0].0, b"two".to_vec());
    assert_eq!(rest[1].0, b"three".to_vec());
}

/// A final read at rotation takes the unterminated tail as well.
#[test]
fn drain_to_end() {
    let content: Vec<u8> = b"done\npartial".to_vec();
    let (lines, end) = scan_lines(&content, 0, true);
    assert_eq!(lines.len(), 2);
    assert_eq!(lines[1].0, b"partial".to_vec());
    assert_eq!(end, 12);
}

#[test]
fn initial_position_cases() {
    // an existing state file wins
    let state = b"1234".to_vec();
    let p = initial_position(false, Some(&state), Some(50)).unwrap();
    assert_eq!(p.offset, 1234);
    assert_eq!(p.write_state, None);

    // a corrupt state file is an error
    let state = b"12x4".to_vec();
    assert!(initial_position(false, Some(&state), Some(50)).is_err());
    let state = b"".to_vec();
    assert!(initial_position(false, Some(&state), None).is_err());

    // no state file: start at the file's current end
    let p = initial_position(false, None, Some(50)).unwrap();
    assert_eq!(p.offset, 50);
    assert_eq!(p.write_state, Some(50));

    // nothing at all: start at zero
    let p = initial_position(false, None, None).unwrap();
    assert_eq!(p.offset, 0);
    assert_eq!(p.write_state, Some(0));
}

#[test]
fn offset_text_round_trip() {
    for n in [0u64, 1, 9, 10, 12345, u64::MAX] {
        let text = format_offset(n);
        assert_eq!(parse_offset(text.as_slice()), Some(n));
    }
    assert_eq!(parse_offset(b""), None);
    assert_eq!(parse_offset(b"+5"), None);
    // one past u64::MAX
    assert_eq!(parse_offset(b"18446744073709551616"), None);
}

#[test]
fn parse_json_lines() {
    match line_event("{\"a\":1}".to_string(), true) {
        LineOutcome::Emit(Event::Json(_)) => {}
        _ => panic!("expected a structured event"),
    }
    // a malformed line is acknowledged and skipped
    assert!(matches!(
        line_event("{nope".to_string(), true),
        LineOutcome::AckOnly
    ));
}

#[test]
fn glob_plan() {
    let matched = vec!["a.log".to_string(), "b.log".to_string()];
    let plan = plan_tailer_instances(matched.clone(), "fallback".to_string());
    assert_eq!(plan, matched);

    let plan = plan_tailer_instances(Vec::new(), "fallback".to_string());
    assert_eq!(plan, vec!["fallback".to_string()]);
}

#[test]
fn cancel_from_any_state() {
    for state in [
        TailerState::NoFile,
        TailerState::Open { offset: 7 },
        TailerState::Draining { offset: 7, cookie: 1 },
        TailerState::Closed,
    ] {
        let (next, action) = tailer_step(state, WatchEvent::Cancel);
        assert_eq!(next, TailerState::Closed);
        assert_eq!(action, TailerAction::Shutdown);
    }
    // a stranger's rename cookie is ignored
    let (next, action) = tailer_step(
        TailerState::Draining { offset: 7, cookie: 1 },
        WatchEvent::MovedTo {
            is_target: false,
            cookie: 2,
        },
    );
    assert_eq!(next, TailerState::Draining { offset: 7, cookie: 1 });
    assert_eq!(action, TailerAction::Ignore);

    // a file moved onto the target name opens it at zero; a move of some
    // other file does not
    let (next, action) = tailer_step(
        TailerState::NoFile,
        WatchEvent::MovedTo {
            is_target: true,
            cookie: 9,
        },
    );
    assert_eq!(next, TailerState::Open { offset: 0 });
    assert_eq!(action, TailerAction::ReadMore);
    let (next, action) = tailer_step(
        TailerState::NoFile,
        WatchEvent::MovedTo {
            is_target: false,
            cookie: 9,
        },
    );
    assert_eq!(next, TailerState::NoFile);
    assert_eq!(action, TailerAction::Ignore);
}

#[test]
fn plain_input_lines() {
    // an empty line from a plain input stays a raw event
    match plain_line_event(String::new(), false) {
        LineOutcome::Emit(Event::Raw(s)) => assert_eq!(s, ""),
        _ => panic!("expected an empty raw event"),
    }
    match plain_line_event("{\"a\":1}".to_string(), true) {
        LineOutcome::Emit(Event::Json(_)) => {}
        _ => panic!("expected a structured event"),
    }
    assert!(matches!(
        plain_line_event("{nope".to_string(), true),
        LineOutcome::AckOnly
    ));
}

#[test]
fn state_file_paths() {
    assert_eq!(
        log_ship::tailer::state_file_path("/var/log", "app.log"),
        "/var/log/app.log.state"
    );
    assert_eq!(
        log_ship::tailer::state_file_path("/tmp", "log"),
        "/tmp/log.state"
    );
}
