use log_ship::channel::{BoundedChannel, Callback, SendOutcome};
use log_ship::event::Event;

/// Backpressure: with capacity `C` and nothing consumed, exactly `C` sends
/// succeed and the next would suspend.
#[test]
fn backpressure_capacity_two() {
    let mut c = BoundedChannel::new(2);
    assert!(matches!(
        c.try_send(Event::Raw("one".to_string()), Callback::empty()),
        SendOutcome::Sent
    ));
    assert!(matches!(
        c.try_send(Event::Raw("two".to_string()), Callback::empty()),
        SendOutcome::Sent
    ));
    assert!(matches!(
        c.try_send(Event::Raw("three".to_string()), Callback::empty()),
        SendOutcome::WouldBlock
    ));

    // a received envelope still occupies its slot until released
    let env = c.recv().unwrap();
    assert!(matches!(
        c.try_send(Event::Raw("three".to_string()), Callback::empty()),
        SendOutcome::WouldBlock
    ));
    c.release(env);
    assert!(matches!(
        c.try_send(Event::Raw("three".to_string()), Callback::empty()),
        SendOutcome::Sent
    ));
}

/// Ordering: the consumer sees events exactly in send order.
#[test]
fn fifo_order() {
    let mut c = BoundedChannel::new(8);
    for i in 0..5 {
        let outcome = c.try_send(Event::Raw(format!("event {}", i)), Callback::new(i));
        assert!(matches!(outcome, SendOutcome::Sent));
    }
    for i in 0..5 {
        let env = c.recv().unwrap();
        match &env.event {
            Event::Raw(s) => assert_eq!(s, &format!("event {}", i)),
            _ => panic!("expected a raw event"),
        }
        let ack = c.release(env);
        assert_eq!(ack.call(), Some(i));
    }
    assert!(c.recv().is_none());
}

/// Cancellation: producers are turned away, what is queued can still be
/// drained, and after the drain no slot is leaked.
#[test]
fn clean_shutdown() {
    let mut c = BoundedChannel::new(4);
    for i in 0..3 {
        c.try_send(Event::Raw(format!("{}", i)), Callback::empty());
    }
    c.close();
    assert!(matches!(
        c.try_send(Event::Raw("late".to_string()), Callback::empty()),
        SendOutcome::Closed
    ));

    let drained = c.drain();
    assert_eq!(drained.len(), 3);
    for env in drained {
        env.ack.call();
        c.release(env);
    }
    // every slot is free again; only the closed flag stops producers
    assert!(c.recv().is_none());
}

/// Idempotent acknowledgement: a second call yields the same persisted
/// offset as the first.
#[test]
fn ack_idempotent() {
    let ack = Callback::new(17);
    let first = ack.call();
    let second = ack.call();
    assert_eq!(first, Some(17));
    assert_eq!(second, first);

    let noop = Callback::empty();
    assert_eq!(noop.call(), None);
    assert_eq!(noop.call(), None);
}
