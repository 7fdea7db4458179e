use backend::broadcaster::{Broadcaster, RecvOutcome, ServerEvent, SUBSCRIBER_QUEUE_CAPACITY};

fn ev(channel: &str, payload: &str) -> ServerEvent {
    ServerEvent { channel: String::from(channel), payload: String::from(payload) }
}

#[test]
fn every_prior_subscriber_observes_a_publish_in_order() {
    let mut bus = Broadcaster::new();
    let s1 = bus.subscribe().unwrap();
    let s2 = bus.subscribe().unwrap();
    bus.broadcast(ev("c", "first"));
    bus.broadcast(ev("c", "second"));
    for id in [s1, s2] {
        match bus.recv(id) {
            RecvOutcome::Event(e) => assert_eq!(e.payload, "first"),
            other => panic!("expected first event, got {:?}", other),
        }
        match bus.recv(id) {
            RecvOutcome::Event(e) => assert_eq!(e.payload, "second"),
            other => panic!("expected second event, got {:?}", other),
        }
        assert_eq!(bus.recv(id), RecvOutcome::Empty);
    }
}

#[test]
fn late_subscriber_never_sees_earlier_publishes() {
    let mut bus = Broadcaster::new();
    let early = bus.subscribe().unwrap();
    bus.broadcast(ev("c", "before"));
    let late = bus.subscribe().unwrap();
    assert_eq!(bus.recv(late), RecvOutcome::Empty);
    match bus.recv(early) {
        RecvOutcome::Event(e) => assert_eq!(e.payload, "before"),
        other => panic!("unexpected {:?}", other),
    }
}

#[test]
fn overflow_drops_only_the_oldest_for_the_affected_subscriber() {
    let mut bus = Broadcaster::new();
    let slow = bus.subscribe().unwrap();
    let fast = bus.subscribe().unwrap();
    // fill slow's queue to capacity, then two more events overflow it
    for i in 0..(SUBSCRIBER_QUEUE_CAPACITY + 2) {
        bus.broadcast(ev("c", &format!("m{}", i)));
        // fast consumes as it goes, so it never overflows
        match bus.recv(fast) {
            RecvOutcome::Event(e) => assert_eq!(e.payload, format!("m{}", i)),
            other => panic!("fast lost an event: {:?}", other),
        }
    }
    // slow lost exactly the two oldest events, reported once
    assert_eq!(bus.recv(slow), RecvOutcome::Lagged(2));
    match bus.recv(slow) {
        RecvOutcome::Event(e) => assert_eq!(e.payload, "m2"),
        other => panic!("unexpected {:?}", other),
    }
    // and the rest arrive in order
    match bus.recv(slow) {
        RecvOutcome::Event(e) => assert_eq!(e.payload, "m3"),
        other => panic!("unexpected {:?}", other),
    }
}

#[test]
fn unsubscribe_leaves_other_subscribers_untouched() {
    let mut bus = Broadcaster::new();
    let a = bus.subscribe().unwrap();
    let b = bus.subscribe().unwrap();
    bus.broadcast(ev("c", "x"));
    assert!(bus.unsubscribe(a));
    assert!(!bus.unsubscribe(a));
    assert_eq!(bus.subscriber_count(), 1);
    match bus.recv(b) {
        RecvOutcome::Event(e) => assert_eq!(e.payload, "x"),
        other => panic!("unexpected {:?}", other),
    }
    assert_eq!(bus.recv(a), RecvOutcome::Unknown);
}

#[test]
fn publish_without_subscribers_is_a_no_op() {
    let mut bus = Broadcaster::new();
    bus.broadcast(ev("c", "nobody"));
    assert_eq!(bus.subscriber_count(), 0);
}

#[test]
fn default_is_a_fresh_broadcaster() {
    let mut bus = Broadcaster::default();
    assert_eq!(bus.subscriber_count(), 0);
    assert_eq!(bus.subscribe().unwrap(), 0);
}
