//! The whole pipeline on one instance: appends enter the log, a poller
//! turns them into cache invalidations and published events, and stream
//! sessions observe exactly what was published while they were subscribed.

use backend::broadcaster::{Broadcaster, RecvOutcome};
use backend::cache::AppCache;
use backend::log::ChangeLog;
use backend::poller::Poller;
use backend::session::{PushFrame, StreamSession};

fn s(text: &str) -> String {
    String::from(text)
}

fn sample_event(id: &str) -> backend::models::Event {
    backend::models::Event {
        id: s(id),
        title: s("t"),
        description: None,
        start_time: 0,
        end_time: 1,
        location: None,
        max_participants: None,
        created_at: 0,
        updated_at: 0,
    }
}

#[test]
fn two_appends_invalidate_twice_and_reach_subscribers_in_order() {
    let mut log = ChangeLog::new();
    let mut cache = AppCache::new(60);
    let mut bus = Broadcaster::new();
    let mut poller = Poller::new(0);

    // a client subscribed before the first append sees A then B
    let early = bus.subscribe().unwrap();

    log.append(s("event_changes"), s("A"), 100).unwrap();
    cache.event.insert(1000, s("e1"), sample_event("e1"));
    poller.poll_log(&log, &mut cache, &mut bus);
    // first invalidation
    assert!(cache.event.get(1000, &s("e1")).is_none());
    assert_eq!(poller.watermark(), 1);

    // a client subscribed after A but before B sees only B
    let late = bus.subscribe().unwrap();

    log.append(s("event_changes"), s("B"), 101).unwrap();
    cache.event.insert(1001, s("e1"), sample_event("e1"));
    poller.poll_log(&log, &mut cache, &mut bus);
    // second invalidation
    assert!(cache.event.get(1001, &s("e1")).is_none());
    assert_eq!(poller.watermark(), 2);

    for expected in ["A", "B"] {
        match bus.recv(early) {
            RecvOutcome::Event(e) => {
                assert_eq!(e.channel, "event_changes");
                assert_eq!(e.payload, expected);
            },
            other => panic!("early subscriber missed {:?}: {:?}", expected, other),
        }
    }
    assert_eq!(bus.recv(early), RecvOutcome::Empty);

    match bus.recv(late) {
        RecvOutcome::Event(e) => assert_eq!(e.payload, "B"),
        other => panic!("late subscriber missed B: {:?}", other),
    }
    assert_eq!(bus.recv(late), RecvOutcome::Empty);
}

#[test]
fn a_session_streams_what_the_poller_publishes() {
    let mut log = ChangeLog::new();
    let mut cache = AppCache::new(60);
    let mut bus = Broadcaster::new();
    let mut poller = Poller::new(0);

    let mut session = StreamSession::open(&mut bus).unwrap();
    log.append(s("participant_changes"), s("joined"), 100).unwrap();
    poller.poll_log(&log, &mut cache, &mut bus);

    match session.next_frame(&mut bus) {
        Some(PushFrame::Data { event, data }) => {
            assert_eq!(event, "participant_changes");
            assert_eq!(data, "joined");
        },
        other => panic!("unexpected {:?}", other),
    }
    assert_eq!(session.next_frame(&mut bus), None);
    session.close(&mut bus);
    assert_eq!(bus.subscriber_count(), 0);
}

#[test]
fn two_instances_sharing_one_log_converge() {
    // two pollers with their own caches and buses, one shared log
    let mut log = ChangeLog::new();
    let mut cache_a = AppCache::new(60);
    let mut cache_b = AppCache::new(60);
    let mut bus_a = Broadcaster::new();
    let mut bus_b = Broadcaster::new();
    let mut poller_a = Poller::new(0);
    let mut poller_b = Poller::new(0);

    let sub_a = bus_a.subscribe().unwrap();
    let sub_b = bus_b.subscribe().unwrap();

    cache_a.event.insert(1000, s("e1"), sample_event("e1"));
    cache_b.event.insert(1000, s("e1"), sample_event("e1"));

    log.append(s("event_changes"), s("X"), 100).unwrap();

    poller_a.poll_log(&log, &mut cache_a, &mut bus_a);
    // instance B polls later and still converges to the same state
    poller_b.poll_log(&log, &mut cache_b, &mut bus_b);

    assert_eq!(poller_a.watermark(), poller_b.watermark());
    assert!(cache_a.event.get(1000, &s("e1")).is_none());
    assert!(cache_b.event.get(1000, &s("e1")).is_none());
    for (bus, sub) in [(&mut bus_a, sub_a), (&mut bus_b, sub_b)] {
        match bus.recv(sub) {
            RecvOutcome::Event(e) => assert_eq!(e.payload, "X"),
            other => panic!("unexpected {:?}", other),
        }
    }
}
