use backend::broadcaster::{Broadcaster, RecvOutcome};
use backend::cache::AppCache;
use backend::log::ChangeLog;
use backend::poller::{Poller, StorageError};

fn s(text: &str) -> String {
    String::from(text)
}

fn expect_payload(bus: &mut Broadcaster, id: u64, payload: &str) {
    match bus.recv(id) {
        RecvOutcome::Event(e) => assert_eq!(e.payload, payload),
        other => panic!("expected {:?}, got {:?}", payload, other),
    }
}

#[test]
fn a_cycle_applies_records_in_order_and_advances_the_watermark() {
    let mut log = ChangeLog::new();
    log.append(s("event_changes"), s("A"), 100).unwrap();
    log.append(s("participant_changes"), s("B"), 101).unwrap();

    let mut cache = AppCache::new(60);
    cache.event.insert(1000, s("e1"), sample_event());
    cache.participant.insert(1000, s("p1"), sample_participant());

    let mut bus = Broadcaster::new();
    let sub = bus.subscribe().unwrap();

    let mut poller = Poller::new(0);
    poller.poll_log(&log, &mut cache, &mut bus);

    assert_eq!(poller.watermark(), 2);
    assert!(cache.event.get(1000, &s("e1")).is_none());
    assert!(cache.participant.get(1000, &s("p1")).is_none());
    expect_payload(&mut bus, sub, "A");
    expect_payload(&mut bus, sub, "B");
    assert_eq!(bus.recv(sub), RecvOutcome::Empty);
}

#[test]
fn watermark_never_decreases_and_empty_cycles_leave_it_alone() {
    let mut log = ChangeLog::new();
    log.append(s("event_changes"), s("A"), 100).unwrap();
    let mut cache = AppCache::new(60);
    let mut bus = Broadcaster::new();
    let mut poller = Poller::new(0);

    poller.poll_log(&log, &mut cache, &mut bus);
    assert_eq!(poller.watermark(), 1);
    // nothing new: the watermark stays put
    poller.poll_log(&log, &mut cache, &mut bus);
    assert_eq!(poller.watermark(), 1);
    log.append(s("event_changes"), s("B"), 101).unwrap();
    poller.poll_log(&log, &mut cache, &mut bus);
    assert_eq!(poller.watermark(), 2);
}

#[test]
fn a_storage_error_changes_nothing_and_the_next_cycle_retries() {
    let mut cache = AppCache::new(60);
    cache.event.insert(1000, s("e1"), sample_event());
    let mut bus = Broadcaster::new();
    let sub = bus.subscribe().unwrap();
    let mut poller = Poller::new(5);

    poller.poll_cycle(
        Err(StorageError { message: s("connection lost") }),
        &mut cache,
        &mut bus,
    );

    assert_eq!(poller.watermark(), 5);
    assert!(cache.event.get(1000, &s("e1")).is_some());
    assert_eq!(bus.recv(sub), RecvOutcome::Empty);
}

#[test]
fn reapplying_the_same_batch_is_idempotent_for_cache_and_watermark() {
    let mut log = ChangeLog::new();
    log.append(s("event_changes"), s("A"), 100).unwrap();
    let batch = log.changes_since(0);

    let mut cache = AppCache::new(60);
    let mut bus = Broadcaster::new();
    let mut poller = Poller::new(0);

    poller.apply_batch(&batch, &mut cache, &mut bus);
    assert_eq!(poller.watermark(), 1);
    // a crash before the watermark advanced re-delivers the same batch:
    // the only effect is that the routed caches are cleared again
    cache.event.insert(1000, s("e1"), sample_event());
    poller.apply_batch(&batch, &mut cache, &mut bus);
    assert_eq!(poller.watermark(), 1);
    assert!(cache.event.get(1000, &s("e1")).is_none());
}

#[test]
fn a_restarted_instance_resumes_at_the_logs_maximum() {
    let mut log = ChangeLog::new();
    log.append(s("event_changes"), s("old"), 100).unwrap();
    log.append(s("event_changes"), s("older"), 101).unwrap();

    let poller = Poller::resuming(&log);
    assert_eq!(poller.watermark(), 2);

    let empty = ChangeLog::new();
    assert_eq!(Poller::resuming(&empty).watermark(), 0);
}

#[test]
fn pre_restart_history_is_never_replayed() {
    let mut log = ChangeLog::new();
    log.append(s("event_changes"), s("before"), 100).unwrap();
    let mut poller = Poller::resuming(&log);

    let mut cache = AppCache::new(60);
    let mut bus = Broadcaster::new();
    let sub = bus.subscribe().unwrap();
    poller.poll_log(&log, &mut cache, &mut bus);
    assert_eq!(bus.recv(sub), RecvOutcome::Empty);
}

fn sample_event() -> backend::models::Event {
    backend::models::Event {
        id: s("e1"),
        title: s("t"),
        description: None,
        start_time: 0,
        end_time: 1,
        location: None,
        max_participants: None,
        created_at: 0,
        updated_at: 0,
    }
}

fn sample_participant() -> backend::models::Participant {
    backend::models::Participant {
        id: s("p1"),
        event_id: s("e1"),
        name: s("n"),
        email: s("e@x"),
        status: backend::models::ParticipantStatus::Registered,
        registered_at: 0,
        updated_at: 0,
    }
}
