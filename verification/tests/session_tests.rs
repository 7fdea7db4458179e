use backend::broadcaster::{Broadcaster, ServerEvent};
use backend::session::{
    keep_alive_text, PushFrame, SessionInput, StreamSession,
    HEARTBEAT_INTERVAL_SECS,
};

fn ev(channel: &str, payload: &str) -> ServerEvent {
    ServerEvent { channel: String::from(channel), payload: String::from(payload) }
}

#[test]
fn a_delivered_event_becomes_one_tagged_frame() {
    let mut bus = Broadcaster::new();
    let mut session = StreamSession::open(&mut bus).unwrap();
    let frame = session.handle_input(SessionInput::Delivered(ev("event_changes", "data")));
    match frame {
        Some(PushFrame::Data { event, data }) => {
            assert_eq!(event, "event_changes");
            assert_eq!(data, "data");
        },
        other => panic!("unexpected frame {:?}", other),
    }
}

#[test]
fn heartbeat_produces_the_keep_alive_frame() {
    let mut bus = Broadcaster::new();
    let mut session = StreamSession::open(&mut bus).unwrap();
    assert_eq!(session.handle_input(SessionInput::Heartbeat), Some(PushFrame::KeepAlive));
    assert_eq!(keep_alive_text(), "keep-alive");
    assert_eq!(HEARTBEAT_INTERVAL_SECS, 15);
}

#[test]
fn a_gap_is_swallowed_and_the_stream_continues() {
    let mut bus = Broadcaster::new();
    let mut session = StreamSession::open(&mut bus).unwrap();
    assert_eq!(session.handle_input(SessionInput::Gap(3)), None);
    // still streaming: the next event still becomes a frame
    assert!(session.handle_input(SessionInput::Delivered(ev("c", "p"))).is_some());
}

#[test]
fn only_disconnect_or_write_failure_closes_the_session() {
    let mut bus = Broadcaster::new();
    let mut session = StreamSession::open(&mut bus).unwrap();
    session.handle_input(SessionInput::Heartbeat);
    session.handle_input(SessionInput::Gap(1));
    session.handle_input(SessionInput::Delivered(ev("c", "p")));
    let mut other = StreamSession::open(&mut bus).unwrap();
    assert_eq!(session.handle_input(SessionInput::WriteFailed), None);
    // closed is terminal: no more frames, whatever arrives
    assert_eq!(session.handle_input(SessionInput::Heartbeat), None);
    assert_eq!(session.handle_input(SessionInput::Delivered(ev("c", "p"))), None);
    // the other session is unaffected
    assert_eq!(other.handle_input(SessionInput::Heartbeat), Some(PushFrame::KeepAlive));
}

#[test]
fn next_frame_pumps_published_events_in_order() {
    let mut bus = Broadcaster::new();
    let mut session = StreamSession::open(&mut bus).unwrap();
    bus.broadcast(ev("event_changes", "one"));
    bus.broadcast(ev("event_changes", "two"));
    match session.next_frame(&mut bus) {
        Some(PushFrame::Data { data, .. }) => assert_eq!(data, "one"),
        other => panic!("unexpected {:?}", other),
    }
    match session.next_frame(&mut bus) {
        Some(PushFrame::Data { data, .. }) => assert_eq!(data, "two"),
        other => panic!("unexpected {:?}", other),
    }
    assert_eq!(session.next_frame(&mut bus), None);
}

#[test]
fn closing_a_session_releases_its_subscriber() {
    let mut bus = Broadcaster::new();
    let mut session = StreamSession::open(&mut bus).unwrap();
    let mut other = StreamSession::open(&mut bus).unwrap();
    assert_eq!(bus.subscriber_count(), 2);
    session.close(&mut bus);
    assert_eq!(bus.subscriber_count(), 1);
    // the surviving session still streams
    bus.broadcast(ev("c", "still-here"));
    match other.next_frame(&mut bus) {
        Some(PushFrame::Data { data, .. }) => assert_eq!(data, "still-here"),
        o => panic!("unexpected {:?}", o),
    }
    // the closed session produces nothing and touches nothing
    assert_eq!(session.next_frame(&mut bus), None);
}

#[test]
fn a_lagging_session_skips_the_gap_and_resumes_with_whats_left() {
    let mut bus = Broadcaster::new();
    let mut session = StreamSession::open(&mut bus).unwrap();
    // overflow this session's queue by one
    for i in 0..=backend::broadcaster::SUBSCRIBER_QUEUE_CAPACITY {
        bus.broadcast(ev("c", &format!("m{}", i)));
    }
    // the reported gap produces no frame and does not close the stream
    assert_eq!(session.next_frame(&mut bus), None);
    match session.next_frame(&mut bus) {
        Some(PushFrame::Data { data, .. }) => assert_eq!(data, "m1"),
        other => panic!("unexpected {:?}", other),
    }
}
