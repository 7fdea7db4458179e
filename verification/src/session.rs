//! Per-client push-stream sessions.
//!
//! A session turns the events a subscriber receives into push frames, one
//! tagged frame per event, with a fixed keep-alive comment frame whenever
//! nothing real arrives. A reported gap — events lost to overflow — is
//! noted and the stream continues from the next available event. Only a
//! peer disconnect or a write failure ends the session; it then leaves its
//! subscriber registration behind.

use vstd::prelude::*;
use crate::broadcaster::{
    lag_cleared, popped, sub_index_of, Broadcaster, RecvOutcome, ServerEvent,
};

verus! {

/// The life of one session: opened, streaming frames, closed for good.
#[derive(Clone, Copy, Debug, PartialEq, Eq, Structural)]
pub enum SessionState {
    Open,
    Streaming,
    Closed,
}

/// What can happen to a session.
#[derive(Debug)]
pub enum SessionInput {
    /// The subscriber registration succeeded.
    Subscribed,
    /// The subscriber handed out the next pending event.
    Delivered(ServerEvent),
    /// The subscriber reported this many events lost to overflow.
    Gap(u64),
    /// The heartbeat interval elapsed with nothing pending.
    Heartbeat,
    /// The peer closed the connection.
    PeerClosed,
    /// Writing a frame to the peer failed.
    WriteFailed,
}

/// One frame of the push protocol: a named event carrying opaque data, or
/// the fixed keep-alive comment.
#[derive(Debug, PartialEq, Eq)]
pub enum PushFrame {
    Data { event: String, data: String },
    KeepAlive,
}

/// Seconds between keep-alive frames while no event arrives.
pub const HEARTBEAT_INTERVAL_SECS: u64 = 15;

/// The comment text a keep-alive frame carries on the wire.
pub fn keep_alive_text() -> (r: String)
    ensures
        r@ == "keep-alive"@,
{
    String::from_str("keep-alive")
}

/// Where one input takes the session. Only a peer disconnect or a write
/// failure reaches `Closed`; a streaming session absorbs everything else
/// in place.
pub open spec fn next_state(s: SessionState, i: SessionInput) -> SessionState {
    match s {
        SessionState::Closed => SessionState::Closed,
        SessionState::Open => match i {
            SessionInput::Subscribed => SessionState::Streaming,
            SessionInput::PeerClosed => SessionState::Closed,
            SessionInput::WriteFailed => SessionState::Closed,
            _ => SessionState::Open,
        },
        SessionState::Streaming => match i {
            SessionInput::PeerClosed => SessionState::Closed,
            SessionInput::WriteFailed => SessionState::Closed,
            _ => SessionState::Streaming,
        },
    }
}

/// The frame one input produces: a streaming session turns a delivered
/// event into a tagged data frame and a heartbeat into the keep-alive
/// comment; a gap produces nothing and the stream goes on.
pub open spec fn frame_for(s: SessionState, i: SessionInput) -> Option<PushFrame> {
    if s is Streaming {
        match i {
            SessionInput::Delivered(ev) => Some(
                PushFrame::Data { event: ev.channel, data: ev.payload },
            ),
            SessionInput::Heartbeat => Some(PushFrame::KeepAlive),
            _ => None,
        }
    } else {
        None
    }
}

/// Closing is caused by transport failure alone, whatever else happens
/// around the session.
pub proof fn lemma_close_only_on_transport_failure(s: SessionState, i: SessionInput)
    ensures
        next_state(s, i) is Closed <==> (s is Closed || i is PeerClosed || i is WriteFailed),
{
}

/// One client's session: its subscriber handle and where it stands in its
/// life cycle.
#[derive(Debug)]
pub struct StreamSession {
    subscriber: u64,
    state: SessionState,
}

impl StreamSession {
    pub closed spec fn spec_subscriber(self) -> u64 {
        self.subscriber
    }

    pub closed spec fn spec_state(self) -> SessionState {
        self.state
    }

    /// The handle of the subscriber this session drains.
    pub fn subscriber(&self) -> (r: u64)
        ensures
            r == self.spec_subscriber(),
    {
        self.subscriber
    }

    /// Where the session stands in its life cycle.
    pub fn state(&self) -> (r: SessionState)
        ensures
            r == self.spec_state(),
    {
        self.state
    }

    /// Opens a session: registers a subscriber and starts streaming.
    /// Events published before this point are never replayed to it.
    pub fn open(bus: &mut Broadcaster) -> (r: Option<StreamSession>)
        requires
            old(bus).wf(),
        ensures
            final(bus).wf(),
            final(bus).spec_capacity() == old(bus).spec_capacity(),
            old(bus).spec_next_id() < u64::MAX ==> (r matches Some(sess)
                && sess.spec_subscriber() == old(bus).spec_next_id() && sess.spec_state()
                is Streaming) && final(bus)@ == old(bus)@.push(
                crate::broadcaster::new_subscriber(old(bus).spec_next_id()),
            ),
            old(bus).spec_next_id() == u64::MAX ==> r is None && *final(bus) == *old(bus),
    {
        match bus.subscribe() {
            Some(id) => Some(StreamSession { subscriber: id, state: SessionState::Streaming }),
            None => None,
        }
    }

    /// Feeds one input through the session's state machine and hands back
    /// the frame to write, if any.
    pub fn handle_input(&mut self, input: SessionInput) -> (r: Option<PushFrame>)
        ensures
            final(self).spec_state() == next_state(old(self).spec_state(), input),
            final(self).spec_subscriber() == old(self).spec_subscriber(),
            r == frame_for(old(self).spec_state(), input),
    {
        let produce = match self.state {
            SessionState::Closed => None,
            SessionState::Open => {
                match input {
                    SessionInput::Subscribed => {
                        self.state = SessionState::Streaming;
                        None
                    },
                    SessionInput::PeerClosed => {
                        self.state = SessionState::Closed;
                        None
                    },
                    SessionInput::WriteFailed => {
                        self.state = SessionState::Closed;
                        None
                    },
                    _ => None,
                }
            },
            SessionState::Streaming => {
                match input {
                    SessionInput::Delivered(ev) => Some(
                        PushFrame::Data { event: ev.channel, data: ev.payload },
                    ),
                    SessionInput::Heartbeat => Some(PushFrame::KeepAlive),
                    SessionInput::PeerClosed => {
                        self.state = SessionState::Closed;
                        None
                    },
                    SessionInput::WriteFailed => {
                        self.state = SessionState::Closed;
                        None
                    },
                    _ => None,
                }
            },
        };
        produce
    }

    /// Polls this session's subscriber once: the next pending event comes
    /// back as its data frame; a reported gap is swallowed and the stream
    /// continues; nothing pending produces nothing. A session whose
    /// subscriber is gone closes; a session not streaming touches nothing.
    pub fn next_frame(&mut self, bus: &mut Broadcaster) -> (r: Option<PushFrame>)
        requires
            old(bus).wf(),
        ensures
            final(bus).wf(),
            final(bus).spec_capacity() == old(bus).spec_capacity(),
            final(bus).spec_next_id() == old(bus).spec_next_id(),
            final(self).spec_subscriber() == old(self).spec_subscriber(),
            !(old(self).spec_state() is Streaming) ==> r is None && *final(self) == *old(self)
                && *final(bus) == *old(bus),
            ({
                let idx = sub_index_of(old(bus)@, old(self).spec_subscriber());
                let sub = old(bus)@[idx];
                let was_streaming = old(self).spec_state() is Streaming;
                &&& was_streaming && idx == -1 ==> r is None
                    && final(self).spec_state() is Closed && *final(bus) == *old(bus)
                &&& was_streaming && idx >= 0 && sub.lag > 0 ==> r is None
                    && final(self).spec_state() is Streaming
                    && final(bus)@ == old(bus)@.update(idx, lag_cleared(sub))
                &&& was_streaming && idx >= 0 && sub.lag == 0 && sub.queue.len() > 0
                    ==> r == frame_of_event(sub.queue[0])
                    && final(self).spec_state() is Streaming
                    && final(bus)@ == old(bus)@.update(idx, popped(sub))
                &&& was_streaming && idx >= 0 && sub.lag == 0 && sub.queue.len() == 0
                    ==> r is None && final(self).spec_state() is Streaming
                    && *final(bus) == *old(bus)
            }),
    {
        match self.state {
            SessionState::Streaming => {},
            _ => {
                return None;
            },
        }
        match bus.recv(self.subscriber) {
            RecvOutcome::Event(ev) => Some(
                PushFrame::Data { event: ev.channel, data: ev.payload },
            ),
            RecvOutcome::Lagged(_) => None,
            RecvOutcome::Empty => None,
            RecvOutcome::Unknown => {
                self.state = SessionState::Closed;
                None
            },
        }
    }

    /// Ends the session and releases its subscriber registration; every
    /// other subscriber is untouched.
    pub fn close(&mut self, bus: &mut Broadcaster)
        requires
            old(bus).wf(),
        ensures
            final(bus).wf(),
            final(bus).spec_capacity() == old(bus).spec_capacity(),
            final(bus).spec_next_id() == old(bus).spec_next_id(),
            final(self).spec_state() is Closed,
            final(self).spec_subscriber() == old(self).spec_subscriber(),
            sub_index_of(old(bus)@, old(self).spec_subscriber()) >= 0 ==> final(bus)@
                == old(bus)@.remove(sub_index_of(old(bus)@, old(self).spec_subscriber())),
            sub_index_of(old(bus)@, old(self).spec_subscriber()) == -1 ==> *final(bus)
                == *old(bus),
    {
        bus.unsubscribe(self.subscriber);
        self.state = SessionState::Closed;
    }
}

/// The data frame one event becomes: the channel names the frame, the
/// payload rides as its data.
pub open spec fn frame_of_event(ev: ServerEvent) -> Option<PushFrame> {
    Some(PushFrame::Data { event: ev.channel, data: ev.payload })
}

} // verus!
