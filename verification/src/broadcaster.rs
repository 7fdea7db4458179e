//! In-process publish/subscribe fan-out.
//!
//! Every subscriber owns a bounded queue of pending events. Publishing
//! never blocks and never fails: a full queue loses its oldest buffered
//! event to admit the new one, and that loss stays local to the one
//! subscriber, counted in its lag. Subscribers registered after a publish
//! never see that event.

use vstd::prelude::*;

verus! {

/// One event fanned out to stream sessions: a channel tag and an opaque
/// payload.
#[derive(Debug, PartialEq, Eq)]
pub struct ServerEvent {
    pub channel: String,
    pub payload: String,
}

impl Clone for ServerEvent {
    fn clone(&self) -> (r: Self)
        ensures
            r == *self,
    {
        ServerEvent { channel: self.channel.clone(), payload: self.payload.clone() }
    }
}

/// What one subscriber holds: its handle, its pending events in arrival
/// order, and how many events it has lost to overflow since it last asked.
pub struct SubscriberModel {
    pub id: u64,
    pub queue: Seq<ServerEvent>,
    pub lag: u64,
}

/// A lag counter one higher, held at its ceiling rather than wrapping.
pub open spec fn bumped(lag: u64) -> u64 {
    if lag < u64::MAX {
        (lag + 1) as u64
    } else {
        lag
    }
}

/// One subscriber after one published event lands: appended while there is
/// room, else admitted by dropping the oldest buffered event and counting
/// the loss.
pub open spec fn delivered(m: SubscriberModel, ev: ServerEvent, capacity: int)
    -> SubscriberModel {
    if m.queue.len() < capacity {
        SubscriberModel { id: m.id, queue: m.queue.push(ev), lag: m.lag }
    } else {
        SubscriberModel { id: m.id, queue: m.queue.drop_first().push(ev), lag: bumped(m.lag) }
    }
}

/// All subscribers after one published event lands on each.
pub open spec fn published(subs: Seq<SubscriberModel>, ev: ServerEvent, capacity: int)
    -> Seq<SubscriberModel> {
    subs.map_values(|m: SubscriberModel| delivered(m, ev, capacity))
}

/// Index of the subscriber with handle `id`, or -1 when none has it.
pub open spec fn sub_index_of(subs: Seq<SubscriberModel>, id: u64) -> int
    decreases subs.len(),
{
    if subs.len() == 0 {
        -1
    } else if subs[0].id == id {
        0
    } else {
        let rest = sub_index_of(subs.drop_first(), id);
        if rest == -1 {
            -1
        } else {
            rest + 1
        }
    }
}

/// What `sub_index_of` returns: a valid index holding `id` with no earlier
/// occurrence, or -1 when `id` is absent.
pub proof fn lemma_sub_index_of(subs: Seq<SubscriberModel>, id: u64)
    ensures
        -1 <= sub_index_of(subs, id) < subs.len(),
        sub_index_of(subs, id) >= 0 ==> subs[sub_index_of(subs, id)].id == id,
        forall|j: int|
            0 <= j < subs.len() && (#[trigger] subs[j]).id == id ==> sub_index_of(subs, id)
                >= 0 && sub_index_of(subs, id) <= j,
        sub_index_of(subs, id) == -1 ==> forall|j: int|
            0 <= j < subs.len() ==> (#[trigger] subs[j]).id != id,
    decreases subs.len(),
{
    if subs.len() > 0 && subs[0].id != id {
        let rest = subs.drop_first();
        lemma_sub_index_of(rest, id);
        assert forall|j: int| 0 <= j < subs.len() && (#[trigger] subs[j]).id == id implies
            sub_index_of(subs, id) >= 0 && sub_index_of(subs, id) <= j by {
            assert(rest[j - 1] == subs[j]);
        }
        if sub_index_of(subs, id) == -1 {
            assert forall|j: int| 0 <= j < subs.len() implies (#[trigger] subs[j]).id
                != id by {
                if j > 0 {
                    assert(rest[j - 1] == subs[j]);
                }
            }
        }
    }
}

/// A subscriber with its lag acknowledged and reset.
pub open spec fn lag_cleared(m: SubscriberModel) -> SubscriberModel {
    SubscriberModel { id: m.id, queue: m.queue, lag: 0 }
}

/// A subscriber with its front event handed out.
pub open spec fn popped(m: SubscriberModel) -> SubscriberModel {
    SubscriberModel { id: m.id, queue: m.queue.drop_first(), lag: m.lag }
}

/// What one receive attempt reports.
#[derive(Debug, PartialEq, Eq)]
pub enum RecvOutcome {
    /// The next pending event, in publish order.
    Event(ServerEvent),
    /// This many older events were lost to overflow; the next attempt
    /// continues with what is still buffered.
    Lagged(u64),
    /// Nothing is pending.
    Empty,
    /// No subscriber carries this handle.
    Unknown,
}

struct SubscriberQueue {
    id: u64,
    queue: Vec<ServerEvent>,
    lag: u64,
}

impl View for SubscriberQueue {
    type V = SubscriberModel;

    closed spec fn view(&self) -> SubscriberModel {
        SubscriberModel { id: self.id, queue: self.queue@, lag: self.lag }
    }
}

/// How many pending events one subscriber's queue holds at most.
pub const SUBSCRIBER_QUEUE_CAPACITY: usize = 100;

/// The fan-out hub: the registry of live subscribers.
pub struct Broadcaster {
    subs: Vec<SubscriberQueue>,
    next_id: u64,
    capacity: usize,
}

impl View for Broadcaster {
    type V = Seq<SubscriberModel>;

    closed spec fn view(&self) -> Seq<SubscriberModel> {
        self.subs@.map_values(|sq: SubscriberQueue| sq@)
    }
}

impl Broadcaster {
    /// Handles are unique, handed out below `next_id`, and no queue
    /// outgrows the bound.
    pub closed spec fn wf(self) -> bool {
        &&& forall|i: int, j: int|
            #![trigger self@[i], self@[j]]
            0 <= i < j < self@.len() ==> self@[i].id != self@[j].id
        &&& forall|i: int| 0 <= i < self@.len() ==> (#[trigger] self@[i]).id < self.next_id
        &&& forall|i: int|
            0 <= i < self@.len() ==> (#[trigger] self@[i]).queue.len() <= self.capacity
        &&& self.capacity >= 1
    }

    /// The bound on each subscriber's pending queue.
    pub closed spec fn spec_capacity(self) -> usize {
        self.capacity
    }

    /// The handle the next `subscribe` hands out.
    pub closed spec fn spec_next_id(self) -> u64 {
        self.next_id
    }

    /// What well-formedness guarantees, over the public view, so that
    /// callers can invoke the fan-out laws: handles are unique, all below
    /// the next one to be handed out, and every queue respects the bound.
    pub proof fn lemma_wf_properties(self)
        requires
            self.wf(),
        ensures
            forall|i: int, j: int|
                #![trigger self@[i], self@[j]]
                0 <= i < j < self@.len() ==> self@[i].id != self@[j].id,
            forall|i: int|
                0 <= i < self@.len() ==> (#[trigger] self@[i]).id < self.spec_next_id(),
            forall|i: int|
                0 <= i < self@.len() ==> (#[trigger] self@[i]).queue.len()
                    <= self.spec_capacity(),
            self.spec_capacity() >= 1,
    {
    }

    pub fn new() -> (r: Broadcaster)
        ensures
            r.wf(),
            r@ == Seq::<SubscriberModel>::empty(),
            r.spec_capacity() == SUBSCRIBER_QUEUE_CAPACITY,
            r.spec_next_id() == 0,
    {
        Broadcaster { subs: Vec::new(), next_id: 0, capacity: SUBSCRIBER_QUEUE_CAPACITY }
    }

    pub fn subscriber_count(&self) -> (r: usize)
        ensures
            r == self@.len(),
    {
        self.subs.len()
    }

    /// Registers a new subscriber with an empty queue and returns its
    /// handle. The handle space is practically inexhaustible; should it
    /// ever fill up, the subscription is refused.
    pub fn subscribe(&mut self) -> (r: Option<u64>)
        requires
            old(self).wf(),
        ensures
            final(self).wf(),
            final(self).spec_capacity() == old(self).spec_capacity(),
            old(self).spec_next_id() < u64::MAX ==> r == Some(old(self).spec_next_id())
                && final(self)@ == old(self)@.push(
                new_subscriber(old(self).spec_next_id()),
            ) && final(self).spec_next_id() == old(self).spec_next_id() + 1,
            old(self).spec_next_id() == u64::MAX ==> r is None && *final(self) == *old(self),
    {
        if self.next_id == u64::MAX {
            return None;
        }
        let id = self.next_id;
        self.next_id = id + 1;
        let ghost pre = self.subs@;
        self.subs.push(SubscriberQueue { id, queue: Vec::new(), lag: 0 });
        proof {
            assert(self@ =~= pre.map_values(|sq: SubscriberQueue| sq@).push(
                new_subscriber(id),
            ));
            let post = self@;
            let n = post.len();
            assert forall|a: int, b: int|
                #![trigger post[a], post[b]]
                0 <= a < b < n implies post[a].id != post[b].id by {
                if b < n - 1 {
                    assert(old(self)@[a].id != old(self)@[b].id);
                } else {
                    assert(old(self)@[a].id < old(self).spec_next_id());
                }
            }
            assert forall|a: int| 0 <= a < n implies (#[trigger] post[a]).id
                < self.next_id by {
                if a < n - 1 {
                    assert(old(self)@[a].id < old(self).spec_next_id());
                }
            }
            assert forall|a: int| 0 <= a < n implies (#[trigger] post[a]).queue.len()
                <= self.capacity by {
                if a < n - 1 {
                    assert(old(self)@[a].queue.len() <= old(self).spec_capacity());
                }
            }
        }
        Some(id)
    }

    /// Removes the subscriber with handle `id`, if registered, leaving
    /// every other subscriber untouched.
    pub fn unsubscribe(&mut self, id: u64) -> (found: bool)
        requires
            old(self).wf(),
        ensures
            final(self).wf(),
            final(self).spec_capacity() == old(self).spec_capacity(),
            final(self).spec_next_id() == old(self).spec_next_id(),
            sub_index_of(old(self)@, id) >= 0 ==> found && final(self)@ == old(self)@.remove(
                sub_index_of(old(self)@, id),
            ),
            sub_index_of(old(self)@, id) == -1 ==> !found && *final(self) == *old(self),
    {
        proof {
            lemma_sub_index_of(self@, id);
        }
        let n = self.subs.len();
        let mut i: usize = 0;
        while i < n
            invariant
                old(self).wf(),
                *self == *old(self),
                n == self.subs@.len(),
                0 <= i <= n,
                forall|j: int| 0 <= j < i ==> (#[trigger] self.subs@[j]).id != id,
            decreases n - i,
        {
            if self.subs[i].id == id {
                proof {
                    lemma_sub_index_of(self@, id);
                    let idx = sub_index_of(self@, id);
                    assert(self@[i as int].id == id);
                    assert(idx >= 0 && idx <= i as int);
                    if idx < i as int {
                        assert(self@[idx].id == id);
                        assert(self.subs@[idx]@.id == id);
                    }
                }
                let ghost pre = self.subs@;
                self.subs.remove(i);
                proof {
                    assert(self@ =~= pre.map_values(|sq: SubscriberQueue| sq@).remove(
                        i as int,
                    ));
                    let post = self@;
                    assert forall|a: int, b: int|
                        #![trigger post[a], post[b]]
                        0 <= a < b < post.len() implies post[a].id != post[b].id by {
                        let i = i as int;
                        let ia = if a < i { a } else { a + 1 };
                        let ib = if b < i { b } else { b + 1 };
                        assert(old(self)@[ia].id != old(self)@[ib].id);
                        assert(post[a] == old(self)@[ia]);
                        assert(post[b] == old(self)@[ib]);
                    }
                    assert forall|a: int| 0 <= a < post.len() implies (#[trigger] post[a]).id
                        < self.next_id by {
                        let i = i as int;
                        let ia = if a < i { a } else { a + 1 };
                        assert(old(self)@[ia].id < old(self).spec_next_id());
                    }
                    assert forall|a: int| 0 <= a < post.len() implies
                        (#[trigger] post[a]).queue.len() <= self.capacity by {
                        let i = i as int;
                        let ia = if a < i { a } else { a + 1 };
                        assert(old(self)@[ia].queue.len() <= old(self).spec_capacity());
                    }
                }
                return true;
            }
            i += 1;
        }
        proof {
            lemma_sub_index_of(self@, id);
            if sub_index_of(self@, id) >= 0 {
                let idx = sub_index_of(self@, id);
                assert(self.subs@[idx]@.id == id);
            }
        }
        false
    }

    /// Delivers `event` to every currently registered subscriber, in
    /// registry order, never blocking: each full queue loses only its own
    /// oldest buffered event. Registration order, every other queue and the
    /// publisher are untouched.
    pub fn broadcast(&mut self, event: ServerEvent)
        requires
            old(self).wf(),
        ensures
            final(self).wf(),
            final(self).spec_capacity() == old(self).spec_capacity(),
            final(self).spec_next_id() == old(self).spec_next_id(),
            final(self)@ == published(old(self)@, event, old(self).spec_capacity() as int),
    {
        let n = self.subs.len();
        let mut i: usize = 0;
        while i < n
            invariant
                old(self).wf(),
                n == self.subs@.len(),
                0 <= i <= n,
                self.capacity == old(self).spec_capacity(),
                self.next_id == old(self).spec_next_id(),
                self.capacity >= 1,
                forall|j: int| i <= j < n ==> self.subs@[j] == #[trigger] old(self).subs@[j],
                forall|j: int|
                    0 <= j < i ==> self.subs@[j]@ == delivered(
                        #[trigger] old(self).subs@[j]@,
                        event,
                        old(self).spec_capacity() as int,
                    ),
            decreases n - i,
        {
            let ghost pre = self.subs@[i as int]@;
            let capacity = self.capacity;
            let sq = &mut self.subs[i];
            if sq.queue.len() < capacity {
                sq.queue.push(event.clone());
            } else {
                sq.queue.remove(0);
                sq.queue.push(event.clone());
                if sq.lag < u64::MAX {
                    sq.lag = sq.lag + 1;
                }
            }
            proof {
                assert(self.subs@[i as int]@ == delivered(
                    pre,
                    event,
                    old(self).spec_capacity() as int,
                ));
            }
            i += 1;
        }
        proof {
            assert(self@ =~= published(old(self)@, event, old(self).spec_capacity() as int));
            assert forall|a: int, b: int|
                #![trigger self@[a], self@[b]]
                0 <= a < b < self@.len() implies self@[a].id != self@[b].id by {
                assert(old(self)@[a].id != old(self)@[b].id);
            }
        }
    }

    /// One receive attempt for the subscriber with handle `id`: first any
    /// pending loss is reported once, then buffered events come out in
    /// publish order, and an exhausted queue reports empty.
    pub fn recv(&mut self, id: u64) -> (r: RecvOutcome)
        requires
            old(self).wf(),
        ensures
            final(self).wf(),
            final(self).spec_capacity() == old(self).spec_capacity(),
            final(self).spec_next_id() == old(self).spec_next_id(),
            ({
                let idx = sub_index_of(old(self)@, id);
                &&& idx == -1 ==> r == RecvOutcome::Unknown && *final(self) == *old(self)
                &&& idx >= 0 && old(self)@[idx].lag > 0 ==> r == RecvOutcome::Lagged(
                    old(self)@[idx].lag,
                ) && final(self)@ == old(self)@.update(idx, lag_cleared(old(self)@[idx]))
                &&& idx >= 0 && old(self)@[idx].lag == 0 && old(self)@[idx].queue.len() > 0
                    ==> r == RecvOutcome::Event(old(self)@[idx].queue[0]) && final(self)@
                    == old(self)@.update(idx, popped(old(self)@[idx]))
                &&& idx >= 0 && old(self)@[idx].lag == 0 && old(self)@[idx].queue.len() == 0
                    ==> r == RecvOutcome::Empty && *final(self) == *old(self)
            }),
    {
        let n = self.subs.len();
        let mut i: usize = 0;
        while i < n
            invariant
                old(self).wf(),
                *self == *old(self),
                n == self.subs@.len(),
                0 <= i <= n,
                forall|j: int| 0 <= j < i ==> (#[trigger] self.subs@[j]).id != id,
            decreases n - i,
        {
            if self.subs[i].id == id {
                proof {
                    lemma_sub_index_of(self@, id);
                    let idx = sub_index_of(self@, id);
                    assert(self@[i as int].id == id);
                    assert(idx >= 0 && idx <= i as int);
                    if idx < i as int {
                        assert(self@[idx].id == id);
                        assert(self.subs@[idx]@.id == id);
                    }
                }
                let ghost pre_all = self.subs@;
                let ghost pre = self.subs@[i as int]@;
                let lag = self.subs[i].lag;
                if lag > 0 {
                    let sq = &mut self.subs[i];
                    sq.lag = 0;
                    proof {
                        assert(self@ =~= pre_all.map_values(|q: SubscriberQueue| q@).update(
                            i as int,
                            lag_cleared(pre),
                        ));
                    }
                    return RecvOutcome::Lagged(lag);
                }
                let pending = self.subs[i].queue.len();
                if pending > 0 {
                    let sq = &mut self.subs[i];
                    let ev = sq.queue.remove(0);
                    proof {
                        assert(self@ =~= pre_all.map_values(|q: SubscriberQueue| q@).update(
                            i as int,
                            popped(pre),
                        ));
                    }
                    return RecvOutcome::Event(ev);
                }
                return RecvOutcome::Empty;
            }
            i += 1;
        }
        proof {
            lemma_sub_index_of(self@, id);
            if sub_index_of(self@, id) >= 0 {
                let idx = sub_index_of(self@, id);
                assert(self.subs@[idx]@.id == id);
            }
        }
        RecvOutcome::Unknown
    }
}

/// A freshly registered subscriber: empty queue, no loss.
pub open spec fn new_subscriber(id: u64) -> SubscriberModel {
    SubscriberModel { id, queue: Seq::empty(), lag: 0 }
}

/// One publish is observed, in publish order, by every subscriber present
/// at the call: each keeps its handle, keeps the relative order of what it
/// already held, and gains the event at the back of its queue. A
/// subscriber registered afterwards starts empty and never sees it.
pub proof fn lemma_publish_observed(
    subs: Seq<SubscriberModel>,
    ev: ServerEvent,
    capacity: int,
)
    ensures
        published(subs, ev, capacity).len() == subs.len(),
        forall|i: int|
            0 <= i < subs.len() ==> (#[trigger] published(subs, ev, capacity)[i]).id
                == subs[i].id,
        forall|i: int|
            0 <= i < subs.len() ==> (#[trigger] published(subs, ev, capacity)[i]).queue.last()
                == ev,
        forall|i: int|
            0 <= i < subs.len() && subs[i].queue.len() < capacity ==> (#[trigger] published(
                subs,
                ev,
                capacity,
            )[i]).queue == subs[i].queue.push(ev),
        forall|id: u64| (#[trigger] new_subscriber(id)).queue.len() == 0,
{
    assert forall|i: int| 0 <= i < subs.len() implies (#[trigger] published(
        subs,
        ev,
        capacity,
    )[i]).queue.last() == ev by {
        assert(published(subs, ev, capacity)[i] == delivered(subs[i], ev, capacity));
    }
}

/// Overflow stays local: a full queue loses exactly its oldest buffered
/// event — everything else it held survives, shifted one forward, with the
/// loss counted — and every other subscriber's queue is computed from its
/// own state alone, untouched by a neighbour's overflow.
pub proof fn lemma_overflow_local(subs: Seq<SubscriberModel>, ev: ServerEvent, capacity: int)
    requires
        capacity >= 1,
    ensures
        forall|i: int|
            0 <= i < subs.len() ==> #[trigger] published(subs, ev, capacity)[i] == delivered(
                subs[i],
                ev,
                capacity,
            ),
        forall|i: int|
            0 <= i < subs.len() && subs[i].queue.len() >= capacity ==> (#[trigger] published(
                subs,
                ev,
                capacity,
            )[i]).queue == subs[i].queue.drop_first().push(ev) && published(
                subs,
                ev,
                capacity,
            )[i].lag == bumped(subs[i].lag),
        forall|i: int, j: int|
            #![trigger published(subs, ev, capacity)[i].queue[j]]
            0 <= i < subs.len() && subs[i].queue.len() >= capacity && 0 <= j
                < subs[i].queue.len() - 1 ==> published(subs, ev, capacity)[i].queue[j]
                == subs[i].queue[j + 1],
{
}

impl Default for Broadcaster {
    fn default() -> (r: Broadcaster)
        ensures
            r.wf(),
            r@ == Seq::<SubscriberModel>::empty(),
            r.spec_capacity() == SUBSCRIBER_QUEUE_CAPACITY,
            r.spec_next_id() == 0,
    {
        Broadcaster::new()
    }
}

} // verus!
