//! The per-instance poller: it discovers change records past its watermark
//! and applies each, in id order, as two local effects — invalidate the
//! caches the record's channel routes to, then publish the matching event.
//! The watermark only ever moves forward, and only after the record it
//! covers has been applied, so a crash can at worst re-deliver; both
//! effects are idempotent, so re-delivery is harmless.

use vstd::prelude::*;
use crate::broadcaster::{delivered, published, Broadcaster, ServerEvent, SubscriberModel};
use crate::cache::{event_channel, participant_channel, AppCache};
use crate::log::{changes_after, ChangeLog, ChangeRecord};

verus! {

/// What the storage collaborator reports when a query fails; the cycle
/// that saw it leaves everything unchanged and the next cycle retries.
#[derive(Debug)]
pub struct StorageError {
    pub message: String,
}

/// The event one log record publishes: same channel, same payload.
pub open spec fn event_of_record(rec: ChangeRecord) -> ServerEvent {
    ServerEvent { channel: rec.channel, payload: rec.payload }
}

/// Whether some record in `s` carries channel `ch`.
pub open spec fn touches(s: Seq<ChangeRecord>, ch: Seq<char>) -> bool {
    exists|i: int| 0 <= i < s.len() && (#[trigger] s[i]).channel@ == ch
}

/// The watermark after applying `s` from `wm`: the highest id seen, and
/// never below where it started.
pub open spec fn advanced(wm: u64, s: Seq<ChangeRecord>) -> u64
    decreases s.len(),
{
    if s.len() == 0 {
        wm
    } else {
        let p = advanced(wm, s.drop_last());
        if s.last().id > p {
            s.last().id
        } else {
            p
        }
    }
}

/// The subscribers after the events of `s` are published one by one, in
/// log order.
pub open spec fn fanned_out(
    subs: Seq<SubscriberModel>,
    s: Seq<ChangeRecord>,
    capacity: int,
) -> Seq<SubscriberModel>
    decreases s.len(),
{
    if s.len() == 0 {
        subs
    } else {
        published(fanned_out(subs, s.drop_last(), capacity), event_of_record(s.last()), capacity)
    }
}

/// The watermark never moves backwards, and lands exactly on the highest
/// id of the batch once that exceeds where it started.
pub proof fn lemma_advanced_bounds(wm: u64, s: Seq<ChangeRecord>)
    ensures
        advanced(wm, s) >= wm,
        forall|i: int| 0 <= i < s.len() ==> advanced(wm, s) >= (#[trigger] s[i]).id,
        advanced(wm, s) == wm || exists|i: int|
            0 <= i < s.len() && advanced(wm, s) == (#[trigger] s[i]).id,
    decreases s.len(),
{
    if s.len() > 0 {
        let prefix = s.drop_last();
        lemma_advanced_bounds(wm, prefix);
        assert forall|i: int| 0 <= i < s.len() implies advanced(wm, s)
            >= (#[trigger] s[i]).id by {
            if i < s.len() - 1 {
                assert(prefix[i] == s[i]);
            }
        }
        if advanced(wm, s) != wm {
            if s.last().id > advanced(wm, prefix) {
                assert(s[s.len() - 1] == s.last());
            } else {
                let j = choose|j: int|
                    0 <= j < prefix.len() && advanced(wm, prefix) == (#[trigger] prefix[j]).id;
                assert(s[j] == prefix[j]);
            }
        }
    }
}

/// A cycle that fetched its batch through `changes_since` — every id above
/// the watermark, ascending — and saw no error lands the watermark exactly
/// on the batch's highest id, which is its last.
pub proof fn lemma_watermark_after_clean_cycle(wm: u64, s: Seq<ChangeRecord>)
    requires
        s.len() > 0,
        forall|i: int| 0 <= i < s.len() ==> (#[trigger] s[i]).id > wm,
        forall|i: int, j: int|
            #![trigger s[i], s[j]]
            0 <= i < j < s.len() ==> s[i].id < s[j].id,
    ensures
        advanced(wm, s) == s.last().id,
        forall|i: int| 0 <= i < s.len() ==> advanced(wm, s) >= (#[trigger] s[i]).id,
    decreases s.len(),
{
    lemma_advanced_bounds(wm, s);
    let prefix = s.drop_last();
    if prefix.len() == 0 {
        assert(advanced(wm, prefix) == wm);
    } else {
        assert forall|i: int| 0 <= i < prefix.len() implies (#[trigger] prefix[i]).id
            > wm by {
            assert(prefix[i] == s[i]);
        }
        assert forall|i: int, j: int|
            #![trigger prefix[i], prefix[j]]
            0 <= i < j < prefix.len() implies prefix[i].id < prefix[j].id by {
            assert(s[i].id < s[j].id);
        }
        lemma_watermark_after_clean_cycle(wm, prefix);
        assert(prefix.last() == s[s.len() - 2]);
        assert(s[s.len() - 2].id < s[s.len() - 1].id);
    }
}

/// A subscriber with room for the whole batch observes it entire and in
/// log order: its queue afterwards is what it held, followed by one event
/// per record, oldest first; its handle and its loss count are untouched.
/// A subscriber registered only afterwards starts with an empty queue and
/// sees none of it.
pub proof fn lemma_fanned_out_order(
    subs: Seq<SubscriberModel>,
    s: Seq<ChangeRecord>,
    capacity: int,
)
    requires
        forall|i: int|
            0 <= i < subs.len() ==> (#[trigger] subs[i]).queue.len() + s.len() <= capacity,
    ensures
        fanned_out(subs, s, capacity).len() == subs.len(),
        forall|i: int|
            0 <= i < subs.len() ==> (#[trigger] fanned_out(subs, s, capacity)[i]).queue
                == subs[i].queue + s.map_values(|rec: ChangeRecord| event_of_record(rec)),
        forall|i: int|
            0 <= i < subs.len() ==> (#[trigger] fanned_out(subs, s, capacity)[i]).id
                == subs[i].id && fanned_out(subs, s, capacity)[i].lag == subs[i].lag,
    decreases s.len(),
{
    let events = s.map_values(|rec: ChangeRecord| event_of_record(rec));
    if s.len() == 0 {
        assert forall|i: int| 0 <= i < subs.len() implies (#[trigger] fanned_out(
            subs,
            s,
            capacity,
        )[i]).queue == subs[i].queue + events by {
            assert(subs[i].queue + events =~= subs[i].queue);
        }
    } else {
        let p = s.drop_last();
        let last_event = event_of_record(s.last());
        assert forall|i: int| 0 <= i < subs.len() implies (#[trigger] subs[i]).queue.len()
            + p.len() <= capacity by {
            assert(subs[i].queue.len() + s.len() <= capacity);
        }
        lemma_fanned_out_order(subs, p, capacity);
        let mid = fanned_out(subs, p, capacity);
        let out = fanned_out(subs, s, capacity);
        let p_events = p.map_values(|rec: ChangeRecord| event_of_record(rec));
        assert forall|i: int| 0 <= i < subs.len() implies (#[trigger] out[i]).queue
            == subs[i].queue + events && out[i].id == subs[i].id && out[i].lag
            == subs[i].lag by {
            assert(out[i] == delivered(mid[i], last_event, capacity));
            assert(mid[i].queue == subs[i].queue + p_events);
            assert(mid[i].queue.len() < capacity);
            assert(out[i].queue == (subs[i].queue + p_events).push(last_event));
            assert(events =~= p_events.push(last_event));
            assert((subs[i].queue + p_events).push(last_event) =~= subs[i].queue + events);
        }
    }
}

/// Extending a batch by one record reaches a channel exactly when the
/// batch already did or the new record carries it.
proof fn lemma_touches_step(s: Seq<ChangeRecord>, i: int, ch: Seq<char>)
    requires
        0 <= i < s.len(),
    ensures
        touches(s.take(i + 1), ch) <==> (touches(s.take(i), ch) || s[i].channel@ == ch),
{
    let a = s.take(i);
    let b = s.take(i + 1);
    if touches(a, ch) {
        let j = choose|j: int| 0 <= j < a.len() && (#[trigger] a[j]).channel@ == ch;
        assert(b[j] == a[j]);
        assert(touches(b, ch));
    }
    if s[i].channel@ == ch {
        assert(b[i] == s[i]);
        assert(touches(b, ch));
    }
    if touches(b, ch) {
        let j = choose|j: int| 0 <= j < b.len() && (#[trigger] b[j]).channel@ == ch;
        if j < i {
            assert(a[j] == b[j]);
            assert(touches(a, ch));
        } else {
            assert(b[j] == s[i]);
        }
    }
}

/// One instance's poller state: the highest record id it has fully
/// processed. In memory only; a restarted instance resumes from the log's
/// current maximum and never replays history.
#[derive(Debug)]
pub struct Poller {
    watermark: u64,
}

impl Poller {
    /// The highest record id fully processed by this instance.
    pub closed spec fn spec_watermark(self) -> u64 {
        self.watermark
    }

    pub fn new(initial: u64) -> (r: Poller)
        ensures
            r.spec_watermark() == initial,
    {
        Poller { watermark: initial }
    }

    /// A poller starting at the log's current maximum id, as an instance
    /// does on restart: history before the start is never replayed.
    pub fn resuming(log: &ChangeLog) -> (r: Poller)
        requires
            log.wf(),
        ensures
            log@.len() == 0 ==> r.spec_watermark() == 0,
            log@.len() > 0 ==> r.spec_watermark() == log@.last().id,
    {
        Poller { watermark: log.max_id() }
    }

    pub fn watermark(&self) -> (r: u64)
        ensures
            r == self.spec_watermark(),
    {
        self.watermark
    }

    /// Applies a batch of records in order: for each record, the caches its
    /// channel routes to are cleared, then its event is published to every
    /// subscriber; the watermark ends at the highest id applied and never
    /// moves back. Applying the same records again only re-clears caches
    /// and re-publishes: nothing is skipped and nothing else is disturbed.
    pub fn apply_batch(
        &mut self,
        records: &Vec<ChangeRecord>,
        cache: &mut AppCache,
        bus: &mut Broadcaster,
    )
        requires
            old(cache).wf(),
            old(bus).wf(),
        ensures
            final(self).spec_watermark() == advanced(old(self).spec_watermark(), records@),
            final(self).spec_watermark() >= old(self).spec_watermark(),
            final(cache).wf(),
            final(cache).caches_configured_as(*old(cache)),
            touches(records@, event_channel()) ==> final(cache).events_cleared(),
            !touches(records@, event_channel()) ==> final(cache).events_unchanged(*old(cache)),
            touches(records@, participant_channel()) ==> final(cache).participants_cleared(),
            !touches(records@, participant_channel()) ==> final(cache).participants_unchanged(
                *old(cache),
            ),
            final(bus).wf(),
            final(bus).spec_capacity() == old(bus).spec_capacity(),
            final(bus).spec_next_id() == old(bus).spec_next_id(),
            final(bus)@ == fanned_out(old(bus)@, records@, old(bus).spec_capacity() as int),
    {
        proof {
            lemma_advanced_bounds(self.watermark, records@);
        }
        let n = records.len();
        let mut i: usize = 0;
        while i < n
            invariant
                old(cache).wf(),
                old(bus).wf(),
                n == records@.len(),
                0 <= i <= n,
                self.watermark == advanced(old(self).spec_watermark(), records@.take(i as int)),
                cache.wf(),
                cache.caches_configured_as(*old(cache)),
                touches(records@.take(i as int), event_channel()) ==> cache.events_cleared(),
                !touches(records@.take(i as int), event_channel()) ==> cache.events_unchanged(
                    *old(cache),
                ),
                touches(records@.take(i as int), participant_channel())
                    ==> cache.participants_cleared(),
                !touches(records@.take(i as int), participant_channel())
                    ==> cache.participants_unchanged(*old(cache)),
                bus.wf(),
                bus.spec_capacity() == old(bus).spec_capacity(),
                bus.spec_next_id() == old(bus).spec_next_id(),
                bus@ == fanned_out(
                    old(bus)@,
                    records@.take(i as int),
                    old(bus).spec_capacity() as int,
                ),
            decreases n - i,
        {
            proof {
                assert(records@.take(i + 1 as int).drop_last() =~= records@.take(i as int));
                assert(records@.take(i + 1 as int).last() == records@[i as int]);
                lemma_touches_step(records@, i as int, event_channel());
                lemma_touches_step(records@, i as int, participant_channel());
            }
            let rec = &records[i];
            cache.invalidate_for_channel(&rec.channel);
            let event = ServerEvent { channel: rec.channel.clone(), payload: rec.payload.clone() };
            proof {
                assert(event == event_of_record(records@[i as int]));
            }
            bus.broadcast(event);
            if rec.id > self.watermark {
                self.watermark = rec.id;
            }
            i += 1;
        }
        proof {
            assert(records@.take(n as int) =~= records@);
        }
    }

    /// One poll cycle given what the storage query returned: a batch is
    /// applied as in `apply_batch`; a storage error leaves the watermark,
    /// the caches and every subscriber exactly as they were, to be retried
    /// by the next cycle.
    pub fn poll_cycle(
        &mut self,
        fetched: Result<Vec<ChangeRecord>, StorageError>,
        cache: &mut AppCache,
        bus: &mut Broadcaster,
    )
        requires
            old(cache).wf(),
            old(bus).wf(),
        ensures
            final(cache).wf(),
            final(bus).wf(),
            final(self).spec_watermark() >= old(self).spec_watermark(),
            final(cache).caches_configured_as(*old(cache)),
            final(bus).spec_capacity() == old(bus).spec_capacity(),
            final(bus).spec_next_id() == old(bus).spec_next_id(),
            fetched matches Err(_) ==> *final(self) == *old(self) && *final(cache)
                == *old(cache) && *final(bus) == *old(bus),
            fetched matches Ok(records) ==> final(self).spec_watermark() == advanced(
                old(self).spec_watermark(),
                records@,
            ),
            fetched matches Ok(records) ==> (touches(records@, event_channel())
                ==> final(cache).events_cleared()),
            fetched matches Ok(records) ==> (!touches(records@, event_channel())
                ==> final(cache).events_unchanged(*old(cache))),
            fetched matches Ok(records) ==> (touches(records@, participant_channel())
                ==> final(cache).participants_cleared()),
            fetched matches Ok(records) ==> (!touches(records@, participant_channel())
                ==> final(cache).participants_unchanged(*old(cache))),
            fetched matches Ok(records) ==> final(bus)@ == fanned_out(
                old(bus)@,
                records@,
                old(bus).spec_capacity() as int,
            ),
    {
        match fetched {
            Ok(records) => {
                self.apply_batch(&records, cache, bus);
            },
            Err(_) => {},
        }
    }

    /// One complete local cycle against an in-memory log: everything past
    /// the watermark is fetched and applied in id order.
    pub fn poll_log(&mut self, log: &ChangeLog, cache: &mut AppCache, bus: &mut Broadcaster)
        requires
            log.wf(),
            old(cache).wf(),
            old(bus).wf(),
        ensures
            final(self).spec_watermark() == advanced(
                old(self).spec_watermark(),
                changes_after(log@, old(self).spec_watermark()),
            ),
            final(self).spec_watermark() >= old(self).spec_watermark(),
            final(cache).wf(),
            final(cache).caches_configured_as(*old(cache)),
            touches(changes_after(log@, old(self).spec_watermark()), event_channel())
                ==> final(cache).events_cleared(),
            !touches(changes_after(log@, old(self).spec_watermark()), event_channel())
                ==> final(cache).events_unchanged(*old(cache)),
            touches(changes_after(log@, old(self).spec_watermark()), participant_channel())
                ==> final(cache).participants_cleared(),
            !touches(changes_after(log@, old(self).spec_watermark()), participant_channel())
                ==> final(cache).participants_unchanged(*old(cache)),
            final(bus).wf(),
            final(bus).spec_capacity() == old(bus).spec_capacity(),
            final(bus).spec_next_id() == old(bus).spec_next_id(),
            final(bus)@ == fanned_out(
                old(bus)@,
                changes_after(log@, old(self).spec_watermark()),
                old(bus).spec_capacity() as int,
            ),
    {
        let batch = log.changes_since(self.watermark);
        self.apply_batch(&batch, cache, bus);
    }
}

} // verus!
