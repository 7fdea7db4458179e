//! TTL- and capacity-bounded caches with channel-based invalidation.
//!
//! Entries expire a fixed time after insertion (reads never refresh them).
//! Each cache is bounded: when an insert of a new key finds the cache at
//! capacity, the oldest-inserted entry is evicted first. An insert of an
//! existing key replaces the entry and restarts its life. Reads at or past
//! the expiry instant miss, whether or not the stale entry is still stored.

use vstd::prelude::*;
use crate::models::{Event, Participant};

verus! {

/// One cache slot: a string key, the instant of insertion (unix seconds),
/// and the cached value.
#[derive(Debug)]
pub struct CacheEntry<V> {
    pub key: String,
    pub inserted_at: u64,
    pub value: V,
}

/// No two entries share a key.
pub open spec fn keys_unique<V>(s: Seq<CacheEntry<V>>) -> bool {
    forall|i: int, j: int|
        #![trigger s[i], s[j]]
        0 <= i < j < s.len() ==> s[i].key@ != s[j].key@
}

/// Index of the first entry with key `k`, or -1 when no entry has it.
pub open spec fn index_of_key<V>(s: Seq<CacheEntry<V>>, k: Seq<char>) -> int
    decreases s.len(),
{
    if s.len() == 0 {
        -1
    } else if s[0].key@ == k {
        0
    } else {
        let rest = index_of_key(s.drop_first(), k);
        if rest == -1 {
            -1
        } else {
            rest + 1
        }
    }
}

/// What `index_of_key` returns: a valid index holding `k` with no earlier
/// occurrence, or -1 when `k` is absent.
pub proof fn lemma_index_of_key<V>(s: Seq<CacheEntry<V>>, k: Seq<char>)
    ensures
        -1 <= index_of_key(s, k) < s.len(),
        index_of_key(s, k) >= 0 ==> s[index_of_key(s, k)].key@ == k,
        forall|j: int|
            0 <= j < s.len() && (#[trigger] s[j]).key@ == k ==> index_of_key(s, k) >= 0
                && index_of_key(s, k) <= j,
        index_of_key(s, k) == -1 ==> forall|j: int|
            0 <= j < s.len() ==> (#[trigger] s[j]).key@ != k,
    decreases s.len(),
{
    if s.len() > 0 && s[0].key@ != k {
        let rest = s.drop_first();
        lemma_index_of_key(rest, k);
        assert forall|j: int| 0 <= j < s.len() && (#[trigger] s[j]).key@ == k implies
            index_of_key(s, k) >= 0 && index_of_key(s, k) <= j by {
            assert(rest[j - 1] == s[j]);
        }
        if index_of_key(s, k) == -1 {
            assert forall|j: int| 0 <= j < s.len() implies (#[trigger] s[j]).key@ != k by {
                if j > 0 {
                    assert(rest[j - 1] == s[j]);
                }
            }
        }
    }
}

/// The slot an insert fills.
pub open spec fn entry_of<V>(key: String, inserted_at: u64, value: V) -> CacheEntry<V> {
    CacheEntry { key, inserted_at, value }
}

/// The cache contents after inserting `entry` into `s` under `capacity`:
/// an entry with the same key goes away first, then — only if the cache is
/// still at capacity — the oldest entry, and `entry` arrives at the back.
pub open spec fn spec_inserted<V>(
    s: Seq<CacheEntry<V>>,
    capacity: int,
    entry: CacheEntry<V>,
) -> Seq<CacheEntry<V>> {
    let removed = if index_of_key(s, entry.key@) >= 0 {
        s.remove(index_of_key(s, entry.key@))
    } else {
        s
    };
    let room = if removed.len() >= capacity {
        removed.drop_first()
    } else {
        removed
    };
    room.push(entry)
}

/// A bounded cache whose entries live for a fixed span from insertion.
#[derive(Debug)]
pub struct TtlCache<V> {
    entries: Vec<CacheEntry<V>>,
    capacity: usize,
    ttl: u64,
}

impl<V> View for TtlCache<V> {
    type V = Seq<CacheEntry<V>>;

    closed spec fn view(&self) -> Seq<CacheEntry<V>> {
        self.entries@
    }
}

impl<V> TtlCache<V> {
    /// Keys are unique and the bound is respected.
    pub closed spec fn wf(self) -> bool {
        &&& keys_unique(self.entries@)
        &&& self.entries@.len() <= self.capacity
        &&& self.capacity >= 1
    }

    /// The fixed time-to-live, in the unit of the instants handed to
    /// `insert` and `get`.
    pub closed spec fn spec_ttl(self) -> u64 {
        self.ttl
    }

    /// The bound on how many entries are held at once.
    pub closed spec fn spec_capacity(self) -> usize {
        self.capacity
    }

    /// Whether the entry at `idx` is still alive at `now`.
    pub open spec fn live_at(self, idx: int, now: u64) -> bool {
        now < self@[idx].inserted_at + self.spec_ttl()
    }

    /// Whether a read of `k` at `now` hits: the key is stored and its
    /// entry still lives.
    pub open spec fn lookup_hits(self, now: u64, k: Seq<char>) -> bool {
        index_of_key(self@, k) >= 0 && self.live_at(index_of_key(self@, k), now)
    }

    /// What well-formedness guarantees, over the public view, so that
    /// callers can invoke the cache's laws: keys are unique and the bound
    /// is a positive one that the contents respect.
    pub proof fn lemma_wf_properties(self)
        requires
            self.wf(),
        ensures
            keys_unique(self@),
            self@.len() <= self.spec_capacity(),
            self.spec_capacity() >= 1,
    {
    }

    pub fn new(capacity: usize, ttl: u64) -> (r: TtlCache<V>)
        requires
            capacity >= 1,
        ensures
            r.wf(),
            r@ == Seq::<CacheEntry<V>>::empty(),
            r.spec_capacity() == capacity,
            r.spec_ttl() == ttl,
    {
        TtlCache { entries: Vec::new(), capacity, ttl }
    }

    pub fn len(&self) -> (r: usize)
        ensures
            r == self@.len(),
    {
        self.entries.len()
    }

    /// Where `key` is stored, if anywhere.
    fn position_of(&self, key: &String) -> (r: Option<usize>)
        ensures
            index_of_key(self@, key@) >= 0 ==> r == Some(index_of_key(self@, key@) as usize),
            index_of_key(self@, key@) == -1 ==> r is None,
    {
        proof {
            lemma_index_of_key(self@, key@);
        }
        let n = self.entries.len();
        let mut i: usize = 0;
        while i < n
            invariant
                n == self@.len(),
                0 <= i <= n,
                forall|j: int| 0 <= j < i ==> (#[trigger] self@[j]).key@ != key@,
            decreases n - i,
        {
            if self.entries[i].key == *key {
                proof {
                    lemma_index_of_key(self@, key@);
                    let idx = index_of_key(self@, key@);
                    assert(self@[i as int].key@ == key@);
                    assert(idx >= 0 && idx <= i as int);
                    if idx < i as int {
                        assert(self@[idx].key@ == key@);
                        assert(false);
                    }
                }
                return Some(i);
            }
            i += 1;
        }
        None
    }

    /// Pure lookup at instant `now`: the stored value while it lives, a
    /// miss from its expiry instant on or when the key is absent. Reads do
    /// not refresh the entry.
    pub fn get(&self, now: u64, key: &String) -> (r: Option<&V>)
        requires
            self.wf(),
        ensures
            r is Some <==> self.lookup_hits(now, key@),
            r matches Some(v) ==> index_of_key(self@, key@) >= 0 && *v == self@[index_of_key(
                self@,
                key@,
            )].value,
    {
        proof {
            lemma_index_of_key(self@, key@);
        }
        match self.position_of(key) {
            None => None,
            Some(i) => {
                let entry = &self.entries[i];
                let fresh = if now < entry.inserted_at {
                    true
                } else {
                    now - entry.inserted_at < self.ttl
                };
                if fresh {
                    Some(&entry.value)
                } else {
                    None
                }
            },
        }
    }

    /// Stores `value` under `key` as of instant `now`. A previous entry for
    /// the key is replaced; a new key entering a full cache evicts the
    /// oldest-inserted entry first.
    pub fn insert(&mut self, now: u64, key: String, value: V)
        requires
            old(self).wf(),
        ensures
            final(self).wf(),
            final(self)@ == spec_inserted(
                old(self)@,
                old(self).spec_capacity() as int,
                entry_of(key, now, value),
            ),
            final(self).spec_capacity() == old(self).spec_capacity(),
            final(self).spec_ttl() == old(self).spec_ttl(),
    {
        proof {
            lemma_index_of_key(self@, key@);
        }
        let ghost s0 = self.entries@;
        match self.position_of(&key) {
            Some(i) => {
                self.entries.remove(i);
                proof {
                    assert forall|a: int, b: int|
                        #![trigger self.entries@[a], self.entries@[b]]
                        0 <= a < b < self.entries@.len() implies self.entries@[a].key@
                        != self.entries@[b].key@ by {
                        let i = i as int;
                        let ia = if a < i { a } else { a + 1 };
                        let ib = if b < i { b } else { b + 1 };
                        assert(self.entries@[a] == s0[ia]);
                        assert(self.entries@[b] == s0[ib]);
                    }
                    assert forall|j: int| 0 <= j < self.entries@.len() implies
                        (#[trigger] self.entries@[j]).key@ != key@ by {
                        let i = i as int;
                        let jj = if j < i { j } else { j + 1 };
                        assert(self.entries@[j] == s0[jj]);
                        if jj != i {
                            assert(s0[jj].key@ != s0[i].key@);
                        }
                    }
                }
            },
            None => {
                if self.entries.len() >= self.capacity {
                    let ghost s1 = self.entries@;
                    self.entries.remove(0);
                    proof {
                        assert(self.entries@ =~= s1.drop_first());
                        assert forall|a: int, b: int|
                            #![trigger self.entries@[a], self.entries@[b]]
                            0 <= a < b < self.entries@.len() implies self.entries@[a].key@
                            != self.entries@[b].key@ by {
                            assert(self.entries@[a] == s1[a + 1]);
                            assert(self.entries@[b] == s1[b + 1]);
                        }
                        assert forall|j: int| 0 <= j < self.entries@.len() implies
                            (#[trigger] self.entries@[j]).key@ != key@ by {
                            assert(self.entries@[j] == s1[j + 1]);
                        }
                    }
                }
            },
        }
        self.entries.push(CacheEntry { key, inserted_at: now, value });
    }

    /// Drops the entry for `key`, if any, leaving every other entry alone.
    pub fn remove(&mut self, key: &String)
        requires
            old(self).wf(),
        ensures
            final(self).wf(),
            index_of_key(old(self)@, key@) >= 0 ==> final(self)@ == old(self)@.remove(
                index_of_key(old(self)@, key@),
            ),
            index_of_key(old(self)@, key@) == -1 ==> final(self)@ == old(self)@,
            final(self).spec_capacity() == old(self).spec_capacity(),
            final(self).spec_ttl() == old(self).spec_ttl(),
    {
        proof {
            lemma_index_of_key(self@, key@);
        }
        let ghost s0 = self.entries@;
        if let Some(i) = self.position_of(key) {
            self.entries.remove(i);
            proof {
                assert forall|a: int, b: int|
                    #![trigger self.entries@[a], self.entries@[b]]
                    0 <= a < b < self.entries@.len() implies self.entries@[a].key@
                    != self.entries@[b].key@ by {
                    let i = i as int;
                    let ia = if a < i { a } else { a + 1 };
                    let ib = if b < i { b } else { b + 1 };
                    assert(self.entries@[a] == s0[ia]);
                    assert(self.entries@[b] == s0[ib]);
                }
            }
        }
    }

    /// Empties the cache.
    pub fn invalidate_all(&mut self)
        requires
            old(self).wf(),
        ensures
            final(self).wf(),
            final(self)@ == Seq::<CacheEntry<V>>::empty(),
            final(self).spec_capacity() == old(self).spec_capacity(),
            final(self).spec_ttl() == old(self).spec_ttl(),
    {
        self.entries.clear();
    }
}

/// How many distinct event-list results are held at once.
pub const EVENTS_LIST_CAPACITY: usize = 10;

/// How many single events are held at once.
pub const EVENT_CAPACITY: usize = 1000;

/// How many per-event participant lists are held at once.
pub const PARTICIPANTS_CAPACITY: usize = 1000;

/// How many single participants are held at once.
pub const PARTICIPANT_CAPACITY: usize = 5000;

/// The named caches of one process, all sharing one time-to-live, with the
/// static routing from change channels to the caches they clear.
#[derive(Debug)]
pub struct AppCache {
    pub events_list: TtlCache<Vec<Event>>,
    pub event: TtlCache<Event>,
    pub participants: TtlCache<Vec<Participant>>,
    pub participant: TtlCache<Participant>,
}

/// The channel announcing event mutations.
pub open spec fn event_channel() -> Seq<char> {
    "event_changes"@
}

/// The channel announcing participant mutations.
pub open spec fn participant_channel() -> Seq<char> {
    "participant_changes"@
}

impl AppCache {
    pub open spec fn wf(self) -> bool {
        &&& self.events_list.wf()
        &&& self.event.wf()
        &&& self.participants.wf()
        &&& self.participant.wf()
    }

    /// Both event caches are empty.
    pub open spec fn events_cleared(self) -> bool {
        self.events_list@.len() == 0 && self.event@.len() == 0
    }

    /// Both participant caches are empty.
    pub open spec fn participants_cleared(self) -> bool {
        self.participants@.len() == 0 && self.participant@.len() == 0
    }

    /// Neither event cache changed between `pre` and `self`.
    pub open spec fn events_unchanged(self, pre: AppCache) -> bool {
        self.events_list == pre.events_list && self.event == pre.event
    }

    /// Neither participant cache changed between `pre` and `self`.
    pub open spec fn participants_unchanged(self, pre: AppCache) -> bool {
        self.participants == pre.participants && self.participant == pre.participant
    }

    pub fn new(ttl_secs: u64) -> (r: AppCache)
        ensures
            r.wf(),
            r.events_cleared(),
            r.participants_cleared(),
            r.events_list.spec_capacity() == EVENTS_LIST_CAPACITY,
            r.event.spec_capacity() == EVENT_CAPACITY,
            r.participants.spec_capacity() == PARTICIPANTS_CAPACITY,
            r.participant.spec_capacity() == PARTICIPANT_CAPACITY,
            r.events_list.spec_ttl() == ttl_secs && r.event.spec_ttl() == ttl_secs
                && r.participants.spec_ttl() == ttl_secs && r.participant.spec_ttl()
                == ttl_secs,
    {
        AppCache {
            events_list: TtlCache::new(EVENTS_LIST_CAPACITY, ttl_secs),
            event: TtlCache::new(EVENT_CAPACITY, ttl_secs),
            participants: TtlCache::new(PARTICIPANTS_CAPACITY, ttl_secs),
            participant: TtlCache::new(PARTICIPANT_CAPACITY, ttl_secs),
        }
    }

    /// Clears every event-related cache.
    pub fn invalidate_events(&mut self)
        requires
            old(self).wf(),
        ensures
            final(self).wf(),
            final(self).events_cleared(),
            final(self).participants_unchanged(*old(self)),
            final(self).caches_configured_as(*old(self)),
    {
        self.events_list.invalidate_all();
        self.event.invalidate_all();
    }

    /// Clears the event-list cache and drops the one cached event.
    pub fn invalidate_event(&mut self, event_id: &String)
        requires
            old(self).wf(),
        ensures
            final(self).wf(),
            final(self).events_list@.len() == 0,
            index_of_key(old(self).event@, event_id@) >= 0 ==> final(self).event@
                == old(self).event@.remove(index_of_key(old(self).event@, event_id@)),
            index_of_key(old(self).event@, event_id@) == -1 ==> final(self).event@
                == old(self).event@,
            final(self).participants_unchanged(*old(self)),
            final(self).caches_configured_as(*old(self)),
    {
        self.events_list.invalidate_all();
        self.event.remove(event_id);
    }

    /// Clears every participant-related cache.
    pub fn invalidate_participants(&mut self)
        requires
            old(self).wf(),
        ensures
            final(self).wf(),
            final(self).participants_cleared(),
            final(self).events_unchanged(*old(self)),
            final(self).caches_configured_as(*old(self)),
    {
        self.participants.invalidate_all();
        self.participant.invalidate_all();
    }

    /// Capacities and time-to-live agree with `pre` on every cache.
    pub open spec fn caches_configured_as(self, pre: AppCache) -> bool {
        &&& self.events_list.spec_capacity() == pre.events_list.spec_capacity()
        &&& self.events_list.spec_ttl() == pre.events_list.spec_ttl()
        &&& self.event.spec_capacity() == pre.event.spec_capacity()
        &&& self.event.spec_ttl() == pre.event.spec_ttl()
        &&& self.participants.spec_capacity() == pre.participants.spec_capacity()
        &&& self.participants.spec_ttl() == pre.participants.spec_ttl()
        &&& self.participant.spec_capacity() == pre.participant.spec_capacity()
        &&& self.participant.spec_ttl() == pre.participant.spec_ttl()
    }

    /// Routes a change channel to the caches it clears: event changes clear
    /// the event caches, participant changes the participant caches, and
    /// any other channel clears nothing.
    pub fn invalidate_for_channel(&mut self, channel: &String)
        requires
            old(self).wf(),
        ensures
            final(self).wf(),
            channel@ == event_channel() ==> final(self).events_cleared()
                && final(self).participants_unchanged(*old(self)),
            channel@ == participant_channel() ==> final(self).participants_cleared()
                && final(self).events_unchanged(*old(self)),
            channel@ != event_channel() && channel@ != participant_channel() ==> *final(self)
                == *old(self),
            final(self).caches_configured_as(*old(self)),
    {
        proof {
            reveal_strlit("event_changes");
            reveal_strlit("participant_changes");
            assert(event_channel().len() != participant_channel().len());
        }
        let events = String::from_str("event_changes");
        let participants = String::from_str("participant_changes");
        if *channel == events {
            self.invalidate_events();
        } else if *channel == participants {
            self.invalidate_participants();
        }
    }
}

/// An invalidated (emptied) cache misses on every key at every instant,
/// until something is inserted again.
pub proof fn lemma_cleared_cache_misses<V>(c: TtlCache<V>, now: u64, k: Seq<char>)
    requires
        c@.len() == 0,
    ensures
        !c.lookup_hits(now, k),
{
}

/// A fresh insert is found again: a read of its key inside the entry's
/// lifetime hits and yields exactly the inserted value. The miss an
/// invalidation causes lasts exactly until the key is repopulated.
pub proof fn lemma_repopulated_hit<V>(
    pre: Seq<CacheEntry<V>>,
    c: TtlCache<V>,
    key: String,
    t: u64,
    value: V,
    later: u64,
)
    requires
        c@ == spec_inserted(pre, c.spec_capacity() as int, entry_of(key, t, value)),
        keys_unique(c@),
        later < t + c.spec_ttl(),
    ensures
        c.lookup_hits(later, key@),
        c@[index_of_key(c@, key@)].value == value,
{
    let n = c@.len() as int;
    assert(c@[n - 1] == entry_of(key, t, value));
    lemma_index_of_key(c@, key@);
    let idx = index_of_key(c@, key@);
    assert(idx >= 0);
    if idx != n - 1 {
        assert(c@[idx].key@ == c@[n - 1].key@);
        assert(false);
    }
}

/// An entry inserted at instant `t` is absent from every read at or past
/// `t` plus the time-to-live, as long as nothing re-inserted its key.
pub proof fn lemma_ttl_expiry<V>(
    pre: Seq<CacheEntry<V>>,
    c: TtlCache<V>,
    key: String,
    t: u64,
    value: V,
    later: u64,
)
    requires
        c@ == spec_inserted(pre, c.spec_capacity() as int, entry_of(key, t, value)),
        keys_unique(c@),
        later >= t + c.spec_ttl(),
    ensures
        !c.lookup_hits(later, key@),
{
    let n = c@.len() as int;
    assert(c@[n - 1] == entry_of(key, t, value));
    lemma_index_of_key(c@, key@);
    let idx = index_of_key(c@, key@);
    assert(idx >= 0);
    if idx != n - 1 {
        assert(c@[idx].key@ == c@[n - 1].key@);
        assert(false);
    }
}

} // verus!
