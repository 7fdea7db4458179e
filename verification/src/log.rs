//! The durable, ordered change log: append-only records with strictly
//! increasing identifiers, read back by `changes_since` and thinned only by
//! age-based pruning. This is the shared order every instance follows.

use vstd::prelude::*;

verus! {

/// One entry of the change log: which channel it concerns, an opaque
/// payload, and the instant it was appended (unix seconds).
#[derive(Debug)]
pub struct ChangeRecord {
    pub id: u64,
    pub channel: String,
    pub payload: String,
    pub created_at: u64,
}

impl Clone for ChangeRecord {
    fn clone(&self) -> (r: Self)
        ensures
            r == *self,
    {
        ChangeRecord {
            id: self.id,
            channel: self.channel.clone(),
            payload: self.payload.clone(),
            created_at: self.created_at,
        }
    }
}

/// Record identifiers strictly increase along the sequence.
pub open spec fn ids_ascending(s: Seq<ChangeRecord>) -> bool {
    forall|i: int, j: int|
        #![trigger s[i], s[j]]
        0 <= i < j < s.len() ==> s[i].id < s[j].id
}

/// The record `append` adds for these arguments.
pub open spec fn spec_record(id: u64, channel: String, payload: String, created_at: u64)
    -> ChangeRecord {
    ChangeRecord { id, channel, payload, created_at }
}

/// The records of `log` with id greater than `x`, in log order.
pub open spec fn changes_after(log: Seq<ChangeRecord>, x: u64) -> Seq<ChangeRecord>
    decreases log.len(),
{
    if log.len() == 0 {
        Seq::empty()
    } else {
        let rest = changes_after(log.drop_last(), x);
        if log.last().id > x {
            rest.push(log.last())
        } else {
            rest
        }
    }
}

/// The records of `log` created at or after `cutoff`, in log order.
pub open spec fn retained_from(log: Seq<ChangeRecord>, cutoff: u64) -> Seq<ChangeRecord>
    decreases log.len(),
{
    if log.len() == 0 {
        Seq::empty()
    } else {
        let rest = retained_from(log.drop_last(), cutoff);
        if log.last().created_at >= cutoff {
            rest.push(log.last())
        } else {
            rest
        }
    }
}

/// Every record selected by `changes_after` comes from the log, carries an
/// id above `x`, and every log record with id above `x` is selected.
pub proof fn lemma_changes_after_membership(log: Seq<ChangeRecord>, x: u64)
    ensures
        forall|i: int|
            0 <= i < changes_after(log, x).len() ==> (#[trigger] changes_after(log, x)[i]).id
                > x && log.contains(changes_after(log, x)[i]),
        forall|i: int|
            0 <= i < log.len() && (#[trigger] log[i]).id > x ==> changes_after(
                log,
                x,
            ).contains(log[i]),
    decreases log.len(),
{
    if log.len() > 0 {
        let prefix = log.drop_last();
        lemma_changes_after_membership(prefix, x);
        let sel = changes_after(log, x);
        let sel_prefix = changes_after(prefix, x);
        assert forall|i: int| 0 <= i < sel.len() implies (#[trigger] sel[i]).id > x
            && log.contains(sel[i]) by {
            if i < sel_prefix.len() {
                assert(sel[i] == sel_prefix[i]);
                let k = choose|k: int| 0 <= k < prefix.len() && prefix[k] == sel_prefix[i];
                assert(log[k] == sel_prefix[i]);
            } else {
                assert(sel[i] == log.last());
                assert(log[log.len() - 1] == log.last());
            }
        }
        assert forall|i: int| 0 <= i < log.len() && (#[trigger] log[i]).id > x implies
            sel.contains(log[i]) by {
            if i < log.len() - 1 {
                assert(prefix[i] == log[i]);
                assert(sel_prefix.contains(log[i]));
                let k = choose|k: int| 0 <= k < sel_prefix.len() && sel_prefix[k] == log[i];
                assert(sel[k] == log[i]);
            } else {
                assert(log[i] == log.last());
                assert(sel[sel.len() - 1] == log.last());
            }
        }
    }
}

/// What `changes_since` hands back: on an ascending log the selection is
/// exactly the records above `x`, still ascending, and empty as soon as
/// `x` is at or beyond every id in the log.
pub proof fn lemma_changes_after_exact(log: Seq<ChangeRecord>, x: u64)
    requires
        ids_ascending(log),
    ensures
        ids_ascending(changes_after(log, x)),
        forall|i: int|
            0 <= i < changes_after(log, x).len() ==> (#[trigger] changes_after(log, x)[i]).id
                > x && log.contains(changes_after(log, x)[i]),
        forall|i: int|
            0 <= i < log.len() && (#[trigger] log[i]).id > x ==> changes_after(
                log,
                x,
            ).contains(log[i]),
        (forall|i: int| 0 <= i < log.len() ==> (#[trigger] log[i]).id <= x) ==> changes_after(
            log,
            x,
        ).len() == 0,
    decreases log.len(),
{
    lemma_changes_after_membership(log, x);
    if log.len() > 0 {
        let prefix = log.drop_last();
        assert(ids_ascending(prefix)) by {
            assert forall|i: int, j: int|
                #![trigger prefix[i], prefix[j]]
                0 <= i < j < prefix.len() implies prefix[i].id < prefix[j].id by {
                assert(log[i].id < log[j].id);
            }
        }
        lemma_changes_after_exact(prefix, x);
        lemma_changes_after_membership(prefix, x);
        let sel = changes_after(log, x);
        let sel_prefix = changes_after(prefix, x);
        if log.last().id > x {
            assert forall|i: int, j: int|
                #![trigger sel[i], sel[j]]
                0 <= i < j < sel.len() implies sel[i].id < sel[j].id by {
                if j < sel_prefix.len() {
                    assert(sel[i] == sel_prefix[i] && sel[j] == sel_prefix[j]);
                } else {
                    assert(sel[j] == log.last());
                    assert(sel[i] == sel_prefix[i]);
                    let k = choose|k: int|
                        0 <= k < prefix.len() && prefix[k] == sel_prefix[i];
                    assert(log[k] == prefix[k]);
                    assert(log[k].id < log[log.len() - 1].id);
                }
            }
        }
    }
}

/// An in-memory change log. Identifiers are assigned on append, start at 1,
/// and are never reused, also not after pruning.
#[derive(Debug)]
pub struct ChangeLog {
    records: Vec<ChangeRecord>,
    last_id: u64,
}

impl View for ChangeLog {
    type V = Seq<ChangeRecord>;

    closed spec fn view(&self) -> Seq<ChangeRecord> {
        self.records@
    }
}

impl ChangeLog {
    /// All ids ascend and lie between 1 and the last assigned id.
    pub closed spec fn wf(self) -> bool {
        &&& ids_ascending(self.records@)
        &&& forall|i: int|
            0 <= i < self.records@.len() ==> 1 <= (#[trigger] self.records@[i]).id
                <= self.last_id
    }

    /// The id most recently assigned by `append`; 0 before the first append.
    pub closed spec fn spec_last_id(self) -> u64 {
        self.last_id
    }

    /// What well-formedness guarantees, over the public view, so that
    /// callers can invoke the log's laws: ids ascend and lie between 1 and
    /// the last assigned id.
    pub proof fn lemma_wf_properties(self)
        requires
            self.wf(),
        ensures
            ids_ascending(self@),
            forall|i: int|
                0 <= i < self@.len() ==> 1 <= (#[trigger] self@[i]).id
                    <= self.spec_last_id(),
    {
    }

    pub fn new() -> (r: ChangeLog)
        ensures
            r.wf(),
            r@ == Seq::<ChangeRecord>::empty(),
            r.spec_last_id() == 0,
    {
        ChangeLog { records: Vec::new(), last_id: 0 }
    }

    /// Appends one record, assigning the next id.
    ///
    /// The id space is practically inexhaustible; should it ever fill up,
    /// the append is refused rather than an id reused.
    pub fn append(&mut self, channel: String, payload: String, created_at: u64) -> (r: Option<
        u64,
    >)
        requires
            old(self).wf(),
        ensures
            final(self).wf(),
            old(self).spec_last_id() < u64::MAX ==> r == Some((old(self).spec_last_id() + 1)
                as u64) && final(self)@ == old(self)@.push(
                spec_record(
                    (old(self).spec_last_id() + 1) as u64,
                    channel,
                    payload,
                    created_at,
                ),
            ) && final(self).spec_last_id() == old(self).spec_last_id() + 1,
            old(self).spec_last_id() == u64::MAX ==> r is None && *final(self) == *old(self),
    {
        if self.last_id == u64::MAX {
            return None;
        }
        let id = self.last_id + 1;
        self.last_id = id;
        self.records.push(ChangeRecord { id, channel, payload, created_at });
        Some(id)
    }

    /// All records with id greater than `last_id`, in ascending id order;
    /// empty when `last_id` is at or beyond the current maximum.
    pub fn changes_since(&self, last_id: u64) -> (r: Vec<ChangeRecord>)
        requires
            self.wf(),
        ensures
            r@ == changes_after(self@, last_id),
    {
        let mut out: Vec<ChangeRecord> = Vec::new();
        let n = self.records.len();
        let mut i: usize = 0;
        while i < n
            invariant
                n == self.records@.len(),
                0 <= i <= n,
                out@ == changes_after(self.records@.take(i as int), last_id),
            decreases n - i,
        {
            proof {
                assert(self.records@.take(i + 1 as int).drop_last() =~= self.records@.take(
                    i as int,
                ));
                assert(self.records@.take(i + 1 as int).last() == self.records@[i as int]);
            }
            let rec = &self.records[i];
            if rec.id > last_id {
                out.push(rec.clone());
            }
            i += 1;
        }
        proof {
            assert(self.records@.take(n as int) =~= self.records@);
        }
        out
    }

    /// The highest id currently in the log, 0 when the log is empty. After
    /// pruning this can be lower than the last id ever assigned.
    pub fn max_id(&self) -> (r: u64)
        requires
            self.wf(),
        ensures
            self@.len() == 0 ==> r == 0,
            self@.len() > 0 ==> r == self@.last().id,
            forall|i: int| 0 <= i < self@.len() ==> (#[trigger] self@[i]).id <= r,
    {
        let n = self.records.len();
        if n == 0 {
            0
        } else {
            self.records[n - 1].id
        }
    }

    /// Deletes every record created before `cutoff`; ids already assigned
    /// stay assigned.
    pub fn prune(&mut self, cutoff: u64)
        requires
            old(self).wf(),
        ensures
            final(self).wf(),
            final(self)@ == retained_from(old(self)@, cutoff),
            final(self).spec_last_id() == old(self).spec_last_id(),
    {
        let mut kept: Vec<ChangeRecord> = Vec::new();
        let n = self.records.len();
        let mut i: usize = 0;
        while i < n
            invariant
                n == self.records@.len(),
                0 <= i <= n,
                kept@ == retained_from(self.records@.take(i as int), cutoff),
            decreases n - i,
        {
            proof {
                assert(self.records@.take(i + 1 as int).drop_last() =~= self.records@.take(
                    i as int,
                ));
                assert(self.records@.take(i + 1 as int).last() == self.records@[i as int]);
            }
            let rec = &self.records[i];
            if rec.created_at >= cutoff {
                kept.push(rec.clone());
            }
            i += 1;
        }
        proof {
            assert(self.records@.take(n as int) =~= self.records@);
            lemma_retained_membership(self.records@, cutoff);
        }
        self.records = kept;
        proof {
            let whole = old(self).records@;
            let sel = retained_from(whole, cutoff);
            assert forall|i: int, j: int|
                #![trigger sel[i], sel[j]]
                0 <= i < j < sel.len() implies sel[i].id < sel[j].id by {
                lemma_retained_ascending(whole, cutoff, i, j);
            }
        }
    }
}

/// Every record kept by `retained_from` comes from the log at some index.
proof fn lemma_retained_membership(log: Seq<ChangeRecord>, cutoff: u64)
    ensures
        forall|i: int|
            0 <= i < retained_from(log, cutoff).len() ==> log.contains(
                #[trigger] retained_from(log, cutoff)[i],
            ),
    decreases log.len(),
{
    if log.len() > 0 {
        let prefix = log.drop_last();
        lemma_retained_membership(prefix, cutoff);
        let sel = retained_from(log, cutoff);
        let sel_prefix = retained_from(prefix, cutoff);
        assert forall|i: int| 0 <= i < sel.len() implies log.contains(#[trigger] sel[i]) by {
            if i < sel_prefix.len() {
                assert(sel[i] == sel_prefix[i]);
                let k = choose|k: int| 0 <= k < prefix.len() && prefix[k] == sel_prefix[i];
                assert(log[k] == sel_prefix[i]);
            } else {
                assert(sel[i] == log.last());
                assert(log[log.len() - 1] == log.last());
            }
        }
    }
}

/// Pruning keeps the surviving records in the same relative order, so ascending
/// ids stay ascending. Stated index-wise to drive the induction.
proof fn lemma_retained_ascending(log: Seq<ChangeRecord>, cutoff: u64, i: int, j: int)
    requires
        ids_ascending(log),
        0 <= i < j < retained_from(log, cutoff).len(),
    ensures
        retained_from(log, cutoff)[i].id < retained_from(log, cutoff)[j].id,
    decreases log.len(),
{
    let prefix = log.drop_last();
    let sel = retained_from(log, cutoff);
    let sel_prefix = retained_from(prefix, cutoff);
    assert(log.len() > 0);
    assert(ids_ascending(prefix)) by {
        assert forall|a: int, b: int|
            #![trigger prefix[a], prefix[b]]
            0 <= a < b < prefix.len() implies prefix[a].id < prefix[b].id by {
            assert(log[a].id < log[b].id);
        }
    }
    if j < sel_prefix.len() {
        lemma_retained_ascending(prefix, cutoff, i, j);
    } else {
        assert(sel[j] == log.last());
        assert(sel[i] == sel_prefix[i]);
        lemma_retained_membership(prefix, cutoff);
        let k = choose|k: int| 0 <= k < prefix.len() && prefix[k] == sel_prefix[i];
        assert(log[k] == prefix[k]);
        assert(log[k].id < log[log.len() - 1].id);
    }
}

} // verus!
