//! Read linearization: a read assigned timestamp `t` against a timeline is
//! not released to its client until that timeline's timestamp oracle has
//! confirmed progress to at least `t`. The oracle timestamp is only ever used
//! for a `<=` comparison, so a conservative (cached) value can delay a
//! release but never cause an early one.

use vstd::prelude::*;

use crate::coord::Coordinator;
use crate::message::Action;

verus! {

/// Identifier of a timeline: an independent read-timestamp domain with its
/// own oracle.
pub type TimelineId = u64;

/// A timestamp in a timeline's domain (milliseconds).
pub type Timestamp = u64;

/// The timestamp context a read was sequenced with.
#[derive(Clone, Copy, PartialEq, Eq, Structural, Debug)]
pub enum TimestampContext {
    /// The read was assigned `chosen_ts` against `timeline`; `oracle_ts` is
    /// the oracle timestamp captured when the read was sequenced, if the
    /// oracle was consulted then.
    TimelineTimestamp { timeline: TimelineId, chosen_ts: Timestamp, oracle_ts: Option<Timestamp> },
    /// The read involves no timeline and needs no linearization delay.
    NoTimestamp,
}

/// An in-flight read transaction awaiting timeline catch-up.
#[derive(Clone, Copy, PartialEq, Eq, Structural, Debug)]
pub struct PendingReadTxn {
    /// The connection whose client context waits for the result.
    pub conn_id: u64,
    /// The timestamp context the read was sequenced with.
    pub timestamp_context: TimestampContext,
    /// When the read was enqueued (for latency observations).
    pub created: Timestamp,
    /// How many linearization passes have kept this read pending.
    pub num_requeues: u64,
}

/// Fresh oracle readings for this linearization pass, one per timeline that
/// had to be consulted. The readings were observed by the runtime after every
/// read now pending was enqueued.
#[derive(Clone, Debug)]
pub struct OracleReadings {
    pub readings: Vec<(TimelineId, Timestamp)>,
}

impl OracleReadings {
    /// A reading for the given timeline is present.
    pub open spec fn has_reading(self, timeline: TimelineId) -> bool {
        exists|i: int| 0 <= i < self.readings@.len() && self.readings@[i].0 == timeline
    }

    /// The reading recorded for the given timeline.
    pub open spec fn reading_for(self, timeline: TimelineId) -> Timestamp {
        self.readings@[choose|i: int|
            0 <= i < self.readings@.len() && self.readings@[i].0 == timeline].1
    }

    /// Each timeline has at most one reading.
    pub open spec fn wf(self) -> bool {
        forall|i: int, j: int|
            0 <= i < j < self.readings@.len() ==> self.readings@[i].0 != self.readings@[j].0
    }

    /// Looks up the reading for a timeline.
    pub fn lookup(&self, timeline: TimelineId) -> (r: Option<Timestamp>)
        requires
            self.wf(),
        ensures
            r is Some <==> self.has_reading(timeline),
            r is Some ==> r->0 == self.reading_for(timeline),
    {
        let mut k: usize = 0;
        while k < self.readings.len()
            invariant
                self.wf(),
                k <= self.readings@.len(),
                forall|i: int| 0 <= i < k ==> self.readings@[i].0 != timeline,
            decreases self.readings@.len() - k,
        {
            if self.readings[k].0 == timeline {
                proof {
                    let j = choose|j: int|
                        0 <= j < self.readings@.len() && self.readings@[j].0 == timeline;
                    assert(j == k);
                }
                return Some(self.readings[k].1);
            }
            k = k + 1;
        }
        None
    }
}

/// Whether a pending read must consult a fresh oracle reading for its
/// timeline before it can be released: it carries an oracle snapshot and its
/// chosen timestamp lies beyond that snapshot.
pub open spec fn needs_oracle(read: PendingReadTxn) -> bool {
    match read.timestamp_context {
        TimestampContext::TimelineTimestamp { timeline, chosen_ts, oracle_ts } => match oracle_ts {
            Some(snap) => chosen_ts > snap,
            None => false,
        },
        TimestampContext::NoTimestamp => false,
    }
}

/// The timeline a read that needs an oracle reading belongs to.
pub open spec fn read_timeline(read: PendingReadTxn) -> TimelineId {
    match read.timestamp_context {
        TimestampContext::TimelineTimestamp { timeline, .. } => timeline,
        TimestampContext::NoTimestamp => 0,
    }
}

/// Whether a pending read is ready to be released in a pass that observed the
/// given oracle readings: immediately if it has no oracle component, without
/// a new oracle call if its chosen timestamp is at or before its own earlier
/// snapshot, and otherwise only if the fresh reading for its timeline has
/// reached its chosen timestamp.
pub open spec fn read_ready(read: PendingReadTxn, oracle: OracleReadings) -> bool {
    match read.timestamp_context {
        TimestampContext::TimelineTimestamp { timeline, chosen_ts, oracle_ts } => match oracle_ts {
            Some(snap) => chosen_ts <= snap || chosen_ts <= oracle.reading_for(timeline),
            None => true,
        },
        TimestampContext::NoTimestamp => true,
    }
}

/// The wait, in timeline units, until the fresh oracle reading would catch up
/// with a kept read's chosen timestamp.
pub open spec fn read_wait(read: PendingReadTxn, oracle: OracleReadings) -> int {
    match read.timestamp_context {
        TimestampContext::TimelineTimestamp { timeline, chosen_ts, oracle_ts } => chosen_ts
            - oracle.reading_for(timeline),
        TimestampContext::NoTimestamp => 0,
    }
}

/// Some pending read of `p` needs a fresh oracle reading for timeline `t`.
pub open spec fn timeline_needed(p: Seq<PendingReadTxn>, t: TimelineId) -> bool {
    exists|i: int| 0 <= i < p.len() && needs_oracle(#[trigger] p[i]) && read_timeline(p[i]) == t
}

/// The action that hands a released read to its waiting client context, with
/// whether it was ever requeued, for the latency observation.
pub open spec fn is_release_action(a: Action, r: PendingReadTxn) -> bool {
    a matches Action::ReleaseRead { conn_id, delayed, created } && conn_id == r.conn_id && delayed
        == (r.num_requeues > 0) && created == r.created
}

/// A pending read kept by the pass, its requeue counter incremented.
pub open spec fn bump(read: PendingReadTxn) -> PendingReadTxn {
    PendingReadTxn { num_requeues: (read.num_requeues + 1) as u64, ..read }
}

/// The reads a pass over `p` with readings `o` releases, in pass order.
pub open spec fn released_of(p: Seq<PendingReadTxn>, o: OracleReadings) -> Seq<PendingReadTxn>
    decreases p.len(),
{
    if p.len() == 0 {
        Seq::empty()
    } else {
        let init = released_of(p.drop_last(), o);
        if read_ready(p.last(), o) {
            init.push(p.last())
        } else {
            init
        }
    }
}

/// The reads a pass over `p` with readings `o` keeps pending, in pass order,
/// each with its requeue counter incremented.
pub open spec fn kept_of(p: Seq<PendingReadTxn>, o: OracleReadings) -> Seq<PendingReadTxn>
    decreases p.len(),
{
    if p.len() == 0 {
        Seq::empty()
    } else {
        let init = kept_of(p.drop_last(), o);
        if read_ready(p.last(), o) {
            init
        } else {
            init.push(bump(p.last()))
        }
    }
}

/// The minimum wait over the reads the pass keeps; a sentinel above every
/// representable wait when it keeps none.
pub open spec fn shortest_wait_of(p: Seq<PendingReadTxn>, o: OracleReadings) -> int
    decreases p.len(),
{
    if p.len() == 0 {
        0x1_0000_0000_0000_0000
    } else {
        let rest = shortest_wait_of(p.drop_last(), o);
        if !read_ready(p.last(), o) && read_wait(p.last(), o) < rest {
            read_wait(p.last(), o)
        } else {
            rest
        }
    }
}

/// The shortest wait equals the sentinel exactly when the pass keeps no read,
/// and never exceeds it.
pub proof fn lemma_shortest_sentinel(p: Seq<PendingReadTxn>, o: OracleReadings)
    ensures
        kept_of(p, o).len() == 0 <==> shortest_wait_of(p, o) == 0x1_0000_0000_0000_0000,
        shortest_wait_of(p, o) <= 0x1_0000_0000_0000_0000,
    decreases p.len(),
{
    if p.len() > 0 {
        lemma_shortest_sentinel(p.drop_last(), o);
    }
}

/// Read safety and liveness of one linearization pass: a read is released
/// only if its chosen timestamp is at or before its own earlier oracle
/// snapshot or at or before the reading observed for its timeline (no
/// false-early release); every read whose timeline has caught up is released;
/// and a kept read is exactly a not-yet-ready read with its requeue counter
/// incremented.
pub proof fn lemma_read_safety(p: Seq<PendingReadTxn>, o: OracleReadings)
    ensures
        forall|i: int|
            0 <= i < released_of(p, o).len() ==> read_ready(#[trigger] released_of(p, o)[i], o),
        forall|i: int|
            0 <= i < p.len() && read_ready(#[trigger] p[i], o) ==> released_of(p, o).contains(
                p[i],
            ),
        forall|i: int|
            0 <= i < kept_of(p, o).len() ==> !read_ready(#[trigger] kept_of(p, o)[i], o),
        forall|i: int|
            0 <= i < p.len() && !read_ready(#[trigger] p[i], o) ==> kept_of(p, o).contains(
                bump(p[i]),
            ),
    decreases p.len(),
{
    if p.len() > 0 {
        lemma_read_safety(p.drop_last(), o);
        assert forall|i: int|
            0 <= i < p.len() && read_ready(#[trigger] p[i], o) implies released_of(p, o).contains(
            p[i],
        ) by {
            if i < p.len() - 1 {
                assert(p.drop_last()[i] == p[i]);
                let j = choose|j: int|
                    0 <= j < released_of(p.drop_last(), o).len() && released_of(p.drop_last(), o)[j]
                        == p[i];
                assert(released_of(p, o)[j] == p[i]);
            } else {
                assert(released_of(p, o).last() == p[i]);
            }
        }
        assert forall|i: int|
            0 <= i < p.len() && !read_ready(#[trigger] p[i], o) implies kept_of(p, o).contains(
            bump(p[i]),
        ) by {
            if i < p.len() - 1 {
                assert(p.drop_last()[i] == p[i]);
                let j = choose|j: int|
                    0 <= j < kept_of(p.drop_last(), o).len() && kept_of(p.drop_last(), o)[j]
                        == bump(p[i]);
                assert(kept_of(p, o)[j] == bump(p[i]));
            } else {
                assert(kept_of(p, o).last() == bump(p[i]));
            }
        }
        assert(read_ready(bump(p.last()), o) == read_ready(p.last(), o));
    }
}

/// The connection of every kept read is the connection of some read of the
/// pass's input, and distinct input connections stay distinct: the pass
/// releases or keeps each read exactly once.
pub proof fn lemma_kept_conns_distinct(p: Seq<PendingReadTxn>, o: OracleReadings)
    requires
        forall|i: int, j: int| 0 <= i < j < p.len() ==> p[i].conn_id != p[j].conn_id,
    ensures
        forall|i: int|
            0 <= i < kept_of(p, o).len() ==> exists|j: int|
                0 <= j < p.len() && (#[trigger] kept_of(p, o)[i]).conn_id == p[j].conn_id,
        forall|i: int, j: int|
            0 <= i < j < kept_of(p, o).len() ==> kept_of(p, o)[i].conn_id != kept_of(
                p,
                o,
            )[j].conn_id,
    decreases p.len(),
{
    if p.len() > 0 {
        lemma_kept_conns_distinct(p.drop_last(), o);
        assert forall|i: int|
            0 <= i < kept_of(p, o).len() implies exists|j: int|
            0 <= j < p.len() && (#[trigger] kept_of(p, o)[i]).conn_id == p[j].conn_id by {
            if i < kept_of(p.drop_last(), o).len() {
                let j = choose|j: int|
                    0 <= j < p.drop_last().len() && kept_of(p.drop_last(), o)[i].conn_id
                        == p.drop_last()[j].conn_id;
                assert(p.drop_last()[j] == p[j]);
                assert(kept_of(p, o)[i].conn_id == p[j].conn_id);
            } else {
                assert(kept_of(p, o)[i].conn_id == p[p.len() - 1].conn_id);
            }
        }
    }
}

/// The outcome of one linearization pass: the ready reads are released, in
/// pass order, each exactly once with its delay observation; the rest stay
/// pending with their requeue counters incremented; and exactly one wake-up
/// is scheduled — after the shortest remaining wait, capped at 1000
/// milliseconds — if and only if any read stays pending.
pub open spec fn linearize_outcome(
    o: Coordinator,
    s: Coordinator,
    actions: Seq<Action>,
    oracle: OracleReadings,
) -> bool {
    let p = o.pending_linearize_read_txns@;
    &&& crate::coord::eq_except_pending_reads(s, o)
    &&& s.pending_linearize_read_txns@ == kept_of(p, oracle)
    &&& actions.len() == released_of(p, oracle).len() + (if kept_of(p, oracle).len() > 0 {
        1int
    } else {
        0int
    })
    &&& forall|i: int|
        0 <= i < released_of(p, oracle).len() ==> is_release_action(
            #[trigger] actions[i],
            released_of(p, oracle)[i],
        )
    &&& kept_of(p, oracle).len() > 0 ==> {
        let sw = shortest_wait_of(p, oracle);
        &&& actions.last() matches Action::ScheduleLinearizeWakeup { after_ms }
        &&& actions.last()->ScheduleLinearizeWakeup_after_ms <= 1000
        &&& actions.last()->ScheduleLinearizeWakeup_after_ms as int == (if sw < 1000 {
            sw
        } else {
            1000int
        })
    }
    &&& o.wf() ==> s.wf()
}

impl Coordinator {
    /// The timelines this linearization pass must consult the oracle for:
    /// those of the pending reads whose chosen timestamp lies beyond their own
    /// earlier snapshot. Each such timeline occurs once, so the runtime asks
    /// the oracle at most once per timeline per pass.
    pub fn timelines_to_query(&self) -> (r: Vec<TimelineId>)
        ensures
            forall|i: int, j: int| 0 <= i < j < r@.len() ==> r@[i] != r@[j],
            forall|j: int|
                0 <= j < r@.len() ==> timeline_needed(
                    self.pending_linearize_read_txns@,
                    #[trigger] r@[j],
                ),
            forall|i: int|
                0 <= i < self.pending_linearize_read_txns@.len() && needs_oracle(
                    #[trigger] self.pending_linearize_read_txns@[i],
                ) ==> r@.contains(read_timeline(self.pending_linearize_read_txns@[i])),
    {
        let ghost p = self.pending_linearize_read_txns@;
        let mut r: Vec<TimelineId> = Vec::new();
        let mut k: usize = 0;
        while k < self.pending_linearize_read_txns.len()
            invariant
                p == self.pending_linearize_read_txns@,
                k <= p.len(),
                forall|i: int, j: int| 0 <= i < j < r@.len() ==> r@[i] != r@[j],
                forall|j: int|
                    0 <= j < r@.len() ==> timeline_needed(p, #[trigger] r@[j]),
                forall|i: int|
                    0 <= i < k && needs_oracle(#[trigger] p[i]) ==> r@.contains(
                        read_timeline(p[i]),
                    ),
            decreases p.len() - k,
        {
            let read = self.pending_linearize_read_txns[k];
            let mut needs: bool = false;
            let mut timeline: TimelineId = 0;
            match read.timestamp_context {
                TimestampContext::TimelineTimestamp { timeline: t, chosen_ts, oracle_ts } => {
                    match oracle_ts {
                        Some(snap) => {
                            if chosen_ts > snap {
                                needs = true;
                                timeline = t;
                            }
                        },
                        None => {},
                    }
                },
                TimestampContext::NoTimestamp => {},
            }
            proof {
                assert(needs == needs_oracle(p[k as int]));
                if needs {
                    assert(timeline == read_timeline(p[k as int]));
                }
            }
            let ghost r_prev = r@;
            if needs {
                let mut present: bool = false;
                let mut m: usize = 0;
                while m < r.len()
                    invariant
                        m <= r@.len(),
                        present <==> exists|i: int| 0 <= i < m && r@[i] == timeline,
                    decreases r@.len() - m,
                {
                    if r[m] == timeline {
                        present = true;
                    }
                    m = m + 1;
                }
                if !present {
                    let ghost old_r = r@;
                    r.push(timeline);
                    proof {
                        assert(r@[old_r.len() as int] == timeline);
                        assert(forall|j: int| 0 <= j < old_r.len() ==> r@[j] == old_r[j]);
                        assert forall|x: TimelineId| old_r.contains(x) implies r@.contains(
                            x,
                        ) by {
                            let j = choose|j: int| 0 <= j < old_r.len() && old_r[j] == x;
                            assert(r@[j] == x);
                        }
                        assert(r@.contains(timeline));
                    }
                } else {
                    proof {
                        assert(r@.contains(timeline));
                    }
                }
            }
            proof {
                if needs {
                    assert(timeline_needed(p, timeline));
                }
                assert forall|j: int| 0 <= j < r@.len() implies timeline_needed(
                    p,
                    #[trigger] r@[j],
                ) by {
                    if j < r_prev.len() {
                        assert(r@[j] == r_prev[j]);
                        assert(timeline_needed(p, r_prev[j]));
                    } else {
                        assert(r@[j] == timeline);
                    }
                }
            }
            k = k + 1;
        }
        r
    }

    /// One linearization pass. Releases, in one batch, every pending read
    /// whose timeline has caught up with its chosen timestamp: immediately if
    /// it has no oracle component, without a new oracle call if its own
    /// earlier snapshot already covers it, and otherwise against the fresh
    /// reading observed for its timeline — at most one reading per timeline
    /// feeds the whole pass. Every other read stays pending with its requeue
    /// counter incremented, and exactly one wake-up is scheduled after the
    /// shortest remaining wait, capped at 1000 milliseconds so that the retry
    /// schedule stays fresh even under timestamp skew.
    pub fn message_linearize_reads(&mut self, oracle: &OracleReadings) -> (actions: Vec<Action>)
        requires
            oracle.wf(),
            forall|i: int|
                0 <= i < old(self).pending_linearize_read_txns@.len() && needs_oracle(
                    #[trigger] old(self).pending_linearize_read_txns@[i],
                ) ==> oracle.has_reading(
                    read_timeline(old(self).pending_linearize_read_txns@[i]),
                ),
            forall|i: int|
                0 <= i < old(self).pending_linearize_read_txns@.len()
                    ==> (#[trigger] old(self).pending_linearize_read_txns@[i]).num_requeues
                    < u64::MAX,
        ensures
            linearize_outcome(*old(self), *final(self), actions@, *oracle),
    {
        let ghost p = self.pending_linearize_read_txns@;
        let ghost o = *oracle;
        let mut kept: Vec<PendingReadTxn> = Vec::new();
        let mut actions: Vec<Action> = Vec::new();
        let mut shortest: Option<u64> = None;
        let mut k: usize = 0;
        while k < self.pending_linearize_read_txns.len()
            invariant
                p == self.pending_linearize_read_txns@,
                o == *oracle,
                oracle.wf(),
                forall|i: int|
                    0 <= i < p.len() && needs_oracle(#[trigger] p[i]) ==> oracle.has_reading(
                        read_timeline(p[i]),
                    ),
                forall|i: int| 0 <= i < p.len() ==> (#[trigger] p[i]).num_requeues < u64::MAX,
                k <= p.len(),
                kept@ == kept_of(p.take(k as int), o),
                actions@.len() == released_of(p.take(k as int), o).len(),
                forall|i: int|
                    0 <= i < actions@.len() ==> is_release_action(
                        #[trigger] actions@[i],
                        released_of(p.take(k as int), o)[i],
                    ),
                shortest is None <==> kept_of(p.take(k as int), o).len() == 0,
                shortest matches Some(s) ==> s as int == shortest_wait_of(p.take(k as int), o),
            decreases p.len() - k,
        {
            let read = self.pending_linearize_read_txns[k];
            proof {
                assert(p.take(k + 1).drop_last() =~= p.take(k as int));
                assert(p.take(k + 1).last() == p[k as int]);
                lemma_shortest_sentinel(p.take(k as int), o);
            }
            let mut ready: bool = false;
            let mut wait: u64 = 0;
            match read.timestamp_context {
                TimestampContext::TimelineTimestamp { timeline, chosen_ts, oracle_ts } => {
                    match oracle_ts {
                        None => {
                            ready = true;
                        },
                        Some(snap) => {
                            if chosen_ts <= snap {
                                ready = true;
                            } else {
                                let reading = match oracle.lookup(timeline) {
                                    Some(v) => v,
                                    None => {
                                        proof {
                                            assert(needs_oracle(p[k as int]));
                                            assert(false);
                                        }
                                        0
                                    },
                                };
                                if chosen_ts <= reading {
                                    ready = true;
                                } else {
                                    wait = chosen_ts - reading;
                                }
                            }
                        },
                    }
                },
                TimestampContext::NoTimestamp => {
                    ready = true;
                },
            }
            proof {
                assert(ready == read_ready(p[k as int], o));
                if !ready {
                    assert(wait as int == read_wait(p[k as int], o));
                }
            }
            if ready {
                actions.push(Action::ReleaseRead {
                    conn_id: read.conn_id,
                    delayed: read.num_requeues > 0,
                    created: read.created,
                });
                proof {
                    assert(released_of(p.take(k + 1), o) == released_of(p.take(k as int), o).push(
                        p[k as int],
                    ));
                    assert(is_release_action(actions@.last(), p[k as int]));
                }
            } else {
                kept.push(PendingReadTxn { num_requeues: read.num_requeues + 1, ..read });
                proof {
                    assert(kept@.last() == bump(p[k as int]));
                    assert(kept@ == kept_of(p.take(k + 1), o));
                }
                match shortest {
                    None => {
                        shortest = Some(wait);
                    },
                    Some(s) => {
                        if wait < s {
                            shortest = Some(wait);
                        }
                    },
                }
            }
            k = k + 1;
        }
        proof {
            assert(p.take(p.len() as int) =~= p);
        }
        if kept.len() > 0 {
            let s = match shortest {
                Some(s) => s,
                None => {
                    proof {
                        assert(false);
                    }
                    0
                },
            };
            let after_ms = if s > 1000 {
                1000
            } else {
                s
            };
            actions.push(Action::ScheduleLinearizeWakeup { after_ms });
        }
        proof {
            if old(self).wf() {
                lemma_kept_conns_distinct(p, o);
            }
        }
        self.pending_linearize_read_txns = kept;
        actions
    }
}

} // verus!
