//! Controller completion notifications and the bookkeeping they touch:
//! active compute sinks, the watch-set registry, and transient replica
//! metrics.

use vstd::prelude::*;

use crate::coord::{eq_except_metadata, eq_except_sinks, eq_except_watch_registry, Coordinator};
use crate::message::Action;
use crate::status::DiffKind;

verus! {

/// What kind of compute sink an id refers to.
#[derive(Clone, Copy, PartialEq, Eq, Structural, Debug)]
pub enum SinkKind {
    Subscribe,
    CopyTo,
}

/// Why an active compute sink is retired.
#[derive(Clone, Copy, PartialEq, Eq, Structural, Debug)]
pub enum SinkRetireReason {
    /// The sink ran to completion.
    Finished,
}

/// A batch of subscribe output, as far as the dispatch logic reads it.
#[derive(Clone, Copy, PartialEq, Eq, Structural, Debug)]
pub enum SubscribeUpdate {
    /// A batch of updates; `upper_is_empty` says the subscribe is complete.
    Batch { upper_is_empty: bool, data: u64 },
    /// The underlying collection was dropped.
    DroppedAt,
}

/// The continuation waiting on a finished watch set.
#[derive(Clone, Copy, PartialEq, Eq, Structural, Debug)]
pub enum WatchSetResponse {
    /// The dependencies of a logged statement became ready: record the
    /// lifecycle event.
    StatementDependenciesReady { statement_id: u64, event: u64 },
    /// An ALTER SINK was parked on dependency readiness: finish it.
    AlterSinkReady { conn_id: u64 },
}

/// One installed watch set: a condition a connection is waiting on.
#[derive(Clone, Copy, PartialEq, Eq, Structural, Debug)]
pub struct WatchSetEntry {
    pub ws_id: u64,
    pub conn_id: u64,
    pub response: WatchSetResponse,
}

/// Metrics bookkeeping for one replica. A tombstone marks a removed replica
/// whose late metric reports must be ignored.
#[derive(Clone, Copy, PartialEq, Eq, Structural, Debug)]
pub enum ReplicaMeta {
    Tombstone,
    Metadata(Option<u64>),
}

/// A completion notification drained from the controller.
#[derive(Clone, Debug)]
pub enum ControllerResponse {
    /// A peek finished with the given result.
    PeekResponse { uuid: u64, result: u64 },
    /// A subscribe produced a batch (or was dropped).
    SubscribeResponse { sink_id: u64, update: SubscribeUpdate },
    /// A COPY TO finished with the given result.
    CopyToResponse { sink_id: u64, result: u64 },
    /// A replica reported fresh metrics.
    ComputeReplicaMetrics { replica_id: u64, metrics: u64 },
    /// The given watch sets' conditions fired.
    WatchSetFinished { ws_ids: Vec<u64> },
}

/// After removing one watch set from the registry and cascading the removal
/// into the per-connection index, the registry is still well formed: every
/// other watch set is still installed under its connection and indexed there,
/// and the index holds no empty entry.
#[verifier::rlimit(50)]
proof fn lemma_registry_after_removal(
    o: Coordinator,
    s: Coordinator,
    ws_id: u64,
    idx: int,
    cidx: int,
    wpos: int,
    kept: bool,
)
    requires
        o.wf(),
        crate::coord::eq_except_watch_registry(s, o),
        0 <= idx < o.installed_watch_sets@.len(),
        o.installed_watch_sets@[idx].ws_id == ws_id,
        s.installed_watch_sets@.len() == o.installed_watch_sets@.len() - 1,
        forall|i: int| 0 <= i < idx ==> s.installed_watch_sets@[i] == o.installed_watch_sets@[i],
        forall|i: int|
            idx <= i < s.installed_watch_sets@.len() ==> s.installed_watch_sets@[i]
                == o.installed_watch_sets@[i + 1],
        0 <= cidx < o.connection_watch_sets@.len(),
        o.connection_watch_sets@[cidx].0 == o.installed_watch_sets@[idx].conn_id,
        0 <= wpos < o.connection_watch_sets@[cidx].1@.len(),
        o.connection_watch_sets@[cidx].1@[wpos] == ws_id,
        kept <==> o.connection_watch_sets@[cidx].1@.len() > 1,
        kept ==> {
            &&& s.connection_watch_sets@.len() == o.connection_watch_sets@.len()
            &&& forall|j: int|
                0 <= j < s.connection_watch_sets@.len() && j != cidx
                    ==> s.connection_watch_sets@[j] == o.connection_watch_sets@[j]
            &&& s.connection_watch_sets@[cidx].0 == o.connection_watch_sets@[cidx].0
            &&& s.connection_watch_sets@[cidx].1@.len() == o.connection_watch_sets@[cidx].1@.len()
                - 1
            &&& forall|m: int|
                0 <= m < wpos ==> s.connection_watch_sets@[cidx].1@[m]
                    == o.connection_watch_sets@[cidx].1@[m]
            &&& forall|m: int|
                wpos <= m < s.connection_watch_sets@[cidx].1@.len()
                    ==> s.connection_watch_sets@[cidx].1@[m] == o.connection_watch_sets@[cidx].1@[m
                    + 1]
        },
        !kept ==> {
            &&& s.connection_watch_sets@.len() == o.connection_watch_sets@.len() - 1
            &&& forall|j: int|
                0 <= j < cidx ==> s.connection_watch_sets@[j] == o.connection_watch_sets@[j]
            &&& forall|j: int|
                cidx <= j < s.connection_watch_sets@.len() ==> s.connection_watch_sets@[j]
                    == o.connection_watch_sets@[j + 1]
        },
    ensures
        s.wf(),
        forall|w: u64| s.ws_installed(w) <==> (#[trigger] o.ws_installed(w) && w != ws_id),
        forall|w: u64|
            #[trigger] o.ws_installed(w) && w != ws_id ==> s.ws_entry(w) == o.ws_entry(w),
{
    let oi = o.installed_watch_sets@;
    let si = s.installed_watch_sets@;
    let oc = o.connection_watch_sets@;
    let sc = s.connection_watch_sets@;
    // The old inner list at cidx holds ws_id only at wpos.
    assert(forall|m: int|
        0 <= m < oc[cidx].1@.len() && m != wpos ==> oc[cidx].1@[m] != ws_id);
    // Installed characterization.
    assert forall|w: u64| s.ws_installed(w) implies (o.ws_installed(w) && w != ws_id) by {
        let i = choose|i: int| 0 <= i < si.len() && (#[trigger] si[i]).ws_id == w;
        let i0: int = if i < idx {
            i
        } else {
            i + 1
        };
        assert(oi[i0].ws_id == w);
        assert(o.ws_installed(w));
        if w == ws_id {
            assert(oi[idx].ws_id == w && i0 != idx);
            assert(false);
        }
    }
    assert forall|w: u64| o.ws_installed(w) && w != ws_id implies s.ws_installed(w) by {
        let i0 = choose|i: int| 0 <= i < oi.len() && (#[trigger] oi[i]).ws_id == w;
        assert(i0 != idx);
        if i0 < idx {
            assert(si[i0].ws_id == w);
        } else {
            assert(si[i0 - 1].ws_id == w);
        }
    }
    // Entry preservation.
    assert forall|w: u64| o.ws_installed(w) && w != ws_id implies s.ws_entry(w) == o.ws_entry(
        w,
    ) by {
        let i0 = choose|i: int| 0 <= i < oi.len() && (#[trigger] oi[i]).ws_id == w;
        assert(i0 != idx);
        let is: int = if i0 < idx {
            i0
        } else {
            i0 - 1
        };
        assert(si[is] == oi[i0]);
        assert(s.ws_installed(w));
        let ic = choose|i: int| 0 <= i < si.len() && (#[trigger] si[i]).ws_id == w;
        let ic0: int = if ic < idx {
            ic
        } else {
            ic + 1
        };
        assert(oi[ic0].ws_id == w);
        assert(ic0 == i0);
        assert(s.ws_entry(w) == si[ic]);
        assert(o.ws_entry(w) == oi[i0]);
    }
    // Key uniqueness of the new state.
    assert forall|a: int, b: int| 0 <= a < b < si.len() implies si[a].ws_id != si[b].ws_id by {
        let a0: int = if a < idx {
            a
        } else {
            a + 1
        };
        let b0: int = if b < idx {
            b
        } else {
            b + 1
        };
        assert(si[a] == oi[a0] && si[b] == oi[b0] && a0 < b0);
    }
    assert forall|a: int, b: int| 0 <= a < b < sc.len() implies sc[a].0 != sc[b].0 by {
        if kept {
            assert(sc[a].0 == oc[a].0 && sc[b].0 == oc[b].0);
        } else {
            let a0: int = if a < cidx {
                a
            } else {
                a + 1
            };
            let b0: int = if b < cidx {
                b
            } else {
                b + 1
            };
            assert(sc[a].0 == oc[a0].0 && sc[b].0 == oc[b0].0 && a0 < b0);
        }
    }
    assert forall|j: int, a: int, b: int|
        0 <= j < sc.len() && 0 <= a < b < sc[j].1@.len() implies sc[j].1@[a] != sc[j].1@[b] by {
        if kept && j == cidx {
            let a0: int = if a < wpos {
                a
            } else {
                a + 1
            };
            let b0: int = if b < wpos {
                b
            } else {
                b + 1
            };
            assert(sc[j].1@[a] == oc[cidx].1@[a0] && sc[j].1@[b] == oc[cidx].1@[b0] && a0 < b0);
        } else {
            let j0: int = if kept || j < cidx {
                j
            } else {
                j + 1
            };
            assert(sc[j].1 == oc[j0].1);
        }
    }
    // Every installed watch set is still indexed under its connection.
    assert forall|i: int| 0 <= i < si.len() implies s.conn_indexes_ws(
        (#[trigger] si[i]).conn_id,
        si[i].ws_id,
    ) by {
        let i0: int = if i < idx {
            i
        } else {
            i + 1
        };
        let e = oi[i0];
        assert(si[i] == e);
        assert(e.ws_id != ws_id);
        assert(o.conn_indexes_ws(e.conn_id, e.ws_id));
        let j0 = choose|j: int|
            0 <= j < oc.len() && (#[trigger] oc[j]).0 == e.conn_id && oc[j].1@.contains(e.ws_id);
        if j0 == cidx {
            let m0 = choose|m: int| 0 <= m < oc[cidx].1@.len() && oc[cidx].1@[m] == e.ws_id;
            assert(m0 != wpos);
            assert(kept);
            if m0 < wpos {
                assert(sc[cidx].1@[m0] == e.ws_id);
            } else {
                assert(sc[cidx].1@[m0 - 1] == e.ws_id);
            }
            assert(sc[cidx].1@.contains(e.ws_id));
            assert(sc[cidx].0 == e.conn_id);
        } else {
            let js: int = if kept || j0 < cidx {
                j0
            } else {
                j0 - 1
            };
            assert(sc[js] == oc[j0]);
        }
    }
    // Everything the index holds is still installed under that connection.
    assert forall|j: int, m: int|
        0 <= j < sc.len() && 0 <= m < sc[j].1@.len() implies s.installed_as(
        sc[j].1@[m],
        sc[j].0,
    ) by {
        let j0: int = if kept || j < cidx {
            j
        } else {
            j + 1
        };
        if kept && j == cidx {
            let m0: int = if m < wpos {
                m
            } else {
                m + 1
            };
            assert(sc[j].1@[m] == oc[cidx].1@[m0] && m0 != wpos);
            assert(o.installed_as(oc[cidx].1@[m0], oc[cidx].0));
            let w = oc[cidx].1@[m0];
            assert(w != ws_id);
            let i0 = choose|i: int|
                0 <= i < oi.len() && (#[trigger] oi[i]).ws_id == w && oi[i].conn_id == oc[cidx].0;
            assert(i0 != idx);
            if i0 < idx {
                assert(si[i0] == oi[i0]);
            } else {
                assert(si[i0 - 1] == oi[i0]);
            }
        } else {
            assert(sc[j] == oc[j0]);
            let w = sc[j].1@[m];
            assert(oc[j0].1@[m] == w);
            assert(o.installed_as(w, oc[j0].0));
            let i0 = choose|i: int|
                0 <= i < oi.len() && (#[trigger] oi[i]).ws_id == w && oi[i].conn_id == oc[j0].0;
            if w == ws_id {
                assert(i0 == idx);
                assert(oc[j0].0 == oc[cidx].0);
                assert(j0 == cidx);
                if kept {
                    assert(j == cidx);
                    assert(false);
                } else {
                    assert(j != cidx && j0 == j + 1 && j < cidx);
                    assert(false);
                }
            }
            assert(i0 != idx);
            if i0 < idx {
                assert(si[i0] == oi[i0]);
            } else {
                assert(si[i0 - 1] == oi[i0]);
            }
        }
    }
    // The index leaks no empty entry.
    assert forall|j: int| 0 <= j < sc.len() implies (#[trigger] sc[j]).1@.len() > 0 by {
        if kept && j == cidx {
        } else {
            let j0: int = if kept || j < cidx {
                j
            } else {
                j + 1
            };
            assert(sc[j] == oc[j0]);
        }
    }
}

impl Coordinator {
    /// Removes a watch set from the registry, cascading into the
    /// per-connection index: the id leaves its connection's entry, and an
    /// entry left empty is removed whole, so that no connection entry leaks.
    /// An id that is not installed (already fired, or cancelled) is a no-op.
    fn remove_watch_set(&mut self, ws_id: u64) -> (r: Option<WatchSetEntry>)
        requires
            old(self).wf(),
        ensures
            final(self).wf(),
            eq_except_watch_registry(*final(self), *old(self)),
            !old(self).ws_installed(ws_id) ==> r is None && *final(self) == *old(self),
            old(self).ws_installed(ws_id) ==> {
                &&& r == Some(old(self).ws_entry(ws_id))
                &&& forall|w: u64|
                    final(self).ws_installed(w) <==> (#[trigger] old(self).ws_installed(w) && w
                        != ws_id)
                &&& forall|w: u64|
                    #[trigger] old(self).ws_installed(w) && w != ws_id ==> final(self).ws_entry(w)
                        == old(self).ws_entry(w)
            },
    {
        let n = self.installed_watch_sets.len();
        let mut idx: usize = 0;
        while idx < n && self.installed_watch_sets[idx].ws_id != ws_id
            invariant
                n == self.installed_watch_sets@.len(),
                idx <= n,
                forall|i: int|
                    0 <= i < idx ==> (#[trigger] self.installed_watch_sets@[i]).ws_id != ws_id,
            decreases n - idx,
        {
            idx = idx + 1;
        }
        if idx >= n {
            return None;
        }
        proof {
            let j = choose|j: int|
                0 <= j < self.installed_watch_sets@.len() && self.installed_watch_sets@[j].ws_id
                    == ws_id;
            assert(j == idx);
        }
        let ghost o = *old(self);
        let entry = self.installed_watch_sets.remove(idx);
        proof {
            assert(entry == o.ws_entry(ws_id));
            assert(forall|i: int|
                0 <= i < idx ==> self.installed_watch_sets@[i] == o.installed_watch_sets@[i]);
            assert(forall|i: int|
                idx <= i < self.installed_watch_sets@.len()
                    ==> self.installed_watch_sets@[i] == o.installed_watch_sets@[i + 1]);
        }
        let conn_id = entry.conn_id;
        let cn = self.connection_watch_sets.len();
        let mut cidx: usize = 0;
        while cidx < cn && self.connection_watch_sets[cidx].0 != conn_id
            invariant
                cn == self.connection_watch_sets@.len(),
                cidx <= cn,
                forall|j: int|
                    0 <= j < cidx ==> (#[trigger] self.connection_watch_sets@[j]).0 != conn_id,
            decreases cn - cidx,
        {
            cidx = cidx + 1;
        }
        if cidx >= cn {
            proof {
                assert(o.conn_indexes_ws(conn_id, ws_id));
                assert(false);
            }
            return None;
        }
        proof {
            let j = choose|j: int|
                0 <= j < o.connection_watch_sets@.len() && (
                #[trigger] o.connection_watch_sets@[j]).0 == conn_id
                    && o.connection_watch_sets@[j].1@.contains(ws_id);
            assert(o.conn_indexes_ws(conn_id, ws_id));
            assert(j == cidx);
        }
        let wn = self.connection_watch_sets[cidx].1.len();
        let mut wpos: usize = 0;
        while wpos < wn && self.connection_watch_sets[cidx].1[wpos] != ws_id
            invariant
                0 <= cidx < self.connection_watch_sets@.len(),
                wn == self.connection_watch_sets@[cidx as int].1@.len(),
                wpos <= wn,
                forall|m: int|
                    0 <= m < wpos ==> self.connection_watch_sets@[cidx as int].1@[m] != ws_id,
            decreases wn - wpos,
        {
            wpos = wpos + 1;
        }
        if wpos >= wn {
            proof {
                assert(!self.connection_watch_sets@[cidx as int].1@.contains(ws_id));
                assert(false);
            }
            return None;
        }
        let ghost old_list = self.connection_watch_sets@[cidx as int].1@;
        let mut centry = self.connection_watch_sets.remove(cidx);
        centry.1.remove(wpos);
        let ghost new_list = centry.1@;
        let kept = centry.1.len() > 0;
        if kept {
            self.connection_watch_sets.insert(cidx, centry);
        }
        proof {
            assert(forall|m: int| 0 <= m < wpos ==> new_list[m] == old_list[m]);
            assert(forall|m: int|
                wpos <= m < new_list.len() ==> new_list[m] == old_list[m + 1]);
            assert(forall|m: int| 0 <= m < new_list.len() ==> new_list[m] != ws_id);
            if kept {
                assert(forall|j: int|
                    0 <= j < cidx ==> self.connection_watch_sets@[j]
                        == o.connection_watch_sets@[j]);
                assert(self.connection_watch_sets@[cidx as int].0 == conn_id);
                assert(self.connection_watch_sets@[cidx as int].1@ == new_list);
                assert(forall|j: int|
                    cidx < j < self.connection_watch_sets@.len()
                        ==> self.connection_watch_sets@[j] == o.connection_watch_sets@[j]);
            } else {
                assert(old_list.len() == 1);
                assert(forall|j: int|
                    0 <= j < cidx ==> self.connection_watch_sets@[j]
                        == o.connection_watch_sets@[j]);
                assert(forall|j: int|
                    cidx <= j < self.connection_watch_sets@.len()
                        ==> self.connection_watch_sets@[j] == o.connection_watch_sets@[j + 1]);
            }
            lemma_registry_after_removal(o, *self, ws_id, idx as int, cidx as int, wpos as int, kept);
        }
        Some(entry)
    }
}

/// One update of the replica-metrics introspection relation.
#[derive(Clone, Copy, PartialEq, Eq, Structural, Debug)]
pub struct MetricsDiff {
    pub replica_id: u64,
    pub metrics: u64,
    pub diff: crate::status::DiffKind,
}

/// Whether a subscribe update completes the subscribe: a batch whose upper
/// frontier is empty, or a drop of the underlying collection.
pub open spec fn finished_of(update: SubscribeUpdate) -> bool {
    match update {
        SubscribeUpdate::Batch { upper_is_empty, .. } => upper_is_empty,
        SubscribeUpdate::DroppedAt => true,
    }
}

/// The payload a subscribe update carries to its consumer.
pub open spec fn data_of(update: SubscribeUpdate) -> u64 {
    match update {
        SubscribeUpdate::Batch { data, .. } => data,
        SubscribeUpdate::DroppedAt => 0,
    }
}

/// The action that resumes the continuation of a fired watch set.
pub open spec fn watch_action(e: WatchSetEntry, now_ts: u64) -> Action {
    match e.response {
        WatchSetResponse::StatementDependenciesReady { statement_id, event } =>
            Action::RecordLifecycle { statement_id, event, time: now_ts },
        WatchSetResponse::AlterSinkReady { conn_id } => Action::FinishAlterSink { conn_id },
    }
}

/// After processing the given fired ids, exactly the other watch sets remain
/// installed.
pub open spec fn installed_after(o: Coordinator, s: Coordinator, processed: Seq<u64>) -> bool {
    forall|w: u64| s.ws_installed(w) <==> (#[trigger] o.ws_installed(w) && !processed.contains(w))
}

/// The actions a batch of fired watch sets produces: one per id that is
/// installed, in batch order; an id already gone is skipped.
pub open spec fn watch_actions(s: Coordinator, ws_ids: Seq<u64>, now_ts: u64) -> Seq<Action>
    decreases ws_ids.len(),
{
    if ws_ids.len() == 0 {
        Seq::empty()
    } else {
        let rest = watch_actions(s, ws_ids.drop_last(), now_ts);
        if s.ws_installed(ws_ids.last()) {
            rest.push(watch_action(s.ws_entry(ws_ids.last()), now_ts))
        } else {
            rest
        }
    }
}

/// Watch-registry consistency depends only on the registry and its index:
/// it carries over to any state with the same two fields.
pub(crate) proof fn lemma_watch_registry_transfer(o: Coordinator, s: Coordinator)
    requires
        o.watch_sets_consistent(),
        s.installed_watch_sets == o.installed_watch_sets,
        s.connection_watch_sets == o.connection_watch_sets,
    ensures
        s.watch_sets_consistent(),
{
    let iv = s.installed_watch_sets@;
    let cv = s.connection_watch_sets@;
    assert forall|i: int| 0 <= i < iv.len() implies s.conn_indexes_ws(
        (#[trigger] iv[i]).conn_id,
        iv[i].ws_id,
    ) by {
        assert(o.conn_indexes_ws(o.installed_watch_sets@[i].conn_id,
            o.installed_watch_sets@[i].ws_id));
        let j = choose|j: int|
            0 <= j < o.connection_watch_sets@.len() && (#[trigger] o.connection_watch_sets@[j]).0
                == iv[i].conn_id && o.connection_watch_sets@[j].1@.contains(iv[i].ws_id);
        assert(cv[j].0 == iv[i].conn_id && cv[j].1@.contains(iv[i].ws_id));
    }
    assert forall|j: int, m: int|
        #![trigger cv[j].1@[m]]
        0 <= j < cv.len() && 0 <= m < cv[j].1@.len() implies s.installed_as(
        cv[j].1@[m],
        cv[j].0,
    ) by {
        assert(o.installed_as(o.connection_watch_sets@[j].1@[m], o.connection_watch_sets@[j].0));
        let i = choose|i: int|
            0 <= i < o.installed_watch_sets@.len() && (#[trigger] o.installed_watch_sets@[i]).ws_id
                == cv[j].1@[m] && o.installed_watch_sets@[i].conn_id == cv[j].0;
        assert(iv[i].ws_id == cv[j].1@[m] && iv[i].conn_id == cv[j].0);
    }
}

/// The outcome of booking fresh replica metrics: a tombstoned replica's late
/// report changes nothing; otherwise the entry holds the new metrics, every
/// other entry is untouched, and paired retraction/insertion updates are
/// emitted exactly when the metrics changed.
pub open spec fn metrics_outcome(
    o: Coordinator,
    s: Coordinator,
    actions: Seq<Action>,
    replica_id: u64,
    metrics: u64,
) -> bool {
    &&& eq_except_metadata(s, o)
    &&& (o.has_meta(replica_id) && o.meta_of(replica_id) == ReplicaMeta::Tombstone) ==> s == o
        && actions.len() == 0
    &&& !(o.has_meta(replica_id) && o.meta_of(replica_id) == ReplicaMeta::Tombstone) ==> {
        let old_m = o.recorded_metrics_of(replica_id);
        &&& s.has_meta(replica_id)
        &&& s.meta_of(replica_id) == ReplicaMeta::Metadata(Some(metrics))
        &&& forall|r: u64|
            r != replica_id ==> (#[trigger] s.has_meta(r) <==> o.has_meta(r))
        &&& forall|r: u64|
            #[trigger] o.has_meta(r) && r != replica_id ==> s.meta_of(r) == o.meta_of(r)
        &&& if old_m == Some(metrics) {
            actions.len() == 0
        } else {
            actions.len() == 1 && (actions[0] matches Action::UpdateMetricsTable { diffs }
                && diffs@ == (match old_m {
                Some(om) => seq![
                    MetricsDiff { replica_id, metrics: om, diff: DiffKind::Retraction },
                    MetricsDiff { replica_id, metrics, diff: DiffKind::Insertion },
                ],
                None => seq![MetricsDiff { replica_id, metrics, diff: DiffKind::Insertion }],
            }))
        }
    }
}

impl Coordinator {
    /// A replica has a metadata entry.
    pub open spec fn has_meta(self, replica_id: u64) -> bool {
        exists|i: int|
            0 <= i < self.transient_replica_metadata@.len()
                && self.transient_replica_metadata@[i].0 == replica_id
    }

    /// The index of a replica's metadata entry.
    pub open spec fn meta_index(self, replica_id: u64) -> int {
        choose|i: int|
            0 <= i < self.transient_replica_metadata@.len()
                && self.transient_replica_metadata@[i].0 == replica_id
    }

    /// A replica's metadata entry.
    pub open spec fn meta_of(self, replica_id: u64) -> ReplicaMeta {
        self.transient_replica_metadata@[self.meta_index(replica_id)].1
    }

    /// The metrics last recorded for a replica, if any.
    pub open spec fn recorded_metrics_of(self, replica_id: u64) -> Option<u64> {
        if self.has_meta(replica_id) {
            match self.meta_of(replica_id) {
                ReplicaMeta::Metadata(m) => m,
                ReplicaMeta::Tombstone => None,
            }
        } else {
            None
        }
    }

    /// Removes an active compute sink, returning what kind it was.
    #[verifier::rlimit(100)]
    fn drop_compute_sink(&mut self, sink_id: u64) -> (r: Option<SinkKind>)
        requires
            old(self).wf(),
        ensures
            final(self).wf(),
            eq_except_sinks(*final(self), *old(self)),
            !old(self).has_sink(sink_id) ==> r is None && *final(self) == *old(self),
            old(self).has_sink(sink_id) ==> {
                &&& r == Some(old(self).sink_kind_of(sink_id))
                &&& forall|s: u64|
                    final(self).has_sink(s) <==> (#[trigger] old(self).has_sink(s) && s != sink_id)
                &&& forall|s: u64|
                    #[trigger] old(self).has_sink(s) && s != sink_id ==> final(self).sink_kind_of(s)
                        == old(self).sink_kind_of(s)
            },
    {
        let n = self.active_compute_sinks.len();
        let mut idx: usize = 0;
        while idx < n && self.active_compute_sinks[idx].0 != sink_id
            invariant
                n == self.active_compute_sinks@.len(),
                idx <= n,
                forall|i: int| 0 <= i < idx ==> (#[trigger] self.active_compute_sinks@[i]).0 != sink_id,
            decreases n - idx,
        {
            idx = idx + 1;
        }
        if idx >= n {
            return None;
        }
        proof {
            let j = choose|j: int|
                0 <= j < self.active_compute_sinks@.len() && self.active_compute_sinks@[j].0
                    == sink_id;
            assert(j == idx);
        }
        let ghost o = *old(self);
        let (_, kind) = self.active_compute_sinks.remove(idx);
        proof {
            let os = o.active_compute_sinks@;
            let ss = self.active_compute_sinks@;
            assert(forall|i: int| 0 <= i < idx ==> ss[i] == os[i]);
            assert(forall|i: int| idx <= i < ss.len() ==> ss[i] == os[i + 1]);
            assert forall|s: u64| self.has_sink(s) implies (o.has_sink(s) && s != sink_id) by {
                let i = choose|i: int| 0 <= i < ss.len() && (#[trigger] ss[i]).0 == s;
                let i0: int = if i < idx {
                    i
                } else {
                    i + 1
                };
                assert(os[i0].0 == s);
                if s == sink_id {
                    assert(i0 != idx && os[idx as int].0 == s);
                    assert(false);
                }
            }
            assert forall|s: u64| o.has_sink(s) && s != sink_id implies self.has_sink(s) by {
                let i0 = choose|i: int| 0 <= i < os.len() && (#[trigger] os[i]).0 == s;
                assert(i0 != idx);
                if i0 < idx {
                    assert(ss[i0].0 == s);
                } else {
                    assert(ss[i0 - 1].0 == s);
                }
            }
            assert forall|s: u64| o.has_sink(s) && s != sink_id implies self.sink_kind_of(s)
                == o.sink_kind_of(s) by {
                let i0 = choose|i: int| 0 <= i < os.len() && (#[trigger] os[i]).0 == s;
                assert(i0 != idx);
                let is: int = if i0 < idx {
                    i0
                } else {
                    i0 - 1
                };
                assert(ss[is] == os[i0]);
                let ic = choose|i: int| 0 <= i < ss.len() && (#[trigger] ss[i]).0 == s;
                let ic0: int = if ic < idx {
                    ic
                } else {
                    ic + 1
                };
                assert(os[ic0].0 == s);
                assert(ic0 == i0);
            }
            assert forall|a: int, b: int| 0 <= a < b < ss.len() implies ss[a].0 != ss[b].0 by {
                let a0: int = if a < idx {
                    a
                } else {
                    a + 1
                };
                let b0: int = if b < idx {
                    b
                } else {
                    b + 1
                };
                assert(ss[a] == os[a0] && ss[b] == os[b0] && a0 < b0);
            }
            assert forall|i: int|
                0 <= i < ss.len() implies !self.introspection_subscribes@.contains(
                (#[trigger] ss[i]).0,
            ) by {
                let i0: int = if i < idx {
                    i
                } else {
                    i + 1
                };
                assert(ss[i] == os[i0]);
            }
            lemma_watch_registry_transfer(o, *self);
            assert(self.wf());
        }
        Some(kind)
    }

    /// Books fresh metrics for a replica. A tombstoned replica's late report
    /// is ignored. Otherwise the entry is set to the new metrics, and, only
    /// if they differ from the last recorded ones, paired introspection
    /// updates are emitted: a retraction of the old rows (if any were ever
    /// recorded) and an insertion of the new ones.
    #[verifier::rlimit(100)]
    fn update_replica_metrics(&mut self, replica_id: u64, metrics: u64) -> (actions: Vec<Action>)
        requires
            old(self).wf(),
        ensures
            final(self).wf(),
            metrics_outcome(*old(self), *final(self), actions@, replica_id, metrics),
    {
        let ghost o = *old(self);
        let mut actions: Vec<Action> = Vec::new();
        let n = self.transient_replica_metadata.len();
        let mut idx: usize = 0;
        while idx < n && self.transient_replica_metadata[idx].0 != replica_id
            invariant
                n == self.transient_replica_metadata@.len(),
                idx <= n,
                forall|i: int|
                    0 <= i < idx ==> (#[trigger] self.transient_replica_metadata@[i]).0
                        != replica_id,
            decreases n - idx,
        {
            idx = idx + 1;
        }
        let old_m: Option<u64>;
        if idx >= n {
            // No entry yet: the replica starts with no recorded metrics.
            old_m = None;
            self.transient_replica_metadata.push(
                (replica_id, ReplicaMeta::Metadata(Some(metrics))),
            );
            proof {
                let ss = self.transient_replica_metadata@;
                let os = o.transient_replica_metadata@;
                assert(ss[n as int].0 == replica_id);
                let j = choose|i: int| 0 <= i < ss.len() && (#[trigger] ss[i]).0 == replica_id;
                assert(j == n);
                assert(!o.has_meta(replica_id));
                assert forall|r: u64| r != replica_id && #[trigger] self.has_meta(r) implies
                    o.has_meta(r) by {
                    let i = choose|i: int| 0 <= i < ss.len() && (#[trigger] ss[i]).0 == r;
                    assert(i < n);
                    assert(os[i].0 == r);
                }
                assert forall|r: u64| #[trigger] o.has_meta(r) && r != replica_id implies
                    self.has_meta(r) by {
                    let i = choose|i: int| 0 <= i < os.len() && (#[trigger] os[i]).0 == r;
                    assert(ss[i].0 == r);
                }
                assert forall|r: u64| #[trigger] o.has_meta(r) && r != replica_id implies
                    self.meta_of(r) == o.meta_of(r) by {
                    let i0 = choose|i: int| 0 <= i < os.len() && (#[trigger] os[i]).0 == r;
                    assert(ss[i0].0 == r);
                    let ic = choose|i: int| 0 <= i < ss.len() && (#[trigger] ss[i]).0 == r;
                    assert(ic < n ==> os[ic].0 == r);
                    assert(ic == i0);
                }
                assert forall|a: int, b: int| 0 <= a < b < ss.len() implies ss[a].0 != ss[b].0 by {
                    if b < n {
                        assert(ss[a] == os[a] && ss[b] == os[b]);
                    } else {
                        assert(ss[b].0 == replica_id && ss[a] == os[a]);
                    }
                }
            }
        } else {
            proof {
                let j = choose|i: int|
                    0 <= i < self.transient_replica_metadata@.len()
                        && (#[trigger] self.transient_replica_metadata@[i]).0 == replica_id;
                assert(j == idx);
            }
            match self.transient_replica_metadata[idx].1 {
                ReplicaMeta::Tombstone => {
                    return actions;
                },
                ReplicaMeta::Metadata(m) => {
                    old_m = m;
                },
            }
            self.transient_replica_metadata[idx] = (
                replica_id,
                ReplicaMeta::Metadata(Some(metrics)),
            );
            proof {
                let ss = self.transient_replica_metadata@;
                let os = o.transient_replica_metadata@;
                assert(ss == os.update(idx as int, (replica_id, ReplicaMeta::Metadata(Some(
                    metrics,
                )))));
                let j = choose|i: int| 0 <= i < ss.len() && (#[trigger] ss[i]).0 == replica_id;
                assert(os[j].0 == replica_id);
                assert(j == idx);
                assert forall|r: u64| r != replica_id implies (#[trigger] self.has_meta(r)
                    <==> o.has_meta(r)) by {
                    if self.has_meta(r) {
                        let i = choose|i: int| 0 <= i < ss.len() && (#[trigger] ss[i]).0 == r;
                        assert(i != idx);
                        assert(os[i].0 == r);
                    }
                    if o.has_meta(r) {
                        let i = choose|i: int| 0 <= i < os.len() && (#[trigger] os[i]).0 == r;
                        assert(i != idx);
                        assert(ss[i].0 == r);
                    }
                }
                assert forall|r: u64| #[trigger] o.has_meta(r) && r != replica_id implies
                    self.meta_of(r) == o.meta_of(r) by {
                    let i0 = choose|i: int| 0 <= i < os.len() && (#[trigger] os[i]).0 == r;
                    assert(i0 != idx);
                    assert(ss[i0].0 == r);
                    let ic = choose|i: int| 0 <= i < ss.len() && (#[trigger] ss[i]).0 == r;
                    assert(os[ic].0 == r || ic == idx);
                    assert(ic == i0);
                }
                assert forall|a: int, b: int| 0 <= a < b < ss.len() implies ss[a].0 != ss[b].0 by {
                    assert(ss[a].0 == os[a].0 && ss[b].0 == os[b].0);
                }
            }
        }
        let changed = match old_m {
            Some(om) => om != metrics,
            None => true,
        };
        proof {
            lemma_watch_registry_transfer(o, *self);
            assert(self.wf());
            assert(self.has_meta(replica_id));
            assert(self.meta_of(replica_id) == ReplicaMeta::Metadata(Some(metrics)));
        }
        if changed {
            let mut diffs: Vec<MetricsDiff> = Vec::new();
            if let Some(om) = old_m {
                diffs.push(MetricsDiff { replica_id, metrics: om, diff: DiffKind::Retraction });
            }
            diffs.push(MetricsDiff { replica_id, metrics, diff: DiffKind::Insertion });
            proof {
                match old_m {
                    Some(om) => {
                        assert(diffs@ =~= seq![
                            MetricsDiff { replica_id, metrics: om, diff: DiffKind::Retraction },
                            MetricsDiff { replica_id, metrics, diff: DiffKind::Insertion },
                        ]);
                    },
                    None => {
                        assert(diffs@ =~= seq![
                            MetricsDiff { replica_id, metrics, diff: DiffKind::Insertion },
                        ]);
                    },
                }
            }
            actions.push(Action::UpdateMetricsTable { diffs });
        }
        actions
    }
}

/// The outcome of one controller notification, by its kind: forwarding a
/// peek result, routing a subscribe batch, retiring a COPY TO, booking
/// replica metrics, or resuming the continuations of fired watch sets.
pub open spec fn controller_outcome(
    o: Coordinator,
    s2: Coordinator,
    actions: Seq<Action>,
    message: ControllerResponse,
    now_ts: u64,
) -> bool {
    match message {
                ControllerResponse::PeekResponse { uuid, result } => s2 == o
                    && actions.len() == 1 && (actions[0] matches Action::SendPeekResponse {
                    uuid: u,
                    result: r,
                } && u == uuid && r == result),
                ControllerResponse::SubscribeResponse { sink_id, update } => {
                    if o.has_sink(sink_id) && o.sink_kind_of(sink_id)
                        == SinkKind::Subscribe {
                        let deliver: int = if update is Batch {
                            1
                        } else {
                            0
                        };
                        &&& (update matches SubscribeUpdate::Batch { data, .. } ==> (actions[0]
                            matches Action::DeliverSubscribeBatch { sink_id: s, data: d } && s
                            == sink_id && d == data))
                        &&& if finished_of(update) {
                            &&& actions.len() == deliver + 1
                            &&& (actions.last() matches Action::RetireComputeSink {
                                sink_id: s,
                                reason,
                            } && s == sink_id && reason == SinkRetireReason::Finished)
                            &&& eq_except_sinks(s2, o)
                            &&& forall|s: u64|
                                s2.has_sink(s) <==> (#[trigger] o.has_sink(s)
                                    && s != sink_id)
                            &&& forall|s: u64|
                                #[trigger] o.has_sink(s) && s != sink_id
                                    ==> s2.sink_kind_of(s) == o.sink_kind_of(s)
                        } else {
                            actions.len() == deliver && s2 == o
                        }
                    } else if o.has_introspection(sink_id) {
                        s2 == o && actions.len() == 1 && (actions[0]
                            matches Action::HandleIntrospectionBatch { sink_id: s, update_data }
                            && s == sink_id && update_data == data_of(update))
                    } else {
                        s2 == o && actions.len() == 1 && (actions[0]
                            matches Action::LogUnknownSink { sink_id: s } && s == sink_id)
                    }
                },
                ControllerResponse::CopyToResponse { sink_id, result } => {
                    &&& o.has_sink(sink_id) ==> {
                        &&& eq_except_sinks(s2, o)
                        &&& forall|s: u64|
                            s2.has_sink(s) <==> (#[trigger] o.has_sink(s) && s
                                != sink_id)
                        &&& forall|s: u64|
                            #[trigger] o.has_sink(s) && s != sink_id
                                ==> s2.sink_kind_of(s) == o.sink_kind_of(s)
                        &&& actions.len() == 1
                        &&& if o.sink_kind_of(sink_id) == SinkKind::CopyTo {
                            actions[0] matches Action::RetireCopyTo { sink_id: s, result: r }
                                && s == sink_id && r == result
                        } else {
                            actions[0] matches Action::LogUnknownSink { sink_id: s } && s
                                == sink_id
                        }
                    }
                    &&& !o.has_sink(sink_id) ==> s2 == o
                        && actions.len() == 1 && (actions[0] matches Action::LogUnknownSink {
                        sink_id: s,
                    } && s == sink_id)
                },
                ControllerResponse::ComputeReplicaMetrics { replica_id, metrics } =>
                    metrics_outcome(o, s2, actions, replica_id, metrics),
                ControllerResponse::WatchSetFinished { ws_ids } => {
                    &&& actions == watch_actions(o, ws_ids@, now_ts)
                    &&& eq_except_watch_registry(s2, o)
                    &&& installed_after(o, s2, ws_ids@)
                    &&& forall|w: u64|
                        #[trigger] s2.ws_installed(w)
                            ==> s2.ws_entry(w) == o.ws_entry(w)
                },
    }
}

impl Coordinator {
    /// Whether an active compute sink exists under the id, and its kind.
    fn find_sink(&self, sink_id: u64) -> (r: Option<SinkKind>)
        requires
            self.wf(),
        ensures
            r is Some <==> self.has_sink(sink_id),
            r is Some ==> r->0 == self.sink_kind_of(sink_id),
    {
        let n = self.active_compute_sinks.len();
        let mut idx: usize = 0;
        while idx < n && self.active_compute_sinks[idx].0 != sink_id
            invariant
                n == self.active_compute_sinks@.len(),
                idx <= n,
                forall|i: int|
                    0 <= i < idx ==> (#[trigger] self.active_compute_sinks@[i]).0 != sink_id,
            decreases n - idx,
        {
            idx = idx + 1;
        }
        if idx >= n {
            return None;
        }
        proof {
            assert(self.active_compute_sinks@[idx as int].0 == sink_id);
            let j = choose|j: int|
                0 <= j < self.active_compute_sinks@.len() && self.active_compute_sinks@[j].0
                    == sink_id;
            assert(j == idx);
        }
        Some(self.active_compute_sinks[idx].1)
    }

    /// Whether the sink id feeds an introspection subscribe.
    fn is_introspection(&self, sink_id: u64) -> (r: bool)
        ensures
            r == self.has_introspection(sink_id),
    {
        let n = self.introspection_subscribes.len();
        let mut idx: usize = 0;
        while idx < n
            invariant
                n == self.introspection_subscribes@.len(),
                idx <= n,
                forall|i: int| 0 <= i < idx ==> self.introspection_subscribes@[i] != sink_id,
            decreases n - idx,
        {
            if self.introspection_subscribes[idx] == sink_id {
                proof {
                    assert(self.introspection_subscribes@[idx as int] == sink_id);
                }
                return true;
            }
            idx = idx + 1;
        }
        false
    }

    /// Handles one completion notification drained from the controller. A
    /// finished peek's result is forwarded to its waiting client. A subscribe
    /// batch is routed to its active sink — which is retired once its upper
    /// frontier is empty or its collection is dropped — or to the
    /// introspection subscribe of that id; a response for a sink this
    /// coordinator does not know is only logged. A finished COPY TO is
    /// retired with its result. Fresh replica metrics are booked with paired
    /// introspection updates. Fired watch sets are removed from the registry,
    /// cascading into the per-connection index, and each one's parked
    /// continuation is resumed.
    /// Resumes the continuations of a batch of fired watch sets: each id is
    /// removed from the registry, cascading into the per-connection index,
    /// and its parked continuation is resumed — a lifecycle event recorded at
    /// the current time, or a parked ALTER SINK finished. An id no longer
    /// installed is skipped.
    fn finish_watch_sets(&mut self, ws_ids: &Vec<u64>, now_ts: u64) -> (actions: Vec<Action>)
        requires
            old(self).wf(),
            forall|i: int, j: int| 0 <= i < j < ws_ids@.len() ==> ws_ids@[i] != ws_ids@[j],
        ensures
            final(self).wf(),
            actions@ == watch_actions(*old(self), ws_ids@, now_ts),
            eq_except_watch_registry(*final(self), *old(self)),
            installed_after(*old(self), *final(self), ws_ids@),
            forall|w: u64|
                #[trigger] final(self).ws_installed(w) ==> final(self).ws_entry(w) == old(
                    self,
                ).ws_entry(w),
    {
        let ghost o = *old(self);
        let mut actions: Vec<Action> = Vec::new();
        let mut k: usize = 0;
        while k < ws_ids.len()
            invariant
                self.wf(),
                eq_except_watch_registry(*self, o),
                k <= ws_ids@.len(),
                forall|i: int, j: int| 0 <= i < j < ws_ids@.len() ==> ws_ids@[i] != ws_ids@[j],
                actions@ == watch_actions(o, ws_ids@.take(k as int), now_ts),
                installed_after(o, *self, ws_ids@.take(k as int)),
                forall|w: u64|
                    #[trigger] self.ws_installed(w) ==> self.ws_entry(w) == o.ws_entry(w),
            decreases ws_ids@.len() - k,
        {
            let ws = ws_ids[k];
            proof {
                assert(ws_ids@.take(k + 1).drop_last() =~= ws_ids@.take(k as int));
                assert(ws_ids@.take(k + 1).last() == ws_ids@[k as int]);
                if ws_ids@.take(k as int).contains(ws) {
                    let i = choose|i: int|
                        0 <= i < k && #[trigger] ws_ids@.take(k as int)[i] == ws;
                    assert(ws_ids@[i] == ws_ids@[k as int]);
                    assert(false);
                }
            }
            let ghost cur = *self;
            let r = self.remove_watch_set(ws);
            match r {
                None => {
                    proof {
                        assert(!cur.ws_installed(ws));
                        assert(!o.ws_installed(ws));
                    }
                },
                Some(entry) => {
                    proof {
                        assert(cur.ws_installed(ws));
                        assert(o.ws_installed(ws));
                        assert(entry == cur.ws_entry(ws));
                        assert(entry == o.ws_entry(ws));
                    }
                    match entry.response {
                        WatchSetResponse::StatementDependenciesReady { statement_id, event } => {
                            actions.push(Action::RecordLifecycle {
                                statement_id,
                                event,
                                time: now_ts,
                            });
                        },
                        WatchSetResponse::AlterSinkReady { conn_id } => {
                            actions.push(Action::FinishAlterSink { conn_id });
                        },
                    }
                },
            }
            proof {
                assert forall|w: u64| #[trigger] ws_ids@.take(k + 1).contains(w) implies (
                ws_ids@.take(k as int).contains(w) || w == ws) by {
                    let i = choose|i: int|
                        0 <= i < k + 1 && #[trigger] ws_ids@.take(k + 1)[i] == w;
                    if i < k {
                        assert(ws_ids@.take(k as int)[i] == w);
                    }
                }
                assert forall|w: u64|
                    ws_ids@.take(k as int).contains(w) || w == ws implies #[trigger] ws_ids@.take(
                    k + 1,
                ).contains(w) by {
                    if w == ws {
                        assert(ws_ids@.take(k + 1)[k as int] == w);
                    } else {
                        let i = choose|i: int|
                            0 <= i < k && #[trigger] ws_ids@.take(k as int)[i] == w;
                        assert(ws_ids@.take(k + 1)[i] == w);
                    }
                }
                assert forall|w: u64|
                    self.ws_installed(w) <==> (#[trigger] o.ws_installed(w) && !ws_ids@.take(
                    k + 1,
                ).contains(w)) by {
                    assert(cur.ws_installed(w) <==> (o.ws_installed(w) && !ws_ids@.take(
                        k as int,
                    ).contains(w)));
                    if cur.ws_installed(ws) {
                        assert(self.ws_installed(w) <==> (cur.ws_installed(w) && w != ws));
                    } else {
                        assert(*self == cur);
                        assert(!o.ws_installed(ws));
                    }
                }
                assert(installed_after(o, *self, ws_ids@.take(k + 1)));
                assert forall|w: u64| #[trigger] self.ws_installed(w) implies self.ws_entry(w)
                    == o.ws_entry(w) by {
                    if cur.ws_installed(ws) {
                        assert(cur.ws_installed(w) && w != ws);
                        assert(self.ws_entry(w) == cur.ws_entry(w));
                        assert(cur.ws_entry(w) == o.ws_entry(w));
                    } else {
                        assert(*self == cur);
                    }
                }
            }
            k = k + 1;
        }
        proof {
            assert(ws_ids@.take(ws_ids@.len() as int) =~= ws_ids@);
        }
        actions
    }

    #[verifier::rlimit(100)]
    pub fn message_controller(&mut self, message: ControllerResponse, now_ts: u64) -> (actions:
        Vec<Action>)
        requires
            old(self).wf(),
            message matches ControllerResponse::WatchSetFinished { ws_ids } ==> forall|
                i: int,
                j: int,
            | 0 <= i < j < ws_ids@.len() ==> ws_ids@[i] != ws_ids@[j],
        ensures
            final(self).wf(),
            controller_outcome(*old(self), *final(self), actions@, message, now_ts),
    {
        let mut actions: Vec<Action> = Vec::new();
        match message {
            ControllerResponse::PeekResponse { uuid, result } => {
                actions.push(Action::SendPeekResponse { uuid, result });
            },
            ControllerResponse::SubscribeResponse { sink_id, update } => {
                let is_subscribe = match self.find_sink(sink_id) {
                    Some(SinkKind::Subscribe) => true,
                    _ => false,
                };
                if is_subscribe {
                    let finished: bool;
                    match update {
                        SubscribeUpdate::Batch { upper_is_empty, data } => {
                            actions.push(Action::DeliverSubscribeBatch { sink_id, data });
                            finished = upper_is_empty;
                        },
                        SubscribeUpdate::DroppedAt => {
                            finished = true;
                        },
                    }
                    if finished {
                        let _removed = self.drop_compute_sink(sink_id);
                        actions.push(Action::RetireComputeSink {
                            sink_id,
                            reason: SinkRetireReason::Finished,
                        });
                    }
                } else if self.is_introspection(sink_id) {
                    let update_data = match update {
                        SubscribeUpdate::Batch { data, .. } => data,
                        SubscribeUpdate::DroppedAt => 0,
                    };
                    actions.push(Action::HandleIntrospectionBatch { sink_id, update_data });
                } else {
                    actions.push(Action::LogUnknownSink { sink_id });
                }
            },
            ControllerResponse::CopyToResponse { sink_id, result } => {
                match self.drop_compute_sink(sink_id) {
                    Some(SinkKind::CopyTo) => {
                        actions.push(Action::RetireCopyTo { sink_id, result });
                    },
                    _ => {
                        actions.push(Action::LogUnknownSink { sink_id });
                    },
                }
            },
            ControllerResponse::ComputeReplicaMetrics { replica_id, metrics } => {
                return self.update_replica_metrics(replica_id, metrics);
            },
            ControllerResponse::WatchSetFinished { ws_ids } => {
                return self.finish_watch_sets(&ws_ids, now_ts);
            },
        }
        actions
    }
}

} // verus!
