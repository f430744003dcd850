//! The cluster replica status table: the last known health status of every
//! process of every replica, mirrored into an introspection relation by
//! paired retraction/insertion diffs. An accepted status transition emits
//! exactly one retraction of the old row and one insertion of the new row; an
//! unchanged status emits nothing.

use vstd::prelude::*;

use crate::coord::{eq_except_statuses, Coordinator};
use crate::message::Action;

verus! {

pub type ClusterId = u64;

pub type ReplicaId = u64;

pub type ProcessId = u64;

/// Health status of one replica process, or of a replica as a whole.
#[derive(Clone, Copy, PartialEq, Eq, Structural, Debug)]
pub enum ClusterStatus {
    /// The process (or every process of the replica) is ready.
    Ready,
    /// Not ready, with an optional reason code.
    NotReady(Option<u64>),
}

/// The last known status of one replica process, with the time it was
/// observed.
#[derive(Clone, Copy, PartialEq, Eq, Structural, Debug)]
pub struct ProcessStatus {
    pub status: ClusterStatus,
    pub time: u64,
}

/// Statuses of every process of one replica.
#[derive(Clone, Debug)]
pub struct ReplicaStatuses {
    pub cluster_id: ClusterId,
    pub replica_id: ReplicaId,
    pub processes: Vec<(ProcessId, ProcessStatus)>,
}

impl ReplicaStatuses {
    /// Process ids are unique within the replica.
    pub open spec fn wf(self) -> bool {
        forall|i: int, j: int|
            0 <= i < j < self.processes@.len() ==> self.processes@[i].0 != self.processes@[j].0
    }

    pub open spec fn has_process(self, process_id: ProcessId) -> bool {
        exists|i: int| 0 <= i < self.processes@.len() && self.processes@[i].0 == process_id
    }

    /// The index of a process in the entry.
    pub open spec fn process_index(self, process_id: ProcessId) -> int {
        choose|i: int| 0 <= i < self.processes@.len() && self.processes@[i].0 == process_id
    }

    pub open spec fn status_of(self, process_id: ProcessId) -> ProcessStatus {
        self.processes@[self.process_index(process_id)].1
    }

    /// The user-visible aggregate status of the replica: ready only if every
    /// process is ready.
    pub open spec fn aggregate_status(self) -> ClusterStatus {
        if forall|i: int|
            0 <= i < self.processes@.len() ==> self.processes@[i].1.status == ClusterStatus::Ready {
            ClusterStatus::Ready
        } else {
            ClusterStatus::NotReady(None)
        }
    }

    /// Computes the aggregate replica status.
    pub fn cluster_replica_status(&self) -> (r: ClusterStatus)
        ensures
            r == self.aggregate_status(),
    {
        let mut k: usize = 0;
        while k < self.processes.len()
            invariant
                k <= self.processes@.len(),
                forall|i: int|
                    0 <= i < k ==> self.processes@[i].1.status == ClusterStatus::Ready,
            decreases self.processes@.len() - k,
        {
            if !matches!(self.processes[k].1.status, ClusterStatus::Ready) {
                return ClusterStatus::NotReady(None);
            }
            k = k + 1;
        }
        ClusterStatus::Ready
    }
}

/// A cluster/replica/process health event delivered by the controller.
#[derive(Clone, Copy, PartialEq, Eq, Structural, Debug)]
pub struct ClusterEvent {
    pub cluster_id: ClusterId,
    pub replica_id: ReplicaId,
    pub process_id: ProcessId,
    pub status: ClusterStatus,
    pub time: u64,
}

/// Whether a row is retracted from or inserted into the introspection
/// relation.
#[derive(Clone, Copy, PartialEq, Eq, Structural, Debug)]
pub enum DiffKind {
    /// The row leaves the relation (diff -1).
    Retraction,
    /// The row enters the relation (diff +1).
    Insertion,
}

/// One update of the replica-status introspection relation.
#[derive(Clone, Copy, PartialEq, Eq, Structural, Debug)]
pub struct StatusDiff {
    pub replica_id: ReplicaId,
    pub process_id: ProcessId,
    pub status: ClusterStatus,
    pub time: u64,
    pub diff: DiffKind,
}

/// The outcome of one replica status event: an event for an unknown replica
/// or an unchanged status changes nothing and emits nothing; an accepted
/// transition updates exactly the affected process entry and produces exactly
/// one retraction of the old row and one insertion of the new one — buffered
/// in read-only mode, emitted otherwise — and one notice exactly when the
/// aggregate replica status changed.
pub open spec fn cluster_event_outcome(
    o: Coordinator,
    s2: Coordinator,
    actions: Seq<Action>,
    event: ClusterEvent,
) -> bool {
    &&& !o.has_replica(event.cluster_id, event.replica_id) ==> s2 == o && actions.len() == 0
    &&& (o.has_replica(event.cluster_id, event.replica_id) && event.status == o.replica_entry(
        event.cluster_id,
        event.replica_id,
    ).status_of(event.process_id).status) ==> s2 == o && actions.len() == 0
    &&& (o.has_replica(event.cluster_id, event.replica_id) && event.status != o.replica_entry(
        event.cluster_id,
        event.replica_id,
    ).status_of(event.process_id).status) ==> {
        let idx = o.replica_index(event.cluster_id, event.replica_id);
        let entry = o.replica_entry(event.cluster_id, event.replica_id);
        let pidx = entry.process_index(event.process_id);
        let old_ps = entry.status_of(event.process_id);
        let retraction = StatusDiff {
            replica_id: event.replica_id,
            process_id: event.process_id,
            status: old_ps.status,
            time: old_ps.time,
            diff: DiffKind::Retraction,
        };
        let insertion = StatusDiff {
            replica_id: event.replica_id,
            process_id: event.process_id,
            status: event.status,
            time: event.time,
            diff: DiffKind::Insertion,
        };
        let new_entry = s2.cluster_replica_statuses@[idx];
        let notice_count: int = if entry.aggregate_status() != new_entry.aggregate_status() {
            1
        } else {
            0
        };
        let emit_count: int = if o.read_only {
            0
        } else {
            1
        };
        &&& eq_except_statuses(s2, o)
        &&& s2.cluster_replica_statuses@.len() == o.cluster_replica_statuses@.len()
        &&& forall|i: int|
            0 <= i < o.cluster_replica_statuses@.len() && i != idx
                ==> s2.cluster_replica_statuses@[i] == o.cluster_replica_statuses@[i]
        &&& new_entry.cluster_id == event.cluster_id
        &&& new_entry.replica_id == event.replica_id
        &&& new_entry.processes@ == entry.processes@.update(
            pidx,
            (event.process_id, ProcessStatus { status: event.status, time: event.time }),
        )
        &&& if o.read_only {
            s2.buffered_builtin_table_updates@ == o.buffered_builtin_table_updates@ + seq![
                retraction,
                insertion,
            ]
        } else {
            &&& s2.buffered_builtin_table_updates == o.buffered_builtin_table_updates
            &&& actions[0] matches Action::EmitStatusDiffs { diffs } && diffs@ == seq![
                retraction,
                insertion,
            ]
        }
        &&& actions.len() == emit_count + notice_count
        &&& notice_count == 1 ==> (actions.last() matches Action::BroadcastNotice { notice }
            && notice == (ReplicaStatusNotice {
            cluster_id: event.cluster_id,
            replica_id: event.replica_id,
            status: new_entry.aggregate_status(),
            time: event.time,
        }))
    }
}

impl Coordinator {
    /// Handles a replica status event. An event for a replica already dropped
    /// from the catalog is ignored. An event that does not change the
    /// process's status changes nothing and emits nothing. An accepted
    /// transition updates the status table and produces exactly one
    /// retraction of the old introspection row and one insertion of the new
    /// one — buffered while in read-only mode, emitted otherwise — and, only
    /// if the user-visible aggregate replica status changed, one notice to
    /// affected sessions.
    pub fn message_cluster_event(&mut self, event: ClusterEvent) -> (actions: Vec<Action>)
        requires
            old(self).wf(),
            old(self).has_replica(event.cluster_id, event.replica_id) ==> old(self).replica_entry(
                event.cluster_id,
                event.replica_id,
            ).has_process(event.process_id),
        ensures
            cluster_event_outcome(*old(self), *final(self), actions@, event),
            old(self).wf() ==> final(self).wf(),
    {
        let ghost orig = *old(self);
        let mut actions: Vec<Action> = Vec::new();
        let mut idx: usize = 0;
        let mut found: bool = false;
        while idx < self.cluster_replica_statuses.len() && !found
            invariant
                idx <= self.cluster_replica_statuses@.len(),
                !found ==> forall|i: int|
                    0 <= i < idx ==> !((#[trigger] self.cluster_replica_statuses@[i]).cluster_id
                        == event.cluster_id && self.cluster_replica_statuses@[i].replica_id
                        == event.replica_id),
                found ==> idx < self.cluster_replica_statuses@.len()
                    && self.cluster_replica_statuses@[idx as int].cluster_id == event.cluster_id
                    && self.cluster_replica_statuses@[idx as int].replica_id == event.replica_id,
            decreases self.cluster_replica_statuses@.len() - idx + (if found {
                0int
            } else {
                1int
            }),
        {
            if self.cluster_replica_statuses[idx].cluster_id == event.cluster_id
                && self.cluster_replica_statuses[idx].replica_id == event.replica_id {
                found = true;
            } else {
                idx = idx + 1;
            }
        }
        if !found {
            return actions;
        }
        proof {
            assert(self.has_replica(event.cluster_id, event.replica_id));
            let j = self.replica_index(event.cluster_id, event.replica_id);
            assert(j == idx);
        }
        let mut pidx: usize = 0;
        let plen = self.cluster_replica_statuses[idx].processes.len();
        while pidx < plen && self.cluster_replica_statuses[idx].processes[pidx].0
            != event.process_id
            invariant
                0 <= idx < self.cluster_replica_statuses@.len(),
                plen == self.cluster_replica_statuses@[idx as int].processes@.len(),
                pidx <= plen,
                forall|i: int|
                    0 <= i < pidx ==> (#[trigger] self.cluster_replica_statuses@[
                    idx as int].processes@[i]).0 != event.process_id,
            decreases plen - pidx,
        {
            pidx = pidx + 1;
        }
        if pidx >= plen {
            proof {
                assert(!self.replica_entry(event.cluster_id, event.replica_id).has_process(
                    event.process_id,
                ));
                assert(false);
            }
            return actions;
        }
        proof {
            let entry = self.replica_entry(event.cluster_id, event.replica_id);
            let j = entry.process_index(event.process_id);
            assert(entry.wf());
            assert(j == pidx);
        }
        let old_ps = self.cluster_replica_statuses[idx].processes[pidx].1;
        if old_ps.status == event.status {
            return actions;
        }
        let old_agg = self.cluster_replica_statuses[idx].cluster_replica_status();
        let retraction = StatusDiff {
            replica_id: event.replica_id,
            process_id: event.process_id,
            status: old_ps.status,
            time: old_ps.time,
            diff: DiffKind::Retraction,
        };
        let insertion = StatusDiff {
            replica_id: event.replica_id,
            process_id: event.process_id,
            status: event.status,
            time: event.time,
            diff: DiffKind::Insertion,
        };
        let ghost old_table = self.cluster_replica_statuses@;
        let mut entry = self.cluster_replica_statuses.remove(idx);
        entry.processes[pidx] = (
            event.process_id,
            ProcessStatus { status: event.status, time: event.time },
        );
        self.cluster_replica_statuses.insert(idx, entry);
        proof {
            assert(self.cluster_replica_statuses@ =~= old_table.update(
                idx as int,
                self.cluster_replica_statuses@[idx as int],
            ));
        }
        let new_agg = self.cluster_replica_statuses[idx].cluster_replica_status();
        if self.read_only {
            self.buffered_builtin_table_updates.push(retraction);
            self.buffered_builtin_table_updates.push(insertion);
            proof {
                assert(self.buffered_builtin_table_updates@ =~= old(
                    self,
                ).buffered_builtin_table_updates@ + seq![retraction, insertion]);
            }
        } else {
            let mut diffs: Vec<StatusDiff> = Vec::new();
            diffs.push(retraction);
            diffs.push(insertion);
            proof {
                assert(diffs@ =~= seq![retraction, insertion]);
            }
            actions.push(Action::EmitStatusDiffs { diffs });
        }
        if !(old_agg == new_agg) {
            actions.push(Action::BroadcastNotice {
                notice: ReplicaStatusNotice {
                    cluster_id: event.cluster_id,
                    replica_id: event.replica_id,
                    status: new_agg,
                    time: event.time,
                },
            });
        }
        proof {
            crate::controller::lemma_watch_registry_transfer(orig, *self);
            assert forall|i: int|
                0 <= i < self.cluster_replica_statuses@.len() implies (
            #[trigger] self.cluster_replica_statuses@[i]).wf() by {
                if i == idx {
                    assert(old_table[i].wf());
                    assert forall|a: int, b: int|
                        0 <= a < b < self.cluster_replica_statuses@[i].processes@.len() implies
                        self.cluster_replica_statuses@[i].processes@[a].0
                            != self.cluster_replica_statuses@[i].processes@[b].0 by {
                        assert(old_table[i].processes@[a].0 == self.cluster_replica_statuses@[
                        i].processes@[a].0);
                        assert(old_table[i].processes@[b].0 == self.cluster_replica_statuses@[
                        i].processes@[b].0);
                    }
                } else {
                    assert(self.cluster_replica_statuses@[i] == old_table[i]);
                    assert(old_table[i].wf());
                }
            }
        }
        actions
    }
}

/// A notice broadcast to sessions when the user-visible aggregate status of a
/// replica changes.
#[derive(Clone, Copy, PartialEq, Eq, Structural, Debug)]
pub struct ReplicaStatusNotice {
    pub cluster_id: ClusterId,
    pub replica_id: ReplicaId,
    pub status: ClusterStatus,
    pub time: u64,
}

} // verus!
