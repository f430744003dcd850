//! The coordinator's state and its well-formedness invariant. All of this
//! state is owned exclusively by the dispatch loop: background work never
//! touches it, it only posts messages.

use vstd::prelude::*;

use crate::catalog::CatalogState;
use crate::controller::{controller_outcome, ControllerResponse, ReplicaMeta, SinkKind,
    WatchSetEntry};
use crate::linearize::{linearize_outcome, needs_oracle, read_timeline, PendingReadTxn};
use crate::message::{Action, Message};
use crate::sequencer::{
    alter_connection_validation_outcome, create_connection_validation_outcome,
    purified_ready_outcome, staged_outcome,
};
use crate::status::{cluster_event_outcome, ClusterId, ReplicaId, ReplicaStatuses, StatusDiff};
use crate::storage_usage::{fetch_outcome, schedule_outcome, update_outcome};
use crate::write_lock::{write_lock_grant_outcome, Deferred};

verus! {

/// The coordinator actor's state.
pub struct Coordinator {
    /// The catalog as of the last committed change.
    pub catalog: CatalogState,
    /// Statements waiting for the exclusive write lock, in arrival order.
    pub write_lock_wait_group: Vec<Deferred>,
    /// In-flight reads awaiting timeline catch-up, keyed by connection.
    pub pending_linearize_read_txns: Vec<PendingReadTxn>,
    /// Last known health status of every replica process.
    pub cluster_replica_statuses: Vec<ReplicaStatuses>,
    /// Installed watch sets, keyed by watch-set id.
    pub installed_watch_sets: Vec<WatchSetEntry>,
    /// Watch-set ids per connection: the reverse index of
    /// `installed_watch_sets`, kept free of empty entries.
    pub connection_watch_sets: Vec<(u64, Vec<u64>)>,
    /// Active compute sinks with their kinds.
    pub active_compute_sinks: Vec<(u64, SinkKind)>,
    /// Sinks that feed introspection subscribes; disjoint from the active
    /// compute sinks.
    pub introspection_subscribes: Vec<u64>,
    /// Transient per-replica metrics bookkeeping.
    pub transient_replica_metadata: Vec<(u64, ReplicaMeta)>,
    /// While true, introspection updates are buffered instead of applied.
    pub read_only: bool,
    /// Introspection updates buffered while in read-only mode.
    pub buffered_builtin_table_updates: Vec<StatusDiff>,
    /// The storage-usage collection interval.
    pub storage_usage_collection_interval_ms: u64,
    /// The deployment's stable organization identifier, the seed of the
    /// collection schedule.
    pub organization_id: Vec<u8>,
}

impl Coordinator {
    /// A fresh coordinator: an empty catalog at revision zero, no deferred
    /// writes, no pending reads and no bookkeeping, with the deployment's
    /// collection interval, stable identifier and mode. Establishes the state
    /// invariant the dispatch loop requires; every handler preserves it.
    pub fn new(
        storage_usage_collection_interval_ms: u64,
        organization_id: Vec<u8>,
        read_only: bool,
    ) -> (c: Coordinator)
        ensures
            c.wf(),
            c.catalog.objects@.len() == 0,
            c.catalog.revision == 0,
            c.write_lock_wait_group@.len() == 0,
            c.pending_linearize_read_txns@.len() == 0,
            c.cluster_replica_statuses@.len() == 0,
            c.installed_watch_sets@.len() == 0,
            c.connection_watch_sets@.len() == 0,
            c.active_compute_sinks@.len() == 0,
            c.introspection_subscribes@.len() == 0,
            c.transient_replica_metadata@.len() == 0,
            c.buffered_builtin_table_updates@.len() == 0,
            c.read_only == read_only,
            c.storage_usage_collection_interval_ms == storage_usage_collection_interval_ms,
            c.organization_id == organization_id,
    {
        Coordinator {
            catalog: CatalogState { objects: Vec::new(), revision: 0 },
            write_lock_wait_group: Vec::new(),
            pending_linearize_read_txns: Vec::new(),
            cluster_replica_statuses: Vec::new(),
            installed_watch_sets: Vec::new(),
            connection_watch_sets: Vec::new(),
            active_compute_sinks: Vec::new(),
            introspection_subscribes: Vec::new(),
            transient_replica_metadata: Vec::new(),
            read_only,
            buffered_builtin_table_updates: Vec::new(),
            storage_usage_collection_interval_ms,
            organization_id,
        }
    }

    /// A watch-set id is installed.
    pub open spec fn ws_installed(self, ws_id: u64) -> bool {
        exists|i: int|
            0 <= i < self.installed_watch_sets@.len()
                && self.installed_watch_sets@[i].ws_id == ws_id
    }

    /// The installed entry of a watch-set id.
    pub open spec fn ws_entry(self, ws_id: u64) -> WatchSetEntry {
        self.installed_watch_sets@[choose|i: int|
            0 <= i < self.installed_watch_sets@.len()
                && self.installed_watch_sets@[i].ws_id == ws_id]
    }

    /// The per-connection index holds the watch-set id under the connection.
    pub open spec fn conn_indexes_ws(self, conn_id: u64, ws_id: u64) -> bool {
        exists|j: int|
            0 <= j < self.connection_watch_sets@.len()
                && (#[trigger] self.connection_watch_sets@[j]).0 == conn_id
                && self.connection_watch_sets@[j].1@.contains(ws_id)
    }

    /// A watch set is installed under the given connection.
    pub open spec fn installed_as(self, ws_id: u64, conn_id: u64) -> bool {
        exists|i: int|
            0 <= i < self.installed_watch_sets@.len()
                && (#[trigger] self.installed_watch_sets@[i]).ws_id == ws_id
                && self.installed_watch_sets@[i].conn_id == conn_id
    }

    /// The watch-set registry and its per-connection index agree: every
    /// installed watch set is indexed under its connection, everything the
    /// index holds is installed under that connection, and the index leaks no
    /// empty entries.
    pub open spec fn watch_sets_consistent(self) -> bool {
        &&& forall|i: int|
            0 <= i < self.installed_watch_sets@.len() ==> self.conn_indexes_ws(
                (#[trigger] self.installed_watch_sets@[i]).conn_id,
                self.installed_watch_sets@[i].ws_id,
            )
        &&& forall|j: int, m: int|
            #![trigger self.connection_watch_sets@[j].1@[m]]
            0 <= j < self.connection_watch_sets@.len() && 0 <= m
                < self.connection_watch_sets@[j].1@.len() ==> self.installed_as(
                self.connection_watch_sets@[j].1@[m],
                self.connection_watch_sets@[j].0,
            )
        &&& forall|j: int|
            0 <= j < self.connection_watch_sets@.len()
                ==> (#[trigger] self.connection_watch_sets@[j]).1@.len() > 0
    }

    /// Uniqueness of every key this state is indexed by.
    pub open spec fn keys_unique(self) -> bool {
        &&& forall|i: int, j: int|
            0 <= i < j < self.pending_linearize_read_txns@.len()
                ==> self.pending_linearize_read_txns@[i].conn_id
                != self.pending_linearize_read_txns@[j].conn_id
        &&& forall|i: int, j: int|
            0 <= i < j < self.cluster_replica_statuses@.len() ==> !(
            self.cluster_replica_statuses@[i].cluster_id
                == self.cluster_replica_statuses@[j].cluster_id
                && self.cluster_replica_statuses@[i].replica_id
                == self.cluster_replica_statuses@[j].replica_id)
        &&& forall|i: int, j: int|
            0 <= i < j < self.installed_watch_sets@.len()
                ==> self.installed_watch_sets@[i].ws_id != self.installed_watch_sets@[j].ws_id
        &&& forall|i: int, j: int|
            0 <= i < j < self.connection_watch_sets@.len()
                ==> self.connection_watch_sets@[i].0 != self.connection_watch_sets@[j].0
        &&& forall|j: int, a: int, b: int|
            #![trigger self.connection_watch_sets@[j].1@[a], self.connection_watch_sets@[j].1@[b]]
            0 <= j < self.connection_watch_sets@.len() && 0 <= a < b
                < self.connection_watch_sets@[j].1@.len()
                ==> self.connection_watch_sets@[j].1@[a] != self.connection_watch_sets@[j].1@[b]
        &&& forall|i: int, j: int|
            0 <= i < j < self.active_compute_sinks@.len()
                ==> self.active_compute_sinks@[i].0 != self.active_compute_sinks@[j].0
        &&& forall|i: int, j: int|
            0 <= i < j < self.introspection_subscribes@.len()
                ==> self.introspection_subscribes@[i] != self.introspection_subscribes@[j]
        &&& forall|i: int, j: int|
            0 <= i < j < self.transient_replica_metadata@.len()
                ==> self.transient_replica_metadata@[i].0
                != self.transient_replica_metadata@[j].0
    }

    /// An active compute sink exists under the given id.
    pub open spec fn has_sink(self, sink_id: u64) -> bool {
        exists|i: int|
            0 <= i < self.active_compute_sinks@.len()
                && self.active_compute_sinks@[i].0 == sink_id
    }

    /// The kind of the active compute sink with the given id.
    pub open spec fn sink_kind_of(self, sink_id: u64) -> SinkKind {
        self.active_compute_sinks@[choose|i: int|
            0 <= i < self.active_compute_sinks@.len()
                && self.active_compute_sinks@[i].0 == sink_id].1
    }

    /// A sink id feeds an introspection subscribe.
    pub open spec fn has_introspection(self, sink_id: u64) -> bool {
        self.introspection_subscribes@.contains(sink_id)
    }

    /// The status entry for a (cluster, replica) pair exists.
    pub open spec fn has_replica(self, cluster_id: ClusterId, replica_id: ReplicaId) -> bool {
        exists|i: int|
            0 <= i < self.cluster_replica_statuses@.len()
                && self.cluster_replica_statuses@[i].cluster_id == cluster_id
                && self.cluster_replica_statuses@[i].replica_id == replica_id
    }

    /// The index of the status entry for a (cluster, replica) pair.
    pub open spec fn replica_index(self, cluster_id: ClusterId, replica_id: ReplicaId) -> int {
        choose|i: int|
            0 <= i < self.cluster_replica_statuses@.len()
                && self.cluster_replica_statuses@[i].cluster_id == cluster_id
                && self.cluster_replica_statuses@[i].replica_id == replica_id
    }

    /// The status entry for a (cluster, replica) pair.
    pub open spec fn replica_entry(self, cluster_id: ClusterId, replica_id: ReplicaId) -> ReplicaStatuses {
        self.cluster_replica_statuses@[self.replica_index(cluster_id, replica_id)]
    }

    /// Well-formedness of the whole coordinator state.
    pub open spec fn wf(self) -> bool {
        &&& self.catalog.wf()
        &&& self.keys_unique()
        &&& self.watch_sets_consistent()
        &&& forall|i: int|
            0 <= i < self.cluster_replica_statuses@.len()
                ==> (#[trigger] self.cluster_replica_statuses@[i]).wf()
        &&& forall|i: int|
            0 <= i < self.active_compute_sinks@.len()
                ==> !self.introspection_subscribes@.contains(
                (#[trigger] self.active_compute_sinks@[i]).0,
            )
    }
}

impl Coordinator {
    /// Dispatches one message pulled from the mailbox: runs its handler to
    /// completion and returns the actions the runtime performs outside the
    /// loop. No two messages are ever processed concurrently, so every state
    /// change below is atomic with respect to the rest of the coordinator.
    /// External observations a handler needs — oracle readings, collection
    /// metadata, the current write timestamp — ride on the message that
    /// re-enters the loop; `now_ts` is the wall-clock reading taken when the
    /// message was pulled.
    pub fn handle_message(&mut self, msg: Message, now_ts: u64) -> (actions: Vec<Action>)
        requires
            old(self).wf(),
            msg matches Message::LinearizeReads { oracle } ==> {
                &&& oracle.wf()
                &&& forall|i: int|
                    0 <= i < old(self).pending_linearize_read_txns@.len() && needs_oracle(
                        #[trigger] old(self).pending_linearize_read_txns@[i],
                    ) ==> oracle.has_reading(
                        read_timeline(old(self).pending_linearize_read_txns@[i]),
                    )
                &&& forall|i: int|
                    0 <= i < old(self).pending_linearize_read_txns@.len()
                        ==> (#[trigger] old(self).pending_linearize_read_txns@[i]).num_requeues
                        < u64::MAX
            },
            msg matches Message::StorageUsageSchedule { now_ts: n } ==> old(
                self,
            ).storage_usage_collection_interval_ms > 0 && n + old(
                self,
            ).storage_usage_collection_interval_ms <= u64::MAX,
            msg matches Message::ClusterEvent(event) ==> (old(self).has_replica(
                event.cluster_id,
                event.replica_id,
            ) ==> old(self).replica_entry(event.cluster_id, event.replica_id).has_process(
                event.process_id,
            )),
            msg matches Message::ControllerReady { response } ==> (response matches Some(
                r,
            ) ==> (r matches ControllerResponse::WatchSetFinished { ws_ids } ==> forall|
                i: int,
                j: int,
            | 0 <= i < j < ws_ids@.len() ==> ws_ids@[i] != ws_ids@[j])),
        ensures
            final(self).wf(),
            match msg {
                Message::Command { conn_id, cmd } => *final(self) == *old(self) && actions@.len()
                    == 1 && (actions@[0] matches Action::ExecuteCommand { conn_id: c, cmd: m }
                    && c == conn_id && m == cmd),
                Message::ControllerReady { response } => match response {
                    None => *final(self) == *old(self) && actions@.len() == 0,
                    Some(r) => controller_outcome(*old(self), *final(self), actions@, r, now_ts),
                },
                Message::PurifiedStatementReady(ready) => *final(self) == *old(self)
                    && purified_ready_outcome(*old(self), ready, actions@),
                Message::CreateConnectionValidationReady(ready) => *final(self) == *old(self)
                    && create_connection_validation_outcome(*old(self), ready, actions@),
                Message::AlterConnectionValidationReady(ready) => *final(self) == *old(self)
                    && alter_connection_validation_outcome(*old(self), ready, actions@),
                Message::StageReady(ready) => *final(self) == *old(self) && staged_outcome(
                    *old(self),
                    ready,
                    actions@,
                ),
                Message::WriteLockGrant => write_lock_grant_outcome(
                    *old(self),
                    *final(self),
                    actions@,
                ),
                Message::GroupCommitInitiate => *final(self) == *old(self) && actions@.len() == 1
                    && (actions@[0] matches Action::GroupCommitInitiate { holding_lock }
                    && holding_lock == false),
                Message::GroupCommitApply { timestamp } => *final(self) == *old(self)
                    && actions@.len() == 1 && (actions@[0] matches Action::GroupCommitApply {
                    timestamp: t,
                } && t == timestamp),
                Message::AdvanceTimelines => *final(self) == *old(self) && actions@.len() == 1 && (
                actions@[0] matches Action::AdvanceTimelines),
                Message::DropReadHolds { holds } => *final(self) == *old(self) && actions@.len()
                    == 1 && (actions@[0] matches Action::ReleaseReadHolds { holds: h } && h
                    == holds),
                Message::ClusterEvent(event) => cluster_event_outcome(
                    *old(self),
                    *final(self),
                    actions@,
                    event,
                ),
                Message::CancelPendingPeeks { conn_id } => *final(self) == *old(self)
                    && actions@.len() == 1 && (actions@[0] matches Action::CancelPeeks {
                    conn_id: c,
                } && c == conn_id),
                Message::LinearizeReads { oracle } => linearize_outcome(
                    *old(self),
                    *final(self),
                    actions@,
                    oracle,
                ),
                Message::StorageUsageSchedule { now_ts: n } => *final(self) == *old(self)
                    && schedule_outcome(*old(self), n, actions@),
                Message::StorageUsageFetch { collections } => *final(self) == *old(self)
                    && fetch_outcome(collections@, actions@),
                Message::StorageUsageUpdate { sizes, collection_timestamp } => *final(self)
                    == *old(self) && update_outcome(sizes@, collection_timestamp, actions@),
                Message::RetireExecute { conn_id, reason } => *final(self) == *old(self)
                    && actions@.len() == 1 && (actions@[0] matches Action::RetireExecute {
                    conn_id: c,
                    reason: r,
                } && c == conn_id && r == reason),
                Message::DrainStatementLog => *final(self) == *old(self) && actions@.len() == 1
                    && (actions@[0] matches Action::DrainStatementLog),
                Message::CheckSchedulingPolicies => *final(self) == *old(self) && actions@.len()
                    == 1 && (actions@[0] matches Action::CheckSchedulingPolicies),
                Message::SchedulingDecisions { decisions } => *final(self) == *old(self)
                    && actions@.len() == 1 && (actions@[0]
                    matches Action::ApplySchedulingDecisions { decisions: d } && d == decisions),
                Message::DeferredStatementReady => *final(self) == *old(self) && actions@.len()
                    == 1 && (actions@[0] matches Action::ResumeDeferredStatement),
            },
    {
        let mut actions: Vec<Action> = Vec::new();
        match msg {
            Message::Command { conn_id, cmd } => {
                actions.push(Action::ExecuteCommand { conn_id, cmd });
            },
            Message::ControllerReady { response } => {
                match response {
                    None => {},
                    Some(r) => {
                        return self.message_controller(r, now_ts);
                    },
                }
            },
            Message::PurifiedStatementReady(ready) => {
                return self.message_purified_statement_ready(ready);
            },
            Message::CreateConnectionValidationReady(ready) => {
                return self.message_create_connection_validation_ready(ready);
            },
            Message::AlterConnectionValidationReady(ready) => {
                return self.message_alter_connection_validation_ready(ready);
            },
            Message::StageReady(ready) => {
                return self.sequence_staged(ready);
            },
            Message::WriteLockGrant => {
                return self.message_write_lock_grant();
            },
            Message::GroupCommitInitiate => {
                actions.push(Action::GroupCommitInitiate { holding_lock: false });
            },
            Message::GroupCommitApply { timestamp } => {
                actions.push(Action::GroupCommitApply { timestamp });
            },
            Message::AdvanceTimelines => {
                actions.push(Action::AdvanceTimelines);
            },
            Message::DropReadHolds { holds } => {
                actions.push(Action::ReleaseReadHolds { holds });
            },
            Message::ClusterEvent(event) => {
                return self.message_cluster_event(event);
            },
            Message::CancelPendingPeeks { conn_id } => {
                actions.push(Action::CancelPeeks { conn_id });
            },
            Message::LinearizeReads { oracle } => {
                return self.message_linearize_reads(&oracle);
            },
            Message::StorageUsageSchedule { now_ts: schedule_now } => {
                return self.schedule_storage_usage_collection(schedule_now);
            },
            Message::StorageUsageFetch { collections } => {
                return self.storage_usage_fetch(&collections);
            },
            Message::StorageUsageUpdate { sizes, collection_timestamp } => {
                return self.storage_usage_update(&sizes, collection_timestamp);
            },
            Message::RetireExecute { conn_id, reason } => {
                actions.push(Action::RetireExecute { conn_id, reason });
            },
            Message::DrainStatementLog => {
                actions.push(Action::DrainStatementLog);
            },
            Message::CheckSchedulingPolicies => {
                actions.push(Action::CheckSchedulingPolicies);
            },
            Message::SchedulingDecisions { decisions } => {
                actions.push(Action::ApplySchedulingDecisions { decisions });
            },
            Message::DeferredStatementReady => {
                actions.push(Action::ResumeDeferredStatement);
            },
        }
        actions
    }
}

/// The two states agree on every field but the deferred write queue.
pub open spec fn eq_except_write_queue(a: Coordinator, b: Coordinator) -> bool {
    &&& a.catalog == b.catalog
    &&& a.pending_linearize_read_txns == b.pending_linearize_read_txns
    &&& a.cluster_replica_statuses == b.cluster_replica_statuses
    &&& a.installed_watch_sets == b.installed_watch_sets
    &&& a.connection_watch_sets == b.connection_watch_sets
    &&& a.active_compute_sinks == b.active_compute_sinks
    &&& a.introspection_subscribes == b.introspection_subscribes
    &&& a.transient_replica_metadata == b.transient_replica_metadata
    &&& a.read_only == b.read_only
    &&& a.buffered_builtin_table_updates == b.buffered_builtin_table_updates
    &&& a.storage_usage_collection_interval_ms == b.storage_usage_collection_interval_ms
    &&& a.organization_id == b.organization_id
}

/// The two states agree on every field but the pending read set.
pub open spec fn eq_except_pending_reads(a: Coordinator, b: Coordinator) -> bool {
    &&& a.catalog == b.catalog
    &&& a.write_lock_wait_group == b.write_lock_wait_group
    &&& a.cluster_replica_statuses == b.cluster_replica_statuses
    &&& a.installed_watch_sets == b.installed_watch_sets
    &&& a.connection_watch_sets == b.connection_watch_sets
    &&& a.active_compute_sinks == b.active_compute_sinks
    &&& a.introspection_subscribes == b.introspection_subscribes
    &&& a.transient_replica_metadata == b.transient_replica_metadata
    &&& a.read_only == b.read_only
    &&& a.buffered_builtin_table_updates == b.buffered_builtin_table_updates
    &&& a.storage_usage_collection_interval_ms == b.storage_usage_collection_interval_ms
    &&& a.organization_id == b.organization_id
}

/// The two states agree on every field but the replica status table and the
/// buffer of introspection updates.
pub open spec fn eq_except_statuses(a: Coordinator, b: Coordinator) -> bool {
    &&& a.catalog == b.catalog
    &&& a.write_lock_wait_group == b.write_lock_wait_group
    &&& a.pending_linearize_read_txns == b.pending_linearize_read_txns
    &&& a.installed_watch_sets == b.installed_watch_sets
    &&& a.connection_watch_sets == b.connection_watch_sets
    &&& a.active_compute_sinks == b.active_compute_sinks
    &&& a.introspection_subscribes == b.introspection_subscribes
    &&& a.transient_replica_metadata == b.transient_replica_metadata
    &&& a.read_only == b.read_only
    &&& a.storage_usage_collection_interval_ms == b.storage_usage_collection_interval_ms
    &&& a.organization_id == b.organization_id
}

/// The two states agree on every field but the watch-set registry and its
/// per-connection index.
pub open spec fn eq_except_watch_registry(a: Coordinator, b: Coordinator) -> bool {
    &&& a.catalog == b.catalog
    &&& a.write_lock_wait_group == b.write_lock_wait_group
    &&& a.pending_linearize_read_txns == b.pending_linearize_read_txns
    &&& a.cluster_replica_statuses == b.cluster_replica_statuses
    &&& a.active_compute_sinks == b.active_compute_sinks
    &&& a.introspection_subscribes == b.introspection_subscribes
    &&& a.transient_replica_metadata == b.transient_replica_metadata
    &&& a.read_only == b.read_only
    &&& a.buffered_builtin_table_updates == b.buffered_builtin_table_updates
    &&& a.storage_usage_collection_interval_ms == b.storage_usage_collection_interval_ms
    &&& a.organization_id == b.organization_id
}

/// The two states agree on every field but the active compute sinks.
pub open spec fn eq_except_sinks(a: Coordinator, b: Coordinator) -> bool {
    &&& a.catalog == b.catalog
    &&& a.write_lock_wait_group == b.write_lock_wait_group
    &&& a.pending_linearize_read_txns == b.pending_linearize_read_txns
    &&& a.cluster_replica_statuses == b.cluster_replica_statuses
    &&& a.installed_watch_sets == b.installed_watch_sets
    &&& a.connection_watch_sets == b.connection_watch_sets
    &&& a.introspection_subscribes == b.introspection_subscribes
    &&& a.transient_replica_metadata == b.transient_replica_metadata
    &&& a.read_only == b.read_only
    &&& a.buffered_builtin_table_updates == b.buffered_builtin_table_updates
    &&& a.storage_usage_collection_interval_ms == b.storage_usage_collection_interval_ms
    &&& a.organization_id == b.organization_id
}

/// The two states agree on every field but the transient replica metadata.
pub open spec fn eq_except_metadata(a: Coordinator, b: Coordinator) -> bool {
    &&& a.catalog == b.catalog
    &&& a.write_lock_wait_group == b.write_lock_wait_group
    &&& a.pending_linearize_read_txns == b.pending_linearize_read_txns
    &&& a.cluster_replica_statuses == b.cluster_replica_statuses
    &&& a.installed_watch_sets == b.installed_watch_sets
    &&& a.connection_watch_sets == b.connection_watch_sets
    &&& a.active_compute_sinks == b.active_compute_sinks
    &&& a.introspection_subscribes == b.introspection_subscribes
    &&& a.read_only == b.read_only
    &&& a.buffered_builtin_table_updates == b.buffered_builtin_table_updates
    &&& a.storage_usage_collection_interval_ms == b.storage_usage_collection_interval_ms
    &&& a.organization_id == b.organization_id
}

} // verus!
