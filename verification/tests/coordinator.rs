use coord_core::catalog::PlanValidity;
use coord_core::controller::{
    ControllerResponse, ReplicaMeta, SinkKind, SinkRetireReason, SubscribeUpdate, WatchSetEntry,
    WatchSetResponse,
};
use coord_core::coord::Coordinator;
use coord_core::linearize::{OracleReadings, PendingReadTxn, TimestampContext};
use coord_core::message::{Action, Message};
use coord_core::statement::{Statement, StatementKind};
use coord_core::status::{ClusterEvent, ClusterStatus, DiffKind, ProcessStatus, ReplicaStatuses};
use coord_core::write_lock::{Deferred, DeferredPlan};

fn empty_coordinator() -> Coordinator {
    Coordinator::new(3_600_000, vec![1, 2, 3, 4], false)
}

fn deferred_write(conn_id: u64, tag: u64) -> Deferred {
    Deferred::Plan(DeferredPlan {
        conn_id,
        plan: Statement { kind: StatementKind::Generic(tag), resolved_deps: Vec::new() },
        validity: PlanValidity { dependency_ids: Vec::new(), revision: 0 },
        original_stmt: coord_core::statement::RawStatement {
            tag,
            depends_on_names: Vec::new(),
        },
    })
}

#[test]
fn write_lock_grants_resume_in_fifo_order() {
    // Three write statements deferred while the lock is held; granting the
    // lock three times retires them in enqueue order.
    let mut c = empty_coordinator();
    c.write_lock_wait_group.push(deferred_write(1, 11));
    c.write_lock_wait_group.push(deferred_write(2, 22));
    c.write_lock_wait_group.push(deferred_write(3, 33));

    let mut resumed = Vec::new();
    for _ in 0..3 {
        let actions = c.message_write_lock_grant();
        assert_eq!(actions.len(), 1);
        match &actions[0] {
            Action::Sequence { conn_id, plan, resolved_ids } => {
                resumed.push(*conn_id);
                assert!(resolved_ids.is_empty());
                assert!(matches!(plan.kind, StatementKind::Generic(_)));
            },
            other => panic!("unexpected action: {:?}", other),
        }
    }
    assert_eq!(resumed, vec![1, 2, 3]);
    assert!(c.write_lock_wait_group.is_empty());

    // A grant over an empty queue is a no-op, not an error.
    let actions = c.message_write_lock_grant();
    assert!(actions.is_empty());
}

#[test]
fn write_lock_grant_retires_stale_plan_without_consuming_next() {
    let mut c = empty_coordinator();
    // The first deferred plan depends on object 10, which is gone; the
    // catalog has moved to revision 2.
    c.catalog.revision = 2;
    c.write_lock_wait_group.push(Deferred::Plan(DeferredPlan {
        conn_id: 1,
        plan: Statement { kind: StatementKind::Generic(1), resolved_deps: vec![10] },
        validity: PlanValidity { dependency_ids: vec![10], revision: 1 },
        original_stmt: coord_core::statement::RawStatement {
            tag: 1,
            depends_on_names: vec![100],
        },
    }));
    c.write_lock_wait_group.push(deferred_write(2, 2));

    let actions = c.message_write_lock_grant();
    assert_eq!(actions.len(), 1);
    match &actions[0] {
        Action::Retire { conn_id, result } => {
            assert_eq!(*conn_id, 1);
            assert!(result.is_err());
        },
        other => panic!("unexpected action: {:?}", other),
    }
    // The stale entry did not consume the next one in the same grant.
    assert_eq!(c.write_lock_wait_group.len(), 1);
}

#[test]
fn deferred_group_commit_initiates_with_lock() {
    let mut c = empty_coordinator();
    c.write_lock_wait_group.push(Deferred::GroupCommit);
    let actions = c.message_write_lock_grant();
    assert_eq!(actions.len(), 1);
    assert!(matches!(actions[0], Action::GroupCommitInitiate { holding_lock: true }));
}

#[test]
fn linearize_requeues_then_releases_with_delay_recorded() {
    // A read at timestamp 100 on a timeline whose oracle reports 90 is
    // requeued once; after the oracle advances to 100 it is released on the
    // next pass with its one requeue recorded.
    let mut c = empty_coordinator();
    c.pending_linearize_read_txns.push(PendingReadTxn {
        conn_id: 9,
        timestamp_context: TimestampContext::TimelineTimestamp {
            timeline: 7,
            chosen_ts: 100,
            oracle_ts: Some(90),
        },
        created: 5,
        num_requeues: 0,
    });

    let timelines = c.timelines_to_query();
    assert_eq!(timelines, vec![7]);

    let actions = c.message_linearize_reads(&OracleReadings { readings: vec![(7, 90)] });
    assert_eq!(c.pending_linearize_read_txns.len(), 1);
    assert_eq!(c.pending_linearize_read_txns[0].num_requeues, 1);
    assert_eq!(actions.len(), 1);
    assert!(matches!(actions[0], Action::ScheduleLinearizeWakeup { after_ms: 10 }));

    let actions = c.message_linearize_reads(&OracleReadings { readings: vec![(7, 100)] });
    assert!(c.pending_linearize_read_txns.is_empty());
    assert_eq!(actions.len(), 1);
    match &actions[0] {
        Action::ReleaseRead { conn_id, delayed, created } => {
            assert_eq!(*conn_id, 9);
            assert!(*delayed);
            assert_eq!(*created, 5);
        },
        other => panic!("unexpected action: {:?}", other),
    }
}

#[test]
fn linearize_wakeup_is_capped_at_one_second() {
    let mut c = empty_coordinator();
    c.pending_linearize_read_txns.push(PendingReadTxn {
        conn_id: 1,
        timestamp_context: TimestampContext::TimelineTimestamp {
            timeline: 3,
            chosen_ts: 50_000,
            oracle_ts: Some(10),
        },
        created: 0,
        num_requeues: 0,
    });
    let actions = c.message_linearize_reads(&OracleReadings { readings: vec![(3, 100)] });
    assert_eq!(actions.len(), 1);
    assert!(matches!(actions[0], Action::ScheduleLinearizeWakeup { after_ms: 1000 }));
}

#[test]
fn linearize_releases_reads_without_oracle_component_immediately() {
    let mut c = empty_coordinator();
    c.pending_linearize_read_txns.push(PendingReadTxn {
        conn_id: 1,
        timestamp_context: TimestampContext::NoTimestamp,
        created: 0,
        num_requeues: 0,
    });
    c.pending_linearize_read_txns.push(PendingReadTxn {
        conn_id: 2,
        timestamp_context: TimestampContext::TimelineTimestamp {
            timeline: 4,
            chosen_ts: 80,
            oracle_ts: Some(90),
        },
        created: 0,
        num_requeues: 0,
    });
    // Neither read needs a fresh oracle reading.
    assert!(c.timelines_to_query().is_empty());
    let actions = c.message_linearize_reads(&OracleReadings { readings: Vec::new() });
    assert_eq!(actions.len(), 2);
    assert!(matches!(actions[0], Action::ReleaseRead { conn_id: 1, delayed: false, .. }));
    assert!(matches!(actions[1], Action::ReleaseRead { conn_id: 2, delayed: false, .. }));
    assert!(c.pending_linearize_read_txns.is_empty());
}

fn with_replica(mut c: Coordinator) -> Coordinator {
    c.cluster_replica_statuses.push(ReplicaStatuses {
        cluster_id: 1,
        replica_id: 2,
        processes: vec![
            (0, ProcessStatus { status: ClusterStatus::Ready, time: 5 }),
            (1, ProcessStatus { status: ClusterStatus::Ready, time: 5 }),
        ],
    });
    c
}

#[test]
fn status_transition_emits_exactly_one_retraction_and_one_insertion() {
    let mut c = with_replica(empty_coordinator());
    let actions = c.message_cluster_event(ClusterEvent {
        cluster_id: 1,
        replica_id: 2,
        process_id: 1,
        status: ClusterStatus::NotReady(Some(3)),
        time: 10,
    });
    assert_eq!(actions.len(), 2);
    match &actions[0] {
        Action::EmitStatusDiffs { diffs } => {
            assert_eq!(diffs.len(), 2);
            assert_eq!(diffs[0].replica_id, 2);
            assert_eq!(diffs[0].process_id, 1);
            assert_eq!(diffs[0].status, ClusterStatus::Ready);
            assert_eq!(diffs[0].time, 5);
            assert_eq!(diffs[0].diff, DiffKind::Retraction);
            assert_eq!(diffs[1].status, ClusterStatus::NotReady(Some(3)));
            assert_eq!(diffs[1].time, 10);
            assert_eq!(diffs[1].diff, DiffKind::Insertion);
        },
        other => panic!("unexpected action: {:?}", other),
    }
    // The aggregate replica status flipped from ready, so a notice goes out.
    match &actions[1] {
        Action::BroadcastNotice { notice } => {
            assert_eq!(notice.cluster_id, 1);
            assert_eq!(notice.replica_id, 2);
            assert_eq!(notice.status, ClusterStatus::NotReady(None));
            assert_eq!(notice.time, 10);
        },
        other => panic!("unexpected action: {:?}", other),
    }
}

#[test]
fn unchanged_status_emits_nothing() {
    let mut c = with_replica(empty_coordinator());
    let actions = c.message_cluster_event(ClusterEvent {
        cluster_id: 1,
        replica_id: 2,
        process_id: 1,
        status: ClusterStatus::Ready,
        time: 99,
    });
    assert!(actions.is_empty());
    assert_eq!(c.cluster_replica_statuses[0].processes[1].1.time, 5);
}

#[test]
fn status_event_for_dropped_replica_is_ignored() {
    let mut c = with_replica(empty_coordinator());
    let actions = c.message_cluster_event(ClusterEvent {
        cluster_id: 8,
        replica_id: 8,
        process_id: 0,
        status: ClusterStatus::NotReady(None),
        time: 10,
    });
    assert!(actions.is_empty());
}

#[test]
fn status_updates_are_buffered_in_read_only_mode() {
    let mut c = with_replica(empty_coordinator());
    c.read_only = true;
    let actions = c.message_cluster_event(ClusterEvent {
        cluster_id: 1,
        replica_id: 2,
        process_id: 0,
        status: ClusterStatus::NotReady(None),
        time: 10,
    });
    // The diffs are buffered, not emitted; only the notice goes out.
    assert_eq!(c.buffered_builtin_table_updates.len(), 2);
    assert_eq!(c.buffered_builtin_table_updates[0].diff, DiffKind::Retraction);
    assert_eq!(c.buffered_builtin_table_updates[1].diff, DiffKind::Insertion);
    assert_eq!(actions.len(), 1);
    assert!(matches!(actions[0], Action::BroadcastNotice { .. }));
}

#[test]
fn process_level_change_that_keeps_aggregate_emits_no_notice() {
    let mut c = with_replica(empty_coordinator());
    // First take process 0 not-ready: the aggregate flips, with a notice.
    let _ = c.message_cluster_event(ClusterEvent {
        cluster_id: 1,
        replica_id: 2,
        process_id: 0,
        status: ClusterStatus::NotReady(None),
        time: 10,
    });
    // Then take process 1 not-ready too: the aggregate is already not-ready.
    let actions = c.message_cluster_event(ClusterEvent {
        cluster_id: 1,
        replica_id: 2,
        process_id: 1,
        status: ClusterStatus::NotReady(None),
        time: 11,
    });
    assert_eq!(actions.len(), 1);
    assert!(matches!(actions[0], Action::EmitStatusDiffs { .. }));
}

#[test]
fn peek_response_is_forwarded() {
    let mut c = empty_coordinator();
    let actions = c.message_controller(
        ControllerResponse::PeekResponse { uuid: 77, result: 5 },
        0,
    );
    assert_eq!(actions.len(), 1);
    assert!(matches!(actions[0], Action::SendPeekResponse { uuid: 77, result: 5 }));
}

#[test]
fn finished_subscribe_is_delivered_and_retired() {
    let mut c = empty_coordinator();
    c.active_compute_sinks.push((4, SinkKind::Subscribe));
    let actions = c.message_controller(
        ControllerResponse::SubscribeResponse {
            sink_id: 4,
            update: SubscribeUpdate::Batch { upper_is_empty: true, data: 123 },
        },
        0,
    );
    assert_eq!(actions.len(), 2);
    assert!(matches!(actions[0], Action::DeliverSubscribeBatch { sink_id: 4, data: 123 }));
    assert!(matches!(
        actions[1],
        Action::RetireComputeSink { sink_id: 4, reason: SinkRetireReason::Finished }
    ));
    assert!(c.active_compute_sinks.is_empty());
}

#[test]
fn subscribe_response_for_unknown_sink_is_only_logged() {
    let mut c = empty_coordinator();
    let actions = c.message_controller(
        ControllerResponse::SubscribeResponse {
            sink_id: 4,
            update: SubscribeUpdate::DroppedAt,
        },
        0,
    );
    assert_eq!(actions.len(), 1);
    assert!(matches!(actions[0], Action::LogUnknownSink { sink_id: 4 }));
}

#[test]
fn copy_to_response_retires_the_sink() {
    let mut c = empty_coordinator();
    c.active_compute_sinks.push((6, SinkKind::CopyTo));
    let actions = c.message_controller(
        ControllerResponse::CopyToResponse { sink_id: 6, result: 1 },
        0,
    );
    assert_eq!(actions.len(), 1);
    assert!(matches!(actions[0], Action::RetireCopyTo { sink_id: 6, result: 1 }));
    assert!(c.active_compute_sinks.is_empty());
}

#[test]
fn replica_metrics_emit_paired_diffs_only_on_change() {
    let mut c = empty_coordinator();
    // First report: no old rows to retract.
    let actions = c.message_controller(
        ControllerResponse::ComputeReplicaMetrics { replica_id: 3, metrics: 40 },
        0,
    );
    assert_eq!(actions.len(), 1);
    match &actions[0] {
        Action::UpdateMetricsTable { diffs } => {
            assert_eq!(diffs.len(), 1);
            assert_eq!(diffs[0].metrics, 40);
            assert_eq!(diffs[0].diff, DiffKind::Insertion);
        },
        other => panic!("unexpected action: {:?}", other),
    }
    // The same metrics again: nothing fires.
    let actions = c.message_controller(
        ControllerResponse::ComputeReplicaMetrics { replica_id: 3, metrics: 40 },
        0,
    );
    assert!(actions.is_empty());
    // Changed metrics: one retraction and one insertion.
    let actions = c.message_controller(
        ControllerResponse::ComputeReplicaMetrics { replica_id: 3, metrics: 41 },
        0,
    );
    assert_eq!(actions.len(), 1);
    match &actions[0] {
        Action::UpdateMetricsTable { diffs } => {
            assert_eq!(diffs.len(), 2);
            assert_eq!(diffs[0].metrics, 40);
            assert_eq!(diffs[0].diff, DiffKind::Retraction);
            assert_eq!(diffs[1].metrics, 41);
            assert_eq!(diffs[1].diff, DiffKind::Insertion);
        },
        other => panic!("unexpected action: {:?}", other),
    }
}

#[test]
fn tombstoned_replica_metrics_are_ignored() {
    let mut c = empty_coordinator();
    c.transient_replica_metadata.push((3, ReplicaMeta::Tombstone));
    let actions = c.message_controller(
        ControllerResponse::ComputeReplicaMetrics { replica_id: 3, metrics: 40 },
        0,
    );
    assert!(actions.is_empty());
    assert_eq!(c.transient_replica_metadata, vec![(3, ReplicaMeta::Tombstone)]);
}

#[test]
fn finished_watch_sets_resume_and_cascade_out_of_the_index() {
    let mut c = empty_coordinator();
    c.installed_watch_sets.push(WatchSetEntry {
        ws_id: 1,
        conn_id: 5,
        response: WatchSetResponse::StatementDependenciesReady { statement_id: 70, event: 2 },
    });
    c.installed_watch_sets.push(WatchSetEntry {
        ws_id: 2,
        conn_id: 5,
        response: WatchSetResponse::AlterSinkReady { conn_id: 5 },
    });
    c.connection_watch_sets.push((5, vec![1, 2]));

    let actions = c.message_controller(
        ControllerResponse::WatchSetFinished { ws_ids: vec![1] },
        90,
    );
    assert_eq!(actions.len(), 1);
    assert!(matches!(
        actions[0],
        Action::RecordLifecycle { statement_id: 70, event: 2, time: 90 }
    ));
    assert_eq!(c.installed_watch_sets.len(), 1);
    assert_eq!(c.connection_watch_sets, vec![(5, vec![2])]);

    // Finishing the last watch set of the connection removes its index entry
    // entirely: nothing leaks. An id already gone is skipped silently.
    let actions = c.message_controller(
        ControllerResponse::WatchSetFinished { ws_ids: vec![1, 2] },
        91,
    );
    assert_eq!(actions.len(), 1);
    assert!(matches!(actions[0], Action::FinishAlterSink { conn_id: 5 }));
    assert!(c.installed_watch_sets.is_empty());
    assert!(c.connection_watch_sets.is_empty());
}

#[test]
fn introspection_subscribe_batches_are_routed_separately() {
    let mut c = empty_coordinator();
    c.introspection_subscribes.push(4);
    let actions = c.message_controller(
        ControllerResponse::SubscribeResponse {
            sink_id: 4,
            update: SubscribeUpdate::Batch { upper_is_empty: false, data: 50 },
        },
        0,
    );
    assert_eq!(actions.len(), 1);
    assert!(matches!(actions[0], Action::HandleIntrospectionBatch { sink_id: 4, update_data: 50 }));
}

#[test]
fn unfinished_subscribe_batch_is_delivered_without_retiring() {
    let mut c = empty_coordinator();
    c.active_compute_sinks.push((4, SinkKind::Subscribe));
    let actions = c.message_controller(
        ControllerResponse::SubscribeResponse {
            sink_id: 4,
            update: SubscribeUpdate::Batch { upper_is_empty: false, data: 8 },
        },
        0,
    );
    assert_eq!(actions.len(), 1);
    assert!(matches!(actions[0], Action::DeliverSubscribeBatch { sink_id: 4, data: 8 }));
    assert_eq!(c.active_compute_sinks.len(), 1);
}

#[test]
fn dispatch_runs_the_linearization_pass_and_status_events() {
    let mut c = empty_coordinator();
    c.pending_linearize_read_txns.push(PendingReadTxn {
        conn_id: 9,
        timestamp_context: TimestampContext::TimelineTimestamp {
            timeline: 7,
            chosen_ts: 100,
            oracle_ts: Some(90),
        },
        created: 0,
        num_requeues: 0,
    });
    let actions = c.handle_message(
        Message::LinearizeReads {
            oracle: OracleReadings { readings: vec![(7, 100)] },
        },
        0,
    );
    assert_eq!(actions.len(), 1);
    assert!(matches!(actions[0], Action::ReleaseRead { conn_id: 9, .. }));

    let mut c = with_replica(empty_coordinator());
    let actions = c.handle_message(
        Message::ClusterEvent(ClusterEvent {
            cluster_id: 1,
            replica_id: 2,
            process_id: 0,
            status: ClusterStatus::NotReady(None),
            time: 3,
        }),
        0,
    );
    assert_eq!(actions.len(), 2);
    assert!(matches!(actions[0], Action::EmitStatusDiffs { .. }));
    assert!(matches!(actions[1], Action::BroadcastNotice { .. }));
}

#[test]
fn dispatch_routes_messages_to_their_handlers() {
    let mut c = empty_coordinator();
    let actions = c.handle_message(Message::Command { conn_id: 1, cmd: 2 }, 0);
    assert_eq!(actions.len(), 1);
    assert!(matches!(actions[0], Action::ExecuteCommand { conn_id: 1, cmd: 2 }));

    let actions = c.handle_message(Message::GroupCommitApply { timestamp: 8 }, 0);
    assert!(matches!(actions[0], Action::GroupCommitApply { timestamp: 8 }));

    let actions = c.handle_message(Message::ControllerReady { response: None }, 0);
    assert!(actions.is_empty());

    let actions = c.handle_message(Message::WriteLockGrant, 0);
    assert!(actions.is_empty());

    let actions = c.handle_message(Message::DeferredStatementReady, 0);
    assert!(matches!(actions[0], Action::ResumeDeferredStatement));
}
