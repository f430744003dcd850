//! The coordinator's message vocabulary and the actions its handlers hand
//! back to the surrounding runtime. A message carries exactly the data needed
//! to resume a suspended step; an action is outside work (responding to a
//! client, spawning a background task, committing to storage) that the
//! runtime performs without touching coordinator state.

use vstd::prelude::*;

use crate::catalog::{NameId, ObjectId, PlanValidity};
use crate::controller::{ControllerResponse, MetricsDiff, SinkRetireReason};
use crate::error::AdapterError;
use crate::linearize::OracleReadings;
use crate::statement::{PurifiedStatement, RawStatement, Statement};
use crate::status::{ClusterEvent, ReplicaStatusNotice, StatusDiff};
use crate::storage_usage::{CollectionMetadata, UsageOp};

verus! {

/// A purification result re-entering the sequencing engine, with the
/// snapshot taken when purification was spawned.
#[derive(Debug)]
pub struct PurifiedStatementReady {
    pub conn_id: u64,
    pub result: Result<PurifiedStatement, AdapterError>,
    pub params: u64,
    pub plan_validity: PlanValidity,
    pub original_stmt: RawStatement,
}

/// A connection-validation result re-entering the sequencing engine after a
/// CREATE CONNECTION was validated against the external system.
#[derive(Debug)]
pub struct CreateConnectionValidationReady {
    pub conn_id: u64,
    pub result: Result<u64, AdapterError>,
    pub params: u64,
    /// The id reserved for the connection; the secret provisioned under it is
    /// cleaned up best-effort if the statement cannot proceed.
    pub connection_gid: ObjectId,
    pub plan_validity: PlanValidity,
    /// The original statement, kept for re-planning on staleness.
    pub original_stmt: RawStatement,
    pub dependency_ids: Vec<ObjectId>,
}

/// A connection-validation result for an ALTER CONNECTION.
#[derive(Debug)]
pub struct AlterConnectionValidationReady {
    pub conn_id: u64,
    pub result: Result<u64, AdapterError>,
    pub params: u64,
    pub connection_gid: ObjectId,
    pub plan_validity: PlanValidity,
    /// The original statement, kept for re-planning on staleness.
    pub original_stmt: RawStatement,
}

/// A generic staged operation re-entering the sequencing engine after an
/// asynchronous stage, whatever kind of statement it drives.
#[derive(Debug)]
pub struct StagedReady {
    pub conn_id: u64,
    pub params: u64,
    /// The stage's result: the payload the next stage needs, or the error to
    /// report.
    pub result: Result<u64, AdapterError>,
    pub plan_validity: PlanValidity,
    pub original_stmt: RawStatement,
    /// An external resource provisioned for the attempt, cleaned up
    /// best-effort if the statement cannot proceed.
    pub provisional_resource: Option<ObjectId>,
}

/// A message pulled from the coordinator's single mailbox. External
/// observations a handler needs (oracle readings, collection metadata, the
/// current write timestamp) ride on the message that re-enters the loop.
#[derive(Debug)]
pub enum Message {
    /// A session-bound client command.
    Command { conn_id: u64, cmd: u64 },
    /// A readiness event drained from the controller.
    ControllerReady { response: Option<ControllerResponse> },
    PurifiedStatementReady(PurifiedStatementReady),
    CreateConnectionValidationReady(CreateConnectionValidationReady),
    AlterConnectionValidationReady(AlterConnectionValidationReady),
    /// A staged continuation, one message per asynchronous stage boundary.
    StageReady(StagedReady),
    /// The exclusive write lock was granted to the coordinator.
    WriteLockGrant,
    /// A group commit should be attempted now.
    GroupCommitInitiate,
    /// A group commit's writes are durable at the given timestamp.
    GroupCommitApply { timestamp: u64 },
    /// Advance every timeline's write frontier.
    AdvanceTimelines,
    /// Read holds dropped by retired peeks are to be released.
    DropReadHolds { holds: Vec<u64> },
    /// A cluster replica process changed status.
    ClusterEvent(ClusterEvent),
    /// A client cancelled its pending peeks.
    CancelPendingPeeks { conn_id: u64 },
    /// Run a linearization pass with the oracle readings observed for the
    /// timelines the pass needs.
    LinearizeReads { oracle: OracleReadings },
    /// Schedule the next storage-usage collection; `now_ts` is the current
    /// local write timestamp.
    StorageUsageSchedule { now_ts: u64 },
    /// Begin a collection over the given live collections.
    StorageUsageFetch { collections: Vec<CollectionMetadata> },
    /// Record the fetched shard sizes at the given collection timestamp.
    StorageUsageUpdate { sizes: Vec<(u64, u64)>, collection_timestamp: u64 },
    /// A statement execution retired for the given reason.
    RetireExecute { conn_id: u64, reason: u64 },
    /// Flush buffered statement-lifecycle log entries.
    DrainStatementLog,
    /// Evaluate cluster scheduling policies.
    CheckSchedulingPolicies,
    /// Apply computed scheduling decisions.
    SchedulingDecisions { decisions: Vec<(u64, bool)> },
    /// A deferred statement's turn arrived.
    DeferredStatementReady,
}

/// Work a handler hands to the runtime. Every action is performed outside the
/// dispatch loop; background work reports back by posting a further message.
#[derive(Debug)]
pub enum Action {
    /// Report a result to the client context of a connection.
    Retire { conn_id: u64, result: Result<u64, AdapterError> },
    /// Re-plan the original statement from scratch: its dependency snapshot
    /// went stale while a stage was suspended.
    Replan { conn_id: u64, stmt: RawStatement, params: u64 },
    /// Resume sequencing of a planned statement with the given resolved ids.
    Sequence { conn_id: u64, plan: Statement, resolved_ids: Vec<ObjectId> },
    /// Plan a purified CREATE SOURCE together with its subsources.
    PlanPurifiedCreateSource {
        conn_id: u64,
        params: u64,
        progress_stmt: Statement,
        source_stmt: Statement,
        subsources: Vec<u64>,
    },
    /// Plan a purified ALTER SOURCE that adds subsources.
    PlanPurifiedAlterSource {
        conn_id: u64,
        params: u64,
        source_name: NameId,
        subsources: Vec<u64>,
    },
    /// Finish a validated CREATE CONNECTION.
    FinishCreateConnection {
        conn_id: u64,
        connection_gid: ObjectId,
        plan_code: u64,
        resolved_ids: Vec<ObjectId>,
    },
    /// Finish a validated ALTER CONNECTION.
    FinishAlterConnection { conn_id: u64, connection_gid: ObjectId, conn: u64 },
    /// Resume a generic staged operation at its next stage.
    ProceedStage { conn_id: u64, stage_payload: u64 },
    /// Best-effort deletion of a provisionally created secret; a failure is
    /// logged and never masks the error being reported.
    DeleteSecret { id: ObjectId },
    /// Start a group commit; `holding_lock` says the coordinator already owns
    /// the write lock and hands it to the commit.
    GroupCommitInitiate { holding_lock: bool },
    /// Apply a group commit at the given timestamp.
    GroupCommitApply { timestamp: u64 },
    /// Advance every timeline's write frontier.
    AdvanceTimelines,
    /// Release the given read holds.
    ReleaseReadHolds { holds: Vec<u64> },
    /// Cancel the pending peeks of a connection.
    CancelPeeks { conn_id: u64 },
    /// Forward a finished peek's result to its waiting client.
    SendPeekResponse { uuid: u64, result: u64 },
    /// Forward a subscribe batch to its active sink.
    DeliverSubscribeBatch { sink_id: u64, data: u64 },
    /// Retire an active compute sink for the given reason.
    RetireComputeSink { sink_id: u64, reason: SinkRetireReason },
    /// Forward a subscribe batch to an introspection subscribe.
    HandleIntrospectionBatch { sink_id: u64, update_data: u64 },
    /// A response arrived for a sink this coordinator does not know: log it.
    LogUnknownSink { sink_id: u64 },
    /// Retire a finished COPY TO with its result.
    RetireCopyTo { sink_id: u64, result: u64 },
    /// Apply paired retraction/insertion updates to the replica-metrics
    /// introspection relation.
    UpdateMetricsTable { diffs: Vec<MetricsDiff> },
    /// Record a statement lifecycle event.
    RecordLifecycle { statement_id: u64, event: u64, time: u64 },
    /// Finish an ALTER SINK that was parked on dependency readiness.
    FinishAlterSink { conn_id: u64 },
    /// Apply paired retraction/insertion updates to the replica-status
    /// introspection relation.
    EmitStatusDiffs { diffs: Vec<StatusDiff> },
    /// Tell affected sessions that a replica's aggregate status changed.
    BroadcastNotice { notice: ReplicaStatusNotice },
    /// Hand a linearized read's result to its waiting client context, with
    /// whether it was ever delayed, for the latency observation.
    ReleaseRead { conn_id: u64, delayed: bool, created: u64 },
    /// Re-trigger the linearization pass after the given wait.
    ScheduleLinearizeWakeup { after_ms: u64 },
    /// Scan the storage engine for the sizes of the given shards, then post
    /// the result as a usage update.
    FetchShardSizes { shards: Vec<u64> },
    /// Commit the given usage records; on success the next collection is
    /// scheduled.
    TransactUsageOps { ops: Vec<UsageOp> },
    /// Begin the next collection after the given wait.
    ScheduleStorageFetch { after_ms: u64 },
    /// Execute a session command.
    ExecuteCommand { conn_id: u64, cmd: u64 },
    /// Retire a statement execution for the given reason.
    RetireExecute { conn_id: u64, reason: u64 },
    /// Flush buffered statement-lifecycle log entries.
    DrainStatementLog,
    /// Evaluate cluster scheduling policies.
    CheckSchedulingPolicies,
    /// Apply computed scheduling decisions.
    ApplySchedulingDecisions { decisions: Vec<(u64, bool)> },
    /// Resume the next deferred statement.
    ResumeDeferredStatement,
}

} // verus!
