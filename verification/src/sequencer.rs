//! Re-entry of the staged sequencing engine after an asynchronous stage. The
//! rule every re-entry obeys: re-check the plan-validity snapshot against the
//! live catalog first. A stale snapshot re-plans the original statement from
//! scratch — a vanished dependency surfaces as a clean unknown-object error,
//! or a replacement object created under the same name is picked up silently.
//! A failed stage cleans up any provisionally created external resource
//! best-effort and reports the original error. A successful stage proceeds.

use vstd::prelude::*;

use crate::catalog::{CatalogState, ObjectId, PlanValidity};
use crate::coord::Coordinator;
use crate::error::AdapterError;
use crate::message::{
    Action, AlterConnectionValidationReady, CreateConnectionValidationReady,
    PurifiedStatementReady, StagedReady,
};
use crate::statement::{sorted_strict, visit_dependencies, PurifiedStatement, Statement,
    StatementKind};

verus! {

/// A dropped dependency makes a validity snapshot taken at an earlier
/// revision stale: re-checking it cannot succeed, so every staged re-entry is
/// forced onto the re-planning path instead of applying a stale plan.
pub proof fn lemma_stale_dependency_forces_replan(
    catalog: CatalogState,
    validity: PlanValidity,
    d: ObjectId,
)
    requires
        validity.dependency_ids@.contains(d),
        !catalog.has_object(d),
        validity.revision != catalog.revision,
    ensures
        !validity.spec_valid(catalog),
{
    let i = choose|i: int|
        0 <= i < validity.dependency_ids@.len() && validity.dependency_ids@[i] == d;
    assert(!catalog.has_object(validity.dependency_ids@[i]));
}

/// The outcome of unifying a purified source alteration or sink creation: one
/// sequencing action whose plan carries the unified kind and whose resolved
/// ids are recomputed from the unified statement — they hold exactly the
/// dependency ids the unified statement mentions, as an ordered set.
pub open spec fn unified_post(
    actions: Seq<Action>,
    conn: u64,
    kind: StatementKind,
    stmt: Statement,
) -> bool {
    &&& actions.len() == 1
    &&& actions[0] matches Action::Sequence { conn_id, plan, resolved_ids } && conn_id == conn
        && plan.kind == kind && plan.resolved_deps == stmt.resolved_deps && sorted_strict(
        resolved_ids@,
    ) && (forall|y: ObjectId| resolved_ids@.contains(y) <==> stmt.resolved_deps@.contains(y))
}

/// The outcome of resuming statement sequencing after purification: a stale
/// snapshot re-plans the original statement; a purification error is retired;
/// a purified source alteration or sink creation unifies into one planned
/// statement with dependencies recomputed from the unified form; the two
/// remaining source shapes proceed to their dedicated planning steps.
pub open spec fn purified_ready_outcome(
    s: Coordinator,
    ready: PurifiedStatementReady,
    actions: Seq<Action>,
) -> bool {
    &&& !ready.plan_validity.spec_valid(s.catalog) ==> actions.len() == 1 && (actions[0]
        matches Action::Replan { conn_id, stmt, params } && conn_id == ready.conn_id && stmt
        == ready.original_stmt && params == ready.params)
    &&& ready.plan_validity.spec_valid(s.catalog) ==> match ready.result {
        Err(e) => actions.len() == 1 && (actions[0] matches Action::Retire { conn_id, result }
            && conn_id == ready.conn_id && result == Err::<u64, AdapterError>(e)),
        Ok(purified) => match purified {
            PurifiedStatement::PurifiedCreateSource { progress_stmt, source_stmt, subsources } =>
                actions.len() == 1 && (actions[0] matches Action::PlanPurifiedCreateSource {
                    conn_id,
                    params,
                    progress_stmt: p,
                    source_stmt: st,
                    subsources: sub,
                } && conn_id == ready.conn_id && params == ready.params && p == progress_stmt
                    && st == source_stmt && sub == subsources),
            PurifiedStatement::PurifiedAlterSourceAddSubsources { source_name, subsources } =>
                actions.len() == 1 && (actions[0] matches Action::PlanPurifiedAlterSource {
                    conn_id,
                    params,
                    source_name: n,
                    subsources: sub,
                } && conn_id == ready.conn_id && params == ready.params && n == source_name && sub
                    == subsources),
            PurifiedStatement::PurifiedAlterSource { alter_source_stmt } => unified_post(
                actions,
                ready.conn_id,
                StatementKind::AlterSource,
                alter_source_stmt,
            ),
            PurifiedStatement::PurifiedCreateSink { create_sink_stmt } => unified_post(
                actions,
                ready.conn_id,
                StatementKind::CreateSink,
                create_sink_stmt,
            ),
        },
    }
}

/// The outcome of resuming a CREATE CONNECTION after validation: staleness
/// deletes the provisioned secret best-effort and re-plans the original
/// statement from scratch — a vanished dependency is recoverable, never a
/// user error; a validation error deletes the secret and is retired; on
/// success the creation finishes with the dependency ids the validation
/// carried.
pub open spec fn create_connection_validation_outcome(
    s: Coordinator,
    ready: CreateConnectionValidationReady,
    actions: Seq<Action>,
) -> bool {
    &&& !ready.plan_validity.spec_valid(s.catalog) ==> actions.len() == 2 && (actions[0]
        matches Action::DeleteSecret { id } && id == ready.connection_gid) && (actions[1]
        matches Action::Replan { conn_id, stmt, params } && conn_id == ready.conn_id && stmt
        == ready.original_stmt && params == ready.params)
    &&& ready.plan_validity.spec_valid(s.catalog) ==> match ready.result {
        Err(e) => actions.len() == 2 && (actions[0] matches Action::DeleteSecret { id } && id
            == ready.connection_gid) && (actions[1] matches Action::Retire { conn_id, result }
            && conn_id == ready.conn_id && result == Err::<u64, AdapterError>(e)),
        Ok(plan) => actions.len() == 1 && (actions[0] matches Action::FinishCreateConnection {
            conn_id,
            connection_gid,
            plan_code,
            resolved_ids,
        } && conn_id == ready.conn_id && connection_gid == ready.connection_gid && plan_code
            == plan && resolved_ids == ready.dependency_ids),
    }
}

/// The outcome of resuming an ALTER CONNECTION after validation: staleness
/// re-plans the original statement from scratch — nothing was provisioned, so
/// nothing is cleaned up; a validation error is retired; on success the
/// alteration finishes.
pub open spec fn alter_connection_validation_outcome(
    s: Coordinator,
    ready: AlterConnectionValidationReady,
    actions: Seq<Action>,
) -> bool {
    &&& !ready.plan_validity.spec_valid(s.catalog) ==> actions.len() == 1 && (actions[0]
        matches Action::Replan { conn_id, stmt, params } && conn_id == ready.conn_id && stmt
        == ready.original_stmt && params == ready.params)
    &&& ready.plan_validity.spec_valid(s.catalog) ==> match ready.result {
        Err(e) => actions.len() == 1 && (actions[0] matches Action::Retire { conn_id, result }
            && conn_id == ready.conn_id && result == Err::<u64, AdapterError>(e)),
        Ok(conn) => actions.len() == 1 && (actions[0] matches Action::FinishAlterConnection {
            conn_id,
            connection_gid,
            conn: c,
        } && conn_id == ready.conn_id && connection_gid == ready.connection_gid && c == conn),
    }
}

/// The outcome of resuming a generic staged operation: staleness re-plans the
/// original statement; a failed stage deletes its provisional resource
/// best-effort and retires the error; a successful stage proceeds.
pub open spec fn staged_outcome(s: Coordinator, ready: StagedReady, actions: Seq<Action>) -> bool {
    &&& !ready.plan_validity.spec_valid(s.catalog) ==> actions.len() == 1 && (actions[0]
        matches Action::Replan { conn_id, stmt, params } && conn_id == ready.conn_id && stmt
        == ready.original_stmt && params == ready.params)
    &&& ready.plan_validity.spec_valid(s.catalog) ==> match ready.result {
        Err(e) => {
            let cleanup: int = if ready.provisional_resource is Some {
                1
            } else {
                0
            };
            &&& actions.len() == cleanup + 1
            &&& ready.provisional_resource matches Some(id) ==> (actions[0]
                matches Action::DeleteSecret { id: i } && i == id)
            &&& (actions.last() matches Action::Retire { conn_id, result } && conn_id
                == ready.conn_id && result == Err::<u64, AdapterError>(e))
        },
        Ok(v) => actions.len() == 1 && (actions[0] matches Action::ProceedStage {
            conn_id,
            stage_payload,
        } && conn_id == ready.conn_id && stage_payload == v),
    }
}

impl Coordinator {
    /// Resumes statement sequencing after purification. If any dependency of
    /// the snapshot vanished meanwhile, the original unpurified statement is
    /// re-planned from scratch. A purification error is retired to the
    /// client. A purified alteration of a source and a purified sink creation
    /// unify into one planned statement whose dependencies are recomputed
    /// from the unified form — purification can both add and remove
    /// dependencies, so the pre-purification snapshot is never reused. The
    /// two remaining source shapes proceed to their dedicated planning steps.
    pub fn message_purified_statement_ready(&self, ready: PurifiedStatementReady) -> (actions: Vec<
        Action,
    >)
        ensures
            purified_ready_outcome(*self, ready, actions@),
    {
        let PurifiedStatementReady { conn_id, result, params, mut plan_validity, original_stmt } =
            ready;
        let mut actions: Vec<Action> = Vec::new();
        if plan_validity.check(&self.catalog).is_err() {
            actions.push(Action::Replan { conn_id, stmt: original_stmt, params });
            return actions;
        }
        let purified = match result {
            Ok(ok) => ok,
            Err(e) => {
                actions.push(Action::Retire { conn_id, result: Err(e) });
                return actions;
            },
        };
        match purified {
            PurifiedStatement::PurifiedCreateSource { progress_stmt, source_stmt, subsources } => {
                actions.push(Action::PlanPurifiedCreateSource {
                    conn_id,
                    params,
                    progress_stmt,
                    source_stmt,
                    subsources,
                });
            },
            PurifiedStatement::PurifiedAlterSourceAddSubsources { source_name, subsources } => {
                actions.push(Action::PlanPurifiedAlterSource {
                    conn_id,
                    params,
                    source_name,
                    subsources,
                });
            },
            PurifiedStatement::PurifiedAlterSource { alter_source_stmt } => {
                let stmt = Statement {
                    kind: StatementKind::AlterSource,
                    resolved_deps: alter_source_stmt.resolved_deps,
                };
                let resolved_ids = visit_dependencies(&stmt);
                actions.push(Action::Sequence { conn_id, plan: stmt, resolved_ids });
            },
            PurifiedStatement::PurifiedCreateSink { create_sink_stmt } => {
                let stmt = Statement {
                    kind: StatementKind::CreateSink,
                    resolved_deps: create_sink_stmt.resolved_deps,
                };
                let resolved_ids = visit_dependencies(&stmt);
                actions.push(Action::Sequence { conn_id, plan: stmt, resolved_ids });
            },
        }
        actions
    }

    /// Resumes a CREATE CONNECTION after its validation against the external
    /// system. If the dependency snapshot went stale meanwhile, the secret
    /// provisioned under the reserved id is deleted best-effort and the
    /// original statement is re-planned from scratch: staleness is
    /// recoverable, never surfaced as a user error. A validation error also
    /// deletes the secret best-effort before it is retired; the deletion can
    /// never mask the error being reported. On success the connection
    /// creation finishes with the dependency ids the validation carried.
    pub fn message_create_connection_validation_ready(
        &self,
        ready: CreateConnectionValidationReady,
    ) -> (actions: Vec<Action>)
        ensures
            create_connection_validation_outcome(*self, ready, actions@),
    {
        let CreateConnectionValidationReady {
            conn_id,
            result,
            params,
            connection_gid,
            mut plan_validity,
            original_stmt,
            dependency_ids,
        } = ready;
        let mut actions: Vec<Action> = Vec::new();
        if plan_validity.check(&self.catalog).is_err() {
            actions.push(Action::DeleteSecret { id: connection_gid });
            actions.push(Action::Replan { conn_id, stmt: original_stmt, params });
            return actions;
        }
        match result {
            Ok(plan) => {
                actions.push(Action::FinishCreateConnection {
                    conn_id,
                    connection_gid,
                    plan_code: plan,
                    resolved_ids: dependency_ids,
                });
            },
            Err(e) => {
                actions.push(Action::DeleteSecret { id: connection_gid });
                actions.push(Action::Retire { conn_id, result: Err(e) });
            },
        }
        actions
    }

    /// Resumes an ALTER CONNECTION after its validation. If the dependency
    /// snapshot went stale meanwhile, the original statement is re-planned
    /// from scratch — nothing was provisioned, so there is nothing to clean
    /// up. A validation error is retired to the client. On success the
    /// alteration finishes.
    pub fn message_alter_connection_validation_ready(
        &self,
        ready: AlterConnectionValidationReady,
    ) -> (actions: Vec<Action>)
        ensures
            alter_connection_validation_outcome(*self, ready, actions@),
    {
        let AlterConnectionValidationReady {
            conn_id,
            result,
            params,
            connection_gid,
            mut plan_validity,
            original_stmt,
        } = ready;
        let mut actions: Vec<Action> = Vec::new();
        if plan_validity.check(&self.catalog).is_err() {
            actions.push(Action::Replan { conn_id, stmt: original_stmt, params });
            return actions;
        }
        match result {
            Ok(conn) => {
                actions.push(Action::FinishAlterConnection { conn_id, connection_gid, conn });
            },
            Err(e) => {
                actions.push(Action::Retire { conn_id, result: Err(e) });
            },
        }
        actions
    }

    /// Resumes a generic staged operation, whatever statement kind it drives.
    /// The re-entry rule holds for every stage that follows an asynchronous
    /// gap: staleness re-plans the original statement; a failed stage cleans
    /// up its provisional resource best-effort and retires the error; a
    /// successful stage proceeds to the next one.
    pub fn sequence_staged(&self, ready: StagedReady) -> (actions: Vec<Action>)
        ensures
            staged_outcome(*self, ready, actions@),
    {
        let StagedReady {
            conn_id,
            params,
            result,
            mut plan_validity,
            original_stmt,
            provisional_resource,
        } = ready;
        let mut actions: Vec<Action> = Vec::new();
        if plan_validity.check(&self.catalog).is_err() {
            actions.push(Action::Replan { conn_id, stmt: original_stmt, params });
            return actions;
        }
        match result {
            Ok(v) => {
                actions.push(Action::ProceedStage { conn_id, stage_payload: v });
            },
            Err(e) => {
                if let Some(id) = provisional_resource {
                    actions.push(Action::DeleteSecret { id });
                }
                actions.push(Action::Retire { conn_id, result: Err(e) });
            },
        }
        actions
    }
}

} // verus!
