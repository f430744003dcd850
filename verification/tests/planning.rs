use coord_core::catalog::{CatalogObject, CatalogState, PlanValidity};
use coord_core::coord::Coordinator;
use coord_core::error::AdapterError;
use coord_core::message::{
    Action, AlterConnectionValidationReady, CreateConnectionValidationReady,
    PurifiedStatementReady, StagedReady,
};
use coord_core::statement::{
    plan_raw, visit_dependencies, PurifiedStatement, RawStatement, Statement, StatementKind,
};
use coord_core::storage_usage::CollectionMetadata;

fn empty_coordinator() -> Coordinator {
    Coordinator::new(3_600_000, vec![9, 8, 7], false)
}

#[test]
fn validity_check_passes_on_unchanged_revision_and_reports_first_dropped_dependency() {
    let catalog = CatalogState {
        objects: vec![CatalogObject { id: 10, name: 100 }],
        revision: 1,
    };
    // Same revision: trivially valid, whatever the dependencies.
    let mut v = PlanValidity { dependency_ids: vec![99], revision: 1 };
    assert!(v.check(&catalog).is_ok());
    // Changed revision with a live dependency: valid, snapshot advances.
    let mut v = PlanValidity { dependency_ids: vec![10], revision: 0 };
    assert!(v.check(&catalog).is_ok());
    assert_eq!(v.revision, 1);
    // Changed revision with a vanished dependency: the staleness is reported.
    let mut v = PlanValidity { dependency_ids: vec![10, 99], revision: 0 };
    assert_eq!(v.check(&catalog), Err(AdapterError::StaleDependency(99)));
}

#[test]
fn stale_purified_statement_replans_and_picks_up_replacement_or_fails_cleanly() {
    // The statement's dependency (id 10, name 100) is dropped and replaced by
    // a new object under the same name (id 11) while purification runs.
    let mut c = empty_coordinator();
    c.catalog = CatalogState {
        objects: vec![CatalogObject { id: 11, name: 100 }],
        revision: 2,
    };
    let original = RawStatement { tag: 50, depends_on_names: vec![100] };
    let actions = c.message_purified_statement_ready(PurifiedStatementReady {
        conn_id: 1,
        result: Ok(PurifiedStatement::PurifiedCreateSink {
            create_sink_stmt: Statement {
                kind: StatementKind::Generic(50),
                resolved_deps: vec![10],
            },
        }),
        params: 0,
        plan_validity: PlanValidity { dependency_ids: vec![10], revision: 1 },
        original_stmt: original.clone(),
    });
    // The resume re-plans the original statement instead of applying the
    // stale plan.
    assert_eq!(actions.len(), 1);
    let replanned = match &actions[0] {
        Action::Replan { conn_id, stmt, params } => {
            assert_eq!(*conn_id, 1);
            assert_eq!(*params, 0);
            stmt.clone()
        },
        other => panic!("unexpected action: {:?}", other),
    };
    // Re-planning silently picks up the replacement object of the same name.
    let planned = plan_raw(&c.catalog, &replanned).unwrap();
    assert_eq!(planned.resolved_deps, vec![11]);
    // Had the name vanished entirely, re-planning gives a clean
    // object-does-not-exist error.
    let gone = CatalogState { objects: Vec::new(), revision: 3 };
    assert_eq!(plan_raw(&gone, &replanned), Err(AdapterError::UnknownObject(100)));
}

#[test]
fn purified_sink_unifies_and_recomputes_dependencies() {
    let mut c = empty_coordinator();
    c.catalog.revision = 1;
    let actions = c.message_purified_statement_ready(PurifiedStatementReady {
        conn_id: 2,
        result: Ok(PurifiedStatement::PurifiedCreateSink {
            create_sink_stmt: Statement {
                kind: StatementKind::Generic(1),
                resolved_deps: vec![4, 2, 4],
            },
        }),
        params: 7,
        plan_validity: PlanValidity { dependency_ids: Vec::new(), revision: 1 },
        original_stmt: RawStatement { tag: 1, depends_on_names: Vec::new() },
    });
    assert_eq!(actions.len(), 1);
    match &actions[0] {
        Action::Sequence { conn_id, plan, resolved_ids } => {
            assert_eq!(*conn_id, 2);
            assert_eq!(plan.kind, StatementKind::CreateSink);
            // Dependencies are recomputed from the unified statement, as an
            // ordered set.
            assert_eq!(*resolved_ids, vec![2, 4]);
        },
        other => panic!("unexpected action: {:?}", other),
    }
}

#[test]
fn purification_error_is_retired_to_the_client() {
    let c = empty_coordinator();
    let actions = c.message_purified_statement_ready(PurifiedStatementReady {
        conn_id: 3,
        result: Err(AdapterError::External(7)),
        params: 0,
        plan_validity: PlanValidity { dependency_ids: Vec::new(), revision: 0 },
        original_stmt: RawStatement { tag: 1, depends_on_names: Vec::new() },
    });
    assert_eq!(actions.len(), 1);
    match &actions[0] {
        Action::Retire { conn_id, result } => {
            assert_eq!(*conn_id, 3);
            assert_eq!(*result, Err(AdapterError::External(7)));
        },
        other => panic!("unexpected action: {:?}", other),
    }
}

#[test]
fn failed_connection_validation_cleans_up_the_reserved_secret_first() {
    let c = empty_coordinator();
    let actions = c.message_create_connection_validation_ready(CreateConnectionValidationReady {
        conn_id: 4,
        result: Err(AdapterError::External(9)),
        params: 0,
        connection_gid: 31,
        plan_validity: PlanValidity { dependency_ids: Vec::new(), revision: 0 },
        original_stmt: RawStatement { tag: 3, depends_on_names: Vec::new() },
        dependency_ids: vec![1, 2],
    });
    assert_eq!(actions.len(), 2);
    assert!(matches!(actions[0], Action::DeleteSecret { id: 31 }));
    assert!(matches!(actions[1], Action::Retire { conn_id: 4, result: Err(_) }));
}

#[test]
fn validated_connection_finishes_with_its_dependency_ids() {
    let c = empty_coordinator();
    let actions = c.message_create_connection_validation_ready(CreateConnectionValidationReady {
        conn_id: 4,
        result: Ok(55),
        params: 0,
        connection_gid: 31,
        plan_validity: PlanValidity { dependency_ids: Vec::new(), revision: 0 },
        original_stmt: RawStatement { tag: 3, depends_on_names: Vec::new() },
        dependency_ids: vec![1, 2],
    });
    assert_eq!(actions.len(), 1);
    match &actions[0] {
        Action::FinishCreateConnection { conn_id, connection_gid, plan_code, resolved_ids } => {
            assert_eq!(*conn_id, 4);
            assert_eq!(*connection_gid, 31);
            assert_eq!(*plan_code, 55);
            assert_eq!(*resolved_ids, vec![1, 2]);
        },
        other => panic!("unexpected action: {:?}", other),
    }
}

#[test]
fn stale_connection_validation_cleans_up_and_replans_instead_of_erroring() {
    // The snapshot's dependency vanished while validation ran: the reserved
    // secret is deleted best-effort and the original statement is re-planned
    // from scratch — staleness never reaches the client as an error.
    let mut c = empty_coordinator();
    c.catalog.revision = 2;
    let original = RawStatement { tag: 8, depends_on_names: vec![100] };
    let actions = c.message_create_connection_validation_ready(CreateConnectionValidationReady {
        conn_id: 4,
        result: Ok(55),
        params: 6,
        connection_gid: 31,
        plan_validity: PlanValidity { dependency_ids: vec![10], revision: 1 },
        original_stmt: original.clone(),
        dependency_ids: vec![10],
    });
    assert_eq!(actions.len(), 2);
    assert!(matches!(actions[0], Action::DeleteSecret { id: 31 }));
    match &actions[1] {
        Action::Replan { conn_id, stmt, params } => {
            assert_eq!(*conn_id, 4);
            assert_eq!(*stmt, original);
            assert_eq!(*params, 6);
        },
        other => panic!("unexpected action: {:?}", other),
    }
}

#[test]
fn stale_alter_connection_validation_replans_without_cleanup() {
    let mut c = empty_coordinator();
    c.catalog.revision = 2;
    let original = RawStatement { tag: 9, depends_on_names: vec![100] };
    let actions = c.message_alter_connection_validation_ready(AlterConnectionValidationReady {
        conn_id: 5,
        result: Ok(7),
        params: 1,
        connection_gid: 31,
        plan_validity: PlanValidity { dependency_ids: vec![10], revision: 1 },
        original_stmt: original.clone(),
    });
    assert_eq!(actions.len(), 1);
    match &actions[0] {
        Action::Replan { conn_id, stmt, params } => {
            assert_eq!(*conn_id, 5);
            assert_eq!(*stmt, original);
            assert_eq!(*params, 1);
        },
        other => panic!("unexpected action: {:?}", other),
    }
}

#[test]
fn alter_connection_validation_retires_errors_without_cleanup() {
    let c = empty_coordinator();
    let actions = c.message_alter_connection_validation_ready(AlterConnectionValidationReady {
        conn_id: 5,
        result: Err(AdapterError::External(2)),
        params: 0,
        connection_gid: 31,
        plan_validity: PlanValidity { dependency_ids: Vec::new(), revision: 0 },
        original_stmt: RawStatement { tag: 4, depends_on_names: Vec::new() },
    });
    assert_eq!(actions.len(), 1);
    assert!(matches!(actions[0], Action::Retire { conn_id: 5, result: Err(_) }));
}

#[test]
fn staged_operation_cleans_up_provisional_resource_on_failure() {
    let c = empty_coordinator();
    let actions = c.sequence_staged(StagedReady {
        conn_id: 6,
        params: 0,
        result: Err(AdapterError::External(4)),
        plan_validity: PlanValidity { dependency_ids: Vec::new(), revision: 0 },
        original_stmt: RawStatement { tag: 2, depends_on_names: Vec::new() },
        provisional_resource: Some(77),
    });
    assert_eq!(actions.len(), 2);
    assert!(matches!(actions[0], Action::DeleteSecret { id: 77 }));
    assert!(matches!(actions[1], Action::Retire { conn_id: 6, result: Err(_) }));

    let actions = c.sequence_staged(StagedReady {
        conn_id: 6,
        params: 0,
        result: Ok(12),
        plan_validity: PlanValidity { dependency_ids: Vec::new(), revision: 0 },
        original_stmt: RawStatement { tag: 2, depends_on_names: Vec::new() },
        provisional_resource: None,
    });
    assert_eq!(actions.len(), 1);
    assert!(matches!(actions[0], Action::ProceedStage { conn_id: 6, stage_payload: 12 }));
}

#[test]
fn visit_dependencies_yields_an_ordered_set() {
    let stmt = Statement { kind: StatementKind::Generic(0), resolved_deps: vec![5, 3, 5, 1, 3] };
    assert_eq!(visit_dependencies(&stmt), vec![1, 3, 5]);
}

#[test]
fn storage_usage_fetch_gathers_every_shard_once() {
    let c = empty_coordinator();
    let collections = vec![
        CollectionMetadata { data_shard: 5, remap_shard: Some(3), status_shard: None },
        CollectionMetadata { data_shard: 3, remap_shard: None, status_shard: Some(9) },
    ];
    let actions = c.storage_usage_fetch(&collections);
    assert_eq!(actions.len(), 1);
    match &actions[0] {
        Action::FetchShardSizes { shards } => {
            assert_eq!(*shards, vec![3, 5, 9]);
        },
        other => panic!("unexpected action: {:?}", other),
    }
}

#[test]
fn storage_usage_update_records_one_op_per_shard_at_the_collection_time() {
    let c = empty_coordinator();
    let actions = c.storage_usage_update(&vec![(1, 100), (2, 200)], 42);
    assert_eq!(actions.len(), 1);
    match &actions[0] {
        Action::TransactUsageOps { ops } => {
            assert_eq!(ops.len(), 2);
            assert_eq!(ops[0].shard_id, 1);
            assert_eq!(ops[0].size_bytes, 100);
            assert_eq!(ops[0].collection_timestamp, 42);
            assert_eq!(ops[1].shard_id, 2);
            assert_eq!(ops[1].size_bytes, 200);
        },
        other => panic!("unexpected action: {:?}", other),
    }
}

fn scheduled_wait(c: &Coordinator, now_ts: u64) -> u64 {
    let actions = c.schedule_storage_usage_collection(now_ts);
    assert_eq!(actions.len(), 1);
    match &actions[0] {
        Action::ScheduleStorageFetch { after_ms } => *after_ms,
        other => panic!("unexpected action: {:?}", other),
    }
}

#[test]
fn collection_schedule_is_deterministic_across_restarts() {
    let c = empty_coordinator();
    let now: u64 = 10_000_000;
    let wait = scheduled_wait(&c, now);
    // The same seed, interval and instant always name the same wait.
    assert_eq!(wait, scheduled_wait(&c, now));
    assert!(wait > 0 && wait <= c.storage_usage_collection_interval_ms);
    // A restart before the scheduled instant re-computes the same instant.
    let next = now + wait;
    let later = now + wait / 2;
    if later < next {
        assert_eq!(later + scheduled_wait(&c, later), next);
    }
    // A different deployment seed may collect at another instant, but always
    // within one interval.
    let mut other = empty_coordinator();
    other.organization_id = vec![200, 201, 202];
    let other_wait = scheduled_wait(&other, now);
    assert!(other_wait > 0 && other_wait <= other.storage_usage_collection_interval_ms);
}

#[test]
fn collection_offset_stays_inside_a_tiny_interval() {
    // With a one-millisecond interval the only possible offset is zero, so
    // the next collection is exactly the next boundary.
    let mut c = empty_coordinator();
    c.storage_usage_collection_interval_ms = 1;
    assert_eq!(scheduled_wait(&c, 123_456), 1);
}
