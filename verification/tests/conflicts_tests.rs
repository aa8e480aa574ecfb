use rginx_control::conflicts::{
    create_rollout_step, ActiveRollout, CreateRolloutEvent, CreateRolloutRequest, CreateRolloutStep,
    active_rollout_conflict, auto_rollback_insert_error, check_revision_cluster, contains_text,
    create_rollout_error, rollback_succeeded_reason, rollback_target_nodes, rollout_not_found,
    rollout_revision_not_found, target_count, task_not_found, RolloutKind, TargetNodeState,
};
use rginx_control::error::ServiceError;
use rginx_control::model::DeploymentStatus;
use rginx_control::rollout::{DnsDeploymentTargetState, NodeDnsOverride};

#[test]
fn contains_text_finds_substrings() {
    assert!(contains_text("duplicate key violates cp_deployments_idempotency_key_idx", "idempotency_key_idx"));
    assert!(contains_text("abc", ""));
    assert!(contains_text("abc", "abc"));
    assert!(!contains_text("ab", "abc"));
    assert!(!contains_text("abcabd", "abe"));
}

#[test]
fn active_rollout_conflict_names_cluster_and_status() {
    match active_rollout_conflict(RolloutKind::Dns, "cluster-a", "dep-1", DeploymentStatus::Paused) {
        ServiceError::Conflict(m) => assert_eq!(
            m,
            "dns deployment lock not acquired for cluster `cluster-a`; active deployment `dep-1` is still paused"
        ),
        other => panic!("unexpected {other:?}"),
    }
}

#[test]
fn revision_cluster_mismatch_is_bad_request() {
    assert!(check_revision_cluster(RolloutKind::Config, "rev-1", "c1", "c1").is_ok());
    match check_revision_cluster(RolloutKind::Config, "rev-1", "c2", "c1") {
        Err(ServiceError::BadRequest(m)) => assert_eq!(m, "revision `rev-1` does not belong to cluster `c1`"),
        other => panic!("unexpected {other:?}"),
    }
    match check_revision_cluster(RolloutKind::Dns, "rev-1", "c2", "c1") {
        Err(ServiceError::BadRequest(m)) => assert_eq!(m, "dns revision `rev-1` does not belong to cluster `c1`"),
        other => panic!("unexpected {other:?}"),
    }
}

#[test]
fn not_found_messages() {
    match rollout_revision_not_found(RolloutKind::Dns, "r9") {
        ServiceError::NotFound(m) => assert_eq!(m, "dns revision `r9` was not found"),
        other => panic!("unexpected {other:?}"),
    }
    match rollout_not_found(RolloutKind::Config, "d9") {
        ServiceError::NotFound(m) => assert_eq!(m, "deployment `d9` was not found"),
        other => panic!("unexpected {other:?}"),
    }
    match task_not_found("t9") {
        ServiceError::NotFound(m) => assert_eq!(m, "task `t9` was not found"),
        other => panic!("unexpected {other:?}"),
    }
}

#[test]
fn target_count_fits_u32() {
    assert_eq!(target_count(7).unwrap(), 7);
    assert_eq!(target_count(0).unwrap(), 0);
}

#[test]
fn create_rollout_error_classifies_store_errors() {
    let e = create_rollout_error(
        RolloutKind::Config,
        "duplicate key value violates unique constraint \"cp_deployments_idempotency_key_idx\"".to_string(),
        Some("key-1"),
        "c1",
    );
    match e {
        ServiceError::Conflict(m) => assert_eq!(m, "deployment idempotency key `key-1` already exists"),
        other => panic!("unexpected {other:?}"),
    }
    let e = create_rollout_error(
        RolloutKind::Dns,
        "violates cp_dns_deployments_one_active_per_cluster_idx".to_string(),
        Some("key-1"),
        "c1",
    );
    match e {
        ServiceError::Conflict(m) => assert_eq!(
            m,
            "dns deployment lock not acquired for cluster `c1`; another active deployment already exists"
        ),
        other => panic!("unexpected {other:?}"),
    }
    let e = create_rollout_error(
        RolloutKind::Config,
        "cp_deployments_idempotency_key_idx".to_string(),
        None,
        "c1",
    );
    match e {
        ServiceError::Internal(m) => assert_eq!(m, "cp_deployments_idempotency_key_idx"),
        other => panic!("unexpected {other:?}"),
    }
}

#[test]
fn auto_rollback_lost_race_is_skipped() {
    assert_eq!(
        auto_rollback_insert_error(RolloutKind::Config, "cp_deployments_one_active_per_cluster_idx".to_string()).unwrap(),
        0
    );
    match auto_rollback_insert_error(RolloutKind::Config, "disk full".to_string()) {
        Err(ServiceError::Internal(m)) => assert_eq!(m, "disk full"),
        other => panic!("unexpected {other:?}"),
    }
}

#[test]
fn rollback_reason_text() {
    assert_eq!(rollback_succeeded_reason("dep-7"), "rollback deployment `dep-7` succeeded");
}

#[test]
fn rollback_targets_are_succeeded_nodes_in_order() {
    let targets = vec![
        TargetNodeState { node_id: "n1".to_string(), state: DnsDeploymentTargetState::Succeeded },
        TargetNodeState { node_id: "n2".to_string(), state: DnsDeploymentTargetState::Failed },
        TargetNodeState { node_id: "n3".to_string(), state: DnsDeploymentTargetState::Succeeded },
    ];
    assert_eq!(rollback_target_nodes("d1", &targets).unwrap(), vec!["n1".to_string(), "n3".to_string()]);
    let none = vec![TargetNodeState { node_id: "n2".to_string(), state: DnsDeploymentTargetState::Pending }];
    match rollback_target_nodes("d1", &none) {
        Err(ServiceError::Conflict(m)) => assert_eq!(m, "dns deployment `d1` has no succeeded targets to roll back"),
        other => panic!("unexpected {other:?}"),
    }
}

fn create_request(kind: RolloutKind, key: Option<&str>) -> CreateRolloutRequest {
    CreateRolloutRequest {
        kind,
        cluster_id: "c1".to_string(),
        revision_id: "rev-2".to_string(),
        idempotency_key: key.map(str::to_string),
        allow_conflicting_overrides: false,
    }
}

#[test]
fn create_sequence_checks_key_lock_revision_then_targets() {
    let req = create_request(RolloutKind::Config, Some("k1"));
    assert!(matches!(create_rollout_step(&req, CreateRolloutEvent::Begin), CreateRolloutStep::LookUpKey(k) if k == "k1"));
    assert!(matches!(
        create_rollout_step(&req, CreateRolloutEvent::KeyLookedUp(Some("dep-1".to_string()))),
        CreateRolloutStep::Reuse(id) if id == "dep-1"
    ));
    assert!(matches!(create_rollout_step(&req, CreateRolloutEvent::KeyLookedUp(None)), CreateRolloutStep::FindActive));
    assert!(matches!(
        create_rollout_step(&create_request(RolloutKind::Config, None), CreateRolloutEvent::Begin),
        CreateRolloutStep::FindActive
    ));
    match create_rollout_step(
        &req,
        CreateRolloutEvent::ActiveLookedUp(Some(ActiveRollout { deployment_id: "dep-0".to_string(), status: DeploymentStatus::Running })),
    ) {
        CreateRolloutStep::Fail(ServiceError::Conflict(m)) => assert_eq!(
            m,
            "deployment lock not acquired for cluster `c1`; active deployment `dep-0` is still running"
        ),
        other => panic!("unexpected {other:?}"),
    }
    assert!(matches!(create_rollout_step(&req, CreateRolloutEvent::ActiveLookedUp(None)), CreateRolloutStep::LoadRevision));
    match create_rollout_step(&req, CreateRolloutEvent::RevisionLoaded(None)) {
        CreateRolloutStep::Fail(ServiceError::NotFound(m)) => assert_eq!(m, "revision `rev-2` was not found"),
        other => panic!("unexpected {other:?}"),
    }
    match create_rollout_step(&req, CreateRolloutEvent::RevisionLoaded(Some("c9".to_string()))) {
        CreateRolloutStep::Fail(ServiceError::BadRequest(m)) => {
            assert_eq!(m, "revision `rev-2` does not belong to cluster `c1`")
        }
        other => panic!("unexpected {other:?}"),
    }
    assert!(matches!(
        create_rollout_step(&req, CreateRolloutEvent::RevisionLoaded(Some("c1".to_string()))),
        CreateRolloutStep::ResolveTargets
    ));
}

#[test]
fn dns_create_sequence_checks_canary_overrides() {
    let req = create_request(RolloutKind::Dns, None);
    assert!(matches!(
        create_rollout_step(&req, CreateRolloutEvent::RevisionLoaded(Some("c1".to_string()))),
        CreateRolloutStep::LoadOverrides
    ));
    let pinned = vec![NodeDnsOverride { node_id: "edge-1".to_string(), published_revision_id: "rev-1".to_string() }];
    match create_rollout_step(&req, CreateRolloutEvent::OverridesLoaded(pinned.clone())) {
        CreateRolloutStep::Fail(ServiceError::Conflict(m)) => assert_eq!(
            m,
            "cluster `c1` already has dns canary node `edge-1` pinned to revision `rev-1`; roll it back or continue deploying the same revision first"
        ),
        other => panic!("unexpected {other:?}"),
    }
    let mut allowed = create_request(RolloutKind::Dns, None);
    allowed.allow_conflicting_overrides = true;
    assert!(matches!(create_rollout_step(&allowed, CreateRolloutEvent::OverridesLoaded(pinned)), CreateRolloutStep::ResolveTargets));
}
