use rginx_control::model::DeploymentStatus;
use rginx_control::rollout::{
    dispatch_capacity, dispatch_task, normalize_failure_threshold, normalize_parallelism, should_block_new_dispatch,
    should_finalize_now, DeploymentProgressSnapshot, DeploymentTaskKind, acknowledges, acknowledged_at,
    task_completion_update, TaskCompletionRecord, dns_activation_limit, activation_override, NodeOverrideAction, ack_task_row, complete_task_row, AgentTaskRow,
};

#[test]
fn parallelism_is_bounded_by_target_count() {
    assert_eq!(normalize_parallelism(Some(4), 2).expect("parallelism should normalize"), 2);
}

#[test]
fn failure_threshold_is_bounded_by_target_count() {
    assert_eq!(
        normalize_failure_threshold(Some(5), 3).expect("failure_threshold should normalize"),
        3
    );
}

#[test]
fn dispatch_capacity_never_underflows() {
    assert_eq!(dispatch_capacity(2, 3), 0);
    assert_eq!(dispatch_capacity(4, 1), 3);
}

#[test]
fn progress_blocks_new_dispatch_after_threshold() {
    let progress = DeploymentProgressSnapshot {
        deployment_id: "deploy_1".to_string(),
        cluster_id: "cluster-mainland".to_string(),
        status: DeploymentStatus::Running,
        parallelism: 2,
        failure_threshold: 1,
        auto_rollback: true,
        rollback_of_deployment_id: None,
        rollback_revision_id: Some("rev_previous".to_string()),
        total_nodes: 3,
        pending_nodes: 1,
        in_flight_nodes: 1,
        healthy_nodes: 1,
        failed_nodes: 1,
    };

    assert!(should_block_new_dispatch(&progress));
    assert!(!should_finalize_now(&progress));
}

#[test]
fn progress_finalizes_when_no_pending_or_in_flight_targets_remain() {
    let progress = DeploymentProgressSnapshot {
        deployment_id: "deploy_1".to_string(),
        cluster_id: "cluster-mainland".to_string(),
        status: DeploymentStatus::Running,
        parallelism: 2,
        failure_threshold: 2,
        auto_rollback: false,
        rollback_of_deployment_id: None,
        rollback_revision_id: None,
        total_nodes: 3,
        pending_nodes: 0,
        in_flight_nodes: 0,
        healthy_nodes: 2,
        failed_nodes: 1,
    };

    assert!(should_finalize_now(&progress));
}

#[test]
fn dispatch_task_formats_id_kind_and_attempt() {
    let t = dispatch_task(1_700_000_000_123, 0, "target-9", 2, false);
    assert_eq!(t.task_id, "task_1700000000123_1_target-9");
    assert_eq!(t.kind, DeploymentTaskKind::ApplyRevision);
    assert_eq!(t.kind.as_str(), "apply_revision");
    assert_eq!(t.attempt, 3);
    let r = dispatch_task(-5, 4, "t", 0, true);
    assert_eq!(r.task_id, "task_-5_5_t");
    assert_eq!(r.kind.as_str(), "rollback_revision");
    assert_eq!(r.attempt, 1);
}

#[test]
fn acknowledgement_moves_only_pending_tasks() {
    assert!(acknowledges("pending"));
    assert!(!acknowledges("acknowledged"));
    assert!(!acknowledges("succeeded"));
    assert_eq!(acknowledged_at(Some(5), Some(7), 1), 5);
    assert_eq!(acknowledged_at(None, Some(7), 1), 7);
    assert_eq!(acknowledged_at(None, None, 1), 1);
}

#[test]
fn completion_updates_open_tasks_once() {
    let failed = TaskCompletionRecord {
        succeeded: false,
        message: Some("reload failed".to_string()),
        runtime_revision: None,
        completion_idempotency_key: None,
    };
    let u = task_completion_update("acknowledged", &failed).expect("open task should be updated");
    assert_eq!(u.task_state, "failed");
    assert_eq!(u.target_state, "failed");
    assert_eq!(u.last_error.as_deref(), Some("reload failed"));
    let ok = TaskCompletionRecord { succeeded: true, message: Some("done".to_string()), runtime_revision: Some(3), completion_idempotency_key: None };
    let u = task_completion_update("pending", &ok).expect("open task should be updated");
    assert_eq!(u.task_state, "succeeded");
    assert!(u.last_error.is_none());
    assert!(task_completion_update("succeeded", &failed).is_none());
    assert!(task_completion_update("cancelled", &ok).is_none());
    assert!(task_completion_update(&u.task_state, &failed).is_none());
}

#[test]
fn dns_activation_limit_and_overrides() {
    assert_eq!(dns_activation_limit(5), 5);
    assert_eq!(dns_activation_limit(u32::MAX), i32::MAX as i64);
    assert_eq!(activation_override(Some("rev-1"), "rev-1"), NodeOverrideAction::Clear);
    assert_eq!(activation_override(Some("rev-1"), "rev-2"), NodeOverrideAction::Pin);
    assert_eq!(activation_override(None, "rev-2"), NodeOverrideAction::Pin);
}

fn pending_row() -> AgentTaskRow {
    AgentTaskRow {
        state: "pending".to_string(),
        target_state: "dispatched".to_string(),
        target_last_error: None,
        dispatched_at: 100,
        acked_at: None,
        completed_at: None,
    }
}

#[test]
fn task_rows_acknowledge_and_complete_once() {
    assert!(ack_task_row(&None, 5).is_none());
    let acked = ack_task_row(&Some(pending_row()), 150).unwrap();
    assert_eq!(acked.state, "acknowledged");
    assert_eq!(acked.target_state, "acknowledged");
    assert_eq!(acked.acked_at, Some(150));
    let again = ack_task_row(&Some(acked.clone()), 160).unwrap();
    assert_eq!(again.acked_at, Some(150));
    assert_eq!(again.state, "acknowledged");

    let failed = TaskCompletionRecord {
        succeeded: false,
        message: Some("reload failed".to_string()),
        runtime_revision: None,
        completion_idempotency_key: None,
    };
    let done = complete_task_row(&Some(pending_row()), &failed, 200).unwrap();
    assert_eq!(done.state, "failed");
    assert_eq!(done.target_state, "failed");
    assert_eq!(done.target_last_error.as_deref(), Some("reload failed"));
    assert_eq!(done.acked_at, Some(200));
    assert_eq!(done.completed_at, Some(200));

    let ok = TaskCompletionRecord { succeeded: true, message: None, runtime_revision: Some(4), completion_idempotency_key: None };
    let twice = complete_task_row(&Some(done.clone()), &ok, 300).unwrap();
    assert_eq!(twice.state, "failed");
    assert_eq!(twice.completed_at, Some(200));
    let late_ack = ack_task_row(&Some(done), 400).unwrap();
    assert_eq!(late_ack.state, "failed");
    assert!(complete_task_row(&None, &ok, 1).is_none());
}
