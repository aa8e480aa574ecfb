use rginx_control::alerts::build_alerts;
use rginx_control::model::{DeploymentStatus, DeploymentSummary, DnsDeploymentSummary, NodeLifecycleState, NodeSummary};

#[test]
fn build_alerts_includes_dns_deployment_variants_and_sorts_them() {
    let alerts = build_alerts(
        &vec![sample_node(
            "edge-offline-01",
            NodeLifecycleState::Offline,
            Some("heartbeat timeout exceeded"),
            10,
        )],
        &vec![sample_deployment(
            "deploy-paused-01",
            DeploymentStatus::Paused,
            Some("manual hold"),
            20,
            Some(20),
            None,
        )],
        &vec![
            sample_dns_deployment(
                "dns-deploy-failed-01",
                DeploymentStatus::Failed,
                None,
                30,
                Some(30),
                Some(35),
                2,
            ),
            sample_dns_deployment(
                "dns-deploy-paused-01",
                DeploymentStatus::Paused,
                Some("canary paused"),
                40,
                Some(40),
                None,
                0,
            ),
            sample_dns_deployment(
                "dns-deploy-running-01",
                DeploymentStatus::Running,
                Some("waiting for canary confirmation"),
                50,
                Some(50),
                None,
                0,
            ),
        ],
    );

    let kinds = alerts.iter().map(|alert| alert.kind.as_str()).collect::<Vec<_>>();
    assert_eq!(
        kinds,
        vec![
            "dns_deployment_failed",
            "node_offline",
            "dns_deployment_attention",
            "dns_deployment_paused",
            "deployment_paused",
        ]
    );

    let failed = alerts
        .iter()
        .find(|alert| alert.kind == "dns_deployment_failed")
        .expect("dns failed alert should exist");
    assert_eq!(failed.resource_type, "dns_deployment");
    assert_eq!(failed.message, "dns revision `dns-v1` failed on 2 target(s)");

    let paused = alerts
        .iter()
        .find(|alert| alert.kind == "dns_deployment_paused")
        .expect("dns paused alert should exist");
    assert_eq!(paused.message, "canary paused");

    let attention = alerts
        .iter()
        .find(|alert| alert.kind == "dns_deployment_attention")
        .expect("dns attention alert should exist");
    assert_eq!(attention.message, "waiting for canary confirmation");
}

fn sample_node(
    node_id: &str,
    state: NodeLifecycleState,
    status_reason: Option<&str>,
    last_seen_unix_ms: u64,
) -> NodeSummary {
    NodeSummary {
        node_id: node_id.to_string(),
        cluster_id: "cluster-mainland".to_string(),
        advertise_addr: "10.0.0.11:8443".to_string(),
        role: "edge".to_string(),
        state,
        running_version: "v0.1.3-rc.11".to_string(),
        admin_socket_path: "/run/rginx/admin.sock".to_string(),
        last_seen_unix_ms,
        last_snapshot_version: Some(11),
        runtime_revision: Some(21),
        runtime_pid: Some(101),
        listener_count: Some(2),
        active_connections: Some(17),
        status_reason: status_reason.map(ToOwned::to_owned),
    }
}

fn sample_deployment(
    deployment_id: &str,
    status: DeploymentStatus,
    status_reason: Option<&str>,
    created_at_unix_ms: u64,
    started_at_unix_ms: Option<u64>,
    finished_at_unix_ms: Option<u64>,
) -> DeploymentSummary {
    DeploymentSummary {
        deployment_id: deployment_id.to_string(),
        cluster_id: "cluster-mainland".to_string(),
        revision_id: "rev_local_0001".to_string(),
        revision_version_label: "v0.1.3-rc.11".to_string(),
        status,
        target_nodes: 2,
        healthy_nodes: 1,
        failed_nodes: 0,
        in_flight_nodes: 1,
        parallelism: 1,
        failure_threshold: 1,
        auto_rollback: false,
        created_by: "system".to_string(),
        rollback_of_deployment_id: None,
        rollback_revision_id: None,
        status_reason: status_reason.map(ToOwned::to_owned),
        created_at_unix_ms,
        started_at_unix_ms,
        finished_at_unix_ms,
    }
}

fn sample_dns_deployment(
    deployment_id: &str,
    status: DeploymentStatus,
    status_reason: Option<&str>,
    created_at_unix_ms: u64,
    started_at_unix_ms: Option<u64>,
    finished_at_unix_ms: Option<u64>,
    failed_nodes: u32,
) -> DnsDeploymentSummary {
    DnsDeploymentSummary {
        deployment_id: deployment_id.to_string(),
        cluster_id: "cluster-mainland".to_string(),
        revision_id: "dns_rev_local_0001".to_string(),
        revision_version_label: "dns-v1".to_string(),
        status,
        target_nodes: 2,
        healthy_nodes: 1,
        failed_nodes,
        active_nodes: 1,
        pending_nodes: 0,
        parallelism: 1,
        failure_threshold: 1,
        auto_rollback: false,
        promotes_cluster_runtime: true,
        created_by: "system".to_string(),
        rollback_of_deployment_id: None,
        rollback_revision_id: None,
        rolled_back_by_deployment_id: None,
        status_reason: status_reason.map(ToOwned::to_owned),
        created_at_unix_ms,
        started_at_unix_ms,
        finished_at_unix_ms,
    }
}
