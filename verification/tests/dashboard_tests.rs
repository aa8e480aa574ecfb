use rginx_control::dashboard::{build_summary, render_prometheus_metrics, ConfigRevisionSummary, DashboardSnapshot};
use rginx_control::model::{
    AlertSeverity, ControlPlaneAlertSummary, DeploymentStatus, DeploymentSummary, DnsDeploymentSummary,
    NodeLifecycleState, NodeSummary,
};

#[test]
fn dashboard_summary_preserves_snapshot_counts() {
    let summary = build_summary(
        DashboardSnapshot {
            total_clusters: 1,
            total_nodes: 2,
            online_nodes: 1,
            draining_nodes: 1,
            offline_nodes: 0,
            drifted_nodes: 0,
            total_revisions: 3,
            active_deployments: 1,
            active_dns_deployments: 2,
            latest_revision: Some(ConfigRevisionSummary {
                revision_id: "rev_local_0001".to_string(),
                cluster_id: "cluster-mainland".to_string(),
                version_label: "v0.1.3-rc.12".to_string(),
                created_at_unix_ms: 1_713_513_600_000,
                summary: "seed control-plane revision".to_string(),
            }),
            recent_nodes: vec![
                NodeSummary {
                    node_id: "edge-sha-01".to_string(),
                    cluster_id: "cluster-mainland".to_string(),
                    advertise_addr: "10.0.0.11:8443".to_string(),
                    role: "edge".to_string(),
                    state: NodeLifecycleState::Online,
                    running_version: "v0.1.3-rc.12".to_string(),
                    admin_socket_path: "/run/rginx/admin.sock".to_string(),
                    last_seen_unix_ms: 1_713_513_600_000,
                    last_snapshot_version: Some(11),
                    runtime_revision: Some(21),
                    runtime_pid: Some(101),
                    listener_count: Some(2),
                    active_connections: Some(17),
                    status_reason: None,
                },
                NodeSummary {
                    node_id: "edge-sz-01".to_string(),
                    cluster_id: "cluster-mainland".to_string(),
                    advertise_addr: "10.0.1.21:8443".to_string(),
                    role: "edge".to_string(),
                    state: NodeLifecycleState::Draining,
                    running_version: "v0.1.3-rc.12".to_string(),
                    admin_socket_path: "/run/rginx/admin.sock".to_string(),
                    last_seen_unix_ms: 1_713_513_600_000,
                    last_snapshot_version: Some(9),
                    runtime_revision: Some(20),
                    runtime_pid: Some(102),
                    listener_count: Some(2),
                    active_connections: Some(4),
                    status_reason: None,
                },
            ],
            recent_deployments: vec![DeploymentSummary {
                deployment_id: "deploy_local_0001".to_string(),
                cluster_id: "cluster-mainland".to_string(),
                revision_id: "rev_local_0001".to_string(),
                revision_version_label: "v0.1.3-rc.12".to_string(),
                status: DeploymentStatus::Running,
                target_nodes: 2,
                healthy_nodes: 1,
                failed_nodes: 0,
                in_flight_nodes: 1,
                parallelism: 1,
                failure_threshold: 1,
                auto_rollback: false,
                created_by: "system".to_string(),
                rollback_of_deployment_id: None,
                rollback_revision_id: None,
                status_reason: None,
                created_at_unix_ms: 1_713_513_600_000,
                started_at_unix_ms: Some(1_713_513_600_000),
                finished_at_unix_ms: None,
            }],
            recent_dns_deployments: vec![DnsDeploymentSummary {
                deployment_id: "dns_deploy_local_0001".to_string(),
                cluster_id: "cluster-mainland".to_string(),
                revision_id: "dns_rev_local_0001".to_string(),
                revision_version_label: "dns-v1".to_string(),
                status: DeploymentStatus::Running,
                target_nodes: 2,
                healthy_nodes: 1,
                failed_nodes: 0,
                active_nodes: 1,
                pending_nodes: 0,
                parallelism: 1,
                failure_threshold: 1,
                auto_rollback: false,
                promotes_cluster_runtime: true,
                created_by: "system".to_string(),
                rollback_of_deployment_id: None,
                rollback_revision_id: None,
                rolled_back_by_deployment_id: None,
                status_reason: None,
                created_at_unix_ms: 1_713_513_600_000,
                started_at_unix_ms: Some(1_713_513_600_000),
                finished_at_unix_ms: None,
            }],
        },
        vec![ControlPlaneAlertSummary {
            alert_id: "alert_node_offline_edge-sha-01".to_string(),
            cluster_id: Some("cluster-mainland".to_string()),
            severity: AlertSeverity::Critical,
            kind: "node_offline".to_string(),
            title: "Node `edge-sha-01` is offline".to_string(),
            message: "heartbeat timeout exceeded".to_string(),
            resource_type: "node".to_string(),
            resource_id: "edge-sha-01".to_string(),
            observed_at_unix_ms: 1_713_513_600_000,
        }],
    );

    assert_eq!(summary.total_clusters, 1);
    assert_eq!(summary.total_nodes, 2);
    assert_eq!(summary.online_nodes, 1);
    assert_eq!(summary.draining_nodes, 1);
    assert_eq!(summary.offline_nodes, 0);
    assert_eq!(summary.drifted_nodes, 0);
    assert_eq!(summary.total_revisions, 3);
    assert_eq!(summary.active_deployments, 1);
    assert_eq!(summary.active_dns_deployments, 2);
    assert_eq!(summary.open_alert_count, 1);
    assert_eq!(summary.critical_alert_count, 1);
    assert!(summary.latest_revision.is_some());
    assert_eq!(summary.recent_dns_deployments.len(), 1);
}

fn node(node_id: &str, state: NodeLifecycleState) -> NodeSummary {
    NodeSummary {
        node_id: node_id.to_string(),
        cluster_id: "cluster-mainland".to_string(),
        advertise_addr: "10.0.0.11:8443".to_string(),
        role: "edge".to_string(),
        state,
        running_version: "v1".to_string(),
        admin_socket_path: "/run/rginx/admin.sock".to_string(),
        last_seen_unix_ms: 0,
        last_snapshot_version: None,
        runtime_revision: None,
        runtime_pid: None,
        listener_count: None,
        active_connections: None,
        status_reason: None,
    }
}

fn alert(severity: AlertSeverity) -> ControlPlaneAlertSummary {
    ControlPlaneAlertSummary {
        alert_id: "a".to_string(),
        cluster_id: None,
        severity,
        kind: "k".to_string(),
        title: "t".to_string(),
        message: "m".to_string(),
        resource_type: "node".to_string(),
        resource_id: "n".to_string(),
        observed_at_unix_ms: 0,
    }
}

#[test]
fn dashboard_counts_alerts_by_severity() {
    let snapshot = DashboardSnapshot {
        total_clusters: 0,
        total_nodes: 0,
        online_nodes: 0,
        draining_nodes: 0,
        offline_nodes: 0,
        drifted_nodes: 0,
        total_revisions: 0,
        active_deployments: 0,
        active_dns_deployments: 0,
        latest_revision: None::<ConfigRevisionSummary>,
        recent_nodes: Vec::new(),
        recent_deployments: Vec::new(),
        recent_dns_deployments: Vec::new(),
    };
    let summary = build_summary(
        snapshot,
        vec![alert(AlertSeverity::Warning), alert(AlertSeverity::Critical), alert(AlertSeverity::Warning)],
    );
    assert_eq!(summary.open_alert_count, 3);
    assert_eq!(summary.critical_alert_count, 1);
    assert_eq!(summary.warning_alert_count, 2);
}

#[test]
fn prometheus_page_lists_gauges_in_order() {
    let nodes = vec![node("a", NodeLifecycleState::Online), node("b", NodeLifecycleState::Online), node("c", NodeLifecycleState::Offline)];
    let body = render_prometheus_metrics(2, 5, 7, 9, &nodes, &Vec::<DeploymentSummary>::new(), &vec![alert(AlertSeverity::Critical)]);
    let expected = "# HELP rginx_control_clusters_total Managed cluster count in the control plane.\n\
# TYPE rginx_control_clusters_total gauge\n\
rginx_control_clusters_total 2\n\
# HELP rginx_control_revisions_total Published configuration revision count.\n\
# TYPE rginx_control_revisions_total gauge\n\
rginx_control_revisions_total 5\n\
# HELP rginx_control_audit_logs_total Audit log entries persisted in Postgres.\n\
# TYPE rginx_control_audit_logs_total gauge\n\
rginx_control_audit_logs_total 7\n\
# HELP rginx_control_node_snapshots_total Node snapshot records persisted in Postgres.\n\
# TYPE rginx_control_node_snapshots_total gauge\n\
rginx_control_node_snapshots_total 9\n\
# HELP rginx_control_nodes_total Managed nodes by lifecycle state.\n\
# TYPE rginx_control_nodes_total gauge\n\
rginx_control_nodes_total{state=\"provisioning\"} 0\n\
rginx_control_nodes_total{state=\"online\"} 2\n\
rginx_control_nodes_total{state=\"draining\"} 0\n\
rginx_control_nodes_total{state=\"offline\"} 1\n\
rginx_control_nodes_total{state=\"drifted\"} 0\n\
# HELP rginx_control_deployments_total Deployments by status.\n\
# TYPE rginx_control_deployments_total gauge\n\
rginx_control_deployments_total{status=\"draft\"} 0\n\
rginx_control_deployments_total{status=\"running\"} 0\n\
rginx_control_deployments_total{status=\"paused\"} 0\n\
rginx_control_deployments_total{status=\"succeeded\"} 0\n\
rginx_control_deployments_total{status=\"failed\"} 0\n\
rginx_control_deployments_total{status=\"rolled_back\"} 0\n\
# HELP rginx_control_alerts_total Current derived alerts by severity.\n\
# TYPE rginx_control_alerts_total gauge\n\
rginx_control_alerts_total{severity=\"warning\"} 0\n\
rginx_control_alerts_total{severity=\"critical\"} 1\n";
    assert_eq!(body, expected);
}
