use rginx_control::error::ServiceError;
use rginx_control::model::NodeLifecycleState;
use rginx_control::nodes::{
    agent_actor_id, count_marked_offline, node_event_id, node_not_found, validate_report,
    validate_snapshot, NodeAgentRegistrationRequest, NodeRuntimeReport, NodeSnapshotIngestRequest,
};
use rginx_control::number::parse_unsigned;

fn report() -> NodeAgentRegistrationRequest {
    NodeAgentRegistrationRequest {
        node_id: "edge-1".to_string(),
        cluster_id: "c1".to_string(),
        advertise_addr: "10.0.0.1:8443".to_string(),
        role: "edge".to_string(),
        running_version: "v1".to_string(),
        admin_socket_path: "/run/rginx/admin.sock".to_string(),
        state: NodeLifecycleState::Online,
        runtime: NodeRuntimeReport {
            snapshot_version: None,
            revision: None,
            pid: None,
            listener_count: None,
            active_connections: None,
            error: None,
        },
    }
}

fn bad_request_message<T: std::fmt::Debug>(r: Result<T, ServiceError>) -> String {
    match r {
        Err(ServiceError::BadRequest(m)) => m,
        other => panic!("expected a bad request, got {other:?}"),
    }
}

#[test]
fn reports_name_every_required_field() {
    assert!(validate_report(&report()).is_ok());
    let mut r = report();
    r.role = " ".to_string();
    assert_eq!(bad_request_message(validate_report(&r)), "role should not be empty");
    let mut r = report();
    r.node_id = String::new();
    r.admin_socket_path = String::new();
    assert_eq!(bad_request_message(validate_report(&r)), "node_id should not be empty");
}

#[test]
fn snapshots_include_modules() {
    let mut s = NodeSnapshotIngestRequest {
        node_id: "edge-1".to_string(),
        cluster_id: "c1".to_string(),
        snapshot_version: 1,
        schema_version: 1,
        captured_at_unix_ms: 0,
        binary_version: "v1".to_string(),
        included_modules: vec!["status".to_string()],
    };
    assert!(validate_snapshot(&s).is_ok());
    s.included_modules.clear();
    assert_eq!(bad_request_message(validate_snapshot(&s)), "included_modules should not be empty");
}

#[test]
fn node_service_names() {
    assert_eq!(node_event_id("audit", 1700, 3), "audit_1700_3");
    assert_eq!(agent_actor_id("edge-1"), "agent:edge-1");
    assert!(matches!(node_not_found("x"), ServiceError::NotFound(m) if m == "node `x` was not found"));
    assert_eq!(count_marked_offline(&vec![true, false, true]), 2);
}

#[test]
fn unsigned_parsing_follows_str_parse() {
    assert_eq!(parse_unsigned("65535", 65535), Some(65535));
    assert_eq!(parse_unsigned("65536", 65535), None);
    assert_eq!(parse_unsigned("+7", 10), Some(7));
    assert_eq!(parse_unsigned("+", 10), None);
    assert_eq!(parse_unsigned("", 10), None);
    assert_eq!(parse_unsigned("-1", 10), None);
    assert_eq!(parse_unsigned("007", 10), Some(7));
    assert_eq!(parse_unsigned("18446744073709551615", u64::MAX), Some(u64::MAX));
    assert_eq!(parse_unsigned("18446744073709551616", u64::MAX), None);
    assert_eq!(parse_unsigned(" 1", 10), None);
}
