use rginx_control::rollout::DeploymentReconcileReport;
use rginx_control::service::{
    build_tick_report, service_health, validate_audit_limit, web_settings, ControlPlaneServiceConfig,
    MetaService,
};
use rginx_control::error::ServiceError;
use rginx_control::store::{BackendDependencyStatus, ControlPlaneStoreConfig, WorkerRuntimeContext};

#[test]
fn web_settings_use_defaults_and_trim_the_secret() {
    let s = web_settings(&Some("  s3cret ".to_string()), &None, &None).unwrap();
    assert_eq!(s.session_secret, "s3cret");
    assert_eq!(s.session_ttl_secs, 86400);
    assert_eq!(s.node_offline_threshold_secs, 30);
}

#[test]
fn web_settings_report_refused_values() {
    assert_eq!(web_settings(&None, &None, &None).unwrap_err(), "RGINX_CONTROL_AUTH_SESSION_SECRET is required");
    assert_eq!(
        web_settings(&Some(" ".to_string()), &None, &None).unwrap_err(),
        "RGINX_CONTROL_AUTH_SESSION_SECRET should not be empty"
    );
    assert_eq!(
        web_settings(&Some("s".to_string()), &Some("soon".to_string()), &None).unwrap_err(),
        "RGINX_CONTROL_AUTH_SESSION_TTL_SECS should be a valid u64"
    );
    assert_eq!(
        web_settings(&Some("s".to_string()), &Some("0".to_string()), &None).unwrap_err(),
        "RGINX_CONTROL_AUTH_SESSION_TTL_SECS should be greater than zero"
    );
    assert_eq!(
        web_settings(&Some("s".to_string()), &Some("+60".to_string()), &Some("x".to_string())).unwrap_err(),
        "RGINX_CONTROL_NODE_OFFLINE_THRESHOLD_SECS should be a valid u64"
    );
    assert_eq!(web_settings(&Some("s".to_string()), &Some("+60".to_string()), &None).unwrap().session_ttl_secs, 60);
}

#[test]
fn meta_reports_the_configured_names() {
    let meta = MetaService::new(ControlPlaneServiceConfig::defaults("v1")).get_meta("0.0.0.0:8080".to_string());
    assert_eq!(meta.service_name, "rginx-web");
    assert_eq!(meta.api_version, "v1");
    assert_eq!(meta.api_listen_addr, "0.0.0.0:8080");
    assert_eq!(meta.ui_path, "/");
    assert_eq!(meta.node_agent_path, "rginx-node-agent");
    assert_eq!(service_health("rginx-web").status, "ok");
}

#[test]
fn for_web_sets_up_authentication() {
    let settings = web_settings(&Some("k".to_string()), &Some("120".to_string()), &Some("45".to_string())).unwrap();
    let config = ControlPlaneServiceConfig::for_web("v1", &settings);
    let auth = config.auth.expect("auth should be configured");
    assert_eq!(auth.session_secret, "k");
    assert_eq!(auth.session_ttl_secs, 120);
    assert_eq!(config.node_offline_threshold_secs, 45);
}

#[test]
fn audit_limit_must_be_positive() {
    assert!(matches!(
        validate_audit_limit(Some(0)),
        Err(ServiceError::BadRequest(m)) if m == "limit should be greater than zero"
    ));
    assert!(validate_audit_limit(Some(5)).is_ok());
    assert!(validate_audit_limit(None).is_ok());
}

#[test]
fn tick_report_prefers_reported_endpoints() {
    let context = WorkerRuntimeContext {
        known_nodes: 4,
        active_deployments: 1,
        active_dns_deployments: 0,
        dependencies: vec![BackendDependencyStatus {
            name: "postgres".to_string(),
            endpoint: "db:5432/x".to_string(),
            status: "ok".to_string(),
        }],
    };
    let report = DeploymentReconcileReport {
        active_deployments: 1,
        dispatched_targets: 2,
        finalized_deployments: 1,
        rollback_deployments_created: 0,
    };
    let tick = build_tick_report("worker", &context, 3, &report, &ControlPlaneStoreConfig::default());
    assert_eq!(tick.postgres_endpoint, "db:5432/x");
    assert_eq!(tick.dragonfly_endpoint, "127.0.0.1:6379");
    assert_eq!(tick.offline_reconciled_nodes, 3);
    assert_eq!(tick.dispatched_targets, 2);
    assert_eq!(tick.known_nodes, 4);
}

#[test]
fn default_service_config_has_no_auth_and_a_thirty_second_threshold() {
    let config = ControlPlaneServiceConfig::defaults("v1");
    assert_eq!(config.node_offline_threshold_secs, 30);
    assert!(config.auth.is_none());
    assert_eq!(config.service_name, "rginx-web");
}
