use rginx_control::store::{
    count_to_u32, count_to_u64, dependency_endpoint, option_i32_to_u32, option_i64_to_u64,
    option_u32_to_i32, option_u64_to_i64, unix_time_ms, BackendDependencyStatus,
    ControlPlaneStoreConfig, DragonflyKeyspace, StoreEnvironment,
};

fn empty_environment() -> StoreEnvironment {
    StoreEnvironment {
        db_host: None,
        db_port: None,
        db_user: None,
        db_password: None,
        db_name: None,
        db_max_connections: None,
        dragonfly_host: None,
        dragonfly_port: None,
        dragonfly_key_prefix: None,
        bootstrap_admin_username: None,
        bootstrap_admin_password: None,
        bootstrap_admin_display_name: None,
    }
}

#[test]
fn keyspace_is_prefixed_consistently() {
    let keyspace = DragonflyKeyspace::new("rginx:control");

    assert_eq!(keyspace.session_key("sess_01"), "rginx:control:session:sess_01");
    assert_eq!(
        keyspace.deployment_queue_key("cluster-mainland"),
        "rginx:control:deployment:queue:cluster-mainland"
    );
    assert_eq!(
        keyspace.node_presence_key("edge-sha-01"),
        "rginx:control:node:presence:edge-sha-01"
    );
}

#[test]
fn keyspace_covers_every_key_kind() {
    let keyspace = DragonflyKeyspace::new("p");
    assert_eq!(keyspace.prefix(), "p");
    assert_eq!(keyspace.deployment_lock_key("c"), "p:deployment:lock:c");
    assert_eq!(keyspace.event_stream_key("s"), "p:event:stream:s");
    assert_eq!(keyspace.sse_fanout_key("ch"), "p:sse:fanout:ch");
}

#[test]
fn default_store_config_points_at_local_services() {
    let config = ControlPlaneStoreConfig::default();
    assert_eq!(config.postgres_endpoint(), "127.0.0.1:5432/rginx_control");
    assert_eq!(config.dragonfly_endpoint(), "127.0.0.1:6379");
    assert_eq!(config.dragonfly_key_prefix, "rginx:control");
    assert_eq!(config.bootstrap_admin.display_name, "Local Admin");
}

#[test]
fn store_config_from_environment_fills_defaults_and_trims_names() {
    let mut env = empty_environment();
    env.db_port = Some("6543".to_string());
    env.bootstrap_admin_username = Some("  root  ".to_string());
    let config = ControlPlaneStoreConfig::from_environment(&env).expect("config should load");
    assert_eq!(config.db_port, 6543);
    assert_eq!(config.db_max_connections, 10);
    assert_eq!(config.bootstrap_admin.username, "root");
    assert_eq!(config.postgres_endpoint(), "127.0.0.1:6543/rginx_control");
}

#[test]
fn store_config_from_environment_reports_the_first_refused_setting() {
    let mut env = empty_environment();
    env.bootstrap_admin_username = Some("   ".to_string());
    env.db_port = Some("x".to_string());
    assert_eq!(
        ControlPlaneStoreConfig::from_environment(&env).unwrap_err(),
        "RGINX_CONTROL_BOOTSTRAP_ADMIN_USERNAME should not be empty"
    );
    let mut env = empty_environment();
    env.bootstrap_admin_password = Some(String::new());
    assert_eq!(
        ControlPlaneStoreConfig::from_environment(&env).unwrap_err(),
        "RGINX_CONTROL_BOOTSTRAP_ADMIN_PASSWORD should not be empty"
    );
    let mut env = empty_environment();
    env.bootstrap_admin_display_name = Some(" ".to_string());
    assert_eq!(
        ControlPlaneStoreConfig::from_environment(&env).unwrap_err(),
        "RGINX_CONTROL_BOOTSTRAP_ADMIN_DISPLAY_NAME should not be empty"
    );
    let mut env = empty_environment();
    env.db_port = Some("70000".to_string());
    assert_eq!(
        ControlPlaneStoreConfig::from_environment(&env).unwrap_err(),
        "RGINX_CONTROL_DB_PORT should be a valid u16"
    );
    let mut env = empty_environment();
    env.db_max_connections = Some("-1".to_string());
    assert_eq!(
        ControlPlaneStoreConfig::from_environment(&env).unwrap_err(),
        "RGINX_CONTROL_DB_MAX_CONNECTIONS should be a valid u32"
    );
    let mut env = empty_environment();
    env.dragonfly_port = Some("".to_string());
    assert_eq!(
        ControlPlaneStoreConfig::from_environment(&env).unwrap_err(),
        "RGINX_CONTROL_DRAGONFLY_PORT should be a valid u16"
    );
}

#[test]
fn dependency_endpoint_takes_the_first_match() {
    let deps = vec![
        BackendDependencyStatus {
            name: "dragonfly".to_string(),
            endpoint: "cache:6379".to_string(),
            status: "ok".to_string(),
        },
        BackendDependencyStatus {
            name: "postgres".to_string(),
            endpoint: "db:5432/a".to_string(),
            status: "ok".to_string(),
        },
        BackendDependencyStatus {
            name: "postgres".to_string(),
            endpoint: "db:5432/b".to_string(),
            status: "ok".to_string(),
        },
    ];
    assert_eq!(dependency_endpoint(&deps, "postgres"), Some("db:5432/a".to_string()));
    assert_eq!(dependency_endpoint(&deps, "other"), None);
}

#[test]
fn count_conversions_report_out_of_range_values() {
    assert_eq!(count_to_u32(7, "nodes"), Ok(7));
    assert_eq!(count_to_u32(-1, "nodes").unwrap_err(), "nodes should fit into u32");
    assert_eq!(count_to_u32(1 << 40, "nodes").unwrap_err(), "nodes should fit into u32");
    assert_eq!(count_to_u64(-5, "rows").unwrap_err(), "rows should fit into u64");
    assert_eq!(option_u64_to_i64(None, "v"), Ok(None));
    assert_eq!(option_u64_to_i64(Some(u64::MAX), "v").unwrap_err(), "v should fit into i64");
    assert_eq!(option_u32_to_i32(Some(3), "v"), Ok(Some(3)));
    assert_eq!(option_u32_to_i32(Some(u32::MAX), "v").unwrap_err(), "v should fit into i32");
    assert_eq!(option_i64_to_u64(Some(-2), "v").unwrap_err(), "v should fit into u64");
    assert_eq!(option_i32_to_u32(Some(9), "v"), Ok(Some(9)));
    assert_eq!(unix_time_ms(-1).unwrap_err(), "timestamp should fit into unix milliseconds");
    assert_eq!(unix_time_ms(1_713_513_600_000), Ok(1_713_513_600_000));
}

#[test]
fn cloned_keyspace_keeps_its_prefix() {
    let keys = DragonflyKeyspace::new("rginx:control");
    let copy = keys.clone();
    assert_eq!(copy.prefix(), "rginx:control");
    assert_eq!(copy.session_key("sess_01"), keys.session_key("sess_01"));
}
