use rginx_control::compile::{
    build_compile_summary, config_validation_report, sorted_names, CompiledListenerBindingSummary, ConfigFacts, ListenerFacts,
};
use rginx_control::error::ServiceError;

fn binding(name: &str, transport: &str, addr: &str, protocols: &[&str]) -> CompiledListenerBindingSummary {
    CompiledListenerBindingSummary {
        binding_name: name.to_string(),
        transport: transport.to_string(),
        listen_addr: addr.to_string(),
        protocols: protocols.iter().map(|p| p.to_string()).collect(),
    }
}

fn listener(id: &str, name: &str, certificate: Option<&str>, early: bool, tls: bool) -> ListenerFacts {
    ListenerFacts {
        id: id.to_string(),
        name: name.to_string(),
        listen_addr: "0.0.0.0:443".to_string(),
        binding_count: 2,
        tls_enabled: tls,
        http3_enabled: early,
        http3_early_data_enabled: early,
        has_tls_profile: tls,
        default_certificate: certificate.map(str::to_string),
        bindings: vec![
            binding("tcp", "tcp", "0.0.0.0:443", &["http1", "http2"]),
            binding("udp", "udp", "0.0.0.0:443", &["http3"]),
        ],
    }
}

fn facts(listeners: Vec<ListenerFacts>, total: usize) -> ConfigFacts {
    ConfigFacts {
        listeners,
        total_listener_count: total,
        total_listener_binding_count: 4,
        total_vhost_count: 3,
        total_route_count: 9,
        upstream_names: vec!["zeta".to_string(), "alpha".to_string(), "beta".to_string()],
        worker_threads: Some(4),
        accept_workers: 1,
        tls_enabled: true,
        http3_enabled: true,
        default_server_names: vec!["localhost".to_string()],
        default_vhost_tls: true,
        vhost_tls: vec![false, true, true],
    }
}

#[test]
fn sorted_names_orders_by_code_point() {
    let names = vec!["b".to_string(), "B".to_string(), "a".to_string(), "b".to_string(), "".to_string()];
    assert_eq!(sorted_names(&names), vec!["", "B", "a", "b", "b"]);
}

#[test]
fn compile_summary_counts_listeners_and_tls() {
    let summary = build_compile_summary(&facts(
        vec![listener("edge", "edge", Some("edge.pem"), true, true), listener("admin", "admin", None, false, false)],
        2,
    ))
    .expect("summary should be built");
    assert_eq!(summary.listener_model, "explicit");
    assert_eq!(summary.listener_count, 2);
    assert_eq!(summary.listener_binding_count, 4);
    assert_eq!(summary.total_vhost_count, 3);
    assert_eq!(summary.total_route_count, 9);
    assert_eq!(summary.upstream_count, 3);
    assert_eq!(summary.upstream_names, vec!["alpha", "beta", "zeta"]);
    assert_eq!(summary.worker_threads, Some(4));
    assert_eq!(summary.accept_workers, 1);
    assert_eq!(summary.http3_early_data_enabled_listeners, 1);
    assert_eq!(summary.default_server_names, vec!["localhost"]);
    assert_eq!(summary.listeners.len(), 2);
    assert_eq!(summary.listeners[0].listener_id, "edge");
    assert_eq!(summary.listeners[0].binding_count, 2);
    assert_eq!(summary.listeners[0].default_certificate.as_deref(), Some("edge.pem"));
    assert_eq!(summary.listeners[0].bindings[1].protocols, vec!["http3"]);
    assert_eq!(summary.listeners[1].default_certificate, None);
    assert_eq!(summary.tls.listener_tls_profiles, 1);
    assert_eq!(summary.tls.vhost_tls_overrides, 3);
    assert_eq!(summary.tls.default_certificate_bindings, vec!["edge=edge.pem"]);
}

#[test]
fn compile_summary_single_default_listener_is_legacy() {
    let summary = build_compile_summary(&facts(vec![listener("default", "default", None, false, false)], 1))
        .expect("summary should be built");
    assert_eq!(summary.listener_model, "legacy");
    assert_eq!(summary.tls.default_certificate_bindings, Vec::<String>::new());
}

#[test]
fn compile_summary_rejects_counts_beyond_u32() {
    let mut oversized = facts(vec![listener("edge", "edge", None, false, false)], 1);
    oversized.total_route_count = (u32::MAX as usize) + 1;
    match build_compile_summary(&oversized) {
        Err(ServiceError::Internal(m)) => assert_eq!(m, "total_route_count should fit into u32"),
        other => panic!("unexpected {other:?}"),
    }
}

#[test]
fn validation_report_covers_blank_failed_and_compiled_texts() {
    let blank = config_validation_report("conf/app.ron", "  \n", Err("unused".to_string()), 7).unwrap();
    assert!(!blank.valid);
    assert_eq!(blank.issues, vec!["config_text should not be empty"]);
    assert_eq!(blank.normalized_source_path, "conf/app.ron");
    assert!(blank.summary.is_none());

    let failed = config_validation_report("conf/app.ron", "(", Err("unexpected end of input".to_string()), 8).unwrap();
    assert!(!failed.valid);
    assert_eq!(failed.issues, vec!["unexpected end of input"]);
    assert_eq!(failed.validated_at_unix_ms, 8);

    let compiled = facts(vec![listener("default", "default", None, false, false)], 1);
    let ok = config_validation_report("conf/app.ron", "(listeners: [])", Ok(compiled), 9).unwrap();
    assert!(ok.valid);
    assert!(ok.issues.is_empty());
    assert_eq!(ok.summary.expect("valid report carries a summary").listener_model, "legacy");
}

#[test]
fn compile_summary_uses_config_semantics() {
    let config = ConfigFacts {
        listeners: vec![ListenerFacts {
            id: "default".to_string(),
            name: "default".to_string(),
            listen_addr: "127.0.0.1:18080".to_string(),
            binding_count: 1,
            tls_enabled: false,
            http3_enabled: false,
            http3_early_data_enabled: false,
            has_tls_profile: false,
            default_certificate: None,
            bindings: vec![binding("tcp", "tcp", "127.0.0.1:18080", &["http1", "http2"])],
        }],
        total_listener_count: 1,
        total_listener_binding_count: 1,
        total_vhost_count: 1,
        total_route_count: 1,
        upstream_names: Vec::new(),
        worker_threads: Some(2),
        accept_workers: 1,
        tls_enabled: false,
        http3_enabled: false,
        default_server_names: vec!["localhost".to_string()],
        default_vhost_tls: false,
        vhost_tls: Vec::new(),
    };
    let summary = build_compile_summary(&config).expect("summary should be built");

    assert_eq!(summary.listener_count, 1);
    assert_eq!(summary.total_route_count, 1);
    assert_eq!(summary.default_server_names, vec!["localhost".to_string()]);
}
