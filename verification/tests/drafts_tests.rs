use rginx_control::console::{actor_meta, actor_name, avatar_char, default_trend_x_ticks, is_dashboard_route, is_nodes_route, route_title, Route};
use rginx_control::dns::{DnsAnswerTarget, DnsPlan, DnsRecordSet, DnsRecordType, DnsTargetKind, DnsZoneSpec};
use rginx_control::drafts::{
    check_base_revision, check_publish, diff_target_revision, dns_validation_report, draft_diff,
    draft_not_found, listener_model, unknown_cluster, validate_config_draft_fields,
    validate_dns_draft_fields, DraftKind,
};
use rginx_control::error::ServiceError;
use rginx_control::model::{AuthRole, AuthSessionSummary, AuthUserSummary, AuthenticatedActor};

fn actor_with_roles(roles: Vec<AuthRole>) -> AuthenticatedActor {
    AuthenticatedActor {
        user: AuthUserSummary {
            user_id: "user-1".to_string(),
            username: "console-user".to_string(),
            display_name: "Console User".to_string(),
            active: true,
            roles,
            created_at_unix_ms: 0,
        },
        session: AuthSessionSummary { session_id: "sess-1".to_string(), issued_at_unix_ms: 0, expires_at_unix_ms: 0 },
    }
}

fn bad(r: Result<impl std::fmt::Debug, ServiceError>) -> String {
    match r {
        Err(ServiceError::BadRequest(m)) => m,
        other => panic!("expected a bad request, got {other:?}"),
    }
}

#[test]
fn route_group_helpers_cover_stage_four_routes() {
    assert!(is_dashboard_route(&Route::Dashboard));
    assert!(!is_dashboard_route(&Route::EdgeNodes));

    assert!(is_nodes_route(&Route::EdgeNodes));
    assert!(is_nodes_route(&Route::NodeDetail { node_id: "n-1".to_string() }));
    assert!(is_nodes_route(&Route::NodeTls { node_id: "n-1".to_string() }));
}

#[test]
fn route_titles_are_defined_for_current_routes() {
    let cases = [
        (Route::Login, "控制台登录"),
        (Route::Dashboard, "控制台总览"),
        (Route::EdgeNodes, "节点概览"),
        (Route::NodeTls { node_id: "n-1".to_string() }, "节点 TLS"),
    ];

    for (route, expected_title) in cases {
        assert_eq!(route_title(&route), expected_title);
    }
}

#[test]
fn session_actor_fixture_keeps_single_admin_role() {
    assert_eq!(actor_with_roles(vec![AuthRole::SuperAdmin]).user.roles, vec![AuthRole::SuperAdmin]);
}

#[test]
fn shell_labels_name_the_session() {
    let actor = actor_with_roles(vec![AuthRole::SuperAdmin]);
    assert_eq!(actor_name(Some(&actor)), "Console User");
    assert_eq!(actor_name(None), "未登录");
    assert_eq!(actor_meta(true, Some(&actor)), "正在同步会话");
    assert_eq!(actor_meta(false, Some(&actor)), "console-user · 管理员");
    assert_eq!(actor_meta(false, None), "请先登录控制台");
    assert_eq!(avatar_char("Console User"), 'C');
    assert_eq!(avatar_char(""), 'R');
    assert_eq!(default_trend_x_ticks().len(), 5);
}

#[test]
fn drafts_name_their_cluster_title_and_source() {
    assert_eq!(bad(validate_config_draft_fields("c1", "t", " ")), "source_path should not be empty");
    assert_eq!(bad(validate_config_draft_fields("", "", "")), "cluster_id should not be empty");
    assert!(validate_config_draft_fields("c1", "t", "inline.ron").is_ok());
    let plan = DnsPlan { cluster_id: "c2".to_string(), zones: Vec::new() };
    assert_eq!(bad(validate_dns_draft_fields("c1", "t", &plan)), "plan.cluster_id must match request cluster_id");
    assert_eq!(bad(validate_dns_draft_fields("c1", " ", &plan)), "title should not be empty");
    assert!(matches!(unknown_cluster("c9"), ServiceError::BadRequest(m) if m == "cluster `c9` does not exist"));
    assert_eq!(
        bad(check_base_revision("rev1", "c2", "c1")),
        "base revision `rev1` belongs to cluster `c2`, not `c1`"
    );
    assert!(check_base_revision("rev1", "c1", "c1").is_ok());
    assert!(matches!(draft_not_found(DraftKind::Dns, "d1"), ServiceError::NotFound(m) if m == "dns draft `d1` was not found"));
}

#[test]
fn publishing_needs_a_label_and_a_valid_draft() {
    assert_eq!(bad(check_publish(DraftKind::Config, " ", true, None, "s")), "version_label should not be empty");
    assert_eq!(
        bad(check_publish(DraftKind::Config, "v1", false, None, "s")),
        "draft is invalid; validate and fix the config before publishing"
    );
    assert_eq!(
        bad(check_publish(DraftKind::Dns, "v1", false, None, "s")),
        "dns draft is invalid; validate and fix it before publishing"
    );
    assert_eq!(check_publish(DraftKind::Dns, "v1", true, None, "draft summary").unwrap(), "draft summary");
    assert_eq!(check_publish(DraftKind::Dns, "v1", true, Some("new".to_string()), "s").unwrap(), "new");
}

#[test]
fn drafts_are_compared_with_the_chosen_revision() {
    assert_eq!(diff_target_revision(Some("a"), Some("b")), Some("a"));
    assert_eq!(diff_target_revision(None, Some("b")), Some("b"));
    assert_eq!(diff_target_revision(None, None), None);
    let d = draft_diff(DraftKind::Config, Some(("v1", "a\n")), "next", "a\nb\n");
    assert_eq!(d.left_label, "revision v1");
    assert_eq!(d.right_label, "draft next");
    assert!(d.changed);
    let e = draft_diff(DraftKind::Dns, None, "first", "");
    assert_eq!(e.left_label, "empty revision");
    assert_eq!(e.right_label, "dns draft first");
    assert!(!e.changed);
}

#[test]
fn validation_reports_count_the_plan() {
    let target = DnsAnswerTarget {
        target_id: "t".to_string(),
        kind: DnsTargetKind::StaticIp,
        value: "10.0.0.1".to_string(),
        weight: 1,
        enabled: true,
        source_cidrs: Vec::new(),
    };
    let rec = DnsRecordSet {
        record_id: "r".to_string(),
        name: "www".to_string(),
        record_type: DnsRecordType::A,
        ttl_secs: 30,
        values: Vec::new(),
        targets: vec![target.clone(), target],
    };
    let plan = DnsPlan {
        cluster_id: "c".to_string(),
        zones: vec![
            DnsZoneSpec { zone_id: "z".to_string(), zone_name: "a.com".to_string(), records: vec![rec.clone(), rec] },
            DnsZoneSpec { zone_id: "y".to_string(), zone_name: "b.com".to_string(), records: Vec::new() },
        ],
    };
    let report = dns_validation_report(&plan, Vec::new(), 42).unwrap();
    assert!(report.valid);
    assert_eq!((report.zone_count, report.record_count, report.target_count), (2, 2, 4));
    assert_eq!(report.validated_at_unix_ms, 42);
    let report = dns_validation_report(&plan, vec!["x".to_string()], 0).unwrap();
    assert!(!report.valid);
}

#[test]
fn listener_model_tells_legacy_from_explicit() {
    assert_eq!(listener_model(1, Some("default"), Some("default")), "legacy");
    assert_eq!(listener_model(2, Some("default"), Some("default")), "explicit");
    assert_eq!(listener_model(1, Some("main"), Some("default")), "explicit");
    assert_eq!(listener_model(0, None, None), "explicit");
}
