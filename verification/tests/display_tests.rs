use rginx_control::console::{
    bool_switch_label, dns_query_error_summary, dns_query_error_total, dns_query_summary,
    dns_query_zone_label, role_summary, status_label, stream_state_text,
};
use rginx_control::display::{format_bool, format_list, format_optional, stream_state_label, StreamState};
use rginx_control::dns::{DnsRecordType, DnsRuntimeQueryStat};
use rginx_control::model::{AuthRole, AuthSessionSummary, AuthUserSummary, AuthenticatedActor};

fn actor_with_roles(roles: Vec<AuthRole>) -> AuthenticatedActor {
    AuthenticatedActor {
        user: AuthUserSummary {
            user_id: "user-1".to_string(),
            username: "console-user".to_string(),
            display_name: "Console User".to_string(),
            active: true,
            roles,
            created_at_unix_ms: 0,
        },
        session: AuthSessionSummary {
            session_id: "sess-1".to_string(),
            issued_at_unix_ms: 0,
            expires_at_unix_ms: 0,
        },
    }
}

fn query(nxdomain: u64, servfail: u64) -> DnsRuntimeQueryStat {
    DnsRuntimeQueryStat {
        zone_name: Some("example.com".to_string()),
        qname: "www.example.com".to_string(),
        record_type: DnsRecordType::A,
        query_total: 7,
        answer_total: 5,
        response_noerror_total: 5,
        response_nxdomain_total: nxdomain,
        response_servfail_total: servfail,
        last_query_at_unix_ms: 0,
    }
}

#[test]
fn format_list_filters_blank_values() {
    assert_eq!(
        format_list(&vec!["alpha".to_string(), "".to_string(), " beta ".to_string()]),
        "alpha,  beta "
    );
    assert_eq!(format_list(&Vec::<String>::new()), "-");
}

#[test]
fn format_optional_and_bool_use_console_fallbacks() {
    assert_eq!(format_optional(Some("value")), "value");
    assert_eq!(format_optional(Some("")), "-");
    assert_eq!(format_optional(None), "-");

    assert_eq!(format_bool(Some(true), "启用", "停用"), "启用");
    assert_eq!(format_bool(Some(false), "启用", "停用"), "停用");
    assert_eq!(format_bool(None, "启用", "停用"), "-");
}

#[test]
fn stream_state_labels_match_css_contract() {
    assert_eq!(stream_state_label(StreamState::Idle), "idle");
    assert_eq!(stream_state_label(StreamState::Connecting), "connecting");
    assert_eq!(stream_state_label(StreamState::Live), "live");
    assert_eq!(stream_state_label(StreamState::Reconnecting), "reconnecting");
    assert_eq!(stream_state_label(StreamState::Error), "error");
}

#[test]
fn role_and_status_labels_match_console_copy() {
    assert_eq!(role_summary(&actor_with_roles(vec![AuthRole::SuperAdmin])), "管理员");
    assert_eq!(status_label("critical"), "严重");
    assert_eq!(status_label("warning"), "提醒");
    assert_eq!(status_label("super_admin"), "管理员");
    assert_eq!(status_label("unknown"), "unknown");
}

#[test]
fn stream_and_switch_labels_match_css_contract() {
    assert_eq!(stream_state_text(StreamState::Idle), "未连接");
    assert_eq!(stream_state_text(StreamState::Live), "在线");
    assert_eq!(stream_state_text(StreamState::Error), "异常");
    assert_eq!(bool_switch_label(true), "已启用");
    assert_eq!(bool_switch_label(false), "未启用");
}

#[test]
fn dns_error_total_sums_failure_buckets() {
    assert_eq!(dns_query_error_total(&query(3, 2)), 5);
}

#[test]
fn dns_error_total_saturates() {
    assert_eq!(dns_query_error_total(&query(u64::MAX, 2)), u64::MAX);
}

#[test]
fn role_summary_without_roles_names_the_administrator() {
    assert_eq!(role_summary(&actor_with_roles(Vec::new())), "管理员");
}

#[test]
fn format_list_of_only_blank_values_is_a_dash() {
    assert_eq!(format_list(&vec![" ".to_string(), "\t".to_string()]), "-");
    assert_eq!(format_optional(Some("  ")), "-");
}

#[test]
fn status_labels_cover_rollout_and_dns_words() {
    assert_eq!(status_label("rolled_back"), "已回滚");
    assert_eq!(status_label("static_ip"), "静态 IP");
    assert_eq!(status_label("ok"), "正常");
    assert_eq!(status_label(""), "");
}

#[test]
fn dns_query_texts_follow_console_format() {
    let q = query(3, 2);
    assert_eq!(dns_query_zone_label(&q), "example.com");
    let mut unmatched = query(0, 0);
    unmatched.zone_name = None;
    assert_eq!(dns_query_zone_label(&unmatched), "未命中 Zone");
    assert_eq!(dns_query_summary(&q), "www.example.com · 查询 7 · 返回 5");
    assert_eq!(dns_query_error_summary(&q), "www.example.com · 异常 5");
}
