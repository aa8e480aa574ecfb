use rginx_control::console::{dns_bind_summary, dns_runtime_summary_rows, format_reload_result, runtime_summary_rows};
use rginx_control::dns::{DnsRecordType, DnsRuntimeQueryStat, DnsRuntimeStatus};
use rginx_control::runtime::{HttpCountersSnapshot, ReloadOutcome, ReloadResultSnapshot, RuntimeStatusSnapshot};

fn rows(v: Vec<(String, String)>) -> Vec<(String, String)> {
    v
}

fn pair(a: &str, b: &str) -> (String, String) {
    (a.to_string(), b.to_string())
}

fn runtime() -> DnsRuntimeStatus {
    DnsRuntimeStatus {
        enabled: true,
        udp_bind_addr: Some("0.0.0.0:53".to_string()),
        tcp_bind_addr: None,
        published_revision_id: Some("dns_rev_1".to_string()),
        zone_count: 2,
        record_count: 9,
        query_total: 40,
        response_noerror_total: 30,
        response_nxdomain_total: 6,
        response_servfail_total: 4,
        hot_queries: vec![DnsRuntimeQueryStat {
            zone_name: None,
            qname: "a.example".to_string(),
            record_type: DnsRecordType::Aaaa,
            query_total: 12,
            answer_total: 10,
            response_noerror_total: 10,
            response_nxdomain_total: 1,
            response_servfail_total: 1,
            last_query_at_unix_ms: 0,
        }],
        error_queries: Vec::new(),
    }
}

#[test]
fn dns_summary_rows_without_a_runtime_use_placeholders() {
    assert_eq!(
        rows(dns_runtime_summary_rows(None)),
        vec![
            pair("监听地址", "未启用"),
            pair("已发布版本", "-"),
            pair("Zone / 记录", "0 / 0"),
            pair("热点请求", "-"),
            pair("异常请求", "-"),
            pair("响应统计", "NOERROR 0 · NXDOMAIN 0 · SERVFAIL 0"),
        ]
    );
    assert_eq!(dns_bind_summary(None), "节点未上报本地权威 DNS 监听");
}

#[test]
fn dns_summary_rows_report_the_runtime() {
    let rt = runtime();
    assert_eq!(dns_bind_summary(Some(&rt)), "0.0.0.0:53 · tcp -");
    assert_eq!(
        rows(dns_runtime_summary_rows(Some(&rt))),
        vec![
            pair("监听地址", "0.0.0.0:53 · tcp -"),
            pair("已发布版本", "dns_rev_1"),
            pair("Zone / 记录", "2 / 9"),
            pair("查询量", "40"),
            pair("热点请求", "a.example · 查询 12 · 返回 10"),
            pair("异常请求", "-"),
            pair("响应统计", "NOERROR 30 · NXDOMAIN 6 · SERVFAIL 4"),
        ]
    );
    let mut off = runtime();
    off.enabled = false;
    assert_eq!(dns_runtime_summary_rows(Some(&off))[0], pair("监听地址", "未启用"));
}

#[test]
fn reload_results_prefer_revision_then_error() {
    let mut result = ReloadResultSnapshot::default();
    result.outcome = ReloadOutcome { success_revision: Some(7), failure_error: None, rendered: "{}".to_string() };
    assert_eq!(format_reload_result(Some(&result)), "成功 · 版本 7");
    result.outcome = ReloadOutcome {
        success_revision: None,
        failure_error: Some("bad config".to_string()),
        rendered: "{}".to_string(),
    };
    assert_eq!(format_reload_result(Some(&result)), "失败 · bad config");
    result.outcome = ReloadOutcome { success_revision: None, failure_error: None, rendered: "\"Pending\"".to_string() };
    assert_eq!(format_reload_result(Some(&result)), "\"Pending\"");
    assert_eq!(format_reload_result(None), "-");
}

#[test]
fn runtime_rows_follow_the_card_layout() {
    assert!(runtime_summary_rows(None, None).is_empty());
    let mut rt = RuntimeStatusSnapshot::default();
    rt.accept_workers = 2;
    rt.total_routes = 3;
    rt.active_connections = 11;
    let counters = HttpCountersSnapshot { downstream_requests: 100, downstream_responses: 99, ..Default::default() };
    let rows = runtime_summary_rows(Some(&rt), Some(&counters));
    assert_eq!(rows.len(), 12);
    assert_eq!(rows[0], pair("配置路径", "-"));
    assert_eq!(rows[1], pair("工作线程", "-"));
    assert_eq!(rows[2], pair("接入线程", "2"));
    assert_eq!(rows[3], pair("监听器", "0"));
    assert_eq!(rows[5], pair("路由", "3"));
    assert_eq!(rows[7], pair("活跃连接", "11"));
    assert_eq!(rows[9], pair("请求数", "100"));
    assert_eq!(rows[10], pair("响应数", "99"));
    assert_eq!(rows[11], pair("重载结果", "-"));
    let rows = runtime_summary_rows(Some(&rt), None);
    assert_eq!(rows[9], pair("请求数", "0"));
}
