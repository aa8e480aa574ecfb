//! Labels and summary rows that the console shows.
use vstd::prelude::*;

use crate::display::StreamState;
use crate::dns::{DnsRuntimeQueryStat, DnsRuntimeStatus};
use crate::model::{AuthRole, AuthenticatedActor};
use crate::runtime::{HttpCountersSnapshot, ReloadResultSnapshot, RuntimeStatusSnapshot};
use crate::text::{dec, push_str, push_u64, str_eq, string_of};

verus! {

pub open spec fn spec_role_label(role: AuthRole) -> Seq<char> {
    match role {
        AuthRole::SuperAdmin => "管理员"@,
    }
}

/// The console's name of a role.
pub fn role_label(role: AuthRole) -> (r: &'static str)
    ensures
        r@ == spec_role_label(role),
{
    match role {
        AuthRole::SuperAdmin => "管理员",
    }
}

/// The name of the actor's first role, or the administrator's name when it has none.
pub fn role_summary(actor: &AuthenticatedActor) -> (r: String)
    ensures
        r@ == (if actor.user.roles@.len() > 0 {
            spec_role_label(actor.user.roles@[0])
        } else {
            "管理员"@
        }),
{
    if actor.user.roles.len() > 0 {
        string_of(role_label(actor.user.roles[0]))
    } else {
        string_of("管理员")
    }
}

pub open spec fn spec_stream_state_text(state: StreamState) -> Seq<char> {
    match state {
        StreamState::Idle => "未连接"@,
        StreamState::Connecting => "连接中"@,
        StreamState::Live => "在线"@,
        StreamState::Reconnecting => "重连中"@,
        StreamState::Error => "异常"@,
    }
}

/// The console's words for an event stream's state.
pub fn stream_state_text(state: StreamState) -> (r: &'static str)
    ensures
        r@ == spec_stream_state_text(state),
{
    match state {
        StreamState::Idle => "未连接",
        StreamState::Connecting => "连接中",
        StreamState::Live => "在线",
        StreamState::Reconnecting => "重连中",
        StreamState::Error => "异常",
    }
}

/// "Enabled" or "not enabled".
pub fn bool_switch_label(value: bool) -> (r: &'static str)
    ensures
        r@ == (if value {
            "已启用"@
        } else {
            "未启用"@
        }),
{
    if value {
        "已启用"
    } else {
        "未启用"
    }
}

/// The console's words for a status value; values it has no words for are shown as they are.
pub open spec fn spec_status_label(v: Seq<char>) -> Seq<char> {
    if v == "super_admin"@ {
        "管理员"@
    } else if v == "critical"@ {
        "严重"@
    } else if v == "warning"@ {
        "提醒"@
    } else if v == "provisioning"@ {
        "初始化中"@
    } else if v == "online"@ {
        "在线"@
    } else if v == "draining"@ {
        "排空中"@
    } else if v == "offline"@ {
        "离线"@
    } else if v == "drifted"@ {
        "漂移"@
    } else if v == "draft"@ {
        "草稿"@
    } else if v == "pending"@ {
        "待处理"@
    } else if v == "running"@ {
        "进行中"@
    } else if v == "paused"@ {
        "已暂停"@
    } else if v == "succeeded"@ {
        "已完成"@
    } else if v == "failed"@ {
        "失败"@
    } else if v == "rolled_back"@ {
        "已回滚"@
    } else if v == "dispatched"@ {
        "已派发"@
    } else if v == "acknowledged"@ {
        "已确认"@
    } else if v == "cancelled"@ {
        "已取消"@
    } else if v == "active"@ {
        "生效中"@
    } else if v == "apply_revision"@ {
        "下发版本"@
    } else if v == "rollback_revision"@ {
        "回滚版本"@
    } else if v == "valid"@ {
        "通过"@
    } else if v == "invalid"@ {
        "未通过"@
    } else if v == "published"@ {
        "已发布"@
    } else if v == "static_ip"@ {
        "静态 IP"@
    } else if v == "cluster"@ {
        "集群"@
    } else if v == "node"@ {
        "节点"@
    } else if v == "upstream"@ {
        "上游"@
    } else if v == "static"@ {
        "静态值"@
    } else if v == "none"@ {
        "未启用"@
    } else if v == "configured"@ {
        "已配置"@
    } else if v == "loaded"@ {
        "已加载"@
    } else if v == "empty"@ {
        "空缓存"@
    } else if v == "ok"@ {
        "正常"@
    } else {
        v
    }
}

/// The console's words for a status value.
pub fn status_label<'a>(value: &'a str) -> (r: &'a str)
    ensures
        r@ == spec_status_label(value@),
{
    if str_eq(value, "super_admin") {
        "管理员"
    } else if str_eq(value, "critical") {
        "严重"
    } else if str_eq(value, "warning") {
        "提醒"
    } else if str_eq(value, "provisioning") {
        "初始化中"
    } else if str_eq(value, "online") {
        "在线"
    } else if str_eq(value, "draining") {
        "排空中"
    } else if str_eq(value, "offline") {
        "离线"
    } else if str_eq(value, "drifted") {
        "漂移"
    } else if str_eq(value, "draft") {
        "草稿"
    } else if str_eq(value, "pending") {
        "待处理"
    } else if str_eq(value, "running") {
        "进行中"
    } else if str_eq(value, "paused") {
        "已暂停"
    } else if str_eq(value, "succeeded") {
        "已完成"
    } else if str_eq(value, "failed") {
        "失败"
    } else if str_eq(value, "rolled_back") {
        "已回滚"
    } else if str_eq(value, "dispatched") {
        "已派发"
    } else if str_eq(value, "acknowledged") {
        "已确认"
    } else if str_eq(value, "cancelled") {
        "已取消"
    } else if str_eq(value, "active") {
        "生效中"
    } else if str_eq(value, "apply_revision") {
        "下发版本"
    } else if str_eq(value, "rollback_revision") {
        "回滚版本"
    } else if str_eq(value, "valid") {
        "通过"
    } else if str_eq(value, "invalid") {
        "未通过"
    } else if str_eq(value, "published") {
        "已发布"
    } else if str_eq(value, "static_ip") {
        "静态 IP"
    } else if str_eq(value, "cluster") {
        "集群"
    } else if str_eq(value, "node") {
        "节点"
    } else if str_eq(value, "upstream") {
        "上游"
    } else if str_eq(value, "static") {
        "静态值"
    } else if str_eq(value, "none") {
        "未启用"
    } else if str_eq(value, "configured") {
        "已配置"
    } else if str_eq(value, "loaded") {
        "已加载"
    } else if str_eq(value, "empty") {
        "空缓存"
    } else if str_eq(value, "ok") {
        "正常"
    } else {
        value
    }
}

// ---------------------------------------------------------------- DNS runtime

/// The query's zone, or "no zone matched".
pub fn dns_query_zone_label(query: &DnsRuntimeQueryStat) -> (r: String)
    ensures
        r@ == (match query.zone_name {
            Some(z) => z@,
            None => "未命中 Zone"@,
        }),
{
    match &query.zone_name {
        Some(z) => string_of(z.as_str()),
        None => string_of("未命中 Zone"),
    }
}

/// Failed answers of a query: NXDOMAIN and SERVFAIL, saturating at the largest count.
pub fn dns_query_error_total(query: &DnsRuntimeQueryStat) -> (r: u64)
    ensures
        r == (if query.response_nxdomain_total + query.response_servfail_total > u64::MAX {
            u64::MAX as int
        } else {
            query.response_nxdomain_total + query.response_servfail_total
        }),
{
    query.response_nxdomain_total.saturating_add(query.response_servfail_total)
}

pub open spec fn spec_error_total(query: DnsRuntimeQueryStat) -> nat {
    if query.response_nxdomain_total + query.response_servfail_total > u64::MAX {
        u64::MAX as nat
    } else {
        (query.response_nxdomain_total + query.response_servfail_total) as nat
    }
}

pub open spec fn spec_query_summary(query: DnsRuntimeQueryStat) -> Seq<char> {
    query.qname@ + " · 查询 "@ + dec(query.query_total as nat) + " · 返回 "@ + dec(query.answer_total as nat)
}

pub open spec fn spec_query_error_summary(query: DnsRuntimeQueryStat) -> Seq<char> {
    query.qname@ + " · 异常 "@ + dec(spec_error_total(query))
}

/// `name · queries n · answers m`.
pub fn dns_query_summary(query: &DnsRuntimeQueryStat) -> (r: String)
    ensures
        r@ == spec_query_summary(*query),
{
    let mut r = string_of(query.qname.as_str());
    push_str(&mut r, " · 查询 ");
    push_u64(&mut r, query.query_total);
    push_str(&mut r, " · 返回 ");
    push_u64(&mut r, query.answer_total);
    r
}

/// `name · failures n`.
pub fn dns_query_error_summary(query: &DnsRuntimeQueryStat) -> (r: String)
    ensures
        r@ == spec_query_error_summary(*query),
{
    let mut r = string_of(query.qname.as_str());
    push_str(&mut r, " · 异常 ");
    push_u64(&mut r, dns_query_error_total(query));
    r
}

pub open spec fn spec_bind_summary(runtime: DnsRuntimeStatus) -> Seq<char> {
    (match runtime.udp_bind_addr {
        Some(a) => a@,
        None => "udp -"@,
    }) + " · "@ + (match runtime.tcp_bind_addr {
        Some(a) => a@,
        None => "tcp -"@,
    })
}

/// The UDP and TCP addresses of a node's DNS server.
pub fn dns_bind_summary(runtime: Option<&DnsRuntimeStatus>) -> (r: String)
    ensures
        r@ == (match runtime {
            Some(rt) => spec_bind_summary(*rt),
            None => "节点未上报本地权威 DNS 监听"@,
        }),
{
    match runtime {
        None => string_of("节点未上报本地权威 DNS 监听"),
        Some(rt) => {
            let mut r = match &rt.udp_bind_addr {
                Some(a) => string_of(a.as_str()),
                None => string_of("udp -"),
            };
            push_str(&mut r, " · ");
            match &rt.tcp_bind_addr {
                Some(a) => push_str(&mut r, a.as_str()),
                None => push_str(&mut r, "tcp -"),
            }
            r
        },
    }
}

pub open spec fn pair_views(v: Seq<(String, String)>) -> Seq<(Seq<char>, Seq<char>)> {
    v.map_values(|p: (String, String)| (p.0@, p.1@))
}

pub open spec fn spec_dns_runtime_rows(runtime: Option<DnsRuntimeStatus>) -> Seq<(Seq<char>, Seq<char>)> {
    match runtime {
        None => seq![
            ("监听地址"@, "未启用"@),
            ("已发布版本"@, "-"@),
            ("Zone / 记录"@, "0 / 0"@),
            ("热点请求"@, "-"@),
            ("异常请求"@, "-"@),
            ("响应统计"@, "NOERROR 0 · NXDOMAIN 0 · SERVFAIL 0"@),
        ],
        Some(rt) => seq![
            ("监听地址"@, if rt.enabled {
                spec_bind_summary(rt)
            } else {
                "未启用"@
            }),
            ("已发布版本"@, match rt.published_revision_id {
                Some(id) => id@,
                None => "-"@,
            }),
            ("Zone / 记录"@, dec(rt.zone_count as nat) + " / "@ + dec(rt.record_count as nat)),
            ("查询量"@, dec(rt.query_total as nat)),
            ("热点请求"@, if rt.hot_queries@.len() > 0 {
                spec_query_summary(rt.hot_queries@[0])
            } else {
                "-"@
            }),
            ("异常请求"@, if rt.error_queries@.len() > 0 {
                spec_query_error_summary(rt.error_queries@[0])
            } else {
                "-"@
            }),
            ("响应统计"@, "NOERROR "@ + dec(rt.response_noerror_total as nat) + " · NXDOMAIN "@ + dec(
                rt.response_nxdomain_total as nat,
            ) + " · SERVFAIL "@ + dec(rt.response_servfail_total as nat)),
        ],
    }
}

fn pair(label: &str, value: String) -> (p: (String, String))
    ensures
        p.0@ == label@,
        p.1 == value,
{
    (string_of(label), value)
}

/// The rows of a node's DNS summary card.
pub fn dns_runtime_summary_rows(runtime: Option<&DnsRuntimeStatus>) -> (rows: Vec<(String, String)>)
    ensures
        pair_views(rows@) == spec_dns_runtime_rows(
            match runtime {
                Some(rt) => Some(*rt),
                None => None,
            },
        ),
{
    let mut rows: Vec<(String, String)> = Vec::new();
    match runtime {
        None => {
            rows.push(pair("监听地址", string_of("未启用")));
            rows.push(pair("已发布版本", string_of("-")));
            rows.push(pair("Zone / 记录", string_of("0 / 0")));
            rows.push(pair("热点请求", string_of("-")));
            rows.push(pair("异常请求", string_of("-")));
            rows.push(pair("响应统计", string_of("NOERROR 0 · NXDOMAIN 0 · SERVFAIL 0")));
        },
        Some(rt) => {
            let listen = if rt.enabled {
                dns_bind_summary(Some(rt))
            } else {
                string_of("未启用")
            };
            rows.push(pair("监听地址", listen));
            let published = match &rt.published_revision_id {
                Some(id) => string_of(id.as_str()),
                None => string_of("-"),
            };
            rows.push(pair("已发布版本", published));
            let mut counts = String::new();
            push_u64(&mut counts, rt.zone_count);
            push_str(&mut counts, " / ");
            push_u64(&mut counts, rt.record_count);
            rows.push(pair("Zone / 记录", counts));
            let mut total = String::new();
            push_u64(&mut total, rt.query_total);
            rows.push(pair("查询量", total));
            let hot = if rt.hot_queries.len() > 0 {
                dns_query_summary(&rt.hot_queries[0])
            } else {
                string_of("-")
            };
            rows.push(pair("热点请求", hot));
            let failing = if rt.error_queries.len() > 0 {
                dns_query_error_summary(&rt.error_queries[0])
            } else {
                string_of("-")
            };
            rows.push(pair("异常请求", failing));
            let mut responses = string_of("NOERROR ");
            push_u64(&mut responses, rt.response_noerror_total);
            push_str(&mut responses, " · NXDOMAIN ");
            push_u64(&mut responses, rt.response_nxdomain_total);
            push_str(&mut responses, " · SERVFAIL ");
            push_u64(&mut responses, rt.response_servfail_total);
            rows.push(pair("响应统计", responses));
        },
    }
    assert(pair_views(rows@) =~= spec_dns_runtime_rows(
        match runtime {
            Some(rt) => Some(*rt),
            None => None,
        },
    ));
    rows
}

// ---------------------------------------------------------------- node runtime

pub open spec fn spec_reload_result(result: Option<ReloadResultSnapshot>) -> Seq<char> {
    match result {
        None => "-"@,
        Some(r) => match r.outcome.success_revision {
            Some(rev) => "成功 · 版本 "@ + dec(rev as nat),
            None => match r.outcome.failure_error {
                Some(e) => "失败 · "@ + e@,
                None => r.outcome.rendered@,
            },
        },
    }
}

/// The outcome of a node's last reload: the revision it activated, the error
/// it failed with, or the outcome as JSON.
pub fn format_reload_result(result: Option<&ReloadResultSnapshot>) -> (r: String)
    ensures
        r@ == spec_reload_result(
            match result {
                Some(x) => Some(*x),
                None => None,
            },
        ),
{
    match result {
        None => string_of("-"),
        Some(x) => match x.outcome.success_revision {
            Some(rev) => {
                let mut r = string_of("成功 · 版本 ");
                push_u64(&mut r, rev);
                r
            },
            None => match &x.outcome.failure_error {
                Some(e) => {
                    let mut r = string_of("失败 · ");
                    push_str(&mut r, e.as_str());
                    r
                },
                None => string_of(x.outcome.rendered.as_str()),
            },
        },
    }
}

pub open spec fn spec_runtime_rows(
    runtime: Option<RuntimeStatusSnapshot>,
    counters: Option<HttpCountersSnapshot>,
) -> Seq<(Seq<char>, Seq<char>)> {
    match runtime {
        None => Seq::empty(),
        Some(rt) => seq![
            ("配置路径"@, match rt.config_path {
                Some(p) => p@,
                None => "-"@,
            }),
            ("工作线程"@, match rt.worker_threads {
                Some(n) => dec(n as nat),
                None => "-"@,
            }),
            ("接入线程"@, dec(rt.accept_workers as nat)),
            ("监听器"@, dec(rt.listeners@.len())),
            ("虚拟主机"@, dec(rt.total_vhosts as nat)),
            ("路由"@, dec(rt.total_routes as nat)),
            ("上游"@, dec(rt.total_upstreams as nat)),
            ("活跃连接"@, dec(rt.active_connections as nat)),
            ("HTTP/3 活跃连接"@, dec(rt.http3_active_connections as nat)),
            ("请求数"@, match counters {
                Some(c) => dec(c.downstream_requests as nat),
                None => "0"@,
            }),
            ("响应数"@, match counters {
                Some(c) => dec(c.downstream_responses as nat),
                None => "0"@,
            }),
            ("重载结果"@, spec_reload_result(rt.reload.last_result)),
        ],
    }
}

fn number_text(n: u64) -> (s: String)
    ensures
        s@ == dec(n as nat),
{
    let mut s = String::new();
    push_u64(&mut s, n);
    s
}

/// The rows of a node's runtime summary card.
pub fn runtime_summary_rows(
    runtime: Option<&RuntimeStatusSnapshot>,
    counters: Option<&HttpCountersSnapshot>,
) -> (rows: Vec<(String, String)>)
    ensures
        pair_views(rows@) == spec_runtime_rows(
            match runtime {
                Some(x) => Some(*x),
                None => None,
            },
            match counters {
                Some(c) => Some(*c),
                None => None,
            },
        ),
{
    let mut rows: Vec<(String, String)> = Vec::new();
    let rt = match runtime {
        None => {
            assert(pair_views(rows@) =~= Seq::<(Seq<char>, Seq<char>)>::empty());
            return rows;
        },
        Some(rt) => rt,
    };
    let config_path = match &rt.config_path {
        Some(p) => string_of(p.as_str()),
        None => string_of("-"),
    };
    rows.push(pair("配置路径", config_path));
    let workers = match rt.worker_threads {
        Some(n) => number_text(n as u64),
        None => string_of("-"),
    };
    rows.push(pair("工作线程", workers));
    rows.push(pair("接入线程", number_text(rt.accept_workers as u64)));
    rows.push(pair("监听器", number_text(rt.listeners.len() as u64)));
    rows.push(pair("虚拟主机", number_text(rt.total_vhosts as u64)));
    rows.push(pair("路由", number_text(rt.total_routes as u64)));
    rows.push(pair("上游", number_text(rt.total_upstreams as u64)));
    rows.push(pair("活跃连接", number_text(rt.active_connections)));
    rows.push(pair("HTTP/3 活跃连接", number_text(rt.http3_active_connections)));
    let requests = match counters {
        Some(c) => number_text(c.downstream_requests),
        None => string_of("0"),
    };
    rows.push(pair("请求数", requests));
    let responses = match counters {
        Some(c) => number_text(c.downstream_responses),
        None => string_of("0"),
    };
    rows.push(pair("响应数", responses));
    let reload = match &rt.reload.last_result {
        Some(x) => format_reload_result(Some(x)),
        None => format_reload_result(None),
    };
    rows.push(pair("重载结果", reload));
    assert(pair_views(rows@) =~= spec_runtime_rows(
        Some(*rt),
        match counters {
            Some(c) => Some(*c),
            None => None,
        },
    ));
    rows
}

// ---------------------------------------------------------------- routes and shell

/// The console's pages.
#[derive(Clone, Debug)]
pub enum Route {
    Login,
    Dashboard,
    EdgeNodes,
    NodeDetail { node_id: String },
    NodeTls { node_id: String },
    NotFound { segments: Vec<String> },
}

/// Whether the route is the overview, which the sidebar's first link marks.
pub fn is_dashboard_route(route: &Route) -> (r: bool)
    ensures
        r == (*route is Dashboard),
{
    match route {
        Route::Dashboard => true,
        _ => false,
    }
}

/// Whether the route is one of the node pages, which the sidebar's node link marks.
pub fn is_nodes_route(route: &Route) -> (r: bool)
    ensures
        r == (*route is EdgeNodes || *route is NodeDetail || *route is NodeTls),
{
    match route {
        Route::EdgeNodes | Route::NodeDetail { .. } | Route::NodeTls { .. } => true,
        _ => false,
    }
}

pub open spec fn spec_route_title(route: Route) -> Seq<char> {
    match route {
        Route::Login => "控制台登录"@,
        Route::Dashboard => "控制台总览"@,
        Route::EdgeNodes => "节点概览"@,
        Route::NodeDetail { .. } => "节点详情"@,
        Route::NodeTls { .. } => "节点 TLS"@,
        Route::NotFound { .. } => "页面不存在"@,
    }
}

/// The title that the shell shows for a page.
pub fn route_title(route: &Route) -> (r: &'static str)
    ensures
        r@ == spec_route_title(*route),
{
    match route {
        Route::Login => "控制台登录",
        Route::Dashboard => "控制台总览",
        Route::EdgeNodes => "节点概览",
        Route::NodeDetail { .. } => "节点详情",
        Route::NodeTls { .. } => "节点 TLS",
        Route::NotFound { .. } => "页面不存在",
    }
}

/// The name that the shell shows for the signed-in user.
pub fn actor_name(actor: Option<&AuthenticatedActor>) -> (r: String)
    ensures
        r@ == (match actor {
            Some(a) => a.user.display_name@,
            None => "未登录"@,
        }),
{
    match actor {
        Some(a) => string_of(a.user.display_name.as_str()),
        None => string_of("未登录"),
    }
}

/// The line under the user's name: syncing, the user name and role, or a prompt to sign in.
pub fn actor_meta(loading: bool, actor: Option<&AuthenticatedActor>) -> (r: String)
    ensures
        r@ == (if loading {
            "正在同步会话"@
        } else {
            match actor {
                Some(a) => a.user.username@ + " · 管理员"@,
                None => "请先登录控制台"@,
            }
        }),
{
    if loading {
        return string_of("正在同步会话");
    }
    match actor {
        Some(a) => {
            let mut r = string_of(a.user.username.as_str());
            push_str(&mut r, " · 管理员");
            r
        },
        None => string_of("请先登录控制台"),
    }
}

/// The avatar letter: the name's first character, or `R`.
pub fn avatar_char(name: &str) -> (c: char)
    ensures
        c == (if name@.len() > 0 {
            name@[0]
        } else {
            'R'
        }),
{
    let v = crate::text::chars_of(name);
    if v.len() > 0 {
        v[0]
    } else {
        'R'
    }
}

fn strings5(a: &str, b: &str, c: &str, d: &str, e: &str) -> (r: Vec<String>)
    ensures
        crate::rollout::str_views(r@) == seq![a@, b@, c@, d@, e@],
{
    let r = vec![string_of(a), string_of(b), string_of(c), string_of(d), string_of(e)];
    assert(crate::rollout::str_views(r@) =~= seq![a@, b@, c@, d@, e@]);
    r
}

/// The time axis of the overview's trend charts.
pub fn default_trend_x_ticks() -> (r: Vec<String>)
    ensures
        crate::rollout::str_views(r@) == seq!["30 天前"@, "23 天前"@, "16 天前"@, "9 天前"@, "今天"@],
{
    strings5("30 天前", "23 天前", "16 天前", "9 天前", "今天")
}

/// The value axis of the traffic chart.
pub fn traffic_y_ticks() -> (r: Vec<String>)
    ensures
        crate::rollout::str_views(r@) == seq!["0"@, "250 GB"@, "500 GB"@, "750 GB"@, "1 TB"@],
{
    strings5("0", "250 GB", "500 GB", "750 GB", "1 TB")
}

/// The value axis of the bandwidth chart.
pub fn bandwidth_y_ticks() -> (r: Vec<String>)
    ensures
        crate::rollout::str_views(r@) == seq!["0"@, "250 Mbps"@, "500 Mbps"@, "750 Mbps"@, "1 Gbps"@],
{
    strings5("0", "250 Mbps", "500 Mbps", "750 Mbps", "1 Gbps")
}

/// The message of an event stream error: the payload's message, or a fallback.
pub fn stream_error_message(payload_message: Option<String>) -> (r: String)
    ensures
        r@ == (match payload_message {
            Some(m) => m@,
            None => "实时事件流返回异常"@,
        }),
{
    match payload_message {
        Some(m) => m,
        None => string_of("实时事件流返回异常"),
    }
}

} // verus!
