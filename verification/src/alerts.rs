//! Alerts derived from node and rollout state, most urgent first.
use vstd::prelude::*;
use vstd::seq_lib::to_multiset_insert;

use crate::model::{
    AlertSeverity, ControlPlaneAlertSummary, DeploymentStatus, DeploymentSummary,
    DnsDeploymentSummary, NodeLifecycleState, NodeSummary,
};
use crate::text::{dec, lemma_seq_lt_strict, push_str, push_u64, seq_lt, str_lt, string_of};

verus! {

/// The content of an alert, as plain values.
pub struct AlertSpec {
    pub alert_id: Seq<char>,
    pub cluster_id: Option<Seq<char>>,
    pub severity: AlertSeverity,
    pub kind: Seq<char>,
    pub title: Seq<char>,
    pub message: Seq<char>,
    pub resource_type: Seq<char>,
    pub resource_id: Seq<char>,
    pub observed_at_unix_ms: u64,
}

pub open spec fn opt_view(o: Option<String>) -> Option<Seq<char>> {
    match o {
        Some(s) => Some(s@),
        None => None,
    }
}

pub open spec fn alert_view(a: ControlPlaneAlertSummary) -> AlertSpec {
    AlertSpec {
        alert_id: a.alert_id@,
        cluster_id: opt_view(a.cluster_id),
        severity: a.severity,
        kind: a.kind@,
        title: a.title@,
        message: a.message@,
        resource_type: a.resource_type@,
        resource_id: a.resource_id@,
        observed_at_unix_ms: a.observed_at_unix_ms,
    }
}

pub open spec fn alert_views(v: Seq<ControlPlaneAlertSummary>) -> Seq<AlertSpec> {
    v.map_values(|a: ControlPlaneAlertSummary| alert_view(a))
}

pub open spec fn reason_or(reason: Option<String>, default: Seq<char>) -> Seq<char> {
    match reason {
        Some(r) => r@,
        None => default,
    }
}

pub open spec fn u64_or(v: Option<u64>, default: u64) -> u64 {
    match v {
        Some(x) => x,
        None => default,
    }
}

/// The alert that a node raises, if any: offline nodes are critical, drifted
/// nodes a warning.
pub open spec fn spec_node_alert(n: NodeSummary) -> Option<AlertSpec> {
    if n.state == NodeLifecycleState::Offline {
        Some(
            AlertSpec {
                alert_id: "alert_node_offline_"@ + n.node_id@,
                cluster_id: Some(n.cluster_id@),
                severity: AlertSeverity::Critical,
                kind: "node_offline"@,
                title: "Node `"@ + n.node_id@ + "` is offline"@,
                message: reason_or(n.status_reason, "node stopped reporting heartbeats"@),
                resource_type: "node"@,
                resource_id: n.node_id@,
                observed_at_unix_ms: n.last_seen_unix_ms,
            },
        )
    } else if n.state == NodeLifecycleState::Drifted {
        Some(
            AlertSpec {
                alert_id: "alert_node_drifted_"@ + n.node_id@,
                cluster_id: Some(n.cluster_id@),
                severity: AlertSeverity::Warning,
                kind: "node_drifted"@,
                title: "Node `"@ + n.node_id@ + "` is drifted"@,
                message: reason_or(
                    n.status_reason,
                    "agent is online but runtime diagnostics are unavailable"@,
                ),
                resource_type: "node"@,
                resource_id: n.node_id@,
                observed_at_unix_ms: n.last_seen_unix_ms,
            },
        )
    } else {
        None
    }
}

/// The common fields of a configuration or DNS rollout that alerts read.
pub struct RolloutFacts {
    pub dns: bool,
    pub deployment_id: Seq<char>,
    pub cluster_id: Seq<char>,
    pub revision_version_label: Seq<char>,
    pub status: DeploymentStatus,
    pub failed_nodes: u32,
    pub status_reason: Option<String>,
    pub created_at_unix_ms: u64,
    pub started_at_unix_ms: Option<u64>,
    pub finished_at_unix_ms: Option<u64>,
}

pub open spec fn deployment_facts(d: DeploymentSummary) -> RolloutFacts {
    RolloutFacts {
        dns: false,
        deployment_id: d.deployment_id@,
        cluster_id: d.cluster_id@,
        revision_version_label: d.revision_version_label@,
        status: d.status,
        failed_nodes: d.failed_nodes,
        status_reason: d.status_reason,
        created_at_unix_ms: d.created_at_unix_ms,
        started_at_unix_ms: d.started_at_unix_ms,
        finished_at_unix_ms: d.finished_at_unix_ms,
    }
}

pub open spec fn dns_deployment_facts(d: DnsDeploymentSummary) -> RolloutFacts {
    RolloutFacts {
        dns: true,
        deployment_id: d.deployment_id@,
        cluster_id: d.cluster_id@,
        revision_version_label: d.revision_version_label@,
        status: d.status,
        failed_nodes: d.failed_nodes,
        status_reason: d.status_reason,
        created_at_unix_ms: d.created_at_unix_ms,
        started_at_unix_ms: d.started_at_unix_ms,
        finished_at_unix_ms: d.finished_at_unix_ms,
    }
}

pub open spec fn pick(dns: bool, a: Seq<char>, b: Seq<char>) -> Seq<char> {
    if dns {
        a
    } else {
        b
    }
}

/// The alert that a rollout raises, if any: failed rollouts are critical,
/// paused ones and running ones with a recorded reason are warnings.
pub open spec fn spec_rollout_alert(f: RolloutFacts) -> Option<AlertSpec> {
    let rtype = pick(f.dns, "dns_deployment"@, "deployment"@);
    let noun = pick(f.dns, "DNS deployment `"@, "Deployment `"@);
    if f.status == DeploymentStatus::Failed {
        Some(
            AlertSpec {
                alert_id: pick(f.dns, "alert_dns_deployment_failed_"@, "alert_deployment_failed_"@)
                    + f.deployment_id,
                cluster_id: Some(f.cluster_id),
                severity: AlertSeverity::Critical,
                kind: pick(f.dns, "dns_deployment_failed"@, "deployment_failed"@),
                title: noun + f.deployment_id + "` failed"@,
                message: reason_or(
                    f.status_reason,
                    pick(f.dns, "dns revision `"@, "revision `"@) + f.revision_version_label
                        + "` failed on "@ + dec(f.failed_nodes as nat) + " target(s)"@,
                ),
                resource_type: rtype,
                resource_id: f.deployment_id,
                observed_at_unix_ms: u64_or(f.finished_at_unix_ms, f.created_at_unix_ms),
            },
        )
    } else if f.status == DeploymentStatus::Paused {
        Some(
            AlertSpec {
                alert_id: pick(f.dns, "alert_dns_deployment_paused_"@, "alert_deployment_paused_"@)
                    + f.deployment_id,
                cluster_id: Some(f.cluster_id),
                severity: AlertSeverity::Warning,
                kind: pick(f.dns, "dns_deployment_paused"@, "deployment_paused"@),
                title: noun + f.deployment_id + "` is paused"@,
                message: reason_or(
                    f.status_reason,
                    pick(f.dns, "dns deployment"@, "deployment"@)
                        + " is paused and requires administrator attention"@,
                ),
                resource_type: rtype,
                resource_id: f.deployment_id,
                observed_at_unix_ms: u64_or(f.started_at_unix_ms, f.created_at_unix_ms),
            },
        )
    } else if f.status == DeploymentStatus::Running && f.status_reason is Some {
        Some(
            AlertSpec {
                alert_id: pick(
                    f.dns,
                    "alert_dns_deployment_running_warn_"@,
                    "alert_deployment_running_warn_"@,
                ) + f.deployment_id,
                cluster_id: Some(f.cluster_id),
                severity: AlertSeverity::Warning,
                kind: pick(f.dns, "dns_deployment_attention"@, "deployment_attention"@),
                title: noun + f.deployment_id + "` requires attention"@,
                message: f.status_reason->0@,
                resource_type: rtype,
                resource_id: f.deployment_id,
                observed_at_unix_ms: u64_or(f.started_at_unix_ms, f.created_at_unix_ms),
            },
        )
    } else {
        None
    }
}

pub open spec fn push_opt(s: Seq<AlertSpec>, o: Option<AlertSpec>) -> Seq<AlertSpec> {
    match o {
        Some(a) => s.push(a),
        None => s,
    }
}

pub open spec fn node_alerts(nodes: Seq<NodeSummary>) -> Seq<AlertSpec>
    decreases nodes.len(),
{
    if nodes.len() == 0 {
        Seq::empty()
    } else {
        push_opt(node_alerts(nodes.drop_last()), spec_node_alert(nodes.last()))
    }
}

pub open spec fn deployment_alerts(ds: Seq<DeploymentSummary>) -> Seq<AlertSpec>
    decreases ds.len(),
{
    if ds.len() == 0 {
        Seq::empty()
    } else {
        push_opt(deployment_alerts(ds.drop_last()), spec_rollout_alert(deployment_facts(ds.last())))
    }
}

pub open spec fn dns_deployment_alerts(ds: Seq<DnsDeploymentSummary>) -> Seq<AlertSpec>
    decreases ds.len(),
{
    if ds.len() == 0 {
        Seq::empty()
    } else {
        push_opt(
            dns_deployment_alerts(ds.drop_last()),
            spec_rollout_alert(dns_deployment_facts(ds.last())),
        )
    }
}

/// Rank used to order alerts: critical above warning.
pub open spec fn spec_severity_rank(s: AlertSeverity) -> u8 {
    match s {
        AlertSeverity::Critical => 2,
        AlertSeverity::Warning => 1,
    }
}

/// `a` is listed before `b`: more severe first, then the newer observation,
/// then the smaller id.
pub open spec fn before(a: AlertSpec, b: AlertSpec) -> bool {
    let ra = spec_severity_rank(a.severity);
    let rb = spec_severity_rank(b.severity);
    ||| ra > rb
    ||| ra == rb && a.observed_at_unix_ms > b.observed_at_unix_ms
    ||| ra == rb && a.observed_at_unix_ms == b.observed_at_unix_ms && seq_lt(a.alert_id, b.alert_id)
}

/// `x` inserted into `s` after every entry it is not listed before.
pub open spec fn insert_sorted(s: Seq<AlertSpec>, x: AlertSpec) -> Seq<AlertSpec>
    decreases s.len(),
{
    if s.len() == 0 {
        seq![x]
    } else if before(x, s[0]) {
        seq![x] + s
    } else {
        seq![s[0]] + insert_sorted(s.drop_first(), x)
    }
}

/// A stable sort of `s` by `before`.
pub open spec fn sort_alerts(s: Seq<AlertSpec>) -> Seq<AlertSpec>
    decreases s.len(),
{
    if s.len() == 0 {
        Seq::empty()
    } else {
        insert_sorted(sort_alerts(s.drop_last()), s.last())
    }
}

/// The alerts of the given state, in order of urgency.
pub open spec fn spec_build_alerts(
    nodes: Seq<NodeSummary>,
    deployments: Seq<DeploymentSummary>,
    dns_deployments: Seq<DnsDeploymentSummary>,
) -> Seq<AlertSpec> {
    sort_alerts(node_alerts(nodes) + deployment_alerts(deployments) + dns_deployment_alerts(dns_deployments))
}

pub open spec fn sorted(s: Seq<AlertSpec>) -> bool {
    forall|i: int, j: int| 0 <= i < j < s.len() ==> !before(#[trigger] s[j], #[trigger] s[i])
}

pub proof fn lemma_before_strict(a: AlertSpec, b: AlertSpec, c: AlertSpec)
    ensures
        !before(a, a),
        before(a, b) ==> !before(b, a),
        before(a, b) && before(b, c) ==> before(a, c),
{
    lemma_seq_lt_strict(a.alert_id, b.alert_id, c.alert_id);
    lemma_seq_lt_strict(b.alert_id, a.alert_id, c.alert_id);
}

pub proof fn lemma_insert_at(s: Seq<AlertSpec>, x: AlertSpec, k: int)
    requires
        0 <= k <= s.len(),
        forall|t: int| 0 <= t < k ==> !before(x, #[trigger] s[t]),
        k == s.len() || before(x, s[k]),
    ensures
        insert_sorted(s, x) == s.take(k).push(x) + s.skip(k),
    decreases k,
{
    if k == 0 {
        if s.len() == 0 {
            assert(s.take(0).push(x) + s.skip(0) =~= seq![x]);
        } else {
            assert(s.take(0).push(x) + s.skip(0) =~= seq![x] + s);
        }
    } else {
        let t = s.drop_first();
        assert forall|u: int| 0 <= u < k - 1 implies !before(x, #[trigger] t[u]) by {
            assert(t[u] == s[u + 1]);
        }
        if k < s.len() {
            assert(t[k - 1] == s[k]);
        }
        assert(!before(x, s[0]));
        lemma_insert_at(t, x, k - 1);
        assert(seq![s[0]] + (t.take(k - 1).push(x) + t.skip(k - 1)) =~= s.take(k).push(x)
            + s.skip(k));
    }
}

pub proof fn lemma_insert_sorted(s: Seq<AlertSpec>, x: AlertSpec)
    requires
        sorted(s),
    ensures
        sorted(insert_sorted(s, x)),
        insert_sorted(s, x).len() == s.len() + 1,
    decreases s.len(),
{
    if s.len() == 0 {
    } else if before(x, s[0]) {
        let r = seq![x] + s;
        assert forall|i: int, j: int| 0 <= i < j < r.len() implies !before(#[trigger] r[j], #[trigger] r[i]) by {
            if i == 0 {
                assert(r[j] == s[j - 1]);
                if j - 1 > 0 {
                    assert(!before(s[j - 1], s[0]));
                }
                lemma_before_strict(s[j - 1], x, s[0]);
                lemma_before_strict(x, s[0], s[0]);
            } else {
                assert(r[i] == s[i - 1]);
                assert(r[j] == s[j - 1]);
            }
        }
    } else {
        let t = s.drop_first();
        assert(sorted(t)) by {
            assert forall|i: int, j: int| 0 <= i < j < t.len() implies !before(#[trigger] t[j], #[trigger] t[i]) by {
                assert(t[i] == s[i + 1]);
                assert(t[j] == s[j + 1]);
            }
        }
        lemma_insert_sorted(t, x);
        lemma_insert_members(t, x);
        let rest = insert_sorted(t, x);
        let r = seq![s[0]] + rest;
        assert forall|i: int, j: int| 0 <= i < j < r.len() implies !before(#[trigger] r[j], #[trigger] r[i]) by {
            if i == 0 {
                assert(r[j] == rest[j - 1]);
                let e = rest[j - 1];
                if e == x {
                    lemma_before_strict(x, s[0], x);
                } else {
                    let k = choose|k: int| 0 <= k < t.len() && t[k] == e;
                    assert(t[k] == s[k + 1]);
                }
            } else {
                assert(r[i] == rest[i - 1]);
                assert(r[j] == rest[j - 1]);
            }
        }
    }
}

/// Every entry of `insert_sorted(s, x)` is `x` or an entry of `s`.
pub proof fn lemma_insert_members(s: Seq<AlertSpec>, x: AlertSpec)
    ensures
        forall|j: int|
            0 <= j < insert_sorted(s, x).len() ==> #[trigger] insert_sorted(s, x)[j] == x || exists|
                k: int,
            |
                0 <= k < s.len() && s[k] == insert_sorted(s, x)[j],
    decreases s.len(),
{
    if s.len() == 0 {
    } else if before(x, s[0]) {
        let r = insert_sorted(s, x);
        assert forall|j: int| 0 <= j < r.len() implies #[trigger] r[j] == x || exists|k: int|
            0 <= k < s.len() && s[k] == r[j] by {
            if j > 0 {
                assert(s[j - 1] == r[j]);
            }
        }
    } else {
        let t = s.drop_first();
        lemma_insert_members(t, x);
        let r = insert_sorted(s, x);
        let rest = insert_sorted(t, x);
        assert forall|j: int| 0 <= j < r.len() implies #[trigger] r[j] == x || exists|k: int|
            0 <= k < s.len() && s[k] == r[j] by {
            if j == 0 {
                assert(s[0] == r[0]);
            } else {
                assert(r[j] == rest[j - 1]);
                if rest[j - 1] != x {
                    let k = choose|k: int| 0 <= k < t.len() && t[k] == rest[j - 1];
                    assert(s[k + 1] == t[k]);
                }
            }
        }
    }
}

/// The sorted alerts are in order of urgency and as many as the raised ones.
pub proof fn lemma_sort_alerts(s: Seq<AlertSpec>)
    ensures
        sorted(sort_alerts(s)),
        sort_alerts(s).len() == s.len(),
    decreases s.len(),
{
    if s.len() > 0 {
        lemma_sort_alerts(s.drop_last());
        lemma_insert_sorted(sort_alerts(s.drop_last()), s.last());
    }
}

/// Inserting an alert adds it once and keeps every other alert.
pub proof fn lemma_insert_sorted_multiset(s: Seq<AlertSpec>, x: AlertSpec)
    ensures
        insert_sorted(s, x).to_multiset() == s.to_multiset().insert(x),
    decreases s.len(),
{
    if s.len() == 0 || before(x, s[0]) {
        assert(insert_sorted(s, x) =~= s.insert(0, x));
        to_multiset_insert(s, 0, x);
    } else {
        let t = s.drop_first();
        lemma_insert_sorted_multiset(t, x);
        let rest = insert_sorted(t, x);
        assert(insert_sorted(s, x) =~= rest.insert(0, s[0]));
        assert(s =~= t.insert(0, s[0]));
        to_multiset_insert(rest, 0, s[0]);
        to_multiset_insert(t, 0, s[0]);
        assert(insert_sorted(s, x).to_multiset() =~= s.to_multiset().insert(x));
    }
}

/// Sorting keeps every alert, each as often as it was raised.
pub proof fn lemma_sort_alerts_multiset(s: Seq<AlertSpec>)
    ensures
        sort_alerts(s).to_multiset() == s.to_multiset(),
    decreases s.len(),
{
    broadcast use vstd::seq_lib::group_to_multiset_ensures;

    if s.len() == 0 {
        assert(sort_alerts(s).to_multiset() =~= s.to_multiset());
    } else {
        lemma_sort_alerts_multiset(s.drop_last());
        lemma_insert_sorted_multiset(sort_alerts(s.drop_last()), s.last());
        assert(s.drop_last().push(s.last()) =~= s);
    }
}

/// What a node raises by its state: an offline node one critical
/// `node_offline` alert, a drifted node one `node_drifted` warning (with its
/// status reason as the message, or the default text when it has none), any
/// other node nothing.
pub proof fn lemma_node_alert_by_state(n: NodeSummary)
    ensures
        n.state == NodeLifecycleState::Offline ==> (spec_node_alert(n) matches Some(a) && a.severity
            == AlertSeverity::Critical && a.kind == "node_offline"@ && a.alert_id == "alert_node_offline_"@
            + n.node_id@ && a.title == "Node `"@ + n.node_id@ + "` is offline"@ && a.message == (match n.status_reason {
            Some(r) => r@,
            None => "node stopped reporting heartbeats"@,
        }) && a.cluster_id == Some(n.cluster_id@) && a.resource_type == "node"@ && a.resource_id == n.node_id@
            && a.observed_at_unix_ms == n.last_seen_unix_ms),
        n.state == NodeLifecycleState::Drifted ==> (spec_node_alert(n) matches Some(a) && a.severity
            == AlertSeverity::Warning && a.kind == "node_drifted"@ && a.alert_id == "alert_node_drifted_"@
            + n.node_id@ && a.title == "Node `"@ + n.node_id@ + "` is drifted"@ && a.message == (match n.status_reason {
            Some(r) => r@,
            None => "agent is online but runtime diagnostics are unavailable"@,
        }) && a.cluster_id == Some(n.cluster_id@) && a.resource_type == "node"@ && a.resource_id == n.node_id@
            && a.observed_at_unix_ms == n.last_seen_unix_ms),
        n.state != NodeLifecycleState::Offline && n.state != NodeLifecycleState::Drifted ==> spec_node_alert(n) is None,
{
}

/// What a rollout raises by its status: a failed rollout one critical
/// `..._failed` alert, a paused one a `..._paused` warning, a running one with
/// a recorded reason an `..._attention` warning carrying that reason, and
/// any other rollout nothing; DNS rollouts use the `dns_` kinds.
pub proof fn lemma_rollout_alert_by_status(f: RolloutFacts)
    ensures
        f.status == DeploymentStatus::Failed ==> (spec_rollout_alert(f) matches Some(a) && a.severity
            == AlertSeverity::Critical && a.kind == (if f.dns {
            "dns_deployment_failed"@
        } else {
            "deployment_failed"@
        }) && a.resource_id == f.deployment_id && a.cluster_id == Some(f.cluster_id)),
        f.status == DeploymentStatus::Paused ==> (spec_rollout_alert(f) matches Some(a) && a.severity
            == AlertSeverity::Warning && a.kind == (if f.dns {
            "dns_deployment_paused"@
        } else {
            "deployment_paused"@
        }) && a.resource_id == f.deployment_id),
        f.status == DeploymentStatus::Running && f.status_reason is Some ==> (spec_rollout_alert(f) matches Some(a)
            && a.severity == AlertSeverity::Warning && a.kind == (if f.dns {
            "dns_deployment_attention"@
        } else {
            "deployment_attention"@
        }) && a.message == f.status_reason->0@),
        !(f.status == DeploymentStatus::Failed || f.status == DeploymentStatus::Paused || (f.status
            == DeploymentStatus::Running && f.status_reason is Some)) ==> spec_rollout_alert(f) is None,
{
}

proof fn lemma_node_alerts_contain(nodes: Seq<NodeSummary>, i: int)
    requires
        0 <= i < nodes.len(),
        spec_node_alert(nodes[i]) is Some,
    ensures
        node_alerts(nodes).contains(spec_node_alert(nodes[i])->0),
    decreases nodes.len(),
{
    let prev = node_alerts(nodes.drop_last());
    if i == nodes.len() - 1 {
        let r = node_alerts(nodes);
        assert(r == prev.push(spec_node_alert(nodes[i])->0));
        assert(r[prev.len() as int] == spec_node_alert(nodes[i])->0);
    } else {
        assert(nodes.drop_last()[i] == nodes[i]);
        lemma_node_alerts_contain(nodes.drop_last(), i);
        let k = choose|k: int| 0 <= k < prev.len() && prev[k] == spec_node_alert(nodes[i])->0;
        match spec_node_alert(nodes.last()) {
            Some(a) => assert(node_alerts(nodes)[k] == prev[k]),
            None => {},
        }
    }
}

/// Every offline or drifted node has its alert among the built alerts.
pub proof fn lemma_every_node_alert_is_built(
    nodes: Seq<NodeSummary>,
    deployments: Seq<DeploymentSummary>,
    dns_deployments: Seq<DnsDeploymentSummary>,
    i: int,
)
    requires
        0 <= i < nodes.len(),
        nodes[i].state == NodeLifecycleState::Offline || nodes[i].state == NodeLifecycleState::Drifted,
    ensures
        spec_node_alert(nodes[i]) is Some,
        spec_build_alerts(nodes, deployments, dns_deployments).contains(spec_node_alert(nodes[i])->0),
{
    broadcast use vstd::seq_lib::group_to_multiset_ensures;

    let a = spec_node_alert(nodes[i])->0;
    lemma_node_alerts_contain(nodes, i);
    let raised = node_alerts(nodes) + deployment_alerts(deployments) + dns_deployment_alerts(dns_deployments);
    let k = choose|k: int| 0 <= k < node_alerts(nodes).len() && node_alerts(nodes)[k] == a;
    assert(raised[k] == a);
    assert(raised.contains(a));
    lemma_sort_alerts_multiset(raised);
    assert(raised.to_multiset().count(a) > 0);
    assert(sort_alerts(raised).to_multiset().count(a) > 0);
}

/// Built alerts are listed most severe first, then newest first, then by id,
/// and there is one per offline or drifted node and per failed, paused or
/// flagged running rollout, each raised alert listed exactly once.
pub proof fn lemma_build_alerts_ordered(
    nodes: Seq<NodeSummary>,
    deployments: Seq<DeploymentSummary>,
    dns_deployments: Seq<DnsDeploymentSummary>,
)
    ensures
        sorted(spec_build_alerts(nodes, deployments, dns_deployments)),
        spec_build_alerts(nodes, deployments, dns_deployments).len() == node_alerts(nodes).len()
            + deployment_alerts(deployments).len() + dns_deployment_alerts(dns_deployments).len(),
        spec_build_alerts(nodes, deployments, dns_deployments).to_multiset() == (node_alerts(nodes)
            + deployment_alerts(deployments) + dns_deployment_alerts(dns_deployments)).to_multiset(),
{
    lemma_sort_alerts_multiset(
        node_alerts(nodes) + deployment_alerts(deployments) + dns_deployment_alerts(dns_deployments),
    );
    lemma_sort_alerts(
        node_alerts(nodes) + deployment_alerts(deployments) + dns_deployment_alerts(dns_deployments),
    );
}

// ---------------------------------------------------------------- executable

/// Rank used to order alerts: critical above warning.
pub fn severity_rank(severity: AlertSeverity) -> (r: u8)
    ensures
        r == spec_severity_rank(severity),
{
    match severity {
        AlertSeverity::Critical => 2,
        AlertSeverity::Warning => 1,
    }
}

fn alert_before(a: &ControlPlaneAlertSummary, b: &ControlPlaneAlertSummary) -> (r: bool)
    ensures
        r == before(alert_view(*a), alert_view(*b)),
{
    let ra = severity_rank(a.severity);
    let rb = severity_rank(b.severity);
    if ra != rb {
        return ra > rb;
    }
    if a.observed_at_unix_ms != b.observed_at_unix_ms {
        return a.observed_at_unix_ms > b.observed_at_unix_ms;
    }
    str_lt(a.alert_id.as_str(), b.alert_id.as_str())
}

/// Inserts `x` after every alert that it is not listed before.
fn insert_alert(v: &mut Vec<ControlPlaneAlertSummary>, x: ControlPlaneAlertSummary)
    ensures
        alert_views(final(v)@) == insert_sorted(alert_views(old(v)@), alert_view(x)),
{
    let ghost s = alert_views(v@);
    let mut k: usize = 0;
    while k < v.len() && !alert_before(&x, &v[k])
        invariant
            s == alert_views(v@),
            k <= v@.len(),
            forall|t: int| 0 <= t < k ==> !before(alert_view(x), #[trigger] s[t]),
        decreases v@.len() - k,
    {
        k = k + 1;
    }
    proof {
        lemma_insert_at(s, alert_view(x), k as int);
    }
    let ghost xv = alert_view(x);
    v.insert(k, x);
    assert(alert_views(v@) =~= s.take(k as int).push(xv) + s.skip(k as int));
}

fn opt_string(o: &Option<String>) -> (r: Option<String>)
    ensures
        opt_view(r) == opt_view(*o),
{
    match o {
        Some(s) => Some(string_of(s.as_str())),
        None => None,
    }
}

fn reason_or_default(reason: &Option<String>, default: &str) -> (r: String)
    ensures
        r@ == reason_or(*reason, default@),
{
    match reason {
        Some(s) => string_of(s.as_str()),
        None => string_of(default),
    }
}

fn concat2(a: &str, b: &str) -> (r: String)
    ensures
        r@ == a@ + b@,
{
    let mut r = string_of(a);
    push_str(&mut r, b);
    r
}

fn concat3(a: &str, b: &str, c: &str) -> (r: String)
    ensures
        r@ == a@ + b@ + c@,
{
    let mut r = string_of(a);
    push_str(&mut r, b);
    push_str(&mut r, c);
    r
}

fn node_alert(n: &NodeSummary) -> (r: Option<ControlPlaneAlertSummary>)
    ensures
        match r {
            Some(a) => spec_node_alert(*n) == Some(alert_view(a)),
            None => spec_node_alert(*n) is None,
        },
{
    let offline = n.state == NodeLifecycleState::Offline;
    if !offline && n.state != NodeLifecycleState::Drifted {
        return None;
    }
    let id = n.node_id.as_str();
    Some(
        ControlPlaneAlertSummary {
            alert_id: concat2(if offline {
                "alert_node_offline_"
            } else {
                "alert_node_drifted_"
            }, id),
            cluster_id: Some(string_of(n.cluster_id.as_str())),
            severity: if offline {
                AlertSeverity::Critical
            } else {
                AlertSeverity::Warning
            },
            kind: string_of(if offline {
                "node_offline"
            } else {
                "node_drifted"
            }),
            title: concat3("Node `", id, if offline {
                "` is offline"
            } else {
                "` is drifted"
            }),
            message: reason_or_default(
                &n.status_reason,
                if offline {
                    "node stopped reporting heartbeats"
                } else {
                    "agent is online but runtime diagnostics are unavailable"
                },
            ),
            resource_type: string_of("node"),
            resource_id: string_of(id),
            observed_at_unix_ms: n.last_seen_unix_ms,
        },
    )
}

fn rollout_alert(
    dns: bool,
    deployment_id: &String,
    cluster_id: &String,
    revision_version_label: &String,
    status: DeploymentStatus,
    failed_nodes: u32,
    status_reason: &Option<String>,
    created_at_unix_ms: u64,
    started_at_unix_ms: Option<u64>,
    finished_at_unix_ms: Option<u64>,
) -> (r: Option<ControlPlaneAlertSummary>)
    ensures
        ({
            let f = RolloutFacts {
                dns,
                deployment_id: deployment_id@,
                cluster_id: cluster_id@,
                revision_version_label: revision_version_label@,
                status,
                failed_nodes,
                status_reason: *status_reason,
                created_at_unix_ms,
                started_at_unix_ms,
                finished_at_unix_ms,
            };
            match r {
                Some(a) => spec_rollout_alert(f) == Some(alert_view(a)),
                None => spec_rollout_alert(f) is None,
            }
        }),
{
    let id = deployment_id.as_str();
    let rtype = if dns {
        "dns_deployment"
    } else {
        "deployment"
    };
    let noun = if dns {
        "DNS deployment `"
    } else {
        "Deployment `"
    };
    let started = match started_at_unix_ms {
        Some(t) => t,
        None => created_at_unix_ms,
    };
    match status {
        DeploymentStatus::Failed => {
            let message = match status_reason {
                Some(s) => string_of(s.as_str()),
                None => {
                    let mut m = string_of(if dns {
                        "dns revision `"
                    } else {
                        "revision `"
                    });
                    push_str(&mut m, revision_version_label.as_str());
                    push_str(&mut m, "` failed on ");
                    push_u64(&mut m, failed_nodes as u64);
                    push_str(&mut m, " target(s)");
                    m
                },
            };
            Some(
                ControlPlaneAlertSummary {
                    alert_id: concat2(if dns {
                        "alert_dns_deployment_failed_"
                    } else {
                        "alert_deployment_failed_"
                    }, id),
                    cluster_id: Some(string_of(cluster_id.as_str())),
                    severity: AlertSeverity::Critical,
                    kind: string_of(if dns {
                        "dns_deployment_failed"
                    } else {
                        "deployment_failed"
                    }),
                    title: concat3(noun, id, "` failed"),
                    message,
                    resource_type: string_of(rtype),
                    resource_id: string_of(id),
                    observed_at_unix_ms: match finished_at_unix_ms {
                        Some(t) => t,
                        None => created_at_unix_ms,
                    },
                },
            )
        },
        DeploymentStatus::Paused => {
            let default = concat2(if dns {
                "dns deployment"
            } else {
                "deployment"
            }, " is paused and requires administrator attention");
            Some(
                ControlPlaneAlertSummary {
                    alert_id: concat2(if dns {
                        "alert_dns_deployment_paused_"
                    } else {
                        "alert_deployment_paused_"
                    }, id),
                    cluster_id: Some(string_of(cluster_id.as_str())),
                    severity: AlertSeverity::Warning,
                    kind: string_of(if dns {
                        "dns_deployment_paused"
                    } else {
                        "deployment_paused"
                    }),
                    title: concat3(noun, id, "` is paused"),
                    message: reason_or_default(status_reason, default.as_str()),
                    resource_type: string_of(rtype),
                    resource_id: string_of(id),
                    observed_at_unix_ms: started,
                },
            )
        },
        DeploymentStatus::Running => {
            match status_reason {
                Some(reason) => Some(
                    ControlPlaneAlertSummary {
                        alert_id: concat2(if dns {
                            "alert_dns_deployment_running_warn_"
                        } else {
                            "alert_deployment_running_warn_"
                        }, id),
                        cluster_id: Some(string_of(cluster_id.as_str())),
                        severity: AlertSeverity::Warning,
                        kind: string_of(if dns {
                            "dns_deployment_attention"
                        } else {
                            "deployment_attention"
                        }),
                        title: concat3(noun, id, "` requires attention"),
                        message: string_of(reason.as_str()),
                        resource_type: string_of(rtype),
                        resource_id: string_of(id),
                        observed_at_unix_ms: started,
                    },
                ),
                None => None,
            }
        },
        _ => None,
    }
}

/// Current alerts derived from the nodes and rollouts, most urgent first.
pub fn build_alerts(
    nodes: &Vec<NodeSummary>,
    deployments: &Vec<DeploymentSummary>,
    dns_deployments: &Vec<DnsDeploymentSummary>,
) -> (r: Vec<ControlPlaneAlertSummary>)
    ensures
        alert_views(r@) == spec_build_alerts(nodes@, deployments@, dns_deployments@),
{
    let mut out: Vec<ControlPlaneAlertSummary> = Vec::new();
    let ghost mut raised: Seq<AlertSpec> = Seq::empty();
    let mut i: usize = 0;
    while i < nodes.len()
        invariant
            i <= nodes@.len(),
            raised == node_alerts(nodes@.take(i as int)),
            alert_views(out@) == sort_alerts(raised),
        decreases nodes@.len() - i,
    {
        assert(nodes@.take(i + 1).drop_last() =~= nodes@.take(i as int));
        match node_alert(&nodes[i]) {
            Some(a) => {
                proof {
                    assert(raised.push(alert_view(a)).drop_last() =~= raised);
                    raised = raised.push(alert_view(a));
                }
                insert_alert(&mut out, a);
            },
            None => {},
        }
        i = i + 1;
    }
    assert(nodes@.take(nodes@.len() as int) =~= nodes@);
    let ghost base = raised;
    let mut i: usize = 0;
    while i < deployments.len()
        invariant
            i <= deployments@.len(),
            raised == base + deployment_alerts(deployments@.take(i as int)),
            alert_views(out@) == sort_alerts(raised),
        decreases deployments@.len() - i,
    {
        assert(deployments@.take(i + 1).drop_last() =~= deployments@.take(i as int));
        let d = &deployments[i];
        let found = rollout_alert(
            false,
            &d.deployment_id,
            &d.cluster_id,
            &d.revision_version_label,
            d.status,
            d.failed_nodes,
            &d.status_reason,
            d.created_at_unix_ms,
            d.started_at_unix_ms,
            d.finished_at_unix_ms,
        );
        match found {
            Some(a) => {
                proof {
                    assert(raised.push(alert_view(a)).drop_last() =~= raised);
                    assert(base + deployment_alerts(deployments@.take(i + 1)) =~= raised.push(
                        alert_view(a),
                    ));
                    raised = raised.push(alert_view(a));
                }
                insert_alert(&mut out, a);
            },
            None => {},
        }
        i = i + 1;
    }
    assert(deployments@.take(deployments@.len() as int) =~= deployments@);
    let ghost base2 = raised;
    let mut i: usize = 0;
    while i < dns_deployments.len()
        invariant
            i <= dns_deployments@.len(),
            raised == base2 + dns_deployment_alerts(dns_deployments@.take(i as int)),
            alert_views(out@) == sort_alerts(raised),
        decreases dns_deployments@.len() - i,
    {
        assert(dns_deployments@.take(i + 1).drop_last() =~= dns_deployments@.take(i as int));
        let d = &dns_deployments[i];
        let found = rollout_alert(
            true,
            &d.deployment_id,
            &d.cluster_id,
            &d.revision_version_label,
            d.status,
            d.failed_nodes,
            &d.status_reason,
            d.created_at_unix_ms,
            d.started_at_unix_ms,
            d.finished_at_unix_ms,
        );
        match found {
            Some(a) => {
                proof {
                    assert(raised.push(alert_view(a)).drop_last() =~= raised);
                    assert(base2 + dns_deployment_alerts(dns_deployments@.take(i + 1))
                        =~= raised.push(alert_view(a)));
                    raised = raised.push(alert_view(a));
                }
                insert_alert(&mut out, a);
            },
            None => {},
        }
        i = i + 1;
    }
    assert(dns_deployments@.take(dns_deployments@.len() as int) =~= dns_deployments@);
    out
}

} // verus!
