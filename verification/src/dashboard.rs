//! The console dashboard summary and the Prometheus metrics page.
use vstd::prelude::*;

use crate::alerts::alert_views;
use crate::model::{
    spec_deployment_status_str, spec_node_state_str, spec_severity_str, AlertSeverity,
    ControlPlaneAlertSummary, DeploymentStatus, DeploymentSummary, DnsDeploymentSummary,
    NodeLifecycleState, NodeSummary,
};
use crate::text::{dec, push_char, push_str, push_u64};

verus! {

/// A published configuration revision, as listed on the dashboard.
#[derive(Clone, Debug)]
pub struct ConfigRevisionSummary {
    pub revision_id: String,
    pub cluster_id: String,
    pub version_label: String,
    pub created_at_unix_ms: u64,
    pub summary: String,
}

/// Counts and recent records that the store reports for the dashboard.
#[derive(Clone, Debug)]
pub struct DashboardSnapshot {
    pub total_clusters: u32,
    pub total_nodes: u32,
    pub online_nodes: u32,
    pub draining_nodes: u32,
    pub offline_nodes: u32,
    pub drifted_nodes: u32,
    pub total_revisions: u64,
    pub active_deployments: u32,
    pub active_dns_deployments: u32,
    pub latest_revision: Option<ConfigRevisionSummary>,
    pub recent_nodes: Vec<NodeSummary>,
    pub recent_deployments: Vec<DeploymentSummary>,
    pub recent_dns_deployments: Vec<DnsDeploymentSummary>,
}

/// The dashboard as the console shows it.
#[derive(Clone, Debug)]
pub struct DashboardSummary {
    pub total_clusters: u32,
    pub total_nodes: u32,
    pub online_nodes: u32,
    pub draining_nodes: u32,
    pub offline_nodes: u32,
    pub drifted_nodes: u32,
    pub total_revisions: u64,
    pub active_deployments: u32,
    pub active_dns_deployments: u32,
    pub open_alert_count: u32,
    pub critical_alert_count: u32,
    pub warning_alert_count: u32,
    pub latest_revision: Option<ConfigRevisionSummary>,
    pub recent_nodes: Vec<NodeSummary>,
    pub recent_deployments: Vec<DeploymentSummary>,
    pub recent_dns_deployments: Vec<DnsDeploymentSummary>,
    pub open_alerts: Vec<ControlPlaneAlertSummary>,
}

/// Number of alerts of one severity.
pub open spec fn severity_count(alerts: Seq<ControlPlaneAlertSummary>, severity: AlertSeverity) -> nat
    decreases alerts.len(),
{
    if alerts.len() == 0 {
        0
    } else {
        severity_count(alerts.drop_last(), severity) + if alerts.last().severity == severity {
            1nat
        } else {
            0nat
        }
    }
}

/// Every alert is either critical or a warning.
pub proof fn lemma_severity_counts(alerts: Seq<ControlPlaneAlertSummary>)
    ensures
        severity_count(alerts, AlertSeverity::Critical) + severity_count(alerts, AlertSeverity::Warning)
            == alerts.len(),
    decreases alerts.len(),
{
    if alerts.len() > 0 {
        lemma_severity_counts(alerts.drop_last());
    }
}

fn count_severity(alerts: &Vec<ControlPlaneAlertSummary>, severity: AlertSeverity) -> (n: usize)
    ensures
        n == severity_count(alerts@, severity),
{
    let mut n: usize = 0;
    let mut i: usize = 0;
    while i < alerts.len()
        invariant
            i <= alerts@.len(),
            n == severity_count(alerts@.take(i as int), severity),
            n <= i,
        decreases alerts@.len() - i,
    {
        assert(alerts@.take(i + 1).drop_last() =~= alerts@.take(i as int));
        if alerts[i].severity == severity {
            n = n + 1;
        }
        i = i + 1;
    }
    assert(alerts@.take(alerts@.len() as int) =~= alerts@);
    n
}

/// The dashboard: the store's counts and recent records, with the open alerts
/// and how many of them are critical or warnings.
pub fn build_summary(snapshot: DashboardSnapshot, alerts: Vec<ControlPlaneAlertSummary>) -> (s: DashboardSummary)
    ensures
        s.total_clusters == snapshot.total_clusters,
        s.total_nodes == snapshot.total_nodes,
        s.online_nodes == snapshot.online_nodes,
        s.draining_nodes == snapshot.draining_nodes,
        s.offline_nodes == snapshot.offline_nodes,
        s.drifted_nodes == snapshot.drifted_nodes,
        s.total_revisions == snapshot.total_revisions,
        s.active_deployments == snapshot.active_deployments,
        s.active_dns_deployments == snapshot.active_dns_deployments,
        s.latest_revision == snapshot.latest_revision,
        s.recent_nodes == snapshot.recent_nodes,
        s.recent_deployments == snapshot.recent_deployments,
        s.recent_dns_deployments == snapshot.recent_dns_deployments,
        s.open_alerts == alerts,
        s.open_alert_count == alerts@.len() as u32,
        s.critical_alert_count == severity_count(alerts@, AlertSeverity::Critical) as u32,
        s.warning_alert_count == severity_count(alerts@, AlertSeverity::Warning) as u32,
{
    let open_alert_count = alerts.len() as u32;
    let critical_alert_count = count_severity(&alerts, AlertSeverity::Critical) as u32;
    let warning_alert_count = count_severity(&alerts, AlertSeverity::Warning) as u32;
    DashboardSummary {
        total_clusters: snapshot.total_clusters,
        total_nodes: snapshot.total_nodes,
        online_nodes: snapshot.online_nodes,
        draining_nodes: snapshot.draining_nodes,
        offline_nodes: snapshot.offline_nodes,
        drifted_nodes: snapshot.drifted_nodes,
        total_revisions: snapshot.total_revisions,
        active_deployments: snapshot.active_deployments,
        active_dns_deployments: snapshot.active_dns_deployments,
        open_alert_count,
        critical_alert_count,
        warning_alert_count,
        latest_revision: snapshot.latest_revision,
        recent_nodes: snapshot.recent_nodes,
        recent_deployments: snapshot.recent_deployments,
        recent_dns_deployments: snapshot.recent_dns_deployments,
        open_alerts: alerts,
    }
}

// ---------------------------------------------------------------- Prometheus text

/// The `# HELP` and `# TYPE` lines of a gauge.
pub open spec fn help_block(name: Seq<char>, help: Seq<char>) -> Seq<char> {
    "# HELP "@ + name + seq![' '] + help + seq!['\n'] + "# TYPE "@ + name + " gauge\n"@
}

/// One `label="value"` pair.
pub open spec fn label_pair(l: (Seq<char>, Seq<char>)) -> Seq<char> {
    l.0 + "=\""@ + l.1 + seq!['"']
}

/// The label pairs joined by ','.
pub open spec fn labels_body(ls: Seq<(Seq<char>, Seq<char>)>) -> Seq<char>
    decreases ls.len(),
{
    if ls.len() == 0 {
        Seq::empty()
    } else if ls.len() == 1 {
        label_pair(ls[0])
    } else {
        labels_body(ls.drop_last()) + seq![','] + label_pair(ls.last())
    }
}

/// One sample line of a gauge.
pub open spec fn metric_line(name: Seq<char>, ls: Seq<(Seq<char>, Seq<char>)>, value: nat) -> Seq<char> {
    name + (if ls.len() == 0 {
        Seq::<char>::empty()
    } else {
        seq!['{'] + labels_body(ls) + seq!['}']
    }) + seq![' '] + dec(value) + seq!['\n']
}

pub open spec fn label_views(ls: Seq<(&str, &str)>) -> Seq<(Seq<char>, Seq<char>)> {
    ls.map_values(|l: (&str, &str)| (l.0@, l.1@))
}

/// Appends the `# HELP` and `# TYPE` lines of a gauge.
pub fn append_metric_help(body: &mut String, name: &str, help: &str)
    ensures
        final(body)@ == old(body)@ + help_block(name@, help@),
{
    push_str(body, "# HELP ");
    push_str(body, name);
    push_char(body, ' ');
    push_str(body, help);
    push_char(body, '\n');
    push_str(body, "# TYPE ");
    push_str(body, name);
    push_str(body, " gauge\n");
    assert(final(body)@ =~= old(body)@ + help_block(name@, help@));
}

/// Appends one sample line of a gauge.
pub fn append_metric(body: &mut String, name: &str, labels: &Vec<(&str, &str)>, value: u64)
    ensures
        final(body)@ == old(body)@ + metric_line(name@, label_views(labels@), value as nat),
{
    let ghost ls = label_views(labels@);
    push_str(body, name);
    let ghost after_name = body@;
    if labels.len() > 0 {
        push_char(body, '{');
        let mut i: usize = 0;
        let ghost start = body@;
        while i < labels.len()
            invariant
                i <= labels@.len(),
                ls == label_views(labels@),
                body@ == start + labels_body(ls.take(i as int)),
            decreases labels@.len() - i,
        {
            let ghost before = body@;
            assert(ls.take(i + 1).drop_last() =~= ls.take(i as int));
            assert(ls.take(i + 1).last() == ls[i as int]);
            if i > 0 {
                push_char(body, ',');
            }
            let (label, label_value) = labels[i];
            push_str(body, label);
            push_str(body, "=\"");
            push_str(body, label_value);
            push_char(body, '"');
            proof {
                if i == 0 {
                    assert(ls.take(1) =~= seq![ls[0]]);
                    assert(body@ =~= start + labels_body(ls.take(1)));
                } else {
                    assert(body@ =~= start + labels_body(ls.take(i + 1)));
                }
            }
            i = i + 1;
        }
        assert(ls.take(labels@.len() as int) =~= ls);
        push_char(body, '}');
    }
    push_char(body, ' ');
    push_u64(body, value);
    push_char(body, '\n');
    assert(final(body)@ =~= old(body)@ + metric_line(name@, ls, value as nat));
}

pub open spec fn nodes_in_state(nodes: Seq<NodeSummary>, state: NodeLifecycleState) -> nat
    decreases nodes.len(),
{
    if nodes.len() == 0 {
        0
    } else {
        nodes_in_state(nodes.drop_last(), state) + if nodes.last().state == state {
            1nat
        } else {
            0nat
        }
    }
}

pub open spec fn deployments_in_status(ds: Seq<DeploymentSummary>, status: DeploymentStatus) -> nat
    decreases ds.len(),
{
    if ds.len() == 0 {
        0
    } else {
        deployments_in_status(ds.drop_last(), status) + if ds.last().status == status {
            1nat
        } else {
            0nat
        }
    }
}

fn count_nodes(nodes: &Vec<NodeSummary>, state: NodeLifecycleState) -> (n: u64)
    ensures
        n == nodes_in_state(nodes@, state),
{
    let mut n: u64 = 0;
    let mut i: usize = 0;
    while i < nodes.len()
        invariant
            i <= nodes@.len(),
            n == nodes_in_state(nodes@.take(i as int), state),
            n <= i,
        decreases nodes@.len() - i,
    {
        assert(nodes@.take(i + 1).drop_last() =~= nodes@.take(i as int));
        if nodes[i].state == state {
            n = n + 1;
        }
        i = i + 1;
    }
    assert(nodes@.take(nodes@.len() as int) =~= nodes@);
    n
}

fn count_deployments(ds: &Vec<DeploymentSummary>, status: DeploymentStatus) -> (n: u64)
    ensures
        n == deployments_in_status(ds@, status),
{
    let mut n: u64 = 0;
    let mut i: usize = 0;
    while i < ds.len()
        invariant
            i <= ds@.len(),
            n == deployments_in_status(ds@.take(i as int), status),
            n <= i,
        decreases ds@.len() - i,
    {
        assert(ds@.take(i + 1).drop_last() =~= ds@.take(i as int));
        if ds[i].status == status {
            n = n + 1;
        }
        i = i + 1;
    }
    assert(ds@.take(ds@.len() as int) =~= ds@);
    n
}

fn count_alerts(alerts: &Vec<ControlPlaneAlertSummary>, severity: AlertSeverity) -> (n: u64)
    ensures
        n == severity_count(alerts@, severity),
{
    let mut n: u64 = 0;
    let mut i: usize = 0;
    while i < alerts.len()
        invariant
            i <= alerts@.len(),
            n == severity_count(alerts@.take(i as int), severity),
            n <= i,
        decreases alerts@.len() - i,
    {
        assert(alerts@.take(i + 1).drop_last() =~= alerts@.take(i as int));
        if alerts[i].severity == severity {
            n = n + 1;
        }
        i = i + 1;
    }
    assert(alerts@.take(alerts@.len() as int) =~= alerts@);
    n
}

pub open spec fn state_line(nodes: Seq<NodeSummary>, state: NodeLifecycleState) -> Seq<char> {
    metric_line(
        "rginx_control_nodes_total"@,
        seq![("state"@, spec_node_state_str(state))],
        nodes_in_state(nodes, state),
    )
}

pub open spec fn status_line(ds: Seq<DeploymentSummary>, status: DeploymentStatus) -> Seq<char> {
    metric_line(
        "rginx_control_deployments_total"@,
        seq![("status"@, spec_deployment_status_str(status))],
        deployments_in_status(ds, status),
    )
}

pub open spec fn severity_line(alerts: Seq<ControlPlaneAlertSummary>, severity: AlertSeverity) -> Seq<char> {
    metric_line(
        "rginx_control_alerts_total"@,
        seq![("severity"@, spec_severity_str(severity))],
        severity_count(alerts, severity),
    )
}

pub open spec fn totals_section(
    total_clusters: u32,
    total_revisions: u64,
    audit_logs_total: u64,
    node_snapshots_total: u64,
) -> Seq<char> {
    let none = Seq::<(Seq<char>, Seq<char>)>::empty();
    help_block("rginx_control_clusters_total"@, "Managed cluster count in the control plane."@)
        + metric_line("rginx_control_clusters_total"@, none, total_clusters as nat)
        + help_block("rginx_control_revisions_total"@, "Published configuration revision count."@)
        + metric_line("rginx_control_revisions_total"@, none, total_revisions as nat)
        + help_block("rginx_control_audit_logs_total"@, "Audit log entries persisted in Postgres."@)
        + metric_line("rginx_control_audit_logs_total"@, none, audit_logs_total as nat)
        + help_block(
        "rginx_control_node_snapshots_total"@,
        "Node snapshot records persisted in Postgres."@,
    ) + metric_line("rginx_control_node_snapshots_total"@, none, node_snapshots_total as nat)
}

pub open spec fn nodes_section(nodes: Seq<NodeSummary>) -> Seq<char> {
    help_block("rginx_control_nodes_total"@, "Managed nodes by lifecycle state."@)
        + state_line(nodes, NodeLifecycleState::Provisioning)
        + state_line(nodes, NodeLifecycleState::Online)
        + state_line(nodes, NodeLifecycleState::Draining)
        + state_line(nodes, NodeLifecycleState::Offline)
        + state_line(nodes, NodeLifecycleState::Drifted)
}

pub open spec fn deployments_section(ds: Seq<DeploymentSummary>) -> Seq<char> {
    help_block("rginx_control_deployments_total"@, "Deployments by status."@)
        + status_line(ds, DeploymentStatus::Draft)
        + status_line(ds, DeploymentStatus::Running)
        + status_line(ds, DeploymentStatus::Paused)
        + status_line(ds, DeploymentStatus::Succeeded)
        + status_line(ds, DeploymentStatus::Failed)
        + status_line(ds, DeploymentStatus::RolledBack)
}

pub open spec fn alerts_section(alerts: Seq<ControlPlaneAlertSummary>) -> Seq<char> {
    help_block("rginx_control_alerts_total"@, "Current derived alerts by severity."@)
        + severity_line(alerts, AlertSeverity::Warning)
        + severity_line(alerts, AlertSeverity::Critical)
}

/// The metrics page: totals, then nodes by state, rollouts by status and
/// alerts by severity, each gauge with its help text.
pub open spec fn spec_metrics_body(
    total_clusters: u32,
    total_revisions: u64,
    audit_logs_total: u64,
    node_snapshots_total: u64,
    nodes: Seq<NodeSummary>,
    deployments: Seq<DeploymentSummary>,
    alerts: Seq<ControlPlaneAlertSummary>,
) -> Seq<char> {
    totals_section(total_clusters, total_revisions, audit_logs_total, node_snapshots_total)
        + nodes_section(nodes) + deployments_section(deployments) + alerts_section(alerts)
}

fn append_labelled(body: &mut String, name: &str, label: &str, label_value: &str, value: u64)
    ensures
        final(body)@ == old(body)@ + metric_line(name@, seq![(label@, label_value@)], value as nat),
{
    let labels: Vec<(&str, &str)> = vec![(label, label_value)];
    append_metric(body, name, &labels, value);
    assert(label_views(labels@) =~= seq![(label@, label_value@)]);
}

fn append_plain(body: &mut String, name: &str, value: u64)
    ensures
        final(body)@ == old(body)@ + metric_line(name@, Seq::empty(), value as nat),
{
    let labels: Vec<(&str, &str)> = Vec::new();
    append_metric(body, name, &labels, value);
    assert(label_views(labels@) =~= Seq::<(Seq<char>, Seq<char>)>::empty());
}

fn append_totals(
    body: &mut String,
    total_clusters: u32,
    total_revisions: u64,
    audit_logs_total: u64,
    node_snapshots_total: u64,
)
    ensures
        final(body)@ == old(body)@ + totals_section(
            total_clusters,
            total_revisions,
            audit_logs_total,
            node_snapshots_total,
        ),
{
    append_metric_help(body, "rginx_control_clusters_total", "Managed cluster count in the control plane.");
    append_plain(body, "rginx_control_clusters_total", total_clusters as u64);
    append_metric_help(body, "rginx_control_revisions_total", "Published configuration revision count.");
    append_plain(body, "rginx_control_revisions_total", total_revisions);
    append_metric_help(body, "rginx_control_audit_logs_total", "Audit log entries persisted in Postgres.");
    append_plain(body, "rginx_control_audit_logs_total", audit_logs_total);
    append_metric_help(
        body,
        "rginx_control_node_snapshots_total",
        "Node snapshot records persisted in Postgres.",
    );
    append_plain(body, "rginx_control_node_snapshots_total", node_snapshots_total);
    assert(final(body)@ =~= old(body)@ + totals_section(
        total_clusters,
        total_revisions,
        audit_logs_total,
        node_snapshots_total,
    ));
}

fn append_node_state(body: &mut String, nodes: &Vec<NodeSummary>, state: NodeLifecycleState)
    ensures
        final(body)@ == old(body)@ + state_line(nodes@, state),
{
    append_labelled(body, "rginx_control_nodes_total", "state", state.as_str(), count_nodes(nodes, state));
}

fn append_nodes(body: &mut String, nodes: &Vec<NodeSummary>)
    ensures
        final(body)@ == old(body)@ + nodes_section(nodes@),
{
    append_metric_help(body, "rginx_control_nodes_total", "Managed nodes by lifecycle state.");
    append_node_state(body, nodes, NodeLifecycleState::Provisioning);
    append_node_state(body, nodes, NodeLifecycleState::Online);
    append_node_state(body, nodes, NodeLifecycleState::Draining);
    append_node_state(body, nodes, NodeLifecycleState::Offline);
    append_node_state(body, nodes, NodeLifecycleState::Drifted);
    assert(final(body)@ =~= old(body)@ + nodes_section(nodes@));
}

fn append_deployment_status(body: &mut String, ds: &Vec<DeploymentSummary>, status: DeploymentStatus)
    ensures
        final(body)@ == old(body)@ + status_line(ds@, status),
{
    append_labelled(
        body,
        "rginx_control_deployments_total",
        "status",
        status.as_str(),
        count_deployments(ds, status),
    );
}

fn append_deployments(body: &mut String, ds: &Vec<DeploymentSummary>)
    ensures
        final(body)@ == old(body)@ + deployments_section(ds@),
{
    append_metric_help(body, "rginx_control_deployments_total", "Deployments by status.");
    append_deployment_status(body, ds, DeploymentStatus::Draft);
    append_deployment_status(body, ds, DeploymentStatus::Running);
    append_deployment_status(body, ds, DeploymentStatus::Paused);
    append_deployment_status(body, ds, DeploymentStatus::Succeeded);
    append_deployment_status(body, ds, DeploymentStatus::Failed);
    append_deployment_status(body, ds, DeploymentStatus::RolledBack);
    assert(final(body)@ =~= old(body)@ + deployments_section(ds@));
}

fn append_alert_severity(body: &mut String, alerts: &Vec<ControlPlaneAlertSummary>, severity: AlertSeverity)
    ensures
        final(body)@ == old(body)@ + severity_line(alerts@, severity),
{
    append_labelled(
        body,
        "rginx_control_alerts_total",
        "severity",
        severity.as_str(),
        count_alerts(alerts, severity),
    );
}

fn append_alerts(body: &mut String, alerts: &Vec<ControlPlaneAlertSummary>)
    ensures
        final(body)@ == old(body)@ + alerts_section(alerts@),
{
    append_metric_help(body, "rginx_control_alerts_total", "Current derived alerts by severity.");
    append_alert_severity(body, alerts, AlertSeverity::Warning);
    append_alert_severity(body, alerts, AlertSeverity::Critical);
    assert(final(body)@ =~= old(body)@ + alerts_section(alerts@));
}

/// Renders the Prometheus text page from the store's totals and listings and
/// the current alerts.
pub fn render_prometheus_metrics(
    total_clusters: u32,
    total_revisions: u64,
    audit_logs_total: u64,
    node_snapshots_total: u64,
    nodes: &Vec<NodeSummary>,
    deployments: &Vec<DeploymentSummary>,
    alerts: &Vec<ControlPlaneAlertSummary>,
) -> (body: String)
    ensures
        body@ == spec_metrics_body(
            total_clusters,
            total_revisions,
            audit_logs_total,
            node_snapshots_total,
            nodes@,
            deployments@,
            alerts@,
        ),
{
    let mut body = String::new();
    append_totals(&mut body, total_clusters, total_revisions, audit_logs_total, node_snapshots_total);
    append_nodes(&mut body, nodes);
    append_deployments(&mut body, deployments);
    append_alerts(&mut body, alerts);
    assert(body@ =~= spec_metrics_body(
        total_clusters,
        total_revisions,
        audit_logs_total,
        node_snapshots_total,
        nodes@,
        deployments@,
        alerts@,
    ));
    body
}

} // verus!
