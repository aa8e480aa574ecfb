//! Records exchanged between the control-plane store, its services and the console.
use vstd::prelude::*;

verus! {

/// Lifecycle state of a managed edge node.
#[derive(Clone, Copy, Debug, PartialEq, Eq, Structural)]
pub enum NodeLifecycleState {
    Provisioning,
    Online,
    Draining,
    Offline,
    Drifted,
}

pub open spec fn spec_node_state_str(s: NodeLifecycleState) -> Seq<char> {
    match s {
        NodeLifecycleState::Provisioning => "provisioning"@,
        NodeLifecycleState::Online => "online"@,
        NodeLifecycleState::Draining => "draining"@,
        NodeLifecycleState::Offline => "offline"@,
        NodeLifecycleState::Drifted => "drifted"@,
    }
}

impl NodeLifecycleState {
    pub fn as_str(&self) -> (r: &'static str)
        ensures
            r@ == spec_node_state_str(*self),
    {
        match self {
            NodeLifecycleState::Provisioning => "provisioning",
            NodeLifecycleState::Online => "online",
            NodeLifecycleState::Draining => "draining",
            NodeLifecycleState::Offline => "offline",
            NodeLifecycleState::Drifted => "drifted",
        }
    }
}

/// Status of a configuration or DNS rollout.
#[derive(Clone, Copy, Debug, PartialEq, Eq, Structural)]
pub enum DeploymentStatus {
    Draft,
    Running,
    Paused,
    Succeeded,
    Failed,
    RolledBack,
}

pub open spec fn spec_deployment_status_str(s: DeploymentStatus) -> Seq<char> {
    match s {
        DeploymentStatus::Draft => "draft"@,
        DeploymentStatus::Running => "running"@,
        DeploymentStatus::Paused => "paused"@,
        DeploymentStatus::Succeeded => "succeeded"@,
        DeploymentStatus::Failed => "failed"@,
        DeploymentStatus::RolledBack => "rolled_back"@,
    }
}

impl DeploymentStatus {
    pub fn as_str(&self) -> (r: &'static str)
        ensures
            r@ == spec_deployment_status_str(*self),
    {
        match self {
            DeploymentStatus::Draft => "draft",
            DeploymentStatus::Running => "running",
            DeploymentStatus::Paused => "paused",
            DeploymentStatus::Succeeded => "succeeded",
            DeploymentStatus::Failed => "failed",
            DeploymentStatus::RolledBack => "rolled_back",
        }
    }
}

/// Status of a DNS rollout; it has the same stages as a configuration rollout.
pub type DnsDeploymentStatus = DeploymentStatus;

/// Severity of a derived control-plane alert.
#[derive(Clone, Copy, Debug, PartialEq, Eq, Structural)]
pub enum AlertSeverity {
    Warning,
    Critical,
}

pub open spec fn spec_severity_str(s: AlertSeverity) -> Seq<char> {
    match s {
        AlertSeverity::Warning => "warning"@,
        AlertSeverity::Critical => "critical"@,
    }
}

impl AlertSeverity {
    pub fn as_str(&self) -> (r: &'static str)
        ensures
            r@ == spec_severity_str(*self),
    {
        match self {
            AlertSeverity::Warning => "warning",
            AlertSeverity::Critical => "critical",
        }
    }
}

/// Console roles.
#[derive(Clone, Copy, Debug, PartialEq, Eq, Structural)]
pub enum AuthRole {
    SuperAdmin,
}

/// A managed edge node as listed by the store.
#[derive(Clone, Debug)]
pub struct NodeSummary {
    pub node_id: String,
    pub cluster_id: String,
    pub advertise_addr: String,
    pub role: String,
    pub state: NodeLifecycleState,
    pub running_version: String,
    pub admin_socket_path: String,
    pub last_seen_unix_ms: u64,
    pub last_snapshot_version: Option<u64>,
    pub runtime_revision: Option<u64>,
    pub runtime_pid: Option<u32>,
    pub listener_count: Option<u32>,
    pub active_connections: Option<u64>,
    pub status_reason: Option<String>,
}

/// A configuration rollout as listed by the store.
#[derive(Clone, Debug)]
pub struct DeploymentSummary {
    pub deployment_id: String,
    pub cluster_id: String,
    pub revision_id: String,
    pub revision_version_label: String,
    pub status: DeploymentStatus,
    pub target_nodes: u32,
    pub healthy_nodes: u32,
    pub failed_nodes: u32,
    pub in_flight_nodes: u32,
    pub parallelism: u32,
    pub failure_threshold: u32,
    pub auto_rollback: bool,
    pub created_by: String,
    pub rollback_of_deployment_id: Option<String>,
    pub rollback_revision_id: Option<String>,
    pub status_reason: Option<String>,
    pub created_at_unix_ms: u64,
    pub started_at_unix_ms: Option<u64>,
    pub finished_at_unix_ms: Option<u64>,
}

/// A DNS rollout as listed by the store.
#[derive(Clone, Debug)]
pub struct DnsDeploymentSummary {
    pub deployment_id: String,
    pub cluster_id: String,
    pub revision_id: String,
    pub revision_version_label: String,
    pub status: DnsDeploymentStatus,
    pub target_nodes: u32,
    pub healthy_nodes: u32,
    pub failed_nodes: u32,
    pub active_nodes: u32,
    pub pending_nodes: u32,
    pub parallelism: u32,
    pub failure_threshold: u32,
    pub auto_rollback: bool,
    pub promotes_cluster_runtime: bool,
    pub created_by: String,
    pub rollback_of_deployment_id: Option<String>,
    pub rollback_revision_id: Option<String>,
    pub rolled_back_by_deployment_id: Option<String>,
    pub status_reason: Option<String>,
    pub created_at_unix_ms: u64,
    pub started_at_unix_ms: Option<u64>,
    pub finished_at_unix_ms: Option<u64>,
}

/// An alert derived from node and rollout state.
#[derive(Clone, Debug)]
pub struct ControlPlaneAlertSummary {
    pub alert_id: String,
    pub cluster_id: Option<String>,
    pub severity: AlertSeverity,
    pub kind: String,
    pub title: String,
    pub message: String,
    pub resource_type: String,
    pub resource_id: String,
    pub observed_at_unix_ms: u64,
}

/// A console user.
#[derive(Clone, Debug)]
pub struct AuthUserSummary {
    pub user_id: String,
    pub username: String,
    pub display_name: String,
    pub active: bool,
    pub roles: Vec<AuthRole>,
    pub created_at_unix_ms: u64,
}

/// A console login session.
#[derive(Clone, Debug)]
pub struct AuthSessionSummary {
    pub session_id: String,
    pub issued_at_unix_ms: u64,
    pub expires_at_unix_ms: u64,
}

/// The user behind a request, with the session it came through.
#[derive(Clone, Debug)]
pub struct AuthenticatedActor {
    pub user: AuthUserSummary,
    pub session: AuthSessionSummary,
}

} // verus!
