//! Checks on what node agents report, and the names the node service gives
//! to its events.
use vstd::prelude::*;

use crate::error::{bad_request, bad_result, ServiceError, ServiceResult};
use crate::model::NodeLifecycleState;
use crate::text::{dec, is_blank, is_blank_seq, push_char, push_str, push_u64, string_of};

verus! {

/// The runtime facts that an agent reports with its node.
#[derive(Clone, Debug)]
pub struct NodeRuntimeReport {
    pub snapshot_version: Option<u64>,
    pub revision: Option<u64>,
    pub pid: Option<u32>,
    pub listener_count: Option<u32>,
    pub active_connections: Option<u64>,
    pub error: Option<String>,
}

/// A node agent's registration or heartbeat.
#[derive(Clone, Debug)]
pub struct NodeAgentRegistrationRequest {
    pub node_id: String,
    pub cluster_id: String,
    pub advertise_addr: String,
    pub role: String,
    pub running_version: String,
    pub admin_socket_path: String,
    pub state: NodeLifecycleState,
    pub runtime: NodeRuntimeReport,
}

/// A node agent's snapshot upload, as far as it is checked.
#[derive(Clone, Debug)]
pub struct NodeSnapshotIngestRequest {
    pub node_id: String,
    pub cluster_id: String,
    pub snapshot_version: u64,
    pub schema_version: u32,
    pub captured_at_unix_ms: u64,
    pub binary_version: String,
    pub included_modules: Vec<String>,
}

/// The first field of a report that is blank, as its error message.
pub open spec fn report_error(r: NodeAgentRegistrationRequest) -> Option<Seq<char>> {
    if is_blank_seq(r.node_id@) {
        Some("node_id should not be empty"@)
    } else if is_blank_seq(r.cluster_id@) {
        Some("cluster_id should not be empty"@)
    } else if is_blank_seq(r.advertise_addr@) {
        Some("advertise_addr should not be empty"@)
    } else if is_blank_seq(r.role@) {
        Some("role should not be empty"@)
    } else if is_blank_seq(r.running_version@) {
        Some("running_version should not be empty"@)
    } else if is_blank_seq(r.admin_socket_path@) {
        Some("admin_socket_path should not be empty"@)
    } else {
        None
    }
}

/// A registration or heartbeat names its node, cluster, address, role,
/// version and admin socket.
pub fn validate_report(request: &NodeAgentRegistrationRequest) -> (r: ServiceResult<()>)
    ensures
        match report_error(*request) {
            None => r is Ok,
            Some(m) => bad_result(r, m),
        },
{
    if is_blank(request.node_id.as_str()) {
        return Err(bad_request("node_id should not be empty"));
    }
    if is_blank(request.cluster_id.as_str()) {
        return Err(bad_request("cluster_id should not be empty"));
    }
    if is_blank(request.advertise_addr.as_str()) {
        return Err(bad_request("advertise_addr should not be empty"));
    }
    if is_blank(request.role.as_str()) {
        return Err(bad_request("role should not be empty"));
    }
    if is_blank(request.running_version.as_str()) {
        return Err(bad_request("running_version should not be empty"));
    }
    if is_blank(request.admin_socket_path.as_str()) {
        return Err(bad_request("admin_socket_path should not be empty"));
    }
    Ok(())
}

/// The first refused field of a snapshot, as its error message.
pub open spec fn snapshot_error(r: NodeSnapshotIngestRequest) -> Option<Seq<char>> {
    if is_blank_seq(r.node_id@) {
        Some("node_id should not be empty"@)
    } else if is_blank_seq(r.cluster_id@) {
        Some("cluster_id should not be empty"@)
    } else if is_blank_seq(r.binary_version@) {
        Some("binary_version should not be empty"@)
    } else if r.included_modules@.len() == 0 {
        Some("included_modules should not be empty"@)
    } else {
        None
    }
}

/// A snapshot names its node, cluster and binary version and includes at
/// least one module.
pub fn validate_snapshot(request: &NodeSnapshotIngestRequest) -> (r: ServiceResult<()>)
    ensures
        match snapshot_error(*request) {
            None => r is Ok,
            Some(m) => bad_result(r, m),
        },
{
    if is_blank(request.node_id.as_str()) {
        return Err(bad_request("node_id should not be empty"));
    }
    if is_blank(request.cluster_id.as_str()) {
        return Err(bad_request("cluster_id should not be empty"));
    }
    if is_blank(request.binary_version.as_str()) {
        return Err(bad_request("binary_version should not be empty"));
    }
    if request.included_modules.len() == 0 {
        return Err(bad_request("included_modules should not be empty"));
    }
    Ok(())
}

/// A report is accepted exactly when it names its node, cluster, address,
/// role, version and admin socket; a refused report names a blank field.
pub proof fn lemma_report_accepted_when_complete(r: NodeAgentRegistrationRequest)
    ensures
        report_error(r) is None <==> (!is_blank_seq(r.node_id@) && !is_blank_seq(r.cluster_id@) && !is_blank_seq(
            r.advertise_addr@,
        ) && !is_blank_seq(r.role@) && !is_blank_seq(r.running_version@) && !is_blank_seq(r.admin_socket_path@)),
        is_blank_seq(r.node_id@) ==> report_error(r) == Some("node_id should not be empty"@),
{
}

/// A snapshot is accepted exactly when it names its node, cluster and binary
/// version and includes at least one module.
pub proof fn lemma_snapshot_accepted_when_complete(r: NodeSnapshotIngestRequest)
    ensures
        snapshot_error(r) is None <==> (!is_blank_seq(r.node_id@) && !is_blank_seq(r.cluster_id@) && !is_blank_seq(
            r.binary_version@,
        ) && r.included_modules@.len() > 0),
{
}

/// `prefix_<milliseconds>_<sequence>`: the node service's event identifiers.
pub fn node_event_id(prefix: &str, now_unix_ms: u64, sequence: u64) -> (id: String)
    ensures
        id@ == prefix@ + seq!['_'] + dec(now_unix_ms as nat) + seq!['_'] + dec(sequence as nat),
{
    let mut id = string_of(prefix);
    push_char(&mut id, '_');
    push_u64(&mut id, now_unix_ms);
    push_char(&mut id, '_');
    push_u64(&mut id, sequence);
    id
}

/// `agent:<node>`: the actor that the audit log records for an agent's writes.
pub fn agent_actor_id(node_id: &str) -> (id: String)
    ensures
        id@ == "agent:"@ + node_id@,
{
    let mut id = string_of("agent:");
    push_str(&mut id, node_id);
    id
}

/// The error for a node that the store does not know.
pub fn node_not_found(node_id: &str) -> (e: ServiceError)
    ensures
        e matches ServiceError::NotFound(m) && m@ == "node `"@ + node_id@ + "` was not found"@,
{
    let mut m = string_of("node `");
    push_str(&mut m, node_id);
    push_str(&mut m, "` was not found");
    ServiceError::NotFound(m)
}

/// Why the worker marks a silent node offline.
pub fn heartbeat_timeout_reason() -> (r: &'static str)
    ensures
        r@ == "heartbeat timeout exceeded"@,
{
    "heartbeat timeout exceeded"
}

/// How many stale nodes a reconcile pass marked offline: those for which the
/// store reported a change.
pub fn count_marked_offline(results: &Vec<bool>) -> (n: usize)
    ensures
        n == results@.filter(|b: bool| b).len(),
{
    let mut n: usize = 0;
    let mut i: usize = 0;
    while i < results.len()
        invariant
            i <= results@.len(),
            n == results@.take(i as int).filter(|b: bool| b).len(),
            n <= i,
        decreases results@.len() - i,
    {
        proof {
            results@.take(i as int).lemma_filter_push(results@[i as int], |b: bool| b);
            assert(results@.take(i + 1) =~= results@.take(i as int).push(results@[i as int]));
        }
        if results[i] {
            n = n + 1;
        }
        i = i + 1;
    }
    assert(results@.take(results@.len() as int) =~= results@);
    n
}

} // verus!
