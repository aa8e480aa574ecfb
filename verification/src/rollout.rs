//! Rollout policy shared by configuration and DNS deployments: request
//! normalisation, target selection and planning, and the per-tick decision
//! that the reconcile worker carries out against the store.
use vstd::prelude::*;

use crate::alerts::opt_view;
use crate::error::{bad_request, bad_result, conflict_result, is_bad_request, is_conflict, ServiceError, ServiceResult};
use crate::model::{
    spec_deployment_status_str, spec_node_state_str, DeploymentStatus, NodeLifecycleState,
    NodeSummary,
};
use crate::text::{
    dec, dec_int, is_blank, is_blank_seq, push_i64, push_str, push_u64, str_eq, string_of, trim, trim_seq,
};

verus! {

// ---------------------------------------------------------------- normalisation

pub open spec fn opt_or(value: Option<u32>, default: u32) -> u32 {
    match value {
        Some(v) => v,
        None => default,
    }
}

/// A requested rollout width or failure budget, capped by the number of targets.
pub open spec fn spec_normalized(value: Option<u32>, target_count: u32) -> u32 {
    let v = opt_or(value, 1);
    let cap: u32 = if target_count > 1 { target_count } else { 1 };
    if v < cap { v } else { cap }
}

/// A requested width or budget (one when none is given) is kept when the
/// targets allow it and otherwise capped at the target count (at least one).
pub proof fn lemma_normalized_caps(value: Option<u32>, target_count: u32)
    ensures
        ({
            let v = match value {
                Some(x) => x,
                None => 1u32,
            };
            let cap = if target_count > 1 { target_count as int } else { 1 };
            &&& v <= cap ==> spec_normalized(value, target_count) == v
            &&& v > cap ==> spec_normalized(value, target_count) == cap
        }),
{
}

/// Parallelism of a rollout: at least one, at most the target count (or one).
pub fn normalize_parallelism(value: Option<u32>, target_count: u32) -> (r: ServiceResult<u32>)
    ensures
        opt_or(value, 1) == 0 ==> bad_result(r, "parallelism should be greater than zero"@,
        ),
        opt_or(value, 1) != 0 ==> r == Ok::<u32, ServiceError>(spec_normalized(value, target_count)),
        r matches Ok(p) ==> 1 <= p && (p <= target_count || p == 1),
{
    let v = match value {
        Some(v) => v,
        None => 1,
    };
    if v == 0 {
        return Err(bad_request("parallelism should be greater than zero"));
    }
    let cap = if target_count > 1 { target_count } else { 1 };
    Ok(if v < cap { v } else { cap })
}

/// Failure budget of a rollout: at least one, at most the target count (or one).
pub fn normalize_failure_threshold(value: Option<u32>, target_count: u32) -> (r: ServiceResult<u32>)
    ensures
        opt_or(value, 1) == 0 ==> bad_result(r, "failure_threshold should be greater than zero"@,
        ),
        opt_or(value, 1) != 0 ==> r == Ok::<u32, ServiceError>(spec_normalized(value, target_count)),
        r matches Ok(t) ==> 1 <= t && (t <= target_count || t == 1),
{
    let v = match value {
        Some(v) => v,
        None => 1,
    };
    if v == 0 {
        return Err(bad_request("failure_threshold should be greater than zero"));
    }
    let cap = if target_count > 1 { target_count } else { 1 };
    Ok(if v < cap { v } else { cap })
}

/// An `Idempotency-Key` header value, trimmed; a blank key is refused.
pub fn normalize_idempotency_key(value: Option<String>) -> (r: ServiceResult<Option<String>>)
    ensures
        match value {
            None => r matches Ok(None),
            Some(v) => if is_blank_seq(v@) {
                bad_result(r, "Idempotency-Key should not be empty"@)
            } else {
                r matches Ok(Some(k)) && k@ == trim_seq(v@)
            },
        },
{
    match value {
        Some(v) => {
            if is_blank(v.as_str()) {
                Err(bad_request("Idempotency-Key should not be empty"))
            } else {
                Ok(Some(trim(v.as_str())))
            }
        },
        None => Ok(None),
    }
}

/// How many more targets may be started while `in_flight` are still running.
pub fn dispatch_capacity(parallelism: u32, in_flight_nodes: u32) -> (r: u32)
    ensures
        r == if parallelism >= in_flight_nodes {
            (parallelism - in_flight_nodes) as u32
        } else {
            0u32
        },
        r + in_flight_nodes <= parallelism || r == 0,
{
    parallelism.saturating_sub(in_flight_nodes)
}

/// An agent must name both its node and its cluster.
pub fn validate_node_identity(node_id: &str, cluster_id: &str) -> (r: ServiceResult<()>)
    ensures
        is_blank_seq(node_id@) ==> bad_result(r, "node_id should not be empty"@),
        !is_blank_seq(node_id@) && is_blank_seq(cluster_id@) ==> bad_result(r, "cluster_id should not be empty"@,
        ),
        !is_blank_seq(node_id@) && !is_blank_seq(cluster_id@) ==> r is Ok,
{
    if is_blank(node_id) {
        return Err(bad_request("node_id should not be empty"));
    }
    if is_blank(cluster_id) {
        return Err(bad_request("cluster_id should not be empty"));
    }
    Ok(())
}

/// A rollout request must name a cluster and a revision.
pub fn validate_create_request(cluster_id: &str, revision_id: &str) -> (r: ServiceResult<()>)
    ensures
        is_blank_seq(cluster_id@) ==> bad_result(r, "cluster_id should not be empty"@,
        ),
        !is_blank_seq(cluster_id@) && is_blank_seq(revision_id@) ==> bad_result(r, "revision_id should not be empty"@),
        !is_blank_seq(cluster_id@) && !is_blank_seq(revision_id@) ==> r is Ok,
{
    if is_blank(cluster_id) {
        return Err(bad_request("cluster_id should not be empty"));
    }
    if is_blank(revision_id) {
        return Err(bad_request("revision_id should not be empty"));
    }
    Ok(())
}

// ---------------------------------------------------------------- progress and the reconcile tick

/// Progress of a configuration rollout as the store reports it.
#[derive(Clone, Debug)]
pub struct DeploymentProgressSnapshot {
    pub deployment_id: String,
    pub cluster_id: String,
    pub status: DeploymentStatus,
    pub parallelism: u32,
    pub failure_threshold: u32,
    pub auto_rollback: bool,
    pub rollback_of_deployment_id: Option<String>,
    pub rollback_revision_id: Option<String>,
    pub total_nodes: u32,
    pub pending_nodes: u32,
    pub in_flight_nodes: u32,
    pub healthy_nodes: u32,
    pub failed_nodes: u32,
}

/// Progress of a DNS rollout as the store reports it; `active_nodes` are the
/// targets assigned and not yet confirmed.
#[derive(Clone, Debug)]
pub struct DnsDeploymentProgressSnapshot {
    pub deployment_id: String,
    pub cluster_id: String,
    pub revision_id: String,
    pub status: DeploymentStatus,
    pub parallelism: u32,
    pub failure_threshold: u32,
    pub auto_rollback: bool,
    pub promotes_cluster_runtime: bool,
    pub rollback_of_deployment_id: Option<String>,
    pub rollback_revision_id: Option<String>,
    pub total_nodes: u32,
    pub pending_nodes: u32,
    pub active_nodes: u32,
    pub healthy_nodes: u32,
    pub failed_nodes: u32,
}

/// The counters that a reconcile tick decides on.
#[derive(Clone, Copy, Debug)]
pub struct RolloutCounts {
    pub status: DeploymentStatus,
    pub parallelism: u32,
    pub failure_threshold: u32,
    pub pending_nodes: u32,
    pub in_flight_nodes: u32,
    pub failed_nodes: u32,
}

impl DeploymentProgressSnapshot {
    pub open spec fn spec_counts(&self) -> RolloutCounts {
        RolloutCounts {
            status: self.status,
            parallelism: self.parallelism,
            failure_threshold: self.failure_threshold,
            pending_nodes: self.pending_nodes,
            in_flight_nodes: self.in_flight_nodes,
            failed_nodes: self.failed_nodes,
        }
    }

    pub fn counts(&self) -> (c: RolloutCounts)
        ensures
            c == self.spec_counts(),
    {
        RolloutCounts {
            status: self.status,
            parallelism: self.parallelism,
            failure_threshold: self.failure_threshold,
            pending_nodes: self.pending_nodes,
            in_flight_nodes: self.in_flight_nodes,
            failed_nodes: self.failed_nodes,
        }
    }
}

impl DnsDeploymentProgressSnapshot {
    pub open spec fn spec_counts(&self) -> RolloutCounts {
        RolloutCounts {
            status: self.status,
            parallelism: self.parallelism,
            failure_threshold: self.failure_threshold,
            pending_nodes: self.pending_nodes,
            in_flight_nodes: self.active_nodes,
            failed_nodes: self.failed_nodes,
        }
    }

    pub fn counts(&self) -> (c: RolloutCounts)
        ensures
            c == self.spec_counts(),
    {
        RolloutCounts {
            status: self.status,
            parallelism: self.parallelism,
            failure_threshold: self.failure_threshold,
            pending_nodes: self.pending_nodes,
            in_flight_nodes: self.active_nodes,
            failed_nodes: self.failed_nodes,
        }
    }
}

pub open spec fn spec_blocks_dispatch(c: RolloutCounts) -> bool {
    c.failed_nodes > 0 && c.failed_nodes >= c.failure_threshold
}

pub open spec fn spec_finalizes(c: RolloutCounts) -> bool {
    c.pending_nodes == 0 && c.in_flight_nodes == 0
}

/// The failure budget is spent: no new target may start.
pub fn should_block_new_dispatch(progress: &DeploymentProgressSnapshot) -> (r: bool)
    ensures
        r == spec_blocks_dispatch(progress.spec_counts()),
{
    progress.failed_nodes > 0 && progress.failed_nodes >= progress.failure_threshold
}

/// Nothing is pending or running any more: the rollout can be closed.
pub fn should_finalize_now(progress: &DeploymentProgressSnapshot) -> (r: bool)
    ensures
        r == spec_finalizes(progress.spec_counts()),
{
    progress.pending_nodes == 0 && progress.in_flight_nodes == 0
}

/// What one reconcile tick does with one active rollout.
#[derive(Clone, Copy, Debug, PartialEq, Eq, Structural)]
pub enum ReconcileStep {
    /// The rollout is paused: leave it alone.
    Skip,
    /// The failure budget is spent but targets are still running: cancel the
    /// pending ones (when there are any) and record why the rollout waits.
    HoldAtThreshold { cancel_pending: bool },
    /// The failure budget is spent and nothing runs: cancel the pending targets
    /// (when there are any) and mark the rollout failed.
    FailAtThreshold { cancel_pending: bool },
    /// Every target finished and none failed: mark the rollout succeeded.
    FinalizeSucceeded,
    /// Every target finished and some failed: mark the rollout failed.
    FinalizeFailed,
    /// Start up to this many more targets.
    Dispatch { capacity: u32 },
    /// The rollout is at full width: wait.
    Wait,
}

pub open spec fn spec_plan_reconcile(c: RolloutCounts) -> ReconcileStep {
    if c.status == DeploymentStatus::Paused {
        ReconcileStep::Skip
    } else if spec_blocks_dispatch(c) {
        if c.in_flight_nodes > 0 {
            ReconcileStep::HoldAtThreshold { cancel_pending: c.pending_nodes > 0 }
        } else {
            ReconcileStep::FailAtThreshold { cancel_pending: c.pending_nodes > 0 }
        }
    } else if spec_finalizes(c) {
        if c.failed_nodes == 0 {
            ReconcileStep::FinalizeSucceeded
        } else {
            ReconcileStep::FinalizeFailed
        }
    } else if c.parallelism > c.in_flight_nodes {
        ReconcileStep::Dispatch { capacity: (c.parallelism - c.in_flight_nodes) as u32 }
    } else {
        ReconcileStep::Wait
    }
}

/// The decision of one reconcile tick for one rollout.
pub fn plan_reconcile(c: &RolloutCounts) -> (step: ReconcileStep)
    ensures
        step == spec_plan_reconcile(*c),
{
    if c.status == DeploymentStatus::Paused {
        return ReconcileStep::Skip;
    }
    if c.failed_nodes > 0 && c.failed_nodes >= c.failure_threshold {
        if c.in_flight_nodes > 0 {
            return ReconcileStep::HoldAtThreshold { cancel_pending: c.pending_nodes > 0 };
        }
        return ReconcileStep::FailAtThreshold { cancel_pending: c.pending_nodes > 0 };
    }
    if c.pending_nodes == 0 && c.in_flight_nodes == 0 {
        if c.failed_nodes == 0 {
            return ReconcileStep::FinalizeSucceeded;
        }
        return ReconcileStep::FinalizeFailed;
    }
    let capacity = dispatch_capacity(c.parallelism, c.in_flight_nodes);
    if capacity > 0 {
        ReconcileStep::Dispatch { capacity }
    } else {
        ReconcileStep::Wait
    }
}

/// A tick never starts targets once the failure budget is spent, never closes a
/// rollout with work outstanding, never widens it past its parallelism, and
/// leaves a paused rollout alone.
pub proof fn lemma_reconcile_safety(c: RolloutCounts)
    ensures
        c.status == DeploymentStatus::Paused ==> spec_plan_reconcile(c) == ReconcileStep::Skip,
        spec_blocks_dispatch(c) ==> !(spec_plan_reconcile(c) is Dispatch),
        spec_plan_reconcile(c) matches ReconcileStep::Dispatch { capacity } ==> capacity > 0
            && capacity + c.in_flight_nodes <= c.parallelism,
        spec_plan_reconcile(c) is FinalizeSucceeded ==> c.pending_nodes == 0 && c.in_flight_nodes
            == 0 && c.failed_nodes == 0,
        spec_plan_reconcile(c) is FinalizeFailed ==> c.pending_nodes == 0 && c.in_flight_nodes == 0
            && c.failed_nodes > 0,
        spec_plan_reconcile(c) is FailAtThreshold ==> c.in_flight_nodes == 0,
{
}

/// What a tick decides, case by case: a paused rollout is left alone; once
/// more targets failed than the budget allows, the pending ones are cancelled
/// and the rollout waits for running targets, or fails at once when none
/// runs; a rollout with no work left succeeds exactly when nothing failed;
/// otherwise it starts as many targets as its width leaves free, or waits
/// when none is free.
pub proof fn lemma_reconcile_decides(c: RolloutCounts)
    ensures
        c.status == DeploymentStatus::Paused ==> spec_plan_reconcile(c) == ReconcileStep::Skip,
        c.status != DeploymentStatus::Paused && c.failed_nodes > 0 && c.failed_nodes >= c.failure_threshold
            && c.in_flight_nodes == 0 ==> spec_plan_reconcile(c) == (ReconcileStep::FailAtThreshold {
            cancel_pending: c.pending_nodes > 0,
        }),
        c.status != DeploymentStatus::Paused && c.failed_nodes > 0 && c.failed_nodes >= c.failure_threshold
            && c.in_flight_nodes > 0 ==> spec_plan_reconcile(c) == (ReconcileStep::HoldAtThreshold {
            cancel_pending: c.pending_nodes > 0,
        }),
        spec_plan_reconcile(c) is HoldAtThreshold ==> c.in_flight_nodes > 0 && c.failed_nodes > 0,
        c.status != DeploymentStatus::Paused && !(c.failed_nodes > 0 && c.failed_nodes >= c.failure_threshold)
            && c.pending_nodes == 0 && c.in_flight_nodes == 0 ==> spec_plan_reconcile(c) == (if c.failed_nodes == 0 {
            ReconcileStep::FinalizeSucceeded
        } else {
            ReconcileStep::FinalizeFailed
        }),
        c.status != DeploymentStatus::Paused && !(c.failed_nodes > 0 && c.failed_nodes >= c.failure_threshold)
            && (c.pending_nodes > 0 || c.in_flight_nodes > 0) && c.parallelism > c.in_flight_nodes
            ==> spec_plan_reconcile(c) == (ReconcileStep::Dispatch {
            capacity: (c.parallelism - c.in_flight_nodes) as u32,
        }),
        c.status != DeploymentStatus::Paused && !(c.failed_nodes > 0 && c.failed_nodes >= c.failure_threshold)
            && (c.pending_nodes > 0 || c.in_flight_nodes > 0) && c.parallelism <= c.in_flight_nodes
            ==> spec_plan_reconcile(c) == ReconcileStep::Wait,
{
}

/// Reason recorded when the failure budget ends a rollout.
pub fn threshold_failure_reason(failure_threshold: u32) -> (r: String)
    ensures
        r@ == "failure threshold "@ + dec(failure_threshold as nat) + " reached"@,
{
    let mut r = string_of("failure threshold ");
    push_u64(&mut r, failure_threshold as u64);
    push_str(&mut r, " reached");
    r
}

/// Reason recorded when a finished rollout had failed targets.
pub fn failed_targets_reason(failed_nodes: u32) -> (r: String)
    ensures
        r@ == dec(failed_nodes as nat) + " target(s) failed"@,
{
    let mut r = String::new();
    push_u64(&mut r, failed_nodes as u64);
    push_str(&mut r, " target(s) failed");
    assert(r@ =~= dec(failed_nodes as nat) + " target(s) failed"@);
    r
}

/// Tallies of one reconcile pass over configuration rollouts.
#[derive(Clone, Debug)]
pub struct DeploymentReconcileReport {
    pub active_deployments: usize,
    pub dispatched_targets: u32,
    pub finalized_deployments: u32,
    pub rollback_deployments_created: u32,
}

/// Tallies of one reconcile pass over DNS rollouts.
#[derive(Clone, Debug)]
pub struct DnsDeploymentReconcileReport {
    pub active_deployments: usize,
    pub assigned_targets: u32,
    pub finalized_deployments: u32,
    pub rollback_deployments_created: u32,
}

pub open spec fn sat_add(a: u32, b: u32) -> u32 {
    if a + b > u32::MAX {
        u32::MAX
    } else {
        (a + b) as u32
    }
}

impl DeploymentReconcileReport {
    /// An empty report for a pass over `active` rollouts.
    pub fn new(active: usize) -> (r: Self)
        ensures
            r.active_deployments == active,
            r.dispatched_targets == 0,
            r.finalized_deployments == 0,
            r.rollback_deployments_created == 0,
    {
        DeploymentReconcileReport {
            active_deployments: active,
            dispatched_targets: 0,
            finalized_deployments: 0,
            rollback_deployments_created: 0,
        }
    }

    /// Counts targets that were started or cancelled.
    pub fn add_dispatched(&mut self, n: u32)
        ensures
            final(self).dispatched_targets == sat_add(old(self).dispatched_targets, n),
            final(self).active_deployments == old(self).active_deployments,
            final(self).finalized_deployments == old(self).finalized_deployments,
            final(self).rollback_deployments_created == old(self).rollback_deployments_created,
    {
        self.dispatched_targets = self.dispatched_targets.saturating_add(n);
    }

    /// Counts a closed rollout and the rollbacks it spawned.
    pub fn add_finalized(&mut self, rollbacks: u32)
        ensures
            final(self).finalized_deployments == sat_add(old(self).finalized_deployments, 1),
            final(self).rollback_deployments_created == sat_add(
                old(self).rollback_deployments_created,
                rollbacks,
            ),
            final(self).active_deployments == old(self).active_deployments,
            final(self).dispatched_targets == old(self).dispatched_targets,
    {
        self.finalized_deployments = self.finalized_deployments.saturating_add(1);
        self.rollback_deployments_created = self.rollback_deployments_created.saturating_add(
            rollbacks,
        );
    }
}

impl DnsDeploymentReconcileReport {
    /// An empty report for a pass over `active` rollouts.
    pub fn new(active: usize) -> (r: Self)
        ensures
            r.active_deployments == active,
            r.assigned_targets == 0,
            r.finalized_deployments == 0,
            r.rollback_deployments_created == 0,
    {
        DnsDeploymentReconcileReport {
            active_deployments: active,
            assigned_targets: 0,
            finalized_deployments: 0,
            rollback_deployments_created: 0,
        }
    }

    /// Counts targets that were assigned or cancelled.
    pub fn add_assigned(&mut self, n: u32)
        ensures
            final(self).assigned_targets == sat_add(old(self).assigned_targets, n),
            final(self).active_deployments == old(self).active_deployments,
            final(self).finalized_deployments == old(self).finalized_deployments,
            final(self).rollback_deployments_created == old(self).rollback_deployments_created,
    {
        self.assigned_targets = self.assigned_targets.saturating_add(n);
    }

    /// Counts a closed rollout and the rollbacks it spawned.
    pub fn add_finalized(&mut self, rollbacks: u32)
        ensures
            final(self).finalized_deployments == sat_add(old(self).finalized_deployments, 1),
            final(self).rollback_deployments_created == sat_add(
                old(self).rollback_deployments_created,
                rollbacks,
            ),
            final(self).active_deployments == old(self).active_deployments,
            final(self).assigned_targets == old(self).assigned_targets,
    {
        self.finalized_deployments = self.finalized_deployments.saturating_add(1);
        self.rollback_deployments_created = self.rollback_deployments_created.saturating_add(
            rollbacks,
        );
    }
}

// ---------------------------------------------------------------- automatic rollback

pub open spec fn spec_auto_rollback_eligible(
    auto_rollback: bool,
    rollback_of: Option<String>,
    healthy_nodes: u32,
    rollback_revision_id: Option<String>,
) -> bool {
    auto_rollback && rollback_of is None && healthy_nodes > 0 && rollback_revision_id is Some
}

/// A failed rollout rolls itself back when it asked to, is not itself a
/// rollback, reached some node, and has a stable revision to return to.
pub fn auto_rollback_eligible(
    auto_rollback: bool,
    rollback_of: &Option<String>,
    healthy_nodes: u32,
    rollback_revision_id: &Option<String>,
) -> (r: bool)
    ensures
        r == spec_auto_rollback_eligible(
            auto_rollback,
            *rollback_of,
            healthy_nodes,
            *rollback_revision_id,
        ),
{
    auto_rollback && rollback_of.is_none() && healthy_nodes > 0 && rollback_revision_id.is_some()
}

/// `prefix` followed by `id`.
pub fn prefixed(prefix: &str, id: &str) -> (r: String)
    ensures
        r@ == prefix@ + id@,
{
    let mut r = string_of(prefix);
    push_str(&mut r, id);
    r
}

/// Idempotency key of the automatic rollback of a configuration rollout.
pub fn auto_rollback_key(deployment_id: &str) -> (r: String)
    ensures
        r@ == "auto-rollback:"@ + deployment_id@,
{
    prefixed("auto-rollback:", deployment_id)
}

/// Idempotency key of the automatic rollback of a DNS rollout.
pub fn auto_dns_rollback_key(deployment_id: &str) -> (r: String)
    ensures
        r@ == "auto-dns-rollback:"@ + deployment_id@,
{
    prefixed("auto-dns-rollback:", deployment_id)
}

/// Idempotency key of an operator's DNS rollback when the request names none.
pub fn dns_rollback_key(deployment_id: &str) -> (r: String)
    ensures
        r@ == "dns-rollback:"@ + deployment_id@,
{
    prefixed("dns-rollback:", deployment_id)
}

// ---------------------------------------------------------------- pause and resume

pub open spec fn rollout_noun(dns: bool) -> Seq<char> {
    if dns {
        "dns deployment `"@
    } else {
        "deployment `"@
    }
}

pub open spec fn spec_transition_conflict(
    dns: bool,
    deployment_id: Seq<char>,
    verb: Seq<char>,
    status: DeploymentStatus,
) -> Seq<char> {
    rollout_noun(dns) + deployment_id + "` cannot be "@ + verb + " from `"@
        + spec_deployment_status_str(status) + "`"@
}

fn transition_conflict(dns: bool, deployment_id: &str, verb: &str, status: DeploymentStatus) -> (e:
    ServiceError)
    ensures
        is_conflict(e, spec_transition_conflict(dns, deployment_id@, verb@, status)),
{
    let mut m = string_of(if dns {
        "dns deployment `"
    } else {
        "deployment `"
    });
    push_str(&mut m, deployment_id);
    push_str(&mut m, "` cannot be ");
    push_str(&mut m, verb);
    push_str(&mut m, " from `");
    push_str(&mut m, status.as_str());
    push_str(&mut m, "`");
    ServiceError::Conflict(m)
}

/// Whether pausing changes anything: a running rollout is paused, a paused one
/// is returned as it is, any other is refused.
pub fn pause_transition(dns: bool, deployment_id: &str, status: DeploymentStatus) -> (r: ServiceResult<bool>)
    ensures
        status == DeploymentStatus::Running ==> r == Ok::<bool, ServiceError>(true),
        status == DeploymentStatus::Paused ==> r == Ok::<bool, ServiceError>(false),
        status != DeploymentStatus::Running && status != DeploymentStatus::Paused ==> conflict_result(r, spec_transition_conflict(dns, deployment_id@, "paused"@, status)),
{
    match status {
        DeploymentStatus::Running => Ok(true),
        DeploymentStatus::Paused => Ok(false),
        _ => Err(transition_conflict(dns, deployment_id, "paused", status)),
    }
}

/// Whether resuming changes anything: a paused rollout runs again, a running one
/// is returned as it is, any other is refused.
pub fn resume_transition(dns: bool, deployment_id: &str, status: DeploymentStatus) -> (r: ServiceResult<bool>)
    ensures
        status == DeploymentStatus::Paused ==> r == Ok::<bool, ServiceError>(true),
        status == DeploymentStatus::Running ==> r == Ok::<bool, ServiceError>(false),
        status != DeploymentStatus::Running && status != DeploymentStatus::Paused ==> conflict_result(r, spec_transition_conflict(dns, deployment_id@, "resumed"@, status)),
{
    match status {
        DeploymentStatus::Paused => Ok(true),
        DeploymentStatus::Running => Ok(false),
        _ => Err(transition_conflict(dns, deployment_id, "resumed", status)),
    }
}


// ---------------------------------------------------------------- target selection

/// A node can be targeted when it belongs to the cluster and, unless offline
/// nodes are allowed, is online or draining.
pub open spec fn node_selectable(n: NodeSummary, cluster_id: Seq<char>, allow_offline: bool) -> bool {
    &&& n.cluster_id@ == cluster_id
    &&& allow_offline || n.state == NodeLifecycleState::Online || n.state
        == NodeLifecycleState::Draining
}

/// Ids of the selectable nodes, in listing order.
pub open spec fn selectable_ids(nodes: Seq<NodeSummary>, cluster_id: Seq<char>, allow_offline: bool) -> Seq<Seq<char>>
    decreases nodes.len(),
{
    if nodes.len() == 0 {
        Seq::empty()
    } else {
        let rest = selectable_ids(nodes.drop_last(), cluster_id, allow_offline);
        if node_selectable(nodes.last(), cluster_id, allow_offline) {
            rest.push(nodes.last().node_id@)
        } else {
            rest
        }
    }
}

/// The first entry of `s` that repeats an earlier one.
pub open spec fn first_duplicate(s: Seq<Seq<char>>) -> Option<Seq<char>>
    decreases s.len(),
{
    if s.len() == 0 {
        None
    } else {
        match first_duplicate(s.drop_last()) {
            Some(d) => Some(d),
            None => if s.drop_last().contains(s.last()) {
                Some(s.last())
            } else {
                None
            },
        }
    }
}

/// The first entry of `s` that `pool` lacks.
pub open spec fn first_missing(s: Seq<Seq<char>>, pool: Seq<Seq<char>>) -> Option<Seq<char>>
    decreases s.len(),
{
    if s.len() == 0 {
        None
    } else {
        match first_missing(s.drop_last(), pool) {
            Some(d) => Some(d),
            None => if pool.contains(s.last()) {
                None
            } else {
                Some(s.last())
            },
        }
    }
}

pub open spec fn str_views(v: Seq<String>) -> Seq<Seq<char>> {
    v.map_values(|s: String| s@)
}

pub proof fn lemma_first_duplicate_prefix(s: Seq<Seq<char>>, n: int)
    requires
        0 <= n <= s.len(),
        first_duplicate(s.take(n)) is Some,
    ensures
        first_duplicate(s) == first_duplicate(s.take(n)),
    decreases s.len() - n,
{
    if n == s.len() {
        assert(s.take(n) =~= s);
    } else {
        assert(s.take(n + 1).drop_last() =~= s.take(n));
        lemma_first_duplicate_prefix(s, n + 1);
    }
}

pub proof fn lemma_first_missing_prefix(s: Seq<Seq<char>>, pool: Seq<Seq<char>>, n: int)
    requires
        0 <= n <= s.len(),
        first_missing(s.take(n), pool) is Some,
    ensures
        first_missing(s, pool) == first_missing(s.take(n), pool),
    decreases s.len() - n,
{
    if n == s.len() {
        assert(s.take(n) =~= s);
    } else {
        assert(s.take(n + 1).drop_last() =~= s.take(n));
        lemma_first_missing_prefix(s, pool, n + 1);
    }
}

/// A node is selectable exactly when it belongs to the cluster and is online
/// or draining (or offline nodes are allowed): the selectable ids are those of
/// such nodes.
pub proof fn lemma_selectable_ids_members(nodes: Seq<NodeSummary>, cluster_id: Seq<char>, allow_offline: bool, x: Seq<char>)
    ensures
        selectable_ids(nodes, cluster_id, allow_offline).contains(x) <==> exists|i: int|
            0 <= i < nodes.len() && #[trigger] nodes[i].node_id@ == x && nodes[i].cluster_id@ == cluster_id && (
            allow_offline || nodes[i].state == NodeLifecycleState::Online || nodes[i].state
                == NodeLifecycleState::Draining),
    decreases nodes.len(),
{
    if nodes.len() > 0 {
        let init = nodes.drop_last();
        let rest = selectable_ids(init, cluster_id, allow_offline);
        lemma_selectable_ids_members(init, cluster_id, allow_offline, x);
        let last = nodes.last();
        let ok = node_selectable(last, cluster_id, allow_offline);
        if selectable_ids(nodes, cluster_id, allow_offline).contains(x) {
            if rest.contains(x) {
                let i = choose|i: int|
                    0 <= i < init.len() && #[trigger] init[i].node_id@ == x && init[i].cluster_id@ == cluster_id && (
                    allow_offline || init[i].state == NodeLifecycleState::Online || init[i].state
                        == NodeLifecycleState::Draining);
                assert(nodes[i] == init[i]);
            } else {
                let k = choose|k: int| 0 <= k < selectable_ids(nodes, cluster_id, allow_offline).len() && selectable_ids(
                    nodes,
                    cluster_id,
                    allow_offline,
                )[k] == x;
                if ok {
                    if k < rest.len() {
                        assert(rest[k] == x);
                    }
                    assert(nodes[nodes.len() - 1] == last);
                }
            }
        }
        if exists|i: int|
            0 <= i < nodes.len() && #[trigger] nodes[i].node_id@ == x && nodes[i].cluster_id@ == cluster_id && (
            allow_offline || nodes[i].state == NodeLifecycleState::Online || nodes[i].state
                == NodeLifecycleState::Draining) {
            let i = choose|i: int|
                0 <= i < nodes.len() && #[trigger] nodes[i].node_id@ == x && nodes[i].cluster_id@ == cluster_id && (
                allow_offline || nodes[i].state == NodeLifecycleState::Online || nodes[i].state
                    == NodeLifecycleState::Draining);
            if i < nodes.len() - 1 {
                assert(init[i] == nodes[i]);
                assert(rest.contains(x));
                let k = choose|k: int| 0 <= k < rest.len() && rest[k] == x;
                if ok {
                    assert(rest.push(last.node_id@)[k] == x);
                }
            } else {
                assert(ok);
                assert(rest.push(last.node_id@)[rest.len() as int] == x);
            }
        }
    }
}

/// No entry of a list repeats an earlier one exactly when none is reported
/// as the first duplicate.
pub proof fn lemma_first_duplicate_none(s: Seq<Seq<char>>)
    ensures
        first_duplicate(s) is None <==> forall|i: int, j: int| 0 <= i < j < s.len() ==> #[trigger] s[i] != #[trigger] s[j],
    decreases s.len(),
{
    if s.len() > 0 {
        let init = s.drop_last();
        lemma_first_duplicate_none(init);
        if first_duplicate(s) is None {
            assert forall|i: int, j: int| 0 <= i < j < s.len() implies #[trigger] s[i] != #[trigger] s[j] by {
                if j < s.len() - 1 {
                    assert(init[i] == s[i] && init[j] == s[j]);
                } else {
                    assert(init[i] == s[i]);
                    if s[i] == s[j] {
                        assert(init.contains(s.last()));
                    }
                }
            }
        } else {
            if first_duplicate(init) is Some {
                let (i, j) = choose|i: int, j: int| 0 <= i < j < init.len() && #[trigger] init[i] == #[trigger] init[j];
                assert(s[i] == init[i] && s[j] == init[j]);
            } else {
                let i = choose|i: int| 0 <= i < init.len() && init[i] == s.last();
                assert(s[i] == init[i]);
                assert(s[i] == s[s.len() - 1]);
            }
        }
    }
}

/// Every entry of a list is in the pool exactly when none is reported missing.
pub proof fn lemma_first_missing_none(s: Seq<Seq<char>>, pool: Seq<Seq<char>>)
    ensures
        first_missing(s, pool) is None <==> forall|i: int| 0 <= i < s.len() ==> pool.contains(#[trigger] s[i]),
        first_missing(s, pool) matches Some(d) ==> s.contains(d) && !pool.contains(d),
    decreases s.len(),
{
    if s.len() > 0 {
        let init = s.drop_last();
        lemma_first_missing_none(init, pool);
        if first_missing(s, pool) is None {
            assert forall|i: int| 0 <= i < s.len() implies pool.contains(#[trigger] s[i]) by {
                if i < s.len() - 1 {
                    assert(init[i] == s[i]);
                }
            }
        } else if first_missing(init, pool) is Some {
            let i = choose|i: int| 0 <= i < init.len() && !pool.contains(#[trigger] init[i]);
            assert(s[i] == init[i]);
            let d = first_missing(init, pool)->0;
            let k = choose|k: int| 0 <= k < init.len() && init[k] == d;
            assert(s[k] == init[k]);
        } else {
            assert(s[s.len() - 1] == s.last());
        }
    }
}

/// A requested target list is used as it is exactly when it is not empty,
/// repeats no node and names only selectable nodes.
pub proof fn lemma_select_targets_accepts(selectable: Seq<Seq<char>>, req: Seq<Seq<char>>)
    ensures
        spec_select_targets(selectable, req) is Ok <==> (req.len() > 0 && (forall|i: int, j: int|
            0 <= i < j < req.len() ==> #[trigger] req[i] != #[trigger] req[j]) && (forall|i: int|
            0 <= i < req.len() ==> selectable.contains(#[trigger] req[i]))),
        spec_select_targets(selectable, req) matches Ok(v) ==> v == req,
{
    lemma_first_duplicate_none(req);
    lemma_first_missing_none(req, selectable);
}

/// Why a requested target list cannot be used.
#[derive(Clone, Debug)]
pub enum TargetSelectionError {
    EmptyList,
    Duplicate(String),
    NotSelectable(String),
}

/// The outcome of checking a requested target list against the selectable node ids.
pub open spec fn spec_select_targets(selectable: Seq<Seq<char>>, req: Seq<Seq<char>>) -> Result<Seq<Seq<char>>, (int, Seq<char>)> {
    if req.len() == 0 {
        Err((0, Seq::empty()))
    } else if first_duplicate(req) is Some {
        Err((1, first_duplicate(req)->0))
    } else if first_missing(req, selectable) is Some {
        Err((2, first_missing(req, selectable)->0))
    } else {
        Ok(req)
    }
}

/// The outcome of target selection: every selectable node without a request.
pub open spec fn spec_resolve(selectable: Seq<Seq<char>>, requested: Option<Seq<Seq<char>>>) -> Result<Seq<Seq<char>>, (int, Seq<char>)> {
    match requested {
        None => Ok(selectable),
        Some(req) => spec_select_targets(selectable, req),
    }
}

pub open spec fn selection_error_view(e: TargetSelectionError) -> (int, Seq<char>) {
    match e {
        TargetSelectionError::EmptyList => (0, Seq::empty()),
        TargetSelectionError::Duplicate(d) => (1, d@),
        TargetSelectionError::NotSelectable(d) => (2, d@),
    }
}

/// Whether `x` is one of the strings in `pool`.
pub fn contains_str(pool: &Vec<String>, x: &str) -> (r: bool)
    ensures
        r == str_views(pool@).contains(x@),
{
    let mut i: usize = 0;
    while i < pool.len()
        invariant
            i <= pool@.len(),
            forall|j: int| 0 <= j < i ==> pool@[j]@ != x@,
        decreases pool@.len() - i,
    {
        if str_eq(pool[i].as_str(), x) {
            assert(str_views(pool@)[i as int] == x@);
            return true;
        }
        i = i + 1;
    }
    proof {
        if str_views(pool@).contains(x@) {
            let j = choose|j: int| 0 <= j < str_views(pool@).len() && str_views(pool@)[j] == x@;
            assert(pool@[j]@ == x@);
        }
    }
    false
}

/// Ids of the nodes of `cluster_id` that a rollout may target.
pub fn selectable_node_ids(cluster_id: &str, nodes: &Vec<NodeSummary>, allow_offline: bool) -> (r: Vec<String>)
    ensures
        str_views(r@) == selectable_ids(nodes@, cluster_id@, allow_offline),
{
    let mut r: Vec<String> = Vec::new();
    let mut i: usize = 0;
    while i < nodes.len()
        invariant
            i <= nodes@.len(),
            str_views(r@) == selectable_ids(nodes@.take(i as int), cluster_id@, allow_offline),
        decreases nodes@.len() - i,
    {
        let node = &nodes[i];
        assert(nodes@.take(i + 1).drop_last() =~= nodes@.take(i as int));
        assert(nodes@.take(i + 1).last() == nodes@[i as int]);
        let ok_state = allow_offline || node.state == NodeLifecycleState::Online || node.state
            == NodeLifecycleState::Draining;
        if ok_state && str_eq(node.cluster_id.as_str(), cluster_id) {
            let id = string_of(node.node_id.as_str());
            let ghost before = r@;
            r.push(id);
            assert(str_views(r@) =~= str_views(before).push(node.node_id@));
        }
        i = i + 1;
    }
    assert(nodes@.take(nodes@.len() as int) =~= nodes@);
    r
}

/// A copy of a list of strings.
pub fn copy_strings(v: &Vec<String>) -> (r: Vec<String>)
    ensures
        str_views(r@) == str_views(v@),
{
    let mut all: Vec<String> = Vec::new();
    let mut i: usize = 0;
    while i < v.len()
        invariant
            i <= v@.len(),
            str_views(all@) == str_views(v@).take(i as int),
        decreases v@.len() - i,
    {
        let ghost before = all@;
        let item = string_of(v[i].as_str());
        all.push(item);
        assert(all@ == before.push(item));
        assert(str_views(all@) =~= str_views(before).push(v@[i as int]@));
        assert(str_views(v@).take(i + 1) =~= str_views(v@).take(i as int).push(v@[i as int]@));
        i = i + 1;
    }
    assert(str_views(v@).take(v@.len() as int) =~= str_views(v@));
    all
}

/// Checks a requested target list against the selectable ids.
pub fn select_targets(selectable: &Vec<String>, req: &Vec<String>) -> (r: Result<Vec<String>, TargetSelectionError>)
    ensures
        match r {
            Ok(v) => spec_select_targets(str_views(selectable@), str_views(req@)) == Ok::<
                Seq<Seq<char>>,
                (int, Seq<char>),
            >(str_views(v@)),
            Err(e) => spec_select_targets(str_views(selectable@), str_views(req@)) == Err::<
                Seq<Seq<char>>,
                (int, Seq<char>),
            >(selection_error_view(e)),
        },
{
    let ghost rv = str_views(req@);
    if req.len() == 0 {
        return Err(TargetSelectionError::EmptyList);
    }
    // duplicates
    let mut i: usize = 0;
    while i < req.len()
        invariant
            rv == str_views(req@),
            i <= req@.len(),
            first_duplicate(rv.take(i as int)) is None,
        decreases req@.len() - i,
    {
        let ghost prefix = rv.take(i as int);
        assert(rv.take(i + 1).drop_last() =~= prefix);
        assert(rv.take(i + 1).last() == rv[i as int]);
        let mut j: usize = 0;
        while j < i && !str_eq(req[j].as_str(), req[i].as_str())
            invariant
                rv == str_views(req@),
                j <= i < req@.len(),
                forall|k: int| 0 <= k < j ==> rv[k] != rv[i as int],
            decreases i - j,
        {
            j = j + 1;
        }
        if j < i {
            proof {
                assert(rv[j as int] == rv[i as int]);
                assert(prefix[j as int] == rv[i as int]);
                assert(prefix.contains(rv[i as int]));
                assert(rv.take(i + 1).len() > 0);
                assert(first_duplicate(rv.take(i + 1)) == Some(rv[i as int]));
                lemma_first_duplicate_prefix(rv, i + 1);
                assert(first_duplicate(rv) == Some(rv[i as int]));
                assert(rv[i as int] == req@[i as int]@);
                assert(spec_select_targets(str_views(selectable@), rv) == Err::<Seq<Seq<char>>, (int, Seq<char>)>((1, rv[i as int])));
            }
            let d = string_of(req[i].as_str());
            assert(selection_error_view(TargetSelectionError::Duplicate(d)) == (1int, rv[i as int]));
            return Err(TargetSelectionError::Duplicate(d));
        }
        proof {
            if prefix.contains(rv[i as int]) {
                let k = choose|k: int| 0 <= k < prefix.len() && prefix[k] == rv[i as int];
                assert(rv[k] == prefix[k]);
            }
        }
        i = i + 1;
    }
    assert(rv.take(req@.len() as int) =~= rv);
    // membership
    let mut i: usize = 0;
    while i < req.len()
        invariant
            rv == str_views(req@),
            i <= req@.len(),
            first_duplicate(rv) is None,
            first_missing(rv.take(i as int), str_views(selectable@)) is None,
        decreases req@.len() - i,
    {
        assert(rv.take(i + 1).drop_last() =~= rv.take(i as int));
        assert(rv.take(i + 1).last() == rv[i as int]);
        if !contains_str(selectable, req[i].as_str()) {
            proof {
                assert(rv.take(i + 1).len() > 0);
                assert(first_missing(rv.take(i + 1), str_views(selectable@)) == Some(rv[i as int]));
                lemma_first_missing_prefix(rv, str_views(selectable@), i + 1);
                assert(rv[i as int] == req@[i as int]@);
            }
            return Err(TargetSelectionError::NotSelectable(string_of(req[i].as_str())));
        }
        i = i + 1;
    }
    assert(rv.take(req@.len() as int) =~= rv);
    let mut out: Vec<String> = Vec::new();
    let mut i: usize = 0;
    while i < req.len()
        invariant
            rv == str_views(req@),
            i <= req@.len(),
            str_views(out@) == rv.take(i as int),
        decreases req@.len() - i,
    {
        let ghost before = out@;
        let item = string_of(req[i].as_str());
        out.push(item);
        assert(out@ == before.push(item));
        assert(str_views(out@) =~= str_views(before).push(rv[i as int]));
        assert(rv.take(i + 1) =~= rv.take(i as int).push(rv[i as int]));
        i = i + 1;
    }
    assert(rv.take(req@.len() as int) =~= rv);
    Ok(out)
}

pub open spec fn spec_no_eligible_message(cluster_id: Seq<char>) -> Seq<char> {
    "cluster `"@ + cluster_id + "` has no online or draining nodes eligible for deployment"@
}

pub open spec fn spec_not_eligible_message(node_id: Seq<char>, cluster_id: Seq<char>) -> Seq<char> {
    "node `"@ + node_id + "` is not online/draining in cluster `"@ + cluster_id + "`"@
}

pub open spec fn spec_duplicate_message(node_id: Seq<char>) -> Seq<char> {
    "target_node_ids contains duplicate node `"@ + node_id + "`"@
}

/// Targets of a configuration rollout: the requested nodes, or every online or
/// draining node of the cluster.
pub fn resolve_deployment_targets(
    cluster_id: &str,
    nodes: &Vec<NodeSummary>,
    requested: Option<&Vec<String>>,
) -> (r: ServiceResult<Vec<String>>)
    ensures
        ({
            let sel = selectable_ids(nodes@, cluster_id@, false);
            let req = match requested {
                Some(q) => Some(str_views(q@)),
                None => None,
            };
            if sel.len() == 0 {
                bad_result(r, spec_no_eligible_message(cluster_id@))
            } else {
                match spec_resolve(sel, req) {
                    Ok(ids) => r matches Ok(v) && str_views(v@) == ids,
                    Err((k, d)) => if k == 0 {
                        bad_result(r, "target_node_ids should not be an empty list"@)
                    } else if k == 1 {
                        bad_result(r, spec_duplicate_message(d))
                    } else {
                        bad_result(r, spec_not_eligible_message(d, cluster_id@))
                    },
                }
            }
        }),
{
    let selectable = selectable_node_ids(cluster_id, nodes, false);
    if selectable.len() == 0 {
        let mut m = string_of("cluster `");
        push_str(&mut m, cluster_id);
        push_str(&mut m, "` has no online or draining nodes eligible for deployment");
        return Err(ServiceError::BadRequest(m));
    }
    let chosen = match requested {
        None => Ok(copy_strings(&selectable)),
        Some(q) => select_targets(&selectable, q),
    };
    match chosen {
        Ok(v) => Ok(v),
        Err(TargetSelectionError::EmptyList) => Err(
            bad_request("target_node_ids should not be an empty list"),
        ),
        Err(TargetSelectionError::Duplicate(d)) => {
            let mut m = string_of("target_node_ids contains duplicate node `");
            push_str(&mut m, d.as_str());
            push_str(&mut m, "`");
            Err(ServiceError::BadRequest(m))
        },
        Err(TargetSelectionError::NotSelectable(d)) => {
            let mut m = string_of("node `");
            push_str(&mut m, d.as_str());
            push_str(&mut m, "` is not online/draining in cluster `");
            push_str(&mut m, cluster_id);
            push_str(&mut m, "`");
            Err(ServiceError::BadRequest(m))
        },
    }
}

pub open spec fn spec_dns_no_eligible_message(cluster_id: Seq<char>, allow_offline: bool) -> Seq<char> {
    "cluster `"@ + cluster_id + "` has no "@ + (if allow_offline {
        "known"@
    } else {
        "online or draining"@
    }) + " nodes eligible for dns deployment"@
}

pub open spec fn spec_dns_not_eligible_message(node_id: Seq<char>, cluster_id: Seq<char>) -> Seq<char> {
    "node `"@ + node_id + "` is not eligible in cluster `"@ + cluster_id + "`"@
}

/// Targets of a DNS rollout with the number of online or draining nodes of the
/// cluster; rollbacks may also target offline nodes.
pub fn resolve_dns_targets(
    cluster_id: &str,
    nodes: &Vec<NodeSummary>,
    requested: Option<&Vec<String>>,
    allow_offline: bool,
) -> (r: ServiceResult<(Vec<String>, usize)>)
    ensures
        ({
            let sel = selectable_ids(nodes@, cluster_id@, allow_offline);
            let req = match requested {
                Some(q) => Some(str_views(q@)),
                None => None,
            };
            if sel.len() == 0 {
                bad_result(r, spec_dns_no_eligible_message(cluster_id@, allow_offline))
            } else {
                match spec_resolve(sel, req) {
                    Ok(ids) => r matches Ok((v, n)) && str_views(v@) == ids && n
                        == selectable_ids(nodes@, cluster_id@, false).len(),
                    Err((k, d)) => if k == 0 {
                        bad_result(r, "target_node_ids should not be an empty list"@)
                    } else if k == 1 {
                        bad_result(r, spec_duplicate_message(d))
                    } else {
                        bad_result(r, spec_dns_not_eligible_message(d, cluster_id@))
                    },
                }
            }
        }),
{
    let online = selectable_node_ids(cluster_id, nodes, false);
    let selectable = selectable_node_ids(cluster_id, nodes, allow_offline);
    if selectable.len() == 0 {
        let mut m = string_of("cluster `");
        push_str(&mut m, cluster_id);
        push_str(&mut m, "` has no ");
        push_str(&mut m, if allow_offline { "known" } else { "online or draining" });
        push_str(&mut m, " nodes eligible for dns deployment");
        return Err(ServiceError::BadRequest(m));
    }
    let chosen = match requested {
        None => Ok(copy_strings(&selectable)),
        Some(q) => select_targets(&selectable, q),
    };
    match chosen {
        Ok(v) => Ok((v, online.len())),
        Err(TargetSelectionError::EmptyList) => Err(
            bad_request("target_node_ids should not be an empty list"),
        ),
        Err(TargetSelectionError::Duplicate(d)) => {
            let mut m = string_of("target_node_ids contains duplicate node `");
            push_str(&mut m, d.as_str());
            push_str(&mut m, "`");
            Err(ServiceError::BadRequest(m))
        },
        Err(TargetSelectionError::NotSelectable(d)) => {
            let mut m = string_of("node `");
            push_str(&mut m, d.as_str());
            push_str(&mut m, "` is not eligible in cluster `");
            push_str(&mut m, cluster_id);
            push_str(&mut m, "`");
            Err(ServiceError::BadRequest(m))
        },
    }
}


// ---------------------------------------------------------------- target planning

/// A rollout target as it is stored when the rollout is created.
#[derive(Clone, Debug)]
pub struct CreateDeploymentTargetRecord {
    pub target_id: String,
    pub cluster_id: String,
    pub node_id: String,
    pub desired_revision_id: String,
    pub batch_index: u32,
}

/// A DNS rollout target as it is stored when the rollout is created.
#[derive(Clone, Debug)]
pub struct CreateDnsDeploymentTargetRecord {
    pub target_id: String,
    pub cluster_id: String,
    pub node_id: String,
    pub desired_revision_id: String,
    pub batch_index: u32,
}

/// Id of the `index`-th target (counted from zero) of a rollout.
pub open spec fn spec_target_id(deployment_id: Seq<char>, index: nat) -> Seq<char> {
    "target_"@ + deployment_id + "_"@ + dec(index + 1)
}

/// Batch of the `index`-th target: targets are cut into runs of `parallelism`.
pub open spec fn spec_batch_index(index: nat, parallelism: u32) -> u32 {
    let i: int = if index > u32::MAX { u32::MAX as int } else { index as int };
    let p: int = if parallelism > 1 { parallelism as int } else { 1 };
    (i / p) as u32
}

pub fn target_id(deployment_id: &str, index: usize) -> (r: String)
    requires
        index < usize::MAX,
    ensures
        r@ == spec_target_id(deployment_id@, index as nat),
{
    let mut r = string_of("target_");
    push_str(&mut r, deployment_id);
    push_str(&mut r, "_");
    push_u64(&mut r, (index + 1) as u64);
    r
}

pub fn batch_index(index: usize, parallelism: u32) -> (b: u32)
    ensures
        b == spec_batch_index(index as nat, parallelism),
{
    let i: u32 = if index > 0xffff_ffffusize {
        0xffff_ffffu32
    } else {
        index as u32
    };
    let p: u32 = if parallelism > 1 {
        parallelism
    } else {
        1
    };
    i / p
}

/// The stored targets of a new rollout, one per node in order.
pub fn plan_deployment_targets(
    deployment_id: &str,
    cluster_id: &str,
    revision_id: &str,
    node_ids: &Vec<String>,
    parallelism: u32,
) -> (r: Vec<CreateDeploymentTargetRecord>)
    ensures
        r@.len() == node_ids@.len(),
        forall|i: int|
            0 <= i < r@.len() ==> {
                let t = #[trigger] r@[i];
                &&& t.target_id@ == spec_target_id(deployment_id@, i as nat)
                &&& t.cluster_id@ == cluster_id@
                &&& t.node_id@ == node_ids@[i]@
                &&& t.desired_revision_id@ == revision_id@
                &&& t.batch_index == spec_batch_index(i as nat, parallelism)
            },
{
    let mut r: Vec<CreateDeploymentTargetRecord> = Vec::new();
    let mut i: usize = 0;
    while i < node_ids.len()
        invariant
            i <= node_ids@.len(),
            r@.len() == i,
            forall|k: int|
                0 <= k < i ==> {
                    let t = #[trigger] r@[k];
                    &&& t.target_id@ == spec_target_id(deployment_id@, k as nat)
                    &&& t.cluster_id@ == cluster_id@
                    &&& t.node_id@ == node_ids@[k]@
                    &&& t.desired_revision_id@ == revision_id@
                    &&& t.batch_index == spec_batch_index(k as nat, parallelism)
                },
        decreases node_ids@.len() - i,
    {
        let record = CreateDeploymentTargetRecord {
            target_id: target_id(deployment_id, i),
            cluster_id: string_of(cluster_id),
            node_id: string_of(node_ids[i].as_str()),
            desired_revision_id: string_of(revision_id),
            batch_index: batch_index(i, parallelism),
        };
        r.push(record);
        i = i + 1;
    }
    r
}

/// The stored targets of a new DNS rollout, one per node in order.
pub fn plan_dns_deployment_targets(
    deployment_id: &str,
    cluster_id: &str,
    revision_id: &str,
    node_ids: &Vec<String>,
    parallelism: u32,
) -> (r: Vec<CreateDnsDeploymentTargetRecord>)
    ensures
        r@.len() == node_ids@.len(),
        forall|i: int|
            0 <= i < r@.len() ==> {
                let t = #[trigger] r@[i];
                &&& t.target_id@ == spec_target_id(deployment_id@, i as nat)
                &&& t.cluster_id@ == cluster_id@
                &&& t.node_id@ == node_ids@[i]@
                &&& t.desired_revision_id@ == revision_id@
                &&& t.batch_index == spec_batch_index(i as nat, parallelism)
            },
{
    let mut r: Vec<CreateDnsDeploymentTargetRecord> = Vec::new();
    let mut i: usize = 0;
    while i < node_ids.len()
        invariant
            i <= node_ids@.len(),
            r@.len() == i,
            forall|k: int|
                0 <= k < i ==> {
                    let t = #[trigger] r@[k];
                    &&& t.target_id@ == spec_target_id(deployment_id@, k as nat)
                    &&& t.cluster_id@ == cluster_id@
                    &&& t.node_id@ == node_ids@[k]@
                    &&& t.desired_revision_id@ == revision_id@
                    &&& t.batch_index == spec_batch_index(k as nat, parallelism)
                },
        decreases node_ids@.len() - i,
    {
        let record = CreateDnsDeploymentTargetRecord {
            target_id: target_id(deployment_id, i),
            cluster_id: string_of(cluster_id),
            node_id: string_of(node_ids[i].as_str()),
            desired_revision_id: string_of(revision_id),
            batch_index: batch_index(i, parallelism),
        };
        r.push(record);
        i = i + 1;
    }
    r
}

/// Batches run in target order and no batch holds more targets than the
/// rollout's parallelism (for target lists that fit the batch counter).
pub proof fn lemma_batches_are_bounded(i: nat, j: nat, parallelism: u32)
    requires
        i <= j <= u32::MAX,
    ensures
        spec_batch_index(i, parallelism) <= spec_batch_index(j, parallelism),
        spec_batch_index(i, parallelism) == spec_batch_index(j, parallelism) ==> j - i < (
        if parallelism > 1 {
            parallelism as int
        } else {
            1
        }),
{
    let p: int = if parallelism > 1 { parallelism as int } else { 1 };
    assert((i as int) / p <= (j as int) / p) by (nonlinear_arith)
        requires
            p >= 1,
            i <= j,
    ;
    assert(((i as int) / p == (j as int) / p) ==> (j as int) - (i as int) < p) by (nonlinear_arith)
        requires
            p >= 1,
            0 <= i <= j,
    ;
}

/// The stable revision a new rollout falls back to: the first other revision of
/// the same cluster, in listing order (newest first).
pub open spec fn spec_rollback_revision(
    revisions: Seq<(Seq<char>, Seq<char>)>,
    cluster_id: Seq<char>,
    revision_id: Seq<char>,
) -> Option<Seq<char>>
    decreases revisions.len(),
{
    if revisions.len() == 0 {
        None
    } else if revisions[0].1 == cluster_id && revisions[0].0 != revision_id {
        Some(revisions[0].0)
    } else {
        spec_rollback_revision(revisions.drop_first(), cluster_id, revision_id)
    }
}

/// The rollback revision is the first listed revision of the same cluster
/// other than the one being rolled out; there is none exactly when every
/// listed revision of the cluster is that one.
pub proof fn lemma_rollback_revision_is_first_other(
    revisions: Seq<(Seq<char>, Seq<char>)>,
    cluster_id: Seq<char>,
    revision_id: Seq<char>,
)
    ensures
        match spec_rollback_revision(revisions, cluster_id, revision_id) {
            Some(s) => s != revision_id && exists|k: int|
                0 <= k < revisions.len() && #[trigger] revisions[k].1 == cluster_id && revisions[k].0 == s && forall|j: int|
                    0 <= j < k ==> !(#[trigger] revisions[j].1 == cluster_id && revisions[j].0 != revision_id),
            None => forall|k: int| 0 <= k < revisions.len() && #[trigger] revisions[k].1 == cluster_id ==> revisions[k].0
                == revision_id,
        },
    decreases revisions.len(),
{
    if revisions.len() > 0 {
        let rest = revisions.drop_first();
        lemma_rollback_revision_is_first_other(rest, cluster_id, revision_id);
        if revisions[0].1 == cluster_id && revisions[0].0 != revision_id {
            assert(revisions[0].1 == cluster_id);
        } else {
            match spec_rollback_revision(rest, cluster_id, revision_id) {
                Some(s) => {
                    let k = choose|k: int|
                        0 <= k < rest.len() && #[trigger] rest[k].1 == cluster_id && rest[k].0 == s && forall|j: int|
                            0 <= j < k ==> !(#[trigger] rest[j].1 == cluster_id && rest[j].0 != revision_id);
                    assert(revisions[k + 1] == rest[k]);
                    assert forall|j: int| 0 <= j < k + 1 implies !(#[trigger] revisions[j].1 == cluster_id
                        && revisions[j].0 != revision_id) by {
                        if j > 0 {
                            assert(revisions[j] == rest[j - 1]);
                        }
                    }
                },
                None => {
                    assert forall|k: int| 0 <= k < revisions.len() && #[trigger] revisions[k].1 == cluster_id implies revisions[k].0
                        == revision_id by {
                        if k > 0 {
                            assert(revisions[k] == rest[k - 1]);
                        }
                    }
                },
            }
        }
    }
}

/// A revision listed by the store: its id and its cluster.
#[derive(Clone, Debug)]
pub struct RevisionRef {
    pub revision_id: String,
    pub cluster_id: String,
}

pub open spec fn revision_refs(v: Seq<RevisionRef>) -> Seq<(Seq<char>, Seq<char>)> {
    v.map_values(|r: RevisionRef| (r.revision_id@, r.cluster_id@))
}

/// Picks the revision a configuration rollout can roll back to.
pub fn select_rollback_revision_id(
    revisions: &Vec<RevisionRef>,
    cluster_id: &str,
    revision_id: &str,
) -> (r: Option<String>)
    ensures
        match r {
            Some(s) => spec_rollback_revision(revision_refs(revisions@), cluster_id@, revision_id@)
                == Some(s@),
            None => spec_rollback_revision(revision_refs(revisions@), cluster_id@, revision_id@)
                is None,
        },
{
    let mut i: usize = 0;
    assert(revision_refs(revisions@).skip(0) =~= revision_refs(revisions@));
    while i < revisions.len()
        invariant
            i <= revisions@.len(),
            spec_rollback_revision(revision_refs(revisions@), cluster_id@, revision_id@)
                == spec_rollback_revision(revision_refs(revisions@).skip(i as int), cluster_id@, revision_id@),
        decreases revisions@.len() - i,
    {
        let ghost rest = revision_refs(revisions@).skip(i as int);
        assert(rest[0] == (revisions@[i as int].revision_id@, revisions@[i as int].cluster_id@));
        if str_eq(revisions[i].cluster_id.as_str(), cluster_id) && !str_eq(
            revisions[i].revision_id.as_str(),
            revision_id,
        ) {
            return Some(string_of(revisions[i].revision_id.as_str()));
        }
        assert(rest.drop_first() =~= revision_refs(revisions@).skip(i + 1));
        i = i + 1;
    }
    None
}

// ---------------------------------------------------------------- DNS rollout specifics

/// State of a DNS rollout target.
#[derive(Clone, Copy, Debug, PartialEq, Eq, Structural)]
pub enum DnsDeploymentTargetState {
    Pending,
    Active,
    Succeeded,
    Failed,
    Cancelled,
}

/// What the worker sees of an assigned DNS target: when it was assigned and
/// what its node reported since.
#[derive(Clone, Debug)]
pub struct ActiveDnsDeploymentTargetObservation {
    pub target_id: String,
    pub node_id: String,
    pub desired_revision_id: String,
    pub assigned_at_unix_ms: Option<u64>,
    pub observed_at_unix_ms: Option<u64>,
    pub observed_revision_id: Option<String>,
    pub node_state: NodeLifecycleState,
}

pub open spec fn spec_target_confirmed(o: ActiveDnsDeploymentTargetObservation) -> bool {
    match (o.assigned_at_unix_ms, o.observed_at_unix_ms, o.observed_revision_id) {
        (Some(a), Some(b), Some(rev)) => b >= a && rev@ == o.desired_revision_id@,
        _ => false,
    }
}

/// A DNS target counts as confirmed exactly when its node reported the
/// desired revision, at or after the target was assigned.
pub proof fn lemma_target_confirmed_when_reported(o: ActiveDnsDeploymentTargetObservation)
    ensures
        spec_target_confirmed(o) <==> (o.assigned_at_unix_ms is Some && o.observed_at_unix_ms is Some
            && o.observed_revision_id is Some && o.observed_at_unix_ms->0 >= o.assigned_at_unix_ms->0
            && o.observed_revision_id->0@ == o.desired_revision_id@),
{
}

/// A failed rollout rolls itself back only when it asked to, is not itself a
/// rollback, reached at least one node, and has a revision to return to.
pub proof fn lemma_auto_rollback_conditions(
    auto_rollback: bool,
    rollback_of: Option<String>,
    healthy_nodes: u32,
    rollback_revision_id: Option<String>,
)
    ensures
        spec_auto_rollback_eligible(auto_rollback, rollback_of, healthy_nodes, rollback_revision_id) <==> (
        auto_rollback && rollback_of is None && healthy_nodes > 0 && rollback_revision_id is Some),
{
}

/// A target is confirmed once its node reported the desired revision at or
/// after the assignment.
pub fn is_target_confirmed(o: &ActiveDnsDeploymentTargetObservation) -> (r: bool)
    ensures
        r == spec_target_confirmed(*o),
{
    match (o.assigned_at_unix_ms, o.observed_at_unix_ms, &o.observed_revision_id) {
        (Some(a), Some(b), Some(rev)) => b >= a && str_eq(
            rev.as_str(),
            o.desired_revision_id.as_str(),
        ),
        _ => false,
    }
}

/// How long a DNS target may take to converge, in seconds.
pub const DNS_TARGET_CONFIRM_TIMEOUT_SECS: u64 = 180;

/// What the worker does with one assigned DNS target.
#[derive(Clone, Debug)]
pub enum TargetVerdict {
    Confirmed,
    Waiting,
    TimedOut(String),
}

pub open spec fn spec_timeout_reason(o: ActiveDnsDeploymentTargetObservation) -> Seq<char> {
    match o.observed_revision_id {
        Some(rev) => "node `"@ + o.node_id@ + "` did not converge to revision `"@
            + o.desired_revision_id@ + "` within "@ + dec(180) + "s (observed `"@ + rev@
            + "`, state `"@ + spec_node_state_str(o.node_state) + "`)"@,
        None => "node `"@ + o.node_id@ + "` did not report dns revision `"@
            + o.desired_revision_id@ + "` within "@ + dec(180) + "s (state `"@
            + spec_node_state_str(o.node_state) + "`)"@,
    }
}

/// A confirmed target succeeds; an unconfirmed one fails once its assignment is
/// older than the timeout, and waits otherwise.
pub fn judge_target(o: &ActiveDnsDeploymentTargetObservation, now_unix_ms: u64) -> (v: TargetVerdict)
    ensures
        spec_target_confirmed(*o) ==> v is Confirmed,
        !spec_target_confirmed(*o) ==> match o.assigned_at_unix_ms {
            None => v is Waiting,
            Some(a) => if now_unix_ms >= a && now_unix_ms - a >= 180_000 {
                v matches TargetVerdict::TimedOut(reason) && reason@ == spec_timeout_reason(*o)
            } else {
                v is Waiting
            },
        },
{
    if is_target_confirmed(o) {
        return TargetVerdict::Confirmed;
    }
    let assigned = match o.assigned_at_unix_ms {
        Some(a) => a,
        None => return TargetVerdict::Waiting,
    };
    if now_unix_ms < assigned || now_unix_ms - assigned < DNS_TARGET_CONFIRM_TIMEOUT_SECS * 1000 {
        return TargetVerdict::Waiting;
    }
    let mut m = string_of("node `");
    push_str(&mut m, o.node_id.as_str());
    match &o.observed_revision_id {
        Some(rev) => {
            push_str(&mut m, "` did not converge to revision `");
            push_str(&mut m, o.desired_revision_id.as_str());
            push_str(&mut m, "` within ");
            push_u64(&mut m, DNS_TARGET_CONFIRM_TIMEOUT_SECS);
            push_str(&mut m, "s (observed `");
            push_str(&mut m, rev.as_str());
            push_str(&mut m, "`, state `");
            push_str(&mut m, o.node_state.as_str());
            push_str(&mut m, "`)");
        },
        None => {
            push_str(&mut m, "` did not report dns revision `");
            push_str(&mut m, o.desired_revision_id.as_str());
            push_str(&mut m, "` within ");
            push_u64(&mut m, DNS_TARGET_CONFIRM_TIMEOUT_SECS);
            push_str(&mut m, "s (state `");
            push_str(&mut m, o.node_state.as_str());
            push_str(&mut m, "`)");
        },
    }
    TargetVerdict::TimedOut(m)
}

/// What an operator's DNS rollback starts from: the rollback revision, once the
/// source rollout is a finished, non-rollback rollout with a stable revision.
pub fn dns_rollback_revision(
    deployment_id: &str,
    rollback_of: &Option<String>,
    status: DeploymentStatus,
    rollback_revision_id: &Option<String>,
) -> (r: ServiceResult<String>)
    ensures
        rollback_of is Some ==> conflict_result(
            r,
            "dns deployment `"@ + deployment_id@ + "` is already a rollback deployment"@,
        ),
        rollback_of is None && status != DeploymentStatus::Succeeded && status
            != DeploymentStatus::Failed ==> conflict_result(
            r,
            spec_transition_conflict(true, deployment_id@, "rolled back"@, status),
        ),
        rollback_of is None && (status == DeploymentStatus::Succeeded || status
            == DeploymentStatus::Failed) ==> match rollback_revision_id {
            Some(rev) => r matches Ok(s) && s@ == rev@,
            None => conflict_result(
                r,
                "dns deployment `"@ + deployment_id@ + "` does not have a stable rollback revision"@,
            ),
        },
{
    if rollback_of.is_some() {
        let mut m = string_of("dns deployment `");
        push_str(&mut m, deployment_id);
        push_str(&mut m, "` is already a rollback deployment");
        return Err(ServiceError::Conflict(m));
    }
    match status {
        DeploymentStatus::Succeeded | DeploymentStatus::Failed => {},
        _ => return Err(transition_conflict(true, deployment_id, "rolled back", status)),
    }
    match rollback_revision_id {
        Some(rev) => Ok(string_of(rev.as_str())),
        None => {
            let mut m = string_of("dns deployment `");
            push_str(&mut m, deployment_id);
            push_str(&mut m, "` does not have a stable rollback revision");
            Err(ServiceError::Conflict(m))
        },
    }
}

/// A DNS rollout reaches the whole cluster (and so becomes its runtime revision
/// when it succeeds) when it targets every online or draining node.
pub fn promotes_cluster_runtime(target_count: usize, eligible_online_count: usize) -> (r: bool)
    ensures
        r == (target_count == eligible_online_count && eligible_online_count > 0),
{
    target_count == eligible_online_count && eligible_online_count > 0
}


/// A node pinned by an earlier DNS canary to a published revision.
#[derive(Clone, Debug)]
pub struct NodeDnsOverride {
    pub node_id: String,
    pub published_revision_id: String,
}

/// The first canary override that pins a node to another revision than `revision_id`.
pub open spec fn spec_conflicting_override(overrides: Seq<NodeDnsOverride>, revision_id: Seq<char>) -> Option<int>
    decreases overrides.len(),
{
    if overrides.len() == 0 {
        None
    } else if overrides[0].published_revision_id@ != revision_id {
        Some(0)
    } else {
        match spec_conflicting_override(overrides.drop_first(), revision_id) {
            Some(k) => Some(k + 1),
            None => None,
        }
    }
}

pub open spec fn spec_override_conflict_message(cluster_id: Seq<char>, o: NodeDnsOverride) -> Seq<char> {
    "cluster `"@ + cluster_id + "` already has dns canary node `"@ + o.node_id@
        + "` pinned to revision `"@ + o.published_revision_id@
        + "`; roll it back or continue deploying the same revision first"@
}

/// A new DNS rollout may not override canary nodes pinned to another revision.
pub fn check_canary_overrides(
    cluster_id: &str,
    overrides: &Vec<NodeDnsOverride>,
    revision_id: &str,
) -> (r: ServiceResult<()>)
    ensures
        match spec_conflicting_override(overrides@, revision_id@) {
            None => r is Ok,
            Some(k) => 0 <= k < overrides@.len() && conflict_result(
                r,
                spec_override_conflict_message(cluster_id@, overrides@[k]),
            ),
        },
{
    let mut i: usize = 0;
    while i < overrides.len()
        invariant
            i <= overrides@.len(),
            forall|k: int| 0 <= k < i ==> #[trigger] overrides@[k].published_revision_id@ == revision_id@,
        decreases overrides@.len() - i,
    {
        if !str_eq(overrides[i].published_revision_id.as_str(), revision_id) {
            proof {
                lemma_conflicting_override_at(overrides@, revision_id@, i as int);
            }
            let o = &overrides[i];
            let mut m = string_of("cluster `");
            push_str(&mut m, cluster_id);
            push_str(&mut m, "` already has dns canary node `");
            push_str(&mut m, o.node_id.as_str());
            push_str(&mut m, "` pinned to revision `");
            push_str(&mut m, o.published_revision_id.as_str());
            push_str(&mut m, "`; roll it back or continue deploying the same revision first");
            return Err(ServiceError::Conflict(m));
        }
        i = i + 1;
    }
    proof {
        lemma_no_conflicting_override(overrides@, revision_id@);
    }
    Ok(())
}

pub proof fn lemma_conflicting_override_at(s: Seq<NodeDnsOverride>, rev: Seq<char>, i: int)
    requires
        0 <= i < s.len(),
        forall|k: int| 0 <= k < i ==> #[trigger] s[k].published_revision_id@ == rev,
        s[i].published_revision_id@ != rev,
    ensures
        spec_conflicting_override(s, rev) == Some(i),
    decreases i,
{
    if i > 0 {
        let t = s.drop_first();
        assert forall|k: int| 0 <= k < i - 1 implies #[trigger] t[k].published_revision_id@ == rev by {
            assert(t[k] == s[k + 1]);
        }
        assert(s[0].published_revision_id@ == rev);
        lemma_conflicting_override_at(t, rev, i - 1);
    }
}

pub proof fn lemma_no_conflicting_override(s: Seq<NodeDnsOverride>, rev: Seq<char>)
    requires
        forall|k: int| 0 <= k < s.len() ==> #[trigger] s[k].published_revision_id@ == rev,
    ensures
        spec_conflicting_override(s, rev) is None,
    decreases s.len(),
{
    if s.len() > 0 {
        let t = s.drop_first();
        assert forall|k: int| 0 <= k < t.len() implies #[trigger] t[k].published_revision_id@ == rev by {
            assert(t[k] == s[k + 1]);
        }
        assert(s[0].published_revision_id@ == rev);
        lemma_no_conflicting_override(t, rev);
    }
}

/// What an agent reports when it finishes a rollout task.
#[derive(Clone, Debug)]
pub struct TaskCompletionRecord {
    pub succeeded: bool,
    pub message: Option<String>,
    pub runtime_revision: Option<u64>,
    pub completion_idempotency_key: Option<String>,
}

/// A task is acknowledged or completed on behalf of a named node.
pub fn require_node_id(node_id: &str) -> (r: ServiceResult<()>)
    ensures
        is_blank_seq(node_id@) ==> bad_result(r, "node_id should not be empty"@),
        !is_blank_seq(node_id@) ==> r is Ok,
{
    if is_blank(node_id) {
        Err(bad_request("node_id should not be empty"))
    } else {
        Ok(())
    }
}

/// The audit action and result of a task completion.
pub fn task_completion_outcome(succeeded: bool) -> (r: (&'static str, &'static str))
    ensures
        succeeded ==> r.0@ == "deployment.task_succeeded"@ && r.1@ == "succeeded"@,
        !succeeded ==> r.0@ == "deployment.task_failed"@ && r.1@ == "failed"@,
{
    if succeeded {
        ("deployment.task_succeeded", "succeeded")
    } else {
        ("deployment.task_failed", "failed")
    }
}

// ---------------------------------------------------------------- dispatch

/// What an agent is asked to do with a revision.
#[derive(Clone, Copy, Debug, PartialEq, Eq, Structural)]
pub enum DeploymentTaskKind {
    ApplyRevision,
    RollbackRevision,
}

pub open spec fn spec_task_kind_str(k: DeploymentTaskKind) -> Seq<char> {
    match k {
        DeploymentTaskKind::ApplyRevision => "apply_revision"@,
        DeploymentTaskKind::RollbackRevision => "rollback_revision"@,
    }
}

impl DeploymentTaskKind {
    pub fn as_str(&self) -> (r: &'static str)
        ensures
            r@ == spec_task_kind_str(*self),
    {
        match self {
            DeploymentTaskKind::ApplyRevision => "apply_revision",
            DeploymentTaskKind::RollbackRevision => "rollback_revision",
        }
    }
}

/// The id of the task dispatched at `now_ms` for the `index`-th selected target.
pub open spec fn spec_dispatch_task_id(now_ms: int, index: nat, target_id: Seq<char>) -> Seq<char> {
    "task_"@ + dec_int(now_ms) + "_"@ + dec(index + 1) + "_"@ + target_id
}

/// The task that a pending target receives when it is dispatched.
#[derive(Clone, Debug)]
pub struct DispatchedTask {
    pub task_id: String,
    pub kind: DeploymentTaskKind,
    pub attempt: i32,
}

/// The task for the `index`-th pending target selected in one dispatch: a
/// rollback rollout sends rollback tasks, any other apply tasks, and the
/// target's attempt count goes up by one.
pub fn dispatch_task(now_unix_ms: i64, index: usize, target_id: &str, attempt_count: i32, is_rollback: bool) -> (t:
    DispatchedTask)
    requires
        index < usize::MAX,
        attempt_count < i32::MAX,
    ensures
        t.task_id@ == spec_dispatch_task_id(now_unix_ms as int, index as nat, target_id@),
        t.kind == (if is_rollback {
            DeploymentTaskKind::RollbackRevision
        } else {
            DeploymentTaskKind::ApplyRevision
        }),
        t.attempt == attempt_count + 1,
{
    let mut task_id = string_of("task_");
    push_i64(&mut task_id, now_unix_ms);
    push_str(&mut task_id, "_");
    push_u64(&mut task_id, (index + 1) as u64);
    push_str(&mut task_id, "_");
    push_str(&mut task_id, target_id);
    let kind = if is_rollback {
        DeploymentTaskKind::RollbackRevision
    } else {
        DeploymentTaskKind::ApplyRevision
    };
    DispatchedTask { task_id, kind, attempt: attempt_count + 1 }
}

// ---------------------------------------------------------------- acknowledgement and completion

/// A task that reached one of these states is never changed again.
pub open spec fn is_terminal_task_state(s: Seq<char>) -> bool {
    s == "succeeded"@ || s == "failed"@ || s == "cancelled"@
}

/// The state a task and its target take when the agent reports its outcome.
pub open spec fn completion_state(succeeded: bool) -> Seq<char> {
    if succeeded {
        "succeeded"@
    } else {
        "failed"@
    }
}

/// The state a task moves to on a completion report, if it moves at all.
pub open spec fn spec_completion_next(current: Seq<char>, succeeded: bool) -> Option<Seq<char>> {
    if is_terminal_task_state(current) {
        None
    } else {
        Some(completion_state(succeeded))
    }
}

/// An agent's acknowledgement moves only a pending task.
pub fn acknowledges(current_state: &str) -> (r: bool)
    ensures
        r == (current_state@ == "pending"@),
{
    str_eq(current_state, "pending")
}

/// When a task counts as acknowledged: at its acknowledgement, else at its
/// completion, else at its dispatch.
pub fn acknowledged_at(acked_at: Option<i64>, completed_at: Option<i64>, dispatched_at: i64) -> (r: i64)
    ensures
        r == (match acked_at {
            Some(a) => a,
            None => match completed_at {
                Some(c) => c,
                None => dispatched_at,
            },
        }),
{
    match acked_at {
        Some(a) => a,
        None => match completed_at {
            Some(c) => c,
            None => dispatched_at,
        },
    }
}

/// What a completion report writes to a task and its target.
#[derive(Clone, Debug)]
pub struct TaskCompletionUpdate {
    pub task_state: String,
    pub target_state: String,
    pub last_error: Option<String>,
}

/// The writes of a completion report: none for a task already finished,
/// else the outcome's state for task and target, and for a failure the
/// agent's message as the target's last error.
pub fn task_completion_update(current_state: &str, completion: &TaskCompletionRecord) -> (r: Option<
    TaskCompletionUpdate,
>)
    ensures
        is_terminal_task_state(current_state@) ==> r is None,
        !is_terminal_task_state(current_state@) ==> (r matches Some(u) && Some(u.task_state@) == spec_completion_next(
            current_state@,
            completion.succeeded,
        ) && u.target_state@ == completion_state(completion.succeeded) && (if completion.succeeded {
            u.last_error is None
        } else {
            opt_view(u.last_error) == opt_view(completion.message)
        })),
{
    if str_eq(current_state, "succeeded") || str_eq(current_state, "failed") || str_eq(current_state, "cancelled") {
        return None;
    }
    let state = if completion.succeeded {
        "succeeded"
    } else {
        "failed"
    };
    let last_error = if completion.succeeded {
        None
    } else {
        match &completion.message {
            Some(m) => Some(string_of(m.as_str())),
            None => None,
        }
    };
    Some(TaskCompletionUpdate { task_state: string_of(state), target_state: string_of(state), last_error })
}

/// Completion is final: once a report has moved a task, no later report
/// moves it again, whatever that report says.
pub proof fn lemma_completion_is_final(current: Seq<char>, first: bool, second: bool)
    ensures
        spec_completion_next(current, first) matches Some(next) ==> spec_completion_next(next, second) is None,
{
}

// ---------------------------------------------------------------- DNS activation

/// How many pending DNS targets one activation may take: the limit, capped at `i32::MAX`.
pub fn dns_activation_limit(limit: u32) -> (r: i64)
    ensures
        r == (if limit <= i32::MAX { limit as int } else { i32::MAX as int }),
{
    if limit <= 0x7fff_ffff {
        limit as i64
    } else {
        0x7fff_ffff
    }
}

/// What activating a DNS target does to its node's override.
#[derive(Clone, Copy, Debug, PartialEq, Eq, Structural)]
pub enum NodeOverrideAction {
    /// The node already serves the cluster's stable revision: its override goes.
    Clear,
    /// The node is pinned to the rollout's revision.
    Pin,
}

/// A node whose desired revision is the cluster's stable one needs no override.
pub fn activation_override(stable_revision_id: Option<&str>, desired_revision_id: &str) -> (r: NodeOverrideAction)
    ensures
        r == (if stable_revision_id matches Some(s) && s@ == desired_revision_id@ {
            NodeOverrideAction::Clear
        } else {
            NodeOverrideAction::Pin
        }),
{
    match stable_revision_id {
        Some(s) => if str_eq(s, desired_revision_id) {
            NodeOverrideAction::Clear
        } else {
            NodeOverrideAction::Pin
        },
        None => NodeOverrideAction::Pin,
    }
}

// ---------------------------------------------------------------- a task's row

/// An agent task and its rollout target, as the store holds them.
#[derive(Clone, Debug)]
pub struct AgentTaskRow {
    pub state: String,
    pub target_state: String,
    pub target_last_error: Option<String>,
    pub dispatched_at: i64,
    pub acked_at: Option<i64>,
    pub completed_at: Option<i64>,
}

/// A task row as values.
pub struct TaskRowView {
    pub state: Seq<char>,
    pub target_state: Seq<char>,
    pub target_last_error: Option<Seq<char>>,
    pub dispatched_at: i64,
    pub acked_at: Option<i64>,
    pub completed_at: Option<i64>,
}

pub open spec fn task_row_view(r: AgentTaskRow) -> TaskRowView {
    TaskRowView {
        state: r.state@,
        target_state: r.target_state@,
        target_last_error: opt_view(r.target_last_error),
        dispatched_at: r.dispatched_at,
        acked_at: r.acked_at,
        completed_at: r.completed_at,
    }
}

pub open spec fn opt_task_row_view(r: Option<AgentTaskRow>) -> Option<TaskRowView> {
    match r {
        Some(row) => Some(task_row_view(row)),
        None => None,
    }
}

/// An acknowledgement at `now`: a pending task and its target become
/// acknowledged; any other task stays as it is.
pub open spec fn spec_ack_row(r: TaskRowView, now: i64) -> TaskRowView {
    if r.state == "pending"@ {
        TaskRowView { state: "acknowledged"@, target_state: "acknowledged"@, acked_at: Some(now), ..r }
    } else {
        r
    }
}

/// A completion report at `now`: an unfinished task and its target take the
/// outcome's state, the target keeps the agent's message as its last error on
/// failure, and the times are set; a finished task stays as it is.
pub open spec fn spec_complete_row(r: TaskRowView, succeeded: bool, message: Option<Seq<char>>, now: i64) -> TaskRowView {
    if is_terminal_task_state(r.state) {
        r
    } else {
        TaskRowView {
            state: completion_state(succeeded),
            target_state: completion_state(succeeded),
            target_last_error: if succeeded {
                None
            } else {
                message
            },
            acked_at: match r.acked_at {
                Some(a) => Some(a),
                None => Some(now),
            },
            completed_at: Some(now),
            ..r
        }
    }
}

fn copy_row(r: &AgentTaskRow) -> (c: AgentTaskRow)
    ensures
        task_row_view(c) == task_row_view(*r),
{
    AgentTaskRow {
        state: string_of(r.state.as_str()),
        target_state: string_of(r.target_state.as_str()),
        target_last_error: match &r.target_last_error {
            Some(m) => Some(string_of(m.as_str())),
            None => None,
        },
        dispatched_at: r.dispatched_at,
        acked_at: r.acked_at,
        completed_at: r.completed_at,
    }
}

/// The row after an agent acknowledges the task at `now`; `None` when the
/// store has no such task for the node (nothing changes).
pub fn ack_task_row(row: &Option<AgentTaskRow>, now: i64) -> (r: Option<AgentTaskRow>)
    ensures
        opt_task_row_view(r) == match opt_task_row_view(*row) {
            Some(v) => Some(spec_ack_row(v, now)),
            None => None,
        },
{
    match row {
        None => None,
        Some(t) => {
            let c = copy_row(t);
            if acknowledges(t.state.as_str()) {
                Some(
                    AgentTaskRow {
                        state: string_of("acknowledged"),
                        target_state: string_of("acknowledged"),
                        acked_at: Some(now),
                        ..c
                    },
                )
            } else {
                Some(c)
            }
        },
    }
}

/// The row after an agent reports the task's completion at `now`; `None`
/// when the store has no such task for the node (nothing changes).
pub fn complete_task_row(row: &Option<AgentTaskRow>, completion: &TaskCompletionRecord, now: i64) -> (r: Option<
    AgentTaskRow,
>)
    ensures
        opt_task_row_view(r) == match opt_task_row_view(*row) {
            Some(v) => Some(spec_complete_row(v, completion.succeeded, opt_view(completion.message), now)),
            None => None,
        },
{
    match row {
        None => None,
        Some(t) => {
            let c = copy_row(t);
            match task_completion_update(t.state.as_str(), completion) {
                None => Some(c),
                Some(u) => {
                    let acked_at = match t.acked_at {
                        Some(a) => Some(a),
                        None => Some(now),
                    };
                    Some(
                        AgentTaskRow {
                            state: u.task_state,
                            target_state: u.target_state,
                            target_last_error: u.last_error,
                            acked_at,
                            completed_at: Some(now),
                            ..c
                        },
                    )
                },
            }
        },
    }
}

/// Acknowledging and completing are idempotent and never move a task back:
/// a second acknowledgement changes nothing, a second completion changes
/// nothing whatever it reports, and an acknowledgement after completion
/// changes nothing.
pub proof fn lemma_task_row_idempotent(
    r: TaskRowView,
    first: bool,
    first_message: Option<Seq<char>>,
    second: bool,
    second_message: Option<Seq<char>>,
    t1: i64,
    t2: i64,
)
    ensures
        spec_ack_row(spec_ack_row(r, t1), t2) == spec_ack_row(r, t1),
        spec_complete_row(spec_complete_row(r, first, first_message, t1), second, second_message, t2)
            == spec_complete_row(r, first, first_message, t1),
        spec_ack_row(spec_complete_row(r, first, first_message, t1), t2) == spec_complete_row(
            r,
            first,
            first_message,
            t1,
        ),
{
    reveal_strlit("pending");
    reveal_strlit("acknowledged");
    reveal_strlit("succeeded");
    reveal_strlit("failed");
    assert("acknowledged"@.len() != "pending"@.len());
    assert("succeeded"@.len() != "pending"@.len());
    assert("failed"@.len() != "pending"@.len());
    reveal_strlit("cancelled");
    assert("cancelled"@ != "pending"@) by {
        assert("cancelled"@[0] != "pending"@[0]);
    }
}

} // verus!
