//! The errors that creating and finishing rollouts report: lock conflicts,
//! mismatched revisions and what the store's unique indexes refuse.
use vstd::prelude::*;

use crate::error::{is_bad_request, is_conflict, is_internal, ServiceError, ServiceResult};
use crate::model::{spec_deployment_status_str, DeploymentStatus};
use crate::rollout::{
    check_canary_overrides, spec_conflicting_override, spec_override_conflict_message, str_views,
    DnsDeploymentTargetState, NodeDnsOverride,
};
use crate::text::{chars_of, push_str, string_of};

verus! {

/// Whether `needle` occurs in `text`.
pub open spec fn contains_seq(text: Seq<char>, needle: Seq<char>) -> bool {
    exists|i: int| 0 <= i && i + needle.len() <= text.len() && #[trigger] text.subrange(i, i + needle.len()) == needle
}

/// Whether `needle` occurs in `text` (`str::contains`).
pub fn contains_text(text: &str, needle: &str) -> (r: bool)
    ensures
        r == contains_seq(text@, needle@),
{
    let t = chars_of(text);
    let n = chars_of(needle);
    if n.len() > t.len() {
        proof {
            assert forall|i: int| 0 <= i && i + n@.len() <= t@.len() implies #[trigger] t@.subrange(i, i + n@.len()) != n@ by {}
        }
        return false;
    }
    let mut i: usize = 0;
    while i <= t.len() - n.len()
        invariant
            t@ == text@,
            n@ == needle@,
            n@.len() <= t@.len(),
            i <= t@.len() - n@.len() + 1,
            forall|j: int| 0 <= j < i ==> #[trigger] t@.subrange(j, j + n@.len()) != n@,
        decreases t@.len() - i,
    {
        let mut k: usize = 0;
        let mut same = true;
        while k < n.len()
            invariant
                i + n@.len() <= t@.len(),
                t@.len() <= usize::MAX,
                k <= n@.len(),
                same == (forall|m: int| 0 <= m < k ==> t@[i + m] == n@[m]),
            decreases n@.len() - k,
        {
            if t[i + k] != n[k] {
                same = false;
            }
            k = k + 1;
        }
        if same {
            assert(t@.subrange(i as int, i + n@.len()) =~= n@);
            return true;
        }
        proof {
            let m = choose|m: int| 0 <= m < n@.len() && t@[i + m] != n@[m];
            assert(t@.subrange(i as int, i + n@.len())[m] != n@[m]);
        }
        i = i + 1;
    }
    false
}

/// Which kind of rollout a message speaks of.
#[derive(Clone, Copy, Debug, PartialEq, Eq, Structural)]
pub enum RolloutKind {
    Config,
    Dns,
}

pub open spec fn rollout_noun(kind: RolloutKind) -> Seq<char> {
    match kind {
        RolloutKind::Config => "deployment"@,
        RolloutKind::Dns => "dns deployment"@,
    }
}

fn noun(kind: RolloutKind) -> (r: &'static str)
    ensures
        r@ == rollout_noun(kind),
{
    match kind {
        RolloutKind::Config => "deployment",
        RolloutKind::Dns => "dns deployment",
    }
}

/// The conflict when the cluster already has an active rollout.
pub fn active_rollout_conflict(kind: RolloutKind, cluster_id: &str, active_id: &str, status: DeploymentStatus) -> (e:
    ServiceError)
    ensures
        is_conflict(
            e,
            rollout_noun(kind) + " lock not acquired for cluster `"@ + cluster_id@ + "`; active deployment `"@ + active_id@
                + "` is still "@ + spec_deployment_status_str(status),
        ),
{
    let mut m = string_of(noun(kind));
    push_str(&mut m, " lock not acquired for cluster `");
    push_str(&mut m, cluster_id);
    push_str(&mut m, "`; active deployment `");
    push_str(&mut m, active_id);
    push_str(&mut m, "` is still ");
    push_str(&mut m, status.as_str());
    ServiceError::Conflict(m)
}

pub open spec fn revision_noun(kind: RolloutKind) -> Seq<char> {
    match kind {
        RolloutKind::Config => "revision `"@,
        RolloutKind::Dns => "dns revision `"@,
    }
}

fn revision_prefix(kind: RolloutKind) -> (r: &'static str)
    ensures
        r@ == revision_noun(kind),
{
    match kind {
        RolloutKind::Config => "revision `",
        RolloutKind::Dns => "dns revision `",
    }
}

/// A rollout's revision must belong to the rollout's cluster.
pub fn check_revision_cluster(kind: RolloutKind, revision_id: &str, revision_cluster_id: &str, cluster_id: &str) -> (r:
    ServiceResult<()>)
    ensures
        revision_cluster_id@ == cluster_id@ ==> r is Ok,
        revision_cluster_id@ != cluster_id@ ==> (r matches Err(e) && is_bad_request(
            e,
            revision_noun(kind) + revision_id@ + "` does not belong to cluster `"@ + cluster_id@ + "`"@,
        )),
{
    if crate::text::str_eq(revision_cluster_id, cluster_id) {
        return Ok(());
    }
    let mut m = string_of(revision_prefix(kind));
    push_str(&mut m, revision_id);
    push_str(&mut m, "` does not belong to cluster `");
    push_str(&mut m, cluster_id);
    push_str(&mut m, "`");
    Err(ServiceError::BadRequest(m))
}

/// The error for a revision that the store does not hold.
pub fn rollout_revision_not_found(kind: RolloutKind, revision_id: &str) -> (e: ServiceError)
    ensures
        e matches ServiceError::NotFound(m) && m@ == revision_noun(kind) + revision_id@ + "` was not found"@,
{
    let mut m = string_of(revision_prefix(kind));
    push_str(&mut m, revision_id);
    push_str(&mut m, "` was not found");
    ServiceError::NotFound(m)
}

/// The error for a rollout that the store does not hold.
pub fn rollout_not_found(kind: RolloutKind, deployment_id: &str) -> (e: ServiceError)
    ensures
        e matches ServiceError::NotFound(m) && m@ == rollout_noun(kind) + " `"@ + deployment_id@ + "` was not found"@,
{
    let mut m = string_of(noun(kind));
    push_str(&mut m, " `");
    push_str(&mut m, deployment_id);
    push_str(&mut m, "` was not found");
    ServiceError::NotFound(m)
}

/// The error for an agent task that the store does not hold.
pub fn task_not_found(task_id: &str) -> (e: ServiceError)
    ensures
        e matches ServiceError::NotFound(m) && m@ == "task `"@ + task_id@ + "` was not found"@,
{
    let mut m = string_of("task `");
    push_str(&mut m, task_id);
    push_str(&mut m, "` was not found");
    ServiceError::NotFound(m)
}

/// The number of targets of a new rollout, which must fit in a `u32`.
pub fn target_count(len: usize) -> (r: ServiceResult<u32>)
    ensures
        len <= u32::MAX ==> r == Ok::<u32, ServiceError>(len as u32),
        len > u32::MAX ==> (r matches Err(e) && is_internal(e, "target count should fit into u32"@)),
{
    if len as u64 <= 0xffff_ffff {
        Ok(len as u32)
    } else {
        Err(ServiceError::Internal(string_of("target count should fit into u32")))
    }
}

pub open spec fn idempotency_index(kind: RolloutKind) -> Seq<char> {
    match kind {
        RolloutKind::Config => "cp_deployments_idempotency_key_idx"@,
        RolloutKind::Dns => "cp_dns_deployments_idempotency_key_idx"@,
    }
}

pub open spec fn active_index(kind: RolloutKind) -> Seq<char> {
    match kind {
        RolloutKind::Config => "cp_deployments_one_active_per_cluster_idx"@,
        RolloutKind::Dns => "cp_dns_deployments_one_active_per_cluster_idx"@,
    }
}

fn active_index_name(kind: RolloutKind) -> (r: &'static str)
    ensures
        r@ == active_index(kind),
{
    match kind {
        RolloutKind::Config => "cp_deployments_one_active_per_cluster_idx",
        RolloutKind::Dns => "cp_dns_deployments_one_active_per_cluster_idx",
    }
}

/// What a failed insert of a rollout is reported as: a taken idempotency key,
/// a lost race for the cluster's lock, or an internal error with the store's message.
pub fn create_rollout_error(kind: RolloutKind, message: String, idempotency_key: Option<&str>, cluster_id: &str) -> (e:
    ServiceError)
    ensures
        match idempotency_key {
            Some(key) if contains_seq(message@, idempotency_index(kind)) => is_conflict(
                e,
                rollout_noun(kind) + " idempotency key `"@ + key@ + "` already exists"@,
            ),
            _ => if contains_seq(message@, active_index(kind)) {
                is_conflict(
                    e,
                    rollout_noun(kind) + " lock not acquired for cluster `"@ + cluster_id@
                        + "`; another active deployment already exists"@,
                )
            } else {
                is_internal(e, message@)
            },
        },
{
    if let Some(key) = idempotency_key {
        let index = match kind {
            RolloutKind::Config => "cp_deployments_idempotency_key_idx",
            RolloutKind::Dns => "cp_dns_deployments_idempotency_key_idx",
        };
        if contains_text(message.as_str(), index) {
            let mut m = string_of(noun(kind));
            push_str(&mut m, " idempotency key `");
            push_str(&mut m, key);
            push_str(&mut m, "` already exists");
            return ServiceError::Conflict(m);
        }
    }
    if contains_text(message.as_str(), active_index_name(kind)) {
        let mut m = string_of(noun(kind));
        push_str(&mut m, " lock not acquired for cluster `");
        push_str(&mut m, cluster_id);
        push_str(&mut m, "`; another active deployment already exists");
        return ServiceError::Conflict(m);
    }
    ServiceError::Internal(message)
}

/// An automatic rollback that lost the race for the cluster's lock is skipped
/// (no rollback created); any other store error is internal.
pub fn auto_rollback_insert_error(kind: RolloutKind, message: String) -> (r: ServiceResult<u32>)
    ensures
        contains_seq(message@, active_index(kind)) ==> r == Ok::<u32, ServiceError>(0),
        !contains_seq(message@, active_index(kind)) ==> (r matches Err(e) && is_internal(e, message@)),
{
    if contains_text(message.as_str(), active_index_name(kind)) {
        Ok(0)
    } else {
        Err(ServiceError::Internal(message))
    }
}

/// Why a source rollout is marked rolled back.
pub fn rollback_succeeded_reason(rollback_deployment_id: &str) -> (r: String)
    ensures
        r@ == "rollback deployment `"@ + rollback_deployment_id@ + "` succeeded"@,
{
    let mut r = string_of("rollback deployment `");
    push_str(&mut r, rollback_deployment_id);
    push_str(&mut r, "` succeeded");
    r
}

/// A target of a DNS rollout: its node and state.
#[derive(Clone, Debug)]
pub struct TargetNodeState {
    pub node_id: String,
    pub state: DnsDeploymentTargetState,
}

pub open spec fn succeeded_nodes(targets: Seq<TargetNodeState>) -> Seq<Seq<char>> {
    targets.filter(|t: TargetNodeState| t.state == DnsDeploymentTargetState::Succeeded).map_values(
        |t: TargetNodeState| t.node_id@,
    )
}

/// The nodes that an operator's DNS rollback goes to: those whose target
/// succeeded, in order; a rollout without any cannot be rolled back.
pub fn rollback_target_nodes(deployment_id: &str, targets: &Vec<TargetNodeState>) -> (r: ServiceResult<Vec<String>>)
    ensures
        succeeded_nodes(targets@).len() > 0 ==> (r matches Ok(v) && str_views(v@) == succeeded_nodes(targets@)),
        succeeded_nodes(targets@).len() == 0 ==> (r matches Err(e) && is_conflict(
            e,
            "dns deployment `"@ + deployment_id@ + "` has no succeeded targets to roll back"@,
        )),
{
    let ghost pred = |t: TargetNodeState| t.state == DnsDeploymentTargetState::Succeeded;
    let ghost view = |t: TargetNodeState| t.node_id@;
    let mut out: Vec<String> = Vec::new();
    let mut i: usize = 0;
    while i < targets.len()
        invariant
            i <= targets@.len(),
            pred == (|t: TargetNodeState| t.state == DnsDeploymentTargetState::Succeeded),
            view == (|t: TargetNodeState| t.node_id@),
            str_views(out@) == targets@.take(i as int).filter(pred).map_values(view),
        decreases targets@.len() - i,
    {
        proof {
            targets@.take(i as int).lemma_filter_push(targets@[i as int], pred);
            assert(targets@.take(i + 1) =~= targets@.take(i as int).push(targets@[i as int]));
        }
        if targets[i].state == DnsDeploymentTargetState::Succeeded {
            let ghost before = str_views(out@);
            out.push(string_of(targets[i].node_id.as_str()));
            proof {
                assert(str_views(out@) =~= before.push(targets@[i as int].node_id@));
                assert(targets@.take(i as int).filter(pred).push(targets@[i as int]).map_values(view)
                    =~= targets@.take(i as int).filter(pred).map_values(view).push(view(targets@[i as int])));
            }
        }
        i = i + 1;
    }
    assert(targets@.take(targets@.len() as int) =~= targets@);
    if out.len() == 0 {
        let mut m = string_of("dns deployment `");
        push_str(&mut m, deployment_id);
        push_str(&mut m, "` has no succeeded targets to roll back");
        return Err(ServiceError::Conflict(m));
    }
    Ok(out)
}

// ---------------------------------------------------------------- the creation sequence

/// A rollout to create, as far as the creation sequence reads it (after the
/// request's own checks and the idempotency key's normalisation).
#[derive(Clone, Debug)]
pub struct CreateRolloutRequest {
    pub kind: RolloutKind,
    pub cluster_id: String,
    pub revision_id: String,
    pub idempotency_key: Option<String>,
    /// DNS rollouts only: go ahead although canary nodes are pinned to another revision.
    pub allow_conflicting_overrides: bool,
}

/// The cluster's active rollout, as the store reports it.
#[derive(Clone, Debug)]
pub struct ActiveRollout {
    pub deployment_id: String,
    pub status: DeploymentStatus,
}

/// What the store answered to the sequence's last step.
#[derive(Clone, Debug)]
pub enum CreateRolloutEvent {
    Begin,
    /// The rollout already created under the idempotency key, if any.
    KeyLookedUp(Option<String>),
    ActiveLookedUp(Option<ActiveRollout>),
    /// The cluster of the requested revision, or `None` when it is unknown.
    RevisionLoaded(Option<String>),
    /// The cluster's DNS canary overrides.
    OverridesLoaded(Vec<NodeDnsOverride>),
}

/// What the creation sequence does next.
#[derive(Clone, Debug)]
pub enum CreateRolloutStep {
    LookUpKey(String),
    FindActive,
    LoadRevision,
    LoadOverrides,
    /// Resolve the target nodes, plan the batches and insert the rollout.
    ResolveTargets,
    /// Answer with the rollout already created under the key.
    Reuse(String),
    Fail(ServiceError),
}

/// One step of creating a rollout: a reused idempotency key answers at once;
/// then the cluster's lock, then the revision (which must exist and belong to
/// the cluster), then for DNS the canary overrides, and only then the targets.
pub fn create_rollout_step(req: &CreateRolloutRequest, event: CreateRolloutEvent) -> (r: CreateRolloutStep)
    ensures
        match event {
            CreateRolloutEvent::Begin => match req.idempotency_key {
                Some(k) => r matches CreateRolloutStep::LookUpKey(x) && x@ == k@,
                None => r is FindActive,
            },
            CreateRolloutEvent::KeyLookedUp(found) => match found {
                Some(id) => r matches CreateRolloutStep::Reuse(x) && x@ == id@,
                None => r is FindActive,
            },
            CreateRolloutEvent::ActiveLookedUp(active) => match active {
                Some(a) => r matches CreateRolloutStep::Fail(e) && is_conflict(
                    e,
                    rollout_noun(req.kind) + " lock not acquired for cluster `"@ + req.cluster_id@
                        + "`; active deployment `"@ + a.deployment_id@ + "` is still "@
                        + spec_deployment_status_str(a.status),
                ),
                None => r is LoadRevision,
            },
            CreateRolloutEvent::RevisionLoaded(cluster) => match cluster {
                None => r matches CreateRolloutStep::Fail(ServiceError::NotFound(m)) && m@ == revision_noun(req.kind)
                    + req.revision_id@ + "` was not found"@,
                Some(c) => if c@ == req.cluster_id@ {
                    if req.kind == RolloutKind::Dns {
                        r is LoadOverrides
                    } else {
                        r is ResolveTargets
                    }
                } else {
                    r matches CreateRolloutStep::Fail(e) && is_bad_request(
                        e,
                        revision_noun(req.kind) + req.revision_id@ + "` does not belong to cluster `"@ + req.cluster_id@
                            + "`"@,
                    )
                },
            },
            CreateRolloutEvent::OverridesLoaded(overrides) => if req.allow_conflicting_overrides {
                r is ResolveTargets
            } else {
                match spec_conflicting_override(overrides@, req.revision_id@) {
                    None => r is ResolveTargets,
                    Some(k) => r matches CreateRolloutStep::Fail(e) && is_conflict(
                        e,
                        spec_override_conflict_message(req.cluster_id@, overrides@[k]),
                    ),
                }
            },
        },
{
    match event {
        CreateRolloutEvent::Begin => match &req.idempotency_key {
            Some(k) => CreateRolloutStep::LookUpKey(string_of(k.as_str())),
            None => CreateRolloutStep::FindActive,
        },
        CreateRolloutEvent::KeyLookedUp(found) => match found {
            Some(id) => CreateRolloutStep::Reuse(id),
            None => CreateRolloutStep::FindActive,
        },
        CreateRolloutEvent::ActiveLookedUp(active) => match active {
            Some(a) => CreateRolloutStep::Fail(
                active_rollout_conflict(req.kind, req.cluster_id.as_str(), a.deployment_id.as_str(), a.status),
            ),
            None => CreateRolloutStep::LoadRevision,
        },
        CreateRolloutEvent::RevisionLoaded(cluster) => match cluster {
            None => CreateRolloutStep::Fail(rollout_revision_not_found(req.kind, req.revision_id.as_str())),
            Some(c) => match check_revision_cluster(req.kind, req.revision_id.as_str(), c.as_str(), req.cluster_id.as_str()) {
                Ok(()) => match req.kind {
                    RolloutKind::Dns => CreateRolloutStep::LoadOverrides,
                    RolloutKind::Config => CreateRolloutStep::ResolveTargets,
                },
                Err(e) => CreateRolloutStep::Fail(e),
            },
        },
        CreateRolloutEvent::OverridesLoaded(overrides) => {
            if req.allow_conflicting_overrides {
                return CreateRolloutStep::ResolveTargets;
            }
            match check_canary_overrides(req.cluster_id.as_str(), &overrides, req.revision_id.as_str()) {
                Ok(()) => CreateRolloutStep::ResolveTargets,
                Err(e) => CreateRolloutStep::Fail(e),
            }
        },
    }
}

} // verus!
