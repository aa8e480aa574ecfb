//! Decisions around configuration and DNS drafts: what a draft must name,
//! what publishing asks of it, and which revision a draft is compared with.
use vstd::prelude::*;

use crate::diff::{build_diff_response, line_ops, lines_spec, numbered, spec_changed, spec_diff, ConfigDiffResponse};
use crate::dns::DnsPlan;
use crate::error::{bad_request, bad_result, is_bad_request, ServiceError, ServiceResult};
use crate::rollout::str_views;
use crate::text::{is_blank, is_blank_seq, push_str, str_eq, string_of};

verus! {

/// Which kind of draft a message speaks of.
#[derive(Clone, Copy, Debug, PartialEq, Eq, Structural)]
pub enum DraftKind {
    Config,
    Dns,
}

/// The first refused field of a configuration draft.
pub open spec fn config_draft_error(cluster_id: Seq<char>, title: Seq<char>, source_path: Seq<char>) -> Option<Seq<char>> {
    if is_blank_seq(cluster_id) {
        Some("cluster_id should not be empty"@)
    } else if is_blank_seq(title) {
        Some("title should not be empty"@)
    } else if is_blank_seq(source_path) {
        Some("source_path should not be empty"@)
    } else {
        None
    }
}

/// A configuration draft names its cluster, a title and a source path.
pub fn validate_config_draft_fields(cluster_id: &str, title: &str, source_path: &str) -> (r: ServiceResult<()>)
    ensures
        match config_draft_error(cluster_id@, title@, source_path@) {
            None => r is Ok,
            Some(m) => bad_result(r, m),
        },
{
    if is_blank(cluster_id) {
        return Err(bad_request("cluster_id should not be empty"));
    }
    if is_blank(title) {
        return Err(bad_request("title should not be empty"));
    }
    if is_blank(source_path) {
        return Err(bad_request("source_path should not be empty"));
    }
    Ok(())
}

/// The first refused field of a DNS draft.
pub open spec fn dns_draft_error(cluster_id: Seq<char>, title: Seq<char>, plan_cluster_id: Seq<char>) -> Option<Seq<char>> {
    if is_blank_seq(cluster_id) {
        Some("cluster_id should not be empty"@)
    } else if is_blank_seq(title) {
        Some("title should not be empty"@)
    } else if plan_cluster_id != cluster_id {
        Some("plan.cluster_id must match request cluster_id"@)
    } else {
        None
    }
}

/// A DNS draft names its cluster and a title, and its plan is for that cluster.
pub fn validate_dns_draft_fields(cluster_id: &str, title: &str, plan: &DnsPlan) -> (r: ServiceResult<()>)
    ensures
        match dns_draft_error(cluster_id@, title@, plan.cluster_id@) {
            None => r is Ok,
            Some(m) => bad_result(r, m),
        },
{
    if is_blank(cluster_id) {
        return Err(bad_request("cluster_id should not be empty"));
    }
    if is_blank(title) {
        return Err(bad_request("title should not be empty"));
    }
    if !str_eq(plan.cluster_id.as_str(), cluster_id) {
        return Err(bad_request("plan.cluster_id must match request cluster_id"));
    }
    Ok(())
}

/// The error for a draft whose cluster the store does not know.
pub fn unknown_cluster(cluster_id: &str) -> (e: ServiceError)
    ensures
        is_bad_request(e, "cluster `"@ + cluster_id@ + "` does not exist"@),
{
    let mut m = string_of("cluster `");
    push_str(&mut m, cluster_id);
    push_str(&mut m, "` does not exist");
    ServiceError::BadRequest(m)
}

/// A draft's base revision must belong to the draft's cluster.
pub fn check_base_revision(revision_id: &str, revision_cluster_id: &str, cluster_id: &str) -> (r: ServiceResult<()>)
    ensures
        revision_cluster_id@ == cluster_id@ ==> r is Ok,
        revision_cluster_id@ != cluster_id@ ==> bad_result(
            r,
            "base revision `"@ + revision_id@ + "` belongs to cluster `"@ + revision_cluster_id@ + "`, not `"@ + cluster_id@
                + "`"@,
        ),
{
    if str_eq(revision_cluster_id, cluster_id) {
        return Ok(());
    }
    let mut m = string_of("base revision `");
    push_str(&mut m, revision_id);
    push_str(&mut m, "` belongs to cluster `");
    push_str(&mut m, revision_cluster_id);
    push_str(&mut m, "`, not `");
    push_str(&mut m, cluster_id);
    push_str(&mut m, "`");
    Err(ServiceError::BadRequest(m))
}

pub open spec fn draft_noun(kind: DraftKind) -> Seq<char> {
    match kind {
        DraftKind::Config => "config draft `"@,
        DraftKind::Dns => "dns draft `"@,
    }
}

/// The error for a draft that the store does not hold.
pub fn draft_not_found(kind: DraftKind, draft_id: &str) -> (e: ServiceError)
    ensures
        e matches ServiceError::NotFound(m) && m@ == draft_noun(kind) + draft_id@ + "` was not found"@,
{
    let mut m = match kind {
        DraftKind::Config => string_of("config draft `"),
        DraftKind::Dns => string_of("dns draft `"),
    };
    push_str(&mut m, draft_id);
    push_str(&mut m, "` was not found");
    ServiceError::NotFound(m)
}

/// The error for a revision that the store does not hold.
pub fn revision_not_found(kind: DraftKind, revision_id: &str) -> (e: ServiceError)
    ensures
        e matches ServiceError::NotFound(m) && m@ == (match kind {
            DraftKind::Config => "revision `"@,
            DraftKind::Dns => "dns revision `"@,
        }) + revision_id@ + "` was not found"@,
{
    let mut m = match kind {
        DraftKind::Config => string_of("revision `"),
        DraftKind::Dns => string_of("dns revision `"),
    };
    push_str(&mut m, revision_id);
    push_str(&mut m, "` was not found");
    ServiceError::NotFound(m)
}

pub open spec fn invalid_draft_message(kind: DraftKind) -> Seq<char> {
    match kind {
        DraftKind::Config => "draft is invalid; validate and fix the config before publishing"@,
        DraftKind::Dns => "dns draft is invalid; validate and fix it before publishing"@,
    }
}

/// Publishing asks for a version label and a draft that validates; the
/// published summary is the requested one, or the draft's.
pub fn check_publish(
    kind: DraftKind,
    version_label: &str,
    report_valid: bool,
    requested_summary: Option<String>,
    draft_summary: &str,
) -> (r: ServiceResult<String>)
    ensures
        is_blank_seq(version_label@) ==> bad_result(r, "version_label should not be empty"@),
        !is_blank_seq(version_label@) && !report_valid ==> bad_result(r, invalid_draft_message(kind)),
        !is_blank_seq(version_label@) && report_valid ==> (r matches Ok(s) && s@ == (match requested_summary {
            Some(x) => x@,
            None => draft_summary@,
        })),
{
    if is_blank(version_label) {
        return Err(bad_request("version_label should not be empty"));
    }
    if !report_valid {
        return match kind {
            DraftKind::Config => Err(bad_request("draft is invalid; validate and fix the config before publishing")),
            DraftKind::Dns => Err(bad_request("dns draft is invalid; validate and fix it before publishing")),
        };
    }
    match requested_summary {
        Some(s) => Ok(s),
        None => Ok(string_of(draft_summary)),
    }
}

/// The revision a draft is compared with: the one asked for, else the
/// draft's base, else (`None`) the cluster's latest.
pub fn diff_target_revision<'a>(target_revision_id: Option<&'a str>, base_revision_id: Option<&'a str>) -> (r: Option<&'a str>)
    ensures
        r == (match target_revision_id {
            Some(t) => Some(t),
            None => base_revision_id,
        }),
{
    match target_revision_id {
        Some(t) => Some(t),
        None => base_revision_id,
    }
}

/// A draft compared with a revision (its version label and text), or with an
/// empty revision when the cluster has none; the labels name both sides.
pub fn draft_diff(
    kind: DraftKind,
    revision: Option<(&str, &str)>,
    draft_title: &str,
    draft_text: &str,
) -> (r: ConfigDiffResponse)
    requires
        lines_spec(draft_text@).len() < u32::MAX,
        match revision {
            Some((_, text)) => lines_spec(text@).len() < u32::MAX,
            None => true,
        },
    ensures
        r.right_label@ == (match kind {
            DraftKind::Config => "draft "@,
            DraftKind::Dns => "dns draft "@,
        }) + draft_title@,
        match revision {
            Some((label, text)) => r.left_label@ == (match kind {
                DraftKind::Config => "revision "@,
                DraftKind::Dns => "dns revision "@,
            }) + label@ && r.changed == spec_changed(spec_diff(text@, draft_text@)) && line_ops(r.lines@)
                == spec_diff(text@, draft_text@),
            None => r.left_label@ == "empty revision"@ && r.changed == spec_changed(spec_diff(Seq::empty(), draft_text@))
                && line_ops(r.lines@) == spec_diff(Seq::empty(), draft_text@),
        },
        forall|k: int| 0 <= k < r.lines@.len() ==> numbered(r.lines@, k),
{
    let mut right = match kind {
        DraftKind::Config => string_of("draft "),
        DraftKind::Dns => string_of("dns draft "),
    };
    push_str(&mut right, draft_title);
    match revision {
        Some((label, text)) => {
            let mut left = match kind {
                DraftKind::Config => string_of("revision "),
                DraftKind::Dns => string_of("dns revision "),
            };
            push_str(&mut left, label);
            build_diff_response(left, text, right, draft_text)
        },
        None => {
            proof {
                reveal_strlit("");
            }
            build_diff_response(string_of("empty revision"), "", right, draft_text)
        },
    }
}

/// Counts of a checked DNS plan.
#[derive(Clone, Debug)]
pub struct DnsValidationReport {
    pub valid: bool,
    pub validated_at_unix_ms: u64,
    pub issues: Vec<String>,
    pub zone_count: u32,
    pub record_count: u32,
    pub target_count: u32,
}

pub open spec fn plan_record_count(plan: DnsPlan, k: int) -> nat
    decreases k,
{
    if k <= 0 {
        0
    } else {
        plan_record_count(plan, k - 1) + plan.zones@[k - 1].records@.len()
    }
}

pub open spec fn zone_target_count(plan: DnsPlan, z: int, k: int) -> nat
    decreases k,
{
    if k <= 0 {
        0
    } else {
        zone_target_count(plan, z, k - 1) + plan.zones@[z].records@[k - 1].targets@.len()
    }
}

pub open spec fn plan_target_count(plan: DnsPlan, k: int) -> nat
    decreases k,
{
    if k <= 0 {
        0
    } else {
        plan_target_count(plan, k - 1) + zone_target_count(plan, k - 1, plan.zones@[k - 1].records@.len() as int)
    }
}

/// `{field} should fit into u32`, as an internal error.
pub fn usize_to_u32(value: u64, field: &str) -> (r: ServiceResult<u32>)
    ensures
        value <= u32::MAX ==> r == Ok::<u32, ServiceError>(value as u32),
        value > u32::MAX ==> (r matches Err(e) && crate::error::is_internal(e, field@ + " should fit into u32"@)),
{
    if value <= 0xffff_ffff {
        Ok(value as u32)
    } else {
        let mut m = string_of(field);
        push_str(&mut m, " should fit into u32");
        Err(ServiceError::Internal(m))
    }
}

pub open spec fn capped(n: nat) -> nat {
    if n > u64::MAX {
        u64::MAX as nat
    } else {
        n
    }
}

/// The validation report of a DNS plan from its issues and the time of the
/// check: valid without issues, with the plan's zone, record and target counts,
/// each of which must fit in a `u32`.
pub fn dns_validation_report(plan: &DnsPlan, issues: Vec<String>, validated_at_unix_ms: u64) -> (r: ServiceResult<
    DnsValidationReport,
>)
    ensures
        ({
            let zones = plan.zones@.len();
            let records = plan_record_count(*plan, zones as int);
            let targets = plan_target_count(*plan, zones as int);
            if zones > u32::MAX {
                r matches Err(e) && crate::error::is_internal(e, "zone_count"@ + " should fit into u32"@)
            } else if records > u32::MAX {
                r matches Err(e) && crate::error::is_internal(e, "record_count"@ + " should fit into u32"@)
            } else if targets > u32::MAX {
                r matches Err(e) && crate::error::is_internal(e, "target_count"@ + " should fit into u32"@)
            } else {
                r matches Ok(rep) && rep.valid == (issues@.len() == 0) && rep.issues == issues
                    && rep.validated_at_unix_ms == validated_at_unix_ms && rep.zone_count == zones
                    && rep.record_count == records && rep.target_count == targets
            }
        }),
{
    let mut records: u64 = 0;
    let mut targets: u64 = 0;
    let mut z: usize = 0;
    while z < plan.zones.len()
        invariant
            z <= plan.zones@.len(),
            records == capped(plan_record_count(*plan, z as int)),
            targets == capped(plan_target_count(*plan, z as int)),
        decreases plan.zones@.len() - z,
    {
        let zone = &plan.zones[z];
        let mut zt: u64 = 0;
        let mut k: usize = 0;
        while k < zone.records.len()
            invariant
                k <= zone.records@.len(),
                *zone == plan.zones@[z as int],
                zt == capped(zone_target_count(*plan, z as int, k as int)),
            decreases zone.records@.len() - k,
        {
            zt = zt.saturating_add(zone.records[k].targets.len() as u64);
            k = k + 1;
        }
        records = records.saturating_add(zone.records.len() as u64);
        targets = targets.saturating_add(zt);
        z = z + 1;
    }
    let zone_count = match usize_to_u32(plan.zones.len() as u64, "zone_count") {
        Ok(n) => n,
        Err(e) => {
            return Err(e);
        },
    };
    let record_count = match usize_to_u32(records, "record_count") {
        Ok(n) => n,
        Err(e) => {
            return Err(e);
        },
    };
    let target_count = match usize_to_u32(targets, "target_count") {
        Ok(n) => n,
        Err(e) => {
            return Err(e);
        },
    };
    Ok(
        DnsValidationReport {
            valid: issues.len() == 0,
            validated_at_unix_ms,
            issues,
            zone_count,
            record_count,
            target_count,
        },
    )
}

/// The listener model of a compiled configuration: `legacy` for the single
/// implicit `default` listener, `explicit` otherwise.
pub fn listener_model(listener_count: usize, first_listener_id: Option<&str>, first_listener_name: Option<&str>) -> (r:
    &'static str)
    ensures
        r@ == (if listener_count == 1 && (match first_listener_id {
            Some(i) => i@ == "default"@,
            None => false,
        }) && (match first_listener_name {
            Some(n) => n@ == "default"@,
            None => false,
        }) {
            "legacy"@
        } else {
            "explicit"@
        }),
{
    let id_default = match first_listener_id {
        Some(i) => str_eq(i, "default"),
        None => false,
    };
    let name_default = match first_listener_name {
        Some(n) => str_eq(n, "default"),
        None => false,
    };
    if listener_count == 1 && id_default && name_default {
        "legacy"
    } else {
        "explicit"
    }
}

} // verus!
