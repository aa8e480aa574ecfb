//! Authoritative DNS plans: their records and targets, name handling, plan
//! checks and query simulation.
use vstd::prelude::*;

use crate::model::{spec_node_state_str, NodeLifecycleState, NodeSummary};
use crate::rollout::{contains_str, copy_strings, str_views};
use crate::text::{
    chars_of, is_blank_seq, lemma_strip_end, lower_char, lower_seq, push_char, push_str, str_eq, string_of, strip_end_char, trim,
    trim_seq,
};

verus! {

/// Record types that a plan can publish.
#[derive(Clone, Copy, Debug, PartialEq, Eq, Structural)]
pub enum DnsRecordType {
    A,
    Aaaa,
    Cname,
    Txt,
}

pub open spec fn spec_record_type_str(t: DnsRecordType) -> Seq<char> {
    match t {
        DnsRecordType::A => "A"@,
        DnsRecordType::Aaaa => "AAAA"@,
        DnsRecordType::Cname => "CNAME"@,
        DnsRecordType::Txt => "TXT"@,
    }
}

impl DnsRecordType {
    pub fn as_str(&self) -> (r: &'static str)
        ensures
            r@ == spec_record_type_str(*self),
    {
        match self {
            DnsRecordType::A => "A",
            DnsRecordType::Aaaa => "AAAA",
            DnsRecordType::Cname => "CNAME",
            DnsRecordType::Txt => "TXT",
        }
    }
}

/// Where the addresses of an answer target come from.
#[derive(Clone, Copy, Debug, PartialEq, Eq, Structural)]
pub enum DnsTargetKind {
    StaticIp,
    Cluster,
    Node,
    Upstream,
}

pub open spec fn spec_target_kind_str(k: DnsTargetKind) -> Seq<char> {
    match k {
        DnsTargetKind::StaticIp => "static_ip"@,
        DnsTargetKind::Cluster => "cluster"@,
        DnsTargetKind::Node => "node"@,
        DnsTargetKind::Upstream => "upstream"@,
    }
}

impl DnsTargetKind {
    pub fn as_str(&self) -> (r: &'static str)
        ensures
            r@ == spec_target_kind_str(*self),
    {
        match self {
            DnsTargetKind::StaticIp => "static_ip",
            DnsTargetKind::Cluster => "cluster",
            DnsTargetKind::Node => "node",
            DnsTargetKind::Upstream => "upstream",
        }
    }
}

/// One way of answering a record: a static address, a node, the nodes of a
/// cluster, or the peers of an upstream.
#[derive(Clone, Debug)]
pub struct DnsAnswerTarget {
    pub target_id: String,
    pub kind: DnsTargetKind,
    pub value: String,
    pub weight: u32,
    pub enabled: bool,
    pub source_cidrs: Vec<String>,
}

/// The records of one name and type.
#[derive(Clone, Debug)]
pub struct DnsRecordSet {
    pub record_id: String,
    pub name: String,
    pub record_type: DnsRecordType,
    pub ttl_secs: u32,
    pub values: Vec<String>,
    pub targets: Vec<DnsAnswerTarget>,
}

/// A zone and its records.
#[derive(Clone, Debug)]
pub struct DnsZoneSpec {
    pub zone_id: String,
    pub zone_name: String,
    pub records: Vec<DnsRecordSet>,
}

/// A cluster's DNS plan.
#[derive(Clone, Debug)]
pub struct DnsPlan {
    pub cluster_id: String,
    pub zones: Vec<DnsZoneSpec>,
}

/// Query counters of one name, as a node reports them.
#[derive(Clone, Debug)]
pub struct DnsRuntimeQueryStat {
    pub zone_name: Option<String>,
    pub qname: String,
    pub record_type: DnsRecordType,
    pub query_total: u64,
    pub answer_total: u64,
    pub response_noerror_total: u64,
    pub response_nxdomain_total: u64,
    pub response_servfail_total: u64,
    pub last_query_at_unix_ms: u64,
}

/// A node's authoritative DNS server, as the node reports it.
#[derive(Clone, Debug)]
pub struct DnsRuntimeStatus {
    pub enabled: bool,
    pub udp_bind_addr: Option<String>,
    pub tcp_bind_addr: Option<String>,
    pub published_revision_id: Option<String>,
    pub zone_count: u64,
    pub record_count: u64,
    pub query_total: u64,
    pub response_noerror_total: u64,
    pub response_nxdomain_total: u64,
    pub response_servfail_total: u64,
    pub hot_queries: Vec<DnsRuntimeQueryStat>,
    pub error_queries: Vec<DnsRuntimeQueryStat>,
}

// ---------------------------------------------------------------- names

/// A DNS name as plans compare them: trimmed, without trailing dots, in ASCII lower case.
pub open spec fn spec_normalize_name(name: Seq<char>) -> Seq<char> {
    lower_seq(strip_end_char(trim_seq(name), '.'))
}

fn lower(c: char) -> (r: char)
    ensures
        r == lower_char(c),
{
    if 'A' <= c && c <= 'Z' {
        ((c as u8) + 32) as char
    } else {
        c
    }
}

/// Trims the name, drops its trailing dots and lower-cases its ASCII letters.
pub fn normalize_name(name: &str) -> (r: String)
    ensures
        r@ == spec_normalize_name(name@),
{
    let t = trim(name);
    let v = chars_of(t.as_str());
    let mut e: usize = v.len();
    while e > 0 && v[e - 1] == '.'
        invariant
            e <= v@.len(),
            forall|i: int| e <= i < v@.len() ==> #[trigger] v@[i] == '.',
        decreases e,
    {
        e = e - 1;
    }
    proof {
        lemma_strip_end(v@, '.', e as int);
    }
    let mut r = String::new();
    let mut i: usize = 0;
    while i < e
        invariant
            i <= e <= v@.len(),
            r@ == lower_seq(v@.take(i as int)),
        decreases e - i,
    {
        push_char(&mut r, lower(v[i]));
        i = i + 1;
        assert(r@ =~= lower_seq(v@.take(i as int)));
    }
    assert(v@.take(e as int) =~= strip_end_char(trim_seq(name@), '.'));
    r
}

/// The full name of a record in a zone: the zone itself for an empty name or
/// `@`, the name itself when it ends with a dot, else `name.zone`, all normalized.
pub open spec fn spec_record_fqdn(zone_name: Seq<char>, record_name: Seq<char>) -> Seq<char> {
    let r = trim_seq(record_name);
    if r.len() == 0 || r == seq!['@'] {
        spec_normalize_name(zone_name)
    } else if r.last() == '.' {
        spec_normalize_name(r)
    } else {
        spec_normalize_name(r) + seq!['.'] + spec_normalize_name(zone_name)
    }
}

/// The full name of a record in a zone.
pub fn record_fqdn(zone_name: &str, record_name: &str) -> (r: String)
    ensures
        r@ == spec_record_fqdn(zone_name@, record_name@),
{
    let t = trim(record_name);
    let v = chars_of(t.as_str());
    if v.len() == 0 || (v.len() == 1 && v[0] == '@') {
        proof {
            if v@.len() == 1 {
                assert(v@ =~= seq!['@']);
            }
        }
        return normalize_name(zone_name);
    }
    assert(v@.len() == 1 ==> v@ != seq!['@']);
    if v[v.len() - 1] == '.' {
        return normalize_name(t.as_str());
    }
    let mut r = normalize_name(t.as_str());
    push_char(&mut r, '.');
    let z = normalize_name(zone_name);
    push_str(&mut r, z.as_str());
    r
}

// ---------------------------------------------------------------- addresses

/// The family of an IP address.
#[derive(Clone, Copy, Debug, PartialEq, Eq, Structural)]
pub enum IpFamily {
    V4,
    V6,
}

/// What reading a text as an IP address gave: the address's family and its
/// canonical text, or the parser's error text.
#[derive(Clone, Debug)]
pub enum IpParse {
    Address { family: IpFamily, text: String },
    Invalid { error: String },
}

/// The addresses read from one record: one per value, and one per target's value.
#[derive(Clone, Debug)]
pub struct RecordAddresses {
    pub values: Vec<IpParse>,
    pub targets: Vec<IpParse>,
}

/// Whether `ipnet::IpNet` parses the text (an address with a prefix length).
pub uninterp spec fn parses_as_ip_net(text: Seq<char>) -> bool;

/// `str::parse::<ipnet::IpNet>`, of which only success is used. Claimed: it
/// succeeds exactly on the texts that the name admits.
#[verifier::external_body]
fn cidr_is_valid(text: &str) -> (ok: bool)
    ensures
        ok == parses_as_ip_net(text@),
{
    text.parse::<ipnet::IpNet>().is_ok()
}

/// Whether `ipnet::IpNet::contains` puts the second network (given by its
/// text) inside the first.
pub uninterp spec fn ip_net_contains(cidr: Seq<char>, host: Seq<char>) -> bool;

/// `str::parse::<ipnet::IpNet>` of both texts, then `IpNet::contains` of the
/// second network in the first. Claimed: `None` exactly when one of the two
/// texts does not parse (as `cidr_is_valid` says), and otherwise the named answer.
#[verifier::external_body]
fn cidr_contains(cidr: &str, host_cidr: &str) -> (r: Option<bool>)
    ensures
        r.is_some() == (parses_as_ip_net(cidr@) && parses_as_ip_net(host_cidr@)),
        r matches Some(b) ==> b == ip_net_contains(cidr@, host_cidr@),
{
    let net = match cidr.parse::<ipnet::IpNet>() {
        Ok(net) => net,
        Err(_) => return None,
    };
    let host = match host_cidr.parse::<ipnet::IpNet>() {
        Ok(host) => host,
        Err(_) => return None,
    };
    Some(net.contains(&host))
}

/// An address as the network that holds it alone: `/32` for IPv4, `/128` for IPv6.
pub open spec fn host_cidr_text(ip: ParsedIp) -> Seq<char> {
    ip.text@ + match ip.family {
        IpFamily::V4 => "/32"@,
        IpFamily::V6 => "/128"@,
    }
}

/// Some CIDR of the list parses and contains the source address; CIDRs that
/// do not parse match nothing.
pub open spec fn spec_source_matches(cidrs: Seq<Seq<char>>, source: ParsedIp) -> bool {
    parses_as_ip_net(host_cidr_text(source)) && exists|i: int|
        0 <= i < cidrs.len() && parses_as_ip_net(cidrs[i]) && #[trigger] ip_net_contains(cidrs[i], host_cidr_text(source))
}

/// Whether a query from `source` falls in one of a target's source CIDRs.
pub fn source_matches(cidrs: &Vec<String>, source: &ParsedIp) -> (m: bool)
    ensures
        m == spec_source_matches(str_views(cidrs@), *source),
{
    let mut host = string_of(source.text.as_str());
    match source.family {
        IpFamily::V4 => push_str(&mut host, "/32"),
        IpFamily::V6 => push_str(&mut host, "/128"),
    }
    let ghost views = str_views(cidrs@);
    let mut i: usize = 0;
    while i < cidrs.len()
        invariant
            i <= cidrs@.len(),
            views == str_views(cidrs@),
            host@ == host_cidr_text(*source),
            forall|j: int|
                0 <= j < i ==> !(parses_as_ip_net(views[j]) && parses_as_ip_net(host@) && #[trigger] ip_net_contains(
                    views[j],
                    host@,
                )),
        decreases cidrs@.len() - i,
    {
        match cidr_contains(cidrs[i].as_str(), host.as_str()) {
            Some(true) => {
                assert(views[i as int] == cidrs@[i as int]@);
                assert(ip_net_contains(views[i as int], host_cidr_text(*source)));
                return true;
            },
            _ => {
                assert(views[i as int] == cidrs@[i as int]@);
            },
        }
        i = i + 1;
    }
    false
}

/// Whether an address of the given family answers a record of the given type.
pub open spec fn family_matches(family: IpFamily, record_type: DnsRecordType) -> bool {
    (family == IpFamily::V4 && record_type == DnsRecordType::A) || (family == IpFamily::V6 && record_type
        == DnsRecordType::Aaaa)
}

/// Whether an address of the given family answers a record of the given type.
pub fn ip_matches_record_type(family: IpFamily, record_type: DnsRecordType) -> (r: bool)
    ensures
        r == family_matches(family, record_type),
{
    match (family, record_type) {
        (IpFamily::V4, DnsRecordType::A) => true,
        (IpFamily::V6, DnsRecordType::Aaaa) => true,
        _ => false,
    }
}

// ---------------------------------------------------------------- plan checks

/// Lists of issues, one after the other.
pub open spec fn flatten(s: Seq<Seq<Seq<char>>>) -> Seq<Seq<char>>
    decreases s.len(),
{
    if s.len() == 0 {
        Seq::empty()
    } else {
        flatten(s.drop_last()) + s.last()
    }
}

proof fn lemma_flatten_push(s: Seq<Seq<Seq<char>>>, x: Seq<Seq<char>>)
    ensures
        flatten(s.push(x)) == flatten(s) + x,
{
    assert(s.push(x).drop_last() =~= s);
}

fn cat2(a: &str, b: &str) -> (r: String)
    ensures
        r@ == a@ + b@,
{
    let mut r = string_of(a);
    push_str(&mut r, b);
    r
}

fn cat3(a: &str, b: &str, c: &str) -> (r: String)
    ensures
        r@ == a@ + b@ + c@,
{
    let mut r = cat2(a, b);
    push_str(&mut r, c);
    r
}

fn cat5(a: &str, b: &str, c: &str, d: &str, e: &str) -> (r: String)
    ensures
        r@ == a@ + b@ + c@ + d@ + e@,
{
    let mut r = cat3(a, b, c);
    push_str(&mut r, d);
    push_str(&mut r, e);
    r
}

/// `target `id` in record `name` zone `zone` ...`.
pub open spec fn target_message(t: DnsAnswerTarget, record: Seq<char>, zone: Seq<char>, tail: Seq<char>) -> Seq<char> {
    "target `"@ + t.target_id@ + "` in record `"@ + record + "` zone `"@ + zone + tail
}

fn target_msg(t: &DnsAnswerTarget, record: &str, zone: &str, tail: &str) -> (r: String)
    ensures
        r@ == target_message(*t, record@, zone@, tail@),
{
    let mut r = cat5("target `", t.target_id.as_str(), "` in record `", record, "` zone `");
    push_str(&mut r, zone);
    push_str(&mut r, tail);
    r
}

pub open spec fn cidr_issue(t: DnsAnswerTarget, record: Seq<char>, zone: Seq<char>, cidr: Seq<char>) -> Seq<Seq<char>> {
    if parses_as_ip_net(cidr) {
        Seq::empty()
    } else {
        seq![target_message(t, record, zone, "` has invalid source_cidr `"@) + cidr + "`"@]
    }
}

/// What the kind of an enabled target asks of its value.
pub open spec fn target_kind_issue(
    plan_cluster: Seq<char>,
    record: Seq<char>,
    zone: Seq<char>,
    t: DnsAnswerTarget,
    ip: IpParse,
    node_ids: Seq<Seq<char>>,
) -> Seq<Seq<char>> {
    match t.kind {
        DnsTargetKind::StaticIp => if ip is Invalid {
            seq![target_message(t, record, zone, "` has invalid static IP `"@) + t.value@ + "`"@]
        } else {
            Seq::empty()
        },
        DnsTargetKind::Cluster => if t.value@ != plan_cluster {
            seq!["cluster "@ + target_message(t, record, zone, "` must currently reference plan.cluster_id `"@)
                + plan_cluster + "`"@]
        } else {
            Seq::empty()
        },
        DnsTargetKind::Node => if !node_ids.contains(t.value@) {
            seq![target_message(t, record, zone, "` references unknown node `"@) + t.value@ + "`"@]
        } else {
            Seq::empty()
        },
        DnsTargetKind::Upstream => if is_blank_seq(t.value@) {
            seq![target_message(t, record, zone, "` references empty upstream name"@)]
        } else {
            Seq::empty()
        },
    }
}

/// The issues of one answer target.
pub open spec fn target_issues(
    plan_cluster: Seq<char>,
    record: Seq<char>,
    zone: Seq<char>,
    t: DnsAnswerTarget,
    ip: IpParse,
    node_ids: Seq<Seq<char>>,
) -> Seq<Seq<char>> {
    let id_issue = if is_blank_seq(t.target_id@) {
        seq!["record `"@ + record + "` in zone `"@ + zone + "` contains target with empty target_id"@]
    } else {
        Seq::empty()
    };
    if !t.enabled {
        id_issue
    } else {
        id_issue + (if t.weight == 0 {
            seq![target_message(t, record, zone, "` weight must be greater than 0"@)]
        } else {
            Seq::empty()
        }) + flatten(Seq::new(t.source_cidrs@.len(), |k: int| cidr_issue(t, record, zone, t.source_cidrs@[k]@)))
            + target_kind_issue(plan_cluster, record, zone, t, ip, node_ids)
    }
}

fn append_issues(issues: &mut Vec<String>, more: Vec<String>)
    ensures
        str_views(final(issues)@) == str_views(old(issues)@) + str_views(more@),
{
    let mut i: usize = 0;
    while i < more.len()
        invariant
            i <= more@.len(),
            str_views(issues@) == str_views(old(issues)@) + str_views(more@).take(i as int),
        decreases more@.len() - i,
    {
        let ghost prev = str_views(issues@);
        issues.push(string_of(more[i].as_str()));
        assert(str_views(issues@) =~= prev.push(more@[i as int]@));
        assert(str_views(more@).take(i + 1) =~= str_views(more@).take(i as int).push(more@[i as int]@));
        i = i + 1;
        assert(str_views(issues@) =~= str_views(old(issues)@) + str_views(more@).take(i as int));
    }
    assert(str_views(more@).take(more@.len() as int) =~= str_views(more@));
}

/// Checks one answer target of a record.
pub fn validate_target(
    plan_cluster: &str,
    record: &str,
    zone: &str,
    target: &DnsAnswerTarget,
    ip: &IpParse,
    node_ids: &Vec<String>,
) -> (issues: Vec<String>)
    ensures
        str_views(issues@) == target_issues(plan_cluster@, record@, zone@, *target, *ip, str_views(node_ids@)),
{
    let mut issues: Vec<String> = Vec::new();
    if crate::text::is_blank(target.target_id.as_str()) {
        issues.push(cat5("record `", record, "` in zone `", zone, "` contains target with empty target_id"));
    }
    if !target.enabled {
        assert(str_views(issues@) =~= target_issues(plan_cluster@, record@, zone@, *target, *ip, str_views(node_ids@)));
        return issues;
    }
    if target.weight == 0 {
        issues.push(target_msg(target, record, zone, "` weight must be greater than 0"));
    }
    let ghost head = str_views(issues@);
    let ghost f = |k: int| cidr_issue(*target, record@, zone@, target.source_cidrs@[k]@);
    let mut k: usize = 0;
    while k < target.source_cidrs.len()
        invariant
            k <= target.source_cidrs@.len(),
            f == (|k: int| cidr_issue(*target, record@, zone@, target.source_cidrs@[k]@)),
            str_views(issues@) == head + flatten(Seq::new(k as nat, f)),
        decreases target.source_cidrs@.len() - k,
    {
        let cidr = &target.source_cidrs[k];
        let ghost before = str_views(issues@);
        if !cidr_is_valid(cidr.as_str()) {
            let mut m = target_msg(target, record, zone, "` has invalid source_cidr `");
            push_str(&mut m, cidr.as_str());
            push_str(&mut m, "`");
            issues.push(m);
        }
        proof {
            assert(Seq::new((k + 1) as nat, f) =~= Seq::new(k as nat, f).push(f(k as int)));
            lemma_flatten_push(Seq::new(k as nat, f), f(k as int));
            assert(str_views(issues@) =~= before + f(k as int));
        }
        k = k + 1;
    }
    let mut kind_issues: Vec<String> = Vec::new();
    match target.kind {
        DnsTargetKind::StaticIp => {
            if let IpParse::Invalid { .. } = ip {
                let mut m = target_msg(target, record, zone, "` has invalid static IP `");
                push_str(&mut m, target.value.as_str());
                push_str(&mut m, "`");
                kind_issues.push(m);
            }
        },
        DnsTargetKind::Cluster => {
            if !str_eq(target.value.as_str(), plan_cluster) {
                let t = target_msg(target, record, zone, "` must currently reference plan.cluster_id `");
                let mut m = cat2("cluster ", t.as_str());
                push_str(&mut m, plan_cluster);
                push_str(&mut m, "`");
                kind_issues.push(m);
            }
        },
        DnsTargetKind::Node => {
            if !contains_str(node_ids, target.value.as_str()) {
                let mut m = target_msg(target, record, zone, "` references unknown node `");
                push_str(&mut m, target.value.as_str());
                push_str(&mut m, "`");
                kind_issues.push(m);
            }
        },
        DnsTargetKind::Upstream => {
            if crate::text::is_blank(target.value.as_str()) {
                kind_issues.push(target_msg(target, record, zone, "` references empty upstream name"));
            }
        },
    }
    assert(str_views(kind_issues@) =~= target_kind_issue(plan_cluster@, record@, zone@, *target, *ip, str_views(node_ids@)));
    append_issues(&mut issues, kind_issues);
    assert(str_views(issues@) =~= target_issues(plan_cluster@, record@, zone@, *target, *ip, str_views(node_ids@)));
    issues
}

pub open spec fn value_issue(rec: DnsRecordSet, zone: Seq<char>, value: Seq<char>, ip: IpParse) -> Seq<Seq<char>> {
    match ip {
        IpParse::Address { family, .. } => if family_matches(family, rec.record_type) {
            Seq::empty()
        } else {
            seq!["record `"@ + rec.name@ + "` in zone `"@ + zone + "` has mismatched IP family `"@ + value
                + "` for `"@ + spec_record_type_str(rec.record_type) + "`"@]
        },
        IpParse::Invalid { error } => seq!["record `"@ + rec.name@ + "` in zone `"@ + zone
            + "` has invalid IP value `"@ + value + "`: "@ + error@],
    }
}

/// The addresses fit the record: one per value and one per target.
pub open spec fn addresses_fit(rec: DnsRecordSet, addrs: RecordAddresses) -> bool {
    addrs.values@.len() == rec.values@.len() && addrs.targets@.len() == rec.targets@.len()
}

/// The issues of one record.
pub open spec fn record_issues(
    plan_cluster: Seq<char>,
    zone: Seq<char>,
    rec: DnsRecordSet,
    addrs: RecordAddresses,
    node_ids: Seq<Seq<char>>,
) -> Seq<Seq<char>> {
    let id_issue = if is_blank_seq(rec.record_id@) {
        seq!["zone `"@ + zone + "` contains a record with empty record_id"@]
    } else {
        Seq::empty()
    };
    let ttl_issue = if rec.ttl_secs == 0 {
        seq!["record `"@ + rec.name@ + "` in zone `"@ + zone + "` ttl_secs must be greater than 0"@]
    } else {
        Seq::empty()
    };
    let kind_issues = match rec.record_type {
        DnsRecordType::Cname => if rec.values@.len() != 1 || rec.targets@.len() != 0 {
            seq!["CNAME record `"@ + rec.name@ + "` in zone `"@ + zone
                + "` requires exactly one value and no targets"@]
        } else {
            Seq::empty()
        },
        DnsRecordType::Txt => if rec.values@.len() == 0 || rec.targets@.len() != 0 {
            seq!["TXT record `"@ + rec.name@ + "` in zone `"@ + zone
                + "` requires one or more values and no targets"@]
        } else {
            Seq::empty()
        },
        _ => (if rec.targets@.len() == 0 && rec.values@.len() == 0 {
            seq!["record `"@ + rec.name@ + "` in zone `"@ + zone + "` requires targets or values for `"@
                + spec_record_type_str(rec.record_type) + "`"@]
        } else {
            Seq::empty()
        }) + flatten(Seq::new(rec.values@.len(), |i: int| value_issue(rec, zone, rec.values@[i]@, addrs.values@[i])))
            + flatten(Seq::new(rec.targets@.len(), |j: int| target_issues(plan_cluster, rec.name@, zone, rec.targets@[j], addrs.targets@[j], node_ids))),
    };
    id_issue + ttl_issue + kind_issues
}

/// Checks one record of a zone.
pub fn validate_record(
    plan_cluster: &str,
    zone: &str,
    rec: &DnsRecordSet,
    addrs: &RecordAddresses,
    node_ids: &Vec<String>,
) -> (issues: Vec<String>)
    requires
        addresses_fit(*rec, *addrs),
    ensures
        str_views(issues@) == record_issues(plan_cluster@, zone@, *rec, *addrs, str_views(node_ids@)),
{
    let mut issues: Vec<String> = Vec::new();
    if crate::text::is_blank(rec.record_id.as_str()) {
        issues.push(cat3("zone `", zone, "` contains a record with empty record_id"));
    }
    if rec.ttl_secs == 0 {
        issues.push(cat5("record `", rec.name.as_str(), "` in zone `", zone, "` ttl_secs must be greater than 0"));
    }
    let ghost head = str_views(issues@);
    match rec.record_type {
        DnsRecordType::Cname => {
            if rec.values.len() != 1 || rec.targets.len() != 0 {
                issues.push(
                    cat5("CNAME record `", rec.name.as_str(), "` in zone `", zone, "` requires exactly one value and no targets"),
                );
            }
        },
        DnsRecordType::Txt => {
            if rec.values.len() == 0 || rec.targets.len() != 0 {
                issues.push(
                    cat5("TXT record `", rec.name.as_str(), "` in zone `", zone, "` requires one or more values and no targets"),
                );
            }
        },
        _ => {
            if rec.targets.len() == 0 && rec.values.len() == 0 {
                let mut m = cat5("record `", rec.name.as_str(), "` in zone `", zone, "` requires targets or values for `");
                push_str(&mut m, rec.record_type.as_str());
                push_str(&mut m, "`");
                issues.push(m);
            }
            let ghost mid = str_views(issues@);
            let ghost f = |i: int| value_issue(*rec, zone@, rec.values@[i]@, addrs.values@[i]);
            let mut i: usize = 0;
            while i < rec.values.len()
                invariant
                    i <= rec.values@.len(),
                    addresses_fit(*rec, *addrs),
                    f == (|i: int| value_issue(*rec, zone@, rec.values@[i]@, addrs.values@[i])),
                    str_views(issues@) == mid + flatten(Seq::new(i as nat, f)),
                decreases rec.values@.len() - i,
            {
                let ghost before = str_views(issues@);
                let value = &rec.values[i];
                match &addrs.values[i] {
                    IpParse::Address { family, .. } => {
                        if !ip_matches_record_type(*family, rec.record_type) {
                            let mut m = cat5("record `", rec.name.as_str(), "` in zone `", zone, "` has mismatched IP family `");
                            push_str(&mut m, value.as_str());
                            push_str(&mut m, "` for `");
                            push_str(&mut m, rec.record_type.as_str());
                            push_str(&mut m, "`");
                            issues.push(m);
                        }
                    },
                    IpParse::Invalid { error } => {
                        let mut m = cat5("record `", rec.name.as_str(), "` in zone `", zone, "` has invalid IP value `");
                        push_str(&mut m, value.as_str());
                        push_str(&mut m, "`: ");
                        push_str(&mut m, error.as_str());
                        issues.push(m);
                    },
                }
                proof {
                    assert(Seq::new((i + 1) as nat, f) =~= Seq::new(i as nat, f).push(f(i as int)));
                    lemma_flatten_push(Seq::new(i as nat, f), f(i as int));
                    assert(str_views(issues@) =~= before + f(i as int));
                }
                i = i + 1;
            }
            let ghost mid2 = str_views(issues@);
            let ghost g = |j: int| target_issues(plan_cluster@, rec.name@, zone@, rec.targets@[j], addrs.targets@[j], str_views(node_ids@));
            let mut j: usize = 0;
            while j < rec.targets.len()
                invariant
                    j <= rec.targets@.len(),
                    addresses_fit(*rec, *addrs),
                    g == (|j: int| target_issues(plan_cluster@, rec.name@, zone@, rec.targets@[j], addrs.targets@[j], str_views(node_ids@))),
                    str_views(issues@) == mid2 + flatten(Seq::new(j as nat, g)),
                decreases rec.targets@.len() - j,
            {
                let ghost before = str_views(issues@);
                let more = validate_target(plan_cluster, rec.name.as_str(), zone, &rec.targets[j], &addrs.targets[j], node_ids);
                append_issues(&mut issues, more);
                proof {
                    assert(Seq::new((j + 1) as nat, g) =~= Seq::new(j as nat, g).push(g(j as int)));
                    lemma_flatten_push(Seq::new(j as nat, g), g(j as int));
                    assert(str_views(issues@) =~= before + g(j as int));
                }
                j = j + 1;
            }
        },
    }
    assert(str_views(issues@) =~= record_issues(plan_cluster@, zone@, *rec, *addrs, str_views(node_ids@)));
    issues
}

/// The key under which a record is unique in its zone: `fqdn:TYPE`.
pub open spec fn record_key(zone: DnsZoneSpec, rec: DnsRecordSet) -> Seq<char> {
    spec_record_fqdn(zone.zone_name@, rec.name@) + seq![':'] + spec_record_type_str(rec.record_type)
}

/// The issues, record keys, CNAME names (each once, in order) and other names
/// after the first `n` records of a zone.
pub open spec fn scan_records(
    plan_cluster: Seq<char>,
    zone: DnsZoneSpec,
    addrs: Seq<RecordAddresses>,
    node_ids: Seq<Seq<char>>,
    n: nat,
) -> (Seq<Seq<char>>, Seq<Seq<char>>, Seq<Seq<char>>, Seq<Seq<char>>)
    decreases n,
{
    if n == 0 {
        (Seq::empty(), Seq::empty(), Seq::empty(), Seq::empty())
    } else {
        let prev = scan_records(plan_cluster, zone, addrs, node_ids, (n - 1) as nat);
        let rec = zone.records@[n - 1];
        let fqdn = spec_record_fqdn(zone.zone_name@, rec.name@);
        let key = record_key(zone, rec);
        let dup = prev.1.contains(key);
        let issues = prev.0 + record_issues(plan_cluster, zone.zone_name@, rec, addrs[n - 1], node_ids) + (if dup {
            seq!["duplicate record `"@ + fqdn + "` type `"@ + spec_record_type_str(rec.record_type) + "` in zone `"@
                + zone.zone_name@ + "`"@]
        } else {
            Seq::empty()
        });
        let keys = if dup {
            prev.1
        } else {
            prev.1.push(key)
        };
        let cnames = if rec.record_type == DnsRecordType::Cname && !prev.2.contains(fqdn) {
            prev.2.push(fqdn)
        } else {
            prev.2
        };
        let others = if rec.record_type != DnsRecordType::Cname {
            prev.3.push(fqdn)
        } else {
            prev.3
        };
        (issues, keys, cnames, others)
    }
}

/// A name that has both a CNAME and other records.
pub open spec fn mix_issues(cnames: Seq<Seq<char>>, others: Seq<Seq<char>>, zone_name: Seq<char>) -> Seq<Seq<char>> {
    flatten(
        Seq::new(
            cnames.len(),
            |i: int|
                if others.contains(cnames[i]) {
                    seq!["record `"@ + cnames[i] + "` in zone `"@ + zone_name + "` cannot mix CNAME with other types"@]
                } else {
                    Seq::empty()
                },
        ),
    )
}

/// The addresses fit the plan: one list per zone, one entry per record.
pub open spec fn plan_addresses_fit(plan: DnsPlan, addrs: Seq<Vec<RecordAddresses>>) -> bool {
    &&& addrs.len() == plan.zones@.len()
    &&& forall|z: int|
        0 <= z < addrs.len() ==> (#[trigger] addrs[z])@.len() == plan.zones@[z].records@.len() && forall|r: int|
            0 <= r < addrs[z]@.len() ==> addresses_fit(plan.zones@[z].records@[r], #[trigger] addrs[z]@[r])
}

/// The issues and the zone names seen after the first `n` zones of a plan.
pub open spec fn scan_zones(
    plan: DnsPlan,
    addrs: Seq<Vec<RecordAddresses>>,
    node_ids: Seq<Seq<char>>,
    n: nat,
) -> (Seq<Seq<char>>, Seq<Seq<char>>)
    decreases n,
{
    if n == 0 {
        (Seq::empty(), Seq::empty())
    } else {
        let prev = scan_zones(plan, addrs, node_ids, (n - 1) as nat);
        let z = plan.zones@[n - 1];
        let id_issue = if is_blank_seq(z.zone_id@) {
            seq!["zone_id should not be empty"@]
        } else {
            Seq::empty()
        };
        if is_blank_seq(z.zone_name@) {
            (prev.0 + id_issue + seq!["zone `"@ + z.zone_id@ + "` zone_name should not be empty"@], prev.1)
        } else {
            let name = spec_normalize_name(z.zone_name@);
            let dup = prev.1.contains(name);
            let recs = scan_records(plan.cluster_id@, z, addrs[n - 1]@, node_ids, z.records@.len());
            (
                prev.0 + id_issue + (if dup {
                    seq!["duplicate zone_name `"@ + name + "`"@]
                } else {
                    Seq::empty()
                }) + recs.0 + mix_issues(recs.2, recs.3, z.zone_name@),
                if dup {
                    prev.1
                } else {
                    prev.1.push(name)
                },
            )
        }
    }
}

/// Every issue of a plan, zone by zone and record by record.
pub open spec fn spec_plan_issues(plan: DnsPlan, addrs: Seq<Vec<RecordAddresses>>, node_ids: Seq<Seq<char>>) -> Seq<Seq<char>> {
    scan_zones(plan, addrs, node_ids, plan.zones@.len()).0
}

fn scan_zone_records(
    plan_cluster: &str,
    zone: &DnsZoneSpec,
    addrs: &Vec<RecordAddresses>,
    node_ids: &Vec<String>,
) -> (r: (Vec<String>, Vec<String>, Vec<String>))
    requires
        addrs@.len() == zone.records@.len(),
        forall|i: int| 0 <= i < addrs@.len() ==> addresses_fit(zone.records@[i], #[trigger] addrs@[i]),
    ensures
        ({
            let s = scan_records(plan_cluster@, *zone, addrs@, str_views(node_ids@), zone.records@.len());
            str_views(r.0@) == s.0 && str_views(r.1@) == s.2 && str_views(r.2@) == s.3
        }),
{
    let mut issues: Vec<String> = Vec::new();
    let mut keys: Vec<String> = Vec::new();
    let mut cnames: Vec<String> = Vec::new();
    let mut others: Vec<String> = Vec::new();
    let mut i: usize = 0;
    while i < zone.records.len()
        invariant
            i <= zone.records@.len(),
            addrs@.len() == zone.records@.len(),
            forall|k: int| 0 <= k < addrs@.len() ==> addresses_fit(zone.records@[k], #[trigger] addrs@[k]),
            ({
                let s = scan_records(plan_cluster@, *zone, addrs@, str_views(node_ids@), i as nat);
                str_views(issues@) == s.0 && str_views(keys@) == s.1 && str_views(cnames@) == s.2 && str_views(
                    others@,
                ) == s.3
            }),
        decreases zone.records@.len() - i,
    {
        let rec = &zone.records[i];
        let ghost prev = scan_records(plan_cluster@, *zone, addrs@, str_views(node_ids@), i as nat);
        let fqdn = record_fqdn(zone.zone_name.as_str(), rec.name.as_str());
        let mut key = string_of(fqdn.as_str());
        push_char(&mut key, ':');
        push_str(&mut key, rec.record_type.as_str());
        assert(key@ == record_key(*zone, *rec));
        let more = validate_record(plan_cluster, zone.zone_name.as_str(), rec, &addrs[i], node_ids);
        append_issues(&mut issues, more);
        let ghost mid = str_views(issues@);
        assert(mid == prev.0 + record_issues(plan_cluster@, zone.zone_name@, *rec, addrs@[i as int], str_views(node_ids@)));
        let dup = contains_str(&keys, key.as_str());
        assert(dup == prev.1.contains(record_key(*zone, *rec)));
        if dup {
            let mut m = cat3("duplicate record `", fqdn.as_str(), "` type `");
            push_str(&mut m, rec.record_type.as_str());
            push_str(&mut m, "` in zone `");
            push_str(&mut m, zone.zone_name.as_str());
            push_str(&mut m, "`");
            issues.push(m);
        } else {
            keys.push(key);
        }
        if rec.record_type == DnsRecordType::Cname {
            if !contains_str(&cnames, fqdn.as_str()) {
                cnames.push(fqdn);
            }
        } else {
            others.push(fqdn);
        }
        proof {
            let s = scan_records(plan_cluster@, *zone, addrs@, str_views(node_ids@), (i + 1) as nat);
            assert(str_views(issues@) =~= s.0);
            assert(str_views(keys@) =~= s.1);
            assert(str_views(cnames@) =~= s.2);
            assert(str_views(others@) =~= s.3);
        }
        i = i + 1;
    }
    (issues, cnames, others)
}

fn mix_check(cnames: &Vec<String>, others: &Vec<String>, zone_name: &str) -> (issues: Vec<String>)
    ensures
        str_views(issues@) == mix_issues(str_views(cnames@), str_views(others@), zone_name@),
{
    let ghost f = |i: int|
        if str_views(others@).contains(str_views(cnames@)[i]) {
            seq!["record `"@ + str_views(cnames@)[i] + "` in zone `"@ + zone_name@ + "` cannot mix CNAME with other types"@]
        } else {
            Seq::<Seq<char>>::empty()
        };
    let mut issues: Vec<String> = Vec::new();
    let mut i: usize = 0;
    while i < cnames.len()
        invariant
            i <= cnames@.len(),
            f == (|i: int|
                if str_views(others@).contains(str_views(cnames@)[i]) {
                    seq!["record `"@ + str_views(cnames@)[i] + "` in zone `"@ + zone_name@ + "` cannot mix CNAME with other types"@]
                } else {
                    Seq::<Seq<char>>::empty()
                }),
            str_views(issues@) == flatten(Seq::new(i as nat, f)),
        decreases cnames@.len() - i,
    {
        let ghost before = str_views(issues@);
        if contains_str(others, cnames[i].as_str()) {
            issues.push(cat5("record `", cnames[i].as_str(), "` in zone `", zone_name, "` cannot mix CNAME with other types"));
        }
        proof {
            assert(Seq::new((i + 1) as nat, f) =~= Seq::new(i as nat, f).push(f(i as int)));
            lemma_flatten_push(Seq::new(i as nat, f), f(i as int));
            assert(str_views(issues@) =~= before + f(i as int));
        }
        i = i + 1;
    }
    assert(Seq::new(cnames@.len(), f) =~= Seq::new(str_views(cnames@).len(), |i: int|
        if str_views(others@).contains(str_views(cnames@)[i]) {
            seq!["record `"@ + str_views(cnames@)[i] + "` in zone `"@ + zone_name@ + "` cannot mix CNAME with other types"@]
        } else {
            Seq::<Seq<char>>::empty()
        }));
    issues
}

/// Checks a DNS plan against the known nodes, with the addresses read from
/// its values and targets; the issues come zone by zone, in plan order.
pub fn validate_dns_plan(plan: &DnsPlan, addrs: &Vec<Vec<RecordAddresses>>, node_ids: &Vec<String>) -> (issues: Vec<
    String,
>)
    requires
        plan_addresses_fit(*plan, addrs@),
    ensures
        str_views(issues@) == spec_plan_issues(*plan, addrs@, str_views(node_ids@)),
{
    let mut issues: Vec<String> = Vec::new();
    let mut seen: Vec<String> = Vec::new();
    let mut z: usize = 0;
    while z < plan.zones.len()
        invariant
            z <= plan.zones@.len(),
            plan_addresses_fit(*plan, addrs@),
            ({
                let s = scan_zones(*plan, addrs@, str_views(node_ids@), z as nat);
                str_views(issues@) == s.0 && str_views(seen@) == s.1
            }),
        decreases plan.zones@.len() - z,
    {
        let zone = &plan.zones[z];
        let ghost prev = str_views(issues@);
        if crate::text::is_blank(zone.zone_id.as_str()) {
            issues.push(string_of("zone_id should not be empty"));
        }
        if crate::text::is_blank(zone.zone_name.as_str()) {
            issues.push(cat3("zone `", zone.zone_id.as_str(), "` zone_name should not be empty"));
        } else {
            let name = normalize_name(zone.zone_name.as_str());
            if contains_str(&seen, name.as_str()) {
                issues.push(cat3("duplicate zone_name `", name.as_str(), "`"));
            } else {
                seen.push(name);
            }
            let (record_issues, cnames, others) = scan_zone_records(plan.cluster_id.as_str(), zone, &addrs[z], node_ids);
            append_issues(&mut issues, record_issues);
            let mixed = mix_check(&cnames, &others, zone.zone_name.as_str());
            append_issues(&mut issues, mixed);
        }
        proof {
            let s = scan_zones(*plan, addrs@, str_views(node_ids@), (z + 1) as nat);
            assert(str_views(issues@) =~= s.0);
            assert(str_views(seen@) =~= s.1);
        }
        z = z + 1;
    }
    issues
}

// ---------------------------------------------------------------- query simulation

/// Whether a (normalized) query name lies in a (normalized) zone: it is the
/// zone's name or ends with `.` and the zone's name.
pub open spec fn in_zone(qname: Seq<char>, zone: Seq<char>) -> bool {
    qname == zone || (qname.len() > zone.len() && qname.skip(qname.len() - zone.len() - 1) == seq!['.'] + zone)
}

/// The zone name's length in bytes, which decides between matching zones.
pub open spec fn zone_name_len(z: DnsZoneSpec) -> nat {
    vstd::utf8::encode_utf8(z.zone_name@).len()
}

/// The best zone among the first `k`: a zone the name lies in whose name is
/// longest, the later one among equally long names.
pub open spec fn best_zone_upto(zones: Seq<DnsZoneSpec>, qname: Seq<char>, k: int) -> Option<int>
    decreases k,
{
    if k <= 0 {
        None
    } else {
        let prev = best_zone_upto(zones, qname, k - 1);
        if in_zone(qname, spec_normalize_name(zones[k - 1].zone_name@)) && match prev {
            None => true,
            Some(p) => zone_name_len(zones[p]) <= zone_name_len(zones[k - 1]),
        } {
            Some(k - 1)
        } else {
            prev
        }
    }
}

proof fn lemma_best_zone_range(zones: Seq<DnsZoneSpec>, qname: Seq<char>, k: int)
    ensures
        match best_zone_upto(zones, qname, k) {
            Some(p) => 0 <= p < k,
            None => true,
        },
    decreases k,
{
    if k > 0 {
        lemma_best_zone_range(zones, qname, k - 1);
    }
}

/// Whether a record answers the (normalized) name and the type.
pub open spec fn record_answers(zone: DnsZoneSpec, rec: DnsRecordSet, qname: Seq<char>, record_type: DnsRecordType) -> bool {
    spec_normalize_name(spec_record_fqdn(zone.zone_name@, rec.name@)) == qname && rec.record_type == record_type
}

/// The first record of a zone that answers the name and the type.
pub open spec fn first_answering(zone: DnsZoneSpec, qname: Seq<char>, record_type: DnsRecordType, k: int) -> Option<int>
    decreases zone.records@.len() - k,
{
    if k < 0 || k >= zone.records@.len() {
        None
    } else if record_answers(zone, zone.records@[k], qname, record_type) {
        Some(k)
    } else {
        first_answering(zone, qname, record_type, k + 1)
    }
}

/// Which zone and record of a plan answer a query.
#[derive(Clone, Debug)]
pub struct QueryMatch {
    pub qname: String,
    pub zone: Option<usize>,
    pub record: Option<usize>,
}

pub open spec fn spec_query_zone(plan: DnsPlan, qname: Seq<char>) -> Option<int> {
    best_zone_upto(plan.zones@, spec_normalize_name(qname), plan.zones@.len() as int)
}

pub open spec fn spec_query_record(plan: DnsPlan, qname: Seq<char>, record_type: DnsRecordType) -> Option<int> {
    match spec_query_zone(plan, qname) {
        None => None,
        Some(z) => first_answering(plan.zones@[z], spec_normalize_name(qname), record_type, 0),
    }
}

fn name_in_zone(q: &Vec<char>, z: &Vec<char>) -> (r: bool)
    ensures
        r == in_zone(q@, z@),
{
    if q.len() == z.len() {
        let mut i: usize = 0;
        while i < q.len()
            invariant
                q@.len() == z@.len(),
                i <= q@.len(),
                forall|j: int| 0 <= j < i ==> q@[j] == z@[j],
            decreases q@.len() - i,
        {
            if q[i] != z[i] {
                return false;
            }
            i = i + 1;
        }
        assert(q@ =~= z@);
        return true;
    }
    if q.len() <= z.len() {
        return false;
    }
    let start = q.len() - z.len() - 1;
    if q[start] != '.' {
        assert(q@.skip(start as int)[0] != (seq!['.'] + z@)[0]);
        return false;
    }
    let mut i: usize = 0;
    while i < z.len()
        invariant
            start + 1 + z@.len() == q@.len(),
            q@.len() <= usize::MAX,
            q@[start as int] == '.',
            i <= z@.len(),
            forall|j: int| 0 <= j < i ==> q@[start + 1 + j] == z@[j],
        decreases z@.len() - i,
    {
        if q[start + 1 + i] != z[i] {
            assert(q@.skip(start as int)[1 + i] != (seq!['.'] + z@)[1 + i]);
            return false;
        }
        i = i + 1;
    }
    assert(q@.skip(start as int) =~= seq!['.'] + z@);
    true
}

pub open spec fn index_opt(o: Option<usize>) -> Option<int> {
    match o {
        Some(x) => Some(x as int),
        None => None,
    }
}

fn first_answering_record(zone: &DnsZoneSpec, qname: &str, record_type: DnsRecordType) -> (r: Option<usize>)
    ensures
        index_opt(r) == first_answering(*zone, qname@, record_type, 0),
{
    let mut i: usize = 0;
    while i < zone.records.len()
        invariant
            i <= zone.records@.len(),
            first_answering(*zone, qname@, record_type, 0) == first_answering(*zone, qname@, record_type, i as int),
        decreases zone.records@.len() - i,
    {
        let rec = &zone.records[i];
        let fq = record_fqdn(zone.zone_name.as_str(), rec.name.as_str());
        let nfq = normalize_name(fq.as_str());
        if rec.record_type == record_type && str_eq(nfq.as_str(), qname) {
            return Some(i);
        }
        i = i + 1;
    }
    None
}

/// The zone that a normalized query name is answered from: among the zones
/// it lies in, the one with the longest name, the later one on a tie.
pub fn best_matching_zone(zones: &Vec<DnsZoneSpec>, qname: &str) -> (best: Option<usize>)
    ensures
        index_opt(best) == best_zone_upto(zones@, qname@, zones@.len() as int),
{
    let qv = chars_of(qname);
    let mut best: Option<usize> = None;
    let mut k: usize = 0;
    while k < zones.len()
        invariant
            k <= zones@.len(),
            qv@ == qname@,
            index_opt(best) == best_zone_upto(zones@, qv@, k as int),
            match best {
                Some(p) => p < k,
                None => true,
            },
        decreases zones@.len() - k,
    {
        proof {
            lemma_best_zone_range(zones@, qv@, k as int);
        }
        let zn = normalize_name(zones[k].zone_name.as_str());
        let zv = chars_of(zn.as_str());
        if name_in_zone(&qv, &zv) {
            let longer = match best {
                None => true,
                Some(p) => zones[p].zone_name.as_str().as_bytes().len() <= zones[k].zone_name.as_str().as_bytes().len(),
            };
            if longer {
                best = Some(k);
            }
        }
        k = k + 1;
    }
    best
}

/// Finds the zone and the record that answer a query.
pub fn match_query(plan: &DnsPlan, qname: &str, record_type: DnsRecordType) -> (m: QueryMatch)
    ensures
        m.qname@ == spec_normalize_name(qname@),
        index_opt(m.zone) == spec_query_zone(*plan, qname@),
        index_opt(m.record) == spec_query_record(*plan, qname@, record_type),
{
    let q = normalize_name(qname);
    let best = best_matching_zone(&plan.zones, q.as_str());
    proof {
        lemma_best_zone_range(plan.zones@, q@, plan.zones@.len() as int);
    }
    let record = match best {
        None => None,
        Some(z) => first_answering_record(&plan.zones[z], q.as_str(), record_type),
    };
    QueryMatch { qname: q, zone: best, record }
}

/// An address that an answer can carry: its family and canonical text.
#[derive(Clone, Debug)]
pub struct ParsedIp {
    pub family: IpFamily,
    pub text: String,
}

/// A node as a simulation sees it: its summary and the address that its
/// advertised address resolves to, if any.
#[derive(Clone, Debug)]
pub struct NodeFacts {
    pub node: NodeSummary,
    pub ip: Option<ParsedIp>,
}

/// A peer of an upstream: its URL, its authority and the addresses that the
/// authority resolves to, `None` when it does not resolve.
#[derive(Clone, Debug)]
pub struct PeerFacts {
    pub url: String,
    pub authority: String,
    pub addresses: Option<Vec<ParsedIp>>,
}

/// What the cluster's latest configuration says of an upstream target.
#[derive(Clone, Debug)]
pub enum UpstreamFacts {
    NoRevision,
    CompileFailed(String),
    UnknownUpstream,
    Peers(Vec<PeerFacts>),
}

/// What a simulation needs to know of one answer target.
#[derive(Clone, Debug)]
pub struct TargetFacts {
    /// The target's value read as an address (static targets).
    pub static_ip: IpParse,
    /// The node that the target names (node targets).
    pub node: Option<NodeFacts>,
    /// Every known node (cluster targets keep those of the target's cluster).
    pub nodes: Vec<NodeFacts>,
    /// The upstream that the target names (upstream targets).
    pub upstream: UpstreamFacts,
}

/// One answer of a simulation, or one discarded candidate.
#[derive(Clone, Debug)]
pub struct DnsResolvedValue {
    pub value: String,
    pub target_kind: Option<DnsTargetKind>,
    pub target_id: Option<String>,
    pub target_value: Option<String>,
    pub weight: Option<u32>,
    pub source_cidrs: Vec<String>,
    pub node_id: Option<String>,
    pub cluster_id: Option<String>,
    pub healthy: bool,
    pub reason: Option<String>,
}

/// The outcome of a simulated query.
#[derive(Clone, Debug)]
pub struct DnsSimulationResponse {
    pub cluster_id: String,
    pub qname: String,
    pub record_type: DnsRecordType,
    pub matched_zone: Option<String>,
    pub matched_record_id: Option<String>,
    pub ttl_secs: Option<u32>,
    pub answers: Vec<DnsResolvedValue>,
    pub discarded: Vec<DnsResolvedValue>,
    pub issues: Vec<String>,
}

/// The content of a resolved value, as plain values.
pub struct ResolvedView {
    pub value: Seq<char>,
    pub target_kind: Option<DnsTargetKind>,
    pub target_id: Option<Seq<char>>,
    pub target_value: Option<Seq<char>>,
    pub weight: Option<u32>,
    pub source_cidrs: Seq<Seq<char>>,
    pub node_id: Option<Seq<char>>,
    pub cluster_id: Option<Seq<char>>,
    pub healthy: bool,
    pub reason: Option<Seq<char>>,
}

pub open spec fn opt_seq(o: Option<String>) -> Option<Seq<char>> {
    match o {
        Some(s) => Some(s@),
        None => None,
    }
}

pub open spec fn resolved_view(v: DnsResolvedValue) -> ResolvedView {
    ResolvedView {
        value: v.value@,
        target_kind: v.target_kind,
        target_id: opt_seq(v.target_id),
        target_value: opt_seq(v.target_value),
        weight: v.weight,
        source_cidrs: str_views(v.source_cidrs@),
        node_id: opt_seq(v.node_id),
        cluster_id: opt_seq(v.cluster_id),
        healthy: v.healthy,
        reason: opt_seq(v.reason),
    }
}

pub open spec fn resolved_views(v: Seq<DnsResolvedValue>) -> Seq<ResolvedView> {
    v.map_values(|x: DnsResolvedValue| resolved_view(x))
}

/// A candidate that a target produced.
pub open spec fn target_value_view(
    t: DnsAnswerTarget,
    value: Seq<char>,
    healthy: bool,
    node_id: Option<Seq<char>>,
    cluster_id: Option<Seq<char>>,
    reason: Option<Seq<char>>,
) -> ResolvedView {
    ResolvedView {
        value,
        target_kind: Some(t.kind),
        target_id: Some(t.target_id@),
        target_value: Some(t.value@),
        weight: Some(t.weight),
        source_cidrs: str_views(t.source_cidrs@),
        node_id,
        cluster_id,
        healthy,
        reason,
    }
}

/// A target's candidate that is discarded: its value (or the target's), with the reason.
pub open spec fn discarded_view(t: DnsAnswerTarget, value: Option<Seq<char>>, reason: Seq<char>) -> ResolvedView {
    target_value_view(
        t,
        match value {
            Some(v) => v,
            None => t.value@,
        },
        false,
        None,
        None,
        Some(reason),
    )
}

fn copy_opt(o: &Option<String>) -> (r: Option<String>)
    ensures
        opt_seq(r) == opt_seq(*o),
{
    match o {
        Some(s) => Some(string_of(s.as_str())),
        None => None,
    }
}

/// A candidate that a target produced.
pub fn resolved_target(
    target: &DnsAnswerTarget,
    value: String,
    healthy: bool,
    node_id: Option<String>,
    cluster_id: Option<String>,
    reason: Option<String>,
) -> (r: DnsResolvedValue)
    ensures
        resolved_view(r) == target_value_view(*target, value@, healthy, opt_seq(node_id), opt_seq(cluster_id), opt_seq(reason)),
{
    DnsResolvedValue {
        value,
        target_kind: Some(target.kind),
        target_id: Some(string_of(target.target_id.as_str())),
        target_value: Some(string_of(target.value.as_str())),
        weight: Some(target.weight),
        source_cidrs: copy_strings(&target.source_cidrs),
        node_id,
        cluster_id,
        healthy,
        reason,
    }
}

/// A target's candidate that is discarded, with the reason.
pub fn discarded_target(target: &DnsAnswerTarget, value: Option<String>, reason: &str) -> (r: DnsResolvedValue)
    ensures
        resolved_view(r) == discarded_view(*target, opt_seq(value), reason@),
{
    let v = match value {
        Some(v) => v,
        None => string_of(target.value.as_str()),
    };
    resolved_target(target, v, false, None, None, Some(string_of(reason)))
}

/// Where a candidate goes.
pub open spec fn place(answer: bool, v: ResolvedView) -> (Seq<ResolvedView>, Seq<ResolvedView>) {
    if answer {
        (seq![v], Seq::empty())
    } else {
        (Seq::empty(), seq![v])
    }
}

/// Answers and discarded candidates, one list after the other.
pub open spec fn join_outcomes(s: Seq<(Seq<ResolvedView>, Seq<ResolvedView>)>) -> (Seq<ResolvedView>, Seq<ResolvedView>)
    decreases s.len(),
{
    if s.len() == 0 {
        (Seq::empty(), Seq::empty())
    } else {
        let prev = join_outcomes(s.drop_last());
        (prev.0 + s.last().0, prev.1 + s.last().1)
    }
}

proof fn lemma_join_push(s: Seq<(Seq<ResolvedView>, Seq<ResolvedView>)>, x: (Seq<ResolvedView>, Seq<ResolvedView>))
    ensures
        join_outcomes(s.push(x)) == (join_outcomes(s).0 + x.0, join_outcomes(s).1 + x.1),
{
    assert(s.push(x).drop_last() =~= s);
}

pub open spec fn is_serving(state: NodeLifecycleState) -> bool {
    state == NodeLifecycleState::Online || state == NodeLifecycleState::Draining
}

/// A node that a node target names.
pub open spec fn node_outcome(t: DnsAnswerTarget, n: NodeFacts, rt: DnsRecordType) -> (Seq<ResolvedView>, Seq<ResolvedView>) {
    match n.ip {
        None => place(false, discarded_view(t, Some(n.node.advertise_addr@), "node advertise_addr does not contain a valid IP"@)),
        Some(ip) => if !family_matches(ip.family, rt) {
            place(false, discarded_view(t, Some(ip.text@), "node IP family does not match record type"@))
        } else {
            place(
                is_serving(n.node.state),
                target_value_view(
                    t,
                    ip.text@,
                    is_serving(n.node.state),
                    Some(n.node.node_id@),
                    Some(n.node.cluster_id@),
                    Some("node "@ + n.node.node_id@ + " is "@ + spec_node_state_str(n.node.state)),
                ),
            )
        },
    }
}

/// A node of the cluster that a cluster target names.
pub open spec fn cluster_node_outcome(t: DnsAnswerTarget, n: NodeFacts, rt: DnsRecordType) -> (Seq<ResolvedView>, Seq<ResolvedView>) {
    match n.ip {
        None => place(
            false,
            discarded_view(t, Some(n.node.advertise_addr@), "cluster node advertise_addr does not contain a valid IP"@),
        ),
        Some(ip) => if !family_matches(ip.family, rt) {
            place(false, discarded_view(t, Some(ip.text@), "cluster node IP family does not match record type"@))
        } else {
            place(
                is_serving(n.node.state),
                target_value_view(
                    t,
                    ip.text@,
                    is_serving(n.node.state),
                    Some(n.node.node_id@),
                    Some(n.node.cluster_id@),
                    Some("cluster expansion from node "@ + n.node.node_id@),
                ),
            )
        },
    }
}

/// The nodes of the target's cluster, in order.
pub open spec fn cluster_members(t: DnsAnswerTarget, nodes: Seq<NodeFacts>) -> Seq<NodeFacts> {
    nodes.filter(|n: NodeFacts| n.node.cluster_id@ == t.value@)
}

/// One peer of an upstream target.
pub open spec fn peer_outcome(t: DnsAnswerTarget, p: PeerFacts, rt: DnsRecordType, cluster_id: Seq<char>) -> (Seq<ResolvedView>, Seq<ResolvedView>) {
    match p.addresses {
        None => place(false, discarded_view(t, Some(p.authority@), "upstream authority could not be resolved"@)),
        Some(addrs) => {
            let matching = addrs@.filter(|a: ParsedIp| family_matches(a.family, rt));
            if matching.len() == 0 {
                place(false, discarded_view(t, Some(p.authority@), "upstream peer did not resolve to the requested record family"@))
            } else {
                (
                    matching.map_values(|a: ParsedIp| target_value_view(
                        t,
                        a.text@,
                        true,
                        None,
                        Some(cluster_id),
                        Some("expanded from upstream peer "@ + p.url@),
                    )),
                    Seq::empty(),
                )
            }
        },
    }
}

/// What one answer target contributes to a simulated query.
pub open spec fn target_outcome(
    t: DnsAnswerTarget,
    f: TargetFacts,
    rt: DnsRecordType,
    cluster_id: Seq<char>,
    source: ParsedIp,
) -> (Seq<ResolvedView>, Seq<ResolvedView>) {
    if !t.enabled {
        place(false, discarded_view(t, None, "target is disabled"@))
    } else if t.source_cidrs@.len() > 0 && !spec_source_matches(str_views(t.source_cidrs@), source) {
        place(false, discarded_view(t, None, "source_ip did not match source_cidrs"@))
    } else {
        match t.kind {
            DnsTargetKind::StaticIp => match f.static_ip {
                IpParse::Address { family, text } => if family_matches(family, rt) {
                    place(true, target_value_view(t, text@, true, None, None, Some("static target"@)))
                } else {
                    place(false, discarded_view(t, Some(text@), "static IP family does not match record type"@))
                },
                IpParse::Invalid { error } => place(false, discarded_view(t, None, "invalid static IP: "@ + error@)),
            },
            DnsTargetKind::Node => match f.node {
                None => place(false, discarded_view(t, None, "node was not found"@)),
                Some(n) => node_outcome(t, n, rt),
            },
            DnsTargetKind::Cluster => {
                let members = cluster_members(t, f.nodes@);
                if members.len() == 0 {
                    place(false, discarded_view(t, None, "cluster did not resolve to any nodes"@))
                } else {
                    join_outcomes(members.map_values(|n: NodeFacts| cluster_node_outcome(t, n, rt)))
                }
            },
            DnsTargetKind::Upstream => match f.upstream {
                UpstreamFacts::NoRevision => place(
                    false,
                    discarded_view(t, None, "cluster has no config revision to expand upstream target"@),
                ),
                UpstreamFacts::CompileFailed(e) => place(
                    false,
                    discarded_view(t, None, "failed to compile latest config revision for upstream expansion: "@ + e@),
                ),
                UpstreamFacts::UnknownUpstream => place(
                    false,
                    discarded_view(t, None, "upstream target name was not found in latest config revision"@),
                ),
                UpstreamFacts::Peers(peers) => join_outcomes(
                    peers@.map_values(|p: PeerFacts| peer_outcome(t, p, rt, cluster_id)),
                ),
            },
        }
    }
}

fn push_placed(answer: bool, v: DnsResolvedValue, answers: &mut Vec<DnsResolvedValue>, discarded: &mut Vec<DnsResolvedValue>)
    ensures
        resolved_views(final(answers)@) == resolved_views(old(answers)@) + place(answer, resolved_view(v)).0,
        resolved_views(final(discarded)@) == resolved_views(old(discarded)@) + place(answer, resolved_view(v)).1,
{
    if answer {
        answers.push(v);
    } else {
        discarded.push(v);
    }
    assert(resolved_views(answers@) =~= resolved_views(old(answers)@) + place(answer, resolved_view(v)).0);
    assert(resolved_views(discarded@) =~= resolved_views(old(discarded)@) + place(answer, resolved_view(v)).1);
}

fn node_reason(node: &NodeSummary) -> (r: String)
    ensures
        r@ == "node "@ + node.node_id@ + " is "@ + spec_node_state_str(node.state),
{
    let mut r = cat3("node ", node.node_id.as_str(), " is ");
    push_str(&mut r, node.state.as_str());
    r
}

fn serving(state: NodeLifecycleState) -> (r: bool)
    ensures
        r == is_serving(state),
{
    match state {
        NodeLifecycleState::Online | NodeLifecycleState::Draining => true,
        _ => false,
    }
}

fn expand_node(
    target: &DnsAnswerTarget,
    n: &NodeFacts,
    rt: DnsRecordType,
    cluster_member: bool,
    answers: &mut Vec<DnsResolvedValue>,
    discarded: &mut Vec<DnsResolvedValue>,
)
    ensures
        ({
            let o = if cluster_member {
                cluster_node_outcome(*target, *n, rt)
            } else {
                node_outcome(*target, *n, rt)
            };
            resolved_views(final(answers)@) == resolved_views(old(answers)@) + o.0 && resolved_views(final(discarded)@)
                == resolved_views(old(discarded)@) + o.1
        }),
{
    match &n.ip {
        None => {
            let reason = if cluster_member {
                "cluster node advertise_addr does not contain a valid IP"
            } else {
                "node advertise_addr does not contain a valid IP"
            };
            let v = discarded_target(target, Some(string_of(n.node.advertise_addr.as_str())), reason);
            push_placed(false, v, answers, discarded);
        },
        Some(ip) => {
            if !ip_matches_record_type(ip.family, rt) {
                let reason = if cluster_member {
                    "cluster node IP family does not match record type"
                } else {
                    "node IP family does not match record type"
                };
                let v = discarded_target(target, Some(string_of(ip.text.as_str())), reason);
                push_placed(false, v, answers, discarded);
            } else {
                let healthy = serving(n.node.state);
                let reason = if cluster_member {
                    cat2("cluster expansion from node ", n.node.node_id.as_str())
                } else {
                    node_reason(&n.node)
                };
                let v = resolved_target(
                    target,
                    string_of(ip.text.as_str()),
                    healthy,
                    Some(string_of(n.node.node_id.as_str())),
                    Some(string_of(n.node.cluster_id.as_str())),
                    Some(reason),
                );
                push_placed(healthy, v, answers, discarded);
            }
        },
    }
}

fn expand_peer(
    target: &DnsAnswerTarget,
    p: &PeerFacts,
    rt: DnsRecordType,
    cluster_id: &str,
    answers: &mut Vec<DnsResolvedValue>,
    discarded: &mut Vec<DnsResolvedValue>,
)
    ensures
        resolved_views(final(answers)@) == resolved_views(old(answers)@) + peer_outcome(*target, *p, rt, cluster_id@).0,
        resolved_views(final(discarded)@) == resolved_views(old(discarded)@) + peer_outcome(*target, *p, rt, cluster_id@).1,
{
    match &p.addresses {
        None => {
            let v = discarded_target(target, Some(string_of(p.authority.as_str())), "upstream authority could not be resolved");
            push_placed(false, v, answers, discarded);
        },
        Some(addrs) => {
            let ghost pred = |a: ParsedIp| family_matches(a.family, rt);
            let ghost view = |a: ParsedIp| target_value_view(
                *target,
                a.text@,
                true,
                None,
                Some(cluster_id@),
                Some("expanded from upstream peer "@ + p.url@),
            );
            let ghost start = resolved_views(answers@);
            let mut matched: usize = 0;
            let mut i: usize = 0;
            while i < addrs.len()
                invariant
                    i <= addrs@.len(),
                    pred == (|a: ParsedIp| family_matches(a.family, rt)),
                    view == (|a: ParsedIp| target_value_view(
                        *target,
                        a.text@,
                        true,
                        None,
                        Some(cluster_id@),
                        Some("expanded from upstream peer "@ + p.url@),
                    )),
                    matched == addrs@.take(i as int).filter(pred).len(),
                    resolved_views(answers@) == start + addrs@.take(i as int).filter(pred).map_values(view),
                    resolved_views(discarded@) == resolved_views(old(discarded)@),
                decreases addrs@.len() - i,
            {
                let a = &addrs[i];
                proof {
                    addrs@.take(i as int).lemma_filter_push(addrs@[i as int], pred);
                    assert(addrs@.take(i + 1) =~= addrs@.take(i as int).push(addrs@[i as int]));
                }
                if ip_matches_record_type(a.family, rt) {
                    let v = resolved_target(
                        target,
                        string_of(a.text.as_str()),
                        true,
                        None,
                        Some(string_of(cluster_id)),
                        Some(cat2("expanded from upstream peer ", p.url.as_str())),
                    );
                    let ghost before = resolved_views(answers@);
                    answers.push(v);
                    proof {
                        assert(resolved_views(answers@) =~= before.push(resolved_view(v)));
                        assert(addrs@.take(i as int).filter(pred).push(addrs@[i as int]).map_values(view)
                            =~= addrs@.take(i as int).filter(pred).map_values(view).push(view(addrs@[i as int])));
                    }
                    matched = matched + 1;
                }
                i = i + 1;
            }
            assert(addrs@.take(addrs@.len() as int) =~= addrs@);
            if matched == 0 {
                let v = discarded_target(
                    target,
                    Some(string_of(p.authority.as_str())),
                    "upstream peer did not resolve to the requested record family",
                );
                push_placed(false, v, answers, discarded);
                assert(resolved_views(answers@) =~= resolved_views(old(answers)@));
            }
        },
    }
}

/// Adds what one answer target contributes to a simulated query.
pub fn expand_target(
    target: &DnsAnswerTarget,
    facts: &TargetFacts,
    rt: DnsRecordType,
    cluster_id: &str,
    source: &ParsedIp,
    answers: &mut Vec<DnsResolvedValue>,
    discarded: &mut Vec<DnsResolvedValue>,
)
    ensures
        resolved_views(final(answers)@) == resolved_views(old(answers)@) + target_outcome(*target, *facts, rt, cluster_id@, *source).0,
        resolved_views(final(discarded)@) == resolved_views(old(discarded)@) + target_outcome(*target, *facts, rt, cluster_id@, *source).1,
{
    if !target.enabled {
        push_placed(false, discarded_target(target, None, "target is disabled"), answers, discarded);
        return;
    }
    if target.source_cidrs.len() > 0 && !source_matches(&target.source_cidrs, source) {
        push_placed(false, discarded_target(target, None, "source_ip did not match source_cidrs"), answers, discarded);
        return;
    }
    match target.kind {
        DnsTargetKind::StaticIp => match &facts.static_ip {
            IpParse::Address { family, text } => {
                if ip_matches_record_type(*family, rt) {
                    let v = resolved_target(target, string_of(text.as_str()), true, None, None, Some(string_of("static target")));
                    push_placed(true, v, answers, discarded);
                } else {
                    let v = discarded_target(target, Some(string_of(text.as_str())), "static IP family does not match record type");
                    push_placed(false, v, answers, discarded);
                }
            },
            IpParse::Invalid { error } => {
                let reason = cat2("invalid static IP: ", error.as_str());
                let v = discarded_target(target, None, reason.as_str());
                push_placed(false, v, answers, discarded);
            },
        },
        DnsTargetKind::Node => match &facts.node {
            None => push_placed(false, discarded_target(target, None, "node was not found"), answers, discarded),
            Some(n) => expand_node(target, n, rt, false, answers, discarded),
        },
        DnsTargetKind::Cluster => {
            let ghost pred = |n: NodeFacts| n.node.cluster_id@ == target.value@;
            let ghost f = |n: NodeFacts| cluster_node_outcome(*target, n, rt);
            let ghost a0 = resolved_views(answers@);
            let ghost d0 = resolved_views(discarded@);
            let mut members: usize = 0;
            let mut i: usize = 0;
            while i < facts.nodes.len()
                invariant
                    i <= facts.nodes@.len(),
                    pred == (|n: NodeFacts| n.node.cluster_id@ == target.value@),
                    f == (|n: NodeFacts| cluster_node_outcome(*target, n, rt)),
                    members == facts.nodes@.take(i as int).filter(pred).len(),
                    resolved_views(answers@) == a0 + join_outcomes(facts.nodes@.take(i as int).filter(pred).map_values(f)).0,
                    resolved_views(discarded@) == d0 + join_outcomes(facts.nodes@.take(i as int).filter(pred).map_values(f)).1,
                decreases facts.nodes@.len() - i,
            {
                let n = &facts.nodes[i];
                proof {
                    facts.nodes@.take(i as int).lemma_filter_push(facts.nodes@[i as int], pred);
                    assert(facts.nodes@.take(i + 1) =~= facts.nodes@.take(i as int).push(facts.nodes@[i as int]));
                }
                if str_eq(n.node.cluster_id.as_str(), target.value.as_str()) {
                    let ghost ms = facts.nodes@.take(i as int).filter(pred);
                    expand_node(target, n, rt, true, answers, discarded);
                    proof {
                        assert(ms.push(*n).map_values(f) =~= ms.map_values(f).push(f(*n)));
                        lemma_join_push(ms.map_values(f), f(*n));
                        assert(resolved_views(answers@) =~= a0 + join_outcomes(ms.push(*n).map_values(f)).0);
                        assert(resolved_views(discarded@) =~= d0 + join_outcomes(ms.push(*n).map_values(f)).1);
                    }
                    members = members + 1;
                }
                i = i + 1;
            }
            assert(facts.nodes@.take(facts.nodes@.len() as int) =~= facts.nodes@);
            if members == 0 {
                proof {
                    let e = facts.nodes@.filter(pred).map_values(f);
                    assert(e =~= Seq::empty());
                    assert(resolved_views(answers@) =~= a0);
                    assert(resolved_views(discarded@) =~= d0);
                }
                push_placed(false, discarded_target(target, None, "cluster did not resolve to any nodes"), answers, discarded);
            }
        },
        DnsTargetKind::Upstream => match &facts.upstream {
            UpstreamFacts::NoRevision => push_placed(
                false,
                discarded_target(target, None, "cluster has no config revision to expand upstream target"),
                answers,
                discarded,
            ),
            UpstreamFacts::CompileFailed(e) => {
                let reason = cat2("failed to compile latest config revision for upstream expansion: ", e.as_str());
                push_placed(false, discarded_target(target, None, reason.as_str()), answers, discarded);
            },
            UpstreamFacts::UnknownUpstream => push_placed(
                false,
                discarded_target(target, None, "upstream target name was not found in latest config revision"),
                answers,
                discarded,
            ),
            UpstreamFacts::Peers(peers) => {
                let ghost f = |p: PeerFacts| peer_outcome(*target, p, rt, cluster_id@);
                let ghost a0 = resolved_views(answers@);
                let ghost d0 = resolved_views(discarded@);
                let mut i: usize = 0;
                while i < peers.len()
                    invariant
                        i <= peers@.len(),
                        f == (|p: PeerFacts| peer_outcome(*target, p, rt, cluster_id@)),
                        resolved_views(answers@) == a0 + join_outcomes(peers@.take(i as int).map_values(f)).0,
                        resolved_views(discarded@) == d0 + join_outcomes(peers@.take(i as int).map_values(f)).1,
                    decreases peers@.len() - i,
                {
                    expand_peer(target, &peers[i], rt, cluster_id, answers, discarded);
                    proof {
                        assert(peers@.take(i + 1).map_values(f) =~= peers@.take(i as int).map_values(f).push(f(peers@[i as int])));
                        lemma_join_push(peers@.take(i as int).map_values(f), f(peers@[i as int]));
                    }
                    i = i + 1;
                }
                assert(peers@.take(peers@.len() as int) =~= peers@);
            },
        },
    }
}

/// A candidate that a record's own values produced.
pub open spec fn value_view(value: Seq<char>, healthy: bool, cluster_id: Option<Seq<char>>, reason: Seq<char>) -> ResolvedView {
    ResolvedView {
        value,
        target_kind: None,
        target_id: None,
        target_value: None,
        weight: None,
        source_cidrs: Seq::empty(),
        node_id: None,
        cluster_id,
        healthy,
        reason: Some(reason),
    }
}

fn record_value(value: String, healthy: bool, cluster_id: Option<String>, reason: &str) -> (r: DnsResolvedValue)
    ensures
        resolved_view(r) == value_view(value@, healthy, opt_seq(cluster_id), reason@),
{
    let r = DnsResolvedValue {
        value,
        target_kind: None,
        target_id: None,
        target_value: None,
        weight: None,
        source_cidrs: Vec::new(),
        node_id: None,
        cluster_id,
        healthy,
        reason: Some(string_of(reason)),
    };
    assert(str_views(r.source_cidrs@) =~= Seq::<Seq<char>>::empty());
    r
}

/// What one inline address value of an A or AAAA record contributes.
pub open spec fn value_outcome(rec: DnsRecordSet, value: Seq<char>, ip: IpParse) -> (Seq<ResolvedView>, Seq<ResolvedView>) {
    match ip {
        IpParse::Address { family, text } => if family_matches(family, rec.record_type) {
            place(true, value_view(text@, true, None, "static inline record value"@))
        } else {
            place(false, value_view(text@, false, None, "record type does not match IP family"@))
        },
        IpParse::Invalid { error } => place(false, value_view(value, false, None, "invalid IP value: "@ + error@)),
    }
}

/// What a simulation knows of the matched record: the inline values read as
/// addresses, and the facts of each target.
#[derive(Clone, Debug)]
pub struct SimulationFacts {
    pub values: Vec<IpParse>,
    pub targets: Vec<TargetFacts>,
}

pub open spec fn facts_fit(rec: DnsRecordSet, facts: SimulationFacts) -> bool {
    facts.values@.len() == rec.values@.len() && facts.targets@.len() == rec.targets@.len()
}

/// What a matched record answers: CNAME and TXT values literally; for A and
/// AAAA, the inline values, then each target.
pub open spec fn record_outcome(
    rec: DnsRecordSet,
    facts: SimulationFacts,
    cluster_id: Seq<char>,
    source: ParsedIp,
) -> (Seq<ResolvedView>, Seq<ResolvedView>) {
    match rec.record_type {
        DnsRecordType::Cname | DnsRecordType::Txt => (
            rec.values@.map_values(|v: String| value_view(v@, true, Some(cluster_id), "literal record value"@)),
            Seq::empty(),
        ),
        _ => {
            let vs = join_outcomes(Seq::new(rec.values@.len(), |i: int| value_outcome(rec, rec.values@[i]@, facts.values@[i])));
            let ts = join_outcomes(
                Seq::new(rec.targets@.len(), |j: int| target_outcome(rec.targets@[j], facts.targets@[j], rec.record_type, cluster_id, source)),
            );
            (vs.0 + ts.0, vs.1 + ts.1)
        },
    }
}

fn evaluate_record(rec: &DnsRecordSet, facts: &SimulationFacts, cluster_id: &str, source: &ParsedIp) -> (r: (
    Vec<DnsResolvedValue>,
    Vec<DnsResolvedValue>,
))
    requires
        facts_fit(*rec, *facts),
    ensures
        resolved_views(r.0@) == record_outcome(*rec, *facts, cluster_id@, *source).0,
        resolved_views(r.1@) == record_outcome(*rec, *facts, cluster_id@, *source).1,
{
    let mut answers: Vec<DnsResolvedValue> = Vec::new();
    let mut discarded: Vec<DnsResolvedValue> = Vec::new();
    match rec.record_type {
        DnsRecordType::Cname | DnsRecordType::Txt => {
            let ghost f = |v: String| value_view(v@, true, Some(cluster_id@), "literal record value"@);
            let mut i: usize = 0;
            while i < rec.values.len()
                invariant
                    i <= rec.values@.len(),
                    f == (|v: String| value_view(v@, true, Some(cluster_id@), "literal record value"@)),
                    resolved_views(answers@) == rec.values@.take(i as int).map_values(f),
                    discarded@.len() == 0,
                decreases rec.values@.len() - i,
            {
                let ghost before = resolved_views(answers@);
                let v = record_value(string_of(rec.values[i].as_str()), true, Some(string_of(cluster_id)), "literal record value");
                answers.push(v);
                proof {
                    assert(resolved_views(answers@) =~= before.push(resolved_view(v)));
                    assert(rec.values@.take(i + 1).map_values(f) =~= rec.values@.take(i as int).map_values(f).push(
                        f(rec.values@[i as int]),
                    ));
                }
                i = i + 1;
            }
            assert(rec.values@.take(rec.values@.len() as int) =~= rec.values@);
            assert(resolved_views(discarded@) =~= Seq::<ResolvedView>::empty());
        },
        _ => {
            let ghost fv = |i: int| value_outcome(*rec, rec.values@[i]@, facts.values@[i]);
            let mut i: usize = 0;
            while i < rec.values.len()
                invariant
                    i <= rec.values@.len(),
                    facts_fit(*rec, *facts),
                    fv == (|i: int| value_outcome(*rec, rec.values@[i]@, facts.values@[i])),
                    resolved_views(answers@) == join_outcomes(Seq::new(i as nat, fv)).0,
                    resolved_views(discarded@) == join_outcomes(Seq::new(i as nat, fv)).1,
                decreases rec.values@.len() - i,
            {
                match &facts.values[i] {
                    IpParse::Address { family, text } => {
                        if ip_matches_record_type(*family, rec.record_type) {
                            let v = record_value(string_of(text.as_str()), true, None, "static inline record value");
                            push_placed(true, v, &mut answers, &mut discarded);
                        } else {
                            let v = record_value(string_of(text.as_str()), false, None, "record type does not match IP family");
                            push_placed(false, v, &mut answers, &mut discarded);
                        }
                    },
                    IpParse::Invalid { error } => {
                        let reason = cat2("invalid IP value: ", error.as_str());
                        let v = record_value(string_of(rec.values[i].as_str()), false, None, reason.as_str());
                        push_placed(false, v, &mut answers, &mut discarded);
                    },
                }
                proof {
                    assert(Seq::new((i + 1) as nat, fv) =~= Seq::new(i as nat, fv).push(fv(i as int)));
                    lemma_join_push(Seq::new(i as nat, fv), fv(i as int));
                }
                i = i + 1;
            }
            let ghost va = resolved_views(answers@);
            let ghost vd = resolved_views(discarded@);
            let ghost ft = |j: int| target_outcome(rec.targets@[j], facts.targets@[j], rec.record_type, cluster_id@, *source);
            let mut j: usize = 0;
            while j < rec.targets.len()
                invariant
                    j <= rec.targets@.len(),
                    facts_fit(*rec, *facts),
                    ft == (|j: int| target_outcome(rec.targets@[j], facts.targets@[j], rec.record_type, cluster_id@, *source)),
                    resolved_views(answers@) == va + join_outcomes(Seq::new(j as nat, ft)).0,
                    resolved_views(discarded@) == vd + join_outcomes(Seq::new(j as nat, ft)).1,
                decreases rec.targets@.len() - j,
            {
                expand_target(&rec.targets[j], &facts.targets[j], rec.record_type, cluster_id, source, &mut answers, &mut discarded);
                proof {
                    assert(Seq::new((j + 1) as nat, ft) =~= Seq::new(j as nat, ft).push(ft(j as int)));
                    lemma_join_push(Seq::new(j as nat, ft), ft(j as int));
                }
                j = j + 1;
            }
        },
    }
    (answers, discarded)
}

/// Simulates a query against a plan: the zone and record that answer it, and
/// what the record answers given what is known of its values and targets.
pub fn evaluate_plan(
    cluster_id: &str,
    plan: &DnsPlan,
    qname: &str,
    record_type: DnsRecordType,
    source_ip: &ParsedIp,
    facts: &SimulationFacts,
) -> (r: DnsSimulationResponse)
    requires
        match spec_query_zone(*plan, qname@) {
            Some(z) => match spec_query_record(*plan, qname@, record_type) {
                Some(i) => facts_fit(plan.zones@[z].records@[i], *facts),
                None => true,
            },
            None => true,
        },
    ensures
        r.cluster_id@ == cluster_id@,
        r.qname@ == spec_normalize_name(qname@),
        r.record_type == record_type,
        match spec_query_zone(*plan, qname@) {
            None => r.matched_zone is None && r.matched_record_id is None && r.ttl_secs is None && r.answers@.len() == 0
                && r.discarded@.len() == 0 && str_views(r.issues@) == seq!["no matching zone"@],
            Some(z) => opt_seq(r.matched_zone) == Some(plan.zones@[z].zone_name@) && match spec_query_record(
                *plan,
                qname@,
                record_type,
            ) {
                None => r.matched_record_id is None && r.ttl_secs is None && r.answers@.len() == 0 && r.discarded@.len()
                    == 0 && str_views(r.issues@) == seq!["no matching record"@],
                Some(i) => opt_seq(r.matched_record_id) == Some(plan.zones@[z].records@[i].record_id@) && r.ttl_secs
                    == Some(plan.zones@[z].records@[i].ttl_secs) && resolved_views(r.answers@) == record_outcome(
                    plan.zones@[z].records@[i],
                    *facts,
                    cluster_id@,
                    *source_ip,
                ).0 && resolved_views(r.discarded@) == record_outcome(plan.zones@[z].records@[i], *facts, cluster_id@, *source_ip).1
                    && r.issues@.len() == 0,
            },
        },
{
    let m = match_query(plan, qname, record_type);
    let z = match m.zone {
        None => {
            let issues = vec![string_of("no matching zone")];
            assert(str_views(issues@) =~= seq!["no matching zone"@]);
            return DnsSimulationResponse {
                cluster_id: string_of(cluster_id),
                qname: m.qname,
                record_type,
                matched_zone: None,
                matched_record_id: None,
                ttl_secs: None,
                answers: Vec::new(),
                discarded: Vec::new(),
                issues,
            };
        },
        Some(z) => z,
    };
    proof {
        lemma_best_zone_range(plan.zones@, spec_normalize_name(qname@), plan.zones@.len() as int);
    }
    let zone = &plan.zones[z];
    let i = match m.record {
        None => {
            let issues = vec![string_of("no matching record")];
            assert(str_views(issues@) =~= seq!["no matching record"@]);
            return DnsSimulationResponse {
                cluster_id: string_of(cluster_id),
                qname: m.qname,
                record_type,
                matched_zone: Some(string_of(zone.zone_name.as_str())),
                matched_record_id: None,
                ttl_secs: None,
                answers: Vec::new(),
                discarded: Vec::new(),
                issues,
            };
        },
        Some(i) => i,
    };
    proof {
        assert(spec_query_record(*plan, qname@, record_type) == Some(i as int));
        lemma_first_answering_range(*zone, spec_normalize_name(qname@), record_type, 0);
    }
    let rec = &zone.records[i];
    let (answers, discarded) = evaluate_record(rec, facts, cluster_id, source_ip);
    DnsSimulationResponse {
        cluster_id: string_of(cluster_id),
        qname: m.qname,
        record_type,
        matched_zone: Some(string_of(zone.zone_name.as_str())),
        matched_record_id: Some(string_of(rec.record_id.as_str())),
        ttl_secs: Some(rec.ttl_secs),
        answers,
        discarded,
        issues: Vec::new(),
    }
}

proof fn lemma_first_answering_range(zone: DnsZoneSpec, qname: Seq<char>, record_type: DnsRecordType, k: int)
    ensures
        match first_answering(zone, qname, record_type, k) {
            Some(i) => 0 <= i < zone.records@.len() && record_answers(zone, zone.records@[i], qname, record_type),
            None => true,
        },
    decreases zone.records@.len() - k,
{
    if 0 <= k < zone.records@.len() && !record_answers(zone, zone.records@[k], qname, record_type) {
        lemma_first_answering_range(zone, qname, record_type, k + 1);
    }
}

// ---------------------------------------------------------------- laws

/// The message for an enabled cluster target that names another cluster.
pub open spec fn foreign_cluster_message(t: DnsAnswerTarget, record: Seq<char>, zone: Seq<char>, plan_cluster: Seq<char>) -> Seq<char> {
    "cluster target `"@ + t.target_id@ + "` in record `"@ + record + "` zone `"@ + zone
        + "` must currently reference plan.cluster_id `"@ + plan_cluster + "`"@
}

/// The first rules of answering from a target: a disabled target, or one
/// whose source ranges do not hold the query's source, is discarded with its
/// reason and adds no answer; an enabled static target whose address fits the
/// record is answered, healthy, with that address.
pub proof fn lemma_target_gatekeeping(
    t: DnsAnswerTarget,
    f: TargetFacts,
    rt: DnsRecordType,
    cluster_id: Seq<char>,
    source: ParsedIp,
)
    ensures
        !t.enabled ==> target_outcome(t, f, rt, cluster_id, source).0.len() == 0 && target_outcome(
            t,
            f,
            rt,
            cluster_id,
            source,
        ).1.len() == 1 && target_outcome(t, f, rt, cluster_id, source).1[0].reason == Some("target is disabled"@),
        t.enabled && t.source_cidrs@.len() > 0 && !spec_source_matches(str_views(t.source_cidrs@), source)
            ==> target_outcome(t, f, rt, cluster_id, source).0.len() == 0 && target_outcome(
            t,
            f,
            rt,
            cluster_id,
            source,
        ).1.len() == 1 && target_outcome(t, f, rt, cluster_id, source).1[0].reason == Some(
            "source_ip did not match source_cidrs"@,
        ),
        ({
            let out = target_outcome(t, f, rt, cluster_id, source);
            t.enabled && (t.source_cidrs@.len() == 0 || spec_source_matches(str_views(t.source_cidrs@), source))
                && t.kind == DnsTargetKind::StaticIp && f.static_ip is Address && family_matches(
                f.static_ip->family,
                rt,
            ) ==> out.0.len() == 1 && out.1.len() == 0 && out.0[0].healthy && out.0[0].value == f.static_ip->text@
        }),
{
}

/// What the kind of an enabled target demands of its value: a static target
/// a valid address, a node target a known node, an upstream target a name.
pub proof fn lemma_target_kind_checks(
    plan_cluster: Seq<char>,
    record: Seq<char>,
    zone: Seq<char>,
    t: DnsAnswerTarget,
    ip: IpParse,
    node_ids: Seq<Seq<char>>,
)
    ensures
        t.kind == DnsTargetKind::StaticIp ==> (target_kind_issue(plan_cluster, record, zone, t, ip, node_ids).len()
            > 0 <==> ip is Invalid),
        t.kind == DnsTargetKind::Node ==> (target_kind_issue(plan_cluster, record, zone, t, ip, node_ids).len() > 0
            <==> !node_ids.contains(t.value@)),
        t.kind == DnsTargetKind::Upstream ==> (target_kind_issue(plan_cluster, record, zone, t, ip, node_ids).len()
            > 0 <==> is_blank_seq(t.value@)),
        t.kind == DnsTargetKind::Cluster ==> (target_kind_issue(plan_cluster, record, zone, t, ip, node_ids).len()
            > 0 <==> t.value@ != plan_cluster),
        !t.enabled ==> target_issues(plan_cluster, record, zone, t, ip, node_ids).len() <= 1,
{
}

/// The record that answers a query in its zone is the first one, from `k`
/// on, whose normalised full name is the query and whose type is the asked
/// type; there is none exactly when no record from `k` on has both.
pub proof fn lemma_answering_record_is_first_match(zone: DnsZoneSpec, qname: Seq<char>, record_type: DnsRecordType, k: int)
    requires
        0 <= k,
    ensures
        match first_answering(zone, qname, record_type, k) {
            Some(i) => k <= i < zone.records@.len() && spec_normalize_name(
                spec_record_fqdn(zone.zone_name@, zone.records@[i].name@),
            ) == qname && zone.records@[i].record_type == record_type && forall|j: int|
                k <= j < i ==> !(spec_normalize_name(spec_record_fqdn(zone.zone_name@, #[trigger] zone.records@[j].name@))
                    == qname && zone.records@[j].record_type == record_type),
            None => forall|j: int|
                k <= j < zone.records@.len() ==> !(spec_normalize_name(
                    spec_record_fqdn(zone.zone_name@, #[trigger] zone.records@[j].name@),
                ) == qname && zone.records@[j].record_type == record_type),
        },
    decreases zone.records@.len() - k,
{
    if k < zone.records@.len() && !record_answers(zone, zone.records@[k], qname, record_type) {
        lemma_answering_record_is_first_match(zone, qname, record_type, k + 1);
    }
}

/// An inline value of an A or AAAA record is answered, healthy, exactly when
/// it is an address of the record's family (V4 for A, V6 for AAAA); any other
/// value is discarded as unhealthy.
pub proof fn lemma_inline_value_answers(rec: DnsRecordSet, value: Seq<char>, ip: IpParse)
    ensures
        ({
            let out = value_outcome(rec, value, ip);
            let fits = ip matches IpParse::Address { family, .. } && ((family == IpFamily::V4 && rec.record_type
                == DnsRecordType::A) || (family == IpFamily::V6 && rec.record_type == DnsRecordType::Aaaa));
            &&& fits ==> out.0.len() == 1 && out.1.len() == 0 && out.0[0].healthy && out.0[0].value == ip->text@
            &&& !fits ==> out.0.len() == 0 && out.1.len() == 1 && !out.1[0].healthy
        }),
{
}

/// A CNAME or TXT record answers each of its values literally, in order, and
/// discards nothing.
pub proof fn lemma_literal_records_answer_values(rec: DnsRecordSet, facts: SimulationFacts, cluster_id: Seq<char>, source: ParsedIp)
    requires
        rec.record_type == DnsRecordType::Cname || rec.record_type == DnsRecordType::Txt,
    ensures
        record_outcome(rec, facts, cluster_id, source).0.len() == rec.values@.len(),
        record_outcome(rec, facts, cluster_id, source).1.len() == 0,
        forall|i: int|
            0 <= i < rec.values@.len() ==> (#[trigger] record_outcome(rec, facts, cluster_id, source).0[i]).value
                == rec.values@[i]@ && record_outcome(rec, facts, cluster_id, source).0[i].healthy,
{
}

proof fn lemma_contains_concat(a: Seq<Seq<char>>, b: Seq<Seq<char>>, m: Seq<char>)
    ensures
        a.contains(m) ==> (a + b).contains(m),
        b.contains(m) ==> (a + b).contains(m),
{
    if a.contains(m) {
        let k = choose|k: int| 0 <= k < a.len() && a[k] == m;
        assert((a + b)[k] == m);
    }
    if b.contains(m) {
        let k = choose|k: int| 0 <= k < b.len() && b[k] == m;
        assert((a + b)[a.len() + k] == m);
    }
}

proof fn lemma_flatten_contains(s: Seq<Seq<Seq<char>>>, k: int, m: Seq<char>)
    requires
        0 <= k < s.len(),
        s[k].contains(m),
    ensures
        flatten(s).contains(m),
    decreases s.len(),
{
    lemma_contains_concat(flatten(s.drop_last()), s.last(), m);
    if k < s.len() - 1 {
        assert(s.drop_last()[k] == s[k]);
        lemma_flatten_contains(s.drop_last(), k, m);
    }
}

/// An enabled cluster target that names another cluster than the plan's is
/// reported; one that names the plan's cluster, with an id, a weight and
/// valid source ranges, raises no issue.
pub proof fn lemma_cluster_target_names_plan_cluster(
    plan_cluster: Seq<char>,
    record: Seq<char>,
    zone: Seq<char>,
    t: DnsAnswerTarget,
    ip: IpParse,
    node_ids: Seq<Seq<char>>,
)
    ensures
        t.enabled && t.kind == DnsTargetKind::Cluster && t.value@ != plan_cluster ==> target_issues(
            plan_cluster,
            record,
            zone,
            t,
            ip,
            node_ids,
        ).contains(foreign_cluster_message(t, record, zone, plan_cluster)),
        t.enabled && t.kind == DnsTargetKind::Cluster && t.value@ == plan_cluster && !is_blank_seq(t.target_id@)
            && t.weight > 0 && (forall|k: int| 0 <= k < t.source_cidrs@.len() ==> parses_as_ip_net(
            #[trigger] t.source_cidrs@[k]@,
        )) ==> target_issues(plan_cluster, record, zone, t, ip, node_ids).len() == 0,
{
    let m = foreign_cluster_message(t, record, zone, plan_cluster);
    let cidrs = Seq::new(t.source_cidrs@.len(), |k: int| cidr_issue(t, record, zone, t.source_cidrs@[k]@));
    if t.enabled && t.kind == DnsTargetKind::Cluster {
        let kind = target_kind_issue(plan_cluster, record, zone, t, ip, node_ids);
        if t.value@ != plan_cluster {
            reveal_strlit("cluster ");
            reveal_strlit("target `");
            reveal_strlit("cluster target `");
            assert("cluster "@ + "target `"@ =~= "cluster target `"@);
            assert(kind[0] =~= m);
            assert(kind.contains(m));
        } else {
            assert(kind.len() == 0);
        }
        let id_issue = if is_blank_seq(t.target_id@) {
            seq!["record `"@ + record + "` in zone `"@ + zone + "` contains target with empty target_id"@]
        } else {
            Seq::empty()
        };
        let weight_issue = if t.weight == 0 {
            seq![target_message(t, record, zone, "` weight must be greater than 0"@)]
        } else {
            Seq::empty()
        };
        lemma_contains_concat(id_issue + weight_issue + flatten(cidrs), kind, m);
        if (forall|k: int| 0 <= k < t.source_cidrs@.len() ==> parses_as_ip_net(#[trigger] t.source_cidrs@[k]@)) {
            lemma_flatten_empty(cidrs);
        }
    }
}

proof fn lemma_flatten_empty(s: Seq<Seq<Seq<char>>>)
    requires
        forall|k: int| 0 <= k < s.len() ==> (#[trigger] s[k]).len() == 0,
    ensures
        flatten(s).len() == 0,
    decreases s.len(),
{
    if s.len() > 0 {
        assert forall|k: int| 0 <= k < s.drop_last().len() implies (#[trigger] s.drop_last()[k]).len() == 0 by {
            assert(s.drop_last()[k] == s[k]);
        }
        lemma_flatten_empty(s.drop_last());
    }
}

proof fn lemma_record_reports_target(
    plan_cluster: Seq<char>,
    zone: Seq<char>,
    rec: DnsRecordSet,
    addrs: RecordAddresses,
    node_ids: Seq<Seq<char>>,
    j: int,
    m: Seq<char>,
)
    requires
        rec.record_type == DnsRecordType::A || rec.record_type == DnsRecordType::Aaaa,
        0 <= j < rec.targets@.len(),
        target_issues(plan_cluster, rec.name@, zone, rec.targets@[j], addrs.targets@[j], node_ids).contains(m),
    ensures
        record_issues(plan_cluster, zone, rec, addrs, node_ids).contains(m),
{
    let ts = Seq::new(
        rec.targets@.len(),
        |j: int| target_issues(plan_cluster, rec.name@, zone, rec.targets@[j], addrs.targets@[j], node_ids),
    );
    lemma_flatten_contains(ts, j, m);
    let vs = Seq::new(rec.values@.len(), |i: int| value_issue(rec, zone, rec.values@[i]@, addrs.values@[i]));
    let head = if rec.targets@.len() == 0 && rec.values@.len() == 0 {
        seq!["record `"@ + rec.name@ + "` in zone `"@ + zone + "` requires targets or values for `"@
            + spec_record_type_str(rec.record_type) + "`"@]
    } else {
        Seq::empty()
    };
    lemma_contains_concat(head + flatten(vs), flatten(ts), m);
    let kind = head + flatten(vs) + flatten(ts);
    let id_issue = if is_blank_seq(rec.record_id@) {
        seq!["zone `"@ + zone + "` contains a record with empty record_id"@]
    } else {
        Seq::empty()
    };
    let ttl_issue = if rec.ttl_secs == 0 {
        seq!["record `"@ + rec.name@ + "` in zone `"@ + zone + "` ttl_secs must be greater than 0"@]
    } else {
        Seq::empty()
    };
    lemma_contains_concat(id_issue + ttl_issue, kind, m);
}

proof fn lemma_scan_records_keeps(
    plan_cluster: Seq<char>,
    zone: DnsZoneSpec,
    addrs: Seq<RecordAddresses>,
    node_ids: Seq<Seq<char>>,
    n: nat,
    i: int,
    m: Seq<char>,
)
    requires
        0 <= i < n <= zone.records@.len(),
        record_issues(plan_cluster, zone.zone_name@, zone.records@[i], addrs[i], node_ids).contains(m),
    ensures
        scan_records(plan_cluster, zone, addrs, node_ids, n).0.contains(m),
    decreases n,
{
    let prev = scan_records(plan_cluster, zone, addrs, node_ids, (n - 1) as nat);
    let rec = zone.records@[n - 1];
    let ri = record_issues(plan_cluster, zone.zone_name@, rec, addrs[n - 1], node_ids);
    let fqdn = spec_record_fqdn(zone.zone_name@, rec.name@);
    let dup = prev.1.contains(record_key(zone, rec));
    let tail = if dup {
        seq!["duplicate record `"@ + fqdn + "` type `"@ + spec_record_type_str(rec.record_type) + "` in zone `"@
            + zone.zone_name@ + "`"@]
    } else {
        Seq::empty()
    };
    if i == n - 1 {
        lemma_contains_concat(prev.0, ri, m);
    } else {
        lemma_scan_records_keeps(plan_cluster, zone, addrs, node_ids, (n - 1) as nat, i, m);
        lemma_contains_concat(prev.0, ri, m);
    }
    lemma_contains_concat(prev.0 + ri, tail, m);
}

proof fn lemma_scan_zones_keeps(
    plan: DnsPlan,
    addrs: Seq<Vec<RecordAddresses>>,
    node_ids: Seq<Seq<char>>,
    n: nat,
    z: int,
    m: Seq<char>,
)
    requires
        0 <= z < n <= plan.zones@.len(),
        !is_blank_seq(plan.zones@[z].zone_name@),
        scan_records(plan.cluster_id@, plan.zones@[z], addrs[z]@, node_ids, plan.zones@[z].records@.len()).0.contains(m),
    ensures
        scan_zones(plan, addrs, node_ids, n).0.contains(m),
    decreases n,
{
    let prev = scan_zones(plan, addrs, node_ids, (n - 1) as nat);
    let zn = plan.zones@[n - 1];
    let id_issue = if is_blank_seq(zn.zone_id@) {
        seq!["zone_id should not be empty"@]
    } else {
        Seq::empty()
    };
    if z < n - 1 {
        lemma_scan_zones_keeps(plan, addrs, node_ids, (n - 1) as nat, z, m);
    }
    if is_blank_seq(zn.zone_name@) {
        lemma_contains_concat(prev.0, id_issue, m);
        lemma_contains_concat(prev.0 + id_issue, seq!["zone `"@ + zn.zone_id@ + "` zone_name should not be empty"@], m);
    } else {
        let name = spec_normalize_name(zn.zone_name@);
        let dup = prev.1.contains(name);
        let recs = scan_records(plan.cluster_id@, zn, addrs[n - 1]@, node_ids, zn.records@.len());
        let dup_issue = if dup {
            seq!["duplicate zone_name `"@ + name + "`"@]
        } else {
            Seq::empty()
        };
        lemma_contains_concat(prev.0, id_issue, m);
        lemma_contains_concat(prev.0 + id_issue, dup_issue, m);
        lemma_contains_concat(prev.0 + id_issue + dup_issue, recs.0, m);
        lemma_contains_concat(prev.0 + id_issue + dup_issue + recs.0, mix_issues(recs.2, recs.3, zn.zone_name@), m);
    }
}

/// A plan is reported when an enabled cluster target of one of its A or AAAA
/// records (in a named zone) names another cluster than the plan's: its
/// issues then hold the target's message, so they are never empty.
pub proof fn lemma_plan_reports_foreign_cluster_target(
    plan: DnsPlan,
    addrs: Seq<Vec<RecordAddresses>>,
    node_ids: Seq<Seq<char>>,
    z: int,
    r: int,
    j: int,
)
    requires
        plan_addresses_fit(plan, addrs),
        0 <= z < plan.zones@.len(),
        0 <= r < plan.zones@[z].records@.len(),
        0 <= j < plan.zones@[z].records@[r].targets@.len(),
        !is_blank_seq(plan.zones@[z].zone_name@),
        plan.zones@[z].records@[r].record_type == DnsRecordType::A || plan.zones@[z].records@[r].record_type
            == DnsRecordType::Aaaa,
        plan.zones@[z].records@[r].targets@[j].enabled,
        plan.zones@[z].records@[r].targets@[j].kind == DnsTargetKind::Cluster,
        plan.zones@[z].records@[r].targets@[j].value@ != plan.cluster_id@,
    ensures
        spec_plan_issues(plan, addrs, node_ids).contains(
            foreign_cluster_message(
                plan.zones@[z].records@[r].targets@[j],
                plan.zones@[z].records@[r].name@,
                plan.zones@[z].zone_name@,
                plan.cluster_id@,
            ),
        ),
        spec_plan_issues(plan, addrs, node_ids).len() > 0,
{
    let zone = plan.zones@[z];
    let rec = zone.records@[r];
    let t = rec.targets@[j];
    let a = addrs[z]@[r];
    let m = foreign_cluster_message(t, rec.name@, zone.zone_name@, plan.cluster_id@);
    assert(addrs[z]@.len() == zone.records@.len());
    assert(addresses_fit(rec, a));
    lemma_cluster_target_names_plan_cluster(plan.cluster_id@, rec.name@, zone.zone_name@, t, a.targets@[j], node_ids);
    lemma_record_reports_target(plan.cluster_id@, zone.zone_name@, rec, a, node_ids, j, m);
    lemma_scan_records_keeps(plan.cluster_id@, zone, addrs[z]@, node_ids, zone.records@.len(), r, m);
    lemma_scan_zones_keeps(plan, addrs, node_ids, plan.zones@.len(), z, m);
}

/// The zone a query is answered from is one the name lies in, and no zone the
/// name lies in has a longer name; when there is none, the name lies in no zone.
pub proof fn lemma_best_zone_is_longest_match(zones: Seq<DnsZoneSpec>, qname: Seq<char>, k: int)
    requires
        0 <= k <= zones.len(),
    ensures
        match best_zone_upto(zones, qname, k) {
            Some(p) => 0 <= p < k && in_zone(qname, spec_normalize_name(zones[p].zone_name@)) && forall|j: int|
                0 <= j < k && in_zone(qname, spec_normalize_name(zones[j].zone_name@)) ==> zone_name_len(
                    #[trigger] zones[j],
                ) <= zone_name_len(zones[p]),
            None => forall|j: int| 0 <= j < k ==> !in_zone(qname, spec_normalize_name(#[trigger] zones[j].zone_name@)),
        },
    decreases k,
{
    if k > 0 {
        lemma_best_zone_is_longest_match(zones, qname, k - 1);
    }
}

/// Healthy candidates only among the answers, unhealthy ones only among the discarded.
pub open spec fn sorted_by_health(o: (Seq<ResolvedView>, Seq<ResolvedView>)) -> bool {
    (forall|i: int| 0 <= i < o.0.len() ==> (#[trigger] o.0[i]).healthy) && (forall|i: int|
        0 <= i < o.1.len() ==> !(#[trigger] o.1[i]).healthy)
}

proof fn lemma_join_sorted(s: Seq<(Seq<ResolvedView>, Seq<ResolvedView>)>)
    requires
        forall|i: int| 0 <= i < s.len() ==> sorted_by_health(#[trigger] s[i]),
    ensures
        sorted_by_health(join_outcomes(s)),
    decreases s.len(),
{
    if s.len() > 0 {
        lemma_join_sorted(s.drop_last());
        let prev = join_outcomes(s.drop_last());
        let last = s.last();
        assert(sorted_by_health(last));
        assert forall|i: int| 0 <= i < prev.0.len() + last.0.len() implies (#[trigger] (prev.0 + last.0)[i]).healthy by {
            if i >= prev.0.len() {
                assert((prev.0 + last.0)[i] == last.0[i - prev.0.len()]);
            }
        }
        assert forall|i: int| 0 <= i < prev.1.len() + last.1.len() implies !(#[trigger] (prev.1 + last.1)[i]).healthy by {
            if i >= prev.1.len() {
                assert((prev.1 + last.1)[i] == last.1[i - prev.1.len()]);
            }
        }
    }
}

proof fn lemma_join_answers_from(s: Seq<(Seq<ResolvedView>, Seq<ResolvedView>)>, k: int)
    requires
        0 <= k < join_outcomes(s).0.len(),
    ensures
        exists|i: int, m: int| 0 <= i < s.len() && 0 <= m < s[i].0.len() && join_outcomes(s).0[k] == #[trigger] s[i].0[m],
    decreases s.len(),
{
    let prev = join_outcomes(s.drop_last());
    if k < prev.0.len() {
        lemma_join_answers_from(s.drop_last(), k);
        let (i, m) = choose|i: int, m: int|
            0 <= i < s.drop_last().len() && 0 <= m < s.drop_last()[i].0.len() && prev.0[k] == #[trigger] s.drop_last()[i].0[m];
        assert(s.drop_last()[i] == s[i]);
        assert((prev.0 + s.last().0)[k] == prev.0[k]);
    } else {
        let m = k - prev.0.len();
        assert((prev.0 + s.last().0)[k] == s.last().0[m]);
        assert(s[s.len() - 1].0[m] == s.last().0[m]);
    }
}

/// The answer carries the id of an online or draining node of the cluster.
pub open spec fn answered_by_serving_member(v: ResolvedView, cluster: Seq<char>, nodes: Seq<NodeFacts>) -> bool {
    exists|j: int|
        0 <= j < nodes.len() && #[trigger] nodes[j].node.cluster_id@ == cluster && (nodes[j].node.state
            == NodeLifecycleState::Online || nodes[j].node.state == NodeLifecycleState::Draining) && v.node_id == Some(
            nodes[j].node.node_id@,
        )
}

/// Only nodes that are online or draining are answered: a node target whose
/// node is in another state adds no answer, and when its address fits the
/// record it is discarded as unhealthy with the node's state as the reason;
/// every answer of a cluster target comes from an online or draining node of
/// that cluster.
pub proof fn lemma_only_serving_nodes_answer(
    t: DnsAnswerTarget,
    f: TargetFacts,
    rt: DnsRecordType,
    cluster_id: Seq<char>,
    source: ParsedIp,
)
    ensures
        ({
            let n = f.node->0;
            t.kind == DnsTargetKind::Node && f.node is Some && !(n.node.state == NodeLifecycleState::Online
                || n.node.state == NodeLifecycleState::Draining) ==> target_outcome(t, f, rt, cluster_id, source).0.len()
                == 0
        }),
        ({
            let n = f.node->0;
            let ip = n.ip->0;
            let d = target_outcome(t, f, rt, cluster_id, source).1;
            t.kind == DnsTargetKind::Node && t.enabled && (t.source_cidrs@.len() == 0 || spec_source_matches(
                str_views(t.source_cidrs@),
                source,
            )) && f.node is Some && n.ip is Some && family_matches(ip.family, rt) && !(n.node.state
                == NodeLifecycleState::Online || n.node.state == NodeLifecycleState::Draining) ==> d.len() == 1
                && !d[0].healthy && d[0].value == ip.text@ && d[0].node_id == Some(n.node.node_id@) && d[0].reason
                == Some("node "@ + n.node.node_id@ + " is "@ + spec_node_state_str(n.node.state))
        }),
        t.kind == DnsTargetKind::Cluster ==> forall|k: int|
            0 <= k < target_outcome(t, f, rt, cluster_id, source).0.len() ==> answered_by_serving_member(
                #[trigger] target_outcome(t, f, rt, cluster_id, source).0[k],
                t.value@,
                f.nodes@,
            ),
{
    if t.kind == DnsTargetKind::Cluster && t.enabled && !(t.source_cidrs@.len() > 0 && !spec_source_matches(
        str_views(t.source_cidrs@),
        source,
    )) {
        let members = cluster_members(t, f.nodes@);
        let pred = |n: NodeFacts| n.node.cluster_id@ == t.value@;
        f.nodes@.filter_lemma(pred);
        if members.len() > 0 {
            let outs = members.map_values(|n: NodeFacts| cluster_node_outcome(t, n, rt));
            let ans = join_outcomes(outs).0;
            assert(target_outcome(t, f, rt, cluster_id, source).0 == ans);
            assert forall|k: int| 0 <= k < ans.len() implies answered_by_serving_member(#[trigger] ans[k], t.value@, f.nodes@) by {
                lemma_join_answers_from(outs, k);
                let (i, m) = choose|i: int, m: int| 0 <= i < outs.len() && 0 <= m < outs[i].0.len() && ans[k] == #[trigger] outs[i].0[m];
                let n = members[i];
                assert(outs[i] == cluster_node_outcome(t, n, rt));
                assert(pred(n));
                assert(members[i] == n);
                assert(members.contains(n));
                f.nodes@.lemma_filter_contains_rev(pred, n);
                assert(f.nodes@.contains(n));
                let j = choose|j: int| 0 <= j < f.nodes@.len() && f.nodes@[j] == n;
                assert(f.nodes@[j].node.cluster_id@ == t.value@);
            }
        } else {
            assert(target_outcome(t, f, rt, cluster_id, source).0.len() == 0);
        }
    } else if t.kind == DnsTargetKind::Cluster {
        assert(target_outcome(t, f, rt, cluster_id, source).0.len() == 0);
    }
}

proof fn lemma_target_sorted(t: DnsAnswerTarget, f: TargetFacts, rt: DnsRecordType, cluster_id: Seq<char>, source: ParsedIp)
    ensures
        sorted_by_health(target_outcome(t, f, rt, cluster_id, source)),
{
    if t.enabled && !(t.source_cidrs@.len() > 0 && !spec_source_matches(str_views(t.source_cidrs@), source)) {
        match t.kind {
            DnsTargetKind::Cluster => {
                let members = cluster_members(t, f.nodes@);
                let outs = members.map_values(|n: NodeFacts| cluster_node_outcome(t, n, rt));
                assert forall|i: int| 0 <= i < outs.len() implies sorted_by_health(#[trigger] outs[i]) by {}
                lemma_join_sorted(outs);
            },
            DnsTargetKind::Upstream => {
                if let UpstreamFacts::Peers(peers) = f.upstream {
                    let outs = peers@.map_values(|p: PeerFacts| peer_outcome(t, p, rt, cluster_id));
                    assert forall|i: int| 0 <= i < outs.len() implies sorted_by_health(#[trigger] outs[i]) by {
                        let p = peers@[i];
                        if let Some(addrs) = p.addresses {
                            let matching = addrs@.filter(|a: ParsedIp| family_matches(a.family, rt));
                            let vs = matching.map_values(|a: ParsedIp| target_value_view(
                                t,
                                a.text@,
                                true,
                                None,
                                Some(cluster_id),
                                Some("expanded from upstream peer "@ + p.url@),
                            ));
                            assert forall|j: int| 0 <= j < vs.len() implies (#[trigger] vs[j]).healthy by {}
                        }
                    }
                    lemma_join_sorted(outs);
                }
            },
            _ => {},
        }
    }
}

/// Every answer of a simulated record is healthy and every discarded
/// candidate is not.
pub proof fn lemma_answers_are_healthy(rec: DnsRecordSet, facts: SimulationFacts, cluster_id: Seq<char>, source: ParsedIp)
    ensures
        sorted_by_health(record_outcome(rec, facts, cluster_id, source)),
{
    match rec.record_type {
        DnsRecordType::Cname | DnsRecordType::Txt => {},
        _ => {
            let vs = Seq::new(rec.values@.len(), |i: int| value_outcome(rec, rec.values@[i]@, facts.values@[i]));
            let ts = Seq::new(
                rec.targets@.len(),
                |j: int| target_outcome(rec.targets@[j], facts.targets@[j], rec.record_type, cluster_id, source),
            );
            assert forall|i: int| 0 <= i < vs.len() implies sorted_by_health(#[trigger] vs[i]) by {}
            assert forall|j: int| 0 <= j < ts.len() implies sorted_by_health(#[trigger] ts[j]) by {
                lemma_target_sorted(rec.targets@[j], facts.targets@[j], rec.record_type, cluster_id, source);
            }
            lemma_join_sorted(vs);
            lemma_join_sorted(ts);
            let a = join_outcomes(vs);
            let b = join_outcomes(ts);
            assert forall|i: int| 0 <= i < a.0.len() + b.0.len() implies (#[trigger] (a.0 + b.0)[i]).healthy by {
                if i >= a.0.len() {
                    assert((a.0 + b.0)[i] == b.0[i - a.0.len()]);
                }
            }
            assert forall|i: int| 0 <= i < a.1.len() + b.1.len() implies !(#[trigger] (a.1 + b.1)[i]).healthy by {
                if i >= a.1.len() {
                    assert((a.1 + b.1)[i] == b.1[i - a.1.len()]);
                }
            }
        },
    }
}

} // verus!
