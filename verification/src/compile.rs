//! The summary of a compiled proxy configuration that a revision carries:
//! its listeners and bindings, its counts, its upstream names in order and
//! its TLS profile, every count checked to fit in a `u32`.
use vstd::prelude::*;
use vstd::seq_lib::to_multiset_insert;

use crate::alerts::opt_view;
use crate::drafts::{listener_model, usize_to_u32};
use crate::error::{is_internal, ServiceResult};
use crate::rollout::{copy_strings, str_views};
use crate::text::{is_blank, is_blank_seq, lemma_seq_lt_strict, push_str, seq_lt, str_lt, string_of};

verus! {

// ---------------------------------------------------------------- names in order

/// `x` inserted into `s` after every name that does not sort after it.
pub open spec fn insert_name(s: Seq<Seq<char>>, x: Seq<char>) -> Seq<Seq<char>>
    decreases s.len(),
{
    if s.len() == 0 {
        seq![x]
    } else if seq_lt(x, s[0]) {
        seq![x] + s
    } else {
        seq![s[0]] + insert_name(s.drop_first(), x)
    }
}

/// The names in ascending code-point order (`Vec<String>::sort`).
pub open spec fn sort_names(s: Seq<Seq<char>>) -> Seq<Seq<char>>
    decreases s.len(),
{
    if s.len() == 0 {
        Seq::empty()
    } else {
        insert_name(sort_names(s.drop_last()), s.last())
    }
}

pub open spec fn names_sorted(s: Seq<Seq<char>>) -> bool {
    forall|i: int, j: int| 0 <= i < j < s.len() ==> !seq_lt(#[trigger] s[j], #[trigger] s[i])
}

proof fn lemma_insert_name_at(s: Seq<Seq<char>>, x: Seq<char>, k: int)
    requires
        0 <= k <= s.len(),
        forall|t: int| 0 <= t < k ==> !seq_lt(x, #[trigger] s[t]),
        k == s.len() || seq_lt(x, s[k]),
    ensures
        insert_name(s, x) == s.insert(k, x),
    decreases k,
{
    if k == 0 {
        if s.len() == 0 {
            assert(s.insert(0, x) =~= seq![x]);
        } else {
            assert(s.insert(0, x) =~= seq![x] + s);
        }
    } else {
        let t = s.drop_first();
        assert forall|u: int| 0 <= u < k - 1 implies !seq_lt(x, #[trigger] t[u]) by {
            assert(t[u] == s[u + 1]);
        }
        if k < s.len() {
            assert(t[k - 1] == s[k]);
        }
        assert(!seq_lt(x, s[0]));
        lemma_insert_name_at(t, x, k - 1);
        assert(seq![s[0]] + t.insert(k - 1, x) =~= s.insert(k, x));
    }
}

proof fn lemma_insert_name_sorted(s: Seq<Seq<char>>, x: Seq<char>)
    requires
        names_sorted(s),
    ensures
        names_sorted(insert_name(s, x)),
        insert_name(s, x).to_multiset() == s.to_multiset().insert(x),
    decreases s.len(),
{
    broadcast use vstd::seq_lib::group_to_multiset_ensures;

    if s.len() == 0 {
        assert(insert_name(s, x) =~= s.insert(0, x));
        to_multiset_insert(s, 0, x);
    } else if seq_lt(x, s[0]) {
        let r = seq![x] + s;
        assert(r =~= s.insert(0, x));
        to_multiset_insert(s, 0, x);
        assert forall|i: int, j: int| 0 <= i < j < r.len() implies !seq_lt(#[trigger] r[j], #[trigger] r[i]) by {
            if i == 0 {
                assert(r[j] == s[j - 1]);
                if j - 1 > 0 {
                    assert(!seq_lt(s[j - 1], s[0]));
                }
                lemma_seq_lt_strict(s[j - 1], x, s[0]);
                lemma_seq_lt_strict(x, s[0], s[0]);
            } else {
                assert(r[i] == s[i - 1]);
                assert(r[j] == s[j - 1]);
            }
        }
    } else {
        let t = s.drop_first();
        assert(names_sorted(t)) by {
            assert forall|i: int, j: int| 0 <= i < j < t.len() implies !seq_lt(#[trigger] t[j], #[trigger] t[i]) by {
                assert(t[i] == s[i + 1]);
                assert(t[j] == s[j + 1]);
            }
        }
        lemma_insert_name_sorted(t, x);
        let rest = insert_name(t, x);
        let r = seq![s[0]] + rest;
        assert(r =~= rest.insert(0, s[0]));
        assert(s =~= t.insert(0, s[0]));
        to_multiset_insert(rest, 0, s[0]);
        to_multiset_insert(t, 0, s[0]);
        assert(r.to_multiset() =~= s.to_multiset().insert(x));
        assert forall|i: int, j: int| 0 <= i < j < r.len() implies !seq_lt(#[trigger] r[j], #[trigger] r[i]) by {
            if i == 0 {
                let e = r[j];
                assert(e == rest[j - 1]);
                assert(rest.contains(e));
                assert(rest.to_multiset().count(e) > 0);
                if e == x {
                    lemma_seq_lt_strict(x, s[0], x);
                } else {
                    assert(t.to_multiset().count(e) > 0);
                    assert(t.contains(e));
                    let k = choose|k: int| 0 <= k < t.len() && t[k] == e;
                    assert(t[k] == s[k + 1]);
                }
            } else {
                assert(r[i] == rest[i - 1]);
                assert(r[j] == rest[j - 1]);
            }
        }
    }
}

/// Sorting names gives them in ascending order, each as often as before.
pub proof fn lemma_sort_names(s: Seq<Seq<char>>)
    ensures
        names_sorted(sort_names(s)),
        sort_names(s).to_multiset() == s.to_multiset(),
    decreases s.len(),
{
    broadcast use vstd::seq_lib::group_to_multiset_ensures;

    if s.len() == 0 {
        assert(sort_names(s).to_multiset() =~= s.to_multiset());
    } else {
        lemma_sort_names(s.drop_last());
        lemma_insert_name_sorted(sort_names(s.drop_last()), s.last());
        assert(s.drop_last().push(s.last()) =~= s);
    }
}

/// Inserts `x` after every name that does not sort after it.
fn insert_name_into(v: &mut Vec<String>, x: String)
    ensures
        str_views(final(v)@) == insert_name(str_views(old(v)@), x@),
{
    let ghost s = str_views(v@);
    let mut k: usize = 0;
    while k < v.len() && !str_lt(x.as_str(), v[k].as_str())
        invariant
            s == str_views(v@),
            k <= v@.len(),
            forall|t: int| 0 <= t < k ==> !seq_lt(x@, #[trigger] s[t]),
        decreases v@.len() - k,
    {
        k = k + 1;
    }
    proof {
        lemma_insert_name_at(s, x@, k as int);
    }
    let ghost xv = x@;
    v.insert(k, x);
    assert(str_views(v@) =~= s.insert(k as int, xv));
}

/// A sorted copy of the names.
pub fn sorted_names(names: &Vec<String>) -> (r: Vec<String>)
    ensures
        str_views(r@) == sort_names(str_views(names@)),
{
    let mut out: Vec<String> = Vec::new();
    let mut i: usize = 0;
    while i < names.len()
        invariant
            i <= names@.len(),
            str_views(out@) == sort_names(str_views(names@).take(i as int)),
        decreases names@.len() - i,
    {
        proof {
            let t = str_views(names@).take(i + 1);
            assert(t.drop_last() =~= str_views(names@).take(i as int));
            assert(t.last() == names@[i as int]@);
        }
        insert_name_into(&mut out, string_of(names[i].as_str()));
        i = i + 1;
    }
    assert(str_views(names@).take(names@.len() as int) =~= str_views(names@));
    out
}

// ---------------------------------------------------------------- configuration facts

/// A transport binding of a listener, as the summary shows it.
#[derive(Clone, Debug)]
pub struct CompiledListenerBindingSummary {
    pub binding_name: String,
    pub transport: String,
    pub listen_addr: String,
    pub protocols: Vec<String>,
}

/// What the summary reads of one listener of a compiled configuration.
#[derive(Clone, Debug)]
pub struct ListenerFacts {
    pub id: String,
    pub name: String,
    pub listen_addr: String,
    pub binding_count: usize,
    pub tls_enabled: bool,
    pub http3_enabled: bool,
    /// The listener serves HTTP/3 with early data enabled.
    pub http3_early_data_enabled: bool,
    /// The listener's server has a TLS profile.
    pub has_tls_profile: bool,
    pub default_certificate: Option<String>,
    pub bindings: Vec<CompiledListenerBindingSummary>,
}

/// What the summary reads of a compiled configuration.
#[derive(Clone, Debug)]
pub struct ConfigFacts {
    pub listeners: Vec<ListenerFacts>,
    pub total_listener_count: usize,
    pub total_listener_binding_count: usize,
    pub total_vhost_count: usize,
    pub total_route_count: usize,
    /// The names of the upstreams, in any order.
    pub upstream_names: Vec<String>,
    pub worker_threads: Option<usize>,
    pub accept_workers: usize,
    pub tls_enabled: bool,
    pub http3_enabled: bool,
    pub default_server_names: Vec<String>,
    /// The default virtual host overrides TLS.
    pub default_vhost_tls: bool,
    /// Whether each other virtual host overrides TLS.
    pub vhost_tls: Vec<bool>,
}

/// One listener of the summary.
#[derive(Clone, Debug)]
pub struct CompiledListenerSummary {
    pub listener_id: String,
    pub listener_name: String,
    pub listen_addr: String,
    pub binding_count: u32,
    pub tls_enabled: bool,
    pub http3_enabled: bool,
    pub default_certificate: Option<String>,
    pub bindings: Vec<CompiledListenerBindingSummary>,
}

/// The TLS part of the summary.
#[derive(Clone, Debug)]
pub struct CompiledTlsSummary {
    pub listener_tls_profiles: u32,
    pub vhost_tls_overrides: u32,
    /// `listener=certificate` for each listener with a default certificate.
    pub default_certificate_bindings: Vec<String>,
}

/// The summary of a compiled configuration.
#[derive(Clone, Debug)]
pub struct ConfigCompileSummary {
    pub listener_model: String,
    pub listener_count: u32,
    pub listener_binding_count: u32,
    pub total_vhost_count: u32,
    pub total_route_count: u32,
    pub upstream_count: u32,
    pub worker_threads: Option<u32>,
    pub accept_workers: u32,
    pub tls_enabled: bool,
    pub http3_enabled: bool,
    pub http3_early_data_enabled_listeners: u32,
    pub default_server_names: Vec<String>,
    pub upstream_names: Vec<String>,
    pub listeners: Vec<CompiledListenerSummary>,
    pub tls: CompiledTlsSummary,
}

// ---------------------------------------------------------------- the summary, as a specification

pub open spec fn early_data_count(ls: Seq<ListenerFacts>) -> nat
    decreases ls.len(),
{
    if ls.len() == 0 {
        0
    } else {
        early_data_count(ls.drop_last()) + if ls.last().http3_early_data_enabled {
            1nat
        } else {
            0nat
        }
    }
}

pub open spec fn tls_profile_count(ls: Seq<ListenerFacts>) -> nat
    decreases ls.len(),
{
    if ls.len() == 0 {
        0
    } else {
        tls_profile_count(ls.drop_last()) + if ls.last().has_tls_profile {
            1nat
        } else {
            0nat
        }
    }
}

pub open spec fn true_count(s: Seq<bool>) -> nat
    decreases s.len(),
{
    if s.len() == 0 {
        0
    } else {
        true_count(s.drop_last()) + if s.last() {
            1nat
        } else {
            0nat
        }
    }
}

/// The virtual hosts that override TLS: the default one and the others.
pub open spec fn vhost_override_count(f: ConfigFacts) -> nat {
    (if f.default_vhost_tls {
        1nat
    } else {
        0nat
    }) + true_count(f.vhost_tls@)
}

/// `listener=certificate` for each listener with a default certificate, in order.
pub open spec fn certificate_bindings(ls: Seq<ListenerFacts>) -> Seq<Seq<char>>
    decreases ls.len(),
{
    if ls.len() == 0 {
        Seq::empty()
    } else {
        let rest = certificate_bindings(ls.drop_last());
        match ls.last().default_certificate {
            Some(c) => rest.push(ls.last().name@ + "="@ + c@),
            None => rest,
        }
    }
}

pub open spec fn over_u32(n: int) -> bool {
    n > u32::MAX
}

/// The first count of the summary that does not fit in a `u32`, named as the
/// summary's field, in the order in which the summary is built.
pub open spec fn summary_overflow(f: ConfigFacts) -> Option<Seq<char>> {
    if exists|i: int| 0 <= i < f.listeners@.len() && over_u32(#[trigger] f.listeners@[i].binding_count as int) {
        Some("binding_count"@)
    } else if over_u32(f.total_listener_count as int) {
        Some("listener_count"@)
    } else if over_u32(f.total_listener_binding_count as int) {
        Some("listener_binding_count"@)
    } else if over_u32(f.total_vhost_count as int) {
        Some("total_vhost_count"@)
    } else if over_u32(f.total_route_count as int) {
        Some("total_route_count"@)
    } else if over_u32(f.upstream_names@.len() as int) {
        Some("upstream_count"@)
    } else if f.worker_threads matches Some(w) && over_u32(w as int) {
        Some("worker_threads"@)
    } else if over_u32(f.accept_workers as int) {
        Some("accept_workers"@)
    } else if over_u32(early_data_count(f.listeners@) as int) {
        Some("http3_early_data_enabled_listeners"@)
    } else if over_u32(tls_profile_count(f.listeners@) as int) {
        Some("listener_tls_profiles"@)
    } else if over_u32(vhost_override_count(f) as int) {
        Some("vhost_tls_overrides"@)
    } else {
        None
    }
}

pub open spec fn binding_copied(a: CompiledListenerBindingSummary, b: CompiledListenerBindingSummary) -> bool {
    &&& a.binding_name@ == b.binding_name@
    &&& a.transport@ == b.transport@
    &&& a.listen_addr@ == b.listen_addr@
    &&& str_views(a.protocols@) == str_views(b.protocols@)
}

pub open spec fn bindings_copied(a: Seq<CompiledListenerBindingSummary>, b: Seq<CompiledListenerBindingSummary>) -> bool {
    a.len() == b.len() && forall|j: int| 0 <= j < a.len() ==> binding_copied(#[trigger] a[j], b[j])
}

/// The summary of one listener.
pub open spec fn listener_summarized(s: CompiledListenerSummary, l: ListenerFacts) -> bool {
    &&& s.listener_id@ == l.id@
    &&& s.listener_name@ == l.name@
    &&& s.listen_addr@ == l.listen_addr@
    &&& s.binding_count == l.binding_count
    &&& s.tls_enabled == l.tls_enabled
    &&& s.http3_enabled == l.http3_enabled
    &&& opt_view(s.default_certificate) == opt_view(l.default_certificate)
    &&& bindings_copied(s.bindings@, l.bindings@)
}

/// `legacy` for the single implicit `default` listener, `explicit` otherwise.
pub open spec fn spec_listener_model(f: ConfigFacts) -> Seq<char> {
    if f.total_listener_count == 1 && f.listeners@.len() > 0 && f.listeners@[0].id@ == "default"@
        && f.listeners@[0].name@ == "default"@ {
        "legacy"@
    } else {
        "explicit"@
    }
}

/// What the summary of a configuration whose counts all fit says.
pub open spec fn summarizes(s: ConfigCompileSummary, f: ConfigFacts) -> bool {
    &&& s.listener_model@ == spec_listener_model(f)
    &&& s.listener_count == f.total_listener_count
    &&& s.listener_binding_count == f.total_listener_binding_count
    &&& s.total_vhost_count == f.total_vhost_count
    &&& s.total_route_count == f.total_route_count
    &&& s.upstream_count == f.upstream_names@.len()
    &&& s.worker_threads == (match f.worker_threads {
        Some(w) => Some(w as u32),
        None => None,
    })
    &&& s.accept_workers == f.accept_workers
    &&& s.tls_enabled == f.tls_enabled
    &&& s.http3_enabled == f.http3_enabled
    &&& s.http3_early_data_enabled_listeners == early_data_count(f.listeners@)
    &&& str_views(s.default_server_names@) == str_views(f.default_server_names@)
    &&& str_views(s.upstream_names@) == sort_names(str_views(f.upstream_names@))
    &&& s.listeners@.len() == f.listeners@.len()
    &&& forall|i: int| 0 <= i < s.listeners@.len() ==> listener_summarized(#[trigger] s.listeners@[i], f.listeners@[i])
    &&& s.tls.listener_tls_profiles == tls_profile_count(f.listeners@)
    &&& s.tls.vhost_tls_overrides == vhost_override_count(f)
    &&& str_views(s.tls.default_certificate_bindings@) == certificate_bindings(f.listeners@)
}

// ---------------------------------------------------------------- building the summary

fn copy_binding(b: &CompiledListenerBindingSummary) -> (r: CompiledListenerBindingSummary)
    ensures
        binding_copied(r, *b),
{
    CompiledListenerBindingSummary {
        binding_name: string_of(b.binding_name.as_str()),
        transport: string_of(b.transport.as_str()),
        listen_addr: string_of(b.listen_addr.as_str()),
        protocols: copy_strings(&b.protocols),
    }
}

fn copy_bindings(v: &Vec<CompiledListenerBindingSummary>) -> (r: Vec<CompiledListenerBindingSummary>)
    ensures
        bindings_copied(r@, v@),
{
    let mut out: Vec<CompiledListenerBindingSummary> = Vec::new();
    let mut i: usize = 0;
    while i < v.len()
        invariant
            i <= v@.len(),
            out@.len() == i,
            forall|j: int| 0 <= j < i ==> binding_copied(#[trigger] out@[j], v@[j]),
        decreases v@.len() - i,
    {
        out.push(copy_binding(&v[i]));
        i = i + 1;
    }
    out
}

fn copy_option(o: &Option<String>) -> (r: Option<String>)
    ensures
        opt_view(r) == opt_view(*o),
{
    match o {
        Some(s) => Some(string_of(s.as_str())),
        None => None,
    }
}

/// The listeners of the summary; a binding count that does not fit in a
/// `u32` fails the first listener that has one.
fn summarize_listeners(ls: &Vec<ListenerFacts>) -> (r: ServiceResult<Vec<CompiledListenerSummary>>)
    ensures
        match r {
            Ok(v) => (forall|i: int| 0 <= i < ls@.len() ==> !over_u32(#[trigger] ls@[i].binding_count as int))
                && v@.len() == ls@.len() && forall|i: int|
                0 <= i < v@.len() ==> listener_summarized(#[trigger] v@[i], ls@[i]),
            Err(e) => (exists|i: int| 0 <= i < ls@.len() && over_u32(#[trigger] ls@[i].binding_count as int))
                && is_internal(e, "binding_count"@ + " should fit into u32"@),
        },
{
    let mut out: Vec<CompiledListenerSummary> = Vec::new();
    let mut i: usize = 0;
    while i < ls.len()
        invariant
            i <= ls@.len(),
            out@.len() == i,
            forall|j: int| 0 <= j < i ==> !over_u32(#[trigger] ls@[j].binding_count as int),
            forall|j: int| 0 <= j < i ==> listener_summarized(#[trigger] out@[j], ls@[j]),
        decreases ls@.len() - i,
    {
        let l = &ls[i];
        let binding_count = match usize_to_u32(l.binding_count as u64, "binding_count") {
            Ok(n) => n,
            Err(e) => {
                assert(over_u32(ls@[i as int].binding_count as int));
                return Err(e);
            },
        };
        out.push(
            CompiledListenerSummary {
                listener_id: string_of(l.id.as_str()),
                listener_name: string_of(l.name.as_str()),
                listen_addr: string_of(l.listen_addr.as_str()),
                binding_count,
                tls_enabled: l.tls_enabled,
                http3_enabled: l.http3_enabled,
                default_certificate: copy_option(&l.default_certificate),
                bindings: copy_bindings(&l.bindings),
            },
        );
        i = i + 1;
    }
    Ok(out)
}

fn count_early_data(ls: &Vec<ListenerFacts>) -> (n: usize)
    ensures
        n == early_data_count(ls@),
{
    let mut n: usize = 0;
    let mut i: usize = 0;
    while i < ls.len()
        invariant
            i <= ls@.len(),
            n == early_data_count(ls@.take(i as int)),
            n <= i,
        decreases ls@.len() - i,
    {
        assert(ls@.take(i + 1).drop_last() =~= ls@.take(i as int));
        if ls[i].http3_early_data_enabled {
            n = n + 1;
        }
        i = i + 1;
    }
    assert(ls@.take(ls@.len() as int) =~= ls@);
    n
}

fn count_tls_profiles(ls: &Vec<ListenerFacts>) -> (n: usize)
    ensures
        n == tls_profile_count(ls@),
{
    let mut n: usize = 0;
    let mut i: usize = 0;
    while i < ls.len()
        invariant
            i <= ls@.len(),
            n == tls_profile_count(ls@.take(i as int)),
            n <= i,
        decreases ls@.len() - i,
    {
        assert(ls@.take(i + 1).drop_last() =~= ls@.take(i as int));
        if ls[i].has_tls_profile {
            n = n + 1;
        }
        i = i + 1;
    }
    assert(ls@.take(ls@.len() as int) =~= ls@);
    n
}

fn count_true(v: &Vec<bool>) -> (n: usize)
    ensures
        n == true_count(v@),
{
    let mut n: usize = 0;
    let mut i: usize = 0;
    while i < v.len()
        invariant
            i <= v@.len(),
            n == true_count(v@.take(i as int)),
            n <= i,
        decreases v@.len() - i,
    {
        assert(v@.take(i + 1).drop_last() =~= v@.take(i as int));
        if v[i] {
            n = n + 1;
        }
        i = i + 1;
    }
    assert(v@.take(v@.len() as int) =~= v@);
    n
}

fn default_certificate_bindings(ls: &Vec<ListenerFacts>) -> (r: Vec<String>)
    ensures
        str_views(r@) == certificate_bindings(ls@),
{
    let mut out: Vec<String> = Vec::new();
    let mut i: usize = 0;
    while i < ls.len()
        invariant
            i <= ls@.len(),
            str_views(out@) == certificate_bindings(ls@.take(i as int)),
        decreases ls@.len() - i,
    {
        assert(ls@.take(i + 1).drop_last() =~= ls@.take(i as int));
        match &ls[i].default_certificate {
            Some(c) => {
                let mut b = string_of(ls[i].name.as_str());
                push_str(&mut b, "=");
                push_str(&mut b, c.as_str());
                let ghost before = str_views(out@);
                out.push(b);
                assert(str_views(out@) =~= before.push(b@));
            },
            None => {},
        }
        i = i + 1;
    }
    assert(ls@.take(ls@.len() as int) =~= ls@);
    out
}

/// The summary of a compiled configuration: its listeners, counts, upstream
/// names in ascending order and TLS profile; the first count that does not
/// fit in a `u32` fails it with an internal error naming the field.
pub fn build_compile_summary(facts: &ConfigFacts) -> (r: ServiceResult<ConfigCompileSummary>)
    ensures
        match summary_overflow(*facts) {
            Some(field) => r matches Err(e) && is_internal(e, field + " should fit into u32"@),
            None => r matches Ok(s) && summarizes(s, *facts),
        },
{
    let listeners = match summarize_listeners(&facts.listeners) {
        Ok(v) => v,
        Err(e) => return Err(e),
    };
    let default_certificates = default_certificate_bindings(&facts.listeners);
    let first_id: Option<&str> = if facts.listeners.len() > 0 {
        Some(facts.listeners[0].id.as_str())
    } else {
        None
    };
    let first_name: Option<&str> = if facts.listeners.len() > 0 {
        Some(facts.listeners[0].name.as_str())
    } else {
        None
    };
    let model = listener_model(facts.total_listener_count, first_id, first_name);
    let listener_count = match usize_to_u32(facts.total_listener_count as u64, "listener_count") {
        Ok(n) => n,
        Err(e) => return Err(e),
    };
    let listener_binding_count = match usize_to_u32(
        facts.total_listener_binding_count as u64,
        "listener_binding_count",
    ) {
        Ok(n) => n,
        Err(e) => return Err(e),
    };
    let total_vhost_count = match usize_to_u32(facts.total_vhost_count as u64, "total_vhost_count") {
        Ok(n) => n,
        Err(e) => return Err(e),
    };
    let total_route_count = match usize_to_u32(facts.total_route_count as u64, "total_route_count") {
        Ok(n) => n,
        Err(e) => return Err(e),
    };
    let upstream_count = match usize_to_u32(facts.upstream_names.len() as u64, "upstream_count") {
        Ok(n) => n,
        Err(e) => return Err(e),
    };
    let worker_threads = match facts.worker_threads {
        Some(w) => match usize_to_u32(w as u64, "worker_threads") {
            Ok(n) => Some(n),
            Err(e) => return Err(e),
        },
        None => None,
    };
    let accept_workers = match usize_to_u32(facts.accept_workers as u64, "accept_workers") {
        Ok(n) => n,
        Err(e) => return Err(e),
    };
    let early = match usize_to_u32(count_early_data(&facts.listeners) as u64, "http3_early_data_enabled_listeners") {
        Ok(n) => n,
        Err(e) => return Err(e),
    };
    let tls_profiles = match usize_to_u32(count_tls_profiles(&facts.listeners) as u64, "listener_tls_profiles") {
        Ok(n) => n,
        Err(e) => return Err(e),
    };
    let other_overrides = count_true(&facts.vhost_tls);
    let overrides: u64 = if other_overrides as u64 > 0xffff_ffff {
        other_overrides as u64
    } else if facts.default_vhost_tls {
        other_overrides as u64 + 1
    } else {
        other_overrides as u64
    };
    let vhost_tls_overrides = match usize_to_u32(overrides, "vhost_tls_overrides") {
        Ok(n) => n,
        Err(e) => return Err(e),
    };
    Ok(
        ConfigCompileSummary {
            listener_model: string_of(model),
            listener_count,
            listener_binding_count,
            total_vhost_count,
            total_route_count,
            upstream_count,
            worker_threads,
            accept_workers,
            tls_enabled: facts.tls_enabled,
            http3_enabled: facts.http3_enabled,
            http3_early_data_enabled_listeners: early,
            default_server_names: copy_strings(&facts.default_server_names),
            upstream_names: sorted_names(&facts.upstream_names),
            listeners,
            tls: CompiledTlsSummary {
                listener_tls_profiles: tls_profiles,
                vhost_tls_overrides,
                default_certificate_bindings: default_certificates,
            },
        },
    )
}

// ---------------------------------------------------------------- validation report

/// The outcome of checking a configuration draft.
#[derive(Clone, Debug)]
pub struct ConfigValidationReport {
    pub valid: bool,
    pub validated_at_unix_ms: u64,
    pub normalized_source_path: String,
    pub issues: Vec<String>,
    pub summary: Option<ConfigCompileSummary>,
}

/// The report on a configuration text checked at `validated_at_unix_ms`: a
/// blank text is invalid without being compiled; otherwise `compiled` is what
/// compiling it gave, its error as the one issue, or the facts whose summary
/// the valid report carries.
pub fn config_validation_report(
    source_path: &str,
    config_text: &str,
    compiled: Result<ConfigFacts, String>,
    validated_at_unix_ms: u64,
) -> (r: ServiceResult<ConfigValidationReport>)
    ensures
        is_blank_seq(config_text@) ==> (r matches Ok(rep) && !rep.valid && rep.summary is None
            && str_views(rep.issues@) == seq!["config_text should not be empty"@]
            && rep.normalized_source_path@ == source_path@ && rep.validated_at_unix_ms == validated_at_unix_ms),
        !is_blank_seq(config_text@) ==> match compiled {
            Err(m) => r matches Ok(rep) && !rep.valid && rep.summary is None && str_views(rep.issues@) == seq![m@]
                && rep.normalized_source_path@ == source_path@ && rep.validated_at_unix_ms == validated_at_unix_ms,
            Ok(f) => match summary_overflow(f) {
                Some(field) => r matches Err(e) && is_internal(e, field + " should fit into u32"@),
                None => r matches Ok(rep) && rep.valid && rep.issues@.len() == 0 && (rep.summary matches Some(s)
                    && summarizes(s, f)) && rep.normalized_source_path@ == source_path@
                    && rep.validated_at_unix_ms == validated_at_unix_ms,
            },
        },
{
    if is_blank(config_text) {
        let issues = vec![string_of("config_text should not be empty")];
        assert(str_views(issues@) =~= seq!["config_text should not be empty"@]);
        return Ok(
            ConfigValidationReport {
                valid: false,
                validated_at_unix_ms,
                normalized_source_path: string_of(source_path),
                issues,
                summary: None,
            },
        );
    }
    match compiled {
        Ok(facts) => match build_compile_summary(&facts) {
            Ok(summary) => Ok(
                ConfigValidationReport {
                    valid: true,
                    validated_at_unix_ms,
                    normalized_source_path: string_of(source_path),
                    issues: Vec::new(),
                    summary: Some(summary),
                },
            ),
            Err(e) => Err(e),
        },
        Err(message) => {
            let ghost m = message@;
            let issues = vec![message];
            assert(str_views(issues@) =~= seq![m]);
            Ok(
                ConfigValidationReport {
                    valid: false,
                    validated_at_unix_ms,
                    normalized_source_path: string_of(source_path),
                    issues,
                    summary: None,
                },
            )
        },
    }
}

} // verus!
