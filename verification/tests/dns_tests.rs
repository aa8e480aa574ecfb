use rginx_control::dns::{
    best_matching_zone, evaluate_plan, expand_target, match_query, normalize_name, record_fqdn, source_matches,
    validate_dns_plan, DnsAnswerTarget, DnsPlan, DnsRecordSet, DnsRecordType, DnsTargetKind,
    DnsZoneSpec, IpFamily, IpParse, NodeFacts, ParsedIp, PeerFacts, RecordAddresses,
    SimulationFacts, TargetFacts, UpstreamFacts,
};
use rginx_control::model::{NodeLifecycleState, NodeSummary};

fn zone(id: &str, name: &str, records: Vec<DnsRecordSet>) -> DnsZoneSpec {
    DnsZoneSpec { zone_id: id.to_string(), zone_name: name.to_string(), records }
}

fn record(id: &str, name: &str, t: DnsRecordType, values: &[&str], targets: Vec<DnsAnswerTarget>) -> DnsRecordSet {
    DnsRecordSet {
        record_id: id.to_string(),
        name: name.to_string(),
        record_type: t,
        ttl_secs: 60,
        values: values.iter().map(|v| v.to_string()).collect(),
        targets,
    }
}

fn target(id: &str, kind: DnsTargetKind, value: &str) -> DnsAnswerTarget {
    DnsAnswerTarget {
        target_id: id.to_string(),
        kind,
        value: value.to_string(),
        weight: 1,
        enabled: true,
        source_cidrs: Vec::new(),
    }
}

fn v4(text: &str) -> IpParse {
    IpParse::Address { family: IpFamily::V4, text: text.to_string() }
}

fn v6(text: &str) -> IpParse {
    IpParse::Address { family: IpFamily::V6, text: text.to_string() }
}

fn invalid() -> IpParse {
    IpParse::Invalid { error: "invalid IP address syntax".to_string() }
}

fn node(id: &str, cluster: &str, state: NodeLifecycleState) -> NodeSummary {
    NodeSummary {
        node_id: id.to_string(),
        cluster_id: cluster.to_string(),
        advertise_addr: "10.0.0.1:8443".to_string(),
        role: "edge".to_string(),
        state,
        running_version: "v1".to_string(),
        admin_socket_path: "/run/admin.sock".to_string(),
        last_seen_unix_ms: 0,
        last_snapshot_version: None,
        runtime_revision: None,
        runtime_pid: None,
        listener_count: None,
        active_connections: None,
        status_reason: None,
    }
}

fn client() -> ParsedIp {
    ParsedIp { family: IpFamily::V4, text: "10.20.30.40".to_string() }
}

fn facts() -> TargetFacts {
    TargetFacts {
        static_ip: invalid(),
        node: None,
        nodes: Vec::new(),
        upstream: UpstreamFacts::NoRevision,
    }
}

#[test]
fn names_are_trimmed_undotted_and_lowercased() {
    assert_eq!(normalize_name("  WWW.Example.COM.. "), "www.example.com");
    assert_eq!(normalize_name("Ünicode."), "Ünicode");
    assert_eq!(record_fqdn("Example.com.", "@"), "example.com");
    assert_eq!(record_fqdn("example.com", " "), "example.com");
    assert_eq!(record_fqdn("example.com", "WWW"), "www.example.com");
    assert_eq!(record_fqdn("example.com", "mail.other.org."), "mail.other.org");
}

#[test]
fn the_longest_matching_zone_wins_and_ties_go_to_the_later_zone() {
    let zones = vec![
        zone("z1", "example.com", Vec::new()),
        zone("z2", "a.example.com", Vec::new()),
        zone("z3", "other.org", Vec::new()),
        zone("z4", "A.example.com", Vec::new()),
    ];
    assert_eq!(best_matching_zone(&zones, "www.a.example.com"), Some(3));
    assert_eq!(best_matching_zone(&zones, "example.com"), Some(0));
    assert_eq!(best_matching_zone(&zones, "xexample.com"), None);
    assert_eq!(best_matching_zone(&zones, "org"), None);
}

#[test]
fn plan_checks_report_issues_in_plan_order() {
    let mut bad_target = target("", DnsTargetKind::Node, "edge-9");
    bad_target.weight = 0;
    bad_target.source_cidrs = vec!["10.0.0.0/8".to_string(), "nope".to_string()];
    let plan = DnsPlan {
        cluster_id: "c1".to_string(),
        zones: vec![
            zone(
                "z1",
                "Example.com",
                vec![
                    record("r1", "www", DnsRecordType::A, &["10.0.0.1", "::1", "x"], vec![bad_target]),
                    record("r2", "www", DnsRecordType::Cname, &["a", "b"], Vec::new()),
                    record("", "www", DnsRecordType::A, &[], Vec::new()),
                ],
            ),
            zone("", "example.com.", Vec::new()),
            zone("z3", " ", Vec::new()),
        ],
    };
    let addrs = vec![
        vec![
            RecordAddresses { values: vec![v4("10.0.0.1"), v6("::1"), invalid()], targets: vec![invalid()] },
            RecordAddresses { values: vec![invalid(), invalid()], targets: Vec::new() },
            RecordAddresses { values: Vec::new(), targets: Vec::new() },
        ],
        Vec::new(),
        Vec::new(),
    ];
    let issues = validate_dns_plan(&plan, &addrs, &vec!["edge-1".to_string()]);
    assert_eq!(
        issues,
        vec![
            "record `www` in zone `Example.com` has mismatched IP family `::1` for `A`",
            "record `www` in zone `Example.com` has invalid IP value `x`: invalid IP address syntax",
            "record `www` in zone `Example.com` contains target with empty target_id",
            "target `` in record `www` zone `Example.com` weight must be greater than 0",
            "target `` in record `www` zone `Example.com` has invalid source_cidr `nope`",
            "target `` in record `www` zone `Example.com` references unknown node `edge-9`",
            "CNAME record `www` in zone `Example.com` requires exactly one value and no targets",
            "zone `Example.com` contains a record with empty record_id",
            "record `www` in zone `Example.com` requires targets or values for `A`",
            "duplicate record `www.example.com` type `A` in zone `Example.com`",
            "record `www.example.com` in zone `Example.com` cannot mix CNAME with other types",
            "zone_id should not be empty",
            "duplicate zone_name `example.com`",
            "zone `z3` zone_name should not be empty",
        ]
    );
}

#[test]
fn queries_match_zone_and_record() {
    let plan = DnsPlan {
        cluster_id: "c1".to_string(),
        zones: vec![zone("z1", "example.com", vec![record("r1", "www", DnsRecordType::A, &["10.0.0.1"], Vec::new())])],
    };
    let m = match_query(&plan, "WWW.example.com.", DnsRecordType::A);
    assert_eq!(m.qname, "www.example.com");
    assert_eq!(m.zone, Some(0));
    assert_eq!(m.record, Some(0));
    assert_eq!(match_query(&plan, "www.example.com", DnsRecordType::Aaaa).record, None);
    let empty = SimulationFacts { values: Vec::new(), targets: Vec::new() };
    let none = evaluate_plan("c1", &plan, "www.other.org", DnsRecordType::A, &client(), &empty);
    assert_eq!(none.issues, vec!["no matching zone"]);
    assert_eq!(none.matched_zone, None);
    let missing = evaluate_plan("c1", &plan, "api.example.com", DnsRecordType::A, &client(), &empty);
    assert_eq!(missing.issues, vec!["no matching record"]);
    assert_eq!(missing.matched_zone, Some("example.com".to_string()));
}

#[test]
fn simulation_answers_values_then_targets() {
    let mut disabled = target("t2", DnsTargetKind::StaticIp, "10.9.9.9");
    disabled.enabled = false;
    let plan = DnsPlan {
        cluster_id: "c1".to_string(),
        zones: vec![zone(
            "z1",
            "example.com",
            vec![record(
                "r1",
                "www",
                DnsRecordType::A,
                &["10.0.0.1", "::2", "bogus"],
                vec![target("t1", DnsTargetKind::StaticIp, "10.0.0.7"), disabled, target("t3", DnsTargetKind::Cluster, "c1")],
            )],
        )],
    };
    let mut cluster_facts = facts();
    cluster_facts.nodes = vec![
        NodeFacts { node: node("edge-1", "c1", NodeLifecycleState::Online), ip: Some(ParsedIp { family: IpFamily::V4, text: "10.0.0.11".to_string() }) },
        NodeFacts { node: node("edge-2", "c2", NodeLifecycleState::Online), ip: None },
        NodeFacts { node: node("edge-3", "c1", NodeLifecycleState::Offline), ip: Some(ParsedIp { family: IpFamily::V4, text: "10.0.0.13".to_string() }) },
    ];
    let mut static_facts = facts();
    static_facts.static_ip = v4("10.0.0.7");
    let sim = SimulationFacts {
        values: vec![v4("10.0.0.1"), v6("::2"), invalid()],
        targets: vec![static_facts, facts(), cluster_facts],
    };
    let r = evaluate_plan("c1", &plan, "www.example.com", DnsRecordType::A, &client(), &sim);
    assert_eq!(r.matched_record_id, Some("r1".to_string()));
    assert_eq!(r.ttl_secs, Some(60));
    assert!(r.issues.is_empty());
    let answers: Vec<(String, Option<String>)> = r.answers.iter().map(|a| (a.value.clone(), a.reason.clone())).collect();
    assert_eq!(
        answers,
        vec![
            ("10.0.0.1".to_string(), Some("static inline record value".to_string())),
            ("10.0.0.7".to_string(), Some("static target".to_string())),
            ("10.0.0.11".to_string(), Some("cluster expansion from node edge-1".to_string())),
        ]
    );
    let discarded: Vec<(String, Option<String>)> = r.discarded.iter().map(|a| (a.value.clone(), a.reason.clone())).collect();
    assert_eq!(
        discarded,
        vec![
            ("::2".to_string(), Some("record type does not match IP family".to_string())),
            ("bogus".to_string(), Some("invalid IP value: invalid IP address syntax".to_string())),
            ("10.9.9.9".to_string(), Some("target is disabled".to_string())),
            ("10.0.0.13".to_string(), Some("cluster expansion from node edge-3".to_string())),
        ]
    );
    assert!(!r.discarded[3].healthy);
    assert_eq!(r.discarded[3].node_id, Some("edge-3".to_string()));
}

#[test]
fn literal_records_answer_their_values() {
    let plan = DnsPlan {
        cluster_id: "c1".to_string(),
        zones: vec![zone("z1", "example.com", vec![record("r1", "@", DnsRecordType::Txt, &["v=spf1"], Vec::new())])],
    };
    let sim = SimulationFacts { values: vec![invalid()], targets: Vec::new() };
    let r = evaluate_plan("c1", &plan, "example.com", DnsRecordType::Txt, &client(), &sim);
    assert_eq!(r.answers.len(), 1);
    assert_eq!(r.answers[0].value, "v=spf1");
    assert_eq!(r.answers[0].cluster_id, Some("c1".to_string()));
    assert_eq!(r.answers[0].reason, Some("literal record value".to_string()));
}

#[test]
fn target_expansion_follows_node_upstream_and_source_rules() {
    let mut answers = Vec::new();
    let mut discarded = Vec::new();
    let mut scoped = target("t1", DnsTargetKind::StaticIp, "10.0.0.7");
    scoped.source_cidrs = vec!["192.168.0.0/16".to_string()];
    let f = facts();
    expand_target(&scoped, &f, DnsRecordType::A, "c1", &client(), &mut answers, &mut discarded);
    assert_eq!(discarded[0].reason, Some("source_ip did not match source_cidrs".to_string()));

    let mut f = facts();
    f.node = Some(NodeFacts { node: node("edge-1", "c1", NodeLifecycleState::Draining), ip: Some(ParsedIp { family: IpFamily::V4, text: "10.0.0.1".to_string() }) });
    expand_target(&target("t2", DnsTargetKind::Node, "edge-1"), &f, DnsRecordType::A, "c1", &client(), &mut answers, &mut discarded);
    assert_eq!(answers[0].reason, Some("node edge-1 is draining".to_string()));
    assert!(answers[0].healthy);

    expand_target(&target("t3", DnsTargetKind::Node, "edge-9"), &facts(), DnsRecordType::A, "c1", &client(), &mut answers, &mut discarded);
    assert_eq!(discarded[1].reason, Some("node was not found".to_string()));

    let mut f = facts();
    f.upstream = UpstreamFacts::Peers(vec![
        PeerFacts {
            url: "http://app:8080".to_string(),
            authority: "app:8080".to_string(),
            addresses: Some(vec![
                ParsedIp { family: IpFamily::V6, text: "::5".to_string() },
                ParsedIp { family: IpFamily::V4, text: "10.1.1.1".to_string() },
            ]),
        },
        PeerFacts { url: "http://gone:80".to_string(), authority: "gone:80".to_string(), addresses: None },
        PeerFacts { url: "http://v6:80".to_string(), authority: "v6:80".to_string(), addresses: Some(vec![ParsedIp { family: IpFamily::V6, text: "::6".to_string() }]) },
    ]);
    expand_target(&target("t4", DnsTargetKind::Upstream, "app"), &f, DnsRecordType::A, "c1", &client(), &mut answers, &mut discarded);
    assert_eq!(answers[1].value, "10.1.1.1");
    assert_eq!(answers[1].reason, Some("expanded from upstream peer http://app:8080".to_string()));
    assert_eq!(answers[1].cluster_id, Some("c1".to_string()));
    assert_eq!(discarded[2].value, "gone:80");
    assert_eq!(discarded[2].reason, Some("upstream authority could not be resolved".to_string()));
    assert_eq!(discarded[3].reason, Some("upstream peer did not resolve to the requested record family".to_string()));

    let mut f = facts();
    f.upstream = UpstreamFacts::CompileFailed("bad".to_string());
    expand_target(&target("t5", DnsTargetKind::Upstream, "app"), &f, DnsRecordType::A, "c1", &client(), &mut answers, &mut discarded);
    assert_eq!(discarded[4].reason, Some("failed to compile latest config revision for upstream expansion: bad".to_string()));
    expand_target(&target("t6", DnsTargetKind::Cluster, "c7"), &facts(), DnsRecordType::A, "c1", &client(), &mut answers, &mut discarded);
    assert_eq!(discarded[5].reason, Some("cluster did not resolve to any nodes".to_string()));
    assert_eq!(discarded[5].value, "c7");
}

#[test]
fn source_cidrs_match_the_query_source() {
    let v4 = client();
    let v6 = ParsedIp { family: IpFamily::V6, text: "2001:db8::1".to_string() };
    let cidrs = |items: &[&str]| items.iter().map(|c| c.to_string()).collect::<Vec<String>>();
    assert!(source_matches(&cidrs(&["192.168.0.0/16", "10.0.0.0/8"]), &v4));
    assert!(source_matches(&cidrs(&["10.20.30.40/32"]), &v4));
    assert!(!source_matches(&cidrs(&["10.20.30.41/32"]), &v4));
    assert!(!source_matches(&cidrs(&["garbage", "192.168.0.0/16"]), &v4));
    assert!(source_matches(&cidrs(&["garbage", "10.0.0.0/8"]), &v4));
    assert!(!source_matches(&cidrs(&["10.0.0.0/8"]), &v6));
    assert!(source_matches(&cidrs(&["2001:db8::/32"]), &v6));
    assert!(!source_matches(&Vec::new(), &v4));

    let mut answers = Vec::new();
    let mut discarded = Vec::new();
    let mut scoped = target("t1", DnsTargetKind::StaticIp, "10.0.0.7");
    scoped.source_cidrs = cidrs(&["not-a-cidr", "10.20.0.0/16"]);
    let mut f = facts();
    f.static_ip = IpParse::Address { family: IpFamily::V4, text: "10.0.0.7".to_string() };
    expand_target(&scoped, &f, DnsRecordType::A, "c1", &v4, &mut answers, &mut discarded);
    assert_eq!(answers.len(), 1);
    assert_eq!(answers[0].value, "10.0.0.7");
    assert!(discarded.is_empty());
}
