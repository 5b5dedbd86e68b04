use plaine::node::boot::{
    catching_up, census_line, chain_condition_needs_an_operator, chain_params, checkpoint_line,
    accept_bucket, cpu_pool_threads, sealed_line, stratum_connections, stratum_setpoint,
    display_ip, genesis_step, may_save_peers, outbound_warning, p2p_line, rpc_line, rpc_refused, stamp_condition,
    storage_line, syncing_line, top_claim, ChainCondition, Genesis, NetCondition, StartError,
    TransportRepairStuck, TransportStranded, EXIT_BUSY, EXIT_CONFIG, PEERS_SAVE_MS,
};
use plaine::node::commit::CommitStats;
use plaine::node::config::{defaults, Addr, Config, Facts, Network, Overrides};
use plaine::node::journal::{
    actions, anchor, beat, conditions, created_line, loaded_line, opened, restored, seeds_warning, stopped, stratum_listens,
    swept, wrote_line, Anchor, Mark, Opened, Restored, Seen, Stopped, TableCheck, Wrote,
};
use plaine::node::lines::{stratum_line, stratum_line_brief, StratumCounts};

fn distinct() -> StratumCounts {
    StratumCounts {
        conns: 2,
        accepted: 3,
        submitted: 5,
        verified: 7,
        blocks: 11,
        stale: 13,
        duplicate: 17,
        low_difficulty: 19,
        out_of_slice: 23,
        unknown_job: 29,
        bad_json: 31,
        keepalives: 37,
        bans: 41,
        saturated: 43,
        internal_errors: 47,
        throttled: 53,
        server_busy: 59,
        verify_queue: 61,
        revocations: 67,
        closed_idle: 71,
        closed_auth_timeout: 73,
        closed_slow_client: 79,
        closed_line_flood: 83,
        closed_slice_revoked: 89,
    }
}

#[test]
fn line_carries_flood_counters() {
    let line = stratum_line(&distinct());
    for (label, want) in [
        ("verified", 7u64),
        ("bad-json", 31),
        ("keepalive", 37),
        ("bans", 41),
        ("ban-table-saturated", 43),
    ] {
        assert!(
            line.contains(&format!("{label} {want}")),
            "the line must name {label}: {line}"
        );
    }
}

#[test]
fn line_carries_prior_counters() {
    let line = stratum_line(&distinct());
    for (label, want) in [
        ("conns", 2u64),
        ("blocks", 11),
        ("stale", 13),
        ("dup", 17),
        ("lowdiff", 19),
        ("slice", 23),
        ("unknown-job", 29),
    ] {
        assert!(line.contains(&format!("{label} {want}")), "lost {label}: {line}");
    }
    assert!(line.contains("shares 3/5 accepted"), "{line}");
}

#[test]
fn line_carries_backpressure_classes() {
    let line = stratum_line(&distinct());
    for (label, want) in [
        ("internal-error", 47u64),
        ("throttled", 53),
        ("server-busy", 59),
        ("verify-queue", 61),
        ("revocations", 67),
    ] {
        assert!(
            line.contains(&format!("{label} {want}")),
            "the line must name {label}: {line}"
        );
    }
}

#[test]
fn our_failure_precedes_miner_blame() {
    let line = stratum_line(&distinct());
    let ours = line.find("internal-error").expect("internal-error on the line");
    for label in ["stale ", "dup ", "lowdiff ", "slice ", "unknown-job "] {
        let theirs = line.find(label).unwrap_or_else(|| panic!("{label} on the line"));
        assert!(ours < theirs, "`{label}` precedes internal-error: {line}");
    }
}

#[test]
fn line_names_close_reasons() {
    let line = stratum_line(&distinct());
    for (label, want) in [
        ("idle", 71u64),
        ("auth-timeout", 73),
        ("slow-client", 79),
        ("line-flood", 83),
        ("slice-revoked", 89),
    ] {
        assert!(
            line.contains(&format!("{label} {want}")),
            "the line must name {label}: {line}"
        );
    }

    let g = line.find("closed idle").expect("the group is labelled");
    assert!(g > line.find("revocations").expect("revocations"), "{line}");
}

#[test]
fn close_reasons_after_refusals() {
    let line = stratum_line(&distinct());
    let closes = line.find("closed idle").expect("closes");
    for label in ["internal-error", "throttled", "server-busy", "bans "] {
        let f = line.find(label).unwrap_or_else(|| panic!("{label}: {line}"));
        assert!(f < closes, "`{label}` must precede the close reasons: {line}");
    }
}

#[test]
fn line_is_single_line() {
    assert!(!stratum_line(&distinct()).contains('\n'));
}

#[test]
fn prints_under_attack_with_no_conns() {
    assert!(
        !StratumCounts::default().worth_printing(),
        "an idle node stays quiet"
    );
    for c in [
        StratumCounts { bans: 1, ..Default::default() },
        StratumCounts { bad_json: 1, ..Default::default() },
        StratumCounts { saturated: 1, ..Default::default() },
        StratumCounts { internal_errors: 1, ..Default::default() },
    ] {
        assert!(
            c.worth_printing(),
            "zero connections and zero submissions is what a refused flood \
             looks like with nobody connected: {c:?}"
        );
    }
}

#[test]
fn heartbeat_reads_close_counters() {
    for (label, c) in [
        ("closed idle 1", StratumCounts { bans: 1, closed_idle: 1, ..Default::default() }),
        ("auth-timeout 1", StratumCounts { bans: 1, closed_auth_timeout: 1, ..Default::default() }),
        ("slow-client 1", StratumCounts { bans: 1, closed_slow_client: 1, ..Default::default() }),
        ("line-flood 1", StratumCounts { bans: 1, closed_line_flood: 1, ..Default::default() }),
        ("slice-revoked 1", StratumCounts { bans: 1, closed_slice_revoked: 1, ..Default::default() }),
    ] {
        let lines = beat(4, 2, &c);
        assert!(
            lines.iter().any(|l| l.text.contains(label)),
            "`{label}` is no longer read from the stratum metrics at the heartbeat: {lines:?}"
        );
    }
}

#[test]
fn v4_mapped_reads_as_v4() {
    let mut ip = [0u8; 16];
    ip[10] = 0xff;
    ip[11] = 0xff;
    ip[12..].copy_from_slice(&[127, 0, 0, 1]);
    assert_eq!(display_ip(&ip, "::ffff:7f00:1"), "127.0.0.1");
}

#[test]
fn v6_not_mangled() {
    let mut ip = [0u8; 16];
    ip[15] = 1;
    assert_eq!(display_ip(&ip, "::1"), "::1");
}

const REORG_CAP: u64 = 10;

fn stuck() -> NetCondition {
    NetCondition::HeaderRepairStuck {
        height: 414,
        why: "the chain does not hold the parent".to_string(),
        repeats: 3,
        our_tip: 424,
    }
}

#[test]
fn stuck_repair_reaches_health_cell() {
    assert_eq!(
        stamp_condition(&stuck(), REORG_CAP).repair,
        Some(TransportRepairStuck {
            height: 414,
            why: "the chain does not hold the parent".to_string(),
            repeats: 3,
            our_tip: 424,
        }),
        "a stuck-repair condition must reach the health cell that assess reads"
    );
}

#[test]
fn conditions_use_separate_cells() {
    let s = stamp_condition(
        &NetCondition::StrandedBeyondReorgCap { our_tip: 424, their_tip: 495, depth: 11 },
        REORG_CAP,
    );
    assert_eq!(
        s.stranded,
        Some(TransportStranded { our_tip: 424, their_tip: 495, depth: 11, cap: REORG_CAP }),
        "the stranded cell was not stamped"
    );
    assert_eq!(s.repair, None, "a stranding stamped the repair cell");
    let s = stamp_condition(&stuck(), REORG_CAP);
    assert!(s.repair.is_some(), "the repair cell was not stamped");
    assert_eq!(s.stranded, None);
}

#[test]
fn unrelated_condition_stamps_nothing() {
    for c in [NetCondition::Other, NetCondition::ForkBodiesWanted { applied: 1, missing: 2 }] {
        let s = stamp_condition(&c, REORG_CAP);
        assert_eq!(s.stranded, None, "an unrelated condition stamped the stranded cell");
        assert_eq!(s.repair, None, "an unrelated condition stamped the repair cell");
    }
}

#[test]
fn failed_anchor_write_is_promoted() {
    assert!(
        chain_condition_needs_an_operator(ChainCondition::AnchorNotPersisted),
        "a failed anchor write must be promoted, not left at debug"
    );
}

#[test]
fn promoted_conditions_stay_promoted() {
    assert!(chain_condition_needs_an_operator(ChainCondition::ReorgTooDeepRefused));
    assert!(chain_condition_needs_an_operator(ChainCondition::ResyncRequired));
    assert!(chain_condition_needs_an_operator(ChainCondition::AnchorContradiction));
    assert!(chain_condition_needs_an_operator(ChainCondition::StorageFatal));
}

#[test]
fn ordinary_conditions_stay_debug() {
    assert!(!chain_condition_needs_an_operator(ChainCondition::DeepReplay));
    assert!(!chain_condition_needs_an_operator(ChainCondition::ReorgOverlayExhausted));
    assert!(!chain_condition_needs_an_operator(ChainCondition::BranchInvalidAt));
}

fn addr(host: &str, port: u16) -> Addr {
    Addr { text: format!("{host}:{port}"), port, loopback: host == "127.0.0.1" }
}

fn cfg() -> Config {
    let facts = Facts {
        limit_nofile: 65_536,
        max_mempool_txs: 50_000,
        sunset_height: 2_103_840,
        seeds: vec!["seed.plaine.example:9256".to_string()],
        placeholder_seeds: Vec::new(),
        checkpoint_key: [0xC4; 32],
        checkpoint_placeholder: false,
        author_key: [0xA1; 32],
        author_placeholder: false,
        keys: Vec::new(),
        apart: Vec::new(),
        default_dir: "/d".to_string(),
        expanded_dir: "/d".to_string(),
        p2p: Some(addr("0.0.0.0", 9256)),
        stratum: Some(addr("127.0.0.1", 9258)),
        rpc: Some(addr("127.0.0.1", 9257)),
        bind_complaint: None,
    };
    defaults(&Overrides { network: Some(Network::Main), data_dir: None, log_level: None }, &facts)
}

#[test]
fn author_key_reaches_params() {
    let c = cfg();
    let p = chain_params(&c, 4, 8);
    assert_eq!(p.author_pubkey, c.author_pubkey);

    assert_eq!(p.network, Network::Main);
    assert_eq!(p.network, c.network);
    assert_ne!(p.author_pubkey, [0u8; 32], "the embedded default must be a real key");
    assert_eq!(p.authority_keys, c.checkpoints.keys());
    assert_eq!(p.checkpoint_threshold, c.checkpoint_threshold);
}

#[test]
fn single_peer_satisfies_invariants() {
    let mut c = cfg();
    c.max_peers = 1;
    let p = chain_params(&c, 2, 8);
    assert!(p.max_sources <= p.max_peers, "max_sources must be clamped to max_peers");
}

#[test]
fn default_peers_satisfy_invariants() {
    let p = chain_params(&cfg(), 2, 8);
    assert_eq!(p.max_peers, 128);
    assert_eq!(p.max_sources, 8);
}

#[test]
fn cpu_pool_clamped() {
    for cores in [None, Some(1), Some(4), Some(9), Some(256)] {
        let p = cpu_pool_threads(cores);
        assert!((2..=8).contains(&p), "P = clamp(cores/2, 2, 8), got {p}");
    }
    assert_eq!(cpu_pool_threads(Some(12)), 6);
}

fn told(host: &str, port: u16) -> String {
    let lines = stratum_listens(&addr(host, port), 4_096, 4, "15", "plne");
    lines.iter().map(|l| l.text.as_str()).collect::<Vec<_>>().join("\n")
}

#[test]
fn a_loopback_stratum_says_how_to_open_it() {
    let log = told("127.0.0.1", 20_553);
    assert!(log.contains("listening on 127.0.0.1:20553"), "{log}");
    assert!(
        log.contains("only miners on this machine can connect")
            && log.contains("listen = \"0.0.0.0:20553\""),
        "a loopback listener must say how to let other machines in:\n{log}"
    );
}

#[test]
fn an_open_stratum_gives_no_loopback_hint() {
    let log = told("0.0.0.0", 20_563);
    assert!(log.contains("listening on 0.0.0.0:20563"), "{log}");
    assert!(!log.contains("only miners on this machine"), "{log}");
}

#[test]
fn the_index_is_announced_at_startup() {
    let mut c = cfg();
    c.addrindex = true;
    let log = storage_line(&c, "~1 year");
    assert!(log.contains("addrindex on"), "the operator must see the index is on:\n{log}");
}

#[test]
fn a_node_without_seeds_dials_nobody() {
    let line = p2p_line("127.0.0.1:20401", 128, 0, 0, 0);
    assert!(
        line.contains(" 0 seed address(es) dialled"),
        "a test node with no seeds dialled the embedded mainnet seeds: {line}"
    );
}

#[test]
fn a_node_with_a_local_seed_dials_only_that() {
    let line = p2p_line("127.0.0.1:20411", 128, 1, 0, 0);
    assert!(
        line.contains(" 1 seed address(es) dialled"),
        "a test node given one local seed dialled something else as well: {line}"
    );
}

#[test]
fn a_busy_port_has_its_own_exit_code() {
    let e = StartError::Bind("address already in use".to_string());
    assert_eq!(e.text(), "address already in use");
    assert_eq!(e.exit_code(), EXIT_BUSY);
    assert_eq!(StartError::Genesis("x".to_string()).exit_code(), EXIT_CONFIG);
    assert_eq!(StartError::Pow("x".to_string()).exit_code(), EXIT_CONFIG);
    assert_eq!(StartError::Storage("x".to_string()).exit_code(), 1);
    let (said, code) = rpc_refused(true, "127.0.0.1:9257", "/d/chain", "");
    assert!(said.starts_with("127.0.0.1:9257 is already in use."), "{said}");
    assert_eq!(code, EXIT_BUSY);
    assert_eq!(rpc_refused(false, "", "", "denied"), ("denied".to_string(), EXIT_CONFIG));
    assert_eq!(StartError::Chain("x".to_string()).exit_code(), 1);
}

#[test]
fn the_first_block_decides_the_start() {
    let (a, b) = ([1; 32], [2; 32]);
    assert!(matches!(genesis_step(0, None, None), Genesis::Create));
    assert!(matches!(genesis_step(9, Some(a), Some(a)), Genesis::Load(h) if h == a));
    assert!(matches!(genesis_step(9, None, Some(a)), Genesis::Missing));
    assert!(matches!(
        genesis_step(9, Some(a), Some(b)),
        Genesis::Wrong { found, expected } if found == a && expected == b
    ));
}

#[test]
fn small_decisions_of_the_node() {
    assert!(may_save_peers(true, 0));
    assert!(may_save_peers(false, PEERS_SAVE_MS));
    assert!(!may_save_peers(false, PEERS_SAVE_MS - 1));
    assert_eq!(top_claim(&[3, 9, 4]), 9);
    assert_eq!(top_claim(&[]), 0);
    assert!(catching_up(10_000, 100, 3_600));
    assert!(!catching_up(10_000, 9_000, 3_600));
    assert_eq!(outbound_warning(3, 2), None);
    assert!(outbound_warning(3, 0).is_some(), "peers, but none that this node chose");
    assert!(syncing_line("424", 7).contains("424"));
    assert!(rpc_line("127.0.0.1:9257", true).contains("127.0.0.1:9257"));
    assert_eq!(census_line(&[]), None);
    let seen = census_line(&[("frames".to_string(), 3)]).unwrap();
    assert!(seen.contains("frames") && seen.contains('3'), "{seen}");
}

#[test]
fn a_wrong_table_stops_the_start() {
    let o = |table: TableCheck| Opened {
        truncated_to: None,
        unvouched: None,
        table,
        sweeps: None,
        census: Ok(Vec::new()),
        damaged: 0,
    };
    let (_, r) = opened(&o(TableCheck::Verified));
    assert!(r.is_ok());
    let (lines, r) = opened(&o(TableCheck::Mismatch("row 7".to_string())));
    assert!(matches!(r, Err(StartError::Storage(_))), "{r:?}");
    assert!(lines.iter().all(|l| l.mark != Mark::Debug), "{lines:?}");
}

#[test]
fn the_journal_says_what_was_found() {
    assert!(anchor(&Anchor::Absent).is_empty());
    let l = anchor(&Anchor::Loaded { height: 5_000, hash: "11ab".to_string() });
    assert!(l.iter().any(|l| l.text.contains("5000")), "{l:?}");
    assert!(created_line("main", "00ff").contains("00ff"));
    assert!(loaded_line("main", 77, "00ff").contains("77"));
    let l = restored(&Restored::Ignored { why: "bad magic".to_string(), detail: "peers.dat".to_string() });
    assert!(l.text.contains("bad magic"), "{l:?}");
    let c = StratumCounts { conns: 2, accepted: 3, submitted: 5, ..Default::default() };
    assert_eq!(stratum_line_brief(&c), "conns 2  shares 3 accepted  2 rejected  blocks 0");
}

#[test]
fn progress_is_no_fault() {
    let seen = |what: NetCondition| Seen { what, shown: "shown".to_string(), height: "1,424".to_string() };
    let fresh = [
        seen(NetCondition::ForkBodiesWanted { applied: 1_424, missing: 7 }),
        seen(NetCondition::Other),
    ];
    let marks: Vec<Mark> = conditions(0, &fresh).iter().map(|l| l.mark).collect();
    assert_eq!(marks, [Mark::Info, Mark::Debug, Mark::Warn]);
    assert_eq!(conditions(0, &fresh)[0].text, "syncing  height 1,424  7 block(s) to go");
    assert!(conditions(3, &[])[0].text.starts_with("3 conditions were evicted"));
    assert!(conditions(0, &[]).is_empty());
}

#[test]
fn a_sweep_without_a_verdict_is_no_news() {
    assert!(swept(true, &[], "all well").is_empty());
    let l = swept(false, &[], "not judged");
    assert_eq!((l.len(), l[0].mark), (1, Mark::Debug));
    let l = swept(false, &[(3, 77)], "report");
    assert_eq!((l.len(), l[0].mark), (1, Mark::Security));
    assert!(l[0].text.starts_with("L3-H: header segment 3 does not link at height 77."));
}

#[test]
fn what_a_node_says_of_itself() {
    let mut c = cfg();
    assert_eq!(stratum_connections(&c), c.stratum.max_connections);
    c.stratum.enforcement = false;
    assert_eq!(stratum_connections(&c), 0, "without enforcement nothing is capped");
    assert_eq!(stratum_setpoint(&c), None, "the budget decides");
    c.stratum.setpoint_secs = 15;
    assert_eq!(stratum_setpoint(&c), Some(15));
    assert_eq!(accept_bucket(&c), Some(50));
    c.stratum.caps.global_accept_per_sec = 0;
    assert_eq!(accept_bucket(&c), None);
    let said = checkpoint_line(&c, &[], "2,103,840");
    assert!(said.ends_with("config cannot extend it)"), "{said}");
    let s = CommitStats { blocks: 12, reorgs: 1, forced_seals: 2 };
    let said = sealed_line(3, &s);
    assert!(said.contains("3 unsealed block(s)") && said.contains("12 block(s)"), "{said}");
}

#[test]
fn what_the_engine_did_is_for_a_debugging_session() {
    let l = actions(2, &["Dial(1)".to_string(), "Drop(7)".to_string()]);
    assert!(l.iter().all(|l| l.mark == Mark::Debug && l.tag == "p2p"), "{l:?}");
    let texts: Vec<&str> = l.iter().map(|l| l.text.as_str()).collect();
    assert_eq!(texts, ["2 engine actions were evicted before they were read", "Dial(1)", "Drop(7)"]);
    assert!(actions(0, &[]).is_empty());
}

#[test]
fn a_node_without_seeds_says_so() {
    assert!(seeds_warning(false).is_empty());
    let l = seeds_warning(true);
    assert_eq!((l.len(), l[0].mark), (1, Mark::Warn));
    assert!(l[0].text.starts_with("No usable seeds."), "{l:?}");
}

#[test]
fn a_stop_says_what_it_stopped() {
    let all = Stopped {
        seeds: true,
        stratum: true,
        peers_saved: true,
        net: true,
        validator: true,
        unsealed: 3,
        flushed: Ok(CommitStats { blocks: 12, reorgs: 1, forced_seals: 2 }),
        io: true,
    };
    let l = stopped(&all);
    assert_eq!(l.len(), 7);
    assert_eq!(l[0].text, "seed bootstrap stopped");
    assert!(l[5].text.starts_with("storage sealed and fsynced: 3 unsealed"), "{l:?}");
    assert_eq!(l[6].text, "node-io runtime stopped");
    let failed = Stopped {
        seeds: false,
        stratum: false,
        peers_saved: false,
        net: false,
        validator: false,
        unsealed: 3,
        flushed: Err("disk full".to_string()),
        io: false,
    };
    let l = stopped(&failed);
    assert_eq!((l.len(), l[0].mark), (1, Mark::Error));
    assert_eq!(l[0].text, "final flush failed: disk full");
}

#[test]
fn a_default_file_is_no_condition_of_a_start() {
    let l = wrote_line(&Wrote::Written { file: "/d/noded.toml".to_string() });
    assert_eq!(l.mark, Mark::Info);
    assert!(l.text.contains("/d/noded.toml - every line in it is commented out"), "{l:?}");
    let l = wrote_line(&Wrote::Failed { file: "/d/noded.toml".to_string(), why: "denied".to_string() });
    assert_eq!(l.mark, Mark::Warn);
    assert_eq!(l.text, "could not write /d/noded.toml: denied (continuing with defaults)");
    let l = wrote_line(&Wrote::NoDirectory { dir: "/d".to_string(), why: "denied".to_string() });
    assert_eq!(l.text, "cannot create /d: denied");
}
