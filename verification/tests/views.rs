use plaine::miner::json::hex;
use plaine::node::answers::{
    checkpoint_submit, Asked, CheckpointOutcome, CheckpointReport, CheckpointSubmit, SyncStatus, TipView,
    Verdict,
};
use plaine::node::config::Network;
use plaine::node::history::TxLocation;
use plaine::node::journal::{anchor, Anchor};
use plaine::node::keys::{CheckpointPolicy, KeyFact, KeySource};
use plaine::node::views::{
    budgets, by_sender, checkpoint_link, checkpoint_status, info, peers, sessions, ChainInfo, CheckpointStatus, Counters,
    Keeping, PeerRow, Pending, Queue, SessionCard,
};

const SUNSET: u64 = 2_103_840;

fn chain(halted: Option<&str>, refreshed: Option<Verdict>) -> ChainInfo {
    let tip = TipView { height: 487, hash: [7; 32], time: 1_000, chainwork: [9; 32] };
    let keeping =
        Keeping { network: Network::Main, txindex: true, pruned: false, prune_horizon_height: 12 };
    info(&tip, 1_003, Some(490), halted, refreshed, &keeping, "0.3.1")
}

#[test]
fn info_serves_heartbeat_verdict() {
    let beat = Verdict { status: SyncStatus::Stalled, reason: Some("no peer has moved".to_string()) };
    let i = chain(None, Some(beat));
    assert_eq!(i.sync, SyncStatus::Stalled);
    assert!(i.stall_reason.unwrap_or_default().contains("no peer"));
}

#[test]
fn info_no_stall_refuted_by_height() {
    // The heartbeat latched a stall; a block came since, and what is known now
    // refutes it.
    let refreshed = Verdict { status: SyncStatus::Synced, reason: None };
    let i = chain(None, Some(refreshed));
    assert!(i.tip_age_secs < 600, "the tip is fresh, or this proves nothing");
    assert_ne!(
        i.sync,
        SyncStatus::Stalled,
        "live facts say a block arrived (height {}, tip {}s) but it answered {:?}: {:?}",
        i.height,
        i.tip_age_secs,
        i.sync,
        i.stall_reason
    );
    assert!(
        !i.stall_reason.clone().unwrap_or_default().contains("no new block for"),
        "and above all it must not print the sentence the rest of the reply refutes"
    );
    assert_eq!(i.stall_reason, None);
}

#[test]
fn halted_reported_first() {
    let synced = || Some(Verdict { status: SyncStatus::Synced, reason: None });
    assert_eq!(chain(None, synced()).sync, SyncStatus::Synced);
    let i = chain(Some("the store refused a write"), synced());
    assert_eq!(i.sync, SyncStatus::Stalled);
    assert!(i.stall_reason.unwrap_or_default().contains("halted"));
}

#[test]
fn info_starting_before_first_beat() {
    let i = chain(None, None);
    assert_eq!(i.sync, SyncStatus::Starting);
    assert_eq!(i.stall_reason, None);
}

#[test]
fn info_carries_the_tip() {
    let i = chain(None, None);
    assert_eq!(i.version, "plaine-noded/0.3.1");
    assert_eq!((i.height, i.tip_time, i.tip_age_secs), (487, 1_000, 3));
    assert_eq!((i.tip_hash, i.chainwork), ([7; 32], [9; 32]));
    assert_eq!(i.best_known_height, Some(490));
    assert!(i.txindex && !i.pruned);
    assert_eq!(i.prune_horizon_height, 12);
    assert_eq!(i.network, Network::Main);
}

fn status(height: u64) -> CheckpointStatus {
    let key = [3u8; 32];
    let facts = vec![KeyFact { key, valid: true, fingerprint: "0badf00d".to_string(), role: None }];
    checkpoint_status(&CheckpointPolicy::Configured { keys: vec![key] }, &facts, 1, SUNSET, height)
}

#[test]
fn sunset_countdown_follows_tip() {
    let s = status(0);
    assert_eq!(s.blocks_until_sunset, Some(SUNSET), "at height 0 the whole sunset is ahead");
    assert!(!s.sunset_passed);

    let s = status(1_000);
    assert_eq!(
        s.blocks_until_sunset,
        Some(SUNSET - 1_000),
        "the countdown must follow the tip, not a value captured at construction"
    );
    assert!(!s.sunset_passed);

    let s = status(SUNSET + 7);
    assert_eq!(s.blocks_until_sunset, Some(0), "saturating, never negative");
    assert!(s.sunset_passed, "the chain is past {SUNSET} and the node still reports the lever live");

    assert_eq!(s.sunset_height, SUNSET);
}

fn report(outcome: CheckpointOutcome, advanced: bool) -> Asked<CheckpointReport> {
    Asked::Answer(CheckpointReport {
        outcome,
        anchor_advanced: advanced,
        anchor_height: Some(5_000),
        enforced: 0,
    })
}

// What the node answers and says round a restart; that the anchor is on disk is
// the store's part.
#[test]
fn anchor_survives_hard_kill() {
    let s = status(0);
    assert_eq!(s.last_anchor, None, "a fresh node must hold no anchor");
    assert_eq!(s.key_source, KeySource::Config, "the key of the document must be the one in force");
    assert_eq!(checkpoint_link(None, &[]).last_anchor, None);

    let hash = [0x11u8; 32];
    assert_eq!(
        checkpoint_submit(true, report(CheckpointOutcome::Other, true)),
        CheckpointSubmit::Advanced { height: 5_000, enforced: 0, enforcing: false },
        "the node holds no block at 5000, so nothing may be enforced"
    );
    assert_eq!(checkpoint_link(Some((5_000, hash)), &[]).last_anchor, Some((5_000, hash)));

    let said = anchor(&Anchor::Loaded { height: 5_000, hash: hex(&hash) });
    assert!(said.iter().any(|l| l.text.contains("5000")), "{said:?}");
    assert!(said.iter().any(|l| l.text.contains(&hex(&hash)[..8])), "it names its block: {said:?}");
    assert_eq!(
        checkpoint_submit(true, report(CheckpointOutcome::Other, false)),
        CheckpointSubmit::Unchanged,
        "a replay claimed an advance"
    );
}

#[test]
fn wrong_key_record_refused() {
    assert_eq!(
        checkpoint_submit(true, report(CheckpointOutcome::Unverified, false)),
        CheckpointSubmit::Unverified
    );
    assert_eq!(checkpoint_link(None, &[]).last_anchor, None, "a refused record left an anchor");
    assert_eq!(
        checkpoint_submit(true, report(CheckpointOutcome::GenesisImmutable, false)),
        CheckpointSubmit::GenesisImmutable
    );
    assert_eq!(
        checkpoint_submit(true, report(CheckpointOutcome::Admitted, true)),
        CheckpointSubmit::Advanced { height: 5_000, enforced: 0, enforcing: true }
    );
}

#[test]
fn status_names_the_keys() {
    let s = status(5);
    assert!(s.enabled);
    assert_eq!(s.key_source, KeySource::Config);
    assert_eq!(s.key_fingerprints, ["0badf00d"]);
    assert_eq!((s.threshold, s.last_anchor, s.enforced_count), (1, None, 0));

    let off = checkpoint_status(&CheckpointPolicy::Disabled, &[], 1, SUNSET, 5);
    assert!(!off.enabled);
    assert!(off.key_fingerprints.is_empty());
    assert_eq!(off.key_source, KeySource::Embedded);
}

fn card(had_share: bool) -> SessionCard {
    SessionCard {
        worker: "pl1abc.rig".to_string(),
        address: "pl1abc".to_string(),
        rig: "rig".to_string(),
        ip: "10.0.0.2".to_string(),
        authorized: true,
        connected_ms: 2_000,
        had_share,
        last_share_ms: 9_500,
        accepted_shares: 4,
        accepted_difficulty: 4_096,
        difficulty: 1_024,
    }
}

#[test]
fn session_ages_share_one_instant() {
    let cards = [card(true), card(false)];
    let v = sessions(Some((12_600, &cards)));
    assert_eq!(v.len(), 2);
    assert_eq!((v[0].connected_secs, v[0].last_share_secs), (10, 3));
    assert_eq!((v[1].connected_secs, v[1].last_share_secs), (10, -1));
    assert_eq!((v[0].worker.as_str(), v[0].rig.as_str()), ("pl1abc.rig", "rig"));
    assert_eq!((v[0].accepted_shares, v[0].accepted_difficulty, v[0].difficulty), (4, 4_096, 1_024));
    // a stamp ahead of the clock is an age of nothing
    assert_eq!(sessions(Some((1_000, &cards)))[0].last_share_secs, 0);
    assert!(sessions(None).is_empty());
}

#[test]
fn peers_are_shown_by_their_own_address() {
    let mut ip = [0u8; 16];
    ip[10] = 0xff;
    ip[11] = 0xff;
    ip[12..].copy_from_slice(&[192, 0, 2, 7]);
    let row = PeerRow {
        id: 3,
        ip,
        v6: "::ffff:192.0.2.7".to_string(),
        outbound: true,
        connected_ms: 61_999,
        best_height: 480,
        bytes_recv: 10,
        bytes_sent: 20,
        misbehaviour: 1,
        user_agent: "plaine".to_string(),
    };
    let other = PeerRow { ip: [0x20; 16], v6: "2020::1".to_string(), ..row.clone() };
    let v = peers(&[row, other]);
    assert_eq!(v.len(), 2);
    assert_eq!(v[0].addr, "192.0.2.7");
    assert_eq!(v[1].addr, "2020::1");
    assert_eq!((v[0].id, v[0].connected_secs, v[0].best_height), (3, 61, 480));
    assert_eq!((v[0].bytes_recv, v[0].bytes_sent, v[0].misbehaviour), (10, 20, 1));
    assert!(v[0].outbound);
    assert_eq!(v[0].user_agent, "plaine");
}

#[test]
fn unreadable_transactions_are_left_out() {
    let all = [
        Pending { raw: vec![1], read: Some(([1; 32], 2)) },
        Pending { raw: vec![2], read: None },
        Pending { raw: vec![3, 4], read: Some(([3; 32], 5)) },
    ];
    let v = by_sender(&all);
    assert_eq!(v.len(), 2);
    assert_eq!((v[0].txid, v[0].type_byte, v[0].raw.clone()), ([1; 32], 2, vec![1]));
    assert_eq!((v[1].txid, v[1].type_byte, v[1].raw.clone()), ([3; 32], 5, vec![3, 4]));
    assert_eq!(v[0].location, TxLocation::Mempool);
}

#[test]
fn budgets_of_a_silent_validator_are_zeros() {
    let queue = Queue { bytes: 5, bytes_cap: 6, items: 7, items_cap: 8, refused: 9 };
    let b = budgets(None, &queue, 4, 3, Some(4_096));
    assert_eq!((b.pow_verifies_total, b.pow_cache_hit_pct, b.chain_events_total), (0, 0, 0));
    assert_eq!((b.validator_queue_bytes, b.validator_queue_bytes_cap), (5, 6));
    assert_eq!((b.validator_queue_items, b.validator_queue_items_cap, b.rpc_rejected_busy), (7, 8, 9));
    assert_eq!((b.cpu_pool_threads, b.stratum_shares_per_sec, b.rss_bytes), (4, 3, Some(4_096)));

    let counters = Counters {
        pow_calls: 30,
        pow_cache_hits: 10,
        headers_connected: 3,
        bodies_validated: 2,
        reorgs: 1,
        sources: 11,
        sources_cap: 12,
        body_already_held: 13,
        body_not_admissible: 14,
    };
    let b = budgets(Some(counters), &queue, 4, 3, None);
    assert_eq!((b.pow_verifies_total, b.pow_cache_hit_pct, b.chain_events_total), (30, 25, 6));
    assert_eq!((b.mempool_sources, b.mempool_sources_cap), (11, 12));
    assert_eq!((b.body_rejects_already_held, b.body_rejects_not_admissible), (13, 14));
    assert_eq!(b.rss_bytes, None);
}
