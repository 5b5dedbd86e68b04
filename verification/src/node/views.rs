//! The records that the RPC surface hands out of the node's own state.

use vstd::prelude::*;
use crate::node::answers;
use crate::node::answers::{cache_hit_pct, countdown, served_verdict, session_age, tip_age, SyncStatus, TipView, Verdict};
use crate::node::boot;
use crate::node::boot::display_ip;
use crate::node::config::Network;
use crate::node::history::{TxLocation, TxRecord};
use crate::node::keys;
use crate::node::keys::{CheckpointPolicy, KeyFact, KeySource};
use crate::node::settings;
use crate::text::copy_bytes;

verus! {

// ---------------------------------------------------------------------------
// The chain

/// What the node says of its chain.
#[derive(Clone, Debug)]
pub struct ChainInfo {
    pub network: Network,
    pub version: String,
    pub height: u64,
    pub tip_hash: [u8; 32],
    pub chainwork: [u8; 32],
    pub tip_time: u64,
    pub tip_age_secs: u64,
    pub sync: SyncStatus,
    pub best_known_height: Option<u64>,
    pub stall_reason: Option<String>,
    pub txindex: bool,
    pub pruned: bool,
    pub prune_horizon_height: u64,
}

/// How a node keeps its chain.
#[derive(Clone, Copy, Debug, PartialEq, Eq, Structural)]
pub struct Keeping {
    pub network: Network,
    pub txindex: bool,
    pub pruned: bool,
    pub prune_horizon_height: u64,
}

/// The state of the chain whose tip is `tip` at the time `now`. A halt of the
/// validator is a stall. Else the verdict is that of the last heartbeat,
/// `refreshed` by what is known now.
pub fn info(
    tip: &TipView,
    now: u64,
    best_known_height: Option<u64>,
    halted: Option<&str>,
    refreshed: Option<Verdict>,
    keeping: &Keeping,
    version: &str,
) -> (i: ChainInfo)
    ensures
        i.network == keeping.network,
        i.version@ == "plaine-noded/"@ + version@,
        i.height == tip.height,
        i.tip_hash == tip.hash,
        i.chainwork == tip.chainwork,
        i.tip_time == tip.time,
        i.tip_age_secs == answers::elapsed(now, tip.time),
        match halted {
            Some(h) => i.sync == SyncStatus::Stalled && answers::reason_view(i.stall_reason)
                == Some("the validator has halted: "@ + h@),
            None => match refreshed {
                Some(v) => i.sync == v.status && i.stall_reason == v.reason,
                None => i.sync == SyncStatus::Starting && i.stall_reason is None,
            },
        },
        i.best_known_height == best_known_height,
        i.txindex == keeping.txindex,
        i.pruned == keeping.pruned,
        i.prune_horizon_height == keeping.prune_horizon_height,
{
    let mut name = "plaine-noded/".to_owned();
    name.append(version);
    let v = served_verdict(halted, refreshed);
    ChainInfo {
        network: keeping.network,
        version: name,
        height: tip.height,
        tip_hash: tip.hash,
        chainwork: tip.chainwork,
        tip_time: tip.time,
        tip_age_secs: tip_age(now, tip.time),
        sync: v.status,
        best_known_height,
        stall_reason: v.reason,
        txindex: keeping.txindex,
        pruned: keeping.pruned,
        prune_horizon_height: keeping.prune_horizon_height,
    }
}

// ---------------------------------------------------------------------------
// Miners

/// What the stratum server keeps of a miner, with times on its own clock.
#[derive(Clone, Debug)]
pub struct SessionCard {
    pub worker: String,
    pub address: String,
    pub rig: String,
    pub ip: String,
    pub authorized: bool,
    pub connected_ms: u64,
    pub had_share: bool,
    pub last_share_ms: u64,
    pub accepted_shares: u64,
    pub accepted_difficulty: u128,
    pub difficulty: u64,
}

/// A miner as it is reported, with ages in seconds. A miner without a share yet
/// has the age -1 of its last one.
#[derive(Clone, Debug)]
pub struct StratumSession {
    pub worker: String,
    pub address: String,
    pub rig: String,
    pub ip: String,
    pub authorized: bool,
    pub connected_secs: u64,
    pub last_share_secs: i64,
    pub accepted_shares: u64,
    pub accepted_difficulty: u128,
    pub difficulty: u64,
}

/// Whether `s` reports the miner of `c` at the time `now`.
pub open spec fn reports(s: StratumSession, c: SessionCard, now: u64) -> bool {
    &&& s.worker@ == c.worker@
    &&& s.address@ == c.address@
    &&& s.rig@ == c.rig@
    &&& s.ip@ == c.ip@
    &&& s.authorized == c.authorized
    &&& s.connected_secs == answers::elapsed(now, c.connected_ms) / 1000
    &&& s.last_share_secs == (if c.had_share {
        answers::elapsed(now, c.last_share_ms) / 1000
    } else {
        -1
    })
    &&& s.accepted_shares == c.accepted_shares
    &&& s.accepted_difficulty == c.accepted_difficulty
    &&& s.difficulty == c.difficulty
}

/// The miners at work, every age measured against the same instant. A node
/// without a stratum server has none.
pub fn sessions(server: Option<(u64, &[SessionCard])>) -> (v: Vec<StratumSession>)
    ensures
        match server {
            None => v@.len() == 0,
            Some((now, cards)) => v@.len() == cards@.len() && forall|i: int|
                0 <= i < v@.len() ==> reports(#[trigger] v@[i], cards@[i], now),
        },
{
    let mut v: Vec<StratumSession> = Vec::new();
    if let Some((now, cards)) = server {
        let mut i: usize = 0;
        while i < cards.len()
            invariant
                i <= cards@.len(),
                v@.len() == i,
                forall|k: int| 0 <= k < i ==> reports(#[trigger] v@[k], cards@[k], now),
            decreases cards@.len() - i,
        {
            let c = &cards[i];
            let last = if c.had_share {
                Some(c.last_share_ms)
            } else {
                None
            };
            let age = session_age(now, c.connected_ms, last);
            v.push(
                StratumSession {
                    worker: c.worker.as_str().to_owned(),
                    address: c.address.as_str().to_owned(),
                    rig: c.rig.as_str().to_owned(),
                    ip: c.ip.as_str().to_owned(),
                    authorized: c.authorized,
                    connected_secs: age.connected_secs,
                    last_share_secs: age.last_share_secs,
                    accepted_shares: c.accepted_shares,
                    accepted_difficulty: c.accepted_difficulty,
                    difficulty: c.difficulty,
                },
            );
            i += 1;
        }
    }
    v
}

// ---------------------------------------------------------------------------
// Peers

/// What the network keeps of a peer. `v6` is the text of `ip` as an address of
/// version six.
#[derive(Clone, Debug)]
pub struct PeerRow {
    pub id: u64,
    pub ip: [u8; 16],
    pub v6: String,
    pub outbound: bool,
    pub connected_ms: u64,
    pub best_height: u64,
    pub bytes_recv: u64,
    pub bytes_sent: u64,
    pub misbehaviour: u32,
    pub user_agent: String,
}

/// A peer as it is reported.
#[derive(Clone, Debug)]
pub struct PeerInfo {
    pub id: u64,
    pub addr: String,
    pub outbound: bool,
    pub connected_secs: u64,
    pub best_height: u64,
    pub bytes_recv: u64,
    pub bytes_sent: u64,
    pub misbehaviour: u32,
    pub user_agent: String,
}

/// Whether `p` reports the peer of `r`.
pub open spec fn presents(p: PeerInfo, r: PeerRow) -> bool {
    &&& p.id == r.id
    &&& p.addr@ == boot::shown_ip(r.ip@, r.v6@)
    &&& p.outbound == r.outbound
    &&& p.connected_secs == r.connected_ms / 1000
    &&& p.best_height == r.best_height
    &&& p.bytes_recv == r.bytes_recv
    &&& p.bytes_sent == r.bytes_sent
    &&& p.misbehaviour == r.misbehaviour
    &&& p.user_agent@ == r.user_agent@
}

/// The peers, in the order of their rows.
pub fn peers(rows: &[PeerRow]) -> (v: Vec<PeerInfo>)
    ensures
        v@.len() == rows@.len(),
        forall|i: int| 0 <= i < v@.len() ==> presents(#[trigger] v@[i], rows@[i]),
{
    let mut v: Vec<PeerInfo> = Vec::new();
    let mut i: usize = 0;
    while i < rows.len()
        invariant
            i <= rows@.len(),
            v@.len() == i,
            forall|k: int| 0 <= k < i ==> presents(#[trigger] v@[k], rows@[k]),
        decreases rows@.len() - i,
    {
        let r = &rows[i];
        v.push(
            PeerInfo {
                id: r.id,
                addr: display_ip(&r.ip, r.v6.as_str()),
                outbound: r.outbound,
                connected_secs: r.connected_ms / 1000,
                best_height: r.best_height,
                bytes_recv: r.bytes_recv,
                bytes_sent: r.bytes_sent,
                misbehaviour: r.misbehaviour,
                user_agent: r.user_agent.as_str().to_owned(),
            },
        );
        i += 1;
    }
    v
}

// ---------------------------------------------------------------------------
// Transactions of a sender

/// A transaction of the mempool: its bytes, and its id and kind where they can
/// be read.
#[derive(Clone, Debug)]
pub struct Pending {
    pub raw: Vec<u8>,
    pub read: Option<([u8; 32], u8)>,
}

/// Those that can be read, in order.
pub open spec fn readable(all: Seq<Pending>) -> Seq<Pending>
    decreases all.len(),
{
    if all.len() == 0 {
        Seq::empty()
    } else if all.last().read is Some {
        readable(all.drop_last()).push(all.last())
    } else {
        readable(all.drop_last())
    }
}

/// Whether `r` records the waiting transaction `p`.
pub open spec fn records(r: TxRecord, p: Pending) -> bool {
    &&& p.read == Some((r.txid, r.type_byte))
    &&& r.raw@ == p.raw@
    &&& r.location == TxLocation::Mempool
}

/// The waiting transactions of a sender. One that cannot be read is left out.
pub fn by_sender(all: &[Pending]) -> (v: Vec<TxRecord>)
    ensures
        v@.len() == readable(all@).len(),
        forall|i: int| 0 <= i < v@.len() ==> records(#[trigger] v@[i], readable(all@)[i]),
{
    let mut v: Vec<TxRecord> = Vec::new();
    let mut i: usize = 0;
    while i < all.len()
        invariant
            i <= all@.len(),
            v@.len() == readable(all@.take(i as int)).len(),
            forall|k: int|
                0 <= k < v@.len() ==> records(#[trigger] v@[k], readable(all@.take(i as int))[k]),
        decreases all@.len() - i,
    {
        assert(all@.take(i as int + 1).drop_last() =~= all@.take(i as int));
        assert(all@.take(i as int + 1).last() == all@[i as int]);
        if let Some((txid, type_byte)) = all[i].read {
            let raw = copy_bytes(&all[i].raw);
            v.push(TxRecord { txid, type_byte, raw, location: TxLocation::Mempool });
        }
        i += 1;
    }
    assert(all@.take(i as int) =~= all@);
    v
}

// ---------------------------------------------------------------------------
// Checkpoints

/// What the node says of its checkpoints. The anchor and the count are those of
/// a node that has just started; the link to the validator gives the live ones.
#[derive(Clone, Debug)]
pub struct CheckpointStatus {
    pub enabled: bool,
    pub key_source: KeySource,
    pub key_fingerprints: Vec<String>,
    pub threshold: u64,
    pub last_anchor: Option<(u64, [u8; 32])>,
    pub enforced_count: usize,
    pub sunset_height: u64,
    pub blocks_until_sunset: Option<u64>,
    pub sunset_passed: bool,
}

/// The state of the checkpoints under `policy`, with the countdown from the
/// height that the chain has now.
pub fn checkpoint_status(
    policy: &CheckpointPolicy,
    facts: &[KeyFact],
    threshold: u64,
    sunset: u64,
    height: u64,
) -> (s: CheckpointStatus)
    ensures
        s.enabled == !(policy@ is Disabled),
        s.key_source == (if policy@ is Configured {
            KeySource::Config
        } else {
            KeySource::Embedded
        }),
        settings::strings(s.key_fingerprints@) == keys::fingerprints(
            facts@,
            keys::keys_in_force(policy@),
        ),
        s.threshold == threshold,
        s.last_anchor is None,
        s.enforced_count == 0,
        s.sunset_height == sunset,
        s.blocks_until_sunset matches Some(b) && b == answers::elapsed(sunset, height),
        s.sunset_passed == (height >= sunset),
{
    let c = countdown(sunset, height);
    CheckpointStatus {
        enabled: policy.is_enabled(),
        key_source: policy.source(),
        key_fingerprints: policy.fingerprints(facts),
        threshold,
        last_anchor: None,
        enforced_count: 0,
        sunset_height: c.sunset_height,
        blocks_until_sunset: Some(c.blocks_until_sunset),
        sunset_passed: c.sunset_passed,
    }
}

/// The live link to the validator's checkpoints: the last anchor, as its height
/// and its hash, and how many checkpoints are enforced.
#[derive(Clone, Copy, Debug)]
pub struct CheckpointLink {
    pub last_anchor: Option<(u64, [u8; 32])>,
    pub enforced: usize,
}

/// The link as it is now.
pub fn checkpoint_link(anchor: Option<(u64, [u8; 32])>, enforced: &[u64]) -> (l: CheckpointLink)
    ensures
        l.last_anchor == anchor,
        l.enforced == enforced@.len(),
{
    CheckpointLink { last_anchor: anchor, enforced: enforced.len() }
}

// ---------------------------------------------------------------------------
// Budgets

/// What the validator counts.
#[derive(Clone, Copy, Debug, PartialEq, Eq, Structural)]
pub struct Counters {
    pub pow_calls: u64,
    pub pow_cache_hits: u64,
    pub headers_connected: u64,
    pub bodies_validated: u64,
    pub reorgs: u64,
    pub sources: usize,
    pub sources_cap: usize,
    pub body_already_held: u64,
    pub body_not_admissible: u64,
}

/// The counters of a validator that gave none.
pub open spec fn no_counts() -> Counters {
    Counters {
        pow_calls: 0,
        pow_cache_hits: 0,
        headers_connected: 0,
        bodies_validated: 0,
        reorgs: 0,
        sources: 0,
        sources_cap: 0,
        body_already_held: 0,
        body_not_admissible: 0,
    }
}

/// The counters that count: the validator's, or zeros where it did not answer.
pub open spec fn counted(answer: Option<Counters>) -> Counters {
    match answer {
        Some(c) => c,
        None => no_counts(),
    }
}

/// The queue into the validator, and what was turned away at it.
#[derive(Clone, Copy, Debug, PartialEq, Eq, Structural)]
pub struct Queue {
    pub bytes: u64,
    pub bytes_cap: u64,
    pub items: usize,
    pub items_cap: usize,
    pub refused: u64,
}

/// What the node uses of what it has.
#[derive(Clone, Copy, Debug, PartialEq, Eq, Structural)]
pub struct Budgets {
    pub cpu_pool_threads: usize,
    pub pow_verifies_total: u64,
    pub pow_cache_hit_pct: u32,
    pub stratum_shares_per_sec: u64,
    pub validator_queue_bytes: u64,
    pub validator_queue_bytes_cap: u64,
    pub validator_queue_items: usize,
    pub validator_queue_items_cap: usize,
    pub chain_events_total: u64,
    pub mempool_sources: usize,
    pub mempool_sources_cap: usize,
    pub rpc_rejected_busy: u64,
    pub rss_bytes: Option<u64>,
    pub body_rejects_already_held: u64,
    pub body_rejects_not_admissible: u64,
}

/// How many headers, bodies and reorganisations the chain has seen.
pub open spec fn events(c: Counters) -> int {
    c.headers_connected + c.bodies_validated + c.reorgs
}

/// The share of the proofs of work that the cache answered, in whole percent.
pub open spec fn hit_pct(calls: int, hits: int) -> int {
    if calls + hits == 0 {
        0
    } else {
        hits * 100 / (calls + hits)
    }
}

/// The budgets of a node whose validator gave `answer`.
pub fn budgets(
    answer: Option<Counters>,
    queue: &Queue,
    cpu_pool_threads: usize,
    shares_per_sec: u64,
    rss_bytes: Option<u64>,
) -> (b: Budgets)
    requires
        events(counted(answer)) <= u64::MAX,
    ensures
        b == (Budgets {
            cpu_pool_threads,
            pow_verifies_total: counted(answer).pow_calls,
            pow_cache_hit_pct: hit_pct(
                counted(answer).pow_calls as int,
                counted(answer).pow_cache_hits as int,
            ) as u32,
            stratum_shares_per_sec: shares_per_sec,
            validator_queue_bytes: queue.bytes,
            validator_queue_bytes_cap: queue.bytes_cap,
            validator_queue_items: queue.items,
            validator_queue_items_cap: queue.items_cap,
            chain_events_total: events(counted(answer)) as u64,
            mempool_sources: counted(answer).sources,
            mempool_sources_cap: counted(answer).sources_cap,
            rpc_rejected_busy: queue.refused,
            rss_bytes,
            body_rejects_already_held: counted(answer).body_already_held,
            body_rejects_not_admissible: counted(answer).body_not_admissible,
        }),
        b.pow_cache_hit_pct <= 100,
{
    let c = match answer {
        Some(c) => c,
        None => Counters {
            pow_calls: 0,
            pow_cache_hits: 0,
            headers_connected: 0,
            bodies_validated: 0,
            reorgs: 0,
            sources: 0,
            sources_cap: 0,
            body_already_held: 0,
            body_not_admissible: 0,
        },
    };
    Budgets {
        cpu_pool_threads,
        pow_verifies_total: c.pow_calls,
        pow_cache_hit_pct: cache_hit_pct(c.pow_calls, c.pow_cache_hits),
        stratum_shares_per_sec: shares_per_sec,
        validator_queue_bytes: queue.bytes,
        validator_queue_bytes_cap: queue.bytes_cap,
        validator_queue_items: queue.items,
        validator_queue_items_cap: queue.items_cap,
        chain_events_total: c.headers_connected + c.bodies_validated + c.reorgs,
        mempool_sources: c.sources,
        mempool_sources_cap: c.sources_cap,
        rpc_rejected_busy: queue.refused,
        rss_bytes,
        body_rejects_already_held: c.body_already_held,
        body_rejects_not_admissible: c.body_not_admissible,
    }
}

// ---------------------------------------------------------------------------
// What the records keep

/// The state of the chain is that of its tip, as old as the tip is, and a halt is
/// a stall whatever else is known.
pub proof fn law_the_chain_shows_its_tip(
    tip: &TipView,
    now: u64,
    best: Option<u64>,
    halted: Option<&str>,
    refreshed: Option<Verdict>,
    keeping: &Keeping,
    version: &str,
    i: ChainInfo,
)
    requires
        call_ensures(info, (tip, now, best, halted, refreshed, keeping, version), i),
    ensures
        i.height == tip.height && i.tip_hash == tip.hash && i.chainwork == tip.chainwork
            && i.tip_time == tip.time,
        tip.time <= now ==> i.tip_time + i.tip_age_secs == now,
        tip.time > now ==> i.tip_age_secs == 0,
        halted is Some ==> i.sync == SyncStatus::Stalled && i.stall_reason is Some,
        halted is None ==> (refreshed matches Some(v) ==> i.sync == v.status && i.stall_reason
            == v.reason),
        i.best_known_height == best,
        i.network == keeping.network && i.txindex == keeping.txindex && i.pruned == keeping.pruned
            && i.prune_horizon_height == keeping.prune_horizon_height,
{
}

/// Every miner is reported, in the order of the server, under its own names and
/// with its own figures, as old as it is in whole seconds.
pub proof fn law_every_miner_is_reported(
    now: u64,
    cards: &[SessionCard],
    v: Vec<StratumSession>,
    i: int,
)
    requires
        call_ensures(sessions, (Some((now, cards)),), v),
        0 <= i < cards@.len(),
    ensures
        v@.len() == cards@.len(),
        ({
            let s = v@[i];
            let c = cards@[i];
            &&& s.worker@ == c.worker@ && s.address@ == c.address@ && s.rig@ == c.rig@ && s.ip@
                == c.ip@ && s.authorized == c.authorized
            &&& s.accepted_shares == c.accepted_shares && s.accepted_difficulty
                == c.accepted_difficulty && s.difficulty == c.difficulty
            &&& c.connected_ms <= now ==> c.connected_ms + 1000 * s.connected_secs <= now
                < c.connected_ms + 1000 * (s.connected_secs + 1)
            &&& !c.had_share ==> s.last_share_secs == -1
            &&& c.had_share && c.last_share_ms <= now ==> c.last_share_ms + 1000
                * s.last_share_secs <= now < c.last_share_ms + 1000 * (s.last_share_secs + 1)
        }),
{
    assert(reports(v@[i], cards@[i], now));
}

/// Every peer is reported, in the order of the rows, with its own figures and for
/// as long as it has been connected, in whole seconds.
pub proof fn law_every_peer_is_reported(rows: &[PeerRow], v: Vec<PeerInfo>, i: int)
    requires
        call_ensures(peers, (rows,), v),
        0 <= i < rows@.len(),
    ensures
        v@.len() == rows@.len(),
        ({
            let p = v@[i];
            let r = rows@[i];
            &&& p.id == r.id && p.outbound == r.outbound && p.best_height == r.best_height
            &&& p.bytes_recv == r.bytes_recv && p.bytes_sent == r.bytes_sent && p.misbehaviour
                == r.misbehaviour && p.user_agent@ == r.user_agent@
            &&& 1000 * p.connected_secs <= r.connected_ms < 1000 * (p.connected_secs + 1)
        }),
{
    assert(presents(v@[i], rows@[i]));
}

/// A waiting transaction is shown exactly where it can be read, in its order.
pub proof fn law_readable_transactions_are_shown(all: Seq<Pending>, p: Pending)
    ensures
        readable(Seq::empty()).len() == 0,
        p.read is Some ==> readable(all.push(p)) == readable(all).push(p),
        p.read is None ==> readable(all.push(p)) == readable(all),
{
    assert(all.push(p).drop_last() =~= all);
}

/// Each record of a waiting transaction has its id, its kind and its bytes, and
/// stands in the mempool.
pub proof fn law_a_waiting_transaction_is_in_the_mempool(all: &[Pending], v: Vec<TxRecord>, i: int)
    requires
        call_ensures(by_sender, (all,), v),
        0 <= i < v@.len(),
    ensures
        v@.len() == readable(all@).len(),
        v@[i].raw@ == readable(all@)[i].raw@,
        readable(all@)[i].read == Some((v@[i].txid, v@[i].type_byte)),
        v@[i].location == TxLocation::Mempool,
{
    assert(records(v@[i], readable(all@)[i]));
}

/// Checkpoints are on unless they are switched off, with the keys in force, and
/// the blocks until the sunset lead from the height to it.
pub proof fn law_checkpoints_show_their_countdown(
    policy: &CheckpointPolicy,
    facts: &[KeyFact],
    threshold: u64,
    sunset: u64,
    height: u64,
    s: CheckpointStatus,
)
    requires
        call_ensures(checkpoint_status, (policy, facts, threshold, sunset, height), s),
    ensures
        s.enabled <==> !(policy@ is Disabled),
        s.key_source == KeySource::Config <==> policy@ is Configured,
        s.key_fingerprints@.len() == keys::keys_in_force(policy@).len(),
        s.threshold == threshold,
        s.sunset_height == sunset,
        height <= sunset ==> (s.blocks_until_sunset matches Some(b) && height + b == sunset),
        height > sunset ==> s.blocks_until_sunset == Some(0u64),
        s.sunset_passed <==> height >= sunset,
{
    assert(settings::strings(s.key_fingerprints@).len() == s.key_fingerprints@.len());
}

/// The budgets show each counter of the validator and of its queue under its own
/// name, the events added up, and zeros where the validator gave none.
pub proof fn law_budgets_show_their_counters(
    answer: Option<Counters>,
    queue: &Queue,
    threads: usize,
    shares: u64,
    rss: Option<u64>,
    b: Budgets,
)
    requires
        events(counted(answer)) <= u64::MAX,
        call_ensures(budgets, (answer, queue, threads, shares, rss), b),
    ensures
        answer matches Some(c) ==> b.pow_verifies_total == c.pow_calls && b.chain_events_total
            == c.headers_connected + c.bodies_validated + c.reorgs && b.mempool_sources == c.sources
            && b.mempool_sources_cap == c.sources_cap && b.body_rejects_already_held
            == c.body_already_held && b.body_rejects_not_admissible == c.body_not_admissible,
        answer matches Some(c) ==> (c.pow_calls + c.pow_cache_hits > 0 ==> b.pow_cache_hit_pct * (
        c.pow_calls + c.pow_cache_hits) <= 100 * c.pow_cache_hits < (b.pow_cache_hit_pct + 1) * (
        c.pow_calls + c.pow_cache_hits)),
        answer is None ==> b.pow_verifies_total == 0 && b.chain_events_total == 0
            && b.pow_cache_hit_pct == 0 && b.mempool_sources == 0,
        b.validator_queue_bytes == queue.bytes && b.validator_queue_bytes_cap == queue.bytes_cap
            && b.validator_queue_items == queue.items && b.validator_queue_items_cap
            == queue.items_cap && b.rpc_rejected_busy == queue.refused,
        b.cpu_pool_threads == threads && b.stratum_shares_per_sec == shares && b.rss_bytes == rss,
{
    match answer {
        Some(c) => {
            let n = c.pow_calls + c.pow_cache_hits;
            let h = c.pow_cache_hits as int;
            if n > 0 {
                let q = h * 100 / n;
                vstd::arithmetic::div_mod::lemma_fundamental_div_mod(h * 100, n);
                assert(0 <= q <= 100) by (nonlinear_arith)
                    requires
                        q == h * 100 / n,
                        0 <= h <= n,
                        n > 0,
                ;
                assert(b.pow_cache_hit_pct == q);
                assert(n * q == q * n && (q + 1) * n == q * n + n) by (nonlinear_arith);
            }
        },
        None => {},
    }
}

} // verus!
