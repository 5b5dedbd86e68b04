//! What a node decides while it starts, runs and stops, and what it says of
//! it.

use vstd::prelude::*;
use crate::node::config;
use crate::node::config::{defaults, load, Config, Facts, Network, Overrides};
use crate::node::keys;
use crate::node::keys::{same_key, KeyFact, KeySource};
use crate::node::toml;
use crate::node::toml::{Diagnostic, Document};
use crate::text;
use crate::text::{push_dec, push_hex_pad};

verus! {

// ---------------------------------------------------------------------------
// Errors and exit codes

/// The exit code of a node whose configuration is wrong: it is not worth
/// starting again as it is.
pub const EXIT_CONFIG: u8 = 2;

/// The exit code of a node whose port is taken: it may be free later.
pub const EXIT_BUSY: u8 = 3;

/// Why a node could not start.
#[derive(Clone, Debug)]
pub enum StartError {
    Storage(String),
    Genesis(String),
    Chain(String),
    Pow(String),
    Bind(String),
}

pub open spec fn start_text(e: StartError) -> Seq<char> {
    match e {
        StartError::Storage(m) => m@,
        StartError::Genesis(m) => m@,
        StartError::Chain(m) => m@,
        StartError::Pow(m) => m@,
        StartError::Bind(m) => m@,
    }
}

impl StartError {
    /// The error in words.
    pub fn text(&self) -> (t: String)
        ensures
            t@ == start_text(*self),
    {
        match self {
            StartError::Storage(m) => m.as_str().to_owned(),
            StartError::Genesis(m) => m.as_str().to_owned(),
            StartError::Chain(m) => m.as_str().to_owned(),
            StartError::Pow(m) => m.as_str().to_owned(),
            StartError::Bind(m) => m.as_str().to_owned(),
        }
    }

    /// The exit code that tells an init system what to do.
    pub fn exit_code(&self) -> (c: u8)
        ensures
            c == (match self {
                StartError::Bind(_) => EXIT_BUSY,
                StartError::Genesis(_) => EXIT_CONFIG,
                StartError::Pow(_) => EXIT_CONFIG,
                _ => 1u8,
            }),
    {
        match self {
            StartError::Bind(_) => EXIT_BUSY,
            StartError::Genesis(_) => EXIT_CONFIG,
            StartError::Pow(_) => EXIT_CONFIG,
            _ => 1,
        }
    }
}

// ---------------------------------------------------------------------------
// Threads and chain parameters

/// How many threads check shares: half the cores, two at least and eight at
/// most. A machine whose cores are not known counts as one of two.
pub fn cpu_pool_threads(cores: Option<usize>) -> (n: usize)
    ensures
        2 <= n <= 8,
        ({
            let half = (match cores {
                Some(c) => c,
                None => 2,
            }) / 2;
            n == (if half < 2 {
                2
            } else if half > 8 {
                8
            } else {
                half
            })
        }),
{
    let cores: usize = match cores {
        Some(c) => c,
        None => 2,
    };
    let half: usize = cores / 2;
    if half < 2 {
        2
    } else if half > 8 {
        8
    } else {
        half
    }
}

/// What the chain is told of the configuration.
#[derive(Clone, Debug)]
pub struct ChainParams {
    pub network: Network,
    pub author_pubkey: [u8; 32],
    pub authority_keys: Vec<[u8; 32]>,
    pub checkpoint_threshold: u64,
    pub max_peers: u64,
    pub max_sources: u64,
    pub cpu_pool_threads: usize,
    pub mempool_max_txs: u64,
    pub relay_fee_floor: u64,
}

/// What the chain is told of the configuration. `sources` is how many peers it
/// would sync from by itself: never more than there may be peers.
pub fn chain_params(cfg: &Config, threads: usize, sources: u64) -> (p: ChainParams)
    ensures
        p.network == cfg.network,
        p.author_pubkey == cfg.author_pubkey,
        keys::key_views(p.authority_keys@) == keys::keys_in_force(cfg.checkpoints@),
        p.checkpoint_threshold == cfg.checkpoint_threshold,
        p.max_peers == (if cfg.max_peers == 0 {
            1
        } else {
            cfg.max_peers
        }),
        p.max_sources == (if sources <= p.max_peers {
            sources
        } else {
            p.max_peers
        }),
        p.max_sources <= p.max_peers,
        p.cpu_pool_threads == threads,
        p.mempool_max_txs == cfg.mempool_max_txs,
        p.relay_fee_floor == cfg.relay_fee_mile,
{
    let max_peers: u64 = if cfg.max_peers == 0 {
        1
    } else {
        cfg.max_peers
    };
    ChainParams {
        network: cfg.network,
        author_pubkey: cfg.author_pubkey,
        authority_keys: cfg.checkpoints.keys(),
        checkpoint_threshold: cfg.checkpoint_threshold,
        max_peers,
        max_sources: if sources <= max_peers {
            sources
        } else {
            max_peers
        },
        cpu_pool_threads: threads,
        mempool_max_txs: cfg.mempool_max_txs,
        relay_fee_floor: cfg.relay_fee_mile,
    }
}

/// The connections that the stratum server takes: as many as the configuration
/// says, or any number without enforcement.
pub fn stratum_connections(cfg: &Config) -> (n: u64)
    ensures
        n == (if cfg.stratum.enforcement {
            cfg.stratum.max_connections
        } else {
            0
        }),
{
    if cfg.stratum.enforcement {
        cfg.stratum.max_connections
    } else {
        0
    }
}

/// The seconds between shares that the stratum server aims at, where the
/// configuration says so. Where it says nothing the server's budget does.
pub fn stratum_setpoint(cfg: &Config) -> (r: Option<u64>)
    ensures
        r == (if cfg.stratum.setpoint_secs != 0 {
            Some(cfg.stratum.setpoint_secs)
        } else {
            None
        }),
{
    if cfg.stratum.setpoint_secs != 0 {
        Some(cfg.stratum.setpoint_secs)
    } else {
        None
    }
}

/// How many connections a second the stratum server accepts, and how many at
/// once out of rest. Where the configuration says zero it accepts any number.
pub fn accept_bucket(cfg: &Config) -> (r: Option<u32>)
    ensures
        r == (if cfg.stratum.caps.global_accept_per_sec != 0 {
            Some(cfg.stratum.caps.global_accept_per_sec)
        } else {
            None
        }),
{
    if cfg.stratum.caps.global_accept_per_sec != 0 {
        Some(cfg.stratum.caps.global_accept_per_sec)
    } else {
        None
    }
}

// ---------------------------------------------------------------------------
// Conditions

/// What the chain reports.
#[derive(Clone, Copy, Debug, PartialEq, Eq)]
pub enum ChainCondition {
    ReorgTooDeepRefused,
    ResyncRequired,
    AnchorContradiction,
    AnchorNotPersisted,
    StorageFatal,
    DeepReplay,
    ReorgOverlayExhausted,
    BranchInvalidAt,
    Other,
}

/// Whether somebody must look at what the chain reports. The rest is for a
/// debugging session.
pub fn chain_condition_needs_an_operator(c: ChainCondition) -> (r: bool)
    ensures
        r == (c is ReorgTooDeepRefused || c is ResyncRequired || c is AnchorContradiction
            || c is AnchorNotPersisted || c is StorageFatal),
{
    match c {
        ChainCondition::ReorgTooDeepRefused => true,
        ChainCondition::ResyncRequired => true,
        ChainCondition::AnchorContradiction => true,
        ChainCondition::AnchorNotPersisted => true,
        ChainCondition::StorageFatal => true,
        _ => false,
    }
}

/// What the network reports.
#[derive(Clone, Debug)]
pub enum NetCondition {
    ForkBodiesWanted { applied: u64, missing: u64 },
    HeaderRepairStuck { height: u64, why: String, repeats: u64, our_tip: u64 },
    StrandedBeyondReorgCap { our_tip: u64, their_tip: u64, depth: u64 },
    Other,
}

/// That headers cannot be repaired.
#[derive(Clone, Debug, PartialEq, Eq)]
pub struct TransportRepairStuck {
    pub height: u64,
    pub why: String,
    pub repeats: u64,
    pub our_tip: u64,
}

/// That the peers' chain parts from ours below what a reorganisation reaches.
#[derive(Clone, Copy, Debug, PartialEq, Eq)]
pub struct TransportStranded {
    pub our_tip: u64,
    pub their_tip: u64,
    pub depth: u64,
    pub cap: u64,
}

/// What a report changes: each cell that it speaks of, and no other.
#[derive(Clone, Debug)]
pub struct Stamp {
    pub repair: Option<TransportRepairStuck>,
    pub stranded: Option<TransportStranded>,
}

/// What a report of the network changes. `cap` is how deep a reorganisation
/// can go.
pub fn stamp_condition(c: &NetCondition, cap: u64) -> (s: Stamp)
    ensures
        match c {
            NetCondition::HeaderRepairStuck { height, why, repeats, our_tip } => {
                &&& s.stranded is None
                &&& s.repair matches Some(r) && r.height == *height && r.why@ == why@ && r.repeats
                    == *repeats && r.our_tip == *our_tip
            },
            NetCondition::StrandedBeyondReorgCap { our_tip, their_tip, depth } => {
                &&& s.repair is None
                &&& s.stranded == Some(
                    TransportStranded {
                        our_tip: *our_tip,
                        their_tip: *their_tip,
                        depth: *depth,
                        cap,
                    },
                )
            },
            _ => s.repair is None && s.stranded is None,
        },
{
    match c {
        NetCondition::HeaderRepairStuck { height, why, repeats, our_tip } => Stamp {
            repair: Some(
                TransportRepairStuck {
                    height: *height,
                    why: why.as_str().to_owned(),
                    repeats: *repeats,
                    our_tip: *our_tip,
                },
            ),
            stranded: None,
        },
        NetCondition::StrandedBeyondReorgCap { our_tip, their_tip, depth } => Stamp {
            repair: None,
            stranded: Some(
                TransportStranded {
                    our_tip: *our_tip,
                    their_tip: *their_tip,
                    depth: *depth,
                    cap,
                },
            ),
        },
        _ => Stamp { repair: None, stranded: None },
    }
}

pub open spec fn syncing(height: Seq<char>, missing: u64) -> Seq<char> {
    "syncing  height "@ + height + "  "@ + text::dec(missing as nat) + " block(s) to go"@
}

/// The line for bodies that a fork still wants, which is progress and no
/// fault. `height` is the height in words.
pub fn syncing_line(height: &str, missing: u64) -> (t: String)
    ensures
        t@ == syncing(height@, missing),
{
    let mut t = "syncing  height ".to_owned();
    t.append(height);
    t.append("  ");
    push_dec(&mut t, missing);
    t.append(" block(s) to go");
    t
}

// ---------------------------------------------------------------------------
// Peers

/// How long the address book stays as it is on disk, in milliseconds.
pub const PEERS_SAVE_MS: u64 = 600_000;

/// Whether the address book is to be written now.
pub fn may_save_peers(force: bool, since_ms: u64) -> (r: bool)
    ensures
        r == (force || since_ms >= PEERS_SAVE_MS),
{
    force || since_ms >= PEERS_SAVE_MS
}

/// The highest claim of a peer, or zero without one.
pub fn top_claim(claims: &[u64]) -> (m: u64)
    ensures
        forall|i: int| 0 <= i < claims@.len() ==> #[trigger] claims@[i] <= m,
        claims@.len() == 0 ==> m == 0,
        claims@.len() > 0 ==> claims@.contains(m),
{
    let mut m: u64 = 0;
    let mut i: usize = 0;
    while i < claims.len()
        invariant
            i <= claims@.len(),
            forall|k: int| 0 <= k < i ==> #[trigger] claims@[k] <= m,
            i == 0 ==> m == 0,
            i > 0 ==> claims@.contains(m),
        decreases claims@.len() - i,
    {
        if i == 0 || claims[i] > m {
            m = claims[i];
            assert(claims@[i as int] == m);
        }
        i += 1;
    }
    m
}

/// Whether the tip is too old for the node to be more than catching up.
pub fn catching_up(now: u64, tip_time: u64, window: u64) -> (r: bool)
    ensures
        r == (now - tip_time > window),
{
    now > tip_time && now - tip_time > window
}

/// Whether an address of version six is one of version four: ten zeros and two
/// bytes of ones before it.
pub open spec fn is_mapped(ip: Seq<u8>) -> bool {
    (forall|i: int| 0 <= i < 10 ==> #[trigger] ip[i] == 0) && ip[10] == 0xff && ip[11] == 0xff
}

/// An address as a person reads it: a mapped one as four numbers, and any
/// other as `v6`, which is its own text.
pub open spec fn shown_ip(ip: Seq<u8>, v6: Seq<char>) -> Seq<char> {
    if is_mapped(ip) {
        text::dec(ip[12] as nat) + "."@ + text::dec(ip[13] as nat) + "."@ + text::dec(ip[14] as nat)
            + "."@ + text::dec(ip[15] as nat)
    } else {
        v6
    }
}

/// An address as a person reads it.
pub fn display_ip(ip: &[u8; 16], v6: &str) -> (t: String)
    ensures
        t@ == shown_ip(ip@, v6@),
{
    let mut i: usize = 0;
    while i < 10
        invariant
            i <= 10,
            forall|k: int| 0 <= k < i ==> #[trigger] ip@[k] == 0,
        decreases 10 - i,
    {
        if ip[i] != 0 {
            assert(ip@[i as int] != 0);
            return v6.to_owned();
        }
        i += 1;
    }
    if ip[10] != 0xff || ip[11] != 0xff {
        return v6.to_owned();
    }
    let mut t = text::dec_of(ip[12] as u64);
    t.append(".");
    push_dec(&mut t, ip[13] as u64);
    t.append(".");
    push_dec(&mut t, ip[14] as u64);
    t.append(".");
    push_dec(&mut t, ip[15] as u64);
    t
}

/// The warning of a node that has peers and dialled none of them.
pub open spec fn no_outbound(n: u64) -> Seq<char> {
    text::dec(n as nat) + NO_OUTBOUND_TAIL@
}

pub const NO_OUTBOUND_TAIL: &'static str =
    " peer(s) connected and zero outbound. A sync peer can only be designated from an outbound connection, so this node can pull a chain from none of them - it will accept blocks pushed to it and nothing else. Check that outbound connections are allowed out of this box.";

/// The warning of a node that has peers and dialled none of them.
pub fn outbound_warning(peers: u64, outbound: u64) -> (r: Option<String>)
    ensures
        r is Some <==> peers > 0 && outbound == 0,
        r matches Some(t) ==> t@ == no_outbound(peers),
{
    if peers > 0 && outbound == 0 {
        let mut t = text::dec_of(peers);
        t.append(NO_OUTBOUND_TAIL);
        Some(t)
    } else {
        None
    }
}

// ---------------------------------------------------------------------------
// The genesis block

/// What a start does about the genesis block.
#[derive(Clone, Copy, Debug)]
pub enum Genesis {
    /// The store is empty: write it.
    Create,
    /// The store holds it.
    Load([u8; 32]),
    /// The store holds blocks and no genesis.
    Missing,
    /// The store holds another chain's.
    Wrong { found: [u8; 32], expected: [u8; 32] },
}

/// What a start does about the genesis block, when `stored` headers are sealed,
/// the store holds `found` at height zero, and the network's is `expected`.
pub fn genesis_step(stored: u64, found: Option<[u8; 32]>, expected: Option<[u8; 32]>) -> (g: Genesis)
    ensures
        stored == 0 ==> g is Create,
        stored > 0 && found is None ==> g is Missing,
        stored > 0 && found is Some && (expected is None || found->Some_0@ == expected->Some_0@)
            ==> g == Genesis::Load(found->Some_0),
        stored > 0 && found is Some && expected is Some && found->Some_0@ != expected->Some_0@
            ==> g == (Genesis::Wrong { found: found->Some_0, expected: expected->Some_0 }),
{
    if stored == 0 {
        return Genesis::Create;
    }
    match found {
        None => Genesis::Missing,
        Some(f) => match expected {
            Some(e) => {
                if same_key(&f, &e) {
                    Genesis::Load(f)
                } else {
                    Genesis::Wrong { found: f, expected: e }
                }
            },
            None => Genesis::Load(f),
        },
    }
}

// ---------------------------------------------------------------------------
// Lines

/// How many blocks are refused in all.
pub open spec fn census_total(c: Seq<(String, u64)>) -> nat
    decreases c.len(),
{
    if c.len() == 0 {
        0
    } else {
        census_total(c.drop_last()) + c.last().1 as nat
    }
}

/// Each reason with its count, with a comma and a space between one and the
/// next.
pub open spec fn census_list(c: Seq<(String, u64)>) -> Seq<char>
    decreases c.len(),
{
    if c.len() == 0 {
        Seq::empty()
    } else {
        let last = text::dec(c.last().1 as nat) + " "@ + c.last().0@;
        if c.len() == 1 {
            last
        } else {
            census_list(c.drop_last()) + ", "@ + last
        }
    }
}

pub const CENSUS_TAIL: &'static str =
    ". The bans are durable and survive restart, which is what stops a refetch storm; there is no selective clear.";

pub open spec fn census_said(c: Seq<(String, u64)>) -> Seq<char> {
    text::dec(census_total(c)) + " block(s) permanently refused: "@ + census_list(c) + CENSUS_TAIL@
}

proof fn lemma_census_prefix(c: Seq<(String, u64)>, n: int)
    requires
        0 <= n <= c.len(),
    ensures
        census_total(c.take(n)) <= census_total(c),
    decreases c.len(),
{
    if n == c.len() {
        assert(c.take(n) =~= c);
    } else {
        lemma_census_prefix(c.drop_last(), n);
        assert(c.drop_last().take(n) =~= c.take(n));
    }
}

/// How many blocks are refused for good, and why. Where none is, there is
/// nothing to say.
pub fn census_line(c: &[(String, u64)]) -> (r: Option<String>)
    requires
        census_total(c@) <= u64::MAX,
    ensures
        r is Some <==> c@.len() > 0,
        r matches Some(t) ==> t@ == census_said(c@),
{
    if c.len() == 0 {
        return None;
    }
    let mut total: u64 = 0;
    let mut list = String::new();
    let mut i: usize = 0;
    assert(c@.take(0) =~= Seq::<(String, u64)>::empty());
    assert(list@ =~= Seq::<char>::empty());
    while i < c.len()
        invariant
            i <= c@.len(),
            census_total(c@) <= u64::MAX,
            total == census_total(c@.take(i as int)),
            list@ == census_list(c@.take(i as int)),
        decreases c.len() - i,
    {
        assert(c@.take(i as int + 1).drop_last() =~= c@.take(i as int));
        proof {
            lemma_census_prefix(c@, i as int + 1);
        }
        total += c[i].1;
        let mut u = text::dec_of(c[i].1);
        u.append(" ");
        u.append(c[i].0.as_str());
        if i == 0 {
            list = u;
        } else {
            list.append(", ");
            list.append(u.as_str());
        }
        i += 1;
    }
    assert(c@.take(i as int) =~= c@);
    let mut t = text::dec_of(total);
    t.append(" block(s) permanently refused: ");
    t.append(list.as_str());
    t.append(CENSUS_TAIL);
    Some(t)
}

pub open spec fn p2p_listening(addr: Seq<char>, peers: u64, dialled: u64, names: u64, ignored: u64) -> Seq<
    char,
> {
    "listening on "@ + addr + " (max "@ + text::dec(peers as nat) + " peers; "@ + text::dec(
        dialled as nat,
    ) + " seed address(es) dialled, "@ + text::dec(names as nat) + " seed name(s) to resolve"@ + (
    if ignored > 0 {
        ", "@ + text::dec(ignored as nat) + " build placeholder(s) ignored"@
    } else {
        Seq::empty()
    }) + ")"@
}

/// The line of a node that listens for peers.
pub fn p2p_line(addr: &str, peers: u64, dialled: u64, names: u64, ignored: u64) -> (t: String)
    ensures
        t@ == p2p_listening(addr@, peers, dialled, names, ignored),
{
    let mut u = String::new();
    if ignored > 0 {
        u = ", ".to_owned();
        push_dec(&mut u, ignored);
        u.append(" build placeholder(s) ignored");
    } else {
        assert(u@ =~= Seq::<char>::empty());
    }
    let mut t = "listening on ".to_owned();
    t.append(addr);
    t.append(" (max ");
    push_dec(&mut t, peers);
    t.append(" peers; ");
    push_dec(&mut t, dialled);
    t.append(" seed address(es) dialled, ");
    push_dec(&mut t, names);
    t.append(" seed name(s) to resolve");
    t.append(u.as_str());
    t.append(")");
    t
}

pub open spec fn sealed_said(unsealed: u64, blocks: u64, reorgs: u64, seals: u64) -> Seq<char> {
    "storage sealed and fsynced: "@ + text::dec(unsealed as nat)
        + " unsealed block(s) made durable. This run wrote "@ + text::dec(blocks as nat)
        + " block(s) and "@ + text::dec(reorgs as nat)
        + " reorg(s); the ring's dual bound forced "@ + text::dec(seals as nat)
        + " extra seal(s)."@
}

/// The last line of a node that stops and has sealed its blocks.
pub fn sealed_line(unsealed: u64, s: &crate::node::commit::CommitStats) -> (t: String)
    ensures
        t@ == sealed_said(unsealed, s.blocks, s.reorgs, s.forced_seals),
{
    let mut t = "storage sealed and fsynced: ".to_owned();
    push_dec(&mut t, unsealed);
    t.append(" unsealed block(s) made durable. This run wrote ");
    push_dec(&mut t, s.blocks);
    t.append(" block(s) and ");
    push_dec(&mut t, s.reorgs);
    t.append(" reorg(s); the ring's dual bound forced ");
    push_dec(&mut t, s.forced_seals);
    t.append(" extra seal(s).");
    t
}

pub const CHAIN_ID_WARNING: &'static str =
    "CHAIN_ID is still 0x00000000 in this build. SPEC 1 freezes it at 0x504C4E45 (ASCII \"PLNE\"), and it enters every transaction signature from block 0. Do not use this binary against a real network.";

/// Guards against a binary that was built wrong: one with another header size
/// is refused, and one without a chain id is warned of.
pub fn self_checks(header_bytes: usize, chain_id: [u8; 4]) -> (r: Result<Option<String>, String>)
    ensures
        r is Ok <==> header_bytes == 132,
        r matches Err(e) ==> e@ == "HEADER_BYTES is not 132; this is not a Plaine binary"@,
        r matches Ok(w) ==> (w is Some <==> chain_id@ == seq![0u8, 0u8, 0u8, 0u8]),
        r matches Ok(Some(w)) ==> w@ == CHAIN_ID_WARNING@,
{
    if header_bytes != 132 {
        return Err("HEADER_BYTES is not 132; this is not a Plaine binary".to_owned());
    }
    if chain_id[0] == 0 && chain_id[1] == 0 && chain_id[2] == 0 && chain_id[3] == 0 {
        assert(chain_id@ =~= seq![0u8, 0u8, 0u8, 0u8]);
        return Ok(Some(CHAIN_ID_WARNING.to_owned()));
    }
    Ok(None)
}

/// What is said when the RPC listener cannot be had, and the exit code. A port
/// that is taken may be free later; anything else wants another configuration.
pub fn rpc_refused(in_use: bool, addr: &str, chain_dir: &str, why: &str) -> (r: (String, u8))
    ensures
        in_use ==> r.0@ == addr@
            + " is already in use. Another plaine-noded is probably running against "@ + chain_dir@
            + " - one process per data directory (redb is single-writer)."@ && r.1 == EXIT_BUSY,
        !in_use ==> r.0@ == why@ && r.1 == EXIT_CONFIG,
{
    if in_use {
        let mut t = addr.to_owned();
        t.append(" is already in use. Another plaine-noded is probably running against ");
        t.append(chain_dir);
        t.append(" - one process per data directory (redb is single-writer).");
        (t, EXIT_BUSY)
    } else {
        (why.to_owned(), EXIT_CONFIG)
    }
}

/// What was found where the configuration is looked for.
pub enum Found<'a> {
    File(&'a Document),
    Absent,
    Unreadable(&'a str),
}

pub const UNREADABLE_HELP: &'static str =
    "check the file's permissions, or pass --config <path> to point somewhere else";

/// The configuration that is in force, and whether a file gave it; or the fault
/// to show before the program ends. A file that is not there is no fault.
pub fn prepare(path: &str, found: &Found, overrides: &Overrides, facts: &Facts) -> (r: Result<
    (Config, bool),
    Diagnostic,
>)
    requires
        found is Absent ==> config::usable(*facts),
    ensures
        match found {
            Found::File(doc) => {
                &&& r is Ok <==> config::load_fault(path@, doc@, *facts) is None
                &&& r matches Ok(c) ==> c.1 && config::is_config(c.0, doc@, *overrides, *facts)
                &&& r matches Err(d) ==> config::load_fault(path@, doc@, *facts) == Some(d@)
            },
            Found::Absent => r matches Ok(c) && !c.1 && config::is_config(
                c.0,
                config::empty_doc(),
                *overrides,
                *facts,
            ),
            Found::Unreadable(why) => r matches Err(d) && d@ == toml::general(
                path@,
                "cannot read the config file: "@ + why@,
            ).helped(UNREADABLE_HELP@),
        },
{
    match found {
        Found::File(doc) => match load(path, doc, overrides, facts) {
            Ok(c) => Ok((c, true)),
            Err(d) => Err(d),
        },
        Found::Absent => Ok((defaults(overrides, facts), false)),
        Found::Unreadable(why) => {
            let mut t = "cannot read the config file: ".to_owned();
            t.append(why);
            Err(Diagnostic::general(path, t).with_help(UNREADABLE_HELP))
        },
    }
}

/// Whether a first run writes the file that shows every setting: only where
/// there is none and none was named.
pub fn writes_default_config(asked: bool, existed: bool, named: bool) -> (r: bool)
    ensures
        r == (asked && !existed && !named),
{
    asked && !existed && !named
}

pub open spec fn on_off(b: bool) -> Seq<char> {
    if b {
        "on"@
    } else {
        "off"@
    }
}

/// The line on what is stored. `year` is the number of bodies that a pruning
/// node keeps, in words.
pub open spec fn storage_said(cfg: Config, year: Seq<char>) -> Seq<char> {
    "storage      "@ + (if cfg.prune {
        "pruned, keeping "@ + year + " block bodies"@
    } else {
        "archive, keeping every block body"@
    }) + "  txindex "@ + on_off(cfg.txindex) + "  addrindex "@ + on_off(cfg.addrindex)
}

fn say_on_off(b: bool) -> (r: &'static str)
    ensures
        r@ == on_off(b),
{
    if b {
        "on"
    } else {
        "off"
    }
}

/// The line on what is stored.
pub fn storage_line(cfg: &Config, year: &str) -> (t: String)
    ensures
        t@ == storage_said(*cfg, year@),
{
    let u: String = if cfg.prune {
        let mut u = "pruned, keeping ".to_owned();
        u.append(year);
        u.append(" block bodies");
        u
    } else {
        "archive, keeping every block body".to_owned()
    };
    let mut t = "storage      ".to_owned();
    t.append(u.as_str());
    t.append("  txindex ");
    t.append(say_on_off(cfg.txindex));
    t.append("  addrindex ");
    t.append(say_on_off(cfg.addrindex));
    t
}

/// The line on checkpoints. `sunset` is the height in words from which they no
/// longer count.
pub fn checkpoint_line(cfg: &Config, facts: &[KeyFact], sunset: &str) -> (t: String)
    ensures
        t@ == keys::described(facts@, cfg.checkpoints@) + "  sunset at height "@ + sunset@ + " ("@
            + sunset@ + " left, compiled in - config cannot extend it)"@,
{
    let mut t = cfg.checkpoints.describe(facts);
    t.append("  sunset at height ");
    t.append(sunset);
    t.append(" (");
    t.append(sunset);
    t.append(" left, compiled in - config cannot extend it)");
    t
}

/// The first four bytes of a key in hexadecimal.
pub open spec fn key_head(k: Seq<u8>) -> Seq<char> {
    text::hex_pad(k[0] as nat, 2) + text::hex_pad(k[1] as nat, 2) + text::hex_pad(k[2] as nat, 2)
        + text::hex_pad(k[3] as nat, 2)
}

pub open spec fn author_said(cfg: Config) -> Seq<char> {
    "announcement key "@ + (if cfg.author_key_source == KeySource::Embedded {
        "embedded in this binary"@
    } else {
        "from config"@
    }) + " (fp "@ + key_head(cfg.author_pubkey@) + (if cfg.author_key_placeholder {
        ", PLACEHOLDER"@
    } else {
        ""@
    }) + "), notes "@ + (if cfg.author_show_in_log {
        "shown"@
    } else {
        "not shown"@
    }) + " in this log"@
}

/// The line on the author's key.
pub fn author_line(cfg: &Config) -> (t: String)
    ensures
        t@ == author_said(*cfg),
{
    let k: [u8; 32] = cfg.author_pubkey;
    let mut h = String::new();
    push_hex_pad(&mut h, k[0] as u64, 2);
    assert(h@ =~= text::hex_pad(k@[0] as nat, 2));
    push_hex_pad(&mut h, k[1] as u64, 2);
    push_hex_pad(&mut h, k[2] as u64, 2);
    push_hex_pad(&mut h, k[3] as u64, 2);
    let mut t = "announcement key ".to_owned();
    t.append(
        if cfg.author_key_source == KeySource::Embedded {
            "embedded in this binary"
        } else {
            "from config"
        },
    );
    t.append(" (fp ");
    t.append(h.as_str());
    t.append(
        if cfg.author_key_placeholder {
            ", PLACEHOLDER"
        } else {
            ""
        },
    );
    t.append("), notes ");
    t.append(
        if cfg.author_show_in_log {
            "shown"
        } else {
            "not shown"
        },
    );
    t.append(" in this log");
    t
}

/// The line on the RPC listener.
pub fn rpc_line(addr: &str, loopback: bool) -> (t: String)
    ensures
        t@ == "listening on "@ + addr@ + " ("@ + (if loopback {
            "loopback only, no token needed"@
        } else {
            "public interface, bearer token required"@
        }) + ")"@,
{
    let mut t = "listening on ".to_owned();
    t.append(addr);
    t.append(" (");
    t.append(
        if loopback {
            "loopback only, no token needed"
        } else {
            "public interface, bearer token required"
        },
    );
    t.append(")");
    t
}

// ---------------------------------------------------------------------------
// What a start keeps

/// A port that is taken is worth another try, a wrong genesis or proof of work is
/// not, and anything else is an ordinary failure.
pub proof fn law_exit_codes_tell_what_to_do(e: &StartError, c: u8)
    requires
        call_ensures(StartError::exit_code, (e,), c),
    ensures
        c == 3 <==> *e is Bind,
        c == 2 <==> *e is Genesis || *e is Pow,
        c == 1 <==> *e is Storage || *e is Chain,
{
}

/// Shares are checked on half the cores: never on fewer than two threads, nor on
/// more than eight, and more cores never mean fewer threads.
pub proof fn law_shares_are_checked_on_half_the_cores(a: usize, b: usize, n: usize, m: usize, x: usize)
    requires
        a <= b,
        call_ensures(cpu_pool_threads, (Some(a),), n),
        call_ensures(cpu_pool_threads, (Some(b),), m),
        call_ensures(cpu_pool_threads, (None,), x),
    ensures
        2 <= n <= m <= 8,
        4 <= a <= 17 ==> 2 * n == a || 2 * n + 1 == a,
        x == 2,
{
}

/// The chain is told what the configuration says, each under its own name, and
/// syncs from no more peers than there may be.
pub proof fn law_the_chain_is_told_the_configuration(
    cfg: &Config,
    threads: usize,
    sources: u64,
    p: ChainParams,
    i: int,
)
    requires
        call_ensures(chain_params, (cfg, threads, sources), p),
    ensures
        p.network == cfg.network,
        p.author_pubkey == cfg.author_pubkey,
        p.checkpoint_threshold == cfg.checkpoint_threshold,
        p.mempool_max_txs == cfg.mempool_max_txs,
        p.relay_fee_floor == cfg.relay_fee_mile,
        p.cpu_pool_threads == threads,
        p.max_peers >= 1 && (cfg.max_peers >= 1 ==> p.max_peers == cfg.max_peers),
        p.max_sources <= p.max_peers && p.max_sources <= sources,
        p.max_sources == p.max_peers || p.max_sources == sources,
        cfg.checkpoints@ is Disabled ==> p.authority_keys@.len() == 0,
        cfg.checkpoints@ matches keys::PolicyView::Embedded { key, .. } ==> p.authority_keys@.len()
            == 1 && p.authority_keys@[0]@ == key,
        cfg.checkpoints@ matches keys::PolicyView::Configured { keys } ==> p.authority_keys@.len()
            == keys.len() && (0 <= i < keys.len() ==> p.authority_keys@[i]@ == keys[i]),
{
    let v = keys::key_views(p.authority_keys@);
    assert(v.len() == p.authority_keys@.len());
    if 0 <= i < v.len() {
        assert(v[i] == p.authority_keys@[i]@);
    }
    if v.len() > 0 {
        assert(v[0] == p.authority_keys@[0]@);
    }
}

/// Without enforcement the stratum server takes any number of connections; a
/// setpoint or an accept rate of zero is none.
pub proof fn law_zero_is_no_limit(cfg: &Config, n: u64, s: Option<u64>, a: Option<u32>)
    requires
        call_ensures(stratum_connections, (cfg,), n),
        call_ensures(stratum_setpoint, (cfg,), s),
        call_ensures(accept_bucket, (cfg,), a),
    ensures
        cfg.stratum.enforcement ==> n == cfg.stratum.max_connections,
        !cfg.stratum.enforcement ==> n == 0,
        s is None <==> cfg.stratum.setpoint_secs == 0,
        s matches Some(x) ==> x == cfg.stratum.setpoint_secs,
        a is None <==> cfg.stratum.caps.global_accept_per_sec == 0,
        a matches Some(x) ==> x == cfg.stratum.caps.global_accept_per_sec,
{
}

/// An operator is called for what the node cannot mend by itself, and for nothing
/// else.
pub proof fn law_an_operator_is_called_for_what_does_not_mend(c: ChainCondition, r: bool)
    requires
        call_ensures(chain_condition_needs_an_operator, (c,), r),
    ensures
        c == ChainCondition::DeepReplay || c == ChainCondition::ReorgOverlayExhausted || c
            == ChainCondition::BranchInvalidAt || c == ChainCondition::Other <==> !r,
{
}

/// A report changes only what it speaks of, and to its own figures.
pub proof fn law_a_report_changes_its_own_cell(c: &NetCondition, cap: u64, s: Stamp)
    requires
        call_ensures(stamp_condition, (c, cap), s),
    ensures
        s.repair is Some <==> *c is HeaderRepairStuck,
        s.stranded is Some <==> *c is StrandedBeyondReorgCap,
        s.repair matches Some(r) ==> (*c matches NetCondition::HeaderRepairStuck {
            height,
            why,
            repeats,
            our_tip,
        } && r.height == height && r.why@ == why@ && r.repeats == repeats && r.our_tip == our_tip),
        s.stranded matches Some(r) ==> (*c matches NetCondition::StrandedBeyondReorgCap {
            our_tip,
            their_tip,
            depth,
        } && r.our_tip == our_tip && r.their_tip == their_tip && r.depth == depth && r.cap == cap),
{
}

/// The address book is written every ten minutes, and at once where it must be.
pub proof fn law_the_address_book_is_written_in_time(force: bool, since: u64, r: bool)
    requires
        call_ensures(may_save_peers, (force, since), r),
    ensures
        force ==> r,
        !force ==> (r <==> since >= 600_000),
{
}

/// A first run writes the genesis block; a later one takes up the one that is
/// stored, unless it is not the network's or is not there.
pub proof fn law_a_start_takes_up_its_own_genesis(
    stored: u64,
    found: Option<[u8; 32]>,
    expected: Option<[u8; 32]>,
    g: Genesis,
)
    requires
        call_ensures(genesis_step, (stored, found, expected), g),
    ensures
        g is Create <==> stored == 0,
        g is Missing <==> stored > 0 && found is None,
        g is Wrong <==> stored > 0 && (match (found, expected) {
            (Some(f), Some(e)) => f@ != e@,
            _ => false,
        }),
        g matches Genesis::Load(f) ==> found == Some(f),
        g matches Genesis::Wrong { found: f, expected: e } ==> found == Some(f) && expected == Some(
            e,
        ),
{
}

/// The refused blocks are added up over all the reasons.
pub proof fn law_refused_blocks_are_added_up(c: Seq<(String, u64)>, x: (String, u64))
    ensures
        census_total(Seq::empty()) == 0,
        census_total(c.push(x)) == census_total(c) + x.1,
        census_list(seq![x]) == text::dec(x.1 as nat) + " "@ + x.0@,
        c.len() > 0 ==> census_list(c.push(x)) == census_list(c) + ", "@ + (text::dec(x.1 as nat)
            + " "@ + x.0@),
{
    assert(c.push(x).drop_last() =~= c);
}

/// An address of version four is shown as its last four bytes, in their order;
/// any other as its own text.
pub proof fn law_a_mapped_address_is_four_numbers(ip: &[u8; 16], v6: &str, t: String)
    requires
        call_ensures(display_ip, (ip, v6), t),
    ensures
        (forall|i: int| 0 <= i < 10 ==> ip@[i] == 0) && ip@[10] == 0xff && ip@[11] == 0xff ==> t@
            == text::dec(ip@[12] as nat) + "."@ + text::dec(ip@[13] as nat) + "."@ + text::dec(
            ip@[14] as nat,
        ) + "."@ + text::dec(ip@[15] as nat),
        ip@[10] != 0xff || ip@[11] != 0xff ==> t@ == v6@,
{
}

/// A file gives the configuration where there is one; where there is none the
/// defaults do; and one that cannot be read stops the start.
pub proof fn law_a_missing_file_is_the_defaults(
    path: &str,
    found: &Found,
    overrides: &Overrides,
    facts: &Facts,
    r: Result<(Config, bool), Diagnostic>,
)
    requires
        found is Absent ==> config::usable(*facts),
        call_ensures(prepare, (path, found, overrides, facts), r),
    ensures
        found is Absent ==> r is Ok,
        found is Unreadable ==> r is Err,
        r matches Ok(c) ==> (c.1 <==> found is File),
{
}

} // verus!
