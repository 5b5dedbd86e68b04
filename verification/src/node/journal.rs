//! The lines that a node writes to its log while it starts and at each
//! heartbeat, in the order in which it writes them.

use vstd::prelude::*;
use crate::node::boot;
use crate::node::boot::{
    census_line, outbound_warning, sealed_line, syncing_line, NetCondition, StartError,
};
use crate::node::commit::CommitStats;
use crate::node::config::Addr;
use crate::node::lines;
use crate::node::lines::{stratum_line, stratum_line_brief, L2Sweep, L3HSweep, StratumCounts};
use crate::text;
use crate::text::{dec_of, push_dec};

verus! {

/// How a line of the log is marked. A line on security is always shown.
#[derive(Clone, Copy, Debug, PartialEq, Eq, Structural)]
pub enum Mark {
    Error,
    Warn,
    Info,
    Debug,
    Security,
}

/// One line of the log.
#[derive(Clone, Debug)]
pub struct Line {
    pub mark: Mark,
    pub tag: &'static str,
    pub text: String,
}

/// The mathematical value of a `Line`.
#[verifier::ext_equal]
pub struct LineView {
    pub mark: Mark,
    pub tag: Seq<char>,
    pub text: Seq<char>,
}

impl View for Line {
    type V = LineView;

    open spec fn view(&self) -> LineView {
        LineView { mark: self.mark, tag: self.tag@, text: self.text@ }
    }
}

pub open spec fn line_views(v: Seq<Line>) -> Seq<LineView> {
    Seq::new(v.len(), |i: int| v[i]@)
}

pub open spec fn line(mark: Mark, tag: Seq<char>, text: Seq<char>) -> LineView {
    LineView { mark, tag, text }
}

/// One line, or none.
pub open spec fn when(said: bool, l: LineView) -> Seq<LineView> {
    if said {
        seq![l]
    } else {
        Seq::empty()
    }
}

fn say(v: &mut Vec<Line>, mark: Mark, tag: &'static str, text: String)
    ensures
        line_views(final(v)@) == line_views(old(v)@) + seq![line(mark, tag@, text@)],
{
    let ghost before = line_views(v@);
    let l = Line { mark, tag, text };
    v.push(l);
    assert(line_views(v@) =~= before + seq![line(mark, tag@, text@)]);
}

// ---------------------------------------------------------------------------
// Opening the store

/// What a check of the account table gave, with what the store said of it.
#[derive(Clone, Debug)]
pub enum TableCheck {
    Verified,
    Mismatch(String),
    Unreadable(String),
}

/// A sweep over what is stored, with how long it took, in words.
#[derive(Debug)]
pub struct Sweeps {
    pub frames: L2Sweep,
    pub frames_took: String,
    pub headers: L3HSweep,
    pub headers_took: String,
}

/// What opening the store found.
#[derive(Debug)]
pub struct Opened {
    pub truncated_to: Option<u64>,
    /// How many ranges of bodies nothing vouches for, unless everything is
    /// vouched for.
    pub unvouched: Option<u64>,
    pub table: TableCheck,
    pub sweeps: Option<Sweeps>,
    pub census: Result<Vec<(String, u64)>, String>,
    pub damaged: u64,
}

pub const UNVOUCHED_TAIL: &'static str =
    " body range(s) have no custody anchor. They are still CRC-checked on every read and every one of them satisfied its header's tx_root when it connected, so consensus uses them; they must not be advertised as vouched history.";

pub const MISMATCH_TAIL: &'static str =
    " - the account table does not hash to its recorded fingerprint. This is bit rot or a code bug, and it is not confined to a range: every balance this node would serve is derived from that table. Refusing to start. Recover from a backup or re-sync this data directory.";

pub const L2_DIFFERS_TAIL: &'static str =
    "'s frame array does not match its anchor. A payload inside it was substituted at the same length with its CRC field fixed up, which is the one class L1 cannot see.";

pub const L3H_BROKEN_TAIL: &'static str =
    ". The header below it does not hash to the parent that header states, so at least one header in this segment is not the one this node sealed. This is the class L1 (first+last only) and L2 (body frames only) both miss, and until now it was served silently.";

pub const DAMAGED_TAIL: &'static str =
    " damaged range(s) on disk; reads over them are refused rather than served short";

pub open spec fn truncated_said(h: u64) -> Seq<char> {
    "a torn header tail was truncated to height "@ + text::dec(h as nat)
        + "; will re-sync forward"@
}

pub open spec fn first_lines(o: Opened) -> Seq<LineView> {
    (match o.truncated_to {
        Some(h) => seq![line(Mark::Warn, "storage"@, truncated_said(h))],
        None => Seq::empty(),
    }) + (match o.unvouched {
        Some(n) => seq![line(Mark::Security, "storage"@, text::dec(n as nat) + UNVOUCHED_TAIL@)],
        None => Seq::empty(),
    })
}

pub open spec fn table_line(t: TableCheck) -> LineView {
    match t {
        TableCheck::Verified => line(Mark::Debug, "storage"@, "state fingerprint verified"@),
        TableCheck::Mismatch(e) => line(Mark::Security, "storage"@, e@ + MISMATCH_TAIL@),
        TableCheck::Unreadable(e) => line(
            Mark::Warn,
            "storage"@,
            "could not verify the state fingerprint: "@ + e@ + ". Not a clean verdict."@,
        ),
    }
}

pub open spec fn l2_line(seg: u32) -> LineView {
    line(
        Mark::Security,
        "storage"@,
        "L2: segment "@ + text::dec(seg as nat) + L2_DIFFERS_TAIL@,
    )
}

pub open spec fn l2_lines(v: Seq<u32>) -> Seq<LineView> {
    Seq::new(v.len(), |i: int| l2_line(v[i]))
}

pub open spec fn l3h_line(b: (u32, u64)) -> LineView {
    line(
        Mark::Security,
        "storage"@,
        "L3-H: header segment "@ + text::dec(b.0 as nat) + " does not link at height "@ + text::dec(
            b.1 as nat,
        ) + L3H_BROKEN_TAIL@,
    )
}

pub open spec fn l3h_lines(v: Seq<(u32, u64)>) -> Seq<LineView> {
    Seq::new(v.len(), |i: int| l3h_line(v[i]))
}

pub open spec fn sweep_lines(s: Option<Sweeps>) -> Seq<LineView> {
    match s {
        Some(w) => l2_lines(w.frames.mismatched@) + seq![
            line(Mark::Info, "storage"@, w.frames.said() + " in "@ + w.frames_took@),
        ] + l3h_lines(w.headers.broken@) + seq![
            line(Mark::Info, "storage"@, w.headers.said() + " in "@ + w.headers_took@),
        ],
        None => Seq::empty(),
    }
}

pub open spec fn census_lines(c: Result<Vec<(String, u64)>, String>) -> Seq<LineView> {
    match c {
        Ok(v) => when(
            v@.len() > 0,
            line(Mark::Info, "storage"@, boot::census_said(v@)),
        ),
        Err(e) => seq![
            line(
                Mark::Warn,
                "storage"@,
                "could not read the permanently-refused table: "@ + e@,
            ),
        ],
    }
}

/// What is said of the store. On an account table that does not match, the
/// node says so and goes no further.
pub open spec fn opened_lines(o: Opened) -> Seq<LineView> {
    let head = first_lines(o) + seq![table_line(o.table)];
    if o.table is Mismatch {
        head
    } else {
        head + sweep_lines(o.sweeps) + census_lines(o.census) + when(
            o.damaged > 0,
            line(Mark::Security, "storage"@, text::dec(o.damaged as nat) + DAMAGED_TAIL@),
        )
    }
}

fn append(v: &mut Vec<Line>, w: Vec<Line>)
    ensures
        line_views(final(v)@) == line_views(old(v)@) + line_views(w@),
{
    let ghost before = line_views(v@);
    let ghost add = line_views(w@);
    let mut w = w;
    v.append(&mut w);
    assert(line_views(v@) =~= before + add);
}

fn say_first(o: &Opened) -> (v: Vec<Line>)
    ensures
        line_views(v@) == first_lines(*o),
{
    let mut v: Vec<Line> = Vec::new();
    match o.truncated_to {
        Some(h) => {
            let mut t = "a torn header tail was truncated to height ".to_owned();
            push_dec(&mut t, h);
            t.append("; will re-sync forward");
            say(&mut v, Mark::Warn, "storage", t);
        },
        None => {},
    }
    match o.unvouched {
        Some(n) => {
            let mut t = text::dec_of(n);
            t.append(UNVOUCHED_TAIL);
            say(&mut v, Mark::Security, "storage", t);
        },
        None => {},
    }
    assert(line_views(v@) =~= first_lines(*o));
    v
}

fn say_table(v: &mut Vec<Line>, t: &TableCheck)
    ensures
        line_views(final(v)@) == line_views(old(v)@) + seq![table_line(*t)],
{
    match t {
        TableCheck::Verified => {
            say(v, Mark::Debug, "storage", "state fingerprint verified".to_owned());
        },
        TableCheck::Mismatch(e) => {
            let mut m = e.as_str().to_owned();
            m.append(MISMATCH_TAIL);
            say(v, Mark::Security, "storage", m);
        },
        TableCheck::Unreadable(e) => {
            let mut m = "could not verify the state fingerprint: ".to_owned();
            m.append(e.as_str());
            m.append(". Not a clean verdict.");
            say(v, Mark::Warn, "storage", m);
        },
    }
}

fn say_l2(v: &mut Vec<Line>, segs: &Vec<u32>)
    ensures
        line_views(final(v)@) == line_views(old(v)@) + l2_lines(segs@),
{
    let ghost before = line_views(v@);
    let ghost all = l2_lines(segs@);
    let mut i: usize = 0;
    assert(before + all.take(0) =~= before);
    while i < segs.len()
        invariant
            i <= segs.len(),
            all == l2_lines(segs@),
            line_views(v@) == before + all.take(i as int),
        decreases segs.len() - i,
    {
        let mut t = "L2: segment ".to_owned();
        push_dec(&mut t, segs[i] as u64);
        t.append(L2_DIFFERS_TAIL);
        say(v, Mark::Security, "storage", t);
        assert(all[i as int] == l2_line(segs@[i as int]));
        assert(before + all.take(i as int + 1) =~= (before + all.take(i as int)) + seq![
            all[i as int],
        ]);
        i += 1;
    }
    assert(all.take(i as int) =~= all);
}

fn say_l3h(v: &mut Vec<Line>, broken: &Vec<(u32, u64)>)
    ensures
        line_views(final(v)@) == line_views(old(v)@) + l3h_lines(broken@),
{
    let ghost before = line_views(v@);
    let ghost all = l3h_lines(broken@);
    let mut i: usize = 0;
    assert(before + all.take(0) =~= before);
    while i < broken.len()
        invariant
            i <= broken.len(),
            all == l3h_lines(broken@),
            line_views(v@) == before + all.take(i as int),
        decreases broken.len() - i,
    {
        let mut t = "L3-H: header segment ".to_owned();
        push_dec(&mut t, broken[i].0 as u64);
        t.append(" does not link at height ");
        push_dec(&mut t, broken[i].1);
        t.append(L3H_BROKEN_TAIL);
        say(v, Mark::Security, "storage", t);
        assert(all[i as int] == l3h_line(broken@[i as int]));
        assert(before + all.take(i as int + 1) =~= (before + all.take(i as int)) + seq![
            all[i as int],
        ]);
        i += 1;
    }
    assert(all.take(i as int) =~= all);
}

fn say_sweeps(s: &Option<Sweeps>) -> (v: Vec<Line>)
    ensures
        line_views(v@) == sweep_lines(*s),
{
    let mut v: Vec<Line> = Vec::new();
    assert(line_views(v@) =~= Seq::<LineView>::empty());
    match s {
        Some(w) => {
            say_l2(&mut v, &w.frames.mismatched);
            let mut t = w.frames.line();
            t.append(" in ");
            t.append(w.frames_took.as_str());
            say(&mut v, Mark::Info, "storage", t);
            say_l3h(&mut v, &w.headers.broken);
            let mut u = w.headers.line();
            u.append(" in ");
            u.append(w.headers_took.as_str());
            say(&mut v, Mark::Info, "storage", u);
            assert(line_views(v@) =~= sweep_lines(*s));
        },
        None => {},
    }
    v
}

fn say_census(c: &Result<Vec<(String, u64)>, String>) -> (v: Vec<Line>)
    requires
        c matches Ok(l) ==> boot::census_total(l@) <= u64::MAX,
    ensures
        line_views(v@) == census_lines(*c),
{
    let mut v: Vec<Line> = Vec::new();
    assert(line_views(v@) =~= Seq::<LineView>::empty());
    match c {
        Ok(l) => {
            match census_line(l.as_slice()) {
                Some(t) => {
                    say(&mut v, Mark::Info, "storage", t);
                },
                None => {},
            }
        },
        Err(e) => {
            let mut t = "could not read the permanently-refused table: ".to_owned();
            t.append(e.as_str());
            say(&mut v, Mark::Warn, "storage", t);
        },
    }
    assert(line_views(v@) =~= census_lines(*c));
    v
}

/// What is said of the store, and whether the node can start on it.
pub fn opened(o: &Opened) -> (r: (Vec<Line>, Result<(), StartError>))
    requires
        o.census matches Ok(l) ==> boot::census_total(l@) <= u64::MAX,
    ensures
        line_views(r.0@) == opened_lines(*o),
        match o.table {
            TableCheck::Mismatch(e) => r.1 matches Err(StartError::Storage(t)) && t@ == e@,
            _ => r.1 is Ok,
        },
{
    let mut v = say_first(o);
    say_table(&mut v, &o.table);
    match &o.table {
        TableCheck::Mismatch(e) => {
            return (v, Err(StartError::Storage(e.as_str().to_owned())));
        },
        _ => {},
    }
    append(&mut v, say_sweeps(&o.sweeps));
    append(&mut v, say_census(&o.census));
    if o.damaged > 0 {
        let mut t = text::dec_of(o.damaged);
        t.append(DAMAGED_TAIL);
        say(&mut v, Mark::Security, "storage", t);
    }
    assert(line_views(v@) =~= opened_lines(*o));
    (v, Ok(()))
}

// ---------------------------------------------------------------------------
// The chain

/// What became of the checkpoint anchor that was stored.
#[derive(Clone, Debug)]
pub enum Anchor {
    Absent,
    Loaded { height: u64, hash: String },
    NotVerified { height: u64 },
    Unparsed(String),
    Unreadable(String),
}

pub const ANCHOR_LOADED_TAIL: &'static str =
    ". Reorgs deeper than the cap are admissible only on a branch containing it.";

pub const ANCHOR_DISCARDED_TAIL: &'static str =
    ") did not verify against the authority keys this node is configured with, so it was discarded and layer 2 starts shut. Expected after an authority key rotation; otherwise something else has written to the data directory. Deliver a fresh checkpoint with checkpoint_submit.";

pub const ANCHOR_UNPARSED_TAIL: &'static str =
    "), so it was discarded and layer 2 starts shut. Nothing else is affected: the row is rewritten by the next checkpoint that advances the anchor.";

pub open spec fn anchor_lines(a: Anchor) -> Seq<LineView> {
    match a {
        Anchor::Absent => Seq::empty(),
        Anchor::Loaded { height, hash } => seq![
            line(
                Mark::Info,
                "chain"@,
                "checkpoint anchor loaded from disk and re-verified: height "@ + text::dec(
                    height as nat,
                ) + ", block "@ + hash@ + ANCHOR_LOADED_TAIL@,
            ),
        ],
        Anchor::NotVerified { height } => seq![
            line(
                Mark::Security,
                "chain"@,
                "the checkpoint anchor on disk (height "@ + text::dec(height as nat)
                    + ANCHOR_DISCARDED_TAIL@,
            ),
        ],
        Anchor::Unparsed(e) => seq![
            line(
                Mark::Security,
                "chain"@,
                "the checkpoint anchor row in the store could not be parsed ("@ + e@
                    + ANCHOR_UNPARSED_TAIL@,
            ),
        ],
        Anchor::Unreadable(e) => seq![
            line(
                Mark::Warn,
                "chain"@,
                "could not read the checkpoint anchor row ("@ + e@ + "); layer 2 starts shut"@,
            ),
        ],
    }
}

/// What is said of the checkpoint anchor that was stored.
pub fn anchor(a: &Anchor) -> (v: Vec<Line>)
    ensures
        line_views(v@) == anchor_lines(*a),
{
    let mut v: Vec<Line> = Vec::new();
    assert(line_views(v@) =~= Seq::<LineView>::empty());
    match a {
        Anchor::Absent => {},
        Anchor::Loaded { height, hash } => {
            let mut t = "checkpoint anchor loaded from disk and re-verified: height ".to_owned();
            push_dec(&mut t, *height);
            t.append(", block ");
            t.append(hash.as_str());
            t.append(ANCHOR_LOADED_TAIL);
            say(&mut v, Mark::Info, "chain", t);
        },
        Anchor::NotVerified { height } => {
            let mut t = "the checkpoint anchor on disk (height ".to_owned();
            push_dec(&mut t, *height);
            t.append(ANCHOR_DISCARDED_TAIL);
            say(&mut v, Mark::Security, "chain", t);
        },
        Anchor::Unparsed(e) => {
            let mut t = "the checkpoint anchor row in the store could not be parsed (".to_owned();
            t.append(e.as_str());
            t.append(ANCHOR_UNPARSED_TAIL);
            say(&mut v, Mark::Security, "chain", t);
        },
        Anchor::Unreadable(e) => {
            let mut t = "could not read the checkpoint anchor row (".to_owned();
            t.append(e.as_str());
            t.append("); layer 2 starts shut");
            say(&mut v, Mark::Warn, "chain", t);
        },
    }
    assert(line_views(v@) =~= anchor_lines(*a));
    v
}

/// The line of a start that writes the genesis block.
pub fn created_line(network: &str, hash: &str) -> (t: String)
    ensures
        t@ == "created the "@ + network@ + " genesis at height 0, hash "@ + hash@,
{
    let mut t = "created the ".to_owned();
    t.append(network);
    t.append(" genesis at height 0, hash ");
    t.append(hash);
    t
}

/// The line of a start that finds a chain.
pub fn loaded_line(network: &str, height: u64, genesis: &str) -> (t: String)
    ensures
        t@ == "loaded the "@ + network@ + " chain at height "@ + text::dec(height as nat)
            + ", genesis "@ + genesis@,
{
    let mut t = "loaded the ".to_owned();
    t.append(network);
    t.append(" chain at height ");
    push_dec(&mut t, height);
    t.append(", genesis ");
    t.append(genesis);
    t
}

// ---------------------------------------------------------------------------
// The address book

/// What became of the addresses that were stored.
#[derive(Clone, Debug)]
pub enum Restored {
    Absent,
    /// The file could not be used: why, in words and as the reader has it.
    Ignored { why: String, detail: String },
    Addresses {
        loaded: u64,
        filtered: u64,
        over_quota: u64,
        too_old: u64,
        duplicate: u64,
        full: u64,
    },
}

pub open spec fn restored_line(r: Restored) -> LineView {
    match r {
        Restored::Absent => line(
            Mark::Info,
            "p2p"@,
            "no peers.dat yet; bootstrapping from seeds"@,
        ),
        Restored::Ignored { why, detail } => line(
            Mark::Warn,
            "p2p"@,
            "peers.dat ignored: "@ + why@ + " ("@ + detail@ + ")"@,
        ),
        Restored::Addresses { loaded, filtered, over_quota, too_old, duplicate, full } => line(
            Mark::Info,
            "p2p"@,
            "peers.dat: "@ + text::dec(loaded as nat) + " address(es) restored ("@ + text::dec(
                filtered as nat,
            ) + " unroutable now, "@ + text::dec(over_quota as nat) + " over the per-source quota, "@
                + text::dec(too_old as nat) + " too old, "@ + text::dec(duplicate as nat)
                + " already known, "@ + text::dec(full as nat) + " over cap)"@,
        ),
    }
}

/// What is said of the addresses that were stored.
pub fn restored(r: &Restored) -> (l: Line)
    ensures
        l@ == restored_line(*r),
{
    match r {
        Restored::Absent => Line {
            mark: Mark::Info,
            tag: "p2p",
            text: "no peers.dat yet; bootstrapping from seeds".to_owned(),
        },
        Restored::Ignored { why, detail } => {
            let mut t = "peers.dat ignored: ".to_owned();
            t.append(why.as_str());
            t.append(" (");
            t.append(detail.as_str());
            t.append(")");
            Line { mark: Mark::Warn, tag: "p2p", text: t }
        },
        Restored::Addresses { loaded, filtered, over_quota, too_old, duplicate, full } => {
            let mut t = "peers.dat: ".to_owned();
            push_dec(&mut t, *loaded);
            t.append(" address(es) restored (");
            push_dec(&mut t, *filtered);
            t.append(" unroutable now, ");
            push_dec(&mut t, *over_quota);
            t.append(" over the per-source quota, ");
            push_dec(&mut t, *too_old);
            t.append(" too old, ");
            push_dec(&mut t, *duplicate);
            t.append(" already known, ");
            push_dec(&mut t, *full);
            t.append(" over cap)");
            Line { mark: Mark::Info, tag: "p2p", text: t }
        },
    }
}

// ---------------------------------------------------------------------------
// The heartbeat

/// What a heartbeat says of peers and miners. The counters are said in brief,
/// and in full for a debugging session.
pub open spec fn beat_lines(peers: u64, outbound: u64, c: StratumCounts) -> Seq<LineView> {
    when(
        peers > 0 && outbound == 0,
        line(Mark::Warn, "p2p"@, boot::no_outbound(peers)),
    ) + (if c.conns > 0 || c.submitted > 0 || c.bad_json > 0 || c.bans > 0 || c.saturated > 0
        || c.internal_errors > 0 || c.revocations > 0 {
        seq![
            line(Mark::Info, "stratum"@, lines::brief(c)),
            line(Mark::Debug, "stratum"@, lines::counts_line(c)),
        ]
    } else {
        Seq::empty()
    })
}

/// What a heartbeat says of peers and miners.
pub fn beat(peers: u64, outbound: u64, c: &StratumCounts) -> (v: Vec<Line>)
    ensures
        line_views(v@) == beat_lines(peers, outbound, *c),
{
    let mut v: Vec<Line> = Vec::new();
    assert(line_views(v@) =~= Seq::<LineView>::empty());
    match outbound_warning(peers, outbound) {
        Some(t) => {
            say(&mut v, Mark::Warn, "p2p", t);
        },
        None => {},
    }
    if c.worth_printing() {
        say(&mut v, Mark::Info, "stratum", stratum_line_brief(c));
        say(&mut v, Mark::Debug, "stratum", stratum_line(c));
    }
    assert(line_views(v@) =~= beat_lines(peers, outbound, *c));
    v
}

/// A node whose account table does not match says so last, and so that it is
/// always shown.
pub proof fn law_a_wrong_table_stops_the_start(o: Opened)
    requires
        o.table is Mismatch,
    ensures
        opened_lines(o).last() == table_line(o.table),
        opened_lines(o).last().mark == Mark::Security,
{
}

// ---------------------------------------------------------------------------
// The stratum server

pub open spec fn stratum_said(
    addr: Seq<char>,
    max: u64,
    threads: u64,
    setpoint: Seq<char>,
    hrp: Seq<char>,
) -> Seq<char> {
    "listening on "@ + addr + " (max "@ + text::dec(max as nat) + " connections, "@ + text::dec(
        threads as nat,
    ) + " share-verify threads, setpoint "@ + setpoint + "s, hrp "@ + hrp + ")"@
}

pub open spec fn loopback_hint(port: u16) -> Seq<char> {
    "only miners on this machine can connect. To let others in, set listen = \"0.0.0.0:"@
        + text::dec(port as nat) + "\" under [stratum] in noded.toml"@
}

/// What is said of a stratum server that listens. One on loopback says so, and
/// how to open it.
pub open spec fn stratum_lines(
    a: Addr,
    max: u64,
    threads: u64,
    setpoint: Seq<char>,
    hrp: Seq<char>,
) -> Seq<LineView> {
    seq![line(Mark::Info, "stratum"@, stratum_said(a.text@, max, threads, setpoint, hrp))] + when(
        a.loopback,
        line(Mark::Info, "stratum"@, loopback_hint(a.port)),
    )
}

/// What is said of a stratum server that listens. `setpoint` is the number of
/// seconds a share is to take, in words.
pub fn stratum_listens(a: &Addr, max: u64, threads: u64, setpoint: &str, hrp: &str) -> (v: Vec<Line>)
    ensures
        line_views(v@) == stratum_lines(*a, max, threads, setpoint@, hrp@),
{
    let mut v: Vec<Line> = Vec::new();
    assert(line_views(v@) =~= Seq::<LineView>::empty());
    let mut t = "listening on ".to_owned();
    t.append(a.text.as_str());
    t.append(" (max ");
    push_dec(&mut t, max);
    t.append(" connections, ");
    push_dec(&mut t, threads);
    t.append(" share-verify threads, setpoint ");
    t.append(setpoint);
    t.append("s, hrp ");
    t.append(hrp);
    t.append(")");
    say(&mut v, Mark::Info, "stratum", t);
    if a.loopback {
        let mut h =
            "only miners on this machine can connect. To let others in, set listen = \"0.0.0.0:".to_owned();
        push_dec(&mut h, a.port as u64);
        h.append("\" under [stratum] in noded.toml");
        say(&mut v, Mark::Info, "stratum", h);
    }
    assert(line_views(v@) =~= stratum_lines(*a, max, threads, setpoint@, hrp@));
    v
}

// ---------------------------------------------------------------------------
// What the transport and the sweeper report

/// A condition of the transport, as it is shown in full, and the height that
/// it speaks of, in words.
#[derive(Clone, Debug)]
pub struct Seen {
    pub what: NetCondition,
    pub shown: String,
    pub height: String,
}

/// What is said of one condition. Bodies that a fork still wants are progress:
/// they are said calmly, and in full for a debugging session.
pub open spec fn condition_lines(c: Seen) -> Seq<LineView> {
    match c.what {
        NetCondition::ForkBodiesWanted { missing, .. } => seq![
            line(Mark::Info, "p2p"@, boot::syncing(c.height@, missing)),
            line(Mark::Debug, "p2p"@, c.shown@),
        ],
        _ => seq![line(Mark::Warn, "p2p"@, c.shown@)],
    }
}

/// What is said of conditions, one after the other.
pub open spec fn conditions_lines(missed: u64, fresh: Seq<Seen>) -> Seq<LineView>
    decreases fresh.len(),
{
    if fresh.len() == 0 {
        when(
            missed > 0,
            line(
                Mark::Warn,
                "p2p"@,
                text::dec(missed as nat) + " conditions were evicted before they were read"@,
            ),
        )
    } else {
        conditions_lines(missed, fresh.drop_last()) + condition_lines(fresh.last())
    }
}

/// What is said of the conditions that came since they were last read, and of
/// those that were lost meanwhile.
pub fn conditions(missed: u64, fresh: &[Seen]) -> (v: Vec<Line>)
    ensures
        line_views(v@) == conditions_lines(missed, fresh@),
{
    let mut v: Vec<Line> = Vec::new();
    assert(line_views(v@) =~= Seq::<LineView>::empty());
    if missed > 0 {
        let mut t = dec_of(missed);
        t.append(" conditions were evicted before they were read");
        say(&mut v, Mark::Warn, "p2p", t);
    }
    assert(fresh@.take(0) =~= Seq::<Seen>::empty());
    assert(line_views(v@) =~= conditions_lines(missed, fresh@.take(0)));
    let mut i: usize = 0;
    while i < fresh.len()
        invariant
            i <= fresh@.len(),
            line_views(v@) == conditions_lines(missed, fresh@.take(i as int)),
        decreases fresh@.len() - i,
    {
        let ghost before = line_views(v@);
        let c = &fresh[i];
        match &c.what {
            NetCondition::ForkBodiesWanted { missing, .. } => {
                say(&mut v, Mark::Info, "p2p", syncing_line(&c.height, *missing));
                say(&mut v, Mark::Debug, "p2p", c.shown.as_str().to_owned());
            },
            _ => {
                say(&mut v, Mark::Warn, "p2p", c.shown.as_str().to_owned());
            },
        }
        assert(line_views(v@) =~= before + condition_lines(*c));
        assert(fresh@.take(i + 1).drop_last() =~= fresh@.take(i as int));
        i += 1;
    }
    assert(fresh@.take(i as int) =~= fresh@);
    v
}

pub const SWEEP_BROKEN_MIDDLE: &'static str =
    ". The header below it does not hash to the parent that header states, so at least one header in this segment is not the one this node sealed. ";

/// What is said of a segment that a sweep found broken; `report` is the line of
/// the sweep.
pub open spec fn swept_line(seg: u32, height: u64, report: Seq<char>) -> LineView {
    line(
        Mark::Security,
        "storage"@,
        "L3-H: header segment "@ + text::dec(seg as nat) + " does not link at height "@ + text::dec(
            height as nat,
        ) + SWEEP_BROKEN_MIDDLE@ + report,
    )
}

/// What is said of a sweep: nothing where all is well, a line for each broken
/// segment, and of a sweep without a verdict only for a debugging session.
pub open spec fn swept_lines(clean: bool, broken: Seq<(u32, u64)>, report: Seq<char>) -> Seq<
    LineView,
> {
    if clean {
        Seq::empty()
    } else if broken.len() == 0 {
        seq![line(Mark::Debug, "storage"@, report)]
    } else {
        Seq::new(broken.len(), |i: int| swept_line(broken[i].0, broken[i].1, report))
    }
}

/// What is said of a periodic sweep over the headers.
pub fn swept(clean: bool, broken: &[(u32, u64)], report: &str) -> (v: Vec<Line>)
    ensures
        line_views(v@) == swept_lines(clean, broken@, report@),
{
    let mut v: Vec<Line> = Vec::new();
    assert(line_views(v@) =~= Seq::<LineView>::empty());
    if clean {
        return v;
    }
    if broken.len() == 0 {
        say(&mut v, Mark::Debug, "storage", report.to_owned());
        assert(line_views(v@) =~= swept_lines(clean, broken@, report@));
        return v;
    }
    let mut i: usize = 0;
    while i < broken.len()
        invariant
            i <= broken@.len(),
            line_views(v@) == Seq::new(
                i as nat,
                |k: int| swept_line(broken@[k].0, broken@[k].1, report@),
            ),
        decreases broken@.len() - i,
    {
        let (seg, height): (u32, u64) = broken[i];
        let mut t = "L3-H: header segment ".to_owned();
        push_dec(&mut t, seg as u64);
        t.append(" does not link at height ");
        push_dec(&mut t, height);
        t.append(SWEEP_BROKEN_MIDDLE);
        t.append(report);
        say(&mut v, Mark::Security, "storage", t);
        i += 1;
        assert(line_views(v@) =~= Seq::new(
            i as nat,
            |k: int| swept_line(broken@[k].0, broken@[k].1, report@),
        ));
    }
    v
}

// ---------------------------------------------------------------------------
// What the engine did, and whom it can call

/// What is said of the actions of the engine: those that were lost, and each of
/// the others.
pub open spec fn actions_lines(missed: u64, fresh: Seq<String>) -> Seq<LineView>
    decreases fresh.len(),
{
    if fresh.len() == 0 {
        when(
            missed > 0,
            line(
                Mark::Debug,
                "p2p"@,
                text::dec(missed as nat) + " engine actions were evicted before they were read"@,
            ),
        )
    } else {
        actions_lines(missed, fresh.drop_last()).push(line(Mark::Debug, "p2p"@, fresh.last()@))
    }
}

/// What a heartbeat says, in a debugging session, of what the engine did since
/// the last one. `fresh` are its actions, as they are shown in full.
pub fn actions(missed: u64, fresh: &[String]) -> (v: Vec<Line>)
    ensures
        line_views(v@) == actions_lines(missed, fresh@),
{
    let mut v: Vec<Line> = Vec::new();
    assert(line_views(v@) =~= Seq::<LineView>::empty());
    if missed > 0 {
        let mut t = dec_of(missed);
        t.append(" engine actions were evicted before they were read");
        say(&mut v, Mark::Debug, "p2p", t);
    }
    assert(fresh@.take(0) =~= Seq::<String>::empty());
    assert(line_views(v@) =~= actions_lines(missed, fresh@.take(0)));
    let mut i: usize = 0;
    while i < fresh.len()
        invariant
            i <= fresh@.len(),
            line_views(v@) == actions_lines(missed, fresh@.take(i as int)),
        decreases fresh@.len() - i,
    {
        let ghost before = line_views(v@);
        say(&mut v, Mark::Debug, "p2p", fresh[i].as_str().to_owned());
        assert(fresh@.take(i + 1).drop_last() =~= fresh@.take(i as int));
        assert(line_views(v@) =~= before.push(line(Mark::Debug, "p2p"@, fresh@[i as int]@)));
        i += 1;
    }
    assert(fresh@.take(i as int) =~= fresh@);
    v
}

pub const NO_SEEDS: &'static str =
    "No usable seeds. This node has nothing to dial and will only be found by peers that dial in. If that is not deliberate, set `p2p.seeds` in noded.toml.";

/// The warning of a node that has no seed it could call.
pub fn seeds_warning(hopeless: bool) -> (v: Vec<Line>)
    ensures
        line_views(v@) == when(hopeless, line(Mark::Warn, "p2p"@, NO_SEEDS@)),
{
    let mut v: Vec<Line> = Vec::new();
    assert(line_views(v@) =~= Seq::<LineView>::empty());
    if hopeless {
        say(&mut v, Mark::Warn, "p2p", NO_SEEDS.to_owned());
    }
    assert(line_views(v@) =~= when(hopeless, line(Mark::Warn, "p2p"@, NO_SEEDS@)));
    v
}

// ---------------------------------------------------------------------------
// The end

/// What a node has stopped: which of its parts it had, whether its address book
/// was written, and how the last blocks were sealed.
#[derive(Debug)]
pub struct Stopped {
    pub seeds: bool,
    pub stratum: bool,
    pub peers_saved: bool,
    pub net: bool,
    pub validator: bool,
    pub unsealed: u64,
    /// What was written in all, or why the last blocks could not be sealed.
    pub flushed: Result<CommitStats, String>,
    pub io: bool,
}

/// The line of the last seal.
pub open spec fn flushed_line(s: Stopped) -> LineView {
    match s.flushed {
        Ok(c) => line(
            Mark::Info,
            "shutdown"@,
            boot::sealed_said(s.unsealed, c.blocks, c.reorgs, c.forced_seals),
        ),
        Err(e) => line(Mark::Error, "shutdown"@, "final flush failed: "@ + e@),
    }
}

/// What a node says while it stops, in the order in which it stops its parts:
/// whoever brings work first, then whoever does it, then where it is kept.
pub open spec fn stopped_lines(s: Stopped) -> Seq<LineView> {
    when(s.seeds, line(Mark::Info, "shutdown"@, "seed bootstrap stopped"@)) + when(
        s.stratum,
        line(Mark::Info, "shutdown"@, "stratum: miners told to disconnect"@),
    ) + when(
        s.peers_saved,
        line(Mark::Info, "shutdown"@, "address book written to peers.dat"@),
    ) + when(s.net, line(Mark::Info, "shutdown"@, "p2p: peers closed, engine joined"@)) + when(
        s.validator,
        line(Mark::Info, "shutdown"@, "validator joined"@),
    ) + seq![flushed_line(s)] + when(
        s.io,
        line(Mark::Info, "shutdown"@, "node-io runtime stopped"@),
    )
}

fn say_if(v: &mut Vec<Line>, said: bool, text: &str)
    ensures
        line_views(final(v)@) == line_views(old(v)@) + when(
            said,
            line(Mark::Info, "shutdown"@, text@),
        ),
{
    let ghost before = line_views(v@);
    if said {
        say(v, Mark::Info, "shutdown", text.to_owned());
    }
    assert(line_views(v@) =~= before + when(said, line(Mark::Info, "shutdown"@, text@)));
}

/// What a node says while it stops.
pub fn stopped(s: &Stopped) -> (v: Vec<Line>)
    ensures
        line_views(v@) == stopped_lines(*s),
{
    let mut v: Vec<Line> = Vec::new();
    assert(line_views(v@) =~= Seq::<LineView>::empty());
    say_if(&mut v, s.seeds, "seed bootstrap stopped");
    say_if(&mut v, s.stratum, "stratum: miners told to disconnect");
    say_if(&mut v, s.peers_saved, "address book written to peers.dat");
    say_if(&mut v, s.net, "p2p: peers closed, engine joined");
    say_if(&mut v, s.validator, "validator joined");
    match &s.flushed {
        Ok(c) => say(&mut v, Mark::Info, "shutdown", sealed_line(s.unsealed, c)),
        Err(e) => {
            let mut t = "final flush failed: ".to_owned();
            t.append(e.as_str());
            say(&mut v, Mark::Error, "shutdown", t);
        },
    }
    say_if(&mut v, s.io, "node-io runtime stopped");
    assert(line_views(v@) =~= stopped_lines(*s));
    v
}

/// What came of writing the file that shows every setting.
#[derive(Clone, Debug)]
pub enum Wrote {
    /// The directory for it could not be made.
    NoDirectory { dir: String, why: String },
    Written { file: String },
    Failed { file: String, why: String },
}

pub open spec fn wrote_said(w: Wrote) -> LineView {
    match w {
        Wrote::NoDirectory { dir, why } => line(
            Mark::Warn,
            "config"@,
            "cannot create "@ + dir@ + ": "@ + why@,
        ),
        Wrote::Written { file } => line(
            Mark::Info,
            "config"@,
            "wrote a commented default config to "@ + file@
                + " - every line in it is commented out, so it changes nothing until you edit it"@,
        ),
        Wrote::Failed { file, why } => line(
            Mark::Warn,
            "config"@,
            "could not write "@ + file@ + ": "@ + why@ + " (continuing with defaults)"@,
        ),
    }
}

/// What is said of the file that shows every setting. A node that cannot write
/// it goes on without.
pub fn wrote_line(w: &Wrote) -> (l: Line)
    ensures
        l@ == wrote_said(*w),
{
    match w {
        Wrote::NoDirectory { dir, why } => {
            let mut t = "cannot create ".to_owned();
            t.append(dir.as_str());
            t.append(": ");
            t.append(why.as_str());
            Line { mark: Mark::Warn, tag: "config", text: t }
        },
        Wrote::Written { file } => {
            let mut t = "wrote a commented default config to ".to_owned();
            t.append(file.as_str());
            t.append(
                " - every line in it is commented out, so it changes nothing until you edit it",
            );
            Line { mark: Mark::Info, tag: "config", text: t }
        },
        Wrote::Failed { file, why } => {
            let mut t = "could not write ".to_owned();
            t.append(file.as_str());
            t.append(": ");
            t.append(why.as_str());
            t.append(" (continuing with defaults)");
            Line { mark: Mark::Warn, tag: "config", text: t }
        },
    }
}

// ---------------------------------------------------------------------------
// What the log keeps

/// A start fails on the store exactly where the account table does not match.
pub proof fn law_only_a_wrong_table_stops_the_start(
    o: &Opened,
    r: (Vec<Line>, Result<(), StartError>),
)
    requires
        call_ensures(opened, (o,), r),
    ensures
        r.1 is Err <==> o.table is Mismatch,
{
}

/// What is damaged on disk is always said, and marked so that it is always shown.
pub proof fn law_damage_is_always_shown(o: Opened)
    requires
        !(o.table is Mismatch),
        o.damaged > 0,
    ensures
        opened_lines(o).len() > 0,
        opened_lines(o).last().mark == Mark::Security,
{
}

/// A sweep names each segment that differs and each that does not link, in their
/// order, and marks them so that they are always shown.
pub proof fn law_every_bad_segment_is_named(segs: Seq<u32>, broken: Seq<(u32, u64)>, i: int, j: int)
    ensures
        l2_lines(segs).len() == segs.len(),
        l3h_lines(broken).len() == broken.len(),
        0 <= i < segs.len() ==> l2_lines(segs)[i].mark == Mark::Security && l2_lines(segs)[i].text
            == "L2: segment "@ + text::dec(segs[i] as nat) + L2_DIFFERS_TAIL@,
        0 <= j < broken.len() ==> l3h_lines(broken)[j].mark == Mark::Security && l3h_lines(
            broken,
        )[j].text == "L3-H: header segment "@ + text::dec(broken[j].0 as nat)
            + " does not link at height "@ + text::dec(broken[j].1 as nat) + L3H_BROKEN_TAIL@,
{
}

/// A heartbeat warns exactly where there are peers and none was dialled, and
/// tells of the stratum server exactly where there is something to tell.
pub proof fn law_a_heartbeat_warns_of_no_outbound(peers: u64, outbound: u64, c: StratumCounts)
    ensures
        ({
            let warned = peers > 0 && outbound == 0;
            let busy = c.conns > 0 || c.submitted > 0 || c.bad_json > 0 || c.bans > 0 || c.saturated
                > 0 || c.internal_errors > 0 || c.revocations > 0;
            let v = beat_lines(peers, outbound, c);
            &&& v.len() == (if warned {
                1int
            } else {
                0
            }) + (if busy {
                2int
            } else {
                0
            })
            &&& warned ==> v[0].mark == Mark::Warn
            &&& !warned && busy ==> v[0].mark == Mark::Info && v[1].mark == Mark::Debug
        }),
{
}

/// Conditions are said in the order in which they came: one that is progress
/// calmly and then in full, any other as a warning.
pub proof fn law_conditions_are_said_in_order(missed: u64, fresh: Seq<Seen>, c: Seen)
    ensures
        conditions_lines(missed, Seq::empty()).len() == (if missed > 0 {
            1int
        } else {
            0
        }),
        c.what is ForkBodiesWanted ==> conditions_lines(missed, fresh.push(c)).len()
            == conditions_lines(missed, fresh).len() + 2 && conditions_lines(
            missed,
            fresh.push(c),
        ).last() == line(Mark::Debug, "p2p"@, c.shown@),
        !(c.what is ForkBodiesWanted) ==> conditions_lines(missed, fresh.push(c))
            == conditions_lines(missed, fresh).push(line(Mark::Warn, "p2p"@, c.shown@)),
{
    assert(fresh.push(c).drop_last() =~= fresh);
    let a = conditions_lines(missed, fresh);
    let l = line(Mark::Warn, "p2p"@, c.shown@);
    assert(a + seq![l] =~= a.push(l));
}

/// The actions of the engine are said in their order, and those that were lost
/// before them.
pub proof fn law_actions_are_said_in_order(missed: u64, fresh: Seq<String>, a: String)
    ensures
        actions_lines(missed, fresh.push(a)) == actions_lines(missed, fresh).push(
            line(Mark::Debug, "p2p"@, a@),
        ),
        actions_lines(missed, Seq::empty()).len() == (if missed > 0 {
            1int
        } else {
            0
        }),
{
    assert(fresh.push(a).drop_last() =~= fresh);
}

/// A clean sweep is silent; each broken segment is said and always shown; and a
/// sweep without a verdict is not called clean.
pub proof fn law_a_sweep_without_a_verdict_is_not_clean(
    clean: bool,
    broken: Seq<(u32, u64)>,
    report: Seq<char>,
    i: int,
)
    ensures
        swept_lines(clean, broken, report).len() == 0 <==> clean,
        !clean && 0 <= i < broken.len() ==> swept_lines(clean, broken, report).len() == broken.len()
            && swept_lines(clean, broken, report)[i].mark == Mark::Security,
        !clean && broken.len() == 0 ==> swept_lines(clean, broken, report)[0].mark == Mark::Debug,
{
}

/// However a node stops, it says how its last blocks were sealed, as an error
/// where they were not.
pub proof fn law_a_stop_tells_of_its_last_seal(s: Stopped)
    ensures
        stopped_lines(s).contains(flushed_line(s)),
        flushed_line(s).mark == Mark::Error <==> s.flushed is Err,
        !s.io ==> stopped_lines(s).last() == flushed_line(s),
{
    let front = when(s.seeds, line(Mark::Info, "shutdown"@, "seed bootstrap stopped"@)) + when(
        s.stratum,
        line(Mark::Info, "shutdown"@, "stratum: miners told to disconnect"@),
    ) + when(
        s.peers_saved,
        line(Mark::Info, "shutdown"@, "address book written to peers.dat"@),
    ) + when(s.net, line(Mark::Info, "shutdown"@, "p2p: peers closed, engine joined"@)) + when(
        s.validator,
        line(Mark::Info, "shutdown"@, "validator joined"@),
    );
    assert(stopped_lines(s)[front.len() as int] == flushed_line(s));
}

/// A stratum server that only this machine can reach says how to open it.
pub proof fn law_a_loopback_server_says_how_to_open_it(
    a: Addr,
    max: u64,
    threads: u64,
    setpoint: Seq<char>,
    hrp: Seq<char>,
)
    ensures
        stratum_lines(a, max, threads, setpoint, hrp).len() == (if a.loopback {
            2int
        } else {
            1
        }),
{
}

} // verus!
