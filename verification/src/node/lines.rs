//! The lines that a node's log shows of its stratum server and of its sweeps
//! over what is stored.

use vstd::prelude::*;
use crate::miner::status;
use crate::text;
use crate::text::push_dec;

verus! {

/// The counters of the stratum server.
#[derive(Clone, Copy, Debug, PartialEq, Eq)]
pub struct StratumCounts {
    pub conns: usize,
    pub accepted: u64,
    pub submitted: u64,
    pub verified: u64,
    pub blocks: u64,
    pub stale: u64,
    pub duplicate: u64,
    pub low_difficulty: u64,
    pub out_of_slice: u64,
    pub unknown_job: u64,
    pub bad_json: u64,
    pub keepalives: u64,
    pub bans: u64,
    pub saturated: u64,
    pub internal_errors: u64,
    pub throttled: u64,
    pub server_busy: u64,
    pub verify_queue: usize,
    pub revocations: u64,
    pub closed_idle: u64,
    pub closed_auth_timeout: u64,
    pub closed_slow_client: u64,
    pub closed_line_flood: u64,
    pub closed_slice_revoked: u64,
}

impl Default for StratumCounts {
    fn default() -> (c: StratumCounts)
        ensures
            c == no_counts(),
    {
        StratumCounts {
            conns: 0,
            accepted: 0,
            submitted: 0,
            verified: 0,
            blocks: 0,
            stale: 0,
            duplicate: 0,
            low_difficulty: 0,
            out_of_slice: 0,
            unknown_job: 0,
            bad_json: 0,
            keepalives: 0,
            bans: 0,
            saturated: 0,
            internal_errors: 0,
            throttled: 0,
            server_busy: 0,
            verify_queue: 0,
            revocations: 0,
            closed_idle: 0,
            closed_auth_timeout: 0,
            closed_slow_client: 0,
            closed_line_flood: 0,
            closed_slice_revoked: 0,
        }
    }
}

pub open spec fn no_counts() -> StratumCounts {
    StratumCounts {
        conns: 0,
        accepted: 0,
        submitted: 0,
        verified: 0,
        blocks: 0,
        stale: 0,
        duplicate: 0,
        low_difficulty: 0,
        out_of_slice: 0,
        unknown_job: 0,
        bad_json: 0,
        keepalives: 0,
        bans: 0,
        saturated: 0,
        internal_errors: 0,
        throttled: 0,
        server_busy: 0,
        verify_queue: 0,
        revocations: 0,
        closed_idle: 0,
        closed_auth_timeout: 0,
        closed_slow_client: 0,
        closed_line_flood: 0,
        closed_slice_revoked: 0,
    }
}

impl StratumCounts {
    /// Whether there is anything to say: a connection, a share, or a sign of
    /// abuse. A flood that is refused shows with nobody connected.
    pub fn worth_printing(&self) -> (r: bool)
        ensures
            r == (self.conns > 0 || self.submitted > 0 || self.bad_json > 0 || self.bans > 0
                || self.saturated > 0 || self.internal_errors > 0 || self.revocations > 0),
    {
        self.conns > 0 || self.submitted > 0 || self.bad_json > 0 || self.bans > 0 || self.saturated
            > 0 || self.internal_errors > 0 || self.revocations > 0
    }
}

/// What came in and what was made of it.
pub open spec fn traffic(c: StratumCounts) -> Seq<char> {
    "conns "@ + text::dec(c.conns as nat) + "  shares "@ + text::dec(c.accepted as nat) + "/"@ + text::dec(c.submitted as nat) + " accepted  verified "@ + text::dec(c.verified as nat) + "  blocks "@ + text::dec(c.blocks as nat) + "  verify-queue "@ + text::dec(c.verify_queue as nat)
}

fn push_traffic(t: &mut String, c: &StratumCounts)
    ensures
        final(t)@ == old(t)@ + traffic(*c),
{
    let mut u = "conns ".to_owned();
    push_dec(&mut u, c.conns as u64);
    u.append("  shares ");
    push_dec(&mut u, c.accepted as u64);
    u.append("/");
    push_dec(&mut u, c.submitted as u64);
    u.append(" accepted  verified ");
    push_dec(&mut u, c.verified as u64);
    u.append("  blocks ");
    push_dec(&mut u, c.blocks as u64);
    u.append("  verify-queue ");
    push_dec(&mut u, c.verify_queue as u64);
    t.append(u.as_str());
}

proof fn lemma_traffic(c: StratumCounts)
    ensures
        status::one_line(traffic(c)),
{
    reveal_strlit("conns ");
    reveal_strlit("  shares ");
    reveal_strlit("/");
    reveal_strlit(" accepted  verified ");
    reveal_strlit("  blocks ");
    reveal_strlit("  verify-queue ");
    status::lemma_dec_line(c.conns as nat);
    let t = "conns "@ + text::dec(c.conns as nat);
    assert(status::one_line(t));
    status::lemma_dec_line(c.accepted as nat);
    let t = t + "  shares "@;
    assert(status::one_line(t));
    let t = t + text::dec(c.accepted as nat);
    assert(status::one_line(t));
    status::lemma_dec_line(c.submitted as nat);
    let t = t + "/"@;
    assert(status::one_line(t));
    let t = t + text::dec(c.submitted as nat);
    assert(status::one_line(t));
    status::lemma_dec_line(c.verified as nat);
    let t = t + " accepted  verified "@;
    assert(status::one_line(t));
    let t = t + text::dec(c.verified as nat);
    assert(status::one_line(t));
    status::lemma_dec_line(c.blocks as nat);
    let t = t + "  blocks "@;
    assert(status::one_line(t));
    let t = t + text::dec(c.blocks as nat);
    assert(status::one_line(t));
    status::lemma_dec_line(c.verify_queue as nat);
    let t = t + "  verify-queue "@;
    assert(status::one_line(t));
    let t = t + text::dec(c.verify_queue as nat);
    assert(status::one_line(t));
}

/// What was refused: for reasons of the node's own first, and then of the miners'.
pub open spec fn refusals(c: StratumCounts) -> Seq<char> {
    "  rejected internal-error "@ + text::dec(c.internal_errors as nat) + " throttled "@ + text::dec(c.throttled as nat) + " server-busy "@ + text::dec(c.server_busy as nat) + " stale "@ + text::dec(c.stale as nat) + " dup "@ + text::dec(c.duplicate as nat) + " lowdiff "@ + text::dec(c.low_difficulty as nat) + " slice "@ + text::dec(c.out_of_slice as nat) + " unknown-job "@ + text::dec(c.unknown_job as nat)
}

fn push_refusals(t: &mut String, c: &StratumCounts)
    ensures
        final(t)@ == old(t)@ + refusals(*c),
{
    let mut u = "  rejected internal-error ".to_owned();
    push_dec(&mut u, c.internal_errors as u64);
    u.append(" throttled ");
    push_dec(&mut u, c.throttled as u64);
    u.append(" server-busy ");
    push_dec(&mut u, c.server_busy as u64);
    u.append(" stale ");
    push_dec(&mut u, c.stale as u64);
    u.append(" dup ");
    push_dec(&mut u, c.duplicate as u64);
    u.append(" lowdiff ");
    push_dec(&mut u, c.low_difficulty as u64);
    u.append(" slice ");
    push_dec(&mut u, c.out_of_slice as u64);
    u.append(" unknown-job ");
    push_dec(&mut u, c.unknown_job as u64);
    t.append(u.as_str());
}

proof fn lemma_refusals(c: StratumCounts)
    ensures
        status::one_line(refusals(c)),
{
    reveal_strlit("  rejected internal-error ");
    reveal_strlit(" throttled ");
    reveal_strlit(" server-busy ");
    reveal_strlit(" stale ");
    reveal_strlit(" dup ");
    reveal_strlit(" lowdiff ");
    reveal_strlit(" slice ");
    reveal_strlit(" unknown-job ");
    status::lemma_dec_line(c.internal_errors as nat);
    let t = "  rejected internal-error "@ + text::dec(c.internal_errors as nat);
    assert(status::one_line(t));
    status::lemma_dec_line(c.throttled as nat);
    let t = t + " throttled "@;
    assert(status::one_line(t));
    let t = t + text::dec(c.throttled as nat);
    assert(status::one_line(t));
    status::lemma_dec_line(c.server_busy as nat);
    let t = t + " server-busy "@;
    assert(status::one_line(t));
    let t = t + text::dec(c.server_busy as nat);
    assert(status::one_line(t));
    status::lemma_dec_line(c.stale as nat);
    let t = t + " stale "@;
    assert(status::one_line(t));
    let t = t + text::dec(c.stale as nat);
    assert(status::one_line(t));
    status::lemma_dec_line(c.duplicate as nat);
    let t = t + " dup "@;
    assert(status::one_line(t));
    let t = t + text::dec(c.duplicate as nat);
    assert(status::one_line(t));
    status::lemma_dec_line(c.low_difficulty as nat);
    let t = t + " lowdiff "@;
    assert(status::one_line(t));
    let t = t + text::dec(c.low_difficulty as nat);
    assert(status::one_line(t));
    status::lemma_dec_line(c.out_of_slice as nat);
    let t = t + " slice "@;
    assert(status::one_line(t));
    let t = t + text::dec(c.out_of_slice as nat);
    assert(status::one_line(t));
    status::lemma_dec_line(c.unknown_job as nat);
    let t = t + " unknown-job "@;
    assert(status::one_line(t));
    let t = t + text::dec(c.unknown_job as nat);
    assert(status::one_line(t));
}

/// What was abusive.
pub open spec fn abuse(c: StratumCounts) -> Seq<char> {
    "  bad-json "@ + text::dec(c.bad_json as nat) + "  keepalive "@ + text::dec(c.keepalives as nat) + "  bans "@ + text::dec(c.bans as nat) + "  ban-table-saturated "@ + text::dec(c.saturated as nat) + "  revocations "@ + text::dec(c.revocations as nat)
}

fn push_abuse(t: &mut String, c: &StratumCounts)
    ensures
        final(t)@ == old(t)@ + abuse(*c),
{
    let mut u = "  bad-json ".to_owned();
    push_dec(&mut u, c.bad_json as u64);
    u.append("  keepalive ");
    push_dec(&mut u, c.keepalives as u64);
    u.append("  bans ");
    push_dec(&mut u, c.bans as u64);
    u.append("  ban-table-saturated ");
    push_dec(&mut u, c.saturated as u64);
    u.append("  revocations ");
    push_dec(&mut u, c.revocations as u64);
    t.append(u.as_str());
}

proof fn lemma_abuse(c: StratumCounts)
    ensures
        status::one_line(abuse(c)),
{
    reveal_strlit("  bad-json ");
    reveal_strlit("  keepalive ");
    reveal_strlit("  bans ");
    reveal_strlit("  ban-table-saturated ");
    reveal_strlit("  revocations ");
    status::lemma_dec_line(c.bad_json as nat);
    let t = "  bad-json "@ + text::dec(c.bad_json as nat);
    assert(status::one_line(t));
    status::lemma_dec_line(c.keepalives as nat);
    let t = t + "  keepalive "@;
    assert(status::one_line(t));
    let t = t + text::dec(c.keepalives as nat);
    assert(status::one_line(t));
    status::lemma_dec_line(c.bans as nat);
    let t = t + "  bans "@;
    assert(status::one_line(t));
    let t = t + text::dec(c.bans as nat);
    assert(status::one_line(t));
    status::lemma_dec_line(c.saturated as nat);
    let t = t + "  ban-table-saturated "@;
    assert(status::one_line(t));
    let t = t + text::dec(c.saturated as nat);
    assert(status::one_line(t));
    status::lemma_dec_line(c.revocations as nat);
    let t = t + "  revocations "@;
    assert(status::one_line(t));
    let t = t + text::dec(c.revocations as nat);
    assert(status::one_line(t));
}

/// Why connections were closed.
pub open spec fn closes(c: StratumCounts) -> Seq<char> {
    "  closed idle "@ + text::dec(c.closed_idle as nat) + " auth-timeout "@ + text::dec(c.closed_auth_timeout as nat) + " slow-client "@ + text::dec(c.closed_slow_client as nat) + " line-flood "@ + text::dec(c.closed_line_flood as nat) + " slice-revoked "@ + text::dec(c.closed_slice_revoked as nat)
}

fn push_closes(t: &mut String, c: &StratumCounts)
    ensures
        final(t)@ == old(t)@ + closes(*c),
{
    let mut u = "  closed idle ".to_owned();
    push_dec(&mut u, c.closed_idle as u64);
    u.append(" auth-timeout ");
    push_dec(&mut u, c.closed_auth_timeout as u64);
    u.append(" slow-client ");
    push_dec(&mut u, c.closed_slow_client as u64);
    u.append(" line-flood ");
    push_dec(&mut u, c.closed_line_flood as u64);
    u.append(" slice-revoked ");
    push_dec(&mut u, c.closed_slice_revoked as u64);
    t.append(u.as_str());
}

proof fn lemma_closes(c: StratumCounts)
    ensures
        status::one_line(closes(c)),
{
    reveal_strlit("  closed idle ");
    reveal_strlit(" auth-timeout ");
    reveal_strlit(" slow-client ");
    reveal_strlit(" line-flood ");
    reveal_strlit(" slice-revoked ");
    status::lemma_dec_line(c.closed_idle as nat);
    let t = "  closed idle "@ + text::dec(c.closed_idle as nat);
    assert(status::one_line(t));
    status::lemma_dec_line(c.closed_auth_timeout as nat);
    let t = t + " auth-timeout "@;
    assert(status::one_line(t));
    let t = t + text::dec(c.closed_auth_timeout as nat);
    assert(status::one_line(t));
    status::lemma_dec_line(c.closed_slow_client as nat);
    let t = t + " slow-client "@;
    assert(status::one_line(t));
    let t = t + text::dec(c.closed_slow_client as nat);
    assert(status::one_line(t));
    status::lemma_dec_line(c.closed_line_flood as nat);
    let t = t + " line-flood "@;
    assert(status::one_line(t));
    let t = t + text::dec(c.closed_line_flood as nat);
    assert(status::one_line(t));
    status::lemma_dec_line(c.closed_slice_revoked as nat);
    let t = t + " slice-revoked "@;
    assert(status::one_line(t));
    let t = t + text::dec(c.closed_slice_revoked as nat);
    assert(status::one_line(t));
}

/// Every counter, on one line.
pub open spec fn counts_line(c: StratumCounts) -> Seq<char> {
    traffic(c) + refusals(c) + abuse(c) + closes(c)
}

/// Every counter, on one line.
pub fn stratum_line(c: &StratumCounts) -> (t: String)
    ensures
        t@ == counts_line(*c),
{
    let mut t = String::new();
    push_traffic(&mut t, c);
    assert(t@ =~= traffic(*c));
    push_refusals(&mut t, c);
    push_abuse(&mut t, c);
    push_closes(&mut t, c);
    t
}

/// The counters are always on one line.
pub proof fn law_the_counters_are_one_line(c: StratumCounts)
    ensures
        status::one_line(counts_line(c)),
{
    lemma_traffic(c);
    lemma_refusals(c);
    lemma_abuse(c);
    lemma_closes(c);
    let t = traffic(c) + refusals(c);
    assert(status::one_line(t));
    let t = t + abuse(c);
    assert(status::one_line(t));
    let t = t + closes(c);
    assert(status::one_line(t));
}

/// What an operator watches at a glance.
pub open spec fn brief(c: StratumCounts) -> Seq<char> {
    "conns "@ + text::dec(c.conns as nat) + "  shares "@ + text::dec(c.accepted as nat)
        + " accepted  "@ + text::dec(
        if c.accepted <= c.submitted {
            (c.submitted - c.accepted) as nat
        } else {
            0
        },
    ) + " rejected  blocks "@ + text::dec(c.blocks as nat)
}

/// What an operator watches at a glance.
pub fn stratum_line_brief(c: &StratumCounts) -> (t: String)
    ensures
        t@ == brief(*c),
{
    let mut t = "conns ".to_owned();
    push_dec(&mut t, c.conns as u64);
    t.append("  shares ");
    push_dec(&mut t, c.accepted);
    t.append(" accepted  ");
    push_dec(&mut t, c.submitted.saturating_sub(c.accepted));
    t.append(" rejected  blocks ");
    push_dec(&mut t, c.blocks);
    t
}

// ---------------------------------------------------------------------------
// Sweeps

/// The segments to sweep: from the one that the prune floor lies in to the one
/// of the tip, and at least one.
pub fn sweep_range(floor: u32, tip: u32) -> (r: (u32, u32))
    ensures
        r.0 == floor,
        r.1 == (if tip < floor {
            floor
        } else {
            tip
        }),
{
    (
        floor,
        if tip < floor {
            floor
        } else {
            tip
        },
    )
}

/// What a look at the frames of a segment gave.
#[derive(Clone, Copy, Debug, PartialEq, Eq, Structural)]
pub enum Frames {
    Match,
    Differ,
    /// There is nothing to hold them against, or they could not be read.
    NoVerdict,
}

/// What a sweep over the frames of the bodies found.
#[derive(Debug, PartialEq, Eq)]
pub struct L2Sweep {
    pub verified: u64,
    pub mismatched: Vec<u32>,
    pub unjudged: u64,
    pub range: (u32, u32),
}

/// How many of the segments gave the verdict.
pub open spec fn frames_with(v: Seq<Frames>, f: Frames) -> nat
    decreases v.len(),
{
    if v.len() == 0 {
        0
    } else {
        frames_with(v.drop_last(), f) + (if v.last() == f {
            1nat
        } else {
            0
        })
    }
}

/// The segments that differ, when the first of them is `first`.
pub open spec fn differing(v: Seq<Frames>, first: u32) -> Seq<u32>
    decreases v.len(),
{
    if v.len() == 0 {
        Seq::empty()
    } else {
        let head = differing(v.drop_last(), first);
        if v.last() == Frames::Differ {
            head.push((first + v.len() - 1) as u32)
        } else {
            head
        }
    }
}

/// What the verdicts on the segments from `range.0` to `range.1` come to. A
/// segment without a verdict is not counted as verified.
pub fn l2_frame_sweep(range: (u32, u32), verdicts: &[Frames]) -> (s: L2Sweep)
    requires
        range.0 <= range.1,
        verdicts@.len() == range.1 - range.0 + 1,
    ensures
        s.range == range,
        s.verified == frames_with(verdicts@, Frames::Match),
        s.unjudged == frames_with(verdicts@, Frames::NoVerdict),
        s.mismatched@ == differing(verdicts@, range.0),
{
    let mut verified: u64 = 0;
    let mut unjudged: u64 = 0;
    let mut mismatched: Vec<u32> = Vec::new();
    let mut i: usize = 0;
    assert(verdicts@.take(0) =~= Seq::<Frames>::empty());
    while i < verdicts.len()
        invariant
            i <= verdicts@.len(),
            range.0 <= range.1,
            verdicts@.len() == range.1 - range.0 + 1,
            verified <= i,
            unjudged <= i,
            verified == frames_with(verdicts@.take(i as int), Frames::Match),
            unjudged == frames_with(verdicts@.take(i as int), Frames::NoVerdict),
            mismatched@ == differing(verdicts@.take(i as int), range.0),
        decreases verdicts.len() - i,
    {
        assert(verdicts@.take(i as int + 1).drop_last() =~= verdicts@.take(i as int));
        match verdicts[i] {
            Frames::Match => {
                verified += 1;
            },
            Frames::Differ => {
                mismatched.push(range.0 + i as u32);
            },
            Frames::NoVerdict => {
                unjudged += 1;
            },
        }
        i += 1;
    }
    assert(verdicts@.take(i as int) =~= verdicts@);
    L2Sweep { verified, mismatched, unjudged, range }
}

pub const L2_TAIL: &'static str =
    " could not be judged at this tier (no anchor or no identity). \"Could not be judged\" is not \"clean\".";

impl L2Sweep {
    pub open spec fn said(self) -> Seq<char> {
        "L2 frame sweep over segments "@ + text::dec(self.range.0 as nat) + "..="@ + text::dec(
            self.range.1 as nat,
        ) + ": "@ + text::dec(self.verified as nat) + " verified, "@ + text::dec(
            self.mismatched@.len(),
        ) + " MISMATCHED, "@ + text::dec(self.unjudged as nat) + L2_TAIL@
    }

    /// What the sweep found, in words.
    pub fn line(&self) -> (t: String)
        ensures
            t@ == self.said(),
    {
        let mut t = "L2 frame sweep over segments ".to_owned();
        push_dec(&mut t, self.range.0 as u64);
        t.append("..=");
        push_dec(&mut t, self.range.1 as u64);
        t.append(": ");
        push_dec(&mut t, self.verified);
        t.append(" verified, ");
        push_dec(&mut t, self.mismatched.len() as u64);
        t.append(" MISMATCHED, ");
        push_dec(&mut t, self.unjudged);
        t.append(L2_TAIL);
        t
    }
}

/// What a walk along the headers of a segment gave.
#[derive(Clone, Copy, Debug, PartialEq, Eq)]
pub enum Links {
    /// So many links, and all of them hold.
    Hold(u64),
    /// The one at the height does not.
    BrokenAt(u64),
    NoVerdict,
}

/// What a sweep along the headers found.
#[derive(Debug, PartialEq, Eq)]
pub struct L3HSweep {
    pub links: u64,
    pub broken: Vec<(u32, u64)>,
    pub unjudged: u64,
    pub range: (u32, u32),
}

/// How many links hold in all.
pub open spec fn links_held(v: Seq<Links>) -> nat
    decreases v.len(),
{
    if v.len() == 0 {
        0
    } else {
        links_held(v.drop_last()) + (match v.last() {
            Links::Hold(n) => n as nat,
            _ => 0,
        })
    }
}

/// How many segments have no verdict.
pub open spec fn unjudged_links(v: Seq<Links>) -> nat
    decreases v.len(),
{
    if v.len() == 0 {
        0
    } else {
        unjudged_links(v.drop_last()) + (if v.last() is NoVerdict {
            1nat
        } else {
            0
        })
    }
}

/// The segments with a broken link, and where it is.
pub open spec fn breaks(v: Seq<Links>, first: u32) -> Seq<(u32, u64)>
    decreases v.len(),
{
    if v.len() == 0 {
        Seq::empty()
    } else {
        let head = breaks(v.drop_last(), first);
        match v.last() {
            Links::BrokenAt(h) => head.push(((first + v.len() - 1) as u32, h)),
            _ => head,
        }
    }
}

proof fn lemma_links_prefix(v: Seq<Links>, n: int)
    requires
        0 <= n <= v.len(),
    ensures
        links_held(v.take(n)) <= links_held(v),
    decreases v.len(),
{
    if n == v.len() {
        assert(v.take(n) =~= v);
    } else {
        lemma_links_prefix(v.drop_last(), n);
        assert(v.drop_last().take(n) =~= v.take(n));
    }
}

/// What the verdicts on the segments from `range.0` to `range.1` come to.
pub fn l3h_header_sweep(range: (u32, u32), verdicts: &[Links]) -> (s: L3HSweep)
    requires
        range.0 <= range.1,
        verdicts@.len() == range.1 - range.0 + 1,
        links_held(verdicts@) <= u64::MAX,
    ensures
        s.range == range,
        s.links == links_held(verdicts@),
        s.unjudged == unjudged_links(verdicts@),
        s.broken@ == breaks(verdicts@, range.0),
{
    let mut links: u64 = 0;
    let mut unjudged: u64 = 0;
    let mut broken: Vec<(u32, u64)> = Vec::new();
    let mut i: usize = 0;
    assert(verdicts@.take(0) =~= Seq::<Links>::empty());
    while i < verdicts.len()
        invariant
            i <= verdicts@.len(),
            range.0 <= range.1,
            verdicts@.len() == range.1 - range.0 + 1,
            links_held(verdicts@) <= u64::MAX,
            unjudged <= i,
            links == links_held(verdicts@.take(i as int)),
            unjudged == unjudged_links(verdicts@.take(i as int)),
            broken@ == breaks(verdicts@.take(i as int), range.0),
        decreases verdicts.len() - i,
    {
        assert(verdicts@.take(i as int + 1).drop_last() =~= verdicts@.take(i as int));
        proof {
            lemma_links_prefix(verdicts@, i as int + 1);
        }
        match verdicts[i] {
            Links::Hold(n) => {
                links += n;
            },
            Links::BrokenAt(h) => {
                broken.push((range.0 + i as u32, h));
            },
            Links::NoVerdict => {
                unjudged += 1;
            },
        }
        i += 1;
    }
    assert(verdicts@.take(i as int) =~= verdicts@);
    L3HSweep { links, broken, unjudged, range }
}

pub const L3H_TAIL: &'static str =
    " segment(s) could not be judged at this tier (not sealed, or already named damaged by L1). \"Could not be judged\" is not \"clean\", and neither is a clean L2 line above this one - L2 reads no interior header at all.";

impl L3HSweep {
    pub open spec fn said(self) -> Seq<char> {
        "L3-H header linkage sweep over segments "@ + text::dec(self.range.0 as nat) + "..="@
            + text::dec(self.range.1 as nat) + ": "@ + text::dec(self.links as nat)
            + " links verified, "@ + text::dec(self.broken@.len()) + " BROKEN, "@ + text::dec(
            self.unjudged as nat,
        ) + L3H_TAIL@
    }

    /// What the sweep found, in words.
    pub fn line(&self) -> (t: String)
        ensures
            t@ == self.said(),
    {
        let mut t = "L3-H header linkage sweep over segments ".to_owned();
        push_dec(&mut t, self.range.0 as u64);
        t.append("..=");
        push_dec(&mut t, self.range.1 as u64);
        t.append(": ");
        push_dec(&mut t, self.links);
        t.append(" links verified, ");
        push_dec(&mut t, self.broken.len() as u64);
        t.append(" BROKEN, ");
        push_dec(&mut t, self.unjudged);
        t.append(L3H_TAIL);
        t
    }
}

/// Every segment of a sweep is counted once: as verified, as mismatched or as
/// not judged.
pub proof fn law_every_segment_is_counted_once(v: Seq<Frames>, first: u32)
    ensures
        frames_with(v, Frames::Match) + differing(v, first).len() + frames_with(
            v,
            Frames::NoVerdict,
        ) == v.len(),
    decreases v.len(),
{
    if v.len() > 0 {
        law_every_segment_is_counted_once(v.drop_last(), first);
    }
}

// ---------------------------------------------------------------------------
// What a sweep counts

/// One segment more of a sweep of frames is counted by its own verdict, and one
/// that differs is named by its number.
pub proof fn law_a_segment_is_counted_by_its_verdict(v: Seq<Frames>, f: Frames, g: Frames, first: u32)
    requires
        first + v.len() <= u32::MAX,
    ensures
        frames_with(Seq::empty(), g) == 0,
        f == g ==> frames_with(v.push(f), g) == frames_with(v, g) + 1,
        f != g ==> frames_with(v.push(f), g) == frames_with(v, g),
        f == Frames::Differ ==> differing(v.push(f), first) == differing(v, first).push(
            (first + v.len()) as u32,
        ),
        f != Frames::Differ ==> differing(v.push(f), first) == differing(v, first),
{
    assert(v.push(f).drop_last() =~= v);
}

/// One segment more of a sweep of headers adds the links that hold in it, or is
/// named with the height of the broken one, or is counted as not judged.
pub proof fn law_links_are_counted_by_their_verdict(v: Seq<Links>, l: Links, first: u32)
    requires
        first + v.len() <= u32::MAX,
    ensures
        links_held(Seq::empty()) == 0,
        unjudged_links(Seq::empty()) == 0,
        breaks(Seq::empty(), first).len() == 0,
        l matches Links::Hold(n) ==> links_held(v.push(l)) == links_held(v) + n && breaks(
            v.push(l),
            first,
        ) == breaks(v, first) && unjudged_links(v.push(l)) == unjudged_links(v),
        l matches Links::BrokenAt(h) ==> links_held(v.push(l)) == links_held(v) && breaks(
            v.push(l),
            first,
        ) == breaks(v, first).push(((first + v.len()) as u32, h)) && unjudged_links(v.push(l))
            == unjudged_links(v),
        l is NoVerdict ==> links_held(v.push(l)) == links_held(v) && breaks(v.push(l), first)
            == breaks(v, first) && unjudged_links(v.push(l)) == unjudged_links(v) + 1,
{
    assert(v.push(l).drop_last() =~= v);
}

/// A sweep of frames finds a segment clean exactly where its verdict is a match:
/// all are verified only where all match.
pub proof fn law_unjudged_is_not_verified(range: (u32, u32), verdicts: &[Frames], s: L2Sweep)
    requires
        range.0 <= range.1,
        verdicts@.len() == range.1 - range.0 + 1,
        call_ensures(l2_frame_sweep, (range, verdicts), s),
    ensures
        s.verified + s.unjudged + s.mismatched@.len() == range.1 - range.0 + 1,
        s.range == range,
        s.verified == range.1 - range.0 + 1 <==> forall|i: int|
            0 <= i < verdicts@.len() ==> (#[trigger] verdicts@[i]) == Frames::Match,
{
    law_every_segment_is_counted_once(verdicts@, range.0);
    lemma_all_match(verdicts@);
}

proof fn lemma_all_match(v: Seq<Frames>)
    ensures
        frames_with(v, Frames::Match) <= v.len(),
        frames_with(v, Frames::Match) == v.len() <==> forall|i: int|
            0 <= i < v.len() ==> (#[trigger] v[i]) == Frames::Match,
    decreases v.len(),
{
    if v.len() > 0 {
        let t = v.drop_last();
        lemma_all_match(t);
        if frames_with(v, Frames::Match) == v.len() {
            assert forall|i: int| 0 <= i < v.len() implies (#[trigger] v[i]) == Frames::Match by {
                if i < t.len() {
                    assert(t[i] == Frames::Match);
                }
            }
        }
        if forall|i: int| 0 <= i < v.len() ==> (#[trigger] v[i]) == Frames::Match {
            assert(v[v.len() - 1] == Frames::Match);
            assert forall|i: int| 0 <= i < t.len() implies (#[trigger] t[i]) == Frames::Match by {
                assert(v[i] == Frames::Match);
            }
        }
    }
}

/// A sweep reaches from the floor to the tip, and over the floor's segment where
/// the tip lies below it.
pub proof fn law_a_sweep_reaches_the_tip(floor: u32, tip: u32, r: (u32, u32))
    requires
        call_ensures(sweep_range, (floor, tip), r),
    ensures
        r.0 == floor,
        r.0 <= r.1,
        tip >= floor ==> r.1 == tip,
        tip < floor ==> r.1 == floor,
{
}

/// The counters are shown where somebody is connected, shares came in, or there is
/// a sign of abuse; a server where nothing happened is silent.
pub proof fn law_a_quiet_server_is_silent(c: &StratumCounts, r: bool)
    requires
        call_ensures(StratumCounts::worth_printing, (c,), r),
    ensures
        *c == no_counts() ==> !r,
        c.conns > 0 || c.submitted > 0 || c.bad_json > 0 || c.bans > 0 || c.saturated > 0
            || c.internal_errors > 0 || c.revocations > 0 <==> r,
{
}

/// What was accepted and what was rejected at a glance make up what was submitted.
pub proof fn law_a_glance_adds_up(c: &StratumCounts, t: String, rejected: nat)
    requires
        call_ensures(stratum_line_brief, (c,), t),
        c.accepted + rejected == c.submitted,
    ensures
        t@ == "conns "@ + text::dec(c.conns as nat) + "  shares "@ + text::dec(c.accepted as nat)
            + " accepted  "@ + text::dec(rejected) + " rejected  blocks "@ + text::dec(
            c.blocks as nat,
        ),
{
}

} // verus!
