//! When a miner connects again: the two ladders of waits, the limits of a run,
//! and what is done after a session has ended. Times are in milliseconds.

use vstd::prelude::*;
use crate::miner::status::Format;
use crate::text::same;

verus! {

pub const BACKOFF_MIN: u64 = 1_000;

pub const BACKOFF_MAX: u64 = 30_000;

pub const MAX_LINE: usize = 8192;

pub const BACKOFF_RESET_AFTER: u64 = 60_000;

pub const AUTH_BACKOFF_MIN: u64 = 150_000;

pub const AUTH_BACKOFF_MAX: u64 = 600_000;

pub const SERVER_SILENCE_DEADLINE: u64 = 90_000;

/// What a run of the miner was asked for. A limit of zero is no limit.
#[derive(Debug, Clone)]
pub struct Args {
    pub stratum: String,
    pub login: String,
    pub threads: usize,
    pub max_shares: u64,
    pub max_blocks: u64,
    pub deadline_secs: u64,
    pub verbose: bool,
    pub reconnect: bool,
    pub max_reconnects: u32,
    pub status_secs: u64,
    pub silence_deadline_ms: u64,
    pub huge_pages: bool,
    pub pins: Option<Vec<(usize, u16)>>,
    pub status_format: Format,
}

impl Args {
    /// Whether nothing was asked for but `threads` workers.
    pub open spec fn is_plain(&self, threads: usize) -> bool {
        &&& self.stratum@ == "127.0.0.1:9258"@
        &&& self.login@ == ""@
        &&& self.threads == threads
        &&& self.max_shares == 0
        &&& self.max_blocks == 0
        &&& self.deadline_secs == 0
        &&& !self.verbose
        &&& self.reconnect
        &&& self.max_reconnects == 0
        &&& self.status_secs == 10
        &&& self.silence_deadline_ms == SERVER_SILENCE_DEADLINE
        &&& self.huge_pages
        &&& self.pins is None
        &&& self.status_format == Format::Text
    }

    /// The arguments of a run on a machine that can run `cpus` threads at once.
    pub fn for_machine(cpus: usize) -> (a: Args)
        ensures
            a.is_plain(cpus),
    {
        Args {
            stratum: "127.0.0.1:9258".to_owned(),
            login: "".to_owned(),
            threads: cpus,
            max_shares: 0,
            max_blocks: 0,
            deadline_secs: 0,
            verbose: false,
            reconnect: true,
            max_reconnects: 0,
            status_secs: 10,
            silence_deadline_ms: SERVER_SILENCE_DEADLINE,
            huge_pages: true,
            pins: None,
            status_format: Format::Text,
        }
    }
}

impl Default for Args {
    /// The arguments for a machine of which nothing is known.
    fn default() -> (a: Args)
        ensures
            a.is_plain(1),
    {
        Args::for_machine(1)
    }
}

/// What a run has done so far, over all its sessions.
#[derive(Debug, Clone, Copy, PartialEq, Eq, Structural)]
pub struct Report {
    pub accepted: u64,
    pub rejected: u64,
    pub blocks: u64,
    pub hashes: u64,
    pub connections: u64,
    pub stale_dropped: u64,
}

impl Default for Report {
    fn default() -> (r: Report)
        ensures
            r == (Report {
                accepted: 0,
                rejected: 0,
                blocks: 0,
                hashes: 0,
                connections: 0,
                stale_dropped: 0,
            }),
    {
        Report {
            accepted: 0,
            rejected: 0,
            blocks: 0,
            hashes: 0,
            connections: 0,
            stale_dropped: 0,
        }
    }
}

/// Which waits a failure climbs.
#[derive(Debug, Clone, Copy, PartialEq, Eq, Structural)]
pub enum Ladder {
    Connection,
    Authorization,
}

/// How a session ended.
#[derive(Debug)]
pub enum Ended {
    Limit,
    ServerClosed,
    Retry(Ladder, String),
    NoWorkers(String),
}

/// The mathematical value of an `Ended`.
pub enum EndedView {
    Limit,
    ServerClosed,
    Retry(Ladder, Seq<char>),
    NoWorkers(Seq<char>),
}

impl View for Ended {
    type V = EndedView;

    open spec fn view(&self) -> EndedView {
        match *self {
            Ended::Limit => EndedView::Limit,
            Ended::ServerClosed => EndedView::ServerClosed,
            Ended::Retry(l, s) => EndedView::Retry(l, s@),
            Ended::NoWorkers(s) => EndedView::NoWorkers(s@),
        }
    }
}

// ---------------------------------------------------------------------------
// The ladders

/// A ladder of waits: each one twice the one before, up to a longest one.
#[derive(Debug, Clone, Copy)]
pub struct Rungs {
    pub min: u64,
    pub max: u64,
    pub wait: u64,
}

/// Twice `d`, but never more than `cap`.
pub open spec fn doubled(d: u64, cap: u64) -> u64 {
    if 2 * d < cap {
        (2 * d) as u64
    } else {
        cap
    }
}

/// The wait of the rung that is reached after `k` steps.
pub open spec fn rung(min: u64, max: u64, k: nat) -> u64
    decreases k,
{
    if k == 0 {
        min
    } else {
        doubled(rung(min, max, (k - 1) as nat), max)
    }
}

/// Twice `d`, but never more than `cap`.
pub fn saturating_double(d: u64, cap: u64) -> (r: u64)
    ensures
        r == doubled(d, cap),
{
    if d <= u64::MAX / 2 && 2 * d < cap {
        2 * d
    } else {
        cap
    }
}

impl Rungs {
    pub fn new(min: u64, max: u64) -> (r: Rungs)
        ensures
            r == (Rungs { min, max, wait: min }),
    {
        Rungs { min, max, wait: min }
    }

    /// The wait of this rung; the next call gives that of the next one.
    pub fn step(&mut self) -> (now: u64)
        ensures
            now == old(self).wait,
            *final(self) == (Rungs {
                wait: doubled(old(self).wait, old(self).max),
                ..*old(self)
            }),
    {
        let now: u64 = self.wait;
        self.wait = saturating_double(self.wait, self.max);
        now
    }

    /// Back to the first rung.
    pub fn reset(&mut self)
        ensures
            *final(self) == (Rungs { wait: old(self).min, ..*old(self) }),
    {
        self.wait = self.min;
    }
}

/// A ladder never goes down and never passes its longest wait.
pub proof fn law_ladder_climbs_to_its_cap(min: u64, max: u64, k: nat)
    requires
        min <= max,
    ensures
        min <= rung(min, max, k) <= max,
        rung(min, max, k) <= rung(min, max, k + 1),
    decreases k,
{
    if k > 0 {
        law_ladder_climbs_to_its_cap(min, max, (k - 1) as nat);
    }
}

/// On every rung a refused login waits longer than a dropped connection, and
/// at least as long as the score of a refusal takes to decay (25 points at six
/// seconds each).
pub proof fn law_authorization_is_the_slow_ladder(k: nat)
    ensures
        rung(BACKOFF_MIN, BACKOFF_MAX, k) < rung(AUTH_BACKOFF_MIN, AUTH_BACKOFF_MAX, k),
        rung(AUTH_BACKOFF_MIN, AUTH_BACKOFF_MAX, k) >= 25 * 6 * 1000,
{
    law_ladder_climbs_to_its_cap(BACKOFF_MIN, BACKOFF_MAX, k);
    law_ladder_climbs_to_its_cap(AUTH_BACKOFF_MIN, AUTH_BACKOFF_MAX, k);
}

// ---------------------------------------------------------------------------
// Limits

/// What is left until the deadline, if there is one.
pub open spec fn left_until(deadline_secs: u64, elapsed: u64) -> Option<u64> {
    if deadline_secs == 0 {
        None
    } else if deadline_secs * 1000 <= elapsed {
        Some(0)
    } else if deadline_secs * 1000 - elapsed > u64::MAX {
        Some(u64::MAX)
    } else {
        Some((deadline_secs * 1000 - elapsed) as u64)
    }
}

/// What is left until the deadline of a run that has lasted `elapsed`, or
/// `None` if it has no deadline.
pub fn remaining(args: &Args, elapsed: u64) -> (r: Option<u64>)
    ensures
        r == left_until(args.deadline_secs, elapsed),
{
    if args.deadline_secs == 0 {
        return None;
    }
    let all: u128 = args.deadline_secs as u128 * 1000;
    if all <= elapsed as u128 {
        Some(0)
    } else if all - elapsed as u128 > u64::MAX as u128 {
        Some(u64::MAX)
    } else {
        Some((all - elapsed as u128) as u64)
    }
}

/// Whether a run has reached one of its limits.
pub open spec fn at_limit(args: &Args, elapsed: u64, r: Report) -> bool {
    ||| args.max_shares > 0 && r.accepted >= args.max_shares
    ||| args.max_blocks > 0 && r.blocks >= args.max_blocks
    ||| args.deadline_secs > 0 && elapsed >= args.deadline_secs * 1000
}

/// Whether a run that has lasted `elapsed` has reached one of its limits. The
/// totals are those of all its sessions.
pub fn limit_reached(args: &Args, elapsed: u64, r: &Report) -> (b: bool)
    ensures
        b == at_limit(args, elapsed, *r),
{
    if args.max_shares > 0 && r.accepted >= args.max_shares {
        return true;
    }
    if args.max_blocks > 0 && r.blocks >= args.max_blocks {
        return true;
    }
    match remaining(args, elapsed) {
        Some(d) => d == 0,
        None => false,
    }
}

// ---------------------------------------------------------------------------
// After a session

/// The value of an optional string.
pub open spec fn opt_text(s: Option<String>) -> Option<Seq<char>> {
    match s {
        Some(t) => Some(t@),
        None => None,
    }
}

/// Whether `why` is to be said: it is unless it was the last thing said.
pub fn say_once(last: &mut Option<String>, why: &str) -> (r: bool)
    ensures
        r == (opt_text(*old(last)) != Some(why@)),
        opt_text(*final(last)) == Some(why@),
{
    let again: bool = match last {
        Some(t) => same(t, why),
        None => false,
    };
    if again {
        return false;
    }
    *last = Some(why.to_owned());
    true
}

/// Whether the machine can hash at all: `error` says why it cannot.
pub fn preflight(error: Option<&str>) -> (r: Result<(), String>)
    ensures
        r is Ok <==> error is None,
        r matches Err(t) ==> t@ == "this CPU cannot run Isochron: "@ + error->Some_0@
            + ". The algorithm needs hardware AES (AES-NI on x86-64, the ARMv8 crypto extensions on aarch64), which this machine does not have. Nothing was mined."@,
{
    match error {
        None => Ok(()),
        Some(e) => {
            let mut t = "this CPU cannot run Isochron: ".to_owned();
            t.append(e);
            t.append(
                ". The algorithm needs hardware AES (AES-NI on x86-64, the ARMv8 crypto extensions on aarch64), which this machine does not have. Nothing was mined.",
            );
            Err(t)
        },
    }
}

/// Whether every worker has stopped. None at all is not all of them: before
/// the login is accepted there are none.
pub fn all_workers_stopped(finished: &[bool]) -> (r: bool)
    ensures
        r == (finished@.len() > 0 && forall|i: int| 0 <= i < finished@.len() ==> finished@[i]),
{
    let mut i: usize = 0;
    while i < finished.len()
        invariant
            i <= finished.len(),
            forall|k: int| 0 <= k < i ==> finished@[k],
        decreases finished.len() - i,
    {
        if !finished[i] {
            return false;
        }
        i += 1;
    }
    finished.len() > 0
}

/// Whether having no workers ends the run: it does before the first hash.
pub fn no_workers_is_fatal(totals: &Report) -> (r: bool)
    ensures
        r == (totals.hashes == 0),
{
    totals.hashes == 0
}

/// What became of a session: its end, or the error of the connection.
#[derive(Debug)]
pub enum Outcome {
    Ended(Ended),
    Failed(String),
}

/// What a run does next.
#[derive(Debug)]
pub enum Next {
    /// It is over, and gives back its totals.
    Done,
    /// It is over, with this error.
    Fail(String),
    /// It is over after this many failed connections in a row.
    GaveUp(u32),
    /// It waits, then tries again; the attempt that follows has this number.
    Again { ladder: Ladder, wait: u64, attempt: u64 },
}

/// The state of a run between its sessions.
pub struct Run {
    pub conn: Rungs,
    pub auth: Rungs,
    pub failures: u32,
    pub said: Option<String>,
}

/// What is known of a session that has ended.
#[derive(Debug, Clone, Copy)]
pub struct Past {
    /// How long the session lasted.
    pub lasted: u64,
    /// Whether it was authorized.
    pub authorized: bool,
    /// How long the run has lasted.
    pub elapsed: u64,
}

/// What is said about an outcome, where something is said.
pub open spec fn cause(args: &Args, o: Outcome) -> Seq<char> {
    match o {
        Outcome::Ended(Ended::Retry(_, why)) => why@,
        Outcome::Ended(Ended::NoWorkers(why)) => why@,
        Outcome::Ended(_) => "server closed the connection"@,
        Outcome::Failed(e) => args.stratum@ + ": "@ + e@,
    }
}

/// The ladder that an outcome climbs.
pub open spec fn climbs(o: Outcome) -> Ladder {
    match o {
        Outcome::Ended(Ended::Retry(l, _)) => l,
        _ => Ladder::Connection,
    }
}

/// Whether an outcome ends the run whatever its limits are.
pub open spec fn is_final(args: &Args, totals: Report, o: Outcome) -> bool {
    match o {
        Outcome::Ended(Ended::Limit) => true,
        Outcome::Ended(Ended::NoWorkers(_)) => totals.hashes == 0,
        Outcome::Ended(_) => false,
        Outcome::Failed(_) => !args.reconnect,
    }
}

/// The connection ladder as it stands after a session: a session that lasted
/// starts it anew.
pub open spec fn conn_after(r: Rungs, past: Past) -> Rungs {
    if past.lasted >= BACKOFF_RESET_AFTER {
        Rungs { wait: r.min, ..r }
    } else {
        r
    }
}

/// The authorization ladder as it stands after a session: an accepted login
/// starts it anew.
pub open spec fn auth_after(r: Rungs, past: Past) -> Rungs {
    if past.authorized {
        Rungs { wait: r.min, ..r }
    } else {
        r
    }
}

/// The failures in a row, the one just met counted.
pub open spec fn failures_after(n: u32, past: Past) -> int {
    if past.lasted >= BACKOFF_RESET_AFTER {
        1
    } else {
        n + 1
    }
}

/// The rung one step further.
pub open spec fn stepped(r: Rungs) -> Rungs {
    Rungs { wait: doubled(r.wait, r.max), ..r }
}

/// Whether a run goes on after an outcome. Of the failures in a row, the one
/// that makes up the count that is asked for is the last.
pub open spec fn goes_on(args: &Args, totals: Report, past: Past, n: u32, o: Outcome) -> bool {
    &&& !is_final(args, totals, o)
    &&& args.reconnect
    &&& !at_limit(args, past.elapsed, totals)
    &&& (args.max_reconnects == 0 || failures_after(n, past) < args.max_reconnects)
}

/// The wait of a step, cut to what is left until the deadline.
pub open spec fn cut_wait(step: u64, left: Option<u64>) -> u64 {
    match left {
        Some(l) => if l < step {
            l
        } else {
            step
        },
        None => step,
    }
}

impl Run {
    pub fn new() -> (r: Run)
        ensures
            r.conn == (Rungs { min: BACKOFF_MIN, max: BACKOFF_MAX, wait: BACKOFF_MIN }),
            r.auth == (Rungs {
                min: AUTH_BACKOFF_MIN,
                max: AUTH_BACKOFF_MAX,
                wait: AUTH_BACKOFF_MIN,
            }),
            r.failures == 0,
            r.said is None,
    {
        Run {
            conn: Rungs::new(BACKOFF_MIN, BACKOFF_MAX),
            auth: Rungs::new(AUTH_BACKOFF_MIN, AUTH_BACKOFF_MAX),
            failures: 0,
            said: None,
        }
    }

    /// What is done after a session, and the text to say about it, if it is
    /// not what was said last.
    pub fn after(&mut self, args: &Args, totals: &Report, past: Past, o: Outcome) -> (r: (
        Next,
        Option<String>,
    ))
        requires
            old(self).failures < u32::MAX,
        ensures
    // what is said

            ({
                let silent = o matches Outcome::Ended(Ended::Limit) || (o matches Outcome::Ended(
                    Ended::NoWorkers(_),
                ) && totals.hashes == 0);
                opt_text(r.1) == (if silent || (!is_final(args, *totals, o) && opt_text(
                    old(self).said,
                ) == Some(cause(args, o))) {
                    None
                } else {
                    Some(cause(args, o))
                })
            }),
            // the run goes on
            r.0 is Again <==> goes_on(args, *totals, past, old(self).failures, o),
            r.0 matches Next::Again { ladder, wait, attempt } ==> {
                let conn = conn_after(old(self).conn, past);
                let auth = auth_after(old(self).auth, past);
                &&& ladder == climbs(o)
                &&& attempt == final(self).failures + 1
                &&& wait == cut_wait(
                    if ladder == Ladder::Connection {
                        conn.wait
                    } else {
                        auth.wait
                    },
                    left_until(args.deadline_secs, past.elapsed),
                )
                &&& final(self).conn == (if ladder == Ladder::Connection {
                    stepped(conn)
                } else {
                    conn
                })
                &&& final(self).auth == (if ladder == Ladder::Authorization {
                    stepped(auth)
                } else {
                    auth
                })
                &&& final(self).failures == failures_after(old(self).failures, past)
                &&& opt_text(final(self).said) == (if past.lasted >= BACKOFF_RESET_AFTER
                    || past.authorized {
                    None
                } else {
                    Some(cause(args, o))
                })
            },
            // the run is over
            r.0 is GaveUp <==> !is_final(args, *totals, o) && args.reconnect && !at_limit(
                args,
                past.elapsed,
                *totals,
            ) && !goes_on(args, *totals, past, old(self).failures, o),
            r.0 matches Next::GaveUp(n) ==> n == failures_after(old(self).failures, past),
            r.0 is Fail <==> is_final(args, *totals, o) && !(o matches Outcome::Ended(
                Ended::Limit,
            )),
            r.0 matches Next::Fail(t) ==> t@ == (match o {
                Outcome::Failed(e) => e@,
                _ => cause(args, o) + ". Nothing was mined."@,
            }),
    {
        let ladder: Ladder;
        let note: Option<String>;
        match o {
            Outcome::Ended(Ended::Limit) => {
                return (Next::Done, None);
            },
            Outcome::Ended(Ended::NoWorkers(why)) => {
                if no_workers_is_fatal(totals) {
                    let mut t = why;
                    t.append(". Nothing was mined.");
                    return (Next::Fail(t), None);
                }
                note = if say_once(&mut self.said, &why) {
                    Some(why)
                } else {
                    None
                };
                ladder = Ladder::Connection;
            },
            Outcome::Ended(Ended::Retry(l, why)) => {
                note = if say_once(&mut self.said, &why) {
                    Some(why)
                } else {
                    None
                };
                ladder = l;
            },
            Outcome::Ended(Ended::ServerClosed) => {
                let why = "server closed the connection".to_owned();
                note = if say_once(&mut self.said, &why) {
                    Some(why)
                } else {
                    None
                };
                ladder = Ladder::Connection;
            },
            Outcome::Failed(e) => {
                let mut why = args.stratum.clone();
                why.append(": ");
                why.append(&e);
                if !args.reconnect {
                    return (Next::Fail(e), Some(why));
                }
                note = if say_once(&mut self.said, &why) {
                    Some(why)
                } else {
                    None
                };
                ladder = Ladder::Connection;
            },
        }
        if !args.reconnect || limit_reached(args, past.elapsed, totals) {
            return (Next::Done, note);
        }
        if past.lasted >= BACKOFF_RESET_AFTER {
            self.conn.reset();
            self.failures = 0;
            self.said = None;
        }
        if past.authorized {
            self.auth.reset();
            self.said = None;
        }
        self.failures = self.failures + 1;
        if args.max_reconnects > 0 && self.failures >= args.max_reconnects {
            return (Next::GaveUp(self.failures), note);
        }
        let step: u64 = match ladder {
            Ladder::Connection => self.conn.step(),
            Ladder::Authorization => self.auth.step(),
        };
        let wait: u64 = match remaining(args, past.elapsed) {
            Some(left) => if left < step {
                left
            } else {
                step
            },
            None => step,
        };
        (Next::Again { ladder, wait, attempt: self.failures as u64 + 1 }, note)
    }
}

/// How many of the sessions from `i` on are made, those before it counted, after
/// `n` failures in a row: each is followed by the next where the run goes on.
pub open spec fn sessions_made(
    args: &Args,
    totals: Report,
    pasts: Seq<Past>,
    ends: Seq<Outcome>,
    n: u32,
    i: int,
) -> int
    decreases pasts.len() - i,
{
    if i < 0 || i >= pasts.len() {
        i
    } else if goes_on(args, totals, pasts[i], n, ends[i]) {
        sessions_made(args, totals, pasts, ends, failures_after(n, pasts[i]) as u32, i + 1)
    } else {
        i + 1
    }
}

/// Whether all that happens is that sessions fail at once: none lasts, none ends
/// the run, and no limit is met.
pub open spec fn only_fails(
    args: &Args,
    totals: Report,
    pasts: Seq<Past>,
    ends: Seq<Outcome>,
) -> bool {
    &&& args.reconnect
    &&& pasts.len() == ends.len()
    &&& forall|k: int|
        0 <= k < pasts.len() ==> {
            &&& (#[trigger] pasts[k]).lasted < BACKOFF_RESET_AFTER
            &&& !at_limit(args, pasts[k].elapsed, totals)
            &&& !is_final(args, totals, ends[k])
        }
}

proof fn lemma_sessions_made(
    args: &Args,
    totals: Report,
    pasts: Seq<Past>,
    ends: Seq<Outcome>,
    i: int,
)
    requires
        only_fails(args, totals, pasts, ends),
        args.max_reconnects > 0,
        0 <= i <= pasts.len(),
        i < args.max_reconnects,
    ensures
        sessions_made(args, totals, pasts, ends, i as u32, i) == (if pasts.len()
            < args.max_reconnects {
            pasts.len() as int
        } else {
            args.max_reconnects as int
        }),
    decreases pasts.len() - i,
{
    if i < pasts.len() {
        assert(pasts[i].lasted < BACKOFF_RESET_AFTER);
        if i + 1 < args.max_reconnects {
            lemma_sessions_made(args, totals, pasts, ends, i + 1);
        }
    }
}

/// A run that only fails gives up after as many failures in a row as it was told
/// to: no session is made behind the last of them, and none before it is left
/// out.
pub proof fn law_a_run_gives_up_after_its_failures(
    args: &Args,
    totals: Report,
    pasts: Seq<Past>,
    ends: Seq<Outcome>,
)
    requires
        only_fails(args, totals, pasts, ends),
        args.max_reconnects > 0,
    ensures
        sessions_made(args, totals, pasts, ends, 0, 0) == (if pasts.len() < args.max_reconnects {
            pasts.len() as int
        } else {
            args.max_reconnects as int
        }),
{
    lemma_sessions_made(args, totals, pasts, ends, 0);
}

// ---------------------------------------------------------------------------
// What a step of a run keeps

/// A ladder doubles from its first wait, until that would pass its longest one.
pub proof fn law_a_ladder_doubles(min: u64, max: u64, k: nat)
    requires
        min <= max,
    ensures
        rung(min, max, k) == (if min * vstd::arithmetic::power2::pow2(k) <= max {
            min * vstd::arithmetic::power2::pow2(k)
        } else {
            max as int
        }),
    decreases k,
{
    if k == 0 {
        vstd::arithmetic::power2::lemma2_to64();
    } else {
        let j = (k - 1) as nat;
        let p = vstd::arithmetic::power2::pow2(j);
        law_a_ladder_doubles(min, max, j);
        vstd::arithmetic::power2::lemma_pow2_unfold(k);
        assert(min * (2 * p) == 2 * (min * p)) by (nonlinear_arith);
        assert(min * p >= 0) by (nonlinear_arith);
    }
}

/// A step gives the wait of this rung, and goes on to twice that wait or the
/// longest one.
pub proof fn law_a_step_gives_this_wait(r: &mut Rungs, now: u64)
    requires
        call_ensures(Rungs::step, (r,), now),
    ensures
        now == old(r).wait,
        final(r).wait <= old(r).max,
        final(r).wait == 2 * old(r).wait || final(r).wait == old(r).max && 2 * old(r).wait
            >= old(r).max,
        final(r).min == old(r).min,
        final(r).max == old(r).max,
{
}

/// A run waits for another session exactly where it may: it was to reconnect,
/// the session did not end it, no limit is met, and it has failed less often in
/// a row than it was told to, where a session that lasted a minute begins the row
/// anew.
pub proof fn law_a_run_goes_on_until_told(
    run: &mut Run,
    args: &Args,
    totals: &Report,
    past: Past,
    o: Outcome,
    r: (Next, Option<String>),
)
    requires
        old(run).failures < u32::MAX,
        call_ensures(Run::after, (run, args, totals, past, o), r),
    ensures
        ({
            let row = if past.lasted >= 60_000 {
                1
            } else {
                old(run).failures + 1
            };
            let over = match o {
                Outcome::Ended(Ended::Limit) => true,
                Outcome::Ended(Ended::NoWorkers(_)) => totals.hashes == 0,
                _ => false,
            };
            let met = (args.max_shares > 0 && totals.accepted >= args.max_shares) || (
            args.max_blocks > 0 && totals.blocks >= args.max_blocks) || (args.deadline_secs > 0
                && past.elapsed >= args.deadline_secs * 1000);
            let spent = args.max_reconnects > 0 && row >= args.max_reconnects;
            &&& r.0 is Again <==> args.reconnect && !over && !met && !spent
            &&& r.0 is GaveUp <==> args.reconnect && !over && !met && spent
            &&& r.0 matches Next::GaveUp(n) ==> n == row
            &&& r.0 matches Next::Again { attempt, .. } ==> attempt == row + 1
                && final(run).failures == row
            &&& r.0 is Fail <==> (o matches Outcome::Ended(Ended::NoWorkers(_)) && totals.hashes
                == 0) || (o is Failed && !args.reconnect)
            &&& o matches Outcome::Ended(Ended::Limit) ==> r.0 is Done
        }),
{
}

/// A wait is that of the rung that is reached, and never passes the deadline. A
/// refused login climbs its own ladder, which an accepted one starts anew; every
/// other end climbs that of connections, which a session that lasted a minute
/// starts anew. The other ladder does not climb.
pub proof fn law_a_wait_is_that_of_its_ladder(
    run: &mut Run,
    args: &Args,
    totals: &Report,
    past: Past,
    o: Outcome,
    r: (Next, Option<String>),
    ladder: Ladder,
    wait: u64,
    attempt: u64,
)
    requires
        old(run).failures < u32::MAX,
        call_ensures(Run::after, (run, args, totals, past, o), r),
        r.0 == (Next::Again { ladder, wait, attempt }),
    ensures
        ({
            let c = if past.lasted >= 60_000 {
                old(run).conn.min
            } else {
                old(run).conn.wait
            };
            let a = if past.authorized {
                old(run).auth.min
            } else {
                old(run).auth.wait
            };
            let login = o matches Outcome::Ended(Ended::Retry(l, _)) && l == Ladder::Authorization;
            let step = if login {
                a
            } else {
                c
            };
            &&& ladder == Ladder::Authorization <==> login
            &&& wait <= step
            &&& wait < step ==> args.deadline_secs > 0 && past.elapsed + wait
                == args.deadline_secs * 1000
            &&& args.deadline_secs > 0 ==> past.elapsed + wait <= args.deadline_secs * 1000
            &&& login ==> final(run).conn.wait == c && final(run).auth.wait == doubled(
                a,
                old(run).auth.max,
            )
            &&& !login ==> final(run).auth.wait == a && final(run).conn.wait == doubled(
                c,
                old(run).conn.max,
            )
            &&& final(run).conn.min == old(run).conn.min && final(run).conn.max == old(run).conn.max
            &&& final(run).auth.min == old(run).auth.min && final(run).auth.max == old(run).auth.max
        }),
{
}

/// The same cause is said once, until a session that lasted or was authorized
/// lies between; another cause is said.
pub proof fn law_a_cause_is_said_once(
    run: &mut Run,
    args: &Args,
    totals: &Report,
    past: Past,
    o: Outcome,
    r: (Next, Option<String>),
)
    requires
        old(run).failures < u32::MAX,
        call_ensures(Run::after, (run, args, totals, past, o), r),
        r.0 is Again,
    ensures
        ({
            let why = match o {
                Outcome::Ended(Ended::Retry(_, w)) => w@,
                Outcome::Ended(Ended::NoWorkers(w)) => w@,
                Outcome::Failed(e) => args.stratum@ + ": "@ + e@,
                _ => "server closed the connection"@,
            };
            &&& opt_text(old(run).said) == Some(why) ==> r.1 is None
            &&& opt_text(old(run).said) != Some(why) ==> r.1 is Some && r.1->Some_0@ == why
            &&& past.lasted < 60_000 && !past.authorized ==> opt_text(final(run).said) == Some(why)
            &&& past.lasted >= 60_000 || past.authorized ==> final(run).said is None
        }),
{
}

/// What is left of a deadline and what has passed make up the deadline; once it
/// is passed nothing is left.
pub proof fn law_what_is_left_fills_the_deadline(args: &Args, elapsed: u64, r: Option<u64>)
    requires
        call_ensures(remaining, (args, elapsed), r),
    ensures
        args.deadline_secs == 0 <==> r is None,
        r matches Some(left) ==> (if elapsed >= args.deadline_secs * 1000 {
            left == 0
        } else {
            elapsed + left == args.deadline_secs * 1000 || left == u64::MAX && elapsed + left
                <= args.deadline_secs * 1000
        }),
{
}

/// A run begins at the first wait of both ladders: a dropped connection waits from
/// one second up to thirty, and a refused login from 150 seconds up to 600.
pub proof fn law_a_run_begins_at_the_first_waits(r: Run, k: nat)
    requires
        call_ensures(Run::new, (), r),
    ensures
        r.conn.wait == 1_000 && r.conn.min == 1_000 && r.conn.max == 30_000,
        r.auth.wait == 150_000 && r.auth.min == 150_000 && r.auth.max == 600_000,
        r.failures == 0,
        r.said is None,
        rung(r.conn.min, r.conn.max, k) <= 30_000,
        150_000 <= rung(r.auth.min, r.auth.max, k) <= 600_000,
{
    law_ladder_climbs_to_its_cap(r.conn.min, r.conn.max, k);
    law_ladder_climbs_to_its_cap(r.auth.min, r.auth.max, k);
}

} // verus!
