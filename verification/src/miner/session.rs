//! One session with a stratum server, from subscribe to its end: what is sent,
//! what each message of the server does, and when the session is given up.
//! Times are in milliseconds.

use vstd::prelude::*;
use std::collections::HashSet;
use crate::miner::{jobs, json, ladder, status, work, worker};
use crate::miner::jobs::{JobTrack, Jobs, Job};
use crate::miner::json::{parse, hex, Framed, Msg, MsgView, Arg};
use crate::miner::ladder::{
    all_workers_stopped, limit_reached, Args, Ended, EndedView, Ladder, Report,
};
use crate::miner::status::{Event, Format};
use crate::miner::work::{
    e1_limit, network_target_from_prefix, nonce_hex, target_from_difficulty, JobView, Shared,
    SharedView, Solution, Work, PREFIX_BYTES, X_BITS, X_BITS_MIN, X_BYTES, X_BYTES_MIN,
};
use crate::text;
use crate::text::{debug_text, from_utf8, hex_u32, push_dec, push_hex_pad, same, to_chars};

verus! {

broadcast use vstd::std_specs::hash::group_hash_axioms;

// ---------------------------------------------------------------------------
// What is sent

/// What one character of a JSON string is written as. A control character that
/// has no letter of its own becomes a blank.
pub open spec fn json_char(c: char) -> Seq<char> {
    if c == '"' {
        seq!['\\', '"']
    } else if c == '\\' {
        seq!['\\', '\\']
    } else if c == '\n' {
        seq!['\\', 'n']
    } else if c == '\r' {
        seq!['\\', 'r']
    } else if c == '\t' {
        seq!['\\', 't']
    } else if (c as u32) < 0x20 {
        seq![' ']
    } else {
        seq![c]
    }
}

/// What the characters of a JSON string are written as.
pub open spec fn json_chars(s: Seq<char>) -> Seq<char>
    decreases s.len(),
{
    if s.len() == 0 {
        Seq::empty()
    } else {
        json_chars(s.drop_last()) + json_char(s.last())
    }
}

/// `s` as a JSON string.
pub open spec fn json_text(s: Seq<char>) -> Seq<char> {
    seq!['"'] + json_chars(s) + seq!['"']
}

/// `s` as a JSON string.
pub fn json_escape(s: &str) -> (out: String)
    ensures
        out@ == json_text(s@),
{
    let v = to_chars(s);
    let mut out = String::new();
    out.push('"');
    let mut i: usize = 0;
    assert(out@ =~= seq!['"'] + json_chars(s@.take(0)));
    while i < v.len()
        invariant
            i <= v.len(),
            v@ == s@,
            out@ == seq!['"'] + json_chars(s@.take(i as int)),
        decreases v.len() - i,
    {
        let c: char = v[i];
        let ghost before = out@;
        if c == '"' {
            out.push('\\');
            out.push('"');
        } else if c == '\\' {
            out.push('\\');
            out.push('\\');
        } else if c == '\n' {
            out.push('\\');
            out.push('n');
        } else if c == '\r' {
            out.push('\\');
            out.push('r');
        } else if c == '\t' {
            out.push('\\');
            out.push('t');
        } else if (c as u32) < 0x20 {
            out.push(' ');
        } else {
            out.push(c);
        }
        i += 1;
        assert(out@ =~= before + json_char(c));
        assert(s@.take(i as int).drop_last() =~= s@.take(i - 1));
        assert(out@ =~= seq!['"'] + json_chars(s@.take(i as int)));
    }
    out.push('"');
    assert(s@.take(i as int) =~= s@);
    assert(out@ =~= json_text(s@));
    out
}

/// The line that asks for a slice of nonces.
pub open spec fn subscribe_line() -> Seq<char> {
    "{\"id\":1,\"method\":\"mining.subscribe\",\"params\":[\"plaine-miner/0.1\"]}"@
}

/// The line that logs in.
pub open spec fn authorize_line(id: u64, login: Seq<char>) -> Seq<char> {
    "{\"id\":"@ + text::dec(id as nat) + ",\"method\":\"mining.authorize\",\"params\":["@ + json_text(
        login,
    ) + ",\"x\"]}"@
}

/// The line that submits a share.
pub open spec fn submit_line(id: u64, login: Seq<char>, job: Seq<char>, nonce: u64) -> Seq<char> {
    "{\"id\":"@ + text::dec(id as nat) + ",\"method\":\"mining.submit\",\"params\":["@ + json_text(login)
        + ",\""@ + job + "\",\""@ + json::hex_of(work::le_bytes(nonce as nat, 8)) + "\"]}"@
}

/// The line that asks for a sign of life.
pub open spec fn keepalive_line(id: u64) -> Seq<char> {
    "{\"id\":"@ + text::dec(id as nat) + ",\"method\":\"mining.keepalive\"}"@
}

// ---------------------------------------------------------------------------
// What a step of the session asks for

/// What the caller is to do: say these lines, print one as a result, send one
/// to the server, start the workers, end the session.
#[derive(Debug)]
pub struct Out {
    pub notes: Vec<String>,
    pub print: Option<String>,
    pub send: Option<String>,
    pub start: bool,
    pub end: Option<Ended>,
}

/// The mathematical value of an `Out`.
#[verifier::ext_equal]
pub struct OutView {
    pub notes: Seq<Seq<char>>,
    pub print: Option<Seq<char>>,
    pub send: Option<Seq<char>>,
    pub start: bool,
    pub end: Option<EndedView>,
}

pub open spec fn texts(s: Seq<String>) -> Seq<Seq<char>> {
    Seq::new(s.len(), |k: int| s[k]@)
}

pub open spec fn text_opt(s: Option<String>) -> Option<Seq<char>> {
    match s {
        Some(t) => Some(t@),
        None => None,
    }
}

impl View for Out {
    type V = OutView;

    open spec fn view(&self) -> OutView {
        OutView {
            notes: texts(self.notes@),
            print: text_opt(self.print),
            send: text_opt(self.send),
            start: self.start,
            end: match self.end {
                Some(e) => Some(e@),
                None => None,
            },
        }
    }
}

/// Nothing to do.
pub open spec fn nothing() -> OutView {
    OutView { notes: Seq::empty(), print: None, send: None, start: false, end: None }
}

pub open spec fn note(t: Seq<char>) -> OutView {
    OutView { notes: seq![t], ..nothing() }
}

pub open spec fn ends(e: EndedView) -> OutView {
    OutView { end: Some(e), ..nothing() }
}

pub open spec fn retry(why: Seq<char>) -> OutView {
    ends(EndedView::Retry(Ladder::Connection, why))
}

impl Out {
    pub fn nothing() -> (o: Out)
        ensures
            o@ == nothing(),
    {
        let o = Out { notes: Vec::new(), print: None, send: None, start: false, end: None };
        assert(o@ =~= nothing());
        o
    }

    fn note(t: String) -> (o: Out)
        ensures
            o@ == note(t@),
    {
        let o = Out { notes: vec![t], print: None, send: None, start: false, end: None };
        assert(o@ =~= note(t@));
        o
    }

    fn ends(e: Ended) -> (o: Out)
        ensures
            o@ == ends(e@),
    {
        let o = Out { notes: Vec::new(), print: None, send: None, start: false, end: Some(e) };
        assert(o@ =~= ends(e@));
        o
    }

    fn retry(why: String) -> (o: Out)
        ensures
            o@ == retry(why@),
    {
        Out::ends(Ended::Retry(Ladder::Connection, why))
    }
}

// ---------------------------------------------------------------------------
// The state

/// The state of a session. The program that owns the connection and the
/// threads keeps it.
pub struct Session {
    next_id: u64,
    authorize_id: u64,
    submits: HashSet<u64>,
    subscribed: bool,
    authorized: bool,
    jobs: JobTrack,
    pub shared: Shared,
    last_line_at: u64,
    last_out_at: u64,
}

/// The mathematical value of a `Session`.
#[verifier::ext_equal]
pub struct SessionView {
    /// The id of the next request.
    pub next_id: u64,
    /// The id of the login, once it is sent.
    pub authorize_id: u64,
    /// The ids of the shares that wait for an answer.
    pub submits: Set<u64>,
    pub subscribed: bool,
    pub authorized: bool,
    pub jobs: Jobs,
    pub shared: SharedView,
    pub last_line_at: u64,
    pub last_out_at: u64,
}

impl View for Session {
    type V = SessionView;

    closed spec fn view(&self) -> SessionView {
        SessionView {
            next_id: self.next_id,
            authorize_id: self.authorize_id,
            submits: self.submits@,
            subscribed: self.subscribed,
            authorized: self.authorized,
            jobs: self.jobs@,
            shared: self.shared@,
            last_line_at: self.last_line_at,
            last_out_at: self.last_out_at,
        }
    }
}

/// A session that has just sent its subscribe.
pub open spec fn fresh(threads: nat, now: u64) -> SessionView {
    SessionView {
        next_id: 2,
        authorize_id: 0,
        submits: Set::empty(),
        subscribed: false,
        authorized: false,
        jobs: jobs::no_jobs(),
        shared: SharedView {
            generation: 0,
            job: None,
            e1: 0,
            x_bits: X_BITS,
            stop: false,
            hashes: 0,
            lanes: Seq::new(
                if threads == 0 {
                    1
                } else {
                    threads
                },
                |i: int| 0u64,
            ),
        },
        last_line_at: now,
        last_out_at: now,
    }
}

// ---------------------------------------------------------------------------
// Shares

/// How a share is submitted: under the server's spelling of its job.
pub open spec fn job_spelling(j: Jobs, id: u32) -> Seq<char> {
    match jobs::spelled(j, id) {
        Some(h) => h,
        None => text::hex_pad(id as nat, 8),
    }
}

/// What a found share does to a session.
pub open spec fn submitted(s: SessionView, sol: Solution, now: u64) -> SessionView {
    if jobs::earns(s.jobs, sol.job_id, now) {
        SessionView {
            next_id: (s.next_id + 1) as u64,
            submits: s.submits.insert(s.next_id),
            last_out_at: now,
            ..s
        }
    } else {
        s
    }
}

/// What a found share does to the totals.
pub open spec fn submitted_totals(s: SessionView, r: Report, sol: Solution, now: u64) -> Report {
    if !jobs::earns(s.jobs, sol.job_id, now) {
        Report { stale_dropped: (r.stale_dropped + 1) as u64, ..r }
    } else if sol.is_block {
        Report { blocks: (r.blocks + 1) as u64, ..r }
    } else {
        r
    }
}

/// What is done about a found share.
pub open spec fn submit_out(
    s: SessionView,
    login: Seq<char>,
    verbose: bool,
    format: Format,
    sol: Solution,
    now: u64,
) -> OutView {
    if !jobs::earns(s.jobs, sol.job_id, now) {
        if verbose {
            note("plaine-miner: dropping a solution for retired job "@ + text::hex_pad(sol.job_id as nat, 8))
        } else {
            nothing()
        }
    } else {
        OutView {
            print: if sol.is_block {
                Some(
                    if format == Format::Json {
                        status::block_text(sol.height as nat, json::hex_of(sol.pow_hash@))
                    } else {
                        "plaine-miner: block candidate at height "@ + text::dec(sol.height as nat)
                            + " - "@ + json::hex_of(sol.pow_hash@)
                    },
                )
            } else {
                None
            },
            send: Some(
                submit_line(s.next_id, login, job_spelling(s.jobs, sol.job_id), sol.nonce),
            ),
            ..nothing()
        }
    }
}

// ---------------------------------------------------------------------------
// Silence

/// What the silence of the server does: nothing where it is not watched; the
/// end of the session when it has lasted; else a keepalive whenever nothing
/// was sent for a third of it.
pub open spec fn quiet_out(s: SessionView, silence: u64, now: u64) -> OutView {
    if silence == 0 {
        nothing()
    } else if now - s.last_line_at >= silence {
        retry(
            "the server has been silent for "@ + text::dec(((now - s.last_line_at) / 1000) as nat)
                + "s and did not answer mining.keepalive; this wire pushes a job every 15s, so the connection is gone. Reconnecting"@,
        )
    } else if 3 * (now - s.last_out_at) >= silence {
        OutView { send: Some(keepalive_line(s.next_id)), ..nothing() }
    } else {
        nothing()
    }
}

/// The session after a look at the silence.
pub open spec fn quiet_step(s: SessionView, silence: u64, now: u64) -> SessionView {
    if silence > 0 && now - s.last_line_at < silence && 3 * (now - s.last_out_at) >= silence {
        SessionView { next_id: (s.next_id + 1) as u64, last_out_at: now, ..s }
    } else {
        s
    }
}

impl Session {
    /// Whether ids are left for another request.
    pub open spec fn has_ids(&self) -> bool {
        self@.next_id < u64::MAX
    }

    /// Whether every number that a request can carry has been used up.
    pub fn out_of_ids(&self) -> (r: bool)
        ensures
            r == !self.has_ids(),
    {
        self.next_id == u64::MAX
    }

    /// A session that begins now, and the line it begins with.
    pub fn new(threads: usize, now: u64) -> (r: (Session, String))
        ensures
            r.0@ == fresh(threads as nat, now),
            r.1@ == subscribe_line(),
    {
        let s = Session {
            next_id: 2,
            authorize_id: 0,
            submits: HashSet::new(),
            subscribed: false,
            authorized: false,
            jobs: JobTrack::default(),
            shared: Shared::new(
                if threads == 0 {
                    1
                } else {
                    threads
                },
            ),
            last_line_at: now,
            last_out_at: now,
        };
        assert(s@ =~= fresh(threads as nat, now));
        (
            s,
            "{\"id\":1,\"method\":\"mining.subscribe\",\"params\":[\"plaine-miner/0.1\"]}".to_owned(),
        )
    }

    /// Whether the session is over before anything is read: at a limit of the
    /// run, or when all the workers have stopped.
    pub fn over(&self, args: &Args, elapsed: u64, totals: &Report, finished: &[bool]) -> (r: Option<
        Ended,
    >)
        ensures
            ({
                let dead = finished@.len() > 0 && forall|i: int|
                    0 <= i < finished@.len() ==> finished@[i];
                match r {
                    Some(e) => e@ == (if ladder::at_limit(args, elapsed, *totals) {
                        EndedView::Limit
                    } else {
                        EndedView::NoWorkers(
                            "all "@ + text::dec(finished@.len())
                                + " workers have stopped; this connection is not hashing"@,
                        )
                    }) && (ladder::at_limit(args, elapsed, *totals) || dead),
                    None => !ladder::at_limit(args, elapsed, *totals) && !dead,
                }
            }),
    {
        if limit_reached(args, elapsed, totals) {
            return Some(Ended::Limit);
        }
        if all_workers_stopped(finished) {
            let mut t = "all ".to_owned();
            push_dec(&mut t, finished.len() as u64);
            t.append(" workers have stopped; this connection is not hashing");
            return Some(Ended::NoWorkers(t));
        }
        None
    }

    /// What is done about a share that a worker has found.
    pub fn solution(
        &mut self,
        args: &Args,
        totals: &mut Report,
        sol: &Solution,
        now: u64,
    ) -> (out: Out)
        requires
            old(self).has_ids(),
            old(totals).stale_dropped < u64::MAX,
            old(totals).blocks < u64::MAX,
        ensures
            final(self)@ == submitted(old(self)@, *sol, now),
            *final(totals) == submitted_totals(old(self)@, *old(totals), *sol, now),
            out@ == submit_out(old(self)@, args.login@, args.verbose, args.status_format, *sol, now),
    {
        let ghost before = self@;
        if !self.jobs.submittable(sol.job_id, now) {
            totals.stale_dropped = totals.stale_dropped + 1;
            if args.verbose {
                let mut t = "plaine-miner: dropping a solution for retired job ".to_owned();
                push_hex_pad(&mut t, sol.job_id as u64, 8);
                return Out::note(t);
            }
            return Out::nothing();
        }
        let mut out = Out::nothing();
        if sol.is_block {
            totals.blocks = totals.blocks + 1;
            let hash = hex(&sol.pow_hash);
            out.print = Some(
                if matches!(args.status_format, Format::Json) {
                    Event::Block { height: sol.height, hash: hash.as_str() }.json()
                } else {
                    let mut t = "plaine-miner: block candidate at height ".to_owned();
                    push_dec(&mut t, sol.height);
                    t.append(" - ");
                    t.append(&hash);
                    t
                },
            );
        }
        let mut line = "{\"id\":".to_owned();
        push_dec(&mut line, self.next_id);
        line.append(",\"method\":\"mining.submit\",\"params\":[");
        line.append(&json_escape(&args.login));
        line.append(",\"");
        match self.jobs.hex_of(sol.job_id) {
            Some(h) => {
                line.append(h);
            },
            None => {
                push_hex_pad(&mut line, sol.job_id as u64, 8);
            },
        }
        line.append("\",\"");
        line.append(&nonce_hex(sol.nonce));
        line.append("\"]}");
        out.send = Some(line);
        self.submits.insert(self.next_id);
        self.next_id = self.next_id + 1;
        self.last_out_at = now;
        assert(self@ =~= submitted(before, *sol, now));
        assert(out@ =~= submit_out(before, args.login@, args.verbose, args.status_format, *sol, now));
        out
    }

    /// What the silence of the server calls for.
    pub fn quiet(&mut self, silence: u64, now: u64) -> (out: Out)
        requires
            old(self).has_ids(),
            old(self)@.last_line_at <= now,
            old(self)@.last_out_at <= now,
        ensures
            final(self)@ == quiet_step(old(self)@, silence, now),
            out@ == quiet_out(old(self)@, silence, now),
    {
        if silence == 0 {
            return Out::nothing();
        }
        let quiet: u64 = now - self.last_line_at;
        if quiet >= silence {
            let mut t = "the server has been silent for ".to_owned();
            push_dec(&mut t, quiet / 1000);
            t.append(
                "s and did not answer mining.keepalive; this wire pushes a job every 15s, so the connection is gone. Reconnecting",
            );
            return Out::retry(t);
        }
        let idle: u128 = (now - self.last_out_at) as u128;
        let mut out = Out::nothing();
        if 3 * idle >= silence as u128 {
            let mut line = "{\"id\":".to_owned();
            push_dec(&mut line, self.next_id);
            line.append(",\"method\":\"mining.keepalive\"}");
            out.send = Some(line);
            self.next_id = self.next_id + 1;
            self.last_out_at = now;
            assert(out@ =~= quiet_out(old(self)@, silence, now));
        }
        out
    }
}

// ---------------------------------------------------------------------------
// Messages of the server

/// The string at position `i` of the arguments.
pub open spec fn arg_str(m: MsgView, i: int) -> Option<Seq<char>> {
    if i < m.args.len() {
        match m.args[i] {
            Arg::Str(s) => Some(s),
            _ => None,
        }
    } else {
        None
    }
}

/// The number at position `i` of the arguments.
pub open spec fn arg_num(m: MsgView, i: int) -> Option<u64> {
    if i < m.args.len() {
        match m.args[i] {
            Arg::Num(n) => Some(n),
            _ => None,
        }
    } else {
        None
    }
}

/// The truth value at position `i` of the arguments.
pub open spec fn arg_bool(m: MsgView, i: int) -> Option<bool> {
    if i < m.args.len() {
        match m.args[i] {
            Arg::Bool(b) => Some(b),
            _ => None,
        }
    } else {
        None
    }
}

/// The number of a job id.
pub open spec fn hex_id(s: Seq<char>) -> Option<nat> {
    text::number_in(s, 16, u32::MAX as nat)
}

/// Whether a notify names a job: an id, a height and a prefix.
pub open spec fn names_job(m: MsgView) -> bool {
    arg_str(m, 0) is Some && arg_num(m, 1) is Some && arg_str(m, 2) is Some
}

/// Whether a notify is a job that can be worked on.
pub open spec fn is_job(m: MsgView) -> bool {
    &&& names_job(m)
    &&& json::unhexed(arg_str(m, 2)->Some_0, 124) is Some
    &&& hex_id(arg_str(m, 0)->Some_0) is Some
}

/// Whether a notify retires the jobs before it.
pub open spec fn is_clean(m: MsgView) -> bool {
    arg_bool(m, 3) == Some(true)
}

/// 32 times the same byte.
pub open spec fn bytes32(b: u8) -> Seq<u8> {
    Seq::new(32, |i: int| b)
}

/// The header prefix of a job.
pub open spec fn prefix_of(m: MsgView) -> Seq<u8> {
    json::unhexed(arg_str(m, 2)->Some_0, 124)->Some_0
}

/// The session after a job, whose network target is `nt`. The share target
/// stays as it was set; before it was ever set, every hash is a share.
pub open spec fn notify_step(s: SessionView, m: MsgView, nt: Seq<u8>, now: u64) -> SessionView {
    if is_job(m) {
        let h = arg_str(m, 0)->Some_0;
        let id = hex_id(h)->Some_0 as u32;
        SessionView {
            jobs: jobs::notified(s.jobs, (Job { id, hex: h }), is_clean(m), now),
            shared: SharedView {
                job: Some(
                    Work {
                        job_id: id,
                        job_id_hex: h,
                        prefix: prefix_of(m),
                        target: match s.shared.job {
                            Some(j) => j.target,
                            None => bytes32(0xff),
                        },
                        network_target: nt,
                        height: arg_num(m, 1)->Some_0,
                        live: true,
                    },
                ),
                generation: work::count(s.shared.generation, 1),
                ..s.shared
            },
            ..s
        }
    } else {
        s
    }
}

/// What is said about a job.
pub open spec fn notify_out(m: MsgView, verbose: bool) -> OutView {
    if names_job(m) && json::unhexed(arg_str(m, 2)->Some_0, 124) is None {
        note("plaine-miner: notify prefix is not 248 hex characters"@)
    } else if is_job(m) && verbose {
        note(
            "plaine-miner: job "@ + arg_str(m, 0)->Some_0 + " height "@ + text::dec(
                arg_num(m, 1)->Some_0 as nat,
            ) + (if is_clean(m) {
                " (clean)"@
            } else {
                ""@
            }),
        )
    } else {
        nothing()
    }
}

/// The session after a share target.
pub open spec fn target_step(s: SessionView, m: MsgView) -> SessionView {
    match arg_str(m, 0) {
        Some(t) => match json::unhexed(t, 32) {
            Some(b) => SessionView { shared: work::retargeted(s.shared, b), ..s },
            None => s,
        },
        None => s,
    }
}

/// What is said about a share target.
pub open spec fn target_out(m: MsgView) -> OutView {
    match arg_str(m, 0) {
        Some(t) => if json::unhexed(t, 32) is None {
            note("plaine-miner: set_target is not 64 hex characters"@)
        } else {
            nothing()
        },
        None => nothing(),
    }
}

/// The session after a share difficulty.
pub open spec fn difficulty_step(s: SessionView, m: MsgView) -> SessionView {
    match arg_num(m, 0) {
        Some(d) => SessionView {
            shared: work::retargeted(
                s.shared,
                work::be_bytes(work::share_target(d as nat), 32),
            ),
            ..s
        },
        None => s,
    }
}

/// What is said about a share difficulty.
pub open spec fn difficulty_out(m: MsgView) -> OutView {
    match arg_num(m, 0) {
        Some(d) => note(
            "plaine-miner: server sent mining.set_difficulty "@ + text::dec(d as nat)
                + "; this wire uses mining.set_target, converting"@,
        ),
        None => nothing(),
    }
}

/// How many bytes of the nonce a subscribe reply lets the miner roll.
pub open spec fn rollable(m: MsgView) -> u64 {
    match arg_num(m, 2) {
        Some(n) => n,
        None => X_BYTES,
    }
}

/// Why a subscribe reply is no use, if it is none.
pub open spec fn subscribe_fault(m: MsgView) -> Option<Seq<char>> {
    match arg_str(m, 1) {
        None => Some(
            "subscribe response has no extranonce1; the server is not assigning nonce slices"@,
        ),
        Some(h) => if hex_id(h) is None {
            Some("extranonce1 "@ + text::debug_of(h) + " is not hex"@)
        } else if !(X_BYTES_MIN <= rollable(m) <= X_BYTES) {
            Some(
                "server says "@ + text::dec(rollable(m) as nat)
                    + " rollable nonce bytes; this miner rolls 4..=5. Every share would be refused with error 25. This is a server or proxy misconfiguration; retrying in case it is corrected"@,
            )
        } else if hex_id(h)->Some_0 >= work::slices((8 * rollable(m)) as u32) {
            Some(
                "server assigned extranonce1 "@ + h + " with a "@ + text::dec(rollable(m) as nat)
                    + "-byte rollable window; that leaves "@ + text::dec(
                    (64 - 8 * rollable(m)) as nat,
                ) + " bits for the slice, fewer than this miner needs"@,
            )
        } else {
            None
        },
    }
}

/// The session after the reply to its subscribe.
pub open spec fn subscribe_step(s: SessionView, m: MsgView, now: u64) -> SessionView {
    if subscribe_fault(m) is Some {
        s
    } else {
        SessionView {
            shared: SharedView {
                e1: hex_id(arg_str(m, 1)->Some_0)->Some_0 as u32,
                x_bits: (8 * rollable(m)) as u32,
                ..s.shared
            },
            subscribed: true,
            authorize_id: s.next_id,
            next_id: (s.next_id + 1) as u64,
            last_out_at: now,
            ..s
        }
    }
}

/// What the reply to a subscribe calls for: the login, or the end.
pub open spec fn subscribe_out(s: SessionView, m: MsgView, login: Seq<char>) -> OutView {
    match subscribe_fault(m) {
        Some(why) => retry(why),
        None => OutView {
            notes: if rollable(m) == X_BYTES {
                Seq::empty()
            } else {
                seq![
                    "plaine-miner: server assigned a narrower nonce window: "@ + text::dec(
                        rollable(m) as nat,
                    ) + " rollable bytes, slice "@ + arg_str(m, 1)->Some_0
                        + " - a proxy is subdividing its upstream slice, and this rig has 16777216 nonces per worker"@,
                ]
            },
            send: Some(authorize_line(s.next_id, login)),
            ..nothing()
        },
    }
}

/// Whether a reply refuses the login.
pub open spec fn refuses_login(m: MsgView) -> bool {
    m.is_error || m.result_false || !(m.result_true || m.result_object)
}

/// Whether a reply refuses a share: only an error or a literal `false` does.
pub open spec fn refuses_share(m: MsgView) -> bool {
    m.is_error || m.result_false
}

pub open spec fn code_text(m: MsgView) -> Seq<char> {
    text::dec(
        match m.error_code {
            Some(n) => n as nat,
            None => 0,
        },
    ) + " "@ + (match m.error_msg {
        Some(t) => t,
        None => ""@,
    })
}

/// The code of a refusal, as a report gives it.
pub open spec fn refusal_code(m: MsgView) -> Option<i64> {
    match m.error_code {
        Some(n) => if n <= i64::MAX {
            Some(n as i64)
        } else {
            None
        },
        None => None,
    }
}

/// What the reply to the login calls for: the workers, or the end.
pub open spec fn authorize_out(s: SessionView, m: MsgView, args: &Args) -> OutView {
    if refuses_login(m) {
        ends(
            EndedView::Retry(
                Ladder::Authorization,
                "authorize refused: "@ + code_text(m)
                    + " - check the address in the login. Retrying on the slow ladder (150s and up, to 600s), because a refused login re-offered quickly gets this IP banned"@,
            ),
        )
    } else {
        let says = "plaine-miner: authorized as "@ + args.login@ + "  ("@ + text::dec(
            args.threads as nat,
        ) + " threads)"@;
        let slice = "plaine-miner: extranonce1 "@ + text::hex_pad(
            s.shared.e1 as nat,
            ((64 - s.shared.x_bits) / 4) as nat,
        ) + " ("@ + text::dec((s.shared.x_bits / 8) as nat) + " rollable bytes)"@;
        OutView {
            notes: if args.verbose {
                seq![says, slice]
            } else {
                seq![says]
            },
            start: true,
            ..nothing()
        }
    }
}

/// The id that a reply answers; a reply without one answers nothing.
pub open spec fn answers(m: MsgView) -> u64 {
    match m.id {
        Some(n) => n,
        None => u64::MAX,
    }
}

/// The session after a reply.
pub open spec fn reply_step(s: SessionView, m: MsgView, now: u64) -> SessionView {
    if m.id == Some(1u64) && !s.subscribed {
        subscribe_step(s, m, now)
    } else if m.id == Some(s.authorize_id) && !s.authorized {
        if refuses_login(m) {
            s
        } else {
            SessionView { authorized: true, ..s }
        }
    } else {
        SessionView { submits: s.submits.remove(answers(m)), ..s }
    }
}

/// The totals after a reply.
pub open spec fn reply_totals(s: SessionView, m: MsgView, r: Report) -> Report {
    if m.id == Some(1u64) && !s.subscribed {
        r
    } else if m.id == Some(s.authorize_id) && !s.authorized {
        if refuses_login(m) {
            r
        } else {
            Report { connections: (r.connections + 1) as u64, ..r }
        }
    } else if !s.submits.contains(answers(m)) {
        r
    } else if refuses_share(m) {
        Report { rejected: (r.rejected + 1) as u64, ..r }
    } else {
        Report { accepted: (r.accepted + 1) as u64, ..r }
    }
}

/// What a reply calls for.
pub open spec fn reply_out(s: SessionView, m: MsgView, args: &Args, r: Report) -> OutView {
    if m.id == Some(1u64) && !s.subscribed {
        subscribe_out(s, m, args.login@)
    } else if m.id == Some(s.authorize_id) && !s.authorized {
        authorize_out(s, m, args)
    } else if !s.submits.contains(answers(m)) {
        nothing()
    } else if refuses_share(m) {
        OutView {
            print: if args.status_format == Format::Json {
                Some(
                    status::share_text(
                        false,
                        r.accepted as nat,
                        (r.rejected + 1) as nat,
                        refusal_code(m),
                        m.error_msg,
                    ),
                )
            } else {
                None
            },
            ..note("plaine-miner: share rejected "@ + code_text(m))
        }
    } else {
        OutView {
            print: Some(
                if args.status_format == Format::Json {
                    status::share_text(
                        true,
                        (r.accepted + 1) as nat,
                        r.rejected as nat,
                        None,
                        None,
                    )
                } else {
                    "plaine-miner: share accepted ("@ + text::dec((r.accepted + 1) as nat)
                        + " accepted, "@ + text::dec(r.rejected as nat) + " rejected)"@
                },
            ),
            ..nothing()
        }
    }
}

/// The session after a message; `nt` is the network target of the job, if the
/// message is one. A request of the server to go elsewhere is not followed.
pub open spec fn message_step(s: SessionView, m: MsgView, nt: Seq<u8>, now: u64) -> SessionView {
    match m.method {
        Some(t) => if t == "mining.notify"@ {
            notify_step(s, m, nt, now)
        } else if t == "mining.set_target"@ {
            target_step(s, m)
        } else if t == "mining.set_difficulty"@ {
            difficulty_step(s, m)
        } else {
            s
        },
        None => reply_step(s, m, now),
    }
}

/// The totals after a message.
pub open spec fn message_totals(s: SessionView, m: MsgView, r: Report) -> Report {
    if m.method is Some {
        r
    } else {
        reply_totals(s, m, r)
    }
}

/// What a message calls for.
pub open spec fn message_out(s: SessionView, m: MsgView, args: &Args, r: Report) -> OutView {
    match m.method {
        Some(t) => if t == "mining.notify"@ {
            notify_out(m, args.verbose)
        } else if t == "mining.set_target"@ {
            target_out(m)
        } else if t == "mining.set_difficulty"@ {
            difficulty_out(m)
        } else if t == "client.reconnect"@ {
            note("plaine-miner: ignoring client.reconnect (hijack vector)"@)
        } else {
            nothing()
        },
        None => reply_out(s, m, args, r),
    }
}

/// Whether `nt` is the network target that `decode` gives for a header prefix;
/// where it gives none, no hash is a block.
pub open spec fn target_by<F: Fn(u32) -> Option<[u64; 4]>>(
    decode: F,
    prefix: Seq<u8>,
    nt: Seq<u8>,
) -> bool {
    exists|limbs: Option<[u64; 4]>| #[trigger]
        call_ensures(decode, (work::bits_value(prefix) as u32,), limbs) && nt == (match limbs {
            Some(l) => work::be_bytes(work::limbs_value(l@), 32),
            None => bytes32(0),
        })
}

fn zero32() -> (r: [u8; 32])
    ensures
        r@ == bytes32(0),
{
    let r: [u8; 32] = [0; 32];
    assert(r@ =~= bytes32(0));
    r
}

fn to_array32(v: &Vec<u8>) -> (r: [u8; 32])
    requires
        v@.len() == 32,
    ensures
        r@ == v@,
{
    let mut r: [u8; 32] = [0; 32];
    let mut i: usize = 0;
    while i < 32
        invariant
            i <= 32,
            v@.len() == 32,
            r@.len() == 32,
            forall|k: int| 0 <= k < i ==> r@[k] == v@[k],
        decreases 32 - i,
    {
        r[i] = v[i];
        i += 1;
    }
    assert(r@ =~= v@);
    r
}

fn to_prefix(v: &Vec<u8>) -> (r: [u8; PREFIX_BYTES])
    requires
        v@.len() == 124,
    ensures
        r@ == v@,
{
    let mut r: [u8; PREFIX_BYTES] = [0; PREFIX_BYTES];
    let mut i: usize = 0;
    while i < PREFIX_BYTES
        invariant
            i <= PREFIX_BYTES,
            v@.len() == 124,
            r@.len() == 124,
            forall|k: int| 0 <= k < i ==> r@[k] == v@[k],
        decreases PREFIX_BYTES - i,
    {
        r[i] = v[i];
        i += 1;
    }
    assert(r@ =~= v@);
    r
}

fn push_code(out: &mut String, msg: &Msg)
    ensures
        final(out)@ == old(out)@ + code_text(msg@),
{
    push_dec(
        out,
        match msg.error_code {
            Some(n) => n,
            None => 0,
        },
    );
    out.append(" ");
    match &msg.error_msg {
        Some(t) => out.append(t),
        None => out.append(""),
    }
    assert(out@ =~= old(out)@ + code_text(msg@));
}

impl Session {
    /// Takes in a job.
    fn notify<F: Fn(u32) -> Option<[u64; 4]>>(
        &mut self,
        msg: &Msg,
        verbose: bool,
        now: u64,
        decode: F,
    ) -> (out: Out)
        requires
            forall|bits: u32| call_requires(decode, (bits,)),
        ensures
            is_job(msg@) ==> exists|nt: Seq<u8>| #[trigger]
                target_by(decode, prefix_of(msg@), nt) && final(self)@ == notify_step(
                    old(self)@,
                    msg@,
                    nt,
                    now,
                ),
            !is_job(msg@) ==> final(self)@ == old(self)@,
            out@ == notify_out(msg@, verbose),
    {
        let (job_hex, height, prefix_hex) = match (msg.str_at(0), msg.num_at(1), msg.str_at(2)) {
            (Some(a), Some(b), Some(c)) => (a, b, c),
            _ => {
                return Out::nothing();
            },
        };
        let prefix = match json::unhex_vec(prefix_hex, PREFIX_BYTES) {
            Some(v) => to_prefix(&v),
            None => {
                return Out::note("plaine-miner: notify prefix is not 248 hex characters".to_owned());
            },
        };
        let job_id: u32 = match hex_u32(job_hex) {
            Some(n) => n,
            None => {
                return Out::nothing();
            },
        };
        let clean: bool = match msg.bool_at(3) {
            Some(b) => b,
            None => false,
        };
        let target: [u8; 32] = match self.shared.job() {
            Some(j) => j.target,
            None => {
                let ones: [u8; 32] = [0xff; 32];
                assert(ones@ =~= bytes32(0xff));
                ones
            },
        };
        self.jobs.notify(job_id, job_hex, clean, now);
        let network_target: [u8; 32] = match network_target_from_prefix(&prefix, decode) {
            Some(t) => t,
            None => zero32(),
        };
        let ghost nt = network_target@;
        assert(target_by(decode, prefix@, nt));
        self.shared.publish(
            JobView {
                job_id,
                job_id_hex: job_hex.to_owned(),
                prefix,
                target,
                network_target,
                height,
                live: true,
            },
        );
        assert(self@ =~= notify_step(old(self)@, msg@, nt, now));
        if verbose {
            let mut t = "plaine-miner: job ".to_owned();
            t.append(job_hex);
            t.append(" height ");
            push_dec(&mut t, height);
            t.append(
                if clean {
                    " (clean)"
                } else {
                    ""
                },
            );
            Out::note(t)
        } else {
            Out::nothing()
        }
    }
}

impl Session {
    /// Takes in the reply to the subscribe.
    fn subscribe_reply(&mut self, msg: &Msg, login: &str, now: u64) -> (out: Out)
        requires
            old(self).has_ids(),
        ensures
            final(self)@ == subscribe_step(old(self)@, msg@, now),
            out@ == subscribe_out(old(self)@, msg@, login@),
    {
        let e1_hex = match msg.str_at(1) {
            Some(h) => h,
            None => {
                return Out::retry(
                    "subscribe response has no extranonce1; the server is not assigning nonce slices".to_owned(),
                );
            },
        };
        let e1: u32 = match hex_u32(e1_hex) {
            Some(n) => n,
            None => {
                let mut t = "extranonce1 ".to_owned();
                t.append(&debug_text(e1_hex));
                t.append(" is not hex");
                return Out::retry(t);
            },
        };
        let x_bytes: u64 = match msg.num_at(2) {
            Some(n) => n,
            None => X_BYTES,
        };
        if x_bytes < X_BYTES_MIN || x_bytes > X_BYTES {
            let mut t = "server says ".to_owned();
            push_dec(&mut t, x_bytes);
            t.append(
                " rollable nonce bytes; this miner rolls 4..=5. Every share would be refused with error 25. This is a server or proxy misconfiguration; retrying in case it is corrected",
            );
            return Out::retry(t);
        }
        let x_bits: u32 = (x_bytes * 8) as u32;
        if e1 as u64 >= e1_limit(x_bits) {
            let mut t = "server assigned extranonce1 ".to_owned();
            t.append(e1_hex);
            t.append(" with a ");
            push_dec(&mut t, x_bytes);
            t.append("-byte rollable window; that leaves ");
            push_dec(&mut t, (64 - x_bits) as u64);
            t.append(" bits for the slice, fewer than this miner needs");
            return Out::retry(t);
        }
        let mut out = Out::nothing();
        self.shared.set_window(e1, x_bits);
        if x_bits != X_BITS {
            let mut t = "plaine-miner: server assigned a narrower nonce window: ".to_owned();
            push_dec(&mut t, x_bytes);
            t.append(" rollable bytes, slice ");
            t.append(e1_hex);
            t.append(
                " - a proxy is subdividing its upstream slice, and this rig has 16777216 nonces per worker",
            );
            out.notes.push(t);
        }
        self.subscribed = true;
        self.authorize_id = self.next_id;
        let mut line = "{\"id\":".to_owned();
        push_dec(&mut line, self.next_id);
        line.append(",\"method\":\"mining.authorize\",\"params\":[");
        line.append(&json_escape(login));
        line.append(",\"x\"]}");
        out.send = Some(line);
        self.next_id = self.next_id + 1;
        self.last_out_at = now;
        assert(self@ =~= subscribe_step(old(self)@, msg@, now));
        assert(out@ =~= subscribe_out(old(self)@, msg@, login@));
        out
    }

    /// Takes in the reply to the login.
    fn authorize_reply(&mut self, msg: &Msg, args: &Args, totals: &mut Report) -> (out: Out)
        requires
            old(totals).connections < u64::MAX,
            legal_window(old(self)@),
        ensures
            final(self)@ == (if refuses_login(msg@) {
                old(self)@
            } else {
                SessionView { authorized: true, ..old(self)@ }
            }),
            *final(totals) == (if refuses_login(msg@) {
                *old(totals)
            } else {
                Report { connections: (old(totals).connections + 1) as u64, ..*old(totals) }
            }),
            out@ == authorize_out(old(self)@, msg@, args),
    {
        if msg.is_error || msg.result_false || !(msg.result_true || msg.result_object) {
            let mut t = "authorize refused: ".to_owned();
            push_code(&mut t, msg);
            t.append(
                " - check the address in the login. Retrying on the slow ladder (150s and up, to 600s), because a refused login re-offered quickly gets this IP banned",
            );
            return Out::ends(Ended::Retry(Ladder::Authorization, t));
        }
        self.authorized = true;
        totals.connections = totals.connections + 1;
        let mut out = Out::nothing();
        let mut t = "plaine-miner: authorized as ".to_owned();
        t.append(&args.login);
        t.append("  (");
        push_dec(&mut t, args.threads as u64);
        t.append(" threads)");
        if args.verbose {
            let mut u = "plaine-miner: extranonce1 ".to_owned();
            let bits: u32 = self.shared.x_bits();
            push_hex_pad(&mut u, self.shared.e1() as u64, ((64 - bits) / 4) as u64);
            u.append(" (");
            push_dec(&mut u, (bits / 8) as u64);
            u.append(" rollable bytes)");
            out.notes = vec![t, u];
        } else {
            out.notes = vec![t];
        }
        out.start = true;
        proof {
            let v = authorize_out(old(self)@, msg@, args);
            assert(texts(out.notes@)[0] == v.notes[0]);
            assert(args.verbose ==> texts(out.notes@)[1] == v.notes[1]);
            assert(texts(out.notes@) =~= v.notes);
        }
        assert(out@ =~= authorize_out(old(self)@, msg@, args));
        out
    }

    /// Takes in a reply.
    fn reply(&mut self, msg: &Msg, args: &Args, totals: &mut Report, now: u64) -> (out: Out)
        requires
            old(self).has_ids(),
            has_room(*old(totals)),
            legal_window(old(self)@),
        ensures
            final(self)@ == reply_step(old(self)@, msg@, now),
            *final(totals) == reply_totals(old(self)@, msg@, *old(totals)),
            out@ == reply_out(old(self)@, msg@, args, *old(totals)),
    {
        let id: u64 = match msg.id {
            Some(n) => n,
            None => u64::MAX,
        };
        if msg.id.is_some() && id == 1 && !self.subscribed {
            return self.subscribe_reply(msg, &args.login, now);
        }
        if msg.id.is_some() && id == self.authorize_id && !self.authorized {
            return self.authorize_reply(msg, args, totals);
        }
        let waited: bool = self.submits.remove(&id);
        assert(self@ =~= reply_step(old(self)@, msg@, now));
        if !waited {
            return Out::nothing();
        }
        if msg.is_error || msg.result_false {
            totals.rejected = totals.rejected + 1;
            let mut t = "plaine-miner: share rejected ".to_owned();
            push_code(&mut t, msg);
            let mut out = Out::note(t);
            if matches!(args.status_format, Format::Json) {
                let code: Option<i64> = match msg.error_code {
                    Some(n) => if n <= i64::MAX as u64 {
                        Some(n as i64)
                    } else {
                        None
                    },
                    None => None,
                };
                let message = match &msg.error_msg {
                    Some(m) => Some(m.as_str()),
                    None => None,
                };
                let e = Event::Share {
                    accepted: false,
                    total_accepted: totals.accepted,
                    total_rejected: totals.rejected,
                    code,
                    message,
                };
                out.print = Some(e.json());
            }
            assert(out@ =~= reply_out(old(self)@, msg@, args, *old(totals)));
            return out;
        }
        totals.accepted = totals.accepted + 1;
        let mut out = Out::nothing();
        if matches!(args.status_format, Format::Json) {
            let e = Event::Share {
                accepted: true,
                total_accepted: totals.accepted,
                total_rejected: totals.rejected,
                code: None,
                message: None,
            };
            out.print = Some(e.json());
        } else {
            let mut t = "plaine-miner: share accepted (".to_owned();
            push_dec(&mut t, totals.accepted);
            t.append(" accepted, ");
            push_dec(&mut t, totals.rejected);
            t.append(" rejected)");
            out.print = Some(t);
        }
        assert(out@ =~= reply_out(old(self)@, msg@, args, *old(totals)));
        out
    }

    /// Takes in a message of the server. `decode` turns a compact target into
    /// limbs.
    pub fn message<F: Fn(u32) -> Option<[u64; 4]>>(
        &mut self,
        msg: &Msg,
        args: &Args,
        totals: &mut Report,
        now: u64,
        decode: F,
    ) -> (out: Out)
        requires
            old(self).has_ids(),
            has_room(*old(totals)),
            legal_window(old(self)@),
            forall|bits: u32| call_requires(decode, (bits,)),
        ensures
            exists|nt: Seq<u8>| #[trigger]
                message_target(decode, msg@, nt) && final(self)@ == message_step(
                    old(self)@,
                    msg@,
                    nt,
                    now,
                ),
            *final(totals) == message_totals(old(self)@, msg@, *old(totals)),
            out@ == message_out(old(self)@, msg@, args, *old(totals)),
            legal_window(final(self)@),
    {
        let ghost any = Seq::<u8>::empty();
        match &msg.method {
            Some(t) => {
                if same(t, "mining.notify") {
                    let out = self.notify(msg, args.verbose, now, decode);
                    proof {
                        if is_job(msg@) {
                            let nt = choose|nt: Seq<u8>| #[trigger]
                                target_by(decode, prefix_of(msg@), nt) && self@ == notify_step(
                                    old(self)@,
                                    msg@,
                                    nt,
                                    now,
                                );
                            assert(message_target(decode, msg@, nt));
                        } else {
                            assert(message_target(decode, msg@, any));
                        }
                    }
                    return out;
                }
                assert(message_target(decode, msg@, any)) by {
                    assert(msg@.method == Some(t@));
                }
                if same(t, "mining.set_target") {
                    let h = match msg.str_at(0) {
                        Some(h) => h,
                        None => {
                            return Out::nothing();
                        },
                    };
                    match json::unhex_vec(h, 32) {
                        Some(v) => {
                            self.shared.retarget(to_array32(&v));
                            assert(self@ =~= target_step(old(self)@, msg@));
                            Out::nothing()
                        },
                        None => Out::note(
                            "plaine-miner: set_target is not 64 hex characters".to_owned(),
                        ),
                    }
                } else if same(t, "mining.set_difficulty") {
                    let d: u64 = match msg.num_at(0) {
                        Some(d) => d,
                        None => {
                            return Out::nothing();
                        },
                    };
                    self.shared.retarget(target_from_difficulty(d));
                    assert(self@ =~= difficulty_step(old(self)@, msg@));
                    let mut u = "plaine-miner: server sent mining.set_difficulty ".to_owned();
                    push_dec(&mut u, d);
                    u.append("; this wire uses mining.set_target, converting");
                    Out::note(u)
                } else if same(t, "client.reconnect") {
                    Out::note("plaine-miner: ignoring client.reconnect (hijack vector)".to_owned())
                } else {
                    Out::nothing()
                }
            },
            None => {
                assert(message_target(decode, msg@, any));
                self.reply(msg, args, totals, now)
            },
        }
    }
}

/// Whether another connection and another answer can be counted.
pub open spec fn has_room(r: Report) -> bool {
    r.accepted < u64::MAX && r.rejected < u64::MAX && r.connections < u64::MAX
}

/// Whether `nt` is the network target of a message, if that is a job.
pub open spec fn message_target<F: Fn(u32) -> Option<[u64; 4]>>(
    decode: F,
    m: MsgView,
    nt: Seq<u8>,
) -> bool {
    m.method == Some("mining.notify"@) && is_job(m) ==> target_by(decode, prefix_of(m), nt)
}

/// Whether the window to roll is one that this miner rolls.
pub open spec fn legal_window(s: SessionView) -> bool {
    X_BITS_MIN <= s.shared.x_bits <= X_BITS
}

/// A line of the server as text, if it is one.
pub open spec fn line_text(b: Seq<u8>) -> Option<Seq<char>> {
    if vstd::utf8::valid_utf8(b) {
        Some(vstd::utf8::decode_utf8(b))
    } else {
        None
    }
}

/// The message of a line, if it holds one.
pub open spec fn line_message(f: Framed) -> Option<MsgView> {
    match f {
        Framed::Line(l) => if vstd::utf8::valid_utf8(l@) {
            json::message(l@)
        } else {
            None
        },
        _ => None,
    }
}

/// `o` with a line said before the others.
pub open spec fn says_first(t: Seq<char>, o: OutView) -> OutView {
    OutView { notes: seq![t] + o.notes, ..o }
}

/// The session after a line has come in.
pub open spec fn heard(s: SessionView, f: Framed, now: u64) -> SessionView {
    if f is Line {
        SessionView { last_line_at: now, ..s }
    } else {
        s
    }
}

/// What came in calls for.
pub open spec fn framed_out(s: SessionView, f: Framed, args: &Args, r: Report) -> OutView {
    match f {
        Framed::Idle => nothing(),
        Framed::Eof => ends(EndedView::ServerClosed),
        Framed::TooLong => retry(
            "server sent a line longer than 8192 bytes; this is not a stratum server. Check the port in the pool URL - retrying"@,
        ),
        Framed::Line(l) => {
            let o = match line_message(f) {
                Some(m) => message_out(s, m, args, r),
                None => nothing(),
            };
            match line_text(l@) {
                Some(t) => if args.verbose {
                    says_first("<< "@ + t, o)
                } else {
                    o
                },
                None => nothing(),
            }
        },
    }
}

impl Session {
    /// Takes in what has been read of the connection.
    pub fn framed<F: Fn(u32) -> Option<[u64; 4]>>(
        &mut self,
        f: Framed,
        args: &Args,
        totals: &mut Report,
        now: u64,
        decode: F,
    ) -> (out: Out)
        requires
            old(self).has_ids(),
            has_room(*old(totals)),
            legal_window(old(self)@),
            forall|bits: u32| call_requires(decode, (bits,)),
        ensures
            line_message(f) is None ==> final(self)@ == heard(old(self)@, f, now)
                && *final(totals) == *old(totals),
            line_message(f) matches Some(m) ==> *final(totals) == message_totals(
                old(self)@,
                m,
                *old(totals),
            ) && exists|nt: Seq<u8>| #[trigger]
                message_target(decode, m, nt) && final(self)@ == message_step(
                    heard(old(self)@, f, now),
                    m,
                    nt,
                    now,
                ),
            out@ == framed_out(old(self)@, f, args, *old(totals)),
            legal_window(final(self)@),
    {
        let line = match f {
            Framed::Line(l) => l,
            Framed::Idle => {
                return Out::nothing();
            },
            Framed::Eof => {
                return Out::ends(Ended::ServerClosed);
            },
            Framed::TooLong => {
                return Out::retry(
                    "server sent a line longer than 8192 bytes; this is not a stratum server. Check the port in the pool URL - retrying".to_owned(),
                );
            },
        };
        self.last_line_at = now;
        let text = match from_utf8(&line) {
            Some(t) => t,
            None => {
                return Out::nothing();
            },
        };
        proof {
            vstd::utf8::encode_utf8_decode_utf8(text@);
        }
        let ghost s1 = self@;
        assert(s1 =~= heard(old(self)@, f, now));
        let mut out = match parse(&text) {
            Some(msg) => {
                let o = self.message(&msg, args, totals, now, decode);
                proof {
                    let nt = choose|nt: Seq<u8>| #[trigger]
                        message_target(decode, msg@, nt) && self@ == message_step(
                            s1,
                            msg@,
                            nt,
                            now,
                        );
                    assert(message_target(decode, line_message(f)->Some_0, nt));
                    assert(o@ == message_out(old(self)@, msg@, args, *old(totals)));
                }
                o
            },
            None => Out::nothing(),
        };
        if args.verbose {
            let mut t = "<< ".to_owned();
            t.append(&text);
            let ghost was = out@;
            let ghost ns = out.notes@;
            out.notes.insert(0, t);
            proof {
                assert(out.notes@ =~= seq![t] + ns);
                assert(texts(out.notes@) =~= seq![t@] + was.notes) by {
                    assert forall|k: int| 0 <= k < ns.len() implies texts(out.notes@)[k + 1]
                        == was.notes[k] by {}
                }
                assert(out@ =~= says_first(t@, was));
            }
        }
        out
    }

    /// What the mapping of the scratchpads came to: `mapped` of them, and what
    /// stopped it. Without a single one no worker can start.
    pub fn mapped(&self, mapped: usize, error: Option<&str>) -> (out: Out)
        ensures
            out@ == (match error {
                None => nothing(),
                Some(e) => if mapped == 0 {
                    ends(
                        EndedView::NoWorkers(
                            "not one scratchpad region could be mapped, so no worker can start: "@
                                + e@,
                        ),
                    )
                } else {
                    note(
                        "plaine-miner: cannot map scratchpads for worker "@ + text::dec(
                            mapped as nat,
                        ) + ": "@ + e@ + "; continuing with "@ + text::dec(mapped as nat)
                            + " workers"@,
                    )
                },
            }),
    {
        match error {
            None => Out::nothing(),
            Some(e) => {
                if mapped == 0 {
                    let mut t = "not one scratchpad region could be mapped, so no worker can start: ".to_owned();
                    t.append(e);
                    return Out::ends(Ended::NoWorkers(t));
                }
                let mut t = "plaine-miner: cannot map scratchpads for worker ".to_owned();
                push_dec(&mut t, mapped as u64);
                t.append(": ");
                t.append(e);
                t.append("; continuing with ");
                push_dec(&mut t, mapped as u64);
                t.append(" workers");
                Out::note(t)
            },
        }
    }

    /// Ends the session: the workers are told to stop.
    pub fn stop(&mut self)
        ensures
            final(self)@ == (SessionView {
                shared: SharedView { stop: true, ..old(self)@.shared },
                ..old(self)@
            }),
    {
        self.shared.stop();
        assert(self@ =~= (SessionView {
            shared: SharedView { stop: true, ..old(self)@.shared },
            ..old(self)@
        }));
    }

    /// Adds what the workers of this session have hashed, once they are done.
    pub fn settle(&self, totals: &mut Report)
        requires
            old(totals).hashes + self@.shared.hashes <= u64::MAX,
        ensures
            *final(totals) == (Report {
                hashes: (old(totals).hashes + self@.shared.hashes) as u64,
                ..*old(totals)
            }),
    {
        totals.hashes = totals.hashes + self.shared.hashes();
    }

    /// The newest job, as the server spells it.
    pub fn newest_hex(&self) -> (r: Option<&str>)
        ensures
            r is Some <==> newest_spelling(self@) is Some,
            r matches Some(h) ==> newest_spelling(self@) == Some(h@),
    {
        match self.jobs.newest() {
            Some(id) => self.jobs.hex_of(id),
            None => None,
        }
    }

    /// The job that came last, for the status line.
    pub fn newest(&self) -> (r: Option<u32>)
        ensures
            r == self@.jobs.newest,
    {
        self.jobs.newest()
    }
}

/// No message can set a window that this miner does not roll.
pub proof fn law_window_stays_legal(s: SessionView, m: MsgView, nt: Seq<u8>, now: u64)
    requires
        legal_window(s),
    ensures
        legal_window(message_step(s, m, nt, now)),
{
}

/// The slice of a session changes only with the reply to its subscribe, and
/// then it fits the window.
pub proof fn law_slice_fits_its_window(s: SessionView, m: MsgView, nt: Seq<u8>, now: u64)
    ensures
        ({
            let t = message_step(s, m, nt, now).shared;
            ||| t.e1 == s.shared.e1 && t.x_bits == s.shared.x_bits
            ||| !s.subscribed && m.id == Some(1u64) && t.e1 < work::slices(t.x_bits)
        }),
{
}

/// A share that was submitted is counted once, as accepted or as rejected, by
/// the first reply with its id; a second reply counts nothing.
pub proof fn law_share_is_counted_once(s: SessionView, m: MsgView, r: Report, now: u64)
    requires
        s.subscribed,
        s.authorized,
        m.method is None,
        s.submits.contains(answers(m)),
        has_room(r),
    ensures
        ({
            let s2 = message_step(s, m, Seq::empty(), now);
            let r2 = message_totals(s, m, r);
            &&& r2.accepted + r2.rejected == r.accepted + r.rejected + 1
            &&& (r2.rejected == r.rejected + 1 <==> m.is_error || m.result_false)
            &&& message_totals(s2, m, r2) == r2
        }),
{
}

/// Whatever a server sends as `client.reconnect` changes nothing.
pub proof fn law_reconnect_is_ignored(s: SessionView, m: MsgView, nt: Seq<u8>, r: Report, now: u64)
    requires
        m.method == Some("client.reconnect"@),
    ensures
        message_step(s, m, nt, now) == s,
        message_totals(s, m, r) == r,
{
    reveal_strlit("client.reconnect");
    reveal_strlit("mining.notify");
    reveal_strlit("mining.set_target");
    reveal_strlit("mining.set_difficulty");
    assert("client.reconnect"@[0] == 'c');
    assert("mining.notify"@[0] == 'm');
    assert("mining.set_target"@[0] == 'm');
    assert("mining.set_difficulty"@[0] == 'm');
}

/// The newest job, as the server spells it.
pub open spec fn newest_spelling(s: SessionView) -> Option<Seq<char>> {
    match s.jobs.newest {
        Some(id) => jobs::spelled(s.jobs, id),
        None => None,
    }
}

/// Where reports are JSON, a session prints events and nothing else, each of
/// them one line, whatever the server says.
pub proof fn law_a_session_prints_events(
    s: SessionView,
    m: MsgView,
    args: &Args,
    r: Report,
    sol: Solution,
    now: u64,
)
    requires
        args.status_format == Format::Json,
    ensures
        message_out(s, m, args, r).print matches Some(t) ==> status::one_line(t) && exists|
            accepted: bool,
            a: nat,
            b: nat,
            code: Option<i64>,
            message: Option<Seq<char>>,
        | t == #[trigger] status::share_text(accepted, a, b, code, message),
        submit_out(s, args.login@, args.verbose, Format::Json, sol, now).print matches Some(t)
            ==> status::one_line(t) && t == status::block_text(
            sol.height as nat,
            json::hex_of(sol.pow_hash@),
        ),
{
    status::lemma_share_line(
        false,
        r.accepted as nat,
        (r.rejected + 1) as nat,
        refusal_code(m),
        m.error_msg,
    );
    status::lemma_share_line(true, (r.accepted + 1) as nat, r.rejected as nat, None, None);
    status::lemma_block_line(sol.height as nat, json::hex_of(sol.pow_hash@));
}

// ---------------------------------------------------------------------------
// What a message may change

proof fn lemma_methods_differ()
    ensures
        "mining.notify"@ != "mining.set_target"@,
        "mining.notify"@ != "mining.set_difficulty"@,
        "mining.set_target"@ != "mining.set_difficulty"@,
{
    reveal_strlit("mining.notify");
    reveal_strlit("mining.set_target");
    reveal_strlit("mining.set_difficulty");
    assert("mining.notify"@.len() == 13);
    assert("mining.set_target"@.len() == 17);
    assert("mining.set_difficulty"@.len() == 21);
}

/// The share target is the server's: once there is one, only a set_target or a
/// set_difficulty changes it, and no job does. A job that comes before any
/// target makes every hash a share.
pub proof fn law_a_job_keeps_the_share_target(s: SessionView, m: MsgView, nt: Seq<u8>, now: u64)
    ensures
        ({
            let t = message_step(s, m, nt, now).shared.job;
            &&& s.shared.job matches Some(j) ==> t is Some && (t->Some_0.target == j.target
                || m.method == Some("mining.set_target"@) || m.method == Some(
                "mining.set_difficulty"@,
            ))
            &&& s.shared.job is None && t is Some && m.method == Some("mining.notify"@)
                ==> t->Some_0.target.len() == 32 && forall|i: int|
                0 <= i < 32 ==> t->Some_0.target[i] == 0xff
        }),
{
    lemma_methods_differ();
}

/// A share target holds from when it is set: whatever jobs come behind it are
/// worked on with it, until another is set.
pub proof fn law_a_target_outlasts_the_jobs(
    s: SessionView,
    m: MsgView,
    next: MsgView,
    nt: Seq<u8>,
    now: u64,
    later: u64,
)
    requires
        m.method == Some("mining.set_target"@) || m.method == Some("mining.set_difficulty"@),
        message_step(s, m, nt, now).shared.job is Some,
        next.method == Some("mining.notify"@),
    ensures
        ({
            let a = message_step(s, m, nt, now);
            let b = message_step(a, next, nt, later);
            b.shared.job is Some && b.shared.job->Some_0.target == a.shared.job->Some_0.target
        }),
{
    lemma_methods_differ();
}

/// A set_target with 64 hexadecimal digits sets what they spell, and leaves the
/// rest of the job; one with anything else sets nothing.
pub proof fn law_a_set_target_is_taken_letter_for_letter(
    s: SessionView,
    m: MsgView,
    nt: Seq<u8>,
    now: u64,
    x: Seq<char>,
)
    requires
        m.method == Some("mining.set_target"@),
        m.args.len() > 0,
        m.args[0] == Arg::Str(x),
    ensures
        ({
            let t = message_step(s, m, nt, now);
            let good = x.len() == 64 && forall|i: int|
                0 <= i < 64 ==> json::is_hex_char(#[trigger] x[i]);
            &&& good ==> t.shared.job is Some && json::hex_of(t.shared.job->Some_0.target)
                == text::lower(x)
            &&& good && s.shared.job is Some ==> t.shared.job->Some_0 == (Work {
                target: t.shared.job->Some_0.target,
                ..s.shared.job->Some_0
            })
            &&& good && s.shared.job is None ==> !t.shared.job->Some_0.live
            &&& !good ==> t == s
        }),
{
    lemma_methods_differ();
    json::law_digits_and_nothing_else_denote_bytes(x, 32);
    if json::unhexed(x, 32) is Some {
        json::law_unhex_round_trip(x, 32);
    }
}

/// A set_difficulty sets the largest target whose product with the difficulty
/// is not above 2^256, or every hash as a share up to difficulty one, and leaves
/// the rest of the job.
pub proof fn law_a_set_difficulty_sets_its_part_of_all_hashes(
    s: SessionView,
    m: MsgView,
    nt: Seq<u8>,
    now: u64,
    d: u64,
)
    requires
        m.method == Some("mining.set_difficulty"@),
        m.args.len() > 0,
        m.args[0] == Arg::Num(d),
    ensures
        ({
            let t = message_step(s, m, nt, now).shared.job;
            let v = worker::be_number(t->Some_0.target);
            &&& t is Some && t->Some_0.target.len() == 32
            &&& d >= 2 ==> v * d <= 0x1_0000_0000_0000_0000 * (0x1_0000_0000_0000_0000 * (
            0x1_0000_0000_0000_0000 * 0x1_0000_0000_0000_0000)) < (v + 1) * d
            &&& d <= 1 ==> forall|i: int| 0 <= i < 32 ==> t->Some_0.target[i] == 0xff
            &&& s.shared.job matches Some(j) ==> t->Some_0 == (Work { target: t->Some_0.target, ..j
            })
            &&& s.shared.job is None ==> !t->Some_0.live
        }),
{
    lemma_methods_differ();
    worker::lemma_share_target_bytes(d);
}

/// A notify whose id is a number of 32 bits and whose prefix is 248 hexadecimal
/// digits becomes the job: live, at its height, under its number and its
/// spelling, with that prefix and the network target of it. A notify with
/// anything else changes nothing.
pub proof fn law_a_notify_becomes_the_job(
    s: SessionView,
    m: MsgView,
    nt: Seq<u8>,
    now: u64,
    h: Seq<char>,
    height: u64,
    p: Seq<char>,
)
    requires
        m.method == Some("mining.notify"@),
        m.args.len() > 2,
        m.args[0] == Arg::Str(h),
        m.args[1] == Arg::Num(height),
        m.args[2] == Arg::Str(p),
    ensures
        ({
            let t = message_step(s, m, nt, now);
            let id = text::number_in(h, 16, u32::MAX as nat);
            let good = id is Some && p.len() == 248 && forall|i: int|
                0 <= i < 248 ==> json::is_hex_char(#[trigger] p[i]);
            &&& good ==> t.shared.job is Some && {
                let j = t.shared.job->Some_0;
                &&& j.job_id == id->Some_0
                &&& j.job_id_hex == h
                &&& json::hex_of(j.prefix) == text::lower(p)
                &&& j.prefix.len() == 124
                &&& j.network_target == nt
                &&& j.height == height
                &&& j.live
                &&& t.jobs.newest == Some(j.job_id)
                &&& jobs::earns(t.jobs, j.job_id, now)
            }
            &&& !good ==> t == s
        }),
{
    lemma_methods_differ();
    json::law_digits_and_nothing_else_denote_bytes(p, 124);
    if json::unhexed(p, 124) is Some {
        json::law_unhex_round_trip(p, 124);
        if hex_id(h) is Some {
            jobs::law_a_new_job_is_echoed(
                s.jobs,
                (Job { id: hex_id(h)->Some_0 as u32, hex: h }),
                is_clean(m),
                now,
                now,
            );
        }
    }
}

/// A notify without an id, a height or a prefix changes nothing, nor does a
/// target or a difficulty that is none, nor any method but these three.
pub proof fn law_a_malformed_push_changes_nothing(s: SessionView, m: MsgView, nt: Seq<u8>, now: u64)
    requires
        m.method matches Some(t) && {
            ||| t != "mining.notify"@ && t != "mining.set_target"@ && t != "mining.set_difficulty"@
            ||| t == "mining.notify"@ && (m.args.len() < 3 || !(m.args[0] is Str)
                || !(m.args[1] is Num) || !(m.args[2] is Str))
            ||| t == "mining.set_target"@ && (m.args.len() < 1 || !(m.args[0] is Str))
            ||| t == "mining.set_difficulty"@ && (m.args.len() < 1 || !(m.args[0] is Num))
        },
    ensures
        message_step(s, m, nt, now) == s,
{
    lemma_methods_differ();
}

/// What the server pushes touches the work and nothing else: no request, no
/// login, no slice, no count and no clock. Each change of the work moves the
/// generation on by one, and a change of the jobs is a change of the work.
pub proof fn law_a_push_touches_only_the_work(s: SessionView, m: MsgView, nt: Seq<u8>, now: u64)
    requires
        m.method is Some,
    ensures
        ({
            let t = message_step(s, m, nt, now);
            &&& t.next_id == s.next_id
            &&& t.authorize_id == s.authorize_id
            &&& t.submits == s.submits
            &&& t.subscribed == s.subscribed
            &&& t.authorized == s.authorized
            &&& t.last_line_at == s.last_line_at
            &&& t.last_out_at == s.last_out_at
            &&& t.shared.e1 == s.shared.e1
            &&& t.shared.x_bits == s.shared.x_bits
            &&& t.shared.stop == s.shared.stop
            &&& t.shared.hashes == s.shared.hashes
            &&& t.shared.lanes == s.shared.lanes
            &&& t == s || t.shared.generation == (if s.shared.generation == u64::MAX {
                0
            } else {
                s.shared.generation + 1
            })
            &&& t.jobs != s.jobs ==> m.method == Some("mining.notify"@)
        }),
{
}

/// A reply touches no work: no job, no target and no generation.
pub proof fn law_a_reply_touches_no_work(s: SessionView, m: MsgView, nt: Seq<u8>, now: u64)
    requires
        m.method is None,
    ensures
        ({
            let t = message_step(s, m, nt, now);
            &&& t.jobs == s.jobs
            &&& t.shared.job == s.shared.job
            &&& t.shared.generation == s.shared.generation
            &&& t.shared.stop == s.shared.stop
            &&& t.shared.hashes == s.shared.hashes
            &&& t.shared.lanes == s.shared.lanes
            &&& t.last_line_at == s.last_line_at
            &&& t.last_out_at != s.last_out_at ==> t.last_out_at == now && !s.subscribed
                && t.subscribed
        }),
{
}

/// The first reply to the subscribe opens the session, if its slice is a
/// hexadecimal number that the window leaves room for and its window is one of
/// four or five bytes, five where it names none: the slice and the window are
/// taken, and the login is sent under the next id. Else nothing changes.
pub proof fn law_a_subscribe_reply_assigns_the_slice(
    s: SessionView,
    m: MsgView,
    nt: Seq<u8>,
    now: u64,
    args: &Args,
    r: Report,
)
    requires
        m.method is None,
        m.id == Some(1u64),
        !s.subscribed,
        s.next_id < u64::MAX,
    ensures
        ({
            let t = message_step(s, m, nt, now);
            let o = message_out(s, m, args, r);
            let e1 = if m.args.len() > 1 {
                match m.args[1] {
                    Arg::Str(h) => text::number_in(h, 16, u32::MAX as nat),
                    _ => None,
                }
            } else {
                None
            };
            let bytes = if m.args.len() > 2 {
                match m.args[2] {
                    Arg::Num(n) => n as int,
                    _ => 5,
                }
            } else {
                5
            };
            let good = e1 is Some && (bytes == 5 && e1->Some_0 < 0x100_0000 || bytes == 4);
            &&& good ==> t.subscribed && t.shared.e1 == e1->Some_0 && t.shared.x_bits == 8 * bytes
            &&& good ==> t.authorize_id == s.next_id && t.next_id == s.next_id + 1
                && t.last_out_at == now && t.submits == s.submits && t.authorized == s.authorized
            &&& good ==> o.send == Some(authorize_line(s.next_id, args.login@)) && o.end is None
                && !o.start
            &&& !good ==> t == s && o.send is None && o.end is Some && !o.start
            &&& message_totals(s, m, r) == r
        }),
{
    assert(1u64 << 24u32 == 0x100_0000u64) by (bit_vector);
    assert(1u64 << 32u32 == 0x1_0000_0000u64) by (bit_vector);
}

/// The first answer to the login opens the work, unless it is an error or says
/// false or nothing: the workers start and the connection is counted. A refusal
/// ends the session, and nothing is counted.
pub proof fn law_a_login_starts_the_workers(
    s: SessionView,
    m: MsgView,
    nt: Seq<u8>,
    now: u64,
    args: &Args,
    r: Report,
)
    requires
        m.method is None,
        m.id == Some(s.authorize_id),
        s.subscribed,
        !s.authorized,
        has_room(r),
    ensures
        ({
            let t = message_step(s, m, nt, now);
            let o = message_out(s, m, args, r);
            let good = !m.is_error && !m.result_false && (m.result_true || m.result_object);
            &&& good ==> t == (SessionView { authorized: true, ..s }) && o.start && o.end is None
            &&& good ==> message_totals(s, m, r) == (Report {
                connections: (r.connections + 1) as u64,
                ..r
            })
            &&& !good ==> t == s && !o.start && message_totals(s, m, r) == r
            &&& !good ==> (o.end matches Some(EndedView::Retry(l, _)) && l
                == Ladder::Authorization)
            &&& o.send is None
        }),
{
}

/// A share is submitted under the next id, which then waits for an answer, and a
/// block is counted; a share of a retired job is counted as stale, and nothing is
/// sent. Nothing else changes.
pub proof fn law_a_share_is_sent_or_stale(
    s: SessionView,
    r: Report,
    login: Seq<char>,
    verbose: bool,
    format: Format,
    sol: Solution,
    now: u64,
)
    requires
        s.next_id < u64::MAX,
        r.stale_dropped < u64::MAX,
        r.blocks < u64::MAX,
    ensures
        ({
            let t = submitted(s, sol, now);
            let n = submitted_totals(s, r, sol, now);
            let o = submit_out(s, login, verbose, format, sol, now);
            let live = jobs::earns(s.jobs, sol.job_id, now);
            &&& o.send is Some <==> live
            &&& live ==> t.submits == s.submits.insert(s.next_id) && t.next_id == s.next_id + 1
                && t.last_out_at == now
            &&& !live ==> t == s && n.stale_dropped == r.stale_dropped + 1 && n.blocks == r.blocks
            &&& live ==> n.stale_dropped == r.stale_dropped
            &&& live ==> n.blocks == r.blocks + (if sol.is_block {
                1int
            } else {
                0
            })
            &&& o.print is Some <==> live && sol.is_block
            &&& o.end is None && !o.start
            &&& n.accepted == r.accepted && n.rejected == r.rejected && n.hashes == r.hashes
                && n.connections == r.connections
            &&& t.jobs == s.jobs && t.shared == s.shared && t.subscribed == s.subscribed
                && t.authorized == s.authorized && t.authorize_id == s.authorize_id
                && t.last_line_at == s.last_line_at
        }),
{
}

/// The reply to a share counts it and takes its id from those that wait; a reply
/// to nothing counts nothing.
pub proof fn law_a_reply_settles_its_share(
    s: SessionView,
    m: MsgView,
    nt: Seq<u8>,
    r: Report,
    now: u64,
    id: u64,
)
    requires
        s.subscribed,
        s.authorized,
        m.method is None,
        m.id == Some(id),
        has_room(r),
    ensures
        ({
            let t = message_step(s, m, nt, now);
            let n = message_totals(s, m, r);
            let refused = m.is_error || m.result_false;
            &&& t == (SessionView { submits: s.submits.remove(id), ..s })
            &&& s.submits.contains(id) && refused ==> n == (Report {
                rejected: (r.rejected + 1) as u64,
                ..r
            })
            &&& s.submits.contains(id) && !refused ==> n == (Report {
                accepted: (r.accepted + 1) as u64,
                ..r
            })
            &&& !s.submits.contains(id) ==> n == r
        }),
{
}

/// A server that says nothing for as long as it is watched ends the session, and
/// not a moment earlier; before that, a keepalive goes out exactly when nothing
/// was sent for a third of that time, and it restarts that third. A watch of zero
/// watches nothing.
pub proof fn law_silence_is_asked_about_and_ends(s: SessionView, silence: u64, now: u64)
    requires
        s.next_id < u64::MAX,
        s.last_line_at <= now,
        s.last_out_at <= now,
    ensures
        ({
            let o = quiet_out(s, silence, now);
            let t = quiet_step(s, silence, now);
            let ended = silence > 0 && now - s.last_line_at >= silence;
            let asked = silence > 0 && !ended && 3 * (now - s.last_out_at) >= silence;
            &&& o.end is Some <==> ended
            &&& o.end matches Some(e) ==> (e matches EndedView::Retry(l, _) && l
                == Ladder::Connection)
            &&& o.send is Some <==> asked
            &&& asked ==> o.send == Some(keepalive_line(s.next_id)) && t == (SessionView {
                next_id: (s.next_id + 1) as u64,
                last_out_at: now,
                ..s
            })
            &&& asked ==> quiet_out(t, silence, now).send is None
            &&& !asked ==> t == s
        }),
{
}

/// Only a line that was heard moves the clock of the silence.
pub proof fn law_a_line_breaks_the_silence(s: SessionView, f: Framed, now: u64)
    ensures
        heard(s, f, now).last_line_at == (if f is Line {
            now
        } else {
            s.last_line_at
        }),
        heard(s, f, now) == (SessionView { last_line_at: heard(s, f, now).last_line_at, ..s }),
        f is Line && now >= s.last_line_at ==> quiet_out(
            heard(s, f, now),
            u64::MAX,
            now,
        ).end is None,
{
}

// ---------------------------------------------------------------------------
// What is sent and when a session ends

/// A share is submitted under the server's spelling of its job, with its nonce as
/// sixteen digits, the lowest byte first.
pub proof fn law_a_submit_names_its_job_and_nonce(
    s: SessionView,
    login: Seq<char>,
    verbose: bool,
    format: Format,
    sol: Solution,
    now: u64,
    i: int,
)
    requires
        0 <= i < s.jobs.live.len(),
        s.jobs.live[i].id == sol.job_id,
        forall|k: int| 0 <= k < i ==> (#[trigger] s.jobs.live[k]).id != sol.job_id,
    ensures
        submit_out(s, login, verbose, format, sol, now).send == Some(
            "{\"id\":"@ + text::dec(s.next_id as nat) + ",\"method\":\"mining.submit\",\"params\":["@
                + json_text(login) + ",\""@ + s.jobs.live[i].hex + "\",\""@ + json::hex_of(
                work::le_bytes(sol.nonce as nat, 8),
            ) + "\"]}"@,
        ),
        json::unhexed(json::hex_of(work::le_bytes(sol.nonce as nat, 8)), 8) == Some(
            work::le_bytes(sol.nonce as nat, 8),
        ),
        worker::be_number(work::le_bytes(sol.nonce as nat, 8).reverse()) == sol.nonce,
{
    jobs::law_a_spelling_is_the_servers(s.jobs, sol.job_id, i);
    jobs::law_credit_is_for_live_jobs_and_grace(s.jobs, sol.job_id, now, i);
    worker::law_a_header_holds_its_prefix_and_nonce(Seq::empty(), sol.nonce);
    let b = work::le_bytes(sol.nonce as nat, 8);
    let h = work::header_of(Seq::empty(), sol.nonce);
    assert(h =~= b);
    assert(h.skip(0) =~= b);
    json::law_written_bytes_are_read_back(b);
}

/// A JSON string is written character by character: quotes and backslashes behind
/// a backslash, line ends and tabs as their letters, other control characters as
/// blanks, and everything else as it is.
pub proof fn law_a_login_is_escaped(s: Seq<char>, c: char)
    ensures
        json_text(Seq::empty()) == seq!['"', '"'],
        json_chars(s.push(c)) == json_chars(s) + (if c == '"' || c == '\\' {
            seq!['\\', c]
        } else if c == '\n' {
            seq!['\\', 'n']
        } else if c == '\r' {
            seq!['\\', 'r']
        } else if c == '\t' {
            seq!['\\', 't']
        } else if (c as u32) < 32 {
            seq![' ']
        } else {
            seq![c]
        }),
{
    assert(s.push(c).drop_last() =~= s);
    assert(json_text(Seq::empty()) =~= seq!['"', '"']);
}

/// A session is over before anything is read exactly at a limit of the run or
/// when there are workers and all of them have stopped; the limit comes first.
pub proof fn law_a_session_ends_at_a_limit(
    s: &Session,
    args: &Args,
    elapsed: u64,
    totals: &Report,
    finished: &[bool],
    r: Option<Ended>,
)
    requires
        call_ensures(Session::over, (s, args, elapsed, totals, finished), r),
    ensures
        ({
            let limit = (args.max_shares > 0 && totals.accepted >= args.max_shares) || (
            args.max_blocks > 0 && totals.blocks >= args.max_blocks) || (args.deadline_secs > 0
                && elapsed >= args.deadline_secs * 1000);
            let dead = finished@.len() > 0 && forall|i: int|
                0 <= i < finished@.len() ==> finished@[i];
            &&& r is Some <==> limit || dead
            &&& limit ==> (r matches Some(e) && e@ == EndedView::Limit)
            &&& dead && !limit ==> (r matches Some(e) && e@ is NoWorkers)
        }),
{
}

/// What the server closes or floods ends the session; bytes that are no line yet
/// do nothing, and a line that is no message says nothing.
pub proof fn law_only_a_line_is_a_message(s: SessionView, f: Framed, args: &Args, r: Report)
    ensures
        f is Idle ==> framed_out(s, f, args, r) == nothing(),
        f is Eof ==> framed_out(s, f, args, r).end == Some(EndedView::ServerClosed),
        f is TooLong ==> (framed_out(s, f, args, r).end matches Some(EndedView::Retry(l, _)) && l
            == Ladder::Connection),
        f is Eof || f is TooLong ==> framed_out(s, f, args, r).send is None && !framed_out(
            s,
            f,
            args,
            r,
        ).start,
        f is Line && line_message(f) is None ==> framed_out(s, f, args, r).send is None
            && framed_out(s, f, args, r).end is None && !framed_out(s, f, args, r).start,
        f is Line ==> (line_message(f) matches Some(m) ==> framed_out(s, f, args, r).send
            == message_out(s, m, args, r).send && framed_out(s, f, args, r).end == message_out(
            s,
            m,
            args,
            r,
        ).end && framed_out(s, f, args, r).start == message_out(s, m, args, r).start
            && framed_out(s, f, args, r).print == message_out(s, m, args, r).print),
{
}

/// The server's pushes are answered with nothing, and end and start nothing.
pub proof fn law_a_push_is_not_answered(s: SessionView, m: MsgView, args: &Args, r: Report)
    requires
        m.method is Some,
    ensures
        message_out(s, m, args, r).send is None,
        message_out(s, m, args, r).end is None,
        message_out(s, m, args, r).print is None,
        !message_out(s, m, args, r).start,
        message_totals(s, m, r) == r,
{
}

/// A session begins with its subscribe, without a job, a slice or a login, and
/// with a lane for each worker, one at least.
pub proof fn law_a_session_begins_with_nothing(threads: usize, now: u64, r: (Session, String))
    requires
        call_ensures(Session::new, (threads, now), r),
    ensures
        !r.0@.subscribed,
        !r.0@.authorized,
        r.0@.next_id == 2,
        r.0@.submits == Set::<u64>::empty(),
        r.0@.shared.job is None,
        r.0@.jobs.live.len() == 0 && r.0@.jobs.displaced is None && r.0@.jobs.newest is None,
        r.0@.shared.generation == 0 && r.0@.shared.e1 == 0 && r.0@.shared.x_bits == 40
            && !r.0@.shared.stop && r.0@.shared.hashes == 0,
        threads > 0 ==> r.0@.shared.lanes.len() == threads,
        threads == 0 ==> r.0@.shared.lanes.len() == 1,
        r.0@.last_line_at == now && r.0@.last_out_at == now,
{
}

/// Whatever line comes in, the share target of a session that has a job is the
/// one it had, unless the line is a set_target or a set_difficulty; and a line
/// that is no message leaves the work alone.
pub proof fn law_a_line_keeps_the_share_target<F: Fn(u32) -> Option<[u64; 4]>>(
    s: &mut Session,
    f: Framed,
    args: &Args,
    totals: &mut Report,
    now: u64,
    decode: F,
    out: Out,
)
    requires
        call_ensures(Session::framed::<F>, (s, f, args, totals, now, decode), out),
    ensures
        old(s)@.shared.job matches Some(j) ==> (final(s)@.shared.job matches Some(k) && (k.target
            == j.target || (line_message(f) matches Some(m) && (m.method == Some(
            "mining.set_target"@,
        ) || m.method == Some("mining.set_difficulty"@))))),
        line_message(f) is None ==> final(s)@.shared == old(s)@.shared && final(s)@.jobs
            == old(s)@.jobs && *final(totals) == *old(totals),
        f is Line ==> final(s)@.last_line_at == now,
        !(f is Line) ==> final(s)@.last_line_at == old(s)@.last_line_at,
{
    match line_message(f) {
        Some(m) => {
            let nt = choose|nt: Seq<u8>| #[trigger]
                message_target(decode, m, nt) && final(s)@ == message_step(
                    heard(old(s)@, f, now),
                    m,
                    nt,
                    now,
                );
            law_a_job_keeps_the_share_target(heard(old(s)@, f, now), m, nt, now);
            if m.method is Some {
                law_a_push_touches_only_the_work(heard(old(s)@, f, now), m, nt, now);
            } else {
                law_a_reply_touches_no_work(heard(old(s)@, f, now), m, nt, now);
            }
        },
        None => {},
    }
}

/// The network target of a job is what the decoder makes of the compact target in
/// its own header, as a number, and zero where it makes none.
pub proof fn law_a_network_target_is_that_of_the_prefix<F: Fn(u32) -> Option<[u64; 4]>>(
    decode: F,
    m: MsgView,
    nt: Seq<u8>,
) -> (limbs: Option<[u64; 4]>)
    requires
        message_target(decode, m, nt),
        m.method == Some("mining.notify"@),
        is_job(m),
    ensures
        ({
            let p = prefix_of(m);
            &&& call_ensures(
                decode,
                ((p[116] + 256 * p[117] + 65536 * p[118] + 16777216 * p[119]) as u32,),
                limbs,
            )
            &&& nt.len() == 32
            &&& limbs is None ==> forall|i: int| 0 <= i < 32 ==> nt[i] == 0
            &&& limbs matches Some(l) ==> worker::be_number(nt) == l@[0] + 0x1_0000_0000_0000_0000
                * (l@[1] + 0x1_0000_0000_0000_0000 * (l@[2] + 0x1_0000_0000_0000_0000 * l@[3]))
        }),
{
    let p = prefix_of(m);
    let limbs = choose|limbs: Option<[u64; 4]>| #[trigger]
        call_ensures(decode, (work::bits_value(p) as u32,), limbs) && nt == (match limbs {
            Some(l) => work::be_bytes(work::limbs_value(l@), 32),
            None => bytes32(0),
        });
    match limbs {
        Some(l) => {
            reveal_with_fuel(work::pow256, 33);
            worker::law_bytes_denote_their_number(work::limbs_value(l@), 32);
        },
        None => {},
    }
    limbs
}

/// A session that is told to stop tells its workers so and changes nothing else,
/// and what they have hashed is added to the totals once.
pub proof fn law_a_session_settles_its_hashes(s: &Session, totals: &mut Report)
    requires
        old(totals).hashes + s@.shared.hashes <= u64::MAX,
        call_ensures(Session::settle, (s, totals), ()),
    ensures
        final(totals).hashes == old(totals).hashes + s@.shared.hashes,
        final(totals).accepted == old(totals).accepted,
        final(totals).rejected == old(totals).rejected,
        final(totals).blocks == old(totals).blocks,
        final(totals).connections == old(totals).connections,
        final(totals).stale_dropped == old(totals).stale_dropped,
{
}

/// The answer to a share is told with the totals that it makes: an accepted one
/// always, a refused one as a note and, where reports are JSON, with its code and
/// its message.
pub proof fn law_an_answer_is_told_with_its_totals(
    s: SessionView,
    m: MsgView,
    args: &Args,
    r: Report,
    id: u64,
)
    requires
        s.subscribed,
        s.authorized,
        m.method is None,
        m.id == Some(id),
        s.submits.contains(id),
        has_room(r),
    ensures
        ({
            let o = message_out(s, m, args, r);
            let n = message_totals(s, m, r);
            let refused = m.is_error || m.result_false;
            let json = args.status_format == Format::Json;
            &&& !refused && json ==> o.print == Some(
                status::share_text(true, n.accepted as nat, n.rejected as nat, None, None),
            )
            &&& !refused && !json ==> o.print == Some(
                "plaine-miner: share accepted ("@ + text::dec(n.accepted as nat) + " accepted, "@
                    + text::dec(n.rejected as nat) + " rejected)"@,
            )
            &&& refused && json ==> (o.print matches Some(t) && exists|c: Option<i64>|
                t == #[trigger] status::share_text(
                    false,
                    n.accepted as nat,
                    n.rejected as nat,
                    c,
                    m.error_msg,
                ))
            &&& refused && !json ==> o.print is None
            &&& refused ==> o.notes.len() == 1
            &&& !refused ==> o.notes.len() == 0
            &&& o.send is None && o.end is None && !o.start
        }),
{
    let n = message_totals(s, m, r);
    let t = status::share_text(
        false,
        n.accepted as nat,
        n.rejected as nat,
        refusal_code(m),
        m.error_msg,
    );
}

/// A block is told with its height and its hash, as an event where reports are
/// JSON.
pub proof fn law_a_block_is_told_with_its_hash(
    s: SessionView,
    login: Seq<char>,
    verbose: bool,
    sol: Solution,
    now: u64,
)
    requires
        jobs::earns(s.jobs, sol.job_id, now),
        sol.is_block,
    ensures
        submit_out(s, login, verbose, Format::Json, sol, now).print == Some(
            status::block_text(sol.height as nat, json::hex_of(sol.pow_hash@)),
        ),
        submit_out(s, login, verbose, Format::Text, sol, now).print == Some(
            "plaine-miner: block candidate at height "@ + text::dec(sol.height as nat) + " - "@
                + json::hex_of(sol.pow_hash@),
        ),
{
}

} // verus!
