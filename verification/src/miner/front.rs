//! What the program says and decides before it mines, and when it has.

use vstd::prelude::*;
use crate::miner::argv::Ask;
use crate::miner::batch;
use crate::miner::batch::Choice;
use crate::miner::json;
use crate::miner::json::{hex, unhex_vec};
use crate::miner::ladder::Report;
use crate::miner::status;
use crate::miner::status::{Event, Format};
use crate::miner::topo;
use crate::miner::topo::{fmt_list, Topology};
use crate::miner::work;
use crate::miner::work::HEADER_BYTES;
use crate::miner::worker;
use crate::miner::worker::status_line;
use crate::text;
use crate::text::{push_dec, push_hex_pad, string_of, to_chars, trim};

verus! {

// ---------------------------------------------------------------------------
// Before

/// How many nonces go into a batch: as many as were asked for, else as many as
/// the machine calls for. What the machine called for is told to those who want
/// to know more.
pub fn choose_batch(asked: Option<usize>, machine: &Topology, threads: usize, verbose: bool) -> (r: (
    usize,
    Option<String>,
))
    ensures
        r.0 == (match asked {
            Some(n) => n as nat,
            None => batch::auto_batch(machine.cpus@),
        }),
        r.1 is Some <==> asked is None && verbose,
        r.1 matches Some(t) ==> t@ == "batch "@ + text::dec(r.0 as nat) + " - "@ + batch::auto_why(
            machine.cpus@,
            machine.source@,
        ),
{
    match asked {
        Some(n) => (n, None),
        None => {
            let c: Choice = batch::auto(machine, threads);
            if !verbose {
                return (c.batch, None);
            }
            let mut t = "batch ".to_owned();
            push_dec(&mut t, c.batch as u64);
            t.append(" - ");
            t.append(&c.why);
            (c.batch, Some(t))
        },
    }
}

/// What is said of the processors that workers are pinned to.
pub fn pin_lines(cpus: &[usize]) -> (v: Vec<String>)
    ensures
        v@.len() == 2,
        v@[0]@ == "plaine-miner: cpu affinity: workers pinned, in order, to cpu "@
            + topo::list_text(cpus@, 0),
        v@[1]@ == "plaine-miner:   (the socket thread is left unpinned on purpose)"@,
{
    let mut t = "plaine-miner: cpu affinity: workers pinned, in order, to cpu ".to_owned();
    t.append(&fmt_list(cpus));
    vec![t, "plaine-miner:   (the socket thread is left unpinned on purpose)".to_owned()]
}

/// What is said of the pages that were asked for. `likely` and `state` tell
/// whether the machine will give huge ones.
pub fn page_lines(pages: Ask, likely: bool, state: &str) -> (v: Vec<String>)
    ensures
        match pages {
            Ask::Auto => v@.len() == 0,
            Ask::Never => v@.len() == 1 && v@[0]@
                == "plaine-miner: --no-huge-pages: ordinary pages on purpose"@,
            Ask::Force => {
                &&& v@.len() == (if likely {
                    1int
                } else {
                    2
                })
                &&& v@[0]@
                    == "plaine-miner: --huge-pages: requesting huge scratchpads; the startup line reports which page size was obtained"@
                &&& !likely ==> v@[1]@ == "plaine-miner:   "@ + state@
            },
        },
{
    let mut v: Vec<String> = Vec::new();
    match pages {
        Ask::Auto => {},
        Ask::Never => {
            v.push("plaine-miner: --no-huge-pages: ordinary pages on purpose".to_owned());
        },
        Ask::Force => {
            v.push(
                "plaine-miner: --huge-pages: requesting huge scratchpads; the startup line reports which page size was obtained".to_owned(),
            );
            if !likely {
                let mut t = "plaine-miner:   ".to_owned();
                t.append(state);
                v.push(t);
            }
        },
    }
    v
}

/// Refuses to mine to nobody.
pub fn check_login(login: &str) -> (r: Result<(), String>)
    ensures
        r is Ok <==> login@.len() > 0,
        r matches Err(e) ==> e@
            == "give me a pool URL: `plaine-miner plne1youraddress.rig1`\nsolo mining pays the coinbase to that address, so it has no default"@,
{
    if login.unicode_len() == 0 {
        Err(
            "give me a pool URL: `plaine-miner plne1youraddress.rig1`\nsolo mining pays the coinbase to that address, so it has no default".to_owned(),
        )
    } else {
        Ok(())
    }
}

// ---------------------------------------------------------------------------
// Grinding one header

/// The header that `--grind` was given.
pub fn parse_header(arg: &str) -> (r: Result<[u8; HEADER_BYTES], String>)
    ensures
        r is Ok <==> json::unhexed(text::trimmed(arg@), HEADER_BYTES as nat) is Some,
        r matches Ok(h) ==> json::unhexed(text::trimmed(arg@), HEADER_BYTES as nat) == Some(h@),
        r matches Err(e) ==> e@ == "--grind needs exactly 264 hex characters (132 bytes)"@,
{
    let s = string_of(&trim(&to_chars(arg)));
    match unhex_vec(&s, HEADER_BYTES) {
        Some(v) => {
            let mut h: [u8; HEADER_BYTES] = [0u8; HEADER_BYTES];
            let mut i: usize = 0;
            while i < HEADER_BYTES
                invariant
                    i <= HEADER_BYTES,
                    v@.len() == HEADER_BYTES,
                    forall|k: int| 0 <= k < i ==> h@[k] == v@[k],
                decreases HEADER_BYTES - i,
            {
                h[i] = v[i];
                i += 1;
            }
            assert(h@ =~= v@);
            Ok(h)
        },
        None => Err("--grind needs exactly 264 hex characters (132 bytes)".to_owned()),
    }
}

/// The compact target in a header.
pub fn header_bits(h: &[u8; HEADER_BYTES]) -> (bits: u32)
    ensures
        bits == work::bits_value(h@),
{
    h[116] as u32 + 256 * (h[117] as u32) + 65536 * (h[118] as u32) + 16777216 * (h[119] as u32)
}

/// What is said when a search begins.
pub fn grind_line(bits: u32, target: &[u8; 32], threads: u64) -> (t: String)
    ensures
        t@ == "plaine-miner: grinding bits 0x"@ + text::hex_pad(bits as nat, 8) + " target "@
            + json::hex_of(target@) + " on "@ + text::dec(threads as nat) + " threads"@,
{
    let mut t = "plaine-miner: grinding bits 0x".to_owned();
    push_hex_pad(&mut t, bits as u64, 8);
    t.append(" target ");
    t.append(&hex(target));
    t.append(" on ");
    push_dec(&mut t, threads);
    t.append(" threads");
    t
}

// ---------------------------------------------------------------------------
// Meanwhile and after

/// How fast it goes, in whole hashes per second and as people read it.
pub struct Pace {
    pub now: u64,
    pub avg: u64,
    pub now_text: String,
    pub avg_text: String,
}

/// The job at the top: its number, as the server spells it, and its height.
pub struct Top<'a> {
    pub id: Option<u32>,
    pub hex: Option<&'a str>,
    pub height: u64,
}

/// The status report that is due.
pub fn status_report(
    format: Format,
    pace: &Pace,
    r: &Report,
    top: &Top,
    uptime: u64,
    threads: usize,
) -> (t: String)
    ensures
        format == Format::Json ==> t@ == status::event_text(
            (Event::Status {
                hashrate: pace.now,
                avg: pace.avg,
                accepted: r.accepted,
                rejected: r.rejected,
                blocks: r.blocks,
                job: top.hex,
                height: top.height,
                uptime,
                threads,
            }),
        ),
        format == Format::Text ==> t@ == worker::status_text(
            pace.now_text@,
            pace.avg_text@,
            *r,
            top.id,
            top.height as nat,
            uptime as nat,
        ),
{
    match format {
        Format::Json => {
            let e = Event::Status {
                hashrate: pace.now,
                avg: pace.avg,
                accepted: r.accepted,
                rejected: r.rejected,
                blocks: r.blocks,
                job: top.hex,
                height: top.height,
                uptime,
                threads,
            };
            e.json()
        },
        Format::Text => status_line(
            &pace.now_text,
            &pace.avg_text,
            r,
            top.id,
            top.height,
            uptime,
        ),
    }
}

/// How long a run has lasted, in days, hours, minutes and seconds.
pub open spec fn lasted(s: nat) -> Seq<char> {
    if s >= 86_400 {
        text::dec(s / 86_400) + "d "@ + text::dec(s % 86_400 / 3_600) + "h "@ + text::dec(
            s % 3_600 / 60,
        ) + "m"@
    } else if s >= 3_600 {
        text::dec(s / 3_600) + "h "@ + text::dec(s % 3_600 / 60) + "m "@ + text::dec(s % 60) + "s"@
    } else if s >= 60 {
        text::dec(s / 60) + "m "@ + text::dec(s % 60) + "s"@
    } else {
        text::dec(s) + "s"@
    }
}

/// How long a run has lasted.
pub fn uptime(s: u64) -> (t: String)
    ensures
        t@ == lasted(s as nat),
{
    let mut t = String::new();
    if s >= 86_400 {
        push_dec(&mut t, s / 86_400);
        t.append("d ");
        push_dec(&mut t, s % 86_400 / 3_600);
        t.append("h ");
        push_dec(&mut t, s % 3_600 / 60);
        t.append("m");
    } else if s >= 3_600 {
        push_dec(&mut t, s / 3_600);
        t.append("h ");
        push_dec(&mut t, s % 3_600 / 60);
        t.append("m ");
        push_dec(&mut t, s % 60);
        t.append("s");
    } else if s >= 60 {
        push_dec(&mut t, s / 60);
        t.append("m ");
        push_dec(&mut t, s % 60);
        t.append("s");
    } else {
        push_dec(&mut t, s);
        t.append("s");
    }
    assert(t@ =~= lasted(s as nat));
    t
}

/// What a run came to.
pub fn summary(format: Format, r: &Report, avg: u64, avg_text: &str, secs: u64) -> (t: String)
    ensures
        format == Format::Json ==> t@ == status::event_text(
            (Event::Summary {
                accepted: r.accepted,
                rejected: r.rejected,
                blocks: r.blocks,
                hashes: r.hashes,
                avg,
                uptime: secs,
            }),
        ),
        format == Format::Text ==> t@ == "plaine-miner: "@ + text::dec(r.accepted as nat)
            + " accepted, "@ + text::dec(r.rejected as nat) + " rejected, "@ + text::dec(
            r.blocks as nat,
        ) + " blocks, "@ + text::dec(r.hashes as nat) + " hashes, "@ + avg_text@ + " average, up "@
            + lasted(secs as nat),
{
    match format {
        Format::Json => {
            let e = Event::Summary {
                accepted: r.accepted,
                rejected: r.rejected,
                blocks: r.blocks,
                hashes: r.hashes,
                avg,
                uptime: secs,
            };
            e.json()
        },
        Format::Text => {
            let mut t = "plaine-miner: ".to_owned();
            push_dec(&mut t, r.accepted);
            t.append(" accepted, ");
            push_dec(&mut t, r.rejected);
            t.append(" rejected, ");
            push_dec(&mut t, r.blocks);
            t.append(" blocks, ");
            push_dec(&mut t, r.hashes);
            t.append(" hashes, ");
            t.append(avg_text);
            t.append(" average, up ");
            t.append(&uptime(secs));
            t
        },
    }
}

// ---------------------------------------------------------------------------
// What is decided before and told after

/// A batch that was asked for is kept; else the machine decides, and that is told
/// exactly to those who want to know more.
pub proof fn law_a_batch_that_was_asked_for_is_kept(
    asked: Option<usize>,
    machine: &Topology,
    threads: usize,
    verbose: bool,
    r: (usize, Option<String>),
)
    requires
        call_ensures(choose_batch, (asked, machine, threads, verbose), r),
    ensures
        asked matches Some(n) ==> r.0 == n && r.1 is None,
        asked is None ==> 2 <= r.0 <= 32,
        asked is None ==> (r.1 is Some <==> verbose),
{
    batch::law_the_choice_is_legal(machine.cpus@);
}

/// The header to grind is the one that its 264 digits spell.
pub proof fn law_a_header_is_what_its_digits_spell(
    arg: &str,
    r: Result<[u8; HEADER_BYTES], String>,
)
    requires
        call_ensures(parse_header, (arg,), r),
    ensures
        r is Ok <==> text::trimmed(arg@).len() == 264 && forall|i: int|
            0 <= i < 264 ==> json::is_hex_char(#[trigger] text::trimmed(arg@)[i]),
        r matches Ok(h) ==> json::hex_of(h@) == text::lower(text::trimmed(arg@)),
{
    json::law_digits_and_nothing_else_denote_bytes(text::trimmed(arg@), 132);
    if json::unhexed(text::trimmed(arg@), 132) is Some {
        json::law_unhex_round_trip(text::trimmed(arg@), 132);
    }
}

proof fn lemma_units(d: nat, h: nat, m: nat, s: nat)
    requires
        h < 24,
        m < 60,
        s < 60,
    ensures
        ({
            let n = d * 86_400 + h * 3_600 + m * 60 + s;
            &&& n / 86_400 == d
            &&& n % 86_400 == h * 3_600 + m * 60 + s
            &&& n % 86_400 / 3_600 == h
            &&& n % 3_600 == m * 60 + s
            &&& n % 3_600 / 60 == m
            &&& n % 60 == s
        }),
{
    let n = d * 86_400 + h * 3_600 + m * 60 + s;
    let low = h * 3_600 + m * 60 + s;
    assert(low < 86_400);
    assert(n / 86_400 == d && n % 86_400 == low);
    assert(low / 3_600 == h);
    assert(n == (24 * d + h) * 3_600 + (m * 60 + s));
    assert(n % 3_600 == m * 60 + s);
    assert(n == ((24 * d + h) * 60 + m) * 60 + s);
}

/// A run of at least a day is told in days, hours and minutes.
pub proof fn law_days_are_told_with_hours_and_minutes(d: nat, h: nat, m: nat, s: nat)
    requires
        d > 0,
        h < 24,
        m < 60,
        s < 60,
    ensures
        lasted(d * 86_400 + h * 3_600 + m * 60 + s) == text::dec(d) + "d "@ + text::dec(h) + "h "@
            + text::dec(m) + "m"@,
{
    lemma_units(d, h, m, s);
}

/// A run of at least an hour is told in hours, minutes and seconds.
pub proof fn law_hours_are_told_with_minutes_and_seconds(h: nat, m: nat, s: nat)
    requires
        0 < h < 24,
        m < 60,
        s < 60,
    ensures
        lasted(h * 3_600 + m * 60 + s) == text::dec(h) + "h "@ + text::dec(m) + "m "@ + text::dec(s)
            + "s"@,
{
    lemma_units(0, h, m, s);
    let n = h * 3_600 + m * 60 + s;
    assert(n < 86_400);
    assert(n / 3_600 == h);
}

/// A shorter run is told in minutes and seconds, or in seconds.
pub proof fn law_minutes_are_told_with_seconds(m: nat, s: nat)
    requires
        m < 60,
        s < 60,
    ensures
        m > 0 ==> lasted(m * 60 + s) == text::dec(m) + "m "@ + text::dec(s) + "s"@,
        lasted(s) == text::dec(s) + "s"@,
{
}

/// Nobody is mined for exactly where no login is given.
pub proof fn law_a_login_is_needed(login: &str, r: Result<(), String>)
    requires
        call_ensures(check_login, (login,), r),
    ensures
        r is Err <==> login@.len() == 0,
{
}

} // verus!
