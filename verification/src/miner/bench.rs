//! What a benchmark reports. The rates and times are texts here: the program
//! measures them.

use vstd::prelude::*;
use crate::miner::argv::Ask;
use crate::miner::pad;
use crate::miner::pad::{PadPages, Summary};
use crate::miner::ranks;
use crate::miner::topo;
use crate::miner::topo::{fmt_list, push_left, Cpu, Topology};
use crate::text;
use crate::text::{push_dec, to_chars};

verus! {

/// What a benchmark was asked for.
#[derive(Debug, Clone)]
pub struct Bench {
    pub secs: u64,
    pub threads: usize,
    pub cpus: Option<Vec<usize>>,
    pub pages: Ask,
    pub verbose: bool,
}

/// What one worker of a benchmark has to report.
#[derive(Debug, Clone)]
pub struct Worker {
    /// The processor it was asked to be on.
    pub cpu: Option<usize>,
    /// Whether it was put there, and what the system said about it.
    pub placement: Option<(bool, String)>,
    pub pages: PadPages,
    pub rate: String,
}

/// What was seen of the clock.
#[derive(Debug, Clone)]
pub enum Observed {
    /// The cycles that one hash took, if hashes were counted, and how they
    /// were counted.
    Cycles { per_hash: Option<u64>, how: String },
    Absent { why: String },
}

/// What was measured, as texts, and what the machine says of itself.
#[derive(Debug, Clone)]
pub struct Measured {
    pub total: String,
    pub per_thread: String,
    pub slowest: String,
    pub fastest: String,
    pub hashes: u64,
    pub window: String,
    pub observed: Observed,
    /// Whether the processor has a clock that ticks at a fixed rate.
    pub invariant_tsc: bool,
    /// The processors that the process is allowed to use, if that is known.
    pub allowed: Option<Vec<usize>>,
    /// What huge pages came to, in words, and the size of an ordinary page.
    pub pages_text: String,
    pub base_page: usize,
    /// Why not all regions are on huge pages.
    pub pages_why: String,
    /// The architecture and the kind of build.
    pub build: String,
}

// ---------------------------------------------------------------------------
// Small texts

/// Digits from index `i` on, with a blank before every group of three.
pub open spec fn grouped(d: Seq<char>, i: int) -> Seq<char>
    decreases d.len() - i,
{
    if i < 0 || i >= d.len() {
        Seq::empty()
    } else {
        (if i > 0 && (d.len() - i) % 3 == 0 {
            seq![' ', d[i]]
        } else {
            seq![d[i]]
        }) + grouped(d, i + 1)
    }
}

/// `n` in decimal, in groups of three digits.
pub fn thousands(n: u64) -> (t: String)
    ensures
        t@ == grouped(text::dec(n as nat), 0),
{
    let d = to_chars(&text::dec_of(n));
    let ghost s = text::dec(n as nat);
    let mut t = String::new();
    let mut i: usize = 0;
    assert(t@ + grouped(s, 0) =~= grouped(s, 0));
    while i < d.len()
        invariant
            i <= d.len(),
            d@ == s,
            t@ + grouped(s, i as int) == grouped(s, 0),
        decreases d.len() - i,
    {
        let ghost was = t@;
        let ghost rest = grouped(s, i + 1);
        if i > 0 && (d.len() - i) % 3 == 0 {
            t.push(' ');
        }
        t.push(d[i]);
        assert(t@ + rest =~= was + grouped(s, i as int));
        i += 1;
    }
    assert(t@ + grouped(s, i as int) =~= t@);
    t
}

/// How many workers a benchmark has: at least one.
pub open spec fn workers(b: Bench) -> usize {
    if b.threads == 0 {
        1
    } else {
        b.threads
    }
}

/// The processors whose cycles belong to the run: those that were named; all of
/// them where there is a worker for each; else it cannot be known.
pub fn probe_cpus(b: &Bench, t: &Topology) -> (r: Vec<usize>)
    ensures
        r@ == (match b.cpus {
            Some(l) => l@,
            None => if workers(*b) >= t.cpus@.len() {
                topo::ids(t.cpus@)
            } else {
                Seq::empty()
            },
        }),
{
    match &b.cpus {
        Some(l) => topo::copy_ids(l),
        None => {
            let n: usize = if b.threads == 0 {
                1
            } else {
                b.threads
            };
            if n >= t.logical() {
                t.all_ids()
            } else {
                Vec::new()
            }
        },
    }
}

/// Why no cycles can be given, where workers were not pinned and there are
/// fewer of them than processors.
pub open spec fn unpinned_note(b: Bench, t: Topology) -> Option<Seq<char>> {
    if b.cpus is None && workers(b) < t.cpus@.len() {
        Some(
            text::dec(workers(b) as nat) + " workers were left unpinned on a "@ + text::dec(
                t.cpus@.len(),
            )
                + "-processor machine, so which processors' cycles belong to this run is not knowable; --cpu-affinity gives a cycles figure"@,
        )
    } else {
        None
    }
}

/// Why no cycles can be given.
pub fn unpinned_clock_note(b: &Bench, t: &Topology) -> (r: Option<String>)
    ensures
        r is Some <==> unpinned_note(*b, *t) is Some,
        r matches Some(n) ==> unpinned_note(*b, *t) == Some(n@),
{
    let n: usize = if b.threads == 0 {
        1
    } else {
        b.threads
    };
    if b.cpus.is_none() && n < t.logical() {
        let mut s = text::dec_of(n as u64);
        s.append(" workers were left unpinned on a ");
        push_dec(&mut s, t.logical() as u64);
        s.append(
            "-processor machine, so which processors' cycles belong to this run is not knowable; --cpu-affinity gives a cycles figure",
        );
        Some(s)
    } else {
        None
    }
}

/// What is said of the pages of all regions.
pub open spec fn page_text(described: Seq<char>, s: Seq<usize>, base_page: usize) -> Seq<char> {
    let got = if pad::is_mixed(s) {
        pad::summary_tag(s) + " pages"@
    } else {
        described
    };
    if pad::huge_of(s) == 0 {
        got + ", base page "@ + text::dec((base_page / 1024) as nat) + " KiB"@
    } else if pad::huge_of(s) == pad::sum4(s) {
        got + " for all "@ + text::dec(pad::sum4(s)) + " worker regions"@
    } else {
        got + " for "@ + text::dec(pad::huge_of(s)) + " of "@ + text::dec(pad::sum4(s))
            + " worker regions, the rest on ordinary pages - this run mixes the two, so its rate is not either arm's"@
    }
}

/// What is said of the pages of all regions; `described` says it of one kind.
pub fn page_line(described: &str, s: Summary, base_page: usize) -> (t: String)
    ensures
        t@ == page_text(described@, s@, base_page),
{
    let mut t = if s.mixed() {
        let mut u = s.tag().to_owned();
        u.append(" pages");
        u
    } else {
        described.to_owned()
    };
    let huge: usize = s.huge();
    let total: usize = s.total();
    if huge == 0 {
        t.append(", base page ");
        push_dec(&mut t, (base_page / 1024) as u64);
        t.append(" KiB");
    } else if huge == total {
        t.append(" for all ");
        push_dec(&mut t, total as u64);
        t.append(" worker regions");
    } else {
        t.append(" for ");
        push_dec(&mut t, huge as u64);
        t.append(" of ");
        push_dec(&mut t, total as u64);
        t.append(
            " worker regions, the rest on ordinary pages - this run mixes the two, so its rate is not either arm's",
        );
    }
    t
}

// ---------------------------------------------------------------------------
// The report

pub open spec fn lines_view(v: Seq<String>) -> Seq<Seq<char>> {
    Seq::new(v.len(), |k: int| v[k]@)
}

proof fn lemma_push_line(v: Seq<String>, s: String)
    ensures
        lines_view(v.push(s)) == lines_view(v).push(s@),
{
    assert(lines_view(v.push(s)) =~= lines_view(v).push(s@));
}

fn say(out: &mut Vec<String>, s: String)
    ensures
        lines_view(final(out)@) == lines_view(old(out)@).push(s@),
{
    proof {
        lemma_push_line(out@, s);
    }
    out.push(s);
}

/// The lines of the result.
pub open spec fn result_lines(b: Bench, t: Topology, w: Seq<Worker>, m: Measured) -> Seq<
    Seq<char>,
> {
    let head = seq![
        "\n  RESULT"@,
        "    hash rate      "@ + topo::left(m.total@, 18) + " "@ + m.per_thread@ + " per thread"@
            + (if w.len() > 1 {
            " (slowest "@ + m.slowest@ + ", fastest "@ + m.fastest@ + ")"@
        } else {
            ""@
        }),
    ];
    head + cycle_lines(b, t, m) + seq![
        "    hashes         "@ + topo::left(grouped(text::dec(m.hashes as nat), 0), 18) + " in "@
            + m.window@ + " s"@,
    ]
}

/// The lines of the cycles that a hash took, or why they were not measured.
pub open spec fn cycle_lines(b: Bench, t: Topology, m: Measured) -> Seq<Seq<char>> {
    match m.observed {
        Observed::Cycles { per_hash: Some(c), how } => seq![
            "    cycles/hash    "@ + topo::left(grouped(text::dec(c as nat), 0), 18) + " "@ + how@,
        ],
        _ => seq![
            "    cycles/hash    not measured"@,
            "                   "@ + (match m.observed {
                Observed::Absent { why } => why@,
                _ => "no hashes were counted"@,
            }),
        ] + (match unpinned_note(b, t) {
            Some(n) => seq!["                   "@ + n],
            None => Seq::empty(),
        }) + (if m.invariant_tsc {
            seq![
                "                   (this part does have an invariant TSC, but that is a\n                    reference clock - it ticks at a fixed rate while the\n                    core's does not, so it cannot give cycles per hash)"@,
            ]
        } else {
            Seq::empty()
        }),
    }
}

fn say_cycles(out: &mut Vec<String>, b: &Bench, t: &Topology, m: &Measured)
    ensures
        lines_view(final(out)@) == lines_view(old(out)@) + cycle_lines(*b, *t, *m),
{
    let ghost before = lines_view(out@);
    match &m.observed {
        Observed::Cycles { per_hash: Some(c), how } => {
            let mut s = "    cycles/hash    ".to_owned();
            push_left(&mut s, &thousands(*c), 18);
            s.append(" ");
            s.append(how);
            say(out, s);
        },
        _ => {
            say(out, "    cycles/hash    not measured".to_owned());
            let mut s = "                   ".to_owned();
            match &m.observed {
                Observed::Absent { why } => s.append(why),
                _ => s.append("no hashes were counted"),
            }
            say(out, s);
            match unpinned_clock_note(b, t) {
                Some(n) => {
                    let mut u = "                   ".to_owned();
                    u.append(&n);
                    say(out, u);
                },
                None => {},
            }
            if m.invariant_tsc {
                say(
                    out,
                    "                   (this part does have an invariant TSC, but that is a\n                    reference clock - it ticks at a fixed rate while the\n                    core's does not, so it cannot give cycles per hash)".to_owned(),
                );
            }
        },
    }
    assert(lines_view(out@) =~= before + cycle_lines(*b, *t, *m));
}

fn say_result(out: &mut Vec<String>, b: &Bench, t: &Topology, w: &[Worker], m: &Measured)
    ensures
        lines_view(final(out)@) == lines_view(old(out)@) + result_lines(*b, *t, w@, *m),
{
    let ghost before = lines_view(out@);
    say(out, "\n  RESULT".to_owned());
    let mut s = "    hash rate      ".to_owned();
    push_left(&mut s, &m.total, 18);
    s.append(" ");
    s.append(&m.per_thread);
    s.append(" per thread");
    let mut u = String::new();
    if w.len() > 1 {
        u.append(" (slowest ");
        u.append(&m.slowest);
        u.append(", fastest ");
        u.append(&m.fastest);
        u.append(")");
        assert(u@ =~= " (slowest "@ + m.slowest@ + ", fastest "@ + m.fastest@ + ")"@);
    } else {
        u.append("");
        assert(u@ =~= ""@);
    }
    s.append(&u);
    say(out, s);
    let ghost two = lines_view(out@);
    assert(two =~= before + seq![two[before.len() as int], two[before.len() as int + 1]]);
    say_cycles(out, b, t, m);
    let mut h = "    hashes         ".to_owned();
    push_left(&mut h, &thousands(m.hashes), 18);
    h.append(" in ");
    h.append(&m.window);
    h.append(" s");
    say(out, h);
    assert(lines_view(out@) =~= before + result_lines(*b, *t, w@, *m));
}

/// How many workers were put where they were asked to be.
pub open spec fn pinned(w: Seq<Worker>) -> nat
    decreases w.len(),
{
    if w.len() == 0 {
        0
    } else {
        pinned(w.drop_last()) + (if w.last().placement matches Some(p) && p.0 {
            1nat
        } else {
            0nat
        })
    }
}

/// The lines of the workers that were not put where they were asked to be.
pub open spec fn strays(w: Seq<Worker>) -> Seq<Seq<char>>
    decreases w.len(),
{
    if w.len() == 0 {
        Seq::empty()
    } else {
        let rest = strays(w.drop_last());
        match (w.last().cpu, w.last().placement) {
            (Some(c), Some(p)) => if !p.0 {
                rest.push("                     CPU "@ + text::dec(c as nat) + ": "@ + p.1@)
            } else {
                rest
            },
            _ => rest,
        }
    }
}

/// The lines of where the workers were.
pub open spec fn place_lines(b: Bench, t: Topology, w: Seq<Worker>, m: Measured) -> Seq<
    Seq<char>,
> {
    match b.cpus {
        Some(l) => seq!["    CPUs           "@ + topo::list_text(l@, 0) + " (asked for)"@] + (
        if pinned(w) == w.len() {
            seq!["                   every worker pinned to its own CPU"@]
        } else {
            seq![
                "                   "@ + text::dec(pinned(w)) + " of "@ + text::dec(w.len())
                    + " workers actually pinned:"@,
            ] + strays(w)
        }),
        None => match m.allowed {
            Some(v) => if v@.len() < t.cpus@.len() {
                seq![
                    "    CPUs           not pinned; this process is allowed only "@
                        + topo::list_text(v@, 0) + " of the "@ + text::dec(t.cpus@.len())
                        + " the machine has"@,
                ]
            } else {
                seq![
                    "    CPUs           not pinned - the OS placed the workers, and it may have moved them"@,
                ]
            },
            None => seq![
                "    CPUs           not pinned - the OS placed the workers, and it may have moved them"@,
            ],
        },
    }
}

fn count_pinned(w: &[Worker]) -> (n: usize)
    ensures
        n == pinned(w@),
{
    let mut n: usize = 0;
    let mut i: usize = 0;
    assert(w@.take(0) =~= Seq::<Worker>::empty());
    while i < w.len()
        invariant
            i <= w.len(),
            n <= i,
            n == pinned(w@.take(i as int)),
        decreases w.len() - i,
    {
        assert(w@.take(i + 1).drop_last() =~= w@.take(i as int));
        match &w[i].placement {
            Some(p) => if p.0 {
                n += 1;
            },
            None => {},
        }
        i += 1;
    }
    assert(w@.take(i as int) =~= w@);
    n
}

fn say_strays(out: &mut Vec<String>, w: &[Worker])
    ensures
        lines_view(final(out)@) == lines_view(old(out)@) + strays(w@),
{
    let ghost before = lines_view(out@);
    let mut i: usize = 0;
    assert(w@.take(0) =~= Seq::<Worker>::empty());
    assert(before + strays(w@.take(0)) =~= before);
    while i < w.len()
        invariant
            i <= w.len(),
            lines_view(out@) == before + strays(w@.take(i as int)),
        decreases w.len() - i,
    {
        assert(w@.take(i + 1).drop_last() =~= w@.take(i as int));
        match (&w[i].cpu, &w[i].placement) {
            (Some(c), Some(p)) => if !p.0 {
                let mut s = "                     CPU ".to_owned();
                push_dec(&mut s, *c as u64);
                s.append(": ");
                s.append(&p.1);
                say(out, s);
                assert(lines_view(out@) =~= before + strays(w@.take(i + 1)));
            },
            _ => {},
        }
        i += 1;
    }
    assert(w@.take(i as int) =~= w@);
}

fn say_places(out: &mut Vec<String>, b: &Bench, t: &Topology, w: &[Worker], m: &Measured)
    ensures
        lines_view(final(out)@) == lines_view(old(out)@) + place_lines(*b, *t, w@, *m),
{
    let ghost before = lines_view(out@);
    match &b.cpus {
        Some(l) => {
            let mut s = "    CPUs           ".to_owned();
            s.append(&fmt_list(l));
            s.append(" (asked for)");
            say(out, s);
            let n: usize = count_pinned(w);
            if n == w.len() {
                say(out, "                   every worker pinned to its own CPU".to_owned());
            } else {
                let mut u = "                   ".to_owned();
                push_dec(&mut u, n as u64);
                u.append(" of ");
                push_dec(&mut u, w.len() as u64);
                u.append(" workers actually pinned:");
                say(out, u);
                say_strays(out, w);
            }
        },
        None => {
            let few: bool = match &m.allowed {
                Some(v) => v.len() < t.logical(),
                None => false,
            };
            if few {
                let mut s = "    CPUs           not pinned; this process is allowed only ".to_owned();
                match &m.allowed {
                    Some(v) => s.append(&fmt_list(v)),
                    None => {},
                }
                s.append(" of the ");
                push_dec(&mut s, t.logical() as u64);
                s.append(" the machine has");
                say(out, s);
            } else {
                say(
                    out,
                    "    CPUs           not pinned - the OS placed the workers, and it may have moved them".to_owned(),
                );
            }
        },
    }
    assert(lines_view(out@) =~= before + place_lines(*b, *t, w@, *m));
}

/// How many of `list` are of class `c`.
pub open spec fn of_class_in(cpus: Seq<Cpu>, list: Seq<usize>, c: u8) -> nat
    decreases list.len(),
{
    if list.len() == 0 {
        0
    } else {
        of_class_in(cpus, list.drop_last(), c) + (if topo::class_of(cpus, list.last()) == Some(c) {
            1nat
        } else {
            0nat
        })
    }
}

/// The classes from the highest down to the one at index `i`, each with how
/// many of the list are of it.
pub open spec fn class_counts(cpus: Seq<Cpu>, list: Seq<usize>, i: int) -> Seq<char>
    decreases topo::class_list(cpus).len() - i,
{
    let cl = topo::class_list(cpus);
    if i < 0 || i >= cl.len() {
        Seq::empty()
    } else {
        let one = text::dec(of_class_in(cpus, list, cl[i] as u8)) + " x "@ + topo::label(
            cpus,
            Some(cl[i] as u8),
        );
        if i + 1 == cl.len() {
            one
        } else {
            class_counts(cpus, list, i + 1) + ", "@ + one
        }
    }
}

/// Whether the list uses every class.
pub open spec fn uses_all(cpus: Seq<Cpu>, list: Seq<usize>) -> bool {
    forall|i: int|
        0 <= i < topo::class_list(cpus).len() ==> of_class_in(
            cpus,
            list,
            (#[trigger] topo::class_list(cpus)[i]) as u8,
        ) > 0
}

/// The lines of the cores that the list covers.
pub open spec fn cover_lines(t: Topology, list: Seq<usize>) -> Seq<Seq<char>> {
    let n = ranks::ranks(topo::keys_of(t.cpus@, list)).len();
    let cores = if t.cpus@.len() > 0 {
        topo::groups(t.cpus@).len()
    } else {
        0
    };
    (if topo::cores_known(t.cpus@) {
        seq![
            "    cores covered  "@ + text::dec(n) + " physical core"@ + (if n == 1 {
                ""@
            } else {
                "s"@
            }) + " out of "@ + text::dec(cores) + (if n < list.len() {
                " - "@ + text::dec((list.len() - n) as nat) + " of the "@ + text::dec(list.len())
                    + " CPUs are SMT siblings sharing a core"@
            } else {
                ""@
            }),
        ]
    } else {
        seq!["    cores covered  unknown: this OS did not report core identity"@]
    }) + (if topo::class_list(t.cpus@).len() > 1 {
        seq!["    core types     "@ + class_counts(t.cpus@, list, 0)] + (if uses_all(t.cpus@, list) {
            seq![
                "                   this run mixed performance and efficiency cores, which\n                   differ by about 28% per clock at this pad size, so the\n                   figure above is a machine total and not a per-core rate"@,
            ]
        } else {
            Seq::empty()
        })
    } else {
        Seq::empty()
    })
}

fn count_of_class(t: &Topology, list: &[usize], c: u8) -> (n: usize)
    ensures
        n == of_class_in(t.cpus@, list@, c),
{
    let mut n: usize = 0;
    let mut i: usize = 0;
    assert(list@.take(0) =~= Seq::<usize>::empty());
    while i < list.len()
        invariant
            i <= list.len(),
            n <= i,
            n == of_class_in(t.cpus@, list@.take(i as int), c),
        decreases list.len() - i,
    {
        assert(list@.take(i + 1).drop_last() =~= list@.take(i as int));
        match t.cpu(list[i]) {
            Some(x) => match x.class {
                Some(y) => if y == c {
                    n += 1;
                },
                None => {},
            },
            None => {},
        }
        i += 1;
    }
    assert(list@.take(i as int) =~= list@);
    n
}

fn say_classes(out: &mut Vec<String>, t: &Topology, list: &[usize])
    requires
        topo::class_list(t.cpus@).len() > 1,
    ensures
        lines_view(final(out)@) == lines_view(old(out)@) + (seq![
            "    core types     "@ + class_counts(t.cpus@, list@, 0),
        ] + (if uses_all(t.cpus@, list@) {
            seq![
                "                   this run mixed performance and efficiency cores, which\n                   differ by about 28% per clock at this pad size, so the\n                   figure above is a machine total and not a per-core rate"@,
            ]
        } else {
            Seq::empty()
        })),
{
    let ghost before = lines_view(out@);
    let v = t.classes();
    let ghost cl = topo::class_list(t.cpus@);
    proof {
        let w = Seq::new(v@.len(), |i: int| v@[i] as u64);
        assert(w == cl);
        assert(w.len() == v@.len());
    }
    let mut s = "    core types     ".to_owned();
    let mut all: bool = true;
    let mut i: usize = v.len();
    assert(s@ =~= "    core types     "@ + class_counts(t.cpus@, list@, i as int));
    while i > 0
        invariant
            i <= v.len(),
            cl == topo::class_list(t.cpus@),
            cl == Seq::new(v@.len(), |i: int| v@[i] as u64),
            cl.len() == v@.len(),
            s@ == "    core types     "@ + class_counts(t.cpus@, list@, i as int),
            all == (forall|k: int|
                i <= k < cl.len() ==> of_class_in(
                    t.cpus@,
                    list@,
                    (#[trigger] topo::class_list(t.cpus@)[k]) as u8,
                ) > 0),
        decreases i,
    {
        i -= 1;
        assert(cl[i as int] as u8 == v@[i as int]);
        let n: usize = count_of_class(t, list, v[i]);
        if n == 0 {
            assert(of_class_in(t.cpus@, list@, topo::class_list(t.cpus@)[i as int] as u8) == 0);
            all = false;
        }
        if i + 1 < v.len() {
            s.append(", ");
        }
        push_dec(&mut s, n as u64);
        s.append(" x ");
        s.append(&t.class_label(Some(v[i])));
        assert(s@ =~= "    core types     "@ + class_counts(t.cpus@, list@, i as int));
    }
    say(out, s);
    if all {
        say(
            out,
            "                   this run mixed performance and efficiency cores, which\n                   differ by about 28% per clock at this pad size, so the\n                   figure above is a machine total and not a per-core rate".to_owned(),
        );
    }
    assert(all == uses_all(t.cpus@, list@));
    assert(lines_view(out@) =~= before + (seq![
        "    core types     "@ + class_counts(t.cpus@, list@, 0),
    ] + (if uses_all(t.cpus@, list@) {
        seq![
            "                   this run mixed performance and efficiency cores, which\n                   differ by about 28% per clock at this pad size, so the\n                   figure above is a machine total and not a per-core rate"@,
        ]
    } else {
        Seq::empty()
    })));
}

fn say_cover(out: &mut Vec<String>, t: &Topology, list: &[usize])
    ensures
        lines_view(final(out)@) == lines_view(old(out)@) + cover_lines(*t, list@),
{
    let ghost before = lines_view(out@);
    match t.cores_covered(list) {
        Some(n) => {
            let cores: usize = match t.cores() {
                Some(c) => {
                    assert(topo::group_views(c@).len() == c@.len());
                    c.len()
                },
                None => 0,
            };
            let mut s = "    cores covered  ".to_owned();
            push_dec(&mut s, n as u64);
            s.append(" physical core");
            s.append(
                if n == 1 {
                    ""
                } else {
                    "s"
                },
            );
            s.append(" out of ");
            push_dec(&mut s, cores as u64);
            let mut u = String::new();
            if n < list.len() {
                u.append(" - ");
                push_dec(&mut u, (list.len() - n) as u64);
                u.append(" of the ");
                push_dec(&mut u, list.len() as u64);
                u.append(" CPUs are SMT siblings sharing a core");
                assert(u@ =~= " - "@ + text::dec((list@.len() - n) as nat) + " of the "@
                    + text::dec(list@.len()) + " CPUs are SMT siblings sharing a core"@);
            } else {
                u.append("");
                assert(u@ =~= ""@);
            }
            s.append(&u);
            say(out, s);
        },
        None => {
            say(out, "    cores covered  unknown: this OS did not report core identity".to_owned());
        },
    }
    let ghost mid = lines_view(out@);
    if t.hybrid() {
        say_classes(out, t, list);
    }
    assert(lines_view(out@) =~= before + cover_lines(*t, list@));
}

/// The pages of the workers.
pub open spec fn pages_of(w: Seq<Worker>) -> Seq<PadPages> {
    Seq::new(w.len(), |i: int| w[i].pages)
}

/// How many regions got each kind of pages.
pub open spec fn page_counts(ks: Seq<PadPages>) -> Seq<usize> {
    seq![
        pad::how_many(ks, PadPages::Base) as usize,
        pad::how_many(ks, PadPages::HugeTlb) as usize,
        pad::how_many(ks, PadPages::Transparent) as usize,
        pad::how_many(ks, PadPages::Large) as usize,
    ]
}

/// The lines of the pages, the scratchpads, the clock and the machine.
pub open spec fn machine_lines(t: Topology, w: Seq<Worker>, m: Measured) -> Seq<Seq<char>> {
    let p = page_counts(pages_of(w));
    seq!["    page size      "@ + page_text(m.pages_text@, p, m.base_page)] + (if pad::huge_of(p)
        < pad::sum4(p) {
        seq!["                   "@ + m.pages_why@]
    } else {
        Seq::empty()
    }) + seq![
        "    scratchpad     64 KiB per nonce x 32 in flight = 2 MiB per thread, "@ + text::dec(
            w.len() * 2,
        ) + " MiB total"@,
        "    clock          "@ + (match m.observed {
            Observed::Cycles { how, .. } => how@,
            Observed::Absent { why } => "not observed - "@ + why@,
        }),
    ] + (if t.model@.len() > 0 {
        seq!["    machine        "@ + t.model@]
    } else {
        Seq::empty()
    }) + seq![
        "                   "@ + text::dec(t.cpus@.len()) + " logical processors"@ + cores_part(t)
            + sockets_part(t),
        "    build          "@ + m.build@,
    ]
}

pub open spec fn cores_part(t: Topology) -> Seq<char> {
    if t.cpus@.len() > 0 && topo::cores_known(t.cpus@) {
        ", "@ + text::dec(topo::groups(t.cpus@).len()) + " physical cores"@
    } else {
        ""@
    }
}

pub open spec fn sockets_part(t: Topology) -> Seq<char> {
    let known = t.cpus@.len() > 0 && forall|i: int|
        0 <= i < t.cpus@.len() ==> (#[trigger] t.cpus@[i]).package >= 0;
    let n = ranks::ranks(Seq::new(t.cpus@.len(), |i: int| t.cpus@[i].package as u64)).len();
    if known && n > 1 {
        ", "@ + text::dec(n) + " sockets"@
    } else {
        ""@
    }
}

/// The line of one worker.
pub open spec fn thread_line(i: nat, w: Worker) -> Seq<char> {
    "    "@ + topo::left(text::dec(i), 7) + " "@ + topo::left(
        match w.cpu {
            Some(c) => text::dec(c as nat),
            None => "-"@,
        },
        8,
    ) + " "@ + topo::left(w.rate@, 14) + " "@ + topo::left(pad::tag_text(w.pages), 11) + " "@ + (
    match w.placement {
        Some(p) => p.1@,
        None => "not pinned (--threads places nothing; use --cpu-affinity)"@,
    })
}

/// The lines of the workers.
pub open spec fn thread_lines(w: Seq<Worker>) -> Seq<Seq<char>>
    decreases w.len(),
{
    if w.len() == 0 {
        seq![
            "\n  PER THREAD"@,
            "    worker  CPU      hash rate      pages       placement"@,
        ]
    } else {
        thread_lines(w.drop_last()).push(thread_line((w.len() - 1) as nat, w.last()))
    }
}

/// The whole report.
pub open spec fn report_lines(b: Bench, t: Topology, w: Seq<Worker>, m: Measured) -> Seq<
    Seq<char>,
> {
    result_lines(b, t, w, m) + seq!["\n  CONDITIONS"@, "    threads        "@ + text::dec(w.len())]
        + place_lines(b, t, w, m) + (match b.cpus {
        Some(l) => cover_lines(t, l@),
        None => Seq::empty(),
    }) + machine_lines(t, w, m) + (if b.verbose {
        thread_lines(w)
    } else {
        Seq::empty()
    }) + seq![""@]
}

/// The pages that the workers got.
pub fn pages(w: &[Worker]) -> (s: Summary)
    ensures
        s@ == page_counts(pages_of(w@)),
        pad::sum4(s@) == w@.len(),
{
    let mut v: Vec<PadPages> = Vec::new();
    let mut i: usize = 0;
    while i < w.len()
        invariant
            i <= w.len(),
            v@ == Seq::new(i as nat, |k: int| w@[k].pages),
        decreases w.len() - i,
    {
        v.push(w[i].pages);
        i += 1;
        assert(v@ =~= Seq::new(i as nat, |k: int| w@[k].pages));
    }
    assert(v@ =~= pages_of(w@));
    let s = Summary::of(&v);
    proof {
        let ks = pages_of(w@);
        assert(s@[pad::code_of(PadPages::Base)] == pad::how_many(ks, PadPages::Base));
        assert(s@[pad::code_of(PadPages::HugeTlb)] == pad::how_many(ks, PadPages::HugeTlb));
        assert(s@[pad::code_of(PadPages::Transparent)] == pad::how_many(ks, PadPages::Transparent));
        assert(s@[pad::code_of(PadPages::Large)] == pad::how_many(ks, PadPages::Large));
        assert(s@ =~= page_counts(ks));
    }
    s
}

fn processors_line(t: &Topology) -> (s: String)
    ensures
        s@ == "                   "@ + text::dec(t.cpus@.len()) + " logical processors"@
            + cores_part(*t) + sockets_part(*t),
{
    let mut s = "                   ".to_owned();
    push_dec(&mut s, t.logical() as u64);
    s.append(" logical processors");
    let mut a = String::new();
    match t.cores() {
        Some(c) => {
            assert(topo::group_views(c@).len() == c@.len());
            a.append(", ");
            push_dec(&mut a, c.len() as u64);
            a.append(" physical cores");
        },
        None => a.append(""),
    }
    assert(a@ =~= cores_part(*t));
    s.append(&a);
    let mut u = String::new();
    match t.packages() {
        Some(n) => if n > 1 {
            u.append(", ");
            push_dec(&mut u, n as u64);
            u.append(" sockets");
        } else {
            u.append("");
        },
        None => u.append(""),
    }
    assert(u@ =~= sockets_part(*t));
    s.append(&u);
    s
}

fn say_machine(out: &mut Vec<String>, t: &Topology, w: &[Worker], m: &Measured)
    requires
        w@.len() * 2 <= u64::MAX,
    ensures
        lines_view(final(out)@) == lines_view(old(out)@) + machine_lines(*t, w@, *m),
{
    let ghost before = lines_view(out@);
    let p = pages(w);
    let mut s = "    page size      ".to_owned();
    s.append(&page_line(&m.pages_text, p, m.base_page));
    say(out, s);
    if p.huge() < p.total() {
        let mut u = "                   ".to_owned();
        u.append(&m.pages_why);
        say(out, u);
    }
    let mut d = "    scratchpad     64 KiB per nonce x 32 in flight = 2 MiB per thread, ".to_owned();
    push_dec(&mut d, w.len() as u64 * 2);
    d.append(" MiB total");
    say(out, d);
    let mut c = "    clock          ".to_owned();
    match &m.observed {
        Observed::Cycles { how, .. } => c.append(how),
        Observed::Absent { why } => {
            let mut n = "not observed - ".to_owned();
            n.append(why);
            c.append(&n);
        },
    }
    say(out, c);
    if t.model.as_str().unicode_len() > 0 {
        let mut u = "    machine        ".to_owned();
        u.append(&t.model);
        say(out, u);
    }
    say(out, processors_line(t));
    let mut e = "    build          ".to_owned();
    e.append(&m.build);
    say(out, e);
    assert(lines_view(out@) =~= before + machine_lines(*t, w@, *m));
}

fn line_of_thread(i: usize, w: &Worker) -> (s: String)
    ensures
        s@ == thread_line(i as nat, *w),
{
    let mut s = "    ".to_owned();
    push_left(&mut s, &text::dec_of(i as u64), 7);
    s.append(" ");
    let c = match w.cpu {
        Some(c) => text::dec_of(c as u64),
        None => "-".to_owned(),
    };
    push_left(&mut s, &c, 8);
    s.append(" ");
    push_left(&mut s, &w.rate, 14);
    s.append(" ");
    push_left(&mut s, w.pages.tag(), 11);
    s.append(" ");
    match &w.placement {
        Some(p) => s.append(&p.1),
        None => s.append("not pinned (--threads places nothing; use --cpu-affinity)"),
    }
    s
}

fn say_threads(out: &mut Vec<String>, w: &[Worker])
    ensures
        lines_view(final(out)@) == lines_view(old(out)@) + thread_lines(w@),
{
    let ghost before = lines_view(out@);
    say(out, "\n  PER THREAD".to_owned());
    say(out, "    worker  CPU      hash rate      pages       placement".to_owned());
    let mut i: usize = 0;
    assert(w@.take(0) =~= Seq::<Worker>::empty());
    assert(lines_view(out@) =~= before + thread_lines(w@.take(0)));
    while i < w.len()
        invariant
            i <= w.len(),
            lines_view(out@) == before + thread_lines(w@.take(i as int)),
        decreases w.len() - i,
    {
        assert(w@.take(i + 1).drop_last() =~= w@.take(i as int));
        let ghost was = lines_view(out@);
        let l = line_of_thread(i, &w[i]);
        say(out, l);
        i += 1;
        assert(was.push(l@) =~= before + thread_lines(w@.take(i as int)));
    }
    assert(w@.take(i as int) =~= w@);
}

/// The report of a benchmark, line by line.
pub fn report(b: &Bench, t: &Topology, w: &[Worker], m: &Measured) -> (out: Vec<String>)
    requires
        w@.len() * 2 <= u64::MAX,
    ensures
        lines_view(out@) == report_lines(*b, *t, w@, *m),
{
    let mut out: Vec<String> = Vec::new();
    say_result(&mut out, b, t, w, m);
    let ghost a = result_lines(*b, *t, w@, *m);
    assert(lines_view(out@) =~= a);
    say(&mut out, "\n  CONDITIONS".to_owned());
    let mut s = "    threads        ".to_owned();
    push_dec(&mut s, w.len() as u64);
    say(&mut out, s);
    let ghost c = a + seq!["\n  CONDITIONS"@, "    threads        "@ + text::dec(w@.len())];
    assert(lines_view(out@) =~= c);
    say_places(&mut out, b, t, w, m);
    match &b.cpus {
        Some(l) => say_cover(&mut out, t, l),
        None => {},
    }
    let ghost d = c + place_lines(*b, *t, w@, *m) + (match &b.cpus {
        Some(l) => cover_lines(*t, l@),
        None => Seq::empty(),
    });
    assert(lines_view(out@) =~= d);
    say_machine(&mut out, t, w, m);
    if b.verbose {
        say_threads(&mut out, w);
    }
    let ghost e = d + machine_lines(*t, w@, *m) + (if b.verbose {
        thread_lines(w@)
    } else {
        Seq::empty()
    });
    assert(lines_view(out@) =~= e);
    say(&mut out, "".to_owned());
    assert(lines_view(out@) =~= e + seq![""@]);
    out
}

/// Refuses a benchmark that measures for no time.
pub fn check(b: &Bench) -> (r: Result<(), String>)
    ensures
        r is Ok <==> b.secs > 0,
        r matches Err(e) ==> e@ == "--bench-seconds needs at least 1"@,
{
    if b.secs == 0 {
        Err("--bench-seconds needs at least 1".to_owned())
    } else {
        Ok(())
    }
}

// ---------------------------------------------------------------------------
// What a report counts

/// A text without its blanks.
pub open spec fn without_blanks(s: Seq<char>) -> Seq<char>
    decreases s.len(),
{
    if s.len() == 0 {
        Seq::empty()
    } else if s[0] == ' ' {
        without_blanks(s.skip(1))
    } else {
        seq![s[0]] + without_blanks(s.skip(1))
    }
}

/// Grouping changes no digit: without its blanks the text is the digits.
pub proof fn law_grouping_keeps_the_digits(d: Seq<char>, i: int)
    requires
        0 <= i <= d.len(),
        forall|k: int| 0 <= k < d.len() ==> d[k] != ' ',
    ensures
        without_blanks(grouped(d, i)) == d.skip(i),
    decreases d.len() - i,
{
    if i < d.len() {
        law_grouping_keeps_the_digits(d, i + 1);
        let rest = grouped(d, i + 1);
        let t = grouped(d, i);
        assert(seq![d[i]] + d.skip(i + 1) =~= d.skip(i));
        if i > 0 && (d.len() - i) % 3 == 0 {
            assert(t[0] == ' ');
            let u = t.skip(1);
            assert(u =~= seq![d[i]] + rest);
            assert(u[0] == d[i]);
            assert(u.skip(1) =~= rest);
            assert(without_blanks(t) == without_blanks(u));
            assert(without_blanks(u) == seq![d[i]] + without_blanks(rest));
        } else {
            assert(t[0] == d[i]);
            assert(t.skip(1) =~= rest);
        }
    } else {
        assert(d.skip(i) =~= Seq::empty());
    }
}

/// A worker counts as pinned exactly where it was put on its processor, and is
/// named as a stray exactly where it was asked for and was not.
pub proof fn law_strays_are_those_that_were_not_put(w: Seq<Worker>, x: Worker)
    ensures
        pinned(Seq::empty()) == 0,
        strays(Seq::empty()).len() == 0,
        x.placement matches Some(p) ==> (p.0 ==> pinned(w.push(x)) == pinned(w) + 1 && strays(
            w.push(x),
        ) == strays(w)),
        x.placement is None ==> pinned(w.push(x)) == pinned(w) && strays(w.push(x)) == strays(w),
        x.placement matches Some(p) ==> (!p.0 && x.cpu is Some ==> pinned(w.push(x)) == pinned(w)
            && strays(w.push(x)).len() == strays(w).len() + 1),
{
    assert(w.push(x).drop_last() =~= w);
}

/// The processors of a class are counted one by one.
pub proof fn law_a_class_is_counted_one_by_one(cpus: Seq<Cpu>, list: Seq<usize>, id: usize, c: u8)
    ensures
        of_class_in(cpus, Seq::empty(), c) == 0,
        topo::class_of(cpus, id) == Some(c) ==> of_class_in(cpus, list.push(id), c) == of_class_in(
            cpus,
            list,
            c,
        ) + 1,
        topo::class_of(cpus, id) != Some(c) ==> of_class_in(cpus, list.push(id), c) == of_class_in(
            cpus,
            list,
            c,
        ),
{
    assert(list.push(id).drop_last() =~= list);
}

/// The cycles of a run are those of the processors that were named, or of all
/// where there is a worker for each; else there is nothing to count and it is
/// said why.
pub proof fn law_cycles_are_counted_where_they_belong(
    b: &Bench,
    t: &Topology,
    r: Vec<usize>,
    n: Option<String>,
)
    requires
        call_ensures(probe_cpus, (b, t), r),
        call_ensures(unpinned_clock_note, (b, t), n),
    ensures
        b.cpus matches Some(l) ==> r@ == l@ && n is None,
        b.cpus is None && (if b.threads == 0 {
            1
        } else {
            b.threads
        }) >= t.cpus@.len() ==> r@.len() == t.cpus@.len() && n is None,
        b.cpus is None && (if b.threads == 0 {
            1
        } else {
            b.threads
        }) < t.cpus@.len() ==> r@.len() == 0 && n is Some,
{
}

} // verus!
