//! Lists of processors to pin workers to.

use vstd::prelude::*;
use crate::miner::topo;
use crate::miner::topo::{fmt_list, push_strides, Cpu, Topology};
use crate::text;
use crate::text::{
    debug_text, find, number_of, part, push_dec, same, split, string_of, to_chars, trim,
};

verus! {

/// How many processors a list may name.
pub const MAX_CPUS: usize = 4096;

/// A list of processors, or what is wrong with the text.
pub type List = Result<Seq<usize>, Seq<char>>;

/// The number of a processor.
pub open spec fn cpu_number(t: Seq<char>) -> Option<nat> {
    text::number_in(t, 10, usize::MAX as nat)
}

pub open spec fn not_a_cpu(t: Seq<char>) -> Seq<char> {
    text::debug_of(t) + " is not a CPU number"@
}

/// The first and the last processor that an entry names.
pub open spec fn bounds(p: Seq<char>) -> Result<(usize, usize), Seq<char>> {
    if text::has(p, '-') {
        let a = text::trimmed(text::before(p, '-'));
        let b = text::trimmed(text::behind(p, '-'));
        match cpu_number(a) {
            None => Err(not_a_cpu(a)),
            Some(x) => match cpu_number(b) {
                None => Err(not_a_cpu(b)),
                Some(y) => if x > y {
                    Err(
                        text::debug_of(p) + " counts down; write it as "@ + text::dec(y) + "-"@
                            + text::dec(x),
                    )
                } else if y - x + 1 > MAX_CPUS {
                    Err(text::debug_of(p) + " names more than 4096 CPUs"@)
                } else {
                    Ok((x as usize, y as usize))
                },
            },
        }
    } else {
        match cpu_number(p) {
            None => Err(not_a_cpu(p)),
            Some(x) => Ok((x as usize, x as usize)),
        }
    }
}

/// `out` with the processors from `a` to `b` behind it. `s` is the whole list.
pub open spec fn take_range(out: Seq<usize>, a: int, b: int, s: Seq<char>) -> List
    decreases b - a + 1,
{
    if a > b {
        Ok(out)
    } else if out.contains(a as usize) {
        Err(
            "CPU "@ + text::dec(a as nat) + " appears twice in "@ + text::debug_of(s)
                + "; one worker is pinned per entry, so a repeat would double-book it"@,
        )
    } else if out.len() >= MAX_CPUS {
        Err("--cpu-affinity names more than 4096 CPUs"@)
    } else {
        take_range(out.push(a as usize), a + 1, b, s)
    }
}

/// `out` with what one entry names behind it.
pub open spec fn take_entry(out: Seq<usize>, piece: Seq<char>, s: Seq<char>) -> List {
    let p = text::trimmed(piece);
    if p.len() == 0 {
        Err(text::debug_of(s) + " has an empty entry: two commas, or a trailing one"@)
    } else {
        match bounds(p) {
            Err(e) => Err(e),
            Ok((a, b)) => take_range(out, a as int, b as int, s),
        }
    }
}

/// `out` with what the entries from `i` on name behind it.
pub open spec fn take_entries(out: Seq<usize>, ps: Seq<Seq<char>>, i: int, s: Seq<char>) -> List
    decreases ps.len() - i,
{
    if i < 0 || i >= ps.len() {
        Ok(out)
    } else {
        match take_entry(out, ps[i], s) {
            Err(e) => Err(e),
            Ok(o) => take_entries(o, ps, i + 1, s),
        }
    }
}

/// The processors that a pin list names, in the order in which it names them.
pub open spec fn cpu_list(arg: Seq<char>) -> List {
    let s = text::trimmed(arg);
    if s.len() == 0 {
        Err("--cpu-affinity needs at least one CPU, like 0,2,4,6"@)
    } else {
        take_entries(Seq::empty(), text::pieces(s, ','), 0, s)
    }
}

fn read_cpu(v: &[char]) -> (r: Result<usize, String>)
    ensures
        r matches Ok(n) ==> cpu_number(v@) == Some(n as nat),
        r matches Err(e) ==> cpu_number(v@) is None && e@ == not_a_cpu(v@),
{
    match number_of(v, 10, usize::MAX as u64) {
        Some(n) => Ok(n as usize),
        None => {
            let mut e = debug_text(&string_of(v));
            e.append(" is not a CPU number");
            Err(e)
        },
    }
}

fn read_bounds(p: &[char]) -> (r: Result<(usize, usize), String>)
    ensures
        r matches Ok(x) ==> bounds(p@) == Ok::<(usize, usize), Seq<char>>(x) && x.0 <= x.1 && x.1
            - x.0 < MAX_CPUS,
        r matches Err(e) ==> bounds(p@) == Err::<(usize, usize), Seq<char>>(e@),
{
    let d: usize = find(p, '-', 0);
    if d >= p.len() {
        return match read_cpu(p) {
            Ok(n) => Ok((n, n)),
            Err(e) => Err(e),
        };
    }
    let left = part(p, 0, d);
    assert(left@ =~= text::before(p@, '-'));
    let right = part(p, d + 1, p.len());
    assert(right@ =~= text::behind(p@, '-'));
    let a: usize = match read_cpu(&trim(&left)) {
        Ok(n) => n,
        Err(e) => {
            return Err(e);
        },
    };
    let b: usize = match read_cpu(&trim(&right)) {
        Ok(n) => n,
        Err(e) => {
            return Err(e);
        },
    };
    if a > b {
        let mut e = debug_text(&string_of(p));
        e.append(" counts down; write it as ");
        push_dec(&mut e, b as u64);
        e.append("-");
        push_dec(&mut e, a as u64);
        return Err(e);
    }
    if b - a >= MAX_CPUS {
        let mut e = debug_text(&string_of(p));
        e.append(" names more than 4096 CPUs");
        return Err(e);
    }
    Ok((a, b))
}

fn has_cpu(v: &Vec<usize>, c: usize) -> (r: bool)
    ensures
        r == v@.contains(c),
{
    let mut i: usize = 0;
    while i < v.len()
        invariant
            i <= v.len(),
            forall|k: int| 0 <= k < i ==> v@[k] != c,
        decreases v.len() - i,
    {
        if v[i] == c {
            return true;
        }
        i += 1;
    }
    false
}

/// The processors that a pin list names. Order is meaning: the first worker
/// goes to the first of them. A repeat is refused.
pub fn parse_cpu_list(arg: &str) -> (r: Result<Vec<usize>, String>)
    ensures
        r matches Ok(v) ==> cpu_list(arg@) == Ok::<Seq<usize>, Seq<char>>(v@),
        r matches Err(e) ==> cpu_list(arg@) == Err::<Seq<usize>, Seq<char>>(e@),
{
    let s = trim(&to_chars(arg));
    if s.len() == 0 {
        return Err("--cpu-affinity needs at least one CPU, like 0,2,4,6".to_owned());
    }
    let ps = split(&s, ',');
    let ghost qs = text::pieces(s@, ',');
    let mut out: Vec<usize> = Vec::new();
    let mut i: usize = 0;
    assert(out@ =~= Seq::<usize>::empty());
    while i < ps.len()
        invariant
            i <= ps.len(),
            text::views(ps@) == qs,
            s@ == text::trimmed(arg@),
            cpu_list(arg@) == take_entries(out@, qs, i as int, s@),
        decreases ps.len() - i,
    {
        assert(qs[i as int] == ps@[i as int]@);
        let p = trim(&ps[i]);
        if p.len() == 0 {
            let mut e = debug_text(&string_of(&s));
            e.append(" has an empty entry: two commas, or a trailing one");
            return Err(e);
        }
        let (a, b) = match read_bounds(&p) {
            Ok(x) => x,
            Err(e) => {
                return Err(e);
            },
        };
        let n: usize = b - a + 1;
        let mut k: usize = 0;
        let ghost start = out@;
        while k < n
            invariant
                k <= n,
                n == b - a + 1,
                a <= b,
                n <= MAX_CPUS,
                take_range(start, a as int, b as int, s@) == take_range(
                    out@,
                    a + k,
                    b as int,
                    s@,
                ),
                cpu_list(arg@) == take_entries(start, qs, i as int, s@),
                text::views(ps@) == qs,
                i < ps.len(),
                qs[i as int] == ps@[i as int]@,
                p@ == text::trimmed(ps@[i as int]@),
                p@.len() > 0,
                bounds(p@) == Ok::<(usize, usize), Seq<char>>((a, b)),
            decreases n - k,
        {
            let c: usize = a + k;
            if has_cpu(&out, c) {
                let mut e = "CPU ".to_owned();
                push_dec(&mut e, c as u64);
                e.append(" appears twice in ");
                e.append(&debug_text(&string_of(&s)));
                e.append("; one worker is pinned per entry, so a repeat would double-book it");
                return Err(e);
            }
            if out.len() >= MAX_CPUS {
                return Err("--cpu-affinity names more than 4096 CPUs".to_owned());
            }
            out.push(c);
            k += 1;
        }
        i += 1;
    }
    Ok(out)
}

proof fn lemma_range_distinct(out: Seq<usize>, a: int, b: int, s: Seq<char>)
    requires
        out.no_duplicates(),
        out.len() <= MAX_CPUS,
        0 <= a,
        b <= usize::MAX,
    ensures
        take_range(out, a, b, s) matches Ok(v) ==> v.no_duplicates() && v.len() <= MAX_CPUS
            && v.len() >= out.len() && (a <= b ==> v.len() > out.len()),
    decreases b - a + 1,
{
    if a <= b && !out.contains(a as usize) && out.len() < MAX_CPUS {
        lemma_range_distinct(out.push(a as usize), a + 1, b, s);
    }
}

proof fn lemma_entries_distinct(out: Seq<usize>, ps: Seq<Seq<char>>, i: int, s: Seq<char>)
    requires
        out.no_duplicates(),
        out.len() <= MAX_CPUS,
        0 <= i <= ps.len(),
    ensures
        take_entries(out, ps, i, s) matches Ok(v) ==> v.no_duplicates() && v.len() <= MAX_CPUS
            && v.len() >= out.len() && (i < ps.len() ==> v.len() > out.len()),
    decreases ps.len() - i,
{
    if i < ps.len() {
        match bounds(text::trimmed(ps[i])) {
            Ok((a, b)) => {
                lemma_range_distinct(out, a as int, b as int, s);
                match take_entry(out, ps[i], s) {
                    Ok(o) => lemma_entries_distinct(o, ps, i + 1, s),
                    Err(_) => {},
                }
            },
            Err(_) => {},
        }
    }
}

/// A list that is accepted names at least one processor, none twice, and no
/// more than `MAX_CPUS`.
pub proof fn law_accepted_lists_are_distinct(arg: Seq<char>)
    ensures
        cpu_list(arg) matches Ok(v) ==> v.no_duplicates() && 0 < v.len() <= MAX_CPUS,
{
    let s = text::trimmed(arg);
    if s.len() > 0 {
        text::lemma_index(s, ',', 0);
        lemma_entries_distinct(Seq::empty(), text::pieces(s, ','), 0, s);
    }
}

proof fn lemma_range_reads_back(a: usize, b: usize)
    requires
        a <= b,
        b - a < MAX_CPUS,
    ensures
        ({
            let t = topo::range_text(a, b);
            &&& t.len() > 0
            &&& text::trimmed(t) == t
            &&& bounds(t) == Ok::<(usize, usize), Seq<char>>((a, b))
            &&& forall|k: int| 0 <= k < t.len() ==> t[k] != ','
            &&& 48 <= t[0] as u32 <= 57
            &&& 48 <= t.last() as u32 <= 57
        }),
{
    let t = topo::range_text(a, b);
    let x = text::dec(a as nat);
    let y = text::dec(b as nat);
    text::lemma_dec(a as nat);
    text::lemma_dec(b as nat);
    text::lemma_dec_reads_back(a as nat, usize::MAX as nat);
    text::lemma_dec_reads_back(b as nat, usize::MAX as nat);
    text::lemma_trimmed(x);
    text::lemma_trimmed(y);
    if a == b {
        text::lemma_index_behind(x, Seq::empty(), '-', 0);
        assert(x + Seq::<char>::empty() =~= x);
    } else {
        reveal_strlit("-");
        assert("-"@ =~= seq!['-']);
        assert(t =~= x + (seq!['-'] + y));
        text::lemma_index_behind(x, seq!['-'] + y, '-', 0);
        assert((seq!['-'] + y)[0] == '-');
        assert(text::before(t, '-') =~= x);
        assert(text::behind(t, '-') =~= y);
        assert(t[0] == x[0]);
        assert(t.last() == y.last());
    }
    text::lemma_trimmed(t);
}

proof fn lemma_takes_run(out: Seq<usize>, v: Seq<usize>, i: int, e: int, s: Seq<char>)
    requires
        0 <= i <= e + 1 <= v.len(),
        forall|k: int| i <= k <= e ==> v[k] == v[i] + (k - i),
        (out + v.subrange(i, e + 1)).no_duplicates(),
        out.len() + (e + 1 - i) <= MAX_CPUS,
    ensures
        i <= e ==> take_range(out, v[i] as int, v[e] as int, s) == Ok::<Seq<usize>, Seq<char>>(
            out + v.subrange(i, e + 1),
        ),
    decreases e + 1 - i,
{
    if i <= e {
        let all = out + v.subrange(i, e + 1);
        let n = out.push(v[i]);
        assert(all =~= n + v.subrange(i + 1, e + 1));
        assert(!out.contains(v[i])) by {
            if out.contains(v[i]) {
                let k = choose|k: int| 0 <= k < out.len() && out[k] == v[i];
                assert(all[k] == all[out.len() as int]);
            }
        }
        if i < e {
            assert(v[i + 1] == v[i] + 1);
            lemma_takes_run(n, v, i + 1, e, s);
            assert(take_range(out, v[i] as int, v[e] as int, s) == take_range(
                n,
                v[i + 1] as int,
                v[e] as int,
                s,
            ));
        } else {
            assert(take_range(n, v[i] + 1, v[e] as int, s) == Ok::<Seq<usize>, Seq<char>>(n));
            assert(n =~= all);
        }
    }
}

proof fn lemma_list_reads_back(out: Seq<usize>, v: Seq<usize>, i: int, s: Seq<char>)
    requires
        0 <= i < v.len(),
        (out + v.skip(i)).no_duplicates(),
        out.len() + v.len() - i <= MAX_CPUS,
    ensures
        take_entries(out, text::pieces(topo::list_text(v, i), ','), 0, s) == Ok::<
            Seq<usize>,
            Seq<char>,
        >(out + v.skip(i)),
        topo::list_text(v, i).len() > 0,
        48 <= topo::list_text(v, i)[0] as u32 <= 57,
        48 <= topo::list_text(v, i).last() as u32 <= 57,
    decreases v.len() - i,
{
    let e = topo::run_end(v, i);
    topo::lemma_run_end(v, i);
    let t = topo::range_text(v[i], v[e]);
    lemma_range_reads_back(v[i], v[e]);
    let all = out + v.skip(i);
    let mid = out + v.subrange(i, e + 1);
    assert(mid.no_duplicates()) by {
        assert forall|a: int, b: int| 0 <= a < mid.len() && 0 <= b < mid.len() && a != b implies
            mid[a] != mid[b] by {
            assert(mid[a] == all[a] && mid[b] == all[b]);
        }
    }
    lemma_takes_run(out, v, i, e, s);
    if e + 1 < v.len() {
        let rest = topo::list_text(v, e + 1);
        reveal_strlit(",");
        assert(","@ =~= seq![',']);
        text::lemma_pieces_head(t, rest, ',');
        let ps = text::pieces(rest, ',');
        let qs = text::pieces(topo::list_text(v, i), ',');
        assert(qs =~= seq![t] + ps);
        assert(mid + v.skip(e + 1) =~= all);
        lemma_list_reads_back(mid, v, e + 1, s);
        lemma_entries_shift(mid, qs, ps, 0, s);
        assert(topo::list_text(v, i)[0] == t[0]);
        assert(topo::list_text(v, i).last() == rest.last());
    } else {
        text::lemma_pieces_head(t, Seq::empty(), ',');
        assert(mid =~= all);
        let ps = text::pieces(topo::list_text(v, i), ',');
        assert(ps[0] == t);
        assert(take_entries(out, ps, 0, s) == take_entries(mid, ps, 1, s));
    }
}

proof fn lemma_entries_shift(
    out: Seq<usize>,
    qs: Seq<Seq<char>>,
    ps: Seq<Seq<char>>,
    i: int,
    s: Seq<char>,
)
    requires
        0 <= i <= ps.len(),
        qs.len() == ps.len() + 1,
        forall|k: int| 0 <= k < ps.len() ==> qs[k + 1] == #[trigger] ps[k],
    ensures
        take_entries(out, qs, i + 1, s) == take_entries(out, ps, i, s),
    decreases ps.len() - i,
{
    if i < ps.len() {
        assert(qs[i + 1] == ps[i]);
        match take_entry(out, ps[i], s) {
            Ok(o) => lemma_entries_shift(o, qs, ps, i + 1, s),
            Err(_) => {},
        }
    }
}

/// A printed pin list reads back as the list that was printed.
pub proof fn law_printed_list_reads_back(v: Seq<usize>)
    requires
        0 < v.len() <= MAX_CPUS,
        v.no_duplicates(),
    ensures
        cpu_list(topo::list_text(v, 0)) == Ok::<Seq<usize>, Seq<char>>(v),
{
    let t = topo::list_text(v, 0);
    assert(Seq::<usize>::empty() + v.skip(0) =~= v);
    lemma_list_reads_back(Seq::empty(), v, 0, t);
    text::lemma_trimmed(t);
}

// ---------------------------------------------------------------------------
// A list against a machine

/// Whether a topology was read, not made up.
pub open spec fn was_read(t: Topology) -> bool {
    t.source@ != "none"@ && t.source@ != "available_parallelism"@
}

/// Whether a processor exists.
pub open spec fn exists_on(cpus: Seq<Cpu>, id: usize) -> bool {
    topo::slot(cpus, id, 0) < cpus.len()
}

/// The first of `list` from `i` on that does not exist, as an index.
pub open spec fn first_missing(cpus: Seq<Cpu>, list: Seq<usize>, i: int) -> int
    decreases list.len() - i,
{
    if 0 <= i < list.len() && exists_on(cpus, list[i]) {
        first_missing(cpus, list, i + 1)
    } else {
        i
    }
}

/// Whether some of `list` is of this class.
pub open spec fn uses_class(cpus: Seq<Cpu>, list: Seq<usize>, c: u64) -> bool {
    exists|k: int|
        0 <= k < list.len() && topo::class_of(cpus, #[trigger] list[k]) == Some(c as u8)
}

/// How many of the first `n` classes the list uses.
pub open spec fn classes_used(cpus: Seq<Cpu>, list: Seq<usize>, n: int) -> nat
    decreases n,
{
    if n <= 0 {
        0
    } else {
        classes_used(cpus, list, n - 1) + (if uses_class(cpus, list, topo::class_list(cpus)[n - 1]) {
            1nat
        } else {
            0nat
        })
    }
}

pub open spec fn sibling_note(cpus: Seq<Cpu>, list: Seq<usize>) -> Seq<char> {
    let n = topo::covered(cpus, list);
    text::dec((list.len() - n) as nat) + " of these "@ + text::dec(list.len())
        + " CPUs are SMT siblings, so they share "@ + text::dec(n)
        + " physical cores - and on this machine siblings are numbered "@ + topo::strides_text(
        topo::strides(cpus),
    )
}

/// What is noted of a list whose processors all exist.
pub open spec fn list_notes(cpus: Seq<Cpu>, list: Seq<usize>) -> Seq<Seq<char>> {
    (if topo::cores_known(cpus) && topo::covered(cpus, list) < list.len() {
        seq![sibling_note(cpus, list)]
    } else {
        Seq::empty()
    }) + (if classes_used(cpus, list, topo::class_list(cpus).len() as int) > 1 {
        seq![
            "this list mixes performance and efficiency cores, which differ by about 28% per clock at this pad size"@,
        ]
    } else {
        Seq::empty()
    })
}

pub open spec fn string_views(v: Seq<String>) -> Seq<Seq<char>> {
    Seq::new(v.len(), |k: int| v[k]@)
}

/// What the check of a list says: notes, or the processor that is missing.
pub open spec fn checked(list: Seq<usize>, t: Topology) -> Result<Seq<Seq<char>>, Seq<char>> {
    let i = first_missing(t.cpus@, list, 0);
    if !was_read(t) {
        Ok(
            seq![
                "the pin list was not checked against this machine: "@ + (if t.notes@.len() > 0 {
                    t.notes@[0]@
                } else {
                    "no topology source"@
                }),
            ],
        )
    } else if i < list.len() {
        Err(
            "CPU "@ + text::dec(list[i] as nat) + " does not exist on this machine; it has "@
                + topo::list_text(topo::ids(t.cpus@), 0)
                + ". `plaine-miner --print-topology` prints the map"@,
        )
    } else {
        Ok(list_notes(t.cpus@, list))
    }
}

fn any_of_class(t: &Topology, list: &[usize], c: u8) -> (r: bool)
    ensures
        r == uses_class(t.cpus@, list@, c as u64),
{
    let mut i: usize = 0;
    while i < list.len()
        invariant
            i <= list.len(),
            forall|k: int|
                0 <= k < i ==> topo::class_of(t.cpus@, #[trigger] list@[k]) != Some(c),
        decreases list.len() - i,
    {
        match t.cpu(list[i]) {
            Some(x) => match x.class {
                Some(y) => if y == c {
                    assert(topo::class_of(t.cpus@, list@[i as int]) == Some(c));
                    return true;
                },
                None => {},
            },
            None => {},
        }
        i += 1;
    }
    false
}

fn count_classes(t: &Topology, list: &[usize]) -> (n: usize)
    ensures
        n == classes_used(t.cpus@, list@, topo::class_list(t.cpus@).len() as int),
{
    let v = t.classes();
    let ghost cl = topo::class_list(t.cpus@);
    proof {
        let w = Seq::new(v@.len(), |i: int| v@[i] as u64);
        assert(w == cl);
        assert(w.len() == v@.len());
    }
    let mut n: usize = 0;
    let mut i: usize = 0;
    while i < v.len()
        invariant
            i <= v.len(),
            n <= i,
            cl == topo::class_list(t.cpus@),
            cl == Seq::new(v@.len(), |i: int| v@[i] as u64),
            cl.len() == v@.len(),
            n == classes_used(t.cpus@, list@, i as int),
        decreases v.len() - i,
    {
        assert(cl[i as int] == v@[i as int] as u64);
        if any_of_class(t, list, v[i]) {
            n += 1;
        }
        i += 1;
    }
    n
}

/// Holds a pin list against a machine. A processor that does not exist is
/// refused; siblings and mixed classes are noted.
pub fn check_cpu_list(list: &[usize], t: &Topology) -> (r: Result<Vec<String>, String>)
    ensures
        r matches Ok(v) ==> checked(list@, *t) == Ok::<Seq<Seq<char>>, Seq<char>>(
            string_views(v@),
        ),
        r matches Err(e) ==> checked(list@, *t) == Err::<Seq<Seq<char>>, Seq<char>>(e@),
{
    let mut notes: Vec<String> = Vec::new();
    if same(t.source, "none") || same(t.source, "available_parallelism") {
        let mut n = "the pin list was not checked against this machine: ".to_owned();
        if t.notes.len() > 0 {
            n.append(&t.notes[0]);
        } else {
            n.append("no topology source");
        }
        notes.push(n);
        assert(string_views(notes@) =~= seq![n@]);
        return Ok(notes);
    }
    let mut i: usize = 0;
    while i < list.len()
        invariant
            i <= list.len(),
            was_read(*t),
            first_missing(t.cpus@, list@, 0) == first_missing(t.cpus@, list@, i as int),
        decreases list.len() - i,
    {
        if t.cpu(list[i]).is_none() {
            let mut e = "CPU ".to_owned();
            push_dec(&mut e, list[i] as u64);
            e.append(" does not exist on this machine; it has ");
            e.append(&fmt_list(&t.all_ids()));
            e.append(". `plaine-miner --print-topology` prints the map");
            return Err(e);
        }
        i += 1;
    }
    let ghost a = if topo::cores_known(t.cpus@) && topo::covered(t.cpus@, list@) < list@.len() {
        seq![sibling_note(t.cpus@, list@)]
    } else {
        Seq::empty()
    };
    match t.cores_covered(list) {
        Some(cores) => {
            if cores < list.len() {
                let mut n = text::dec_of((list.len() - cores) as u64);
                n.append(" of these ");
                push_dec(&mut n, list.len() as u64);
                n.append(" CPUs are SMT siblings, so they share ");
                push_dec(&mut n, cores as u64);
                n.append(" physical cores - and on this machine siblings are numbered ");
                push_strides(&mut n, &t.sibling_strides());
                assert(n@ == sibling_note(t.cpus@, list@));
                notes.push(n);
            }
        },
        None => {},
    }
    assert(string_views(notes@) =~= a);
    if count_classes(t, list) > 1 {
        let m = "this list mixes performance and efficiency cores, which differ by about 28% per clock at this pad size".to_owned();
        notes.push(m);
        assert(string_views(notes@) =~= a.push(m@));
    }
    assert(string_views(notes@) =~= list_notes(t.cpus@, list@));
    Ok(notes)
}

// ---------------------------------------------------------------------------
// Where workers go by themselves

/// The first `n` processors in the order in which workers are put on them.
pub open spec fn first_of_spread(cpus: Seq<Cpu>, n: nat) -> Seq<usize> {
    let s = topo::spread_of(cpus);
    if s.len() <= n {
        s
    } else {
        s.take(n as int)
    }
}

/// The processors that workers are pinned to: the list that was given; else, as
/// many as there are workers, one per core first, unless pinning is switched
/// off or no processor is known.
pub fn pin_list(list: Option<Vec<usize>>, no_pin: bool, machine: &Topology, workers: usize) -> (r:
    Option<Vec<usize>>)
    ensures
        list is Some ==> r == list,
        list is None ==> (r is Some <==> !no_pin && first_of_spread(
            machine.cpus@,
            workers as nat,
        ).len() > 0),
        list is None ==> (r matches Some(v) ==> v@ == first_of_spread(
            machine.cpus@,
            workers as nat,
        )),
{
    match list {
        Some(l) => Some(l),
        None => {
            if no_pin {
                return None;
            }
            let mut s = machine.spread();
            if s.len() > workers {
                s.truncate(workers);
                assert(s@ =~= first_of_spread(machine.cpus@, workers as nat));
            }
            if s.len() == 0 {
                None
            } else {
                Some(s)
            }
        },
    }
}

// ---------------------------------------------------------------------------
// What a list and a check of it say

/// A range adds every processor from its first to its last, in order.
pub proof fn law_a_range_adds_each_processor(out: Seq<usize>, a: int, b: int, s: Seq<char>, k: int)
    requires
        0 <= a <= b <= usize::MAX,
        take_range(out, a, b, s) is Ok,
    ensures
        take_range(out, a, b, s)->Ok_0.len() == out.len() + (b - a + 1),
        0 <= k < out.len() ==> take_range(out, a, b, s)->Ok_0[k] == out[k],
        0 <= k <= b - a ==> take_range(out, a, b, s)->Ok_0[out.len() + k] == a + k,
    decreases b - a,
{
    let more = out.push(a as usize);
    if a < b {
        if k < 1 {
            law_a_range_adds_each_processor(more, a + 1, b, s, out.len() as int);
            law_a_range_adds_each_processor(more, a + 1, b, s, k);
        } else {
            law_a_range_adds_each_processor(more, a + 1, b, s, k);
            law_a_range_adds_each_processor(more, a + 1, b, s, k - 1);
        }
    } else {
        assert(take_range(more, a + 1, b, s) == Ok::<Seq<usize>, Seq<char>>(more));
    }
}

/// An entry is one number, or two with a dash between them, the first not above
/// the second.
pub proof fn law_an_entry_is_a_number_or_a_range(a: Seq<char>, b: Seq<char>)
    requires
        forall|k: int| 0 <= k < a.len() ==> a[k] != '-',
    ensures
        bounds(a) is Ok <==> text::number_in(a, 10, usize::MAX as nat) is Some,
        text::number_in(a, 10, usize::MAX as nat) matches Some(x) ==> bounds(a) == Ok::<
            (usize, usize),
            Seq<char>,
        >((x as usize, x as usize)),
        bounds(a + seq!['-'] + b) is Ok <==> (match (
            text::number_in(text::trimmed(a), 10, usize::MAX as nat),
            text::number_in(text::trimmed(b), 10, usize::MAX as nat),
        ) {
            (Some(x), Some(y)) => x <= y && y - x < 4096,
            _ => false,
        }),
        bounds(a + seq!['-'] + b) matches Ok((x, y)) ==> text::number_in(
            text::trimmed(a),
            10,
            usize::MAX as nat,
        ) == Some(x as nat) && text::number_in(text::trimmed(b), 10, usize::MAX as nat) == Some(
            y as nat,
        ),
{
    let s = a + seq!['-'] + b;
    text::lemma_index(a, '-', 0);
    text::lemma_index_behind(a, seq!['-'] + b, '-', 0);
    assert(s =~= a + (seq!['-'] + b));
    assert((seq!['-'] + b)[0] == '-');
    assert(s.take(a.len() as int) =~= a);
    assert(s.skip(a.len() as int + 1) =~= b);
}

proof fn lemma_first_missing(cpus: Seq<Cpu>, list: Seq<usize>, i: int)
    requires
        0 <= i <= list.len(),
    ensures
        i <= first_missing(cpus, list, i) <= list.len(),
        forall|k: int|
            i <= k < first_missing(cpus, list, i) ==> exists_on(cpus, #[trigger] list[k]),
        first_missing(cpus, list, i) < list.len() ==> !exists_on(
            cpus,
            list[first_missing(cpus, list, i)],
        ),
    decreases list.len() - i,
{
    if i < list.len() && exists_on(cpus, list[i]) {
        lemma_first_missing(cpus, list, i + 1);
    }
}

/// A list is refused exactly where it names a processor that the machine does not
/// have, on a machine whose processors were read; on any other it is taken
/// unchecked, and that is noted.
pub proof fn law_a_missing_processor_is_refused(
    list: &[usize],
    t: &Topology,
    r: Result<Vec<String>, String>,
)
    requires
        call_ensures(check_cpu_list, (list, t), r),
    ensures
        r is Err <==> was_read(*t) && exists|k: int|
            0 <= k < list@.len() && !exists_on(t.cpus@, #[trigger] list@[k]),
        !was_read(*t) ==> (r matches Ok(v) && v@.len() == 1),
        was_read(*t) <==> t.source@ != "none"@ && t.source@ != "available_parallelism"@,
{
    lemma_first_missing(t.cpus@, list@, 0);
    let i = first_missing(t.cpus@, list@, 0);
    if i < list@.len() {
        assert(!exists_on(t.cpus@, list@[i]));
    }
    if !was_read(*t) {
        match r {
            Ok(v) => {
                assert(string_views(v@).len() == v@.len());
            },
            Err(_) => {},
        }
    }
}

/// A processor exists exactly where the machine has one with its id.
pub proof fn law_a_processor_exists_by_its_id(cpus: Seq<Cpu>, id: usize)
    ensures
        exists_on(cpus, id) <==> exists|k: int| 0 <= k < cpus.len() && (#[trigger] cpus[k]).id == id,
{
    topo::lemma_slot_first(cpus, id, 0);
    let s = topo::slot(cpus, id, 0);
    if s < cpus.len() {
        assert(cpus[s].id == id);
    }
}

/// A list that is given is kept as it is, even where pinning is switched off;
/// without one, as many workers as there are go on the first processors of the
/// order for workers, each on its own, unless pinning is switched off.
pub proof fn law_workers_are_pinned_as_asked(
    list: Option<Vec<usize>>,
    no_pin: bool,
    machine: &Topology,
    workers: usize,
    r: Option<Vec<usize>>,
    k: int,
)
    requires
        call_ensures(pin_list, (list, no_pin, machine, workers), r),
    ensures
        list is Some ==> r == list,
        list is None && no_pin ==> r is None,
        list is None && !no_pin && workers > 0 && topo::spread_of(machine.cpus@).len() > 0
            ==> r is Some,
        list is None ==> (r matches Some(v) ==> v@.len() == (if workers
            < topo::spread_of(machine.cpus@).len() {
            workers as nat
        } else {
            topo::spread_of(machine.cpus@).len()
        }) && (0 <= k < v@.len() ==> v@[k] == topo::spread_of(machine.cpus@)[k])),
{
}

} // verus!
