//! What a machine says of its processors, made into a topology. The program
//! reads the files and asks the system; what they say comes in as text and
//! numbers.

use vstd::prelude::*;
use crate::miner::ranks;
use crate::miner::ranks::sort_dedup;
use crate::miner::topo::{Cpu, Topology};
use crate::text;
use crate::text::{find, is_text, number_of, part, push_dec, split, string_of, to_chars, trim};

verus! {

// ---------------------------------------------------------------------------
// Lists of ranges

/// The numbers from `a` to `b`.
pub open spec fn from_to(a: nat, b: nat) -> Seq<u64> {
    if a <= b {
        Seq::new((b - a + 1) as nat, |k: int| (a + k) as u64)
    } else {
        Seq::empty()
    }
}

/// The number of a processor, blanks around it or not.
pub open spec fn cpu_in(t: Seq<char>) -> Option<nat> {
    text::number_in(text::trimmed(t), 10, usize::MAX as nat)
}

/// The numbers that one entry of a list names; none where it is not understood.
pub open spec fn entry_numbers(p: Seq<char>) -> Seq<u64> {
    if text::has(p, '-') {
        match (cpu_in(text::before(p, '-')), cpu_in(text::behind(p, '-'))) {
            (Some(a), Some(b)) => from_to(a, b),
            _ => Seq::empty(),
        }
    } else {
        match cpu_in(p) {
            Some(a) => seq![a as u64],
            None => Seq::empty(),
        }
    }
}

/// The numbers that the first `n` entries name.
pub open spec fn entries_numbers(ps: Seq<Seq<char>>, n: int) -> Seq<u64>
    decreases n,
{
    if n <= 0 {
        Seq::empty()
    } else {
        entries_numbers(ps, n - 1) + entry_numbers(ps[n - 1])
    }
}

/// The numbers that a list such as `0-3,8` names, each once, in order.
pub open spec fn range_list(s: Seq<char>) -> Seq<u64> {
    let ps = text::pieces(s, ',');
    ranks::ranks(entries_numbers(ps, ps.len() as int))
}

fn push_entry(p: &[char], out: &mut Vec<u64>)
    requires
        forall|k: int| 0 <= k < old(out)@.len() ==> old(out)@[k] <= usize::MAX,
    ensures
        final(out)@ == old(out)@ + entry_numbers(p@),
        forall|k: int| 0 <= k < final(out)@.len() ==> final(out)@[k] <= usize::MAX,
{
    let d: usize = find(p, '-', 0);
    if d >= p.len() {
        match number_of(&trim(p), 10, usize::MAX as u64) {
            Some(a) => out.push(a),
            None => {},
        }
        assert(out@ =~= old(out)@ + entry_numbers(p@));
        return;
    }
    let l = part(p, 0, d);
    assert(l@ =~= text::before(p@, '-'));
    let r = part(p, d + 1, p.len());
    assert(r@ =~= text::behind(p@, '-'));
    match (
        number_of(&trim(&l), 10, usize::MAX as u64),
        number_of(&trim(&r), 10, usize::MAX as u64),
    ) {
        (Some(a), Some(b)) => {
            if a <= b {
                let mut k: u64 = a;
                out.push(a);
                assert(out@ =~= old(out)@ + from_to(a as nat, a as nat));
                while k < b
                    invariant
                        a <= k <= b <= usize::MAX,
                        out@ == old(out)@ + from_to(a as nat, k as nat),
                        forall|k: int| 0 <= k < out@.len() ==> out@[k] <= usize::MAX,
                    decreases b - k,
                {
                    k += 1;
                    out.push(k);
                    assert(out@ =~= old(out)@ + from_to(a as nat, k as nat));
                }
            } else {
                assert(out@ =~= old(out)@ + entry_numbers(p@));
            }
        },
        _ => {
            assert(out@ =~= old(out)@ + entry_numbers(p@));
        },
    }
}

/// The numbers that a list such as `0-3,8` names, each once, in order. What is
/// not understood is passed over.
pub fn parse_range_list(s: &str) -> (r: Vec<usize>)
    ensures
        Seq::new(r@.len(), |i: int| r@[i] as u64) == range_list(s@),
{
    let ps = split(&to_chars(s), ',');
    let ghost qs = text::pieces(s@, ',');
    let mut v: Vec<u64> = Vec::new();
    let mut i: usize = 0;
    while i < ps.len()
        invariant
            i <= ps.len(),
            text::views(ps@) == qs,
            v@ == entries_numbers(qs, i as int),
            forall|k: int| 0 <= k < v@.len() ==> v@[k] <= usize::MAX,
        decreases ps.len() - i,
    {
        assert(qs[i as int] == ps@[i as int]@);
        push_entry(&ps[i], &mut v);
        i += 1;
    }
    let rs = sort_dedup(&v);
    proof {
        ranks::lemma_ranks(v@);
        assert(qs.len() == ps@.len());
        assert forall|k: int| 0 <= k < rs@.len() implies rs@[k] <= usize::MAX by {
            assert(ranks::ranks(v@).contains(rs@[k]));
            let j = choose|j: int| 0 <= j < v@.len() && v@[j] == rs@[k];
            assert(v@[j] <= usize::MAX);
        }
    }
    let mut r: Vec<usize> = Vec::new();
    let mut j: usize = 0;
    while j < rs.len()
        invariant
            j <= rs.len(),
            r@.len() == j,
            forall|k: int| 0 <= k < rs@.len() ==> rs@[k] <= usize::MAX,
            forall|k: int| 0 <= k < j ==> r@[k] as u64 == rs@[k],
        decreases rs.len() - j,
    {
        r.push(rs[j] as usize);
        j += 1;
    }
    assert(Seq::new(r@.len(), |i: int| r@[i] as u64) =~= rs@);
    r
}

// ---------------------------------------------------------------------------
// Fast and slow processors

/// The highest capacity.
pub open spec fn max_capacity(caps: Seq<(usize, u32)>) -> u32
    decreases caps.len(),
{
    if caps.len() <= 1 {
        caps[0].1
    } else if caps.last().1 > max_capacity(caps.drop_last()) {
        caps.last().1
    } else {
        max_capacity(caps.drop_last())
    }
}

/// Whether all have the same capacity.
pub open spec fn one_capacity(caps: Seq<(usize, u32)>) -> bool {
    forall|i: int| 0 <= i < caps.len() ==> (#[trigger] caps[i]).1 == caps[0].1
}

/// The ids of those with the capacity `m`, or of those without it.
pub open spec fn with_capacity(caps: Seq<(usize, u32)>, m: u32, yes: bool) -> Seq<usize>
    decreases caps.len(),
{
    if caps.len() == 0 {
        Seq::empty()
    } else if (caps.last().1 == m) == yes {
        with_capacity(caps.drop_last(), m, yes).push(caps.last().0)
    } else {
        with_capacity(caps.drop_last(), m, yes)
    }
}

proof fn lemma_max_capacity(caps: Seq<(usize, u32)>)
    requires
        caps.len() > 0,
    ensures
        forall|i: int| 0 <= i < caps.len() ==> (#[trigger] caps[i]).1 <= max_capacity(caps),
        exists|i: int| 0 <= i < caps.len() && (#[trigger] caps[i]).1 == max_capacity(caps),
    decreases caps.len(),
{
    if caps.len() == 1 {
        assert(caps[0].1 == max_capacity(caps));
    } else {
        let t = caps.drop_last();
        lemma_max_capacity(t);
        let j = choose|j: int| 0 <= j < t.len() && (#[trigger] t[j]).1 == max_capacity(t);
        assert(caps[j] == t[j]);
        assert(caps[caps.len() - 1] == caps.last());
        assert forall|i: int| 0 <= i < caps.len() implies (#[trigger] caps[i]).1 <= max_capacity(
            caps,
        ) by {
            if i < t.len() {
                assert(t[i] == caps[i]);
            }
        }
    }
}

/// Splits processors into the fastest and the rest by their capacity. Nothing
/// to split where all have the same one, or none has any.
pub fn split_by_capacity(caps: &[(usize, u32)]) -> (r: Option<(Vec<usize>, Vec<usize>)>)
    ensures
        r is Some <==> !one_capacity(caps@),
        r matches Some((fast, slow)) ==> fast@ == with_capacity(
            caps@,
            max_capacity(caps@),
            true,
        ) && slow@ == with_capacity(caps@, max_capacity(caps@), false),
{
    if caps.len() == 0 {
        return None;
    }
    let mut max: u32 = caps[0].1;
    let mut same: bool = true;
    let mut i: usize = 1;
    assert(caps@.take(1)[0] == caps@[0]);
    while i < caps.len()
        invariant
            1 <= i <= caps.len(),
            max == max_capacity(caps@.take(i as int)),
            same == (forall|k: int| 0 <= k < i ==> (#[trigger] caps@[k]).1 == caps@[0].1),
        decreases caps.len() - i,
    {
        assert(caps@.take(i + 1).drop_last() =~= caps@.take(i as int));
        if caps[i].1 > max {
            max = caps[i].1;
        }
        if caps[i].1 != caps[0].1 {
            same = false;
        }
        i += 1;
    }
    assert(caps@.take(i as int) =~= caps@);
    if same {
        return None;
    }
    let mut fast: Vec<usize> = Vec::new();
    let mut slow: Vec<usize> = Vec::new();
    let mut j: usize = 0;
    assert(caps@.take(0) =~= Seq::<(usize, u32)>::empty());
    while j < caps.len()
        invariant
            j <= caps.len(),
            fast@ == with_capacity(caps@.take(j as int), max, true),
            slow@ == with_capacity(caps@.take(j as int), max, false),
        decreases caps.len() - j,
    {
        assert(caps@.take(j + 1).drop_last() =~= caps@.take(j as int));
        if caps[j].1 == max {
            fast.push(caps[j].0);
        } else {
            slow.push(caps[j].0);
        }
        j += 1;
    }
    assert(caps@.take(j as int) =~= caps@);
    Some((fast, slow))
}

/// Who is split off as slow has less than the highest capacity, and the fast
/// ones have it; neither part is empty.
pub proof fn law_split_by_capacity(caps: Seq<(usize, u32)>, i: int)
    requires
        !one_capacity(caps),
        0 <= i < caps.len(),
    ensures
        caps[i].1 <= max_capacity(caps),
        caps[i].1 == max_capacity(caps) ==> with_capacity(caps, max_capacity(caps), true).contains(
            caps[i].0,
        ),
        caps[i].1 < max_capacity(caps) ==> with_capacity(
            caps,
            max_capacity(caps),
            false,
        ).contains(caps[i].0),
{
    lemma_max_capacity(caps);
    lemma_capacity_keeps(caps, max_capacity(caps), i);
}

proof fn lemma_capacity_keeps(caps: Seq<(usize, u32)>, m: u32, i: int)
    requires
        0 <= i < caps.len(),
    ensures
        with_capacity(caps, m, caps[i].1 == m).contains(caps[i].0),
    decreases caps.len(),
{
    let yes = caps[i].1 == m;
    let t = caps.drop_last();
    let w = with_capacity(t, m, yes);
    if i < t.len() {
        assert(t[i] == caps[i]);
        lemma_capacity_keeps(t, m, i);
        let j = choose|j: int| 0 <= j < w.len() && w[j] == caps[i].0;
        assert(with_capacity(caps, m, yes)[j] == caps[i].0);
    } else {
        assert(with_capacity(caps, m, yes)[w.len() as int] == caps[i].0);
    }
}

// ---------------------------------------------------------------------------
// Lines of the form `key : value`

/// The value of the first line from `i` on whose key is `key` and whose value
/// is not empty.
pub open spec fn value_of(lines: Seq<Seq<char>>, key: Seq<char>, i: int) -> Option<Seq<char>>
    decreases lines.len() - i,
{
    if i < 0 || i >= lines.len() {
        None
    } else {
        let l = lines[i];
        let v = text::trimmed(text::behind(l, ':'));
        if text::has(l, ':') && text::trimmed(text::before(l, ':')) == key && v.len() > 0 {
            Some(v)
        } else {
            value_of(lines, key, i + 1)
        }
    }
}

fn find_value(lines: &Vec<Vec<char>>, key: &str) -> (r: Option<Vec<char>>)
    ensures
        r is Some <==> value_of(text::views(lines@), key@, 0) is Some,
        r matches Some(v) ==> value_of(text::views(lines@), key@, 0) == Some(v@),
{
    let ghost ls = text::views(lines@);
    let mut i: usize = 0;
    while i < lines.len()
        invariant
            i <= lines.len(),
            ls == text::views(lines@),
            value_of(ls, key@, 0) == value_of(ls, key@, i as int),
        decreases lines.len() - i,
    {
        let l: &Vec<char> = &lines[i];
        assert(ls[i as int] == l@);
        let c: usize = find(l, ':', 0);
        if c < l.len() {
            let a = part(l, 0, c);
            assert(a@ =~= text::before(l@, ':'));
            let b = part(l, c + 1, l.len());
            assert(b@ =~= text::behind(l@, ':'));
            let v = trim(&b);
            if is_text(&trim(&a), key) && v.len() > 0 {
                return Some(v);
            }
        }
        i += 1;
    }
    None
}

/// The name of the processor: `model name` on x86, `Hardware` or `Processor`
/// on ARM, in that order.
pub open spec fn model_text(s: Seq<char>) -> Seq<char> {
    let ls = text::pieces(s, '\n');
    match value_of(ls, "model name"@, 0) {
        Some(v) => v,
        None => match value_of(ls, "Hardware"@, 0) {
            Some(v) => v,
            None => match value_of(ls, "Processor"@, 0) {
                Some(v) => v,
                None => Seq::empty(),
            },
        },
    }
}

/// The name of the processor from the text of `/proc/cpuinfo`.
pub fn model_from_cpuinfo(s: &str) -> (r: String)
    ensures
        r@ == model_text(s@),
{
    let ls = split(&to_chars(s), '\n');
    match find_value(&ls, "model name") {
        Some(v) => {
            return string_of(&v);
        },
        None => {},
    }
    match find_value(&ls, "Hardware") {
        Some(v) => {
            return string_of(&v);
        },
        None => {},
    }
    match find_value(&ls, "Processor") {
        Some(v) => {
            return string_of(&v);
        },
        None => {},
    }
    String::new()
}

// ---------------------------------------------------------------------------
// Caches

/// What a cache directory says: its level, its size as text, who shares it.
#[derive(Debug)]
pub struct Cache {
    pub level: Option<i32>,
    pub size: Option<String>,
    pub shared: Vec<usize>,
}

/// `s` without the letters K and M at its end.
pub open spec fn without_unit(s: Seq<char>) -> Seq<char>
    decreases s.len(),
{
    if s.len() > 0 && (s.last() == 'K' || s.last() == 'M') {
        without_unit(s.drop_last())
    } else {
        s
    }
}

/// A size in KiB: a number, with `M` behind it if it is in MiB. A size that
/// does not fit 32 bits is none.
pub open spec fn size_kib(t: Seq<char>) -> Option<nat> {
    let s = text::trimmed(t);
    match text::number_in(without_unit(s), 10, u32::MAX as nat) {
        Some(n) => if s.len() > 0 && s.last() == 'M' {
            if n * 1024 <= u32::MAX {
                Some(n * 1024)
            } else {
                None
            }
        } else {
            Some(n)
        },
        None => None,
    }
}

/// A size in KiB.
pub fn parse_size_kib(t: &str) -> (r: Option<u32>)
    ensures
        r is Some <==> size_kib(t@) is Some,
        r matches Some(n) ==> size_kib(t@) == Some(n as nat),
{
    let s = trim(&to_chars(t));
    let mut hi: usize = s.len();
    assert(s@.take(hi as int) =~= s@);
    while hi > 0 && (s[hi - 1] == 'K' || s[hi - 1] == 'M')
        invariant
            hi <= s.len(),
            without_unit(s@) == without_unit(s@.take(hi as int)),
        decreases hi,
    {
        assert(s@.take(hi as int).drop_last() =~= s@.take(hi - 1));
        hi -= 1;
    }
    assert(hi > 0 ==> s@.take(hi as int).last() == s@[hi - 1]);
    let d = part(&s, 0, hi);
    assert(d@ =~= s@.take(hi as int));
    match number_of(&d, 10, u32::MAX as u64) {
        Some(n) => if s.len() > 0 && s[s.len() - 1] == 'M' {
            if n * 1024 <= u32::MAX as u64 {
                Some((n * 1024) as u32)
            } else {
                None
            }
        } else {
            Some(n as u32)
        },
        None => None,
    }
}

/// Whether a cache is one of level 2 whose size is known.
pub open spec fn is_l2(c: Cache) -> bool {
    c.level == Some(2i32) && (c.size matches Some(t) && size_kib(t@) is Some)
}

/// The first cache of level 2 from `i` on, as an index.
pub open spec fn first_l2(cs: Seq<Cache>, i: int) -> int
    decreases cs.len() - i,
{
    if 0 <= i < cs.len() && !is_l2(cs[i]) {
        first_l2(cs, i + 1)
    } else {
        i
    }
}

/// The size of the second-level cache and how many processors share it.
pub open spec fn l2(cs: Seq<Cache>) -> (Option<u32>, Option<usize>) {
    let i = first_l2(cs, 0);
    if i < cs.len() {
        let n = cs[i].shared@.len();
        (
            Some(size_kib(cs[i].size->Some_0@)->Some_0 as u32),
            if n > 0 {
                Some(n as usize)
            } else {
                None
            },
        )
    } else {
        (None, None)
    }
}

fn read_l2(cs: &[Cache]) -> (r: (Option<u32>, Option<usize>))
    ensures
        r == l2(cs@),
{
    let mut i: usize = 0;
    while i < cs.len()
        invariant
            i <= cs.len(),
            first_l2(cs@, 0) == first_l2(cs@, i as int),
        decreases cs.len() - i,
    {
        let c: &Cache = &cs[i];
        let level2: bool = match c.level {
            Some(n) => n == 2,
            None => false,
        };
        if level2 {
            match &c.size {
                Some(t) => match parse_size_kib(t) {
                    Some(n) => {
                        let m: usize = c.shared.len();
                        return (
                            Some(n),
                            if m > 0 {
                                Some(m)
                            } else {
                                None
                            },
                        );
                    },
                    None => {},
                },
                None => {},
            }
        }
        i += 1;
    }
    (None, None)
}

// ---------------------------------------------------------------------------
// Linux

/// What the system says of one processor.
#[derive(Debug)]
pub struct Reading {
    pub id: usize,
    pub package: Option<i32>,
    pub core: Option<i32>,
    pub capacity: Option<i32>,
    pub caches: Vec<Cache>,
}

fn holds(v: &[usize], x: usize) -> (r: bool)
    ensures
        r == v@.contains(x),
{
    let mut i: usize = 0;
    while i < v.len()
        invariant
            i <= v.len(),
            forall|k: int| 0 <= k < i ==> v@[k] != x,
        decreases v.len() - i,
    {
        if v[i] == x {
            return true;
        }
        i += 1;
    }
    false
}

/// The capacities that are known, with their processors.
pub open spec fn capacities(rs: Seq<Reading>) -> Seq<(usize, u32)>
    decreases rs.len(),
{
    if rs.len() == 0 {
        Seq::empty()
    } else {
        match rs.last().capacity {
            Some(c) => if c >= 0 {
                capacities(rs.drop_last()).push((rs.last().id, c as u32))
            } else {
                capacities(rs.drop_last())
            },
            None => capacities(rs.drop_last()),
        }
    }
}

/// The class of a processor: 1 if it is only among the fast ones, 0 if only
/// among the slow ones, else none.
pub open spec fn class_by(fast: Seq<usize>, slow: Seq<usize>, id: usize) -> Option<u8> {
    if fast.contains(id) && !slow.contains(id) {
        Some(1u8)
    } else if !fast.contains(id) && slow.contains(id) {
        Some(0u8)
    } else {
        None
    }
}

pub open spec fn or_unknown(n: Option<i32>) -> i32 {
    match n {
        Some(x) => x,
        None => (-1) as i32,
    }
}

/// The processor that a reading describes.
pub open spec fn cpu_of(r: Reading, fast: Seq<usize>, slow: Seq<usize>) -> Cpu {
    Cpu {
        id: r.id,
        group: 0,
        package: or_unknown(r.package),
        core: or_unknown(r.core),
        class: class_by(fast, slow, r.id),
        l2_kib: l2(r.caches@).0,
        l2_shared: l2(r.caches@).1,
    }
}

/// The fast and the slow processors: as the hybrid files name them; where they
/// name none, by capacity.
pub open spec fn fast_slow(p: Seq<usize>, e: Seq<usize>, rs: Seq<Reading>) -> (
    Seq<usize>,
    Seq<usize>,
) {
    let caps = capacities(rs);
    if p.len() == 0 && e.len() == 0 && !one_capacity(caps) {
        (
            with_capacity(caps, max_capacity(caps), true),
            with_capacity(caps, max_capacity(caps), false),
        )
    } else {
        (p, e)
    }
}

pub open spec fn as_list(t: Option<String>) -> Seq<Seq<char>> {
    match t {
        Some(n) => seq![n@],
        None => Seq::empty(),
    }
}

pub open spec fn masked_note() -> Seq<char> {
    "the kernel exposed no per-CPU topology - a container with a masked or read-only /sys does this - so SMT siblings are unknown and no pin list can be trusted here"@
}

/// The topology that Linux gives: `p` and `e` are what the files of a hybrid
/// part name, `note` is why the list of processors could not be read.
pub fn linux(
    model: String,
    note: Option<String>,
    readings: &[Reading],
    p: Vec<usize>,
    e: Vec<usize>,
) -> (t: Topology)
    ensures
        t.model == model,
        t.source@ == "/sys/devices/system/cpu"@,
        ({
            let (fast, slow) = fast_slow(p@, e@, readings@);
            t.cpus@ == Seq::new(
                readings@.len(),
                |i: int| cpu_of(readings@[i], fast, slow),
            )
        }),
        ({
            let masked = readings@.len() > 0 && forall|i: int|
                0 <= i < readings@.len() ==> or_unknown((#[trigger] readings@[i]).core) < 0;
            Seq::new(t.notes@.len(), |i: int| t.notes@[i]@) == as_list(note) + (if masked {
                seq![masked_note()]
            } else {
                Seq::empty()
            })
        }),
{
    let mut notes: Vec<String> = Vec::new();
    let ghost a = as_list(note);
    match note {
        Some(n) => notes.push(n),
        None => {},
    }
    assert(Seq::new(notes@.len(), |i: int| notes@[i]@) =~= a);
    let mut caps: Vec<(usize, u32)> = Vec::new();
    let mut i: usize = 0;
    assert(readings@.take(0) =~= Seq::<Reading>::empty());
    while i < readings.len()
        invariant
            i <= readings.len(),
            caps@ == capacities(readings@.take(i as int)),
        decreases readings.len() - i,
    {
        assert(readings@.take(i + 1).drop_last() =~= readings@.take(i as int));
        match readings[i].capacity {
            Some(c) => if c >= 0 {
                caps.push((readings[i].id, c as u32));
            },
            None => {},
        }
        i += 1;
    }
    assert(readings@.take(i as int) =~= readings@);
    let (fast, slow) = if p.len() == 0 && e.len() == 0 {
        match split_by_capacity(&caps) {
            Some(x) => x,
            None => (p, e),
        }
    } else {
        (p, e)
    };
    assert((fast@, slow@) == fast_slow(p@, e@, readings@));
    let mut cpus: Vec<Cpu> = Vec::new();
    let mut known: bool = false;
    let mut j: usize = 0;
    while j < readings.len()
        invariant
            j <= readings.len(),
            cpus@ == Seq::new(j as nat, |i: int| cpu_of(readings@[i], fast@, slow@)),
            known == (exists|k: int|
                0 <= k < j && or_unknown((#[trigger] readings@[k]).core) >= 0),
        decreases readings.len() - j,
    {
        let r: &Reading = &readings[j];
        let in_fast: bool = holds(&fast, r.id);
        let in_slow: bool = holds(&slow, r.id);
        let class: Option<u8> = if in_fast && !in_slow {
            Some(1)
        } else if !in_fast && in_slow {
            Some(0)
        } else {
            None
        };
        let core: i32 = match r.core {
            Some(n) => n,
            None => -1,
        };
        let package: i32 = match r.package {
            Some(n) => n,
            None => -1,
        };
        let (l2_kib, l2_shared) = read_l2(&r.caches);
        if core >= 0 {
            assert(or_unknown(readings@[j as int].core) >= 0);
            known = true;
        }
        cpus.push(Cpu { id: r.id, group: 0, package, core, class, l2_kib, l2_shared });
        j += 1;
        assert(cpus@ =~= Seq::new(j as nat, |i: int| cpu_of(readings@[i], fast@, slow@)));
    }
    if readings.len() > 0 && !known {
        let m = "the kernel exposed no per-CPU topology - a container with a masked or read-only /sys does this - so SMT siblings are unknown and no pin list can be trusted here".to_owned();
        notes.push(m);
        assert(Seq::new(notes@.len(), |i: int| notes@[i]@) =~= a + seq![m@]);
    } else {
        assert(Seq::new(notes@.len(), |i: int| notes@[i]@) =~= a + Seq::empty());
    }
    Topology { model, cpus, source: "/sys/devices/system/cpu", notes }
}

// ---------------------------------------------------------------------------
// What every reading ends with

/// `c` put in its place in a list that is sorted by id, behind its equals.
pub open spec fn insert_cpu(v: Seq<Cpu>, c: Cpu) -> Seq<Cpu>
    decreases v.len(),
{
    if v.len() == 0 {
        seq![c]
    } else if v.last().id <= c.id {
        v.push(c)
    } else {
        insert_cpu(v.drop_last(), c).push(v.last())
    }
}

/// The processors in the order of their ids; equals keep their order.
pub open spec fn by_id(v: Seq<Cpu>) -> Seq<Cpu>
    decreases v.len(),
{
    if v.len() == 0 {
        Seq::empty()
    } else {
        insert_cpu(by_id(v.drop_last()), v.last())
    }
}

proof fn lemma_insert_cpu_at(v: Seq<Cpu>, c: Cpu, i: int)
    requires
        0 <= i <= v.len(),
        forall|k: int| i <= k < v.len() ==> v[k].id > c.id,
        i > 0 ==> v[i - 1].id <= c.id,
    ensures
        insert_cpu(v, c) == v.insert(i, c),
    decreases v.len(),
{
    if v.len() == 0 {
        assert(v.insert(0, c) =~= seq![c]);
    } else if i == v.len() {
        assert(v.insert(i, c) =~= v.push(c));
    } else {
        lemma_insert_cpu_at(v.drop_last(), c, i);
        assert(v.drop_last().insert(i, c).push(v.last()) =~= v.insert(i, c));
    }
}

fn sort_by_id(v: &Vec<Cpu>) -> (r: Vec<Cpu>)
    ensures
        r@ == by_id(v@),
{
    let mut r: Vec<Cpu> = Vec::new();
    let mut n: usize = 0;
    assert(v@.take(0) =~= Seq::<Cpu>::empty());
    while n < v.len()
        invariant
            n <= v.len(),
            r@ == by_id(v@.take(n as int)),
        decreases v.len() - n,
    {
        assert(v@.take(n + 1).drop_last() =~= v@.take(n as int));
        let c: Cpu = v[n];
        let mut i: usize = r.len();
        while i > 0 && r[i - 1].id > c.id
            invariant
                i <= r.len(),
                forall|k: int| i <= k < r@.len() ==> r@[k].id > c.id,
            decreases i,
        {
            i -= 1;
        }
        proof {
            lemma_insert_cpu_at(r@, c, i as int);
        }
        r.insert(i, c);
        n += 1;
    }
    assert(v@.take(n as int) =~= v@);
    r
}

/// A processor of which nothing is known but its number.
pub open spec fn bare_cpu(id: usize) -> Cpu {
    Cpu {
        id,
        group: 0,
        package: (-1) as i32,
        core: (-1) as i32,
        class: None,
        l2_kib: None,
        l2_shared: None,
    }
}

impl Topology {
    /// The topology to go by: the one that was read, in the order of the ids;
    /// where no processor was read, `n` processors that nothing is known of.
    pub fn detect(read: Topology, n: usize) -> (t: Topology)
        ensures
            t.model == read.model,
            read.cpus@.len() > 0 ==> t.cpus@ == by_id(read.cpus@) && t.source == read.source
                && t.notes == read.notes,
            read.cpus@.len() == 0 ==> t.cpus@ == Seq::new(n as nat, |i: int| bare_cpu(i as usize))
                && t.source@ == "available_parallelism"@ && t.notes@.len() == read.notes@.len() + 1
                && t.notes@.drop_last() == read.notes@ && t.notes@.last()@
                == "no usable topology source; assuming "@ + text::dec(n as nat)
                + " unrelated processors (std::thread::available_parallelism)"@,
    {
        if read.cpus.len() > 0 {
            let cpus = sort_by_id(&read.cpus);
            return Topology { model: read.model, cpus, source: read.source, notes: read.notes };
        }
        let mut notes = read.notes;
        let mut m = "no usable topology source; assuming ".to_owned();
        push_dec(&mut m, n as u64);
        m.append(" unrelated processors (std::thread::available_parallelism)");
        notes.push(m);
        let mut cpus: Vec<Cpu> = Vec::new();
        let mut id: usize = 0;
        while id < n
            invariant
                id <= n,
                cpus@ == Seq::new(id as nat, |i: int| bare_cpu(i as usize)),
            decreases n - id,
        {
            cpus.push(
                Cpu {
                    id,
                    group: 0,
                    package: -1,
                    core: -1,
                    class: None,
                    l2_kib: None,
                    l2_shared: None,
                },
            );
            id += 1;
            assert(cpus@ =~= Seq::new(id as nat, |i: int| bare_cpu(i as usize)));
        }
        assert(notes@.drop_last() =~= read.notes@);
        Topology { model: read.model, cpus, source: "available_parallelism", notes }
    }
}

// ---------------------------------------------------------------------------
// What the readings of a machine keep

proof fn lemma_entries_hold(ps: Seq<Seq<char>>, n: int, x: u64)
    requires
        0 <= n <= ps.len(),
    ensures
        entries_numbers(ps, n).contains(x) <==> exists|k: int|
            0 <= k < n && entry_numbers(#[trigger] ps[k]).contains(x),
    decreases n,
{
    if n > 0 {
        let a = entries_numbers(ps, n - 1);
        let b = entry_numbers(ps[n - 1]);
        lemma_entries_hold(ps, n - 1, x);
        let all = a + b;
        if a.contains(x) {
            let i = choose|i: int| 0 <= i < a.len() && a[i] == x;
            assert(all[i] == x);
        }
        if b.contains(x) {
            let i = choose|i: int| 0 <= i < b.len() && b[i] == x;
            assert(all[a.len() + i] == x);
        }
        if all.contains(x) {
            let i = choose|i: int| 0 <= i < all.len() && all[i] == x;
            if i < a.len() {
                assert(a[i] == x);
            } else {
                assert(b[i - a.len()] == x);
            }
        }
    }
}

/// A list names a processor exactly where one of its entries does, and what it
/// names stands in rising order, each once.
pub proof fn law_a_list_names_what_its_entries_name(s: &str, r: Vec<usize>, x: usize, i: int, j: int)
    requires
        call_ensures(parse_range_list, (s,), r),
    ensures
        0 <= i < j < r@.len() ==> r@[i] < r@[j],
        r@.contains(x) <==> exists|k: int|
            0 <= k < text::pieces(s@, ',').len() && entry_numbers(
                #[trigger] text::pieces(s@, ',')[k],
            ).contains(x as u64),
{
    let ps = text::pieces(s@, ',');
    let all = entries_numbers(ps, ps.len() as int);
    let v = range_list(s@);
    ranks::lemma_ranks(all);
    lemma_entries_hold(ps, ps.len() as int, x as u64);
    let w = Seq::new(r@.len(), |i: int| r@[i] as u64);
    assert(w == v);
    if 0 <= i < j < r@.len() {
        assert(w[i] < w[j]);
    }
    if r@.contains(x) {
        let k = choose|k: int| 0 <= k < r@.len() && r@[k] == x;
        assert(w[k] == x as u64);
        assert(v.contains(x as u64));
    }
    if v.contains(x as u64) {
        let k = choose|k: int| 0 <= k < v.len() && v[k] == x as u64;
        assert(w[k] == r@[k] as u64);
        assert(r@[k] == x);
    }
}

/// An entry names one number, or with a dash every number from the first to the
/// last; what is no number names nothing.
pub proof fn law_an_entry_names_its_range(a: Seq<char>, b: Seq<char>, n: u64)
    requires
        forall|k: int| 0 <= k < a.len() ==> a[k] != '-',
        n <= usize::MAX,
    ensures
        entry_numbers(a).contains(n) <==> text::number_in(
            text::trimmed(a),
            10,
            usize::MAX as nat,
        ) == Some(n as nat),
        entry_numbers(a + seq!['-'] + b).contains(n) <==> (match (
            text::number_in(text::trimmed(a), 10, usize::MAX as nat),
            text::number_in(text::trimmed(b), 10, usize::MAX as nat),
        ) {
            (Some(x), Some(y)) => x <= n <= y,
            _ => false,
        }),
{
    let s = a + seq!['-'] + b;
    text::lemma_index(a, '-', 0);
    text::lemma_index_behind(a, seq!['-'] + b, '-', 0);
    assert(s =~= a + (seq!['-'] + b));
    assert((seq!['-'] + b)[0] == '-');
    assert(s.take(a.len() as int) =~= a);
    assert(s.skip(a.len() as int + 1) =~= b);
    match cpu_in(a) {
        Some(x) => {
            assert(seq![x as u64][0] == x);
            match cpu_in(b) {
                Some(y) => {
                    if x <= n <= y {
                        assert(from_to(x, y)[n - x] == n);
                    }
                },
                None => {},
            }
        },
        None => {},
    }
}

/// A size is read in KiB, and in MiB with an M behind it.
pub proof fn law_a_size_is_read_with_its_unit(d: Seq<char>, n: nat)
    requires
        d.len() > 0,
        forall|k: int| 0 <= k < d.len() ==> 48 <= (#[trigger] d[k]) as u32 <= 57,
        text::number_in(d, 10, u32::MAX as nat) == Some(n),
    ensures
        size_kib(d) == Some(n),
        size_kib(d.push('K')) == Some(n),
        n * 1024 <= u32::MAX ==> size_kib(d.push('M')) == Some(n * 1024),
        n * 1024 > u32::MAX ==> size_kib(d.push('M')) is None,
{
    assert(48 <= d[0] as u32 <= 57);
    assert(48 <= d[d.len() - 1] as u32 <= 57);
    text::lemma_trimmed(d);
    assert(d.push('K')[0] == d[0]);
    assert(d.push('M')[0] == d[0]);
    text::lemma_trimmed(d.push('K'));
    text::lemma_trimmed(d.push('M'));
    assert(d.push('K').drop_last() =~= d);
    assert(d.push('M').drop_last() =~= d);
    assert(without_unit(d) == d);
}

/// The cache of a processor is the first of the second level whose size is known,
/// with as many sharers as it lists.
pub proof fn law_the_first_known_cache_counts(cs: Seq<Cache>, i: int)
    requires
        0 <= i < cs.len(),
        cs[i].level == Some(2i32),
        cs[i].size is Some,
        size_kib(cs[i].size->Some_0@) is Some,
        cs[i].shared@.len() <= usize::MAX,
        forall|k: int| 0 <= k < i ==> !is_l2(#[trigger] cs[k]),
    ensures
        l2(cs).0 matches Some(n) && size_kib(cs[i].size->Some_0@) == Some(n as nat),
        cs[i].shared@.len() > 0 ==> (l2(cs).1 matches Some(n) && n == cs[i].shared@.len()),
        cs[i].shared@.len() == 0 ==> l2(cs).1 is None,
{
    lemma_first_l2(cs, 0, i);
}

proof fn lemma_first_l2(cs: Seq<Cache>, i: int, k: int)
    requires
        0 <= i <= k < cs.len(),
        is_l2(cs[k]),
        forall|j: int| i <= j < k ==> !is_l2(#[trigger] cs[j]),
    ensures
        first_l2(cs, i) == k,
    decreases k - i,
{
    if i < k {
        assert(!is_l2(cs[i]));
        lemma_first_l2(cs, i + 1, k);
    }
}

/// A processor is of the class that names it alone: fast above slow, and none
/// where both or neither name it. Its package and core are those that were read,
/// and not known where they were not.
pub proof fn law_a_processor_is_as_read(r: Reading, fast: Seq<usize>, slow: Seq<usize>)
    ensures
        ({
            let c = cpu_of(r, fast, slow);
            &&& c.id == r.id
            &&& r.package matches Some(p) ==> c.package == p
            &&& r.core matches Some(p) ==> c.core == p
            &&& r.package is None ==> c.package < 0
            &&& r.core is None ==> c.core < 0
            &&& c.class == Some(1u8) <==> fast.contains(r.id) && !slow.contains(r.id)
            &&& c.class == Some(0u8) <==> slow.contains(r.id) && !fast.contains(r.id)
            &&& fast.contains(r.id) == slow.contains(r.id) ==> c.class is None
            &&& c.l2_kib == l2(r.caches@).0 && c.l2_shared == l2(r.caches@).1
        }),
{
}

/// Whether the ids never fall.
pub open spec fn rising_ids(v: Seq<Cpu>) -> bool {
    forall|i: int, j: int| 0 <= i <= j < v.len() ==> v[i].id <= v[j].id
}

proof fn lemma_insert_cpu(v: Seq<Cpu>, c: Cpu)
    requires
        rising_ids(v),
    ensures
        rising_ids(insert_cpu(v, c)),
        insert_cpu(v, c).len() == v.len() + 1,
        insert_cpu(v, c).to_multiset() == v.to_multiset().insert(c),
        insert_cpu(v, c).last().id == (if v.len() == 0 || v.last().id <= c.id {
            c.id
        } else {
            v.last().id
        }),
    decreases v.len(),
{
    broadcast use vstd::seq_lib::group_to_multiset_ensures;
    if v.len() == 0 {
        assert(v =~= Seq::empty());
        assert(seq![c] =~= v.push(c));
    } else if v.last().id > c.id {
        let t = v.drop_last();
        lemma_insert_cpu(t, c);
        assert(v =~= t.push(v.last()));
        let r = insert_cpu(t, c);
        assert forall|i: int, j: int| 0 <= i <= j < r.push(v.last()).len() implies r.push(
            v.last(),
        )[i].id <= r.push(v.last())[j].id by {
            if j == r.len() && i < j {
                assert(r[i].id <= r[r.len() - 1].id);
                if t.len() > 0 {
                    assert(v[t.len() - 1].id <= v[v.len() - 1].id);
                }
            }
        }
        assert(r.push(v.last()).to_multiset() =~= v.to_multiset().insert(c));
    }
}

/// The processors are put in the order of their ids, and none is lost or made up.
pub proof fn law_processors_are_put_in_order(v: Seq<Cpu>)
    ensures
        rising_ids(by_id(v)),
        by_id(v).to_multiset() == v.to_multiset(),
        by_id(v).len() == v.len(),
    decreases v.len(),
{
    broadcast use vstd::seq_lib::group_to_multiset_ensures;
    if v.len() > 0 {
        law_processors_are_put_in_order(v.drop_last());
        lemma_insert_cpu(by_id(v.drop_last()), v.last());
        assert(v =~= v.drop_last().push(v.last()));
    } else {
        assert(by_id(v) =~= v);
    }
}

/// The topology to go by is the one that was read, in order; where none was, as
/// many processors as the system can run at once, of which nothing is known.
pub proof fn law_a_machine_without_a_reading_is_made_up(read: Topology, n: usize, t: Topology, i: int)
    requires
        call_ensures(Topology::detect, (read, n), t),
    ensures
        read.cpus@.len() > 0 ==> rising_ids(t.cpus@) && t.cpus@.to_multiset()
            == read.cpus@.to_multiset() && t.source == read.source,
        read.cpus@.len() == 0 ==> t.cpus@.len() == n && t.source@ == "available_parallelism"@ && (0
            <= i < n ==> t.cpus@[i].id == i && t.cpus@[i].core < 0 && t.cpus@[i].package < 0
            && t.cpus@[i].class is None && t.cpus@[i].l2_kib is None),
        t.model == read.model,
{
    law_processors_are_put_in_order(read.cpus@);
}

} // verus!
