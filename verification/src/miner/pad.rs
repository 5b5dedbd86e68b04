//! The memory of the scratchpads: which pages they got, what is said about it,
//! and what to ask the system for. The program does the mapping.

use vstd::prelude::*;
use crate::text;
use crate::text::{find, number_of, part, push_dec, split, stands_at, to_chars, trim};

verus! {

pub const PAD_ALIGN: usize = 65_536;

pub const PAD_BYTES: usize = 65_536;

/// The size of a huge page where the system does not say.
pub const ASSUMED_HUGE_BYTES: usize = 2_097_152;

/// How many bytes rounding up to huge pages may waste.
pub const MAX_ROUNDING_WASTE: usize = 8_388_608;

/// The pages that a region of scratchpads got, and from where.
#[derive(Clone, Copy, PartialEq, Eq, Debug, Structural)]
pub enum PadPages {
    Base,
    HugeTlb,
    Transparent,
    Large,
}

/// What a kind of pages is called.
pub open spec fn tag_text(k: PadPages) -> Seq<char> {
    match k {
        PadPages::Base => "4K"@,
        PadPages::HugeTlb => "2M/hugetlb"@,
        PadPages::Transparent => "2M/thp"@,
        PadPages::Large => "2M/large"@,
    }
}

/// The place of a kind in the counts.
pub open spec fn code_of(k: PadPages) -> int {
    match k {
        PadPages::Base => 0,
        PadPages::HugeTlb => 1,
        PadPages::Transparent => 2,
        PadPages::Large => 3,
    }
}

impl PadPages {
    pub fn tag(self) -> (t: &'static str)
        ensures
            t@ == tag_text(self),
    {
        match self {
            PadPages::Base => "4K",
            PadPages::HugeTlb => "2M/hugetlb",
            PadPages::Transparent => "2M/thp",
            PadPages::Large => "2M/large",
        }
    }

    pub fn is_huge(self) -> (r: bool)
        ensures
            r == (self != PadPages::Base),
    {
        match self {
            PadPages::Base => false,
            _ => true,
        }
    }

    pub fn code(self) -> (c: u8)
        ensures
            c == code_of(self),
            c < 4,
    {
        match self {
            PadPages::Base => 0,
            PadPages::HugeTlb => 1,
            PadPages::Transparent => 2,
            PadPages::Large => 3,
        }
    }
}

/// The kinds in the order of their codes.
pub fn kinds() -> (r: [PadPages; 4])
    ensures
        r@ == seq![PadPages::Base, PadPages::HugeTlb, PadPages::Transparent, PadPages::Large],
        forall|i: int| 0 <= i < 4 ==> code_of(#[trigger] r@[i]) == i,
{
    let r = [PadPages::Base, PadPages::HugeTlb, PadPages::Transparent, PadPages::Large];
    assert(r@ =~= seq![PadPages::Base, PadPages::HugeTlb, PadPages::Transparent, PadPages::Large]);
    r
}

// ---------------------------------------------------------------------------
// Counts of regions

/// How many regions got each kind of pages.
#[derive(Clone, Copy, PartialEq, Eq, Debug)]
pub struct Summary {
    per_kind: [usize; 4],
}

/// How many of `ks` are of this kind.
pub open spec fn how_many(ks: Seq<PadPages>, k: PadPages) -> nat
    decreases ks.len(),
{
    if ks.len() == 0 {
        0
    } else {
        how_many(ks.drop_last(), k) + (if ks.last() == k {
            1nat
        } else {
            0nat
        })
    }
}

impl View for Summary {
    type V = Seq<usize>;

    closed spec fn view(&self) -> Seq<usize> {
        self.per_kind@
    }
}

/// The sum of four counts.
pub open spec fn sum4(s: Seq<usize>) -> nat {
    (s[0] + s[1] + s[2] + s[3]) as nat
}

/// The regions on huge pages of any kind.
pub open spec fn huge_of(s: Seq<usize>) -> nat {
    (s[1] + s[2] + s[3]) as nat
}

/// Whether more than one kind of huge pages occurs.
pub open spec fn is_mixed(s: Seq<usize>) -> bool {
    (s[1] > 0 && s[2] > 0) || (s[1] > 0 && s[3] > 0) || (s[2] > 0 && s[3] > 0)
}

/// The kind of huge pages that most regions got, the first of equals; ordinary
/// pages where none got any.
pub open spec fn main_kind(s: Seq<usize>) -> PadPages {
    if s[1] == 0 && s[2] == 0 && s[3] == 0 {
        PadPages::Base
    } else if s[1] >= s[2] && s[1] >= s[3] {
        PadPages::HugeTlb
    } else if s[2] >= s[3] {
        PadPages::Transparent
    } else {
        PadPages::Large
    }
}

/// What the pages of all regions together are called.
pub open spec fn summary_tag(s: Seq<usize>) -> Seq<char> {
    if is_mixed(s) {
        "2M/mixed"@
    } else {
        tag_text(main_kind(s))
    }
}

impl Default for Summary {
    fn default() -> (s: Summary)
        ensures
            s@ == seq![0usize, 0usize, 0usize, 0usize],
    {
        let s = Summary { per_kind: [0, 0, 0, 0] };
        assert(s@ =~= seq![0usize, 0usize, 0usize, 0usize]);
        s
    }
}

proof fn lemma_how_many(ks: Seq<PadPages>)
    ensures
        how_many(ks, PadPages::Base) + how_many(ks, PadPages::HugeTlb) + how_many(
            ks,
            PadPages::Transparent,
        ) + how_many(ks, PadPages::Large) == ks.len(),
    decreases ks.len(),
{
    if ks.len() > 0 {
        lemma_how_many(ks.drop_last());
    }
}

impl Summary {
    #[verifier::type_invariant]
    spec fn fits(self) -> bool {
        sum4(self.per_kind@) <= usize::MAX
    }

    pub fn of(ks: &[PadPages]) -> (s: Summary)
        ensures
            s@.len() == 4,
            forall|k: PadPages| s@[code_of(k)] == #[trigger] how_many(ks@, k),
            sum4(s@) == ks@.len(),
    {
        let mut a: usize = 0;
        let mut b: usize = 0;
        let mut c: usize = 0;
        let mut d: usize = 0;
        let mut i: usize = 0;
        assert(ks@.take(0) =~= Seq::<PadPages>::empty());
        while i < ks.len()
            invariant
                i <= ks.len(),
                a == how_many(ks@.take(i as int), PadPages::Base),
                b == how_many(ks@.take(i as int), PadPages::HugeTlb),
                c == how_many(ks@.take(i as int), PadPages::Transparent),
                d == how_many(ks@.take(i as int), PadPages::Large),
            decreases ks.len() - i,
        {
            proof {
                assert(ks@.take(i + 1).drop_last() =~= ks@.take(i as int));
                lemma_how_many(ks@.take(i as int));
            }
            match ks[i] {
                PadPages::Base => a += 1,
                PadPages::HugeTlb => b += 1,
                PadPages::Transparent => c += 1,
                PadPages::Large => d += 1,
            }
            i += 1;
        }
        proof {
            assert(ks@.take(i as int) =~= ks@);
            lemma_how_many(ks@);
        }
        let s = Summary { per_kind: [a, b, c, d] };
        assert forall|k: PadPages| s@[code_of(k)] == #[trigger] how_many(ks@, k) by {}
        s
    }

    pub fn total(self) -> (n: usize)
        ensures
            n == sum4(self@),
    {
        proof {
            use_type_invariant(&self);
        }
        self.per_kind[0] + self.per_kind[1] + self.per_kind[2] + self.per_kind[3]
    }

    pub fn huge(self) -> (n: usize)
        ensures
            n == huge_of(self@),
            n <= sum4(self@),
    {
        proof {
            use_type_invariant(&self);
        }
        self.per_kind[1] + self.per_kind[2] + self.per_kind[3]
    }

    pub fn count(self, kind: PadPages) -> (n: usize)
        ensures
            n == self@[code_of(kind)],
    {
        self.per_kind[kind.code() as usize]
    }

    pub fn mixed(self) -> (r: bool)
        ensures
            r == is_mixed(self@),
    {
        let (b, c, d) = (self.per_kind[1], self.per_kind[2], self.per_kind[3]);
        (b > 0 && c > 0) || (b > 0 && d > 0) || (c > 0 && d > 0)
    }

    pub fn kind(self) -> (k: PadPages)
        ensures
            k == main_kind(self@),
    {
        let (b, c, d) = (self.per_kind[1], self.per_kind[2], self.per_kind[3]);
        let mut best = PadPages::Base;
        let mut most: usize = 0;
        if b > most {
            most = b;
            best = PadPages::HugeTlb;
        }
        if c > most {
            most = c;
            best = PadPages::Transparent;
        }
        if d > most {
            best = PadPages::Large;
        }
        best
    }

    pub fn tag(self) -> (t: &'static str)
        ensures
            t@ == summary_tag(self@),
    {
        if self.mixed() {
            "2M/mixed"
        } else {
            self.kind().tag()
        }
    }
}

/// What the status line says of the pads.
pub open spec fn field_text(s: Seq<usize>) -> Seq<char> {
    if sum4(s) == 0 {
        "pads -"@
    } else {
        "pads "@ + summary_tag(s) + " "@ + text::dec(huge_of(s)) + "/"@ + text::dec(sum4(s))
    }
}

/// What the status line says of the pads: the pages, and how many regions got
/// huge ones out of how many.
pub fn field(s: Summary) -> (t: String)
    ensures
        t@ == field_text(s@),
{
    if s.total() == 0 {
        return "pads -".to_owned();
    }
    let mut t = "pads ".to_owned();
    t.append(s.tag());
    t.append(" ");
    push_dec(&mut t, s.huge() as u64);
    t.append("/");
    push_dec(&mut t, s.total() as u64);
    t
}

/// A partial success is never called complete: all regions are on huge pages
/// exactly if none is on ordinary ones.
pub proof fn law_partial_is_not_complete(s: Seq<usize>)
    requires
        s.len() == 4,
    ensures
        huge_of(s) == sum4(s) <==> s[code_of(PadPages::Base)] == 0,
        huge_of(s) <= sum4(s),
        is_mixed(s) ==> huge_of(s) >= 2,
        main_kind(s) == PadPages::Base <==> huge_of(s) == 0,
{
}

// ---------------------------------------------------------------------------
// The tally of a process

/// The regions that are mapped now, those that ever were, and what the first
/// mapping said about its pages.
pub struct Tally {
    now: [usize; 4],
    ever: [usize; 4],
    note: Option<String>,
    logged: bool,
}

/// The mathematical value of a `Tally`.
#[verifier::ext_equal]
pub struct TallyView {
    pub now: Seq<usize>,
    pub ever: Seq<usize>,
    pub note: Option<Seq<char>>,
    pub logged: bool,
}

impl View for Tally {
    type V = TallyView;

    closed spec fn view(&self) -> TallyView {
        TallyView {
            now: self.now@,
            ever: self.ever@,
            note: match self.note {
                Some(t) => Some(t@),
                None => None,
            },
            logged: self.logged,
        }
    }
}

/// A tally can count on: no more regions are mapped than ever were, and the
/// counts have room.
pub open spec fn tally_ok(t: TallyView) -> bool {
    &&& t.now.len() == 4
    &&& t.ever.len() == 4
    &&& forall|i: int| 0 <= i < 4 ==> #[trigger] t.now[i] <= t.ever[i]
    &&& sum4(t.ever) <= usize::MAX
}

/// The tally after a region was mapped.
pub open spec fn recorded(t: TallyView, k: PadPages, note: Seq<char>) -> TallyView {
    let c = code_of(k);
    TallyView {
        now: t.now.update(c, (t.now[c] + 1) as usize),
        ever: t.ever.update(c, (t.ever[c] + 1) as usize),
        note: Some(note),
        logged: t.logged,
    }
}

/// The tally after a region was released.
pub open spec fn unrecorded(t: TallyView, k: PadPages) -> TallyView {
    let c = code_of(k);
    TallyView { now: t.now.update(c, (t.now[c] - 1) as usize), ..t }
}

/// What is worth telling of a note: one that is not empty.
pub open spec fn telling(n: Option<Seq<char>>) -> Option<Seq<char>> {
    match n {
        Some(t) => if t.len() > 0 {
            Some(t)
        } else {
            None
        },
        None => None,
    }
}

/// What is said of the pads once, when the workers start.
pub open spec fn startup_text(s: Seq<usize>) -> Seq<char> {
    if huge_of(s) == sum4(s) {
        "plaine-miner: scratchpads on "@ + summary_tag(s) + " pages, "@ + text::dec(huge_of(s))
            + "/"@ + text::dec(sum4(s)) + " regions"@
    } else if huge_of(s) > 0 {
        "plaine-miner: scratchpads on "@ + summary_tag(s) + " pages for "@ + text::dec(huge_of(s))
            + " of "@ + text::dec(sum4(s)) + " regions, the rest on standard pages"@
    } else {
        "plaine-miner: scratchpads on standard pages (large pages unavailable)"@
    }
}

/// The lines that are said when the workers start.
pub open spec fn startup_lines(t: TallyView, verbose: bool) -> Seq<Seq<char>> {
    if t.logged || sum4(t.ever) == 0 {
        Seq::empty()
    } else {
        match telling(t.note) {
            Some(n) => if verbose {
                seq![startup_text(t.ever), "plaine-miner: large-page note: "@ + n]
            } else {
                seq![startup_text(t.ever)]
            },
            None => seq![startup_text(t.ever)],
        }
    }
}

impl Default for Tally {
    fn default() -> (t: Tally)
        ensures
            tally_ok(t@),
            sum4(t@.ever) == 0,
            t@.note is None,
            !t@.logged,
    {
        Tally { now: [0, 0, 0, 0], ever: [0, 0, 0, 0], note: None, logged: false }
    }
}

/// Counts a region that was mapped. Its note takes the place of the one before.
pub fn record(t: &mut Tally, pages: PadPages, note: String)
    requires
        tally_ok(old(t)@),
        sum4(old(t)@.ever) < usize::MAX,
    ensures
        final(t)@ == recorded(old(t)@, pages, note@),
        tally_ok(final(t)@),
{
    let i: usize = pages.code() as usize;
    assert(t@.now[i as int] <= t@.ever[i as int]);
    t.now[i] = t.now[i] + 1;
    t.ever[i] = t.ever[i] + 1;
    t.note = Some(note);
    assert(t@ =~= recorded(old(t)@, pages, note@));
    assert forall|k: int| 0 <= k < 4 implies #[trigger] t@.now[k] <= t@.ever[k] by {
        assert(old(t)@.now[k] <= old(t)@.ever[k]);
    }
}

/// Counts a region as released. It stays in the count of those that ever were.
pub fn unrecord(t: &mut Tally, pages: PadPages)
    requires
        tally_ok(old(t)@),
        old(t)@.now[code_of(pages)] > 0,
    ensures
        final(t)@ == unrecorded(old(t)@, pages),
        tally_ok(final(t)@),
{
    let i: usize = pages.code() as usize;
    t.now[i] = t.now[i] - 1;
    assert(t@ =~= unrecorded(old(t)@, pages));
    assert forall|k: int| 0 <= k < 4 implies #[trigger] t@.now[k] <= t@.ever[k] by {
        assert(old(t)@.now[k] <= old(t)@.ever[k]);
    }
}

/// The regions that are mapped now.
pub fn observed_now(t: &Tally) -> (s: Summary)
    requires
        tally_ok(t@),
    ensures
        s@ == t@.now,
{
    assert(t@.now[0] <= t@.ever[0] && t@.now[1] <= t@.ever[1] && t@.now[2] <= t@.ever[2]
        && t@.now[3] <= t@.ever[3]);
    Summary { per_kind: t.now }
}

/// The regions that ever were mapped.
pub fn observed_ever(t: &Tally) -> (s: Summary)
    requires
        tally_ok(t@),
    ensures
        s@ == t@.ever,
{
    Summary { per_kind: t.ever }
}

/// What the status line says of the pads.
pub fn status_field(t: &Tally) -> (r: String)
    requires
        tally_ok(t@),
    ensures
        r@ == field_text(t@.now),
{
    field(observed_now(t))
}

/// Why the last mapping got the pages it got, in the words of the system.
pub fn last_note(t: &Tally) -> (r: Option<&str>)
    ensures
        r is Some <==> telling(t@.note) is Some,
        r matches Some(n) ==> telling(t@.note) == Some(n@),
{
    match &t.note {
        Some(n) => if n.as_str().unicode_len() > 0 {
            Some(n.as_str())
        } else {
            None
        },
        None => None,
    }
}

/// The lines to say when the workers start: once in the life of a process.
pub fn log_startup(t: &mut Tally, verbose: bool) -> (r: Vec<String>)
    requires
        tally_ok(old(t)@),
    ensures
        Seq::new(r@.len(), |i: int| r@[i]@) == startup_lines(old(t)@, verbose),
        final(t)@ == (TallyView { logged: true, ..old(t)@ }),
{
    let mut r: Vec<String> = Vec::new();
    let was: bool = t.logged;
    t.logged = true;
    assert(t@ =~= (TallyView { logged: true, ..old(t)@ }));
    let s = observed_ever(t);
    let total: usize = s.total();
    let huge: usize = s.huge();
    if was || total == 0 {
        assert(Seq::new(r@.len(), |i: int| r@[i]@) =~= Seq::empty());
        return r;
    }
    let mut m: String;
    if huge == total {
        m = "plaine-miner: scratchpads on ".to_owned();
        m.append(s.tag());
        m.append(" pages, ");
        push_dec(&mut m, huge as u64);
        m.append("/");
        push_dec(&mut m, total as u64);
        m.append(" regions");
    } else if huge > 0 {
        m = "plaine-miner: scratchpads on ".to_owned();
        m.append(s.tag());
        m.append(" pages for ");
        push_dec(&mut m, huge as u64);
        m.append(" of ");
        push_dec(&mut m, total as u64);
        m.append(" regions, the rest on standard pages");
    } else {
        m = "plaine-miner: scratchpads on standard pages (large pages unavailable)".to_owned();
    }
    assert(m@ == startup_text(old(t)@.ever));
    match last_note(t) {
        Some(n) => {
            if verbose {
                let mut v = "plaine-miner: large-page note: ".to_owned();
                v.append(n);
                r = vec![m, v];
                assert(Seq::new(r@.len(), |i: int| r@[i]@) =~= seq![m@, v@]);
                return r;
            }
        },
        None => {},
    }
    r = vec![m];
    assert(Seq::new(r@.len(), |i: int| r@[i]@) =~= seq![m@]);
    r
}

/// Releasing a region never takes it out of the count of those that ever were.
pub proof fn law_release_keeps_the_lifetime_count(t: TallyView, k: PadPages, note: Seq<char>)
    requires
        tally_ok(t),
        sum4(t.ever) < usize::MAX,
    ensures
        sum4(recorded(t, k, note).ever) == sum4(t.ever) + 1,
        unrecorded(recorded(t, k, note), k).ever == recorded(t, k, note).ever,
        unrecorded(recorded(t, k, note), k).now == t.now,
{
    assert(t.now[code_of(k)] <= t.ever[code_of(k)]);
    assert(unrecorded(recorded(t, k, note), k).now =~= t.now);
}

// ---------------------------------------------------------------------------
// Contents

/// What the words of a pad come to: each is mixed in and the whole multiplied.
pub open spec fn mixed_in(words: Seq<u64>, mult: u64) -> u64
    decreases words.len(),
{
    if words.len() == 0 {
        0
    } else {
        (((mixed_in(words.drop_last(), mult) ^ words.last()) * mult)
            % 0x1_0000_0000_0000_0000) as u64
    }
}

/// The checksum of a pad.
pub fn checksum(words: &[u64], mult: u64) -> (h: u64)
    ensures
        h == mixed_in(words@, mult),
{
    let mut h: u64 = 0;
    let mut i: usize = 0;
    assert(words@.take(0) =~= Seq::<u64>::empty());
    while i < words.len()
        invariant
            i <= words.len(),
            h == mixed_in(words@.take(i as int), mult),
        decreases words.len() - i,
    {
        assert(words@.take(i + 1).drop_last() =~= words@.take(i as int));
        h = (h ^ words[i]).wrapping_mul(mult);
        i += 1;
    }
    assert(words@.take(i as int) =~= words@);
    h
}

// ---------------------------------------------------------------------------
// Layout

/// `n` rounded up to a multiple of `m`.
pub open spec fn round_up(n: int, m: int) -> int {
    if n % m == 0 {
        n
    } else {
        n - n % m + m
    }
}

/// `n` rounded up to a multiple of `m`.
pub fn next_multiple(n: usize, m: usize) -> (r: usize)
    requires
        m > 0,
        round_up(n as int, m as int) <= usize::MAX,
    ensures
        r == round_up(n as int, m as int),
        n <= r < n + m,
        r as int % m as int == 0,
{
    let rem: usize = n % m;
    proof {
        lemma_round_up(n as int, m as int);
    }
    if rem == 0 {
        n
    } else {
        n + (m - rem)
    }
}

proof fn lemma_round_up(n: int, m: int)
    requires
        m > 0,
        n >= 0,
    ensures
        n <= round_up(n, m) < n + m,
        round_up(n, m) % m == 0,
{
    vstd::arithmetic::div_mod::lemma_fundamental_div_mod(n, m);
    vstd::arithmetic::div_mod::lemma_mod_bound(n, m);
    if n % m != 0 {
        let q = n / m;
        assert(n - n % m + m == m * (q + 1)) by (nonlinear_arith)
            requires
                n == m * q + n % m,
        ;
        vstd::arithmetic::div_mod::lemma_mod_multiples_basic(q + 1, m);
        assert(m * (q + 1) == (q + 1) * m) by (nonlinear_arith);
    }
}

/// Where an aligned window lies in a mapping that is larger by one alignment
/// unit: its base, and what is to be cut off before and behind it.
#[derive(Debug, Clone, Copy)]
pub struct Window {
    pub base: usize,
    pub head: usize,
    pub tail: usize,
}

/// The aligned window of `len` bytes in a mapping of `len + align` bytes that
/// begins at `raw`.
pub fn window(raw: usize, len: usize, align: usize) -> (w: Window)
    requires
        align > 0,
        raw + len + align <= usize::MAX,
    ensures
        w.base as int % align as int == 0,
        w.base == raw + w.head,
        w.head < align,
        w.head + len + w.tail == len + align,
        raw <= w.base && w.base + len + w.tail == raw + len + align,
{
    proof {
        lemma_round_up(raw as int, align as int);
    }
    let base: usize = next_multiple(raw, align);
    let head: usize = base - raw;
    Window { base, head, tail: align - head }
}

/// Where pad `j` of a region begins.
pub open spec fn pad_at(base: int, j: int) -> int {
    base + j * PAD_BYTES
}

/// How far into a region pad `j` of `count` begins.
pub fn slot_offset(j: usize, count: usize) -> (r: usize)
    requires
        j < count,
        count * PAD_BYTES <= usize::MAX,
    ensures
        r == pad_at(0, j as int),
        r + PAD_BYTES <= count * PAD_BYTES,
{
    j * PAD_BYTES
}

/// Pads of one region are aligned and do not overlap.
pub proof fn law_pads_are_aligned_and_disjoint(base: int, i: int, j: int)
    requires
        base % PAD_ALIGN as int == 0,
        0 <= i < j,
    ensures
        pad_at(base, i) % PAD_ALIGN as int == 0,
        pad_at(base, i) + PAD_BYTES <= pad_at(base, j),
{
}

// ---------------------------------------------------------------------------
// What the system says

/// `s` without the unit `kB`, as often as it stands at the end.
pub open spec fn without_kb(s: Seq<char>) -> Seq<char>
    decreases s.len(),
{
    if s.len() >= 2 && s[s.len() - 2] == 'k' && s.last() == 'B' {
        without_kb(s.take(s.len() - 2))
    } else {
        s
    }
}

/// The number of a line such as `HugePages_Free:   12 kB`, behind its key.
pub open spec fn kb_number(rest: Seq<char>) -> Option<nat> {
    text::number_in(
        text::trimmed(without_kb(text::trimmed(rest))),
        10,
        usize::MAX as nat,
    )
}

/// The number of the first line from `i` on that begins with `key`.
pub open spec fn keyed_number(lines: Seq<Seq<char>>, key: Seq<char>, i: int) -> Option<nat>
    decreases lines.len() - i,
{
    if i < 0 || i >= lines.len() {
        None
    } else if text::stands(lines[i], key, 0) {
        kb_number(lines[i].skip(key.len() as int))
    } else {
        keyed_number(lines, key, i + 1)
    }
}

fn read_kb(v: &[char], lo: usize) -> (r: Option<usize>)
    requires
        lo <= v.len(),
    ensures
        r is Some <==> kb_number(v@.skip(lo as int)) is Some,
        r matches Some(n) ==> kb_number(v@.skip(lo as int)) == Some(n as nat),
{
    let rest = part(v, lo, v.len());
    assert(rest@ =~= v@.skip(lo as int));
    let t = trim(&rest);
    let mut hi: usize = t.len();
    assert(t@.take(hi as int) =~= t@);
    while hi >= 2 && t[hi - 2] == 'k' && t[hi - 1] == 'B'
        invariant
            hi <= t.len(),
            without_kb(t@) == without_kb(t@.take(hi as int)),
        decreases hi,
    {
        assert(t@.take(hi as int).take(hi - 2) =~= t@.take(hi - 2));
        assert(t@.take(hi as int).last() == t@[hi - 1]);
        hi -= 2;
    }
    assert(hi >= 2 ==> t@.take(hi as int)[hi - 2] == t@[hi - 2] && t@.take(hi as int).last()
        == t@[hi - 1]);
    let d = part(&t, 0, hi);
    assert(d@ =~= t@.take(hi as int));
    match number_of(&trim(&d), 10, usize::MAX as u64) {
        Some(n) => Some(n as usize),
        None => None,
    }
}

/// The number that the text of `/proc/meminfo` gives for `key`.
pub fn meminfo_num(meminfo: &str, key: &str) -> (r: Option<usize>)
    ensures
        r is Some <==> keyed_number(text::pieces(meminfo@, '\n'), key@, 0) is Some,
        r matches Some(n) ==> keyed_number(text::pieces(meminfo@, '\n'), key@, 0) == Some(
            n as nat,
        ),
{
    let ls = split(&to_chars(meminfo), '\n');
    let ghost qs = text::pieces(meminfo@, '\n');
    let k = to_chars(key);
    let mut i: usize = 0;
    while i < ls.len()
        invariant
            i <= ls.len(),
            qs == text::pieces(meminfo@, '\n'),
            text::views(ls@) == qs,
            k@ == key@,
            keyed_number(qs, key@, 0) == keyed_number(qs, key@, i as int),
        decreases ls.len() - i,
    {
        assert(qs[i as int] == ls@[i as int]@);
        if stands_at(&ls[i], key, 0) {
            return read_kb(&ls[i], k.len());
        }
        i += 1;
    }
    assert(qs.len() == ls@.len());
    None
}

/// `n` KiB in bytes, where that fits.
pub open spec fn kib(n: Option<nat>) -> Option<nat> {
    match n {
        Some(x) => if x * 1024 <= usize::MAX {
            Some(x * 1024)
        } else {
            None
        },
        None => None,
    }
}

/// The bytes that `/proc/meminfo` gives for `key`. A number of KiB that does
/// not fit is none.
pub fn meminfo_kib(meminfo: &str, key: &str) -> (r: Option<usize>)
    ensures
        r is Some <==> kib(keyed_number(text::pieces(meminfo@, '\n'), key@, 0)) is Some,
        r matches Some(n) ==> kib(keyed_number(text::pieces(meminfo@, '\n'), key@, 0)) == Some(
            n as nat,
        ),
{
    match meminfo_num(meminfo, key) {
        Some(n) => if n <= usize::MAX / 1024 {
            Some(n * 1024)
        } else {
            None
        },
        None => None,
    }
}

/// The size of a huge page: as the system gives it, or the usual one.
pub open spec fn huge_bytes(meminfo: Seq<char>) -> nat {
    match kib(keyed_number(text::pieces(meminfo, '\n'), "Hugepagesize:"@, 0)) {
        Some(n) => if n > 0 {
            n
        } else {
            ASSUMED_HUGE_BYTES as nat
        },
        None => ASSUMED_HUGE_BYTES as nat,
    }
}

/// The size of a huge page on this system.
pub fn huge_page_bytes(meminfo: &str) -> (n: usize)
    ensures
        n == huge_bytes(meminfo@),
        n > 0,
{
    match meminfo_kib(meminfo, "Hugepagesize:") {
        Some(n) => if n > 0 {
            n
        } else {
            ASSUMED_HUGE_BYTES
        },
        None => ASSUMED_HUGE_BYTES,
    }
}

/// The address that a line of `/proc/self/smaps` begins with, if it begins a
/// mapping.
pub open spec fn map_start(line: Seq<char>) -> Option<nat> {
    text::number_in(text::before(line, '-'), 16, usize::MAX as nat)
}

/// The KiB on huge pages that `/proc/self/smaps` gives for the mapping at
/// `base`, from line `i` on; `inside` says whether line `i` belongs to it.
pub open spec fn anon_kib(lines: Seq<Seq<char>>, base: nat, i: int, inside: bool) -> Option<nat>
    decreases lines.len() - i,
{
    if i < 0 || i >= lines.len() {
        None
    } else {
        match map_start(lines[i]) {
            Some(lo) => anon_kib(lines, base, i + 1, lo == base),
            None => if inside && text::stands(lines[i], "AnonHugePages:"@, 0) {
                kb_number(lines[i].skip("AnonHugePages:"@.len() as int))
            } else {
                anon_kib(lines, base, i + 1, inside)
            },
        }
    }
}

/// The bytes of the mapping at `base` that `/proc/self/smaps` shows on huge
/// pages.
pub fn anon_huge_bytes(smaps: &str, base: usize) -> (r: Option<usize>)
    ensures
        r is Some <==> kib(
            anon_kib(text::pieces(smaps@, '\n'), base as nat, 0, false),
        ) is Some,
        r matches Some(n) ==> kib(anon_kib(text::pieces(smaps@, '\n'), base as nat, 0, false))
            == Some(n as nat),
{
    let ls = split(&to_chars(smaps), '\n');
    let ghost qs = text::pieces(smaps@, '\n');
    let key = to_chars("AnonHugePages:");
    let mut inside: bool = false;
    let mut i: usize = 0;
    while i < ls.len()
        invariant
            i <= ls.len(),
            qs == text::pieces(smaps@, '\n'),
            text::views(ls@) == qs,
            qs.len() == ls@.len(),
            key@ == "AnonHugePages:"@,
            anon_kib(qs, base as nat, 0, false) == anon_kib(qs, base as nat, i as int, inside),
        decreases ls.len() - i,
    {
        let l: &Vec<char> = &ls[i];
        assert(qs[i as int] == l@);
        let d: usize = find(l, '-', 0);
        let head = part(l, 0, d);
        assert(head@ =~= text::before(l@, '-'));
        match number_of(&head, 16, usize::MAX as u64) {
            Some(lo) => {
                inside = lo == base as u64;
            },
            None => {
                if inside && stands_at(l, "AnonHugePages:", 0) {
                    return match read_kb(l, key.len()) {
                        Some(n) => if n <= usize::MAX / 1024 {
                            Some(n * 1024)
                        } else {
                            None
                        },
                        None => None,
                    };
                }
            },
        }
        i += 1;
    }
    None
}

// ---------------------------------------------------------------------------
// Which pages to ask for, and which to claim

/// What to ask the system for first.
#[derive(Debug)]
pub enum Plan {
    /// Ordinary pages; this is why.
    Base(String),
    /// Huge pages, this many bytes.
    Huge(usize),
}

/// Whether rounding up to huge pages wastes too much.
pub open spec fn wastes(want: nat, hp: nat) -> bool {
    round_up(want as int, hp as int) > want + MAX_ROUNDING_WASTE
}

/// Which pages to ask for: huge ones if they are wanted and the rounding does
/// not waste too much.
pub fn plan(want: usize, huge: bool, hp: usize) -> (p: Plan)
    requires
        hp > 0,
        want + hp + MAX_ROUNDING_WASTE <= usize::MAX,
    ensures
        p matches Plan::Huge(n) ==> huge && !wastes(want as nat, hp as nat) && n == round_up(
            want as int,
            hp as int,
        ),
        p matches Plan::Base(why) ==> (!huge || wastes(want as nat, hp as nat)) && why@ == (
        if !huge {
            "huge pages not requested"@
        } else {
            "huge pages are "@ + text::dec((hp / 1048576) as nat)
                + " MiB on this kernel and the pads need "@ + text::dec((want / 1024) as nat)
                + " KiB; the rounding waste is not worth it"@
        }),
{
    if !huge {
        return Plan::Base("huge pages not requested".to_owned());
    }
    proof {
        lemma_round_up(want as int, hp as int);
    }
    let rounded: usize = next_multiple(want, hp);
    if rounded > want + MAX_ROUNDING_WASTE {
        let mut why = "huge pages are ".to_owned();
        push_dec(&mut why, (hp / 1048576) as u64);
        why.append(" MiB on this kernel and the pads need ");
        push_dec(&mut why, (want / 1024) as u64);
        why.append(" KiB; the rounding waste is not worth it");
        return Plan::Base(why);
    }
    Plan::Huge(rounded)
}

/// How much to ask for in large pages of `lp` bytes, or why to ask for none.
/// Without support for them `lp` is zero.
pub fn plan_large(want: usize, lp: usize) -> (r: Result<usize, String>)
    requires
        want + lp + MAX_ROUNDING_WASTE <= usize::MAX,
    ensures
        r is Ok <==> lp > 0 && !wastes(want as nat, lp as nat),
        r matches Ok(n) ==> n == round_up(want as int, lp as int),
        r matches Err(why) ==> why@ == (if lp == 0 {
            "this processor has no large-page support"@
        } else {
            "large pages are "@ + text::dec((lp / 1048576) as nat)
                + " MiB here and the pads need "@ + text::dec((want / 1024) as nat)
                + " KiB; the rounding waste is not worth it"@
        }),
{
    if lp == 0 {
        return Err("this processor has no large-page support".to_owned());
    }
    proof {
        lemma_round_up(want as int, lp as int);
    }
    let rounded: usize = next_multiple(want, lp);
    if rounded > want + MAX_ROUNDING_WASTE {
        let mut why = "large pages are ".to_owned();
        push_dec(&mut why, (lp / 1048576) as u64);
        why.append(" MiB here and the pads need ");
        push_dec(&mut why, (want / 1024) as u64);
        why.append(" KiB; the rounding waste is not worth it");
        return Err(why);
    }
    Ok(rounded)
}

/// What is noted of a region from the pool of huge pages, with the free pages
/// before and after.
pub fn pool_note(rounded: usize, hp: usize, before: Option<usize>, after: Option<usize>) -> (t:
    String)
    requires
        hp > 0,
    ensures
        t@ == text::dec((rounded / hp) as nat) + " x "@ + text::dec((hp / 1048576) as nat)
            + " MiB from the hugetlb pool"@ + (match (before, after) {
            (Some(a), Some(b)) => " (HugePages_Free "@ + text::dec(a as nat) + " -> "@ + text::dec(
                b as nat,
            ) + ")"@,
            _ => ""@,
        }),
{
    let mut t = text::dec_of((rounded / hp) as u64);
    t.append(" x ");
    push_dec(&mut t, (hp / 1048576) as u64);
    t.append(" MiB from the hugetlb pool");
    let mut u = String::new();
    match (before, after) {
        (Some(a), Some(b)) => {
            u.append(" (HugePages_Free ");
            push_dec(&mut u, a as u64);
            u.append(" -> ");
            push_dec(&mut u, b as u64);
            u.append(")");
            assert(u@ =~= " (HugePages_Free "@ + text::dec(a as nat) + " -> "@ + text::dec(b as nat)
                + ")"@);
        },
        _ => {
            u.append("");
            assert(u@ =~= ""@);
        },
    }
    t.append(&u);
    t
}

/// What came of asking for transparent huge pages.
#[derive(Debug)]
pub enum Thp {
    /// No aligned region could be mapped; the error.
    NoRegion(String),
    /// The advice was refused; the error.
    Refused(String),
    /// The advice was taken; what the system then shows on huge pages.
    Taken(Option<usize>),
}

/// What the pool said before: its error, its size, what was free.
#[derive(Debug)]
pub struct Pool {
    pub error: String,
    pub total: usize,
    pub free: usize,
}

/// Whether a region of transparent huge pages is claimed as such: only if the
/// system shows all of it on huge pages.
pub open spec fn claimed(t: Thp, rounded: nat) -> bool {
    t matches Thp::Taken(Some(n)) && n >= rounded
}

/// What is said of the pool.
pub open spec fn pool_text(p: Pool) -> Seq<char> {
    "HugePages_Total="@ + text::dec(p.total as nat) + " Free="@ + text::dec(p.free as nat)
}

/// What is noted of a region that asked for transparent huge pages.
pub open spec fn thp_note(t: Thp, p: Pool, rounded: nat, hp: nat) -> Seq<char> {
    match t {
        Thp::NoRegion(e) => "no hugetlb pool ("@ + pool_text(p) + ", mmap said "@ + p.error@
            + ") and no "@ + text::dec(hp)
            + "-byte-aligned region could be mapped for THP either: "@ + e@,
        Thp::Refused(e) => "no hugetlb pool ("@ + pool_text(p) + ", mmap said "@ + p.error@
            + ") and madvise(MADV_HUGEPAGE) said "@ + e@
            + "; check /sys/kernel/mm/transparent_hugepage/enabled"@,
        Thp::Taken(None) =>
        "madvise(MADV_HUGEPAGE) was accepted but /proc/self/smaps could not be read back, so it is not claimed"@,
        Thp::Taken(Some(n)) => if n >= rounded {
            "madvise(MADV_HUGEPAGE), "@ + text::dec((n / 1024) as nat) + " KiB of "@ + text::dec(
                rounded / 1024,
            ) + " KiB confirmed as AnonHugePages in smaps (no hugetlb pool: "@ + pool_text(p)
                + ")"@
        } else {
            "no hugetlb pool ("@ + pool_text(p)
                + ") and madvise(MADV_HUGEPAGE) was accepted but smaps reports only "@ + text::dec(
                (n / 1024) as nat,
            ) + " KiB of "@ + text::dec(rounded / 1024)
                + " KiB behind huge pages, so it is not claimed; check /sys/kernel/mm/transparent_hugepage/enabled or `sysctl -w vm.nr_hugepages="@
                + text::dec(rounded / hp) + "`"@
        },
    }
}

fn pool_string(p: &Pool) -> (t: String)
    ensures
        t@ == pool_text(*p),
{
    let mut t = "HugePages_Total=".to_owned();
    push_dec(&mut t, p.total as u64);
    t.append(" Free=");
    push_dec(&mut t, p.free as u64);
    t
}

/// Which pages a region that asked for transparent huge pages is said to have
/// got, and why. One that is not claimed is released for ordinary pages.
pub fn judge_thp(t: &Thp, p: &Pool, rounded: usize, hp: usize) -> (r: (PadPages, String))
    requires
        hp > 0,
    ensures
        r.0 == (if claimed(*t, rounded as nat) {
            PadPages::Transparent
        } else {
            PadPages::Base
        }),
        r.1@ == thp_note(*t, *p, rounded as nat, hp as nat),
{
    match t {
        Thp::NoRegion(e) => {
            let mut s = "no hugetlb pool (".to_owned();
            s.append(&pool_string(p));
            s.append(", mmap said ");
            s.append(&p.error);
            s.append(") and no ");
            push_dec(&mut s, hp as u64);
            s.append("-byte-aligned region could be mapped for THP either: ");
            s.append(e);
            (PadPages::Base, s)
        },
        Thp::Refused(e) => {
            let mut s = "no hugetlb pool (".to_owned();
            s.append(&pool_string(p));
            s.append(", mmap said ");
            s.append(&p.error);
            s.append(") and madvise(MADV_HUGEPAGE) said ");
            s.append(e);
            s.append("; check /sys/kernel/mm/transparent_hugepage/enabled");
            (PadPages::Base, s)
        },
        Thp::Taken(None) => (
            PadPages::Base,
            "madvise(MADV_HUGEPAGE) was accepted but /proc/self/smaps could not be read back, so it is not claimed".to_owned(),
        ),
        Thp::Taken(Some(n)) => {
            if *n >= rounded {
                let mut s = "madvise(MADV_HUGEPAGE), ".to_owned();
                push_dec(&mut s, (*n / 1024) as u64);
                s.append(" KiB of ");
                push_dec(&mut s, (rounded / 1024) as u64);
                s.append(" KiB confirmed as AnonHugePages in smaps (no hugetlb pool: ");
                s.append(&pool_string(p));
                s.append(")");
                (PadPages::Transparent, s)
            } else {
                let mut s = "no hugetlb pool (".to_owned();
                s.append(&pool_string(p));
                s.append(
                    ") and madvise(MADV_HUGEPAGE) was accepted but smaps reports only ",
                );
                push_dec(&mut s, (*n / 1024) as u64);
                s.append(" KiB of ");
                push_dec(&mut s, (rounded / 1024) as u64);
                s.append(
                    " KiB behind huge pages, so it is not claimed; check /sys/kernel/mm/transparent_hugepage/enabled or `sysctl -w vm.nr_hugepages=",
                );
                push_dec(&mut s, (rounded / hp) as u64);
                s.append("`");
                (PadPages::Base, s)
            }
        },
    }
}

/// Huge pages are claimed only where the system shows every byte on them.
pub proof fn law_no_false_claim(t: Thp, rounded: nat)
    ensures
        claimed(t, rounded) ==> (t matches Thp::Taken(Some(n)) && n >= rounded),
        t is NoRegion || t is Refused ==> !claimed(t, rounded),
{
}

// ---------------------------------------------------------------------------
// What the counts keep

/// A region more is counted under its own kind.
pub proof fn law_a_region_is_counted_under_its_kind(ks: Seq<PadPages>, k: PadPages, j: PadPages)
    ensures
        how_many(Seq::empty(), j) == 0,
        how_many(ks.push(k), j) == how_many(ks, j) + (if k == j {
            1int
        } else {
            0
        }),
{
    assert(ks.push(k).drop_last() =~= ks);
}

/// The main kind is one that no other kind of huge pages outnumbers.
pub proof fn law_the_main_kind_is_not_outnumbered(s: Seq<usize>, k: PadPages)
    requires
        s.len() == 4,
        huge_of(s) > 0,
        k != PadPages::Base,
    ensures
        main_kind(s) != PadPages::Base,
        s[code_of(k)] <= s[code_of(main_kind(s))],
        s[code_of(main_kind(s))] > 0,
{
}

/// A region that is mapped counts once, now and ever, under its own kind; one
/// that is released counts no more now.
pub proof fn law_a_mapped_region_counts_once(t: TallyView, k: PadPages, note: Seq<char>, j: PadPages)
    requires
        tally_ok(t),
        sum4(t.ever) < usize::MAX,
    ensures
        ({
            let a = recorded(t, k, note);
            let c = code_of(j);
            &&& j == k ==> a.now[c] == t.now[c] + 1 && a.ever[c] == t.ever[c] + 1
            &&& j != k ==> a.now[c] == t.now[c] && a.ever[c] == t.ever[c]
            &&& a.note == Some(note)
            &&& t.now[code_of(k)] > 0 ==> unrecorded(t, k).now[code_of(k)] + 1 == t.now[code_of(
                k,
            )] && unrecorded(t, k).ever == t.ever
        }),
{
}

/// The start of the workers is told once: a second look says nothing.
pub proof fn law_a_start_is_told_once(t: TallyView, verbose: bool)
    ensures
        startup_lines((TallyView { logged: true, ..t }), verbose).len() == 0,
        !t.logged && sum4(t.ever) > 0 ==> startup_lines(t, verbose).len() >= 1,
{
}

/// A word more is mixed into what the words before it came to.
pub proof fn law_a_word_is_mixed_in(words: Seq<u64>, w: u64, mult: u64)
    ensures
        mixed_in(Seq::empty(), mult) == 0,
        mixed_in(words.push(w), mult) == ((mixed_in(words, mult) ^ w) * mult)
            % 0x1_0000_0000_0000_0000,
{
    assert(words.push(w).drop_last() =~= words);
}

} // verus!
