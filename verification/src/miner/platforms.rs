//! The processors of a machine as Windows and macOS describe them.

use vstd::prelude::*;
use crate::miner::topo::{Cpu, Topology};
use crate::text;
use crate::text::push_dec;

verus! {

// ---------------------------------------------------------------------------
// Little-endian numbers in a buffer

/// The byte at `i`. Behind the end of the buffer there are zeros.
pub open spec fn byte(b: Seq<u8>, i: int) -> u8 {
    if 0 <= i < b.len() {
        b[i]
    } else {
        0
    }
}

pub open spec fn two(b: Seq<u8>, i: int) -> u16 {
    (byte(b, i) + 256 * byte(b, i + 1)) as u16
}

pub open spec fn four(b: Seq<u8>, i: int) -> u32 {
    (two(b, i) + 65536 * two(b, i + 2)) as u32
}

pub open spec fn eight(b: Seq<u8>, i: int) -> u64 {
    (four(b, i) + 4294967296 * four(b, i + 4)) as u64
}

fn byte_at(b: &[u8], i: usize) -> (r: u8)
    ensures
        r == byte(b@, i as int),
{
    if i < b.len() {
        b[i]
    } else {
        0
    }
}

fn u16_at(b: &[u8], i: usize) -> (r: u16)
    ensures
        r == two(b@, i as int),
{
    assert(b@.len() == b.len());
    byte_at(b, i) as u16 + 256 * (byte_at(b, i.saturating_add(1)) as u16)
}

fn u32_at(b: &[u8], i: usize) -> (r: u32)
    ensures
        r == four(b@, i as int),
{
    assert(b@.len() == b.len());
    u16_at(b, i) as u32 + 65536 * (u16_at(b, i.saturating_add(2)) as u32)
}

fn u64_at(b: &[u8], i: usize) -> (r: u64)
    ensures
        r == eight(b@, i as int),
{
    assert(b@.len() == b.len());
    u32_at(b, i) as u64 + 4294967296 * (u32_at(b, i.saturating_add(4)) as u64)
}

// ---------------------------------------------------------------------------
// Windows

/// Some processors of one group of up to sixty-four.
#[derive(Clone, Copy, Debug, PartialEq, Eq, Structural)]
pub struct Mask {
    pub bits: u64,
    pub group: u16,
}

/// Whether two masks have a processor in common.
pub open spec fn meets(a: Mask, b: Mask) -> bool {
    a.group == b.group && a.bits & b.bits != 0
}

/// The masks from the `i`th to the `n`th, which stand one behind another from
/// `first` on, sixteen bytes apart, up to `end`.
pub open spec fn masks_from(b: Seq<u8>, first: int, end: int, i: int, n: int) -> Seq<Mask>
    decreases n - i,
{
    let at = first + i * 16;
    if i >= n || at + 10 > end {
        Seq::empty()
    } else {
        seq![Mask { bits: eight(b, at), group: two(b, at + 8) }] + masks_from(
            b,
            first,
            end,
            i + 1,
            n,
        )
    }
}

/// How many masks a record has: what it says, and at least one.
pub open spec fn mask_count(b: Seq<u8>, count_at: int, end: int) -> int {
    if count_at + 2 <= end && two(b, count_at) > 1 {
        two(b, count_at) as int
    } else {
        1
    }
}

/// The masks of the record from `rec` to `end`, whose count stands at
/// `rec + count` and which begin two bytes behind it.
pub open spec fn masks(b: Seq<u8>, rec: int, end: int, count: int) -> Seq<Mask> {
    masks_from(b, rec + count + 2, end, 0, mask_count(b, rec + count, end))
}

fn group_masks(b: &[u8], rec: usize, end: usize, count: usize) -> (v: Vec<Mask>)
    requires
        rec <= end <= b.len(),
        count <= 64,
    ensures
        v@ == masks(b@, rec as int, end as int, count as int),
{
    let room: usize = end - rec;
    let mut n: usize = 1;
    if count + 2 <= room {
        let c: u16 = u16_at(b, rec + count);
        if c > 1 {
            n = c as usize;
        }
    }
    let ghost whole = masks(b@, rec as int, end as int, count as int);
    let mut v: Vec<Mask> = Vec::new();
    let mut i: usize = 0;
    assert(v@ + whole =~= whole);
    while i < n
        invariant
            i <= n <= 65535,
            rec <= end <= b.len(),
            room == end - rec,
            count <= 64,
            whole == v@ + masks_from(b@, rec + count + 2, end as int, i as int, n as int),
            whole == masks(b@, rec as int, end as int, count as int),
        decreases n - i,
    {
        let ahead: usize = count + 2 + i * 16;
        if ahead + 10 > room {
            assert(v@ =~= whole);
            return v;
        }
        let at: usize = rec + ahead;
        let ghost rest = masks_from(b@, rec + count + 2, end as int, i + 1, n as int);
        let m = Mask { bits: u64_at(b, at), group: u16_at(b, at + 8) };
        assert(whole =~= v@.push(m) + rest);
        v.push(m);
        i += 1;
    }
    assert(v@ =~= whole);
    v
}

/// A core: its processors, and how efficient it is.
#[derive(Clone, Copy, Debug, PartialEq, Eq, Structural)]
pub struct Core {
    pub mask: Mask,
    pub class: u8,
}

/// A second-level cache: the processors that share it, and its size.
#[derive(Clone, Copy, Debug, PartialEq, Eq, Structural)]
pub struct L2 {
    pub mask: Mask,
    pub kib: u32,
}

/// What a buffer of processor information says.
pub struct Relations {
    pub cores: Seq<Core>,
    pub packages: Seq<Seq<Mask>>,
    pub l2: Seq<L2>,
    pub malformed: bool,
}

pub open spec fn cores_with(ms: Seq<Mask>, class: u8) -> Seq<Core> {
    Seq::new(ms.len(), |i: int| Core { mask: ms[i], class })
}

pub open spec fn caches_with(ms: Seq<Mask>, kib: u32) -> Seq<L2> {
    Seq::new(ms.len(), |i: int| L2 { mask: ms[i], kib })
}

/// What is known when the record from `off` to `end` has been read as well: a
/// core, a package, or a cache of the second level. Others are passed over.
pub open spec fn with_record(b: Seq<u8>, off: int, end: int, r: Relations) -> Relations {
    let rel = four(b, off);
    if rel == 0 {
        Relations { cores: r.cores + cores_with(masks(b, off, end, 30), byte(b, off + 9)), ..r }
    } else if rel == 3 {
        Relations { packages: r.packages.push(masks(b, off, end, 30)), ..r }
    } else if rel == 2 && byte(b, off + 8) == 2 {
        Relations {
            l2: r.l2 + caches_with(masks(b, off, end, 38), (four(b, off + 12) / 1024) as u32),
            ..r
        }
    } else {
        r
    }
}

/// What the records from `off` on add. A record that says it is shorter than
/// its own head, or longer than the buffer, ends the reading.
pub open spec fn read_from(b: Seq<u8>, off: int, r: Relations) -> Relations
    decreases b.len() - off,
{
    if off < 0 || off + 8 > b.len() {
        r
    } else {
        let size = four(b, off + 4);
        if size < 8 || off + size > b.len() {
            Relations { malformed: true, ..r }
        } else {
            read_from(b, off + size, with_record(b, off, off + size, r))
        }
    }
}

/// What a buffer of processor information says.
pub open spec fn relations(b: Seq<u8>) -> Relations {
    read_from(
        b,
        0,
        Relations {
            cores: Seq::empty(),
            packages: Seq::empty(),
            l2: Seq::empty(),
            malformed: false,
        },
    )
}

struct Found {
    cores: Vec<Core>,
    packages: Vec<Vec<Mask>>,
    l2: Vec<L2>,
    malformed: bool,
}

pub open spec fn mask_views(v: Seq<Vec<Mask>>) -> Seq<Seq<Mask>> {
    Seq::new(v.len(), |i: int| v[i]@)
}

impl Found {
    spec fn value(self) -> Relations {
        Relations {
            cores: self.cores@,
            packages: mask_views(self.packages@),
            l2: self.l2@,
            malformed: self.malformed,
        }
    }

    fn take_cores(&mut self, ms: &Vec<Mask>, class: u8)
        ensures
            final(self).value() == (Relations {
                cores: old(self).cores@ + cores_with(ms@, class),
                ..old(self).value()
            }),
    {
        let ghost before = self.cores@;
        let ghost add = cores_with(ms@, class);
        let mut i: usize = 0;
        assert(before + add.take(0) =~= before);
        while i < ms.len()
            invariant
                i <= ms.len(),
                add == cores_with(ms@, class),
                self.cores@ == before + add.take(i as int),
                self.packages == old(self).packages,
                self.l2 == old(self).l2,
                self.malformed == old(self).malformed,
            decreases ms.len() - i,
        {
            self.cores.push(Core { mask: ms[i], class });
            assert(before + add.take(i as int + 1) =~= (before + add.take(i as int)).push(
                add[i as int],
            ));
            i += 1;
        }
        assert(add.take(i as int) =~= add);
    }

    fn take_caches(&mut self, ms: &Vec<Mask>, kib: u32)
        ensures
            final(self).value() == (Relations {
                l2: old(self).l2@ + caches_with(ms@, kib),
                ..old(self).value()
            }),
    {
        let ghost before = self.l2@;
        let ghost add = caches_with(ms@, kib);
        let mut i: usize = 0;
        assert(before + add.take(0) =~= before);
        while i < ms.len()
            invariant
                i <= ms.len(),
                add == caches_with(ms@, kib),
                self.l2@ == before + add.take(i as int),
                self.packages == old(self).packages,
                self.cores == old(self).cores,
                self.malformed == old(self).malformed,
            decreases ms.len() - i,
        {
            self.l2.push(L2 { mask: ms[i], kib });
            assert(before + add.take(i as int + 1) =~= (before + add.take(i as int)).push(
                add[i as int],
            ));
            i += 1;
        }
        assert(add.take(i as int) =~= add);
    }

    fn record(&mut self, b: &[u8], off: usize, end: usize)
        requires
            off + 8 <= end <= b.len(),
        ensures
            final(self).value() == with_record(b@, off as int, end as int, old(self).value()),
    {
        let rel: u32 = u32_at(b, off);
        if rel == 0 {
            let ms = group_masks(b, off, end, 30);
            self.take_cores(&ms, byte_at(b, off.saturating_add(9)));
        } else if rel == 3 {
            let ms = group_masks(b, off, end, 30);
            let ghost before = mask_views(self.packages@);
            self.packages.push(ms);
            assert(mask_views(self.packages@) =~= before.push(ms@));
        } else if rel == 2 && byte_at(b, off + 8) == 2 {
            let ms = group_masks(b, off, end, 38);
            let kib: u32 = u32_at(b, off.saturating_add(12)) / 1024;
            self.take_caches(&ms, kib);
        }
    }
}

fn read_buffer(b: &[u8]) -> (f: Found)
    ensures
        f.value() == relations(b@),
{
    let mut f = Found {
        cores: Vec::new(),
        packages: Vec::new(),
        l2: Vec::new(),
        malformed: false,
    };
    assert(mask_views(f.packages@) =~= Seq::<Seq<Mask>>::empty());
    let mut off: usize = 0;
    while b.len() - off >= 8
        invariant_except_break
            relations(b@) == read_from(b@, off as int, f.value()),
        invariant
            off <= b.len(),
        ensures
            relations(b@) == f.value(),
        decreases b.len() - off,
    {
        let size: u32 = u32_at(b, off + 4);
        if size < 8 || size as usize > b.len() - off {
            f.malformed = true;
            break;
        }
        let end: usize = off + size as usize;
        f.record(b, off, end);
        off = end;
    }
    f
}

/// The first package from `i` on that has a processor of the core, or the
/// number of packages.
pub open spec fn package_at(ps: Seq<Seq<Mask>>, m: Mask, i: int) -> int
    decreases ps.len() - i,
{
    if i < 0 || i >= ps.len() {
        ps.len() as int
    } else if exists|k: int| 0 <= k < ps[i].len() && meets(#[trigger] ps[i][k], m) {
        i
    } else {
        package_at(ps, m, i + 1)
    }
}

/// The package of a core, or minus one where none is known.
pub open spec fn package_of(ps: Seq<Seq<Mask>>, m: Mask) -> i32 {
    let i = package_at(ps, m, 0);
    if i < ps.len() {
        i as usize as i32
    } else {
        (-1) as i32
    }
}

/// The first cache from `i` on that a processor of the core uses, or the
/// number of caches.
pub open spec fn cache_at(cs: Seq<L2>, m: Mask, i: int) -> int
    decreases cs.len() - i,
{
    if i < 0 || i >= cs.len() {
        cs.len() as int
    } else if meets(cs[i].mask, m) {
        i
    } else {
        cache_at(cs, m, i + 1)
    }
}

/// The cache that a core uses.
pub open spec fn cache_of(cs: Seq<L2>, m: Mask) -> Option<L2> {
    let i = cache_at(cs, m, 0);
    if 0 <= i < cs.len() {
        Some(cs[i])
    } else {
        None
    }
}

pub open spec fn has_bit(bits: u64, k: u64) -> bool {
    (bits >> k) & 1 != 0
}

/// How many of the lowest `n` bits are set.
pub open spec fn ones(bits: u64, n: nat) -> nat
    decreases n,
{
    if n == 0 {
        0
    } else {
        ones(bits, (n - 1) as nat) + (if has_bit(bits, (n - 1) as u64) {
            1nat
        } else {
            0
        })
    }
}

/// The processor at a bit of a core.
pub open spec fn cpu_at(r: Relations, i: int, bit: int) -> Cpu {
    let c = r.cores[i];
    let l2 = cache_of(r.l2, c.mask);
    Cpu {
        id: (c.mask.group * 64 + bit) as usize,
        group: c.mask.group,
        package: package_of(r.packages, c.mask),
        core: i as usize as i32,
        class: Some(c.class),
        l2_kib: match l2 {
            Some(l) => Some(l.kib),
            None => None,
        },
        l2_shared: match l2 {
            Some(l) => Some(ones(l.mask.bits, 64) as usize),
            None => None,
        },
    }
}

/// The processors of a core among its lowest `n` bits.
pub open spec fn core_cpus(r: Relations, i: int, n: nat) -> Seq<Cpu>
    decreases n,
{
    if n == 0 {
        Seq::empty()
    } else {
        let head = core_cpus(r, i, (n - 1) as nat);
        if has_bit(r.cores[i].mask.bits, (n - 1) as u64) {
            head.push(cpu_at(r, i, n - 1))
        } else {
            head
        }
    }
}

/// The processors of the first `n` cores.
pub open spec fn all_cpus(r: Relations, n: nat) -> Seq<Cpu>
    decreases n,
{
    if n == 0 {
        Seq::empty()
    } else {
        all_cpus(r, (n - 1) as nat) + core_cpus(r, n - 1, 64)
    }
}

/// Whether no two cores differ in their class.
pub open spec fn one_class(cs: Seq<Core>) -> bool {
    forall|i: int| 0 <= i < cs.len() ==> (#[trigger] cs[i]).class == cs[0].class
}

pub const MALFORMED_NOTE: &'static str =
    "the processor information buffer is malformed; stopped early";

pub const NO_PACKAGE_NOTE: &'static str =
    "Windows reported no package relations, so sockets are unknown";

pub const ONE_CLASS_NOTE: &'static str =
    "every core reports the same EfficiencyClass: either this part is uniform, or this Windows predates hybrid-core reporting";

pub open spec fn note_if(said: bool, t: Seq<char>) -> Seq<Seq<char>> {
    if said {
        seq![t]
    } else {
        Seq::empty()
    }
}

pub open spec fn note_views(v: Seq<String>) -> Seq<Seq<char>> {
    Seq::new(v.len(), |i: int| v[i]@)
}

/// What is said of the buffer beside the processors.
pub open spec fn windows_notes(r: Relations) -> Seq<Seq<char>> {
    note_if(r.malformed, MALFORMED_NOTE@) + note_if(r.packages.len() == 0, NO_PACKAGE_NOTE@)
        + note_if(one_class(r.cores), ONE_CLASS_NOTE@)
}

fn meet(a: Mask, b: Mask) -> (r: bool)
    ensures
        r == meets(a, b),
{
    a.group == b.group && a.bits & b.bits != 0
}

fn bit_of(bits: u64, k: u64) -> (r: bool)
    requires
        k < 64,
    ensures
        r == has_bit(bits, k),
{
    (bits >> k) & 1 != 0
}

fn count_ones(bits: u64) -> (n: usize)
    ensures
        n == ones(bits, 64),
{
    let mut n: usize = 0;
    let mut k: u64 = 0;
    while k < 64
        invariant
            k <= 64,
            n <= k,
            n == ones(bits, k as nat),
        decreases 64 - k,
    {
        if bit_of(bits, k) {
            n += 1;
        }
        k += 1;
    }
    n
}

impl Found {
    fn package(&self, m: Mask) -> (p: i32)
        ensures
            p == package_of(self.value().packages, m),
    {
        let ghost ps = self.value().packages;
        let mut i: usize = 0;
        while i < self.packages.len()
            invariant
                i <= self.packages.len(),
                ps == mask_views(self.packages@),
                package_at(ps, m, 0) == package_at(ps, m, i as int),
            decreases self.packages.len() - i,
        {
            let p = &self.packages[i];
            assert(ps[i as int] == p@);
            let mut k: usize = 0;
            while k < p.len()
                invariant
                    k <= p.len(),
                    i < self.packages.len(),
                    p@ == ps[i as int],
                    ps == mask_views(self.packages@),
                    package_at(ps, m, 0) == package_at(ps, m, i as int),
                    forall|j: int| 0 <= j < k ==> !meets(#[trigger] ps[i as int][j], m),
                decreases p.len() - k,
            {
                if meet(p[k], m) {
                    assert(meets(ps[i as int][k as int], m));
                    return #[verifier::truncate] (i as i32);
                }
                k += 1;
            }
            i += 1;
        }
        -1
    }

    fn cache(&self, m: Mask) -> (c: Option<L2>)
        ensures
            c == cache_of(self.l2@, m),
    {
        let mut i: usize = 0;
        while i < self.l2.len()
            invariant
                i <= self.l2.len(),
                cache_at(self.l2@, m, 0) == cache_at(self.l2@, m, i as int),
            decreases self.l2.len() - i,
        {
            if meet(self.l2[i].mask, m) {
                return Some(self.l2[i]);
            }
            i += 1;
        }
        None
    }

    fn push_core(&self, i: usize, cpus: &mut Vec<Cpu>)
        requires
            i < self.cores@.len(),
        ensures
            final(cpus)@ == old(cpus)@ + core_cpus(self.value(), i as int, 64),
    {
        let ghost r = self.value();
        let ghost before = cpus@;
        let c: Core = self.cores[i];
        let package: i32 = self.package(c.mask);
        let found = self.cache(c.mask);
        let l2_kib: Option<u32> = match found {
            Some(l) => Some(l.kib),
            None => None,
        };
        let l2_shared: Option<usize> = match found {
            Some(l) => Some(count_ones(l.mask.bits)),
            None => None,
        };
        let core: i32 = #[verifier::truncate] (i as i32);
        let mut bit: u64 = 0;
        assert(before + Seq::<Cpu>::empty() =~= before);
        while bit < 64
            invariant
                bit <= 64,
                i < self.cores@.len(),
                r == self.value(),
                c == r.cores[i as int],
                package == package_of(r.packages, c.mask),
                found == cache_of(r.l2, c.mask),
                l2_kib == (match found {
                    Some(l) => Some(l.kib),
                    None => None,
                }),
                found is Some <==> l2_shared is Some,
                l2_shared matches Some(n) ==> n == ones(found->Some_0.mask.bits, 64),
                core == i as i32,
                cpus@ == before + core_cpus(r, i as int, bit as nat),
            decreases 64 - bit,
        {
            if bit_of(c.mask.bits, bit) {
                let id: usize = c.mask.group as usize * 64 + bit as usize;
                let cpu = Cpu {
                    id,
                    group: c.mask.group,
                    package,
                    core,
                    class: Some(c.class),
                    l2_kib,
                    l2_shared,
                };
                let ghost head = core_cpus(r, i as int, bit as nat);
                assert(cpu == cpu_at(r, i as int, bit as int));
                cpus.push(cpu);
                assert(cpus@ =~= before + head.push(cpu));
            }
            bit += 1;
        }
    }

    fn uniform(&self) -> (r: bool)
        ensures
            r == one_class(self.cores@),
    {
        let mut i: usize = 0;
        while i < self.cores.len()
            invariant
                i <= self.cores.len(),
                forall|k: int|
                    0 <= k < i ==> (#[trigger] self.cores@[k]).class == self.cores@[0].class,
            decreases self.cores.len() - i,
        {
            if self.cores[i].class != self.cores[0].class {
                return false;
            }
            i += 1;
        }
        true
    }
}

fn note(v: &mut Vec<String>, said: bool, t: &str)
    ensures
        note_views(final(v)@) == note_views(old(v)@) + note_if(said, t@),
{
    let ghost before = note_views(v@);
    if said {
        v.push(t.to_owned());
    }
    assert(note_views(v@) =~= before + note_if(said, t@));
}

/// The topology that Windows gives in its buffer of processor information, or
/// why it gave none.
pub fn windows(model: String, info: Result<&[u8], &str>) -> (t: Topology)
    ensures
        t.model == model,
        t.source@ == "GetLogicalProcessorInformationEx"@,
        match info {
            Ok(b) => {
                let r = relations(b@);
                &&& t.cpus@ == all_cpus(r, r.cores.len())
                &&& note_views(t.notes@) == windows_notes(r)
            },
            Err(e) => {
                &&& t.cpus@.len() == 0
                &&& note_views(t.notes@) == seq![
                    "GetLogicalProcessorInformationEx failed: "@ + e@,
                ]
            },
        },
{
    let mut notes: Vec<String> = Vec::new();
    let mut cpus: Vec<Cpu> = Vec::new();
    assert(note_views(notes@) =~= Seq::<Seq<char>>::empty());
    match info {
        Ok(b) => {
            let f = read_buffer(b);
            let ghost r = relations(b@);
            let mut i: usize = 0;
            while i < f.cores.len()
                invariant
                    i <= f.cores.len(),
                    r == f.value(),
                    cpus@ == all_cpus(r, i as nat),
                decreases f.cores.len() - i,
            {
                f.push_core(i, &mut cpus);
                i += 1;
            }
            note(&mut notes, f.malformed, MALFORMED_NOTE);
            assert(mask_views(f.packages@).len() == f.packages@.len());
            note(&mut notes, f.packages.len() == 0, NO_PACKAGE_NOTE);
            note(&mut notes, f.uniform(), ONE_CLASS_NOTE);
            assert(note_views(notes@) =~= windows_notes(r));
        },
        Err(e) => {
            let mut m = "GetLogicalProcessorInformationEx failed: ".to_owned();
            m.append(e);
            notes.push(m);
            assert(note_views(notes@) =~= seq![
                "GetLogicalProcessorInformationEx failed: "@ + e@,
            ]);
        },
    }
    Topology { model, cpus, source: "GetLogicalProcessorInformationEx", notes }
}

// ---------------------------------------------------------------------------
// macOS

/// What macOS counts.
#[derive(Clone, Copy, Debug)]
pub struct Counts {
    pub logical: usize,
    pub physical: usize,
    pub packages: usize,
    pub l2_kib: Option<u32>,
    pub fast: Option<u64>,
    pub efficient: Option<u64>,
}

pub const MACOS_NOTE: &'static str =
    "macOS reports processor counts and no numbering: no API says which logical processor is which, and there is no affinity API to use one with. The core column above is arithmetic from hw.physicalcpu, not a reading - do not build a pin list from it.";

pub open spec fn at_least_one(n: usize) -> usize {
    if n == 0 {
        1
    } else {
        n
    }
}

/// How many processors a core has, by the counts.
pub open spec fn per_core(c: Counts) -> usize {
    if c.physical == 0 {
        1
    } else {
        at_least_one((at_least_one(c.logical) / c.physical) as usize)
    }
}

pub open spec fn macos_cpu(c: Counts, id: int) -> Cpu {
    Cpu {
        id: id as usize,
        group: 0,
        package: if c.packages <= 1 {
            0
        } else {
            (-1) as i32
        },
        core: (id as usize / per_core(c)) as i32,
        class: None,
        l2_kib: c.l2_kib,
        l2_shared: None,
    }
}

pub open spec fn levels_note(p: u64, e: u64) -> Seq<char> {
    "Apple Silicon performance levels: "@ + text::dec(p as nat)
        + " logical processors in the fast cluster and "@ + text::dec(e as nat)
        + " in the efficient one - countable, not selectable"@
}

pub open spec fn macos_notes(c: Counts) -> Seq<Seq<char>> {
    seq![MACOS_NOTE@] + (if c.fast is Some && c.efficient is Some {
        seq![levels_note(c.fast->Some_0, c.efficient->Some_0)]
    } else {
        Seq::empty()
    })
}

/// The topology that the counts of macOS give.
pub fn macos(model: String, c: &Counts) -> (t: Topology)
    ensures
        t.model == model,
        t.source@ == "sysctl"@,
        t.cpus@ == Seq::new(at_least_one(c.logical) as nat, |id: int| macos_cpu(*c, id)),
        note_views(t.notes@) == macos_notes(*c),
{
    let n: usize = if c.logical == 0 {
        1
    } else {
        c.logical
    };
    let mut per: usize = 1;
    if c.physical > 0 {
        per = n / c.physical;
        if per == 0 {
            per = 1;
        }
    }
    let package: i32 = if c.packages <= 1 {
        0
    } else {
        -1
    };
    let mut cpus: Vec<Cpu> = Vec::new();
    let mut id: usize = 0;
    let ghost all = Seq::new(at_least_one(c.logical) as nat, |id: int| macos_cpu(*c, id));
    assert(cpus@ =~= all.take(0));
    while id < n
        invariant
            id <= n,
            n == at_least_one(c.logical),
            per == per_core(*c),
            per > 0,
            package == (if c.packages <= 1 {
                0
            } else {
                (-1) as i32
            }),
            all == Seq::new(at_least_one(c.logical) as nat, |id: int| macos_cpu(*c, id)),
            cpus@ == all.take(id as int),
        decreases n - id,
    {
        let core: i32 = #[verifier::truncate] ((id / per) as i32);
        let cpu = Cpu {
            id,
            group: 0,
            package,
            core,
            class: None,
            l2_kib: c.l2_kib,
            l2_shared: None,
        };
        assert(cpu == all[id as int]);
        cpus.push(cpu);
        assert(all.take(id as int + 1) =~= all.take(id as int).push(all[id as int]));
        id += 1;
    }
    assert(all.take(id as int) =~= all);
    let mut notes: Vec<String> = Vec::new();
    assert(note_views(notes@) =~= Seq::<Seq<char>>::empty());
    note(&mut notes, true, MACOS_NOTE);
    match (c.fast, c.efficient) {
        (Some(p), Some(e)) => {
            let mut m = "Apple Silicon performance levels: ".to_owned();
            push_dec(&mut m, p);
            m.append(" logical processors in the fast cluster and ");
            push_dec(&mut m, e);
            m.append(" in the efficient one - countable, not selectable");
            note(&mut notes, true, m.as_str());
        },
        _ => {},
    }
    assert(note_views(notes@) =~= macos_notes(*c));
    Topology { model, cpus, source: "sysctl", notes }
}

/// The topology of a system that nothing reads.
pub fn unread(os: &str) -> (t: Topology)
    ensures
        t.model@.len() == 0,
        t.cpus@.len() == 0,
        t.source@ == "none"@,
        note_views(t.notes@) == seq![
            "no topology reader for "@ + os@
                + ", so --cpu-affinity cannot be checked against a real processor list here"@,
        ],
{
    let mut m = "no topology reader for ".to_owned();
    m.append(os);
    m.append(", so --cpu-affinity cannot be checked against a real processor list here");
    let mut notes: Vec<String> = Vec::new();
    assert(note_views(notes@) =~= Seq::<Seq<char>>::empty());
    note(&mut notes, true, m.as_str());
    let model = String::new();
    assert(note_views(notes@) =~= seq![m@]);
    Topology { model, cpus: Vec::new(), source: "none", notes }
}

// ---------------------------------------------------------------------------
// What a buffer and its masks say

/// Numbers in a buffer have their lowest byte first, and zeros behind its end.
pub proof fn law_numbers_have_their_lowest_byte_first(b: Seq<u8>, i: int)
    requires
        0 <= i,
        i + 8 <= b.len(),
    ensures
        two(b, i) == b[i] + 256 * b[i + 1],
        four(b, i) == b[i] + 256 * b[i + 1] + 65536 * b[i + 2] + 16777216 * b[i + 3],
        eight(b, i) == four(b, i) + 0x1_0000_0000 * four(b, i + 4),
        byte(b, b.len() as int) == 0,
{
}

/// Whether the record at `off` lies whole in the buffer.
pub open spec fn is_whole(b: Seq<u8>, off: int) -> bool {
    0 <= off && off + 8 <= b.len() && four(b, off + 4) >= 8 && off + four(b, off + 4) <= b.len()
}

/// A record that lies whole in the buffer is read by its kind, and then those
/// behind it; one that does not ends the reading, and that is noted.
pub proof fn law_records_are_read_by_their_kind(b: Seq<u8>, off: int, r: Relations)
    requires
        0 <= off,
        off + 8 <= b.len(),
    ensures
        !is_whole(b, off) ==> read_from(b, off, r) == (Relations { malformed: true, ..r }),
        is_whole(b, off) ==> ({
            let end = off + four(b, off + 4);
            let kind = four(b, off);
            let m = masks(b, off, end, 30);
            &&& kind == 3 ==> read_from(b, off, r) == read_from(
                b,
                end,
                (Relations { packages: r.packages.push(m), ..r }),
            )
            &&& kind != 0 && kind != 2 && kind != 3 ==> read_from(b, off, r) == read_from(b, end, r)
            &&& kind == 2 && byte(b, off + 8) != 2 ==> read_from(b, off, r) == read_from(b, end, r)
        }),
{
}

/// A core takes the class of its record and a cache its size in KiB, each for
/// every mask of the record.
pub proof fn law_a_record_speaks_for_its_masks(b: Seq<u8>, off: int, end: int, r: Relations, i: int)
    requires
        0 <= off,
    ensures
        ({
            let w = with_record(b, off, end, r);
            let m = masks(b, off, end, 30);
            let n = masks(b, off, end, 38);
            &&& four(b, off) == 0 ==> w.cores.len() == r.cores.len() + m.len() && (0 <= i < m.len()
                ==> w.cores[r.cores.len() + i].mask == m[i] && w.cores[r.cores.len() + i].class
                == byte(b, off + 9)) && w.l2 == r.l2 && w.packages == r.packages
            &&& four(b, off) == 2 && byte(b, off + 8) == 2 ==> w.l2.len() == r.l2.len() + n.len()
                && (0 <= i < n.len() ==> w.l2[r.l2.len() + i].mask == n[i] && w.l2[r.l2.len()
                + i].kib == four(b, off + 12) / 1024) && w.cores == r.cores && w.packages
                == r.packages
        }),
{
}

proof fn lemma_cache_at(cs: Seq<L2>, m: Mask, i: int, k: int)
    requires
        0 <= i <= k < cs.len(),
        meets(cs[k].mask, m),
        forall|j: int| i <= j < k ==> !meets((#[trigger] cs[j]).mask, m),
    ensures
        cache_at(cs, m, i) == k,
    decreases k - i,
{
    if i < k {
        assert(!meets(cs[i].mask, m));
        lemma_cache_at(cs, m, i + 1, k);
    }
}

/// A core uses the first cache that has one of its processors: they are of one
/// group and share a bit.
pub proof fn law_a_core_uses_the_first_cache_that_meets_it(cs: Seq<L2>, m: Mask, k: int)
    requires
        0 <= k < cs.len(),
        cs[k].mask.group == m.group,
        cs[k].mask.bits & m.bits != 0,
        forall|j: int|
            0 <= j < k ==> (#[trigger] cs[j]).mask.group != m.group || cs[j].mask.bits & m.bits == 0,
    ensures
        cache_of(cs, m) == Some(cs[k]),
{
    assert forall|j: int| 0 <= j < k implies !meets((#[trigger] cs[j]).mask, m) by {
        assert(cs[j].mask.group != m.group || cs[j].mask.bits & m.bits == 0);
    }
    lemma_cache_at(cs, m, 0, k);
}

/// A core has a processor for each bit that is set in its mask, in their order,
/// numbered by the bit and sixty-four for each group before its own.
pub proof fn law_a_core_has_a_processor_for_each_bit(r: Relations, i: int, n: nat)
    requires
        0 <= i < r.cores.len(),
        n < 64,
    ensures
        core_cpus(r, i, 0).len() == 0,
        has_bit(r.cores[i].mask.bits, n as u64) ==> core_cpus(r, i, n + 1) == core_cpus(
            r,
            i,
            n,
        ).push(cpu_at(r, i, n as int)) && cpu_at(r, i, n as int).id == r.cores[i].mask.group * 64
            + n && cpu_at(r, i, n as int).class == Some(r.cores[i].class),
        !has_bit(r.cores[i].mask.bits, n as u64) ==> core_cpus(r, i, n + 1) == core_cpus(r, i, n),
        core_cpus(r, i, n).len() == ones(r.cores[i].mask.bits, n),
    decreases n,
{
    if n > 0 {
        law_a_core_has_a_processor_for_each_bit(r, i, (n - 1) as nat);
    }
}

} // verus!
