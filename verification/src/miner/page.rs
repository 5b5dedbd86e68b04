//! The region that native code is written to and run from: where its slots lie,
//! and what the system says of its protection. A region is writable or
//! executable, never both; this is how a program can tell.

use vstd::prelude::*;
use crate::miner::worker::BATCH;
use crate::text;
use crate::text::{find, number_of, part, push_hex_pad, split, string_of, to_chars, white};

verus! {

/// The bytes of one slot.
pub const SLOT_BYTES: usize = 16_384;

/// The bytes of the region.
pub const REGION_BYTES: usize = SLOT_BYTES * BATCH;

/// What the system says of the protection of a region, if it says anything.
#[derive(Debug, Clone)]
pub struct Protection {
    pub writable: Option<bool>,
    pub executable: Option<bool>,
    pub raw: String,
}

/// How far into the region a slot begins.
pub fn slot_offset(slot: usize) -> (r: usize)
    requires
        slot < BATCH,
    ensures
        r == slot * SLOT_BYTES,
        r + SLOT_BYTES <= REGION_BYTES,
{
    slot * SLOT_BYTES
}

/// The index of the first white space at or behind `i`, or the length.
pub open spec fn word_end(s: Seq<char>, i: int) -> int
    decreases s.len() - i,
{
    if 0 <= i < s.len() && !text::is_white(s[i]) {
        word_end(s, i + 1)
    } else {
        i
    }
}

/// The first word of a text; nothing where there is none.
pub open spec fn first_word(s: Seq<char>) -> Seq<char> {
    let a = text::white_end(s, 0);
    s.subrange(a, word_end(s, a))
}

fn word_of(v: &[char]) -> (r: Vec<char>)
    ensures
        r@ == first_word(v@),
{
    let mut a: usize = 0;
    while a < v.len() && white(v[a])
        invariant
            a <= v.len(),
            text::white_end(v@, 0) == text::white_end(v@, a as int),
        decreases v.len() - a,
    {
        a += 1;
    }
    let mut b: usize = a;
    while b < v.len() && !white(v[b])
        invariant
            a <= b <= v.len(),
            word_end(v@, a as int) == word_end(v@, b as int),
        decreases v.len() - b,
    {
        b += 1;
    }
    part(v, a, b)
}

/// The range of a mapping, and what stands behind it: the first and the second
/// part of a line of `/proc/self/maps`.
pub open spec fn range_of(line: Seq<char>) -> Option<(nat, nat)> {
    let r = text::before(line, ' ');
    if text::has(line, ' ') && text::has(r, '-') {
        match (
            text::number_in(text::before(r, '-'), 16, usize::MAX as nat),
            text::number_in(text::behind(r, '-'), 16, usize::MAX as nat),
        ) {
            (Some(lo), Some(hi)) => Some((lo, hi)),
            _ => None,
        }
    } else {
        None
    }
}

/// Whether the mapping of a line holds an address.
pub open spec fn covers(line: Seq<char>, addr: nat) -> bool {
    range_of(line) matches Some((lo, hi)) && lo <= addr < hi
}

/// The first line from `i` on whose mapping holds an address.
pub open spec fn line_of(lines: Seq<Seq<char>>, addr: nat, i: int) -> int
    decreases lines.len() - i,
{
    if 0 <= i < lines.len() && !covers(lines[i], addr) {
        line_of(lines, addr, i + 1)
    } else {
        i
    }
}

fn read_range(line: &Vec<char>) -> (r: Option<(usize, usize, usize)>)
    ensures
        r is Some <==> range_of(line@) is Some,
        r matches Some((lo, hi, sp)) ==> range_of(line@) == Some((lo as nat, hi as nat)) && sp
            == text::index(line@, ' ', 0) && sp < line@.len(),
{
    let sp: usize = find(line, ' ', 0);
    if sp >= line.len() {
        return None;
    }
    let range = part(line, 0, sp);
    assert(range@ =~= text::before(line@, ' '));
    let d: usize = find(&range, '-', 0);
    if d >= range.len() {
        return None;
    }
    let a = part(&range, 0, d);
    assert(a@ =~= text::before(range@, '-'));
    let b = part(&range, d + 1, range.len());
    assert(b@ =~= text::behind(range@, '-'));
    match (number_of(&a, 16, usize::MAX as u64), number_of(&b, 16, usize::MAX as u64)) {
        (Some(lo), Some(hi)) => Some((lo as usize, hi as usize, sp)),
        _ => None,
    }
}

/// Whether `p` is what the system's list of mappings says of an address.
pub open spec fn is_protection(p: Protection, maps: Option<&str>, addr: usize) -> bool {
    match maps {
        None => p.writable is None && p.executable is None && p.raw@
            == "no /proc/self/maps on this platform"@,
        Some(m) => {
            let ls = text::pieces(m@, '\n');
            let i = line_of(ls, addr as nat, 0);
            let perms = first_word(text::behind(ls[i], ' '));
            if i < ls.len() {
                &&& p.writable == Some(text::has(perms, 'w'))
                &&& p.executable == Some(text::has(perms, 'x'))
                &&& p.raw@ == text::before(ls[i], ' ') + " "@ + perms
            } else {
                &&& p.writable is None
                &&& p.executable is None
                &&& p.raw@ == "address 0x"@ + text::hex_pad(addr as nat, 1)
                    + " not found in /proc/self/maps"@
            }
        },
    }
}

/// What the text of `/proc/self/maps` says of the mapping that holds an
/// address. Where the file cannot be read, or no mapping holds the address,
/// nothing is claimed.
pub fn query(maps: Option<&str>, addr: usize) -> (p: Protection)
    ensures
        is_protection(p, maps, addr),
{
    let m = match maps {
        Some(m) => m,
        None => {
            return Protection {
                writable: None,
                executable: None,
                raw: "no /proc/self/maps on this platform".to_owned(),
            };
        },
    };
    let ls = split(&to_chars(m), '\n');
    let ghost qs = text::pieces(m@, '\n');
    let mut i: usize = 0;
    while i < ls.len()
        invariant
            i <= ls.len(),
            maps == Some(m),
            qs == text::pieces(m@, '\n'),
            text::views(ls@) == qs,
            qs.len() == ls@.len(),
            line_of(qs, addr as nat, 0) == line_of(qs, addr as nat, i as int),
        decreases ls.len() - i,
    {
        let l: &Vec<char> = &ls[i];
        assert(qs[i as int] == l@);
        match read_range(l) {
            Some((lo, hi, sp)) => {
                if addr >= lo && addr < hi {
                    let range = part(l, 0, sp);
                    assert(range@ =~= text::before(l@, ' '));
                    let rest = part(l, sp + 1, l.len());
                    assert(rest@ =~= text::behind(l@, ' '));
                    let perms = word_of(&rest);
                    let mut raw = string_of(&range);
                    raw.append(" ");
                    raw.append(&string_of(&perms));
                    return Protection {
                        writable: Some(find(&perms, 'w', 0) < perms.len()),
                        executable: Some(find(&perms, 'x', 0) < perms.len()),
                        raw,
                    };
                }
            },
            None => {},
        }
        i += 1;
    }
    let mut raw = "address 0x".to_owned();
    push_hex_pad(&mut raw, addr as u64, 1);
    raw.append(" not found in /proc/self/maps");
    Protection { writable: None, executable: None, raw }
}

// ---------------------------------------------------------------------------
// The two states of the region

/// Memory of the system for native code.
#[derive(Debug, PartialEq, Eq, Structural)]
pub struct Region {
    pub addr: usize,
    pub len: usize,
}

/// What the system is asked for: that a region can be run and not written, or
/// written and not run.
#[derive(Debug, Clone, Copy, PartialEq, Eq, Structural)]
pub struct Change {
    pub addr: usize,
    pub len: usize,
    pub writable: bool,
    pub executable: bool,
}

/// A region that is written. What is written here cannot be run.
#[derive(Debug)]
pub struct CodeW {
    region: Region,
}

/// A region that is run. What is run here cannot be written.
#[derive(Debug)]
pub struct CodeX {
    region: Region,
}

impl CodeW {
    pub closed spec fn region(&self) -> Region {
        self.region
    }

    /// The region that the system has reserved at an address, if it has.
    pub fn new(reserved: Result<usize, String>) -> (r: Result<CodeW, String>)
        ensures
            match reserved {
                Ok(addr) => r matches Ok(c) && c.region() == (Region { addr, len: REGION_BYTES }),
                Err(e) => r == Err::<CodeW, String>(e),
            },
    {
        match reserved {
            Ok(addr) => Ok(CodeW { region: Region { addr, len: REGION_BYTES } }),
            Err(e) => Err(e),
        }
    }

    /// What sealing asks of the system: one change for the whole region, so that
    /// its cost is shared by every slot.
    pub fn sealing(&self) -> (c: Change)
        ensures
            c == asked(self.region(), true),
    {
        Change {
            addr: self.region.addr,
            len: self.region.len,
            writable: false,
            executable: true,
        }
    }

    /// The region once the system has answered: to be run, or to be released.
    pub fn seal(self, answer: Result<(), String>) -> (r: Result<CodeX, (String, Region)>)
        ensures
            match answer {
                Ok(_) => r matches Ok(x) && x.region() == self.region(),
                Err(e) => r == Err::<CodeX, (String, Region)>((e, self.region())),
            },
    {
        match answer {
            Ok(_) => Ok(CodeX { region: self.region }),
            Err(e) => Err((e, self.region)),
        }
    }

    /// What the system says of the region.
    pub fn protection(&self, maps: Option<&str>) -> (p: Protection)
        ensures
            is_protection(p, maps, self.region().addr),
    {
        query(maps, self.region.addr)
    }
}

impl CodeX {
    pub closed spec fn region(&self) -> Region {
        self.region
    }

    /// What unsealing asks of the system.
    pub fn unsealing(&self) -> (c: Change)
        ensures
            c == asked(self.region(), false),
    {
        Change {
            addr: self.region.addr,
            len: self.region.len,
            writable: true,
            executable: false,
        }
    }

    /// The region once the system has answered: to be written, or to be
    /// released.
    pub fn unseal(self, answer: Result<(), String>) -> (r: Result<CodeW, (String, Region)>)
        ensures
            match answer {
                Ok(_) => r matches Ok(w) && w.region() == self.region(),
                Err(e) => r == Err::<CodeW, (String, Region)>((e, self.region())),
            },
    {
        match answer {
            Ok(_) => Ok(CodeW { region: self.region }),
            Err(e) => Err((e, self.region)),
        }
    }

    /// What the system says of the region.
    pub fn protection(&self, maps: Option<&str>) -> (p: Protection)
        ensures
            is_protection(p, maps, self.region().addr),
    {
        query(maps, self.region.addr)
    }
}

/// The change that makes a region run, or written.
pub open spec fn asked(r: Region, run: bool) -> Change {
    Change { addr: r.addr, len: r.len, writable: !run, executable: run }
}

/// No change asks for memory that is both written and run.
pub proof fn law_never_written_and_run(r: Region, run: bool)
    ensures
        !(asked(r, run).writable && asked(r, run).executable),
{
}

/// Slots lie one behind another without a gap, and all of them in the region.
pub proof fn law_slots_do_not_overlap(i: usize, j: usize, a: usize, b: usize)
    requires
        i < j < BATCH,
        call_ensures(slot_offset, (i,), a),
        call_ensures(slot_offset, (j,), b),
    ensures
        a + 16_384 <= b,
        j == i + 1 ==> a + 16_384 == b,
        b + 16_384 <= 524_288,
{
}

/// Sealing asks for memory that is run and not written, unsealing for memory that
/// is written and not run, both for the whole region; and a refusal gives the
/// region back to be released.
pub proof fn law_sealing_changes_the_whole_region(w: &CodeW, x: &CodeX, s: Change, u: Change)
    requires
        call_ensures(CodeW::sealing, (w,), s),
        call_ensures(CodeX::unsealing, (x,), u),
    ensures
        s.executable && !s.writable && s.addr == w.region().addr && s.len == w.region().len,
        u.writable && !u.executable && u.addr == x.region().addr && u.len == x.region().len,
{
}

proof fn lemma_line_of(lines: Seq<Seq<char>>, addr: nat, i: int)
    requires
        0 <= i <= lines.len(),
    ensures
        i <= line_of(lines, addr, i) <= lines.len(),
        line_of(lines, addr, i) < lines.len() ==> covers(lines[line_of(lines, addr, i)], addr),
        forall|k: int| i <= k < line_of(lines, addr, i) ==> !covers(#[trigger] lines[k], addr),
    decreases lines.len() - i,
{
    if i < lines.len() && !covers(lines[i], addr) {
        lemma_line_of(lines, addr, i + 1);
    }
}

/// The protection of an address is claimed exactly where some mapping holds it,
/// and is that of the first that does.
pub proof fn law_protection_is_that_of_the_first_mapping(
    m: &str,
    addr: usize,
    p: Protection,
    i: int,
)
    requires
        call_ensures(query, (Some(m), addr), p),
    ensures
        ({
            let ls = text::pieces(m@, '\n');
            &&& p.writable is Some <==> exists|k: int|
                0 <= k < ls.len() && covers(#[trigger] ls[k], addr as nat)
            &&& p.writable is Some <==> p.executable is Some
            &&& 0 <= i < ls.len() && covers(ls[i], addr as nat) && (forall|k: int|
                0 <= k < i ==> !covers(#[trigger] ls[k], addr as nat)) ==> p.writable == Some(
                text::has(first_word(text::behind(ls[i], ' ')), 'w'),
            ) && p.executable == Some(text::has(first_word(text::behind(ls[i], ' ')), 'x'))
        }),
{
    let ls = text::pieces(m@, '\n');
    lemma_line_of(ls, addr as nat, 0);
    let n = line_of(ls, addr as nat, 0);
    if n < ls.len() {
        assert(covers(ls[n], addr as nat));
    }
    if 0 <= i < ls.len() && covers(ls[i], addr as nat) && (forall|k: int|
        0 <= k < i ==> !covers(#[trigger] ls[k], addr as nat)) {
        if n < i {
            assert(!covers(ls[n], addr as nat));
        }
    }
}

} // verus!
