//! How many nonces one seal of the code region covers.
//!
//! A worker fills every scratchpad of a batch before it runs the first
//! program, so the working set of the fill is the batch times 64 KiB. Where
//! that outgrows the thread's share of the second-level cache, every pad is
//! evicted before its program runs. Keeping the batch inside that share is
//! worth more than sealing less often.

use vstd::prelude::*;
use crate::miner::topo;
use crate::miner::topo::{Cpu, Topology};
use crate::miner::worker::BATCH;
use crate::text;
use crate::text::push_dec;

verus! {

/// Never seal for fewer than this: a seal is a system call.
pub const MIN_BATCH: usize = 2;

/// The batch where the size of the cache is not known. Guessing high is the
/// worse mistake.
pub const UNKNOWN_L2_BATCH: usize = 8;

/// The bytes of a scratchpad.
pub const PAD_BYTES: usize = 65_536;

/// A batch, and why it is that one.
#[derive(Debug, Clone, PartialEq, Eq)]
pub struct Choice {
    pub batch: usize,
    pub why: String,
}

/// The first processor from `i` on whose second-level cache is known.
pub open spec fn with_l2(cpus: Seq<Cpu>, i: int) -> int
    decreases cpus.len() - i,
{
    if 0 <= i < cpus.len() && cpus[i].l2_kib is None {
        with_l2(cpus, i + 1)
    } else {
        i
    }
}

/// How many threads share a second-level cache: as the platform says; where it
/// does not, as many as the largest core has; where that is not known, one.
pub open spec fn sharers(cpus: Seq<Cpu>, c: Cpu) -> nat {
    match c.l2_shared {
        Some(n) => if n >= 1 {
            n as nat
        } else {
            siblings(cpus)
        },
        None => siblings(cpus),
    }
}

pub open spec fn siblings(cpus: Seq<Cpu>) -> nat {
    if cpus.len() > 0 && topo::cores_known(cpus) && topo::deepest(topo::groups(cpus)) >= 1 {
        topo::deepest(topo::groups(cpus))
    } else {
        1
    }
}

/// The bytes of second-level cache that each thread can count on.
pub open spec fn l2_share(cpus: Seq<Cpu>) -> Option<nat> {
    let i = with_l2(cpus, 0);
    if i < cpus.len() {
        Some((cpus[i].l2_kib->Some_0 as nat * 1024) / sharers(cpus, cpus[i]))
    } else {
        None
    }
}

/// How many pads half of that holds, within what a seal can cover.
pub open spec fn fitting(share: nat) -> nat {
    let n = share / 2 / 65536;
    if n < MIN_BATCH {
        MIN_BATCH as nat
    } else if n > BATCH {
        BATCH as nat
    } else {
        n
    }
}

/// The batch that the machine calls for.
pub open spec fn auto_batch(cpus: Seq<Cpu>) -> nat {
    match l2_share(cpus) {
        Some(s) => fitting(s),
        None => UNKNOWN_L2_BATCH as nat,
    }
}

/// Why it is that batch.
pub open spec fn auto_why(cpus: Seq<Cpu>, source: Seq<char>) -> Seq<char> {
    match l2_share(cpus) {
        Some(s) => "L2 gives "@ + text::dec(s / 1024) + " KiB per thread, so "@ + text::dec(
            fitting(s),
        ) + " pads ("@ + text::dec(fitting(s) * 64) + " KiB) keep the fill inside it"@,
        None => "this machine does not report its L2 size ("@ + source
            + "), so the batch falls back to 8; pass --batch N to set it from a measurement"@,
    }
}

fn l2_per_thread(t: &Topology) -> (r: Option<u64>)
    ensures
        r is Some <==> l2_share(t.cpus@) is Some,
        r matches Some(n) ==> l2_share(t.cpus@) == Some(n as nat) && n <= u32::MAX * 1024,
{
    let mut i: usize = 0;
    while i < t.cpus.len() && t.cpus[i].l2_kib.is_none()
        invariant
            i <= t.cpus.len(),
            with_l2(t.cpus@, 0) == with_l2(t.cpus@, i as int),
        decreases t.cpus.len() - i,
    {
        i += 1;
    }
    if i >= t.cpus.len() {
        return None;
    }
    let c: &Cpu = &t.cpus[i];
    let kib: u32 = match c.l2_kib {
        Some(k) => k,
        None => 0,
    };
    let named: usize = match c.l2_shared {
        Some(n) => n,
        None => 0,
    };
    let n: usize = if named >= 1 {
        named
    } else {
        match t.cores() {
            Some(gs) => {
                let d: usize = topo::depth_of(&gs);
                if d >= 1 {
                    d
                } else {
                    1
                }
            },
            None => 1,
        }
    };
    let all: u64 = kib as u64 * 1024;
    assert(n == sharers(t.cpus@, *c));
    assert(all / (n as u64) <= all) by (nonlinear_arith)
        requires
            n >= 1,
    ;
    Some(all / n as u64)
}

/// The batch that the machine calls for. `threads` plays no part: which caches
/// would go unshared with fewer workers cannot be known.
pub fn auto(t: &Topology, threads: usize) -> (c: Choice)
    ensures
        c.batch == auto_batch(t.cpus@),
        c.why@ == auto_why(t.cpus@, t.source@),
{
    let _ = threads;
    match l2_per_thread(t) {
        None => {
            let mut why = "this machine does not report its L2 size (".to_owned();
            why.append(t.source);
            why.append(
                "), so the batch falls back to 8; pass --batch N to set it from a measurement",
            );
            Choice { batch: UNKNOWN_L2_BATCH, why }
        },
        Some(share) => {
            let n: u64 = share / 2 / 65536;
            let batch: usize = if n < MIN_BATCH as u64 {
                MIN_BATCH
            } else if n > BATCH as u64 {
                BATCH
            } else {
                n as usize
            };
            let mut why = "L2 gives ".to_owned();
            push_dec(&mut why, share / 1024);
            why.append(" KiB per thread, so ");
            push_dec(&mut why, batch as u64);
            why.append(" pads (");
            push_dec(&mut why, batch as u64 * 64);
            why.append(" KiB) keep the fill inside it");
            Choice { batch, why }
        },
    }
}

/// Refuses a batch that a seal cannot cover.
pub fn check(n: usize) -> (r: Result<usize, String>)
    ensures
        r is Ok <==> 1 <= n <= BATCH,
        r matches Ok(m) ==> m == n,
        r matches Err(e) ==> e@ == (if n == 0 {
            "--batch needs at least 1"@
        } else {
            "--batch "@ + text::dec(n as nat)
                + " exceeds the 32-slot code region; the region is mapped once at a fixed size, so 32 is the ceiling"@
        }),
{
    if n == 0 {
        return Err("--batch needs at least 1".to_owned());
    }
    if n > BATCH {
        let mut e = "--batch ".to_owned();
        push_dec(&mut e, n as u64);
        e.append(
            " exceeds the 32-slot code region; the region is mapped once at a fixed size, so 32 is the ceiling",
        );
        return Err(e);
    }
    Ok(n)
}

/// Whatever the machine, the batch chosen for it is one that may be asked for.
pub proof fn law_the_choice_is_legal(cpus: Seq<Cpu>)
    ensures
        MIN_BATCH <= auto_batch(cpus) <= BATCH,
{
}

/// More cache for each thread never makes the batch smaller.
pub proof fn law_more_cache_is_no_smaller_batch(a: nat, b: nat)
    requires
        a <= b,
    ensures
        fitting(a) <= fitting(b),
{
}

/// The batch is the most pads that fill no more than half of what each thread has
/// of the first second-level cache that is known, where that is a batch from two
/// to thirty-two: fewer than two are made two, and more than thirty-two are cut.
pub proof fn law_a_batch_fills_half_of_the_share(t: &Topology, threads: usize, c: Choice, i: int, n: nat)
    requires
        call_ensures(auto, (t, threads), c),
        0 <= i < t.cpus@.len(),
        t.cpus@[i].l2_kib is Some,
        forall|k: int| 0 <= k < i ==> (#[trigger] t.cpus@[k]).l2_kib is None,
        n >= 1,
        t.cpus@[i].l2_shared matches Some(m) && m == n || !(t.cpus@[i].l2_shared matches Some(m)
            && m >= 1) && siblings(t.cpus@) == n,
    ensures
        2 <= c.batch <= 32,
        c.batch == 2 || c.batch * 65536 * 2 * n <= t.cpus@[i].l2_kib->Some_0 * 1024,
        c.batch == 32 || (c.batch + 1) * 65536 * 2 * n > t.cpus@[i].l2_kib->Some_0 * 1024,
{
    lemma_with_l2(t.cpus@, 0, i);
    let all = t.cpus@[i].l2_kib->Some_0 as nat * 1024;
    let s = all / n;
    let q = s / 2 / 65536;
    let b = c.batch as int;
    assert(b == fitting(s));
    vstd::arithmetic::div_mod::lemma_fundamental_div_mod(all as int, n as int);
    let r = all as int % n as int;
    assert(s * n <= all < (s + 1) * n) by (nonlinear_arith)
        requires
            all == n * s + r,
            0 <= r < n,
    ;
    assert(q * 131072 <= s < (q + 1) * 131072);
    assert(b <= q ==> b * 65536 * 2 * n <= all) by (nonlinear_arith)
        requires
            q * 131072 <= s,
            s * n <= all,
            n >= 1,
            b >= 0,
    ;
    assert(b >= q ==> (b + 1) * 65536 * 2 * n > all) by (nonlinear_arith)
        requires
            s + 1 <= (q + 1) * 131072,
            all < (s + 1) * n,
            n >= 1,
    ;
}

proof fn lemma_with_l2(cpus: Seq<Cpu>, i: int, k: int)
    requires
        0 <= i <= k < cpus.len(),
        cpus[k].l2_kib is Some,
        forall|j: int| i <= j < k ==> (#[trigger] cpus[j]).l2_kib is None,
    ensures
        with_l2(cpus, i) == k,
    decreases k - i,
{
    if i < k {
        assert(cpus[i].l2_kib is None);
        lemma_with_l2(cpus, i + 1, k);
    }
}

proof fn lemma_without_l2(cpus: Seq<Cpu>, i: int)
    requires
        0 <= i <= cpus.len(),
        forall|j: int| 0 <= j < cpus.len() ==> (#[trigger] cpus[j]).l2_kib is None,
    ensures
        with_l2(cpus, i) == cpus.len(),
    decreases cpus.len() - i,
{
    if i < cpus.len() {
        assert(cpus[i].l2_kib is None);
        lemma_without_l2(cpus, i + 1);
    }
}

/// Where no processor tells its cache the batch is eight.
pub proof fn law_an_unknown_cache_is_a_batch_of_eight(t: &Topology, threads: usize, c: Choice)
    requires
        call_ensures(auto, (t, threads), c),
        forall|j: int| 0 <= j < t.cpus@.len() ==> (#[trigger] t.cpus@[j]).l2_kib is None,
    ensures
        c.batch == 8,
{
    lemma_without_l2(t.cpus@, 0);
}

proof fn lemma_deepest(gs: Seq<Seq<usize>>, i: int)
    ensures
        0 <= i < gs.len() ==> gs[i].len() <= topo::deepest(gs),
        gs.len() > 0 ==> exists|k: int| 0 <= k < gs.len() && (#[trigger] gs[k]).len()
            == topo::deepest(gs),
    decreases gs.len(),
{
    if gs.len() > 0 {
        let t = gs.drop_last();
        lemma_deepest(t, i);
        if gs.last().len() > topo::deepest(t) {
            assert(gs[gs.len() - 1].len() == topo::deepest(gs));
        } else if t.len() > 0 {
            let k = choose|k: int| 0 <= k < t.len() && (#[trigger] t[k]).len() == topo::deepest(t);
            assert(gs[k].len() == topo::deepest(gs));
        } else {
            assert(gs[0].len() == topo::deepest(gs));
        }
    }
}

/// Where the platform does not say how many share a cache, as many do as the
/// largest core has processors; where the cores are not known, one.
pub proof fn law_siblings_are_the_largest_core(cpus: Seq<Cpu>, i: int)
    ensures
        siblings(cpus) >= 1,
        cpus.len() == 0 || !topo::cores_known(cpus) ==> siblings(cpus) == 1,
        cpus.len() > 0 && topo::cores_known(cpus) && 0 <= i < topo::groups(cpus).len()
            ==> topo::groups(cpus)[i].len() <= siblings(cpus),
        siblings(cpus) > 1 ==> exists|k: int|
            0 <= k < topo::groups(cpus).len() && (#[trigger] topo::groups(cpus)[k]).len()
                == siblings(cpus),
{
    lemma_deepest(topo::groups(cpus), i);
}

/// A batch that is asked for is taken as it is, from one to thirty-two.
pub proof fn law_a_legal_batch_is_taken(n: usize, r: Result<usize, String>)
    requires
        call_ensures(check, (n,), r),
    ensures
        r is Ok <==> 1 <= n <= 32,
        r matches Ok(m) ==> m == n,
{
}

} // verus!
