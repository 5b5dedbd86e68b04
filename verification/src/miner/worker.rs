//! What a worker tries and what it reports: batches of nonces, the shares among
//! their hashes, and the lines that tell how fast it goes. Times are in
//! milliseconds.

use vstd::prelude::*;
use crate::miner::work;
use crate::miner::work::{
    assemble, compose_in, lane_x, JobView, Shared, Solution, HEADER_BYTES, PREFIX_BYTES, X_BITS,
    X_BITS_MIN,
};
use crate::miner::ladder::Report;
use crate::text;
use crate::text::{push_dec, push_dec_pad, push_hex_pad};

verus! {

/// How many nonces are hashed at once.
pub const BATCH: usize = 32;

// ---------------------------------------------------------------------------
// Hashes against targets

/// The number that bytes denote, the highest first.
pub open spec fn be_number(s: Seq<u8>) -> nat
    decreases s.len(),
{
    if s.len() == 0 {
        0
    } else {
        be_number(s.drop_last()) * 256 + s.last() as nat
    }
}

proof fn lemma_prefix_decides(a: Seq<u8>, b: Seq<u8>, k: int)
    requires
        a.len() == b.len(),
        0 <= k <= a.len(),
        be_number(a.take(k)) < be_number(b.take(k)),
    ensures
        be_number(a) < be_number(b),
    decreases a.len() - k,
{
    if k == a.len() {
        assert(a.take(k) =~= a);
        assert(b.take(k) =~= b);
    } else {
        assert(a.take(k + 1).drop_last() =~= a.take(k));
        assert(b.take(k + 1).drop_last() =~= b.take(k));
        lemma_prefix_decides(a, b, k + 1);
    }
}

/// Whether a hash meets a target: as numbers, it is not above it.
pub fn meets(hash: &[u8; 32], target: &[u8; 32]) -> (r: bool)
    ensures
        r == (be_number(hash@) <= be_number(target@)),
{
    let mut i: usize = 0;
    while i < 32
        invariant
            i <= 32,
            hash@.len() == 32,
            target@.len() == 32,
            be_number(hash@.take(i as int)) == be_number(target@.take(i as int)),
        decreases 32 - i,
    {
        proof {
            assert(hash@.take(i + 1).drop_last() =~= hash@.take(i as int));
            assert(target@.take(i + 1).drop_last() =~= target@.take(i as int));
        }
        if hash[i] < target[i] {
            proof {
                lemma_prefix_decides(hash@, target@, i + 1);
            }
            return true;
        }
        if hash[i] > target[i] {
            proof {
                lemma_prefix_decides(target@, hash@, i + 1);
            }
            return false;
        }
        i += 1;
    }
    assert(hash@.take(32) =~= hash@);
    assert(target@.take(32) =~= target@);
    true
}

// ---------------------------------------------------------------------------
// A worker's batches

/// The counter of a worker `k` nonces further on.
pub open spec fn counter_after(counter: u64, k: int) -> u64 {
    ((counter + k) % 0x1_0000_0000_0000_0000) as u64
}

/// The nonce that worker `index` tries when its counter stands at `counter`.
pub open spec fn nonce_at(index: u64, counter: u64, e1: u32, x_bits: u32) -> u64 {
    work::nonce_of(e1, work::lane_of(index, counter, x_bits), x_bits)
}

/// A worker: its lane, where its counter stands, the slice it was started
/// with, and the job it is on.
pub struct Worker {
    pub index: u64,
    pub counter: u64,
    pub e1: u32,
    pub x_bits: u32,
    pub seen: u64,
    pub job: Option<JobView>,
}

/// The job of a worker, as a mathematical value.
pub open spec fn work_of(job: Option<JobView>) -> Option<work::Work> {
    match job {
        Some(j) => Some(j@),
        None => None,
    }
}

impl Worker {
    pub open spec fn wf(self) -> bool {
        X_BITS_MIN <= self.x_bits <= X_BITS
    }

    /// A worker that has not looked for a job yet. Its slice is the one that is
    /// set when it starts.
    pub fn new(index: u64, shared: &Shared) -> (w: Worker)
        requires
            X_BITS_MIN <= shared@.x_bits <= X_BITS,
        ensures
            w.wf(),
            w == (Worker {
                index,
                counter: 0,
                e1: shared@.e1,
                x_bits: shared@.x_bits,
                seen: u64::MAX,
                job: None,
            }),
    {
        Worker {
            index,
            counter: 0,
            e1: shared.e1(),
            x_bits: shared.x_bits(),
            seen: u64::MAX,
            job: None,
        }
    }

    /// Looks whether there is another job, and takes it. Says whether there is
    /// one to hash; the counter stands where it stood.
    pub fn looks(&mut self, shared: &Shared) -> (r: bool)
        ensures
            final(self).index == old(self).index,
            final(self).counter == old(self).counter,
            final(self).e1 == old(self).e1,
            final(self).x_bits == old(self).x_bits,
            final(self).seen == shared@.generation,
            shared@.generation == old(self).seen ==> final(self).job == old(self).job,
            shared@.generation != old(self).seen ==> work_of(final(self).job) == shared@.job,
            r == (final(self).job matches Some(j) && j.live),
    {
        let g: u64 = shared.generation();
        if g != self.seen {
            self.seen = g;
            self.job = match shared.job() {
                Some(j) => Some(j.copy()),
                None => None,
            };
        }
        match &self.job {
            Some(j) => j.live,
            None => false,
        }
    }

    /// The next `batch` nonces. The counter goes on from where it stood, whatever
    /// job they are for.
    pub fn next_batch(&mut self, batch: usize) -> (nonces: Vec<u64>)
        requires
            old(self).wf(),
        ensures
            final(self).wf(),
            *final(self) == (Worker {
                counter: counter_after(old(self).counter, batch as int),
                ..*old(self)
            }),
            nonces@ == nonces_from(*old(self), batch as nat),
    {
        let ghost before = *self;
        let start: u64 = self.counter;
        let mut nonces: Vec<u64> = Vec::new();
        let mut s: usize = 0;
        while s < batch
            invariant
                s <= batch,
                self.wf(),
                *self == before,
                start == before.counter,
                nonces@ == nonces_from(before, s as nat),
            decreases batch - s,
        {
            let c: u64 = start.wrapping_add(s as u64);
            nonces.push(compose_in(self.e1, lane_x(self.index, c, self.x_bits), self.x_bits));
            s += 1;
            assert(nonces@ =~= nonces_from(before, s as nat));
        }
        self.counter = start.wrapping_add(batch as u64);
        nonces
    }
}

/// The next `n` nonces of a worker.
pub open spec fn nonces_from(w: Worker, n: nat) -> Seq<u64> {
    Seq::new(n, |s: int| nonce_at(w.index, counter_after(w.counter, s), w.e1, w.x_bits))
}

/// Two batches one after the other are the nonces of one long batch, so that
/// neither a new job nor the seam between two batches repeats a nonce or leaves
/// one out.
pub proof fn law_batches_follow_on(w: Worker, a: nat, b: nat)
    ensures
        nonces_from(w, a) + nonces_from(
            Worker { counter: counter_after(w.counter, a as int), ..w },
            b,
        ) == nonces_from(w, a + b),
{
    let v = Worker { counter: counter_after(w.counter, a as int), ..w };
    assert forall|s: int| 0 <= s < b implies counter_after(v.counter, s) == counter_after(
        w.counter,
        a + s,
    ) by {
        assert(((w.counter + a) % 0x1_0000_0000_0000_0000 + s) % 0x1_0000_0000_0000_0000 == (
        w.counter + a + s) % 0x1_0000_0000_0000_0000);
    }
    assert(nonces_from(w, a) + nonces_from(v, b) =~= nonces_from(w, a + b));
}

/// Two workers of one session never try the same nonce, and whatever they try
/// lies in the slice of the session.
pub proof fn law_workers_never_meet(w: Worker, v: Worker, n: nat, m: nat, i: int, j: int)
    requires
        w.wf(),
        w.e1 == v.e1,
        w.x_bits == v.x_bits,
        w.e1 < work::slices(w.x_bits),
        w.index != v.index,
        w.index < work::MAX_WORKERS,
        v.index < work::MAX_WORKERS,
        0 <= i < n,
        0 <= j < m,
    ensures
        nonces_from(w, n)[i] != nonces_from(v, m)[j],
        work::in_slice(w.e1, nonces_from(w, n)[i], w.x_bits),
{
    let c = counter_after(w.counter, i);
    let d = counter_after(v.counter, j);
    work::law_composed_is_owned(w.e1, work::lane_of(w.index, c, w.x_bits), w.x_bits);
    if nonces_from(w, n)[i] == nonces_from(v, m)[j] {
        work::law_lanes_are_disjoint(w.e1, w.index, c, v.index, d, w.x_bits);
    }
}

/// Whether `r` are the headers with these nonces behind the prefix.
pub open spec fn are_headers(
    r: Seq<[u8; HEADER_BYTES]>,
    prefix: Seq<u8>,
    nonces: Seq<u64>,
) -> bool {
    &&& r.len() == nonces.len()
    &&& forall|s: int|
        0 <= s < nonces.len() ==> (#[trigger] r[s])@ == work::header_of(prefix, nonces[s])
}

fn headers_of(prefix: &[u8; PREFIX_BYTES], nonces: &[u64]) -> (r: Vec<[u8; HEADER_BYTES]>)
    ensures
        are_headers(r@, prefix@, nonces@),
{
    let mut r: Vec<[u8; HEADER_BYTES]> = Vec::new();
    let mut s: usize = 0;
    while s < nonces.len()
        invariant
            s <= nonces.len(),
            r@.len() == s,
            forall|k: int|
                0 <= k < s ==> (#[trigger] r@[k])@ == work::header_of(prefix@, nonces@[k]),
        decreases nonces.len() - s,
    {
        r.push(assemble(prefix, nonces[s]));
        s += 1;
    }
    r
}

/// The headers to hash for a batch.
pub fn headers(job: &JobView, nonces: &[u64]) -> (r: Vec<[u8; HEADER_BYTES]>)
    ensures
        are_headers(r@, job.prefix@, nonces@),
{
    headers_of(&job.prefix, nonces)
}

/// The share that hash `s` of a batch is.
pub open spec fn share_of(job: JobView, nonce: u64, hash: [u8; 32]) -> Solution {
    Solution {
        job_id: job.job_id,
        nonce,
        pow_hash: hash,
        height: job.height,
        is_block: be_number(hash@) <= be_number(job.network_target@),
    }
}

/// The shares of a batch, in the order of its nonces: one for each hash that
/// meets the share target.
pub open spec fn shares_of(job: JobView, nonces: Seq<u64>, hashes: Seq<[u8; 32]>) -> Seq<Solution>
    decreases nonces.len(),
{
    if nonces.len() == 0 {
        Seq::empty()
    } else {
        let rest = shares_of(job, nonces.drop_last(), hashes);
        let h = hashes[nonces.len() - 1];
        if be_number(h@) <= be_number(job.target@) {
            rest.push(share_of(job, nonces.last(), h))
        } else {
            rest
        }
    }
}

/// The shares among the hashes of a batch.
pub fn scan(job: &JobView, nonces: &[u64], hashes: &[[u8; 32]]) -> (r: Vec<Solution>)
    requires
        hashes@.len() == nonces@.len(),
    ensures
        r@ == shares_of(*job, nonces@, hashes@),
{
    let mut r: Vec<Solution> = Vec::new();
    let mut s: usize = 0;
    assert(nonces@.take(0) =~= Seq::empty());
    while s < nonces.len()
        invariant
            s <= nonces.len(),
            hashes@.len() == nonces@.len(),
            hashes.len() == nonces.len(),
            r@ == shares_of(*job, nonces@.take(s as int), hashes@),
        decreases nonces.len() - s,
    {
        assert(nonces@.take(s + 1).drop_last() =~= nonces@.take(s as int));
        if meets(&hashes[s], &job.target) {
            r.push(
                Solution {
                    job_id: job.job_id,
                    nonce: nonces[s],
                    pow_hash: hashes[s],
                    height: job.height,
                    is_block: meets(&hashes[s], &job.network_target),
                },
            );
        }
        s += 1;
    }
    assert(nonces@.take(s as int) =~= nonces@);
    r
}

/// Every share meets the share target and carries a nonce of the batch.
pub proof fn law_shares_meet_the_target(
    job: JobView,
    nonces: Seq<u64>,
    hashes: Seq<[u8; 32]>,
    k: int,
)
    requires
        hashes.len() == nonces.len(),
        0 <= k < shares_of(job, nonces, hashes).len(),
    ensures
        ({
            let sol = shares_of(job, nonces, hashes)[k];
            &&& be_number(sol.pow_hash@) <= be_number(job.target@)
            &&& sol.is_block <==> be_number(sol.pow_hash@) <= be_number(job.network_target@)
            &&& exists|s: int|
                0 <= s < nonces.len() && sol.nonce == #[trigger] nonces[s] && sol.pow_hash
                    == hashes[s]
        }),
    decreases nonces.len(),
{
    let n = nonces.len() - 1;
    let rest = shares_of(job, nonces.drop_last(), hashes);
    if k < rest.len() {
        assert(shares_of(job, nonces, hashes)[k] == rest[k]);
        lemma_shares_of_prefix(job, nonces.drop_last(), hashes, hashes.drop_last());
        law_shares_meet_the_target(job, nonces.drop_last(), hashes.drop_last(), k);
        let s = choose|s: int|
            0 <= s < nonces.drop_last().len() && rest[k].nonce == #[trigger] nonces.drop_last()[s]
                && rest[k].pow_hash == hashes.drop_last()[s];
        assert(nonces[s] == nonces.drop_last()[s]);
    } else {
        assert(nonces[n] == nonces.last());
    }
}

proof fn lemma_shares_of_prefix(
    job: JobView,
    nonces: Seq<u64>,
    a: Seq<[u8; 32]>,
    b: Seq<[u8; 32]>,
)
    requires
        forall|i: int| 0 <= i < nonces.len() ==> a[i] == b[i],
    ensures
        shares_of(job, nonces, a) == shares_of(job, nonces, b),
    decreases nonces.len(),
{
    if nonces.len() > 0 {
        lemma_shares_of_prefix(job, nonces.drop_last(), a, b);
    }
}

// ---------------------------------------------------------------------------
// Grinding one header

/// The search of one thread for a nonce of one header. Thread `t` of `threads`
/// begins at `start + t` and goes on in steps of `threads`.
#[derive(Debug, Clone, Copy)]
pub struct Grind {
    pub base: u64,
    pub threads: u64,
    pub hashes: u64,
}

/// The `k`th nonce from `base` on in steps of `threads`.
pub open spec fn stride(base: u64, threads: u64, k: int) -> u64 {
    ((base + k * threads) % 0x1_0000_0000_0000_0000) as u64
}

/// The index of the first hash that meets the target, from `i` on.
pub open spec fn first_hit(hashes: Seq<[u8; 32]>, target: Seq<u8>, i: int) -> int
    decreases hashes.len() - i,
{
    if 0 <= i < hashes.len() && be_number(hashes[i]@) > be_number(target) {
        first_hit(hashes, target, i + 1)
    } else {
        i
    }
}

/// The nonces of a batch.
pub open spec fn batch_of(g: Grind) -> Seq<u64> {
    Seq::new(BATCH as nat, |s: int| stride(g.base, g.threads, s))
}

/// Where a search is after a batch with these hashes, and the nonce that it
/// found, with its place in the batch. Where it found none it goes on behind the
/// batch.
pub open spec fn after_batch(g: Grind, hashes: Seq<[u8; 32]>, target: Seq<u8>) -> (
    Grind,
    Option<(u64, int)>,
) {
    let i = first_hit(hashes, target, 0);
    let done = Grind {
        hashes: if g.hashes + BATCH <= u64::MAX {
            (g.hashes + BATCH) as u64
        } else {
            u64::MAX
        },
        ..g
    };
    if i < BATCH {
        (done, Some((stride(g.base, g.threads, i), i)))
    } else {
        (Grind { base: stride(g.base, g.threads, BATCH as int), ..done }, None)
    }
}

fn stride_by(base: u64, threads: u64, k: u64) -> (n: u64)
    ensures
        n == stride(base, threads, k as int),
{
    assert(k * threads <= 0xffff_ffff_ffff_ffff * 0xffff_ffff_ffff_ffff) by (nonlinear_arith)
        requires
            0 <= k <= 0xffff_ffff_ffff_ffff,
            0 <= threads <= 0xffff_ffff_ffff_ffff,
    ;
    let m: u128 = k as u128 * threads as u128;
    ((base as u128 + m) % 0x1_0000_0000_0000_0000) as u64
}

impl Grind {
    pub fn new(start: u64, t: u64, threads: u64) -> (g: Grind)
        ensures
            g == (Grind { base: counter_after(start, t as int), threads, hashes: 0 }),
    {
        Grind { base: start.wrapping_add(t), threads, hashes: 0 }
    }

    /// The nonces of the next batch.
    pub fn batch(&self) -> (r: Vec<u64>)
        ensures
            r@ == batch_of(*self),
    {
        let mut r: Vec<u64> = Vec::new();
        let mut s: usize = 0;
        while s < BATCH
            invariant
                s <= BATCH,
                r@ == Seq::new(s as nat, |k: int| stride(self.base, self.threads, k)),
            decreases BATCH - s,
        {
            r.push(stride_by(self.base, self.threads, s as u64));
            s += 1;
            assert(r@ =~= Seq::new(s as nat, |k: int| stride(self.base, self.threads, k)));
        }
        assert(r@ =~= batch_of(*self));
        r
    }

    /// Looks at the hashes of the batch: the first nonce that meets the
    /// target, or on to the next batch.
    pub fn step(&mut self, hashes: &[[u8; 32]], target: &[u8; 32]) -> (r: Option<(u64, usize)>)
        requires
            hashes@.len() == BATCH,
        ensures
            *final(self) == after_batch(*old(self), hashes@, target@).0,
            ({
                let found = after_batch(*old(self), hashes@, target@).1;
                &&& r is Some <==> found is Some
                &&& r matches Some((n, s)) ==> found == Some((n, s as int))
            }),
    {
        self.hashes = self.hashes.saturating_add(BATCH as u64);
        let mut i: usize = 0;
        while i < hashes.len()
            invariant
                i <= hashes.len(),
                hashes@.len() == BATCH,
                first_hit(hashes@, target@, 0) == first_hit(hashes@, target@, i as int),
                self.base == old(self).base,
                self.threads == old(self).threads,
                self.hashes == after_batch(*old(self), hashes@, target@).0.hashes,
            decreases hashes.len() - i,
        {
            if meets(&hashes[i], target) {
                return Some((stride_by(self.base, self.threads, i as u64), i));
            }
            i += 1;
        }
        self.base = stride_by(self.base, self.threads, BATCH as u64);
        None
    }
}

/// What `first_hit` finds is the first: it meets the target if it is in range,
/// and none before it does.
pub proof fn law_the_first_hit_is_the_lowest(hashes: Seq<[u8; 32]>, target: Seq<u8>, i: int)
    requires
        0 <= i <= hashes.len(),
    ensures
        i <= first_hit(hashes, target, i) <= hashes.len(),
        first_hit(hashes, target, i) < hashes.len() ==> be_number(
            hashes[first_hit(hashes, target, i)]@,
        ) <= be_number(target),
        forall|k: int|
            i <= k < first_hit(hashes, target, i) ==> be_number((#[trigger] hashes[k])@)
                > be_number(target),
    decreases hashes.len() - i,
{
    if i < hashes.len() && be_number(hashes[i]@) > be_number(target) {
        law_the_first_hit_is_the_lowest(hashes, target, i + 1);
    }
}

/// What a search finds in so many batches, and where it is then, where `hash`
/// gives the hash of the header with a nonce: each batch is hashed and looked at,
/// up to the first that has a nonce that meets the target.
pub open spec fn search(
    g: Grind,
    hash: spec_fn(u64) -> [u8; 32],
    target: Seq<u8>,
    batches: nat,
) -> (Grind, Option<u64>)
    decreases batches,
{
    if batches == 0 {
        (g, None)
    } else {
        let hashes = Seq::new(BATCH as nat, |s: int| hash(batch_of(g)[s]));
        match after_batch(g, hashes, target) {
            (next, Some((n, _))) => (next, Some(n)),
            (next, None) => search(next, hash, target, (batches - 1) as nat),
        }
    }
}

/// Whether `n` is the lowest nonce from `base` on that meets the target.
pub open spec fn is_lowest(
    hash: spec_fn(u64) -> [u8; 32],
    target: Seq<u8>,
    base: u64,
    n: u64,
) -> bool {
    &&& base <= n
    &&& be_number(hash(n)@) <= be_number(target)
    &&& forall|m: u64| base <= m < n ==> be_number(#[trigger] hash(m)@) > be_number(target)
}

proof fn lemma_lowest(hash: spec_fn(u64) -> [u8; 32], target: Seq<u8>, base: u64, some: u64) -> (n:
    u64)
    requires
        base <= some,
        be_number(hash(some)@) <= be_number(target),
    ensures
        n <= some,
        is_lowest(hash, target, base, n),
    decreases some - base,
{
    if be_number(hash(base)@) <= be_number(target) {
        base
    } else {
        lemma_lowest(hash, target, (base + 1) as u64, some)
    }
}

proof fn lemma_search(
    g: Grind,
    hash: spec_fn(u64) -> [u8; 32],
    target: Seq<u8>,
    n: u64,
    batches: nat,
)
    requires
        g.threads == 1,
        is_lowest(hash, target, g.base, n),
        n - g.base < batches * BATCH,
    ensures
        search(g, hash, target, batches).1 == Some(n),
    decreases batches,
{
    let hashes = Seq::new(BATCH as nat, |s: int| hash(batch_of(g)[s]));
    let k = n - g.base;
    let i = first_hit(hashes, target, 0);
    law_the_first_hit_is_the_lowest(hashes, target, 0);
    assert forall|s: int| 0 <= s < BATCH && s <= k implies #[trigger] hashes[s] == hash(
        (g.base + s) as u64,
    ) by {
        assert(batch_of(g)[s] == stride(g.base, 1, s));
    }
    if k < BATCH {
        assert(hashes[k] == hash(n));
        if i < k {
            assert(hashes[i] == hash((g.base + i) as u64));
        }
        assert(i == k);
    } else {
        if i < BATCH {
            assert(hashes[i] == hash((g.base + i) as u64));
        }
        let next = after_batch(g, hashes, target).0;
        assert(next.base == g.base + BATCH);
        lemma_search(next, hash, target, n, (batches - 1) as nat);
    }
}

/// A search of one thread from nonce zero finds the lowest nonce that meets the
/// target, if there is one, and the same one however often it is made: in all the
/// rounds of `grind`, and already in as many batches as reach `some` nonce that
/// meets the target.
pub proof fn law_one_thread_finds_the_lowest_nonce(
    hash: spec_fn(u64) -> [u8; 32],
    target: Seq<u8>,
    some: u64,
) -> (n: u64)
    requires
        be_number(hash(some)@) <= be_number(target),
    ensures
        n <= some,
        is_lowest(hash, target, 0, n),
        forall|batches: nat|
            some < batches * BATCH ==> #[trigger] search(
                (Grind { base: 0, threads: 1, hashes: 0 }),
                hash,
                target,
                batches,
            ).1 == Some(n),
        search(
            (Grind { base: 0, threads: 1, hashes: 0 }),
            hash,
            target,
            ROUNDS as nat,
        ).1 == Some(n),
{
    let g = Grind { base: 0, threads: 1, hashes: 0 };
    let n = lemma_lowest(hash, target, 0, some);
    assert forall|batches: nat| some < batches * BATCH implies #[trigger] search(
        g,
        hash,
        target,
        batches,
    ).1 == Some(n) by {
        lemma_search(g, hash, target, n, batches);
    }
    assert(some < (ROUNDS as nat) * BATCH);
    n
}

/// What a search finds meets the target, whatever it starts from and however
/// many threads share it.
pub proof fn law_what_a_search_finds_meets_the_target(
    g: Grind,
    hash: spec_fn(u64) -> [u8; 32],
    target: Seq<u8>,
    batches: nat,
)
    ensures
        search(g, hash, target, batches).1 matches Some(n) ==> be_number(hash(n)@) <= be_number(
            target,
        ),
    decreases batches,
{
    if batches > 0 {
        let hashes = Seq::new(BATCH as nat, |s: int| hash(batch_of(g)[s]));
        law_the_first_hit_is_the_lowest(hashes, target, 0);
        let (next, found) = after_batch(g, hashes, target);
        if found is None {
            law_what_a_search_finds_meets_the_target(next, hash, target, (batches - 1) as nat);
        } else {
            let i = first_hit(hashes, target, 0);
            assert(hashes[i] == hash(batch_of(g)[i]));
        }
    }
}

/// How many batches a thread tries: as many as it takes to come round to where it
/// began.
pub const ROUNDS: u64 = 0x0800_0000_0000_0000;

/// What the search of one thread came to: what it found, with its hash, and how
/// many hashes it took.
#[derive(Debug, Clone, Copy)]
pub struct Ground {
    pub found: Option<(u64, [u8; 32])>,
    pub hashes: u64,
}

/// Whether `hash` hashes every header of a batch by the function `h`.
pub open spec fn computes<H: Fn(&Vec<[u8; HEADER_BYTES]>) -> Option<Vec<[u8; 32]>>>(
    hash: H,
    h: spec_fn(Seq<u8>) -> [u8; 32],
) -> bool {
    forall|b: &Vec<[u8; HEADER_BYTES]>, out: Option<Vec<[u8; 32]>>| #[trigger]
        call_ensures(hash, (b,), out) ==> (out matches Some(v) && v@.len() == b@.len() && forall|i:
            int| 0 <= i < b@.len() ==> #[trigger] v@[i] == h(b@[i]@))
}

/// Whether a search is never told to stop.
pub open spec fn never_stops<S: Fn() -> bool>(stop: S) -> bool {
    forall|b: bool| #[trigger] call_ensures(stop, (), b) ==> !b
}

/// The hash of a header with a nonce, by the function `h`.
pub open spec fn with_nonce(h: spec_fn(Seq<u8>) -> [u8; 32], prefix: Seq<u8>) -> spec_fn(
    u64,
) -> [u8; 32] {
    |n: u64| h(work::header_of(prefix, n))
}

/// Whether `hash` gave `ph` for the header with the nonce `n`.
pub open spec fn was_hashed<H: Fn(&Vec<[u8; HEADER_BYTES]>) -> Option<Vec<[u8; 32]>>>(
    hash: H,
    prefix: Seq<u8>,
    n: u64,
    ph: [u8; 32],
) -> bool {
    exists|b: &Vec<[u8; HEADER_BYTES]>, v: Vec<[u8; 32]>, i: int|
        #![trigger call_ensures(hash, (b,), Some(v)), v@[i]]
        call_ensures(hash, (b,), Some(v)) && 0 <= i < v@.len() && i < b@.len() && v@[i] == ph
            && b@[i]@ == work::header_of(prefix, n)
}

fn prefix_of(header: &[u8; HEADER_BYTES]) -> (p: [u8; PREFIX_BYTES])
    ensures
        p@ == header@.take(PREFIX_BYTES as int),
{
    let mut p: [u8; PREFIX_BYTES] = [0; PREFIX_BYTES];
    let mut i: usize = 0;
    while i < PREFIX_BYTES
        invariant
            i <= PREFIX_BYTES,
            forall|k: int| 0 <= k < i ==> p@[k] == header@[k],
        decreases PREFIX_BYTES - i,
    {
        p[i] = header[i];
        i += 1;
    }
    assert(p@ =~= header@.take(PREFIX_BYTES as int));
    p
}

/// The search of thread `t` of `threads` for a nonce of `header` whose hash meets
/// the target, from `start` on. `hash` hashes a batch, and the search fails where
/// `hash` does; `stop` says whether another thread has found one.
pub fn grind<
    H: Fn(&Vec<[u8; HEADER_BYTES]>) -> Option<Vec<[u8; 32]>>,
    S: Fn() -> bool,
>(
    header: &[u8; HEADER_BYTES],
    target: &[u8; 32],
    t: u64,
    threads: u64,
    start: u64,
    hash: H,
    stop: S,
) -> (r: Option<Ground>)
    requires
        forall|b: &Vec<[u8; HEADER_BYTES]>| call_requires(hash, (b,)),
        call_requires(stop, ()),
    ensures
        r matches Some(g) ==> (g.found matches Some((n, ph)) ==> be_number(ph@) <= be_number(
            target@,
        ) && was_hashed(hash, header@.take(PREFIX_BYTES as int), n, ph)),
        forall|h: spec_fn(Seq<u8>) -> [u8; 32]| #[trigger]
            computes(hash, h) && never_stops(stop) ==> ({
                let s = search(
                    (Grind { base: counter_after(start, t as int), threads, hashes: 0 }),
                    with_nonce(h, header@.take(PREFIX_BYTES as int)),
                    target@,
                    ROUNDS as nat,
                );
                r matches Some(g) && g.hashes == s.0.hashes && match g.found {
                    Some((n, ph)) => s.1 == Some(n) && ph == h(
                        work::header_of(header@.take(PREFIX_BYTES as int), n),
                    ),
                    None => s.1 is None,
                }
            }),
{
    let prefix = prefix_of(header);
    let mut g = Grind::new(start, t, threads);
    let ghost first = g;
    let mut k: u64 = 0;
    while k < ROUNDS
        invariant
            k <= ROUNDS,
            prefix@ == header@.take(PREFIX_BYTES as int),
            forall|b: &Vec<[u8; HEADER_BYTES]>| call_requires(hash, (b,)),
            call_requires(stop, ()),
            first == (Grind { base: counter_after(start, t as int), threads, hashes: 0 }),
            forall|h: spec_fn(Seq<u8>) -> [u8; 32]| #[trigger]
                computes(hash, h) && never_stops(stop) ==> search(
                    first,
                    with_nonce(h, prefix@),
                    target@,
                    ROUNDS as nat,
                ) == search(g, with_nonce(h, prefix@), target@, (ROUNDS - k) as nat),
        decreases ROUNDS - k,
    {
        if stop() {
            return Some(Ground { found: None, hashes: g.hashes });
        }
        let nonces = g.batch();
        let all = headers_of(&prefix, nonces.as_slice());
        let out = match hash(&all) {
            Some(v) => v,
            None => {
                return None;
            },
        };
        if out.len() != BATCH {
            return None;
        }
        let ghost was = g;
        assert forall|h: spec_fn(Seq<u8>) -> [u8; 32]| #[trigger]
            computes(hash, h) && never_stops(stop) implies out@ == Seq::new(
            BATCH as nat,
            |s: int| with_nonce(h, prefix@)(batch_of(was)[s]),
        ) by {
            assert forall|i: int| 0 <= i < BATCH implies #[trigger] out@[i] == with_nonce(
                h,
                prefix@,
            )(batch_of(was)[i]) by {
                assert(all@[i]@ == work::header_of(prefix@, nonces@[i]));
            }
            assert(out@ =~= Seq::new(
                BATCH as nat,
                |s: int| with_nonce(h, prefix@)(batch_of(was)[s]),
            ));
        }
        proof {
            law_the_first_hit_is_the_lowest(out@, target@, 0);
        }
        if let Some((n, s)) = g.step(out.as_slice(), target) {
            let ph: [u8; 32] = out[s];
            assert(n == nonces@[s as int]);
            assert(all@[s as int]@ == work::header_of(prefix@, n));
            assert(was_hashed(hash, prefix@, n, ph));
            return Some(Ground { found: Some((n, ph)), hashes: g.hashes });
        }
        k += 1;
    }
    Some(Ground { found: None, hashes: g.hashes })
}

/// Two threads of a search never try the same nonce before it has gone round.
pub proof fn law_grind_threads_are_disjoint(
    start: nat,
    threads: nat,
    t: nat,
    u: nat,
    k: nat,
    l: nat,
)
    requires
        t < threads,
        u < threads,
        start + t + k * threads == start + u + l * threads,
    ensures
        t == u,
        k == l,
{
    assert(t == u && k == l) by (nonlinear_arith)
        requires
            0 <= t < threads,
            0 <= u < threads,
            0 <= k,
            0 <= l,
            t + k * threads == u + l * threads,
    ;
}

// ---------------------------------------------------------------------------
// Lines that tell how fast it goes

/// How long a run has lasted, in its two largest units.
pub open spec fn uptime(s: nat) -> Seq<char> {
    if s >= 86_400 {
        text::dec(s / 86_400) + "d"@ + text::dec_pad((s % 86_400) / 3_600, 2) + "h"@
    } else if s >= 3_600 {
        text::dec(s / 3_600) + "h"@ + text::dec_pad((s % 3_600) / 60, 2) + "m"@
    } else if s >= 60 {
        text::dec(s / 60) + "m"@ + text::dec_pad(s % 60, 2) + "s"@
    } else {
        text::dec(s) + "s"@
    }
}

fn push_uptime(t: &mut String, s: u64)
    ensures
        final(t)@ == old(t)@ + uptime(s as nat),
{
    if s >= 86_400 {
        push_dec(t, s / 86_400);
        t.append("d");
        push_dec_pad(t, (s % 86_400) / 3_600, 2);
        t.append("h");
    } else if s >= 3_600 {
        push_dec(t, s / 3_600);
        t.append("h");
        push_dec_pad(t, (s % 3_600) / 60, 2);
        t.append("m");
    } else if s >= 60 {
        push_dec(t, s / 60);
        t.append("m");
        push_dec_pad(t, s % 60, 2);
        t.append("s");
    } else {
        push_dec(t, s);
        t.append("s");
    }
    assert(t@ =~= old(t)@ + uptime(s as nat));
}

/// How long a run of `secs` seconds has lasted, in its two largest units.
pub fn uptime_str(secs: u64) -> (t: String)
    ensures
        t@ == uptime(secs as nat),
{
    let mut t = String::new();
    push_uptime(&mut t, secs);
    assert(t@ =~= uptime(secs as nat));
    t
}

/// The line that tells how the miner is doing.
pub open spec fn status_text(
    rate: Seq<char>,
    avg: Seq<char>,
    r: Report,
    newest: Option<u32>,
    height: nat,
    up_secs: nat,
) -> Seq<char> {
    "plaine-miner: "@ + rate + " | accepted "@ + text::dec(r.accepted as nat) + " rejected "@
        + text::dec(r.rejected as nat) + " blocks "@ + text::dec(r.blocks as nat) + " | job "@ + (
    match newest {
        Some(j) => text::hex_pad(j as nat, 8),
        None => "-"@,
    }) + " height "@ + text::dec(height) + " | avg "@ + avg + " | up "@ + uptime(up_secs)
}

/// The status line. The rates are texts, as `rate` gives them.
pub fn status_line(
    rate: &str,
    avg: &str,
    r: &Report,
    newest: Option<u32>,
    height: u64,
    up_secs: u64,
) -> (t: String)
    ensures
        t@ == status_text(rate@, avg@, *r, newest, height as nat, up_secs as nat),
{
    let mut t = "plaine-miner: ".to_owned();
    t.append(rate);
    t.append(" | accepted ");
    push_dec(&mut t, r.accepted);
    t.append(" rejected ");
    push_dec(&mut t, r.rejected);
    t.append(" blocks ");
    push_dec(&mut t, r.blocks);
    t.append(" | job ");
    match newest {
        Some(j) => push_hex_pad(&mut t, j as u64, 8),
        None => t.append("-"),
    }
    t.append(" height ");
    push_dec(&mut t, height);
    t.append(" | avg ");
    t.append(avg);
    t.append(" | up ");
    push_uptime(&mut t, up_secs);
    t
}

/// When the status line is due, and what it counts from.
pub struct Status {
    pub every: Option<u64>,
    pub last: u64,
    pub last_hashes: u64,
    pub last_lanes: Vec<u64>,
    pub verbose: bool,
}

/// The part of `now` above `last`.
pub open spec fn above(now: u64, last: u64) -> u64 {
    if now > last {
        (now - last) as u64
    } else {
        0
    }
}

/// What was last counted of a lane.
pub open spec fn lane_last(last: Seq<u64>, i: int) -> u64 {
    if i < last.len() {
        last[i]
    } else {
        0
    }
}

impl Status {
    pub fn new(secs: u64, now: u64, verbose: bool) -> (s: Status)
        ensures
            s.every == (if secs == 0 {
                None
            } else if secs * 1000 > u64::MAX {
                Some(u64::MAX)
            } else {
                Some((secs * 1000) as u64)
            }),
            s.last == now,
            s.last_hashes == 0,
            s.last_lanes@.len() == 0,
            s.verbose == verbose,
    {
        Status {
            every: if secs == 0 {
                None
            } else if secs > u64::MAX / 1000 {
                Some(u64::MAX)
            } else {
                Some(secs * 1000)
            },
            last: now,
            last_hashes: 0,
            last_lanes: Vec::new(),
            verbose,
        }
    }

    /// If the line is due: the time since the last one, and the hashes since.
    pub fn due(&mut self, now: u64, hashes: u64) -> (r: Option<(u64, u64)>)
        requires
            old(self).last <= now,
            old(self).last_hashes <= hashes,
        ensures
            r is Some <==> (old(self).every matches Some(e) && now - old(self).last >= e),
            r matches Some((t, n)) ==> t == now - old(self).last && n == hashes
                - old(self).last_hashes && *final(self) == (Status {
                last: now,
                last_hashes: hashes,
                ..*old(self)
            }),
            r is None ==> *final(self) == *old(self),
    {
        let every: u64 = match self.every {
            Some(e) => e,
            None => {
                return None;
            },
        };
        let elapsed: u64 = now - self.last;
        if elapsed < every {
            return None;
        }
        let n: u64 = hashes - self.last_hashes;
        self.last = now;
        self.last_hashes = hashes;
        Some((elapsed, n))
    }

    /// What each lane has hashed since this was last asked.
    pub fn lanes(&mut self, lanes: &[u64]) -> (r: Vec<u64>)
        ensures
            r@ == Seq::new(
                lanes@.len(),
                |i: int| above(lanes@[i], lane_last(old(self).last_lanes@, i)),
            ),
            forall|i: int|
                0 <= i < lanes@.len() ==> lane_last(final(self).last_lanes@, i) == lanes@[i],
            forall|i: int|
                lanes@.len() <= i ==> lane_last(final(self).last_lanes@, i) == lane_last(
                    old(self).last_lanes@,
                    i,
                ),
            final(self).every == old(self).every,
            final(self).last == old(self).last,
            final(self).last_hashes == old(self).last_hashes,
            final(self).verbose == old(self).verbose,
    {
        let ghost before = self.last_lanes@;
        let mut r: Vec<u64> = Vec::new();
        let mut i: usize = 0;
        while i < lanes.len()
            invariant
                i <= lanes.len(),
                before == old(self).last_lanes@,
                r@ == Seq::new(i as nat, |k: int| above(lanes@[k], lane_last(before, k))),
                self.last_lanes@.len() >= before.len(),
                self.last_lanes@.len() >= i,
                self.last_lanes@.len() == before.len() || self.last_lanes@.len() == i,
                forall|k: int| 0 <= k < i ==> self.last_lanes@[k] == lanes@[k],
                forall|k: int| i <= k < before.len() ==> self.last_lanes@[k] == before[k],
                self.every == old(self).every,
                self.last == old(self).last,
                self.last_hashes == old(self).last_hashes,
                self.verbose == old(self).verbose,
            decreases lanes.len() - i,
        {
            let now: u64 = lanes[i];
            if i < self.last_lanes.len() {
                r.push(now.saturating_sub(self.last_lanes[i]));
                self.last_lanes.set(i, now);
            } else {
                r.push(now);
                self.last_lanes.push(now);
            }
            i += 1;
            assert(r@ =~= Seq::new(i as nat, |k: int| above(lanes@[k], lane_last(before, k))));
        }
        r
    }
}

/// `s` with blanks before it, so that it is at least `w` characters long.
pub open spec fn right(s: Seq<char>, w: nat) -> Seq<char> {
    if s.len() >= w {
        s
    } else {
        Seq::new((w - s.len()) as nat, |i: int| ' ') + s
    }
}

fn push_right(t: &mut String, s: &str, w: usize)
    ensures
        final(t)@ == old(t)@ + right(s@, w as nat),
{
    let n: usize = s.unicode_len();
    let mut k: usize = n;
    while k < w
        invariant
            n <= k,
            k <= w || k == n,
            t@ == old(t)@ + Seq::new((k - n) as nat, |i: int| ' '),
        decreases w - k,
    {
        t.push(' ');
        k += 1;
        assert(t@ =~= old(t)@ + Seq::new((k - n) as nat, |i: int| ' '));
    }
    t.append(s);
    assert(t@ =~= old(t)@ + right(s@, w as nat));
}

/// The rates of the lanes `lo` up to `hi`, one after the other.
pub open spec fn lanes_text(rates: Seq<String>, lo: int, hi: int) -> Seq<char>
    decreases hi - lo,
{
    if lo >= hi {
        "plaine-miner:  "@
    } else {
        lanes_text(rates, lo, hi - 1) + " "@ + right(text::dec((hi - 1) as nat), 3) + ":"@ + right(
            rates[hi - 1]@,
            10,
        )
    }
}

/// Where the line that begins at lane `lo` ends.
pub open spec fn line_end(lanes: int, lo: int) -> int {
    if lo + 8 < lanes {
        lo + 8
    } else {
        lanes
    }
}

fn lane_line(rates: &Vec<String>, lo: usize, hi: usize) -> (t: String)
    requires
        lo <= hi <= rates@.len(),
    ensures
        t@ == lanes_text(rates@, lo as int, hi as int),
{
    let mut t = "plaine-miner:  ".to_owned();
    let mut i: usize = lo;
    while i < hi
        invariant
            lo <= i <= hi <= rates@.len(),
            t@ == lanes_text(rates@, lo as int, i as int),
        decreases hi - i,
    {
        t.append(" ");
        push_right(&mut t, &text::dec_of(i as u64), 3);
        t.append(":");
        push_right(&mut t, &rates[i], 10);
        i += 1;
    }
    t
}

/// The lines that give the rate of each lane, eight to a line.
pub fn lane_lines(rates: &Vec<String>) -> (r: Vec<String>)
    ensures
        r@.len() == (rates@.len() + 7) / 8,
        forall|k: int|
            0 <= k < r@.len() ==> (#[trigger] r@[k])@ == lanes_text(
                rates@,
                8 * k,
                line_end(rates@.len() as int, 8 * k),
            ),
{
    let mut r: Vec<String> = Vec::new();
    let mut lo: usize = 0;
    while lo < rates.len()
        invariant
            lo <= rates.len(),
            lo < rates@.len() ==> lo == 8 * r@.len(),
            r@.len() == (lo + 7) / 8,
            forall|k: int|
                0 <= k < r@.len() ==> (#[trigger] r@[k])@ == lanes_text(
                    rates@,
                    8 * k,
                    line_end(rates@.len() as int, 8 * k),
                ),
        decreases rates.len() - lo,
    {
        let hi: usize = if rates.len() - lo > 8 {
            lo + 8
        } else {
            rates.len()
        };
        let t = lane_line(rates, lo, hi);
        r.push(t);
        lo = hi;
    }
    r
}

/// Two numbers of equally many bytes compare as their first different bytes do.
pub proof fn law_the_first_different_byte_decides(a: Seq<u8>, b: Seq<u8>, k: int)
    requires
        a.len() == b.len(),
        0 <= k < a.len(),
        forall|j: int| 0 <= j < k ==> a[j] == b[j],
        a[k] < b[k],
    ensures
        be_number(a) < be_number(b),
{
    assert(a.take(k) =~= b.take(k));
    assert(a.take(k + 1).drop_last() =~= a.take(k));
    assert(b.take(k + 1).drop_last() =~= b.take(k));
    lemma_prefix_decides(a, b, k + 1);
}

/// A scan of two batches behind each other gives the shares of the first and
/// then those of the second.
pub proof fn law_shares_stand_in_the_order_of_the_nonces(
    job: JobView,
    nonces: Seq<u64>,
    hashes: Seq<[u8; 32]>,
    more: Seq<u64>,
    more_hashes: Seq<[u8; 32]>,
)
    requires
        hashes.len() == nonces.len(),
        more_hashes.len() == more.len(),
    ensures
        shares_of(job, nonces + more, hashes + more_hashes) == shares_of(job, nonces, hashes)
            + shares_of(job, more, more_hashes),
    decreases more.len(),
{
    if more.len() == 0 {
        assert(nonces + more =~= nonces);
        assert(hashes + more_hashes =~= hashes);
        assert(shares_of(job, nonces, hashes) + Seq::<Solution>::empty() =~= shares_of(
            job,
            nonces,
            hashes,
        ));
    } else {
        let m = more.drop_last();
        let mh = more_hashes.drop_last();
        law_shares_stand_in_the_order_of_the_nonces(job, nonces, hashes, m, mh);
        assert((nonces + more).drop_last() =~= nonces + m);
        lemma_shares_of_prefix(job, nonces + m, hashes + more_hashes, hashes + mh);
        lemma_shares_of_prefix(job, m, more_hashes, mh);
        assert((hashes + more_hashes)[(nonces + more).len() - 1] == more_hashes[more.len() - 1]);
        let s = share_of(job, more.last(), more_hashes[more.len() - 1]);
        assert((shares_of(job, nonces, hashes) + shares_of(job, m, mh)).push(s) =~= shares_of(
            job,
            nonces,
            hashes,
        ) + shares_of(job, m, mh).push(s));
    }
}

/// No share is lost: each hash of a batch that is not above the job's target, as
/// a number, is reported with its nonce and the job's id and height, and as a
/// block exactly where it is not above the network's target.
pub proof fn law_every_hit_is_reported(
    job: &JobView,
    nonces: &[u64],
    hashes: &[[u8; 32]],
    r: Vec<Solution>,
    s: int,
) -> (k: int)
    requires
        hashes@.len() == nonces@.len(),
        call_ensures(scan, (job, nonces, hashes), r),
        0 <= s < nonces@.len(),
        be_number(hashes@[s]@) <= be_number(job.target@),
    ensures
        0 <= k < r@.len(),
        r@[k].job_id == job.job_id,
        r@[k].nonce == nonces@[s],
        r@[k].pow_hash == hashes@[s],
        r@[k].height == job.height,
        r@[k].is_block <==> be_number(hashes@[s]@) <= be_number(job.network_target@),
{
    let n = nonces@.len() as int;
    let a = nonces@.take(s);
    let ah = hashes@.take(s);
    let b = nonces@.subrange(s, s + 1);
    let bh = hashes@.subrange(s, s + 1);
    let c = nonces@.skip(s + 1);
    let ch = hashes@.skip(s + 1);
    assert(nonces@ =~= (a + b) + c);
    assert(hashes@ =~= (ah + bh) + ch);
    law_shares_stand_in_the_order_of_the_nonces(*job, a + b, ah + bh, c, ch);
    law_shares_stand_in_the_order_of_the_nonces(*job, a, ah, b, bh);
    assert(b.drop_last() =~= Seq::empty());
    assert(shares_of(*job, b.drop_last(), bh) =~= Seq::empty());
    let k = shares_of(*job, a, ah).len() as int;
    assert(shares_of(*job, b, bh)[0] == share_of(*job, nonces@[s], hashes@[s]));
    k
}

/// What a scan reports are hits: there is at most one share to a hash, and none
/// of a hash above the target.
pub proof fn law_only_hits_are_reported(
    job: &JobView,
    nonces: &[u64],
    hashes: &[[u8; 32]],
    r: Vec<Solution>,
    k: int,
) -> (s: int)
    requires
        hashes@.len() == nonces@.len(),
        call_ensures(scan, (job, nonces, hashes), r),
        0 <= k < r@.len(),
    ensures
        r@.len() <= nonces@.len(),
        0 <= s < nonces@.len(),
        be_number(hashes@[s]@) <= be_number(job.target@),
        r@[k].job_id == job.job_id,
        r@[k].nonce == nonces@[s],
        r@[k].pow_hash == hashes@[s],
        r@[k].height == job.height,
        r@[k].is_block <==> be_number(hashes@[s]@) <= be_number(job.network_target@),
{
    lemma_share_source(*job, nonces@, hashes@, k)
}

proof fn lemma_share_source(job: JobView, nonces: Seq<u64>, hashes: Seq<[u8; 32]>, k: int) -> (s:
    int)
    requires
        hashes.len() >= nonces.len(),
        0 <= k < shares_of(job, nonces, hashes).len(),
    ensures
        shares_of(job, nonces, hashes).len() <= nonces.len(),
        0 <= s < nonces.len(),
        be_number(hashes[s]@) <= be_number(job.target@),
        shares_of(job, nonces, hashes)[k] == share_of(job, nonces[s], hashes[s]),
    decreases nonces.len(),
{
    let rest = shares_of(job, nonces.drop_last(), hashes);
    if rest.len() > 0 {
        if k < rest.len() {
            lemma_share_source(job, nonces.drop_last(), hashes, k)
        } else {
            let _ = lemma_share_source(job, nonces.drop_last(), hashes, 0);
            nonces.len() - 1
        }
    } else {
        nonces.len() - 1
    }
}

// ---------------------------------------------------------------------------
// Numbers and headers

/// The bytes of a number that fits in them denote it.
pub proof fn law_bytes_denote_their_number(n: nat, len: nat)
    requires
        n < work::pow256(len),
    ensures
        work::be_bytes(n, len).len() == len,
        be_number(work::be_bytes(n, len)) == n,
    decreases len,
{
    if len > 0 {
        let b = work::be_bytes(n / 256, (len - 1) as nat);
        law_bytes_denote_their_number(n / 256, (len - 1) as nat);
        assert(b.push((n % 256) as u8).drop_last() =~= b);
    }
}

/// The target of a share difficulty above one is the largest number whose
/// product with the difficulty is not above 2^256. Up to difficulty one every
/// hash is a share.
pub proof fn law_a_target_is_its_part_of_all_hashes(d: u64, out: [u8; 32])
    requires
        call_ensures(work::target_from_difficulty, (d,), out),
    ensures
        d >= 2 ==> be_number(out@) * d <= 0x1_0000_0000_0000_0000 * (0x1_0000_0000_0000_0000 * (
        0x1_0000_0000_0000_0000 * 0x1_0000_0000_0000_0000)) < (be_number(out@) + 1) * d,
        d <= 1 ==> forall|i: int| 0 <= i < 32 ==> out@[i] == 0xff,
{
    lemma_share_target_bytes(d);
}

/// What the bytes of a share target are, in terms of the difficulty.
pub proof fn lemma_share_target_bytes(d: u64)
    ensures
        ({
            let b = work::be_bytes(work::share_target(d as nat), 32);
            let v = be_number(b);
            &&& b.len() == 32
            &&& d >= 2 ==> v * d <= 0x1_0000_0000_0000_0000 * (0x1_0000_0000_0000_0000 * (
            0x1_0000_0000_0000_0000 * 0x1_0000_0000_0000_0000)) < (v + 1) * d
            &&& d <= 1 ==> forall|i: int| 0 <= i < 32 ==> b[i] == 0xff
        }),
{
    let n = work::share_target(d as nat);
    let all = work::two_256();
    reveal_with_fuel(work::pow256, 33);
    assert(work::pow256(32) == all);
    if d <= 1 {
        work::lemma_ones(n, 32);
        law_bytes_denote_their_number(n, 32);
    } else {
        vstd::arithmetic::div_mod::lemma_fundamental_div_mod(all as int, d as int);
        assert(n == all / (d as nat));
        assert(n < all) by (nonlinear_arith)
            requires
                n == all / (d as nat),
                d >= 2,
                all > 0,
        ;
        law_bytes_denote_their_number(n, 32);
        let rem = all as int % d as int;
        assert(all == d * n + rem);
        assert(n * d == d * n && (n + 1) * d == d * n + d) by (nonlinear_arith);
    }
}

/// A header is the prefix with the nonce behind it: other prefixes and other
/// nonces make other headers, and read from its last byte down, what stands
/// behind the prefix is the nonce.
pub proof fn law_a_header_holds_its_prefix_and_nonce(prefix: Seq<u8>, nonce: u64)
    ensures
        work::header_of(prefix, nonce).len() == prefix.len() + 8,
        work::header_of(prefix, nonce).take(prefix.len() as int) == prefix,
        be_number(work::header_of(prefix, nonce).skip(prefix.len() as int).reverse()) == nonce,
{
    reveal_with_fuel(work::pow256, 9);
    law_bytes_denote_their_number(nonce as nat, 8);
    let b = work::be_bytes(nonce as nat, 8);
    let h = work::header_of(prefix, nonce);
    assert(h.take(prefix.len() as int) =~= prefix);
    assert(h.skip(prefix.len() as int).reverse() =~= b);
}

/// The four limbs of a target are read with the lowest first: as 32 bytes it
/// denotes the sum of the limbs, each counted 2^64 times as much as the one
/// before it.
pub proof fn law_limbs_denote_their_sum(l: &[u64; 4], out: [u8; 32])
    requires
        call_ensures(work::limbs_be, (l,), out),
    ensures
        be_number(out@) == l@[0] + 0x1_0000_0000_0000_0000 * (l@[1] + 0x1_0000_0000_0000_0000 * (
        l@[2] + 0x1_0000_0000_0000_0000 * l@[3])),
{
    reveal_with_fuel(work::pow256, 33);
    law_bytes_denote_their_number(work::limbs_value(l@), 32);
}

// ---------------------------------------------------------------------------
// How a run is told

/// A time is told in its two largest units: days and hours, hours and minutes,
/// minutes and seconds, or seconds.
pub proof fn law_a_time_is_told_in_two_units(d: nat, h: nat, m: nat, s: nat)
    requires
        h < 24,
        m < 60,
        s < 60,
    ensures
        d > 0 ==> uptime(d * 86_400 + h * 3_600 + m * 60 + s) == text::dec(d) + "d"@
            + text::dec_pad(h, 2) + "h"@,
        h > 0 ==> uptime(h * 3_600 + m * 60 + s) == text::dec(h) + "h"@ + text::dec_pad(m, 2)
            + "m"@,
        m > 0 ==> uptime(m * 60 + s) == text::dec(m) + "m"@ + text::dec_pad(s, 2) + "s"@,
        uptime(s) == text::dec(s) + "s"@,
{
}

/// A report is due once as much time has passed as lies between two, and tells
/// the time and the hashes since the last one; the next one counts from it. None
/// is due where none was asked for.
pub proof fn law_reports_add_up(x: &mut Status, now: u64, hashes: u64, r: Option<(u64, u64)>)
    requires
        old(x).last <= now,
        old(x).last_hashes <= hashes,
        call_ensures(Status::due, (x, now, hashes), r),
    ensures
        old(x).every is None ==> r is None,
        old(x).every matches Some(e) ==> (r is Some <==> old(x).last + e <= now),
        r matches Some((t, n)) ==> old(x).last + t == final(x).last && old(x).last_hashes + n
            == final(x).last_hashes && final(x).last == now && final(x).last_hashes == hashes,
        r is None ==> *final(x) == *old(x),
        final(x).every == old(x).every,
{
}

/// Reports come as many seconds apart as was asked for, and none for zero.
pub proof fn law_a_period_is_in_seconds(secs: u64, now: u64, verbose: bool, s: Status)
    requires
        call_ensures(Status::new, (secs, now, verbose), s),
    ensures
        secs == 0 <==> s.every is None,
        s.every matches Some(e) ==> e == secs * 1000 || e == u64::MAX && secs * 1000 > u64::MAX,
        s.last == now && s.last_hashes == 0,
{
}

/// What each lane hashed since it was last asked and what it had hashed then make
/// up what it has hashed now.
pub proof fn law_lanes_add_up(x: &mut Status, lanes: &[u64], r: Vec<u64>, i: int)
    requires
        call_ensures(Status::lanes, (x, lanes), r),
        0 <= i < lanes@.len(),
    ensures
        r@.len() == lanes@.len(),
        i < old(x).last_lanes@.len() && old(x).last_lanes@[i] <= lanes@[i]
            ==> old(x).last_lanes@[i] + r@[i] == lanes@[i],
        i >= old(x).last_lanes@.len() ==> r@[i] == lanes@[i],
        lane_last(final(x).last_lanes@, i) == lanes@[i],
{
}

/// A worker takes up the job that is before the workers exactly when another
/// generation has begun, and hashes exactly a live one. Its slice, its window and
/// its counter stand.
pub proof fn law_a_worker_takes_up_a_new_generation(w: &mut Worker, shared: &Shared, r: bool)
    requires
        call_ensures(Worker::looks, (w, shared), r),
    ensures
        old(w).seen != shared@.generation ==> work_of(final(w).job) == shared@.job,
        old(w).seen == shared@.generation ==> final(w).job == old(w).job,
        final(w).seen == shared@.generation,
        r ==> final(w).job is Some,
        final(w).job matches Some(j) ==> (r <==> j.live),
        final(w).index == old(w).index,
        final(w).counter == old(w).counter,
        final(w).e1 == old(w).e1,
        final(w).x_bits == old(w).x_bits,
{
}

/// The nonces of a batch lie in the worker's slice one behind another, and the
/// counter moves on by as many.
pub proof fn law_a_batch_moves_the_counter_on(w: &mut Worker, batch: usize, nonces: Vec<u64>, i: int)
    requires
        old(w).wf(),
        old(w).e1 < work::slices(old(w).x_bits),
        old(w).index < 256,
        call_ensures(Worker::next_batch, (w, batch), nonces),
        0 <= i < nonces@.len(),
    ensures
        nonces@.len() == batch,
        work::in_slice(old(w).e1, nonces@[i], old(w).x_bits),
        old(w).counter + batch <= u64::MAX ==> final(w).counter == old(w).counter + batch,
        old(w).counter + i <= u64::MAX ==> nonces@[i] == work::nonce_of(
            old(w).e1,
            work::lane_of(old(w).index, (old(w).counter + i) as u64, old(w).x_bits),
            old(w).x_bits,
        ),
{
    work::law_composed_is_owned(
        old(w).e1,
        work::lane_of(old(w).index, counter_after(old(w).counter, i), old(w).x_bits),
        old(w).x_bits,
    );
}

} // verus!
