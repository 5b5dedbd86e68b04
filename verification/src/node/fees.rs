//! The fee that a wallet is advised to pay: percentiles of what the transfers
//! of the latest blocks paid.

use vstd::prelude::*;

verus! {

/// How many blocks are sampled: four hours at one a minute.
pub const FEE_SAMPLE_BLOCKS: u64 = 240;

/// Whether the numbers never fall.
pub open spec fn rising(s: Seq<u128>) -> bool {
    forall|i: int, j: int| 0 <= i <= j < s.len() ==> s[i] <= s[j]
}

fn merge(a: Vec<u128>, b: Vec<u128>) -> (r: Vec<u128>)
    requires
        rising(a@),
        rising(b@),
    ensures
        rising(r@),
        r@.to_multiset() == a@.to_multiset().add(b@.to_multiset()),
{
    let mut r: Vec<u128> = Vec::new();
    let mut i: usize = 0;
    let mut j: usize = 0;
    proof {
        a@.to_multiset_ensures();
        b@.to_multiset_ensures();
        r@.to_multiset_ensures();
        assert(a@.take(0) =~= Seq::<u128>::empty());
        assert(b@.take(0) =~= Seq::<u128>::empty());
        assert(r@ =~= Seq::<u128>::empty());
        Seq::<u128>::empty().to_multiset_ensures();
        assert(r@.to_multiset() =~= a@.take(0).to_multiset().add(b@.take(0).to_multiset()));
    }
    while i < a.len() || j < b.len()
        invariant
            i <= a.len(),
            j <= b.len(),
            rising(a@),
            rising(b@),
            rising(r@),
            r@.to_multiset() == a@.take(i as int).to_multiset().add(
                b@.take(j as int).to_multiset(),
            ),
            forall|k: int, m: int| 0 <= k < r@.len() && i <= m < a.len() ==> r@[k] <= a@[m],
            forall|k: int, m: int| 0 <= k < r@.len() && j <= m < b.len() ==> r@[k] <= b@[m],
        decreases a.len() - i + b.len() - j,
    {
        let from_a: bool = if i == a.len() {
            false
        } else if j == b.len() {
            true
        } else {
            a[i] <= b[j]
        };
        let ghost before = r@;
        if from_a {
            proof {
                a@.take(i as int).to_multiset_ensures();
                before.to_multiset_ensures();
                assert(a@.take(i as int + 1) =~= a@.take(i as int).push(a@[i as int]));
            }
            r.push(a[i]);
            i += 1;
            assert(r@.to_multiset() =~= a@.take(i as int).to_multiset().add(
                b@.take(j as int).to_multiset(),
            ));
        } else {
            proof {
                b@.take(j as int).to_multiset_ensures();
                before.to_multiset_ensures();
                assert(b@.take(j as int + 1) =~= b@.take(j as int).push(b@[j as int]));
            }
            r.push(b[j]);
            j += 1;
            assert(r@.to_multiset() =~= a@.take(i as int).to_multiset().add(
                b@.take(j as int).to_multiset(),
            ));
        }
    }
    assert(a@.take(i as int) =~= a@);
    assert(b@.take(j as int) =~= b@);
    r
}

fn part(v: &[u128], lo: usize, hi: usize) -> (r: Vec<u128>)
    requires
        lo <= hi <= v.len(),
    ensures
        rising(r@),
        r@.to_multiset() == v@.subrange(lo as int, hi as int).to_multiset(),
    decreases hi - lo,
{
    let n: usize = hi - lo;
    if n <= 1 {
        let mut r: Vec<u128> = Vec::new();
        if n == 1 {
            r.push(v[lo]);
        }
        assert(r@ =~= v@.subrange(lo as int, hi as int));
        return r;
    }
    let mid: usize = lo + n / 2;
    let a = part(v, lo, mid);
    let b = part(v, mid, hi);
    proof {
        let x = v@.subrange(lo as int, mid as int);
        let y = v@.subrange(mid as int, hi as int);
        vstd::seq_lib::lemma_multiset_commutative(x, y);
        assert(v@.subrange(lo as int, hi as int) =~= x + y);
    }
    merge(a, b)
}

/// The numbers in rising order.
pub fn sorted(v: &[u128]) -> (r: Vec<u128>)
    ensures
        rising(r@),
        r@.to_multiset() == v@.to_multiset(),
        r@.len() == v@.len(),
{
    let r = part(v, 0, v.len());
    assert(v@.subrange(0, v@.len() as int) =~= v@);
    proof {
        r@.to_multiset_ensures();
        v@.to_multiset_ensures();
    }
    r
}

/// The rank of a percentile among `n` numbers: the least rank that has at least
/// `p` of a hundred of them at or below it, and never below the first.
pub open spec fn rank(p: nat, n: nat) -> int {
    let r = (p * n + 99) as int / 100;
    if r < 1 {
        1
    } else {
        r
    }
}

pub open spec fn at_least(a: u128, floor: u128) -> u128 {
    if a < floor {
        floor
    } else {
        a
    }
}

/// The nearest-rank percentile of numbers in rising order, not below `floor`.
/// Where there are none it is the floor.
pub open spec fn percentile(s: Seq<u128>, p: nat, floor: u128) -> u128 {
    if s.len() == 0 {
        floor
    } else {
        at_least(s[rank(p, s.len()) - 1], floor)
    }
}

/// What a wallet is advised.
#[derive(Clone, Copy, Debug, PartialEq, Eq)]
pub struct FeeSuggestion {
    pub blocks_sampled: u64,
    pub p10_mile: u128,
    pub p50_mile: u128,
    pub p90_mile: u128,
    pub relay_floor_mile: u128,
}

fn pick(s: &[u128], p: u64, floor: u128) -> (v: u128)
    requires
        1 <= p <= 100,
    ensures
        v == percentile(s@, p as nat, floor),
{
    if s.len() == 0 {
        return floor;
    }
    let n: u128 = s.len() as u128;
    assert(p as int * n <= 100 * n) by (nonlinear_arith)
        requires
            p <= 100,
            n >= 0,
    ;
    assert(p as int * n >= 1) by (nonlinear_arith)
        requires
            p >= 1,
            n >= 1,
    ;
    let r: u128 = (p as u128 * n + 99) / 100;
    assert(1 <= r <= n);
    let f: u128 = s[(r - 1) as usize];
    if f < floor {
        floor
    } else {
        f
    }
}

/// Whether `r` is the advice that the fees give: their percentiles, which are
/// those of any rising order of them.
pub open spec fn is_suggestion(r: FeeSuggestion, blocks: u64, fees: Seq<u128>, floor: u128) -> bool {
    &&& r.blocks_sampled == blocks
    &&& r.relay_floor_mile == floor
    &&& exists|s: Seq<u128>|
        {
            &&& #[trigger] rising(s)
            &&& s.to_multiset() == fees.to_multiset()
            &&& r.p10_mile == percentile(s, 10, floor)
            &&& r.p50_mile == percentile(s, 50, floor)
            &&& r.p90_mile == percentile(s, 90, floor)
        }
}

/// The advice that the fees of the sampled blocks give. The fees are left in
/// rising order.
pub fn suggest_from(blocks: u64, fees: &mut [u128], floor: u128) -> (r: FeeSuggestion)
    ensures
        is_suggestion(r, blocks, old(fees)@, floor),
        rising(final(fees)@),
        final(fees)@.to_multiset() == old(fees)@.to_multiset(),
        r == (FeeSuggestion {
            blocks_sampled: blocks,
            p10_mile: percentile(final(fees)@, 10, floor),
            p50_mile: percentile(final(fees)@, 50, floor),
            p90_mile: percentile(final(fees)@, 90, floor),
            relay_floor_mile: floor,
        }),
{
    let s = sorted(fees);
    let mut i: usize = 0;
    while i < s.len()
        invariant
            i <= s@.len(),
            fees@.len() == s@.len(),
            forall|k: int| 0 <= k < i ==> #[trigger] fees@[k] == s@[k],
        decreases s@.len() - i,
    {
        fees[i] = s[i];
        i += 1;
    }
    assert(fees@ =~= s@);
    assert(rising(fees@));
    FeeSuggestion {
        blocks_sampled: blocks,
        p10_mile: pick(fees, 10, floor),
        p50_mile: pick(fees, 50, floor),
        p90_mile: pick(fees, 90, floor),
        relay_floor_mile: floor,
    }
}

/// The advice is never below what this node relays, and does not fall from one
/// percentile to the next.
pub proof fn law_advice_is_relayed_and_rises(
    r: FeeSuggestion,
    blocks: u64,
    fees: Seq<u128>,
    floor: u128,
)
    requires
        is_suggestion(r, blocks, fees, floor),
    ensures
        floor <= r.p10_mile <= r.p50_mile <= r.p90_mile,
        fees.len() == 0 ==> r.p90_mile == floor,
{
    let s = choose|s: Seq<u128>|
        {
            &&& #[trigger] rising(s)
            &&& s.to_multiset() == fees.to_multiset()
            &&& r.p10_mile == percentile(s, 10, floor)
            &&& r.p50_mile == percentile(s, 50, floor)
            &&& r.p90_mile == percentile(s, 90, floor)
        };
    s.to_multiset_ensures();
    fees.to_multiset_ensures();
    assert(s.len() == fees.len());
    if s.len() > 0 {
        let a = rank(10, s.len()) - 1;
        let b = rank(50, s.len()) - 1;
        let c = rank(90, s.len()) - 1;
        assert(0 <= a <= b <= c < s.len());
        assert(s[a] <= s[b]);
        assert(s[b] <= s[c]);
    }
}

/// The fees determine the advice: how they are put in order makes no
/// difference.
pub proof fn law_the_fees_determine_the_advice(
    a: FeeSuggestion,
    b: FeeSuggestion,
    blocks: u64,
    fees: Seq<u128>,
    floor: u128,
)
    requires
        is_suggestion(a, blocks, fees, floor),
        is_suggestion(b, blocks, fees, floor),
    ensures
        a == b,
{
    let s = choose|s: Seq<u128>|
        {
            &&& #[trigger] rising(s)
            &&& s.to_multiset() == fees.to_multiset()
            &&& a.p10_mile == percentile(s, 10, floor)
            &&& a.p50_mile == percentile(s, 50, floor)
            &&& a.p90_mile == percentile(s, 90, floor)
        };
    let t = choose|t: Seq<u128>|
        {
            &&& #[trigger] rising(t)
            &&& t.to_multiset() == fees.to_multiset()
            &&& b.p10_mile == percentile(t, 10, floor)
            &&& b.p50_mile == percentile(t, 50, floor)
            &&& b.p90_mile == percentile(t, 90, floor)
        };
    let leq = |x: u128, y: u128| x <= y;
    assert(vstd::relations::sorted_by(s, leq));
    assert(vstd::relations::sorted_by(t, leq));
    vstd::seq_lib::lemma_sorted_unique(s, t, leq);
}

/// How many of the fees are not above `v`.
pub open spec fn at_most(fees: Seq<u128>, v: int) -> nat
    decreases fees.len(),
{
    if fees.len() == 0 {
        0
    } else {
        at_most(fees.drop_last(), v) + if fees.last() <= v {
            1nat
        } else {
            0nat
        }
    }
}

/// The order of the fees makes no difference to how many are not above `v`.
proof fn lemma_at_most_multiset(s: Seq<u128>, v: int)
    ensures
        at_most(s, v) == s.to_multiset().filter(|x: u128| x <= v).len(),
    decreases s.len(),
{
    let p = |x: u128| x <= v;
    s.to_multiset_ensures();
    if s.len() == 0 {
        assert(s.to_multiset().filter(p) =~= vstd::multiset::Multiset::empty());
    } else {
        let t = s.drop_last();
        lemma_at_most_multiset(t, v);
        t.to_multiset_ensures();
        assert(t.push(s.last()) =~= s);
        let m = t.to_multiset();
        assert(s.to_multiset() =~= m.insert(s.last()));
        if s.last() <= v {
            assert(m.insert(s.last()).filter(p) =~= m.filter(p).insert(s.last()));
        } else {
            assert(m.insert(s.last()).filter(p) =~= m.filter(p));
        }
    }
}

proof fn lemma_at_most_bounds(s: Seq<u128>, v: int, k: int)
    requires
        0 <= k <= s.len(),
    ensures
        (forall|i: int| 0 <= i < k ==> (#[trigger] s[i]) <= v) ==> at_most(s, v) >= k,
        (forall|i: int| k <= i < s.len() ==> (#[trigger] s[i]) > v) ==> at_most(s, v) <= k,
        at_most(s, v) <= s.len(),
    decreases s.len(),
{
    if s.len() > 0 {
        let t = s.drop_last();
        if k < s.len() {
            lemma_at_most_bounds(t, v, k);
            if forall|i: int| 0 <= i < k ==> (#[trigger] s[i]) <= v {
                assert(forall|i: int| 0 <= i < k ==> (#[trigger] t[i]) <= v);
            }
            if forall|i: int| k <= i < s.len() ==> (#[trigger] s[i]) > v {
                assert(s[s.len() - 1] > v);
                assert forall|i: int| k <= i < t.len() implies (#[trigger] t[i]) > v by {
                    assert(s[i] > v);
                }
            }
        } else {
            lemma_at_most_bounds(t, v, k - 1);
            if forall|i: int| 0 <= i < k ==> (#[trigger] s[i]) <= v {
                assert(s[k - 1] <= v);
                assert(forall|i: int| 0 <= i < k - 1 ==> (#[trigger] t[i]) <= v);
            }
        }
    }
}

/// Whether `x` is the fee below which less than `p` of a hundred of the fees lie,
/// while at least `p` of a hundred are not above it, raised to the floor where it
/// is lower.
pub open spec fn splits(fees: Seq<u128>, p: int, floor: u128, x: u128) -> bool {
    exists|f: u128| #[trigger]
        fees.contains(f) && x == (if f < floor {
            floor
        } else {
            f
        }) && 100 * at_most(fees, f as int) >= p * fees.len() && 100 * at_most(fees, f - 1) < p
            * fees.len()
}

proof fn lemma_percentile_splits(s: Seq<u128>, fees: Seq<u128>, p: nat, floor: u128)
    requires
        rising(s),
        s.to_multiset() == fees.to_multiset(),
        fees.len() > 0,
        1 <= p <= 100,
    ensures
        splits(fees, p as int, floor, percentile(s, p, floor)),
{
    s.to_multiset_ensures();
    fees.to_multiset_ensures();
    let n = s.len();
    assert(n == fees.len());
    assert(p * n <= 100 * n) by (nonlinear_arith)
        requires
            p <= 100,
    ;
    assert(p * n >= 1) by (nonlinear_arith)
        requires
            p >= 1,
            n >= 1,
    ;
    let k = rank(p, n) - 1;
    assert(0 <= k < n);
    let f = s[k];
    assert(s.contains(f));
    assert(fees.to_multiset().count(f) > 0);
    assert(fees.contains(f));
    lemma_at_most_bounds(s, f as int, k + 1);
    lemma_at_most_bounds(s, f - 1, k);
    lemma_at_most_multiset(s, f as int);
    lemma_at_most_multiset(fees, f as int);
    lemma_at_most_multiset(s, f - 1);
    lemma_at_most_multiset(fees, f - 1);
}

/// Each percentile of the advice is one of the fees that were paid, raised to
/// the floor: the one at its rank, with less than its share of the fees below it
/// and at least its share not above it. Without fees the advice is the floor. It
/// carries the number of blocks and the floor that it was made with.
pub proof fn law_percentiles_are_fees_at_their_rank(
    r: FeeSuggestion,
    blocks: u64,
    fees: Seq<u128>,
    floor: u128,
)
    requires
        is_suggestion(r, blocks, fees, floor),
    ensures
        r.blocks_sampled == blocks,
        r.relay_floor_mile == floor,
        fees.len() > 0 ==> splits(fees, 10, floor, r.p10_mile),
        fees.len() > 0 ==> splits(fees, 50, floor, r.p50_mile),
        fees.len() > 0 ==> splits(fees, 90, floor, r.p90_mile),
        fees.len() == 0 ==> r.p10_mile == floor && r.p50_mile == floor && r.p90_mile == floor,
{
    let s = choose|s: Seq<u128>|
        {
            &&& #[trigger] rising(s)
            &&& s.to_multiset() == fees.to_multiset()
            &&& r.p10_mile == percentile(s, 10, floor)
            &&& r.p50_mile == percentile(s, 50, floor)
            &&& r.p90_mile == percentile(s, 90, floor)
        };
    if fees.len() > 0 {
        lemma_percentile_splits(s, fees, 10, floor);
        lemma_percentile_splits(s, fees, 50, floor);
        lemma_percentile_splits(s, fees, 90, floor);
    } else {
        s.to_multiset_ensures();
        fees.to_multiset_ensures();
    }
}

// ---------------------------------------------------------------------------
// The sample

/// The lowest height of the `count` blocks up to `tip`.
pub open spec fn lowest(tip: u64, count: u64) -> int {
    let back = if count == 0 {
        0
    } else {
        count - 1
    };
    if tip < back {
        0
    } else {
        tip - back
    }
}

/// The fees of the blocks, one block behind another.
pub open spec fn flat(got: Seq<Seq<u128>>) -> Seq<u128>
    decreases got.len(),
{
    if got.len() == 0 {
        Seq::empty()
    } else {
        flat(got.drop_last()) + got.last()
    }
}

/// A sample that walks from the tip down. It takes in what is read at each
/// height, and is over at the lowest height of the window or at the first
/// height that has no body any more.
#[derive(Clone, Debug)]
pub struct Sample {
    pub tip: u64,
    pub count: u64,
    pub blocks: u64,
    pub fees: Vec<u128>,
    pub over: bool,
}

impl Sample {
    pub open spec fn wf(self) -> bool {
        &&& 0 <= self.blocks <= self.tip - lowest(self.tip, self.count) + 1
        &&& self.blocks > self.tip ==> self.over
        &&& self.blocks > self.tip - lowest(self.tip, self.count) ==> self.over
    }

    /// A sample of the `count` blocks up to `tip`.
    pub fn new(tip: u64, count: u64) -> (s: Sample)
        ensures
            s.wf(),
            s.tip == tip,
            s.count == count,
            s.blocks == 0,
            s.fees@.len() == 0,
            !s.over,
    {
        Sample { tip, count, blocks: 0, fees: Vec::new(), over: false }
    }

    /// The height to read next, if the sample is not over.
    pub fn next(&self) -> (r: Option<u64>)
        requires
            self.wf(),
        ensures
            r == (if self.over {
                None
            } else {
                Some((self.tip - self.blocks) as u64)
            }),
            r matches Some(h) ==> lowest(self.tip, self.count) <= h <= self.tip,
    {
        if self.over {
            None
        } else {
            Some(self.tip - self.blocks)
        }
    }

    /// Takes in the fees of the transfers at the height that was asked for, or
    /// that there is no body there.
    pub fn give(&mut self, read: Option<Vec<u128>>)
        requires
            old(self).wf(),
            !old(self).over,
        ensures
            final(self).wf(),
            final(self).tip == old(self).tip,
            final(self).count == old(self).count,
            match read {
                Some(v) => {
                    &&& final(self).blocks == old(self).blocks + 1
                    &&& final(self).fees@ == old(self).fees@ + v@
                    &&& final(self).over == (old(self).tip - old(self).blocks == lowest(
                        old(self).tip,
                        old(self).count,
                    ))
                },
                None => {
                    &&& final(self).blocks == old(self).blocks
                    &&& final(self).fees@ == old(self).fees@
                    &&& final(self).over
                },
            },
    {
        match read {
            Some(v) => {
                let mut i: usize = 0;
                let ghost before = self.fees@;
                assert(before + v@.take(0) =~= before);
                while i < v.len()
                    invariant
                        i <= v.len(),
                        self.tip == old(self).tip,
                        self.count == old(self).count,
                        self.blocks == old(self).blocks,
                        self.over == old(self).over,
                        before == old(self).fees@,
                        self.fees@ == before + v@.take(i as int),
                    decreases v.len() - i,
                {
                    self.fees.push(v[i]);
                    i += 1;
                    assert(before + v@.take(i as int) =~= (before + v@.take(i - 1)).push(
                        v@[i - 1],
                    ));
                }
                assert(v@.take(i as int) =~= v@);
                let back: u64 = if self.count == 0 {
                    0
                } else {
                    self.count - 1
                };
                let low: u64 = if self.tip < back {
                    0
                } else {
                    self.tip - back
                };
                if self.tip - self.blocks == low {
                    self.over = true;
                }
                self.blocks += 1;
            },
            None => {
                self.over = true;
            },
        }
    }

    /// The advice that the sample gives.
    pub fn suggest(&self, floor: u128) -> (r: FeeSuggestion)
        ensures
            is_suggestion(r, self.blocks, self.fees@, floor),
    {
        let mut fees = sorted(self.fees.as_slice());
        suggest_from(self.blocks, fees.as_mut_slice(), floor)
    }
}

/// The fees of the transfers in the `count` blocks up to `tip`, and how many
/// blocks were read. `read` gives the fees at a height, or nothing where the
/// store has no body any more: the sample ends there.
pub fn sample_transfer_fees<F: Fn(u64) -> Option<Vec<u128>>>(read: F, tip: u64, count: u64) -> (s:
    Sample)
    requires
        forall|h: u64| call_requires(read, (h,)),
    ensures
        is_sample(read, s, tip, count),
{
    let mut s = Sample::new(tip, count);
    let ghost mut got: Seq<Vec<u128>> = Seq::empty();
    assert(s.fees@ =~= flat(all_views(got)));
    while !s.over
        invariant
            s.wf(),
            s.tip == tip,
            s.count == count,
            forall|h: u64| call_requires(read, (h,)),
            walked(read, got, tip),
            s.blocks == got.len(),
            s.fees@ == flat(all_views(got)),
            s.over ==> s.blocks == tip - lowest(tip, count) + 1 || (s.blocks <= tip
                && call_ensures(read, ((tip - s.blocks) as u64,), None)),
        decreases tip + 1 - s.blocks + (if s.over {
            0int
        } else {
            1
        }),
    {
        let h: u64 = s.tip - s.blocks;
        let r = read(h);
        match r {
            Some(v) => {
                proof {
                    let more = got.push(v);
                    assert(all_views(more).drop_last() =~= all_views(got));
                    got = more;
                }
                s.give(Some(v));
            },
            None => {
                s.give(None);
            },
        }
    }
    assert(is_sample_of(read, s, tip, count, got));
    s
}

pub open spec fn all_views(got: Seq<Vec<u128>>) -> Seq<Seq<u128>> {
    Seq::new(got.len(), |k: int| got[k]@)
}

/// `got` is what was read from the tip down.
pub open spec fn walked<F: Fn(u64) -> Option<Vec<u128>>>(
    read: F,
    got: Seq<Vec<u128>>,
    tip: u64,
) -> bool {
    got.len() <= tip + 1 && forall|k: int|
        0 <= k < got.len() ==> call_ensures(
            read,
            ((tip - k) as u64,),
            Some(#[trigger] got[k]),
        )
}

pub open spec fn is_sample_of<F: Fn(u64) -> Option<Vec<u128>>>(
    read: F,
    s: Sample,
    tip: u64,
    count: u64,
    got: Seq<Vec<u128>>,
) -> bool {
    &&& walked(read, got, tip)
    &&& s.blocks == got.len()
    &&& s.fees@ == flat(all_views(got))
    &&& s.blocks == tip - lowest(tip, count) + 1 || (s.blocks <= tip - lowest(tip, count)
        && call_ensures(read, ((tip - s.blocks) as u64,), None))
}

/// Whether `s` is a sample of the `count` blocks up to `tip`: the whole window,
/// or what stands above the first height without a body.
pub open spec fn is_sample<F: Fn(u64) -> Option<Vec<u128>>>(
    read: F,
    s: Sample,
    tip: u64,
    count: u64,
) -> bool {
    exists|got: Seq<Vec<u128>>| #[trigger] is_sample_of(read, s, tip, count, got)
}

/// The last advice, and the tip it was given at.
#[derive(Clone, Copy, Debug)]
pub struct FeeCache {
    pub last: Option<([u8; 32], FeeSuggestion)>,
}

impl FeeCache {
    /// The last advice, if the tip has not moved since.
    pub fn get(&self, tip: &[u8; 32]) -> (r: Option<FeeSuggestion>)
        ensures
            r == (match self.last {
                Some(l) => if l.0@ == tip@ {
                    Some(l.1)
                } else {
                    None
                },
                None => None,
            }),
    {
        match &self.last {
            Some(l) => if crate::node::keys::same_key(&l.0, tip) {
                Some(l.1)
            } else {
                None
            },
            None => None,
        }
    }

    /// Keeps the advice for as long as the tip stands.
    pub fn put(&mut self, tip: [u8; 32], s: FeeSuggestion)
        ensures
            final(self).last == Some((tip, s)),
    {
        self.last = Some((tip, s));
    }
}

// ---------------------------------------------------------------------------
// What a sample holds

/// The fees of a block stand behind those of the blocks before it, as they were
/// read.
pub proof fn law_fees_stand_in_the_order_they_were_read(got: Seq<Seq<u128>>, v: Seq<u128>)
    ensures
        flat(Seq::empty()).len() == 0,
        flat(got.push(v)) == flat(got) + v,
{
    assert(got.push(v).drop_last() =~= got);
}

/// A sample reads one height after another from the tip down. It reads at most
/// `count` of them, one where `count` is 0, and none below the first block; it
/// ends earlier only where there is no body. It holds what was read and nothing
/// else.
pub proof fn law_a_sample_covers_its_window<F: Fn(u64) -> Option<Vec<u128>>>(
    read: F,
    s: Sample,
    tip: u64,
    count: u64,
) -> (got: Seq<Vec<u128>>)
    requires
        is_sample(read, s, tip, count),
    ensures
        s.blocks <= tip + 1,
        s.blocks <= 1 || s.blocks <= count,
        s.blocks < tip + 1 && (s.blocks == 0 || s.blocks < count) ==> call_ensures(
            read,
            ((tip - s.blocks) as u64,),
            None,
        ),
        got.len() == s.blocks,
        forall|k: int|
            0 <= k < got.len() ==> call_ensures(read, ((tip - k) as u64,), Some(#[trigger] got[k])),
        s.fees@ == flat(all_views(got)),
        forall|k: int| 0 <= k < got.len() ==> all_views(got)[k] == (#[trigger] got[k])@,
        all_views(got).len() == got.len(),
{
    choose|got: Seq<Vec<u128>>| #[trigger] is_sample_of(read, s, tip, count, got)
}

/// The advice that is kept is given as long as the tip is the one it was kept
/// for, and for no other.
pub proof fn law_kept_advice_is_for_its_tip(
    c: &FeeCache,
    kept: [u8; 32],
    s: FeeSuggestion,
    tip: &[u8; 32],
    r: Option<FeeSuggestion>,
)
    requires
        call_ensures(FeeCache::get, (c, tip), r),
    ensures
        c.last == Some((kept, s)) && kept@ == tip@ ==> r == Some(s),
        c.last == Some((kept, s)) && kept@ != tip@ ==> r is None,
        c.last is None ==> r is None,
{
}

} // verus!
