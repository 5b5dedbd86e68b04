//! The work of a miner: targets, the layout of nonces, and what the workers
//! share.

use vstd::prelude::*;
use crate::miner::json;
use crate::miner::json::hex;

verus! {

pub const E1_BITS: u32 = 24;

pub const X_BITS: u32 = 64 - E1_BITS;

pub const X_BYTES: u64 = 5;

pub const X_BYTES_MIN: u64 = 4;

pub const X_BITS_MIN: u32 = 32;

pub const THREAD_BITS: u32 = 8;

/// One worker owns one of `2^THREAD_BITS` nonce lanes, so this many workers is
/// the ceiling. Past it the lane index overflows, its top bits are cut, and two
/// workers walk the same nonces: the server sees duplicate shares.
pub const MAX_WORKERS: usize = 256;

pub const PREFIX_BYTES: usize = 124;

pub const HEADER_BYTES: usize = 132;

pub const JOB_SLOTS: usize = 4;

/// How often a server sends a job even if nothing changed, in milliseconds.
pub const SERVER_JOB_REFRESH: u64 = 15_000;

/// How long a displaced job still earns credit, in milliseconds.
pub const STALE_CREDIT_GRACE: u64 = 5_000;

/// Where the compact network target stands in a header.
pub const BITS_OFFSET: usize = 116;

// ---------------------------------------------------------------------------
// Numbers as bytes

/// The `len` lowest bytes of `n`, the highest first.
pub open spec fn be_bytes(n: nat, len: nat) -> Seq<u8>
    decreases len,
{
    if len == 0 {
        Seq::empty()
    } else {
        be_bytes(n / 256, (len - 1) as nat).push((n % 256) as u8)
    }
}

/// The `len` lowest bytes of `n`, the lowest first.
pub open spec fn le_bytes(n: nat, len: nat) -> Seq<u8> {
    be_bytes(n, len).reverse()
}

/// `256^k`.
pub open spec fn pow256(k: nat) -> nat
    decreases k,
{
    if k == 0 {
        1
    } else {
        256 * pow256((k - 1) as nat)
    }
}

/// 2^64, the size of a limb.
pub open spec fn limb() -> nat {
    0x1_0000_0000_0000_0000
}

proof fn lemma_be_len(n: nat, len: nat)
    ensures
        be_bytes(n, len).len() == len,
    decreases len,
{
    if len > 0 {
        lemma_be_len(n / 256, (len - 1) as nat);
    }
}

/// The bytes of `hi * 256^k + lo` are those of `hi`, then the `k` of `lo`.
proof fn lemma_be_split(hi: nat, lo: nat, len: nat, k: nat)
    requires
        lo < pow256(k),
    ensures
        be_bytes(hi * pow256(k) + lo, len + k) == be_bytes(hi, len) + be_bytes(lo, k),
    decreases k,
{
    if k == 0 {
        assert(hi * 1 == hi);
        assert(be_bytes(hi, len) + be_bytes(lo, 0) =~= be_bytes(hi, len));
    } else {
        let p = pow256((k - 1) as nat);
        let n = hi * pow256(k) + lo;
        assert(n == 256 * (hi * p) + lo) by (nonlinear_arith)
            requires
                n == hi * (256 * p) + lo,
        ;
        assert(n / 256 == hi * p + lo / 256);
        assert(n % 256 == lo % 256);
        lemma_be_split(hi, lo / 256, len, (k - 1) as nat);
        assert(be_bytes(n, len + k) =~= be_bytes(hi, len) + be_bytes(lo, k));
    }
}

proof fn lemma_pow256_8()
    ensures
        pow256(8) == limb(),
{
    reveal_with_fuel(pow256, 9);
}

/// The eight bytes of `n`, the highest first.
pub fn be8(n: u64) -> (b: [u8; 8])
    ensures
        b@ == be_bytes(n as nat, 8),
{
    let n1: u64 = n / 256;
    let n2: u64 = n1 / 256;
    let n3: u64 = n2 / 256;
    let n4: u64 = n3 / 256;
    let n5: u64 = n4 / 256;
    let n6: u64 = n5 / 256;
    let n7: u64 = n6 / 256;
    let b: [u8; 8] = [
        (n7 % 256) as u8,
        (n6 % 256) as u8,
        (n5 % 256) as u8,
        (n4 % 256) as u8,
        (n3 % 256) as u8,
        (n2 % 256) as u8,
        (n1 % 256) as u8,
        (n % 256) as u8,
    ];
    proof {
        reveal_with_fuel(be_bytes, 9);
        assert(b@ =~= be_bytes(n as nat, 8));
    }
    b
}

// ---------------------------------------------------------------------------
// Targets

/// The number that four limbs denote, the lowest first.
pub open spec fn limbs_value(l: Seq<u64>) -> nat {
    l[0] as nat + limb() * (l[1] as nat + limb() * (l[2] as nat + limb() * (l[3] as nat)))
}

/// A 256-bit number as 32 bytes, the highest first.
pub fn limbs_be(l: &[u64; 4]) -> (out: [u8; 32])
    ensures
        out@ == be_bytes(limbs_value(l@), 32),
{
    let a: [u8; 8] = be8(l[3]);
    let b: [u8; 8] = be8(l[2]);
    let c: [u8; 8] = be8(l[1]);
    let d: [u8; 8] = be8(l[0]);
    let out: [u8; 32] = [
        a[0], a[1], a[2], a[3], a[4], a[5], a[6], a[7],
        b[0], b[1], b[2], b[3], b[4], b[5], b[6], b[7],
        c[0], c[1], c[2], c[3], c[4], c[5], c[6], c[7],
        d[0], d[1], d[2], d[3], d[4], d[5], d[6], d[7],
    ];
    proof {
        lemma_pow256_8();
        let l0 = l@[0] as nat;
        let l1 = l@[1] as nat;
        let l2 = l@[2] as nat;
        let l3 = l@[3] as nat;
        lemma_be_split(l3, l2, 8, 8);
        lemma_be_split(l3 * limb() + l2, l1, 16, 8);
        lemma_be_split((l3 * limb() + l2) * limb() + l1, l0, 24, 8);
        assert(limbs_value(l@) == ((l3 * limb() + l2) * limb() + l1) * limb() + l0) by {
            assert(limb() * (l2 + limb() * l3) == (l3 * limb() + l2) * limb());
        }
        assert(out@ =~= a@ + b@ + c@ + d@);
        assert(out@ =~= be_bytes(limbs_value(l@), 32));
    }
    out
}

/// The compact target of a header: the little-endian number at its place.
pub open spec fn bits_value(prefix: Seq<u8>) -> int {
    prefix[116] + 256 * prefix[117] + 65536 * prefix[118] + 16777216 * prefix[119]
}

/// The compact target that a header prefix carries.
pub fn network_bits(prefix: &[u8; PREFIX_BYTES]) -> (bits: u32)
    ensures
        bits == bits_value(prefix@),
{
    prefix[BITS_OFFSET] as u32 + 256 * (prefix[BITS_OFFSET + 1] as u32) + 65536 * (
    prefix[BITS_OFFSET + 2] as u32) + 16777216 * (prefix[BITS_OFFSET + 3] as u32)
}

/// Whether `r` is the target of a header: what `decode` made of the number that
/// stands in the header, as 32 bytes, the highest first.
pub open spec fn is_network_target<F: Fn(u32) -> Option<[u64; 4]>>(
    decode: F,
    prefix: Seq<u8>,
    r: Option<[u8; 32]>,
) -> bool {
    exists|limbs: Option<[u64; 4]>| #[trigger]
        call_ensures(decode, (bits_value(prefix) as u32,), limbs) && (match limbs {
            Some(l) => r is Some && r->Some_0@ == be_bytes(limbs_value(l@), 32),
            None => r is None,
        })
}

/// The target of a header as 32 bytes, the highest first, where `decode` turns
/// a compact target into four limbs, the lowest first. `decode` is asked once,
/// for the number that stands in the header.
pub fn network_target_from_prefix<F: Fn(u32) -> Option<[u64; 4]>>(
    prefix: &[u8; PREFIX_BYTES],
    decode: F,
) -> (r: Option<[u8; 32]>)
    requires
        call_requires(decode, (bits_value(prefix@) as u32,)),
    ensures
        is_network_target(decode, prefix@, r),
{
    let bits: u32 = network_bits(prefix);
    let limbs = decode(bits);
    target_be_from_bits(limbs)
}

/// Whether a decoder is a function: it makes the same of the same number.
pub open spec fn is_function<F: Fn(u32) -> Option<[u64; 4]>>(decode: F) -> bool {
    forall|bits: u32, x: Option<[u64; 4]>, y: Option<[u64; 4]>|
        #![trigger call_ensures(decode, (bits,), x), call_ensures(decode, (bits,), y)]
        call_ensures(decode, (bits,), x) && call_ensures(decode, (bits,), y) ==> x == y
}

/// Headers that carry the same compact target have the same target, whatever
/// else they hold, for a decoder that is a function.
pub proof fn law_the_bits_alone_decide<F: Fn(u32) -> Option<[u64; 4]>>(
    decode: F,
    p: Seq<u8>,
    q: Seq<u8>,
    r: Option<[u8; 32]>,
    s: Option<[u8; 32]>,
)
    requires
        is_function(decode),
        p.len() == PREFIX_BYTES,
        q.len() == PREFIX_BYTES,
        p.subrange(116, 120) == q.subrange(116, 120),
        is_network_target(decode, p, r),
        is_network_target(decode, q, s),
    ensures
        r is Some <==> s is Some,
        r matches Some(t) ==> t@ == s->Some_0@,
{
    assert forall|i: int| 116 <= i < 120 implies p[i] == q[i] by {
        assert(p[i] == p.subrange(116, 120)[i - 116]);
        assert(q[i] == q.subrange(116, 120)[i - 116]);
    }
}

proof fn lemma_zero_bytes(k: nat)
    ensures
        be_bytes(0, k) == Seq::new(k, |i: int| 0u8),
    decreases k,
{
    if k > 0 {
        lemma_zero_bytes((k - 1) as nat);
    }
    assert(be_bytes(0, k) =~= Seq::new(k, |i: int| 0u8));
}

/// A header of zeros has the target zero, which no hash is meant to meet, for a
/// decoder that makes zero of zero.
pub proof fn law_a_blank_header_has_no_target<F: Fn(u32) -> Option<[u64; 4]>>(
    decode: F,
    p: Seq<u8>,
    r: Option<[u8; 32]>,
)
    requires
        forall|x: Option<[u64; 4]>| #[trigger]
            call_ensures(decode, (0u32,), x) ==> x is Some && limbs_value(x->Some_0@) == 0,
        p == Seq::new(PREFIX_BYTES as nat, |i: int| 0u8),
        is_network_target(decode, p, r),
    ensures
        r matches Some(t) && t@ == Seq::new(32, |i: int| 0u8),
{
    lemma_zero_bytes(32);
}

/// What the limbs of a decoded compact target are as 32 bytes, the highest
/// first; nothing where there was nothing to decode.
pub fn target_be_from_bits(limbs: Option<[u64; 4]>) -> (r: Option<[u8; 32]>)
    ensures
        r is Some <==> limbs is Some,
        r matches Some(t) ==> t@ == be_bytes(limbs_value(limbs->Some_0@), 32),
{
    match limbs {
        Some(l) => Some(limbs_be(&l)),
        None => None,
    }
}

/// 2^256.
pub open spec fn two_256() -> nat {
    limb() * (limb() * (limb() * limb()))
}

/// The target of a share difficulty: all ones up to difficulty one, else the
/// whole part of 2^256 divided by the difficulty.
pub open spec fn share_target(d: nat) -> nat {
    if d <= 1 {
        (two_256() - 1) as nat
    } else {
        two_256() / d
    }
}

pub(crate) proof fn lemma_ones(n: nat, k: nat)
    requires
        n + 1 == pow256(k),
    ensures
        be_bytes(n, k) == Seq::new(k, |i: int| 255u8),
    decreases k,
{
    if k > 0 {
        assert(n / 256 + 1 == pow256((k - 1) as nat));
        assert(n % 256 == 255);
        lemma_ones(n / 256, (k - 1) as nat);
        assert(be_bytes(n, k) =~= Seq::new(k, |i: int| 255u8));
    } else {
        assert(be_bytes(n, k) =~= Seq::new(k, |i: int| 255u8));
    }
}

/// One step of a long division: `p` divided so far, `q` and `rem` of it.
fn divide_step(rem: u64, digit: u64, d: u64, p: Ghost<nat>, q: Ghost<nat>) -> (r: (u64, u64))
    requires
        d >= 1,
        rem < d,
        p@ == d * q@ + rem,
    ensures
        r.1 < d,
        p@ * limb() + digit == d * (q@ * limb() + r.0) + r.1,
{
    let cur: u128 = rem as u128 * 0x1_0000_0000_0000_0000 + digit as u128;
    assert(cur < d * limb()) by (nonlinear_arith)
        requires
            cur == rem * limb() + digit,
            rem < d,
            digit < limb(),
    ;
    let t: u128 = cur / d as u128;
    let m: u128 = cur % d as u128;
    proof {
        vstd::arithmetic::div_mod::lemma_fundamental_div_mod(cur as int, d as int);
        assert(t < limb()) by (nonlinear_arith)
            requires
                cur < d * limb(),
                cur == d * t + m,
                m >= 0,
        ;
        assert(p@ * limb() + digit == d * (q@ * limb() + t) + m) by (nonlinear_arith)
            requires
                p@ == d * q@ + rem,
                cur == rem * limb() + digit,
                cur == d * t + m,
        ;
    }
    (t as u64, m as u64)
}

/// The target of a share difficulty as 32 bytes, the highest first.
pub fn target_from_difficulty(d: u64) -> (out: [u8; 32])
    ensures
        out@ == be_bytes(share_target(d as nat), 32),
{
    if d <= 1 {
        let out: [u8; 32] = [0xff; 32];
        proof {
            reveal_with_fuel(pow256, 33);
            lemma_ones(share_target(d as nat), 32);
            assert(out@ =~= be_bytes(share_target(d as nat), 32));
        }
        return out;
    }
    let ghost b = limb();
    let s3: (u64, u64) = divide_step(1, 0, d, Ghost(1), Ghost(0));
    let s2: (u64, u64) = divide_step(s3.1, 0, d, Ghost(b), Ghost(s3.0 as nat));
    let s1: (u64, u64) = divide_step(s2.1, 0, d, Ghost(b * b), Ghost(s3.0 as nat * b + s2.0 as nat));
    let s0: (u64, u64) = divide_step(
        s1.1,
        0,
        d,
        Ghost(b * b * b),
        Ghost((s3.0 as nat * b + s2.0 as nat) * b + s1.0 as nat),
    );
    let l: [u64; 4] = [s0.0, s1.0, s2.0, s3.0];
    proof {
        let q = limbs_value(l@);
        assert(two_256() == d * q + s0.1) by {
            assert(q == ((s3.0 * b + s2.0) * b + s1.0) * b + s0.0);
        }
        assert(two_256() / (d as nat) == q) by {
            vstd::arithmetic::div_mod::lemma_fundamental_div_mod_converse(
                two_256() as int,
                d as int,
                q as int,
                s0.1 as int,
            );
        }
    }
    limbs_be(&l)
}

// ---------------------------------------------------------------------------
// Nonces

/// The `bits` lowest bits set.
pub open spec fn low_bits(bits: u32) -> u64 {
    if bits >= 64 {
        u64::MAX
    } else {
        ((1u64 << bits) - 1) as u64
    }
}

/// The `bits` lowest bits set.
pub fn mask(bits: u32) -> (m: u64)
    ensures
        m == low_bits(bits),
{
    if bits >= 64 {
        u64::MAX
    } else {
        assert(1u64 << bits >= 1) by (bit_vector)
            requires
                bits < 64,
        ;
        (1u64 << bits) - 1
    }
}

/// The nonce of slice `e1` with `x` in its `x_bits` lowest bits.
pub open spec fn nonce_of(e1: u32, x: u64, x_bits: u32) -> u64 {
    ((e1 as u64) << x_bits) | (x & low_bits(x_bits))
}

/// Whether a nonce lies in slice `e1`.
pub open spec fn in_slice(e1: u32, nonce: u64, x_bits: u32) -> bool {
    nonce >> x_bits == e1 as u64
}

/// How many slices there are when `x_bits` bits roll.
pub open spec fn slices(x_bits: u32) -> u64 {
    1u64 << ((64 - x_bits) as u32)
}

/// The nonce of slice `e1` with `x` rolled in the whole window.
pub fn compose(e1: u32, x: u64) -> (n: u64)
    ensures
        n == nonce_of(e1, x, X_BITS),
{
    compose_in(e1, x, X_BITS)
}

/// Whether `nonce` lies in slice `e1` of the whole window.
pub fn owns(e1: u32, nonce: u64) -> (r: bool)
    ensures
        r == in_slice(e1, nonce, X_BITS),
{
    owns_in(e1, nonce, X_BITS)
}

/// The nonce of slice `e1` with `x` rolled in a window of `x_bits` bits.
pub fn compose_in(e1: u32, x: u64, x_bits: u32) -> (n: u64)
    requires
        X_BITS_MIN <= x_bits <= X_BITS,
    ensures
        n == nonce_of(e1, x, x_bits),
{
    ((e1 as u64) << x_bits) | (x & mask(x_bits))
}

/// Whether `nonce` lies in slice `e1` of a window of `x_bits` bits.
pub fn owns_in(e1: u32, nonce: u64, x_bits: u32) -> (r: bool)
    requires
        x_bits < 64,
    ensures
        r == in_slice(e1, nonce, x_bits),
{
    (nonce >> x_bits) == e1 as u64
}

/// How many slices there are when `x_bits` bits roll.
pub fn e1_limit(x_bits: u32) -> (n: u64)
    requires
        1 <= x_bits <= 64,
    ensures
        n == slices(x_bits),
{
    1u64 << (64 - x_bits)
}

/// What worker `index` rolls when its counter stands at `counter`: its index
/// in the top `THREAD_BITS` bits of the window, the counter below.
pub open spec fn lane_of(index: u64, counter: u64, x_bits: u32) -> u64 {
    (index << ((x_bits - THREAD_BITS) as u32)) | (counter & low_bits(
        (x_bits - THREAD_BITS) as u32,
    ))
}

/// What worker `index` rolls when its counter stands at `counter`.
pub fn lane_x(index: u64, counter: u64, x_bits: u32) -> (x: u64)
    requires
        X_BITS_MIN <= x_bits <= X_BITS,
    ensures
        x == lane_of(index, counter, x_bits),
{
    let cbits: u32 = x_bits - THREAD_BITS;
    (index << cbits) | (counter & mask(cbits))
}

/// A composed nonce lies in the slice it was composed for.
pub proof fn law_composed_is_owned(e1: u32, x: u64, x_bits: u32)
    requires
        X_BITS_MIN <= x_bits <= X_BITS,
        e1 < slices(x_bits),
    ensures
        in_slice(e1, nonce_of(e1, x, x_bits), x_bits),
{
    let m = low_bits(x_bits);
    let e = e1 as u64;
    let r = (64 - x_bits) as u32;
    assert(1u64 << x_bits >= 1) by (bit_vector)
        requires
            x_bits <= 40,
    ;
    assert(((e << x_bits) | (x & m)) >> x_bits == e) by (bit_vector)
        requires
            32 <= x_bits <= 40,
            r == 64 - x_bits,
            e < 1u64 << r,
            m == (1u64 << x_bits) - 1,
    ;
}

/// A slice of a narrower window lies inside the slice of the whole window that
/// its top bits name.
pub proof fn law_narrow_slice_stays_upstream(e1: u32, nonce: u64, x_bits: u32)
    requires
        X_BITS_MIN <= x_bits <= X_BITS,
        in_slice(e1, nonce, x_bits),
    ensures
        in_slice(e1 >> ((X_BITS - x_bits) as u32), nonce, X_BITS),
{
    let k = (40 - x_bits) as u32;
    assert(nonce >> 40u32 == ((e1 >> k) as u64)) by (bit_vector)
        requires
            32 <= x_bits <= 40,
            k == 40 - x_bits,
            nonce >> x_bits == e1 as u64,
    ;
}

/// Two workers never try the same nonce, and one worker tries a nonce twice
/// only when its counter has gone round: nonces that are equal come from the
/// same worker at counters that agree in the bits that are rolled.
pub proof fn law_lanes_are_disjoint(e1: u32, i: u64, c: u64, j: u64, d: u64, x_bits: u32)
    requires
        X_BITS_MIN <= x_bits <= X_BITS,
        i < MAX_WORKERS,
        j < MAX_WORKERS,
        nonce_of(e1, lane_of(i, c, x_bits), x_bits) == nonce_of(e1, lane_of(j, d, x_bits), x_bits),
    ensures
        i == j,
        c & low_bits((x_bits - THREAD_BITS) as u32) == d & low_bits((x_bits - THREAD_BITS) as u32),
{
    let k = (x_bits - 8) as u32;
    let m = low_bits(k);
    let w = low_bits(x_bits);
    let e = (e1 as u64) << x_bits;
    assert(1u64 << k >= 1 && 1u64 << x_bits >= 1) by (bit_vector)
        requires
            k <= 40,
            x_bits <= 40,
    ;
    assert(i == j && c & m == d & m) by (bit_vector)
        requires
            32 <= x_bits <= 40,
            k == x_bits - 8,
            i < 256,
            j < 256,
            m == (1u64 << k) - 1,
            w == (1u64 << x_bits) - 1,
            e == (e1 as u64) << x_bits,
            e | (((i << k) | (c & m)) & w) == e | (((j << k) | (d & m)) & w),
    ;
}

/// A header: the prefix, and behind it the nonce, its lowest byte first.
pub open spec fn header_of(prefix: Seq<u8>, nonce: u64) -> Seq<u8> {
    prefix + le_bytes(nonce as nat, 8)
}

/// The eight bytes of `n`, the lowest first.
pub fn le8(n: u64) -> (b: [u8; 8])
    ensures
        b@ == le_bytes(n as nat, 8),
{
    let h: [u8; 8] = be8(n);
    let b: [u8; 8] = [h[7], h[6], h[5], h[4], h[3], h[2], h[1], h[0]];
    assert(b@ =~= le_bytes(n as nat, 8));
    b
}

/// The header to hash: the prefix with the nonce behind it.
pub fn assemble(prefix: &[u8; PREFIX_BYTES], nonce: u64) -> (h: [u8; HEADER_BYTES])
    ensures
        h@ == header_of(prefix@, nonce),
{
    let mut h: [u8; HEADER_BYTES] = [0; HEADER_BYTES];
    let n: [u8; 8] = le8(nonce);
    let mut i: usize = 0;
    while i < PREFIX_BYTES
        invariant
            i <= PREFIX_BYTES,
            h@.len() == 132,
            forall|k: int| 0 <= k < i ==> h@[k] == prefix@[k],
        decreases PREFIX_BYTES - i,
    {
        h[i] = prefix[i];
        i += 1;
    }
    i = 0;
    while i < 8
        invariant
            i <= 8,
            h@.len() == 132,
            forall|k: int| 0 <= k < 124 ==> h@[k] == prefix@[k],
            forall|k: int| 0 <= k < i ==> h@[124 + k] == n@[k],
        decreases 8 - i,
    {
        h[PREFIX_BYTES + i] = n[i];
        i += 1;
    }
    proof {
        lemma_be_len(nonce as nat, 8);
        assert forall|k: int| 124 <= k < 132 implies h@[k] == n@[k - 124] by {
            assert(h@[124 + (k - 124)] == n@[k - 124]);
        }
        assert(h@ =~= header_of(prefix@, nonce));
    }
    h
}

/// A nonce as a submit carries it: its bytes, the lowest first, in hexadecimal.
pub fn nonce_hex(n: u64) -> (s: String)
    ensures
        s@ == json::hex_of(le_bytes(n as nat, 8)),
{
    let b: [u8; 8] = le8(n);
    hex(&b)
}

// ---------------------------------------------------------------------------
// What the workers share

/// A job as the workers see it.
#[derive(Debug, Clone)]
pub struct JobView {
    pub job_id: u32,
    pub job_id_hex: String,
    pub prefix: [u8; PREFIX_BYTES],
    pub target: [u8; 32],
    pub network_target: [u8; 32],
    pub height: u64,
    pub live: bool,
}

/// The mathematical value of a `JobView`.
#[verifier::ext_equal]
pub struct Work {
    pub job_id: u32,
    pub job_id_hex: Seq<char>,
    pub prefix: Seq<u8>,
    pub target: Seq<u8>,
    pub network_target: Seq<u8>,
    pub height: u64,
    pub live: bool,
}

impl View for JobView {
    type V = Work;

    open spec fn view(&self) -> Work {
        Work {
            job_id: self.job_id,
            job_id_hex: self.job_id_hex@,
            prefix: self.prefix@,
            target: self.target@,
            network_target: self.network_target@,
            height: self.height,
            live: self.live,
        }
    }
}

/// The job before any job: never mined, and only a hash of zero meets its
/// targets.
pub open spec fn no_work() -> Work {
    Work {
        job_id: 0,
        job_id_hex: "00000000"@,
        prefix: Seq::new(124, |i: int| 0u8),
        target: Seq::new(32, |i: int| 0u8),
        network_target: Seq::new(32, |i: int| 0u8),
        height: 0,
        live: false,
    }
}

impl JobView {
    /// The same job once more.
    pub fn copy(&self) -> (j: JobView)
        ensures
            j@ == self@,
    {
        JobView {
            job_id: self.job_id,
            job_id_hex: self.job_id_hex.as_str().to_owned(),
            prefix: self.prefix,
            target: self.target,
            network_target: self.network_target,
            height: self.height,
            live: self.live,
        }
    }

    /// The job before any job.
    pub fn empty() -> (j: JobView)
        ensures
            j@ == no_work(),
    {
        let j = JobView {
            job_id: 0,
            job_id_hex: "00000000".to_owned(),
            prefix: [0; PREFIX_BYTES],
            target: [0; 32],
            network_target: [0; 32],
            height: 0,
            live: false,
        };
        assert(j.prefix@ =~= Seq::new(124, |i: int| 0u8));
        assert(j.target@ =~= Seq::new(32, |i: int| 0u8));
        assert(j.network_target@ =~= Seq::new(32, |i: int| 0u8));
        assert(j@ =~= no_work());
        j
    }
}

/// What the session tells the workers, and what they count. The program that
/// owns the threads keeps it under its lock.
pub struct Shared {
    generation: u64,
    job: Option<JobView>,
    e1: u32,
    x_bits: u32,
    stop: bool,
    hashes: u64,
    lanes: Vec<u64>,
}

/// The mathematical value of a `Shared`.
#[verifier::ext_equal]
pub struct SharedView {
    pub generation: u64,
    pub job: Option<Work>,
    pub e1: u32,
    pub x_bits: u32,
    pub stop: bool,
    pub hashes: u64,
    pub lanes: Seq<u64>,
}

impl View for Shared {
    type V = SharedView;

    closed spec fn view(&self) -> SharedView {
        SharedView {
            generation: self.generation,
            job: match self.job {
                Some(j) => Some(j@),
                None => None,
            },
            e1: self.e1,
            x_bits: self.x_bits,
            stop: self.stop,
            hashes: self.hashes,
            lanes: self.lanes@,
        }
    }
}

/// The sum of two counters, which go round at 2^64.
pub open spec fn count(a: u64, n: u64) -> u64 {
    ((a + n) % 0x1_0000_0000_0000_0000) as u64
}

/// The window that a server may set: never narrower than `X_BITS_MIN` bits,
/// never wider than `X_BITS`.
pub open spec fn clamp_window(x_bits: u32) -> u32 {
    if x_bits < X_BITS_MIN {
        X_BITS_MIN
    } else if x_bits > X_BITS {
        X_BITS
    } else {
        x_bits
    }
}

/// What another share target makes of what the workers share.
pub open spec fn retargeted(s: SharedView, target: Seq<u8>) -> SharedView {
    let j = match s.job {
        Some(j) => j,
        None => no_work(),
    };
    SharedView { job: Some(Work { target, ..j }), generation: count(s.generation, 1), ..s }
}

impl Default for Shared {
    fn default() -> (s: Shared)
        ensures
            s@.lanes.len() == 0,
            s@.x_bits == X_BITS,
            s@.generation == 0 && s@.job is None && s@.e1 == 0 && !s@.stop && s@.hashes == 0,
    {
        Shared::new(0)
    }
}

impl Shared {
    pub fn new(threads: usize) -> (s: Shared)
        ensures
            s@ == (SharedView {
                generation: 0,
                job: None,
                e1: 0,
                x_bits: X_BITS,
                stop: false,
                hashes: 0,
                lanes: Seq::new(threads as nat, |i: int| 0u64),
            }),
    {
        let mut lanes: Vec<u64> = Vec::new();
        let mut i: usize = 0;
        while i < threads
            invariant
                i <= threads,
                lanes@ == Seq::new(i as nat, |k: int| 0u64),
            decreases threads - i,
        {
            lanes.push(0);
            i += 1;
            assert(lanes@ =~= Seq::new(i as nat, |k: int| 0u64));
        }
        Shared { generation: 0, job: None, e1: 0, x_bits: X_BITS, stop: false, hashes: 0, lanes }
    }

    pub fn add_hashes(&mut self, n: u64)
        ensures
            final(self)@ == (SharedView { hashes: count(old(self)@.hashes, n), ..old(self)@ }),
    {
        self.hashes = self.hashes.wrapping_add(n);
    }

    /// Counts `n` hashes, and for the lane of `worker` too if there is one.
    pub fn add_hashes_from(&mut self, worker: usize, n: u64)
        ensures
            final(self)@ == (SharedView {
                hashes: count(old(self)@.hashes, n),
                lanes: if worker < old(self)@.lanes.len() {
                    old(self)@.lanes.update(
                        worker as int,
                        count(old(self)@.lanes[worker as int], n),
                    )
                } else {
                    old(self)@.lanes
                },
                ..old(self)@
            }),
    {
        self.hashes = self.hashes.wrapping_add(n);
        if worker < self.lanes.len() {
            let v: u64 = self.lanes[worker].wrapping_add(n);
            self.lanes.set(worker, v);
        }
    }

    pub fn lane_count(&self) -> (n: usize)
        ensures
            n == self@.lanes.len(),
    {
        self.lanes.len()
    }

    /// What the lane of `worker` has counted; nothing where there is no lane.
    pub fn lane(&self, worker: usize) -> (n: u64)
        ensures
            n == (if worker < self@.lanes.len() {
                self@.lanes[worker as int]
            } else {
                0
            }),
    {
        if worker < self.lanes.len() {
            self.lanes[worker]
        } else {
            0
        }
    }

    pub fn hashes(&self) -> (n: u64)
        ensures
            n == self@.hashes,
    {
        self.hashes
    }

    pub fn generation(&self) -> (n: u64)
        ensures
            n == self@.generation,
    {
        self.generation
    }

    /// Puts a job before the workers and moves the generation on.
    pub fn publish(&mut self, j: JobView)
        ensures
            final(self)@ == (SharedView {
                job: Some(j@),
                generation: count(old(self)@.generation, 1),
                ..old(self)@
            }),
    {
        self.job = Some(j);
        self.generation = self.generation.wrapping_add(1);
    }

    pub fn job(&self) -> (r: Option<&JobView>)
        ensures
            r is Some <==> self@.job is Some,
            r matches Some(j) ==> self@.job == Some(j@),
    {
        self.job.as_ref()
    }

    /// Gives the job another share target, as a new generation. Where there is
    /// no job yet, the target waits for it in the job before any job.
    pub fn retarget(&mut self, target: [u8; 32])
        ensures
            final(self)@ == retargeted(old(self)@, target@),
    {
        let j = match self.job.take() {
            Some(j) => j,
            None => JobView::empty(),
        };
        self.publish(JobView { target, ..j });
        assert(self@ =~= retargeted(old(self)@, target@));
    }

    /// Sets the slice, with the whole window to roll.
    pub fn set_e1(&mut self, e1: u32)
        ensures
            final(self)@ == (SharedView { e1, x_bits: X_BITS, ..old(self)@ }),
    {
        self.set_window(e1, X_BITS);
    }

    /// Sets the slice and the window to roll.
    pub fn set_window(&mut self, e1: u32, x_bits: u32)
        ensures
            final(self)@ == (SharedView { e1, x_bits: clamp_window(x_bits), ..old(self)@ }),
    {
        self.x_bits = if x_bits < X_BITS_MIN {
            X_BITS_MIN
        } else if x_bits > X_BITS {
            X_BITS
        } else {
            x_bits
        };
        self.e1 = e1;
    }

    pub fn e1(&self) -> (n: u32)
        ensures
            n == self@.e1,
    {
        self.e1
    }

    pub fn x_bits(&self) -> (n: u32)
        ensures
            n == self@.x_bits,
    {
        self.x_bits
    }

    pub fn stop(&mut self)
        ensures
            final(self)@ == (SharedView { stop: true, ..old(self)@ }),
    {
        self.stop = true;
    }

    pub fn stopped(&self) -> (r: bool)
        ensures
            r == self@.stop,
    {
        self.stop
    }
}

/// A nonce that met the share target.
#[derive(Debug, Clone, Copy)]
pub struct Solution {
    pub job_id: u32,
    pub nonce: u64,
    pub pow_hash: [u8; 32],
    pub height: u64,
    pub is_block: bool,
}

/// A composed nonce keeps what is rolled in its low bits.
pub proof fn law_a_composed_nonce_keeps_what_is_rolled(e1: u32, x: u64, x_bits: u32)
    requires
        X_BITS_MIN <= x_bits <= X_BITS,
    ensures
        nonce_of(e1, x, x_bits) & low_bits(x_bits) == x & low_bits(x_bits),
        low_bits(x_bits) == (1u64 << x_bits) - 1,
{
    let m = low_bits(x_bits);
    let e = e1 as u64;
    assert(1u64 << x_bits >= 1) by (bit_vector)
        requires
            x_bits <= 40,
    ;
    assert(((e << x_bits) | (x & m)) & m == x & m) by (bit_vector)
        requires
            32 <= x_bits <= 40,
            m == (1u64 << x_bits) - 1,
    ;
}

/// A worker rolls its index above its counter: both are read off what it rolls.
pub proof fn law_a_lane_keeps_its_index_and_counter(index: u64, counter: u64, x_bits: u32)
    requires
        X_BITS_MIN <= x_bits <= X_BITS,
        index < MAX_WORKERS,
    ensures
        lane_of(index, counter, x_bits) >> ((x_bits - 8) as u32) == index,
        lane_of(index, counter, x_bits) & low_bits((x_bits - 8) as u32) == counter & low_bits(
            (x_bits - 8) as u32,
        ),
        lane_of(index, counter, x_bits) & low_bits(x_bits) == lane_of(index, counter, x_bits),
{
    let k = (x_bits - 8) as u32;
    let m = low_bits(k);
    let w = low_bits(x_bits);
    let l = lane_of(index, counter, x_bits);
    assert(1u64 << k >= 1 && 1u64 << x_bits >= 1) by (bit_vector)
        requires
            k <= 40,
            x_bits <= 40,
    ;
    assert(l >> k == index && l & m == counter & m && l & w == l) by (bit_vector)
        requires
            32 <= x_bits <= 40,
            k == x_bits - 8,
            index < 256,
            m == (1u64 << k) - 1,
            w == (1u64 << x_bits) - 1,
            l == (index << k) | (counter & m),
    ;
}

// ---------------------------------------------------------------------------
// What the workers share

/// A job that is put before the workers is the one they see, as a new generation,
/// and nothing else changes.
pub proof fn law_a_published_job_is_seen(s: &mut Shared, j: JobView)
    requires
        call_ensures(Shared::publish, (s, j), ()),
    ensures
        final(s)@.job == Some(j@),
        final(s)@.generation != old(s)@.generation,
        old(s)@.generation < u64::MAX ==> final(s)@.generation == old(s)@.generation + 1,
        final(s)@.e1 == old(s)@.e1 && final(s)@.x_bits == old(s)@.x_bits && final(s)@.stop
            == old(s)@.stop && final(s)@.hashes == old(s)@.hashes && final(s)@.lanes
            == old(s)@.lanes,
{
}

/// Another share target is a new generation of the same job: all but the target
/// stays. Before any job it waits in one that is not live.
pub proof fn law_another_target_is_the_same_job(s: &mut Shared, target: [u8; 32])
    requires
        call_ensures(Shared::retarget, (s, target), ()),
    ensures
        final(s)@.job matches Some(k) && k.target == target@ && (old(s)@.job matches Some(j)
            ==> k.job_id == j.job_id && k.job_id_hex == j.job_id_hex && k.prefix == j.prefix
            && k.network_target == j.network_target && k.height == j.height && k.live == j.live)
            && (old(s)@.job is None ==> !k.live),
        final(s)@.generation != old(s)@.generation,
        final(s)@.hashes == old(s)@.hashes && final(s)@.lanes == old(s)@.lanes && final(s)@.e1
            == old(s)@.e1 && final(s)@.x_bits == old(s)@.x_bits,
{
}

/// Hashes are added to the count of all and to the lane of their worker, and to no
/// other lane.
pub proof fn law_hashes_are_counted_in_their_lane(s: &mut Shared, worker: usize, n: u64, i: int)
    requires
        call_ensures(Shared::add_hashes_from, (s, worker, n), ()),
    ensures
        old(s)@.hashes + n <= u64::MAX ==> final(s)@.hashes == old(s)@.hashes + n,
        final(s)@.lanes.len() == old(s)@.lanes.len(),
        worker < old(s)@.lanes.len() && old(s)@.lanes[worker as int] + n <= u64::MAX
            ==> final(s)@.lanes[worker as int] == old(s)@.lanes[worker as int] + n,
        0 <= i < old(s)@.lanes.len() && i != worker ==> final(s)@.lanes[i] == old(s)@.lanes[i],
        final(s)@.job == old(s)@.job && final(s)@.generation == old(s)@.generation,
{
}

/// A window of 32 to 40 bits is taken as it is; a narrower one is widened and a
/// wider one narrowed to these. The slice is taken as it is.
pub proof fn law_a_window_is_kept_in_its_bounds(s: &mut Shared, e1: u32, x_bits: u32)
    requires
        call_ensures(Shared::set_window, (s, e1, x_bits), ()),
    ensures
        final(s)@.e1 == e1,
        32 <= final(s)@.x_bits <= 40,
        32 <= x_bits <= 40 ==> final(s)@.x_bits == x_bits,
        x_bits < 32 ==> final(s)@.x_bits == 32,
        x_bits > 40 ==> final(s)@.x_bits == 40,
        final(s)@.job == old(s)@.job && final(s)@.generation == old(s)@.generation
            && final(s)@.hashes == old(s)@.hashes,
{
}

/// The compact target of a header is the number of the four bytes at its place,
/// the lowest first, and no other byte plays a part.
pub proof fn law_the_compact_target_is_four_bytes(prefix: &[u8; PREFIX_BYTES], bits: u32)
    requires
        call_ensures(network_bits, (prefix,), bits),
    ensures
        bits as int % 256 == prefix@[116],
        bits as int / 256 % 256 == prefix@[117],
        bits as int / 65536 % 256 == prefix@[118],
        bits as int / 16777216 == prefix@[119],
{
}

} // verus!
