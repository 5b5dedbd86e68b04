//! The blocks at the tip that are not sealed yet, and how reads look at them
//! before they look at what is sealed.

use vstd::prelude::*;
use crate::node::keys::same_key;
use crate::text::copy_bytes;

verus! {

/// The most blocks the ring holds before it is sealed.
pub const RING_MAX_BLOCKS: usize = 256;

/// The most body bytes the ring holds before it is sealed.
pub const RING_MAX_BYTES: usize = 25_165_824;

pub const HEADER_BYTES: usize = 132;

/// What an address owns, and how many transfers it has made.
#[derive(Clone, Copy, Debug, PartialEq, Eq, Structural)]
pub struct Account {
    pub balance: u128,
    pub nonce: u64,
}

/// What an account was before a block changed it.
#[derive(Clone, Copy, Debug, PartialEq, Eq)]
pub struct UndoRec {
    pub addr: [u8; 20],
    pub prev_balance: u128,
    pub prev_nonce: u64,
    pub existed: bool,
}

/// One block that is not sealed yet.
#[derive(Clone, Debug)]
pub struct Entry {
    pub height: u64,
    pub hash: [u8; 32],
    pub header: [u8; 132],
    pub body: Vec<u8>,
    pub deltas: Vec<([u8; 20], Account)>,
    pub undo: Vec<UndoRec>,
    pub issued_delta: u128,
}

/// The number of body bytes of the entries.
pub open spec fn total(es: Seq<Entry>) -> nat
    decreases es.len(),
{
    if es.len() == 0 {
        0
    } else {
        total(es.drop_last()) + es.last().body@.len()
    }
}

/// The newest index below `n` of an entry at `height`, if there is one. After a
/// reorganisation inside the ring the latest entry at a height counts.
pub open spec fn newest_at(es: Seq<Entry>, height: u64, n: int) -> Option<int>
    decreases n,
{
    if n <= 0 {
        None
    } else if es[n - 1].height == height {
        Some(n - 1)
    } else {
        newest_at(es, height, n - 1)
    }
}

/// The newest index below `n` of an entry with the hash, if there is one.
pub open spec fn newest_with(es: Seq<Entry>, hash: Seq<u8>, n: int) -> Option<int>
    decreases n,
{
    if n <= 0 {
        None
    } else if es[n - 1].hash@ == hash {
        Some(n - 1)
    } else {
        newest_with(es, hash, n - 1)
    }
}

/// The entry that counts at `height`.
pub open spec fn entry_at(es: Seq<Entry>, height: u64) -> Option<Entry> {
    match newest_at(es, height, es.len() as int) {
        Some(i) => Some(es[i]),
        None => None,
    }
}

/// The entry that counts for a hash.
pub open spec fn entry_with(es: Seq<Entry>, hash: Seq<u8>) -> Option<Entry> {
    match newest_with(es, hash, es.len() as int) {
        Some(i) => Some(es[i]),
        None => None,
    }
}

/// The entries at or above the watermark, in order.
pub open spec fn kept(es: Seq<Entry>, watermark: u64) -> Seq<Entry>
    decreases es.len(),
{
    if es.len() == 0 {
        Seq::empty()
    } else {
        let head = kept(es.drop_last(), watermark);
        if es.last().height >= watermark {
            head.push(es.last())
        } else {
            head
        }
    }
}

/// The unsealed blocks, oldest first.
#[derive(Clone, Debug)]
pub struct UnsealedInner {
    pub entries: Vec<Entry>,
    pub bytes: usize,
}

/// A ring without a block.
pub fn new_ring() -> (r: UnsealedInner)
    ensures
        r.entries@.len() == 0,
        r.wf(),
{
    UnsealedInner { entries: Vec::new(), bytes: 0 }
}

proof fn lemma_kept_total(es: Seq<Entry>, watermark: u64)
    ensures
        total(kept(es, watermark)) <= total(es),
    decreases es.len(),
{
    if es.len() > 0 {
        lemma_kept_total(es.drop_last(), watermark);
        let head = kept(es.drop_last(), watermark);
        assert(head.push(es.last()).drop_last() =~= head);
    }
}

impl UnsealedInner {
    /// The byte count is that of the bodies.
    pub open spec fn wf(self) -> bool {
        self.bytes == total(self.entries@)
    }

    /// Puts a block at the tip.
    pub fn push(&mut self, e: Entry)
        requires
            old(self).wf(),
            old(self).bytes + e.body@.len() <= usize::MAX,
        ensures
            final(self).wf(),
            final(self).entries@ == old(self).entries@.push(e),
    {
        self.bytes += e.body.len();
        self.entries.push(e);
        assert(self.entries@.drop_last() =~= old(self).entries@);
    }

    /// Drops the blocks below the watermark: they are sealed.
    pub fn prune(&mut self, watermark: u64)
        requires
            old(self).wf(),
        ensures
            final(self).wf(),
            final(self).entries@ == kept(old(self).entries@, watermark),
    {
        let ghost all = self.entries@;
        let mut rest: Vec<Entry> = Vec::new();
        std::mem::swap(&mut rest, &mut self.entries);
        let mut keep: Vec<Entry> = Vec::new();
        let mut bytes: usize = 0;
        let ghost mut i: int = 0;
        assert(all.take(0) =~= Seq::<Entry>::empty());
        assert(all.skip(0) =~= all);
        while rest.len() > 0
            invariant
                0 <= i <= all.len(),
                rest@ == all.skip(i),
                keep@ == kept(all.take(i), watermark),
                bytes == total(keep@),
                total(all) <= usize::MAX,
            decreases rest.len(),
        {
            let e: Entry = rest.remove(0);
            assert(e == all[i]);
            assert(rest@ =~= all.skip(i + 1));
            assert(all.take(i + 1).drop_last() =~= all.take(i));
            assert(all.take(i + 1).last() == e);
            proof {
                lemma_total_prefix(all, i + 1);
                lemma_kept_total(all.take(i + 1), watermark);
                i = i + 1;
            }
            if e.height >= watermark {
                assert(keep@.push(e).drop_last() =~= keep@);
                bytes += e.body.len();
                keep.push(e);
            }
        }
        assert(all.take(i) =~= all);
        self.entries = keep;
        self.bytes = bytes;
    }

    /// Drops every block.
    pub fn clear(&mut self)
        ensures
            final(self).wf(),
            final(self).entries@.len() == 0,
    {
        self.entries = Vec::new();
        self.bytes = 0;
    }

    /// The entry that counts at `height`.
    pub fn at(&self, height: u64) -> (r: Option<&Entry>)
        ensures
            r is Some <==> entry_at(self.entries@, height) is Some,
            r matches Some(e) ==> entry_at(self.entries@, height) == Some(*e) && e.height == height,
    {
        let ghost es = self.entries@;
        let mut n: usize = self.entries.len();
        while n > 0
            invariant
                n <= self.entries.len(),
                es == self.entries@,
                newest_at(es, height, es.len() as int) == newest_at(es, height, n as int),
            decreases n,
        {
            n -= 1;
            if self.entries[n].height == height {
                return Some(&self.entries[n]);
            }
        }
        None
    }

    /// Where the entry with the hash stands.
    pub fn find(&self, hash: &[u8; 32]) -> (r: Option<usize>)
        ensures
            r is Some <==> newest_with(self.entries@, hash@, self.entries@.len() as int) is Some,
            r matches Some(i) ==> i < self.entries@.len() && newest_with(
                self.entries@,
                hash@,
                self.entries@.len() as int,
            ) == Some(i as int) && self.entries@[i as int].hash@ == hash@,
    {
        let ghost es = self.entries@;
        let mut n: usize = self.entries.len();
        while n > 0
            invariant
                n <= self.entries.len(),
                es == self.entries@,
                newest_with(es, hash@, es.len() as int) == newest_with(es, hash@, n as int),
            decreases n,
        {
            n -= 1;
            if same_key(&self.entries[n].hash, hash) {
                return Some(n);
            }
        }
        None
    }

    /// The number of blocks.
    pub fn len(&self) -> (n: usize)
        ensures
            n == self.entries@.len(),
    {
        self.entries.len()
    }

    /// Whether there is no block.
    pub fn is_empty(&self) -> (r: bool)
        ensures
            r == (self.entries@.len() == 0),
    {
        self.entries.len() == 0
    }

    /// The number of body bytes.
    pub fn bytes(&self) -> (n: usize)
        requires
            self.wf(),
        ensures
            n == total(self.entries@),
    {
        self.bytes
    }

    /// Whether the ring has reached a bound, of blocks or of bytes, and is to be
    /// sealed before another block goes in.
    pub fn must_seal(&self) -> (r: bool)
        requires
            self.wf(),
        ensures
            r == (self.entries@.len() >= RING_MAX_BLOCKS || total(self.entries@) >= RING_MAX_BYTES),
    {
        self.entries.len() >= RING_MAX_BLOCKS || self.bytes >= RING_MAX_BYTES
    }
}

proof fn lemma_total_prefix(es: Seq<Entry>, n: int)
    requires
        0 <= n <= es.len(),
    ensures
        total(es.take(n)) <= total(es),
    decreases es.len(),
{
    if n == es.len() {
        assert(es.take(n) =~= es);
    } else {
        lemma_total_prefix(es.drop_last(), n);
        assert(es.drop_last().take(n) =~= es.take(n));
    }
}

// ---------------------------------------------------------------------------
// What the ring keeps true

/// A block that was just put in is what every later read at its height and for
/// its hash gives back, and what reads of other heights give back is not
/// changed.
pub proof fn law_a_pushed_block_is_read(es: Seq<Entry>, e: Entry, height: u64, hash: Seq<u8>)
    ensures
        entry_at(es.push(e), e.height) == Some(e),
        entry_with(es.push(e), e.hash@) == Some(e),
        height != e.height ==> entry_at(es.push(e), height) == entry_at(es, height),
        hash != e.hash@ ==> entry_with(es.push(e), hash) == entry_with(es, hash),
{
    let n = es.len() as int;
    lemma_newest_in_prefix(es, es.push(e), height, hash, n);
}

proof fn lemma_newest_in_prefix(a: Seq<Entry>, b: Seq<Entry>, height: u64, hash: Seq<u8>, n: int)
    requires
        0 <= n <= a.len() <= b.len(),
        forall|k: int| 0 <= k < n ==> a[k] == b[k],
    ensures
        newest_at(a, height, n) == newest_at(b, height, n),
        newest_with(a, hash, n) == newest_with(b, hash, n),
        newest_at(a, height, n) matches Some(i) ==> 0 <= i < n,
        newest_with(a, hash, n) matches Some(i) ==> 0 <= i < n,
    decreases n,
{
    if n > 0 {
        lemma_newest_in_prefix(a, b, height, hash, n - 1);
    }
}

/// Sealing hands the heights below the watermark to the sealed store and
/// leaves what the ring answers at the others as it is.
pub proof fn law_prune_hands_over_sealed_heights(es: Seq<Entry>, watermark: u64, height: u64)
    ensures
        height < watermark ==> entry_at(kept(es, watermark), height) is None,
        height >= watermark ==> entry_at(kept(es, watermark), height) == entry_at(es, height),
    decreases es.len(),
{
    if es.len() > 0 {
        let head = es.drop_last();
        law_prune_hands_over_sealed_heights(head, watermark, height);
        let h = kept(head, watermark);
        let n = es.len() as int;
        lemma_newest_in_prefix(head, es, height, Seq::empty(), n - 1);
        if es.last().height >= watermark {
            lemma_newest_in_prefix(h, h.push(es.last()), height, Seq::empty(), h.len() as int);
        }
    }
}

/// A ring that is sealed when a bound says so never holds more than
/// `RING_MAX_BLOCKS` blocks, nor `RING_MAX_BYTES` and another body.
pub proof fn law_the_ring_is_bounded(es: Seq<Entry>, e: Entry)
    requires
        es.len() < RING_MAX_BLOCKS,
        total(es) < RING_MAX_BYTES,
    ensures
        es.push(e).len() <= RING_MAX_BLOCKS,
        total(es.push(e)) < RING_MAX_BYTES + e.body@.len(),
{
    assert(es.push(e).drop_last() =~= es);
}

// ---------------------------------------------------------------------------
// Reads

/// The first index at or behind `i` of a change to `addr`, looking from the
/// newest change to the oldest, as the account after it.
pub open spec fn changed(ds: Seq<([u8; 20], Account)>, addr: Seq<u8>) -> Option<Account>
    decreases ds.len(),
{
    if ds.len() == 0 {
        None
    } else if ds.last().0@ == addr {
        Some(ds.last().1)
    } else {
        changed(ds.drop_last(), addr)
    }
}

/// The account after the newest change to it in the ring.
pub open spec fn ring_account(es: Seq<Entry>, addr: Seq<u8>) -> Option<Account>
    decreases es.len(),
{
    if es.len() == 0 {
        None
    } else {
        match changed(es.last().deltas@, addr) {
            Some(a) => Some(a),
            None => ring_account(es.drop_last(), addr),
        }
    }
}

/// Whether two addresses are the same.
pub fn same_address(a: &[u8; 20], b: &[u8; 20]) -> (r: bool)
    ensures
        r == (a@ == b@),
{
    let mut i: usize = 0;
    while i < 20
        invariant
            i <= 20,
            a@.len() == 20,
            b@.len() == 20,
            forall|k: int| 0 <= k < i ==> a@[k] == b@[k],
        decreases 20 - i,
    {
        if a[i] != b[i] {
            return false;
        }
        i += 1;
    }
    assert(a@ =~= b@);
    true
}

fn find_change(ds: &Vec<([u8; 20], Account)>, addr: &[u8; 20]) -> (r: Option<Account>)
    ensures
        r == changed(ds@, addr@),
{
    let mut n: usize = ds.len();
    assert(ds@.take(n as int) =~= ds@);
    while n > 0
        invariant
            n <= ds.len(),
            changed(ds@, addr@) == changed(ds@.take(n as int), addr@),
        decreases n,
    {
        assert(ds@.take(n as int).drop_last() =~= ds@.take(n - 1));
        assert(ds@.take(n as int).last() == ds@[n - 1]);
        n -= 1;
        if same_address(&ds[n].0, addr) {
            return Some(ds[n].1);
        }
    }
    None
}

/// `issued` and what the blocks of the ring issue, as far as it fits.
pub open spec fn issued_with(es: Seq<Entry>, issued: u128) -> u128
    decreases es.len(),
{
    if es.len() == 0 {
        issued
    } else {
        let t = issued_with(es.drop_last(), issued) + es.last().issued_delta;
        if t <= u128::MAX {
            t as u128
        } else {
            u128::MAX
        }
    }
}

/// The headers of the ring from height `from` on without a gap, at most
/// `room` of them.
pub open spec fn tail_headers(es: Seq<Entry>, from: int, room: nat) -> Seq<[u8; 132]>
    decreases room,
{
    if room == 0 || from > u64::MAX {
        Seq::empty()
    } else {
        match entry_at(es, from as u64) {
            Some(e) => seq![e.header] + tail_headers(es, from + 1, (room - 1) as nat),
            None => Seq::empty(),
        }
    }
}

/// Whether the entry is the one that counts at its height.
pub open spec fn live(es: Seq<Entry>, i: int) -> bool {
    entry_at(es, es[i].height) matches Some(e) && e.hash@ == es[i].hash@
}

/// A block tip: of the ring, with its header, or of what is sealed.
#[derive(Clone, Copy, Debug)]
pub struct Tip {
    pub height: u64,
    pub hash: [u8; 32],
    pub header: Option<[u8; 132]>,
}

impl UnsealedInner {
    /// The tip: the newest block of the ring, or else the sealed one.
    pub fn tip(&self, sealed: Tip) -> (t: Tip)
        ensures
            t == (if self.entries@.len() == 0 {
                sealed
            } else {
                let e = self.entries@.last();
                Tip { height: e.height, hash: e.hash, header: Some(e.header) }
            }),
    {
        let n: usize = self.entries.len();
        if n == 0 {
            sealed
        } else {
            let e = &self.entries[n - 1];
            Tip { height: e.height, hash: e.hash, header: Some(e.header) }
        }
    }

    /// The header at `height`: the ring's, or else what `sealed` gives.
    pub fn header_at<F: FnOnce() -> Option<[u8; 132]>>(&self, height: u64, sealed: F) -> (r: Option<
        [u8; 132],
    >)
        requires
            call_requires(sealed, ()),
        ensures
            match entry_at(self.entries@, height) {
                Some(e) => r == Some(e.header),
                None => call_ensures(sealed, (), r),
            },
    {
        match self.at(height) {
            Some(e) => Some(e.header),
            None => sealed(),
        }
    }

    /// The hash at `height`: the ring's, or else what `sealed` gives.
    pub fn hash_at<F: FnOnce() -> Option<[u8; 32]>>(&self, height: u64, sealed: F) -> (r: Option<
        [u8; 32],
    >)
        requires
            call_requires(sealed, ()),
        ensures
            match entry_at(self.entries@, height) {
                Some(e) => r == Some(e.hash),
                None => call_ensures(sealed, (), r),
            },
    {
        match self.at(height) {
            Some(e) => Some(e.hash),
            None => sealed(),
        }
    }

    /// The body at `height`: the ring's, or else what `sealed` gives.
    pub fn body_at<F: FnOnce() -> Option<Vec<u8>>>(&self, height: u64, sealed: F) -> (r: Option<
        Vec<u8>,
    >)
        requires
            call_requires(sealed, ()),
        ensures
            match entry_at(self.entries@, height) {
                Some(e) => r matches Some(b) && b@ == e.body@,
                None => call_ensures(sealed, (), r),
            },
    {
        match self.at(height) {
            Some(e) => Some(copy_bytes(&e.body)),
            None => sealed(),
        }
    }

    /// The undo records at `height`: the ring's, or else what `sealed` gives.
    pub fn undo_at<F: FnOnce() -> Option<Vec<UndoRec>>>(&self, height: u64, sealed: F) -> (r: Option<
        Vec<UndoRec>,
    >)
        requires
            call_requires(sealed, ()),
        ensures
            match entry_at(self.entries@, height) {
                Some(e) => r matches Some(v) && v@ == e.undo@,
                None => call_ensures(sealed, (), r),
            },
    {
        match self.at(height) {
            Some(e) => {
                let mut v: Vec<UndoRec> = Vec::new();
                let mut i: usize = 0;
                while i < e.undo.len()
                    invariant
                        i <= e.undo.len(),
                        v@ == e.undo@.take(i as int),
                    decreases e.undo.len() - i,
                {
                    v.push(e.undo[i]);
                    i += 1;
                    assert(e.undo@.take(i as int) =~= e.undo@.take(i - 1).push(e.undo@[i - 1]));
                }
                assert(v@ =~= e.undo@);
                Some(v)
            },
            None => sealed(),
        }
    }

    /// The height and the header of the block with the hash: the ring's, or
    /// else what `sealed` gives.
    pub fn header_raw_by_hash<F: FnOnce() -> Option<(u64, [u8; 132])>>(
        &self,
        hash: &[u8; 32],
        sealed: F,
    ) -> (r: Option<(u64, [u8; 132])>)
        requires
            call_requires(sealed, ()),
        ensures
            match entry_with(self.entries@, hash@) {
                Some(e) => r == Some((e.height, e.header)),
                None => call_ensures(sealed, (), r),
            },
    {
        match self.find(hash) {
            Some(i) => Some((self.entries[i].height, self.entries[i].header)),
            None => sealed(),
        }
    }

    /// The body of the block with the hash: the ring's; else the one at the
    /// height that `sealed` gives the hash, as `body_at` reads it.
    pub fn body_by_hash_inner<
        F: FnOnce() -> Option<u64>,
        G: FnOnce(u64) -> Option<Vec<u8>>,
    >(&self, hash: &[u8; 32], sealed: F, body: G) -> (r: Option<Vec<u8>>)
        requires
            call_requires(sealed, ()),
            forall|h: u64| call_requires(body, (h,)),
        ensures
            match entry_with(self.entries@, hash@) {
                Some(e) => r matches Some(b) && b@ == e.body@,
                None => {
                    ||| r is None && call_ensures(sealed, (), None)
                    ||| exists|h: u64| #[trigger]
                        call_ensures(sealed, (), Some(h)) && match entry_at(self.entries@, h) {
                            Some(e) => r matches Some(b) && b@ == e.body@,
                            None => call_ensures(body, (h,), r),
                        }
                },
            },
    {
        match self.find(hash) {
            Some(i) => Some(copy_bytes(&self.entries[i].body)),
            None => match sealed() {
                Some(h) => {
                    assert(call_ensures(sealed, (), Some(h)));
                    match self.at(h) {
                        Some(e) => Some(copy_bytes(&e.body)),
                        None => body(h),
                    }
                },
                None => None,
            },
        }
    }

    /// The account after its newest change in the ring, if it has one there.
    fn unsealed_account(&self, addr: &[u8; 20]) -> (r: Option<Account>)
        ensures
            r == ring_account(self.entries@, addr@),
    {
        let ghost es = self.entries@;
        let mut n: usize = self.entries.len();
        assert(es.take(n as int) =~= es);
        while n > 0
            invariant
                n <= self.entries.len(),
                es == self.entries@,
                ring_account(es, addr@) == ring_account(es.take(n as int), addr@),
            decreases n,
        {
            assert(es.take(n as int).drop_last() =~= es.take(n - 1));
            assert(es.take(n as int).last() == es[n - 1]);
            n -= 1;
            match find_change(&self.entries[n].deltas, addr) {
                Some(a) => {
                    return Some(a);
                },
                None => {},
            }
        }
        None
    }

    /// The account: after its newest change in the ring, or else as `sealed`
    /// gives it.
    pub fn account<F: FnOnce() -> Account>(&self, addr: &[u8; 20], sealed: F) -> (a: Account)
        requires
            call_requires(sealed, ()),
        ensures
            match ring_account(self.entries@, addr@) {
                Some(b) => a == b,
                None => call_ensures(sealed, (), a),
            },
    {
        match self.unsealed_account(addr) {
            Some(a) => a,
            None => sealed(),
        }
    }

    /// How much has been issued: what is sealed, and the blocks of the ring.
    pub fn issued(&self, sealed: u128) -> (n: u128)
        ensures
            n == issued_with(self.entries@, sealed),
    {
        let ghost es = self.entries@;
        let mut n: u128 = sealed;
        let mut i: usize = 0;
        assert(es.take(0) =~= Seq::<Entry>::empty());
        while i < self.entries.len()
            invariant
                i <= self.entries.len(),
                es == self.entries@,
                n == issued_with(es.take(i as int), sealed),
            decreases self.entries.len() - i,
        {
            assert(es.take(i as int + 1).drop_last() =~= es.take(i as int));
            assert(es.take(i as int + 1).last() == es[i as int]);
            let d: u128 = self.entries[i].issued_delta;
            n = if d > u128::MAX - n {
                u128::MAX
            } else {
                n + d
            };
            i += 1;
        }
        assert(es.take(i as int) =~= es);
        n
    }
}

/// The headers that `buf` holds one after another.
pub open spec fn cut_headers(buf: Seq<u8>, n: nat) -> Seq<Seq<u8>> {
    Seq::new(n, |i: int| buf.subrange(i * 132, i * 132 + 132))
}

pub open spec fn header_views(v: Seq<[u8; 132]>) -> Seq<Seq<u8>> {
    Seq::new(v.len(), |i: int| v[i]@)
}

/// How many headers to ask the sealed store for: no more than a message may
/// carry.
pub fn sealed_count(max: usize, per_message: u32) -> (n: u32)
    ensures
        n == (if max <= per_message {
            max as u32
        } else {
            per_message
        }),
{
    if max as u64 <= per_message as u64 {
        max as u32
    } else {
        per_message
    }
}

fn header_from(buf: &[u8], start: usize) -> (h: [u8; 132])
    requires
        start + 132 <= buf.len(),
    ensures
        h@ == buf@.subrange(start as int, start + 132),
{
    let mut h: [u8; 132] = [0; 132];
    let mut i: usize = 0;
    while i < 132
        invariant
            i <= 132,
            start + 132 <= buf.len(),
            h@.len() == 132,
            forall|k: int| 0 <= k < i ==> h@[k] == buf@[start + k],
        decreases 132 - i,
    {
        h[i] = buf[start + i];
        i += 1;
    }
    assert(h@ =~= buf@.subrange(start as int, start + 132));
    h
}

/// The first `n` headers that `buf` holds.
pub fn split_headers(buf: &[u8], n: usize) -> (v: Vec<[u8; 132]>)
    requires
        n * 132 <= buf.len(),
    ensures
        header_views(v@) == cut_headers(buf@, n as nat),
{
    let mut v: Vec<[u8; 132]> = Vec::new();
    let mut i: usize = 0;
    let mut start: usize = 0;
    while i < n
        invariant
            i <= n,
            n * 132 <= buf.len(),
            start == i * 132,
            v@.len() == i,
            forall|k: int|
                0 <= k < i ==> (#[trigger] v@[k])@ == buf@.subrange(k * 132, k * 132 + 132),
        decreases n - i,
    {
        let h: [u8; 132] = header_from(buf, start);
        v.push(h);
        start += 132;
        i += 1;
    }
    assert(header_views(v@) =~= cut_headers(buf@, n as nat));
    v
}

impl UnsealedInner {
    /// The headers from height `from` on: the sealed ones, and behind them those
    /// of the ring, up to `max` in all.
    pub fn headers_range(&self, from: u64, max: usize, sealed: Vec<[u8; 132]>) -> (out: Vec<
        [u8; 132],
    >)
        ensures
            out@ == sealed@ + tail_headers(
                self.entries@,
                from + sealed@.len(),
                if sealed@.len() < max {
                    (max - sealed@.len()) as nat
                } else {
                    0
                },
            ),
    {
        let ghost es = self.entries@;
        let ghost whole = sealed@ + tail_headers(
            es,
            from + sealed@.len(),
            if sealed@.len() < max {
                (max - sealed@.len()) as nat
            } else {
                0
            },
        );
        let mut out = sealed;
        if out.len() >= max || out.len() as u64 > u64::MAX - from {
            assert(out@ =~= whole);
            return out;
        }
        let mut next: u64 = from + out.len() as u64;
        loop
            invariant
                es == self.entries@,
                out@.len() < max,
                whole == sealed@ + tail_headers(
                    es,
                    from + sealed@.len(),
                    if sealed@.len() < max {
                        (max - sealed@.len()) as nat
                    } else {
                        0
                    },
                ),
                whole == out@ + tail_headers(es, next as int, (max - out@.len()) as nat),
            decreases max - out.len(),
        {
            match self.at(next) {
                Some(e) => {
                    let ghost rest = tail_headers(es, next + 1, (max - out@.len() - 1) as nat);
                    assert(whole =~= out@.push(e.header) + rest);
                    out.push(e.header);
                    if out.len() >= max || next == u64::MAX {
                        assert(out@ =~= whole);
                        return out;
                    }
                    next += 1;
                },
                None => {
                    assert(out@ =~= whole);
                    return out;
                },
            }
        }
    }

    /// The accounts of the addresses, each as `account` gives it.
    pub fn accounts<F: Fn(&[u8; 20]) -> Account>(&self, addrs: &[[u8; 20]], sealed: F) -> (v: Vec<
        Account,
    >)
        requires
            forall|a: &[u8; 20]| call_requires(sealed, (a,)),
        ensures
            v@.len() == addrs@.len(),
            forall|k: int|
                0 <= k < addrs@.len() ==> match ring_account(self.entries@, #[trigger] addrs@[k]@) {
                    Some(b) => v@[k] == b,
                    None => call_ensures(sealed, (&addrs@[k],), v@[k]),
                },
    {
        let mut v: Vec<Account> = Vec::new();
        let mut i: usize = 0;
        while i < addrs.len()
            invariant
                i <= addrs@.len(),
                v@.len() == i,
                forall|a: &[u8; 20]| call_requires(sealed, (a,)),
                forall|k: int|
                    0 <= k < i ==> match ring_account(self.entries@, #[trigger] addrs@[k]@) {
                        Some(b) => v@[k] == b,
                        None => call_ensures(sealed, (&addrs@[k],), v@[k]),
                    },
            decreases addrs.len() - i,
        {
            let a = &addrs[i];
            let b: Account = match self.unsealed_account(a) {
                Some(b) => b,
                None => sealed(a),
            };
            v.push(b);
            i += 1;
        }
        v
    }

    /// The newest live block of the ring in whose body `find` finds the
    /// transaction, as its height and what `find` gives.
    pub fn tx_in_ring<F: Fn(&Vec<u8>) -> Option<(u16, Vec<u8>)>>(&self, find: F) -> (r: Option<
        (u64, u16, Vec<u8>),
    >)
        requires
            forall|b: &Vec<u8>| call_requires(find, (b,)),
        ensures
            searched(self.entries@, find, r),
    {
        let ghost es = self.entries@;
        let mut n: usize = self.entries.len();
        while n > 0
            invariant
                n <= self.entries.len(),
                es == self.entries@,
                forall|b: &Vec<u8>| call_requires(find, (b,)),
                forall|k: int|
                    n <= k < es.len() && live(es, k) ==> call_ensures(
                        find,
                        (&#[trigger] es[k].body,),
                        None,
                    ),
            decreases n,
        {
            n -= 1;
            let e = &self.entries[n];
            let counts: bool = match self.at(e.height) {
                Some(c) => same_key(&c.hash, &e.hash),
                None => false,
            };
            assert(counts == live(es, n as int));
            if counts {
                match find(&e.body) {
                    Some((ix, raw)) => {
                        let r = Some((e.height, ix, raw));
                        assert(found_at(es, find, r->Some_0, n as int));
                        assert(searched(es, find, r));
                        return r;
                    },
                    None => {},
                }
            }
        }
        None
    }
}

/// What a search of the ring with `find` gives.
pub open spec fn searched<F: Fn(&Vec<u8>) -> Option<(u16, Vec<u8>)>>(
    es: Seq<Entry>,
    find: F,
    r: Option<(u64, u16, Vec<u8>)>,
) -> bool {
    match r {
        Some(t) => exists|i: int| #[trigger] found_at(es, find, t, i),
        None => forall|k: int|
            0 <= k < es.len() && live(es, k) ==> call_ensures(
                find,
                (&#[trigger] es[k].body,),
                None,
            ),
    }
}

/// `find` found `t` in the live block at `i`, and in no newer live block.
pub open spec fn found_at<F: Fn(&Vec<u8>) -> Option<(u16, Vec<u8>)>>(
    es: Seq<Entry>,
    find: F,
    t: (u64, u16, Vec<u8>),
    i: int,
) -> bool {
    &&& 0 <= i < es.len()
    &&& live(es, i)
    &&& t.0 == es[i].height
    &&& call_ensures(find, (&es[i].body,), Some((t.1, t.2)))
    &&& forall|k: int|
        i < k < es.len() && live(es, k) ==> call_ensures(find, (&#[trigger] es[k].body,), None)
}

// ---------------------------------------------------------------------------
// What a block adds to what is read

/// The account that is read is the one after the newest change to it: that of
/// the block put in last, and of several changes in it the last one. A block that
/// does not touch an address leaves what is read of it as it was. Before the
/// first block nothing is changed.
pub proof fn law_the_newest_change_is_the_account(es: Seq<Entry>, e: Entry, addr: Seq<u8>, k: int)
    ensures
        ring_account(Seq::empty(), addr) is None,
        0 <= k < e.deltas@.len() && e.deltas@[k].0@ == addr && (forall|j: int|
            k < j < e.deltas@.len() ==> (#[trigger] e.deltas@[j]).0@ != addr) ==> ring_account(
            es.push(e),
            addr,
        ) == Some(e.deltas@[k].1),
        (forall|j: int| 0 <= j < e.deltas@.len() ==> (#[trigger] e.deltas@[j]).0@ != addr)
            ==> ring_account(es.push(e), addr) == ring_account(es, addr),
{
    let n = e.deltas@.len() as int;
    assert(es.push(e).drop_last() =~= es);
    assert(es.push(e).last() == e);
    if 0 <= k < n && e.deltas@[k].0@ == addr && (forall|j: int|
        k < j < n ==> (#[trigger] e.deltas@[j]).0@ != addr) {
        lemma_changed_at(e.deltas@, addr, k);
    }
    if forall|j: int| 0 <= j < n ==> (#[trigger] e.deltas@[j]).0@ != addr {
        lemma_unchanged(e.deltas@, addr);
    }
}

proof fn lemma_changed_at(ds: Seq<([u8; 20], Account)>, addr: Seq<u8>, k: int)
    requires
        0 <= k < ds.len(),
        ds[k].0@ == addr,
        forall|j: int| k < j < ds.len() ==> (#[trigger] ds[j]).0@ != addr,
    ensures
        changed(ds, addr) == Some(ds[k].1),
    decreases ds.len(),
{
    if k < ds.len() - 1 {
        assert(ds[ds.len() - 1].0@ != addr);
        lemma_changed_at(ds.drop_last(), addr, k);
    }
}

proof fn lemma_unchanged(ds: Seq<([u8; 20], Account)>, addr: Seq<u8>)
    requires
        forall|j: int| 0 <= j < ds.len() ==> (#[trigger] ds[j]).0@ != addr,
    ensures
        changed(ds, addr) is None,
    decreases ds.len(),
{
    if ds.len() > 0 {
        assert(ds[ds.len() - 1].0@ != addr);
        lemma_unchanged(ds.drop_last(), addr);
    }
}

/// What a ring answers of an account is what one of its blocks made of it, and no
/// newer block touched it.
pub proof fn law_an_account_comes_from_a_block(es: Seq<Entry>, addr: Seq<u8>) -> (r: (int, int))
    requires
        ring_account(es, addr) is Some,
    ensures
        0 <= r.0 < es.len(),
        0 <= r.1 < es[r.0].deltas@.len(),
        es[r.0].deltas@[r.1].0@ == addr,
        ring_account(es, addr) == Some(es[r.0].deltas@[r.1].1),
        forall|j: int|
            r.1 < j < es[r.0].deltas@.len() ==> (#[trigger] es[r.0].deltas@[j]).0@ != addr,
        forall|i: int, j: int|
            r.0 < i < es.len() && 0 <= j < es[i].deltas@.len() ==> (#[trigger] es[i].deltas@[j]).0@
                != addr,
    decreases es.len(),
{
    let ds = es.last().deltas@;
    let n = es.len() - 1;
    if exists|j: int| 0 <= j < ds.len() && (#[trigger] ds[j]).0@ == addr {
        let k = lemma_last_change(ds, addr);
        lemma_changed_at(ds, addr, k);
        (n, k)
    } else {
        lemma_unchanged(ds, addr);
        let r = law_an_account_comes_from_a_block(es.drop_last(), addr);
        assert forall|i: int, j: int|
            r.0 < i < es.len() && 0 <= j < es[i].deltas@.len() implies (#[trigger] es[i].deltas@[j]).0@
            != addr by {
            if i < n {
                assert(es.drop_last()[i].deltas@[j].0@ != addr);
            }
        }
        assert forall|j: int| r.1 < j < es[r.0].deltas@.len() implies (
        #[trigger] es[r.0].deltas@[j]).0@ != addr by {
            assert(es.drop_last()[r.0].deltas@[j].0@ != addr);
        }
        r
    }
}

proof fn lemma_last_change(ds: Seq<([u8; 20], Account)>, addr: Seq<u8>) -> (k: int)
    requires
        exists|j: int| 0 <= j < ds.len() && (#[trigger] ds[j]).0@ == addr,
    ensures
        0 <= k < ds.len(),
        ds[k].0@ == addr,
        forall|j: int| k < j < ds.len() ==> (#[trigger] ds[j]).0@ != addr,
    decreases ds.len(),
{
    if ds.last().0@ == addr {
        ds.len() - 1
    } else {
        let j = choose|j: int| 0 <= j < ds.len() && (#[trigger] ds[j]).0@ == addr;
        assert(ds.drop_last()[j].0@ == addr);
        let k = lemma_last_change(ds.drop_last(), addr);
        assert forall|j: int| k < j < ds.len() implies (#[trigger] ds[j]).0@ != addr by {
            if j < ds.len() - 1 {
                assert(ds.drop_last()[j].0@ != addr);
            }
        }
        k
    }
}

/// A block adds what it issued to what was issued, up to the most that can be
/// counted, and its body to the bytes of the ring.
pub proof fn law_a_block_is_counted(es: Seq<Entry>, e: Entry, issued: u128)
    ensures
        issued_with(Seq::empty(), issued) == issued,
        issued_with(es.push(e), issued) == (if issued_with(es, issued) + e.issued_delta
            <= u128::MAX {
            issued_with(es, issued) + e.issued_delta
        } else {
            u128::MAX as int
        }),
        total(Seq::empty()) == 0,
        total(es.push(e)) == total(es) + e.body@.len(),
{
    assert(es.push(e).drop_last() =~= es);
}

/// What is issued grows with what is sealed, one for one, as far as both can be
/// counted.
pub proof fn law_sealed_supply_carries_over(es: Seq<Entry>, a: u128, b: u128)
    requires
        a <= b,
        issued_with(es, b) < u128::MAX,
    ensures
        issued_with(es, b) - issued_with(es, a) == b - a,
    decreases es.len(),
{
    if es.len() > 0 {
        law_sealed_supply_carries_over(es.drop_last(), a, b);
    }
}

/// An empty ring answers nothing. What a ring answers at a height is one of its
/// blocks at that height, and no newer block is at it.
pub proof fn law_the_newest_block_at_a_height_counts(es: Seq<Entry>, height: u64, i: int)
    ensures
        entry_at(Seq::empty(), height) is None,
        0 <= i < es.len() && es[i].height == height && (forall|k: int|
            i < k < es.len() ==> (#[trigger] es[k]).height != height) ==> entry_at(es, height)
            == Some(es[i]),
        (forall|k: int| 0 <= k < es.len() ==> (#[trigger] es[k]).height != height) <==> entry_at(
            es,
            height,
        ) is None,
        entry_at(es, height) matches Some(e) ==> e.height == height && es.contains(e),
{
    let n = es.len() as int;
    lemma_newest_at(es, height, n);
    if 0 <= i < n && es[i].height == height && (forall|k: int|
        i < k < n ==> (#[trigger] es[k]).height != height) {
        assert(newest_at(es, height, n) == Some(i));
    }
    match newest_at(es, height, n) {
        Some(k) => {
            assert(es[k].height == height);
        },
        None => {},
    }
}

proof fn lemma_newest_at(es: Seq<Entry>, height: u64, n: int)
    requires
        0 <= n <= es.len(),
    ensures
        match newest_at(es, height, n) {
            Some(i) => 0 <= i < n && es[i].height == height && forall|k: int|
                i < k < n ==> (#[trigger] es[k]).height != height,
            None => forall|k: int| 0 <= k < n ==> (#[trigger] es[k]).height != height,
        },
    decreases n,
{
    if n > 0 {
        lemma_newest_at(es, height, n - 1);
    }
}

proof fn lemma_newest_with(es: Seq<Entry>, hash: Seq<u8>, n: int)
    requires
        0 <= n <= es.len(),
    ensures
        match newest_with(es, hash, n) {
            Some(i) => 0 <= i < n && es[i].hash@ == hash && forall|k: int|
                i < k < n ==> (#[trigger] es[k]).hash@ != hash,
            None => forall|k: int| 0 <= k < n ==> (#[trigger] es[k]).hash@ != hash,
        },
    decreases n,
{
    if n > 0 {
        lemma_newest_with(es, hash, n - 1);
    }
}

/// What a ring answers for a hash is the newest of its blocks with that hash, and
/// nothing where it has none.
pub proof fn law_the_newest_block_with_a_hash_counts(es: Seq<Entry>, hash: Seq<u8>, i: int)
    ensures
        0 <= i < es.len() && es[i].hash@ == hash && (forall|k: int|
            i < k < es.len() ==> (#[trigger] es[k]).hash@ != hash) ==> entry_with(es, hash) == Some(
            es[i],
        ),
        (forall|k: int| 0 <= k < es.len() ==> (#[trigger] es[k]).hash@ != hash) <==> entry_with(
            es,
            hash,
        ) is None,
        entry_with(es, hash) matches Some(e) ==> e.hash@ == hash && es.contains(e),
{
    let n = es.len() as int;
    lemma_newest_with(es, hash, n);
    if 0 <= i < n && es[i].hash@ == hash && (forall|k: int|
        i < k < n ==> (#[trigger] es[k]).hash@ != hash) {
        assert(newest_with(es, hash, n) == Some(i));
    }
    match newest_with(es, hash, n) {
        Some(k) => {
            assert(es[k].hash@ == hash);
        },
        None => {},
    }
}

/// Sealing keeps every block at or above the watermark, in its order, and no
/// other.
pub proof fn law_prune_keeps_blocks_in_order(es: Seq<Entry>, e: Entry, watermark: u64)
    ensures
        kept(Seq::empty(), watermark).len() == 0,
        e.height >= watermark ==> kept(es.push(e), watermark) == kept(es, watermark).push(e),
        e.height < watermark ==> kept(es.push(e), watermark) == kept(es, watermark),
{
    assert(es.push(e).drop_last() =~= es);
}

/// The headers that the ring adds stand one height behind another from `from` on,
/// each that of the block that counts at its height; they end where there is no
/// block, or where there is no more room, and nowhere else.
pub proof fn law_headers_follow_each_other(es: Seq<Entry>, from: int, room: nat, k: int)
    requires
        0 <= from,
    ensures
        tail_headers(es, from, room).len() <= room,
        0 <= k < tail_headers(es, from, room).len() ==> from + k <= u64::MAX && (entry_at(
            es,
            (from + k) as u64,
        ) matches Some(e) && tail_headers(es, from, room)[k] == e.header),
        tail_headers(es, from, room).len() < room ==> from + tail_headers(es, from, room).len()
            > u64::MAX || entry_at(
            es,
            (from + tail_headers(es, from, room).len()) as u64,
        ) is None,
    decreases room,
{
    if room > 0 && from <= u64::MAX {
        match entry_at(es, from as u64) {
            Some(e) => {
                let rest = tail_headers(es, from + 1, (room - 1) as nat);
                law_headers_follow_each_other(es, from + 1, (room - 1) as nat, k - 1);
                assert(tail_headers(es, from, room) == seq![e.header] + rest);
                if k > 0 && k < tail_headers(es, from, room).len() {
                    assert(tail_headers(es, from, room)[k] == rest[k - 1]);
                }
            },
            None => {},
        }
    }
}

/// A block counts until another one is put in at its height: the newest always
/// does, and one that was displaced does not.
pub proof fn law_a_displaced_block_is_not_live(es: Seq<Entry>, e: Entry, i: int)
    requires
        0 <= i < es.len(),
    ensures
        live(es.push(e), es.len() as int),
        es[i].height == e.height && es[i].hash@ != e.hash@ ==> !live(es.push(e), i),
        es[i].height != e.height ==> live(es.push(e), i) == live(es, i),
{
    law_a_pushed_block_is_read(es, e, es[i].height, es[i].hash@);
    assert(es.push(e)[i] == es[i]);
}

/// A transaction of the newest block is found there.
pub proof fn law_a_pushed_transaction_is_found<F: Fn(&Vec<u8>) -> Option<(u16, Vec<u8>)>>(
    es: Seq<Entry>,
    e: Entry,
    find: F,
    r: Option<(u64, u16, Vec<u8>)>,
)
    requires
        searched(es.push(e), find, r),
        !call_ensures(find, (&e.body,), None),
    ensures
        r is Some,
        r->Some_0.0 == e.height,
        call_ensures(find, (&e.body,), Some((r->Some_0.1, r->Some_0.2))),
{
    let all = es.push(e);
    let n = es.len() as int;
    law_a_pushed_block_is_read(es, e, e.height, e.hash@);
    assert(live(all, n));
    assert(all[n].body == e.body);
    match r {
        Some(t) => {
            let i = choose|i: int| #[trigger] found_at(all, find, t, i);
            if i < n {
                assert(call_ensures(find, (&all[n].body,), None));
            }
        },
        None => {
            assert(call_ensures(find, (&all[n].body,), None));
        },
    }
}

/// The tip is the block put in last, or the sealed one where there is none.
pub proof fn law_the_tip_is_the_newest_block(r: &UnsealedInner, sealed: Tip, t: Tip)
    requires
        call_ensures(UnsealedInner::tip, (r, sealed), t),
    ensures
        r.entries@.len() == 0 ==> t == sealed,
        r.entries@.len() > 0 ==> t.height == r.entries@.last().height && t.hash
            == r.entries@.last().hash && t.header == Some(r.entries@.last().header),
{
}

/// Every read at a height gives what the newest block there holds, and reads of a
/// height without a block are the sealed store's.
pub proof fn law_reads_give_the_newest_block<
    F: FnOnce() -> Option<[u8; 132]>,
    G: FnOnce() -> Option<[u8; 32]>,
    H: FnOnce() -> Option<Vec<u8>>,
    U: FnOnce() -> Option<Vec<UndoRec>>,
>(
    r: &UnsealedInner,
    i: int,
    height: u64,
    headers: F,
    hashes: G,
    bodies: H,
    undos: U,
    header: Option<[u8; 132]>,
    hash: Option<[u8; 32]>,
    body: Option<Vec<u8>>,
    undo: Option<Vec<UndoRec>>,
)
    requires
        call_ensures(UnsealedInner::header_at::<F>, (r, height, headers), header),
        call_ensures(UnsealedInner::hash_at::<G>, (r, height, hashes), hash),
        call_ensures(UnsealedInner::body_at::<H>, (r, height, bodies), body),
        call_ensures(UnsealedInner::undo_at::<U>, (r, height, undos), undo),
    ensures
        0 <= i < r.entries@.len() && r.entries@[i].height == height && (forall|k: int|
            i < k < r.entries@.len() ==> (#[trigger] r.entries@[k]).height != height) ==> header
            == Some(r.entries@[i].header) && hash == Some(r.entries@[i].hash) && (body matches Some(
            b,
        ) && b@ == r.entries@[i].body@) && (undo matches Some(u) && u@ == r.entries@[i].undo@),
        (forall|k: int| 0 <= k < r.entries@.len() ==> (#[trigger] r.entries@[k]).height != height)
            ==> call_ensures(headers, (), header) && call_ensures(hashes, (), hash) && call_ensures(
            bodies,
            (),
            body,
        ) && call_ensures(undos, (), undo),
{
    law_the_newest_block_at_a_height_counts(r.entries@, height, i);
}

/// An account is read as the last change to it in the newest block that changes
/// it made it; one that no block of the ring changes is the sealed store's.
pub proof fn law_an_account_is_as_last_changed<F: FnOnce() -> Account>(
    r: &UnsealedInner,
    addr: &[u8; 20],
    sealed: F,
    a: Account,
    i: int,
    k: int,
)
    requires
        call_ensures(UnsealedInner::account::<F>, (r, addr, sealed), a),
    ensures
        0 <= i < r.entries@.len() && 0 <= k < r.entries@[i].deltas@.len()
            && r.entries@[i].deltas@[k].0@ == addr@ && (forall|n: int|
            k < n < r.entries@[i].deltas@.len() ==> (#[trigger] r.entries@[i].deltas@[n]).0@
                != addr@) && (forall|m: int, n: int|
            i < m < r.entries@.len() && 0 <= n < r.entries@[m].deltas@.len()
                ==> (#[trigger] r.entries@[m].deltas@[n]).0@ != addr@) ==> a
            == r.entries@[i].deltas@[k].1,
        (forall|m: int, n: int|
            0 <= m < r.entries@.len() && 0 <= n < r.entries@[m].deltas@.len()
                ==> (#[trigger] r.entries@[m].deltas@[n]).0@ != addr@) ==> call_ensures(
            sealed,
            (),
            a,
        ),
{
    let es = r.entries@;
    if ring_account(es, addr@) is Some {
        let (m, n) = law_an_account_comes_from_a_block(es, addr@);
        assert(es[m].deltas@[n].0@ == addr@);
        if 0 <= i < es.len() && 0 <= k < es[i].deltas@.len() && es[i].deltas@[k].0@ == addr@ {
            if m < i {
                assert(es[i].deltas@[k].0@ != addr@);
            }
        }
    } else if 0 <= i < es.len() && 0 <= k < es[i].deltas@.len() && es[i].deltas@[k].0@ == addr@ {
        lemma_no_account(es, addr@, i, k);
    }
}

proof fn lemma_no_account(es: Seq<Entry>, addr: Seq<u8>, i: int, k: int)
    requires
        ring_account(es, addr) is None,
        0 <= i < es.len(),
        0 <= k < es[i].deltas@.len(),
    ensures
        es[i].deltas@[k].0@ != addr,
    decreases es.len(),
{
    if i == es.len() - 1 {
        let ds = es[i].deltas@;
        if ds[k].0@ == addr {
            let m = lemma_last_change(ds, addr);
            lemma_changed_at(ds, addr, m);
        }
    } else {
        lemma_no_account(es.drop_last(), addr, i, k);
    }
}

/// A range of headers is the sealed ones and behind them those of the ring, one
/// height after another from where the sealed ones end, and never more than were
/// asked for where the sealed ones are not.
pub proof fn law_a_range_goes_on_behind_the_sealed_headers(
    r: &UnsealedInner,
    from: u64,
    max: usize,
    sealed: Vec<[u8; 132]>,
    out: Vec<[u8; 132]>,
    k: int,
)
    requires
        call_ensures(UnsealedInner::headers_range, (r, from, max, sealed), out),
    ensures
        sealed@.len() <= max ==> out@.len() <= max,
        out@.len() >= sealed@.len(),
        0 <= k < sealed@.len() ==> out@[k] == sealed@[k],
        sealed@.len() <= k < out@.len() ==> from + k <= u64::MAX && (entry_at(
            r.entries@,
            (from + k) as u64,
        ) matches Some(e) && out@[k] == e.header),
        out@.len() < max && from + out@.len() <= u64::MAX ==> entry_at(
            r.entries@,
            (from + out@.len()) as u64,
        ) is None,
{
    let n = sealed@.len();
    let room = if n < max {
        (max - n) as nat
    } else {
        0
    };
    law_headers_follow_each_other(r.entries@, from + n, room, k - n);
}

/// Headers that stand one behind another are cut at their length.
pub proof fn law_headers_are_cut_at_their_length(buf: &[u8], n: usize, v: Vec<[u8; 132]>, i: int, j: int)
    requires
        n * 132 <= buf@.len(),
        call_ensures(split_headers, (buf, n), v),
        0 <= i < n,
        0 <= j < 132,
    ensures
        v@.len() == n,
        v@[i]@[j] == buf@[i * 132 + j],
{
    let w = header_views(v@);
    assert(w.len() == v@.len());
    assert(w[i] == v@[i]@);
    assert(i * 132 + 132 <= n * 132) by (nonlinear_arith)
        requires
            i < n,
    ;
    assert(w[i] == buf@.subrange(i * 132, i * 132 + 132));
}

} // verus!
