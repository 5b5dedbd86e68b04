//! What the RPC surface answers, once the store and the validator have been
//! asked.

use vstd::prelude::*;
use crate::node::history::{TxLocation, TxLookup, TxRecord};
use crate::node::keys::same_key;
use crate::node::notes;
use crate::node::notes::confirmations;
use crate::text;
use crate::text::{number_of, to_chars, white};

verus! {

// ---------------------------------------------------------------------------
// Asking the validator

/// What became of a question to the validator.
#[derive(Clone, Debug)]
pub enum Asked<T> {
    /// Its queue was full.
    Full,
    /// No answer came in time.
    Late,
    Answer(T),
}

/// How many questions went without an answer.
#[derive(Clone, Copy, Debug)]
pub struct Ask {
    pub refused: u64,
}

impl Ask {
    /// No question has been asked yet.
    pub fn new() -> (a: Ask)
        ensures
            a.refused == 0,
    {
        Ask { refused: 0 }
    }

    /// How many questions wait in a queue that can hold `max` and has room for
    /// `free`.
    pub fn queue_depth(max: usize, free: usize) -> (n: usize)
        ensures
            n == (if free <= max {
                max - free
            } else {
                0
            }),
    {
        if free <= max {
            max - free
        } else {
            0
        }
    }

    /// How many questions went without an answer.
    pub fn refused(&self) -> (n: u64)
        ensures
            n == self.refused,
    {
        self.refused
    }

    /// The answer, if one came. A question without one is counted.
    pub fn ask<T>(&mut self, asked: Asked<T>) -> (r: Option<T>)
        ensures
            match asked {
                Asked::Answer(t) => r == Some(t) && final(self).refused == old(self).refused,
                _ => r is None && final(self).refused == (if old(self).refused < u64::MAX {
                    old(self).refused + 1
                } else {
                    0
                }),
            },
    {
        match asked {
            Asked::Answer(t) => Some(t),
            _ => {
                self.refused = self.refused.wrapping_add(1);
                None
            },
        }
    }
}

// ---------------------------------------------------------------------------
// Headers and blocks

/// A header, with how deep it is buried if it is on the best chain.
#[derive(Clone, Copy, Debug)]
pub struct HeaderRecord {
    pub raw: [u8; 132],
    pub hash: [u8; 32],
    pub height: u64,
    pub confirmations: u64,
    pub canonical: bool,
    pub chainwork: [u8; 32],
}

/// The tip of the best chain.
#[derive(Clone, Copy, Debug)]
pub struct TipView {
    pub height: u64,
    pub hash: [u8; 32],
    pub time: u64,
    pub chainwork: [u8; 32],
}

/// Whether the block with the hash is the one that counts at its height.
pub open spec fn is_canonical(at_height: Option<[u8; 32]>, hash: [u8; 32]) -> bool {
    at_height matches Some(h) && h@ == hash@
}

/// Whether the block with the hash is the one that counts at its height. Bodies
/// are kept by height for the best chain only: a header of another branch has
/// none here, since its height holds another block's.
pub fn counts(at_height: &Option<[u8; 32]>, hash: &[u8; 32]) -> (r: bool)
    ensures
        r == is_canonical(*at_height, *hash),
{
    match at_height {
        Some(h) => same_key(h, hash),
        None => false,
    }
}

/// The record of a header. Only the tip's own shows the work of the chain.
pub fn header_record(
    raw: [u8; 132],
    hash: [u8; 32],
    height: u64,
    at_height: &Option<[u8; 32]>,
    tip: &TipView,
) -> (r: HeaderRecord)
    requires
        is_canonical(*at_height, hash) ==> notes::countable(tip.height, height),
    ensures
        r.raw == raw,
        r.hash == hash,
        r.height == height,
        r.canonical == is_canonical(*at_height, hash),
        r.confirmations == (if r.canonical {
            notes::depth(tip.height, height)
        } else {
            0
        }),
        r.canonical && height == tip.height ==> r.chainwork == tip.chainwork,
        !(r.canonical && height == tip.height) ==> r.chainwork@ == Seq::new(32, |i: int| 0u8),
{
    let canonical: bool = counts(at_height, &hash);
    let none: [u8; 32] = [0; 32];
    assert(none@ =~= Seq::new(32, |i: int| 0u8));
    HeaderRecord {
        raw,
        hash,
        height,
        confirmations: if canonical {
            confirmations(tip.height, height)
        } else {
            0
        },
        canonical,
        chainwork: if canonical && height == tip.height {
            tip.chainwork
        } else {
            none
        },
    }
}

/// How much of a block is asked for.
#[derive(Clone, Copy, Debug, PartialEq, Eq, Structural)]
pub enum Verbosity {
    RawHex,
    HeaderAndTxids,
    Full,
}

/// A block, with its body as raw bytes or as the ids of its transactions.
#[derive(Clone, Debug)]
pub struct BlockRecord {
    pub tx_count: usize,
    pub size_bytes: usize,
    pub author_note: Vec<u8>,
    pub raw: Option<Vec<u8>>,
    pub txids: Vec<[u8; 32]>,
    pub header: HeaderRecord,
}

/// The ids that could be computed, in order.
pub open spec fn known_ids(ids: Seq<Option<[u8; 32]>>) -> Seq<[u8; 32]>
    decreases ids.len(),
{
    if ids.len() == 0 {
        Seq::empty()
    } else {
        let head = known_ids(ids.drop_last());
        match ids.last() {
            Some(id) => head.push(id),
            None => head,
        }
    }
}

fn join_bytes(a: &[u8; 132], b: &[u8]) -> (v: Vec<u8>)
    ensures
        v@ == a@ + b@,
{
    let mut v: Vec<u8> = Vec::new();
    let mut i: usize = 0;
    while i < 132
        invariant
            i <= 132,
            a@.len() == 132,
            v@ == a@.take(i as int),
        decreases 132 - i,
    {
        v.push(a[i]);
        i += 1;
        assert(a@.take(i as int) =~= a@.take(i - 1).push(a@[i - 1]));
    }
    assert(a@.take(132) =~= a@);
    let mut j: usize = 0;
    assert(a@ + b@.take(0) =~= a@);
    while j < b.len()
        invariant
            j <= b.len(),
            v@ == a@ + b@.take(j as int),
        decreases b.len() - j,
    {
        v.push(b[j]);
        j += 1;
        assert(a@ + b@.take(j as int) =~= (a@ + b@.take(j - 1)).push(b@[j - 1]));
    }
    assert(b@.take(j as int) =~= b@);
    v
}

/// The record of a block whose body is `body` and whose transactions have the
/// ids. `note` is the miner's note in its coinbase.
pub fn block_record(
    header: HeaderRecord,
    body: &[u8],
    ids: &[Option<[u8; 32]>],
    note: Vec<u8>,
    v: Verbosity,
) -> (r: BlockRecord)
    requires
        body.len() <= usize::MAX - 132,
    ensures
        r.tx_count == ids@.len(),
        r.size_bytes == 132 + body@.len(),
        r.author_note@ == note@,
        r.header == header,
        v == Verbosity::RawHex ==> r.txids@.len() == 0 && r.raw is Some && r.raw->Some_0@
            == header.raw@ + body@,
        v != Verbosity::RawHex ==> r.txids@ == known_ids(ids@) && r.raw is None,
{
    let mut txids: Vec<[u8; 32]> = Vec::new();
    if v != Verbosity::RawHex {
        let mut i: usize = 0;
        assert(ids@.take(0) =~= Seq::<Option<[u8; 32]>>::empty());
        while i < ids.len()
            invariant
                i <= ids.len(),
                txids@ == known_ids(ids@.take(i as int)),
            decreases ids.len() - i,
        {
            assert(ids@.take(i as int + 1).drop_last() =~= ids@.take(i as int));
            match ids[i] {
                Some(id) => {
                    txids.push(id);
                },
                None => {},
            }
            i += 1;
        }
        assert(ids@.take(i as int) =~= ids@);
    }
    let raw: Option<Vec<u8>> = if v == Verbosity::RawHex {
        Some(join_bytes(&header.raw, body))
    } else {
        None
    };
    BlockRecord {
        tx_count: ids.len(),
        size_bytes: 132 + body.len(),
        author_note: note,
        raw,
        txids,
        header,
    }
}

// ---------------------------------------------------------------------------
// Accounts

/// An account as the RPC surface shows it.
#[derive(Clone, Copy, Debug, PartialEq, Eq)]
pub struct AccountRecord {
    pub balance: u128,
    pub nonce: u64,
    pub pending_nonce: u64,
    pub immature: u128,
}

/// The lowest height whose coinbase is not mature yet.
pub fn immature_from(tip: u64, maturity: u64) -> (h: u64)
    requires
        maturity >= 1,
    ensures
        h == (if tip >= maturity - 1 {
            tip - (maturity - 1)
        } else {
            0
        }),
{
    if tip >= maturity - 1 {
        tip - (maturity - 1)
    } else {
        0
    }
}

/// The sum of the credits, as far as it fits.
pub open spec fn summed(v: Seq<u128>) -> u128
    decreases v.len(),
{
    if v.len() == 0 {
        0
    } else {
        let t = summed(v.drop_last()) + v.last();
        if t <= u128::MAX {
            t as u128
        } else {
            u128::MAX
        }
    }
}

/// The account of an address: what it owns, the nonce behind its `pending`
/// transactions, and the sum of the `credits` that are not mature yet.
pub fn account_record(balance: u128, nonce: u64, pending: u64, credits: &[u128]) -> (r:
    AccountRecord)
    requires
        nonce + pending <= u64::MAX,
    ensures
        r.balance == balance,
        r.nonce == nonce,
        r.pending_nonce == nonce + pending,
        r.immature == summed(credits@),
{
    let mut t: u128 = 0;
    let mut i: usize = 0;
    assert(credits@.take(0) =~= Seq::<u128>::empty());
    while i < credits.len()
        invariant
            i <= credits.len(),
            t == summed(credits@.take(i as int)),
        decreases credits.len() - i,
    {
        assert(credits@.take(i as int + 1).drop_last() =~= credits@.take(i as int));
        let c: u128 = credits[i];
        t = if c > u128::MAX - t {
            u128::MAX
        } else {
            t + c
        };
        i += 1;
    }
    assert(credits@.take(i as int) =~= credits@);
    AccountRecord { balance, nonce, pending_nonce: nonce + pending, immature: t }
}

// ---------------------------------------------------------------------------
// One transaction

/// What the transaction index answers.
#[derive(Clone, Copy, Debug)]
pub enum Indexed {
    NotIndexed { indexed_from: u64 },
    Absent,
    Found { height: u64, index: u16 },
}

/// What the body at an indexed height gives: that it is gone, that it does not
/// hold the transaction, or the transaction.
#[derive(Clone, Debug)]
pub enum InBody {
    Gone,
    Lacking,
    Held { type_byte: u8, raw: Vec<u8> },
}

pub open spec fn confirmed(txid: [u8; 32], type_byte: u8, raw: Vec<u8>, height: u64, tip: u64) -> TxLookup {
    TxLookup::Found(
        TxRecord {
            txid,
            type_byte,
            raw,
            location: TxLocation::Block { height, confirmations: notes::depth(tip, height) as u64 },
        },
    )
}

/// What is said of a transaction that the validator's pool holds, with its
/// type byte.
pub fn tx_in_pool(txid: [u8; 32], type_byte: u8, raw: Vec<u8>) -> (r: TxLookup)
    ensures
        r == TxLookup::Found(
            (TxRecord { txid, type_byte, raw, location: TxLocation::Mempool }),
        ),
{
    TxLookup::Found(TxRecord { txid, type_byte, raw, location: TxLocation::Mempool })
}

/// What is said of a transaction in the block at `height`.
pub fn tx_in_block(txid: [u8; 32], type_byte: u8, raw: Vec<u8>, height: u64, tip: u64) -> (r:
    TxLookup)
    requires
        notes::countable(tip, height),
    ensures
        r == confirmed(txid, type_byte, raw, height, tip),
{
    TxLookup::Found(
        TxRecord {
            txid,
            type_byte,
            raw,
            location: TxLocation::Block { height, confirmations: confirmations(tip, height) },
        },
    )
}

/// Where to look for a transaction that neither the pool nor the ring holds:
/// at a place that the index names, or nowhere, with the answer.
#[derive(Clone, Debug)]
pub enum Where {
    At { height: u64, index: u16 },
    Nowhere(TxLookup),
}

/// Where to look for a transaction that neither the pool nor the ring holds.
/// Without an index nothing can be said of it; an index that could not be read
/// covers nothing.
pub fn look_up(txindex: bool, answer: Option<Indexed>) -> (r: Where)
    ensures
        r == (if !txindex {
            Where::Nowhere(TxLookup::NotIndexed { indexed_from: None })
        } else {
            match answer {
                None => Where::Nowhere(TxLookup::NotIndexed { indexed_from: None }),
                Some(Indexed::NotIndexed { indexed_from }) => Where::Nowhere(
                    TxLookup::NotIndexed {
                        indexed_from: if indexed_from == u64::MAX {
                            None
                        } else {
                            Some(indexed_from)
                        },
                    },
                ),
                Some(Indexed::Absent) => Where::Nowhere(TxLookup::Absent),
                Some(Indexed::Found { height, index }) => Where::At { height, index },
            }
        }),
{
    if !txindex {
        return Where::Nowhere(TxLookup::NotIndexed { indexed_from: None });
    }
    match answer {
        None => Where::Nowhere(TxLookup::NotIndexed { indexed_from: None }),
        Some(Indexed::NotIndexed { indexed_from }) => Where::Nowhere(
            TxLookup::NotIndexed {
                indexed_from: if indexed_from == u64::MAX {
                    None
                } else {
                    Some(indexed_from)
                },
            },
        ),
        Some(Indexed::Absent) => Where::Nowhere(TxLookup::Absent),
        Some(Indexed::Found { height, index }) => Where::At { height, index },
    }
}

/// What is said of a transaction at an indexed place.
pub fn looked_up(txid: [u8; 32], height: u64, body: InBody, tip: u64) -> (r: TxLookup)
    requires
        body is Held ==> notes::countable(tip, height),
    ensures
        r == (match body {
            InBody::Gone => TxLookup::Pruned { height },
            InBody::Lacking => TxLookup::Absent,
            InBody::Held { type_byte, raw } => confirmed(txid, type_byte, raw, height, tip),
        }),
{
    match body {
        InBody::Gone => TxLookup::Pruned { height },
        InBody::Lacking => TxLookup::Absent,
        InBody::Held { type_byte, raw } => tx_in_block(txid, type_byte, raw, height, tip),
    }
}

// ---------------------------------------------------------------------------
// The state of the node

/// Whether the node follows the chain.
#[derive(Clone, Copy, Debug, PartialEq, Eq, Structural)]
pub enum SyncStatus {
    Starting,
    Syncing,
    Synced,
    Stalled,
}

/// A verdict on the node, with the reason where it is not a good one.
#[derive(Clone, Debug)]
pub struct Verdict {
    pub status: SyncStatus,
    pub reason: Option<String>,
}

pub open spec fn reason_view(r: Option<String>) -> Option<Seq<char>> {
    match r {
        Some(t) => Some(t@),
        None => None,
    }
}

/// The verdict that is served. A halt of the validator beats every other. Else
/// it is the verdict of the last heartbeat, `refreshed` by what is known now, so
/// that the answer and the log do not contradict each other. Before the first
/// heartbeat the node is starting.
pub fn served_verdict(halted: Option<&str>, refreshed: Option<Verdict>) -> (v: Verdict)
    ensures
        match halted {
            Some(h) => v.status == SyncStatus::Stalled && reason_view(v.reason) == Some(
                "the validator has halted: "@ + h@,
            ),
            None => match refreshed {
                Some(w) => v == w,
                None => v.status == SyncStatus::Starting && v.reason is None,
            },
        },
{
    match halted {
        Some(h) => {
            let mut t = "the validator has halted: ".to_owned();
            t.append(h);
            Verdict { status: SyncStatus::Stalled, reason: Some(t) }
        },
        None => match refreshed {
            Some(w) => w,
            None => Verdict { status: SyncStatus::Starting, reason: None },
        },
    }
}

/// The time from `then` to `now`, none where `then` is later.
pub open spec fn elapsed(now: u64, then: u64) -> int {
    if then <= now {
        now - then
    } else {
        0
    }
}

/// How old the tip is.
pub fn tip_age(now: u64, time: u64) -> (secs: u64)
    ensures
        secs == elapsed(now, time),
{
    now.saturating_sub(time)
}

/// What has been issued up to a height, against what the rules issue.
#[derive(Clone, Copy, Debug, PartialEq, Eq)]
pub struct EmissionAudit {
    pub height: u64,
    pub issued_mile: u128,
    pub expected_by_formula_mile: u128,
    pub subsidy_at_height_mile: u128,
}

/// The audit at a height. There is none above the tip.
pub fn emission_audit(height: u64, tip: u64, issued: u128, expected: u128, subsidy: u128) -> (r:
    Option<EmissionAudit>)
    ensures
        r == (if height > tip {
            None
        } else {
            Some(
                EmissionAudit {
                    height,
                    issued_mile: issued,
                    expected_by_formula_mile: expected,
                    subsidy_at_height_mile: subsidy,
                },
            )
        }),
{
    if height > tip {
        return None;
    }
    Some(
        EmissionAudit {
            height,
            issued_mile: issued,
            expected_by_formula_mile: expected,
            subsidy_at_height_mile: subsidy,
        },
    )
}

/// How far the height is from which checkpoints no longer count.
#[derive(Clone, Copy, Debug, PartialEq, Eq)]
pub struct Countdown {
    pub sunset_height: u64,
    pub blocks_until_sunset: u64,
    pub sunset_passed: bool,
}

/// How far the sunset is from the tip at `height`.
pub fn countdown(sunset: u64, height: u64) -> (c: Countdown)
    ensures
        c.sunset_height == sunset,
        c.blocks_until_sunset == (if height < sunset {
            sunset - height
        } else {
            0
        }),
        c.sunset_passed == (height >= sunset),
        c.sunset_passed <==> c.blocks_until_sunset == 0,
{
    Countdown {
        sunset_height: sunset,
        blocks_until_sunset: sunset.saturating_sub(height),
        sunset_passed: height >= sunset,
    }
}

/// What the chain made of a checkpoint.
#[derive(Clone, Copy, Debug, PartialEq, Eq, Structural)]
pub enum CheckpointOutcome {
    Unverified,
    GenesisImmutable,
    Admitted,
    Other,
}

/// The chain's report on a checkpoint.
#[derive(Clone, Copy, Debug)]
pub struct CheckpointReport {
    pub outcome: CheckpointOutcome,
    pub anchor_advanced: bool,
    pub anchor_height: Option<u64>,
    pub enforced: usize,
}

/// What is answered to a checkpoint.
#[derive(Clone, Copy, Debug, PartialEq, Eq, Structural)]
pub enum CheckpointSubmit {
    NotConfigured,
    Busy,
    Unverified,
    GenesisImmutable,
    Advanced { height: u64, enforced: usize, enforcing: bool },
    Unchanged,
}

/// What is answered to a checkpoint. One that never reached the chain can be
/// sent again.
pub fn checkpoint_submit(enabled: bool, asked: Asked<CheckpointReport>) -> (r: CheckpointSubmit)
    ensures
        r == (if !enabled {
            CheckpointSubmit::NotConfigured
        } else {
            match asked {
                Asked::Answer(v) => match v.outcome {
                    CheckpointOutcome::Unverified => CheckpointSubmit::Unverified,
                    CheckpointOutcome::GenesisImmutable => CheckpointSubmit::GenesisImmutable,
                    _ => if v.anchor_advanced {
                        CheckpointSubmit::Advanced {
                            height: match v.anchor_height {
                                Some(h) => h,
                                None => 0,
                            },
                            enforced: v.enforced,
                            enforcing: v.outcome == CheckpointOutcome::Admitted,
                        }
                    } else {
                        CheckpointSubmit::Unchanged
                    },
                },
                _ => CheckpointSubmit::Busy,
            }
        }),
{
    if !enabled {
        return CheckpointSubmit::NotConfigured;
    }
    match asked {
        Asked::Answer(v) => match v.outcome {
            CheckpointOutcome::Unverified => CheckpointSubmit::Unverified,
            CheckpointOutcome::GenesisImmutable => CheckpointSubmit::GenesisImmutable,
            _ => {
                if v.anchor_advanced {
                    CheckpointSubmit::Advanced {
                        height: match v.anchor_height {
                            Some(h) => h,
                            None => 0,
                        },
                        enforced: v.enforced,
                        enforcing: v.outcome == CheckpointOutcome::Admitted,
                    }
                } else {
                    CheckpointSubmit::Unchanged
                }
            },
        },
        _ => CheckpointSubmit::Busy,
    }
}

// ---------------------------------------------------------------------------
// Refused transactions

/// Under which head a refusal falls.
#[derive(Clone, Copy, Debug, PartialEq, Eq, Structural)]
pub enum SubmitTag {
    NotAuthorKey,
    BadSignature,
    Duplicate,
    NotReady,
    TooLarge,
    FeeBelowFloor,
    NonceOutOfRange,
    InsufficientFunds,
    ReplacementUnderpriced,
    PoolFull,
    Malformed,
}

/// Why the pool refused a transaction, as far as it gives figures.
#[derive(Clone, Copy, Debug, PartialEq, Eq)]
pub enum Reject {
    TxTooLarge { got: usize },
    BelowRelayFloor { fee: u128, floor: u128 },
    /// The rules' own floor.
    FeeBelowFloor { fee: u128 },
    TxStale { next: u64, got: u64 },
    NonceGapTooLarge { next: u64, got: u64 },
    BadNonce { expected: u64, got: u64 },
    InsufficientBalance { need: u128, have: u128 },
    ReplacementUnderpriced { need: u128, got: u128 },
    SenderCap { cap: usize },
    Other,
}

/// The limits that a refusal quotes.
#[derive(Clone, Copy, Debug)]
pub struct Limits {
    pub max_tx_bytes: usize,
    pub fee_floor_mile: u128,
    pub max_nonce_gap: u64,
    pub max_mempool_txs: usize,
}

/// What a wallet is told of a refused transaction.
#[derive(Clone, Copy, Debug, PartialEq, Eq)]
pub enum SubmitError {
    NotAuthorKey,
    BadSignature,
    Duplicate,
    NotReady,
    TooLarge { len: usize, max: usize },
    FeeBelowRelayFloor { fee: u128, floor: u128 },
    NonceOutOfRange { got: u64, next: u64, max_gap: u64 },
    InsufficientFunds { need: u128, have: u128 },
    ReplacementUnderpriced { need: u128, got: u128 },
    PoolFull { cap: usize },
    Malformed(&'static str),
}

/// What is said of bytes that are no transaction.
pub const MALFORMED: &'static str =
    "the bytes do not decode as a transfer or an author announcement, or carry a type byte RPC does not accept";

/// What a wallet is told: the head under which the refusal falls, with the
/// figures that the refusal gives for it, and zeros where it gives none.
pub open spec fn told(tag: SubmitTag, why: Reject, l: Limits) -> SubmitError {
    match tag {
        SubmitTag::NotAuthorKey => SubmitError::NotAuthorKey,
        SubmitTag::BadSignature => SubmitError::BadSignature,
        SubmitTag::Duplicate => SubmitError::Duplicate,
        SubmitTag::NotReady => SubmitError::NotReady,
        SubmitTag::TooLarge => SubmitError::TooLarge {
            len: match why {
                Reject::TxTooLarge { got } => got,
                _ => 0,
            },
            max: l.max_tx_bytes,
        },
        SubmitTag::FeeBelowFloor => match why {
            Reject::BelowRelayFloor { fee, floor } => SubmitError::FeeBelowRelayFloor { fee, floor },
            Reject::FeeBelowFloor { fee } => SubmitError::FeeBelowRelayFloor {
                fee,
                floor: l.fee_floor_mile,
            },
            _ => SubmitError::FeeBelowRelayFloor { fee: 0, floor: l.fee_floor_mile },
        },
        SubmitTag::NonceOutOfRange => match why {
            Reject::TxStale { next, got } => SubmitError::NonceOutOfRange {
                got,
                next,
                max_gap: l.max_nonce_gap,
            },
            Reject::NonceGapTooLarge { next, got } => SubmitError::NonceOutOfRange {
                got,
                next,
                max_gap: l.max_nonce_gap,
            },
            Reject::BadNonce { expected, got } => SubmitError::NonceOutOfRange {
                got,
                next: expected,
                max_gap: l.max_nonce_gap,
            },
            _ => SubmitError::NonceOutOfRange { got: 0, next: 0, max_gap: l.max_nonce_gap },
        },
        SubmitTag::InsufficientFunds => match why {
            Reject::InsufficientBalance { need, have } => SubmitError::InsufficientFunds {
                need,
                have,
            },
            _ => SubmitError::InsufficientFunds { need: 0, have: 0 },
        },
        SubmitTag::ReplacementUnderpriced => match why {
            Reject::ReplacementUnderpriced { need, got } => SubmitError::ReplacementUnderpriced {
                need,
                got,
            },
            _ => SubmitError::ReplacementUnderpriced { need: 0, got: 0 },
        },
        SubmitTag::PoolFull => match why {
            Reject::SenderCap { cap } => SubmitError::PoolFull { cap },
            _ => SubmitError::PoolFull { cap: l.max_mempool_txs },
        },
        SubmitTag::Malformed => SubmitError::Malformed(MALFORMED),
    }
}

/// What a wallet is told of a refused transaction.
pub fn map_reject(tag: SubmitTag, why: Reject, l: &Limits) -> (e: SubmitError)
    ensures
        e == told(tag, why, *l),
{
    match (tag, why) {
        (SubmitTag::NotAuthorKey, _) => SubmitError::NotAuthorKey,
        (SubmitTag::BadSignature, _) => SubmitError::BadSignature,
        (SubmitTag::Duplicate, _) => SubmitError::Duplicate,
        (SubmitTag::NotReady, _) => SubmitError::NotReady,
        (SubmitTag::TooLarge, Reject::TxTooLarge { got }) => SubmitError::TooLarge {
            len: got,
            max: l.max_tx_bytes,
        },
        (SubmitTag::TooLarge, _) => SubmitError::TooLarge { len: 0, max: l.max_tx_bytes },
        (SubmitTag::FeeBelowFloor, Reject::BelowRelayFloor { fee, floor }) => {
            SubmitError::FeeBelowRelayFloor { fee, floor }
        },
        (SubmitTag::FeeBelowFloor, Reject::FeeBelowFloor { fee }) => {
            SubmitError::FeeBelowRelayFloor { fee, floor: l.fee_floor_mile }
        },
        (SubmitTag::FeeBelowFloor, _) => SubmitError::FeeBelowRelayFloor {
            fee: 0,
            floor: l.fee_floor_mile,
        },
        (SubmitTag::NonceOutOfRange, Reject::TxStale { next, got }) => {
            SubmitError::NonceOutOfRange { got, next, max_gap: l.max_nonce_gap }
        },
        (SubmitTag::NonceOutOfRange, Reject::NonceGapTooLarge { next, got }) => {
            SubmitError::NonceOutOfRange { got, next, max_gap: l.max_nonce_gap }
        },
        (SubmitTag::NonceOutOfRange, Reject::BadNonce { expected, got }) => {
            SubmitError::NonceOutOfRange { got, next: expected, max_gap: l.max_nonce_gap }
        },
        (SubmitTag::NonceOutOfRange, _) => SubmitError::NonceOutOfRange {
            got: 0,
            next: 0,
            max_gap: l.max_nonce_gap,
        },
        (SubmitTag::InsufficientFunds, Reject::InsufficientBalance { need, have }) => {
            SubmitError::InsufficientFunds { need, have }
        },
        (SubmitTag::InsufficientFunds, _) => SubmitError::InsufficientFunds { need: 0, have: 0 },
        (SubmitTag::ReplacementUnderpriced, Reject::ReplacementUnderpriced { need, got }) => {
            SubmitError::ReplacementUnderpriced { need, got }
        },
        (SubmitTag::ReplacementUnderpriced, _) => {
            SubmitError::ReplacementUnderpriced { need: 0, got: 0 }
        },
        (SubmitTag::PoolFull, Reject::SenderCap { cap }) => SubmitError::PoolFull { cap },
        (SubmitTag::PoolFull, _) => SubmitError::PoolFull { cap: l.max_mempool_txs },
        (SubmitTag::Malformed, _) => SubmitError::Malformed(MALFORMED),
    }
}

/// The head under which a wallet is told of a refusal.
pub open spec fn head_of(e: SubmitError) -> SubmitTag {
    match e {
        SubmitError::NotAuthorKey => SubmitTag::NotAuthorKey,
        SubmitError::BadSignature => SubmitTag::BadSignature,
        SubmitError::Duplicate => SubmitTag::Duplicate,
        SubmitError::NotReady => SubmitTag::NotReady,
        SubmitError::TooLarge { .. } => SubmitTag::TooLarge,
        SubmitError::FeeBelowRelayFloor { .. } => SubmitTag::FeeBelowFloor,
        SubmitError::NonceOutOfRange { .. } => SubmitTag::NonceOutOfRange,
        SubmitError::InsufficientFunds { .. } => SubmitTag::InsufficientFunds,
        SubmitError::ReplacementUnderpriced { .. } => SubmitTag::ReplacementUnderpriced,
        SubmitError::PoolFull { .. } => SubmitTag::PoolFull,
        SubmitError::Malformed(_) => SubmitTag::Malformed,
    }
}

/// Refusals under different heads stay apart: a wallet is told each under its
/// own.
pub proof fn law_refusals_stay_apart(tag: SubmitTag, why: Reject, l: Limits)
    ensures
        head_of(told(tag, why, l)) == tag,
{
}

/// What became of a transaction that was handed to the validator.
pub fn submit_result(asked: Asked<Result<[u8; 32], (SubmitTag, Reject)>>, l: &Limits) -> (r: Result<
    [u8; 32],
    SubmitError,
>)
    ensures
        r == (match asked {
            Asked::Answer(Ok(txid)) => Ok(txid),
            Asked::Answer(Err(why)) => Err(told(why.0, why.1, *l)),
            _ => Err(SubmitError::NotReady),
        }),
{
    match asked {
        Asked::Answer(Ok(txid)) => Ok(txid),
        Asked::Answer(Err(why)) => Err(map_reject(why.0, why.1, l)),
        _ => Err(SubmitError::NotReady),
    }
}

// ---------------------------------------------------------------------------
// Sessions and budgets

/// How long ago a miner connected and sent its last share, in seconds. Minus
/// one is never.
#[derive(Clone, Copy, Debug, PartialEq, Eq)]
pub struct SessionAge {
    pub connected_secs: u64,
    pub last_share_secs: i64,
}

/// The ages of a session at `now`. Every session of one answer is measured
/// against the same instant.
pub fn session_age(now_ms: u64, connected_ms: u64, last_share_ms: Option<u64>) -> (a: SessionAge)
    ensures
        a.connected_secs == elapsed(now_ms, connected_ms) / 1000,
        a.last_share_secs == (match last_share_ms {
            Some(t) => elapsed(now_ms, t) / 1000,
            None => -1,
        }),
{
    SessionAge {
        connected_secs: now_ms.saturating_sub(connected_ms) / 1000,
        last_share_secs: match last_share_ms {
            Some(t) => (now_ms.saturating_sub(t) / 1000) as i64,
            None => -1,
        },
    }
}

/// How many of a hundred proof-of-work checks the cache answered.
pub fn cache_hit_pct(calls: u64, hits: u64) -> (p: u32)
    ensures
        calls + hits == 0 ==> p == 0,
        calls + hits > 0 ==> p == hits * 100 / (calls + hits),
        p <= 100,
{
    let all: u128 = calls as u128 + hits as u128;
    if all == 0 {
        return 0;
    }
    let h: u128 = hits as u128;
    let p: u128 = h * 100 / all;
    assert(p <= 100) by (nonlinear_arith)
        requires
            p == h * 100 / (all as int),
            0 <= h <= all,
            all > 0,
    ;
    p as u32
}

/// Where the word that `i` stands in ends.
pub open spec fn word_end(s: Seq<char>, i: int) -> int
    decreases s.len() - i,
{
    if i < 0 || i >= s.len() || text::is_white(s[i]) {
        i
    } else {
        word_end(s, i + 1)
    }
}

/// The second word of a text, or nothing.
pub open spec fn second_word(s: Seq<char>) -> Option<Seq<char>> {
    let a = text::white_end(s, 0);
    let b = word_end(s, a);
    let c = text::white_end(s, b);
    let d = word_end(s, c);
    if c < s.len() {
        Some(s.subrange(c, d))
    } else {
        None
    }
}

/// The memory in use that the kernel's count of pages gives: the second word,
/// in pages of 4096 bytes, as far as it fits.
pub open spec fn resident(s: Seq<char>) -> Option<u64> {
    match second_word(s) {
        Some(w) => match text::number_in(w, 10, u64::MAX as nat) {
            Some(n) => Some(
                if n * 4096 <= u64::MAX {
                    (n * 4096) as u64
                } else {
                    u64::MAX
                },
            ),
            None => None,
        },
        None => None,
    }
}

fn skip_white(v: &Vec<char>, from: usize) -> (i: usize)
    requires
        from <= v.len(),
    ensures
        i == text::white_end(v@, from as int),
        from <= i <= v.len(),
{
    let mut i: usize = from;
    while i < v.len() && white(v[i])
        invariant
            from <= i <= v.len(),
            text::white_end(v@, from as int) == text::white_end(v@, i as int),
        decreases v.len() - i,
    {
        i += 1;
    }
    i
}

fn skip_word(v: &Vec<char>, from: usize) -> (i: usize)
    requires
        from <= v.len(),
    ensures
        i == word_end(v@, from as int),
        from <= i <= v.len(),
{
    let mut i: usize = from;
    while i < v.len() && !white(v[i])
        invariant
            from <= i <= v.len(),
            word_end(v@, from as int) == word_end(v@, i as int),
        decreases v.len() - i,
    {
        i += 1;
    }
    i
}

/// The memory in use that the kernel's count of pages gives.
pub fn resident_set_bytes(statm: &str) -> (r: Option<u64>)
    ensures
        r == resident(statm@),
{
    let v = to_chars(statm);
    let a: usize = skip_white(&v, 0);
    let b: usize = skip_word(&v, a);
    let c: usize = skip_white(&v, b);
    let d: usize = skip_word(&v, c);
    if c >= v.len() {
        return None;
    }
    let w = text::part(v.as_slice(), c, d);
    match number_of(w.as_slice(), 10, u64::MAX) {
        Some(n) => Some(
            if n > u64::MAX / 4096 {
                u64::MAX
            } else {
                n * 4096
            },
        ),
        None => None,
    }
}

// ---------------------------------------------------------------------------
// What the answers keep

/// Every figure that a wallet is told of a refusal is the refusal's own, in its
/// place, and every limit is the node's.
pub proof fn law_a_refusal_keeps_its_figures(tag: SubmitTag, why: Reject, l: &Limits, e: SubmitError)
    requires
        call_ensures(map_reject, (tag, why, l), e),
    ensures
        e matches SubmitError::TooLarge { len, max } ==> max == l.max_tx_bytes && (why matches
            Reject::TxTooLarge { got } ==> len == got),
        e matches SubmitError::FeeBelowRelayFloor { fee, floor } ==> (match why {
            Reject::BelowRelayFloor { fee: f, floor: x } => fee == f && floor == x,
            Reject::FeeBelowFloor { fee: f } => fee == f && floor == l.fee_floor_mile,
            _ => fee == 0 && floor == l.fee_floor_mile,
        }),
        e matches SubmitError::NonceOutOfRange { got, next, max_gap } ==> max_gap == l.max_nonce_gap
            && (match why {
            Reject::TxStale { next: n, got: g } => next == n && got == g,
            Reject::NonceGapTooLarge { next: n, got: g } => next == n && got == g,
            Reject::BadNonce { expected: n, got: g } => next == n && got == g,
            _ => next == 0 && got == 0,
        }),
        e matches SubmitError::InsufficientFunds { need, have } ==> (why matches
            Reject::InsufficientBalance { need: n, have: h } ==> need == n && have == h),
        e matches SubmitError::ReplacementUnderpriced { need, got } ==> (why matches
            Reject::ReplacementUnderpriced { need: n, got: g } ==> need == n && got == g),
        e matches SubmitError::PoolFull { cap } ==> (match why {
            Reject::SenderCap { cap: c } => cap == c,
            _ => cap == l.max_mempool_txs,
        }),
        e is TooLarge <==> tag == SubmitTag::TooLarge,
        e is FeeBelowRelayFloor <==> tag == SubmitTag::FeeBelowFloor,
        e is NonceOutOfRange <==> tag == SubmitTag::NonceOutOfRange,
        e is InsufficientFunds <==> tag == SubmitTag::InsufficientFunds,
        e is ReplacementUnderpriced <==> tag == SubmitTag::ReplacementUnderpriced,
        e is PoolFull <==> tag == SubmitTag::PoolFull,
        e is NotAuthorKey <==> tag == SubmitTag::NotAuthorKey,
        e is BadSignature <==> tag == SubmitTag::BadSignature,
        e is Duplicate <==> tag == SubmitTag::Duplicate,
        e is NotReady <==> tag == SubmitTag::NotReady,
        e is Malformed <==> tag == SubmitTag::Malformed,
{
}

/// A transaction that the validator takes is answered with its id, one that it
/// refuses with the refusal, and one that it was not asked about can be sent
/// again.
pub proof fn law_a_submission_is_answered(
    asked: Asked<Result<[u8; 32], (SubmitTag, Reject)>>,
    l: &Limits,
    r: Result<[u8; 32], SubmitError>,
)
    requires
        call_ensures(submit_result, (asked, l), r),
    ensures
        r is Ok <==> (asked matches Asked::Answer(x) && x is Ok),
        r matches Ok(id) ==> asked == Asked::Answer(Ok::<[u8; 32], (SubmitTag, Reject)>(id)),
        asked is Full || asked is Late ==> r == Err::<[u8; 32], SubmitError>(SubmitError::NotReady),
        asked matches Asked::Answer(Err(w)) ==> (r matches Err(e) && head_of(e) == w.0),
{
    match asked {
        Asked::Answer(Err(w)) => {
            law_refusals_stay_apart(w.0, w.1, *l);
        },
        _ => {},
    }
}

/// A question that was answered is not counted as refused; any other is, once.
pub proof fn law_an_unanswered_question_is_counted<T>(a: &mut Ask, asked: Asked<T>, r: Option<T>)
    requires
        old(a).refused < u64::MAX,
        call_ensures(Ask::ask::<T>, (a, asked), r),
    ensures
        asked matches Asked::Answer(t) ==> r == Some(t) && final(a).refused == old(a).refused,
        !(asked is Answer) ==> r is None && final(a).refused == old(a).refused + 1,
{
}

/// A header counts where its hash is the one at its height. It is then as deep as
/// there are blocks from it to the tip; one of another branch is not buried at
/// all. Only the tip shows the work of the chain.
pub proof fn law_a_header_counts_by_its_hash(
    raw: [u8; 132],
    hash: [u8; 32],
    height: u64,
    at: &Option<[u8; 32]>,
    tip: &TipView,
    r: HeaderRecord,
)
    requires
        call_ensures(header_record, (raw, hash, height, at, tip), r),
    ensures
        r.canonical <==> (at matches Some(h) && h@ == hash@),
        r.raw == raw && r.hash == hash && r.height == height,
        r.canonical && height <= tip.height ==> r.confirmations == tip.height - height + 1,
        !r.canonical ==> r.confirmations == 0,
        r.canonical && height == tip.height ==> r.chainwork == tip.chainwork,
        !r.canonical || height != tip.height ==> forall|i: int|
            0 <= i < 32 ==> r.chainwork@[i] == 0,
{
}

/// The ids of a block are those that its transactions have, in their order.
pub proof fn law_ids_stand_in_their_order(ids: Seq<Option<[u8; 32]>>, x: Option<[u8; 32]>)
    ensures
        known_ids(Seq::empty()).len() == 0,
        x matches Some(id) ==> known_ids(ids.push(x)) == known_ids(ids).push(id),
        x is None ==> known_ids(ids.push(x)) == known_ids(ids),
{
    assert(ids.push(x).drop_last() =~= ids);
}

/// A block is as large as its header and its body. As raw bytes it is the header
/// and then the body, and lists no ids; else it lists them and carries no bytes.
pub proof fn law_a_block_is_its_header_and_body(
    header: HeaderRecord,
    body: &[u8],
    ids: &[Option<[u8; 32]>],
    note: Vec<u8>,
    v: Verbosity,
    r: BlockRecord,
    k: int,
)
    requires
        call_ensures(block_record, (header, body, ids, note, v), r),
    ensures
        r.size_bytes == body@.len() + 132,
        r.tx_count == ids@.len(),
        r.author_note@ == note@,
        r.header == header,
        r.raw is Some <==> v == Verbosity::RawHex,
        r.raw matches Some(b) ==> b@.len() == body@.len() + 132 && (0 <= k < 132 ==> b@[k]
            == header.raw@[k]) && (132 <= k < b@.len() ==> b@[k] == body@[k - 132])
            && r.txids@.len() == 0,
        v != Verbosity::RawHex ==> r.txids@ == known_ids(ids@),
{
}

/// The credits that are not mature are added up: one more adds itself, up to the
/// most that can be counted.
pub proof fn law_credits_are_added_up(v: Seq<u128>, x: u128)
    ensures
        summed(Seq::empty()) == 0,
        summed(v) + x <= u128::MAX ==> summed(v.push(x)) == summed(v) + x,
        summed(v) + x > u128::MAX ==> summed(v.push(x)) == u128::MAX,
{
    assert(v.push(x).drop_last() =~= v);
}

/// The next nonce of an account is the one behind those that wait, and its
/// balance and nonce are the chain's.
pub proof fn law_an_account_shows_what_waits(
    balance: u128,
    nonce: u64,
    pending: u64,
    credits: &[u128],
    r: AccountRecord,
)
    requires
        call_ensures(account_record, (balance, nonce, pending, credits), r),
    ensures
        r.balance == balance,
        r.nonce == nonce,
        r.pending_nonce - r.nonce == pending,
        credits@.len() == 0 ==> r.immature == 0,
        r.immature == summed(credits@),
{
}

/// A reward is immature exactly where fewer than `maturity` blocks stand from its
/// own to the tip.
pub proof fn law_a_reward_matures_with_depth(tip: u64, maturity: u64, h: u64, height: u64)
    requires
        maturity >= 1,
        call_ensures(immature_from, (tip, maturity), h),
        height <= tip,
    ensures
        height >= h <==> tip - height + 1 <= maturity,
{
}

/// A transaction in a block is as deep as there are blocks from it to the tip;
/// one in the pool is in no block.
pub proof fn law_a_found_transaction_is_placed(
    txid: [u8; 32],
    type_byte: u8,
    raw: Vec<u8>,
    height: u64,
    tip: u64,
    r: TxLookup,
    p: TxLookup,
)
    requires
        height <= tip,
        notes::countable(tip, height),
        call_ensures(tx_in_block, (txid, type_byte, raw, height, tip), r),
        call_ensures(tx_in_pool, (txid, type_byte, raw), p),
    ensures
        r matches TxLookup::Found(t) && t.txid == txid && t.type_byte == type_byte && t.raw == raw
            && (t.location matches TxLocation::Block { height: h, confirmations } && h == height
            && confirmations == tip - height + 1),
        p matches TxLookup::Found(t) && t.txid == txid && t.type_byte == type_byte && t.raw == raw
            && t.location == TxLocation::Mempool,
{
}

/// Without an index nothing is said of a transaction but that; with one, a place
/// is looked at exactly where the index names it, and only an index that covers
/// the whole chain says that a transaction is absent.
pub proof fn law_only_an_index_says_absent(txindex: bool, answer: Option<Indexed>, r: Where)
    requires
        call_ensures(look_up, (txindex, answer), r),
    ensures
        r == Where::Nowhere(TxLookup::Absent) <==> txindex && answer == Some(Indexed::Absent),
        r matches Where::At { height, index } ==> txindex && answer == Some(
            Indexed::Found { height, index },
        ),
        txindex ==> (answer matches Some(Indexed::Found { height, index }) ==> r == (Where::At {
            height,
            index,
        })),
        !txindex || answer is None ==> r == Where::Nowhere(
            TxLookup::NotIndexed { indexed_from: None },
        ),
        txindex ==> (answer matches Some(Indexed::NotIndexed { indexed_from }) ==> (indexed_from
            < u64::MAX ==> r == Where::Nowhere(
            TxLookup::NotIndexed { indexed_from: Some(indexed_from) },
        ))),
{
}

/// A body that is gone is pruned, one that lacks the transaction shows that it is
/// absent, and only one that holds it finds it.
pub proof fn law_a_body_decides(txid: [u8; 32], height: u64, body: InBody, tip: u64, r: TxLookup)
    requires
        call_ensures(looked_up, (txid, height, body, tip), r),
    ensures
        r is Found <==> body is Held,
        r is Absent <==> body is Lacking,
        r == (TxLookup::Pruned { height }) <==> body is Gone,
{
}

/// A halt beats every verdict; else the last verdict is served, and before the
/// first the node is starting.
pub proof fn law_a_halt_beats_every_verdict(
    halted: Option<&str>,
    refreshed: Option<Verdict>,
    v: Verdict,
)
    requires
        call_ensures(served_verdict, (halted, refreshed), v),
    ensures
        halted is Some ==> v.status == SyncStatus::Stalled && v.reason is Some,
        halted is None ==> (refreshed matches Some(w) ==> v == w),
        halted is None && refreshed is None ==> v.status == SyncStatus::Starting && v.reason is None,
{
}

/// There is an audit of every height up to the tip and of none above, with the
/// figures that it was given.
pub proof fn law_an_audit_is_up_to_the_tip(
    height: u64,
    tip: u64,
    issued: u128,
    expected: u128,
    subsidy: u128,
    r: Option<EmissionAudit>,
)
    requires
        call_ensures(emission_audit, (height, tip, issued, expected, subsidy), r),
    ensures
        r is Some <==> height <= tip,
        r matches Some(a) ==> a.height == height && a.issued_mile == issued
            && a.expected_by_formula_mile == expected && a.subsidy_at_height_mile == subsidy,
{
}

/// The blocks until the sunset lead from the height to it, and it has passed once
/// none is left.
pub proof fn law_a_countdown_leads_to_the_sunset(sunset: u64, height: u64, c: Countdown)
    requires
        call_ensures(countdown, (sunset, height), c),
    ensures
        c.sunset_height == sunset,
        height <= sunset ==> height + c.blocks_until_sunset == sunset,
        height > sunset ==> c.blocks_until_sunset == 0,
        c.sunset_passed <==> height >= sunset,
{
}

/// A checkpoint is answered by what the chain made of it: it is enforced only
/// where it was admitted and the anchor moved. Where checkpoints are off nothing
/// is asked, and one that never reached the chain can be sent again.
pub proof fn law_a_checkpoint_is_answered(
    enabled: bool,
    asked: Asked<CheckpointReport>,
    r: CheckpointSubmit,
)
    requires
        call_ensures(checkpoint_submit, (enabled, asked), r),
    ensures
        r == CheckpointSubmit::NotConfigured <==> !enabled,
        enabled && !(asked is Answer) ==> r == CheckpointSubmit::Busy,
        enabled ==> (asked matches Asked::Answer(v) ==> {
            let refused = v.outcome == CheckpointOutcome::Unverified || v.outcome
                == CheckpointOutcome::GenesisImmutable;
            &&& v.outcome == CheckpointOutcome::Unverified <==> r == CheckpointSubmit::Unverified
            &&& v.outcome == CheckpointOutcome::GenesisImmutable <==> r
                == CheckpointSubmit::GenesisImmutable
            &&& !refused && v.anchor_advanced <==> r is Advanced
            &&& !refused && !v.anchor_advanced <==> r == CheckpointSubmit::Unchanged
            &&& r matches CheckpointSubmit::Advanced { height, enforced, enforcing } ==> enforced
                == v.enforced && (enforcing <==> v.outcome == CheckpointOutcome::Admitted) && (
            v.anchor_height matches Some(h) ==> height == h)
        }),
{
}

/// A time that has passed is counted in whole seconds, one that has not begun as
/// none, and a share that never came as minus one.
pub proof fn law_ages_are_whole_seconds(now: u64, connected: u64, last: Option<u64>, a: SessionAge)
    requires
        call_ensures(session_age, (now, connected, last), a),
    ensures
        connected <= now ==> connected + 1000 * a.connected_secs <= now < connected + 1000 * (
        a.connected_secs + 1),
        connected > now ==> a.connected_secs == 0,
        last is None <==> a.last_share_secs == -1,
        last matches Some(t) ==> (t <= now ==> t + 1000 * a.last_share_secs <= now < t + 1000 * (
        a.last_share_secs + 1)),
        last matches Some(t) ==> (t > now ==> a.last_share_secs == 0),
{
}

/// The age of the tip and its time make up the present, for a tip that is not
/// from the future.
pub proof fn law_a_tip_is_as_old_as_its_time(now: u64, time: u64, secs: u64)
    requires
        call_ensures(tip_age, (now, time), secs),
    ensures
        time <= now ==> time + secs == now,
        time > now ==> secs == 0,
{
}

/// The share of the cache is whole hundredths of all checks, rounded down.
pub proof fn law_hits_are_a_share_of_all(calls: u64, hits: u64, p: u32)
    requires
        call_ensures(cache_hit_pct, (calls, hits), p),
        calls + hits > 0,
    ensures
        p * (calls + hits) <= 100 * hits < (p + 1) * (calls + hits),
{
    let n = calls + hits;
    let q = (hits * 100) as int / n;
    vstd::arithmetic::div_mod::lemma_fundamental_div_mod((hits * 100) as int, n);
    assert(p == q);
    assert(n * q == q * n && (q + 1) * n == q * n + n) by (nonlinear_arith);
}

proof fn lemma_word_end(s: Seq<char>, i: int)
    requires
        0 <= i <= s.len(),
    ensures
        i <= word_end(s, i) <= s.len(),
        forall|k: int| i <= k < word_end(s, i) ==> !text::is_white(#[trigger] s[k]),
        word_end(s, i) < s.len() ==> text::is_white(s[word_end(s, i)]),
    decreases s.len() - i,
{
    if i < s.len() && !text::is_white(s[i]) {
        lemma_word_end(s, i + 1);
    }
}

proof fn lemma_word_ends_at(s: Seq<char>, i: int, n: int)
    requires
        0 <= i <= n <= s.len(),
        forall|k: int| i <= k < n ==> !text::is_white(#[trigger] s[k]),
        n < s.len() ==> text::is_white(s[n]),
    ensures
        word_end(s, i) == n,
    decreases n - i,
{
    if i < n {
        assert(!text::is_white(s[i]));
        lemma_word_ends_at(s, i + 1, n);
    }
}

/// The memory in use is the second word of the kernel's line: that many pages of
/// 4096 bytes.
pub proof fn law_the_second_word_counts_pages(a: Seq<char>, b: Seq<char>, rest: Seq<char>, n: nat)
    requires
        a.len() > 0,
        b.len() > 0,
        forall|k: int| 0 <= k < a.len() ==> !text::is_white(#[trigger] a[k]),
        forall|k: int| 0 <= k < b.len() ==> !text::is_white(#[trigger] b[k]),
        text::number_in(b, 10, u64::MAX as nat) == Some(n),
        n * 4096 <= u64::MAX,
    ensures
        resident(a + seq![' '] + b + (seq![' '] + rest)) == Some((n * 4096) as u64),
{
    let s = a + seq![' '] + b + (seq![' '] + rest);
    let p = a.len() as int;
    let q = p + 1 + b.len();
    assert(s[0] == a[0]);
    assert(text::white_end(s, 0) == 0);
    assert forall|k: int| 0 <= k < p implies !text::is_white(#[trigger] s[k]) by {
        assert(s[k] == a[k]);
    }
    assert(s[p] == ' ');
    lemma_word_ends_at(s, 0, p);
    assert(s[p + 1] == b[0]);
    assert(text::white_end(s, p + 1) == p + 1);
    assert(text::white_end(s, p) == p + 1);
    assert forall|k: int| p + 1 <= k < q implies !text::is_white(#[trigger] s[k]) by {
        assert(s[k] == b[k - p - 1]);
    }
    assert(s[q] == ' ');
    lemma_word_ends_at(s, p + 1, q);
    assert(s.subrange(p + 1, q) =~= b);
}

} // verus!
