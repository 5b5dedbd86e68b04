//! What an address has sent and received, newest first, and the search for a
//! transaction among it.
//!
//! The index hands out places. Each is checked against the body that counts at
//! its height now: a place that a replaced block left behind names a
//! transaction that no longer touches the address, and is passed over.

use vstd::prelude::*;
use crate::node::keys::same_key;
use crate::node::ring::same_address;

verus! {

/// A transaction, as far as a history shows it. The sender of a transfer or an
/// announcement is given by address.
#[derive(Clone, Copy, Debug, PartialEq, Eq)]
pub enum Tx {
    /// `credit` is the reward with the fees, or the reward alone where their sum
    /// does not fit.
    Coinbase { to: [u8; 20], credit: u128 },
    Transfer { from: [u8; 20], to: [u8; 20], amount: u128, fee: u128 },
    Announcement { from: [u8; 20], fee: u128 },
}

#[derive(Clone, Copy, Debug, PartialEq, Eq, Structural)]
pub enum HistoryKind {
    Coinbase,
    Transfer,
    Announcement,
}

#[derive(Clone, Copy, Debug, PartialEq, Eq, Structural)]
pub enum Direction {
    In,
    Out,
    SelfTransfer,
}

/// How a transaction looks from the side of an address.
#[derive(Clone, Copy, Debug, PartialEq, Eq)]
pub struct Described {
    pub kind: HistoryKind,
    pub direction: Direction,
    pub amount_mile: u128,
    pub fee_mile: u128,
    pub counterparty: Option<[u8; 20]>,
}

/// How `tx` looks from the side of `addr`, if it touches `addr`.
pub open spec fn described(tx: Tx, addr: [u8; 20]) -> Option<Described> {
    match tx {
        Tx::Coinbase { to, credit } => if to@ == addr@ {
            Some(
                Described {
                    kind: HistoryKind::Coinbase,
                    direction: Direction::In,
                    amount_mile: credit,
                    fee_mile: 0,
                    counterparty: None,
                },
            )
        } else {
            None
        },
        Tx::Transfer { from, to, amount, fee } => {
            let sent = from@ == addr@;
            let got = to@ == addr@;
            if !sent && !got {
                None
            } else {
                Some(
                    Described {
                        kind: HistoryKind::Transfer,
                        direction: if sent && got {
                            Direction::SelfTransfer
                        } else if sent {
                            Direction::Out
                        } else {
                            Direction::In
                        },
                        amount_mile: amount,
                        fee_mile: fee,
                        counterparty: Some(
                            if sent && got {
                                addr
                            } else if sent {
                                to
                            } else {
                                from
                            },
                        ),
                    },
                )
            }
        },
        Tx::Announcement { from, fee } => if from@ == addr@ {
            Some(
                Described {
                    kind: HistoryKind::Announcement,
                    direction: Direction::Out,
                    amount_mile: 0,
                    fee_mile: fee,
                    counterparty: None,
                },
            )
        } else {
            None
        },
    }
}

/// How `tx` looks from the side of `addr`, if it touches `addr`.
pub fn describe(tx: &Tx, addr: &[u8; 20]) -> (r: Option<Described>)
    ensures
        r == described(*tx, *addr),
{
    match tx {
        Tx::Coinbase { to, credit } => {
            if same_address(to, addr) {
                Some(
                    Described {
                        kind: HistoryKind::Coinbase,
                        direction: Direction::In,
                        amount_mile: *credit,
                        fee_mile: 0,
                        counterparty: None,
                    },
                )
            } else {
                None
            }
        },
        Tx::Transfer { from, to, amount, fee } => {
            let sent: bool = same_address(from, addr);
            let got: bool = same_address(to, addr);
            let (direction, peer) = match (sent, got) {
                (true, true) => (Direction::SelfTransfer, *addr),
                (true, false) => (Direction::Out, *to),
                (false, true) => (Direction::In, *from),
                (false, false) => {
                    return None;
                },
            };
            Some(
                Described {
                    kind: HistoryKind::Transfer,
                    direction,
                    amount_mile: *amount,
                    fee_mile: *fee,
                    counterparty: Some(peer),
                },
            )
        },
        Tx::Announcement { from, fee } => {
            if same_address(from, addr) {
                Some(
                    Described {
                        kind: HistoryKind::Announcement,
                        direction: Direction::Out,
                        amount_mile: 0,
                        fee_mile: *fee,
                        counterparty: None,
                    },
                )
            } else {
                None
            }
        },
    }
}

/// A transfer has a history entry on both of its sides, and on no other: from
/// the sender's it goes out to the receiver, from the receiver's it comes in
/// from the sender.
pub proof fn law_a_transfer_has_two_sides(
    from: [u8; 20],
    to: [u8; 20],
    amount: u128,
    fee: u128,
    other: [u8; 20],
)
    requires
        from@ != to@,
        other@ != from@,
        other@ != to@,
    ensures
        ({
            let tx = Tx::Transfer { from, to, amount, fee };
            &&& described(tx, from) matches Some(d) && d.direction == Direction::Out
                && d.counterparty == Some(to) && d.amount_mile == amount
            &&& described(tx, to) matches Some(d) && d.direction == Direction::In
                && d.counterparty == Some(from) && d.amount_mile == amount
            &&& described(tx, other) is None
        }),
{
}

// ---------------------------------------------------------------------------
// A hint that is checked

/// The first place from `i` up to `n` that holds the txid, or `n`.
pub open spec fn place(ids: Seq<Option<[u8; 32]>>, txid: Seq<u8>, i: int, n: int) -> int
    decreases n - i,
{
    if i >= n {
        n
    } else if ids[i] matches Some(id) && id@ == txid {
        i
    } else {
        place(ids, txid, i + 1, n)
    }
}

/// Where the txid stands in a body, looking from the hint to the end and then
/// from the beginning to the hint.
pub open spec fn hinted(ids: Seq<Option<[u8; 32]>>, txid: Seq<u8>, hint: int) -> Option<int> {
    let n = ids.len() as int;
    let h = if hint < n {
        hint
    } else {
        n
    };
    let behind = place(ids, txid, h, n);
    let before = place(ids, txid, 0, h);
    if behind < n {
        Some(behind)
    } else if before < h {
        Some(before)
    } else {
        None
    }
}

fn find_id(ids: &[Option<[u8; 32]>], txid: &[u8; 32], from: usize, to: usize) -> (r: usize)
    requires
        from <= to <= ids.len(),
    ensures
        r == place(ids@, txid@, from as int, to as int),
        from <= r <= to,
{
    let mut i: usize = from;
    while i < to
        invariant
            from <= i <= to <= ids.len(),
            place(ids@, txid@, from as int, to as int) == place(ids@, txid@, i as int, to as int),
        decreases to - i,
    {
        let here: bool = match &ids[i] {
            Some(id) => same_key(id, txid),
            None => false,
        };
        if here {
            return i;
        }
        i += 1;
    }
    i
}

/// Where the txid stands in a body whose transactions have the ids. The stored
/// place is only a hint.
pub fn verify_txid_hint(ids: &[Option<[u8; 32]>], txid: &[u8; 32], hint: u16) -> (r: Option<usize>)
    ensures
        r is Some <==> hinted(ids@, txid@, hint as int) is Some,
        r matches Some(i) ==> hinted(ids@, txid@, hint as int) == Some(i as int),
{
    let n: usize = ids.len();
    let h: usize = if (hint as usize) < n {
        hint as usize
    } else {
        n
    };
    let behind: usize = find_id(ids, txid, h, n);
    if behind < n {
        return Some(behind);
    }
    let before: usize = find_id(ids, txid, 0, h);
    if before < h {
        return Some(before);
    }
    None
}

/// A hint changes how soon a transaction is found, not whether: the place that
/// is given holds the txid, and none is given only where the body does not hold
/// it.
pub proof fn law_a_hint_is_only_a_hint(
    ids: Seq<Option<[u8; 32]>>,
    txid: Seq<u8>,
    hint: int,
    k: int,
)
    requires
        0 <= hint,
        0 <= k < ids.len(),
    ensures
        hinted(ids, txid, hint) matches Some(i) ==> 0 <= i < ids.len() && ids[i] is Some
            && ids[i]->Some_0@ == txid,
        hinted(ids, txid, hint) is None ==> !(ids[k] matches Some(id) && id@ == txid),
{
    let n = ids.len() as int;
    let h = if hint < n {
        hint
    } else {
        n
    };
    lemma_place(ids, txid, h, n, k);
    lemma_place(ids, txid, 0, h, k);
}

proof fn lemma_place(ids: Seq<Option<[u8; 32]>>, txid: Seq<u8>, i: int, n: int, k: int)
    requires
        0 <= i <= n <= ids.len(),
    ensures
        i <= place(ids, txid, i, n) <= n,
        place(ids, txid, i, n) < n ==> ids[place(ids, txid, i, n)] is Some && ids[place(
            ids,
            txid,
            i,
            n,
        )]->Some_0@ == txid,
        place(ids, txid, i, n) == n && i <= k < n ==> !(ids[k] matches Some(id) && id@ == txid),
    decreases n - i,
{
    if i < n {
        lemma_place(ids, txid, i + 1, n, k);
    }
}

// ---------------------------------------------------------------------------
// The history of an address

/// A place that the index names: a height, and a transaction of the block
/// there.
#[derive(Clone, Copy, Debug, PartialEq, Eq)]
pub struct Hit {
    pub height: u64,
    pub index: u16,
}

/// What the index answers, newest place first.
#[derive(Clone, Debug)]
pub enum Listing {
    NotIndexed,
    Page { indexed_from: u64, hits: Vec<Hit>, more: bool },
}

/// What the block at a place shows.
#[derive(Clone, Copy, Debug)]
pub enum Row {
    /// The body is not stored any more.
    NoBody,
    /// There is no transaction that touches the address.
    Nothing,
    Shown { txid: [u8; 32], time: u64, what: Described },
}

/// One transaction of a history.
#[derive(Clone, Copy, Debug, PartialEq, Eq)]
pub struct HistoryEntry {
    pub txid: [u8; 32],
    pub height: u64,
    pub index: u16,
    pub time: u64,
    pub confirmations: u64,
    pub what: Described,
}

/// A part of a history, and where the next part begins.
#[derive(Clone, Debug)]
pub enum HistoryLookup {
    NotIndexed,
    Page {
        indexed_from: u64,
        entries: Vec<HistoryEntry>,
        next_cursor: Option<Hit>,
        unavailable_below: Option<u64>,
    },
}

/// What to do next: ask the index, look at a place, or answer.
#[derive(Clone, Debug)]
pub enum Step {
    List { before: Option<Hit>, want: usize },
    Look(Hit),
    Done(HistoryLookup),
}

/// The first place at or behind `n` that is not above the tip, or the number
/// of places.
pub open spec fn reach(hits: Seq<Hit>, tip: u64, n: int) -> int
    decreases hits.len() - n,
{
    if n < 0 || n >= hits.len() {
        hits.len() as int
    } else if hits[n].height > tip {
        reach(hits, tip, n + 1)
    } else {
        n
    }
}

/// Where the walk stands when it has passed the places from `n` up to `k`.
pub open spec fn passed(hits: Seq<Hit>, cursor: Option<Hit>, n: int, k: int) -> Option<Hit> {
    if n < k {
        Some(hits[k - 1])
    } else {
        cursor
    }
}

/// A walk through the history of an address.
#[derive(Clone, Debug)]
pub struct History {
    pub tip: u64,
    pub limit: usize,
    pub entries: Vec<HistoryEntry>,
    pub cursor: Option<Hit>,
    pub unavailable_below: Option<u64>,
    pub indexed_from: u64,
    pub hits: Vec<Hit>,
    pub more: bool,
    pub n: usize,
}

/// How many places to ask for: a few more than are needed, since stale ones
/// drop out.
pub open spec fn wanted(limit: usize, have: nat) -> int {
    limit - have + 8
}

/// What is asked for next, with the places from `n` on left.
pub open spec fn is_settled(h: History, s: Step, old_n: int, cursor: Option<Hit>) -> bool {
    let k = reach(h.hits@, h.tip, old_n);
    &&& h.cursor == passed(h.hits@, cursor, old_n, k)
    &&& h.n == k
    &&& if k < h.hits@.len() {
        s == Step::Look(h.hits@[k])
    } else if h.more {
        s == (Step::List {
            before: h.cursor,
            want: wanted(h.limit, h.entries@.len()) as usize,
        })
    } else {
        s matches Step::Done(HistoryLookup::Page {
            indexed_from,
            entries,
            next_cursor,
            unavailable_below,
        }) && indexed_from == h.indexed_from && entries@ == h.entries@ && next_cursor is None
            && unavailable_below == h.unavailable_below
    }
}

/// The bound below which bodies are missing, when one at `height` is.
pub open spec fn missing(below: Option<u64>, height: u64) -> Option<u64> {
    match below {
        Some(b) => if b > height {
            Some(b)
        } else {
            Some((height + 1) as u64)
        },
        None => Some((height + 1) as u64),
    }
}

/// The entry that a place gives.
pub open spec fn entry_of(tip: u64, hit: Hit, txid: [u8; 32], time: u64, what: Described) -> HistoryEntry {
    HistoryEntry {
        txid,
        height: hit.height,
        index: hit.index,
        time,
        confirmations: (tip - hit.height + 1) as u64,
        what,
    }
}

impl History {
    /// Every entry is at or below the tip and confirmed by its own block at
    /// least, and there are fewer of them than were asked for.
    pub open spec fn wf(self) -> bool {
        &&& self.tip < u64::MAX
        &&& self.limit <= usize::MAX - 8
        &&& self.entries@.len() < self.limit
        &&& self.n <= self.hits@.len()
        &&& forall|i: int|
            0 <= i < self.entries@.len() ==> (#[trigger] self.entries@[i]).height <= self.tip
                && self.entries@[i].confirmations == self.tip - self.entries@[i].height + 1
    }

    /// Whether a place is waiting to be looked at.
    pub open spec fn looking(self) -> bool {
        self.n < self.hits@.len() && self.hits@[self.n as int].height <= self.tip
    }

    /// A walk from `before` on, or from the newest place.
    pub fn start(tip: u64, before: Option<Hit>, limit: usize) -> (r: (History, Step))
        requires
            tip < u64::MAX,
            1 <= limit <= usize::MAX - 8,
        ensures
            r.0.wf(),
            r.0.tip == tip,
            r.0.limit == limit,
            r.0.entries@.len() == 0,
            r.0.cursor == before,
            r.0.unavailable_below is None,
            r.1 == (Step::List { before, want: (limit + 8) as usize }),
    {
        let h = History {
            tip,
            limit,
            entries: Vec::new(),
            cursor: before,
            unavailable_below: None,
            indexed_from: 0,
            hits: Vec::new(),
            more: false,
            n: 0,
        };
        (h, Step::List { before, want: limit + 8 })
    }

    fn settle(&mut self) -> (s: Step)
        requires
            old(self).wf(),
        ensures
            final(self).wf(),
            is_settled(*final(self), s, old(self).n as int, old(self).cursor),
            final(self).tip == old(self).tip,
            final(self).limit == old(self).limit,
            final(self).entries@ == old(self).entries@,
            final(self).unavailable_below == old(self).unavailable_below,
            final(self).indexed_from == old(self).indexed_from,
            final(self).hits@ == old(self).hits@,
            final(self).more == old(self).more,
            s is Look ==> final(self).looking(),
    {
        let ghost from = self.n as int;
        while self.n < self.hits.len() && self.hits[self.n].height > self.tip
            invariant
                self.wf(),
                from <= self.n,
                self.tip == old(self).tip,
                self.limit == old(self).limit,
                self.entries@ == old(self).entries@,
                self.unavailable_below == old(self).unavailable_below,
                self.indexed_from == old(self).indexed_from,
                self.hits@ == old(self).hits@,
                self.more == old(self).more,
                reach(self.hits@, self.tip, from) == reach(self.hits@, self.tip, self.n as int),
                self.cursor == passed(self.hits@, old(self).cursor, from, self.n as int),
            decreases self.hits.len() - self.n,
        {
            self.cursor = Some(self.hits[self.n]);
            self.n += 1;
        }
        if self.n < self.hits.len() {
            Step::Look(self.hits[self.n])
        } else if self.more {
            Step::List { before: self.cursor, want: self.limit - self.entries.len() + 8 }
        } else {
            Step::Done(
                HistoryLookup::Page {
                    indexed_from: self.indexed_from,
                    entries: self.copy_entries(),
                    next_cursor: None,
                    unavailable_below: self.unavailable_below,
                },
            )
        }
    }

    fn copy_entries(&self) -> (v: Vec<HistoryEntry>)
        ensures
            v@ == self.entries@,
    {
        let mut v: Vec<HistoryEntry> = Vec::new();
        let mut i: usize = 0;
        while i < self.entries.len()
            invariant
                i <= self.entries.len(),
                v@ == self.entries@.take(i as int),
            decreases self.entries.len() - i,
        {
            v.push(self.entries[i]);
            i += 1;
            assert(self.entries@.take(i as int) =~= self.entries@.take(i - 1).push(
                self.entries@[i - 1],
            ));
        }
        assert(v@ =~= self.entries@);
        v
    }

    /// Takes in what the index answers.
    pub fn listed(&mut self, l: Listing) -> (s: Step)
        requires
            old(self).wf(),
        ensures
            final(self).wf(),
            final(self).tip == old(self).tip,
            final(self).limit == old(self).limit,
            final(self).entries@ == old(self).entries@,
            final(self).unavailable_below == old(self).unavailable_below,
            match l {
                Listing::NotIndexed => s == Step::Done(HistoryLookup::NotIndexed) && final(self).cursor == old(self).cursor,
                Listing::Page { indexed_from, hits, more } => {
                    &&& final(self).indexed_from == indexed_from
                    &&& final(self).hits@ == hits@
                    &&& final(self).more == more
                    &&& is_settled(*final(self), s, 0, old(self).cursor)
                },
            },
            s is Look ==> final(self).looking(),
    {
        match l {
            Listing::NotIndexed => Step::Done(HistoryLookup::NotIndexed),
            Listing::Page { indexed_from, hits, more } => {
                self.indexed_from = indexed_from;
                self.hits = hits;
                self.more = more;
                self.n = 0;
                self.settle()
            },
        }
    }

    /// Takes in what the block at the place shows.
    pub fn looked(&mut self, row: Row) -> (s: Step)
        requires
            old(self).wf(),
            old(self).looking(),
        ensures
            final(self).tip == old(self).tip,
            final(self).limit == old(self).limit,
            final(self).indexed_from == old(self).indexed_from,
            final(self).hits@ == old(self).hits@,
            final(self).more == old(self).more,
            ({
                let hit = old(self).hits@[old(self).n as int];
                let n = old(self).n + 1;
                match row {
                    Row::NoBody => {
                        &&& final(self).wf()
                        &&& final(self).entries@ == old(self).entries@
                        &&& final(self).unavailable_below == missing(
                            old(self).unavailable_below,
                            hit.height,
                        )
                        &&& is_settled(*final(self), s, n, Some(hit))
                    },
                    Row::Nothing => {
                        &&& final(self).wf()
                        &&& final(self).entries@ == old(self).entries@
                        &&& final(self).unavailable_below == old(self).unavailable_below
                        &&& is_settled(*final(self), s, n, Some(hit))
                    },
                    Row::Shown { txid, time, what } => {
                        &&& final(self).entries@ == old(self).entries@.push(
                            entry_of(old(self).tip, hit, txid, time, what),
                        )
                        &&& final(self).unavailable_below == old(self).unavailable_below
                        &&& if final(self).entries@.len() < final(self).limit {
                            final(self).wf() && is_settled(*final(self), s, n, Some(hit))
                        } else {
                            s matches Step::Done(HistoryLookup::Page {
                                indexed_from,
                                entries,
                                next_cursor,
                                unavailable_below,
                            }) && indexed_from == final(self).indexed_from && entries@ == final(self).entries@ && unavailable_below == final(self).unavailable_below
                                && next_cursor == (if n < final(self).hits@.len() || final(self).more {
                                Some(hit)
                            } else {
                                None
                            })
                        }
                    },
                }
            }),
            s is Look ==> final(self).wf() && final(self).looking(),
    {
        let hit: Hit = self.hits[self.n];
        self.cursor = Some(hit);
        assert(self.n < self.hits.len());
        self.n += 1;
        match row {
            Row::NoBody => {
                let above: u64 = hit.height + 1;
                self.unavailable_below =
                match self.unavailable_below {
                    Some(b) => if b > above {
                        Some(b)
                    } else {
                        Some(above)
                    },
                    None => Some(above),
                };
                self.settle()
            },
            Row::Nothing => self.settle(),
            Row::Shown { txid, time, what } => {
                self.entries.push(
                    HistoryEntry {
                        txid,
                        height: hit.height,
                        index: hit.index,
                        time,
                        confirmations: self.tip - hit.height + 1,
                        what,
                    },
                );
                if self.entries.len() == self.limit {
                    let rest: bool = self.n < self.hits.len() || self.more;
                    Step::Done(
                        HistoryLookup::Page {
                            indexed_from: self.indexed_from,
                            entries: self.copy_entries(),
                            next_cursor: if rest {
                                Some(hit)
                            } else {
                                None
                            },
                            unavailable_below: self.unavailable_below,
                        },
                    )
                } else {
                    self.settle()
                }
            },
        }
    }
}

/// A walk never shows more than was asked for, and nothing above the tip: each
/// entry is confirmed by its own block at least.
pub proof fn law_a_history_is_confirmed(h: History, i: int)
    requires
        h.wf(),
        0 <= i < h.entries@.len(),
    ensures
        h.entries@.len() <= h.limit,
        h.entries@[i].height <= h.tip,
        h.entries@[i].confirmations >= 1,
{
}

// ---------------------------------------------------------------------------
// The search for one transaction

/// How many places are looked at before a search gives up. A wallet looks for
/// its own recent transactions, and those come first.
pub const TX_SEARCH_MAX_HITS: usize = 10_000;

/// How many places a search asks the index for at a time.
pub const SEARCH_PAGE: usize = 256;

/// Where a transaction stands.
#[derive(Clone, Copy, Debug, PartialEq, Eq)]
pub enum TxLocation {
    Mempool,
    Block { height: u64, confirmations: u64 },
}

/// A transaction that was found.
#[derive(Clone, Debug, PartialEq, Eq)]
pub struct TxRecord {
    pub txid: [u8; 32],
    pub type_byte: u8,
    pub raw: Vec<u8>,
    pub location: TxLocation,
}

/// What is known of a transaction.
#[derive(Clone, Debug, PartialEq, Eq)]
pub enum TxLookup {
    Found(TxRecord),
    NotIndexed { indexed_from: Option<u64> },
    Absent,
    Pruned { height: u64 },
}

/// What the block at a place holds there.
#[derive(Clone, Debug)]
pub enum Held {
    /// The body is not stored any more.
    NoBody,
    /// Not the transaction that is looked for.
    Other,
    It { type_byte: u8, raw: Vec<u8> },
}

/// What to do next: ask the index for `SEARCH_PAGE` places, look at a place, or
/// answer. The answer is nothing where addresses are not indexed.
#[derive(Clone, Debug)]
pub enum SearchStep {
    List { before: Option<Hit> },
    Look(Hit),
    Done(Option<TxLookup>),
}

/// A search for a transaction among those of an address.
#[derive(Clone, Debug)]
pub struct Search {
    pub txid: [u8; 32],
    pub tip: u64,
    pub searched: usize,
    pub cursor: Option<Hit>,
    pub indexed_from: u64,
    pub hits: Vec<Hit>,
    pub more: bool,
    pub n: usize,
}

/// How far a search got that ends at `height`.
pub open spec fn cut_off(height: u64) -> Option<TxLookup> {
    Some(TxLookup::NotIndexed { indexed_from: Some((height + 1) as u64) })
}

/// What a search answers that has looked at every place.
pub open spec fn exhausted(indexed_from: u64) -> Option<TxLookup> {
    if indexed_from == 0 {
        Some(TxLookup::Absent)
    } else {
        Some(TxLookup::NotIndexed { indexed_from: Some(indexed_from) })
    }
}

/// What comes next in a search whose places from `from` on are left, when
/// `before` places were looked at.
pub open spec fn is_sought(q: Search, s: SearchStep, from: int, cursor: Option<Hit>, before: nat) -> bool {
    let k = reach(q.hits@, q.tip, from);
    if k < q.hits@.len() {
        &&& q.n == k
        &&& q.cursor == Some(q.hits@[k])
        &&& q.searched == before + 1
        &&& s == (if before < TX_SEARCH_MAX_HITS {
            SearchStep::Look(q.hits@[k])
        } else {
            SearchStep::Done(cut_off(q.hits@[k].height))
        })
    } else {
        &&& q.cursor == passed(q.hits@, cursor, from, k)
        &&& q.searched == before
        &&& s == (if q.more {
            SearchStep::List { before: q.cursor }
        } else {
            SearchStep::Done(exhausted(q.indexed_from))
        })
    }
}

impl Search {
    /// A search that is not over has not looked at more places than it may.
    pub open spec fn wf(self) -> bool {
        &&& self.tip < u64::MAX
        &&& self.searched <= TX_SEARCH_MAX_HITS
    }

    /// Whether a place is waiting to be looked at.
    pub open spec fn looking(self) -> bool {
        self.n < self.hits@.len() && self.hits@[self.n as int].height <= self.tip
    }

    /// A search from the newest place on.
    pub fn start(txid: [u8; 32], tip: u64) -> (r: (Search, SearchStep))
        requires
            tip < u64::MAX,
        ensures
            r.0.wf(),
            r.0.txid == txid,
            r.0.tip == tip,
            r.0.searched == 0,
            r.0.cursor is None,
            r.1 == (SearchStep::List { before: None }),
    {
        let q = Search {
            txid,
            tip,
            searched: 0,
            cursor: None,
            indexed_from: 0,
            hits: Vec::new(),
            more: false,
            n: 0,
        };
        (q, SearchStep::List { before: None })
    }

    fn seek(&mut self) -> (s: SearchStep)
        requires
            old(self).wf(),
        ensures
            is_sought(
                *final(self),
                s,
                old(self).n as int,
                old(self).cursor,
                old(self).searched as nat,
            ),
            final(self).txid == old(self).txid,
            final(self).tip == old(self).tip,
            final(self).indexed_from == old(self).indexed_from,
            final(self).hits@ == old(self).hits@,
            final(self).more == old(self).more,
            !(s is Done) ==> final(self).wf(),
            s is Look ==> final(self).looking(),
    {
        let ghost from = self.n as int;
        while self.n < self.hits.len()
            invariant
                self.wf(),
                from <= self.n,
                self.txid == old(self).txid,
                self.tip == old(self).tip,
                self.searched == old(self).searched,
                self.indexed_from == old(self).indexed_from,
                self.hits@ == old(self).hits@,
                self.more == old(self).more,
                from == old(self).n,
                reach(self.hits@, self.tip, from) == reach(self.hits@, self.tip, self.n as int),
                from < self.hits@.len() ==> self.cursor == passed(
                    self.hits@,
                    old(self).cursor,
                    from,
                    self.n as int,
                ),
                from >= self.hits@.len() ==> self.cursor == old(self).cursor,
                from <= self.hits@.len() ==> self.n <= self.hits@.len(),
            decreases self.hits.len() - self.n,
        {
            let hit: Hit = self.hits[self.n];
            self.cursor = Some(hit);
            if hit.height <= self.tip {
                self.searched += 1;
                if self.searched > TX_SEARCH_MAX_HITS {
                    return SearchStep::Done(
                        Some(TxLookup::NotIndexed { indexed_from: Some(hit.height + 1) }),
                    );
                }
                return SearchStep::Look(hit);
            }
            self.n += 1;
        }
        if self.more {
            SearchStep::List { before: self.cursor }
        } else if self.indexed_from == 0 {
            SearchStep::Done(Some(TxLookup::Absent))
        } else {
            SearchStep::Done(
                Some(TxLookup::NotIndexed { indexed_from: Some(self.indexed_from) }),
            )
        }
    }

    /// Takes in what the index answers.
    pub fn listed(&mut self, l: Listing) -> (s: SearchStep)
        requires
            old(self).wf(),
        ensures
            final(self).txid == old(self).txid,
            final(self).tip == old(self).tip,
            match l {
                Listing::NotIndexed => s == SearchStep::Done(None),
                Listing::Page { indexed_from, hits, more } => {
                    &&& final(self).indexed_from == indexed_from
                    &&& final(self).hits@ == hits@
                    &&& final(self).more == more
                    &&& is_sought(
                        *final(self),
                        s,
                        0,
                        old(self).cursor,
                        old(self).searched as nat,
                    )
                },
            },
            !(s is Done) ==> final(self).wf(),
            s is Look ==> final(self).looking(),
    {
        match l {
            Listing::NotIndexed => SearchStep::Done(None),
            Listing::Page { indexed_from, hits, more } => {
                self.indexed_from = indexed_from;
                self.hits = hits;
                self.more = more;
                self.n = 0;
                self.seek()
            },
        }
    }

    /// Takes in what the block at the place holds.
    pub fn looked(&mut self, held: Held) -> (s: SearchStep)
        requires
            old(self).wf(),
            old(self).looking(),
        ensures
            final(self).txid == old(self).txid,
            final(self).tip == old(self).tip,
            final(self).indexed_from == old(self).indexed_from,
            final(self).hits@ == old(self).hits@,
            final(self).more == old(self).more,
            ({
                let hit = old(self).hits@[old(self).n as int];
                match held {
                    Held::NoBody => s == SearchStep::Done(cut_off(hit.height)),
                    Held::Other => is_sought(
                        *final(self),
                        s,
                        old(self).n + 1,
                        old(self).cursor,
                        old(self).searched as nat,
                    ),
                    Held::It { type_byte, raw } => s == SearchStep::Done(
                        Some(
                            TxLookup::Found(
                                (TxRecord {
                                    txid: old(self).txid,
                                    type_byte,
                                    raw,
                                    location: (TxLocation::Block {
                                        height: hit.height,
                                        confirmations: (old(self).tip - hit.height + 1) as u64,
                                    }),
                                }),
                            ),
                        ),
                    ),
                }
            }),
            !(s is Done) ==> final(self).wf(),
            s is Look ==> final(self).looking(),
    {
        let hit: Hit = self.hits[self.n];
        match held {
            Held::NoBody => SearchStep::Done(
                Some(TxLookup::NotIndexed { indexed_from: Some(hit.height + 1) }),
            ),
            Held::Other => {
                assert(self.n < self.hits.len());
                self.n += 1;
                self.seek()
            },
            Held::It { type_byte, raw } => SearchStep::Done(
                Some(
                    TxLookup::Found(
                        TxRecord {
                            txid: self.txid,
                            type_byte,
                            raw,
                            location: TxLocation::Block {
                                height: hit.height,
                                confirmations: self.tip - hit.height + 1,
                            },
                        },
                    ),
                ),
            ),
        }
    }
}

// ---------------------------------------------------------------------------
// What a walk keeps

/// How a transaction looks from the side of an address: a reward comes in with
/// what it credits and costs nothing; a transfer shows its amount and its fee,
/// goes to oneself where both sides are the address, and else names the other
/// side; an announcement goes out, moves nothing and costs its fee. What does not
/// name the address does not show.
pub proof fn law_a_transaction_shows_its_side(tx: &Tx, addr: &[u8; 20], r: Option<Described>)
    requires
        call_ensures(describe, (tx, addr), r),
    ensures
        match *tx {
            Tx::Coinbase { to, credit } => {
                &&& r is Some <==> to@ == addr@
                &&& r matches Some(d) ==> d.kind == HistoryKind::Coinbase && d.direction
                    == Direction::In && d.amount_mile == credit && d.fee_mile == 0
                    && d.counterparty is None
            },
            Tx::Transfer { from, to, amount, fee } => {
                &&& r is Some <==> from@ == addr@ || to@ == addr@
                &&& r matches Some(d) ==> {
                    &&& d.kind == HistoryKind::Transfer && d.amount_mile == amount && d.fee_mile
                        == fee
                    &&& d.direction == Direction::SelfTransfer <==> from@ == addr@ && to@ == addr@
                    &&& d.direction == Direction::Out <==> from@ == addr@ && to@ != addr@
                    &&& d.direction == Direction::In <==> from@ != addr@ && to@ == addr@
                    &&& d.counterparty matches Some(other) && other@ == (if from@ == addr@ {
                        to@
                    } else {
                        from@
                    })
                }
            },
            Tx::Announcement { from, fee } => {
                &&& r is Some <==> from@ == addr@
                &&& r matches Some(d) ==> d.kind == HistoryKind::Announcement && d.direction
                    == Direction::Out && d.amount_mile == 0 && d.fee_mile == fee
                    && d.counterparty is None
            },
        },
{
}

/// The next place is the first that is not above the tip.
pub proof fn law_the_next_place_is_the_first_not_above_the_tip(hits: Seq<Hit>, tip: u64, n: int)
    requires
        0 <= n <= hits.len(),
    ensures
        n <= reach(hits, tip, n) <= hits.len(),
        reach(hits, tip, n) < hits.len() ==> hits[reach(hits, tip, n)].height <= tip,
        forall|k: int| n <= k < reach(hits, tip, n) ==> (#[trigger] hits[k]).height > tip,
    decreases hits.len() - n,
{
    if n < hits.len() && hits[n].height > tip {
        law_the_next_place_is_the_first_not_above_the_tip(hits, tip, n + 1);
    }
}

/// What a walk does next when the places of its page up to `n` are done: it looks
/// at the first place from there that is not above the tip; where there is none
/// it asks for more places below the last one, if there are more, and else it
/// answers with what it has.
pub open spec fn walks_on(h: History, s: Step, n: int, cursor: Option<Hit>) -> bool {
    match s {
        Step::Look(p) => {
            &&& n <= h.n < h.hits@.len()
            &&& p == h.hits@[h.n as int]
            &&& p.height <= h.tip
            &&& forall|k: int| n <= k < h.n ==> (#[trigger] h.hits@[k]).height > h.tip
        },
        Step::List { before, want } => {
            &&& h.more
            &&& forall|k: int| n <= k < h.hits@.len() ==> (#[trigger] h.hits@[k]).height > h.tip
            &&& before == (if n < h.hits@.len() {
                Some(h.hits@.last())
            } else {
                cursor
            })
            &&& want == h.limit - h.entries@.len() + 8
        },
        Step::Done(HistoryLookup::Page { indexed_from, entries, next_cursor, unavailable_below })
            => {
            &&& !h.more
            &&& forall|k: int| n <= k < h.hits@.len() ==> (#[trigger] h.hits@[k]).height > h.tip
            &&& next_cursor is None
            &&& entries@ == h.entries@
            &&& indexed_from == h.indexed_from
            &&& unavailable_below == h.unavailable_below
        },
        Step::Done(HistoryLookup::NotIndexed) => false,
    }
}

proof fn lemma_settled_walks_on(h: History, s: Step, n: int, cursor: Option<Hit>)
    requires
        h.wf(),
        0 <= n <= h.hits@.len(),
        is_settled(h, s, n, cursor),
    ensures
        walks_on(h, s, n, cursor),
{
    law_the_next_place_is_the_first_not_above_the_tip(h.hits@, h.tip, n);
}

/// A listing is walked from its first place on, and without an index there is no
/// history.
pub proof fn law_a_listing_is_walked_from_its_first_place(h: &mut History, l: Listing, s: Step)
    requires
        old(h).wf(),
        call_ensures(History::listed, (h, l), s),
    ensures
        l is NotIndexed ==> s == Step::Done(HistoryLookup::NotIndexed),
        final(h).entries@ == old(h).entries@,
        final(h).unavailable_below == old(h).unavailable_below,
        l matches Listing::Page { indexed_from, hits, more } ==> final(h).hits@ == hits@
            && final(h).more == more && final(h).indexed_from == indexed_from && walks_on(
            *final(h),
            s,
            0,
            old(h).cursor,
        ),
{
    match l {
        Listing::Page { indexed_from, hits, more } => {
            lemma_settled_walks_on(*final(h), s, 0, old(h).cursor);
        },
        Listing::NotIndexed => {},
    }
}

/// A place that shows the address becomes the next entry, at its height, with as
/// many confirmations as blocks stand from it to the tip; one that shows nothing
/// becomes none, and one without a body only moves up the height below which
/// bodies are missing. Then the walk goes on behind the place, unless it has as
/// many entries as were asked for: then it answers, and the next part begins
/// behind this place if anything is left.
pub proof fn law_a_place_becomes_an_entry_or_none(h: &mut History, row: Row, s: Step)
    requires
        old(h).wf(),
        old(h).looking(),
        call_ensures(History::looked, (h, row), s),
    ensures
        ({
            let hit = old(h).hits@[old(h).n as int];
            let n = old(h).n + 1;
            let full = final(h).entries@.len() >= final(h).limit;
            &&& !(row is Shown) ==> final(h).entries@ == old(h).entries@
            &&& row matches Row::Shown { txid, time, what } ==> {
                &&& final(h).entries@.len() == old(h).entries@.len() + 1
                &&& final(h).entries@.drop_last() == old(h).entries@
                &&& final(h).entries@.last().txid == txid
                &&& final(h).entries@.last().time == time
                &&& final(h).entries@.last().what == what
                &&& final(h).entries@.last().height == hit.height
                &&& final(h).entries@.last().index == hit.index
                &&& final(h).entries@.last().confirmations == final(h).tip - hit.height + 1
            }
            &&& !(row is NoBody) ==> final(h).unavailable_below == old(h).unavailable_below
            &&& row is NoBody ==> (final(h).unavailable_below matches Some(b) && b > hit.height && (
            b == hit.height + 1 || old(h).unavailable_below == Some(b)) && (
            old(h).unavailable_below matches Some(o) ==> b >= o))
            &&& !full ==> walks_on(*final(h), s, n, Some(hit))
            &&& full ==> (s matches Step::Done(HistoryLookup::Page {
                indexed_from,
                entries,
                next_cursor,
                unavailable_below,
            }) && entries@ == final(h).entries@ && unavailable_below == final(h).unavailable_below
                && indexed_from == final(h).indexed_from && next_cursor == (if n
                < final(h).hits@.len() || final(h).more {
                Some(hit)
            } else {
                None
            }))
        }),
{
    let hit = old(h).hits@[old(h).n as int];
    let n = old(h).n + 1;
    assert(old(h).entries@.len() < old(h).limit);
    if row is Shown {
        assert(final(h).entries@.drop_last() =~= old(h).entries@);
    }
    if final(h).entries@.len() < final(h).limit {
        lemma_settled_walks_on(*final(h), s, n, Some(hit));
    }
}

/// What a search does next when the places of its page up to `n` are done and it
/// has looked at `before` places: it looks at the first place from there that is
/// not above the tip, or says how far it got where it has looked at ten thousand;
/// where there is none it asks for more places, if there are more, and else says
/// that the transaction is absent, as far as addresses are indexed.
pub open spec fn seeks_on(q: Search, s: SearchStep, n: int, before: nat) -> bool {
    match s {
        SearchStep::Look(p) => {
            &&& n <= q.n < q.hits@.len()
            &&& p == q.hits@[q.n as int]
            &&& p.height <= q.tip
            &&& before < 10_000
            &&& q.searched == before + 1
            &&& forall|k: int| n <= k < q.n ==> (#[trigger] q.hits@[k]).height > q.tip
        },
        SearchStep::List { before: b } => {
            &&& q.more
            &&& q.searched == before
            &&& forall|k: int| n <= k < q.hits@.len() ==> (#[trigger] q.hits@[k]).height > q.tip
            &&& n < q.hits@.len() ==> b == Some(q.hits@.last())
        },
        SearchStep::Done(Some(TxLookup::Absent)) => {
            &&& !q.more
            &&& q.indexed_from == 0
            &&& forall|k: int| n <= k < q.hits@.len() ==> (#[trigger] q.hits@[k]).height > q.tip
        },
        SearchStep::Done(Some(TxLookup::NotIndexed { indexed_from })) => {
            ||| !q.more && q.indexed_from > 0 && indexed_from == Some(q.indexed_from)
            ||| before >= 10_000 && q.n < q.hits@.len() && indexed_from == Some(
                (q.hits@[q.n as int].height + 1) as u64,
            )
        },
        _ => false,
    }
}

proof fn lemma_sought_seeks_on(q: Search, s: SearchStep, n: int, cursor: Option<Hit>, before: nat)
    requires
        0 <= n <= q.hits@.len(),
        is_sought(q, s, n, cursor, before),
    ensures
        seeks_on(q, s, n, before),
{
    law_the_next_place_is_the_first_not_above_the_tip(q.hits@, q.tip, n);
}

/// A search looks at a listing from its first place on, and gives no answer
/// where addresses are not indexed.
pub proof fn law_a_search_goes_through_its_listing(q: &mut Search, l: Listing, s: SearchStep)
    requires
        old(q).wf(),
        call_ensures(Search::listed, (q, l), s),
    ensures
        l is NotIndexed ==> s == SearchStep::Done(None),
        l matches Listing::Page { indexed_from, hits, more } ==> final(q).hits@ == hits@
            && final(q).more == more && final(q).indexed_from == indexed_from && seeks_on(
            *final(q),
            s,
            0,
            old(q).searched as nat,
        ),
{
    match l {
        Listing::Page { indexed_from, hits, more } => {
            lemma_sought_seeks_on(*final(q), s, 0, old(q).cursor, old(q).searched as nat);
        },
        Listing::NotIndexed => {},
    }
}

/// A search ends at the transaction, where it stands and as deep as it lies; it
/// passes over any other, and ends without an answer below the place where there
/// is no body.
pub proof fn law_a_search_ends_at_the_transaction(q: &mut Search, held: Held, s: SearchStep)
    requires
        old(q).wf(),
        old(q).looking(),
        call_ensures(Search::looked, (q, held), s),
    ensures
        ({
            let hit = old(q).hits@[old(q).n as int];
            match held {
                Held::It { type_byte, raw } => s matches SearchStep::Done(
                    Some(TxLookup::Found(t)),
                ) && t.txid == old(q).txid && t.type_byte == type_byte && t.raw == raw
                    && t.location == (TxLocation::Block {
                    height: hit.height,
                    confirmations: (old(q).tip - hit.height + 1) as u64,
                }),
                Held::Other => seeks_on(*final(q), s, old(q).n + 1, old(q).searched as nat),
                Held::NoBody => s == SearchStep::Done(
                    Some(TxLookup::NotIndexed { indexed_from: Some((hit.height + 1) as u64) }),
                ),
            }
        }),
{
    if held is Other {
        lemma_sought_seeks_on(
            *final(q),
            s,
            old(q).n + 1,
            old(q).cursor,
            old(q).searched as nat,
        );
    }
}

} // verus!
