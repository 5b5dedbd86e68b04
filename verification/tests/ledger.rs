use plaine::node::answers::{
    account_record, block_record, cache_hit_pct, checkpoint_submit, counts, emission_audit,
    header_record, immature_from, look_up, looked_up, map_reject, resident_set_bytes,
    session_age, submit_result, tip_age, tx_in_block, tx_in_pool, Ask, Asked, CheckpointSubmit, InBody, Indexed, Limits, Reject, SubmitError, SubmitTag,
    TipView, Verbosity, Where, MALFORMED,
};
use plaine::node::commit::{deep_fork_height, fork_height, storage_err, work_be, CommitSink, SinkError, StoreError};
use plaine::node::fees::{sample_transfer_fees, sorted, suggest_from, FeeCache, FEE_SAMPLE_BLOCKS};
use plaine::node::history::{
    describe, verify_txid_hint, Described, Direction, Held, History, HistoryKind, HistoryLookup, Hit,
    Listing, Row, Search, SearchStep, Step, Tx, TxLocation, TxLookup, TX_SEARCH_MAX_HITS,
};
use plaine::node::lines::{l2_frame_sweep, l3h_header_sweep, sweep_range, Frames, Links};
use plaine::node::notes::{confirmations, Announcement, NoteIndex, NotesCursor};
use plaine::node::ring::{
    new_ring, sealed_count, split_headers, Account, Entry, Tip, UndoRec, HEADER_BYTES, RING_MAX_BLOCKS,
    RING_MAX_BYTES,
};

fn hash_at(height: u64) -> [u8; 32] {
    let mut hash = [0u8; 32];
    hash[..8].copy_from_slice(&height.to_le_bytes());
    hash
}

fn entry(height: u64, body: Vec<u8>) -> Entry {
    Entry {
        height,
        hash: hash_at(height),
        header: [0u8; HEADER_BYTES],
        body,
        deltas: Vec::new(),
        undo: Vec::new(),
        issued_delta: 0,
    }
}

#[test]
fn ring_answers_by_height_and_hash() {
    let mut r = new_ring();
    r.push(entry(7, vec![1, 2, 3]));
    assert_eq!(r.at(7).map(|e| e.body.clone()), Some(vec![1, 2, 3]));
    let h = r.entries[0].hash;
    assert_eq!(r.find(&h), Some(0));
}

#[test]
fn tx_in_ring_finds_unsealed_tx() {
    let rec = vec![0x77, 0x41, 0x41, 0x41];
    let mut ring = new_ring();
    assert!(ring.tx_in_ring(|_| Some((0, Vec::new()))).is_none());
    ring.push(entry(5, rec.clone()));
    let (h, ix, raw) = ring
        .tx_in_ring(|body| if *body == rec { Some((0, body.clone())) } else { None })
        .expect("tx_in_ring must find a tx whose block is still unsealed");
    assert_eq!(h, 5);
    assert_eq!(ix, 0);
    assert_eq!(raw, rec, "the bytes must be the record's own, not a re-serialization");

    assert!(ring.tx_in_ring(|_| None).is_none());
}

#[test]
fn all_reads_consult_the_ring() {
    let mut ring = new_ring();
    let nothing = Account { balance: 0, nonce: 0 };

    assert!(ring.header_at(0, || None).is_none(), "the empty store must not answer for height 0");
    assert!(ring.body_at(0, || None).is_none());
    assert!(ring.hash_at(0, || None).is_none());
    assert!(ring.undo_at(0, || None).is_none());
    assert_eq!(ring.headers_range(0, 8, Vec::new()).len(), 0);

    let addr = [7u8; 20];
    let funded = Account { balance: 4_242, nonce: 9 };
    let mut header = [0u8; HEADER_BYTES];
    header[0] = 0xAB;
    let hash = hash_at(0);
    ring.push(Entry {
        height: 0,
        hash,
        header,
        body: vec![0xC0, 0xFF, 0xEE],
        deltas: vec![(addr, funded)],
        undo: vec![UndoRec { addr, prev_balance: 1, prev_nonce: 2, existed: true }],
        issued_delta: 500,
    });

    assert_eq!(
        ring.header_at(0, || None).map(|r| r[0]),
        Some(0xAB),
        "header_at lost its ring read: the validator cannot see a block it just committed"
    );
    assert_eq!(ring.hash_at(0, || None), Some(hash), "hash_at lost its ring read");
    assert_eq!(
        ring.body_at(0, || None),
        Some(vec![0xC0, 0xFF, 0xEE]),
        "body_at lost its ring read - the coinbase-maturity ledger depends on it"
    );
    assert_eq!(
        ring.header_raw_by_hash(&hash, || None).map(|r| r.1[0]),
        Some(0xAB),
        "header_by_hash lost its ring read"
    );
    assert_eq!(
        ring.body_by_hash_inner(&hash, || None, |_| None),
        Some(vec![0xC0, 0xFF, 0xEE]),
        "body_by_hash lost its ring read - have_body is hash-keyed"
    );
    assert_eq!(
        ring.undo_at(0, || None).map(|v| v.len()),
        Some(1),
        "undo_at lost its ring read - a missing undo row forces a needless deep replay"
    );
    assert_eq!(ring.account(&addr, || nothing), funded, "account lost its ring read");
    assert_eq!(ring.accounts(&[addr], |_| nothing), vec![funded], "accounts lost its ring read");
    assert_eq!(ring.issued(0), 500, "issued lost its ring read");
    assert_eq!(
        ring.headers_range(0, 8, Vec::new()).len(),
        1,
        "headers_range lost its unsealed tail and stops short of the announced tip"
    );

    ring.clear();
    assert!(ring.header_at(0, || None).is_none(), "a cleared ring must stop answering");
    assert_eq!(ring.issued(0), 0, "issued must stop double-counting a sealed block");
}

#[test]
fn what_the_ring_lacks_the_store_answers() {
    let mut ring = new_ring();
    ring.push(entry(9, vec![9]));
    assert_eq!(ring.body_at(8, || Some(vec![8])), Some(vec![8]));
    assert_eq!(ring.account(&[1; 20], || Account { balance: 3, nonce: 4 }).balance, 3);
    assert_eq!(ring.body_by_hash_inner(&[1; 32], || Some(4), |h| Some(vec![h as u8])), Some(vec![4]));
    let sealed = Tip { height: 8, hash: hash_at(8), header: None };
    assert_eq!(ring.tip(sealed).height, 9);
    assert_eq!(new_ring().tip(sealed).height, 8);
    let row = [3u8; HEADER_BYTES];
    assert_eq!(ring.headers_range(8, 8, vec![row]).len(), 2, "the sealed row, then the unsealed one");
    assert_eq!(ring.headers_range(8, 1, vec![row]), vec![row]);
    assert_eq!(split_headers(&[7u8; 2 * HEADER_BYTES], 2), vec![[7u8; HEADER_BYTES]; 2]);
    assert_eq!(sealed_count(5_000, 2_000), 2_000);
}

#[test]
fn prune_drops_sealed_heights() {
    let mut r = new_ring();
    for h in 0..10 {
        r.push(entry(h, vec![0; 100]));
    }
    assert_eq!(r.len(), 10);
    r.prune(4);
    assert_eq!(r.len(), 6);
    assert!(r.at(3).is_none(), "3 is below the watermark and is the reader's now");
    assert!(r.at(4).is_some());
    assert_eq!(r.bytes(), 600, "byte accounting survives a prune");

    let h = r.entries[0].hash;
    assert_eq!(r.find(&h), Some(0));
}

#[test]
fn byte_bound_trips_before_block_bound() {
    const MAX_BODY_BYTES: usize = 1_048_576;
    let mut r = new_ring();
    let mut n = 0;
    while r.bytes() < RING_MAX_BYTES {
        assert!(!r.must_seal());
        r.push(entry(n, vec![0u8; MAX_BODY_BYTES]));
        n += 1;
    }
    assert!(r.must_seal());
    assert!(
        r.len() < RING_MAX_BLOCKS,
        "the byte bound must trip first at MAX_BODY_BYTES, or 256 full blocks \
         (~256 MiB) sit in RAM against a 512 MiB target"
    );
}

#[test]
fn newest_entry_wins_in_window() {
    let mut r = new_ring();
    r.push(entry(5, vec![0xAA]));
    r.push(entry(5, vec![0xBB]));
    assert_eq!(r.at(5).map(|e| e.body.clone()), Some(vec![0xBB]));
}

#[test]
fn l2_sweep_unjudged_not_verified() {
    let r = l2_frame_sweep(sweep_range(0, 0), &[Frames::NoVerdict]);
    assert_eq!(
        r.verified, 0,
        "a store with nothing sealed has verified nothing: {r:?}"
    );
    assert!(r.mismatched.is_empty(), "{r:?}");
    assert!(
        r.unjudged > 0,
        "every segment of a fresh store answers Ok(None), which must be \
         counted: {r:?}"
    );
    let line = r.line();
    assert!(
        line.contains("could not be judged"),
        "the operator must be told the difference in words: {line}"
    );
    assert!(
        line.contains("is not") && line.contains("clean"),
        "and told that it is not the same as clean: {line}"
    );

    assert!(line.contains("0 verified"), "{line}");
    assert!(line.contains("0 MISMATCHED"), "{line}");
}

#[test]
fn sweeps_name_what_is_wrong() {
    let r = l2_frame_sweep((3, 5), &[Frames::Match, Frames::Differ, Frames::NoVerdict]);
    assert_eq!((r.verified, r.mismatched.clone(), r.unjudged), (1, vec![4], 1));
    let r = l3h_header_sweep((3, 5), &[Links::Hold(10), Links::BrokenAt(77), Links::NoVerdict]);
    assert_eq!((r.links, r.broken.clone(), r.unjudged), (10, vec![(4, 77)], 1));
    assert!(r.line().contains("10"), "{}", r.line());
}

fn found(payloads: &[&[u8]]) -> Vec<Announcement> {
    payloads
        .iter()
        .enumerate()
        .map(|(i, p)| Announcement { txid: [i as u8; 32], encoding: 0, payload: p.to_vec() })
        .collect()
}

#[test]
fn two_notes_both_paged() {
    let mut ix = NoteIndex::new();
    ix.on_block(5, &found(&[b"first", b"second"]));
    assert_eq!(ix.page(NotesCursor::Newest, 10, 10).total, 2);
    let p1 = ix.page(NotesCursor::Newest, 1, 10);
    assert_eq!(p1.notes.len(), 1);
    assert_eq!(p1.notes[0].payload, b"second");
    assert!(p1.more);
    let next = p1.next_seq.expect("more implies a cursor");
    let p2 = ix.page(NotesCursor::Before(next), 10, 10);
    assert_eq!(p2.notes.len(), 1);
    assert_eq!(p2.notes[0].payload, b"first");
    assert!(!p2.more);
    assert_eq!(p2.total, 2, "total is the true count regardless of the cursor");
}

#[test]
fn confirmations_never_zero() {
    let mut ix = NoteIndex::new();
    ix.on_block(5, &found(&[b"x"]));
    let p = ix.page(NotesCursor::Newest, 10, 5);
    assert_eq!(p.notes[0].confirmations, 1, "a note in the tip block has one confirmation");
    assert_eq!(confirmations(9, 5), 5);
    assert_eq!(confirmations(4, 5), 1);
}

#[test]
fn reorg_removes_orphaned_notes() {
    let mut ix = NoteIndex::new();
    ix.on_block(5, &found(&[b"kept"]));
    ix.on_block(6, &found(&[b"orphaned"]));
    assert_eq!(ix.page(NotesCursor::Newest, 10, 10).total, 2);
    ix.rollback_above(5);
    assert_eq!(ix.page(NotesCursor::Newest, 10, 10).total, 1);
    let p = ix.page(NotesCursor::Newest, 10, 5);
    assert_eq!(p.notes[0].payload, b"kept");
    assert_eq!(p.notes[0].seq, 0, "sequence numbers are compacted after a reorg");
}

#[test]
fn a_reorg_keeps_the_notes_of_the_branch_it_applies() {
    let mut ix = NoteIndex::new();
    ix.on_block(5, &found(&[b"kept"]));
    ix.on_block(6, &found(&[b"orphaned"]));
    ix.on_reorg(5, &[(6, found(&[b"replacement"])), (7, found(&[b"on top"]))]);
    let p = ix.page(NotesCursor::Newest, 10, 7);
    let payloads: Vec<&[u8]> = p.notes.iter().map(|n| n.payload.as_slice()).collect();
    assert_eq!(payloads, [&b"on top"[..], b"replacement", b"kept"], "newest first");
    assert_eq!(p.total, 3);
}

#[test]
fn a_page_may_begin_at_a_height() {
    let mut ix = NoteIndex::new();
    ix.on_block(5, &found(&[b"a"]));
    ix.on_block(9, &found(&[b"b"]));
    let p = ix.page(NotesCursor::AtOrBelowHeight(8), 10, 20);
    assert_eq!(p.notes.len(), 1);
    assert_eq!(p.notes[0].payload, b"a");
}

#[test]
fn pages_one_behind_another_show_every_note_once() {
    let mut ix = NoteIndex::new();
    for h in 1..=5u64 {
        ix.on_block(h, &found(&[b"a", b"b"]));
    }
    for limit in 1..=11 {
        let mut seen = Vec::new();
        let mut p = ix.page(NotesCursor::Newest, limit, 20);
        loop {
            assert!(p.notes.len() <= limit);
            assert_eq!(p.total, 10);
            assert_eq!(p.next_seq.is_some(), p.more);
            seen.extend(p.notes.iter().map(|n| n.seq));
            match p.next_seq {
                Some(s) => p = ix.page(NotesCursor::Before(s), limit, 20),
                None => break,
            }
        }
        assert_eq!(seen, (0..10).rev().collect::<Vec<u64>>(), "pages of {limit}");
    }
    assert_eq!(confirmations(u64::MAX, 1), u64::MAX);
}

#[test]
fn fee_percentiles_are_nearest_rank_and_never_below_the_floor() {
    let s = suggest_from(240, &mut [], 7);
    assert_eq!((s.p10_mile, s.p50_mile, s.p90_mile), (7, 7, 7), "no transfers: the floor");
    assert_eq!(s.blocks_sampled, 240);

    let mut fees: Vec<u128> = (1..=100).rev().collect();
    let s = suggest_from(3, &mut fees, 1);
    assert_eq!(fees, (1..=100).collect::<Vec<u128>>(), "the fees are left in order");
    assert_eq!((s.p10_mile, s.p50_mile, s.p90_mile), (10, 50, 90));

    let s = suggest_from(3, &mut [2, 40, 3], 5);
    assert_eq!((s.p10_mile, s.p50_mile, s.p90_mile), (5, 5, 40), "clamped to the floor");
    assert_eq!(s.relay_floor_mile, 5);

    let s = suggest_from(1, &mut [9], 1);
    assert_eq!((s.p10_mile, s.p50_mile, s.p90_mile), (9, 9, 9), "one fee is every percentile");
}

#[test]
fn fee_sampling_reads_transfers_back_from_the_tip_and_stops_at_a_gap() {
    // Heights 10 and 12..=14 are held; 11 is missing, as below a pruning horizon.
    let read = |h: u64| match h {
        10 => Some(vec![1_000_000]),
        12 => Some(vec![5, 50]),
        13 => Some(vec![]),
        14 => Some(vec![7]),
        _ => None,
    };
    let s = sample_transfer_fees(read, 14, 240);
    assert_eq!(s.blocks, 3, "14, 13, 12 are read; the gap at 11 ends the sample");
    assert_eq!(sorted(&s.fees), [5, 7, 50], "only transfers count; block 10 is past the gap");
    assert_eq!(s.suggest(1).p90_mile, 50);

    let s = sample_transfer_fees(read, 14, 2);
    assert_eq!((s.blocks, s.fees.len()), (2, 1), "the window is `count` blocks: 14 and 13");
}

#[test]
fn advice_is_kept_for_a_tip() {
    let mut c = FeeCache { last: None };
    assert_eq!(c.get(&[1; 32]), None);
    let s = suggest_from(1, &mut [9], 1);
    c.put([1; 32], s);
    assert_eq!(c.get(&[1; 32]), Some(s));
    assert_eq!(c.get(&[2; 32]), None);
    assert_eq!(FEE_SAMPLE_BLOCKS, 240);
}

#[test]
fn a_side_branch_hash_is_not_served_the_best_chain_body() {
    let (best, side) = ([0x05; 32], [0xAB; 32]);
    let at_height = Some(best);
    assert!(counts(&at_height, &best), "the best block");
    let tip = TipView { height: 487, hash: [9; 32], time: 0, chainwork: [1; 32] };
    let h = header_record([0; 132], side, 5, &at_height, &tip);
    assert!(!h.canonical, "the side header itself is known");
    assert_eq!(h.confirmations, 0);
    assert!(!counts(&at_height, &side), "the body stored at height 5 belongs to another block");
    assert_eq!(header_record([0; 132], best, 5, &at_height, &tip).confirmations, 483);
}

#[test]
fn txid_hint_verified_against_body() {
    let ids: Vec<Option<[u8; 32]>> = (10u8..14).map(|h| Some([h; 32])).collect();
    let want = [12u8; 32];

    assert_eq!(verify_txid_hint(&ids, &want, 2), Some(2));

    assert_eq!(verify_txid_hint(&ids, &want, 0), Some(2));
    assert_eq!(verify_txid_hint(&ids, &want, 3), Some(2));

    assert_eq!(verify_txid_hint(&ids, &want, 9), Some(2));

    let absent = [0xEE; 32];
    assert_eq!(verify_txid_hint(&ids, &absent, 1), None);
}

#[test]
fn unanswered_checkpoint_is_busy() {
    assert_eq!(
        checkpoint_submit(true, Asked::Late),
        CheckpointSubmit::Busy,
        "a record that never reached the chain must be retryable"
    );
    assert_eq!(checkpoint_submit(true, Asked::Full), CheckpointSubmit::Busy);
    assert_eq!(checkpoint_submit(false, Asked::Late), CheckpointSubmit::NotConfigured);
}

const LIMITS: Limits =
    Limits { max_tx_bytes: 4_096, fee_floor_mile: 1, max_nonce_gap: 64, max_mempool_txs: 50_000 };

#[test]
fn refusals_keep_distinct_tags() {
    let broke = map_reject(
        SubmitTag::InsufficientFunds,
        Reject::InsufficientBalance { need: 1_000_000, have: 0 },
        &LIMITS,
    );
    let forged = map_reject(SubmitTag::NotAuthorKey, Reject::Other, &LIMITS);
    assert_eq!(broke, SubmitError::InsufficientFunds { need: 1_000_000, have: 0 });
    assert_eq!(forged, SubmitError::NotAuthorKey);
    assert_ne!(broke, forged);
}

#[test]
fn rejects_map_to_tags_no_debug_leak() {
    for (tag, r, want) in [
        (SubmitTag::Malformed, Reject::Other, SubmitError::Malformed(MALFORMED)),
        (
            SubmitTag::TooLarge,
            Reject::TxTooLarge { got: 9_000 },
            SubmitError::TooLarge { len: 9_000, max: 4_096 },
        ),
        (
            SubmitTag::FeeBelowFloor,
            Reject::BelowRelayFloor { fee: 1, floor: 1_000_000 },
            SubmitError::FeeBelowRelayFloor { fee: 1, floor: 1_000_000 },
        ),
        (SubmitTag::BadSignature, Reject::Other, SubmitError::BadSignature),
        (
            SubmitTag::NonceOutOfRange,
            Reject::TxStale { next: 4, got: 2 },
            SubmitError::NonceOutOfRange { got: 2, next: 4, max_gap: 64 },
        ),
        (SubmitTag::Duplicate, Reject::Other, SubmitError::Duplicate),
        (SubmitTag::PoolFull, Reject::Other, SubmitError::PoolFull { cap: 50_000 }),
        (SubmitTag::NotReady, Reject::Other, SubmitError::NotReady),
        (SubmitTag::NotAuthorKey, Reject::Other, SubmitError::NotAuthorKey),
        (
            SubmitTag::ReplacementUnderpriced,
            Reject::ReplacementUnderpriced { need: 9, got: 8 },
            SubmitError::ReplacementUnderpriced { need: 9, got: 8 },
        ),
    ] {
        assert_eq!(map_reject(tag, r, &LIMITS), want);
    }
}

#[test]
fn a_submission_that_reached_nobody_is_not_ready() {
    assert_eq!(submit_result(Asked::Full, &LIMITS), Err(SubmitError::NotReady));
    assert_eq!(submit_result(Asked::Late, &LIMITS), Err(SubmitError::NotReady));
    assert_eq!(submit_result(Asked::Answer(Ok([3; 32])), &LIMITS), Ok([3; 32]));
    let mut a = Ask::new();
    assert_eq!(a.ask::<u8>(Asked::Full), None);
    assert_eq!(a.ask(Asked::Answer(7)), Some(7));
    assert_eq!(a.refused(), 1);
    assert_eq!(Ask::queue_depth(64, 60), 4);
}

const A: [u8; 20] = [1; 20];
const B: [u8; 20] = [2; 20];

fn xfer(from: [u8; 20], to: [u8; 20]) -> Tx {
    Tx::Transfer { from, to, amount: 7_000, fee: 1_000 }
}

fn told(
    kind: HistoryKind,
    direction: Direction,
    amount_mile: u128,
    fee_mile: u128,
    counterparty: Option<[u8; 20]>,
) -> Option<Described> {
    Some(Described { kind, direction, amount_mile, fee_mile, counterparty })
}

#[test]
fn a_coinbase_credits_reward_plus_fees_to_its_recipient_only() {
    let cb = Tx::Coinbase { to: A, credit: 200_000 + 3_000 };
    assert_eq!(describe(&cb, &A), told(HistoryKind::Coinbase, Direction::In, 203_000, 0, None));
    assert_eq!(describe(&cb, &B), None);
}

#[test]
fn a_transfer_reads_from_each_side() {
    assert_eq!(
        describe(&xfer(A, B), &A),
        told(HistoryKind::Transfer, Direction::Out, 7_000, 1_000, Some(B))
    );
    assert_eq!(
        describe(&xfer(A, B), &B),
        told(HistoryKind::Transfer, Direction::In, 7_000, 1_000, Some(A))
    );
    assert_eq!(
        describe(&xfer(A, A), &A),
        told(HistoryKind::Transfer, Direction::SelfTransfer, 7_000, 1_000, Some(A))
    );
}

#[test]
fn a_transaction_between_others_is_not_part_of_the_history() {
    assert_eq!(describe(&xfer(A, B), &[3; 20]), None);
}

#[test]
fn an_announcement_is_an_outgoing_fee_for_its_author() {
    let ann = Tx::Announcement { from: A, fee: 5_000 };
    assert_eq!(
        describe(&ann, &A),
        told(HistoryKind::Announcement, Direction::Out, 0, 5_000, None)
    );
    assert_eq!(describe(&ann, &B), None);
}

// A chain where every block up to `tip` pays one coinbase to A: the history of
// A, a page at a time.
fn page(tip: u64, before: Option<Hit>, limit: usize) -> HistoryLookup {
    let (mut h, mut step) = History::start(tip, before, limit);
    loop {
        step = match step {
            Step::List { before, want } => {
                let top = before.map_or(tip + 1, |b| b.height);
                let heights: Vec<u64> = (0..top).rev().take(want).collect();
                let more = heights.last().is_some_and(|l| *l > 0);
                let hits = heights.into_iter().map(|height| Hit { height, index: 0 }).collect();
                h.listed(Listing::Page { indexed_from: 0, hits, more })
            }
            Step::Look(hit) => {
                let credit = if hit.height == 0 { 0 } else { 200_000 };
                let what = describe(&Tx::Coinbase { to: A, credit }, &A).unwrap();
                h.looked(Row::Shown { txid: hash_at(hit.height), time: 0, what })
            }
            Step::Done(l) => return l,
        };
    }
}

#[test]
fn history_lists_every_coinbase_the_miner_earned() {
    let tip = 12;
    let HistoryLookup::Page { entries, next_cursor, indexed_from, .. } = page(tip, None, 200) else {
        panic!("the index is on")
    };
    assert_eq!(entries.len(), tip as usize + 1, "one coinbase per block 0..={tip}");
    assert!(entries.iter().all(|e| e.what.direction == Direction::In));
    assert_eq!(entries.iter().filter(|e| e.what.amount_mile == 200_000).count(), tip as usize);
    assert_eq!(entries[tip as usize].what.amount_mile, 0, "the genesis coinbase carries none");
    assert_eq!(entries[0].confirmations, 1, "the newest entry is the tip itself");
    assert_eq!(next_cursor, None);
    assert_eq!(indexed_from, 0, "indexed from genesis");
    assert!(entries[0].height > entries[1].height, "newest first");

    // Walk it one entry at a time and get the same heights back.
    let mut cursor = None;
    let mut walked = Vec::new();
    for _ in 0..=tip {
        let HistoryLookup::Page { entries, next_cursor, .. } = page(tip, cursor, 1) else {
            panic!("the index is on")
        };
        assert_eq!(entries.len(), 1, "each page holds one entry");
        walked.push(entries[0].height);
        cursor = next_cursor;
        if cursor.is_none() {
            break;
        }
    }
    let want: Vec<u64> = (0..=tip).rev().collect();
    assert_eq!(walked, want, "paging one by one must visit every coinbase once, in order");
}

#[test]
fn a_node_without_the_index_refuses_rather_than_answering_empty() {
    let (mut h, _) = History::start(12, None, 10);
    let s = h.listed(Listing::NotIndexed);
    assert!(matches!(s, Step::Done(HistoryLookup::NotIndexed)), "{s:?}");
}

#[test]
fn a_body_that_is_gone_is_named() {
    let (mut h, _) = History::start(12, None, 1);
    let hits = vec![Hit { height: 9, index: 0 }, Hit { height: 7, index: 3 }];
    let s = h.listed(Listing::Page { indexed_from: 2, hits, more: false });
    assert!(matches!(s, Step::Look(Hit { height: 9, index: 0 })), "{s:?}");
    let s = h.looked(Row::NoBody);
    assert!(matches!(s, Step::Look(Hit { height: 7, index: 3 })), "{s:?}");
    let s = h.looked(Row::Nothing);
    let Step::Done(HistoryLookup::Page { entries, unavailable_below, indexed_from, .. }) = s else {
        panic!("{s:?}")
    };
    assert!(entries.is_empty());
    assert_eq!(indexed_from, 2);
    assert_eq!(unavailable_below, Some(10));
}

#[test]
fn tx_get_answers_for_mined_tx() {
    let txid = [8; 32];
    let (mut s, step) = Search::start(txid, 20);
    assert!(matches!(step, SearchStep::List { before: None }), "{step:?}");
    let hits = vec![Hit { height: 9, index: 0 }, Hit { height: 7, index: 3 }];
    let step = s.listed(Listing::Page { indexed_from: 0, hits, more: false });
    assert!(matches!(step, SearchStep::Look(Hit { height: 9, .. })), "{step:?}");
    let step = s.looked(Held::Other);
    assert!(matches!(step, SearchStep::Look(Hit { height: 7, .. })), "{step:?}");
    let step = s.looked(Held::It { type_byte: 1, raw: vec![1, 2] });
    let SearchStep::Done(Some(TxLookup::Found(r))) = step else { panic!("{step:?}") };
    assert_eq!((r.txid, r.type_byte, r.raw), (txid, 1, vec![1, 2]));
    assert_eq!(r.location, TxLocation::Block { height: 7, confirmations: 14 });
    assert_eq!(TX_SEARCH_MAX_HITS, 10_000);
}

#[test]
fn node_without_index_refuses() {
    let none = TxLookup::NotIndexed { indexed_from: None };
    assert!(matches!(look_up(false, None), Where::Nowhere(ref l) if *l == none));
    let mined = look_up(true, Some(Indexed::Found { height: 7, index: 3 }));
    assert!(matches!(mined, Where::At { height: 7, index: 3 }));
    assert!(matches!(look_up(true, Some(Indexed::Absent)), Where::Nowhere(TxLookup::Absent)));
    let from = TxLookup::NotIndexed { indexed_from: Some(40) };
    let got = look_up(true, Some(Indexed::NotIndexed { indexed_from: 40 }));
    assert!(matches!(got, Where::Nowhere(ref l) if *l == from));
}

#[test]
fn where_a_transaction_was_found() {
    let TxLookup::Found(r) = tx_in_pool([1; 32], 2, vec![9]) else { panic!("found") };
    assert_eq!(r.location, TxLocation::Mempool);
    let TxLookup::Found(r) = tx_in_block([1; 32], 2, vec![9], 5, 5) else { panic!("found") };
    assert_eq!(r.location, TxLocation::Block { height: 5, confirmations: 1 });
    assert_eq!(looked_up([1; 32], 5, InBody::Gone, 9), TxLookup::Pruned { height: 5 });
    assert_eq!(looked_up([1; 32], 5, InBody::Lacking, 9), TxLookup::Absent);
}

#[test]
fn a_block_is_told_as_asked() {
    let tip = TipView { height: 5, hash: [5; 32], time: 0, chainwork: [1; 32] };
    let head = || header_record([7; 132], [5; 32], 5, &Some([5; 32]), &tip);
    let raw = block_record(head(), &[1, 2], &[Some([1; 32]), None], b"n".to_vec(), Verbosity::RawHex);
    assert_eq!(raw.raw.unwrap().len(), 134);
    assert!(raw.txids.is_empty());
    let ids = block_record(head(), &[1, 2], &[Some([1; 32]), None], b"n".to_vec(), Verbosity::Full);
    assert_eq!((ids.tx_count, ids.size_bytes, ids.txids), (2, 134, vec![[1; 32]]));
    assert_eq!(ids.header.chainwork, [1; 32]);
}

#[test]
fn figures_of_an_account() {
    let r = account_record(10, 3, 2, &[5, 6]);
    assert_eq!((r.balance, r.nonce, r.pending_nonce, r.immature), (10, 3, 5, 11));
    assert_eq!(immature_from(250, 100), 151);
    assert_eq!(immature_from(5, 100), 0);
}

#[test]
fn small_figures_of_the_node() {
    assert_eq!(tip_age(100, 90), 10);
    assert_eq!(tip_age(90, 100), 0);
    assert_eq!(emission_audit(11, 10, 1, 2, 3), None, "above the tip nothing is issued");
    let a = emission_audit(10, 10, 1, 2, 3).unwrap();
    assert_eq!((a.issued_mile, a.expected_by_formula_mile, a.subsidy_at_height_mile), (1, 2, 3));
    assert_eq!(resident_set_bytes("100 25 3 4"), Some(25 * 4096));
    assert_eq!(resident_set_bytes("100"), None);
    assert_eq!(cache_hit_pct(0, 0), 0);
    assert_eq!(cache_hit_pct(1, 3), 75);
    let s = session_age(10_000, 4_000, None);
    assert_eq!((s.connected_secs, s.last_share_secs), (6, -1));
    assert_eq!(session_age(10_000, 4_000, Some(9_000)).last_share_secs, 1);
}

#[test]
fn a_sink_keeps_count() {
    let mut s = CommitSink::new();
    s.offered(entry(5, vec![1]));
    s.committed(5, &found(&[b"a"]), 5);
    s.offered(entry(6, vec![2]));
    s.committed(6, &[], 6);
    assert_eq!(s.ring.len(), 1, "what lies below the watermark is left to the store");
    s.abandoned();
    s.reorganised(5, &[(6, found(&[b"b"]))]);
    assert_eq!((s.stats().blocks, s.stats().reorgs), (3, 1));
    assert_eq!(s.notes.page(NotesCursor::Newest, 10, 6).total, 2);
    s.sealed_early();
    assert_eq!(s.stats().forced_seals, 1);
    assert_eq!(work_be(&[1, 0, 0, 2])[7], 2, "the highest limb comes first");
    assert_eq!(work_be(&[1, 0, 0, 2])[31], 1);
    assert_eq!(fork_height(&[7, 6], Some(6)), 5);
    assert_eq!(deep_fork_height(Some(6), 3), 5);
    assert_eq!(deep_fork_height(None, 3), 3);
    assert!(matches!(storage_err(StoreError::BadPlan("x".to_string())), SinkError::Invalid(_)));
    assert!(matches!(storage_err(StoreError::Other), SinkError::Fatal(_)));
}
