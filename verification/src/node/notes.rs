//! The author's announcements in the order in which blocks brought them.

use vstd::prelude::*;
use crate::text::copy_bytes;

verus! {

/// One announcement, as a block body carries it.
#[derive(Clone, Debug, PartialEq, Eq)]
pub struct Announcement {
    pub txid: [u8; 32],
    pub encoding: u8,
    pub payload: Vec<u8>,
}

/// One announcement, with its place in the index.
#[derive(Clone, Debug, PartialEq, Eq)]
pub struct Note {
    pub seq: u64,
    pub height: u64,
    pub txid: [u8; 32],
    pub time: u64,
    pub encoding: u8,
    pub payload: Vec<u8>,
}

/// The mathematical value of an announcement of a block.
#[verifier::ext_equal]
pub struct NoteView {
    pub height: u64,
    pub txid: Seq<u8>,
    pub encoding: u8,
    pub payload: Seq<u8>,
}

/// What a note says, without its place.
pub open spec fn note_view(n: Note) -> NoteView {
    NoteView { height: n.height, txid: n.txid@, encoding: n.encoding, payload: n.payload@ }
}

pub open spec fn said(height: u64, a: Announcement) -> NoteView {
    NoteView { height, txid: a.txid@, encoding: a.encoding, payload: a.payload@ }
}

/// The announcements of one block.
pub open spec fn block_notes(height: u64, found: Seq<Announcement>) -> Seq<NoteView> {
    Seq::new(found.len(), |i: int| said(height, found[i]))
}

/// The notes at or below the height, in order.
pub open spec fn retained(ns: Seq<NoteView>, fork_height: u64) -> Seq<NoteView>
    decreases ns.len(),
{
    if ns.len() == 0 {
        Seq::empty()
    } else {
        let head = retained(ns.drop_last(), fork_height);
        if ns.last().height <= fork_height {
            head.push(ns.last())
        } else {
            head
        }
    }
}

/// The notes of the blocks, in order, behind `ns`.
pub open spec fn applied_notes(ns: Seq<NoteView>, blocks: Seq<(u64, Vec<Announcement>)>) -> Seq<
    NoteView,
>
    decreases blocks.len(),
{
    if blocks.len() == 0 {
        ns
    } else {
        applied_notes(ns, blocks.drop_last()) + block_notes(blocks.last().0, blocks.last().1@)
    }
}

/// From where to list notes, newest first.
#[derive(Clone, Copy, Debug, PartialEq, Eq)]
pub enum NotesCursor {
    Newest,
    AtOrBelowHeight(u64),
    Before(u64),
}

/// Whether a listing from `c` shows the note at `i`.
pub open spec fn shows(ns: Seq<NoteView>, c: NotesCursor, i: int) -> bool {
    match c {
        NotesCursor::Newest => true,
        NotesCursor::AtOrBelowHeight(h) => ns[i].height <= h,
        NotesCursor::Before(s) => i < s,
    }
}

/// The places below `n` that a listing from `c` shows, newest first.
pub open spec fn picks(ns: Seq<NoteView>, c: NotesCursor, n: int) -> Seq<int>
    decreases n,
{
    if n <= 0 {
        Seq::empty()
    } else if shows(ns, c, n - 1) {
        seq![n - 1] + picks(ns, c, n - 1)
    } else {
        picks(ns, c, n - 1)
    }
}

/// One note of a listing.
#[derive(Clone, Debug, PartialEq, Eq)]
pub struct AuthorNote {
    pub seq: u64,
    pub height: u64,
    pub txid: [u8; 32],
    pub time: u64,
    pub confirmations: u64,
    pub encoding: u8,
    pub payload: Vec<u8>,
}

/// A part of a listing, and where the next part begins.
#[derive(Clone, Debug, PartialEq, Eq)]
pub struct AuthorNotesPage {
    pub notes: Vec<AuthorNote>,
    pub more: bool,
    pub total: u64,
    pub next_seq: Option<u64>,
}

/// How many blocks confirm one at `height` under the tip, its own included.
pub open spec fn depth(tip: u64, height: u64) -> int {
    if height <= tip {
        tip - height + 1
    } else {
        1
    }
}

/// Whether the blocks that confirm one at `height` can be counted: all but the
/// first block under the highest tip.
pub open spec fn countable(tip: u64, height: u64) -> bool {
    tip < u64::MAX || height > 0
}

/// How many blocks confirm one at `height` under the tip, its own included.
pub fn confirmations(tip: u64, height: u64) -> (n: u64)
    requires
        countable(tip, height),
    ensures
        n == depth(tip, height),
{
    if height <= tip {
        tip - height + 1
    } else {
        1
    }
}

/// Whether `a` is the note at `i` as a listing shows it.
pub open spec fn is_listed(a: AuthorNote, ns: Seq<NoteView>, i: int, tip: u64) -> bool {
    &&& 0 <= i < ns.len()
    &&& a.seq == i
    &&& a.height == ns[i].height
    &&& a.txid@ == ns[i].txid
    &&& a.time == 0
    &&& a.confirmations == depth(tip, ns[i].height)
    &&& a.encoding == ns[i].encoding
    &&& a.payload@ == ns[i].payload
}

/// Every announcement of the best chain, oldest first.
#[derive(Clone, Debug)]
pub struct NoteIndex {
    pub notes: Vec<Note>,
}

pub open spec fn views(v: Seq<Note>) -> Seq<NoteView> {
    Seq::new(v.len(), |i: int| note_view(v[i]))
}

impl NoteIndex {
    /// Sequence numbers are places: the note at `i` has the number `i`. No
    /// note has a time of its own.
    pub open spec fn wf(self) -> bool {
        forall|i: int|
            0 <= i < self.notes@.len() ==> (#[trigger] self.notes@[i]).seq == i
                && self.notes@[i].time == 0
    }

    /// The notes, oldest first.
    pub open spec fn all(self) -> Seq<NoteView> {
        views(self.notes@)
    }

    /// An index without a note.
    pub fn new() -> (r: NoteIndex)
        ensures
            r.wf(),
            r.all().len() == 0,
    {
        NoteIndex { notes: Vec::new() }
    }

    /// Adds the announcements that the body of a block carries, in their order.
    pub fn on_block(&mut self, height: u64, found: &[Announcement])
        requires
            old(self).wf(),
        ensures
            final(self).wf(),
            final(self).all() == old(self).all() + block_notes(height, found@),
    {
        let ghost before = self.all();
        let ghost add = block_notes(height, found@);
        let mut i: usize = 0;
        assert(before + add.take(0) =~= before);
        while i < found.len()
            invariant
                i <= found.len(),
                self.wf(),
                add == block_notes(height, found@),
                self.all() == before + add.take(i as int),
            decreases found.len() - i,
        {
            let seq: u64 = self.notes.len() as u64;
            let n = Note {
                seq,
                height,
                txid: found[i].txid,
                time: 0,
                encoding: found[i].encoding,
                payload: copy_bytes(&found[i].payload),
            };
            let ghost now = self.all();
            assert(note_view(n) =~= add[i as int]);
            self.notes.push(n);
            assert(self.all() =~= now.push(add[i as int]));
            assert(add.take(i as int + 1) =~= add.take(i as int).push(add[i as int]));
            assert(before + add.take(i as int + 1) =~= (before + add.take(i as int)).push(
                add[i as int],
            ));
            i += 1;
        }
        assert(add.take(i as int) =~= add);
    }

    /// Drops the notes above the height and numbers the others anew.
    pub fn rollback_above(&mut self, fork_height: u64)
        requires
            old(self).wf(),
        ensures
            final(self).wf(),
            final(self).all() == retained(old(self).all(), fork_height),
    {
        let ghost all = self.all();
        let mut rest: Vec<Note> = Vec::new();
        std::mem::swap(&mut rest, &mut self.notes);
        let mut keep: Vec<Note> = Vec::new();
        let mut i: usize = 0;
        assert(all.take(0) =~= Seq::<NoteView>::empty());
        assert(views(keep@) =~= Seq::<NoteView>::empty());
        while i < rest.len()
            invariant
                i <= rest.len(),
                all == views(rest@),
                forall|k: int| 0 <= k < rest@.len() ==> (#[trigger] rest@[k]).time == 0,
                views(keep@) == retained(all.take(i as int), fork_height),
                forall|k: int|
                    0 <= k < keep@.len() ==> (#[trigger] keep@[k]).seq == k && keep@[k].time == 0,
            decreases rest.len() - i,
        {
            assert(all.take(i as int + 1).drop_last() =~= all.take(i as int));
            assert(all.take(i as int + 1).last() == note_view(rest@[i as int]));
            if rest[i].height <= fork_height {
                let ghost now = views(keep@);
                let n = Note {
                    seq: keep.len() as u64,
                    height: rest[i].height,
                    txid: rest[i].txid,
                    time: rest[i].time,
                    encoding: rest[i].encoding,
                    payload: copy_bytes(&rest[i].payload),
                };
                assert(note_view(n) =~= note_view(rest@[i as int]));
                keep.push(n);
                assert(views(keep@) =~= now.push(note_view(n)));
            }
            i += 1;
        }
        assert(all.take(i as int) =~= all);
        self.notes = keep;
    }

    /// A reorganisation onto the height: the notes of the blocks above it go,
    /// and then those of the applied blocks come.
    pub fn on_reorg(&mut self, fork_height: u64, applied: &[(u64, Vec<Announcement>)])
        requires
            old(self).wf(),
        ensures
            final(self).wf(),
            final(self).all() == applied_notes(
                retained(old(self).all(), fork_height),
                applied@,
            ),
    {
        let ghost base = retained(self.all(), fork_height);
        self.rollback_above(fork_height);
        let mut i: usize = 0;
        assert(applied@.take(0) =~= Seq::<(u64, Vec<Announcement>)>::empty());
        while i < applied.len()
            invariant
                i <= applied.len(),
                self.wf(),
                self.all() == applied_notes(base, applied@.take(i as int)),
            decreases applied.len() - i,
        {
            assert(applied@.take(i as int + 1).drop_last() =~= applied@.take(i as int));
            self.on_block(applied[i].0, applied[i].1.as_slice());
            i += 1;
        }
        assert(applied@.take(i as int) =~= applied@);
    }

    fn list_note(&self, i: usize, tip: u64) -> (a: AuthorNote)
        requires
            self.wf(),
            i < self.notes@.len(),
            countable(tip, self.all()[i as int].height),
        ensures
            is_listed(a, self.all(), i as int, tip),
    {
        let n = &self.notes[i];
        AuthorNote {
            seq: n.seq,
            height: n.height,
            txid: n.txid,
            time: n.time,
            confirmations: confirmations(tip, n.height),
            encoding: n.encoding,
            payload: copy_bytes(&n.payload),
        }
    }

    fn shown(&self, cursor: NotesCursor, i: usize) -> (r: bool)
        requires
            self.wf(),
            i < self.notes@.len(),
        ensures
            r == shows(self.all(), cursor, i as int),
    {
        match cursor {
            NotesCursor::Newest => true,
            NotesCursor::AtOrBelowHeight(h) => self.notes[i].height <= h,
            NotesCursor::Before(s) => self.notes[i].seq < s,
        }
    }
}

/// Whether `p` is the part of the listing from `c` that begins it: its first
/// `limit` notes.
pub open spec fn is_page(
    p: AuthorNotesPage,
    ns: Seq<NoteView>,
    c: NotesCursor,
    limit: nat,
    tip: u64,
) -> bool {
    let whole = picks(ns, c, ns.len() as int);
    let n = p.notes@.len();
    &&& n == (if whole.len() <= limit {
        whole.len()
    } else {
        limit
    })
    &&& forall|k: int| 0 <= k < n ==> is_listed(#[trigger] p.notes@[k], ns, whole[k], tip)
    &&& p.more == (whole.len() > limit)
    &&& p.total == ns.len()
    &&& p.next_seq == (if p.more && n > 0 {
        Some(whole[n - 1] as u64)
    } else {
        None
    })
}

/// Whether the confirmations of the first `limit` notes of the listing from `c`
/// can be counted.
pub open spec fn all_countable(ns: Seq<NoteView>, c: NotesCursor, limit: nat, tip: u64) -> bool {
    let whole = picks(ns, c, ns.len() as int);
    forall|k: int|
        0 <= k < whole.len() && k < limit ==> countable(tip, ns[#[trigger] whole[k]].height)
}

impl NoteIndex {
    /// The first `limit` notes of the listing from `cursor`, newest first.
    pub fn page(&self, cursor: NotesCursor, limit: usize, tip: u64) -> (p: AuthorNotesPage)
        requires
            self.wf(),
            all_countable(self.all(), cursor, limit as nat, tip),
        ensures
            is_page(p, self.all(), cursor, limit as nat, tip),
    {
        let ghost ns = self.all();
        let ghost whole = picks(ns, cursor, ns.len() as int);
        let mut notes: Vec<AuthorNote> = Vec::new();
        let mut more: bool = false;
        let mut n: usize = self.notes.len();
        let ghost mut done: Seq<int> = Seq::empty();
        assert(done + whole =~= whole);
        while n > 0 && !more
            invariant
                n <= self.notes.len(),
                self.wf(),
                all_countable(ns, cursor, limit as nat, tip),
                ns == self.all(),
                whole == picks(ns, cursor, ns.len() as int),
                whole == done + picks(ns, cursor, n as int),
                more ==> whole.len() > limit && notes@.len() == limit,
                !more ==> done.len() == notes@.len(),
                notes@.len() <= limit,
                notes@.len() <= whole.len(),
                forall|k: int|
                    0 <= k < notes@.len() ==> is_listed(#[trigger] notes@[k], ns, whole[k], tip),
            decreases n,
        {
            n -= 1;
            if self.shown(cursor, n) {
                let ghost rest = picks(ns, cursor, n as int);
                assert(whole =~= done.push(n as int) + rest);
                if notes.len() < limit {
                    assert(whole[done.len() as int] == n as int);
                    let a = self.list_note(n, tip);
                    notes.push(a);
                } else {
                    more = true;
                }
                proof {
                    done = done.push(n as int);
                }
            }
        }
        let k: usize = notes.len();
        let next_seq: Option<u64> = if more && k > 0 {
            assert(is_listed(notes@[k - 1], ns, whole[k - 1], tip));
            Some(notes[k - 1].seq)
        } else {
            None
        };
        AuthorNotesPage { notes, more, total: self.notes.len() as u64, next_seq }
    }
}

proof fn lemma_picks_newest(ns: Seq<NoteView>, n: int)
    requires
        0 <= n,
    ensures
        picks(ns, NotesCursor::Newest, n).len() == n,
        forall|k: int| 0 <= k < n ==> #[trigger] picks(ns, NotesCursor::Newest, n)[k] == n - 1 - k,
    decreases n,
{
    if n > 0 {
        lemma_picks_newest(ns, n - 1);
    }
}

proof fn lemma_picks_before(ns: Seq<NoteView>, s: u64, n: int)
    requires
        0 <= n,
    ensures
        picks(ns, NotesCursor::Before(s), n) == picks(
            ns,
            NotesCursor::Newest,
            if n <= s {
                n
            } else {
                s as int
            },
        ),
    decreases n,
{
    if n > 0 {
        lemma_picks_before(ns, s, n - 1);
    }
}

/// The places that a listing from the newest note, or from before a place, shows:
/// all below where it begins.
pub open spec fn begins(ns: Seq<NoteView>, c: NotesCursor) -> int {
    match c {
        NotesCursor::Before(s) => if s < ns.len() {
            s as int
        } else {
            ns.len() as int
        },
        _ => ns.len() as int,
    }
}

proof fn lemma_picks_below(ns: Seq<NoteView>, c: NotesCursor)
    requires
        !(c is AtOrBelowHeight),
    ensures
        picks(ns, c, ns.len() as int).len() == begins(ns, c),
        forall|k: int|
            0 <= k < begins(ns, c) ==> #[trigger] picks(ns, c, ns.len() as int)[k] == begins(ns, c)
                - 1 - k,
{
    match c {
        NotesCursor::Before(s) => {
            lemma_picks_before(ns, s, ns.len() as int);
        },
        _ => {},
    }
    lemma_picks_newest(ns, begins(ns, c));
}

/// Whether the pages are those that are read one behind another: the first from
/// `c`, and where a page says that there is more, the next from before its
/// `next_seq`, up to one that says that there is no more.
pub open spec fn is_walk(
    ps: Seq<AuthorNotesPage>,
    ns: Seq<NoteView>,
    c: NotesCursor,
    limit: nat,
    tip: u64,
) -> bool
    decreases ps.len(),
{
    &&& ps.len() > 0
    &&& is_page(ps[0], ns, c, limit, tip)
    &&& if ps[0].more {
        ps[0].next_seq matches Some(s) && is_walk(
            ps.drop_first(),
            ns,
            NotesCursor::Before(s),
            limit,
            tip,
        )
    } else {
        ps.len() == 1
    }
}

/// The notes of the pages, one page behind another.
pub open spec fn seen(ps: Seq<AuthorNotesPage>) -> Seq<AuthorNote>
    decreases ps.len(),
{
    if ps.len() == 0 {
        Seq::empty()
    } else {
        ps[0].notes@ + seen(ps.drop_first())
    }
}

/// Pages that are read one behind another, from the newest note or from before a
/// place, show every note below where they begin exactly once, newest first.
pub proof fn law_pages_show_every_note_once(
    ps: Seq<AuthorNotesPage>,
    ns: Seq<NoteView>,
    c: NotesCursor,
    limit: nat,
    tip: u64,
)
    requires
        limit >= 1,
        ns.len() <= u64::MAX,
        !(c is AtOrBelowHeight),
        is_walk(ps, ns, c, limit, tip),
    ensures
        seen(ps).len() == begins(ns, c),
        forall|k: int|
            0 <= k < seen(ps).len() ==> is_listed(
                #[trigger] seen(ps)[k],
                ns,
                begins(ns, c) - 1 - k,
                tip,
            ),
    decreases ps.len(),
{
    let p = ps[0];
    let n = p.notes@.len() as int;
    let b = begins(ns, c);
    let whole = picks(ns, c, ns.len() as int);
    lemma_picks_below(ns, c);
    assert forall|k: int| 0 <= k < n implies is_listed(#[trigger] p.notes@[k], ns, b - 1 - k, tip) by {
        assert(whole[k] == b - 1 - k);
    }
    if p.more {
        let s = p.next_seq->Some_0;
        let rest = ps.drop_first();
        assert(whole[n - 1] == b - n);
        law_pages_show_every_note_once(rest, ns, NotesCursor::Before(s), limit, tip);
        assert(begins(ns, NotesCursor::Before(s)) == b - n);
        let all = seen(ps);
        assert forall|k: int| 0 <= k < all.len() implies is_listed(
            #[trigger] all[k],
            ns,
            b - 1 - k,
            tip,
        ) by {
            if k < n {
                assert(all[k] == p.notes@[k]);
            } else {
                assert(all[k] == seen(rest)[k - n]);
            }
        }
    } else {
        assert(seen(ps.drop_first()) =~= Seq::<AuthorNote>::empty());
        assert(seen(ps) =~= p.notes@);
    }
}

/// Every page of such a walk holds at most `limit` notes, counts all the notes
/// there are, and says where the next one begins exactly where there is more.
pub proof fn law_every_page_is_bounded(
    ps: Seq<AuthorNotesPage>,
    ns: Seq<NoteView>,
    c: NotesCursor,
    limit: nat,
    tip: u64,
    i: int,
)
    requires
        limit >= 1,
        is_walk(ps, ns, c, limit, tip),
        0 <= i < ps.len(),
    ensures
        ps[i].notes@.len() <= limit,
        ps[i].total == ns.len(),
        ps[i].next_seq is Some <==> ps[i].more,
        ps[i].more <==> i < ps.len() - 1,
    decreases ps.len(),
{
    reveal_with_fuel(is_walk, 2);
    if i > 0 {
        law_every_page_is_bounded(
            ps.drop_first(),
            ns,
            NotesCursor::Before(ps[0].next_seq->Some_0),
            limit,
            tip,
            i - 1,
        );
    }
}

/// After a reorganisation every note above the fork is one of an applied
/// block, and no note at or below it is lost.
pub proof fn law_a_reorg_keeps_what_it_applies(
    ns: Seq<NoteView>,
    fork_height: u64,
    blocks: Seq<(u64, Vec<Announcement>)>,
)
    ensures
        applied_notes(retained(ns, fork_height), blocks).take(
            retained(ns, fork_height).len() as int,
        ) == retained(ns, fork_height),
        applied_notes(retained(ns, fork_height), blocks) == retained(ns, fork_height)
            + applied_notes(Seq::empty(), blocks),
{
    let base = retained(ns, fork_height);
    lemma_applied_behind(base, blocks);
    assert(applied_notes(base, blocks).take(base.len() as int) =~= base);
}

proof fn lemma_applied_behind(base: Seq<NoteView>, blocks: Seq<(u64, Vec<Announcement>)>)
    ensures
        applied_notes(base, blocks) == base + applied_notes(Seq::empty(), blocks),
    decreases blocks.len(),
{
    if blocks.len() == 0 {
        assert(base + Seq::<NoteView>::empty() =~= base);
    } else {
        lemma_applied_behind(base, blocks.drop_last());
        let a = applied_notes(Seq::empty(), blocks.drop_last());
        let b = block_notes(blocks.last().0, blocks.last().1@);
        assert((base + a) + b =~= base + (a + b));
    }
}

/// No note above the fork survives a rollback to it.
pub proof fn law_rollback_leaves_nothing_above(ns: Seq<NoteView>, fork_height: u64, i: int)
    requires
        0 <= i < retained(ns, fork_height).len(),
    ensures
        retained(ns, fork_height)[i].height <= fork_height,
        ns.contains(retained(ns, fork_height)[i]),
    decreases ns.len(),
{
    let head = retained(ns.drop_last(), fork_height);
    if i < head.len() {
        law_rollback_leaves_nothing_above(ns.drop_last(), fork_height, i);
        let k = choose|k: int| 0 <= k < ns.drop_last().len() && ns.drop_last()[k] == head[i];
        assert(ns[k] == head[i]);
    } else {
        assert(ns[ns.len() - 1] == ns.last());
    }
}

// ---------------------------------------------------------------------------
// What the index keeps

/// A block adds its announcements behind the notes that are there, in their
/// order, each at its height, and changes no note before them.
pub proof fn law_a_block_adds_its_announcements(
    x: &mut NoteIndex,
    height: u64,
    found: &[Announcement],
    k: int,
)
    requires
        old(x).wf(),
        call_ensures(NoteIndex::on_block, (x, height, found), ()),
    ensures
        final(x).notes@.len() == old(x).notes@.len() + found@.len(),
        0 <= k < old(x).notes@.len() ==> note_view(final(x).notes@[k]) == note_view(
            old(x).notes@[k],
        ),
        0 <= k < final(x).notes@.len() ==> final(x).notes@[k].seq == k,
        0 <= k < found@.len() ==> ({
            let n = final(x).notes@[old(x).notes@.len() + k];
            &&& n.height == height
            &&& n.txid@ == found@[k].txid@
            &&& n.encoding == found@[k].encoding
            &&& n.payload@ == found@[k].payload@
        }),
{
    let a = old(x).all();
    let b = block_notes(height, found@);
    assert(final(x).all() == a + b);
    assert(final(x).all().len() == final(x).notes@.len());
    if 0 <= k < a.len() {
        assert(final(x).all()[k] == a[k]);
    }
    if 0 <= k < found@.len() {
        assert(final(x).all()[a.len() + k] == b[k]);
    }
}

/// A rollback keeps a note exactly where it is not above the fork, and keeps the
/// order of those it keeps.
pub proof fn law_rollback_keeps_what_is_not_above(ns: Seq<NoteView>, n: NoteView, fork_height: u64)
    ensures
        retained(Seq::empty(), fork_height).len() == 0,
        n.height <= fork_height ==> retained(ns.push(n), fork_height) == retained(
            ns,
            fork_height,
        ).push(n),
        n.height > fork_height ==> retained(ns.push(n), fork_height) == retained(ns, fork_height),
{
    assert(ns.push(n).drop_last() =~= ns);
}

/// The blocks of a reorganisation add their announcements one block behind
/// another.
pub proof fn law_applied_blocks_add_their_announcements(
    ns: Seq<NoteView>,
    blocks: Seq<(u64, Vec<Announcement>)>,
    b: (u64, Vec<Announcement>),
    k: int,
)
    ensures
        applied_notes(ns, Seq::empty()) == ns,
        applied_notes(ns, blocks.push(b)).len() == applied_notes(ns, blocks).len() + b.1@.len(),
        applied_notes(ns, blocks.push(b)).take(applied_notes(ns, blocks).len() as int)
            == applied_notes(ns, blocks),
        0 <= k < b.1@.len() ==> ({
            let n = applied_notes(ns, blocks.push(b))[applied_notes(ns, blocks).len() + k];
            &&& n.height == b.0
            &&& n.txid == b.1@[k].txid@
            &&& n.encoding == b.1@[k].encoding
            &&& n.payload == b.1@[k].payload@
        }),
{
    assert(blocks.push(b).drop_last() =~= blocks);
    assert(applied_notes(ns, blocks.push(b)).take(applied_notes(ns, blocks).len() as int)
        =~= applied_notes(ns, blocks));
}

proof fn lemma_picks(ns: Seq<NoteView>, c: NotesCursor, n: int)
    requires
        0 <= n <= ns.len(),
    ensures
        forall|k: int|
            0 <= k < picks(ns, c, n).len() ==> 0 <= #[trigger] picks(ns, c, n)[k] < n && shows(
                ns,
                c,
                picks(ns, c, n)[k],
            ),
        forall|k: int, j: int|
            0 <= k < j < picks(ns, c, n).len() ==> #[trigger] picks(ns, c, n)[k]
                > #[trigger] picks(ns, c, n)[j],
    decreases n,
{
    if n > 0 {
        lemma_picks(ns, c, n - 1);
        let p = picks(ns, c, n);
        let q = picks(ns, c, n - 1);
        if shows(ns, c, n - 1) {
            assert(p == seq![n - 1] + q);
            assert forall|k: int| 0 <= k < p.len() implies 0 <= #[trigger] p[k] < n && shows(
                ns,
                c,
                p[k],
            ) by {
                if k > 0 {
                    assert(p[k] == q[k - 1]);
                }
            }
            assert forall|k: int, j: int| 0 <= k < j < p.len() implies #[trigger] p[k]
                > #[trigger] p[j] by {
                assert(p[j] == q[j - 1]);
                if k > 0 {
                    assert(p[k] == q[k - 1]);
                }
            }
        }
    }
}

proof fn lemma_picked(ns: Seq<NoteView>, c: NotesCursor, n: int, i: int) -> (k: int)
    requires
        0 <= i < n <= ns.len(),
        shows(ns, c, i),
    ensures
        0 <= k < picks(ns, c, n).len(),
        picks(ns, c, n)[k] == i,
    decreases n,
{
    if i == n - 1 {
        0
    } else {
        let k = lemma_picked(ns, c, n - 1, i);
        if shows(ns, c, n - 1) {
            assert(picks(ns, c, n) == seq![n - 1] + picks(ns, c, n - 1));
            k + 1
        } else {
            k
        }
    }
}

/// A page shows notes of the index as they are, the newest first, and none that
/// its cursor leaves out; how deep each lies is counted from the tip.
pub proof fn law_a_page_shows_notes_newest_first(
    x: &NoteIndex,
    c: NotesCursor,
    limit: usize,
    tip: u64,
    p: AuthorNotesPage,
    k: int,
    j: int,
)
    requires
        x.wf(),
        call_ensures(NoteIndex::page, (x, c, limit, tip), p),
        0 <= k < p.notes@.len(),
    ensures
        p.notes@.len() <= limit,
        p.total == x.notes@.len(),
        k < j < p.notes@.len() ==> p.notes@[k].seq > p.notes@[j].seq,
        p.notes@[k].seq < x.notes@.len(),
        ({
            let a = p.notes@[k];
            let n = x.notes@[a.seq as int];
            &&& a.height == n.height && a.txid@ == n.txid@ && a.encoding == n.encoding
                && a.payload@ == n.payload@ && a.time == 0
            &&& c matches NotesCursor::AtOrBelowHeight(h) ==> a.height <= h
            &&& c matches NotesCursor::Before(s) ==> a.seq < s
            &&& a.height <= tip ==> a.confirmations == tip - a.height + 1
            &&& a.height > tip ==> a.confirmations == 1
        }),
{
    let ns = x.all();
    let whole = picks(ns, c, ns.len() as int);
    lemma_picks(ns, c, ns.len() as int);
    assert(is_listed(p.notes@[k], ns, whole[k], tip));
    if k < j < p.notes@.len() {
        assert(is_listed(p.notes@[j], ns, whole[j], tip));
        assert(whole[k] > whole[j]);
    }
    assert(note_view(x.notes@[whole[k]]) == ns[whole[k]]);
}

/// A page leaves out no note that its cursor admits but for want of room: then it
/// is full, says so, and shows only newer ones; the next page begins below the
/// last one shown.
pub proof fn law_a_page_leaves_out_only_older_notes(
    x: &NoteIndex,
    c: NotesCursor,
    limit: usize,
    tip: u64,
    p: AuthorNotesPage,
    i: int,
)
    requires
        x.wf(),
        call_ensures(NoteIndex::page, (x, c, limit, tip), p),
        0 <= i < x.notes@.len(),
        match c {
            NotesCursor::Newest => true,
            NotesCursor::AtOrBelowHeight(h) => x.notes@[i].height <= h,
            NotesCursor::Before(s) => i < s,
        },
    ensures
        (exists|k: int| 0 <= k < p.notes@.len() && (#[trigger] p.notes@[k]).seq == i) || (p.more
            && p.notes@.len() == limit && forall|k: int|
            0 <= k < p.notes@.len() ==> (#[trigger] p.notes@[k]).seq > i),
        p.more && p.notes@.len() > 0 ==> p.next_seq == Some(p.notes@.last().seq),
        !p.more ==> p.next_seq is None,
{
    let ns = x.all();
    let n = ns.len() as int;
    let whole = picks(ns, c, n);
    lemma_picks(ns, c, n);
    assert(ns[i] == note_view(x.notes@[i]));
    let k = lemma_picked(ns, c, n, i);
    if k < p.notes@.len() {
        assert(is_listed(p.notes@[k], ns, whole[k], tip));
    } else {
        assert forall|m: int| 0 <= m < p.notes@.len() implies (#[trigger] p.notes@[m]).seq > i by {
            assert(is_listed(p.notes@[m], ns, whole[m], tip));
            assert(whole[m] > whole[k]);
        }
    }
    if p.notes@.len() > 0 {
        assert(is_listed(p.notes@[p.notes@.len() - 1], ns, whole[p.notes@.len() - 1], tip));
    }
}

} // verus!
