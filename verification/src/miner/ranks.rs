//! Sorted lists without repeats.

use vstd::prelude::*;

verus! {

/// `x` put in its place in a sorted list, unless it is there already.
pub open spec fn place(v: Seq<u64>, x: u64) -> Seq<u64>
    decreases v.len(),
{
    if v.len() == 0 {
        seq![x]
    } else if x < v[0] {
        seq![x] + v
    } else if x == v[0] {
        v
    } else {
        seq![v[0]] + place(v.skip(1), x)
    }
}

/// The values of `s`, each once, in increasing order.
pub open spec fn ranks(s: Seq<u64>) -> Seq<u64>
    decreases s.len(),
{
    if s.len() == 0 {
        Seq::empty()
    } else {
        place(ranks(s.drop_last()), s.last())
    }
}

/// Whether a list increases.
pub open spec fn increasing(v: Seq<u64>) -> bool {
    forall|i: int, j: int| 0 <= i < j < v.len() ==> v[i] < v[j]
}

proof fn lemma_place(v: Seq<u64>, x: u64)
    requires
        increasing(v),
    ensures
        increasing(place(v, x)),
        forall|y: u64| #[trigger] place(v, x).contains(y) <==> v.contains(y) || y == x,
        place(v, x).len() > 0,
        place(v, x)[0] == (if v.len() == 0 || x < v[0] {
            x
        } else {
            v[0]
        }),
    decreases v.len(),
{
    let p = place(v, x);
    if v.len() == 0 {
        assert(p[0] == x);
    } else if x < v[0] {
        assert(p[0] == x);
        assert forall|y: u64| p.contains(y) <==> v.contains(y) || y == x by {
            if v.contains(y) {
                let i = choose|i: int| 0 <= i < v.len() && v[i] == y;
                assert(p[i + 1] == y);
            }
            if p.contains(y) {
                let i = choose|i: int| 0 <= i < p.len() && p[i] == y;
                if i > 0 {
                    assert(v[i - 1] == y);
                }
            }
        }
    } else if x == v[0] {
        assert(v[0] == x);
    } else {
        let t = v.skip(1);
        let q = place(t, x);
        assert(increasing(t));
        lemma_place(t, x);
        assert(p[0] == v[0]);
        assert(t.len() > 0 ==> t[0] == v[1]);
        assert(v[0] < q[0]);
        assert forall|i: int, j: int| 0 <= i < j < p.len() implies p[i] < p[j] by {
            assert(p[j] == q[j - 1]);
            if i > 0 {
                assert(p[i] == q[i - 1]);
            } else if j > 1 {
                assert(q[0] < q[j - 1]);
            }
        }
        assert forall|y: u64| p.contains(y) <==> v.contains(y) || y == x by {
            if p.contains(y) {
                let i = choose|i: int| 0 <= i < p.len() && p[i] == y;
                if i > 0 {
                    assert(q[i - 1] == y);
                    assert(q.contains(y));
                    if t.contains(y) {
                        let j = choose|j: int| 0 <= j < t.len() && t[j] == y;
                        assert(v[j + 1] == y);
                    }
                }
            }
            if v.contains(y) {
                let i = choose|i: int| 0 <= i < v.len() && v[i] == y;
                if i > 0 {
                    assert(t[i - 1] == y);
                    assert(q.contains(y));
                    let j = choose|j: int| 0 <= j < q.len() && q[j] == y;
                    assert(p[j + 1] == y);
                } else {
                    assert(p[0] == y);
                }
            }
            if y == x {
                assert(q.contains(x));
                let j = choose|j: int| 0 <= j < q.len() && q[j] == x;
                assert(p[j + 1] == x);
            }
        }
    }
}

/// `ranks` increases and holds exactly the values it was made of.
pub proof fn lemma_ranks(s: Seq<u64>)
    ensures
        increasing(ranks(s)),
        forall|y: u64| #[trigger] ranks(s).contains(y) <==> s.contains(y),
        s.len() > 0 ==> ranks(s).len() > 0,
        ranks(s).len() <= s.len(),
    decreases s.len(),
{
    if s.len() > 0 {
        let t = s.drop_last();
        lemma_ranks(t);
        lemma_place(ranks(t), s.last());
        lemma_place_len(ranks(t), s.last());
        assert forall|y: u64| #[trigger] ranks(s).contains(y) <==> s.contains(y) by {
            if s.contains(y) {
                let i = choose|i: int| 0 <= i < s.len() && s[i] == y;
                if i < t.len() {
                    assert(t[i] == y);
                }
            }
            if t.contains(y) {
                let i = choose|i: int| 0 <= i < t.len() && t[i] == y;
                assert(s[i] == y);
            }
            assert(s[s.len() - 1] == s.last());
        }
    }
}

proof fn lemma_place_len(v: Seq<u64>, x: u64)
    ensures
        place(v, x).len() <= v.len() + 1,
    decreases v.len(),
{
    if v.len() > 0 && x > v[0] {
        lemma_place_len(v.skip(1), x);
    }
}

pub(crate) proof fn lemma_place_at(v: Seq<u64>, x: u64, i: int)
    requires
        0 <= i <= v.len(),
        forall|k: int| 0 <= k < i ==> v[k] < x,
        i < v.len() ==> v[i] >= x,
    ensures
        place(v, x) == (if i < v.len() && v[i] == x {
            v
        } else {
            v.insert(i, x)
        }),
    decreases v.len(),
{
    if v.len() == 0 || i == 0 {
        assert(v.insert(0, x) =~= seq![x] + v);
        if v.len() == 0 {
            assert(seq![x] + v =~= seq![x]);
        }
    } else {
        lemma_place_at(v.skip(1), x, i - 1);
        assert(v[0] < x);
        let t = v.skip(1);
        if i < v.len() && v[i] == x {
            assert(seq![v[0]] + t =~= v);
        } else {
            assert(seq![v[0]] + t.insert(i - 1, x) =~= v.insert(i, x));
        }
    }
}

/// Puts `x` in its place.
pub fn put(v: &mut Vec<u64>, x: u64)
    ensures
        final(v)@ == place(old(v)@, x),
{
    let mut i: usize = 0;
    while i < v.len() && v[i] < x
        invariant
            i <= v.len(),
            v@ == old(v)@,
            forall|k: int| 0 <= k < i ==> v@[k] < x,
        decreases v.len() - i,
    {
        i += 1;
    }
    proof {
        lemma_place_at(v@, x, i as int);
    }
    if i < v.len() && v[i] == x {
        return;
    }
    v.insert(i, x);
}

/// The values of `s`, each once, in increasing order.
pub fn sort_dedup(s: &[u64]) -> (r: Vec<u64>)
    ensures
        r@ == ranks(s@),
{
    let mut r: Vec<u64> = Vec::new();
    let mut i: usize = 0;
    assert(s@.take(0) =~= Seq::<u64>::empty());
    while i < s.len()
        invariant
            i <= s.len(),
            r@ == ranks(s@.take(i as int)),
        decreases s.len() - i,
    {
        assert(s@.take(i + 1).drop_last() =~= s@.take(i as int));
        put(&mut r, s[i]);
        i += 1;
    }
    assert(s@.take(i as int) =~= s@);
    r
}

/// Numbers that all differ have as many ranks as there are of them.
pub proof fn lemma_ranks_of_distinct(s: Seq<u64>)
    requires
        s.no_duplicates(),
    ensures
        ranks(s).len() == s.len(),
    decreases s.len(),
{
    if s.len() > 0 {
        let t = s.drop_last();
        lemma_ranks_of_distinct(t);
        lemma_ranks(t);
        if ranks(t).contains(s.last()) {
            let i = choose|i: int| 0 <= i < t.len() && t[i] == s.last();
            assert(s[i] == s[s.len() - 1]);
        }
        lemma_place_new(ranks(t), s.last());
    }
}

pub(crate) proof fn lemma_place_new(v: Seq<u64>, x: u64)
    requires
        !v.contains(x),
    ensures
        place(v, x).len() == v.len() + 1,
    decreases v.len(),
{
    if v.len() > 0 {
        assert(v.contains(v[0]));
        if x > v[0] {
            assert forall|y: u64| v.skip(1).contains(y) implies v.contains(y) by {
                let i = choose|i: int| 0 <= i < v.skip(1).len() && v.skip(1)[i] == y;
                assert(v[i + 1] == y);
            }
            lemma_place_new(v.skip(1), x);
        }
    }
}

/// Numbers that all occur among others have no more ranks than those.
pub proof fn lemma_ranks_within(s: Seq<u64>, t: Seq<u64>)
    requires
        forall|i: int| 0 <= i < s.len() ==> t.contains(#[trigger] s[i]),
    ensures
        ranks(s).len() <= ranks(t).len(),
{
    let a = ranks(s);
    let b = ranks(t);
    lemma_ranks(s);
    lemma_ranks(t);
    a.unique_seq_to_set();
    b.unique_seq_to_set();
    assert(a.to_set().subset_of(b.to_set())) by {
        assert forall|x: u64| a.to_set().contains(x) implies b.to_set().contains(x) by {
            assert(a.contains(x));
            assert(s.contains(x));
            let i = choose|i: int| 0 <= i < s.len() && s[i] == x;
            assert(t.contains(s[i]));
            assert(b.contains(x));
        }
    }
    vstd::set_lib::lemma_len_subset(a.to_set(), b.to_set());
}

} // verus!
