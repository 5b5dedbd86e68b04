//! Which known name a mistyped one was meant to be.

use vstd::prelude::*;
use crate::text::same;

verus! {

/// How far apart two names are: the edits that turn `name` into `known`.
#[derive(Clone, Debug, PartialEq, Eq)]
pub struct Apart {
    pub name: String,
    pub known: String,
    pub edits: usize,
}

/// The first index at or behind `i` of a fact about the two names, or the
/// number of facts.
pub open spec fn apart_at(facts: Seq<Apart>, name: Seq<char>, known: Seq<char>, i: int) -> int
    decreases facts.len() - i,
{
    if i < 0 || i >= facts.len() {
        facts.len() as int
    } else if facts[i].name@ == name && facts[i].known@ == known {
        i
    } else {
        apart_at(facts, name, known, i + 1)
    }
}

/// How far apart the two names are. Names that nothing is known of are as far
/// as names can be.
pub open spec fn distance(facts: Seq<Apart>, name: Seq<char>, known: Seq<char>) -> usize {
    let i = apart_at(facts, name, known, 0);
    if 0 <= i < facts.len() {
        facts[i].edits
    } else {
        usize::MAX
    }
}

/// How far apart the two names are.
pub fn edit_distance(facts: &[Apart], name: &str, known: &str) -> (d: usize)
    ensures
        d == distance(facts@, name@, known@),
{
    let mut i: usize = 0;
    while i < facts.len()
        invariant
            i <= facts@.len(),
            apart_at(facts@, name@, known@, 0) == apart_at(facts@, name@, known@, i as int),
        decreases facts@.len() - i,
    {
        if same(facts[i].name.as_str(), name) && same(facts[i].known.as_str(), known) {
            return facts[i].edits;
        }
        i += 1;
    }
    usize::MAX
}

/// The index of the name in `names` that is nearest to `name`: the first of
/// them, where several are as near.
pub open spec fn nearest(facts: Seq<Apart>, name: Seq<char>, names: Seq<Seq<char>>) -> int
    decreases names.len(),
{
    if names.len() <= 1 {
        0
    } else {
        let best = nearest(facts, name, names.drop_last());
        if distance(facts, name, names.last()) < distance(facts, name, names[best]) {
            names.len() - 1
        } else {
            best
        }
    }
}

pub open spec fn name_views(v: Seq<&'static str>) -> Seq<Seq<char>> {
    Seq::new(v.len(), |k: int| v[k]@)
}

/// Where the nearest name stands, and how far it is.
fn find_nearest(facts: &[Apart], name: &str, names: &[&'static str]) -> (r: (usize, usize))
    requires
        names@.len() > 0,
    ensures
        r.0 < names@.len(),
        r.0 == nearest(facts@, name@, name_views(names@)),
        r.1 == distance(facts@, name@, names@[r.0 as int]@),
{
    let ghost all = name_views(names@);
    let mut best: usize = 0;
    let mut d: usize = edit_distance(facts, name, names[0]);
    let mut i: usize = 1;
    while i < names.len()
        invariant
            1 <= i <= names@.len(),
            best < i,
            all == name_views(names@),
            best == nearest(facts@, name@, all.take(i as int)),
            d == distance(facts@, name@, names@[best as int]@),
        decreases names@.len() - i,
    {
        let e: usize = edit_distance(facts, name, names[i]);
        assert(all.take(i as int + 1).drop_last() =~= all.take(i as int));
        assert(all.take(i as int + 1).last() == names@[i as int]@);
        assert(all.take(i as int + 1)[best as int] == names@[best as int]@);
        if e < d {
            best = i;
            d = e;
        }
        i += 1;
    }
    assert(all.take(i as int) =~= all);
    (best, d)
}

/// How far a name may be from a known one and still be taken for it.
pub const NEAR: usize = 3;

/// The known name that `name` was meant to be: the nearest one, if it is near.
pub open spec fn meant(facts: Seq<Apart>, name: Seq<char>, names: Seq<Seq<char>>) -> Option<
    Seq<char>,
> {
    let i = nearest(facts, name, names);
    if names.len() > 0 && distance(facts, name, names[i]) <= NEAR {
        Some(names[i])
    } else {
        None
    }
}

/// The known name that `name` was meant to be.
pub fn find_meant(facts: &[Apart], name: &str, names: &[&'static str]) -> (r: Option<&'static str>)
    ensures
        r is Some <==> meant(facts@, name@, name_views(names@)) is Some,
        r matches Some(t) ==> meant(facts@, name@, name_views(names@)) == Some(t@),
{
    if names.len() == 0 {
        return None;
    }
    let (i, d) = find_nearest(facts, name, names);
    assert(name_views(names@)[i as int] == names@[i as int]@);
    if d <= NEAR {
        Some(names[i])
    } else {
        None
    }
}

/// No known name is nearer than the nearest one, and none that stands before
/// it is as near.
pub proof fn law_the_nearest_name_is_the_first_of_the_nearest(
    facts: Seq<Apart>,
    name: Seq<char>,
    names: Seq<Seq<char>>,
    k: int,
)
    requires
        0 <= k < names.len(),
    ensures
        0 <= nearest(facts, name, names) < names.len(),
        distance(facts, name, names[nearest(facts, name, names)]) <= distance(facts, name, names[k]),
        k < nearest(facts, name, names) ==> distance(
            facts,
            name,
            names[nearest(facts, name, names)],
        ) < distance(facts, name, names[k]),
    decreases names.len(),
{
    if names.len() > 1 {
        let head = names.drop_last();
        law_the_nearest_name_is_the_first_of_the_nearest(facts, name, head, 0);
        if k < names.len() - 1 {
            law_the_nearest_name_is_the_first_of_the_nearest(facts, name, head, k);
        }
    }
}

/// A name is taken for a known one exactly where some known one is at most three
/// edits from it, and then for one of the nearest.
pub proof fn law_a_near_name_is_meant(
    facts: &[Apart],
    name: &str,
    names: &[&'static str],
    r: Option<&'static str>,
    k: int,
)
    requires
        call_ensures(find_meant, (facts, name, names), r),
        0 <= k < names@.len(),
    ensures
        distance(facts@, name@, names@[k]@) <= 3 ==> r is Some,
        r matches Some(t) ==> distance(facts@, name@, t@) <= 3 && distance(facts@, name@, t@)
            <= distance(facts@, name@, names@[k]@) && name_views(names@).contains(t@),
{
    let v = name_views(names@);
    law_the_nearest_name_is_the_first_of_the_nearest(facts@, name@, v, k);
    assert(v[k] == names@[k]@);
}

/// How far two names are apart is what the first fact about them says; without
/// one they are as far as names can be.
pub proof fn law_the_first_fact_gives_the_distance(
    facts: Seq<Apart>,
    name: Seq<char>,
    known: Seq<char>,
    i: int,
)
    ensures
        0 <= i < facts.len() && facts[i].name@ == name && facts[i].known@ == known && (forall|k: int|
            0 <= k < i ==> (#[trigger] facts[k]).name@ != name || facts[k].known@ != known)
            ==> distance(facts, name, known) == facts[i].edits,
        (forall|k: int|
            0 <= k < facts.len() ==> (#[trigger] facts[k]).name@ != name || facts[k].known@ != known)
            ==> distance(facts, name, known) == usize::MAX,
{
    lemma_apart_at(facts, name, known, 0);
    let p = apart_at(facts, name, known, 0);
    if 0 <= i < facts.len() && facts[i].name@ == name && facts[i].known@ == known && (forall|k: int|
        0 <= k < i ==> (#[trigger] facts[k]).name@ != name || facts[k].known@ != known) {
        if p < i {
            assert(facts[p].name@ != name || facts[p].known@ != known);
        }
    }
}

proof fn lemma_apart_at(facts: Seq<Apart>, name: Seq<char>, known: Seq<char>, i: int)
    requires
        0 <= i <= facts.len(),
    ensures
        i <= apart_at(facts, name, known, i) <= facts.len(),
        apart_at(facts, name, known, i) < facts.len() ==> facts[apart_at(
            facts,
            name,
            known,
            i,
        )].name@ == name && facts[apart_at(facts, name, known, i)].known@ == known,
        forall|k: int|
            i <= k < apart_at(facts, name, known, i) ==> (#[trigger] facts[k]).name@ != name
                || facts[k].known@ != known,
    decreases facts.len() - i,
{
    if i < facts.len() && !(facts[i].name@ == name && facts[i].known@ == known) {
        lemma_apart_at(facts, name, known, i + 1);
    }
}

} // verus!
