//! The processors of a machine: which of them share a core, which are fast, and
//! in what order workers are put on them.

use vstd::prelude::*;
use crate::miner::ranks;
use crate::miner::ranks::sort_dedup;
use crate::text;
use crate::text::push_dec;

verus! {

/// A logical processor. A package or core below zero is not known.
#[derive(Debug, Clone, Copy)]
pub struct Cpu {
    pub id: usize,
    pub group: u16,
    pub package: i32,
    pub core: i32,
    pub class: Option<u8>,
    pub l2_kib: Option<u32>,
    pub l2_shared: Option<usize>,
}

/// What is known of a machine, and where it was read.
#[derive(Debug, Clone)]
pub struct Topology {
    pub model: String,
    pub cpus: Vec<Cpu>,
    pub source: &'static str,
    pub notes: Vec<String>,
}

// ---------------------------------------------------------------------------
// The model

/// Whether it is known which core each processor belongs to.
pub open spec fn cores_known(cpus: Seq<Cpu>) -> bool {
    forall|i: int| 0 <= i < cpus.len() ==> (#[trigger] cpus[i]).core >= 0 && cpus[i].package >= 0
}

/// The number by which a core goes: its package first, then the core in it.
pub open spec fn key(c: Cpu) -> u64 {
    (c.package * 0x1_0000_0000 + c.core) as u64
}

/// The cores of the processors, one entry for each processor.
pub open spec fn keys(cpus: Seq<Cpu>) -> Seq<u64> {
    Seq::new(cpus.len(), |i: int| key(cpus[i]))
}

/// The ids of all processors.
pub open spec fn ids(cpus: Seq<Cpu>) -> Seq<usize> {
    Seq::new(cpus.len(), |i: int| cpus[i].id)
}

/// The ids of the processors of one core, in the order in which they stand.
pub open spec fn members(cpus: Seq<Cpu>, k: u64) -> Seq<usize>
    decreases cpus.len(),
{
    if cpus.len() == 0 {
        Seq::empty()
    } else if key(cpus.last()) == k {
        members(cpus.drop_last(), k).push(cpus.last().id)
    } else {
        members(cpus.drop_last(), k)
    }
}

/// The cores in the order of their numbers, each as the ids of its processors.
pub open spec fn groups(cpus: Seq<Cpu>) -> Seq<Seq<usize>> {
    let r = ranks::ranks(keys(cpus));
    Seq::new(r.len(), |i: int| members(cpus, r[i]))
}

/// The first processor with this id, as an index; the length if there is none.
pub open spec fn slot(cpus: Seq<Cpu>, id: usize, i: int) -> int
    decreases cpus.len() - i,
{
    if 0 <= i < cpus.len() && cpus[i].id != id {
        slot(cpus, id, i + 1)
    } else {
        i
    }
}

/// The class of the first processor with this id.
pub open spec fn class_of(cpus: Seq<Cpu>, id: usize) -> Option<u8> {
    let i = slot(cpus, id, 0);
    if i < cpus.len() {
        cpus[i].class
    } else {
        None
    }
}

/// How fast a core is by the class of its first processor: no class is least.
pub open spec fn speed(cpus: Seq<Cpu>, g: Seq<usize>) -> int {
    if g.len() == 0 {
        0
    } else {
        match class_of(cpus, g[0]) {
            Some(c) => c + 1,
            None => 0,
        }
    }
}

/// Those of `gs` that have this speed, in the order in which they stand.
pub open spec fn of_speed(cpus: Seq<Cpu>, gs: Seq<Seq<usize>>, v: int) -> Seq<Seq<usize>>
    decreases gs.len(),
{
    if gs.len() == 0 {
        Seq::empty()
    } else if speed(cpus, gs.last()) == v {
        of_speed(cpus, gs.drop_last(), v).push(gs.last())
    } else {
        of_speed(cpus, gs.drop_last(), v)
    }
}

/// The cores of speed `v` and below, the fast ones first; cores of one speed
/// keep their order.
pub open spec fn fast_first(cpus: Seq<Cpu>, gs: Seq<Seq<usize>>, v: int) -> Seq<Seq<usize>>
    decreases v + 1,
{
    if v < 0 {
        Seq::empty()
    } else {
        of_speed(cpus, gs, v) + fast_first(cpus, gs, v - 1)
    }
}

/// The processors of rank `r` in their cores, one for each core that has one.
pub open spec fn row(gs: Seq<Seq<usize>>, r: int) -> Seq<usize>
    decreases gs.len(),
{
    if gs.len() == 0 {
        Seq::empty()
    } else if r < gs.last().len() {
        row(gs.drop_last(), r).push(gs.last()[r])
    } else {
        row(gs.drop_last(), r)
    }
}

/// The rows of rank below `r`, one after the other.
pub open spec fn rows(gs: Seq<Seq<usize>>, r: int) -> Seq<usize>
    decreases r,
{
    if r <= 0 {
        Seq::empty()
    } else {
        rows(gs, r - 1) + row(gs, r - 1)
    }
}

/// The size of the largest core.
pub open spec fn deepest(gs: Seq<Seq<usize>>) -> nat
    decreases gs.len(),
{
    if gs.len() == 0 {
        0
    } else if gs.last().len() > deepest(gs.drop_last()) {
        gs.last().len()
    } else {
        deepest(gs.drop_last())
    }
}

/// The order in which workers are put on processors: every core's first
/// processor, the fast cores first, then every core's second, and so on.
/// Without knowledge of cores, as the processors stand.
pub open spec fn spread_of(cpus: Seq<Cpu>) -> Seq<usize> {
    if cpus.len() > 0 && cores_known(cpus) {
        let gs = fast_first(cpus, groups(cpus), 256);
        rows(gs, deepest(gs) as int)
    } else {
        ids(cpus)
    }
}

/// The classes of the processors that have one, one entry for each.
pub open spec fn class_values(cpus: Seq<Cpu>) -> Seq<u64>
    decreases cpus.len(),
{
    if cpus.len() == 0 {
        Seq::empty()
    } else {
        match cpus.last().class {
            Some(c) => class_values(cpus.drop_last()).push(c as u64),
            None => class_values(cpus.drop_last()),
        }
    }
}

/// The classes that occur, in increasing order.
pub open spec fn class_list(cpus: Seq<Cpu>) -> Seq<u64> {
    ranks::ranks(class_values(cpus))
}

/// The ids of the processors of one class, in the order in which they stand.
pub open spec fn ids_of_class(cpus: Seq<Cpu>, c: u8) -> Seq<usize>
    decreases cpus.len(),
{
    if cpus.len() == 0 {
        Seq::empty()
    } else if cpus.last().class == Some(c) {
        ids_of_class(cpus.drop_last(), c).push(cpus.last().id)
    } else {
        ids_of_class(cpus.drop_last(), c)
    }
}

/// The steps from each processor of a core to the next one.
pub open spec fn steps(g: Seq<usize>) -> Seq<u64>
    decreases g.len(),
{
    if g.len() < 2 {
        Seq::empty()
    } else {
        let a = g[g.len() - 2];
        let b = g[g.len() - 1];
        steps(g.drop_last()).push(
            if b > a {
                (b - a) as u64
            } else {
                0
            },
        )
    }
}

/// The steps within all the cores.
pub open spec fn all_steps(gs: Seq<Seq<usize>>) -> Seq<u64>
    decreases gs.len(),
{
    if gs.len() == 0 {
        Seq::empty()
    } else {
        all_steps(gs.drop_last()) + steps(gs.last())
    }
}

/// The cores of those processors of `list` that exist, one entry for each.
pub open spec fn keys_of(cpus: Seq<Cpu>, list: Seq<usize>) -> Seq<u64>
    decreases list.len(),
{
    if list.len() == 0 {
        Seq::empty()
    } else {
        let i = slot(cpus, list.last(), 0);
        let rest = keys_of(cpus, list.drop_last());
        if i < cpus.len() {
            rest.push(key(cpus[i]))
        } else {
            rest
        }
    }
}

pub open spec fn group_views(v: Seq<Vec<usize>>) -> Seq<Seq<usize>> {
    Seq::new(v.len(), |k: int| v[k]@)
}

// ---------------------------------------------------------------------------
// The readings

fn known(cpus: &[Cpu]) -> (r: bool)
    ensures
        r == cores_known(cpus@),
{
    let mut i: usize = 0;
    while i < cpus.len()
        invariant
            i <= cpus.len(),
            forall|k: int| 0 <= k < i ==> (#[trigger] cpus@[k]).core >= 0 && cpus@[k].package >= 0,
        decreases cpus.len() - i,
    {
        if cpus[i].core < 0 || cpus[i].package < 0 {
            return false;
        }
        i += 1;
    }
    true
}

fn key_number(c: &Cpu) -> (k: u64)
    requires
        c.core >= 0,
        c.package >= 0,
    ensures
        k == key(*c),
{
    c.package as u64 * 0x1_0000_0000 + c.core as u64
}

fn members_of(cpus: &[Cpu], k: u64) -> (r: Vec<usize>)
    requires
        cores_known(cpus@),
    ensures
        r@ == members(cpus@, k),
{
    let mut r: Vec<usize> = Vec::new();
    let mut i: usize = 0;
    assert(cpus@.take(0) =~= Seq::<Cpu>::empty());
    while i < cpus.len()
        invariant
            i <= cpus.len(),
            cores_known(cpus@),
            r@ == members(cpus@.take(i as int), k),
        decreases cpus.len() - i,
    {
        assert(cpus@.take(i + 1).drop_last() =~= cpus@.take(i as int));
        if key_number(&cpus[i]) == k {
            r.push(cpus[i].id);
        }
        i += 1;
    }
    assert(cpus@.take(i as int) =~= cpus@);
    r
}

impl Topology {
    pub fn logical(&self) -> (n: usize)
        ensures
            n == self.cpus@.len(),
    {
        self.cpus.len()
    }

    /// How many packages there are, if that is known.
    pub fn packages(&self) -> (r: Option<usize>)
        ensures
            ({
                let known = self.cpus@.len() > 0 && forall|i: int|
                    0 <= i < self.cpus@.len() ==> (#[trigger] self.cpus@[i]).package >= 0;
                &&& r is Some <==> known
                &&& r matches Some(n) ==> n == ranks::ranks(
                    Seq::new(self.cpus@.len(), |i: int| self.cpus@[i].package as u64),
                ).len()
            }),
    {
        let mut v: Vec<u64> = Vec::new();
        let mut i: usize = 0;
        if self.cpus.len() == 0 {
            return None;
        }
        while i < self.cpus.len()
            invariant
                i <= self.cpus.len(),
                forall|k: int| 0 <= k < i ==> (#[trigger] self.cpus@[k]).package >= 0,
                v@ == Seq::new(i as nat, |k: int| self.cpus@[k].package as u64),
            decreases self.cpus.len() - i,
        {
            if self.cpus[i].package < 0 {
                return None;
            }
            v.push(self.cpus[i].package as u64);
            i += 1;
            assert(v@ =~= Seq::new(i as nat, |k: int| self.cpus@[k].package as u64));
        }
        Some(sort_dedup(&v).len())
    }

    /// The cores, each as the ids of its processors, if that is known.
    pub fn cores(&self) -> (r: Option<Vec<Vec<usize>>>)
        ensures
            r is Some <==> self.cpus@.len() > 0 && cores_known(self.cpus@),
            r matches Some(gs) ==> group_views(gs@) == groups(self.cpus@),
    {
        if self.cpus.len() == 0 || !known(&self.cpus) {
            return None;
        }
        let mut v: Vec<u64> = Vec::new();
        let mut i: usize = 0;
        while i < self.cpus.len()
            invariant
                i <= self.cpus.len(),
                cores_known(self.cpus@),
                v@ == keys(self.cpus@.take(i as int)),
            decreases self.cpus.len() - i,
        {
            v.push(key_number(&self.cpus[i]));
            i += 1;
            assert(v@ =~= keys(self.cpus@.take(i as int)));
        }
        assert(self.cpus@.take(i as int) =~= self.cpus@);
        let rs = sort_dedup(&v);
        let mut gs: Vec<Vec<usize>> = Vec::new();
        let mut j: usize = 0;
        while j < rs.len()
            invariant
                j <= rs.len(),
                cores_known(self.cpus@),
                rs@ == ranks::ranks(keys(self.cpus@)),
                group_views(gs@) == Seq::new(j as nat, |k: int| members(self.cpus@, rs@[k])),
            decreases rs.len() - j,
        {
            let ghost was = group_views(gs@);
            let g = members_of(&self.cpus, rs[j]);
            gs.push(g);
            j += 1;
            assert(group_views(gs@) =~= was.push(g@));
            assert(group_views(gs@) =~= Seq::new(j as nat, |k: int| members(self.cpus@, rs@[k])));
        }
        assert(group_views(gs@) =~= groups(self.cpus@));
        Some(gs)
    }

    /// Whether some core has more than one processor.
    pub fn smt(&self) -> (r: bool)
        ensures
            r == has_siblings(self.cpus@),
    {
        match self.cores() {
            None => false,
            Some(gs) => {
                let mut i: usize = 0;
                while i < gs.len()
                    invariant
                        i <= gs.len(),
                        self.cpus@.len() > 0 && cores_known(self.cpus@),
                        group_views(gs@) == groups(self.cpus@),
                        forall|k: int| 0 <= k < i ==> (#[trigger] groups(self.cpus@)[k]).len() <= 1,
                    decreases gs.len() - i,
                {
                    assert(groups(self.cpus@)[i as int] == gs@[i as int]@);
                    if gs[i].len() > 1 {
                        return true;
                    }
                    i += 1;
                }
                false
            },
        }
    }

    /// The first processor of each core, if the cores are known.
    pub fn one_per_core(&self) -> (r: Option<Vec<usize>>)
        ensures
            r is Some <==> self.cpus@.len() > 0 && cores_known(self.cpus@),
            r matches Some(v) ==> v@ == row(groups(self.cpus@), 0),
    {
        match self.cores() {
            None => None,
            Some(gs) => Some(row_of(&gs, 0)),
        }
    }

    /// The first processor with this id.
    pub fn cpu(&self, id: usize) -> (r: Option<&Cpu>)
        ensures
            r is Some <==> slot(self.cpus@, id, 0) < self.cpus@.len(),
            r matches Some(c) ==> *c == self.cpus@[slot(self.cpus@, id, 0)],
    {
        let i: usize = slot_of(&self.cpus, id);
        if i < self.cpus.len() {
            Some(&self.cpus[i])
        } else {
            None
        }
    }

    /// The classes that occur, in increasing order.
    pub fn classes(&self) -> (r: Vec<u8>)
        ensures
            Seq::new(r@.len(), |i: int| r@[i] as u64) == class_list(self.cpus@),
    {
        let mut v: Vec<u64> = Vec::new();
        let mut i: usize = 0;
        assert(self.cpus@.take(0) =~= Seq::<Cpu>::empty());
        while i < self.cpus.len()
            invariant
                i <= self.cpus.len(),
                v@ == class_values(self.cpus@.take(i as int)),
                forall|k: int| 0 <= k < v@.len() ==> v@[k] <= 255,
            decreases self.cpus.len() - i,
        {
            assert(self.cpus@.take(i + 1).drop_last() =~= self.cpus@.take(i as int));
            match self.cpus[i].class {
                Some(c) => v.push(c as u64),
                None => {},
            }
            i += 1;
        }
        assert(self.cpus@.take(i as int) =~= self.cpus@);
        let rs = sort_dedup(&v);
        proof {
            ranks::lemma_ranks(v@);
            assert forall|k: int| 0 <= k < rs@.len() implies rs@[k] <= 255 by {
                assert(ranks::ranks(v@).contains(rs@[k]));
                let j = choose|j: int| 0 <= j < v@.len() && v@[j] == rs@[k];
                assert(v@[j] <= 255);
            }
        }
        let mut r: Vec<u8> = Vec::new();
        let mut j: usize = 0;
        while j < rs.len()
            invariant
                j <= rs.len(),
                r@.len() == j,
                forall|k: int| 0 <= k < rs@.len() ==> rs@[k] <= 255,
                forall|k: int| 0 <= k < j ==> r@[k] as u64 == rs@[k],
            decreases rs.len() - j,
        {
            r.push(rs[j] as u8);
            j += 1;
        }
        assert(Seq::new(r@.len(), |i: int| r@[i] as u64) =~= class_list(self.cpus@));
        r
    }

    /// Whether the processors differ in class.
    pub fn hybrid(&self) -> (r: bool)
        ensures
            r == (class_list(self.cpus@).len() > 1),
    {
        let v = self.classes();
        proof {
            let s = Seq::new(v@.len(), |i: int| v@[i] as u64);
            assert(s.len() == v@.len());
        }
        v.len() > 1
    }

    /// The processors of the highest class, if there is more than one class.
    pub fn performance_cpus(&self) -> (r: Option<Vec<usize>>)
        ensures
            r is Some <==> class_list(self.cpus@).len() >= 2,
            r matches Some(v) ==> v@ == ids_of_class(
                self.cpus@,
                class_list(self.cpus@).last() as u8,
            ),
    {
        let v = self.classes();
        proof {
            let s = Seq::new(v@.len(), |i: int| v@[i] as u64);
            assert(s.len() == v@.len());
            assert(v@.len() > 0 ==> s.last() == v@.last() as u64);
        }
        if v.len() < 2 {
            return None;
        }
        Some(of_class(&self.cpus, v[v.len() - 1]))
    }

    /// How far apart the processors of one core are numbered.
    pub fn sibling_strides(&self) -> (r: Vec<usize>)
        ensures
            Seq::new(r@.len(), |i: int| r@[i] as u64) == (if self.cpus@.len() > 0 && cores_known(
                self.cpus@,
            ) {
                ranks::ranks(all_steps(groups(self.cpus@)))
            } else {
                Seq::empty()
            }),
    {
        let mut r: Vec<usize> = Vec::new();
        let gs = match self.cores() {
            Some(gs) => gs,
            None => {
                assert(Seq::new(r@.len(), |i: int| r@[i] as u64) =~= Seq::empty());
                return r;
            },
        };
        let v = steps_of(&gs);
        let rs = sort_dedup(&v);
        proof {
            ranks::lemma_ranks(v@);
            assert forall|k: int| 0 <= k < rs@.len() implies rs@[k] <= usize::MAX by {
                assert(ranks::ranks(v@).contains(rs@[k]));
                let j = choose|j: int| 0 <= j < v@.len() && v@[j] == rs@[k];
                assert(v@[j] <= usize::MAX);
            }
        }
        let mut j: usize = 0;
        while j < rs.len()
            invariant
                j <= rs.len(),
                r@.len() == j,
                forall|k: int| 0 <= k < rs@.len() ==> rs@[k] <= usize::MAX,
                forall|k: int| 0 <= k < j ==> r@[k] as u64 == rs@[k],
            decreases rs.len() - j,
        {
            r.push(rs[j] as usize);
            j += 1;
        }
        assert(Seq::new(r@.len(), |i: int| r@[i] as u64) =~= rs@);
        r
    }

    /// How many cores the processors of `list` are on, if that is known.
    pub fn cores_covered(&self, list: &[usize]) -> (r: Option<usize>)
        ensures
            r is Some <==> cores_known(self.cpus@),
            r matches Some(n) ==> n == covered(self.cpus@, list@),
    {
        if !known(&self.cpus) {
            return None;
        }
        let mut v: Vec<u64> = Vec::new();
        let mut i: usize = 0;
        assert(list@.take(0) =~= Seq::<usize>::empty());
        while i < list.len()
            invariant
                i <= list.len(),
                cores_known(self.cpus@),
                v@ == keys_of(self.cpus@, list@.take(i as int)),
            decreases list.len() - i,
        {
            assert(list@.take(i + 1).drop_last() =~= list@.take(i as int));
            let k: usize = slot_of(&self.cpus, list[i]);
            if k < self.cpus.len() {
                v.push(key_number(&self.cpus[k]));
            }
            i += 1;
        }
        assert(list@.take(i as int) =~= list@);
        Some(sort_dedup(&v).len())
    }
}

fn slot_of(cpus: &[Cpu], id: usize) -> (i: usize)
    ensures
        i == slot(cpus@, id, 0),
        i <= cpus.len(),
{
    let mut i: usize = 0;
    while i < cpus.len() && cpus[i].id != id
        invariant
            i <= cpus.len(),
            slot(cpus@, id, 0) == slot(cpus@, id, i as int),
        decreases cpus.len() - i,
    {
        i += 1;
    }
    i
}

fn row_of(gs: &Vec<Vec<usize>>, r: usize) -> (v: Vec<usize>)
    ensures
        v@ == row(group_views(gs@), r as int),
{
    let ghost s = group_views(gs@);
    let mut v: Vec<usize> = Vec::new();
    let mut i: usize = 0;
    assert(s.take(0) =~= Seq::<Seq<usize>>::empty());
    while i < gs.len()
        invariant
            i <= gs.len(),
            s == group_views(gs@),
            v@ == row(s.take(i as int), r as int),
        decreases gs.len() - i,
    {
        assert(s.take(i + 1).drop_last() =~= s.take(i as int));
        assert(s[i as int] == gs@[i as int]@);
        if r < gs[i].len() {
            v.push(gs[i][r]);
        }
        i += 1;
    }
    assert(s.take(i as int) =~= s);
    v
}

fn of_class(cpus: &[Cpu], c: u8) -> (v: Vec<usize>)
    ensures
        v@ == ids_of_class(cpus@, c),
{
    let mut v: Vec<usize> = Vec::new();
    let mut i: usize = 0;
    assert(cpus@.take(0) =~= Seq::<Cpu>::empty());
    while i < cpus.len()
        invariant
            i <= cpus.len(),
            v@ == ids_of_class(cpus@.take(i as int), c),
        decreases cpus.len() - i,
    {
        assert(cpus@.take(i + 1).drop_last() =~= cpus@.take(i as int));
        match cpus[i].class {
            Some(x) => if x == c {
                v.push(cpus[i].id);
            },
            None => {},
        }
        i += 1;
    }
    assert(cpus@.take(i as int) =~= cpus@);
    v
}

fn steps_of(gs: &Vec<Vec<usize>>) -> (v: Vec<u64>)
    ensures
        v@ == all_steps(group_views(gs@)),
        forall|k: int| 0 <= k < v@.len() ==> v@[k] <= usize::MAX,
{
    let ghost s = group_views(gs@);
    let mut v: Vec<u64> = Vec::new();
    let mut i: usize = 0;
    assert(s.take(0) =~= Seq::<Seq<usize>>::empty());
    while i < gs.len()
        invariant
            i <= gs.len(),
            s == group_views(gs@),
            v@ == all_steps(s.take(i as int)),
            forall|k: int| 0 <= k < v@.len() ==> v@[k] <= usize::MAX,
        decreases gs.len() - i,
    {
        assert(s.take(i + 1).drop_last() =~= s.take(i as int));
        let g: &Vec<usize> = &gs[i];
        let ghost before = v@;
        assert(s[i as int] == g@);
        let mut j: usize = 1;
        assert(before + steps(g@.take(if g@.len() < 1 { g@.len() as int } else { 1 })) =~= before);
        while j < g.len()
            invariant
                1 <= j,
                j <= g.len() || j == 1,
                v@ == before + steps(
                    g@.take(
                        if j <= g@.len() {
                            j as int
                        } else {
                            g@.len() as int
                        },
                    ),
                ),
                forall|k: int| 0 <= k < v@.len() ==> v@[k] <= usize::MAX,
            decreases g.len() - j,
        {
            let ghost w = g@.take(j + 1);
            assert(w.drop_last() =~= g@.take(j as int));
            assert(w[w.len() - 2] == g@[j - 1] && w[w.len() - 1] == g@[j as int]);
            let d: usize = g[j].saturating_sub(g[j - 1]);
            v.push(d as u64);
            j += 1;
            assert(v@ =~= before + steps(w));
        }
        assert(g@.take(if j <= g@.len() { j as int } else { g@.len() as int }) =~= g@);
        i += 1;
    }
    assert(s.take(i as int) =~= s);
    v
}

// ---------------------------------------------------------------------------
// Where workers go

fn speed_of(cpus: &[Cpu], g: &Vec<usize>) -> (v: usize)
    ensures
        v == speed(cpus@, g@),
        v <= 256,
{
    if g.len() == 0 {
        return 0;
    }
    let i: usize = slot_of(cpus, g[0]);
    if i < cpus.len() {
        match cpus[i].class {
            Some(c) => c as usize + 1,
            None => 0,
        }
    } else {
        0
    }
}

pub(crate) fn copy_ids(g: &Vec<usize>) -> (r: Vec<usize>)
    ensures
        r@ == g@,
{
    let mut r: Vec<usize> = Vec::new();
    let mut i: usize = 0;
    while i < g.len()
        invariant
            i <= g.len(),
            r@ == g@.take(i as int),
        decreases g.len() - i,
    {
        r.push(g[i]);
        i += 1;
        assert(r@ =~= g@.take(i as int));
    }
    assert(g@.take(i as int) =~= g@);
    r
}

fn push_speed(cpus: &[Cpu], gs: &Vec<Vec<usize>>, v: usize, out: &mut Vec<Vec<usize>>)
    ensures
        group_views(final(out)@) == group_views(old(out)@) + of_speed(
            cpus@,
            group_views(gs@),
            v as int,
        ),
{
    let ghost s = group_views(gs@);
    let ghost front = group_views(out@);
    let mut i: usize = 0;
    assert(s.take(0) =~= Seq::<Seq<usize>>::empty());
    assert(front + of_speed(cpus@, s.take(0), v as int) =~= front);
    while i < gs.len()
        invariant
            i <= gs.len(),
            s == group_views(gs@),
            group_views(out@) == front + of_speed(cpus@, s.take(i as int), v as int),
        decreases gs.len() - i,
    {
        assert(s.take(i + 1).drop_last() =~= s.take(i as int));
        assert(s[i as int] == gs@[i as int]@);
        if speed_of(cpus, &gs[i]) == v {
            let ghost was = group_views(out@);
            let g = copy_ids(&gs[i]);
            out.push(g);
            assert(group_views(out@) =~= was.push(g@));
            assert(group_views(out@) =~= front + of_speed(cpus@, s.take(i + 1), v as int));
        }
        i += 1;
    }
    assert(s.take(i as int) =~= s);
}

fn order_by_speed(cpus: &[Cpu], gs: &Vec<Vec<usize>>) -> (out: Vec<Vec<usize>>)
    ensures
        group_views(out@) == fast_first(cpus@, group_views(gs@), 256),
{
    let ghost s = group_views(gs@);
    let mut out: Vec<Vec<usize>> = Vec::new();
    let mut v: usize = 257;
    assert(group_views(out@) + fast_first(cpus@, s, 256) =~= fast_first(cpus@, s, 256));
    while v > 0
        invariant
            v <= 257,
            s == group_views(gs@),
            group_views(out@) + fast_first(cpus@, s, v - 1) == fast_first(cpus@, s, 256),
        decreases v,
    {
        v -= 1;
        let ghost was = group_views(out@);
        push_speed(cpus, gs, v, &mut out);
        assert(was + (of_speed(cpus@, s, v as int) + fast_first(cpus@, s, v - 1)) =~= group_views(
            out@,
        ) + fast_first(cpus@, s, v - 1));
    }
    assert(group_views(out@) =~= fast_first(cpus@, s, 256));
    out
}

pub(crate) fn depth_of(gs: &Vec<Vec<usize>>) -> (d: usize)
    ensures
        d == deepest(group_views(gs@)),
{
    let ghost s = group_views(gs@);
    let mut d: usize = 0;
    let mut i: usize = 0;
    assert(s.take(0) =~= Seq::<Seq<usize>>::empty());
    while i < gs.len()
        invariant
            i <= gs.len(),
            s == group_views(gs@),
            d == deepest(s.take(i as int)),
        decreases gs.len() - i,
    {
        assert(s.take(i + 1).drop_last() =~= s.take(i as int));
        assert(s[i as int] == gs@[i as int]@);
        if gs[i].len() > d {
            d = gs[i].len();
        }
        i += 1;
    }
    assert(s.take(i as int) =~= s);
    d
}

impl Topology {
    /// The ids of all processors.
    pub(crate) fn all_ids(&self) -> (r: Vec<usize>)
        ensures
            r@ == ids(self.cpus@),
    {
        let mut r: Vec<usize> = Vec::new();
        let mut i: usize = 0;
        while i < self.cpus.len()
            invariant
                i <= self.cpus.len(),
                r@ == ids(self.cpus@.take(i as int)),
            decreases self.cpus.len() - i,
        {
            r.push(self.cpus[i].id);
            i += 1;
            assert(r@ =~= ids(self.cpus@.take(i as int)));
        }
        assert(self.cpus@.take(i as int) =~= self.cpus@);
        r
    }

    /// The processors in the order in which workers are put on them. Taking
    /// the first of them spreads the workers over as many cores as there are:
    /// a worker's scratchpad lives in the cache of its core.
    pub fn spread(&self) -> (r: Vec<usize>)
        ensures
            r@ == spread_of(self.cpus@),
    {
        let gs = match self.cores() {
            Some(gs) => gs,
            None => {
                return self.all_ids();
            },
        };
        let os = order_by_speed(&self.cpus, &gs);
        let d: usize = depth_of(&os);
        let mut out: Vec<usize> = Vec::new();
        let mut r: usize = 0;
        while r < d
            invariant
                r <= d,
                out@ == rows(group_views(os@), r as int),
            decreases d - r,
        {
            let mut line = row_of(&os, r);
            out.append(&mut line);
            r += 1;
        }
        out
    }
}

/// How often `x` occurs in `s`.
pub open spec fn times(s: Seq<usize>, x: usize) -> nat
    decreases s.len(),
{
    if s.len() == 0 {
        0
    } else {
        times(s.drop_last(), x) + (if s.last() == x {
            1nat
        } else {
            0nat
        })
    }
}

/// How often `x` occurs in the cores `gs`.
pub open spec fn times_in(gs: Seq<Seq<usize>>, x: usize) -> nat
    decreases gs.len(),
{
    if gs.len() == 0 {
        0
    } else {
        times_in(gs.drop_last(), x) + times(gs.last(), x)
    }
}

proof fn lemma_times_add(a: Seq<usize>, b: Seq<usize>, x: usize)
    ensures
        times(a + b, x) == times(a, x) + times(b, x),
    decreases b.len(),
{
    if b.len() == 0 {
        assert(a + b =~= a);
    } else {
        assert((a + b).drop_last() =~= a + b.drop_last());
        lemma_times_add(a, b.drop_last(), x);
    }
}

proof fn lemma_times_in_add(a: Seq<Seq<usize>>, b: Seq<Seq<usize>>, x: usize)
    ensures
        times_in(a + b, x) == times_in(a, x) + times_in(b, x),
    decreases b.len(),
{
    if b.len() == 0 {
        assert(a + b =~= a);
    } else {
        assert((a + b).drop_last() =~= a + b.drop_last());
        lemma_times_in_add(a, b.drop_last(), x);
    }
}

/// How often `x` occurs in those of `gs` whose speed is at most `v`.
spec fn times_below(cpus: Seq<Cpu>, gs: Seq<Seq<usize>>, v: int, x: usize) -> nat
    decreases gs.len(),
{
    if gs.len() == 0 {
        0
    } else {
        times_below(cpus, gs.drop_last(), v, x) + (if speed(cpus, gs.last()) <= v {
            times(gs.last(), x)
        } else {
            0
        })
    }
}

proof fn lemma_times_of_speed(cpus: Seq<Cpu>, gs: Seq<Seq<usize>>, v: int, x: usize)
    ensures
        times_below(cpus, gs, v, x) == times_below(cpus, gs, v - 1, x) + times_in(
            of_speed(cpus, gs, v),
            x,
        ),
    decreases gs.len(),
{
    if gs.len() > 0 {
        lemma_times_of_speed(cpus, gs.drop_last(), v, x);
        let rest = of_speed(cpus, gs.drop_last(), v);
        assert(rest.push(gs.last()).drop_last() =~= rest);
    }
}

proof fn lemma_times_none_below(cpus: Seq<Cpu>, gs: Seq<Seq<usize>>, x: usize)
    ensures
        times_below(cpus, gs, -1, x) == 0,
        times_below(cpus, gs, 256, x) == times_in(gs, x),
    decreases gs.len(),
{
    if gs.len() > 0 {
        lemma_times_none_below(cpus, gs.drop_last(), x);
    }
}

proof fn lemma_times_fast_first(cpus: Seq<Cpu>, gs: Seq<Seq<usize>>, v: int, x: usize)
    requires
        v >= -1,
    ensures
        times_in(fast_first(cpus, gs, v), x) == times_below(cpus, gs, v, x),
    decreases v + 1,
{
    if v < 0 {
        lemma_times_none_below(cpus, gs, x);
    } else {
        lemma_times_fast_first(cpus, gs, v - 1, x);
        lemma_times_of_speed(cpus, gs, v, x);
        lemma_times_in_add(of_speed(cpus, gs, v), fast_first(cpus, gs, v - 1), x);
    }
}

/// How often `x` occurs among the first `r` of each core.
spec fn times_top(gs: Seq<Seq<usize>>, r: int, x: usize) -> nat
    decreases gs.len(),
{
    if gs.len() == 0 {
        0
    } else {
        times_top(gs.drop_last(), r, x) + times(
            gs.last().take(
                if r < gs.last().len() {
                    r
                } else {
                    gs.last().len() as int
                },
            ),
            x,
        )
    }
}

proof fn lemma_times_row(gs: Seq<Seq<usize>>, r: int, x: usize)
    requires
        r >= 0,
    ensures
        times_top(gs, r + 1, x) == times_top(gs, r, x) + times(row(gs, r), x),
    decreases gs.len(),
{
    if gs.len() > 0 {
        lemma_times_row(gs.drop_last(), r, x);
        let g = gs.last();
        if r < g.len() {
            assert(g.take(r + 1).drop_last() =~= g.take(r));
            let rest = row(gs.drop_last(), r);
            assert(rest.push(g[r]).drop_last() =~= rest);
        }
    }
}

proof fn lemma_times_rows(gs: Seq<Seq<usize>>, r: int, x: usize)
    requires
        r >= 0,
    ensures
        times(rows(gs, r), x) == times_top(gs, r, x),
    decreases r,
{
    if r == 0 {
        lemma_times_top_none(gs, x);
    } else {
        lemma_times_rows(gs, r - 1, x);
        lemma_times_row(gs, r - 1, x);
        lemma_times_add(rows(gs, r - 1), row(gs, r - 1), x);
    }
}

proof fn lemma_times_top_none(gs: Seq<Seq<usize>>, x: usize)
    ensures
        times_top(gs, 0, x) == 0,
    decreases gs.len(),
{
    if gs.len() > 0 {
        lemma_times_top_none(gs.drop_last(), x);
    }
}

proof fn lemma_times_top_all(gs: Seq<Seq<usize>>, r: int, x: usize)
    requires
        r >= deepest(gs),
    ensures
        times_top(gs, r, x) == times_in(gs, x),
    decreases gs.len(),
{
    if gs.len() > 0 {
        lemma_times_top_all(gs.drop_last(), r, x);
        assert(gs.last().take(gs.last().len() as int) =~= gs.last());
    }
}

/// The cores with the numbers `rs`.
spec fn by_keys(cpus: Seq<Cpu>, rs: Seq<u64>) -> Seq<Seq<usize>> {
    Seq::new(rs.len(), |i: int| members(cpus, rs[i]))
}

proof fn lemma_times_members(cpus: Seq<Cpu>, rs: Seq<u64>, x: usize)
    requires
        ranks::increasing(rs),
        cpus.len() > 0,
    ensures
        times_in(by_keys(cpus, rs), x) == times_in(by_keys(cpus.drop_last(), rs), x) + (
        if rs.contains(key(cpus.last())) && cpus.last().id == x {
            1nat
        } else {
            0nat
        }),
    decreases rs.len(),
{
    let a = by_keys(cpus, rs);
    let b = by_keys(cpus.drop_last(), rs);
    if rs.len() > 0 {
        let t = rs.drop_last();
        lemma_times_members(cpus, t, x);
        assert(a.drop_last() =~= by_keys(cpus, t));
        assert(b.drop_last() =~= by_keys(cpus.drop_last(), t));
        let k = key(cpus.last());
        let m = members(cpus.drop_last(), rs.last());
        assert(m.push(cpus.last().id).drop_last() =~= m);
        assert(rs.contains(k) <==> t.contains(k) || rs.last() == k) by {
            if rs.contains(k) {
                let i = choose|i: int| 0 <= i < rs.len() && rs[i] == k;
                if i < t.len() {
                    assert(t[i] == k);
                }
            }
            if t.contains(k) {
                let i = choose|i: int| 0 <= i < t.len() && t[i] == k;
                assert(rs[i] == k);
            }
            assert(rs[rs.len() - 1] == rs.last());
        }
        assert(!(t.contains(k) && rs.last() == k)) by {
            if t.contains(k) {
                let i = choose|i: int| 0 <= i < t.len() && t[i] == k;
                assert(rs[i] < rs[rs.len() - 1]);
            }
        }
    }
}

proof fn lemma_times_groups(cpus: Seq<Cpu>, rs: Seq<u64>, x: usize)
    requires
        ranks::increasing(rs),
        forall|i: int| 0 <= i < cpus.len() ==> rs.contains(key(#[trigger] cpus[i])),
    ensures
        times_in(by_keys(cpus, rs), x) == times(ids(cpus), x),
    decreases cpus.len(),
{
    if cpus.len() == 0 {
        lemma_times_empty(rs, x);
        assert(by_keys(cpus, rs) =~= by_keys(Seq::empty(), rs));
    } else {
        let t = cpus.drop_last();
        assert forall|i: int| 0 <= i < t.len() implies rs.contains(key(#[trigger] t[i])) by {
            assert(t[i] == cpus[i]);
        }
        lemma_times_groups(t, rs, x);
        lemma_times_members(cpus, rs, x);
        assert(rs.contains(key(cpus[cpus.len() - 1])));
        assert(ids(cpus).drop_last() =~= ids(t));
    }
}

proof fn lemma_times_empty(rs: Seq<u64>, x: usize)
    ensures
        times_in(by_keys(Seq::empty(), rs), x) == 0,
    decreases rs.len(),
{
    if rs.len() > 0 {
        lemma_times_empty(rs.drop_last(), x);
        assert(by_keys(Seq::empty(), rs).drop_last() =~= by_keys(Seq::empty(), rs.drop_last()));
    }
}

/// The order for workers leaves no processor out and takes none twice: each id
/// occurs in it as often as there are processors with that id.
pub proof fn law_spread_is_a_permutation(cpus: Seq<Cpu>, x: usize)
    ensures
        times(spread_of(cpus), x) == times(ids(cpus), x),
{
    if cpus.len() > 0 && cores_known(cpus) {
        let ks = keys(cpus);
        let rs = ranks::ranks(ks);
        ranks::lemma_ranks(ks);
        assert forall|i: int| 0 <= i < cpus.len() implies rs.contains(key(#[trigger] cpus[i])) by {
            assert(ks[i] == key(cpus[i]));
            assert(ks.contains(ks[i]));
        }
        lemma_times_groups(cpus, rs, x);
        assert(by_keys(cpus, rs) =~= groups(cpus));
        lemma_times_fast_first(cpus, groups(cpus), 256, x);
        lemma_times_none_below(cpus, groups(cpus), x);
        let gs = fast_first(cpus, groups(cpus), 256);
        lemma_times_rows(gs, deepest(gs) as int, x);
        lemma_times_top_all(gs, deepest(gs) as int, x);
    }
}

proof fn lemma_members_nonempty(cpus: Seq<Cpu>, i: int)
    requires
        0 <= i < cpus.len(),
    ensures
        members(cpus, key(cpus[i])).len() > 0,
    decreases cpus.len(),
{
    if i < cpus.len() - 1 {
        assert(cpus.drop_last()[i] == cpus[i]);
        lemma_members_nonempty(cpus.drop_last(), i);
    }
}

proof fn lemma_of_speed_nonempty(cpus: Seq<Cpu>, gs: Seq<Seq<usize>>, v: int)
    requires
        forall|i: int| 0 <= i < gs.len() ==> (#[trigger] gs[i]).len() > 0,
    ensures
        forall|i: int|
            0 <= i < of_speed(cpus, gs, v).len() ==> (#[trigger] of_speed(cpus, gs, v)[i]).len()
                > 0,
    decreases gs.len(),
{
    if gs.len() > 0 {
        let t = gs.drop_last();
        assert forall|i: int| 0 <= i < t.len() implies (#[trigger] t[i]).len() > 0 by {
            assert(t[i] == gs[i]);
        }
        lemma_of_speed_nonempty(cpus, t, v);
        assert(gs[gs.len() - 1].len() > 0);
        let o = of_speed(cpus, gs, v);
        assert forall|i: int| 0 <= i < o.len() implies (#[trigger] o[i]).len() > 0 by {
            if i < of_speed(cpus, t, v).len() {
                assert(o[i] == of_speed(cpus, t, v)[i]);
            }
        }
    }
}

/// How many of `gs` have at most this speed.
spec fn count_below(cpus: Seq<Cpu>, gs: Seq<Seq<usize>>, v: int) -> nat
    decreases gs.len(),
{
    if gs.len() == 0 {
        0
    } else {
        count_below(cpus, gs.drop_last(), v) + (if speed(cpus, gs.last()) <= v {
            1nat
        } else {
            0nat
        })
    }
}

proof fn lemma_count_of_speed(cpus: Seq<Cpu>, gs: Seq<Seq<usize>>, v: int)
    ensures
        count_below(cpus, gs, v) == count_below(cpus, gs, v - 1) + of_speed(cpus, gs, v).len(),
        count_below(cpus, gs, -1) == 0,
        count_below(cpus, gs, 256) == gs.len(),
    decreases gs.len(),
{
    if gs.len() > 0 {
        lemma_count_of_speed(cpus, gs.drop_last(), v);
    }
}

proof fn lemma_fast_first(cpus: Seq<Cpu>, gs: Seq<Seq<usize>>, v: int)
    requires
        v >= -1,
        forall|i: int| 0 <= i < gs.len() ==> (#[trigger] gs[i]).len() > 0,
    ensures
        fast_first(cpus, gs, v).len() == count_below(cpus, gs, v),
        forall|i: int|
            0 <= i < fast_first(cpus, gs, v).len() ==> (#[trigger] fast_first(
                cpus,
                gs,
                v,
            )[i]).len() > 0,
    decreases v + 1,
{
    lemma_count_of_speed(cpus, gs, v);
    if v >= 0 {
        lemma_fast_first(cpus, gs, v - 1);
        lemma_of_speed_nonempty(cpus, gs, v);
    }
}

proof fn lemma_first_row(gs: Seq<Seq<usize>>)
    requires
        forall|i: int| 0 <= i < gs.len() ==> (#[trigger] gs[i]).len() > 0,
    ensures
        row(gs, 0) == Seq::new(gs.len(), |i: int| gs[i][0]),
        gs.len() > 0 ==> deepest(gs) > 0,
    decreases gs.len(),
{
    if gs.len() > 0 {
        let t = gs.drop_last();
        assert forall|i: int| 0 <= i < t.len() implies (#[trigger] t[i]).len() > 0 by {
            assert(t[i] == gs[i]);
        }
        lemma_first_row(t);
        assert(gs[gs.len() - 1].len() > 0);
    }
    assert(row(gs, 0) =~= Seq::new(gs.len(), |i: int| gs[i][0]));
}

proof fn lemma_rows_begin(gs: Seq<Seq<usize>>, r: int)
    requires
        r >= 1,
    ensures
        rows(gs, r).len() >= row(gs, 0).len(),
        rows(gs, r).take(row(gs, 0).len() as int) == row(gs, 0),
    decreases r,
{
    let n = row(gs, 0).len() as int;
    if r == 1 {
        assert(rows(gs, 0) =~= Seq::empty());
        assert(rows(gs, 1) =~= row(gs, 0));
        assert(row(gs, 0).take(n) =~= row(gs, 0));
    } else {
        lemma_rows_begin(gs, r - 1);
        assert(rows(gs, r).take(n) =~= rows(gs, r - 1).take(n));
    }
}

/// No core is booked twice before every core is booked: the order begins with
/// the first processor of each core, the fast cores first.
pub proof fn law_spread_books_every_core_first(cpus: Seq<Cpu>)
    requires
        cpus.len() > 0,
        cores_known(cpus),
    ensures
        ({
            let gs = fast_first(cpus, groups(cpus), 256);
            let n = groups(cpus).len();
            &&& gs.len() == n
            &&& spread_of(cpus).len() >= n
            &&& spread_of(cpus).take(n as int) == Seq::new(n, |i: int| gs[i][0])
        }),
{
    let ks = keys(cpus);
    let rs = ranks::ranks(ks);
    let g = groups(cpus);
    ranks::lemma_ranks(ks);
    assert forall|i: int| 0 <= i < g.len() implies (#[trigger] g[i]).len() > 0 by {
        assert(ranks::ranks(ks).contains(rs[i]));
        let j = choose|j: int| 0 <= j < ks.len() && ks[j] == rs[i];
        lemma_members_nonempty(cpus, j);
    }
    lemma_fast_first(cpus, g, 256);
    lemma_count_of_speed(cpus, g, 256);
    let gs = fast_first(cpus, g, 256);
    lemma_first_row(gs);
    lemma_rows_begin(gs, deepest(gs) as int);
}

// ---------------------------------------------------------------------------
// How many cores a list covers

/// Whether no two processors have the same id.
pub open spec fn distinct_ids(cpus: Seq<Cpu>) -> bool {
    forall|i: int, j: int| 0 <= i < j < cpus.len() ==> cpus[i].id != cpus[j].id
}

/// How many cores the processors of a list are on.
pub open spec fn covered(cpus: Seq<Cpu>, list: Seq<usize>) -> nat {
    ranks::ranks(keys_of(cpus, list)).len()
}

/// The core of the first processor with this id.
spec fn core_of(cpus: Seq<Cpu>, id: usize) -> u64 {
    key(cpus[slot(cpus, id, 0)])
}

/// Whether there is a processor with this id.
spec fn exists_id(cpus: Seq<Cpu>, id: usize) -> bool {
    slot(cpus, id, 0) < cpus.len()
}

proof fn lemma_slot(cpus: Seq<Cpu>, j: int, i: int)
    requires
        distinct_ids(cpus),
        0 <= i <= j < cpus.len(),
    ensures
        slot(cpus, cpus[j].id, i) == j,
    decreases j - i,
{
    if i < j {
        lemma_slot(cpus, j, i + 1);
    }
}

proof fn lemma_members_are_of_the_core(cpus: Seq<Cpu>, k: u64, i: int) -> (j: int)
    requires
        0 <= i < members(cpus, k).len(),
    ensures
        0 <= j < cpus.len(),
        cpus[j].id == members(cpus, k)[i],
        key(cpus[j]) == k,
    decreases cpus.len(),
{
    let t = cpus.drop_last();
    if i < members(t, k).len() {
        let j = lemma_members_are_of_the_core(t, k, i);
        assert(t[j] == cpus[j]);
        j
    } else {
        cpus.len() - 1
    }
}

/// Whether the groups have members, and their first members are processors of
/// cores that all differ.
spec fn apart(cpus: Seq<Cpu>, gs: Seq<Seq<usize>>) -> bool {
    &&& forall|i: int|
        0 <= i < gs.len() ==> (#[trigger] gs[i]).len() > 0 && exists_id(cpus, gs[i][0])
    &&& forall|i: int, j: int|
        0 <= i < j < gs.len() ==> core_of(cpus, (#[trigger] gs[i])[0]) != core_of(
            cpus,
            (#[trigger] gs[j])[0],
        )
}

proof fn lemma_groups_apart(cpus: Seq<Cpu>)
    requires
        distinct_ids(cpus),
    ensures
        apart(cpus, groups(cpus)),
{
    let ks = keys(cpus);
    let rs = ranks::ranks(ks);
    let g = groups(cpus);
    ranks::lemma_ranks(ks);
    assert forall|i: int| 0 <= i < g.len() implies (#[trigger] g[i]).len() > 0 && exists_id(
        cpus,
        g[i][0],
    ) && core_of(cpus, g[i][0]) == rs[i] by {
        assert(rs.contains(rs[i]));
        let m = choose|m: int| 0 <= m < ks.len() && ks[m] == rs[i];
        lemma_members_nonempty(cpus, m);
        let j = lemma_members_are_of_the_core(cpus, rs[i], 0);
        lemma_slot(cpus, j, 0);
    }
    assert forall|i: int, j: int| 0 <= i < j < g.len() implies core_of(cpus, (#[trigger] g[i])[0])
        != core_of(cpus, (#[trigger] g[j])[0]) by {
        assert(rs[i] < rs[j]);
    }
}

/// Where the `i`th and the `j`th of the groups of one speed stand among all.
proof fn lemma_of_speed_keeps_order(
    cpus: Seq<Cpu>,
    gs: Seq<Seq<usize>>,
    v: int,
    i: int,
    j: int,
) -> (r: (int, int))
    requires
        0 <= i <= j < of_speed(cpus, gs, v).len(),
    ensures
        0 <= r.0 <= r.1 < gs.len(),
        i < j ==> r.0 < r.1,
        gs[r.0] == of_speed(cpus, gs, v)[i],
        gs[r.1] == of_speed(cpus, gs, v)[j],
        speed(cpus, gs[r.0]) == v,
        speed(cpus, gs[r.1]) == v,
    decreases gs.len(),
{
    let t = gs.drop_last();
    let o = of_speed(cpus, t, v);
    if j < o.len() {
        let r = lemma_of_speed_keeps_order(cpus, t, v, i, j);
        assert(t[r.0] == gs[r.0] && t[r.1] == gs[r.1]);
        r
    } else if i < o.len() {
        let r = lemma_of_speed_keeps_order(cpus, t, v, i, i);
        assert(t[r.0] == gs[r.0]);
        (r.0, gs.len() - 1)
    } else {
        (gs.len() - 1, gs.len() - 1)
    }
}

/// Where the `i`th and the `j`th of the groups with the fast ones first stand
/// among all. The fast ones come first, and those of one speed keep their order.
proof fn lemma_fast_first_order(cpus: Seq<Cpu>, gs: Seq<Seq<usize>>, v: int, i: int, j: int) -> (r: (
    int,
    int,
))
    requires
        0 <= i <= j < fast_first(cpus, gs, v).len(),
    ensures
        0 <= r.0 < gs.len(),
        0 <= r.1 < gs.len(),
        i < j ==> r.0 != r.1,
        gs[r.0] == fast_first(cpus, gs, v)[i],
        gs[r.1] == fast_first(cpus, gs, v)[j],
        speed(cpus, gs[r.1]) <= speed(cpus, gs[r.0]) <= v,
        i < j && speed(cpus, gs[r.0]) == speed(cpus, gs[r.1]) ==> r.0 < r.1,
    decreases v + 1,
{
    let o = of_speed(cpus, gs, v);
    let n = o.len() as int;
    let rest = fast_first(cpus, gs, v - 1);
    assert(fast_first(cpus, gs, v) == o + rest);
    if j < n {
        lemma_of_speed_keeps_order(cpus, gs, v, i, j)
    } else if i < n {
        let a = lemma_of_speed_keeps_order(cpus, gs, v, i, i);
        let b = lemma_fast_first_order(cpus, gs, v - 1, j - n, j - n);
        (a.0, b.1)
    } else {
        lemma_fast_first_order(cpus, gs, v - 1, i - n, j - n)
    }
}

proof fn lemma_fast_first_apart(cpus: Seq<Cpu>, gs: Seq<Seq<usize>>)
    requires
        apart(cpus, gs),
    ensures
        apart(cpus, fast_first(cpus, gs, 256)),
{
    let f = fast_first(cpus, gs, 256);
    assert forall|i: int| 0 <= i < f.len() implies (#[trigger] f[i]).len() > 0 && exists_id(
        cpus,
        f[i][0],
    ) by {
        let r = lemma_fast_first_order(cpus, gs, 256, i, i);
        assert(gs[r.0].len() > 0);
    }
    assert forall|i: int, j: int| 0 <= i < j < f.len() implies core_of(cpus, (#[trigger] f[i])[0])
        != core_of(cpus, (#[trigger] f[j])[0]) by {
        let r = lemma_fast_first_order(cpus, gs, 256, i, j);
        if r.0 < r.1 {
            assert(core_of(cpus, gs[r.0][0]) != core_of(cpus, gs[r.1][0]));
        } else {
            assert(core_of(cpus, gs[r.1][0]) != core_of(cpus, gs[r.0][0]));
        }
    }
}

proof fn lemma_keys_of_existing(cpus: Seq<Cpu>, list: Seq<usize>)
    requires
        forall|i: int| 0 <= i < list.len() ==> exists_id(cpus, #[trigger] list[i]),
    ensures
        keys_of(cpus, list) == Seq::new(list.len(), |i: int| core_of(cpus, list[i])),
    decreases list.len(),
{
    if list.len() > 0 {
        let t = list.drop_last();
        assert forall|i: int| 0 <= i < t.len() implies exists_id(cpus, #[trigger] t[i]) by {
            assert(t[i] == list[i]);
        }
        lemma_keys_of_existing(cpus, t);
        assert(exists_id(cpus, list[list.len() - 1]));
    }
    assert(keys_of(cpus, list) =~= Seq::new(list.len(), |i: int| core_of(cpus, list[i])));
}

/// The first members of groups that are apart cover as many cores as there are
/// groups.
proof fn lemma_heads_cover(cpus: Seq<Cpu>, gs: Seq<Seq<usize>>, list: Seq<usize>)
    requires
        apart(cpus, gs),
        list.len() <= gs.len(),
        forall|i: int| 0 <= i < list.len() ==> #[trigger] list[i] == gs[i][0],
    ensures
        covered(cpus, list) == list.len(),
{
    assert forall|i: int| 0 <= i < list.len() implies exists_id(cpus, #[trigger] list[i]) by {
        assert(gs[i].len() > 0);
    }
    lemma_keys_of_existing(cpus, list);
    let ks = keys_of(cpus, list);
    assert(ks.no_duplicates()) by {
        assert forall|i: int, j: int| 0 <= i < j < ks.len() implies ks[i] != ks[j] by {
            assert(list[i] == gs[i][0] && list[j] == gs[j][0]);
            assert(core_of(cpus, gs[i][0]) != core_of(cpus, gs[j][0]));
        }
    }
    ranks::lemma_ranks_of_distinct(ks);
}

proof fn lemma_keys_of_known(cpus: Seq<Cpu>, list: Seq<usize>)
    ensures
        keys_of(cpus, list).len() <= list.len(),
        forall|i: int|
            0 <= i < keys_of(cpus, list).len() ==> keys(cpus).contains(
                #[trigger] keys_of(cpus, list)[i],
            ),
    decreases list.len(),
{
    if list.len() > 0 {
        lemma_keys_of_known(cpus, list.drop_last());
        let s = slot(cpus, list.last(), 0);
        lemma_slot_is_no_less(cpus, list.last(), 0);
        if s < cpus.len() {
            assert(keys(cpus)[s] == key(cpus[s]));
        }
        let ks = keys_of(cpus, list);
        let head = keys_of(cpus, list.drop_last());
        assert forall|i: int| 0 <= i < ks.len() implies keys(cpus).contains(#[trigger] ks[i]) by {
            if i < head.len() {
                assert(ks[i] == head[i]);
            }
        }
    }
}

proof fn lemma_slot_is_no_less(cpus: Seq<Cpu>, id: usize, i: int)
    ensures
        slot(cpus, id, i) >= i,
    decreases cpus.len() - i,
{
    if 0 <= i < cpus.len() && cpus[i].id != id {
        lemma_slot_is_no_less(cpus, id, i + 1);
    }
}

proof fn lemma_keys_of_prefix(cpus: Seq<Cpu>, list: Seq<usize>, k: int, x: u64)
    requires
        0 <= k <= list.len(),
        keys_of(cpus, list.take(k)).contains(x),
    ensures
        keys_of(cpus, list).contains(x),
    decreases list.len() - k,
{
    if k == list.len() {
        assert(list.take(k) =~= list);
    } else {
        let t = list.drop_last();
        assert(t.take(k) =~= list.take(k));
        lemma_keys_of_prefix(cpus, t, k, x);
        let a = keys_of(cpus, t);
        let i = choose|i: int| 0 <= i < a.len() && a[i] == x;
        assert(keys_of(cpus, list)[i] == x);
    }
}

/// No list covers more cores than it is long, nor more than there are.
pub proof fn law_no_list_covers_more(cpus: Seq<Cpu>, list: Seq<usize>)
    ensures
        covered(cpus, list) <= list.len(),
        covered(cpus, list) <= groups(cpus).len(),
{
    lemma_keys_of_known(cpus, list);
    ranks::lemma_ranks(keys_of(cpus, list));
    ranks::lemma_ranks_within(keys_of(cpus, list), keys(cpus));
}

/// One processor of each core: as many as there are cores, each the first of its
/// core, and together they cover every core once.
pub proof fn law_one_per_core_covers_every_core(cpus: Seq<Cpu>)
    requires
        distinct_ids(cpus),
    ensures
        row(groups(cpus), 0).len() == groups(cpus).len(),
        forall|i: int|
            0 <= i < groups(cpus).len() ==> #[trigger] row(groups(cpus), 0)[i] == groups(
                cpus,
            )[i][0],
        covered(cpus, row(groups(cpus), 0)) == groups(cpus).len(),
{
    let g = groups(cpus);
    lemma_groups_apart(cpus);
    lemma_first_row(g);
    lemma_heads_cover(cpus, g, row(g, 0));
}

/// However many workers there are, the order puts them on as many cores as so
/// many processors can cover.
pub proof fn law_every_beginning_of_spread_covers_the_most(cpus: Seq<Cpu>, k: int)
    requires
        distinct_ids(cpus),
        cpus.len() > 0,
        cores_known(cpus),
        0 <= k <= spread_of(cpus).len(),
    ensures
        covered(cpus, spread_of(cpus).take(k)) == (if k < groups(cpus).len() {
            k
        } else {
            groups(cpus).len() as int
        }),
{
    let g = groups(cpus);
    let n = g.len() as int;
    let gs = fast_first(cpus, g, 256);
    let s = spread_of(cpus);
    lemma_groups_apart(cpus);
    lemma_fast_first_apart(cpus, g);
    law_spread_books_every_core_first(cpus);
    assert forall|i: int| 0 <= i < n implies #[trigger] s[i] == gs[i][0] by {
        assert(s.take(n)[i] == s[i]);
    }
    law_no_list_covers_more(cpus, s.take(k));
    if k <= n {
        lemma_heads_cover(cpus, gs, s.take(k));
    } else {
        lemma_heads_cover(cpus, gs, s.take(n));
        let a = keys_of(cpus, s.take(n));
        let b = keys_of(cpus, s.take(k));
        assert forall|i: int| 0 <= i < a.len() implies b.contains(#[trigger] a[i]) by {
            assert(s.take(k).take(n) =~= s.take(n));
            lemma_keys_of_prefix(cpus, s.take(k), n, a[i]);
        }
        ranks::lemma_ranks_within(a, b);
    }
}

/// Where two cores stand in the order: the faster one first, and of two that are
/// as fast, the one with the lower number. A core without a class is slowest.
pub proof fn law_fast_cores_come_first(cpus: Seq<Cpu>, i: int, j: int) -> (r: (int, int))
    requires
        0 <= i < j < fast_first(cpus, groups(cpus), 256).len(),
    ensures
        0 <= r.0 < groups(cpus).len(),
        0 <= r.1 < groups(cpus).len(),
        fast_first(cpus, groups(cpus), 256)[i] == groups(cpus)[r.0],
        fast_first(cpus, groups(cpus), 256)[j] == groups(cpus)[r.1],
        speed(cpus, groups(cpus)[r.0]) >= speed(cpus, groups(cpus)[r.1]),
        speed(cpus, groups(cpus)[r.0]) == speed(cpus, groups(cpus)[r.1]) ==> r.0 < r.1,
{
    lemma_fast_first_order(cpus, groups(cpus), 256, i, j)
}

// ---------------------------------------------------------------------------
// Lists as text

/// The index of the last of the numbers from `i` on that follow each other.
pub open spec fn run_end(v: Seq<usize>, i: int) -> int
    decreases v.len() - i,
{
    if 0 <= i && i + 1 < v.len() && v[i + 1] == v[i] + 1 {
        run_end(v, i + 1)
    } else {
        i
    }
}

/// The numbers from `a` to `b`: one of them, or a range.
pub open spec fn range_text(a: usize, b: usize) -> Seq<char> {
    if a == b {
        text::dec(a as nat)
    } else {
        text::dec(a as nat) + "-"@ + text::dec(b as nat)
    }
}

pub proof fn lemma_run_end(v: Seq<usize>, i: int)
    requires
        0 <= i < v.len(),
    ensures
        i <= run_end(v, i) < v.len(),
        forall|k: int| i <= k <= run_end(v, i) ==> v[k] == v[i] + (k - i),
    decreases v.len() - i,
{
    if i + 1 < v.len() && v[i + 1] == v[i] + 1 {
        lemma_run_end(v, i + 1);
    }
}

/// A list from index `i` on: runs as ranges, commas between them.
pub open spec fn list_text(v: Seq<usize>, i: int) -> Seq<char>
    decreases v.len() - i,
{
    if i < 0 || i >= v.len() {
        Seq::empty()
    } else {
        let e = run_end(v, i);
        proof {
            lemma_run_end(v, i);
        }
        if e + 1 < v.len() {
            range_text(v[i], v[e]) + ","@ + list_text(v, e + 1)
        } else {
            range_text(v[i], v[e])
        }
    }
}

/// A list of processors as a pin list is written: `0-3,8-11`.
pub fn fmt_list(v: &[usize]) -> (s: String)
    ensures
        s@ == list_text(v@, 0),
{
    let mut s = String::new();
    let mut i: usize = 0;
    assert(s@ + list_text(v@, 0) =~= list_text(v@, 0));
    while i < v.len()
        invariant
            i <= v.len(),
            s@ + list_text(v@, i as int) == list_text(v@, 0),
        decreases v.len() - i,
    {
        let ghost was = s@;
        let start: usize = v[i];
        let mut e: usize = i;
        while e + 1 < v.len() && v[e] < usize::MAX && v[e + 1] == v[e] + 1
            invariant
                i <= e < v.len(),
                run_end(v@, i as int) == run_end(v@, e as int),
            decreases v.len() - e,
        {
            e += 1;
        }
        let end: usize = v[e];
        proof {
            lemma_run_end(v@, i as int);
        }
        push_dec(&mut s, start as u64);
        if start != end {
            s.append("-");
            push_dec(&mut s, end as u64);
        }
        assert(s@ =~= was + range_text(start, end));
        if e + 1 < v.len() {
            s.append(",");
            assert(was + (range_text(start, end) + ","@ + list_text(v@, e + 1)) =~= s@ + list_text(
                v@,
                e + 1,
            ));
        } else {
            assert(s@ + list_text(v@, e + 1) =~= was + range_text(start, end));
        }
        i = e + 1;
    }
    assert(s@ + list_text(v@, i as int) =~= s@);
    s
}

/// The first and the last of the numbers that a part of a list stands for: `a`
/// for one, `a-b` with `a` below `b` for all from `a` to `b`.
#[verifier::opaque]
pub open spec fn part_ends(p: Seq<char>) -> Option<(nat, nat)> {
    if text::has(p, '-') {
        match (
            text::number_in(text::before(p, '-'), 10, usize::MAX as nat),
            text::number_in(text::behind(p, '-'), 10, usize::MAX as nat),
        ) {
            (Some(a), Some(b)) => if a < b {
                Some((a, b))
            } else {
                None
            },
            _ => None,
        }
    } else {
        match text::number_in(p, 10, usize::MAX as nat) {
            Some(a) => Some((a, a)),
            None => None,
        }
    }
}

/// The numbers that the parts stand for, one part after the other.
pub open spec fn expanded(ps: Seq<Seq<char>>) -> Option<Seq<usize>>
    decreases ps.len(),
{
    if ps.len() == 0 {
        Some(Seq::empty())
    } else {
        match (part_ends(ps[0]), expanded(ps.drop_first())) {
            (Some((a, b)), Some(rest)) => Some(
                Seq::new((b - a + 1) as nat, |k: int| (a + k) as usize) + rest,
            ),
            _ => None,
        }
    }
}

/// Whether no part goes on where the one before it ends.
pub open spec fn maximal(ps: Seq<Seq<char>>) -> bool {
    forall|j: int|
        0 <= j < ps.len() - 1 ==> (#[trigger] part_ends(ps[j])) is Some && part_ends(ps[j + 1]) is Some
            && part_ends(ps[j])->Some_0.1 + 1 != part_ends(ps[j + 1])->Some_0.0
}

proof fn lemma_run_stops(v: Seq<usize>, i: int)
    requires
        0 <= i < v.len(),
    ensures
        run_end(v, i) + 1 < v.len() ==> v[run_end(v, i) + 1] != v[run_end(v, i)] + 1,
    decreases v.len() - i,
{
    if i + 1 < v.len() && v[i + 1] == v[i] + 1 {
        lemma_run_stops(v, i + 1);
    }
}

proof fn lemma_part_ends(a: usize, b: usize)
    requires
        a <= b,
    ensures
        part_ends(range_text(a, b)) == Some((a as nat, b as nat)),
        range_text(a, b).len() > 0,
        forall|k: int| 0 <= k < range_text(a, b).len() ==> range_text(a, b)[k] != ',',
{
    reveal(part_ends);
    let t = range_text(a, b);
    let x = text::dec(a as nat);
    let y = text::dec(b as nat);
    text::lemma_dec(a as nat);
    text::lemma_dec(b as nat);
    text::lemma_dec_reads_back(a as nat, usize::MAX as nat);
    text::lemma_dec_reads_back(b as nat, usize::MAX as nat);
    if a == b {
        text::lemma_index_behind(x, Seq::empty(), '-', 0);
        assert(x + Seq::<char>::empty() =~= x);
    } else {
        reveal_strlit("-");
        assert("-"@ =~= seq!['-']);
        assert(t =~= x + (seq!['-'] + y));
        text::lemma_index_behind(x, seq!['-'] + y, '-', 0);
        assert((seq!['-'] + y)[0] == '-');
        assert(text::before(t, '-') =~= x);
        assert(text::behind(t, '-') =~= y);
    }
}

/// The numbers from `a` to `b`.
spec fn span(a: nat, b: nat) -> Seq<usize> {
    Seq::new((b - a + 1) as nat, |k: int| (a + k) as usize)
}

proof fn lemma_expanded_head(t: Seq<char>, ps: Seq<Seq<char>>, rest: Seq<usize>, a: nat, b: nat)
    requires
        part_ends(t) == Some((a, b)),
        expanded(ps) == Some(rest),
    ensures
        expanded(seq![t] + ps) == Some(span(a, b) + rest),
{
    let qs = seq![t] + ps;
    assert(qs.drop_first() =~= ps);
    assert(qs[0] == t);
}

proof fn lemma_maximal_head(t: Seq<char>, ps: Seq<Seq<char>>)
    requires
        part_ends(t) is Some,
        maximal(ps),
        ps.len() > 0 ==> part_ends(ps[0]) is Some && part_ends(t)->Some_0.1 + 1 != part_ends(
            ps[0],
        )->Some_0.0,
    ensures
        maximal(seq![t] + ps),
{
    let qs = seq![t] + ps;
    assert forall|j: int| 0 <= j < qs.len() - 1 implies (#[trigger] part_ends(qs[j])) is Some
        && part_ends(qs[j + 1]) is Some && part_ends(qs[j])->Some_0.1 + 1 != part_ends(
        qs[j + 1],
    )->Some_0.0 by {
        assert(qs[j + 1] == ps[j]);
        if j > 0 {
            assert(qs[j] == ps[j - 1]);
            assert(part_ends(ps[j - 1]) is Some);
        }
    }
}

proof fn lemma_run_is_a_span(v: Seq<usize>, i: int)
    requires
        0 <= i < v.len(),
    ensures
        span(v[i] as nat, v[run_end(v, i)] as nat) == v.subrange(i, run_end(v, i) + 1),
{
    let e = run_end(v, i);
    lemma_run_end(v, i);
    let run = span(v[i] as nat, v[e] as nat);
    assert(run.len() == e + 1 - i);
    assert forall|k: int| 0 <= k < run.len() implies run[k] == v.subrange(i, e + 1)[k] by {
        assert(v[i + k] == v[i] + k);
    }
    assert(run =~= v.subrange(i, e + 1));
}

proof fn lemma_list_expands(v: Seq<usize>, i: int)
    requires
        0 <= i < v.len(),
    ensures
        ({
            let ps = text::pieces(list_text(v, i), ',');
            &&& list_text(v, i).len() > 0
            &&& ps.len() > 0
            &&& part_ends(ps[0]) == Some((v[i] as nat, v[run_end(v, i)] as nat))
            &&& expanded(ps) == Some(v.skip(i))
            &&& maximal(ps)
        }),
    decreases v.len() - i,
{
    let e = run_end(v, i);
    lemma_run_end(v, i);
    lemma_run_stops(v, i);
    lemma_run_is_a_span(v, i);
    let (a, b) = (v[i] as nat, v[e] as nat);
    let t = range_text(v[i], v[e]);
    lemma_part_ends(v[i], v[e]);
    if e + 1 < v.len() {
        let rest = list_text(v, e + 1);
        reveal_strlit(",");
        assert(","@ =~= seq![',']);
        text::lemma_pieces_head(t, rest, ',');
        let ps = text::pieces(rest, ',');
        lemma_list_expands(v, e + 1);
        lemma_expanded_head(t, ps, v.skip(e + 1), a, b);
        lemma_maximal_head(t, ps);
        assert((seq![t] + ps)[0] == t);
        assert(v.subrange(i, e + 1) + v.skip(e + 1) =~= v.skip(i));
    } else {
        text::lemma_pieces_head(t, Seq::empty(), ',');
        let none = Seq::<Seq<char>>::empty();
        assert(expanded(none) == Some(Seq::<usize>::empty()));
        lemma_expanded_head(t, none, Seq::empty(), a, b);
        lemma_maximal_head(t, none);
        assert(seq![t] + none =~= seq![t]);
        assert(v.subrange(i, e + 1) + Seq::<usize>::empty() =~= v.skip(i));
    }
}

/// A printed list stands for the numbers that were printed, in their order and
/// with every repeat, and none of its parts could be joined with the next. The
/// empty list alone is printed as nothing.
pub proof fn law_a_printed_list_stands_for_its_numbers(v: Seq<usize>)
    ensures
        list_text(v, 0).len() == 0 <==> v.len() == 0,
        v.len() > 0 ==> expanded(text::pieces(list_text(v, 0), ',')) == Some(v),
        v.len() > 0 ==> maximal(text::pieces(list_text(v, 0), ',')),
{
    if v.len() > 0 {
        lemma_list_expands(v, 0);
        assert(v.skip(0) =~= v);
    }
}

// ---------------------------------------------------------------------------
// The map as text

/// `s` with blanks behind it, so that it is at least `w` characters long.
pub open spec fn left(s: Seq<char>, w: nat) -> Seq<char> {
    if s.len() >= w {
        s
    } else {
        s + Seq::new((w - s.len()) as nat, |i: int| ' ')
    }
}

pub(crate) fn push_left(t: &mut String, s: &str, w: usize)
    ensures
        final(t)@ == old(t)@ + left(s@, w as nat),
{
    t.append(s);
    let n: usize = s.unicode_len();
    let mut k: usize = n;
    while k < w
        invariant
            n <= k,
            k <= w || k == n,
            t@ == old(t)@ + s@ + Seq::new((k - n) as nat, |i: int| ' '),
        decreases w - k,
    {
        t.push(' ');
        k += 1;
        assert(t@ =~= old(t)@ + s@ + Seq::new((k - n) as nat, |i: int| ' '));
    }
    assert(t@ =~= old(t)@ + left(s@, w as nat));
}

/// Numbers with commas between them.
pub open spec fn commas(v: Seq<usize>) -> Seq<char>
    decreases v.len(),
{
    if v.len() == 0 {
        Seq::empty()
    } else if v.len() == 1 {
        text::dec(v[0] as nat)
    } else {
        commas(v.drop_last()) + ","@ + text::dec(v.last() as nat)
    }
}

fn push_commas(t: &mut String, v: &[usize])
    ensures
        final(t)@ == old(t)@ + commas(v@),
{
    let mut i: usize = 0;
    assert(v@.take(0) =~= Seq::<usize>::empty());
    assert(t@ =~= old(t)@ + commas(v@.take(0)));
    while i < v.len()
        invariant
            i <= v.len(),
            t@ == old(t)@ + commas(v@.take(i as int)),
        decreases v.len() - i,
    {
        let ghost was = t@;
        assert(v@.take(i + 1).drop_last() =~= v@.take(i as int));
        if i > 0 {
            t.append(",");
        }
        push_dec(t, v[i] as u64);
        i += 1;
        assert(t@ =~= old(t)@ + commas(v@.take(i as int)));
    }
    assert(v@.take(i as int) =~= v@);
}

/// How siblings are numbered, as text.
pub open spec fn strides_text(v: Seq<u64>) -> Seq<char>
    decreases v.len(),
{
    if v.len() == 0 {
        Seq::empty()
    } else if v.len() == 1 {
        "n/n+"@ + text::dec(v[0] as nat)
    } else {
        strides_text(v.drop_last()) + ", n/n+"@ + text::dec(v.last() as nat)
    }
}

/// How far apart siblings are numbered, if the cores are known.
pub open spec fn strides(cpus: Seq<Cpu>) -> Seq<u64> {
    if cpus.len() > 0 && cores_known(cpus) {
        ranks::ranks(all_steps(groups(cpus)))
    } else {
        Seq::empty()
    }
}

pub(crate) fn push_strides(t: &mut String, v: &[usize])
    ensures
        final(t)@ == old(t)@ + strides_text(Seq::new(v@.len(), |i: int| v@[i] as u64)),
{
    let ghost w = Seq::new(v@.len(), |i: int| v@[i] as u64);
    let mut i: usize = 0;
    assert(w.take(0) =~= Seq::<u64>::empty());
    assert(t@ =~= old(t)@ + strides_text(w.take(0)));
    while i < v.len()
        invariant
            i <= v.len(),
            w == Seq::new(v@.len(), |i: int| v@[i] as u64),
            t@ == old(t)@ + strides_text(w.take(i as int)),
        decreases v.len() - i,
    {
        assert(w.take(i + 1).drop_last() =~= w.take(i as int));
        if i > 0 {
            t.append(", n/n+");
        } else {
            t.append("n/n+");
        }
        push_dec(t, v[i] as u64);
        i += 1;
        assert(t@ =~= old(t)@ + strides_text(w.take(i as int)));
    }
    assert(w.take(i as int) =~= w);
}

/// What a class is called: the highest of several is P, the lowest E.
pub open spec fn label(cpus: Seq<Cpu>, class: Option<u8>) -> Seq<char> {
    let cl = class_list(cpus);
    match class {
        None => "-"@,
        Some(c) => if cl.len() >= 2 && cl.last() == c {
            "P"@
        } else if cl.len() >= 2 && cl[0] == c {
            "E"@
        } else {
            text::dec(c as nat)
        },
    }
}

/// The packages, each once, in increasing order.
pub open spec fn ranks_of_packages(cpus: Seq<Cpu>) -> Seq<u64> {
    ranks::ranks(Seq::new(cpus.len(), |i: int| cpus[i].package as u64))
}

pub open spec fn sockets_text(cpus: Seq<Cpu>) -> Seq<char> {
    if cpus.len() > 0 && (forall|i: int| 0 <= i < cpus.len() ==> (#[trigger] cpus[i]).package >= 0) {
        text::dec(ranks_of_packages(cpus).len()) + " socket(s)"@
    } else {
        "sockets unknown"@
    }
}

pub open spec fn cores_text(cpus: Seq<Cpu>) -> Seq<char> {
    if cpus.len() > 0 && cores_known(cpus) {
        text::dec(groups(cpus).len()) + " physical cores"@
    } else {
        "physical cores unknown"@
    }
}

/// The lines above the table.
pub open spec fn head_text(model: Seq<char>, source: Seq<char>, cpus: Seq<Cpu>) -> Seq<char> {
    "plaine-miner topology\n\n"@ + (if model.len() == 0 {
        ""@
    } else {
        "  model    "@ + model + "\n"@
    }) + "  source   "@ + source + "\n  machine  "@ + sockets_text(cpus) + ", "@ + cores_text(cpus)
        + ", "@ + text::dec(cpus.len()) + " logical processors\n"@
}

/// The cache of a core as text.
pub open spec fn l2_text(c: Cpu, n: nat) -> Seq<char> {
    match c.l2_kib {
        None => "-"@,
        Some(k) => match c.l2_shared {
            Some(m) => if m > n {
                text::dec(k as nat) + " KiB shared by "@ + text::dec(m as nat) + " CPUs"@
            } else {
                text::dec(k as nat) + " KiB"@
            },
            None => text::dec(k as nat) + " KiB"@,
        },
    }
}

/// One line of the table.
pub open spec fn core_line(cpus: Seq<Cpu>, g: Seq<usize>) -> Seq<char> {
    if g.len() == 0 || slot(cpus, g[0], 0) >= cpus.len() {
        ""@
    } else {
        let c = cpus[slot(cpus, g[0], 0)];
        "  "@ + left(text::dec(c.package as nat), 7) + " "@ + left(text::dec(c.core as nat), 5)
            + " "@ + left(label(cpus, c.class), 6) + " "@ + left(commas(g), 22) + " "@ + l2_text(
            c,
            g.len(),
        ) + "\n"@
    }
}

/// The lines of the cores.
pub open spec fn core_lines(cpus: Seq<Cpu>, gs: Seq<Seq<usize>>) -> Seq<char>
    decreases gs.len(),
{
    if gs.len() == 0 {
        "\n  socket  core  class  CPUs                   L2\n"@
    } else {
        core_lines(cpus, gs.drop_last()) + core_line(cpus, gs.last())
    }
}

/// The table of the cores, or the processors where the cores are not known.
pub open spec fn table_text(cpus: Seq<Cpu>) -> Seq<char> {
    if cpus.len() > 0 && cores_known(cpus) {
        core_lines(cpus, groups(cpus))
    } else {
        "\n  CPUs     "@ + commas(ids(cpus)) + "\n"@
    }
}

/// What is said about siblings.
pub open spec fn smt_text(cpus: Seq<Cpu>) -> Seq<char> {
    if strides(cpus).len() == 0 {
        "\n  SMT      no sibling reported: one logical processor per core\n"@
    } else {
        "\n  SMT      siblings are numbered "@ + strides_text(strides(cpus))
            + " on this machine\n           it is n/n+1 on most desktop parts and n/n+28 on a dual\n           Broadwell, so a pin list copied from another machine can\n           silently double-book every core here\n"@
    }
}

/// The line of one class.
pub open spec fn class_line(cpus: Seq<Cpu>, c: u8) -> Seq<char> {
    let v = ids_of_class(cpus, c);
    "  class "@ + text::dec(c as nat) + "  "@ + label(cpus, Some(c)) + " - "@ + text::dec(v.len())
        + " CPUs: "@ + commas(v) + "\n"@
}

/// The lines of the classes from the highest down to the one at index `i`.
pub open spec fn class_lines(cpus: Seq<Cpu>, i: int) -> Seq<char>
    decreases class_list(cpus).len() - i,
{
    let cl = class_list(cpus);
    if i < 0 || i >= cl.len() {
        Seq::empty()
    } else {
        class_lines(cpus, i + 1) + class_line(cpus, cl[i] as u8)
    }
}

/// What is said about classes.
pub open spec fn classes_text(cpus: Seq<Cpu>) -> Seq<char> {
    if class_list(cpus).len() > 1 {
        class_lines(cpus, 0)
            + "           efficiency cores run about 28% fewer hashes per clock at the\n           frozen 64 KiB pad, so a rate measured over a mix of both\n           is a machine total and not a per-core figure\n"@
    } else {
        ""@
    }
}

/// Whether some core has more than one processor.
pub open spec fn has_siblings(cpus: Seq<Cpu>) -> bool {
    cpus.len() > 0 && cores_known(cpus) && exists|k: int|
        0 <= k < groups(cpus).len() && (#[trigger] groups(cpus)[k]).len() > 1
}

/// The pin lists that fit this machine.
pub open spec fn pins_text(cpus: Seq<Cpu>) -> Seq<char> {
    "\n  ready-made pin lists\n"@ + core_pins_text(cpus) + fast_pins_text(cpus)
        + "    every processor       --threads "@ + text::dec(cpus.len()) + "   (the default)\n"@
}

/// The list of one processor for each core, where cores have more.
pub open spec fn core_pins_text(cpus: Seq<Cpu>) -> Seq<char> {
    if has_siblings(cpus) {
        "    one thread per core   --cpu-affinity "@ + list_text(row(groups(cpus), 0), 0) + "\n"@
    } else {
        ""@
    }
}

/// The list of the fast processors, where some are slower.
pub open spec fn fast_pins_text(cpus: Seq<Cpu>) -> Seq<char> {
    if class_list(cpus).len() >= 2 {
        "    performance cores     --cpu-affinity "@ + list_text(
            ids_of_class(cpus, class_list(cpus).last() as u8),
            0,
        ) + "\n"@
    } else {
        ""@
    }
}

/// The notes, each in a paragraph of its own.
pub open spec fn notes_text(notes: Seq<String>) -> Seq<char>
    decreases notes.len(),
{
    if notes.len() == 0 {
        ""@
    } else {
        notes_text(notes.drop_last()) + "\n  note: "@ + notes.last()@ + "\n"@
    }
}

/// The map of a machine.
pub open spec fn map_text(t: Topology) -> Seq<char> {
    head_text(t.model@, t.source@, t.cpus@) + table_text(t.cpus@) + smt_text(t.cpus@)
        + classes_text(t.cpus@) + pins_text(t.cpus@) + notes_text(t.notes@)
}

fn l2_of(c: &Cpu, n: usize) -> (t: String)
    ensures
        t@ == l2_text(*c, n as nat),
{
    match c.l2_kib {
        None => "-".to_owned(),
        Some(k) => {
            let mut t = text::dec_of(k as u64);
            match c.l2_shared {
                Some(m) => if m > n {
                    t.append(" KiB shared by ");
                    push_dec(&mut t, m as u64);
                    t.append(" CPUs");
                } else {
                    t.append(" KiB");
                },
                None => t.append(" KiB"),
            }
            t
        },
    }
}

impl Topology {
    /// What a class is called.
    pub fn class_label(&self, class: Option<u8>) -> (r: String)
        ensures
            r@ == label(self.cpus@, class),
    {
        let v = self.classes();
        let ghost cl = class_list(self.cpus@);
        proof {
            let s = Seq::new(v@.len(), |i: int| v@[i] as u64);
            assert(s.len() == v@.len());
            assert(v@.len() > 0 ==> s.last() == v@.last() as u64 && s[0] == v@[0] as u64);
        }
        match class {
            None => "-".to_owned(),
            Some(c) => {
                if v.len() >= 2 && v[v.len() - 1] == c {
                    "P".to_owned()
                } else if v.len() >= 2 && v[0] == c {
                    "E".to_owned()
                } else {
                    text::dec_of(c as u64)
                }
            },
        }
    }

    /// How many sockets there are, in words.
    fn sockets(&self) -> (t: String)
        ensures
            t@ == sockets_text(self.cpus@),
    {
        match self.packages() {
            Some(n) => {
                let mut t = text::dec_of(n as u64);
                t.append(" socket(s)");
                t
            },
            None => "sockets unknown".to_owned(),
        }
    }

    /// How many cores there are, in words.
    fn core_count(&self) -> (t: String)
        ensures
            t@ == cores_text(self.cpus@),
    {
        match self.cores() {
            Some(c) => {
                assert(group_views(c@).len() == c@.len());
                let mut t = text::dec_of(c.len() as u64);
                t.append(" physical cores");
                t
            },
            None => "physical cores unknown".to_owned(),
        }
    }

    fn push_head(&self, t: &mut String)
        ensures
            final(t)@ == old(t)@ + head_text(self.model@, self.source@, self.cpus@),
    {
        let mut h = "plaine-miner topology\n\n".to_owned();
        if self.model.as_str().unicode_len() == 0 {
            h.append("");
        } else {
            let mut m = "  model    ".to_owned();
            m.append(&self.model);
            m.append("\n");
            h.append(&m);
        }
        h.append("  source   ");
        h.append(self.source);
        h.append("\n  machine  ");
        h.append(&self.sockets());
        h.append(", ");
        h.append(&self.core_count());
        h.append(", ");
        push_dec(&mut h, self.cpus.len() as u64);
        h.append(" logical processors\n");
        assert(h@ == head_text(self.model@, self.source@, self.cpus@));
        t.append(&h);
    }

    fn push_core(&self, t: &mut String, g: &Vec<usize>)
        requires
            cores_known(self.cpus@),
        ensures
            final(t)@ == old(t)@ + core_line(self.cpus@, g@),
    {
        if g.len() == 0 {
            assert(t@ =~= old(t)@ + ""@) by {
                reveal_strlit("");
            }
            return;
        }
        let i: usize = slot_of(&self.cpus, g[0]);
        if i >= self.cpus.len() {
            assert(t@ =~= old(t)@ + ""@) by {
                reveal_strlit("");
            }
            return;
        }
        let c: &Cpu = &self.cpus[i];
        let mut list = String::new();
        push_commas(&mut list, g);
        assert(list@ =~= commas(g@));
        let mut line = "  ".to_owned();
        push_left(&mut line, &text::dec_of(c.package as u64), 7);
        line.append(" ");
        push_left(&mut line, &text::dec_of(c.core as u64), 5);
        line.append(" ");
        push_left(&mut line, &self.class_label(c.class), 6);
        line.append(" ");
        push_left(&mut line, &list, 22);
        line.append(" ");
        line.append(&l2_of(c, g.len()));
        line.append("\n");
        assert(line@ == core_line(self.cpus@, g@));
        t.append(&line);
    }

    fn push_table(&self, t: &mut String)
        ensures
            final(t)@ == old(t)@ + table_text(self.cpus@),
    {
        match self.cores() {
            Some(gs) => {
                let ghost s = groups(self.cpus@);
                t.append("\n  socket  core  class  CPUs                   L2\n");
                let mut i: usize = 0;
                assert(s.take(0) =~= Seq::<Seq<usize>>::empty());
                while i < gs.len()
                    invariant
                        i <= gs.len(),
                        group_views(gs@) == s,
                        cores_known(self.cpus@),
                        t@ == old(t)@ + core_lines(self.cpus@, s.take(i as int)),
                    decreases gs.len() - i,
                {
                    assert(s.take(i + 1).drop_last() =~= s.take(i as int));
                    assert(s[i as int] == gs@[i as int]@);
                    self.push_core(t, &gs[i]);
                    i += 1;
                    assert(t@ =~= old(t)@ + core_lines(self.cpus@, s.take(i as int)));
                }
                assert(s.take(i as int) =~= s);
            },
            None => {
                t.append("\n  CPUs     ");
                push_commas(t, &self.all_ids());
                t.append("\n");
                assert(t@ =~= old(t)@ + table_text(self.cpus@));
            },
        }
    }

    fn push_smt(&self, t: &mut String)
        ensures
            final(t)@ == old(t)@ + smt_text(self.cpus@),
    {
        let v = self.sibling_strides();
        let ghost w = Seq::new(v@.len(), |i: int| v@[i] as u64);
        assert(w == strides(self.cpus@));
        assert(w.len() == v@.len());
        if v.len() == 0 {
            t.append("\n  SMT      no sibling reported: one logical processor per core\n");
        } else {
            t.append("\n  SMT      siblings are numbered ");
            push_strides(t, &v);
            t.append(
                " on this machine\n           it is n/n+1 on most desktop parts and n/n+28 on a dual\n           Broadwell, so a pin list copied from another machine can\n           silently double-book every core here\n",
            );
        }
        assert(t@ =~= old(t)@ + smt_text(self.cpus@));
    }

    fn push_class(&self, t: &mut String, c: u8)
        ensures
            final(t)@ == old(t)@ + class_line(self.cpus@, c),
    {
        let v = of_class(&self.cpus, c);
        t.append("  class ");
        push_dec(t, c as u64);
        t.append("  ");
        t.append(&self.class_label(Some(c)));
        t.append(" - ");
        push_dec(t, v.len() as u64);
        t.append(" CPUs: ");
        push_commas(t, &v);
        t.append("\n");
        assert(t@ =~= old(t)@ + class_line(self.cpus@, c));
    }

    fn push_classes(&self, t: &mut String)
        ensures
            final(t)@ == old(t)@ + classes_text(self.cpus@),
    {
        let v = self.classes();
        let ghost cl = class_list(self.cpus@);
        let ghost w = Seq::new(v@.len(), |i: int| v@[i] as u64);
        assert(w == cl);
        assert(w.len() == v@.len());
        if v.len() <= 1 {
            assert(t@ =~= old(t)@ + ""@) by {
                reveal_strlit("");
            }
            return;
        }
        let mut i: usize = v.len();
        assert(t@ =~= old(t)@ + class_lines(self.cpus@, i as int));
        while i > 0
            invariant
                i <= v.len(),
                cl == class_list(self.cpus@),
                cl == Seq::new(v@.len(), |i: int| v@[i] as u64),
                cl.len() == v@.len(),
                t@ == old(t)@ + class_lines(self.cpus@, i as int),
            decreases i,
        {
            i -= 1;
            assert(cl[i as int] as u8 == v@[i as int]);
            self.push_class(t, v[i]);
            assert(t@ =~= old(t)@ + class_lines(self.cpus@, i as int));
        }
        t.append(
            "           efficiency cores run about 28% fewer hashes per clock at the\n           frozen 64 KiB pad, so a rate measured over a mix of both\n           is a machine total and not a per-core figure\n",
        );
        assert(t@ =~= old(t)@ + classes_text(self.cpus@));
    }

    fn push_core_pins(&self, t: &mut String)
        ensures
            final(t)@ == old(t)@ + core_pins_text(self.cpus@),
    {
        let siblings: bool = self.smt();
        match self.one_per_core() {
            Some(v) => {
                if siblings {
                    t.append("    one thread per core   --cpu-affinity ");
                    t.append(&fmt_list(&v));
                    t.append("\n");
                } else {
                    t.append("");
                }
            },
            None => t.append(""),
        }
        assert(t@ =~= old(t)@ + core_pins_text(self.cpus@));
    }

    fn push_fast_pins(&self, t: &mut String)
        ensures
            final(t)@ == old(t)@ + fast_pins_text(self.cpus@),
    {
        match self.performance_cpus() {
            Some(p) => {
                t.append("    performance cores     --cpu-affinity ");
                t.append(&fmt_list(&p));
                t.append("\n");
            },
            None => t.append(""),
        }
        assert(t@ =~= old(t)@ + fast_pins_text(self.cpus@));
    }

    fn push_pins(&self, t: &mut String)
        ensures
            final(t)@ == old(t)@ + pins_text(self.cpus@),
    {
        t.append("\n  ready-made pin lists\n");
        self.push_core_pins(t);
        self.push_fast_pins(t);
        t.append("    every processor       --threads ");
        push_dec(t, self.cpus.len() as u64);
        t.append("   (the default)\n");
        assert(t@ =~= old(t)@ + pins_text(self.cpus@));
    }

    /// The map of the machine, as it is printed.
    pub fn render(&self) -> (t: String)
        ensures
            t@ == map_text(*self),
    {
        let mut t = String::new();
        self.push_head(&mut t);
        self.push_table(&mut t);
        self.push_smt(&mut t);
        self.push_classes(&mut t);
        self.push_pins(&mut t);
        let ghost front = t@;
        let mut i: usize = 0;
        assert(self.notes@.take(0) =~= Seq::<String>::empty());
        assert(t@ =~= front + notes_text(self.notes@.take(0))) by {
            reveal_strlit("");
        }
        while i < self.notes.len()
            invariant
                i <= self.notes.len(),
                t@ == front + notes_text(self.notes@.take(i as int)),
            decreases self.notes.len() - i,
        {
            assert(self.notes@.take(i + 1).drop_last() =~= self.notes@.take(i as int));
            t.append("\n  note: ");
            t.append(&self.notes[i]);
            t.append("\n");
            i += 1;
            assert(t@ =~= front + notes_text(self.notes@.take(i as int)));
        }
        assert(self.notes@.take(i as int) =~= self.notes@);
        assert(t@ =~= map_text(*self));
        t
    }
}

// ---------------------------------------------------------------------------
// What the readings of a machine say of its processors

/// Two processors are of one core exactly where their packages and their numbers
/// in the package are the same.
pub proof fn law_a_core_is_a_package_and_a_number(c: Cpu, d: Cpu)
    requires
        c.core >= 0,
        c.package >= 0,
        d.core >= 0,
        d.package >= 0,
    ensures
        key(c) == key(d) <==> c.package == d.package && c.core == d.core,
        key(c) < key(d) <==> c.package < d.package || c.package == d.package && c.core < d.core,
{
}

/// A core holds the processors of its package and number, in the order in which
/// they stand, and no other.
pub proof fn law_a_core_holds_its_processors(cpus: Seq<Cpu>, c: Cpu, d: Cpu)
    requires
        c.core >= 0,
        c.package >= 0,
        d.core >= 0,
        d.package >= 0,
    ensures
        members(Seq::empty(), key(d)).len() == 0,
        c.package == d.package && c.core == d.core ==> members(cpus.push(c), key(d)) == members(
            cpus,
            key(d),
        ).push(c.id),
        c.package != d.package || c.core != d.core ==> members(cpus.push(c), key(d)) == members(
            cpus,
            key(d),
        ),
{
    law_a_core_is_a_package_and_a_number(c, d);
    assert(cpus.push(c).drop_last() =~= cpus);
}

/// The cores stand by their packages and then by their numbers, each once, and
/// each is a core of some processor.
pub proof fn law_cores_stand_by_number(t: &Topology, gs: Vec<Vec<usize>>, i: int, j: int) -> (r: (
    int,
    int,
))
    requires
        call_ensures(Topology::cores, (t,), Some(gs)),
        0 <= i < gs@.len(),
        i < j < gs@.len(),
    ensures
        0 <= r.0 < t.cpus@.len(),
        0 <= r.1 < t.cpus@.len(),
        gs@[i]@ == members(t.cpus@, key(t.cpus@[r.0])),
        gs@[j]@ == members(t.cpus@, key(t.cpus@[r.1])),
        t.cpus@[r.0].package < t.cpus@[r.1].package || t.cpus@[r.0].package
            == t.cpus@[r.1].package && t.cpus@[r.0].core < t.cpus@[r.1].core,
{
    let ks = keys(t.cpus@);
    let rs = ranks::ranks(ks);
    ranks::lemma_ranks(ks);
    assert(group_views(gs@) == groups(t.cpus@));
    assert(group_views(gs@)[i] == gs@[i]@);
    assert(group_views(gs@)[j] == gs@[j]@);
    assert(group_views(gs@).len() == gs@.len());
    assert(rs.contains(rs[i]) && rs.contains(rs[j]));
    let a = choose|m: int| 0 <= m < ks.len() && ks[m] == rs[i];
    let b = choose|m: int| 0 <= m < ks.len() && ks[m] == rs[j];
    law_a_core_is_a_package_and_a_number(t.cpus@[a], t.cpus@[b]);
    (a, b)
}

/// Every processor's core is among the cores.
pub proof fn law_every_processor_has_its_core(t: &Topology, gs: Vec<Vec<usize>>, i: int) -> (g: int)
    requires
        call_ensures(Topology::cores, (t,), Some(gs)),
        0 <= i < t.cpus@.len(),
    ensures
        0 <= g < gs@.len(),
        gs@[g]@ == members(t.cpus@, key(t.cpus@[i])),
{
    let ks = keys(t.cpus@);
    let rs = ranks::ranks(ks);
    ranks::lemma_ranks(ks);
    assert(ks[i] == key(t.cpus@[i]));
    assert(rs.contains(ks[i]));
    let g = choose|m: int| 0 <= m < rs.len() && rs[m] == ks[i];
    assert(group_views(gs@) == groups(t.cpus@));
    assert(group_views(gs@).len() == gs@.len());
    assert(group_views(gs@)[g] == gs@[g]@);
    g
}

/// A processor is found by its id: the first that has it.
pub proof fn law_a_processor_is_found_by_its_id(t: &Topology, id: usize, r: Option<&Cpu>, i: int)
    requires
        call_ensures(Topology::cpu, (t, id), r),
    ensures
        r matches Some(c) ==> c.id == id && t.cpus@.contains(*c),
        0 <= i < t.cpus@.len() && t.cpus@[i].id == id && (forall|k: int|
            0 <= k < i ==> (#[trigger] t.cpus@[k]).id != id) ==> r is Some && *r->Some_0
            == t.cpus@[i],
        (forall|k: int| 0 <= k < t.cpus@.len() ==> (#[trigger] t.cpus@[k]).id != id) ==> r is None,
{
    lemma_slot_first(t.cpus@, id, 0);
    let s = slot(t.cpus@, id, 0);
    if 0 <= i < t.cpus@.len() && t.cpus@[i].id == id && (forall|k: int|
        0 <= k < i ==> (#[trigger] t.cpus@[k]).id != id) {
        if s < i {
            assert(t.cpus@[s].id != id);
        }
    }
    if s < t.cpus@.len() {
        assert(t.cpus@[s].id == id);
    }
}

pub(crate) proof fn lemma_slot_first(cpus: Seq<Cpu>, id: usize, i: int)
    requires
        0 <= i <= cpus.len(),
    ensures
        i <= slot(cpus, id, i) <= cpus.len(),
        slot(cpus, id, i) < cpus.len() ==> cpus[slot(cpus, id, i)].id == id,
        forall|k: int| i <= k < slot(cpus, id, i) ==> (#[trigger] cpus[k]).id != id,
    decreases cpus.len() - i,
{
    if i < cpus.len() && cpus[i].id != id {
        lemma_slot_first(cpus, id, i + 1);
    }
}

/// A core is as fast as the class of its first processor says: a higher class is
/// faster, and none is slowest.
pub proof fn law_a_class_is_a_speed(cpus: Seq<Cpu>, g: Seq<usize>, h: Seq<usize>, i: int, j: int)
    requires
        distinct_ids(cpus),
        0 <= i < cpus.len(),
        0 <= j < cpus.len(),
        g.len() > 0,
        h.len() > 0,
        g[0] == cpus[i].id,
        h[0] == cpus[j].id,
    ensures
        speed(cpus, g) < speed(cpus, h) <==> (match (cpus[i].class, cpus[j].class) {
            (None, Some(_)) => true,
            (Some(a), Some(b)) => a < b,
            _ => false,
        }),
        speed(cpus, g) == speed(cpus, h) <==> cpus[i].class == cpus[j].class,
{
    lemma_slot(cpus, i, 0);
    lemma_slot(cpus, j, 0);
}

/// A processor more in a list covers a core more exactly where no processor
/// before it is of its core.
pub proof fn law_a_new_core_is_covered_once(cpus: Seq<Cpu>, list: Seq<usize>, i: int, k: int)
    requires
        distinct_ids(cpus),
        cores_known(cpus),
        0 <= i < cpus.len(),
        forall|m: int| 0 <= m < list.len() ==> slot(cpus, #[trigger] list[m], 0) < cpus.len(),
    ensures
        covered(cpus, Seq::empty()) == 0,
        (forall|m: int, n: int|
            0 <= m < list.len() && 0 <= n < cpus.len() && list[m] == cpus[n].id ==> cpus[n].package
                != cpus[i].package || cpus[n].core != cpus[i].core) ==> covered(
            cpus,
            list.push(cpus[i].id),
        ) == covered(cpus, list) + 1,
        0 <= k < cpus.len() && list.contains(cpus[k].id) && cpus[k].package == cpus[i].package
            && cpus[k].core == cpus[i].core ==> covered(cpus, list.push(cpus[i].id)) == covered(
            cpus,
            list,
        ),
{
    let more = list.push(cpus[i].id);
    let ks = keys_of(cpus, list);
    lemma_slot(cpus, i, 0);
    assert(more.drop_last() =~= list);
    assert(keys_of(cpus, more) == ks.push(key(cpus[i])));
    assert(ks.push(key(cpus[i])).drop_last() =~= ks);
    lemma_keys_of_existing(cpus, list);
    ranks::lemma_ranks(ks);
    let r = ranks::ranks(ks);
    let x = key(cpus[i]);
    if forall|m: int, n: int|
        0 <= m < list.len() && 0 <= n < cpus.len() && list[m] == cpus[n].id ==> cpus[n].package
            != cpus[i].package || cpus[n].core != cpus[i].core {
        assert(!ks.contains(x)) by {
            if ks.contains(x) {
                let m = choose|m: int| 0 <= m < ks.len() && ks[m] == x;
                assert(exists_id(cpus, list[m]));
                let n = slot(cpus, list[m], 0);
                lemma_slot_first(cpus, list[m], 0);
                assert(ks[m] == core_of(cpus, list[m]));
                law_a_core_is_a_package_and_a_number(cpus[n], cpus[i]);
            }
        }
        assert(!r.contains(x));
        ranks::lemma_place_new(r, x);
    }
    if 0 <= k < cpus.len() && list.contains(cpus[k].id) && cpus[k].package == cpus[i].package
        && cpus[k].core == cpus[i].core {
        let m = choose|m: int| 0 <= m < list.len() && list[m] == cpus[k].id;
        lemma_slot(cpus, k, 0);
        assert(ks[m] == core_of(cpus, list[m]));
        assert(ks[m] == x);
        assert(ks.contains(x));
        assert(r.contains(x));
        let p = choose|p: int| 0 <= p < r.len() && r[p] == x;
        ranks::lemma_place_at(r, x, p);
    }
}

/// The performance processors are those of the highest class, all of them and in
/// their order, where there is more than one class.
pub proof fn law_performance_processors_are_of_the_highest_class(
    t: &Topology,
    r: Option<Vec<usize>>,
    i: int,
    j: int,
)
    requires
        call_ensures(Topology::performance_cpus, (t,), r),
        0 <= i < t.cpus@.len(),
        0 <= j < t.cpus@.len(),
        t.cpus@[i].class is Some,
        t.cpus@[j].class is Some,
    ensures
        t.cpus@[i].class != t.cpus@[j].class ==> r is Some,
        r matches Some(v) ==> (forall|k: int|
            0 <= k < t.cpus@.len() ==> ((#[trigger] t.cpus@[k]).class matches Some(c) ==> c
                <= t.cpus@[i].class->Some_0)) ==> v@.contains(t.cpus@[i].id),
        r matches Some(v) ==> v@ == ids_of_class(t.cpus@, class_list(t.cpus@).last() as u8),
{
    let cs = class_values(t.cpus@);
    let cl = class_list(t.cpus@);
    ranks::lemma_ranks(cs);
    lemma_class_values(t.cpus@, i);
    lemma_class_values(t.cpus@, j);
    let x = t.cpus@[i].class->Some_0;
    let y = t.cpus@[j].class->Some_0;
    assert(cl.contains(x as u64) && cl.contains(y as u64));
    let p = choose|p: int| 0 <= p < cl.len() && cl[p] == x;
    let q = choose|q: int| 0 <= q < cl.len() && cl[q] == y;
    if forall|k: int|
        0 <= k < t.cpus@.len() ==> ((#[trigger] t.cpus@[k]).class matches Some(c) ==> c <= x) {
        let top = cl.last();
        assert(cl.contains(top));
        let m = choose|m: int| 0 <= m < cs.len() && cs[m] == top;
        let k = lemma_class_value_source(t.cpus@, m);
        assert(t.cpus@[k].class matches Some(c) && c <= x);
        if p < cl.len() - 1 {
            assert(cl[p] < cl[cl.len() - 1]);
        }
        assert(top == x);
        lemma_ids_of_class(t.cpus@, x, i);
    }
}

/// The processors of a class are exactly those that have it, in their order.
pub proof fn law_a_class_holds_its_processors(cpus: Seq<Cpu>, c: Cpu, k: u8)
    ensures
        ids_of_class(Seq::empty(), k).len() == 0,
        c.class == Some(k) ==> ids_of_class(cpus.push(c), k) == ids_of_class(cpus, k).push(c.id),
        c.class != Some(k) ==> ids_of_class(cpus.push(c), k) == ids_of_class(cpus, k),
{
    assert(cpus.push(c).drop_last() =~= cpus);
}

proof fn lemma_class_values(cpus: Seq<Cpu>, i: int)
    requires
        0 <= i < cpus.len(),
        cpus[i].class is Some,
    ensures
        class_values(cpus).contains(cpus[i].class->Some_0 as u64),
    decreases cpus.len(),
{
    let t = cpus.drop_last();
    let v = class_values(t);
    if i < t.len() {
        lemma_class_values(t, i);
        let m = choose|m: int| 0 <= m < v.len() && v[m] == cpus[i].class->Some_0;
        assert(class_values(cpus)[m] == v[m]);
    } else {
        assert(class_values(cpus)[v.len() as int] == cpus[i].class->Some_0);
    }
}

proof fn lemma_class_value_source(cpus: Seq<Cpu>, m: int) -> (k: int)
    requires
        0 <= m < class_values(cpus).len(),
    ensures
        0 <= k < cpus.len(),
        cpus[k].class matches Some(c) && c == class_values(cpus)[m],
    decreases cpus.len(),
{
    let t = cpus.drop_last();
    if m < class_values(t).len() {
        lemma_class_value_source(t, m)
    } else {
        cpus.len() - 1
    }
}

proof fn lemma_ids_of_class(cpus: Seq<Cpu>, c: u8, i: int)
    requires
        0 <= i < cpus.len(),
        cpus[i].class == Some(c),
    ensures
        ids_of_class(cpus, c).contains(cpus[i].id),
    decreases cpus.len(),
{
    let t = cpus.drop_last();
    let v = ids_of_class(t, c);
    if i < t.len() {
        lemma_ids_of_class(t, c, i);
        let m = choose|m: int| 0 <= m < v.len() && v[m] == cpus[i].id;
        assert(ids_of_class(cpus, c)[m] == v[m]);
    } else {
        assert(ids_of_class(cpus, c)[v.len() as int] == cpus[i].id);
    }
}

/// Workers go on one processor of each core before any core gets another: a row
/// more of a core stands behind all the rows before it, and in a row the cores
/// keep their order.
pub proof fn law_rows_take_one_of_each_core(gs: Seq<Seq<usize>>, g: Seq<usize>, r: int)
    requires
        0 <= r,
    ensures
        rows(gs, 0).len() == 0,
        rows(gs, r + 1) == rows(gs, r) + row(gs, r),
        row(Seq::empty(), r).len() == 0,
        r < g.len() ==> row(gs.push(g), r) == row(gs, r).push(g[r]),
        r >= g.len() ==> row(gs.push(g), r) == row(gs, r),
{
    assert(gs.push(g).drop_last() =~= gs);
}

} // verus!
