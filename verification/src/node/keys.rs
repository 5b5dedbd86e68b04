//! Public keys, and which of them checkpoints are held against.

use vstd::prelude::*;
use crate::miner::json;
use crate::miner::json::unhex_vec;
use crate::node::settings;
use crate::text;
use crate::text::{from_chars, push_dec, stands_at, to_chars};

verus! {

/// Where a key came from.
#[derive(Clone, Copy, Debug, PartialEq, Eq, Structural)]
pub enum KeySource {
    Embedded,
    Config,
}

/// What is known of a key: whether it is a point of the curve, the text a
/// person knows it by, and whose placeholder it is, if it is one.
#[derive(Clone, Debug, PartialEq, Eq)]
pub struct KeyFact {
    pub key: [u8; 32],
    pub valid: bool,
    pub fingerprint: String,
    pub role: Option<String>,
}

/// The first index at or behind `i` of a fact about `key`, or the number of
/// facts.
pub open spec fn fact_at(facts: Seq<KeyFact>, key: Seq<u8>, i: int) -> int
    decreases facts.len() - i,
{
    if i < 0 || i >= facts.len() {
        facts.len() as int
    } else if facts[i].key@ == key {
        i
    } else {
        fact_at(facts, key, i + 1)
    }
}

/// What is known of `key`.
pub open spec fn fact(facts: Seq<KeyFact>, key: Seq<u8>) -> Option<KeyFact> {
    let i = fact_at(facts, key, 0);
    if 0 <= i < facts.len() {
        Some(facts[i])
    } else {
        None
    }
}

/// Whether `key` is known to be a point of the curve.
pub open spec fn is_valid(facts: Seq<KeyFact>, key: Seq<u8>) -> bool {
    fact(facts, key) matches Some(f) && f.valid
}

/// The text a person knows `key` by. A key that nothing is known of has none.
pub open spec fn fingerprint(facts: Seq<KeyFact>, key: Seq<u8>) -> Seq<char> {
    match fact(facts, key) {
        Some(f) => f.fingerprint@,
        None => Seq::empty(),
    }
}

/// Whose placeholder `key` is, if it is one.
pub open spec fn role(facts: Seq<KeyFact>, key: Seq<u8>) -> Option<Seq<char>> {
    match fact(facts, key) {
        Some(f) => match f.role {
            Some(r) => Some(r@),
            None => None,
        },
        None => None,
    }
}

/// Whether two keys are the same.
pub fn same_key(a: &[u8; 32], b: &[u8; 32]) -> (r: bool)
    ensures
        r == (a@ == b@),
{
    let mut i: usize = 0;
    while i < 32
        invariant
            i <= 32,
            a@.len() == 32,
            b@.len() == 32,
            forall|k: int| 0 <= k < i ==> a@[k] == b@[k],
        decreases 32 - i,
    {
        if a[i] != b[i] {
            return false;
        }
        i += 1;
    }
    assert(a@ =~= b@);
    true
}

fn find_fact<'a>(facts: &'a [KeyFact], key: &[u8; 32]) -> (r: Option<&'a KeyFact>)
    ensures
        r is Some <==> fact(facts@, key@) is Some,
        r matches Some(f) ==> fact(facts@, key@) == Some(*f),
{
    let mut i: usize = 0;
    while i < facts.len()
        invariant
            i <= facts.len(),
            fact_at(facts@, key@, 0) == fact_at(facts@, key@, i as int),
        decreases facts.len() - i,
    {
        if same_key(&facts[i].key, key) {
            return Some(&facts[i]);
        }
        i += 1;
    }
    None
}

/// Whether `key` is known to be a point of the curve.
pub fn is_valid_pubkey(facts: &[KeyFact], key: &[u8; 32]) -> (r: bool)
    ensures
        r == is_valid(facts@, key@),
{
    match find_fact(facts, key) {
        Some(f) => f.valid,
        None => false,
    }
}

/// The text a person knows `key` by.
pub fn fingerprint_of(facts: &[KeyFact], key: &[u8; 32]) -> (s: String)
    ensures
        s@ == fingerprint(facts@, key@),
{
    match find_fact(facts, key) {
        Some(f) => f.fingerprint.as_str().to_owned(),
        None => {
            let s = String::new();
            assert(s@ =~= Seq::<char>::empty());
            s
        },
    }
}

/// Whose placeholder `key` is, if it is one.
pub fn placeholder_role<'a>(facts: &'a [KeyFact], key: &[u8; 32]) -> (r: Option<&'a str>)
    ensures
        r is Some <==> role(facts@, key@) is Some,
        r matches Some(s) ==> role(facts@, key@) == Some(s@),
{
    match find_fact(facts, key) {
        Some(f) => match &f.role {
            Some(s) => Some(s.as_str()),
            None => None,
        },
        None => None,
    }
}

// ---------------------------------------------------------------------------
// Keys as texts

/// A text without the `0x` that it may begin with.
pub open spec fn bare(s: Seq<char>) -> Seq<char> {
    if text::stands(s, "0x"@, 0) {
        s.subrange(2, s.len() as int)
    } else {
        s
    }
}

/// A text without the `0x` that it may begin with.
pub fn bare_of(s: &str) -> (r: String)
    ensures
        r@ == bare(s@),
{
    let v = to_chars(s);
    proof {
        reveal_strlit("0x");
    }
    if stands_at(v.as_slice(), "0x", 0) {
        from_chars(v.as_slice(), 2, v.len())
    } else {
        s.to_owned()
    }
}

/// The key that a text denotes: sixty-four hexadecimal digits, behind a `0x`
/// or not.
pub open spec fn key_of(s: Seq<char>) -> Option<Seq<u8>> {
    if bare(s).len() == 64 {
        json::unhexed(bare(s), 32)
    } else {
        None
    }
}

/// The key that a text denotes.
pub fn decode_key(s: &str) -> (r: Option<[u8; 32]>)
    ensures
        r is Some <==> key_of(s@) is Some,
        r matches Some(k) ==> key_of(s@) == Some(k@),
{
    let t = bare_of(s);
    if to_chars(t.as_str()).len() != 64 {
        return None;
    }
    match unhex_vec(t.as_str(), 32) {
        Some(v) => {
            let mut k: [u8; 32] = [0; 32];
            let mut i: usize = 0;
            while i < 32
                invariant
                    i <= 32,
                    v@.len() == 32,
                    k@.len() == 32,
                    forall|j: int| 0 <= j < i ==> k@[j] == v@[j],
                decreases 32 - i,
            {
                k[i] = v[i];
                i += 1;
            }
            assert(k@ =~= v@);
            Some(k)
        },
        None => None,
    }
}

// ---------------------------------------------------------------------------
// Which keys are in force

/// Which keys checkpoints are held against.
#[derive(Clone, Debug, PartialEq, Eq)]
pub enum CheckpointPolicy {
    Embedded { key: [u8; 32], placeholder: bool },
    Configured { keys: Vec<[u8; 32]> },
    Disabled,
}

/// The mathematical value of a `CheckpointPolicy`.
pub enum PolicyView {
    Embedded { key: Seq<u8>, placeholder: bool },
    Configured { keys: Seq<Seq<u8>> },
    Disabled,
}

pub open spec fn key_views(v: Seq<[u8; 32]>) -> Seq<Seq<u8>> {
    Seq::new(v.len(), |k: int| v[k]@)
}

impl View for CheckpointPolicy {
    type V = PolicyView;

    open spec fn view(&self) -> PolicyView {
        match self {
            CheckpointPolicy::Embedded { key, placeholder } => PolicyView::Embedded {
                key: key@,
                placeholder: *placeholder,
            },
            CheckpointPolicy::Configured { keys } => PolicyView::Configured {
                keys: key_views(keys@),
            },
            CheckpointPolicy::Disabled => PolicyView::Disabled,
        }
    }
}

/// The keys in force.
pub open spec fn keys_in_force(p: PolicyView) -> Seq<Seq<u8>> {
    match p {
        PolicyView::Embedded { key, .. } => seq![key],
        PolicyView::Configured { keys } => keys,
        PolicyView::Disabled => Seq::empty(),
    }
}

/// The fingerprints of the keys, in order.
pub open spec fn fingerprints(facts: Seq<KeyFact>, keys: Seq<Seq<u8>>) -> Seq<Seq<char>> {
    Seq::new(keys.len(), |k: int| fingerprint(facts, keys[k]))
}

/// The texts, with a comma between one and the next.
pub open spec fn joined(v: Seq<Seq<char>>) -> Seq<char>
    decreases v.len(),
{
    if v.len() == 0 {
        Seq::empty()
    } else if v.len() == 1 {
        v[0]
    } else {
        joined(v.drop_last()) + ","@ + v.last()
    }
}

/// The texts, with a comma between one and the next.
pub fn join(v: &[String]) -> (t: String)
    ensures
        t@ == joined(settings::strings(v@)),
{
    let ghost all = settings::strings(v@);
    let mut t = String::new();
    let mut i: usize = 0;
    assert(all.take(0) =~= Seq::<Seq<char>>::empty());
    assert(t@ =~= Seq::<char>::empty());
    while i < v.len()
        invariant
            i <= v.len(),
            all == settings::strings(v@),
            t@ == joined(all.take(i as int)),
        decreases v.len() - i,
    {
        let ghost now = all.take(i as int + 1);
        assert(now.drop_last() =~= all.take(i as int));
        assert(now.last() == v@[i as int]@);
        if i == 0 {
            t = v[i].as_str().to_owned();
        } else {
            t.append(",");
            t.append(v[i].as_str());
        }
        i += 1;
    }
    assert(all.take(i as int) =~= all);
    t
}

pub const CHECKPOINTS_OFF: &'static str =
    "OFF - checkpoints.enabled = false. This node accepts deep reorgs that a checkpointed node rejects.";

/// What is said of the keys in force.
pub open spec fn described(facts: Seq<KeyFact>, p: PolicyView) -> Seq<char> {
    let fps = joined(fingerprints(facts, keys_in_force(p)));
    match p {
        PolicyView::Embedded { placeholder, .. } => "ON, 1 key (embedded official"@
            + (if placeholder {
            " PLACEHOLDER"@
        } else {
            ""@
        }) + ", fp "@ + fps + "), threshold 1"@,
        PolicyView::Configured { keys } => "ON, "@ + text::dec(keys.len())
            + " key(s) from config"@ + (if any_placeholder(facts, keys) {
            " including a BUILD PLACEHOLDER"@
        } else {
            ""@
        }) + " (fp "@ + fps + "), threshold set below"@,
        PolicyView::Disabled => CHECKPOINTS_OFF@,
    }
}

pub open spec fn any_placeholder(facts: Seq<KeyFact>, keys: Seq<Seq<u8>>) -> bool {
    exists|k: int| 0 <= k < keys.len() && role(facts, #[trigger] keys[k]) is Some
}

fn has_placeholder(facts: &[KeyFact], keys: &Vec<[u8; 32]>) -> (r: bool)
    ensures
        r == any_placeholder(facts@, key_views(keys@)),
{
    let ghost all = key_views(keys@);
    let mut i: usize = 0;
    while i < keys.len()
        invariant
            i <= keys.len(),
            all == key_views(keys@),
            forall|k: int| 0 <= k < i ==> role(facts@, #[trigger] all[k]) is None,
        decreases keys.len() - i,
    {
        if placeholder_role(facts, &keys[i]).is_some() {
            assert(role(facts@, all[i as int]) is Some);
            return true;
        }
        i += 1;
    }
    false
}

impl CheckpointPolicy {
    /// The keys in force.
    pub fn keys(&self) -> (v: Vec<[u8; 32]>)
        ensures
            key_views(v@) == keys_in_force(self@),
    {
        match self {
            CheckpointPolicy::Embedded { key, .. } => {
                let mut v: Vec<[u8; 32]> = Vec::new();
                v.push(*key);
                assert(key_views(v@) =~= seq![key@]);
                v
            },
            CheckpointPolicy::Configured { keys } => {
                let mut v: Vec<[u8; 32]> = Vec::new();
                let mut i: usize = 0;
                while i < keys.len()
                    invariant
                        i <= keys.len(),
                        v@ == keys@.take(i as int),
                    decreases keys.len() - i,
                {
                    v.push(keys[i]);
                    i += 1;
                    assert(keys@.take(i as int) =~= keys@.take(i - 1).push(keys@[i - 1]));
                }
                assert(v@ =~= keys@);
                v
            },
            CheckpointPolicy::Disabled => {
                let v: Vec<[u8; 32]> = Vec::new();
                assert(key_views(v@) =~= Seq::<Seq<u8>>::empty());
                v
            },
        }
    }

    /// The fingerprints of the keys in force.
    pub fn fingerprints(&self, facts: &[KeyFact]) -> (v: Vec<String>)
        ensures
            settings::strings(v@) == fingerprints(facts@, keys_in_force(self@)),
    {
        let keys = self.keys();
        let ghost all = fingerprints(facts@, keys_in_force(self@));
        let mut v: Vec<String> = Vec::new();
        let mut i: usize = 0;
        assert(settings::strings(v@) =~= all.take(0));
        while i < keys.len()
            invariant
                i <= keys.len(),
                key_views(keys@) == keys_in_force(self@),
                all == fingerprints(facts@, keys_in_force(self@)),
                settings::strings(v@) == all.take(i as int),
            decreases keys.len() - i,
        {
            let ghost before = settings::strings(v@);
            let f = fingerprint_of(facts, &keys[i]);
            assert(key_views(keys@)[i as int] == keys@[i as int]@);
            assert(all.take(i as int + 1) =~= all.take(i as int).push(all[i as int]));
            v.push(f);
            assert(settings::strings(v@) =~= before.push(f@));
            i += 1;
        }
        assert(all.take(i as int) =~= all);
        v
    }

    /// Whether checkpoints count at all.
    pub fn is_enabled(&self) -> (r: bool)
        ensures
            r == !(self@ is Disabled),
    {
        match self {
            CheckpointPolicy::Disabled => false,
            _ => true,
        }
    }

    /// Where the keys came from.
    pub fn source(&self) -> (r: KeySource)
        ensures
            r == (if self@ is Configured {
                KeySource::Config
            } else {
                KeySource::Embedded
            }),
    {
        match self {
            CheckpointPolicy::Configured { .. } => KeySource::Config,
            _ => KeySource::Embedded,
        }
    }

    /// What is said of the keys in force.
    pub fn describe(&self, facts: &[KeyFact]) -> (t: String)
        ensures
            t@ == described(facts@, self@),
    {
        let all = self.fingerprints(facts);
        let fps = join(all.as_slice());
        match self {
            CheckpointPolicy::Embedded { placeholder, .. } => {
                let mut t = "ON, 1 key (embedded official".to_owned();
                t.append(
                    if *placeholder {
                        " PLACEHOLDER"
                    } else {
                        ""
                    },
                );
                t.append(", fp ");
                t.append(fps.as_str());
                t.append("), threshold 1");
                t
            },
            CheckpointPolicy::Configured { keys } => {
                let mut t = "ON, ".to_owned();
                push_dec(&mut t, keys.len() as u64);
                t.append(" key(s) from config");
                t.append(
                    if has_placeholder(facts, keys) {
                        " including a BUILD PLACEHOLDER"
                    } else {
                        ""
                    },
                );
                t.append(" (fp ");
                t.append(fps.as_str());
                t.append("), threshold set below");
                t
            },
            CheckpointPolicy::Disabled => CHECKPOINTS_OFF.to_owned(),
        }
    }
}

/// What is known of a key is what the first fact about it says.
pub proof fn law_the_first_fact_counts(facts: Seq<KeyFact>, key: Seq<u8>, i: int)
    ensures
        0 <= i < facts.len() && facts[i].key@ == key && (forall|k: int|
            0 <= k < i ==> (#[trigger] facts[k]).key@ != key) ==> is_valid(facts, key)
            == facts[i].valid && fingerprint(facts, key) == facts[i].fingerprint@ && (role(
            facts,
            key,
        ) is Some <==> facts[i].role is Some),
        (forall|k: int| 0 <= k < facts.len() ==> (#[trigger] facts[k]).key@ != key) ==> !is_valid(
            facts,
            key,
        ) && fingerprint(facts, key).len() == 0 && role(facts, key) is None,
{
    lemma_fact_at(facts, key, 0);
    let p = fact_at(facts, key, 0);
    if 0 <= i < facts.len() && facts[i].key@ == key && (forall|k: int|
        0 <= k < i ==> (#[trigger] facts[k]).key@ != key) {
        if p < i {
            assert(facts[p].key@ != key);
        }
    }
}

proof fn lemma_fact_at(facts: Seq<KeyFact>, key: Seq<u8>, i: int)
    requires
        0 <= i <= facts.len(),
    ensures
        i <= fact_at(facts, key, i) <= facts.len(),
        fact_at(facts, key, i) < facts.len() ==> facts[fact_at(facts, key, i)].key@ == key,
        forall|k: int| i <= k < fact_at(facts, key, i) ==> (#[trigger] facts[k]).key@ != key,
    decreases facts.len() - i,
{
    if i < facts.len() && facts[i].key@ != key {
        lemma_fact_at(facts, key, i + 1);
    }
}

/// The keys in force are the configured ones in their order, or the one of the
/// build, or none where checkpoints are off; and checkpoints count exactly where
/// they are not off.
pub proof fn law_the_policy_tells_the_keys(
    p: &CheckpointPolicy,
    v: Vec<[u8; 32]>,
    on: bool,
    s: KeySource,
    i: int,
)
    requires
        call_ensures(CheckpointPolicy::keys, (p,), v),
        call_ensures(CheckpointPolicy::is_enabled, (p,), on),
        call_ensures(CheckpointPolicy::source, (p,), s),
    ensures
        on <==> !(*p is Disabled),
        s == KeySource::Config <==> *p is Configured,
        *p is Disabled ==> v@.len() == 0,
        *p matches CheckpointPolicy::Embedded { key, .. } ==> v@.len() == 1 && v@[0]@ == key@,
        *p matches CheckpointPolicy::Configured { keys } ==> v@.len() == keys@.len() && (0 <= i
            < v@.len() ==> v@[i]@ == keys@[i]@),
{
    let w = key_views(v@);
    assert(w.len() == v@.len());
    if 0 <= i < v@.len() {
        assert(w[i] == v@[i]@);
    }
    if v@.len() > 0 {
        assert(w[0] == v@[0]@);
    }
    match *p {
        CheckpointPolicy::Configured { keys } => {
            assert(key_views(keys@).len() == keys@.len());
            if 0 <= i < keys@.len() {
                assert(key_views(keys@)[i] == keys@[i]@);
            }
        },
        _ => {},
    }
}

} // verus!
