//! Which settings a configuration document can hold, and what is said of a
//! document that holds another one or one of the wrong type.

use vstd::prelude::*;
use crate::node::names;
use crate::node::names::{find_meant, Apart};
use crate::node::toml;
use crate::node::toml::{count, Diagnostic, Document, Entry, Item, Value};
use crate::text::same;

verus! {

/// What type of value a setting takes.
#[derive(Clone, Copy, Debug, PartialEq, Eq, Structural)]
pub enum Kind {
    Str,
    Int,
    Bool,
    StrArray,
    IntArray,
}

pub open spec fn kind_name(k: Kind) -> Seq<char> {
    match k {
        Kind::Str => "a string"@,
        Kind::Int => "an integer"@,
        Kind::Bool => "a boolean (true or false)"@,
        Kind::StrArray => "an array of strings"@,
        Kind::IntArray => "an array of integers"@,
    }
}

impl Kind {
    /// What a person calls a value of this type.
    pub fn name(self) -> (r: &'static str)
        ensures
            r@ == kind_name(self),
    {
        match self {
            Kind::Str => "a string",
            Kind::Int => "an integer",
            Kind::Bool => "a boolean (true or false)",
            Kind::StrArray => "an array of strings",
            Kind::IntArray => "an array of integers",
        }
    }
}

/// One setting.
#[derive(Clone, Copy, Debug)]
pub struct Field {
    pub section: &'static str,
    pub key: &'static str,
    pub kind: Kind,
}

/// The settings of [node].
#[verifier::opaque]
pub open spec fn node_fields() -> Seq<Field> {
    seq![
        Field { section: "node", key: "network", kind: Kind::Str },
        Field { section: "node", key: "data_dir", kind: Kind::Str },
        Field { section: "node", key: "prune", kind: Kind::Bool },
        Field { section: "node", key: "txindex", kind: Kind::Bool },
        Field { section: "node", key: "addrindex", kind: Kind::Bool },
        Field { section: "node", key: "verify_frames", kind: Kind::Bool },
    ]
}

/// The settings of [p2p].
#[verifier::opaque]
pub open spec fn p2p_fields() -> Seq<Field> {
    seq![
        Field { section: "p2p", key: "listen", kind: Kind::Str },
        Field { section: "p2p", key: "max_peers", kind: Kind::Int },
        Field { section: "p2p", key: "seeds", kind: Kind::StrArray },
        Field { section: "p2p", key: "use_embedded_seeds", kind: Kind::Bool },
        Field { section: "p2p", key: "accept_local_addrs", kind: Kind::Bool },
    ]
}

/// The settings that are limits of [stratum].
#[verifier::opaque]
pub open spec fn limit_fields() -> Seq<Field> {
    seq![
        Field { section: "stratum", key: "listen", kind: Kind::Str },
        Field { section: "stratum", key: "max_connections", kind: Kind::Int },
        Field { section: "stratum", key: "enforcement", kind: Kind::Bool },
        Field { section: "stratum", key: "max_per_ip", kind: Kind::Int },
        Field { section: "stratum", key: "new_conns_per_ip_per_min", kind: Kind::Int },
        Field { section: "stratum", key: "global_accept_per_sec", kind: Kind::Int },
        Field { section: "stratum", key: "bans_enabled", kind: Kind::Bool },
        Field { section: "stratum", key: "ban_threshold", kind: Kind::Int },
        Field { section: "stratum", key: "ban_soft_cap", kind: Kind::Int },
        Field { section: "stratum", key: "ban_decay_secs", kind: Kind::Int },
        Field { section: "stratum", key: "ban_base_secs", kind: Kind::Int },
        Field { section: "stratum", key: "ban_ladder_factor", kind: Kind::Int },
        Field { section: "stratum", key: "ban_max_secs", kind: Kind::Int },
        Field { section: "stratum", key: "ban_table_entries", kind: Kind::Int },
    ]
}

/// The settings that are rates and deadlines of [stratum].
#[verifier::opaque]
pub open spec fn rate_fields() -> Seq<Field> {
    seq![
        Field { section: "stratum", key: "garbage_throttle_secs", kind: Kind::Int },
        Field { section: "stratum", key: "submit_rate_per_sec", kind: Kind::Int },
        Field { section: "stratum", key: "submit_burst", kind: Kind::Int },
        Field { section: "stratum", key: "line_rate_per_sec", kind: Kind::Int },
        Field { section: "stratum", key: "line_burst", kind: Kind::Int },
        Field { section: "stratum", key: "auth_deadline_secs", kind: Kind::Int },
        Field { section: "stratum", key: "idle_evict_secs", kind: Kind::Int },
        Field { section: "stratum", key: "read_deadline_secs", kind: Kind::Int },
        Field { section: "stratum", key: "write_timeout_secs", kind: Kind::Int },
        Field { section: "stratum", key: "out_buf_cap_bytes", kind: Kind::Int },
    ]
}

/// The settings of the difficulty control of [stratum].
#[verifier::opaque]
pub open spec fn vardiff_fields() -> Seq<Field> {
    seq![
        Field { section: "stratum", key: "vardiff_setpoint_secs", kind: Kind::Int },
        Field { section: "stratum", key: "vardiff_start_diff", kind: Kind::Int },
        Field { section: "stratum", key: "vardiff_min_diff", kind: Kind::Int },
        Field { section: "stratum", key: "vardiff_tick_secs", kind: Kind::Int },
        Field { section: "stratum", key: "vardiff_retarget_gate_shares", kind: Kind::Int },
        Field { section: "stratum", key: "vardiff_retarget_gate_secs", kind: Kind::Int },
        Field { section: "stratum", key: "vardiff_warmup_shares", kind: Kind::Int },
        Field { section: "stratum", key: "vardiff_warmup_gate_shares", kind: Kind::Int },
        Field { section: "stratum", key: "vardiff_mature_shares", kind: Kind::Int },
        Field { section: "stratum", key: "vardiff_max_step", kind: Kind::Int },
        Field { section: "stratum", key: "vardiff_enabled", kind: Kind::Bool },
        Field { section: "stratum", key: "vardiff_fixed_diff", kind: Kind::Int },
    ]
}

/// The settings of the shape of the controller in [stratum].
#[verifier::opaque]
pub open spec fn shape_fields() -> Seq<Field> {
    seq![
        Field { section: "stratum", key: "vardiff_max_diff", kind: Kind::Int },
        Field { section: "stratum", key: "vardiff_dead_zone_pct", kind: Kind::Int },
        Field { section: "stratum", key: "vardiff_mature_zone_pct", kind: Kind::Int },
        Field { section: "stratum", key: "vardiff_fast_escape_pct", kind: Kind::Int },
        Field { section: "stratum", key: "vardiff_silence_slack", kind: Kind::Int },
        Field { section: "stratum", key: "vardiff_dsps_tau_fast_secs", kind: Kind::Int },
        Field { section: "stratum", key: "vardiff_dsps_tau_mid_secs", kind: Kind::Int },
        Field { section: "stratum", key: "vardiff_dsps_tau_slow_secs", kind: Kind::Int },
        Field { section: "stratum", key: "vardiff_ladder", kind: Kind::IntArray },
        Field { section: "stratum", key: "diff_cache_entries", kind: Kind::Int },
        Field { section: "stratum", key: "diff_cache_ttl_secs", kind: Kind::Int },
        Field { section: "stratum", key: "reconnect_storm_per_min", kind: Kind::Int },
        Field { section: "stratum", key: "reconnect_storm_window_secs", kind: Kind::Int },
    ]
}

/// The settings of the remaining sections.
#[verifier::opaque]
pub open spec fn other_fields() -> Seq<Field> {
    seq![
        Field { section: "rpc", key: "listen", kind: Kind::Str },
        Field { section: "rpc", key: "token", kind: Kind::Str },
        Field { section: "mempool", key: "relay_fee_mile", kind: Kind::Int },
        Field { section: "mempool", key: "max_txs", kind: Kind::Int },
        Field { section: "mining", key: "author_note", kind: Kind::Str },
        Field { section: "checkpoints", key: "enabled", kind: Kind::Bool },
        Field { section: "checkpoints", key: "threshold", kind: Kind::Int },
        Field { section: "checkpoints", key: "keys", kind: Kind::StrArray },
        Field { section: "author", key: "pubkey", kind: Kind::Str },
        Field { section: "author", key: "show_in_log", kind: Kind::Bool },
        Field { section: "log", key: "level", kind: Kind::Str },
    ]
}

/// Every setting there is.
pub open spec fn schema() -> Seq<Field> {
    node_fields() + p2p_fields() + limit_fields() + rate_fields() + vardiff_fields() + shape_fields() + other_fields()
}

fn push_node_fields(v: &mut Vec<Field>)
    ensures
        final(v)@ == old(v)@ + node_fields(),
{
    reveal(node_fields);
    v.push(Field { section: "node", key: "network", kind: Kind::Str });
    v.push(Field { section: "node", key: "data_dir", kind: Kind::Str });
    v.push(Field { section: "node", key: "prune", kind: Kind::Bool });
    v.push(Field { section: "node", key: "txindex", kind: Kind::Bool });
    v.push(Field { section: "node", key: "addrindex", kind: Kind::Bool });
    v.push(Field { section: "node", key: "verify_frames", kind: Kind::Bool });
    assert(v@ =~= old(v)@ + node_fields());
}

fn push_p2p_fields(v: &mut Vec<Field>)
    ensures
        final(v)@ == old(v)@ + p2p_fields(),
{
    reveal(p2p_fields);
    v.push(Field { section: "p2p", key: "listen", kind: Kind::Str });
    v.push(Field { section: "p2p", key: "max_peers", kind: Kind::Int });
    v.push(Field { section: "p2p", key: "seeds", kind: Kind::StrArray });
    v.push(Field { section: "p2p", key: "use_embedded_seeds", kind: Kind::Bool });
    v.push(Field { section: "p2p", key: "accept_local_addrs", kind: Kind::Bool });
    assert(v@ =~= old(v)@ + p2p_fields());
}

fn push_limit_fields(v: &mut Vec<Field>)
    ensures
        final(v)@ == old(v)@ + limit_fields(),
{
    reveal(limit_fields);
    v.push(Field { section: "stratum", key: "listen", kind: Kind::Str });
    v.push(Field { section: "stratum", key: "max_connections", kind: Kind::Int });
    v.push(Field { section: "stratum", key: "enforcement", kind: Kind::Bool });
    v.push(Field { section: "stratum", key: "max_per_ip", kind: Kind::Int });
    v.push(Field { section: "stratum", key: "new_conns_per_ip_per_min", kind: Kind::Int });
    v.push(Field { section: "stratum", key: "global_accept_per_sec", kind: Kind::Int });
    v.push(Field { section: "stratum", key: "bans_enabled", kind: Kind::Bool });
    v.push(Field { section: "stratum", key: "ban_threshold", kind: Kind::Int });
    v.push(Field { section: "stratum", key: "ban_soft_cap", kind: Kind::Int });
    v.push(Field { section: "stratum", key: "ban_decay_secs", kind: Kind::Int });
    v.push(Field { section: "stratum", key: "ban_base_secs", kind: Kind::Int });
    v.push(Field { section: "stratum", key: "ban_ladder_factor", kind: Kind::Int });
    v.push(Field { section: "stratum", key: "ban_max_secs", kind: Kind::Int });
    v.push(Field { section: "stratum", key: "ban_table_entries", kind: Kind::Int });
    assert(v@ =~= old(v)@ + limit_fields());
}

fn push_rate_fields(v: &mut Vec<Field>)
    ensures
        final(v)@ == old(v)@ + rate_fields(),
{
    reveal(rate_fields);
    v.push(Field { section: "stratum", key: "garbage_throttle_secs", kind: Kind::Int });
    v.push(Field { section: "stratum", key: "submit_rate_per_sec", kind: Kind::Int });
    v.push(Field { section: "stratum", key: "submit_burst", kind: Kind::Int });
    v.push(Field { section: "stratum", key: "line_rate_per_sec", kind: Kind::Int });
    v.push(Field { section: "stratum", key: "line_burst", kind: Kind::Int });
    v.push(Field { section: "stratum", key: "auth_deadline_secs", kind: Kind::Int });
    v.push(Field { section: "stratum", key: "idle_evict_secs", kind: Kind::Int });
    v.push(Field { section: "stratum", key: "read_deadline_secs", kind: Kind::Int });
    v.push(Field { section: "stratum", key: "write_timeout_secs", kind: Kind::Int });
    v.push(Field { section: "stratum", key: "out_buf_cap_bytes", kind: Kind::Int });
    assert(v@ =~= old(v)@ + rate_fields());
}

fn push_vardiff_fields(v: &mut Vec<Field>)
    ensures
        final(v)@ == old(v)@ + vardiff_fields(),
{
    reveal(vardiff_fields);
    v.push(Field { section: "stratum", key: "vardiff_setpoint_secs", kind: Kind::Int });
    v.push(Field { section: "stratum", key: "vardiff_start_diff", kind: Kind::Int });
    v.push(Field { section: "stratum", key: "vardiff_min_diff", kind: Kind::Int });
    v.push(Field { section: "stratum", key: "vardiff_tick_secs", kind: Kind::Int });
    v.push(Field { section: "stratum", key: "vardiff_retarget_gate_shares", kind: Kind::Int });
    v.push(Field { section: "stratum", key: "vardiff_retarget_gate_secs", kind: Kind::Int });
    v.push(Field { section: "stratum", key: "vardiff_warmup_shares", kind: Kind::Int });
    v.push(Field { section: "stratum", key: "vardiff_warmup_gate_shares", kind: Kind::Int });
    v.push(Field { section: "stratum", key: "vardiff_mature_shares", kind: Kind::Int });
    v.push(Field { section: "stratum", key: "vardiff_max_step", kind: Kind::Int });
    v.push(Field { section: "stratum", key: "vardiff_enabled", kind: Kind::Bool });
    v.push(Field { section: "stratum", key: "vardiff_fixed_diff", kind: Kind::Int });
    assert(v@ =~= old(v)@ + vardiff_fields());
}

fn push_shape_fields(v: &mut Vec<Field>)
    ensures
        final(v)@ == old(v)@ + shape_fields(),
{
    reveal(shape_fields);
    v.push(Field { section: "stratum", key: "vardiff_max_diff", kind: Kind::Int });
    v.push(Field { section: "stratum", key: "vardiff_dead_zone_pct", kind: Kind::Int });
    v.push(Field { section: "stratum", key: "vardiff_mature_zone_pct", kind: Kind::Int });
    v.push(Field { section: "stratum", key: "vardiff_fast_escape_pct", kind: Kind::Int });
    v.push(Field { section: "stratum", key: "vardiff_silence_slack", kind: Kind::Int });
    v.push(Field { section: "stratum", key: "vardiff_dsps_tau_fast_secs", kind: Kind::Int });
    v.push(Field { section: "stratum", key: "vardiff_dsps_tau_mid_secs", kind: Kind::Int });
    v.push(Field { section: "stratum", key: "vardiff_dsps_tau_slow_secs", kind: Kind::Int });
    v.push(Field { section: "stratum", key: "vardiff_ladder", kind: Kind::IntArray });
    v.push(Field { section: "stratum", key: "diff_cache_entries", kind: Kind::Int });
    v.push(Field { section: "stratum", key: "diff_cache_ttl_secs", kind: Kind::Int });
    v.push(Field { section: "stratum", key: "reconnect_storm_per_min", kind: Kind::Int });
    v.push(Field { section: "stratum", key: "reconnect_storm_window_secs", kind: Kind::Int });
    assert(v@ =~= old(v)@ + shape_fields());
}

fn push_other_fields(v: &mut Vec<Field>)
    ensures
        final(v)@ == old(v)@ + other_fields(),
{
    reveal(other_fields);
    v.push(Field { section: "rpc", key: "listen", kind: Kind::Str });
    v.push(Field { section: "rpc", key: "token", kind: Kind::Str });
    v.push(Field { section: "mempool", key: "relay_fee_mile", kind: Kind::Int });
    v.push(Field { section: "mempool", key: "max_txs", kind: Kind::Int });
    v.push(Field { section: "mining", key: "author_note", kind: Kind::Str });
    v.push(Field { section: "checkpoints", key: "enabled", kind: Kind::Bool });
    v.push(Field { section: "checkpoints", key: "threshold", kind: Kind::Int });
    v.push(Field { section: "checkpoints", key: "keys", kind: Kind::StrArray });
    v.push(Field { section: "author", key: "pubkey", kind: Kind::Str });
    v.push(Field { section: "author", key: "show_in_log", kind: Kind::Bool });
    v.push(Field { section: "log", key: "level", kind: Kind::Str });
    assert(v@ =~= old(v)@ + other_fields());
}

/// Every setting there is.
pub fn fields() -> (v: Vec<Field>)
    ensures
        v@ == schema(),
{
    let mut v: Vec<Field> = Vec::new();
    push_node_fields(&mut v);
    push_p2p_fields(&mut v);
    push_limit_fields(&mut v);
    push_rate_fields(&mut v);
    push_vardiff_fields(&mut v);
    push_shape_fields(&mut v);
    push_other_fields(&mut v);
    assert(v@ =~= schema());
    v
}

// ---------------------------------------------------------------------------
// Finding a setting

/// The first index at or behind `i` that holds the setting `key` of
/// `section`, or the number of settings.
pub open spec fn spot(fs: Seq<Field>, section: Seq<char>, key: Seq<char>, i: int) -> int
    decreases fs.len() - i,
{
    if i < 0 || i >= fs.len() {
        fs.len() as int
    } else if fs[i].section@ == section && fs[i].key@ == key {
        i
    } else {
        spot(fs, section, key, i + 1)
    }
}

/// What type of value the setting `key` of `section` takes, if there is such
/// a setting.
pub open spec fn kind_of(section: Seq<char>, key: Seq<char>) -> Option<Kind> {
    let i = spot(schema(), section, key, 0);
    if 0 <= i < schema().len() {
        Some(schema()[i].kind)
    } else {
        None
    }
}

fn find_kind(fs: &[Field], section: &str, key: &str) -> (r: Option<Kind>)
    requires
        fs@ == schema(),
    ensures
        r == kind_of(section@, key@),
{
    let mut i: usize = 0;
    while i < fs.len()
        invariant
            i <= fs.len(),
            fs@ == schema(),
            spot(schema(), section@, key@, 0) == spot(schema(), section@, key@, i as int),
        decreases fs.len() - i,
    {
        if same(fs[i].section, section) && same(fs[i].key, key) {
            return Some(fs[i].kind);
        }
        i += 1;
    }
    None
}

/// The sections of the settings, each once, in the order in which they first
/// occur.
pub open spec fn section_names(fs: Seq<Field>) -> Seq<Seq<char>>
    decreases fs.len(),
{
    if fs.len() == 0 {
        Seq::empty()
    } else {
        let head = section_names(fs.drop_last());
        if head.contains(fs.last().section@) {
            head
        } else {
            head.push(fs.last().section@)
        }
    }
}

/// The keys of the settings of `section`, in order.
pub open spec fn keys_of(fs: Seq<Field>, section: Seq<char>) -> Seq<Seq<char>>
    decreases fs.len(),
{
    if fs.len() == 0 {
        Seq::empty()
    } else {
        let head = keys_of(fs.drop_last(), section);
        if fs.last().section@ == section {
            head.push(fs.last().key@)
        } else {
            head
        }
    }
}

fn has_name(v: &Vec<&'static str>, name: &str) -> (r: bool)
    ensures
        r == names::name_views(v@).contains(name@),
{
    let ghost all = names::name_views(v@);
    let mut i: usize = 0;
    while i < v.len()
        invariant
            i <= v.len(),
            all == names::name_views(v@),
            forall|k: int| 0 <= k < i ==> #[trigger] all[k] != name@,
        decreases v.len() - i,
    {
        if same(v[i], name) {
            assert(all[i as int] == name@);
            return true;
        }
        i += 1;
    }
    false
}

fn sections_of(fs: &[Field]) -> (v: Vec<&'static str>)
    requires
        fs@ == schema(),
    ensures
        names::name_views(v@) == section_names(schema()),
{
    let mut v: Vec<&'static str> = Vec::new();
    let mut i: usize = 0;
    assert(fs@.take(0) =~= Seq::<Field>::empty());
    assert(names::name_views(v@) =~= section_names(fs@.take(0)));
    while i < fs.len()
        invariant
            i <= fs.len(),
            fs@ == schema(),
            names::name_views(v@) == section_names(fs@.take(i as int)),
        decreases fs.len() - i,
    {
        assert(fs@.take(i as int + 1).drop_last() =~= fs@.take(i as int));
        let s: &'static str = fs[i].section;
        let ghost before = names::name_views(v@);
        if !has_name(&v, s) {
            v.push(s);
            assert(names::name_views(v@) =~= before.push(s@));
        }
        i += 1;
    }
    assert(fs@.take(i as int) =~= fs@);
    v
}

fn keys_in(fs: &[Field], section: &str) -> (v: Vec<&'static str>)
    requires
        fs@ == schema(),
    ensures
        names::name_views(v@) == keys_of(schema(), section@),
{
    let mut v: Vec<&'static str> = Vec::new();
    let mut i: usize = 0;
    assert(fs@.take(0) =~= Seq::<Field>::empty());
    assert(names::name_views(v@) =~= keys_of(fs@.take(0), section@));
    while i < fs.len()
        invariant
            i <= fs.len(),
            fs@ == schema(),
            names::name_views(v@) == keys_of(fs@.take(i as int), section@),
        decreases fs.len() - i,
    {
        assert(fs@.take(i as int + 1).drop_last() =~= fs@.take(i as int));
        let ghost before = names::name_views(v@);
        if same(fs[i].section, section) {
            v.push(fs[i].key);
            assert(names::name_views(v@) =~= before.push(fs@[i as int].key@));
        }
        i += 1;
    }
    assert(fs@.take(i as int) =~= fs@);
    v
}

/// The names, each between `open` and `close`, with a comma and a space
/// between one and the next.
pub open spec fn listed(names: Seq<Seq<char>>, open: Seq<char>, close: Seq<char>) -> Seq<char>
    decreases names.len(),
{
    if names.len() == 0 {
        Seq::empty()
    } else {
        let last = open + names.last() + close;
        if names.len() == 1 {
            last
        } else {
            listed(names.drop_last(), open, close) + ", "@ + last
        }
    }
}

fn list(v: &Vec<&'static str>, open: &str, close: &str) -> (t: String)
    ensures
        t@ == listed(names::name_views(v@), open@, close@),
{
    let ghost all = names::name_views(v@);
    let mut t = String::new();
    let mut i: usize = 0;
    assert(all.take(0) =~= Seq::<Seq<char>>::empty());
    assert(t@ =~= Seq::<char>::empty());
    while i < v.len()
        invariant
            i <= v.len(),
            all == names::name_views(v@),
            t@ == listed(all.take(i as int), open@, close@),
        decreases v.len() - i,
    {
        let ghost now = all.take(i as int + 1);
        assert(now.drop_last() =~= all.take(i as int));
        assert(now.last() == v@[i as int]@);
        let mut u = open.to_owned();
        u.append(v[i]);
        u.append(close);
        if i == 0 {
            t = u;
        } else {
            t.append(", ");
            t.append(u.as_str());
        }
        i += 1;
    }
    assert(all.take(i as int) =~= all);
    t
}

// ---------------------------------------------------------------------------
// Unknown names

pub const UNKNOWN_SECTION_NOTE: &'static str =
    "`plaine-noded --print-config` lists every section and key.";

pub const UNKNOWN_KEY_NOTE: &'static str =
    "an unknown key stops startup instead of warning: a setting you believe is in force but is not is worse than a node that refuses to start.";

pub open spec fn section_help(apart: Seq<Apart>, name: Seq<char>) -> Seq<char> {
    match names::meant(apart, name, section_names(schema())) {
        Some(b) => "did you mean ["@ + b + "]?"@,
        None => "the sections are: "@ + listed(section_names(schema()), "["@, "]"@),
    }
}

/// What is said of a section header with an unknown name.
pub open spec fn section_fault(
    path: Seq<char>,
    name: Seq<char>,
    line: usize,
    apart: Seq<Apart>,
) -> toml::Fault {
    toml::Fault {
        path,
        line,
        col: 1,
        span: if name.len() + 2 <= usize::MAX {
            name.len() + 2
        } else {
            usize::MAX as nat
        },
        message: "unknown section ["@ + name + "]"@,
        line_text: "["@ + name + "]"@,
        help: Some(section_help(apart, name)),
        note: Some(UNKNOWN_SECTION_NOTE@),
    }
}

pub open spec fn key_help(apart: Seq<Apart>, section: Seq<char>, key: Seq<char>) -> Seq<char> {
    let known = keys_of(schema(), section);
    match names::meant(apart, key, known) {
        Some(b) => "did you mean `"@ + b + "`?"@,
        None => "keys in ["@ + section + "] are: "@ + listed(known, ""@, ""@),
    }
}

/// What is said of an entry with an unknown key.
pub open spec fn key_fault(path: Seq<char>, e: toml::EntryView, apart: Seq<Apart>) -> toml::Fault {
    toml::at_entry(
        path,
        e,
        "unknown key `"@ + e.key + "` in ["@ + e.section + "]"@,
    ).helped(key_help(apart, e.section, e.key)).noted(UNKNOWN_KEY_NOTE@)
}

/// The first fault among the section headers from `i` on.
pub open spec fn section_faults(
    path: Seq<char>,
    secs: Seq<(Seq<char>, usize)>,
    apart: Seq<Apart>,
    i: int,
) -> Option<toml::Fault>
    decreases secs.len() - i,
{
    if i < 0 || i >= secs.len() {
        None
    } else if section_names(schema()).contains(secs[i].0) {
        section_faults(path, secs, apart, i + 1)
    } else {
        Some(section_fault(path, secs[i].0, secs[i].1, apart))
    }
}

/// The first unknown key among the entries from `i` on.
pub open spec fn key_faults(
    path: Seq<char>,
    es: Seq<toml::EntryView>,
    apart: Seq<Apart>,
    i: int,
) -> Option<toml::Fault>
    decreases es.len() - i,
{
    if i < 0 || i >= es.len() {
        None
    } else if kind_of(es[i].section, es[i].key) is Some {
        key_faults(path, es, apart, i + 1)
    } else {
        Some(key_fault(path, es[i], apart))
    }
}

/// `a`, or `b` where there is no `a`.
pub open spec fn or(a: Option<toml::Fault>, b: Option<toml::Fault>) -> Option<toml::Fault> {
    match a {
        Some(f) => Some(f),
        None => b,
    }
}

/// The first unknown name: of a section, then of a key.
pub open spec fn unknown(path: Seq<char>, d: toml::DocView, apart: Seq<Apart>) -> Option<toml::Fault> {
    or(section_faults(path, d.sections, apart, 0), key_faults(path, d.entries, apart, 0))
}

fn refuse_section(
    path: &str,
    name: &str,
    line: usize,
    secs: &Vec<&'static str>,
    apart: &[Apart],
) -> (d: Diagnostic)
    requires
        names::name_views(secs@) == section_names(schema()),
    ensures
        d@ == section_fault(path@, name@, line, apart@),
{
    let help = match find_meant(apart, name, secs.as_slice()) {
        Some(b) => {
            let mut t = "did you mean [".to_owned();
            t.append(b);
            t.append("]?");
            t
        },
        None => {
            let mut t = "the sections are: ".to_owned();
            t.append(list(secs, "[", "]").as_str());
            t
        },
    };
    assert(help@ == section_help(apart@, name@));
    let mut message = "unknown section [".to_owned();
    message.append(name);
    message.append("]");
    let mut line_text = "[".to_owned();
    line_text.append(name);
    line_text.append("]");
    let d = Diagnostic {
        path: path.to_owned(),
        line,
        col: 1,
        span: count(name).saturating_add(2),
        message,
        line_text,
        help: Some(help),
        note: Some(UNKNOWN_SECTION_NOTE.to_owned()),
    };
    assert(d@ =~= section_fault(path@, name@, line, apart@));
    d
}

fn refuse_key(path: &str, e: &Entry, fs: &[Field], apart: &[Apart]) -> (d: Diagnostic)
    requires
        fs@ == schema(),
    ensures
        d@ == key_fault(path@, e@, apart@),
{
    let known = keys_in(fs, e.section.as_str());
    let help = match find_meant(apart, e.key.as_str(), known.as_slice()) {
        Some(b) => {
            let mut t = "did you mean `".to_owned();
            t.append(b);
            t.append("`?");
            t
        },
        None => {
            let mut t = "keys in [".to_owned();
            t.append(e.section.as_str());
            t.append("] are: ");
            t.append(list(&known, "", "").as_str());
            t
        },
    };
    assert(help@ == key_help(apart@, e@.section, e@.key));
    let mut m = "unknown key `".to_owned();
    m.append(e.key.as_str());
    m.append("` in [");
    m.append(e.section.as_str());
    m.append("]");
    Diagnostic::at_entry(path, e, m).with_help(help.as_str()).with_note(UNKNOWN_KEY_NOTE)
}

/// Refuses a document that names a section or a key that does not exist. `apart`
/// says how far such a name is from the ones that do.
pub fn check_unknown(path: &str, doc: &Document, apart: &[Apart]) -> (r: Result<(), Diagnostic>)
    ensures
        r is Ok <==> unknown(path@, doc@, apart@) is None,
        r matches Err(d) ==> unknown(path@, doc@, apart@) == Some(d@),
{
    let fs = fields();
    let secs = sections_of(fs.as_slice());
    let ghost heads = doc@.sections;
    let mut i: usize = 0;
    while i < doc.sections.len()
        invariant
            i <= doc.sections.len(),
            heads == doc@.sections,
            names::name_views(secs@) == section_names(schema()),
            section_faults(path@, heads, apart@, 0) == section_faults(path@, heads, apart@, i as int),
        decreases doc.sections.len() - i,
    {
        let name = doc.sections[i].0.as_str();
        assert(heads[i as int].0 == name@);
        if !has_name(&secs, name) {
            return Err(refuse_section(path, name, doc.sections[i].1, &secs, apart));
        }
        i += 1;
    }
    let ghost es = doc@.entries;
    let mut j: usize = 0;
    while j < doc.entries.len()
        invariant
            j <= doc.entries.len(),
            es == doc@.entries,
            heads == doc@.sections,
            fs@ == schema(),
            section_faults(path@, heads, apart@, 0) is None,
            key_faults(path@, es, apart@, 0) == key_faults(path@, es, apart@, j as int),
        decreases doc.entries.len() - j,
    {
        let e = &doc.entries[j];
        assert(es[j as int] == e@);
        if find_kind(fs.as_slice(), e.section.as_str(), e.key.as_str()).is_none() {
            return Err(refuse_key(path, e, fs.as_slice(), apart));
        }
        j += 1;
    }
    Ok(())
}

// ---------------------------------------------------------------------------
// Types

/// Whether a value is of the type that a setting takes. Of an array this
/// says nothing of its elements.
pub open spec fn fits(k: Kind, v: toml::ValueView) -> bool {
    match k {
        Kind::Str => v is Str,
        Kind::Int => v is Int,
        Kind::Bool => v is Bool,
        Kind::StrArray => v is Arr,
        Kind::IntArray => v is Arr,
    }
}

/// Whether an element may stand in the array that a setting takes.
pub open spec fn item_fits(k: Kind, v: toml::ItemView) -> bool {
    match k {
        Kind::StrArray => v is Str,
        Kind::IntArray => v is Int,
        _ => true,
    }
}

/// The first index at or behind `i` of an element that may not stand there,
/// or the number of elements.
pub open spec fn misfit(k: Kind, v: Seq<toml::ItemView>, i: int) -> int
    decreases v.len() - i,
{
    if i < 0 || i >= v.len() {
        v.len() as int
    } else if item_fits(k, v[i]) {
        misfit(k, v, i + 1)
    } else {
        i
    }
}

pub open spec fn element_name(k: Kind) -> Seq<char> {
    if k == Kind::StrArray {
        "` must be a string, found "@
    } else {
        "` must be an integer, found "@
    }
}

/// What is said of the value of an entry whose setting takes `k`.
pub open spec fn type_fault(path: Seq<char>, e: toml::EntryView, k: Kind) -> Option<toml::Fault> {
    if !fits(k, e.value) {
        Some(
            toml::at_entry(
                path,
                e,
                "`"@ + e.key + "` takes "@ + kind_name(k) + ", but this is "@ + toml::value_type(
                    e.value,
                ),
            ),
        )
    } else {
        match e.value {
            toml::ValueView::Arr(items) => {
                let i = misfit(k, items, 0);
                if 0 <= i < items.len() {
                    Some(
                        toml::at_entry(
                            path,
                            e,
                            "every element of `"@ + e.key + element_name(k) + toml::item_type(
                                items[i],
                            ),
                        ),
                    )
                } else {
                    None
                }
            },
            _ => None,
        }
    }
}

/// The first value of the wrong type among the entries from `i` on.
pub open spec fn type_faults(path: Seq<char>, es: Seq<toml::EntryView>, i: int) -> Option<
    toml::Fault,
>
    decreases es.len() - i,
{
    if i < 0 || i >= es.len() {
        None
    } else {
        let here = match kind_of(es[i].section, es[i].key) {
            Some(k) => type_fault(path, es[i], k),
            None => None,
        };
        or(here, type_faults(path, es, i + 1))
    }
}

fn find_misfit(k: Kind, v: &[Item]) -> (r: usize)
    ensures
        r == misfit(k, toml::item_views(v@), 0),
        r <= v.len(),
{
    let ghost all = toml::item_views(v@);
    let mut i: usize = 0;
    while i < v.len()
        invariant
            i <= v.len(),
            all == toml::item_views(v@),
            misfit(k, all, 0) == misfit(k, all, i as int),
        decreases v.len() - i,
    {
        assert(all[i as int] == v@[i as int]@);
        let good = match (k, &v[i]) {
            (Kind::StrArray, Item::Str(_)) => true,
            (Kind::StrArray, _) => false,
            (Kind::IntArray, Item::Int(_)) => true,
            (Kind::IntArray, _) => false,
            _ => true,
        };
        if !good {
            return i;
        }
        i += 1;
    }
    i
}

fn check_type(path: &str, e: &Entry, k: Kind) -> (r: Result<(), Diagnostic>)
    ensures
        r is Ok <==> type_fault(path@, e@, k) is None,
        r matches Err(d) ==> type_fault(path@, e@, k) == Some(d@),
{
    let good = match (k, &e.value) {
        (Kind::Str, Value::Str(_)) => true,
        (Kind::Int, Value::Int(_)) => true,
        (Kind::Bool, Value::Bool(_)) => true,
        (Kind::StrArray, Value::Arr(_)) => true,
        (Kind::IntArray, Value::Arr(_)) => true,
        _ => false,
    };
    if !good {
        let mut m = "`".to_owned();
        m.append(e.key.as_str());
        m.append("` takes ");
        m.append(k.name());
        m.append(", but this is ");
        m.append(e.value.kind());
        return Err(Diagnostic::at_entry(path, e, m));
    }
    match &e.value {
        Value::Arr(items) => {
            let i: usize = find_misfit(k, items.as_slice());
            if i < items.len() {
                assert(toml::item_views(items@)[i as int] == items@[i as int]@);
                let mut m = "every element of `".to_owned();
                m.append(e.key.as_str());
                m.append(
                    if k == Kind::StrArray {
                        "` must be a string, found "
                    } else {
                        "` must be an integer, found "
                    },
                );
                m.append(items[i].kind());
                return Err(Diagnostic::at_entry(path, e, m));
            }
            Ok(())
        },
        _ => Ok(()),
    }
}

/// Refuses a document that gives a setting a value of the wrong type.
pub fn check_types(path: &str, doc: &Document) -> (r: Result<(), Diagnostic>)
    ensures
        r is Ok <==> type_faults(path@, doc@.entries, 0) is None,
        r matches Err(d) ==> type_faults(path@, doc@.entries, 0) == Some(d@),
{
    let fs = fields();
    let ghost es = doc@.entries;
    let mut i: usize = 0;
    while i < doc.entries.len()
        invariant
            i <= doc.entries.len(),
            es == doc@.entries,
            fs@ == schema(),
            type_faults(path@, es, 0) == type_faults(path@, es, i as int),
        decreases doc.entries.len() - i,
    {
        let e = &doc.entries[i];
        assert(es[i as int] == e@);
        match find_kind(fs.as_slice(), e.section.as_str(), e.key.as_str()) {
            Some(k) => {
                match check_type(path, e, k) {
                    Ok(()) => {},
                    Err(d) => {
                        return Err(d);
                    },
                }
            },
            None => {},
        }
        i += 1;
    }
    Ok(())
}

// ---------------------------------------------------------------------------
// Which names are compared

/// Two names to compare: an unknown one, and a known one.
pub type Pair = (Seq<char>, Seq<char>);

/// An unknown name and each of the known ones.
pub open spec fn against(name: Seq<char>, known: Seq<Seq<char>>) -> Seq<Pair> {
    Seq::new(known.len(), |k: int| (name, known[k]))
}

/// The unknown sections, each against every section.
pub open spec fn strange_sections(secs: Seq<(Seq<char>, usize)>) -> Seq<Pair>
    decreases secs.len(),
{
    if secs.len() == 0 {
        Seq::empty()
    } else if section_names(schema()).contains(secs.last().0) {
        strange_sections(secs.drop_last())
    } else {
        strange_sections(secs.drop_last()) + against(secs.last().0, section_names(schema()))
    }
}

/// The unknown keys, each against every key of its section.
pub open spec fn strange_keys(es: Seq<toml::EntryView>) -> Seq<Pair>
    decreases es.len(),
{
    if es.len() == 0 {
        Seq::empty()
    } else if kind_of(es.last().section, es.last().key) is Some {
        strange_keys(es.drop_last())
    } else {
        strange_keys(es.drop_last()) + against(
            es.last().key,
            keys_of(schema(), es.last().section),
        )
    }
}

/// The names of a document that are not known, against those that are.
pub open spec fn strange(d: toml::DocView) -> Seq<Pair> {
    strange_sections(d.sections) + strange_keys(d.entries)
}

pub open spec fn pairs(v: Seq<(String, &'static str)>) -> Seq<Pair> {
    Seq::new(v.len(), |i: int| (v[i].0@, v[i].1@))
}

fn push_against(v: &mut Vec<(String, &'static str)>, name: &str, known: &Vec<&'static str>)
    ensures
        pairs(final(v)@) == pairs(old(v)@) + against(name@, names::name_views(known@)),
{
    let ghost before = pairs(v@);
    let ghost add = against(name@, names::name_views(known@));
    let mut i: usize = 0;
    assert(before + add.take(0) =~= before);
    while i < known.len()
        invariant
            i <= known@.len(),
            add == against(name@, names::name_views(known@)),
            pairs(v@) == before + add.take(i as int),
        decreases known@.len() - i,
    {
        let ghost now = pairs(v@);
        v.push((name.to_owned(), known[i]));
        assert(pairs(v@) =~= now.push((name@, known@[i as int]@)));
        assert(before + add.take(i as int + 1) =~= now.push(add[i as int]));
        i += 1;
    }
    assert(add.take(i as int) =~= add);
}

/// The names of a document that are not known, against those that are: whoever
/// knows how far they are apart knows all that `check_unknown` asks.
pub fn strangers(doc: &Document) -> (v: Vec<(String, &'static str)>)
    ensures
        pairs(v@) == strange(doc@),
{
    let fs = fields();
    let secs = sections_of(fs.as_slice());
    let mut v: Vec<(String, &'static str)> = Vec::new();
    let ghost heads = doc@.sections;
    let mut i: usize = 0;
    assert(heads.take(0) =~= Seq::<(Seq<char>, usize)>::empty());
    assert(pairs(v@) =~= Seq::<Pair>::empty());
    while i < doc.sections.len()
        invariant
            i <= doc.sections.len(),
            heads == doc@.sections,
            names::name_views(secs@) == section_names(schema()),
            pairs(v@) == strange_sections(heads.take(i as int)),
        decreases doc.sections.len() - i,
    {
        let name = doc.sections[i].0.as_str();
        assert(heads[i as int].0 == name@);
        assert(heads.take(i as int + 1).drop_last() =~= heads.take(i as int));
        if !has_name(&secs, name) {
            push_against(&mut v, name, &secs);
        }
        i += 1;
    }
    assert(heads.take(i as int) =~= heads);
    let ghost es = doc@.entries;
    let ghost first = pairs(v@);
    let mut j: usize = 0;
    assert(es.take(0) =~= Seq::<toml::EntryView>::empty());
    assert(pairs(v@) =~= first + strange_keys(es.take(0)));
    while j < doc.entries.len()
        invariant
            j <= doc.entries.len(),
            es == doc@.entries,
            fs@ == schema(),
            pairs(v@) == first + strange_keys(es.take(j as int)),
        decreases doc.entries.len() - j,
    {
        let e = &doc.entries[j];
        assert(es[j as int] == e@);
        assert(es.take(j as int + 1).drop_last() =~= es.take(j as int));
        if find_kind(fs.as_slice(), e.section.as_str(), e.key.as_str()).is_none() {
            let known = keys_in(fs.as_slice(), e.section.as_str());
            let ghost before = strange_keys(es.take(j as int));
            push_against(&mut v, e.key.as_str(), &known);
            assert(pairs(v@) =~= first + (before + against(e@.key, keys_of(schema(), e@.section))));
        }
        j += 1;
    }
    assert(es.take(j as int) =~= es);
    v
}

/// Whether two accounts of how far names are apart agree on the pairs.
pub open spec fn agree(a: Seq<Apart>, b: Seq<Apart>, ps: Seq<Pair>) -> bool {
    forall|i: int|
        0 <= i < ps.len() ==> names::distance(a, (#[trigger] ps[i]).0, ps[i].1) == names::distance(
            b,
            ps[i].0,
            ps[i].1,
        )
}

proof fn lemma_meant_agrees(a: Seq<Apart>, b: Seq<Apart>, name: Seq<char>, known: Seq<Seq<char>>)
    requires
        agree(a, b, against(name, known)),
    ensures
        names::nearest(a, name, known) == names::nearest(b, name, known),
        names::meant(a, name, known) == names::meant(b, name, known),
    decreases known.len(),
{
    let ps = against(name, known);
    if known.len() > 0 {
        names::law_the_nearest_name_is_the_first_of_the_nearest(a, name, known, 0);
        if known.len() > 1 {
            let head = known.drop_last();
            assert forall|i: int| 0 <= i < against(name, head).len() implies names::distance(
                a,
                (#[trigger] against(name, head)[i]).0,
                against(name, head)[i].1,
            ) == names::distance(b, against(name, head)[i].0, against(name, head)[i].1) by {
                assert(ps[i] == against(name, head)[i]);
            }
            lemma_meant_agrees(a, b, name, head);
            names::law_the_nearest_name_is_the_first_of_the_nearest(a, name, head, 0);
            assert(ps[names::nearest(a, name, head)] == (name, head[names::nearest(a, name, head)]));
            assert(ps[known.len() - 1] == (name, known.last()));
        }
        assert(ps[names::nearest(a, name, known)] == (name, known[names::nearest(a, name, known)]));
    }
}

/// What is said of a section that is not known rests on the pairs of its name.
proof fn lemma_sections_agree(
    path: Seq<char>,
    secs: Seq<(Seq<char>, usize)>,
    a: Seq<Apart>,
    b: Seq<Apart>,
    i: int,
)
    requires
        0 <= i <= secs.len(),
        agree(a, b, strange_sections(secs)),
    ensures
        section_faults(path, secs, a, i) == section_faults(path, secs, b, i),
    decreases secs.len() - i,
{
    if i < secs.len() {
        lemma_sections_agree(path, secs, a, b, i + 1);
        if !section_names(schema()).contains(secs[i].0) {
            lemma_section_is_asked(secs, i, a, b);
            lemma_meant_agrees(a, b, secs[i].0, section_names(schema()));
        }
    }
}

proof fn lemma_agree_parts(a: Seq<Apart>, b: Seq<Apart>, x: Seq<Pair>, y: Seq<Pair>)
    requires
        agree(a, b, x + y),
    ensures
        agree(a, b, x),
        agree(a, b, y),
{
    assert forall|i: int| 0 <= i < x.len() implies names::distance(a, (#[trigger] x[i]).0, x[i].1)
        == names::distance(b, x[i].0, x[i].1) by {
        assert((x + y)[i] == x[i]);
    }
    assert forall|i: int| 0 <= i < y.len() implies names::distance(a, (#[trigger] y[i]).0, y[i].1)
        == names::distance(b, y[i].0, y[i].1) by {
        assert((x + y)[x.len() + i] == y[i]);
    }
}

proof fn lemma_section_is_asked(
    secs: Seq<(Seq<char>, usize)>,
    i: int,
    a: Seq<Apart>,
    b: Seq<Apart>,
)
    requires
        0 <= i < secs.len(),
        !section_names(schema()).contains(secs[i].0),
        agree(a, b, strange_sections(secs)),
    ensures
        agree(a, b, against(secs[i].0, section_names(schema()))),
    decreases secs.len(),
{
    let head = secs.drop_last();
    if !section_names(schema()).contains(secs.last().0) {
        lemma_agree_parts(
            a,
            b,
            strange_sections(head),
            against(secs.last().0, section_names(schema())),
        );
    }
    if i < secs.len() - 1 {
        assert(head[i] == secs[i]);
        lemma_section_is_asked(head, i, a, b);
    }
}

proof fn lemma_key_is_asked(es: Seq<toml::EntryView>, i: int, a: Seq<Apart>, b: Seq<Apart>)
    requires
        0 <= i < es.len(),
        kind_of(es[i].section, es[i].key) is None,
        agree(a, b, strange_keys(es)),
    ensures
        agree(a, b, against(es[i].key, keys_of(schema(), es[i].section))),
    decreases es.len(),
{
    let head = es.drop_last();
    if kind_of(es.last().section, es.last().key) is None {
        lemma_agree_parts(
            a,
            b,
            strange_keys(head),
            against(es.last().key, keys_of(schema(), es.last().section)),
        );
    }
    if i < es.len() - 1 {
        assert(head[i] == es[i]);
        lemma_key_is_asked(head, i, a, b);
    }
}

proof fn lemma_keys_agree(
    path: Seq<char>,
    es: Seq<toml::EntryView>,
    a: Seq<Apart>,
    b: Seq<Apart>,
    i: int,
)
    requires
        0 <= i <= es.len(),
        agree(a, b, strange_keys(es)),
    ensures
        key_faults(path, es, a, i) == key_faults(path, es, b, i),
    decreases es.len() - i,
{
    if i < es.len() {
        lemma_keys_agree(path, es, a, b, i + 1);
        if kind_of(es[i].section, es[i].key) is None {
            lemma_key_is_asked(es, i, a, b);
            lemma_meant_agrees(a, b, es[i].key, keys_of(schema(), es[i].section));
        }
    }
}

/// What is said of unknown names rests on nothing but how far they are from the
/// known ones: on the pairs that `strangers` gives.
pub proof fn law_the_pairs_are_enough(
    path: Seq<char>,
    d: toml::DocView,
    a: Seq<Apart>,
    b: Seq<Apart>,
)
    requires
        agree(a, b, strange(d)),
    ensures
        unknown(path, d, a) == unknown(path, d, b),
{
    lemma_agree_parts(a, b, strange_sections(d.sections), strange_keys(d.entries));
    lemma_sections_agree(path, d.sections, a, b, 0);
    lemma_keys_agree(path, d.entries, a, b, 0);
}

// ---------------------------------------------------------------------------
// What passes

/// A document that passes holds no setting that does not exist, and every
/// value that it holds is of the type that its setting takes.
pub proof fn law_what_passes_is_known_and_typed(
    path: Seq<char>,
    d: toml::DocView,
    apart: Seq<Apart>,
    i: int,
)
    requires
        unknown(path, d, apart) is None,
        type_faults(path, d.entries, 0) is None,
        0 <= i < d.entries.len(),
    ensures
        kind_of(d.entries[i].section, d.entries[i].key) matches Some(k) && fits(
            k,
            d.entries[i].value,
        ),
{
    lemma_faults_from(path, d.entries, apart, 0, i);
}

proof fn lemma_faults_from(
    path: Seq<char>,
    es: Seq<toml::EntryView>,
    apart: Seq<Apart>,
    i: int,
    k: int,
)
    requires
        0 <= i <= k < es.len(),
        key_faults(path, es, apart, i) is None,
        type_faults(path, es, i) is None,
    ensures
        kind_of(es[k].section, es[k].key) matches Some(t) && fits(t, es[k].value),
    decreases k - i,
{
    if i < k {
        lemma_faults_from(path, es, apart, i + 1, k);
    }
}

} // verus!
