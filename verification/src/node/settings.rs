//! The values of a document's settings, and the ranges that whole numbers
//! must lie in.

use vstd::prelude::*;
use crate::node::toml;
use crate::node::toml::{Diagnostic, Document, Item, Value};
use crate::text;
use crate::text::{push_dec, same};

verus! {

/// The most peers a node can have.
pub const MAX_PEERS: i64 = 128;

/// The most stratum connections a node can have.
pub const STRATUM_CONNECTION_CEILING: i64 = 8192;

/// The most entries a table can have.
pub const TABLE_CEILING: i64 = 16_777_216;

/// The largest value of an unsigned number of 32 bits.
pub const U32_TOP: i64 = 4_294_967_295;

// ---------------------------------------------------------------------------
// Values

/// The text that the document gives the setting.
pub open spec fn str_at(d: toml::DocView, section: Seq<char>, key: Seq<char>) -> Option<Seq<char>> {
    match toml::entry(d, section, key) {
        Some(e) => match e.value {
            toml::ValueView::Str(s) => Some(s),
            _ => None,
        },
        None => None,
    }
}

/// The whole number that the document gives the setting.
pub open spec fn int_at(d: toml::DocView, section: Seq<char>, key: Seq<char>) -> Option<i64> {
    match toml::entry(d, section, key) {
        Some(e) => match e.value {
            toml::ValueView::Int(n) => Some(n),
            _ => None,
        },
        None => None,
    }
}

/// The truth value that the document gives the setting.
pub open spec fn bool_at(d: toml::DocView, section: Seq<char>, key: Seq<char>) -> Option<bool> {
    match toml::entry(d, section, key) {
        Some(e) => match e.value {
            toml::ValueView::Bool(b) => Some(b),
            _ => None,
        },
        None => None,
    }
}

/// The array that the document gives the setting.
pub open spec fn items_at(d: toml::DocView, section: Seq<char>, key: Seq<char>) -> Option<
    Seq<toml::ItemView>,
> {
    match toml::entry(d, section, key) {
        Some(e) => match e.value {
            toml::ValueView::Arr(v) => Some(v),
            _ => None,
        },
        None => None,
    }
}

/// The texts among the elements, in order.
pub open spec fn texts_of(v: Seq<toml::ItemView>) -> Seq<Seq<char>>
    decreases v.len(),
{
    if v.len() == 0 {
        Seq::empty()
    } else {
        let head = texts_of(v.drop_last());
        match v.last() {
            toml::ItemView::Str(s) => head.push(s),
            _ => head,
        }
    }
}

/// The whole numbers among the elements, in order.
pub open spec fn ints_of(v: Seq<toml::ItemView>) -> Seq<i64>
    decreases v.len(),
{
    if v.len() == 0 {
        Seq::empty()
    } else {
        let head = ints_of(v.drop_last());
        match v.last() {
            toml::ItemView::Int(n) => head.push(n),
            _ => head,
        }
    }
}

/// `a`, or `b` where there is no `a`.
pub open spec fn or_else<T>(a: Option<T>, b: T) -> T {
    match a {
        Some(x) => x,
        None => b,
    }
}

pub open spec fn strings(v: Seq<String>) -> Seq<Seq<char>> {
    Seq::new(v.len(), |k: int| v[k]@)
}

/// The text of the setting, or `default`.
pub fn read_str(doc: &Document, section: &str, key: &str, default: &str) -> (s: String)
    ensures
        s@ == or_else(str_at(doc@, section@, key@), default@),
{
    match doc.get(section, key) {
        Some(e) => match &e.value {
            Value::Str(s) => s.as_str().to_owned(),
            _ => default.to_owned(),
        },
        None => default.to_owned(),
    }
}

/// The whole number of the setting, or `default`.
pub fn read_int(doc: &Document, section: &str, key: &str, default: i64) -> (n: i64)
    ensures
        n == or_else(int_at(doc@, section@, key@), default),
{
    match doc.get(section, key) {
        Some(e) => match &e.value {
            Value::Int(n) => *n,
            _ => default,
        },
        None => default,
    }
}

/// The truth value of the setting, or `default`.
pub fn read_bool(doc: &Document, section: &str, key: &str, default: bool) -> (b: bool)
    ensures
        b == or_else(bool_at(doc@, section@, key@), default),
{
    match doc.get(section, key) {
        Some(e) => match &e.value {
            Value::Bool(b) => *b,
            _ => default,
        },
        None => default,
    }
}

/// The texts of the setting's array, if it has one.
pub fn read_strings(doc: &Document, section: &str, key: &str) -> (r: Option<Vec<String>>)
    ensures
        r is Some <==> items_at(doc@, section@, key@) is Some,
        r matches Some(v) ==> strings(v@) == texts_of(items_at(doc@, section@, key@)->Some_0),
{
    let items: &Vec<Item> = match doc.get(section, key) {
        Some(e) => match &e.value {
            Value::Arr(v) => v,
            _ => {
                return None;
            },
        },
        None => {
            return None;
        },
    };
    let ghost all = toml::item_views(items@);
    let mut v: Vec<String> = Vec::new();
    let mut i: usize = 0;
    assert(all.take(0) =~= Seq::<toml::ItemView>::empty());
    assert(strings(v@) =~= Seq::<Seq<char>>::empty());
    while i < items.len()
        invariant
            i <= items.len(),
            all == toml::item_views(items@),
            strings(v@) == texts_of(all.take(i as int)),
        decreases items.len() - i,
    {
        assert(all.take(i as int + 1).drop_last() =~= all.take(i as int));
        assert(all.take(i as int + 1).last() == items@[i as int]@);
        let ghost before = strings(v@);
        match &items[i] {
            Item::Str(s) => {
                v.push(s.as_str().to_owned());
                assert(strings(v@) =~= before.push(s@));
            },
            _ => {},
        }
        i += 1;
    }
    assert(all.take(i as int) =~= all);
    Some(v)
}

/// The whole numbers of the setting's array, if it has one.
pub fn read_ints(doc: &Document, section: &str, key: &str) -> (r: Option<Vec<i64>>)
    ensures
        r is Some <==> items_at(doc@, section@, key@) is Some,
        r matches Some(v) ==> v@ == ints_of(items_at(doc@, section@, key@)->Some_0),
{
    let items: &Vec<Item> = match doc.get(section, key) {
        Some(e) => match &e.value {
            Value::Arr(v) => v,
            _ => {
                return None;
            },
        },
        None => {
            return None;
        },
    };
    let ghost all = toml::item_views(items@);
    let mut v: Vec<i64> = Vec::new();
    let mut i: usize = 0;
    assert(all.take(0) =~= Seq::<toml::ItemView>::empty());
    while i < items.len()
        invariant
            i <= items.len(),
            all == toml::item_views(items@),
            v@ == ints_of(all.take(i as int)),
        decreases items.len() - i,
    {
        assert(all.take(i as int + 1).drop_last() =~= all.take(i as int));
        assert(all.take(i as int + 1).last() == items@[i as int]@);
        match &items[i] {
            Item::Int(n) => {
                v.push(*n);
            },
            _ => {},
        }
        i += 1;
    }
    assert(all.take(i as int) =~= all);
    Some(v)
}

// ---------------------------------------------------------------------------
// Ranges

/// A whole number in decimal.
pub open spec fn whole(n: int) -> Seq<char> {
    if n < 0 {
        "-"@ + text::dec((-n) as nat)
    } else {
        text::dec(n as nat)
    }
}

/// A whole number in decimal.
pub fn whole_of(n: i64) -> (s: String)
    ensures
        s@ == whole(n as int),
{
    if n < 0 {
        let mut s = "-".to_owned();
        let m: u64 = (-(n + 1)) as u64 + 1;
        push_dec(&mut s, m);
        s
    } else {
        text::dec_of(n as u64)
    }
}

/// A setting that is a whole number, with its default and the least and the
/// greatest value it can have.
#[derive(Clone, Copy, Debug)]
pub struct Range {
    pub section: &'static str,
    pub key: &'static str,
    pub default: i64,
    pub lo: i64,
    pub hi: i64,
}

/// What the document says of its settings, and where it came from.
pub struct Sheet {
    pub path: Seq<char>,
    pub doc: toml::DocView,
    pub nofile: u64,
}

impl Range {
    pub open spec fn value(self, d: toml::DocView) -> i64 {
        or_else(int_at(d, self.section@, self.key@), self.default)
    }

    /// Why the bound is where it is, where that is worth saying.
    pub open spec fn reason(self, nofile: u64) -> Option<Seq<char>> {
        if self.section@ == "stratum"@ && self.key@ == "max_connections"@ {
            Some(
                "the ceiling of "@ + whole(self.hi as int)
                    + " comes with the file-descriptor budget; raise LimitNOFILE to "@ + text::dec(
                    nofile as nat,
                ) + " before going near it."@,
            )
        } else if self.section@ == "mempool"@ && self.key@ == "relay_fee_mile"@ {
            Some(RELAY_FEE_NOTE@)
        } else if (self.section@ == "p2p"@ && self.key@ == "max_peers"@) || (self.section@
            == "mempool"@ && self.key@ == "max_txs"@) {
            Some("this ceiling is a frozen consensus-adjacent limit."@)
        } else {
            None
        }
    }

    /// What is said of a value outside the range.
    pub open spec fn fault(self, s: Sheet) -> Option<toml::Fault> {
        let v = self.value(s.doc);
        if self.lo <= v <= self.hi {
            None
        } else {
            let f = toml::at(
                s.path,
                s.doc,
                self.section@,
                self.key@,
                self.section@ + "."@ + self.key@ + " = "@ + whole(v as int) + " is outside "@
                    + whole(self.lo as int) + "..="@ + whole(self.hi as int),
            ).helped("the default is "@ + whole(self.default as int));
            Some(
                match self.reason(s.nofile) {
                    Some(n) => f.noted(n),
                    None => f,
                },
            )
        }
    }

    fn say_why(self, nofile: u64) -> (r: Option<String>)
        ensures
            toml::text_view(r) == self.reason(nofile),
    {
        if same(self.section, "stratum") && same(self.key, "max_connections") {
            let mut t = "the ceiling of ".to_owned();
            t.append(whole_of(self.hi).as_str());
            t.append(" comes with the file-descriptor budget; raise LimitNOFILE to ");
            push_dec(&mut t, nofile);
            t.append(" before going near it.");
            Some(t)
        } else if same(self.section, "mempool") && same(self.key, "relay_fee_mile") {
            Some(RELAY_FEE_NOTE.to_owned())
        } else if (same(self.section, "p2p") && same(self.key, "max_peers")) || (same(
            self.section,
            "mempool",
        ) && same(self.key, "max_txs")) {
            Some("this ceiling is a frozen consensus-adjacent limit.".to_owned())
        } else {
            None
        }
    }

    fn refuse(self, path: &str, doc: &Document, nofile: u64, v: i64) -> (d: Diagnostic)
        requires
            v == self.value(doc@),
            !(self.lo <= v <= self.hi),
        ensures
            self.fault((Sheet { path: path@, doc: doc@, nofile })) == Some(d@),
    {
        let mut m = self.section.to_owned();
        m.append(".");
        m.append(self.key);
        m.append(" = ");
        m.append(whole_of(v).as_str());
        m.append(" is outside ");
        m.append(whole_of(self.lo).as_str());
        m.append("..=");
        m.append(whole_of(self.hi).as_str());
        let mut h = "the default is ".to_owned();
        h.append(whole_of(self.default).as_str());
        let d = Diagnostic::at(path, doc, self.section, self.key, m).with_help(h.as_str());
        match self.say_why(nofile) {
            Some(n) => d.with_note(n.as_str()),
            None => d,
        }
    }

    /// The value of the setting, if it lies in the range.
    pub fn read(self, path: &str, doc: &Document, nofile: u64) -> (r: Result<i64, Diagnostic>)
        ensures
            r is Ok <==> self.fault((Sheet { path: path@, doc: doc@, nofile })) is None,
            r matches Ok(v) ==> v == self.value(doc@) && self.lo <= v <= self.hi,
            r matches Err(d) ==> self.fault((Sheet { path: path@, doc: doc@, nofile })) == Some(
                d@,
            ),
    {
        let v: i64 = read_int(doc, self.section, self.key, self.default);
        if v < self.lo || v > self.hi {
            Err(self.refuse(path, doc, nofile, v))
        } else {
            Ok(v)
        }
    }
}

pub const RELAY_FEE_NOTE: &'static str =
    "this is the operator's RELAY policy. The consensus floor is 1 mile and config cannot move it.";

pub open spec fn max_peers() -> Range {
    Range { section: "p2p", key: "max_peers", default: MAX_PEERS, lo: 1, hi: MAX_PEERS }
}

pub open spec fn max_connections() -> Range {
    Range { section: "stratum", key: "max_connections", default: 256, lo: 1, hi: STRATUM_CONNECTION_CEILING }
}

pub open spec fn max_per_ip() -> Range {
    Range { section: "stratum", key: "max_per_ip", default: 16, lo: 0, hi: i64::MAX }
}

pub open spec fn new_conns_per_ip_per_min() -> Range {
    Range { section: "stratum", key: "new_conns_per_ip_per_min", default: 6, lo: 0, hi: U32_TOP }
}

pub open spec fn global_accept_per_sec() -> Range {
    Range { section: "stratum", key: "global_accept_per_sec", default: 50, lo: 0, hi: U32_TOP }
}

pub open spec fn ban_threshold() -> Range {
    Range { section: "stratum", key: "ban_threshold", default: 100, lo: 0, hi: U32_TOP }
}

pub open spec fn ban_soft_cap() -> Range {
    Range { section: "stratum", key: "ban_soft_cap", default: 25, lo: 0, hi: U32_TOP }
}

pub open spec fn ban_decay_secs() -> Range {
    Range { section: "stratum", key: "ban_decay_secs", default: 6, lo: 1, hi: i64::MAX }
}

pub open spec fn ban_base_secs() -> Range {
    Range { section: "stratum", key: "ban_base_secs", default: 600, lo: 1, hi: i64::MAX }
}

pub open spec fn ban_ladder_factor() -> Range {
    Range { section: "stratum", key: "ban_ladder_factor", default: 4, lo: 1, hi: i64::MAX }
}

pub open spec fn ban_max_secs() -> Range {
    Range { section: "stratum", key: "ban_max_secs", default: 86400, lo: 1, hi: i64::MAX }
}

pub open spec fn ban_table_entries() -> Range {
    Range { section: "stratum", key: "ban_table_entries", default: 65536, lo: 1, hi: TABLE_CEILING }
}

pub open spec fn garbage_throttle_secs() -> Range {
    Range { section: "stratum", key: "garbage_throttle_secs", default: 60, lo: 0, hi: i64::MAX }
}

pub open spec fn submit_rate_per_sec() -> Range {
    Range { section: "stratum", key: "submit_rate_per_sec", default: 3, lo: 0, hi: i64::MAX }
}

pub open spec fn submit_burst() -> Range {
    Range { section: "stratum", key: "submit_burst", default: 10, lo: 0, hi: i64::MAX }
}

pub open spec fn line_rate_per_sec() -> Range {
    Range { section: "stratum", key: "line_rate_per_sec", default: 20, lo: 0, hi: i64::MAX }
}

pub open spec fn line_burst() -> Range {
    Range { section: "stratum", key: "line_burst", default: 60, lo: 0, hi: i64::MAX }
}

pub open spec fn auth_deadline_secs() -> Range {
    Range { section: "stratum", key: "auth_deadline_secs", default: 10, lo: 0, hi: i64::MAX }
}

pub open spec fn idle_evict_secs() -> Range {
    Range { section: "stratum", key: "idle_evict_secs", default: 1800, lo: 0, hi: i64::MAX }
}

pub open spec fn read_deadline_secs() -> Range {
    Range { section: "stratum", key: "read_deadline_secs", default: 600, lo: 0, hi: i64::MAX }
}

pub open spec fn write_timeout_secs() -> Range {
    Range { section: "stratum", key: "write_timeout_secs", default: 30, lo: 0, hi: i64::MAX }
}

pub open spec fn out_buf_cap_bytes() -> Range {
    Range { section: "stratum", key: "out_buf_cap_bytes", default: 4096, lo: 0, hi: i64::MAX }
}

pub open spec fn vardiff_setpoint_secs() -> Range {
    Range { section: "stratum", key: "vardiff_setpoint_secs", default: 0, lo: 0, hi: i64::MAX }
}

pub open spec fn vardiff_tick_secs() -> Range {
    Range { section: "stratum", key: "vardiff_tick_secs", default: 2, lo: 1, hi: i64::MAX }
}

pub open spec fn vardiff_min_diff() -> Range {
    Range { section: "stratum", key: "vardiff_min_diff", default: 8192, lo: 1, hi: i64::MAX }
}

pub open spec fn vardiff_start_diff() -> Range {
    Range { section: "stratum", key: "vardiff_start_diff", default: 60000, lo: 1, hi: i64::MAX }
}

pub open spec fn vardiff_warmup_shares() -> Range {
    Range { section: "stratum", key: "vardiff_warmup_shares", default: 30, lo: 0, hi: U32_TOP }
}

pub open spec fn vardiff_warmup_gate_shares() -> Range {
    Range { section: "stratum", key: "vardiff_warmup_gate_shares", default: 5, lo: 1, hi: U32_TOP }
}

pub open spec fn vardiff_retarget_gate_shares() -> Range {
    Range { section: "stratum", key: "vardiff_retarget_gate_shares", default: 20, lo: 1, hi: U32_TOP }
}

pub open spec fn vardiff_retarget_gate_secs() -> Range {
    Range { section: "stratum", key: "vardiff_retarget_gate_secs", default: 120, lo: 1, hi: i64::MAX }
}

pub open spec fn vardiff_mature_shares() -> Range {
    Range { section: "stratum", key: "vardiff_mature_shares", default: 60, lo: 0, hi: U32_TOP }
}

pub open spec fn vardiff_max_step() -> Range {
    Range { section: "stratum", key: "vardiff_max_step", default: 4, lo: 2, hi: 1_000_000 }
}

pub open spec fn vardiff_dead_zone_pct() -> Range {
    Range { section: "stratum", key: "vardiff_dead_zone_pct", default: 150, lo: 101, hi: 100_000 }
}

pub open spec fn vardiff_mature_zone_pct() -> Range {
    Range { section: "stratum", key: "vardiff_mature_zone_pct", default: 115, lo: 101, hi: 100_000 }
}

pub open spec fn vardiff_fast_escape_pct() -> Range {
    Range { section: "stratum", key: "vardiff_fast_escape_pct", default: 170, lo: 101, hi: 100_000 }
}

pub open spec fn vardiff_silence_slack() -> Range {
    Range { section: "stratum", key: "vardiff_silence_slack", default: 4, lo: 1, hi: i64::MAX }
}

pub open spec fn vardiff_dsps_tau_fast_secs() -> Range {
    Range { section: "stratum", key: "vardiff_dsps_tau_fast_secs", default: 60, lo: 1, hi: i64::MAX }
}

pub open spec fn vardiff_dsps_tau_mid_secs() -> Range {
    Range { section: "stratum", key: "vardiff_dsps_tau_mid_secs", default: 300, lo: 1, hi: i64::MAX }
}

pub open spec fn vardiff_dsps_tau_slow_secs() -> Range {
    Range { section: "stratum", key: "vardiff_dsps_tau_slow_secs", default: 3600, lo: 1, hi: i64::MAX }
}

pub open spec fn vardiff_fixed_diff() -> Range {
    Range { section: "stratum", key: "vardiff_fixed_diff", default: 0, lo: 0, hi: i64::MAX }
}

pub open spec fn vardiff_max_diff() -> Range {
    Range { section: "stratum", key: "vardiff_max_diff", default: 0, lo: 0, hi: i64::MAX }
}

pub open spec fn diff_cache_entries() -> Range {
    Range { section: "stratum", key: "diff_cache_entries", default: 65536, lo: 1, hi: TABLE_CEILING }
}

pub open spec fn diff_cache_ttl_secs() -> Range {
    Range { section: "stratum", key: "diff_cache_ttl_secs", default: 86400, lo: 1, hi: i64::MAX }
}

pub open spec fn reconnect_storm_per_min() -> Range {
    Range { section: "stratum", key: "reconnect_storm_per_min", default: 4, lo: 0, hi: U32_TOP }
}

pub open spec fn reconnect_storm_window_secs() -> Range {
    Range { section: "stratum", key: "reconnect_storm_window_secs", default: 300, lo: 1, hi: i64::MAX }
}

pub open spec fn relay_fee_mile() -> Range {
    Range { section: "mempool", key: "relay_fee_mile", default: 1, lo: 1, hi: i64::MAX }
}

pub open spec fn threshold() -> Range {
    Range { section: "checkpoints", key: "threshold", default: 1, lo: 1, hi: i64::MAX }
}

/// The mempool can be made smaller than it is built to be, not larger.
pub open spec fn max_txs(top: i64) -> Range {
    Range { section: "mempool", key: "max_txs", default: top, lo: 1, hi: top }
}

} // verus!
