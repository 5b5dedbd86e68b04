//! The policy of the stratum server: connection caps, bans, rate limits,
//! deadlines and difficulty control.

use vstd::prelude::*;
use crate::node::schema;
use crate::node::settings;
use crate::node::settings::{
    read_bool, read_ints, whole_of, Range, STRATUM_CONNECTION_CEILING, TABLE_CEILING, U32_TOP,
};
use crate::node::toml;
use crate::node::toml::{Diagnostic, Document};

verus! {

/// A document that is being read.
#[derive(Clone, Copy)]
pub struct Reader<'a> {
    pub path: &'a str,
    pub doc: &'a Document,
    /// The number of files the node needs to hold open at its busiest.
    pub nofile: u64,
}

impl<'a> Reader<'a> {
    pub open spec fn sheet(self) -> settings::Sheet {
        settings::Sheet { path: self.path@, doc: self.doc@, nofile: self.nofile }
    }

    /// The value of the setting, if it lies in the range.
    pub fn number(&self, range: Range) -> (r: Result<i64, Diagnostic>)
        ensures
            r is Ok <==> range.fault(self.sheet()) is None,
            r matches Ok(v) ==> v == range.value(self.doc@) && range.lo <= v <= range.hi,
            r matches Err(d) ==> range.fault(self.sheet()) == Some(d@),
    {
        range.read(self.path, self.doc, self.nofile)
    }

    /// The truth value of the setting, or `default`.
    pub fn flag(&self, section: &str, key: &str, default: bool) -> (b: bool)
        ensures
            b == settings::or_else(settings::bool_at(self.doc@, section@, key@), default),
    {
        read_bool(self.doc, section, key, default)
    }

    /// A fault of the value of a setting.
    pub fn at(&self, section: &str, key: &str, message: String) -> (d: Diagnostic)
        ensures
            d@ == toml::at(self.path@, self.doc@, section@, key@, message@),
    {
        Diagnostic::at(self.path, self.doc, section, key, message)
    }
}

/// A time in milliseconds that a setting gives in seconds, as far as it fits.
pub open spec fn ms(secs: i64) -> u64 {
    if secs * 1000 <= u64::MAX {
        (secs * 1000) as u64
    } else {
        u64::MAX
    }
}

fn in_ms(secs: i64) -> (n: u64)
    requires
        secs >= 0,
    ensures
        n == ms(secs),
{
    if secs as u64 > u64::MAX / 1000 {
        u64::MAX
    } else {
        secs as u64 * 1000
    }
}

/// How misbehaviour is scored and answered.
#[derive(Clone, Copy, Debug, PartialEq, Eq)]
pub struct BanPolicy {
    pub enabled: bool,
    pub threshold: u32,
    pub soft_cap: u32,
    pub decay_secs: u64,
    pub base_secs: u64,
    pub ladder_factor: u64,
    pub max_secs: u64,
    pub table_entries: u64,
    pub throttle_ms: u64,
}

/// How fast a connection may submit shares and send lines.
#[derive(Clone, Copy, Debug, PartialEq, Eq)]
pub struct RatePolicy {
    pub submit_enabled: bool,
    pub submit_per_sec: u64,
    pub submit_burst: u64,
    pub line_enabled: bool,
    pub line_per_sec: u64,
    pub line_burst: u64,
}

/// What difficulty a connection begins with.
#[derive(Clone, Copy, Debug, PartialEq, Eq)]
pub struct DiffPolicy {
    pub start_diff: u64,
    pub min_diff: u64,
    pub cache_entries: u64,
    pub cache_ttl_ms: u64,
    pub storm_enabled: bool,
    pub storm_per_min: u32,
    pub storm_window_ms: u64,
}

/// How difficulty follows the rate of shares. The zones are in hundredths and
/// the rungs of the ladder in tenths.
#[derive(Clone, Debug, PartialEq, Eq)]
pub struct Cadence {
    pub warmup_shares: u32,
    pub warmup_gate_shares: u32,
    pub retarget_gate_shares: u32,
    pub retarget_gate_secs: u64,
    pub mature_shares: u32,
    pub max_step: u64,
    pub dead_zone_pct: u64,
    pub mature_zone_pct: u64,
    pub fast_escape_pct: u64,
    pub silence_slack: u64,
    pub tau: [u64; 3],
    pub ladder: Vec<i64>,
}

/// What is wrong with the settings on bans.
pub open spec fn bans_fault(s: settings::Sheet) -> Option<toml::Fault> {
    schema::or(
        schema::or(
        schema::or(
        schema::or(
        schema::or(
        schema::or(
        schema::or(
        settings::ban_threshold().fault(s),
        settings::ban_soft_cap().fault(s),
    ),
        settings::ban_decay_secs().fault(s),
    ),
        settings::ban_base_secs().fault(s),
    ),
        settings::ban_ladder_factor().fault(s),
    ),
        settings::ban_max_secs().fault(s),
    ),
        settings::ban_table_entries().fault(s),
    ),
        settings::garbage_throttle_secs().fault(s),
    )
}

/// The settings on bans.
pub open spec fn bans_of(d: toml::DocView) -> BanPolicy {
    BanPolicy {
        enabled: settings::or_else(settings::bool_at(d, "stratum"@, "bans_enabled"@), true),
        threshold: settings::ban_threshold().value(d) as u32,
        soft_cap: settings::ban_soft_cap().value(d) as u32,
        decay_secs: settings::ban_decay_secs().value(d) as u64,
        base_secs: settings::ban_base_secs().value(d) as u64,
        ladder_factor: settings::ban_ladder_factor().value(d) as u64,
        max_secs: settings::ban_max_secs().value(d) as u64,
        table_entries: settings::ban_table_entries().value(d) as u64,
        throttle_ms: ms(settings::garbage_throttle_secs().value(d)),
    }
}

fn read_bans(r: &Reader) -> (x: Result<BanPolicy, Diagnostic>)
    ensures
        x is Ok <==> bans_fault(r.sheet()) is None,
        x matches Ok(p) ==> p == bans_of(r.doc@),
        x matches Err(d) ==> bans_fault(r.sheet()) == Some(d@),
{
    let v_ban_threshold: i64 = match r.number(
        Range { section: "stratum", key: "ban_threshold", default: 100, lo: 0, hi: U32_TOP },
    ) {
        Ok(v) => v,
        Err(d) => {
            return Err(d);
        },
    };
    let v_ban_soft_cap: i64 = match r.number(
        Range { section: "stratum", key: "ban_soft_cap", default: 25, lo: 0, hi: U32_TOP },
    ) {
        Ok(v) => v,
        Err(d) => {
            return Err(d);
        },
    };
    let v_ban_decay_secs: i64 = match r.number(
        Range { section: "stratum", key: "ban_decay_secs", default: 6, lo: 1, hi: i64::MAX },
    ) {
        Ok(v) => v,
        Err(d) => {
            return Err(d);
        },
    };
    let v_ban_base_secs: i64 = match r.number(
        Range { section: "stratum", key: "ban_base_secs", default: 600, lo: 1, hi: i64::MAX },
    ) {
        Ok(v) => v,
        Err(d) => {
            return Err(d);
        },
    };
    let v_ban_ladder_factor: i64 = match r.number(
        Range { section: "stratum", key: "ban_ladder_factor", default: 4, lo: 1, hi: i64::MAX },
    ) {
        Ok(v) => v,
        Err(d) => {
            return Err(d);
        },
    };
    let v_ban_max_secs: i64 = match r.number(
        Range { section: "stratum", key: "ban_max_secs", default: 86400, lo: 1, hi: i64::MAX },
    ) {
        Ok(v) => v,
        Err(d) => {
            return Err(d);
        },
    };
    let v_ban_table_entries: i64 = match r.number(
        Range { section: "stratum", key: "ban_table_entries", default: 65536, lo: 1, hi: TABLE_CEILING },
    ) {
        Ok(v) => v,
        Err(d) => {
            return Err(d);
        },
    };
    let v_garbage_throttle_secs: i64 = match r.number(
        Range { section: "stratum", key: "garbage_throttle_secs", default: 60, lo: 0, hi: i64::MAX },
    ) {
        Ok(v) => v,
        Err(d) => {
            return Err(d);
        },
    };
    Ok(
        BanPolicy {
            enabled: r.flag("stratum", "bans_enabled", true),
            threshold: v_ban_threshold as u32,
            soft_cap: v_ban_soft_cap as u32,
            decay_secs: v_ban_decay_secs as u64,
            base_secs: v_ban_base_secs as u64,
            ladder_factor: v_ban_ladder_factor as u64,
            max_secs: v_ban_max_secs as u64,
            table_entries: v_ban_table_entries as u64,
            throttle_ms: in_ms(v_garbage_throttle_secs),
        },
    )
}

/// What is wrong with the settings on rates.
pub open spec fn rates_fault(s: settings::Sheet) -> Option<toml::Fault> {
    schema::or(
        schema::or(
        schema::or(
        settings::submit_rate_per_sec().fault(s),
        settings::submit_burst().fault(s),
    ),
        settings::line_rate_per_sec().fault(s),
    ),
        settings::line_burst().fault(s),
    )
}

/// The settings on rates.
pub open spec fn rates_of(d: toml::DocView) -> RatePolicy {
    RatePolicy {
        submit_enabled: settings::submit_rate_per_sec().value(d) > 0,
        submit_per_sec: settings::submit_rate_per_sec().value(d) as u64,
        submit_burst: settings::submit_burst().value(d) as u64,
        line_enabled: settings::line_rate_per_sec().value(d) > 0,
        line_per_sec: settings::line_rate_per_sec().value(d) as u64,
        line_burst: settings::line_burst().value(d) as u64,
    }
}

fn read_rates(r: &Reader) -> (x: Result<RatePolicy, Diagnostic>)
    ensures
        x is Ok <==> rates_fault(r.sheet()) is None,
        x matches Ok(p) ==> p == rates_of(r.doc@),
        x matches Err(d) ==> rates_fault(r.sheet()) == Some(d@),
{
    let v_submit_rate_per_sec: i64 = match r.number(
        Range { section: "stratum", key: "submit_rate_per_sec", default: 3, lo: 0, hi: i64::MAX },
    ) {
        Ok(v) => v,
        Err(d) => {
            return Err(d);
        },
    };
    let v_submit_burst: i64 = match r.number(
        Range { section: "stratum", key: "submit_burst", default: 10, lo: 0, hi: i64::MAX },
    ) {
        Ok(v) => v,
        Err(d) => {
            return Err(d);
        },
    };
    let v_line_rate_per_sec: i64 = match r.number(
        Range { section: "stratum", key: "line_rate_per_sec", default: 20, lo: 0, hi: i64::MAX },
    ) {
        Ok(v) => v,
        Err(d) => {
            return Err(d);
        },
    };
    let v_line_burst: i64 = match r.number(
        Range { section: "stratum", key: "line_burst", default: 60, lo: 0, hi: i64::MAX },
    ) {
        Ok(v) => v,
        Err(d) => {
            return Err(d);
        },
    };
    Ok(
        RatePolicy {
            submit_enabled: v_submit_rate_per_sec > 0,
            submit_per_sec: v_submit_rate_per_sec as u64,
            submit_burst: v_submit_burst as u64,
            line_enabled: v_line_rate_per_sec > 0,
            line_per_sec: v_line_rate_per_sec as u64,
            line_burst: v_line_burst as u64,
        },
    )
}

/// How many connections there may be. A cap of zero caps nothing.
#[derive(Clone, Copy, Debug, PartialEq, Eq)]
pub struct Caps {
    pub max_per_ip: u64,
    pub new_conns_per_ip_per_min: u32,
    pub global_accept_per_sec: u32,
}

/// The deadlines of a connection. One of zero never passes.
#[derive(Clone, Copy, Debug, PartialEq, Eq)]
pub struct Deadlines {
    pub auth_ms: u64,
    pub idle_evict_ms: u64,
    pub read_ms: u64,
    pub write_ms: u64,
    pub out_buf_cap: u64,
}

/// What is wrong with the connection caps.
pub open spec fn caps_fault(s: settings::Sheet) -> Option<toml::Fault> {
    schema::or(
        schema::or(
        settings::max_per_ip().fault(s),
        settings::new_conns_per_ip_per_min().fault(s),
    ),
        settings::global_accept_per_sec().fault(s),
    )
}

/// The connection caps.
pub open spec fn caps_of(d: toml::DocView) -> Caps {
    Caps {
        max_per_ip: settings::max_per_ip().value(d) as u64,
        new_conns_per_ip_per_min: settings::new_conns_per_ip_per_min().value(d) as u32,
        global_accept_per_sec: settings::global_accept_per_sec().value(d) as u32,
    }
}

fn read_caps(r: &Reader) -> (x: Result<Caps, Diagnostic>)
    ensures
        x is Ok <==> caps_fault(r.sheet()) is None,
        x matches Ok(p) ==> p == caps_of(r.doc@),
        x matches Err(d) ==> caps_fault(r.sheet()) == Some(d@),
{
    let v_max_per_ip: i64 = match r.number(
        Range { section: "stratum", key: "max_per_ip", default: 16, lo: 0, hi: i64::MAX },
    ) {
        Ok(v) => v,
        Err(d) => {
            return Err(d);
        },
    };
    let v_new_conns_per_ip_per_min: i64 = match r.number(
        Range { section: "stratum", key: "new_conns_per_ip_per_min", default: 6, lo: 0, hi: U32_TOP },
    ) {
        Ok(v) => v,
        Err(d) => {
            return Err(d);
        },
    };
    let v_global_accept_per_sec: i64 = match r.number(
        Range { section: "stratum", key: "global_accept_per_sec", default: 50, lo: 0, hi: U32_TOP },
    ) {
        Ok(v) => v,
        Err(d) => {
            return Err(d);
        },
    };
    Ok(
        Caps {
            max_per_ip: v_max_per_ip as u64,
            new_conns_per_ip_per_min: v_new_conns_per_ip_per_min as u32,
            global_accept_per_sec: v_global_accept_per_sec as u32,
        },
    )
}

/// What is wrong with the deadlines.
pub open spec fn deadlines_fault(s: settings::Sheet) -> Option<toml::Fault> {
    schema::or(
        schema::or(
        schema::or(
        schema::or(
        settings::auth_deadline_secs().fault(s),
        settings::idle_evict_secs().fault(s),
    ),
        settings::read_deadline_secs().fault(s),
    ),
        settings::write_timeout_secs().fault(s),
    ),
        settings::out_buf_cap_bytes().fault(s),
    )
}

/// The deadlines.
pub open spec fn deadlines_of(d: toml::DocView) -> Deadlines {
    Deadlines {
        auth_ms: ms(settings::auth_deadline_secs().value(d)),
        idle_evict_ms: ms(settings::idle_evict_secs().value(d)),
        read_ms: ms(settings::read_deadline_secs().value(d)),
        write_ms: ms(settings::write_timeout_secs().value(d)),
        out_buf_cap: settings::out_buf_cap_bytes().value(d) as u64,
    }
}

fn read_deadlines(r: &Reader) -> (x: Result<Deadlines, Diagnostic>)
    ensures
        x is Ok <==> deadlines_fault(r.sheet()) is None,
        x matches Ok(p) ==> p == deadlines_of(r.doc@),
        x matches Err(d) ==> deadlines_fault(r.sheet()) == Some(d@),
{
    let v_auth_deadline_secs: i64 = match r.number(
        Range { section: "stratum", key: "auth_deadline_secs", default: 10, lo: 0, hi: i64::MAX },
    ) {
        Ok(v) => v,
        Err(d) => {
            return Err(d);
        },
    };
    let v_idle_evict_secs: i64 = match r.number(
        Range { section: "stratum", key: "idle_evict_secs", default: 1800, lo: 0, hi: i64::MAX },
    ) {
        Ok(v) => v,
        Err(d) => {
            return Err(d);
        },
    };
    let v_read_deadline_secs: i64 = match r.number(
        Range { section: "stratum", key: "read_deadline_secs", default: 600, lo: 0, hi: i64::MAX },
    ) {
        Ok(v) => v,
        Err(d) => {
            return Err(d);
        },
    };
    let v_write_timeout_secs: i64 = match r.number(
        Range { section: "stratum", key: "write_timeout_secs", default: 30, lo: 0, hi: i64::MAX },
    ) {
        Ok(v) => v,
        Err(d) => {
            return Err(d);
        },
    };
    let v_out_buf_cap_bytes: i64 = match r.number(
        Range { section: "stratum", key: "out_buf_cap_bytes", default: 4096, lo: 0, hi: i64::MAX },
    ) {
        Ok(v) => v,
        Err(d) => {
            return Err(d);
        },
    };
    Ok(
        Deadlines {
            auth_ms: in_ms(v_auth_deadline_secs),
            idle_evict_ms: in_ms(v_idle_evict_secs),
            read_ms: in_ms(v_read_deadline_secs),
            write_ms: in_ms(v_write_timeout_secs),
            out_buf_cap: v_out_buf_cap_bytes as u64,
        },
    )
}

// ---------------------------------------------------------------------------
// The ladder

/// The most rungs a ladder can have.
pub const LADDER_MAX: usize = 16;

/// The rungs of the ladder that a document does not change.
pub open spec fn usual_ladder() -> Seq<i64> {
    seq![10i64, 12i64, 15i64, 20i64, 25i64, 30i64, 40i64, 50i64, 60i64, 80i64]
}

/// The rungs that the document lists, if it does.
pub open spec fn rungs(d: toml::DocView) -> Option<Seq<i64>> {
    match settings::items_at(d, "stratum"@, "vardiff_ladder"@) {
        Some(v) => Some(settings::ints_of(v)),
        None => None,
    }
}

/// The rungs in force.
pub open spec fn ladder_of(d: toml::DocView) -> Seq<i64> {
    settings::or_else(rungs(d), usual_ladder())
}

/// The rung below the one at `i`.
pub open spec fn below(v: Seq<i64>, i: int) -> i64 {
    if i == 0 {
        0
    } else {
        v[i - 1]
    }
}

/// The first rung at or behind `i` that is out of range or does not rise, or
/// the number of rungs.
pub open spec fn weak_rung(v: Seq<i64>, i: int) -> int
    decreases v.len() - i,
{
    if i < 0 || i >= v.len() {
        v.len() as int
    } else if v[i] < 10 || v[i] > 999 || v[i] <= below(v, i) {
        i
    } else {
        weak_rung(v, i + 1)
    }
}

pub open spec fn at_ladder(s: settings::Sheet, m: Seq<char>) -> toml::Fault {
    toml::at(s.path, s.doc, "stratum"@, "vardiff_ladder"@, m)
}

/// What is wrong with the rungs that the document lists.
pub open spec fn ladder_fault(s: settings::Sheet) -> Option<toml::Fault> {
    match rungs(s.doc) {
        Some(v) => {
            let i = weak_rung(v, 0);
            if v.len() == 0 || v.len() > LADDER_MAX {
                Some(
                    at_ladder(s, "vardiff_ladder must have 1..=16 entries"@).helped(
                        "each entry is a mantissa x10 in 10..=999, e.g. [10, 12, 15, 20, 40]"@,
                    ),
                )
            } else if i >= v.len() {
                None
            } else if v[i] < 10 || v[i] > 999 {
                Some(
                    at_ladder(
                        s,
                        "vardiff_ladder entry "@ + settings::whole(v[i] as int)
                            + " is outside 10..=999"@,
                    ).helped("entries are mantissas x10: 10 = 1.0, 15 = 1.5, 80 = 8.0"@),
                )
            } else {
                Some(
                    at_ladder(
                        s,
                        "vardiff_ladder must strictly increase; "@ + settings::whole(v[i] as int)
                            + " follows "@ + settings::whole(below(v, i) as int),
                    ).helped("list the rungs low to high with no repeats"@),
                )
            }
        },
        None => None,
    }
}

fn read_ladder(r: &Reader) -> (x: Result<Vec<i64>, Diagnostic>)
    ensures
        x is Ok <==> ladder_fault(r.sheet()) is None,
        x matches Ok(v) ==> v@ == ladder_of(r.doc@),
        x matches Err(d) ==> ladder_fault(r.sheet()) == Some(d@),
{
    let v: Vec<i64> = match read_ints(r.doc, "stratum", "vardiff_ladder") {
        Some(v) => v,
        None => {
            let u: Vec<i64> = vec![10, 12, 15, 20, 25, 30, 40, 50, 60, 80];
            assert(u@ =~= usual_ladder());
            return Ok(u);
        },
    };
    if v.len() == 0 || v.len() > LADDER_MAX {
        let d = r.at(
            "stratum",
            "vardiff_ladder",
            "vardiff_ladder must have 1..=16 entries".to_owned(),
        );
        return Err(
            d.with_help("each entry is a mantissa x10 in 10..=999, e.g. [10, 12, 15, 20, 40]"),
        );
    }
    let mut prev: i64 = 0;
    let mut i: usize = 0;
    while i < v.len()
        invariant
            i <= v.len(),
            0 < v.len() <= LADDER_MAX,
            rungs(r.doc@) == Some(v@),
            prev == below(v@, i as int),
            weak_rung(v@, 0) == weak_rung(v@, i as int),
        decreases v.len() - i,
    {
        let n: i64 = v[i];
        if n < 10 || n > 999 {
            let mut m = "vardiff_ladder entry ".to_owned();
            m.append(whole_of(n).as_str());
            m.append(" is outside 10..=999");
            let d = r.at("stratum", "vardiff_ladder", m);
            return Err(d.with_help("entries are mantissas x10: 10 = 1.0, 15 = 1.5, 80 = 8.0"));
        }
        if n <= prev {
            let mut m = "vardiff_ladder must strictly increase; ".to_owned();
            m.append(whole_of(n).as_str());
            m.append(" follows ");
            m.append(whole_of(prev).as_str());
            let d = r.at("stratum", "vardiff_ladder", m);
            return Err(d.with_help("list the rungs low to high with no repeats"));
        }
        prev = n;
        i += 1;
    }
    Ok(v)
}

/// Whatever ladder is in force, it has one to sixteen rungs, each of them in
/// range and higher than the one below it.
pub proof fn law_the_ladder_rises(s: settings::Sheet, i: int, j: int)
    requires
        ladder_fault(s) is None,
        0 <= i < j < ladder_of(s.doc).len(),
    ensures
        10 <= ladder_of(s.doc)[i] < ladder_of(s.doc)[j] <= 999,
        ladder_of(s.doc).len() <= LADDER_MAX,
{
    let v = ladder_of(s.doc);
    if rungs(s.doc) is Some {
        lemma_no_weak_rung(v, 0, i);
        lemma_no_weak_rung(v, 0, j);
        lemma_rungs_rise(v, i, j);
    }
}

proof fn lemma_no_weak_rung(v: Seq<i64>, i: int, k: int)
    requires
        0 <= i <= k < v.len(),
        weak_rung(v, i) >= v.len(),
    ensures
        10 <= v[k] <= 999,
        v[k] > below(v, k),
        weak_rung(v, k) >= v.len(),
    decreases k - i,
{
    if i < k {
        lemma_no_weak_rung(v, i + 1, k);
    }
}

proof fn lemma_rungs_rise(v: Seq<i64>, i: int, j: int)
    requires
        0 <= i < j < v.len(),
        weak_rung(v, i) >= v.len(),
    ensures
        v[i] < v[j],
    decreases j - i,
{
    lemma_no_weak_rung(v, i, j);
    if i + 1 < j {
        lemma_rungs_rise(v, i, j - 1);
    }
}

// ---------------------------------------------------------------------------
// Difficulty control

/// What is wrong with the cadence of difficulty control.
pub open spec fn cadence_fault(s: settings::Sheet) -> Option<toml::Fault> {
    schema::or(
        schema::or(
        schema::or(
        schema::or(
        schema::or(
        schema::or(
        schema::or(
        schema::or(
        schema::or(
        schema::or(
        schema::or(
        schema::or(
        settings::vardiff_warmup_shares().fault(s),
        settings::vardiff_warmup_gate_shares().fault(s),
    ),
        settings::vardiff_retarget_gate_shares().fault(s),
    ),
        settings::vardiff_retarget_gate_secs().fault(s),
    ),
        settings::vardiff_mature_shares().fault(s),
    ),
        settings::vardiff_max_step().fault(s),
    ),
        settings::vardiff_dead_zone_pct().fault(s),
    ),
        settings::vardiff_mature_zone_pct().fault(s),
    ),
        settings::vardiff_fast_escape_pct().fault(s),
    ),
        settings::vardiff_silence_slack().fault(s),
    ),
        settings::vardiff_dsps_tau_fast_secs().fault(s),
    ),
        settings::vardiff_dsps_tau_mid_secs().fault(s),
    ),
        settings::vardiff_dsps_tau_slow_secs().fault(s),
    )
}

/// Whether `c` is the cadence that the document asks for.
pub open spec fn is_cadence(c: Cadence, d: toml::DocView) -> bool {
    &&& c.warmup_shares == settings::vardiff_warmup_shares().value(d) as u32
    &&& c.warmup_gate_shares == settings::vardiff_warmup_gate_shares().value(d) as u32
    &&& c.retarget_gate_shares == settings::vardiff_retarget_gate_shares().value(d) as u32
    &&& c.retarget_gate_secs == settings::vardiff_retarget_gate_secs().value(d) as u64
    &&& c.mature_shares == settings::vardiff_mature_shares().value(d) as u32
    &&& c.max_step == settings::vardiff_max_step().value(d) as u64
    &&& c.dead_zone_pct == settings::vardiff_dead_zone_pct().value(d) as u64
    &&& c.mature_zone_pct == settings::vardiff_mature_zone_pct().value(d) as u64
    &&& c.fast_escape_pct == settings::vardiff_fast_escape_pct().value(d) as u64
    &&& c.silence_slack == settings::vardiff_silence_slack().value(d) as u64
    &&& c.tau@ == seq![
        settings::vardiff_dsps_tau_fast_secs().value(d) as u64,
        settings::vardiff_dsps_tau_mid_secs().value(d) as u64,
        settings::vardiff_dsps_tau_slow_secs().value(d) as u64,
    ]
    &&& c.ladder@ == ladder_of(d)
}

fn read_cadence(r: &Reader, ladder: Vec<i64>) -> (x: Result<Cadence, Diagnostic>)
    requires
        ladder@ == ladder_of(r.doc@),
    ensures
        x is Ok <==> cadence_fault(r.sheet()) is None,
        x matches Ok(c) ==> is_cadence(c, r.doc@),
        x matches Err(d) ==> cadence_fault(r.sheet()) == Some(d@),
{
    let v_vardiff_warmup_shares: i64 = match r.number(
        Range { section: "stratum", key: "vardiff_warmup_shares", default: 30, lo: 0, hi: U32_TOP },
    ) {
        Ok(v) => v,
        Err(d) => {
            return Err(d);
        },
    };
    let v_vardiff_warmup_gate_shares: i64 = match r.number(
        Range { section: "stratum", key: "vardiff_warmup_gate_shares", default: 5, lo: 1, hi: U32_TOP },
    ) {
        Ok(v) => v,
        Err(d) => {
            return Err(d);
        },
    };
    let v_vardiff_retarget_gate_shares: i64 = match r.number(
        Range { section: "stratum", key: "vardiff_retarget_gate_shares", default: 20, lo: 1, hi: U32_TOP },
    ) {
        Ok(v) => v,
        Err(d) => {
            return Err(d);
        },
    };
    let v_vardiff_retarget_gate_secs: i64 = match r.number(
        Range { section: "stratum", key: "vardiff_retarget_gate_secs", default: 120, lo: 1, hi: i64::MAX },
    ) {
        Ok(v) => v,
        Err(d) => {
            return Err(d);
        },
    };
    let v_vardiff_mature_shares: i64 = match r.number(
        Range { section: "stratum", key: "vardiff_mature_shares", default: 60, lo: 0, hi: U32_TOP },
    ) {
        Ok(v) => v,
        Err(d) => {
            return Err(d);
        },
    };
    let v_vardiff_max_step: i64 = match r.number(
        Range { section: "stratum", key: "vardiff_max_step", default: 4, lo: 2, hi: 1_000_000 },
    ) {
        Ok(v) => v,
        Err(d) => {
            return Err(d);
        },
    };
    let v_vardiff_dead_zone_pct: i64 = match r.number(
        Range { section: "stratum", key: "vardiff_dead_zone_pct", default: 150, lo: 101, hi: 100_000 },
    ) {
        Ok(v) => v,
        Err(d) => {
            return Err(d);
        },
    };
    let v_vardiff_mature_zone_pct: i64 = match r.number(
        Range { section: "stratum", key: "vardiff_mature_zone_pct", default: 115, lo: 101, hi: 100_000 },
    ) {
        Ok(v) => v,
        Err(d) => {
            return Err(d);
        },
    };
    let v_vardiff_fast_escape_pct: i64 = match r.number(
        Range { section: "stratum", key: "vardiff_fast_escape_pct", default: 170, lo: 101, hi: 100_000 },
    ) {
        Ok(v) => v,
        Err(d) => {
            return Err(d);
        },
    };
    let v_vardiff_silence_slack: i64 = match r.number(
        Range { section: "stratum", key: "vardiff_silence_slack", default: 4, lo: 1, hi: i64::MAX },
    ) {
        Ok(v) => v,
        Err(d) => {
            return Err(d);
        },
    };
    let v_vardiff_dsps_tau_fast_secs: i64 = match r.number(
        Range { section: "stratum", key: "vardiff_dsps_tau_fast_secs", default: 60, lo: 1, hi: i64::MAX },
    ) {
        Ok(v) => v,
        Err(d) => {
            return Err(d);
        },
    };
    let v_vardiff_dsps_tau_mid_secs: i64 = match r.number(
        Range { section: "stratum", key: "vardiff_dsps_tau_mid_secs", default: 300, lo: 1, hi: i64::MAX },
    ) {
        Ok(v) => v,
        Err(d) => {
            return Err(d);
        },
    };
    let v_vardiff_dsps_tau_slow_secs: i64 = match r.number(
        Range { section: "stratum", key: "vardiff_dsps_tau_slow_secs", default: 3600, lo: 1, hi: i64::MAX },
    ) {
        Ok(v) => v,
        Err(d) => {
            return Err(d);
        },
    };
    let c = Cadence {
        warmup_shares: v_vardiff_warmup_shares as u32,
        warmup_gate_shares: v_vardiff_warmup_gate_shares as u32,
        retarget_gate_shares: v_vardiff_retarget_gate_shares as u32,
        retarget_gate_secs: v_vardiff_retarget_gate_secs as u64,
        mature_shares: v_vardiff_mature_shares as u32,
        max_step: v_vardiff_max_step as u64,
        dead_zone_pct: v_vardiff_dead_zone_pct as u64,
        mature_zone_pct: v_vardiff_mature_zone_pct as u64,
        fast_escape_pct: v_vardiff_fast_escape_pct as u64,
        silence_slack: v_vardiff_silence_slack as u64,
        tau: [
            v_vardiff_dsps_tau_fast_secs as u64,
            v_vardiff_dsps_tau_mid_secs as u64,
            v_vardiff_dsps_tau_slow_secs as u64,
        ],
        ladder,
    };
    assert(c.tau@ =~= seq![
        settings::vardiff_dsps_tau_fast_secs().value(r.doc@) as u64,
        settings::vardiff_dsps_tau_mid_secs().value(r.doc@) as u64,
        settings::vardiff_dsps_tau_slow_secs().value(r.doc@) as u64,
    ]);
    Ok(c)
}

/// The period, the setpoint and the bounds of difficulty control.
#[derive(Clone, Copy, Debug, PartialEq, Eq)]
pub struct Bounds {
    pub setpoint_secs: u64,
    pub tick_ms: u64,
    pub min_diff: u64,
    pub start_diff: u64,
}

/// A difficulty to hold every connection at, and one not to go above. Zero is
/// neither.
#[derive(Clone, Copy, Debug, PartialEq, Eq)]
pub struct Tops {
    pub fixed_diff: u64,
    pub max_diff: u64,
}

/// What the document says of the difficulties that are remembered.
#[derive(Clone, Copy, Debug, PartialEq, Eq)]
pub struct Memory {
    pub cache_entries: u64,
    pub cache_ttl_ms: u64,
    pub storm_per_min: u32,
    pub storm_window_ms: u64,
}

/// What is wrong with the bounds of difficulty control.
pub open spec fn bounds_fault(s: settings::Sheet) -> Option<toml::Fault> {
    schema::or(
        schema::or(
        schema::or(
        settings::vardiff_setpoint_secs().fault(s),
        settings::vardiff_tick_secs().fault(s),
    ),
        settings::vardiff_min_diff().fault(s),
    ),
        settings::vardiff_start_diff().fault(s),
    )
}

/// The bounds of difficulty control.
pub open spec fn bounds_of(d: toml::DocView) -> Bounds {
    Bounds {
        setpoint_secs: settings::vardiff_setpoint_secs().value(d) as u64,
        tick_ms: ms(settings::vardiff_tick_secs().value(d)),
        min_diff: settings::vardiff_min_diff().value(d) as u64,
        start_diff: settings::vardiff_start_diff().value(d) as u64,
    }
}

fn read_bounds(r: &Reader) -> (x: Result<Bounds, Diagnostic>)
    ensures
        x is Ok <==> bounds_fault(r.sheet()) is None,
        x matches Ok(p) ==> p == bounds_of(r.doc@),
        x matches Err(d) ==> bounds_fault(r.sheet()) == Some(d@),
{
    let v_vardiff_setpoint_secs: i64 = match r.number(
        Range { section: "stratum", key: "vardiff_setpoint_secs", default: 0, lo: 0, hi: i64::MAX },
    ) {
        Ok(v) => v,
        Err(d) => {
            return Err(d);
        },
    };
    let v_vardiff_tick_secs: i64 = match r.number(
        Range { section: "stratum", key: "vardiff_tick_secs", default: 2, lo: 1, hi: i64::MAX },
    ) {
        Ok(v) => v,
        Err(d) => {
            return Err(d);
        },
    };
    let v_vardiff_min_diff: i64 = match r.number(
        Range { section: "stratum", key: "vardiff_min_diff", default: 8192, lo: 1, hi: i64::MAX },
    ) {
        Ok(v) => v,
        Err(d) => {
            return Err(d);
        },
    };
    let v_vardiff_start_diff: i64 = match r.number(
        Range { section: "stratum", key: "vardiff_start_diff", default: 60000, lo: 1, hi: i64::MAX },
    ) {
        Ok(v) => v,
        Err(d) => {
            return Err(d);
        },
    };
    Ok(
        Bounds {
            setpoint_secs: v_vardiff_setpoint_secs as u64,
            tick_ms: in_ms(v_vardiff_tick_secs),
            min_diff: v_vardiff_min_diff as u64,
            start_diff: v_vardiff_start_diff as u64,
        },
    )
}

/// What is wrong with the fixed and the greatest difficulty.
pub open spec fn tops_fault(s: settings::Sheet) -> Option<toml::Fault> {
    schema::or(
        settings::vardiff_fixed_diff().fault(s),
        settings::vardiff_max_diff().fault(s),
    )
}

/// The fixed and the greatest difficulty.
pub open spec fn tops_of(d: toml::DocView) -> Tops {
    Tops {
        fixed_diff: settings::vardiff_fixed_diff().value(d) as u64,
        max_diff: settings::vardiff_max_diff().value(d) as u64,
    }
}

fn read_tops(r: &Reader) -> (x: Result<Tops, Diagnostic>)
    ensures
        x is Ok <==> tops_fault(r.sheet()) is None,
        x matches Ok(p) ==> p == tops_of(r.doc@),
        x matches Err(d) ==> tops_fault(r.sheet()) == Some(d@),
{
    let v_vardiff_fixed_diff: i64 = match r.number(
        Range { section: "stratum", key: "vardiff_fixed_diff", default: 0, lo: 0, hi: i64::MAX },
    ) {
        Ok(v) => v,
        Err(d) => {
            return Err(d);
        },
    };
    let v_vardiff_max_diff: i64 = match r.number(
        Range { section: "stratum", key: "vardiff_max_diff", default: 0, lo: 0, hi: i64::MAX },
    ) {
        Ok(v) => v,
        Err(d) => {
            return Err(d);
        },
    };
    Ok(
        Tops {
            fixed_diff: v_vardiff_fixed_diff as u64,
            max_diff: v_vardiff_max_diff as u64,
        },
    )
}

/// What is wrong with the difficulties that are remembered.
pub open spec fn memory_fault(s: settings::Sheet) -> Option<toml::Fault> {
    schema::or(
        schema::or(
        schema::or(
        settings::diff_cache_entries().fault(s),
        settings::diff_cache_ttl_secs().fault(s),
    ),
        settings::reconnect_storm_per_min().fault(s),
    ),
        settings::reconnect_storm_window_secs().fault(s),
    )
}

/// The difficulties that are remembered.
pub open spec fn memory_of(d: toml::DocView) -> Memory {
    Memory {
        cache_entries: settings::diff_cache_entries().value(d) as u64,
        cache_ttl_ms: ms(settings::diff_cache_ttl_secs().value(d)),
        storm_per_min: settings::reconnect_storm_per_min().value(d) as u32,
        storm_window_ms: ms(settings::reconnect_storm_window_secs().value(d)),
    }
}

fn read_memory(r: &Reader) -> (x: Result<Memory, Diagnostic>)
    ensures
        x is Ok <==> memory_fault(r.sheet()) is None,
        x matches Ok(p) ==> p == memory_of(r.doc@),
        x matches Err(d) ==> memory_fault(r.sheet()) == Some(d@),
{
    let v_diff_cache_entries: i64 = match r.number(
        Range { section: "stratum", key: "diff_cache_entries", default: 65536, lo: 1, hi: TABLE_CEILING },
    ) {
        Ok(v) => v,
        Err(d) => {
            return Err(d);
        },
    };
    let v_diff_cache_ttl_secs: i64 = match r.number(
        Range { section: "stratum", key: "diff_cache_ttl_secs", default: 86400, lo: 1, hi: i64::MAX },
    ) {
        Ok(v) => v,
        Err(d) => {
            return Err(d);
        },
    };
    let v_reconnect_storm_per_min: i64 = match r.number(
        Range { section: "stratum", key: "reconnect_storm_per_min", default: 4, lo: 0, hi: U32_TOP },
    ) {
        Ok(v) => v,
        Err(d) => {
            return Err(d);
        },
    };
    let v_reconnect_storm_window_secs: i64 = match r.number(
        Range { section: "stratum", key: "reconnect_storm_window_secs", default: 300, lo: 1, hi: i64::MAX },
    ) {
        Ok(v) => v,
        Err(d) => {
            return Err(d);
        },
    };
    Ok(
        Memory {
            cache_entries: v_diff_cache_entries as u64,
            cache_ttl_ms: in_ms(v_diff_cache_ttl_secs),
            storm_per_min: v_reconnect_storm_per_min as u32,
            storm_window_ms: in_ms(v_reconnect_storm_window_secs),
        },
    )
}

// ---------------------------------------------------------------------------
// The whole policy

/// The policy of the stratum server.
#[derive(Clone, Debug, PartialEq, Eq)]
pub struct Stratum {
    pub max_connections: u64,
    pub enforcement: bool,
    pub caps: Caps,
    pub bans: BanPolicy,
    pub rates: RatePolicy,
    pub deadlines: Deadlines,
    pub diff: DiffPolicy,
    pub cadence: Cadence,
    pub vardiff_enabled: bool,
    pub tops: Tops,
    pub setpoint_secs: u64,
    pub tick_ms: u64,
}

/// The greatest difficulty, where there is one, is not below the least.
pub open spec fn top_fault(s: settings::Sheet) -> Option<toml::Fault> {
    let top = tops_of(s.doc).max_diff;
    let low = bounds_of(s.doc).min_diff;
    if top != 0 && top < low {
        Some(
            toml::at(
                s.path,
                s.doc,
                "stratum"@,
                "vardiff_max_diff"@,
                "vardiff_max_diff = "@ + crate::text::dec(top as nat)
                    + " is below vardiff_min_diff = "@ + crate::text::dec(low as nat),
            ).helped(
                "0 = cap at network difficulty; any other value must be at or above the floor"@,
            ),
        )
    } else {
        None
    }
}

/// The first difficulty is not below the least.
pub open spec fn start_fault(s: settings::Sheet) -> Option<toml::Fault> {
    let b = bounds_of(s.doc);
    if b.min_diff > b.start_diff {
        Some(
            toml::at(
                s.path,
                s.doc,
                "stratum"@,
                "vardiff_start_diff"@,
                "vardiff_start_diff = "@ + crate::text::dec(b.start_diff as nat)
                    + " is below vardiff_min_diff = "@ + crate::text::dec(b.min_diff as nat),
            ).helped("the starting difficulty cannot be under the floor"@),
        )
    } else {
        None
    }
}

/// The faults of the settings that police connections, in the order in which
/// they are looked for.
pub open spec fn policing_fault(s: settings::Sheet) -> Option<toml::Fault> {
    schema::or(
        schema::or(
            schema::or(
                schema::or(settings::max_connections().fault(s), caps_fault(s)),
                bans_fault(s),
            ),
            rates_fault(s),
        ),
        deadlines_fault(s),
    )
}

/// The faults of the settings that control difficulty, in the order in which
/// they are looked for.
pub open spec fn vardiff_fault(s: settings::Sheet) -> Option<toml::Fault> {
    schema::or(
        schema::or(
            schema::or(
                schema::or(
                    schema::or(schema::or(bounds_fault(s), ladder_fault(s)), cadence_fault(s)),
                    tops_fault(s),
                ),
                top_fault(s),
            ),
            memory_fault(s),
        ),
        start_fault(s),
    )
}

/// What is wrong with the policy of the stratum server: the first fault.
pub open spec fn stratum_fault(s: settings::Sheet) -> Option<toml::Fault> {
    schema::or(policing_fault(s), vardiff_fault(s))
}

pub open spec fn enforced(d: toml::DocView) -> bool {
    settings::or_else(settings::bool_at(d, "stratum"@, "enforcement"@), true)
}

/// The caps in force: none without enforcement.
pub open spec fn caps_in_force(d: toml::DocView) -> Caps {
    if enforced(d) {
        caps_of(d)
    } else {
        Caps { max_per_ip: 0, new_conns_per_ip_per_min: 0, global_accept_per_sec: 0 }
    }
}

/// The bans in force: none without enforcement.
pub open spec fn bans_in_force(d: toml::DocView) -> BanPolicy {
    if enforced(d) {
        bans_of(d)
    } else {
        BanPolicy { enabled: false, throttle_ms: 0, ..bans_of(d) }
    }
}

/// The rates in force: none without enforcement.
pub open spec fn rates_in_force(d: toml::DocView) -> RatePolicy {
    if enforced(d) {
        rates_of(d)
    } else {
        RatePolicy { submit_enabled: false, line_enabled: false, ..rates_of(d) }
    }
}

/// The deadlines in force: none without enforcement.
pub open spec fn deadlines_in_force(d: toml::DocView) -> Deadlines {
    if enforced(d) {
        deadlines_of(d)
    } else {
        Deadlines { auth_ms: 0, idle_evict_ms: 0, read_ms: 0, write_ms: 0, out_buf_cap: 0 }
    }
}

/// What difficulty a connection begins with. Without enforcement a storm of
/// reconnects pins none.
pub open spec fn diff_in_force(d: toml::DocView) -> DiffPolicy {
    let b = bounds_of(d);
    let m = memory_of(d);
    DiffPolicy {
        start_diff: b.start_diff,
        min_diff: b.min_diff,
        cache_entries: m.cache_entries,
        cache_ttl_ms: m.cache_ttl_ms,
        storm_enabled: enforced(d) && m.storm_per_min > 0,
        storm_per_min: m.storm_per_min,
        storm_window_ms: m.storm_window_ms,
    }
}

/// Whether `p` is the policy that the document asks for.
pub open spec fn is_stratum(p: Stratum, d: toml::DocView) -> bool {
    &&& p.max_connections == settings::max_connections().value(d) as u64
    &&& p.enforcement == enforced(d)
    &&& p.caps == caps_in_force(d)
    &&& p.bans == bans_in_force(d)
    &&& p.rates == rates_in_force(d)
    &&& p.deadlines == deadlines_in_force(d)
    &&& p.diff == diff_in_force(d)
    &&& is_cadence(p.cadence, d)
    &&& p.vardiff_enabled == settings::or_else(
        settings::bool_at(d, "stratum"@, "vardiff_enabled"@),
        true,
    )
    &&& p.tops == tops_of(d)
    &&& p.setpoint_secs == bounds_of(d).setpoint_secs
    &&& p.tick_ms == bounds_of(d).tick_ms
}

/// The settings that police connections.
struct Policing {
    max_connections: u64,
    caps: Caps,
    bans: BanPolicy,
    rates: RatePolicy,
    deadlines: Deadlines,
}

fn read_policing(r: &Reader) -> (x: Result<Policing, Diagnostic>)
    ensures
        x is Ok <==> policing_fault(r.sheet()) is None,
        x matches Ok(p) ==> p.max_connections == settings::max_connections().value(r.doc@) as u64
            && p.caps == caps_of(r.doc@) && p.bans == bans_of(r.doc@) && p.rates == rates_of(
            r.doc@,
        ) && p.deadlines == deadlines_of(r.doc@),
        x matches Err(d) ==> policing_fault(r.sheet()) == Some(d@),
{
    let n: i64 = match r.number(
        Range {
            section: "stratum",
            key: "max_connections",
            default: 256,
            lo: 1,
            hi: STRATUM_CONNECTION_CEILING,
        },
    ) {
        Ok(v) => v,
        Err(d) => {
            return Err(d);
        },
    };
    let caps = match read_caps(r) {
        Ok(v) => v,
        Err(d) => {
            return Err(d);
        },
    };
    let bans = match read_bans(r) {
        Ok(v) => v,
        Err(d) => {
            return Err(d);
        },
    };
    let rates = match read_rates(r) {
        Ok(v) => v,
        Err(d) => {
            return Err(d);
        },
    };
    let deadlines = match read_deadlines(r) {
        Ok(v) => v,
        Err(d) => {
            return Err(d);
        },
    };
    Ok(Policing { max_connections: n as u64, caps, bans, rates, deadlines })
}

fn check_top(r: &Reader, top: u64, low: u64) -> (x: Result<(), Diagnostic>)
    requires
        top == tops_of(r.doc@).max_diff,
        low == bounds_of(r.doc@).min_diff,
    ensures
        x is Ok <==> top_fault(r.sheet()) is None,
        x matches Err(d) ==> top_fault(r.sheet()) == Some(d@),
{
    if top != 0 && top < low {
        let mut m = "vardiff_max_diff = ".to_owned();
        crate::text::push_dec(&mut m, top);
        m.append(" is below vardiff_min_diff = ");
        crate::text::push_dec(&mut m, low);
        let d = r.at("stratum", "vardiff_max_diff", m);
        return Err(
            d.with_help(
                "0 = cap at network difficulty; any other value must be at or above the floor",
            ),
        );
    }
    Ok(())
}

fn check_start(r: &Reader, b: Bounds) -> (x: Result<(), Diagnostic>)
    requires
        b == bounds_of(r.doc@),
    ensures
        x is Ok <==> start_fault(r.sheet()) is None,
        x matches Err(d) ==> start_fault(r.sheet()) == Some(d@),
{
    if b.min_diff > b.start_diff {
        let mut m = "vardiff_start_diff = ".to_owned();
        crate::text::push_dec(&mut m, b.start_diff);
        m.append(" is below vardiff_min_diff = ");
        crate::text::push_dec(&mut m, b.min_diff);
        let d = r.at("stratum", "vardiff_start_diff", m);
        return Err(d.with_help("the starting difficulty cannot be under the floor"));
    }
    Ok(())
}

/// The settings that control difficulty.
struct Control {
    bounds: Bounds,
    cadence: Cadence,
    tops: Tops,
    memory: Memory,
}

fn read_control(r: &Reader) -> (x: Result<Control, Diagnostic>)
    ensures
        x is Ok <==> vardiff_fault(r.sheet()) is None,
        x matches Ok(p) ==> p.bounds == bounds_of(r.doc@) && is_cadence(p.cadence, r.doc@)
            && p.tops == tops_of(r.doc@) && p.memory == memory_of(r.doc@),
        x matches Err(d) ==> vardiff_fault(r.sheet()) == Some(d@),
{
    let bounds = match read_bounds(r) {
        Ok(v) => v,
        Err(d) => {
            return Err(d);
        },
    };
    let ladder = match read_ladder(r) {
        Ok(v) => v,
        Err(d) => {
            return Err(d);
        },
    };
    let cadence = match read_cadence(r, ladder) {
        Ok(v) => v,
        Err(d) => {
            return Err(d);
        },
    };
    let tops = match read_tops(r) {
        Ok(v) => v,
        Err(d) => {
            return Err(d);
        },
    };
    match check_top(r, tops.max_diff, bounds.min_diff) {
        Ok(()) => {},
        Err(d) => {
            return Err(d);
        },
    }
    let memory = match read_memory(r) {
        Ok(v) => v,
        Err(d) => {
            return Err(d);
        },
    };
    match check_start(r, bounds) {
        Ok(()) => {},
        Err(d) => {
            return Err(d);
        },
    }
    Ok(Control { bounds, cadence, tops, memory })
}

/// The policy that the document asks for.
pub fn read_stratum(r: &Reader) -> (x: Result<Stratum, Diagnostic>)
    ensures
        x is Ok <==> stratum_fault(r.sheet()) is None,
        x matches Ok(p) ==> is_stratum(p, r.doc@),
        x matches Err(d) ==> stratum_fault(r.sheet()) == Some(d@),
{
    let p = match read_policing(r) {
        Ok(v) => v,
        Err(d) => {
            return Err(d);
        },
    };
    let c = match read_control(r) {
        Ok(v) => v,
        Err(d) => {
            return Err(d);
        },
    };
    let enforcement: bool = r.flag("stratum", "enforcement", true);
    let vardiff_enabled: bool = r.flag("stratum", "vardiff_enabled", true);
    let mut bans = p.bans;
    let mut rates = p.rates;
    let mut caps = p.caps;
    let mut deadlines = p.deadlines;
    if !enforcement {
        bans.enabled = false;
        bans.throttle_ms = 0;
        rates.submit_enabled = false;
        rates.line_enabled = false;
        caps = Caps { max_per_ip: 0, new_conns_per_ip_per_min: 0, global_accept_per_sec: 0 };
        deadlines =
        Deadlines { auth_ms: 0, idle_evict_ms: 0, read_ms: 0, write_ms: 0, out_buf_cap: 0 };
    }
    Ok(
        Stratum {
            max_connections: p.max_connections,
            enforcement,
            caps,
            bans,
            rates,
            deadlines,
            diff: DiffPolicy {
                start_diff: c.bounds.start_diff,
                min_diff: c.bounds.min_diff,
                cache_entries: c.memory.cache_entries,
                cache_ttl_ms: c.memory.cache_ttl_ms,
                storm_enabled: enforcement && c.memory.storm_per_min > 0,
                storm_per_min: c.memory.storm_per_min,
                storm_window_ms: c.memory.storm_window_ms,
            },
            cadence: c.cadence,
            vardiff_enabled,
            tops: c.tops,
            setpoint_secs: c.bounds.setpoint_secs,
            tick_ms: c.bounds.tick_ms,
        },
    )
}

/// Without enforcement nothing polices a connection: no ban, no rate limit, no
/// cap, no deadline. The difficulty control is what it would be with it.
pub proof fn law_without_enforcement_only_difficulty_is_left(p: Stratum, d: toml::DocView)
    requires
        is_stratum(p, d),
        !p.enforcement,
    ensures
        !p.bans.enabled && p.bans.throttle_ms == 0,
        !p.rates.submit_enabled && !p.rates.line_enabled && !p.diff.storm_enabled,
        p.caps.max_per_ip == 0 && p.caps.new_conns_per_ip_per_min == 0
            && p.caps.global_accept_per_sec == 0,
        p.deadlines.auth_ms == 0 && p.deadlines.idle_evict_ms == 0 && p.deadlines.read_ms == 0
            && p.deadlines.write_ms == 0 && p.deadlines.out_buf_cap == 0,
        is_cadence(p.cadence, d),
        p.tops == tops_of(d),
        p.diff.start_diff == bounds_of(d).start_diff && p.diff.min_diff == bounds_of(d).min_diff,
{
}

/// In a policy that is in force the difficulties are in order: the first is
/// not below the least, and neither is the greatest, where there is one.
pub proof fn law_difficulties_are_in_order(p: Stratum, s: settings::Sheet)
    requires
        stratum_fault(s) is None,
        is_stratum(p, s.doc),
    ensures
        1 <= p.diff.min_diff <= p.diff.start_diff,
        p.tops.max_diff == 0 || p.diff.min_diff <= p.tops.max_diff,
{
}

} // verus!
