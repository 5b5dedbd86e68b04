//! The configuration in force as a person reads it, and the file that shows
//! every setting.

use vstd::prelude::*;
use crate::node::config;
use crate::node::config::{Config, Facts, Origin, Overrides};
use crate::node::keys;
use crate::node::keys::{fingerprint_of, placeholder_role, KeySource};
use crate::node::policy::Stratum;
use crate::node::settings;
use crate::node::settings::whole_of;
use crate::node::toml;
use crate::text;
use crate::text::{debug_text, push_dec, same};

verus! {

pub open spec fn yes_no(b: bool) -> Seq<char> {
    if b {
        "true"@
    } else {
        "false"@
    }
}

fn say_yes_no(b: bool) -> (s: String)
    ensures
        s@ == yes_no(b),
{
    if b {
        "true".to_owned()
    } else {
        "false".to_owned()
    }
}

/// The settings that are true or false.
pub open spec fn flag_of(c: Config, section: Seq<char>, key: Seq<char>) -> Option<bool> {
    if section == "node"@ && key == "prune"@ {
        Some(c.prune)
    } else if section == "node"@ && key == "txindex"@ {
        Some(c.txindex)
    } else if section == "node"@ && key == "addrindex"@ {
        Some(c.addrindex)
    } else if section == "node"@ && key == "verify_frames"@ {
        Some(c.verify_frames)
    } else if section == "p2p"@ && key == "use_embedded_seeds"@ {
        Some(c.use_embedded_seeds)
    } else if section == "p2p"@ && key == "accept_local_addrs"@ {
        Some(c.accept_local_addrs)
    } else if section == "stratum"@ && key == "enforcement"@ {
        Some(c.stratum.enforcement)
    } else if section == "stratum"@ && key == "bans_enabled"@ {
        Some(c.stratum.bans.enabled)
    } else if section == "stratum"@ && key == "vardiff_enabled"@ {
        Some(c.stratum.vardiff_enabled)
    } else if section == "author"@ && key == "show_in_log"@ {
        Some(c.author_show_in_log)
    } else if section == "checkpoints"@ && key == "enabled"@ {
        Some(!(c.checkpoints@ is Disabled))
    } else {
        None
    }
}

fn get_flag(c: &Config, section: &str, key: &str) -> (r: Option<bool>)
    ensures
        r == flag_of(*c, section@, key@),
{
    if same(section, "node") && same(key, "prune") {
        Some(c.prune)
    } else if same(section, "node") && same(key, "txindex") {
        Some(c.txindex)
    } else if same(section, "node") && same(key, "addrindex") {
        Some(c.addrindex)
    } else if same(section, "node") && same(key, "verify_frames") {
        Some(c.verify_frames)
    } else if same(section, "p2p") && same(key, "use_embedded_seeds") {
        Some(c.use_embedded_seeds)
    } else if same(section, "p2p") && same(key, "accept_local_addrs") {
        Some(c.accept_local_addrs)
    } else if same(section, "stratum") && same(key, "enforcement") {
        Some(c.stratum.enforcement)
    } else if same(section, "stratum") && same(key, "bans_enabled") {
        Some(c.stratum.bans.enabled)
    } else if same(section, "stratum") && same(key, "vardiff_enabled") {
        Some(c.stratum.vardiff_enabled)
    } else if same(section, "author") && same(key, "show_in_log") {
        Some(c.author_show_in_log)
    } else if same(section, "checkpoints") && same(key, "enabled") {
        Some(c.checkpoints.is_enabled())
    } else {
        None
    }
}

/// The settings of the stratum server that police connections.
pub open spec fn policing_of(p: Stratum, key: Seq<char>) -> Option<u64> {
    if key == "max_connections"@ {
        Some(p.max_connections)
    } else if key == "max_per_ip"@ {
        Some(p.caps.max_per_ip)
    } else if key == "new_conns_per_ip_per_min"@ {
        Some(p.caps.new_conns_per_ip_per_min as u64)
    } else if key == "global_accept_per_sec"@ {
        Some(p.caps.global_accept_per_sec as u64)
    } else if key == "ban_threshold"@ {
        Some(p.bans.threshold as u64)
    } else if key == "ban_soft_cap"@ {
        Some(p.bans.soft_cap as u64)
    } else if key == "ban_decay_secs"@ {
        Some(p.bans.decay_secs)
    } else if key == "ban_base_secs"@ {
        Some(p.bans.base_secs)
    } else if key == "ban_ladder_factor"@ {
        Some(p.bans.ladder_factor)
    } else if key == "ban_max_secs"@ {
        Some(p.bans.max_secs)
    } else if key == "ban_table_entries"@ {
        Some(p.bans.table_entries)
    } else if key == "garbage_throttle_secs"@ {
        Some((p.bans.throttle_ms / 1000) as u64)
    } else if key == "submit_rate_per_sec"@ {
        Some(p.rates.submit_per_sec)
    } else if key == "submit_burst"@ {
        Some(p.rates.submit_burst)
    } else if key == "line_rate_per_sec"@ {
        Some(p.rates.line_per_sec)
    } else if key == "line_burst"@ {
        Some(p.rates.line_burst)
    } else if key == "auth_deadline_secs"@ {
        Some((p.deadlines.auth_ms / 1000) as u64)
    } else if key == "idle_evict_secs"@ {
        Some((p.deadlines.idle_evict_ms / 1000) as u64)
    } else if key == "read_deadline_secs"@ {
        Some((p.deadlines.read_ms / 1000) as u64)
    } else if key == "write_timeout_secs"@ {
        Some((p.deadlines.write_ms / 1000) as u64)
    } else if key == "out_buf_cap_bytes"@ {
        Some(p.deadlines.out_buf_cap)
    } else {
        None
    }
}

fn get_policing(p: &Stratum, key: &str) -> (r: Option<u64>)
    ensures
        r == policing_of(*p, key@),
{
    if same(key, "max_connections") {
        Some(p.max_connections)
    } else if same(key, "max_per_ip") {
        Some(p.caps.max_per_ip)
    } else if same(key, "new_conns_per_ip_per_min") {
        Some(p.caps.new_conns_per_ip_per_min as u64)
    } else if same(key, "global_accept_per_sec") {
        Some(p.caps.global_accept_per_sec as u64)
    } else if same(key, "ban_threshold") {
        Some(p.bans.threshold as u64)
    } else if same(key, "ban_soft_cap") {
        Some(p.bans.soft_cap as u64)
    } else if same(key, "ban_decay_secs") {
        Some(p.bans.decay_secs)
    } else if same(key, "ban_base_secs") {
        Some(p.bans.base_secs)
    } else if same(key, "ban_ladder_factor") {
        Some(p.bans.ladder_factor)
    } else if same(key, "ban_max_secs") {
        Some(p.bans.max_secs)
    } else if same(key, "ban_table_entries") {
        Some(p.bans.table_entries)
    } else if same(key, "garbage_throttle_secs") {
        Some(p.bans.throttle_ms / 1000)
    } else if same(key, "submit_rate_per_sec") {
        Some(p.rates.submit_per_sec)
    } else if same(key, "submit_burst") {
        Some(p.rates.submit_burst)
    } else if same(key, "line_rate_per_sec") {
        Some(p.rates.line_per_sec)
    } else if same(key, "line_burst") {
        Some(p.rates.line_burst)
    } else if same(key, "auth_deadline_secs") {
        Some(p.deadlines.auth_ms / 1000)
    } else if same(key, "idle_evict_secs") {
        Some(p.deadlines.idle_evict_ms / 1000)
    } else if same(key, "read_deadline_secs") {
        Some(p.deadlines.read_ms / 1000)
    } else if same(key, "write_timeout_secs") {
        Some(p.deadlines.write_ms / 1000)
    } else if same(key, "out_buf_cap_bytes") {
        Some(p.deadlines.out_buf_cap)
    } else {
        None
    }
}

/// The settings of the stratum server that control difficulty.
pub open spec fn vardiff_of(p: Stratum, key: Seq<char>) -> Option<u64> {
    if key == "vardiff_setpoint_secs"@ {
        Some(p.setpoint_secs)
    } else if key == "vardiff_start_diff"@ {
        Some(p.diff.start_diff)
    } else if key == "vardiff_min_diff"@ {
        Some(p.diff.min_diff)
    } else if key == "vardiff_tick_secs"@ {
        Some((p.tick_ms / 1000) as u64)
    } else if key == "vardiff_retarget_gate_shares"@ {
        Some(p.cadence.retarget_gate_shares as u64)
    } else if key == "vardiff_retarget_gate_secs"@ {
        Some(p.cadence.retarget_gate_secs)
    } else if key == "vardiff_warmup_shares"@ {
        Some(p.cadence.warmup_shares as u64)
    } else if key == "vardiff_warmup_gate_shares"@ {
        Some(p.cadence.warmup_gate_shares as u64)
    } else if key == "vardiff_mature_shares"@ {
        Some(p.cadence.mature_shares as u64)
    } else if key == "vardiff_max_step"@ {
        Some(p.cadence.max_step)
    } else if key == "vardiff_fixed_diff"@ {
        Some(p.tops.fixed_diff)
    } else if key == "vardiff_max_diff"@ {
        Some(p.tops.max_diff)
    } else if key == "vardiff_dead_zone_pct"@ {
        Some(p.cadence.dead_zone_pct)
    } else if key == "vardiff_mature_zone_pct"@ {
        Some(p.cadence.mature_zone_pct)
    } else if key == "vardiff_fast_escape_pct"@ {
        Some(p.cadence.fast_escape_pct)
    } else if key == "vardiff_silence_slack"@ {
        Some(p.cadence.silence_slack)
    } else if key == "vardiff_dsps_tau_fast_secs"@ {
        Some(p.cadence.tau@[0])
    } else if key == "vardiff_dsps_tau_mid_secs"@ {
        Some(p.cadence.tau@[1])
    } else if key == "vardiff_dsps_tau_slow_secs"@ {
        Some(p.cadence.tau@[2])
    } else if key == "diff_cache_entries"@ {
        Some(p.diff.cache_entries)
    } else if key == "diff_cache_ttl_secs"@ {
        Some((p.diff.cache_ttl_ms / 1000) as u64)
    } else if key == "reconnect_storm_per_min"@ {
        Some(p.diff.storm_per_min as u64)
    } else if key == "reconnect_storm_window_secs"@ {
        Some((p.diff.storm_window_ms / 1000) as u64)
    } else {
        None
    }
}

fn get_vardiff(p: &Stratum, key: &str) -> (r: Option<u64>)
    ensures
        r == vardiff_of(*p, key@),
{
    if same(key, "vardiff_setpoint_secs") {
        Some(p.setpoint_secs)
    } else if same(key, "vardiff_start_diff") {
        Some(p.diff.start_diff)
    } else if same(key, "vardiff_min_diff") {
        Some(p.diff.min_diff)
    } else if same(key, "vardiff_tick_secs") {
        Some(p.tick_ms / 1000)
    } else if same(key, "vardiff_retarget_gate_shares") {
        Some(p.cadence.retarget_gate_shares as u64)
    } else if same(key, "vardiff_retarget_gate_secs") {
        Some(p.cadence.retarget_gate_secs)
    } else if same(key, "vardiff_warmup_shares") {
        Some(p.cadence.warmup_shares as u64)
    } else if same(key, "vardiff_warmup_gate_shares") {
        Some(p.cadence.warmup_gate_shares as u64)
    } else if same(key, "vardiff_mature_shares") {
        Some(p.cadence.mature_shares as u64)
    } else if same(key, "vardiff_max_step") {
        Some(p.cadence.max_step)
    } else if same(key, "vardiff_fixed_diff") {
        Some(p.tops.fixed_diff)
    } else if same(key, "vardiff_max_diff") {
        Some(p.tops.max_diff)
    } else if same(key, "vardiff_dead_zone_pct") {
        Some(p.cadence.dead_zone_pct)
    } else if same(key, "vardiff_mature_zone_pct") {
        Some(p.cadence.mature_zone_pct)
    } else if same(key, "vardiff_fast_escape_pct") {
        Some(p.cadence.fast_escape_pct)
    } else if same(key, "vardiff_silence_slack") {
        Some(p.cadence.silence_slack)
    } else if same(key, "vardiff_dsps_tau_fast_secs") {
        Some(p.cadence.tau[0])
    } else if same(key, "vardiff_dsps_tau_mid_secs") {
        Some(p.cadence.tau[1])
    } else if same(key, "vardiff_dsps_tau_slow_secs") {
        Some(p.cadence.tau[2])
    } else if same(key, "diff_cache_entries") {
        Some(p.diff.cache_entries)
    } else if same(key, "diff_cache_ttl_secs") {
        Some(p.diff.cache_ttl_ms / 1000)
    } else if same(key, "reconnect_storm_per_min") {
        Some(p.diff.storm_per_min as u64)
    } else if same(key, "reconnect_storm_window_secs") {
        Some(p.diff.storm_window_ms / 1000)
    } else {
        None
    }
}

/// The settings that are whole numbers.
pub open spec fn number_of(c: Config, section: Seq<char>, key: Seq<char>) -> Option<u64> {
    if section == "stratum"@ {
        match policing_of(c.stratum, key) {
            Some(n) => Some(n),
            None => vardiff_of(c.stratum, key),
        }
    } else {
        if section == "p2p"@ && key == "max_peers"@ {
            Some(c.max_peers)
        } else if section == "mempool"@ && key == "relay_fee_mile"@ {
            Some(c.relay_fee_mile)
        } else if section == "mempool"@ && key == "max_txs"@ {
            Some(c.mempool_max_txs)
        } else if section == "checkpoints"@ && key == "threshold"@ {
            Some(c.checkpoint_threshold)
        } else {
            None
        }
    }
}

fn get_number(c: &Config, section: &str, key: &str) -> (r: Option<u64>)
    ensures
        r == number_of(*c, section@, key@),
{
    if same(section, "stratum") {
        match get_policing(&c.stratum, key) {
            Some(n) => Some(n),
            None => get_vardiff(&c.stratum, key),
        }
    } else {
        if same(section, "p2p") && same(key, "max_peers") {
            Some(c.max_peers)
        } else if same(section, "mempool") && same(key, "relay_fee_mile") {
            Some(c.relay_fee_mile)
        } else if same(section, "mempool") && same(key, "max_txs") {
            Some(c.mempool_max_txs)
        } else if same(section, "checkpoints") && same(key, "threshold") {
            Some(c.checkpoint_threshold)
        } else {
            None
        }
    }
}

/// Each text in quotes, in brackets, with a comma and a space between one and
/// the next.
pub open spec fn quoted_list(v: Seq<Seq<char>>) -> Seq<char> {
    "["@ + quoted(v) + "]"@
}

pub open spec fn quoted(v: Seq<Seq<char>>) -> Seq<char>
    decreases v.len(),
{
    if v.len() == 0 {
        Seq::empty()
    } else if v.len() == 1 {
        text::debug_of(v[0])
    } else {
        quoted(v.drop_last()) + ", "@ + text::debug_of(v.last())
    }
}

fn quote_list(v: &[String]) -> (t: String)
    ensures
        t@ == quoted_list(settings::strings(v@)),
{
    let ghost all = settings::strings(v@);
    let mut t = String::new();
    let mut i: usize = 0;
    assert(all.take(0) =~= Seq::<Seq<char>>::empty());
    assert(t@ =~= Seq::<char>::empty());
    while i < v.len()
        invariant
            i <= v.len(),
            all == settings::strings(v@),
            t@ == quoted(all.take(i as int)),
        decreases v.len() - i,
    {
        let ghost now = all.take(i as int + 1);
        assert(now.drop_last() =~= all.take(i as int));
        assert(now.last() == v@[i as int]@);
        if i == 0 {
            t = debug_text(v[i].as_str());
        } else {
            t.append(", ");
            t.append(debug_text(v[i].as_str()).as_str());
        }
        i += 1;
    }
    assert(all.take(i as int) =~= all);
    let mut r = "[".to_owned();
    r.append(t.as_str());
    r.append("]");
    r
}

pub open spec fn spelled(v: Seq<i64>) -> Seq<char>
    decreases v.len(),
{
    if v.len() == 0 {
        Seq::empty()
    } else if v.len() == 1 {
        settings::whole(v[0] as int)
    } else {
        spelled(v.drop_last()) + ", "@ + settings::whole(v.last() as int)
    }
}

/// The numbers in brackets, with a comma and a space between one and the next.
pub open spec fn number_list(v: Seq<i64>) -> Seq<char> {
    "["@ + spelled(v) + "]"@
}

fn list_numbers(v: &[i64]) -> (t: String)
    ensures
        t@ == number_list(v@),
{
    let mut t = String::new();
    let mut i: usize = 0;
    assert(v@.take(0) =~= Seq::<i64>::empty());
    assert(t@ =~= Seq::<char>::empty());
    while i < v.len()
        invariant
            i <= v.len(),
            t@ == spelled(v@.take(i as int)),
        decreases v.len() - i,
    {
        let ghost now = v@.take(i as int + 1);
        assert(now.drop_last() =~= v@.take(i as int));
        assert(now.last() == v@[i as int]);
        if i == 0 {
            t = whole_of(v[i]);
        } else {
            t.append(", ");
            t.append(whole_of(v[i]).as_str());
        }
        i += 1;
    }
    assert(v@.take(i as int) =~= v@);
    let mut r = "[".to_owned();
    r.append(t.as_str());
    r.append("]");
    r
}

/// The settings that are texts or lists. `note` is the miner's note as a log
/// shows it. The RPC token is not shown, only whether there is one.
pub open spec fn named_text(
    c: Config,
    f: Facts,
    note: Seq<char>,
    section: Seq<char>,
    key: Seq<char>,
) -> Option<Seq<char>> {
    if section == "node"@ && key == "network"@ {
        Some(text::debug_of("main"@))
    } else if section == "node"@ && key == "data_dir"@ {
        Some(text::debug_of(c.data_dir@))
    } else if section == "p2p"@ && key == "listen"@ {
        Some(text::debug_of(c.p2p_listen.text@))
    } else if section == "p2p"@ && key == "seeds"@ {
        Some(quoted_list(settings::strings(c.seeds@)))
    } else if section == "stratum"@ && key == "listen"@ {
        Some(text::debug_of(c.stratum_listen.text@))
    } else if section == "stratum"@ && key == "vardiff_ladder"@ {
        Some(number_list(c.stratum.cadence.ladder@))
    } else if section == "rpc"@ && key == "listen"@ {
        Some(text::debug_of(c.rpc_listen.text@))
    } else if section == "rpc"@ && key == "token"@ {
        Some(
            if c.rpc_token is Some {
                "\"<set, not shown>\""@
            } else {
                "\"\""@
            },
        )
    } else if section == "mining"@ && key == "author_note"@ {
        Some(text::debug_of(note))
    } else if section == "checkpoints"@ && key == "keys"@ {
        Some(quoted_list(keys::fingerprints(f.keys@, keys::keys_in_force(c.checkpoints@))))
    } else if section == "author"@ && key == "pubkey"@ {
        Some("\""@ + keys::fingerprint(f.keys@, c.author_pubkey@) + "...\""@)
    } else if section == "log"@ && key == "level"@ {
        Some(text::debug_of(config::level_name(c.log_level)))
    } else {
        None
    }
}

/// The settings that are texts or lists, with a mark for what is no setting.
pub open spec fn text_of(c: Config, f: Facts, note: Seq<char>, section: Seq<char>, key: Seq<char>) -> Seq<
    char,
> {
    match named_text(c, f, note, section, key) {
        Some(t) => t,
        None => "?"@,
    }
}

/// The value of a setting as the effective configuration shows it.
pub open spec fn value_of(c: Config, f: Facts, note: Seq<char>, section: Seq<char>, key: Seq<char>) -> Seq<
    char,
> {
    match flag_of(c, section, key) {
        Some(b) => yes_no(b),
        None => match number_of(c, section, key) {
            Some(n) => text::dec(n as nat),
            None => text_of(c, f, note, section, key),
        },
    }
}

fn get_text(c: &Config, f: &Facts, note: &str, section: &str, key: &str) -> (t: String)
    ensures
        t@ == text_of(*c, *f, note@, section@, key@),
{
    if same(section, "node") && same(key, "network") {
        debug_text(c.network.as_str())
    } else if same(section, "node") && same(key, "data_dir") {
        debug_text(c.data_dir.as_str())
    } else if same(section, "p2p") && same(key, "listen") {
        debug_text(c.p2p_listen.text.as_str())
    } else if same(section, "p2p") && same(key, "seeds") {
        quote_list(c.seeds.as_slice())
    } else if same(section, "stratum") && same(key, "listen") {
        debug_text(c.stratum_listen.text.as_str())
    } else if same(section, "stratum") && same(key, "vardiff_ladder") {
        list_numbers(c.stratum.cadence.ladder.as_slice())
    } else if same(section, "rpc") && same(key, "listen") {
        debug_text(c.rpc_listen.text.as_str())
    } else if same(section, "rpc") && same(key, "token") {
        if c.rpc_token.is_some() {
            "\"<set, not shown>\"".to_owned()
        } else {
            "\"\"".to_owned()
        }
    } else if same(section, "mining") && same(key, "author_note") {
        debug_text(note)
    } else if same(section, "checkpoints") && same(key, "keys") {
        let v = c.checkpoints.fingerprints(f.keys.as_slice());
        quote_list(v.as_slice())
    } else if same(section, "author") && same(key, "pubkey") {
        let mut t = "\"".to_owned();
        t.append(fingerprint_of(f.keys.as_slice(), &c.author_pubkey).as_str());
        t.append("...\"");
        t
    } else if same(section, "log") && same(key, "level") {
        debug_text(c.log_level.as_str())
    } else {
        "?".to_owned()
    }
}

impl Config {
    /// The value of a setting as the effective configuration shows it.
    pub fn value_of(&self, facts: &Facts, note: &str, section: &str, key: &str) -> (t: String)
        ensures
            t@ == value_of(*self, *facts, note@, section@, key@),
    {
        match get_flag(self, section, key) {
            Some(b) => say_yes_no(b),
            None => match get_number(self, section, key) {
                Some(n) => text::dec_of(n),
                None => get_text(self, facts, note, section, key),
            },
        }
    }
}

// ---------------------------------------------------------------------------
// The effective configuration

/// Where the node keeps its files.
#[derive(Clone, Debug)]
pub struct Paths {
    pub config_file: String,
    pub chain_dir: String,
    pub database_file: String,
}

/// The header of a section, where one begins.
pub open spec fn heading(os: Seq<Origin>) -> Seq<char> {
    let last = os.last().section@;
    if last == (if os.len() == 1 {
        ""@
    } else {
        os[os.len() - 2].section@
    }) {
        Seq::empty()
    } else {
        "["@ + last + "]\n"@
    }
}

/// The line of one setting.
pub open spec fn setting_line(c: Config, f: Facts, note: Seq<char>, o: Origin) -> Seq<char> {
    o.key@ + " = "@ + value_of(c, f, note, o.section@, o.key@) + "  # "@ + config::source_label(
        o.source,
    ) + "\n"@
}

/// The lines of the settings, under the headers of their sections.
pub open spec fn setting_lines(c: Config, f: Facts, note: Seq<char>, os: Seq<Origin>) -> Seq<char>
    decreases os.len(),
{
    if os.len() == 0 {
        Seq::empty()
    } else {
        setting_lines(c, f, note, os.drop_last()) + (heading(os) + setting_line(
            c,
            f,
            note,
            os.last(),
        ))
    }
}

pub open spec fn author_line(c: Config, f: Facts) -> Seq<char> {
    "author key   = "@ + (if c.author_key_source == KeySource::Embedded {
        "embedded"@
    } else {
        "config"@
    }) + " (fp "@ + keys::fingerprint(f.keys@, c.author_pubkey@) + (if keys::role(
        f.keys@,
        c.author_pubkey@,
    ) is Some {
        ", PLACEHOLDER"@
    } else {
        ""@
    }) + ")\n"@
}

/// What follows from the settings and cannot be set by itself.
pub open spec fn resolved(c: Config, f: Facts, paths: Paths) -> Seq<char> {
    "\n# resolved, not settable directly:\ncheckpoints  = "@ + keys::described(
        f.keys@,
        c.checkpoints@,
    ) + "\n"@ + author_line(c, f) + "config file  = "@ + paths.config_file@ + "\nchain dir    = "@
        + paths.chain_dir@ + "\ndatabase     = "@ + paths.database_file@
        + "\nsunset       = height "@ + text::dec(f.sunset_height as nat)
        + " (compile-time; config cannot change it)\n"@
}

/// The configuration in force, with where each value came from.
pub open spec fn effective(c: Config, f: Facts, note: Seq<char>, paths: Paths) -> Seq<char> {
    "# effective configuration (value <- where it came from)\n\n"@ + setting_lines(
        c,
        f,
        note,
        c.provenance@,
    ) + resolved(c, f, paths)
}

impl Config {
    fn line_of(&self, facts: &Facts, note: &str, o: &Origin) -> (t: String)
        ensures
            t@ == setting_line(*self, *facts, note@, *o),
    {
        let mut t = o.key.to_owned();
        t.append(" = ");
        t.append(self.value_of(facts, note, o.section, o.key).as_str());
        t.append("  # ");
        t.append(o.source.label());
        t.append("\n");
        t
    }

    fn heading_of(&self, i: usize) -> (t: String)
        requires
            i < self.provenance.len(),
        ensures
            t@ == heading(self.provenance@.take(i as int + 1)),
    {
        let ghost os = self.provenance@.take(i as int + 1);
        let last = self.provenance[i].section;
        let prev = if i == 0 {
            ""
        } else {
            self.provenance[i - 1].section
        };
        if same(last, prev) {
            let t = String::new();
            assert(t@ =~= Seq::<char>::empty());
            t
        } else {
            let mut t = "[".to_owned();
            t.append(last);
            t.append("]\n");
            t
        }
    }

    fn lines_of(&self, facts: &Facts, note: &str) -> (t: String)
        ensures
            t@ == setting_lines(*self, *facts, note@, self.provenance@),
    {
        let ghost os = self.provenance@;
        let mut t = String::new();
        let mut i: usize = 0;
        assert(os.take(0) =~= Seq::<Origin>::empty());
        assert(t@ =~= Seq::<char>::empty());
        while i < self.provenance.len()
            invariant
                i <= self.provenance.len(),
                os == self.provenance@,
                t@ == setting_lines(*self, *facts, note@, os.take(i as int)),
            decreases self.provenance.len() - i,
        {
            assert(os.take(i as int + 1).drop_last() =~= os.take(i as int));
            assert(os.take(i as int + 1).last() == os[i as int]);
            let mut u = self.heading_of(i);
            u.append(self.line_of(facts, note, &self.provenance[i]).as_str());
            t.append(u.as_str());
            i += 1;
        }
        assert(os.take(i as int) =~= os);
        t
    }

    fn author_line_of(&self, facts: &Facts) -> (t: String)
        ensures
            t@ == author_line(*self, *facts),
    {
        let ks = facts.keys.as_slice();
        let mut t = "author key   = ".to_owned();
        t.append(
            if self.author_key_source == KeySource::Embedded {
                "embedded"
            } else {
                "config"
            },
        );
        t.append(" (fp ");
        t.append(fingerprint_of(ks, &self.author_pubkey).as_str());
        t.append(
            if placeholder_role(ks, &self.author_pubkey).is_some() {
                ", PLACEHOLDER"
            } else {
                ""
            },
        );
        t.append(")\n");
        t
    }

    fn resolved_of(&self, facts: &Facts, paths: &Paths) -> (t: String)
        ensures
            t@ == resolved(*self, *facts, *paths),
    {
        let mut t = "\n# resolved, not settable directly:\ncheckpoints  = ".to_owned();
        t.append(self.checkpoints.describe(facts.keys.as_slice()).as_str());
        t.append("\n");
        t.append(self.author_line_of(facts).as_str());
        t.append("config file  = ");
        t.append(paths.config_file.as_str());
        t.append("\nchain dir    = ");
        t.append(paths.chain_dir.as_str());
        t.append("\ndatabase     = ");
        t.append(paths.database_file.as_str());
        t.append("\nsunset       = height ");
        push_dec(&mut t, facts.sunset_height);
        t.append(" (compile-time; config cannot change it)\n");
        t
    }

    /// The configuration in force, with where each value came from.
    pub fn print_effective(&self, facts: &Facts, note: &str, paths: &Paths) -> (t: String)
        ensures
            t@ == effective(*self, *facts, note@, *paths),
    {
        let mut t = "# effective configuration (value <- where it came from)\n\n".to_owned();
        t.append(self.lines_of(facts, note).as_str());
        t.append(self.resolved_of(facts, paths).as_str());
        t
    }
}

/// The RPC token is never printed: with another one in its place, the same is
/// printed.
pub proof fn law_the_token_is_never_printed(
    c: Config,
    other: Config,
    f: Facts,
    note: Seq<char>,
    paths: Paths,
)
    requires
        c.rpc_token is Some,
        other.rpc_token is Some,
        other == (Config { rpc_token: other.rpc_token, ..c }),
    ensures
        effective(c, f, note, paths) == effective(other, f, note, paths),
{
    lemma_same_lines(c, other, f, note, c.provenance@);
}

proof fn lemma_same_lines(c: Config, other: Config, f: Facts, note: Seq<char>, os: Seq<Origin>)
    requires
        c.rpc_token is Some,
        other.rpc_token is Some,
        other == (Config { rpc_token: other.rpc_token, ..c }),
    ensures
        setting_lines(c, f, note, os) == setting_lines(other, f, note, os),
    decreases os.len(),
{
    if os.len() > 0 {
        lemma_same_lines(c, other, f, note, os.drop_last());
        let o = os.last();
        assert(value_of(c, f, note, o.section@, o.key@) == value_of(
            other,
            f,
            note,
            o.section@,
            o.key@,
        ));
    }
}

// ---------------------------------------------------------------------------
// Every setting is shown

/// Whether the effective configuration has a value to show for a setting.
pub open spec fn is_shown(c: Config, f: Facts, note: Seq<char>, section: Seq<char>, key: Seq<char>) -> bool {
    flag_of(c, section, key) is Some || number_of(c, section, key) is Some || named_text(
        c,
        f,
        note,
        section,
        key,
    ) is Some
}

proof fn lemma_sections_differ()
    ensures
        "node"@ != "stratum"@,
        "p2p"@ != "stratum"@,
        "mempool"@ != "stratum"@,
        "checkpoints"@ != "stratum"@,
{
    reveal_strlit("node");
    reveal_strlit("p2p");
    reveal_strlit("mempool");
    reveal_strlit("checkpoints");
    reveal_strlit("stratum");
    assert("stratum"@.len() == 7);
    assert("node"@.len() == 4);
    assert("p2p"@.len() == 3);
    assert("mempool"@[0] == 'm');
    assert("stratum"@[0] == 's');
}

proof fn lemma_front_is_shown(c: Config, f: Facts, note: Seq<char>, i: int)
    requires
        0 <= i < config::front_order().len(),
    ensures
        is_shown(c, f, note, config::front_order()[i].section@, config::front_order()[i].key@),
{
    reveal(config::front_order);
    lemma_sections_differ();
}

proof fn lemma_policing_is_shown(c: Config, f: Facts, note: Seq<char>, i: int)
    requires
        0 <= i < config::policing_order().len(),
    ensures
        is_shown(c, f, note, config::policing_order()[i].section@, config::policing_order()[i].key@),
{
    reveal(config::policing_order);
    lemma_sections_differ();
}

proof fn lemma_vardiff_is_shown(c: Config, f: Facts, note: Seq<char>, i: int)
    requires
        0 <= i < config::vardiff_order().len(),
    ensures
        is_shown(c, f, note, config::vardiff_order()[i].section@, config::vardiff_order()[i].key@),
{
    reveal(config::vardiff_order);
    lemma_sections_differ();
}

proof fn lemma_memory_is_shown(c: Config, f: Facts, note: Seq<char>, i: int)
    requires
        0 <= i < config::memory_order().len(),
    ensures
        is_shown(c, f, note, config::memory_order()[i].section@, config::memory_order()[i].key@),
{
    reveal(config::memory_order);
    lemma_sections_differ();
}

proof fn lemma_back_is_shown(c: Config, f: Facts, note: Seq<char>, i: int)
    requires
        0 <= i < config::back_order().len(),
    ensures
        is_shown(c, f, note, config::back_order()[i].section@, config::back_order()[i].key@),
{
    reveal(config::back_order);
    lemma_sections_differ();
}

/// Every setting of a configuration, wherever its value came from, is shown with
/// the value in force: as a flag, as a number, or as a text of its own.
pub proof fn law_every_setting_is_shown(
    c: Config,
    d: toml::DocView,
    ov: Overrides,
    f: Facts,
    note: Seq<char>,
    i: int,
)
    requires
        config::is_config(c, d, ov, f),
        0 <= i < c.provenance@.len(),
    ensures
        is_shown(c, f, note, c.provenance@[i].section@, c.provenance@[i].key@),
{
    let a = config::front_order().len();
    let b = a + config::policing_order().len();
    let e = b + config::vardiff_order().len();
    let g = e + config::memory_order().len();
    if i < a {
        assert(config::order()[i] == config::front_order()[i]);
        lemma_front_is_shown(c, f, note, i);
    } else if i < b {
        assert(config::order()[i] == config::policing_order()[i - a]);
        lemma_policing_is_shown(c, f, note, i - a);
    } else if i < e {
        assert(config::order()[i] == config::vardiff_order()[i - b]);
        lemma_vardiff_is_shown(c, f, note, i - b);
    } else if i < g {
        assert(config::order()[i] == config::memory_order()[i - e]);
        lemma_memory_is_shown(c, f, note, i - e);
    } else {
        assert(config::order()[i] == config::back_order()[i - g]);
        lemma_back_is_shown(c, f, note, i - g);
    }
}

// ---------------------------------------------------------------------------
// Every setting is shown as it is in force

/// What tells the names of settings apart: how long a text is, and what stands at
/// some of its places.
spec fn mark(s: Seq<char>) -> (nat, char, char, char, char) {
    (s.len(), s[s.len() - 1], s[s.len() as int / 2], s[0], s[2 * s.len() as int / 3])
}

/// No two names have the same mark.
proof fn lemma_names_differ()
    ensures
        mark("prune"@) == (5nat, 'e', 'u', 'p', 'n'),
        mark("txindex"@) == (7nat, 'x', 'n', 't', 'd'),
        mark("addrindex"@) == (9nat, 'x', 'i', 'a', 'd'),
        mark("verify_frames"@) == (13nat, 's', '_', 'v', 'r'),
        mark("use_embedded_seeds"@) == (18nat, 's', 'd', 'u', '_'),
        mark("accept_local_addrs"@) == (18nat, 's', 'c', 'a', '_'),
        mark("enforcement"@) == (11nat, 't', 'c', 'e', 'm'),
        mark("bans_enabled"@) == (12nat, 'd', 'n', 'b', 'b'),
        mark("vardiff_enabled"@) == (15nat, 'd', '_', 'v', 'a'),
        mark("show_in_log"@) == (11nat, 'g', 'i', 's', '_'),
        mark("enabled"@) == (7nat, 'd', 'b', 'e', 'l'),
        mark("max_connections"@) == (15nat, 's', 'n', 'm', 't'),
        mark("max_per_ip"@) == (10nat, 'p', 'e', 'm', 'r'),
        mark("new_conns_per_ip_per_min"@) == (24nat, 'n', 'r', 'n', '_'),
        mark("global_accept_per_sec"@) == (21nat, 'c', 'e', 'g', 'p'),
        mark("ban_threshold"@) == (13nat, 'd', 'r', 'b', 's'),
        mark("ban_soft_cap"@) == (12nat, 'p', 'f', 'b', '_'),
        mark("ban_decay_secs"@) == (14nat, 's', 'a', 'b', '_'),
        mark("ban_base_secs"@) == (13nat, 's', 's', 'b', '_'),
        mark("ban_ladder_factor"@) == (17nat, 'r', 'e', 'b', 'f'),
        mark("ban_max_secs"@) == (12nat, 's', 'x', 'b', 's'),
        mark("ban_table_entries"@) == (17nat, 's', 'e', 'b', 'n'),
        mark("garbage_throttle_secs"@) == (21nat, 's', 'r', 'g', 'l'),
        mark("submit_rate_per_sec"@) == (19nat, 'c', 't', 's', 'p'),
        mark("submit_burst"@) == (12nat, 't', '_', 's', 'u'),
        mark("line_rate_per_sec"@) == (17nat, 'c', 'e', 'l', 'e'),
        mark("line_burst"@) == (10nat, 't', 'b', 'l', 'u'),
        mark("auth_deadline_secs"@) == (18nat, 's', 'l', 'a', 'e'),
        mark("idle_evict_secs"@) == (15nat, 's', 'i', 'i', '_'),
        mark("read_deadline_secs"@) == (18nat, 's', 'l', 'r', 'e'),
        mark("write_timeout_secs"@) == (18nat, 's', 'e', 'w', 't'),
        mark("out_buf_cap_bytes"@) == (17nat, 's', 'c', 'o', '_'),
        mark("vardiff_setpoint_secs"@) == (21nat, 's', 't', 'v', 'n'),
        mark("vardiff_start_diff"@) == (18nat, 'f', 't', 'v', 't'),
        mark("vardiff_min_diff"@) == (16nat, 'f', 'm', 'v', 'n'),
        mark("vardiff_tick_secs"@) == (17nat, 's', 't', 'v', 'k'),
        mark("vardiff_retarget_gate_shares"@) == (28nat, 's', 'e', 'v', 'a'),
        mark("vardiff_retarget_gate_secs"@) == (26nat, 's', 'g', 'v', 'g'),
        mark("vardiff_warmup_shares"@) == (21nat, 's', 'r', 'v', '_'),
        mark("vardiff_warmup_gate_shares"@) == (26nat, 's', 'p', 'v', 't'),
        mark("vardiff_mature_shares"@) == (21nat, 's', 't', 'v', '_'),
        mark("vardiff_max_step"@) == (16nat, 'p', 'm', 'v', 'x'),
        mark("vardiff_fixed_diff"@) == (18nat, 'f', 'i', 'v', 'd'),
        mark("vardiff_max_diff"@) == (16nat, 'f', 'm', 'v', 'x'),
        mark("vardiff_dead_zone_pct"@) == (21nat, 't', 'a', 'v', 'o'),
        mark("vardiff_mature_zone_pct"@) == (23nat, 't', 'u', 'v', 'z'),
        mark("vardiff_fast_escape_pct"@) == (23nat, 't', 't', 'v', 'c'),
        mark("vardiff_silence_slack"@) == (21nat, 'k', 'l', 'v', 'e'),
        mark("vardiff_dsps_tau_fast_secs"@) == (26nat, 's', 't', 'v', 'f'),
        mark("vardiff_dsps_tau_mid_secs"@) == (25nat, 's', '_', 'v', '_'),
        mark("vardiff_dsps_tau_slow_secs"@) == (26nat, 's', 't', 'v', 's'),
        mark("diff_cache_entries"@) == (18nat, 's', 'e', 'd', 'n'),
        mark("diff_cache_ttl_secs"@) == (19nat, 's', 'e', 'd', 't'),
        mark("reconnect_storm_per_min"@) == (23nat, 'n', 't', 'r', '_'),
        mark("reconnect_storm_window_secs"@) == (27nat, 's', 'r', 'r', 'n'),
        mark("max_peers"@) == (9nat, 's', 'p', 'm', 'e'),
        mark("relay_fee_mile"@) == (14nat, 'e', 'e', 'r', '_'),
        mark("max_txs"@) == (7nat, 's', '_', 'm', 't'),
        mark("threshold"@) == (9nat, 'd', 's', 't', 'o'),
        mark("network"@) == (7nat, 'k', 'w', 'n', 'o'),
        mark("data_dir"@) == (8nat, 'r', '_', 'd', 'd'),
        mark("listen"@) == (6nat, 'n', 't', 'l', 'e'),
        mark("seeds"@) == (5nat, 's', 'e', 's', 'd'),
        mark("vardiff_ladder"@) == (14nat, 'r', '_', 'v', 'a'),
        mark("token"@) == (5nat, 'n', 'k', 't', 'e'),
        mark("author_note"@) == (11nat, 'e', 'r', 'a', 'n'),
        mark("keys"@) == (4nat, 's', 'y', 'k', 'y'),
        mark("pubkey"@) == (6nat, 'y', 'k', 'p', 'e'),
        mark("level"@) == (5nat, 'l', 'v', 'l', 'e'),
        mark("node"@) == (4nat, 'e', 'd', 'n', 'd'),
        mark("p2p"@) == (3nat, 'p', '2', 'p', 'p'),
        mark("stratum"@) == (7nat, 'm', 'a', 's', 't'),
        mark("rpc"@) == (3nat, 'c', 'p', 'r', 'c'),
        mark("mempool"@) == (7nat, 'l', 'p', 'm', 'o'),
        mark("mining"@) == (6nat, 'g', 'i', 'm', 'n'),
        mark("checkpoints"@) == (11nat, 's', 'p', 'c', 'i'),
        mark("author"@) == (6nat, 'r', 'h', 'a', 'o'),
        mark("log"@) == (3nat, 'g', 'o', 'l', 'g'),
{
    reveal_strlit("prune");
    reveal_strlit("txindex");
    reveal_strlit("addrindex");
    reveal_strlit("verify_frames");
    reveal_strlit("use_embedded_seeds");
    reveal_strlit("accept_local_addrs");
    reveal_strlit("enforcement");
    reveal_strlit("bans_enabled");
    reveal_strlit("vardiff_enabled");
    reveal_strlit("show_in_log");
    reveal_strlit("enabled");
    reveal_strlit("max_connections");
    reveal_strlit("max_per_ip");
    reveal_strlit("new_conns_per_ip_per_min");
    reveal_strlit("global_accept_per_sec");
    reveal_strlit("ban_threshold");
    reveal_strlit("ban_soft_cap");
    reveal_strlit("ban_decay_secs");
    reveal_strlit("ban_base_secs");
    reveal_strlit("ban_ladder_factor");
    reveal_strlit("ban_max_secs");
    reveal_strlit("ban_table_entries");
    reveal_strlit("garbage_throttle_secs");
    reveal_strlit("submit_rate_per_sec");
    reveal_strlit("submit_burst");
    reveal_strlit("line_rate_per_sec");
    reveal_strlit("line_burst");
    reveal_strlit("auth_deadline_secs");
    reveal_strlit("idle_evict_secs");
    reveal_strlit("read_deadline_secs");
    reveal_strlit("write_timeout_secs");
    reveal_strlit("out_buf_cap_bytes");
    reveal_strlit("vardiff_setpoint_secs");
    reveal_strlit("vardiff_start_diff");
    reveal_strlit("vardiff_min_diff");
    reveal_strlit("vardiff_tick_secs");
    reveal_strlit("vardiff_retarget_gate_shares");
    reveal_strlit("vardiff_retarget_gate_secs");
    reveal_strlit("vardiff_warmup_shares");
    reveal_strlit("vardiff_warmup_gate_shares");
    reveal_strlit("vardiff_mature_shares");
    reveal_strlit("vardiff_max_step");
    reveal_strlit("vardiff_fixed_diff");
    reveal_strlit("vardiff_max_diff");
    reveal_strlit("vardiff_dead_zone_pct");
    reveal_strlit("vardiff_mature_zone_pct");
    reveal_strlit("vardiff_fast_escape_pct");
    reveal_strlit("vardiff_silence_slack");
    reveal_strlit("vardiff_dsps_tau_fast_secs");
    reveal_strlit("vardiff_dsps_tau_mid_secs");
    reveal_strlit("vardiff_dsps_tau_slow_secs");
    reveal_strlit("diff_cache_entries");
    reveal_strlit("diff_cache_ttl_secs");
    reveal_strlit("reconnect_storm_per_min");
    reveal_strlit("reconnect_storm_window_secs");
    reveal_strlit("max_peers");
    reveal_strlit("relay_fee_mile");
    reveal_strlit("max_txs");
    reveal_strlit("threshold");
    reveal_strlit("network");
    reveal_strlit("data_dir");
    reveal_strlit("listen");
    reveal_strlit("seeds");
    reveal_strlit("vardiff_ladder");
    reveal_strlit("token");
    reveal_strlit("author_note");
    reveal_strlit("keys");
    reveal_strlit("pubkey");
    reveal_strlit("level");
    reveal_strlit("node");
    reveal_strlit("p2p");
    reveal_strlit("stratum");
    reveal_strlit("rpc");
    reveal_strlit("mempool");
    reveal_strlit("mining");
    reveal_strlit("checkpoints");
    reveal_strlit("author");
    reveal_strlit("log");
}

/// A setting that is true or false is shown as the one of its name is in force.
pub proof fn law_switches_are_shown(c: Config, f: Facts, note: Seq<char>)
    ensures
        value_of(c, f, note, "node"@, "prune"@) == (if c.prune {
            "true"@
        } else {
            "false"@
        }),
        value_of(c, f, note, "node"@, "txindex"@) == (if c.txindex {
            "true"@
        } else {
            "false"@
        }),
        value_of(c, f, note, "node"@, "addrindex"@) == (if c.addrindex {
            "true"@
        } else {
            "false"@
        }),
        value_of(c, f, note, "node"@, "verify_frames"@) == (if c.verify_frames {
            "true"@
        } else {
            "false"@
        }),
        value_of(c, f, note, "p2p"@, "use_embedded_seeds"@) == (if c.use_embedded_seeds {
            "true"@
        } else {
            "false"@
        }),
        value_of(c, f, note, "p2p"@, "accept_local_addrs"@) == (if c.accept_local_addrs {
            "true"@
        } else {
            "false"@
        }),
        value_of(c, f, note, "stratum"@, "enforcement"@) == (if c.stratum.enforcement {
            "true"@
        } else {
            "false"@
        }),
        value_of(c, f, note, "stratum"@, "bans_enabled"@) == (if c.stratum.bans.enabled {
            "true"@
        } else {
            "false"@
        }),
        value_of(c, f, note, "stratum"@, "vardiff_enabled"@) == (if c.stratum.vardiff_enabled {
            "true"@
        } else {
            "false"@
        }),
        value_of(c, f, note, "author"@, "show_in_log"@) == (if c.author_show_in_log {
            "true"@
        } else {
            "false"@
        }),
        value_of(c, f, note, "checkpoints"@, "enabled"@) == (if !(c.checkpoints@ is Disabled) {
            "true"@
        } else {
            "false"@
        }),
{
    lemma_names_differ();
}

/// A setting that polices connections is shown as the one of its name is in force,
/// a time in seconds.
pub proof fn law_policing_is_shown(c: Config, f: Facts, note: Seq<char>)
    ensures
        value_of(c, f, note, "stratum"@, "max_connections"@) == text::dec(
            c.stratum.max_connections as nat,
        ),
        value_of(c, f, note, "stratum"@, "max_per_ip"@) == text::dec(
            c.stratum.caps.max_per_ip as nat,
        ),
        value_of(c, f, note, "stratum"@, "new_conns_per_ip_per_min"@) == text::dec(
            c.stratum.caps.new_conns_per_ip_per_min as nat,
        ),
        value_of(c, f, note, "stratum"@, "global_accept_per_sec"@) == text::dec(
            c.stratum.caps.global_accept_per_sec as nat,
        ),
        value_of(c, f, note, "stratum"@, "ban_threshold"@) == text::dec(
            c.stratum.bans.threshold as nat,
        ),
        value_of(c, f, note, "stratum"@, "ban_soft_cap"@) == text::dec(
            c.stratum.bans.soft_cap as nat,
        ),
        value_of(c, f, note, "stratum"@, "ban_decay_secs"@) == text::dec(
            c.stratum.bans.decay_secs as nat,
        ),
        value_of(c, f, note, "stratum"@, "ban_base_secs"@) == text::dec(
            c.stratum.bans.base_secs as nat,
        ),
        value_of(c, f, note, "stratum"@, "ban_ladder_factor"@) == text::dec(
            c.stratum.bans.ladder_factor as nat,
        ),
        value_of(c, f, note, "stratum"@, "ban_max_secs"@) == text::dec(
            c.stratum.bans.max_secs as nat,
        ),
        value_of(c, f, note, "stratum"@, "ban_table_entries"@) == text::dec(
            c.stratum.bans.table_entries as nat,
        ),
        value_of(c, f, note, "stratum"@, "garbage_throttle_secs"@) == text::dec(
            c.stratum.bans.throttle_ms as nat / 1000,
        ),
        value_of(c, f, note, "stratum"@, "submit_rate_per_sec"@) == text::dec(
            c.stratum.rates.submit_per_sec as nat,
        ),
        value_of(c, f, note, "stratum"@, "submit_burst"@) == text::dec(
            c.stratum.rates.submit_burst as nat,
        ),
        value_of(c, f, note, "stratum"@, "line_rate_per_sec"@) == text::dec(
            c.stratum.rates.line_per_sec as nat,
        ),
        value_of(c, f, note, "stratum"@, "line_burst"@) == text::dec(
            c.stratum.rates.line_burst as nat,
        ),
        value_of(c, f, note, "stratum"@, "auth_deadline_secs"@) == text::dec(
            c.stratum.deadlines.auth_ms as nat / 1000,
        ),
        value_of(c, f, note, "stratum"@, "idle_evict_secs"@) == text::dec(
            c.stratum.deadlines.idle_evict_ms as nat / 1000,
        ),
        value_of(c, f, note, "stratum"@, "read_deadline_secs"@) == text::dec(
            c.stratum.deadlines.read_ms as nat / 1000,
        ),
        value_of(c, f, note, "stratum"@, "write_timeout_secs"@) == text::dec(
            c.stratum.deadlines.write_ms as nat / 1000,
        ),
        value_of(c, f, note, "stratum"@, "out_buf_cap_bytes"@) == text::dec(
            c.stratum.deadlines.out_buf_cap as nat,
        ),
{
    lemma_names_differ();
}

/// A setting that controls difficulty is shown as the one of its name is in force,
/// a time in seconds.
pub proof fn law_difficulty_is_shown(c: Config, f: Facts, note: Seq<char>)
    ensures
        value_of(c, f, note, "stratum"@, "vardiff_setpoint_secs"@) == text::dec(
            c.stratum.setpoint_secs as nat,
        ),
        value_of(c, f, note, "stratum"@, "vardiff_start_diff"@) == text::dec(
            c.stratum.diff.start_diff as nat,
        ),
        value_of(c, f, note, "stratum"@, "vardiff_min_diff"@) == text::dec(
            c.stratum.diff.min_diff as nat,
        ),
        value_of(c, f, note, "stratum"@, "vardiff_tick_secs"@) == text::dec(
            c.stratum.tick_ms as nat / 1000,
        ),
        value_of(c, f, note, "stratum"@, "vardiff_retarget_gate_shares"@) == text::dec(
            c.stratum.cadence.retarget_gate_shares as nat,
        ),
        value_of(c, f, note, "stratum"@, "vardiff_retarget_gate_secs"@) == text::dec(
            c.stratum.cadence.retarget_gate_secs as nat,
        ),
        value_of(c, f, note, "stratum"@, "vardiff_warmup_shares"@) == text::dec(
            c.stratum.cadence.warmup_shares as nat,
        ),
        value_of(c, f, note, "stratum"@, "vardiff_warmup_gate_shares"@) == text::dec(
            c.stratum.cadence.warmup_gate_shares as nat,
        ),
        value_of(c, f, note, "stratum"@, "vardiff_mature_shares"@) == text::dec(
            c.stratum.cadence.mature_shares as nat,
        ),
        value_of(c, f, note, "stratum"@, "vardiff_max_step"@) == text::dec(
            c.stratum.cadence.max_step as nat,
        ),
        value_of(c, f, note, "stratum"@, "vardiff_fixed_diff"@) == text::dec(
            c.stratum.tops.fixed_diff as nat,
        ),
        value_of(c, f, note, "stratum"@, "vardiff_max_diff"@) == text::dec(
            c.stratum.tops.max_diff as nat,
        ),
        value_of(c, f, note, "stratum"@, "vardiff_dead_zone_pct"@) == text::dec(
            c.stratum.cadence.dead_zone_pct as nat,
        ),
        value_of(c, f, note, "stratum"@, "vardiff_mature_zone_pct"@) == text::dec(
            c.stratum.cadence.mature_zone_pct as nat,
        ),
        value_of(c, f, note, "stratum"@, "vardiff_fast_escape_pct"@) == text::dec(
            c.stratum.cadence.fast_escape_pct as nat,
        ),
        value_of(c, f, note, "stratum"@, "vardiff_silence_slack"@) == text::dec(
            c.stratum.cadence.silence_slack as nat,
        ),
        value_of(c, f, note, "stratum"@, "vardiff_dsps_tau_fast_secs"@) == text::dec(
            c.stratum.cadence.tau@[0] as nat,
        ),
        value_of(c, f, note, "stratum"@, "vardiff_dsps_tau_mid_secs"@) == text::dec(
            c.stratum.cadence.tau@[1] as nat,
        ),
        value_of(c, f, note, "stratum"@, "vardiff_dsps_tau_slow_secs"@) == text::dec(
            c.stratum.cadence.tau@[2] as nat,
        ),
        value_of(c, f, note, "stratum"@, "diff_cache_entries"@) == text::dec(
            c.stratum.diff.cache_entries as nat,
        ),
        value_of(c, f, note, "stratum"@, "diff_cache_ttl_secs"@) == text::dec(
            c.stratum.diff.cache_ttl_ms as nat / 1000,
        ),
        value_of(c, f, note, "stratum"@, "reconnect_storm_per_min"@) == text::dec(
            c.stratum.diff.storm_per_min as nat,
        ),
        value_of(c, f, note, "stratum"@, "reconnect_storm_window_secs"@) == text::dec(
            c.stratum.diff.storm_window_ms as nat / 1000,
        ),
{
    lemma_names_differ();
}

/// Every other number is shown as the one of its name is in force.
pub proof fn law_other_numbers_are_shown(c: Config, f: Facts, note: Seq<char>)
    ensures
        value_of(c, f, note, "p2p"@, "max_peers"@) == text::dec(c.max_peers as nat),
        value_of(c, f, note, "mempool"@, "relay_fee_mile"@) == text::dec(c.relay_fee_mile as nat),
        value_of(c, f, note, "mempool"@, "max_txs"@) == text::dec(c.mempool_max_txs as nat),
        value_of(c, f, note, "checkpoints"@, "threshold"@) == text::dec(
            c.checkpoint_threshold as nat,
        ),
{
    lemma_names_differ();
}

/// A text is shown in quotes as the one of its name is in force, and a list in
/// brackets. Of the RPC token only whether there is one is shown.
pub proof fn law_texts_are_shown(c: Config, f: Facts, note: Seq<char>)
    ensures
        value_of(c, f, note, "node"@, "data_dir"@) == text::debug_of(c.data_dir@),
        value_of(c, f, note, "p2p"@, "listen"@) == text::debug_of(c.p2p_listen.text@),
        value_of(c, f, note, "stratum"@, "listen"@) == text::debug_of(c.stratum_listen.text@),
        value_of(c, f, note, "rpc"@, "listen"@) == text::debug_of(c.rpc_listen.text@),
        value_of(c, f, note, "rpc"@, "token"@) == (if c.rpc_token is Some {
            "\"<set, not shown>\""@
        } else {
            "\"\""@
        }),
        value_of(c, f, note, "mining"@, "author_note"@) == text::debug_of(note),
        value_of(c, f, note, "log"@, "level"@) == text::debug_of(config::level_name(c.log_level)),
        value_of(c, f, note, "p2p"@, "seeds"@) == quoted_list(settings::strings(c.seeds@)),
        value_of(c, f, note, "stratum"@, "vardiff_ladder"@) == number_list(
            c.stratum.cadence.ladder@,
        ),
{
    lemma_names_differ();
}

/// A list is shown element by element, with a comma and a space between one and
/// the next.
pub proof fn law_lists_are_shown_in_order(v: Seq<Seq<char>>, t: Seq<char>, w: Seq<i64>, n: i64)
    ensures
        quoted(Seq::empty()).len() == 0,
        quoted(seq![t]) == text::debug_of(t),
        v.len() > 0 ==> quoted(v.push(t)) == quoted(v) + ", "@ + text::debug_of(t),
        spelled(Seq::empty()).len() == 0,
        n >= 0 ==> spelled(seq![n]) == text::dec(n as nat),
        w.len() > 0 && n >= 0 ==> spelled(w.push(n)) == spelled(w) + ", "@ + text::dec(n as nat),
{
    assert(v.push(t).drop_last() =~= v);
    assert(w.push(n).drop_last() =~= w);
}

/// Every setting has its line, in the order in which the settings stand: its
/// name, its value, and where that came from; a section begins with its header.
pub proof fn law_settings_stand_in_order(
    c: Config,
    f: Facts,
    note: Seq<char>,
    os: Seq<Origin>,
    o: Origin,
)
    ensures
        setting_lines(c, f, note, Seq::empty()).len() == 0,
        os.len() > 0 && os.last().section@ == o.section@ ==> setting_lines(c, f, note, os.push(o))
            == setting_lines(c, f, note, os) + (o.key@ + " = "@ + value_of(
            c,
            f,
            note,
            o.section@,
            o.key@,
        ) + "  # "@ + config::source_label(o.source) + "\n"@),
        os.len() > 0 && os.last().section@ != o.section@ ==> setting_lines(c, f, note, os.push(o))
            == setting_lines(c, f, note, os) + ("["@ + o.section@ + "]\n"@ + (o.key@ + " = "@
            + value_of(c, f, note, o.section@, o.key@) + "  # "@ + config::source_label(o.source)
            + "\n"@)),
{
    assert(os.push(o).drop_last() =~= os);
    let line = setting_line(c, f, note, o);
    assert(Seq::<char>::empty() + line =~= line);
}

} // verus!
