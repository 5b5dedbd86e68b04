//! What the lines of a document say of a setting, and that the configuration is
//! made of that and of nothing else.

use vstd::prelude::*;
use crate::miner::json;
use crate::node::{config, keys, policy, schema, settings, toml};
use crate::node::names::Apart;
use crate::node::schema::{check_types, check_unknown, Kind};
use crate::node::keys::KeySource;
use crate::text;
use crate::node::config::{load, Config, Facts, Network, Overrides};
use crate::node::toml::Document;

verus! {

// ---------------------------------------------------------------------------
// Lines

/// Whether a line is about the setting.
pub open spec fn is_about(e: toml::EntryView, section: Seq<char>, key: Seq<char>) -> bool {
    e.section == section && e.key == key
}

/// Whether the first line about the setting gives it the value `v`.
pub open spec fn gives(
    d: toml::DocView,
    section: Seq<char>,
    key: Seq<char>,
    v: toml::ValueView,
) -> bool {
    exists|i: int|
        0 <= i < d.entries.len() && is_about(#[trigger] d.entries[i], section, key)
            && d.entries[i].value == v && forall|j: int|
            0 <= j < i ==> !is_about(#[trigger] d.entries[j], section, key)
}

/// Whether no line is about the setting.
pub open spec fn leaves_out(d: toml::DocView, section: Seq<char>, key: Seq<char>) -> bool {
    forall|i: int| 0 <= i < d.entries.len() ==> !is_about(#[trigger] d.entries[i], section, key)
}

/// Whether `b` is what the document says of a switch that is otherwise
/// `default`.
pub open spec fn is_switch(
    d: toml::DocView,
    section: Seq<char>,
    key: Seq<char>,
    default: bool,
    b: bool,
) -> bool {
    &&& gives(d, section, key, toml::ValueView::Bool(true)) ==> b
    &&& gives(d, section, key, toml::ValueView::Bool(false)) ==> !b
    &&& leaves_out(d, section, key) ==> b == default
}

/// Whether `n` is what the document says of a number that is otherwise
/// `default`, and lies between `lo` and `hi`.
pub open spec fn is_number(
    d: toml::DocView,
    section: Seq<char>,
    key: Seq<char>,
    default: int,
    lo: int,
    hi: int,
    n: int,
) -> bool {
    &&& forall|v: i64| #[trigger] gives(d, section, key, toml::ValueView::Int(v)) ==> n == v
    &&& leaves_out(d, section, key) ==> n == default
    &&& lo <= n <= hi
}

/// Whether `n` is in milliseconds, as far as it fits, the time that the document
/// gives in seconds, or else `default` seconds.
pub open spec fn is_time(
    d: toml::DocView,
    section: Seq<char>,
    key: Seq<char>,
    default: int,
    n: u64,
) -> bool {
    &&& forall|v: i64| #[trigger]
        gives(d, section, key, toml::ValueView::Int(v)) ==> n == (if v * 1000 <= u64::MAX {
            v * 1000
        } else {
            u64::MAX as int
        })
    &&& leaves_out(d, section, key) ==> n == default * 1000
}

/// Whether `t` is what the document says of a text that is otherwise `default`.
pub open spec fn is_text(
    d: toml::DocView,
    section: Seq<char>,
    key: Seq<char>,
    default: Seq<char>,
    t: Seq<char>,
) -> bool {
    &&& forall|v: Seq<char>| #[trigger] gives(d, section, key, toml::ValueView::Str(v)) ==> t == v
    &&& leaves_out(d, section, key) ==> t == default
}

proof fn lemma_place(es: Seq<toml::EntryView>, section: Seq<char>, key: Seq<char>, i: int)
    requires
        0 <= i <= es.len(),
    ensures
        ({
            let p = toml::place(es, section, key, i);
            &&& i <= p <= es.len()
            &&& p < es.len() ==> is_about(es[p], section, key)
            &&& forall|j: int| i <= j < p ==> !is_about(#[trigger] es[j], section, key)
        }),
    decreases es.len() - i,
{
    if i < es.len() && !(es[i].section == section && es[i].key == key) {
        lemma_place(es, section, key, i + 1);
    }
}

/// The document is read by the first line about a setting: it counts, and where
/// there is none the document says nothing.
pub proof fn law_the_first_line_counts(
    d: toml::DocView,
    section: Seq<char>,
    key: Seq<char>,
    v: toml::ValueView,
)
    ensures
        gives(d, section, key, v) <==> (toml::entry(d, section, key) matches Some(e) && e.value
            == v),
        leaves_out(d, section, key) <==> toml::entry(d, section, key) is None,
{
    lemma_place(d.entries, section, key, 0);
    let p = toml::place(d.entries, section, key, 0);
    if p < d.entries.len() {
        assert(is_about(d.entries[p], section, key));
    }
    if gives(d, section, key, v) {
        let i = choose|i: int|
            0 <= i < d.entries.len() && is_about(#[trigger] d.entries[i], section, key)
                && d.entries[i].value == v && forall|j: int|
                0 <= j < i ==> !is_about(#[trigger] d.entries[j], section, key);
        if i < p {
            assert(!is_about(d.entries[i], section, key));
        }
        if p < i {
            assert(!is_about(d.entries[p], section, key));
        }
    }
}

proof fn lemma_switch(d: toml::DocView, section: Seq<char>, key: Seq<char>, default: bool)
    ensures
        is_switch(
            d,
            section,
            key,
            default,
            settings::or_else(settings::bool_at(d, section, key), default),
        ),
{
    law_the_first_line_counts(d, section, key, toml::ValueView::Bool(true));
    law_the_first_line_counts(d, section, key, toml::ValueView::Bool(false));
}

proof fn lemma_number(s: settings::Sheet, r: settings::Range)
    requires
        r.fault(s) is None,
    ensures
        is_number(
            s.doc,
            r.section@,
            r.key@,
            r.default as int,
            r.lo as int,
            r.hi as int,
            r.value(s.doc) as int,
        ),
{
    let d = s.doc;
    law_the_first_line_counts(d, r.section@, r.key@, toml::ValueView::Bool(true));
    assert forall|v: i64| #[trigger]
        gives(d, r.section@, r.key@, toml::ValueView::Int(v)) implies r.value(d) == v by {
        law_the_first_line_counts(d, r.section@, r.key@, toml::ValueView::Int(v));
    }
}

proof fn lemma_time(s: settings::Sheet, r: settings::Range)
    requires
        r.fault(s) is None,
        0 <= r.lo,
        r.default <= 86400,
    ensures
        is_time(s.doc, r.section@, r.key@, r.default as int, policy::ms(r.value(s.doc))),
{
    lemma_number(s, r);
}

proof fn lemma_text(d: toml::DocView, section: Seq<char>, key: Seq<char>, default: Seq<char>)
    ensures
        is_text(d, section, key, default, config::text_in(d, section, key, default)),
{
    law_the_first_line_counts(d, section, key, toml::ValueView::Bool(true));
    assert forall|v: Seq<char>| #[trigger]
        gives(d, section, key, toml::ValueView::Str(v)) implies config::text_in(
        d,
        section,
        key,
        default,
    ) == v by {
        law_the_first_line_counts(d, section, key, toml::ValueView::Str(v));
    }
}

// ---------------------------------------------------------------------------
// The node

/// Every switch is what the document says of it, or its default where the
/// document says nothing: no other line moves it.
pub proof fn law_switches_are_as_given(
    path: &str,
    doc: &Document,
    overrides: &Overrides,
    facts: &Facts,
    c: Config,
)
    requires
        call_ensures(load, (path, doc, overrides, facts), Ok(c)),
    ensures
        is_switch(doc@, "node"@, "prune"@, true, c.prune),
        is_switch(doc@, "node"@, "txindex"@, false, c.txindex),
        is_switch(doc@, "node"@, "addrindex"@, false, c.addrindex),
        is_switch(doc@, "node"@, "verify_frames"@, false, c.verify_frames),
        is_switch(doc@, "p2p"@, "use_embedded_seeds"@, true, c.use_embedded_seeds),
        is_switch(doc@, "p2p"@, "accept_local_addrs"@, false, c.accept_local_addrs),
        is_switch(doc@, "author"@, "show_in_log"@, true, c.author_show_in_log),
        is_switch(doc@, "stratum"@, "enforcement"@, true, c.stratum.enforcement),
        is_switch(doc@, "stratum"@, "vardiff_enabled"@, true, c.stratum.vardiff_enabled),
{
    let d = doc@;
    lemma_switch(d, "node"@, "prune"@, true);
    lemma_switch(d, "node"@, "txindex"@, false);
    lemma_switch(d, "node"@, "addrindex"@, false);
    lemma_switch(d, "node"@, "verify_frames"@, false);
    lemma_switch(d, "p2p"@, "use_embedded_seeds"@, true);
    lemma_switch(d, "p2p"@, "accept_local_addrs"@, false);
    lemma_switch(d, "author"@, "show_in_log"@, true);
    lemma_switch(d, "stratum"@, "enforcement"@, true);
    lemma_switch(d, "stratum"@, "vardiff_enabled"@, true);
}

/// Every number outside the stratum server's policy is what the document says of
/// it, or its default, and lies in its range. A node has no more peers and no
/// larger mempool than it is built for.
pub proof fn law_numbers_are_as_given(
    path: &str,
    doc: &Document,
    overrides: &Overrides,
    facts: &Facts,
    c: Config,
)
    requires
        call_ensures(load, (path, doc, overrides, facts), Ok(c)),
    ensures
        is_number(doc@, "p2p"@, "max_peers"@, 128, 1, 128, c.max_peers as int),
        is_number(
            doc@,
            "mempool"@,
            "relay_fee_mile"@,
            1,
            1,
            i64::MAX as int,
            c.relay_fee_mile as int,
        ),
        is_number(
            doc@,
            "mempool"@,
            "max_txs"@,
            facts.max_mempool_txs as int,
            1,
            facts.max_mempool_txs as int,
            c.mempool_max_txs as int,
        ),
        is_number(
            doc@,
            "checkpoints"@,
            "threshold"@,
            1,
            1,
            i64::MAX as int,
            c.checkpoint_threshold as int,
        ),
{
    let s = settings::Sheet { path: path@, doc: doc@, nofile: facts.limit_nofile };
    lemma_number(s, settings::max_peers());
    lemma_number(s, settings::relay_fee_mile());
    lemma_number(s, settings::max_txs(facts.max_mempool_txs as i64));
    lemma_number(s, settings::threshold());
}

/// The token that RPC asks for, the author's note and the level of the log are
/// the texts that the document gives. Without a token none is asked for; the note
/// is cut nowhere; the command line's level goes before the document's, and
/// without either it is `info`.
pub proof fn law_texts_are_as_given(
    path: &str,
    doc: &Document,
    overrides: &Overrides,
    facts: &Facts,
    c: Config,
    t: Seq<char>,
)
    requires
        call_ensures(load, (path, doc, overrides, facts), Ok(c)),
    ensures
        leaves_out(doc@, "rpc"@, "token"@) ==> c.rpc_token is None,
        gives(doc@, "rpc"@, "token"@, toml::ValueView::Str(t)) ==> match c.rpc_token {
            Some(x) => x@ == t && t.len() > 0,
            None => t.len() == 0,
        },
        gives(doc@, "mining"@, "author_note"@, toml::ValueView::Str(t)) ==> c.author_note@
            == vstd::utf8::encode_utf8(t),
        leaves_out(doc@, "mining"@, "author_note"@) ==> c.author_note@.len() == 0,
        c.author_note@.len() <= 256,
        overrides.log_level matches Some(l) ==> c.log_level == l,
        overrides.log_level is None && gives(
            doc@,
            "log"@,
            "level"@,
            toml::ValueView::Str(t),
        ) ==> config::level_of(t) == Some(c.log_level),
        overrides.log_level is None && leaves_out(doc@, "log"@, "level"@) ==> c.log_level
            == config::LogLevel::Info,
        c.network == Network::Main,
{
    let d = doc@;
    lemma_text(d, "rpc"@, "token"@, ""@);
    lemma_text(d, "mining"@, "author_note"@, ""@);
    lemma_text(d, "log"@, "level"@, "info"@);
    reveal_strlit("");
    assert(""@ =~= Seq::<char>::empty());
    reveal_with_fuel(vstd::utf8::encode_utf8, 2);
    config::law_a_level_reads_back(config::LogLevel::Info);
    lemma_info_is_a_level();
}

proof fn lemma_info_is_a_level()
    ensures
        config::level_of("info"@) == Some(config::LogLevel::Info),
{
    reveal_strlit("info");
    reveal_strlit("error");
    reveal_strlit("warn");
    reveal_strlit("warning");
    assert(text::lower("info"@) =~= "info"@);
    assert("info"@[0] == 'i');
    assert("error"@[0] == 'e');
    assert("warn"@[0] == 'w');
    assert("warning"@[0] == 'w');
}

/// The data directory is the one of the command line, else the one that the
/// document names, with the user's home put in, else the one of the build.
pub proof fn law_the_data_directory_is_as_given(
    path: &str,
    doc: &Document,
    overrides: &Overrides,
    facts: &Facts,
    c: Config,
    t: Seq<char>,
)
    requires
        call_ensures(load, (path, doc, overrides, facts), Ok(c)),
    ensures
        overrides.data_dir matches Some(dir) ==> c.data_dir@ == dir@,
        overrides.data_dir is None && gives(doc@, "node"@, "data_dir"@, toml::ValueView::Str(t))
            && t.len() > 0 ==> c.data_dir@ == facts.expanded_dir@,
        overrides.data_dir is None && leaves_out(doc@, "node"@, "data_dir"@) ==> c.data_dir@
            == facts.default_dir@,
{
    lemma_text(doc@, "node"@, "data_dir"@, ""@);
    reveal_strlit("");
}

/// The seeds are those that the document lists, in its order. Where it lists
/// none, they are those of the build, unless the document does without them.
pub proof fn law_seeds_are_as_given(
    path: &str,
    doc: &Document,
    overrides: &Overrides,
    facts: &Facts,
    c: Config,
    v: Seq<toml::ItemView>,
)
    requires
        call_ensures(load, (path, doc, overrides, facts), Ok(c)),
    ensures
        gives(doc@, "p2p"@, "seeds"@, toml::ValueView::Arr(v)) && v.len() > 0 && (forall|i: int|
            0 <= i < v.len() ==> (#[trigger] v[i]) is Str) ==> c.seeds@.len() == v.len()
            && forall|i: int|
            0 <= i < v.len() ==> toml::ItemView::Str((#[trigger] c.seeds@[i])@) == v[i],
        (leaves_out(doc@, "p2p"@, "seeds"@) || gives(
            doc@,
            "p2p"@,
            "seeds"@,
            toml::ValueView::Arr(Seq::empty()),
        )) && c.use_embedded_seeds ==> settings::strings(c.seeds@) == settings::strings(
            facts.seeds@,
        ),
        (leaves_out(doc@, "p2p"@, "seeds"@) || gives(
            doc@,
            "p2p"@,
            "seeds"@,
            toml::ValueView::Arr(Seq::empty()),
        )) && !c.use_embedded_seeds ==> c.seeds@.len() == 0,
{
    let d = doc@;
    law_the_first_line_counts(d, "p2p"@, "seeds"@, toml::ValueView::Arr(v));
    law_the_first_line_counts(d, "p2p"@, "seeds"@, toml::ValueView::Arr(Seq::empty()));
    let own = config::texts_in(d, "p2p"@, "seeds"@);
    let got = settings::strings(c.seeds@);
    assert(got == config::seeds_in(d, *facts));
    assert(got.len() == c.seeds@.len());
    if gives(d, "p2p"@, "seeds"@, toml::ValueView::Arr(v)) && v.len() > 0 && (forall|i: int|
        0 <= i < v.len() ==> (#[trigger] v[i]) is Str) {
        lemma_all_texts(v);
        assert(own == settings::texts_of(v));
        assert forall|i: int| 0 <= i < v.len() implies toml::ItemView::Str(
            (#[trigger] c.seeds@[i])@,
        ) == v[i] by {
            assert(got[i] == c.seeds@[i]@);
        }
    }
}

/// The texts of an array of texts are its elements.
proof fn lemma_all_texts(v: Seq<toml::ItemView>)
    requires
        forall|i: int| 0 <= i < v.len() ==> (#[trigger] v[i]) is Str,
    ensures
        settings::texts_of(v).len() == v.len(),
        forall|i: int|
            0 <= i < v.len() ==> toml::ItemView::Str(#[trigger] settings::texts_of(v)[i]) == v[i],
    decreases v.len(),
{
    if v.len() > 0 {
        let w = v.drop_last();
        assert forall|i: int| 0 <= i < w.len() implies (#[trigger] w[i]) is Str by {
            assert(v[i] is Str);
        }
        lemma_all_texts(w);
        assert(v[v.len() - 1] is Str);
        assert forall|i: int| 0 <= i < v.len() implies toml::ItemView::Str(
            #[trigger] settings::texts_of(v)[i],
        ) == v[i] by {
            if i < w.len() {
                assert(toml::ItemView::Str(settings::texts_of(w)[i]) == w[i]);
            }
        }
    }
}

// ---------------------------------------------------------------------------
// The stratum server

/// The caps on connections and the rules of bans are what the document says of
/// them, or their defaults, in their ranges. What enforcement switches off is
/// stated for a server that enforces.
pub proof fn law_caps_and_bans_are_as_given(
    path: &str,
    doc: &Document,
    overrides: &Overrides,
    facts: &Facts,
    c: Config,
)
    requires
        call_ensures(load, (path, doc, overrides, facts), Ok(c)),
    ensures
        is_number(doc@, "stratum"@, "max_connections"@, 256, 1, 8192,
            c.stratum.max_connections as int),
        c.stratum.enforcement
            ==> is_number(doc@, "stratum"@, "max_per_ip"@, 16, 0, i64::MAX as int,
            c.stratum.caps.max_per_ip as int),
        c.stratum.enforcement
            ==> is_number(doc@, "stratum"@, "new_conns_per_ip_per_min"@, 6, 0, u32::MAX as int,
            c.stratum.caps.new_conns_per_ip_per_min as int),
        c.stratum.enforcement
            ==> is_number(doc@, "stratum"@, "global_accept_per_sec"@, 50, 0, u32::MAX as int,
            c.stratum.caps.global_accept_per_sec as int),
        is_number(doc@, "stratum"@, "ban_threshold"@, 100, 0, u32::MAX as int,
            c.stratum.bans.threshold as int),
        is_number(doc@, "stratum"@, "ban_soft_cap"@, 25, 0, u32::MAX as int,
            c.stratum.bans.soft_cap as int),
        is_number(doc@, "stratum"@, "ban_decay_secs"@, 6, 1, i64::MAX as int,
            c.stratum.bans.decay_secs as int),
        is_number(doc@, "stratum"@, "ban_base_secs"@, 600, 1, i64::MAX as int,
            c.stratum.bans.base_secs as int),
        is_number(doc@, "stratum"@, "ban_ladder_factor"@, 4, 1, i64::MAX as int,
            c.stratum.bans.ladder_factor as int),
        is_number(doc@, "stratum"@, "ban_max_secs"@, 86400, 1, i64::MAX as int,
            c.stratum.bans.max_secs as int),
        is_number(doc@, "stratum"@, "ban_table_entries"@, 65536, 1, 16_777_216,
            c.stratum.bans.table_entries as int),
        c.stratum.enforcement
            ==> is_time(doc@, "stratum"@, "garbage_throttle_secs"@, 60,
            c.stratum.bans.throttle_ms),
        c.stratum.enforcement
            ==> is_switch(doc@, "stratum"@, "bans_enabled"@, true, c.stratum.bans.enabled),
{
    let s = settings::Sheet { path: path@, doc: doc@, nofile: facts.limit_nofile };
    assert(policy::stratum_fault(s) is None);
    lemma_number(s, settings::max_connections());
    lemma_number(s, settings::max_per_ip());
    lemma_number(s, settings::new_conns_per_ip_per_min());
    lemma_number(s, settings::global_accept_per_sec());
    lemma_number(s, settings::ban_threshold());
    lemma_number(s, settings::ban_soft_cap());
    lemma_number(s, settings::ban_decay_secs());
    lemma_number(s, settings::ban_base_secs());
    lemma_number(s, settings::ban_ladder_factor());
    lemma_number(s, settings::ban_max_secs());
    lemma_number(s, settings::ban_table_entries());
    lemma_time(s, settings::garbage_throttle_secs());
    lemma_switch(doc@, "stratum"@, "bans_enabled"@, true);
}

/// The rates and the deadlines are what the document says of them, or their
/// defaults, in their ranges. A rate of zero does not limit, nor does any without
/// enforcement.
pub proof fn law_rates_and_deadlines_are_as_given(
    path: &str,
    doc: &Document,
    overrides: &Overrides,
    facts: &Facts,
    c: Config,
)
    requires
        call_ensures(load, (path, doc, overrides, facts), Ok(c)),
    ensures
        is_number(doc@, "stratum"@, "submit_rate_per_sec"@, 3, 0, i64::MAX as int,
            c.stratum.rates.submit_per_sec as int),
        is_number(doc@, "stratum"@, "submit_burst"@, 10, 0, i64::MAX as int,
            c.stratum.rates.submit_burst as int),
        is_number(doc@, "stratum"@, "line_rate_per_sec"@, 20, 0, i64::MAX as int,
            c.stratum.rates.line_per_sec as int),
        is_number(doc@, "stratum"@, "line_burst"@, 60, 0, i64::MAX as int,
            c.stratum.rates.line_burst as int),
        c.stratum.enforcement
            ==> is_time(doc@, "stratum"@, "auth_deadline_secs"@, 10, c.stratum.deadlines.auth_ms),
        c.stratum.enforcement
            ==> is_time(doc@, "stratum"@, "idle_evict_secs"@, 1800,
            c.stratum.deadlines.idle_evict_ms),
        c.stratum.enforcement
            ==> is_time(doc@, "stratum"@, "read_deadline_secs"@, 600,
            c.stratum.deadlines.read_ms),
        c.stratum.enforcement
            ==> is_time(doc@, "stratum"@, "write_timeout_secs"@, 30,
            c.stratum.deadlines.write_ms),
        c.stratum.enforcement
            ==> is_number(doc@, "stratum"@, "out_buf_cap_bytes"@, 4096, 0, i64::MAX as int,
            c.stratum.deadlines.out_buf_cap as int),
        c.stratum.rates.submit_enabled <==> c.stratum.enforcement && c.stratum.rates.submit_per_sec > 0,
        c.stratum.rates.line_enabled <==> c.stratum.enforcement && c.stratum.rates.line_per_sec > 0,
{
    let s = settings::Sheet { path: path@, doc: doc@, nofile: facts.limit_nofile };
    assert(policy::stratum_fault(s) is None);
    lemma_number(s, settings::submit_rate_per_sec());
    lemma_number(s, settings::submit_burst());
    lemma_number(s, settings::line_rate_per_sec());
    lemma_number(s, settings::line_burst());
    lemma_time(s, settings::auth_deadline_secs());
    lemma_time(s, settings::idle_evict_secs());
    lemma_time(s, settings::read_deadline_secs());
    lemma_time(s, settings::write_timeout_secs());
    lemma_number(s, settings::out_buf_cap_bytes());
}

/// The difficulties and how they are remembered are what the document says of
/// them, or their defaults, in their ranges.
pub proof fn law_difficulties_are_as_given(
    path: &str,
    doc: &Document,
    overrides: &Overrides,
    facts: &Facts,
    c: Config,
)
    requires
        call_ensures(load, (path, doc, overrides, facts), Ok(c)),
    ensures
        is_number(doc@, "stratum"@, "vardiff_start_diff"@, 60000, 1, i64::MAX as int,
            c.stratum.diff.start_diff as int),
        is_number(doc@, "stratum"@, "vardiff_min_diff"@, 8192, 1, i64::MAX as int,
            c.stratum.diff.min_diff as int),
        is_number(doc@, "stratum"@, "diff_cache_entries"@, 65536, 1, 16_777_216,
            c.stratum.diff.cache_entries as int),
        is_time(doc@, "stratum"@, "diff_cache_ttl_secs"@, 86400, c.stratum.diff.cache_ttl_ms),
        is_number(doc@, "stratum"@, "reconnect_storm_per_min"@, 4, 0, u32::MAX as int,
            c.stratum.diff.storm_per_min as int),
        is_time(doc@, "stratum"@, "reconnect_storm_window_secs"@, 300,
            c.stratum.diff.storm_window_ms),
        is_number(doc@, "stratum"@, "vardiff_setpoint_secs"@, 0, 0, i64::MAX as int,
            c.stratum.setpoint_secs as int),
        is_time(doc@, "stratum"@, "vardiff_tick_secs"@, 2, c.stratum.tick_ms),
        is_number(doc@, "stratum"@, "vardiff_fixed_diff"@, 0, 0, i64::MAX as int,
            c.stratum.tops.fixed_diff as int),
        is_number(doc@, "stratum"@, "vardiff_max_diff"@, 0, 0, i64::MAX as int,
            c.stratum.tops.max_diff as int),
        c.stratum.diff.storm_enabled <==> c.stratum.enforcement && c.stratum.diff.storm_per_min > 0,
{
    let s = settings::Sheet { path: path@, doc: doc@, nofile: facts.limit_nofile };
    assert(policy::stratum_fault(s) is None);
    lemma_number(s, settings::vardiff_start_diff());
    lemma_number(s, settings::vardiff_min_diff());
    lemma_number(s, settings::diff_cache_entries());
    lemma_time(s, settings::diff_cache_ttl_secs());
    lemma_number(s, settings::reconnect_storm_per_min());
    lemma_time(s, settings::reconnect_storm_window_secs());
    lemma_number(s, settings::vardiff_setpoint_secs());
    lemma_time(s, settings::vardiff_tick_secs());
    lemma_number(s, settings::vardiff_fixed_diff());
    lemma_number(s, settings::vardiff_max_diff());
}

/// How difficulty follows the shares is what the document says of it, or the
/// defaults, in their ranges.
pub proof fn law_the_cadence_is_as_given(
    path: &str,
    doc: &Document,
    overrides: &Overrides,
    facts: &Facts,
    c: Config,
)
    requires
        call_ensures(load, (path, doc, overrides, facts), Ok(c)),
    ensures
        is_number(doc@, "stratum"@, "vardiff_warmup_shares"@, 30, 0, u32::MAX as int,
            c.stratum.cadence.warmup_shares as int),
        is_number(doc@, "stratum"@, "vardiff_warmup_gate_shares"@, 5, 1, u32::MAX as int,
            c.stratum.cadence.warmup_gate_shares as int),
        is_number(doc@, "stratum"@, "vardiff_retarget_gate_shares"@, 20, 1, u32::MAX as int,
            c.stratum.cadence.retarget_gate_shares as int),
        is_number(doc@, "stratum"@, "vardiff_retarget_gate_secs"@, 120, 1, i64::MAX as int,
            c.stratum.cadence.retarget_gate_secs as int),
        is_number(doc@, "stratum"@, "vardiff_mature_shares"@, 60, 0, u32::MAX as int,
            c.stratum.cadence.mature_shares as int),
        is_number(doc@, "stratum"@, "vardiff_max_step"@, 4, 2, 1_000_000,
            c.stratum.cadence.max_step as int),
        is_number(doc@, "stratum"@, "vardiff_dead_zone_pct"@, 150, 101, 100_000,
            c.stratum.cadence.dead_zone_pct as int),
        is_number(doc@, "stratum"@, "vardiff_mature_zone_pct"@, 115, 101, 100_000,
            c.stratum.cadence.mature_zone_pct as int),
        is_number(doc@, "stratum"@, "vardiff_fast_escape_pct"@, 170, 101, 100_000,
            c.stratum.cadence.fast_escape_pct as int),
        is_number(doc@, "stratum"@, "vardiff_silence_slack"@, 4, 1, i64::MAX as int,
            c.stratum.cadence.silence_slack as int),
        is_number(doc@, "stratum"@, "vardiff_dsps_tau_fast_secs"@, 60, 1, i64::MAX as int,
            c.stratum.cadence.tau@[0] as int),
        is_number(doc@, "stratum"@, "vardiff_dsps_tau_mid_secs"@, 300, 1, i64::MAX as int,
            c.stratum.cadence.tau@[1] as int),
        is_number(doc@, "stratum"@, "vardiff_dsps_tau_slow_secs"@, 3600, 1, i64::MAX as int,
            c.stratum.cadence.tau@[2] as int),
{
    let s = settings::Sheet { path: path@, doc: doc@, nofile: facts.limit_nofile };
    assert(policy::stratum_fault(s) is None);
    lemma_number(s, settings::vardiff_warmup_shares());
    lemma_number(s, settings::vardiff_warmup_gate_shares());
    lemma_number(s, settings::vardiff_retarget_gate_shares());
    lemma_number(s, settings::vardiff_retarget_gate_secs());
    lemma_number(s, settings::vardiff_mature_shares());
    lemma_number(s, settings::vardiff_max_step());
    lemma_number(s, settings::vardiff_dead_zone_pct());
    lemma_number(s, settings::vardiff_mature_zone_pct());
    lemma_number(s, settings::vardiff_fast_escape_pct());
    lemma_number(s, settings::vardiff_silence_slack());
    lemma_number(s, settings::vardiff_dsps_tau_fast_secs());
    lemma_number(s, settings::vardiff_dsps_tau_mid_secs());
    lemma_number(s, settings::vardiff_dsps_tau_slow_secs());
}

/// The rungs of the ladder are the whole numbers that the document lists, in its
/// order, or the usual ten.
pub proof fn law_the_ladder_is_as_given(
    path: &str,
    doc: &Document,
    overrides: &Overrides,
    facts: &Facts,
    c: Config,
    v: Seq<toml::ItemView>,
    i: int,
)
    requires
        call_ensures(load, (path, doc, overrides, facts), Ok(c)),
    ensures
        is_ladder(doc@, v, i, c.stratum.cadence.ladder@),
{
    let s = settings::Sheet { path: path@, doc: doc@, nofile: facts.limit_nofile };
    lemma_loaded_ladder(path, doc, overrides, facts, c);
    lemma_ladder(s, v, i);
}

/// Whether `l` is the ladder of a document: the usual one where it lists none,
/// and the numbers `v`, as far as the one at `i` shows it, where it lists those.
pub open spec fn is_ladder(d: toml::DocView, v: Seq<toml::ItemView>, i: int, l: Seq<i64>) -> bool {
    &&& leaves_out(d, "stratum"@, "vardiff_ladder"@) ==> l == seq![
        10i64,
        12i64,
        15i64,
        20i64,
        25i64,
        30i64,
        40i64,
        50i64,
        60i64,
        80i64,
    ]
    &&& gives(d, "stratum"@, "vardiff_ladder"@, toml::ValueView::Arr(v)) && (forall|k: int|
        0 <= k < v.len() ==> (#[trigger] v[k]) is Int) ==> l.len() == v.len() && (0 <= i < v.len()
        ==> toml::ItemView::Int(l[i]) == v[i])
}

/// The ladder of a configuration has from one to sixteen rungs, each from 10 to
/// 999 and above the one before it.
pub proof fn law_a_loaded_ladder_rises(
    path: &str,
    doc: &Document,
    overrides: &Overrides,
    facts: &Facts,
    c: Config,
    i: int,
    j: int,
)
    requires
        call_ensures(load, (path, doc, overrides, facts), Ok(c)),
    ensures
        1 <= c.stratum.cadence.ladder@.len() <= 16,
        0 <= i < j < c.stratum.cadence.ladder@.len() ==> 10 <= c.stratum.cadence.ladder@[i]
            < c.stratum.cadence.ladder@[j] <= 999,
{
    let s = settings::Sheet { path: path@, doc: doc@, nofile: facts.limit_nofile };
    lemma_loaded_ladder(path, doc, overrides, facts, c);
    lemma_ladder_bounds(s, i, j);
}

proof fn lemma_ladder_bounds(s: settings::Sheet, i: int, j: int)
    requires
        policy::ladder_fault(s) is None,
    ensures
        1 <= policy::ladder_of(s.doc).len() <= 16,
        0 <= i < j < policy::ladder_of(s.doc).len() ==> 10 <= policy::ladder_of(s.doc)[i]
            < policy::ladder_of(s.doc)[j] <= 999,
{
    if 0 <= i < j < policy::ladder_of(s.doc).len() {
        policy::law_the_ladder_rises(s, i, j);
    }
}

proof fn lemma_loaded_ladder(
    path: &str,
    doc: &Document,
    overrides: &Overrides,
    facts: &Facts,
    c: Config,
)
    requires
        call_ensures(load, (path, doc, overrides, facts), Ok(c)),
    ensures
        policy::ladder_fault(
            (settings::Sheet { path: path@, doc: doc@, nofile: facts.limit_nofile }),
        ) is None,
        c.stratum.cadence.ladder@ == policy::ladder_of(doc@),
{
    let s = settings::Sheet { path: path@, doc: doc@, nofile: facts.limit_nofile };
    assert(policy::stratum_fault(s) is None);
}

proof fn lemma_ladder(s: settings::Sheet, v: Seq<toml::ItemView>, i: int)
    requires
        policy::ladder_fault(s) is None,
    ensures
        is_ladder(s.doc, v, i, policy::ladder_of(s.doc)),
{
    law_the_first_line_counts(s.doc, "stratum"@, "vardiff_ladder"@, toml::ValueView::Arr(v));
    if gives(s.doc, "stratum"@, "vardiff_ladder"@, toml::ValueView::Arr(v)) && (forall|k: int|
        0 <= k < v.len() ==> (#[trigger] v[k]) is Int) {
        lemma_all_numbers(v);
    }
}

/// The numbers of an array of numbers are its elements.
proof fn lemma_all_numbers(v: Seq<toml::ItemView>)
    requires
        forall|i: int| 0 <= i < v.len() ==> (#[trigger] v[i]) is Int,
    ensures
        settings::ints_of(v).len() == v.len(),
        forall|i: int|
            0 <= i < v.len() ==> toml::ItemView::Int(#[trigger] settings::ints_of(v)[i]) == v[i],
    decreases v.len(),
{
    if v.len() > 0 {
        let w = v.drop_last();
        assert forall|i: int| 0 <= i < w.len() implies (#[trigger] w[i]) is Int by {
            assert(v[i] is Int);
        }
        lemma_all_numbers(w);
        assert(v[v.len() - 1] is Int);
        assert forall|i: int| 0 <= i < v.len() implies toml::ItemView::Int(
            #[trigger] settings::ints_of(v)[i],
        ) == v[i] by {
            if i < w.len() {
                assert(toml::ItemView::Int(settings::ints_of(w)[i]) == w[i]);
            }
        }
    }
}

// ---------------------------------------------------------------------------
// Keys

/// Whether a text spells a key: its 64 hexadecimal digits, of either case, behind
/// a `0x` or not.
pub open spec fn spells(t: Seq<char>, key: Seq<u8>) -> bool {
    ||| t.len() == 64 && json::hex_of(key) == text::lower(t)
    ||| t.len() == 66 && t[0] == '0' && t[1] == 'x' && json::hex_of(key) == text::lower(t.skip(2))
}

/// A text is read as the key that it spells, and as no other.
pub proof fn law_a_key_is_what_its_text_spells(t: Seq<char>)
    ensures
        keys::key_of(t) matches Some(k) ==> spells(t, k) && k.len() == 32,
{
    reveal_strlit("0x");
    let b = keys::bare(t);
    if keys::key_of(t) is Some {
        json::law_unhex_round_trip(b, 32);
        json::law_digits_and_nothing_else_denote_bytes(b, 32);
        if text::stands(t, "0x"@, 0) {
            assert(t.subrange(0, 2)[0] == "0x"@[0]);
            assert(t.subrange(0, 2)[1] == "0x"@[1]);
            assert(b =~= t.skip(2));
        }
    }
}

/// Checkpoints are held against the keys that the document lists, each as it
/// spells it and in its order; where it lists none, against the one of the build;
/// where it switches them off, against none.
pub proof fn law_checkpoint_keys_are_as_given(
    path: &str,
    doc: &Document,
    overrides: &Overrides,
    facts: &Facts,
    c: Config,
    v: Seq<toml::ItemView>,
    i: int,
)
    requires
        call_ensures(load, (path, doc, overrides, facts), Ok(c)),
    ensures
        ({
            let off = gives(doc@, "checkpoints"@, "enabled"@, toml::ValueView::Bool(false));
            let on = gives(doc@, "checkpoints"@, "enabled"@, toml::ValueView::Bool(true))
                || leaves_out(doc@, "checkpoints"@, "enabled"@);
            let none = leaves_out(doc@, "checkpoints"@, "keys"@) || gives(
                doc@,
                "checkpoints"@,
                "keys"@,
                toml::ValueView::Arr(Seq::empty()),
            );
            let some = v.len() > 0 && gives(
                doc@,
                "checkpoints"@,
                "keys"@,
                toml::ValueView::Arr(v),
            ) && forall|k: int| 0 <= k < v.len() ==> (#[trigger] v[k]) is Str;
            &&& off ==> c.checkpoints@ == keys::PolicyView::Disabled
            &&& on && none ==> c.checkpoints@ == (keys::PolicyView::Embedded {
                key: facts.checkpoint_key@,
                placeholder: facts.checkpoint_placeholder,
            })
            &&& on && some ==> match c.checkpoints@ {
                keys::PolicyView::Configured { keys } => keys.len() == v.len() && (0 <= i < v.len()
                    ==> (v[i] matches toml::ItemView::Str(t) && spells(t, keys[i]))),
                _ => false,
            }
        }),
{
    let d = doc@;
    let s = settings::Sheet { path: path@, doc: d, nofile: facts.limit_nofile };
    assert(config::checkpoints_fault(s, *facts) is None && c.checkpoints@ == config::policy_in(
        d,
        *facts,
    )) by {
        assert(config::back_fault(s, *facts) is None);
        assert(config::is_keyed(c, d, *facts));
    }
    lemma_checkpoint_keys(s, *facts, v, i);
}

proof fn lemma_checkpoint_keys(
    s: settings::Sheet,
    f: Facts,
    v: Seq<toml::ItemView>,
    i: int,
)
    requires
        config::checkpoints_fault(s, f) is None,
    ensures
        ({
            let d = s.doc;
            let p = config::policy_in(d, f);
            let off = gives(d, "checkpoints"@, "enabled"@, toml::ValueView::Bool(false));
            let on = gives(d, "checkpoints"@, "enabled"@, toml::ValueView::Bool(true))
                || leaves_out(d, "checkpoints"@, "enabled"@);
            let none = leaves_out(d, "checkpoints"@, "keys"@) || gives(
                d,
                "checkpoints"@,
                "keys"@,
                toml::ValueView::Arr(Seq::empty()),
            );
            let some = v.len() > 0 && gives(d, "checkpoints"@, "keys"@, toml::ValueView::Arr(v))
                && forall|k: int| 0 <= k < v.len() ==> (#[trigger] v[k]) is Str;
            &&& off ==> p == keys::PolicyView::Disabled
            &&& on && none ==> p == (keys::PolicyView::Embedded {
                key: f.checkpoint_key@,
                placeholder: f.checkpoint_placeholder,
            })
            &&& on && some ==> match p {
                keys::PolicyView::Configured { keys } => keys.len() == v.len() && (0 <= i < v.len()
                    ==> (v[i] matches toml::ItemView::Str(t) && spells(t, keys[i]))),
                _ => false,
            }
        }),
{
    let d = s.doc;
    lemma_switch(d, "checkpoints"@, "enabled"@, true);
    law_the_first_line_counts(d, "checkpoints"@, "keys"@, toml::ValueView::Arr(v));
    law_the_first_line_counts(d, "checkpoints"@, "keys"@, toml::ValueView::Arr(Seq::empty()));
    let texts = config::key_texts(d);
    if v.len() > 0 && gives(d, "checkpoints"@, "keys"@, toml::ValueView::Arr(v)) && (forall|k: int|
        0 <= k < v.len() ==> (#[trigger] v[k]) is Str) {
        lemma_all_texts(v);
        assert(texts == settings::texts_of(v));
        if 0 <= i < v.len() {
            config::lemma_key_is_sound(s, f.keys@, texts, 0, i);
            law_a_key_is_what_its_text_spells(texts[i]);
            assert(toml::ItemView::Str(texts[i]) == v[i]);
            assert(keys::key_of(texts[i]) is Some);
        }
    }
}

/// The author's key is the one that the document spells, or the one of the build
/// where the document gives none or a blank one, and it is said which.
pub proof fn law_the_author_key_is_as_given(
    path: &str,
    doc: &Document,
    overrides: &Overrides,
    facts: &Facts,
    c: Config,
    t: Seq<char>,
)
    requires
        call_ensures(load, (path, doc, overrides, facts), Ok(c)),
    ensures
        leaves_out(doc@, "author"@, "pubkey"@) ==> c.author_pubkey@ == facts.author_key@
            && c.author_key_source == KeySource::Embedded && c.author_key_placeholder
            == facts.author_placeholder,
        gives(doc@, "author"@, "pubkey"@, toml::ValueView::Str(t)) && (exists|k: int|
            0 <= k < t.len() && !text::is_white(#[trigger] t[k])) ==> spells(t, c.author_pubkey@)
            && c.author_key_source == KeySource::Config && !c.author_key_placeholder,
{
    let d = doc@;
    let s = settings::Sheet { path: path@, doc: d, nofile: facts.limit_nofile };
    assert(config::author_fault(s, facts.keys@) is None && config::is_keyed(c, d, *facts)) by {
        assert(config::back_fault(s, *facts) is None);
    }
    lemma_text(d, "author"@, "pubkey"@, ""@);
    reveal_strlit("");
    reveal_with_fuel(text::trim_end, 2);
    assert(text::white_end(""@, 0) == 0);
    assert(config::blank(""@));
    let w = config::author_text(d);
    law_a_key_is_what_its_text_spells(w);
    if exists|k: int| 0 <= k < t.len() && !text::is_white(#[trigger] t[k]) {
        let k = choose|k: int| 0 <= k < t.len() && !text::is_white(#[trigger] t[k]);
        text::lemma_trimmed_holds(t, k);
    }
}

// ---------------------------------------------------------------------------
// What is refused

/// Whether a number that the document gives the setting lies between `lo` and
/// `hi`.
pub open spec fn is_within(
    d: toml::DocView,
    section: Seq<char>,
    key: Seq<char>,
    lo: int,
    hi: int,
) -> bool {
    forall|v: i64| #[trigger] gives(d, section, key, toml::ValueView::Int(v)) ==> lo <= v <= hi
}

proof fn lemma_within(s: settings::Sheet, r: settings::Range)
    requires
        r.lo <= r.default <= r.hi,
    ensures
        r.fault(s) is None <==> is_within(s.doc, r.section@, r.key@, r.lo as int, r.hi as int),
{
    let d = s.doc;
    law_the_first_line_counts(d, r.section@, r.key@, toml::ValueView::Bool(true));
    assert forall|v: i64| #[trigger]
        gives(d, r.section@, r.key@, toml::ValueView::Int(v)) implies r.value(d) == v by {
        law_the_first_line_counts(d, r.section@, r.key@, toml::ValueView::Int(v));
    }
    match settings::int_at(d, r.section@, r.key@) {
        Some(v) => {
            law_the_first_line_counts(d, r.section@, r.key@, toml::ValueView::Int(v));
            assert(gives(d, r.section@, r.key@, toml::ValueView::Int(v)));
        },
        None => {},
    }
}

/// The caps are refused exactly where one of them is out of its range.
pub proof fn law_caps_are_refused_out_of_range(s: settings::Sheet)
    ensures
        policy::caps_fault(s) is None <==> {
            &&& is_within(s.doc, "stratum"@, "max_per_ip"@, 0, i64::MAX as int)
            &&& is_within(s.doc, "stratum"@, "new_conns_per_ip_per_min"@, 0, u32::MAX as int)
            &&& is_within(s.doc, "stratum"@, "global_accept_per_sec"@, 0, u32::MAX as int)
        },
{
    lemma_within(s, settings::max_per_ip());
    lemma_within(s, settings::new_conns_per_ip_per_min());
    lemma_within(s, settings::global_accept_per_sec());
}

/// The rules of bans are refused exactly where one of them is out of its range.
pub proof fn law_bans_are_refused_out_of_range(s: settings::Sheet)
    ensures
        policy::bans_fault(s) is None <==> {
            &&& is_within(s.doc, "stratum"@, "ban_threshold"@, 0, u32::MAX as int)
            &&& is_within(s.doc, "stratum"@, "ban_soft_cap"@, 0, u32::MAX as int)
            &&& is_within(s.doc, "stratum"@, "ban_decay_secs"@, 1, i64::MAX as int)
            &&& is_within(s.doc, "stratum"@, "ban_base_secs"@, 1, i64::MAX as int)
            &&& is_within(s.doc, "stratum"@, "ban_ladder_factor"@, 1, i64::MAX as int)
            &&& is_within(s.doc, "stratum"@, "ban_max_secs"@, 1, i64::MAX as int)
            &&& is_within(s.doc, "stratum"@, "ban_table_entries"@, 1, 16_777_216)
            &&& is_within(s.doc, "stratum"@, "garbage_throttle_secs"@, 0, i64::MAX as int)
        },
{
    lemma_within(s, settings::ban_threshold());
    lemma_within(s, settings::ban_soft_cap());
    lemma_within(s, settings::ban_decay_secs());
    lemma_within(s, settings::ban_base_secs());
    lemma_within(s, settings::ban_ladder_factor());
    lemma_within(s, settings::ban_max_secs());
    lemma_within(s, settings::ban_table_entries());
    lemma_within(s, settings::garbage_throttle_secs());
}

/// The rates are refused exactly where one of them is out of its range.
pub proof fn law_rates_are_refused_out_of_range(s: settings::Sheet)
    ensures
        policy::rates_fault(s) is None <==> {
            &&& is_within(s.doc, "stratum"@, "submit_rate_per_sec"@, 0, i64::MAX as int)
            &&& is_within(s.doc, "stratum"@, "submit_burst"@, 0, i64::MAX as int)
            &&& is_within(s.doc, "stratum"@, "line_rate_per_sec"@, 0, i64::MAX as int)
            &&& is_within(s.doc, "stratum"@, "line_burst"@, 0, i64::MAX as int)
        },
{
    lemma_within(s, settings::submit_rate_per_sec());
    lemma_within(s, settings::submit_burst());
    lemma_within(s, settings::line_rate_per_sec());
    lemma_within(s, settings::line_burst());
}

/// The deadlines are refused exactly where one of them is out of its range.
pub proof fn law_deadlines_are_refused_out_of_range(s: settings::Sheet)
    ensures
        policy::deadlines_fault(s) is None <==> {
            &&& is_within(s.doc, "stratum"@, "auth_deadline_secs"@, 0, i64::MAX as int)
            &&& is_within(s.doc, "stratum"@, "idle_evict_secs"@, 0, i64::MAX as int)
            &&& is_within(s.doc, "stratum"@, "read_deadline_secs"@, 0, i64::MAX as int)
            &&& is_within(s.doc, "stratum"@, "write_timeout_secs"@, 0, i64::MAX as int)
            &&& is_within(s.doc, "stratum"@, "out_buf_cap_bytes"@, 0, i64::MAX as int)
        },
{
    lemma_within(s, settings::auth_deadline_secs());
    lemma_within(s, settings::idle_evict_secs());
    lemma_within(s, settings::read_deadline_secs());
    lemma_within(s, settings::write_timeout_secs());
    lemma_within(s, settings::out_buf_cap_bytes());
}

/// The bounds of difficulty are refused exactly where one of them is out of its
/// range.
pub proof fn law_bounds_are_refused_out_of_range(s: settings::Sheet)
    ensures
        policy::bounds_fault(s) is None <==> {
            &&& is_within(s.doc, "stratum"@, "vardiff_setpoint_secs"@, 0, i64::MAX as int)
            &&& is_within(s.doc, "stratum"@, "vardiff_tick_secs"@, 1, i64::MAX as int)
            &&& is_within(s.doc, "stratum"@, "vardiff_min_diff"@, 1, i64::MAX as int)
            &&& is_within(s.doc, "stratum"@, "vardiff_start_diff"@, 1, i64::MAX as int)
        },
{
    lemma_within(s, settings::vardiff_setpoint_secs());
    lemma_within(s, settings::vardiff_tick_secs());
    lemma_within(s, settings::vardiff_min_diff());
    lemma_within(s, settings::vardiff_start_diff());
}

/// The cadence is refused exactly where one of its numbers is out of its range.
pub proof fn law_the_cadence_is_refused_out_of_range(s: settings::Sheet)
    ensures
        policy::cadence_fault(s) is None <==> {
            &&& is_within(s.doc, "stratum"@, "vardiff_warmup_shares"@, 0, u32::MAX as int)
            &&& is_within(s.doc, "stratum"@, "vardiff_warmup_gate_shares"@, 1, u32::MAX as int)
            &&& is_within(s.doc, "stratum"@, "vardiff_retarget_gate_shares"@, 1, u32::MAX as int)
            &&& is_within(s.doc, "stratum"@, "vardiff_retarget_gate_secs"@, 1, i64::MAX as int)
            &&& is_within(s.doc, "stratum"@, "vardiff_mature_shares"@, 0, u32::MAX as int)
            &&& is_within(s.doc, "stratum"@, "vardiff_max_step"@, 2, 1_000_000)
            &&& is_within(s.doc, "stratum"@, "vardiff_dead_zone_pct"@, 101, 100_000)
            &&& is_within(s.doc, "stratum"@, "vardiff_mature_zone_pct"@, 101, 100_000)
            &&& is_within(s.doc, "stratum"@, "vardiff_fast_escape_pct"@, 101, 100_000)
            &&& is_within(s.doc, "stratum"@, "vardiff_silence_slack"@, 1, i64::MAX as int)
            &&& is_within(s.doc, "stratum"@, "vardiff_dsps_tau_fast_secs"@, 1, i64::MAX as int)
            &&& is_within(s.doc, "stratum"@, "vardiff_dsps_tau_mid_secs"@, 1, i64::MAX as int)
            &&& is_within(s.doc, "stratum"@, "vardiff_dsps_tau_slow_secs"@, 1, i64::MAX as int)
        },
{
    lemma_within(s, settings::vardiff_warmup_shares());
    lemma_within(s, settings::vardiff_warmup_gate_shares());
    lemma_within(s, settings::vardiff_retarget_gate_shares());
    lemma_within(s, settings::vardiff_retarget_gate_secs());
    lemma_within(s, settings::vardiff_mature_shares());
    lemma_within(s, settings::vardiff_max_step());
    lemma_within(s, settings::vardiff_dead_zone_pct());
    lemma_within(s, settings::vardiff_mature_zone_pct());
    lemma_within(s, settings::vardiff_fast_escape_pct());
    lemma_within(s, settings::vardiff_silence_slack());
    lemma_within(s, settings::vardiff_dsps_tau_fast_secs());
    lemma_within(s, settings::vardiff_dsps_tau_mid_secs());
    lemma_within(s, settings::vardiff_dsps_tau_slow_secs());
}

/// The fixed and the greatest difficulty are refused exactly where one of them is
/// out of its range.
pub proof fn law_tops_are_refused_out_of_range(s: settings::Sheet)
    ensures
        policy::tops_fault(s) is None <==> {
            &&& is_within(s.doc, "stratum"@, "vardiff_fixed_diff"@, 0, i64::MAX as int)
            &&& is_within(s.doc, "stratum"@, "vardiff_max_diff"@, 0, i64::MAX as int)
        },
{
    lemma_within(s, settings::vardiff_fixed_diff());
    lemma_within(s, settings::vardiff_max_diff());
}

/// The settings on remembered difficulties are refused exactly where one of them
/// is out of its range.
pub proof fn law_the_memory_is_refused_out_of_range(s: settings::Sheet)
    ensures
        policy::memory_fault(s) is None <==> {
            &&& is_within(s.doc, "stratum"@, "diff_cache_entries"@, 1, 16_777_216)
            &&& is_within(s.doc, "stratum"@, "diff_cache_ttl_secs"@, 1, i64::MAX as int)
            &&& is_within(s.doc, "stratum"@, "reconnect_storm_per_min"@, 0, u32::MAX as int)
            &&& is_within(s.doc, "stratum"@, "reconnect_storm_window_secs"@, 1, i64::MAX as int)
        },
{
    lemma_within(s, settings::diff_cache_entries());
    lemma_within(s, settings::diff_cache_ttl_secs());
    lemma_within(s, settings::reconnect_storm_per_min());
    lemma_within(s, settings::reconnect_storm_window_secs());
}

/// The other numbers are refused exactly where they are out of their ranges.
pub proof fn law_other_numbers_are_refused_out_of_range(s: settings::Sheet, top: i64)
    requires
        top >= 1,
    ensures
        settings::max_peers().fault(s) is None <==> is_within(s.doc, "p2p"@, "max_peers"@, 1, 128),
        settings::max_connections().fault(s) is None <==> is_within(
            s.doc,
            "stratum"@,
            "max_connections"@,
            1,
            8192,
        ),
        settings::relay_fee_mile().fault(s) is None <==> is_within(
            s.doc,
            "mempool"@,
            "relay_fee_mile"@,
            1,
            i64::MAX as int,
        ),
        settings::threshold().fault(s) is None <==> is_within(
            s.doc,
            "checkpoints"@,
            "threshold"@,
            1,
            i64::MAX as int,
        ),
        settings::max_txs(top).fault(s) is None <==> is_within(
            s.doc,
            "mempool"@,
            "max_txs"@,
            1,
            top as int,
        ),
{
    lemma_within(s, settings::max_peers());
    lemma_within(s, settings::max_connections());
    lemma_within(s, settings::relay_fee_mile());
    lemma_within(s, settings::threshold());
    lemma_within(s, settings::max_txs(top));
}

/// The policy of the stratum server is refused exactly where one of its numbers
/// is out of range, its ladder does not rise, or the first or the greatest
/// difficulty is below the least.
pub proof fn law_a_stratum_policy_is_refused_for_a_cause(s: settings::Sheet)
    ensures
        policy::stratum_fault(s) is None <==> {
            &&& settings::max_connections().fault(s) is None
            &&& policy::caps_fault(s) is None
            &&& policy::bans_fault(s) is None
            &&& policy::rates_fault(s) is None
            &&& policy::deadlines_fault(s) is None
            &&& policy::bounds_fault(s) is None
            &&& policy::ladder_fault(s) is None
            &&& policy::cadence_fault(s) is None
            &&& policy::tops_fault(s) is None
            &&& policy::memory_fault(s) is None
            &&& policy::bounds_of(s.doc).start_diff >= policy::bounds_of(s.doc).min_diff
            &&& policy::tops_of(s.doc).max_diff == 0 || policy::tops_of(s.doc).max_diff
                >= policy::bounds_of(s.doc).min_diff
        },
{
}

/// A ladder is refused exactly where it has no rung or more than sixteen, or a
/// rung that is not from 10 to 999 or not above the one before it.
pub proof fn law_a_ladder_is_refused_for_a_cause(s: settings::Sheet, v: Seq<toml::ItemView>)
    requires
        gives(s.doc, "stratum"@, "vardiff_ladder"@, toml::ValueView::Arr(v)),
        forall|k: int| 0 <= k < v.len() ==> (#[trigger] v[k]) is Int,
    ensures
        policy::ladder_fault(s) is None <==> 1 <= v.len() <= 16 && forall|k: int|
            0 <= k < v.len() ==> 10 <= (#[trigger] v[k])->Int_0 <= 999 && (k > 0
                ==> v[k - 1]->Int_0 < v[k]->Int_0),
{
    law_the_first_line_counts(s.doc, "stratum"@, "vardiff_ladder"@, toml::ValueView::Arr(v));
    lemma_all_numbers(v);
    let l = settings::ints_of(v);
    assert(policy::rungs(s.doc) == Some(l));
    lemma_weak_rung(l, 0);
    assert forall|k: int| 0 <= k < v.len() implies l[k] == (#[trigger] v[k])->Int_0 by {
        assert(toml::ItemView::Int(l[k]) == v[k]);
    }
    if policy::weak_rung(l, 0) >= l.len() {
        assert forall|k: int| 0 <= k < v.len() implies 10 <= (#[trigger] v[k])->Int_0 <= 999 && (k
            > 0 ==> v[k - 1]->Int_0 < v[k]->Int_0) by {
            assert(is_strong(l, k));
            if k > 0 {
                assert(l[k - 1] == v[k - 1]->Int_0);
            }
        }
    } else {
        let w = policy::weak_rung(l, 0);
        assert(!is_strong(l, w));
        assert(l[w] == v[w]->Int_0);
        if w > 0 {
            assert(l[w - 1] == v[w - 1]->Int_0);
        }
    }
}

/// Whether a rung is in range and above the one before it.
spec fn is_strong(v: Seq<i64>, k: int) -> bool {
    10 <= v[k] <= 999 && v[k] > policy::below(v, k)
}

proof fn lemma_weak_rung(v: Seq<i64>, i: int)
    requires
        0 <= i <= v.len(),
    ensures
        i <= policy::weak_rung(v, i) <= v.len(),
        forall|k: int| i <= k < policy::weak_rung(v, i) ==> is_strong(v, k),
        policy::weak_rung(v, i) < v.len() ==> !is_strong(v, policy::weak_rung(v, i)),
    decreases v.len() - i,
{
    if i < v.len() && is_strong(v, i) {
        lemma_weak_rung(v, i + 1);
    }
}

/// A document is refused exactly for a cause of its own: a name that is not
/// known, a value of the wrong type, another network, an address that is none, an
/// RPC listener that is not safe, a number out of range, a note that is too long,
/// keys that are none or contradict, or a level that is none.
pub proof fn law_a_document_is_refused_for_a_cause(
    path: &str,
    doc: &Document,
    overrides: &Overrides,
    facts: &Facts,
    x: Result<Config, toml::Diagnostic>,
)
    requires
        call_ensures(load, (path, doc, overrides, facts), x),
    ensures
        ({
            let s = settings::Sheet { path: path@, doc: doc@, nofile: facts.limit_nofile };
            x is Ok <==> {
                &&& schema::unknown(path@, doc@, facts.apart@) is None
                &&& schema::type_faults(path@, doc@.entries, 0) is None
                &&& config::text_in(doc@, "node"@, "network"@, "main"@) == "main"@
                &&& facts.p2p is Some && facts.stratum is Some && facts.rpc is Some
                &&& facts.bind_complaint is None
                &&& settings::max_peers().fault(s) is None
                &&& policy::stratum_fault(s) is None
                &&& settings::relay_fee_mile().fault(s) is None
                &&& settings::max_txs(facts.max_mempool_txs as i64).fault(s) is None
                &&& config::note_in(doc@).len() <= 256
                &&& config::checkpoints_fault(s, *facts) is None
                &&& config::author_fault(s, facts.keys@) is None
                &&& config::level_of(config::text_in(doc@, "log"@, "level"@, "info"@)) is Some
            }
        }),
{
}

/// A document that is accepted names only settings that there are, each with a
/// value of its type, and an array only with elements of its type.
pub proof fn law_accepted_settings_exist_and_fit(
    path: &str,
    doc: &Document,
    apart: &[Apart],
    i: int,
    j: int,
)
    requires
        call_ensures(check_unknown, (path, doc, apart), Ok(())),
        call_ensures(check_types, (path, doc), Ok(())),
        0 <= i < doc@.entries.len(),
    ensures
        ({
            let e = doc@.entries[i];
            match schema::kind_of(e.section, e.key) {
                Some(Kind::Str) => e.value is Str,
                Some(Kind::Int) => e.value is Int,
                Some(Kind::Bool) => e.value is Bool,
                Some(Kind::StrArray) => e.value matches toml::ValueView::Arr(v) && (0 <= j < v.len()
                    ==> v[j] is Str),
                Some(Kind::IntArray) => e.value matches toml::ValueView::Arr(v) && (0 <= j < v.len()
                    ==> v[j] is Int),
                None => false,
            }
        }),
{
    let e = doc@.entries[i];
    lemma_accepted_entry(path@, doc@, apart@, i);
    let k = schema::kind_of(e.section, e.key)->Some_0;
    match e.value {
        toml::ValueView::Arr(v) => {
            lemma_no_misfit(k, v, 0, j);
        },
        _ => {},
    }
}

proof fn lemma_accepted_entry(
    path: Seq<char>,
    d: toml::DocView,
    apart: Seq<Apart>,
    i: int,
)
    requires
        schema::unknown(path, d, apart) is None,
        schema::type_faults(path, d.entries, 0) is None,
        0 <= i < d.entries.len(),
    ensures
        schema::kind_of(d.entries[i].section, d.entries[i].key) matches Some(k)
            && schema::type_fault(path, d.entries[i], k) is None,
{
    lemma_known(path, d.entries, apart, 0, i);
    lemma_typed(path, d.entries, 0, i);
}

proof fn lemma_known(
    path: Seq<char>,
    es: Seq<toml::EntryView>,
    apart: Seq<Apart>,
    i: int,
    k: int,
)
    requires
        schema::key_faults(path, es, apart, i) is None,
        0 <= i <= k < es.len(),
    ensures
        schema::kind_of(es[k].section, es[k].key) is Some,
    decreases k - i,
{
    if i < k {
        lemma_known(path, es, apart, i + 1, k);
    }
}

proof fn lemma_typed(path: Seq<char>, es: Seq<toml::EntryView>, i: int, k: int)
    requires
        schema::type_faults(path, es, i) is None,
        0 <= i <= k < es.len(),
    ensures
        schema::kind_of(es[k].section, es[k].key) matches Some(t) ==> schema::type_fault(
            path,
            es[k],
            t,
        ) is None,
    decreases k - i,
{
    if i < k {
        lemma_typed(path, es, i + 1, k);
    }
}

proof fn lemma_no_misfit(t: Kind, v: Seq<toml::ItemView>, i: int, j: int)
    requires
        !(0 <= schema::misfit(t, v, i) < v.len()),
        0 <= i,
    ensures
        i <= j < v.len() ==> schema::item_fits(t, v[j]),
    decreases v.len() - i,
{
    if i < v.len() && i < j {
        lemma_no_misfit(t, v, i + 1, j);
    }
}

/// A setting exists exactly where the schema holds it, and takes the type of the
/// first that it holds under that name.
pub proof fn law_a_setting_takes_its_type(section: Seq<char>, key: Seq<char>, i: int)
    ensures
        schema::kind_of(section, key) is Some <==> exists|k: int|
            0 <= k < schema::schema().len() && (#[trigger] schema::schema()[k]).section@ == section
                && schema::schema()[k].key@ == key,
        0 <= i < schema::schema().len() && schema::schema()[i].section@ == section
            && schema::schema()[i].key@ == key && (forall|k: int|
            0 <= k < i ==> (#[trigger] schema::schema()[k]).section@ != section
                || schema::schema()[k].key@ != key) ==> schema::kind_of(section, key) == Some(
            schema::schema()[i].kind,
        ),
{
    let fs = schema::schema();
    lemma_spot(fs, section, key, 0);
    let p = schema::spot(fs, section, key, 0);
    if p < fs.len() {
        assert(fs[p].section@ == section);
    }
    if 0 <= i < fs.len() && fs[i].section@ == section && fs[i].key@ == key && (forall|k: int|
        0 <= k < i ==> (#[trigger] fs[k]).section@ != section || fs[k].key@ != key) {
        if p < i {
            assert(fs[p].section@ != section || fs[p].key@ != key);
        }
    }
}

proof fn lemma_spot(fs: Seq<schema::Field>, section: Seq<char>, key: Seq<char>, i: int)
    requires
        0 <= i <= fs.len(),
    ensures
        i <= schema::spot(fs, section, key, i) <= fs.len(),
        schema::spot(fs, section, key, i) < fs.len() ==> fs[schema::spot(
            fs,
            section,
            key,
            i,
        )].section@ == section && fs[schema::spot(fs, section, key, i)].key@ == key,
        forall|k: int|
            i <= k < schema::spot(fs, section, key, i) ==> (#[trigger] fs[k]).section@ != section
                || fs[k].key@ != key,
    decreases fs.len() - i,
{
    if i < fs.len() && !(fs[i].section@ == section && fs[i].key@ == key) {
        lemma_spot(fs, section, key, i + 1);
    }
}

// ---------------------------------------------------------------------------
// Sources and warnings

/// A value comes from the command line where that gives it, else from the
/// document where that has the setting, else from the defaults.
pub proof fn law_a_source_is_where_the_value_stands(
    c: Config,
    d: toml::DocView,
    ov: Overrides,
    f: Facts,
    i: int,
)
    requires
        config::is_config(c, d, ov, f),
        0 <= i < c.provenance@.len(),
    ensures
        ({
            let o = c.provenance@[i];
            let cli = (ov.network is Some && o.section@ == "node"@ && o.key@ == "network"@) || (
            ov.data_dir is Some && o.section@ == "node"@ && o.key@ == "data_dir"@) || (
            ov.log_level is Some && o.section@ == "log"@ && o.key@ == "level"@);
            &&& o.source == config::Source::Cli <==> cli
            &&& !cli && leaves_out(d, o.section@, o.key@) ==> o.source == config::Source::Default
            &&& o.source == config::Source::File ==> !leaves_out(d, o.section@, o.key@)
            &&& !cli && (toml::entry(d, o.section@, o.key@) matches Some(e) && schema::fits(
                config::order()[i].kind,
                e.value,
            )) ==> o.source == config::Source::File
            &&& o.section@ == config::order()[i].section@ && o.key@ == config::order()[i].key@
        }),
{
    let o = c.provenance@[i];
    law_the_first_line_counts(d, o.section@, o.key@, toml::ValueView::Bool(true));
}

/// One where `b` holds, and else none.
pub open spec fn once(b: bool) -> nat {
    if b {
        1
    } else {
        0
    }
}

proof fn lemma_false_seed(seeds: Seq<Seq<char>>, p: Seq<Seq<char>>, i: int)
    requires
        0 <= i <= seeds.len(),
    ensures
        i <= config::false_seed(seeds, p, i) <= seeds.len(),
        config::false_seed(seeds, p, i) < seeds.len() <==> exists|k: int|
            i <= k < seeds.len() && p.contains(#[trigger] seeds[k]),
    decreases seeds.len() - i,
{
    if i < seeds.len() && !p.contains(seeds[i]) {
        lemma_false_seed(seeds, p, i + 1);
        if exists|k: int| i <= k < seeds.len() && p.contains(#[trigger] seeds[k]) {
            let k = choose|k: int| i <= k < seeds.len() && p.contains(#[trigger] seeds[k]);
            assert(i + 1 <= k);
        }
    } else if i < seeds.len() {
        assert(p.contains(seeds[i]));
    }
}

/// How many of the keys are placeholders.
pub open spec fn placeholders(facts: Seq<keys::KeyFact>, v: Seq<Seq<u8>>) -> nat
    decreases v.len(),
{
    if v.len() == 0 {
        0
    } else {
        placeholders(facts, v.drop_last()) + (if keys::role(facts, v.last()) is Some {
            1nat
        } else {
            0
        })
    }
}

proof fn lemma_key_warnings(facts: Seq<keys::KeyFact>, v: Seq<Seq<u8>>)
    ensures
        config::key_warnings(facts, v).len() == placeholders(facts, v),
    decreases v.len(),
{
    if v.len() > 0 {
        lemma_key_warnings(facts, v.drop_last());
    }
}

/// A node is warned once, and of nothing else, of an index of addresses on a pruned
/// node, of one of transactions, of having no seeds, and of a seed that is a
/// placeholder.
pub proof fn law_a_node_is_warned_of_each_cause(c: Config, f: Facts)
    ensures
        config::front_warnings(c, f).len() == once(c.addrindex && c.prune) + once(
            c.txindex && c.prune,
        ) + once(!c.use_embedded_seeds && c.seeds@.len() == 0) + once(
            exists|k: int|
                0 <= k < settings::strings(c.seeds@).len() && settings::strings(
                    f.placeholder_seeds@,
                ).contains(#[trigger] settings::strings(c.seeds@)[k]),
        ),
{
    lemma_false_seed(settings::strings(c.seeds@), settings::strings(f.placeholder_seeds@), 0);
}

/// A stratum server is warned once, and of nothing else, of many connections, of a
/// fixed difficulty that is not used, and of no enforcement.
pub proof fn law_a_stratum_server_is_warned_of_each_cause(p: policy::Stratum, nofile: u64)
    ensures
        config::stratum_warnings(p, nofile).len() == once(p.max_connections > 1024) + once(
            p.vardiff_enabled && p.tops.fixed_diff != 0,
        ) + once(!p.enforcement),
{
}

/// The rest is warned of once, and of nothing else: an RPC listener for others, a
/// note, no checkpoints, each placeholder among the keys, and notes that are not
/// shown.
pub proof fn law_the_rest_is_warned_of_each_cause(c: Config, f: Facts)
    ensures
        config::back_warnings(c, f).len() == once(!c.rpc_listen.loopback) + once(
            c.author_note@.len() > 0,
        ) + once(c.checkpoints@ is Disabled) + placeholders(
            f.keys@,
            keys::keys_in_force(c.checkpoints@),
        ) + once(keys::role(f.keys@, c.author_pubkey@) is Some) + once(!c.author_show_in_log),
{
    lemma_key_warnings(f.keys@, keys::keys_in_force(c.checkpoints@));
}

/// A configuration is warned of what its node, its stratum server and the rest are
/// warned of, in that order.
pub proof fn law_warnings_are_those_of_the_parts(
    path: &str,
    doc: &Document,
    overrides: &Overrides,
    facts: &Facts,
    c: Config,
)
    requires
        call_ensures(load, (path, doc, overrides, facts), Ok(c)),
    ensures
        c.warnings@.len() == config::front_warnings(c, *facts).len() + config::stratum_warnings(
            c.stratum,
            facts.limit_nofile,
        ).len() + config::back_warnings(c, *facts).len(),
{
    assert(settings::strings(c.warnings@).len() == c.warnings@.len());
}

} // verus!
