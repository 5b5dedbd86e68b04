//! The configuration of a node: what a document, the command line and the
//! build make of it.

use vstd::prelude::*;
use crate::node::keys;
use crate::node::keys::{
    bare_of, decode_key, fingerprint_of, is_valid_pubkey, placeholder_role, same_key,
    CheckpointPolicy, KeyFact, KeySource,
};
use crate::node::names::Apart;
use crate::node::policy;
use crate::node::policy::{read_stratum, Reader, Stratum};
use crate::node::schema;
use crate::node::schema::{check_types, check_unknown, strangers, Field, Kind};
use crate::node::settings;
use crate::node::settings::{read_bool, read_str, read_strings, Range, MAX_PEERS};
use crate::node::toml;
use crate::node::toml::{count, Diagnostic, Document, Value};
use crate::text;
use crate::text::{find, push_dec, same, to_chars, to_lower, trim};

verus! {

pub const PORT_P2P: u16 = 9256;

pub const PORT_RPC: u16 = 9257;

pub const PORT_STRATUM: u16 = 9258;

/// The longest note that a miner can put into a block.
pub const AUTHOR_NOTE_MAX_BYTES: usize = 256;

/// How many block bodies a pruning node keeps.
pub const BLOCKS_PER_YEAR: u64 = 525_960;

/// Which chain a node follows.
#[derive(Clone, Copy, Debug, PartialEq, Eq, Structural)]
pub enum Network {
    Main,
}

impl Network {
    /// The name of the network.
    pub fn as_str(self) -> (r: &'static str)
        ensures
            r@ == "main"@,
    {
        "main"
    }
}

/// How much a node says.
#[derive(Clone, Copy, Debug, PartialEq, Eq, PartialOrd, Ord, Structural)]
pub enum LogLevel {
    Error,
    Warn,
    Info,
    Debug,
    Trace,
}

/// The level that a text names, whatever the case of its letters.
pub open spec fn level_of(s: Seq<char>) -> Option<LogLevel> {
    let t = text::lower(s);
    if t == "error"@ {
        Some(LogLevel::Error)
    } else if t == "warn"@ || t == "warning"@ {
        Some(LogLevel::Warn)
    } else if t == "info"@ {
        Some(LogLevel::Info)
    } else if t == "debug"@ {
        Some(LogLevel::Debug)
    } else if t == "trace"@ {
        Some(LogLevel::Trace)
    } else {
        None
    }
}

pub open spec fn level_label(l: LogLevel) -> Seq<char> {
    match l {
        LogLevel::Error => "ERROR"@,
        LogLevel::Warn => "WARN "@,
        LogLevel::Info => "INFO "@,
        LogLevel::Debug => "DEBUG"@,
        LogLevel::Trace => "TRACE"@,
    }
}

pub open spec fn level_name(l: LogLevel) -> Seq<char> {
    match l {
        LogLevel::Error => "ERROR"@,
        LogLevel::Warn => "WARN"@,
        LogLevel::Info => "INFO"@,
        LogLevel::Debug => "DEBUG"@,
        LogLevel::Trace => "TRACE"@,
    }
}

impl LogLevel {
    /// The level that a text names.
    pub fn parse(s: &str) -> (r: Option<LogLevel>)
        ensures
            r == level_of(s@),
    {
        let v = to_lower(to_chars(s).as_slice());
        let t = text::string_of(v.as_slice());
        let t = t.as_str();
        if same(t, "error") {
            Some(LogLevel::Error)
        } else if same(t, "warn") || same(t, "warning") {
            Some(LogLevel::Warn)
        } else if same(t, "info") {
            Some(LogLevel::Info)
        } else if same(t, "debug") {
            Some(LogLevel::Debug)
        } else if same(t, "trace") {
            Some(LogLevel::Trace)
        } else {
            None
        }
    }

    /// The level as a line of the log shows it: five characters wide.
    pub fn label(self) -> (r: &'static str)
        ensures
            r@ == level_label(self),
            r@.len() == 5,
    {
        proof {
            reveal_strlit("ERROR");
            reveal_strlit("WARN ");
            reveal_strlit("INFO ");
            reveal_strlit("DEBUG");
            reveal_strlit("TRACE");
        }
        match self {
            LogLevel::Error => "ERROR",
            LogLevel::Warn => "WARN ",
            LogLevel::Info => "INFO ",
            LogLevel::Debug => "DEBUG",
            LogLevel::Trace => "TRACE",
        }
    }

    /// The name of the level.
    pub fn as_str(self) -> (r: &'static str)
        ensures
            r@ == level_name(self),
    {
        match self {
            LogLevel::Error => "ERROR",
            LogLevel::Warn => "WARN",
            LogLevel::Info => "INFO",
            LogLevel::Debug => "DEBUG",
            LogLevel::Trace => "TRACE",
        }
    }
}

/// The name of a level, read back, is the level; and so is its label without
/// the blanks at the end.
pub proof fn law_a_level_reads_back(l: LogLevel)
    ensures
        level_of(level_name(l)) == Some(l),
        text::trim_end(level_label(l)) == level_name(l),
{
    reveal_strlit("ERROR");
    reveal_strlit("WARN");
    reveal_strlit("INFO");
    reveal_strlit("WARN ");
    reveal_strlit("INFO ");
    reveal_strlit("DEBUG");
    reveal_strlit("TRACE");
    reveal_strlit("error");
    reveal_strlit("warn");
    reveal_strlit("warning");
    reveal_strlit("info");
    reveal_strlit("debug");
    reveal_strlit("trace");
    let t = text::lower(level_name(l));
    match l {
        LogLevel::Error => {
            assert(t =~= "error"@);
        },
        LogLevel::Warn => {
            assert(t[0] == 'w');
            assert("error"@[0] == 'e');
            assert(t =~= "warn"@);
            assert("WARN "@.drop_last() =~= "WARN"@);
        },
        LogLevel::Info => {
            assert(t[0] == 'i');
            assert("error"@[0] == 'e');
            assert("warn"@[0] == 'w');
            assert("warning"@[0] == 'w');
            assert(t =~= "info"@);
            assert("INFO "@.drop_last() =~= "INFO"@);
        },
        LogLevel::Debug => {
            assert(t[0] == 'd');
            assert("error"@[0] == 'e');
            assert("warn"@[0] == 'w');
            assert("warning"@[0] == 'w');
            assert("info"@[0] == 'i');
            assert(t =~= "debug"@);
        },
        LogLevel::Trace => {
            assert(t[0] == 't');
            assert("error"@[0] == 'e');
            assert("warn"@[0] == 'w');
            assert("warning"@[0] == 'w');
            assert("info"@[0] == 'i');
            assert("debug"@[0] == 'd');
            assert(t =~= "trace"@);
        },
    }
    reveal_with_fuel(text::trim_end, 3);
}

/// Where the value of a setting came from.
#[derive(Clone, Copy, Debug, PartialEq, Eq, Structural)]
pub enum Source {
    Default,
    File,
    Cli,
}

pub open spec fn source_label(s: Source) -> Seq<char> {
    match s {
        Source::Default => "default"@,
        Source::File => "file"@,
        Source::Cli => "cli"@,
    }
}

impl Source {
    pub fn label(self) -> (r: &'static str)
        ensures
            r@ == source_label(self),
    {
        match self {
            Source::Default => "default",
            Source::File => "file",
            Source::Cli => "cli",
        }
    }
}

// ---------------------------------------------------------------------------
// What the document leaves to others

/// An address to listen on.
#[derive(Clone, Debug, PartialEq, Eq)]
pub struct Addr {
    pub text: String,
    pub port: u16,
    pub loopback: bool,
}

/// What the build fixes, and what only the outside can say of a document: how
/// its addresses and paths read on this machine, and which of its keys and
/// seeds are real.
#[derive(Clone, Debug)]
pub struct Facts {
    pub limit_nofile: u64,
    pub max_mempool_txs: u32,
    pub sunset_height: u64,
    pub seeds: Vec<String>,
    pub placeholder_seeds: Vec<String>,
    pub checkpoint_key: [u8; 32],
    pub checkpoint_placeholder: bool,
    pub author_key: [u8; 32],
    pub author_placeholder: bool,
    pub keys: Vec<KeyFact>,
    /// How far the document's unknown names are from the known ones.
    pub apart: Vec<Apart>,
    pub default_dir: String,
    /// The document's data directory, with the user's home put in.
    pub expanded_dir: String,
    pub p2p: Option<Addr>,
    pub stratum: Option<Addr>,
    pub rpc: Option<Addr>,
    /// Why the RPC listener would not be safe, if it would not be.
    pub bind_complaint: Option<String>,
}

/// What the command line asks for.
#[derive(Clone, Debug)]
pub struct Overrides {
    pub network: Option<Network>,
    pub data_dir: Option<String>,
    pub log_level: Option<LogLevel>,
}

impl Default for Overrides {
    fn default() -> (o: Overrides)
        ensures
            o.network is None,
            o.data_dir is None,
            o.log_level is None,
    {
        Overrides { network: None, data_dir: None, log_level: None }
    }
}

/// The configuration in force.
#[derive(Clone, Debug)]
pub struct Config {
    pub network: Network,
    pub data_dir: String,
    pub prune: bool,
    pub txindex: bool,
    pub addrindex: bool,
    pub verify_frames: bool,
    pub p2p_listen: Addr,
    pub max_peers: u64,
    pub seeds: Vec<String>,
    pub use_embedded_seeds: bool,
    pub accept_local_addrs: bool,
    pub stratum_listen: Addr,
    pub stratum: Stratum,
    pub rpc_listen: Addr,
    pub rpc_token: Option<String>,
    pub relay_fee_mile: u64,
    pub mempool_max_txs: u64,
    pub author_note: Vec<u8>,
    pub checkpoints: CheckpointPolicy,
    pub checkpoint_threshold: u64,
    pub author_pubkey: [u8; 32],
    pub author_key_source: KeySource,
    pub author_key_placeholder: bool,
    pub author_show_in_log: bool,
    pub log_level: LogLevel,
    pub provenance: Vec<Origin>,
    pub warnings: Vec<String>,
}

/// Where the value of one setting came from.
#[derive(Clone, Copy, Debug)]
pub struct Origin {
    pub section: &'static str,
    pub key: &'static str,
    pub source: Source,
}

pub open spec fn text_in(d: toml::DocView, section: Seq<char>, key: Seq<char>, default: Seq<char>)
    -> Seq<char> {
    settings::or_else(settings::str_at(d, section, key), default)
}

pub open spec fn flag_in(d: toml::DocView, section: Seq<char>, key: Seq<char>, default: bool) -> bool {
    settings::or_else(settings::bool_at(d, section, key), default)
}

/// The texts of an array. A document without it has none.
pub open spec fn texts_in(d: toml::DocView, section: Seq<char>, key: Seq<char>) -> Seq<Seq<char>> {
    match settings::items_at(d, section, key) {
        Some(v) => settings::texts_of(v),
        None => Seq::empty(),
    }
}

// ---------------------------------------------------------------------------
// Faults

pub const NO_PORT_HELP: &'static str =
    "the port is missing. Write it as `address:port`, for example \"0.0.0.0:9256\".";

pub const NO_ADDRESS_HELP: &'static str =
    "an address is `host:port`, for example \"127.0.0.1:9257\" or \"[::1]:9257\". A hostname is not accepted here: this is a bind address, not a destination.";

pub const NOTE_LENGTH_HELP: &'static str = "SPEC 8 caps the coinbase note at 256 bytes. Shorten it.";

pub const NOTE_LENGTH_NOTE: &'static str =
    "the limit is on bytes, not characters: non-ASCII text costs 2-4 each.";

pub const EMPTY_KEY_HELP: &'static str =
    "an empty entry is not a way to switch the layer off, and it is not a key either. Say which you meant:\n\n  - use the official embedded key (the normal case):  keys = []   (or delete the line)\n  - switch the checkpoint layer off completely:       enabled = false\n  - use your own key(s):                              keys = [\"<64 hex chars>\"]";

pub const EMPTY_KEY_NOTE: &'static str =
    "no value of `keys` can disable the layer. Emptying a list is what people do to turn something off, so here it lands on the embedded key instead.";

pub const OPPOSITE_HELP: &'static str =
    "delete the `keys` line to turn the layer off, or set `enabled = true` to use the keys you listed.";

pub const KEY_LENGTH_HELP: &'static str =
    "this is the public half of the authority key, published by whoever operates it. There is no private key anywhere in a node.";

pub const NO_POINT_HELP: &'static str =
    "the 64 characters decoded fine but are not a point on the curve - a transcription error.";

pub const NO_POINT_NOTE: &'static str =
    "checked at startup: a wrong key would otherwise fail to verify every checkpoint silently, and you would believe you were protected.";

pub const THRESHOLD_HELP: &'static str =
    "a threshold above the number of keys can never be met, so no checkpoint would ever verify and the layer would be off without saying so.";

pub const AUTHOR_LENGTH_HELP: &'static str =
    "leave it empty to use the key embedded in this binary.";

pub const AUTHOR_POINT_NOTE: &'static str =
    "a wrong author key does not endanger consensus, but it would make every genuine announcement invisible to you.";

pub open spec fn fault_at(
    s: settings::Sheet,
    section: Seq<char>,
    key: Seq<char>,
    m: Seq<char>,
) -> toml::Fault {
    toml::at(s.path, s.doc, section, key, m)
}

pub open spec fn network_fault(s: settings::Sheet) -> Option<toml::Fault> {
    let t = text_in(s.doc, "node"@, "network"@, "main"@);
    if t == "main"@ {
        None
    } else {
        Some(
            fault_at(s, "node"@, "network"@, "`"@ + t + "` is not a network"@).helped(
                "the only network is \"main\""@,
            ),
        )
    }
}

/// What is wrong with an address to listen on, which reads as `a`.
pub open spec fn listen_fault(
    s: settings::Sheet,
    section: Seq<char>,
    default: Seq<char>,
    a: Option<Addr>,
) -> Option<toml::Fault> {
    let t = text_in(s.doc, section, "listen"@, default);
    if a is Some {
        None
    } else {
        Some(
            fault_at(s, section, "listen"@, "`"@ + t + "` is not an address to listen on"@).helped(
                if text::has(t, ':') {
                    NO_ADDRESS_HELP@
                } else {
                    NO_PORT_HELP@
                },
            ),
        )
    }
}

pub open spec fn bind_fault(s: settings::Sheet, complaint: Option<String>) -> Option<toml::Fault> {
    match complaint {
        Some(c) => Some(
            fault_at(
                s,
                "rpc"@,
                "listen"@,
                "the RPC listener is not safe as configured"@,
            ).helped(c@),
        ),
        None => None,
    }
}

pub open spec fn note_in(d: toml::DocView) -> Seq<u8> {
    vstd::utf8::encode_utf8(text_in(d, "mining"@, "author_note"@, ""@))
}

pub open spec fn note_fault(s: settings::Sheet) -> Option<toml::Fault> {
    let n = note_in(s.doc).len();
    if n <= AUTHOR_NOTE_MAX_BYTES {
        None
    } else {
        Some(
            fault_at(
                s,
                "mining"@,
                "author_note"@,
                "author_note is "@ + text::dec(n) + " bytes; the consensus limit is 256"@,
            ).helped(NOTE_LENGTH_HELP@).noted(NOTE_LENGTH_NOTE@),
        )
    }
}

pub open spec fn checkpoints_on(d: toml::DocView) -> bool {
    flag_in(d, "checkpoints"@, "enabled"@, true)
}

pub open spec fn key_texts(d: toml::DocView) -> Seq<Seq<char>> {
    texts_in(d, "checkpoints"@, "keys"@)
}

pub open spec fn blank(s: Seq<char>) -> bool {
    text::trimmed(s).len() == 0
}

pub open spec fn any_blank(v: Seq<Seq<char>>) -> bool {
    exists|k: int| 0 <= k < v.len() && blank(#[trigger] v[k])
}

/// The number of a key in its list.
pub open spec fn numbered(i: int, rest: Seq<char>) -> Seq<char> {
    "checkpoints.keys["@ + text::dec(i as nat) + rest
}

/// What is wrong with the key at `i`, where the ones before it are sound.
pub open spec fn key_fault(
    s: settings::Sheet,
    facts: Seq<KeyFact>,
    v: Seq<Seq<char>>,
    i: int,
) -> Option<toml::Fault> {
    let n = keys::bare(v[i]).len();
    if n != 64 {
        Some(
            fault_at(
                s,
                "checkpoints"@,
                "keys"@,
                "checkpoints.keys["@ + text::dec(i as nat) + "] is "@ + text::dec(n)
                    + " characters; an ed25519 public key is 64 hex characters"@,
            ).helped(KEY_LENGTH_HELP@),
        )
    } else {
        match keys::key_of(v[i]) {
            None => Some(
                fault_at(s, "checkpoints"@, "keys"@, numbered(i, "] is not valid hexadecimal"@)),
            ),
            Some(k) => if !keys::is_valid(facts, k) {
                Some(
                    fault_at(
                        s,
                        "checkpoints"@,
                        "keys"@,
                        numbered(i, "] is not a valid ed25519 public key"@),
                    ).helped(NO_POINT_HELP@).noted(NO_POINT_NOTE@),
                )
            } else if listed_before(v, i) {
                Some(fault_at(s, "checkpoints"@, "keys"@, numbered(i, "] is listed twice"@)))
            } else {
                None
            },
        }
    }
}

/// Whether the key at `i` stands in the list before.
pub open spec fn listed_before(v: Seq<Seq<char>>, i: int) -> bool {
    exists|j: int| 0 <= j < i && #[trigger] keys::key_of(v[j]) == keys::key_of(v[i])
}

/// What is wrong with the keys from `i` on.
pub open spec fn keys_fault(
    s: settings::Sheet,
    facts: Seq<KeyFact>,
    v: Seq<Seq<char>>,
    i: int,
) -> Option<toml::Fault>
    decreases v.len() - i,
{
    if i < 0 || i >= v.len() {
        None
    } else {
        schema::or(key_fault(s, facts, v, i), keys_fault(s, facts, v, i + 1))
    }
}

/// The keys that the texts denote.
pub open spec fn decoded(v: Seq<Seq<char>>) -> Seq<Seq<u8>> {
    Seq::new(v.len(), |k: int| keys::key_of(v[k])->Some_0)
}

/// Which keys the document puts in force.
pub open spec fn policy_in(d: toml::DocView, facts: Facts) -> keys::PolicyView {
    if !checkpoints_on(d) {
        keys::PolicyView::Disabled
    } else if key_texts(d).len() == 0 {
        keys::PolicyView::Embedded {
            key: facts.checkpoint_key@,
            placeholder: facts.checkpoint_placeholder,
        }
    } else {
        keys::PolicyView::Configured { keys: decoded(key_texts(d)) }
    }
}

pub open spec fn threshold_fault(s: settings::Sheet, facts: Facts) -> Option<toml::Fault> {
    let n = settings::threshold().value(s.doc);
    let have = keys::keys_in_force(policy_in(s.doc, facts)).len();
    if checkpoints_on(s.doc) && n > have {
        Some(
            fault_at(
                s,
                "checkpoints"@,
                "threshold"@,
                "threshold is "@ + text::dec(n as nat) + " but only "@ + text::dec(have)
                    + " key(s) are configured"@,
            ).helped(THRESHOLD_HELP@),
        )
    } else {
        None
    }
}

/// What is wrong with the checkpoint settings, in the order in which it is
/// looked for.
pub open spec fn checkpoints_fault(s: settings::Sheet, facts: Facts) -> Option<toml::Fault> {
    let v = key_texts(s.doc);
    if any_blank(v) {
        Some(
            fault_at(
                s,
                "checkpoints"@,
                "keys"@,
                "`checkpoints.keys` contains an empty string"@,
            ).helped(EMPTY_KEY_HELP@).noted(EMPTY_KEY_NOTE@),
        )
    } else if !checkpoints_on(s.doc) && v.len() > 0 {
        Some(
            fault_at(
                s,
                "checkpoints"@,
                "enabled"@,
                "`checkpoints.enabled = false` with keys listed says two opposite things"@,
            ).helped(OPPOSITE_HELP@),
        )
    } else {
        schema::or(
            schema::or(keys_fault(s, facts.keys@, v, 0), settings::threshold().fault(s)),
            threshold_fault(s, facts),
        )
    }
}

pub open spec fn author_text(d: toml::DocView) -> Seq<char> {
    text_in(d, "author"@, "pubkey"@, ""@)
}

/// The author's key in force.
pub open spec fn author_key(d: toml::DocView, facts: Facts) -> Seq<u8> {
    if blank(author_text(d)) {
        facts.author_key@
    } else {
        keys::key_of(author_text(d))->Some_0
    }
}

pub open spec fn author_fault(s: settings::Sheet, facts: Seq<KeyFact>) -> Option<toml::Fault> {
    let t = author_text(s.doc);
    let n = keys::bare(t).len();
    if blank(t) {
        None
    } else if n != 64 {
        Some(
            fault_at(
                s,
                "author"@,
                "pubkey"@,
                "author.pubkey is "@ + text::dec(n)
                    + " characters; an ed25519 public key is 64 hex characters"@,
            ).helped(AUTHOR_LENGTH_HELP@),
        )
    } else {
        match keys::key_of(t) {
            None => Some(
                fault_at(s, "author"@, "pubkey"@, "author.pubkey is not valid hexadecimal"@),
            ),
            Some(k) => if keys::is_valid(facts, k) {
                None
            } else {
                Some(
                    fault_at(
                        s,
                        "author"@,
                        "pubkey"@,
                        "author.pubkey is not a valid ed25519 public key"@,
                    ).helped(NO_POINT_HELP@).noted(AUTHOR_POINT_NOTE@),
                )
            },
        }
    }
}

pub open spec fn level_fault(s: settings::Sheet) -> Option<toml::Fault> {
    let t = text_in(s.doc, "log"@, "level"@, "info"@);
    if level_of(t) is Some {
        None
    } else {
        Some(
            fault_at(s, "log"@, "level"@, "`"@ + t + "` is not a log level"@).helped(
                "levels are: error, warn, info, debug, trace"@,
            ),
        )
    }
}

/// The faults of the node's own settings and of its listeners.
pub open spec fn front_fault(s: settings::Sheet, f: Facts) -> Option<toml::Fault> {
    schema::or(
        schema::or(
            schema::or(
                schema::or(network_fault(s), listen_fault(s, "p2p"@, "0.0.0.0:9256"@, f.p2p)),
                settings::max_peers().fault(s),
            ),
            listen_fault(s, "stratum"@, "127.0.0.1:9258"@, f.stratum),
        ),
        policy::stratum_fault(s),
    )
}

/// The faults of the settings behind those of the stratum server.
pub open spec fn back_fault(s: settings::Sheet, f: Facts) -> Option<toml::Fault> {
    schema::or(
        schema::or(
            schema::or(
                schema::or(
                    schema::or(
                        schema::or(
                            schema::or(
                                listen_fault(s, "rpc"@, "127.0.0.1:9257"@, f.rpc),
                                bind_fault(s, f.bind_complaint),
                            ),
                            settings::relay_fee_mile().fault(s),
                        ),
                        settings::max_txs(f.max_mempool_txs as i64).fault(s),
                    ),
                    note_fault(s),
                ),
                checkpoints_fault(s, f),
            ),
            author_fault(s, f.keys@),
        ),
        level_fault(s),
    )
}

/// What is wrong with a document whose settings exist and have the right
/// types: the first fault.
pub open spec fn config_fault(s: settings::Sheet, f: Facts) -> Option<toml::Fault> {
    schema::or(front_fault(s, f), back_fault(s, f))
}

// ---------------------------------------------------------------------------
// Reading

fn check_network(r: &Reader) -> (x: Result<(), Diagnostic>)
    ensures
        x is Ok <==> network_fault(r.sheet()) is None,
        x matches Err(d) ==> network_fault(r.sheet()) == Some(d@),
{
    let t = read_str(r.doc, "node", "network", "main");
    if same(t.as_str(), "main") {
        return Ok(());
    }
    let mut m = "`".to_owned();
    m.append(t.as_str());
    m.append("` is not a network");
    Err(r.at("node", "network", m).with_help("the only network is \"main\""))
}

pub open spec fn same_addr(a: Addr, b: Addr) -> bool {
    a.text@ == b.text@ && a.port == b.port && a.loopback == b.loopback
}

fn read_listen(r: &Reader, section: &str, default: &str, a: &Option<Addr>) -> (x: Result<
    Addr,
    Diagnostic,
>)
    ensures
        x is Ok <==> listen_fault(r.sheet(), section@, default@, *a) is None,
        x matches Ok(b) ==> *a is Some && same_addr(b, a->Some_0),
        x matches Err(d) ==> listen_fault(r.sheet(), section@, default@, *a) == Some(d@),
{
    match a {
        Some(b) => Ok(
            Addr { text: b.text.as_str().to_owned(), port: b.port, loopback: b.loopback },
        ),
        None => {
            let t = read_str(r.doc, section, "listen", default);
            let v = to_chars(t.as_str());
            let mut m = "`".to_owned();
            m.append(t.as_str());
            m.append("` is not an address to listen on");
            let d = r.at(section, "listen", m);
            let k: usize = find(v.as_slice(), ':', 0);
            proof {
                text::lemma_index(v@, ':', 0);
            }
            Err(
                d.with_help(
                    if k < v.len() {
                        NO_ADDRESS_HELP
                    } else {
                        NO_PORT_HELP
                    },
                ),
            )
        },
    }
}

fn check_bind(r: &Reader, complaint: &Option<String>) -> (x: Result<(), Diagnostic>)
    ensures
        x is Ok <==> bind_fault(r.sheet(), *complaint) is None,
        x matches Err(d) ==> bind_fault(r.sheet(), *complaint) == Some(d@),
{
    match complaint {
        Some(c) => Err(
            r.at(
                "rpc",
                "listen",
                "the RPC listener is not safe as configured".to_owned(),
            ).with_help(c.as_str()),
        ),
        None => Ok(()),
    }
}

fn read_note(r: &Reader) -> (x: Result<Vec<u8>, Diagnostic>)
    ensures
        x is Ok <==> note_fault(r.sheet()) is None,
        x matches Ok(v) ==> v@ == note_in(r.doc@),
        x matches Err(d) ==> note_fault(r.sheet()) == Some(d@),
{
    let t = read_str(r.doc, "mining", "author_note", "");
    let b: &[u8] = t.as_str().as_bytes();
    if b.len() > AUTHOR_NOTE_MAX_BYTES {
        let mut m = "author_note is ".to_owned();
        push_dec(&mut m, b.len() as u64);
        m.append(" bytes; the consensus limit is 256");
        let d = r.at("mining", "author_note", m);
        return Err(d.with_help(NOTE_LENGTH_HELP).with_note(NOTE_LENGTH_NOTE));
    }
    let mut v: Vec<u8> = Vec::new();
    let mut i: usize = 0;
    while i < b.len()
        invariant
            i <= b.len(),
            v@ == b@.take(i as int),
        decreases b.len() - i,
    {
        v.push(b[i]);
        i += 1;
        assert(b@.take(i as int) =~= b@.take(i - 1).push(b@[i - 1]));
    }
    assert(v@ =~= b@);
    Ok(v)
}

fn is_blank(s: &str) -> (r: bool)
    ensures
        r == blank(s@),
{
    trim(to_chars(s).as_slice()).len() == 0
}

fn has_blank(v: &[String]) -> (r: bool)
    ensures
        r == any_blank(settings::strings(v@)),
{
    let ghost all = settings::strings(v@);
    let mut i: usize = 0;
    while i < v.len()
        invariant
            i <= v.len(),
            all == settings::strings(v@),
            forall|k: int| 0 <= k < i ==> !blank(#[trigger] all[k]),
        decreases v.len() - i,
    {
        if is_blank(v[i].as_str()) {
            assert(blank(all[i as int]));
            return true;
        }
        i += 1;
    }
    false
}

fn number_key(i: usize, rest: &str) -> (m: String)
    ensures
        m@ == numbered(i as int, rest@),
{
    let mut m = "checkpoints.keys[".to_owned();
    push_dec(&mut m, i as u64);
    m.append(rest);
    m
}

/// The keys before the `i`th are sound, and are `sofar`.
pub open spec fn sound(v: Seq<Seq<char>>, i: int, sofar: Seq<[u8; 32]>) -> bool {
    &&& sofar.len() == i
    &&& forall|j: int|
        0 <= j < i ==> #[trigger] keys::key_of(v[j]) == Some(sofar[j]@)
}

fn read_key(r: &Reader, facts: &[KeyFact], v: &[String], i: usize, sofar: &Vec<[u8; 32]>) -> (x:
    Result<[u8; 32], Diagnostic>)
    requires
        i < v.len(),
        sound(settings::strings(v@), i as int, sofar@),
    ensures
        x is Ok <==> key_fault(r.sheet(), facts@, settings::strings(v@), i as int) is None,
        x matches Ok(k) ==> keys::key_of(settings::strings(v@)[i as int]) == Some(k@),
        x matches Err(d) ==> key_fault(r.sheet(), facts@, settings::strings(v@), i as int) == Some(
            d@,
        ),
{
    let ghost all = settings::strings(v@);
    let t = v[i].as_str();
    assert(all[i as int] == t@);
    let n: usize = count(bare_of(t).as_str());
    if n != 64 {
        let mut m = "checkpoints.keys[".to_owned();
        push_dec(&mut m, i as u64);
        m.append("] is ");
        push_dec(&mut m, n as u64);
        m.append(" characters; an ed25519 public key is 64 hex characters");
        return Err(r.at("checkpoints", "keys", m).with_help(KEY_LENGTH_HELP));
    }
    let key: [u8; 32] = match decode_key(t) {
        Some(k) => k,
        None => {
            return Err(
                r.at("checkpoints", "keys", number_key(i, "] is not valid hexadecimal")),
            );
        },
    };
    if !is_valid_pubkey(facts, &key) {
        let d = r.at("checkpoints", "keys", number_key(i, "] is not a valid ed25519 public key"));
        return Err(d.with_help(NO_POINT_HELP).with_note(NO_POINT_NOTE));
    }
    let mut j: usize = 0;
    while j < sofar.len()
        invariant
            j <= sofar.len(),
            i < v.len(),
            all == settings::strings(v@),
            sound(all, i as int, sofar@),
            keys::bare(all[i as int]).len() == 64,
            keys::key_of(all[i as int]) == Some(key@),
            keys::is_valid(facts@, key@),
            forall|k: int|
                0 <= k < j ==> #[trigger] keys::key_of(all[k]) != keys::key_of(all[i as int]),
        decreases sofar.len() - j,
    {
        assert(keys::key_of(all[j as int]) == Some(sofar@[j as int]@));
        if same_key(&sofar[j], &key) {
            assert(listed_before(all, i as int));
            return Err(r.at("checkpoints", "keys", number_key(i, "] is listed twice")));
        }
        j += 1;
    }
    assert(!listed_before(all, i as int));
    Ok(key)
}

fn read_keys(r: &Reader, facts: &[KeyFact], v: &[String]) -> (x: Result<Vec<[u8; 32]>, Diagnostic>)
    ensures
        x is Ok <==> keys_fault(r.sheet(), facts@, settings::strings(v@), 0) is None,
        x matches Ok(k) ==> keys::key_views(k@) == decoded(settings::strings(v@)),
        x matches Err(d) ==> keys_fault(r.sheet(), facts@, settings::strings(v@), 0) == Some(d@),
{
    let ghost all = settings::strings(v@);
    let ghost s = r.sheet();
    let mut keys: Vec<[u8; 32]> = Vec::new();
    let mut i: usize = 0;
    while i < v.len()
        invariant
            i <= v.len(),
            all == settings::strings(v@),
            s == r.sheet(),
            sound(all, i as int, keys@),
            keys_fault(s, facts@, all, 0) == keys_fault(s, facts@, all, i as int),
        decreases v.len() - i,
    {
        match read_key(r, facts, v, i, &keys) {
            Ok(k) => {
                keys.push(k);
            },
            Err(d) => {
                return Err(d);
            },
        }
        i += 1;
    }
    assert forall|j: int| 0 <= j < all.len() implies #[trigger] keys::key_views(keys@)[j]
        == decoded(all)[j] by {
        assert(keys::key_of(all[j]) == Some(keys@[j]@));
    }
    assert(keys::key_views(keys@) =~= decoded(all));
    Ok(keys)
}

fn check_threshold(r: &Reader, facts: &Facts, n: i64, p: &CheckpointPolicy) -> (x: Result<
    (),
    Diagnostic,
>)
    requires
        n == settings::threshold().value(r.doc@),
        n >= 1,
        p@ == policy_in(r.doc@, *facts),
    ensures
        x is Ok <==> threshold_fault(r.sheet(), *facts) is None,
        x matches Err(d) ==> threshold_fault(r.sheet(), *facts) == Some(d@),
{
    let have: u64 = p.keys().len() as u64;
    if p.is_enabled() && n as u64 > have {
        let mut m = "threshold is ".to_owned();
        push_dec(&mut m, n as u64);
        m.append(" but only ");
        push_dec(&mut m, have);
        m.append(" key(s) are configured");
        return Err(r.at("checkpoints", "threshold", m).with_help(THRESHOLD_HELP));
    }
    Ok(())
}

fn read_checkpoints(r: &Reader, facts: &Facts) -> (x: Result<(CheckpointPolicy, u64), Diagnostic>)
    ensures
        x is Ok <==> checkpoints_fault(r.sheet(), *facts) is None,
        x matches Ok(p) ==> p.0@ == policy_in(r.doc@, *facts) && p.1
            == settings::threshold().value(r.doc@),
        x matches Err(d) ==> checkpoints_fault(r.sheet(), *facts) == Some(d@),
{
    let on: bool = read_bool(r.doc, "checkpoints", "enabled", true);
    let texts: Vec<String> = match read_strings(r.doc, "checkpoints", "keys") {
        Some(v) => v,
        None => Vec::new(),
    };
    assert(settings::strings(texts@) =~= key_texts(r.doc@));
    if has_blank(texts.as_slice()) {
        let d = r.at(
            "checkpoints",
            "keys",
            "`checkpoints.keys` contains an empty string".to_owned(),
        );
        return Err(d.with_help(EMPTY_KEY_HELP).with_note(EMPTY_KEY_NOTE));
    }
    if !on && texts.len() > 0 {
        let d = r.at(
            "checkpoints",
            "enabled",
            "`checkpoints.enabled = false` with keys listed says two opposite things".to_owned(),
        );
        return Err(d.with_help(OPPOSITE_HELP));
    }
    let keys = match read_keys(r, facts.keys.as_slice(), texts.as_slice()) {
        Ok(v) => v,
        Err(d) => {
            return Err(d);
        },
    };
    let p = if !on {
        CheckpointPolicy::Disabled
    } else if keys.len() == 0 {
        CheckpointPolicy::Embedded {
            key: facts.checkpoint_key,
            placeholder: facts.checkpoint_placeholder,
        }
    } else {
        CheckpointPolicy::Configured { keys }
    };
    assert(decoded(key_texts(r.doc@)).len() == key_texts(r.doc@).len());
    let n: i64 = match r.number(
        Range { section: "checkpoints", key: "threshold", default: 1, lo: 1, hi: i64::MAX },
    ) {
        Ok(v) => v,
        Err(d) => {
            return Err(d);
        },
    };
    match check_threshold(r, facts, n, &p) {
        Ok(()) => Ok((p, n as u64)),
        Err(d) => Err(d),
    }
}

fn read_author(r: &Reader, facts: &Facts) -> (x: Result<([u8; 32], KeySource, bool), Diagnostic>)
    ensures
        x is Ok <==> author_fault(r.sheet(), facts.keys@) is None,
        x matches Ok(a) ==> a.0@ == author_key(r.doc@, *facts) && (blank(author_text(r.doc@)) ==> a.1
            == KeySource::Embedded && a.2 == facts.author_placeholder) && (!blank(
            author_text(r.doc@),
        ) ==> a.1 == KeySource::Config && !a.2),
        x matches Err(d) ==> author_fault(r.sheet(), facts.keys@) == Some(d@),
{
    let s = read_str(r.doc, "author", "pubkey", "");
    let t = s.as_str();
    if is_blank(t) {
        return Ok((facts.author_key, KeySource::Embedded, facts.author_placeholder));
    }
    let n: usize = count(bare_of(t).as_str());
    if n != 64 {
        let mut m = "author.pubkey is ".to_owned();
        push_dec(&mut m, n as u64);
        m.append(" characters; an ed25519 public key is 64 hex characters");
        return Err(r.at("author", "pubkey", m).with_help(AUTHOR_LENGTH_HELP));
    }
    let key: [u8; 32] = match decode_key(t) {
        Some(k) => k,
        None => {
            return Err(
                r.at("author", "pubkey", "author.pubkey is not valid hexadecimal".to_owned()),
            );
        },
    };
    if !is_valid_pubkey(facts.keys.as_slice(), &key) {
        let d = r.at(
            "author",
            "pubkey",
            "author.pubkey is not a valid ed25519 public key".to_owned(),
        );
        return Err(d.with_help(NO_POINT_HELP).with_note(AUTHOR_POINT_NOTE));
    }
    Ok((key, KeySource::Config, false))
}

fn read_level(r: &Reader) -> (x: Result<LogLevel, Diagnostic>)
    ensures
        x is Ok <==> level_fault(r.sheet()) is None,
        x matches Ok(l) ==> level_of(text_in(r.doc@, "log"@, "level"@, "info"@)) == Some(l),
        x matches Err(d) ==> level_fault(r.sheet()) == Some(d@),
{
    let t = read_str(r.doc, "log", "level", "info");
    match LogLevel::parse(t.as_str()) {
        Some(l) => Ok(l),
        None => {
            let mut m = "`".to_owned();
            m.append(t.as_str());
            m.append("` is not a log level");
            Err(
                r.at("log", "level", m).with_help("levels are: error, warn, info, debug, trace"),
            )
        },
    }
}

// ---------------------------------------------------------------------------
// Where values came from

#[verifier::opaque]
pub open spec fn front_order() -> Seq<Field> {
    seq![
        Field { section: "node", key: "network", kind: Kind::Str },
        Field { section: "node", key: "data_dir", kind: Kind::Str },
        Field { section: "node", key: "prune", kind: Kind::Bool },
        Field { section: "node", key: "txindex", kind: Kind::Bool },
        Field { section: "node", key: "addrindex", kind: Kind::Bool },
        Field { section: "node", key: "verify_frames", kind: Kind::Bool },
        Field { section: "p2p", key: "listen", kind: Kind::Str },
        Field { section: "p2p", key: "max_peers", kind: Kind::Int },
        Field { section: "p2p", key: "use_embedded_seeds", kind: Kind::Bool },
        Field { section: "p2p", key: "accept_local_addrs", kind: Kind::Bool },
        Field { section: "p2p", key: "seeds", kind: Kind::StrArray },
        Field { section: "stratum", key: "listen", kind: Kind::Str },
        Field { section: "stratum", key: "max_connections", kind: Kind::Int },
        Field { section: "stratum", key: "enforcement", kind: Kind::Bool },
        Field { section: "stratum", key: "max_per_ip", kind: Kind::Int },
        Field { section: "stratum", key: "new_conns_per_ip_per_min", kind: Kind::Int },
        Field { section: "stratum", key: "global_accept_per_sec", kind: Kind::Int },
    ]
}

fn push_front_order(v: &mut Vec<Field>)
    ensures
        final(v)@ == old(v)@ + front_order(),
{
    reveal(front_order);
    v.push(Field { section: "node", key: "network", kind: Kind::Str });
    v.push(Field { section: "node", key: "data_dir", kind: Kind::Str });
    v.push(Field { section: "node", key: "prune", kind: Kind::Bool });
    v.push(Field { section: "node", key: "txindex", kind: Kind::Bool });
    v.push(Field { section: "node", key: "addrindex", kind: Kind::Bool });
    v.push(Field { section: "node", key: "verify_frames", kind: Kind::Bool });
    v.push(Field { section: "p2p", key: "listen", kind: Kind::Str });
    v.push(Field { section: "p2p", key: "max_peers", kind: Kind::Int });
    v.push(Field { section: "p2p", key: "use_embedded_seeds", kind: Kind::Bool });
    v.push(Field { section: "p2p", key: "accept_local_addrs", kind: Kind::Bool });
    v.push(Field { section: "p2p", key: "seeds", kind: Kind::StrArray });
    v.push(Field { section: "stratum", key: "listen", kind: Kind::Str });
    v.push(Field { section: "stratum", key: "max_connections", kind: Kind::Int });
    v.push(Field { section: "stratum", key: "enforcement", kind: Kind::Bool });
    v.push(Field { section: "stratum", key: "max_per_ip", kind: Kind::Int });
    v.push(Field { section: "stratum", key: "new_conns_per_ip_per_min", kind: Kind::Int });
    v.push(Field { section: "stratum", key: "global_accept_per_sec", kind: Kind::Int });
    assert(v@ =~= old(v)@ + front_order());
}

#[verifier::opaque]
pub open spec fn policing_order() -> Seq<Field> {
    seq![
        Field { section: "stratum", key: "bans_enabled", kind: Kind::Bool },
        Field { section: "stratum", key: "ban_threshold", kind: Kind::Int },
        Field { section: "stratum", key: "ban_soft_cap", kind: Kind::Int },
        Field { section: "stratum", key: "ban_decay_secs", kind: Kind::Int },
        Field { section: "stratum", key: "ban_base_secs", kind: Kind::Int },
        Field { section: "stratum", key: "ban_ladder_factor", kind: Kind::Int },
        Field { section: "stratum", key: "ban_max_secs", kind: Kind::Int },
        Field { section: "stratum", key: "ban_table_entries", kind: Kind::Int },
        Field { section: "stratum", key: "garbage_throttle_secs", kind: Kind::Int },
        Field { section: "stratum", key: "submit_rate_per_sec", kind: Kind::Int },
        Field { section: "stratum", key: "submit_burst", kind: Kind::Int },
        Field { section: "stratum", key: "line_rate_per_sec", kind: Kind::Int },
        Field { section: "stratum", key: "line_burst", kind: Kind::Int },
        Field { section: "stratum", key: "auth_deadline_secs", kind: Kind::Int },
        Field { section: "stratum", key: "idle_evict_secs", kind: Kind::Int },
        Field { section: "stratum", key: "read_deadline_secs", kind: Kind::Int },
        Field { section: "stratum", key: "write_timeout_secs", kind: Kind::Int },
        Field { section: "stratum", key: "out_buf_cap_bytes", kind: Kind::Int },
    ]
}

fn push_policing_order(v: &mut Vec<Field>)
    ensures
        final(v)@ == old(v)@ + policing_order(),
{
    reveal(policing_order);
    v.push(Field { section: "stratum", key: "bans_enabled", kind: Kind::Bool });
    v.push(Field { section: "stratum", key: "ban_threshold", kind: Kind::Int });
    v.push(Field { section: "stratum", key: "ban_soft_cap", kind: Kind::Int });
    v.push(Field { section: "stratum", key: "ban_decay_secs", kind: Kind::Int });
    v.push(Field { section: "stratum", key: "ban_base_secs", kind: Kind::Int });
    v.push(Field { section: "stratum", key: "ban_ladder_factor", kind: Kind::Int });
    v.push(Field { section: "stratum", key: "ban_max_secs", kind: Kind::Int });
    v.push(Field { section: "stratum", key: "ban_table_entries", kind: Kind::Int });
    v.push(Field { section: "stratum", key: "garbage_throttle_secs", kind: Kind::Int });
    v.push(Field { section: "stratum", key: "submit_rate_per_sec", kind: Kind::Int });
    v.push(Field { section: "stratum", key: "submit_burst", kind: Kind::Int });
    v.push(Field { section: "stratum", key: "line_rate_per_sec", kind: Kind::Int });
    v.push(Field { section: "stratum", key: "line_burst", kind: Kind::Int });
    v.push(Field { section: "stratum", key: "auth_deadline_secs", kind: Kind::Int });
    v.push(Field { section: "stratum", key: "idle_evict_secs", kind: Kind::Int });
    v.push(Field { section: "stratum", key: "read_deadline_secs", kind: Kind::Int });
    v.push(Field { section: "stratum", key: "write_timeout_secs", kind: Kind::Int });
    v.push(Field { section: "stratum", key: "out_buf_cap_bytes", kind: Kind::Int });
    assert(v@ =~= old(v)@ + policing_order());
}

#[verifier::opaque]
pub open spec fn vardiff_order() -> Seq<Field> {
    seq![
        Field { section: "stratum", key: "vardiff_setpoint_secs", kind: Kind::Int },
        Field { section: "stratum", key: "vardiff_tick_secs", kind: Kind::Int },
        Field { section: "stratum", key: "vardiff_min_diff", kind: Kind::Int },
        Field { section: "stratum", key: "vardiff_start_diff", kind: Kind::Int },
        Field { section: "stratum", key: "vardiff_ladder", kind: Kind::IntArray },
        Field { section: "stratum", key: "vardiff_warmup_shares", kind: Kind::Int },
        Field { section: "stratum", key: "vardiff_warmup_gate_shares", kind: Kind::Int },
        Field { section: "stratum", key: "vardiff_retarget_gate_shares", kind: Kind::Int },
        Field { section: "stratum", key: "vardiff_retarget_gate_secs", kind: Kind::Int },
        Field { section: "stratum", key: "vardiff_mature_shares", kind: Kind::Int },
        Field { section: "stratum", key: "vardiff_max_step", kind: Kind::Int },
        Field { section: "stratum", key: "vardiff_dead_zone_pct", kind: Kind::Int },
        Field { section: "stratum", key: "vardiff_mature_zone_pct", kind: Kind::Int },
        Field { section: "stratum", key: "vardiff_fast_escape_pct", kind: Kind::Int },
        Field { section: "stratum", key: "vardiff_silence_slack", kind: Kind::Int },
        Field { section: "stratum", key: "vardiff_dsps_tau_fast_secs", kind: Kind::Int },
        Field { section: "stratum", key: "vardiff_dsps_tau_mid_secs", kind: Kind::Int },
        Field { section: "stratum", key: "vardiff_dsps_tau_slow_secs", kind: Kind::Int },
    ]
}

fn push_vardiff_order(v: &mut Vec<Field>)
    ensures
        final(v)@ == old(v)@ + vardiff_order(),
{
    reveal(vardiff_order);
    v.push(Field { section: "stratum", key: "vardiff_setpoint_secs", kind: Kind::Int });
    v.push(Field { section: "stratum", key: "vardiff_tick_secs", kind: Kind::Int });
    v.push(Field { section: "stratum", key: "vardiff_min_diff", kind: Kind::Int });
    v.push(Field { section: "stratum", key: "vardiff_start_diff", kind: Kind::Int });
    v.push(Field { section: "stratum", key: "vardiff_ladder", kind: Kind::IntArray });
    v.push(Field { section: "stratum", key: "vardiff_warmup_shares", kind: Kind::Int });
    v.push(Field { section: "stratum", key: "vardiff_warmup_gate_shares", kind: Kind::Int });
    v.push(Field { section: "stratum", key: "vardiff_retarget_gate_shares", kind: Kind::Int });
    v.push(Field { section: "stratum", key: "vardiff_retarget_gate_secs", kind: Kind::Int });
    v.push(Field { section: "stratum", key: "vardiff_mature_shares", kind: Kind::Int });
    v.push(Field { section: "stratum", key: "vardiff_max_step", kind: Kind::Int });
    v.push(Field { section: "stratum", key: "vardiff_dead_zone_pct", kind: Kind::Int });
    v.push(Field { section: "stratum", key: "vardiff_mature_zone_pct", kind: Kind::Int });
    v.push(Field { section: "stratum", key: "vardiff_fast_escape_pct", kind: Kind::Int });
    v.push(Field { section: "stratum", key: "vardiff_silence_slack", kind: Kind::Int });
    v.push(Field { section: "stratum", key: "vardiff_dsps_tau_fast_secs", kind: Kind::Int });
    v.push(Field { section: "stratum", key: "vardiff_dsps_tau_mid_secs", kind: Kind::Int });
    v.push(Field { section: "stratum", key: "vardiff_dsps_tau_slow_secs", kind: Kind::Int });
    assert(v@ =~= old(v)@ + vardiff_order());
}

#[verifier::opaque]
pub open spec fn memory_order() -> Seq<Field> {
    seq![
        Field { section: "stratum", key: "vardiff_enabled", kind: Kind::Bool },
        Field { section: "stratum", key: "vardiff_fixed_diff", kind: Kind::Int },
        Field { section: "stratum", key: "vardiff_max_diff", kind: Kind::Int },
        Field { section: "stratum", key: "diff_cache_entries", kind: Kind::Int },
        Field { section: "stratum", key: "diff_cache_ttl_secs", kind: Kind::Int },
        Field { section: "stratum", key: "reconnect_storm_per_min", kind: Kind::Int },
        Field { section: "stratum", key: "reconnect_storm_window_secs", kind: Kind::Int },
    ]
}

fn push_memory_order(v: &mut Vec<Field>)
    ensures
        final(v)@ == old(v)@ + memory_order(),
{
    reveal(memory_order);
    v.push(Field { section: "stratum", key: "vardiff_enabled", kind: Kind::Bool });
    v.push(Field { section: "stratum", key: "vardiff_fixed_diff", kind: Kind::Int });
    v.push(Field { section: "stratum", key: "vardiff_max_diff", kind: Kind::Int });
    v.push(Field { section: "stratum", key: "diff_cache_entries", kind: Kind::Int });
    v.push(Field { section: "stratum", key: "diff_cache_ttl_secs", kind: Kind::Int });
    v.push(Field { section: "stratum", key: "reconnect_storm_per_min", kind: Kind::Int });
    v.push(Field { section: "stratum", key: "reconnect_storm_window_secs", kind: Kind::Int });
    assert(v@ =~= old(v)@ + memory_order());
}

#[verifier::opaque]
pub open spec fn back_order() -> Seq<Field> {
    seq![
        Field { section: "rpc", key: "listen", kind: Kind::Str },
        Field { section: "rpc", key: "token", kind: Kind::Str },
        Field { section: "mempool", key: "relay_fee_mile", kind: Kind::Int },
        Field { section: "mempool", key: "max_txs", kind: Kind::Int },
        Field { section: "mining", key: "author_note", kind: Kind::Str },
        Field { section: "checkpoints", key: "enabled", kind: Kind::Bool },
        Field { section: "checkpoints", key: "keys", kind: Kind::StrArray },
        Field { section: "checkpoints", key: "threshold", kind: Kind::Int },
        Field { section: "author", key: "pubkey", kind: Kind::Str },
        Field { section: "author", key: "show_in_log", kind: Kind::Bool },
        Field { section: "log", key: "level", kind: Kind::Str },
    ]
}

fn push_back_order(v: &mut Vec<Field>)
    ensures
        final(v)@ == old(v)@ + back_order(),
{
    reveal(back_order);
    v.push(Field { section: "rpc", key: "listen", kind: Kind::Str });
    v.push(Field { section: "rpc", key: "token", kind: Kind::Str });
    v.push(Field { section: "mempool", key: "relay_fee_mile", kind: Kind::Int });
    v.push(Field { section: "mempool", key: "max_txs", kind: Kind::Int });
    v.push(Field { section: "mining", key: "author_note", kind: Kind::Str });
    v.push(Field { section: "checkpoints", key: "enabled", kind: Kind::Bool });
    v.push(Field { section: "checkpoints", key: "keys", kind: Kind::StrArray });
    v.push(Field { section: "checkpoints", key: "threshold", kind: Kind::Int });
    v.push(Field { section: "author", key: "pubkey", kind: Kind::Str });
    v.push(Field { section: "author", key: "show_in_log", kind: Kind::Bool });
    v.push(Field { section: "log", key: "level", kind: Kind::Str });
    assert(v@ =~= old(v)@ + back_order());
}

/// Every setting, in the order in which settings are looked at.
pub open spec fn order() -> Seq<Field> {
    front_order() + policing_order() + vardiff_order() + memory_order() + back_order()
}

/// Where the value of a setting came from: the command line, where it speaks
/// of the setting; the document, where it does; else the default.
pub open spec fn source_of(d: toml::DocView, f: Field, ov: Overrides) -> Source {
    if (ov.network is Some && f.section@ == "node"@ && f.key@ == "network"@) || (ov.data_dir is Some
        && f.section@ == "node"@ && f.key@ == "data_dir"@) || (ov.log_level is Some && f.section@
        == "log"@ && f.key@ == "level"@) {
        Source::Cli
    } else if toml::entry(d, f.section@, f.key@) matches Some(e) && schema::fits(f.kind, e.value) {
        Source::File
    } else {
        Source::Default
    }
}

/// Where every value came from.
pub open spec fn origins(d: toml::DocView, ov: Overrides) -> Seq<Origin> {
    Seq::new(
        order().len(),
        |i: int|
            Origin {
                section: order()[i].section,
                key: order()[i].key,
                source: source_of(d, order()[i], ov),
            },
    )
}

fn find_source(doc: &Document, f: &Field, ov: &Overrides) -> (s: Source)
    ensures
        s == source_of(doc@, *f, *ov),
{
    if (ov.network.is_some() && same(f.section, "node") && same(f.key, "network")) || (
    ov.data_dir.is_some() && same(f.section, "node") && same(f.key, "data_dir")) || (
    ov.log_level.is_some() && same(f.section, "log") && same(f.key, "level")) {
        return Source::Cli;
    }
    match doc.get(f.section, f.key) {
        Some(e) => {
            let good = match (f.kind, &e.value) {
                (Kind::Str, Value::Str(_)) => true,
                (Kind::Int, Value::Int(_)) => true,
                (Kind::Bool, Value::Bool(_)) => true,
                (Kind::StrArray, Value::Arr(_)) => true,
                (Kind::IntArray, Value::Arr(_)) => true,
                _ => false,
            };
            if good {
                Source::File
            } else {
                Source::Default
            }
        },
        None => Source::Default,
    }
}

fn find_origins(doc: &Document, ov: &Overrides) -> (v: Vec<Origin>)
    ensures
        v@ == origins(doc@, *ov),
{
    let mut fs: Vec<Field> = Vec::new();
    push_front_order(&mut fs);
    push_policing_order(&mut fs);
    push_vardiff_order(&mut fs);
    push_memory_order(&mut fs);
    push_back_order(&mut fs);
    assert(fs@ =~= order());
    let ghost all = origins(doc@, *ov);
    let mut v: Vec<Origin> = Vec::new();
    let mut i: usize = 0;
    assert(v@ =~= all.take(0));
    while i < fs.len()
        invariant
            i <= fs.len(),
            fs@ == order(),
            all == origins(doc@, *ov),
            v@ == all.take(i as int),
        decreases fs.len() - i,
    {
        let source = find_source(doc, &fs[i], ov);
        v.push(Origin { section: fs[i].section, key: fs[i].key, source });
        assert(all.take(i as int + 1) =~= all.take(i as int).push(all[i as int]));
        i += 1;
    }
    assert(all.take(i as int) =~= all);
    v
}

// ---------------------------------------------------------------------------
// Warnings

pub const ADDRINDEX_WARNING: &'static str =
    "node.addrindex = true with node.prune = true: account_getHistory can only describe transactions whose block bodies are still stored (the last 525960). Set prune = false for a full history.";

pub const TXINDEX_WARNING: &'static str =
    "node.txindex = true with node.prune = true: the index only covers blocks whose bodies are still stored (the last 525960). Set prune = false for a full history.";

pub const NO_SEEDS_WARNING: &'static str =
    "p2p.use_embedded_seeds = false with no p2p.seeds: this node will not dial anybody and can only be found by peers that dial in. That is valid for a private network and broken for a public one.";

pub const SEED_WARNING_TAIL: &'static str =
    "); `.invalid` is reserved by RFC 6761 and can never resolve, so it can never produce a peer. The release gate refuses to compile an optimised binary carrying the embedded ones at all, so this is either a development build or a placeholder written into p2p.seeds by hand. Set p2p.seeds to names that exist.";

pub const CONNECTIONS_WARNING_TAIL: &'static str =
    " as well, and note that vardiff lengthens its setpoint floor to keep share checking inside the CPU budget.";

pub const FIXED_WARNING: &'static str =
    "stratum.vardiff_fixed_diff is set but stratum.vardiff_enabled is true, so it is ignored. Set vardiff_enabled = false to run at a fixed difficulty.";

pub const ENFORCEMENT_WARNING: &'static str =
    "stratum.enforcement = false: the node applies no bans, rate limits, connection caps or idle timeouts of its own. Difficulty adjustment still runs. Drive policy from an external system (fail2ban, a pool front end) or the port is open to abuse.";

pub const RPC_WARNING_TAIL: &'static str =
    " is reachable from the network. The token is required and present, but there is no TLS in the node: put a reverse proxy in front of it or the token crosses the wire in clear text.";

pub const NOTE_WARNING: &'static str =
    "mining.author_note is set. SPEC 8: a constant string links every block you ever mine to every other one. The default is empty for that reason.";

pub const CHECKPOINTS_WARNING: &'static str =
    "Checkpoints are off (checkpoints.enabled = false). Layers 1, 2 and 4 of the 51% defence still apply; the signed-checkpoint layer does not. This node will accept deep reorgs that a checkpointed node rejects.";

pub const KEY_WARNING_TAIL: &'static str =
    "). Its bytes are the ASCII text `CHECKPOINT-PLACEHOLDER-NOT-REAL0` and no signature will ever verify against it, so the checkpoint layer is effectively off while it is in use. Never acceptable on the live network.";

pub const AUTHOR_WARNING_TAIL: &'static str =
    "). Its bytes are the ASCII text `AUTHOR-KEY-PLACEHOLDER-NOT-REAL2`; nothing can sign for it, so no announcement will ever appear. SPEC 4.1 rule 1 also makes this key a block-validity input - do not point a node at mainnet with it.";

pub const SHOW_WARNING: &'static str =
    "author.show_in_log = false: emergency announcements from the author will not be printed here. They remain readable with the author_getNotes RPC.";

/// One warning, or none.
pub open spec fn when(said: bool, t: Seq<char>) -> Seq<Seq<char>> {
    if said {
        seq![t]
    } else {
        Seq::empty()
    }
}

/// The first index at or behind `i` of a seed that is a placeholder, or the
/// number of seeds.
pub open spec fn false_seed(seeds: Seq<Seq<char>>, placeholders: Seq<Seq<char>>, i: int) -> int
    decreases seeds.len() - i,
{
    if i < 0 || i >= seeds.len() {
        seeds.len() as int
    } else if placeholders.contains(seeds[i]) {
        i
    } else {
        false_seed(seeds, placeholders, i + 1)
    }
}

pub open spec fn seed_warning(c: Config, f: Facts) -> Seq<Seq<char>> {
    let seeds = settings::strings(c.seeds@);
    let i = false_seed(seeds, settings::strings(f.placeholder_seeds@), 0);
    if 0 <= i < seeds.len() {
        seq!["a seed in force is a BUILD PLACEHOLDER ("@ + seeds[i] + SEED_WARNING_TAIL@]
    } else {
        Seq::empty()
    }
}

pub open spec fn connections_warning(n: u64, nofile: u64) -> Seq<char> {
    "stratum.max_connections = "@ + text::dec(n as nat)
        + ": raise the service's LimitNOFILE to "@ + text::dec(nofile as nat)
        + CONNECTIONS_WARNING_TAIL@
}

/// A warning for each key that is a placeholder.
pub open spec fn key_warnings(facts: Seq<KeyFact>, keys: Seq<Seq<u8>>) -> Seq<Seq<char>>
    decreases keys.len(),
{
    if keys.len() == 0 {
        Seq::empty()
    } else {
        let head = key_warnings(facts, keys.drop_last());
        match keys::role(facts, keys.last()) {
            Some(r) => head.push(
                "the checkpoint key in force is the BUILD PLACEHOLDER (fp "@ + keys::fingerprint(
                    facts,
                    keys.last(),
                ) + ", "@ + r + KEY_WARNING_TAIL@,
            ),
            None => head,
        }
    }
}

pub open spec fn author_warning(facts: Seq<KeyFact>, key: Seq<u8>) -> Seq<char> {
    "the author announcement key in force is the BUILD PLACEHOLDER (fp "@ + keys::fingerprint(
        facts,
        key,
    ) + AUTHOR_WARNING_TAIL@
}

/// What is said of the node and of its peers.
pub open spec fn front_warnings(c: Config, f: Facts) -> Seq<Seq<char>> {
    when(c.addrindex && c.prune, ADDRINDEX_WARNING@) + when(c.txindex && c.prune, TXINDEX_WARNING@)
        + when(!c.use_embedded_seeds && c.seeds@.len() == 0, NO_SEEDS_WARNING@) + seed_warning(c, f)
}

/// What is said of the stratum server.
pub open spec fn stratum_warnings(p: Stratum, nofile: u64) -> Seq<Seq<char>> {
    when(p.max_connections > 1024, connections_warning(p.max_connections, nofile)) + when(
        p.vardiff_enabled && p.tops.fixed_diff != 0,
        FIXED_WARNING@,
    ) + when(!p.enforcement, ENFORCEMENT_WARNING@)
}

/// What is said of everything else.
pub open spec fn back_warnings(c: Config, f: Facts) -> Seq<Seq<char>> {
    when(!c.rpc_listen.loopback, "rpc.listen = "@ + c.rpc_listen.text@ + RPC_WARNING_TAIL@) + when(
        c.author_note@.len() > 0,
        NOTE_WARNING@,
    ) + when(c.checkpoints@ is Disabled, CHECKPOINTS_WARNING@) + key_warnings(
        f.keys@,
        keys::keys_in_force(c.checkpoints@),
    ) + when(
        keys::role(f.keys@, c.author_pubkey@) is Some,
        author_warning(f.keys@, c.author_pubkey@),
    ) + when(!c.author_show_in_log, SHOW_WARNING@)
}

/// Everything that a configuration in force is warned of.
pub open spec fn warnings_of(c: Config, f: Facts) -> Seq<Seq<char>> {
    front_warnings(c, f) + stratum_warnings(c.stratum, f.limit_nofile) + back_warnings(c, f)
}

fn warn(v: &mut Vec<String>, said: bool, t: &str)
    ensures
        settings::strings(final(v)@) == settings::strings(old(v)@) + when(said, t@),
{
    let ghost before = settings::strings(v@);
    if said {
        v.push(t.to_owned());
    }
    assert(settings::strings(v@) =~= before + when(said, t@));
}

fn append(v: &mut Vec<String>, w: Vec<String>)
    ensures
        settings::strings(final(v)@) == settings::strings(old(v)@) + settings::strings(w@),
{
    let ghost before = settings::strings(v@);
    let mut i: usize = 0;
    let ghost all = settings::strings(w@);
    assert(before + all.take(0) =~= before);
    while i < w.len()
        invariant
            i <= w.len(),
            all == settings::strings(w@),
            settings::strings(v@) == before + all.take(i as int),
        decreases w.len() - i,
    {
        let t = w[i].as_str().to_owned();
        let ghost now = settings::strings(v@);
        v.push(t);
        assert(settings::strings(v@) =~= now.push(t@));
        assert(all.take(i as int + 1) =~= all.take(i as int).push(all[i as int]));
        assert(before + all.take(i as int + 1) =~= (before + all.take(i as int)).push(
            all[i as int],
        ));
        i += 1;
    }
    assert(all.take(i as int) =~= all);
}

fn holds(v: &[String], t: &str) -> (r: bool)
    ensures
        r == settings::strings(v@).contains(t@),
{
    let ghost all = settings::strings(v@);
    let mut i: usize = 0;
    while i < v.len()
        invariant
            i <= v.len(),
            all == settings::strings(v@),
            forall|k: int| 0 <= k < i ==> #[trigger] all[k] != t@,
        decreases v.len() - i,
    {
        if same(v[i].as_str(), t) {
            assert(all[i as int] == t@);
            return true;
        }
        i += 1;
    }
    false
}

fn warn_of_seed(c: &Config, f: &Facts) -> (w: Vec<String>)
    ensures
        settings::strings(w@) == seed_warning(*c, *f),
{
    let ghost seeds = settings::strings(c.seeds@);
    let ghost ph = settings::strings(f.placeholder_seeds@);
    let mut w: Vec<String> = Vec::new();
    let mut i: usize = 0;
    while i < c.seeds.len()
        invariant
            i <= c.seeds.len(),
            w@.len() == 0,
            seeds == settings::strings(c.seeds@),
            ph == settings::strings(f.placeholder_seeds@),
            false_seed(seeds, ph, 0) == false_seed(seeds, ph, i as int),
        decreases c.seeds.len() - i,
    {
        let t = c.seeds[i].as_str();
        assert(seeds[i as int] == t@);
        if holds(f.placeholder_seeds.as_slice(), t) {
            let mut m = "a seed in force is a BUILD PLACEHOLDER (".to_owned();
            m.append(t);
            m.append(SEED_WARNING_TAIL);
            w.push(m);
            assert(settings::strings(w@) =~= seed_warning(*c, *f));
            return w;
        }
        i += 1;
    }
    assert(settings::strings(w@) =~= seed_warning(*c, *f));
    w
}

fn warn_of_keys(facts: &[KeyFact], v: &Vec<[u8; 32]>) -> (w: Vec<String>)
    ensures
        settings::strings(w@) == key_warnings(facts@, keys::key_views(v@)),
{
    let ghost all = keys::key_views(v@);
    let mut w: Vec<String> = Vec::new();
    let mut i: usize = 0;
    assert(all.take(0) =~= Seq::<Seq<u8>>::empty());
    assert(settings::strings(w@) =~= Seq::<Seq<char>>::empty());
    while i < v.len()
        invariant
            i <= v.len(),
            all == keys::key_views(v@),
            settings::strings(w@) == key_warnings(facts@, all.take(i as int)),
        decreases v.len() - i,
    {
        assert(all.take(i as int + 1).drop_last() =~= all.take(i as int));
        assert(all.take(i as int + 1).last() == v@[i as int]@);
        let ghost before = settings::strings(w@);
        match placeholder_role(facts, &v[i]) {
            Some(role) => {
                let mut m =
                    "the checkpoint key in force is the BUILD PLACEHOLDER (fp ".to_owned();
                m.append(fingerprint_of(facts, &v[i]).as_str());
                m.append(", ");
                m.append(role);
                m.append(KEY_WARNING_TAIL);
                w.push(m);
                assert(settings::strings(w@) =~= before.push(m@));
            },
            None => {},
        }
        i += 1;
    }
    assert(all.take(i as int) =~= all);
    w
}

fn warn_of_front(c: &Config, f: &Facts) -> (w: Vec<String>)
    ensures
        settings::strings(w@) == front_warnings(*c, *f),
{
    let mut w: Vec<String> = Vec::new();
    assert(settings::strings(w@) =~= Seq::<Seq<char>>::empty());
    warn(&mut w, c.addrindex && c.prune, ADDRINDEX_WARNING);
    warn(&mut w, c.txindex && c.prune, TXINDEX_WARNING);
    warn(&mut w, !c.use_embedded_seeds && c.seeds.len() == 0, NO_SEEDS_WARNING);
    append(&mut w, warn_of_seed(c, f));
    assert(settings::strings(w@) =~= front_warnings(*c, *f));
    w
}

fn warn_of_stratum(p: &Stratum, nofile: u64) -> (w: Vec<String>)
    ensures
        settings::strings(w@) == stratum_warnings(*p, nofile),
{
    let mut w: Vec<String> = Vec::new();
    assert(settings::strings(w@) =~= Seq::<Seq<char>>::empty());
    let mut m = "stratum.max_connections = ".to_owned();
    push_dec(&mut m, p.max_connections);
    m.append(": raise the service's LimitNOFILE to ");
    push_dec(&mut m, nofile);
    m.append(CONNECTIONS_WARNING_TAIL);
    warn(&mut w, p.max_connections > 1024, m.as_str());
    warn(&mut w, p.vardiff_enabled && p.tops.fixed_diff != 0, FIXED_WARNING);
    warn(&mut w, !p.enforcement, ENFORCEMENT_WARNING);
    assert(settings::strings(w@) =~= stratum_warnings(*p, nofile));
    w
}

fn warn_of_back(c: &Config, f: &Facts) -> (w: Vec<String>)
    ensures
        settings::strings(w@) == back_warnings(*c, *f),
{
    let facts = f.keys.as_slice();
    let mut w: Vec<String> = Vec::new();
    assert(settings::strings(w@) =~= Seq::<Seq<char>>::empty());
    let mut m = "rpc.listen = ".to_owned();
    m.append(c.rpc_listen.text.as_str());
    m.append(RPC_WARNING_TAIL);
    warn(&mut w, !c.rpc_listen.loopback, m.as_str());
    warn(&mut w, c.author_note.len() > 0, NOTE_WARNING);
    warn(&mut w, !c.checkpoints.is_enabled(), CHECKPOINTS_WARNING);
    append(&mut w, warn_of_keys(facts, &c.checkpoints.keys()));
    let mut a = "the author announcement key in force is the BUILD PLACEHOLDER (fp ".to_owned();
    a.append(fingerprint_of(facts, &c.author_pubkey).as_str());
    a.append(AUTHOR_WARNING_TAIL);
    warn(&mut w, placeholder_role(facts, &c.author_pubkey).is_some(), a.as_str());
    warn(&mut w, !c.author_show_in_log, SHOW_WARNING);
    assert(settings::strings(w@) =~= back_warnings(*c, *f));
    w
}

fn warn_of_all(c: &Config, f: &Facts) -> (w: Vec<String>)
    ensures
        settings::strings(w@) == warnings_of(*c, *f),
{
    let mut w = warn_of_front(c, f);
    append(&mut w, warn_of_stratum(&c.stratum, f.limit_nofile));
    append(&mut w, warn_of_back(c, f));
    w
}

// ---------------------------------------------------------------------------
// The whole configuration

/// The seeds in force: the document's, where it lists any; else the ones built
/// in, unless the document does without them.
pub open spec fn seeds_in(d: toml::DocView, f: Facts) -> Seq<Seq<char>> {
    let own = texts_in(d, "p2p"@, "seeds"@);
    if own.len() > 0 {
        own
    } else if flag_in(d, "p2p"@, "use_embedded_seeds"@, true) {
        settings::strings(f.seeds@)
    } else {
        Seq::empty()
    }
}

pub open spec fn dir_in(d: toml::DocView, ov: Overrides, f: Facts) -> Seq<char> {
    match ov.data_dir {
        Some(dir) => dir@,
        None => if text_in(d, "node"@, "data_dir"@, ""@).len() == 0 {
            f.default_dir@
        } else {
            f.expanded_dir@
        },
    }
}

pub open spec fn token_in(d: toml::DocView) -> Option<Seq<char>> {
    let t = text_in(d, "rpc"@, "token"@, ""@);
    if t.len() == 0 {
        None
    } else {
        Some(t)
    }
}

pub open spec fn level_in(d: toml::DocView, ov: Overrides) -> LogLevel {
    match ov.log_level {
        Some(l) => l,
        None => level_of(text_in(d, "log"@, "level"@, "info"@))->Some_0,
    }
}

/// Whether the node's own settings are what was asked for.
pub open spec fn is_node(c: Config, d: toml::DocView, ov: Overrides, f: Facts) -> bool {
    &&& c.network == Network::Main
    &&& c.data_dir@ == dir_in(d, ov, f)
    &&& c.prune == flag_in(d, "node"@, "prune"@, true)
    &&& c.txindex == flag_in(d, "node"@, "txindex"@, false)
    &&& c.addrindex == flag_in(d, "node"@, "addrindex"@, false)
    &&& c.verify_frames == flag_in(d, "node"@, "verify_frames"@, false)
    &&& c.log_level == level_in(d, ov)
}

/// Whether the settings on peers are what was asked for.
pub open spec fn is_p2p(c: Config, d: toml::DocView, f: Facts) -> bool {
    &&& f.p2p is Some && same_addr(c.p2p_listen, f.p2p->Some_0)
    &&& c.max_peers == settings::max_peers().value(d)
    &&& settings::strings(c.seeds@) == seeds_in(d, f)
    &&& c.use_embedded_seeds == flag_in(d, "p2p"@, "use_embedded_seeds"@, true)
    &&& c.accept_local_addrs == flag_in(d, "p2p"@, "accept_local_addrs"@, false)
}

/// Whether the settings on RPC, the mempool and mining are what was asked for.
pub open spec fn is_service(c: Config, d: toml::DocView, f: Facts) -> bool {
    &&& f.rpc is Some && same_addr(c.rpc_listen, f.rpc->Some_0)
    &&& toml::text_view(c.rpc_token) == token_in(d)
    &&& c.relay_fee_mile == settings::relay_fee_mile().value(d)
    &&& c.mempool_max_txs == settings::max_txs(f.max_mempool_txs as i64).value(d)
    &&& c.author_note@ == note_in(d)
}

/// Whether the keys are what was asked for.
pub open spec fn is_keyed(c: Config, d: toml::DocView, f: Facts) -> bool {
    &&& c.checkpoints@ == policy_in(d, f)
    &&& c.checkpoint_threshold == settings::threshold().value(d)
    &&& c.author_pubkey@ == author_key(d, f)
    &&& c.author_key_source == (if blank(author_text(d)) {
        KeySource::Embedded
    } else {
        KeySource::Config
    })
    &&& c.author_key_placeholder == (blank(author_text(d)) && f.author_placeholder)
    &&& c.author_show_in_log == flag_in(d, "author"@, "show_in_log"@, true)
}

/// Whether `c` is the configuration that a document, the command line and the
/// build make.
pub open spec fn is_config(c: Config, d: toml::DocView, ov: Overrides, f: Facts) -> bool {
    &&& is_node(c, d, ov, f)
    &&& is_p2p(c, d, f)
    &&& f.stratum is Some && same_addr(c.stratum_listen, f.stratum->Some_0)
    &&& policy::is_stratum(c.stratum, d)
    &&& is_service(c, d, f)
    &&& is_keyed(c, d, f)
    &&& c.provenance@ == origins(d, ov)
    &&& settings::strings(c.warnings@) == warnings_of(c, f)
}

fn copy_all(v: &Vec<String>) -> (w: Vec<String>)
    ensures
        settings::strings(w@) == settings::strings(v@),
{
    let ghost all = settings::strings(v@);
    let mut w: Vec<String> = Vec::new();
    let mut i: usize = 0;
    assert(settings::strings(w@) =~= all.take(0));
    while i < v.len()
        invariant
            i <= v.len(),
            all == settings::strings(v@),
            settings::strings(w@) == all.take(i as int),
        decreases v.len() - i,
    {
        let t = v[i].as_str().to_owned();
        let ghost now = settings::strings(w@);
        w.push(t);
        assert(settings::strings(w@) =~= now.push(t@));
        assert(all.take(i as int + 1) =~= all.take(i as int).push(all[i as int]));
        i += 1;
    }
    assert(all.take(i as int) =~= all);
    w
}

fn read_seeds(doc: &Document, f: &Facts) -> (v: Vec<String>)
    ensures
        settings::strings(v@) == seeds_in(doc@, *f),
{
    match read_strings(doc, "p2p", "seeds") {
        Some(v) => {
            assert(settings::strings(v@).len() == v@.len());
            if v.len() > 0 {
                return v;
            }
        },
        None => {},
    }
    if read_bool(doc, "p2p", "use_embedded_seeds", true) {
        copy_all(&f.seeds)
    } else {
        let v: Vec<String> = Vec::new();
        assert(settings::strings(v@) =~= Seq::<Seq<char>>::empty());
        v
    }
}

fn read_dir(doc: &Document, ov: &Overrides, f: &Facts) -> (s: String)
    ensures
        s@ == dir_in(doc@, *ov, *f),
{
    match &ov.data_dir {
        Some(d) => d.as_str().to_owned(),
        None => {
            if count(read_str(doc, "node", "data_dir", "").as_str()) == 0 {
                f.default_dir.as_str().to_owned()
            } else {
                f.expanded_dir.as_str().to_owned()
            }
        },
    }
}

fn read_token(doc: &Document) -> (r: Option<String>)
    ensures
        toml::text_view(r) == token_in(doc@),
{
    let t = read_str(doc, "rpc", "token", "");
    if count(t.as_str()) == 0 {
        None
    } else {
        Some(t)
    }
}

/// The settings that are read before those of the stratum server.
struct Front {
    p2p_listen: Addr,
    max_peers: i64,
    stratum_listen: Addr,
    stratum: Stratum,
}

fn read_front(r: &Reader, f: &Facts) -> (x: Result<Front, Diagnostic>)
    ensures
        x is Ok <==> front_fault(r.sheet(), *f) is None,
        x matches Ok(p) ==> f.p2p is Some && same_addr(p.p2p_listen, f.p2p->Some_0) && p.max_peers
            == settings::max_peers().value(r.doc@) && 1 <= p.max_peers && f.stratum is Some
            && same_addr(p.stratum_listen, f.stratum->Some_0) && policy::is_stratum(
            p.stratum,
            r.doc@,
        ),
        x matches Err(d) ==> front_fault(r.sheet(), *f) == Some(d@),
{
    match check_network(r) {
        Ok(()) => {},
        Err(d) => {
            return Err(d);
        },
    }
    let p2p_listen = match read_listen(r, "p2p", "0.0.0.0:9256", &f.p2p) {
        Ok(a) => a,
        Err(d) => {
            return Err(d);
        },
    };
    let max_peers: i64 = match r.number(
        Range { section: "p2p", key: "max_peers", default: MAX_PEERS, lo: 1, hi: MAX_PEERS },
    ) {
        Ok(v) => v,
        Err(d) => {
            return Err(d);
        },
    };
    let stratum_listen = match read_listen(r, "stratum", "127.0.0.1:9258", &f.stratum) {
        Ok(a) => a,
        Err(d) => {
            return Err(d);
        },
    };
    match read_stratum(r) {
        Ok(stratum) => Ok(Front { p2p_listen, max_peers, stratum_listen, stratum }),
        Err(d) => Err(d),
    }
}

/// The settings that are read behind those of the stratum server.
struct Back {
    rpc_listen: Addr,
    relay_fee: i64,
    max_txs: i64,
    note: Vec<u8>,
    checkpoints: CheckpointPolicy,
    threshold: u64,
    author: ([u8; 32], KeySource, bool),
    level: LogLevel,
}

fn read_back(r: &Reader, f: &Facts) -> (x: Result<Back, Diagnostic>)
    ensures
        x is Ok <==> back_fault(r.sheet(), *f) is None,
        x matches Ok(p) ==> f.rpc is Some && same_addr(p.rpc_listen, f.rpc->Some_0) && 1
            <= p.relay_fee == settings::relay_fee_mile().value(r.doc@) && 1 <= p.max_txs
            == settings::max_txs(f.max_mempool_txs as i64).value(r.doc@) && p.note@ == note_in(
            r.doc@,
        ) && p.checkpoints@ == policy_in(r.doc@, *f) && p.threshold == settings::threshold().value(
            r.doc@,
        ) && p.author.0@ == author_key(r.doc@, *f) && p.author.1 == (if blank(
            author_text(r.doc@),
        ) {
            KeySource::Embedded
        } else {
            KeySource::Config
        }) && p.author.2 == (blank(author_text(r.doc@)) && f.author_placeholder) && Some(p.level)
            == level_of(text_in(r.doc@, "log"@, "level"@, "info"@)),
        x matches Err(d) ==> back_fault(r.sheet(), *f) == Some(d@),
{
    let rpc_listen = match read_listen(r, "rpc", "127.0.0.1:9257", &f.rpc) {
        Ok(a) => a,
        Err(d) => {
            return Err(d);
        },
    };
    match check_bind(r, &f.bind_complaint) {
        Ok(()) => {},
        Err(d) => {
            return Err(d);
        },
    }
    let relay_fee: i64 = match r.number(
        Range { section: "mempool", key: "relay_fee_mile", default: 1, lo: 1, hi: i64::MAX },
    ) {
        Ok(v) => v,
        Err(d) => {
            return Err(d);
        },
    };
    let top: i64 = f.max_mempool_txs as i64;
    let max_txs: i64 = match r.number(
        Range { section: "mempool", key: "max_txs", default: top, lo: 1, hi: top },
    ) {
        Ok(v) => v,
        Err(d) => {
            return Err(d);
        },
    };
    let note = match read_note(r) {
        Ok(v) => v,
        Err(d) => {
            return Err(d);
        },
    };
    let (checkpoints, threshold) = match read_checkpoints(r, f) {
        Ok(v) => v,
        Err(d) => {
            return Err(d);
        },
    };
    let author = match read_author(r, f) {
        Ok(v) => v,
        Err(d) => {
            return Err(d);
        },
    };
    match read_level(r) {
        Ok(level) => Ok(
            Back { rpc_listen, relay_fee, max_txs, note, checkpoints, threshold, author, level },
        ),
        Err(d) => Err(d),
    }
}

fn build(path: &str, doc: &Document, ov: &Overrides, f: &Facts) -> (x: Result<Config, Diagnostic>)
    ensures
        ({
            let s = settings::Sheet { path: path@, doc: doc@, nofile: f.limit_nofile };
            &&& x is Ok <==> config_fault(s, *f) is None
            &&& x matches Ok(c) ==> is_config(c, doc@, *ov, *f)
            &&& x matches Err(d) ==> config_fault(s, *f) == Some(d@)
        }),
{
    let r = Reader { path, doc, nofile: f.limit_nofile };
    let front = match read_front(&r, f) {
        Ok(v) => v,
        Err(d) => {
            return Err(d);
        },
    };
    let back = match read_back(&r, f) {
        Ok(v) => v,
        Err(d) => {
            return Err(d);
        },
    };
    let mut c = Config {
        network: Network::Main,
        data_dir: read_dir(doc, ov, f),
        prune: read_bool(doc, "node", "prune", true),
        txindex: read_bool(doc, "node", "txindex", false),
        addrindex: read_bool(doc, "node", "addrindex", false),
        verify_frames: read_bool(doc, "node", "verify_frames", false),
        p2p_listen: front.p2p_listen,
        max_peers: front.max_peers as u64,
        seeds: read_seeds(doc, f),
        use_embedded_seeds: read_bool(doc, "p2p", "use_embedded_seeds", true),
        accept_local_addrs: read_bool(doc, "p2p", "accept_local_addrs", false),
        stratum_listen: front.stratum_listen,
        stratum: front.stratum,
        rpc_listen: back.rpc_listen,
        rpc_token: read_token(doc),
        relay_fee_mile: back.relay_fee as u64,
        mempool_max_txs: back.max_txs as u64,
        author_note: back.note,
        checkpoints: back.checkpoints,
        checkpoint_threshold: back.threshold,
        author_pubkey: back.author.0,
        author_key_source: back.author.1,
        author_key_placeholder: back.author.2,
        author_show_in_log: read_bool(doc, "author", "show_in_log", true),
        log_level: match ov.log_level {
            Some(l) => l,
            None => back.level,
        },
        provenance: find_origins(doc, ov),
        warnings: Vec::new(),
    };
    let w = warn_of_all(&c, f);
    c.warnings = w;
    Ok(c)
}

/// What is wrong with a document: an unknown name, then a value of the wrong
/// type, then a value that cannot be.
pub open spec fn load_fault(path: Seq<char>, d: toml::DocView, f: Facts) -> Option<toml::Fault> {
    schema::or(
        schema::or(schema::unknown(path, d, f.apart@), schema::type_faults(path, d.entries, 0)),
        config_fault((settings::Sheet { path, doc: d, nofile: f.limit_nofile }), f),
    )
}

/// The configuration that a document, the command line and the build make.
pub fn load(path: &str, doc: &Document, overrides: &Overrides, facts: &Facts) -> (x: Result<
    Config,
    Diagnostic,
>)
    ensures
        x is Ok <==> load_fault(path@, doc@, *facts) is None,
        x matches Ok(c) ==> is_config(c, doc@, *overrides, *facts),
        x matches Err(d) ==> load_fault(path@, doc@, *facts) == Some(d@),
{
    match check_unknown(path, doc, facts.apart.as_slice()) {
        Ok(()) => {},
        Err(d) => {
            return Err(d);
        },
    }
    match check_types(path, doc) {
        Ok(()) => {},
        Err(d) => {
            return Err(d);
        },
    }
    build(path, doc, overrides, facts)
}

/// A document without a line.
pub open spec fn empty_doc() -> toml::DocView {
    toml::DocView { sections: Seq::empty(), entries: Seq::empty() }
}

/// What the build says must be so for the defaults to be valid: the addresses
/// to listen on are addresses, the RPC listener is safe, and the mempool is not
/// built to be empty.
pub open spec fn usable(f: Facts) -> bool {
    f.p2p is Some && f.stratum is Some && f.rpc is Some && f.bind_complaint is None
        && f.max_mempool_txs >= 1
}

/// The defaults are always valid: an empty document has no fault.
pub proof fn law_an_empty_document_is_valid(path: Seq<char>, f: Facts)
    requires
        usable(f),
    ensures
        load_fault(path, empty_doc(), f) is None,
{
    let d = empty_doc();
    let s = settings::Sheet { path, doc: d, nofile: f.limit_nofile };
    assert forall|section: Seq<char>, key: Seq<char>| #[trigger]
        toml::entry(d, section, key) is None by {}
    reveal_strlit("");
    reveal_strlit("info");
    reveal_strlit("error");
    reveal_strlit("warn");
    reveal_strlit("warning");
    assert(text::lower("info"@) =~= "info"@) by {
        assert forall|i: int| 0 <= i < 4 implies text::lower("info"@)[i] == "info"@[i] by {}
    }
    assert("info"@[0] == 'i');
    assert("error"@[0] == 'e');
    assert("warn"@[0] == 'w');
    assert("warning"@[0] == 'w');
    assert(level_fault(s) is None);
    assert(""@ =~= Seq::<char>::empty());
    reveal_with_fuel(vstd::utf8::encode_utf8, 2);
    assert(note_fault(s) is None);
    assert(key_texts(d).len() == 0);
    assert(checkpoints_fault(s, f) is None);
    reveal_with_fuel(text::trim_end, 2);
    assert(text::white_end(""@, 0) == 0);
    assert(blank(author_text(d)));
    assert(policy::policing_fault(s) is None);
    assert(policy::vardiff_fault(s) is None);
    assert(front_fault(s, f) is None);
    assert(back_fault(s, f) is None);
}

/// The configuration of a node without a document.
pub fn defaults(overrides: &Overrides, facts: &Facts) -> (c: Config)
    requires
        usable(*facts),
    ensures
        is_config(c, empty_doc(), *overrides, *facts),
{
    let doc = Document { sections: Vec::new(), entries: Vec::new() };
    assert(doc@.sections =~= empty_doc().sections);
    assert(doc@.entries =~= empty_doc().entries);
    proof {
        law_an_empty_document_is_valid("<defaults>"@, *facts);
    }
    match load("<defaults>", &doc, overrides, facts) {
        Ok(c) => c,
        Err(_) => vstd::pervasive::unreached(),
    }
}

/// Only `enabled = false` switches checkpoints off. Whatever keys are listed,
/// none included, the layer stays on.
pub proof fn law_only_enabled_switches_checkpoints_off(
    c: Config,
    d: toml::DocView,
    ov: Overrides,
    f: Facts,
)
    requires
        is_config(c, d, ov, f),
    ensures
        c.checkpoints@ is Disabled <==> settings::bool_at(d, "checkpoints"@, "enabled"@) == Some(
            false,
        ),
        checkpoints_on(d) && key_texts(d).len() == 0 ==> c.checkpoints@ == (
        keys::PolicyView::Embedded {
            key: f.checkpoint_key@,
            placeholder: f.checkpoint_placeholder,
        }),
{
}

/// While checkpoints are on, the threshold can be met by the keys in force.
pub proof fn law_the_threshold_can_be_met(
    path: Seq<char>,
    c: Config,
    d: toml::DocView,
    ov: Overrides,
    f: Facts,
)
    requires
        load_fault(path, d, f) is None,
        is_config(c, d, ov, f),
        !(c.checkpoints@ is Disabled),
    ensures
        1 <= c.checkpoint_threshold <= keys::keys_in_force(c.checkpoints@).len(),
{
}

/// Keys that a document puts in force are points of the curve, and no two of
/// them are the same.
pub proof fn law_configured_keys_are_real_and_distinct(
    path: Seq<char>,
    c: Config,
    d: toml::DocView,
    ov: Overrides,
    f: Facts,
    i: int,
    j: int,
)
    requires
        load_fault(path, d, f) is None,
        is_config(c, d, ov, f),
        c.checkpoints@ is Configured,
        0 <= i < keys::keys_in_force(c.checkpoints@).len(),
        0 <= j < i,
    ensures
        keys::is_valid(f.keys@, keys::keys_in_force(c.checkpoints@)[i]),
        keys::is_valid(f.keys@, keys::keys_in_force(c.checkpoints@)[j]),
        keys::keys_in_force(c.checkpoints@)[i] != keys::keys_in_force(c.checkpoints@)[j],
{
    let s = settings::Sheet { path, doc: d, nofile: f.limit_nofile };
    let v = key_texts(d);
    lemma_key_is_sound(s, f.keys@, v, 0, i);
    lemma_key_is_sound(s, f.keys@, v, 0, j);
    assert(keys::key_of(v[j]) is Some);
    assert(keys::key_of(v[i]) is Some);
    if keys::key_of(v[j]) == keys::key_of(v[i]) {
        assert(listed_before(v, i));
    }
}

pub(crate) proof fn lemma_key_is_sound(
    s: settings::Sheet,
    facts: Seq<KeyFact>,
    v: Seq<Seq<char>>,
    i: int,
    k: int,
)
    requires
        0 <= i <= k < v.len(),
        keys_fault(s, facts, v, i) is None,
    ensures
        key_fault(s, facts, v, k) is None,
    decreases k - i,
{
    if i < k {
        lemma_key_is_sound(s, facts, v, i + 1, k);
    }
}

/// What the command line says stands, whatever the document says, and is
/// recorded as coming from the command line.
pub proof fn law_the_command_line_beats_the_document(
    c: Config,
    d: toml::DocView,
    ov: Overrides,
    f: Facts,
    i: int,
)
    requires
        is_config(c, d, ov, f),
        0 <= i < c.provenance@.len(),
    ensures
        ov.data_dir matches Some(dir) ==> c.data_dir@ == dir@,
        ov.log_level matches Some(l) ==> c.log_level == l,
        ov.data_dir is Some && c.provenance@[i].section@ == "node"@ && c.provenance@[i].key@
            == "data_dir"@ ==> c.provenance@[i].source == Source::Cli,
        ov.log_level is Some && c.provenance@[i].section@ == "log"@ && c.provenance@[i].key@
            == "level"@ ==> c.provenance@[i].source == Source::Cli,
{
}

/// A setting counts as coming from the document only where the document has
/// it.
pub proof fn law_file_values_are_in_the_file(
    c: Config,
    d: toml::DocView,
    ov: Overrides,
    f: Facts,
    i: int,
)
    requires
        is_config(c, d, ov, f),
        0 <= i < c.provenance@.len(),
        c.provenance@[i].source == Source::File,
    ensures
        toml::entry(d, c.provenance@[i].section@, c.provenance@[i].key@) is Some,
{
}

// ---------------------------------------------------------------------------
// What only the outside can answer

/// What a document asks the outside: how its addresses and its data directory
/// read here, what is known of the keys it names, and how far its unknown names
/// are from the known ones.
#[derive(Clone, Debug)]
pub struct Asks {
    pub p2p: String,
    pub stratum: String,
    pub rpc: String,
    pub data_dir: String,
    pub token: Option<String>,
    pub keys: Vec<[u8; 32]>,
    pub names: Vec<(String, &'static str)>,
}

/// The keys that the texts denote, without the texts that denote none.
pub open spec fn named(v: Seq<Seq<char>>) -> Seq<Seq<u8>>
    decreases v.len(),
{
    if v.len() == 0 {
        Seq::empty()
    } else {
        let head = named(v.drop_last());
        match keys::key_of(v.last()) {
            Some(k) => head.push(k),
            None => head,
        }
    }
}

/// What the document asks the outside.
pub fn asks(doc: &Document) -> (a: Asks)
    ensures
        a.p2p@ == text_in(doc@, "p2p"@, "listen"@, "0.0.0.0:9256"@),
        a.stratum@ == text_in(doc@, "stratum"@, "listen"@, "127.0.0.1:9258"@),
        a.rpc@ == text_in(doc@, "rpc"@, "listen"@, "127.0.0.1:9257"@),
        a.data_dir@ == text_in(doc@, "node"@, "data_dir"@, ""@),
        toml::text_view(a.token) == token_in(doc@),
        keys::key_views(a.keys@) == named(key_texts(doc@).push(author_text(doc@))),
        schema::pairs(a.names@) == schema::strange(doc@),
{
    let mut texts: Vec<String> = match read_strings(doc, "checkpoints", "keys") {
        Some(v) => v,
        None => Vec::new(),
    };
    assert(settings::strings(texts@) =~= key_texts(doc@));
    texts.push(read_str(doc, "author", "pubkey", ""));
    assert(settings::strings(texts@) =~= key_texts(doc@).push(author_text(doc@)));
    let ghost all = settings::strings(texts@);
    let mut v: Vec<[u8; 32]> = Vec::new();
    let mut i: usize = 0;
    assert(all.take(0) =~= Seq::<Seq<char>>::empty());
    assert(keys::key_views(v@) =~= Seq::<Seq<u8>>::empty());
    while i < texts.len()
        invariant
            i <= texts.len(),
            all == settings::strings(texts@),
            keys::key_views(v@) == named(all.take(i as int)),
        decreases texts.len() - i,
    {
        assert(all.take(i as int + 1).drop_last() =~= all.take(i as int));
        assert(all.take(i as int + 1).last() == texts@[i as int]@);
        let ghost before = keys::key_views(v@);
        match decode_key(texts[i].as_str()) {
            Some(k) => {
                v.push(k);
                assert(keys::key_views(v@) =~= before.push(k@));
            },
            None => {},
        }
        i += 1;
    }
    assert(all.take(i as int) =~= all);
    Asks {
        p2p: read_str(doc, "p2p", "listen", "0.0.0.0:9256"),
        stratum: read_str(doc, "stratum", "listen", "127.0.0.1:9258"),
        rpc: read_str(doc, "rpc", "listen", "127.0.0.1:9257"),
        data_dir: read_str(doc, "node", "data_dir", ""),
        token: read_token(doc),
        keys: v,
        names: strangers(doc),
    }
}

} // verus!
