use plaine::node::boot::{chain_params, prepare, self_checks, writes_default_config, Found, EXIT_BUSY, EXIT_CONFIG};
use plaine::node::config::{
    asks, defaults, load, Addr, Config, Facts, LogLevel, Network, Overrides, Source, PORT_P2P, PORT_RPC,
    PORT_STRATUM,
};
use plaine::node::effective::Paths;
use plaine::node::keys::{decode_key, CheckpointPolicy, KeyFact, KeySource};
use plaine::node::names::{edit_distance, find_meant, Apart};
use plaine::node::schema::fields;
use plaine::node::template::default_config_text;
use plaine::node::toml::{Diagnostic, Document, Entry, Item, Value};

// Reads the plain files that these tests write: sections, and keys with a
// string, a number, a flag or a list of them.
fn document(text: &str) -> Document {
    let mut doc = Document { sections: Vec::new(), entries: Vec::new() };
    let mut section = String::new();
    for (i, raw) in text.lines().enumerate() {
        let line = bare(raw).trim();
        if line.is_empty() {
            continue;
        }
        if let Some(name) = line.strip_prefix('[').and_then(|l| l.strip_suffix(']')) {
            section = name.to_string();
            doc.sections.push((section.clone(), i + 1));
            continue;
        }
        let (key, value) = line.split_once('=').unwrap_or_else(|| panic!("line {}: {raw}", i + 1));
        doc.entries.push(Entry {
            section: section.clone(),
            key: key.trim().to_string(),
            value: value_of(value.trim()),
            line: i + 1,
            col: 1,
        });
    }
    doc
}

// The line without its comment.
fn bare(line: &str) -> &str {
    let mut quoted = false;
    for (i, c) in line.char_indices() {
        match c {
            '"' => quoted = !quoted,
            '#' if !quoted => return &line[..i],
            _ => {}
        }
    }
    line
}

fn value_of(v: &str) -> Value {
    if let Some(list) = v.strip_prefix('[').and_then(|l| l.strip_suffix(']')) {
        let items = list.split(',').map(str::trim).filter(|i| !i.is_empty());
        return Value::Arr(
            items
                .map(|i| match value_of(i) {
                    Value::Str(s) => Item::Str(s),
                    Value::Int(n) => Item::Int(n),
                    Value::Bool(b) => Item::Bool(b),
                    Value::Arr(_) => Item::Arr,
                })
                .collect(),
        );
    }
    match v {
        "true" => Value::Bool(true),
        "false" => Value::Bool(false),
        _ => match v.strip_prefix('"').and_then(|s| s.strip_suffix('"')) {
            Some(s) => Value::Str(s.to_string()),
            None => Value::Int(v.parse().unwrap_or_else(|_| panic!("{v}"))),
        },
    }
}

fn addr(text: &str) -> Option<Addr> {
    let (host, port) = text.rsplit_once(':')?;
    let port: u16 = port.parse().ok()?;
    Some(Addr { text: text.to_string(), port, loopback: host == "127.0.0.1" || host == "[::1]" })
}

const CHECKPOINT_KEY: [u8; 32] = [0xC4; 32];
const AUTHOR_KEY: [u8; 32] = [0xA1; 32];
const RETIRED_CHECKPOINT: [u8; 32] = [0x43; 32];
const RETIRED_AUTHOR: [u8; 32] = [0x41; 32];
const SUNSET: u64 = 2_103_840;

fn encode(key: &[u8; 32]) -> String {
    key.iter().map(|b| format!("{b:02x}")).collect()
}

fn fingerprint(key: &[u8; 32]) -> String {
    encode(key)[..16].to_string()
}

// Of the keys of these tests, the one that is all zeros is no key.
fn fact(key: [u8; 32]) -> KeyFact {
    let role = match key {
        RETIRED_CHECKPOINT => Some("checkpoint".to_string()),
        RETIRED_AUTHOR => Some("author".to_string()),
        _ => None,
    };
    KeyFact { key, valid: key != [0; 32], fingerprint: fingerprint(&key), role }
}

/// The edits between two names, an exchange of neighbours being one.
fn edits(a: &str, b: &str) -> usize {
    let (a, b): (Vec<char>, Vec<char>) = (a.chars().collect(), b.chars().collect());
    let mut d = vec![vec![0usize; b.len() + 1]; a.len() + 1];
    for i in 0..=a.len() {
        for j in 0..=b.len() {
            d[i][j] = if i == 0 || j == 0 {
                i + j
            } else {
                let swap = usize::from(a[i - 1] != b[j - 1]);
                let mut best = (d[i - 1][j - 1] + swap).min(d[i - 1][j] + 1).min(d[i][j - 1] + 1);
                if i > 1 && j > 1 && a[i - 1] == b[j - 2] && a[i - 2] == b[j - 1] {
                    best = best.min(d[i - 2][j - 2] + 1);
                }
                best
            };
        }
    }
    d[a.len()][b.len()]
}

fn apart(name: &str, known: &str) -> Apart {
    Apart { name: name.to_string(), known: known.to_string(), edits: edits(name, known) }
}

fn facts(doc: &Document) -> Facts {
    let a = asks(doc);
    let rpc = addr(&a.rpc);
    let open = rpc.as_ref().is_some_and(|r| !r.loopback);
    let mut keys = vec![fact(CHECKPOINT_KEY), fact(AUTHOR_KEY)];
    keys.extend(a.keys.iter().map(|k| fact(*k)));
    Facts {
        limit_nofile: 65_536,
        max_mempool_txs: 50_000,
        sunset_height: SUNSET,
        seeds: vec!["seed1.plaine.example:9256".to_string(), "seed2.plaine.example:9256".to_string()],
        placeholder_seeds: Vec::new(),
        checkpoint_key: CHECKPOINT_KEY,
        checkpoint_placeholder: false,
        author_key: AUTHOR_KEY,
        author_placeholder: false,
        keys,
        apart: a.names.iter().map(|(n, k)| apart(n, k)).collect(),
        default_dir: "/home/me/.plaine".to_string(),
        expanded_dir: a.data_dir.clone(),
        p2p: addr(&a.p2p),
        stratum: addr(&a.stratum),
        rpc,
        bind_complaint: if open && a.token.is_none() {
            Some("set a token, or reach it with ssh -L".to_string())
        } else {
            None
        },
    }
}

fn ok(src: &str) -> Config {
    let doc = document(src);
    load("noded.toml", &doc, &Overrides::default(), &facts(&doc))
        .unwrap_or_else(|e| panic!("should load:\n{}", e.render()))
}

fn err(src: &str) -> Diagnostic {
    let doc = document(src);
    load("noded.toml", &doc, &Overrides::default(), &facts(&doc)).expect_err("should not load")
}

fn printed(src: &str) -> String {
    let doc = document(src);
    let paths = Paths {
        config_file: "/home/me/.plaine/noded.toml".to_string(),
        chain_dir: "/home/me/.plaine/chain".to_string(),
        database_file: "/home/me/.plaine/plaine.db".to_string(),
    };
    ok(src).print_effective(&facts(&doc), "", &paths)
}

fn embedded_seeds() -> Vec<String> {
    facts(&document("")).seeds
}

#[test]
fn absent_file_is_valid() {
    let c = ok("");
    assert_eq!(c.network, Network::Main);
    assert_eq!(c.rpc_listen.port, PORT_RPC);
    assert_eq!(c.p2p_listen.port, PORT_P2P);
    assert_eq!(c.stratum_listen.port, PORT_STRATUM);
    assert!(c.rpc_token.is_none());
    assert!(c.prune);
    assert!(!c.txindex);
    assert_eq!(c.log_level, LogLevel::Info);

    assert!(matches!(c.checkpoints, CheckpointPolicy::Embedded { .. }));
    assert_eq!(c.checkpoints.keys(), vec![CHECKPOINT_KEY]);
    assert_eq!(c.author_pubkey, AUTHOR_KEY);
    assert_eq!(c.author_key_source, KeySource::Embedded);
}

#[test]
fn network_conversions_not_reversed() {
    for n in [Network::Main] {
        assert_eq!(n.as_str(), "main");
    }
    let c = ok("");
    assert_eq!(chain_params(&c, 2, 8).network, c.network);
}

#[test]
fn configured_network_reaches_params() {
    let m = ok("[node]\nnetwork = \"main\"\n");
    assert_eq!(m.network, Network::Main);
    assert_eq!(chain_params(&m, 2, 8).network, Network::Main);
}

#[test]
fn absent_seeds_uses_embedded_table() {
    let main = ok("");
    assert_eq!(main.seeds, embedded_seeds());
    assert!(!main.seeds.is_empty(), "a stock node must have somewhere to call");
}

#[test]
fn empty_seeds_uses_embedded_table() {
    let c = ok("[p2p]\nseeds = []\n");
    assert_eq!(c.seeds, embedded_seeds());
}

#[test]
fn explicit_seeds_win() {
    let c = ok("[p2p]\nseeds = [\"10.44.0.11:9256\", \"seed.example.net\"]\n");
    assert_eq!(c.seeds, vec!["10.44.0.11:9256".to_string(), "seed.example.net".to_string()]);
}

#[test]
fn no_seeds_is_expressible() {
    let c = ok("[p2p]\nuse_embedded_seeds = false\n");
    assert!(c.seeds.is_empty());
    assert!(
        c.warnings.iter().any(|w| w.contains("will not dial anybody")),
        "silently dialling nobody is the defect: {:?}",
        c.warnings
    );

    let both = ok("[p2p]\nuse_embedded_seeds = false\nseeds = [\"10.44.0.11:9256\"]\n");
    assert_eq!(both.seeds, vec!["10.44.0.11:9256".to_string()]);
    assert!(!both.warnings.iter().any(|w| w.contains("will not dial anybody")));
}

#[test]
fn placeholder_seeds_warn() {
    let doc = document("");
    for placeholder in [false, true] {
        let mut f = facts(&doc);
        if placeholder {
            f.placeholder_seeds = f.seeds.clone();
        }
        let c = load("noded.toml", &doc, &Overrides::default(), &f).expect("defaults load");
        let warned = c.warnings.iter().any(|w| w.contains("BUILD PLACEHOLDER"));
        assert_eq!(
            warned, placeholder,
            "the placeholder warning and the placeholder table must agree"
        );
    }
}

#[test]
fn pasted_placeholder_key_warns() {
    let cp = encode(&RETIRED_CHECKPOINT);
    let au = encode(&RETIRED_AUTHOR);

    let src = format!("[checkpoints]\nkeys = [\"{cp}\"]\n[author]\npubkey = \"{au}\"\n");
    let c = ok(&src);

    assert!(matches!(c.checkpoints, CheckpointPolicy::Configured { .. }));
    assert_eq!(c.author_key_source, KeySource::Config);

    assert!(
        c.warnings.iter().any(|w| w.contains("BUILD PLACEHOLDER") && w.contains("checkpoint")),
        "a pasted placeholder checkpoint key bought silence: {:?}",
        c.warnings
    );
    assert!(
        c.warnings.iter().any(|w| w.contains("BUILD PLACEHOLDER") && w.contains("author")),
        "a pasted placeholder author key bought silence: {:?}",
        c.warnings
    );

    let out = printed(&src);
    assert!(out.contains("BUILD PLACEHOLDER"), "{out}");
    assert!(out.contains("PLACEHOLDER)"), "author line lost its marker:\n{out}");

    let mut other = RETIRED_CHECKPOINT;
    other[31] = b'4';
    let c = ok(&format!("[checkpoints]\nkeys = [\"{}\"]\n", encode(&other)));
    assert!(
        !c.warnings.iter().any(|w| w.contains("checkpoint key in force")),
        "{:?}",
        c.warnings
    );
}

#[test]
fn default_file_roundtrips() {
    for net in [Network::Main] {
        let text = default_config_text(net, "/home/me/.plaine", 50_000, SUNSET);
        let from_file = ok(&text);
        let from_nothing = ok("");
        assert_eq!(from_file.network, from_nothing.network, "{}", net.as_str());
        assert_eq!(from_file.rpc_listen, from_nothing.rpc_listen);
        assert_eq!(from_file.checkpoints, from_nothing.checkpoints);
        assert_eq!(from_file.author_pubkey, from_nothing.author_pubkey);
        assert!(from_file.provenance.iter().all(|o| o.source == Source::Default));
    }
}

#[test]
fn private_peers_allowed() {
    assert!(
        !ok("[node]
network = \"main\"
").accept_local_addrs,
        "the default must stay: a gossiped private address is a claim"
    );
    assert!(ok("[p2p]
accept_local_addrs = true
").accept_local_addrs);
    assert!(!ok("[p2p]
accept_local_addrs = false
").accept_local_addrs);
}

#[test]
fn empty_key_list_uses_embedded() {
    assert!(matches!(ok("").checkpoints, CheckpointPolicy::Embedded { .. }));

    let c = ok("[checkpoints]\nkeys = []\n");
    assert!(matches!(c.checkpoints, CheckpointPolicy::Embedded { .. }));
    assert!(c.checkpoints.is_enabled());
    assert_eq!(c.checkpoints.keys().len(), 1);
}

#[test]
fn only_enabled_flag_disables() {
    let c = ok("[checkpoints]\nenabled = false\n");
    assert_eq!(c.checkpoints, CheckpointPolicy::Disabled);
    assert!(c.checkpoints.keys().is_empty());

    assert!(c.checkpoints.describe(&[]).contains("OFF"));
    assert!(c.warnings.iter().any(|w| w.contains("Checkpoints are off")));
}

#[test]
fn key_states_are_distinct() {
    for attempt in ["[checkpoints]\nkeys = []\n", "[checkpoints]\nkeys = [ ]\n"] {
        assert!(
            ok(attempt).checkpoints.is_enabled(),
            "emptying `keys` must never disable the layer: {attempt}"
        );
    }

    let e = err("[checkpoints]\nkeys = [\"\"]\n");
    assert!(e.message.contains("empty string"), "{e:?}");
    let help = e.help.unwrap();
    assert!(help.contains("enabled = false"));
    assert!(help.contains("keys = []"));
}

#[test]
fn contradictory_file_refused() {
    let key = encode(&CHECKPOINT_KEY);
    let e = err(&format!("[checkpoints]\nenabled = false\nkeys = [\"{key}\"]\n"));
    assert!(e.message.contains("two opposite things"), "{e:?}");
}

#[test]
fn configured_key_replaces_embedded() {
    let key = encode(&AUTHOR_KEY);
    let c = ok(&format!("[checkpoints]\nkeys = [\"{key}\"]\n"));
    assert!(matches!(c.checkpoints, CheckpointPolicy::Configured { .. }));
    assert_eq!(c.checkpoints.source(), KeySource::Config);
    assert_eq!(c.checkpoints.keys(), vec![AUTHOR_KEY]);
}

#[test]
fn stratum_limits_default_to_todays_values() {
    let c = ok("");
    assert!(c.stratum.enforcement);
    assert!(c.stratum.vardiff_enabled);
    assert_eq!(c.stratum.bans.threshold, 100);
    assert_eq!(c.stratum.rates.submit_per_sec, 3);
    assert_eq!(c.stratum.diff.min_diff, 8192);
    assert_eq!(c.stratum.diff.start_diff, 60000);
    assert_eq!(c.stratum.cadence.max_step, 4);
    assert_eq!(c.stratum.cadence.dead_zone_pct, 150);
    assert_eq!(c.stratum.cadence.ladder.len(), 10);
    assert_eq!(c.stratum.deadlines.auth_ms, 10_000);
}

#[test]
fn stratum_enforcement_off_disables_policy_but_not_vardiff() {
    let c = ok("[stratum]\nenforcement = false\n");
    assert!(!c.stratum.bans.enabled);
    assert!(!c.stratum.rates.submit_enabled);
    assert!(!c.stratum.rates.line_enabled);
    assert!(!c.stratum.diff.storm_enabled);
    assert_eq!(c.stratum.caps.max_per_ip, 0);
    assert_eq!(c.stratum.caps.global_accept_per_sec, 0);
    assert_eq!(c.stratum.deadlines.auth_ms, 0);
    assert_eq!(c.stratum.deadlines.idle_evict_ms, 0);
    assert_eq!(c.stratum.deadlines.out_buf_cap, 0);
    assert!(c.stratum.vardiff_enabled, "difficulty adjustment is not a policing knob");
}

#[test]
fn vardiff_off_switch_and_shape_knobs_parse() {
    let c = ok("[stratum]\nvardiff_enabled = false\nvardiff_fixed_diff = 40000\nvardiff_dead_zone_pct = 200\nvardiff_max_step = 8\nvardiff_ladder = [10, 20, 50]\n");
    assert!(!c.stratum.vardiff_enabled);
    assert_eq!(c.stratum.tops.fixed_diff, 40000);
    assert_eq!(c.stratum.cadence.dead_zone_pct, 200);
    assert_eq!(c.stratum.cadence.max_step, 8);
    assert_eq!(c.stratum.cadence.ladder.len(), 3);
    assert_eq!(c.stratum.cadence.ladder[1], 20);
}

#[test]
fn bad_vardiff_ladder_refused() {
    assert!(err("[stratum]\nvardiff_ladder = [10, 10]\n").message.contains("increase"));
    assert!(err("[stratum]\nvardiff_ladder = [5]\n").message.contains("10..=999"));
    assert!(err("[stratum]\nvardiff_ladder = []\n").message.contains("entries"));
    assert!(err("[stratum]\nvardiff_ladder = [\"a\"]\n").message.contains("integer"));
}

#[test]
fn zero_sentinel_disables_limit() {
    let c = ok("[stratum]\nsubmit_rate_per_sec = 0\nmax_per_ip = 0\nidle_evict_secs = 0\n");
    assert!(!c.stratum.rates.submit_enabled);
    assert_eq!(c.stratum.caps.max_per_ip, 0);
    assert_eq!(c.stratum.deadlines.idle_evict_ms, 0);
}

#[test]
fn mistyped_key_caught_at_startup() {
    let e = err(&format!("[checkpoints]\nkeys = [\"{}\"]\n", "00".repeat(32)));
    assert!(e.message.contains("not a valid ed25519 public key"), "{e:?}");
    assert!(e.note.unwrap().contains("you would believe you were protected"));

    let e2 = err("[checkpoints]\nkeys = [\"deadbeef\"]\n");
    assert!(e2.message.contains("64 hex characters"));

    let e3 = err(&format!("[checkpoints]\nkeys = [\"{}\"]\n", "z".repeat(64)));
    assert!(e3.message.contains("hexadecimal"));
}

#[test]
fn unmeetable_threshold_refused() {
    let e = err("[checkpoints]\nthreshold = 2\n");
    assert!(e.message.contains("only 1 key"), "{e:?}");
    assert!(e.help.unwrap().contains("would be off without saying so"));
}

#[test]
fn author_key_two_states() {
    assert_eq!(ok("").author_key_source, KeySource::Embedded);
    assert_eq!(
        ok("[author]\npubkey = \"\"\n").author_pubkey,
        AUTHOR_KEY
    );

    let key = encode(&CHECKPOINT_KEY);
    let c = ok(&format!("[author]\npubkey = \"{key}\"\n"));
    assert_eq!(c.author_key_source, KeySource::Config);
    assert!(!c.author_key_placeholder);

    let e = err("[author]\nenabled = false\n");
    assert!(e.message.contains("unknown key `enabled`"), "{e:?}");
}

#[test]
fn announce_log_off_warns() {
    let c = ok("[author]\nshow_in_log = false\n");
    assert!(c.warnings.iter().any(|w| w.contains("emergency announcements")));
}

#[test]
fn key_typo_names_intended_key() {
    let e = err("[p2p]\nmax_peer = 64\n");
    assert!(e.message.contains("unknown key `max_peer`"), "{e:?}");
    assert!(e.help.as_deref().unwrap().contains("max_peers"));
    let rendered = e.render();
    assert!(rendered.contains("  --> noded.toml:2:1"));
    assert!(rendered.contains("help: did you mean `max_peers`?"));
}

#[test]
fn section_typo_names_intended_section() {
    let e = err("[rcp]\nlisten = \"127.0.0.1:9257\"\n");
    assert!(e.message.contains("unknown section [rcp]"), "{e:?}");
    assert!(e.help.unwrap().contains("[rpc]"));
}

#[test]
fn wrong_type_names_expected() {
    let e = err("[p2p]\nmax_peers = \"many\"\n");
    assert!(e.message.contains("takes an integer"), "{e:?}");
    assert!(e.message.contains("is a string"));
}

#[test]
fn address_without_port_refused() {
    let e = err("[rpc]\nlisten = \"127.0.0.1\"\n");
    assert!(e.help.as_deref().unwrap().contains("port is missing"), "{e:?}");
}

#[test]
fn out_of_range_carries_reason() {
    let e = err("[stratum]\nmax_connections = 20000\n");
    assert!(e.message.contains("outside 1..=8192"), "{e:?}");
    assert!(e.note.unwrap().contains("LimitNOFILE"));
    let e2 = err("[mempool]\nrelay_fee_mile = 0\n");
    assert!(e2.note.unwrap().contains("consensus floor is 1 mile"));
}

#[test]
fn public_rpc_without_token_refused() {
    let e = err("[rpc]\nlisten = \"0.0.0.0:9257\"\n");
    assert!(e.message.contains("not safe as configured"), "{e:?}");
    let help = e.help.unwrap();
    assert!(help.contains("ssh -L"), "the fix must be in the message");
    assert!(help.contains("token"));
}

#[test]
fn public_rpc_with_token_warns_tls() {
    let c = ok(&format!(
        "[rpc]\nlisten = \"0.0.0.0:9257\"\ntoken = \"{}\"\n",
        "k".repeat(40)
    ));
    assert!(c.rpc_token.is_some());
    assert!(c.warnings.iter().any(|w| w.contains("clear text")));
}

#[test]
fn token_never_printed() {
    let printed = printed(&format!(
        "[rpc]\nlisten = \"0.0.0.0:9257\"\ntoken = \"{}\"\n",
        "secret-token-secret-token-secret-token"
    ));
    assert!(!printed.contains("secret-token"), "the token must not be echoed:\n{printed}");
    assert!(printed.contains("<set, not shown>"));
}

#[test]
fn overlong_author_note_refused() {
    let e = err(&format!("[mining]\nauthor_note = \"{}\"\n", "x".repeat(300)));
    assert!(e.message.contains("300 bytes"), "{e:?}");
    assert!(e.note.unwrap().contains("bytes, not characters"));
}

#[test]
fn author_note_warns_linkage() {
    let c = ok("[mining]\nauthor_note = \"mined by me\"\n");
    assert!(c.warnings.iter().any(|w| w.contains("links every block")));
}

#[test]
fn cli_overrides_beat_file() {
    let ov = Overrides { data_dir: Some("/elsewhere".to_string()), ..Default::default() };
    let doc = document("[node]\ndata_dir = \"/in-file\"\n");
    let c = load("noded.toml", &doc, &ov, &facts(&doc)).expect("load");
    assert_eq!(c.data_dir, "/elsewhere");
    assert!(c
        .provenance
        .iter()
        .any(|o| o.section == "node" && o.key == "data_dir" && o.source == Source::Cli));
}

#[test]
fn print_effective_shows_provenance() {
    let out = printed("[node]\nprune = false\n");
    assert!(out.contains("prune = false  # file"));
    assert!(out.contains("txindex = false  # default"));
    assert!(out.contains(&format!("height {SUNSET}")));
    assert!(out.contains("config cannot change it"));
}

#[test]
fn resolved_author_key_reaches_consensus() {
    let pk = [0x11u8; 32];
    let cfg = ok(&format!("[author]\npubkey = \"{}\"\n", encode(&pk)));
    assert_eq!(cfg.author_pubkey, pk);
    assert_eq!(cfg.author_key_source, KeySource::Config);
    assert_eq!(chain_params(&cfg, 2, 8).author_pubkey, pk);
}

#[test]
fn self_check_passes_untampered() {
    assert_eq!(self_checks(132, *b"PLNE"), Ok(None));
    let warned = self_checks(132, [0, 0, 0, 0]).expect("self-checks must pass");
    assert!(warned.unwrap().contains("CHAIN_ID"));
    assert!(self_checks(131, *b"PLNE").is_err());
}

#[test]
fn bad_config_never_binds() {
    let doc = document("[p2p]\nmax_peer = 5\n");
    let e = prepare("bad.toml", &Found::File(&doc), &Overrides::default(), &facts(&doc))
        .expect_err("an unknown key");
    assert!(e.message.contains("max_peer"));
    assert_eq!(EXIT_CONFIG, 2);
    assert_ne!(EXIT_BUSY, EXIT_CONFIG);
}

#[test]
fn absent_config_uses_embedded_keys() {
    let f = facts(&document(""));
    let (cfg, existed) = prepare("noded.toml", &Found::Absent, &Overrides::default(), &f)
        .expect("defaults must always load");
    assert!(!existed);
    assert_eq!(cfg.rpc_listen, defaults(&Overrides::default(), &f).rpc_listen);
    let e = prepare("noded.toml", &Found::Unreadable("denied"), &Overrides::default(), &f)
        .expect_err("a file that cannot be read is a fault");
    assert_eq!(e.message, "cannot read the config file: denied");
    assert!(matches!(cfg.checkpoints, CheckpointPolicy::Embedded { .. }));
    assert_eq!(cfg.author_pubkey, AUTHOR_KEY);
    assert!(!writes_default_config(false, false, false), "--check-config must not touch the disk");
    assert_eq!(cfg.checkpoints.fingerprints(&[fact(CHECKPOINT_KEY)]), vec![fingerprint(&CHECKPOINT_KEY)]);
    assert_eq!(cfg.network, Network::Main);
}

#[test]
fn first_run_config_roundtrips() {
    assert!(writes_default_config(true, false, false), "first run should write noded.toml");
    let cfg = ok("");
    let again = ok(&default_config_text(Network::Main, "/home/me/.plaine", 50_000, SUNSET));
    assert_eq!(again.rpc_listen, cfg.rpc_listen);
    assert_eq!(again.checkpoints, cfg.checkpoints);
    assert_eq!(again.author_pubkey, cfg.author_pubkey);
}

#[test]
fn names_are_near_by_their_slips() {
    let known = ["node", "p2p", "rpc"];
    let of = |name: &str, known: &[&str]| known.iter().map(|k| apart(name, k)).collect::<Vec<_>>();
    let facts = of("rcp", &known);
    assert_eq!(edit_distance(&facts, "rcp", "rpc"), 1);
    assert_eq!(edit_distance(&facts, "rcp", "p2p"), 2);
    assert_eq!(edit_distance(&facts, "rcp", "log"), usize::MAX, "nothing is known of it");
    assert_eq!(find_meant(&facts, "rcp", &known), Some("rpc"));
    assert_eq!(find_meant(&[], "rcp", &known), None);
    assert_eq!(find_meant(&of("elsewhere", &known), "elsewhere", &known), None);
    assert_eq!(find_meant(&of("ab", &["ac", "ad"]), "ab", &["ac", "ad"]), Some("ac"), "the first of those as near");
    assert_eq!(find_meant(&facts, "rcp", &[]), None);
}

#[test]
fn only_unknown_names_are_compared() {
    assert!(asks(&document("[p2p]\nmax_peers = 5\n")).names.is_empty());
    let names = asks(&document("[rcp]\n[p2p]\nmax_peer = 5\n")).names;
    assert!(names.contains(&("rcp".to_string(), "rpc")));
    assert!(names.contains(&("rcp".to_string(), "stratum")));
    assert!(names.contains(&("max_peer".to_string(), "max_peers")));
    assert!(!names.contains(&("max_peer".to_string(), "threshold")), "a key of another section");
}

#[test]
fn the_template_shows_every_section() {
    let text = default_config_text(Network::Main, "/d", 50_000, SUNSET);
    for f in fields() {
        assert!(text.contains(&format!("[{}]", f.section)), "[{}] is not in the template", f.section);
    }
}

#[test]
fn levels_read_back() {
    for l in [LogLevel::Error, LogLevel::Warn, LogLevel::Info, LogLevel::Debug, LogLevel::Trace] {
        assert_eq!(LogLevel::parse(l.as_str()), Some(l));
        assert_eq!(l.label().trim_end(), l.as_str());
    }
    assert_eq!(LogLevel::parse("loud"), None);
    let e = err("[log]\nlevel = \"loud\"\n");
    assert!(e.message.contains("loud"), "{e:?}");
}

#[test]
fn keys_are_hexadecimal() {
    assert_eq!(decode_key(&encode(&AUTHOR_KEY)), Some(AUTHOR_KEY));
    assert_eq!(decode_key("deadbeef"), None);
    assert_eq!(decode_key(&"z".repeat(64)), None);
}

#[test]
fn difficulties_stand_in_order() {
    let e = err("[stratum]\nvardiff_min_diff = 70000\nvardiff_start_diff = 60000\n");
    assert!(e.line > 0, "{e:?}");
    let e = err("[stratum]\nvardiff_max_diff = 100\n");
    assert!(!e.message.is_empty());
}

#[test]
fn a_stratum_server_is_closed_unless_opened() {
    let c = ok("");
    assert_eq!(c.stratum_listen, Addr { text: "127.0.0.1:9258".to_string(), port: 9258, loopback: true });
    let c = ok("[stratum]\nlisten = \"0.0.0.0:9258\"\n");
    assert!(!c.stratum_listen.loopback);
}

#[test]
fn a_diagnostic_shows_the_line() {
    let e = err("[p2p]\nmax_peers = 0\n");
    let r = e.render();
    assert!(r.starts_with("error: p2p.max_peers = 0 is outside 1..=128\n  --> noded.toml:2:1\n"), "{r}");
    assert!(r.contains("help: the default is 128"), "{r}");
    assert_eq!(Diagnostic::general("noded.toml", "no such file".to_string()).line, 0);
}

#[test]
fn a_setting_is_shown_as_it_is_in_force() {
    let c = ok("[stratum]\nvardiff_ladder = [10, 20, 50]\n");
    let f = facts(&document(""));
    assert_eq!(c.value_of(&f, "", "stratum", "vardiff_ladder"), "[10, 20, 50]");
    assert_eq!(c.value_of(&f, "", "stratum", "vardiff_dead_zone_pct"), "150");
    assert_eq!(c.value_of(&f, "", "p2p", "listen"), "\"0.0.0.0:9256\"");
    assert_eq!(c.value_of(&f, "hi", "mining", "author_note"), "\"hi\"");
    assert_eq!(c.value_of(&f, "", "nowhere", "nothing"), "?");
    assert_eq!(c.value_of(&f, "", "p2p", "accept_local_addrs"), "false");
    for o in &c.provenance {
        assert_ne!(c.value_of(&f, "", o.section, o.key), "?", "{}.{} is not shown", o.section, o.key);
    }
}
