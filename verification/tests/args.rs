use plaine::miner::argv::{
    from_config, parse, Action, Ask, Config, Options, Partial, Value, DEFAULT_BENCH_SECS,
};
use plaine::miner::conf;
use plaine::miner::cpus::{check_cpu_list, parse_cpu_list, pin_list};
use plaine::miner::pool::{parse_pool_url, PoolUrl};
use plaine::miner::status::Format;
use plaine::miner::topo::{Cpu, Topology};
use plaine::miner::work::MAX_WORKERS;


fn ok(s: &str) -> PoolUrl {
    parse_pool_url(s).unwrap_or_else(|e| panic!("{s:?} should parse: {e}"))
}

const MACHINE: usize = 16;

fn strings(v: &[&str]) -> Vec<String> {
    v.iter().map(|s| s.to_string()).collect()
}

fn args(v: &[&str]) -> Result<Options, String> {
    args_with(v, &mut Vec::new())
}

// The same, with the notes: some settings are adjusted rather than refused, and
// then the note is the only thing that tells the operator what happened.
fn args_with(v: &[&str], notes: &mut Vec<String>) -> Result<Options, String> {
    parse(&strings(v), Config::Pairs(Vec::new()), MACHINE, notes)
}

#[test]
fn zero_config_is_one_token() {
    let u = ok("plne1qqqqqqqqqqqqqqqqqqqqqqqqqqqqqqqqqqqqqqqqqqqqqq");
    assert_eq!(u.stratum, "127.0.0.1:9258");
    assert_eq!(u.login, "plne1qqqqqqqqqqqqqqqqqqqqqqqqqqqqqqqqqqqqqqqqqqqqqq");
}

#[test]
fn rig_name_and_suffix_untouched() {
    assert_eq!(ok("plne1abc.rig1@h:1").login, "plne1abc.rig1");
    assert_eq!(ok("plne1abc.rig1+120000@h:1").login, "plne1abc.rig1+120000");
    assert_eq!(ok("plne1abc+8192").login, "plne1abc+8192");
}

#[test]
fn host_and_port_split_on_last_at() {
    assert_eq!(ok("plne1abc.rig@pool.example").stratum, "pool.example:9258");
    assert_eq!(ok("plne1abc.rig@pool.example:3333").stratum, "pool.example:3333");
    assert_eq!(ok("stratum+tcp://plne1abc.rig@10.0.0.2:19258").stratum, "10.0.0.2:19258");
    assert_eq!(ok("stratum://plne1abc@h").stratum, "h:9258");
    assert_eq!(ok("tcp://plne1abc@h").stratum, "h:9258");

    assert_eq!(ok("stratum+tcp://plne1abc@h:1/").stratum, "h:1");
}

#[test]
fn ipv6_needs_brackets() {
    assert_eq!(ok("plne1abc@[::1]").stratum, "[::1]:9258");
    assert_eq!(ok("plne1abc@[::1]:19258").stratum, "[::1]:19258");
    let e = parse_pool_url("plne1abc@::1").unwrap_err();
    assert!(e.contains("[::1]:9258"), "the error must show the fix: {e}");
}

#[test]
fn encrypted_scheme_is_refused() {
    for s in ["stratum+ssl://plne1abc@h:1", "stratums://plne1abc@h:1", "tls://plne1abc@h:1"] {
        let e = parse_pool_url(s).unwrap_err();
        assert!(e.contains("plaintext"), "{s}: {e}");
    }
}

#[test]
fn typos_are_refused() {
    assert!(parse_pool_url("").is_err());
    assert!(parse_pool_url("@host:1").is_err(), "no address");
    assert!(parse_pool_url("plne1abc@:1").is_err(), "no host");
    assert!(parse_pool_url("plne1abc@h:0").is_err(), "port 0");
    assert!(parse_pool_url("plne1abc@h:99999").is_err(), "port out of range");
    assert!(parse_pool_url("plne1abc@h:http").is_err(), "port not a number");
    assert!(parse_pool_url("http://plne1abc@h:1").is_err(), "wrong scheme");
    assert!(parse_pool_url("stratum+tcp://plne1abc@h:1/path").is_err(), "a path hides a typo");
}

#[test]
fn rig_script_flags_still_parse() {
    let o = args(&[
        "plne1abc.rig1@pool:19258",
        "--threads", "6",
        "--status", "30",
        "--max-shares", "7",
        "--max-blocks", "2",
        "--deadline", "600",
        "--max-reconnects", "5",
        "--no-reconnect",
        "--verbose",
    ])
    .expect("parses");
    assert_eq!(o.action, Action::Mine);
    assert_eq!(o.client.login, "plne1abc.rig1");
    assert_eq!(o.client.stratum, "pool:19258");
    assert_eq!(o.client.threads, 6);
    assert_eq!(o.client.status_secs, 30);
    assert_eq!(o.client.max_shares, 7);
    assert_eq!(o.client.max_blocks, 2);
    assert_eq!(o.client.deadline_secs, 600);
    assert_eq!(o.client.max_reconnects, 5);
    assert!(!o.client.reconnect);
    assert!(o.client.verbose);

    let o = args(&["--address", "plne1x.rig", "--stratum", "h:1"]).unwrap();
    assert_eq!(o.client.login, "plne1x.rig");
    assert_eq!(o.client.stratum, "h:1");

    let d = args(&["plne1abc"]).unwrap();
    assert_eq!(d.client.status_secs, 10);
    assert!(d.client.reconnect);
    assert_eq!(d.client.stratum, "127.0.0.1:9258");
}

#[test]
fn more_workers_than_nonce_lanes_are_capped() {
    // A worker owns one of 2^THREAD_BITS lanes. Ask for more and worker
    // MAX_WORKERS + k walks lane k's nonces exactly, which a server scores as
    // duplicate shares: +25 banscore each, banned after four. Dual-socket parts
    // with more than 256 threads exist and available_parallelism is the default,
    // so the cap cannot just be documented.
    let mut notes = Vec::new();
    let o = args_with(
        &["plne1abc", "--threads", &(MAX_WORKERS + 48).to_string()],
        &mut notes,
    )
    .expect("an oversized thread count is capped, not refused");
    assert_eq!(o.client.threads, MAX_WORKERS);
    assert!(
        notes.iter().any(|n| n.contains("duplicate shares")),
        "the cap has to say why, not silently drop workers: {notes:?}"
    );
}

#[test]
fn a_thread_count_inside_the_lane_space_is_left_alone() {
    for n in [1usize, 2, 16, MAX_WORKERS - 1, MAX_WORKERS] {
        let o = args(&["plne1abc", "--threads", &n.to_string()]).expect("legal");
        assert_eq!(o.client.threads, n, "{n} workers fit and must not be touched");
    }
}

#[test]
fn threads_and_affinity_conflict() {

    let e = args(&["plne1abc", "--threads", "4", "--cpu-affinity", "0-3"]).unwrap_err();
    assert!(e.contains("--threads"), "{e}");
    assert!(e.contains("--cpu-affinity"), "{e}");

    assert!(args(&["plne1abc", "--cpu-affinity", "0-3", "--threads", "4"]).is_err());
}

#[test]
fn pin_list_sets_worker_count() {
    let o = args(&["plne1abc", "--cpu-affinity", "0,2,4,6"]).unwrap();
    assert_eq!(o.cpus.as_deref(), Some(&[0usize, 2, 4, 6][..]));
    assert_eq!(o.client.threads, 4, "one worker per entry, and nothing else to say");
}

#[test]
fn cpu_list_keeps_order_refuses_dupes() {
    assert_eq!(parse_cpu_list("0-3,8-11").unwrap(), vec![0, 1, 2, 3, 8, 9, 10, 11]);
    assert_eq!(parse_cpu_list("6,4,2,0").unwrap(), vec![6, 4, 2, 0], "order is meaning");
    assert_eq!(parse_cpu_list(" 1 , 3 ").unwrap(), vec![1, 3]);
    for bad in ["", "0,,2", "0,", "3-1", "a", "0-x", "0,0", "0-3,2"] {
        assert!(parse_cpu_list(bad).is_err(), "{bad:?} must be refused");
    }
    assert!(parse_cpu_list("0-999999").is_err(), "a typo, not a topology");
}

#[test]
fn modes_are_exclusive() {
    assert_eq!(args(&["--bench"]).unwrap().action, Action::Bench);
    assert_eq!(args(&["--print-topology"]).unwrap().action, Action::PrintTopology);
    assert_eq!(args(&["--bench"]).unwrap().client.login, "", "no address is needed");
    assert_eq!(args(&["--bench", "--bench-seconds", "3"]).unwrap().bench_secs, 3);
    assert_eq!(args(&["--bench"]).unwrap().bench_secs, DEFAULT_BENCH_SECS);
    assert!(args(&["--bench", "--bench-seconds", "0"]).is_err());

    assert_eq!(
        args(&["--bench", "--print-topology"]).unwrap().action,
        Action::PrintTopology
    );
    match args(&["--grind", "00ff"]).unwrap().action {
        Action::Grind(h) => assert_eq!(h, "00ff"),
        other => panic!("{other:?}"),
    }
}

#[test]
fn equals_form_parses() {
    let o = args(&["--address=plne1x", "--threads=3", "--status=1"]).unwrap();
    assert_eq!(o.client.login, "plne1x");
    assert_eq!(o.client.threads, 3);
    assert_eq!(o.client.status_secs, 1);
}

#[test]
fn huge_pages_default_is_try() {
    assert_eq!(args(&["plne1abc"]).unwrap().pages, Ask::Auto);
    assert_eq!(args(&["plne1abc", "--huge-pages"]).unwrap().pages, Ask::Force);
    assert_eq!(args(&["plne1abc", "--no-huge-pages"]).unwrap().pages, Ask::Never);
}

#[test]
fn cpu_priority_is_range_checked() {
    assert_eq!(args(&["plne1abc", "--cpu-priority", "0"]).unwrap().priority, Some(0));
    assert_eq!(args(&["plne1abc", "--cpu-priority", "5"]).unwrap().priority, Some(5));
    assert!(args(&["plne1abc", "--cpu-priority", "6"]).is_err());
    assert!(args(&["plne1abc", "--cpu-priority", "-1"]).is_err());
    assert_eq!(args(&["plne1abc"]).unwrap().priority, None, "no change by default");
}

#[test]
fn missing_value_names_the_flag() {
    for f in ["--threads", "--address", "--cpu-affinity", "--config", "--bench-seconds"] {
        let e = args(&[f]).unwrap_err();
        assert!(e.contains(f), "{f}: {e}");
    }
    assert!(args(&["--nonsense"]).unwrap_err().contains("nonsense"));
}

// The entries of a flat JSON object.
fn entries(body: &str) -> Vec<(String, Value)> {
    let inner = body.trim().trim_start_matches('{').trim_end_matches('}');
    let mut parts: Vec<String> = vec![String::new()];
    let (mut quoted, mut depth) = (false, 0);
    for c in inner.chars() {
        match c {
            '"' => quoted = !quoted,
            '[' if !quoted => depth += 1,
            ']' if !quoted => depth -= 1,
            ',' if !quoted && depth == 0 => {
                parts.push(String::new());
                continue;
            }
            _ => {}
        }
        parts.last_mut().unwrap().push(c);
    }
    parts
        .iter()
        .map(|p| {
            let (key, value) = p.split_once(':').expect("a key and a value");
            let key = key.trim().trim_matches('"').to_string();
            let value = value.trim();
            let value = if value == "true" || value == "false" {
                Value::Bool(value == "true")
            } else if value.starts_with('"') {
                Value::Str(value.trim_matches('"').to_string())
            } else if value.starts_with('[') {
                let inside = value.trim_start_matches('[').trim_end_matches(']');
                Value::List(inside.split(',').map(|n| n.trim().parse().unwrap()).collect())
            } else {
                Value::Num(value.parse().unwrap())
            };
            (key, value)
        })
        .collect()
}

fn with_config(body: &str, extra: &[&str]) -> Result<Options, String> {
    with_config_noting(body, extra, &mut Vec::new())
}

fn with_config_noting(
    body: &str,
    extra: &[&str],
    notes: &mut Vec<String>,
) -> Result<Options, String> {
    let mut argv = strings(&["--config", "miner.json"]);
    argv.extend(strings(extra));
    parse(&argv, Config::Pairs(entries(body)), MACHINE, notes)
}

#[test]
fn config_file_expresses_command_line() {
    let o = with_config(
        r#"{
             "url": "plne1abc.rig1@pool.example:9258",
             "cpu-affinity": "0-3",
             "cpu-priority": 1,
             "huge-pages": true,
             "status": 45,
             "no-reconnect": true,
             "verbose": true,
             "bench-seconds": 20
           }"#,
        &[],
    )
    .expect("parses");
    assert_eq!(o.client.login, "plne1abc.rig1");
    assert_eq!(o.client.stratum, "pool.example:9258");
    assert_eq!(o.cpus.as_deref(), Some(&[0usize, 1, 2, 3][..]));
    assert_eq!(o.client.threads, 4);
    assert_eq!(o.priority, Some(1));
    assert_eq!(o.pages, Ask::Force);
    assert_eq!(o.client.status_secs, 45);
    assert!(!o.client.reconnect);
    assert!(o.client.verbose);
    assert_eq!(o.bench_secs, 20);
}

#[test]
fn command_line_overrides_file() {
    let o = with_config(
        r#"{"address": "plne1file", "threads": 2, "status": 5}"#,
        &["--address", "plne1cli", "--status", "9"],
    )
    .expect("parses");
    assert_eq!(o.client.login, "plne1cli");
    assert_eq!(o.client.status_secs, 9);
    assert_eq!(o.client.threads, 2, "what the command line did not say, the file keeps");
}

#[test]
fn cli_pin_list_overrides_file_threads() {
    let mut notes = Vec::new();
    let o = with_config_noting(
        r#"{"threads": 8}"#,
        &["plne1abc", "--cpu-affinity", "0,1"],
        &mut notes,
    )
    .expect("parses");
    assert_eq!(o.client.threads, 2);
    assert_eq!(o.cpus.as_deref(), Some(&[0usize, 1][..]));
    assert!(notes.iter().any(|n| n.contains("overrides")), "{notes:?}");
}

#[test]
fn unknown_config_key_is_named() {
    let e = with_config(r#"{"cpu_prority": 2}"#, &[]).unwrap_err();
    assert!(e.contains("cpu_prority"), "{e}");
    assert!(e.contains("--help"), "{e}: the message must say where the list is");

    assert_eq!(with_config(r#"{"cpu_priority": 3}"#, &[]).unwrap().priority, Some(3));
}

#[test]
fn wrong_type_says_what_it_wanted() {
    let e = with_config(r#"{"threads": "four"}"#, &[]).unwrap_err();
    assert!(e.contains("a number"), "{e}");
    let e = with_config(r#"{"verbose": 1}"#, &[]).unwrap_err();
    assert!(e.contains("true or false"), "{e}");
}

#[test]
fn nested_config_include_is_refused() {
    let e = with_config(r#"{"config": "other.json"}"#, &[]).unwrap_err();
    assert!(e.contains("cannot reference another config file"), "{e}");
}

#[test]
fn missing_config_file_names_path() {
    let e = parse(
        &strings(&["--config", "no/such/file.json"]),
        Config::Unreadable("No such file or directory (os error 2)".to_string()),
        MACHINE,
        &mut Vec::new(),
    )
    .unwrap_err();
    assert!(e.contains("no/such/file.json"), "{e}");
}

#[test]
fn file_affinity_takes_string_or_array() {
    assert_eq!(
        with_config(r#"{"cpu-affinity": [0, 2, 4, 6]}"#, &[]).unwrap().cpus.as_deref(),
        Some(&[0usize, 2, 4, 6][..])
    );
    assert_eq!(
        with_config(r#"{"cpu-affinity": "0-3"}"#, &[]).unwrap().cpus.as_deref(),
        Some(&[0usize, 1, 2, 3][..])
    );
}

#[test]
fn file_both_thread_controls_conflict() {
    let e = with_config(r#"{"threads": 4, "cpu-affinity": "0-3"}"#, &[]).unwrap_err();
    assert!(e.contains("--cpu-affinity"), "{e}");
}

#[test]
fn page_size_choice_reaches_workers() {
    assert!(args(&["plne1abc"]).unwrap().client.huge_pages, "the default is auto, i.e. try");
    assert!(args(&["plne1abc", "--huge-pages"]).unwrap().client.huge_pages);
    assert!(!args(&["plne1abc", "--no-huge-pages"]).unwrap().client.huge_pages);
    assert!(!with_config(r#"{"huge-pages": false}"#, &[]).unwrap().client.huge_pages);
}

#[test]
fn pin_list_checked_against_machine() {
    let t = two_by_two();
    let n = t.logical();

    let all: Vec<usize> = t.cpus.iter().map(|c| c.id).collect();
    assert!(check_cpu_list(&all, &t).is_ok());

    if t.source != "none" && t.source != "available_parallelism" {
        let e = check_cpu_list(&[n + 1000], &t).unwrap_err();
        assert!(e.contains("--print-topology"), "{e}");
    }
}

// Two cores of two processors each.
fn two_by_two() -> Topology {
    let cpus = (0..4usize)
        .map(|id| Cpu {
            id,
            group: 0,
            package: 0,
            core: (id / 2) as i32,
            class: None,
            l2_kib: None,
            l2_shared: None,
        })
        .collect();
    Topology { model: String::new(), cpus, source: "test", notes: Vec::new() }
}

#[test]
fn workers_are_pinned_one_per_core_first() {
    let t = two_by_two();
    assert_eq!(pin_list(None, false, &t, 2), Some(vec![0, 2]));
    assert_eq!(pin_list(None, false, &t, 9), Some(vec![0, 2, 1, 3]));
    assert_eq!(pin_list(None, true, &t, 2), None, "--no-pin leaves placement to the system");
    assert_eq!(pin_list(Some(vec![3]), true, &t, 2), Some(vec![3]), "a list is a list");
    let bare = Topology { model: String::new(), cpus: Vec::new(), source: "none", notes: Vec::new() };
    assert_eq!(pin_list(None, false, &bare, 2), None);

    assert!(!args(&["plne1abc"]).unwrap().no_pin);
    assert!(args(&["plne1abc", "--no-pin"]).unwrap().no_pin);
    assert!(with_config(r#"{"no-pin": true}"#, &[]).unwrap().no_pin);
}

#[test]
fn status_format_is_text_or_json() {
    assert_eq!(args(&["plne1abc"]).unwrap().client.status_format, Format::Text);
    assert_eq!(
        args(&["plne1abc", "--status-format", "json"]).unwrap().client.status_format,
        Format::Json
    );
    assert_eq!(
        with_config(r#"{"status-format": "json"}"#, &["--status-format=text"])
            .unwrap()
            .client
            .status_format,
        Format::Text
    );
    assert_eq!(
        args(&["plne1abc", "--status-format", "xml"]).unwrap_err(),
        "status format \"xml\" is not text or json"
    );
    assert!(args(&["--status-format"]).unwrap_err().contains("needs text or json"));
}

#[test]
fn an_unknown_argument_is_quoted() {
    assert_eq!(args(&["--nonsense"]).unwrap_err(), "unknown argument \"--nonsense\"");
}

#[test]
fn the_command_line_wins_over_a_file_field_by_field() {
    let cli = Partial { threads: Some(3), ..Partial::default() };
    let file = Partial { threads: Some(5), status_secs: Some(7), ..Partial::default() };
    let both = cli.under(file);
    assert_eq!(both.threads, Some(3));
    assert_eq!(both.status_secs, Some(7));
    assert_eq!(both.login, None);
}

#[test]
fn a_repeated_or_mistyped_entry_is_refused() {
    let twice = vec![
        ("threads".to_string(), Value::Num(1)),
        ("threads".to_string(), Value::Num(2)),
    ];
    assert!(from_config(&twice).is_err());
    assert!(from_config(&[("cpu-priority".to_string(), Value::Num(9))]).is_err());
    assert!(from_config(&[("batch".to_string(), Value::Num(33))]).is_err());
}

#[test]
fn a_config_file_is_one_object_of_settings() {
    let text = r#" {
        "url": "plne1youraddress.rig1@pool.example:9258",
        "cpu-affinity": [0, 2, 4],
        "cpu-priority": 1,
        "huge-pages": true
    } "#;
    assert_eq!(
        conf::parse(text),
        Ok(vec![
            ("url".to_string(), Value::Str("plne1youraddress.rig1@pool.example:9258".to_string())),
            ("cpu-affinity".to_string(), Value::List(vec![0, 2, 4])),
            ("cpu-priority".to_string(), Value::Num(1)),
            ("huge-pages".to_string(), Value::Bool(true)),
        ])
    );
    assert_eq!(conf::parse("{}"), Ok(Vec::new()));
    for bad in ["", "[]", "{", r#"{"a"}"#, r#"{"a":null}"#, r#"{"a":[true]}"#, r#"{"a":1} x"#] {
        assert_eq!(conf::parse(bad), Err(conf::NOT_SETTINGS.to_string()), "{bad}");
    }
}
