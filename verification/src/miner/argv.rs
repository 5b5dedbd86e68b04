//! What the command line and the configuration file ask for.

use vstd::prelude::*;
use crate::miner::batch;
use crate::miner::cpus;
use crate::miner::cpus::parse_cpu_list;
use crate::miner::ladder;
use crate::miner::ladder::Args;
use crate::miner::pool;
use crate::miner::pool::parse_pool_url;
use crate::miner::status::Format;
use crate::miner::work::MAX_WORKERS;
use crate::text;
use crate::text::{
    debug_text, find, number_of, part, push_dec, same, stands_at, string_of, to_chars, to_lower,
    trim,
};

verus! {

pub const DEFAULT_BENCH_SECS: u64 = 10;

/// The highest priority that a process can be given.
pub const PRIORITY_LEVELS: u8 = 5;

/// Whether huge pages are tried, demanded, or left alone.
#[derive(Debug, Clone, Copy, PartialEq, Eq, Structural)]
pub enum Ask {
    Auto,
    Force,
    Never,
}

impl Default for Ask {
    fn default() -> (a: Ask)
        ensures
            a == Ask::Auto,
    {
        Ask::Auto
    }
}

impl Ask {
    /// Whether huge pages are asked for at all.
    pub fn wanted(self) -> (r: bool)
        ensures
            r == (self != Ask::Never),
    {
        match self {
            Ask::Never => false,
            _ => true,
        }
    }
}

/// What the program is to do.
#[derive(Debug, Clone, PartialEq, Eq)]
pub enum Action {
    Help,
    Version,
    PrintTopology,
    Bench,
    Grind(String),
    Mine,
}

/// Everything that was asked for, with the defaults filled in.
#[derive(Debug, Clone)]
pub struct Options {
    pub action: Action,
    pub client: Args,
    pub cpus: Option<Vec<usize>>,
    pub priority: Option<u8>,
    pub pages: Ask,
    pub bench_secs: u64,
    pub config_path: Option<String>,
    /// An explicit batch. Without one the machine decides.
    pub batch: Option<usize>,
    /// Workers are not pinned unless a list says so.
    pub no_pin: bool,
}

/// What one source asks for: the command line, or a file.
#[derive(Debug, Clone)]
pub struct Partial {
    pub login: Option<String>,
    pub stratum: Option<String>,
    pub threads: Option<usize>,
    pub cpus: Option<Vec<usize>>,
    pub priority: Option<u8>,
    pub pages: Option<Ask>,
    pub status_secs: Option<u64>,
    pub max_shares: Option<u64>,
    pub max_blocks: Option<u64>,
    pub deadline_secs: Option<u64>,
    pub max_reconnects: Option<u32>,
    pub reconnect: Option<bool>,
    pub verbose: Option<bool>,
    pub bench: Option<bool>,
    pub bench_secs: Option<u64>,
    pub batch: Option<usize>,
    pub print_topology: Option<bool>,
    pub grind: Option<String>,
    pub config: Option<String>,
    pub no_pin: Option<bool>,
    pub status_format: Option<Format>,
    pub help: bool,
    pub version: bool,
}

/// The mathematical value of a `Partial`.
#[verifier::ext_equal]
pub struct Asked {
    pub login: Option<Seq<char>>,
    pub stratum: Option<Seq<char>>,
    pub threads: Option<usize>,
    pub cpus: Option<Seq<usize>>,
    pub priority: Option<u8>,
    pub pages: Option<Ask>,
    pub status_secs: Option<u64>,
    pub max_shares: Option<u64>,
    pub max_blocks: Option<u64>,
    pub deadline_secs: Option<u64>,
    pub max_reconnects: Option<u32>,
    pub reconnect: Option<bool>,
    pub verbose: Option<bool>,
    pub bench: Option<bool>,
    pub bench_secs: Option<u64>,
    pub batch: Option<usize>,
    pub print_topology: Option<bool>,
    pub grind: Option<Seq<char>>,
    pub config: Option<Seq<char>>,
    pub no_pin: Option<bool>,
    pub status_format: Option<Format>,
    pub help: bool,
    pub version: bool,
}

pub open spec fn text_view(s: Option<String>) -> Option<Seq<char>> {
    match s {
        Some(t) => Some(t@),
        None => None,
    }
}

pub open spec fn list_view(s: Option<Vec<usize>>) -> Option<Seq<usize>> {
    match s {
        Some(t) => Some(t@),
        None => None,
    }
}

impl View for Partial {
    type V = Asked;

    open spec fn view(&self) -> Asked {
        Asked {
            login: text_view(self.login),
            stratum: text_view(self.stratum),
            threads: self.threads,
            cpus: list_view(self.cpus),
            priority: self.priority,
            pages: self.pages,
            status_secs: self.status_secs,
            max_shares: self.max_shares,
            max_blocks: self.max_blocks,
            deadline_secs: self.deadline_secs,
            max_reconnects: self.max_reconnects,
            reconnect: self.reconnect,
            verbose: self.verbose,
            bench: self.bench,
            bench_secs: self.bench_secs,
            batch: self.batch,
            print_topology: self.print_topology,
            grind: text_view(self.grind),
            config: text_view(self.config),
            no_pin: self.no_pin,
            status_format: self.status_format,
            help: self.help,
            version: self.version,
        }
    }
}

/// Nothing asked for.
pub open spec fn nothing_asked() -> Asked {
    Asked {
        login: None,
        stratum: None,
        threads: None,
        cpus: None,
        priority: None,
        pages: None,
        status_secs: None,
        max_shares: None,
        max_blocks: None,
        deadline_secs: None,
        max_reconnects: None,
        reconnect: None,
        verbose: None,
        bench: None,
        bench_secs: None,
        batch: None,
        print_topology: None,
        grind: None,
        config: None,
        no_pin: None,
        status_format: None,
        help: false,
        version: false,
    }
}

impl Default for Partial {
    fn default() -> (p: Partial)
        ensures
            p@ == nothing_asked(),
    {
        Partial {
            login: None,
            stratum: None,
            threads: None,
            cpus: None,
            priority: None,
            pages: None,
            status_secs: None,
            max_shares: None,
            max_blocks: None,
            deadline_secs: None,
            max_reconnects: None,
            reconnect: None,
            verbose: None,
            bench: None,
            bench_secs: None,
            batch: None,
            print_topology: None,
            grind: None,
            config: None,
            no_pin: None,
            status_format: None,
            help: false,
            version: false,
        }
    }
}

/// The first of two that is there.
pub open spec fn either<T>(a: Option<T>, b: Option<T>) -> Option<T> {
    if a is Some {
        a
    } else {
        b
    }
}

fn first_of<T>(a: Option<T>, b: Option<T>) -> (r: Option<T>)
    ensures
        r == either(a, b),
{
    match a {
        Some(x) => Some(x),
        None => b,
    }
}

/// What `a` asks for, and what `b` asks for where `a` is silent.
pub open spec fn over(a: Asked, b: Asked) -> Asked {
    Asked {
        login: either(a.login, b.login),
        stratum: either(a.stratum, b.stratum),
        threads: either(a.threads, b.threads),
        cpus: either(a.cpus, b.cpus),
        priority: either(a.priority, b.priority),
        pages: either(a.pages, b.pages),
        status_secs: either(a.status_secs, b.status_secs),
        max_shares: either(a.max_shares, b.max_shares),
        max_blocks: either(a.max_blocks, b.max_blocks),
        deadline_secs: either(a.deadline_secs, b.deadline_secs),
        max_reconnects: either(a.max_reconnects, b.max_reconnects),
        reconnect: either(a.reconnect, b.reconnect),
        verbose: either(a.verbose, b.verbose),
        bench: either(a.bench, b.bench),
        bench_secs: either(a.bench_secs, b.bench_secs),
        batch: either(a.batch, b.batch),
        print_topology: either(a.print_topology, b.print_topology),
        grind: either(a.grind, b.grind),
        config: either(a.config, b.config),
        no_pin: either(a.no_pin, b.no_pin),
        status_format: either(a.status_format, b.status_format),
        help: a.help || b.help,
        version: a.version || b.version,
    }
}

impl Partial {
    /// Puts what this asks for over `lower`: where this is silent, `lower`
    /// speaks.
    pub fn under(self, lower: Partial) -> (r: Partial)
        ensures
            r@ == over(self@, lower@),
    {
        let r = Partial {
            login: first_of(self.login, lower.login),
            stratum: first_of(self.stratum, lower.stratum),
            threads: first_of(self.threads, lower.threads),
            cpus: first_of(self.cpus, lower.cpus),
            priority: first_of(self.priority, lower.priority),
            pages: first_of(self.pages, lower.pages),
            status_secs: first_of(self.status_secs, lower.status_secs),
            max_shares: first_of(self.max_shares, lower.max_shares),
            max_blocks: first_of(self.max_blocks, lower.max_blocks),
            deadline_secs: first_of(self.deadline_secs, lower.deadline_secs),
            max_reconnects: first_of(self.max_reconnects, lower.max_reconnects),
            reconnect: first_of(self.reconnect, lower.reconnect),
            verbose: first_of(self.verbose, lower.verbose),
            bench: first_of(self.bench, lower.bench),
            bench_secs: first_of(self.bench_secs, lower.bench_secs),
            batch: first_of(self.batch, lower.batch),
            print_topology: first_of(self.print_topology, lower.print_topology),
            grind: first_of(self.grind, lower.grind),
            config: first_of(self.config, lower.config),
            no_pin: first_of(self.no_pin, lower.no_pin),
            status_format: first_of(self.status_format, lower.status_format),
            help: self.help || lower.help,
            version: self.version || lower.version,
        };
        assert(r@ =~= over(self@, lower@));
        r
    }
}

/// What the command line asks for wins over the file, and where it is silent
/// the file is kept.
pub proof fn law_the_command_line_wins(a: Asked, b: Asked)
    ensures
        a.login is Some ==> over(a, b).login == a.login,
        a.login is None ==> over(a, b).login == b.login,
        a.threads is Some ==> over(a, b).threads == a.threads,
        a.threads is None ==> over(a, b).threads == b.threads,
        a.status_secs is Some ==> over(a, b).status_secs == a.status_secs,
        a.status_secs is None ==> over(a, b).status_secs == b.status_secs,
        over(a, nothing_asked()) == a,
        over(nothing_asked(), b) == b,
{
    assert(over(a, nothing_asked()) =~= a);
    assert(over(nothing_asked(), b) =~= b);
}

// ---------------------------------------------------------------------------
// The command line

/// What is asked for, or what is wrong.
pub type Reading = Result<Asked, Seq<char>>;

/// The name of an argument: `--name=value` is split at the first `=`.
pub open spec fn name_of(raw: Seq<char>) -> Seq<char> {
    if has_inline(raw) {
        text::before(raw, '=')
    } else {
        raw
    }
}

/// Whether an argument carries its value behind an `=`.
pub open spec fn has_inline(raw: Seq<char>) -> bool {
    text::stands(raw, "--"@, 0) && text::has(raw, '=')
}

/// What a switch asks for; `None` if `name` is no switch.
pub open spec fn switched(a: Asked, name: Seq<char>) -> Option<Asked> {
    if name == "-h"@ || name == "--help"@ {
        Some(Asked { help: true, ..a })
    } else if name == "-V"@ || name == "--version"@ {
        Some(Asked { version: true, ..a })
    } else if name == "-v"@ || name == "--verbose"@ {
        Some(Asked { verbose: Some(true), ..a })
    } else if name == "--huge-pages"@ {
        Some(Asked { pages: Some(Ask::Force), ..a })
    } else if name == "--no-huge-pages"@ {
        Some(Asked { pages: Some(Ask::Never), ..a })
    } else if name == "--print-topology"@ {
        Some(Asked { print_topology: Some(true), ..a })
    } else if name == "--bench"@ {
        Some(Asked { bench: Some(true), ..a })
    } else if name == "--no-reconnect"@ {
        Some(Asked { reconnect: Some(false), ..a })
    } else if name == "--no-pin"@ {
        Some(Asked { no_pin: Some(true), ..a })
    } else {
        None
    }
}

/// What a flag takes, in words; `None` if `name` is no flag with a value.
pub open spec fn takes(name: Seq<char>) -> Option<Seq<char>> {
    if name == "--address"@ || name == "--stratum"@ {
        Some("a value"@)
    } else if name == "--config"@ {
        Some("a path"@)
    } else if name == "--grind"@ {
        Some("a 264-character hex header"@)
    } else if name == "--threads"@ {
        Some("a positive integer"@)
    } else if name == "--cpu-affinity"@ {
        Some("a CPU list like 0,2,4,6 or 0-3,8-11"@)
    } else if name == "--cpu-priority"@ {
        Some("a level from 0 to 5"@)
    } else if name == "--batch"@ {
        Some("a slot count"@)
    } else if name == "--bench-seconds"@ {
        Some("a number of seconds"@)
    } else if name == "--max-shares"@ || name == "--max-blocks"@ || name == "--deadline"@ || name
        == "--max-reconnects"@ {
        Some("an integer"@)
    } else if name == "--status"@ {
        Some("an integer number of seconds"@)
    } else if name == "--status-format"@ {
        Some("text or json"@)
    } else {
        None
    }
}

/// The number that a value denotes.
pub open spec fn int_of(v: Seq<char>) -> Option<nat> {
    text::number_in(text::trimmed(v), 10, u64::MAX as nat)
}

pub open spec fn priority_error(n: nat) -> Seq<char> {
    "--cpu-priority takes 0..5, not "@ + text::dec(n) + " (0 idle, 2 normal, 5 highest)"@
}

/// What is wrong with a batch.
pub open spec fn batch_error(n: usize) -> Seq<char> {
    if n == 0 {
        "--batch needs at least 1"@
    } else {
        "--batch "@ + text::dec(n as nat)
            + " exceeds the 32-slot code region; the region is mapped once at a fixed size, so 32 is the ceiling"@
    }
}

/// What a value of `--status-format` asks for.
pub open spec fn formatted(a: Asked, v: Seq<char>) -> Reading {
    if v == "text"@ {
        Ok(Asked { status_format: Some(Format::Text), ..a })
    } else if v == "json"@ {
        Ok(Asked { status_format: Some(Format::Json), ..a })
    } else {
        Err("status format "@ + text::debug_of(v) + " is not text or json"@)
    }
}

/// What a flag with the value `v` asks for.
pub open spec fn flagged(a: Asked, name: Seq<char>, v: Seq<char>) -> Reading {
    let n = int_of(v);
    if name == "--address"@ {
        Ok(Asked { login: Some(v), ..a })
    } else if name == "--stratum"@ {
        Ok(Asked { stratum: Some(v), ..a })
    } else if name == "--config"@ {
        Ok(Asked { config: Some(v), ..a })
    } else if name == "--grind"@ {
        Ok(Asked { grind: Some(v), ..a })
    } else if name == "--cpu-affinity"@ {
        match cpus::cpu_list(v) {
            Ok(l) => Ok(Asked { cpus: Some(l), ..a }),
            Err(e) => Err(e),
        }
    } else if name == "--status-format"@ {
        formatted(a, v)
    } else if n is None {
        Err(
            if name == "--threads"@ || name == "--batch"@ {
                name + " needs a positive integer"@
            } else if name == "--cpu-priority"@ {
                "--cpu-priority takes a level from 0 to 5"@
            } else if name == "--status"@ {
                "--status needs an integer number of seconds"@
            } else {
                name + " needs an integer"@
            },
        )
    } else {
        let x = n->Some_0;
        if name == "--threads"@ {
            Ok(Asked { threads: Some((x as u64) as usize), ..a })
        } else if name == "--cpu-priority"@ {
            if x > PRIORITY_LEVELS {
                Err(priority_error(x))
            } else {
                Ok(Asked { priority: Some(x as u8), ..a })
            }
        } else if name == "--batch"@ {
            let b = (x as u64) as usize;
            if 1 <= b <= 32 {
                Ok(Asked { batch: Some(b), ..a })
            } else {
                Err(batch_error(b))
            }
        } else if name == "--bench-seconds"@ {
            Ok(Asked { bench_secs: Some(x as u64), ..a })
        } else if name == "--max-shares"@ {
            Ok(Asked { max_shares: Some(x as u64), ..a })
        } else if name == "--max-blocks"@ {
            Ok(Asked { max_blocks: Some(x as u64), ..a })
        } else if name == "--deadline"@ {
            Ok(Asked { deadline_secs: Some(x as u64), ..a })
        } else if name == "--max-reconnects"@ {
            if x > u32::MAX {
                Err("--max-reconnects "@ + text::dec(x) + " is larger than 4294967295"@)
            } else {
                Ok(Asked { max_reconnects: Some(x as u32), ..a })
            }
        } else {
            Ok(Asked { status_secs: Some(x as u64), ..a })
        }
    }
}

/// What an argument that is no flag asks for: it is the pool.
pub open spec fn pooled(a: Asked, url: Seq<char>) -> Reading {
    match pool::pool_url(url) {
        Ok((stratum, login)) => Ok(Asked { stratum: Some(stratum), login: Some(login), ..a }),
        Err(e) => Err(e),
    }
}

/// What the arguments from `i` on ask for, over `a`.
pub open spec fn asked_from(argv: Seq<Seq<char>>, i: int, a: Asked) -> Reading
    decreases argv.len() - i,
{
    if i < 0 || i >= argv.len() {
        Ok(a)
    } else {
        let name = name_of(argv[i]);
        match switched(a, name) {
            Some(b) => asked_from(argv, i + 1, b),
            None => match takes(name) {
                Some(what) => if has_inline(argv[i]) {
                    match flagged(a, name, text::behind(argv[i], '=')) {
                        Ok(b) => asked_from(argv, i + 1, b),
                        Err(e) => Err(e),
                    }
                } else if i + 1 >= argv.len() {
                    Err(name + " needs "@ + what)
                } else {
                    match flagged(a, name, argv[i + 1]) {
                        Ok(b) => asked_from(argv, i + 2, b),
                        Err(e) => Err(e),
                    }
                },
                None => if name.len() > 0 && name[0] == '-' {
                    Err("unknown argument "@ + text::debug_of(name))
                } else {
                    match pooled(a, name) {
                        Ok(b) => asked_from(argv, i + 1, b),
                        Err(e) => Err(e),
                    }
                },
            },
        }
    }
}

pub open spec fn argv_view(argv: Seq<String>) -> Seq<Seq<char>> {
    Seq::new(argv.len(), |k: int| argv[k]@)
}

fn set_switch(p: &mut Partial, name: &str) -> (r: bool)
    ensures
        r == (switched(old(p)@, name@) is Some),
        r ==> switched(old(p)@, name@) == Some(final(p)@),
        !r ==> final(p)@ == old(p)@,
{
    let ghost a = p@;
    if same(name, "-h") || same(name, "--help") {
        p.help = true;
        assert(p@ =~= (Asked { help: true, ..a }));
    } else if same(name, "-V") || same(name, "--version") {
        p.version = true;
        assert(p@ =~= (Asked { version: true, ..a }));
    } else if same(name, "-v") || same(name, "--verbose") {
        p.verbose = Some(true);
        assert(p@ =~= (Asked { verbose: Some(true), ..a }));
    } else if same(name, "--huge-pages") {
        p.pages = Some(Ask::Force);
        assert(p@ =~= (Asked { pages: Some(Ask::Force), ..a }));
    } else if same(name, "--no-huge-pages") {
        p.pages = Some(Ask::Never);
        assert(p@ =~= (Asked { pages: Some(Ask::Never), ..a }));
    } else if same(name, "--print-topology") {
        p.print_topology = Some(true);
        assert(p@ =~= (Asked { print_topology: Some(true), ..a }));
    } else if same(name, "--bench") {
        p.bench = Some(true);
        assert(p@ =~= (Asked { bench: Some(true), ..a }));
    } else if same(name, "--no-reconnect") {
        p.reconnect = Some(false);
        assert(p@ =~= (Asked { reconnect: Some(false), ..a }));
    } else if same(name, "--no-pin") {
        p.no_pin = Some(true);
        assert(p@ =~= (Asked { no_pin: Some(true), ..a }));
    } else {
        return false;
    }
    true
}

fn what_it_takes(name: &str) -> (r: Option<&'static str>)
    ensures
        r is Some <==> takes(name@) is Some,
        r matches Some(w) ==> takes(name@) == Some(w@),
{
    if same(name, "--address") || same(name, "--stratum") {
        Some("a value")
    } else if same(name, "--config") {
        Some("a path")
    } else if same(name, "--grind") {
        Some("a 264-character hex header")
    } else if same(name, "--threads") {
        Some("a positive integer")
    } else if same(name, "--cpu-affinity") {
        Some("a CPU list like 0,2,4,6 or 0-3,8-11")
    } else if same(name, "--cpu-priority") {
        Some("a level from 0 to 5")
    } else if same(name, "--batch") {
        Some("a slot count")
    } else if same(name, "--bench-seconds") {
        Some("a number of seconds")
    } else if same(name, "--max-shares") || same(name, "--max-blocks") || same(name, "--deadline")
        || same(name, "--max-reconnects") {
        Some("an integer")
    } else if same(name, "--status") {
        Some("an integer number of seconds")
    } else if same(name, "--status-format") {
        Some("text or json")
    } else {
        None
    }
}

fn read_int(v: &str) -> (r: Option<u64>)
    ensures
        r is Some <==> int_of(v@) is Some,
        r matches Some(n) ==> int_of(v@) == Some(n as nat),
{
    number_of(&trim(&to_chars(v)), 10, u64::MAX)
}

fn no_int(name: &str) -> (e: String)
    ensures
        e@ == (if name@ == "--threads"@ || name@ == "--batch"@ {
            name@ + " needs a positive integer"@
        } else if name@ == "--cpu-priority"@ {
            "--cpu-priority takes a level from 0 to 5"@
        } else if name@ == "--status"@ {
            "--status needs an integer number of seconds"@
        } else {
            name@ + " needs an integer"@
        }),
{
    let mut e = name.to_owned();
    if same(name, "--threads") || same(name, "--batch") {
        e.append(" needs a positive integer");
    } else if same(name, "--cpu-priority") {
        return "--cpu-priority takes a level from 0 to 5".to_owned();
    } else if same(name, "--status") {
        return "--status needs an integer number of seconds".to_owned();
    } else {
        e.append(" needs an integer");
    }
    e
}

fn set_format(p: &mut Partial, v: &str) -> (r: Result<(), String>)
    ensures
        r is Ok ==> formatted(old(p)@, v@) == Ok::<Asked, Seq<char>>(final(p)@),
        r matches Err(e) ==> formatted(old(p)@, v@) == Err::<Asked, Seq<char>>(e@),
{
    let ghost a = p@;
    match Format::parse(v) {
        Ok(f) => {
            p.status_format = Some(f);
            assert(p@ =~= (Asked { status_format: Some(f), ..a }));
            Ok(())
        },
        Err(e) => Err(e),
    }
}

fn set_flag(p: &mut Partial, name: &str, v: &str) -> (r: Result<(), String>)
    ensures
        r is Ok ==> flagged(old(p)@, name@, v@) == Ok::<Asked, Seq<char>>(final(p)@),
        r matches Err(e) ==> flagged(old(p)@, name@, v@) == Err::<Asked, Seq<char>>(e@),
{
    let ghost a = p@;
    if same(name, "--address") {
        p.login = Some(v.to_owned());
        assert(p@ =~= (Asked { login: Some(v@), ..a }));
        return Ok(());
    }
    if same(name, "--stratum") {
        p.stratum = Some(v.to_owned());
        assert(p@ =~= (Asked { stratum: Some(v@), ..a }));
        return Ok(());
    }
    if same(name, "--config") {
        p.config = Some(v.to_owned());
        assert(p@ =~= (Asked { config: Some(v@), ..a }));
        return Ok(());
    }
    if same(name, "--grind") {
        p.grind = Some(v.to_owned());
        assert(p@ =~= (Asked { grind: Some(v@), ..a }));
        return Ok(());
    }
    if same(name, "--cpu-affinity") {
        return match parse_cpu_list(v) {
            Ok(l) => {
                p.cpus = Some(l);
                assert(p@ =~= (Asked { cpus: Some(l@), ..a }));
                Ok(())
            },
            Err(e) => Err(e),
        };
    }
    if same(name, "--status-format") {
        return set_format(p, v);
    }
    let n: u64 = match read_int(v) {
        Some(n) => n,
        None => {
            return Err(no_int(name));
        },
    };
    if same(name, "--threads") {
        p.threads = Some(n as usize);
        assert(p@ =~= (Asked { threads: Some(n as usize), ..a }));
    } else if same(name, "--cpu-priority") {
        if n > PRIORITY_LEVELS as u64 {
            let mut e = "--cpu-priority takes 0..5, not ".to_owned();
            push_dec(&mut e, n);
            e.append(" (0 idle, 2 normal, 5 highest)");
            return Err(e);
        }
        p.priority = Some(n as u8);
        assert(p@ =~= (Asked { priority: Some(n as u8), ..a }));
    } else if same(name, "--batch") {
        match batch::check(n as usize) {
            Ok(b) => {
                p.batch = Some(b);
                assert(p@ =~= (Asked { batch: Some(b), ..a }));
            },
            Err(e) => {
                return Err(e);
            },
        }
    } else if same(name, "--bench-seconds") {
        p.bench_secs = Some(n);
        assert(p@ =~= (Asked { bench_secs: Some(n), ..a }));
    } else if same(name, "--max-shares") {
        p.max_shares = Some(n);
        assert(p@ =~= (Asked { max_shares: Some(n), ..a }));
    } else if same(name, "--max-blocks") {
        p.max_blocks = Some(n);
        assert(p@ =~= (Asked { max_blocks: Some(n), ..a }));
    } else if same(name, "--deadline") {
        p.deadline_secs = Some(n);
        assert(p@ =~= (Asked { deadline_secs: Some(n), ..a }));
    } else if same(name, "--max-reconnects") {
        if n > u32::MAX as u64 {
            let mut e = "--max-reconnects ".to_owned();
            push_dec(&mut e, n);
            e.append(" is larger than 4294967295");
            return Err(e);
        }
        p.max_reconnects = Some(n as u32);
        assert(p@ =~= (Asked { max_reconnects: Some(n as u32), ..a }));
    } else {
        p.status_secs = Some(n);
        assert(p@ =~= (Asked { status_secs: Some(n), ..a }));
    }
    Ok(())
}

fn set_pool(p: &mut Partial, url: &str) -> (r: Result<(), String>)
    ensures
        r is Ok ==> pooled(old(p)@, url@) == Ok::<Asked, Seq<char>>(final(p)@),
        r matches Err(e) ==> pooled(old(p)@, url@) == Err::<Asked, Seq<char>>(e@),
{
    let ghost a = p@;
    match parse_pool_url(url) {
        Ok(u) => {
            p.stratum = Some(u.stratum);
            p.login = Some(u.login);
            assert(p@ =~= (Asked { stratum: Some(u.stratum@), login: Some(u.login@), ..a }));
            Ok(())
        },
        Err(e) => Err(e),
    }
}

/// What the command line asks for.
pub fn parse_argv(argv: &[String]) -> (r: Result<Partial, String>)
    ensures
        r matches Ok(p) ==> asked_from(argv_view(argv@), 0, nothing_asked()) == Ok::<
            Asked,
            Seq<char>,
        >(p@),
        r matches Err(e) ==> asked_from(argv_view(argv@), 0, nothing_asked()) == Err::<
            Asked,
            Seq<char>,
        >(e@),
{
    let ghost vs = argv_view(argv@);
    let mut p = Partial::default();
    let mut i: usize = 0;
    while i < argv.len()
        invariant
            i <= argv.len(),
            vs == argv_view(argv@),
            asked_from(vs, 0, nothing_asked()) == asked_from(vs, i as int, p@),
        decreases argv.len() - i,
    {
        let raw: &str = argv[i].as_str();
        assert(vs[i as int] == raw@);
        let v = to_chars(raw);
        let eq: usize = find(&v, '=', 0);
        let inline: bool = stands_at(&v, "--", 0) && eq < v.len();
        let name = if inline {
            let h = part(&v, 0, eq);
            assert(h@ =~= text::before(raw@, '='));
            string_of(&h)
        } else {
            raw.to_owned()
        };
        assert(name@ == name_of(raw@));
        i += 1;
        if set_switch(&mut p, &name) {
            continue;
        }
        match what_it_takes(&name) {
            Some(what) => {
                if inline {
                    let t = part(&v, eq + 1, v.len());
                    assert(t@ =~= text::behind(raw@, '='));
                    match set_flag(&mut p, &name, &string_of(&t)) {
                        Ok(_) => {},
                        Err(e) => {
                            return Err(e);
                        },
                    }
                } else {
                    if i >= argv.len() {
                        let mut e = name;
                        e.append(" needs ");
                        e.append(what);
                        return Err(e);
                    }
                    assert(vs[i as int] == argv@[i as int]@);
                    match set_flag(&mut p, &name, &argv[i]) {
                        Ok(_) => {},
                        Err(e) => {
                            return Err(e);
                        },
                    }
                    i += 1;
                }
            },
            None => {
                let n = to_chars(&name);
                if n.len() > 0 && n[0] == '-' {
                    let mut e = "unknown argument ".to_owned();
                    e.append(&debug_text(&name));
                    return Err(e);
                }
                match set_pool(&mut p, &name) {
                    Ok(_) => {},
                    Err(e) => {
                        return Err(e);
                    },
                }
            },
        }
    }
    Ok(p)
}

// ---------------------------------------------------------------------------
// The configuration file

/// A value of the configuration file.
#[derive(Debug, Clone, PartialEq, Eq)]
pub enum Value {
    Num(u64),
    Bool(bool),
    Str(String),
    List(Vec<u64>),
}

/// What a value is, in words.
pub open spec fn kind_text(v: Value) -> Seq<char> {
    match v {
        Value::Num(_) => "a number"@,
        Value::Bool(_) => "a boolean"@,
        Value::Str(_) => "a string"@,
        Value::List(_) => "an array"@,
    }
}

impl Value {
    /// What the value is, in words.
    pub fn kind(&self) -> (r: &'static str)
        ensures
            r@ == kind_text(*self),
    {
        match self {
            Value::Num(_) => "a number",
            Value::Bool(_) => "a boolean",
            Value::Str(_) => "a string",
            Value::List(_) => "an array",
        }
    }
}

/// A character of a key: an underscore stands for a dash.
pub open spec fn dashed(c: char) -> char {
    if c == '_' {
        '-'
    } else {
        c
    }
}

/// The key as the flags spell it: dashes, lower case.
pub open spec fn key_of(raw: Seq<char>) -> Seq<char> {
    text::lower(Seq::new(raw.len(), |i: int| dashed(raw[i])))
}

/// The key as the flags spell it.
pub fn normal_key(raw: &str) -> (r: String)
    ensures
        r@ == key_of(raw@),
{
    let v = to_chars(raw);
    let mut d: Vec<char> = Vec::new();
    let mut i: usize = 0;
    while i < v.len()
        invariant
            i <= v.len(),
            d@ == Seq::new(i as nat, |k: int| dashed(v@[k])),
        decreases v.len() - i,
    {
        if v[i] == '_' {
            d.push('-');
        } else {
            d.push(v[i]);
        }
        i += 1;
        assert(d@ =~= Seq::new(i as nat, |k: int| dashed(v@[k])));
    }
    assert(d@ =~= Seq::new(raw@.len(), |i: int| dashed(raw@[i])));
    string_of(&to_lower(&d))
}

pub open spec fn wants(raw: Seq<char>, what: Seq<char>, v: Value) -> Seq<char> {
    text::debug_of(raw) + " takes "@ + what + ", not "@ + kind_text(v)
}

/// The number of a value, up to `max`.
pub open spec fn num_of(raw: Seq<char>, v: Value, max: u64) -> Result<u64, Seq<char>> {
    match v {
        Value::Num(n) => if n <= max {
            Ok(n)
        } else {
            Err(text::debug_of(raw) + " is "@ + text::dec(n as nat) + ", which is out of range"@)
        },
        _ => Err(wants(raw, "a number"@, v)),
    }
}

pub open spec fn bool_of(raw: Seq<char>, v: Value) -> Result<bool, Seq<char>> {
    match v {
        Value::Bool(b) => Ok(b),
        _ => Err(wants(raw, "true or false"@, v)),
    }
}

pub open spec fn str_of(raw: Seq<char>, v: Value) -> Result<Seq<char>, Seq<char>> {
    match v {
        Value::Str(s) => Ok(s@),
        _ => Err(wants(raw, "a string"@, v)),
    }
}

/// Numbers with commas between them.
pub open spec fn joined(v: Seq<u64>) -> Seq<char>
    decreases v.len(),
{
    if v.len() == 0 {
        Seq::empty()
    } else if v.len() == 1 {
        text::dec(v[0] as nat)
    } else {
        joined(v.drop_last()) + ","@ + text::dec(v.last() as nat)
    }
}

/// The processors that a value names.
pub open spec fn cpus_of(raw: Seq<char>, v: Value) -> cpus::List {
    match v {
        Value::Str(s) => cpus::cpu_list(s@),
        Value::List(l) => cpus::cpu_list(joined(l@)),
        _ => Err(wants(raw, "a string like \"0-3,8-11\" or an array like [0,2,4]"@, v)),
    }
}

/// What one entry of the file asks for, over `a`.
pub open spec fn configured(a: Asked, raw: Seq<char>, v: Value) -> Reading {
    let key = key_of(raw);
    if key == "url"@ {
        match str_of(raw, v) {
            Ok(t) => pooled(a, t),
            Err(e) => Err(e),
        }
    } else if key == "address"@ {
        match str_of(raw, v) {
            Ok(t) => Ok(Asked { login: Some(t), ..a }),
            Err(e) => Err(e),
        }
    } else if key == "stratum"@ {
        match str_of(raw, v) {
            Ok(t) => Ok(Asked { stratum: Some(t), ..a }),
            Err(e) => Err(e),
        }
    } else if key == "threads"@ {
        match num_of(raw, v, u32::MAX as u64) {
            Ok(n) => Ok(Asked { threads: Some(n as usize), ..a }),
            Err(e) => Err(e),
        }
    } else if key == "batch"@ {
        match num_of(raw, v, u32::MAX as u64) {
            Ok(n) => if 1 <= n <= 32 {
                Ok(Asked { batch: Some(n as usize), ..a })
            } else {
                Err(batch_error(n as usize))
            },
            Err(e) => Err(e),
        }
    } else if key == "cpu-affinity"@ {
        match cpus_of(raw, v) {
            Ok(l) => Ok(Asked { cpus: Some(l), ..a }),
            Err(e) => Err(e),
        }
    } else if key == "cpu-priority"@ {
        match num_of(raw, v, PRIORITY_LEVELS as u64) {
            Ok(n) => Ok(Asked { priority: Some(n as u8), ..a }),
            Err(e) => Err(e),
        }
    } else if key == "huge-pages"@ {
        match bool_of(raw, v) {
            Ok(b) => Ok(
                Asked {
                    pages: Some(
                        if b {
                            Ask::Force
                        } else {
                            Ask::Never
                        },
                    ),
                    ..a
                },
            ),
            Err(e) => Err(e),
        }
    } else if key == "no-huge-pages"@ {
        match bool_of(raw, v) {
            Ok(b) => Ok(
                Asked {
                    pages: Some(
                        if b {
                            Ask::Never
                        } else {
                            Ask::Auto
                        },
                    ),
                    ..a
                },
            ),
            Err(e) => Err(e),
        }
    } else if key == "status"@ {
        match num_of(raw, v, u64::MAX) {
            Ok(n) => Ok(Asked { status_secs: Some(n), ..a }),
            Err(e) => Err(e),
        }
    } else if key == "max-shares"@ {
        match num_of(raw, v, u64::MAX) {
            Ok(n) => Ok(Asked { max_shares: Some(n), ..a }),
            Err(e) => Err(e),
        }
    } else if key == "max-blocks"@ {
        match num_of(raw, v, u64::MAX) {
            Ok(n) => Ok(Asked { max_blocks: Some(n), ..a }),
            Err(e) => Err(e),
        }
    } else if key == "deadline"@ {
        match num_of(raw, v, u64::MAX) {
            Ok(n) => Ok(Asked { deadline_secs: Some(n), ..a }),
            Err(e) => Err(e),
        }
    } else if key == "max-reconnects"@ {
        match num_of(raw, v, u32::MAX as u64) {
            Ok(n) => Ok(Asked { max_reconnects: Some(n as u32), ..a }),
            Err(e) => Err(e),
        }
    } else if key == "no-reconnect"@ {
        match bool_of(raw, v) {
            Ok(b) => Ok(Asked { reconnect: Some(!b), ..a }),
            Err(e) => Err(e),
        }
    } else if key == "verbose"@ {
        match bool_of(raw, v) {
            Ok(b) => Ok(Asked { verbose: Some(b), ..a }),
            Err(e) => Err(e),
        }
    } else if key == "bench"@ {
        match bool_of(raw, v) {
            Ok(b) => Ok(Asked { bench: Some(b), ..a }),
            Err(e) => Err(e),
        }
    } else if key == "bench-seconds"@ {
        match num_of(raw, v, u64::MAX) {
            Ok(n) => Ok(Asked { bench_secs: Some(n), ..a }),
            Err(e) => Err(e),
        }
    } else if key == "print-topology"@ {
        match bool_of(raw, v) {
            Ok(b) => Ok(Asked { print_topology: Some(b), ..a }),
            Err(e) => Err(e),
        }
    } else if key == "grind"@ {
        match str_of(raw, v) {
            Ok(t) => Ok(Asked { grind: Some(t), ..a }),
            Err(e) => Err(e),
        }
    } else if key == "no-pin"@ {
        match bool_of(raw, v) {
            Ok(b) => Ok(Asked { no_pin: Some(b), ..a }),
            Err(e) => Err(e),
        }
    } else if key == "status-format"@ {
        match str_of(raw, v) {
            Ok(t) => formatted(a, t),
            Err(e) => Err(e),
        }
    } else if key == "config"@ {
        Err("a config file cannot reference another config file"@)
    } else {
        Err(
            "unknown key "@ + text::debug_of(raw)
                + ". The keys are the long flags without their `--`; `plaine-miner --help` lists them"@,
        )
    }
}

/// Whether one of the entries before `i` has the key of entry `i`.
pub open spec fn repeats(pairs: Seq<(String, Value)>, i: int) -> bool {
    exists|j: int| 0 <= j < i && key_of((#[trigger] pairs[j]).0@) == key_of(pairs[i].0@)
}

/// What the entries from `i` on ask for, over `a`.
pub open spec fn configured_from(pairs: Seq<(String, Value)>, i: int, a: Asked) -> Reading
    decreases pairs.len() - i,
{
    if i < 0 || i >= pairs.len() {
        Ok(a)
    } else if repeats(pairs, i) {
        Err(text::debug_of(pairs[i].0@) + " is set twice"@)
    } else {
        match configured(a, pairs[i].0@, pairs[i].1) {
            Ok(b) => configured_from(pairs, i + 1, b),
            Err(e) => Err(e),
        }
    }
}

fn want(raw: &str, what: &str, v: &Value) -> (e: String)
    ensures
        e@ == wants(raw@, what@, *v),
{
    let mut e = debug_text(raw);
    e.append(" takes ");
    e.append(what);
    e.append(", not ");
    e.append(v.kind());
    e
}

fn get_num(raw: &str, v: &Value, max: u64) -> (r: Result<u64, String>)
    ensures
        r matches Ok(n) ==> num_of(raw@, *v, max) == Ok::<u64, Seq<char>>(n) && n <= max,
        r matches Err(e) ==> num_of(raw@, *v, max) == Err::<u64, Seq<char>>(e@),
{
    match v {
        Value::Num(n) => if *n <= max {
            Ok(*n)
        } else {
            let mut e = debug_text(raw);
            e.append(" is ");
            push_dec(&mut e, *n);
            e.append(", which is out of range");
            Err(e)
        },
        _ => Err(want(raw, "a number", v)),
    }
}

fn get_bool(raw: &str, v: &Value) -> (r: Result<bool, String>)
    ensures
        r matches Ok(b) ==> bool_of(raw@, *v) == Ok::<bool, Seq<char>>(b),
        r matches Err(e) ==> bool_of(raw@, *v) == Err::<bool, Seq<char>>(e@),
{
    match v {
        Value::Bool(b) => Ok(*b),
        _ => Err(want(raw, "true or false", v)),
    }
}

fn get_str(raw: &str, v: &Value) -> (r: Result<String, String>)
    ensures
        r matches Ok(t) ==> str_of(raw@, *v) == Ok::<Seq<char>, Seq<char>>(t@),
        r matches Err(e) ==> str_of(raw@, *v) == Err::<Seq<char>, Seq<char>>(e@),
{
    match v {
        Value::Str(s) => Ok(s.clone()),
        _ => Err(want(raw, "a string", v)),
    }
}

fn join(v: &[u64]) -> (t: String)
    ensures
        t@ == joined(v@),
{
    let mut t = String::new();
    let mut i: usize = 0;
    assert(v@.take(0) =~= Seq::<u64>::empty());
    assert(t@ =~= joined(v@.take(0)));
    while i < v.len()
        invariant
            i <= v.len(),
            t@ == joined(v@.take(i as int)),
        decreases v.len() - i,
    {
        assert(v@.take(i + 1).drop_last() =~= v@.take(i as int));
        if i > 0 {
            t.append(",");
        }
        push_dec(&mut t, v[i]);
        i += 1;
        assert(t@ =~= joined(v@.take(i as int)));
    }
    assert(v@.take(i as int) =~= v@);
    t
}

fn get_cpus(raw: &str, v: &Value) -> (r: Result<Vec<usize>, String>)
    ensures
        r matches Ok(l) ==> cpus_of(raw@, *v) == Ok::<Seq<usize>, Seq<char>>(l@),
        r matches Err(e) ==> cpus_of(raw@, *v) == Err::<Seq<usize>, Seq<char>>(e@),
{
    match v {
        Value::Str(s) => parse_cpu_list(s),
        Value::List(l) => parse_cpu_list(&join(l)),
        _ => Err(want(raw, "a string like \"0-3,8-11\" or an array like [0,2,4]", v)),
    }
}


fn set_entry(p: &mut Partial, raw: &str, v: &Value) -> (r: Result<(), String>)
    ensures
        r is Ok ==> configured(old(p)@, raw@, *v) == Ok::<Asked, Seq<char>>(final(p)@),
        r matches Err(e) ==> configured(old(p)@, raw@, *v) == Err::<Asked, Seq<char>>(e@),
{
    let ghost a = p@;
    let key = normal_key(raw);
    if same(&key, "url") {
        return match get_str(raw, v) {
            Ok(t) => set_pool(p, &t),
            Err(e) => Err(e),
        };
    }
    if same(&key, "address") {
        match get_str(raw, v) {
            Ok(t) => {
                p.login = Some(t);
                assert(p@ =~= (Asked { login: Some(t@), ..a }));
            },
            Err(e) => {
                return Err(e);
            },
        }
        return Ok(());
    }
    if same(&key, "stratum") {
        match get_str(raw, v) {
            Ok(t) => {
                p.stratum = Some(t);
                assert(p@ =~= (Asked { stratum: Some(t@), ..a }));
            },
            Err(e) => {
                return Err(e);
            },
        }
        return Ok(());
    }
    if same(&key, "threads") {
        match get_num(raw, v, u32::MAX as u64) {
            Ok(n) => {
                p.threads = Some(n as usize);
                assert(p@ =~= (Asked { threads: Some(n as usize), ..a }));
            },
            Err(e) => {
                return Err(e);
            },
        }
        return Ok(());
    }
    if same(&key, "batch") {
        match get_num(raw, v, u32::MAX as u64) {
            Ok(n) => match batch::check(n as usize) {
                Ok(b) => {
                    p.batch = Some(b);
                    assert(p@ =~= (Asked { batch: Some(b), ..a }));
                },
                Err(e) => {
                    return Err(e);
                },
            },
            Err(e) => {
                return Err(e);
            },
        }
        return Ok(());
    }
    if same(&key, "cpu-affinity") {
        match get_cpus(raw, v) {
            Ok(l) => {
                p.cpus = Some(l);
                assert(p@ =~= (Asked { cpus: Some(l@), ..a }));
            },
            Err(e) => {
                return Err(e);
            },
        }
        return Ok(());
    }
    if same(&key, "cpu-priority") {
        match get_num(raw, v, PRIORITY_LEVELS as u64) {
            Ok(n) => {
                p.priority = Some(n as u8);
                assert(p@ =~= (Asked { priority: Some(n as u8), ..a }));
            },
            Err(e) => {
                return Err(e);
            },
        }
        return Ok(());
    }
    if same(&key, "huge-pages") {
        match get_bool(raw, v) {
            Ok(b) => {
                let ask = if b {
                    Ask::Force
                } else {
                    Ask::Never
                };
                p.pages = Some(ask);
                assert(p@ =~= (Asked { pages: Some(ask), ..a }));
            },
            Err(e) => {
                return Err(e);
            },
        }
        return Ok(());
    }
    if same(&key, "no-huge-pages") {
        match get_bool(raw, v) {
            Ok(b) => {
                let ask = if b {
                    Ask::Never
                } else {
                    Ask::Auto
                };
                p.pages = Some(ask);
                assert(p@ =~= (Asked { pages: Some(ask), ..a }));
            },
            Err(e) => {
                return Err(e);
            },
        }
        return Ok(());
    }
    if same(&key, "status") {
        match get_num(raw, v, u64::MAX) {
            Ok(n) => {
                p.status_secs = Some(n);
                assert(p@ =~= (Asked { status_secs: Some(n), ..a }));
            },
            Err(e) => {
                return Err(e);
            },
        }
        return Ok(());
    }
    if same(&key, "max-shares") {
        match get_num(raw, v, u64::MAX) {
            Ok(n) => {
                p.max_shares = Some(n);
                assert(p@ =~= (Asked { max_shares: Some(n), ..a }));
            },
            Err(e) => {
                return Err(e);
            },
        }
        return Ok(());
    }
    if same(&key, "max-blocks") {
        match get_num(raw, v, u64::MAX) {
            Ok(n) => {
                p.max_blocks = Some(n);
                assert(p@ =~= (Asked { max_blocks: Some(n), ..a }));
            },
            Err(e) => {
                return Err(e);
            },
        }
        return Ok(());
    }
    if same(&key, "deadline") {
        match get_num(raw, v, u64::MAX) {
            Ok(n) => {
                p.deadline_secs = Some(n);
                assert(p@ =~= (Asked { deadline_secs: Some(n), ..a }));
            },
            Err(e) => {
                return Err(e);
            },
        }
        return Ok(());
    }
    if same(&key, "max-reconnects") {
        match get_num(raw, v, u32::MAX as u64) {
            Ok(n) => {
                p.max_reconnects = Some(n as u32);
                assert(p@ =~= (Asked { max_reconnects: Some(n as u32), ..a }));
            },
            Err(e) => {
                return Err(e);
            },
        }
        return Ok(());
    }
    if same(&key, "no-reconnect") {
        match get_bool(raw, v) {
            Ok(b) => {
                p.reconnect = Some(!b);
                assert(p@ =~= (Asked { reconnect: Some(!b), ..a }));
            },
            Err(e) => {
                return Err(e);
            },
        }
        return Ok(());
    }
    if same(&key, "verbose") {
        match get_bool(raw, v) {
            Ok(b) => {
                p.verbose = Some(b);
                assert(p@ =~= (Asked { verbose: Some(b), ..a }));
            },
            Err(e) => {
                return Err(e);
            },
        }
        return Ok(());
    }
    if same(&key, "bench") {
        match get_bool(raw, v) {
            Ok(b) => {
                p.bench = Some(b);
                assert(p@ =~= (Asked { bench: Some(b), ..a }));
            },
            Err(e) => {
                return Err(e);
            },
        }
        return Ok(());
    }
    if same(&key, "bench-seconds") {
        match get_num(raw, v, u64::MAX) {
            Ok(n) => {
                p.bench_secs = Some(n);
                assert(p@ =~= (Asked { bench_secs: Some(n), ..a }));
            },
            Err(e) => {
                return Err(e);
            },
        }
        return Ok(());
    }
    if same(&key, "print-topology") {
        match get_bool(raw, v) {
            Ok(b) => {
                p.print_topology = Some(b);
                assert(p@ =~= (Asked { print_topology: Some(b), ..a }));
            },
            Err(e) => {
                return Err(e);
            },
        }
        return Ok(());
    }
    if same(&key, "grind") {
        match get_str(raw, v) {
            Ok(t) => {
                p.grind = Some(t);
                assert(p@ =~= (Asked { grind: Some(t@), ..a }));
            },
            Err(e) => {
                return Err(e);
            },
        }
        return Ok(());
    }
    if same(&key, "no-pin") {
        match get_bool(raw, v) {
            Ok(b) => {
                p.no_pin = Some(b);
                assert(p@ =~= (Asked { no_pin: Some(b), ..a }));
            },
            Err(e) => {
                return Err(e);
            },
        }
        return Ok(());
    }
    if same(&key, "status-format") {
        return match get_str(raw, v) {
            Ok(t) => set_format(p, &t),
            Err(e) => Err(e),
        };
    }
    if same(&key, "config") {
        return Err("a config file cannot reference another config file".to_owned());
    }
    let mut e = "unknown key ".to_owned();
    e.append(&debug_text(raw));
    e.append(
        ". The keys are the long flags without their `--`; `plaine-miner --help` lists them",
    );
    Err(e)
}

/// What the entries of a configuration file ask for. A key that is set twice,
/// or that is not known, is refused.
pub fn from_config(pairs: &[(String, Value)]) -> (r: Result<Partial, String>)
    ensures
        r matches Ok(p) ==> configured_from(pairs@, 0, nothing_asked()) == Ok::<Asked, Seq<char>>(
            p@,
        ),
        r matches Err(e) ==> configured_from(pairs@, 0, nothing_asked()) == Err::<
            Asked,
            Seq<char>,
        >(e@),
{
    let mut p = Partial::default();
    let mut i: usize = 0;
    while i < pairs.len()
        invariant
            i <= pairs.len(),
            configured_from(pairs@, 0, nothing_asked()) == configured_from(
                pairs@,
                i as int,
                p@,
            ),
        decreases pairs.len() - i,
    {
        let key = normal_key(&pairs[i].0);
        let mut j: usize = 0;
        while j < i
            invariant
                j <= i < pairs.len(),
                key@ == key_of(pairs@[i as int].0@),
                forall|k: int| 0 <= k < j ==> key_of((#[trigger] pairs@[k]).0@) != key@,
                configured_from(pairs@, 0, nothing_asked()) == configured_from(
                    pairs@,
                    i as int,
                    p@,
                ),
            decreases i - j,
        {
            if same(&normal_key(&pairs[j].0), &key) {
                assert(repeats(pairs@, i as int));
                let mut e = debug_text(&pairs[i].0);
                e.append(" is set twice");
                return Err(e);
            }
            j += 1;
        }
        assert(!repeats(pairs@, i as int));
        match set_entry(&mut p, &pairs[i].0, &pairs[i].1) {
            Ok(_) => {},
            Err(e) => {
                return Err(e);
            },
        }
        i += 1;
    }
    Ok(p)
}

// ---------------------------------------------------------------------------
// Everything together

/// How many workers are asked for: one for each processor of a pin list, or
/// the number that was given, but at least one, or one for each processor.
pub open spec fn workers_asked(p: Asked, machine: usize) -> usize {
    match p.cpus {
        Some(l) => l.len() as usize,
        None => match p.threads {
            Some(n) => if n == 0 {
                1
            } else {
                n
            },
            None => machine,
        },
    }
}

/// How many workers there will be: no more than there are nonce lanes.
pub open spec fn workers_used(p: Asked, machine: usize) -> usize {
    if workers_asked(p, machine) > MAX_WORKERS {
        MAX_WORKERS
    } else {
        workers_asked(p, machine)
    }
}

pub open spec fn lanes_note(n: usize) -> Seq<char> {
    text::dec(n as nat)
        + " workers asked for, 256 used: a worker owns one of 256 nonce lanes, and              workers past that repeat an earlier lane's nonces, which the server counts as              duplicate shares and bans for"@
}

/// What is noted about the number of workers.
pub open spec fn worker_notes(p: Asked, machine: usize) -> Seq<Seq<char>> {
    (if p.threads == Some(0usize) {
        seq!["--threads 0 means one worker"@]
    } else {
        Seq::empty()
    }) + (if workers_asked(p, machine) > MAX_WORKERS {
        seq![lanes_note(workers_asked(p, machine))]
    } else {
        Seq::empty()
    })
}

/// What the program is to do: the map comes before the benchmark, and that
/// before the grind.
pub open spec fn is_action(a: Action, p: Asked) -> bool {
    if p.print_topology == Some(true) {
        a is PrintTopology
    } else if p.bench == Some(true) {
        a is Bench
    } else {
        match p.grind {
            Some(h) => a matches Action::Grind(g) && g@ == h,
            None => a is Mine,
        }
    }
}

pub open spec fn or_else<T>(a: Option<T>, b: T) -> T {
    match a {
        Some(x) => x,
        None => b,
    }
}

/// Whether the arguments of a run are those that were asked for.
pub open spec fn is_client(c: Args, p: Asked, machine: usize) -> bool {
    &&& c.stratum@ == or_else(p.stratum, "127.0.0.1:9258"@)
    &&& c.login@ == or_else(p.login, ""@)
    &&& c.threads == workers_used(p, machine)
    &&& c.max_shares == or_else(p.max_shares, 0)
    &&& c.max_blocks == or_else(p.max_blocks, 0)
    &&& c.deadline_secs == or_else(p.deadline_secs, 0)
    &&& c.verbose == or_else(p.verbose, false)
    &&& c.reconnect == or_else(p.reconnect, true)
    &&& c.max_reconnects == or_else(p.max_reconnects, 0)
    &&& c.status_secs == or_else(p.status_secs, 10)
    &&& c.silence_deadline_ms == ladder::SERVER_SILENCE_DEADLINE
    &&& c.huge_pages == (or_else(p.pages, Ask::Auto) != Ask::Never)
    &&& c.pins is None
    &&& c.status_format == or_else(p.status_format, Format::Text)
}

/// Whether options are those that were asked for.
pub open spec fn is_options(
    o: Options,
    p: Asked,
    path: Option<Seq<char>>,
    machine: usize,
) -> bool {
    &&& is_action(o.action, p)
    &&& is_client(o.client, p, machine)
    &&& list_view(o.cpus) == p.cpus
    &&& o.priority == p.priority
    &&& o.pages == or_else(p.pages, Ask::Auto)
    &&& o.bench_secs == or_else(p.bench_secs, DEFAULT_BENCH_SECS)
    &&& text_view(o.config_path) == path
    &&& o.batch == p.batch
    &&& o.no_pin == or_else(p.no_pin, false)
}

/// Whether two settings contradict each other.
pub open spec fn contradicts(p: Asked) -> bool {
    p.threads is Some && p.cpus is Some
}

/// What is wrong with what is asked for, if anything is.
pub open spec fn fault(p: Asked) -> Option<Seq<char>> {
    if contradicts(p) {
        Some(
            "--threads and --cpu-affinity conflict: --threads N asks for N workers wherever the OS puts them, --cpu-affinity LIST asks for one worker per named CPU and already says how many. Use one."@,
        )
    } else if p.priority matches Some(n) && n > PRIORITY_LEVELS {
        Some(priority_error(p.priority->Some_0 as nat))
    } else if p.bench_secs == Some(0u64) {
        Some("--bench-seconds needs at least 1"@)
    } else {
        None
    }
}

pub open spec fn notes_view(v: Seq<String>) -> Seq<Seq<char>> {
    Seq::new(v.len(), |k: int| v[k]@)
}

fn value_or<T>(a: Option<T>, b: T) -> (r: T)
    ensures
        r == or_else(a, b),
{
    match a {
        Some(x) => x,
        None => b,
    }
}

/// How many workers there will be, with what is to be said of their number.
fn count_workers(p: &Partial, machine: usize, notes: &mut Vec<String>) -> (threads: usize)
    ensures
        threads == (if workers_asked(p@, machine) > MAX_WORKERS {
            MAX_WORKERS as int
        } else {
            workers_asked(p@, machine) as int
        }),
        notes_view(final(notes)@) == notes_view(old(notes)@) + worker_notes(p@, machine),
{
    let ghost a = p@;
    let ghost before = notes_view(notes@);
    let asked: usize = match &p.cpus {
        Some(l) => l.len(),
        None => match p.threads {
            Some(n) => if n == 0 {
                1
            } else {
                n
            },
            None => machine,
        },
    };
    let zero: bool = match p.threads {
        Some(n) => n == 0,
        None => false,
    };
    if zero {
        let m = "--threads 0 means one worker".to_owned();
        notes.push(m);
        assert(notes_view(notes@) =~= before.push(m@));
    }
    let ghost mid = notes_view(notes@);
    let mut threads: usize = asked;
    if asked > MAX_WORKERS {
        threads = MAX_WORKERS;
        let mut m = text::dec_of(asked as u64);
        m.append(
            " workers asked for, 256 used: a worker owns one of 256 nonce lanes, and              workers past that repeat an earlier lane's nonces, which the server counts as              duplicate shares and bans for",
        );
        notes.push(m);
        assert(notes_view(notes@) =~= mid.push(m@));
    }
    assert(notes_view(notes@) =~= before + worker_notes(a, machine));
    threads
}

/// Fills in the defaults and refuses what contradicts itself. `machine` is how
/// many threads the machine can run at once.
pub fn resolve(
    p: Partial,
    config_path: Option<String>,
    machine: usize,
    notes: &mut Vec<String>,
) -> (r: Result<Options, String>)
    ensures
        r is Ok <==> fault(p@) is None,
        r matches Ok(o) ==> is_options(o, p@, text_view(config_path), machine),
        r matches Err(e) ==> fault(p@) == Some(e@),
        notes_view(final(notes)@) == notes_view(old(notes)@) + (if contradicts(p@) {
            Seq::empty()
        } else {
            worker_notes(p@, machine)
        }),
{
    let ghost before = notes_view(notes@);
    if p.threads.is_some() && p.cpus.is_some() {
        assert(notes_view(notes@) =~= before + Seq::empty());
        return Err(
            "--threads and --cpu-affinity conflict: --threads N asks for N workers wherever the OS puts them, --cpu-affinity LIST asks for one worker per named CPU and already says how many. Use one.".to_owned(),
        );
    }
    let threads: usize = count_workers(&p, machine, notes);
    let action = if value_or(p.print_topology, false) {
        Action::PrintTopology
    } else if value_or(p.bench, false) {
        Action::Bench
    } else {
        match p.grind {
            Some(h) => Action::Grind(h),
            None => Action::Mine,
        }
    };
    match p.priority {
        Some(level) => {
            if level > PRIORITY_LEVELS {
                let mut e = "--cpu-priority takes 0..5, not ".to_owned();
                push_dec(&mut e, level as u64);
                e.append(" (0 idle, 2 normal, 5 highest)");
                return Err(e);
            }
        },
        None => {},
    }
    let bench_secs: u64 = value_or(p.bench_secs, DEFAULT_BENCH_SECS);
    if bench_secs == 0 {
        return Err("--bench-seconds needs at least 1".to_owned());
    }
    let pages: Ask = value_or(p.pages, Ask::Auto);
    let client = Args {
        stratum: match p.stratum {
            Some(t) => t,
            None => "127.0.0.1:9258".to_owned(),
        },
        login: match p.login {
            Some(t) => t,
            None => "".to_owned(),
        },
        threads,
        max_shares: value_or(p.max_shares, 0),
        max_blocks: value_or(p.max_blocks, 0),
        deadline_secs: value_or(p.deadline_secs, 0),
        verbose: value_or(p.verbose, false),
        reconnect: value_or(p.reconnect, true),
        max_reconnects: value_or(p.max_reconnects, 0),
        status_secs: value_or(p.status_secs, 10),
        silence_deadline_ms: ladder::SERVER_SILENCE_DEADLINE,
        huge_pages: pages.wanted(),
        pins: None,
        status_format: value_or(p.status_format, Format::Text),
    };
    Ok(
        Options {
            action,
            client,
            cpus: p.cpus,
            priority: p.priority,
            pages,
            bench_secs,
            config_path,
            batch: p.batch,
            no_pin: value_or(p.no_pin, false),
        },
    )
}

/// What came of reading the configuration file.
#[derive(Debug)]
pub enum Config {
    /// It could not be read; the error.
    Unreadable(String),
    /// It could not be understood; the error.
    Malformed(String),
    /// Its entries.
    Pairs(Vec<(String, Value)>),
}

/// What the file asks for, or what is wrong with it.
pub open spec fn file_asks(path: Seq<char>, c: Config) -> Reading {
    match c {
        Config::Unreadable(e) => Err("--config "@ + path + ": "@ + e@),
        Config::Malformed(e) => Err(path + ": "@ + e@),
        Config::Pairs(v) => match configured_from(v@, 0, nothing_asked()) {
            Ok(a) => Ok(a),
            Err(e) => Err(path + ": "@ + e),
        },
    }
}

/// The command line over the file. The two ways to say how many workers there
/// are displace each other.
pub open spec fn merged(cli: Asked, file: Asked) -> Asked {
    let m = over(cli, file);
    Asked {
        threads: if cli.cpus is Some {
            cli.threads
        } else {
            m.threads
        },
        cpus: if cli.threads is Some {
            cli.cpus
        } else {
            m.cpus
        },
        ..m
    }
}

/// What is noted where the command line displaces what the file says.
pub open spec fn displaced(cli: Asked, file: Asked, path: Seq<char>) -> Seq<Seq<char>> {
    (if file.threads is Some && cli.cpus is Some {
        seq!["--cpu-affinity on the command line overrides \"threads\" from "@ + path]
    } else {
        Seq::empty()
    }) + (if file.cpus is Some && cli.threads is Some {
        seq!["--threads on the command line overrides \"cpu-affinity\" from "@ + path]
    } else {
        Seq::empty()
    })
}

/// What is asked for in all: the command line alone, or over its file.
pub open spec fn all_asked(cli: Asked, c: Config) -> Reading {
    match cli.config {
        None => Ok(merged(cli, nothing_asked())),
        Some(path) => match file_asks(path, c) {
            Ok(f) => Ok(merged(cli, f)),
            Err(e) => Err(e),
        },
    }
}

/// Whether options are the plain ones with this action.
pub open spec fn is_plain(o: Options, machine: usize) -> bool {
    &&& o.client.is_plain(machine)
    &&& o.cpus is None
    &&& o.priority is None
    &&& o.pages == Ask::Auto
    &&& o.bench_secs == DEFAULT_BENCH_SECS
    &&& o.config_path is None
    &&& o.batch is None
    &&& !o.no_pin
}

fn plain(action: Action, machine: usize) -> (o: Options)
    ensures
        is_plain(o, machine),
        o.action == action,
{
    Options {
        action,
        client: Args::for_machine(machine),
        cpus: None,
        priority: None,
        pages: Ask::Auto,
        bench_secs: DEFAULT_BENCH_SECS,
        config_path: None,
        batch: None,
        no_pin: false,
    }
}

fn read_file(path: &str, c: Config) -> (r: Result<Partial, String>)
    ensures
        r matches Ok(p) ==> file_asks(path@, c) == Ok::<Asked, Seq<char>>(p@),
        r matches Err(e) ==> file_asks(path@, c) == Err::<Asked, Seq<char>>(e@),
{
    match c {
        Config::Unreadable(e) => {
            let mut t = "--config ".to_owned();
            t.append(path);
            t.append(": ");
            t.append(&e);
            Err(t)
        },
        Config::Malformed(e) => {
            let mut t = path.to_owned();
            t.append(": ");
            t.append(&e);
            Err(t)
        },
        Config::Pairs(v) => match from_config(&v) {
            Ok(p) => Ok(p),
            Err(e) => {
                let mut t = path.to_owned();
                t.append(": ");
                t.append(&e);
                Err(t)
            },
        },
    }
}

fn merge(cli: Partial, file: Partial) -> (m: Partial)
    ensures
        m@ == merged(cli@, file@),
{
    let ghost c = cli@;
    let ghost f = file@;
    let mut file = file;
    if cli.cpus.is_some() {
        file.threads = None;
    }
    if cli.threads.is_some() {
        file.cpus = None;
    }
    let m = cli.under(file);
    assert(m@ =~= merged(c, f));
    m
}

fn note_displaced(cli: &Partial, file: &Partial, path: &str, notes: &mut Vec<String>)
    ensures
        notes_view(final(notes)@) == notes_view(old(notes)@) + displaced(cli@, file@, path@),
{
    let ghost before = notes_view(notes@);
    if file.threads.is_some() && cli.cpus.is_some() {
        let mut m = "--cpu-affinity on the command line overrides \"threads\" from ".to_owned();
        m.append(path);
        notes.push(m);
        assert(notes_view(notes@) =~= before.push(m@));
    }
    let ghost mid = notes_view(notes@);
    if file.cpus.is_some() && cli.threads.is_some() {
        let mut m = "--threads on the command line overrides \"cpu-affinity\" from ".to_owned();
        m.append(path);
        notes.push(m);
        assert(notes_view(notes@) =~= mid.push(m@));
    }
    assert(notes_view(notes@) =~= before + displaced(cli@, file@, path@));
}

/// What is noted on the way from the command line to the options.
pub open spec fn all_notes(cli: Asked, config: Config, machine: usize) -> Seq<Seq<char>> {
    match all_asked(cli, config) {
        Err(_) => Seq::empty(),
        Ok(p) => (match cli.config {
            Some(path) => displaced(cli, file_asks(path, config)->Ok_0, path),
            None => Seq::empty(),
        }) + (if contradicts(p) {
            Seq::empty()
        } else {
            worker_notes(p, machine)
        }),
    }
}

/// The options of a command line, over the file that it names.
fn combine(cli: Partial, config: Config, machine: usize, notes: &mut Vec<String>) -> (r: Result<
    Options,
    String,
>)
    ensures
        match all_asked(cli@, config) {
            Err(e) => r matches Err(t) && t@ == e,
            Ok(p) => {
                &&& r is Ok <==> fault(p) is None
                &&& r matches Ok(o) ==> is_options(o, p, cli@.config, machine)
                &&& r matches Err(t) ==> fault(p) == Some(t@)
            },
        },
        notes_view(final(notes)@) == notes_view(old(notes)@) + all_notes(cli@, config, machine),
{
    let ghost c = cli@;
    let ghost before = notes_view(notes@);
    match &cli.config {
        None => {
            assert(before + (Seq::<Seq<char>>::empty() + (if contradicts(
                merged(c, nothing_asked()),
            ) {
                Seq::empty()
            } else {
                worker_notes(merged(c, nothing_asked()), machine)
            })) =~= before + (if contradicts(merged(c, nothing_asked())) {
                Seq::empty()
            } else {
                worker_notes(merged(c, nothing_asked()), machine)
            }));
            resolve(merge(cli, Partial::default()), None, machine, notes)
        },
        Some(t) => {
            let path = t.clone();
            let file = match read_file(&path, config) {
                Ok(p) => p,
                Err(e) => {
                    assert(before + Seq::<Seq<char>>::empty() =~= before);
                    return Err(e);
                },
            };
            note_displaced(&cli, &file, &path, notes);
            let ghost d = displaced(c, file@, path@);
            let m = merge(cli, file);
            let ghost w = if contradicts(m@) {
                Seq::empty()
            } else {
                worker_notes(m@, machine)
            };
            assert((before + d) + w =~= before + (d + w));
            resolve(m, Some(path), machine, notes)
        },
    }
}

/// Everything that was asked for. `config` is what came of reading the file
/// that the command line names; where it names none it is not looked at.
pub fn parse(argv: &[String], config: Config, machine: usize, notes: &mut Vec<String>) -> (r:
    Result<Options, String>)
    ensures
        match asked_from(argv_view(argv@), 0, nothing_asked()) {
            Err(e) => r matches Err(t) && t@ == e && final(notes)@ == old(notes)@,
            Ok(cli) => if cli.help {
                r matches Ok(o) && o.action is Help && is_plain(o, machine) && final(notes)@
                    == old(notes)@
            } else if cli.version {
                r matches Ok(o) && o.action is Version && is_plain(o, machine) && final(notes)@
                    == old(notes)@
            } else {
                &&& match all_asked(cli, config) {
                    Err(e) => r matches Err(t) && t@ == e,
                    Ok(p) => {
                        &&& r is Ok <==> fault(p) is None
                        &&& r matches Ok(o) ==> is_options(o, p, cli.config, machine)
                        &&& r matches Err(t) ==> fault(p) == Some(t@)
                    },
                }
                &&& notes_view(final(notes)@) == notes_view(old(notes)@) + all_notes(
                    cli,
                    config,
                    machine,
                )
            },
        },
{
    let cli = match parse_argv(argv) {
        Ok(p) => p,
        Err(e) => {
            return Err(e);
        },
    };
    if cli.help {
        return Ok(plain(Action::Help, machine));
    }
    if cli.version {
        return Ok(plain(Action::Version, machine));
    }
    combine(cli, config, machine, notes)
}

/// A pin list on the command line displaces a thread count in the file, and
/// the other way round, so that the two never contradict each other: only one
/// source can contradict itself.
pub proof fn law_sources_do_not_contradict(cli: Asked, file: Asked)
    requires
        !contradicts(cli),
        !contradicts(file),
    ensures
        !contradicts(merged(cli, file)),
{
}

/// However many workers are asked for, none walks the nonces of another.
pub proof fn law_workers_fit_the_lanes(p: Asked, machine: usize)
    ensures
        workers_used(p, machine) <= MAX_WORKERS,
        workers_asked(p, machine) <= MAX_WORKERS ==> workers_used(p, machine) == workers_asked(
            p,
            machine,
        ),
{
}

// ---------------------------------------------------------------------------
// What each argument sets

/// What the argument `raw` asks for over `a`, where `next` stands behind it, and
/// how many arguments that takes.
#[verifier::opaque]
spec fn one_asked(raw: Seq<char>, next: Option<Seq<char>>, a: Asked) -> Result<
    (Asked, int),
    Seq<char>,
> {
    let name = name_of(raw);
    match switched(a, name) {
        Some(b) => Ok((b, 1)),
        None => match takes(name) {
            Some(what) => if has_inline(raw) {
                match flagged(a, name, text::behind(raw, '=')) {
                    Ok(b) => Ok((b, 1)),
                    Err(e) => Err(e),
                }
            } else {
                match next {
                    None => Err(name + " needs "@ + what),
                    Some(v) => match flagged(a, name, v) {
                        Ok(b) => Ok((b, 2)),
                        Err(e) => Err(e),
                    },
                }
            },
            None => if name.len() > 0 && name[0] == '-' {
                Err("unknown argument "@ + text::debug_of(name))
            } else {
                match pooled(a, name) {
                    Ok(b) => Ok((b, 1)),
                    Err(e) => Err(e),
                }
            },
        },
    }
}

spec fn behind_of(argv: Seq<Seq<char>>, i: int) -> Option<Seq<char>> {
    if i + 1 < argv.len() {
        Some(argv[i + 1])
    } else {
        None
    }
}

proof fn lemma_one_asked(argv: Seq<Seq<char>>, i: int, a: Asked)
    requires
        0 <= i < argv.len(),
    ensures
        asked_from(argv, i, a) == (match one_asked(argv[i], behind_of(argv, i), a) {
            Ok((b, n)) => asked_from(argv, i + n, b),
            Err(e) => Err(e),
        }),
        one_asked(argv[i], behind_of(argv, i), a) matches Ok((b, n)) ==> 1 <= n <= 2 && i + n
            <= argv.len(),
{
    reveal(one_asked);
}

/// What one argument takes does not change where something stands behind it.
proof fn lemma_value_behind(raw: Seq<char>, next: Option<Seq<char>>, a: Asked)
    requires
        one_asked(raw, None, a) is Ok,
    ensures
        one_asked(raw, next, a) == one_asked(raw, None, a),
        one_asked(raw, None, a)->Ok_0.1 == 1,
{
    reveal(one_asked);
}

/// Arguments are read from the front: what stands behind a command line that is
/// understood is read over what that asks for.
pub proof fn law_arguments_behind_are_read_over_those_before(
    argv: Seq<Seq<char>>,
    more: Seq<Seq<char>>,
    i: int,
    a: Asked,
)
    requires
        0 <= i <= argv.len(),
        asked_from(argv, i, a) is Ok,
    ensures
        asked_from(argv + more, i, a) == asked_from(more, 0, asked_from(argv, i, a)->Ok_0),
    decreases argv.len() - i,
{
    let all = argv + more;
    if i == argv.len() {
        lemma_asked_skip(argv, more, 0, a);
    } else {
        assert(all[i] == argv[i]);
        lemma_one_asked(argv, i, a);
        lemma_one_asked(all, i, a);
        if i + 1 < argv.len() {
            assert(all[i + 1] == argv[i + 1]);
        } else {
            lemma_value_behind(argv[i], behind_of(all, i), a);
        }
        let (b, n) = one_asked(argv[i], behind_of(argv, i), a)->Ok_0;
        law_arguments_behind_are_read_over_those_before(argv, more, i + n, b);
    }
}

proof fn lemma_asked_skip(argv: Seq<Seq<char>>, more: Seq<Seq<char>>, k: int, a: Asked)
    requires
        0 <= k <= more.len(),
    ensures
        asked_from(argv + more, argv.len() + k, a) == asked_from(more, k, a),
    decreases more.len() - k,
{
    let all = argv + more;
    let i = argv.len() + k;
    if k < more.len() {
        assert(all[i] == more[k]);
        assert(k + 1 < more.len() ==> all[i + 1] == more[k + 1]);
        lemma_one_asked(all, i, a);
        lemma_one_asked(more, k, a);
        match one_asked(more[k], behind_of(more, k), a) {
            Ok((b, n)) => {
                lemma_asked_skip(argv, more, k + n, b);
            },
            Err(_) => {},
        }
    }
}

/// What tells the names apart: how long a text is, how it ends, and what stands in
/// its middle.
spec fn mark(s: Seq<char>) -> (nat, char, char) {
    (s.len(), s[s.len() - 1], s[s.len() as int / 2])
}

/// No two names of arguments have the same mark.
proof fn lemma_flags_differ()
    ensures
        mark("-h"@) == (2nat, 'h', 'h'),
        mark("--help"@) == (6nat, 'p', 'e'),
        mark("-V"@) == (2nat, 'V', 'V'),
        mark("--version"@) == (9nat, 'n', 'r'),
        mark("-v"@) == (2nat, 'v', 'v'),
        mark("--verbose"@) == (9nat, 'e', 'r'),
        mark("--huge-pages"@) == (12nat, 's', '-'),
        mark("--no-huge-pages"@) == (15nat, 's', 'g'),
        mark("--print-topology"@) == (16nat, 'y', 't'),
        mark("--bench"@) == (7nat, 'h', 'e'),
        mark("--no-reconnect"@) == (14nat, 't', 'c'),
        mark("--no-pin"@) == (8nat, 'n', '-'),
        mark("--address"@) == (9nat, 's', 'd'),
        mark("--stratum"@) == (9nat, 'm', 'r'),
        mark("--config"@) == (8nat, 'g', 'n'),
        mark("--grind"@) == (7nat, 'd', 'r'),
        mark("--cpu-affinity"@) == (14nat, 'y', 'f'),
        mark("--status-format"@) == (15nat, 't', 's'),
        mark("--threads"@) == (9nat, 's', 'r'),
        mark("--cpu-priority"@) == (14nat, 'y', 'r'),
        mark("--batch"@) == (7nat, 'h', 'a'),
        mark("--bench-seconds"@) == (15nat, 's', '-'),
        mark("--max-shares"@) == (12nat, 's', 's'),
        mark("--max-blocks"@) == (12nat, 's', 'b'),
        mark("--deadline"@) == (10nat, 'e', 'd'),
        mark("--max-reconnects"@) == (16nat, 's', 'c'),
        mark("--status"@) == (8nat, 's', 'a'),
{
    reveal_strlit("-h");
    reveal_strlit("--help");
    reveal_strlit("-V");
    reveal_strlit("--version");
    reveal_strlit("-v");
    reveal_strlit("--verbose");
    reveal_strlit("--huge-pages");
    reveal_strlit("--no-huge-pages");
    reveal_strlit("--print-topology");
    reveal_strlit("--bench");
    reveal_strlit("--no-reconnect");
    reveal_strlit("--no-pin");
    reveal_strlit("--address");
    reveal_strlit("--stratum");
    reveal_strlit("--config");
    reveal_strlit("--grind");
    reveal_strlit("--cpu-affinity");
    reveal_strlit("--status-format");
    reveal_strlit("--threads");
    reveal_strlit("--cpu-priority");
    reveal_strlit("--batch");
    reveal_strlit("--bench-seconds");
    reveal_strlit("--max-shares");
    reveal_strlit("--max-blocks");
    reveal_strlit("--deadline");
    reveal_strlit("--max-reconnects");
    reveal_strlit("--status");
}

proof fn lemma_no_inline(name: Seq<char>)
    requires
        forall|k: int| 0 <= k < name.len() ==> name[k] != '=',
    ensures
        name_of(name) == name,
        !has_inline(name),
{
    text::lemma_index(name, '=', 0);
}

/// What the arguments ask for over `a`.
#[verifier::opaque]
spec fn read_all(argv: Seq<Seq<char>>, a: Asked) -> Reading {
    asked_from(argv, 0, a)
}

proof fn lemma_one_switch(name: Seq<char>, a: Asked)
    requires
        forall|k: int| 0 <= k < name.len() ==> name[k] != '=',
        switched(a, name) is Some,
    ensures
        read_all(seq![name], a) == Ok::<Asked, Seq<char>>(switched(a, name)->Some_0),
{
    reveal(read_all);
    lemma_no_inline(name);
    let argv = seq![name];
    assert(argv[0] == name);
    assert(asked_from(argv, 1, switched(a, name)->Some_0) == Ok::<Asked, Seq<char>>(
        switched(a, name)->Some_0,
    ));
}

proof fn lemma_one_flag(name: Seq<char>, v: Seq<char>, a: Asked)
    requires
        forall|k: int| 0 <= k < name.len() ==> name[k] != '=',
        switched(a, name) is None,
        takes(name) is Some,
    ensures
        read_all(seq![name, v], a) == flagged(a, name, v),
{
    reveal(read_all);
    lemma_no_inline(name);
    let argv = seq![name, v];
    assert(argv[0] == name && argv[1] == v && argv.len() == 2);
    match flagged(a, name, v) {
        Ok(b) => {
            assert(asked_from(argv, 2, b) == Ok::<Asked, Seq<char>>(b));
        },
        Err(_) => {},
    }
}

proof fn lemma_switch_h_short(a: Asked)
    ensures
        read_all(seq!["-h"@], a) == Ok::<Asked, Seq<char>>(Asked { help: true, ..a }),
{
    lemma_flags_differ();
    reveal_strlit("-h");
    lemma_one_switch("-h"@, a);
}

proof fn lemma_switch_help(a: Asked)
    ensures
        read_all(seq!["--help"@], a) == Ok::<Asked, Seq<char>>(Asked { help: true, ..a }),
{
    lemma_flags_differ();
    reveal_strlit("--help");
    lemma_one_switch("--help"@, a);
}

proof fn lemma_switch_V_short(a: Asked)
    ensures
        read_all(seq!["-V"@], a) == Ok::<Asked, Seq<char>>(Asked { version: true, ..a }),
{
    lemma_flags_differ();
    reveal_strlit("-V");
    lemma_one_switch("-V"@, a);
}

proof fn lemma_switch_version(a: Asked)
    ensures
        read_all(seq!["--version"@], a)
            == Ok::<Asked, Seq<char>>(Asked { version: true, ..a }),
{
    lemma_flags_differ();
    reveal_strlit("--version");
    lemma_one_switch("--version"@, a);
}

proof fn lemma_switch_v_short(a: Asked)
    ensures
        read_all(seq!["-v"@], a) == Ok::<Asked, Seq<char>>(Asked { verbose: Some(true), ..a }),
{
    lemma_flags_differ();
    reveal_strlit("-v");
    lemma_one_switch("-v"@, a);
}

proof fn lemma_switch_verbose(a: Asked)
    ensures
        read_all(seq!["--verbose"@], a)
            == Ok::<Asked, Seq<char>>(Asked { verbose: Some(true), ..a }),
{
    lemma_flags_differ();
    reveal_strlit("--verbose");
    lemma_one_switch("--verbose"@, a);
}

proof fn lemma_switch_huge_pages(a: Asked)
    ensures
        read_all(seq!["--huge-pages"@], a)
            == Ok::<Asked, Seq<char>>(Asked { pages: Some(Ask::Force), ..a }),
{
    lemma_flags_differ();
    reveal_strlit("--huge-pages");
    lemma_one_switch("--huge-pages"@, a);
}

proof fn lemma_switch_no_huge_pages(a: Asked)
    ensures
        read_all(seq!["--no-huge-pages"@], a)
            == Ok::<Asked, Seq<char>>(Asked { pages: Some(Ask::Never), ..a }),
{
    lemma_flags_differ();
    reveal_strlit("--no-huge-pages");
    lemma_one_switch("--no-huge-pages"@, a);
}

proof fn lemma_switch_print_topology(a: Asked)
    ensures
        read_all(seq!["--print-topology"@], a)
            == Ok::<Asked, Seq<char>>(Asked { print_topology: Some(true), ..a }),
{
    lemma_flags_differ();
    reveal_strlit("--print-topology");
    lemma_one_switch("--print-topology"@, a);
}

proof fn lemma_switch_bench(a: Asked)
    ensures
        read_all(seq!["--bench"@], a)
            == Ok::<Asked, Seq<char>>(Asked { bench: Some(true), ..a }),
{
    lemma_flags_differ();
    reveal_strlit("--bench");
    lemma_one_switch("--bench"@, a);
}

proof fn lemma_switch_no_reconnect(a: Asked)
    ensures
        read_all(seq!["--no-reconnect"@], a)
            == Ok::<Asked, Seq<char>>(Asked { reconnect: Some(false), ..a }),
{
    lemma_flags_differ();
    reveal_strlit("--no-reconnect");
    lemma_one_switch("--no-reconnect"@, a);
}

proof fn lemma_switch_no_pin(a: Asked)
    ensures
        read_all(seq!["--no-pin"@], a)
            == Ok::<Asked, Seq<char>>(Asked { no_pin: Some(true), ..a }),
{
    lemma_flags_differ();
    reveal_strlit("--no-pin");
    lemma_one_switch("--no-pin"@, a);
}

/// Each switch sets its own setting, and leaves every other as it was.
pub proof fn law_a_switch_sets_its_setting(a: Asked)
    ensures
        asked_from(seq!["-h"@], 0, a) == Ok::<Asked, Seq<char>>(Asked { help: true, ..a }),
        asked_from(seq!["--help"@], 0, a) == Ok::<Asked, Seq<char>>(Asked { help: true, ..a }),
        asked_from(seq!["-V"@], 0, a) == Ok::<Asked, Seq<char>>(Asked { version: true, ..a }),
        asked_from(seq!["--version"@], 0, a)
            == Ok::<Asked, Seq<char>>(Asked { version: true, ..a }),
        asked_from(seq!["-v"@], 0, a) == Ok::<Asked, Seq<char>>(Asked { verbose: Some(true), ..a }),
        asked_from(seq!["--verbose"@], 0, a)
            == Ok::<Asked, Seq<char>>(Asked { verbose: Some(true), ..a }),
        asked_from(seq!["--huge-pages"@], 0, a)
            == Ok::<Asked, Seq<char>>(Asked { pages: Some(Ask::Force), ..a }),
        asked_from(seq!["--no-huge-pages"@], 0, a)
            == Ok::<Asked, Seq<char>>(Asked { pages: Some(Ask::Never), ..a }),
        asked_from(seq!["--print-topology"@], 0, a)
            == Ok::<Asked, Seq<char>>(Asked { print_topology: Some(true), ..a }),
        asked_from(seq!["--bench"@], 0, a)
            == Ok::<Asked, Seq<char>>(Asked { bench: Some(true), ..a }),
        asked_from(seq!["--no-reconnect"@], 0, a)
            == Ok::<Asked, Seq<char>>(Asked { reconnect: Some(false), ..a }),
        asked_from(seq!["--no-pin"@], 0, a)
            == Ok::<Asked, Seq<char>>(Asked { no_pin: Some(true), ..a }),
{
    reveal(read_all);
    lemma_switch_h_short(a);
    lemma_switch_help(a);
    lemma_switch_V_short(a);
    lemma_switch_version(a);
    lemma_switch_v_short(a);
    lemma_switch_verbose(a);
    lemma_switch_huge_pages(a);
    lemma_switch_no_huge_pages(a);
    lemma_switch_print_topology(a);
    lemma_switch_bench(a);
    lemma_switch_no_reconnect(a);
    lemma_switch_no_pin(a);
}

proof fn lemma_flag_address(a: Asked, v: Seq<char>)
    ensures
        read_all(seq!["--address"@, v], a)
            == Ok::<Asked, Seq<char>>(Asked { login: Some(v), ..a }),
{
    lemma_flags_differ();
    reveal_strlit("--address");
    lemma_one_flag("--address"@, v, a);
}

proof fn lemma_flag_stratum(a: Asked, v: Seq<char>)
    ensures
        read_all(seq!["--stratum"@, v], a)
            == Ok::<Asked, Seq<char>>(Asked { stratum: Some(v), ..a }),
{
    lemma_flags_differ();
    reveal_strlit("--stratum");
    lemma_one_flag("--stratum"@, v, a);
}

proof fn lemma_flag_config(a: Asked, v: Seq<char>)
    ensures
        read_all(seq!["--config"@, v], a)
            == Ok::<Asked, Seq<char>>(Asked { config: Some(v), ..a }),
{
    lemma_flags_differ();
    reveal_strlit("--config");
    lemma_one_flag("--config"@, v, a);
}

proof fn lemma_flag_grind(a: Asked, v: Seq<char>)
    ensures
        read_all(seq!["--grind"@, v], a)
            == Ok::<Asked, Seq<char>>(Asked { grind: Some(v), ..a }),
{
    lemma_flags_differ();
    reveal_strlit("--grind");
    lemma_one_flag("--grind"@, v, a);
}

proof fn lemma_flag_cpu_affinity(a: Asked, v: Seq<char>)
    ensures
        cpus::cpu_list(v) matches Ok(l)
            ==> read_all(seq!["--cpu-affinity"@, v], a)
            == Ok::<Asked, Seq<char>>(Asked { cpus: Some(l), ..a }),
        cpus::cpu_list(v) matches Err(e)
            ==> read_all(seq!["--cpu-affinity"@, v], a) == Err::<Asked, Seq<char>>(e),
{
    lemma_flags_differ();
    reveal_strlit("--cpu-affinity");
    lemma_one_flag("--cpu-affinity"@, v, a);
}

proof fn lemma_flag_status_format(a: Asked, v: Seq<char>)
    ensures
        v == "text"@
            ==> read_all(seq!["--status-format"@, v], a)
            == Ok::<Asked, Seq<char>>(Asked { status_format: Some(Format::Text), ..a }),
        v == "json"@
            ==> read_all(seq!["--status-format"@, v], a)
            == Ok::<Asked, Seq<char>>(Asked { status_format: Some(Format::Json), ..a }),
        v != "text"@ && v != "json"@ ==> read_all(seq!["--status-format"@, v], a) is Err,
{
    lemma_flags_differ();
    reveal_strlit("--status-format");
    reveal_strlit("text");
    reveal_strlit("json");
    assert("text"@[0] != "json"@[0]);
    lemma_one_flag("--status-format"@, v, a);
}

proof fn lemma_flag_threads(a: Asked, v: Seq<char>)
    ensures
        text::number_in(text::trimmed(v), 10, u64::MAX as nat) is None
            ==> read_all(seq!["--threads"@, v], a) is Err,
        text::number_in(text::trimmed(v), 10, u64::MAX as nat) matches Some(n)
            ==> read_all(seq!["--threads"@, v], a)
            == Ok::<Asked, Seq<char>>(Asked { threads: Some((n as u64) as usize), ..a }),
{
    lemma_flags_differ();
    reveal_strlit("--threads");
    lemma_one_flag("--threads"@, v, a);
}

proof fn lemma_flag_cpu_priority(a: Asked, v: Seq<char>)
    ensures
        text::number_in(text::trimmed(v), 10, u64::MAX as nat) is None
            ==> read_all(seq!["--cpu-priority"@, v], a) is Err,
        text::number_in(text::trimmed(v), 10, u64::MAX as nat) matches Some(n)
            ==> read_all(seq!["--cpu-priority"@, v], a)
            == Ok::<Asked, Seq<char>>(Asked { priority: Some(n as u8), ..a }) || !(n <= 5),
        text::number_in(text::trimmed(v), 10, u64::MAX as nat) matches Some(n)
            ==> (read_all(seq!["--cpu-priority"@, v], a) is Ok <==> n <= 5),
{
    lemma_flags_differ();
    reveal_strlit("--cpu-priority");
    lemma_one_flag("--cpu-priority"@, v, a);
}

proof fn lemma_flag_batch(a: Asked, v: Seq<char>)
    ensures
        text::number_in(text::trimmed(v), 10, u64::MAX as nat) is None
            ==> read_all(seq!["--batch"@, v], a) is Err,
        text::number_in(text::trimmed(v), 10, u64::MAX as nat) matches Some(n)
            ==> read_all(seq!["--batch"@, v], a)
            == Ok::<Asked, Seq<char>>(Asked { batch: Some(n as usize), ..a }) || !(1 <= n <= 32),
        text::number_in(text::trimmed(v), 10, u64::MAX as nat) matches Some(n)
            ==> (read_all(seq!["--batch"@, v], a) is Ok <==> 1 <= n <= 32) || n > u32::MAX,
{
    lemma_flags_differ();
    reveal_strlit("--batch");
    lemma_one_flag("--batch"@, v, a);
}

proof fn lemma_flag_bench_seconds(a: Asked, v: Seq<char>)
    ensures
        text::number_in(text::trimmed(v), 10, u64::MAX as nat) is None
            ==> read_all(seq!["--bench-seconds"@, v], a) is Err,
        text::number_in(text::trimmed(v), 10, u64::MAX as nat) matches Some(n)
            ==> read_all(seq!["--bench-seconds"@, v], a)
            == Ok::<Asked, Seq<char>>(Asked { bench_secs: Some(n as u64), ..a }),
{
    lemma_flags_differ();
    reveal_strlit("--bench-seconds");
    lemma_one_flag("--bench-seconds"@, v, a);
}

proof fn lemma_flag_max_shares(a: Asked, v: Seq<char>)
    ensures
        text::number_in(text::trimmed(v), 10, u64::MAX as nat) is None
            ==> read_all(seq!["--max-shares"@, v], a) is Err,
        text::number_in(text::trimmed(v), 10, u64::MAX as nat) matches Some(n)
            ==> read_all(seq!["--max-shares"@, v], a)
            == Ok::<Asked, Seq<char>>(Asked { max_shares: Some(n as u64), ..a }),
{
    lemma_flags_differ();
    reveal_strlit("--max-shares");
    lemma_one_flag("--max-shares"@, v, a);
}

proof fn lemma_flag_max_blocks(a: Asked, v: Seq<char>)
    ensures
        text::number_in(text::trimmed(v), 10, u64::MAX as nat) is None
            ==> read_all(seq!["--max-blocks"@, v], a) is Err,
        text::number_in(text::trimmed(v), 10, u64::MAX as nat) matches Some(n)
            ==> read_all(seq!["--max-blocks"@, v], a)
            == Ok::<Asked, Seq<char>>(Asked { max_blocks: Some(n as u64), ..a }),
{
    lemma_flags_differ();
    reveal_strlit("--max-blocks");
    lemma_one_flag("--max-blocks"@, v, a);
}

proof fn lemma_flag_deadline(a: Asked, v: Seq<char>)
    ensures
        text::number_in(text::trimmed(v), 10, u64::MAX as nat) is None
            ==> read_all(seq!["--deadline"@, v], a) is Err,
        text::number_in(text::trimmed(v), 10, u64::MAX as nat) matches Some(n)
            ==> read_all(seq!["--deadline"@, v], a)
            == Ok::<Asked, Seq<char>>(Asked { deadline_secs: Some(n as u64), ..a }),
{
    lemma_flags_differ();
    reveal_strlit("--deadline");
    lemma_one_flag("--deadline"@, v, a);
}

proof fn lemma_flag_max_reconnects(a: Asked, v: Seq<char>)
    ensures
        text::number_in(text::trimmed(v), 10, u64::MAX as nat) is None
            ==> read_all(seq!["--max-reconnects"@, v], a) is Err,
        text::number_in(text::trimmed(v), 10, u64::MAX as nat) matches Some(n)
            ==> read_all(seq!["--max-reconnects"@, v], a)
            == Ok::<Asked, Seq<char>>(Asked { max_reconnects: Some(n as u32), ..a })
            || !(n <= u32::MAX),
        text::number_in(text::trimmed(v), 10, u64::MAX as nat) matches Some(n)
            ==> (read_all(seq!["--max-reconnects"@, v], a) is Ok <==> n <= u32::MAX),
{
    lemma_flags_differ();
    reveal_strlit("--max-reconnects");
    lemma_one_flag("--max-reconnects"@, v, a);
}

proof fn lemma_flag_status(a: Asked, v: Seq<char>)
    ensures
        text::number_in(text::trimmed(v), 10, u64::MAX as nat) is None
            ==> read_all(seq!["--status"@, v], a) is Err,
        text::number_in(text::trimmed(v), 10, u64::MAX as nat) matches Some(n)
            ==> read_all(seq!["--status"@, v], a)
            == Ok::<Asked, Seq<char>>(Asked { status_secs: Some(n as u64), ..a }),
{
    lemma_flags_differ();
    reveal_strlit("--status");
    lemma_one_flag("--status"@, v, a);
}

/// Each flag sets its own setting to the value behind it, and leaves every other
/// as it was. A value that it does not take is refused.
pub proof fn law_a_flag_sets_its_setting(a: Asked, v: Seq<char>)
    ensures
        asked_from(seq!["--address"@, v], 0, a)
            == Ok::<Asked, Seq<char>>(Asked { login: Some(v), ..a }),
        asked_from(seq!["--stratum"@, v], 0, a)
            == Ok::<Asked, Seq<char>>(Asked { stratum: Some(v), ..a }),
        asked_from(seq!["--config"@, v], 0, a)
            == Ok::<Asked, Seq<char>>(Asked { config: Some(v), ..a }),
        asked_from(seq!["--grind"@, v], 0, a)
            == Ok::<Asked, Seq<char>>(Asked { grind: Some(v), ..a }),
        cpus::cpu_list(v) matches Ok(l)
            ==> asked_from(seq!["--cpu-affinity"@, v], 0, a)
            == Ok::<Asked, Seq<char>>(Asked { cpus: Some(l), ..a }),
        cpus::cpu_list(v) matches Err(e)
            ==> asked_from(seq!["--cpu-affinity"@, v], 0, a) == Err::<Asked, Seq<char>>(e),
        v == "text"@
            ==> asked_from(seq!["--status-format"@, v], 0, a)
            == Ok::<Asked, Seq<char>>(Asked { status_format: Some(Format::Text), ..a }),
        v == "json"@
            ==> asked_from(seq!["--status-format"@, v], 0, a)
            == Ok::<Asked, Seq<char>>(Asked { status_format: Some(Format::Json), ..a }),
        v != "text"@ && v != "json"@ ==> asked_from(seq!["--status-format"@, v], 0, a) is Err,
        text::number_in(text::trimmed(v), 10, u64::MAX as nat) is None
            ==> asked_from(seq!["--threads"@, v], 0, a) is Err,
        text::number_in(text::trimmed(v), 10, u64::MAX as nat) matches Some(n)
            ==> asked_from(seq!["--threads"@, v], 0, a)
            == Ok::<Asked, Seq<char>>(Asked { threads: Some((n as u64) as usize), ..a }),
        text::number_in(text::trimmed(v), 10, u64::MAX as nat) is None
            ==> asked_from(seq!["--cpu-priority"@, v], 0, a) is Err,
        text::number_in(text::trimmed(v), 10, u64::MAX as nat) matches Some(n)
            ==> asked_from(seq!["--cpu-priority"@, v], 0, a)
            == Ok::<Asked, Seq<char>>(Asked { priority: Some(n as u8), ..a }) || !(n <= 5),
        text::number_in(text::trimmed(v), 10, u64::MAX as nat) matches Some(n)
            ==> (asked_from(seq!["--cpu-priority"@, v], 0, a) is Ok <==> n <= 5),
        text::number_in(text::trimmed(v), 10, u64::MAX as nat) is None
            ==> asked_from(seq!["--batch"@, v], 0, a) is Err,
        text::number_in(text::trimmed(v), 10, u64::MAX as nat) matches Some(n)
            ==> asked_from(seq!["--batch"@, v], 0, a)
            == Ok::<Asked, Seq<char>>(Asked { batch: Some(n as usize), ..a }) || !(1 <= n <= 32),
        text::number_in(text::trimmed(v), 10, u64::MAX as nat) matches Some(n)
            ==> (asked_from(seq!["--batch"@, v], 0, a) is Ok <==> 1 <= n <= 32) || n > u32::MAX,
        text::number_in(text::trimmed(v), 10, u64::MAX as nat) is None
            ==> asked_from(seq!["--bench-seconds"@, v], 0, a) is Err,
        text::number_in(text::trimmed(v), 10, u64::MAX as nat) matches Some(n)
            ==> asked_from(seq!["--bench-seconds"@, v], 0, a)
            == Ok::<Asked, Seq<char>>(Asked { bench_secs: Some(n as u64), ..a }),
        text::number_in(text::trimmed(v), 10, u64::MAX as nat) is None
            ==> asked_from(seq!["--max-shares"@, v], 0, a) is Err,
        text::number_in(text::trimmed(v), 10, u64::MAX as nat) matches Some(n)
            ==> asked_from(seq!["--max-shares"@, v], 0, a)
            == Ok::<Asked, Seq<char>>(Asked { max_shares: Some(n as u64), ..a }),
        text::number_in(text::trimmed(v), 10, u64::MAX as nat) is None
            ==> asked_from(seq!["--max-blocks"@, v], 0, a) is Err,
        text::number_in(text::trimmed(v), 10, u64::MAX as nat) matches Some(n)
            ==> asked_from(seq!["--max-blocks"@, v], 0, a)
            == Ok::<Asked, Seq<char>>(Asked { max_blocks: Some(n as u64), ..a }),
        text::number_in(text::trimmed(v), 10, u64::MAX as nat) is None
            ==> asked_from(seq!["--deadline"@, v], 0, a) is Err,
        text::number_in(text::trimmed(v), 10, u64::MAX as nat) matches Some(n)
            ==> asked_from(seq!["--deadline"@, v], 0, a)
            == Ok::<Asked, Seq<char>>(Asked { deadline_secs: Some(n as u64), ..a }),
        text::number_in(text::trimmed(v), 10, u64::MAX as nat) is None
            ==> asked_from(seq!["--max-reconnects"@, v], 0, a) is Err,
        text::number_in(text::trimmed(v), 10, u64::MAX as nat) matches Some(n)
            ==> asked_from(seq!["--max-reconnects"@, v], 0, a)
            == Ok::<Asked, Seq<char>>(Asked { max_reconnects: Some(n as u32), ..a })
            || !(n <= u32::MAX),
        text::number_in(text::trimmed(v), 10, u64::MAX as nat) matches Some(n)
            ==> (asked_from(seq!["--max-reconnects"@, v], 0, a) is Ok <==> n <= u32::MAX),
        text::number_in(text::trimmed(v), 10, u64::MAX as nat) is None
            ==> asked_from(seq!["--status"@, v], 0, a) is Err,
        text::number_in(text::trimmed(v), 10, u64::MAX as nat) matches Some(n)
            ==> asked_from(seq!["--status"@, v], 0, a)
            == Ok::<Asked, Seq<char>>(Asked { status_secs: Some(n as u64), ..a }),
{
    reveal(read_all);
    lemma_flag_address(a, v);
    lemma_flag_stratum(a, v);
    lemma_flag_config(a, v);
    lemma_flag_grind(a, v);
    lemma_flag_cpu_affinity(a, v);
    lemma_flag_status_format(a, v);
    lemma_flag_threads(a, v);
    lemma_flag_cpu_priority(a, v);
    lemma_flag_batch(a, v);
    lemma_flag_bench_seconds(a, v);
    lemma_flag_max_shares(a, v);
    lemma_flag_max_blocks(a, v);
    lemma_flag_deadline(a, v);
    lemma_flag_max_reconnects(a, v);
    lemma_flag_status(a, v);
}

/// Of every setting, what the command line says stands, and where it says nothing
/// the file is kept; only the two ways to count the workers displace each other.
pub proof fn law_every_setting_of_the_command_line_wins(a: Asked, b: Asked)
    ensures
        a.login is Some ==> merged(a, b).login == a.login,
        a.login is None ==> merged(a, b).login == b.login,
        a.stratum is Some ==> merged(a, b).stratum == a.stratum,
        a.stratum is None ==> merged(a, b).stratum == b.stratum,
        a.threads is Some ==> merged(a, b).threads == a.threads,
        a.threads is None && a.cpus is None ==> merged(a, b).threads == b.threads,
        a.threads is None && a.cpus is Some ==> merged(a, b).threads is None,
        a.cpus is Some ==> merged(a, b).cpus == a.cpus,
        a.cpus is None && a.threads is None ==> merged(a, b).cpus == b.cpus,
        a.cpus is None && a.threads is Some ==> merged(a, b).cpus is None,
        a.priority is Some ==> merged(a, b).priority == a.priority,
        a.priority is None ==> merged(a, b).priority == b.priority,
        a.pages is Some ==> merged(a, b).pages == a.pages,
        a.pages is None ==> merged(a, b).pages == b.pages,
        a.status_secs is Some ==> merged(a, b).status_secs == a.status_secs,
        a.status_secs is None ==> merged(a, b).status_secs == b.status_secs,
        a.max_shares is Some ==> merged(a, b).max_shares == a.max_shares,
        a.max_shares is None ==> merged(a, b).max_shares == b.max_shares,
        a.max_blocks is Some ==> merged(a, b).max_blocks == a.max_blocks,
        a.max_blocks is None ==> merged(a, b).max_blocks == b.max_blocks,
        a.deadline_secs is Some ==> merged(a, b).deadline_secs == a.deadline_secs,
        a.deadline_secs is None ==> merged(a, b).deadline_secs == b.deadline_secs,
        a.max_reconnects is Some ==> merged(a, b).max_reconnects == a.max_reconnects,
        a.max_reconnects is None ==> merged(a, b).max_reconnects == b.max_reconnects,
        a.reconnect is Some ==> merged(a, b).reconnect == a.reconnect,
        a.reconnect is None ==> merged(a, b).reconnect == b.reconnect,
        a.verbose is Some ==> merged(a, b).verbose == a.verbose,
        a.verbose is None ==> merged(a, b).verbose == b.verbose,
        a.bench is Some ==> merged(a, b).bench == a.bench,
        a.bench is None ==> merged(a, b).bench == b.bench,
        a.bench_secs is Some ==> merged(a, b).bench_secs == a.bench_secs,
        a.bench_secs is None ==> merged(a, b).bench_secs == b.bench_secs,
        a.batch is Some ==> merged(a, b).batch == a.batch,
        a.batch is None ==> merged(a, b).batch == b.batch,
        a.print_topology is Some ==> merged(a, b).print_topology == a.print_topology,
        a.print_topology is None ==> merged(a, b).print_topology == b.print_topology,
        a.grind is Some ==> merged(a, b).grind == a.grind,
        a.grind is None ==> merged(a, b).grind == b.grind,
        a.config is Some ==> merged(a, b).config == a.config,
        a.config is None ==> merged(a, b).config == b.config,
        a.no_pin is Some ==> merged(a, b).no_pin == a.no_pin,
        a.no_pin is None ==> merged(a, b).no_pin == b.no_pin,
        a.status_format is Some ==> merged(a, b).status_format == a.status_format,
        a.status_format is None ==> merged(a, b).status_format == b.status_format,
        merged(a, b).help == (a.help || b.help),
        merged(a, b).version == (a.version || b.version),
{
}

// ---------------------------------------------------------------------------
// What each key of the file sets

/// No two keys have the same mark.
proof fn lemma_keys_differ()
    ensures
        mark("url"@) == (3nat, 'l', 'r'),
        mark("address"@) == (7nat, 's', 'r'),
        mark("stratum"@) == (7nat, 'm', 'a'),
        mark("threads"@) == (7nat, 's', 'e'),
        mark("batch"@) == (5nat, 'h', 't'),
        mark("cpu-affinity"@) == (12nat, 'y', 'f'),
        mark("cpu-priority"@) == (12nat, 'y', 'i'),
        mark("huge-pages"@) == (10nat, 's', 'p'),
        mark("no-huge-pages"@) == (13nat, 's', 'e'),
        mark("status"@) == (6nat, 's', 't'),
        mark("max-shares"@) == (10nat, 's', 'h'),
        mark("max-blocks"@) == (10nat, 's', 'l'),
        mark("deadline"@) == (8nat, 'e', 'l'),
        mark("max-reconnects"@) == (14nat, 's', 'o'),
        mark("no-reconnect"@) == (12nat, 't', 'o'),
        mark("verbose"@) == (7nat, 'e', 'b'),
        mark("bench"@) == (5nat, 'h', 'n'),
        mark("bench-seconds"@) == (13nat, 's', 's'),
        mark("print-topology"@) == (14nat, 'y', 'o'),
        mark("grind"@) == (5nat, 'd', 'i'),
        mark("no-pin"@) == (6nat, 'n', 'p'),
        mark("status-format"@) == (13nat, 't', '-'),
        mark("config"@) == (6nat, 'g', 'f'),
{
    reveal_strlit("url");
    reveal_strlit("address");
    reveal_strlit("stratum");
    reveal_strlit("threads");
    reveal_strlit("batch");
    reveal_strlit("cpu-affinity");
    reveal_strlit("cpu-priority");
    reveal_strlit("huge-pages");
    reveal_strlit("no-huge-pages");
    reveal_strlit("status");
    reveal_strlit("max-shares");
    reveal_strlit("max-blocks");
    reveal_strlit("deadline");
    reveal_strlit("max-reconnects");
    reveal_strlit("no-reconnect");
    reveal_strlit("verbose");
    reveal_strlit("bench");
    reveal_strlit("bench-seconds");
    reveal_strlit("print-topology");
    reveal_strlit("grind");
    reveal_strlit("no-pin");
    reveal_strlit("status-format");
    reveal_strlit("config");
}

proof fn lemma_key_url(a: Asked, raw: Seq<char>, v: Value)
    requires
        key_of(raw) == "url"@,
    ensures
        v matches Value::Str(t) ==> pool::pool_url(t@) is Ok
            ==> configured(a, raw, v)
            == Ok::<Asked, Seq<char>>(Asked { stratum: Some(pool::pool_url(t@)->Ok_0.0),
            login: Some(pool::pool_url(t@)->Ok_0.1), ..a }),
        configured(a, raw, v) is Ok <==> (v matches Value::Str(t) && pool::pool_url(t@) is Ok),
{
    lemma_keys_differ();
}

proof fn lemma_key_address(a: Asked, raw: Seq<char>, v: Value)
    requires
        key_of(raw) == "address"@,
    ensures
        v matches Value::Str(t)
            ==> configured(a, raw, v) == Ok::<Asked, Seq<char>>(Asked { login: Some(t@), ..a }),
        configured(a, raw, v) is Ok <==> v is Str,
{
    lemma_keys_differ();
}

proof fn lemma_key_stratum(a: Asked, raw: Seq<char>, v: Value)
    requires
        key_of(raw) == "stratum"@,
    ensures
        v matches Value::Str(t)
            ==> configured(a, raw, v) == Ok::<Asked, Seq<char>>(Asked { stratum: Some(t@), ..a }),
        configured(a, raw, v) is Ok <==> v is Str,
{
    lemma_keys_differ();
}

proof fn lemma_key_threads(a: Asked, raw: Seq<char>, v: Value)
    requires
        key_of(raw) == "threads"@,
    ensures
        v matches Value::Num(n)
            ==> configured(a, raw, v)
            == Ok::<Asked, Seq<char>>(Asked { threads: Some(n as usize), ..a })
            || !(n <= u32::MAX),
        configured(a, raw, v) is Ok <==> (v matches Value::Num(n) && n <= u32::MAX),
{
    lemma_keys_differ();
}

proof fn lemma_key_batch(a: Asked, raw: Seq<char>, v: Value)
    requires
        key_of(raw) == "batch"@,
    ensures
        v matches Value::Num(n)
            ==> configured(a, raw, v)
            == Ok::<Asked, Seq<char>>(Asked { batch: Some(n as usize), ..a }) || !(1 <= n <= 32),
        configured(a, raw, v) is Ok <==> (v matches Value::Num(n) && 1 <= n <= 32),
{
    lemma_keys_differ();
}

proof fn lemma_key_cpu_affinity(a: Asked, raw: Seq<char>, v: Value)
    requires
        key_of(raw) == "cpu-affinity"@,
    ensures
        v matches Value::Str(t) ==> cpus::cpu_list(t@) is Ok
            ==> configured(a, raw, v)
            == Ok::<Asked, Seq<char>>(Asked { cpus: Some(cpus::cpu_list(t@)->Ok_0), ..a }),
        v is Num || v is Bool ==> configured(a, raw, v) is Err,
{
    lemma_keys_differ();
}

proof fn lemma_key_cpu_priority(a: Asked, raw: Seq<char>, v: Value)
    requires
        key_of(raw) == "cpu-priority"@,
    ensures
        v matches Value::Num(n)
            ==> configured(a, raw, v)
            == Ok::<Asked, Seq<char>>(Asked { priority: Some(n as u8), ..a }) || !(n <= 5),
        configured(a, raw, v) is Ok <==> (v matches Value::Num(n) && n <= 5),
{
    lemma_keys_differ();
}

proof fn lemma_key_huge_pages(a: Asked, raw: Seq<char>, v: Value)
    requires
        key_of(raw) == "huge-pages"@,
    ensures
        v == Value::Bool(true)
            ==> configured(a, raw, v)
            == Ok::<Asked, Seq<char>>(Asked { pages: Some(Ask::Force), ..a }),
        v == Value::Bool(false)
            ==> configured(a, raw, v)
            == Ok::<Asked, Seq<char>>(Asked { pages: Some(Ask::Never), ..a }),
        configured(a, raw, v) is Ok <==> v is Bool,
{
    lemma_keys_differ();
}

proof fn lemma_key_no_huge_pages(a: Asked, raw: Seq<char>, v: Value)
    requires
        key_of(raw) == "no-huge-pages"@,
    ensures
        v == Value::Bool(true)
            ==> configured(a, raw, v)
            == Ok::<Asked, Seq<char>>(Asked { pages: Some(Ask::Never), ..a }),
        v == Value::Bool(false)
            ==> configured(a, raw, v)
            == Ok::<Asked, Seq<char>>(Asked { pages: Some(Ask::Auto), ..a }),
        configured(a, raw, v) is Ok <==> v is Bool,
{
    lemma_keys_differ();
}

proof fn lemma_key_status(a: Asked, raw: Seq<char>, v: Value)
    requires
        key_of(raw) == "status"@,
    ensures
        v matches Value::Num(n)
            ==> configured(a, raw, v)
            == Ok::<Asked, Seq<char>>(Asked { status_secs: Some(n), ..a }),
        configured(a, raw, v) is Ok <==> (v matches Value::Num(n)),
{
    lemma_keys_differ();
}

proof fn lemma_key_max_shares(a: Asked, raw: Seq<char>, v: Value)
    requires
        key_of(raw) == "max-shares"@,
    ensures
        v matches Value::Num(n)
            ==> configured(a, raw, v)
            == Ok::<Asked, Seq<char>>(Asked { max_shares: Some(n), ..a }),
        configured(a, raw, v) is Ok <==> (v matches Value::Num(n)),
{
    lemma_keys_differ();
}

proof fn lemma_key_max_blocks(a: Asked, raw: Seq<char>, v: Value)
    requires
        key_of(raw) == "max-blocks"@,
    ensures
        v matches Value::Num(n)
            ==> configured(a, raw, v)
            == Ok::<Asked, Seq<char>>(Asked { max_blocks: Some(n), ..a }),
        configured(a, raw, v) is Ok <==> (v matches Value::Num(n)),
{
    lemma_keys_differ();
}

proof fn lemma_key_deadline(a: Asked, raw: Seq<char>, v: Value)
    requires
        key_of(raw) == "deadline"@,
    ensures
        v matches Value::Num(n)
            ==> configured(a, raw, v)
            == Ok::<Asked, Seq<char>>(Asked { deadline_secs: Some(n), ..a }),
        configured(a, raw, v) is Ok <==> (v matches Value::Num(n)),
{
    lemma_keys_differ();
}

proof fn lemma_key_max_reconnects(a: Asked, raw: Seq<char>, v: Value)
    requires
        key_of(raw) == "max-reconnects"@,
    ensures
        v matches Value::Num(n)
            ==> configured(a, raw, v)
            == Ok::<Asked, Seq<char>>(Asked { max_reconnects: Some(n as u32), ..a })
            || !(n <= u32::MAX),
        configured(a, raw, v) is Ok <==> (v matches Value::Num(n) && n <= u32::MAX),
{
    lemma_keys_differ();
}

proof fn lemma_key_no_reconnect(a: Asked, raw: Seq<char>, v: Value)
    requires
        key_of(raw) == "no-reconnect"@,
    ensures
        v matches Value::Bool(b)
            ==> configured(a, raw, v)
            == Ok::<Asked, Seq<char>>(Asked { reconnect: Some(!b), ..a }),
        configured(a, raw, v) is Ok <==> v is Bool,
{
    lemma_keys_differ();
}

proof fn lemma_key_verbose(a: Asked, raw: Seq<char>, v: Value)
    requires
        key_of(raw) == "verbose"@,
    ensures
        v matches Value::Bool(b)
            ==> configured(a, raw, v) == Ok::<Asked, Seq<char>>(Asked { verbose: Some(b), ..a }),
        configured(a, raw, v) is Ok <==> v is Bool,
{
    lemma_keys_differ();
}

proof fn lemma_key_bench(a: Asked, raw: Seq<char>, v: Value)
    requires
        key_of(raw) == "bench"@,
    ensures
        v matches Value::Bool(b)
            ==> configured(a, raw, v) == Ok::<Asked, Seq<char>>(Asked { bench: Some(b), ..a }),
        configured(a, raw, v) is Ok <==> v is Bool,
{
    lemma_keys_differ();
}

proof fn lemma_key_bench_seconds(a: Asked, raw: Seq<char>, v: Value)
    requires
        key_of(raw) == "bench-seconds"@,
    ensures
        v matches Value::Num(n)
            ==> configured(a, raw, v)
            == Ok::<Asked, Seq<char>>(Asked { bench_secs: Some(n), ..a }),
        configured(a, raw, v) is Ok <==> (v matches Value::Num(n)),
{
    lemma_keys_differ();
}

proof fn lemma_key_print_topology(a: Asked, raw: Seq<char>, v: Value)
    requires
        key_of(raw) == "print-topology"@,
    ensures
        v matches Value::Bool(b)
            ==> configured(a, raw, v)
            == Ok::<Asked, Seq<char>>(Asked { print_topology: Some(b), ..a }),
        configured(a, raw, v) is Ok <==> v is Bool,
{
    lemma_keys_differ();
}

proof fn lemma_key_grind(a: Asked, raw: Seq<char>, v: Value)
    requires
        key_of(raw) == "grind"@,
    ensures
        v matches Value::Str(t)
            ==> configured(a, raw, v) == Ok::<Asked, Seq<char>>(Asked { grind: Some(t@), ..a }),
        configured(a, raw, v) is Ok <==> v is Str,
{
    lemma_keys_differ();
}

proof fn lemma_key_no_pin(a: Asked, raw: Seq<char>, v: Value)
    requires
        key_of(raw) == "no-pin"@,
    ensures
        v matches Value::Bool(b)
            ==> configured(a, raw, v) == Ok::<Asked, Seq<char>>(Asked { no_pin: Some(b), ..a }),
        configured(a, raw, v) is Ok <==> v is Bool,
{
    lemma_keys_differ();
}

proof fn lemma_key_status_format(a: Asked, raw: Seq<char>, v: Value)
    requires
        key_of(raw) == "status-format"@,
    ensures
        v matches Value::Str(t) ==> t@ == "text"@
            ==> configured(a, raw, v)
            == Ok::<Asked, Seq<char>>(Asked { status_format: Some(Format::Text), ..a }),
        v matches Value::Str(t) ==> t@ == "json"@
            ==> configured(a, raw, v)
            == Ok::<Asked, Seq<char>>(Asked { status_format: Some(Format::Json), ..a }),
        configured(a, raw, v) is Ok
            <==> (v matches Value::Str(t) && (t@ == "text"@ || t@ == "json"@)),
{
    lemma_keys_differ();
    reveal_strlit("text");
    reveal_strlit("json");
    assert("text"@[0] != "json"@[0]);
}

proof fn lemma_key_config(a: Asked, raw: Seq<char>, v: Value)
    requires
        key_of(raw) == "config"@,
    ensures
        configured(a, raw, v) is Err,
{
    lemma_keys_differ();
}

/// Each key of the file that is a number sets its own setting and leaves every
/// other as it was. A value of another type, or out of its range, is refused.
pub proof fn law_a_number_of_the_file_sets_its_setting(a: Asked, raw: Seq<char>, v: Value)
    ensures
        key_of(raw) == "threads"@ ==> ({
            &&& (v matches Value::Num(n)
                ==> configured(a, raw, v)
                == Ok::<Asked, Seq<char>>(Asked { threads: Some(n as usize), ..a })
                || !(n <= u32::MAX))
            &&& (configured(a, raw, v) is Ok <==> (v matches Value::Num(n) && n <= u32::MAX))
        }),
        key_of(raw) == "batch"@ ==> ({
            &&& (v matches Value::Num(n)
                ==> configured(a, raw, v)
                == Ok::<Asked, Seq<char>>(Asked { batch: Some(n as usize), ..a })
                || !(1 <= n <= 32))
            &&& (configured(a, raw, v) is Ok <==> (v matches Value::Num(n) && 1 <= n <= 32))
        }),
        key_of(raw) == "cpu-priority"@ ==> ({
            &&& (v matches Value::Num(n)
                ==> configured(a, raw, v)
                == Ok::<Asked, Seq<char>>(Asked { priority: Some(n as u8), ..a }) || !(n <= 5))
            &&& (configured(a, raw, v) is Ok <==> (v matches Value::Num(n) && n <= 5))
        }),
        key_of(raw) == "status"@ ==> ({
            &&& (v matches Value::Num(n)
                ==> configured(a, raw, v)
                == Ok::<Asked, Seq<char>>(Asked { status_secs: Some(n), ..a }))
            &&& (configured(a, raw, v) is Ok <==> (v matches Value::Num(n)))
        }),
        key_of(raw) == "max-shares"@ ==> ({
            &&& (v matches Value::Num(n)
                ==> configured(a, raw, v)
                == Ok::<Asked, Seq<char>>(Asked { max_shares: Some(n), ..a }))
            &&& (configured(a, raw, v) is Ok <==> (v matches Value::Num(n)))
        }),
        key_of(raw) == "max-blocks"@ ==> ({
            &&& (v matches Value::Num(n)
                ==> configured(a, raw, v)
                == Ok::<Asked, Seq<char>>(Asked { max_blocks: Some(n), ..a }))
            &&& (configured(a, raw, v) is Ok <==> (v matches Value::Num(n)))
        }),
        key_of(raw) == "deadline"@ ==> ({
            &&& (v matches Value::Num(n)
                ==> configured(a, raw, v)
                == Ok::<Asked, Seq<char>>(Asked { deadline_secs: Some(n), ..a }))
            &&& (configured(a, raw, v) is Ok <==> (v matches Value::Num(n)))
        }),
        key_of(raw) == "max-reconnects"@ ==> ({
            &&& (v matches Value::Num(n)
                ==> configured(a, raw, v)
                == Ok::<Asked, Seq<char>>(Asked { max_reconnects: Some(n as u32), ..a })
                || !(n <= u32::MAX))
            &&& (configured(a, raw, v) is Ok <==> (v matches Value::Num(n) && n <= u32::MAX))
        }),
        key_of(raw) == "bench-seconds"@ ==> ({
            &&& (v matches Value::Num(n)
                ==> configured(a, raw, v)
                == Ok::<Asked, Seq<char>>(Asked { bench_secs: Some(n), ..a }))
            &&& (configured(a, raw, v) is Ok <==> (v matches Value::Num(n)))
        }),
{
    if key_of(raw) == "threads"@ {
        lemma_key_threads(a, raw, v);
    }
    if key_of(raw) == "batch"@ {
        lemma_key_batch(a, raw, v);
    }
    if key_of(raw) == "cpu-priority"@ {
        lemma_key_cpu_priority(a, raw, v);
    }
    if key_of(raw) == "status"@ {
        lemma_key_status(a, raw, v);
    }
    if key_of(raw) == "max-shares"@ {
        lemma_key_max_shares(a, raw, v);
    }
    if key_of(raw) == "max-blocks"@ {
        lemma_key_max_blocks(a, raw, v);
    }
    if key_of(raw) == "deadline"@ {
        lemma_key_deadline(a, raw, v);
    }
    if key_of(raw) == "max-reconnects"@ {
        lemma_key_max_reconnects(a, raw, v);
    }
    if key_of(raw) == "bench-seconds"@ {
        lemma_key_bench_seconds(a, raw, v);
    }
}

/// Each key of the file that is true or false sets its own setting and leaves
/// every other as it was. A value of another type is refused.
pub proof fn law_a_switch_of_the_file_sets_its_setting(a: Asked, raw: Seq<char>, v: Value)
    ensures
        key_of(raw) == "huge-pages"@ ==> ({
            &&& (v == Value::Bool(true)
                ==> configured(a, raw, v)
                == Ok::<Asked, Seq<char>>(Asked { pages: Some(Ask::Force), ..a }))
            &&& (v == Value::Bool(false)
                ==> configured(a, raw, v)
                == Ok::<Asked, Seq<char>>(Asked { pages: Some(Ask::Never), ..a }))
            &&& (configured(a, raw, v) is Ok <==> v is Bool)
        }),
        key_of(raw) == "no-huge-pages"@ ==> ({
            &&& (v == Value::Bool(true)
                ==> configured(a, raw, v)
                == Ok::<Asked, Seq<char>>(Asked { pages: Some(Ask::Never), ..a }))
            &&& (v == Value::Bool(false)
                ==> configured(a, raw, v)
                == Ok::<Asked, Seq<char>>(Asked { pages: Some(Ask::Auto), ..a }))
            &&& (configured(a, raw, v) is Ok <==> v is Bool)
        }),
        key_of(raw) == "no-reconnect"@ ==> ({
            &&& (v matches Value::Bool(b)
                ==> configured(a, raw, v)
                == Ok::<Asked, Seq<char>>(Asked { reconnect: Some(!b), ..a }))
            &&& (configured(a, raw, v) is Ok <==> v is Bool)
        }),
        key_of(raw) == "verbose"@ ==> ({
            &&& (v matches Value::Bool(b)
                ==> configured(a, raw, v)
                == Ok::<Asked, Seq<char>>(Asked { verbose: Some(b), ..a }))
            &&& (configured(a, raw, v) is Ok <==> v is Bool)
        }),
        key_of(raw) == "bench"@ ==> ({
            &&& (v matches Value::Bool(b)
                ==> configured(a, raw, v)
                == Ok::<Asked, Seq<char>>(Asked { bench: Some(b), ..a }))
            &&& (configured(a, raw, v) is Ok <==> v is Bool)
        }),
        key_of(raw) == "print-topology"@ ==> ({
            &&& (v matches Value::Bool(b)
                ==> configured(a, raw, v)
                == Ok::<Asked, Seq<char>>(Asked { print_topology: Some(b), ..a }))
            &&& (configured(a, raw, v) is Ok <==> v is Bool)
        }),
        key_of(raw) == "no-pin"@ ==> ({
            &&& (v matches Value::Bool(b)
                ==> configured(a, raw, v)
                == Ok::<Asked, Seq<char>>(Asked { no_pin: Some(b), ..a }))
            &&& (configured(a, raw, v) is Ok <==> v is Bool)
        }),
{
    if key_of(raw) == "huge-pages"@ {
        lemma_key_huge_pages(a, raw, v);
    }
    if key_of(raw) == "no-huge-pages"@ {
        lemma_key_no_huge_pages(a, raw, v);
    }
    if key_of(raw) == "no-reconnect"@ {
        lemma_key_no_reconnect(a, raw, v);
    }
    if key_of(raw) == "verbose"@ {
        lemma_key_verbose(a, raw, v);
    }
    if key_of(raw) == "bench"@ {
        lemma_key_bench(a, raw, v);
    }
    if key_of(raw) == "print-topology"@ {
        lemma_key_print_topology(a, raw, v);
    }
    if key_of(raw) == "no-pin"@ {
        lemma_key_no_pin(a, raw, v);
    }
}

/// Each key of the file that is a text sets its own setting and leaves every
/// other as it was. A value of another type is refused, and so is another file.
pub proof fn law_a_text_of_the_file_sets_its_setting(a: Asked, raw: Seq<char>, v: Value)
    ensures
        key_of(raw) == "url"@ ==> ({
            &&& (v matches Value::Str(t) ==> pool::pool_url(t@) is Ok
                ==> configured(a, raw, v)
                == Ok::<Asked, Seq<char>>(Asked { stratum: Some(pool::pool_url(t@)->Ok_0.0),
                login: Some(pool::pool_url(t@)->Ok_0.1), ..a }))
            &&& (configured(a, raw, v) is Ok
                <==> (v matches Value::Str(t) && pool::pool_url(t@) is Ok))
        }),
        key_of(raw) == "address"@ ==> ({
            &&& (v matches Value::Str(t)
                ==> configured(a, raw, v)
                == Ok::<Asked, Seq<char>>(Asked { login: Some(t@), ..a }))
            &&& (configured(a, raw, v) is Ok <==> v is Str)
        }),
        key_of(raw) == "stratum"@ ==> ({
            &&& (v matches Value::Str(t)
                ==> configured(a, raw, v)
                == Ok::<Asked, Seq<char>>(Asked { stratum: Some(t@), ..a }))
            &&& (configured(a, raw, v) is Ok <==> v is Str)
        }),
        key_of(raw) == "cpu-affinity"@ ==> ({
            &&& (v matches Value::Str(t) ==> cpus::cpu_list(t@) is Ok
                ==> configured(a, raw, v)
                == Ok::<Asked, Seq<char>>(Asked { cpus: Some(cpus::cpu_list(t@)->Ok_0), ..a }))
            &&& (v is Num || v is Bool ==> configured(a, raw, v) is Err)
        }),
        key_of(raw) == "grind"@ ==> ({
            &&& (v matches Value::Str(t)
                ==> configured(a, raw, v)
                == Ok::<Asked, Seq<char>>(Asked { grind: Some(t@), ..a }))
            &&& (configured(a, raw, v) is Ok <==> v is Str)
        }),
        key_of(raw) == "status-format"@ ==> ({
            &&& (v matches Value::Str(t) ==> t@ == "text"@
                ==> configured(a, raw, v)
                == Ok::<Asked, Seq<char>>(Asked { status_format: Some(Format::Text), ..a }))
            &&& (v matches Value::Str(t) ==> t@ == "json"@
                ==> configured(a, raw, v)
                == Ok::<Asked, Seq<char>>(Asked { status_format: Some(Format::Json), ..a }))
            &&& (configured(a, raw, v) is Ok
                <==> (v matches Value::Str(t) && (t@ == "text"@ || t@ == "json"@)))
        }),
        key_of(raw) == "config"@ ==> ({
            &&& (configured(a, raw, v) is Err)
        }),
{
    if key_of(raw) == "url"@ {
        lemma_key_url(a, raw, v);
    }
    if key_of(raw) == "address"@ {
        lemma_key_address(a, raw, v);
    }
    if key_of(raw) == "stratum"@ {
        lemma_key_stratum(a, raw, v);
    }
    if key_of(raw) == "cpu-affinity"@ {
        lemma_key_cpu_affinity(a, raw, v);
    }
    if key_of(raw) == "grind"@ {
        lemma_key_grind(a, raw, v);
    }
    if key_of(raw) == "status-format"@ {
        lemma_key_status_format(a, raw, v);
    }
    if key_of(raw) == "config"@ {
        lemma_key_config(a, raw, v);
    }
}

/// A key that is not known is refused.
pub proof fn law_an_unknown_key_is_refused(a: Asked, raw: Seq<char>, v: Value)
    ensures
        configured(a, raw, v) is Ok ==> (
            key_of(raw) == "url"@
            || key_of(raw) == "address"@
            || key_of(raw) == "stratum"@
            || key_of(raw) == "threads"@
            || key_of(raw) == "batch"@
            || key_of(raw) == "cpu-affinity"@
            || key_of(raw) == "cpu-priority"@
            || key_of(raw) == "huge-pages"@
            || key_of(raw) == "no-huge-pages"@
            || key_of(raw) == "status"@
            || key_of(raw) == "max-shares"@
            || key_of(raw) == "max-blocks"@
            || key_of(raw) == "deadline"@
            || key_of(raw) == "max-reconnects"@
            || key_of(raw) == "no-reconnect"@
            || key_of(raw) == "verbose"@
            || key_of(raw) == "bench"@
            || key_of(raw) == "bench-seconds"@
            || key_of(raw) == "print-topology"@
            || key_of(raw) == "grind"@
            || key_of(raw) == "no-pin"@
            || key_of(raw) == "status-format"@
            || key_of(raw) == "config"@),
{
}

/// A key is spelled with dashes or underscores and in either case.
pub proof fn law_keys_are_spelled_loosely(raw: Seq<char>, i: int)
    requires
        0 <= i < raw.len(),
    ensures
        key_of(raw).len() == raw.len(),
        raw[i] == '_' ==> key_of(raw)[i] == '-',
        'A' <= raw[i] <= 'Z' ==> key_of(raw)[i] as u32 == raw[i] as u32 + 32,
        raw[i] != '_' && !('A' <= raw[i] <= 'Z') ==> key_of(raw)[i] == raw[i],
{
}

proof fn lemma_configured_push(pairs: Seq<(String, Value)>, p: (String, Value), i: int, a: Asked)
    requires
        0 <= i <= pairs.len(),
    ensures
        configured_from(pairs.push(p), i, a) == (match configured_from(pairs, i, a) {
            Err(e) => Err(e),
            Ok(b) => if repeats(pairs.push(p), pairs.len() as int) {
                Err(text::debug_of(p.0@) + " is set twice"@)
            } else {
                configured(b, p.0@, p.1)
            },
        }),
    decreases pairs.len() - i,
{
    let all = pairs.push(p);
    if i == pairs.len() {
        assert(all[i] == p);
        match configured(a, p.0@, p.1) {
            Ok(b) => {
                assert(configured_from(all, i + 1, b) == Ok::<Asked, Seq<char>>(b));
            },
            Err(_) => {},
        }
    } else {
        assert(all[i] == pairs[i]);
        assert(repeats(all, i) == repeats(pairs, i)) by {
            if repeats(all, i) {
                let j = choose|j: int|
                    0 <= j < i && key_of((#[trigger] all[j]).0@) == key_of(all[i].0@);
                assert(pairs[j] == all[j]);
            }
            if repeats(pairs, i) {
                let j = choose|j: int|
                    0 <= j < i && key_of((#[trigger] pairs[j]).0@) == key_of(pairs[i].0@);
                assert(pairs[j] == all[j]);
            }
        }
        match configured(a, pairs[i].0@, pairs[i].1) {
            Ok(b) => {
                lemma_configured_push(pairs, p, i + 1, b);
            },
            Err(_) => {},
        }
    }
}

/// An entry behind the others of a file sets its key over what they ask for,
/// unless one of them has set it: a key that is set twice is refused.
pub proof fn law_an_entry_more_sets_its_key(pairs: Seq<(String, Value)>, p: (String, Value), j: int)
    requires
        configured_from(pairs, 0, nothing_asked()) is Ok,
    ensures
        0 <= j < pairs.len() && key_of(pairs[j].0@) == key_of(p.0@) ==> configured_from(
            pairs.push(p),
            0,
            nothing_asked(),
        ) is Err,
        (forall|k: int| 0 <= k < pairs.len() ==> key_of((#[trigger] pairs[k]).0@) != key_of(p.0@))
            ==> configured_from(pairs.push(p), 0, nothing_asked()) == configured(
            configured_from(pairs, 0, nothing_asked())->Ok_0,
            p.0@,
            p.1,
        ),
{
    let all = pairs.push(p);
    lemma_configured_push(pairs, p, 0, nothing_asked());
    assert(all[pairs.len() as int] == p);
    if 0 <= j < pairs.len() && key_of(pairs[j].0@) == key_of(p.0@) {
        assert(all[j] == pairs[j]);
        assert(repeats(all, pairs.len() as int));
    }
    if forall|k: int| 0 <= k < pairs.len() ==> key_of((#[trigger] pairs[k]).0@) != key_of(p.0@) {
        assert(!repeats(all, pairs.len() as int)) by {
            assert forall|k: int| 0 <= k < pairs.len() implies key_of((#[trigger] all[k]).0@)
                != key_of(p.0@) by {
                assert(all[k] == pairs[k]);
            }
        }
    }
}

/// A value behind an equals sign is the value of the flag before it.
pub proof fn law_an_inline_value_is_the_value(name: Seq<char>, v: Seq<char>, a: Asked)
    requires
        forall|k: int| 0 <= k < name.len() ==> name[k] != '=',
        text::stands(name, "--"@, 0),
        switched(a, name) is None,
        takes(name) is Some,
    ensures
        asked_from(seq![name + seq!['='] + v], 0, a) == asked_from(seq![name, v], 0, a),
{
    let raw = name + seq!['='] + v;
    lemma_one_flag(name, v, a);
    reveal(read_all);
    reveal_strlit("--");
    assert(raw =~= name + (seq!['='] + v));
    text::lemma_index_behind(name, seq!['='] + v, '=', 0);
    assert((seq!['='] + v)[0] == '=');
    assert(raw.subrange(0, 2) =~= name.subrange(0, 2));
    assert(raw.take(name.len() as int) =~= name);
    assert(raw.skip(name.len() as int + 1) =~= v);
    let argv = seq![raw];
    assert(argv[0] == raw);
    match flagged(a, name, v) {
        Ok(b) => {
            assert(asked_from(argv, 1, b) == Ok::<Asked, Seq<char>>(b));
        },
        Err(_) => {},
    }
}

/// The options are what was asked for, setting by setting, and the defaults where
/// nothing was: no limits, reconnecting, a report every ten seconds as text, huge
/// pages tried, ten seconds of benchmark, workers pinned.
pub proof fn law_options_are_as_asked(
    p: Partial,
    path: Option<String>,
    machine: usize,
    notes: &mut Vec<String>,
    o: Options,
)
    requires
        call_ensures(resolve, (p, path, machine, notes), Ok(o)),
    ensures
        p.max_shares matches Some(x) ==> o.client.max_shares == x,
        p.max_shares is None ==> o.client.max_shares == 0,
        p.max_blocks matches Some(x) ==> o.client.max_blocks == x,
        p.max_blocks is None ==> o.client.max_blocks == 0,
        p.deadline_secs matches Some(x) ==> o.client.deadline_secs == x,
        p.deadline_secs is None ==> o.client.deadline_secs == 0,
        p.verbose matches Some(x) ==> o.client.verbose == x,
        p.verbose is None ==> o.client.verbose == false,
        p.reconnect matches Some(x) ==> o.client.reconnect == x,
        p.reconnect is None ==> o.client.reconnect == true,
        p.max_reconnects matches Some(x) ==> o.client.max_reconnects == x,
        p.max_reconnects is None ==> o.client.max_reconnects == 0,
        p.status_secs matches Some(x) ==> o.client.status_secs == x,
        p.status_secs is None ==> o.client.status_secs == 10,
        p.status_format matches Some(x) ==> o.client.status_format == x,
        p.status_format is None ==> o.client.status_format == Format::Text,
        p.stratum matches Some(x) ==> o.client.stratum@ == x@,
        p.stratum is None ==> o.client.stratum@ == "127.0.0.1:9258"@,
        p.login matches Some(x) ==> o.client.login@ == x@,
        p.login is None ==> o.client.login@ == ""@,
        p.pages matches Some(x) ==> o.pages == x,
        p.pages is None ==> o.pages == Ask::Auto,
        o.client.huge_pages <==> o.pages != Ask::Never,
        p.bench_secs matches Some(x) ==> o.bench_secs == x && x > 0,
        p.bench_secs is None ==> o.bench_secs == 10,
        p.no_pin matches Some(x) ==> o.no_pin == x,
        p.no_pin is None ==> !o.no_pin,
        o.priority == p.priority,
        o.batch == p.batch,
        list_view(o.cpus) == list_view(p.cpus),
        text_view(o.config_path) == text_view(path),
        o.client.silence_deadline_ms == 90_000,
        p.print_topology == Some(true) <==> o.action is PrintTopology,
        o.action is Bench <==> p.bench == Some(true) && p.print_topology != Some(true),
        o.action is Mine <==> p.bench != Some(true) && p.print_topology != Some(true)
            && p.grind is None,
        o.action matches Action::Grind(h) ==> p.grind is Some && h@ == p.grind->Some_0@,
        p.priority matches Some(x) ==> x <= 5,
        p.cpus is Some ==> p.threads is None,
{
}

/// One worker runs on each processor of a list; else as many as were asked for,
/// where none is asked for as one; else one for each processor of the machine;
/// and never more than 256.
pub proof fn law_workers_are_counted_as_asked(
    p: Partial,
    path: Option<String>,
    machine: usize,
    notes: &mut Vec<String>,
    o: Options,
)
    requires
        call_ensures(resolve, (p, path, machine, notes), Ok(o)),
    ensures
        o.client.threads <= 256,
        p.cpus matches Some(l) ==> l@.len() <= 256 ==> o.client.threads == l@.len(),
        p.cpus is None ==> (p.threads matches Some(n) ==> 1 <= n <= 256 ==> o.client.threads == n),
        p.cpus is None && p.threads == Some(0usize) ==> o.client.threads == 1,
        p.cpus is None && p.threads is None && machine <= 256 ==> o.client.threads == machine,
        p.cpus is None ==> (p.threads matches Some(n) ==> n > 256 ==> o.client.threads == 256),
        p.cpus matches Some(l) ==> 256 < l@.len() <= usize::MAX ==> o.client.threads == 256,
{
}

} // verus!
