//! The configuration file that a node writes where it finds none: every
//! setting with its default, and every line of it commented out.

use vstd::prelude::*;
use crate::node::config::{Network, BLOCKS_PER_YEAR, PORT_P2P, PORT_RPC, PORT_STRATUM};
use crate::node::settings::{MAX_PEERS, STRATUM_CONNECTION_CEILING};
use crate::text;
use crate::text::{push_dec, to_chars};

verus! {

pub const PART_A: &'static str = r##"# noded.toml - Plaine node configuration
#
# Every setting here is already the default, and every line is commented out.
# This file changes nothing as written. It exists so you can see what exists
# without reading documentation. Delete it and restart to get it back.
#
# Uncomment a line to change it. An empty file is valid and is the normal case.

[node]
# network = ""##;

pub const PART_B: &'static str = r##""        # the only network is "main"
# data_dir = ""##;

pub const PART_C: &'static str = r##""
                               # Windows default: %APPDATA%\Plaine
                               # Linux/macOS default: ~/.plaine
                               # Use 'single quotes' for a Windows path so the
                               # backslashes are not read as escapes.
# prune = true                 # keep the last "##;

pub const PART_D: &'static str = r##" block bodies (~1 year).
                               # false = archive node, keeps everything.
# txindex = false              # index every txid so tx_get can find confirmed
                               # transactions. Costs ~0.9 GB/year and requires
                               # a resync to build.
# addrindex = false            # index which transactions touch each address, so
                               # account_getHistory can list them (the desktop
                               # wallet needs it). Covers blocks connected after
                               # it is switched on; resync for the full chain.
# verify_frames = false        # the two deep integrity sweeps at boot.
                               # L2 (bodies): re-checks every frame of every
                               # sealed body segment against its anchor. Catches
                               # an interior same-length payload substitution
                               # with its CRC fixed up, which is the one class
                               # the always-on L1 check cannot see. It says
                               # nothing about the header stream.
                               # L3-H (headers): walks the chain link inside
                               # each sealed header segment. Catches interior
                               # header bit rot - up to 4094 headers per segment
                               # that L1 and L2 both miss and the node serves.
                               # Slow - L2 is 4096 scattered reads per segment -
                               # so run it after a disk event, not every start.

[p2p]
# listen = "0.0.0.0:"##;

pub const PART_E: &'static str = r##""
# max_peers = "##;

pub const PART_F: &'static str = r##"                # frozen ceiling: "##;

pub const PART_G: &'static str = r##"
# seeds = []                   # empty = use the seeds built into this binary,
                               # which are DNS names, not addresses, so the
                               # network can move without a new release.
                               # List your own only for a private network.
# use_embedded_seeds = true    # false = an empty `seeds` really means none.
                               # The node then dials nobody and can only be
                               # found by peers that dial in.

[stratum]
# listen = "127.0.0.1:"##;

pub const PART_H: &'static str = r##""    # the built-in solo stratum server. Write
                               # 0.0.0.0 to let miners on other machines in.
# max_connections = 256        # ceiling "##;

pub const PART_I: &'static str = r##"; raise LimitNOFILE with it
#
# Every limit below is settable. A limit of 0 means "no limit" for that line
# (rates, caps, timeouts, throttle), and every timeout at 0 never fires.
# enforcement = true           # false turns off all built-in policy at once:
                               # no bans, rate limits, caps or timeouts. The
                               # node stops policing itself and you drive policy
                               # from outside (fail2ban, a pool front end).
                               # Difficulty adjustment keeps running either way.
#
# connection caps
# max_per_ip = 16              # 0 = unlimited concurrent conns per address
# new_conns_per_ip_per_min = 6 # 0 = no per-address connect rate limit
# global_accept_per_sec = 50   # 0 = no global accept rate limit
#
# bans and misbehavior scoring
# bans_enabled = true          # false disables scoring, bans and throttling
# ban_threshold = 100          # score that triggers a ban; 0 = never ban
# ban_soft_cap = 25            # ceiling on the soft (stale) part of a score
# ban_decay_secs = 6           # one score point forgiven every this many secs
# ban_base_secs = 600          # first ban length
# ban_ladder_factor = 4        # each repeat ban multiplies the length by this
# ban_max_secs = 86400         # ban length ceiling
# ban_table_entries = 65536    # tracked addresses (LRU)
# garbage_throttle_secs = 60   # throttle window for a garbage source; 0 = off
#
# rate limits
# submit_rate_per_sec = 3      # share submits per second; 0 = unlimited
# submit_burst = 10            # submit burst allowance
# line_rate_per_sec = 20       # messages per second; 0 = unlimited
# line_burst = 60              # message burst allowance
#
# timeouts (0 = never disconnect on this)
# auth_deadline_secs = 10      # drop a connection that never authorizes
# idle_evict_secs = 1800       # drop an authorized connection sending no shares
# read_deadline_secs = 600     # drop a connection sending no bytes
# write_timeout_secs = 30      # drop a connection that cannot take writes
# out_buf_cap_bytes = 4096     # drop a slow reader whose out buffer passes this
#
# vardiff (difficulty control; bounds, retarget cadence and controller shape)
# vardiff_enabled = true       # false turns off node-side vardiff: every miner
                               # runs at a fixed difficulty (vardiff_fixed_diff,
                               # or vardiff_start_diff if that is 0) and the node
                               # never retargets. Hand difficulty control to a
                               # pool front end this way. The +difficulty login
                               # suffix still pins a per-miner difficulty.
# vardiff_fixed_diff = 0       # difficulty used when vardiff_enabled = false;
                               # 0 = use vardiff_start_diff
# vardiff_setpoint_secs = 0    # target secs per share; 0 = auto from the budget
# vardiff_start_diff = 60000   # starting difficulty for a fresh miner
# vardiff_min_diff = 8192      # difficulty floor
# vardiff_max_diff = 0         # difficulty ceiling; 0 = cap at network difficulty
# vardiff_tick_secs = 2        # vardiff evaluation period
# vardiff_retarget_gate_shares = 20   # shares before a normal retarget
# vardiff_retarget_gate_secs = 120    # or this long since the last retarget
# vardiff_warmup_shares = 30   # a miner is "warming up" below this share count
# vardiff_warmup_gate_shares = 5      # retarget gate while warming up
# vardiff_mature_shares = 60   # a miner is "mature" at or above this count
# vardiff_max_step = 4         # largest per-retarget difficulty step factor
# vardiff_dead_zone_pct = 150  # young miner: retarget only past 1.50x off target
# vardiff_mature_zone_pct = 115  # mature miner: tighter band, 1.15x off target
# vardiff_fast_escape_pct = 170  # retarget at once when this far off (x100)
# vardiff_silence_slack = 4    # lower difficulty after this many setpoints silent
# vardiff_dsps_tau_fast_secs = 60     # share-rate smoothing windows (three EMAs)
# vardiff_dsps_tau_mid_secs = 300
# vardiff_dsps_tau_slow_secs = 3600
# vardiff_ladder = [10, 12, 15, 20, 25, 30, 40, 50, 60, 80]
                               # difficulty rounding rungs, each a mantissa x10
                               # (10 = 1.0). Must increase, 1 to 16 entries.
#
# difficulty cache and reconnect storm floor
# diff_cache_entries = 65536
# diff_cache_ttl_secs = 86400
# reconnect_storm_per_min = 4  # 0 = do not pin a floor on reconnect storms
# reconnect_storm_window_secs = 300

[rpc]
# listen = "127.0.0.1:"##;

pub const PART_J: &'static str = r##""
# token = ""                   # required if `listen` is not a loopback address.
                               # On loopback no token is used: anything that can
                               # reach 127.0.0.1 is already a local user.
                               # The node refuses to start on a public address
                               # with no token. There is no TLS here - put a
                               # reverse proxy in front if you expose it.

[mempool]
# relay_fee_mile = 1            # default; this node's relay policy, not a consensus
                               # rule. The consensus floor is 1 mile and nothing in
                               # this file can move it. Raise this to shed dust.
# max_txs = "##;

pub const PART_K: &'static str = r##"

[mining]
# author_note = ""             # your own comment in the blocks you mine.
                               # Empty by default deliberately: a constant
                               # string links every block you ever mine to
                               # every other one. Max 256 bytes.

[checkpoints]
# ---------------------------------------------------------------------------
# Signed checkpoints are a temporary defence for the chain's first year
#. They can only reject a deep reorg; they never create, reorder or
# censor blocks. They stop working by themselves at height "##;

pub const PART_L: &'static str = r##" - that
# height is compiled into the binary and nothing in this file can extend it.
#
# Three states, and they cannot be confused for one another:
#
#   1. use the official embedded key   <- the normal case, and the default
#      write nothing, or:  keys = []
#
#   2. use your own key(s)             <- key rotation, or a private network
#      keys = ["<64 hex characters>"]
#
#   3. turn the layer off entirely     <- you lose protection against deep reorgs
#      enabled = false
#
# Note the asymmetry, it is deliberate: no value of `keys` can ever switch the
# layer off. Emptying a list is what people do when they want something off,
# so emptying this one lands on the safe answer (the embedded key) instead.
# Switching it off takes the word `false` on the `enabled` line, which nobody
# types by accident. Whichever state is in force is printed at every startup.
# ---------------------------------------------------------------------------
# enabled = true
# threshold = 1                # frozen at 1 with exactly one key.
                               # It is a setting rather than a constant only so
                               # that a future change would be a config edit
                               # instead of a fork.
# keys = []                    # empty = the official key embedded in this
                               # binary. You never need to fill this in.

[author]
# The author announcement key. A separate key from the checkpoint
# one, and it has no sunset - because all it can do is write at most 1 KiB of
# text into a block. It cannot reject a block, reorder a transaction, censor
# anything or create a coin. That is why it is safe to leave it permanent, and
# why a leak of it costs false text and nothing else.
#
# This is how an emergency algorithm change reaches you when a website, a
# domain or a messenger has been taken away: the message is in the chain.
# `pubkey` empty means the key embedded in this binary, which is the normal
# case. There is no `enabled` here, because there is nothing to disable.
# pubkey = ""                  # empty = embedded key. Fill in only on rotation.
# show_in_log = true           # print new announcements to this log

[log]
# level = "info"               # error | warn | info | debug | trace
"##;

/// A text with each backslash in it written twice.
pub open spec fn doubled(s: Seq<char>) -> Seq<char>
    decreases s.len(),
{
    if s.len() == 0 {
        Seq::empty()
    } else if s.last() == '\\' {
        doubled(s.drop_last()).push('\\').push('\\')
    } else {
        doubled(s.drop_last()).push(s.last())
    }
}

fn double(s: &str) -> (t: String)
    ensures
        t@ == doubled(s@),
{
    let v = to_chars(s);
    let mut t = String::new();
    let mut i: usize = 0;
    assert(v@.take(0) =~= Seq::<char>::empty());
    assert(t@ =~= Seq::<char>::empty());
    while i < v.len()
        invariant
            i <= v.len(),
            t@ == doubled(v@.take(i as int)),
        decreases v.len() - i,
    {
        assert(v@.take(i as int + 1).drop_last() =~= v@.take(i as int));
        assert(v@.take(i as int + 1).last() == v@[i as int]);
        if v[i] == '\\' {
            t.push('\\');
        }
        t.push(v[i]);
        i += 1;
    }
    assert(v@.take(i as int) =~= v@);
    t
}

/// The text of the file, on a machine whose data directory is `dir`.
pub open spec fn template(dir: Seq<char>, max_txs: u32, sunset: u64) -> Seq<char> {
    PART_A@ + "main"@ + PART_B@ + doubled(dir) + PART_C@ + text::dec(525_960) + PART_D@ + text::dec(9256) + PART_E@ + text::dec(128) + PART_F@ + text::dec(128) + PART_G@ + text::dec(9258) + PART_H@ + text::dec(8192) + PART_I@ + text::dec(9257) + PART_J@ + text::dec(max_txs as nat) + PART_K@ + text::dec(sunset as nat) + PART_L@
}

/// The text of the file, on a machine whose data directory is `dir`.
pub fn default_config_text(network: Network, dir: &str, max_txs: u32, sunset: u64) -> (t: String)
    ensures
        t@ == template(dir@, max_txs, sunset),
{
    let mut t = PART_A.to_owned();
    t.append(network.as_str());
    t.append(PART_B);
    t.append(double(dir).as_str());
    t.append(PART_C);
    push_dec(&mut t, BLOCKS_PER_YEAR);
    t.append(PART_D);
    push_dec(&mut t, PORT_P2P as u64);
    t.append(PART_E);
    push_dec(&mut t, MAX_PEERS as u64);
    t.append(PART_F);
    push_dec(&mut t, MAX_PEERS as u64);
    t.append(PART_G);
    push_dec(&mut t, PORT_STRATUM as u64);
    t.append(PART_H);
    push_dec(&mut t, STRATUM_CONNECTION_CEILING as u64);
    t.append(PART_I);
    push_dec(&mut t, PORT_RPC as u64);
    t.append(PART_J);
    push_dec(&mut t, max_txs as u64);
    t.append(PART_K);
    push_dec(&mut t, sunset);
    t.append(PART_L);
    t
}

} // verus!
