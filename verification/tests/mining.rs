use plaine::miner::argv::Ask;
use plaine::miner::jobs::JobTrack;
use plaine::miner::ladder::{
    all_workers_stopped, limit_reached, no_workers_is_fatal, preflight, remaining, say_once, Args,
    Ended, Ladder, Next, Outcome, Past, Report, Run, Rungs, AUTH_BACKOFF_MAX, AUTH_BACKOFF_MIN,
    BACKOFF_MAX, BACKOFF_MIN, BACKOFF_RESET_AFTER,
};
use plaine::miner::pad;
use plaine::miner::pad::{
    field, kinds, last_note, observed_ever, observed_now, record, status_field, unrecord, PadPages,
    Plan, Summary, Tally, PAD_ALIGN, PAD_BYTES,
};
use plaine::miner::work::{
    assemble, compose, compose_in, e1_limit, network_target_from_prefix, nonce_hex, owns, owns_in,
    target_be_from_bits, target_from_difficulty, JobView, Shared, BITS_OFFSET, E1_BITS, JOB_SLOTS,
    PREFIX_BYTES, STALE_CREDIT_GRACE, THREAD_BITS, X_BITS, X_BITS_MIN, X_BYTES, X_BYTES_MIN,
};
use plaine::miner::front::{
    check_login, choose_batch, grind_line, header_bits, page_lines, parse_header, pin_lines,
    status_report, summary, uptime, Pace, Top,
};
use plaine::miner::status::Format;
use plaine::miner::topo::Topology;
use plaine::miner::worker;
use plaine::miner::worker::{
    headers, lane_lines, meets, scan, status_line, uptime_str, Grind, Status, Worker, BATCH,
};

#[test]
fn an_unpadded_job_id_comes_back_exactly_as_sent() {
    // rplant.xyz issues "2341", not "00002341". Parsing it to a u32 and re-emitting
    // it padded hands the server an id it never issued; it answered every one of 35
    // such submits with error 21 and accepted none.
    let mut j = JobTrack::default();
    for hex in ["2341", "00002341", "a", "FFFFFFFF", "0"] {
        let id = u32::from_str_radix(hex, 16).expect("test ids are hex");
        j.notify(id, hex, true, 0);
        assert!(j.submittable(id, 0));
        assert_eq!(
            j.hex_of(id),
            Some(hex),
            "the submit must echo the server's own spelling of {hex:?}"
        );
    }
}

#[test]
fn a_displaced_job_keeps_its_spelling_through_the_grace() {
    let mut j = JobTrack::default();
    j.notify(0x2341, "2341", true, 0);
    j.notify(0x2342, "2342", true, 0);
    assert_eq!(j.hex_of(0x2341), Some("2341"), "a job inside its grace is still submittable");
    assert_eq!(j.hex_of(0x2342), Some("2342"));
    assert_eq!(j.hex_of(0x9999), None);
}

#[test]
fn clean_keeps_displaced_job_for_grace() {
    let mut j = JobTrack::default();
    j.notify(1, &format!("{:08x}", 1), true, 0);
    j.notify(2, &format!("{:08x}", 2), true, 0);
    assert!(j.submittable(2, 0), "the current job");
    assert!(j.submittable(1, 0), "displaced by a clean, still credited");
    assert!(!j.submittable(99, 0), "never served");
}

#[test]
fn jobs_since_clean_stay_submittable() {
    let mut j = JobTrack::default();
    j.notify(10, &format!("{:08x}", 10), true, 0);
    for id in 11..=13 {
        j.notify(id, &format!("{:08x}", id), false, 0);
    }
    for id in 10..=13 {
        assert!(j.submittable(id, 0), "job {id} is still live on the server");
    }

    j.notify(14, &format!("{:08x}", 14), false, 0);
    assert!(!j.submittable(10, 0), "rotated out of a {}-slot ring", JOB_SLOTS);
    assert!(j.submittable(14, 0));
}

#[test]
fn clean_retires_older_jobs() {
    let mut j = JobTrack::default();
    j.notify(1, &format!("{:08x}", 1), true, 0);
    j.notify(2, &format!("{:08x}", 2), false, 0);
    j.notify(3, &format!("{:08x}", 3), false, 0);
    j.notify(4, &format!("{:08x}", 4), true, 0);
    assert!(j.submittable(4, 0));
    assert!(j.submittable(3, 0), "the displaced head keeps its grace");
    assert!(!j.submittable(2, 0), "cleared by the clean");
    assert!(!j.submittable(1, 0), "cleared by the clean");
}

#[test]
fn the_grace_ends() {
    let mut j = JobTrack::default();
    j.notify(1, "00000001", true, 0);
    j.notify(2, "00000002", true, 1_000);
    assert!(j.submittable(1, 999 + STALE_CREDIT_GRACE));
    assert!(!j.submittable(1, 1_000 + STALE_CREDIT_GRACE), "the grace is over");
    assert!(j.submittable(2, 1_001 + STALE_CREDIT_GRACE));
    assert_eq!(j.newest(), Some(2));
}

const BANSCORE_ERROR_24: f64 = 25.0;

const BANSCORE_BAN_AT: f64 = 100.0;

const BANSCORE_DECAY_SECS: f64 = 6.0;

const CONNECTIONS_PER_MINUTE: usize = 6;

fn peak_banscore(mut rungs: Rungs, attempts: usize) -> f64 {
    let mut score = 0.0f64;
    let mut peak = 0.0f64;
    for _ in 0..attempts {
        score += BANSCORE_ERROR_24;
        peak = peak.max(score);
        let waited = rungs.step() as f64 / 1000.0;
        score = (score - waited / BANSCORE_DECAY_SECS).max(0.0);
    }
    peak
}

fn attempts_in_the_first_minute(mut rungs: Rungs) -> usize {
    let mut at = 0;
    let mut n = 0;
    while at < 60_000 {
        n += 1;
        at += rungs.step();
    }
    n
}

#[test]
fn connection_ladder_doubles_to_cap() {
    let mut r = Rungs::new(BACKOFF_MIN, BACKOFF_MAX);
    let seen: Vec<u64> = (0..9).map(|_| r.step()).collect();
    assert_eq!(seen[0], 1000);
    assert_eq!(seen[1], 2000);
    assert_eq!(seen[4], 16000);
    assert_eq!(seen[5], BACKOFF_MAX, "16 doubles to 32, capped at 30");
    assert!(seen.iter().all(|d| *d <= BACKOFF_MAX));

    r.reset();
    assert_eq!(r.step(), BACKOFF_MIN);
}

#[test]
fn auth_ladder_slower_than_connection() {
    let mut conn = Rungs::new(BACKOFF_MIN, BACKOFF_MAX);
    let mut auth = Rungs::new(AUTH_BACKOFF_MIN, AUTH_BACKOFF_MAX);
    for rung in 0..12 {
        let (c, a) = (conn.step(), auth.step());
        assert!(
            a > c,
            "rung {rung}: a refused login waits {a:?} and a dropped connection {c:?}; \
             the two ladders have converged and the slow one has stopped being slow"
        );
    }

    assert!(AUTH_BACKOFF_MAX > BACKOFF_MAX);
    assert!(AUTH_BACKOFF_MIN > BACKOFF_MAX, "the slow ladder's first rung outlasts the fast one's last");
}

#[test]
fn auth_ladder_stays_below_ban() {
    let peak = peak_banscore(Rungs::new(AUTH_BACKOFF_MIN, AUTH_BACKOFF_MAX), 64);
    assert!(
        peak < BANSCORE_BAN_AT,
        "a miner refused 64 times peaks at {peak} banscore against a threshold of \
         {BANSCORE_BAN_AT}; the ban rule would ban this IP for 600 s and then \
         for 2 400"
    );

    assert_eq!(peak, BANSCORE_ERROR_24, "the score should never carry from one attempt to the next");
    assert_eq!(
        AUTH_BACKOFF_MIN as f64 / 1000.0,
        BANSCORE_ERROR_24 * BANSCORE_DECAY_SECS,
        "AUTH_BACKOFF_MIN is exactly the time error 24's +25 takes to decay away"
    );

    let fast = peak_banscore(Rungs::new(BACKOFF_MIN, BACKOFF_MAX), 5);
    assert!(
        fast >= BANSCORE_BAN_AT,
        "retrying a refusal on the connection ladder peaks at only {fast}; if that is \
         genuinely safe then the second ladder is not buying anything"
    );
}

#[test]
fn ladders_respect_rate_limit() {
    let conn = attempts_in_the_first_minute(Rungs::new(BACKOFF_MIN, BACKOFF_MAX));
    assert!(
        conn <= CONNECTIONS_PER_MINUTE,
        "a miner reconnecting to a flapping server opens {conn} connections in its first \
         minute; the rate limit accepts {CONNECTIONS_PER_MINUTE} from one IP"
    );
    assert_eq!(
        attempts_in_the_first_minute(Rungs::new(AUTH_BACKOFF_MIN, AUTH_BACKOFF_MAX)),
        1,
        "a refused login should cost exactly one connection a minute, and not even that"
    );
}

#[test]
fn ladders_are_independent() {
    let mut conn = Rungs::new(BACKOFF_MIN, BACKOFF_MAX);
    let mut auth = Rungs::new(AUTH_BACKOFF_MIN, AUTH_BACKOFF_MAX);
    for _ in 0..6 {
        auth.step();
    }
    assert_eq!(conn.step(), BACKOFF_MIN, "authorization failures climbed the connection ladder");

    let mut conn = Rungs::new(BACKOFF_MIN, BACKOFF_MAX);
    let mut auth = Rungs::new(AUTH_BACKOFF_MIN, AUTH_BACKOFF_MAX);
    for _ in 0..6 {
        conn.step();
    }
    assert_eq!(auth.step(), AUTH_BACKOFF_MIN, "outages climbed the authorization ladder");
}

#[test]
fn no_workers_ends_before_first_hash() {
    let mut r = Report::default();
    assert!(
        no_workers_is_fatal(&r),
        "a miner that has never hashed and cannot map a scratchpad must stop, not loop \
         forever printing one line at an unattended rig"
    );
    r.hashes = 1;
    assert!(
        !no_workers_is_fatal(&r),
        "a miner that has mined has proved this machine can map pads; the failure is a \
         condition of the moment and it must wait it out"
    );

    let r = Report { connections: 1, ..Report::default() };
    assert!(no_workers_is_fatal(&r), "authorizing is not evidence that anything was mined");
}

#[test]
fn condition_logged_once_then_on_change() {
    let mut said = None;
    assert!(say_once(&mut said, "server closed the connection"), "the first time always speaks");
    for _ in 0..300 {
        assert!(
            !say_once(&mut said, "server closed the connection"),
            "the same cause was reprinted; 300 identical lines bury the one that matters"
        );
    }
    assert!(say_once(&mut said, "authorize refused: 24 bad address"), "a changed cause must be reported");

    said = None;
    assert!(say_once(&mut said, "authorize refused: 24 bad address"), "the trouble came back and nothing was said");
}

#[test]
fn all_workers_stopped_is_noticed() {
    assert!(
        !all_workers_stopped(&[]),
        "no workers yet is not all workers stopped; every session is in that state \
         until mining.authorize, and a vacuous truth here ends it before it begins"
    );
    assert!(!all_workers_stopped(&[false]), "a worker that is mining has not stopped");
    assert!(
        all_workers_stopped(&[true]),
        "every worker has returned and the session would go on holding the socket"
    );
    assert!(!all_workers_stopped(&[true, false, true]));
}

#[test]
fn preflight_passes_when_mineable() {
    preflight(None).expect("a machine that has AES is mineable");
    assert!(preflight(Some("no AES")).unwrap_err().contains("no AES"));
}

#[test]
fn defaults_are_zero_config() {
    let a = Args::default();
    assert_eq!(a.stratum, "127.0.0.1:9258");
    assert!(a.reconnect, "a miner that stops at the first hiccup is not zero-config");
    assert_eq!(a.status_secs, 10);
    assert!(a.threads >= 1);
    assert!(a.login.is_empty(), "the payee has no honest default");
}

#[test]
fn deadline_shortens_backoff() {
    let args = Args { deadline_secs: 2, ..Args::default() };
    let left = remaining(&args, 0).expect("a deadline was set");
    assert!(left <= 2_000);
    assert!(remaining(&Args::default(), 0).is_none(), "no deadline, no limit");
    assert_eq!(remaining(&args, 500), Some(1_500));
    assert_eq!(remaining(&args, 9_000), Some(0));
}

#[test]
fn limits_span_reconnects() {
    let args = Args { max_shares: 2, ..Args::default() };
    let mut r = Report::default();
    assert!(!limit_reached(&args, 0, &r));
    r.accepted = 2;
    assert!(limit_reached(&args, 0, &r), "totals accumulate across sessions");

    let args = Args { max_blocks: 1, ..Args::default() };
    let mut r = Report::default();
    assert!(!limit_reached(&args, 0, &r));
    r.blocks = 1;
    assert!(limit_reached(&args, 0, &r));
}

// Stands in for the proof of work: it only has to spread nonces about.
fn stand_in(header: &[u8]) -> [u8; 32] {
    let mut a: u64 = 0xcbf2_9ce4_8422_2325;
    for b in header {
        a = (a ^ u64::from(*b)).wrapping_mul(0x0000_0100_0000_01b3);
    }
    let mut out = [0u8; 32];
    for (i, o) in out.iter_mut().enumerate() {
        a ^= a >> 29;
        a = a.wrapping_mul(0xbf58_476d_1ce4_e5b9).wrapping_add(i as u64);
        *o = (a >> 56) as u8;
    }
    out
}

fn hash_of(nonce: u64) -> [u8; 32] {
    stand_in(&assemble(&[0u8; PREFIX_BYTES], nonce))
}

// Every thread takes its turn a batch at a time; the first hit ends the search.
fn grind(target: &[u8; 32], threads: u64, start: u64) -> (u64, [u8; 32], u64) {
    let mut g: Vec<Grind> = (0..threads).map(|t| Grind::new(start, t, threads)).collect();
    let mut hashes = 0;
    loop {
        for one in g.iter_mut() {
            let nonces = one.batch();
            let hs: Vec<[u8; 32]> = nonces.iter().map(|n| hash_of(*n)).collect();
            hashes += BATCH as u64;
            if let Some((n, s)) = one.step(&hs, target) {
                assert_eq!(n, nonces[s]);
                return (n, hs[s], hashes);
            }
        }
    }
}

#[test]
fn grind_returns_a_valid_nonce() {
    let mut target = [0xffu8; 32];
    target[0] = 0x00;
    let (nonce, ph, hashes) = grind(&target, 4, 0);
    assert!(ph <= target, "grind returned nonce {nonce} whose pow_hash exceeds the target");
    assert!(hashes >= 1);
    assert_eq!(ph, hash_of(nonce), "reported pow_hash does not match a fresh hash of that nonce");
}

#[test]
fn grind_is_deterministic_and_lowest() {
    let mut target = [0xffu8; 32];
    target[0] = 0x00;
    let one = || {
        let hash = |all: &Vec<[u8; 132]>| Some(all.iter().map(|h| stand_in(h)).collect());
        worker::grind(&[0u8; 132], &target, 0, 1, 0, hash, || false).expect("the hash does not fail")
    };
    let (a, ph) = one().found.expect("solution");
    let b = one().found.expect("solution").0;
    assert_eq!(ph, hash_of(a));
    assert_eq!(one().hashes, (a / BATCH as u64 + 1) * BATCH as u64);
    assert_eq!(grind(&target, 1, 0).0, a, "a batch at a time finds the same");
    assert_eq!(a, b, "single-threaded grind is not reproducible");
    for n in 0..a {
        assert!(
            hash_of(n) > target,
            "nonce {n} also meets the target but grind returned the higher {a}"
        );
    }
}

#[test]
fn a_search_ends_where_it_is_told_to_or_cannot_hash() {
    let never = [0u8; 32];
    let hash = |all: &Vec<[u8; 132]>| Some(all.iter().map(|h| stand_in(h)).collect());
    let r = worker::grind(&[0u8; 132], &never, 0, 1, 0, hash, || true).expect("nothing was hashed");
    assert_eq!((r.found, r.hashes), (None, 0));
    let fails = |_: &Vec<[u8; 132]>| None;
    assert!(worker::grind(&[0u8; 132], &never, 0, 1, 0, fails, || false).is_none());
    let short = |_: &Vec<[u8; 132]>| Some(vec![[0u8; 32]]);
    assert!(worker::grind(&[0u8; 132], &never, 0, 1, 0, short, || false).is_none());
}

fn job(job_id: u32) -> JobView {
    JobView {
        job_id,
        job_id_hex: format!("{job_id:08x}"),
        prefix: [0x5A; PREFIX_BYTES],
        target: [0xff; 32],
        network_target: [0u8; 32],
        height: 7,
        live: true,
    }
}

// One batch of a worker, from its nonces to the solutions it reports.
fn mine(w: &mut Worker, shared: &mut Shared) -> Vec<u64> {
    assert!(w.looks(shared), "a job was published");
    let nonces = w.next_batch(BATCH);
    let j = w.job.as_ref().expect("the worker took it");
    let hs: Vec<[u8; 32]> = headers(j, &nonces).iter().map(|h| stand_in(h)).collect();
    shared.add_hashes_from(w.index as usize, nonces.len() as u64);
    scan(j, &nonces, &hs).iter().map(|s| s.nonce).collect()
}

#[test]
fn two_workers_mine_disjoint_nonces() {
    const UPSTREAM: u32 = 0x00A3F2;
    let x_bits = X_BITS_MIN;
    let e1 = (UPSTREAM << (32 - E1_BITS)) | 0x05;

    let mut shared = Shared::new(2);
    shared.set_window(e1, x_bits);
    shared.publish(job(1));

    let mut got = Vec::new();
    let mut workers = [Worker::new(0, &shared), Worker::new(1, &shared)];
    while got.len() < 6 * BATCH {
        for w in workers.iter_mut() {
            got.extend(mine(w, &mut shared));
        }
    }
    assert!(shared.lane(0) > 0 && shared.lane(1) > 0, "only one of the two workers ran");
    assert_eq!(shared.hashes(), got.len() as u64);

    let mut seen = std::collections::HashSet::new();
    for n in &got {
        assert!(
            owns_in(e1, *n, x_bits),
            "{n:#018x} is outside this rig's sub-slice: the worker rolled bits the proxy \
             kept, and a sibling rig is mining them too"
        );
        assert!(owns(UPSTREAM, *n), "{n:#018x} left the upstream 24-bit slice");
        assert!(seen.insert(*n), "{n:#018x} was mined twice");
    }

    let lane = |n: u64| (n >> (x_bits - THREAD_BITS)) & 0xFF;
    assert!(got.iter().any(|n| lane(*n) == 0), "worker 0 never appeared in the stream");
    assert!(got.iter().any(|n| lane(*n) == 1), "worker 1 never appeared in the stream");
}

#[test]
fn renotified_job_does_not_restart() {
    let mut shared = Shared::new(1);
    shared.set_e1(0x00A3F2);
    shared.publish(job(0));
    let mut w = Worker::new(0, &shared);
    let mut got = mine(&mut w, &mut shared);
    shared.publish(job(1));
    for _ in 0..5 {
        got.extend(mine(&mut w, &mut shared));
    }
    assert_eq!(w.job.as_ref().map(|j| j.job_id), Some(1));
    assert_eq!(got.len(), 6 * BATCH);
    assert!(
        got.iter().all(|n| owns(0x00A3F2, *n)),
        "every nonce must stay inside the connection's slice"
    );
    for pair in got.windows(2) {
        let (a, b) = (pair[0] as u32, pair[1] as u32);
        assert_eq!(
            b,
            a.wrapping_add(1),
            "the nonce counter did not advance contiguously across the job \
             change: {a:#010x} -> {b:#010x}. A re-notify must not restart the \
             search (nor the batch seam skip a nonce)."
        );
    }
}

#[test]
fn documented_example_reproduced() {
    let e1 = 0x00A3F2u32;
    let x = (3u64 << 32) | 42;
    let n = compose(e1, x);
    assert_eq!(n, 0x00A3_F203_0000_002A);
    assert_eq!(nonce_hex(n), "2a00000003f2a300");
    assert!(owns(e1, n));
    assert!(!owns(0x112233, n));
}

#[test]
fn nonce_lands_at_offset_124() {
    let h = assemble(&[0xAB; PREFIX_BYTES], 0x00A3_F203_0000_002A);
    assert_eq!(&h[..PREFIX_BYTES], &[0xABu8; PREFIX_BYTES][..]);
    assert_eq!(&h[124..], &[0x2A, 0, 0, 0, 0x03, 0xF2, 0xA3, 0x00]);
    assert_eq!(&h[129..132], &[0xF2, 0xA3, 0x00]);
}

// Reads the one compact target that these tests use: 0x1f00ffff.
fn decode(bits: u32) -> Option<[u64; 4]> {
    match bits {
        0 => Some([0; 4]),
        0x1f00_ffff => Some([0, 0, 0, 0x0000_ffff_0000_0000]),
        _ => None,
    }
}

#[test]
fn target_read_from_prefix_bits() {
    let mut prefix = [0u8; PREFIX_BYTES];
    let bits: u32 = 0x1f00_ffff;
    prefix[BITS_OFFSET..BITS_OFFSET + 4].copy_from_slice(&bits.to_le_bytes());
    let t = network_target_from_prefix(&prefix, decode).expect("these bits decode");
    assert_eq!(Some(t), target_be_from_bits(decode(bits)), "the prefix path and the bits path differ");

    assert_eq!(&t[..4], &[0x00, 0x00, 0xff, 0xff]);
    assert!(t[4..].iter().all(|&b| b == 0), "{t:?}");

    prefix[BITS_OFFSET] = 1;
    assert_eq!(network_target_from_prefix(&prefix, decode), None, "bits that do not decode");
}

#[test]
fn only_the_bits_decide_the_network_target() {
    let bits: u32 = 0x1f00_ffff;
    let (mut a, mut b) = ([0u8; PREFIX_BYTES], [0x77u8; PREFIX_BYTES]);
    for p in [&mut a, &mut b] {
        p[BITS_OFFSET..BITS_OFFSET + 4].copy_from_slice(&bits.to_le_bytes());
    }
    assert_eq!(network_target_from_prefix(&a, decode), network_target_from_prefix(&b, decode));
}

#[test]
fn empty_prefix_makes_impossible_target() {
    let prefix = [0u8; PREFIX_BYTES];
    assert_eq!(network_target_from_prefix(&prefix, decode), Some([0u8; 32]));
    assert_eq!(JobView::empty().network_target, [0u8; 32]);
    assert!(!JobView::empty().live, "the placeholder job is never mined");
}

#[test]
fn difficulty_one_and_zero_clamp() {
    assert_eq!(target_from_difficulty(0), [0xff; 32]);
    assert_eq!(target_from_difficulty(1), [0xff; 32]);

    let half = target_from_difficulty(2);
    assert_eq!(half[0], 0x80);
    assert!(half[1..].iter().all(|&b| b == 0));
}

#[test]
fn x_bytes_is_not_extranonce2_size() {
    assert_eq!(X_BYTES, 5);
    assert_eq!(E1_BITS + X_BITS, 64);
}

#[test]
fn full_window_composes_unchanged() {
    assert_eq!(compose_in(0x00A3F2, (3u64 << 32) | 42, X_BITS), 0x00A3_F203_0000_002A);

    for e1 in [0u32, 1, 0xA3, 0x00A3F2, 0xFF_FFFF] {
        for x in [0u64, 1, 42, (7u64 << 32) | 9, (1u64 << 40) - 1] {
            let n = compose_in(e1, x, X_BITS);
            assert_eq!(n, ((e1 as u64) << 40) | (x & ((1u64 << 40) - 1)), "e1 {e1:#x} x {x:#x}");
            assert_eq!(n, compose(e1, x), "the two spellings disagree at the full window");
            assert!(owns(e1, n));
            assert_eq!(owns_in(e1, n, X_BITS), owns(e1, n));
        }
    }

    let cbits = X_BITS - THREAD_BITS;
    assert_eq!(cbits, 32);
    for index in [0u64, 1, 5, 255] {
        for counter in [0u64, 1, 0xFFFF_FFFF, 0x1_0000_0000] {
            assert_eq!(
                (index << cbits) | (counter & ((1u64 << cbits) - 1)),
                (index << 32) | (counter & 0xFFFF_FFFF)
            );
        }
    }
}

#[test]
fn narrow_window_workers_never_collide() {
    for x_bytes in X_BYTES_MIN..=X_BYTES {
        let x_bits = (x_bytes * 8) as u32;
        let cbits = x_bits - THREAD_BITS;

        let e1 = match 64 - x_bits {
            24 => 0x00A3F2u32,
            n => (0x00A3F2u32 << (n - 24)) | 0x5,
        };
        assert!((e1 as u64) < e1_limit(x_bits), "the test's own e1 does not fit {x_bits}");

        let mut seen = std::collections::HashSet::new();
        for index in 0u64..8 {
            for counter in 0u64..64 {
                let x = (index << cbits) | (counter & ((1u64 << cbits) - 1));
                let n = compose_in(e1, x, x_bits);
                assert!(
                    owns_in(e1, n, x_bits),
                    "x_bytes {x_bytes}: worker {index} left its sub-slice at counter {counter}"
                );

                assert!(
                    owns(0x00A3F2, n),
                    "x_bytes {x_bytes}: worker {index} left the upstream 24-bit slice"
                );
                assert!(
                    seen.insert(n),
                    "x_bytes {x_bytes}: worker {index} counter {counter} produced a nonce \
                     another worker had already produced"
                );
            }
        }
    }
}

#[test]
fn narrowest_window_outlasts_job() {
    const JOB_SECS: f64 = 60.0;

    const RATE: f64 = 2_500.0;
    let seconds = |x_bytes: u64| {
        let cbits = (x_bytes * 8) as u32 - THREAD_BITS;
        (1u64 << cbits) as f64 / RATE
    };

    let three = seconds(3);
    assert!((26.0..27.0).contains(&three), "a three-byte window lasts {three}s, not ~26");
    assert!(three < JOB_SECS, "...and that is inside a job, which is the whole problem");

    let four = seconds(X_BYTES_MIN);
    assert!(four > 100.0 * JOB_SECS, "the floor gives only {four}s per worker");
    assert_eq!(X_BYTES_MIN, 4, "the floor moved without its arithmetic moving");

    assert_eq!(e1_limit(X_BITS_MIN), 1u64 << 32);
    assert!(e1_limit(X_BITS_MIN) <= u32::MAX as u64 + 1, "a narrower window would truncate e1");
}

#[test]
fn oversized_extranonce1_is_out_of_range() {
    assert_eq!(e1_limit(X_BITS), 1u64 << 24, "the full window leaves 24 bits of slice");
    assert!((0x00FF_FFFFu64) < e1_limit(X_BITS));
    assert!((0x0100_0000u64) >= e1_limit(X_BITS), "a 25-bit slice does not fit a 24-bit field");

    assert!((0x0100_0000u64) < e1_limit(X_BITS_MIN));
}

#[test]
fn no_window_uses_full() {
    let mut s = Shared::new(1);
    assert_eq!(s.x_bits(), X_BITS, "a fresh Shared must roll the whole window");
    s.set_e1(0x00A3F2);
    assert_eq!((s.e1(), s.x_bits()), (0x00A3F2, X_BITS));
    s.set_window(0x0100_0005, X_BITS_MIN);
    assert_eq!((s.e1(), s.x_bits()), (0x0100_0005, X_BITS_MIN));

    s.set_window(1, 8);
    assert_eq!(s.x_bits(), X_BITS_MIN);
    s.set_window(1, 64);
    assert_eq!(s.x_bits(), X_BITS);
}

#[test]
fn a_batch_is_one_2mib_page() {
    assert_eq!(BATCH * PAD_BYTES, 2 * 1024 * 1024);
}

#[test]
fn pads_are_aligned_and_disjoint() {
    for raw in [0usize, 1, 0x7f00_0000_1000, 0x7f00_0001_0000] {
        let w = pad::window(raw, BATCH * PAD_BYTES, PAD_ALIGN);
        assert!(w.base >= raw);
        for j in 0..BATCH {
            let p = w.base + pad::slot_offset(j, BATCH);
            assert_eq!(p % PAD_ALIGN, 0, "pad {j} is not 64 KiB aligned");
            if j > 0 {
                assert_eq!(p - (w.base + pad::slot_offset(j - 1, BATCH)), PAD_BYTES);
            }
        }
    }
}

#[test]
fn the_allocator_says_why_it_got_the_page_size_it_got() {
    let mut t = Tally::default();
    let Plan::Base(why) = pad::plan(PAD_BYTES, false, 2 << 20) else {
        panic!("--no-huge-pages is ordinary pages")
    };
    record(&mut t, PadPages::Base, why);
    let note = last_note(&t).expect("a mapping must record why it got what it got");
    assert!(!note.trim().is_empty(), "an empty note explains nothing");
    assert!(
        !note.contains("SeLockMemoryPrivilege"),
        "--no-huge-pages did not fail on a privilege, so the note must not blame one: {note}"
    );
}

#[test]
fn the_note_is_about_the_last_mapping() {
    let mut t = Tally::default();
    record(&mut t, PadPages::Transparent, "the kernel gave 2 MiB pages".to_string());
    let Plan::Base(why) = pad::plan(PAD_BYTES, false, 2 << 20) else {
        panic!("--no-huge-pages is ordinary pages")
    };
    record(&mut t, PadPages::Base, why);
    assert_eq!(last_note(&t), Some("huge pages not requested"));
}

#[test]
fn page_report_makes_no_false_claim() {
    for kind in kinds() {
        let mut t = Tally::default();
        record(&mut t, kind, "a note".to_string());
        let now = observed_now(&t);
        assert!(now.total() >= 1);

        assert!(observed_ever(&t).total() >= now.total());
        if kind.is_huge() {
            assert!(now.huge() >= 1);
            assert!(now.count(kind) >= 1, "this region's own mechanism is not counted");
        }
        assert!(!status_field(&t).is_empty());
    }
}

fn tally_of(spec: &[(PadPages, usize)]) -> Summary {
    let all: Vec<PadPages> =
        spec.iter().flat_map(|(k, n)| std::iter::repeat(*k).take(*n)).collect();
    Summary::of(&all)
}

#[test]
fn mechanism_table_indexed_by_code() {
    for (i, k) in kinds().into_iter().enumerate() {
        assert_eq!(k.code() as usize, i, "{k:?} does not sit at its own code");
    }
    assert!(!kinds()[0].is_huge(), "index 0 must be the ordinary-page slot");
    for k in kinds().into_iter().skip(1) {
        assert!(k.is_huge(), "{k:?} is counted as huge but does not say it is");
    }

    let one_each = Summary::of(&kinds());
    assert_eq!(one_each.total(), 4);
    assert_eq!(one_each.huge(), 3);
    for k in kinds() {
        assert_eq!(one_each.count(k), 1, "{k:?} was not counted once");
    }
}

#[test]
fn status_field_keeps_its_shape() {
    assert_eq!(field(tally_of(&[(PadPages::HugeTlb, 4)])), "pads 2M/hugetlb 4/4");
    assert_eq!(field(tally_of(&[(PadPages::Base, 8)])), "pads 4K 0/8");
    assert_eq!(field(tally_of(&[(PadPages::Large, 3), (PadPages::Base, 13)])), "pads 2M/large 3/16");
    assert_eq!(
        field(tally_of(&[(PadPages::HugeTlb, 1), (PadPages::Transparent, 3)])),
        "pads 2M/mixed 4/4"
    );

    assert_eq!(field(Summary::default()), "pads -");

    for s in [
        tally_of(&[(PadPages::HugeTlb, 4)]),
        tally_of(&[(PadPages::Base, 8)]),
        tally_of(&[(PadPages::Transparent, 2), (PadPages::Base, 6)]),
        tally_of(&[(PadPages::HugeTlb, 1), (PadPages::Large, 1)]),
    ] {
        let line = field(s);
        let words: Vec<&str> = line.split_whitespace().collect();
        assert_eq!(words.len(), 3, "the field is three words: {words:?}");
        assert_eq!(words[0], "pads", "the label moved: {words:?}");
        assert!(!words[1].contains('/') || words[1].starts_with("2M/"), "{words:?}");
        assert_eq!(words[2], format!("{}/{}", s.huge(), s.total()));
    }
}

#[test]
fn partial_success_is_not_complete() {
    let s = tally_of(&[(PadPages::Large, 4), (PadPages::Base, 8)]);
    assert_eq!(s.huge(), 4);
    assert_eq!(s.total(), 12);
    assert!(!s.mixed(), "one huge mechanism plus ordinary pages is not two mechanisms");
    assert_eq!(field(s), "pads 2M/large 4/12");
    assert!(!field(s).contains("12/12"), "a partial success reported as complete");
}

#[test]
fn mixed_is_derived_not_remembered() {
    let messy = tally_of(&[(PadPages::HugeTlb, 1), (PadPages::Transparent, 7)]);
    assert!(messy.mixed());
    assert_eq!(messy.tag(), "2M/mixed");

    assert_eq!(messy.kind(), PadPages::Transparent);

    let clean = tally_of(&[(PadPages::HugeTlb, 8)]);
    assert!(!clean.mixed(), "one mechanism is not a mixture");
    assert_eq!(clean.tag(), "2M/hugetlb");

    assert_eq!(Summary::default().kind(), PadPages::Base);
    assert_eq!(Summary::default().tag(), "4K");
    assert_eq!(Summary::default().huge(), 0);
}

#[test]
fn drop_leaves_live_tally_keeps_lifetime() {
    let mut t = Tally::default();
    let ever_before = observed_ever(&t).total();
    let kind = PadPages::Base;
    record(&mut t, kind, "ordinary pages".to_string());
    assert!(observed_now(&t).count(kind) >= 1, "a mapped region is not in the live tally");
    assert!(observed_ever(&t).total() > ever_before, "a mapped region is not in the lifetime tally");

    let ever_with = observed_ever(&t).total();
    unrecord(&mut t, kind);
    assert_eq!(observed_now(&t).count(kind), 0);

    assert!(
        observed_ever(&t).total() >= ever_with,
        "dropping a region removed it from the lifetime tally; `--bench` reports after \
         joining its workers and would print a blank page line"
    );
}

#[test]
fn a_failed_session_waits_on_its_own_ladder() {
    let args = Args::default();
    let mut run = Run::new();
    let totals = Report::default();
    let past = Past { lasted: 0, authorized: false, elapsed: 0 };
    let closed = || Outcome::Ended(Ended::ServerClosed);
    let (n, said) = run.after(&args, &totals, past, closed());
    let Next::Again { ladder, wait, attempt } = n else { panic!("{n:?}") };
    assert_eq!((ladder, wait, attempt), (Ladder::Connection, BACKOFF_MIN, 2));
    assert!(said.is_some(), "the first time always speaks");
    let (n, said) = run.after(&args, &totals, past, closed());
    let Next::Again { wait, attempt, .. } = n else { panic!("{n:?}") };
    assert_eq!((wait, attempt), (2 * BACKOFF_MIN, 3));
    assert!(said.is_none(), "the same cause is not said twice");

    let refused = Outcome::Ended(Ended::Retry(Ladder::Authorization, "refused".to_string()));
    let (n, _) = run.after(&args, &totals, past, refused);
    let Next::Again { ladder, wait, .. } = n else { panic!("{n:?}") };
    assert_eq!((ladder, wait), (Ladder::Authorization, AUTH_BACKOFF_MIN));

    let long = Past { lasted: BACKOFF_RESET_AFTER, authorized: true, elapsed: 0 };
    let (n, _) = run.after(&args, &totals, long, closed());
    let Next::Again { wait, attempt, .. } = n else { panic!("{n:?}") };
    assert_eq!((wait, attempt), (BACKOFF_MIN, 2), "a session that lasted resets the ladder");
}

#[test]
fn a_miner_without_reconnects_stops() {
    let args = Args { reconnect: false, ..Args::default() };
    let past = Past { lasted: 0, authorized: false, elapsed: 0 };
    let (n, _) = Run::new().after(&args, &Report::default(), past, Outcome::Failed("no route".to_string()));
    assert!(matches!(n, Next::Fail(ref e) if e.contains("no route")), "{n:?}");

    let args = Args { max_reconnects: 3, ..Args::default() };
    let mut run = Run::new();
    let fail = || Outcome::Failed("no route".to_string());
    for _ in 0..2 {
        let (n, _) = run.after(&args, &Report::default(), past, fail());
        assert!(matches!(n, Next::Again { .. }), "{n:?}");
    }
    let (n, _) = run.after(&args, &Report::default(), past, fail());
    assert!(matches!(n, Next::GaveUp(3)), "the third failure in a row is the last: {n:?}");

    let args = Args { max_reconnects: 1, ..Args::default() };
    let (n, _) = Run::new().after(&args, &Report::default(), past, fail());
    assert!(matches!(n, Next::GaveUp(1)), "{n:?}");

    let (n, _) = run.after(&args, &Report::default(), past, Outcome::Ended(Ended::Limit));
    assert!(matches!(n, Next::Done), "{n:?}");
}

#[test]
fn hashes_of_nobody_are_counted_too() {
    let mut s = Shared::new(1);
    s.add_hashes(5);
    s.add_hashes_from(0, 7);
    s.add_hashes_from(9, 1);
    assert_eq!((s.hashes(), s.lane(0), s.lane(9)), (13, 7, 0));
}

#[test]
fn a_target_is_met_at_equality() {
    let mut t = [0u8; 32];
    t[3] = 9;
    assert!(meets(&t, &t));
    let mut above = t;
    above[31] = 1;
    assert!(!meets(&above, &t));
    assert!(meets(&[0u8; 32], &t));
}

#[test]
fn a_status_line_is_due_on_its_period() {
    let mut s = Status::new(10, 0, false);
    assert_eq!(s.due(9_999, 5), None);
    assert_eq!(s.due(10_000, 500), Some((10_000, 500)));
    assert_eq!(s.due(15_000, 700), None);
    assert_eq!(s.due(20_000, 800), Some((10_000, 300)));
    assert_eq!(Status::new(0, 0, false).due(1 << 40, 5), None, "no period, no line");
    assert_eq!(uptime_str(59), "59s");
    assert_eq!(uptime_str(3_661), "1h01m");
    let line = status_line("10 H/s", "9 H/s", &Report::default(), Some(7), 42, 5);
    assert!(line.contains("10 H/s") && line.contains("42"), "{line}");
    let rates: Vec<String> = (0..9).map(|i| format!("{i} H/s")).collect();
    let lines = lane_lines(&rates);
    assert_eq!(lines.len(), 2, "eight to a line");
    assert_eq!(lines[1], "plaine-miner:     8:     8 H/s");
}

#[test]
fn memory_files_are_read() {
    let info = "MemTotal:  1 kB\nHugePages_Total:    12\nHugepagesize:       2048 kB\n";
    assert_eq!(pad::meminfo_num(info, "HugePages_Total:"), Some(12));
    assert_eq!(pad::huge_page_bytes(info), 2 << 20);
    assert_eq!(pad::huge_page_bytes("nothing"), pad::ASSUMED_HUGE_BYTES);
}

#[test]
fn large_pages_are_not_wasted() {
    assert_eq!(pad::plan_large(PAD_BYTES, 2 << 20), Ok(2 << 20));
    assert!(pad::plan_large(PAD_BYTES, 0).unwrap_err().contains("no large-page support"));
    assert_eq!(
        pad::plan_large(PAD_BYTES, 1 << 30).unwrap_err(),
        "large pages are 1024 MiB here and the pads need 64 KiB; the rounding waste is not worth it"
    );
    assert!(matches!(pad::plan(PAD_BYTES, true, 1 << 30), Plan::Base(_)));
    assert!(matches!(pad::plan(PAD_BYTES, true, 2 << 20), Plan::Huge(n) if n == 2 << 20));
}

#[test]
fn the_checksum_folds_every_word() {
    assert_eq!(pad::checksum(&[], 3), pad::checksum(&[], 5));
    assert_ne!(pad::checksum(&[1, 2], 3), pad::checksum(&[2, 1], 3));
}

#[test]
fn a_worker_waits_for_a_job() {
    let mut shared = Shared::new(1);
    let mut w = Worker::new(0, &shared);
    assert!(!w.looks(&shared), "nothing was published yet");
    shared.retarget([7; 32]);
    assert!(!w.looks(&shared), "a target alone is nothing to hash");
    shared.publish(job(4));
    assert!(w.looks(&shared));
    assert!(w.looks(&shared), "the same job again");
    assert_eq!(w.next_batch(4).len(), 4, "a smaller batch");
    assert_eq!(w.counter, 4);
}

fn nowhere() -> Topology {
    plaine::miner::platforms::unread("nowhere")
}

#[test]
fn a_batch_that_was_asked_for_is_taken() {
    assert_eq!(choose_batch(Some(4), &nowhere(), 1, true), (4, None));
    let (n, why) = choose_batch(None, &nowhere(), 1, true);
    assert_eq!(n, 8);
    assert!(why.unwrap().starts_with("batch 8 - "));
    assert_eq!(choose_batch(None, &nowhere(), 1, false), (8, None));
}

#[test]
fn what_is_said_before_mining() {
    assert!(pin_lines(&[0, 1, 2])[0].ends_with("to cpu 0-2"), "{:?}", pin_lines(&[0, 1, 2]));
    assert!(page_lines(Ask::Auto, false, "").is_empty());
    assert_eq!(page_lines(Ask::Never, false, "").len(), 1);
    assert_eq!(page_lines(Ask::Force, true, "").len(), 1);
    assert_eq!(page_lines(Ask::Force, false, "no privilege")[1], "plaine-miner:   no privilege");
    assert!(check_login("plne1q").is_ok());
    assert!(check_login("").unwrap_err().starts_with("give me a pool URL"));
}

#[test]
fn a_header_to_grind_is_read() {
    let mut hex = "00".repeat(116);
    hex.push_str("ffff001f");
    hex.push_str(&"00".repeat(12));
    let h = parse_header(&format!("  {hex}\n")).expect("132 bytes");
    assert_eq!(header_bits(&h), 0x1f00_ffff);
    assert!(parse_header("00").is_err());
    let line = grind_line(0x1f00_ffff, &[0xab; 32], 4);
    assert!(line.starts_with("plaine-miner: grinding bits 0x1f00ffff target abab"), "{line}");
    assert!(line.ends_with("on 4 threads"), "{line}");
}

#[test]
fn a_run_is_summed_up() {
    assert_eq!(uptime(59), "59s");
    assert_eq!(uptime(61), "1m 1s");
    assert_eq!(uptime(3_661), "1h 1m 1s");
    assert_eq!(uptime(90_061), "1d 1h 1m");
    let r = Report { accepted: 13, rejected: 1, blocks: 1, hashes: 2_361_088, ..Report::default() };
    assert_eq!(
        summary(Format::Json, &r, 24_850, "24.85 kH/s", 95),
        r#"{"event":"summary","accepted":13,"rejected":1,"blocks":1,"hashes":2361088,"avg":24850,"uptime":95}"#
    );
    assert_eq!(
        summary(Format::Text, &r, 24_850, "24.85 kH/s", 95),
        "plaine-miner: 13 accepted, 1 rejected, 1 blocks, 2361088 hashes, 24.85 kH/s average, up 1m 35s"
    );
}

#[test]
fn the_status_is_text_or_json() {
    let pace = Pace {
        now: 24_891,
        avg: 24_790,
        now_text: "24.89 kH/s".to_string(),
        avg_text: "24.79 kH/s".to_string(),
    };
    let r = Report { accepted: 12, ..Report::default() };
    let top = Top { id: Some(0x2341), hex: Some("00002341"), height: 10_912 };
    assert_eq!(
        status_report(Format::Json, &pace, &r, &top, 95, 14),
        r#"{"event":"status","hashrate":24891,"avg":24790,"accepted":12,"rejected":0,"blocks":0,"job":"00002341","height":10912,"uptime":95,"threads":14}"#
    );
    let text = status_report(Format::Text, &pace, &r, &top, 95, 14);
    assert_eq!(
        text,
        "plaine-miner: 24.89 kH/s | accepted 12 rejected 0 blocks 0 | job 00002341 height 10912 | avg 24.79 kH/s | up 1m35s"
    );
}
