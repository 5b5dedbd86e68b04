use plaine::miner::json::{Framed, Msg};
use plaine::miner::ladder::{Args, Ended, Ladder, Report};
use plaine::miner::session::{json_escape, Out, Session};
use plaine::miner::status::Format;
use plaine::miner::work::{Solution, PREFIX_BYTES, X_BITS, X_BITS_MIN};

fn args() -> Args {
    Args { login: "plne1qq.rig".to_string(), ..Args::default() }
}

fn decode(_bits: u32) -> Option<[u64; 4]> {
    Some([0, 0, 0, 1])
}

struct Talk {
    s: Session,
    totals: Report,
    args: Args,
    now: u64,
}

impl Talk {
    fn new() -> Talk {
        let (s, hello) = Session::new(2, 0);
        assert_eq!(hello, r#"{"id":1,"method":"mining.subscribe","params":["plaine-miner/0.1"]}"#);
        Talk { s, totals: Report::default(), args: args(), now: 1_000 }
    }

    fn hear(&mut self, line: &str) -> Out {
        self.frame(Framed::Line(line.as_bytes().to_vec()))
    }

    fn frame(&mut self, f: Framed) -> Out {
        self.s.framed(f, &self.args, &mut self.totals, self.now, decode)
    }

    // A session that has a slice and a job.
    fn mining() -> Talk {
        let mut t = Talk::new();
        let o = t.hear(r#"{"id":1,"result":[null,"00a3f2",5],"error":null}"#);
        assert_eq!(
            o.send.as_deref(),
            Some(r#"{"id":2,"method":"mining.authorize","params":["plne1qq.rig","x"]}"#)
        );
        let o = t.hear(r#"{"id":2,"result":true,"error":null}"#);
        assert!(o.start, "an accepted login starts the workers");
        let o = t.hear(&notify("2341", true));
        assert!(o.end.is_none(), "{o:?}");
        t
    }
}

fn notify(id: &str, clean: bool) -> String {
    let prefix = "5a".repeat(PREFIX_BYTES);
    format!(r#"{{"id":null,"method":"mining.notify","params":["{id}",7,"{prefix}",{clean}]}}"#)
}

fn solved(job_id: u32, is_block: bool) -> Solution {
    Solution { job_id, nonce: 0x00A3_F203_0000_002A, pow_hash: [0; 32], height: 7, is_block }
}

#[test]
fn a_share_goes_out_under_the_servers_own_spelling() {
    let mut t = Talk::mining();
    let o = t.s.solution(&t.args, &mut t.totals, &solved(0x2341, false), 2_000);
    let sent = o.send.expect("a live job is submitted");
    assert!(
        sent.ends_with(r#""params":["plne1qq.rig","2341","2a00000003f2a300"]}"#),
        "the nonce goes least byte first: {sent}"
    );
    let o = t.s.solution(&t.args, &mut t.totals, &solved(0x9999, false), 2_000);
    assert!(o.send.is_none(), "a retired job is not submitted");
    assert_eq!(t.totals.stale_dropped, 1);
    let o = t.s.solution(&t.args, &mut t.totals, &solved(0x2341, true), 2_000);
    assert!(o.send.is_some());
    assert_eq!(t.totals.blocks, 1);
}

#[test]
fn answers_are_counted() {
    let mut t = Talk::mining();
    let sent = t.s.solution(&t.args, &mut t.totals, &solved(0x2341, false), 2_000).send.unwrap();
    let id: String = sent.chars().filter(|c| c.is_ascii_digit()).take(1).collect();
    t.hear(&format!(r#"{{"id":{id},"result":true,"error":null}}"#));
    assert_eq!((t.totals.accepted, t.totals.rejected), (1, 0));
    t.hear(&format!(r#"{{"id":{id},"result":true,"error":null}}"#));
    assert_eq!(t.totals.accepted, 1, "an answer counts once");
    let sent = t.s.solution(&t.args, &mut t.totals, &solved(0x2341, false), 2_000).send.unwrap();
    let id: String = sent.chars().filter(|c| c.is_ascii_digit()).take(1).collect();
    let o = t.hear(&format!(r#"{{"id":{id},"result":null,"error":[23,"low difficulty",null]}}"#));
    assert_eq!((t.totals.accepted, t.totals.rejected), (1, 1));
    assert!(o.notes.iter().any(|n| n.contains("23 low difficulty")), "{o:?}");
}

#[test]
fn a_refused_login_waits_on_the_slow_ladder() {
    let mut t = Talk::new();
    t.hear(r#"{"id":1,"result":[null,"00a3f2",5],"error":null}"#);
    let o = t.hear(r#"{"id":2,"result":null,"error":[24,"bad address",null]}"#);
    let Some(Ended::Retry(ladder, why)) = o.end else { panic!("{o:?}") };
    assert_eq!(ladder, Ladder::Authorization);
    assert!(why.contains("24 bad address"), "{why}");
}

#[test]
fn a_subscription_must_leave_room_to_roll() {
    for (reply, why) in [
        (r#"{"id":1,"result":[null],"error":null}"#, "no extranonce1"),
        (r#"{"id":1,"result":[null,"zz",5],"error":null}"#, "\"zz\" is not hex"),
        (r#"{"id":1,"result":[null,"00a3f2",3],"error":null}"#, "3 rollable nonce bytes"),
        (r#"{"id":1,"result":[null,"01000000",5],"error":null}"#, "leaves 24 bits"),
    ] {
        let mut t = Talk::new();
        let o = t.hear(reply);
        let Some(Ended::Retry(_, said)) = o.end else { panic!("{reply}: {o:?}") };
        assert!(said.contains(why), "{said}");
    }
    let mut t = Talk::new();
    let o = t.hear(r#"{"id":1,"result":[null,"00a3f205",4],"error":null}"#);
    assert!(o.end.is_none(), "{o:?}");
    assert_eq!((t.s.shared.e1(), t.s.shared.x_bits()), (0x00A3_F205, X_BITS_MIN));
    assert_ne!(X_BITS, X_BITS_MIN);
}

#[test]
fn a_job_reaches_the_workers() {
    let mut t = Talk::mining();
    let j = t.s.shared.job().expect("published");
    assert_eq!((j.job_id, j.height, j.target), (0x2341, 7, [0xff; 32]));
    let mut network = [0u8; 32];
    network[7] = 1;
    assert_eq!(j.network_target, network, "the bits of the prefix, decoded");
    let g = t.s.shared.generation();
    let o = t.hear(&format!(r#"{{"method":"mining.set_target","params":["{}"]}}"#, "00".repeat(32)));
    assert!(o.notes.is_empty(), "{o:?}");
    assert_eq!(t.s.shared.job().unwrap().target, [0; 32]);
    assert!(t.s.shared.generation() > g, "the workers have to notice");
    assert_eq!(t.s.newest(), Some(0x2341));
}

#[test]
fn what_is_no_text_is_not_read() {
    let mut t = Talk::mining();
    let before = t.totals;
    let o = t.frame(Framed::Line(vec![b'{', 0xff, b'}']));
    assert!(o.end.is_none() && o.send.is_none(), "{o:?}");
    assert_eq!(t.totals, before);
    let mut shows = Talk::mining();
    shows.args.verbose = true;
    let o = shows.hear(r#"{"method":"café"}"#);
    assert!(o.notes.iter().any(|n| n.starts_with("<< ")), "{o:?}");
}

#[test]
fn the_wire_can_end() {
    let mut t = Talk::mining();
    assert!(matches!(t.frame(Framed::Eof).end, Some(Ended::ServerClosed)));
    let o = Talk::mining().frame(Framed::TooLong);
    assert!(matches!(o.end, Some(Ended::Retry(Ladder::Connection, _))), "{o:?}");
    let o = t.hear(r#"{"method":"client.reconnect","params":["elsewhere",1]}"#);
    assert!(o.end.is_none(), "a server cannot send the miner elsewhere");
}

#[test]
fn silence_is_asked_about_then_ends() {
    let mut t = Talk::mining();
    let o = t.s.quiet(90_000, 40_000);
    assert!(o.end.is_none(), "{o:?}");
    let o = t.s.quiet(90_000, 200_000);
    assert!(matches!(o.end, Some(Ended::Retry(Ladder::Connection, _))), "{o:?}");
}

#[test]
fn a_session_ends_with_its_limits_or_its_workers() {
    let t = Talk::mining();
    let limited = Args { max_shares: 1, ..args() };
    let done = Report { accepted: 1, ..Report::default() };
    assert!(t.s.over(&limited, 0, &Report::default(), &[false]).is_none());
    assert!(matches!(t.s.over(&limited, 0, &done, &[false]), Some(Ended::Limit)));
    assert!(matches!(t.s.over(&args(), 0, &done, &[true, true]), Some(Ended::NoWorkers(_))));
    assert!(matches!(t.s.mapped(0, Some("no memory")).end, Some(Ended::NoWorkers(_))));
    assert_eq!(t.s.mapped(3, Some("no memory")).notes.len(), 1);
    assert!(t.s.mapped(4, None).notes.is_empty());
}

#[test]
fn hashes_are_added_up_at_the_end() {
    let mut t = Talk::mining();
    t.s.shared.add_hashes_from(1, 64);
    t.s.stop();
    assert!(t.s.shared.stopped());
    let mut totals = Report { hashes: 6, ..Report::default() };
    t.s.settle(&mut totals);
    assert_eq!(totals.hashes, 70);
}

#[test]
fn a_login_is_quoted() {
    assert_eq!(json_escape("a\"b\\c"), r#""a\"b\\c""#);
    let m: Option<Msg> = plaine::miner::json::parse(&format!(r#"{{"method":{}}}"#, json_escape("x\ty")));
    assert!(m.is_some());
}

#[test]
fn reports_can_be_json() {
    let mut t = Talk::mining();
    t.args.status_format = Format::Json;
    let o = t.s.solution(&t.args, &mut t.totals, &solved(0x2341, true), 2_000);
    let hash = "00".repeat(32);
    assert_eq!(o.print, Some(format!(r#"{{"event":"block","height":7,"hash":"{hash}"}}"#)));
    assert!(o.send.is_some());
    let id: String = o.send.unwrap().chars().filter(|c| c.is_ascii_digit()).take(1).collect();
    let o = t.hear(&format!(r#"{{"id":{id},"result":true,"error":null}}"#));
    assert_eq!(
        o.print.as_deref(),
        Some(r#"{"event":"share","accepted":true,"total_accepted":1,"total_rejected":0}"#)
    );
    let o = t.s.solution(&t.args, &mut t.totals, &solved(0x2341, false), 2_000);
    let id: String = o.send.unwrap().chars().filter(|c| c.is_ascii_digit()).take(1).collect();
    let o = t.hear(&format!(r#"{{"id":{id},"result":null,"error":[23,"low difficulty",null]}}"#));
    assert_eq!(
        o.print.as_deref(),
        Some(
            r#"{"event":"share","accepted":false,"total_accepted":1,"total_rejected":1,"code":23,"message":"low difficulty"}"#
        )
    );
    assert_eq!(o.notes.len(), 1, "a refusal is told on the side too");
    assert_eq!(t.s.newest_hex(), Some("2341"), "as the server spells it");
}
