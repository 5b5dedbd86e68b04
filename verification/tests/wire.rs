use plaine::miner::json::{hex, parse, unhex, unhex_vec, Framed, Got, Lines, Msg, Owned};
use plaine::miner::status::{quote, Event, Format};

fn msg(line: &str) -> Msg {
    parse(line).expect("this is a line a real pool sends")
}

#[test]
fn subscribe_response_parses() {
    let line = r#"{"id":1,"result":[["mining.notify","mining.set_target"],"00a3f2",5],"error":null}"#;
    let m = parse(line).expect("parses");
    assert_eq!(m.id, Some(1));
    assert!(!m.is_error);

    assert_eq!(m.args[0], Owned::Other);
    assert_eq!(m.str_at(1), Some("00a3f2"));
    assert_eq!(m.num_at(2), Some(5));
}

#[test]
fn notify_and_set_target_parse() {
    let n = parse(
        r#"{"id":null,"method":"mining.notify","params":["0000002b",184602,"abab",true]}"#,
    )
    .expect("parses");
    assert_eq!(n.method.as_deref(), Some("mining.notify"));
    assert_eq!(n.str_at(0), Some("0000002b"));
    assert_eq!(n.num_at(1), Some(184_602));
    assert_eq!(n.bool_at(3), Some(true));

    let t = parse(r#"{"id":null,"method":"mining.set_target","params":["00ff"]}"#).unwrap();
    assert_eq!(t.str_at(0), Some("00ff"));
}

#[test]
fn error_triple_is_read() {
    let e = parse(r#"{"id":7,"result":null,"error":[25,"nonce out of slice",null]}"#).unwrap();
    assert!(e.is_error);
    assert_eq!(e.error_code, Some(25));
    assert_eq!(e.error_msg.as_deref(), Some("nonce out of slice"));
    let ok = parse(r#"{"id":7,"result":true,"error":null}"#).unwrap();
    assert!(!ok.is_error);
    assert!(ok.result_true);
}

#[test]
fn garbage_is_none() {
    assert!(parse("").is_none());
    assert!(parse("not json").is_none());
    assert!(parse(r#"{"id":1"#).is_none());
}

// A connection whose reads come back as the script says.
struct Flaky {
    lines: Lines,
    script: Vec<Option<&'static str>>,
}

impl Flaky {
    fn new(script: Vec<Option<&'static str>>, max: usize) -> Flaky {
        Flaky { lines: Lines::new(max), script }
    }

    fn next(&mut self) -> Framed {
        if let Some(l) = self.lines.take_line() {
            return Framed::Line(l);
        }
        let got = if self.script.is_empty() {
            Got::Bytes(Vec::new())
        } else {
            match self.script.remove(0) {
                Some(s) => Got::Bytes(s.as_bytes().to_vec()),
                None => Got::NotYet,
            }
        };
        self.lines.next(got)
    }
}

#[test]
fn midline_timeout_loses_nothing() {
    let mut l = Flaky::new(
        vec![
            Some(r#"{"id":1,"meth"#),
            None,
            None,
            Some("od\":\"mining.notify\",\"params\":[]}\n"),
        ],
        8192,
    );
    assert_eq!(l.next(), Framed::Idle, "a partial line is not a line");
    assert_eq!(l.next(), Framed::Idle);
    assert_eq!(l.next(), Framed::Idle);
    let Framed::Line(line) = l.next() else { panic!("the line must arrive whole") };
    let m = parse(core::str::from_utf8(&line).unwrap()).expect("and it must parse");
    assert_eq!(m.method.as_deref(), Some("mining.notify"));
    assert_eq!(l.next(), Framed::Eof);
}

#[test]
fn batched_messages_all_delivered() {
    let mut l = Flaky::new(vec![Some("{\"a\":1}\n{\"b\":2}\r\n{\"c\":3}\n")], 8192);
    for expect in [r#"{"a":1}"#, r#"{"b":2}"#, r#"{"c":3}"#] {
        let Framed::Line(line) = l.next() else { panic!("expected {expect}") };
        assert_eq!(core::str::from_utf8(&line).unwrap(), expect);
    }
    assert_eq!(l.next(), Framed::Eof);
}

#[test]
fn endless_line_is_refused() {
    let mut l = Flaky::new(vec![Some("aaaaaaaaaa"), Some("bbbbbbbbbb")], 12);
    assert_eq!(l.next(), Framed::Idle);
    assert_eq!(l.next(), Framed::TooLong);
}

#[test]
fn hex_round_trips() {
    let mut out = [0u8; 4];
    assert!(unhex("deadbeef", &mut out));
    assert_eq!(out, [0xde, 0xad, 0xbe, 0xef]);
    assert_eq!(hex(&out), "deadbeef");
    assert!(!unhex("deadbee", &mut out));
    assert!(!unhex("deadbeeg", &mut out));
}

#[test]
fn an_object_result_parses_instead_of_killing_the_line() {
    // rplant.xyz answers an accepted share with an object. This used to fall through
    // to the number branch, fail, and drop the whole line: the share counted as
    // neither accepted nor rejected and its id leaked in the pending set.
    let m = msg(r#"{"id":3,"result":{"status":"OK"},"error":null}"#);
    assert_eq!(m.id, Some(3));
    assert!(m.result_object, "an object result has to be seen as one");
    assert!(!m.is_error);
    assert!(!m.result_false);
    assert!(!m.result_true, "it is not the literal true, and must not pretend to be");
}

#[test]
fn a_nested_object_result_parses_too() {
    let m = msg(r#"{"id":9,"result":{"status":"OK","extra":{"a":[1,2,{"b":null}]}},"error":null}"#);
    assert_eq!(m.id, Some(9));
    assert!(m.result_object);
    assert!(!m.is_error);
}

#[test]
fn the_three_spellings_of_yes_and_the_two_of_no() {
    for yes in [
        r#"{"id":1,"result":true,"error":null}"#,
        r#"{"id":1,"result":{"status":"OK"},"error":null}"#,
        r#"{"id":1,"result":null,"error":null}"#,
    ] {
        let m = msg(yes);
        assert!(!(m.is_error || m.result_false), "{yes} is an acceptance");
    }
    for no in [
        r#"{"id":1,"result":null,"error":[21,"stale share"]}"#,
        r#"{"id":1,"result":false,"error":null}"#,
    ] {
        let m = msg(no);
        assert!(m.is_error || m.result_false, "{no} is a refusal");
    }
}

#[test]
fn an_error_array_still_carries_its_code_and_text() {
    let m = msg(r#"{"id":4,"result":null,"error":[21,"stale share"]}"#);
    assert!(m.is_error);
    assert_eq!(m.error_code, Some(21));
    assert_eq!(m.error_msg.as_deref(), Some("stale share"));
}

#[test]
fn a_real_subscribe_reply_still_decodes() {
    let m = msg(r#"{"id":1,"result":[["mining.notify","mining.set_target"],"000000b9",4],"error":null}"#);
    assert_eq!(m.str_at(1), Some("000000b9"), "the extranonce1 is read as written");
    assert_eq!(m.num_at(2), Some(4), "four rollable bytes: the pool sub-slices");
}

fn obj(line: &str) -> Msg {
    assert!(!line.contains('\n'), "one line: {line}");
    parse(line).unwrap_or_else(|| panic!("not JSON the miner itself can read: {line}"))
}

#[test]
fn every_event_is_one_line_of_json() {
    let lines = [
        Event::Status {
            hashrate: 24_891,
            avg: 0,
            accepted: 12,
            rejected: 0,
            blocks: 0,
            job: Some("00002341"),
            height: 10_912,
            uptime: 95,
            threads: 14,
        }
        .json(),
        Event::Status {
            hashrate: 0,
            avg: 0,
            accepted: 0,
            rejected: 0,
            blocks: 0,
            job: None,
            height: 0,
            uptime: 0,
            threads: 1,
        }
        .json(),
        Event::Share { accepted: true, total_accepted: 1, total_rejected: 0, code: None, message: None }
            .json(),
        Event::Share {
            accepted: false,
            total_accepted: 1,
            total_rejected: 1,
            code: Some(23),
            message: Some("low \"difficulty\"\nsecond line\u{1b}[31m"),
        }
        .json(),
        Event::Block { height: 7, hash: "00ab" }.json(),
        Event::Summary { accepted: 1, rejected: 1, blocks: 1, hashes: 99, avg: 12, uptime: 3 }.json(),
    ];
    for l in &lines {
        obj(l);
    }
    assert!(lines[0].contains("\"hashrate\":24891"), "{}", lines[0]);
    assert!(lines[0].contains("\"avg\":0"), "a NaN rate is 0, not invalid JSON: {}", lines[0]);
    assert!(lines[1].contains("\"job\":null"), "{}", lines[1]);
    assert!(lines[3].contains("\\n") && lines[3].contains("\\u001b"), "{}", lines[3]);
}

#[test]
fn the_format_is_text_or_json() {
    assert_eq!(Format::parse("json"), Ok(Format::Json));
    assert_eq!(Format::parse("text"), Ok(Format::Text));
    assert!(Format::parse("xml").is_err());
    assert_eq!(Format::default(), Format::Text);
}

#[test]
fn where_reads_cut_a_stream_makes_no_difference() {
    let stream = "{\"id\":1}\r\nxy\n\nlast";
    let whole = {
        let mut l = Lines::new(64);
        let mut got = Vec::new();
        let mut r = l.next(Got::Bytes(stream.as_bytes().to_vec()));
        while let Framed::Line(line) = r {
            got.push(line);
            r = l.next(Got::NotYet);
        }
        got
    };
    for cut in 0..stream.len() {
        let mut l = Lines::new(64);
        let mut got = Vec::new();
        for part in [&stream[..cut], &stream[cut..]] {
            if part.is_empty() {
                continue;
            }
            let mut r = l.next(Got::Bytes(part.as_bytes().to_vec()));
            while let Framed::Line(line) = r {
                got.push(line);
                r = l.next(Got::NotYet);
            }
        }
        assert_eq!(got, whole, "cut at {cut}");
    }
    assert_eq!(whole, vec![b"{\"id\":1}".to_vec(), b"xy".to_vec(), b"".to_vec()]);
}

#[test]
fn quoting_escapes_what_would_end_a_line() {
    assert_eq!(quote("a\"b\\c\n\u{2028}"), "\"a\\\"b\\\\c\\n\\u2028\"");
}

#[test]
fn hex_is_exact_in_length() {
    assert_eq!(unhex_vec("00FF", 2), Some(vec![0, 255]));
    assert_eq!(unhex_vec("00FF", 3), None);
    assert_eq!(hex(&[]), "");
}

#[test]
fn nested_and_odd_messages() {
    assert!(parse(r#"{"id":1,"extra":{"deep":[1,{"x":"y"}]},"result":true}"#).unwrap().result_true);
    assert_eq!(msg(r#"{"id":2,"method":"m","params":["a\u0041\n"]}"#).str_at(0), Some("a\u{fffd}\n"));
    assert!(parse(r#"[1,2]"#).is_none());
}

#[test]
fn hex_is_written_again_in_lower_case() {
    let mut out = [0u8; 4];
    assert!(unhex("DeadBEEF", &mut out));
    assert_eq!(hex(&out), "deadbeef");
}

#[test]
fn different_texts_are_quoted_differently() {
    let texts = ["", "n", "\n", "\\n", "\"", "\u{1}", "\\u0001", "\u{2028}", "\u{e9}", "a b"];
    for (i, a) in texts.iter().enumerate() {
        for (j, b) in texts.iter().enumerate() {
            assert_eq!(quote(a) == quote(b), i == j, "{a:?} and {b:?}");
        }
    }
    assert_eq!(quote("\u{1}"), "\"\\u0001\"");
}
