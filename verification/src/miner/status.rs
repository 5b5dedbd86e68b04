//! What the miner reports to a program: one JSON object per line, each with an
//! `event` field.
//!
//! ```text
//! {"event":"status","hashrate":24891,"avg":24790,"accepted":12,"rejected":0,"blocks":0,"job":"00002341","height":10912,"uptime":95,"threads":14}
//! {"event":"share","accepted":true,"total_accepted":13,"total_rejected":0}
//! {"event":"share","accepted":false,"total_accepted":13,"total_rejected":1,"code":23,"message":"low difficulty"}
//! {"event":"block","height":10913,"hash":"0000a1..."}
//! {"event":"summary","accepted":13,"rejected":1,"blocks":1,"hashes":2361088,"avg":24850,"uptime":95}
//! ```
//!
//! Rates are whole hashes per second, `uptime` is in seconds, and `job` is the
//! job id as the server spells it, or null before the first job.

use vstd::prelude::*;
use crate::text;
use crate::text::{debug_text, push_dec, push_hex_pad, same, to_chars};

verus! {

/// Which output the miner writes.
#[derive(Clone, Copy, Debug, PartialEq, Eq, Structural)]
pub enum Format {
    /// Lines for people.
    Text,
    /// One JSON object per line.
    Json,
}

impl Default for Format {
    fn default() -> (f: Format)
        ensures
            f == Format::Text,
    {
        Format::Text
    }
}

impl Format {
    pub fn parse(s: &str) -> (r: Result<Format, String>)
        ensures
            s@ == "text"@ ==> r == Ok::<Format, String>(Format::Text),
            s@ == "json"@ ==> r == Ok::<Format, String>(Format::Json),
            s@ != "text"@ && s@ != "json"@ ==> r is Err,
            r matches Err(e) ==> e@ == "status format "@ + text::debug_of(s@)
                + " is not text or json"@,
    {
        proof {
            reveal_strlit("text");
            reveal_strlit("json");
            assert("text"@[0] == 't');
            assert("json"@[0] == 'j');
        }
        if same(s, "text") {
            Ok(Format::Text)
        } else if same(s, "json") {
            Ok(Format::Json)
        } else {
            let mut e = "status format ".to_owned();
            e.append(&debug_text(s));
            e.append(" is not text or json");
            Err(e)
        }
    }
}

/// A report. The rates are rounded to whole hashes per second.
#[derive(Clone, Debug, PartialEq)]
pub enum Event<'a> {
    Status {
        hashrate: u64,
        avg: u64,
        accepted: u64,
        rejected: u64,
        blocks: u64,
        job: Option<&'a str>,
        height: u64,
        uptime: u64,
        threads: usize,
    },
    Share {
        accepted: bool,
        total_accepted: u64,
        total_rejected: u64,
        code: Option<i64>,
        message: Option<&'a str>,
    },
    Block { height: u64, hash: &'a str },
    Summary { accepted: u64, rejected: u64, blocks: u64, hashes: u64, avg: u64, uptime: u64 },
}

/// What one character of a JSON string is written as. Every control character
/// and both Unicode line separators are escaped.
pub open spec fn quoted_char(c: char) -> Seq<char> {
    if c == '"' {
        seq!['\\', '"']
    } else if c == '\\' {
        seq!['\\', '\\']
    } else if c == '\n' {
        seq!['\\', 'n']
    } else if c == '\r' {
        seq!['\\', 'r']
    } else if c == '\t' {
        seq!['\\', 't']
    } else if (c as u32) < 0x20 || c == '\u{2028}' || c == '\u{2029}' {
        seq!['\\', 'u'] + text::hex_pad(c as u32 as nat, 4)
    } else {
        seq![c]
    }
}

pub open spec fn quoted_chars(s: Seq<char>) -> Seq<char>
    decreases s.len(),
{
    if s.len() == 0 {
        Seq::empty()
    } else {
        quoted_chars(s.drop_last()) + quoted_char(s.last())
    }
}

/// `s` as a JSON string.
pub open spec fn quoted(s: Seq<char>) -> Seq<char> {
    seq!['"'] + quoted_chars(s) + seq!['"']
}

/// `s` as a JSON string.
pub fn quote(s: &str) -> (out: String)
    ensures
        out@ == quoted(s@),
{
    let v = to_chars(s);
    let mut out = String::new();
    out.push('"');
    let mut i: usize = 0;
    assert(out@ =~= seq!['"'] + quoted_chars(s@.take(0)));
    while i < v.len()
        invariant
            i <= v.len(),
            v@ == s@,
            out@ == seq!['"'] + quoted_chars(s@.take(i as int)),
        decreases v.len() - i,
    {
        let c: char = v[i];
        let ghost before = out@;
        if c == '"' {
            out.push('\\');
            out.push('"');
        } else if c == '\\' {
            out.push('\\');
            out.push('\\');
        } else if c == '\n' {
            out.push('\\');
            out.push('n');
        } else if c == '\r' {
            out.push('\\');
            out.push('r');
        } else if c == '\t' {
            out.push('\\');
            out.push('t');
        } else if (c as u32) < 0x20 || c == '\u{2028}' || c == '\u{2029}' {
            out.push('\\');
            out.push('u');
            push_hex_pad(&mut out, c as u32 as u64, 4);
        } else {
            out.push(c);
        }
        i += 1;
        assert(out@ =~= before + quoted_char(c));
        assert(s@.take(i as int).drop_last() =~= s@.take(i - 1));
        assert(out@ =~= seq!['"'] + quoted_chars(s@.take(i as int)));
    }
    out.push('"');
    assert(s@.take(i as int) =~= s@);
    assert(out@ =~= quoted(s@));
    out
}

/// Whether nothing in a text can end a line.
pub open spec fn one_line(s: Seq<char>) -> bool {
    forall|i: int|
        0 <= i < s.len() ==> (#[trigger] s[i]) as u32 >= 0x20 && s[i] != '\u{2028}' && s[i]
            != '\u{2029}'
}

proof fn lemma_hex_line(n: nat, w: nat)
    ensures
        one_line(text::hex_pad(n, w)),
    decreases n, w,
{
    if !(n < 16 && w <= 1) {
        lemma_hex_line(
            n / 16,
            if w == 0 {
                0
            } else {
                (w - 1) as nat
            },
        );
    }
}

proof fn lemma_quoted_chars(s: Seq<char>)
    ensures
        one_line(quoted_chars(s)),
    decreases s.len(),
{
    if s.len() > 0 {
        lemma_quoted_chars(s.drop_last());
        lemma_hex_line(s.last() as u32 as nat, 4);
    }
}

/// Whatever a server says, quoted it stays on one line.
pub proof fn law_a_quoted_text_is_one_line(s: Seq<char>)
    ensures
        one_line(quoted(s)),
{
    lemma_quoted_chars(s);
}

/// `n` in decimal, with a minus sign if it is negative.
pub open spec fn signed(n: int) -> Seq<char> {
    if n < 0 {
        "-"@ + text::dec((-n) as nat)
    } else {
        text::dec(n as nat)
    }
}

fn push_signed(t: &mut String, n: i64)
    ensures
        final(t)@ == old(t)@ + signed(n as int),
{
    if n < 0 {
        t.append("-");
        if n == i64::MIN {
            push_dec(t, 9223372036854775808u64);
        } else {
            push_dec(t, (-n) as u64);
        }
    } else {
        push_dec(t, n as u64);
    }
    assert(t@ =~= old(t)@ + signed(n as int));
}

pub open spec fn truth(b: bool) -> Seq<char> {
    if b {
        "true"@
    } else {
        "false"@
    }
}

/// A share and what became of it, as one line of JSON.
pub open spec fn share_text(
    accepted: bool,
    total_accepted: nat,
    total_rejected: nat,
    code: Option<i64>,
    message: Option<Seq<char>>,
) -> Seq<char> {
    "{\"event\":\"share\",\"accepted\":"@ + truth(accepted) + ",\"total_accepted\":"@ + text::dec(
        total_accepted,
    ) + ",\"total_rejected\":"@ + text::dec(total_rejected) + (match code {
        Some(c) => ",\"code\":"@ + signed(c as int),
        None => ""@,
    }) + (match message {
        Some(m) => ",\"message\":"@ + quoted(m),
        None => ""@,
    }) + "}"@
}

/// A block, as one line of JSON.
pub open spec fn block_text(height: nat, hash: Seq<char>) -> Seq<char> {
    "{\"event\":\"block\",\"height\":"@ + text::dec(height) + ",\"hash\":"@ + quoted(hash) + "}"@
}

pub open spec fn str_opt(s: Option<&str>) -> Option<Seq<char>> {
    match s {
        Some(t) => Some(t@),
        None => None,
    }
}

/// An event as one line of JSON.
pub open spec fn event_text(e: Event) -> Seq<char> {
    match e {
        Event::Status {
            hashrate,
            avg,
            accepted,
            rejected,
            blocks,
            job,
            height,
            uptime,
            threads,
        } => "{\"event\":\"status\",\"hashrate\":"@ + text::dec(hashrate as nat) + ",\"avg\":"@
            + text::dec(avg as nat) + ",\"accepted\":"@ + text::dec(accepted as nat)
            + ",\"rejected\":"@ + text::dec(rejected as nat) + ",\"blocks\":"@ + text::dec(
            blocks as nat,
        ) + ",\"job\":"@ + (match job {
            Some(j) => quoted(j@),
            None => "null"@,
        }) + ",\"height\":"@ + text::dec(height as nat) + ",\"uptime\":"@ + text::dec(uptime as nat)
            + ",\"threads\":"@ + text::dec(threads as nat) + "}"@,
        Event::Share { accepted, total_accepted, total_rejected, code, message } => share_text(
            accepted,
            total_accepted as nat,
            total_rejected as nat,
            code,
            str_opt(message),
        ),
        Event::Block { height, hash } => block_text(height as nat, hash@),
        Event::Summary { accepted, rejected, blocks, hashes, avg, uptime } =>
        "{\"event\":\"summary\",\"accepted\":"@ + text::dec(accepted as nat) + ",\"rejected\":"@
            + text::dec(rejected as nat) + ",\"blocks\":"@ + text::dec(blocks as nat)
            + ",\"hashes\":"@ + text::dec(hashes as nat) + ",\"avg\":"@ + text::dec(avg as nat)
            + ",\"uptime\":"@ + text::dec(uptime as nat) + "}"@,
    }
}

impl<'a> Event<'a> {
    /// The event as one line of JSON.
    pub fn json(&self) -> (t: String)
        ensures
            t@ == event_text(*self),
    {
        match self {
            Event::Status {
                hashrate,
                avg,
                accepted,
                rejected,
                blocks,
                job,
                height,
                uptime,
                threads,
            } => {
                let mut t = "{\"event\":\"status\",\"hashrate\":".to_owned();
                push_dec(&mut t, *hashrate);
                t.append(",\"avg\":");
                push_dec(&mut t, *avg);
                t.append(",\"accepted\":");
                push_dec(&mut t, *accepted);
                t.append(",\"rejected\":");
                push_dec(&mut t, *rejected);
                t.append(",\"blocks\":");
                push_dec(&mut t, *blocks);
                t.append(",\"job\":");
                match job {
                    Some(j) => t.append(&quote(j)),
                    None => t.append("null"),
                }
                t.append(",\"height\":");
                push_dec(&mut t, *height);
                t.append(",\"uptime\":");
                push_dec(&mut t, *uptime);
                t.append(",\"threads\":");
                push_dec(&mut t, *threads as u64);
                t.append("}");
                t
            },
            Event::Share { accepted, total_accepted, total_rejected, code, message } => {
                let mut t = "{\"event\":\"share\",\"accepted\":".to_owned();
                t.append(
                    if *accepted {
                        "true"
                    } else {
                        "false"
                    },
                );
                t.append(",\"total_accepted\":");
                push_dec(&mut t, *total_accepted);
                t.append(",\"total_rejected\":");
                push_dec(&mut t, *total_rejected);
                let mut a = String::new();
                match code {
                    Some(c) => {
                        a.append(",\"code\":");
                        push_signed(&mut a, *c);
                        assert(a@ =~= ",\"code\":"@ + signed(*c as int));
                    },
                    None => {
                        a.append("");
                        assert(a@ =~= ""@);
                    },
                }
                t.append(&a);
                let mut b = String::new();
                match message {
                    Some(m) => {
                        b.append(",\"message\":");
                        b.append(&quote(m));
                        assert(b@ =~= ",\"message\":"@ + quoted(m@));
                    },
                    None => {
                        b.append("");
                        assert(b@ =~= ""@);
                    },
                }
                t.append(&b);
                t.append("}");
                t
            },
            Event::Block { height, hash } => {
                let mut t = "{\"event\":\"block\",\"height\":".to_owned();
                push_dec(&mut t, *height);
                t.append(",\"hash\":");
                t.append(&quote(hash));
                t.append("}");
                t
            },
            Event::Summary { accepted, rejected, blocks, hashes, avg, uptime } => {
                let mut t = "{\"event\":\"summary\",\"accepted\":".to_owned();
                push_dec(&mut t, *accepted);
                t.append(",\"rejected\":");
                push_dec(&mut t, *rejected);
                t.append(",\"blocks\":");
                push_dec(&mut t, *blocks);
                t.append(",\"hashes\":");
                push_dec(&mut t, *hashes);
                t.append(",\"avg\":");
                push_dec(&mut t, *avg);
                t.append(",\"uptime\":");
                push_dec(&mut t, *uptime);
                t.append("}");
                t
            },
        }
    }
}

proof fn lemma_line_add(a: Seq<char>, b: Seq<char>)
    requires
        one_line(a),
        one_line(b),
    ensures
        one_line(a + b),
{
}

/// A number in decimal is on one line.
pub proof fn lemma_dec_line(n: nat)
    ensures
        one_line(text::dec(n)),
{
    text::lemma_dec(n);
    assert forall|i: int| 0 <= i < text::dec(n).len() implies (#[trigger] text::dec(n)[i]) as u32
        >= 0x20 && text::dec(n)[i] != '\u{2028}' && text::dec(n)[i] != '\u{2029}' by {
        assert(48 <= text::dec(n)[i] as u32 <= 57);
    }
}

proof fn lemma_job_line(job: Option<&str>)
    ensures
        one_line(
            match job {
                Some(j) => quoted(j@),
                None => "null"@,
            },
        ),
{
    reveal_strlit("null");
    match job {
        Some(j) => law_a_quoted_text_is_one_line(j@),
        None => {},
    }
}

proof fn lemma_code_line(code: Option<i64>)
    ensures
        one_line(
            match code {
                Some(c) => ",\"code\":"@ + signed(c as int),
                None => ""@,
            },
        ),
{
    reveal_strlit("");
    reveal_strlit("-");
    reveal_strlit(",\"code\":");
    match code {
        Some(c) => {
            if c < 0 {
                lemma_dec_line((-c) as nat);
                lemma_line_add("-"@, text::dec((-c) as nat));
            } else {
                lemma_dec_line(c as nat);
            }
            lemma_line_add(",\"code\":"@, signed(c as int));
        },
        None => {},
    }
}

proof fn lemma_message_line(message: Option<Seq<char>>)
    ensures
        one_line(
            match message {
                Some(m) => ",\"message\":"@ + quoted(m),
                None => ""@,
            },
        ),
{
    reveal_strlit("");
    reveal_strlit(",\"message\":");
    match message {
        Some(m) => {
            law_a_quoted_text_is_one_line(m);
            lemma_line_add(",\"message\":"@, quoted(m));
        },
        None => {},
    }
}

/// A share is one line, whatever the server says of it.
pub proof fn lemma_share_line(
    accepted: bool,
    total_accepted: nat,
    total_rejected: nat,
    code: Option<i64>,
    message: Option<Seq<char>>,
)
    ensures
        one_line(share_text(accepted, total_accepted, total_rejected, code, message)),
{
    reveal_strlit("{\"event\":\"share\",\"accepted\":");
    let t = "{\"event\":\"share\",\"accepted\":"@;
    assert(one_line(t));
    reveal_strlit("true");
    reveal_strlit("false");
    lemma_line_add(t, truth(accepted));
    let t = t + truth(accepted);
    reveal_strlit(",\"total_accepted\":");
    lemma_line_add(t, ",\"total_accepted\":"@);
    let t = t + ",\"total_accepted\":"@;
    lemma_dec_line(total_accepted);
    lemma_line_add(t, text::dec(total_accepted));
    let t = t + text::dec(total_accepted);
    reveal_strlit(",\"total_rejected\":");
    lemma_line_add(t, ",\"total_rejected\":"@);
    let t = t + ",\"total_rejected\":"@;
    lemma_dec_line(total_rejected);
    lemma_line_add(t, text::dec(total_rejected));
    let t = t + text::dec(total_rejected);
    let c = match code {
        Some(c) => ",\"code\":"@ + signed(c as int),
        None => ""@,
    };
    lemma_code_line(code);
    lemma_line_add(t, c);
    let t = t + c;
    let m = match message {
        Some(m) => ",\"message\":"@ + quoted(m),
        None => ""@,
    };
    lemma_message_line(message);
    lemma_line_add(t, m);
    let t = t + m;
    reveal_strlit("}");
    lemma_line_add(t, "}"@);
    let t = t + "}"@;
}

/// A block is one line.
pub proof fn lemma_block_line(height: nat, hash: Seq<char>)
    ensures
        one_line(block_text(height, hash)),
{
    reveal_strlit("{\"event\":\"block\",\"height\":");
    let t = "{\"event\":\"block\",\"height\":"@;
    assert(one_line(t));
    lemma_dec_line(height);
    lemma_line_add(t, text::dec(height));
    let t = t + text::dec(height);
    reveal_strlit(",\"hash\":");
    lemma_line_add(t, ",\"hash\":"@);
    let t = t + ",\"hash\":"@;
    law_a_quoted_text_is_one_line(hash);
    lemma_line_add(t, quoted(hash));
    let t = t + quoted(hash);
    reveal_strlit("}");
    lemma_line_add(t, "}"@);
    let t = t + "}"@;
}

/// Every event is one line, whatever texts it carries.
pub proof fn law_every_event_is_one_line(e: Event)
    ensures
        one_line(event_text(e)),
{
    match e {
        Event::Status {
            hashrate,
            avg,
            accepted,
            rejected,
            blocks,
            job,
            height,
            uptime,
            threads,
        } => {
            reveal_strlit("{\"event\":\"status\",\"hashrate\":");
            let t = "{\"event\":\"status\",\"hashrate\":"@;
            assert(one_line(t));
            lemma_dec_line(hashrate as nat);
            lemma_line_add(t, text::dec(hashrate as nat));
            let t = t + text::dec(hashrate as nat);
            reveal_strlit(",\"avg\":");
            lemma_line_add(t, ",\"avg\":"@);
            let t = t + ",\"avg\":"@;
            lemma_dec_line(avg as nat);
            lemma_line_add(t, text::dec(avg as nat));
            let t = t + text::dec(avg as nat);
            reveal_strlit(",\"accepted\":");
            lemma_line_add(t, ",\"accepted\":"@);
            let t = t + ",\"accepted\":"@;
            lemma_dec_line(accepted as nat);
            lemma_line_add(t, text::dec(accepted as nat));
            let t = t + text::dec(accepted as nat);
            reveal_strlit(",\"rejected\":");
            lemma_line_add(t, ",\"rejected\":"@);
            let t = t + ",\"rejected\":"@;
            lemma_dec_line(rejected as nat);
            lemma_line_add(t, text::dec(rejected as nat));
            let t = t + text::dec(rejected as nat);
            reveal_strlit(",\"blocks\":");
            lemma_line_add(t, ",\"blocks\":"@);
            let t = t + ",\"blocks\":"@;
            lemma_dec_line(blocks as nat);
            lemma_line_add(t, text::dec(blocks as nat));
            let t = t + text::dec(blocks as nat);
            reveal_strlit(",\"job\":");
            lemma_line_add(t, ",\"job\":"@);
            let t = t + ",\"job\":"@;
            let j = match job {
                Some(j) => quoted(j@),
                None => "null"@,
            };
            lemma_job_line(job);
            lemma_line_add(t, j);
            let t = t + j;
            reveal_strlit(",\"height\":");
            lemma_line_add(t, ",\"height\":"@);
            let t = t + ",\"height\":"@;
            lemma_dec_line(height as nat);
            lemma_line_add(t, text::dec(height as nat));
            let t = t + text::dec(height as nat);
            reveal_strlit(",\"uptime\":");
            lemma_line_add(t, ",\"uptime\":"@);
            let t = t + ",\"uptime\":"@;
            lemma_dec_line(uptime as nat);
            lemma_line_add(t, text::dec(uptime as nat));
            let t = t + text::dec(uptime as nat);
            reveal_strlit(",\"threads\":");
            lemma_line_add(t, ",\"threads\":"@);
            let t = t + ",\"threads\":"@;
            lemma_dec_line(threads as nat);
            lemma_line_add(t, text::dec(threads as nat));
            let t = t + text::dec(threads as nat);
            reveal_strlit("}");
            lemma_line_add(t, "}"@);
            let t = t + "}"@;
        },
        Event::Share { accepted, total_accepted, total_rejected, code, message } => {
            lemma_share_line(
                accepted,
                total_accepted as nat,
                total_rejected as nat,
                code,
                str_opt(message),
            );
        },
        Event::Block { height, hash } => {
            lemma_block_line(height as nat, hash@);
        },
        Event::Summary { accepted, rejected, blocks, hashes, avg, uptime } => {
            reveal_strlit("{\"event\":\"summary\",\"accepted\":");
            let t = "{\"event\":\"summary\",\"accepted\":"@;
            assert(one_line(t));
            lemma_dec_line(accepted as nat);
            lemma_line_add(t, text::dec(accepted as nat));
            let t = t + text::dec(accepted as nat);
            reveal_strlit(",\"rejected\":");
            lemma_line_add(t, ",\"rejected\":"@);
            let t = t + ",\"rejected\":"@;
            lemma_dec_line(rejected as nat);
            lemma_line_add(t, text::dec(rejected as nat));
            let t = t + text::dec(rejected as nat);
            reveal_strlit(",\"blocks\":");
            lemma_line_add(t, ",\"blocks\":"@);
            let t = t + ",\"blocks\":"@;
            lemma_dec_line(blocks as nat);
            lemma_line_add(t, text::dec(blocks as nat));
            let t = t + text::dec(blocks as nat);
            reveal_strlit(",\"hashes\":");
            lemma_line_add(t, ",\"hashes\":"@);
            let t = t + ",\"hashes\":"@;
            lemma_dec_line(hashes as nat);
            lemma_line_add(t, text::dec(hashes as nat));
            let t = t + text::dec(hashes as nat);
            reveal_strlit(",\"avg\":");
            lemma_line_add(t, ",\"avg\":"@);
            let t = t + ",\"avg\":"@;
            lemma_dec_line(avg as nat);
            lemma_line_add(t, text::dec(avg as nat));
            let t = t + text::dec(avg as nat);
            reveal_strlit(",\"uptime\":");
            lemma_line_add(t, ",\"uptime\":"@);
            let t = t + ",\"uptime\":"@;
            lemma_dec_line(uptime as nat);
            lemma_line_add(t, text::dec(uptime as nat));
            let t = t + text::dec(uptime as nat);
            reveal_strlit("}");
            lemma_line_add(t, "}"@);
            let t = t + "}"@;
        },
    }
}

// ---------------------------------------------------------------------------
// What a JSON string denotes

/// The value of a hexadecimal digit, of either case.
pub open spec fn digit_value(c: char) -> Option<nat> {
    if '0' <= c <= '9' {
        Some((c as u32 - 48) as nat)
    } else if 'a' <= c <= 'f' {
        Some((c as u32 - 87) as nat)
    } else if 'A' <= c <= 'F' {
        Some((c as u32 - 55) as nat)
    } else {
        None
    }
}

/// The value of the four hexadecimal digits from `i` on, if they are digits.
pub open spec fn four_digits(t: Seq<char>, i: int) -> Option<nat> {
    if 0 <= i && i + 4 <= t.len() {
        match (
            digit_value(t[i]),
            digit_value(t[i + 1]),
            digit_value(t[i + 2]),
            digit_value(t[i + 3]),
        ) {
            (Some(a), Some(b), Some(c), Some(d)) => Some(4096 * a + 256 * b + 16 * c + d),
            _ => None,
        }
    } else {
        None
    }
}

/// The character that the escape at `i` stands for, and where the escape ends.
/// One outside the first plane takes two halves.
pub open spec fn escape(t: Seq<char>, i: int) -> Option<(char, int)> {
    if i + 1 >= t.len() {
        None
    } else if t[i + 1] == '"' || t[i + 1] == '\\' || t[i + 1] == '/' {
        Some((t[i + 1], i + 2))
    } else if t[i + 1] == 'b' {
        Some(('\u{8}', i + 2))
    } else if t[i + 1] == 'f' {
        Some(('\u{c}', i + 2))
    } else if t[i + 1] == 'n' {
        Some(('\n', i + 2))
    } else if t[i + 1] == 'r' {
        Some(('\r', i + 2))
    } else if t[i + 1] == 't' {
        Some(('\t', i + 2))
    } else if t[i + 1] == 'u' {
        match four_digits(t, i + 2) {
            Some(v) => if v < 0xd800 || v > 0xdfff {
                Some((v as char, i + 6))
            } else if v < 0xdc00 && i + 12 <= t.len() && t[i + 6] == '\\' && t[i + 7] == 'u' {
                match four_digits(t, i + 8) {
                    Some(w) => if 0xdc00 <= w <= 0xdfff {
                        Some(((0x10000 + 0x400 * (v - 0xd800) + (w - 0xdc00)) as char, i + 12))
                    } else {
                        None
                    },
                    None => None,
                }
            } else {
                None
            },
            None => None,
        }
    } else {
        None
    }
}

/// What is denoted from `i` up to the quote that closes the string, which is the
/// last character of `t`.
pub open spec fn inside(t: Seq<char>, i: int) -> Option<Seq<char>>
    decreases t.len() - i,
{
    if i < 0 || i >= t.len() || (t[i] as u32) < 0x20 {
        None
    } else if t[i] == '"' {
        if i + 1 == t.len() {
            Some(Seq::empty())
        } else {
            None
        }
    } else if t[i] == '\\' {
        match escape(t, i) {
            Some((c, j)) => if j > i {
                match inside(t, j) {
                    Some(r) => Some(seq![c] + r),
                    None => None,
                }
            } else {
                None
            },
            None => None,
        }
    } else {
        match inside(t, i + 1) {
            Some(r) => Some(seq![t[i]] + r),
            None => None,
        }
    }
}

/// The text that a JSON string literal denotes, if `t` is one.
pub open spec fn denoted(t: Seq<char>) -> Option<Seq<char>> {
    if t.len() > 0 && t[0] == '"' {
        inside(t, 1)
    } else {
        None
    }
}

proof fn lemma_four_digits(n: nat)
    requires
        n <= 0xffff,
    ensures
        text::hex_pad(n, 4) == seq![
            text::hexit(n / 4096),
            text::hexit((n / 256) % 16),
            text::hexit((n / 16) % 16),
            text::hexit(n % 16),
        ],
{
    reveal_with_fuel(text::hex_pad, 4);
    assert(n / 16 / 16 / 16 == n / 4096);
    assert(n / 16 / 16 == n / 256);
}

proof fn lemma_quoted_prefix(s: Seq<char>, k: int)
    requires
        0 <= k <= s.len(),
    ensures
        quoted_chars(s.take(k)).len() <= quoted_chars(s).len(),
        quoted_chars(s).take(quoted_chars(s.take(k)).len() as int) == quoted_chars(s.take(k)),
    decreases s.len() - k,
{
    if k == s.len() {
        assert(s.take(k) =~= s);
    } else {
        let head = s.drop_last();
        lemma_quoted_prefix(head, k);
        assert(head.take(k) =~= s.take(k));
        let n = quoted_chars(s.take(k)).len() as int;
        assert(quoted_chars(s).take(n) =~= quoted_chars(head).take(n));
    }
}

proof fn lemma_digit_value(n: nat)
    requires
        n < 16,
    ensures
        digit_value(text::hexit(n)) == Some(n),
{
}

proof fn lemma_digits_add_up(v: nat)
    requires
        v <= 0xffff,
    ensures
        v / 4096 < 16,
        4096 * (v / 4096) + 256 * ((v / 256) % 16) + 16 * ((v / 16) % 16) + v % 16 == v,
{
    let a = v / 16;
    let b = a / 16;
    assert(v / 256 == b);
    assert(v / 4096 == b / 16);
    assert(v == 16 * a + v % 16);
    assert(a == 16 * b + a % 16);
    assert(b == 16 * (b / 16) + b % 16);
}

/// An escape by number denotes its character.
proof fn lemma_numbered(t: Seq<char>, p: int, c: char)
    requires
        0 <= p,
        p + 6 <= t.len(),
        c as u32 <= 0xffff,
        t.subrange(p, p + 6) == seq!['\\', 'u'] + text::hex_pad(c as u32 as nat, 4),
    ensures
        escape(t, p) == Some((c, p + 6)),
{
    let v = c as u32 as nat;
    let q = t.subrange(p, p + 6);
    lemma_four_digits(v);
    lemma_digits_add_up(v);
    lemma_digit_value(v / 4096);
    lemma_digit_value((v / 256) % 16);
    lemma_digit_value((v / 16) % 16);
    lemma_digit_value(v % 16);
    assert(t[p + 1] == q[1]);
    assert(t[p + 2] == q[2]);
    assert(t[p + 3] == q[3]);
    assert(t[p + 4] == q[4]);
    assert(t[p + 5] == q[5]);
    assert(four_digits(t, p + 2) == Some(v));
}

/// Where a quoted character stands, the character is denoted.
proof fn lemma_one_inside(t: Seq<char>, p: int, c: char, rest: Seq<char>)
    requires
        0 <= p,
        p + quoted_char(c).len() <= t.len(),
        t.subrange(p, p + quoted_char(c).len()) == quoted_char(c),
        inside(t, p + quoted_char(c).len()) == Some(rest),
    ensures
        inside(t, p) == Some(seq![c] + rest),
{
    let q = quoted_char(c);
    let u = t.subrange(p, p + q.len());
    lemma_four_digits(c as u32 as nat % 0x10000);
    assert(u[0] == t[p]);
    if c == '"' || c == '\\' || c == '\n' || c == '\r' || c == '\t' {
        assert(u[1] == t[p + 1]);
        assert(escape(t, p) == Some((c, p + 2)));
    } else if (c as u32) < 0x20 || c == '\u{2028}' || c == '\u{2029}' {
        assert(q.len() == 6);
        lemma_numbered(t, p, c);
    }
}

/// Where the quoted characters before the `k`th end, the `k`th one stands.
proof fn lemma_quoted_at(s: Seq<char>, k: int)
    requires
        0 <= k < s.len(),
    ensures
        ({
            let n = quoted_chars(s.take(k)).len() as int;
            let q = quoted_char(s[k]);
            &&& quoted_chars(s.take(k + 1)).len() == n + q.len()
            &&& 1 + n + q.len() <= quoted(s).len()
            &&& quoted(s).subrange(1 + n, 1 + n + q.len()) == q
        }),
{
    let n = quoted_chars(s.take(k)).len() as int;
    let q = quoted_char(s[k]);
    let all = quoted_chars(s);
    lemma_quoted_prefix(s, k + 1);
    assert(s.take(k + 1).drop_last() =~= s.take(k));
    assert(s.take(k + 1).last() == s[k]);
    let part = quoted_chars(s.take(k + 1));
    assert(part == quoted_chars(s.take(k)) + q);
    assert(part == all.take(part.len() as int));
    let u = quoted(s).subrange(1 + n, 1 + n + q.len());
    assert forall|j: int| 0 <= j < q.len() implies u[j] == q[j] by {
        assert(u[j] == all[n + j]);
        assert(part[n + j] == all[n + j]);
        assert(part[n + j] == q[j]);
    }
    assert(u =~= q);
}

proof fn lemma_inside(s: Seq<char>, k: int)
    requires
        0 <= k <= s.len(),
    ensures
        inside(quoted(s), 1int + quoted_chars(s.take(k)).len()) == Some(s.skip(k)),
    decreases s.len() - k,
{
    let n = quoted_chars(s.take(k)).len() as int;
    if k == s.len() {
        assert(s.take(k) =~= s);
        assert(quoted(s)[1 + n] == '"');
        assert(s.skip(k) =~= Seq::<char>::empty());
    } else {
        lemma_inside(s, k + 1);
        lemma_quoted_at(s, k);
        assert(s.skip(k) =~= seq![s[k]] + s.skip(k + 1));
        lemma_one_inside(quoted(s), 1 + n, s[k], s.skip(k + 1));
    }
}

/// A quoted text is a JSON string literal that denotes the text.
pub proof fn law_a_quoted_text_denotes_itself(s: Seq<char>)
    ensures
        denoted(quoted(s)) == Some(s),
        quoted(s).len() >= 2,
        quoted(s)[0] == '"',
        quoted(s).last() == '"',
{
    lemma_inside(s, 0);
    assert(s.take(0) =~= Seq::<char>::empty());
    assert(s.skip(0) =~= s);
}

/// Different texts are quoted differently.
pub proof fn law_quotes_tell_texts_apart(a: Seq<char>, b: Seq<char>)
    ensures
        quoted(a) == quoted(b) <==> a == b,
{
    law_a_quoted_text_denotes_itself(a);
    law_a_quoted_text_denotes_itself(b);
}

// ---------------------------------------------------------------------------
// What an event says

/// Whether `p` stands somewhere in `t`.
pub open spec fn says(t: Seq<char>, p: Seq<char>) -> bool {
    exists|i: int| #[trigger] text::stands(t, p, i)
}

/// What stands at the end of a text is said by it.
proof fn lemma_says_last(a: Seq<char>, l: Seq<char>, v: Seq<char>)
    ensures
        says(a + l + v, l + v),
{
    let t = a + l + v;
    let p = l + v;
    assert(t.subrange(a.len() as int, (a.len() + p.len()) as int) =~= p);
    assert(text::stands(t, p, a.len() as int));
}

/// What a text says it still says with more behind it.
proof fn lemma_says_more(t: Seq<char>, p: Seq<char>, l: Seq<char>, v: Seq<char>)
    requires
        says(t, p),
    ensures
        says(t + l + v, p),
        says(t + l, p),
{
    let i = choose|i: int| #[trigger] text::stands(t, p, i);
    assert((t + l + v).subrange(i, i + p.len()) =~= t.subrange(i, i + p.len()));
    assert((t + l).subrange(i, i + p.len()) =~= t.subrange(i, i + p.len()));
    assert(text::stands(t + l + v, p, i));
    assert(text::stands(t + l, p, i));
}

/// A status says each of its figures under its name.
pub proof fn law_a_status_says_its_figures(
    hashrate: u64,
    avg: u64,
    accepted: u64,
    rejected: u64,
    blocks: u64,
    job: Option<&str>,
    height: u64,
    uptime: u64,
    threads: usize,
)
    ensures
        ({
            let t = event_text(
                (Event::Status {
                    hashrate,
                    avg,
                    accepted,
                    rejected,
                    blocks,
                    job,
                    height,
                    uptime,
                    threads,
                }),
            );
            &&& says(t, "{\"event\":\"status\",\"hashrate\":"@ + text::dec(hashrate as nat))
            &&& says(t, ",\"avg\":"@ + text::dec(avg as nat))
            &&& says(t, ",\"accepted\":"@ + text::dec(accepted as nat))
            &&& says(t, ",\"rejected\":"@ + text::dec(rejected as nat))
            &&& says(t, ",\"blocks\":"@ + text::dec(blocks as nat))
            &&& says(t, ",\"job\":"@ + (match job {
                Some(j) => quoted(j@),
                None => "null"@,
            }))
            &&& says(t, ",\"height\":"@ + text::dec(height as nat))
            &&& says(t, ",\"uptime\":"@ + text::dec(uptime as nat))
            &&& says(t, ",\"threads\":"@ + text::dec(threads as nat))
        }),
{
    let t0 = Seq::<char>::empty();
    let l0 = "{\"event\":\"status\",\"hashrate\":"@;
    let v0 = text::dec(hashrate as nat);
    let t1 = l0 + v0;
    assert(t0 + l0 + v0 =~= t1);
    lemma_says_last(t0, l0, v0);
    let l1 = ",\"avg\":"@;
    let v1 = text::dec(avg as nat);
    let t2 = t1 + l1 + v1;
    lemma_says_last(t1, l1, v1);
    lemma_says_more(t1, l0 + v0, l1, v1);
    let l2 = ",\"accepted\":"@;
    let v2 = text::dec(accepted as nat);
    let t3 = t2 + l2 + v2;
    lemma_says_last(t2, l2, v2);
    lemma_says_more(t2, l0 + v0, l2, v2);
    lemma_says_more(t2, l1 + v1, l2, v2);
    let l3 = ",\"rejected\":"@;
    let v3 = text::dec(rejected as nat);
    let t4 = t3 + l3 + v3;
    lemma_says_last(t3, l3, v3);
    lemma_says_more(t3, l0 + v0, l3, v3);
    lemma_says_more(t3, l1 + v1, l3, v3);
    lemma_says_more(t3, l2 + v2, l3, v3);
    let l4 = ",\"blocks\":"@;
    let v4 = text::dec(blocks as nat);
    let t5 = t4 + l4 + v4;
    lemma_says_last(t4, l4, v4);
    lemma_says_more(t4, l0 + v0, l4, v4);
    lemma_says_more(t4, l1 + v1, l4, v4);
    lemma_says_more(t4, l2 + v2, l4, v4);
    lemma_says_more(t4, l3 + v3, l4, v4);
    let l5 = ",\"job\":"@;
    let v5 = (match job {
                Some(j) => quoted(j@),
                None => "null"@,
            });
    let t6 = t5 + l5 + v5;
    lemma_says_last(t5, l5, v5);
    lemma_says_more(t5, l0 + v0, l5, v5);
    lemma_says_more(t5, l1 + v1, l5, v5);
    lemma_says_more(t5, l2 + v2, l5, v5);
    lemma_says_more(t5, l3 + v3, l5, v5);
    lemma_says_more(t5, l4 + v4, l5, v5);
    let l6 = ",\"height\":"@;
    let v6 = text::dec(height as nat);
    let t7 = t6 + l6 + v6;
    lemma_says_last(t6, l6, v6);
    lemma_says_more(t6, l0 + v0, l6, v6);
    lemma_says_more(t6, l1 + v1, l6, v6);
    lemma_says_more(t6, l2 + v2, l6, v6);
    lemma_says_more(t6, l3 + v3, l6, v6);
    lemma_says_more(t6, l4 + v4, l6, v6);
    lemma_says_more(t6, l5 + v5, l6, v6);
    let l7 = ",\"uptime\":"@;
    let v7 = text::dec(uptime as nat);
    let t8 = t7 + l7 + v7;
    lemma_says_last(t7, l7, v7);
    lemma_says_more(t7, l0 + v0, l7, v7);
    lemma_says_more(t7, l1 + v1, l7, v7);
    lemma_says_more(t7, l2 + v2, l7, v7);
    lemma_says_more(t7, l3 + v3, l7, v7);
    lemma_says_more(t7, l4 + v4, l7, v7);
    lemma_says_more(t7, l5 + v5, l7, v7);
    lemma_says_more(t7, l6 + v6, l7, v7);
    let l8 = ",\"threads\":"@;
    let v8 = text::dec(threads as nat);
    let t9 = t8 + l8 + v8;
    lemma_says_last(t8, l8, v8);
    lemma_says_more(t8, l0 + v0, l8, v8);
    lemma_says_more(t8, l1 + v1, l8, v8);
    lemma_says_more(t8, l2 + v2, l8, v8);
    lemma_says_more(t8, l3 + v3, l8, v8);
    lemma_says_more(t8, l4 + v4, l8, v8);
    lemma_says_more(t8, l5 + v5, l8, v8);
    lemma_says_more(t8, l6 + v6, l8, v8);
    lemma_says_more(t8, l7 + v7, l8, v8);
    lemma_says_more(t9, l0 + v0, "}"@, Seq::empty());
    lemma_says_more(t9, l1 + v1, "}"@, Seq::empty());
    lemma_says_more(t9, l2 + v2, "}"@, Seq::empty());
    lemma_says_more(t9, l3 + v3, "}"@, Seq::empty());
    lemma_says_more(t9, l4 + v4, "}"@, Seq::empty());
    lemma_says_more(t9, l5 + v5, "}"@, Seq::empty());
    lemma_says_more(t9, l6 + v6, "}"@, Seq::empty());
    lemma_says_more(t9, l7 + v7, "}"@, Seq::empty());
    lemma_says_more(t9, l8 + v8, "}"@, Seq::empty());
}

/// A summary says each of its figures under its name.
pub proof fn law_a_summary_says_its_figures(
    accepted: u64,
    rejected: u64,
    blocks: u64,
    hashes: u64,
    avg: u64,
    uptime: u64,
)
    ensures
        ({
            let t = event_text(
                (Event::Summary { accepted, rejected, blocks, hashes, avg, uptime }),
            );
            &&& says(t, "{\"event\":\"summary\",\"accepted\":"@ + text::dec(accepted as nat))
            &&& says(t, ",\"rejected\":"@ + text::dec(rejected as nat))
            &&& says(t, ",\"blocks\":"@ + text::dec(blocks as nat))
            &&& says(t, ",\"hashes\":"@ + text::dec(hashes as nat))
            &&& says(t, ",\"avg\":"@ + text::dec(avg as nat))
            &&& says(t, ",\"uptime\":"@ + text::dec(uptime as nat))
        }),
{
    let t0 = Seq::<char>::empty();
    let l0 = "{\"event\":\"summary\",\"accepted\":"@;
    let v0 = text::dec(accepted as nat);
    let t1 = l0 + v0;
    assert(t0 + l0 + v0 =~= t1);
    lemma_says_last(t0, l0, v0);
    let l1 = ",\"rejected\":"@;
    let v1 = text::dec(rejected as nat);
    let t2 = t1 + l1 + v1;
    lemma_says_last(t1, l1, v1);
    lemma_says_more(t1, l0 + v0, l1, v1);
    let l2 = ",\"blocks\":"@;
    let v2 = text::dec(blocks as nat);
    let t3 = t2 + l2 + v2;
    lemma_says_last(t2, l2, v2);
    lemma_says_more(t2, l0 + v0, l2, v2);
    lemma_says_more(t2, l1 + v1, l2, v2);
    let l3 = ",\"hashes\":"@;
    let v3 = text::dec(hashes as nat);
    let t4 = t3 + l3 + v3;
    lemma_says_last(t3, l3, v3);
    lemma_says_more(t3, l0 + v0, l3, v3);
    lemma_says_more(t3, l1 + v1, l3, v3);
    lemma_says_more(t3, l2 + v2, l3, v3);
    let l4 = ",\"avg\":"@;
    let v4 = text::dec(avg as nat);
    let t5 = t4 + l4 + v4;
    lemma_says_last(t4, l4, v4);
    lemma_says_more(t4, l0 + v0, l4, v4);
    lemma_says_more(t4, l1 + v1, l4, v4);
    lemma_says_more(t4, l2 + v2, l4, v4);
    lemma_says_more(t4, l3 + v3, l4, v4);
    let l5 = ",\"uptime\":"@;
    let v5 = text::dec(uptime as nat);
    let t6 = t5 + l5 + v5;
    lemma_says_last(t5, l5, v5);
    lemma_says_more(t5, l0 + v0, l5, v5);
    lemma_says_more(t5, l1 + v1, l5, v5);
    lemma_says_more(t5, l2 + v2, l5, v5);
    lemma_says_more(t5, l3 + v3, l5, v5);
    lemma_says_more(t5, l4 + v4, l5, v5);
    lemma_says_more(t6, l0 + v0, "}"@, Seq::empty());
    lemma_says_more(t6, l1 + v1, "}"@, Seq::empty());
    lemma_says_more(t6, l2 + v2, "}"@, Seq::empty());
    lemma_says_more(t6, l3 + v3, "}"@, Seq::empty());
    lemma_says_more(t6, l4 + v4, "}"@, Seq::empty());
    lemma_says_more(t6, l5 + v5, "}"@, Seq::empty());
}

/// A refused share says its totals, and the code and the message of the refusal.
pub proof fn law_a_refused_share_says_its_figures(
    accepted: bool,
    a: nat,
    b: nat,
    code: i64,
    message: Seq<char>,
)
    ensures
        ({
            let t = share_text(accepted, a, b, Some(code), Some(message));
            &&& says(t, "{\"event\":\"share\",\"accepted\":"@ + truth(accepted))
            &&& says(t, ",\"total_accepted\":"@ + text::dec(a))
            &&& says(t, ",\"total_rejected\":"@ + text::dec(b))
            &&& says(t, ",\"code\":"@ + signed(code as int))
            &&& says(t, ",\"message\":"@ + quoted(message))
        }),
{
    let t0 = Seq::<char>::empty();
    let l0 = "{\"event\":\"share\",\"accepted\":"@;
    let v0 = truth(accepted);
    let t1 = l0 + v0;
    assert(t0 + l0 + v0 =~= t1);
    lemma_says_last(t0, l0, v0);
    let l1 = ",\"total_accepted\":"@;
    let v1 = text::dec(a);
    let t2 = t1 + l1 + v1;
    lemma_says_last(t1, l1, v1);
    lemma_says_more(t1, l0 + v0, l1, v1);
    let l2 = ",\"total_rejected\":"@;
    let v2 = text::dec(b);
    let t3 = t2 + l2 + v2;
    lemma_says_last(t2, l2, v2);
    lemma_says_more(t2, l0 + v0, l2, v2);
    lemma_says_more(t2, l1 + v1, l2, v2);
    let l3 = ",\"code\":"@;
    let v3 = signed(code as int);
    let t4 = t3 + l3 + v3;
    lemma_says_last(t3, l3, v3);
    lemma_says_more(t3, l0 + v0, l3, v3);
    lemma_says_more(t3, l1 + v1, l3, v3);
    lemma_says_more(t3, l2 + v2, l3, v3);
    let l4 = ",\"message\":"@;
    let v4 = quoted(message);
    let t5 = t4 + l4 + v4;
    lemma_says_last(t4, l4, v4);
    lemma_says_more(t4, l0 + v0, l4, v4);
    lemma_says_more(t4, l1 + v1, l4, v4);
    lemma_says_more(t4, l2 + v2, l4, v4);
    lemma_says_more(t4, l3 + v3, l4, v4);
    assert(t3 + (l3 + v3) =~= t4);
    assert(t4 + (l4 + v4) =~= t5);
    lemma_says_more(t5, l0 + v0, "}"@, Seq::empty());
    lemma_says_more(t5, l1 + v1, "}"@, Seq::empty());
    lemma_says_more(t5, l2 + v2, "}"@, Seq::empty());
    lemma_says_more(t5, l3 + v3, "}"@, Seq::empty());
    lemma_says_more(t5, l4 + v4, "}"@, Seq::empty());
}

/// A share says whether it was accepted, and both totals.
pub proof fn law_a_share_says_its_totals(
    accepted: bool,
    a: nat,
    b: nat,
)
    ensures
        ({
            let t = share_text(accepted, a, b, None, None);
            &&& says(t, "{\"event\":\"share\",\"accepted\":"@ + truth(accepted))
            &&& says(t, ",\"total_accepted\":"@ + text::dec(a))
            &&& says(t, ",\"total_rejected\":"@ + text::dec(b))
        }),
{
    let t0 = Seq::<char>::empty();
    let l0 = "{\"event\":\"share\",\"accepted\":"@;
    let v0 = truth(accepted);
    let t1 = l0 + v0;
    assert(t0 + l0 + v0 =~= t1);
    lemma_says_last(t0, l0, v0);
    let l1 = ",\"total_accepted\":"@;
    let v1 = text::dec(a);
    let t2 = t1 + l1 + v1;
    lemma_says_last(t1, l1, v1);
    lemma_says_more(t1, l0 + v0, l1, v1);
    let l2 = ",\"total_rejected\":"@;
    let v2 = text::dec(b);
    let t3 = t2 + l2 + v2;
    lemma_says_last(t2, l2, v2);
    lemma_says_more(t2, l0 + v0, l2, v2);
    lemma_says_more(t2, l1 + v1, l2, v2);
    reveal_strlit("");
    assert(t3 + ""@ + ""@ =~= t3);
    lemma_says_more(t3, l0 + v0, "}"@, Seq::empty());
    lemma_says_more(t3, l1 + v1, "}"@, Seq::empty());
    lemma_says_more(t3, l2 + v2, "}"@, Seq::empty());
}

/// A block says its height and its hash.
pub proof fn law_a_block_says_its_figures(
    height: nat,
    hash: Seq<char>,
)
    ensures
        ({
            let t = block_text(height, hash);
            &&& says(t, "{\"event\":\"block\",\"height\":"@ + text::dec(height))
            &&& says(t, ",\"hash\":"@ + quoted(hash))
        }),
{
    let t0 = Seq::<char>::empty();
    let l0 = "{\"event\":\"block\",\"height\":"@;
    let v0 = text::dec(height);
    let t1 = l0 + v0;
    assert(t0 + l0 + v0 =~= t1);
    lemma_says_last(t0, l0, v0);
    let l1 = ",\"hash\":"@;
    let v1 = quoted(hash);
    let t2 = t1 + l1 + v1;
    lemma_says_last(t1, l1, v1);
    lemma_says_more(t1, l0 + v0, l1, v1);
    lemma_says_more(t2, l0 + v0, "}"@, Seq::empty());
    lemma_says_more(t2, l1 + v1, "}"@, Seq::empty());
}

} // verus!
