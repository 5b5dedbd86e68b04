//! The pool URL: `[stratum+tcp://]address[.rig][@host[:port]][/]`.

use vstd::prelude::*;
use crate::text;
use crate::text::{
    count_char, debug_text, find, find_str, is_text, number_of, part, rfind, string_of, to_chars,
    to_lower, trim,
};

verus! {

pub const DEFAULT_PORT: u16 = 9258;

pub const DEFAULT_HOST: &'static str = "127.0.0.1";

/// Where to connect, and as whom.
#[derive(Debug, Clone, PartialEq, Eq)]
pub struct PoolUrl {
    pub stratum: String,
    pub login: String,
}

/// The parts of a pool URL, or what is wrong with it.
pub type Parts = Result<(Seq<char>, Seq<char>), Seq<char>>;

/// Whether a scheme is one that this client speaks.
pub open spec fn is_plain_scheme(sc: Seq<char>) -> bool {
    sc == "stratum+tcp"@ || sc == "stratum"@ || sc == "tcp"@
}

/// Whether a scheme asks for encryption.
pub open spec fn is_secret_scheme(sc: Seq<char>) -> bool {
    sc == "stratum+ssl"@ || sc == "stratum+tls"@ || sc == "stratums"@ || sc == "ssl"@ || sc
        == "tls"@
}

/// What stands behind the scheme.
pub open spec fn behind_scheme(s: Seq<char>) -> Result<Seq<char>, Seq<char>> {
    let i = text::index_of(s, "://"@, 0);
    let sc = text::lower(s.take(i));
    if i >= s.len() {
        Ok(s)
    } else if is_plain_scheme(sc) {
        Ok(s.skip(i + 3))
    } else if is_secret_scheme(sc) {
        Err(sc + ":// asks for an encrypted connection; this client speaks plaintext TCP only"@)
    } else {
        Err("unknown URL scheme "@ + text::debug_of(sc))
    }
}

/// What stands before the path, which has to be empty.
pub open spec fn before_path(s: Seq<char>) -> Result<Seq<char>, Seq<char>> {
    if !text::has(s, '/') {
        Ok(s)
    } else if text::behind(s, '/').len() == 0 {
        Ok(text::before(s, '/'))
    } else {
        Err("a stratum URL has no path, found "@ + text::debug_of(text::behind(s, '/')))
    }
}

/// Whether a text is a port: a number from 1 to 65535.
pub open spec fn is_port(p: Seq<char>) -> bool {
    text::number_in(p, 10, 65535) matches Some(n) && n > 0
}

/// `h` if `p` is a port.
pub open spec fn with_port(h: Seq<char>, p: Seq<char>) -> Result<Seq<char>, Seq<char>> {
    if is_port(p) {
        Ok(h)
    } else {
        Err(text::debug_of(p) + " is not a port number"@)
    }
}

/// The host and port of what stands behind the `@`, with what is missing
/// filled in. An IPv6 address needs brackets.
pub open spec fn host_of(h: Seq<char>) -> Result<Seq<char>, Seq<char>> {
    if h.len() == 0 {
        Ok("127.0.0.1:9258"@)
    } else if h[0] == '[' && text::has(h, ']') {
        let after = text::behind(h, ']');
        if after.len() == 0 {
            Ok(h + ":9258"@)
        } else if after[0] == ':' {
            with_port(h, after.skip(1))
        } else {
            Err("expected ':port' after ']', found "@ + text::debug_of(after))
        }
    } else if text::occurs(h, ':') > 1 {
        Err(
            text::debug_of(h) + " looks like a bare IPv6 address; write it as ["@ + h
                + "]:9258"@,
        )
    } else if text::has(h, ':') {
        if text::before(h, ':').len() == 0 {
            Err("no host before ':'"@)
        } else {
            with_port(h, text::behind(h, ':'))
        }
    } else {
        Ok(h + ":9258"@)
    }
}

/// The login: what stands before the last `@`, or all of it.
pub open spec fn login_of(s: Seq<char>) -> Seq<char> {
    let k = text::last_index(s, '@');
    if k < 0 {
        s
    } else {
        s.take(k)
    }
}

/// What stands behind the last `@`.
pub open spec fn hostpart_of(s: Seq<char>) -> Seq<char> {
    let k = text::last_index(s, '@');
    if k < 0 {
        Seq::empty()
    } else {
        s.skip(k + 1)
    }
}

/// What a pool URL names: where to connect, and as whom.
pub open spec fn pool_url(arg: Seq<char>) -> Parts {
    let s = text::trimmed(arg);
    if s.len() == 0 {
        Err("empty pool URL"@)
    } else {
        match behind_scheme(s) {
            Err(e) => Err(e),
            Ok(r) => match before_path(r) {
                Err(e) => Err(e),
                Ok(t) => if login_of(t).len() == 0 {
                    Err("no address in the pool URL: solo mining pays the coinbase to it"@)
                } else {
                    match host_of(hostpart_of(t)) {
                        Err(e) => Err(e),
                        Ok(h) => Ok((h, login_of(t))),
                    }
                },
            },
        }
    }
}

/// Refuses what is no port.
pub fn check_port(p: &str) -> (r: Result<(), String>)
    ensures
        r is Ok <==> is_port(p@),
        r matches Err(e) ==> e@ == text::debug_of(p@) + " is not a port number"@,
{
    let v = to_chars(p);
    match number_of(&v, 10, 65535) {
        Some(n) => if n > 0 {
            return Ok(());
        },
        None => {},
    }
    let mut e = debug_text(p);
    e.append(" is not a port number");
    Err(e)
}

/// The host and port of what stands behind the `@`.
pub fn parse_host(h: &str) -> (r: Result<String, String>)
    ensures
        r matches Ok(t) ==> host_of(h@) == Ok::<Seq<char>, Seq<char>>(t@),
        r matches Err(e) ==> host_of(h@) == Err::<Seq<char>, Seq<char>>(e@),
{
    let v = to_chars(h);
    if v.len() == 0 {
        return Ok("127.0.0.1:9258".to_owned());
    }
    let close: usize = find(&v, ']', 0);
    if v[0] == '[' && close < v.len() {
        let after = part(&v, close + 1, v.len());
        assert(after@ =~= text::behind(h@, ']'));
        if after.len() == 0 {
            let mut t = h.to_owned();
            t.append(":9258");
            return Ok(t);
        }
        if after[0] == ':' {
            let p = string_of(&part(&after, 1, after.len()));
            assert(p@ =~= after@.skip(1));
            return match check_port(&p) {
                Ok(_) => Ok(h.to_owned()),
                Err(e) => Err(e),
            };
        }
        let mut e = "expected ':port' after ']', found ".to_owned();
        e.append(&debug_text(&string_of(&after)));
        return Err(e);
    }
    if count_char(&v, ':') > 1 {
        let mut e = debug_text(h);
        e.append(" looks like a bare IPv6 address; write it as [");
        e.append(h);
        e.append("]:9258");
        return Err(e);
    }
    let colon: usize = find(&v, ':', 0);
    if colon < v.len() {
        if colon == 0 {
            return Err("no host before ':'".to_owned());
        }
        let p = string_of(&part(&v, colon + 1, v.len()));
        assert(p@ =~= text::behind(h@, ':'));
        return match check_port(&p) {
            Ok(_) => Ok(h.to_owned()),
            Err(e) => Err(e),
        };
    }
    let mut t = h.to_owned();
    t.append(":9258");
    Ok(t)
}

fn strip_scheme(s: &[char]) -> (r: Result<Vec<char>, String>)
    ensures
        r matches Ok(t) ==> behind_scheme(s@) == Ok::<Seq<char>, Seq<char>>(t@),
        r matches Err(e) ==> behind_scheme(s@) == Err::<Seq<char>, Seq<char>>(e@),
{
    let i: usize = find_str(s, "://");
    if i >= s.len() {
        let t = part(s, 0, s.len());
        assert(t@ =~= s@);
        return Ok(t);
    }
    let head = part(s, 0, i);
    assert(head@ =~= s@.take(i as int));
    let sc = to_lower(&head);
    proof {
        reveal_strlit("://");
    }
    if is_text(&sc, "stratum+tcp") || is_text(&sc, "stratum") || is_text(&sc, "tcp") {
        let t = part(s, i + 3, s.len());
        assert(t@ =~= s@.skip(i + 3));
        return Ok(t);
    }
    if is_text(&sc, "stratum+ssl") || is_text(&sc, "stratum+tls") || is_text(&sc, "stratums")
        || is_text(&sc, "ssl") || is_text(&sc, "tls") {
        let mut e = string_of(&sc);
        e.append(
            ":// asks for an encrypted connection; this client speaks plaintext TCP only",
        );
        return Err(e);
    }
    let mut e = "unknown URL scheme ".to_owned();
    e.append(&debug_text(&string_of(&sc)));
    Err(e)
}

fn strip_path(s: &[char]) -> (r: Result<Vec<char>, String>)
    ensures
        r matches Ok(t) ==> before_path(s@) == Ok::<Seq<char>, Seq<char>>(t@),
        r matches Err(e) ==> before_path(s@) == Err::<Seq<char>, Seq<char>>(e@),
{
    let j: usize = find(s, '/', 0);
    if j >= s.len() {
        let t = part(s, 0, s.len());
        assert(t@ =~= s@);
        return Ok(t);
    }
    if j + 1 == s.len() {
        let t = part(s, 0, j);
        assert(t@ =~= text::before(s@, '/'));
        return Ok(t);
    }
    let tail = string_of(&part(s, j + 1, s.len()));
    assert(tail@ =~= text::behind(s@, '/'));
    let mut e = "a stratum URL has no path, found ".to_owned();
    e.append(&debug_text(&tail));
    Err(e)
}

/// What a pool URL names. Anything that is not understood is refused: a typo
/// must not be taken for a host or an address.
pub fn parse_pool_url(arg: &str) -> (r: Result<PoolUrl, String>)
    ensures
        r matches Ok(u) ==> pool_url(arg@) == Ok::<(Seq<char>, Seq<char>), Seq<char>>(
            (u.stratum@, u.login@),
        ),
        r matches Err(e) ==> pool_url(arg@) == Err::<(Seq<char>, Seq<char>), Seq<char>>(e@),
{
    let s = trim(&to_chars(arg));
    if s.len() == 0 {
        return Err("empty pool URL".to_owned());
    }
    let rest = match strip_scheme(&s) {
        Ok(t) => t,
        Err(e) => {
            return Err(e);
        },
    };
    let body = match strip_path(&rest) {
        Ok(t) => t,
        Err(e) => {
            return Err(e);
        },
    };
    let (login, host) = match rfind(&body, '@') {
        Some(k) => (part(&body, 0, k), part(&body, k + 1, body.len())),
        None => (part(&body, 0, body.len()), Vec::new()),
    };
    assert(login@ =~= login_of(body@));
    assert(host@ =~= hostpart_of(body@));
    if login.len() == 0 {
        return Err("no address in the pool URL: solo mining pays the coinbase to it".to_owned());
    }
    match parse_host(&string_of(&host)) {
        Ok(stratum) => Ok(PoolUrl { stratum, login: string_of(&login) }),
        Err(e) => Err(e),
    }
}

proof fn lemma_no_scheme(s: Seq<char>, i: int)
    requires
        0 <= i <= s.len(),
        !text::has(s, '/'),
    ensures
        text::index_of(s, "://"@, i) == s.len(),
    decreases s.len() - i,
{
    if i < s.len() {
        reveal_strlit("://");
        text::lemma_index(s, '/', 0);
        if text::stands(s, "://"@, i) {
            assert(s.subrange(i, i + 3)[1] == '/');
            assert(s[i + 1] == '/');
        }
        lemma_no_scheme(s, i + 1);
    }
}

/// An address alone is a whole pool URL: the node on this machine, and the
/// address with its rig name and suffix untouched.
pub proof fn law_an_address_is_enough(a: Seq<char>)
    requires
        a.len() > 0,
        text::trimmed(a) == a,
        !text::has(a, '/'),
        text::last_index(a, '@') < 0,
    ensures
        pool_url(a) == Ok::<(Seq<char>, Seq<char>), Seq<char>>(("127.0.0.1:9258"@, a)),
{
    lemma_no_scheme(a, 0);
}

// ---------------------------------------------------------------------------
// What the parts of a URL name

proof fn lemma_scheme_place(sc: Seq<char>, u: Seq<char>, i: int)
    requires
        0 <= i <= sc.len(),
        forall|k: int| 0 <= k < sc.len() ==> sc[k] != ':',
    ensures
        text::index_of(sc + "://"@ + u, "://"@, i) == sc.len(),
    decreases sc.len() - i,
{
    reveal_strlit("://");
    let s = sc + "://"@ + u;
    if i < sc.len() {
        if text::stands(s, "://"@, i) {
            assert(s.subrange(i, i + 3)[0] == "://"@[0]);
            assert(s[i] == sc[i]);
        }
        lemma_scheme_place(sc, u, i + 1);
    } else {
        assert(s.subrange(i, i + 3) =~= "://"@);
    }
}

/// A scheme of plain TCP says nothing more: in either case of its letters it is
/// taken off. One that asks for encryption is refused, and so is any other.
pub proof fn law_a_plain_scheme_is_taken_off(sc: Seq<char>, u: Seq<char>)
    requires
        forall|k: int| 0 <= k < sc.len() ==> sc[k] != ':',
    ensures
        text::lower(sc) == "stratum+tcp"@ || text::lower(sc) == "stratum"@ || text::lower(sc)
            == "tcp"@ ==> behind_scheme(sc + "://"@ + u) == Ok::<Seq<char>, Seq<char>>(u),
        text::lower(sc) != "stratum+tcp"@ && text::lower(sc) != "stratum"@ && text::lower(sc)
            != "tcp"@ ==> behind_scheme(sc + "://"@ + u) is Err,
{
    lemma_scheme_place(sc, u, 0);
    reveal_strlit("://");
    let s = sc + "://"@ + u;
    assert(s.take(sc.len() as int) =~= sc);
    assert(s.skip(sc.len() as int + 3) =~= u);
}

/// What stands behind the last `@` is the host and what stands before it the
/// login, whatever the login holds; without one the host is left out.
pub proof fn law_the_last_at_sign_parts_login_and_host(a: Seq<char>, h: Seq<char>)
    requires
        forall|k: int| 0 <= k < h.len() ==> h[k] != '@',
    ensures
        login_of(a + seq!['@'] + h) == a,
        hostpart_of(a + seq!['@'] + h) == h,
        login_of(h) == h,
        hostpart_of(h).len() == 0,
{
    let s = a + seq!['@'] + h;
    text::law_a_character_is_found_where_it_last_stands(s, '@');
    text::law_a_character_is_found_where_it_last_stands(h, '@');
    let k = text::last_index(s, '@');
    let n = a.len() as int;
    assert(s[n] == '@');
    if k > n {
        assert(s[k] == h[k - n - 1]);
    }
    assert(s.take(n) =~= a);
    assert(s.skip(n + 1) =~= h);
}

/// A path is refused but for an empty one, which says nothing.
pub proof fn law_a_path_is_refused(s: Seq<char>, p: Seq<char>)
    requires
        forall|k: int| 0 <= k < s.len() ==> s[k] != '/',
    ensures
        before_path(s) == Ok::<Seq<char>, Seq<char>>(s),
        p.len() == 0 ==> before_path(s + seq!['/'] + p) == Ok::<Seq<char>, Seq<char>>(s),
        p.len() > 0 ==> before_path(s + seq!['/'] + p) is Err,
{
    let t = s + seq!['/'] + p;
    text::lemma_index_behind(s, seq!['/'] + p, '/', 0);
    assert(t =~= s + (seq!['/'] + p));
    assert((seq!['/'] + p)[0] == '/');
    assert(t.take(s.len() as int) =~= s);
    assert(t.skip(s.len() as int + 1) =~= p);
    text::lemma_index(s, '/', 0);
}

proof fn lemma_colons(h: Seq<char>)
    ensures
        (forall|k: int| 0 <= k < h.len() ==> h[k] != ':') <==> text::occurs(h, ':') == 0,
    decreases h.len(),
{
    if h.len() > 0 {
        lemma_colons(h.drop_last());
        if forall|k: int| 0 <= k < h.len() ==> h[k] != ':' {
            assert forall|k: int| 0 <= k < h.drop_last().len() implies h.drop_last()[k] != ':' by {
                assert(h[k] != ':');
            }
        } else {
            let k = choose|k: int| 0 <= k < h.len() && h[k] == ':';
            if k < h.len() - 1 {
                assert(h.drop_last()[k] == ':');
            }
        }
    }
}

proof fn lemma_colons_add(a: Seq<char>, b: Seq<char>)
    ensures
        text::occurs(a + b, ':') == text::occurs(a, ':') + text::occurs(b, ':'),
    decreases b.len(),
{
    if b.len() == 0 {
        assert(a + b =~= a);
    } else {
        lemma_colons_add(a, b.drop_last());
        assert((a + b).drop_last() =~= a + b.drop_last());
    }
}

/// A host without a port is given the port 9258; one with a port keeps it, if it
/// is a number from 1 to 65535; no host at all is this machine.
pub proof fn law_a_host_keeps_its_port(h: Seq<char>, p: Seq<char>)
    requires
        h.len() > 0,
        h[0] != '[',
        forall|k: int| 0 <= k < h.len() ==> h[k] != ':',
        forall|k: int| 0 <= k < p.len() ==> p[k] != ':',
    ensures
        host_of(Seq::empty()) == Ok::<Seq<char>, Seq<char>>("127.0.0.1:9258"@),
        host_of(h) == Ok::<Seq<char>, Seq<char>>(h + ":9258"@),
        text::number_in(p, 10, 65535) matches Some(n) && n > 0 ==> host_of(h + seq![':'] + p)
            == Ok::<Seq<char>, Seq<char>>(h + seq![':'] + p),
        !(text::number_in(p, 10, 65535) matches Some(n) && n > 0) ==> host_of(
            h + seq![':'] + p,
        ) is Err,
        host_of(seq![':'] + p) is Err,
{
    let s = h + seq![':'] + p;
    lemma_colons(h);
    lemma_colons(p);
    lemma_colons_add(h + seq![':'], p);
    lemma_colons_add(h, seq![':']);
    assert(seq![':'].drop_last() =~= Seq::<char>::empty());
    assert(text::occurs(seq![':'], ':') == 1) by {
        reveal_with_fuel(text::occurs, 2);
    }
    text::lemma_index(h, ':', 0);
    assert(s =~= h + (seq![':'] + p));
    text::lemma_index_behind(h, seq![':'] + p, ':', 0);
    assert((seq![':'] + p)[0] == ':');
    assert(s.take(h.len() as int) =~= h);
    assert(s.skip(h.len() as int + 1) =~= p);
    assert(s[0] == h[0]);
    let e = seq![':'] + p;
    lemma_colons_add(seq![':'], p);
    assert(e[0] == ':');
    assert(e.take(0).len() == 0);
}

/// An address of version six stands in brackets, with a port behind them or not;
/// bare it is refused.
pub proof fn law_a_bracketed_host_keeps_its_port(h: Seq<char>, p: Seq<char>)
    requires
        forall|k: int| 0 <= k < h.len() ==> h[k] != ']',
    ensures
        host_of(seq!['['] + h + seq![']']) == Ok::<Seq<char>, Seq<char>>(
            seq!['['] + h + seq![']'] + ":9258"@,
        ),
        text::number_in(p, 10, 65535) matches Some(n) && n > 0 ==> host_of(
            seq!['['] + h + seq![']'] + (seq![':'] + p),
        ) == Ok::<Seq<char>, Seq<char>>(seq!['['] + h + seq![']'] + (seq![':'] + p)),
        h.len() > 0 && h[0] != '[' && text::occurs(h, ':') > 1 ==> host_of(h) is Err,
{
    let front = seq!['['] + h;
    assert forall|k: int| 0 <= k < front.len() implies front[k] != ']' by {
        if k > 0 {
            assert(front[k] == h[k - 1]);
        }
    }
    let a = front + seq![']'];
    text::lemma_index_behind(front, seq![']'], ']', 0);
    assert(seq![']'][0] == ']');
    assert(a.skip(front.len() as int + 1).len() == 0);
    let b = seq!['['] + h + seq![']'] + (seq![':'] + p);
    assert(b =~= front + (seq![']'] + (seq![':'] + p)));
    text::lemma_index_behind(front, seq![']'] + (seq![':'] + p), ']', 0);
    assert((seq![']'] + (seq![':'] + p))[0] == ']');
    assert(b.skip(front.len() as int + 1) =~= seq![':'] + p);
    assert((seq![':'] + p).skip(1) =~= p);
    assert(a[0] == '[' && b[0] == '[');
}

/// A URL names the login and the host that it is made of.
pub proof fn law_a_url_names_its_login_and_host(a: Seq<char>, h: Seq<char>)
    requires
        a.len() > 0,
        h.len() > 0,
        !text::is_white(a[0]),
        !text::is_white(h.last()),
        forall|k: int| 0 <= k < a.len() ==> a[k] != '/',
        forall|k: int| 0 <= k < h.len() ==> h[k] != '/' && h[k] != '@',
    ensures
        pool_url(a + seq!['@'] + h) == (match host_of(h) {
            Ok(t) => Ok::<(Seq<char>, Seq<char>), Seq<char>>((t, a)),
            Err(e) => Err(e),
        }),
{
    let s = a + seq!['@'] + h;
    assert(s[0] == a[0]);
    assert(s.last() == h.last());
    text::lemma_trimmed(s);
    assert forall|k: int| 0 <= k < s.len() implies s[k] != '/' by {
        if k > a.len() {
            assert(s[k] == h[k - a.len() - 1]);
        }
    }
    text::lemma_index(s, '/', 0);
    lemma_no_scheme(s, 0);
    law_a_path_is_refused(s, Seq::empty());
    law_the_last_at_sign_parts_login_and_host(a, h);
}

/// Without an address there is nobody to mine for.
pub proof fn law_a_url_needs_an_address(h: Seq<char>)
    requires
        forall|k: int| 0 <= k < h.len() ==> h[k] != '/' && h[k] != '@' && !text::is_white(h[k]),
    ensures
        pool_url(seq!['@'] + h) is Err,
        pool_url(Seq::empty()) is Err,
{
    let s = seq!['@'] + h;
    assert(s[0] == '@');
    if h.len() > 0 {
        assert(s.last() == h[h.len() - 1]);
    }
    text::lemma_trimmed(s);
    assert forall|k: int| 0 <= k < s.len() implies s[k] != '/' by {
        if k > 0 {
            assert(s[k] == h[k - 1]);
        }
    }
    text::lemma_index(s, '/', 0);
    lemma_no_scheme(s, 0);
    law_a_path_is_refused(s, Seq::empty());
    assert(s =~= Seq::empty() + seq!['@'] + h);
    law_the_last_at_sign_parts_login_and_host(Seq::empty(), h);
    let r = text::law_trim_cuts_only_white_ends(Seq::empty());
}

} // verus!
