//! The configuration file of the miner: one JSON object of settings.

use vstd::prelude::*;
use crate::miner::argv::Value;
use crate::miner::json;
use crate::miner::json::{is_at, read_array, read_item, read_string, skip_ws, Arg, Owned};

verus! {

/// The mathematical value of a `Value`.
pub enum Setting {
    Num(u64),
    Bool(bool),
    Str(Seq<char>),
    List(Seq<u64>),
}

pub open spec fn setting_of(v: Value) -> Setting {
    match v {
        Value::Num(n) => Setting::Num(n),
        Value::Bool(b) => Setting::Bool(b),
        Value::Str(s) => Setting::Str(s@),
        Value::List(l) => Setting::List(l@),
    }
}

/// Settings with their names, in the order of the file.
pub open spec fn named(v: Seq<(String, Value)>) -> Seq<(Seq<char>, Setting)> {
    Seq::new(v.len(), |i: int| (v[i].0@, setting_of(v[i].1)))
}

/// The numbers of a list that holds nothing else.
pub open spec fn numbers(a: Seq<Arg>) -> Option<Seq<u64>>
    decreases a.len(),
{
    if a.len() == 0 {
        Some(Seq::empty())
    } else {
        match (numbers(a.drop_last()), a.last()) {
            (Some(s), Arg::Num(n)) => Some(s.push(n)),
            _ => None,
        }
    }
}

/// The value of a setting at `i`, and where it ends: a number, a string, a
/// boolean or a list of numbers.
pub open spec fn setting(b: Seq<u8>, i: int) -> Option<(Setting, int)> {
    if json::at(b, i, 91) {
        match json::array(b, i) {
            Some((a, j)) => match numbers(a) {
                Some(l) => Some((Setting::List(l), j)),
                None => None,
            },
            None => None,
        }
    } else {
        match json::item(b, i) {
            Some((Arg::Num(n), j)) => Some((Setting::Num(n), j)),
            Some((Arg::Bool(x), j)) => Some((Setting::Bool(x), j)),
            Some((Arg::Str(s), j)) => Some((Setting::Str(s), j)),
            _ => None,
        }
    }
}

pub proof fn lemma_setting_end(b: Seq<u8>, i: int)
    ensures
        setting(b, i) matches Some((_, j)) ==> i < j <= b.len(),
{
    json::lemma_array_end(b, i);
    json::lemma_item_end(b, i);
}

/// The settings from a key on, up to the brace and the end of the file.
pub open spec fn settings_from(b: Seq<u8>, i: int) -> Option<Seq<(Seq<char>, Setting)>>
    decreases b.len() - i,
{
    match json::string(b, json::ws(b, i)) {
        None => None,
        Some((key, j)) => {
            let c = json::ws(b, j);
            if !json::at(b, c, 58) {
                None
            } else {
                match setting(b, json::ws(b, c + 1)) {
                    None => None,
                    Some((v, k)) => {
                        let e = json::ws(b, k);
                        if json::at(b, e, 44) {
                            proof {
                                json::lemma_ws_end(b, i);
                                json::lemma_string_end(b, json::ws(b, i));
                                json::lemma_ws_end(b, j);
                                json::lemma_ws_end(b, c + 1);
                                lemma_setting_end(b, json::ws(b, c + 1));
                                json::lemma_ws_end(b, k);
                            }
                            match settings_from(b, e + 1) {
                                Some(rest) => Some(seq![(key, v)] + rest),
                                None => None,
                            }
                        } else if json::at(b, e, 125) && json::ws(b, e + 1) == b.len() {
                            Some(seq![(key, v)])
                        } else {
                            None
                        }
                    },
                }
            }
        },
    }
}

/// The settings that a file holds.
pub open spec fn settings(b: Seq<u8>) -> Option<Seq<(Seq<char>, Setting)>> {
    let i = json::ws(b, 0);
    if !json::at(b, i, 123) {
        None
    } else if json::at(b, json::ws(b, i + 1), 125) {
        if json::ws(b, json::ws(b, i + 1) + 1) == b.len() {
            Some(Seq::empty())
        } else {
            None
        }
    } else {
        settings_from(b, json::ws(b, i + 1))
    }
}

fn list_of(a: &Vec<Owned>) -> (r: Option<Vec<u64>>)
    ensures
        r is Some <==> numbers(json::args_view(a@)) is Some,
        r matches Some(l) ==> numbers(json::args_view(a@)) == Some(l@),
{
    let ghost all = json::args_view(a@);
    let mut l: Vec<u64> = Vec::new();
    let mut i: usize = 0;
    assert(all.take(0) =~= Seq::<Arg>::empty());
    while i < a.len()
        invariant
            i <= a@.len(),
            all == json::args_view(a@),
            numbers(all.take(i as int)) == Some(l@),
        decreases a@.len() - i,
    {
        assert(all.take(i + 1).drop_last() =~= all.take(i as int));
        assert(all.take(i + 1).last() == a@[i as int]@);
        match &a[i] {
            Owned::Num(n) => {
                l.push(*n);
            },
            _ => {
                proof {
                    lemma_numbers_prefix(all, i + 1);
                }
                return None;
            },
        }
        i += 1;
    }
    assert(all.take(i as int) =~= all);
    Some(l)
}

proof fn lemma_numbers_prefix(a: Seq<Arg>, k: int)
    requires
        0 <= k <= a.len(),
        numbers(a.take(k)) is None,
    ensures
        numbers(a) is None,
    decreases a.len(),
{
    if k == a.len() {
        assert(a.take(k) =~= a);
    } else {
        assert(a.drop_last().take(k) =~= a.take(k));
        lemma_numbers_prefix(a.drop_last(), k);
    }
}

fn read_setting(b: &[u8], i: usize) -> (r: Option<(Value, usize)>)
    requires
        i <= b.len(),
    ensures
        r is Some <==> setting(b@, i as int) is Some,
        r matches Some((v, j)) ==> setting(b@, i as int) == Some((setting_of(v), j as int)) && i < j
            <= b.len(),
{
    proof {
        lemma_setting_end(b@, i as int);
    }
    if is_at(b, i, 91) {
        match read_array(b, i) {
            Some((a, j)) => match list_of(&a) {
                Some(l) => Some((Value::List(l), j)),
                None => None,
            },
            None => None,
        }
    } else {
        match read_item(b, i) {
            Some((Owned::Num(n), j)) => Some((Value::Num(n), j)),
            Some((Owned::Bool(x), j)) => Some((Value::Bool(x), j)),
            Some((Owned::Str(s), j)) => Some((Value::Str(s), j)),
            _ => None,
        }
    }
}

/// What `settings_from` gives at `i`, with `front` put before it.
spec fn settings_after(front: Seq<(Seq<char>, Setting)>, b: Seq<u8>, i: int) -> Option<
    Seq<(Seq<char>, Setting)>,
> {
    match settings_from(b, i) {
        Some(s) => Some(front + s),
        None => None,
    }
}

pub const NOT_SETTINGS: &'static str =
    "not one JSON object of settings: each value is a number, a string, a boolean or an array of numbers";

fn read_settings(b: &[u8]) -> (r: Option<Vec<(String, Value)>>)
    ensures
        r is Some <==> settings(b@) is Some,
        r matches Some(v) ==> settings(b@) == Some(named(v@)),
{
    let start: usize = skip_ws(b, 0);
    if !is_at(b, start, 123) {
        return None;
    }
    let mut out: Vec<(String, Value)> = Vec::new();
    assert(named(out@) =~= Seq::empty());
    let mut i: usize = skip_ws(b, start + 1);
    if is_at(b, i, 125) {
        if skip_ws(b, i + 1) == b.len() {
            return Some(out);
        }
        return None;
    }
    proof {
        match settings_from(b@, i as int) {
            Some(s) => {
                assert(named(out@) + s =~= s);
            },
            None => {},
        }
    }
    loop
        invariant
            i <= b.len(),
            settings(b@) == settings_after(named(out@), b@, i as int),
        decreases b.len() - i,
    {
        let ghost front = named(out@);
        let k: usize = skip_ws(b, i);
        match read_string(b, k) {
            None => {
                return None;
            },
            Some((key, j)) => {
                let c: usize = skip_ws(b, j);
                if !is_at(b, c, 58) {
                    return None;
                }
                let v: usize = skip_ws(b, c + 1);
                match read_setting(b, v) {
                    None => {
                        return None;
                    },
                    Some((value, e)) => {
                        let f: usize = skip_ws(b, e);
                        let ghost one = (key@, setting_of(value));
                        out.push((key, value));
                        assert(named(out@) =~= front.push(one));
                        if is_at(b, f, 44) {
                            proof {
                                match settings_from(b@, f + 1) {
                                    Some(rest) => {
                                        assert(front + (seq![one] + rest) =~= front.push(one)
                                            + rest);
                                    },
                                    None => {},
                                }
                            }
                            i = f + 1;
                        } else if is_at(b, f, 125) && skip_ws(b, f + 1) == b.len() {
                            assert(front + seq![one] =~= front.push(one));
                            return Some(out);
                        } else {
                            return None;
                        }
                    },
                }
            },
        }
    }
}

/// The settings that the text of a file holds.
pub fn parse(text: &str) -> (r: Result<Vec<(String, Value)>, String>)
    ensures
        r is Ok <==> settings(vstd::utf8::encode_utf8(text@)) is Some,
        r matches Ok(v) ==> settings(vstd::utf8::encode_utf8(text@)) == Some(named(v@)),
        r matches Err(e) ==> e@ == NOT_SETTINGS@,
{
    match read_settings(text.as_bytes()) {
        Some(v) => Ok(v),
        None => Err(NOT_SETTINGS.to_owned()),
    }
}

// ---------------------------------------------------------------------------
// What is written is read

/// Whether `t` is how a setting is written.
pub open spec fn is_written(s: Setting, t: Seq<u8>) -> bool {
    match s {
        Setting::Num(n) => json::is_written(Arg::Num(n), t),
        Setting::Bool(b) => json::is_written(Arg::Bool(b), t),
        Setting::Str(x) => json::is_written(Arg::Str(x), t),
        Setting::List(l) => exists|ts: Seq<Seq<u8>>|
            #![trigger json::with_commas(ts)]
            t == seq![91u8] + json::with_commas(ts) + seq![93u8] && json::are_written(
                Seq::new(l.len(), |k: int| Arg::Num(l[k])),
                ts,
            ),
    }
}

proof fn lemma_all_numbers(l: Seq<u64>)
    ensures
        numbers(Seq::new(l.len(), |k: int| Arg::Num(l[k]))) == Some(l),
    decreases l.len(),
{
    let a = Seq::new(l.len(), |k: int| Arg::Num(l[k]));
    if l.len() > 0 {
        let m = l.drop_last();
        lemma_all_numbers(m);
        assert(a.drop_last() =~= Seq::new(m.len(), |k: int| Arg::Num(m[k])));
        assert(m.push(l.last()) =~= l);
    } else {
        assert(l =~= Seq::empty());
    }
}

/// A list that holds anything but numbers is no setting.
pub proof fn law_a_list_holds_numbers(a: Seq<Arg>, x: Arg)
    ensures
        x matches Arg::Num(n) ==> (numbers(a) matches Some(l) ==> numbers(a.push(x)) == Some(
            l.push(n),
        )),
        !(x is Num) ==> numbers(a.push(x)) is None,
        numbers(a) is None ==> numbers(a.push(x)) is None,
{
    assert(a.push(x).drop_last() =~= a);
}

/// A value is read as the setting that was written.
pub proof fn law_a_value_is_read(b: Seq<u8>, i: int, s: Setting, t: Seq<u8>)
    requires
        json::begins(b, i, t),
        is_written(s, t),
        i + t.len() < b.len() ==> !json::is_digit(b[i + t.len()]),
    ensures
        setting(b, i) == Some((s, i + t.len())),
        t.len() > 0,
        !json::is_ws(b[i]),
{
    match s {
        Setting::Num(n) => {
            json::law_an_element_is_read(b, i, Arg::Num(n), t);
            json::lemma_begins(b, i, t, 0);
            assert(json::is_digit(t[0]));
        },
        Setting::Bool(x) => {
            json::law_an_element_is_read(b, i, Arg::Bool(x), t);
            json::lemma_begins(b, i, t, 0);
        },
        Setting::Str(x) => {
            json::law_an_element_is_read(b, i, Arg::Str(x), t);
            json::lemma_begins(b, i, t, 0);
            assert(t[0] == json::quoted(t.subrange(1, t.len() - 1))[0]);
        },
        Setting::List(l) => {
            let args = Seq::new(l.len(), |k: int| Arg::Num(l[k]));
            let ts = choose|ts: Seq<Seq<u8>>|
                #![trigger json::with_commas(ts)]
                t == seq![91u8] + json::with_commas(ts) + seq![93u8] && json::are_written(args, ts);
            json::law_an_array_is_read(b, i, args, ts);
            json::lemma_begins(b, i, t, 0);
            lemma_all_numbers(l);
        },
    }
}

/// A setting with others behind it is read as its name and its value, and then
/// the others; the last one ends the file with its brace.
pub proof fn law_settings_are_read_in_their_order(
    b: Seq<u8>,
    i: int,
    key: Seq<u8>,
    s: Setting,
    t: Seq<u8>,
    end: u8,
)
    requires
        end == 44 || end == 125,
        json::begins(b, i, json::member(key, t, end)),
        json::is_unescaped(key),
        is_written(s, t),
    ensures
        end == 44 ==> settings_from(b, i) == (match settings_from(
            b,
            i + key.len() + t.len() + 4,
        ) {
            Some(rest) => Some(seq![(json::chars(key), s)] + rest),
            None => None,
        }),
        end == 125 && b.len() == i + key.len() + t.len() + 4 ==> settings_from(b, i) == Some(
            seq![(json::chars(key), s)],
        ),
{
    json::lemma_member_stands(b, i, key, t, end);
    let p = i + key.len() + 3;
    law_a_value_is_read(b, p, s, t);
    json::lemma_begins(b, p, t, 0);
}

} // verus!
