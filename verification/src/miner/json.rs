//! The line protocol of a stratum server: framing, the JSON subset that the
//! messages are written in, and hexadecimal.

use vstd::prelude::*;
use crate::text;
use crate::text::same;

verus! {

// ---------------------------------------------------------------------------
// Messages

/// A JSON value as a reader of a line meets it.
#[derive(Debug, Clone, Copy, PartialEq, Eq)]
pub enum Val<'a> {
    Str(&'a str),
    Num(u64),
    Bool(bool),
    Null,
    Array,
}

/// One element of `params` or `result`. `Other` stands for `null` and for a
/// nested array or object, whose content is not kept.
#[derive(Debug, Clone, PartialEq, Eq)]
pub enum Owned {
    Str(String),
    Num(u64),
    Bool(bool),
    Other,
}

/// The mathematical value of an `Owned`.
pub enum Arg {
    Str(Seq<char>),
    Num(u64),
    Bool(bool),
    Other,
}

impl View for Owned {
    type V = Arg;

    open spec fn view(&self) -> Arg {
        match *self {
            Owned::Str(s) => Arg::Str(s@),
            Owned::Num(n) => Arg::Num(n),
            Owned::Bool(b) => Arg::Bool(b),
            Owned::Other => Arg::Other,
        }
    }
}

/// The values of a sequence of `Owned`.
pub open spec fn args_view(s: Seq<Owned>) -> Seq<Arg> {
    Seq::new(s.len(), |k: int| s[k]@)
}

/// The value of an optional string.
pub open spec fn opt_view(s: Option<String>) -> Option<Seq<char>> {
    match s {
        Some(t) => Some(t@),
        None => None,
    }
}

/// A message of the server: a notification or a reply.
#[derive(Debug)]
pub struct Msg {
    pub id: Option<u64>,
    pub method: Option<String>,
    pub args: Vec<Owned>,
    pub is_error: bool,
    pub error_code: Option<u64>,
    pub error_msg: Option<String>,
    pub result_true: bool,
    /// `"result"` was an object, such as `{"status":"OK"}`. A server may spell
    /// an accepted share as `true`, as an object, or just as `error: null`.
    pub result_object: bool,
    /// `"result"` was `false`: a refusal with no error attached.
    pub result_false: bool,
}

/// The mathematical value of a `Msg`.
#[verifier::ext_equal]
pub struct MsgView {
    pub id: Option<u64>,
    pub method: Option<Seq<char>>,
    pub args: Seq<Arg>,
    pub is_error: bool,
    pub error_code: Option<u64>,
    pub error_msg: Option<Seq<char>>,
    pub result_true: bool,
    pub result_object: bool,
    pub result_false: bool,
}

impl View for Msg {
    type V = MsgView;

    open spec fn view(&self) -> MsgView {
        MsgView {
            id: self.id,
            method: opt_view(self.method),
            args: args_view(self.args@),
            is_error: self.is_error,
            error_code: self.error_code,
            error_msg: opt_view(self.error_msg),
            result_true: self.result_true,
            result_object: self.result_object,
            result_false: self.result_false,
        }
    }
}

/// A message in which nothing is set.
pub open spec fn no_msg() -> MsgView {
    MsgView {
        id: None,
        method: None,
        args: Seq::empty(),
        is_error: false,
        error_code: None,
        error_msg: None,
        result_true: false,
        result_object: false,
        result_false: false,
    }
}

impl Default for Msg {
    fn default() -> (m: Msg)
        ensures
            m@ == no_msg(),
    {
        let m = Msg {
            id: None,
            method: None,
            args: Vec::new(),
            is_error: false,
            error_code: None,
            error_msg: None,
            result_true: false,
            result_object: false,
            result_false: false,
        };
        assert(m@ =~= no_msg());
        m
    }
}

impl Msg {
    /// The string at position `i` of the arguments, if a string stands there.
    pub fn str_at(&self, i: usize) -> (r: Option<&str>)
        ensures
            r is Some <==> i < self@.args.len() && self@.args[i as int] is Str,
            r matches Some(s) ==> self@.args[i as int] == Arg::Str(s@),
    {
        if i < self.args.len() {
            match &self.args[i] {
                Owned::Str(s) => Some(s.as_str()),
                _ => None,
            }
        } else {
            None
        }
    }

    /// The number at position `i` of the arguments, if a number stands there.
    pub fn num_at(&self, i: usize) -> (r: Option<u64>)
        ensures
            r is Some <==> i < self@.args.len() && self@.args[i as int] is Num,
            r matches Some(n) ==> self@.args[i as int] == Arg::Num(n),
    {
        if i < self.args.len() {
            match &self.args[i] {
                Owned::Num(n) => Some(*n),
                _ => None,
            }
        } else {
            None
        }
    }

    /// The truth value at position `i` of the arguments, if one stands there.
    pub fn bool_at(&self, i: usize) -> (r: Option<bool>)
        ensures
            r is Some <==> i < self@.args.len() && self@.args[i as int] is Bool,
            r matches Some(b) ==> self@.args[i as int] == Arg::Bool(b),
    {
        if i < self.args.len() {
            match &self.args[i] {
                Owned::Bool(b) => Some(*b),
                _ => None,
            }
        } else {
            None
        }
    }
}

// ---------------------------------------------------------------------------
// The grammar. A position is an index into the bytes of the line; a reader
// gives back what it read and the position behind it, or `None`.

pub open spec fn is_ws(c: u8) -> bool {
    c == 32 || c == 9 || c == 13 || c == 10
}

/// The first position at or behind `i` that holds no white space.
pub open spec fn ws(b: Seq<u8>, i: int) -> int
    decreases b.len() - i,
{
    if 0 <= i < b.len() && is_ws(b[i]) {
        ws(b, i + 1)
    } else {
        i
    }
}

/// Whether `c` stands at position `i`.
pub open spec fn at(b: Seq<u8>, i: int, c: u8) -> bool {
    0 <= i < b.len() && b[i] == c
}

/// Whether the bytes at position `i` begin with `word`.
pub open spec fn begins(b: Seq<u8>, i: int, word: Seq<u8>) -> bool {
    0 <= i && i + word.len() <= b.len() && b.subrange(i, i + word.len()) == word
}

pub open spec fn is_digit(c: u8) -> bool {
    48 <= c <= 57
}

/// The first position at or behind `i` that holds no decimal digit.
pub open spec fn digits_end(b: Seq<u8>, i: int) -> int
    decreases b.len() - i,
{
    if 0 <= i < b.len() && is_digit(b[i]) {
        digits_end(b, i + 1)
    } else {
        i
    }
}

/// The number that decimal digits denote.
pub open spec fn digits_value(d: Seq<u8>) -> nat
    decreases d.len(),
{
    if d.len() == 0 {
        0
    } else {
        digits_value(d.drop_last()) * 10 + (d.last() - 48) as nat
    }
}

/// A number: all the digits at `i`, at least one, with a value below 2^64.
pub open spec fn number(b: Seq<u8>, i: int) -> Option<(u64, int)> {
    let e = digits_end(b, i);
    let v = digits_value(b.subrange(i, e));
    if e <= i || v > u64::MAX {
        None
    } else {
        Some((v as u64, e))
    }
}

/// The character that an escape letter stands for, but for `u`.
pub open spec fn escape(e: u8) -> Option<char> {
    if e == 34 {
        Some('"')
    } else if e == 92 {
        Some('\\')
    } else if e == 47 {
        Some('/')
    } else if e == 110 {
        Some('\n')
    } else if e == 116 {
        Some('\t')
    } else if e == 114 {
        Some('\r')
    } else if e == 98 {
        Some('\u{8}')
    } else if e == 102 {
        Some('\u{c}')
    } else {
        None
    }
}

/// The rest of a string behind its opening quote. `\uXXXX` reads as U+FFFD
/// whatever the four bytes are; any other byte reads as the character of its
/// number.
pub open spec fn string_body(b: Seq<u8>, i: int) -> Option<(Seq<char>, int)>
    decreases (if i < b.len() { b.len() - i } else { 0 }),
{
    if i < 0 || i >= b.len() {
        None
    } else if b[i] == 34 {
        Some((Seq::empty(), i + 1))
    } else if b[i] == 92 {
        if i + 1 >= b.len() {
            None
        } else if b[i + 1] == 117 {
            match string_body(b, i + 6) {
                Some((s, j)) => Some((seq!['\u{fffd}'] + s, j)),
                None => None,
            }
        } else {
            match escape(b[i + 1]) {
                Some(c) => match string_body(b, i + 2) {
                    Some((s, j)) => Some((seq![c] + s, j)),
                    None => None,
                },
                None => None,
            }
        }
    } else {
        match string_body(b, i + 1) {
            Some((s, j)) => Some((seq![b[i] as char] + s, j)),
            None => None,
        }
    }
}

/// A string, from its opening quote on.
pub open spec fn string(b: Seq<u8>, i: int) -> Option<(Seq<char>, int)> {
    if at(b, i, 34) {
        string_body(b, i + 1)
    } else {
        None
    }
}

pub open spec fn word_true() -> Seq<u8> {
    seq![116u8, 114u8, 117u8, 101u8]
}

pub open spec fn word_false() -> Seq<u8> {
    seq![102u8, 97u8, 108u8, 115u8, 101u8]
}

pub open spec fn word_null() -> Seq<u8> {
    seq![110u8, 117u8, 108u8, 108u8]
}

/// The position behind the bracket that closes the outermost of `depth` open
/// ones. Only the pair `open`, `close` is counted; strings are passed over.
pub open spec fn nest_end(b: Seq<u8>, i: int, open: u8, close: u8, depth: int) -> Option<int>
    decreases b.len() - i,
{
    if i < 0 || i >= b.len() {
        None
    } else if b[i] == 34 {
        match string(b, i) {
            Some((_, j)) => {
                proof {
                    lemma_string_end(b, i);
                }
                nest_end(b, j, open, close, depth)
            },
            None => None,
        }
    } else if b[i] == open {
        nest_end(b, i + 1, open, close, depth + 1)
    } else if b[i] == close {
        if depth == 1 {
            Some(i + 1)
        } else {
            nest_end(b, i + 1, open, close, depth - 1)
        }
    } else {
        nest_end(b, i + 1, open, close, depth)
    }
}

/// The position behind `word`, if it stands at `i`.
pub open spec fn behind(b: Seq<u8>, i: int, word: Seq<u8>) -> Option<int> {
    if begins(b, i, word) {
        Some(i + word.len())
    } else {
        None
    }
}

/// The position behind the value that follows white space at `i`.
pub open spec fn value_end(b: Seq<u8>, i: int) -> Option<int> {
    let i = ws(b, i);
    if i < 0 || i >= b.len() {
        None
    } else if b[i] == 34 {
        match string(b, i) {
            Some((_, j)) => Some(j),
            None => None,
        }
    } else if b[i] == 91 {
        nest_end(b, i, 91, 93, 0)
    } else if b[i] == 123 {
        nest_end(b, i, 123, 125, 0)
    } else if b[i] == 116 {
        behind(b, i, word_true())
    } else if b[i] == 102 {
        behind(b, i, word_false())
    } else if b[i] == 110 {
        behind(b, i, word_null())
    } else {
        match number(b, i) {
            Some((_, j)) => Some(j),
            None => None,
        }
    }
}

/// One element of an array.
pub open spec fn item(b: Seq<u8>, i: int) -> Option<(Arg, int)> {
    if i < 0 || i >= b.len() {
        None
    } else if b[i] == 34 {
        match string(b, i) {
            Some((s, j)) => Some((Arg::Str(s), j)),
            None => None,
        }
    } else if b[i] == 116 {
        match behind(b, i, word_true()) {
            Some(j) => Some((Arg::Bool(true), j)),
            None => None,
        }
    } else if b[i] == 102 {
        match behind(b, i, word_false()) {
            Some(j) => Some((Arg::Bool(false), j)),
            None => None,
        }
    } else if b[i] == 110 || b[i] == 91 || b[i] == 123 {
        match value_end(b, i) {
            Some(j) => Some((Arg::Other, j)),
            None => None,
        }
    } else {
        match number(b, i) {
            Some((n, j)) => Some((Arg::Num(n), j)),
            None => None,
        }
    }
}

/// The elements of an array from its first one on, up to its bracket.
pub open spec fn items(b: Seq<u8>, i: int) -> Option<(Seq<Arg>, int)>
    decreases b.len() - i,
{
    match item(b, ws(b, i)) {
        None => None,
        Some((a, j)) => {
            let k = ws(b, j);
            if at(b, k, 44) {
                proof {
                    lemma_item_end(b, ws(b, i));
                    lemma_ws_end(b, i);
                    lemma_ws_end(b, j);
                }
                match items(b, k + 1) {
                    Some((rest, e)) => Some((seq![a] + rest, e)),
                    None => None,
                }
            } else if at(b, k, 93) {
                Some((seq![a], k + 1))
            } else {
                None
            }
        },
    }
}

/// An array, from its opening bracket on.
pub open spec fn array(b: Seq<u8>, i: int) -> Option<(Seq<Arg>, int)> {
    if !at(b, i, 91) {
        None
    } else if at(b, ws(b, i + 1), 93) {
        Some((Seq::empty(), ws(b, i + 1) + 1))
    } else {
        items(b, ws(b, i + 1))
    }
}

/// What the value of `id` at `i` does to a message.
pub open spec fn take_id(b: Seq<u8>, i: int, m: MsgView) -> Option<(MsgView, int)> {
    if at(b, i, 110) {
        match behind(b, i, word_null()) {
            Some(j) => Some((m, j)),
            None => None,
        }
    } else {
        match number(b, i) {
            Some((n, j)) => Some((MsgView { id: Some(n), ..m }, j)),
            None => None,
        }
    }
}

/// What the value of `method` at `i` does to a message.
pub open spec fn take_method(b: Seq<u8>, i: int, m: MsgView) -> Option<(MsgView, int)> {
    match string(b, i) {
        Some((s, j)) => Some((MsgView { method: Some(s), ..m }, j)),
        None => None,
    }
}

/// What the value of `params` or `result` at `i` does to a message.
pub open spec fn take_result(b: Seq<u8>, i: int, m: MsgView) -> Option<(MsgView, int)> {
    if at(b, i, 91) {
        match array(b, i) {
            Some((a, j)) => Some((MsgView { args: a, ..m }, j)),
            None => None,
        }
    } else if at(b, i, 123) {
        match value_end(b, i) {
            Some(j) => Some((MsgView { result_object: true, ..m }, j)),
            None => None,
        }
    } else if at(b, i, 116) {
        match behind(b, i, word_true()) {
            Some(j) => Some((MsgView { result_true: true, ..m }, j)),
            None => None,
        }
    } else if at(b, i, 102) {
        match behind(b, i, word_false()) {
            Some(j) => Some((MsgView { result_false: true, ..m }, j)),
            None => None,
        }
    } else if at(b, i, 110) {
        match behind(b, i, word_null()) {
            Some(j) => Some((m, j)),
            None => None,
        }
    } else if at(b, i, 34) {
        match string(b, i) {
            Some((s, j)) => Some((MsgView { args: seq![Arg::Str(s)], ..m }, j)),
            None => None,
        }
    } else {
        match number(b, i) {
            Some((n, j)) => Some((MsgView { args: seq![Arg::Num(n)], ..m }, j)),
            None => None,
        }
    }
}

/// The code of an error array: its first element, if that is a number.
pub open spec fn code_of(a: Seq<Arg>) -> Option<u64> {
    if a.len() > 0 {
        match a[0] {
            Arg::Num(n) => Some(n),
            _ => None,
        }
    } else {
        None
    }
}

/// The text of an error array: its second element, if that is a string.
pub open spec fn text_of(a: Seq<Arg>) -> Option<Seq<char>> {
    if a.len() > 1 {
        match a[1] {
            Arg::Str(s) => Some(s),
            _ => None,
        }
    } else {
        None
    }
}

/// What the value of `error` at `i` does to a message.
pub open spec fn take_error(b: Seq<u8>, i: int, m: MsgView) -> Option<(MsgView, int)> {
    if at(b, i, 110) {
        match behind(b, i, word_null()) {
            Some(j) => Some((m, j)),
            None => None,
        }
    } else if at(b, i, 91) {
        match array(b, i) {
            Some((a, j)) => Some(
                (
                    MsgView { is_error: true, error_code: code_of(a), error_msg: text_of(a), ..m },
                    j,
                ),
            ),
            None => None,
        }
    } else if at(b, i, 34) {
        match string(b, i) {
            Some((s, j)) => Some((MsgView { is_error: true, error_msg: Some(s), ..m }, j)),
            None => None,
        }
    } else {
        match value_end(b, i) {
            Some(j) => Some((MsgView { is_error: true, ..m }, j)),
            None => None,
        }
    }
}

/// What the value of `key` at `i` does to a message. The value of a key that
/// is not known is passed over.
pub open spec fn take_value(b: Seq<u8>, i: int, key: Seq<char>, m: MsgView) -> Option<
    (MsgView, int),
> {
    if i < 0 || i >= b.len() {
        None
    } else if key == "id"@ {
        take_id(b, i, m)
    } else if key == "method"@ {
        take_method(b, i, m)
    } else if key == "params"@ || key == "result"@ {
        take_result(b, i, m)
    } else if key == "error"@ {
        take_error(b, i, m)
    } else {
        match value_end(b, i) {
            Some(j) => Some((m, j)),
            None => None,
        }
    }
}

/// The members of an object from a key on, up to its brace: a later member
/// overrides an earlier one.
pub open spec fn members(b: Seq<u8>, i: int, m: MsgView) -> Option<MsgView>
    decreases b.len() - i,
{
    match string(b, ws(b, i)) {
        None => None,
        Some((key, j)) => {
            let c = ws(b, j);
            if !at(b, c, 58) {
                None
            } else {
                match take_value(b, ws(b, c + 1), key, m) {
                    None => None,
                    Some((m2, k)) => {
                        let e = ws(b, k);
                        if at(b, e, 44) {
                            proof {
                                lemma_ws_end(b, i);
                                lemma_string_end(b, ws(b, i));
                                lemma_ws_end(b, j);
                                lemma_ws_end(b, c + 1);
                                lemma_take_value_end(b, ws(b, c + 1), key, m);
                                lemma_ws_end(b, k);
                            }
                            members(b, e + 1, m2)
                        } else if at(b, e, 125) {
                            Some(m2)
                        } else {
                            None
                        }
                    },
                }
            }
        },
    }
}

/// The message that a line holds. What stands behind the brace that closes the
/// object is not looked at.
pub open spec fn message(b: Seq<u8>) -> Option<MsgView> {
    let i = ws(b, 0);
    if !at(b, i, 123) {
        None
    } else if at(b, ws(b, i + 1), 125) {
        Some(no_msg())
    } else {
        members(b, ws(b, i + 1), no_msg())
    }
}

// ---------------------------------------------------------------------------
// Where readers stop

pub proof fn lemma_ws_end(b: Seq<u8>, i: int)
    ensures
        i <= ws(b, i),
        i <= b.len() ==> ws(b, i) <= b.len(),
        0 <= ws(b, i) < b.len() ==> !is_ws(b[ws(b, i)]),
    decreases b.len() - i,
{
    if 0 <= i < b.len() && is_ws(b[i]) {
        lemma_ws_end(b, i + 1);
    }
}

pub proof fn lemma_digits_end(b: Seq<u8>, i: int)
    ensures
        i <= digits_end(b, i),
        i <= b.len() ==> digits_end(b, i) <= b.len(),
    decreases b.len() - i,
{
    if 0 <= i < b.len() && is_digit(b[i]) {
        lemma_digits_end(b, i + 1);
    }
}

pub proof fn lemma_string_body_end(b: Seq<u8>, i: int)
    ensures
        string_body(b, i) matches Some((_, j)) ==> i < j <= b.len(),
    decreases (if i < b.len() { b.len() - i } else { 0 }),
{
    if 0 <= i < b.len() && b[i] != 34 {
        lemma_string_body_end(b, i + 1);
        lemma_string_body_end(b, i + 2);
        lemma_string_body_end(b, i + 6);
    }
}

pub proof fn lemma_string_end(b: Seq<u8>, i: int)
    ensures
        string(b, i) matches Some((_, j)) ==> i + 1 < j <= b.len(),
{
    lemma_string_body_end(b, i + 1);
}

pub proof fn lemma_nest_end(b: Seq<u8>, i: int, open: u8, close: u8, depth: int)
    ensures
        nest_end(b, i, open, close, depth) matches Some(j) ==> i < j <= b.len(),
    decreases b.len() - i,
{
    if 0 <= i < b.len() {
        if b[i] == 34 {
            lemma_string_end(b, i);
            match string(b, i) {
                Some((_, j)) => lemma_nest_end(b, j, open, close, depth),
                None => {},
            }
        } else {
            lemma_nest_end(b, i + 1, open, close, depth);
            lemma_nest_end(b, i + 1, open, close, depth + 1);
            lemma_nest_end(b, i + 1, open, close, depth - 1);
        }
    }
}

pub proof fn lemma_number_end(b: Seq<u8>, i: int)
    ensures
        number(b, i) matches Some((_, j)) ==> i < j && (i <= b.len() ==> j <= b.len()),
{
    lemma_digits_end(b, i);
}

pub proof fn lemma_value_end(b: Seq<u8>, i: int)
    ensures
        value_end(b, i) matches Some(j) ==> i < j <= b.len(),
{
    let k = ws(b, i);
    lemma_ws_end(b, i);
    lemma_string_end(b, k);
    lemma_nest_end(b, k, 91, 93, 0);
    lemma_nest_end(b, k, 123, 125, 0);
    lemma_number_end(b, k);
}

pub proof fn lemma_item_end(b: Seq<u8>, i: int)
    ensures
        item(b, i) matches Some((_, j)) ==> i < j <= b.len(),
{
    lemma_string_end(b, i);
    lemma_value_end(b, i);
    lemma_number_end(b, i);
}

pub proof fn lemma_items_end(b: Seq<u8>, i: int)
    ensures
        items(b, i) matches Some((_, j)) ==> i < j <= b.len(),
    decreases b.len() - i,
{
    lemma_ws_end(b, i);
    lemma_item_end(b, ws(b, i));
    match item(b, ws(b, i)) {
        None => {},
        Some((_, j)) => {
            lemma_ws_end(b, j);
            if at(b, ws(b, j), 44) {
                lemma_items_end(b, ws(b, j) + 1);
            }
        },
    }
}

pub proof fn lemma_array_end(b: Seq<u8>, i: int)
    ensures
        array(b, i) matches Some((_, j)) ==> i < j <= b.len(),
{
    lemma_ws_end(b, i + 1);
    lemma_items_end(b, ws(b, i + 1));
}

pub proof fn lemma_take_value_end(b: Seq<u8>, i: int, key: Seq<char>, m: MsgView)
    ensures
        take_value(b, i, key, m) matches Some((_, j)) ==> i < j <= b.len(),
{
    lemma_number_end(b, i);
    lemma_string_end(b, i);
    lemma_array_end(b, i);
    lemma_value_end(b, i);
}

// ---------------------------------------------------------------------------
// The readers

pub(crate) fn skip_ws(b: &[u8], i: usize) -> (j: usize)
    ensures
        j == ws(b@, i as int),
        i <= j,
        i <= b.len() ==> j <= b.len(),
{
    let mut j: usize = i;
    while j < b.len() && (b[j] == 32 || b[j] == 9 || b[j] == 13 || b[j] == 10)
        invariant
            i <= j,
            i <= b.len() ==> j <= b.len(),
            ws(b@, i as int) == ws(b@, j as int),
        decreases b.len() - j,
    {
        j += 1;
    }
    j
}

/// Whether `c` stands at position `i`.
pub(crate) fn is_at(b: &[u8], i: usize, c: u8) -> (r: bool)
    ensures
        r == at(b@, i as int, c),
{
    i < b.len() && b[i] == c
}

fn literal(b: &[u8], i: usize, word: &[u8]) -> (r: Option<usize>)
    requires
        i <= b.len(),
    ensures
        r matches Some(j) ==> behind(b@, i as int, word@) == Some(j as int) && j <= b.len(),
        r is None ==> behind(b@, i as int, word@) is None,
{
    if b.len() - i < word.len() {
        return None;
    }
    let mut k: usize = 0;
    while k < word.len()
        invariant
            i + word.len() <= b.len(),
            k <= word.len(),
            forall|x: int| 0 <= x < k ==> b@[i + x] == word@[x],
        decreases word.len() - k,
    {
        if b[i + k] != word[k] {
            assert(b@.subrange(i as int, i + word.len())[k as int] != word@[k as int]);
            return None;
        }
        k += 1;
    }
    assert(b@.subrange(i as int, i + word.len()) =~= word@);
    Some(i + word.len())
}

fn read_true(b: &[u8], i: usize) -> (r: Option<usize>)
    requires
        i <= b.len(),
    ensures
        r matches Some(j) ==> behind(b@, i as int, word_true()) == Some(j as int) && j <= b.len(),
        r is None ==> behind(b@, i as int, word_true()) is None,
{
    let w: [u8; 4] = [116, 114, 117, 101];
    assert(w@ =~= word_true());
    literal(b, i, &w)
}

fn read_false(b: &[u8], i: usize) -> (r: Option<usize>)
    requires
        i <= b.len(),
    ensures
        r matches Some(j) ==> behind(b@, i as int, word_false()) == Some(j as int) && j <= b.len(),
        r is None ==> behind(b@, i as int, word_false()) is None,
{
    let w: [u8; 5] = [102, 97, 108, 115, 101];
    assert(w@ =~= word_false());
    literal(b, i, &w)
}

fn read_null(b: &[u8], i: usize) -> (r: Option<usize>)
    requires
        i <= b.len(),
    ensures
        r matches Some(j) ==> behind(b@, i as int, word_null()) == Some(j as int) && j <= b.len(),
        r is None ==> behind(b@, i as int, word_null()) is None,
{
    let w: [u8; 4] = [110, 117, 108, 108];
    assert(w@ =~= word_null());
    literal(b, i, &w)
}

/// More digits never make a smaller number.
proof fn lemma_digits_grow(d: Seq<u8>, k: int)
    requires
        0 <= k <= d.len(),
        forall|x: int| 0 <= x < d.len() ==> is_digit(#[trigger] d[x]),
    ensures
        digits_value(d.take(k)) <= digits_value(d),
    decreases d.len(),
{
    if k == d.len() {
        assert(d.take(k) =~= d);
    } else {
        assert(d.drop_last().take(k) =~= d.take(k));
        lemma_digits_grow(d.drop_last(), k);
    }
}

proof fn lemma_digits_between(b: Seq<u8>, i: int, x: int)
    requires
        0 <= i <= x < digits_end(b, i),
    ensures
        x < b.len(),
        is_digit(b[x]),
    decreases b.len() - i,
{
    if i < b.len() && is_digit(b[i]) && i < x {
        lemma_digits_between(b, i + 1, x);
    }
}

fn read_number(b: &[u8], i: usize) -> (r: Option<(u64, usize)>)
    requires
        i <= b.len(),
    ensures
        r matches Some((n, j)) ==> number(b@, i as int) == Some((n, j as int)) && j <= b.len(),
        r is None ==> number(b@, i as int) is None,
{
    let ghost e = digits_end(b@, i as int);
    let ghost d = b@.subrange(i as int, e);
    proof {
        lemma_digits_end(b@, i as int);
        assert forall|x: int| 0 <= x < d.len() implies is_digit(#[trigger] d[x]) by {
            lemma_digits_between(b@, i as int, i + x);
        }
    }
    let mut j: usize = i;
    let mut n: u64 = 0;
    assert(d.take(0) =~= Seq::empty());
    while j < b.len() && 48 <= b[j] && b[j] <= 57
        invariant
            i <= j <= b.len(),
            i <= e <= b.len(),
            e == digits_end(b@, j as int),
            e == digits_end(b@, i as int),
            j <= e,
            d == b@.subrange(i as int, e),
            forall|x: int| 0 <= x < d.len() ==> is_digit(#[trigger] d[x]),
            n == digits_value(d.take(j - i)),
        decreases b.len() - j,
    {
        proof {
            lemma_digits_end(b@, j + 1);
            assert(d.take(j + 1 - i).drop_last() =~= d.take(j - i));
            assert(d.take(j + 1 - i).last() == b@[j as int]);
            lemma_digits_grow(d, j + 1 - i);
        }
        let v: u64 = (b[j] - 48) as u64;
        match n.checked_mul(10) {
            None => {
                return None;
            },
            Some(t) => match t.checked_add(v) {
                None => {
                    return None;
                },
                Some(u) => {
                    n = u;
                },
            },
        }
        j += 1;
    }
    assert(j == e);
    assert(d.take(j - i) =~= d);
    if j == i {
        return None;
    }
    Some((n, j))
}

fn read_escape(e: u8) -> (c: Option<char>)
    ensures
        c == escape(e),
{
    if e == 34 {
        Some('"')
    } else if e == 92 {
        Some('\\')
    } else if e == 47 {
        Some('/')
    } else if e == 110 {
        Some('\n')
    } else if e == 116 {
        Some('\t')
    } else if e == 114 {
        Some('\r')
    } else if e == 98 {
        Some('\u{8}')
    } else if e == 102 {
        Some('\u{c}')
    } else {
        None
    }
}

/// What `string_body` gives at `i`, with `front` put before it.
spec fn body_after(front: Seq<char>, b: Seq<u8>, i: int) -> Option<(Seq<char>, int)> {
    match string_body(b, i) {
        Some((s, j)) => Some((front + s, j)),
        None => None,
    }
}

proof fn lemma_body_step(front: Seq<char>, c: char, b: Seq<u8>, i: int, k: int)
    requires
        string_body(b, i) == (match string_body(b, k) {
            Some((s, j)) => Some((seq![c] + s, j)),
            None => None,
        }),
    ensures
        body_after(front, b, i) == body_after(front.push(c), b, k),
{
    match string_body(b, k) {
        Some((s, j)) => {
            assert(front + (seq![c] + s) =~= front.push(c) + s);
        },
        None => {},
    }
}

pub(crate) fn read_string(b: &[u8], i: usize) -> (r: Option<(String, usize)>)
    requires
        i <= b.len(),
    ensures
        r matches Some((s, j)) ==> string(b@, i as int) == Some((s@, j as int)) && i < j
            <= b.len(),
        r is None ==> string(b@, i as int) is None,
{
    if i >= b.len() || b[i] != 34 {
        return None;
    }
    let mut out = String::new();
    let mut j: usize = i + 1;
    proof {
        match string_body(b@, j as int) {
            Some((s, e)) => {
                assert(Seq::<char>::empty() + s =~= s);
            },
            None => {},
        }
    }
    while j < b.len()
        invariant
            i < j <= b.len(),
            at(b@, i as int, 34),
            string(b@, i as int) == body_after(out@, b@, j as int),
        decreases b.len() - j,
    {
        let c: u8 = b[j];
        if c == 34 {
            assert(out@ + Seq::<char>::empty() =~= out@);
            return Some((out, j + 1));
        }
        if c == 92 {
            if j + 1 >= b.len() {
                return None;
            }
            let e: u8 = b[j + 1];
            if e == 117 {
                if b.len() - j < 6 {
                    assert(string_body(b@, j + 6) is None);
                    return None;
                }
                proof {
                    lemma_body_step(out@, '\u{fffd}', b@, j as int, j + 6);
                }
                out.push('\u{fffd}');
                j += 6;
            } else {
                match read_escape(e) {
                    None => {
                        return None;
                    },
                    Some(x) => {
                        proof {
                            lemma_body_step(out@, x, b@, j as int, j + 2);
                        }
                        out.push(x);
                        j += 2;
                    },
                }
            }
        } else {
            proof {
                lemma_body_step(out@, c as char, b@, j as int, j + 1);
            }
            out.push(c as char);
            j += 1;
        }
    }
    None
}

fn skip_nest(b: &[u8], i: usize, open: u8, close: u8) -> (r: Option<usize>)
    requires
        i < b.len(),
        b@[i as int] == open,
        open != close,
        open != 34,
    ensures
        r matches Some(j) ==> nest_end(b@, i as int, open, close, 0) == Some(j as int) && j
            <= b.len(),
        r is None ==> nest_end(b@, i as int, open, close, 0) is None,
{
    let mut j: usize = i + 1;
    let mut depth: usize = 1;
    while j < b.len()
        invariant
            i < j <= b.len(),
            1 <= depth <= j,
            open != close,
            nest_end(b@, i as int, open, close, 0) == nest_end(
                b@,
                j as int,
                open,
                close,
                depth as int,
            ),
        decreases b.len() - j,
    {
        let c: u8 = b[j];
        if c == 34 {
            match read_string(b, j) {
                None => {
                    return None;
                },
                Some((_, k)) => {
                    j = k;
                },
            }
        } else {
            if c == open {
                depth += 1;
            } else if c == close {
                if depth == 1 {
                    return Some(j + 1);
                }
                depth -= 1;
            }
            j += 1;
        }
    }
    None
}

fn skip_value(b: &[u8], i: usize) -> (r: Option<usize>)
    requires
        i <= b.len(),
    ensures
        r matches Some(j) ==> value_end(b@, i as int) == Some(j as int) && j <= b.len(),
        r is None ==> value_end(b@, i as int) is None,
{
    let k: usize = skip_ws(b, i);
    if k >= b.len() {
        return None;
    }
    let c: u8 = b[k];
    if c == 34 {
        match read_string(b, k) {
            Some((_, j)) => Some(j),
            None => None,
        }
    } else if c == 91 {
        skip_nest(b, k, 91, 93)
    } else if c == 123 {
        skip_nest(b, k, 123, 125)
    } else if c == 116 {
        read_true(b, k)
    } else if c == 102 {
        read_false(b, k)
    } else if c == 110 {
        read_null(b, k)
    } else {
        match read_number(b, k) {
            Some((_, j)) => Some(j),
            None => None,
        }
    }
}

pub(crate) fn read_item(b: &[u8], i: usize) -> (r: Option<(Owned, usize)>)
    requires
        i <= b.len(),
    ensures
        r matches Some((a, j)) ==> item(b@, i as int) == Some((a@, j as int)) && i < j <= b.len(),
        r is None ==> item(b@, i as int) is None,
{
    proof {
        lemma_item_end(b@, i as int);
        lemma_ws_end(b@, i as int);
    }
    if i >= b.len() {
        return None;
    }
    let c: u8 = b[i];
    if c == 34 {
        match read_string(b, i) {
            Some((s, j)) => Some((Owned::Str(s), j)),
            None => None,
        }
    } else if c == 116 {
        match read_true(b, i) {
            Some(j) => Some((Owned::Bool(true), j)),
            None => None,
        }
    } else if c == 102 {
        match read_false(b, i) {
            Some(j) => Some((Owned::Bool(false), j)),
            None => None,
        }
    } else if c == 110 || c == 91 || c == 123 {
        match skip_value(b, i) {
            Some(j) => Some((Owned::Other, j)),
            None => None,
        }
    } else {
        match read_number(b, i) {
            Some((n, j)) => Some((Owned::Num(n), j)),
            None => None,
        }
    }
}

/// What `items` gives at `i`, with `front` put before it.
spec fn items_after(front: Seq<Arg>, b: Seq<u8>, i: int) -> Option<(Seq<Arg>, int)> {
    match items(b, i) {
        Some((s, j)) => Some((front + s, j)),
        None => None,
    }
}

pub(crate) fn read_array(b: &[u8], i: usize) -> (r: Option<(Vec<Owned>, usize)>)
    requires
        i <= b.len(),
    ensures
        r matches Some((v, j)) ==> array(b@, i as int) == Some((args_view(v@), j as int)) && j
            <= b.len(),
        r is None ==> array(b@, i as int) is None,
{
    let mut out: Vec<Owned> = Vec::new();
    if i >= b.len() || b[i] != 91 {
        return None;
    }
    let mut j: usize = skip_ws(b, i + 1);
    if is_at(b, j, 93) {
        assert(args_view(out@) =~= Seq::empty());
        return Some((out, j + 1));
    }
    proof {
        match items(b@, j as int) {
            Some((s, e)) => {
                assert(args_view(out@) + s =~= s);
            },
            None => {},
        }
    }
    loop
        invariant
            j <= b.len(),
            array(b@, i as int) == items_after(args_view(out@), b@, j as int),
        decreases b.len() - j,
    {
        let ghost j0 = j as int;
        let ghost front = args_view(out@);
        let s: usize = skip_ws(b, j);
        match read_item(b, s) {
            None => {
                return None;
            },
            Some((a, e)) => {
                let k: usize = skip_ws(b, e);
                out.push(a);
                assert(args_view(out@) =~= front.push(a@));
                if is_at(b, k, 44) {
                    proof {
                        match items(b@, k + 1) {
                            Some((rest, _)) => {
                                assert(front + (seq![a@] + rest) =~= front.push(a@) + rest);
                            },
                            None => {},
                        }
                    }
                    j = k + 1;
                } else if is_at(b, k, 93) {
                    assert(front + seq![a@] =~= front.push(a@));
                    return Some((out, k + 1));
                } else {
                    return None;
                }
            },
        }
    }
}

/// Reads the value of `key` at `i` into `msg`; gives the position behind it.
fn read_value(b: &[u8], i: usize, key: &str, msg: &mut Msg) -> (r: Option<usize>)
    requires
        i <= b.len(),
    ensures
        r matches Some(j) ==> take_value(b@, i as int, key@, old(msg)@) == Some(
            (final(msg)@, j as int),
        ) && i < j <= b.len(),
        r is None ==> take_value(b@, i as int, key@, old(msg)@) is None,
{
    proof {
        lemma_take_value_end(b@, i as int, key@, msg@);
    }
    let ghost m = msg@;
    if i >= b.len() {
        return None;
    }
    let c: u8 = b[i];
    if same(key, "id") {
        if c == 110 {
            read_null(b, i)
        } else {
            match read_number(b, i) {
                Some((n, j)) => {
                    msg.id = Some(n);
                    assert(msg@ =~= (MsgView { id: Some(n), ..m }));
                    Some(j)
                },
                None => None,
            }
        }
    } else if same(key, "method") {
        match read_string(b, i) {
            Some((t, j)) => {
                msg.method = Some(t);
                assert(msg@ =~= (MsgView { method: Some(t@), ..m }));
                Some(j)
            },
            None => None,
        }
    } else if same(key, "params") || same(key, "result") {
        if c == 91 {
            match read_array(b, i) {
                Some((v, j)) => {
                    msg.args = v;
                    assert(msg@ =~= (MsgView { args: args_view(v@), ..m }));
                    Some(j)
                },
                None => None,
            }
        } else if c == 123 {
            match skip_value(b, i) {
                Some(j) => {
                    msg.result_object = true;
                    assert(msg@ =~= (MsgView { result_object: true, ..m }));
                    Some(j)
                },
                None => None,
            }
        } else if c == 116 {
            match read_true(b, i) {
                Some(j) => {
                    msg.result_true = true;
                    assert(msg@ =~= (MsgView { result_true: true, ..m }));
                    Some(j)
                },
                None => None,
            }
        } else if c == 102 {
            match read_false(b, i) {
                Some(j) => {
                    msg.result_false = true;
                    assert(msg@ =~= (MsgView { result_false: true, ..m }));
                    Some(j)
                },
                None => None,
            }
        } else if c == 110 {
            read_null(b, i)
        } else if c == 34 {
            match read_string(b, i) {
                Some((t, j)) => {
                    msg.args = vec![Owned::Str(t)];
                    assert(msg@ =~= (MsgView { args: seq![Arg::Str(t@)], ..m }));
                    Some(j)
                },
                None => None,
            }
        } else {
            match read_number(b, i) {
                Some((n, j)) => {
                    msg.args = vec![Owned::Num(n)];
                    assert(msg@ =~= (MsgView { args: seq![Arg::Num(n)], ..m }));
                    Some(j)
                },
                None => None,
            }
        }
    } else if same(key, "error") {
        if c == 110 {
            read_null(b, i)
        } else if c == 91 {
            match read_array(b, i) {
                Some((v, j)) => {
                    msg.is_error = true;
                    msg.error_code = if v.len() > 0 {
                        match &v[0] {
                            Owned::Num(n) => Some(*n),
                            _ => None,
                        }
                    } else {
                        None
                    };
                    msg.error_msg = if v.len() > 1 {
                        match &v[1] {
                            Owned::Str(t) => Some(t.clone()),
                            _ => None,
                        }
                    } else {
                        None
                    };
                    assert(msg@ =~= (MsgView {
                        is_error: true,
                        error_code: code_of(args_view(v@)),
                        error_msg: text_of(args_view(v@)),
                        ..m
                    }));
                    Some(j)
                },
                None => None,
            }
        } else if c == 34 {
            match read_string(b, i) {
                Some((t, j)) => {
                    msg.is_error = true;
                    msg.error_msg = Some(t);
                    assert(msg@ =~= (MsgView { is_error: true, error_msg: Some(t@), ..m }));
                    Some(j)
                },
                None => None,
            }
        } else {
            match skip_value(b, i) {
                Some(j) => {
                    msg.is_error = true;
                    assert(msg@ =~= (MsgView { is_error: true, ..m }));
                    Some(j)
                },
                None => None,
            }
        }
    } else {
        skip_value(b, i)
    }
}

/// The message that `line` holds, or `None` if it holds none.
pub fn parse(line: &str) -> (r: Option<Msg>)
    ensures
        r matches Some(m) ==> message(vstd::utf8::encode_utf8(line@)) == Some(m@),
        r is None ==> message(vstd::utf8::encode_utf8(line@)) is None,
{
    let b: &[u8] = line.as_bytes();
    let start: usize = skip_ws(b, 0);
    if !is_at(b, start, 123) {
        return None;
    }
    let mut msg = Msg::default();
    let mut i: usize = skip_ws(b, start + 1);
    if is_at(b, i, 125) {
        return Some(msg);
    }
    loop
        invariant
            b@ == vstd::utf8::encode_utf8(line@),
            i <= b.len(),
            message(b@) == members(b@, i as int, msg@),
        decreases b.len() - i,
    {
        let k: usize = skip_ws(b, i);
        match read_string(b, k) {
            None => {
                return None;
            },
            Some((key, j)) => {
                let c: usize = skip_ws(b, j);
                if !is_at(b, c, 58) {
                    return None;
                }
                let v: usize = skip_ws(b, c + 1);
                match read_value(b, v, &key, &mut msg) {
                    None => {
                        return None;
                    },
                    Some(e) => {
                        let f: usize = skip_ws(b, e);
                        if is_at(b, f, 44) {
                            i = f + 1;
                        } else if is_at(b, f, 125) {
                            return Some(msg);
                        } else {
                            return None;
                        }
                    },
                }
            },
        }
    }
}

// ---------------------------------------------------------------------------
// Framing

/// What a reader of the connection has for the caller.
#[derive(Debug, PartialEq, Eq)]
pub enum Framed {
    Line(Vec<u8>),
    Idle,
    Eof,
    TooLong,
}

/// What one read of the connection came back with. A read that gives no bytes
/// is the end of the stream; one that timed out or would block is `NotYet`.
#[derive(Debug, PartialEq, Eq)]
pub enum Got {
    Bytes(Vec<u8>),
    NotYet,
}

/// The bytes that have come in and are not yet handed out as lines.
pub struct Lines {
    buf: Vec<u8>,
    max: usize,
}

/// The position of the first newline at or behind `i`, or the length.
pub open spec fn newline(b: Seq<u8>, i: int) -> int
    decreases b.len() - i,
{
    if 0 <= i < b.len() && b[i] != 10 {
        newline(b, i + 1)
    } else {
        i
    }
}

/// Whether a whole line has come in.
pub open spec fn has_line(b: Seq<u8>) -> bool {
    newline(b, 0) < b.len()
}

/// The first line, without its newline and one carriage return before that.
pub open spec fn first_line(b: Seq<u8>) -> Seq<u8> {
    let p = newline(b, 0);
    if p > 0 && b[p - 1] == 13 {
        b.take(p - 1)
    } else {
        b.take(p)
    }
}

/// What follows the first line.
pub open spec fn after_line(b: Seq<u8>) -> Seq<u8> {
    b.skip(newline(b, 0) + 1)
}

pub proof fn lemma_newline(b: Seq<u8>, i: int)
    requires
        0 <= i <= b.len(),
    ensures
        i <= newline(b, i) <= b.len(),
        forall|k: int| i <= k < newline(b, i) ==> b[k] != 10,
        newline(b, i) < b.len() ==> b[newline(b, i)] == 10,
    decreases b.len() - i,
{
    if i < b.len() && b[i] != 10 {
        lemma_newline(b, i + 1);
    }
}

impl View for Lines {
    type V = Seq<u8>;

    /// The bytes that are held back.
    closed spec fn view(&self) -> Seq<u8> {
        self.buf@
    }
}

impl Lines {
    /// How many bytes without a newline are accepted.
    pub closed spec fn limit(&self) -> usize {
        self.max
    }

    pub fn new(max: usize) -> (l: Lines)
        ensures
            l@ == Seq::<u8>::empty(),
            l.limit() == max,
    {
        Lines { buf: Vec::new(), max }
    }

    /// Takes in what a read came back with and gives the next line, if there
    /// is one. Bytes are never lost: they are handed out in a line or held.
    pub fn next(&mut self, got: Got) -> (r: Framed)
        ensures
            final(self).limit() == old(self).limit(),
            ({
                let held = match got {
                    Got::Bytes(c) => old(self)@ + c@,
                    Got::NotYet => old(self)@,
                };
                match r {
                    Framed::Line(l) => has_line(held) && l@ == first_line(held) && final(self)@
                        == after_line(held),
                    Framed::Eof => !has_line(held) && final(self)@ == held && (got matches
                        Got::Bytes(c) && c@.len() == 0),
                    Framed::TooLong => !has_line(held) && final(self)@ == held && (got matches
                        Got::Bytes(c) && c@.len() > 0) && held.len() > old(self).limit(),
                    Framed::Idle => !has_line(held) && final(self)@ == held && (got matches
                        Got::Bytes(c) ==> c@.len() > 0 && held.len() <= old(self).limit()),
                }
            }),
    {
        let mut read: Option<usize> = None;
        match got {
            Got::Bytes(c) => {
                read = Some(c.len());
                let mut c: Vec<u8> = c;
                self.buf.append(&mut c);
            },
            Got::NotYet => {},
        }
        match self.take_line() {
            Some(l) => Framed::Line(l),
            None => match read {
                Some(0) => Framed::Eof,
                Some(_) => if self.buf.len() > self.max {
                    Framed::TooLong
                } else {
                    Framed::Idle
                },
                None => Framed::Idle,
            },
        }
    }

    /// The first line that is held, if a whole one has come in.
    pub fn take_line(&mut self) -> (r: Option<Vec<u8>>)
        ensures
            final(self).limit() == old(self).limit(),
            r is Some <==> has_line(old(self)@),
            r matches Some(l) ==> l@ == first_line(old(self)@) && final(self)@ == after_line(
                old(self)@,
            ),
            r is None ==> final(self)@ == old(self)@,
    {
        let mut pos: usize = 0;
        while pos < self.buf.len() && self.buf[pos] != 10
            invariant
                pos <= self.buf.len(),
                self == old(self),
                newline(self.buf@, 0) == newline(self.buf@, pos as int),
            decreases self.buf.len() - pos,
        {
            pos += 1;
        }
        if pos >= self.buf.len() {
            return None;
        }
        let end: usize = if pos > 0 && self.buf[pos - 1] == 13 {
            pos - 1
        } else {
            pos
        };
        let rest = self.buf.split_off(pos + 1);
        let mut line: Vec<u8> = Vec::new();
        std::mem::swap(&mut line, &mut self.buf);
        line.truncate(end);
        self.buf = rest;
        assert(line@ =~= first_line(old(self)@));
        assert(self.buf@ =~= after_line(old(self)@));
        Some(line)
    }
}

/// All the whole lines of `b`, in order.
pub open spec fn lines_of(b: Seq<u8>) -> Seq<Seq<u8>>
    decreases b.len(),
{
    if has_line(b) {
        proof {
            lemma_newline(b, 0);
        }
        seq![first_line(b)] + lines_of(after_line(b))
    } else {
        Seq::empty()
    }
}

/// What is left of `b` when its whole lines are taken.
pub open spec fn rest_of(b: Seq<u8>) -> Seq<u8>
    decreases b.len(),
{
    if has_line(b) {
        proof {
            lemma_newline(b, 0);
        }
        rest_of(after_line(b))
    } else {
        b
    }
}

proof fn lemma_newline_prefix(a: Seq<u8>, b: Seq<u8>, i: int)
    requires
        0 <= i <= a.len(),
        newline(a, i) < a.len(),
    ensures
        newline(a + b, i) == newline(a, i),
    decreases a.len() - i,
{
    if i < a.len() && a[i] != 10 {
        lemma_newline_prefix(a, b, i + 1);
    }
}

/// Where the stream is cut into reads does not matter: the lines of `a`
/// followed by `b` are the lines of `a`, and then those of what `a` left over
/// followed by `b`.
pub proof fn law_reads_may_cut_anywhere(a: Seq<u8>, b: Seq<u8>)
    ensures
        lines_of(a + b) == lines_of(a) + lines_of(rest_of(a) + b),
        rest_of(a + b) == rest_of(rest_of(a) + b),
    decreases a.len(),
{
    if has_line(a) {
        lemma_newline(a, 0);
        lemma_newline_prefix(a, b, 0);
        assert(first_line(a + b) =~= first_line(a));
        assert(after_line(a + b) =~= after_line(a) + b);
        law_reads_may_cut_anywhere(after_line(a), b);
        assert(lines_of(a + b) =~= lines_of(a) + lines_of(rest_of(a) + b));
    } else {
        assert(lines_of(a) + lines_of(a + b) =~= lines_of(a + b));
    }
}

// ---------------------------------------------------------------------------
// Hexadecimal

/// The lower-case hexadecimal digit of a number below 16.
pub open spec fn hex_digit(n: int) -> char {
    if n < 10 {
        (48 + n) as char
    } else {
        (87 + n) as char
    }
}

/// Two digits for each byte, the high one first.
pub open spec fn hex_of(b: Seq<u8>) -> Seq<char> {
    Seq::new(
        2 * b.len(),
        |i: int|
            hex_digit(
                if i % 2 == 0 {
                    b[i / 2] as int / 16
                } else {
                    b[i / 2] as int % 16
                },
            ),
    )
}

fn to_hex_digit(n: u8) -> (c: char)
    requires
        n < 16,
    ensures
        c == hex_digit(n as int),
{
    if n < 10 {
        (48 + n) as char
    } else {
        (87 + n) as char
    }
}

/// `bytes` in lower-case hexadecimal.
pub fn hex(bytes: &[u8]) -> (s: String)
    ensures
        s@ == hex_of(bytes@),
{
    let mut s = String::new();
    let mut i: usize = 0;
    while i < bytes.len()
        invariant
            i <= bytes.len(),
            s@ == hex_of(bytes@.take(i as int)),
        decreases bytes.len() - i,
    {
        let b: u8 = bytes[i];
        s.push(to_hex_digit(b / 16));
        s.push(to_hex_digit(b % 16));
        i += 1;
        assert(s@ =~= hex_of(bytes@.take(i as int)));
    }
    assert(bytes@.take(i as int) =~= bytes@);
    s
}

/// The value of a hexadecimal digit, of either case.
pub open spec fn nib_value(c: u8) -> Option<u8> {
    if 48 <= c <= 57 {
        Some((c - 48) as u8)
    } else if 97 <= c <= 102 {
        Some((c - 87) as u8)
    } else if 65 <= c <= 70 {
        Some((c - 55) as u8)
    } else {
        None
    }
}

/// The value of a hexadecimal digit.
pub fn nib(c: u8) -> (r: Option<u8>)
    ensures
        r == nib_value(c),
{
    if 48 <= c && c <= 57 {
        Some(c - 48)
    } else if 97 <= c && c <= 102 {
        Some(c - 87)
    } else if 65 <= c && c <= 70 {
        Some(c - 55)
    } else {
        None
    }
}

/// Whether two digits stand at position `2 * k`.
pub open spec fn is_pair(b: Seq<u8>, k: int) -> bool {
    nib_value(b[2 * k]) is Some && nib_value(b[2 * k + 1]) is Some
}

/// The byte that the two digits at position `2 * k` denote.
pub open spec fn pair_value(b: Seq<u8>, k: int) -> u8 {
    (nib_value(b[2 * k])->Some_0 * 16 + nib_value(b[2 * k + 1])->Some_0) as u8
}

/// How many pairs of digits `b` begins with, counted from pair `k` on.
pub open spec fn pairs(b: Seq<u8>, k: int) -> int
    decreases b.len() - 2 * k,
{
    if 0 <= k && 2 * k + 1 < b.len() && is_pair(b, k) {
        pairs(b, k + 1)
    } else {
        k
    }
}

/// Writes the bytes that `s` denotes into `out`. True exactly if `s` is made
/// of two hexadecimal digits for each byte of `out`. Where the length is wrong
/// nothing is written; behind a pair that is no pair of digits, nothing more.
pub fn unhex(s: &str, out: &mut [u8]) -> (r: bool)
    ensures
        final(out)@.len() == old(out)@.len(),
        ({
            let b = vstd::utf8::encode_utf8(s@);
            let n = old(out)@.len();
            let good = if b.len() == 2 * n {
                pairs(b, 0)
            } else {
                0
            };
            &&& r == (b.len() == 2 * n && good == n)
            &&& forall|i: int|
                0 <= i < n ==> #[trigger] final(out)@[i] == (if i < good {
                    pair_value(b, i)
                } else {
                    old(out)@[i]
                })
        }),
        r == (unhexed(s@, old(out)@.len()) is Some),
        r ==> unhexed(s@, old(out)@.len()) == Some(final(out)@),
{
    let b: &[u8] = s.as_bytes();
    let n: usize = out.len();
    if b.len() % 2 != 0 || b.len() / 2 != n {
        return false;
    }
    let mut i: usize = 0;
    while i < n
        invariant
            i <= n,
            n == old(out)@.len(),
            out@.len() == n,
            b@.len() == 2 * n,
            b.len() == 2 * n,
            b@ == vstd::utf8::encode_utf8(s@),
            pairs(b@, 0) == pairs(b@, i as int),
            forall|k: int|
                0 <= k < n ==> #[trigger] out@[k] == (if k < i {
                    pair_value(b@, k)
                } else {
                    old(out)@[k]
                }),
        decreases n - i,
    {
        match (nib(b[2 * i]), nib(b[2 * i + 1])) {
            (Some(h), Some(l)) => {
                out[i] = h * 16 + l;
            },
            _ => {
                return false;
            },
        }
        i += 1;
    }
    true
}

/// The hexadecimal text of `b` as the bytes of a string.
pub open spec fn hex_bytes(b: Seq<u8>) -> Seq<u8> {
    vstd::utf8::encode_utf8(hex_of(b))
}

proof fn lemma_all_pairs(b: Seq<u8>, k: int)
    requires
        0 <= k,
        2 * k <= b.len(),
        b.len() % 2 == 0,
        forall|x: int| 0 <= x < b.len() ==> nib_value(#[trigger] b[x]) is Some,
    ensures
        2 * pairs(b, k) == b.len(),
    decreases b.len() - 2 * k,
{
    if 2 * k + 1 < b.len() {
        assert(nib_value(b[2 * k]) is Some);
        assert(nib_value(b[2 * k + 1]) is Some);
        lemma_all_pairs(b, k + 1);
    }
}

/// Reading back what was written gives the bytes that were written: the text
/// of `b` is made of pairs of digits only, one pair for each byte, and each
/// pair denotes its byte.
pub proof fn law_hex_round_trip(b: Seq<u8>)
    ensures
        hex_bytes(b).len() == 2 * b.len(),
        pairs(hex_bytes(b), 0) == b.len(),
        forall|i: int| 0 <= i < b.len() ==> #[trigger] pair_value(hex_bytes(b), i) == b[i],
{
    let h = hex_of(b);
    let t = hex_bytes(b);
    assert(vstd::utf8::is_ascii_chars(h));
    vstd::utf8::is_ascii_chars_encode_utf8(h);
    assert(t =~= Seq::new(h.len(), |i: int| h[i] as u8));
    assert forall|x: int| 0 <= x < t.len() implies nib_value(#[trigger] t[x]) is Some by {
        assert(t[x] == h[x] as u8);
    }
    lemma_all_pairs(t, 0);
    assert forall|i: int| 0 <= i < b.len() implies #[trigger] pair_value(t, i) == b[i] by {
        assert(t[2 * i] == hex_digit(b[i] as int / 16) as u8);
        assert(t[2 * i + 1] == hex_digit(b[i] as int % 16) as u8);
    }
}

/// A text whose bytes are all hexadecimal digits is made of those bytes.
proof fn lemma_digits_are_chars(s: Seq<char>)
    requires
        forall|x: int|
            0 <= x < vstd::utf8::encode_utf8(s).len() ==> nib_value(
                #[trigger] vstd::utf8::encode_utf8(s)[x],
            ) is Some,
    ensures
        s == Seq::new(
            vstd::utf8::encode_utf8(s).len(),
            |i: int| vstd::utf8::encode_utf8(s)[i] as char,
        ),
{
    let b = vstd::utf8::encode_utf8(s);
    let h = Seq::new(b.len(), |i: int| b[i] as char);
    assert forall|i: int| 0 <= i < h.len() implies 0 <= #[trigger] h[i] < 128 by {
        assert(nib_value(b[i]) is Some);
    }
    assert(vstd::utf8::is_ascii_chars(h));
    vstd::utf8::is_ascii_chars_encode_utf8(h);
    assert(vstd::utf8::encode_utf8(h) =~= b) by {
        assert forall|i: int| 0 <= i < b.len() implies vstd::utf8::encode_utf8(h)[i] == b[i] by {
            assert(nib_value(b[i]) is Some);
        }
    }
    vstd::utf8::encode_utf8_decode_utf8(h);
    vstd::utf8::encode_utf8_decode_utf8(s);
}

/// Where the pairs of digits end, counted from `k`, all before are pairs.
proof fn lemma_pairs_hold(b: Seq<u8>, k: int, i: int)
    requires
        0 <= k <= i < pairs(b, k),
    ensures
        2 * i + 1 < b.len(),
        is_pair(b, i),
    decreases b.len() - 2 * k,
{
    if k < i {
        lemma_pairs_hold(b, k + 1, i);
    }
}

/// The `n` bytes that a text denotes, if it is made of two hexadecimal digits
/// for each of them.
pub open spec fn unhexed(s: Seq<char>, n: nat) -> Option<Seq<u8>> {
    let b = vstd::utf8::encode_utf8(s);
    if b.len() == 2 * n && pairs(b, 0) == n {
        Some(Seq::new(n, |i: int| pair_value(b, i)))
    } else {
        None
    }
}

/// The `n` bytes that `s` denotes.
pub fn unhex_vec(s: &str, n: usize) -> (r: Option<Vec<u8>>)
    ensures
        r is Some <==> unhexed(s@, n as nat) is Some,
        r matches Some(v) ==> unhexed(s@, n as nat) == Some(v@),
{
    let mut v: Vec<u8> = vec![0; n];
    if unhex(s, v.as_mut_slice()) {
        assert(v@ =~= unhexed(s@, n as nat)->Some_0);
        Some(v)
    } else {
        None
    }
}

/// A text that denotes bytes is written again, in lower case, by `hex`.
pub proof fn law_unhex_round_trip(s: Seq<char>, n: nat)
    requires
        unhexed(s, n) is Some,
    ensures
        hex_of(unhexed(s, n)->Some_0) == text::lower(s),
{
    let b = vstd::utf8::encode_utf8(s);
    let v = unhexed(s, n)->Some_0;
    assert forall|x: int| 0 <= x < b.len() implies nib_value(#[trigger] b[x]) is Some by {
        lemma_pairs_hold(b, 0, x / 2);
    }
    lemma_digits_are_chars(s);
    assert forall|i: int| 0 <= i < 2 * n implies #[trigger] hex_of(v)[i] == text::lower(s)[i] by {
        assert(v[i / 2] == pair_value(b, i / 2));
        assert(nib_value(b[2 * (i / 2)]) is Some);
        assert(nib_value(b[2 * (i / 2) + 1]) is Some);
        assert(nib_value(b[i]) is Some);
        assert(s[i] == b[i] as char);
    }
    assert(hex_of(v) =~= text::lower(s));
}

/// `hex` writes two digits for each byte, and nothing but digits and the
/// letters from a to f.
pub proof fn law_hex_is_lower_case_digits(b: Seq<u8>, i: int)
    requires
        0 <= i < hex_of(b).len(),
    ensures
        hex_of(b).len() == 2 * b.len(),
        '0' <= hex_of(b)[i] <= '9' || 'a' <= hex_of(b)[i] <= 'f',
{
}

/// Whether a character is a hexadecimal digit, of either case.
pub open spec fn is_hex_char(c: char) -> bool {
    '0' <= c <= '9' || 'a' <= c <= 'f' || 'A' <= c <= 'F'
}

/// A text denotes `n` bytes exactly where it is made of `2 * n` hexadecimal
/// digits.
pub proof fn law_digits_and_nothing_else_denote_bytes(s: Seq<char>, n: nat)
    ensures
        unhexed(s, n) is Some <==> s.len() == 2 * n && forall|i: int|
            0 <= i < s.len() ==> is_hex_char(#[trigger] s[i]),
        unhexed(s, n) matches Some(b) ==> b.len() == n,
{
    let b = vstd::utf8::encode_utf8(s);
    if unhexed(s, n) is Some {
        assert forall|x: int| 0 <= x < b.len() implies nib_value(#[trigger] b[x]) is Some by {
            lemma_pairs_hold(b, 0, x / 2);
        }
        lemma_digits_are_chars(s);
        assert forall|i: int| 0 <= i < s.len() implies is_hex_char(#[trigger] s[i]) by {
            assert(nib_value(b[i]) is Some);
            assert(s[i] == b[i] as char);
        }
    }
    if s.len() == 2 * n && forall|i: int| 0 <= i < s.len() ==> is_hex_char(#[trigger] s[i]) {
        assert forall|i: int| 0 <= i < s.len() implies 0 <= #[trigger] s[i] < 128 by {
            assert(is_hex_char(s[i]));
        }
        assert(vstd::utf8::is_ascii_chars(s));
        vstd::utf8::is_ascii_chars_encode_utf8(s);
        assert forall|x: int| 0 <= x < b.len() implies nib_value(#[trigger] b[x]) is Some by {
            assert(is_hex_char(s[x]));
            assert(b[x] == s[x] as u8);
        }
        lemma_all_pairs(b, 0);
    }
}

/// The bytes that are written in hexadecimal are read back, and the two digits of
/// a byte are its sixteens and its ones.
pub proof fn law_written_bytes_are_read_back(b: Seq<u8>)
    ensures
        unhexed(hex_of(b), b.len()) == Some(b),
{
    law_hex_round_trip(b);
    let t = hex_bytes(b);
    assert(Seq::new(b.len(), |i: int| pair_value(t, i)) =~= b);
}

// ---------------------------------------------------------------------------
// What is written is read

/// A string of bytes between quotes.
pub open spec fn quoted(s: Seq<u8>) -> Seq<u8> {
    seq![34u8] + s + seq![34u8]
}

/// Whether bytes hold neither a quote nor a backslash.
pub open spec fn is_unescaped(s: Seq<u8>) -> bool {
    forall|k: int| 0 <= k < s.len() ==> (#[trigger] s[k]) != 34 && s[k] != 92
}

/// The characters whose numbers are the bytes.
pub open spec fn chars(s: Seq<u8>) -> Seq<char> {
    Seq::new(s.len(), |k: int| s[k] as char)
}

/// Whether bytes are decimal digits, at least one.
pub open spec fn are_digits(d: Seq<u8>) -> bool {
    d.len() > 0 && forall|k: int| 0 <= k < d.len() ==> is_digit(#[trigger] d[k])
}

pub(crate) proof fn lemma_begins(b: Seq<u8>, i: int, w: Seq<u8>, k: int)
    requires
        begins(b, i, w),
        0 <= k < w.len(),
    ensures
        b[i + k] == w[k],
{
    assert(b.subrange(i, i + w.len())[k] == w[k]);
}

proof fn lemma_begins_part(b: Seq<u8>, i: int, a: Seq<u8>, w: Seq<u8>, c: Seq<u8>)
    requires
        begins(b, i, a + w + c),
    ensures
        begins(b, i, a),
        begins(b, i + a.len(), w),
        begins(b, i + a.len() + w.len(), c),
{
    let all = a + w + c;
    let t = b.subrange(i, i + all.len());
    assert(b.subrange(i, i + a.len()) =~= t.subrange(0, a.len() as int));
    assert(t.subrange(0, a.len() as int) =~= a);
    assert(b.subrange(i + a.len(), i + a.len() + w.len()) =~= t.subrange(
        a.len() as int,
        (a.len() + w.len()) as int,
    ));
    assert(t.subrange(a.len() as int, (a.len() + w.len()) as int) =~= w);
    assert(b.subrange(i + a.len() + w.len(), i + all.len()) =~= t.subrange(
        (a.len() + w.len()) as int,
        all.len() as int,
    ));
    assert(t.subrange((a.len() + w.len()) as int, all.len() as int) =~= c);
}

proof fn lemma_string_body_plain(b: Seq<u8>, i: int, n: int)
    requires
        0 <= i,
        0 <= n,
        i + n < b.len(),
        forall|k: int| i <= k < i + n ==> (#[trigger] b[k]) != 34 && b[k] != 92,
        b[i + n] == 34,
    ensures
        string_body(b, i) == Some((chars(b.subrange(i, i + n)), i + n + 1)),
    decreases n,
{
    if n == 0 {
        assert(chars(b.subrange(i, i)) =~= Seq::empty());
    } else {
        lemma_string_body_plain(b, i + 1, n - 1);
        assert(b[i] != 34 && b[i] != 92);
        assert(seq![b[i] as char] + chars(b.subrange(i + 1, i + n)) =~= chars(
            b.subrange(i, i + n),
        ));
    }
}

/// A string is read up to the quote that closes it, byte for byte, where it holds
/// no escape.
pub proof fn law_a_string_is_read_to_its_quote(b: Seq<u8>, i: int, s: Seq<u8>)
    requires
        begins(b, i, quoted(s)),
        is_unescaped(s),
    ensures
        string(b, i) == Some((chars(s), i + s.len() + 2)),
{
    lemma_begins_part(b, i, seq![34u8], s, seq![34u8]);
    lemma_begins(b, i, seq![34u8], 0);
    lemma_begins(b, i + 1 + s.len(), seq![34u8], 0);
    assert forall|k: int| i + 1 <= k < i + 1 + s.len() implies (#[trigger] b[k]) != 34 && b[k]
        != 92 by {
        lemma_begins(b, i + 1, s, k - i - 1);
        assert(s[k - i - 1] != 34);
    }
    lemma_string_body_plain(b, i + 1, s.len() as int);
    assert(b.subrange(i + 1, i + 1 + s.len()) =~= s);
}

/// An escape is read as the character that it stands for, before whatever follows
/// it; one that stands for nothing makes the string unreadable.
pub proof fn law_an_escape_is_its_character(b: Seq<u8>, i: int, c: char)
    requires
        0 <= i,
        i + 1 < b.len(),
        b[i] == 92,
        b[i + 1] == 110 && c == '\n' || b[i + 1] == 116 && c == '\t' || b[i + 1] == 114 && c == '\r'
            || b[i + 1] == 98 && c == '\u{8}' || b[i + 1] == 102 && c == '\u{c}' || b[i + 1] == 34
            && c == '"' || b[i + 1] == 92 && c == '\\' || b[i + 1] == 47 && c == '/' || b[i + 1]
            != 117 && c == ' ',
    ensures
        c != ' ' && string_body(b, i + 2) is Some ==> string_body(b, i) == Some(
            (seq![c] + string_body(b, i + 2)->Some_0.0, string_body(b, i + 2)->Some_0.1),
        ),
        c != ' ' && string_body(b, i + 2) is None ==> string_body(b, i) is None,
        b[i + 1] != 110 && b[i + 1] != 116 && b[i + 1] != 114 && b[i + 1] != 98 && b[i + 1] != 102
            && b[i + 1] != 34 && b[i + 1] != 92 && b[i + 1] != 47 ==> string_body(b, i) is None,
{
}

/// A character by number takes six bytes and is read as the replacement
/// character.
pub proof fn law_a_numbered_character_is_replaced(b: Seq<u8>, i: int)
    requires
        0 <= i,
        i + 1 < b.len(),
        b[i] == 92,
        b[i + 1] == 117,
    ensures
        string_body(b, i) is Some <==> string_body(b, i + 6) is Some,
        string_body(b, i + 6) matches Some((s, j)) ==> string_body(b, i) == Some(
            (seq!['\u{fffd}'] + s, j),
        ),
{
}

proof fn lemma_digits_run(b: Seq<u8>, i: int, n: int)
    requires
        0 <= i,
        0 <= n,
        i + n <= b.len(),
        forall|k: int| i <= k < i + n ==> is_digit(#[trigger] b[k]),
        i + n < b.len() ==> !is_digit(b[i + n]),
    ensures
        digits_end(b, i) == i + n,
    decreases n,
{
    if n > 0 {
        assert(is_digit(b[i]));
        lemma_digits_run(b, i + 1, n - 1);
    }
}

/// A number is read up to its last digit, and is refused where it does not fit.
pub proof fn law_a_number_is_read_to_its_last_digit(b: Seq<u8>, i: int, d: Seq<u8>)
    requires
        begins(b, i, d),
        are_digits(d),
        i + d.len() < b.len() ==> !is_digit(b[i + d.len()]),
    ensures
        digits_value(d) <= u64::MAX ==> number(b, i) == Some(
            (digits_value(d) as u64, i + d.len()),
        ),
        digits_value(d) > u64::MAX ==> number(b, i) is None,
{
    assert forall|k: int| i <= k < i + d.len() implies is_digit(#[trigger] b[k]) by {
        lemma_begins(b, i, d, k - i);
        assert(is_digit(d[k - i]));
    }
    lemma_digits_run(b, i, d.len() as int);
}

/// A digit more counts ten times what stands before it, and itself.
pub proof fn law_a_decimal_digit_more_is_a_place_more(d: Seq<u8>, c: u8)
    requires
        is_digit(c),
    ensures
        digits_value(Seq::empty()) == 0,
        digits_value(d.push(c)) == 10 * digits_value(d) + c - 48,
{
    assert(d.push(c).drop_last() =~= d);
}

/// Whether `t` is how an element is written.
pub open spec fn is_written(a: Arg, t: Seq<u8>) -> bool {
    match a {
        Arg::Str(s) => t.len() >= 2 && t == quoted(t.subrange(1, t.len() - 1)) && is_unescaped(
            t.subrange(1, t.len() - 1),
        ) && s == chars(t.subrange(1, t.len() - 1)),
        Arg::Num(n) => are_digits(t) && digits_value(t) == n,
        Arg::Bool(v) => t == (if v {
            seq![116u8, 114u8, 117u8, 101u8]
        } else {
            seq![102u8, 97u8, 108u8, 115u8, 101u8]
        }),
        Arg::Other => t == seq![110u8, 117u8, 108u8, 108u8],
    }
}

/// An element of an array is read as what was written.
pub proof fn law_an_element_is_read(b: Seq<u8>, i: int, a: Arg, t: Seq<u8>)
    requires
        begins(b, i, t),
        is_written(a, t),
        i + t.len() < b.len() ==> !is_digit(b[i + t.len()]),
    ensures
        item(b, i) == Some((a, i + t.len())),
        t.len() > 0,
        !is_ws(b[i]),
        b[i] != 93,
{
    lemma_begins(b, i, t, 0);
    match a {
        Arg::Str(s) => {
            law_a_string_is_read_to_its_quote(b, i, t.subrange(1, t.len() - 1));
            assert(t[0] == quoted(t.subrange(1, t.len() - 1))[0]);
        },
        Arg::Num(n) => {
            assert(is_digit(t[0]));
            law_a_number_is_read_to_its_last_digit(b, i, t);
        },
        Arg::Bool(v) => {},
        Arg::Other => {},
    }
}

/// Elements with commas between them.
pub open spec fn with_commas(ts: Seq<Seq<u8>>) -> Seq<u8>
    decreases ts.len(),
{
    if ts.len() == 0 {
        Seq::empty()
    } else if ts.len() == 1 {
        ts[0]
    } else {
        ts[0] + seq![44u8] + with_commas(ts.skip(1))
    }
}

/// Whether the elements are written as the texts.
pub open spec fn are_written(args: Seq<Arg>, ts: Seq<Seq<u8>>) -> bool {
    args.len() == ts.len() && forall|k: int|
        0 <= k < args.len() ==> is_written(#[trigger] args[k], ts[k])
}

proof fn lemma_elements_are_read(b: Seq<u8>, i: int, args: Seq<Arg>, ts: Seq<Seq<u8>>)
    requires
        args.len() > 0,
        are_written(args, ts),
        begins(b, i, with_commas(ts) + seq![93u8]),
    ensures
        items(b, i) == Some((args, i + with_commas(ts).len() + 1)),
        !is_ws(b[i]),
        b[i] != 93,
    decreases args.len(),
{
    let a = args[0];
    let t = ts[0];
    assert(is_written(a, t));
    if args.len() == 1 {
        assert(with_commas(ts) + seq![93u8] =~= Seq::empty() + t + seq![93u8]);
        lemma_begins_part(b, i, Seq::empty(), t, seq![93u8]);
        lemma_begins(b, i + t.len(), seq![93u8], 0);
        law_an_element_is_read(b, i, a, t);
        assert(seq![a] =~= args);
    } else {
        let rest = with_commas(ts.skip(1)) + seq![93u8];
        assert(with_commas(ts) + seq![93u8] =~= t + seq![44u8] + rest);
        lemma_begins_part(b, i, t, seq![44u8], rest);
        lemma_begins(b, i + t.len(), seq![44u8], 0);
        law_an_element_is_read(b, i, a, t);
        assert forall|k: int| 0 <= k < args.skip(1).len() implies is_written(
            #[trigger] args.skip(1)[k],
            ts.skip(1)[k],
        ) by {
            assert(is_written(args[k + 1], ts[k + 1]));
        }
        lemma_elements_are_read(b, i + t.len() + 1, args.skip(1), ts.skip(1));
        assert(seq![a] + args.skip(1) =~= args);
    }
}

/// An array is read as the elements that were written, in their order.
pub proof fn law_an_array_is_read(b: Seq<u8>, i: int, args: Seq<Arg>, ts: Seq<Seq<u8>>)
    requires
        are_written(args, ts),
        begins(b, i, seq![91u8] + with_commas(ts) + seq![93u8]),
    ensures
        array(b, i) == Some((args, i + with_commas(ts).len() + 2)),
{
    assert(seq![91u8] + with_commas(ts) + seq![93u8] =~= seq![91u8] + (with_commas(ts) + seq![
        93u8,
    ]) + Seq::empty());
    lemma_begins_part(b, i, seq![91u8], with_commas(ts) + seq![93u8], Seq::empty());
    lemma_begins(b, i, seq![91u8], 0);
    if args.len() == 0 {
        lemma_begins(b, i + 1, with_commas(ts) + seq![93u8], 0);
        assert(args =~= Seq::empty());
    } else {
        lemma_elements_are_read(b, i + 1, args, ts);
    }
}

/// One member of an object, with what stands behind it.
pub open spec fn member(key: Seq<u8>, v: Seq<u8>, end: u8) -> Seq<u8> {
    quoted(key) + seq![58u8] + v + seq![end]
}

/// The members from a key on, as they are read over `m`.
#[verifier::opaque]
spec fn read_from(b: Seq<u8>, i: int, m: MsgView) -> Option<MsgView> {
    members(b, i, m)
}

/// The message of a line.
#[verifier::opaque]
spec fn read_line(b: Seq<u8>) -> Option<MsgView> {
    message(b)
}

/// What is read behind a member whose value made `m` of the message.
spec fn read_behind(b: Seq<u8>, i: int, end: u8, m: MsgView) -> Option<MsgView> {
    if end == 125 {
        Some(m)
    } else {
        read_from(b, i, m)
    }
}

proof fn lemma_first_member(rest: Seq<u8>)
    requires
        rest.len() > 0,
        rest[0] == 34,
    ensures
        read_line(seq![123u8] + rest) == read_from(seq![123u8] + rest, 1, no_msg()),
{
    reveal(read_line);
    reveal(read_from);
    let b = seq![123u8] + rest;
    assert(b[0] == 123);
    assert(b[1] == rest[0]);
}

pub(crate) proof fn lemma_member_stands(b: Seq<u8>, i: int, key: Seq<u8>, v: Seq<u8>, end: u8)
    requires
        begins(b, i, member(key, v, end)),
        is_unescaped(key),
    ensures
        string(b, i) == Some((chars(key), i + key.len() + 2)),
        b[i] == 34,
        b[i + key.len() + 2] == 58,
        begins(b, i + key.len() + 3, v),
        i + key.len() + 3 + v.len() < b.len(),
        b[i + key.len() + 3 + v.len()] == end,
{
    assert(member(key, v, end) =~= quoted(key) + seq![58u8] + (v + seq![end]));
    lemma_begins_part(b, i, quoted(key), seq![58u8], v + seq![end]);
    let p = i + key.len() + 3;
    assert(v + seq![end] =~= Seq::empty() + v + seq![end]);
    lemma_begins_part(b, p, Seq::empty(), v, seq![end]);
    lemma_begins(b, i, quoted(key), 0);
    lemma_begins(b, p - 1, seq![58u8], 0);
    lemma_begins(b, p + v.len(), seq![end], 0);
    law_a_string_is_read_to_its_quote(b, i, key);
}

/// A member is read as its value, and then what stands behind it.
proof fn lemma_member(
    b: Seq<u8>,
    i: int,
    key: Seq<u8>,
    v: Seq<u8>,
    end: u8,
    m: MsgView,
    m2: MsgView,
)
    requires
        begins(b, i, member(key, v, end)),
        is_unescaped(key),
        v.len() > 0,
        !is_ws(v[0]),
        end == 44 || end == 125,
        take_value(b, i + key.len() + 3, chars(key), m) == Some(
            (m2, i + key.len() + 3 + v.len()),
        ),
    ensures
        read_from(b, i, m) == read_behind(b, i + key.len() + 4 + v.len(), end, m2),
{
    reveal(read_from);
    lemma_member_stands(b, i, key, v, end);
    lemma_begins(b, i + key.len() + 3, v, 0);
}

pub open spec fn key_id() -> Seq<u8> {
    seq![105u8, 100u8]
}

pub open spec fn key_method() -> Seq<u8> {
    seq![109u8, 101u8, 116u8, 104u8, 111u8, 100u8]
}

pub open spec fn key_params() -> Seq<u8> {
    seq![112u8, 97u8, 114u8, 97u8, 109u8, 115u8]
}

pub open spec fn key_result() -> Seq<u8> {
    seq![114u8, 101u8, 115u8, 117u8, 108u8, 116u8]
}

pub open spec fn key_error() -> Seq<u8> {
    seq![101u8, 114u8, 114u8, 111u8, 114u8]
}

proof fn lemma_keys()
    ensures
        chars(key_id()) == "id"@,
        chars(key_method()) == "method"@,
        chars(key_params()) == "params"@,
        chars(key_result()) == "result"@,
        chars(key_error()) == "error"@,
        "method"@ != "id"@,
        "params"@ != "id"@,
        "params"@ != "method"@,
        "result"@ != "id"@,
        "result"@ != "method"@,
        "error"@ != "id"@,
        "error"@ != "method"@,
        "error"@ != "params"@,
        "error"@ != "result"@,
        is_unescaped(key_id()),
        is_unescaped(key_method()),
        is_unescaped(key_params()),
        is_unescaped(key_result()),
        is_unescaped(key_error()),
{
    reveal_strlit("id");
    reveal_strlit("method");
    reveal_strlit("params");
    reveal_strlit("result");
    reveal_strlit("error");
    assert(chars(key_id()) =~= "id"@);
    assert(chars(key_method()) =~= "method"@);
    assert(chars(key_params()) =~= "params"@);
    assert(chars(key_result()) =~= "result"@);
    assert(chars(key_error()) =~= "error"@);
    assert("id"@.len() == 2 && "error"@.len() == 5 && "method"@.len() == 6);
    assert("method"@[0] == 'm' && "params"@[0] == 'p' && "result"@[0] == 'r');
}

proof fn lemma_id_member(b: Seq<u8>, i: int, id: u64, d: Seq<u8>, end: u8, m: MsgView)
    requires
        begins(b, i, member(key_id(), d, end)),
        are_digits(d),
        digits_value(d) == id,
        end == 44 || end == 125,
    ensures
        read_from(b, i, m) == read_behind(
            b,
            i + 6 + d.len(),
            end,
            (MsgView { id: Some(id), ..m }),
        ),
{
    lemma_keys();
    lemma_member_stands(b, i, key_id(), d, end);
    assert(is_digit(d[0]));
    lemma_begins(b, i + 5, d, 0);
    law_a_number_is_read_to_its_last_digit(b, i + 5, d);
    lemma_member(b, i, key_id(), d, end, m, (MsgView { id: Some(id), ..m }));
}

proof fn lemma_method_member(b: Seq<u8>, i: int, method: Seq<u8>, end: u8, m: MsgView)
    requires
        begins(b, i, member(key_method(), quoted(method), end)),
        is_unescaped(method),
        end == 44 || end == 125,
    ensures
        read_from(b, i, m) == read_behind(
            b,
            i + 12 + method.len(),
            end,
            (MsgView { method: Some(chars(method)), ..m }),
        ),
{
    lemma_keys();
    lemma_member_stands(b, i, key_method(), quoted(method), end);
    law_a_string_is_read_to_its_quote(b, i + 9, method);
    lemma_member(
        b,
        i,
        key_method(),
        quoted(method),
        end,
        m,
        (MsgView { method: Some(chars(method)), ..m }),
    );
}

/// An array as it is written.
pub open spec fn array_text(ts: Seq<Seq<u8>>) -> Seq<u8> {
    seq![91u8] + with_commas(ts) + seq![93u8]
}

proof fn lemma_params_member(
    b: Seq<u8>,
    i: int,
    args: Seq<Arg>,
    ts: Seq<Seq<u8>>,
    end: u8,
    m: MsgView,
)
    requires
        begins(b, i, member(key_params(), array_text(ts), end)),
        are_written(args, ts),
        end == 44 || end == 125,
    ensures
        read_from(b, i, m) == read_behind(
            b,
            i + 10 + array_text(ts).len(),
            end,
            (MsgView { args, ..m }),
        ),
{
    lemma_keys();
    let v = array_text(ts);
    lemma_member_stands(b, i, key_params(), v, end);
    law_an_array_is_read(b, i + 9, args, ts);
    lemma_begins(b, i + 9, v, 0);
    lemma_member(b, i, key_params(), v, end, m, (MsgView { args, ..m }));
}

/// How the result of a reply is written: true, false or nothing.
pub open spec fn is_result(r: Option<bool>, t: Seq<u8>) -> bool {
    match r {
        Some(true) => t == seq![116u8, 114u8, 117u8, 101u8],
        Some(false) => t == seq![102u8, 97u8, 108u8, 115u8, 101u8],
        None => t == seq![110u8, 117u8, 108u8, 108u8],
    }
}

proof fn lemma_result_member(
    b: Seq<u8>,
    i: int,
    r: Option<bool>,
    t: Seq<u8>,
    end: u8,
    m: MsgView,
)
    requires
        begins(b, i, member(key_result(), t, end)),
        is_result(r, t),
        !m.result_true,
        !m.result_false,
        end == 44 || end == 125,
    ensures
        read_from(b, i, m) == read_behind(
            b,
            i + 10 + t.len(),
            end,
            (MsgView { result_true: r == Some(true), result_false: r == Some(false), ..m }),
        ),
{
    lemma_keys();
    lemma_member_stands(b, i, key_result(), t, end);
    lemma_begins(b, i + 9, t, 0);
    lemma_member(
        b,
        i,
        key_result(),
        t,
        end,
        m,
        (MsgView { result_true: r == Some(true), result_false: r == Some(false), ..m }),
    );
}

proof fn lemma_no_error_member(b: Seq<u8>, i: int, end: u8, m: MsgView)
    requires
        begins(b, i, member(key_error(), word_null(), end)),
        end == 44 || end == 125,
    ensures
        read_from(b, i, m) == read_behind(b, i + 13, end, m),
{
    lemma_keys();
    lemma_member_stands(b, i, key_error(), word_null(), end);
    lemma_begins(b, i + 8, word_null(), 0);
    lemma_member(b, i, key_error(), word_null(), end, m, m);
}

proof fn lemma_error_member(
    b: Seq<u8>,
    i: int,
    code: u64,
    c: Seq<u8>,
    text: Seq<u8>,
    end: u8,
    m: MsgView,
)
    requires
        begins(b, i, member(key_error(), array_text(seq![c, quoted(text)]), end)),
        are_digits(c),
        digits_value(c) == code,
        is_unescaped(text),
        end == 44 || end == 125,
    ensures
        read_from(b, i, m) == read_behind(
            b,
            i + 9 + array_text(seq![c, quoted(text)]).len(),
            end,
            (MsgView {
                is_error: true,
                error_code: Some(code),
                error_msg: Some(chars(text)),
                ..m
            }),
        ),
{
    lemma_keys();
    let ts = seq![c, quoted(text)];
    let args = seq![Arg::Num(code), Arg::Str(chars(text))];
    let v = array_text(ts);
    lemma_member_stands(b, i, key_error(), v, end);
    assert(quoted(text).subrange(1, quoted(text).len() - 1) =~= text);
    assert(is_written(args[0], ts[0]));
    assert(is_written(args[1], ts[1]));
    assert(are_written(args, ts));
    law_an_array_is_read(b, i + 8, args, ts);
    lemma_begins(b, i + 8, v, 0);
    lemma_member(
        b,
        i,
        key_error(),
        v,
        end,
        m,
        (MsgView { is_error: true, error_code: Some(code), error_msg: Some(chars(text)), ..m }),
    );
}

proof fn lemma_two_members(x: Seq<u8>, y: Seq<u8>)
    requires
        x.len() > 0,
        x[0] == 34,
    ensures
        ({
            let b = seq![123u8] + (x + y);
            &&& read_line(b) == read_from(b, 1, no_msg())
            &&& begins(b, 1, x)
            &&& begins(b, 1 + x.len() as int, y)
        }),
{
    let b = seq![123u8] + (x + y);
    lemma_first_member(x + y);
    assert(b.subrange(1, b.len() as int) =~= Seq::empty() + x + y);
    lemma_begins_part(b, 1, Seq::empty(), x, y);
}

proof fn lemma_a_push_is_read(method: Seq<u8>, args: Seq<Arg>, ts: Seq<Seq<u8>>)
    requires
        is_unescaped(method),
        are_written(args, ts),
    ensures
        read_line(
            seq![123u8] + (member(key_method(), quoted(method), 44) + member(
                key_params(),
                array_text(ts),
                125,
            )),
        ) == Some(MsgView { method: Some(chars(method)), args, ..no_msg() }),
{
    let first = member(key_method(), quoted(method), 44);
    let second = member(key_params(), array_text(ts), 125);
    let b = seq![123u8] + (first + second);
    lemma_member_len(key_method(), quoted(method), 44);
    lemma_two_members(first, second);
    lemma_method_member(b, 1, method, 44, no_msg());
    lemma_params_member(
        b,
        13 + method.len() as int,
        args,
        ts,
        125,
        (MsgView { method: Some(chars(method)), ..no_msg() }),
    );
}

/// A line that pushes a method with its arguments is read as that method and
/// those arguments, and answers nothing.
pub proof fn law_a_push_is_read(method: Seq<u8>, args: Seq<Arg>, ts: Seq<Seq<u8>>)
    requires
        is_unescaped(method),
        are_written(args, ts),
    ensures
        message(
            seq![123u8] + (member(key_method(), quoted(method), 44) + member(
                key_params(),
                array_text(ts),
                125,
            )),
        ) == Some(MsgView { method: Some(chars(method)), args, ..no_msg() }),
{
    lemma_a_push_is_read(method, args, ts);
    reveal(read_line);
}

proof fn lemma_reply_tail(b: Seq<u8>, i: int, r: Option<bool>, t: Seq<u8>, m: MsgView)
    requires
        begins(b, i, member(key_result(), t, 44)),
        begins(b, i + 10 + t.len(), member(key_error(), word_null(), 125)),
        is_result(r, t),
        !m.result_true,
        !m.result_false,
    ensures
        read_from(b, i, m) == Some(
            MsgView { result_true: r == Some(true), result_false: r == Some(false), ..m },
        ),
{
    lemma_result_member(b, i, r, t, 44, m);
    let n = MsgView { result_true: r == Some(true), result_false: r == Some(false), ..m };
    lemma_no_error_member(b, i + 10 + t.len(), 125, n);
}

proof fn lemma_member_len(key: Seq<u8>, v: Seq<u8>, end: u8)
    ensures
        member(key, v, end).len() == key.len() + v.len() + 4,
        member(key, v, end)[0] == 34,
{
}

proof fn lemma_three_members(x: Seq<u8>, y: Seq<u8>, z: Seq<u8>)
    requires
        x.len() > 0,
        x[0] == 34,
    ensures
        ({
            let b = seq![123u8] + (x + y + z);
            &&& read_line(b) == read_from(b, 1, no_msg())
            &&& begins(b, 1, x)
            &&& begins(b, 1 + x.len() as int, y)
            &&& begins(b, 1 + (x.len() + y.len()) as int, z)
        }),
{
    let b = seq![123u8] + (x + y + z);
    lemma_first_member(x + y + z);
    assert(b.subrange(1, b.len() as int) =~= x + y + z);
    lemma_begins_part(b, 1, x, y, z);
}

proof fn lemma_a_reply_is_read(id: u64, d: Seq<u8>, r: Option<bool>, t: Seq<u8>)
    requires
        are_digits(d),
        digits_value(d) == id,
        is_result(r, t),
    ensures
        read_line(
            seq![123u8] + (member(key_id(), d, 44) + member(key_result(), t, 44) + member(
                key_error(),
                word_null(),
                125,
            )),
        ) == Some(
            MsgView {
                id: Some(id),
                result_true: r == Some(true),
                result_false: r == Some(false),
                ..no_msg()
            },
        ),
{
    let first = member(key_id(), d, 44);
    let second = member(key_result(), t, 44);
    let third = member(key_error(), word_null(), 125);
    let b = seq![123u8] + (first + second + third);
    lemma_member_len(key_id(), d, 44);
    lemma_member_len(key_result(), t, 44);
    lemma_three_members(first, second, third);
    lemma_id_member(b, 1, id, d, 44, no_msg());
    lemma_reply_tail(b, 7 + d.len() as int, r, t, (MsgView { id: Some(id), ..no_msg() }));
}

/// A reply without an error is read as the answer to its id, with what it says.
pub proof fn law_a_reply_is_read(id: u64, d: Seq<u8>, r: Option<bool>, t: Seq<u8>)
    requires
        are_digits(d),
        digits_value(d) == id,
        is_result(r, t),
    ensures
        message(
            seq![123u8] + (member(key_id(), d, 44) + member(key_result(), t, 44) + member(
                key_error(),
                word_null(),
                125,
            )),
        ) == Some(
            MsgView {
                id: Some(id),
                result_true: r == Some(true),
                result_false: r == Some(false),
                ..no_msg()
            },
        ),
{
    lemma_a_reply_is_read(id, d, r, t);
    reveal(read_line);
}

proof fn lemma_an_error_is_read(id: u64, d: Seq<u8>, code: u64, c: Seq<u8>, text: Seq<u8>)
    requires
        are_digits(d),
        digits_value(d) == id,
        are_digits(c),
        digits_value(c) == code,
        is_unescaped(text),
    ensures
        read_line(
            seq![123u8] + (member(key_id(), d, 44) + member(
                key_error(),
                array_text(seq![c, quoted(text)]),
                125,
            )),
        ) == Some(
            MsgView {
                id: Some(id),
                is_error: true,
                error_code: Some(code),
                error_msg: Some(chars(text)),
                ..no_msg()
            },
        ),
{
    let first = member(key_id(), d, 44);
    let second = member(key_error(), array_text(seq![c, quoted(text)]), 125);
    let b = seq![123u8] + (first + second);
    lemma_member_len(key_id(), d, 44);
    lemma_two_members(first, second);
    lemma_id_member(b, 1, id, d, 44, no_msg());
    let m = MsgView { id: Some(id), ..no_msg() };
    lemma_error_member(b, 7 + d.len() as int, code, c, text, 125, m);
}

/// A reply with an error is read as one, with the code and the text that it
/// gives.
pub proof fn law_an_error_is_read(id: u64, d: Seq<u8>, code: u64, c: Seq<u8>, text: Seq<u8>)
    requires
        are_digits(d),
        digits_value(d) == id,
        are_digits(c),
        digits_value(c) == code,
        is_unescaped(text),
    ensures
        message(
            seq![123u8] + (member(key_id(), d, 44) + member(
                key_error(),
                array_text(seq![c, quoted(text)]),
                125,
            )),
        ) == Some(
            MsgView {
                id: Some(id),
                is_error: true,
                error_code: Some(code),
                error_msg: Some(chars(text)),
                ..no_msg()
            },
        ),
{
    lemma_an_error_is_read(id, d, code, c, text);
    reveal(read_line);
}

/// White space before a value does not count, and nothing else is white space:
/// blanks, tabs, carriage returns and newlines.
pub proof fn law_white_space_is_passed_over(b: Seq<u8>, i: int)
    requires
        0 <= i <= b.len(),
    ensures
        i <= ws(b, i) <= b.len(),
        forall|k: int|
            i <= k < ws(b, i) ==> (#[trigger] b[k]) == 32 || b[k] == 9 || b[k] == 13 || b[k] == 10,
        ws(b, i) < b.len() ==> b[ws(b, i)] != 32 && b[ws(b, i)] != 9 && b[ws(b, i)] != 13 && b[ws(
            b,
            i,
        )] != 10,
    decreases b.len() - i,
{
    if i < b.len() && is_ws(b[i]) {
        law_white_space_is_passed_over(b, i + 1);
    }
}

// ---------------------------------------------------------------------------
// Lines

/// A line that has come in whole is handed out without its newline and the
/// carriage return before that, and what stands behind it is kept.
pub proof fn law_a_line_is_cut_at_its_newline(l: Seq<u8>, rest: Seq<u8>)
    requires
        forall|k: int| 0 <= k < l.len() ==> l[k] != 10,
    ensures
        has_line(l + seq![10u8] + rest),
        first_line(l + seq![10u8] + rest) == (if l.len() > 0 && l.last() == 13 {
            l.drop_last()
        } else {
            l
        }),
        after_line(l + seq![10u8] + rest) == rest,
        !has_line(l),
{
    let b = l + seq![10u8] + rest;
    lemma_newline(b, 0);
    lemma_newline(l, 0);
    assert(b[l.len() as int] == 10);
    let p = newline(b, 0);
    if p < l.len() {
        assert(b[p] == l[p]);
    }
    assert(p == l.len());
    assert(b.take(p) =~= l);
    assert(b.skip(p + 1) =~= rest);
    if l.len() > 0 {
        assert(b[p - 1] == l.last());
        assert(b.take(p - 1) =~= l.drop_last());
    }
}

/// No byte is lost: what was held and what came in is what is handed out, with
/// its line end, and what is held. Without a newline nothing is handed out, and
/// more bytes than the limit are refused.
pub proof fn law_no_byte_is_lost(x: &mut Lines, got: Got, r: Framed)
    requires
        call_ensures(Lines::next, (x, got), r),
    ensures
        ({
            let held = match got {
                Got::Bytes(c) => old(x)@ + c@,
                Got::NotYet => old(x)@,
            };
            &&& r is Line <==> held.contains(10)
            &&& r matches Framed::Line(l) ==> held == l@ + seq![10u8] + final(x)@ || held == l@
                + seq![13u8, 10u8] + final(x)@
            &&& r matches Framed::Line(l) ==> !l@.contains(10)
            &&& !(r is Line) ==> final(x)@ == held
            &&& r is Eof <==> !held.contains(10) && (got matches Got::Bytes(c) && c@.len() == 0)
            &&& r is TooLong <==> !held.contains(10) && (got matches Got::Bytes(c) && c@.len() > 0)
                && held.len() > old(x).limit()
        }),
{
    let held = match got {
        Got::Bytes(c) => old(x)@ + c@,
        Got::NotYet => old(x)@,
    };
    lemma_newline(held, 0);
    let p = newline(held, 0);
    if has_line(held) {
        assert(held[p] == 10);
        assert(held.contains(10));
        match r {
            Framed::Line(l) => {
                if p > 0 && held[p - 1] == 13 {
                    assert(held =~= l@ + seq![13u8, 10u8] + final(x)@);
                } else {
                    assert(held =~= l@ + seq![10u8] + final(x)@);
                }
                assert forall|k: int| 0 <= k < l@.len() implies l@[k] != 10 by {
                    assert(l@[k] == held[k]);
                }
            },
            _ => {},
        }
    } else {
        assert(!held.contains(10));
    }
}

} // verus!
