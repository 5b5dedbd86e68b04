//! A configuration document that has been read, and what is said of its
//! faults.

use vstd::prelude::*;
use crate::text;
use crate::text::{push_dec, same};

verus! {

/// One element of an array. Nothing reads what an array inside an array holds.
#[derive(Debug, Clone, PartialEq, Eq)]
pub enum Item {
    Str(String),
    Int(i64),
    Bool(bool),
    Arr,
}

/// The mathematical value of an `Item`.
pub enum ItemView {
    Str(Seq<char>),
    Int(i64),
    Bool(bool),
    Arr,
}

impl View for Item {
    type V = ItemView;

    open spec fn view(&self) -> ItemView {
        match self {
            Item::Str(s) => ItemView::Str(s@),
            Item::Int(n) => ItemView::Int(*n),
            Item::Bool(b) => ItemView::Bool(*b),
            Item::Arr => ItemView::Arr,
        }
    }
}

/// The value of a key.
#[derive(Debug, Clone, PartialEq, Eq)]
pub enum Value {
    Str(String),
    Int(i64),
    Bool(bool),
    Arr(Vec<Item>),
}

/// The mathematical value of a `Value`.
pub enum ValueView {
    Str(Seq<char>),
    Int(i64),
    Bool(bool),
    Arr(Seq<ItemView>),
}

pub open spec fn item_views(v: Seq<Item>) -> Seq<ItemView> {
    Seq::new(v.len(), |k: int| v[k]@)
}

impl View for Value {
    type V = ValueView;

    open spec fn view(&self) -> ValueView {
        match self {
            Value::Str(s) => ValueView::Str(s@),
            Value::Int(n) => ValueView::Int(*n),
            Value::Bool(b) => ValueView::Bool(*b),
            Value::Arr(v) => ValueView::Arr(item_views(v@)),
        }
    }
}

pub open spec fn item_type(v: ItemView) -> Seq<char> {
    match v {
        ItemView::Str(_) => "a string"@,
        ItemView::Int(_) => "an integer"@,
        ItemView::Bool(_) => "a boolean"@,
        ItemView::Arr => "an array"@,
    }
}

pub open spec fn value_type(v: ValueView) -> Seq<char> {
    match v {
        ValueView::Str(_) => "a string"@,
        ValueView::Int(_) => "an integer"@,
        ValueView::Bool(_) => "a boolean"@,
        ValueView::Arr(_) => "an array"@,
    }
}

impl Item {
    /// What a person calls a value of this type.
    pub fn kind(&self) -> (r: &'static str)
        ensures
            r@ == item_type(self@),
    {
        match self {
            Item::Str(_) => "a string",
            Item::Int(_) => "an integer",
            Item::Bool(_) => "a boolean",
            Item::Arr => "an array",
        }
    }
}

impl Value {
    /// What a person calls a value of this type.
    pub fn kind(&self) -> (r: &'static str)
        ensures
            r@ == value_type(self@),
    {
        match self {
            Value::Str(_) => "a string",
            Value::Int(_) => "an integer",
            Value::Bool(_) => "a boolean",
            Value::Arr(_) => "an array",
        }
    }
}

/// One `key = value` line, with the section it stands in and its place.
#[derive(Debug, Clone, PartialEq, Eq)]
pub struct Entry {
    pub section: String,
    pub key: String,
    pub value: Value,
    pub line: usize,
    pub col: usize,
}

/// The mathematical value of an `Entry`.
pub struct EntryView {
    pub section: Seq<char>,
    pub key: Seq<char>,
    pub value: ValueView,
    pub line: usize,
    pub col: usize,
}

impl View for Entry {
    type V = EntryView;

    open spec fn view(&self) -> EntryView {
        EntryView {
            section: self.section@,
            key: self.key@,
            value: self.value@,
            line: self.line,
            col: self.col,
        }
    }
}

/// The section headers and the entries of a document, in the order in which
/// they stand in it.
#[derive(Debug, Clone, PartialEq, Eq)]
pub struct Document {
    pub sections: Vec<(String, usize)>,
    pub entries: Vec<Entry>,
}

/// The mathematical value of a `Document`.
pub struct DocView {
    pub sections: Seq<(Seq<char>, usize)>,
    pub entries: Seq<EntryView>,
}

impl View for Document {
    type V = DocView;

    open spec fn view(&self) -> DocView {
        DocView {
            sections: Seq::new(
                self.sections@.len(),
                |k: int| (self.sections@[k].0@, self.sections@[k].1),
            ),
            entries: Seq::new(self.entries@.len(), |k: int| self.entries@[k]@),
        }
    }
}

/// The first index at or behind `i` whose entry is the one for `key` in
/// `section`, or the number of entries.
pub open spec fn place(es: Seq<EntryView>, section: Seq<char>, key: Seq<char>, i: int) -> int
    decreases es.len() - i,
{
    if i < 0 || i >= es.len() {
        es.len() as int
    } else if es[i].section == section && es[i].key == key {
        i
    } else {
        place(es, section, key, i + 1)
    }
}

/// The entry for `key` in `section`: the first one, if the document has any.
pub open spec fn entry(d: DocView, section: Seq<char>, key: Seq<char>) -> Option<EntryView> {
    let i = place(d.entries, section, key, 0);
    if 0 <= i < d.entries.len() {
        Some(d.entries[i])
    } else {
        None
    }
}

impl Document {
    /// The entry for `key` in `section`.
    pub fn get(&self, section: &str, key: &str) -> (r: Option<&Entry>)
        ensures
            r is Some <==> entry(self@, section@, key@) is Some,
            r matches Some(e) ==> entry(self@, section@, key@) == Some(e@),
    {
        let ghost es = self@.entries;
        let mut i: usize = 0;
        while i < self.entries.len()
            invariant
                i <= self.entries.len(),
                es == self@.entries,
                place(es, section@, key@, 0) == place(es, section@, key@, i as int),
            decreases self.entries.len() - i,
        {
            let e = &self.entries[i];
            assert(es[i as int] == e@);
            if same(e.section.as_str(), section) && same(e.key.as_str(), key) {
                return Some(e);
            }
            i += 1;
        }
        None
    }
}

/// What is wrong with a document, where, and what to do about it.
#[derive(Debug, Clone, PartialEq, Eq)]
pub struct Diagnostic {
    pub path: String,
    pub line: usize,
    pub col: usize,
    pub span: usize,
    pub message: String,
    pub line_text: String,
    pub help: Option<String>,
    pub note: Option<String>,
}

/// The mathematical value of a `Diagnostic`.
#[verifier::ext_equal]
pub struct Fault {
    pub path: Seq<char>,
    pub line: usize,
    pub col: usize,
    pub span: nat,
    pub message: Seq<char>,
    pub line_text: Seq<char>,
    pub help: Option<Seq<char>>,
    pub note: Option<Seq<char>>,
}

pub open spec fn text_view(s: Option<String>) -> Option<Seq<char>> {
    match s {
        Some(t) => Some(t@),
        None => None,
    }
}

impl View for Diagnostic {
    type V = Fault;

    open spec fn view(&self) -> Fault {
        Fault {
            path: self.path@,
            line: self.line,
            col: self.col,
            span: self.span as nat,
            message: self.message@,
            line_text: self.line_text@,
            help: text_view(self.help),
            note: text_view(self.note),
        }
    }
}

impl Fault {
    pub open spec fn helped(self, help: Seq<char>) -> Fault {
        Fault { help: Some(help), ..self }
    }

    pub open spec fn noted(self, note: Seq<char>) -> Fault {
        Fault { note: Some(note), ..self }
    }
}

/// A fault of the document as a whole.
pub open spec fn general(path: Seq<char>, message: Seq<char>) -> Fault {
    Fault {
        path,
        line: 0,
        col: 0,
        span: 0,
        message,
        line_text: Seq::empty(),
        help: None,
        note: None,
    }
}

/// A fault of one entry.
pub open spec fn at_entry(path: Seq<char>, e: EntryView, message: Seq<char>) -> Fault {
    Fault {
        path,
        line: e.line,
        col: e.col,
        span: e.key.len(),
        message,
        line_text: e.key + " = ..."@,
        help: None,
        note: None,
    }
}

/// A fault of the value of `key` in `section`: of its entry, where the
/// document has one.
pub open spec fn at(
    path: Seq<char>,
    d: DocView,
    section: Seq<char>,
    key: Seq<char>,
    message: Seq<char>,
) -> Fault {
    match entry(d, section, key) {
        Some(e) => at_entry(path, e, message),
        None => general(path, message),
    }
}

/// The number of characters of `s`.
pub fn count(s: &str) -> (n: usize)
    ensures
        n == s@.len(),
{
    text::to_chars(s).len()
}

impl Diagnostic {
    /// A fault of the document as a whole.
    pub fn general(path: &str, message: String) -> (d: Diagnostic)
        ensures
            d@ == general(path@, message@),
    {
        let d = Diagnostic {
            path: path.to_owned(),
            line: 0,
            col: 0,
            span: 0,
            message,
            line_text: String::new(),
            help: None,
            note: None,
        };
        assert(d@ =~= general(path@, message@));
        d
    }

    /// A fault of one entry.
    pub fn at_entry(path: &str, e: &Entry, message: String) -> (d: Diagnostic)
        ensures
            d@ == at_entry(path@, e@, message@),
    {
        let mut line_text = e.key.as_str().to_owned();
        line_text.append(" = ...");
        let d = Diagnostic {
            path: path.to_owned(),
            line: e.line,
            col: e.col,
            span: count(e.key.as_str()),
            message,
            line_text,
            help: None,
            note: None,
        };
        assert(d@ =~= at_entry(path@, e@, message@));
        d
    }

    /// A fault of the value of `key` in `section`.
    pub fn at(path: &str, doc: &Document, section: &str, key: &str, message: String) -> (d:
        Diagnostic)
        ensures
            d@ == at(path@, doc@, section@, key@, message@),
    {
        match doc.get(section, key) {
            Some(e) => Diagnostic::at_entry(path, e, message),
            None => Diagnostic::general(path, message),
        }
    }

    /// The same fault with a way out of it.
    pub fn with_help(self, help: &str) -> (d: Diagnostic)
        ensures
            d@ == self@.helped(help@),
    {
        let mut d = self;
        d.help = Some(help.to_owned());
        assert(d@ =~= self@.helped(help@));
        d
    }

    /// The same fault with the reason behind it.
    pub fn with_note(self, note: &str) -> (d: Diagnostic)
        ensures
            d@ == self@.noted(note@),
    {
        let mut d = self;
        d.note = Some(note.to_owned());
        assert(d@ =~= self@.noted(note@));
        d
    }
}

/// Where the fault is, on a line of its own.
pub open spec fn arrow(f: Fault) -> Seq<char> {
    if f.line == 0 {
        "\n  --> "@ + f.path
    } else {
        "\n  --> "@ + f.path + ":"@ + text::dec(f.line as nat) + ":"@ + text::dec(f.col as nat)
            + "\n   | "@ + f.line_text
    }
}

/// A line that begins with `head`, where there is anything to say.
pub open spec fn tail(head: Seq<char>, what: Option<Seq<char>>) -> Seq<char> {
    match what {
        Some(t) => head + t,
        None => Seq::empty(),
    }
}

/// The fault as a person reads it.
pub open spec fn rendered(f: Fault) -> Seq<char> {
    "error: "@ + f.message + arrow(f) + tail("\nhelp: "@, f.help) + tail("\nnote: "@, f.note)
}

fn tail_of(head: &str, what: &Option<String>) -> (t: String)
    ensures
        t@ == tail(head@, text_view(*what)),
{
    match what {
        Some(s) => {
            let mut t = head.to_owned();
            t.append(s.as_str());
            t
        },
        None => {
            let t = String::new();
            assert(t@ =~= Seq::<char>::empty());
            t
        },
    }
}

impl Diagnostic {
    fn arrow_of(&self) -> (t: String)
        ensures
            t@ == arrow(self@),
    {
        let mut t = "\n  --> ".to_owned();
        t.append(self.path.as_str());
        if self.line != 0 {
            t.append(":");
            push_dec(&mut t, self.line as u64);
            t.append(":");
            push_dec(&mut t, self.col as u64);
            t.append("\n   | ");
            t.append(self.line_text.as_str());
        }
        t
    }

    /// The fault as a person reads it.
    pub fn render(&self) -> (t: String)
        ensures
            t@ == rendered(self@),
    {
        let mut t = "error: ".to_owned();
        t.append(self.message.as_str());
        t.append(self.arrow_of().as_str());
        t.append(tail_of("\nhelp: ", &self.help).as_str());
        t.append(tail_of("\nnote: ", &self.note).as_str());
        t
    }
}

} // verus!
