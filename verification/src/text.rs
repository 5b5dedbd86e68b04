//! Text as sequences of characters: decimal numbers, pieces between
//! separators, trimming, and the comparisons that readers of text need.

use vstd::prelude::*;

verus! {

/// `String::push` puts one character at the end of the string.
pub assume_specification[ String::push ](s: &mut String, c: char)
    ensures
        final(s)@ == old(s)@.push(c),
;

// ---------------------------------------------------------------------------
// Characters and strings

/// The characters of `s`, in order.
pub fn to_chars(s: &str) -> (v: Vec<char>)
    ensures
        v@ == s@,
{
    let mut v: Vec<char> = Vec::new();
    for c in it: s.chars()
        invariant
            v@ == s@.take(it.index() as int),
            it.seq() == s@,
    {
        v.push(c);
        assert(s@.take(it.index() as int + 1) =~= s@.take(it.index() as int).push(c));
    }
    assert(s@.take(s@.len() as int) =~= s@);
    v
}

/// The string made of the characters of `v` from `lo` up to `hi`.
pub fn from_chars(v: &[char], lo: usize, hi: usize) -> (s: String)
    requires
        lo <= hi <= v.len(),
    ensures
        s@ == v@.subrange(lo as int, hi as int),
{
    let mut s = String::new();
    let mut i: usize = lo;
    while i < hi
        invariant
            lo <= i <= hi <= v.len(),
            s@ == v@.subrange(lo as int, i as int),
        decreases hi - i,
    {
        s.push(v[i]);
        i += 1;
        assert(v@.subrange(lo as int, i as int) =~= v@.subrange(lo as int, i - 1).push(v@[i - 1]));
    }
    s
}

/// The same bytes again.
pub fn copy_bytes(b: &Vec<u8>) -> (v: Vec<u8>)
    ensures
        v@ == b@,
{
    let mut v: Vec<u8> = Vec::new();
    let mut i: usize = 0;
    while i < b.len()
        invariant
            i <= b.len(),
            v@ == b@.take(i as int),
        decreases b.len() - i,
    {
        v.push(b[i]);
        i += 1;
        assert(b@.take(i as int) =~= b@.take(i - 1).push(b@[i - 1]));
    }
    assert(v@ =~= b@);
    v
}

/// Whether two strings hold the same characters.
pub fn same(a: &str, b: &str) -> (r: bool)
    ensures
        r == (a@ == b@),
{
    a.to_owned() == b.to_owned()
}

// ---------------------------------------------------------------------------
// Decimal numbers

/// The character of a decimal digit.
pub open spec fn digit(d: nat) -> char {
    (48 + d) as char
}

/// `n` in decimal, without leading zeros.
pub open spec fn dec(n: nat) -> Seq<char>
    decreases n,
{
    if n < 10 {
        seq![digit(n)]
    } else {
        dec(n / 10).push(digit(n % 10))
    }
}

/// Puts `n` in decimal at the end of `out`.
pub fn push_dec(out: &mut String, n: u64)
    ensures
        final(out)@ == old(out)@ + dec(n as nat),
    decreases n,
{
    if n >= 10 {
        push_dec(out, n / 10);
    }
    let d: u8 = (n % 10) as u8;
    out.push((48 + d) as char);
    assert(out@ =~= old(out)@ + dec(n as nat));
}

/// `n` in decimal.
pub fn dec_of(n: u64) -> (s: String)
    ensures
        s@ == dec(n as nat),
{
    let mut s = String::new();
    push_dec(&mut s, n);
    assert(s@ =~= dec(n as nat));
    s
}

/// `n` in decimal with at least `w` digits.
pub open spec fn dec_pad(n: nat, w: nat) -> Seq<char>
    decreases n, w,
{
    if n < 10 && w <= 1 {
        seq![digit(n)]
    } else {
        dec_pad(
            n / 10,
            if w == 0 {
                0
            } else {
                (w - 1) as nat
            },
        ).push(digit(n % 10))
    }
}

/// Puts `n` in decimal with at least `w` digits at the end of `out`.
pub fn push_dec_pad(out: &mut String, n: u64, w: u64)
    ensures
        final(out)@ == old(out)@ + dec_pad(n as nat, w as nat),
    decreases n, w,
{
    if n >= 10 || w > 1 {
        let v: u64 = if w == 0 {
            0
        } else {
            w - 1
        };
        push_dec_pad(out, n / 10, v);
    }
    let d: u8 = (n % 10) as u8;
    out.push((48 + d) as char);
    assert(out@ =~= old(out)@ + dec_pad(n as nat, w as nat));
}

/// The lower-case hexadecimal digit of a number below 16.
pub open spec fn hexit(n: nat) -> char {
    if n < 10 {
        (48 + n) as char
    } else {
        (87 + n) as char
    }
}

/// `n` in lower-case hexadecimal with at least `w` digits.
pub open spec fn hex_pad(n: nat, w: nat) -> Seq<char>
    decreases n, w,
{
    if n < 16 && w <= 1 {
        seq![hexit(n)]
    } else {
        hex_pad(
            n / 16,
            if w == 0 {
                0
            } else {
                (w - 1) as nat
            },
        ).push(hexit(n % 16))
    }
}

/// Puts `n` in lower-case hexadecimal with at least `w` digits at the end of
/// `out`.
pub fn push_hex_pad(out: &mut String, n: u64, w: u64)
    ensures
        final(out)@ == old(out)@ + hex_pad(n as nat, w as nat),
    decreases n, w,
{
    if n >= 16 || w > 1 {
        let v: u64 = if w == 0 {
            0
        } else {
            w - 1
        };
        push_hex_pad(out, n / 16, v);
    }
    let d: u8 = (n % 16) as u8;
    if d < 10 {
        out.push((48 + d) as char);
    } else {
        out.push((87 + d) as char);
    }
    assert(out@ =~= old(out)@ + hex_pad(n as nat, w as nat));
}

// ---------------------------------------------------------------------------
// Numbers read from text

/// The value of a digit in a base up to 16, if `c` is one.
pub open spec fn digit_value(c: char, base: nat) -> Option<nat> {
    let u = c as nat;
    let v = if 48 <= u <= 57 {
        (u - 48) as nat
    } else if 97 <= u <= 102 {
        (u - 87) as nat
    } else if 65 <= u <= 70 {
        (u - 55) as nat
    } else {
        99
    };
    if v < base {
        Some(v)
    } else {
        None
    }
}

/// Whether all of `s` are digits.
pub open spec fn all_digits(s: Seq<char>, base: nat) -> bool {
    forall|i: int| 0 <= i < s.len() ==> digit_value(#[trigger] s[i], base) is Some
}

/// The number that digits denote.
pub open spec fn digits_number(s: Seq<char>, base: nat) -> nat
    decreases s.len(),
{
    if s.len() == 0 {
        0
    } else {
        digits_number(s.drop_last(), base) * base + digit_value(s.last(), base)->Some_0
    }
}

/// `s` without a plus sign at its front.
pub open spec fn unsigned(s: Seq<char>) -> Seq<char> {
    if s.len() > 0 && s[0] == '+' {
        s.skip(1)
    } else {
        s
    }
}

/// The number that a text denotes, if it denotes one up to `max`: a plus sign
/// or none, then digits, at least one.
pub open spec fn number_in(s: Seq<char>, base: nat, max: nat) -> Option<nat> {
    let d = unsigned(s);
    if d.len() > 0 && all_digits(d, base) && digits_number(d, base) <= max {
        Some(digits_number(d, base))
    } else {
        None
    }
}

fn read_digit(c: char, base: u8) -> (r: Option<u8>)
    requires
        base <= 16,
    ensures
        r is Some <==> digit_value(c, base as nat) is Some,
        r matches Some(v) ==> v < base && digit_value(c, base as nat) == Some(v as nat),
{
    let u: u32 = c as u32;
    let v: u32 = if 48 <= u && u <= 57 {
        u - 48
    } else if 97 <= u && u <= 102 {
        u - 87
    } else if 65 <= u && u <= 70 {
        u - 55
    } else {
        99
    };
    if v < base as u32 {
        Some(v as u8)
    } else {
        None
    }
}

proof fn lemma_number_grows(s: Seq<char>, base: nat, k: int)
    requires
        0 <= k <= s.len(),
        base >= 1,
    ensures
        digits_number(s.take(k), base) <= digits_number(s, base),
    decreases s.len(),
{
    if k == s.len() {
        assert(s.take(k) =~= s);
    } else {
        assert(s.drop_last().take(k) =~= s.take(k));
        lemma_number_grows(s.drop_last(), base, k);
        assert(digits_number(s.drop_last(), base) * base >= digits_number(s.drop_last(), base))
            by (nonlinear_arith)
            requires
                base >= 1,
        ;
    }
}

/// The number that the characters of `v` from `lo` on denote, up to `max`.
fn read_digits(v: &[char], lo: usize, base: u8, max: u64) -> (r: Option<u64>)
    requires
        lo <= v.len(),
        2 <= base <= 16,
    ensures
        ({
            let d = v@.skip(lo as int);
            let ok = d.len() > 0 && all_digits(d, base as nat) && digits_number(d, base as nat)
                <= max;
            &&& r is Some <==> ok
            &&& r matches Some(n) ==> n == digits_number(d, base as nat)
        }),
{
    let ghost d = v@.skip(lo as int);
    let mut n: u64 = 0;
    let mut i: usize = lo;
    assert(d.take(0) =~= Seq::<char>::empty());
    while i < v.len()
        invariant
            lo <= i <= v.len(),
            2 <= base <= 16,
            d == v@.skip(lo as int),
            all_digits(d.take(i - lo), base as nat),
            n == digits_number(d.take(i - lo), base as nat),
            n <= max,
        decreases v.len() - i,
    {
        proof {
            assert(d[i - lo] == v@[i as int]);
            assert(d.take(i + 1 - lo).drop_last() =~= d.take(i - lo));
            lemma_number_grows(d, base as nat, i + 1 - lo);
        }
        match read_digit(v[i], base) {
            None => {
                return None;
            },
            Some(x) => {
                proof {
                    assert forall|k: int| 0 <= k < i + 1 - lo implies digit_value(
                        #[trigger] d.take(i + 1 - lo)[k],
                        base as nat,
                    ) is Some by {
                        if k < i - lo {
                            assert(d.take(i - lo)[k] == d.take(i + 1 - lo)[k]);
                        }
                    }
                }
                match n.checked_mul(base as u64) {
                    None => {
                        return None;
                    },
                    Some(t) => match t.checked_add(x as u64) {
                        None => {
                            return None;
                        },
                        Some(u) => {
                            if u > max {
                                return None;
                            }
                            n = u;
                        },
                    },
                }
            },
        }
        i += 1;
    }
    assert(d.take(i - lo) =~= d);
    if i == lo {
        None
    } else {
        Some(n)
    }
}

/// The number that the characters of `v` denote, if they denote one up to
/// `max`.
pub fn number_of(v: &[char], base: u8, max: u64) -> (r: Option<u64>)
    requires
        2 <= base <= 16,
    ensures
        r is Some <==> number_in(v@, base as nat, max as nat) is Some,
        r matches Some(n) ==> number_in(v@, base as nat, max as nat) == Some(n as nat),
{
    if v.len() > 0 && v[0] == '+' {
        read_digits(v, 1, base, max)
    } else {
        assert(v@.skip(0) =~= v@);
        read_digits(v, 0, base, max)
    }
}

/// The hexadecimal number of 32 bits that `s` denotes, if it denotes one.
pub fn hex_u32(s: &str) -> (r: Option<u32>)
    ensures
        r is Some <==> number_in(s@, 16, u32::MAX as nat) is Some,
        r matches Some(n) ==> number_in(s@, 16, u32::MAX as nat) == Some(n as nat),
{
    let v = to_chars(s);
    match number_of(&v, 16, u32::MAX as u64) {
        Some(n) => Some(n as u32),
        None => None,
    }
}

// ---------------------------------------------------------------------------
// Text that the standard library makes

/// What the debug format of a string is: the string in double quotes, with
/// what cannot be shown escaped.
pub uninterp spec fn debug_of(s: Seq<char>) -> Seq<char>;

/// `format!` with `{:?}` on a string. Its result is a function of the
/// characters alone; which of them are escaped is left to the name.
#[verifier::external_body]
pub(crate) fn debug_text(s: &str) -> (r: String)
    ensures
        r@ == debug_of(s@),
{
    format!("{:?}", s)
}

/// `std::str::from_utf8`: it accepts exactly the well-formed UTF-8, and gives
/// the string whose encoding the bytes are.
#[verifier::external_body]
pub(crate) fn from_utf8(b: &[u8]) -> (r: Option<String>)
    ensures
        r is Some <==> vstd::utf8::valid_utf8(b@),
        r matches Some(s) ==> vstd::utf8::encode_utf8(s@) == b@,
{
    match std::str::from_utf8(b) {
        Ok(s) => Some(s.to_owned()),
        Err(_) => None,
    }
}

// ---------------------------------------------------------------------------
// Places in a text

/// The first index at or behind `i` that holds `c`, or the length.
pub open spec fn index(s: Seq<char>, c: char, i: int) -> int
    decreases s.len() - i,
{
    if 0 <= i < s.len() && s[i] != c {
        index(s, c, i + 1)
    } else {
        i
    }
}

/// Whether `c` occurs in `s`.
pub open spec fn has(s: Seq<char>, c: char) -> bool {
    index(s, c, 0) < s.len()
}

/// What stands before the first `c`.
pub open spec fn before(s: Seq<char>, c: char) -> Seq<char> {
    s.take(index(s, c, 0))
}

/// What stands behind the first `c`.
pub open spec fn behind(s: Seq<char>, c: char) -> Seq<char> {
    s.skip(index(s, c, 0) + 1)
}

/// The last index that holds `c`, or -1.
pub open spec fn last_index(s: Seq<char>, c: char) -> int
    decreases s.len(),
{
    if s.len() == 0 {
        -1
    } else if s.last() == c {
        s.len() - 1
    } else {
        last_index(s.drop_last(), c)
    }
}

/// How often `c` occurs in `s`.
pub open spec fn occurs(s: Seq<char>, c: char) -> nat
    decreases s.len(),
{
    if s.len() == 0 {
        0
    } else {
        occurs(s.drop_last(), c) + (if s.last() == c {
            1nat
        } else {
            0nat
        })
    }
}

/// Whether `p` stands in `s` at index `i`.
pub open spec fn stands(s: Seq<char>, p: Seq<char>, i: int) -> bool {
    0 <= i && i + p.len() <= s.len() && s.subrange(i, i + p.len()) == p
}

/// The first index at or behind `i` where `p` stands, or the length.
pub open spec fn index_of(s: Seq<char>, p: Seq<char>, i: int) -> int
    decreases s.len() - i,
{
    if 0 <= i < s.len() && !stands(s, p, i) {
        index_of(s, p, i + 1)
    } else {
        i
    }
}

pub proof fn lemma_index(s: Seq<char>, c: char, i: int)
    requires
        0 <= i <= s.len(),
    ensures
        i <= index(s, c, i) <= s.len(),
        index(s, c, i) < s.len() ==> s[index(s, c, i)] == c,
        forall|k: int| i <= k < index(s, c, i) ==> s[k] != c,
    decreases s.len() - i,
{
    if i < s.len() && s[i] != c {
        lemma_index(s, c, i + 1);
    }
}

/// The first index at or behind `i` that holds `c`, or the length.
pub fn find(v: &[char], c: char, i: usize) -> (r: usize)
    requires
        i <= v.len(),
    ensures
        r == index(v@, c, i as int),
        i <= r <= v.len(),
        r < v.len() ==> v@[r as int] == c,
{
    let mut k: usize = i;
    while k < v.len() && v[k] != c
        invariant
            i <= k <= v.len(),
            index(v@, c, i as int) == index(v@, c, k as int),
        decreases v.len() - k,
    {
        k += 1;
    }
    k
}

/// The last index that holds `c`.
pub fn rfind(v: &[char], c: char) -> (r: Option<usize>)
    ensures
        r matches Some(k) ==> k == last_index(v@, c) && k < v.len(),
        r is None ==> last_index(v@, c) == -1,
{
    let mut k: usize = v.len();
    assert(v@.take(k as int) =~= v@);
    while k > 0
        invariant
            k <= v.len(),
            last_index(v@, c) == last_index(v@.take(k as int), c),
        decreases k,
    {
        assert(v@.take(k as int).drop_last() =~= v@.take(k - 1));
        if v[k - 1] == c {
            return Some(k - 1);
        }
        k -= 1;
    }
    None
}

/// How often `c` occurs.
pub fn count_char(v: &[char], c: char) -> (n: usize)
    ensures
        n == occurs(v@, c),
{
    let mut n: usize = 0;
    let mut k: usize = 0;
    assert(v@.take(0) =~= Seq::<char>::empty());
    while k < v.len()
        invariant
            k <= v.len(),
            n == occurs(v@.take(k as int), c),
            n <= k,
        decreases v.len() - k,
    {
        assert(v@.take(k + 1).drop_last() =~= v@.take(k as int));
        if v[k] == c {
            n += 1;
        }
        k += 1;
    }
    assert(v@.take(k as int) =~= v@);
    n
}

/// Whether `p` stands at index `i`.
pub fn stands_at(v: &[char], p: &str, i: usize) -> (r: bool)
    ensures
        r == stands(v@, p@, i as int),
{
    let w = to_chars(p);
    if i > v.len() || v.len() - i < w.len() {
        return false;
    }
    let mut k: usize = 0;
    while k < w.len()
        invariant
            i + w.len() <= v.len(),
            k <= w.len(),
            w@ == p@,
            forall|x: int| 0 <= x < k ==> v@[i + x] == w@[x],
        decreases w.len() - k,
    {
        if v[i + k] != w[k] {
            assert(v@.subrange(i as int, i + w.len())[k as int] != w@[k as int]);
            return false;
        }
        k += 1;
    }
    assert(v@.subrange(i as int, i + w.len()) =~= w@);
    true
}

/// The first index where `p` stands, or the length.
pub fn find_str(v: &[char], p: &str) -> (r: usize)
    ensures
        r == index_of(v@, p@, 0),
        r <= v.len(),
        r < v.len() ==> stands(v@, p@, r as int),
{
    let mut k: usize = 0;
    while k < v.len()
        invariant
            k <= v.len(),
            index_of(v@, p@, 0) == index_of(v@, p@, k as int),
        decreases v.len() - k,
    {
        if stands_at(v, p, k) {
            return k;
        }
        k += 1;
    }
    k
}

/// The characters from `lo` up to `hi`.
pub fn part(v: &[char], lo: usize, hi: usize) -> (r: Vec<char>)
    requires
        lo <= hi <= v.len(),
    ensures
        r@ == v@.subrange(lo as int, hi as int),
{
    let mut r: Vec<char> = Vec::new();
    let mut k: usize = lo;
    while k < hi
        invariant
            lo <= k <= hi <= v.len(),
            r@ == v@.subrange(lo as int, k as int),
        decreases hi - k,
    {
        r.push(v[k]);
        k += 1;
        assert(r@ =~= v@.subrange(lo as int, k as int));
    }
    r
}

/// The string of `v`.
pub fn string_of(v: &[char]) -> (s: String)
    ensures
        s@ == v@,
{
    let s = from_chars(v, 0, v.len());
    assert(s@ =~= v@);
    s
}

/// Whether `v` holds the characters of `p`.
pub fn is_text(v: &[char], p: &str) -> (r: bool)
    ensures
        r == (v@ == p@),
{
    let s = string_of(v);
    same(&s, p)
}

// ---------------------------------------------------------------------------
// White space and case

/// The characters with the Unicode property `White_Space`.
pub open spec fn is_white(c: char) -> bool {
    let u = c as u32;
    ||| 9 <= u <= 13
    ||| u == 0x20
    ||| u == 0x85
    ||| u == 0xA0
    ||| u == 0x1680
    ||| 0x2000 <= u <= 0x200A
    ||| u == 0x2028
    ||| u == 0x2029
    ||| u == 0x202F
    ||| u == 0x205F
    ||| u == 0x3000
}

pub fn white(c: char) -> (r: bool)
    ensures
        r == is_white(c),
{
    let u: u32 = c as u32;
    (9 <= u && u <= 13) || u == 0x20 || u == 0x85 || u == 0xA0 || u == 0x1680 || (0x2000 <= u && u
        <= 0x200A) || u == 0x2028 || u == 0x2029 || u == 0x202F || u == 0x205F || u == 0x3000
}

/// The first index at or behind `i` that holds no white space.
pub open spec fn white_end(s: Seq<char>, i: int) -> int
    decreases s.len() - i,
{
    if 0 <= i < s.len() && is_white(s[i]) {
        white_end(s, i + 1)
    } else {
        i
    }
}

/// `s` without the white space at its end.
pub open spec fn trim_end(s: Seq<char>) -> Seq<char>
    decreases s.len(),
{
    if s.len() > 0 && is_white(s.last()) {
        trim_end(s.drop_last())
    } else {
        s
    }
}

/// `s` without the white space at its two ends.
pub open spec fn trimmed(s: Seq<char>) -> Seq<char> {
    trim_end(s.skip(white_end(s, 0)))
}

/// `v` without the white space at its two ends.
pub fn trim(v: &[char]) -> (r: Vec<char>)
    ensures
        r@ == trimmed(v@),
{
    let mut lo: usize = 0;
    while lo < v.len() && white(v[lo])
        invariant
            lo <= v.len(),
            white_end(v@, 0) == white_end(v@, lo as int),
        decreases v.len() - lo,
    {
        lo += 1;
    }
    let mut hi: usize = v.len();
    let ghost s = v@.skip(lo as int);
    assert(v@.subrange(lo as int, hi as int) =~= s);
    while hi > lo && white(v[hi - 1])
        invariant
            lo <= hi <= v.len(),
            s == v@.skip(lo as int),
            trim_end(s) == trim_end(v@.subrange(lo as int, hi as int)),
        decreases hi,
    {
        assert(v@.subrange(lo as int, hi as int).drop_last() =~= v@.subrange(lo as int, hi - 1));
        hi -= 1;
    }
    assert(lo < hi ==> v@.subrange(lo as int, hi as int).last() == v@[hi - 1]);
    part(v, lo, hi)
}

/// The lower-case letter of an ASCII capital; any other character itself.
pub open spec fn lower_char(c: char) -> char {
    if 65 <= c as u32 <= 90 {
        (c as u32 + 32) as char
    } else {
        c
    }
}

/// `s` with its ASCII capitals in lower case.
pub open spec fn lower(s: Seq<char>) -> Seq<char> {
    Seq::new(s.len(), |i: int| lower_char(s[i]))
}

/// `v` with its ASCII capitals in lower case.
pub fn to_lower(v: &[char]) -> (r: Vec<char>)
    ensures
        r@ == lower(v@),
{
    let mut r: Vec<char> = Vec::new();
    let mut k: usize = 0;
    while k < v.len()
        invariant
            k <= v.len(),
            r@ == lower(v@.take(k as int)),
        decreases v.len() - k,
    {
        let u: u32 = v[k] as u32;
        if 65 <= u && u <= 90 {
            r.push((u as u8 + 32) as char);
        } else {
            r.push(v[k]);
        }
        k += 1;
        assert(r@ =~= lower(v@.take(k as int)));
    }
    assert(v@.take(k as int) =~= v@);
    r
}

// ---------------------------------------------------------------------------
// Pieces

/// The pieces of `s` between the separators, from index `i` on: one more than
/// there are separators.
pub open spec fn pieces_from(s: Seq<char>, c: char, i: int) -> Seq<Seq<char>>
    decreases s.len() - i,
{
    if i < 0 || i > s.len() {
        Seq::empty()
    } else {
        let j = index(s, c, i);
        proof {
            lemma_index(s, c, i);
        }
        if j < s.len() {
            seq![s.subrange(i, j)] + pieces_from(s, c, j + 1)
        } else {
            seq![s.subrange(i, j)]
        }
    }
}

/// The pieces of `s` between the separators.
pub open spec fn pieces(s: Seq<char>, c: char) -> Seq<Seq<char>> {
    pieces_from(s, c, 0)
}

pub open spec fn views(v: Seq<Vec<char>>) -> Seq<Seq<char>> {
    Seq::new(v.len(), |k: int| v[k]@)
}

/// The pieces of `v` between the separators.
pub fn split(v: &[char], c: char) -> (r: Vec<Vec<char>>)
    ensures
        views(r@) == pieces(v@, c),
        r@.len() >= 1,
{
    let mut r: Vec<Vec<char>> = Vec::new();
    let mut i: usize = 0;
    assert(views(r@) + pieces_from(v@, c, 0) =~= pieces(v@, c));
    loop
        invariant
            i <= v.len(),
            views(r@) + pieces_from(v@, c, i as int) == pieces(v@, c),
        decreases v.len() - i,
    {
        let ghost was = views(r@);
        let j: usize = find(v, c, i);
        let p = part(v, i, j);
        r.push(p);
        assert(views(r@) =~= was.push(p@));
        if j >= v.len() {
            assert(views(r@) =~= pieces(v@, c));
            return r;
        }
        assert(was + (seq![p@] + pieces_from(v@, c, j + 1)) =~= views(r@) + pieces_from(
            v@,
            c,
            j + 1,
        ));
        i = j + 1;
    }
}

// ---------------------------------------------------------------------------
// Facts about decimal text and pieces

/// Decimal text is digits only, at least one, and denotes its number.
pub proof fn lemma_dec(n: nat)
    ensures
        dec(n).len() > 0,
        forall|i: int| 0 <= i < dec(n).len() ==> 48 <= #[trigger] dec(n)[i] as u32 <= 57,
        all_digits(dec(n), 10),
        digits_number(dec(n), 10) == n,
    decreases n,
{
    if n >= 10 {
        lemma_dec(n / 10);
        assert(dec(n).drop_last() =~= dec(n / 10));
        assert forall|i: int| 0 <= i < dec(n).len() implies 48 <= #[trigger] dec(n)[i] as u32
            <= 57 by {
            if i < dec(n / 10).len() {
                assert(dec(n)[i] == dec(n / 10)[i]);
            }
        }
    } else {
        assert(dec(n).drop_last() =~= Seq::empty());
        assert(digits_number(Seq::<char>::empty(), 10) == 0);
    }
    assert forall|i: int| 0 <= i < dec(n).len() implies digit_value(
        #[trigger] dec(n)[i],
        10,
    ) is Some by {
        assert(48 <= dec(n)[i] as u32 <= 57);
    }
}

/// A number read from its decimal text is the number.
pub proof fn lemma_dec_reads_back(n: nat, max: nat)
    requires
        n <= max,
    ensures
        number_in(dec(n), 10, max) == Some(n),
{
    lemma_dec(n);
    assert(48 <= dec(n)[0] as u32 <= 57);
    assert(dec(n)[0] != '+');
}

/// A text that neither begins nor ends with white space is trimmed already.
pub proof fn lemma_trimmed(s: Seq<char>)
    requires
        s.len() > 0,
        !is_white(s[0]),
        !is_white(s.last()),
    ensures
        trimmed(s) == s,
{
    assert(s.skip(0) =~= s);
}

/// Looking from index `i` on is looking in what stands from `i` on.
pub proof fn lemma_index_skip(s: Seq<char>, c: char, i: int, k: int)
    requires
        0 <= i <= s.len(),
        0 <= k <= s.len() - i,
    ensures
        index(s, c, i + k) == i + index(s.skip(i), c, k),
    decreases s.len() - i - k,
{
    if i + k < s.len() && s[i + k] != c {
        lemma_index_skip(s, c, i, k + 1);
    }
}

pub proof fn lemma_pieces_skip(s: Seq<char>, c: char, i: int, k: int)
    requires
        0 <= i <= s.len(),
        0 <= k <= s.len() - i,
    ensures
        pieces_from(s, c, i + k) == pieces_from(s.skip(i), c, k),
    decreases s.len() - i - k,
{
    lemma_index_skip(s, c, i, k);
    lemma_index(s, c, i + k);
    let j = index(s, c, i + k);
    assert(s.subrange(i + k, j) =~= s.skip(i).subrange(k, j - i));
    if j < s.len() {
        lemma_pieces_skip(s, c, i, j - i + 1);
    }
}

/// Where `c` does not occur in `a`, it is first met in `a + b` as in `b`.
pub proof fn lemma_index_behind(a: Seq<char>, b: Seq<char>, c: char, i: int)
    requires
        0 <= i <= a.len(),
        forall|k: int| 0 <= k < a.len() ==> a[k] != c,
    ensures
        index(a + b, c, i) == a.len() + index(b, c, 0),
    decreases a.len() - i,
{
    if i < a.len() {
        assert((a + b)[i] == a[i]);
        lemma_index_behind(a, b, c, i + 1);
    } else {
        lemma_index_skip(a + b, c, i, 0);
        assert((a + b).skip(i) =~= b);
    }
}

/// The pieces of `a`, a separator and `b` are `a` and the pieces of `b`.
pub proof fn lemma_pieces_head(a: Seq<char>, b: Seq<char>, c: char)
    requires
        forall|k: int| 0 <= k < a.len() ==> a[k] != c,
    ensures
        pieces(a + seq![c] + b, c) == seq![a] + pieces(b, c),
        pieces(a, c) == seq![a],
{
    let s = a + seq![c] + b;
    assert(s =~= a + (seq![c] + b));
    lemma_index_behind(a, seq![c] + b, c, 0);
    assert((seq![c] + b)[0] == c);
    assert(s.subrange(0, a.len() as int) =~= a);
    let n = a.len() as int + 1;
    lemma_pieces_skip(s, c, n, 0);
    assert(s.skip(n) =~= b);
    lemma_index_behind(a, Seq::empty(), c, 0);
    assert(a + Seq::<char>::empty() =~= a);
    assert(a.subrange(0, a.len() as int) =~= a);
}

// ---------------------------------------------------------------------------
// What the functions on text keep

/// Trimming cuts white space at the two ends and nothing else.
pub proof fn law_trim_cuts_only_white_ends(s: Seq<char>) -> (r: (int, int))
    ensures
        0 <= r.0 <= r.1 <= s.len(),
        trimmed(s) == s.subrange(r.0, r.1),
        forall|k: int| 0 <= k < r.0 ==> is_white(#[trigger] s[k]),
        forall|k: int| r.1 <= k < s.len() ==> is_white(#[trigger] s[k]),
        r.0 < r.1 ==> !is_white(s[r.0]) && !is_white(s[r.1 - 1]),
{
    let a = lemma_white_end(s, 0);
    let t = s.skip(a);
    let n = lemma_trim_end(t);
    assert(t.take(n) =~= s.subrange(a, a + n));
    assert forall|k: int| a + n <= k < s.len() implies is_white(#[trigger] s[k]) by {
        assert(t[k - a] == s[k]);
    }
    if n > 0 {
        assert(t[n - 1] == s[a + n - 1]);
        if a == s.len() {
            assert(t.len() == 0);
        }
    }
    (a, a + n)
}

proof fn lemma_white_end(s: Seq<char>, i: int) -> (r: int)
    requires
        0 <= i <= s.len(),
    ensures
        r == white_end(s, i),
        i <= r <= s.len(),
        forall|k: int| i <= k < r ==> is_white(#[trigger] s[k]),
        r < s.len() ==> !is_white(s[r]),
    decreases s.len() - i,
{
    if i < s.len() && is_white(s[i]) {
        lemma_white_end(s, i + 1)
    } else {
        i
    }
}

proof fn lemma_trim_end(s: Seq<char>) -> (n: int)
    ensures
        0 <= n <= s.len(),
        trim_end(s) == s.take(n),
        forall|k: int| n <= k < s.len() ==> is_white(#[trigger] s[k]),
        n > 0 ==> !is_white(s[n - 1]),
    decreases s.len(),
{
    if s.len() > 0 && is_white(s.last()) {
        let n = lemma_trim_end(s.drop_last());
        assert(s.drop_last().take(n) =~= s.take(n));
        assert forall|k: int| n <= k < s.len() implies is_white(#[trigger] s[k]) by {
            if k < s.len() - 1 {
                assert(s.drop_last()[k] == s[k]);
            }
        }
        n
    } else {
        assert(s.take(s.len() as int) =~= s);
        s.len() as int
    }
}

/// A text that holds anything but white space is not trimmed to nothing.
pub proof fn lemma_trimmed_holds(s: Seq<char>, k: int)
    requires
        0 <= k < s.len(),
        !is_white(s[k]),
    ensures
        trimmed(s).len() > 0,
{
    let r = law_trim_cuts_only_white_ends(s);
    assert(r.0 <= k < r.1);
}

/// The digits up to nine count from `0`, those above from `a` or `A`.
pub proof fn law_digits_have_their_values(k: nat, base: nat)
    requires
        k < base <= 16,
    ensures
        k < 10 ==> digit_value((48 + k) as char, base) == Some(k),
        k >= 10 ==> digit_value((87 + k) as char, base) == Some(k),
        k >= 10 ==> digit_value((55 + k) as char, base) == Some(k),
        hexit(k) == (if k < 10 {
            (48 + k) as char
        } else {
            (87 + k) as char
        }),
{
}

/// A number is read from its digits place by place: one more digit behind makes
/// `base` times as much and the digit.
pub proof fn law_a_digit_more_is_a_place_more(s: Seq<char>, c: char, base: nat, max: nat)
    requires
        s.len() > 0,
        s[0] != '+',
    ensures
        number_in(s.push(c), base, max) == (match (number_in(s, base, max), digit_value(c, base)) {
            (Some(n), Some(d)) => if n * base + d <= max {
                Some((n * base + d) as nat)
            } else {
                None
            },
            _ => None,
        }) || base == 0,
        number_in(seq!['+'] + s, base, max) == number_in(s, base, max),
        number_in(seq![c], base, max) == (match digit_value(c, base) {
            Some(d) => if d <= max {
                Some(d)
            } else {
                None
            },
            None => None,
        }) || c == '+',
{
    let t = s.push(c);
    assert(t.drop_last() =~= s);
    assert((seq!['+'] + s).skip(1) =~= s);
    let one = seq![c];
    assert(one.drop_last() =~= Seq::empty());
    assert(digits_number(Seq::<char>::empty(), base) == 0);
    assert(all_digits(t, base) <==> all_digits(s, base) && digit_value(c, base) is Some) by {
        if all_digits(t, base) {
            assert forall|i: int| 0 <= i < s.len() implies digit_value(
                #[trigger] s[i],
                base,
            ) is Some by {
                assert(digit_value(t[i], base) is Some);
            }
            assert(digit_value(t[s.len() as int], base) is Some);
        }
        if all_digits(s, base) && digit_value(c, base) is Some {
            assert forall|i: int| 0 <= i < t.len() implies digit_value(
                #[trigger] t[i],
                base,
            ) is Some by {
                if i < s.len() {
                    assert(digit_value(s[i], base) is Some);
                }
            }
        }
    }
    assert(all_digits(one, base) <==> digit_value(c, base) is Some) by {
        assert(one[0] == c);
    }
    let n = digits_number(s, base);
    assert(base > 0 ==> n <= n * base) by (nonlinear_arith);
    assert(0 * base == 0);
}

/// A number in hexadecimal has at least as many digits as it is padded to, and is
/// read back.
pub proof fn law_padded_hex_reads_back(n: nat, w: nat, max: nat)
    requires
        n <= max,
    ensures
        hex_pad(n, w).len() >= w,
        hex_pad(n, w).len() > w && w >= 1 ==> hex_pad(n, w)[0] != '0',
        number_in(hex_pad(n, w), 16, max) == Some(n),
{
    lemma_hex_pad(n, w);
    assert(digit_value(hex_pad(n, w)[0], 16) is Some);
}

proof fn lemma_hex_pad(n: nat, w: nat)
    ensures
        hex_pad(n, w).len() >= w,
        hex_pad(n, w).len() >= 1,
        n > 0 && (hex_pad(n, w).len() > w || w == 0) ==> hex_pad(n, w)[0] != '0',
        n == 0 ==> hex_pad(n, w).len() == (if w == 0 {
            1
        } else {
            w
        }),
        all_digits(hex_pad(n, w), 16),
        digits_number(hex_pad(n, w), 16) == n,
    decreases n, w,
{
    let t = hex_pad(n, w);
    if n < 16 && w <= 1 {
        assert(t.drop_last() =~= Seq::empty());
        assert(digits_number(Seq::<char>::empty(), 16) == 0);
    } else {
        let v = if w == 0 {
            0
        } else {
            (w - 1) as nat
        };
        lemma_hex_pad(n / 16, v);
        let h = hex_pad(n / 16, v);
        assert(t.drop_last() =~= h);
        assert(t[0] == h[0]);
        assert forall|i: int| 0 <= i < t.len() implies digit_value(#[trigger] t[i], 16) is Some by {
            if i < h.len() {
                assert(digit_value(h[i], 16) is Some);
            }
        }
    }
}

/// A number in decimal has no leading zero but zero itself, and is read back.
pub proof fn law_decimal_reads_back(n: nat, max: nat)
    requires
        n <= max,
    ensures
        number_in(dec(n), 10, max) == Some(n),
        n > 0 ==> dec(n)[0] != '0',
        n == 0 ==> dec(n) == seq!['0'],
{
    lemma_dec_reads_back(n, max);
    lemma_dec_head(n);
}

proof fn lemma_dec_head(n: nat)
    ensures
        dec(n).len() >= 1,
        n > 0 ==> dec(n)[0] != '0',
    decreases n,
{
    if n >= 10 {
        lemma_dec_head(n / 10);
    }
}

/// A padded number has at least as many digits as it is padded to, and denotes
/// its number.
pub proof fn law_padded_decimal_denotes_its_number(n: nat, w: nat)
    ensures
        dec_pad(n, w).len() >= w,
        all_digits(dec_pad(n, w), 10),
        digits_number(dec_pad(n, w), 10) == n,
        w <= dec(n).len() ==> dec_pad(n, w) == dec(n),
    decreases n, w,
{
    let t = dec_pad(n, w);
    if n < 10 && w <= 1 {
        assert(t.drop_last() =~= Seq::empty());
        assert(digits_number(Seq::<char>::empty(), 10) == 0);
    } else {
        let v = if w == 0 {
            0
        } else {
            (w - 1) as nat
        };
        law_padded_decimal_denotes_its_number(n / 10, v);
        let h = dec_pad(n / 10, v);
        assert(t.drop_last() =~= h);
        assert forall|i: int| 0 <= i < t.len() implies digit_value(#[trigger] t[i], 10) is Some by {
            if i < h.len() {
                assert(digit_value(h[i], 10) is Some);
            }
        }
    }
}

/// A text is searched from the front: where it is found it stands, and it stands
/// nowhere before.
pub proof fn law_a_text_is_found_where_it_first_stands(s: Seq<char>, p: Seq<char>, i: int)
    requires
        0 <= i <= s.len(),
    ensures
        i <= index_of(s, p, i) <= s.len(),
        index_of(s, p, i) < s.len() ==> stands(s, p, index_of(s, p, i)),
        forall|k: int| i <= k < index_of(s, p, i) ==> !stands(s, p, k),
    decreases s.len() - i,
{
    if i < s.len() && !stands(s, p, i) {
        law_a_text_is_found_where_it_first_stands(s, p, i + 1);
    }
}

/// A character is searched from the back: where it is found it stands, and it
/// stands nowhere behind.
pub proof fn law_a_character_is_found_where_it_last_stands(s: Seq<char>, c: char)
    ensures
        -1 <= last_index(s, c) < s.len(),
        last_index(s, c) >= 0 ==> s[last_index(s, c)] == c,
        forall|k: int| last_index(s, c) < k < s.len() ==> s[k] != c,
    decreases s.len(),
{
    if s.len() > 0 && s.last() != c {
        law_a_character_is_found_where_it_last_stands(s.drop_last(), c);
        assert forall|k: int| last_index(s, c) < k < s.len() implies s[k] != c by {
            if k < s.len() - 1 {
                assert(s.drop_last()[k] == s[k]);
            }
        }
    }
}

/// The pieces with the separators between them.
pub open spec fn rejoined(v: Seq<Seq<char>>, c: char) -> Seq<char>
    decreases v.len(),
{
    if v.len() == 0 {
        Seq::empty()
    } else if v.len() == 1 {
        v[0]
    } else {
        v[0] + seq![c] + rejoined(v.skip(1), c)
    }
}

/// Splitting loses nothing: no piece holds the separator, and the pieces with
/// separators between them are the text.
pub proof fn law_pieces_make_up_the_text(s: Seq<char>, c: char)
    ensures
        pieces(s, c).len() >= 1,
        rejoined(pieces(s, c), c) == s,
        forall|k: int, j: int|
            0 <= k < pieces(s, c).len() && 0 <= j < pieces(s, c)[k].len() ==> pieces(s, c)[k][j]
                != c,
{
    lemma_pieces_from(s, c, 0);
    assert(s.skip(0) =~= s);
}

proof fn lemma_pieces_from(s: Seq<char>, c: char, i: int)
    requires
        0 <= i <= s.len(),
    ensures
        pieces_from(s, c, i).len() >= 1,
        rejoined(pieces_from(s, c, i), c) == s.skip(i),
        forall|k: int, j: int|
            0 <= k < pieces_from(s, c, i).len() && 0 <= j < pieces_from(s, c, i)[k].len()
                ==> pieces_from(s, c, i)[k][j] != c,
    decreases s.len() - i,
{
    lemma_index(s, c, i);
    let j = index(s, c, i);
    let v = pieces_from(s, c, i);
    if j < s.len() {
        let w = pieces_from(s, c, j + 1);
        lemma_pieces_from(s, c, j + 1);
        assert(v.skip(1) =~= w);
        assert(v[0] == s.subrange(i, j));
        assert(s.subrange(i, j) + seq![c] + s.skip(j + 1) =~= s.skip(i));
        assert forall|k: int, m: int| 0 <= k < v.len() && 0 <= m < v[k].len() implies v[k][m]
            != c by {
            if k > 0 {
                assert(v[k] == w[k - 1]);
            }
        }
    } else {
        assert(s.subrange(i, j) =~= s.skip(i));
    }
}

/// Blanks, tabs and line ends are white space; no other character of ASCII that
/// is printed is.
pub proof fn law_only_blanks_are_white(c: char)
    ensures
        c == ' ' || c == '\t' || c == '\n' || c == '\r' ==> is_white(c),
        33 <= c as u32 <= 126 ==> !is_white(c),
        is_white(c) ==> c as u32 == 32 || 9 <= c as u32 <= 13 || c as u32 >= 0x85,
{
}

/// Lower case moves the capitals of ASCII to their letters and leaves every other
/// character, and twice is as once.
pub proof fn law_lower_case_moves_only_capitals(s: Seq<char>, i: int)
    requires
        0 <= i < s.len(),
    ensures
        lower(s).len() == s.len(),
        65 <= s[i] as u32 <= 90 ==> lower(s)[i] as u32 == s[i] as u32 + 32,
        (s[i] as u32) < 65 || s[i] as u32 > 90 ==> lower(s)[i] == s[i],
        lower(lower(s)) == lower(s),
{
    assert(lower(s)[i] == lower_char(s[i]));
    assert(lower(lower(s)) =~= lower(s)) by {
        assert forall|k: int| 0 <= k < s.len() implies lower(lower(s))[k] == lower(s)[k] by {
            assert(lower(s)[k] == lower_char(s[k]));
            assert(lower(lower(s))[k] == lower_char(lower(s)[k]));
        }
    }
}

} // verus!
