//! Text helpers: decimal numbers, comparison and searching of strings.
//!
//! Strings are modelled by their sequence of characters (`Seq<char>`).

use crate::seqs::distinct;
use vstd::prelude::*;
use vstd::string::*;

verus! {

/// `String::push` of std appends one character to the end of the string
/// and leaves the characters before it as they were.
pub assume_specification[ String::push ](s: &mut String, c: char)
    ensures
        final(s)@ == old(s)@.push(c),
;

/// The characters of `s`, in order.
pub fn chars_of(s: &str) -> (r: Vec<char>)
    ensures
        r@ == s@,
{
    let mut out: Vec<char> = Vec::new();
    for c in it: s.chars()
        invariant
            out@ == it.seq().take(it.index() as int),
            it.seq() == s@,
    {
        out.push(c);
    }
    out
}

/// The string made of the characters `v`.
pub fn string_of(v: &Vec<char>) -> (r: String)
    ensures
        r@ == v@,
{
    let mut out = String::new();
    let mut i: usize = 0;
    while i < v.len()
        invariant
            i <= v.len(),
            out@ == v@.take(i as int),
        decreases v.len() - i,
    {
        out.push(v[i]);
        i += 1;
    }
    out
}

/// Whether two string slices hold the same characters.
pub fn str_eq(a: &str, b: &str) -> (r: bool)
    ensures
        r == (a@ == b@),
{
    let x = a.to_owned();
    let y = b.to_owned();
    x == y
}

/// Whether two strings hold the same characters.
pub fn string_eq(a: &String, b: &String) -> (r: bool)
    ensures
        r == (a@ == b@),
{
    *a == *b
}

/// Whether one of `items` holds the characters of `x`.
pub fn holds_text(items: &Vec<String>, x: &String) -> (r: bool)
    ensures
        r == views(items@).contains(x@),
{
    let mut i: usize = 0;
    while i < items.len()
        invariant
            i <= items.len(),
            forall|j: int| 0 <= j < i ==> views(items@)[j] != x@,
        decreases items.len() - i,
    {
        if string_eq(&items[i], x) {
            assert(views(items@)[i as int] == x@);
            return true;
        }
        i += 1;
    }
    false
}

/// The strings without repetition, each at the place of its first
/// occurrence.
pub fn distinct_strings(items: &Vec<String>) -> (r: Vec<String>)
    ensures
        views(r@) == distinct(views(items@)),
{
    let mut out: Vec<String> = Vec::new();
    let mut i: usize = 0;
    proof {
        assert(views(items@).take(0) =~= Seq::<Seq<char>>::empty());
        assert(views(out@) =~= Seq::<Seq<char>>::empty());
    }
    while i < items.len()
        invariant
            i <= items.len(),
            views(out@) == distinct(views(items@).take(i as int)),
        decreases items.len() - i,
    {
        proof {
            let next = views(items@).take(i + 1);
            assert(next.drop_last() =~= views(items@).take(i as int));
            assert(next.last() == items@[i as int]@);
        }
        if !holds_text(&out, &items[i]) {
            let ghost before = views(out@);
            out.push(items[i].clone());
            proof {
                assert(views(out@) =~= before.push(items@[i as int]@));
            }
        }
        i += 1;
    }
    proof {
        assert(views(items@).take(i as int) =~= views(items@));
    }
    out
}

/// An owned copy of `s`.
pub fn owned(s: &str) -> (r: String)
    ensures
        r@ == s@,
{
    s.to_owned()
}

/// The code point of `c`.
pub fn char_code(c: char) -> (r: u32)
    ensures
        r as int == c as int,
{
    c as u32
}

// ---------------------------------------------------------------------
// Decimal numbers
// ---------------------------------------------------------------------

/// The character of the decimal digit `d`.
pub open spec fn digit_char(d: nat) -> char
    recommends
        d < 10,
{
    ((48 + d) as u8) as char
}

/// Whether `c` is one of `'0'..='9'`.
pub open spec fn is_digit(c: char) -> bool {
    48 <= c as int <= 57
}

/// The value of the decimal digit `c`.
pub open spec fn digit_value(c: char) -> nat
    recommends
        is_digit(c),
{
    (c as int - 48) as nat
}

/// The decimal representation of `n`, without leading zeros.
pub open spec fn decimal(n: nat) -> Seq<char>
    decreases n,
{
    if n < 10 {
        seq![digit_char(n)]
    } else {
        decimal(n / 10).push(digit_char(n % 10))
    }
}

/// The decimal representation of a signed number: a minus sign before
/// the digits of a negative one.
pub open spec fn decimal_signed(n: int) -> Seq<char> {
    if n < 0 {
        seq!['-'] + decimal((-n) as nat)
    } else {
        decimal(n as nat)
    }
}

/// Whether every character of `s` is a decimal digit.
pub open spec fn all_digits(s: Seq<char>) -> bool {
    forall|i: int| 0 <= i < s.len() ==> is_digit(#[trigger] s[i])
}

/// The number that a sequence of decimal digits denotes.
pub open spec fn digits_value(s: Seq<char>) -> nat
    decreases s.len(),
{
    if s.len() == 0 {
        0
    } else {
        digits_value(s.drop_last()) * 10 + digit_value(s.last())
    }
}

/// What parsing `s` as an unsigned 64-bit decimal number gives: an
/// optional `+`, then at least one digit and nothing else, with a
/// value that fits.
pub open spec fn parse_u64_spec(s: Seq<char>) -> Option<u64> {
    let body = if s.len() > 0 && s[0] == '+' {
        s.skip(1)
    } else {
        s
    };
    if body.len() > 0 && all_digits(body) && digits_value(body) <= u64::MAX {
        Some(digits_value(body) as u64)
    } else {
        None
    }
}

/// What parsing `s` as a signed 64-bit decimal number gives: an
/// optional `+` or `-`, then at least one digit and nothing else, with
/// a value that fits.
pub open spec fn parse_i64_spec(s: Seq<char>) -> Option<i64> {
    let negative = s.len() > 0 && s[0] == '-';
    let body = if s.len() > 0 && (s[0] == '+' || s[0] == '-') {
        s.skip(1)
    } else {
        s
    };
    if body.len() > 0 && all_digits(body) {
        let v = digits_value(body);
        if negative && v <= 0x8000_0000_0000_0000 {
            Some((-(v as int)) as i64)
        } else if !negative && v <= i64::MAX {
            Some(v as i64)
        } else {
            None
        }
    } else {
        None
    }
}

/// A prefix of a sequence of digits denotes no more than the whole.
pub proof fn lemma_digits_value_prefix(s: Seq<char>, k: int)
    requires
        0 <= k <= s.len(),
    ensures
        digits_value(s.take(k)) <= digits_value(s),
    decreases s.len(),
{
    if k == s.len() {
        assert(s.take(k) =~= s);
    } else {
        assert(s.drop_last().take(k) =~= s.take(k));
        lemma_digits_value_prefix(s.drop_last(), k);
    }
}

/// The decimal representation is never empty and holds digits only.
pub proof fn lemma_decimal_digits(n: nat)
    ensures
        decimal(n).len() > 0,
        all_digits(decimal(n)),
        digits_value(decimal(n)) == n,
    decreases n,
{
    if n < 10 {
        let s = decimal(n);
        assert(s.drop_last() =~= Seq::<char>::empty());
        assert(digits_value(s.drop_last()) == 0);
    } else {
        lemma_decimal_digits(n / 10);
        let s = decimal(n);
        assert(s.drop_last() =~= decimal(n / 10));
        assert forall|i: int| 0 <= i < s.len() implies is_digit(#[trigger] s[i]) by {
            if i < s.len() - 1 {
                assert(s[i] == decimal(n / 10)[i]);
            }
        }
    }
}

/// Appends the decimal representation of `n` to `out`.
pub fn push_decimal(out: &mut String, n: u64)
    ensures
        final(out)@ == old(out)@ + decimal(n as nat),
    decreases n,
{
    if n >= 10 {
        push_decimal(out, n / 10);
    }
    let d: u8 = (n % 10) as u8;
    out.push((48u8 + d) as char);
    proof {
        if n >= 10 {
            assert(final(out)@ =~= old(out)@ + decimal(n as nat));
        } else {
            assert(final(out)@ =~= old(out)@ + decimal(n as nat));
        }
    }
}

/// The decimal representation of `n`.
pub fn decimal_u64(n: u64) -> (r: String)
    ensures
        r@ == decimal(n as nat),
{
    let mut out = String::new();
    push_decimal(&mut out, n);
    out
}

/// The absolute value of `n`.
pub fn magnitude(n: i64) -> (r: u64)
    ensures
        r == if n < 0 {
            -(n as int)
        } else {
            n as int
        },
{
    if n == i64::MIN {
        0x8000_0000_0000_0000
    } else if n < 0 {
        (-n) as u64
    } else {
        n as u64
    }
}

/// The decimal representation of `n`, with a minus sign if it is negative.
pub fn decimal_i64(n: i64) -> (r: String)
    ensures
        r@ == decimal_signed(n as int),
{
    let mut out = String::new();
    if n < 0 {
        out.push('-');
        push_decimal(&mut out, magnitude(n));
    } else {
        push_decimal(&mut out, n as u64);
    }
    out
}

/// Reads the digits `s[from..]` as a number; `None` if there is none,
/// if a character is no digit, or if the value exceeds `limit`.
fn parse_digits(s: &Vec<char>, from: usize, limit: u64) -> (r: Option<u64>)
    requires
        from <= s.len(),
    ensures
        r == (if s@.skip(from as int).len() > 0 && all_digits(s@.skip(from as int))
            && digits_value(s@.skip(from as int)) <= limit {
            Some(digits_value(s@.skip(from as int)) as u64)
        } else {
            None
        }),
{
    let ghost body = s@.skip(from as int);
    if from == s.len() {
        return None;
    }
    let mut acc: u64 = 0;
    let mut i: usize = from;
    while i < s.len()
        invariant
            from <= i <= s.len(),
            body == s@.skip(from as int),
            all_digits(body.take(i - from)),
            acc == digits_value(body.take(i - from)),
            acc <= limit,
        decreases s.len() - i,
    {
        let c = s[i];
        let code: u32 = char_code(c);
        let ghost next = body.take(i - from + 1);
        proof {
            assert(next.drop_last() =~= body.take(i - from));
            assert(next.last() == c);
            assert(body[i - from] == c);
        }
        if code < 48 || code > 57 {
            assert(!is_digit(body[i - from]));
            return None;
        }
        let d: u64 = (code - 48) as u64;
        let wide: u128 = acc as u128 * 10 + d as u128;
        if wide > limit as u128 {
            proof {
                lemma_digits_value_prefix(body, i - from + 1);
            }
            return None;
        }
        acc = wide as u64;
        proof {
            assert forall|j: int| 0 <= j < next.len() implies is_digit(#[trigger] next[j]) by {
                if j < next.len() - 1 {
                    assert(next[j] == body.take(i - from)[j]);
                }
            }
        }
        i += 1;
    }
    proof {
        assert(body.take(i - from) =~= body);
    }
    Some(acc)
}

/// Parses the characters `v` as an unsigned decimal number.
pub fn parse_u64_chars(v: &Vec<char>) -> (r: Option<u64>)
    ensures
        r == parse_u64_spec(v@),
{
    let from: usize = if v.len() > 0 && v[0] == '+' {
        1
    } else {
        0
    };
    proof {
        assert(v@.skip(0) =~= v@);
    }
    parse_digits(v, from, u64::MAX)
}

/// Parses an unsigned decimal number as `str::parse::<u64>` does.
pub fn parse_u64(s: &str) -> (r: Option<u64>)
    ensures
        r == parse_u64_spec(s@),
{
    let v = chars_of(s);
    parse_u64_chars(&v)
}

/// Parses a signed decimal number as `str::parse::<i64>` does.
pub fn parse_i64(s: &str) -> (r: Option<i64>)
    ensures
        r == parse_i64_spec(s@),
{
    let v = chars_of(s);
    if v.len() > 0 && v[0] == '-' {
        match parse_digits(&v, 1, 0x8000_0000_0000_0000) {
            Some(m) => {
                if m == 0x8000_0000_0000_0000 {
                    Some(i64::MIN)
                } else {
                    Some(-(m as i64))
                }
            },
            None => None,
        }
    } else {
        let from: usize = if v.len() > 0 && v[0] == '+' {
            1
        } else {
            0
        };
        proof {
            assert(v@.skip(0) =~= v@);
        }
        match parse_digits(&v, from, 0x7fff_ffff_ffff_ffff) {
            Some(m) => Some(m as i64),
            None => None,
        }
    }
}

// ---------------------------------------------------------------------
// Joining
// ---------------------------------------------------------------------

/// The characters of each string.
pub open spec fn views(parts: Seq<String>) -> Seq<Seq<char>> {
    Seq::new(parts.len(), |i: int| parts[i]@)
}

/// Selecting strings by their characters selects the characters of the
/// strings selected.
pub proof fn lemma_views_filter(
    items: Seq<String>,
    p: spec_fn(String) -> bool,
    q: spec_fn(Seq<char>) -> bool,
)
    requires
        forall|s: String| #[trigger] p(s) == q(s@),
    ensures
        views(items.filter(p)) == views(items).filter(q),
    decreases items.len(),
{
    reveal(Seq::filter);
    if items.len() == 0 {
        assert(views(items.filter(p)) =~= views(items).filter(q));
    } else {
        let rest = items.drop_last();
        lemma_views_filter(rest, p, q);
        assert(views(items).drop_last() =~= views(rest));
        assert(views(items).last() == items.last()@);
        assert(views(items.filter(p)) =~= views(items).filter(q));
    }
}

/// The parts written one after another, with `sep` between them.
pub open spec fn joined(parts: Seq<Seq<char>>, sep: Seq<char>) -> Seq<char>
    decreases parts.len(),
{
    if parts.len() == 0 {
        Seq::empty()
    } else if parts.len() == 1 {
        parts[0]
    } else {
        joined(parts.drop_last(), sep) + sep + parts.last()
    }
}

/// The parts written one after another, with `sep` between them.
pub fn join(parts: &Vec<String>, sep: &str) -> (r: String)
    ensures
        r@ == joined(views(parts@), sep@),
{
    let mut out = String::new();
    let mut i: usize = 0;
    proof {
        assert(views(parts@).take(0) =~= Seq::<Seq<char>>::empty());
    }
    while i < parts.len()
        invariant
            i <= parts.len(),
            out@ == joined(views(parts@).take(i as int), sep@),
        decreases parts.len() - i,
    {
        proof {
            let next = views(parts@).take(i + 1);
            assert(next.drop_last() =~= views(parts@).take(i as int));
            assert(next.last() == parts@[i as int]@);
            if i == 0 {
                assert(out@ + parts@[i as int]@ =~= parts@[i as int]@);
            }
        }
        if i > 0 {
            out.append(sep);
        }
        out.append(parts[i].as_str());
        i += 1;
    }
    proof {
        assert(views(parts@).take(i as int) =~= views(parts@));
    }
    out
}

/// `a` followed by `b`.
pub fn concat(a: &str, b: &str) -> (r: String)
    ensures
        r@ == a@ + b@,
{
    let mut out = a.to_owned();
    out.append(b);
    out
}

// ---------------------------------------------------------------------
// Order and search
// ---------------------------------------------------------------------

/// Lexicographic order of strings by the code of their characters:
/// whether `a` comes before `b` or equals it.
pub open spec fn lex_le(a: Seq<char>, b: Seq<char>) -> bool
    decreases a.len(),
{
    if a.len() == 0 {
        true
    } else if b.len() == 0 {
        false
    } else if a[0] != b[0] {
        (a[0] as int) < (b[0] as int)
    } else {
        lex_le(a.drop_first(), b.drop_first())
    }
}

/// Of two strings one comes before the other or equals it.
pub proof fn lemma_lex_le_total(a: Seq<char>, b: Seq<char>)
    ensures
        lex_le(a, b) || lex_le(b, a),
    decreases a.len(),
{
    if a.len() > 0 && b.len() > 0 {
        if a[0] == b[0] {
            lemma_lex_le_total(a.drop_first(), b.drop_first());
        } else {
            assert(a[0] as int != b[0] as int);
        }
    }
}

/// The lexicographic order is transitive.
pub proof fn lemma_lex_le_transitive(a: Seq<char>, b: Seq<char>, c: Seq<char>)
    requires
        lex_le(a, b),
        lex_le(b, c),
    ensures
        lex_le(a, c),
    decreases a.len(),
{
    if a.len() > 0 && b.len() > 0 && c.len() > 0 && a[0] == b[0] && b[0] == c[0] {
        lemma_lex_le_transitive(a.drop_first(), b.drop_first(), c.drop_first());
    }
}

/// Whether `a` comes before `b`, or equals it, in lexicographic order.
pub fn chars_le(a: &Vec<char>, b: &Vec<char>) -> (r: bool)
    ensures
        r == lex_le(a@, b@),
{
    let mut i: usize = 0;
    proof {
        assert(a@.skip(0) =~= a@);
        assert(b@.skip(0) =~= b@);
    }
    while i < a.len() && i < b.len()
        invariant
            i <= a.len(),
            i <= b.len(),
            lex_le(a@, b@) == lex_le(a@.skip(i as int), b@.skip(i as int)),
        decreases a.len() - i,
    {
        let x = a[i];
        let y = b[i];
        proof {
            let sa = a@.skip(i as int);
            let sb = b@.skip(i as int);
            assert(sa[0] == x && sb[0] == y);
            assert(sa.drop_first() =~= a@.skip(i + 1));
            assert(sb.drop_first() =~= b@.skip(i + 1));
        }
        if x != y {
            return char_code(x) < char_code(y);
        }
        i += 1;
    }
    i == a.len()
}

/// Whether `pat` stands in `s` at position `at`.
pub open spec fn occurs_at(s: Seq<char>, pat: Seq<char>, at: int) -> bool {
    0 <= at && at + pat.len() <= s.len() && s.subrange(at, at + pat.len()) == pat
}

/// Whether `pat` stands somewhere in `s`.
pub open spec fn contains_text(s: Seq<char>, pat: Seq<char>) -> bool {
    exists|at: int| occurs_at(s, pat, at)
}

/// Whether `pat` stands in `s` at `at`.
fn matches_at(s: &Vec<char>, pat: &Vec<char>, at: usize) -> (r: bool)
    requires
        at + pat.len() <= s.len(),
    ensures
        r == occurs_at(s@, pat@, at as int),
{
    let mut j: usize = 0;
    while j < pat.len()
        invariant
            j <= pat.len(),
            at + pat.len() <= s.len(),
            forall|k: int| 0 <= k < j ==> s@[at + k] == pat@[k],
        decreases pat.len() - j,
    {
        if s[at + j] != pat[j] {
            proof {
                let sub = s@.subrange(at as int, at + pat.len());
                assert(sub[j as int] == s@[at + j]);
            }
            return false;
        }
        j += 1;
    }
    proof {
        assert(s@.subrange(at as int, at + pat.len()) =~= pat@);
    }
    true
}

/// Whether `pat` stands somewhere in `s`, as `str::contains` tells.
pub fn contains(s: &str, pat: &str) -> (r: bool)
    ensures
        r == contains_text(s@, pat@),
{
    let sv = chars_of(s);
    let pv = chars_of(pat);
    if pv.len() == 0 {
        proof {
            assert(s@.subrange(0, 0) =~= pat@);
            assert(occurs_at(s@, pat@, 0));
        }
        return true;
    }
    if pv.len() > sv.len() {
        return false;
    }
    let last: usize = sv.len() - pv.len();
    let mut at: usize = 0;
    while at <= last
        invariant
            at <= last + 1,
            last == sv.len() - pv.len(),
            pv.len() > 0,
            sv@ == s@,
            pv@ == pat@,
            forall|k: int| 0 <= k < at ==> !occurs_at(s@, pat@, k),
        decreases last + 1 - at,
    {
        if matches_at(&sv, &pv, at) {
            return true;
        }
        at += 1;
    }
    false
}

} // verus!
