//! Character level text helpers with exact specifications.

use vstd::prelude::*;

verus! {

/// Unicode `White_Space` characters (what `str::trim` strips).
pub open spec fn is_whitespace_char(c: char) -> bool {
    ||| ('\u{9}' <= c && c <= '\u{d}')
    ||| c == ' '
    ||| c == '\u{85}'
    ||| c == '\u{a0}'
    ||| c == '\u{1680}'
    ||| ('\u{2000}' <= c && c <= '\u{200a}')
    ||| c == '\u{2028}'
    ||| c == '\u{2029}'
    ||| c == '\u{202f}'
    ||| c == '\u{205f}'
    ||| c == '\u{3000}'
}

/// A text is blank when it only holds white space (it trims to nothing).
pub open spec fn blank_spec(s: Seq<char>) -> bool {
    forall|i: int| 0 <= i < s.len() ==> is_whitespace_char(#[trigger] s[i])
}

/// ASCII lower-casing of one character (other characters are kept).
pub open spec fn ascii_lower_char(c: char) -> char {
    if 'A' <= c && c <= 'Z' {
        ((c as u32) + 32) as char
    } else {
        c
    }
}

/// ASCII lower-casing of a text.
pub open spec fn ascii_lower(s: Seq<char>) -> Seq<char> {
    Seq::new(s.len(), |i: int| ascii_lower_char(s[i]))
}

/// `needle` occurs in `hay` starting at `start`.
pub open spec fn occurs_at(hay: Seq<char>, needle: Seq<char>, start: int) -> bool {
    0 <= start && start + needle.len() <= hay.len() && hay.subrange(start, start + needle.len())
        == needle
}

/// `needle` occurs somewhere in `hay`.
pub open spec fn contains_spec(hay: Seq<char>, needle: Seq<char>) -> bool {
    exists|start: int| occurs_at(hay, needle, start)
}

fn whitespace_char(c: char) -> (b: bool)
    ensures
        b == is_whitespace_char(c),
{
    ('\u{9}' <= c && c <= '\u{d}') || c == ' ' || c == '\u{85}' || c == '\u{a0}' || c
        == '\u{1680}' || ('\u{2000}' <= c && c <= '\u{200a}') || c == '\u{2028}' || c
        == '\u{2029}' || c == '\u{202f}' || c == '\u{205f}' || c == '\u{3000}'
}

/// `true` when the text only holds white space.
pub fn is_blank(s: &str) -> (b: bool)
    ensures
        b == blank_spec(s@),
{
    let n = s.unicode_len();
    let mut i: usize = 0;
    while i < n
        invariant
            n == s@.len(),
            i <= n,
            forall|j: int| 0 <= j < i ==> is_whitespace_char(#[trigger] s@[j]),
        decreases n - i,
    {
        if !whitespace_char(s.get_char(i)) {
            return false;
        }
        i = i + 1;
    }
    true
}

/// Exact textual equality.
pub fn same_text(a: &str, b: &str) -> (r: bool)
    ensures
        r == (a@ == b@),
{
    let x = a.to_owned();
    let y = b.to_owned();
    x == y
}

/// The characters of a text.
pub fn chars_of(s: &str) -> (r: Vec<char>)
    ensures
        r@ == s@,
{
    let n = s.unicode_len();
    let mut out: Vec<char> = Vec::new();
    let mut i: usize = 0;
    while i < n
        invariant
            n == s@.len(),
            i <= n,
            out@ == s@.subrange(0, i as int),
        decreases n - i,
    {
        out.push(s.get_char(i));
        assert(out@ =~= s@.subrange(0, i + 1));
        i = i + 1;
    }
    assert(out@ =~= s@);
    out
}

/// ASCII lower-cased copy of a text as a vector of characters.
pub fn ascii_lowercase_chars(s: &str) -> (r: Vec<char>)
    ensures
        r@ == ascii_lower(s@),
{
    let n = s.unicode_len();
    let mut out: Vec<char> = Vec::new();
    let mut i: usize = 0;
    while i < n
        invariant
            n == s@.len(),
            i <= n,
            out@.len() == i,
            forall|j: int| 0 <= j < i ==> #[trigger] out@[j] == ascii_lower_char(s@[j]),
        decreases n - i,
    {
        let c = s.get_char(i);
        let l = if 'A' <= c && c <= 'Z' {
            char_from_upper(c)
        } else {
            c
        };
        out.push(l);
        i = i + 1;
    }
    assert(out@ =~= ascii_lower(s@));
    out
}

fn char_from_upper(c: char) -> (l: char)
    requires
        'A' <= c && c <= 'Z',
    ensures
        l == ascii_lower_char(c),
{
    let b = (c as u8) + 32;
    b as char
}

/// `true` when `needle` occurs in `hay`.
pub fn contains_chars(hay: &Vec<char>, needle: &str) -> (b: bool)
    ensures
        b == contains_spec(hay@, needle@),
{
    let m = needle.unicode_len();
    let n = hay.len();
    if m > n {
        proof {
            assert forall|st: int| !occurs_at(hay@, needle@, st) by {}
        }
        return false;
    }
    let mut start: usize = 0;
    while start <= n - m
        invariant
            m == needle@.len(),
            n == hay@.len(),
            m <= n,
            start <= n - m + 1,
            forall|st: int| 0 <= st < start ==> !occurs_at(hay@, needle@, st),
        decreases n - start,
    {
        let mut k: usize = 0;
        let mut matched = true;
        while k < m
            invariant
                m == needle@.len(),
                n == hay@.len(),
                start + m <= n,
                k <= m,
                matched == (forall|j: int| 0 <= j < k ==> hay@[start + j] == needle@[j]),
            decreases m - k,
        {
            if hay[start + k] != needle.get_char(k) {
                matched = false;
            }
            k = k + 1;
        }
        if matched {
            proof {
                assert(hay@.subrange(start as int, start + m) =~= needle@);
                assert(occurs_at(hay@, needle@, start as int));
            }
            return true;
        }
        proof {
            if occurs_at(hay@, needle@, start as int) {
                assert forall|j: int| 0 <= j < m implies hay@[start + j] == needle@[j] by {
                    assert(hay@.subrange(start as int, start + m)[j] == needle@[j]);
                }
            }
        }
        start = start + 1;
    }
    proof {
        assert forall|st: int| !occurs_at(hay@, needle@, st) by {
            if occurs_at(hay@, needle@, st) {
                assert(0 <= st < start);
            }
        }
    }
    false
}

} // verus!

verus! {

/// Decimal digits of a natural number.
pub open spec fn decimal_spec(n: nat) -> Seq<char>
    decreases n,
{
    if n < 10 {
        seq![digit_char(n)]
    } else {
        decimal_spec(n / 10).push(digit_char(n % 10))
    }
}

/// The character of a decimal digit.
pub open spec fn digit_char(d: nat) -> char {
    if d == 0 { '0' }
    else if d == 1 { '1' }
    else if d == 2 { '2' }
    else if d == 3 { '3' }
    else if d == 4 { '4' }
    else if d == 5 { '5' }
    else if d == 6 { '6' }
    else if d == 7 { '7' }
    else if d == 8 { '8' }
    else { '9' }
}

fn digit(d: u64) -> (c: char)
    requires
        d < 10,
    ensures
        c == digit_char(d as nat),
{
    if d == 0 { '0' }
    else if d == 1 { '1' }
    else if d == 2 { '2' }
    else if d == 3 { '3' }
    else if d == 4 { '4' }
    else if d == 5 { '5' }
    else if d == 6 { '6' }
    else if d == 7 { '7' }
    else if d == 8 { '8' }
    else { '9' }
}

/// Decimal representation of `n` as characters.
pub fn decimal_chars(n: u64) -> (r: Vec<char>)
    ensures
        r@ == decimal_spec(n as nat),
    decreases n,
{
    if n < 10 {
        let mut v: Vec<char> = Vec::new();
        v.push(digit(n));
        assert(v@ =~= seq![digit_char(n as nat)]);
        v
    } else {
        let mut v = decimal_chars(n / 10);
        v.push(digit(n % 10));
        v
    }
}

/// A text made of the given characters.
pub fn string_of_chars(cs: &Vec<char>) -> (s: String)
    ensures
        s@ == cs@,
{
    let mut s = String::new();
    let mut i: usize = 0;
    while i < cs.len()
        invariant
            i <= cs@.len(),
            s@ == cs@.subrange(0, i as int),
        decreases cs@.len() - i,
    {
        let mut one = String::new();
        push_char(&mut one, cs[i]);
        s.append(one.as_str());
        assert(s@ =~= cs@.subrange(0, i + 1));
        i = i + 1;
    }
    assert(cs@.subrange(0, cs@.len() as int) =~= cs@);
    s
}

/// Appends one character to a string, through `String::push`.
#[verifier::external_body]
fn push_char(s: &mut String, c: char)
    ensures
        final(s)@ == old(s)@.push(c),
{
    s.push(c);
}

/// Decimal representation of `n`.
pub fn decimal(n: u64) -> (s: String)
    ensures
        s@ == decimal_spec(n as nat),
{
    let cs = decimal_chars(n);
    string_of_chars(&cs)
}


/// Fractional milliseconds of a duration (`1..=999`) as printed after the
/// decimal point: three digits without the trailing zeros.
pub open spec fn millis_fraction(f: nat) -> Seq<char> {
    if f % 100 == 0 {
        seq![digit_char(f / 100)]
    } else if f % 10 == 0 {
        seq![digit_char(f / 100), digit_char((f / 10) % 10)]
    } else {
        seq![digit_char(f / 100), digit_char((f / 10) % 10), digit_char(f % 10)]
    }
}

/// Debug text of a duration of `ms` whole milliseconds: `0ns`, `80ms`,
/// `20s`, `1.5s`.
pub open spec fn duration_text_spec(ms: nat) -> Seq<char> {
    if ms == 0 {
        "0ns"@
    } else if ms < 1000 {
        decimal_spec(ms) + "ms"@
    } else if ms % 1000 == 0 {
        decimal_spec(ms / 1000) + "s"@
    } else {
        decimal_spec(ms / 1000) + "."@ + millis_fraction(ms % 1000) + "s"@
    }
}

/// Debug text of a duration given in milliseconds.
pub fn duration_text(ms: u64) -> (s: String)
    ensures
        s@ == duration_text_spec(ms as nat),
{
    if ms == 0 {
        return String::from_str("0ns");
    }
    if ms < 1000 {
        let mut s = decimal(ms);
        s.append("ms");
        return s;
    }
    let mut s = decimal(ms / 1000);
    let f = ms % 1000;
    if f != 0 {
        s.append(".");
        push_char(&mut s, digit(f / 100));
        if f % 100 != 0 {
            push_char(&mut s, digit((f / 10) % 10));
            if f % 10 != 0 {
                push_char(&mut s, digit(f % 10));
            }
        }
    }
    s.append("s");
    proof {
        let fr = millis_fraction(f as nat);
        if f != 0 {
            assert(s@ =~= decimal_spec((ms / 1000) as nat) + "."@ + fr + "s"@);
        } else {
            assert(s@ =~= decimal_spec((ms / 1000) as nat) + "s"@);
        }
    }
    s
}

} // verus!
