//! Character-level text helpers: whitespace, trimming, joining, splitting
//! and decimal numbers, each stated over character sequences.
use vstd::prelude::*;

verus! {

/// `String::push`: the string with one more character at the end.
#[verifier::external_body]
pub(crate) fn string_push(s: &mut String, c: char)
    ensures
        final(s)@ == old(s)@.push(c),
{
    s.push(c)
}

/// `str::chars` collected: the characters of the string, in order.
#[verifier::external_body]
pub(crate) fn str_chars(s: &str) -> (r: Vec<char>)
    ensures
        r@ == s@,
{
    s.chars().collect()
}

/// Appends all of `cs` to `s`.
pub fn push_chars(s: &mut String, cs: &[char])
    ensures
        final(s)@ == old(s)@ + cs@,
{
    let mut i: usize = 0;
    while i < cs.len()
        invariant
            i <= cs@.len(),
            s@ == old(s)@ + cs@.subrange(0, i as int),
        decreases cs@.len() - i,
    {
        string_push(s, cs[i]);
        i += 1;
        assert(cs@.subrange(0, i as int) == cs@.subrange(0, (i - 1) as int).push(cs@[i - 1]));
    }
    assert(cs@.subrange(0, cs@.len() as int) == cs@);
}

/// White space as Unicode's White_Space property gives it (what
/// `char::is_whitespace` tests).
pub open spec fn is_white(c: char) -> bool {
    ('\u{9}' <= c && c <= '\u{d}') || c == ' ' || c == '\u{85}' || c == '\u{a0}' || c == '\u{1680}'
        || ('\u{2000}' <= c && c <= '\u{200a}') || c == '\u{2028}' || c == '\u{2029}' || c
        == '\u{202f}' || c == '\u{205f}' || c == '\u{3000}'
}

/// Whether `c` is white space.
pub fn is_whitespace(c: char) -> (r: bool)
    ensures
        r == is_white(c),
{
    ('\u{9}' <= c && c <= '\u{d}') || c == ' ' || c == '\u{85}' || c == '\u{a0}' || c == '\u{1680}'
        || ('\u{2000}' <= c && c <= '\u{200a}') || c == '\u{2028}' || c == '\u{2029}' || c
        == '\u{202f}' || c == '\u{205f}' || c == '\u{3000}'
}

/// `s` without the leading characters that are white space (when `quote`
/// is false) or `"` (when it is true).
pub open spec fn strip_start(s: Seq<char>, quote: bool) -> Seq<char>
    decreases s.len(),
{
    if s.len() > 0 && (if quote { s[0] == '"' } else { is_white(s[0]) }) {
        strip_start(s.drop_first(), quote)
    } else {
        s
    }
}

/// `s` without the trailing characters that are white space (when `quote`
/// is false) or `"` (when it is true).
pub open spec fn strip_end(s: Seq<char>, quote: bool) -> Seq<char>
    decreases s.len(),
{
    if s.len() > 0 && (if quote { s.last() == '"' } else { is_white(s.last()) }) {
        strip_end(s.drop_last(), quote)
    } else {
        s
    }
}

/// `str::trim`.
pub open spec fn trimmed(s: Seq<char>) -> Seq<char> {
    strip_end(strip_start(s, false), false)
}

/// `str::trim_matches('"')`.
pub open spec fn unquoted(s: Seq<char>) -> Seq<char> {
    strip_end(strip_start(s, true), true)
}

fn strips(c: char, quote: bool) -> (r: bool)
    ensures
        r == (if quote { c == '"' } else { is_white(c) }),
{
    if quote {
        c == '"'
    } else {
        is_whitespace(c)
    }
}

/// The characters of `s` without those at either end that are white space
/// (or `"`, when `quote` is true).
pub fn strip(s: &[char], quote: bool) -> (r: Vec<char>)
    ensures
        r@ == strip_end(strip_start(s@, quote), quote),
{
    let mut i: usize = 0;
    assert(s@.subrange(0, s@.len() as int) =~= s@);
    while i < s.len() && strips(s[i], quote)
        invariant
            i <= s@.len(),
            strip_start(s@, quote) == strip_start(s@.subrange(i as int, s@.len() as int), quote),
        decreases s@.len() - i,
    {
        assert(s@.subrange(i as int, s@.len() as int).drop_first() =~= s@.subrange(i + 1, s@.len() as int));
        i += 1;
    }
    let ghost front = s@.subrange(i as int, s@.len() as int);
    assert(strip_start(s@, quote) == front);
    let mut j: usize = s.len();
    while j > i && strips(s[j - 1], quote)
        invariant
            i <= j <= s@.len(),
            front == s@.subrange(i as int, s@.len() as int),
            strip_end(front, quote) == strip_end(s@.subrange(i as int, j as int), quote),
        decreases j,
    {
        assert(s@.subrange(i as int, j as int).drop_last() =~= s@.subrange(i as int, j - 1));
        j -= 1;
    }
    let mut r: Vec<char> = Vec::new();
    let mut k: usize = i;
    while k < j
        invariant
            i <= k <= j,
            j <= s@.len(),
            r@ == s@.subrange(i as int, k as int),
        decreases j - k,
    {
        r.push(s[k]);
        k += 1;
        assert(s@.subrange(i as int, k as int) =~= s@.subrange(i as int, k - 1).push(s@[k - 1]));
    }
    r
}

/// The lines joined with a newline between each two.
pub open spec fn join_lines(lines: Seq<Seq<char>>) -> Seq<char>
    decreases lines.len(),
{
    if lines.len() == 0 {
        seq![]
    } else if lines.len() == 1 {
        lines[0]
    } else {
        join_lines(lines.drop_last()) + seq!['\n'] + lines.last()
    }
}

/// The decimal digit for `d` (below ten).
pub open spec fn digit(d: int) -> char {
    ('0' as int + d) as char
}

/// The decimal form of `n`, as `Display` writes an integer.
pub open spec fn decimal(n: nat) -> Seq<char>
    decreases n,
{
    if n < 10 {
        seq![digit(n as int)]
    } else {
        decimal(n / 10).push(digit((n % 10) as int))
    }
}

fn digit_char(d: u64) -> (c: char)
    requires
        d < 10,
    ensures
        c == digit(d as int),
{
    if d == 0 { '0' } else if d == 1 { '1' } else if d == 2 { '2' } else if d == 3 { '3' } else if d
        == 4 { '4' } else if d == 5 { '5' } else if d == 6 { '6' } else if d == 7 { '7' } else if d
        == 8 { '8' } else { '9' }
}

/// Appends the decimal form of `n`.
pub fn push_decimal(s: &mut String, n: u64)
    ensures
        final(s)@ == old(s)@ + decimal(n as nat),
    decreases n,
{
    if n < 10 {
        string_push(s, digit_char(n));
    } else {
        push_decimal(s, n / 10);
        string_push(s, digit_char(n % 10));
    }
}

} // verus!
