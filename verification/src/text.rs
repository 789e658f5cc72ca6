//! Text: number formatting, trimming and comparison.
//!
//! A text is modelled as the sequence of its characters.

use vstd::prelude::*;
use vstd::string::{StrSliceExecFns, StringExecFns};

verus! {

/// `String::push` of std appends the character to the string.
pub assume_specification[ String::push ](s: &mut String, ch: char)
    ensures
        final(s)@ == old(s)@.push(ch),
;

/// The character for the digit `d` (0..=15).
pub open spec fn digit_char(d: nat, upper: bool) -> char {
    if d < 10 {
        (48 + d) as char
    } else if upper {
        (55 + d) as char
    } else {
        (87 + d) as char
    }
}

/// Dividing makes a number smaller.
pub proof fn lemma_quotient_is_smaller(n: nat, base: nat)
    requires
        n >= base >= 2,
    ensures
        n / base < n,
{
    assert(n / base < n) by (nonlinear_arith)
        requires
            n >= base >= 2,
    ;
}

/// The number `n` in positional notation, without leading zeros.
pub open spec fn digits(n: nat, base: nat, upper: bool) -> Seq<char>
    decreases n,
{
    if n < base || base < 2 {
        seq![digit_char(n, upper)]
    } else {
        proof {
            lemma_quotient_is_smaller(n, base);
        }
        digits(n / base, base, upper).push(digit_char(n % base, upper))
    }
}

/// The number `n` in decimal notation.
pub open spec fn decimal(n: nat) -> Seq<char> {
    digits(n, 10, false)
}

/// The integer `v` in decimal notation, with a sign if it is negative.
pub open spec fn signed_decimal(v: int) -> Seq<char> {
    if v < 0 {
        "-"@ + decimal((-v) as nat)
    } else {
        decimal(v as nat)
    }
}

/// The number `n` in hexadecimal notation, at least `width` digits.
pub open spec fn hex(n: nat, width: nat, upper: bool) -> Seq<char> {
    let d = digits(n, 16, upper);
    if d.len() < width {
        Seq::new((width - d.len()) as nat, |i: int| '0') + d
    } else {
        d
    }
}

/// The number `n` in hexadecimal notation with the prefix `0x`, at least
/// `width` digits.
pub open spec fn hex_literal(n: nat, width: nat) -> Seq<char> {
    "0x"@ + hex(n, width, true)
}

/// The characters of the Unicode property `White_Space`.
pub open spec fn is_space(c: char) -> bool {
    let u = c as u32;
    ||| 0x09 <= u <= 0x0D
    ||| u == 0x20
    ||| u == 0x85
    ||| u == 0xA0
    ||| u == 0x1680
    ||| 0x2000 <= u <= 0x200A
    ||| u == 0x2028
    ||| u == 0x2029
    ||| u == 0x202F
    ||| u == 0x205F
    ||| u == 0x3000
}

/// `s` without the characters `drop` at its start.
pub open spec fn trimmed_start(s: Seq<char>, drop: spec_fn(char) -> bool) -> Seq<char>
    decreases s.len(),
{
    if s.len() > 0 && drop(s[0]) {
        trimmed_start(s.skip(1), drop)
    } else {
        s
    }
}

/// `s` without the characters `drop` at its end.
pub open spec fn trimmed_end(s: Seq<char>, drop: spec_fn(char) -> bool) -> Seq<char>
    decreases s.len(),
{
    if s.len() > 0 && drop(s.last()) {
        trimmed_end(s.drop_last(), drop)
    } else {
        s
    }
}

/// `s` without white space at its start and end.
pub open spec fn trimmed(s: Seq<char>) -> Seq<char> {
    trimmed_end(trimmed_start(s, |c: char| is_space(c)), |c: char| is_space(c))
}

/// Whether `s` starts with `prefix`.
pub open spec fn has_prefix(s: Seq<char>, prefix: Seq<char>) -> bool {
    s.len() >= prefix.len() && s.take(prefix.len() as int) == prefix
}

/// A result whose values and errors are texts.
pub open spec fn text_result(r: Result<String, String>) -> Result<Seq<char>, Seq<char>> {
    match r {
        Ok(s) => Ok(s@),
        Err(e) => Err(e@),
    }
}

/// What is left when the first `n` characters are dropped and the next one
/// stays.
proof fn lemma_trimmed_start(s: Seq<char>, drop: spec_fn(char) -> bool, n: int)
    requires
        0 <= n <= s.len(),
        forall|i: int| 0 <= i < n ==> drop(#[trigger] s[i]),
        n < s.len() ==> !drop(s[n]),
    ensures
        trimmed_start(s, drop) == s.skip(n),
    decreases n,
{
    if n > 0 {
        let rest = s.skip(1);
        assert forall|i: int| 0 <= i < n - 1 implies drop(#[trigger] rest[i]) by {
            assert(rest[i] == s[i + 1]);
        }
        lemma_trimmed_start(rest, drop, n - 1);
        assert(drop(s[0]));
        assert(rest.skip(n - 1) =~= s.skip(n));
    } else {
        assert(s.skip(0) =~= s);
    }
}

/// What is left when the characters from `n` on are dropped and the one
/// before stays.
proof fn lemma_trimmed_end(s: Seq<char>, drop: spec_fn(char) -> bool, n: int)
    requires
        0 <= n <= s.len(),
        forall|i: int| n <= i < s.len() ==> drop(#[trigger] s[i]),
        n > 0 ==> !drop(s[n - 1]),
    ensures
        trimmed_end(s, drop) == s.take(n),
    decreases s.len() - n,
{
    if n < s.len() {
        let rest = s.drop_last();
        assert(drop(s[s.len() - 1]));
        assert forall|i: int| n <= i < rest.len() implies drop(#[trigger] rest[i]) by {
            assert(rest[i] == s[i]);
        }
        lemma_trimmed_end(rest, drop, n);
        assert(rest.take(n) =~= s.take(n));
    } else {
        assert(s.take(n) =~= s);
    }
}

/// Whether two texts are the same.
pub fn same(a: &str, b: &str) -> (equal: bool)
    ensures
        equal == (a@ == b@),
{
    a.to_owned() == b.to_owned()
}

/// Whether a character is white space.
fn whitespace(c: char) -> (space: bool)
    ensures
        space == is_space(c),
{
    let u: u32 = c as u32;
    (0x09 <= u && u <= 0x0D) || u == 0x20 || u == 0x85 || u == 0xA0 || u == 0x1680 || (0x2000 <= u
        && u <= 0x200A) || u == 0x2028 || u == 0x2029 || u == 0x202F || u == 0x205F || u == 0x3000
}

/// The text without white space at its start and end.
pub fn trim(s: &str) -> (rest: &str)
    ensures
        rest@ == trimmed(s@),
{
    let len: usize = s.unicode_len();
    let ghost drop = |c: char| is_space(c);
    let mut start: usize = 0;
    while start < len && whitespace(s.get_char(start))
        invariant
            start <= len == s@.len(),
            forall|i: int| 0 <= i < start ==> is_space(#[trigger] s@[i]),
        ensures
            start < len ==> !is_space(s@[start as int]),
        decreases len - start,
    {
        start += 1;
    }
    proof {
        lemma_trimmed_start(s@, drop, start as int);
    }
    let mut end: usize = len;
    while end > start && whitespace(s.get_char(end - 1))
        invariant
            start <= end <= len == s@.len(),
            forall|i: int| end <= i < len ==> is_space(#[trigger] s@[i]),
        ensures
            end > start ==> !is_space(s@[end - 1]),
        decreases end,
    {
        end -= 1;
    }
    proof {
        let middle = s@.skip(start as int);
        assert forall|i: int| end - start <= i < middle.len() implies drop(#[trigger] middle[i]) by {
            assert(middle[i] == s@[start + i]);
        }
        lemma_trimmed_end(middle, drop, end - start);
        assert(middle.take(end - start) =~= s@.subrange(start as int, end as int));
    }
    s.substring_char(start, end)
}

/// The text without the characters `c` at its start.
pub fn trim_start_of(s: &str, c: char) -> (rest: &str)
    ensures
        rest@ == trimmed_start(s@, |x: char| x == c),
{
    let len: usize = s.unicode_len();
    let mut start: usize = 0;
    while start < len && s.get_char(start) == c
        invariant
            start <= len == s@.len(),
            forall|i: int| 0 <= i < start ==> #[trigger] s@[i] == c,
        ensures
            start < len ==> s@[start as int] != c,
        decreases len - start,
    {
        start += 1;
    }
    proof {
        lemma_trimmed_start(s@, |x: char| x == c, start as int);
        assert(s@.skip(start as int) =~= s@.subrange(start as int, len as int));
    }
    s.substring_char(start, len)
}

/// What follows `prefix`, if the text starts with it.
pub fn strip<'a>(s: &'a str, prefix: &str) -> (rest: Option<&'a str>)
    ensures
        rest is Some <==> has_prefix(s@, prefix@),
        rest is Some ==> rest->0@ == s@.skip(prefix@.len() as int),
{
    let len: usize = s.unicode_len();
    let n: usize = prefix.unicode_len();
    if len < n {
        return None;
    }
    let head = s.substring_char(0, n);
    assert(head@ =~= s@.take(n as int));
    if same(head, prefix) {
        assert(s@.subrange(n as int, len as int) =~= s@.skip(n as int));
        Some(s.substring_char(n, len))
    } else {
        None
    }
}

/// Appends the digit `d`.
fn push_digit(out: &mut String, d: u8, upper: bool)
    requires
        d < 16,
    ensures
        final(out)@ == old(out)@.push(digit_char(d as nat, upper)),
{
    if d < 10 {
        out.push((48 + d) as char);
    } else if upper {
        out.push((55 + d) as char);
    } else {
        out.push((87 + d) as char);
    }
}

/// Appends the number `n` in positional notation.
pub fn push_digits(out: &mut String, n: u128, base: u8, upper: bool)
    requires
        2 <= base <= 16,
    ensures
        final(out)@ == old(out)@ + digits(n as nat, base as nat, upper),
    decreases n,
{
    let b: u128 = base as u128;
    let ghost before = out@;
    if n >= b {
        proof {
            lemma_quotient_is_smaller(n as nat, base as nat);
        }
        push_digits(out, n / b, base, upper);
    }
    assert(n % b < b && (n < b ==> n % b == n)) by (nonlinear_arith)
        requires
            b >= 2,
    ;
    let last: u8 = (n % b) as u8;
    push_digit(out, last, upper);
    assert(out@ =~= before + digits(n as nat, base as nat, upper));
}

/// The number `n` in decimal notation.
pub fn decimal_text(n: u128) -> (text: String)
    ensures
        text@ == decimal(n as nat),
{
    let mut text = String::new();
    push_digits(&mut text, n, 10, false);
    assert(text@ =~= decimal(n as nat));
    text
}

/// The integer `v` in decimal notation.
pub fn signed_decimal_text(v: i128) -> (text: String)
    ensures
        text@ == signed_decimal(v as int),
{
    if v < 0 {
        let mut text = "-".to_owned();
        let magnitude: u128 = (-(v + 1)) as u128 + 1;
        push_digits(&mut text, magnitude, 10, false);
        text
    } else {
        decimal_text(v as u128)
    }
}

/// The number `n` in hexadecimal notation, at least `width` digits.
pub fn hex_text(n: u128, width: usize, upper: bool) -> (text: String)
    ensures
        text@ == hex(n as nat, width as nat, upper),
{
    let mut number = String::new();
    push_digits(&mut number, n, 16, upper);
    assert(number@ =~= digits(n as nat, 16, upper));
    let len: usize = number.as_str().unicode_len();
    let mut text = String::new();
    let mut i: usize = len;
    while i < width
        invariant
            len <= i,
            i <= width || i == len,
            text@ == Seq::new((i - len) as nat, |k: int| '0'),
        decreases width - i,
    {
        text.push('0');
        i += 1;
        assert(text@ =~= Seq::new((i - len) as nat, |k: int| '0'));
    }
    text.append(number.as_str());
    assert(text@ =~= hex(n as nat, width as nat, upper));
    text
}

/// The number `n` in hexadecimal notation with the prefix `0x`.
pub fn hex_literal_text(n: u128, width: usize) -> (text: String)
    ensures
        text@ == hex_literal(n as nat, width as nat),
{
    let mut text = "0x".to_owned();
    text.append(hex_text(n, width, true).as_str());
    text
}

} // verus!
