//! Numbers in text form.

use crate::text::{digit_char, digits, has_prefix, lemma_quotient_is_smaller, strip};
use vstd::prelude::*;
use vstd::string::StrSliceExecFns;

verus! {

/// The value of a digit in the given radix, if it is one.
pub open spec fn digit_value(c: char, radix: nat) -> Option<nat> {
    let u = c as u32;
    let value: nat = if 48 <= u <= 57 {
        (u - 48) as nat
    } else if 65 <= u <= 90 {
        (u - 55) as nat
    } else if 97 <= u <= 122 {
        (u - 87) as nat
    } else {
        36
    };
    if value < radix && value < 36 {
        Some(value)
    } else {
        None
    }
}

/// The value of a string of digits, if all of them are digits.
pub open spec fn digits_value(s: Seq<char>, radix: nat) -> Option<nat>
    decreases s.len(),
{
    if s.len() == 0 {
        Some(0)
    } else {
        match (digits_value(s.drop_last(), radix), digit_value(s.last(), radix)) {
            (Some(high), Some(low)) => Some(high * radix + low),
            _ => None,
        }
    }
}

/// The value of a non-empty string of digits that is at most `max`.
pub open spec fn bounded_value(s: Seq<char>, radix: nat, max: nat) -> Option<nat> {
    match digits_value(s, radix) {
        Some(value) => if s.len() > 0 && value <= max {
            Some(value)
        } else {
            None
        },
        None => None,
    }
}

/// The unsigned number that `s` denotes, if it is at most `max`: digits after
/// an optional plus sign.
pub open spec fn unsigned_value(s: Seq<char>, radix: nat, max: nat) -> Option<nat> {
    if s.len() > 0 && s[0] == '+' {
        bounded_value(s.skip(1), radix, max)
    } else {
        bounded_value(s, radix, max)
    }
}

/// The 128-bit signed number that `s` denotes: digits after an optional sign.
pub open spec fn signed_value(s: Seq<char>, radix: nat) -> Option<int> {
    if s.len() > 0 && s[0] == '-' {
        match bounded_value(s.skip(1), radix, 0x8000_0000_0000_0000_0000_0000_0000_0000) {
            Some(value) => Some(-value),
            None => None,
        }
    } else {
        match unsigned_value(s, radix, 0x7FFF_FFFF_FFFF_FFFF_FFFF_FFFF_FFFF_FFFF) {
            Some(value) => Some(value as int),
            None => None,
        }
    }
}

/// Whether `s` has the prefix of a hexadecimal number.
pub open spec fn is_hex(s: Seq<char>) -> bool {
    has_prefix(s, "0x"@) || has_prefix(s, "0X"@)
}

/// Formatting a number and reading it gives the number back.
pub proof fn law_digits_read_back(n: nat, radix: nat, upper: bool)
    requires
        2 <= radix <= 16,
    ensures
        digits_value(digits(n, radix, upper), radix) == Some(n),
        digits(n, radix, upper).len() > 0,
    decreases n,
{
    let text = digits(n, radix, upper);
    if n < radix {
        assert(digit_value(digit_char(n, upper), radix) == Some(n));
        assert(text.drop_last() =~= Seq::<char>::empty());
        assert(digits_value(text.drop_last(), radix) == Some(0nat));
        assert(0 * radix + n == n) by (nonlinear_arith);
        assert(text.last() == digit_char(n, upper));
    } else {
        lemma_quotient_is_smaller(n, radix);
        law_digits_read_back(n / radix, radix, upper);
        assert(text.drop_last() =~= digits(n / radix, radix, upper));
        assert(n % radix < radix && n / radix * radix + n % radix == n) by (nonlinear_arith)
            requires
                radix >= 2,
        ;
        assert(digit_value(digit_char(n % radix, upper), radix) == Some(n % radix));
        assert(text.last() == digit_char(n % radix, upper));
    }
}

/// A prefix of a number is not larger than the number.
proof fn lemma_prefix_value(s: Seq<char>, radix: nat, n: int)
    requires
        0 <= n <= s.len(),
        radix >= 1,
    ensures
        digits_value(s, radix) is Some ==> digits_value(s.take(n), radix) is Some && digits_value(
            s.take(n),
            radix,
        )->0 <= digits_value(s, radix)->0,
    decreases s.len(),
{
    if n < s.len() {
        lemma_prefix_value(s.drop_last(), radix, n);
        assert(s.drop_last().take(n) =~= s.take(n));
        if digits_value(s, radix) is Some {
            let high = digits_value(s.drop_last(), radix)->0;
            assert(high <= high * radix) by (nonlinear_arith)
                requires
                    radix >= 1,
            ;
        }
    } else {
        assert(s.take(n) =~= s);
    }
}

/// The value of a digit.
fn read_digit(c: char, radix: u8) -> (value: Option<u8>)
    requires
        radix <= 36,
    ensures
        value is Some <==> digit_value(c, radix as nat) is Some,
        value is Some ==> value->0 == digit_value(c, radix as nat)->0,
{
    let u: u32 = c as u32;
    let value: u32 = if 48 <= u && u <= 57 {
        u - 48
    } else if 65 <= u && u <= 90 {
        u - 55
    } else if 97 <= u && u <= 122 {
        u - 87
    } else {
        36
    };
    if value < radix as u32 {
        Some(value as u8)
    } else {
        None
    }
}

/// Reads a non-empty string of digits from the position `from` on.
fn read_digits(s: &str, from: usize, radix: u8, max: u128) -> (value: Option<u128>)
    requires
        2 <= radix <= 36,
        from <= s@.len(),
    ensures
        value is Some <==> bounded_value(s@.skip(from as int), radix as nat, max as nat) is Some,
        value is Some ==> value->0 == bounded_value(
            s@.skip(from as int),
            radix as nat,
            max as nat,
        )->0,
{
    let len: usize = s.unicode_len();
    let ghost text = s@.skip(from as int);
    if from == len {
        return None;
    }
    let mut acc: u128 = 0;
    let mut i: usize = from;
    assert(text.take(0) =~= Seq::<char>::empty());
    while i < len
        invariant
            2 <= radix <= 36,
            from <= i <= len == s@.len(),
            text == s@.skip(from as int),
            digits_value(text.take(i - from), radix as nat) == Some(acc as nat),
            acc <= max,
        decreases len - i,
    {
        let ghost here = text.take(i + 1 - from);
        proof {
            assert(here.drop_last() =~= text.take(i - from));
            assert(here.last() == s@[i as int]);
            lemma_prefix_value(text, radix as nat, i + 1 - from);
        }
        let d: u8 = match read_digit(s.get_char(i), radix) {
            Some(d) => d,
            None => return None,
        };
        let next: Option<u128> = match acc.checked_mul(radix as u128) {
            Some(high) => high.checked_add(d as u128),
            None => None,
        };
        match next {
            Some(value) => {
                if value > max {
                    return None;
                }
                acc = value;
            },
            None => return None,
        }
        i += 1;
    }
    assert(text.take(i - from) =~= text);
    Some(acc)
}

/// Reads an unsigned number of at most `max`.
pub fn read_unsigned(s: &str, radix: u8, max: u128) -> (value: Option<u128>)
    requires
        2 <= radix <= 36,
    ensures
        value is Some <==> unsigned_value(s@, radix as nat, max as nat) is Some,
        value is Some ==> value->0 == unsigned_value(s@, radix as nat, max as nat)->0,
{
    if s.unicode_len() > 0 && s.get_char(0) == '+' {
        read_digits(s, 1, radix, max)
    } else {
        assert(s@.skip(0) =~= s@);
        read_digits(s, 0, radix, max)
    }
}

/// Reads a 128-bit signed number.
pub fn read_signed(s: &str, radix: u8) -> (value: Option<i128>)
    requires
        2 <= radix <= 36,
    ensures
        value is Some <==> signed_value(s@, radix as nat) is Some,
        value is Some ==> value->0 == signed_value(s@, radix as nat)->0,
{
    if s.unicode_len() > 0 && s.get_char(0) == '-' {
        match read_digits(s, 1, radix, 0x8000_0000_0000_0000_0000_0000_0000_0000) {
            Some(0) => Some(0),
            Some(value) => Some(-((value - 1) as i128) - 1),
            None => None,
        }
    } else {
        match read_unsigned(s, radix, 0x7FFF_FFFF_FFFF_FFFF_FFFF_FFFF_FFFF_FFFF) {
            Some(value) => Some(value as i128),
            None => None,
        }
    }
}

/// What follows the prefix of a hexadecimal number.
pub fn strip_hex_prefix(s: &str) -> (rest: Option<&str>)
    ensures
        rest is Some <==> is_hex(s@),
        rest is Some ==> rest->0@ == s@.skip(2),
{
    proof {
        reveal_strlit("0x");
        reveal_strlit("0X");
    }
    match strip(s, "0x") {
        Some(rest) => Some(rest),
        None => strip(s, "0X"),
    }
}

} // verus!
