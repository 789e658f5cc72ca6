//! Numbers and bytes: what digits and byte strings denote.

use crate::bytes::{byte_range, le_bytes, le_value, lemma_le_bytes_len};
use crate::number::{digit_value, digits_value, law_digits_read_back, signed_value};
use crate::number::unsigned_value;
use crate::text::{decimal, digit_char, digits, hex, is_space, lemma_quotient_is_smaller, trimmed};
use crate::text::{trimmed_end, trimmed_start};
use vstd::arithmetic::power::pow;
use vstd::prelude::*;

verus! {

/// Byte `i` of an encoded number has the weight 256 to the power `i`.
pub proof fn law_bytes_are_little_endian(value: nat, n: nat, i: nat)
    requires
        i < n,
    ensures
        le_bytes(value, n).len() == n,
        le_bytes(value, n)[i as int] as int == value as int / pow(256, i) % 256,
    decreases i,
{
    lemma_le_bytes_len(value, n);
    let rest = le_bytes(value / 256, (n - 1) as nat);
    if i == 0 {
        vstd::arithmetic::power::lemma_pow0(256);
    } else {
        law_bytes_are_little_endian(value / 256, (n - 1) as nat, (i - 1) as nat);
        assert(le_bytes(value, n)[i as int] == rest[i - 1]);
        vstd::arithmetic::power::lemma_pow_positive(256, (i - 1) as nat);
        assert(pow(256, i) == 256 * pow(256, (i - 1) as nat)) by {
            reveal(pow);
        }
        vstd::arithmetic::div_mod::lemma_div_denominator(
            value as int,
            256,
            pow(256, (i - 1) as nat),
        );
    }
}

/// One more byte at the end of a byte string counts with the weight of its
/// position, and a single byte is its own number.
pub proof fn law_number_of_bytes_grows_by_weight(s: Seq<u8>, b: u8)
    ensures
        le_value(seq![b]) == b,
        le_value(s.push(b)) == le_value(s) + pow(256, s.len()) * b,
        byte_range(s.len()) == pow(256, s.len()),
    decreases s.len(),
{
    assert(le_value(seq![b]) == b) by {
        reveal_with_fuel(le_value, 2);
    }
    if s.len() == 0 {
        vstd::arithmetic::power::lemma_pow0(256);
        assert(s.push(b) =~= seq![b]);
    } else {
        law_number_of_bytes_grows_by_weight(s.skip(1), b);
        assert(s.push(b).skip(1) =~= s.skip(1).push(b));
        let low = pow(256, (s.len() - 1) as nat);
        assert(pow(256, s.len()) == 256 * low) by {
            reveal(pow);
        }
        assert(256 * (low * b) == (256 * low) * b) by (nonlinear_arith);
    }
}

/// A character is the digit `d` exactly if it is the decimal digit `d`, or
/// the letter that stands for it, in either case.
pub proof fn law_digits_are_digits_and_letters(c: char, radix: nat, d: nat)
    requires
        2 <= radix <= 36,
    ensures
        digit_value(c, radix) == Some(d) <==> d < radix && if d < 10 {
            c as int == '0' as int + d
        } else {
            c as int == 'A' as int + d - 10 || c as int == 'a' as int + d - 10
        },
{
}

/// One more digit at the end multiplies a number by the radix and adds the
/// digit; anything else at the end makes it no number.
pub proof fn law_numbers_are_positional(s: Seq<char>, c: char, radix: nat)
    ensures
        digits_value(Seq::empty(), radix) == Some(0nat),
        digits_value(s.push(c), radix) is Some <==> digits_value(s, radix) is Some && digit_value(
            c,
            radix,
        ) is Some,
        digits_value(s.push(c), radix) is Some ==> digits_value(s.push(c), radix)->0
            == digits_value(s, radix)->0 * radix + digit_value(c, radix)->0,
{
    assert(s.push(c).drop_last() =~= s);
}

/// The digits of a number stand for values below the base, and none of them
/// is a leading zero.
proof fn lemma_digits(n: nat, base: nat, upper: bool)
    requires
        2 <= base <= 16,
    ensures
        forall|i: int|
            0 <= i < digits(n, base, upper).len() ==> exists|d: nat|
                d < base && #[trigger] digits(n, base, upper)[i] == #[trigger] digit_char(d, upper),
        n > 0 ==> digits(n, base, upper)[0] != '0',
    decreases n,
{
    let text = digits(n, base, upper);
    if n < base {
        assert(text[0] == digit_char(n, upper));
    } else {
        lemma_quotient_is_smaller(n, base);
        let high = n / base;
        assert(high > 0 && n % base < base) by (nonlinear_arith)
            requires
                high == n / base,
                n >= base >= 2,
        ;
        lemma_digits(high, base, upper);
        law_digits_read_back(high, base, upper);
        let before = digits(high, base, upper);
        assert(text == before.push(digit_char(n % base, upper)));
        assert forall|i: int| 0 <= i < text.len() implies exists|d: nat|
            d < base && #[trigger] text[i] == #[trigger] digit_char(d, upper) by {
            if i < before.len() {
                assert(text[i] == before[i]);
            } else {
                assert(text[i] == digit_char(n % base, upper));
            }
        }
    }
}

/// Decimal notation: it reads back as the number, is made of the digits 0 to
/// 9 alone, and has no leading zero.
pub proof fn law_decimal_notation(n: nat)
    ensures
        digits_value(decimal(n), 10) == Some(n),
        decimal(n).len() > 0,
        n > 0 ==> decimal(n)[0] != '0',
        n < 10 ==> decimal(n).len() == 1,
        forall|i: int| 0 <= i < decimal(n).len() ==> '0' <= #[trigger] decimal(n)[i] <= '9',
{
    law_digits_read_back(n, 10, false);
    lemma_digits(n, 10, false);
    assert forall|i: int| 0 <= i < decimal(n).len() implies '0' <= #[trigger] decimal(n)[i]
        <= '9' by {
        let d = choose|d: nat|
            d < 10 && #[trigger] digits(n, 10, false)[i] == #[trigger] digit_char(d, false);
        assert(decimal(n)[i] == digit_char(d, false));
    }
}

/// Zeros in front do not change a number.
proof fn lemma_leading_zeros(k: nat, s: Seq<char>, radix: nat)
    requires
        2 <= radix,
    ensures
        digits_value(Seq::new(k, |i: int| '0') + s, radix) == digits_value(s, radix),
    decreases k + s.len(),
{
    let zeros = Seq::new(k, |i: int| '0');
    if s.len() > 0 {
        lemma_leading_zeros(k, s.drop_last(), radix);
        assert((zeros + s).drop_last() =~= zeros + s.drop_last());
    } else if k > 0 {
        let fewer = Seq::new((k - 1) as nat, |i: int| '0');
        lemma_leading_zeros((k - 1) as nat, s, radix);
        assert((zeros + s).drop_last() =~= fewer + s);
        assert((zeros + s).last() == '0');
        assert(digit_value('0', radix) == Some(0nat));
        assert(0 * radix + 0 == 0) by (nonlinear_arith);
    } else {
        assert(zeros + s =~= s);
    }
}

/// Hexadecimal notation: it reads back as the number, has at least the width,
/// is made of digits and letters of the one case alone, and has no more
/// leading zeros than the width asks for.
pub proof fn law_hexadecimal_notation(n: nat, width: nat, upper: bool)
    ensures
        digits_value(hex(n, width, upper), 16) == Some(n),
        hex(n, width, upper).len() >= width,
        hex(n, width, upper).len() > 0,
        hex(n, width, upper).len() > width && n > 0 ==> hex(n, width, upper)[0] != '0',
        hex(n, width, upper).len() > width && n == 0 ==> hex(n, width, upper).len() == 1,
        forall|i: int|
            0 <= i < hex(n, width, upper).len() ==> '0' <= #[trigger] hex(n, width, upper)[i] <= '9'
                || (upper && 'A' <= hex(n, width, upper)[i] <= 'F') || (!upper && 'a' <= hex(
                n,
                width,
                upper,
            )[i] <= 'f'),
{
    law_digits_read_back(n, 16, upper);
    lemma_digits(n, 16, upper);
    let d = digits(n, 16, upper);
    let text = hex(n, width, upper);
    if d.len() < width {
        lemma_leading_zeros((width - d.len()) as nat, d, 16);
    }
    assert forall|i: int| 0 <= i < text.len() implies '0' <= #[trigger] text[i] <= '9' || (upper
        && 'A' <= text[i] <= 'F') || (!upper && 'a' <= text[i] <= 'f') by {
        let k = i - (text.len() - d.len());
        if k >= 0 {
            assert(text[i] == d[k]);
            let v = choose|v: nat|
                v < 16 && #[trigger] digits(n, 16, upper)[k] == #[trigger] digit_char(v, upper);
            assert(d[k] == digit_char(v, upper));
        }
    }
}

/// A number of at most `width` hexadecimal digits takes exactly that width.
pub proof fn law_hexadecimal_width(n: nat, width: nat, upper: bool)
    requires
        1 <= width,
        n < pow(16, width),
    ensures
        hex(n, width, upper).len() == width,
{
    lemma_digit_count(n, width, upper);
}

proof fn lemma_digit_count(n: nat, width: nat, upper: bool)
    requires
        1 <= width,
        n < pow(16, width),
    ensures
        digits(n, 16, upper).len() <= width,
    decreases width,
{
    if n >= 16 {
        assert(width > 1) by {
            if width == 1 {
                vstd::arithmetic::power::lemma_pow1(16);
            }
        }
        assert(pow(16, width) == 16 * pow(16, (width - 1) as nat)) by {
            reveal(pow);
        }
        assert(n / 16 < pow(16, (width - 1) as nat));
        lemma_digit_count(n / 16, (width - 1) as nat, upper);
    }
}

/// An unsigned number is a text of one or more digits whose value is within
/// the bound; a plus sign in front does not change it.
pub proof fn law_unsigned_numbers_are_digits(s: Seq<char>, radix: nat, max: nat, v: nat)
    requires
        2 <= radix <= 36,
    ensures
        s.len() == 0 || s[0] != '+' ==> (unsigned_value(s, radix, max) == Some(v) <==> s.len() > 0
            && digits_value(s, radix) == Some(v) && v <= max),
        unsigned_value(seq!['+'] + s, radix, max) == Some(v) <==> s.len() > 0 && digits_value(
            s,
            radix,
        ) == Some(v) && v <= max,
{
    assert((seq!['+'] + s).skip(1) =~= s);
}

/// A signed number is an unsigned one, or a text of digits after a minus
/// sign, which makes it negative; it fits 128 bits.
pub proof fn law_signed_numbers_have_a_sign(s: Seq<char>, radix: nat, v: int)
    requires
        2 <= radix <= 36,
    ensures
        s.len() == 0 || s[0] != '-' ==> (signed_value(s, radix) == Some(v) <==> v >= 0
            && unsigned_value(s, radix, i128::MAX as nat) == Some(v as nat)),
        signed_value(seq!['-'] + s, radix) == Some(v) <==> s.len() > 0 && digits_value(s, radix)
            == Some((-v) as nat) && i128::MIN <= v <= 0,
{
    assert((seq!['-'] + s).skip(1) =~= s);
}

/// Trimming takes white space off both ends, all of it, and nothing else.
pub proof fn law_trimming_takes_space_off_both_ends(s: Seq<char>) -> (r: (Seq<char>, Seq<char>))
    ensures
        s == r.0 + trimmed(s) + r.1,
        forall|i: int| 0 <= i < r.0.len() ==> is_space(#[trigger] r.0[i]),
        forall|i: int| 0 <= i < r.1.len() ==> is_space(#[trigger] r.1[i]),
        trimmed(s).len() > 0 ==> !is_space(trimmed(s)[0]) && !is_space(trimmed(s).last()),
{
    let drop = |c: char| is_space(c);
    let rest = trimmed_start(s, drop);
    let before = lemma_start_off(s);
    let after = lemma_end_off(rest);
    assert(s =~= before + trimmed(s) + after);
    (before, after)
}

proof fn lemma_start_off(s: Seq<char>) -> (before: Seq<char>)
    ensures
        s == before + trimmed_start(s, |c: char| is_space(c)),
        forall|i: int| 0 <= i < before.len() ==> is_space(#[trigger] before[i]),
        ({
            let rest = trimmed_start(s, |c: char| is_space(c));
            rest.len() > 0 ==> !is_space(rest[0])
        }),
    decreases s.len(),
{
    let drop = |c: char| is_space(c);
    if s.len() > 0 && is_space(s[0]) {
        let more = lemma_start_off(s.skip(1));
        let before = seq![s[0]] + more;
        assert(s =~= before + trimmed_start(s, drop)) by {
            assert(s =~= seq![s[0]] + s.skip(1));
        }
        before
    } else {
        assert(s =~= Seq::<char>::empty() + s);
        Seq::empty()
    }
}

proof fn lemma_end_off(s: Seq<char>) -> (after: Seq<char>)
    ensures
        s == trimmed_end(s, |c: char| is_space(c)) + after,
        forall|i: int| 0 <= i < after.len() ==> is_space(#[trigger] after[i]),
        ({
            let rest = trimmed_end(s, |c: char| is_space(c));
            &&& rest.len() > 0 ==> !is_space(rest.last())
            &&& rest.len() > 0 ==> rest[0] == s[0]
        }),
    decreases s.len(),
{
    let drop = |c: char| is_space(c);
    if s.len() > 0 && is_space(s.last()) {
        let more = lemma_end_off(s.drop_last());
        let after = more.push(s.last());
        assert(s =~= trimmed_end(s, drop) + after) by {
            assert(s =~= s.drop_last().push(s.last()));
        }
        after
    } else {
        assert(s =~= s + Seq::<char>::empty());
        Seq::empty()
    }
}

/// White space is what Unicode calls so: in ASCII the blank and the control
/// characters from tabulator to carriage return, and beyond ASCII the next
/// line control character and the spaces and separators.
pub proof fn law_white_space_is_that_of_unicode(c: char)
    ensures
        c == ' ' || '\t' <= c <= '\r' ==> is_space(c),
        c as u32 <= 0x7F && c != ' ' && !('\t' <= c <= '\r') ==> !is_space(c),
        c as u32 > 0x7F ==> (is_space(c) <==> c == '\u{85}' || c == '\u{A0}' || c == '\u{1680}' || (
        '\u{2000}' <= c <= '\u{200A}') || c == '\u{2028}' || c == '\u{2029}' || c == '\u{202F}' || c
            == '\u{205F}' || c == '\u{3000}'),
{
}

} // verus!
