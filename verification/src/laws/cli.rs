//! The command line: what arguments denote, and what messages say.

use crate::bytes::{byte_range, le_value, lemma_le_bytes_len, lemma_value_of_bytes};
use crate::cli::{argument_value, byte_list, data_argument, failure_message, heartbeat_argument};
use crate::cli::{nmt_argument, node_argument, object_name, read_message, read_report};
use crate::cli::{size_argument, target_argument, write_report};
use crate::codegen::laws::{is_part_of, lemma_part_at};
use crate::laws::number::{law_bytes_are_little_endian, law_decimal_notation};
use crate::laws::number::{law_hexadecimal_notation, law_hexadecimal_width};
use crate::laws::number::law_number_of_bytes_grows_by_weight;
use crate::nmt::{reset_of_frame, state_after_frame, NmtResetRequest, NmtState};
use crate::number::{digit_value, digits_value, is_hex, unsigned_value};
use crate::sdo::SdoTransferError;
use crate::sdo::client::Outcome;
use crate::text::{decimal, digits, has_prefix, hex};
use vstd::arithmetic::power::pow;
use vstd::prelude::*;

verus! {

/// A text that is made of decimal digits alone has no prefix and no sign.
proof fn lemma_plain_digits(s: Seq<char>)
    requires
        s.len() > 0,
        forall|i: int| 0 <= i < s.len() ==> '0' <= #[trigger] s[i] <= '9',
    ensures
        !is_hex(s),
        s[0] != '+',
{
    reveal_strlit("0x");
    reveal_strlit("0X");
    if is_hex(s) {
        assert(s.take(2)[1] == s[1]);
    }
}

/// Every number of up to 64 bits can be given in decimal or hexadecimal
/// notation, with either prefix, letters of either case and leading zeros,
/// and is taken as that number; a larger number is refused.
pub proof fn law_arguments_denote_their_number(n: nat, width: nat, upper: bool)
    ensures
        n <= u64::MAX ==> {
            &&& argument_value(decimal(n)) == Some(n)
            &&& argument_value("+"@ + decimal(n)) == Some(n)
            &&& argument_value("0x"@ + hex(n, width, upper)) == Some(n)
            &&& argument_value("0X"@ + hex(n, width, upper)) == Some(n)
        },
        n > u64::MAX ==> {
            &&& argument_value(decimal(n)) is None
            &&& argument_value("0x"@ + hex(n, width, upper)) is None
        },
{
    let d = decimal(n);
    let h = hex(n, width, upper);
    law_decimal_notation(n);
    law_hexadecimal_notation(n, width, upper);
    lemma_plain_digits(d);
    reveal_strlit("+");
    reveal_strlit("0x");
    reveal_strlit("0X");
    let signed = "+"@ + d;
    assert(signed.skip(1) =~= d);
    assert(!is_hex(signed)) by {
        assert(signed[0] == '+');
        if is_hex(signed) {
            assert(signed.take(2)[0] == signed[0]);
        }
    }
    assert(("0x"@ + h).take(2) =~= "0x"@ && ("0x"@ + h).skip(2) =~= h);
    assert(("0X"@ + h).take(2) =~= "0X"@ && ("0X"@ + h).skip(2) =~= h);
    assert(h[0] != '+');
}

/// An argument is hexadecimal exactly if it starts with `0x` or `0X`, and then
/// what follows is the number; any other argument is a decimal number as it
/// stands. Either way a number has up to 64 bits.
pub proof fn law_the_prefix_decides_on_the_notation(s: Seq<char>)
    ensures
        argument_value(seq!['0', 'x'] + s) == unsigned_value(s, 16, u64::MAX as nat),
        argument_value(seq!['0', 'X'] + s) == unsigned_value(s, 16, u64::MAX as nat),
        s.len() < 2 || s[0] != '0' || (s[1] != 'x' && s[1] != 'X') ==> argument_value(s)
            == unsigned_value(s, 10, u64::MAX as nat),
{
    reveal_strlit("0x");
    reveal_strlit("0X");
    let a = seq!['0', 'x'] + s;
    let b = seq!['0', 'X'] + s;
    assert(a.take(2) =~= "0x"@ && a.skip(2) =~= s);
    assert(b.take(2) =~= "0X"@ && b.skip(2) =~= s);
    if is_hex(s) {
        assert(s.take(2)[0] == s[0] && s.take(2)[1] == s[1]);
    }
}

/// A text with a character that is no hexadecimal digit after its first three
/// characters is no number, and neither is the empty text.
pub proof fn law_other_texts_are_no_numbers(s: Seq<char>, i: int)
    ensures
        argument_value(Seq::empty()) is None,
        3 <= i < s.len() && digit_value(s[i], 16) is None ==> argument_value(s) is None,
        0 < i < s.len() && !is_hex(s) && digit_value(s[i], 10) is None ==> argument_value(s) is None,
{
    reveal_strlit("0x");
    reveal_strlit("0X");
    assert(!is_hex(Seq::empty()));
    if 0 < i < s.len() && digit_value(s[i], 16) is None {
        if 3 <= i {
            lemma_digit_needed(s.skip(2), 16, i - 2);
            lemma_digit_needed(s.skip(2).skip(1), 16, i - 3);
        }
    }
    if 0 < i < s.len() && digit_value(s[i], 10) is None {
        lemma_digit_needed(s, 10, i);
        lemma_digit_needed(s.skip(1), 10, i - 1);
    }
}

/// A string of digits has nothing but digits.
proof fn lemma_digit_needed(s: Seq<char>, radix: nat, i: int)
    requires
        0 <= i < s.len(),
        digit_value(s[i], radix) is None,
    ensures
        digits_value(s, radix) is None,
    decreases s.len(),
{
    if i < s.len() - 1 {
        lemma_digit_needed(s.drop_last(), radix, i);
    }
}

/// A node id is taken if it is a number from 1 to 127, and it is that number.
pub proof fn law_node_argument_is_the_id(s: Seq<char>, id: u8)
    ensures
        node_argument(s) == Ok::<u8, Seq<char>>(id) <==> argument_value(s) == Some(id as nat) && 1
            <= id <= 127,
{
}

/// A heartbeat period is taken if it is a number of 16 bits, and it is that
/// number of milliseconds; without an argument it is one second.
pub proof fn law_heartbeat_argument_is_the_period(s: Seq<char>, ms: nat)
    ensures
        heartbeat_argument(Some(s)) == Ok::<nat, Seq<char>>(ms) <==> argument_value(s) == Some(ms)
            && ms < 0x1_0000,
        heartbeat_argument(None) == Ok::<nat, Seq<char>>(1000),
{
}

/// The object of a transfer is taken if server, index and sub-index are
/// numbers in range, and each is the number that its own argument denotes.
pub proof fn law_target_argument_is_the_object(
    server: Seq<char>,
    index: Seq<char>,
    sub: Seq<char>,
)
    ensures
        target_argument(server, index, sub) matches Ok(target) ==> {
            &&& argument_value(server) == Some(target.server as nat)
            &&& 1 <= target.server <= 127
            &&& argument_value(index) == Some(target.index as nat)
            &&& argument_value(sub) == Some(target.sub as nat)
        },
        target_argument(server, index, sub) is Ok <==> {
            &&& argument_value(server) is Some && 1 <= argument_value(server)->0 <= 127
            &&& argument_value(index) is Some && argument_value(index)->0 < 0x1_0000
            &&& argument_value(sub) is Some && argument_value(sub)->0 < 0x100
        },
{
}

/// An NMT request has the effect that its name says on the node that its
/// argument addresses, or on every node for 0, and none on any other node.
pub proof fn law_nmt_argument_has_its_effect(
    command: Seq<char>,
    id: Seq<char>,
    state: NmtState,
    node: u8,
)
    requires
        1 <= node <= 127,
    ensures
        nmt_argument(command, id) is Ok <==> {
            &&& command == "start"@ || command == "stop"@ || command == "preop"@ || command
                == "reset-node"@ || command == "reset-comm"@
            &&& argument_value(id) is Some && argument_value(id)->0 <= 127
        },
        nmt_argument(command, id) matches Ok(frame) ==> {
            let address = argument_value(id)->0;
            let after = state_after_frame(state, frame.data, node);
            let reset = reset_of_frame(frame.data, node);
            &&& frame.id == 0
            &&& frame.data.len() == 2
            &&& frame.data[1] == address
            &&& address == 0 || address == node ==> {
                &&& command == "start"@ ==> after is Operational && reset is None
                &&& command == "stop"@ ==> after is Stopped && reset is None
                &&& command == "preop"@ ==> after is PreOperational && reset is None
                &&& command == "reset-node"@ ==> after == state && reset == Some(
                    NmtResetRequest::Node,
                )
                &&& command == "reset-comm"@ ==> after == state && reset == Some(
                    NmtResetRequest::Communication,
                )
            }
            &&& address != 0 && address != node ==> after == state && reset is None
        },
{
    reveal_strlit("start");
    reveal_strlit("stop");
    reveal_strlit("preop");
    reveal_strlit("reset-node");
    reveal_strlit("reset-comm");
    let (a, b, c) = ("start"@, "stop"@, "preop"@);
    let (d, e) = ("reset-node"@, "reset-comm"@);
    assert(a[1] == 't' && b[1] == 't' && c[1] == 'r' && d[1] == 'e' && e[1] == 'e');
    assert(a.len() == 5 && b.len() == 4 && c.len() == 5 && d[6] == 'n' && e[6] == 'c');
    if let Ok(frame) = nmt_argument(command, id) {
        assert(frame.data[0] == frame.data[0] && frame.data[1] == argument_value(id)->0);
    }
}

/// What is written denotes the number that was given: the data is as long as
/// the size argument says, and read as one little-endian number it is the
/// number of the value argument, byte by byte.
pub proof fn law_data_argument_denotes_the_value(value: Seq<char>, size: Seq<char>, i: nat)
    ensures
        data_argument(value, size) matches Ok(data) ==> {
            &&& argument_value(value) == Some(le_value(data))
            &&& digits_value(size, 10) == Some(data.len())
            &&& data.len() == 1 || data.len() == 2 || data.len() == 4
            &&& i < data.len() ==> data[i as int] as int == argument_value(value)->0 as int / pow(
                256,
                i,
            ) % 256
        },
{
    if let Ok(data) = data_argument(value, size) {
        let number = argument_value(value)->0;
        let n = size_argument(size)->0;
        lemma_size_argument(size);
        lemma_le_bytes_len(number, n);
        reveal_with_fuel(byte_range, 5);
        lemma_value_of_bytes(number, n);
        if i < n {
            law_bytes_are_little_endian(number, n, i);
        }
    }
}

/// A size argument is the digit of the number of bytes.
proof fn lemma_size_argument(size: Seq<char>)
    ensures
        size_argument(size) is Some <==> size == seq!['1'] || size == seq!['2'] || size == seq![
            '4',
        ],
        size_argument(size) is Some ==> digits_value(size, 10) == Some(size_argument(size)->0),
{
    reveal_strlit("1");
    reveal_strlit("2");
    reveal_strlit("4");
    assert("1"@ =~= seq!['1'] && "2"@ =~= seq!['2'] && "4"@ =~= seq!['4']);
    let (one, two, four) = (seq!['1'], seq!['2'], seq!['4']);
    assert(one[0] != two[0] && two[0] != four[0] && one[0] != four[0]);
    if size_argument(size) is Some {
        assert(size.drop_last() =~= Seq::<char>::empty());
        reveal_with_fuel(digits_value, 2);
    }
}

/// A value is taken exactly if it is a number, the size is 1, 2 or 4, and the
/// number fits that many bytes.
pub proof fn law_data_argument_is_taken_if_it_fits(value: Seq<char>, size: Seq<char>)
    ensures
        data_argument(value, size) is Ok <==> {
            &&& argument_value(value) is Some
            &&& size == seq!['1'] || size == seq!['2'] || size == seq!['4']
            &&& argument_value(value)->0 < pow(256, digits_value(size, 10)->0)
        },
{
    lemma_size_argument(size);
    if size_argument(size) is Some {
        let n = size_argument(size)->0;
        law_number_of_bytes_grows_by_weight(Seq::new(n, |i: int| 0u8), 0);
        reveal_with_fuel(byte_range, 5);
    }
}

/// An object is named by its index in four hexadecimal digits and its
/// sub-index in two, so that both can be read off.
pub proof fn law_object_name_shows_the_object(index: u16, sub: u8)
    ensures
        object_name(index, sub).len() == 11,
        object_name(index, sub).subrange(0, 2) == seq!['0', 'x'],
        digits_value(object_name(index, sub).subrange(2, 6), 16) == Some(index as nat),
        object_name(index, sub).subrange(6, 9) == seq![':', '0', 'x'],
        digits_value(object_name(index, sub).subrange(9, 11), 16) == Some(sub as nat),
{
    reveal_strlit("0x");
    reveal_strlit(":");
    assert(pow(16, 4) == 0x1_0000 && pow(16, 2) == 0x100) by {
        reveal(pow);
        reveal_with_fuel(pow, 5);
    }
    law_hexadecimal_width(index as nat, 4, true);
    law_hexadecimal_width(sub as nat, 2, true);
    law_hexadecimal_notation(index as nat, 4, true);
    law_hexadecimal_notation(sub as nat, 2, true);
    let name = object_name(index, sub);
    assert(name.subrange(0, 2) =~= seq!['0', 'x']);
    assert(name.subrange(2, 6) =~= hex(index as nat, 4, true));
    assert(name.subrange(6, 9) =~= seq![':', '0', 'x']);
    assert(name.subrange(9, 11) =~= hex(sub as nat, 2, true));
}

/// A list of hexadecimal bytes shows byte `i` at the position `4 * i`, in two
/// digits, with a comma and a space between the bytes.
pub proof fn law_byte_list_shows_every_byte(data: Seq<u8>, i: int)
    requires
        0 <= i < data.len(),
    ensures
        byte_list(data, true).len() == 4 * data.len() - 2,
        byte_list(data, true).subrange(4 * i, 4 * i + 2) == hex(data[i] as nat, 2, true),
        digits_value(byte_list(data, true).subrange(4 * i, 4 * i + 2), 16) == Some(data[i] as nat),
        i > 0 ==> byte_list(data, true).subrange(4 * i - 2, 4 * i) == seq![',', ' '],
    decreases data.len(),
{
    reveal_strlit(", ");
    reveal_strlit("");
    let rest = data.drop_last();
    let b = data.last() as nat;
    assert(pow(16, 2) == 0x100) by {
        reveal(pow);
        reveal_with_fuel(pow, 3);
    }
    law_hexadecimal_width(b, 2, true);
    law_hexadecimal_notation(b, 2, true);
    let text = byte_list(data, true);
    let before = byte_list(rest, true);
    if rest.len() > 0 {
        law_byte_list_shows_every_byte(rest, 0);
    }
    if i == data.len() - 1 {
        assert(text.subrange(4 * i, 4 * i + 2) =~= hex(b, 2, true));
        if i > 0 {
            assert(text.subrange(4 * i - 2, 4 * i) =~= seq![',', ' ']);
        }
    } else {
        law_byte_list_shows_every_byte(rest, i);
        assert(text.subrange(4 * i, 4 * i + 2) =~= before.subrange(4 * i, 4 * i + 2));
        if i > 0 {
            assert(text.subrange(4 * i - 2, 4 * i) =~= before.subrange(4 * i - 2, 4 * i));
        }
    }
}

/// A list of decimal bytes grows by a comma, a space and the next byte.
pub proof fn law_byte_list_grows_by_one_byte(data: Seq<u8>, b: u8)
    ensures
        byte_list(Seq::empty(), false) == Seq::<char>::empty(),
        byte_list(seq![b], false) == decimal(b as nat),
        data.len() > 0 ==> byte_list(data.push(b), false) == byte_list(data, false) + seq![
            ',',
            ' ',
        ] + decimal(b as nat),
{
    reveal_strlit(", ");
    reveal_strlit("");
    assert(", "@ =~= seq![',', ' ']);
    assert(data.push(b).drop_last() =~= data);
    assert(seq![b].drop_last() =~= Seq::<u8>::empty());
    reveal_with_fuel(byte_list, 2);
    assert(byte_list(seq![b], false) =~= decimal(b as nat));
}

/// The message for a value that was read starts with the object. Up to four
/// bytes follow as the number that they denote, in decimal; then come the
/// length, with the plural where it is due, and the bytes.
pub proof fn law_read_message_shows_the_value(index: u16, sub: u8, data: Seq<u8>)
    ensures
        ({
            let shown = object_name(index, sub) + (if data.len() <= 4 {
                seq![' ', '=', ' '] + decimal(le_value(data))
            } else {
                Seq::empty()
            }) + seq![' ', '('] + decimal(data.len()) + seq![' ', 'b', 'y', 't', 'e'] + (
            if data.len() == 1 {
                Seq::empty()
            } else {
                seq!['s']
            }) + seq![',', ' ', 'r', 'a', 'w', ' ', '['] + byte_list(data, true) + seq![']', ')'];
            read_message(index, sub, data) == shown
        }),
{
    reveal_strlit(" = ");
    reveal_strlit("");
    reveal_strlit(" (");
    reveal_strlit(" byte");
    reveal_strlit("s");
    reveal_strlit(", raw [");
    reveal_strlit("])");
    assert(" = "@ =~= seq![' ', '=', ' ']);
    assert(""@ =~= Seq::<char>::empty());
    assert(" ("@ =~= seq![' ', '(']);
    assert(" byte"@ =~= seq![' ', 'b', 'y', 't', 'e']);
    assert("s"@ =~= seq!['s']);
    assert(", raw ["@ =~= seq![',', ' ', 'r', 'a', 'w', ' ', '[']);
    assert("])"@ =~= seq![']', ')']);
}

/// What is written is what a read shows: the message for a read of the bytes
/// of a value argument shows the number that the argument denotes.
pub proof fn law_written_value_is_shown_again(
    value: Seq<char>,
    size: Seq<char>,
    index: u16,
    sub: u8,
)
    ensures
        data_argument(value, size) matches Ok(data) ==> has_prefix(
            read_message(index, sub, data),
            object_name(index, sub) + seq![' ', '=', ' '] + decimal(argument_value(value)->0)
                + seq![' ', '('],
        ),
{
    law_data_argument_denotes_the_value(value, size, 0);
    if let Ok(data) = data_argument(value, size) {
        law_read_message_shows_the_value(index, sub, data);
        let start = object_name(index, sub) + seq![' ', '=', ' '] + decimal(
            argument_value(value)->0,
        ) + seq![' ', '('];
        assert(read_message(index, sub, data).take(start.len() as int) =~= start);
    }
}

/// A read that ended with a value is reported with that value, a write that
/// was accepted with the object and the number, and any other end as a
/// failure.
pub proof fn law_reports_tell_success_from_failure(end: Outcome, value: u64)
    ensures
        match end {
            Outcome::UploadOk { index, sub, data } => {
                &&& read_report(end) == Ok::<Seq<char>, Seq<char>>(read_message(index, sub, data))
                &&& write_report(end, value) is Err
            },
            Outcome::DownloadOk { index, sub } => {
                &&& write_report(end, value) == Ok::<Seq<char>, Seq<char>>(
                    object_name(index, sub) + seq![' ', '<', '-', ' '] + decimal(value as nat)
                        + seq![' ', 'w', 'r', 'i', 't', 't', 'e', 'n'],
                )
                &&& read_report(end) is Err
            },
            Outcome::Failed { .. } => {
                &&& read_report(end) == Err::<Seq<char>, Seq<char>>(failure_message(end))
                &&& write_report(end, value) == Err::<Seq<char>, Seq<char>>(failure_message(end))
            },
        },
{
    reveal_strlit(" <- ");
    reveal_strlit(" written");
    assert(" <- "@ =~= seq![' ', '<', '-', ' ']);
    assert(" written"@ =~= seq![' ', 'w', 'r', 'i', 't', 't', 'e', 'n']);
}

/// The message for a failed transfer names the object, unless the answer was
/// malformed, and for an abort the code in eight hexadecimal digits.
pub proof fn law_failures_name_the_object_and_the_code(
    index: u16,
    sub: u8,
    error: SdoTransferError,
)
    ensures
        error !is Protocol ==> is_part_of(
            object_name(index, sub),
            failure_message(Outcome::Failed { index, sub, error }),
        ),
        error matches SdoTransferError::Abort(code) ==> is_part_of(
            object_name(index, sub) + seq![':', ' ', '0', 'x'] + hex(code.0 as nat, 8, true),
            failure_message(Outcome::Failed { index, sub, error }),
        ),
{
    let text = failure_message(Outcome::Failed { index, sub, error });
    let name = object_name(index, sub);
    reveal_strlit(": ");
    reveal_strlit("0x");
    match error {
        SdoTransferError::Abort(code) => {
            let n = "SDO abort for "@.len() as int;
            let whole = name + seq![':', ' ', '0', 'x'] + hex(code.0 as nat, 8, true);
            assert(text.subrange(n, n + name.len()) =~= name);
            lemma_part_at(text, n, name);
            assert(text.subrange(n, n + whole.len()) =~= whole);
            lemma_part_at(text, n, whole);
        },
        SdoTransferError::Timeout => {
            let n = "SDO timeout for "@.len() as int;
            assert(text.subrange(n, n + name.len()) =~= name);
            lemma_part_at(text, n, name);
        },
        SdoTransferError::BufferTooSmall => {
            let n = "SDO value of "@.len() as int;
            assert(text.subrange(n, n + name.len()) =~= name);
            lemma_part_at(text, n, name);
        },
        SdoTransferError::Protocol => {},
    }
}

/// A refusal tells the user what was wrong with which argument: a text that is
/// no number and an unknown command are repeated, a node id that is out of
/// range is repeated, and a number that is too large is shown with the number
/// of bytes that it does not fit.
pub proof fn law_refusals_repeat_the_argument(s: Seq<char>, size: Seq<char>, id: Seq<char>)
    ensures
        node_argument(s) matches Err(e) ==> is_part_of(s, e),
        heartbeat_argument(Some(s)) matches Err(e) ==> argument_value(s) is None ==> is_part_of(
            s,
            e,
        ),
        nmt_argument(s, id) matches Err(e) ==> (s != "start"@ && s != "stop"@ && s != "preop"@ && s
            != "reset-node"@ && s != "reset-comm"@) ==> is_part_of(s, e),
        argument_value(s) is None ==> data_argument(s, size) == Err::<Seq<u8>, Seq<char>>(
            "invalid number: "@ + s,
        ),
        argument_value(s) is Some && size_argument(size) is Some && data_argument(s, size) is Err
            ==> data_argument(s, size) == Err::<Seq<u8>, Seq<char>>(
            "value "@ + decimal(argument_value(s)->0) + " does not fit into "@ + size
                + " byte(s)"@,
        ),
{
    let n = "invalid number: "@.len() as int;
    let text = "invalid number: "@ + s;
    assert(text.subrange(n, n + s.len()) =~= s);
    lemma_part_at(text, n, s);
    let m = "node id must be 1..=127, got "@.len() as int;
    let other = "node id must be 1..=127, got "@ + s;
    assert(other.subrange(m, m + s.len()) =~= s);
    lemma_part_at(other, m, s);
    let k = "unknown NMT command: "@.len() as int;
    let unknown = "unknown NMT command: "@ + s;
    assert(unknown.subrange(k, k + s.len()) =~= s);
    lemma_part_at(unknown, k, s);
    lemma_size_argument(size);
    if size_argument(size) is Some {
        reveal_with_fuel(digits, 2);
        assert(decimal(size_argument(size)->0) =~= size) by {
            reveal_strlit("1");
            reveal_strlit("2");
            reveal_strlit("4");
        }
    }
}

} // verus!
