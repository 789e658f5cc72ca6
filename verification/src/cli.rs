//! Command line arguments and messages of a CANopen tool.
//!
//! Numbers are decimal or `0x`-prefixed hexadecimal.

use crate::bytes::{le_bytes, le_value, lemma_le_bytes_prefix, u64_to_le};
use crate::cob;
use crate::frame::{CanFrame, FrameView};
use crate::nmt::{command_byte, NmtCommand};
use crate::node_id::NodeId;
use crate::number::{is_hex, read_unsigned, strip_hex_prefix, unsigned_value};
use crate::sdo::abort::abort_text;
use crate::sdo::client::{Outcome, SdoTransferError};
use crate::sdo::transfer::Completion;
use crate::text::{decimal, decimal_text, hex, hex_literal, hex_literal_text, hex_text, same};
use crate::text::text_result;
use vstd::prelude::*;
use vstd::slice::slice_subrange;
use vstd::string::StringExecFns;

verus! {

/// The number that an argument denotes.
pub open spec fn argument_value(s: Seq<char>) -> Option<nat> {
    if is_hex(s) {
        unsigned_value(s.skip(2), 16, 0xFFFF_FFFF_FFFF_FFFF)
    } else {
        unsigned_value(s, 10, 0xFFFF_FFFF_FFFF_FFFF)
    }
}

/// The message for an argument that is no number.
pub open spec fn not_a_number(s: Seq<char>) -> Seq<char> {
    "invalid number: "@ + s
}

/// Parse a decimal or hexadecimal number.
pub fn parse_num(s: &str) -> (value: Result<u64, String>)
    ensures
        match argument_value(s@) {
            Some(expected) => value is Ok && value->Ok_0 == expected,
            None => value is Err && value->Err_0@ == not_a_number(s@),
        },
{
    let parsed = match strip_hex_prefix(s) {
        Some(hex) => read_unsigned(hex, 16, 0xFFFF_FFFF_FFFF_FFFF),
        None => read_unsigned(s, 10, 0xFFFF_FFFF_FFFF_FFFF),
    };
    match parsed {
        Some(value) => Ok(value as u64),
        None => {
            let mut e = "invalid number: ".to_owned();
            e.append(s);
            Err(e)
        },
    }
}

/// The number that an argument denotes, at most `max`, or a message.
pub open spec fn bounded_argument(s: Seq<char>, max: nat, message: Seq<char>) -> Result<
    nat,
    Seq<char>,
> {
    match argument_value(s) {
        None => Err(not_a_number(s)),
        Some(value) => if value <= max {
            Ok(value)
        } else {
            Err(message)
        },
    }
}

/// Parse a number of at most `max`.
fn parse_bounded(s: &str, max: u64, message: &str) -> (value: Result<u64, String>)
    ensures
        match bounded_argument(s@, max as nat, message@) {
            Ok(expected) => value is Ok && value->Ok_0 == expected,
            Err(e) => value is Err && value->Err_0@ == e,
        },
{
    match parse_num(s) {
        Ok(value) => if value <= max {
            Ok(value)
        } else {
            Err(message.to_owned())
        },
        Err(e) => Err(e),
    }
}

/// The node id that an argument denotes, or a message.
pub open spec fn node_argument(s: Seq<char>) -> Result<u8, Seq<char>> {
    match argument_value(s) {
        None => Err(not_a_number(s)),
        Some(value) => if 1 <= value <= 127 {
            Ok(value as u8)
        } else {
            Err("node id must be 1..=127, got "@ + s)
        },
    }
}

/// Parse a node id.
pub fn parse_node_id(s: &str) -> (node: Result<NodeId, String>)
    ensures
        match node_argument(s@) {
            Ok(expected) => node is Ok && node->Ok_0.spec_raw() == expected,
            Err(e) => node is Err && node->Err_0@ == e,
        },
{
    let raw: u64 = match parse_num(s) {
        Ok(raw) => raw,
        Err(e) => return Err(e),
    };
    if raw <= 0xFF {
        if let Some(node) = NodeId::new(raw as u8) {
            return Ok(node);
        }
    }
    let mut e = "node id must be 1..=127, got ".to_owned();
    e.append(s);
    Err(e)
}

/// The heartbeat period that an optional argument denotes, in milliseconds;
/// one second without an argument.
pub open spec fn heartbeat_argument(s: Option<Seq<char>>) -> Result<nat, Seq<char>> {
    match s {
        Some(s) => bounded_argument(s, 0xFFFF, "heartbeat-ms out of range"@),
        None => Ok(1000),
    }
}

/// Parse the heartbeat period.
pub fn parse_heartbeat_ms(s: Option<&str>) -> (period: Result<u16, String>)
    ensures
        match heartbeat_argument(
            match s {
                Some(s) => Some(s@),
                None => None,
            },
        ) {
            Ok(expected) => period is Ok && period->Ok_0 == expected,
            Err(e) => period is Err && period->Err_0@ == e,
        },
{
    match s {
        Some(s) => match parse_bounded(s, 0xFFFF, "heartbeat-ms out of range") {
            Ok(period) => Ok(period as u16),
            Err(e) => Err(e),
        },
        None => Ok(1000),
    }
}

/// The NMT command with the given name.
pub open spec fn command_named(name: Seq<char>) -> Option<NmtCommand> {
    if name == "start"@ {
        Some(NmtCommand::Start)
    } else if name == "stop"@ {
        Some(NmtCommand::Stop)
    } else if name == "preop"@ {
        Some(NmtCommand::EnterPreOperational)
    } else if name == "reset-node"@ {
        Some(NmtCommand::ResetNode)
    } else if name == "reset-comm"@ {
        Some(NmtCommand::ResetCommunication)
    } else {
        None
    }
}

/// The NMT frame that two arguments ask for: a command by its name, and the
/// addressed node, 0 for all nodes.
pub open spec fn nmt_argument(command: Seq<char>, id: Seq<char>) -> Result<FrameView, Seq<char>> {
    match command_named(command) {
        None => Err("unknown NMT command: "@ + command),
        Some(command) => match bounded_argument(id, 0xFF, "node id must be 0..=127"@) {
            Err(e) => Err(e),
            Ok(addressed) => if addressed > 127 {
                Err("node id must be 0..=127 (0 = all nodes)"@)
            } else {
                Ok(
                    FrameView {
                        id: cob::NMT_SERVICE,
                        data: seq![command_byte(command), addressed as u8],
                    },
                )
            },
        },
    }
}

/// Build the frame of an NMT master command.
pub fn nmt_request(command: &str, id: &str) -> (frame: Result<CanFrame, String>)
    ensures
        match nmt_argument(command@, id@) {
            Ok(expected) => frame is Ok && frame->Ok_0@ == expected,
            Err(e) => frame is Err && frame->Err_0@ == e,
        },
{
    let byte: u8 = if same(command, "start") {
        NmtCommand::Start.as_byte()
    } else if same(command, "stop") {
        NmtCommand::Stop.as_byte()
    } else if same(command, "preop") {
        NmtCommand::EnterPreOperational.as_byte()
    } else if same(command, "reset-node") {
        NmtCommand::ResetNode.as_byte()
    } else if same(command, "reset-comm") {
        NmtCommand::ResetCommunication.as_byte()
    } else {
        let mut e = "unknown NMT command: ".to_owned();
        e.append(command);
        return Err(e);
    };
    let addressed: u8 = match parse_bounded(id, 0xFF, "node id must be 0..=127") {
        Ok(addressed) => addressed as u8,
        Err(e) => return Err(e),
    };
    if addressed > 127 {
        return Err("node id must be 0..=127 (0 = all nodes)".to_owned());
    }
    let payload: [u8; 2] = [byte, addressed];
    assert(payload@ =~= seq![byte, addressed]);
    Ok(CanFrame::new(cob::NMT_SERVICE, &payload).unwrap())
}

/// The object of an SDO transfer.
pub struct SdoTarget {
    pub server: NodeId,
    pub index: u16,
    pub sub: u8,
}

/// What the object of an SDO transfer is.
pub struct TargetSpec {
    pub server: u8,
    pub index: u16,
    pub sub: u8,
}

/// The object that three arguments denote, or the message for the first that
/// is wrong.
pub open spec fn target_argument(server: Seq<char>, index: Seq<char>, sub: Seq<char>) -> Result<
    TargetSpec,
    Seq<char>,
> {
    match node_argument(server) {
        Err(e) => Err(e),
        Ok(server) => match bounded_argument(index, 0xFFFF, "index out of range"@) {
            Err(e) => Err(e),
            Ok(index) => match bounded_argument(sub, 0xFF, "sub-index out of range"@) {
                Err(e) => Err(e),
                Ok(sub) => Ok(TargetSpec { server, index: index as u16, sub: sub as u8 }),
            },
        },
    }
}

/// Parse the object of an SDO transfer.
pub fn parse_target(server: &str, index: &str, sub: &str) -> (target: Result<SdoTarget, String>)
    ensures
        match target_argument(server@, index@, sub@) {
            Ok(expected) => target is Ok && target->Ok_0.server.spec_raw() == expected.server
                && target->Ok_0.index == expected.index && target->Ok_0.sub == expected.sub,
            Err(e) => target is Err && target->Err_0@ == e,
        },
{
    let server = match parse_node_id(server) {
        Ok(server) => server,
        Err(e) => return Err(e),
    };
    let index: u16 = match parse_bounded(index, 0xFFFF, "index out of range") {
        Ok(index) => index as u16,
        Err(e) => return Err(e),
    };
    let sub: u8 = match parse_bounded(sub, 0xFF, "sub-index out of range") {
        Ok(sub) => sub as u8,
        Err(e) => return Err(e),
    };
    Ok(SdoTarget { server, index, sub })
}

/// The number of bytes that an argument denotes.
pub open spec fn size_argument(size: Seq<char>) -> Option<nat> {
    if size == "1"@ {
        Some(1)
    } else if size == "2"@ {
        Some(2)
    } else if size == "4"@ {
        Some(4)
    } else {
        None
    }
}

/// The largest number of `size` bytes.
pub open spec fn largest(size: nat) -> nat {
    if size == 1 {
        0xFF
    } else if size == 2 {
        0xFFFF
    } else {
        0xFFFF_FFFF
    }
}

/// The bytes that a value argument denotes, in the number that a size
/// argument asks for, or the message for the first that is wrong.
pub open spec fn data_argument(value: Seq<char>, size: Seq<char>) -> Result<Seq<u8>, Seq<char>> {
    match argument_value(value) {
        None => Err(not_a_number(value)),
        Some(number) => match size_argument(size) {
            None => Err("size must be 1, 2 or 4 (bytes)"@),
            Some(n) => if number > largest(n) {
                Err("value "@ + decimal(number) + " does not fit into "@ + decimal(n) + " byte(s)"@)
            } else {
                Ok(le_bytes(number, n))
            },
        },
    }
}

/// Parse the value of an SDO write into little-endian bytes.
pub fn parse_data(value: &str, size: &str) -> (data: Result<Vec<u8>, String>)
    ensures
        match data_argument(value@, size@) {
            Ok(expected) => data is Ok && data->Ok_0@ == expected,
            Err(e) => data is Err && data->Err_0@ == e,
        },
{
    let number: u64 = match parse_num(value) {
        Ok(number) => number,
        Err(e) => return Err(e),
    };
    let (n, max): (usize, u64) = if same(size, "1") {
        (1, 0xFF)
    } else if same(size, "2") {
        (2, 0xFFFF)
    } else if same(size, "4") {
        (4, 0xFFFF_FFFF)
    } else {
        return Err("size must be 1, 2 or 4 (bytes)".to_owned());
    };
    if number > max {
        let mut e = "value ".to_owned();
        e.append(decimal_text(number as u128).as_str());
        e.append(" does not fit into ");
        e.append(decimal_text(n as u128).as_str());
        e.append(" byte(s)");
        return Err(e);
    }
    let bytes = u64_to_le(number);
    proof {
        lemma_le_bytes_prefix(number as nat, n as nat, 8);
        assert(bytes@.subrange(0, n as int) =~= bytes@.take(n as int));
    }
    Ok(vstd::slice::slice_to_vec(slice_subrange(&bytes, 0, n)))
}

/// An object as messages name it.
pub open spec fn object_name(index: u16, sub: u8) -> Seq<char> {
    hex_literal(index as nat, 4) + ":"@ + hex_literal(sub as nat, 2)
}

fn object_name_text(index: u16, sub: u8) -> (text: String)
    ensures
        text@ == object_name(index, sub),
{
    let mut text = hex_literal_text(index as u128, 4);
    text.append(":");
    text.append(hex_literal_text(sub as u128, 2).as_str());
    text
}

/// The bytes of `data` as numbers, separated by commas: two hexadecimal
/// digits each, or decimal.
pub open spec fn byte_list(data: Seq<u8>, hexadecimal: bool) -> Seq<char>
    decreases data.len(),
{
    if data.len() == 0 {
        Seq::empty()
    } else {
        byte_list(data.drop_last(), hexadecimal) + (if data.len() > 1 {
            ", "@
        } else {
            ""@
        }) + (if hexadecimal {
            hex(data.last() as nat, 2, true)
        } else {
            decimal(data.last() as nat)
        })
    }
}

fn byte_list_text(data: &[u8], hexadecimal: bool) -> (text: String)
    ensures
        text@ == byte_list(data@, hexadecimal),
{
    let mut text = String::new();
    let mut i: usize = 0;
    assert(data@.take(0) =~= Seq::<u8>::empty());
    assert(text@ =~= byte_list(data@.take(0), hexadecimal));
    while i < data.len()
        invariant
            i <= data@.len(),
            text@ == byte_list(data@.take(i as int), hexadecimal),
        decreases data@.len() - i,
    {
        assert(data@.take(i + 1).drop_last() =~= data@.take(i as int));
        text.append(
            if i > 0 {
                ", "
            } else {
                ""
            },
        );
        if hexadecimal {
            text.append(hex_text(data[i] as u128, 2, true).as_str());
        } else {
            text.append(decimal_text(data[i] as u128).as_str());
        }
        i += 1;
    }
    assert(data@.take(i as int) =~= data@);
    text
}

/// The message for a value that was read: its bytes, and the number that they
/// denote where there are no more than four.
pub open spec fn read_message(index: u16, sub: u8, data: Seq<u8>) -> Seq<char> {
    object_name(index, sub) + (if data.len() <= 4 {
        " = "@ + decimal(le_value(data))
    } else {
        ""@
    }) + " ("@ + decimal(data.len()) + " byte"@ + (if data.len() == 1 {
        ""@
    } else {
        "s"@
    }) + ", raw ["@ + byte_list(data, true) + "])"@
}

/// The number that up to four bytes denote.
fn number_of(data: &[u8]) -> (value: u32)
    requires
        data@.len() <= 4,
    ensures
        value as nat == le_value(data@),
{
    let mut value: u32 = 0;
    let mut i: usize = data.len();
    proof {
        assert(data@.skip(data@.len() as int) =~= Seq::<u8>::empty());
        reveal_with_fuel(le_value, 2);
    }
    while i > 0
        invariant
            i <= data@.len() <= 4,
            value as nat == le_value(data@.skip(i as int)),
            i == 4 ==> value == 0,
            i == 3 ==> value <= 0xFF,
            i == 2 ==> value <= 0xFFFF,
            i == 1 ==> value <= 0xFF_FFFF,
            i == data@.len() ==> value == 0,
        decreases i,
    {
        i -= 1;
        assert(data@.skip(i as int).skip(1) =~= data@.skip(i + 1));
        assert(data@.skip(i as int)[0] == data@[i as int]);
        value = data[i] as u32 + 256 * value;
    }
    assert(data@.skip(0) =~= data@);
    value
}

/// Describe a value that was read.
pub fn describe_read(index: u16, sub: u8, data: &[u8]) -> (text: String)
    ensures
        text@ == read_message(index, sub, data@),
{
    let number = if data.len() <= 4 {
        let mut number = " = ".to_owned();
        number.append(decimal_text(number_of(data) as u128).as_str());
        number
    } else {
        "".to_owned()
    };
    let mut text = object_name_text(index, sub);
    text.append(number.as_str());
    text.append(" (");
    text.append(decimal_text(data.len() as u128).as_str());
    text.append(" byte");
    text.append(
        if data.len() == 1 {
            ""
        } else {
            "s"
        },
    );
    text.append(", raw [");
    text.append(byte_list_text(data, true).as_str());
    text.append("])");
    text
}

/// The message for the end of a transfer that was not the expected one.
pub open spec fn failure_message(end: Outcome) -> Seq<char> {
    match end {
        Outcome::Failed { index, sub, error } => match error {
            SdoTransferError::Abort(code) => "SDO abort for "@ + object_name(index, sub) + ": "@
                + abort_text(code),
            SdoTransferError::Timeout => "SDO timeout for "@ + object_name(index, sub)
                + " (no response from server)"@,
            SdoTransferError::BufferTooSmall => "SDO value of "@ + object_name(index, sub)
                + " does not fit the client buffer"@,
            SdoTransferError::Protocol => "SDO protocol error (malformed response)"@,
        },
        Outcome::UploadOk { index, sub, data } => "unexpected SDO event: UploadOk { index: "@
            + decimal(index as nat) + ", sub: "@ + decimal(sub as nat) + ", data: ["@ + byte_list(
            data,
            false,
        ) + "] }"@,
        Outcome::DownloadOk { index, sub } => "unexpected SDO event: DownloadOk { index: "@
            + decimal(index as nat) + ", sub: "@ + decimal(sub as nat) + " }"@,
    }
}

/// Describe why a transfer did not end as expected.
pub fn describe_failure(event: &Completion) -> (text: String)
    ensures
        text@ == failure_message(event@),
{
    match event {
        Completion::Failed { index, sub, error } => match error {
            SdoTransferError::Abort(code) => {
                let mut text = "SDO abort for ".to_owned();
                text.append(object_name_text(*index, *sub).as_str());
                text.append(": ");
                text.append(code.to_text().as_str());
                text
            },
            SdoTransferError::Timeout => {
                let mut text = "SDO timeout for ".to_owned();
                text.append(object_name_text(*index, *sub).as_str());
                text.append(" (no response from server)");
                text
            },
            SdoTransferError::BufferTooSmall => {
                let mut text = "SDO value of ".to_owned();
                text.append(object_name_text(*index, *sub).as_str());
                text.append(" does not fit the client buffer");
                text
            },
            SdoTransferError::Protocol => "SDO protocol error (malformed response)".to_owned(),
        },
        Completion::UploadOk { index, sub, data } => {
            let mut text = "unexpected SDO event: UploadOk { index: ".to_owned();
            text.append(decimal_text(*index as u128).as_str());
            text.append(", sub: ");
            text.append(decimal_text(*sub as u128).as_str());
            text.append(", data: [");
            text.append(byte_list_text(data.as_slice(), false).as_str());
            text.append("] }");
            text
        },
        Completion::DownloadOk { index, sub } => {
            let mut text = "unexpected SDO event: DownloadOk { index: ".to_owned();
            text.append(decimal_text(*index as u128).as_str());
            text.append(", sub: ");
            text.append(decimal_text(*sub as u128).as_str());
            text.append(" }");
            text
        },
    }
}

/// What is reported at the end of a read: the value, or why there is none.
pub open spec fn read_report(end: Outcome) -> Result<Seq<char>, Seq<char>> {
    match end {
        Outcome::UploadOk { index, sub, data } => Ok(read_message(index, sub, data)),
        _ => Err(failure_message(end)),
    }
}

/// Report the end of a read.
pub fn report_read(end: &Completion) -> (report: Result<String, String>)
    ensures
        text_result(report) == read_report(end@),
{
    match end {
        Completion::UploadOk { index, sub, data } => Ok(
            describe_read(*index, *sub, data.as_slice()),
        ),
        _ => Err(describe_failure(end)),
    }
}

/// What is reported at the end of a write of `value`.
pub open spec fn write_report(end: Outcome, value: u64) -> Result<Seq<char>, Seq<char>> {
    match end {
        Outcome::DownloadOk { index, sub } => Ok(
            object_name(index, sub) + " <- "@ + decimal(value as nat) + " written"@,
        ),
        _ => Err(failure_message(end)),
    }
}

/// Report the end of a write of `value`.
pub fn report_write(end: &Completion, value: u64) -> (report: Result<String, String>)
    ensures
        text_result(report) == write_report(end@, value),
{
    match end {
        Completion::DownloadOk { index, sub } => {
            let mut text = object_name_text(*index, *sub);
            text.append(" <- ");
            text.append(decimal_text(value as u128).as_str());
            text.append(" written");
            Ok(text)
        },
        _ => Err(describe_failure(end)),
    }
}

} // verus!
