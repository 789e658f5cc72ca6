//! SDO transfers: what is on the wire, byte by byte.

use crate::bytes::{le_bytes, lemma_le_2, lemma_le_4, lemma_value_2, lemma_value_4};
use crate::cob::{cob_id, Function, NMT_SERVICE, SYNC, TIME};
use crate::frame::FrameView;
use crate::laws::number::{law_hexadecimal_notation, law_hexadecimal_width};
use crate::number::digits_value;
use crate::od::{ObjectDictionary, OdError};
use crate::sdo::SdoAbortCode;
use crate::sdo::abort::{abort_description, abort_text};
use crate::sdo::client::{client_did, client_polled, client_receives, client_request};
use crate::sdo::client::{download_request, outcome, outcome_of, ClientPhase, ClientState};
use crate::sdo::client::{ClientStep, Outcome, SdoEvent, SdoTransferError, DEFAULT_SDO_TIMEOUT_US};
use crate::sdo::server::{event_of_write, server_did, server_polled, server_receives};
use crate::sdo::server::{AcceptedWrite, SdoServerEvent, ServerPhase, ServerState, ServerStep};
use crate::sdo::server::DEFAULT_SDO_SERVER_TIMEOUT_US;
use crate::sdo::transfer::{client_turn, completed, transfer_timeout, Completion};
use crate::sdo::wire::{expedited_len, has_size, is_expedited, is_last, next_chunk, next_segment};
use crate::sdo::wire::{object_payload, payload_index, payload_number, segment_cmd, segment_len};
use crate::sdo::wire::{segment_payload, specifier, toggle_bit};
use crate::text::hex;
use crate::Micros;
use vstd::arithmetic::power::pow;
use vstd::prelude::*;

verus! {

/// The parts of a command byte are its bits: the specifier in the three high
/// bits, below it the toggle bit, and the flags and unused byte counts in the
/// low bits.
pub proof fn law_command_bytes_are_bit_fields(cmd: u8)
    ensures
        specifier(cmd) == cmd >> 5,
        toggle_bit(cmd) <==> cmd & 0x10 != 0,
        is_expedited(cmd) <==> cmd & 0x02 != 0,
        has_size(cmd) <==> cmd & 0x01 != 0,
        is_last(cmd) <==> cmd & 0x01 != 0,
        has_size(cmd) ==> expedited_len(cmd) == 4 - ((cmd >> 2) & 3),
        !has_size(cmd) ==> expedited_len(cmd) == 4,
        segment_len(cmd) == 7 - ((cmd >> 1) & 7),
{
    assert(cmd >> 5 == cmd / 32) by (bit_vector);
    assert((cmd & 0x10 != 0) == (cmd / 16 % 2 == 1)) by (bit_vector);
    assert((cmd & 0x02 != 0) == (cmd / 2 % 2 == 1)) by (bit_vector);
    assert((cmd & 0x01 != 0) == (cmd % 2 == 1)) by (bit_vector);
    assert((cmd >> 2) & 3 == cmd / 4 % 4) by (bit_vector);
    assert((cmd >> 1) & 7 == cmd / 2 % 8) by (bit_vector);
}

/// Byte `i` of a byte string, 0 after its end.
pub open spec fn byte_at(data: Seq<u8>, i: int) -> u8 {
    if i < data.len() {
        data[i]
    } else {
        0
    }
}

/// Eight bytes that name an object after a command byte.
pub open spec fn object_bytes(cmd: u8, index: u16, sub: u8, data: Seq<u8>) -> Seq<u8> {
    seq![
        cmd,
        (index % 0x100) as u8,
        (index / 0x100) as u8,
        sub,
        byte_at(data, 0),
        byte_at(data, 1),
        byte_at(data, 2),
        byte_at(data, 3),
    ]
}

/// The bytes of a 32-bit number, the low byte first.
pub open spec fn number_bytes(number: nat) -> Seq<u8> {
    seq![
        (number % 0x100) as u8,
        (number / 0x100 % 0x100) as u8,
        (number / 0x1_0000 % 0x100) as u8,
        (number / 0x100_0000 % 0x100) as u8,
    ]
}

/// Eight bytes with up to seven data bytes after a command byte.
pub open spec fn segment_bytes(cmd: u8, data: Seq<u8>) -> Seq<u8> {
    seq![
        cmd,
        byte_at(data, 0),
        byte_at(data, 1),
        byte_at(data, 2),
        byte_at(data, 3),
        byte_at(data, 4),
        byte_at(data, 5),
        byte_at(data, 6),
    ]
}

/// Payloads are laid out byte by byte: the command, then the index with the
/// low byte first, the sub-index and up to four data bytes; or the command
/// and up to seven data bytes. What is left over is 0.
pub proof fn law_payloads_are_laid_out_in_bytes(
    cmd: u8,
    index: u16,
    sub: u8,
    number: u32,
    data: Seq<u8>,
    payload: Seq<u8>,
)
    requires
        payload.len() == 8,
    ensures
        data.len() <= 4 ==> object_payload(cmd, index, sub, data) == object_bytes(
            cmd,
            index,
            sub,
            data,
        ),
        data.len() <= 7 ==> segment_payload(cmd, data) == segment_bytes(cmd, data),
        le_bytes(number as nat, 4) == number_bytes(number as nat),
        payload_index(payload) == payload[1] + 0x100 * payload[2],
        payload_number(payload) == payload[4] + 0x100 * payload[5] + 0x1_0000 * payload[6]
            + 0x100_0000 * payload[7],
{
    lemma_le_2(index as nat);
    lemma_le_4(number as nat);
    let n = number as nat;
    assert(n / 256 / 256 == n / 0x1_0000 && n / 256 / 256 / 256 == n / 0x100_0000);
    assert(le_bytes(n, 4) =~= number_bytes(n));
    if data.len() <= 4 {
        assert(object_payload(cmd, index, sub, data) =~= object_bytes(cmd, index, sub, data));
    }
    if data.len() <= 7 {
        assert(segment_payload(cmd, data) =~= segment_bytes(cmd, data));
    }
    lemma_value_2(payload.subrange(1, 3));
    lemma_value_4(payload.subrange(4, 8));
}

/// The code that a client is told for an error of the dictionary.
pub open spec fn code_for(e: OdError) -> nat {
    match e {
        OdError::ObjectNotFound => 0x0602_0000,
        OdError::SubIndexNotFound => 0x0609_0011,
        OdError::WriteOnly => 0x0601_0001,
        OdError::ReadOnly => 0x0601_0002,
        OdError::TypeMismatch => 0x0607_0010,
        OdError::DataTooLong => 0x0607_0012,
        OdError::ValueTooHigh => 0x0609_0031,
        OdError::ValueTooLow => 0x0609_0032,
        OdError::NoData => 0x0800_0024,
        OdError::BufferTooSmall => 0x0800_0000,
    }
}

/// The abort codes are those of CiA 301.
pub proof fn law_abort_codes_are_the_standard_ones(e: OdError)
    ensures
        e.spec_abort_code().0 == code_for(e),
        SdoAbortCode::TOGGLE_BIT == 0x0503_0000,
        SdoAbortCode::TIMEOUT == 0x0504_0000,
        SdoAbortCode::CMD_SPECIFIER == 0x0504_0001,
        SdoAbortCode::OUT_OF_MEMORY == 0x0504_0005,
        SdoAbortCode::UNSUPPORTED_ACCESS == 0x0601_0000,
        SdoAbortCode::NO_MAP == 0x0604_0041,
        SdoAbortCode::DATA_LONG == 0x0607_0012,
        SdoAbortCode::DATA_SHORT == 0x0607_0013,
        SdoAbortCode::INVALID_VALUE == 0x0609_0030,
        SdoAbortCode::GENERAL == 0x0800_0000,
        SdoAbortCode::DATA_TRANSF == 0x0800_0020,
        SdoAbortCode::DATA_DEV_STATE == 0x0800_0022,
{
}

/// Whether a server answers with the eight bytes `bytes`, and with nothing
/// else, and goes on in `phase`.
pub open spec fn server_says(
    step: ServerStep,
    s: ServerState,
    now: Micros,
    index: u16,
    sub: u8,
    phase: ServerPhase,
    bytes: Seq<u8>,
) -> bool {
    &&& step.frames == seq![FrameView { id: (0x580 + s.node) as u16, data: bytes }]
    &&& step.next == (ServerState { since: now, index, sub, phase, ..s })
}

/// Whether a server ends a transfer of the object `index:sub` with the abort
/// `code`, and writes nothing.
pub open spec fn server_refuses(
    step: ServerStep,
    s: ServerState,
    now: Micros,
    index: u16,
    sub: u8,
    code: nat,
) -> bool {
    &&& server_says(
        step,
        s,
        now,
        index,
        sub,
        ServerPhase::Idle,
        object_bytes(0x80, index, sub, number_bytes(code)),
    )
    &&& step.written is None
}

/// The bytes of the frames that a server or client sends.
proof fn lemma_bytes(cmd: u8, index: u16, sub: u8, data: Seq<u8>)
    requires
        data.len() <= 4,
    ensures
        object_payload(cmd, index, sub, data) == object_bytes(cmd, index, sub, data),
{
    law_payloads_are_laid_out_in_bytes(cmd, index, sub, 0, data, Seq::new(8, |i: int| 0u8));
}

/// The bytes of an abort.
proof fn lemma_abort_bytes(index: u16, sub: u8, code: u32)
    ensures
        object_payload(0x80, index, sub, le_bytes(code as nat, 4)) == object_bytes(
            0x80,
            index,
            sub,
            number_bytes(code as nat),
        ),
{
    law_payloads_are_laid_out_in_bytes(
        0x80,
        index,
        sub,
        code,
        number_bytes(code as nat),
        Seq::new(8, |i: int| 0u8),
    );
}

/// The bytes of every abort that an error of a dictionary leads to.
proof fn lemma_error_bytes(index: u16, sub: u8, e: OdError)
    ensures
        object_payload(0x80, index, sub, le_bytes(e.spec_abort_code().0 as nat, 4))
            == object_bytes(0x80, index, sub, number_bytes(code_for(e))),
{
    lemma_abort_bytes(index, sub, e.spec_abort_code().0);
}

/// A read request (specifier 2) is answered for the object that it names,
/// whatever was going on. A value of up to four bytes is in the answer; of a
/// longer one the answer holds the length, and the segments follow. A value
/// that does not exist, cannot be read, is empty or larger than the buffer is
/// refused with the code for that.
pub proof fn law_server_answers_read_requests<OD: ObjectDictionary>(
    s: ServerState,
    room: nat,
    od: OD,
    frame: FrameView,
    now: Micros,
)
    requires
        1 <= s.node <= 127,
        room <= 0xFFFF_FFFF,
        frame.id == 0x600 + s.node,
        frame.data.len() == 8,
        frame.data[0] / 32 == 2,
    ensures
        ({
            let index = (frame.data[1] + 0x100 * frame.data[2]) as u16;
            let sub = frame.data[3];
            let step = server_receives(s, room, od, frame, now);
            &&& step.written is None
            &&& match (od.spec_info(index, sub), od.spec_value(index, sub)) {
                (Err(e), _) => server_refuses(step, s, now, index, sub, code_for(e)),
                (Ok(_), Err(e)) => server_refuses(
                    step,
                    s,
                    now,
                    index,
                    sub,
                    if e is BufferTooSmall {
                        0x0504_0005
                    } else {
                        code_for(e)
                    },
                ),
                (Ok(_), Ok(value)) => if value.len() > room {
                    server_refuses(step, s, now, index, sub, 0x0504_0005)
                } else if value.len() == 0 {
                    server_refuses(step, s, now, index, sub, 0x0800_0024)
                } else if value.len() <= 4 {
                    server_says(
                        step,
                        s,
                        now,
                        index,
                        sub,
                        ServerPhase::Idle,
                        object_bytes((0x53 - 4 * value.len()) as u8, index, sub, value),
                    )
                } else {
                    server_says(
                        step,
                        s,
                        now,
                        index,
                        sub,
                        ServerPhase::Upload { data: value, offset: 0, toggle: false },
                        object_bytes(0x41, index, sub, number_bytes(value.len())),
                    )
                },
            }
        }),
{
    law_payloads_are_laid_out_in_bytes(0, 0, 0, 0, Seq::empty(), frame.data);
    let index = (frame.data[1] + 0x100 * frame.data[2]) as u16;
    let sub = frame.data[3];
    assert(payload_index(frame.data) == index);
    if let Err(e) = od.spec_info(index, sub) {
        lemma_error_bytes(index, sub, e);
    }
    if let Err(e) = od.spec_value(index, sub) {
        lemma_error_bytes(index, sub, e);
    }
    lemma_abort_bytes(index, sub, 0x0504_0005);
    lemma_abort_bytes(index, sub, 0x0800_0024);
    if let Ok(value) = od.spec_value(index, sub) {
        if 1 <= value.len() <= 4 {
            lemma_bytes((0x53 - 4 * value.len()) as u8, index, sub, value);
        } else if value.len() <= room {
            law_payloads_are_laid_out_in_bytes(
                0x41,
                index,
                sub,
                value.len() as u32,
                number_bytes(value.len()),
                frame.data,
            );
        }
    }
}

/// A write request (specifier 1) with the data in it hands exactly the data
/// bytes to the object that it names: as many as the command byte says, and
/// four if it says nothing. The dictionary decides: an accepted write is
/// acknowledged, a refused one is answered with the code for the error.
pub proof fn law_server_hands_over_expedited_writes<OD: ObjectDictionary>(
    s: ServerState,
    room: nat,
    od: OD,
    frame: FrameView,
    now: Micros,
)
    requires
        1 <= s.node <= 127,
        frame.id == 0x600 + s.node,
        frame.data.len() == 8,
        frame.data[0] / 32 == 1,
        frame.data[0] / 2 % 2 == 1,
    ensures
        ({
            let index = (frame.data[1] + 0x100 * frame.data[2]) as u16;
            let sub = frame.data[3];
            let len = if frame.data[0] % 2 == 1 {
                4 - frame.data[0] / 4 % 4
            } else {
                4int
            };
            let data = frame.data.subrange(4, 4 + len);
            let step = server_receives(s, room, od, frame, now);
            match od.spec_write(index, sub, data) {
                Ok(_) => {
                    &&& server_says(
                        step,
                        s,
                        now,
                        index,
                        sub,
                        ServerPhase::Idle,
                        object_bytes(0x60, index, sub, Seq::empty()),
                    )
                    &&& step.written == Some(AcceptedWrite { index, sub, data })
                },
                Err(e) => server_refuses(step, s, now, index, sub, code_for(e)),
            }
        }),
{
    law_payloads_are_laid_out_in_bytes(0, 0, 0, 0, Seq::empty(), frame.data);
    let index = (frame.data[1] + 0x100 * frame.data[2]) as u16;
    let sub = frame.data[3];
    assert(payload_index(frame.data) == index);
    lemma_bytes(0x60, index, sub, Seq::empty());
    let len = if frame.data[0] % 2 == 1 {
        4 - frame.data[0] / 4 % 4
    } else {
        4int
    };
    if let Err(e) = od.spec_write(index, sub, frame.data.subrange(4, 4 + len)) {
        lemma_error_bytes(index, sub, e);
    }
}

/// A write request (specifier 1) that announces segments is accepted if the
/// object exists, may be written, and the announced length, if any, fits the
/// buffer; then the server waits for the first segment. Nothing is written
/// yet.
pub proof fn law_server_opens_segmented_writes<OD: ObjectDictionary>(
    s: ServerState,
    room: nat,
    od: OD,
    frame: FrameView,
    now: Micros,
)
    requires
        1 <= s.node <= 127,
        frame.id == 0x600 + s.node,
        frame.data.len() == 8,
        frame.data[0] / 32 == 1,
        frame.data[0] / 2 % 2 == 0,
    ensures
        ({
            let index = (frame.data[1] + 0x100 * frame.data[2]) as u16;
            let sub = frame.data[3];
            let size = (frame.data[4] + 0x100 * frame.data[5] + 0x1_0000 * frame.data[6]
                + 0x100_0000 * frame.data[7]) as u32;
            let announced = frame.data[0] % 2 == 1;
            let step = server_receives(s, room, od, frame, now);
            &&& step.written is None
            &&& match od.spec_info(index, sub) {
                Err(e) => server_refuses(step, s, now, index, sub, code_for(e)),
                Ok(info) => if info.sdo is No || info.sdo is ReadOnly {
                    server_refuses(step, s, now, index, sub, 0x0601_0002)
                } else if announced && size > room {
                    server_refuses(step, s, now, index, sub, 0x0504_0005)
                } else {
                    server_says(
                        step,
                        s,
                        now,
                        index,
                        sub,
                        ServerPhase::Download {
                            indicated: if announced {
                                Some(size)
                            } else {
                                None
                            },
                            received: Seq::empty(),
                            toggle: false,
                        },
                        object_bytes(0x60, index, sub, Seq::empty()),
                    )
                },
            }
        }),
{
    law_payloads_are_laid_out_in_bytes(0, 0, 0, 0, Seq::empty(), frame.data);
    let index = (frame.data[1] + 0x100 * frame.data[2]) as u16;
    let sub = frame.data[3];
    assert(payload_index(frame.data) == index);
    lemma_bytes(0x60, index, sub, Seq::empty());
    lemma_abort_bytes(index, sub, 0x0504_0005);
    lemma_error_bytes(index, sub, OdError::ReadOnly);
    if let Err(e) = od.spec_info(index, sub) {
        lemma_error_bytes(index, sub, e);
    }
}

/// A data segment (specifier 0) of a write is taken if its toggle bit
/// alternates and its bytes fit the buffer: they are put after those that are
/// there, and acknowledged with the same toggle bit. The last one hands all
/// bytes to the dictionary, unless they are not as many as were announced.
pub proof fn law_server_collects_segments<OD: ObjectDictionary>(
    s: ServerState,
    room: nat,
    od: OD,
    frame: FrameView,
    now: Micros,
    indicated: Option<u32>,
    received: Seq<u8>,
    toggle: bool,
)
    requires
        1 <= s.node <= 127,
        frame.id == 0x600 + s.node,
        frame.data.len() == 8,
        frame.data[0] < 32,
        s.phase == (ServerPhase::Download { indicated, received, toggle }),
    ensures
        ({
            let step = server_receives(s, room, od, frame, now);
            let all = received + frame.data.subrange(1, 8 - frame.data[0] / 2 % 8);
            let ack = object_bytes(
                if toggle {
                    0x30
                } else {
                    0x20
                },
                s.index,
                s.sub,
                Seq::empty(),
            );
            if (frame.data[0] / 16 == 1) != toggle {
                server_refuses(step, s, now, s.index, s.sub, 0x0503_0000)
            } else if all.len() > room {
                server_refuses(step, s, now, s.index, s.sub, 0x0504_0005)
            } else if frame.data[0] % 2 == 0 {
                &&& server_says(
                    step,
                    s,
                    now,
                    s.index,
                    s.sub,
                    ServerPhase::Download { indicated, received: all, toggle: !toggle },
                    ack,
                )
                &&& step.written is None
            } else if indicated is Some && all.len() < indicated->0 {
                server_refuses(step, s, now, s.index, s.sub, 0x0607_0013)
            } else if indicated is Some && all.len() > indicated->0 {
                server_refuses(step, s, now, s.index, s.sub, 0x0607_0012)
            } else {
                match od.spec_write(s.index, s.sub, all) {
                    Ok(_) => {
                        &&& server_says(step, s, now, s.index, s.sub, ServerPhase::Idle, ack)
                        &&& step.written == Some(
                            AcceptedWrite { index: s.index, sub: s.sub, data: all },
                        )
                    },
                    Err(e) => server_refuses(step, s, now, s.index, s.sub, code_for(e)),
                }
            }
        }),
{
    let all = received + frame.data.subrange(1, 8 - frame.data[0] / 2 % 8);
    lemma_bytes(0x20, s.index, s.sub, Seq::empty());
    lemma_bytes(0x30, s.index, s.sub, Seq::empty());
    lemma_abort_bytes(s.index, s.sub, 0x0503_0000);
    lemma_abort_bytes(s.index, s.sub, 0x0504_0005);
    lemma_abort_bytes(s.index, s.sub, 0x0607_0012);
    lemma_abort_bytes(s.index, s.sub, 0x0607_0013);
    if let Err(e) = od.spec_write(s.index, s.sub, all) {
        lemma_error_bytes(s.index, s.sub, e);
    }
}

/// A segment request (specifier 3) of a read is answered with the next seven
/// bytes of the value, or what is left of it, with the toggle bit of the
/// request and the last segment marked; a toggle bit that does not alternate
/// ends the transfer.
pub proof fn law_server_sends_the_next_segment<OD: ObjectDictionary>(
    s: ServerState,
    room: nat,
    od: OD,
    frame: FrameView,
    now: Micros,
    value: Seq<u8>,
    offset: nat,
    toggle: bool,
)
    requires
        1 <= s.node <= 127,
        frame.id == 0x600 + s.node,
        frame.data.len() == 8,
        frame.data[0] / 32 == 3,
        s.phase == (ServerPhase::Upload { data: value, offset, toggle }),
        offset <= value.len(),
    ensures
        ({
            let step = server_receives(s, room, od, frame, now);
            let left = value.len() - offset;
            let len = if left > 7 {
                7
            } else {
                left
            };
            let cmd = (if toggle {
                16int
            } else {
                0
            }) + 2 * (7 - len) + (if len == left {
                1int
            } else {
                0
            });
            &&& step.written is None
            &&& (frame.data[0] / 16 % 2 == 1) != toggle ==> server_refuses(
                step,
                s,
                now,
                s.index,
                s.sub,
                0x0503_0000,
            )
            &&& (frame.data[0] / 16 % 2 == 1) == toggle ==> server_says(
                step,
                s,
                now,
                s.index,
                s.sub,
                if len == left {
                    ServerPhase::Idle
                } else {
                    ServerPhase::Upload {
                        data: value,
                        offset: (offset + len) as nat,
                        toggle: !toggle,
                    }
                },
                segment_bytes(cmd as u8, value.subrange(offset as int, offset + len)),
            )
        }),
{
    let left = value.len() - offset;
    let len = if left > 7 {
        7
    } else {
        left
    };
    lemma_abort_bytes(s.index, s.sub, 0x0503_0000);
    let chunk = value.subrange(offset as int, offset + len);
    assert(next_chunk(value, offset) =~= chunk);
    law_payloads_are_laid_out_in_bytes(
        segment_cmd(toggle, chunk.len(), len == left),
        0,
        0,
        0,
        chunk,
        frame.data,
    );
    assert(next_segment(value, offset, toggle) == segment_bytes(
        segment_cmd(toggle, chunk.len(), len == left),
        chunk,
    ));
}

/// A segment without a write in progress, a segment request without a read in
/// progress and an unknown specifier are refused with the code for a command
/// that is not valid, the last one for the object that it seems to name. An
/// abort ends what is in progress without an answer. A frame on another
/// identifier or of another length is nothing to the server.
pub proof fn law_server_refuses_what_is_out_of_place<OD: ObjectDictionary>(
    s: ServerState,
    room: nat,
    od: OD,
    frame: FrameView,
    now: Micros,
)
    requires
        1 <= s.node <= 127,
    ensures
        ({
            let step = server_receives(s, room, od, frame, now);
            let heard = frame.id == 0x600 + s.node && frame.data.len() == 8;
            let kind = frame.data[0] / 32;
            &&& !heard ==> step.next == s && step.frames.len() == 0 && step.written is None
            &&& heard && kind == 0 && s.phase !is Download ==> server_refuses(
                step,
                s,
                now,
                s.index,
                s.sub,
                0x0504_0001,
            )
            &&& heard && kind == 3 && s.phase !is Upload ==> server_refuses(
                step,
                s,
                now,
                s.index,
                s.sub,
                0x0504_0001,
            )
            &&& heard && kind == 4 ==> step.next == (ServerState {
                since: now,
                phase: ServerPhase::Idle,
                ..s
            }) && step.frames.len() == 0 && step.written is None
            &&& heard && kind >= 5 ==> server_refuses(
                step,
                s,
                now,
                (frame.data[1] + 0x100 * frame.data[2]) as u16,
                frame.data[3],
                0x0504_0001,
            )
        }),
{
    lemma_abort_bytes(s.index, s.sub, 0x0504_0001);
    if frame.data.len() == 8 {
        law_payloads_are_laid_out_in_bytes(0, 0, 0, 0, Seq::empty(), frame.data);
        let index = (frame.data[1] + 0x100 * frame.data[2]) as u16;
        assert(payload_index(frame.data) == index);
        lemma_abort_bytes(index, frame.data[3], 0x0504_0001);
    }
}

/// Whether a client reports `error` for its transfer and is idle; `code` is
/// what it tells the server.
pub open spec fn client_gives_up(
    step: ClientStep,
    c: ClientState,
    since: Micros,
    code: nat,
    error: SdoTransferError,
) -> bool {
    &&& step.frames == seq![
        FrameView {
            id: (0x600 + c.server) as u16,
            data: object_bytes(0x80, c.index, c.sub, number_bytes(code)),
        },
    ]
    &&& step.event == Some(Outcome::Failed { index: c.index, sub: c.sub, error })
    &&& step.next == (ClientState { since, phase: ClientPhase::Idle, ..c })
}

/// Whether a client goes on in `phase` and sends the eight bytes `bytes`.
pub open spec fn client_says(
    step: ClientStep,
    c: ClientState,
    since: Micros,
    phase: ClientPhase,
    bytes: Seq<u8>,
) -> bool {
    &&& step.frames == seq![FrameView { id: (0x600 + c.server) as u16, data: bytes }]
    &&& step.event is None
    &&& step.next == (ClientState { since, phase, ..c })
}

/// Whether a client reports `event`, is idle and sends nothing.
pub open spec fn client_is_done(
    step: ClientStep,
    c: ClientState,
    since: Micros,
    event: Outcome,
) -> bool {
    &&& step.frames.len() == 0
    &&& step.event == Some(event)
    &&& step.next == (ClientState { since, phase: ClientPhase::Idle, ..c })
}

/// The requests of a client: a read asks for the object; a write of up to
/// four bytes holds them, and one of more bytes announces their number.
pub proof fn law_client_requests_name_the_object(c: ClientState, value: Seq<u8>)
    requires
        1 <= c.server <= 127,
        1 <= value.len() <= 0xFFFF_FFFF,
    ensures
        client_request(c, 0x40, Seq::empty()) == (FrameView {
            id: (0x600 + c.server) as u16,
            data: object_bytes(0x40, c.index, c.sub, Seq::empty()),
        }),
        download_request(c, value) == (FrameView {
            id: (0x600 + c.server) as u16,
            data: if value.len() <= 4 {
                object_bytes((0x33 - 4 * value.len()) as u8, c.index, c.sub, value)
            } else {
                object_bytes(0x21, c.index, c.sub, number_bytes(value.len()))
            },
        }),
{
    lemma_bytes(0x40, c.index, c.sub, Seq::empty());
    if value.len() <= 4 {
        lemma_bytes((0x33 - 4 * value.len()) as u8, c.index, c.sub, value);
    } else {
        law_payloads_are_laid_out_in_bytes(
            0x21,
            c.index,
            c.sub,
            value.len() as u32,
            number_bytes(value.len()),
            Seq::new(8, |i: int| 0u8),
        );
    }
}

/// An idle client, or one that is handed a frame on another identifier than
/// that of its server or of another length than eight bytes, does nothing. An
/// abort of the server ends any transfer, and its code is reported.
pub proof fn law_client_reports_the_servers_abort(
    c: ClientState,
    room: nat,
    frame: FrameView,
    now: Micros,
)
    requires
        1 <= c.server <= 127,
    ensures
        ({
            let step = client_receives(c, room, frame, now);
            let heard = frame.id == 0x580 + c.server && frame.data.len() == 8 && c.phase !is Idle;
            &&& !heard ==> step.next == c && step.frames.len() == 0 && step.event is None
            &&& heard && frame.data[0] == 0x80 ==> client_is_done(
                step,
                c,
                now,
                Outcome::Failed {
                    index: c.index,
                    sub: c.sub,
                    error: SdoTransferError::Abort(
                        SdoAbortCode(
                            (frame.data[4] + 0x100 * frame.data[5] + 0x1_0000 * frame.data[6]
                                + 0x100_0000 * frame.data[7]) as u32,
                        ),
                    ),
                },
            )
        }),
{
    if frame.data.len() == 8 {
        law_payloads_are_laid_out_in_bytes(0, 0, 0, 0, Seq::empty(), frame.data);
    }
}

/// The answer to a read request: it must be of the right kind (specifier 2)
/// and name the object. A value in it is reported with exactly its bytes, and
/// segments are asked for otherwise; what does not fit the buffer is given
/// up.
pub proof fn law_client_takes_the_answer_to_a_read(
    c: ClientState,
    room: nat,
    frame: FrameView,
    now: Micros,
)
    requires
        1 <= c.server <= 127,
        c.phase is UploadInitiate,
        frame.id == 0x580 + c.server,
        frame.data.len() == 8,
        frame.data[0] != 0x80,
    ensures
        ({
            let step = client_receives(c, room, frame, now);
            let cmd = frame.data[0];
            let len = if cmd % 2 == 1 {
                4 - cmd / 4 % 4
            } else {
                4int
            };
            let size = (frame.data[4] + 0x100 * frame.data[5] + 0x1_0000 * frame.data[6]
                + 0x100_0000 * frame.data[7]) as u32;
            if cmd / 32 != 2 || frame.data[1] + 0x100 * frame.data[2] != c.index || frame.data[3]
                != c.sub {
                client_gives_up(step, c, now, 0x0504_0001, SdoTransferError::Protocol)
            } else if cmd / 2 % 2 == 1 {
                if len > room {
                    client_gives_up(step, c, now, 0x0504_0005, SdoTransferError::BufferTooSmall)
                } else {
                    client_is_done(
                        step,
                        c,
                        now,
                        Outcome::UploadOk {
                            index: c.index,
                            sub: c.sub,
                            data: frame.data.subrange(4, 4 + len),
                        },
                    )
                }
            } else if cmd % 2 == 1 && size > room {
                client_gives_up(step, c, now, 0x0504_0005, SdoTransferError::BufferTooSmall)
            } else {
                client_says(
                    step,
                    c,
                    now,
                    ClientPhase::UploadSegment {
                        toggle: false,
                        received: Seq::empty(),
                        indicated: if cmd % 2 == 1 {
                            Some(size)
                        } else {
                            None
                        },
                    },
                    object_bytes(0x60, c.index, c.sub, Seq::empty()),
                )
            }
        }),
{
    law_payloads_are_laid_out_in_bytes(0, 0, 0, 0, Seq::empty(), frame.data);
    lemma_abort_bytes(c.index, c.sub, 0x0504_0001);
    lemma_abort_bytes(c.index, c.sub, 0x0504_0005);
    lemma_bytes(0x60, c.index, c.sub, Seq::empty());
}

/// A segment of a read: it must be of the right kind (specifier 0) and have
/// the toggle bit that was asked for. Its bytes come after those that are
/// there; the last one completes the value, if it is as long as was
/// announced, and any other is followed by the request for the next one, with
/// the other toggle bit.
pub proof fn law_client_collects_segments(
    c: ClientState,
    room: nat,
    frame: FrameView,
    now: Micros,
    toggle: bool,
    received: Seq<u8>,
    indicated: Option<u32>,
)
    requires
        1 <= c.server <= 127,
        c.phase == (ClientPhase::UploadSegment { toggle, received, indicated }),
        frame.id == 0x580 + c.server,
        frame.data.len() == 8,
        frame.data[0] != 0x80,
    ensures
        ({
            let step = client_receives(c, room, frame, now);
            let cmd = frame.data[0];
            let all = received + frame.data.subrange(1, 8 - cmd / 2 % 8);
            if cmd >= 32 {
                client_gives_up(step, c, now, 0x0504_0001, SdoTransferError::Protocol)
            } else if (cmd / 16 == 1) != toggle {
                client_gives_up(step, c, now, 0x0503_0000, SdoTransferError::Protocol)
            } else if all.len() > room {
                client_gives_up(step, c, now, 0x0504_0005, SdoTransferError::BufferTooSmall)
            } else if cmd % 2 == 1 && indicated is Some && indicated->0 != all.len() {
                client_gives_up(step, c, now, 0x0607_0010, SdoTransferError::Protocol)
            } else if cmd % 2 == 1 {
                client_is_done(
                    step,
                    c,
                    now,
                    Outcome::UploadOk { index: c.index, sub: c.sub, data: all },
                )
            } else {
                client_says(
                    step,
                    c,
                    now,
                    ClientPhase::UploadSegment { toggle: !toggle, received: all, indicated },
                    object_bytes(
                        if toggle {
                            0x60
                        } else {
                            0x70
                        },
                        c.index,
                        c.sub,
                        Seq::empty(),
                    ),
                )
            }
        }),
{
    lemma_abort_bytes(c.index, c.sub, 0x0504_0001);
    lemma_abort_bytes(c.index, c.sub, 0x0503_0000);
    lemma_abort_bytes(c.index, c.sub, 0x0504_0005);
    lemma_abort_bytes(c.index, c.sub, 0x0607_0010);
    lemma_bytes(0x60, c.index, c.sub, Seq::empty());
    lemma_bytes(0x70, c.index, c.sub, Seq::empty());
}

/// An answer during a write: to the request (specifier 3) it must name the
/// object, to a segment (specifier 1) have its toggle bit. Once all bytes are
/// out the write is reported as done; any other answer is given up on.
pub proof fn law_client_takes_the_answers_to_a_write(
    c: ClientState,
    room: nat,
    frame: FrameView,
    now: Micros,
)
    requires
        1 <= c.server <= 127,
        frame.id == 0x580 + c.server,
        frame.data.len() == 8,
        frame.data[0] != 0x80,
    ensures
        ({
            let step = client_receives(c, room, frame, now);
            let cmd = frame.data[0];
            let done = Outcome::DownloadOk { index: c.index, sub: c.sub };
            &&& c.phase matches ClientPhase::DownloadInitiate { data } ==> {
                &&& cmd / 32 != 3 || frame.data[1] + 0x100 * frame.data[2] != c.index
                    || frame.data[3] != c.sub ==> client_gives_up(
                    step,
                    c,
                    now,
                    0x0504_0001,
                    SdoTransferError::Protocol,
                )
                &&& cmd / 32 == 3 && frame.data[1] + 0x100 * frame.data[2] == c.index
                    && frame.data[3] == c.sub && data.len() <= 4 ==> client_is_done(
                    step,
                    c,
                    now,
                    done,
                )
            }
            &&& c.phase matches ClientPhase::DownloadSegment { toggle, data, sent } ==> {
                &&& cmd / 32 != 1 ==> client_gives_up(
                    step,
                    c,
                    now,
                    0x0504_0001,
                    SdoTransferError::Protocol,
                )
                &&& cmd / 32 == 1 && (cmd / 16 % 2 == 1) != toggle ==> client_gives_up(
                    step,
                    c,
                    now,
                    0x0503_0000,
                    SdoTransferError::Protocol,
                )
                &&& cmd / 32 == 1 && (cmd / 16 % 2 == 1) == toggle && sent >= data.len()
                    ==> client_is_done(step, c, now, done)
            }
        }),
{
    law_payloads_are_laid_out_in_bytes(0, 0, 0, 0, Seq::empty(), frame.data);
    lemma_abort_bytes(c.index, c.sub, 0x0504_0001);
    lemma_abort_bytes(c.index, c.sub, 0x0503_0000);
}

/// A data segment of a write goes out when the answer before it came: the
/// next seven bytes of the value, or what is left of it, with alternating
/// toggle bits that start at 0 and the last segment marked.
pub proof fn law_client_sends_the_next_segment(
    c: ClientState,
    room: nat,
    frame: FrameView,
    now: Micros,
    value: Seq<u8>,
    sent: nat,
    toggle: bool,
)
    requires
        1 <= c.server <= 127,
        frame.id == 0x580 + c.server,
        frame.data.len() == 8,
        sent < value.len(),
        (c.phase == (ClientPhase::DownloadInitiate { data: value }) && sent == 0 && !toggle
            && value.len() > 4 && frame.data[0] / 32 == 3 && frame.data[1] + 0x100 * frame.data[2]
            == c.index && frame.data[3] == c.sub) || (c.phase == (
        ClientPhase::DownloadSegment { toggle: !toggle, data: value, sent }) && frame.data[0] / 32
            == 1 && (frame.data[0] / 16 % 2 == 1) != toggle),
    ensures
        ({
            let step = client_receives(c, room, frame, now);
            let left = value.len() - sent;
            let len = if left > 7 {
                7
            } else {
                left
            };
            let cmd = (if toggle {
                16int
            } else {
                0
            }) + 2 * (7 - len) + (if len == left {
                1int
            } else {
                0
            });
            client_says(
                step,
                c,
                now,
                ClientPhase::DownloadSegment { toggle, data: value, sent: (sent + len) as nat },
                segment_bytes(cmd as u8, value.subrange(sent as int, sent + len)),
            )
        }),
{
    law_payloads_are_laid_out_in_bytes(0, 0, 0, 0, Seq::empty(), frame.data);
    let left = value.len() - sent;
    let len = if left > 7 {
        7
    } else {
        left
    };
    let chunk = value.subrange(sent as int, sent + len);
    assert(next_chunk(value, sent) =~= chunk);
    law_payloads_are_laid_out_in_bytes(
        segment_cmd(toggle, chunk.len(), len == left),
        0,
        0,
        0,
        chunk,
        frame.data,
    );
    assert(next_segment(value, sent, toggle) == segment_bytes(
        segment_cmd(toggle, chunk.len(), len == left),
        chunk,
    ));
}

/// Both sides wait for as long as their timeout says, and no longer: before
/// that a poll does nothing, from then on it ends the transfer with the
/// timeout code; and without a transfer a poll does nothing.
pub proof fn law_patience_ends_with_the_timeout(c: ClientState, s: ServerState, now: Micros)
    requires
        1 <= c.server <= 127,
        1 <= s.node <= 127,
        c.timeout_us > 0,
        s.timeout_us > 0,
    ensures
        c.phase is Idle || now - c.since < c.timeout_us ==> {
            let step = client_polled(c, now);
            step.next == c && step.frames.len() == 0 && step.event is None
        },
        c.phase !is Idle && now - c.since >= c.timeout_us ==> client_gives_up(
            client_polled(c, now),
            c,
            c.since,
            0x0504_0000,
            SdoTransferError::Timeout,
        ),
        s.phase is Idle || now - s.since < s.timeout_us ==> {
            let step = server_polled(s, now);
            step.next == s && step.frames.len() == 0 && step.written is None
        },
        s.phase !is Idle && now - s.since >= s.timeout_us ==> server_refuses(
            server_polled(s, now),
            s,
            s.since,
            s.index,
            s.sub,
            0x0504_0000,
        ),
{
    lemma_abort_bytes(c.index, c.sub, 0x0504_0000);
    lemma_abort_bytes(s.index, s.sub, 0x0504_0000);
}

/// A blocking receive ends at the deadline of the client, unless that is less
/// than a millisecond away: then it ends after a millisecond, as it does
/// without a deadline.
pub proof fn law_receive_ends_at_the_deadline(deadline: Micros, now: Micros)
    ensures
        transfer_timeout(Some(deadline), now) >= 1_000,
        deadline >= now + 1_000 ==> now + transfer_timeout(Some(deadline), now) == deadline,
        deadline < now + 1_000 ==> transfer_timeout(Some(deadline), now) == 1_000,
        transfer_timeout(None, now) == 1_000,
{
}

/// One turn of a blocking transfer: a received frame is handled as by the
/// client alone, and if the transfer goes on, or nothing was received, the
/// client gives up exactly if its patience is at an end. What both send goes
/// out in that order.
pub proof fn law_turns_handle_the_frame_then_the_clock(
    c: ClientState,
    room: nat,
    frame: FrameView,
    now: Micros,
    later: Micros,
)
    ensures
        ({
            let handled = client_receives(c, room, frame, now);
            let turn = client_turn(c, room, Some(frame), now, later);
            &&& handled.event is Some ==> turn == handled
            &&& handled.event is None ==> {
                let polled = client_polled(handled.next, later);
                &&& turn.next == polled.next
                &&& turn.event == polled.event
                &&& turn.frames == handled.frames + polled.frames
            }
            &&& client_turn(c, room, None, now, later) == client_polled(c, later)
        }),
{
    assert(client_turn(c, room, None, now, later).frames =~= client_polled(c, later).frames);
}

/// Identifiers have the function in the four high bits and the node in the
/// seven low ones.
pub proof fn law_identifiers_hold_function_and_node(f: Function, node: u8)
    requires
        1 <= node <= 127,
    ensures
        cob_id(f, node) % 128 == node,
        cob_id(f, node) / 128 == match f {
            Function::Emcy => 1int,
            Function::Tpdo1 => 3,
            Function::Rpdo1 => 4,
            Function::SdoTx => 11,
            Function::SdoRx => 12,
            Function::Heartbeat => 14,
        },
{
}

/// Both ends are patient by default: a client for half a second, a server for
/// a second. The identifiers that belong to no node are those of CiA 301.
pub proof fn law_defaults_are_those_of_the_profile()
    ensures
        DEFAULT_SDO_TIMEOUT_US == 500_000,
        DEFAULT_SDO_SERVER_TIMEOUT_US == 1_000_000,
        NMT_SERVICE == 0x000,
        SYNC == 0x080,
        TIME == 0x100,
{
}

/// What is reported says what happened: a server reports the object of an
/// accepted write and nothing else, and an event of a client and its copy
/// name the same object, with the same data or the same error.
pub proof fn law_reports_say_what_happened(
    written: Option<AcceptedWrite>,
    event: SdoEvent<'_>,
    done: Completion,
)
    ensures
        written is None <==> event_of_write(written) is None,
        written matches Some(w) ==> event_of_write(written) == Some(
            SdoServerEvent::ObjectWritten { index: w.index, sub: w.sub },
        ),
        match event {
            SdoEvent::UploadOk { index, sub, data } => outcome_of(event) == (Outcome::UploadOk {
                index,
                sub,
                data: data@,
            }),
            SdoEvent::DownloadOk { index, sub } => outcome_of(event) == (Outcome::DownloadOk {
                index,
                sub,
            }),
            SdoEvent::Failed { index, sub, error } => outcome_of(event) == (Outcome::Failed {
                index,
                sub,
                error,
            }),
        },
        outcome(Some(event)) == Some(outcome_of(event)),
        outcome(None) is None,
        match done {
            Completion::UploadOk { index, sub, data } => done@ == (Outcome::UploadOk {
                index,
                sub,
                data: data@,
            }),
            Completion::DownloadOk { index, sub } => done@ == (Outcome::DownloadOk { index, sub }),
            Completion::Failed { index, sub, error } => done@ == (Outcome::Failed {
                index,
                sub,
                error,
            }),
        },
        completed(None) is None,
        completed(Some(done)) == Some(done@),
{
}

/// What a sink receives from a server or client is what it did, after what
/// was sent before, and the state it is left in is the one that it reached.
pub proof fn law_steps_are_carried_out(
    s: ServerStep,
    server: ServerState,
    c: ClientStep,
    client: ClientState,
    before: Seq<FrameView>,
    after: Seq<FrameView>,
    event: Option<Outcome>,
)
    ensures
        server_did(s, server, before, after) <==> server == s.next && after == before + s.frames,
        client_did(c, client, before, after, event) <==> client == c.next && after == before
            + c.frames && event == c.event,
{
}

/// The abort codes that have a description.
pub open spec fn is_well_known(code: u32) -> bool {
    ||| code == 0x0503_0000
    ||| code == 0x0504_0000
    ||| code == 0x0504_0001
    ||| code == 0x0504_0005
    ||| 0x0601_0000 <= code <= 0x0601_0002
    ||| code == 0x0602_0000
    ||| code == 0x0604_0041
    ||| code == 0x0607_0010
    ||| code == 0x0607_0012
    ||| code == 0x0607_0013
    ||| code == 0x0609_0011
    ||| 0x0609_0030 <= code <= 0x0609_0032
    ||| code == 0x0800_0000
    ||| code == 0x0800_0020
    ||| code == 0x0800_0022
    ||| code == 0x0800_0024
}

/// An abort code is shown in eight hexadecimal digits, from which it can be
/// read, with its description in brackets; a code without a description is
/// called unknown.
pub proof fn law_abort_codes_are_shown(code: SdoAbortCode)
    ensures
        abort_text(code) == "0x"@ + hex(code.0 as nat, 8, true) + " ("@ + abort_description(code)
            + ")"@,
        digits_value(hex(code.0 as nat, 8, true), 16) == Some(code.0 as nat),
        hex(code.0 as nat, 8, true).len() == 8,
        !is_well_known(code.0) ==> abort_description(code) == "unknown abort code"@,
{
    assert(pow(16, 8) == 0x1_0000_0000) by {
        reveal(pow);
        reveal_with_fuel(pow, 9);
    }
    law_hexadecimal_width(code.0 as nat, 8, true);
    law_hexadecimal_notation(code.0 as nat, 8, true);
}

} // verus!
