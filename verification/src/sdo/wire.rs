//! The layout of SDO payloads, shared by both ends.
//!
//! A payload is always eight bytes. Byte 0 is the command byte: three bits
//! of command specifier, then flags. Initiate and abort payloads name the
//! object in bytes 1..4 and hold up to four data bytes; segment payloads
//! hold up to seven data bytes right after the command byte.

use crate::bytes::{copy_at, le_bytes, le_value, lemma_le_2, lemma_le_4, lemma_value_2};
use crate::bytes::{lemma_value_4, u16_from_le, u16_to_le, u32_from_le, zero_padded};
use crate::frame::{CanFrame, FrameView};
use vstd::prelude::*;

verus! {

/// The command byte that ends a transfer with an abort code.
pub const ABORT: u8 = 0x80;

/// The command specifier: the three high bits of the command byte.
pub open spec fn specifier(cmd: u8) -> u8 {
    cmd / 32
}

/// The toggle bit of a segment command.
pub open spec fn toggle_bit(cmd: u8) -> bool {
    cmd / 16 % 2 == 1
}

/// The `e` flag of an initiate command: the data is in this payload.
pub open spec fn is_expedited(cmd: u8) -> bool {
    cmd / 2 % 2 == 1
}

/// The `s` flag of an initiate command: the size is in this payload.
pub open spec fn has_size(cmd: u8) -> bool {
    cmd % 2 == 1
}

/// The `c` flag of a segment command: no segment follows.
pub open spec fn is_last(cmd: u8) -> bool {
    cmd % 2 == 1
}

/// How many bytes an expedited payload holds; all four where no size is
/// indicated.
pub open spec fn expedited_len(cmd: u8) -> nat {
    if has_size(cmd) {
        (4 - cmd / 4 % 4) as nat
    } else {
        4
    }
}

/// How many bytes a segment payload holds.
pub open spec fn segment_len(cmd: u8) -> nat {
    (7 - cmd / 2 % 8) as nat
}

/// The value of a flag of weight `weight`.
pub open spec fn flag(set: bool, weight: int) -> int {
    if set {
        weight
    } else {
        0
    }
}

/// The command byte of an expedited transfer of `len` bytes (`e` and `s`
/// set); `base` holds the specifier.
pub open spec fn expedited_cmd(base: u8, len: nat) -> u8 {
    (base + 3 + 4 * (4 - len)) as u8
}

/// The command byte of a segment of `len` bytes.
pub open spec fn segment_cmd(toggle: bool, len: nat, last: bool) -> u8 {
    (flag(toggle, 16) + 2 * (7 - len) + flag(last, 1)) as u8
}

/// The command byte `base` with the toggle bit set to `toggle`.
pub open spec fn toggled_cmd(base: u8, toggle: bool) -> u8 {
    (base + flag(toggle, 16)) as u8
}

/// `[cmd, index lo, index hi, sub, d0..d3]`.
pub open spec fn object_payload(cmd: u8, index: u16, sub: u8, data: Seq<u8>) -> Seq<u8> {
    seq![cmd] + le_bytes(index as nat, 2) + seq![sub] + zero_padded(data, 4)
}

/// `[cmd, d0..d6]`.
pub open spec fn segment_payload(cmd: u8, data: Seq<u8>) -> Seq<u8> {
    seq![cmd] + zero_padded(data, 7)
}

/// The object index that a payload names.
pub open spec fn payload_index(payload: Seq<u8>) -> u16 {
    le_value(payload.subrange(1, 3)) as u16
}

/// The sub-index that a payload names.
pub open spec fn payload_sub(payload: Seq<u8>) -> u8 {
    payload[3]
}

/// The number in bytes 4..8 of a payload: a size or an abort code.
pub open spec fn payload_number(payload: Seq<u8>) -> u32 {
    le_value(payload.subrange(4, 8)) as u32
}

/// The first `len` data bytes of an initiate payload.
pub open spec fn initiate_data(payload: Seq<u8>, len: nat) -> Seq<u8> {
    payload.subrange(4, 4 + len as int)
}

/// The data bytes of a segment payload.
pub open spec fn segment_data(payload: Seq<u8>) -> Seq<u8> {
    payload.subrange(1, 1 + segment_len(payload[0]) as int)
}

/// The size that an initiate payload announces, if it does.
pub open spec fn announced_size(payload: Seq<u8>) -> Option<u32> {
    if has_size(payload[0]) {
        Some(payload_number(payload))
    } else {
        None
    }
}

/// The segment that follows `offset` bytes of `data`: the next seven bytes,
/// or what is left.
pub open spec fn next_chunk(data: Seq<u8>, offset: nat) -> Seq<u8> {
    data.subrange(
        offset as int,
        if data.len() - offset < 7 {
            data.len() as int
        } else {
            offset as int + 7
        },
    )
}

/// The payload of the segment that follows `offset` bytes of `data`.
pub open spec fn next_segment(data: Seq<u8>, offset: nat, toggle: bool) -> Seq<u8> {
    let chunk = next_chunk(data, offset);
    segment_payload(
        segment_cmd(toggle, chunk.len(), offset + chunk.len() == data.len()),
        chunk,
    )
}

/// What goes into an initiate payload is read back from it.
pub proof fn law_object_payload_reads_back(cmd: u8, index: u16, sub: u8, data: Seq<u8>)
    requires
        data.len() <= 4,
    ensures
        object_payload(cmd, index, sub, data).len() == 8,
        object_payload(cmd, index, sub, data)[0] == cmd,
        payload_index(object_payload(cmd, index, sub, data)) == index,
        payload_sub(object_payload(cmd, index, sub, data)) == sub,
        initiate_data(object_payload(cmd, index, sub, data), data.len()) == data,
{
    let payload = object_payload(cmd, index, sub, data);
    lemma_le_2(index as nat);
    lemma_value_2(payload.subrange(1, 3));
    assert(initiate_data(payload, data.len()) =~= data);
}

/// A number that goes into an initiate payload is read back from it.
pub proof fn law_payload_number_reads_back(cmd: u8, index: u16, sub: u8, number: u32)
    ensures
        payload_number(object_payload(cmd, index, sub, le_bytes(number as nat, 4))) == number,
{
    let payload = object_payload(cmd, index, sub, le_bytes(number as nat, 4));
    lemma_le_2(index as nat);
    lemma_le_4(number as nat);
    lemma_value_4(payload.subrange(4, 8));
}

/// The length that goes into an expedited command byte is read back from it,
/// and the specifier in `base` stays.
pub proof fn law_expedited_cmd_reads_back(base: u8, len: nat)
    requires
        base % 32 == 0,
        1 <= len <= 4,
    ensures
        specifier(expedited_cmd(base, len)) == base / 32,
        is_expedited(expedited_cmd(base, len)),
        has_size(expedited_cmd(base, len)),
        expedited_len(expedited_cmd(base, len)) == len,
{
}

/// What goes into a segment payload is read back from it.
pub proof fn law_segment_payload_reads_back(toggle: bool, data: Seq<u8>, last: bool)
    requires
        data.len() <= 7,
    ensures
        segment_payload(segment_cmd(toggle, data.len(), last), data).len() == 8,
        specifier(segment_cmd(toggle, data.len(), last)) == 0,
        toggle_bit(segment_cmd(toggle, data.len(), last)) == toggle,
        is_last(segment_cmd(toggle, data.len(), last)) == last,
        segment_data(segment_payload(segment_cmd(toggle, data.len(), last), data)) == data,
{
    let cmd = segment_cmd(toggle, data.len(), last);
    assert(segment_data(segment_payload(cmd, data)) =~= data);
}

/// The toggle bit that goes into a command byte is read back from it, and
/// the specifier in `base` stays.
pub proof fn law_toggled_cmd_reads_back(base: u8, toggle: bool)
    requires
        base % 32 == 0,
    ensures
        specifier(toggled_cmd(base, toggle)) == base / 32,
        toggle_bit(toggled_cmd(base, toggle)) == toggle,
{
}

/// Builds an initiate, acknowledge or abort frame.
pub(crate) fn object_frame(cob: u16, cmd: u8, index: u16, sub: u8, data: &[u8]) -> (frame: CanFrame)
    requires
        cob <= 0x7FF,
        data@.len() <= 4,
    ensures
        frame@ == (FrameView { id: cob, data: object_payload(cmd, index, sub, data@) }),
{
    let mut payload = [0u8; 8];
    let index_bytes = u16_to_le(index);
    payload[0] = cmd;
    payload[1] = index_bytes[0];
    payload[2] = index_bytes[1];
    payload[3] = sub;
    copy_at(&mut payload, 4, data);
    proof {
        lemma_le_2(index as nat);
        assert(payload@ =~= object_payload(cmd, index, sub, data@));
    }
    CanFrame::new(cob, &payload).unwrap()
}

/// Builds a segment frame.
pub(crate) fn segment_frame(cob: u16, cmd: u8, data: &[u8]) -> (frame: CanFrame)
    requires
        cob <= 0x7FF,
        data@.len() <= 7,
    ensures
        frame@ == (FrameView { id: cob, data: segment_payload(cmd, data@) }),
{
    let mut payload = [0u8; 8];
    payload[0] = cmd;
    copy_at(&mut payload, 1, data);
    assert(payload@ =~= segment_payload(cmd, data@));
    CanFrame::new(cob, &payload).unwrap()
}

/// Reads the object index out of a payload.
pub(crate) fn read_index(payload: &[u8]) -> (index: u16)
    requires
        payload@.len() == 8,
    ensures
        index == payload_index(payload@),
{
    assert(payload@.subrange(1, 3) =~= seq![payload@[1], payload@[2]]);
    u16_from_le(payload[1], payload[2])
}

/// Reads the number in bytes 4..8 out of a payload.
pub(crate) fn read_number(payload: &[u8]) -> (number: u32)
    requires
        payload@.len() == 8,
    ensures
        number == payload_number(payload@),
{
    assert(payload@.subrange(4, 8) =~= seq![payload@[4], payload@[5], payload@[6], payload@[7]]);
    u32_from_le(payload[4], payload[5], payload[6], payload[7])
}

/// Reads the announced size out of an initiate payload.
pub(crate) fn read_announced_size(payload: &[u8]) -> (size: Option<u32>)
    requires
        payload@.len() == 8,
    ensures
        size == announced_size(payload@),
{
    if payload[0] % 2 == 1 {
        Some(read_number(payload))
    } else {
        None
    }
}

/// Reads the length of an expedited payload out of its command byte.
pub(crate) fn read_expedited_len(cmd: u8) -> (len: usize)
    ensures
        len == expedited_len(cmd),
        1 <= len <= 4,
{
    if cmd % 2 == 1 {
        (4 - cmd / 4 % 4) as usize
    } else {
        4
    }
}

/// The command byte of an expedited transfer of `len` bytes.
pub(crate) fn make_expedited_cmd(base: u8, len: usize) -> (cmd: u8)
    requires
        base <= 0xE0,
        1 <= len <= 4,
    ensures
        cmd == expedited_cmd(base, len as nat),
{
    base + 3 + 4 * (4 - len as u8)
}

/// The command byte of a segment of `len` bytes.
pub(crate) fn make_segment_cmd(toggle: bool, len: usize, last: bool) -> (cmd: u8)
    requires
        len <= 7,
    ensures
        cmd == segment_cmd(toggle, len as nat, last),
{
    let t: u8 = if toggle {
        16
    } else {
        0
    };
    let c: u8 = if last {
        1
    } else {
        0
    };
    t + 2 * (7 - len as u8) + c
}

/// The command byte `base` with the toggle bit set to `toggle`.
pub(crate) fn make_toggled_cmd(base: u8, toggle: bool) -> (cmd: u8)
    requires
        base <= 0xE0,
    ensures
        cmd == toggled_cmd(base, toggle),
{
    if toggle {
        base + 16
    } else {
        base
    }
}

} // verus!
