//! What a client and a server do together.
//!
//! A client and a server that are connected by a lossless link take turns:
//! the client's frame is handed to the server, the server's answer to the
//! client, until the client reports the end of the transfer. The laws below
//! say what comes out of such an exchange.

use crate::bytes::{le_bytes, lemma_le_4, lemma_le_bytes_len};
use crate::cob::{cob_id, Function};
use crate::frame::FrameView;
use crate::od::{EntryInfo, ObjectDictionary, OdError};
use crate::sdo::abort::SdoAbortCode;
use crate::sdo::client::{client_listens, client_polled, client_receives, client_request};
use crate::sdo::client::{client_rests, client_segment, download_frame, download_phase};
use crate::sdo::client::{download_request, lemma_segment_acknowledged, ClientPhase, ClientState};
use crate::sdo::client::{Outcome, SdoTransferError};
use crate::sdo::server::{od_follows, server_listens, server_polled, server_receives};
use crate::sdo::server::{server_response, server_rests, server_set_to, valid_server};
use crate::sdo::server::{AcceptedWrite, ServerPhase, ServerState};
use crate::sdo::wire::{expedited_cmd, is_last, law_expedited_cmd_reads_back};
use crate::sdo::wire::{law_object_payload_reads_back, law_payload_number_reads_back};
use crate::sdo::wire::{law_segment_payload_reads_back, law_toggled_cmd_reads_back, next_chunk};
use crate::sdo::wire::{payload_index, payload_sub, segment_cmd, segment_data, specifier};
use crate::sdo::wire::{toggle_bit, toggled_cmd, ABORT};
use crate::Micros;
use vstd::prelude::*;

verus! {

/// The end of an exchange.
pub struct Exchange {
    pub client: ClientState,
    pub server: ServerState,
    pub written: Option<AcceptedWrite>,
    pub event: Option<Outcome>,
}

/// Runs an exchange that starts with the client frame `request`, for at most
/// `turns` further turns. The turn `n` takes place at the time `clock(n)`.
pub open spec fn exchange<OD: ObjectDictionary>(
    client: ClientState,
    client_room: nat,
    server: ServerState,
    server_room: nat,
    od: OD,
    request: FrameView,
    clock: spec_fn(nat) -> Micros,
    n: nat,
    turns: nat,
) -> Exchange
    decreases turns,
{
    let served = server_receives(server, server_room, od, request, clock(n));
    let answered = client_receives(client, client_room, served.frames[0], clock(n));
    if answered.event is Some || turns == 0 {
        Exchange {
            client: answered.next,
            server: served.next,
            written: served.written,
            event: answered.event,
        }
    } else {
        exchange(
            answered.next,
            client_room,
            served.next,
            server_room,
            od,
            answered.frames[0],
            clock,
            n + 1,
            (turns - 1) as nat,
        )
    }
}

/// Whether the client talks to this server.
pub open spec fn linked(client: ClientState, server: ServerState) -> bool {
    client.server == server.node && 1 <= server.node <= 127
}

/// The exchange is over on both sides, and the client was told `event`.
pub open spec fn ends_with(
    end: Exchange,
    event: Outcome,
    written: Option<AcceptedWrite>,
) -> bool {
    &&& end.event == Some(event)
    &&& end.written == written
    &&& end.client.phase is Idle
    &&& end.server.phase is Idle
}

/// How a download ends that reaches the dictionary: the dictionary decides.
pub open spec fn download_end<OD: ObjectDictionary>(
    od: OD,
    index: u16,
    sub: u8,
    value: Seq<u8>,
    end: Exchange,
) -> bool {
    match od.spec_write(index, sub, value) {
        Ok(_) => ends_with(
            end,
            Outcome::DownloadOk { index, sub },
            Some(AcceptedWrite { index, sub, data: value }),
        ),
        Err(e) => ends_with(end, refusal(index, sub, e), None),
    }
}

/// The event that reports a request which the dictionary refused.
pub open spec fn refusal(index: u16, sub: u8, error: OdError) -> Outcome {
    Outcome::Failed { index, sub, error: SdoTransferError::Abort(error.spec_abort_code()) }
}

/// An exchange changes neither who talks to whom nor which object the client
/// addresses.
pub proof fn law_exchange_keeps_partners<OD: ObjectDictionary>(
    client: ClientState,
    client_room: nat,
    server: ServerState,
    server_room: nat,
    od: OD,
    request: FrameView,
    clock: spec_fn(nat) -> Micros,
    n: nat,
    turns: nat,
)
    ensures
        ({
            let end = exchange(
                client,
                client_room,
                server,
                server_room,
                od,
                request,
                clock,
                n,
                turns,
            );
            &&& end.client.server == client.server
            &&& end.client.index == client.index
            &&& end.client.sub == client.sub
            &&& end.client.timeout_us == client.timeout_us
            &&& end.server.node == server.node
            &&& end.server.timeout_us == server.timeout_us
        }),
    decreases turns,
{
    let served = server_receives(server, server_room, od, request, clock(n));
    let answered = client_receives(client, client_room, served.frames[0], clock(n));
    if !(answered.event is Some || turns == 0) {
        law_exchange_keeps_partners(
            answered.next,
            client_room,
            served.next,
            server_room,
            od,
            answered.frames[0],
            clock,
            n + 1,
            (turns - 1) as nat,
        );
    }
}

/// A server abort is reported to the waiting client with its code.
proof fn lemma_abort_reported(c: ClientState, room: nat, s: ServerState, code: u32, now: Micros)
    requires
        linked(c, s),
        c.phase !is Idle,
    ensures
        ({
            let step = client_receives(
                c,
                room,
                server_response(s, 0x80, le_bytes(code as nat, 4)),
                now,
            );
            &&& step.event == Some(
                Outcome::Failed {
                    index: c.index,
                    sub: c.sub,
                    error: SdoTransferError::Abort(SdoAbortCode(code)),
                },
            )
            &&& step.next.phase is Idle
        }),
{
    lemma_le_4(code as nat);
    law_object_payload_reads_back(0x80, s.index, s.sub, le_bytes(code as nat, 4));
    law_payload_number_reads_back(0x80, s.index, s.sub, code);
}

/// The segments of a download from `offset` on.
proof fn lemma_download_segments<OD: ObjectDictionary>(
    c: ClientState,
    c_room: nat,
    s: ServerState,
    s_room: nat,
    od: OD,
    value: Seq<u8>,
    offset: nat,
    toggle: bool,
    clock: spec_fn(nat) -> Micros,
    n: nat,
    turns: nat,
)
    requires
        linked(c, s),
        s.index == c.index && s.sub == c.sub,
        offset < value.len() <= s_room,
        value.len() <= u32::MAX,
        c.phase == (ClientPhase::DownloadSegment {
            toggle,
            data: value,
            sent: offset + next_chunk(value, offset).len(),
        }),
        s.phase == (ServerPhase::Download {
            indicated: Some(value.len() as u32),
            received: value.take(offset as int),
            toggle,
        }),
        turns >= value.len() - offset,
    ensures
        download_end(
            od,
            c.index,
            c.sub,
            value,
            exchange(
                c,
                c_room,
                s,
                s_room,
                od,
                client_segment(c, value, offset, toggle),
                clock,
                n,
                turns,
            ),
        ),
    decreases turns,
{
    let chunk = next_chunk(value, offset);
    let end = offset + chunk.len();
    let last = end == value.len();
    let frame = client_segment(c, value, offset, toggle);
    law_segment_payload_reads_back(toggle, chunk, last);
    assert(frame.data[0] == segment_cmd(toggle, chunk.len(), last));
    assert(value.take(offset as int) + chunk =~= value.take(end as int));
    assert(value.take(value.len() as int) =~= value);
    let ack = toggled_cmd(0x20, toggle);
    law_toggled_cmd_reads_back(0x20, toggle);
    law_object_payload_reads_back(ack, s.index, s.sub, Seq::empty());
    let served = server_receives(s, s_room, od, frame, clock(n));
    let answered = client_receives(c, c_room, served.frames[0], clock(n));
    if last {
        match od.spec_write(c.index, c.sub, value) {
            Ok(_) => {},
            Err(e) => {
                lemma_abort_reported(c, c_room, s, e.spec_abort_code().0, clock(n));
            },
        }
    } else {
        lemma_download_segments(
            answered.next,
            c_room,
            served.next,
            s_room,
            od,
            value,
            end,
            !toggle,
            clock,
            n + 1,
            (turns - 1) as nat,
        );
    }
}

/// A download ends as the dictionary decides: the dictionary is handed
/// exactly the bytes that the client was given, once and at the end, and the
/// client is told success, or the abort code of the dictionary's error. This
/// holds for expedited and segmented transfers alike, whatever the state the
/// server was in.
pub proof fn law_download_hands_over_the_value<OD: ObjectDictionary>(
    client: ClientState,
    client_room: nat,
    server: ServerState,
    server_room: nat,
    od: OD,
    value: Seq<u8>,
    clock: spec_fn(nat) -> Micros,
    turns: nat,
)
    requires
        linked(client, server),
        1 <= value.len() <= client_room,
        client.phase == (ClientPhase::DownloadInitiate { data: value }),
        value.len() > 4 ==> {
            &&& value.len() <= server_room
            &&& value.len() <= u32::MAX
            &&& od.spec_info(client.index, client.sub) is Ok
            &&& od.spec_info(client.index, client.sub)->Ok_0.sdo.spec_writable()
        },
        turns > value.len(),
    ensures
        download_end(
            od,
            client.index,
            client.sub,
            value,
            exchange(
                client,
                client_room,
                server,
                server_room,
                od,
                download_request(client, value),
                clock,
                0,
                turns,
            ),
        ),
{
    let request = download_request(client, value);
    let served = server_receives(server, server_room, od, request, clock(0));
    let answered = client_receives(client, client_room, served.frames[0], clock(0));
    if value.len() <= 4 {
        let cmd = expedited_cmd(0x20, value.len());
        law_expedited_cmd_reads_back(0x20, value.len());
        law_object_payload_reads_back(cmd, client.index, client.sub, value);
        law_object_payload_reads_back(0x60, client.index, client.sub, Seq::empty());
        match od.spec_write(client.index, client.sub, value) {
            Ok(_) => {},
            Err(e) => {
                lemma_abort_reported(
                    client,
                    client_room,
                    ServerState { index: client.index, sub: client.sub, ..server },
                    e.spec_abort_code().0,
                    clock(0),
                );
            },
        }
    } else {
        let size = value.len() as u32;
        lemma_le_4(size as nat);
        law_object_payload_reads_back(0x21, client.index, client.sub, le_bytes(size as nat, 4));
        law_payload_number_reads_back(0x21, client.index, client.sub, size);
        law_object_payload_reads_back(0x60, client.index, client.sub, Seq::empty());
        assert(value.take(0) =~= Seq::<u8>::empty());
        lemma_download_segments(
            answered.next,
            client_room,
            served.next,
            server_room,
            od,
            value,
            0,
            false,
            clock,
            1,
            (turns - 1) as nat,
        );
    }
}

/// The segments of an upload from `offset` on.
proof fn lemma_upload_segments<OD: ObjectDictionary>(
    c: ClientState,
    c_room: nat,
    s: ServerState,
    s_room: nat,
    od: OD,
    value: Seq<u8>,
    offset: nat,
    toggle: bool,
    clock: spec_fn(nat) -> Micros,
    n: nat,
    turns: nat,
)
    requires
        linked(c, s),
        offset < value.len() <= c_room,
        value.len() <= u32::MAX,
        c.phase == (ClientPhase::UploadSegment {
            toggle,
            received: value.take(offset as int),
            indicated: Some(value.len() as u32),
        }),
        s.phase == (ServerPhase::Upload { data: value, offset, toggle }),
        turns >= value.len() - offset,
    ensures
        ends_with(
            exchange(
                c,
                c_room,
                s,
                s_room,
                od,
                client_request(c, toggled_cmd(0x60, toggle), Seq::empty()),
                clock,
                n,
                turns,
            ),
            Outcome::UploadOk { index: c.index, sub: c.sub, data: value },
            None,
        ),
    decreases turns,
{
    let chunk = next_chunk(value, offset);
    let end = offset + chunk.len();
    let last = end == value.len();
    let ask = toggled_cmd(0x60, toggle);
    let frame = client_request(c, ask, Seq::empty());
    law_toggled_cmd_reads_back(0x60, toggle);
    law_object_payload_reads_back(ask, c.index, c.sub, Seq::empty());
    law_segment_payload_reads_back(toggle, chunk, last);
    assert(value.take(offset as int) + chunk =~= value.take(end as int));
    assert(value.take(value.len() as int) =~= value);
    let served = server_receives(s, s_room, od, frame, clock(n));
    let answered = client_receives(c, c_room, served.frames[0], clock(n));
    assert(served.frames[0].data[0] == segment_cmd(toggle, chunk.len(), last));
    if !last {
        lemma_upload_segments(
            answered.next,
            c_room,
            served.next,
            s_room,
            od,
            value,
            end,
            !toggle,
            clock,
            n + 1,
            (turns - 1) as nat,
        );
    }
}

/// An upload of a readable value that fits both buffers gives the client
/// exactly the value that the dictionary holds, in an expedited or a
/// segmented transfer, and writes nothing.
pub proof fn law_upload_gives_the_value<OD: ObjectDictionary>(
    client: ClientState,
    client_room: nat,
    server: ServerState,
    server_room: nat,
    od: OD,
    value: Seq<u8>,
    clock: spec_fn(nat) -> Micros,
    turns: nat,
)
    requires
        linked(client, server),
        client.phase is UploadInitiate,
        od.spec_info(client.index, client.sub) is Ok,
        od.spec_value(client.index, client.sub) == Ok::<Seq<u8>, OdError>(value),
        1 <= value.len() <= client_room,
        value.len() <= server_room,
        value.len() <= u32::MAX,
        turns > value.len(),
    ensures
        ends_with(
            exchange(
                client,
                client_room,
                server,
                server_room,
                od,
                client_request(client, 0x40, Seq::empty()),
                clock,
                0,
                turns,
            ),
            Outcome::UploadOk { index: client.index, sub: client.sub, data: value },
            None,
        ),
{
    let request = client_request(client, 0x40, Seq::empty());
    law_object_payload_reads_back(0x40, client.index, client.sub, Seq::empty());
    let served = server_receives(server, server_room, od, request, clock(0));
    let answered = client_receives(client, client_room, served.frames[0], clock(0));
    if value.len() <= 4 {
        let cmd = expedited_cmd(0x40, value.len());
        law_expedited_cmd_reads_back(0x40, value.len());
        law_object_payload_reads_back(cmd, client.index, client.sub, value);
    } else {
        let size = value.len() as u32;
        lemma_le_4(size as nat);
        law_object_payload_reads_back(0x41, client.index, client.sub, le_bytes(size as nat, 4));
        law_payload_number_reads_back(0x41, client.index, client.sub, size);
        assert(value.take(0) =~= Seq::<u8>::empty());
        lemma_upload_segments(
            answered.next,
            client_room,
            served.next,
            server_room,
            od,
            value,
            0,
            false,
            clock,
            1,
            (turns - 1) as nat,
        );
    }
}

/// An upload that the dictionary refuses fails at the client with the abort
/// code of the dictionary's error, and both sides are idle again.
pub proof fn law_refused_upload_is_reported<OD: ObjectDictionary>(
    client: ClientState,
    client_room: nat,
    server: ServerState,
    server_room: nat,
    od: OD,
    error: OdError,
    clock: spec_fn(nat) -> Micros,
    turns: nat,
)
    requires
        linked(client, server),
        client.phase is UploadInitiate,
        od.spec_info(client.index, client.sub) == Err::<EntryInfo, OdError>(error) || (
        od.spec_info(client.index, client.sub) is Ok && error != OdError::BufferTooSmall
            && od.spec_value(client.index, client.sub) == Err::<Seq<u8>, OdError>(error)),
    ensures
        ends_with(
            exchange(
                client,
                client_room,
                server,
                server_room,
                od,
                client_request(client, 0x40, Seq::empty()),
                clock,
                0,
                turns,
            ),
            refusal(client.index, client.sub, error),
            None,
        ),
{
    law_object_payload_reads_back(0x40, client.index, client.sub, Seq::empty());
    lemma_abort_reported(
        client,
        client_room,
        ServerState { index: client.index, sub: client.sub, ..server },
        error.spec_abort_code().0,
        clock(0),
    );
}

/// A segmented download to an object that does not exist or may not be
/// written fails at the request, before a single segment was sent.
pub proof fn law_refused_segmented_download_fails_fast<OD: ObjectDictionary>(
    client: ClientState,
    client_room: nat,
    server: ServerState,
    server_room: nat,
    od: OD,
    value: Seq<u8>,
    clock: spec_fn(nat) -> Micros,
)
    requires
        linked(client, server),
        4 < value.len(),
        client.phase == (ClientPhase::DownloadInitiate { data: value }),
        match od.spec_info(client.index, client.sub) {
            Ok(info) => !info.sdo.spec_writable(),
            Err(_) => true,
        },
    ensures
        ends_with(
            exchange(
                client,
                client_room,
                server,
                server_room,
                od,
                download_request(client, value),
                clock,
                0,
                0,
            ),
            refusal(
                client.index,
                client.sub,
                match od.spec_info(client.index, client.sub) {
                    Ok(_) => OdError::ReadOnly,
                    Err(e) => e,
                },
            ),
            None,
        ),
{
    let size = value.len() as u32;
    lemma_le_4(size as nat);
    law_object_payload_reads_back(0x21, client.index, client.sub, le_bytes(size as nat, 4));
    let error = match od.spec_info(client.index, client.sub) {
        Ok(_) => OdError::ReadOnly,
        Err(e) => e,
    };
    lemma_abort_reported(
        client,
        client_room,
        ServerState { index: client.index, sub: client.sub, ..server },
        error.spec_abort_code().0,
        clock(0),
    );
}

/// A value that does not fit the server's buffer fails at the client with
/// the out-of-memory abort code, in either direction, and both sides are idle
/// again.
pub proof fn law_too_large_for_the_server<OD: ObjectDictionary>(
    client: ClientState,
    client_room: nat,
    server: ServerState,
    server_room: nat,
    od: OD,
    value: Seq<u8>,
    clock: spec_fn(nat) -> Micros,
)
    requires
        linked(client, server),
        server_room < value.len() <= u32::MAX,
        match client.phase {
            ClientPhase::UploadInitiate => od.spec_info(client.index, client.sub) is Ok
                && od.spec_value(client.index, client.sub) == Ok::<Seq<u8>, OdError>(value),
            ClientPhase::DownloadInitiate { data } => data == value && value.len() > 4
                && od.spec_info(client.index, client.sub) is Ok && od.spec_info(
                client.index,
                client.sub,
            )->Ok_0.sdo.spec_writable(),
            _ => false,
        },
    ensures
        ends_with(
            exchange(
                client,
                client_room,
                server,
                server_room,
                od,
                if client.phase is UploadInitiate {
                    client_request(client, 0x40, Seq::empty())
                } else {
                    download_request(client, value)
                },
                clock,
                0,
                0,
            ),
            Outcome::Failed {
                index: client.index,
                sub: client.sub,
                error: SdoTransferError::Abort(SdoAbortCode(SdoAbortCode::OUT_OF_MEMORY)),
            },
            None,
        ),
{
    let size = value.len() as u32;
    lemma_le_4(size as nat);
    law_object_payload_reads_back(0x40, client.index, client.sub, Seq::empty());
    law_object_payload_reads_back(0x21, client.index, client.sub, le_bytes(size as nat, 4));
    law_payload_number_reads_back(0x21, client.index, client.sub, size);
    lemma_abort_reported(
        client,
        client_room,
        ServerState { index: client.index, sub: client.sub, ..server },
        SdoAbortCode::OUT_OF_MEMORY,
        clock(0),
    );
}

/// A value that fits the server's buffer but not the client's fails at the
/// client with `BufferTooSmall`; the client sends an abort, and the server is
/// idle again once it has received it.
pub proof fn law_too_large_for_the_client<OD: ObjectDictionary>(
    client: ClientState,
    client_room: nat,
    server: ServerState,
    server_room: nat,
    od: OD,
    value: Seq<u8>,
    now: Micros,
)
    requires
        linked(client, server),
        client.phase is UploadInitiate,
        od.spec_info(client.index, client.sub) is Ok,
        od.spec_value(client.index, client.sub) == Ok::<Seq<u8>, OdError>(value),
        client_room < value.len() <= server_room,
        value.len() <= u32::MAX,
    ensures
        ({
            let request = client_request(client, 0x40, Seq::empty());
            let served = server_receives(server, server_room, od, request, now);
            let answered = client_receives(client, client_room, served.frames[0], now);
            let dropped = server_receives(served.next, server_room, od, answered.frames[0], now);
            &&& answered.event == Some(
                Outcome::Failed {
                    index: client.index,
                    sub: client.sub,
                    error: SdoTransferError::BufferTooSmall,
                },
            )
            &&& answered.next.phase is Idle
            &&& dropped.next.phase is Idle
            &&& dropped.frames.len() == 0
            &&& dropped.written is None
        }),
{
    let size = value.len() as u32;
    let code = le_bytes(SdoAbortCode::OUT_OF_MEMORY as nat, 4);
    lemma_le_4(size as nat);
    lemma_le_4(SdoAbortCode::OUT_OF_MEMORY as nat);
    law_object_payload_reads_back(0x40, client.index, client.sub, Seq::empty());
    law_object_payload_reads_back(0x41, client.index, client.sub, le_bytes(size as nat, 4));
    law_payload_number_reads_back(0x41, client.index, client.sub, size);
    law_object_payload_reads_back(0x80, client.index, client.sub, code);
    if value.len() <= 4 {
        let cmd = expedited_cmd(0x40, value.len());
        law_expedited_cmd_reads_back(0x40, value.len());
        law_object_payload_reads_back(cmd, client.index, client.sub, value);
    }
}

/// The answers of a server that address an object have eight bytes.
proof fn lemma_response_len(s: ServerState, cmd: u8, data: Seq<u8>)
    requires
        data.len() <= 4,
    ensures
        server_response(s, cmd, data).data.len() == 8,
{
    lemma_le_bytes_len(s.index as nat, 2);
}

/// Every request is answered: a frame of eight bytes on the server's channel
/// gets exactly one answer, of eight bytes and on the server's response
/// channel, except an abort, which ends the transfer and gets none. Any other
/// frame is ignored. What the law asks of the server stays true.
pub proof fn law_every_request_is_answered<OD: ObjectDictionary>(
    server: ServerState,
    room: nat,
    od: OD,
    frame: FrameView,
    now: Micros,
)
    requires
        valid_server(server),
    ensures
        ({
            let step = server_receives(server, room, od, frame, now);
            let listened = frame.id == cob_id(Function::SdoRx, server.node) && frame.data.len()
                == 8;
            let aborted = listened && specifier(frame.data[0]) == 4;
            &&& !listened ==> step == server_rests(server)
            &&& aborted ==> step.next.phase is Idle && step.written is None
            &&& step.frames.len() == if listened && !aborted {
                1nat
            } else {
                0nat
            }
            &&& forall|i: int|
                0 <= i < step.frames.len() ==> (#[trigger] step.frames[i]).id == cob_id(
                    Function::SdoTx,
                    server.node,
                ) && step.frames[i].data.len() == 8
            &&& valid_server(step.next)
        }),
{
    let s = ServerState { since: now, ..server };
    let set = server_set_to(s, frame.data);
    assert forall|code: u32| (#[trigger] le_bytes(code as nat, 4)).len() == 4 by {
        lemma_le_bytes_len(code as nat, 4);
    }
    assert forall|s: ServerState, cmd: u8, data: Seq<u8>| data.len() <= 4 implies (
    #[trigger] server_response(s, cmd, data)).data.len() == 8 by {
        lemma_response_len(s, cmd, data);
    }
}

/// A write is accepted by the server only at the end of a transfer, and the
/// dictionary accepted exactly that write.
pub proof fn law_writes_end_the_transfer<OD: ObjectDictionary>(
    server: ServerState,
    room: nat,
    od: OD,
    frame: FrameView,
    now: Micros,
)
    ensures
        ({
            let step = server_receives(server, room, od, frame, now);
            step.written is Some ==> {
                &&& step.next.phase is Idle
                &&& od.spec_write(
                    step.written->0.index,
                    step.written->0.sub,
                    step.written->0.data,
                ) is Ok
            }
        }),
{
}

/// The announced size is binding: when the last segment of a download has
/// arrived, a transfer that fell short is aborted with the code for too short
/// data and one in excess with the code for too long data, and neither writes
/// anything. Otherwise the dictionary is handed the bytes of all segments in
/// order, once, and decides. The transfer is over in any case.
pub proof fn law_announced_size_is_binding<OD: ObjectDictionary>(
    server: ServerState,
    room: nat,
    od: OD,
    frame: FrameView,
    now: Micros,
    announced: u32,
    received: Seq<u8>,
    toggle: bool,
)
    requires
        server_listens(server, frame),
        server.phase == (ServerPhase::Download { indicated: Some(announced), received, toggle }),
        specifier(frame.data[0]) == 0,
        toggle_bit(frame.data[0]) == toggle,
        is_last(frame.data[0]),
        received.len() + segment_data(frame.data).len() <= room,
    ensures
        ({
            let all = received + segment_data(frame.data);
            let step = server_receives(server, room, od, frame, now);
            &&& step.next.phase is Idle
            &&& all.len() < announced ==> step.written is None && step.frames == seq![
                server_response(server, ABORT, le_bytes(SdoAbortCode::DATA_SHORT as nat, 4)),
            ]
            &&& all.len() > announced ==> step.written is None && step.frames == seq![
                server_response(server, ABORT, le_bytes(SdoAbortCode::DATA_LONG as nat, 4)),
            ]
            &&& all.len() == announced ==> match od.spec_write(server.index, server.sub, all) {
                Ok(_) => step.written == Some(
                    AcceptedWrite { index: server.index, sub: server.sub, data: all },
                ) && step.frames == seq![
                    server_response(server, toggled_cmd(0x20, toggle), Seq::empty()),
                ],
                Err(e) => step.written is None && step.frames == seq![
                    server_response(server, ABORT, le_bytes(e.spec_abort_code().0 as nat, 4)),
                ],
            }
            &&& forall|post: OD|
                step.written is None && #[trigger] od_follows(step.written, od, post) ==> post
                    == od
        }),
{
}

/// Whether `frame` accepts the download request of a client.
pub open spec fn accepts_download(c: ClientState, frame: FrameView) -> bool {
    &&& frame.id == cob_id(Function::SdoTx, c.server)
    &&& frame.data.len() == 8
    &&& specifier(frame.data[0]) == 3
    &&& payload_index(frame.data) == c.index
    &&& payload_sub(frame.data) == c.sub
}

/// Whether `frame` acknowledges the segment numbered `k` of a download.
pub open spec fn acknowledges(c: ClientState, frame: FrameView, k: nat) -> bool {
    &&& frame.id == cob_id(Function::SdoTx, c.server)
    &&& frame.data.len() == 8
    &&& specifier(frame.data[0]) == 1
    &&& toggle_bit(frame.data[0]) == (k % 2 == 1)
}

/// A segmented download whose request is accepted goes on with its first
/// segment.
pub proof fn law_download_begins_with_the_first_segment(
    client: ClientState,
    room: nat,
    value: Seq<u8>,
    answer: FrameView,
    now: Micros,
)
    requires
        value.len() > 4,
        client.phase == (ClientPhase::DownloadInitiate { data: value }),
        accepts_download(client, answer),
    ensures
        ({
            let step = client_receives(client, room, answer, now);
            &&& step.event is None
            &&& step.next == (ClientState {
                since: now,
                phase: download_phase(value, 0),
                ..client
            })
            &&& step.frames == seq![download_frame(client.server, value, 0)]
        }),
{
    let step = client_receives(client, room, answer, now);
    assert(step.frames[0].data =~= download_frame(client.server, value, 0).data);
    assert(step.frames =~= seq![download_frame(client.server, value, 0)]);
}

/// When the segment numbered `k` of a download is acknowledged, the client
/// sends the next seven bytes or what is left, with the other toggle bit and
/// the last one marked, or reports success if all bytes are out.
pub proof fn law_download_goes_on_segment_by_segment(
    client: ClientState,
    room: nat,
    value: Seq<u8>,
    ack: FrameView,
    now: Micros,
    k: nat,
)
    requires
        client.phase == download_phase(value, k),
        7 * k < value.len(),
        acknowledges(client, ack, k),
    ensures
        ({
            let step = client_receives(client, room, ack, now);
            if 7 * (k + 1) >= value.len() {
                &&& step.event == Some(
                    Outcome::DownloadOk { index: client.index, sub: client.sub },
                )
                &&& step.frames == Seq::<FrameView>::empty()
                &&& step.next == (ClientState { since: now, phase: ClientPhase::Idle, ..client })
            } else {
                &&& step.event is None
                &&& step.frames == seq![download_frame(client.server, value, k + 1)]
                &&& step.next == (ClientState {
                    since: now,
                    phase: download_phase(value, k + 1),
                    ..client
                })
            }
        }),
{
    lemma_segment_acknowledged(ClientState { since: now, ..client }, ack.data, value, k);
}

/// The client after the responses `responses`, the one numbered `i` at the
/// time `clock(i)`.
pub open spec fn client_after(
    client: ClientState,
    room: nat,
    responses: Seq<FrameView>,
    clock: spec_fn(nat) -> Micros,
) -> ClientState
    decreases responses.len(),
{
    if responses.len() == 0 {
        client
    } else {
        client_receives(
            client_after(client, room, responses.drop_last(), clock),
            room,
            responses.last(),
            clock((responses.len() - 1) as nat),
        ).next
    }
}

/// A client whose download request was accepted and whose first `k` segments
/// were acknowledged is waiting for the acknowledgement of the segment
/// numbered `k`, for every `k` that the value has a segment of.
pub proof fn law_download_reaches_every_segment(
    client: ClientState,
    room: nat,
    value: Seq<u8>,
    responses: Seq<FrameView>,
    clock: spec_fn(nat) -> Micros,
    k: nat,
)
    requires
        value.len() > 4,
        client.phase == (ClientPhase::DownloadInitiate { data: value }),
        7 * k < value.len(),
        responses.len() == k + 1,
        accepts_download(client, responses[0]),
        forall|i: int| 0 <= i < k ==> acknowledges(client, #[trigger] responses[i + 1], i as nat),
    ensures
        client_after(client, room, responses, clock) == (ClientState {
            since: clock(k),
            phase: download_phase(value, k),
            ..client
        }),
    decreases k,
{
    let before = responses.drop_last();
    if k == 0 {
        assert(client_after(client, room, before, clock) == client);
        law_download_begins_with_the_first_segment(
            client,
            room,
            value,
            responses[0],
            clock(0),
        );
    } else {
        let j = (k - 1) as nat;
        assert forall|i: int| 0 <= i < j implies acknowledges(
            client,
            #[trigger] before[i + 1],
            i as nat,
        ) by {
            assert(before[i + 1] == responses[i + 1]);
        }
        law_download_reaches_every_segment(client, room, value, before, clock, j);
        assert(acknowledges(client, responses[j as int + 1], j));
        law_download_goes_on_segment_by_segment(
            client_after(client, room, before, clock),
            room,
            value,
            responses.last(),
            clock(k),
            j,
        );
    }
}

/// A new request cancels a transfer that is still in progress at the server:
/// the answer does not depend on what the server was in the middle of.
pub proof fn law_requests_cancel_stale_transfers<OD: ObjectDictionary>(
    server: ServerState,
    stale: ServerState,
    room: nat,
    od: OD,
    frame: FrameView,
    now: Micros,
)
    requires
        stale.node == server.node && stale.timeout_us == server.timeout_us,
        server_listens(server, frame),
        specifier(frame.data[0]) == 1 || specifier(
            frame.data[0],
        ) == 2,
    ensures
        server_receives(server, room, od, frame, now) == server_receives(
            stale,
            room,
            od,
            frame,
            now,
        ),
{
    let index = payload_index(frame.data);
    let fresh = ServerState {
        since: now,
        index,
        sub: payload_sub(frame.data),
        phase: ServerPhase::Idle,
        ..server
    };
    assert(server_set_to(ServerState { since: now, ..server }, frame.data)
        == fresh);
    assert(server_set_to(ServerState { since: now, ..stale }, frame.data)
        == fresh);
}

/// A segment whose toggle bit does not alternate ends the transfer with the
/// toggle-bit abort code, on both sides and in both directions.
pub proof fn law_toggle_bits_must_alternate<OD: ObjectDictionary>(
    client: ClientState,
    client_room: nat,
    response: FrameView,
    server: ServerState,
    server_room: nat,
    od: OD,
    request: FrameView,
    now: Micros,
)
    ensures
        client_listens(client, response) && match client.phase {
            ClientPhase::UploadSegment { toggle, .. } => specifier(
                response.data[0],
            ) == 0 && toggle_bit(response.data[0]) != toggle,
            ClientPhase::DownloadSegment { toggle, .. } => specifier(
                response.data[0],
            ) == 1 && toggle_bit(response.data[0]) != toggle,
            _ => false,
        } ==> {
            let step = client_receives(client, client_room, response, now);
            &&& step.next.phase is Idle
            &&& step.frames == seq![
                client_request(client, 0x80, le_bytes(SdoAbortCode::TOGGLE_BIT as nat, 4)),
            ]
            &&& step.event == Some(
                Outcome::Failed {
                    index: client.index,
                    sub: client.sub,
                    error: SdoTransferError::Protocol,
                },
            )
        },
        server_listens(server, request) && match server.phase {
            ServerPhase::Download { toggle, .. } => specifier(request.data[0])
                == 0 && toggle_bit(request.data[0]) != toggle,
            ServerPhase::Upload { toggle, .. } => specifier(request.data[0])
                == 3 && toggle_bit(request.data[0]) != toggle,
            _ => false,
        } ==> {
            let step = server_receives(server, server_room, od, request, now);
            &&& step.next.phase is Idle
            &&& step.frames == seq![
                server_response(server, 0x80, le_bytes(SdoAbortCode::TOGGLE_BIT as nat, 4)),
            ]
            &&& step.written is None
        },
{
}

/// A client reports an event exactly when the transfer in progress ends, be
/// it on a response or on a timeout.
pub proof fn law_client_reports_the_end(client: ClientState, room: nat, frame: FrameView, now: Micros)
    ensures
        client_receives(client, room, frame, now).event is Some <==> client.phase !is Idle
            && client_receives(client, room, frame, now).next.phase is Idle,
        client_polled(client, now).event is Some <==> client.phase !is Idle
            && client_polled(client, now).next.phase is Idle,
{
}

/// Every response restarts the client's timeout, every request the
/// server's: polled within the timeout after it, neither gives up.
pub proof fn law_timeouts_are_per_message<OD: ObjectDictionary>(
    client: ClientState,
    client_room: nat,
    response: FrameView,
    server: ServerState,
    server_room: nat,
    od: OD,
    request: FrameView,
    now: Micros,
    later: Micros,
)
    requires
        client_listens(client, response),
        server_listens(server, request),
    ensures
        later - now < client.timeout_us && client.timeout_us > 0 ==> {
            let c = client_receives(client, client_room, response, now).next;
            client_polled(c, later) == client_rests(c)
        },
        later - now < server.timeout_us && server.timeout_us > 0 ==> {
            let s = server_receives(server, server_room, od, request, now).next;
            server_polled(s, later) == server_rests(s)
        },
{
}

/// A transfer that is not answered in time is aborted on both sides: polled
/// after the timeout, each side is idle and has sent the timeout abort.
pub proof fn law_stale_transfers_are_aborted(client: ClientState, server: ServerState, now: Micros)
    requires
        client.phase !is Idle,
        now - client.since >= client.timeout_us,
        server.phase !is Idle,
        now - server.since >= server.timeout_us,
    ensures
        ({
            let c = client_polled(client, now);
            let s = server_polled(server, now);
            let code = le_bytes(SdoAbortCode::TIMEOUT as nat, 4);
            &&& c.next.phase is Idle && s.next.phase is Idle
            &&& c.frames == seq![client_request(client, 0x80, code)]
            &&& s.frames == seq![server_response(server, 0x80, code)]
            &&& c.event == Some(
                Outcome::Failed {
                    index: client.index,
                    sub: client.sub,
                    error: SdoTransferError::Timeout,
                },
            )
        }),
{
}

} // verus!
