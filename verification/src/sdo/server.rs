//! SDO server.
//!
//! Serves the node's [`ObjectDictionary`] on the default SDO channel
//! (requests on 0x600 + node id, responses on 0x580 + node id). Expedited
//! and segmented transfers are supported. Segmented data is staged in an
//! internal buffer of `BUF` bytes: uploads read the whole value once,
//! downloads accumulate and write once, so the object dictionary keeps its
//! simple exact-length interface.

use crate::bytes::{copy_at, le_bytes, u32_to_le};
use crate::cob;
use crate::cob::{cob_id, Function};
use crate::frame::{CanFrame, FrameView};
use crate::node_id::NodeId;
use crate::od::{ObjectDictionary, OdError};
use crate::sdo::abort::SdoAbortCode;
use crate::sdo::wire::{announced_size, expedited_cmd, expedited_len, initiate_data, is_expedited};
use crate::sdo::wire::{is_last, make_expedited_cmd, make_segment_cmd, make_toggled_cmd};
use crate::sdo::wire::{next_chunk, next_segment, object_frame, object_payload, payload_index};
use crate::sdo::wire::{payload_sub, read_announced_size, read_expedited_len, read_index};
use crate::sdo::wire::{segment_data, segment_frame, specifier, toggle_bit, toggled_cmd, ABORT};
use crate::{Micros, TxSink};
use vstd::prelude::*;
use vstd::slice::slice_subrange;

verus! {

/// Default server-side transfer timeout (1 s). Measured per client action,
/// not per transfer.
pub const DEFAULT_SDO_SERVER_TIMEOUT_US: u64 = 1_000_000;

/// Notification about a completed server-side transfer, so the node can
/// react to configuration writes (e.g. 0x1017 heartbeat time).
#[derive(Debug, Clone, Copy, PartialEq, Eq, Structural)]
pub enum SdoServerEvent {
    /// A client wrote `index:sub` successfully.
    ObjectWritten {
        /// Object index.
        index: u16,
        /// Object sub-index.
        sub: u8,
    },
}

/// What a server is in the middle of.
#[verifier::ext_equal]
pub enum ServerPhase {
    /// Nothing.
    Idle,
    /// Streaming the value `data` to the client, `offset` bytes being out.
    Upload { data: Seq<u8>, offset: nat, toggle: bool },
    /// Accumulating segments before the write.
    Download { indicated: Option<u32>, received: Seq<u8>, toggle: bool },
}

/// The state of a server.
#[verifier::ext_equal]
pub struct ServerState {
    pub node: u8,
    pub timeout_us: u64,
    pub since: Micros,
    pub index: u16,
    pub sub: u8,
    pub phase: ServerPhase,
}

/// A write that the dictionary accepted.
#[verifier::ext_equal]
pub struct AcceptedWrite {
    pub index: u16,
    pub sub: u8,
    pub data: Seq<u8>,
}

/// What holds of the state of every server: no more is out than there is to
/// send.
pub open spec fn valid_server(s: ServerState) -> bool {
    match s.phase {
        ServerPhase::Upload { data, offset, .. } => offset <= data.len(),
        _ => true,
    }
}

/// What a server does: its next state, what it sends and what it writes.
#[verifier::ext_equal]
pub struct ServerStep {
    pub next: ServerState,
    pub frames: Seq<FrameView>,
    pub written: Option<AcceptedWrite>,
}

/// The state `s` in another phase.
pub open spec fn server_in(s: ServerState, phase: ServerPhase) -> ServerState {
    ServerState { phase, ..s }
}

/// A server frame that addresses the current object.
pub open spec fn server_response(s: ServerState, cmd: u8, data: Seq<u8>) -> FrameView {
    FrameView {
        id: cob_id(Function::SdoTx, s.node),
        data: object_payload(cmd, s.index, s.sub, data),
    }
}

/// Nothing is sent or written.
pub open spec fn server_rests(s: ServerState) -> ServerStep {
    ServerStep { next: s, frames: Seq::empty(), written: None }
}

/// The server answers with `frame` and goes on in `phase`.
pub open spec fn server_answers(s: ServerState, phase: ServerPhase, frame: FrameView) -> ServerStep {
    ServerStep { next: server_in(s, phase), frames: seq![frame], written: None }
}

/// The server refuses: it drops the transfer and answers with an abort.
pub open spec fn server_aborts(s: ServerState, code: u32) -> ServerStep {
    server_answers(
        s,
        ServerPhase::Idle,
        server_response(s, ABORT, le_bytes(code as nat, 4)),
    )
}

/// The server hands `data` to the dictionary and acknowledges with `cmd` if
/// it is accepted.
pub open spec fn server_writes<OD: ObjectDictionary>(
    s: ServerState,
    od: OD,
    data: Seq<u8>,
    cmd: u8,
) -> ServerStep {
    match od.spec_write(s.index, s.sub, data) {
        Ok(_) => ServerStep {
            next: server_in(s, ServerPhase::Idle),
            frames: seq![server_response(s, cmd, Seq::empty())],
            written: Some(AcceptedWrite { index: s.index, sub: s.sub, data }),
        },
        Err(e) => server_aborts(s, e.spec_abort_code().0),
    }
}

/// A download request arrives at an idle server that was set to its object.
pub open spec fn server_download_initiate<OD: ObjectDictionary>(
    s: ServerState,
    room: nat,
    od: OD,
    data: Seq<u8>,
) -> ServerStep {
    let size = announced_size(data);
    if is_expedited(data[0]) {
        server_writes(s, od, initiate_data(data, expedited_len(data[0])), 0x60)
    } else {
        match od.spec_info(s.index, s.sub) {
            Err(e) => server_aborts(s, e.spec_abort_code().0),
            Ok(info) => if !info.sdo.spec_writable() {
                server_aborts(s, OdError::ReadOnly.spec_abort_code().0)
            } else if size is Some && size->0 > room {
                server_aborts(s, SdoAbortCode::OUT_OF_MEMORY)
            } else {
                server_answers(
                    s,
                    ServerPhase::Download { indicated: size, received: Seq::empty(), toggle: false },
                    server_response(s, 0x60, Seq::empty()),
                )
            },
        }
    }
}

/// A download segment arrives after the bytes `received`.
pub open spec fn server_download_segment<OD: ObjectDictionary>(
    s: ServerState,
    room: nat,
    od: OD,
    data: Seq<u8>,
    indicated: Option<u32>,
    received: Seq<u8>,
    toggle: bool,
) -> ServerStep {
    let all = received + segment_data(data);
    let ack = toggled_cmd(0x20, toggle);
    if toggle_bit(data[0]) != toggle {
        server_aborts(s, SdoAbortCode::TOGGLE_BIT)
    } else if all.len() > room {
        server_aborts(s, SdoAbortCode::OUT_OF_MEMORY)
    } else if is_last(data[0]) {
        if indicated is Some && indicated->0 > all.len() {
            server_aborts(s, SdoAbortCode::DATA_SHORT)
        } else if indicated is Some && indicated->0 < all.len() {
            server_aborts(s, SdoAbortCode::DATA_LONG)
        } else {
            server_writes(s, od, all, ack)
        }
    } else {
        server_answers(
            s,
            ServerPhase::Download { indicated, received: all, toggle: !toggle },
            server_response(s, ack, Seq::empty()),
        )
    }
}

/// How a download ends whose last segment has arrived: with an abort where
/// the `all` bytes received are not as many as were announced, else as the
/// dictionary decides.
pub open spec fn size_checked<OD: ObjectDictionary>(
    s: ServerState,
    od: OD,
    announced: u32,
    all: Seq<u8>,
    ack: u8,
) -> ServerStep {
    if all.len() < announced {
        server_aborts(s, SdoAbortCode::DATA_SHORT)
    } else if all.len() > announced {
        server_aborts(s, SdoAbortCode::DATA_LONG)
    } else {
        server_writes(s, od, all, ack)
    }
}

/// The answer that announces or holds the value `value`.
pub open spec fn upload_answer(s: ServerState, value: Seq<u8>) -> FrameView {
    if value.len() <= 4 {
        server_response(s, expedited_cmd(0x40, value.len()), value)
    } else {
        server_response(s, 0x41, le_bytes((value.len() as u32) as nat, 4))
    }
}

/// An upload request arrives at an idle server that was set to its object.
pub open spec fn server_upload_initiate<OD: ObjectDictionary>(
    s: ServerState,
    room: nat,
    od: OD,
) -> ServerStep {
    match od.spec_info(s.index, s.sub) {
        Err(e) => server_aborts(s, e.spec_abort_code().0),
        Ok(_) => match od.spec_value(s.index, s.sub) {
            Err(OdError::BufferTooSmall) => server_aborts(s, SdoAbortCode::OUT_OF_MEMORY),
            Err(e) => server_aborts(s, e.spec_abort_code().0),
            Ok(value) => if value.len() > room {
                server_aborts(s, SdoAbortCode::OUT_OF_MEMORY)
            } else if value.len() == 0 {
                server_aborts(s, SdoAbortCode::NO_DATA)
            } else if value.len() <= 4 {
                server_answers(s, ServerPhase::Idle, upload_answer(s, value))
            } else {
                server_answers(
                    s,
                    ServerPhase::Upload { data: value, offset: 0, toggle: false },
                    upload_answer(s, value),
                )
            },
        },
    }
}

/// The client asks for the segment after `offset` bytes of `value`.
pub open spec fn server_upload_segment(
    s: ServerState,
    data: Seq<u8>,
    value: Seq<u8>,
    offset: nat,
    toggle: bool,
) -> ServerStep {
    let end = offset + next_chunk(value, offset).len();
    if toggle_bit(data[0]) != toggle {
        server_aborts(s, SdoAbortCode::TOGGLE_BIT)
    } else {
        server_answers(
            s,
            if end == value.len() {
                ServerPhase::Idle
            } else {
                ServerPhase::Upload { data: value, offset: end, toggle: !toggle }
            },
            FrameView {
                id: cob_id(Function::SdoTx, s.node),
                data: next_segment(value, offset, toggle),
            },
        )
    }
}

/// Whether a server with the state `s` pays attention to `frame`.
pub open spec fn server_listens(s: ServerState, frame: FrameView) -> bool {
    frame.id == cob_id(Function::SdoRx, s.node) && frame.data.len() == 8
}

/// The state `s`, idle and set to the object that the payload `data` names.
pub open spec fn server_set_to(s: ServerState, data: Seq<u8>) -> ServerState {
    ServerState {
        index: payload_index(data),
        sub: payload_sub(data),
        phase: ServerPhase::Idle,
        ..s
    }
}

/// What a server with a buffer of `room` bytes does on reception of `frame`.
pub open spec fn server_receives<OD: ObjectDictionary>(
    s: ServerState,
    room: nat,
    od: OD,
    frame: FrameView,
    now: Micros,
) -> ServerStep {
    let r = ServerState { since: now, ..s };
    if !server_listens(s, frame) {
        server_rests(s)
    } else if specifier(frame.data[0]) == 0 {
        match s.phase {
            ServerPhase::Download { indicated, received, toggle } => server_download_segment(
                r,
                room,
                od,
                frame.data,
                indicated,
                received,
                toggle,
            ),
            _ => server_aborts(r, SdoAbortCode::CMD_SPECIFIER),
        }
    } else if specifier(frame.data[0]) == 1 {
        server_download_initiate(server_set_to(r, frame.data), room, od, frame.data)
    } else if specifier(frame.data[0]) == 2 {
        server_upload_initiate(server_set_to(r, frame.data), room, od)
    } else if specifier(frame.data[0]) == 3 {
        match s.phase {
            ServerPhase::Upload { data, offset, toggle } => server_upload_segment(
                r,
                frame.data,
                data,
                offset,
                toggle,
            ),
            _ => server_aborts(r, SdoAbortCode::CMD_SPECIFIER),
        }
    } else if specifier(frame.data[0]) == 4 {
        server_rests(server_in(r, ServerPhase::Idle))
    } else {
        server_aborts(server_set_to(r, frame.data), SdoAbortCode::CMD_SPECIFIER)
    }
}

/// What a server does when it is polled at `now`.
pub open spec fn server_polled(s: ServerState, now: Micros) -> ServerStep {
    if s.phase !is Idle && (now - s.since >= s.timeout_us || s.timeout_us == 0) {
        server_aborts(s, SdoAbortCode::TIMEOUT)
    } else {
        server_rests(s)
    }
}

/// Whether `step` takes a server to `next` and a sink from `before` to
/// `after`.
pub open spec fn server_did(
    step: ServerStep,
    next: ServerState,
    before: Seq<FrameView>,
    after: Seq<FrameView>,
) -> bool {
    next =~= step.next && after =~= before + step.frames
}

/// The notification for an accepted write.
pub open spec fn event_of_write(written: Option<AcceptedWrite>) -> Option<SdoServerEvent> {
    match written {
        Some(w) => Some(SdoServerEvent::ObjectWritten { index: w.index, sub: w.sub }),
        None => None,
    }
}

/// Whether the accepted write `written`, if any, can take the dictionary
/// `pre` to `post`.
pub open spec fn od_follows<OD: ObjectDictionary>(
    written: Option<AcceptedWrite>,
    pre: OD,
    post: OD,
) -> bool {
    match written {
        Some(w) => pre.spec_written(w.index, w.sub, w.data, &post),
        None => post == pre,
    }
}

#[derive(Debug, Clone, Copy, PartialEq, Eq, Structural)]
enum State {
    Idle,
    /// Streaming a value from the buffer to the client.
    UploadSegments { len: usize, offset: usize, toggle: bool },
    /// Accumulating segments into the buffer before the OD write.
    DownloadSegments { indicated: Option<u32>, received: usize, toggle: bool },
}

/// The SDO server of one local node.
#[derive(Debug)]
pub struct SdoServer<const BUF: usize> {
    node_id: NodeId,
    timeout_us: u64,
    state: State,
    index: u16,
    sub: u8,
    since: Micros,
    buf: [u8; BUF],
}

impl<const BUF: usize> View for SdoServer<BUF> {
    type V = ServerState;

    closed spec fn view(&self) -> ServerState {
        ServerState {
            node: self.node_id.spec_raw(),
            timeout_us: self.timeout_us,
            since: self.since,
            index: self.index,
            sub: self.sub,
            phase: match self.state {
                State::Idle => ServerPhase::Idle,
                State::UploadSegments { len, offset, toggle } => ServerPhase::Upload {
                    data: self.buf@.take(len as int),
                    offset: offset as nat,
                    toggle,
                },
                State::DownloadSegments { indicated, received, toggle } => ServerPhase::Download {
                    indicated,
                    received: self.buf@.take(received as int),
                    toggle,
                },
            },
        }
    }
}

impl<const BUF: usize> SdoServer<BUF> {
    /// What is staged fits the buffer.
    pub closed spec fn wf(&self) -> bool {
        match self.state {
            State::Idle => true,
            State::UploadSegments { len, offset, .. } => offset <= len <= BUF,
            State::DownloadSegments { received, .. } => received <= BUF,
        }
    }

    /// What the state of a well-formed server is known to be.
    pub proof fn lemma_wf(&self)
        requires
            self.wf(),
        ensures
            valid_server(self@),
    {
    }

    /// Create the server for the node's default SDO channel.
    pub fn new(node_id: NodeId) -> (server: Self)
        ensures
            server.wf(),
            server@ == (ServerState {
                node: node_id.spec_raw(),
                timeout_us: DEFAULT_SDO_SERVER_TIMEOUT_US,
                since: 0,
                index: 0,
                sub: 0,
                phase: ServerPhase::Idle,
            }),
    {
        Self {
            node_id,
            timeout_us: DEFAULT_SDO_SERVER_TIMEOUT_US,
            state: State::Idle,
            index: 0,
            sub: 0,
            since: 0,
            buf: [0; BUF],
        }
    }

    /// Change the transfer timeout.
    pub fn set_timeout_us(&mut self, timeout_us: u64)
        requires
            old(self).wf(),
        ensures
            final(self).wf(),
            final(self)@ == (ServerState { timeout_us, ..old(self)@ }),
    {
        self.timeout_us = timeout_us;
    }

    /// COB-ID this server listens on (client requests), for RX filters.
    pub fn request_cob_id(&self) -> (id: u16)
        ensures
            id == cob_id(Function::SdoRx, self@.node),
    {
        cob::sdo_rx(self.node_id)
    }

    /// Feed a received frame to the server. Frames not addressed to this
    /// server's request COB-ID are ignored. Responses (including aborts and
    /// segment acknowledgements) are emitted via `tx`.
    pub fn on_frame<OD: ObjectDictionary, T: TxSink>(
        &mut self,
        frame: &CanFrame,
        now: Micros,
        od: &mut OD,
        tx: &mut T,
    ) -> (event: Option<SdoServerEvent>)
        requires
            old(self).wf(),
        ensures
            final(self).wf(),
            ({
                let step = server_receives(old(self)@, BUF as nat, *old(od), frame@, now);
                &&& server_did(step, final(self)@, old(tx).sent(), final(tx).sent())
                &&& event == event_of_write(step.written)
                &&& od_follows(step.written, *old(od), *final(od))
            }),
    {
        if frame.id() != self.request_cob_id() || frame.dlc() != 8 {
            return None;
        }
        let data: &[u8] = frame.data();
        self.since = now;
        match data[0] / 32 {
            // Download segment (only valid during a segmented download).
            0 => self.download_segment(data, od, tx),
            // Download initiate: implicitly cancels any stale transfer.
            1 => {
                self.state = State::Idle;
                self.set_object(data);
                self.download_initiate(data, od, tx)
            },
            // Upload initiate.
            2 => {
                self.state = State::Idle;
                self.set_object(data);
                self.upload_initiate(od, tx);
                None
            },
            // Upload segment request.
            3 => {
                self.upload_segment(data, tx);
                None
            },
            // Abort from the client: drop any transfer in progress.
            4 => {
                self.state = State::Idle;
                None
            },
            _ => {
                self.set_object(data);
                self.abort(SdoAbortCode::CMD_SPECIFIER, tx);
                None
            },
        }
    }

    fn download_initiate<OD: ObjectDictionary, T: TxSink>(
        &mut self,
        data: &[u8],
        od: &mut OD,
        tx: &mut T,
    ) -> (event: Option<SdoServerEvent>)
        requires
            old(self).state == State::Idle,
            data@.len() == 8,
        ensures
            final(self).wf(),
            ({
                let step = server_download_initiate(old(self)@, BUF as nat, *old(od), data@);
                &&& server_did(step, final(self)@, old(tx).sent(), final(tx).sent())
                &&& event == event_of_write(step.written)
                &&& od_follows(step.written, *old(od), *final(od))
            }),
    {
        if data[0] / 2 % 2 == 1 {
            // Without size indication all four bytes are passed through; the
            // OD's exact-length check rejects mismatches.
            let len: usize = read_expedited_len(data[0]);
            let value = slice_subrange(data, 4, 4 + len);
            return match od.write(self.index, self.sub, value) {
                Ok(()) => {
                    self.respond(0x60, &[], tx);
                    Some(SdoServerEvent::ObjectWritten { index: self.index, sub: self.sub })
                },
                Err(e) => {
                    self.abort(e.abort_code().0, tx);
                    None
                },
            };
        }
        // Segmented download. Check access and capacity up front so the
        // client fails fast instead of after transferring everything.

        match od.info(self.index, self.sub) {
            Ok(info) => {
                if !info.sdo.writable() {
                    self.abort(OdError::ReadOnly.abort_code().0, tx);
                    return None;
                }
            },
            Err(e) => {
                self.abort(e.abort_code().0, tx);
                return None;
            },
        }
        let indicated = read_announced_size(data);
        if let Some(size) = indicated {
            if size as usize > BUF {
                self.abort(SdoAbortCode::OUT_OF_MEMORY, tx);
                return None;
            }
        }
        self.state = State::DownloadSegments { indicated, received: 0, toggle: false };
        self.respond(0x60, &[], tx);
        None
    }

    fn download_segment<OD: ObjectDictionary, T: TxSink>(
        &mut self,
        data: &[u8],
        od: &mut OD,
        tx: &mut T,
    ) -> (event: Option<SdoServerEvent>)
        requires
            old(self).wf(),
            data@.len() == 8,
        ensures
            final(self).wf(),
            ({
                let step = match old(self)@.phase {
                    ServerPhase::Download { indicated, received, toggle } =>
                        server_download_segment(
                        old(self)@,
                        BUF as nat,
                        *old(od),
                        data@,
                        indicated,
                        received,
                        toggle,
                    ),
                    _ => server_aborts(old(self)@, SdoAbortCode::CMD_SPECIFIER),
                };
                &&& server_did(step, final(self)@, old(tx).sent(), final(tx).sent())
                &&& event == event_of_write(step.written)
                &&& od_follows(step.written, *old(od), *final(od))
            }),
            match old(self)@.phase {
                ServerPhase::Download { indicated: Some(announced), received, toggle } => {
                    let all = received + segment_data(data@);
                    toggle_bit(data@[0]) == toggle && is_last(data@[0]) && all.len() <= BUF ==> {
                        let step = size_checked(
                            old(self)@,
                            *old(od),
                            announced,
                            all,
                            toggled_cmd(0x20, toggle),
                        );
                        &&& server_did(step, final(self)@, old(tx).sent(), final(tx).sent())
                        &&& event == event_of_write(step.written)
                        &&& od_follows(step.written, *old(od), *final(od))
                        &&& final(self)@.phase is Idle
                        &&& all.len() != announced ==> event is None && *final(od) == *old(od)
                    }
                },
                _ => true,
            },
    {
        if let State::DownloadSegments { indicated, received, toggle } = self.state {
            if (data[0] / 16 % 2 == 1) != toggle {
                self.abort(SdoAbortCode::TOGGLE_BIT, tx);
                return None;
            }
            let chunk: usize = (7 - data[0] / 2 % 8) as usize;
            let last = data[0] % 2 == 1;
            if chunk > BUF - received {
                self.abort(SdoAbortCode::OUT_OF_MEMORY, tx);
                return None;
            }
            copy_at(&mut self.buf, received, slice_subrange(data, 1, 1 + chunk));
            assert(self.buf@.take(received + chunk) =~= old(self).buf@.take(received as int)
                + segment_data(data@));
            let received: usize = received + chunk;
            if last {
                if let Some(size) = indicated {
                    if size as usize > received {
                        self.abort(SdoAbortCode::DATA_SHORT, tx);
                        return None;
                    }
                    if (size as usize) < received {
                        self.abort(SdoAbortCode::DATA_LONG, tx);
                        return None;
                    }
                }
                assert(self.buf@.subrange(0, received as int) =~= self.buf@.take(received as int));
                return match od.write(self.index, self.sub, slice_subrange(&self.buf, 0, received)) {
                    Ok(()) => {
                        self.state = State::Idle;
                        self.respond(make_toggled_cmd(0x20, toggle), &[], tx);
                        Some(SdoServerEvent::ObjectWritten { index: self.index, sub: self.sub })
                    },
                    Err(e) => {
                        self.abort(e.abort_code().0, tx);
                        None
                    },
                };
            }
            self.state = State::DownloadSegments { indicated, received, toggle: !toggle };
            self.respond(make_toggled_cmd(0x20, toggle), &[], tx);
            None
        } else {
            self.abort(SdoAbortCode::CMD_SPECIFIER, tx);
            None
        }
    }

    fn upload_initiate<OD: ObjectDictionary, T: TxSink>(&mut self, od: &OD, tx: &mut T)
        requires
            old(self).state == State::Idle,
        ensures
            final(self).wf(),
            server_did(
                server_upload_initiate(old(self)@, BUF as nat, *od),
                final(self)@,
                old(tx).sent(),
                final(tx).sent(),
            ),
    {
        if let Err(e) = od.info(self.index, self.sub) {
            return self.abort(e.abort_code().0, tx);
        }
        let len: usize = match od.read(self.index, self.sub, &mut self.buf) {
            Ok(len) => len,
            Err(e) => {
                if e == OdError::BufferTooSmall {
                    return self.abort(SdoAbortCode::OUT_OF_MEMORY, tx);
                }
                return self.abort(e.abort_code().0, tx);
            },
        };
        assert(self.buf@.take(len as int) =~= od.spec_value(self.index, self.sub)->Ok_0);
        if len == 0 {
            self.abort(SdoAbortCode::NO_DATA, tx);
        } else if len <= 4 {
            // Expedited response: scs=2, e=1, s=1, n = unused bytes.
            self.respond_staged(make_expedited_cmd(0x40, len), len, tx);
        } else {
            // Segmented response: scs=2, e=0, s=1, size announced.
            self.state = State::UploadSegments { len, offset: 0, toggle: false };
            let size = u32_to_le(len as u32);
            self.respond(0x41, &size, tx);
        }
    }

    fn upload_segment<T: TxSink>(&mut self, data: &[u8], tx: &mut T)
        requires
            old(self).wf(),
            data@.len() == 8,
        ensures
            final(self).wf(),
            server_did(
                match old(self)@.phase {
                    ServerPhase::Upload { data: value, offset, toggle } => server_upload_segment(
                        old(self)@,
                        data@,
                        value,
                        offset,
                        toggle,
                    ),
                    _ => server_aborts(old(self)@, SdoAbortCode::CMD_SPECIFIER),
                },
                final(self)@,
                old(tx).sent(),
                final(tx).sent(),
            ),
    {
        if let State::UploadSegments { len, offset, toggle } = self.state {
            if (data[0] / 16 % 2 == 1) != toggle {
                return self.abort(SdoAbortCode::TOGGLE_BIT, tx);
            }
            let left: usize = len - offset;
            let chunk: usize = if left < 7 {
                left
            } else {
                7
            };
            let last = offset + chunk == len;
            // Segment response: scs=0, toggle, n = unused bytes, c = last.
            let cmd: u8 = make_segment_cmd(toggle, chunk, last);
            let bytes = slice_subrange(&self.buf, offset, offset + chunk);
            assert(bytes@ =~= next_chunk(self.buf@.take(len as int), offset as nat));
            tx.send(segment_frame(cob::sdo_tx(self.node_id), cmd, bytes));
            self.state = if last {
                State::Idle
            } else {
                State::UploadSegments { len, offset: offset + chunk, toggle: !toggle }
            };
        } else {
            self.abort(SdoAbortCode::CMD_SPECIFIER, tx);
        }
    }

    /// Check for a client timeout during a segmented transfer. On timeout an
    /// abort is transmitted and the transfer dropped.
    pub fn poll<T: TxSink>(&mut self, now: Micros, tx: &mut T)
        requires
            old(self).wf(),
        ensures
            final(self).wf(),
            server_did(
                server_polled(old(self)@, now),
                final(self)@,
                old(tx).sent(),
                final(tx).sent(),
            ),
    {
        if self.state == State::Idle {
            return;
        }
        if now.saturating_sub(self.since) >= self.timeout_us {
            self.abort(SdoAbortCode::TIMEOUT, tx);
        }
    }

    /// The next deadline at which [`poll`](Self::poll) should run, if a
    /// segmented transfer is in progress.
    pub fn next_deadline(&self) -> (deadline: Option<Micros>)
        requires
            self@.phase !is Idle ==> self@.since + self@.timeout_us <= u64::MAX,
        ensures
            deadline is Some <==> self@.phase !is Idle,
            deadline is Some ==> deadline->0 == self@.since + self@.timeout_us,
    {
        if self.state != State::Idle {
            Some(self.since + self.timeout_us)
        } else {
            None
        }
    }

    fn set_object(&mut self, data: &[u8])
        requires
            data@.len() == 8,
        ensures
            *final(self) == (Self {
                index: payload_index(data@),
                sub: payload_sub(data@),
                ..*old(self)
            }),
    {
        self.index = read_index(data);
        self.sub = data[3];
    }

    fn abort<T: TxSink>(&mut self, code: u32, tx: &mut T)
        ensures
            final(self).wf(),
            server_did(
                server_aborts(old(self)@, code),
                final(self)@,
                old(tx).sent(),
                final(tx).sent(),
            ),
    {
        self.state = State::Idle;
        let code_bytes = u32_to_le(code);
        self.respond(ABORT, &code_bytes, tx);
    }

    /// Server response frame addressing the current object:
    /// `[cmd, index lo, index hi, sub, d0..d3]`.
    fn respond<T: TxSink>(&self, cmd: u8, data: &[u8], tx: &mut T)
        requires
            data@.len() <= 4,
        ensures
            final(tx).sent() == old(tx).sent().push(server_response(self@, cmd, data@)),
    {
        tx.send(object_frame(cob::sdo_tx(self.node_id), cmd, self.index, self.sub, data));
    }

    /// Server response frame with the first `len` bytes of the buffer as data.
    fn respond_staged<T: TxSink>(&self, cmd: u8, len: usize, tx: &mut T)
        requires
            len <= 4,
            len <= BUF,
        ensures
            final(tx).sent() == old(tx).sent().push(
                server_response(self@, cmd, self.buf@.take(len as int)),
            ),
    {
        let value = slice_subrange(&self.buf, 0, len);
        assert(value@ =~= self.buf@.take(len as int));
        self.respond(cmd, value, tx);
    }
}

} // verus!
