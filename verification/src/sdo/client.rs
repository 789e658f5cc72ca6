//! SDO client.
//!
//! Sans-IO: requests return the frame to transmit, responses are pushed in
//! via [`SdoClient::on_frame`], timeouts are detected in [`SdoClient::poll`].
//!
//! Supports expedited and segmented transfers. Segmented data is staged in an
//! internal buffer of `BUF` bytes; transfers exceeding it fail cleanly.

use crate::bytes::{copy_at, le_bytes, u32_to_le, zeros};
use crate::cob;
use crate::cob::{cob_id, Function};
use crate::frame::{CanFrame, FrameView};
use crate::node_id::NodeId;
use crate::sdo::abort::SdoAbortCode;
use crate::sdo::wire::{announced_size, expedited_cmd, expedited_len, initiate_data, is_expedited};
use crate::sdo::wire::{is_last, make_expedited_cmd, make_segment_cmd, make_toggled_cmd};
use crate::sdo::wire::{next_chunk, next_segment, object_frame, object_payload, payload_index};
use crate::sdo::wire::{payload_number, payload_sub, read_announced_size, read_expedited_len};
use crate::sdo::wire::{read_index, read_number, segment_data, segment_frame, specifier};
use crate::sdo::wire::{toggle_bit, toggled_cmd, ABORT};
use crate::{Micros, TxSink};
use vstd::prelude::*;
use vstd::slice::slice_subrange;

verus! {

/// Default SDO response timeout (500 ms). The timeout is per response, not
/// per transfer.
pub const DEFAULT_SDO_TIMEOUT_US: u64 = 500_000;

/// Errors when initiating a transfer.
#[derive(Debug, Clone, Copy, PartialEq, Eq, Structural)]
pub enum SdoClientError {
    /// A transfer is already in progress on this client.
    Busy,
    /// Download data must be at least 1 byte and fit the client buffer.
    InvalidDataLength,
}

/// Why a running transfer failed.
#[derive(Debug, Clone, Copy, PartialEq, Eq, Structural)]
pub enum SdoTransferError {
    /// The server aborted the transfer.
    Abort(SdoAbortCode),
    /// No response within the configured timeout (an abort was sent).
    Timeout,
    /// The uploaded value does not fit the client buffer (an abort was sent).
    BufferTooSmall,
    /// The response was malformed or did not match the request.
    Protocol,
}

/// Completion event of an SDO transfer. `UploadOk` borrows the client's
/// internal buffer: consume (or copy) the data before starting the next
/// transfer.
#[derive(Debug, Clone, Copy, PartialEq, Eq)]
pub enum SdoEvent<'a> {
    /// Upload (read) finished; `data` is the value in little-endian byte
    /// order as defined by CiA 301.
    UploadOk {
        /// Object index.
        index: u16,
        /// Object sub-index.
        sub: u8,
        /// Value bytes (little-endian).
        data: &'a [u8],
    },
    /// Download (write) finished.
    DownloadOk {
        /// Object index.
        index: u16,
        /// Object sub-index.
        sub: u8,
    },
    /// The transfer failed.
    Failed {
        /// Object index.
        index: u16,
        /// Object sub-index.
        sub: u8,
        /// Failure reason.
        error: SdoTransferError,
    },
}

/// What a completion event says.
#[verifier::ext_equal]
pub enum Outcome {
    UploadOk { index: u16, sub: u8, data: Seq<u8> },
    DownloadOk { index: u16, sub: u8 },
    Failed { index: u16, sub: u8, error: SdoTransferError },
}

/// What an event says.
pub open spec fn outcome_of(event: SdoEvent<'_>) -> Outcome {
    match event {
        SdoEvent::UploadOk { index, sub, data } => Outcome::UploadOk { index, sub, data: data@ },
        SdoEvent::DownloadOk { index, sub } => Outcome::DownloadOk { index, sub },
        SdoEvent::Failed { index, sub, error } => Outcome::Failed { index, sub, error },
    }
}

/// What an optional event says.
pub open spec fn outcome(event: Option<SdoEvent<'_>>) -> Option<Outcome> {
    match event {
        Some(event) => Some(outcome_of(event)),
        None => None,
    }
}

/// What a client waits for.
#[verifier::ext_equal]
pub enum ClientPhase {
    /// Nothing: no transfer is in progress.
    Idle,
    /// The answer to an upload request.
    UploadInitiate,
    /// The next segment of an upload.
    UploadSegment { toggle: bool, received: Seq<u8>, indicated: Option<u32> },
    /// The answer to a download request.
    DownloadInitiate { data: Seq<u8> },
    /// The acknowledgement of a segment; the first `sent` bytes are out.
    DownloadSegment { toggle: bool, data: Seq<u8>, sent: nat },
}

/// The state of a client.
#[verifier::ext_equal]
pub struct ClientState {
    pub server: u8,
    pub timeout_us: u64,
    pub since: Micros,
    pub index: u16,
    pub sub: u8,
    pub phase: ClientPhase,
}

/// What a client does: its next state, what it sends and what it reports.
#[verifier::ext_equal]
pub struct ClientStep {
    pub next: ClientState,
    pub frames: Seq<FrameView>,
    pub event: Option<Outcome>,
}

/// The state `c` in another phase.
pub open spec fn client_in(c: ClientState, phase: ClientPhase) -> ClientState {
    ClientState { phase, ..c }
}

/// A client frame that addresses the current object.
pub open spec fn client_request(c: ClientState, cmd: u8, data: Seq<u8>) -> FrameView {
    FrameView {
        id: cob_id(Function::SdoRx, c.server),
        data: object_payload(cmd, c.index, c.sub, data),
    }
}

/// The frame that carries the download segment after `sent` bytes.
pub open spec fn client_segment(c: ClientState, data: Seq<u8>, sent: nat, toggle: bool) -> FrameView {
    FrameView { id: cob_id(Function::SdoRx, c.server), data: next_segment(data, sent, toggle) }
}

/// Nothing happens.
pub open spec fn client_rests(c: ClientState) -> ClientStep {
    ClientStep { next: c, frames: Seq::empty(), event: None }
}

/// The transfer goes on in `phase` and `frame` is sent.
pub open spec fn client_continues(c: ClientState, phase: ClientPhase, frame: FrameView) -> ClientStep {
    ClientStep { next: client_in(c, phase), frames: seq![frame], event: None }
}

/// The transfer ends well.
pub open spec fn client_finishes(c: ClientState, event: Outcome) -> ClientStep {
    ClientStep {
        next: client_in(c, ClientPhase::Idle),
        frames: Seq::empty(),
        event: Some(event),
    }
}

/// The client gives the transfer up: it sends an abort and reports `error`.
pub open spec fn client_fails(c: ClientState, code: u32, error: SdoTransferError) -> ClientStep {
    ClientStep {
        next: client_in(c, ClientPhase::Idle),
        frames: seq![client_request(c, ABORT, le_bytes(code as nat, 4))],
        event: Some(Outcome::Failed { index: c.index, sub: c.sub, error }),
    }
}

/// Whether a response names the object of the request.
pub open spec fn names_object(c: ClientState, data: Seq<u8>) -> bool {
    payload_index(data) == c.index && payload_sub(data) == c.sub
}

/// The answer to an upload request arrives.
pub open spec fn upload_initiate_step(c: ClientState, room: nat, data: Seq<u8>) -> ClientStep {
    let size = announced_size(data);
    if specifier(data[0]) != 2 || !names_object(c, data) {
        client_fails(c, SdoAbortCode::CMD_SPECIFIER, SdoTransferError::Protocol)
    } else if is_expedited(data[0]) {
        if expedited_len(data[0]) > room {
            client_fails(c, SdoAbortCode::OUT_OF_MEMORY, SdoTransferError::BufferTooSmall)
        } else {
            client_finishes(
                c,
                Outcome::UploadOk {
                    index: c.index,
                    sub: c.sub,
                    data: initiate_data(data, expedited_len(data[0])),
                },
            )
        }
    } else if size is Some && size->0 > room {
        client_fails(c, SdoAbortCode::OUT_OF_MEMORY, SdoTransferError::BufferTooSmall)
    } else {
        client_continues(
            c,
            ClientPhase::UploadSegment { toggle: false, received: Seq::empty(), indicated: size },
            client_request(c, 0x60, Seq::empty()),
        )
    }
}

/// A segment of an upload arrives after the bytes `received`.
pub open spec fn upload_segment_step(
    c: ClientState,
    room: nat,
    data: Seq<u8>,
    toggle: bool,
    received: Seq<u8>,
    indicated: Option<u32>,
) -> ClientStep {
    let all = received + segment_data(data);
    if specifier(data[0]) != 0 {
        client_fails(c, SdoAbortCode::CMD_SPECIFIER, SdoTransferError::Protocol)
    } else if toggle_bit(data[0]) != toggle {
        client_fails(c, SdoAbortCode::TOGGLE_BIT, SdoTransferError::Protocol)
    } else if all.len() > room {
        client_fails(c, SdoAbortCode::OUT_OF_MEMORY, SdoTransferError::BufferTooSmall)
    } else if is_last(data[0]) {
        if indicated is Some && indicated->0 != all.len() {
            client_fails(c, SdoAbortCode::TYPE_MISMATCH, SdoTransferError::Protocol)
        } else {
            client_finishes(c, Outcome::UploadOk { index: c.index, sub: c.sub, data: all })
        }
    } else {
        client_continues(
            c,
            ClientPhase::UploadSegment { toggle: !toggle, received: all, indicated },
            client_request(c, toggled_cmd(0x60, !toggle), Seq::empty()),
        )
    }
}

/// The next download segment goes out after `sent` bytes.
pub open spec fn send_segment_step(c: ClientState, value: Seq<u8>, sent: nat, toggle: bool) -> ClientStep {
    client_continues(
        c,
        ClientPhase::DownloadSegment {
            toggle,
            data: value,
            sent: sent + next_chunk(value, sent).len(),
        },
        client_segment(c, value, sent, toggle),
    )
}

/// The answer to the download request of `value` arrives.
pub open spec fn download_initiate_step(c: ClientState, data: Seq<u8>, value: Seq<u8>) -> ClientStep {
    if specifier(data[0]) != 3 || !names_object(c, data) {
        client_fails(c, SdoAbortCode::CMD_SPECIFIER, SdoTransferError::Protocol)
    } else if value.len() <= 4 {
        client_finishes(c, Outcome::DownloadOk { index: c.index, sub: c.sub })
    } else {
        send_segment_step(c, value, 0, false)
    }
}

/// A download segment of `value` is acknowledged, `sent` bytes being out.
pub open spec fn download_segment_step(
    c: ClientState,
    data: Seq<u8>,
    toggle: bool,
    value: Seq<u8>,
    sent: nat,
) -> ClientStep {
    if specifier(data[0]) != 1 {
        client_fails(c, SdoAbortCode::CMD_SPECIFIER, SdoTransferError::Protocol)
    } else if toggle_bit(data[0]) != toggle {
        client_fails(c, SdoAbortCode::TOGGLE_BIT, SdoTransferError::Protocol)
    } else if sent >= value.len() {
        client_finishes(c, Outcome::DownloadOk { index: c.index, sub: c.sub })
    } else {
        send_segment_step(c, value, sent, !toggle)
    }
}

/// What a client waits for when it has sent the segments up to and with the
/// one numbered `k` of a download of `value`.
pub open spec fn download_phase(value: Seq<u8>, k: nat) -> ClientPhase {
    ClientPhase::DownloadSegment {
        toggle: k % 2 == 1,
        data: value,
        sent: sent_with(value, k),
    }
}

/// The frame that carries the segment numbered `k` of a download of `value`.
pub open spec fn download_frame(server: u8, value: Seq<u8>, k: nat) -> FrameView {
    let left = value.len() - 7 * k;
    let len = if left < 7 {
        left
    } else {
        7
    };
    let cmd = 16 * (k % 2) + 2 * (7 - len) + if 7 * k + len == value.len() {
        1int
    } else {
        0int
    };
    FrameView {
        id: cob_id(Function::SdoRx, server),
        data: seq![cmd as u8] + value.subrange(7 * k as int, 7 * k + len) + zeros(
            (7 - len) as nat,
        ),
    }
}

/// What the acknowledgement of the segment numbered `k` of a download leads
/// to.
pub open spec fn acknowledged_step(c: ClientState, value: Seq<u8>, k: nat) -> ClientStep {
    if 7 * (k + 1) >= value.len() {
        client_finishes(c, Outcome::DownloadOk { index: c.index, sub: c.sub })
    } else {
        client_continues(
            c,
            download_phase(value, k + 1),
            download_frame(c.server, value, k + 1),
        )
    }
}

/// How many bytes are out with the segment numbered `k` of a download.
pub open spec fn sent_with(value: Seq<u8>, k: nat) -> nat {
    if 7 * (k + 1) <= value.len() {
        7 * (k + 1)
    } else {
        value.len()
    }
}

/// The acknowledgement of the segment numbered `k`, spelled out.
pub proof fn lemma_segment_acknowledged(c: ClientState, data: Seq<u8>, value: Seq<u8>, k: nat)
    requires
        7 * k < value.len(),
        specifier(data[0]) == 1,
        toggle_bit(data[0]) == (k % 2 == 1),
    ensures
        download_segment_step(c, data, k % 2 == 1, value, sent_with(value, k))
            == acknowledged_step(c, value, k),
{
    let step = download_segment_step(c, data, k % 2 == 1, value, sent_with(value, k));
    if 7 * (k + 1) < value.len() {
        assert((k + 1) % 2 == 1 <==> k % 2 != 1);
        assert(step.frames[0].data =~= download_frame(c.server, value, k + 1).data);
        assert(step.frames =~= seq![download_frame(c.server, value, k + 1)]);
    }
}

/// Whether a client with the state `c` pays attention to `frame`.
pub open spec fn client_listens(c: ClientState, frame: FrameView) -> bool {
    frame.id == cob_id(Function::SdoTx, c.server) && frame.data.len() == 8 && c.phase !is Idle
}

/// What a client with a buffer of `room` bytes does on reception of `frame`.
pub open spec fn client_receives(c: ClientState, room: nat, frame: FrameView, now: Micros) -> ClientStep {
    let refreshed = ClientState { since: now, ..c };
    if !client_listens(c, frame) {
        client_rests(c)
    } else if frame.data[0] == ABORT {
        client_finishes(
            refreshed,
            Outcome::Failed {
                index: c.index,
                sub: c.sub,
                error: SdoTransferError::Abort(SdoAbortCode(payload_number(frame.data))),
            },
        )
    } else {
        match c.phase {
            ClientPhase::Idle => client_rests(c),
            ClientPhase::UploadInitiate => upload_initiate_step(refreshed, room, frame.data),
            ClientPhase::UploadSegment { toggle, received, indicated } => upload_segment_step(
                refreshed,
                room,
                frame.data,
                toggle,
                received,
                indicated,
            ),
            ClientPhase::DownloadInitiate { data } => download_initiate_step(
                refreshed,
                frame.data,
                data,
            ),
            ClientPhase::DownloadSegment { toggle, data, sent } => download_segment_step(
                refreshed,
                frame.data,
                toggle,
                data,
                sent,
            ),
        }
    }
}

/// What a client does when it is polled at `now`.
pub open spec fn client_polled(c: ClientState, now: Micros) -> ClientStep {
    if c.phase !is Idle && (now - c.since >= c.timeout_us || c.timeout_us == 0) {
        client_fails(c, SdoAbortCode::TIMEOUT, SdoTransferError::Timeout)
    } else {
        client_rests(c)
    }
}

/// Whether `step` takes a client to `next` and a sink from `before` to
/// `after`, and reports `event`.
pub open spec fn client_did(
    step: ClientStep,
    next: ClientState,
    before: Seq<FrameView>,
    after: Seq<FrameView>,
    event: Option<Outcome>,
) -> bool {
    next =~= step.next && after =~= before + step.frames && event =~~= step.event
}

#[derive(Debug, Clone, Copy, PartialEq, Eq, Structural)]
enum State {
    Idle,
    AwaitUploadInitiate,
    AwaitUploadSegment { toggle: bool, received: usize, indicated: Option<u32> },
    AwaitDownloadInitiate { len: usize },
    AwaitDownloadSegment { toggle: bool, len: usize, sent: usize },
}

/// An SDO client talking to one server node via the default SDO channel
/// (requests on 0x600 + server id, responses on 0x580 + server id).
///
/// One client handles one transfer at a time; use one `SdoClient` per server
/// node for concurrent parameterization.
#[derive(Debug)]
pub struct SdoClient<const BUF: usize> {
    server: NodeId,
    timeout_us: u64,
    state: State,
    index: u16,
    sub: u8,
    since: Micros,
    buf: [u8; BUF],
}

impl<const BUF: usize> View for SdoClient<BUF> {
    type V = ClientState;

    closed spec fn view(&self) -> ClientState {
        ClientState {
            server: self.server.spec_raw(),
            timeout_us: self.timeout_us,
            since: self.since,
            index: self.index,
            sub: self.sub,
            phase: match self.state {
                State::Idle => ClientPhase::Idle,
                State::AwaitUploadInitiate => ClientPhase::UploadInitiate,
                State::AwaitUploadSegment { toggle, received, indicated } =>
                    ClientPhase::UploadSegment {
                    toggle,
                    received: self.buf@.take(received as int),
                    indicated,
                },
                State::AwaitDownloadInitiate { len } => ClientPhase::DownloadInitiate {
                    data: self.buf@.take(len as int),
                },
                State::AwaitDownloadSegment { toggle, len, sent } => ClientPhase::DownloadSegment {
                    toggle,
                    data: self.buf@.take(len as int),
                    sent: sent as nat,
                },
            },
        }
    }
}

impl<const BUF: usize> SdoClient<BUF> {
    /// What is staged fits the buffer.
    pub closed spec fn wf(&self) -> bool {
        match self.state {
            State::Idle => true,
            State::AwaitUploadInitiate => true,
            State::AwaitUploadSegment { received, .. } => received <= BUF,
            State::AwaitDownloadInitiate { len } => 1 <= len <= BUF,
            State::AwaitDownloadSegment { len, sent, .. } => sent <= len <= BUF,
        }
    }

    /// Create a client for the given server node with the default timeout.
    pub fn new(server: NodeId) -> (client: Self)
        ensures
            client.wf(),
            client@ == (ClientState {
                server: server.spec_raw(),
                timeout_us: DEFAULT_SDO_TIMEOUT_US,
                since: 0,
                index: 0,
                sub: 0,
                phase: ClientPhase::Idle,
            }),
    {
        Self {
            server,
            timeout_us: DEFAULT_SDO_TIMEOUT_US,
            state: State::Idle,
            index: 0,
            sub: 0,
            since: 0,
            buf: [0; BUF],
        }
    }

    /// Change the per-response timeout.
    pub fn set_timeout_us(&mut self, timeout_us: u64)
        requires
            old(self).wf(),
        ensures
            final(self).wf(),
            final(self)@ == (ClientState { timeout_us, ..old(self)@ }),
    {
        self.timeout_us = timeout_us;
    }

    /// COB-ID this client listens on (server responses), for RX filters.
    pub fn response_cob_id(&self) -> (id: u16)
        ensures
            id == cob_id(Function::SdoTx, self@.server),
    {
        cob::sdo_tx(self.server)
    }

    /// Whether a transfer is currently in progress.
    pub fn is_busy(&self) -> (busy: bool)
        ensures
            busy == (self@.phase !is Idle),
    {
        self.state != State::Idle
    }

    /// Start an upload (read `index:sub` from the server). Returns the
    /// request frame to transmit. Values up to 4 bytes arrive expedited,
    /// larger ones via segmented transfer into the client buffer.
    pub fn upload(&mut self, index: u16, sub: u8, now: Micros) -> (request: Result<
        CanFrame,
        SdoClientError,
    >)
        requires
            old(self).wf(),
        ensures
            final(self).wf(),
            old(self)@.phase !is Idle ==> request == Err::<CanFrame, SdoClientError>(
                SdoClientError::Busy,
            ) && final(self)@ == old(self)@,
            old(self)@.phase is Idle ==> request is Ok && request->Ok_0@ == client_request(
                final(self)@,
                0x40,
                Seq::empty(),
            ) && final(self)@ == (ClientState {
                index,
                sub,
                since: now,
                phase: ClientPhase::UploadInitiate,
                ..old(self)@
            }),
    {
        if self.is_busy() {
            return Err(SdoClientError::Busy);
        }
        self.begin(index, sub, now, State::AwaitUploadInitiate);
        Ok(self.request_frame(0x40, &[]))
    }

    /// Start a download (write `data` to `index:sub` on the server); `data`
    /// is the value in little-endian byte order. Up to 4 bytes are sent
    /// expedited, larger values (up to `BUF` bytes) via segmented transfer.
    /// Returns the request frame to transmit.
    pub fn download(&mut self, index: u16, sub: u8, data: &[u8], now: Micros) -> (request: Result<
        CanFrame,
        SdoClientError,
    >)
        requires
            old(self).wf(),
        ensures
            final(self).wf(),
            old(self)@.phase !is Idle ==> request == Err::<CanFrame, SdoClientError>(
                SdoClientError::Busy,
            ) && final(self)@ == old(self)@,
            old(self)@.phase is Idle && !(1 <= data@.len() <= BUF) ==> request == Err::<
                CanFrame,
                SdoClientError,
            >(SdoClientError::InvalidDataLength) && final(self)@ == old(self)@,
            old(self)@.phase is Idle && 1 <= data@.len() <= BUF ==> request is Ok
                && request->Ok_0@ == download_request(final(self)@, data@) && final(self)@
                == (ClientState {
                index,
                sub,
                since: now,
                phase: ClientPhase::DownloadInitiate { data: data@ },
                ..old(self)@
            }),
    {
        if self.is_busy() {
            return Err(SdoClientError::Busy);
        }
        let len: usize = data.len();
        if len == 0 || len > BUF {
            return Err(SdoClientError::InvalidDataLength);
        }
        copy_at(&mut self.buf, 0, data);
        self.begin(index, sub, now, State::AwaitDownloadInitiate { len });
        assert(self.buf@.take(len as int) =~= data@);
        if len <= 4 {
            // Expedited: ccs=1, e=1, s=1, n = number of unused bytes.
            Ok(self.request_frame(make_expedited_cmd(0x20, len), data))
        } else {
            // Segmented initiate: ccs=1, e=0, s=1, size in bytes 4..8.
            let size = u32_to_le(len as u32);
            Ok(self.request_frame(0x21, &size))
        }
    }

    /// Feed a received frame to the client. Frames not addressed to this
    /// client's response COB-ID are ignored. Emits at most one completion
    /// event; transmits follow-up segment requests and aborts via `tx`.
    pub fn on_frame<T: TxSink>(&mut self, frame: &CanFrame, now: Micros, tx: &mut T) -> (event: Option<
        SdoEvent<'_>,
    >)
        requires
            old(self).wf(),
        ensures
            final(self).wf(),
            client_did(
                client_receives(old(self)@, BUF as nat, frame@, now),
                final(self)@,
                old(tx).sent(),
                final(tx).sent(),
                outcome(event),
            ),
    {
        if frame.id() != self.response_cob_id() || frame.dlc() != 8 || self.state == State::Idle {
            return None;
        }
        let data: &[u8] = frame.data();
        self.since = now;

        // Abort from server ends any transfer.
        if data[0] == ABORT {
            self.state = State::Idle;
            let code: u32 = read_number(data);
            return Some(
                SdoEvent::Failed {
                    index: self.index,
                    sub: self.sub,
                    error: SdoTransferError::Abort(SdoAbortCode(code)),
                },
            );
        }
        match self.state {
            State::AwaitUploadInitiate => self.on_upload_initiate(data, tx),
            State::AwaitUploadSegment { toggle, received, indicated } => self.on_upload_segment(
                data,
                toggle,
                received,
                indicated,
                tx,
            ),
            State::AwaitDownloadInitiate { len } => self.on_download_initiate(data, len, tx),
            State::AwaitDownloadSegment { toggle, len, sent } => self.on_download_segment(
                data,
                toggle,
                len,
                sent,
                tx,
            ),
            State::Idle => None,
        }
    }

    fn on_upload_initiate<T: TxSink>(&mut self, data: &[u8], tx: &mut T) -> (event: Option<
        SdoEvent<'_>,
    >)
        requires
            old(self).wf(),
            data@.len() == 8,
        ensures
            final(self).wf(),
            client_did(
                upload_initiate_step(old(self)@, BUF as nat, data@),
                final(self)@,
                old(tx).sent(),
                final(tx).sent(),
                outcome(event),
            ),
    {
        if data[0] / 32 != 2 || !self.object_matches(data) {
            return Some(
                self.fail_with_abort(SdoAbortCode::CMD_SPECIFIER, SdoTransferError::Protocol, tx),
            );
        }
        if data[0] / 2 % 2 == 1 {
            let len: usize = read_expedited_len(data[0]);
            if len > BUF {
                return Some(
                    self.fail_with_abort(
                        SdoAbortCode::OUT_OF_MEMORY,
                        SdoTransferError::BufferTooSmall,
                        tx,
                    ),
                );
            }
            copy_at(&mut self.buf, 0, slice_subrange(data, 4, 4 + len));
            self.state = State::Idle;
            assert(self.buf@.subrange(0, len as int) =~= data@.subrange(4, 4 + len));
            return Some(
                SdoEvent::UploadOk {
                    index: self.index,
                    sub: self.sub,
                    data: slice_subrange(&self.buf, 0, len),
                },
            );
        }
        // Segmented: size announcement in bytes 4..8 when indicated.
        let indicated = read_announced_size(data);
        if let Some(size) = indicated {
            if size as usize > BUF {
                return Some(
                    self.fail_with_abort(
                        SdoAbortCode::OUT_OF_MEMORY,
                        SdoTransferError::BufferTooSmall,
                        tx,
                    ),
                );
            }
        }
        self.state = State::AwaitUploadSegment { toggle: false, received: 0, indicated };
        assert(self.buf@.take(0) =~= Seq::<u8>::empty());
        let request = self.request_frame(0x60, &[]);  // first segment request, toggle 0
        tx.send(request);
        None
    }

    fn on_upload_segment<T: TxSink>(
        &mut self,
        data: &[u8],
        toggle: bool,
        received: usize,
        indicated: Option<u32>,
        tx: &mut T,
    ) -> (event: Option<SdoEvent<'_>>)
        requires
            old(self).wf(),
            data@.len() == 8,
            old(self).state == (State::AwaitUploadSegment { toggle, received, indicated }),
        ensures
            final(self).wf(),
            client_did(
                upload_segment_step(
                    old(self)@,
                    BUF as nat,
                    data@,
                    toggle,
                    old(self).buf@.take(received as int),
                    indicated,
                ),
                final(self)@,
                old(tx).sent(),
                final(tx).sent(),
                outcome(event),
            ),
    {
        // Segment response: scs=0, toggle must echo our request.
        if data[0] / 32 != 0 {
            return Some(
                self.fail_with_abort(SdoAbortCode::CMD_SPECIFIER, SdoTransferError::Protocol, tx),
            );
        }
        if (data[0] / 16 % 2 == 1) != toggle {
            return Some(
                self.fail_with_abort(SdoAbortCode::TOGGLE_BIT, SdoTransferError::Protocol, tx),
            );
        }
        let chunk: usize = (7 - data[0] / 2 % 8) as usize;
        let last = data[0] % 2 == 1;
        if chunk > BUF - received {
            return Some(
                self.fail_with_abort(
                    SdoAbortCode::OUT_OF_MEMORY,
                    SdoTransferError::BufferTooSmall,
                    tx,
                ),
            );
        }
        copy_at(&mut self.buf, received, slice_subrange(data, 1, 1 + chunk));
        assert(self.buf@.take(received + chunk) =~= old(self).buf@.take(received as int)
            + segment_data(data@));
        let received: usize = received + chunk;
        if last {
            if let Some(size) = indicated {
                if size as usize != received {
                    return Some(
                        self.fail_with_abort(
                            SdoAbortCode::TYPE_MISMATCH,
                            SdoTransferError::Protocol,
                            tx,
                        ),
                    );
                }
            }
            self.state = State::Idle;
            assert(self.buf@.subrange(0, received as int) =~= self.buf@.take(received as int));
            return Some(
                SdoEvent::UploadOk {
                    index: self.index,
                    sub: self.sub,
                    data: slice_subrange(&self.buf, 0, received),
                },
            );
        }
        self.state = State::AwaitUploadSegment { toggle: !toggle, received, indicated };
        let request = self.request_frame(make_toggled_cmd(0x60, !toggle), &[]);
        tx.send(request);
        None
    }

    fn on_download_initiate<T: TxSink>(&mut self, data: &[u8], len: usize, tx: &mut T) -> (event:
        Option<SdoEvent<'_>>)
        requires
            old(self).wf(),
            data@.len() == 8,
            old(self).state == (State::AwaitDownloadInitiate { len }),
        ensures
            final(self).wf(),
            client_did(
                download_initiate_step(old(self)@, data@, old(self).buf@.take(len as int)),
                final(self)@,
                old(tx).sent(),
                final(tx).sent(),
                outcome(event),
            ),
    {
        // Download initiate response: scs=3, object address echoed.
        if data[0] / 32 != 3 || !self.object_matches(data) {
            return Some(
                self.fail_with_abort(SdoAbortCode::CMD_SPECIFIER, SdoTransferError::Protocol, tx),
            );
        }
        if len <= 4 {
            self.state = State::Idle;
            return Some(SdoEvent::DownloadOk { index: self.index, sub: self.sub });
        }
        self.send_download_segment(false, len, 0, tx);
        None
    }

    fn on_download_segment<T: TxSink>(
        &mut self,
        data: &[u8],
        toggle: bool,
        len: usize,
        sent: usize,
        tx: &mut T,
    ) -> (event: Option<SdoEvent<'_>>)
        requires
            old(self).wf(),
            data@.len() == 8,
            old(self).state == (State::AwaitDownloadSegment { toggle, len, sent }),
        ensures
            final(self).wf(),
            client_did(
                download_segment_step(
                    old(self)@,
                    data@,
                    toggle,
                    old(self).buf@.take(len as int),
                    sent as nat,
                ),
                final(self)@,
                old(tx).sent(),
                final(tx).sent(),
                outcome(event),
            ),
            ({
                let value = old(self).buf@.take(len as int);
                forall|k: nat| #[trigger]
                    download_phase(value, k) == old(self)@.phase && 7 * k < len && specifier(
                        data@[0],
                    ) == 1 && toggle_bit(data@[0]) == (k % 2 == 1) ==> client_did(
                        acknowledged_step(old(self)@, value, k),
                        final(self)@,
                        old(tx).sent(),
                        final(tx).sent(),
                        outcome(event),
                    )
            }),
    {
        proof {
            let value = self.buf@.take(len as int);
            assert forall|k: nat| #[trigger]
                download_phase(value, k) == self@.phase && 7 * k < len && specifier(data@[0]) == 1
                    && toggle_bit(data@[0]) == (k % 2 == 1) implies download_segment_step(
                self@,
                data@,
                toggle,
                value,
                sent as nat,
            ) == acknowledged_step(self@, value, k) by {
                lemma_segment_acknowledged(self@, data@, value, k);
            }
        }
        // Segment response: scs=1, toggle echoed.
        if data[0] / 32 != 1 {
            return Some(
                self.fail_with_abort(SdoAbortCode::CMD_SPECIFIER, SdoTransferError::Protocol, tx),
            );
        }
        if (data[0] / 16 % 2 == 1) != toggle {
            return Some(
                self.fail_with_abort(SdoAbortCode::TOGGLE_BIT, SdoTransferError::Protocol, tx),
            );
        }
        if sent >= len {
            self.state = State::Idle;
            return Some(SdoEvent::DownloadOk { index: self.index, sub: self.sub });
        }
        self.send_download_segment(!toggle, len, sent, tx);
        None
    }

    /// Send the next download segment and advance `sent`.
    fn send_download_segment<T: TxSink>(
        &mut self,
        toggle: bool,
        len: usize,
        sent: usize,
        tx: &mut T,
    )
        requires
            sent <= len <= BUF,
        ensures
            final(self).wf(),
            client_did(
                send_segment_step(
                    old(self)@,
                    old(self).buf@.take(len as int),
                    sent as nat,
                    toggle,
                ),
                final(self)@,
                old(tx).sent(),
                final(tx).sent(),
                None,
            ),
    {
        let left: usize = len - sent;
        let chunk: usize = if left < 7 {
            left
        } else {
            7
        };
        let last = sent + chunk == len;
        let cmd: u8 = make_segment_cmd(toggle, chunk, last);
        let bytes = slice_subrange(&self.buf, sent, sent + chunk);
        assert(bytes@ =~= next_chunk(self.buf@.take(len as int), sent as nat));
        tx.send(segment_frame(cob::sdo_rx(self.server), cmd, bytes));
        self.state = State::AwaitDownloadSegment { toggle, len, sent: sent + chunk };
    }

    /// Check for a response timeout. Call periodically or at
    /// [`next_deadline`](Self::next_deadline). On timeout an abort frame is
    /// transmitted and a failure event returned.
    pub fn poll<T: TxSink>(&mut self, now: Micros, tx: &mut T) -> (event: Option<SdoEvent<'_>>)
        requires
            old(self).wf(),
        ensures
            final(self).wf(),
            client_did(
                client_polled(old(self)@, now),
                final(self)@,
                old(tx).sent(),
                final(tx).sent(),
                outcome(event),
            ),
    {
        if self.state == State::Idle {
            return None;
        }
        if now.saturating_sub(self.since) >= self.timeout_us {
            Some(self.fail_with_abort(SdoAbortCode::TIMEOUT, SdoTransferError::Timeout, tx))
        } else {
            None
        }
    }

    /// The next deadline at which [`poll`](Self::poll) should run, if a
    /// transfer is in progress.
    pub fn next_deadline(&self) -> (deadline: Option<Micros>)
        requires
            self@.phase !is Idle ==> self@.since + self@.timeout_us <= u64::MAX,
        ensures
            deadline is Some <==> self@.phase !is Idle,
            deadline is Some ==> deadline->0 == self@.since + self@.timeout_us,
    {
        if self.state != State::Idle {
            Some(self.since + self.timeout_us)
        } else {
            None
        }
    }

    fn begin(&mut self, index: u16, sub: u8, now: Micros, state: State)
        ensures
            *final(self) == (Self { index, sub, since: now, state, ..*old(self) }),
    {
        self.index = index;
        self.sub = sub;
        self.since = now;
        self.state = state;
    }

    /// Response frames echo the object address of the request in bytes 1..4.
    fn object_matches(&self, data: &[u8]) -> (matches: bool)
        requires
            data@.len() == 8,
        ensures
            matches == names_object(self@, data@),
    {
        read_index(data) == self.index && data[3] == self.sub
    }

    fn fail_with_abort<T: TxSink>(&mut self, code: u32, error: SdoTransferError, tx: &mut T) -> (event:
        SdoEvent<'static>)
        ensures
            final(self).wf(),
            client_did(
                client_fails(old(self)@, code, error),
                final(self)@,
                old(tx).sent(),
                final(tx).sent(),
                Some(outcome_of(event)),
            ),
    {
        self.state = State::Idle;
        let code_bytes = u32_to_le(code);
        let abort = self.request_frame(ABORT, &code_bytes);
        tx.send(abort);
        SdoEvent::Failed { index: self.index, sub: self.sub, error }
    }

    /// Build a client request frame addressing the current object:
    /// `[cmd, index lo, index hi, sub, d0..d3]`, always 8 bytes.
    fn request_frame(&self, cmd: u8, data: &[u8]) -> (frame: CanFrame)
        requires
            data@.len() <= 4,
        ensures
            frame@ == client_request(self@, cmd, data@),
    {
        object_frame(cob::sdo_rx(self.server), cmd, self.index, self.sub, data)
    }
}

/// The request that starts a download of `data`: expedited for up to four
/// bytes, else the announcement of the size.
pub open spec fn download_request(c: ClientState, data: Seq<u8>) -> FrameView {
    if data.len() <= 4 {
        client_request(c, expedited_cmd(0x20, data.len()), data)
    } else {
        client_request(c, 0x21, le_bytes((data.len() as u32) as nat, 4))
    }
}

} // verus!
