//! One SDO transfer from the request to its end, as a caller with a blocking
//! bus runs it.
//!
//! The caller sends the request, then alternates between receiving (for at
//! most [`transfer_timeout_us`]) and [`transfer_step`], until the transfer is
//! complete.

use crate::frame::{CanFrame, FrameView};
use crate::sdo::client::{client_polled, client_receives, client_rests, outcome_of, ClientState};
use crate::sdo::client::{ClientStep, Outcome, SdoClient, SdoEvent, SdoTransferError};
use crate::{Micros, TxSink};
use vstd::prelude::*;
use vstd::slice::slice_to_vec;

verus! {

/// The end of an SDO transfer, with the uploaded value copied out of the
/// client's buffer.
#[derive(Debug)]
pub enum Completion {
    /// Upload (read) finished.
    UploadOk { index: u16, sub: u8, data: Vec<u8> },
    /// Download (write) finished.
    DownloadOk { index: u16, sub: u8 },
    /// The transfer failed.
    Failed { index: u16, sub: u8, error: SdoTransferError },
}

impl View for Completion {
    type V = Outcome;

    open spec fn view(&self) -> Outcome {
        match self {
            Completion::UploadOk { index, sub, data } => Outcome::UploadOk {
                index: *index,
                sub: *sub,
                data: data@,
            },
            Completion::DownloadOk { index, sub } => Outcome::DownloadOk { index: *index, sub: *sub },
            Completion::Failed { index, sub, error } => Outcome::Failed {
                index: *index,
                sub: *sub,
                error: *error,
            },
        }
    }
}

/// What an optional completion says.
pub open spec fn completed(completion: Option<Completion>) -> Option<Outcome> {
    match completion {
        Some(completion) => Some(completion@),
        None => None,
    }
}

/// Copy what an event says.
fn complete(event: SdoEvent<'_>) -> (completion: Completion)
    ensures
        completion@ == outcome_of(event),
{
    match event {
        SdoEvent::UploadOk { index, sub, data } => Completion::UploadOk {
            index,
            sub,
            data: slice_to_vec(data),
        },
        SdoEvent::DownloadOk { index, sub } => Completion::DownloadOk { index, sub },
        SdoEvent::Failed { index, sub, error } => Completion::Failed { index, sub, error },
    }
}

/// How long a blocking receive may take when the client's deadline is
/// `deadline`: until then, but at least one millisecond.
pub open spec fn transfer_timeout(deadline: Option<Micros>, now: Micros) -> u64 {
    match deadline {
        Some(deadline) => if deadline - now >= 1_000 {
            (deadline - now) as u64
        } else {
            1_000
        },
        None => 1_000,
    }
}

/// The timeout of a blocking receive during a transfer, in microseconds.
pub fn transfer_timeout_us(deadline: Option<Micros>, now: Micros) -> (timeout: u64)
    ensures
        timeout == transfer_timeout(deadline, now),
{
    let left: u64 = match deadline {
        Some(deadline) => deadline.saturating_sub(now),
        None => 0,
    };
    if left >= 1_000 {
        left
    } else {
        1_000
    }
}

/// What a client does when a receive ended: it handles the frame, if there
/// was one, at `now`, and unless that completes the transfer it checks for a
/// timeout at `later`.
pub open spec fn client_turn(
    c: ClientState,
    room: nat,
    received: Option<FrameView>,
    now: Micros,
    later: Micros,
) -> ClientStep {
    let handled = match received {
        Some(frame) => client_receives(c, room, frame, now),
        None => client_rests(c),
    };
    if handled.event is Some {
        handled
    } else {
        let polled = client_polled(handled.next, later);
        ClientStep { frames: handled.frames + polled.frames, ..polled }
    }
}

/// A received frame.
pub open spec fn received_view(received: Option<CanFrame>) -> Option<FrameView> {
    match received {
        Some(frame) => Some(frame@),
        None => None,
    }
}

/// Take note of a receive that ended at `now`, with a frame or without one,
/// and check for a timeout at `later`. Returns the end of the transfer.
pub fn transfer_step<const BUF: usize, T: TxSink>(
    client: &mut SdoClient<BUF>,
    received: Option<CanFrame>,
    now: Micros,
    later: Micros,
    tx: &mut T,
) -> (completion: Option<Completion>)
    requires
        old(client).wf(),
    ensures
        final(client).wf(),
        ({
            let turn = client_turn(
                old(client)@,
                BUF as nat,
                received_view(received),
                now,
                later,
            );
            &&& final(client)@ == turn.next
            &&& final(tx).sent() == old(tx).sent() + turn.frames
            &&& completed(completion) == turn.event
        }),
{
    if let Some(frame) = received {
        if let Some(event) = client.on_frame(&frame, now, tx) {
            return Some(complete(event));
        }
    }
    let result = match client.poll(later, tx) {
        Some(event) => Some(complete(event)),
        None => None,
    };
    assert(tx.sent() =~= old(tx).sent() + client_turn(
        old(client)@,
        BUF as nat,
        received_view(received),
        now,
        later,
    ).frames);
    result
}

} // verus!
