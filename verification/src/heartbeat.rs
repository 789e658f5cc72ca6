//! Heartbeat producer.

use crate::cob;
use crate::cob::{cob_id, Function};
use crate::frame::{CanFrame, FrameView};
use crate::nmt::{state_byte, NmtState};
use crate::node_id::NodeId;
use crate::{Micros, TxSink};
use vstd::prelude::*;

verus! {

/// The state of a producer.
pub struct ProducerState {
    pub node: u8,
    pub period_us: u64,
    pub last_sent: Option<Micros>,
}

/// Whether a heartbeat is due: none was sent yet, or the period has elapsed.
pub open spec fn heartbeat_due(p: ProducerState, now: Micros) -> bool {
    p.period_us > 0 && match p.last_sent {
        None => true,
        Some(last) => now - last >= p.period_us,
    }
}

/// The heartbeat message of `node` that reports the byte `byte`.
pub open spec fn heartbeat_frame(node: u8, byte: u8) -> FrameView {
    FrameView { id: cob_id(Function::Heartbeat, node), data: seq![byte] }
}

/// What a producer sends when it is processed at `now`.
pub open spec fn heartbeat_frames(p: ProducerState, state: NmtState, now: Micros) -> Seq<FrameView> {
    if heartbeat_due(p, now) {
        seq![heartbeat_frame(p.node, state_byte(state))]
    } else {
        Seq::empty()
    }
}

/// The producer after it was processed at `now`.
pub open spec fn heartbeat_next(p: ProducerState, now: Micros) -> ProducerState {
    if heartbeat_due(p, now) {
        ProducerState { last_sent: Some(now), ..p }
    } else {
        p
    }
}

/// When the producer wants to be processed next, after it was processed at
/// `now`; `None` when it is disabled.
pub open spec fn heartbeat_deadline(p: ProducerState, now: Micros) -> Option<int> {
    match heartbeat_next(p, now).last_sent {
        Some(last) if p.period_us > 0 => Some(last + p.period_us),
        _ => None,
    }
}

/// A processed producer asks to be processed again in the future, so a caller
/// that sleeps until the deadline never spins.
pub proof fn law_heartbeat_deadline_is_ahead(p: ProducerState, now: Micros)
    ensures
        heartbeat_deadline(p, now) is Some ==> heartbeat_deadline(p, now)->0 > now,
        heartbeat_deadline(p, now) is Some <==> p.period_us > 0,
{
}

/// Between a heartbeat and its deadline nothing is sent; at the deadline the
/// next heartbeat is.
pub proof fn law_heartbeat_is_cyclic(p: ProducerState, now: Micros, later: Micros)
    requires
        p.period_us > 0,
    ensures
        heartbeat_due(heartbeat_next(p, now), later) <==> later >= heartbeat_deadline(p, now)->0,
{
}

/// Produces the boot-up message and cyclic heartbeat frames for one node.
///
/// The producer period comes from OD entry 0x1017 (producer heartbeat time,
/// u16 milliseconds); 0 disables the heartbeat.
#[derive(Debug)]
pub struct HeartbeatProducer {
    node_id: NodeId,
    period_us: u64,
    last_sent: Option<Micros>,
}

impl View for HeartbeatProducer {
    type V = ProducerState;

    closed spec fn view(&self) -> ProducerState {
        ProducerState {
            node: self.node_id.spec_raw(),
            period_us: self.period_us,
            last_sent: self.last_sent,
        }
    }
}

impl HeartbeatProducer {
    /// Create a producer with the given period in milliseconds (OD 0x1017).
    pub fn new(node_id: NodeId, period_ms: u16) -> (producer: Self)
        ensures
            producer@ == (ProducerState {
                node: node_id.spec_raw(),
                period_us: (period_ms * 1000) as u64,
                last_sent: None,
            }),
    {
        Self { node_id, period_us: period_ms as u64 * 1000, last_sent: None }
    }

    /// Change the producer period at runtime (SDO write to 0x1017).
    /// Takes effect immediately; the next heartbeat is scheduled relative to
    /// the last one sent.
    pub fn set_period_ms(&mut self, period_ms: u16)
        ensures
            final(self)@ == (ProducerState { period_us: (period_ms * 1000) as u64, ..old(self)@ }),
    {
        self.period_us = period_ms as u64 * 1000;
    }

    /// Emit the boot-up message (heartbeat COB-ID with state 0x00) and start
    /// the heartbeat cycle.
    pub fn send_boot_up<T: TxSink>(&mut self, now: Micros, tx: &mut T)
        ensures
            final(self)@ == (ProducerState { last_sent: Some(now), ..old(self)@ }),
            final(tx).sent() == old(tx).sent().push(heartbeat_frame(old(self)@.node, 0x00)),
    {
        let payload: [u8; 1] = [0x00];
        let frame = CanFrame::new(cob::heartbeat(self.node_id), &payload).unwrap();
        assert(frame@.data =~= seq![0x00u8]);
        tx.send(frame);
        self.last_sent = Some(now);
    }

    /// Produce a heartbeat if the period has elapsed. Returns the next
    /// deadline, or `None` when the producer is disabled.
    pub fn process<T: TxSink>(&mut self, state: NmtState, now: Micros, tx: &mut T) -> (next: Option<
        Micros,
    >)
        requires
            heartbeat_deadline(old(self)@, now) is Some ==> heartbeat_deadline(
                old(self)@,
                now,
            )->0 <= u64::MAX,
        ensures
            final(self)@ == heartbeat_next(old(self)@, now),
            final(tx).sent() == old(tx).sent() + heartbeat_frames(old(self)@, state, now),
            next is Some <==> heartbeat_deadline(old(self)@, now) is Some,
            next is Some ==> next->0 == heartbeat_deadline(old(self)@, now)->0,
    {
        if self.period_us == 0 {
            return None;
        }
        let due = match self.last_sent {
            None => true,
            Some(last) => now.saturating_sub(last) >= self.period_us,
        };
        let mut last: Micros = now;
        if due {
            let payload: [u8; 1] = [state.as_byte()];
            let frame = CanFrame::new(cob::heartbeat(self.node_id), &payload).unwrap();
            assert(frame@.data =~= seq![state_byte(state)]);
            tx.send(frame);
            self.last_sent = Some(now);
        } else if let Some(sent) = self.last_sent {
            last = sent;
        }
        Some(last + self.period_us)
    }
}

} // verus!
