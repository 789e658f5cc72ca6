//! Local node orchestration.
//!
//! [`Node`] wires the protocol objects of one local CANopen device together
//! behind the same sans-IO calling convention: `on_frame` for received
//! frames, `process` for time-driven work, a [`TxSink`] for output. The node
//! owns its [`ObjectDictionary`]; single-task ownership takes the place of
//! locks.

use crate::bytes::{le_value, u16_from_le};
use crate::cob;
use crate::cob::{cob_id, Function};
use crate::frame::{CanFrame, FrameView};
use crate::heartbeat::{heartbeat_deadline, heartbeat_frame, heartbeat_frames, heartbeat_next};
use crate::heartbeat::{law_heartbeat_deadline_is_ahead, HeartbeatProducer, ProducerState};
use crate::nmt::{reset_of_frame, state_after_frame, NmtResetRequest, NmtSlave, NmtState};
use crate::node_id::NodeId;
use crate::od::{get, value_of_len, ObjectDictionary};
use crate::pdo::{configured_rpdo, configured_tpdo, earlier, earliest, event_timer_used};
use crate::pdo::{law_tpdo_deadline_is_ahead, law_tpdo_processing_is_idempotent, maps_object};
use crate::pdo::{rpdo_step, tpdo_deadline, tpdo_frames, tpdo_next, tpdo_times_fit, Rpdo};
use crate::pdo::{RpdoState, Tpdo, TpdoState, MAX_PDOS};
use crate::sdo::{SdoServer, SdoServerEvent};
use crate::sdo::exchange::law_every_request_is_answered;
use crate::sdo::server::{od_follows, server_polled, server_receives, valid_server, AcceptedWrite};
use crate::sdo::server::{ServerPhase, ServerState, DEFAULT_SDO_SERVER_TIMEOUT_US};
use crate::{Micros, TxSink};
use vstd::prelude::*;

verus! {

/// OD index of the producer heartbeat time (u16, milliseconds).
pub const OD_HEARTBEAT_TIME: u16 = 0x1017;

/// Bytes that the node's SDO server can stage.
pub const SDO_BUFFER: usize = 256;

/// Reset request the application must perform.
#[derive(Debug, Clone, Copy, PartialEq, Eq, Structural)]
pub enum ResetCommand {
    /// Re-initialize CANopen communication: drop this [`Node`], create a new
    /// one and call [`Node::start`] again.
    Communication,
    /// Reset the whole device (application-defined; on MCUs typically a
    /// system reset).
    Node,
}

/// The state of a node.
#[verifier::ext_equal]
pub struct NodeState<OD> {
    pub node: u8,
    pub nmt: NmtState,
    pub heartbeat: ProducerState,
    pub sdo: ServerState,
    pub tpdos: Seq<Option<TpdoState>>,
    pub rpdos: Seq<Option<RpdoState>>,
    pub od: OD,
}

/// What holds of the state of every node: its parts agree on its id, there is
/// a slot for every PDO, the SDO server has a timeout, and event deadlines
/// are only set where there is an event timer.
pub open spec fn valid_node<OD>(n: NodeState<OD>) -> bool {
    &&& 1 <= n.node <= 127
    &&& n.heartbeat.node == n.node
    &&& n.sdo.node == n.node
    &&& n.sdo.timeout_us > 0
    &&& valid_server(n.sdo)
    &&& n.tpdos.len() == MAX_PDOS
    &&& n.rpdos.len() == MAX_PDOS
    &&& forall|slot: int|
        0 <= slot < n.tpdos.len() && (#[trigger] n.tpdos[slot]) is Some ==> event_timer_used(
            n.tpdos[slot]->0,
        )
}

/// The producer heartbeat time that a dictionary holds, in microseconds.
pub open spec fn configured_period<OD: ObjectDictionary>(od: OD) -> Option<u64> {
    match value_of_len(od, OD_HEARTBEAT_TIME, 0, 2) {
        Some(bytes) => Some((le_value(bytes) * 1000) as u64),
        None => None,
    }
}

/// A producer after the communication parameters were read again.
pub open spec fn refreshed<OD: ObjectDictionary>(p: ProducerState, od: OD) -> ProducerState {
    match configured_period(od) {
        Some(period_us) => ProducerState { period_us, ..p },
        None => p,
    }
}

/// The node that a dictionary configures, before it is started.
pub open spec fn new_node<OD: ObjectDictionary>(node: u8, od: OD) -> NodeState<OD> {
    NodeState {
        node,
        nmt: NmtState::Initializing,
        heartbeat: refreshed(ProducerState { node, period_us: 0, last_sent: None }, od),
        sdo: ServerState {
            node,
            timeout_us: DEFAULT_SDO_SERVER_TIMEOUT_US,
            since: 0,
            index: 0,
            sub: 0,
            phase: ServerPhase::Idle,
        },
        tpdos: Seq::new(MAX_PDOS as nat, |slot: int| configured_tpdo(od, slot as u16)),
        rpdos: Seq::new(MAX_PDOS as nat, |slot: int| configured_rpdo(od, slot as u16)),
        od,
    }
}

/// A TPDO slot whose transmission was requested.
pub open spec fn requested(slot: Option<TpdoState>) -> Option<TpdoState> {
    match slot {
        Some(t) => Some(TpdoState { send_request: true, ..t }),
        None => None,
    }
}

/// A TPDO slot after the object `index:sub` was written.
pub open spec fn triggered(slot: Option<TpdoState>, index: u16, sub: u8) -> Option<TpdoState> {
    match slot {
        Some(t) => if maps_object(t.mapping, index, sub) {
            requested(slot)
        } else {
            slot
        },
        None => None,
    }
}

/// A node after its dictionary accepted the write `written`, if any: a
/// changed heartbeat time takes effect, and the TPDOs that map the object are
/// requested.
pub open spec fn after_write<OD: ObjectDictionary>(
    n: NodeState<OD>,
    written: Option<AcceptedWrite>,
) -> NodeState<OD> {
    match written {
        Some(w) => NodeState {
            heartbeat: if w.index == OD_HEARTBEAT_TIME && w.sub == 0 {
                refreshed(n.heartbeat, n.od)
            } else {
                n.heartbeat
            },
            tpdos: n.tpdos.map_values(
                |slot: Option<TpdoState>| triggered(slot, w.index, w.sub),
            ),
            ..n
        },
        None => n,
    }
}

/// Whether the reception of `frame` by the RPDOs `rpdos`, in slot order, can
/// take the dictionary `pre` to `post`.
pub open spec fn rpdos_step<OD: ObjectDictionary>(
    rpdos: Seq<Option<RpdoState>>,
    frame: FrameView,
    pre: OD,
    post: OD,
) -> bool
    decreases rpdos.len(),
{
    if rpdos.len() == 0 {
        post == pre
    } else {
        exists|mid: OD|
            rpdos_step(rpdos.drop_last(), frame, pre, mid) && #[trigger] rpdo_slot_step(
                rpdos.last(),
                frame,
                mid,
                post,
            )
    }
}

/// The same for one slot; an empty slot does nothing.
pub open spec fn rpdo_slot_step<OD: ObjectDictionary>(
    slot: Option<RpdoState>,
    frame: FrameView,
    pre: OD,
    post: OD,
) -> bool {
    match slot {
        Some(r) => rpdo_step(r, frame, pre, post),
        None => post == pre,
    }
}

/// Whether the node `n` hands `frame` to its SDO server.
pub open spec fn serves<OD>(n: NodeState<OD>, frame: FrameView) -> bool {
    frame.id == cob_id(Function::SdoRx, n.node) && (n.nmt is PreOperational || n.nmt
        is Operational)
}

/// The reset command that stands for a reset request.
pub open spec fn reset_command(request: Option<NmtResetRequest>) -> Option<ResetCommand> {
    match request {
        Some(NmtResetRequest::Communication) => Some(ResetCommand::Communication),
        Some(NmtResetRequest::Node) => Some(ResetCommand::Node),
        None => None,
    }
}

/// Whether the reception of `frame` at `now` can take the node `pre` to
/// `post`, with `frames` being sent and `reset` being returned.
pub open spec fn node_receives<OD: ObjectDictionary>(
    pre: NodeState<OD>,
    frame: FrameView,
    now: Micros,
    post: NodeState<OD>,
    frames: Seq<FrameView>,
    reset: Option<ResetCommand>,
) -> bool {
    if frame.id == cob::NMT_SERVICE {
        &&& post == (NodeState {
            nmt: state_after_frame(pre.nmt, frame.data, pre.node),
            ..pre
        })
        &&& frames == Seq::<FrameView>::empty()
        &&& reset == reset_command(reset_of_frame(frame.data, pre.node))
    } else if serves(pre, frame) {
        let step = server_receives(pre.sdo, SDO_BUFFER as nat, pre.od, frame, now);
        &&& od_follows(step.written, pre.od, post.od)
        &&& post == after_write(NodeState { sdo: step.next, od: post.od, ..pre }, step.written)
        &&& frames == step.frames
        &&& reset is None
    } else {
        &&& if pre.nmt is Operational {
            rpdos_step(pre.rpdos, frame, pre.od, post.od)
        } else {
            post.od == pre.od
        }
        &&& post == (NodeState { od: post.od, ..pre })
        &&& frames == Seq::<FrameView>::empty()
        &&& reset is None
    }
}

/// What one TPDO slot transmits when it is processed; an empty one nothing.
pub open spec fn slot_frames<OD: ObjectDictionary>(
    slot: Option<TpdoState>,
    od: OD,
    operational: bool,
    now: Micros,
) -> Seq<FrameView> {
    match slot {
        Some(t) => tpdo_frames(t, od, operational, now),
        None => Seq::empty(),
    }
}

/// What TPDO slots transmit when they are processed, in slot order.
pub open spec fn slots_frames<OD: ObjectDictionary>(
    tpdos: Seq<Option<TpdoState>>,
    od: OD,
    operational: bool,
    now: Micros,
) -> Seq<FrameView>
    decreases tpdos.len(),
{
    if tpdos.len() == 0 {
        Seq::empty()
    } else {
        slots_frames(tpdos.drop_last(), od, operational, now) + slot_frames(
            tpdos.last(),
            od,
            operational,
            now,
        )
    }
}

/// A TPDO slot after it was processed.
pub open spec fn slot_next(slot: Option<TpdoState>, operational: bool, now: Micros) -> Option<
    TpdoState,
> {
    match slot {
        Some(t) => Some(tpdo_next(t, operational, now)),
        None => None,
    }
}

/// The earliest deadline of processed TPDO slots and `other`.
pub open spec fn slots_deadline(
    tpdos: Seq<Option<TpdoState>>,
    operational: bool,
    other: Option<Micros>,
) -> Option<Micros>
    decreases tpdos.len(),
{
    if tpdos.len() == 0 {
        other
    } else {
        earlier(
            slots_deadline(tpdos.drop_last(), operational, other),
            match tpdos.last() {
                Some(t) => tpdo_deadline(t, operational),
                None => None,
            },
        )
    }
}

/// Whether the deadlines that come up when the node is processed at `now`
/// can be represented.
pub open spec fn node_times_fit<OD>(n: NodeState<OD>, now: Micros) -> bool {
    let polled = server_polled(n.sdo, now).next;
    &&& heartbeat_deadline(n.heartbeat, now) is Some ==> heartbeat_deadline(n.heartbeat, now)->0
        <= u64::MAX
    &&& polled.phase !is Idle ==> polled.since + polled.timeout_us <= u64::MAX
    &&& forall|slot: int|
        0 <= slot < n.tpdos.len() && (#[trigger] n.tpdos[slot]) is Some ==> tpdo_times_fit(
            n.tpdos[slot]->0,
            n.nmt is Operational,
            now,
        )
}

/// The node after it was processed at `now`.
pub open spec fn node_next<OD>(n: NodeState<OD>, now: Micros) -> NodeState<OD> {
    NodeState {
        heartbeat: heartbeat_next(n.heartbeat, now),
        sdo: server_polled(n.sdo, now).next,
        tpdos: n.tpdos.map_values(
            |slot: Option<TpdoState>| slot_next(slot, n.nmt is Operational, now),
        ),
        ..n
    }
}

/// What a node sends when it is processed at `now`: its heartbeat, the abort
/// of a stale SDO transfer, and its TPDOs.
pub open spec fn node_frames<OD: ObjectDictionary>(n: NodeState<OD>, now: Micros) -> Seq<FrameView> {
    heartbeat_frames(n.heartbeat, n.nmt, now) + server_polled(n.sdo, now).frames + slots_frames(
        n.tpdos,
        n.od,
        n.nmt is Operational,
        now,
    )
}

/// The deadline of a processed SDO server.
pub open spec fn sdo_deadline(s: ServerState) -> Option<Micros> {
    if s.phase is Idle {
        None
    } else {
        Some((s.since + s.timeout_us) as u64)
    }
}

/// When a node wants to be processed next, after it was processed at `now`.
pub open spec fn node_deadline<OD>(n: NodeState<OD>, now: Micros) -> Option<Micros> {
    let next = node_next(n, now);
    let heartbeat = match heartbeat_deadline(n.heartbeat, now) {
        Some(at) => Some(at as u64),
        None => None,
    };
    slots_deadline(next.tpdos, n.nmt is Operational, earlier(heartbeat, sdo_deadline(next.sdo)))
}

/// One local CANopen device: NMT slave, heartbeat producer, SDO server
/// serving the object dictionary, and the configured PDOs.
#[derive(Debug)]
pub struct Node<OD: ObjectDictionary> {
    node_id: NodeId,
    nmt: NmtSlave,
    heartbeat: HeartbeatProducer,
    sdo: SdoServer<SDO_BUFFER>,
    tpdos: [Option<Tpdo>; MAX_PDOS],
    rpdos: [Option<Rpdo>; MAX_PDOS],
    od: OD,
}

spec fn tpdo_view(slot: Option<Tpdo>) -> Option<TpdoState> {
    match slot {
        Some(t) => Some(t@),
        None => None,
    }
}

spec fn rpdo_view(slot: Option<Rpdo>) -> Option<RpdoState> {
    match slot {
        Some(r) => Some(r@),
        None => None,
    }
}

impl<OD: ObjectDictionary> View for Node<OD> {
    type V = NodeState<OD>;

    closed spec fn view(&self) -> NodeState<OD> {
        NodeState {
            node: self.node_id.spec_raw(),
            nmt: self.nmt.spec_state(),
            heartbeat: self.heartbeat@,
            sdo: self.sdo@,
            tpdos: self.tpdos@.map_values(|slot: Option<Tpdo>| tpdo_view(slot)),
            rpdos: self.rpdos@.map_values(|slot: Option<Rpdo>| rpdo_view(slot)),
            od: self.od,
        }
    }
}

impl<OD: ObjectDictionary> Node<OD> {
    /// The parts of a node agree on its id and are well-formed.
    pub closed spec fn wf(&self) -> bool {
        &&& self.nmt.spec_node() == self.node_id.spec_raw()
        &&& self.heartbeat@.node == self.node_id.spec_raw()
        &&& self.sdo@.node == self.node_id.spec_raw()
        &&& self.sdo.wf()
        &&& self.sdo@.timeout_us == DEFAULT_SDO_SERVER_TIMEOUT_US
        &&& 1 <= self.node_id.spec_raw() <= 127
        &&& forall|i: int|
            0 <= i < MAX_PDOS && (#[trigger] self.tpdos@[i]) is Some ==> self.tpdos@[i]->0.wf()
        &&& forall|i: int|
            0 <= i < MAX_PDOS && (#[trigger] self.rpdos@[i]) is Some ==> self.rpdos@[i]->0.wf()
    }

    /// What the state of a well-formed node is known to be.
    pub proof fn lemma_wf(&self)
        requires
            self.wf(),
        ensures
            valid_node(self@),
    {
        assert forall|slot: int|
            0 <= slot < self@.tpdos.len() && (#[trigger] self@.tpdos[slot]) is Some implies
            event_timer_used(self@.tpdos[slot]->0) by {
            assert(self.tpdos@[slot] is Some);
            self.tpdos@[slot]->0.lemma_wf();
        }
        self.sdo.lemma_wf();
    }

    /// Create a node in the `Initializing` state. Communication parameters
    /// (producer heartbeat time, 0x1017, and the PDO configuration) are taken
    /// from the OD.
    pub fn new(node_id: NodeId, od: OD) -> (node: Self)
        ensures
            node.wf(),
            node@ == new_node(node_id.spec_raw(), od),
    {
        let heartbeat_ms: u16 = match read_u16(&od, OD_HEARTBEAT_TIME, 0) {
            Some(ms) => ms,
            None => 0,
        };
        let tpdos = [
            Tpdo::from_od(&od, 0),
            Tpdo::from_od(&od, 1),
            Tpdo::from_od(&od, 2),
            Tpdo::from_od(&od, 3),
        ];
        let rpdos = [
            Rpdo::from_od(&od, 0),
            Rpdo::from_od(&od, 1),
            Rpdo::from_od(&od, 2),
            Rpdo::from_od(&od, 3),
        ];
        let node = Self {
            node_id,
            nmt: NmtSlave::new(node_id),
            heartbeat: HeartbeatProducer::new(node_id, heartbeat_ms),
            sdo: SdoServer::new(node_id),
            tpdos,
            rpdos,
            od,
        };
        proof {
            use_type_invariant(&node_id);
        }
        assert(node@ =~= new_node(node_id.spec_raw(), od));
        node
    }

    /// The node's id.
    pub fn node_id(&self) -> (id: NodeId)
        ensures
            id.spec_raw() == self@.node,
    {
        self.node_id
    }

    /// Current NMT state.
    pub fn nmt_state(&self) -> (state: NmtState)
        ensures
            state == self@.nmt,
    {
        self.nmt.state()
    }

    /// The node's object dictionary.
    pub fn od(&self) -> (od: &OD)
        ensures
            *od == self@.od,
    {
        &self.od
    }

    /// Mutable access to the object dictionary for the application. After
    /// changing communication parameters (e.g. 0x1017), call
    /// [`refresh_comm_config`](Self::refresh_comm_config).
    pub fn od_mut(&mut self) -> (od: &mut OD)
        requires
            old(self).wf(),
        ensures
            *od == old(self)@.od,
            final(self).wf(),
            final(self)@ == (NodeState { od: *final(od), ..old(self)@ }),
    {
        &mut self.od
    }

    /// Take the object dictionary out of a node that is given up.
    pub fn into_od(self) -> (od: OD)
        ensures
            od == self@.od,
    {
        self.od
    }

    /// Re-read communication parameters from the OD (heartbeat time). Called
    /// automatically for SDO writes; needed only after direct OD writes by
    /// the application.
    pub fn refresh_comm_config(&mut self)
        requires
            old(self).wf(),
        ensures
            final(self).wf(),
            final(self)@ == (NodeState {
                heartbeat: refreshed(old(self)@.heartbeat, old(self)@.od),
                ..old(self)@
            }),
    {
        if let Some(ms) = read_u16(&self.od, OD_HEARTBEAT_TIME, 0) {
            self.heartbeat.set_period_ms(ms);
        }
    }

    /// Request transmission of the event-driven TPDO in `slot` at the next
    /// opportunity. Slots that do not exist or are not configured are
    /// ignored.
    pub fn tpdo_request(&mut self, slot: usize)
        requires
            old(self).wf(),
        ensures
            final(self).wf(),
            slot < MAX_PDOS ==> final(self)@ == (NodeState {
                tpdos: old(self)@.tpdos.update(
                    slot as int,
                    requested(old(self)@.tpdos[slot as int]),
                ),
                ..old(self)@
            }),
            slot >= MAX_PDOS ==> final(self)@ == old(self)@,
    {
        if slot < MAX_PDOS {
            if let Some(tpdo) = &mut self.tpdos[slot] {
                tpdo.request();
            }
        }
    }

    /// Finish initialization: emits the boot-up message and enters
    /// pre-operational. Call once after creating the node (and after every
    /// communication reset).
    pub fn start<T: TxSink>(&mut self, now: Micros, tx: &mut T)
        requires
            old(self).wf(),
        ensures
            final(self).wf(),
            final(self)@ == (NodeState {
                nmt: NmtState::PreOperational,
                heartbeat: ProducerState { last_sent: Some(now), ..old(self)@.heartbeat },
                ..old(self)@
            }),
            final(tx).sent() == old(tx).sent().push(heartbeat_frame(old(self)@.node, 0x00)),
    {
        self.heartbeat.send_boot_up(now, tx);
        self.nmt.finish_boot();
    }

    /// Feed one received CAN frame into the node. Returns a reset request
    /// the application must carry out, if any.
    pub fn on_frame<T: TxSink>(&mut self, frame: &CanFrame, now: Micros, tx: &mut T) -> (reset: Option<
        ResetCommand,
    >)
        requires
            old(self).wf(),
        ensures
            final(self).wf(),
            exists|frames: Seq<FrameView>|
                final(tx).sent() == old(tx).sent() + frames && #[trigger] node_receives(
                    old(self)@,
                    frame@,
                    now,
                    final(self)@,
                    frames,
                    reset,
                ),
    {
        let ghost pre = self@;
        let ghost sent = tx.sent();
        let ghost none = Seq::<FrameView>::empty();
        assert(sent + none =~= sent);
        let id: u16 = frame.id();
        if id == cob::NMT_SERVICE {
            let reset = match self.nmt.on_nmt_frame(frame.data()) {
                Some(NmtResetRequest::Communication) => Some(ResetCommand::Communication),
                Some(NmtResetRequest::Node) => Some(ResetCommand::Node),
                None => None,
            };
            assert(node_receives(pre, frame@, now, self@, none, reset));
            return reset;
        }
        if id == self.sdo.request_cob_id() && self.nmt.state().sdo_active() {
            let event = self.sdo.on_frame(frame, now, &mut self.od, tx);
            let ghost step = server_receives(pre.sdo, SDO_BUFFER as nat, pre.od, frame@, now);
            let ghost served = NodeState { sdo: step.next, od: self.od, ..pre };
            assert(self@ =~= served);
            if let Some(SdoServerEvent::ObjectWritten { index, sub }) = event {
                if index == OD_HEARTBEAT_TIME && sub == 0 {
                    self.refresh_comm_config();
                }
                self.trigger_tpdos(index, sub);
            }
            assert(self@ =~= after_write(served, step.written));
            assert(node_receives(pre, frame@, now, self@, step.frames, None));
            return None;
        }
        if self.nmt.state().pdo_active() {
            self.receive_pdo(frame);
        }
        assert(self@ =~= NodeState { od: self.od, ..pre });
        assert(node_receives(pre, frame@, now, self@, none, None));
        None
    }

    /// Request every TPDO that maps the object `index:sub`.
    fn trigger_tpdos(&mut self, index: u16, sub: u8)
        requires
            old(self).wf(),
        ensures
            final(self).wf(),
            final(self)@ == (NodeState {
                tpdos: old(self)@.tpdos.map_values(
                    |slot: Option<TpdoState>| triggered(slot, index, sub),
                ),
                ..old(self)@
            }),
    {
        let ghost pre = self@;
        let mut i: usize = 0;
        while i < MAX_PDOS
            invariant
                self.wf(),
                i <= MAX_PDOS,
                pre.tpdos.len() == MAX_PDOS,
                self@.tpdos.len() == MAX_PDOS,
                self@ == (NodeState { tpdos: self@.tpdos, ..pre }),
                forall|k: int|
                    0 <= k < i ==> self@.tpdos[k] == triggered(#[trigger] pre.tpdos[k], index, sub),
                forall|k: int| i <= k < MAX_PDOS ==> self@.tpdos[k] == #[trigger] pre.tpdos[k],
            decreases MAX_PDOS - i,
        {
            let ghost before = self@;
            assert(self@.tpdos[i as int] == pre.tpdos[i as int]);
            if let Some(tpdo) = &mut self.tpdos[i] {
                if tpdo.maps(index, sub) {
                    tpdo.request();
                }
            }
            assert(self@.tpdos =~= before.tpdos.update(
                i as int,
                triggered(before.tpdos[i as int], index, sub),
            ));
            i += 1;
        }
        assert(self@.tpdos =~= pre.tpdos.map_values(
            |slot: Option<TpdoState>| triggered(slot, index, sub),
        ));
    }

    /// Hand a received frame to every RPDO.
    fn receive_pdo(&mut self, frame: &CanFrame)
        requires
            old(self).wf(),
        ensures
            final(self).wf(),
            final(self)@ == (NodeState { od: final(self)@.od, ..old(self)@ }),
            rpdos_step(old(self)@.rpdos, frame@, old(self)@.od, final(self)@.od),
    {
        let ghost pre = self@;
        let mut i: usize = 0;
        while i < MAX_PDOS
            invariant
                self.wf(),
                i <= MAX_PDOS,
                pre.rpdos.len() == MAX_PDOS,
                self@ == (NodeState { od: self@.od, ..pre }),
                rpdos_step(pre.rpdos.take(i as int), frame@, pre.od, self@.od),
            decreases MAX_PDOS - i,
        {
            let ghost mid = self@.od;
            if let Some(rpdo) = &self.rpdos[i] {
                rpdo.on_frame(frame, &mut self.od);
            }
            proof {
                let slots = pre.rpdos.take(i + 1);
                assert(slots.drop_last() =~= pre.rpdos.take(i as int));
                assert(slots.last() == rpdo_view(self.rpdos@[i as int]));
                assert(rpdo_slot_step(slots.last(), frame@, mid, self@.od));
            }
            i += 1;
        }
        assert(pre.rpdos.take(i as int) =~= pre.rpdos);
    }

    /// Run time-driven work: the heartbeat producer, the SDO server's timeout
    /// and the TPDOs. Returns the next deadline at which `process` wants to
    /// run again, if any.
    pub fn process<T: TxSink>(&mut self, now: Micros, tx: &mut T) -> (next: Option<Micros>)
        requires
            old(self).wf(),
            node_times_fit(old(self)@, now),
        ensures
            final(self).wf(),
            final(self)@ == node_next(old(self)@, now),
            final(tx).sent() == old(tx).sent() + node_frames(old(self)@, now),
            next == node_deadline(old(self)@, now),
    {
        let ghost pre = self@;
        let ghost sent = tx.sent();
        let state = self.nmt.state();
        let operational = state.pdo_active();
        let mut next = self.heartbeat.process(state, now, tx);
        self.sdo.poll(now, tx);
        next = earliest(next, self.sdo.next_deadline());
        let ghost first = next;
        let ghost early = heartbeat_frames(pre.heartbeat, pre.nmt, now) + server_polled(
            pre.sdo,
            now,
        ).frames;
        let ghost base = NodeState {
            heartbeat: heartbeat_next(pre.heartbeat, now),
            sdo: server_polled(pre.sdo, now).next,
            ..pre
        };
        assert(self@ =~= base);
        let mut i: usize = 0;
        proof {
            assert(pre.tpdos.take(0) =~= Seq::empty());
            assert(tx.sent() =~= sent + early + slots_frames(
                pre.tpdos.take(0),
                pre.od,
                operational,
                now,
            ));
        }
        while i < MAX_PDOS
            invariant
                self.wf(),
                i <= MAX_PDOS,
                node_times_fit(pre, now),
                operational == (pre.nmt is Operational),
                pre.tpdos.len() == MAX_PDOS,
                self@.tpdos.len() == MAX_PDOS,
                base.od == pre.od,
                self@ == (NodeState { tpdos: self@.tpdos, ..base }),
                forall|k: int|
                    0 <= k < i ==> self@.tpdos[k] == slot_next(
                        #[trigger] pre.tpdos[k],
                        operational,
                        now,
                    ),
                forall|k: int| i <= k < MAX_PDOS ==> self@.tpdos[k] == #[trigger] pre.tpdos[k],
                tx.sent() == sent + early + slots_frames(
                    pre.tpdos.take(i as int),
                    pre.od,
                    operational,
                    now,
                ),
                next == slots_deadline(self@.tpdos.take(i as int), operational, first),
            decreases MAX_PDOS - i,
        {
            let ghost before = self@;
            let ghost slots = pre.tpdos.take(i + 1);
            let ghost slot = pre.tpdos[i as int];
            assert(before.tpdos[i as int] == slot);
            proof {
                assert(slots.drop_last() =~= pre.tpdos.take(i as int));
                assert(slots.last() == slot);
            }
            let mut deadline: Option<Micros> = None;
            if let Some(tpdo) = &mut self.tpdos[i] {
                deadline = tpdo.process(&self.od, operational, now, tx);
            }
            next = earliest(next, deadline);
            proof {
                assert(self@.tpdos =~= before.tpdos.update(
                    i as int,
                    slot_next(slot, operational, now),
                ));
                let done = self@.tpdos.take(i + 1);
                assert(done.drop_last() =~= before.tpdos.take(i as int));
                assert(done.last() == slot_next(slot, operational, now));
                assert(tx.sent() =~= sent + early + slots_frames(slots, pre.od, operational, now));
            }
            i += 1;
        }
        proof {
            assert(pre.tpdos.take(i as int) =~= pre.tpdos);
            assert(self@.tpdos.take(i as int) =~= self@.tpdos);
            assert(self@.tpdos =~= node_next(pre, now).tpdos);
            assert(sent + early + slots_frames(pre.tpdos, pre.od, operational, now) =~= sent
                + node_frames(pre, now));
        }
        next
    }
}

/// A node that is stopped, or not started yet, reacts to NMT frames only.
pub proof fn law_stopped_node_is_silent<OD: ObjectDictionary>(
    pre: NodeState<OD>,
    frame: FrameView,
    now: Micros,
    post: NodeState<OD>,
    frames: Seq<FrameView>,
    reset: Option<ResetCommand>,
)
    requires
        node_receives(pre, frame, now, post, frames, reset),
        pre.nmt is Stopped || pre.nmt is Initializing,
        frame.id != cob::NMT_SERVICE,
    ensures
        post == pre,
        frames.len() == 0,
        reset is None,
{
}

/// PDOs are exchanged in the operational state only: elsewhere a received
/// frame that is neither NMT nor SDO changes nothing, and processing the node
/// sends no PDO.
pub proof fn law_pdos_need_operational<OD: ObjectDictionary>(
    pre: NodeState<OD>,
    frame: FrameView,
    now: Micros,
    post: NodeState<OD>,
    frames: Seq<FrameView>,
    reset: Option<ResetCommand>,
)
    requires
        pre.nmt !is Operational,
    ensures
        node_receives(pre, frame, now, post, frames, reset) && frame.id != cob::NMT_SERVICE
            && frame.id != cob_id(Function::SdoRx, pre.node) ==> post == pre && frames.len() == 0,
        slots_frames(pre.tpdos, pre.od, false, now) == Seq::<FrameView>::empty(),
        node_frames(pre, now) == heartbeat_frames(pre.heartbeat, pre.nmt, now) + server_polled(
            pre.sdo,
            now,
        ).frames,
{
    lemma_no_slot_sends(pre.tpdos, pre.od, now);
    assert(node_frames(pre, now) =~= heartbeat_frames(pre.heartbeat, pre.nmt, now) + server_polled(
        pre.sdo,
        now,
    ).frames);
}

proof fn lemma_no_slot_sends<OD: ObjectDictionary>(
    tpdos: Seq<Option<TpdoState>>,
    od: OD,
    now: Micros,
)
    ensures
        slots_frames(tpdos, od, false, now) == Seq::<FrameView>::empty(),
    decreases tpdos.len(),
{
    if tpdos.len() > 0 {
        lemma_no_slot_sends(tpdos.drop_last(), od, now);
    }
}

/// An accepted SDO write to the producer heartbeat time is in force as soon
/// as the request was handled.
pub proof fn law_heartbeat_write_takes_effect<OD: ObjectDictionary>(
    pre: NodeState<OD>,
    frame: FrameView,
    now: Micros,
    post: NodeState<OD>,
    frames: Seq<FrameView>,
    reset: Option<ResetCommand>,
)
    requires
        node_receives(pre, frame, now, post, frames, reset),
        serves(pre, frame),
        pre.node >= 1,
        ({
            let written = server_receives(
                pre.sdo,
                SDO_BUFFER as nat,
                pre.od,
                frame,
                now,
            ).written;
            written is Some && written->0.index == OD_HEARTBEAT_TIME && written->0.sub == 0
        }),
        configured_period(post.od) is Some,
    ensures
        post.heartbeat.period_us == configured_period(post.od)->0,
        post.heartbeat.last_sent == pre.heartbeat.last_sent,
{
}

/// An accepted SDO write requests exactly the TPDOs that map the object.
pub proof fn law_write_triggers_mapped_tpdos<OD: ObjectDictionary>(
    pre: NodeState<OD>,
    frame: FrameView,
    now: Micros,
    post: NodeState<OD>,
    frames: Seq<FrameView>,
    reset: Option<ResetCommand>,
    slot: int,
)
    requires
        node_receives(pre, frame, now, post, frames, reset),
        serves(pre, frame),
        pre.node >= 1,
        0 <= slot < pre.tpdos.len(),
        pre.tpdos[slot] is Some,
        server_receives(pre.sdo, SDO_BUFFER as nat, pre.od, frame, now).written is Some,
    ensures
        ({
            let written = server_receives(
                pre.sdo,
                SDO_BUFFER as nat,
                pre.od,
                frame,
                now,
            ).written->0;
            post.tpdos[slot] == Some(
                TpdoState {
                    send_request: pre.tpdos[slot]->0.send_request || maps_object(
                        pre.tpdos[slot]->0.mapping,
                        written.index,
                        written.sub,
                    ),
                    ..pre.tpdos[slot]->0
                },
            )
        }),
{
}

/// NMT frames never touch the dictionary, and only NMT frames change the NMT
/// state or ask for a reset.
pub proof fn law_nmt_state_is_driven_by_nmt_frames<OD: ObjectDictionary>(
    pre: NodeState<OD>,
    frame: FrameView,
    now: Micros,
    post: NodeState<OD>,
    frames: Seq<FrameView>,
    reset: Option<ResetCommand>,
)
    requires
        node_receives(pre, frame, now, post, frames, reset),
    ensures
        frame.id == cob::NMT_SERVICE ==> post.od == pre.od && frames.len() == 0,
        frame.id != cob::NMT_SERVICE ==> post.nmt == pre.nmt && reset is None,
{
}

/// A new node is valid, and it stays so whatever frames it receives, whenever
/// it is processed and whichever TPDO is requested.
pub proof fn law_nodes_stay_valid<OD: ObjectDictionary>(
    node: u8,
    od: OD,
    pre: NodeState<OD>,
    frame: FrameView,
    now: Micros,
    post: NodeState<OD>,
    frames: Seq<FrameView>,
    reset: Option<ResetCommand>,
    slot: int,
)
    requires
        1 <= node <= 127,
        valid_node(pre),
        node_receives(pre, frame, now, post, frames, reset),
        0 <= slot < MAX_PDOS,
    ensures
        valid_node(new_node(node, od)),
        valid_node(post),
        valid_node(node_next(pre, now)),
        valid_node(
            NodeState { tpdos: pre.tpdos.update(slot, requested(pre.tpdos[slot])), ..pre },
        ),
{
    law_every_request_is_answered(pre.sdo, SDO_BUFFER as nat, pre.od, frame, now);
    assert forall|k: int| 0 <= k < post.tpdos.len() && (#[trigger] post.tpdos[k]) is Some implies
        event_timer_used(post.tpdos[k]->0) by {
        assert(pre.tpdos[k] is Some);
    }
    let next = node_next(pre, now);
    assert forall|k: int| 0 <= k < next.tpdos.len() && (#[trigger] next.tpdos[k]) is Some implies
        event_timer_used(next.tpdos[k]->0) by {
        assert(pre.tpdos[k] is Some);
    }
}

/// Processing a node a second time at the same time changes nothing and sends
/// nothing, so a run loop may process it as often as it likes.
pub proof fn law_processing_is_idempotent<OD: ObjectDictionary>(n: NodeState<OD>, now: Micros)
    requires
        valid_node(n),
        node_times_fit(n, now),
    ensures
        node_next(node_next(n, now), now) == node_next(n, now),
        node_frames(node_next(n, now), now) == Seq::<FrameView>::empty(),
{
    let next = node_next(n, now);
    let operational = n.nmt is Operational;
    assert forall|slot: int| 0 <= slot < next.tpdos.len() implies slot_next(
        #[trigger] next.tpdos[slot],
        operational,
        now,
    ) == next.tpdos[slot] && slot_frames(next.tpdos[slot], n.od, operational, now).len() == 0 by {
        assert(next.tpdos[slot] == slot_next(n.tpdos[slot], operational, now));
        if n.tpdos[slot] is Some {
            law_tpdo_processing_is_idempotent(n.tpdos[slot]->0, n.od, operational, now);
        }
    }
    lemma_quiet_slots(next.tpdos, n.od, operational, now);
    assert(node_next(next, now).tpdos =~= next.tpdos);
    assert(node_frames(next, now) =~= Seq::<FrameView>::empty());
}

/// Slots that send nothing send nothing together.
pub proof fn lemma_quiet_slots<OD: ObjectDictionary>(
    tpdos: Seq<Option<TpdoState>>,
    od: OD,
    operational: bool,
    now: Micros,
)
    requires
        forall|slot: int|
            0 <= slot < tpdos.len() ==> slot_frames(
                #[trigger] tpdos[slot],
                od,
                operational,
                now,
            ).len() == 0,
    ensures
        slots_frames(tpdos, od, operational, now) == Seq::<FrameView>::empty(),
    decreases tpdos.len(),
{
    if tpdos.len() > 0 {
        let rest = tpdos.drop_last();
        assert forall|slot: int| 0 <= slot < rest.len() implies slot_frames(
            #[trigger] rest[slot],
            od,
            operational,
            now,
        ).len() == 0 by {
            assert(rest[slot] == tpdos[slot]);
        }
        lemma_quiet_slots(rest, od, operational, now);
        assert(slot_frames(tpdos[tpdos.len() - 1], od, operational, now).len() == 0);
    }
}

/// A processed node asks to be processed again in the future, so a run loop
/// that sleeps until the deadline never spins.
pub proof fn law_node_deadline_is_ahead<OD: ObjectDictionary>(n: NodeState<OD>, now: Micros)
    requires
        valid_node(n),
        node_times_fit(n, now),
    ensures
        node_deadline(n, now) is Some ==> node_deadline(n, now)->0 > now,
{
    let next = node_next(n, now);
    let operational = n.nmt is Operational;
    let heartbeat = match heartbeat_deadline(n.heartbeat, now) {
        Some(at) => Some(at as u64),
        None => None,
    };
    law_heartbeat_deadline_is_ahead(n.heartbeat, now);
    assert forall|slot: int|
        0 <= slot < next.tpdos.len() && (#[trigger] next.tpdos[slot]) is Some implies {
        let deadline = tpdo_deadline(next.tpdos[slot]->0, operational);
        deadline is Some ==> deadline->0 > now
    } by {
        assert(n.tpdos[slot] is Some);
        law_tpdo_deadline_is_ahead(n.tpdos[slot]->0, operational, now);
    }
    lemma_slots_deadline_ahead(
        next.tpdos,
        operational,
        earlier(heartbeat, sdo_deadline(next.sdo)),
        now,
    );
}

proof fn lemma_slots_deadline_ahead(
    tpdos: Seq<Option<TpdoState>>,
    operational: bool,
    other: Option<Micros>,
    now: Micros,
)
    requires
        other is Some ==> other->0 > now,
        forall|slot: int|
            0 <= slot < tpdos.len() && (#[trigger] tpdos[slot]) is Some ==> {
                let deadline = tpdo_deadline(tpdos[slot]->0, operational);
                deadline is Some ==> deadline->0 > now
            },
    ensures
        ({
            let deadline = slots_deadline(tpdos, operational, other);
            deadline is Some ==> deadline->0 > now
        }),
    decreases tpdos.len(),
{
    if tpdos.len() > 0 {
        let rest = tpdos.drop_last();
        assert forall|slot: int|
            0 <= slot < rest.len() && (#[trigger] rest[slot]) is Some implies {
            let deadline = tpdo_deadline(rest[slot]->0, operational);
            deadline is Some ==> deadline->0 > now
        } by {
            assert(tpdos[slot] is Some);
        }
        lemma_slots_deadline_ahead(rest, operational, other, now);
        assert(tpdos.last() == tpdos[tpdos.len() - 1]);
    }
}

/// Read a u16 entry from an OD, `None` if absent or unreadable.
fn read_u16<OD: ObjectDictionary>(od: &OD, index: u16, sub: u8) -> (value: Option<u16>)
    ensures
        value is Some <==> value_of_len(*od, index, sub, 2) is Some,
        value is Some ==> value->0 == le_value(value_of_len(*od, index, sub, 2)->0),
{
    match get::<2, OD>(od, index, sub) {
        Some(b) => {
            assert(b@ =~= seq![b@[0], b@[1]]);
            Some(u16_from_le(b[0], b[1]))
        },
        None => None,
    }
}

} // verus!
