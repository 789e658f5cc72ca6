//! Nodes: when they act, and what they answer.

use crate::bytes::{le_bytes, lemma_le_2, lemma_le_4, lemma_value_2};
use crate::frame::FrameView;
use crate::heartbeat::{heartbeat_deadline, heartbeat_frames, law_heartbeat_is_cyclic};
use crate::heartbeat::ProducerState;
use crate::nmt::{state_after_frame, state_byte, NmtState};
use crate::node::{after_write, lemma_quiet_slots, new_node, node_deadline, node_frames};
use crate::node::{node_next, node_receives, node_times_fit, refreshed, requested, rpdo_slot_step};
use crate::node::{rpdos_step, sdo_deadline, slot_frames, slot_next, slots_deadline, slots_frames};
use crate::node::{valid_node, NodeState, ResetCommand};
use crate::od::{ObjectDictionary, OdError};
use crate::pdo::{configured_rpdo, configured_tpdo, earlier, law_tpdo_deadline_is_precise};
use crate::pdo::{pdo_payload, rpdo_step, tpdo_deadline, tpdo_frames, tpdo_next, tpdo_sends};
use crate::pdo::{RpdoState, TpdoState};
use crate::sdo::server::{od_follows, server_polled, server_receives, AcceptedWrite};
use crate::sdo::wire::object_payload;
use crate::Micros;
use vstd::prelude::*;

verus! {

/// The earlier of two deadlines is one of them, and neither comes before it.
pub proof fn law_earlier_deadline_comes_first(a: Option<Micros>, b: Option<Micros>)
    ensures
        earlier(a, b) == a || earlier(a, b) == b,
        a is Some ==> earlier(a, b) is Some && earlier(a, b)->0 <= a->0,
        b is Some ==> earlier(a, b) is Some && earlier(a, b)->0 <= b->0,
{
}

/// The deadline of TPDO slots is no later than that of any of them, and it is
/// the deadline of one of them, if it is not the other one.
proof fn lemma_slots_deadline(
    tpdos: Seq<Option<TpdoState>>,
    operational: bool,
    other: Option<Micros>,
) -> (from: int)
    ensures
        ({
            let all = slots_deadline(tpdos, operational, other);
            &&& other is Some ==> all is Some && all->0 <= other->0
            &&& forall|slot: int|
                0 <= slot < tpdos.len() && (#[trigger] tpdos[slot]) is Some && tpdo_deadline(
                    tpdos[slot]->0,
                    operational,
                ) is Some ==> all is Some && all->0 <= tpdo_deadline(tpdos[slot]->0, operational)->0
            &&& all == other || (0 <= from < tpdos.len() && tpdos[from] is Some && tpdo_deadline(
                tpdos[from]->0,
                operational,
            ) == all)
        }),
    decreases tpdos.len(),
{
    if tpdos.len() == 0 {
        0
    } else {
        let rest = tpdos.drop_last();
        let last = tpdos.last();
        let from = lemma_slots_deadline(rest, operational, other);
        let before = slots_deadline(rest, operational, other);
        let own = match last {
            Some(t) => tpdo_deadline(t, operational),
            None => None,
        };
        law_earlier_deadline_comes_first(before, own);
        let all = slots_deadline(tpdos, operational, other);
        assert(all == earlier(before, own));
        assert forall|slot: int|
            0 <= slot < tpdos.len() && (#[trigger] tpdos[slot]) is Some && tpdo_deadline(
                tpdos[slot]->0,
                operational,
            ) is Some implies all is Some && all->0 <= tpdo_deadline(
            tpdos[slot]->0,
            operational,
        )->0 by {
            if slot < rest.len() {
                assert(rest[slot] == tpdos[slot]);
            }
        }
        if all == before {
            if 0 <= from < rest.len() {
                assert(rest[from] == tpdos[from]);
            }
            from
        } else {
            tpdos.len() - 1
        }
    }
}

/// A node that was processed at `now` and receives nothing misses nothing
/// before its deadline: until then it sends nothing, however often it is
/// processed, and without a deadline it sends nothing at all.
pub proof fn law_node_deadline_misses_nothing<OD: ObjectDictionary>(
    n: NodeState<OD>,
    now: Micros,
    later: Micros,
)
    requires
        valid_node(n),
        node_times_fit(n, now),
        now <= later,
        node_deadline(n, now) is None || later < node_deadline(n, now)->0,
    ensures
        node_frames(node_next(n, now), later) == Seq::<FrameView>::empty(),
{
    let next = node_next(n, now);
    let operational = n.nmt is Operational;
    let heartbeat = match heartbeat_deadline(n.heartbeat, now) {
        Some(at) => Some(at as u64),
        None => None,
    };
    let sdo = sdo_deadline(next.sdo);
    law_earlier_deadline_comes_first(heartbeat, sdo);
    lemma_slots_deadline(next.tpdos, operational, earlier(heartbeat, sdo));
    if n.heartbeat.period_us > 0 {
        law_heartbeat_is_cyclic(n.heartbeat, now, later);
    }
    assert(heartbeat_frames(next.heartbeat, n.nmt, later).len() == 0);
    assert(server_polled(next.sdo, later).frames.len() == 0);
    assert forall|slot: int| 0 <= slot < next.tpdos.len() implies slot_frames(
        #[trigger] next.tpdos[slot],
        n.od,
        operational,
        later,
    ).len() == 0 by {
        assert(next.tpdos[slot] == slot_next(n.tpdos[slot], operational, now));
        if n.tpdos[slot] is Some && n.tpdos[slot]->0.transmission >= 254 && operational {
            law_tpdo_deadline_is_precise(n.tpdos[slot]->0, operational, now, later);
        }
    }
    lemma_quiet_slots(next.tpdos, n.od, operational, later);
    assert(node_frames(next, later) =~= Seq::<FrameView>::empty());
}

/// A node does not wake in vain: at its deadline it has something to send.
pub proof fn law_node_deadline_is_not_early<OD: ObjectDictionary>(
    n: NodeState<OD>,
    now: Micros,
    later: Micros,
)
    requires
        valid_node(n),
        node_times_fit(n, now),
        node_deadline(n, now) is Some,
        now <= later,
        later == node_deadline(n, now)->0,
    ensures
        node_frames(node_next(n, now), later).len() > 0,
{
    let next = node_next(n, now);
    let operational = n.nmt is Operational;
    let heartbeat = match heartbeat_deadline(n.heartbeat, now) {
        Some(at) => Some(at as u64),
        None => None,
    };
    let sdo = sdo_deadline(next.sdo);
    let other = earlier(heartbeat, sdo);
    law_earlier_deadline_comes_first(heartbeat, sdo);
    let from = lemma_slots_deadline(next.tpdos, operational, other);
    let all = slots_deadline(next.tpdos, operational, other);
    if all == other {
        if other == heartbeat {
            law_heartbeat_is_cyclic(n.heartbeat, now, later);
            assert(heartbeat_frames(next.heartbeat, n.nmt, later).len() == 1);
        } else {
            assert(server_polled(next.sdo, later).frames.len() == 1);
        }
    } else {
        assert(next.tpdos[from] == slot_next(n.tpdos[from], operational, now));
        law_tpdo_deadline_is_precise(n.tpdos[from]->0, operational, now, later);
        lemma_slot_is_sent(next.tpdos, n.od, operational, later, from);
    }
}

/// What a slot transmits is among what all slots transmit.
proof fn lemma_slot_is_sent<OD: ObjectDictionary>(
    tpdos: Seq<Option<TpdoState>>,
    od: OD,
    operational: bool,
    now: Micros,
    slot: int,
) -> (at: int)
    requires
        0 <= slot < tpdos.len(),
        slot_frames(tpdos[slot], od, operational, now).len() > 0,
    ensures
        0 <= at < slots_frames(tpdos, od, operational, now).len(),
        slots_frames(tpdos, od, operational, now)[at] == slot_frames(
            tpdos[slot],
            od,
            operational,
            now,
        )[0],
    decreases tpdos.len(),
{
    let rest = slots_frames(tpdos.drop_last(), od, operational, now);
    if slot == tpdos.len() - 1 {
        rest.len() as int
    } else {
        assert(tpdos.drop_last()[slot] == tpdos[slot]);
        lemma_slot_is_sent(tpdos.drop_last(), od, operational, now, slot)
    }
}

/// What all slots transmit comes from one of them.
proof fn lemma_slot_of_frame<OD: ObjectDictionary>(
    tpdos: Seq<Option<TpdoState>>,
    od: OD,
    operational: bool,
    now: Micros,
    at: int,
) -> (slot: int)
    requires
        0 <= at < slots_frames(tpdos, od, operational, now).len(),
    ensures
        0 <= slot < tpdos.len(),
        slot_frames(tpdos[slot], od, operational, now) == seq![
            slots_frames(tpdos, od, operational, now)[at],
        ],
    decreases tpdos.len(),
{
    let rest = slots_frames(tpdos.drop_last(), od, operational, now);
    if at < rest.len() {
        let slot = lemma_slot_of_frame(tpdos.drop_last(), od, operational, now, at);
        assert(tpdos.drop_last()[slot] == tpdos[slot]);
        slot
    } else {
        assert(slot_frames(tpdos.last(), od, operational, now) =~= seq![
            slots_frames(tpdos, od, operational, now)[at],
        ]);
        tpdos.len() - 1
    }
}

/// In the operational state, every TPDO that is event-driven, requested or at
/// its event deadline, and not inhibited, is among what the node sends when
/// it is processed, with its identifier and the payload of its mapping.
pub proof fn law_due_tpdos_are_sent<OD: ObjectDictionary>(
    n: NodeState<OD>,
    now: Micros,
    slot: int,
) -> (at: int)
    requires
        n.nmt is Operational,
        0 <= slot < n.tpdos.len(),
        n.tpdos[slot] is Some,
        n.tpdos[slot]->0.transmission >= 254,
        n.tpdos[slot]->0.send_request || (n.tpdos[slot]->0.event_deadline is Some && now
            >= n.tpdos[slot]->0.event_deadline->0),
        now >= n.tpdos[slot]->0.inhibit_until,
    ensures
        0 <= at < node_frames(n, now).len(),
        node_frames(n, now)[at] == (FrameView {
            id: n.tpdos[slot]->0.cob_id,
            data: pdo_payload(n.od, n.tpdos[slot]->0.mapping),
        }),
{
    let at = lemma_slot_is_sent(n.tpdos, n.od, true, now, slot);
    heartbeat_frames(n.heartbeat, n.nmt, now).len() as int + server_polled(
        n.sdo,
        now,
    ).frames.len() + at
}

/// Whatever a processed node sends is its heartbeat, the abort of its SDO
/// transfer, or the TPDO of one of its slots that is due.
pub proof fn law_nodes_send_nothing_else<OD: ObjectDictionary>(
    n: NodeState<OD>,
    now: Micros,
    at: int,
) -> (slot: int)
    requires
        valid_node(n),
        0 <= at < node_frames(n, now).len(),
    ensures
        ({
            let frame = node_frames(n, now)[at];
            ||| frame.id == 0x700 + n.node && frame.data == seq![state_byte(n.nmt)] && at == 0
                && n.heartbeat.period_us > 0
            ||| frame.id == 0x580 + n.node && frame.data == seq![
                0x80u8,
                (n.sdo.index % 0x100) as u8,
                (n.sdo.index / 0x100) as u8,
                n.sdo.sub,
                0x00,
                0x00,
                0x04,
                0x05,
            ] && n.sdo.phase !is Idle && now - n.sdo.since >= n.sdo.timeout_us
            ||| {
                &&& 0 <= slot < n.tpdos.len()
                &&& n.tpdos[slot] is Some
                &&& n.nmt is Operational
                &&& n.tpdos[slot]->0.transmission >= 254
                &&& now >= n.tpdos[slot]->0.inhibit_until
                &&& n.tpdos[slot]->0.send_request || (n.tpdos[slot]->0.event_deadline is Some && now
                    >= n.tpdos[slot]->0.event_deadline->0)
                &&& frame == (FrameView {
                    id: n.tpdos[slot]->0.cob_id,
                    data: pdo_payload(n.od, n.tpdos[slot]->0.mapping),
                })
            }
        }),
{
    let first = heartbeat_frames(n.heartbeat, n.nmt, now);
    let second = server_polled(n.sdo, now).frames;
    let frame = node_frames(n, now)[at];
    if at < first.len() {
        0
    } else if at < first.len() + second.len() {
        lemma_abort_payload(n.sdo.index, n.sdo.sub, 0x0504_0000);
        0
    } else {
        let k = at - first.len() - second.len();
        let slot = lemma_slot_of_frame(n.tpdos, n.od, n.nmt is Operational, now, k);
        assert(slots_frames(n.tpdos, n.od, n.nmt is Operational, now)[k] == frame);
        assert(seq![frame][0] == frame);
        slot
    }
}

/// The payload of an SDO abort, byte by byte.
pub proof fn lemma_abort_payload(index: u16, sub: u8, code: u32)
    ensures
        object_payload(0x80, index, sub, le_bytes(code as nat, 4)) == seq![
            0x80u8,
            (index % 0x100) as u8,
            (index / 0x100) as u8,
            sub,
            (code % 0x100) as u8,
            (code / 0x100 % 0x100) as u8,
            (code / 0x1_0000 % 0x100) as u8,
            (code / 0x100_0000) as u8,
        ],
{
    lemma_le_2(index as nat);
    lemma_le_4(code as nat);
    let c = code as nat;
    assert(c / 256 / 256 == c / 0x1_0000 && c / 256 / 256 / 256 == c / 0x100_0000);
    assert(object_payload(0x80, index, sub, le_bytes(code as nat, 4)) =~= seq![
        0x80u8,
        (index % 0x100) as u8,
        (index / 0x100) as u8,
        sub,
        (code % 0x100) as u8,
        (code / 0x100 % 0x100) as u8,
        (code / 0x1_0000 % 0x100) as u8,
        (code / 0x100_0000) as u8,
    ]);
}

/// A heartbeat goes out when the period since the last one has elapsed, and
/// not before: first of all that a processed node sends, on 0x700 and the
/// node id, with the one byte that stands for the state. A period of 0 turns
/// it off.
pub proof fn law_heartbeat_reports_the_state<OD: ObjectDictionary>(n: NodeState<OD>, now: Micros)
    requires
        valid_node(n),
        n.heartbeat.last_sent is Some,
        n.heartbeat.last_sent->0 <= now,
    ensures
        n.heartbeat.period_us > 0 && now - n.heartbeat.last_sent->0 >= n.heartbeat.period_us ==> {
            &&& node_frames(n, now).len() > 0
            &&& node_frames(n, now)[0] == (FrameView {
                id: (0x700 + n.node) as u16,
                data: seq![
                    match n.nmt {
                        NmtState::Initializing => 0u8,
                        NmtState::Stopped => 4u8,
                        NmtState::Operational => 5u8,
                        NmtState::PreOperational => 127u8,
                    },
                ],
            })
            &&& node_next(n, now).heartbeat.last_sent == Some(now)
        },
        n.heartbeat.period_us == 0 || now - n.heartbeat.last_sent->0 < n.heartbeat.period_us ==> {
            &&& heartbeat_frames(n.heartbeat, n.nmt, now).len() == 0
            &&& node_next(n, now).heartbeat == n.heartbeat
        },
        node_next(n, now).heartbeat.period_us == n.heartbeat.period_us,
        node_next(n, now).heartbeat.node == n.node,
{
}

/// A producer that has sent nothing yet sends its first heartbeat at once,
/// unless it is turned off.
pub proof fn law_first_heartbeat_is_sent_at_once(p: ProducerState, state: NmtState, now: Micros)
    requires
        p.last_sent is None,
        p.node <= 127,
    ensures
        p.period_us > 0 ==> heartbeat_frames(p, state, now) == seq![
            FrameView { id: (0x700 + p.node) as u16, data: seq![state_byte(state)] },
        ],
        p.period_us == 0 ==> heartbeat_frames(p, state, now).len() == 0,
{
}

/// The producer heartbeat time is two bytes at 0x1017:00, in milliseconds; a
/// node takes it from there when it is made and whenever it reads its
/// parameters again. A dictionary without it leaves the time as it was.
pub proof fn law_heartbeat_time_is_in_milliseconds<OD: ObjectDictionary>(
    od: OD,
    node: u8,
    p: ProducerState,
    raw: Seq<u8>,
)
    ensures
        od.spec_value(0x1017, 0) == Ok::<_, OdError>(raw) && raw.len() == 2 ==> {
            &&& new_node(node, od).heartbeat.period_us == 1000 * (raw[0] + 0x100 * raw[1])
            &&& refreshed(p, od).period_us == 1000 * (raw[0] + 0x100 * raw[1])
        },
        od.spec_value(0x1017, 0) is Err ==> {
            &&& new_node(node, od).heartbeat.period_us == 0
            &&& refreshed(p, od) == p
        },
        refreshed(p, od).node == p.node,
        refreshed(p, od).last_sent == p.last_sent,
{
    if raw.len() == 2 {
        lemma_value_2(raw);
    }
}

/// A new node waits to be started: it has its id throughout, its dictionary
/// as it was, a TPDO and an RPDO in each of the four slots whose parameters
/// configure one, no SDO transfer, and a second of patience for one.
pub proof fn law_new_nodes_follow_their_dictionary<OD: ObjectDictionary>(node: u8, od: OD, slot: int)
    requires
        0 <= slot < 4,
    ensures
        new_node(node, od).node == node,
        new_node(node, od).nmt is Initializing,
        new_node(node, od).od == od,
        new_node(node, od).heartbeat.node == node,
        new_node(node, od).heartbeat.last_sent is None,
        new_node(node, od).sdo.node == node,
        new_node(node, od).sdo.phase is Idle,
        new_node(node, od).sdo.timeout_us == 1_000_000,
        new_node(node, od).tpdos.len() == 4,
        new_node(node, od).rpdos.len() == 4,
        new_node(node, od).tpdos[slot] == configured_tpdo(od, slot as u16),
        new_node(node, od).rpdos[slot] == configured_rpdo(od, slot as u16),
{
}

/// After an accepted write, a TPDO is requested if one of its mapping entries
/// names the object, and stays as it was if none does; no other part of the
/// node but the heartbeat time is touched, and that only by its own object.
pub proof fn law_accepted_write_requests_mapped_tpdos<OD: ObjectDictionary>(
    n: NodeState<OD>,
    w: AcceptedWrite,
    slot: int,
    entry: int,
)
    requires
        0 <= slot < n.tpdos.len(),
    ensures
        ({
            let after = after_write(n, Some(w));
            &&& after.tpdos.len() == n.tpdos.len()
            &&& n.tpdos[slot] is None ==> after.tpdos[slot] is None
            &&& n.tpdos[slot] is Some && 0 <= entry < n.tpdos[slot]->0.mapping.len()
                && n.tpdos[slot]->0.mapping[entry].index == w.index
                && n.tpdos[slot]->0.mapping[entry].sub == w.sub ==> after.tpdos[slot] == Some(
                TpdoState { send_request: true, ..n.tpdos[slot]->0 },
            )
            &&& n.tpdos[slot] is Some && (forall|k: int|
                0 <= k < n.tpdos[slot]->0.mapping.len() ==> (
                #[trigger] n.tpdos[slot]->0.mapping[k]).index != w.index
                    || n.tpdos[slot]->0.mapping[k].sub != w.sub) ==> after.tpdos[slot]
                == n.tpdos[slot]
            &&& w.index != 0x1017 || w.sub != 0 ==> after.heartbeat == n.heartbeat
            &&& w.index == 0x1017 && w.sub == 0 ==> after.heartbeat == refreshed(
                n.heartbeat,
                n.od,
            )
            &&& after.node == n.node
            &&& after.nmt == n.nmt
            &&& after.sdo == n.sdo
            &&& after.rpdos == n.rpdos
            &&& after.od == n.od
        }),
{
}

/// The dictionaries between the slots that receive a frame.
proof fn lemma_slot_chain<OD: ObjectDictionary>(
    rpdos: Seq<Option<RpdoState>>,
    frame: FrameView,
    pre: OD,
    post: OD,
) -> (chain: Seq<OD>)
    requires
        rpdos_step(rpdos, frame, pre, post),
    ensures
        chain.len() == rpdos.len() + 1,
        chain[0] == pre,
        chain.last() == post,
        forall|slot: int|
            0 <= slot < rpdos.len() ==> rpdo_slot_step(
                #[trigger] rpdos[slot],
                frame,
                chain[slot],
                chain[slot + 1],
            ),
    decreases rpdos.len(),
{
    if rpdos.len() == 0 {
        seq![pre]
    } else {
        let mid = choose|mid: OD|
            rpdos_step(rpdos.drop_last(), frame, pre, mid) && #[trigger] rpdo_slot_step(
                rpdos.last(),
                frame,
                mid,
                post,
            );
        let before = lemma_slot_chain(rpdos.drop_last(), frame, pre, mid);
        let chain = before.push(post);
        assert forall|slot: int| 0 <= slot < rpdos.len() implies rpdo_slot_step(
            #[trigger] rpdos[slot],
            frame,
            chain[slot],
            chain[slot + 1],
        ) by {
            if slot < rpdos.len() - 1 {
                assert(rpdos.drop_last()[slot] == rpdos[slot]);
            }
        }
        chain
    }
}

/// In the operational state a frame that is neither an NMT command nor an SDO
/// request reaches every RPDO, one slot after the other.
pub proof fn law_every_rpdo_receives_the_frame<OD: ObjectDictionary>(
    pre: NodeState<OD>,
    frame: FrameView,
    now: Micros,
    post: NodeState<OD>,
    frames: Seq<FrameView>,
    reset: Option<ResetCommand>,
) -> (chain: Seq<OD>)
    requires
        valid_node(pre),
        node_receives(pre, frame, now, post, frames, reset),
        pre.nmt is Operational,
        frame.id != 0,
        frame.id != 0x600 + pre.node,
    ensures
        frames.len() == 0,
        reset is None,
        post == (NodeState { od: post.od, ..pre }),
        chain.len() == 5,
        chain[0] == pre.od,
        chain[4] == post.od,
        forall|slot: int|
            0 <= slot < 4 ==> match #[trigger] pre.rpdos[slot] {
                Some(r) => rpdo_step(r, frame, chain[slot], chain[slot + 1]),
                None => chain[slot + 1] == chain[slot],
            },
{
    lemma_slot_chain(pre.rpdos, frame, pre.od, post.od)
}

/// A request on 0x600 and the node id is handed to the SDO server in the
/// pre-operational and the operational state, and in no other; an NMT command
/// on identifier 0 is always taken.
pub proof fn law_requests_are_served_by_state<OD: ObjectDictionary>(
    pre: NodeState<OD>,
    frame: FrameView,
    now: Micros,
    post: NodeState<OD>,
    frames: Seq<FrameView>,
    reset: Option<ResetCommand>,
)
    requires
        valid_node(pre),
        node_receives(pre, frame, now, post, frames, reset),
    ensures
        frame.id == 0x600 + pre.node && (pre.nmt is PreOperational || pre.nmt is Operational)
            ==> {
            let step = server_receives(pre.sdo, 256, pre.od, frame, now);
            &&& frames == step.frames
            &&& post.sdo == step.next
            &&& od_follows(step.written, pre.od, post.od)
        },
        frame.id == 0x600 + pre.node && (pre.nmt is Stopped || pre.nmt is Initializing) ==> post
            == pre && frames.len() == 0,
        frame.id == 0 ==> post.nmt == state_after_frame(pre.nmt, frame.data, pre.node)
            && frames.len() == 0,
{
}

/// A command that is addressed to a node, or to all nodes, has its effect
/// whatever state the node is in: start, stop and enter pre-operational lead
/// to the state of that name, and the two resets are left to the application.
pub proof fn law_commands_lead_to_their_state<OD: ObjectDictionary>(
    pre: NodeState<OD>,
    byte: u8,
    address: u8,
    now: Micros,
    post: NodeState<OD>,
    frames: Seq<FrameView>,
    reset: Option<ResetCommand>,
)
    requires
        node_receives(
            pre,
            FrameView { id: 0, data: seq![byte, address] },
            now,
            post,
            frames,
            reset,
        ),
    ensures
        post == (NodeState { nmt: post.nmt, ..pre }),
        address == 0 || address == pre.node ==> {
            &&& byte == 1 ==> post.nmt is Operational && reset is None
            &&& byte == 2 ==> post.nmt is Stopped && reset is None
            &&& byte == 128 ==> post.nmt is PreOperational && reset is None
            &&& byte == 129 ==> post == pre && reset == Some(ResetCommand::Node)
            &&& byte == 130 ==> post == pre && reset == Some(ResetCommand::Communication)
            &&& byte != 1 && byte != 2 && byte != 128 && byte != 129 && byte != 130 ==> post == pre
                && reset is None
        },
        address != 0 && address != pre.node ==> post == pre && reset is None,
{
    assert(seq![byte, address].len() == 2 && seq![byte, address][0] == byte
        && seq![byte, address][1] == address);
}

/// Processing a node moves nothing but its timers: id, state, dictionary and
/// RPDOs stay, and every TPDO keeps its identifier, mapping and times.
pub proof fn law_processing_keeps_the_configuration<OD: ObjectDictionary>(
    n: NodeState<OD>,
    now: Micros,
    slot: int,
)
    requires
        0 <= slot < n.tpdos.len(),
    ensures
        ({
            let next = node_next(n, now);
            &&& next.node == n.node
            &&& next.nmt == n.nmt
            &&& next.od == n.od
            &&& next.rpdos == n.rpdos
            &&& next.tpdos.len() == n.tpdos.len()
            &&& next.tpdos[slot] is Some <==> n.tpdos[slot] is Some
            &&& n.tpdos[slot] is Some ==> {
                let before = n.tpdos[slot]->0;
                let after = next.tpdos[slot]->0;
                &&& after.cob_id == before.cob_id
                &&& after.transmission == before.transmission
                &&& after.inhibit_us == before.inhibit_us
                &&& after.event_us == before.event_us
                &&& after.mapping == before.mapping
            }
            &&& next.sdo.node == n.sdo.node
            &&& next.sdo.timeout_us == n.sdo.timeout_us
            &&& n.sdo.phase !is Idle && n.sdo.timeout_us > 0 && now - n.sdo.since
                < n.sdo.timeout_us ==> next.sdo == n.sdo
            &&& n.sdo.phase !is Idle && now - n.sdo.since >= n.sdo.timeout_us ==> next.sdo.phase
                is Idle
        }),
{
}

/// A request marks the TPDO of a slot for transmission and changes nothing
/// else of it; an empty slot stays empty.
pub proof fn law_requests_mark_the_tpdo(t: TpdoState)
    ensures
        requested(Some(t)) == Some(TpdoState { send_request: true, ..t }),
        requested(None) is None,
{
}

/// A TPDO that was requested after a transmission goes out again as soon as
/// the inhibit time has elapsed, and not before; one that is not event-driven
/// never goes out.
pub proof fn law_requested_tpdo_waits_for_the_inhibit_time<OD: ObjectDictionary>(
    t: TpdoState,
    od: OD,
    now: Micros,
    later: Micros,
    operational: bool,
)
    requires
        now <= later,
    ensures
        t.transmission >= 254 && tpdo_sends(t, now) && now + t.inhibit_us <= u64::MAX ==> {
            let after = TpdoState { send_request: true, ..tpdo_next(t, true, now) };
            tpdo_frames(after, od, true, later).len() == 1 <==> later - now >= t.inhibit_us
        },
        t.transmission < 254 ==> tpdo_frames(t, od, operational, now).len() == 0 && tpdo_next(
            t,
            operational,
            now,
        ) == t,
        t.transmission >= 254 && t.send_request && now >= t.inhibit_until ==> tpdo_frames(
            t,
            od,
            true,
            now,
        ).len() == 1,
        t.transmission >= 254 ==> {
            let idle = tpdo_next(t, false, now);
            idle.send_request && idle.inhibit_until == 0 && idle.event_deadline is None
        },
{
}

/// A TPDO that is processed and has nothing to send stays as it is, but that
/// its event timer starts if it did not run yet; after a transmission both
/// timers start anew and the request is served.
pub proof fn law_timers_start_with_the_transmission(t: TpdoState, now: Micros)
    requires
        t.transmission >= 254,
        now + t.event_us <= u64::MAX,
        now + t.inhibit_us <= u64::MAX,
    ensures
        tpdo_sends(t, now) <==> now >= t.inhibit_until && (t.send_request || (t.event_deadline
            is Some && now >= t.event_deadline->0)),
        !tpdo_sends(t, now) ==> tpdo_next(t, true, now) == (TpdoState {
            event_deadline: if t.event_deadline is None && t.event_us > 0 {
                Some((now + t.event_us) as u64)
            } else {
                t.event_deadline
            },
            ..t
        }),
        tpdo_sends(t, now) ==> {
            let next = tpdo_next(t, true, now);
            &&& !next.send_request
            &&& next.inhibit_until == now + t.inhibit_us
            &&& t.event_us > 0 ==> next.event_deadline is Some && next.event_deadline->0 == now
                + t.event_us
            &&& t.event_us == 0 ==> next.event_deadline == t.event_deadline
        },
{
}

} // verus!
