//! Run loops: when they wake, what they send and how they start over.

use crate::frame::FrameView;
use crate::laws::node::law_node_deadline_misses_nothing;
use crate::nmt::NmtState;
use crate::node::{new_node, node_deadline, node_frames, node_next, node_times_fit, valid_node};
use crate::node::{NodeState, ResetCommand};
use crate::od::{buffer_after_read, read_result, value_of_len, write_step, ObjectDictionary};
use crate::od::{OdError, SdoAccess};
use crate::runner::{begun, boot_frames, kept, od_after, receive_timeout, wait_until, Wait};
use crate::Micros;
use vstd::prelude::*;

verus! {

/// A run loop waits exactly until the deadline of the node; a deadline that
/// has passed is not waited for, and without one it looks up every 100 ms.
pub proof fn law_run_loop_wakes_at_the_deadline(deadline: Micros, now: Micros)
    ensures
        deadline >= now ==> now + receive_timeout(Some(deadline), now) == deadline,
        deadline < now ==> receive_timeout(Some(deadline), now) == 0,
        receive_timeout(None, now) == 100_000,
        wait_until(Some(deadline)) == Wait::FrameUntil(deadline),
        wait_until(None) == Wait::Frame,
{
}

/// While a run loop waits for a processed node, the node has nothing to send.
pub proof fn law_run_loop_misses_nothing<OD: ObjectDictionary>(
    n: NodeState<OD>,
    now: Micros,
    later: Micros,
)
    requires
        valid_node(n),
        node_times_fit(n, now),
        now <= later,
        later < now + receive_timeout(node_deadline(n, now), now) || wait_until(
            node_deadline(n, now),
        ) is Frame || (wait_until(node_deadline(n, now)) matches Wait::FrameUntil(at) && later
            < at),
    ensures
        node_frames(node_next(n, now), later) == Seq::<FrameView>::empty(),
{
    law_node_deadline_misses_nothing(n, now, later);
}

/// The queue keeps the first 16 frames that are offered, in order, and drops
/// the others.
pub proof fn law_queue_keeps_the_first_frames(offered: Seq<FrameView>, i: int)
    ensures
        offered.len() <= 16 ==> kept(offered) == offered,
        offered.len() > 16 ==> kept(offered).len() == 16,
        0 <= i < kept(offered).len() ==> kept(offered)[i] == offered[i],
{
}

/// A node that was just made is started: it announces itself with the boot-up
/// message, one byte 0 on 0x700 and its id, its heartbeat counts from there,
/// and it is pre-operational. A node that runs already goes on as it is.
pub proof fn law_fresh_nodes_announce_themselves<OD: ObjectDictionary>(n: NodeState<OD>, now: Micros)
    requires
        valid_node(n),
    ensures
        n.nmt is Initializing ==> {
            &&& boot_frames(n) == seq![
                FrameView { id: (0x700 + n.node) as u16, data: seq![0u8] },
            ]
            &&& begun(n, now).nmt is PreOperational
            &&& begun(n, now).heartbeat.last_sent == Some(now)
            &&& begun(n, now).heartbeat.period_us == n.heartbeat.period_us
            &&& begun(n, now).heartbeat.node == n.node
            &&& begun(n, now) == (NodeState {
                nmt: NmtState::PreOperational,
                heartbeat: begun(n, now).heartbeat,
                ..n
            })
        },
        n.nmt !is Initializing ==> boot_frames(n).len() == 0 && begun(n, now) == n,
{
}

/// A communication reset keeps the values of the dictionary, a node reset
/// restores the defaults; either way a fresh node with the same id takes over
/// and waits to be started.
pub proof fn law_resets_make_a_fresh_node<OD: ObjectDictionary>(node: u8, od: OD, defaults: OD)
    ensures
        new_node(node, od_after(ResetCommand::Communication, od, defaults)).od == od,
        new_node(node, od_after(ResetCommand::Node, od, defaults)).od == defaults,
        new_node(node, od).node == node,
        new_node(node, od).nmt is Initializing,
{
}

/// A read that fits puts the value at the start of the buffer and leaves the
/// rest of it alone; one that fails says why and leaves all of it alone.
pub proof fn law_reads_fill_the_start_of_the_buffer(
    value: Result<Seq<u8>, OdError>,
    before: Seq<u8>,
    i: int,
)
    requires
        before.len() <= usize::MAX,
        0 <= i < before.len(),
    ensures
        buffer_after_read(value, before).len() == before.len(),
        match value {
            Ok(bytes) => if bytes.len() <= before.len() {
                &&& read_result(value, before.len()) matches Ok(len) && len == bytes.len()
                &&& i < bytes.len() ==> buffer_after_read(value, before)[i] == bytes[i]
                &&& i >= bytes.len() ==> buffer_after_read(value, before)[i] == before[i]
            } else {
                &&& read_result(value, before.len()) == Err::<usize, OdError>(
                    OdError::BufferTooSmall,
                )
                &&& buffer_after_read(value, before) == before
            },
            Err(e) => {
                &&& read_result(value, before.len()) == Err::<usize, OdError>(e)
                &&& buffer_after_read(value, before) == before
            },
        },
{
}

/// A write is either accepted and takes effect, or refused and changes
/// nothing; an entry has a value of some length exactly if a read of it gives
/// as many bytes.
pub proof fn law_writes_take_effect_or_change_nothing<OD: ObjectDictionary>(
    pre: OD,
    index: u16,
    sub: u8,
    data: Seq<u8>,
    post: OD,
)
    ensures
        write_step(pre, index, sub, data, post) <==> (pre.spec_write(index, sub, data) is Ok
            && pre.spec_written(index, sub, data, &post)) || (pre.spec_write(index, sub, data)
            is Err && post == pre),
        value_of_len(pre, index, sub, data.len()) == Some(data) <==> pre.spec_value(index, sub)
            == Ok::<Seq<u8>, OdError>(data),
{
}

/// The four access rights grant reading, writing, both or neither.
pub proof fn law_access_rights_grant_what_they_say(sdo: SdoAccess)
    ensures
        SdoAccess::ReadWrite.spec_readable() && SdoAccess::ReadWrite.spec_writable(),
        SdoAccess::ReadOnly.spec_readable() && !SdoAccess::ReadOnly.spec_writable(),
        !SdoAccess::WriteOnly.spec_readable() && SdoAccess::WriteOnly.spec_writable(),
        !SdoAccess::No.spec_readable() && !SdoAccess::No.spec_writable(),
        sdo.spec_readable() && sdo.spec_writable() ==> sdo is ReadWrite,
{
}

} // verus!
