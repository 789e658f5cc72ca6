//! The decisions of a run loop that drives a [`Node`] from a CAN bus.
//!
//! The loop itself waits for frames and timers and is left to the
//! application: it calls [`begin`] once, then alternates between [`wake`],
//! waiting as [`wake`] says, and [`deliver`] for every received frame. After
//! each call it sends what the queue holds and clears it. When a frame asks
//! for a reset, it carries on with the node that [`restart`] gives.

use crate::cob::NMT_SERVICE;
use crate::frame::{CanFrame, FrameView};
use crate::heartbeat::{heartbeat_frame, ProducerState};
use crate::nmt::{law_boot_is_left_for_good, reset_of_frame, NmtState};
use crate::node::{law_node_deadline_is_ahead, law_nodes_stay_valid, new_node, node_deadline};
use crate::node::{node_frames, node_next, node_receives, node_times_fit, reset_command};
use crate::node::{slots_frames, valid_node, Node, NodeState, ResetCommand};
use crate::od::ObjectDictionary;
use crate::pdo::{configured_rpdo, configured_tpdo, TpdoState, MAX_PDOS};
use crate::{Micros, TxSink};
use vstd::prelude::*;

verus! {

/// Maximum frames a single step may emit before the queue is flushed to the
/// bus.
pub const TX_QUEUE: usize = 16;

/// A vector with a fixed capacity.
#[verifier::external_type_specification]
#[verifier::external_body]
#[verifier::reject_recursive_types(T)]
pub struct ExFixedVec<T, const N: usize>(heapless::Vec<T, N>);

/// What a queue holds, oldest first.
pub uninterp spec fn queue_contents(queue: heapless::Vec<CanFrame, 16>) -> Seq<CanFrame>;

/// `heapless::Vec::new`: the new vector is empty.
#[verifier::external_body]
fn queue_new() -> (queue: heapless::Vec<CanFrame, 16>)
    ensures
        queue_contents(queue) == Seq::<CanFrame>::empty(),
{
    heapless::Vec::new()
}

/// `heapless::Vec::push`: appends the frame and succeeds where there is
/// room, else fails and changes nothing.
#[verifier::external_body]
fn queue_push(queue: &mut heapless::Vec<CanFrame, 16>, frame: CanFrame) -> (done: bool)
    ensures
        done == (queue_contents(*old(queue)).len() < 16),
        queue_contents(*final(queue)) == (if done {
            queue_contents(*old(queue)).push(frame)
        } else {
            queue_contents(*old(queue))
        }),
{
    queue.push(frame).is_ok()
}

/// `heapless::Vec::as_slice`: all elements, in order; never more than the
/// capacity.
#[verifier::external_body]
fn queue_slice(queue: &heapless::Vec<CanFrame, 16>) -> (frames: &[CanFrame])
    ensures
        frames@ == queue_contents(*queue),
        frames@.len() <= 16,
{
    queue.as_slice()
}

/// `heapless::Vec::clear`: removes all elements.
#[verifier::external_body]
fn queue_clear(queue: &mut heapless::Vec<CanFrame, 16>)
    ensures
        queue_contents(*final(queue)) == Seq::<CanFrame>::empty(),
{
    queue.clear()
}

/// What frames say.
pub open spec fn frame_views(frames: Seq<CanFrame>) -> Seq<FrameView> {
    frames.map_values(|frame: CanFrame| frame@)
}

/// The first [`TX_QUEUE`] of the frames that were offered.
pub open spec fn kept(offered: Seq<FrameView>) -> Seq<FrameView> {
    if offered.len() <= TX_QUEUE {
        offered
    } else {
        offered.take(TX_QUEUE as int)
    }
}

/// Sink adapter: the sans-IO core emits synchronously into the queue, the run
/// loop flushes it afterwards. Excess frames are dropped rather than blocking
/// the core.
pub struct TxQueue {
    queue: heapless::Vec<CanFrame, 16>,
    offered: Ghost<Seq<FrameView>>,
}

impl TxQueue {
    #[verifier::type_invariant]
    spec fn keeps_the_first(self) -> bool {
        &&& frame_views(queue_contents(self.queue)) == kept(self.offered@)
        &&& queue_contents(self.queue).len() <= TX_QUEUE
    }

    /// An empty queue.
    pub fn new() -> (queue: Self)
        ensures
            queue.sent() == Seq::<FrameView>::empty(),
    {
        let queue = queue_new();
        assert(frame_views(queue_contents(queue)) =~= Seq::<FrameView>::empty());
        Self { queue, offered: Ghost(Seq::empty()) }
    }

    /// The frames to be sent: the first [`TX_QUEUE`] frames that were
    /// offered since the queue was cleared.
    pub fn frames(&self) -> (frames: &[CanFrame])
        ensures
            frame_views(frames@) == kept(self.sent()),
    {
        proof {
            use_type_invariant(self);
        }
        queue_slice(&self.queue)
    }

    /// Forget all frames, after they were sent.
    pub fn clear(&mut self)
        ensures
            final(self).sent() == Seq::<FrameView>::empty(),
    {
        let mut taken = Self::new();
        core::mem::swap(&mut taken, self);
        let mut queue = taken.queue;
        queue_clear(&mut queue);
        assert(frame_views(queue_contents(queue)) =~= Seq::<FrameView>::empty());
        *self = Self { queue, offered: Ghost(Seq::empty()) };
    }
}

impl TxSink for TxQueue {
    closed spec fn sent(&self) -> Seq<FrameView> {
        self.offered@
    }

    fn send(&mut self, frame: CanFrame) {
        let mut taken = Self::new();
        core::mem::swap(&mut taken, self);
        proof {
            use_type_invariant(&taken);
        }
        let ghost before = taken.offered@;
        let ghost held = queue_contents(taken.queue);
        let mut queue = taken.queue;
        // A single step emits only a handful of frames; should the queue be
        // full nevertheless, the frame is dropped.
        let _ = queue_push(&mut queue, frame);
        proof {
            assert(frame_views(held.push(frame)) =~= frame_views(held).push(frame@));
            assert(frame_views(held).len() == held.len());
            assert(frame_views(queue_contents(queue)) =~= kept(before.push(frame@)));
        }
        *self = Self { queue, offered: Ghost(before.push(frame@)) };
    }
}

/// A processed TPDO slot sends at most one frame.
proof fn lemma_slots_frames<OD: ObjectDictionary>(
    tpdos: Seq<Option<TpdoState>>,
    od: OD,
    operational: bool,
    now: Micros,
)
    ensures
        slots_frames(tpdos, od, operational, now).len() <= tpdos.len(),
    decreases tpdos.len(),
{
    if tpdos.len() > 0 {
        lemma_slots_frames(tpdos.drop_last(), od, operational, now);
    }
}

/// A single step of a node emits only a handful of frames, so the queue never
/// drops one: processing sends at most a heartbeat, an abort and one frame
/// per TPDO, and a received frame is answered with at most one.
pub proof fn law_steps_fit_the_queue<OD: ObjectDictionary>(
    n: NodeState<OD>,
    now: Micros,
    frame: FrameView,
    post: NodeState<OD>,
    frames: Seq<FrameView>,
    reset: Option<ResetCommand>,
)
    requires
        valid_node(n),
    ensures
        node_frames(n, now).len() <= 2 + MAX_PDOS < TX_QUEUE,
        node_receives(n, frame, now, post, frames, reset) ==> frames.len() <= 1,
{
    lemma_slots_frames(n.tpdos, n.od, n.nmt is Operational, now);
}

/// How long a blocking receive may take when the node wants to be processed
/// at `deadline`: until then, or 100 ms where it has no deadline.
pub open spec fn receive_timeout(deadline: Option<Micros>, now: Micros) -> u64 {
    match deadline {
        Some(deadline) => if deadline > now {
            (deadline - now) as u64
        } else {
            0
        },
        None => 100_000,
    }
}

/// The timeout of a blocking receive, in microseconds.
pub fn receive_timeout_us(deadline: Option<Micros>, now: Micros) -> (timeout: u64)
    ensures
        timeout == receive_timeout(deadline, now),
{
    match deadline {
        Some(deadline) => deadline.saturating_sub(now),
        None => 100_000,
    }
}

/// A run loop that sleeps for the receive timeout of a processed node never
/// asks for a receive without waiting, which some sockets take for waiting
/// forever.
pub proof fn law_receive_timeout_is_positive<OD: ObjectDictionary>(n: NodeState<OD>, now: Micros)
    requires
        valid_node(n),
        node_times_fit(n, now),
    ensures
        receive_timeout(node_deadline(n, now), now) > 0,
{
    law_node_deadline_is_ahead(n, now);
}

/// What the run loop waits for.
#[derive(Debug, Clone, Copy, PartialEq, Eq, Structural)]
pub enum Wait {
    /// A received frame.
    Frame,
    /// A received frame, but no longer than until the deadline.
    FrameUntil(Micros),
}

/// What to wait for until a deadline, if there is one.
pub open spec fn wait_until(deadline: Option<Micros>) -> Wait {
    match deadline {
        Some(deadline) => Wait::FrameUntil(deadline),
        None => Wait::Frame,
    }
}

/// The node after the run loop has begun: a freshly created one is started.
pub open spec fn begun<OD>(n: NodeState<OD>, now: Micros) -> NodeState<OD> {
    if n.nmt is Initializing {
        NodeState {
            nmt: NmtState::PreOperational,
            heartbeat: ProducerState { last_sent: Some(now), ..n.heartbeat },
            ..n
        }
    } else {
        n
    }
}

/// What is sent when the run loop begins: the boot-up message of a freshly
/// created node.
pub open spec fn boot_frames<OD>(n: NodeState<OD>) -> Seq<FrameView> {
    if n.nmt is Initializing {
        seq![heartbeat_frame(n.node, 0x00)]
    } else {
        Seq::empty()
    }
}

/// Start the node if it is freshly created: the boot-up message is queued.
pub fn begin<OD: ObjectDictionary>(node: &mut Node<OD>, now: Micros, queue: &mut TxQueue)
    requires
        old(node).wf(),
        old(queue).sent() == Seq::<FrameView>::empty(),
    ensures
        final(node).wf(),
        final(node)@ == begun(old(node)@, now),
        final(queue).sent() == boot_frames(old(node)@),
{
    if node.nmt_state() == NmtState::Initializing {
        node.start(now, queue);
        assert(queue.sent() =~= seq![heartbeat_frame(old(node)@.node, 0x00)]);
    }
}

/// Process the node: its frames are queued. Returns what to wait for next.
pub fn wake<OD: ObjectDictionary>(node: &mut Node<OD>, now: Micros, queue: &mut TxQueue) -> (wait:
    Wait)
    requires
        old(node).wf(),
        node_times_fit(old(node)@, now),
        old(queue).sent() == Seq::<FrameView>::empty(),
    ensures
        final(node).wf(),
        final(node)@ == node_next(old(node)@, now),
        final(queue).sent() == node_frames(old(node)@, now),
        wait == wait_until(node_deadline(old(node)@, now)),
{
    let next = node.process(now, queue);
    assert(queue.sent() =~= node_frames(old(node)@, now));
    match next {
        Some(deadline) => Wait::FrameUntil(deadline),
        None => Wait::Frame,
    }
}

/// Hand a received frame to the node: its answer is queued. Returns the
/// reset that ends the run, if any.
pub fn deliver<OD: ObjectDictionary>(
    node: &mut Node<OD>,
    frame: &CanFrame,
    now: Micros,
    queue: &mut TxQueue,
) -> (reset: Option<ResetCommand>)
    requires
        old(node).wf(),
        old(queue).sent() == Seq::<FrameView>::empty(),
    ensures
        final(node).wf(),
        node_receives(old(node)@, frame@, now, final(node)@, final(queue).sent(), reset),
{
    let reset = node.on_frame(frame, now, queue);
    proof {
        let frames = choose|frames: Seq<FrameView>|
            queue.sent() == Seq::<FrameView>::empty() + frames && #[trigger] node_receives(
                old(node)@,
                frame@,
                now,
                node@,
                frames,
                reset,
            );
        assert(queue.sent() =~= frames);
    }
    reset
}

/// The dictionary that a node continues with after a reset: its values
/// survive a communication reset, and a node reset restores the defaults.
pub open spec fn od_after<OD>(reset: ResetCommand, od: OD, defaults: OD) -> OD {
    match reset {
        ResetCommand::Communication => od,
        ResetCommand::Node => defaults,
    }
}

/// Carry out a reset: the node is given up, and a fresh one takes its place
/// that reads its communication parameters and PDO configuration anew. It
/// waits for [`begin`].
pub fn restart<OD: ObjectDictionary>(node: Node<OD>, reset: ResetCommand, defaults: OD) -> (fresh:
    Node<OD>)
    ensures
        fresh.wf(),
        fresh@ == new_node(node@.node, od_after(reset, node@.od, defaults)),
{
    let id = node.node_id();
    match reset {
        ResetCommand::Communication => Node::new(id, node.into_od()),
        ResetCommand::Node => Node::new(id, defaults),
    }
}

/// A changed PDO configuration takes effect with the next communication
/// reset and not before: no received frame and no processing changes what a
/// PDO is made of, and after the reset it is what the dictionary says.
pub proof fn law_pdo_configuration_changes_on_reset<OD: ObjectDictionary>(
    pre: NodeState<OD>,
    frame: FrameView,
    now: Micros,
    post: NodeState<OD>,
    frames: Seq<FrameView>,
    reset: Option<ResetCommand>,
    slot: int,
    defaults: OD,
)
    requires
        node_receives(pre, frame, now, post, frames, reset),
        pre.tpdos.len() == MAX_PDOS,
        0 <= slot < MAX_PDOS,
    ensures
        same_configuration(pre.tpdos[slot], post.tpdos[slot]),
        same_configuration(pre.tpdos[slot], node_next(pre, now).tpdos[slot]),
        post.rpdos == pre.rpdos,
        node_next(pre, now).rpdos == pre.rpdos,
        ({
            let fresh = new_node(
                post.node,
                od_after(ResetCommand::Communication, post.od, defaults),
            );
            &&& fresh.od == post.od
            &&& fresh.tpdos[slot] == configured_tpdo(post.od, slot as u16)
            &&& fresh.rpdos[slot] == configured_rpdo(post.od, slot as u16)
        }),
{
}

/// Whether two states of a TPDO slot have the same configuration.
pub open spec fn same_configuration(a: Option<TpdoState>, b: Option<TpdoState>) -> bool {
    match (a, b) {
        (Some(s), Some(t)) => s.cob_id == t.cob_id && s.transmission == t.transmission
            && s.inhibit_us == t.inhibit_us && s.event_us == t.event_us && s.mapping == t.mapping,
        (None, None) => true,
        _ => false,
    }
}

/// One turn of the run loop: the node is processed at `woken`, and the wait
/// that follows ends with the frame `received` at `delivered`, or without one.
pub struct Turn {
    pub woken: Micros,
    pub received: Option<FrameView>,
    pub delivered: Micros,
}

/// How a turn ends: with the node `node`, after `answer` was emitted for the
/// received frame and `reset` returned for it.
#[verifier::ext_equal]
pub struct TurnEnd<OD> {
    pub node: NodeState<OD>,
    pub answer: Seq<FrameView>,
    pub reset: Option<ResetCommand>,
}

/// Whether the turn `turn` of the node `pre` can end with `end`: what [`wake`]
/// does, followed by what [`deliver`] does with the frame, if there is one.
#[verifier::opaque]
pub open spec fn turn_ends<OD: ObjectDictionary>(
    pre: NodeState<OD>,
    turn: Turn,
    end: TurnEnd<OD>,
) -> bool {
    let woken = node_next(pre, turn.woken);
    match turn.received {
        Some(frame) => node_receives(
            woken,
            frame,
            turn.delivered,
            end.node,
            end.answer,
            end.reset,
        ),
        None => end == (TurnEnd { node: woken, answer: Seq::empty(), reset: None }),
    }
}

/// The node before the turn numbered `i` of a run.
#[verifier::opaque]
pub open spec fn node_before<OD>(
    n: NodeState<OD>,
    start: Micros,
    ends: Seq<TurnEnd<OD>>,
    i: int,
) -> NodeState<OD> {
    if i == 0 {
        begun(n, start)
    } else {
        ends[i - 1].node
    }
}

/// Whether the run loop, given the turns `turns`, can take the node `n`
/// through turns that end with `ends`: it goes on as long as no turn ends
/// with a reset.
pub open spec fn run_follows<OD: ObjectDictionary>(
    n: NodeState<OD>,
    start: Micros,
    turns: Seq<Turn>,
    ends: Seq<TurnEnd<OD>>,
) -> bool {
    &&& ends.len() <= turns.len()
    &&& forall|i: int|
        0 <= i < ends.len() ==> turn_ends(
            node_before(n, start, ends, i),
            #[trigger] turns[i],
            ends[i],
        )
    &&& forall|i: int| 0 <= i < ends.len() - 1 ==> (#[trigger] ends[i]).reset is None
    &&& ends.len() < turns.len() ==> ends.len() > 0 && ends.last().reset is Some
}

/// What the node emits in the first `k` turns of a run, in order.
pub open spec fn run_emitted<OD: ObjectDictionary>(
    n: NodeState<OD>,
    start: Micros,
    turns: Seq<Turn>,
    ends: Seq<TurnEnd<OD>>,
    k: nat,
) -> Seq<FrameView>
    decreases k,
{
    if k == 0 {
        boot_frames(n)
    } else {
        run_emitted(n, start, turns, ends, (k - 1) as nat) + node_frames(
            node_before(n, start, ends, k - 1),
            turns[k - 1].woken,
        ) + ends[k - 1].answer
    }
}

/// What reaches the bus in the first `k` turns of a run: after each call the
/// loop sends what the queue kept, and clears it.
pub open spec fn run_sent<OD: ObjectDictionary>(
    n: NodeState<OD>,
    start: Micros,
    turns: Seq<Turn>,
    ends: Seq<TurnEnd<OD>>,
    k: nat,
) -> Seq<FrameView>
    decreases k,
{
    if k == 0 {
        kept(boot_frames(n))
    } else {
        run_sent(n, start, turns, ends, (k - 1) as nat) + kept(
            node_frames(node_before(n, start, ends, k - 1), turns[k - 1].woken),
        ) + kept(ends[k - 1].answer)
    }
}

/// What a run returns: the reset that its last turn ended with.
pub open spec fn run_result<OD>(ends: Seq<TurnEnd<OD>>) -> Option<ResetCommand> {
    if ends.len() > 0 {
        ends.last().reset
    } else {
        None
    }
}

/// The reset that the frame of a turn asks the node with the id `node` for.
pub open spec fn requested_reset(turn: Turn, node: u8) -> Option<ResetCommand> {
    match turn.received {
        Some(frame) => if frame.id == NMT_SERVICE {
            reset_command(reset_of_frame(frame.data, node))
        } else {
            None
        },
        None => None,
    }
}

/// What one turn does to a valid node that has booted.
proof fn lemma_turn<OD: ObjectDictionary>(pre: NodeState<OD>, turn: Turn, end: TurnEnd<OD>)
    requires
        valid_node(pre),
        pre.nmt !is Initializing,
        turn_ends(pre, turn, end),
    ensures
        valid_node(end.node),
        end.node.node == pre.node,
        end.node.nmt !is Initializing,
        end.reset == requested_reset(turn, pre.node),
        kept(node_frames(pre, turn.woken)) == node_frames(pre, turn.woken),
        kept(end.answer) == end.answer,
{
    reveal(turn_ends);
    let woken = node_next(pre, turn.woken);
    lemma_next_is_valid(pre, turn.woken);
    lemma_slots_frames(pre.tpdos, pre.od, pre.nmt is Operational, turn.woken);
    if let Some(frame) = turn.received {
        let now = turn.delivered;
        law_nodes_stay_valid(
            pre.node,
            pre.od,
            woken,
            frame,
            now,
            end.node,
            end.answer,
            end.reset,
            0,
        );
        law_steps_fit_the_queue(woken, now, frame, end.node, end.answer, end.reset);
        law_boot_is_left_for_good(woken.nmt, frame.data, pre.node);
    }
}

/// What holds of a run after its first `k` turns: the node is the same valid
/// and booted one, each turn ended with the reset that was asked for, and
/// everything that was emitted has been sent.
proof fn lemma_run<OD: ObjectDictionary>(
    n: NodeState<OD>,
    start: Micros,
    turns: Seq<Turn>,
    ends: Seq<TurnEnd<OD>>,
    k: nat,
)
    requires
        valid_node(n),
        run_follows(n, start, turns, ends),
        k <= ends.len(),
    ensures
        ({
            let here = node_before(n, start, ends, k as int);
            valid_node(here) && here.node == n.node && here.nmt !is Initializing
        }),
        forall|i: int|
            0 <= i < k ==> (#[trigger] ends[i]).reset == requested_reset(turns[i], n.node),
        forall|i: int|
            0 <= i <= k ==> (#[trigger] node_before(n, start, ends, i)).nmt !is Initializing,
        run_sent(n, start, turns, ends, k) == run_emitted(n, start, turns, ends, k),
    decreases k,
{
    reveal(node_before);
    if k > 0 {
        let j = (k - 1) as nat;
        lemma_run(n, start, turns, ends, j);
        let pre = node_before(n, start, ends, j as int);
        assert(turn_ends(pre, turns[j as int], ends[j as int]));
        lemma_turn(pre, turns[j as int], ends[j as int]);
        assert(node_before(n, start, ends, k as int) == ends[j as int].node);
    } else {
        lemma_begun_is_valid(n, start);
    }
}

/// A valid node is valid and has booted when the run loop has begun.
proof fn lemma_begun_is_valid<OD: ObjectDictionary>(n: NodeState<OD>, now: Micros)
    requires
        valid_node(n),
    ensures
        valid_node(begun(n, now)),
        begun(n, now).node == n.node,
        begun(n, now).nmt !is Initializing,
{
}

/// A valid node stays valid when it is processed.
proof fn lemma_next_is_valid<OD: ObjectDictionary>(n: NodeState<OD>, now: Micros)
    requires
        valid_node(n),
    ensures
        valid_node(node_next(n, now)),
        node_next(n, now).nmt == n.nmt,
        node_next(n, now).node == n.node,
{
    let idle = FrameView { id: NMT_SERVICE, data: Seq::empty() };
    assert(node_receives(n, idle, now, n, Seq::empty(), None));
    law_nodes_stay_valid(n.node, n.od, n, idle, now, n, Seq::empty(), None, 0);
}

/// A run of the loop as a whole, whatever frames are received and whenever:
/// - a freshly created node sends its boot-up message first, and any other
///   node sends none; no later heartbeat reports a node that is booting;
/// - everything that the node emits is sent, once and in order;
/// - the run ends with the first received frame that asks the node for a
///   reset, and returns that reset; no later frame is consumed, and without
///   such a frame all are.
pub proof fn law_run_as_a_whole<OD: ObjectDictionary>(
    n: NodeState<OD>,
    start: Micros,
    turns: Seq<Turn>,
    ends: Seq<TurnEnd<OD>>,
)
    requires
        valid_node(n),
        run_follows(n, start, turns, ends),
    ensures
        run_sent(n, start, turns, ends, ends.len()) == run_emitted(
            n,
            start,
            turns,
            ends,
            ends.len(),
        ),
        n.nmt is Initializing ==> run_sent(n, start, turns, ends, ends.len()).len() > 0
            && run_sent(n, start, turns, ends, ends.len())[0] == heartbeat_frame(n.node, 0x00),
        n.nmt !is Initializing ==> run_sent(n, start, turns, ends, 0)
            == Seq::<FrameView>::empty(),
        forall|i: int|
            0 <= i <= ends.len() ==> (#[trigger] node_before(n, start, ends, i)).nmt
                !is Initializing,
        run_result(ends) is Some ==> run_result(ends) == requested_reset(
            turns[ends.len() - 1],
            n.node,
        ) && forall|i: int|
            0 <= i < ends.len() - 1 ==> requested_reset(#[trigger] turns[i], n.node) is None,
        run_result(ends) is None ==> ends.len() == turns.len() && forall|i: int|
            0 <= i < turns.len() ==> requested_reset(#[trigger] turns[i], n.node) is None,
{
    lemma_run(n, start, turns, ends, ends.len());
    if n.nmt is Initializing {
        lemma_boot_comes_first(n, start, turns, ends, ends.len());
    }
    assert forall|i: int| 0 <= i < ends.len() - 1 implies requested_reset(
        #[trigger] turns[i],
        n.node,
    ) is None by {
        assert(ends[i].reset is None);
    }
    if run_result(ends) is None {
        assert forall|i: int| 0 <= i < turns.len() implies requested_reset(
            #[trigger] turns[i],
            n.node,
        ) is None by {
            assert(ends[i].reset is None);
        }
    } else {
        assert(ends[ends.len() - 1].reset == requested_reset(turns[ends.len() - 1], n.node));
    }
}

/// What was emitted first stays first.
proof fn lemma_boot_comes_first<OD: ObjectDictionary>(
    n: NodeState<OD>,
    start: Micros,
    turns: Seq<Turn>,
    ends: Seq<TurnEnd<OD>>,
    k: nat,
)
    requires
        n.nmt is Initializing,
    ensures
        run_emitted(n, start, turns, ends, k).len() > 0,
        run_emitted(n, start, turns, ends, k)[0] == heartbeat_frame(n.node, 0x00),
    decreases k,
{
    if k > 0 {
        lemma_boot_comes_first(n, start, turns, ends, (k - 1) as nat);
    }
}

} // verus!
