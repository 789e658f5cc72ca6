//! NMT (network management) slave state machine.

use crate::node_id::NodeId;
use vstd::prelude::*;

verus! {

/// NMT node states as reported in the heartbeat message.
#[derive(Debug, Clone, Copy, PartialEq, Eq, Structural)]
pub enum NmtState {
    /// Device is booting; never reported on the bus (boot-up uses 0x00).
    Initializing,
    /// NMT stopped: only NMT and heartbeat are active.
    Stopped,
    /// Fully operational: PDO transfer is enabled.
    Operational,
    /// Pre-operational: SDO configuration is possible, no PDO transfer.
    PreOperational,
}

/// The byte that stands for `state` in a heartbeat message.
pub open spec fn state_byte(state: NmtState) -> u8 {
    match state {
        NmtState::Initializing => 0x00,
        NmtState::Stopped => 0x04,
        NmtState::Operational => 0x05,
        NmtState::PreOperational => 0x7F,
    }
}

impl NmtState {
    /// The state as the heartbeat message reports it.
    pub fn as_byte(self) -> (byte: u8)
        ensures
            byte == state_byte(self),
    {
        match self {
            NmtState::Initializing => 0x00,
            NmtState::Stopped => 0x04,
            NmtState::Operational => 0x05,
            NmtState::PreOperational => 0x7F,
        }
    }

    /// Whether SDO communication is active in this state.
    pub fn sdo_active(self) -> (active: bool)
        ensures
            active == (self is PreOperational || self is Operational),
    {
        matches!(self, NmtState::PreOperational | NmtState::Operational)
    }

    /// Whether PDO transfer is active in this state.
    pub fn pdo_active(self) -> (active: bool)
        ensures
            active == (self is Operational),
    {
        matches!(self, NmtState::Operational)
    }
}

/// NMT commands, the first byte of an NMT service frame.
#[derive(Debug, Clone, Copy, PartialEq, Eq, Structural)]
pub enum NmtCommand {
    /// Enter operational.
    Start,
    /// Enter stopped.
    Stop,
    /// Enter pre-operational.
    EnterPreOperational,
    /// Reset application (full device reset).
    ResetNode,
    /// Reset communication (CANopen re-initialization).
    ResetCommunication,
}

/// The command byte that stands for `command` in an NMT service frame.
pub open spec fn command_byte(command: NmtCommand) -> u8 {
    match command {
        NmtCommand::Start => 0x01,
        NmtCommand::Stop => 0x02,
        NmtCommand::EnterPreOperational => 0x80,
        NmtCommand::ResetNode => 0x81,
        NmtCommand::ResetCommunication => 0x82,
    }
}

/// The command that a byte stands for, if any.
pub open spec fn command_of_byte(byte: u8) -> Option<NmtCommand> {
    if byte == 0x01 {
        Some(NmtCommand::Start)
    } else if byte == 0x02 {
        Some(NmtCommand::Stop)
    } else if byte == 0x80 {
        Some(NmtCommand::EnterPreOperational)
    } else if byte == 0x81 {
        Some(NmtCommand::ResetNode)
    } else if byte == 0x82 {
        Some(NmtCommand::ResetCommunication)
    } else {
        None
    }
}

impl NmtCommand {
    /// Decode the command byte of an NMT service frame.
    pub fn from_byte(byte: u8) -> (command: Option<Self>)
        ensures
            command == command_of_byte(byte),
    {
        match byte {
            0x01 => Some(Self::Start),
            0x02 => Some(Self::Stop),
            0x80 => Some(Self::EnterPreOperational),
            0x81 => Some(Self::ResetNode),
            0x82 => Some(Self::ResetCommunication),
            _ => None,
        }
    }

    /// The command byte of an NMT service frame.
    pub fn as_byte(self) -> (byte: u8)
        ensures
            byte == command_byte(self),
    {
        match self {
            NmtCommand::Start => 0x01,
            NmtCommand::Stop => 0x02,
            NmtCommand::EnterPreOperational => 0x80,
            NmtCommand::ResetNode => 0x81,
            NmtCommand::ResetCommunication => 0x82,
        }
    }
}

/// Decoding undoes encoding, and no other byte decodes to a command.
pub proof fn law_command_bytes_round_trip(command: NmtCommand, byte: u8)
    ensures
        command_of_byte(command_byte(command)) == Some(command),
        command_of_byte(byte) is Some ==> command_byte(command_of_byte(byte)->0) == byte,
{
}

/// Result of processing an NMT command that the application must act on.
#[derive(Debug, Clone, Copy, PartialEq, Eq, Structural)]
pub enum NmtResetRequest {
    /// Reset CANopen communication (re-create the [`crate::Node`]).
    Communication,
    /// Reset the whole application/device.
    Node,
}

/// The state after `command` was applied in `state`: the two reset commands
/// leave it to the application to act.
pub open spec fn state_after(state: NmtState, command: NmtCommand) -> NmtState {
    match command {
        NmtCommand::Start => NmtState::Operational,
        NmtCommand::Stop => NmtState::Stopped,
        NmtCommand::EnterPreOperational => NmtState::PreOperational,
        NmtCommand::ResetNode => state,
        NmtCommand::ResetCommunication => state,
    }
}

/// What the application is asked to do for `command`.
pub open spec fn reset_of(command: NmtCommand) -> Option<NmtResetRequest> {
    match command {
        NmtCommand::ResetNode => Some(NmtResetRequest::Node),
        NmtCommand::ResetCommunication => Some(NmtResetRequest::Communication),
        _ => None,
    }
}

/// The command that an NMT service payload holds for node `node`: two bytes,
/// a known command, and the address of the node or 0 for all nodes.
pub open spec fn command_for(data: Seq<u8>, node: u8) -> Option<NmtCommand> {
    if data.len() == 2 && (data[1] == 0 || data[1] == node) {
        command_of_byte(data[0])
    } else {
        None
    }
}

/// The state after the NMT service payload `data` was received in `state`.
pub open spec fn state_after_frame(state: NmtState, data: Seq<u8>, node: u8) -> NmtState {
    match command_for(data, node) {
        Some(command) => state_after(state, command),
        None => state,
    }
}

/// The reset that the NMT service payload `data` asks for.
pub open spec fn reset_of_frame(data: Seq<u8>, node: u8) -> Option<NmtResetRequest> {
    match command_for(data, node) {
        Some(command) => reset_of(command),
        None => None,
    }
}

/// The NMT slave state machine of one local node.
#[derive(Debug)]
pub struct NmtSlave {
    node_id: NodeId,
    state: NmtState,
}

impl NmtSlave {
    /// The id of the node.
    pub closed spec fn spec_node(&self) -> u8 {
        self.node_id.spec_raw()
    }

    /// The state that the machine is in.
    pub closed spec fn spec_state(&self) -> NmtState {
        self.state
    }

    /// Create the state machine in `Initializing`; call
    /// [`finish_boot`](Self::finish_boot) once initialization is done.
    pub fn new(node_id: NodeId) -> (slave: Self)
        ensures
            slave.spec_node() == node_id.spec_raw(),
            slave.spec_state() is Initializing,
    {
        Self { node_id, state: NmtState::Initializing }
    }

    /// Current NMT state.
    pub fn state(&self) -> (state: NmtState)
        ensures
            state == self.spec_state(),
    {
        self.state
    }

    /// Complete initialization: transition to pre-operational (CiA 301
    /// requires entering pre-operational autonomously after boot-up).
    pub fn finish_boot(&mut self)
        ensures
            final(self).spec_node() == old(self).spec_node(),
            final(self).spec_state() is PreOperational,
    {
        self.state = NmtState::PreOperational;
    }

    /// Handle an NMT service frame payload (`[command, addressed node id]`,
    /// node id 0 = all nodes). Returns a reset request the application must
    /// perform, if any. Malformed or foreign-addressed frames are ignored.
    pub fn on_nmt_frame(&mut self, data: &[u8]) -> (reset: Option<NmtResetRequest>)
        ensures
            final(self).spec_node() == old(self).spec_node(),
            final(self).spec_state() == state_after_frame(
                old(self).spec_state(),
                data@,
                old(self).spec_node(),
            ),
            reset == reset_of_frame(data@, old(self).spec_node()),
    {
        if data.len() != 2 {
            return None;
        }
        let addressed: u8 = data[1];
        if addressed != 0 && addressed != self.node_id.raw() {
            return None;
        }
        match NmtCommand::from_byte(data[0]) {
            Some(command) => self.apply(command),
            None => None,
        }
    }

    /// Apply an NMT command directly (also used by the application, e.g. for
    /// self-starting nodes).
    pub fn apply(&mut self, cmd: NmtCommand) -> (reset: Option<NmtResetRequest>)
        ensures
            final(self).spec_node() == old(self).spec_node(),
            final(self).spec_state() == state_after(old(self).spec_state(), cmd),
            reset == reset_of(cmd),
    {
        match cmd {
            NmtCommand::Start => self.state = NmtState::Operational,
            NmtCommand::Stop => self.state = NmtState::Stopped,
            NmtCommand::EnterPreOperational => self.state = NmtState::PreOperational,
            NmtCommand::ResetNode => return Some(NmtResetRequest::Node),
            NmtCommand::ResetCommunication => return Some(NmtResetRequest::Communication),
        }
        None
    }
}

/// A frame that is malformed, holds an unknown command or addresses another
/// node changes nothing and asks for nothing.
pub proof fn law_foreign_and_malformed_frames_are_ignored(state: NmtState, data: Seq<u8>, node: u8)
    requires
        data.len() != 2 || command_of_byte(data[0]) is None || (data[1] != 0 && data[1] != node),
    ensures
        state_after_frame(state, data, node) == state,
        reset_of_frame(data, node) is None,
{
}

/// Addressing a node and broadcasting have the same effect on it.
pub proof fn law_broadcast_acts_like_addressed(state: NmtState, byte: u8, node: u8)
    ensures
        state_after_frame(state, seq![byte, 0], node) == state_after_frame(
            state,
            seq![byte, node],
            node,
        ),
        reset_of_frame(seq![byte, 0], node) == reset_of_frame(seq![byte, node], node),
{
}

/// Once booted, no NMT frame takes a node back to `Initializing`.
pub proof fn law_boot_is_left_for_good(state: NmtState, data: Seq<u8>, node: u8)
    requires
        state !is Initializing,
    ensures
        state_after_frame(state, data, node) !is Initializing,
{
}

} // verus!
