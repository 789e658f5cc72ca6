//! The run loop decisions and the transmit queue.

use canopen_core::example_od::Od;
use canopen_core::od::{self, DataType, EntryInfo, ObjectDictionary, OdError, PdoAccess, SdoAccess};
use canopen_core::runner::{begin, deliver, receive_timeout_us, wake, TxQueue, Wait, TX_QUEUE};
use canopen_core::{CanFrame, Node, NodeId, ResetCommand, TxSink};

struct MiniOd {
    heartbeat_ms: u16,
}

impl ObjectDictionary for MiniOd {
    fn info(&self, index: u16, sub: u8) -> Result<EntryInfo, OdError> {
        match (index, sub) {
            (0x1017, 0) => Ok(EntryInfo {
                data_type: DataType::Unsigned16,
                sdo: SdoAccess::ReadWrite,
                pdo: PdoAccess::No,
                size: 2,
            }),
            _ => Err(OdError::ObjectNotFound),
        }
    }
    fn read(&self, index: u16, sub: u8, buf: &mut [u8]) -> Result<usize, OdError> {
        match (index, sub) {
            (0x1017, 0) => od::read_bytes(buf, &self.heartbeat_ms.to_le_bytes()),
            _ => Err(OdError::ObjectNotFound),
        }
    }
    fn write(&mut self, index: u16, sub: u8, data: &[u8]) -> Result<(), OdError> {
        match (index, sub) {
            (0x1017, 0) => {
                self.heartbeat_ms = u16::from_le_bytes(od::exact::<2>(data)?);
                Ok(())
            }
            _ => Err(OdError::ObjectNotFound),
        }
    }
}

/// A bus on a virtual clock.
struct SimBus {
    now: u64,
    pending: Vec<CanFrame>,
    sent: Vec<CanFrame>,
}

impl SimBus {
    fn flush(&mut self, queue: &mut TxQueue) {
        self.sent.extend_from_slice(queue.frames());
        queue.clear();
    }

    /// Run the node until a reset is requested or the time is over.
    fn run<OD: ObjectDictionary>(&mut self, node: &mut Node<OD>, until: u64) -> Option<ResetCommand> {
        let mut queue = TxQueue::new();
        begin(node, self.now, &mut queue);
        self.flush(&mut queue);
        while self.now < until {
            let wait = wake(node, self.now, &mut queue);
            self.flush(&mut queue);
            if !self.pending.is_empty() {
                let frame = self.pending.remove(0);
                let reset = deliver(node, &frame, self.now, &mut queue);
                self.flush(&mut queue);
                if reset.is_some() {
                    return reset;
                }
            } else if let Wait::FrameUntil(deadline) = wait {
                assert!(deadline > self.now);
                self.now = deadline;
            } else {
                self.now = until;
            }
        }
        None
    }
}

#[test]
fn boot_heartbeat_sdo_and_reset() {
    let mut bus = SimBus { now: 0, pending: Vec::new(), sent: Vec::new() };
    let mut node = Node::new(NodeId::new(7).unwrap(), MiniOd { heartbeat_ms: 20 });

    // Feed an SDO read of 0x1017 and then a communication reset.
    bus.pending.push(CanFrame::new(0x607, &[0x40, 0x17, 0x10, 0x00, 0, 0, 0, 0]).unwrap());
    // Give the node 65 ms: boot-up + >= 2 heartbeats + SDO response.
    let reset = bus.run(&mut node, 65_000);
    assert_eq!(reset, None, "no reset requested yet");

    let frames = bus.sent.clone();
    assert!(!frames.is_empty(), "node must have transmitted");
    assert_eq!(frames[0], CanFrame::new(0x707, &[0x00]).unwrap(), "boot-up first");
    let heartbeats = frames.iter().filter(|f| f.id() == 0x707 && f.data() == [0x7F]).count();
    assert!(heartbeats >= 2, "expected cyclic heartbeats, got {heartbeats}");
    assert!(
        frames.iter().any(|f| f.id() == 0x587 && f.data()[0] == 0x4B),
        "expected SDO response"
    );

    // Now request a communication reset and expect the run to end.
    bus.pending.push(CanFrame::new(0x000, &[0x82, 7]).unwrap());
    let reset = bus.run(&mut node, u64::MAX);
    assert_eq!(reset, Some(ResetCommand::Communication));
}

#[test]
fn a_running_node_is_not_started_again() {
    let id = NodeId::new(5).unwrap();
    let mut node = Node::new(id, Od::new(id));
    let mut queue = TxQueue::new();
    begin(&mut node, 0, &mut queue);
    assert_eq!(queue.frames(), &[CanFrame::new(0x705, &[0x00]).unwrap()]);
    queue.clear();
    assert!(queue.frames().is_empty());
    begin(&mut node, 1, &mut queue);
    assert!(queue.frames().is_empty());
}

#[test]
fn an_idle_node_waits_for_frames_only() {
    let id = NodeId::new(5).unwrap();
    let mut node = Node::new(id, Od::new(id));
    let mut queue = TxQueue::new();
    begin(&mut node, 0, &mut queue);
    queue.clear();
    assert_eq!(wake(&mut node, 0, &mut queue), Wait::Frame);
    // A heartbeat time gives it a deadline.
    let write = CanFrame::new(0x605, &[0x2B, 0x17, 0x10, 0x00, 100, 0, 0, 0]).unwrap();
    assert_eq!(deliver(&mut node, &write, 10, &mut queue), None);
    assert_eq!(queue.frames().len(), 1);
    queue.clear();
    assert_eq!(wake(&mut node, 10, &mut queue), Wait::FrameUntil(100_000));
}

#[test]
fn the_queue_keeps_the_first_frames() {
    let mut queue = TxQueue::new();
    for i in 0..20u16 {
        queue.send(CanFrame::new(i, &[]).unwrap());
    }
    let ids: Vec<u16> = queue.frames().iter().map(|f| f.id()).collect();
    assert_eq!(ids, (0..16).collect::<Vec<u16>>());
    assert_eq!(queue.frames().len(), TX_QUEUE);
    queue.clear();
    queue.send(CanFrame::new(0x123, &[7]).unwrap());
    assert_eq!(queue.frames(), &[CanFrame::new(0x123, &[7]).unwrap()]);
}

#[test]
fn receive_timeouts() {
    assert_eq!(receive_timeout_us(Some(1_500), 1_000), 500);
    assert_eq!(receive_timeout_us(Some(500), 1_000), 0);
    assert_eq!(receive_timeout_us(None, 1_000), 100_000);
}
