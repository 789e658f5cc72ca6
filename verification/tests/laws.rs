//! What holds of several operations together, on concrete values.

use canopen_core::example_od::Od;
use canopen_core::heartbeat::HeartbeatProducer;
use canopen_core::nmt::{NmtCommand, NmtResetRequest, NmtSlave, NmtState};
use canopen_core::od::{
    self, DataType, EntryInfo, ObjectDictionary, OdError, OdString, PdoAccess, SdoAccess,
};
use canopen_core::pdo::{Rpdo, Tpdo};
use canopen_core::runner::{begin, deliver, restart, wake, TxQueue};
use canopen_core::sdo::{
    SdoAbortCode, SdoClient, SdoEvent, SdoServer, SdoServerEvent, SdoTransferError,
};
use canopen_core::{CanFrame, Node, NodeId, ResetCommand};

/// A dictionary with one entry for every way an access can end: 0x2000 a
/// string, 0x2001 read-only, 0x2002 write-only, 0x2003 without data, 0x2004 a
/// byte from 10 to 20.
struct Shelf {
    label: OdString<64>,
    level: u8,
    writes: usize,
}

impl Shelf {
    fn new(label: &[u8]) -> Self {
        Shelf { label: OdString::new(label), level: 15, writes: 0 }
    }
}

impl ObjectDictionary for Shelf {
    fn info(&self, index: u16, sub: u8) -> Result<EntryInfo, OdError> {
        let entry = |data_type, sdo, size| Ok(EntryInfo { data_type, sdo, pdo: PdoAccess::No, size });
        match (index, sub) {
            (0x2000, 0) => entry(DataType::VisibleString, SdoAccess::ReadWrite, self.label.len()),
            (0x2001, 0) => entry(DataType::Unsigned8, SdoAccess::ReadOnly, 1),
            (0x2002, 0) => entry(DataType::Unsigned8, SdoAccess::WriteOnly, 1),
            (0x2003, 0) => entry(DataType::Domain, SdoAccess::ReadWrite, 0),
            (0x2004, 0) => entry(DataType::Unsigned8, SdoAccess::ReadWrite, 1),
            (0x2000..=0x2004, _) => Err(OdError::SubIndexNotFound),
            _ => Err(OdError::ObjectNotFound),
        }
    }

    fn read(&self, index: u16, sub: u8, buf: &mut [u8]) -> Result<usize, OdError> {
        match (index, sub) {
            (0x2000, 0) => od::read_bytes(buf, self.label.as_bytes()),
            (0x2001, 0) => od::read_bytes(buf, &[1]),
            (0x2002, 0) => Err(OdError::WriteOnly),
            (0x2003, 0) => Err(OdError::NoData),
            (0x2004, 0) => od::read_bytes(buf, &[self.level]),
            (0x2000..=0x2004, _) => Err(OdError::SubIndexNotFound),
            _ => Err(OdError::ObjectNotFound),
        }
    }

    fn write(&mut self, index: u16, sub: u8, data: &[u8]) -> Result<(), OdError> {
        match (index, sub) {
            (0x2000, 0) => self.label.set(data)?,
            (0x2001, 0) => return Err(OdError::ReadOnly),
            (0x2002, 0) => {
                od::exact::<1>(data)?;
            }
            (0x2003, 0) => return Err(OdError::NoData),
            (0x2004, 0) => {
                let [level] = od::exact::<1>(data)?;
                if level < 10 {
                    return Err(OdError::ValueTooLow);
                }
                if level > 20 {
                    return Err(OdError::ValueTooHigh);
                }
                self.level = level;
            }
            (0x2000..=0x2004, _) => return Err(OdError::SubIndexNotFound),
            _ => return Err(OdError::ObjectNotFound),
        }
        self.writes += 1;
        Ok(())
    }
}

#[derive(Debug, PartialEq)]
enum End {
    Uploaded(Vec<u8>),
    Downloaded,
    Failed(SdoTransferError),
}

fn id(raw: u8) -> NodeId {
    NodeId::new(raw).unwrap()
}

/// Hand frames to and fro until the transfer ends.
fn exchange<const C: usize, const S: usize, OD: ObjectDictionary>(
    client: &mut SdoClient<C>,
    server: &mut SdoServer<S>,
    od: &mut OD,
    request: CanFrame,
) -> End {
    let mut requests = vec![request];
    loop {
        let mut responses: Vec<CanFrame> = Vec::new();
        for frame in requests.drain(..) {
            let before = responses.len();
            server.on_frame(&frame, 0, od, &mut responses);
            assert_eq!(responses.len(), before + 1, "every request is answered");
        }
        let mut end = None;
        for frame in responses {
            match client.on_frame(&frame, 0, &mut requests) {
                Some(SdoEvent::UploadOk { data, .. }) => end = Some(End::Uploaded(data.to_vec())),
                Some(SdoEvent::DownloadOk { .. }) => end = Some(End::Downloaded),
                Some(SdoEvent::Failed { error, .. }) => end = Some(End::Failed(error)),
                None => {}
            }
            assert_eq!(end.is_some(), !client.is_busy());
        }
        if let Some(end) = end {
            // What is left to send are aborts of the client.
            for frame in requests {
                assert_eq!(frame.data()[0], 0x80);
                let mut none: Vec<CanFrame> = Vec::new();
                assert!(server.on_frame(&frame, 0, od, &mut none).is_none());
                assert!(none.is_empty());
            }
            return end;
        }
    }
}

fn aborted(code: u32) -> End {
    End::Failed(SdoTransferError::Abort(SdoAbortCode(code)))
}

#[test]
fn downloads_hand_over_the_value() {
    let mut client: SdoClient<64> = SdoClient::new(id(9));
    let mut server: SdoServer<64> = SdoServer::new(id(9));
    let mut od = Shelf::new(b"");
    for len in 1..=64usize {
        let value: Vec<u8> = (0..len as u8).collect();
        let request = client.download(0x2000, 0, &value, 0).unwrap();
        od.writes = 0;
        assert_eq!(exchange(&mut client, &mut server, &mut od, request), End::Downloaded);
        assert_eq!(od.label.as_bytes(), &value[..]);
        assert_eq!(od.writes, 1);

        // And an upload gives it back.
        let request = client.upload(0x2000, 0, 0).unwrap();
        assert_eq!(exchange(&mut client, &mut server, &mut od, request), End::Uploaded(value));
    }
}

#[test]
fn refusals_reach_the_client() {
    let mut client: SdoClient<64> = SdoClient::new(id(9));
    let mut server: SdoServer<64> = SdoServer::new(id(9));
    let mut od = Shelf::new(b"label");
    for (index, sub, code) in [
        (0x2002, 0, SdoAbortCode::WRITE_ONLY),
        (0x2003, 0, SdoAbortCode::NO_DATA),
        (0x2004, 1, SdoAbortCode::SUB_UNKNOWN),
        (0x3000, 0, SdoAbortCode::NO_OBJECT),
    ] {
        let request = client.upload(index, sub, 0).unwrap();
        assert_eq!(exchange(&mut client, &mut server, &mut od, request), aborted(code));
    }
    for (index, data, code) in [
        (0x2001, &[1u8][..], SdoAbortCode::READ_ONLY),
        (0x2002, &[1, 2], SdoAbortCode::TYPE_MISMATCH),
        (0x2003, &[1], SdoAbortCode::NO_DATA),
        (0x2004, &[9], SdoAbortCode::VALUE_LOW),
        (0x2004, &[21], SdoAbortCode::VALUE_HIGH),
        (0x3000, &[1], SdoAbortCode::NO_OBJECT),
    ] {
        let request = client.download(index, 0, data, 0).unwrap();
        assert_eq!(exchange(&mut client, &mut server, &mut od, request), aborted(code));
    }
    assert_eq!(od.writes, 0);
}

#[test]
fn values_too_large_for_a_buffer() {
    let mut od = Shelf::new(&[7; 40]);

    // For the server, in either direction.
    let mut client: SdoClient<64> = SdoClient::new(id(9));
    let mut server: SdoServer<32> = SdoServer::new(id(9));
    let request = client.upload(0x2000, 0, 0).unwrap();
    assert_eq!(
        exchange(&mut client, &mut server, &mut od, request),
        aborted(SdoAbortCode::OUT_OF_MEMORY)
    );
    let request = client.download(0x2000, 0, &[1; 33], 0).unwrap();
    assert_eq!(
        exchange(&mut client, &mut server, &mut od, request),
        aborted(SdoAbortCode::OUT_OF_MEMORY)
    );

    // For the client.
    let mut client: SdoClient<32> = SdoClient::new(id(9));
    let mut server: SdoServer<64> = SdoServer::new(id(9));
    let request = client.upload(0x2000, 0, 0).unwrap();
    assert_eq!(
        exchange(&mut client, &mut server, &mut od, request),
        End::Failed(SdoTransferError::BufferTooSmall)
    );
    assert!(server.next_deadline().is_none());
    // Even where the value comes in one piece.
    let mut client: SdoClient<2> = SdoClient::new(id(9));
    let mut od = Shelf::new(b"abc");
    let request = client.upload(0x2000, 0, 0).unwrap();
    assert_eq!(
        exchange(&mut client, &mut server, &mut od, request),
        End::Failed(SdoTransferError::BufferTooSmall)
    );
}

#[test]
fn refused_segmented_downloads_fail_fast() {
    let mut client: SdoClient<64> = SdoClient::new(id(9));
    let mut server: SdoServer<64> = SdoServer::new(id(9));
    let mut od = Shelf::new(b"");
    let request = client.download(0x2001, 0, &[1; 20], 0).unwrap();
    let mut answer: Vec<CanFrame> = Vec::new();
    server.on_frame(&request, 0, &mut od, &mut answer);
    assert_eq!(answer[0].data(), &[0x80, 0x01, 0x20, 0, 0x02, 0, 0x01, 0x06]);
    assert!(server.next_deadline().is_none());
}

#[test]
fn a_request_cancels_a_stale_transfer() {
    let mut server: SdoServer<64> = SdoServer::new(id(9));
    let mut od = Shelf::new(b"a label of many bytes");
    let read_level = CanFrame::new(0x609, &[0x40, 0x04, 0x20, 0, 0, 0, 0, 0]).unwrap();
    let mut fresh: Vec<CanFrame> = Vec::new();
    server.on_frame(&read_level, 0, &mut od, &mut fresh);

    let mut stale: Vec<CanFrame> = Vec::new();
    let read_label = CanFrame::new(0x609, &[0x40, 0x00, 0x20, 0, 0, 0, 0, 0]).unwrap();
    server.on_frame(&read_label, 0, &mut od, &mut stale);
    assert!(server.next_deadline().is_some());
    stale.clear();
    server.on_frame(&read_level, 0, &mut od, &mut stale);
    assert_eq!(stale, fresh);
    assert!(server.next_deadline().is_none());
}

#[test]
fn toggle_bits_must_alternate() {
    let mut server: SdoServer<64> = SdoServer::new(id(9));
    let mut od = Shelf::new(b"a label of many bytes");
    let mut tx: Vec<CanFrame> = Vec::new();
    let read_label = CanFrame::new(0x609, &[0x40, 0x00, 0x20, 0, 0, 0, 0, 0]).unwrap();
    server.on_frame(&read_label, 0, &mut od, &mut tx);
    let segment = CanFrame::new(0x609, &[0x70, 0, 0, 0, 0, 0, 0, 0]).unwrap();
    server.on_frame(&segment, 0, &mut od, &mut tx);
    assert_eq!(tx[1].data(), &[0x80, 0x00, 0x20, 0, 0, 0, 0x03, 0x05]);
    assert!(server.next_deadline().is_none());
}

#[test]
fn writes_are_reported_once_at_the_end() {
    let mut client: SdoClient<64> = SdoClient::new(id(9));
    let mut server: SdoServer<64> = SdoServer::new(id(9));
    let mut od = Shelf::new(b"");
    let mut requests = vec![client.download(0x2000, 0, b"twenty bytes or more", 0).unwrap()];
    let mut written = Vec::new();
    while let Some(request) = requests.pop() {
        let mut responses: Vec<CanFrame> = Vec::new();
        let event = server.on_frame(&request, 0, &mut od, &mut responses);
        written.push(event);
        client.on_frame(&responses[0], 0, &mut requests);
    }
    assert_eq!(
        written,
        [None, None, None, Some(SdoServerEvent::ObjectWritten { index: 0x2000, sub: 0 })]
    );
}

#[test]
fn timeouts_are_per_message() {
    let mut client: SdoClient<64> = SdoClient::new(id(9));
    let mut tx: Vec<CanFrame> = Vec::new();
    client.set_timeout_us(1_000);
    client.upload(0x2000, 0, 0).unwrap();
    assert!(client.poll(999, &mut tx).is_none());
    let announce = CanFrame::new(0x589, &[0x41, 0x00, 0x20, 0, 14, 0, 0, 0]).unwrap();
    assert!(client.on_frame(&announce, 999, &mut tx).is_none());
    assert!(client.poll(1_998, &mut tx).is_none());
    assert_eq!(client.next_deadline(), Some(1_999));
    assert_eq!(
        client.poll(1_999, &mut tx),
        Some(SdoEvent::Failed { index: 0x2000, sub: 0, error: SdoTransferError::Timeout })
    );
    assert_eq!(tx.last().unwrap().data(), &[0x80, 0x00, 0x20, 0, 0, 0, 0x04, 0x05]);
    assert!(!client.is_busy() && client.next_deadline().is_none());
}

/// A dictionary with a TPDO and an RPDO of the given layout.
struct Wide {
    values: [u64; 2],
    bits: [u8; 2],
}

impl ObjectDictionary for Wide {
    fn info(&self, index: u16, sub: u8) -> Result<EntryInfo, OdError> {
        match (index, sub) {
            (0x2000, 1 | 2) => Ok(EntryInfo {
                data_type: DataType::Unsigned64,
                sdo: SdoAccess::ReadWrite,
                pdo: PdoAccess::Both,
                size: 8,
            }),
            _ => Err(OdError::ObjectNotFound),
        }
    }

    fn read(&self, index: u16, sub: u8, buf: &mut [u8]) -> Result<usize, OdError> {
        let used = if self.bits[1] == 0 { 1 } else { 2 };
        let map = |i: usize| 0x2000_0000 | (i as u32 + 1) << 8 | u32::from(self.bits[i]);
        match (index, sub) {
            (0x2000, 1 | 2) => od::read_bytes(buf, &self.values[sub as usize - 1].to_le_bytes()),
            (0x1400 | 0x1800, 1) => od::read_bytes(buf, &0x321u32.to_le_bytes()),
            (0x1400 | 0x1800, 2) => od::read_bytes(buf, &[255]),
            (0x1600 | 0x1A00, 0) => od::read_bytes(buf, &[used]),
            (0x1600 | 0x1A00, 1 | 2) => od::read_bytes(buf, &map(sub as usize - 1).to_le_bytes()),
            _ => Err(OdError::ObjectNotFound),
        }
    }

    fn write(&mut self, index: u16, sub: u8, data: &[u8]) -> Result<(), OdError> {
        match (index, sub) {
            (0x2000, 1 | 2) => {
                self.values[sub as usize - 1] = u64::from_le_bytes(od::exact::<8>(data)?);
                Ok(())
            }
            _ => Err(OdError::ObjectNotFound),
        }
    }
}

#[test]
fn pdos_transport_values() {
    let values = [0x0123_4567_89AB_CDEF, 0xFEDC_BA98_7654_3210];
    for bits in [[64, 0], [63, 1], [1, 63], [32, 32], [7, 0], [3, 9]] {
        let sender = Wide { values, bits };
        let mut receiver = Wide { values: [u64::MAX; 2], bits };
        let mut tpdo = Tpdo::from_od(&sender, 0).unwrap();
        let rpdo = Rpdo::from_od(&receiver, 0).unwrap();
        let mut tx: Vec<CanFrame> = Vec::new();
        assert_eq!(tpdo.process(&sender, true, 0, &mut tx), None);
        let total = usize::from(bits[0] + bits[1]);
        assert_eq!(tx[0].data().len(), (total + 7) / 8);
        assert!(rpdo.on_frame(&tx[0], &mut receiver));
        for i in 0..2 {
            if bits[i] > 0 {
                assert_eq!(receiver.values[i], values[i] & (u64::MAX >> (64 - bits[i])));
            } else {
                assert_eq!(receiver.values[i], u64::MAX, "not mapped, not written");
            }
        }
        // A frame that is too short is not applied.
        let short = CanFrame::new(0x321, &tx[0].data()[1..]).unwrap();
        assert!(!rpdo.on_frame(&short, &mut receiver));
    }
    assert!(Tpdo::from_od(&Wide { values, bits: [33, 32] }, 0).is_none(), "more than 64 bits");
    assert!(Tpdo::from_od(&Wide { values, bits: [65, 0] }, 0).is_none(), "longer than the entry");
    assert!(Tpdo::from_od(&Wide { values, bits: [8, 0] }, 1).is_none(), "not configured");
}

#[test]
fn nmt_commands_round_trip() {
    for command in [
        NmtCommand::Start,
        NmtCommand::Stop,
        NmtCommand::EnterPreOperational,
        NmtCommand::ResetNode,
        NmtCommand::ResetCommunication,
    ] {
        assert_eq!(NmtCommand::from_byte(command.as_byte()), Some(command));
        // Broadcast and addressed commands act alike.
        let mut addressed = NmtSlave::new(id(5));
        let mut broadcast = NmtSlave::new(id(5));
        addressed.finish_boot();
        broadcast.finish_boot();
        assert_eq!(
            addressed.on_nmt_frame(&[command.as_byte(), 5]),
            broadcast.on_nmt_frame(&[command.as_byte(), 0])
        );
        assert_eq!(addressed.state(), broadcast.state());
        assert_ne!(addressed.state(), NmtState::Initializing);
    }
    let known = (0..=255u8).filter(|b| NmtCommand::from_byte(*b).is_some()).count();
    assert_eq!(known, 5);
    let mut slave = NmtSlave::new(id(5));
    assert_eq!(slave.apply(NmtCommand::ResetNode), Some(NmtResetRequest::Node));
    assert_eq!(slave.state(), NmtState::Initializing);
    assert_eq!(NmtState::Initializing.as_byte(), 0x00);
    assert_eq!(NmtState::Stopped.as_byte(), 0x04);
    assert_eq!(NmtState::Operational.as_byte(), 0x05);
    assert_eq!(NmtState::PreOperational.as_byte(), 0x7F);
}

#[test]
fn heartbeat_deadlines_are_ahead() {
    let mut producer = HeartbeatProducer::new(id(3), 10);
    let mut tx: Vec<CanFrame> = Vec::new();
    let mut now = 5;
    for cycle in 1..=20 {
        let next = producer.process(NmtState::Operational, now, &mut tx).unwrap();
        assert_eq!(tx.len(), cycle);
        assert_eq!(producer.process(NmtState::Operational, next - 1, &mut tx), Some(next));
        assert_eq!(tx.len(), cycle, "nothing before the deadline");
        assert_eq!(next, now + 10_000);
        now = next;
    }
}

#[test]
fn abort_codes_tell_errors_apart() {
    let errors = [
        OdError::ObjectNotFound,
        OdError::SubIndexNotFound,
        OdError::WriteOnly,
        OdError::ReadOnly,
        OdError::TypeMismatch,
        OdError::DataTooLong,
        OdError::ValueTooHigh,
        OdError::ValueTooLow,
        OdError::NoData,
        OdError::BufferTooSmall,
    ];
    for a in errors {
        for b in errors {
            assert_eq!(a.abort_code() == b.abort_code(), a == b);
        }
    }
}

fn node_10() -> Node<Od> {
    let mut node = Node::new(id(10), Od::new(id(10)));
    let mut queue = TxQueue::new();
    begin(&mut node, 0, &mut queue);
    node
}

fn send(node: &mut Node<Od>, id: u16, data: &[u8]) -> (Option<ResetCommand>, Vec<CanFrame>) {
    let mut queue = TxQueue::new();
    let frame = CanFrame::new(id, data).unwrap();
    let reset = deliver(node, &frame, 0, &mut queue);
    (reset, queue.frames().to_vec())
}

#[test]
fn a_stopped_node_is_silent() {
    let mut node = node_10();
    send(&mut node, 0x000, &[0x02, 10]);
    for (id, data) in [
        (0x60A, &[0x2B, 0x17, 0x10, 0, 100, 0, 0, 0][..]),
        (0x20A, &[0xFF, 0xFF]),
        (0x70B, &[0x05]),
    ] {
        assert_eq!(send(&mut node, id, data), (None, vec![]));
    }
    assert_eq!(node.od().x1017_producer_heartbeat_time, 0);
    assert_eq!(node.od().x2010_sub_object_5, 0);
    assert_eq!(node.nmt_state(), NmtState::Stopped);
}

#[test]
fn only_mapped_objects_trigger_a_tpdo() {
    let mut node = node_10();
    let mut queue = TxQueue::new();
    send(&mut node, 0x000, &[0x01, 10]);
    wake(&mut node, 0, &mut queue);
    assert_eq!(queue.frames().len(), 1, "on entering operational");

    queue.clear();
    send(&mut node, 0x60A, &[0x2F, 0x10, 0x20, 1, 1, 0, 0, 0]);
    wake(&mut node, 1_000_000, &mut queue);
    assert!(queue.frames().is_empty());

    send(&mut node, 0x60A, &[0x2F, 0x00, 0x20, 5, 0x42, 0, 0, 0]);
    wake(&mut node, 1_000_000, &mut queue);
    assert_eq!(queue.frames(), &[CanFrame::new(0x18A, &[0x08, 0x01]).unwrap()]);

    queue.clear();
    send(&mut node, 0x60A, &[0x2F, 0x00, 0x20, 1, 1, 0, 0, 0]);
    wake(&mut node, 2_000_000, &mut queue);
    assert_eq!(queue.frames(), &[CanFrame::new(0x18A, &[0x09, 0x01]).unwrap()]);

    // Received values are written.
    send(&mut node, 0x20A, &[0xDD, 0x00]);
    assert_eq!(node.od().x2010_sub_object_1, 1);
    assert_eq!(node.od().x2010_sub_object_5, 0x37);
}

#[test]
fn values_survive_a_communication_reset() {
    let mut node = node_10();
    // Event timer of TPDO1: one second.
    let (_, answer) = send(&mut node, 0x60A, &[0x2B, 0x00, 0x18, 5, 0xE8, 0x03, 0, 0]);
    assert_eq!(answer[0].data()[0], 0x60);
    send(&mut node, 0x000, &[0x01, 10]);
    let mut queue = TxQueue::new();
    wake(&mut node, 0, &mut queue);
    queue.clear();
    wake(&mut node, 1_000_000, &mut queue);
    assert!(queue.frames().is_empty(), "not in force yet");

    let (reset, _) = send(&mut node, 0x000, &[0x82, 10]);
    let mut node = restart(node, reset.unwrap(), Od::new(id(10)));
    assert_eq!(node.nmt_state(), NmtState::Initializing);
    begin(&mut node, 1_000_000, &mut queue);
    assert_eq!(queue.frames(), &[CanFrame::new(0x70A, &[0x00]).unwrap()]);
    queue.clear();
    send(&mut node, 0x000, &[0x01, 10]);
    for second in 2..6 {
        wake(&mut node, second * 1_000_000, &mut queue);
        assert_eq!(queue.frames(), &[CanFrame::new(0x18A, &[0x00, 0x00]).unwrap()]);
        queue.clear();
    }

    // A node reset restores the defaults.
    let (reset, _) = send(&mut node, 0x000, &[0x81, 10]);
    assert_eq!(reset, Some(ResetCommand::Node));
    let mut node = restart(node, ResetCommand::Node, Od::new(id(10)));
    begin(&mut node, 6_000_000, &mut queue);
    queue.clear();
    send(&mut node, 0x000, &[0x01, 10]);
    wake(&mut node, 6_000_000, &mut queue);
    queue.clear();
    wake(&mut node, 60_000_000, &mut queue);
    assert!(queue.frames().is_empty());
    assert_eq!(node.into_od().x2000_sub_object_1, 0);
}

#[test]
fn processing_again_is_quiet() {
    let mut node = node_10();
    node.od_mut().x1017_producer_heartbeat_time = 10;
    node.refresh_comm_config();
    send(&mut node, 0x000, &[0x01, 10]);
    let mut tx: Vec<CanFrame> = Vec::new();
    for now in [10_000, 20_000, 35_000] {
        tx.clear();
        let next = node.process(now, &mut tx);
        assert!(!tx.is_empty());
        tx.clear();
        assert_eq!(node.process(now, &mut tx), next);
        assert!(tx.is_empty());
    }
}

#[test]
fn application_access() {
    let mut node = node_10();
    let mut tx: Vec<CanFrame> = Vec::new();
    send(&mut node, 0x000, &[0x01, 10]);
    node.process(0, &mut tx);
    tx.clear();
    node.od_mut().x2000_sub_object_2 = 1;
    node.tpdo_request(0);
    node.tpdo_request(99);
    node.process(1_000_000, &mut tx);
    assert_eq!(tx, [CanFrame::new(0x18A, &[0x02, 0x00]).unwrap()]);

    node.od_mut().x1017_producer_heartbeat_time = 5;
    node.refresh_comm_config();
    tx.clear();
    assert_eq!(node.process(2_000_000, &mut tx), Some(2_005_000));
    assert_eq!(tx, [CanFrame::new(0x70A, &[0x05]).unwrap()]);
}

#[test]
fn parameters_are_read_back_over_sdo() {
    let mut client: SdoClient<256> = SdoClient::new(id(10));
    let mut server: SdoServer<256> = SdoServer::new(id(10));
    let mut od = Od::new(id(10));
    for (index, sub, value) in [
        (0x1017, 0, &[0xE8, 0x03][..]),
        (0x1800, 5, &[0x0A, 0x00]),
        (0x2000, 5, &[0x42]),
        (0x1A00, 1, &[0x08, 0x05, 0x00, 0x20]),
    ] {
        let request = client.download(index, sub, value, 0).unwrap();
        assert_eq!(exchange(&mut client, &mut server, &mut od, request), End::Downloaded);
        let request = client.upload(index, sub, 0).unwrap();
        assert_eq!(
            exchange(&mut client, &mut server, &mut od, request),
            End::Uploaded(value.to_vec())
        );
    }
}

#[test]
fn download_segments_come_in_order() {
    let value: Vec<u8> = (1..=17).collect();
    let mut client: SdoClient<64> = SdoClient::new(id(9));
    client.download(0x2000, 0, &value, 0).unwrap();
    let mut tx: Vec<CanFrame> = Vec::new();
    let accept = CanFrame::new(0x589, &[0x60, 0x00, 0x20, 0, 0, 0, 0, 0]).unwrap();
    assert_eq!(client.on_frame(&accept, 0, &mut tx), None);
    for toggle in [0x20, 0x30] {
        let ack = CanFrame::new(0x589, &[toggle, 0, 0, 0, 0, 0, 0, 0]).unwrap();
        assert_eq!(client.on_frame(&ack, 0, &mut tx), None);
    }
    let payloads: Vec<&[u8]> = tx.iter().map(|f| f.data()).collect();
    assert_eq!(
        payloads,
        [
            &[0x00, 1, 2, 3, 4, 5, 6, 7][..],
            &[0x10, 8, 9, 10, 11, 12, 13, 14],
            &[0x09, 15, 16, 17, 0, 0, 0, 0],
        ]
    );
    let last = CanFrame::new(0x589, &[0x20, 0, 0, 0, 0, 0, 0, 0]).unwrap();
    assert_eq!(
        client.on_frame(&last, 0, &mut tx),
        Some(SdoEvent::DownloadOk { index: 0x2000, sub: 0 })
    );
    assert_eq!(tx.len(), 3);
}

#[test]
fn the_announced_size_is_binding() {
    for (announced, code) in [(6u8, Some(0x12)), (7, None), (8, Some(0x13))] {
        let mut server: SdoServer<64> = SdoServer::new(id(9));
        let mut od = Shelf::new(b"before");
        let mut tx: Vec<CanFrame> = Vec::new();
        let request = [0x21, 0x00, 0x20, 0, announced, 0, 0, 0];
        server.on_frame(&CanFrame::new(0x609, &request).unwrap(), 0, &mut od, &mut tx);
        let segment = CanFrame::new(0x609, b"\x01segment").unwrap();
        server.on_frame(&segment, 0, &mut od, &mut tx);
        assert!(server.next_deadline().is_none());
        match code {
            Some(low) => {
                assert_eq!(tx[1].data(), &[0x80, 0x00, 0x20, 0, low, 0, 0x07, 0x06]);
                assert_eq!((od.label.as_bytes(), od.writes), (&b"before"[..], 0));
            }
            None => {
                assert_eq!(tx[1].data(), &[0x20, 0x00, 0x20, 0, 0, 0, 0, 0]);
                assert_eq!((od.label.as_bytes(), od.writes), (&b"segment"[..], 1));
            }
        }
    }
}
