//! The node over a minimal dictionary.

use canopen_core::nmt::NmtState;
use canopen_core::od::{self, DataType, EntryInfo, ObjectDictionary, OdError, PdoAccess, SdoAccess};
use canopen_core::{CanFrame, Node, NodeId, ResetCommand};

/// Minimal OD with just the producer heartbeat time (0x1017, rw).
struct TestOd {
    heartbeat_ms: u16,
}

impl ObjectDictionary for TestOd {
    fn info(&self, index: u16, sub: u8) -> Result<EntryInfo, OdError> {
        match (index, sub) {
            (0x1017, 0) => Ok(EntryInfo {
                data_type: DataType::Unsigned16,
                sdo: SdoAccess::ReadWrite,
                pdo: PdoAccess::No,
                size: 2,
            }),
            (0x1017, _) => Err(OdError::SubIndexNotFound),
            _ => Err(OdError::ObjectNotFound),
        }
    }

    fn read(&self, index: u16, sub: u8, buf: &mut [u8]) -> Result<usize, OdError> {
        match (index, sub) {
            (0x1017, 0) => od::read_bytes(buf, &self.heartbeat_ms.to_le_bytes()),
            (0x1017, _) => Err(OdError::SubIndexNotFound),
            _ => Err(OdError::ObjectNotFound),
        }
    }

    fn write(&mut self, index: u16, sub: u8, data: &[u8]) -> Result<(), OdError> {
        match (index, sub) {
            (0x1017, 0) => {
                self.heartbeat_ms = u16::from_le_bytes(od::exact::<2>(data)?);
                Ok(())
            }
            (0x1017, _) => Err(OdError::SubIndexNotFound),
            _ => Err(OdError::ObjectNotFound),
        }
    }
}

fn node(heartbeat_ms: u16) -> Node<TestOd> {
    Node::new(NodeId::new(3).unwrap(), TestOd { heartbeat_ms })
}

#[test]
fn boot_sequence_and_heartbeat_lifecycle() {
    let mut node = node(50);
    let mut sent: Vec<CanFrame> = Vec::new();

    node.start(0, &mut sent);
    assert_eq!(sent, [CanFrame::new(0x703, &[0x00]).unwrap()]);
    assert_eq!(node.nmt_state(), NmtState::PreOperational);

    // Heartbeat period comes from OD 0x1017: due after 50 ms.
    let next = node.process(50_000, &mut sent);
    assert_eq!(next, Some(100_000));
    assert_eq!(*sent.last().unwrap(), CanFrame::new(0x703, &[0x7F]).unwrap());

    // NMT start via broadcast, next heartbeat reports operational.
    let nmt_start = CanFrame::new(0x000, &[0x01, 0x00]).unwrap();
    assert_eq!(node.on_frame(&nmt_start, 60_000, &mut sent), None);
    assert_eq!(node.nmt_state(), NmtState::Operational);
    node.process(100_000, &mut sent);
    assert_eq!(*sent.last().unwrap(), CanFrame::new(0x703, &[0x05]).unwrap());
}

#[test]
fn reset_communication_is_surfaced() {
    let mut node = node(0);
    let mut sent: Vec<CanFrame> = Vec::new();
    node.start(0, &mut sent);

    let reset = CanFrame::new(0x000, &[0x82, 3]).unwrap();
    assert_eq!(
        node.on_frame(&reset, 1_000, &mut sent),
        Some(ResetCommand::Communication)
    );
}

#[test]
fn sdo_server_serves_od_and_heartbeat_write_takes_effect() {
    let mut node = node(0);
    let mut sent: Vec<CanFrame> = Vec::new();
    node.start(0, &mut sent);
    assert_eq!(node.process(1_000_000, &mut sent), None, "hb disabled");

    // SDO write 0x1017 = 100 ms.
    let req = CanFrame::new(0x603, &[0x2B, 0x17, 0x10, 0x00, 100, 0, 0, 0]).unwrap();
    sent.clear();
    node.on_frame(&req, 1_000_000, &mut sent);
    assert_eq!(sent[0].data()[0], 0x60, "SDO write response");
    assert_eq!(node.od().heartbeat_ms, 100);

    // The heartbeat producer picked the new period up immediately.
    sent.clear();
    node.process(1_000_000, &mut sent);
    assert_eq!(sent.len(), 1);
    assert_eq!(sent[0].id(), 0x703);
    let next = node.process(1_050_000, &mut sent);
    assert_eq!(next, Some(1_100_000));

    // SDO read 0x1017 returns the new value.
    sent.clear();
    let req = CanFrame::new(0x603, &[0x40, 0x17, 0x10, 0x00, 0, 0, 0, 0]).unwrap();
    node.on_frame(&req, 1_060_000, &mut sent);
    assert_eq!(sent[0].data(), &[0x4B, 0x17, 0x10, 0x00, 100, 0, 0, 0]);
}

#[test]
fn sdo_is_inactive_in_stopped_state() {
    let mut node = node(0);
    let mut sent: Vec<CanFrame> = Vec::new();
    node.start(0, &mut sent);

    let stop = CanFrame::new(0x000, &[0x02, 3]).unwrap();
    node.on_frame(&stop, 0, &mut sent);
    assert_eq!(node.nmt_state(), NmtState::Stopped);

    sent.clear();
    let req = CanFrame::new(0x603, &[0x40, 0x17, 0x10, 0x00, 0, 0, 0, 0]).unwrap();
    node.on_frame(&req, 0, &mut sent);
    assert!(sent.is_empty(), "no SDO response in stopped state");
}
