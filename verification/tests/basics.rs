//! Node ids, COB-IDs, frames, NMT, heartbeat and dictionary helpers.

use canopen_core::cob::{emcy, heartbeat, rpdo1, sdo_rx, sdo_tx, tpdo1};
use canopen_core::heartbeat::HeartbeatProducer;
use canopen_core::nmt::{NmtResetRequest, NmtSlave, NmtState};
use canopen_core::od::{exact, read_bytes, OdError, OdString};
use canopen_core::sdo::SdoAbortCode;
use canopen_core::{CanFrame, NodeId};

#[test]
fn predefined_connection_set() {
    let n = NodeId::new(0x0A).unwrap();
    assert_eq!(emcy(n), 0x08A);
    assert_eq!(tpdo1(n), 0x18A);
    assert_eq!(rpdo1(n), 0x20A);
    assert_eq!(sdo_tx(n), 0x58A);
    assert_eq!(sdo_rx(n), 0x60A);
    assert_eq!(heartbeat(n), 0x70A);
}

#[test]
fn valid_range() {
    assert!(NodeId::new(0).is_none());
    assert_eq!(NodeId::new(1).unwrap().raw(), 1);
    assert_eq!(NodeId::new(127).unwrap().raw(), 127);
    assert!(NodeId::new(128).is_none());
    assert!(NodeId::new(255).is_none());
}

#[test]
fn construction_limits() {
    assert!(CanFrame::new(0x7FF, &[0; 8]).is_some());
    assert!(CanFrame::new(0x800, &[]).is_none());
    assert!(CanFrame::new(0, &[0; 9]).is_none());
}

#[test]
fn payload_roundtrip() {
    let f = CanFrame::new(0x601, &[0x40, 0x17, 0x10, 0x00]).unwrap();
    assert_eq!(f.id(), 0x601);
    assert_eq!(f.dlc(), 4);
    assert_eq!(f.data(), &[0x40, 0x17, 0x10, 0x00]);
}

fn producer(period_ms: u16) -> HeartbeatProducer {
    HeartbeatProducer::new(NodeId::new(5).unwrap(), period_ms)
}

#[test]
fn boot_up_message() {
    let mut hb = producer(1000);
    let mut sent: Vec<CanFrame> = Vec::new();
    hb.send_boot_up(0, &mut sent);
    assert_eq!(sent, [CanFrame::new(0x705, &[0x00]).unwrap()]);
}

#[test]
fn cyclic_heartbeat_with_injected_clock() {
    let mut hb = producer(100); // 100 ms
    let mut sent: Vec<CanFrame> = Vec::new();
    hb.send_boot_up(0, &mut sent);

    // Not yet due at 50 ms.
    let next = hb.process(NmtState::PreOperational, 50_000, &mut sent);
    assert_eq!(next, Some(100_000));
    assert_eq!(sent.len(), 1);

    // Due at 100 ms; pre-operational is reported as 0x7F.
    hb.process(NmtState::PreOperational, 100_000, &mut sent);
    assert_eq!(sent.len(), 2);
    assert_eq!(sent[1], CanFrame::new(0x705, &[0x7F]).unwrap());

    // State changes show up in the next heartbeat.
    hb.process(NmtState::Operational, 200_000, &mut sent);
    assert_eq!(sent[2], CanFrame::new(0x705, &[0x05]).unwrap());
}

#[test]
fn disabled_when_period_zero() {
    let mut hb = producer(0);
    let mut sent: Vec<CanFrame> = Vec::new();
    assert_eq!(
        hb.process(NmtState::Operational, 1_000_000, &mut sent),
        None
    );
    assert_eq!(sent.len(), 0);
}

#[test]
fn period_change_at_runtime() {
    let mut hb = producer(0);
    let mut sent: Vec<CanFrame> = Vec::new();
    hb.set_period_ms(10);
    hb.process(NmtState::Operational, 0, &mut sent);
    assert_eq!(sent.len(), 1); // first process after enabling sends immediately
    hb.process(NmtState::Operational, 5_000, &mut sent);
    assert_eq!(sent.len(), 1);
    hb.process(NmtState::Operational, 10_000, &mut sent);
    assert_eq!(sent.len(), 2);
}

fn slave() -> NmtSlave {
    let mut s = NmtSlave::new(NodeId::new(10).unwrap());
    s.finish_boot();
    s
}

#[test]
fn boot_enters_preoperational() {
    let mut s = NmtSlave::new(NodeId::new(10).unwrap());
    assert_eq!(s.state(), NmtState::Initializing);
    s.finish_boot();
    assert_eq!(s.state(), NmtState::PreOperational);
}

#[test]
fn addressed_and_broadcast_commands() {
    let mut s = slave();
    assert_eq!(s.on_nmt_frame(&[0x01, 10]), None);
    assert_eq!(s.state(), NmtState::Operational);
    assert_eq!(s.on_nmt_frame(&[0x02, 0]), None); // broadcast
    assert_eq!(s.state(), NmtState::Stopped);
    assert_eq!(s.on_nmt_frame(&[0x80, 10]), None);
    assert_eq!(s.state(), NmtState::PreOperational);
}

#[test]
fn foreign_and_malformed_frames_ignored() {
    let mut s = slave();
    assert_eq!(s.on_nmt_frame(&[0x01, 11]), None); // other node
    assert_eq!(s.state(), NmtState::PreOperational);
    assert_eq!(s.on_nmt_frame(&[0x01]), None); // short frame
    assert_eq!(s.on_nmt_frame(&[0x55, 10]), None); // unknown command
    assert_eq!(s.state(), NmtState::PreOperational);
}

#[test]
fn reset_commands_are_reported() {
    let mut s = slave();
    assert_eq!(s.on_nmt_frame(&[0x81, 10]), Some(NmtResetRequest::Node));
    assert_eq!(
        s.on_nmt_frame(&[0x82, 0]),
        Some(NmtResetRequest::Communication)
    );
}

#[test]
fn service_availability_per_state() {
    assert!(NmtState::PreOperational.sdo_active());
    assert!(!NmtState::PreOperational.pdo_active());
    assert!(NmtState::Operational.sdo_active());
    assert!(NmtState::Operational.pdo_active());
    assert!(!NmtState::Stopped.sdo_active());
    assert!(!NmtState::Stopped.pdo_active());
}

#[test]
fn od_string_semantics() {
    let mut s: OdString<8> = OdString::new(b"abc");
    assert_eq!(s.as_bytes(), b"abc");
    assert_eq!(s.len(), 3);
    s.set(b"defgh").unwrap();
    assert_eq!(s.as_bytes(), b"defgh");
    assert_eq!(s.set(b"123456789"), Err(OdError::DataTooLong));
    // Truncating construction.
    let t: OdString<2> = OdString::new(b"xyz");
    assert_eq!(t.as_bytes(), b"xy");
}

#[test]
fn helpers() {
    let mut buf = [0u8; 4];
    assert_eq!(read_bytes(&mut buf, &[1, 2]), Ok(2));
    assert_eq!(&buf[..2], &[1, 2]);
    let mut small = [0u8; 1];
    assert_eq!(read_bytes(&mut small, &[1, 2]), Err(OdError::BufferTooSmall));

    assert_eq!(exact::<2>(&[1, 2]), Ok([1, 2]));
    assert_eq!(exact::<2>(&[1]), Err(OdError::TypeMismatch));
}

#[test]
fn abort_mapping() {
    assert_eq!(
        OdError::ObjectNotFound.abort_code(),
        SdoAbortCode(SdoAbortCode::NO_OBJECT)
    );
    assert_eq!(OdError::ReadOnly.abort_code(), SdoAbortCode(SdoAbortCode::READ_ONLY));
    assert_eq!(OdError::NoData.abort_code(), SdoAbortCode(SdoAbortCode::NO_DATA));
}
