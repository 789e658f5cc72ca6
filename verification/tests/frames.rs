//! Conversion to and from what CAN drivers use, and byte order.

use canopen_core::bytes::{copy_at, u16_from_le, u16_to_le, u32_from_le, u32_to_le, u64_from_le, u64_to_le};
use canopen_core::cob::{emcy, heartbeat, rpdo1, sdo_rx, sdo_tx, tpdo1, NMT_SERVICE, SYNC, TIME};
use canopen_core::{CanFrame, NodeId};
use embedded_can::{ExtendedId, Id, StandardId};

#[test]
fn standard_data_frames_are_taken_over() {
    let id = Id::Standard(StandardId::new(0x60A).unwrap());
    let frame = CanFrame::from_embedded(false, id, &[1, 2, 3]).unwrap();
    assert_eq!(frame, CanFrame::new(0x60A, &[1, 2, 3]).unwrap());
}

#[test]
fn remote_extended_and_long_frames_are_not() {
    let standard = Id::Standard(StandardId::new(0x60A).unwrap());
    let extended = Id::Extended(ExtendedId::new(0x60A).unwrap());
    assert_eq!(CanFrame::from_embedded(true, standard, &[]), None);
    assert_eq!(CanFrame::from_embedded(false, extended, &[]), None);
    assert_eq!(CanFrame::from_embedded(false, standard, &[0; 9]), None);
}

#[test]
fn only_a_standard_identifier_makes_a_frame() {
    assert_eq!(CanFrame::from_standard(None, &[1]), None);
    assert_eq!(CanFrame::from_standard(Some(0x800), &[1]), None);
    assert_eq!(CanFrame::from_standard(Some(0x7FF), &[1]), CanFrame::new(0x7FF, &[1]));
}

#[test]
fn conversion_round_trip() {
    for raw in [0x000u16, 0x001, 0x18A, 0x7FF] {
        let frame = CanFrame::new(raw, &[0xDE, 0xAD]).unwrap();
        let (id, data) = frame.to_embedded();
        assert_eq!(id, Id::Standard(StandardId::new(raw).unwrap()));
        assert_eq!(data, &[0xDE, 0xAD]);
        assert_eq!(CanFrame::from_embedded(false, id, data), Some(frame));
    }
}

#[test]
fn frames_with_equal_content_are_equal() {
    let long = CanFrame::new(0x100, &[1, 2, 3]).unwrap();
    let short = CanFrame::new(0x100, &[1, 2]).unwrap();
    assert_ne!(long, short);
    assert_eq!(short, CanFrame::new(0x100, &long.data()[..2]).unwrap());
    assert_eq!(CanFrame::new(0, &[]).unwrap().dlc(), 0);
}

#[test]
fn numbers_are_little_endian() {
    assert_eq!(u16_to_le(0x1234), [0x34, 0x12]);
    assert_eq!(u32_to_le(0xAABB_CCDD), [0xDD, 0xCC, 0xBB, 0xAA]);
    assert_eq!(u64_to_le(0x0102_0304_0506_0708), [8, 7, 6, 5, 4, 3, 2, 1]);
    assert_eq!(u16_from_le(0x34, 0x12), 0x1234);
    assert_eq!(u32_from_le(0xDD, 0xCC, 0xBB, 0xAA), 0xAABB_CCDD);
    assert_eq!(u64_from_le(&[0xFF; 8]), u64::MAX);
    for value in [0u64, 1, 0x80, 0xFFFF_FFFF, u64::MAX - 1] {
        assert_eq!(u64_to_le(value), value.to_le_bytes());
        assert_eq!(u64_from_le(&value.to_le_bytes()), value);
    }
}

#[test]
fn copying_overwrites_only_its_place() {
    let mut buf = [9u8; 6];
    copy_at(&mut buf, 2, &[1, 2, 3]);
    assert_eq!(buf, [9, 9, 1, 2, 3, 9]);
    copy_at(&mut buf, 6, &[]);
    assert_eq!(buf, [9, 9, 1, 2, 3, 9]);
}

#[test]
fn connection_set_has_no_collisions() {
    let mut seen = vec![NMT_SERVICE, SYNC, TIME];
    for raw in 1..=127u8 {
        let node = NodeId::new(raw).unwrap();
        for id in [
            emcy(node),
            tpdo1(node),
            rpdo1(node),
            sdo_tx(node),
            sdo_rx(node),
            heartbeat(node),
        ] {
            assert!(id <= 0x7FF);
            assert!(!seen.contains(&id), "{id:#X} used twice");
            seen.push(id);
        }
    }
}

#[test]
fn node_id_as_text() {
    assert_eq!(NodeId::new(7).unwrap().to_text(), "7");
    assert_eq!(NodeId::new(127).unwrap().to_text(), "127");
}
