//! PDO mapping, packing and timing.

use canopen_core::od::{self, DataType, EntryInfo, ObjectDictionary, OdError, PdoAccess, SdoAccess};
use canopen_core::pdo::{resolve_entry, Rpdo, Tpdo};
use canopen_core::CanFrame;

/// OD with 0x2000 (TPDO source: 2 bools, u8,
/// u16), 0x2010 (RPDO sink), TPDO1/RPDO1 comm + mapping.
struct PdoOd {
    t_bool1: u8,
    t_bool2: u8,
    t_u8: u8,
    r_bool1: u8,
    r_bool2: u8,
    r_u8: u8,
    tpdo_event_ms: u16,
    tpdo_inhibit_100us: u16,
    tpdo_cob: u32,
    map_count: u8,
}

impl Default for PdoOd {
    fn default() -> Self {
        Self {
            t_bool1: 0,
            t_bool2: 0,
            t_u8: 0,
            r_bool1: 0,
            r_bool2: 0,
            r_u8: 0,
            tpdo_event_ms: 0,
            tpdo_inhibit_100us: 0,
            tpdo_cob: 0x18A,
            map_count: 3,
        }
    }
}

impl ObjectDictionary for PdoOd {
    fn info(&self, index: u16, sub: u8) -> Result<EntryInfo, OdError> {
        let e = |data_type, pdo, size| {
            Ok(EntryInfo {
                data_type,
                sdo: SdoAccess::ReadWrite,
                pdo,
                size,
            })
        };
        match (index, sub) {
            (0x2000, 1 | 2) => e(DataType::Boolean, PdoAccess::Tpdo, 1),
            (0x2000, 5) => e(DataType::Unsigned8, PdoAccess::Tpdo, 1),
            (0x2010, 1 | 2) => e(DataType::Boolean, PdoAccess::Rpdo, 1),
            (0x2010, 5) => e(DataType::Unsigned8, PdoAccess::Rpdo, 1),
            _ => Err(OdError::ObjectNotFound),
        }
    }

    fn read(&self, index: u16, sub: u8, buf: &mut [u8]) -> Result<usize, OdError> {
        let b = |buf: &mut [u8], v: u8| od::read_bytes(buf, &[v]);
        match (index, sub) {
            (0x2000, 1) => b(buf, self.t_bool1),
            (0x2000, 2) => b(buf, self.t_bool2),
            (0x2000, 5) => b(buf, self.t_u8),
            (0x2010, 1) => b(buf, self.r_bool1),
            (0x2010, 2) => b(buf, self.r_bool2),
            (0x2010, 5) => b(buf, self.r_u8),
            // TPDO1 communication parameter.
            (0x1800, 1) => od::read_bytes(buf, &self.tpdo_cob.to_le_bytes()),
            (0x1800, 2) => b(buf, 254),
            (0x1800, 3) => od::read_bytes(buf, &self.tpdo_inhibit_100us.to_le_bytes()),
            (0x1800, 5) => od::read_bytes(buf, &self.tpdo_event_ms.to_le_bytes()),
            // TPDO1 mapping: 0x2000:01/1bit, :02/1bit, :05/8bit.
            (0x1A00, 0) => b(buf, self.map_count),
            (0x1A00, 1) => od::read_bytes(buf, &0x2000_0101u32.to_le_bytes()),
            (0x1A00, 2) => od::read_bytes(buf, &0x2000_0201u32.to_le_bytes()),
            (0x1A00, 3) => od::read_bytes(buf, &0x2000_0508u32.to_le_bytes()),
            // RPDO1 communication parameter.
            (0x1400, 1) => od::read_bytes(buf, &0x20Au32.to_le_bytes()),
            (0x1400, 2) => b(buf, 254),
            // RPDO1 mapping: 0x2010:01/1bit, :02/1bit, :05/8bit.
            (0x1600, 0) => b(buf, 3),
            (0x1600, 1) => od::read_bytes(buf, &0x2010_0101u32.to_le_bytes()),
            (0x1600, 2) => od::read_bytes(buf, &0x2010_0201u32.to_le_bytes()),
            (0x1600, 3) => od::read_bytes(buf, &0x2010_0508u32.to_le_bytes()),
            _ => Err(OdError::ObjectNotFound),
        }
    }

    fn write(&mut self, index: u16, sub: u8, data: &[u8]) -> Result<(), OdError> {
        let v = u8::from_le_bytes(od::exact::<1>(data)?);
        match (index, sub) {
            (0x2010, 1) => self.r_bool1 = v,
            (0x2010, 2) => self.r_bool2 = v,
            (0x2010, 5) => self.r_u8 = v,
            _ => return Err(OdError::ObjectNotFound),
        }
        Ok(())
    }
}

#[test]
fn tpdo_packs_bits_lsb_first_like_c() {
    let mut od = PdoOd::default();
    od.t_bool1 = 1;
    od.t_bool2 = 0;
    od.t_u8 = 0xA5;
    let mut tpdo = Tpdo::from_od(&od, 0).unwrap();

    let mut sent: Vec<CanFrame> = Vec::new();
    tpdo.request();
    tpdo.process(&od, true, 0, &mut sent);

    // 10 bits -> DLC 2. Layout: bit0 = bool1, bit1 = bool2,
    // bits 2..10 = u8 value LSB-first.
    assert_eq!(sent.len(), 1);
    assert_eq!(sent[0].id(), 0x18A);
    let expected = 0b1u64 | (0xA5u64 << 2);
    assert_eq!(sent[0].data(), &expected.to_le_bytes()[..2]);
}

#[test]
fn rpdo_unpacks_and_writes_zero_extended() {
    let mut od = PdoOd::default();
    let rpdo = Rpdo::from_od(&od, 0).unwrap();

    let word = 0b0_1u64 | (1u64 << 1) | (0x42u64 << 2);
    let frame = CanFrame::new(0x20A, &word.to_le_bytes()[..2]).unwrap();
    assert!(rpdo.on_frame(&frame, &mut od));
    assert_eq!(od.r_bool1, 1);
    assert_eq!(od.r_bool2, 1);
    assert_eq!(od.r_u8, 0x42);

    // Foreign COB-ID and short frames are ignored.
    let foreign = CanFrame::new(0x20B, &[0, 0]).unwrap();
    assert!(!rpdo.on_frame(&foreign, &mut od));
    let short = CanFrame::new(0x20A, &[0]).unwrap();
    assert!(!rpdo.on_frame(&short, &mut od));
}

#[test]
fn invalid_cob_id_bit_disables_pdo() {
    let mut od = PdoOd::default();
    od.tpdo_cob = 0x8000_018A; // bit 31: not valid
    assert!(Tpdo::from_od(&od, 0).is_none());
    od.tpdo_cob = 0x4000_018A; // bit 30 (no RTR) is fine
    assert!(Tpdo::from_od(&od, 0).is_some());
}

#[test]
fn wrong_direction_mapping_is_rejected() {
    let od = PdoOd::default();
    // RPDO slot 0 maps 0x2010 (ok); a TPDO mapping 0x2010 must fail:
    // build via resolve on the raw entry.
    assert!(resolve_entry(&od, 0x2010_0101, true).is_some());
    assert!(resolve_entry(&od, 0x2010_0101, false).is_none());
    assert!(resolve_entry(&od, 0x2000_0101, false).is_some());
    // More bits than the entry has.
    assert!(resolve_entry(&od, 0x2000_0110, true).is_none());
    // Nonexistent object.
    assert!(resolve_entry(&od, 0x3000_0101, true).is_none());
}

#[test]
fn event_timer_sends_cyclically() {
    let mut od = PdoOd::default();
    od.tpdo_event_ms = 50;
    od.t_u8 = 7;
    let mut tpdo = Tpdo::from_od(&od, 0).unwrap();
    let mut sent: Vec<CanFrame> = Vec::new();

    // Not operational: nothing, no deadline.
    assert_eq!(tpdo.process(&od, false, 0, &mut sent), None);
    assert!(sent.is_empty());

    // Operational: initial transmission right away, then
    // the event timer fires every 50 ms.
    let next = tpdo.process(&od, true, 0, &mut sent);
    assert_eq!(next, Some(50_000));
    assert_eq!(sent.len(), 1);
    tpdo.process(&od, true, 50_000, &mut sent);
    assert_eq!(sent.len(), 2);
    tpdo.process(&od, true, 100_000, &mut sent);
    assert_eq!(sent.len(), 3);
}

#[test]
fn entering_operational_sends_once_even_without_event_timer() {
    let mut od = PdoOd::default();
    od.t_u8 = 0x11;
    let mut tpdo = Tpdo::from_od(&od, 0).unwrap();
    let mut sent: Vec<CanFrame> = Vec::new();

    // Pre-operational process() must not send but keeps the request armed.
    assert_eq!(tpdo.process(&od, false, 0, &mut sent), None);
    assert!(sent.is_empty());

    // NMT start: the initial PDO value goes out once, then silence
    // until the next application request.
    tpdo.process(&od, true, 1_000, &mut sent);
    assert_eq!(sent.len(), 1);
    tpdo.process(&od, true, 2_000_000, &mut sent);
    assert_eq!(sent.len(), 1, "no event timer, no request -> no repeat");

    // Stop and restart: transmits once again on re-entering operational.
    tpdo.process(&od, false, 3_000_000, &mut sent);
    tpdo.process(&od, true, 4_000_000, &mut sent);
    assert_eq!(sent.len(), 2);
}

#[test]
fn inhibit_time_delays_requests() {
    let mut od = PdoOd::default();
    od.tpdo_inhibit_100us = 10; // 1 ms
    let mut tpdo = Tpdo::from_od(&od, 0).unwrap();
    let mut sent: Vec<CanFrame> = Vec::new();

    tpdo.request();
    tpdo.process(&od, true, 0, &mut sent);
    assert_eq!(sent.len(), 1);

    // Second request within the inhibit window: deferred, deadline set.
    tpdo.request();
    let next = tpdo.process(&od, true, 500, &mut sent);
    assert_eq!(sent.len(), 1);
    assert_eq!(next, Some(1_000));
    tpdo.process(&od, true, 1_000, &mut sent);
    assert_eq!(sent.len(), 2);
}

#[test]
fn erroneous_mapping_disables_pdo() {
    let mut od = PdoOd::default();
    od.map_count = 9; // more than 8 entries
    assert!(Tpdo::from_od(&od, 0).is_none());
    od.map_count = 4; // entry 4 does not exist in the OD
    assert!(Tpdo::from_od(&od, 0).is_none());
}

#[test]
fn a_mapping_of_no_objects_disables_the_pdo() {
    let od = PdoOd { map_count: 0, ..PdoOd::default() };
    assert!(Tpdo::from_od(&od, 0).is_none());
}

#[test]
fn an_inhibited_event_waits_for_the_inhibit_time() {
    let od = PdoOd { tpdo_event_ms: 1, tpdo_inhibit_100us: 100, ..PdoOd::default() };
    let mut tpdo = Tpdo::from_od(&od, 0).unwrap();
    let mut tx: Vec<CanFrame> = Vec::new();
    assert_eq!(tpdo.process(&od, true, 0, &mut tx), Some(10_000));
    assert_eq!(tx.len(), 1);
    assert_eq!(tpdo.process(&od, true, 1_000, &mut tx), Some(10_000));
    assert_eq!(tpdo.process(&od, true, 9_999, &mut tx), Some(10_000));
    assert_eq!(tx.len(), 1, "inhibited");
    assert_eq!(tpdo.process(&od, true, 10_000, &mut tx), Some(20_000));
    assert_eq!(tx.len(), 2);
}
