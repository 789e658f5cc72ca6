//! The SDO server on its own.

use canopen_core::od::{
    self, DataType, EntryInfo, ObjectDictionary, OdError, OdString, PdoAccess, SdoAccess,
};
use canopen_core::sdo::server::DEFAULT_SDO_SERVER_TIMEOUT_US;
use canopen_core::sdo::{SdoAbortCode, SdoServer, SdoServerEvent};
use canopen_core::{CanFrame, Micros, NodeId};

/// Minimal OD: 0x2000 u16 rw, 0x2001 u32 ro, 0x2002 string rw (cap 16),
/// 0x2003 write-only u8.
struct MockOd {
    x2000: u16,
    x2001: u32,
    x2002: OdString<16>,
    x2003: u8,
}

impl Default for MockOd {
    fn default() -> Self {
        Self {
            x2000: 0x1234,
            x2001: 0xAABB_CCDD,
            x2002: OdString::new(b"Hello CAN!"),
            x2003: 0,
        }
    }
}

impl ObjectDictionary for MockOd {
    fn info(&self, index: u16, sub: u8) -> Result<EntryInfo, OdError> {
        let entry = |data_type, sdo, size| Ok(EntryInfo { data_type, sdo, pdo: PdoAccess::No, size });
        match (index, sub) {
            (0x2000, 0) => entry(DataType::Unsigned16, SdoAccess::ReadWrite, 2),
            (0x2001, 0) => entry(DataType::Unsigned32, SdoAccess::ReadOnly, 4),
            (0x2002, 0) => entry(DataType::VisibleString, SdoAccess::ReadWrite, self.x2002.len()),
            (0x2003, 0) => entry(DataType::Unsigned8, SdoAccess::WriteOnly, 1),
            (0x2000..=0x2003, _) => Err(OdError::SubIndexNotFound),
            _ => Err(OdError::ObjectNotFound),
        }
    }

    fn read(&self, index: u16, sub: u8, buf: &mut [u8]) -> Result<usize, OdError> {
        match (index, sub) {
            (0x2000, 0) => od::read_bytes(buf, &self.x2000.to_le_bytes()),
            (0x2001, 0) => od::read_bytes(buf, &self.x2001.to_le_bytes()),
            (0x2002, 0) => od::read_bytes(buf, self.x2002.as_bytes()),
            (0x2003, 0) => Err(OdError::WriteOnly),
            (0x2000..=0x2003, _) => Err(OdError::SubIndexNotFound),
            _ => Err(OdError::ObjectNotFound),
        }
    }

    fn write(&mut self, index: u16, sub: u8, data: &[u8]) -> Result<(), OdError> {
        match (index, sub) {
            (0x2000, 0) => {
                self.x2000 = u16::from_le_bytes(od::exact::<2>(data)?);
                Ok(())
            }
            (0x2001, 0) => Err(OdError::ReadOnly),
            (0x2002, 0) => self.x2002.set(data),
            (0x2003, 0) => {
                self.x2003 = u8::from_le_bytes(od::exact::<1>(data)?);
                Ok(())
            }
            (0x2000..=0x2003, _) => Err(OdError::SubIndexNotFound),
            _ => Err(OdError::ObjectNotFound),
        }
    }
}

const NODE: u8 = 0x0A;

fn setup() -> (SdoServer<256>, MockOd) {
    (SdoServer::new(NodeId::new(NODE).unwrap()), MockOd::default())
}

fn request(payload: [u8; 8]) -> CanFrame {
    CanFrame::new(0x600 + NODE as u16, &payload).unwrap()
}

fn exchange(
    server: &mut SdoServer<256>,
    od: &mut MockOd,
    now: Micros,
    payload: [u8; 8],
) -> (Vec<CanFrame>, Option<SdoServerEvent>) {
    let mut sent: Vec<CanFrame> = Vec::new();
    let ev = server.on_frame(&request(payload), now, od, &mut sent);
    (sent, ev)
}

fn abort_code(frame: &CanFrame) -> u32 {
    assert_eq!(frame.data()[0], 0x80, "expected abort frame");
    u32::from_le_bytes(frame.data()[4..8].try_into().unwrap())
}

#[test]
fn expedited_upload_and_download() {
    let (mut server, mut od) = setup();
    let (sent, _) = exchange(&mut server, &mut od, 0, [0x40, 0x00, 0x20, 0x00, 0, 0, 0, 0]);
    assert_eq!(sent[0].data(), &[0x4B, 0x00, 0x20, 0x00, 0x34, 0x12, 0, 0]);

    let (sent, ev) = exchange(&mut server, &mut od, 1, [0x2B, 0x00, 0x20, 0x00, 0xF4, 0x01, 0, 0]);
    assert_eq!(ev, Some(SdoServerEvent::ObjectWritten { index: 0x2000, sub: 0 }));
    assert_eq!(sent[0].data(), &[0x60, 0x00, 0x20, 0x00, 0, 0, 0, 0]);
    assert_eq!(od.x2000, 500);
}

#[test]
fn segmented_upload_of_a_string() {
    let (mut server, mut od) = setup();
    // Initiate: 10-byte value -> segmented, size announced.
    let (sent, _) = exchange(&mut server, &mut od, 0, [0x40, 0x02, 0x20, 0x00, 0, 0, 0, 0]);
    assert_eq!(sent[0].data(), &[0x41, 0x02, 0x20, 0x00, 10, 0, 0, 0]);

    // Segment request toggle 0 -> 7 bytes, not last.
    let (sent, _) = exchange(&mut server, &mut od, 1, [0x60, 0, 0, 0, 0, 0, 0, 0]);
    assert_eq!(sent[0].data(), &[0x00, b'H', b'e', b'l', b'l', b'o', b' ', b'C']);

    // Segment request toggle 1 -> 3 bytes (n=4), last.
    let (sent, _) = exchange(&mut server, &mut od, 2, [0x70, 0, 0, 0, 0, 0, 0, 0]);
    assert_eq!(sent[0].data(), &[0x19, b'A', b'N', b'!', 0, 0, 0, 0]);
}

#[test]
fn segmented_download_writes_od_once_complete() {
    let (mut server, mut od) = setup();
    // Initiate segmented download to the string: size 12.
    let (sent, ev) = exchange(&mut server, &mut od, 0, [0x21, 0x02, 0x20, 0x00, 12, 0, 0, 0]);
    assert_eq!(ev, None);
    assert_eq!(sent[0].data(), &[0x60, 0x02, 0x20, 0x00, 0, 0, 0, 0]);

    // Segment 1: toggle 0, 7 bytes.
    let (sent, ev) = exchange(&mut server, &mut od, 1, [0x00, b'p', b'r', b'o', b't', b'r', b'o', b'n']);
    assert_eq!(ev, None);
    assert_eq!(sent[0].data()[0], 0x20);
    assert_eq!(od.x2002.as_bytes(), b"Hello CAN!", "not written yet");

    // Segment 2: toggle 1, 5 bytes (n=2), last.
    let (sent, ev) = exchange(&mut server, &mut od, 2, [0x15, b'i', b'c', b'.', b'd', b'e', 0, 0]);
    assert_eq!(ev, Some(SdoServerEvent::ObjectWritten { index: 0x2002, sub: 0 }));
    assert_eq!(sent[0].data()[0], 0x30);
    assert_eq!(od.x2002.as_bytes(), b"protronic.de");
}

#[test]
fn segmented_download_data_too_long_for_entry() {
    let (mut server, mut od) = setup();
    // 20 bytes: fits the server buffer, exceeds OdString<16>.
    exchange(&mut server, &mut od, 0, [0x21, 0x02, 0x20, 0x00, 20, 0, 0, 0]);
    exchange(&mut server, &mut od, 1, [0x00, 0, 1, 2, 3, 4, 5, 6]);
    exchange(&mut server, &mut od, 2, [0x10, 7, 8, 9, 10, 11, 12, 13]);
    let (sent, ev) = exchange(&mut server, &mut od, 3, [0x03, 14, 15, 16, 17, 18, 19, 0]);
    assert_eq!(ev, None);
    assert_eq!(abort_code(&sent[0]), SdoAbortCode::DATA_LONG);
    assert_eq!(od.x2002.as_bytes(), b"Hello CAN!", "unchanged");
}

#[test]
fn toggle_error_aborts_download() {
    let (mut server, mut od) = setup();
    exchange(&mut server, &mut od, 0, [0x21, 0x02, 0x20, 0x00, 12, 0, 0, 0]);
    // First segment arrives with toggle 1 instead of 0.
    let (sent, _) = exchange(&mut server, &mut od, 1, [0x10, 0, 0, 0, 0, 0, 0, 0]);
    assert_eq!(abort_code(&sent[0]), SdoAbortCode::TOGGLE_BIT);
    // Transfer is gone: a further segment is a protocol error.
    let (sent, _) = exchange(&mut server, &mut od, 2, [0x00, 0, 0, 0, 0, 0, 0, 0]);
    assert_eq!(abort_code(&sent[0]), SdoAbortCode::CMD_SPECIFIER);
}

#[test]
fn segmented_download_to_readonly_fails_fast() {
    let (mut server, mut od) = setup();
    let (sent, _) = exchange(&mut server, &mut od, 0, [0x21, 0x01, 0x20, 0x00, 8, 0, 0, 0]);
    assert_eq!(abort_code(&sent[0]), SdoAbortCode::READ_ONLY);
}

#[test]
fn download_exceeding_buffer_aborts_out_of_memory() {
    let (mut server, mut od) = setup();
    let size = 300u32.to_le_bytes();
    let (sent, _) = exchange(
        &mut server,
        &mut od,
        0,
        [0x21, 0x02, 0x20, 0x00, size[0], size[1], size[2], size[3]],
    );
    assert_eq!(abort_code(&sent[0]), SdoAbortCode::OUT_OF_MEMORY);
}

#[test]
fn transfer_timeout_aborts() {
    let (mut server, mut od) = setup();
    exchange(&mut server, &mut od, 0, [0x21, 0x02, 0x20, 0x00, 12, 0, 0, 0]);
    assert_eq!(server.next_deadline(), Some(DEFAULT_SDO_SERVER_TIMEOUT_US));

    let mut sent: Vec<CanFrame> = Vec::new();
    server.poll(999_999, &mut sent);
    assert!(sent.is_empty());
    server.poll(1_000_000, &mut sent);
    assert_eq!(abort_code(&sent[0]), SdoAbortCode::TIMEOUT);
    assert_eq!(server.next_deadline(), None);
}

#[test]
fn access_violations_abort() {
    let (mut server, mut od) = setup();
    let (sent, _) = exchange(&mut server, &mut od, 0, [0x23, 0x01, 0x20, 0x00, 1, 2, 3, 4]);
    assert_eq!(abort_code(&sent[0]), SdoAbortCode::READ_ONLY);
    let (sent, _) = exchange(&mut server, &mut od, 1, [0x40, 0x03, 0x20, 0x00, 0, 0, 0, 0]);
    assert_eq!(abort_code(&sent[0]), SdoAbortCode::WRITE_ONLY);
}

#[test]
fn unknown_object_and_sub_abort() {
    let (mut server, mut od) = setup();
    let (sent, _) = exchange(&mut server, &mut od, 0, [0x40, 0xFF, 0x2F, 0x00, 0, 0, 0, 0]);
    assert_eq!(abort_code(&sent[0]), SdoAbortCode::NO_OBJECT);
    let (sent, _) = exchange(&mut server, &mut od, 1, [0x40, 0x00, 0x20, 0x05, 0, 0, 0, 0]);
    assert_eq!(abort_code(&sent[0]), SdoAbortCode::SUB_UNKNOWN);
}

#[test]
fn foreign_frames_and_client_aborts_are_ignored() {
    let (mut server, mut od) = setup();
    let mut sent: Vec<CanFrame> = Vec::new();
    let hb = CanFrame::new(0x700 + NODE as u16, &[0x05]).unwrap();
    assert_eq!(server.on_frame(&hb, 0, &mut od, &mut sent), None);
    let short = CanFrame::new(0x600 + NODE as u16, &[0x40]).unwrap();
    assert_eq!(server.on_frame(&short, 0, &mut od, &mut sent), None);
    let (aborted, ev) = exchange(&mut server, &mut od, 1, [0x80, 0x00, 0x20, 0x00, 0, 0, 4, 5]);
    assert!(aborted.is_empty());
    assert_eq!(ev, None);
    assert!(sent.is_empty());
}
