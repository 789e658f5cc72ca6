//! The SDO client on its own.

use canopen_core::sdo::{
    SdoAbortCode, SdoClient, SdoClientError, SdoEvent, SdoTransferError, DEFAULT_SDO_TIMEOUT_US,
};
use canopen_core::{CanFrame, NodeId};

fn sink() -> Vec<CanFrame> {
    Vec::new()
}

const SERVER: u8 = 0x22;
const RX: u16 = 0x600 + SERVER as u16; // client -> server
const TX: u16 = 0x580 + SERVER as u16; // server -> client

fn client() -> SdoClient<256> {
    SdoClient::new(NodeId::new(SERVER).unwrap())
}

fn response(payload: [u8; 8]) -> CanFrame {
    CanFrame::new(TX, &payload).unwrap()
}

#[test]
fn upload_request_and_expedited_response() {
    let mut c = client();
    let req = c.upload(0x1017, 0x00, 0).unwrap();
    assert_eq!(req.id(), RX);
    assert_eq!(req.data(), &[0x40, 0x17, 0x10, 0x00, 0, 0, 0, 0]);
    assert!(c.is_busy());

    let mut sent: Vec<CanFrame> = Vec::new();
    let ev = c.on_frame(&response([0x4B, 0x17, 0x10, 0x00, 0xE8, 0x03, 0, 0]), 1, &mut sent);
    assert_eq!(
        ev,
        Some(SdoEvent::UploadOk { index: 0x1017, sub: 0, data: &[0xE8, 0x03] })
    );
    assert!(sent.is_empty());
    assert!(!c.is_busy());
}

#[test]
fn expedited_download_roundtrip() {
    let mut c = client();
    let req = c.download(0x1017, 0x00, &500u16.to_le_bytes(), 0).unwrap();
    assert_eq!(req.data(), &[0x2B, 0x17, 0x10, 0x00, 0xF4, 0x01, 0, 0]);
    let ev = c.on_frame(&response([0x60, 0x17, 0x10, 0x00, 0, 0, 0, 0]), 1, &mut sink());
    assert_eq!(ev, Some(SdoEvent::DownloadOk { index: 0x1017, sub: 0 }));
}

#[test]
fn segmented_upload_two_segments() {
    let mut c = client();
    c.upload(0x1008, 0, 0).unwrap();

    // Initiate response: segmented, size = 10.
    let mut sent: Vec<CanFrame> = Vec::new();
    let ev = c.on_frame(&response([0x41, 0x08, 0x10, 0x00, 10, 0, 0, 0]), 1, &mut sent);
    assert_eq!(ev, None);
    // First segment request, toggle 0.
    assert_eq!(sent.last().unwrap().data(), &[0x60, 0x08, 0x10, 0x00, 0, 0, 0, 0]);

    // Segment 1: toggle 0, 7 bytes, not last.
    let ev = c.on_frame(
        &response([0x00, b'H', b'e', b'l', b'l', b'o', b' ', b'C']),
        2,
        &mut sent,
    );
    assert_eq!(ev, None);
    // Second segment request, toggle 1.
    assert_eq!(sent.last().unwrap().data()[0], 0x70);

    // Segment 2: toggle 1, 3 bytes (n=4), last.
    let ev = c.on_frame(
        &response([0x19, b'A', b'N', b'!', 0, 0, 0, 0]),
        3,
        &mut sent,
    );
    assert_eq!(
        ev,
        Some(SdoEvent::UploadOk { index: 0x1008, sub: 0, data: b"Hello CAN!" })
    );
    assert!(!c.is_busy());
}

#[test]
fn segmented_upload_toggle_error_aborts() {
    let mut c = client();
    c.upload(0x1008, 0, 0).unwrap();
    c.on_frame(&response([0x41, 0x08, 0x10, 0x00, 10, 0, 0, 0]), 1, &mut sink());

    // Segment arrives with wrong toggle (1 instead of 0).
    let mut sent: Vec<CanFrame> = Vec::new();
    let ev = c.on_frame(&response([0x10, 1, 2, 3, 4, 5, 6, 7]), 2, &mut sent);
    assert_eq!(
        ev,
        Some(SdoEvent::Failed {
            index: 0x1008,
            sub: 0,
            error: SdoTransferError::Protocol
        })
    );
    // Abort with toggle-bit code was sent.
    assert_eq!(sent.len(), 1);
    assert_eq!(sent[0].data()[0], 0x80);
    assert_eq!(
        u32::from_le_bytes(sent[0].data()[4..8].try_into().unwrap()),
        SdoAbortCode::TOGGLE_BIT
    );
}

#[test]
fn segmented_upload_size_mismatch_is_protocol_error() {
    let mut c = client();
    c.upload(0x1008, 0, 0).unwrap();
    c.on_frame(&response([0x41, 0x08, 0x10, 0x00, 9, 0, 0, 0]), 1, &mut sink());
    // Last segment with 7 bytes but size said 9.
    let ev = c.on_frame(&response([0x01, 1, 2, 3, 4, 5, 6, 7]), 2, &mut sink());
    assert_eq!(
        ev,
        Some(SdoEvent::Failed {
            index: 0x1008,
            sub: 0,
            error: SdoTransferError::Protocol
        })
    );
}

#[test]
fn upload_exceeding_buffer_aborts_out_of_memory() {
    let mut c: SdoClient<8> = SdoClient::new(NodeId::new(SERVER).unwrap());
    c.upload(0x1008, 0, 0).unwrap();
    let mut sent: Vec<CanFrame> = Vec::new();
    let ev = c.on_frame(&response([0x41, 0x08, 0x10, 0x00, 100, 0, 0, 0]), 1, &mut sent);
    assert_eq!(
        ev,
        Some(SdoEvent::Failed {
            index: 0x1008,
            sub: 0,
            error: SdoTransferError::BufferTooSmall
        })
    );
    assert_eq!(
        u32::from_le_bytes(sent[0].data()[4..8].try_into().unwrap()),
        SdoAbortCode::OUT_OF_MEMORY
    );
}

#[test]
fn segmented_download_sequence() {
    let mut c = client();
    let data = b"0123456789"; // 10 bytes -> 7 + 3
    let req = c.download(0x1008, 0, data, 0).unwrap();
    // Initiate: ccs=1, e=0, s=1, size 10.
    assert_eq!(req.data(), &[0x21, 0x08, 0x10, 0x00, 10, 0, 0, 0]);

    // Server accepts: 0x60 -> client sends segment 1 (toggle 0, 7 bytes).
    let mut sent: Vec<CanFrame> = Vec::new();
    let ev = c.on_frame(&response([0x60, 0x08, 0x10, 0x00, 0, 0, 0, 0]), 1, &mut sent);
    assert_eq!(ev, None);
    assert_eq!(sent.last().unwrap().data(), &[0x00, b'0', b'1', b'2', b'3', b'4', b'5', b'6']);

    // Server acks toggle 0 -> segment 2: toggle 1, 3 bytes (n=4), last.
    let ev = c.on_frame(&response([0x20, 0, 0, 0, 0, 0, 0, 0]), 2, &mut sent);
    assert_eq!(ev, None);
    assert_eq!(sent.last().unwrap().data(), &[0x19, b'7', b'8', b'9', 0, 0, 0, 0]);

    // Server acks toggle 1 -> done.
    let ev = c.on_frame(&response([0x30, 0, 0, 0, 0, 0, 0, 0]), 3, &mut sent);
    assert_eq!(ev, Some(SdoEvent::DownloadOk { index: 0x1008, sub: 0 }));
}

#[test]
fn server_abort_is_reported() {
    let mut c = client();
    c.upload(0x1234, 0x05, 0).unwrap();
    let ev = c.on_frame(
        &response([0x80, 0x34, 0x12, 0x05, 0x00, 0x00, 0x02, 0x06]),
        1,
        &mut sink(),
    );
    assert_eq!(
        ev,
        Some(SdoEvent::Failed {
            index: 0x1234,
            sub: 5,
            error: SdoTransferError::Abort(SdoAbortCode(SdoAbortCode::NO_OBJECT))
        })
    );
}

#[test]
fn timeout_sends_abort_and_reports() {
    let mut c = client();
    c.upload(0x1017, 0, 1_000).unwrap();
    assert_eq!(c.next_deadline(), Some(1_000 + DEFAULT_SDO_TIMEOUT_US));

    let mut sent: Vec<CanFrame> = Vec::new();
    assert_eq!(c.poll(400_000, &mut sent), None);
    let ev = c.poll(501_000, &mut sent);
    assert_eq!(
        ev,
        Some(SdoEvent::Failed {
            index: 0x1017,
            sub: 0,
            error: SdoTransferError::Timeout
        })
    );
    assert_eq!(sent.len(), 1);
    assert_eq!(sent[0].id(), RX);
    assert_eq!(sent[0].data(), &[0x80, 0x17, 0x10, 0x00, 0x00, 0x00, 0x04, 0x05]);
    assert!(!c.is_busy());
}

#[test]
fn per_response_timeout_is_refreshed_by_segments() {
    let mut c = client();
    c.upload(0x1008, 0, 0).unwrap();
    c.on_frame(&response([0x41, 0x08, 0x10, 0x00, 10, 0, 0, 0]), 400_000, &mut sink());
    // 500 ms after start but only 100 ms after the last response: alive.
    assert_eq!(c.poll(500_000, &mut sink()), None);
    assert_eq!(c.next_deadline(), Some(900_000));
}

#[test]
fn busy_and_invalid_length_are_rejected() {
    let mut c = client();
    c.upload(0x1000, 0, 0).unwrap();
    assert_eq!(c.upload(0x1001, 0, 0), Err(SdoClientError::Busy));

    let mut c2 = client();
    assert_eq!(c2.download(0x1001, 0, &[], 0), Err(SdoClientError::InvalidDataLength));
    let mut small: SdoClient<8> = SdoClient::new(NodeId::new(SERVER).unwrap());
    assert_eq!(
        small.download(0x1001, 0, &[0; 9], 0),
        Err(SdoClientError::InvalidDataLength)
    );
}

#[test]
fn foreign_and_idle_frames_are_ignored() {
    let mut c = client();
    assert_eq!(c.on_frame(&response([0x60, 0, 0, 0, 0, 0, 0, 0]), 0, &mut sink()), None);

    c.upload(0x1000, 0, 0).unwrap();
    let hb = CanFrame::new(0x700 + SERVER as u16, &[0x05]).unwrap();
    assert_eq!(c.on_frame(&hb, 1, &mut sink()), None);
    let short = CanFrame::new(TX, &[0x60]).unwrap();
    assert_eq!(c.on_frame(&short, 2, &mut sink()), None);
    assert!(c.is_busy());
}

#[test]
fn mismatched_object_address_is_a_protocol_error() {
    let mut c = client();
    c.upload(0x1017, 0, 0).unwrap();
    let mut sent: Vec<CanFrame> = Vec::new();
    let ev = c.on_frame(&response([0x4B, 0x18, 0x10, 0x00, 0, 0, 0, 0]), 1, &mut sent);
    assert_eq!(
        ev,
        Some(SdoEvent::Failed {
            index: 0x1017,
            sub: 0,
            error: SdoTransferError::Protocol
        })
    );
    assert_eq!(sent.len(), 1);
}
