//! Arguments and messages of the command line tool.

use canopen_core::cli::{
    describe_failure, describe_read, nmt_request, parse_data, parse_heartbeat_ms, parse_node_id,
    parse_num, parse_target, report_read, report_write,
};
use canopen_core::sdo::transfer::{transfer_step, transfer_timeout_us, Completion};
use canopen_core::sdo::{SdoAbortCode, SdoClient, SdoTransferError};
use canopen_core::{CanFrame, NodeId};

#[test]
fn numbers_are_decimal_or_hexadecimal() {
    assert_eq!(parse_num("0"), Ok(0));
    assert_eq!(parse_num("4119"), Ok(0x1017));
    assert_eq!(parse_num("0x1017"), Ok(0x1017));
    assert_eq!(parse_num("0XfF"), Ok(255));
    assert_eq!(parse_num("+5"), Ok(5));
    assert_eq!(parse_num("0x+5"), Ok(5));
    assert_eq!(parse_num("18446744073709551615"), Ok(u64::MAX));
    assert_eq!(parse_num("0xFFFFFFFFFFFFFFFF"), Ok(u64::MAX));
    assert_eq!(parse_num("000000000000000000000000000000000000000000000000007"), Ok(7));
    for wrong in ["", "x", "-1", "+", "0x", "1 ", "18446744073709551616", "0x1G", "1_000"] {
        assert_eq!(parse_num(wrong), Err(format!("invalid number: {wrong}")));
    }
}

#[test]
fn node_ids() {
    assert_eq!(parse_node_id("0x7F"), Ok(NodeId::new(127).unwrap()));
    assert_eq!(parse_node_id("1"), Ok(NodeId::new(1).unwrap()));
    for wrong in ["0", "128", "256", "0x101"] {
        assert_eq!(parse_node_id(wrong), Err(format!("node id must be 1..=127, got {wrong}")));
    }
    assert_eq!(parse_node_id("ten"), Err("invalid number: ten".to_string()));
}

#[test]
fn heartbeat_period() {
    assert_eq!(parse_heartbeat_ms(None), Ok(1000));
    assert_eq!(parse_heartbeat_ms(Some("65535")), Ok(65535));
    assert_eq!(parse_heartbeat_ms(Some("65536")), Err("heartbeat-ms out of range".to_string()));
    assert_eq!(parse_heartbeat_ms(Some("?")), Err("invalid number: ?".to_string()));
}

#[test]
fn nmt_commands() {
    let frame = |byte, node| Ok(CanFrame::new(0x000, &[byte, node]).unwrap());
    assert_eq!(nmt_request("start", "10"), frame(0x01, 10));
    assert_eq!(nmt_request("stop", "0"), frame(0x02, 0));
    assert_eq!(nmt_request("preop", "0x7F"), frame(0x80, 127));
    assert_eq!(nmt_request("reset-node", "1"), frame(0x81, 1));
    assert_eq!(nmt_request("reset-comm", "1"), frame(0x82, 1));
    assert_eq!(nmt_request("go", "x"), Err("unknown NMT command: go".to_string()));
    assert_eq!(nmt_request("start", "x"), Err("invalid number: x".to_string()));
    assert_eq!(nmt_request("start", "256"), Err("node id must be 0..=127".to_string()));
    assert_eq!(
        nmt_request("start", "128"),
        Err("node id must be 0..=127 (0 = all nodes)".to_string())
    );
}

#[test]
fn sdo_targets() {
    let target = parse_target("4", "0x1017", "255").unwrap_or_else(|e| panic!("{e}"));
    assert_eq!((target.server.raw(), target.index, target.sub), (4, 0x1017, 255));
    assert_eq!(parse_target("0", "x", "x").err().unwrap(), "node id must be 1..=127, got 0");
    assert_eq!(parse_target("1", "65536", "x").err().unwrap(), "index out of range");
    assert_eq!(parse_target("1", "65535", "256").err().unwrap(), "sub-index out of range");
    assert_eq!(parse_target("1", "?", "256").err().unwrap(), "invalid number: ?");
}

#[test]
fn values_to_write() {
    assert_eq!(parse_data("500", "2"), Ok(vec![0xF4, 0x01]));
    assert_eq!(parse_data("0x42", "1"), Ok(vec![0x42]));
    assert_eq!(parse_data("0xFFFFFFFF", "4"), Ok(vec![0xFF; 4]));
    assert_eq!(parse_data("1", "3"), Err("size must be 1, 2 or 4 (bytes)".to_string()));
    assert_eq!(parse_data("x", "3"), Err("invalid number: x".to_string()));
    assert_eq!(parse_data("256", "1"), Err("value 256 does not fit into 1 byte(s)".to_string()));
    assert_eq!(
        parse_data("4294967296", "4"),
        Err("value 4294967296 does not fit into 4 byte(s)".to_string())
    );
}

#[test]
fn read_values_are_described() {
    assert_eq!(
        describe_read(0x1017, 0, &[0xE8, 0x03]),
        "0x1017:0x00 = 1000 (2 bytes, raw [E8, 03])"
    );
    assert_eq!(describe_read(0x1018, 0x0A, &[4]), "0x1018:0x0A = 4 (1 byte, raw [04])");
    assert_eq!(
        describe_read(0x10, 1, &[0xFF, 0xFF, 0xFF, 0xFF]),
        "0x0010:0x01 = 4294967295 (4 bytes, raw [FF, FF, FF, FF])"
    );
}

#[test]
fn failures_are_described() {
    let failed = |error| Completion::Failed { index: 0x1017, sub: 2, error };
    assert_eq!(
        describe_failure(&failed(SdoTransferError::Abort(SdoAbortCode(SdoAbortCode::READ_ONLY)))),
        "SDO abort for 0x1017:0x02: 0x06010002 (attempt to write a read-only object)"
    );
    assert_eq!(
        describe_failure(&failed(SdoTransferError::Timeout)),
        "SDO timeout for 0x1017:0x02 (no response from server)"
    );
    assert_eq!(
        describe_failure(&failed(SdoTransferError::BufferTooSmall)),
        "SDO value of 0x1017:0x02 does not fit the client buffer"
    );
    assert_eq!(
        describe_failure(&failed(SdoTransferError::Protocol)),
        "SDO protocol error (malformed response)"
    );
    let upload = Completion::UploadOk { index: 0x1017, sub: 0, data: vec![1, 255] };
    assert_eq!(
        describe_failure(&upload),
        "unexpected SDO event: UploadOk { index: 4119, sub: 0, data: [1, 255] }"
    );
    let download = Completion::DownloadOk { index: 0x1017, sub: 0 };
    assert_eq!(
        describe_failure(&download),
        "unexpected SDO event: DownloadOk { index: 4119, sub: 0 }"
    );
}

#[test]
fn ends_of_transfers_are_reported() {
    let upload = |data| Completion::UploadOk { index: 0x1200, sub: 2, data };
    assert_eq!(
        report_read(&upload(vec![0x8A, 0x05, 0, 0])).unwrap(),
        "0x1200:0x02 = 1418 (4 bytes, raw [8A, 05, 00, 00])"
    );
    assert_eq!(
        report_read(&upload(vec![0x50, 0x75, 0x6D, 0x70, 0x21])).unwrap(),
        "0x1200:0x02 (5 bytes, raw [50, 75, 6D, 70, 21])"
    );
    let download = Completion::DownloadOk { index: 0x1017, sub: 0 };
    assert_eq!(report_write(&download, 500).unwrap(), "0x1017:0x00 <- 500 written");
    assert!(report_read(&download).unwrap_err().starts_with("unexpected SDO event"));
    let failed = Completion::Failed { index: 0x1017, sub: 0, error: SdoTransferError::Protocol };
    assert_eq!(report_write(&failed, 1).unwrap_err(), "SDO protocol error (malformed response)");
}

#[test]
fn abort_codes_have_texts() {
    assert_eq!(SdoAbortCode(0x0503_0000).to_text(), "0x05030000 (toggle bit not alternated)");
    assert_eq!(SdoAbortCode(0x0800_0024).to_text(), "0x08000024 (no data available)");
    assert_eq!(SdoAbortCode(0x1).to_text(), "0x00000001 (unknown abort code)");
    let known = [
        (SdoAbortCode::TIMEOUT, "SDO protocol timed out"),
        (SdoAbortCode::CMD_SPECIFIER, "command specifier not valid or unknown"),
        (SdoAbortCode::OUT_OF_MEMORY, "out of memory"),
        (SdoAbortCode::UNSUPPORTED_ACCESS, "unsupported access to object"),
        (SdoAbortCode::WRITE_ONLY, "attempt to read a write-only object"),
        (SdoAbortCode::READ_ONLY, "attempt to write a read-only object"),
        (SdoAbortCode::NO_OBJECT, "object does not exist in the object dictionary"),
        (SdoAbortCode::NO_MAP, "object cannot be mapped to the PDO"),
        (SdoAbortCode::TYPE_MISMATCH, "length of service parameter does not match"),
        (SdoAbortCode::DATA_LONG, "length of service parameter too high"),
        (SdoAbortCode::DATA_SHORT, "length of service parameter too short"),
        (SdoAbortCode::SUB_UNKNOWN, "sub-index does not exist"),
        (SdoAbortCode::INVALID_VALUE, "invalid value for parameter"),
        (SdoAbortCode::VALUE_HIGH, "value of parameter written too high"),
        (SdoAbortCode::VALUE_LOW, "value of parameter written too low"),
        (SdoAbortCode::GENERAL, "general error"),
        (SdoAbortCode::DATA_TRANSF, "data cannot be transferred or stored"),
        (SdoAbortCode::DATA_DEV_STATE, "data cannot be transferred (device state)"),
    ];
    for (code, text) in known {
        assert_eq!(SdoAbortCode(code).description(), text);
    }
}

#[test]
fn a_transfer_runs_step_by_step() {
    let mut client: SdoClient<16> = SdoClient::new(NodeId::new(4).unwrap());
    let mut tx: Vec<CanFrame> = Vec::new();
    client.upload(0x1017, 0, 1_000).unwrap();
    assert_eq!(transfer_timeout_us(client.next_deadline(), 1_000), 500_000);
    assert_eq!(transfer_timeout_us(client.next_deadline(), 500_500), 1_000);
    assert_eq!(transfer_timeout_us(None, 0), 1_000);

    // Nothing received, no timeout yet.
    assert!(transfer_step(&mut client, None, 2_000, 2_000, &mut tx).is_none());
    // A foreign frame changes nothing.
    let foreign = CanFrame::new(0x585, &[0x4B, 0x17, 0x10, 0, 1, 0, 0, 0]).unwrap();
    assert!(transfer_step(&mut client, Some(foreign), 3_000, 3_000, &mut tx).is_none());
    // The response completes the transfer.
    let response = CanFrame::new(0x584, &[0x4B, 0x17, 0x10, 0, 0xE8, 0x03, 0, 0]).unwrap();
    match transfer_step(&mut client, Some(response), 4_000, 4_000, &mut tx) {
        Some(Completion::UploadOk { index, sub, data }) => {
            assert_eq!((index, sub, data), (0x1017, 0, vec![0xE8, 0x03]));
        }
        other => panic!("{other:?}"),
    }
    assert!(tx.is_empty());

    // Without a response the transfer times out and an abort goes out.
    client.upload(0x1018, 1, 10_000).unwrap();
    match transfer_step(&mut client, None, 510_000, 510_000, &mut tx) {
        Some(Completion::Failed { index, sub, error }) => {
            assert_eq!((index, sub, error), (0x1018, 1, SdoTransferError::Timeout));
        }
        other => panic!("{other:?}"),
    }
    assert_eq!(tx[0].data(), &[0x80, 0x18, 0x10, 0x01, 0, 0, 0x04, 0x05]);
}
