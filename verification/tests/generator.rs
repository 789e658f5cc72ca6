//! The generated text, the errors of the generator and its parts.

use canopen_core::codegen::gen::generate;
use canopen_core::codegen::model::{CanOpenDevice, DeviceInfo, FileInfo, OdObject, OdSubObject};
use canopen_core::codegen::names::{escape_byte_string, sanitize};
use canopen_core::codegen::values::{
    init_expr, int_literal, parse_int, parse_plain_int, pdo_access, scalar_type, sdo_access,
    sdo_label,
};
use canopen_core::number::{read_signed, read_unsigned, strip_hex_prefix};
use canopen_core::text::{
    decimal_text, hex_literal_text, hex_text, same, signed_decimal_text, strip, trim,
    trim_start_of,
};

fn sub(data_type: &str, sdo: &str, value: &str) -> OdSubObject {
    OdSubObject {
        name: String::new(),
        alias: String::new(),
        data_type: data_type.to_string(),
        sdo: sdo.to_string(),
        pdo: String::new(),
        default_value: value.to_string(),
        actual_value: String::new(),
        low_limit: String::new(),
        high_limit: String::new(),
        string_length_min: 0,
    }
}

fn object(name: &str, object_type: &str, subs: Vec<(&str, OdSubObject)>) -> OdObject {
    OdObject {
        disabled: false,
        name: name.to_string(),
        alias: String::new(),
        object_type: format!("OBJECT_TYPE_{object_type}"),
        count_label: String::new(),
        storage_group: String::new(),
        sub_objects: subs.into_iter().map(|(k, s)| (k.to_string(), s)).collect(),
    }
}

fn device(objects: Vec<(&str, OdObject)>) -> CanOpenDevice {
    CanOpenDevice {
        file_info: FileInfo::default(),
        device_info: DeviceInfo::default(),
        objects: objects.into_iter().map(|(k, o)| (k.to_string(), o)).collect(),
    }
}

fn failure(objects: Vec<(&str, OdObject)>) -> String {
    generate(&device(objects)).unwrap_err()
}

fn var(s: OdSubObject) -> Vec<(&'static str, OdObject)> {
    vec![("2000", object("Thing", "VAR", vec![("00", s)]))]
}

#[test]
fn the_whole_module() {
    let mut heartbeat = sub("UNSIGNED16", "ACCESS_SDO_RW", "$NODEID+0x10");
    heartbeat.high_limit = "0x7FFF".to_string();
    let mut heartbeat = object("Heartbeat time", "VAR", vec![("00", heartbeat)]);
    heartbeat.count_label = "HB".to_string();
    let mut device = device(vec![("1017", heartbeat)]);
    device.device_info.product_name = "Pump".to_string();
    let expected = "// @generated by canopen-od-codegen — DO NOT EDIT
// Device: Pump
// Source: CANopenEditor protobuf-JSON device description

use ::canopen_core::od::{self, DataType, EntryInfo, ObjectDictionary, OdError, PdoAccess, SdoAccess};
use ::canopen_core::NodeId;

/// Number of enabled OD objects labelled HB (`OD_CNT_HB`).
pub const CNT_HB: u8 = 1;

/// Object dictionary data of one device instance.
///
/// Fields are plain typed data for direct application access; SDO/PDO
/// access goes through the [`ObjectDictionary`] impl.
#[derive(Debug, Clone)]
#[allow(clippy::struct_field_names)]
pub struct Od {
    /// 0x1017:00 Heartbeat time — UNSIGNED16, rw
    pub x1017_heartbeat_time: u16,
}

impl Od {
    /// OD initialized with the configured default/actual values;
    /// `$NODEID`-relative COB-IDs are computed from `node_id`.
    #[allow(clippy::unreadable_literal)]
    pub fn new(node_id: NodeId) -> Self {
        Self {
            x1017_heartbeat_time: 0x10u16 + node_id.raw() as u16,
        }
    }
}

#[allow(clippy::unreadable_literal, clippy::match_same_arms, clippy::too_many_lines)]
impl ObjectDictionary for Od {
    fn info(&self, index: u16, sub: u8) -> Result<EntryInfo, OdError> {
        match (index, sub) {
            (0x1017, 0x00) => Ok(EntryInfo { data_type: DataType::Unsigned16, sdo: SdoAccess::ReadWrite, pdo: PdoAccess::No, size: 2 }),
            (0x1017, _) => Err(OdError::SubIndexNotFound),
            _ => Err(OdError::ObjectNotFound),
        }
    }

    fn read(&self, index: u16, sub: u8, buf: &mut [u8]) -> Result<usize, OdError> {
        match (index, sub) {
            (0x1017, 0x00) => od::read_bytes(buf, &self.x1017_heartbeat_time.to_le_bytes()),
            (0x1017, _) => Err(OdError::SubIndexNotFound),
            _ => Err(OdError::ObjectNotFound),
        }
    }

    fn write(&mut self, index: u16, sub: u8, data: &[u8]) -> Result<(), OdError> {
        match (index, sub) {
            (0x1017, 0x00) => {
                let v = u16::from_le_bytes(od::exact::<2>(data)?);
                if v > 0x7FFFu16 { return Err(OdError::ValueTooHigh); }
                self.x1017_heartbeat_time = v;
                Ok(())
            }
            (0x1017, _) => Err(OdError::SubIndexNotFound),
            _ => Err(OdError::ObjectNotFound),
        }
    }

}
";
    assert_eq!(generate(&device).unwrap(), expected);
}

#[test]
fn an_empty_device() {
    let code = generate(&device(vec![])).unwrap();
    assert!(code.contains("// Device: unnamed device\n"));
    assert!(code.contains("pub struct Od {\n}\n"));
    assert!(code.contains("pub fn new(_node_id: NodeId) -> Self {\n        Self {\n        }\n"));
}

#[test]
fn arrays() {
    let elements = |a: &str, b: &str| {
        vec![
            ("00", sub("UNSIGNED8", "ACCESS_SDO_RO", "2")),
            ("01", sub("INTEGER8", "ACCESS_SDO_RW", a)),
            ("02", sub("INTEGER8", "ACCESS_SDO_RW", b)),
        ]
    };
    let array = |a: &str, b: &str| vec![("2100", object("Levels", "ARRAY", elements(a, b)))];
    let code = generate(&device(array("1", "-2"))).unwrap();
    assert!(code.contains("    /// 0x2100:00 Levels — UNSIGNED8, ro\n    pub x2100_levels: u8,\n"));
    assert!(code.contains(
        "    /// 0x2100:01..=02 Levels — INTEGER8[2], rw\n    pub x2100_levels_: [i8; 2],\n"
    ));
    assert!(code.contains("            x2100_levels_: [1i8, -2i8],\n"));
    assert!(code.contains(
        "(0x2100, s @ 0x01..=0x02) => od::read_bytes(buf, &self.x2100_levels_[(s - 1) as usize].to_le_bytes()),"
    ));
    assert!(code.contains("self.x2100_levels_[(s - 1) as usize] = v;"));
    assert!(code.contains("(0x2100, 0x01..=0x02) => Ok(EntryInfo {"));

    // Equal elements are written once.
    let code = generate(&device(array("7", "7"))).unwrap();
    assert!(code.contains("            x2100_levels_: [7i8; 2],\n"));

    // Sub 00 alone is no array of elements.
    let lone = vec![("00", sub("UNSIGNED8", "ACCESS_SDO_RO", "0"))];
    let code = generate(&device(vec![("2100", object("Levels", "ARRAY", lone))])).unwrap();
    assert!(!code.contains("s @"));
}

#[test]
fn array_errors() {
    let one = || sub("UNSIGNED8", "ACCESS_SDO_RO", "1");
    let text = |subs| failure(vec![("2100", object("A", "ARRAY", subs))]);
    assert_eq!(text(vec![("01", one())]), "array object 0x2100 (A): missing sub 00");
    assert_eq!(
        text(vec![("00", one()), ("02", one())]),
        "array object 0x2100 (A): elements must start at sub 01"
    );
    assert_eq!(
        text(vec![("00", one()), ("01", one()), ("03", one())]),
        "array object 0x2100 (A): element sub-indices must be contiguous"
    );
    assert_eq!(
        text(vec![
            ("00", one()),
            ("01", one()),
            ("02", sub("UNSIGNED8", "ACCESS_SDO_RW", "1")),
        ]),
        "array object 0x2100 (A): elements must share data type and access"
    );
    assert_eq!(
        text(vec![("00", one()), ("01", sub("DOMAIN", "", ""))]),
        "array object 0x2100 (A): unsupported element type \"DOMAIN\""
    );
}

#[test]
fn records_are_generated_in_sub_index_order() {
    let subs = vec![
        ("0A", sub("UNSIGNED8", "ACCESS_SDO_RO", "10")),
        ("2", sub("UNSIGNED8", "ACCESS_SDO_RO", "2")),
        ("00", sub("UNSIGNED8", "ACCESS_SDO_RO", "0")),
    ];
    let code = generate(&device(vec![("2200", object("R", "RECORD", subs))])).unwrap();
    let at = |text: &str| code.find(text).unwrap();
    assert!(at("(0x2200, 0x00)") < at("(0x2200, 0x02)"));
    assert!(at("(0x2200, 0x02)") < at("(0x2200, 0x0A)"));
    assert!(code.contains("pub x2200_r: u8") && code.contains("pub x2200_r__: u8"));
}

#[test]
fn access_rights_choose_the_arms() {
    let write_only = generate(&device(var(sub("UNSIGNED8", "ACCESS_SDO_WO", "0")))).unwrap();
    assert!(write_only.contains("(0x2000, 0x00) => Err(OdError::WriteOnly),"));
    assert!(write_only.contains("let v = u8::from_le_bytes(od::exact::<1>(data)?);"));
    let none = generate(&device(var(sub("OCTET_STRING", "", "a\"\\\u{1}")))).unwrap();
    assert!(none.contains("od::OdString::new(b\"a\\\"\\\\\\x01\")"));
    assert!(none.contains("sdo: SdoAccess::No, pdo: PdoAccess::No, size: self.x2000_thing.len()"));
    assert!(none.contains("(0x2000, 0x00) => Err(OdError::ReadOnly),"));
}

#[test]
fn errors_name_their_place() {
    assert_eq!(
        failure(var(sub("UNSIGNED8", "", "256"))),
        "object 0x2000 sub 0x00 (Thing): value 256 out of range for u8"
    );
    assert_eq!(
        failure(var(sub("UNSIGNED8", "", "zwei"))),
        "object 0x2000 sub 0x00 (Thing): cannot parse integer value \"zwei\""
    );
    assert_eq!(
        failure(var(sub("UNSIGNED8", "ACCESS_SDO_X", "0"))),
        "object 0x2000 sub 0x00 (Thing): unknown SDO access \"ACCESS_SDO_X\""
    );
    let mut s = sub("UNSIGNED8", "", "0");
    s.pdo = "ACCESS_PDO_\n".to_string();
    assert_eq!(
        failure(var(s)),
        "object 0x2000 sub 0x00 (Thing): unknown PDO access \"ACCESS_PDO_\\n\""
    );
    let mut s = sub("UNSIGNED8", "ACCESS_SDO_RW", "0");
    s.low_limit = "$NODEID".to_string();
    assert_eq!(
        failure(var(s)),
        "object 0x2000 sub 0x00 (Thing): $NODEID in value limits is not supported"
    );
    assert_eq!(
        failure(var(sub("REAL64", "", "0"))),
        "object 0x2000 sub 0x00 (Thing): unsupported data type \"REAL64\""
    );
    assert_eq!(
        failure(vec![("2000", object("Thing", "VAR", vec![]))]),
        "VAR object 2000 has no sub 00"
    );
    assert_eq!(
        failure(vec![("2000", object("Thing", "SET", vec![]))]),
        "object 2000: unknown object type \"OBJECT_TYPE_SET\""
    );
    assert_eq!(
        failure(vec![("2000", object("T", "RECORD", vec![("100", sub("", "", ""))]))]),
        "object 2000: invalid sub-index \"100\""
    );
    assert_eq!(
        failure(vec![("10000", object("T", "RECORD", vec![]))]),
        "invalid object index \"10000\""
    );
    // The first object that cannot be generated is reported.
    assert_eq!(
        failure(vec![
            ("2000", object("T", "RECORD", vec![])),
            ("x", object("T", "RECORD", vec![])),
            ("y", object("T", "RECORD", vec![])),
        ]),
        "invalid object index \"x\""
    );
}

#[test]
fn objects_are_counted_by_label() {
    let labelled = |label: &str, disabled| {
        let mut o = object("T", "RECORD", vec![]);
        o.count_label = label.to_string();
        o.disabled = disabled;
        o
    };
    let code = generate(&device(vec![
        ("1800", labelled("TPDO", false)),
        ("1801", labelled("TPDO", false)),
        ("1802", labelled("TPDO", true)),
        ("1400", labelled("RPDO", false)),
    ]))
    .unwrap();
    let rpdo = code.find("pub const CNT_RPDO: u8 = 1;").unwrap();
    let tpdo = code.find("pub const CNT_TPDO: u8 = 2;").unwrap();
    assert!(rpdo < tpdo, "labels in ascending order");
    assert!(!code.contains("0x1802"));
}

#[test]
fn identifiers() {
    assert_eq!(sanitize("Producer heartbeat time"), "producer_heartbeat_time");
    assert_eq!(sanitize("  COB-ID (used)  "), "cob_id_used");
    assert_eq!(sanitize("---"), "unnamed");
    assert_eq!(sanitize("Größe 2"), "gr_e_2");
    assert_eq!(escape_byte_string(b"ok \x7F"), "b\"ok \\x7F\"");
}

#[test]
fn aliases_are_preferred() {
    let mut s = sub("UNSIGNED8", "", "0");
    s.name = "Long name".to_string();
    s.alias = "short".to_string();
    assert_eq!(s.ident_source(), "short");
    s.alias = String::new();
    assert_eq!(s.ident_source(), "Long name");
    s.actual_value = "  ".to_string();
    assert_eq!(s.init_value(), "0");
    s.actual_value = "9".to_string();
    assert_eq!(s.init_value(), "9");
}

#[test]
fn initializers() {
    let init = |text| {
        let init = parse_int(text, "ctx").unwrap_or_else(|e| panic!("{e}"));
        (init.base, init.plus_node_id)
    };
    assert_eq!(init("  "), (0, false));
    assert_eq!(init(" -12 "), (-12, false));
    assert_eq!(init("0xFf"), (255, false));
    assert_eq!(init("0x-10"), (-16, false));
    assert_eq!(init("$NODEID"), (0, true));
    assert_eq!(init("$NODEID + 0x580"), (0x580, true));
    assert_eq!(init("$NODEID++ 1"), (1, true));
    assert_eq!(
        parse_plain_int("0x", "ctx").unwrap_err(),
        "ctx: cannot parse integer value \"0x\""
    );
    assert_eq!(parse_plain_int("-170141183460469231731687303715884105728", "c"), Ok(i128::MIN));
    assert!(parse_plain_int("170141183460469231731687303715884105728", "c").is_err());
}

#[test]
fn literals() {
    let lit = |base, data_type| int_literal(base, &scalar_type(data_type).unwrap(), "ctx");
    assert_eq!(lit(0, "BOOLEAN").unwrap(), "0x0u8");
    assert_eq!(lit(-128, "INTEGER8").unwrap(), "-128i8");
    assert_eq!(lit(-129, "INTEGER8").unwrap_err(), "ctx: value -129 out of range for i8");
    assert_eq!(lit(0xFFFF_FFFF, "UNSIGNED32").unwrap(), "0xFFFFFFFFu32");
    assert_eq!(lit(1 << 64, "UNSIGNED64").unwrap_err(), "ctx: value 18446744073709551616 out of range for u64");
    assert_eq!(lit(-(1 << 63), "INTEGER64").unwrap(), "-9223372036854775808i64");
    assert_eq!(lit(40_000, "INTEGER16").unwrap_err(), "ctx: value 40000 out of range for i16");
    assert!(scalar_type("REAL32").is_none());
    let init = parse_int("$NODEID+1", "ctx").unwrap_or_else(|e| panic!("{e}"));
    let expr = init_expr(&init, &scalar_type("INTEGER32").unwrap(), "ctx");
    assert_eq!(expr.unwrap(), "1i32 + node_id.raw() as i32");
    assert_eq!(pdo_access("ACCESS_PDO_TR", "ctx"), Ok("PdoAccess::Both"));
    assert!(sdo_access("ACCESS_SDO_WO", "ctx").is_ok_and(|r| r.writable && !r.readable));
    assert_eq!(sdo_label("ACCESS_SDO_WO"), "wo");
}

#[test]
fn numbers_as_text() {
    assert_eq!(decimal_text(0), "0");
    assert_eq!(decimal_text(u128::MAX), "340282366920938463463374607431768211455");
    assert_eq!(signed_decimal_text(i128::MIN), "-170141183460469231731687303715884105728");
    assert_eq!(hex_text(0xab, 4, false), "00ab");
    assert_eq!(hex_literal_text(0x1017, 2), "0x1017");
    for n in [0u128, 9, 10, 15, 16, 0xDEAD_BEEF, u64::MAX as u128] {
        assert_eq!(read_unsigned(&hex_text(n, 0, true), 16, u128::MAX), Some(n));
        assert_eq!(read_unsigned(&decimal_text(n), 10, u128::MAX), Some(n));
        assert_eq!(read_signed(&signed_decimal_text(-(n as i128)), 10), Some(-(n as i128)));
    }
    assert_eq!(read_unsigned("256", 10, 255), None);
    assert_eq!(read_signed("--1", 10), None);
    assert_eq!(strip_hex_prefix("0X1f"), Some("1f"));
    assert_eq!(strip_hex_prefix("x1f"), None);
}

#[test]
fn pieces_of_text() {
    assert_eq!(trim("\u{2003}\t a b \u{a0}\r\n"), "a b");
    assert_eq!(trim(" "), "");
    assert_eq!(trim_start_of("++1+", '+'), "1+");
    assert_eq!(strip("$NODEID+1", "$NODEID"), Some("+1"));
    assert_eq!(strip("NODE", "NODEID"), None);
    assert!(same("ß", "ß") && !same("a", "A"));
}

fn limited(low: &str, high: &str) -> OdSubObject {
    let mut s = sub("UNSIGNED8", "ACCESS_SDO_RW", "0");
    s.low_limit = low.to_string();
    s.high_limit = high.to_string();
    s
}

fn array_of(elements: Vec<(&'static str, OdSubObject)>) -> Vec<(&'static str, OdObject)> {
    let mut subs = vec![("00", sub("UNSIGNED8", "ACCESS_SDO_RO", "2"))];
    subs.extend(elements);
    vec![("2100", object("A", "ARRAY", subs))]
}

#[test]
fn common_limits_are_checked_once() {
    let objects = array_of(vec![("01", limited("1", "10")), ("02", limited("1", "10"))]);
    let code = generate(&device(objects)).unwrap();
    assert!(code.contains(
        "                let v = u8::from_le_bytes(od::exact::<1>(data)?);
                if v < 0x1u8 { return Err(OdError::ValueTooLow); }
                if v > 0xAu8 { return Err(OdError::ValueTooHigh); }
                self.x2100_a_[(s - 1) as usize] = v;
"
    ));
}

#[test]
fn elements_keep_their_own_limits() {
    let objects = array_of(vec![("01", limited("", "")), ("02", limited("3", "10"))]);
    let code = generate(&device(objects)).unwrap();
    assert!(code.contains(
        "                let v = u8::from_le_bytes(od::exact::<1>(data)?);
                if s == 0x02 && v < 0x3u8 { return Err(OdError::ValueTooLow); }
                if s == 0x02 && v > 0xAu8 { return Err(OdError::ValueTooHigh); }
                self.x2100_a_[(s - 1) as usize] = v;
"
    ));
    let objects = array_of(vec![("01", limited("", "9")), ("02", limited("", "256"))]);
    assert_eq!(failure(objects), "array object 0x2100 (A): value 256 out of range for u8");
}

#[test]
fn the_node_id_does_not_count_in_element_limits() {
    let relative = || limited("", "$NODEID+5");
    let code = generate(&device(array_of(vec![("01", relative()), ("02", relative())]))).unwrap();
    assert!(code.contains("                if v > 0x5u8 { return Err(OdError::ValueTooHigh); }\n"));
    let objects = array_of(vec![("01", limited("", "")), ("02", relative())]);
    let code = generate(&device(objects)).unwrap();
    assert!(code.contains(
        "                if s == 0x02 && v > 0x5u8 { return Err(OdError::ValueTooHigh); }\n"
    ));
}

#[test]
fn code_comes_in_key_order() {
    let thing = || object("T", "VAR", vec![("00", sub("UNSIGNED8", "ACCESS_SDO_RW", "0"))]);
    let code = generate(&device(vec![("1A00", thing()), ("2000", thing()), ("A000", thing())]));
    let code = code.unwrap();
    for pieces in [
        ["pub x1a00_t: u8", "pub x2000_t: u8", "pub xa000_t: u8"],
        ["x1a00_t: 0x0u8", "x2000_t: 0x0u8", "xa000_t: 0x0u8"],
        ["(0x1A00, _)", "(0x2000, 0x00)", "(0xA000, 0x00)"],
        ["self.x1a00_t = v", "self.x2000_t = v", "self.xa000_t = v"],
    ] {
        let at: Vec<usize> = pieces.iter().map(|p| code.find(p).unwrap()).collect();
        assert!(at[0] < at[1] && at[1] < at[2], "{pieces:?}");
    }
    for index in ["0x1A00", "0x2000", "0xA000"] {
        assert_eq!(code.matches(&format!("({index}, _)")).count(), 3, "once per method");
    }
}
