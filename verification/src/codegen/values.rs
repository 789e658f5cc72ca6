//! Types, values and access rights of a device description.

use crate::number::{is_hex, read_signed, signed_value, strip_hex_prefix};
use crate::text::{has_prefix, hex_literal, hex_literal_text, same, signed_decimal};
use crate::text::{signed_decimal_text, strip, text_result, trim, trim_start_of, trimmed};
use crate::text::trimmed_start;
use vstd::prelude::*;
use vstd::string::StringExecFns;

verus! {

/// The text that std's `Debug` formatting (`{:?}`) gives for a string.
pub uninterp spec fn debug_text(s: Seq<char>) -> Seq<char>;

/// `format!("{s:?}")`, that is `<str as core::fmt::Debug>::fmt` of std: the
/// string in double quotes, with the escapes that std defines. The contract
/// names the result and says nothing else of it.
#[verifier::external_body]
pub(crate) fn quoted(s: &str) -> (text: String)
    ensures
        text@ == debug_text(s@),
{
    format!("{s:?}")
}

/// An error message: where, what, and the text that is at fault, as it is
/// shown to the user.
pub fn complaint(place: &str, problem: &str, shown: &str) -> (message: String)
    ensures
        message@ == place@ + problem@ + shown@,
{
    let mut message = place.to_owned();
    message.append(problem);
    message.append(shown);
    message
}

/// Scalar type mapping between CANopen and Rust.
pub struct Scalar {
    pub rust: &'static str,
    pub size: usize,
    pub data_type: &'static str,
    pub signed: bool,
}

/// What a scalar type is.
pub struct ScalarSpec {
    pub rust: Seq<char>,
    pub size: nat,
    pub data_type: Seq<char>,
    pub signed: bool,
}

impl View for Scalar {
    type V = ScalarSpec;

    open spec fn view(&self) -> ScalarSpec {
        ScalarSpec {
            rust: self.rust@,
            size: self.size as nat,
            data_type: self.data_type@,
            signed: self.signed,
        }
    }
}

/// The scalar type with the given CANopen name.
pub open spec fn scalar_of(name: Seq<char>) -> Option<ScalarSpec> {
    if name == "BOOLEAN"@ {
        Some(ScalarSpec { rust: "u8"@, size: 1, data_type: "Boolean"@, signed: false })
    } else if name == "UNSIGNED8"@ {
        Some(ScalarSpec { rust: "u8"@, size: 1, data_type: "Unsigned8"@, signed: false })
    } else if name == "UNSIGNED16"@ {
        Some(ScalarSpec { rust: "u16"@, size: 2, data_type: "Unsigned16"@, signed: false })
    } else if name == "UNSIGNED32"@ {
        Some(ScalarSpec { rust: "u32"@, size: 4, data_type: "Unsigned32"@, signed: false })
    } else if name == "UNSIGNED64"@ {
        Some(ScalarSpec { rust: "u64"@, size: 8, data_type: "Unsigned64"@, signed: false })
    } else if name == "INTEGER8"@ {
        Some(ScalarSpec { rust: "i8"@, size: 1, data_type: "Integer8"@, signed: true })
    } else if name == "INTEGER16"@ {
        Some(ScalarSpec { rust: "i16"@, size: 2, data_type: "Integer16"@, signed: true })
    } else if name == "INTEGER32"@ {
        Some(ScalarSpec { rust: "i32"@, size: 4, data_type: "Integer32"@, signed: true })
    } else if name == "INTEGER64"@ {
        Some(ScalarSpec { rust: "i64"@, size: 8, data_type: "Integer64"@, signed: true })
    } else {
        None
    }
}

/// The scalar type with the given CANopen name.
pub fn scalar_type(data_type: &str) -> (scalar: Option<Scalar>)
    ensures
        scalar is Some <==> scalar_of(data_type@) is Some,
        scalar is Some ==> scalar->0@ == scalar_of(data_type@)->0,
{
    if same(data_type, "BOOLEAN") {
        Some(Scalar { rust: "u8", size: 1, data_type: "Boolean", signed: false })
    } else if same(data_type, "UNSIGNED8") {
        Some(Scalar { rust: "u8", size: 1, data_type: "Unsigned8", signed: false })
    } else if same(data_type, "UNSIGNED16") {
        Some(Scalar { rust: "u16", size: 2, data_type: "Unsigned16", signed: false })
    } else if same(data_type, "UNSIGNED32") {
        Some(Scalar { rust: "u32", size: 4, data_type: "Unsigned32", signed: false })
    } else if same(data_type, "UNSIGNED64") {
        Some(Scalar { rust: "u64", size: 8, data_type: "Unsigned64", signed: false })
    } else if same(data_type, "INTEGER8") {
        Some(Scalar { rust: "i8", size: 1, data_type: "Integer8", signed: true })
    } else if same(data_type, "INTEGER16") {
        Some(Scalar { rust: "i16", size: 2, data_type: "Integer16", signed: true })
    } else if same(data_type, "INTEGER32") {
        Some(Scalar { rust: "i32", size: 4, data_type: "Integer32", signed: true })
    } else if same(data_type, "INTEGER64") {
        Some(Scalar { rust: "i64", size: 8, data_type: "Integer64", signed: true })
    } else {
        None
    }
}

/// A parsed integer initializer, possibly `$NODEID`-relative.
pub struct Init {
    pub base: i128,
    pub plus_node_id: bool,
}

/// What an initializer is.
pub struct InitSpec {
    pub base: int,
    pub plus_node_id: bool,
}

impl View for Init {
    type V = InitSpec;

    open spec fn view(&self) -> InitSpec {
        InitSpec { base: self.base as int, plus_node_id: self.plus_node_id }
    }
}

/// The integer that `t` denotes: decimal, or hexadecimal after `0x`.
pub open spec fn plain_int(t: Seq<char>, ctx: Seq<char>) -> Result<int, Seq<char>> {
    let value = if is_hex(t) {
        signed_value(t.skip(2), 16)
    } else {
        signed_value(t, 10)
    };
    match value {
        Some(value) => Ok(value),
        None => Err(ctx + ": cannot parse integer value "@ + debug_text(t)),
    }
}

/// What follows `$NODEID` in an initializer, without plus signs and space.
pub open spec fn node_offset(t: Seq<char>) -> Seq<char> {
    trimmed(trimmed_start(trimmed(t.skip(7)), |c: char| c == '+'))
}

/// The initializer that `value` denotes; nothing stands for 0.
pub open spec fn int_init(value: Seq<char>, ctx: Seq<char>) -> Result<InitSpec, Seq<char>> {
    let t = trimmed(value);
    if t.len() == 0 {
        Ok(InitSpec { base: 0, plus_node_id: false })
    } else if has_prefix(t, "$NODEID"@) {
        if node_offset(t).len() == 0 {
            Ok(InitSpec { base: 0, plus_node_id: true })
        } else {
            match plain_int(node_offset(t), ctx) {
                Ok(base) => Ok(InitSpec { base, plus_node_id: true }),
                Err(e) => Err(e),
            }
        }
    } else {
        match plain_int(t, ctx) {
            Ok(base) => Ok(InitSpec { base, plus_node_id: false }),
            Err(e) => Err(e),
        }
    }
}

/// Parse an initializer.
pub fn parse_int(value: &str, ctx: &str) -> (init: Result<Init, String>)
    ensures
        match int_init(value@, ctx@) {
            Ok(expected) => init is Ok && init->Ok_0@ == expected,
            Err(e) => init is Err && init->Err_0@ == e,
        },
{
    let t = trim(value);
    if t.is_empty() {
        return Ok(Init { base: 0, plus_node_id: false });
    }
    proof {
        reveal_strlit("$NODEID");
    }
    if let Some(rest) = strip(t, "$NODEID") {
        let rest = trim(trim_start_of(trim(rest), '+'));
        let base: i128 = if rest.is_empty() {
            0
        } else {
            match parse_plain_int(rest, ctx) {
                Ok(base) => base,
                Err(e) => return Err(e),
            }
        };
        return Ok(Init { base, plus_node_id: true });
    }
    match parse_plain_int(t, ctx) {
        Ok(base) => Ok(Init { base, plus_node_id: false }),
        Err(e) => Err(e),
    }
}

/// Parse a decimal or hexadecimal integer.
pub fn parse_plain_int(t: &str, ctx: &str) -> (value: Result<i128, String>)
    ensures
        match plain_int(t@, ctx@) {
            Ok(expected) => value is Ok && value->Ok_0 == expected,
            Err(e) => value is Err && value->Err_0@ == e,
        },
{
    let parsed = match strip_hex_prefix(t) {
        Some(hex) => read_signed(hex, 16),
        None => read_signed(t, 10),
    };
    match parsed {
        Some(value) => Ok(value),
        None => {
            Err(complaint(ctx, ": cannot parse integer value ", quoted(t).as_str()))
        },
    }
}

/// The smallest value of a scalar type.
pub open spec fn scalar_min(scalar: ScalarSpec) -> int {
    if !scalar.signed {
        0
    } else if scalar.size == 1 {
        -0x80
    } else if scalar.size == 2 {
        -0x8000
    } else if scalar.size == 4 {
        -0x8000_0000
    } else {
        -0x8000_0000_0000_0000
    }
}

/// The largest value of a scalar type.
pub open spec fn scalar_max(scalar: ScalarSpec) -> int {
    if scalar.signed {
        -scalar_min(scalar) - 1
    } else if scalar.size == 1 {
        0xFF
    } else if scalar.size == 2 {
        0xFFFF
    } else if scalar.size == 4 {
        0xFFFF_FFFF
    } else {
        0xFFFF_FFFF_FFFF_FFFF
    }
}

/// The literal for the value `base`: decimal for signed types, hexadecimal
/// for unsigned ones, with the type as suffix.
pub open spec fn literal(base: int, scalar: ScalarSpec, ctx: Seq<char>) -> Result<
    Seq<char>,
    Seq<char>,
> {
    if !(scalar_min(scalar) <= base <= scalar_max(scalar)) {
        Err(ctx + ": value "@ + signed_decimal(base) + " out of range for "@ + scalar.rust)
    } else if scalar.signed {
        Ok(signed_decimal(base) + scalar.rust)
    } else {
        Ok(hex_literal(base as nat, 0) + scalar.rust)
    }
}

/// Validate range and render an integer literal with type suffix.
pub fn int_literal(base: i128, scalar: &Scalar, ctx: &str) -> (lit: Result<String, String>)
    ensures
        text_result(lit) == literal(base as int, scalar@, ctx@),
{
    let min: i128 = if !scalar.signed {
        0
    } else if scalar.size == 1 {
        -0x80
    } else if scalar.size == 2 {
        -0x8000
    } else if scalar.size == 4 {
        -0x8000_0000
    } else {
        -0x8000_0000_0000_0000
    };
    let max: i128 = if scalar.signed {
        -min - 1
    } else if scalar.size == 1 {
        0xFF
    } else if scalar.size == 2 {
        0xFFFF
    } else if scalar.size == 4 {
        0xFFFF_FFFF
    } else {
        0xFFFF_FFFF_FFFF_FFFF
    };
    if base < min || base > max {
        let mut e = ctx.to_owned();
        e.append(": value ");
        e.append(signed_decimal_text(base).as_str());
        e.append(" out of range for ");
        e.append(scalar.rust);
        return Err(e);
    }
    if scalar.signed {
        let mut lit = signed_decimal_text(base);
        lit.append(scalar.rust);
        Ok(lit)
    } else {
        let mut lit = hex_literal_text(base as u128, 0);
        lit.append(scalar.rust);
        Ok(lit)
    }
}

/// The initializer expression of a scalar field.
pub open spec fn init_text(init: InitSpec, scalar: ScalarSpec, ctx: Seq<char>) -> Result<
    Seq<char>,
    Seq<char>,
> {
    match literal(init.base, scalar, ctx) {
        Ok(lit) => Ok(
            if init.plus_node_id {
                lit + " + node_id.raw() as "@ + scalar.rust
            } else {
                lit
            },
        ),
        Err(e) => Err(e),
    }
}

/// Render the initializer expression for a scalar field.
pub fn init_expr(init: &Init, scalar: &Scalar, ctx: &str) -> (expr: Result<String, String>)
    ensures
        text_result(expr) == init_text(init@, scalar@, ctx@),
{
    match int_literal(init.base, scalar, ctx) {
        Ok(lit) => {
            let mut lit = lit;
            if init.plus_node_id {
                lit.append(" + node_id.raw() as ");
                lit.append(scalar.rust);
            }
            Ok(lit)
        },
        Err(e) => Err(e),
    }
}

/// SDO access rights in generated code.
pub struct SdoRights {
    pub variant: &'static str,
    pub readable: bool,
    pub writable: bool,
}

/// What SDO access rights are.
pub struct SdoRightsSpec {
    pub variant: Seq<char>,
    pub readable: bool,
    pub writable: bool,
}

impl View for SdoRights {
    type V = SdoRightsSpec;

    open spec fn view(&self) -> SdoRightsSpec {
        SdoRightsSpec {
            variant: self.variant@,
            readable: self.readable,
            writable: self.writable,
        }
    }
}

/// The SDO access rights that `raw` names.
pub open spec fn sdo_rights(raw: Seq<char>, ctx: Seq<char>) -> Result<SdoRightsSpec, Seq<char>> {
    if raw == ""@ || raw == "ACCESS_SDO_NO"@ {
        Ok(SdoRightsSpec { variant: "SdoAccess::No"@, readable: false, writable: false })
    } else if raw == "ACCESS_SDO_RO"@ {
        Ok(SdoRightsSpec { variant: "SdoAccess::ReadOnly"@, readable: true, writable: false })
    } else if raw == "ACCESS_SDO_WO"@ {
        Ok(SdoRightsSpec { variant: "SdoAccess::WriteOnly"@, readable: false, writable: true })
    } else if raw == "ACCESS_SDO_RW"@ {
        Ok(SdoRightsSpec { variant: "SdoAccess::ReadWrite"@, readable: true, writable: true })
    } else {
        Err(ctx + ": unknown SDO access "@ + debug_text(raw))
    }
}

/// The SDO access rights that `raw` names.
pub fn sdo_access(raw: &str, ctx: &str) -> (rights: Result<SdoRights, String>)
    ensures
        match sdo_rights(raw@, ctx@) {
            Ok(expected) => rights is Ok && rights->Ok_0@ == expected,
            Err(e) => rights is Err && rights->Err_0@ == e,
        },
{
    if same(raw, "") || same(raw, "ACCESS_SDO_NO") {
        Ok(SdoRights { variant: "SdoAccess::No", readable: false, writable: false })
    } else if same(raw, "ACCESS_SDO_RO") {
        Ok(SdoRights { variant: "SdoAccess::ReadOnly", readable: true, writable: false })
    } else if same(raw, "ACCESS_SDO_WO") {
        Ok(SdoRights { variant: "SdoAccess::WriteOnly", readable: false, writable: true })
    } else if same(raw, "ACCESS_SDO_RW") {
        Ok(SdoRights { variant: "SdoAccess::ReadWrite", readable: true, writable: true })
    } else {
        Err(complaint(ctx, ": unknown SDO access ", quoted(raw).as_str()))
    }
}

/// The PDO mapping capability that `raw` names, in generated code.
pub open spec fn pdo_variant(raw: Seq<char>, ctx: Seq<char>) -> Result<Seq<char>, Seq<char>> {
    if raw == ""@ || raw == "ACCESS_PDO_NO"@ {
        Ok("PdoAccess::No"@)
    } else if raw == "ACCESS_PDO_R"@ {
        Ok("PdoAccess::Rpdo"@)
    } else if raw == "ACCESS_PDO_T"@ {
        Ok("PdoAccess::Tpdo"@)
    } else if raw == "ACCESS_PDO_TR"@ {
        Ok("PdoAccess::Both"@)
    } else {
        Err(ctx + ": unknown PDO access "@ + debug_text(raw))
    }
}

/// The PDO mapping capability that `raw` names, in generated code.
pub fn pdo_access(raw: &str, ctx: &str) -> (variant: Result<&'static str, String>)
    ensures
        match pdo_variant(raw@, ctx@) {
            Ok(expected) => variant is Ok && variant->Ok_0@ == expected,
            Err(e) => variant is Err && variant->Err_0@ == e,
        },
{
    if same(raw, "") || same(raw, "ACCESS_PDO_NO") {
        Ok("PdoAccess::No")
    } else if same(raw, "ACCESS_PDO_R") {
        Ok("PdoAccess::Rpdo")
    } else if same(raw, "ACCESS_PDO_T") {
        Ok("PdoAccess::Tpdo")
    } else if same(raw, "ACCESS_PDO_TR") {
        Ok("PdoAccess::Both")
    } else {
        Err(complaint(ctx, ": unknown PDO access ", quoted(raw).as_str()))
    }
}

/// How field documentation names the SDO access rights.
pub open spec fn access_label(raw: Seq<char>) -> Seq<char> {
    if raw == "ACCESS_SDO_NO"@ {
        "no"@
    } else if raw == "ACCESS_SDO_RO"@ {
        "ro"@
    } else if raw == "ACCESS_SDO_WO"@ {
        "wo"@
    } else if raw == "ACCESS_SDO_RW"@ {
        "rw"@
    } else {
        ""@
    }
}

/// How field documentation names the SDO access rights. Texts that name no
/// rights have no label; [`sdo_access`] rejects them.
pub fn sdo_label(raw: &str) -> (label: &'static str)
    ensures
        label@ == access_label(raw@),
{
    if same(raw, "ACCESS_SDO_NO") {
        "no"
    } else if same(raw, "ACCESS_SDO_RO") {
        "ro"
    } else if same(raw, "ACCESS_SDO_WO") {
        "wo"
    } else if same(raw, "ACCESS_SDO_RW") {
        "rw"
    } else {
        ""
    }
}

} // verus!
