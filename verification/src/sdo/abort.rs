//! SDO abort codes.

use crate::text::{hex_literal, hex_literal_text};
use vstd::prelude::*;
use vstd::string::StringExecFns;

verus! {

/// An SDO abort code as carried in bytes 4..8 of an SDO abort frame.
///
/// The associated constants are the well-known values of the code.
#[derive(Debug, Clone, Copy, PartialEq, Eq, Structural)]
pub struct SdoAbortCode(pub u32);

impl SdoAbortCode {
    /// Toggle bit not alternated.
    pub const TOGGLE_BIT: u32 = 0x0503_0000;

    /// SDO protocol timed out.
    pub const TIMEOUT: u32 = 0x0504_0000;

    /// Client/server command specifier not valid or unknown.
    pub const CMD_SPECIFIER: u32 = 0x0504_0001;

    /// Out of memory.
    pub const OUT_OF_MEMORY: u32 = 0x0504_0005;

    /// Unsupported access to an object.
    pub const UNSUPPORTED_ACCESS: u32 = 0x0601_0000;

    /// Attempt to read a write-only object.
    pub const WRITE_ONLY: u32 = 0x0601_0001;

    /// Attempt to write a read-only object.
    pub const READ_ONLY: u32 = 0x0601_0002;

    /// Object does not exist in the object dictionary.
    pub const NO_OBJECT: u32 = 0x0602_0000;

    /// Object cannot be mapped to the PDO.
    pub const NO_MAP: u32 = 0x0604_0041;

    /// Data type does not match, length of service parameter does not match.
    pub const TYPE_MISMATCH: u32 = 0x0607_0010;

    /// Data type does not match, length of service parameter too high.
    pub const DATA_LONG: u32 = 0x0607_0012;

    /// Data type does not match, length of service parameter too short.
    pub const DATA_SHORT: u32 = 0x0607_0013;

    /// Sub-index does not exist.
    pub const SUB_UNKNOWN: u32 = 0x0609_0011;

    /// Invalid value for parameter (download only).
    pub const INVALID_VALUE: u32 = 0x0609_0030;

    /// Value of parameter written too high.
    pub const VALUE_HIGH: u32 = 0x0609_0031;

    /// Value of parameter written too low.
    pub const VALUE_LOW: u32 = 0x0609_0032;

    /// General error.
    pub const GENERAL: u32 = 0x0800_0000;

    /// Data cannot be transferred or stored to the application.
    pub const DATA_TRANSF: u32 = 0x0800_0020;

    /// Data cannot be transferred because of the present device state.
    pub const DATA_DEV_STATE: u32 = 0x0800_0022;

    /// No data available.
    pub const NO_DATA: u32 = 0x0800_0024;

    /// Human-readable description of well-known codes, for diagnostics.
    pub fn description(self) -> (text: &'static str)
        ensures
            text@ == abort_description(self),
    {
        if self.0 == Self::TOGGLE_BIT {
            "toggle bit not alternated"
        } else if self.0 == Self::TIMEOUT {
            "SDO protocol timed out"
        } else if self.0 == Self::CMD_SPECIFIER {
            "command specifier not valid or unknown"
        } else if self.0 == Self::OUT_OF_MEMORY {
            "out of memory"
        } else if self.0 == Self::UNSUPPORTED_ACCESS {
            "unsupported access to object"
        } else if self.0 == Self::WRITE_ONLY {
            "attempt to read a write-only object"
        } else if self.0 == Self::READ_ONLY {
            "attempt to write a read-only object"
        } else if self.0 == Self::NO_OBJECT {
            "object does not exist in the object dictionary"
        } else if self.0 == Self::NO_MAP {
            "object cannot be mapped to the PDO"
        } else if self.0 == Self::TYPE_MISMATCH {
            "length of service parameter does not match"
        } else if self.0 == Self::DATA_LONG {
            "length of service parameter too high"
        } else if self.0 == Self::DATA_SHORT {
            "length of service parameter too short"
        } else if self.0 == Self::SUB_UNKNOWN {
            "sub-index does not exist"
        } else if self.0 == Self::INVALID_VALUE {
            "invalid value for parameter"
        } else if self.0 == Self::VALUE_HIGH {
            "value of parameter written too high"
        } else if self.0 == Self::VALUE_LOW {
            "value of parameter written too low"
        } else if self.0 == Self::GENERAL {
            "general error"
        } else if self.0 == Self::DATA_TRANSF {
            "data cannot be transferred or stored"
        } else if self.0 == Self::DATA_DEV_STATE {
            "data cannot be transferred (device state)"
        } else if self.0 == Self::NO_DATA {
            "no data available"
        } else {
            "unknown abort code"
        }
    }

    /// The code in hexadecimal notation and its description.
    pub fn to_text(self) -> (text: String)
        ensures
            text@ == abort_text(self),
    {
        let mut text = hex_literal_text(self.0 as u128, 8);
        text.append(" (");
        text.append(self.description());
        text.append(")");
        text
    }
}

/// An abort code in hexadecimal notation, with its description.
pub open spec fn abort_text(code: SdoAbortCode) -> Seq<char> {
    hex_literal(code.0 as nat, 8) + " ("@ + abort_description(code) + ")"@
}

/// The text that describes an abort code.
pub open spec fn abort_description(code: SdoAbortCode) -> Seq<char> {
    match code.0 {
        0x0503_0000 => "toggle bit not alternated"@,
        0x0504_0000 => "SDO protocol timed out"@,
        0x0504_0001 => "command specifier not valid or unknown"@,
        0x0504_0005 => "out of memory"@,
        0x0601_0000 => "unsupported access to object"@,
        0x0601_0001 => "attempt to read a write-only object"@,
        0x0601_0002 => "attempt to write a read-only object"@,
        0x0602_0000 => "object does not exist in the object dictionary"@,
        0x0604_0041 => "object cannot be mapped to the PDO"@,
        0x0607_0010 => "length of service parameter does not match"@,
        0x0607_0012 => "length of service parameter too high"@,
        0x0607_0013 => "length of service parameter too short"@,
        0x0609_0011 => "sub-index does not exist"@,
        0x0609_0030 => "invalid value for parameter"@,
        0x0609_0031 => "value of parameter written too high"@,
        0x0609_0032 => "value of parameter written too low"@,
        0x0800_0000 => "general error"@,
        0x0800_0020 => "data cannot be transferred or stored"@,
        0x0800_0022 => "data cannot be transferred (device state)"@,
        0x0800_0024 => "no data available"@,
        _ => "unknown abort code"@,
    }
}

} // verus!
