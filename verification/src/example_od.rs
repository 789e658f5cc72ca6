//! A device that follows the CiA 301 communication profile.
//!
//! Its object dictionary holds the communication parameters that a node uses
//! (heartbeat, SDO channel, four receive and four transmit PDOs) and two
//! manufacturer specific objects: 0x2000 is mapped into TPDO1, RPDO1 is
//! mapped into 0x2010. The fields are plain data for the application; SDO and
//! PDO access goes through the [`ObjectDictionary`] impl.

use crate::bytes::{byte_range, le_bytes, le_value, lemma_bytes_of_value, lemma_le_bytes_prefix};
use crate::bytes::{lemma_le_value_padded, u32_from_le, u32_to_le, zeros};
use crate::node_id::NodeId;
use crate::od;
use crate::od::{DataType, EntryInfo, ObjectDictionary, OdError, PdoAccess, SdoAccess};
use crate::sdo::client::{client_request, download_request, ClientPhase, ClientState, Outcome};
use crate::sdo::exchange::{exchange, law_download_hands_over_the_value};
use crate::sdo::exchange::{law_exchange_keeps_partners, law_upload_gives_the_value, linked};
use crate::sdo::server::{AcceptedWrite, ServerState};
use crate::Micros;
use vstd::prelude::*;
use vstd::slice::slice_subrange;

verus! {

/// Number of enabled RPDO objects.
pub const CNT_RPDO: u8 = 4;

/// Number of enabled TPDO objects.
pub const CNT_TPDO: u8 = 4;

/// An entry of the dictionary: its metadata, and the unsigned number of
/// `info.size` bytes that it holds.
#[derive(Debug, Clone, Copy, PartialEq, Eq, Structural)]
pub struct Cell {
    pub info: EntryInfo,
    pub value: u32,
}

/// A cell with the given metadata and value.
pub open spec fn spec_cell(
    data_type: DataType,
    sdo: SdoAccess,
    pdo: PdoAccess,
    size: usize,
    value: u32,
) -> Cell {
    Cell { info: EntryInfo { data_type, sdo, pdo, size }, value }
}

fn cell(data_type: DataType, sdo: SdoAccess, pdo: PdoAccess, size: usize, value: u32) -> (c: Cell)
    ensures
        c == spec_cell(data_type, sdo, pdo, size, value),
{
    Cell { info: EntryInfo { data_type, sdo, pdo, size }, value }
}

/// Communication parameter of a receive PDO (0x1400..).
#[derive(Debug, Clone, Copy)]
pub struct RpdoParameter {
    /// COB-ID; bit 31 disables the PDO.
    pub cob_id: u32,
    /// Transmission type.
    pub transmission_type: u8,
    /// Event timer, milliseconds.
    pub event_timer: u16,
}

impl RpdoParameter {
    /// The entry with the given sub-index.
    pub open spec fn spec_get(&self, sub: u8) -> Option<Cell> {
        if sub == 0 {
            Some(spec_cell(DataType::Unsigned8, SdoAccess::ReadOnly, PdoAccess::No, 1, 5))
        } else if sub == 1 {
            Some(spec_cell(DataType::Unsigned32, SdoAccess::ReadWrite, PdoAccess::No, 4, self.cob_id))
        } else if sub == 2 {
            Some(spec_cell(DataType::Unsigned8, SdoAccess::ReadWrite, PdoAccess::No, 1, self.transmission_type as u32))
        } else if sub == 5 {
            Some(spec_cell(DataType::Unsigned16, SdoAccess::ReadWrite, PdoAccess::No, 2, self.event_timer as u32))
        } else {
            None
        }
    }

    /// The parameter with the value `value` in the entry `sub`.
    pub open spec fn spec_set(self, sub: u8, value: u32) -> Self {
        if sub == 1 {
            Self { cob_id: value, ..self }
        } else if sub == 2 {
            Self { transmission_type: value as u8, ..self }
        } else if sub == 5 {
            Self { event_timer: value as u16, ..self }
        } else {
            self
        }
    }

    fn get(&self, sub: u8) -> (entry: Option<Cell>)
        ensures
            entry == self.spec_get(sub),
    {
        if sub == 0 {
            Some(cell(DataType::Unsigned8, SdoAccess::ReadOnly, PdoAccess::No, 1, 5))
        } else if sub == 1 {
            Some(cell(DataType::Unsigned32, SdoAccess::ReadWrite, PdoAccess::No, 4, self.cob_id))
        } else if sub == 2 {
            Some(cell(DataType::Unsigned8, SdoAccess::ReadWrite, PdoAccess::No, 1, self.transmission_type as u32))
        } else if sub == 5 {
            Some(cell(DataType::Unsigned16, SdoAccess::ReadWrite, PdoAccess::No, 2, self.event_timer as u32))
        } else {
            None
        }
    }

    fn set(&mut self, sub: u8, value: u32)
        ensures
            *final(self) == old(self).spec_set(sub, value),
    {
        if sub == 1 {
            self.cob_id = value;
        } else if sub == 2 {
            self.transmission_type = value as u8;
        } else if sub == 5 {
            self.event_timer = value as u16;
        }
    }
}

/// Communication parameter of a transmit PDO (0x1800..).
#[derive(Debug, Clone, Copy)]
pub struct TpdoParameter {
    /// COB-ID; bit 31 disables the PDO.
    pub cob_id: u32,
    /// Transmission type.
    pub transmission_type: u8,
    /// Inhibit time, multiples of 100 µs.
    pub inhibit_time: u16,
    /// Event timer, milliseconds.
    pub event_timer: u16,
    /// SYNC start value.
    pub sync_start_value: u8,
}

impl TpdoParameter {
    /// The entry with the given sub-index.
    pub open spec fn spec_get(&self, sub: u8) -> Option<Cell> {
        if sub == 0 {
            Some(spec_cell(DataType::Unsigned8, SdoAccess::ReadOnly, PdoAccess::No, 1, 6))
        } else if sub == 1 {
            Some(spec_cell(DataType::Unsigned32, SdoAccess::ReadWrite, PdoAccess::No, 4, self.cob_id))
        } else if sub == 2 {
            Some(spec_cell(DataType::Unsigned8, SdoAccess::ReadWrite, PdoAccess::No, 1, self.transmission_type as u32))
        } else if sub == 3 {
            Some(spec_cell(DataType::Unsigned16, SdoAccess::ReadWrite, PdoAccess::No, 2, self.inhibit_time as u32))
        } else if sub == 5 {
            Some(spec_cell(DataType::Unsigned16, SdoAccess::ReadWrite, PdoAccess::No, 2, self.event_timer as u32))
        } else if sub == 6 {
            Some(spec_cell(DataType::Unsigned8, SdoAccess::ReadWrite, PdoAccess::No, 1, self.sync_start_value as u32))
        } else {
            None
        }
    }

    /// The parameter with the value `value` in the entry `sub`.
    pub open spec fn spec_set(self, sub: u8, value: u32) -> Self {
        if sub == 1 {
            Self { cob_id: value, ..self }
        } else if sub == 2 {
            Self { transmission_type: value as u8, ..self }
        } else if sub == 3 {
            Self { inhibit_time: value as u16, ..self }
        } else if sub == 5 {
            Self { event_timer: value as u16, ..self }
        } else if sub == 6 {
            Self { sync_start_value: value as u8, ..self }
        } else {
            self
        }
    }

    fn get(&self, sub: u8) -> (entry: Option<Cell>)
        ensures
            entry == self.spec_get(sub),
    {
        if sub == 0 {
            Some(cell(DataType::Unsigned8, SdoAccess::ReadOnly, PdoAccess::No, 1, 6))
        } else if sub == 1 {
            Some(cell(DataType::Unsigned32, SdoAccess::ReadWrite, PdoAccess::No, 4, self.cob_id))
        } else if sub == 2 {
            Some(cell(DataType::Unsigned8, SdoAccess::ReadWrite, PdoAccess::No, 1, self.transmission_type as u32))
        } else if sub == 3 {
            Some(cell(DataType::Unsigned16, SdoAccess::ReadWrite, PdoAccess::No, 2, self.inhibit_time as u32))
        } else if sub == 5 {
            Some(cell(DataType::Unsigned16, SdoAccess::ReadWrite, PdoAccess::No, 2, self.event_timer as u32))
        } else if sub == 6 {
            Some(cell(DataType::Unsigned8, SdoAccess::ReadWrite, PdoAccess::No, 1, self.sync_start_value as u32))
        } else {
            None
        }
    }

    fn set(&mut self, sub: u8, value: u32)
        ensures
            *final(self) == old(self).spec_set(sub, value),
    {
        if sub == 1 {
            self.cob_id = value;
        } else if sub == 2 {
            self.transmission_type = value as u8;
        } else if sub == 3 {
            self.inhibit_time = value as u16;
        } else if sub == 5 {
            self.event_timer = value as u16;
        } else if sub == 6 {
            self.sync_start_value = value as u8;
        }
    }
}

/// Mapping parameter of a PDO (0x1600.., 0x1A00..).
#[derive(Debug, Clone, Copy)]
pub struct PdoMapping {
    /// Number of mapped application objects.
    pub count: u8,
    /// Mapped objects: index, sub-index and length in bits.
    pub objects: [u32; 8],
}

impl PdoMapping {
    /// The entry with the given sub-index.
    pub open spec fn spec_get(&self, sub: u8) -> Option<Cell> {
        if sub == 0 {
            Some(spec_cell(DataType::Unsigned8, SdoAccess::ReadWrite, PdoAccess::No, 1, self.count as u32))
        } else if 1 <= sub <= 8 {
            Some(spec_cell(DataType::Unsigned32, SdoAccess::ReadWrite, PdoAccess::No, 4, self.objects@[sub - 1]))
        } else {
            None
        }
    }

    /// The parameter with the value `value` in the entry `sub`.
    pub open spec fn spec_set(self, sub: u8, value: u32) -> Self {
        if sub == 0 {
            Self { count: value as u8, ..self }
        } else if 1 <= sub <= 8 {
            Self {
                objects: vstd::array::spec_array_update(self.objects, sub - 1, value),
                ..self
            }
        } else {
            self
        }
    }

    fn get(&self, sub: u8) -> (entry: Option<Cell>)
        ensures
            entry == self.spec_get(sub),
    {
        if sub == 0 {
            Some(cell(DataType::Unsigned8, SdoAccess::ReadWrite, PdoAccess::No, 1, self.count as u32))
        } else if 1 <= sub && sub <= 8 {
            Some(cell(DataType::Unsigned32, SdoAccess::ReadWrite, PdoAccess::No, 4, self.objects[(sub - 1) as usize]))
        } else {
            None
        }
    }

    fn set(&mut self, sub: u8, value: u32)
        ensures
            *final(self) == old(self).spec_set(sub, value),
    {
        if sub == 0 {
            self.count = value as u8;
        } else if 1 <= sub && sub <= 8 {
            self.objects[(sub - 1) as usize] = value;
            assert(self.objects@ =~= old(self).objects@.update(sub - 1, value));
        }
    }
}

/// Object dictionary data of one device instance.
#[derive(Debug, Clone, Copy)]
pub struct Od {
    /// 0x1000:00
    pub x1000_device_type: u32,
    /// 0x1001:00
    pub x1001_error_register: u8,
    /// 0x1003:00
    pub x1003_number_of_errors: u8,
    /// 0x1003:01..=10
    pub x1003_pre_defined_error_field: [u32; 16],
    /// 0x1005:00
    pub x1005_cob_id_sync_message: u32,
    /// 0x1014:00
    pub x1014_cob_id_emcy: u32,
    /// 0x1017:00
    pub x1017_producer_heartbeat_time: u16,
    /// 0x1018:01
    pub x1018_vendor_id: u32,
    /// 0x1018:02
    pub x1018_product_code: u32,
    /// 0x1018:03
    pub x1018_revision_number: u32,
    /// 0x1018:04
    pub x1018_serial_number: u32,
    /// 0x1200:01
    pub x1200_cob_id_client_to_server_rx: u32,
    /// 0x1200:02
    pub x1200_cob_id_server_to_client_tx: u32,
    /// 0x1400
    pub x1400: RpdoParameter,
    /// 0x1401
    pub x1401: RpdoParameter,
    /// 0x1402
    pub x1402: RpdoParameter,
    /// 0x1403
    pub x1403: RpdoParameter,
    /// 0x1600
    pub x1600: PdoMapping,
    /// 0x1601
    pub x1601: PdoMapping,
    /// 0x1602
    pub x1602: PdoMapping,
    /// 0x1603
    pub x1603: PdoMapping,
    /// 0x1800
    pub x1800: TpdoParameter,
    /// 0x1801
    pub x1801: TpdoParameter,
    /// 0x1802
    pub x1802: TpdoParameter,
    /// 0x1803
    pub x1803: TpdoParameter,
    /// 0x1A00
    pub x1a00: PdoMapping,
    /// 0x1A01
    pub x1a01: PdoMapping,
    /// 0x1A02
    pub x1a02: PdoMapping,
    /// 0x1A03
    pub x1a03: PdoMapping,
    /// 0x2000:01
    pub x2000_sub_object_1: u8,
    /// 0x2000:02
    pub x2000_sub_object_2: u8,
    /// 0x2000:05
    pub x2000_sub_object_5: u8,
    /// 0x2010:01
    pub x2010_sub_object_1: u8,
    /// 0x2010:02
    pub x2010_sub_object_2: u8,
    /// 0x2010:05
    pub x2010_sub_object_5: u8,
}

impl Od {
    /// The entries of object 0x1000.
    pub open spec fn spec_get_1000(&self, sub: u8) -> Option<Cell> {
        if sub == 0 {
            Some(spec_cell(DataType::Unsigned32, SdoAccess::ReadOnly, PdoAccess::No, 4, self.x1000_device_type))
        } else {
            None
        }
    }

    /// The entries of object 0x1001.
    pub open spec fn spec_get_1001(&self, sub: u8) -> Option<Cell> {
        if sub == 0 {
            Some(spec_cell(DataType::Unsigned8, SdoAccess::ReadOnly, PdoAccess::Tpdo, 1, self.x1001_error_register as u32))
        } else {
            None
        }
    }

    /// The entries of object 0x1003.
    pub open spec fn spec_get_1003(&self, sub: u8) -> Option<Cell> {
        if sub == 0 {
            Some(spec_cell(DataType::Unsigned8, SdoAccess::ReadWrite, PdoAccess::No, 1, self.x1003_number_of_errors as u32))
        } else if 1 <= sub <= 16 {
            Some(spec_cell(DataType::Unsigned32, SdoAccess::ReadOnly, PdoAccess::No, 4, self.x1003_pre_defined_error_field@[sub - 1]))
        } else {
            None
        }
    }

    /// The entries of object 0x1005.
    pub open spec fn spec_get_1005(&self, sub: u8) -> Option<Cell> {
        if sub == 0 {
            Some(spec_cell(DataType::Unsigned32, SdoAccess::ReadWrite, PdoAccess::No, 4, self.x1005_cob_id_sync_message))
        } else {
            None
        }
    }

    /// The entries of object 0x1014.
    pub open spec fn spec_get_1014(&self, sub: u8) -> Option<Cell> {
        if sub == 0 {
            Some(spec_cell(DataType::Unsigned32, SdoAccess::ReadWrite, PdoAccess::No, 4, self.x1014_cob_id_emcy))
        } else {
            None
        }
    }

    /// The entries of object 0x1017.
    pub open spec fn spec_get_1017(&self, sub: u8) -> Option<Cell> {
        if sub == 0 {
            Some(spec_cell(DataType::Unsigned16, SdoAccess::ReadWrite, PdoAccess::No, 2, self.x1017_producer_heartbeat_time as u32))
        } else {
            None
        }
    }

    /// The entries of object 0x1018.
    pub open spec fn spec_get_1018(&self, sub: u8) -> Option<Cell> {
        if sub == 0 {
            Some(spec_cell(DataType::Unsigned8, SdoAccess::ReadOnly, PdoAccess::No, 1, 4))
        } else if sub == 1 {
            Some(spec_cell(DataType::Unsigned32, SdoAccess::ReadOnly, PdoAccess::No, 4, self.x1018_vendor_id))
        } else if sub == 2 {
            Some(spec_cell(DataType::Unsigned32, SdoAccess::ReadOnly, PdoAccess::No, 4, self.x1018_product_code))
        } else if sub == 3 {
            Some(spec_cell(DataType::Unsigned32, SdoAccess::ReadOnly, PdoAccess::No, 4, self.x1018_revision_number))
        } else if sub == 4 {
            Some(spec_cell(DataType::Unsigned32, SdoAccess::ReadOnly, PdoAccess::No, 4, self.x1018_serial_number))
        } else {
            None
        }
    }

    /// The entries of object 0x1200.
    pub open spec fn spec_get_1200(&self, sub: u8) -> Option<Cell> {
        if sub == 0 {
            Some(spec_cell(DataType::Unsigned8, SdoAccess::ReadOnly, PdoAccess::No, 1, 2))
        } else if sub == 1 {
            Some(spec_cell(DataType::Unsigned32, SdoAccess::ReadOnly, PdoAccess::No, 4, self.x1200_cob_id_client_to_server_rx))
        } else if sub == 2 {
            Some(spec_cell(DataType::Unsigned32, SdoAccess::ReadOnly, PdoAccess::No, 4, self.x1200_cob_id_server_to_client_tx))
        } else {
            None
        }
    }

    /// The entries of object 0x2000.
    pub open spec fn spec_get_2000(&self, sub: u8) -> Option<Cell> {
        if sub == 0 {
            Some(spec_cell(DataType::Unsigned8, SdoAccess::ReadOnly, PdoAccess::No, 1, 5))
        } else if sub == 1 {
            Some(spec_cell(DataType::Boolean, SdoAccess::ReadWrite, PdoAccess::Tpdo, 1, self.x2000_sub_object_1 as u32))
        } else if sub == 2 {
            Some(spec_cell(DataType::Boolean, SdoAccess::ReadWrite, PdoAccess::Tpdo, 1, self.x2000_sub_object_2 as u32))
        } else if sub == 5 {
            Some(spec_cell(DataType::Unsigned8, SdoAccess::ReadWrite, PdoAccess::Tpdo, 1, self.x2000_sub_object_5 as u32))
        } else {
            None
        }
    }

    /// The entries of object 0x2010.
    pub open spec fn spec_get_2010(&self, sub: u8) -> Option<Cell> {
        if sub == 0 {
            Some(spec_cell(DataType::Unsigned8, SdoAccess::ReadOnly, PdoAccess::No, 1, 5))
        } else if sub == 1 {
            Some(spec_cell(DataType::Boolean, SdoAccess::ReadWrite, PdoAccess::Rpdo, 1, self.x2010_sub_object_1 as u32))
        } else if sub == 2 {
            Some(spec_cell(DataType::Boolean, SdoAccess::ReadWrite, PdoAccess::Rpdo, 1, self.x2010_sub_object_2 as u32))
        } else if sub == 5 {
            Some(spec_cell(DataType::Unsigned8, SdoAccess::ReadWrite, PdoAccess::Rpdo, 1, self.x2010_sub_object_5 as u32))
        } else {
            None
        }
    }

    /// The entries of an object by sub-index; `None` for an object that does
    /// not exist.
    pub open spec fn object(&self, index: u16) -> Option<spec_fn(u8) -> Option<Cell>> {
        if index == 0x1000 {
            Some(|sub: u8| self.spec_get_1000(sub))
        } else if index == 0x1001 {
            Some(|sub: u8| self.spec_get_1001(sub))
        } else if index == 0x1003 {
            Some(|sub: u8| self.spec_get_1003(sub))
        } else if index == 0x1005 {
            Some(|sub: u8| self.spec_get_1005(sub))
        } else if index == 0x1014 {
            Some(|sub: u8| self.spec_get_1014(sub))
        } else if index == 0x1017 {
            Some(|sub: u8| self.spec_get_1017(sub))
        } else if index == 0x1018 {
            Some(|sub: u8| self.spec_get_1018(sub))
        } else if index == 0x1200 {
            Some(|sub: u8| self.spec_get_1200(sub))
        } else if index == 0x1400 {
            Some(|sub: u8| self.x1400.spec_get(sub))
        } else if index == 0x1401 {
            Some(|sub: u8| self.x1401.spec_get(sub))
        } else if index == 0x1402 {
            Some(|sub: u8| self.x1402.spec_get(sub))
        } else if index == 0x1403 {
            Some(|sub: u8| self.x1403.spec_get(sub))
        } else if index == 0x1600 {
            Some(|sub: u8| self.x1600.spec_get(sub))
        } else if index == 0x1601 {
            Some(|sub: u8| self.x1601.spec_get(sub))
        } else if index == 0x1602 {
            Some(|sub: u8| self.x1602.spec_get(sub))
        } else if index == 0x1603 {
            Some(|sub: u8| self.x1603.spec_get(sub))
        } else if index == 0x1800 {
            Some(|sub: u8| self.x1800.spec_get(sub))
        } else if index == 0x1801 {
            Some(|sub: u8| self.x1801.spec_get(sub))
        } else if index == 0x1802 {
            Some(|sub: u8| self.x1802.spec_get(sub))
        } else if index == 0x1803 {
            Some(|sub: u8| self.x1803.spec_get(sub))
        } else if index == 0x1A00 {
            Some(|sub: u8| self.x1a00.spec_get(sub))
        } else if index == 0x1A01 {
            Some(|sub: u8| self.x1a01.spec_get(sub))
        } else if index == 0x1A02 {
            Some(|sub: u8| self.x1a02.spec_get(sub))
        } else if index == 0x1A03 {
            Some(|sub: u8| self.x1a03.spec_get(sub))
        } else if index == 0x2000 {
            Some(|sub: u8| self.spec_get_2000(sub))
        } else if index == 0x2010 {
            Some(|sub: u8| self.spec_get_2010(sub))
        } else {
            None
        }
    }

    /// The entry `index:sub`.
    pub open spec fn spec_lookup(&self, index: u16, sub: u8) -> Result<Cell, OdError> {
        match self.object(index) {
            None => Err(OdError::ObjectNotFound),
            Some(entries) => match entries(sub) {
                None => Err(OdError::SubIndexNotFound),
                Some(entry) => Ok(entry),
            },
        }
    }

    /// The dictionary with the value `value` in the writable entry
    /// `index:sub`.
    pub open spec fn with_value(self, index: u16, sub: u8, value: u32) -> Od {
        if index == 0x1003 && sub == 0 {
            Od { x1003_number_of_errors: value as u8, ..self }
        } else if index == 0x1005 && sub == 0 {
            Od { x1005_cob_id_sync_message: value, ..self }
        } else if index == 0x1014 && sub == 0 {
            Od { x1014_cob_id_emcy: value, ..self }
        } else if index == 0x1017 && sub == 0 {
            Od { x1017_producer_heartbeat_time: value as u16, ..self }
        } else if index == 0x1400 {
            Od { x1400: self.x1400.spec_set(sub, value), ..self }
        } else if index == 0x1401 {
            Od { x1401: self.x1401.spec_set(sub, value), ..self }
        } else if index == 0x1402 {
            Od { x1402: self.x1402.spec_set(sub, value), ..self }
        } else if index == 0x1403 {
            Od { x1403: self.x1403.spec_set(sub, value), ..self }
        } else if index == 0x1600 {
            Od { x1600: self.x1600.spec_set(sub, value), ..self }
        } else if index == 0x1601 {
            Od { x1601: self.x1601.spec_set(sub, value), ..self }
        } else if index == 0x1602 {
            Od { x1602: self.x1602.spec_set(sub, value), ..self }
        } else if index == 0x1603 {
            Od { x1603: self.x1603.spec_set(sub, value), ..self }
        } else if index == 0x1800 {
            Od { x1800: self.x1800.spec_set(sub, value), ..self }
        } else if index == 0x1801 {
            Od { x1801: self.x1801.spec_set(sub, value), ..self }
        } else if index == 0x1802 {
            Od { x1802: self.x1802.spec_set(sub, value), ..self }
        } else if index == 0x1803 {
            Od { x1803: self.x1803.spec_set(sub, value), ..self }
        } else if index == 0x1A00 {
            Od { x1a00: self.x1a00.spec_set(sub, value), ..self }
        } else if index == 0x1A01 {
            Od { x1a01: self.x1a01.spec_set(sub, value), ..self }
        } else if index == 0x1A02 {
            Od { x1a02: self.x1a02.spec_set(sub, value), ..self }
        } else if index == 0x1A03 {
            Od { x1a03: self.x1a03.spec_set(sub, value), ..self }
        } else if index == 0x2000 && sub == 1 {
            Od { x2000_sub_object_1: value as u8, ..self }
        } else if index == 0x2000 && sub == 2 {
            Od { x2000_sub_object_2: value as u8, ..self }
        } else if index == 0x2000 && sub == 5 {
            Od { x2000_sub_object_5: value as u8, ..self }
        } else if index == 0x2010 && sub == 1 {
            Od { x2010_sub_object_1: value as u8, ..self }
        } else if index == 0x2010 && sub == 2 {
            Od { x2010_sub_object_2: value as u8, ..self }
        } else if index == 0x2010 && sub == 5 {
            Od { x2010_sub_object_5: value as u8, ..self }
        } else {
            self
        }
    }

    /// OD initialized with the configured default values; the COB-IDs are
    /// computed from `node_id`. RPDO1 and TPDO1 are valid and mapped, the
    /// other PDOs are disabled.
    pub fn new(node_id: NodeId) -> (od: Self)
        ensures
            od.x1000_device_type == 0,
            od.x1001_error_register == 0,
            od.x1003_number_of_errors == 0,
            od.x1005_cob_id_sync_message == 0x80,
            od.x1014_cob_id_emcy == 0x80 + node_id.spec_raw(),
            od.x1017_producer_heartbeat_time == 0,
            od.x1018_vendor_id == 0,
            od.x1018_product_code == 0,
            od.x1018_revision_number == 0,
            od.x1018_serial_number == 0,
            od.x1200_cob_id_client_to_server_rx == 0x600 + node_id.spec_raw(),
            od.x1200_cob_id_server_to_client_tx == 0x580 + node_id.spec_raw(),
            od.x2000_sub_object_1 == 0,
            od.x2000_sub_object_2 == 0,
            od.x2000_sub_object_5 == 0,
            od.x2010_sub_object_1 == 0,
            od.x2010_sub_object_2 == 0,
            od.x2010_sub_object_5 == 0,
            od.x1003_pre_defined_error_field@ == Seq::new(16, |i: int| 0u32),
            od.x1400 == rpdo_defaults((0x200 + node_id.spec_raw()) as u32),
            od.x1401 == rpdo_defaults((0x80000300 + node_id.spec_raw()) as u32),
            od.x1402 == rpdo_defaults((0x80000400 + node_id.spec_raw()) as u32),
            od.x1403 == rpdo_defaults((0x80000500 + node_id.spec_raw()) as u32),
            od.x1800 == tpdo_defaults((0x40000180 + node_id.spec_raw()) as u32),
            od.x1801 == tpdo_defaults((0xC0000280 + node_id.spec_raw()) as u32),
            od.x1802 == tpdo_defaults((0xC0000380 + node_id.spec_raw()) as u32),
            od.x1803 == tpdo_defaults((0xC0000480 + node_id.spec_raw()) as u32),
            od.x1600.count == 3,
            od.x1600.objects@ == mapped_by_default(0x2010),
            od.x1a00.count == 3,
            od.x1a00.objects@ == mapped_by_default(0x2000),
            od.x1601.count == 0,
            od.x1601.objects@ == Seq::new(8, |i: int| 0u32),
            od.x1a01.count == 0,
            od.x1a01.objects@ == Seq::new(8, |i: int| 0u32),
            od.x1602.count == 0,
            od.x1602.objects@ == Seq::new(8, |i: int| 0u32),
            od.x1a02.count == 0,
            od.x1a02.objects@ == Seq::new(8, |i: int| 0u32),
            od.x1603.count == 0,
            od.x1603.objects@ == Seq::new(8, |i: int| 0u32),
            od.x1a03.count == 0,
            od.x1a03.objects@ == Seq::new(8, |i: int| 0u32),
    {
        let id: u32 = node_id.raw() as u32;
        let od = Self {
            x1000_device_type: 0,
            x1001_error_register: 0,
            x1003_number_of_errors: 0,
            x1003_pre_defined_error_field: [0;16],
            x1005_cob_id_sync_message: 0x80,
            x1014_cob_id_emcy: 0x80 + id,
            x1017_producer_heartbeat_time: 0,
            x1018_vendor_id: 0,
            x1018_product_code: 0,
            x1018_revision_number: 0,
            x1018_serial_number: 0,
            x1200_cob_id_client_to_server_rx: 0x600 + id,
            x1200_cob_id_server_to_client_tx: 0x580 + id,
            x1400: rpdo_parameter(0x200 + id),
            x1401: rpdo_parameter(0x80000300 + id),
            x1402: rpdo_parameter(0x80000400 + id),
            x1403: rpdo_parameter(0x80000500 + id),
            x1600: PdoMapping {
                count: 3,
                objects: [0x2010_0101, 0x2010_0201, 0x2010_0508, 0, 0, 0, 0, 0],
            },
            x1601: PdoMapping { count: 0, objects: [0;8] },
            x1602: PdoMapping { count: 0, objects: [0;8] },
            x1603: PdoMapping { count: 0, objects: [0;8] },
            x1800: tpdo_parameter(0x40000180 + id),
            x1801: tpdo_parameter(0xC0000280 + id),
            x1802: tpdo_parameter(0xC0000380 + id),
            x1803: tpdo_parameter(0xC0000480 + id),
            x1a00: PdoMapping {
                count: 3,
                objects: [0x2000_0101, 0x2000_0201, 0x2000_0508, 0, 0, 0, 0, 0],
            },
            x1a01: PdoMapping { count: 0, objects: [0;8] },
            x1a02: PdoMapping { count: 0, objects: [0;8] },
            x1a03: PdoMapping { count: 0, objects: [0;8] },
            x2000_sub_object_1: 0,
            x2000_sub_object_2: 0,
            x2000_sub_object_5: 0,
            x2010_sub_object_1: 0,
            x2010_sub_object_2: 0,
            x2010_sub_object_5: 0,
        };
        assert(od.x1003_pre_defined_error_field@ =~= Seq::new(16, |i: int| 0u32));
        assert(od.x1600.objects@ =~= mapped_by_default(0x2010));
        assert(od.x1a00.objects@ =~= mapped_by_default(0x2000));
        assert(od.x1601.objects@ =~= Seq::new(8, |i: int| 0u32));
        assert(od.x1a01.objects@ =~= Seq::new(8, |i: int| 0u32));
        assert(od.x1602.objects@ =~= Seq::new(8, |i: int| 0u32));
        assert(od.x1a02.objects@ =~= Seq::new(8, |i: int| 0u32));
        assert(od.x1603.objects@ =~= Seq::new(8, |i: int| 0u32));
        assert(od.x1a03.objects@ =~= Seq::new(8, |i: int| 0u32));
        od
    }

    fn get_1000(&self, sub: u8) -> (entry: Option<Cell>)
        ensures
            entry == self.spec_get_1000(sub),
    {
        if sub == 0 {
            Some(cell(DataType::Unsigned32, SdoAccess::ReadOnly, PdoAccess::No, 4, self.x1000_device_type))
        } else {
            None
        }
    }

    fn get_1001(&self, sub: u8) -> (entry: Option<Cell>)
        ensures
            entry == self.spec_get_1001(sub),
    {
        if sub == 0 {
            Some(cell(DataType::Unsigned8, SdoAccess::ReadOnly, PdoAccess::Tpdo, 1, self.x1001_error_register as u32))
        } else {
            None
        }
    }

    fn get_1003(&self, sub: u8) -> (entry: Option<Cell>)
        ensures
            entry == self.spec_get_1003(sub),
    {
        if sub == 0 {
            Some(cell(DataType::Unsigned8, SdoAccess::ReadWrite, PdoAccess::No, 1, self.x1003_number_of_errors as u32))
        } else if 1 <= sub && sub <= 16 {
            Some(cell(DataType::Unsigned32, SdoAccess::ReadOnly, PdoAccess::No, 4, self.x1003_pre_defined_error_field[(sub - 1) as usize]))
        } else {
            None
        }
    }

    fn get_1005(&self, sub: u8) -> (entry: Option<Cell>)
        ensures
            entry == self.spec_get_1005(sub),
    {
        if sub == 0 {
            Some(cell(DataType::Unsigned32, SdoAccess::ReadWrite, PdoAccess::No, 4, self.x1005_cob_id_sync_message))
        } else {
            None
        }
    }

    fn get_1014(&self, sub: u8) -> (entry: Option<Cell>)
        ensures
            entry == self.spec_get_1014(sub),
    {
        if sub == 0 {
            Some(cell(DataType::Unsigned32, SdoAccess::ReadWrite, PdoAccess::No, 4, self.x1014_cob_id_emcy))
        } else {
            None
        }
    }

    fn get_1017(&self, sub: u8) -> (entry: Option<Cell>)
        ensures
            entry == self.spec_get_1017(sub),
    {
        if sub == 0 {
            Some(cell(DataType::Unsigned16, SdoAccess::ReadWrite, PdoAccess::No, 2, self.x1017_producer_heartbeat_time as u32))
        } else {
            None
        }
    }

    fn get_1018(&self, sub: u8) -> (entry: Option<Cell>)
        ensures
            entry == self.spec_get_1018(sub),
    {
        if sub == 0 {
            Some(cell(DataType::Unsigned8, SdoAccess::ReadOnly, PdoAccess::No, 1, 4))
        } else if sub == 1 {
            Some(cell(DataType::Unsigned32, SdoAccess::ReadOnly, PdoAccess::No, 4, self.x1018_vendor_id))
        } else if sub == 2 {
            Some(cell(DataType::Unsigned32, SdoAccess::ReadOnly, PdoAccess::No, 4, self.x1018_product_code))
        } else if sub == 3 {
            Some(cell(DataType::Unsigned32, SdoAccess::ReadOnly, PdoAccess::No, 4, self.x1018_revision_number))
        } else if sub == 4 {
            Some(cell(DataType::Unsigned32, SdoAccess::ReadOnly, PdoAccess::No, 4, self.x1018_serial_number))
        } else {
            None
        }
    }

    fn get_1200(&self, sub: u8) -> (entry: Option<Cell>)
        ensures
            entry == self.spec_get_1200(sub),
    {
        if sub == 0 {
            Some(cell(DataType::Unsigned8, SdoAccess::ReadOnly, PdoAccess::No, 1, 2))
        } else if sub == 1 {
            Some(cell(DataType::Unsigned32, SdoAccess::ReadOnly, PdoAccess::No, 4, self.x1200_cob_id_client_to_server_rx))
        } else if sub == 2 {
            Some(cell(DataType::Unsigned32, SdoAccess::ReadOnly, PdoAccess::No, 4, self.x1200_cob_id_server_to_client_tx))
        } else {
            None
        }
    }

    fn get_2000(&self, sub: u8) -> (entry: Option<Cell>)
        ensures
            entry == self.spec_get_2000(sub),
    {
        if sub == 0 {
            Some(cell(DataType::Unsigned8, SdoAccess::ReadOnly, PdoAccess::No, 1, 5))
        } else if sub == 1 {
            Some(cell(DataType::Boolean, SdoAccess::ReadWrite, PdoAccess::Tpdo, 1, self.x2000_sub_object_1 as u32))
        } else if sub == 2 {
            Some(cell(DataType::Boolean, SdoAccess::ReadWrite, PdoAccess::Tpdo, 1, self.x2000_sub_object_2 as u32))
        } else if sub == 5 {
            Some(cell(DataType::Unsigned8, SdoAccess::ReadWrite, PdoAccess::Tpdo, 1, self.x2000_sub_object_5 as u32))
        } else {
            None
        }
    }

    fn get_2010(&self, sub: u8) -> (entry: Option<Cell>)
        ensures
            entry == self.spec_get_2010(sub),
    {
        if sub == 0 {
            Some(cell(DataType::Unsigned8, SdoAccess::ReadOnly, PdoAccess::No, 1, 5))
        } else if sub == 1 {
            Some(cell(DataType::Boolean, SdoAccess::ReadWrite, PdoAccess::Rpdo, 1, self.x2010_sub_object_1 as u32))
        } else if sub == 2 {
            Some(cell(DataType::Boolean, SdoAccess::ReadWrite, PdoAccess::Rpdo, 1, self.x2010_sub_object_2 as u32))
        } else if sub == 5 {
            Some(cell(DataType::Unsigned8, SdoAccess::ReadWrite, PdoAccess::Rpdo, 1, self.x2010_sub_object_5 as u32))
        } else {
            None
        }
    }

    /// Find the entry `index:sub`.
    fn lookup(&self, index: u16, sub: u8) -> (entry: Result<Cell, OdError>)
        ensures
            entry == self.spec_lookup(index, sub),
    {
        let found = match index {
            0x1000 => self.get_1000(sub),
            0x1001 => self.get_1001(sub),
            0x1003 => self.get_1003(sub),
            0x1005 => self.get_1005(sub),
            0x1014 => self.get_1014(sub),
            0x1017 => self.get_1017(sub),
            0x1018 => self.get_1018(sub),
            0x1200 => self.get_1200(sub),
            0x1400 => self.x1400.get(sub),
            0x1401 => self.x1401.get(sub),
            0x1402 => self.x1402.get(sub),
            0x1403 => self.x1403.get(sub),
            0x1600 => self.x1600.get(sub),
            0x1601 => self.x1601.get(sub),
            0x1602 => self.x1602.get(sub),
            0x1603 => self.x1603.get(sub),
            0x1800 => self.x1800.get(sub),
            0x1801 => self.x1801.get(sub),
            0x1802 => self.x1802.get(sub),
            0x1803 => self.x1803.get(sub),
            0x1A00 => self.x1a00.get(sub),
            0x1A01 => self.x1a01.get(sub),
            0x1A02 => self.x1a02.get(sub),
            0x1A03 => self.x1a03.get(sub),
            0x2000 => self.get_2000(sub),
            0x2010 => self.get_2010(sub),
            _ => return Err(OdError::ObjectNotFound),
        };
        match found {
            Some(entry) => Ok(entry),
            None => Err(OdError::SubIndexNotFound),
        }
    }

    /// Store a value in the writable entry `index:sub`.
    fn store(&mut self, index: u16, sub: u8, value: u32)
        ensures
            *final(self) == old(self).with_value(index, sub, value),
    {
        if index == 0x1003 && sub == 0 {
            self.x1003_number_of_errors = value as u8;
        } else if index == 0x1005 && sub == 0 {
            self.x1005_cob_id_sync_message = value;
        } else if index == 0x1014 && sub == 0 {
            self.x1014_cob_id_emcy = value;
        } else if index == 0x1017 && sub == 0 {
            self.x1017_producer_heartbeat_time = value as u16;
        } else if index == 0x1400 {
            self.x1400.set(sub, value);
        } else if index == 0x1401 {
            self.x1401.set(sub, value);
        } else if index == 0x1402 {
            self.x1402.set(sub, value);
        } else if index == 0x1403 {
            self.x1403.set(sub, value);
        } else if index == 0x1600 {
            self.x1600.set(sub, value);
        } else if index == 0x1601 {
            self.x1601.set(sub, value);
        } else if index == 0x1602 {
            self.x1602.set(sub, value);
        } else if index == 0x1603 {
            self.x1603.set(sub, value);
        } else if index == 0x1800 {
            self.x1800.set(sub, value);
        } else if index == 0x1801 {
            self.x1801.set(sub, value);
        } else if index == 0x1802 {
            self.x1802.set(sub, value);
        } else if index == 0x1803 {
            self.x1803.set(sub, value);
        } else if index == 0x1A00 {
            self.x1a00.set(sub, value);
        } else if index == 0x1A01 {
            self.x1a01.set(sub, value);
        } else if index == 0x1A02 {
            self.x1a02.set(sub, value);
        } else if index == 0x1A03 {
            self.x1a03.set(sub, value);
        } else if index == 0x2000 && sub == 1 {
            self.x2000_sub_object_1 = value as u8;
        } else if index == 0x2000 && sub == 2 {
            self.x2000_sub_object_2 = value as u8;
        } else if index == 0x2000 && sub == 5 {
            self.x2000_sub_object_5 = value as u8;
        } else if index == 0x2010 && sub == 1 {
            self.x2010_sub_object_1 = value as u8;
        } else if index == 0x2010 && sub == 2 {
            self.x2010_sub_object_2 = value as u8;
        } else if index == 0x2010 && sub == 5 {
            self.x2010_sub_object_5 = value as u8;
        }
    }
}

/// The default communication parameter of a receive PDO.
pub open spec fn rpdo_defaults(cob_id: u32) -> RpdoParameter {
    RpdoParameter { cob_id, transmission_type: 254, event_timer: 0 }
}

fn rpdo_parameter(cob_id: u32) -> (parameter: RpdoParameter)
    ensures
        parameter == rpdo_defaults(cob_id),
{
    RpdoParameter { cob_id, transmission_type: 254, event_timer: 0 }
}

/// The default communication parameter of a transmit PDO.
pub open spec fn tpdo_defaults(cob_id: u32) -> TpdoParameter {
    TpdoParameter {
        cob_id,
        transmission_type: 254,
        inhibit_time: 0,
        event_timer: 0,
        sync_start_value: 0,
    }
}

fn tpdo_parameter(cob_id: u32) -> (parameter: TpdoParameter)
    ensures
        parameter == tpdo_defaults(cob_id),
{
    TpdoParameter {
        cob_id,
        transmission_type: 254,
        inhibit_time: 0,
        event_timer: 0,
        sync_start_value: 0,
    }
}

/// The default mapping: sub-objects 1 and 2 of the object `index` with one
/// bit each, and sub-object 5 with eight bits.
pub open spec fn mapped_by_default(index: nat) -> Seq<u32> {
    seq![
        (index * 0x1_0000 + 0x0101) as u32,
        (index * 0x1_0000 + 0x0201) as u32,
        (index * 0x1_0000 + 0x0508) as u32,
        0,
        0,
        0,
        0,
        0,
    ]
}

impl ObjectDictionary for Od {
    open spec fn spec_info(&self, index: u16, sub: u8) -> Result<EntryInfo, OdError> {
        match self.spec_lookup(index, sub) {
            Ok(entry) => Ok(entry.info),
            Err(e) => Err(e),
        }
    }

    /// All entries are readable.
    open spec fn spec_value(&self, index: u16, sub: u8) -> Result<Seq<u8>, OdError> {
        match self.spec_lookup(index, sub) {
            Ok(entry) => Ok(le_bytes(entry.value as nat, entry.info.size as nat)),
            Err(e) => Err(e),
        }
    }

    open spec fn spec_write(&self, index: u16, sub: u8, data: Seq<u8>) -> Result<(), OdError> {
        match self.spec_lookup(index, sub) {
            Ok(entry) => if !entry.info.sdo.spec_writable() {
                Err(OdError::ReadOnly)
            } else if data.len() != entry.info.size {
                Err(OdError::TypeMismatch)
            } else {
                Ok(())
            },
            Err(e) => Err(e),
        }
    }

    open spec fn spec_written(&self, index: u16, sub: u8, data: Seq<u8>, post: &Self) -> bool {
        *post == self.with_value(index, sub, le_value(data) as u32)
    }

    fn info(&self, index: u16, sub: u8) -> (info: Result<EntryInfo, OdError>) {
        match self.lookup(index, sub) {
            Ok(entry) => Ok(entry.info),
            Err(e) => Err(e),
        }
    }

    fn read(&self, index: u16, sub: u8, buf: &mut [u8]) -> (len: Result<usize, OdError>) {
        match self.lookup(index, sub) {
            Ok(entry) => {
                proof {
                    lemma_sizes(*self, index, sub);
                    lemma_le_bytes_prefix(entry.value as nat, entry.info.size as nat, 4);
                }
                let bytes = u32_to_le(entry.value);
                let value = slice_subrange(&bytes, 0, entry.info.size);
                assert(value@ =~= bytes@.take(entry.info.size as int));
                od::read_bytes(buf, value)
            },
            Err(e) => Err(e),
        }
    }

    fn write(&mut self, index: u16, sub: u8, data: &[u8]) -> (done: Result<(), OdError>) {
        match self.lookup(index, sub) {
            Ok(entry) => {
                if !entry.info.sdo.writable() {
                    return Err(OdError::ReadOnly);
                }
                if data.len() != entry.info.size {
                    return Err(OdError::TypeMismatch);
                }
                proof {
                    lemma_sizes(*self, index, sub);
                }
                let value: u32 = number(data);
                self.store(index, sub, value);
                Ok(())
            },
            Err(e) => Err(e),
        }
    }
}

/// Every entry is one to four bytes long, and its value fits.
proof fn lemma_sizes(od: Od, index: u16, sub: u8)
    ensures
        od.spec_lookup(index, sub) matches Ok(entry) ==> {
            &&& entry.info.size == 1 || entry.info.size == 2 || entry.info.size == 4
            &&& entry.value < byte_range(entry.info.size as nat)
        },
{
    reveal_with_fuel(byte_range, 5);
}

/// The number that one to four bytes denote.
fn number(data: &[u8]) -> (value: u32)
    requires
        1 <= data@.len() <= 4,
    ensures
        value as nat == le_value(data@),
{
    let b1: u8 = if data.len() > 1 {
        data[1]
    } else {
        0
    };
    let b2: u8 = if data.len() > 2 {
        data[2]
    } else {
        0
    };
    let b3: u8 = if data.len() > 3 {
        data[3]
    } else {
        0
    };
    proof {
        lemma_le_value_padded(data@, (4 - data@.len()) as nat);
        assert(data@ + zeros((4 - data@.len()) as nat) =~= seq![data@[0], b1, b2, b3]);
    }
    u32_from_le(data[0], b1, b2, b3)
}

/// What a writable entry holds after a write.
proof fn lemma_written(pre: Od, index: u16, sub: u8, value: u32)
    requires
        pre.spec_lookup(index, sub) is Ok,
        pre.spec_lookup(index, sub)->Ok_0.info.sdo.spec_writable(),
        pre.spec_lookup(index, sub)->Ok_0.info.size == 1 ==> value <= 0xFF,
        pre.spec_lookup(index, sub)->Ok_0.info.size == 2 ==> value <= 0xFFFF,
    ensures
        pre.with_value(index, sub, value).spec_lookup(index, sub) == Ok::<Cell, OdError>(
            Cell { value, ..pre.spec_lookup(index, sub)->Ok_0 },
        ),
{
}

/// What the other entries of a written object hold.
proof fn lemma_other_sub(pre: Od, index: u16, sub: u8, value: u32, other: u8)
    requires
        pre.spec_lookup(index, sub) is Ok,
        other != sub,
    ensures
        pre.with_value(index, sub, value).spec_lookup(index, other) == pre.spec_lookup(
            index,
            other,
        ),
{
}

/// What the entries of other objects hold.
#[verifier::rlimit(60)]
proof fn lemma_other_object(pre: Od, index: u16, sub: u8, value: u32, other: u16, other_sub: u8)
    requires
        other != index,
    ensures
        pre.with_value(index, sub, value).spec_lookup(other, other_sub) == pre.spec_lookup(
            other,
            other_sub,
        ),
{
}

/// An accepted write is read back, and changes no other entry.
pub proof fn law_writes_are_read_back(
    pre: Od,
    index: u16,
    sub: u8,
    data: Seq<u8>,
    post: Od,
    other_index: u16,
    other_sub: u8,
)
    requires
        pre.spec_write(index, sub, data) is Ok,
        pre.spec_written(index, sub, data, &post),
    ensures
        post.spec_value(index, sub) == Ok::<Seq<u8>, OdError>(data),
        post.spec_info(index, sub) == pre.spec_info(index, sub),
        other_index != index || other_sub != sub ==> post.spec_lookup(other_index, other_sub)
            == pre.spec_lookup(other_index, other_sub),
{
    let entry = pre.spec_lookup(index, sub)->Ok_0;
    let value = le_value(data) as u32;
    lemma_sizes(pre, index, sub);
    lemma_bytes_of_value(data);
    assert(byte_range(1) == 0x100 && byte_range(2) == 0x1_0000 && byte_range(4) == 0x1_0000_0000)
        by {
        reveal_with_fuel(byte_range, 5);
    }
    lemma_written(pre, index, sub, value);
    if other_index != index {
        lemma_other_object(pre, index, sub, value, other_index, other_sub);
    } else if other_sub != sub {
        lemma_other_sub(pre, index, sub, value, other_sub);
    }
}

/// A value that a client wrote over SDO is the value that it reads over SDO
/// afterwards.
pub proof fn law_parameters_are_read_back_over_sdo(
    client: ClientState,
    client_room: nat,
    server: ServerState,
    server_room: nat,
    pre: Od,
    post: Od,
    value: Seq<u8>,
    clock: spec_fn(nat) -> Micros,
    turns: nat,
)
    requires
        linked(client, server),
        client.phase == (ClientPhase::DownloadInitiate { data: value }),
        4 <= client_room && 4 <= server_room,
        pre.spec_write(client.index, client.sub, value) is Ok,
        pre.spec_written(client.index, client.sub, value, &post),
        turns > value.len(),
    ensures
        ({
            let written = exchange(
                client,
                client_room,
                server,
                server_room,
                pre,
                download_request(client, value),
                clock,
                0,
                turns,
            );
            let asking = ClientState { phase: ClientPhase::UploadInitiate, ..written.client };
            &&& written.event == Some(
                Outcome::DownloadOk { index: client.index, sub: client.sub },
            )
            &&& written.written == Some(
                AcceptedWrite { index: client.index, sub: client.sub, data: value },
            )
            &&& exchange(
                asking,
                client_room,
                written.server,
                server_room,
                post,
                client_request(asking, 0x40, Seq::empty()),
                clock,
                0,
                turns,
            ).event == Some(
                Outcome::UploadOk { index: client.index, sub: client.sub, data: value },
            )
        }),
{
    let index = client.index;
    let sub = client.sub;
    lemma_sizes(pre, index, sub);
    law_download_hands_over_the_value(
        client,
        client_room,
        server,
        server_room,
        pre,
        value,
        clock,
        turns,
    );
    law_writes_are_read_back(pre, index, sub, value, post, index, sub);
    let written = exchange(
        client,
        client_room,
        server,
        server_room,
        pre,
        download_request(client, value),
        clock,
        0,
        turns,
    );
    law_exchange_keeps_partners(
        client,
        client_room,
        server,
        server_room,
        pre,
        download_request(client, value),
        clock,
        0,
        turns,
    );
    let asking = ClientState { phase: ClientPhase::UploadInitiate, ..written.client };
    law_upload_gives_the_value(
        asking,
        client_room,
        written.server,
        server_room,
        post,
        value,
        clock,
        turns,
    );
}

} // verus!
