//! Data model of a CANopenEditor device description.
//!
//! The fields are those of the editor's JSON export. Absent fields take
//! their default, so the model tolerates schema additions.

use crate::codegen::counts::before;
use crate::text::{trim, trimmed};
use vstd::prelude::*;

verus! {

/// One device description.
#[derive(Debug)]
pub struct CanOpenDevice {
    pub file_info: FileInfo,
    pub device_info: DeviceInfo,
    /// Object dictionary, keyed by 4-digit uppercase hex index ("1017"), in
    /// ascending key order.
    pub objects: Vec<(String, OdObject)>,
}

#[derive(Debug, Default)]
pub struct FileInfo {
    pub description: String,
    pub modification_time: String,
}

#[derive(Debug, Default)]
pub struct DeviceInfo {
    pub vendor_name: String,
    pub product_name: String,
}

/// One OD entry (VAR, ARRAY or RECORD).
#[derive(Debug)]
pub struct OdObject {
    pub disabled: bool,
    pub name: String,
    pub alias: String,
    /// "OBJECT_TYPE_VAR" | "OBJECT_TYPE_ARRAY" | "OBJECT_TYPE_RECORD".
    pub object_type: String,
    /// Label for the object counts ("NMT", "TPDO", ...).
    pub count_label: String,
    /// Storage group ("" = RAM, "PERSIST_COMM", ...).
    pub storage_group: String,
    /// Sub-objects, keyed by 2-digit uppercase hex sub-index ("00"), in
    /// ascending key order.
    pub sub_objects: Vec<(String, OdSubObject)>,
}

/// One sub-object.
#[derive(Debug)]
pub struct OdSubObject {
    pub name: String,
    pub alias: String,
    /// "UNSIGNED16", "VISIBLE_STRING", "DOMAIN", ...
    pub data_type: String,
    /// "ACCESS_SDO_NO" | "..._RO" | "..._WO" | "..._RW".
    pub sdo: String,
    /// "ACCESS_PDO_NO" | "..._R" | "..._T" | "..._TR".
    pub pdo: String,
    pub default_value: String,
    /// Device-specific value; overrides `default_value` when non-empty.
    pub actual_value: String,
    pub low_limit: String,
    pub high_limit: String,
    pub string_length_min: u32,
}

/// Whether the keys of a list of entries are in ascending order, each key
/// occurring once.
pub open spec fn keys_ascend<T>(entries: Seq<(String, T)>) -> bool {
    forall|i: int, j: int|
        0 <= i < j < entries.len() ==> before(#[trigger] entries[i].0@, #[trigger] entries[j].0@)
}

/// Whether the objects of a device, and the sub-objects of each object, are
/// listed in ascending order of their keys, each key once.
pub open spec fn in_key_order(device: CanOpenDevice) -> bool {
    &&& keys_ascend(device.objects@)
    &&& forall|i: int|
        0 <= i < device.objects@.len() ==> keys_ascend(
            (#[trigger] device.objects@[i]).1.sub_objects@,
        )
}

/// `preferred` if it is set, else `other`.
pub open spec fn set_or(preferred: Seq<char>, other: Seq<char>) -> Seq<char> {
    if preferred.len() == 0 {
        other
    } else {
        preferred
    }
}

impl OdObject {
    /// Preferred identifier source: alias if set, else name.
    pub fn ident_source(&self) -> (source: &str)
        ensures
            source@ == set_or(self.alias@, self.name@),
    {
        if self.alias.as_str().is_empty() {
            self.name.as_str()
        } else {
            self.alias.as_str()
        }
    }
}

impl OdSubObject {
    /// The value the device shall be initialized with.
    pub open spec fn spec_init_value(&self) -> Seq<char> {
        if trimmed(self.actual_value@).len() == 0 {
            self.default_value@
        } else {
            self.actual_value@
        }
    }

    /// Preferred identifier source: alias if set, else name.
    pub fn ident_source(&self) -> (source: &str)
        ensures
            source@ == set_or(self.alias@, self.name@),
    {
        if self.alias.as_str().is_empty() {
            self.name.as_str()
        } else {
            self.alias.as_str()
        }
    }

    /// The value the device shall be initialized with.
    pub fn init_value(&self) -> (value: &str)
        ensures
            value@ == self.spec_init_value(),
    {
        if trim(self.actual_value.as_str()).is_empty() {
            self.default_value.as_str()
        } else {
            self.actual_value.as_str()
        }
    }
}

} // verus!
