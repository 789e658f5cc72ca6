//! The generator against a small synthetic device (strings, DOMAIN, value
//! limits, signed types, disabled objects).

use canopen_core::codegen::gen::generate;
use canopen_core::codegen::model::{
    CanOpenDevice, DeviceInfo, FileInfo, OdObject, OdSubObject,
};
use serde_json::Value;

fn text(value: &Value, key: &str) -> String {
    value[key].as_str().unwrap_or("").to_string()
}

fn sub_object(value: &Value) -> OdSubObject {
    OdSubObject {
        name: text(value, "name"),
        alias: text(value, "alias"),
        data_type: text(value, "dataType"),
        sdo: text(value, "sdo"),
        pdo: text(value, "pdo"),
        default_value: text(value, "defaultValue"),
        actual_value: text(value, "actualValue"),
        low_limit: text(value, "lowLimit"),
        high_limit: text(value, "highLimit"),
        string_length_min: value["stringLengthMin"].as_u64().unwrap_or(0) as u32,
    }
}

fn object(value: &Value) -> OdObject {
    OdObject {
        disabled: value["disabled"].as_bool().unwrap_or(false),
        name: text(value, "name"),
        alias: text(value, "alias"),
        object_type: text(value, "objectType"),
        count_label: text(value, "countLabel"),
        storage_group: text(value, "storageGroup"),
        sub_objects: entries(&value["subObjects"], sub_object),
    }
}

fn entries<T>(value: &Value, convert: fn(&Value) -> T) -> Vec<(String, T)> {
    match value.as_object() {
        Some(map) => map.iter().map(|(k, v)| (k.clone(), convert(v))).collect(),
        None => Vec::new(),
    }
}

fn device(json: &str) -> CanOpenDevice {
    let value: Value = serde_json::from_str(json).unwrap();
    CanOpenDevice {
        file_info: FileInfo::default(),
        device_info: DeviceInfo {
            vendor_name: text(&value["deviceInfo"], "vendorName"),
            product_name: text(&value["deviceInfo"], "productName"),
        },
        objects: entries(&value["objects"], object),
    }
}

fn generate_json(json: &str) -> Result<String, String> {
    generate(&device(json))
}

const DEVICE: &str = r#"{
  "deviceInfo": { "productName": "Synthetic" },
  "objects": {
    "2000": {
      "name": "Device label",
      "objectType": "OBJECT_TYPE_VAR",
      "subObjects": {
        "00": { "name": "", "dataType": "VISIBLE_STRING", "sdo": "ACCESS_SDO_RW",
                 "defaultValue": "abc", "stringLengthMin": 12 }
      }
    },
    "2001": {
      "name": "Firmware image",
      "objectType": "OBJECT_TYPE_VAR",
      "subObjects": {
        "00": { "name": "", "dataType": "DOMAIN", "sdo": "ACCESS_SDO_WO" }
      }
    },
    "2002": {
      "name": "Temperature limit",
      "objectType": "OBJECT_TYPE_VAR",
      "subObjects": {
        "00": { "name": "", "dataType": "INTEGER16", "sdo": "ACCESS_SDO_RW",
                 "defaultValue": "-40", "lowLimit": "-55", "highLimit": "125" }
      }
    },
    "2003": {
      "name": "Old object",
      "disabled": true,
      "objectType": "OBJECT_TYPE_VAR",
      "subObjects": {
        "00": { "name": "", "dataType": "UNSIGNED8", "sdo": "ACCESS_SDO_RW" }
      }
    },
    "2004": {
      "name": "Actual wins",
      "objectType": "OBJECT_TYPE_VAR",
      "subObjects": {
        "00": { "name": "", "dataType": "UNSIGNED16", "sdo": "ACCESS_SDO_RO",
                 "defaultValue": "1", "actualValue": "0x2A" }
      }
    }
  }
}"#;

#[test]
fn synthetic_device_code_paths() {
    let code = generate_json(DEVICE).unwrap();

    // String: capacity honours stringLengthMin, default preserved.
    assert!(code.contains("pub x2000_device_label: od::OdString<12>"), "{code}");
    assert!(code.contains("od::OdString::new(b\"abc\")"));
    assert!(code.contains("(0x2000, 0x00) => self.x2000_device_label.set(data),"));

    // DOMAIN: no field, NoData on access.
    assert!(!code.contains("x2001_firmware_image:"));
    assert!(code.contains("(0x2001, 0x00) => Err(OdError::NoData),"));

    // Signed type with limits: range checks in the write arm.
    assert!(code.contains("x2002_temperature_limit: i16"));
    assert!(code.contains("if v < -55i16 { return Err(OdError::ValueTooLow); }"));
    assert!(code.contains("if v > 125i16 { return Err(OdError::ValueTooHigh); }"));

    // Disabled object is completely absent.
    assert!(!code.contains("0x2003"));

    // actualValue overrides defaultValue; read-only write arm.
    assert!(code.contains("x2004_actual_wins: 0x2Au16"));
    assert!(code.contains("(0x2004, 0x00) => Err(OdError::ReadOnly),"));
}

#[test]
fn rejects_unsupported_data_type() {
    let device = r#"{ "objects": { "2000": {
        "name": "x", "objectType": "OBJECT_TYPE_VAR",
        "subObjects": { "00": { "dataType": "REAL32", "sdo": "ACCESS_SDO_RO" } }
    } } }"#;
    let err = generate_json(device).unwrap_err();
    assert!(err.contains("unsupported data type"), "{err}");
    assert!(err.contains("0x2000"), "{err}");
}
