//! The example device: which entries there are, and what they hold.

use crate::bytes::{byte_range, le_bytes, le_value, lemma_le_4, lemma_le_bytes_len};
use crate::bytes::lemma_value_of_bytes;
use crate::example_od::{mapped_by_default, rpdo_defaults, tpdo_defaults, Od, PdoMapping};
use crate::example_od::{RpdoParameter, TpdoParameter};
use crate::laws::pdo::{can_be_mapped, describes_mapping, law_cob_id_parameter_holds_the_can_id};
use crate::laws::pdo::{law_rpdo_parameters_are_followed, law_tpdo_parameters_are_followed};
use crate::od::{DataType, EntryInfo, ObjectDictionary, OdError};
use crate::pdo::{configured_cob_id, configured_rpdo, configured_tpdo, total_bits, MapEntry};
use vstd::prelude::*;

verus! {

/// Whether the entry `index:sub` reads as the number `value` in `size` bytes.
pub open spec fn reads(od: Od, index: int, sub: int, size: nat, value: nat) -> bool {
    od.spec_value(index as u16, sub as u8) matches Ok(bytes) && bytes.len() == size && le_value(
        bytes,
    ) == value
}

/// The entries of a dictionary agree with their metadata: every entry that
/// exists can be read, in as many bytes as its type has; a write is accepted
/// exactly if the entry is writable and the data has the size. An object that
/// does not exist is told from a sub-index that does not, and in the same way
/// for metadata, reads and writes.
pub proof fn law_entries_agree_with_their_metadata(od: Od, index: u16, sub: u8, data: Seq<u8>)
    ensures
        match od.spec_info(index, sub) {
            Ok(info) => {
                &&& od.spec_value(index, sub) matches Ok(bytes) && bytes.len() == info.size
                &&& info.size == match info.data_type {
                    DataType::Boolean => 1int,
                    DataType::Unsigned8 => 1,
                    DataType::Unsigned16 => 2,
                    DataType::Unsigned32 => 4,
                    _ => -1,
                }
                &&& info.sdo is ReadOnly || info.sdo is ReadWrite
                &&& info.sdo is ReadOnly ==> od.spec_write(index, sub, data) == Err::<(), OdError>(
                    OdError::ReadOnly,
                )
                &&& info.sdo is ReadWrite && data.len() == info.size ==> od.spec_write(
                    index,
                    sub,
                    data,
                ) is Ok
                &&& info.sdo is ReadWrite && data.len() != info.size ==> od.spec_write(
                    index,
                    sub,
                    data,
                ) == Err::<(), OdError>(OdError::TypeMismatch)
            },
            Err(e) => {
                &&& e is ObjectNotFound || e is SubIndexNotFound
                &&& e is ObjectNotFound <==> od.spec_info(index, 0) == Err::<EntryInfo, OdError>(
                    OdError::ObjectNotFound,
                )
                &&& od.spec_value(index, sub) == Err::<Seq<u8>, OdError>(e)
                &&& od.spec_write(index, sub, data) == Err::<(), OdError>(e)
            },
        },
{
    if od.spec_info(index, sub) is Ok {
        let entry = od.spec_lookup(index, sub)->Ok_0;
        lemma_le_bytes_len(entry.value as nat, entry.info.size as nat);
    }
}

/// Only the process data can be mapped: the error register and the
/// sub-objects of 0x2000 into TPDOs, those of 0x2010 into RPDOs.
pub proof fn law_process_data_can_be_mapped(od: Od, index: u16, sub: u8)
    ensures
        od.spec_info(index, sub) matches Ok(info) ==> {
            &&& info.pdo is Tpdo <==> index == 0x1001 || (index == 0x2000 && sub != 0)
            &&& info.pdo is Rpdo <==> index == 0x2010 && sub != 0
            &&& info.pdo !is Both
        },
{
}

/// What is configuration can be written, and what identifies the device or
/// counts entries cannot: of the communication parameters the number of
/// errors, the SYNC and EMCY identifiers and the heartbeat time, the PDO
/// parameters apart from their highest sub-index, whole mappings, and the
/// process data.
pub proof fn law_configuration_can_be_written(od: Od, index: u16, sub: u8)
    ensures
        od.spec_info(index, sub) matches Ok(info) ==> (info.sdo is ReadWrite <==> {
            ||| (index == 0x1003 || index == 0x1005 || index == 0x1014 || index == 0x1017) && sub
                == 0
            ||| (0x1400 <= index <= 0x1403 || 0x1800 <= index <= 0x1803) && sub != 0
            ||| 0x1600 <= index <= 0x1603
            ||| 0x1A00 <= index <= 0x1A03
            ||| (index == 0x2000 || index == 0x2010) && sub != 0
        }),
{
}

/// The number of an entry is read back from its bytes.
proof fn lemma_reads(od: Od, index: u16, sub: u8)
    ensures
        od.spec_lookup(index, sub) matches Ok(entry) ==> reads(
            od,
            index as int,
            sub as int,
            entry.info.size as nat,
            entry.value as nat,
        ),
{
    if let Ok(entry) = od.spec_lookup(index, sub) {
        reveal_with_fuel(byte_range, 5);
        lemma_le_bytes_len(entry.value as nat, entry.info.size as nat);
        lemma_value_of_bytes(entry.value as nat, entry.info.size as nat);
    }
}

/// Every field of the communication profile is what its entry reads.
pub proof fn law_fields_are_read_at_their_entries(od: Od, sub: u8)
    requires
        1 <= sub <= 16,
    ensures
        reads(od, 0x1000, 0, 4, od.x1000_device_type as nat),
        reads(od, 0x1001, 0, 1, od.x1001_error_register as nat),
        reads(od, 0x1003, 0, 1, od.x1003_number_of_errors as nat),
        reads(od, 0x1003, sub as int, 4, od.x1003_pre_defined_error_field@[sub - 1] as nat),
        reads(od, 0x1005, 0, 4, od.x1005_cob_id_sync_message as nat),
        reads(od, 0x1014, 0, 4, od.x1014_cob_id_emcy as nat),
        reads(od, 0x1017, 0, 2, od.x1017_producer_heartbeat_time as nat),
        reads(od, 0x1018, 0, 1, 4),
        reads(od, 0x1018, 1, 4, od.x1018_vendor_id as nat),
        reads(od, 0x1018, 2, 4, od.x1018_product_code as nat),
        reads(od, 0x1018, 3, 4, od.x1018_revision_number as nat),
        reads(od, 0x1018, 4, 4, od.x1018_serial_number as nat),
        reads(od, 0x1200, 0, 1, 2),
        reads(od, 0x1200, 1, 4, od.x1200_cob_id_client_to_server_rx as nat),
        reads(od, 0x1200, 2, 4, od.x1200_cob_id_server_to_client_tx as nat),
        reads(od, 0x2000, 0, 1, 5),
        reads(od, 0x2000, 1, 1, od.x2000_sub_object_1 as nat),
        reads(od, 0x2000, 2, 1, od.x2000_sub_object_2 as nat),
        reads(od, 0x2000, 5, 1, od.x2000_sub_object_5 as nat),
        reads(od, 0x2010, 0, 1, 5),
        reads(od, 0x2010, 1, 1, od.x2010_sub_object_1 as nat),
        reads(od, 0x2010, 2, 1, od.x2010_sub_object_2 as nat),
        reads(od, 0x2010, 5, 1, od.x2010_sub_object_5 as nat),
{
    lemma_reads(od, 0x1000, 0);
    lemma_reads(od, 0x1001, 0);
    lemma_reads(od, 0x1003, 0);
    lemma_reads(od, 0x1003, sub);
    lemma_reads(od, 0x1005, 0);
    lemma_reads(od, 0x1014, 0);
    lemma_reads(od, 0x1017, 0);
    lemma_reads(od, 0x1018, 0);
    lemma_reads(od, 0x1018, 1);
    lemma_reads(od, 0x1018, 2);
    lemma_reads(od, 0x1018, 3);
    lemma_reads(od, 0x1018, 4);
    lemma_reads(od, 0x1200, 0);
    lemma_reads(od, 0x1200, 1);
    lemma_reads(od, 0x1200, 2);
    lemma_reads(od, 0x2000, 0);
    lemma_reads(od, 0x2000, 1);
    lemma_reads(od, 0x2000, 2);
    lemma_reads(od, 0x2000, 5);
    lemma_reads(od, 0x2010, 0);
    lemma_reads(od, 0x2010, 1);
    lemma_reads(od, 0x2010, 2);
    lemma_reads(od, 0x2010, 5);
}

/// The communication parameter of the RPDO in a slot.
pub open spec fn rpdo_parameter_of(od: Od, slot: int) -> RpdoParameter {
    if slot == 0 {
        od.x1400
    } else if slot == 1 {
        od.x1401
    } else if slot == 2 {
        od.x1402
    } else {
        od.x1403
    }
}

/// The communication parameter of the TPDO in a slot.
pub open spec fn tpdo_parameter_of(od: Od, slot: int) -> TpdoParameter {
    if slot == 0 {
        od.x1800
    } else if slot == 1 {
        od.x1801
    } else if slot == 2 {
        od.x1802
    } else {
        od.x1803
    }
}

/// The mapping parameter of the RPDO in a slot.
pub open spec fn rpdo_mapping_of(od: Od, slot: int) -> PdoMapping {
    if slot == 0 {
        od.x1600
    } else if slot == 1 {
        od.x1601
    } else if slot == 2 {
        od.x1602
    } else {
        od.x1603
    }
}

/// The mapping parameter of the TPDO in a slot.
pub open spec fn tpdo_mapping_of(od: Od, slot: int) -> PdoMapping {
    if slot == 0 {
        od.x1a00
    } else if slot == 1 {
        od.x1a01
    } else if slot == 2 {
        od.x1a02
    } else {
        od.x1a03
    }
}

/// The PDO parameters of a slot are read at the index of the slot, each field
/// at its own sub-index.
pub proof fn law_pdo_parameters_are_read_at_their_slot(od: Od, slot: int, sub: int)
    requires
        0 <= slot < 4,
        1 <= sub <= 8,
    ensures
        reads(od, 0x1400 + slot, 0, 1, 5),
        reads(od, 0x1400 + slot, 1, 4, rpdo_parameter_of(od, slot).cob_id as nat),
        reads(od, 0x1400 + slot, 2, 1, rpdo_parameter_of(od, slot).transmission_type as nat),
        reads(od, 0x1400 + slot, 5, 2, rpdo_parameter_of(od, slot).event_timer as nat),
        reads(od, 0x1600 + slot, 0, 1, rpdo_mapping_of(od, slot).count as nat),
        reads(od, 0x1600 + slot, sub, 4, rpdo_mapping_of(od, slot).objects@[sub - 1] as nat),
        reads(od, 0x1800 + slot, 0, 1, 6),
        reads(od, 0x1800 + slot, 1, 4, tpdo_parameter_of(od, slot).cob_id as nat),
        reads(od, 0x1800 + slot, 2, 1, tpdo_parameter_of(od, slot).transmission_type as nat),
        reads(od, 0x1800 + slot, 3, 2, tpdo_parameter_of(od, slot).inhibit_time as nat),
        reads(od, 0x1800 + slot, 5, 2, tpdo_parameter_of(od, slot).event_timer as nat),
        reads(od, 0x1800 + slot, 6, 1, tpdo_parameter_of(od, slot).sync_start_value as nat),
        reads(od, 0x1A00 + slot, 0, 1, tpdo_mapping_of(od, slot).count as nat),
        reads(od, 0x1A00 + slot, sub, 4, tpdo_mapping_of(od, slot).objects@[sub - 1] as nat),
{
    let (r, m) = ((0x1400 + slot) as u16, (0x1600 + slot) as u16);
    let (t, n) = ((0x1800 + slot) as u16, (0x1A00 + slot) as u16);
    lemma_reads(od, r, 0);
    lemma_reads(od, r, 1);
    lemma_reads(od, r, 2);
    lemma_reads(od, r, 5);
    lemma_reads(od, m, 0);
    lemma_reads(od, m, sub as u8);
    lemma_reads(od, t, 0);
    lemma_reads(od, t, 1);
    lemma_reads(od, t, 2);
    lemma_reads(od, t, 3);
    lemma_reads(od, t, 5);
    lemma_reads(od, t, 6);
    lemma_reads(od, n, 0);
    lemma_reads(od, n, sub as u8);
}

/// The layout of the default PDOs: two flags and a byte of the object.
pub open spec fn default_layout(index: u16) -> Seq<MapEntry> {
    seq![
        MapEntry { index, sub: 1, bits: 1, size: 1 },
        MapEntry { index, sub: 2, bits: 1, size: 1 },
        MapEntry { index, sub: 5, bits: 8, size: 1 },
    ]
}

/// The mapping parameter of the default PDOs describes their layout.
proof fn lemma_default_mapping(od: Od, map_index: u16, index: u16, mapping: PdoMapping, rx: bool)
    requires
        mapping.count == 3,
        mapping.objects@ == mapped_by_default(index as nat),
        map_index == 0x1600 && mapping == od.x1600 && rx && index == 0x2010 || map_index == 0x1A00
            && mapping == od.x1a00 && !rx && index == 0x2000,
    ensures
        describes_mapping(od, map_index, rx, default_layout(index)),
{
    let layout = default_layout(index);
    reveal_with_fuel(total_bits, 4);
    assert(layout.drop_last().drop_last().drop_last().len() == 0);
    assert(total_bits(layout) == 10);
    reveal_with_fuel(le_bytes, 2);
    assert(le_bytes(3, 1) =~= seq![3u8]);
    assert(od.spec_value(map_index, 0) == Ok::<_, OdError>(seq![3u8]));
    assert forall|i: int| 0 <= i < 3 implies can_be_mapped(od, #[trigger] layout[i], rx)
        && od.spec_value(map_index, (i + 1) as u8) == Ok::<_, OdError>(
        seq![
            layout[i].bits,
            layout[i].sub,
            (layout[i].index % 0x100) as u8,
            (layout[i].index / 0x100) as u8,
        ],
    ) by {
        let raw = mapping.objects@[i] as nat;
        let entry = layout[i];
        lemma_le_4(raw);
        assert(raw == entry.bits + 0x100 * entry.sub + 0x1_0000 * entry.index);
        assert(le_bytes(raw, 4) =~= seq![
            entry.bits,
            entry.sub,
            (entry.index % 0x100) as u8,
            (entry.index / 0x100) as u8,
        ]);
    }
}

/// As configured by default, TPDO1 transmits two flags and a byte of 0x2000
/// on 0x180 and the node id, RPDO1 receives the same layout into 0x2010 on
/// 0x200 and the node id, both driven by events without timers, and the other
/// PDOs are disabled.
pub proof fn law_default_pdos_are_the_predefined_ones(od: Od, node: u8, slot: u16)
    requires
        1 <= node <= 127,
        1 <= slot < 4,
        od.x1800 == tpdo_defaults((0x4000_0180 + node) as u32),
        od.x1801 == tpdo_defaults((0xC000_0280 + node) as u32),
        od.x1802 == tpdo_defaults((0xC000_0380 + node) as u32),
        od.x1803 == tpdo_defaults((0xC000_0480 + node) as u32),
        od.x1400 == rpdo_defaults((0x200 + node) as u32),
        od.x1401 == rpdo_defaults((0x8000_0300 + node) as u32),
        od.x1402 == rpdo_defaults((0x8000_0400 + node) as u32),
        od.x1403 == rpdo_defaults((0x8000_0500 + node) as u32),
        od.x1600.count == 3,
        od.x1600.objects@ == mapped_by_default(0x2010),
        od.x1a00.count == 3,
        od.x1a00.objects@ == mapped_by_default(0x2000),
    ensures
        configured_tpdo(od, 0) matches Some(t) && {
            &&& t.cob_id == 0x180 + node
            &&& t.transmission == 254
            &&& t.inhibit_us == 0
            &&& t.event_us == 0
            &&& t.mapping == default_layout(0x2000)
        },
        configured_rpdo(od, 0) matches Some(r) && {
            &&& r.cob_id == 0x200 + node
            &&& r.mapping == default_layout(0x2010)
        },
        configured_tpdo(od, slot) is None,
        configured_rpdo(od, slot) is None,
{
    lemma_default_tpdo(od, node);
    lemma_default_rpdo(od, node);
    lemma_disabled_pdos(od, slot);
}

proof fn lemma_default_tpdo(od: Od, node: u8)
    requires
        1 <= node <= 127,
        od.x1800 == tpdo_defaults((0x4000_0180 + node) as u32),
        od.x1a00.count == 3,
        od.x1a00.objects@ == mapped_by_default(0x2000),
    ensures
        configured_tpdo(od, 0) matches Some(t) && {
            &&& t.cob_id == 0x180 + node
            &&& t.transmission == 254
            &&& t.inhibit_us == 0
            &&& t.event_us == 0
            &&& t.mapping == default_layout(0x2000)
        },
{
    lemma_default_mapping(od, 0x1A00, 0x2000, od.x1a00, false);
    let raw = le_bytes(od.x1800.cob_id as nat, 4);
    lemma_le_4(od.x1800.cob_id as nat);
    assert(le_bytes(254, 1) == seq![254u8] && le_bytes(0, 2) == seq![0u8, 0u8]) by {
        reveal_with_fuel(le_bytes, 3);
        assert(le_bytes(254, 1) =~= seq![254u8]);
        assert(le_bytes(0, 2) =~= seq![0u8, 0u8]);
    }
    assert(od.spec_value(0x1800, 1) == Ok::<_, OdError>(raw));
    assert(od.spec_value(0x1800, 2) == Ok::<_, OdError>(seq![254u8]));
    assert(od.spec_value(0x1800, 3) == Ok::<_, OdError>(seq![0u8, 0u8]));
    assert(od.spec_value(0x1800, 5) == Ok::<_, OdError>(seq![0u8, 0u8]));
    law_tpdo_parameters_are_followed(od, 0, raw, 254, default_layout(0x2000));
}

proof fn lemma_default_rpdo(od: Od, node: u8)
    requires
        1 <= node <= 127,
        od.x1400 == rpdo_defaults((0x200 + node) as u32),
        od.x1600.count == 3,
        od.x1600.objects@ == mapped_by_default(0x2010),
    ensures
        configured_rpdo(od, 0) matches Some(r) && {
            &&& r.cob_id == 0x200 + node
            &&& r.mapping == default_layout(0x2010)
        },
{
    lemma_default_mapping(od, 0x1600, 0x2010, od.x1600, true);
    let raw = le_bytes(od.x1400.cob_id as nat, 4);
    lemma_le_4(od.x1400.cob_id as nat);
    assert(od.spec_value(0x1400, 1) == Ok::<_, OdError>(raw));
    law_rpdo_parameters_are_followed(od, 0, raw, default_layout(0x2010));
}

/// A PDO whose COB-ID has the top bit set is disabled.
proof fn lemma_disabled_pdos(od: Od, slot: u16)
    requires
        slot < 4,
        tpdo_parameter_of(od, slot as int).cob_id >= 0x8000_0000,
        rpdo_parameter_of(od, slot as int).cob_id >= 0x8000_0000,
    ensures
        configured_tpdo(od, slot) is None,
        configured_rpdo(od, slot) is None,
{
    let tx = (0x1800 + slot) as u16;
    let rx = (0x1400 + slot) as u16;
    let a = tpdo_parameter_of(od, slot as int).cob_id as nat;
    let b = rpdo_parameter_of(od, slot as int).cob_id as nat;
    lemma_le_4(a);
    lemma_le_4(b);
    assert(od.spec_value(tx, 1) == Ok::<_, OdError>(le_bytes(a, 4)));
    assert(od.spec_value(rx, 1) == Ok::<_, OdError>(le_bytes(b, 4)));
    law_cob_id_parameter_holds_the_can_id(od, tx, le_bytes(a, 4));
    law_cob_id_parameter_holds_the_can_id(od, rx, le_bytes(b, 4));
    assert(configured_cob_id(od, tx) is None && configured_cob_id(od, rx) is None);
}

} // verus!
