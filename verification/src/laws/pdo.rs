//! PDOs: what a configuration means, and what is on the wire.

use crate::bytes::{byte_range, le_bytes, le_value, lemma_bytes_of_value, lemma_le_bytes_len};
use crate::bytes::{lemma_value_2, lemma_value_4, lemma_value_of_bytes};
use crate::frame::FrameView;
use crate::od::{write_step, ObjectDictionary, OdError};
use crate::pdo::{configured_cob_id, configured_entries, configured_entry, configured_mapping};
use crate::pdo::{configured_rpdo, configured_tpdo, event_timer_used, law_pdo_transports_values};
use crate::pdo::{law_received_values_are_zero_extended, lemma_byte_range, mapped_len};
use crate::pdo::{pdo_payload, resolved, rpdo_accepts, rpdo_step, total_bits, tpdo_frames};
use crate::pdo::{unpack_bits, valid_mapping, writes_values, MapEntry, RpdoState, TpdoState};
use crate::Micros;
use vstd::arithmetic::power2::pow2;
use vstd::prelude::*;

verus! {

/// The CAN-ID of a PDO is the low 11 bits of its COB-ID parameter: the first
/// byte, and the low three bits of the second. The top bit of the last byte
/// disables the PDO; the bits between do not matter.
pub proof fn law_cob_id_parameter_holds_the_can_id<OD: ObjectDictionary>(
    od: OD,
    comm_index: u16,
    raw: Seq<u8>,
)
    requires
        od.spec_value(comm_index, 1) == Ok::<_, OdError>(raw),
        raw.len() == 4,
    ensures
        raw[3] >= 128 ==> configured_cob_id(od, comm_index) is None,
        raw[3] < 128 ==> configured_cob_id(od, comm_index) is Some && configured_cob_id(
            od,
            comm_index,
        )->0 == raw[0] + 0x100 * (raw[1] % 8),
{
    lemma_value_4(raw);
    let value = le_value(raw);
    let high = raw[1] as nat / 8 + 32 * (raw[2] as nat + 256 * raw[3] as nat);
    assert(value == (raw[0] + 0x100 * (raw[1] % 8)) + 0x800 * high);
    assert(value % 0x800 == raw[0] + 0x100 * (raw[1] % 8));
}

/// Whatever stands above the CAN-ID in a COB-ID parameter, the PDO uses
/// exactly the CAN-ID, as long as the parameter does not disable it; so two
/// parameters with different CAN-IDs give PDOs with different identifiers.
pub proof fn law_configured_can_id_is_exact<OD: ObjectDictionary>(
    od: OD,
    comm_index: u16,
    can_id: nat,
    above: nat,
)
    requires
        can_id <= 0x7FF,
        above < 0x20_0000,
        od.spec_value(comm_index, 1) == Ok::<_, OdError>(
            le_bytes(can_id + 0x800 * above, 4),
        ),
    ensures
        above < 0x10_0000 ==> configured_cob_id(od, comm_index) is Some && configured_cob_id(
            od,
            comm_index,
        )->0 == can_id,
        above >= 0x10_0000 ==> configured_cob_id(od, comm_index) is None,
{
    let value = can_id + 0x800 * above;
    lemma_le_bytes_len(value, 4);
    assert(byte_range(4) == 0x1_0000_0000) by {
        reveal_with_fuel(byte_range, 5);
    }
    lemma_value_of_bytes(value, 4);
}

/// A configured TPDO transmits with the CAN-ID of its communication
/// parameter, a configured RPDO listens to the CAN-ID of its own, and a
/// parameter with the top bit set configures neither.
pub proof fn law_pdos_use_their_can_ids<OD: ObjectDictionary>(
    od: OD,
    slot: u16,
    raw: Seq<u8>,
    now: Micros,
    frame: FrameView,
)
    requires
        slot < 0x200,
        raw.len() == 4,
    ensures
        od.spec_value((0x1800 + slot) as u16, 1) == Ok::<_, OdError>(raw) ==> {
            &&& raw[3] >= 128 ==> configured_tpdo(od, slot) is None
            &&& configured_tpdo(od, slot) is Some ==> {
                let sent = tpdo_frames(configured_tpdo(od, slot)->0, od, true, now);
                forall|k: int|
                    0 <= k < sent.len() ==> (#[trigger] sent[k]).id == raw[0] + 0x100 * (raw[1]
                        % 8)
            }
        },
        od.spec_value((0x1400 + slot) as u16, 1) == Ok::<_, OdError>(raw) ==> {
            &&& raw[3] >= 128 ==> configured_rpdo(od, slot) is None
            &&& configured_rpdo(od, slot) is Some && rpdo_accepts(
                configured_rpdo(od, slot)->0,
                frame,
            ) ==> frame.id == raw[0] + 0x100 * (raw[1] % 8)
        },
{
    if od.spec_value((0x1800 + slot) as u16, 1) == Ok::<_, OdError>(raw) {
        law_cob_id_parameter_holds_the_can_id(od, (0x1800 + slot) as u16, raw);
    }
    if od.spec_value((0x1400 + slot) as u16, 1) == Ok::<_, OdError>(raw) {
        law_cob_id_parameter_holds_the_can_id(od, (0x1400 + slot) as u16, raw);
    }
}

/// Whether an object of a dictionary can stand in a mapping as `entry`: it
/// exists, its capability has the direction, and it has the mapped bits.
pub open spec fn can_be_mapped<OD: ObjectDictionary>(od: OD, entry: MapEntry, is_rpdo: bool) -> bool {
    od.spec_info(entry.index, entry.sub) matches Ok(info) && {
        &&& info.pdo is Both || (is_rpdo && info.pdo is Rpdo) || (!is_rpdo && info.pdo is Tpdo)
        &&& 1 <= entry.bits <= 8 * info.size
        &&& info.size <= 8
        &&& info.size == entry.size
    }
}

/// Whether the mapping parameter object `map_index` of a dictionary describes
/// the mapping `mapping`: its count and each of its entries, which holds the
/// index in the high two bytes, then the sub-index, then the length in bits.
pub open spec fn describes_mapping<OD: ObjectDictionary>(
    od: OD,
    map_index: u16,
    is_rpdo: bool,
    mapping: Seq<MapEntry>,
) -> bool {
    &&& 1 <= mapping.len() <= 8
    &&& od.spec_value(map_index, 0) == Ok::<_, OdError>(seq![mapping.len() as u8])
    &&& total_bits(mapping) <= 64
    &&& forall|i: int|
        0 <= i < mapping.len() ==> can_be_mapped(od, #[trigger] mapping[i], is_rpdo)
            && od.spec_value(map_index, (i + 1) as u8) == Ok::<_, OdError>(
            seq![
                mapping[i].bits,
                mapping[i].sub,
                (mapping[i].index % 0x100) as u8,
                (mapping[i].index / 0x100) as u8,
            ],
        )
}

/// A mapping parameter is resolved to the entry that its bytes spell out.
proof fn lemma_resolved<OD: ObjectDictionary>(od: OD, raw: Seq<u8>, is_rpdo: bool, entry: MapEntry)
    requires
        raw.len() == 4,
    ensures
        resolved(od, le_value(raw) as u32, is_rpdo) == Some(entry) <==> can_be_mapped(
            od,
            entry,
            is_rpdo,
        ) && raw == seq![
            entry.bits,
            entry.sub,
            (entry.index % 0x100) as u8,
            (entry.index / 0x100) as u8,
        ],
{
    lemma_value_4(raw);
    let value = le_value(raw) as u32;
    let index = (raw[2] + 256 * raw[3]) as u16;
    assert(value == raw[0] + 0x100 * raw[1] + 0x1_0000 * index);
    assert(value / 0x1_0000 == index);
    assert(value / 0x100 == raw[1] + 0x100 * index);
    assert(value / 0x100 % 0x100 == raw[1]);
    assert(value % 0x100 == raw[0]);
    assert((index % 0x100) as u8 == raw[2] && (index / 0x100) as u8 == raw[3]);
    assert(raw =~= seq![raw[0], raw[1], raw[2], raw[3]]);
    if raw == seq![
        entry.bits,
        entry.sub,
        (entry.index % 0x100) as u8,
        (entry.index / 0x100) as u8,
    ] {
        assert(raw[0] == entry.bits && raw[1] == entry.sub);
        assert(raw[2] == entry.index % 0x100 && raw[3] == entry.index / 0x100);
        assert(index == entry.index);
    }
}

/// The mapping that is used is exactly the one that the mapping parameter
/// describes; a parameter that describes none disables the PDO.
pub proof fn law_mapping_parameter_is_followed<OD: ObjectDictionary>(
    od: OD,
    map_index: u16,
    is_rpdo: bool,
    mapping: Seq<MapEntry>,
)
    ensures
        configured_mapping(od, map_index, is_rpdo) == Some(mapping) <==> describes_mapping(
            od,
            map_index,
            is_rpdo,
            mapping,
        ),
{
    let found = configured_mapping(od, map_index, is_rpdo);
    if found == Some(mapping) {
        let count = od.spec_value(map_index, 0)->Ok_0;
        assert(count =~= seq![mapping.len() as u8]);
        assert forall|i: int| 0 <= i < mapping.len() implies can_be_mapped(
            od,
            #[trigger] mapping[i],
            is_rpdo,
        ) && od.spec_value(map_index, (i + 1) as u8) == Ok::<_, OdError>(
            seq![
                mapping[i].bits,
                mapping[i].sub,
                (mapping[i].index % 0x100) as u8,
                (mapping[i].index / 0x100) as u8,
            ],
        ) by {
            assert(configured_entry(od, map_index, is_rpdo, i) is Some);
            assert(mapping[i] == configured_entry(od, map_index, is_rpdo, i)->0);
            let raw = od.spec_value(map_index, (i + 1) as u8)->Ok_0;
            lemma_resolved(od, raw, is_rpdo, mapping[i]);
        }
    }
    if describes_mapping(od, map_index, is_rpdo, mapping) {
        let n = mapping.len();
        assert(od.spec_value(map_index, 0)->Ok_0[0] == n);
        assert forall|i: int| 0 <= i < n implies #[trigger] configured_entry(
            od,
            map_index,
            is_rpdo,
            i,
        ) == Some(mapping[i]) by {
            let raw = od.spec_value(map_index, (i + 1) as u8)->Ok_0;
            assert(can_be_mapped(od, mapping[i], is_rpdo));
            assert(raw == seq![
                mapping[i].bits,
                mapping[i].sub,
                (mapping[i].index % 0x100) as u8,
                (mapping[i].index / 0x100) as u8,
            ]);
            lemma_resolved(od, raw, is_rpdo, mapping[i]);
        }
        assert(configured_entries(od, map_index, is_rpdo, n) =~= mapping);
    }
}

/// The number of a 16-bit parameter, 0 where a dictionary does not hold it.
pub open spec fn parameter_u16<OD: ObjectDictionary>(od: OD, index: u16, sub: u8) -> nat {
    match od.spec_value(index, sub) {
        Ok(raw) => if raw.len() == 2 {
            (raw[0] + 0x100 * raw[1]) as nat
        } else {
            0
        },
        Err(_) => 0,
    }
}

/// A slot has a TPDO if its communication parameter names an enabled COB-ID
/// and a transmission type and its mapping parameter describes a mapping. The
/// TPDO has that transmission type and mapping, its inhibit time
/// in multiples of 100 µs, its event timer in milliseconds, and it starts
/// armed.
pub proof fn law_tpdo_parameters_are_followed<OD: ObjectDictionary>(
    od: OD,
    slot: u16,
    raw: Seq<u8>,
    transmission: u8,
    mapping: Seq<MapEntry>,
)
    requires
        slot < 0x200,
        raw.len() == 4,
        raw[3] < 128,
        od.spec_value((0x1800 + slot) as u16, 1) == Ok::<_, OdError>(raw),
        od.spec_value((0x1800 + slot) as u16, 2) == Ok::<_, OdError>(
            seq![transmission],
        ),
        describes_mapping(od, (0x1A00 + slot) as u16, false, mapping),
    ensures
        configured_tpdo(od, slot) matches Some(t) && {
            &&& t.cob_id == raw[0] + 0x100 * (raw[1] % 8)
            &&& t.transmission == transmission
            &&& t.mapping == mapping
            &&& t.inhibit_us == 100 * parameter_u16(od, (0x1800 + slot) as u16, 3)
            &&& t.event_us == 1000 * parameter_u16(od, (0x1800 + slot) as u16, 5)
            &&& t.send_request
            &&& t.inhibit_until == 0
            &&& t.event_deadline is None
        },
{
    let comm = (0x1800 + slot) as u16;
    law_cob_id_parameter_holds_the_can_id(od, comm, raw);
    law_mapping_parameter_is_followed(od, (0x1A00 + slot) as u16, false, mapping);
    assert(seq![transmission][0] == transmission);
    if od.spec_value(comm, 3) is Ok && od.spec_value(comm, 3)->Ok_0.len() == 2 {
        lemma_value_2(od.spec_value(comm, 3)->Ok_0);
    }
    if od.spec_value(comm, 5) is Ok && od.spec_value(comm, 5)->Ok_0.len() == 2 {
        lemma_value_2(od.spec_value(comm, 5)->Ok_0);
    }
}

/// A slot has an RPDO if its communication parameter names an enabled COB-ID
/// and its mapping parameter describes a mapping; it has that mapping.
pub proof fn law_rpdo_parameters_are_followed<OD: ObjectDictionary>(
    od: OD,
    slot: u16,
    raw: Seq<u8>,
    mapping: Seq<MapEntry>,
)
    requires
        slot < 0x200,
        raw.len() == 4,
        raw[3] < 128,
        od.spec_value((0x1400 + slot) as u16, 1) == Ok::<_, OdError>(raw),
        describes_mapping(od, (0x1600 + slot) as u16, true, mapping),
    ensures
        configured_rpdo(od, slot) matches Some(r) && {
            &&& r.cob_id == raw[0] + 0x100 * (raw[1] % 8)
            &&& r.mapping == mapping
        },
{
    law_cob_id_parameter_holds_the_can_id(od, (0x1400 + slot) as u16, raw);
    law_mapping_parameter_is_followed(od, (0x1600 + slot) as u16, true, mapping);
}

/// A PDO that is configured has an enabled COB-ID, a mapping that its mapping
/// parameter describes, and, if it is transmitted, a transmission type:
/// nothing else brings a PDO about.
pub proof fn law_pdos_come_from_parameters<OD: ObjectDictionary>(od: OD, slot: u16)
    requires
        slot < 0x200,
    ensures
        configured_tpdo(od, slot) matches Some(t) ==> {
            &&& describes_mapping(od, (0x1A00 + slot) as u16, false, t.mapping)
            &&& od.spec_value((0x1800 + slot) as u16, 2) == Ok::<_, OdError>(
                seq![t.transmission],
            )
            &&& od.spec_value((0x1800 + slot) as u16, 1) matches Ok(raw) && raw.len() == 4
                && raw[3] < 128
        },
        configured_rpdo(od, slot) matches Some(r) ==> {
            &&& describes_mapping(od, (0x1600 + slot) as u16, true, r.mapping)
            &&& od.spec_value((0x1400 + slot) as u16, 1) matches Ok(raw) && raw.len() == 4
                && raw[3] < 128
        },
{
    if let Some(t) = configured_tpdo(od, slot) {
        let comm = (0x1800 + slot) as u16;
        law_mapping_parameter_is_followed(od, (0x1A00 + slot) as u16, false, t.mapping);
        law_cob_id_parameter_holds_the_can_id(od, comm, od.spec_value(comm, 1)->Ok_0);
        assert(od.spec_value(comm, 2)->Ok_0 =~= seq![t.transmission]);
    }
    if let Some(r) = configured_rpdo(od, slot) {
        let comm = (0x1400 + slot) as u16;
        law_mapping_parameter_is_followed(od, (0x1600 + slot) as u16, true, r.mapping);
        law_cob_id_parameter_holds_the_can_id(od, comm, od.spec_value(comm, 1)->Ok_0);
    }
}

/// Every mapping that comes from a dictionary is valid: it has one to eight
/// entries of at most 64 bits together, each no longer than its object.
pub proof fn law_configured_mappings_are_valid<OD: ObjectDictionary>(od: OD, slot: u16)
    requires
        slot < 0x200,
    ensures
        configured_tpdo(od, slot) matches Some(t) ==> valid_mapping(t.mapping) && event_timer_used(t),
        configured_rpdo(od, slot) matches Some(r) ==> valid_mapping(r.mapping),
{
    law_pdos_come_from_parameters(od, slot);
    if let Some(t) = configured_tpdo(od, slot) {
        assert forall|i: int| 0 <= i < t.mapping.len() implies 1 <= (#[trigger] t.mapping[i]).bits
            <= 8 * t.mapping[i].size && t.mapping[i].size <= 8 by {
            assert(can_be_mapped(od, t.mapping[i], false));
        }
    }
    if let Some(r) = configured_rpdo(od, slot) {
        assert forall|i: int| 0 <= i < r.mapping.len() implies 1 <= (#[trigger] r.mapping[i]).bits
            <= 8 * r.mapping[i].size && r.mapping[i].size <= 8 by {
            assert(can_be_mapped(od, r.mapping[i], true));
        }
    }
}

/// The bits of a mapping are the bits of its entries together, and it takes
/// the bytes that hold them, and not one more.
pub proof fn law_mapping_takes_the_bits_of_its_entries(mapping: Seq<MapEntry>, entry: MapEntry)
    ensures
        total_bits(Seq::empty()) == 0,
        total_bits(mapping.push(entry)) == total_bits(mapping) + entry.bits,
        8 * mapped_len(mapping) >= total_bits(mapping),
        8 * mapped_len(mapping) < total_bits(mapping) + 8,
{
    assert(mapping.push(entry).drop_last() =~= mapping);
}

/// Whether `data` is the number `value` in the bytes of the entry `entry`,
/// and writing it to the mapped object takes the dictionary `pre` to `post`;
/// a refused write changes nothing.
pub open spec fn takes_number<OD: ObjectDictionary>(
    pre: OD,
    entry: MapEntry,
    value: nat,
    data: Seq<u8>,
    post: OD,
) -> bool {
    &&& data.len() == entry.size
    &&& le_value(data) == value
    &&& if pre.spec_write(entry.index, entry.sub, data) is Ok {
        pre.spec_written(entry.index, entry.sub, data, &post)
    } else {
        post == pre
    }
}

/// The dictionaries between the writes of a mapping.
proof fn lemma_write_chain<OD: ObjectDictionary>(
    pre: OD,
    mapping: Seq<MapEntry>,
    values: Seq<nat>,
    post: OD,
) -> (chain: Seq<OD>)
    requires
        writes_values(pre, mapping, values, post),
        values.len() == mapping.len(),
    ensures
        chain.len() == mapping.len() + 1,
        chain[0] == pre,
        chain.last() == post,
        forall|i: int|
            0 <= i < mapping.len() ==> write_step(
                chain[i],
                (#[trigger] mapping[i]).index,
                mapping[i].sub,
                le_bytes(values[i], mapping[i].size as nat),
                chain[i + 1],
            ),
    decreases mapping.len(),
{
    if mapping.len() == 0 {
        seq![pre]
    } else {
        let mid = choose|mid: OD|
            writes_values(pre, mapping.drop_last(), values.drop_last(), mid)
                && #[trigger] write_step(
                mid,
                mapping.last().index,
                mapping.last().sub,
                le_bytes(values.last(), mapping.last().size as nat),
                post,
            );
        let before = lemma_write_chain(pre, mapping.drop_last(), values.drop_last(), mid);
        let chain = before.push(post);
        assert forall|i: int| 0 <= i < mapping.len() implies write_step(
            chain[i],
            (#[trigger] mapping[i]).index,
            mapping[i].sub,
            le_bytes(values[i], mapping[i].size as nat),
            chain[i + 1],
        ) by {
            if i < mapping.len() - 1 {
                assert(mapping.drop_last()[i] == mapping[i]);
            }
        }
        chain
    }
}

/// An RPDO applies a frame exactly if the frame has its CAN-ID and all mapped
/// bits. Then every mapped object, in mapping order, takes the number in its
/// bits of the frame: the frame read as one little-endian number, without the
/// bits of the entries before it, cut to its own bits. Any other frame
/// changes nothing.
pub proof fn law_reception_hands_over_the_mapped_bits<OD: ObjectDictionary>(
    r: RpdoState,
    frame: FrameView,
    pre: OD,
    post: OD,
) -> (chain: Seq<OD>)
    requires
        valid_mapping(r.mapping),
        rpdo_step(r, frame, pre, post),
    ensures
        rpdo_accepts(r, frame) <==> frame.id == r.cob_id && 8 * frame.data.len() >= total_bits(
            r.mapping,
        ),
        !rpdo_accepts(r, frame) ==> post == pre,
        rpdo_accepts(r, frame) ==> {
            &&& chain.len() == r.mapping.len() + 1
            &&& chain[0] == pre
            &&& chain.last() == post
            &&& forall|i: int|
                0 <= i < r.mapping.len() ==> exists|data: Seq<u8>| #[trigger]
                    takes_number(
                        chain[i],
                        #[trigger] r.mapping[i],
                        le_value(frame.data) / pow2(total_bits(r.mapping.take(i))) % pow2(
                            r.mapping[i].bits as nat,
                        ),
                        data,
                        chain[i + 1],
                    )
        },
{
    if rpdo_accepts(r, frame) {
        let word = le_value(frame.data);
        let values = unpack_bits(r.mapping, word);
        let chain = lemma_write_chain(pre, r.mapping, values, post);
        assert forall|i: int| 0 <= i < r.mapping.len() implies exists|data: Seq<u8>| #[trigger]
            takes_number(
                chain[i],
                #[trigger] r.mapping[i],
                word / pow2(total_bits(r.mapping.take(i))) % pow2(r.mapping[i].bits as nat),
                data,
                chain[i + 1],
            ) by {
            law_received_values_are_zero_extended(r.mapping, word, i);
            let entry = r.mapping[i];
            let data = le_bytes(values[i], entry.size as nat);
            assert(write_step(chain[i], entry.index, entry.sub, data, chain[i + 1]));
            assert(takes_number(
                chain[i],
                entry,
                word / pow2(total_bits(r.mapping.take(i))) % pow2(entry.bits as nat),
                data,
                chain[i + 1],
            ));
        }
        chain
    } else {
        seq![pre]
    }
}

/// What a TPDO sends is what an RPDO with the same layout writes: every
/// object takes the sender's number, cut to the mapped length; and where all
/// bytes of the object are mapped, it takes the sender's very bytes.
pub proof fn law_reception_follows_the_sender<OD: ObjectDictionary, Sender: ObjectDictionary>(
    r: RpdoState,
    sender: Sender,
    pre: OD,
    post: OD,
) -> (chain: Seq<OD>)
    requires
        valid_mapping(r.mapping),
        rpdo_step(
            r,
            FrameView { id: r.cob_id, data: pdo_payload(sender, r.mapping) },
            pre,
            post,
        ),
    ensures
        chain.len() == r.mapping.len() + 1,
        chain[0] == pre,
        chain.last() == post,
        forall|i: int|
            0 <= i < r.mapping.len() && (sender.spec_value(
                (#[trigger] r.mapping[i]).index,
                r.mapping[i].sub,
            ) matches Ok(bytes) && bytes.len() <= 8) ==> {
                let bytes = sender.spec_value(r.mapping[i].index, r.mapping[i].sub)->Ok_0;
                exists|data: Seq<u8>|
                    {
                        &&& #[trigger] takes_number(
                            chain[i],
                            r.mapping[i],
                            le_value(bytes) % pow2(r.mapping[i].bits as nat),
                            data,
                            chain[i + 1],
                        )
                        &&& bytes.len() == r.mapping[i].size && r.mapping[i].bits == 8
                            * bytes.len() ==> data == bytes
                    }
            },
{
    let mapping = r.mapping;
    let frame = FrameView { id: r.cob_id, data: pdo_payload(sender, mapping) };
    law_pdo_transports_values(sender, mapping, 0);
    let chain = law_reception_hands_over_the_mapped_bits(r, frame, pre, post);
    assert forall|i: int|
        0 <= i < mapping.len() && (sender.spec_value(
            (#[trigger] mapping[i]).index,
            mapping[i].sub,
        ) matches Ok(bytes) && bytes.len() <= 8) implies {
            let bytes = sender.spec_value(mapping[i].index, mapping[i].sub)->Ok_0;
            exists|data: Seq<u8>|
                {
                    &&& #[trigger] takes_number(
                        chain[i],
                        mapping[i],
                        le_value(bytes) % pow2(mapping[i].bits as nat),
                        data,
                        chain[i + 1],
                    )
                    &&& bytes.len() == mapping[i].size && mapping[i].bits == 8 * bytes.len()
                        ==> data == bytes
                }
        } by {
        let bytes = sender.spec_value(mapping[i].index, mapping[i].sub)->Ok_0;
        law_pdo_transports_values(sender, mapping, i);
        let value = le_value(bytes) % pow2(mapping[i].bits as nat);
        let data = choose|data: Seq<u8>| #[trigger]
            takes_number(chain[i], mapping[i], value, data, chain[i + 1]);
        assert(takes_number(chain[i], mapping[i], value, data, chain[i + 1]));
        if bytes.len() == mapping[i].size && mapping[i].bits == 8 * bytes.len() {
            lemma_bytes_of_value(bytes);
            lemma_bytes_of_value(data);
            lemma_byte_range(bytes.len());
            vstd::arithmetic::div_mod::lemma_small_mod(
                le_value(bytes),
                pow2(mapping[i].bits as nat),
            );
        }
    }
    chain
}

/// A TPDO that transmits sends one frame that holds, for each mapped object
/// and in its bits, the number that the dictionary has for it, cut to the
/// mapped length, and 0 for an object that cannot be read.
pub proof fn law_transmission_carries_the_mapped_numbers<OD: ObjectDictionary>(
    t: TpdoState,
    od: OD,
    operational: bool,
    now: Micros,
    i: int,
)
    requires
        tpdo_frames(t, od, operational, now).len() > 0,
        0 <= i < t.mapping.len(),
    ensures
        operational,
        t.transmission >= 254,
        tpdo_frames(t, od, operational, now).len() == 1,
        ({
            let frame = tpdo_frames(t, od, operational, now)[0];
            let bits = le_value(frame.data) / pow2(total_bits(t.mapping.take(i))) % pow2(
                t.mapping[i].bits as nat,
            );
            &&& frame.id == t.cob_id
            &&& 8 * frame.data.len() >= total_bits(t.mapping)
            &&& 8 * frame.data.len() < total_bits(t.mapping) + 8
            &&& match od.spec_value(t.mapping[i].index, t.mapping[i].sub) {
                Ok(bytes) => bytes.len() <= 8 ==> bits == le_value(bytes) % pow2(
                    t.mapping[i].bits as nat,
                ),
                Err(_) => bits == 0,
            }
        }),
{
    law_pdo_transports_values(od, t.mapping, i);
    vstd::arithmetic::power2::lemma_pow2_pos(t.mapping[i].bits as nat);
    vstd::arithmetic::div_mod::lemma_small_mod(0, pow2(t.mapping[i].bits as nat));
}

} // verus!
