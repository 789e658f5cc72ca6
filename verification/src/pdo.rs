//! PDO (process data objects) with bitwise mapping.
//!
//! The PDO payload is treated as one little-endian `u64`: mapped application
//! objects consume bits LSB-first in mapping order, the frame length is
//! `ceil(total bits / 8)` bytes, and received values are zero-extended to the
//! OD entry size before writing.
//!
//! Configuration is read from the OD (0x1400../0x1600.. for RPDOs,
//! 0x1800../0x1A00.. for TPDOs) when the [`crate::Node`] is created; changing
//! PDO configuration via SDO takes effect after the next communication reset.
//!
//! Supported transmission types: 254/255 (event-driven, with inhibit and
//! event timer). Synchronous types (0..=240) are accepted in the
//! configuration but do not fire, as there is no SYNC object.
//!
//! The send request of an event-driven TPDO is held armed while the node is
//! not operational, so every valid TPDO transmits once immediately upon
//! entering the operational state.

use crate::bytes::{byte_range, copy_at, le_bytes, le_value, lemma_le_bytes_len};
use crate::bytes::{lemma_le_bytes_prefix, lemma_le_value_padded, lemma_value_of_bytes};
use crate::bytes::{u16_from_le, u32_from_le, u64_from_le, u64_to_le, zeros};
use crate::frame::{CanFrame, FrameView};
use crate::od::{get, value_of_len, write_step, ObjectDictionary, PdoAccess};
use crate::{Micros, TxSink};
use vstd::arithmetic::power2::pow2;
use vstd::prelude::*;
use vstd::slice::slice_subrange;

verus! {

/// Number of PDO slots scanned in the OD (0x1400+i / 0x1800+i).
pub const MAX_PDOS: usize = 4;

/// Maximum application objects mapped into one PDO (CiA 301 limit).
pub const MAX_MAPPED: usize = 8;

/// Event-driven transmission types (254 manufacturer / 255 profile).
pub const TRANSMISSION_EVENT: u8 = 254;

/// One application object in a mapping.
#[derive(Debug, Clone, Copy)]
pub struct MapEntry {
    /// Object index.
    pub index: u16,
    /// Object sub-index.
    pub sub: u8,
    /// Mapped length in bits (bitwise mapping).
    pub bits: u8,
    /// Byte size of the OD entry, for zero-extended RPDO writes.
    pub size: u8,
}

/// The number of bits that a mapping takes.
pub open spec fn total_bits(mapping: Seq<MapEntry>) -> nat
    decreases mapping.len(),
{
    if mapping.len() == 0 {
        0
    } else {
        total_bits(mapping.drop_last()) + mapping.last().bits as nat
    }
}

/// The number of bytes that a mapping takes.
pub open spec fn mapped_len(mapping: Seq<MapEntry>) -> nat {
    (total_bits(mapping) + 7) / 8
}

/// What holds of every mapping that was resolved against a dictionary.
pub open spec fn valid_mapping(mapping: Seq<MapEntry>) -> bool {
    &&& 1 <= mapping.len() <= MAX_MAPPED
    &&& total_bits(mapping) <= 64
    &&& forall|i: int|
        0 <= i < mapping.len() ==> 1 <= (#[trigger] mapping[i]).bits <= 8 * mapping[i].size
            && mapping[i].size <= 8
}

/// The PDO word that holds `values`, the first in the lowest bits, each cut
/// to the length that it is mapped with.
pub open spec fn pack_bits(mapping: Seq<MapEntry>, values: Seq<nat>) -> nat
    recommends
        mapping.len() == values.len(),
    decreases mapping.len(),
{
    if mapping.len() == 0 {
        0
    } else {
        pack_bits(mapping.drop_last(), values.drop_last()) + pow2(total_bits(mapping.drop_last()))
            * (values.last() % pow2(mapping.last().bits as nat))
    }
}

/// The value that the PDO word `word` holds for the entry `i` of a mapping.
pub open spec fn field(mapping: Seq<MapEntry>, word: nat, i: int) -> nat {
    word / pow2(total_bits(mapping.take(i))) % pow2(mapping[i].bits as nat)
}

/// The values that the PDO word `word` holds.
pub open spec fn unpack_bits(mapping: Seq<MapEntry>, word: nat) -> Seq<nat> {
    Seq::new(mapping.len(), |i: int| field(mapping, word, i))
}

/// The value of a mapped object in a dictionary; 0 where it cannot be read.
pub open spec fn mapped_value<OD: ObjectDictionary>(od: OD, entry: MapEntry) -> nat {
    match od.spec_value(entry.index, entry.sub) {
        Ok(bytes) => if bytes.len() <= 8 {
            le_value(bytes)
        } else {
            0
        },
        Err(_) => 0,
    }
}

/// The values of all mapped objects in a dictionary.
pub open spec fn mapped_values<OD: ObjectDictionary>(od: OD, mapping: Seq<MapEntry>) -> Seq<nat> {
    Seq::new(mapping.len(), |i: int| mapped_value(od, mapping[i]))
}

/// The payload that a TPDO with this mapping transmits.
pub open spec fn pdo_payload<OD: ObjectDictionary>(od: OD, mapping: Seq<MapEntry>) -> Seq<u8> {
    le_bytes(pack_bits(mapping, mapped_values(od, mapping)), mapped_len(mapping))
}

/// Whether writing `values` to the mapped objects, in mapping order, can take
/// the dictionary `pre` to `post`. A refused write is skipped.
pub open spec fn writes_values<OD: ObjectDictionary>(
    pre: OD,
    mapping: Seq<MapEntry>,
    values: Seq<nat>,
    post: OD,
) -> bool
    decreases mapping.len(),
{
    if mapping.len() == 0 {
        post == pre
    } else {
        exists|mid: OD|
            writes_values(pre, mapping.drop_last(), values.drop_last(), mid)
                && #[trigger] write_step(
                mid,
                mapping.last().index,
                mapping.last().sub,
                le_bytes(values.last(), mapping.last().size as nat),
                post,
            )
    }
}

/// Values that were written one after the other, and one more.
proof fn lemma_one_more_write<OD: ObjectDictionary>(
    pre: OD,
    mapping: Seq<MapEntry>,
    values: Seq<nat>,
    mid: OD,
    post: OD,
)
    requires
        mapping.len() > 0,
        writes_values(pre, mapping.drop_last(), values.drop_last(), mid),
        write_step(
            mid,
            mapping.last().index,
            mapping.last().sub,
            le_bytes(values.last(), mapping.last().size as nat),
            post,
        ),
    ensures
        writes_values(pre, mapping, values, post),
{
}

/// Whether an object with the capability `pdo` can be mapped in the given
/// direction.
pub open spec fn mappable(pdo: PdoAccess, is_rpdo: bool) -> bool {
    match pdo {
        PdoAccess::Both => true,
        PdoAccess::Rpdo => is_rpdo,
        PdoAccess::Tpdo => !is_rpdo,
        PdoAccess::No => false,
    }
}

/// The object that the mapping parameter `raw` names
/// (`index << 16 | sub << 8 | length in bits`), if it exists, is mappable in
/// the right direction and long enough.
pub open spec fn resolved<OD: ObjectDictionary>(od: OD, raw: u32, is_rpdo: bool) -> Option<MapEntry> {
    let index = (raw / 0x1_0000) as u16;
    let sub = (raw / 0x100 % 0x100) as u8;
    let bits = (raw % 0x100) as u8;
    match od.spec_info(index, sub) {
        Ok(info) => if mappable(info.pdo, is_rpdo) && bits > 0 && bits <= info.size * 8
            && info.size <= 8 {
            Some(MapEntry { index, sub, bits, size: info.size as u8 })
        } else {
            None
        },
        Err(_) => None,
    }
}

/// The entry at the position `i` of the mapping parameter object `map_index`.
pub open spec fn configured_entry<OD: ObjectDictionary>(
    od: OD,
    map_index: u16,
    is_rpdo: bool,
    i: int,
) -> Option<MapEntry> {
    match value_of_len(od, map_index, (i + 1) as u8, 4) {
        Some(raw) => resolved(od, le_value(raw) as u32, is_rpdo),
        None => None,
    }
}

/// The first `n` entries of the mapping parameter object `map_index`.
pub open spec fn configured_entries<OD: ObjectDictionary>(
    od: OD,
    map_index: u16,
    is_rpdo: bool,
    n: nat,
) -> Seq<MapEntry> {
    Seq::new(n, |i: int| configured_entry(od, map_index, is_rpdo, i)->0)
}

/// The mapping that the mapping parameter object `map_index` describes;
/// `None` if it is absent, disabled (it has no entries), or has too many
/// entries, an entry that cannot be resolved, or more than 64 bits.
pub open spec fn configured_mapping<OD: ObjectDictionary>(
    od: OD,
    map_index: u16,
    is_rpdo: bool,
) -> Option<Seq<MapEntry>> {
    match value_of_len(od, map_index, 0, 1) {
        Some(count) => if 1 <= count[0] <= MAX_MAPPED && (forall|i: int|
            0 <= i < count[0] ==> #[trigger] configured_entry(od, map_index, is_rpdo, i) is Some)
            && total_bits(configured_entries(od, map_index, is_rpdo, count[0] as nat)) <= 64 {
            Some(configured_entries(od, map_index, is_rpdo, count[0] as nat))
        } else {
            None
        },
        None => None,
    }
}

/// The COB-ID that the communication parameter object `comm_index` holds;
/// `None` if it is absent or the valid bit (31) marks the PDO as disabled.
pub open spec fn configured_cob_id<OD: ObjectDictionary>(od: OD, comm_index: u16) -> Option<u16> {
    match value_of_len(od, comm_index, 1, 4) {
        Some(raw) => if le_value(raw) >= 0x8000_0000 {
            None
        } else {
            Some((le_value(raw) % 0x800) as u16)
        },
        None => None,
    }
}

/// A 16-bit time of a communication parameter object, in units of
/// `unit_us`; 0 where the sub-object is absent.
pub open spec fn configured_time<OD: ObjectDictionary>(
    od: OD,
    comm_index: u16,
    sub: u8,
    unit_us: nat,
) -> u64 {
    match value_of_len(od, comm_index, sub, 2) {
        Some(raw) => (le_value(raw) * unit_us) as u64,
        None => 0,
    }
}

/// The state of a transmit PDO.
#[verifier::ext_equal]
pub struct TpdoState {
    pub cob_id: u16,
    pub transmission: u8,
    pub inhibit_us: u64,
    pub event_us: u64,
    pub mapping: Seq<MapEntry>,
    pub send_request: bool,
    pub inhibit_until: Micros,
    pub event_deadline: Option<Micros>,
}

/// The state of a receive PDO.
#[verifier::ext_equal]
pub struct RpdoState {
    pub cob_id: u16,
    pub mapping: Seq<MapEntry>,
}

/// The TPDO that slot `slot` of a dictionary configures; it starts armed.
pub open spec fn configured_tpdo<OD: ObjectDictionary>(od: OD, slot: u16) -> Option<TpdoState> {
    let comm = (0x1800 + slot) as u16;
    let cob_id = configured_cob_id(od, comm);
    let transmission = value_of_len(od, comm, 2, 1);
    let mapping = configured_mapping(od, (0x1A00 + slot) as u16, false);
    if cob_id is Some && transmission is Some && mapping is Some {
        Some(
            TpdoState {
                cob_id: cob_id->0,
                transmission: transmission->0[0],
                inhibit_us: configured_time(od, comm, 3, 100),
                event_us: configured_time(od, comm, 5, 1000),
                mapping: mapping->0,
                send_request: true,
                inhibit_until: 0,
                event_deadline: None,
            },
        )
    } else {
        None
    }
}

/// The RPDO that slot `slot` of a dictionary configures.
pub open spec fn configured_rpdo<OD: ObjectDictionary>(od: OD, slot: u16) -> Option<RpdoState> {
    let cob_id = configured_cob_id(od, (0x1400 + slot) as u16);
    let mapping = configured_mapping(od, (0x1600 + slot) as u16, true);
    if cob_id is Some && mapping is Some {
        Some(RpdoState { cob_id: cob_id->0, mapping: mapping->0 })
    } else {
        None
    }
}

/// Whether a TPDO that is processed takes part in the traffic: it is event
/// driven and the node is operational.
pub open spec fn tpdo_active(t: TpdoState, operational: bool) -> bool {
    t.transmission >= TRANSMISSION_EVENT && operational
}

/// The event deadline of an active TPDO that is processed at `now`: armed if
/// it was not yet.
pub open spec fn armed_deadline(t: TpdoState, now: Micros) -> Option<int> {
    match t.event_deadline {
        Some(deadline) => Some(deadline as int),
        None => if t.event_us > 0 {
            Some(now + t.event_us)
        } else {
            None
        },
    }
}

/// Whether an active TPDO transmits when it is processed at `now`: requested
/// or due, and not inhibited.
pub open spec fn tpdo_sends(t: TpdoState, now: Micros) -> bool {
    let deadline = armed_deadline(t, now);
    (t.send_request || (deadline is Some && now >= deadline->0)) && now >= t.inhibit_until
}

/// Whether the deadlines that are set when a TPDO is processed at `now` can
/// be represented.
pub open spec fn tpdo_times_fit(t: TpdoState, operational: bool, now: Micros) -> bool {
    tpdo_active(t, operational) ==> {
        &&& t.event_deadline is None ==> now + t.event_us <= u64::MAX
        &&& tpdo_sends(t, now) ==> now + t.event_us <= u64::MAX && now + t.inhibit_us <= u64::MAX
    }
}

/// The TPDO after it was processed at `now`.
pub open spec fn tpdo_next(t: TpdoState, operational: bool, now: Micros) -> TpdoState {
    let deadline = armed_deadline(t, now);
    if t.transmission < TRANSMISSION_EVENT {
        t
    } else if !operational {
        TpdoState { send_request: true, event_deadline: None, inhibit_until: 0, ..t }
    } else if tpdo_sends(t, now) {
        TpdoState {
            send_request: false,
            inhibit_until: (now + t.inhibit_us) as u64,
            event_deadline: if t.event_us > 0 {
                Some((now + t.event_us) as u64)
            } else {
                t.event_deadline
            },
            ..t
        }
    } else {
        TpdoState {
            event_deadline: match deadline {
                Some(at) => Some(at as u64),
                None => None,
            },
            ..t
        }
    }
}

/// What a TPDO transmits when it is processed at `now`.
pub open spec fn tpdo_frames<OD: ObjectDictionary>(
    t: TpdoState,
    od: OD,
    operational: bool,
    now: Micros,
) -> Seq<FrameView> {
    if tpdo_active(t, operational) && tpdo_sends(t, now) {
        seq![FrameView { id: t.cob_id, data: pdo_payload(od, t.mapping) }]
    } else {
        Seq::empty()
    }
}

/// The earlier of two deadlines.
pub open spec fn earlier(a: Option<Micros>, b: Option<Micros>) -> Option<Micros> {
    match (a, b) {
        (Some(x), Some(y)) => if x <= y {
            a
        } else {
            b
        },
        (Some(_), None) => a,
        _ => b,
    }
}

/// When the event of a TPDO can take effect: at its deadline, but not within
/// the inhibit time.
pub open spec fn event_time(t: TpdoState) -> Option<Micros> {
    match t.event_deadline {
        Some(deadline) => if deadline >= t.inhibit_until {
            Some(deadline)
        } else {
            Some(t.inhibit_until)
        },
        None => None,
    }
}

/// When a TPDO wants to be processed next, after it was processed: when its
/// event can take effect, or when the inhibit time of a pending request ends.
pub open spec fn tpdo_deadline(next: TpdoState, operational: bool) -> Option<Micros> {
    if tpdo_active(next, operational) {
        earlier(
            event_time(next),
            if next.send_request {
                Some(next.inhibit_until)
            } else {
                None
            },
        )
    } else {
        None
    }
}

/// Every entry of a mapping lies within the bits of the mapping.
pub proof fn lemma_entry_within(mapping: Seq<MapEntry>, i: int)
    requires
        0 <= i < mapping.len(),
    ensures
        total_bits(mapping.take(i)) + mapping[i].bits <= total_bits(mapping),
    decreases mapping.len(),
{
    let rest = mapping.drop_last();
    if i < mapping.len() - 1 {
        lemma_entry_within(rest, i);
        assert(rest.take(i) =~= mapping.take(i));
    } else {
        assert(rest =~= mapping.take(i));
    }
}

/// A PDO word takes no more bits than the mapping.
pub proof fn lemma_pack_fits(mapping: Seq<MapEntry>, values: Seq<nat>)
    requires
        values.len() == mapping.len(),
    ensures
        pack_bits(mapping, values) < pow2(total_bits(mapping)),
    decreases mapping.len(),
{
    if mapping.len() == 0 {
        vstd::arithmetic::power2::lemma_pow2_pos(0);
    } else {
        let rest = mapping.drop_last();
        let low = pack_bits(rest, values.drop_last());
        let unit = pow2(total_bits(rest));
        let range = pow2(mapping.last().bits as nat);
        let value = values.last() % range;
        lemma_pack_fits(rest, values.drop_last());
        vstd::arithmetic::power2::lemma_pow2_adds(total_bits(rest), mapping.last().bits as nat);
        vstd::arithmetic::power2::lemma_pow2_pos(mapping.last().bits as nat);
        assert(low + unit * value < unit * range) by (nonlinear_arith)
            requires
                low < unit,
                value < range,
        ;
    }
}

/// Reading the PDO word at the position of an entry gives back the value
/// that was packed for it, cut to the mapped length: what a TPDO sends, an
/// RPDO with the same layout receives.
pub proof fn law_packed_values_read_back(mapping: Seq<MapEntry>, values: Seq<nat>, i: int)
    requires
        values.len() == mapping.len(),
        0 <= i < mapping.len(),
    ensures
        field(mapping, pack_bits(mapping, values), i) == values[i] % pow2(mapping[i].bits as nat),
    decreases mapping.len(),
{
    let rest = mapping.drop_last();
    let low = pack_bits(rest, values.drop_last());
    let unit = pow2(total_bits(rest));
    let value = values.last() % pow2(mapping.last().bits as nat);
    let word = pack_bits(mapping, values);
    vstd::arithmetic::power2::lemma_pow2_pos(mapping.last().bits as nat);
    lemma_pack_fits(rest, values.drop_last());
    if i == mapping.len() - 1 {
        assert(rest =~= mapping.take(i));
        vstd::arithmetic::div_mod::lemma_div_multiples_vanish_fancy(
            value as int,
            low as int,
            unit as int,
        );
        vstd::arithmetic::div_mod::lemma_small_mod(value, pow2(mapping.last().bits as nat));
    } else {
        let start = total_bits(mapping.take(i));
        let bits = mapping[i].bits as nat;
        assert(rest.take(i) =~= mapping.take(i));
        law_packed_values_read_back(rest, values.drop_last(), i);
        lemma_entry_within(rest, i);
        let above = (total_bits(rest) - start - bits) as nat;
        vstd::arithmetic::power2::lemma_pow2_adds(start, bits);
        vstd::arithmetic::power2::lemma_pow2_adds(start + bits, above);
        vstd::arithmetic::power2::lemma_pow2_pos(start);
        vstd::arithmetic::power2::lemma_pow2_pos(bits);
        let s = pow2(start) as int;
        let b = pow2(bits) as int;
        let a = pow2(above) as int;
        assert(unit * value == (b * (a * value)) * s) by (nonlinear_arith)
            requires
                unit == s * b * a,
        ;
        vstd::arithmetic::div_mod::lemma_hoist_over_denominator(
            low as int,
            b * (a * value),
            pow2(start),
        );
        vstd::arithmetic::div_mod::lemma_mod_multiples_vanish(a * value, low as int / s, b);
    }
}

/// What a TPDO sends of a dictionary is what an RPDO with the same layout
/// receives: the field of the received word for an entry is the value of the
/// mapped object, cut to the mapped length.
pub proof fn law_pdo_transports_values<OD: ObjectDictionary>(
    od: OD,
    mapping: Seq<MapEntry>,
    i: int,
)
    requires
        0 <= i < mapping.len(),
    ensures
        pdo_payload(od, mapping).len() == mapped_len(mapping),
        field(mapping, le_value(pdo_payload(od, mapping)), i) == mapped_value(od, mapping[i]) % pow2(
            mapping[i].bits as nat,
        ),
{
    let values = mapped_values(od, mapping);
    let word = pack_bits(mapping, values);
    let len = mapped_len(mapping);
    lemma_pack_fits(mapping, values);
    lemma_byte_range(len);
    lemma_le_bytes_len(word, len);
    if total_bits(mapping) < 8 * len {
        vstd::arithmetic::power2::lemma_pow2_strictly_increases(total_bits(mapping), 8 * len);
    }
    lemma_value_of_bytes(word, len);
    law_packed_values_read_back(mapping, values, i);
}

/// A received value fits the entry that it is written to: the zero-extended
/// bytes denote exactly the field of the PDO word.
pub proof fn law_received_values_are_zero_extended(mapping: Seq<MapEntry>, word: nat, i: int)
    requires
        valid_mapping(mapping),
        0 <= i < mapping.len(),
    ensures
        le_bytes(field(mapping, word, i), mapping[i].size as nat).len() == mapping[i].size,
        le_value(le_bytes(field(mapping, word, i), mapping[i].size as nat)) == field(
            mapping,
            word,
            i,
        ),
{
    let value = field(mapping, word, i);
    let size = mapping[i].size as nat;
    lemma_le_bytes_len(value, size);
    lemma_byte_range(size);
    vstd::arithmetic::power2::lemma_pow2_pos(mapping[i].bits as nat);
    if mapping[i].bits < 8 * size {
        vstd::arithmetic::power2::lemma_pow2_strictly_increases(
            mapping[i].bits as nat,
            8 * size,
        );
    }
    lemma_value_of_bytes(value, size);
}

/// `n` bytes are `8 * n` bits.
pub proof fn lemma_byte_range(n: nat)
    ensures
        byte_range(n) == pow2(8 * n),
    decreases n,
{
    vstd::arithmetic::power2::lemma2_to64();
    if n > 0 {
        lemma_byte_range((n - 1) as nat);
        vstd::arithmetic::power2::lemma_pow2_adds(8, (8 * (n - 1)) as nat);
    }
}

/// Outside the operational state a TPDO sends nothing, and it transmits
/// exactly once immediately on entering it, whatever happened before.
pub proof fn law_tpdo_sends_on_entering_operational<OD: ObjectDictionary>(
    t: TpdoState,
    od: OD,
    before: Micros,
    now: Micros,
)
    requires
        t.transmission >= TRANSMISSION_EVENT,
    ensures
        tpdo_frames(t, od, false, before) == Seq::<FrameView>::empty(),
        tpdo_frames(tpdo_next(t, false, before), od, true, now) == seq![
            FrameView { id: t.cob_id, data: pdo_payload(od, t.mapping) },
        ],
        tpdo_next(tpdo_next(t, false, before), true, now).send_request == false,
{
}

/// After a transmission nothing is sent within the inhibit time, even if it
/// is requested.
pub proof fn law_inhibit_time_is_respected<OD: ObjectDictionary>(
    t: TpdoState,
    od: OD,
    now: Micros,
    later: Micros,
    requested: bool,
)
    requires
        tpdo_active(t, true),
        tpdo_sends(t, now),
        tpdo_times_fit(t, true, now),
        later - now < t.inhibit_us,
    ensures
        tpdo_frames(
            TpdoState { send_request: requested, ..tpdo_next(t, true, now) },
            od,
            true,
            later,
        ) == Seq::<FrameView>::empty(),
{
}

/// After a transmission the next one, unless requested, takes place when the
/// event time has elapsed (and the inhibit time with it), and never without
/// an event timer.
pub proof fn law_event_timer_is_cyclic(t: TpdoState, now: Micros, later: Micros)
    requires
        tpdo_active(t, true),
        tpdo_sends(t, now),
        tpdo_times_fit(t, true, now),
        t.event_us == 0 ==> t.event_deadline is None,
    ensures
        tpdo_sends(tpdo_next(t, true, now), later) <==> t.event_us > 0 && later - now
            >= t.event_us && later - now >= t.inhibit_us,
{
}

/// What holds of the event deadline of every TPDO: it is only set where there
/// is an event timer.
pub open spec fn event_timer_used(t: TpdoState) -> bool {
    t.event_us == 0 ==> t.event_deadline is None
}

/// Processing a TPDO a second time at the same time changes nothing and sends
/// nothing. What the law asks of the event deadline holds of a fresh TPDO and
/// stays true.
pub proof fn law_tpdo_processing_is_idempotent<OD: ObjectDictionary>(
    t: TpdoState,
    od: OD,
    operational: bool,
    now: Micros,
)
    requires
        tpdo_times_fit(t, operational, now),
        event_timer_used(t),
    ensures
        ({
            let next = tpdo_next(t, operational, now);
            &&& tpdo_next(next, operational, now) == next
            &&& tpdo_frames(next, od, operational, now) == Seq::<FrameView>::empty()
            &&& event_timer_used(next)
        }),
{
}

/// A processed TPDO asks to be processed again in the future, so a caller
/// that sleeps until the deadline never spins.
pub proof fn law_tpdo_deadline_is_ahead(t: TpdoState, operational: bool, now: Micros)
    requires
        tpdo_times_fit(t, operational, now),
        event_timer_used(t),
    ensures
        ({
            let deadline = tpdo_deadline(tpdo_next(t, operational, now), operational);
            deadline is Some ==> deadline->0 > now
        }),
{
}

/// Nothing happens before the deadline of a processed TPDO, and at the
/// deadline it transmits: a caller that sleeps until then misses nothing and
/// does not wake in vain.
pub proof fn law_tpdo_deadline_is_precise(
    t: TpdoState,
    operational: bool,
    now: Micros,
    later: Micros,
)
    requires
        tpdo_times_fit(t, operational, now),
        event_timer_used(t),
        tpdo_active(t, operational),
        now <= later,
    ensures
        ({
            let next = tpdo_next(t, operational, now);
            let deadline = tpdo_deadline(next, operational);
            tpdo_sends(next, later) <==> deadline is Some && later >= deadline->0
        }),
{
}

#[derive(Debug, Clone, Copy)]
struct Mapping {
    entries: [MapEntry; MAX_MAPPED],
    count: usize,
    total_bits: u16,
}

impl View for Mapping {
    type V = Seq<MapEntry>;

    closed spec fn view(&self) -> Seq<MapEntry> {
        self.entries@.take(self.count as int)
    }
}

impl Mapping {
    spec fn wf(&self) -> bool {
        &&& self.count <= MAX_MAPPED
        &&& self.total_bits == total_bits(self@)
        &&& valid_mapping(self@)
    }

    /// Payload length in bytes: `ceil(total bits / 8)`.
    fn dlc(&self) -> (len: usize)
        requires
            self.wf(),
        ensures
            len == mapped_len(self@),
            len <= 8,
    {
        (self.total_bits as usize + 7) / 8
    }
}

/// One configured transmit PDO.
#[derive(Debug)]
pub struct Tpdo {
    cob_id: u16,
    transmission: u8,
    inhibit_us: u64,
    event_us: u64,
    mapping: Mapping,
    send_request: bool,
    inhibit_until: Micros,
    event_deadline: Option<Micros>,
}

/// One configured receive PDO.
#[derive(Debug)]
pub struct Rpdo {
    cob_id: u16,
    mapping: Mapping,
}

/// Read the mapping parameter object (0x1600+i / 0x1A00+i) and resolve every
/// entry against the OD. Returns `None` (PDO disabled) for a mapping of no
/// objects and on any erroneous mapping.
fn read_mapping<OD: ObjectDictionary>(od: &OD, map_index: u16, is_rpdo: bool) -> (mapping: Option<
    Mapping,
>)
    ensures
        mapping is Some <==> configured_mapping(*od, map_index, is_rpdo) is Some,
        mapping is Some ==> mapping->0.wf() && mapping->0@ == configured_mapping(
            *od,
            map_index,
            is_rpdo,
        )->0,
{
    let count: u8 = match get::<1, OD>(od, map_index, 0) {
        Some(bytes) => bytes[0],
        None => return None,
    };
    if count == 0 || count as usize > MAX_MAPPED {
        return None;
    }
    let unused = MapEntry { index: 0, sub: 0, bits: 0, size: 0 };
    let mut mapping = Mapping { entries: [unused;MAX_MAPPED], count: 0, total_bits: 0 };
    let mut i: u8 = 0;
    while i < count
        invariant
            i <= count <= MAX_MAPPED,
            count >= 1,
            value_of_len(*od, map_index, 0, 1) is Some,
            count == value_of_len(*od, map_index, 0, 1)->0[0],
            mapping.count == i,
            mapping@ == configured_entries(*od, map_index, is_rpdo, i as nat),
            mapping.total_bits == total_bits(mapping@) <= 64 * i,
            forall|k: int|
                0 <= k < i ==> #[trigger] configured_entry(*od, map_index, is_rpdo, k) is Some,
            forall|k: int|
                0 <= k < mapping@.len() ==> 1 <= (#[trigger] mapping@[k]).bits <= 8
                    * mapping@[k].size && mapping@[k].size <= 8,
        decreases count - i,
    {
        let raw: u32 = match get::<4, OD>(od, map_index, i + 1) {
            Some(b) => {
                assert(b@ =~= seq![b@[0], b@[1], b@[2], b@[3]]);
                u32_from_le(b[0], b[1], b[2], b[3])
            },
            None => {
                assert(configured_entry(*od, map_index, is_rpdo, i as int) is None);
                return None;
            },
        };
        let entry = match resolve_entry(od, raw, is_rpdo) {
            Some(entry) => entry,
            None => {
                assert(configured_entry(*od, map_index, is_rpdo, i as int) is None);
                return None;
            },
        };
        let ghost before = mapping@;
        mapping.total_bits = mapping.total_bits + entry.bits as u16;
        mapping.entries[i as usize] = entry;
        mapping.count = mapping.count + 1;
        assert(configured_entry(*od, map_index, is_rpdo, i as int) == Some(entry));
        assert(mapping@ =~= before.push(entry));
        assert(mapping@.drop_last() =~= before);
        assert(mapping@ =~= configured_entries(*od, map_index, is_rpdo, (i + 1) as nat));
        i += 1;
    }
    if mapping.total_bits > 64 {
        return None;
    }
    Some(mapping)
}

/// Resolve one mapping entry `index << 16 | sub << 8 | length in bits`
/// against the OD: the entry must exist, be PDO-mappable in the right
/// direction and be long enough.
pub fn resolve_entry<OD: ObjectDictionary>(od: &OD, raw: u32, is_rpdo: bool) -> (entry: Option<
    MapEntry,
>)
    ensures
        entry == resolved(*od, raw, is_rpdo),
        entry is Some ==> 1 <= entry->0.bits <= 8 * entry->0.size && entry->0.size <= 8,
{
    let index: u16 = (raw / 0x1_0000) as u16;
    let sub: u8 = (raw / 0x100 % 0x100) as u8;
    let bits: u8 = (raw % 0x100) as u8;
    let info = match od.info(index, sub) {
        Ok(info) => info,
        Err(_) => return None,
    };
    let mappable = match info.pdo {
        PdoAccess::Both => true,
        PdoAccess::Rpdo => is_rpdo,
        PdoAccess::Tpdo => !is_rpdo,
        PdoAccess::No => false,
    };
    if !mappable || bits == 0 || info.size > 8 || bits as usize > info.size * 8 {
        return None;
    }
    Some(MapEntry { index, sub, bits, size: info.size as u8 })
}

/// Read the COB-ID sub (0x..01): `None` if the PDO object is absent or the
/// valid bit (31) marks the PDO as disabled. Bit 30 (no RTR) is ignored, as
/// this stack never sends RTR.
fn read_cob_id<OD: ObjectDictionary>(od: &OD, comm_index: u16) -> (cob_id: Option<u16>)
    ensures
        cob_id == configured_cob_id(*od, comm_index),
        cob_id is Some ==> cob_id->0 <= 0x7FF,
{
    match get::<4, OD>(od, comm_index, 1) {
        Some(b) => {
            assert(b@ =~= seq![b@[0], b@[1], b@[2], b@[3]]);
            let cob: u32 = u32_from_le(b[0], b[1], b[2], b[3]);
            if cob >= 0x8000_0000 {
                return None;
            }
            Some((cob % 0x800) as u16)
        },
        None => None,
    }
}

/// Read an optional time sub, in units of `unit_us`; 0 if it is absent.
fn read_time<OD: ObjectDictionary>(od: &OD, comm_index: u16, sub: u8, unit_us: u64) -> (time: u64)
    requires
        unit_us <= 1000,
    ensures
        time == configured_time(*od, comm_index, sub, unit_us as nat),
{
    match get::<2, OD>(od, comm_index, sub) {
        Some(b) => {
            assert(b@ =~= seq![b@[0], b@[1]]);
            let ticks: u16 = u16_from_le(b[0], b[1]);
            assert(ticks * unit_us <= 0xFFFF * 1000) by (nonlinear_arith)
                requires
                    ticks <= 0xFFFF,
                    unit_us <= 1000,
            ;
            ticks as u64 * unit_us
        },
        None => 0,
    }
}

impl View for Tpdo {
    type V = TpdoState;

    closed spec fn view(&self) -> TpdoState {
        TpdoState {
            cob_id: self.cob_id,
            transmission: self.transmission,
            inhibit_us: self.inhibit_us,
            event_us: self.event_us,
            mapping: self.mapping@,
            send_request: self.send_request,
            inhibit_until: self.inhibit_until,
            event_deadline: self.event_deadline,
        }
    }
}

impl View for Rpdo {
    type V = RpdoState;

    closed spec fn view(&self) -> RpdoState {
        RpdoState { cob_id: self.cob_id, mapping: self.mapping@ }
    }
}

impl Tpdo {
    /// The COB-ID is an 11-bit one, the mapping is valid, and an event
    /// deadline is only set where there is an event timer.
    pub closed spec fn wf(&self) -> bool {
        &&& self.cob_id <= 0x7FF
        &&& self.mapping.wf()
        &&& event_timer_used(self@)
    }

    /// What a well-formed TPDO is known to be.
    pub proof fn lemma_wf(&self)
        requires
            self.wf(),
        ensures
            self@.cob_id <= 0x7FF,
            valid_mapping(self@.mapping),
            event_timer_used(self@),
    {
    }

    /// Read TPDO configuration from the OD (comm 0x1800+slot, mapping
    /// 0x1A00+slot). `None` if absent, disabled or erroneously mapped.
    pub fn from_od<OD: ObjectDictionary>(od: &OD, slot: usize) -> (tpdo: Option<Self>)
        requires
            0x1A00 + (slot as u16) <= u16::MAX,
        ensures
            tpdo is Some <==> configured_tpdo(*od, slot as u16) is Some,
            tpdo is Some ==> tpdo->0.wf() && tpdo->0@ == configured_tpdo(*od, slot as u16)->0,
    {
        let comm: u16 = 0x1800 + slot as u16;
        let cob_id: u16 = match read_cob_id(od, comm) {
            Some(cob_id) => cob_id,
            None => return None,
        };
        let transmission: u8 = match get::<1, OD>(od, comm, 2) {
            Some(bytes) => bytes[0],
            None => return None,
        };
        // Inhibit time (0x..03, multiple of 100 µs) and event timer
        // (0x..05, ms) are optional subs.
        let inhibit_us: u64 = read_time(od, comm, 3, 100);
        let event_us: u64 = read_time(od, comm, 5, 1000);
        let mapping = match read_mapping(od, 0x1A00 + slot as u16, false) {
            Some(mapping) => mapping,
            None => return None,
        };
        Some(
            Self {
                cob_id,
                transmission,
                inhibit_us,
                event_us,
                mapping,
                // Armed: the first process() in operational transmits the
                // initial PDO value.
                send_request: true,
                inhibit_until: 0,
                event_deadline: None,
            },
        )
    }

    /// Whether this event-driven TPDO maps the given object (used to trigger
    /// transmission on SDO writes).
    pub fn maps(&self, index: u16, sub: u8) -> (found: bool)
        requires
            self.wf(),
        ensures
            found == maps_object(self@.mapping, index, sub),
    {
        let mut i: usize = 0;
        while i < self.mapping.count
            invariant
                self.wf(),
                i <= self.mapping.count,
                forall|k: int|
                    0 <= k < i ==> !((#[trigger] self@.mapping[k]).index == index
                        && self@.mapping[k].sub == sub),
            decreases self.mapping.count - i,
        {
            let entry = self.mapping.entries[i];
            assert(entry == self@.mapping[i as int]);
            if entry.index == index && entry.sub == sub {
                return true;
            }
            i += 1;
        }
        false
    }

    /// Request transmission at the next opportunity.
    pub fn request(&mut self)
        requires
            old(self).wf(),
        ensures
            final(self).wf(),
            final(self)@ == (TpdoState { send_request: true, ..old(self)@ }),
    {
        self.send_request = true;
    }

    /// Run the event/inhibit timers and transmit if due. `operational` gates
    /// transmission per NMT state. Returns the next deadline, if any.
    pub fn process<OD: ObjectDictionary, T: TxSink>(
        &mut self,
        od: &OD,
        operational: bool,
        now: Micros,
        tx: &mut T,
    ) -> (next: Option<Micros>)
        requires
            old(self).wf(),
            tpdo_times_fit(old(self)@, operational, now),
        ensures
            final(self).wf(),
            final(self)@ == tpdo_next(old(self)@, operational, now),
            final(tx).sent() == old(tx).sent() + tpdo_frames(old(self)@, *od, operational, now),
            next == tpdo_deadline(final(self)@, operational),
    {
        if self.transmission < TRANSMISSION_EVENT {
            // Synchronous TPDO: fires with the SYNC object only.
            return None;
        }
        if !operational {
            // Keep the send request armed and clear the timers, so the TPDO
            // transmits once immediately on (re-)entering operational.
            self.send_request = true;
            self.event_deadline = None;
            self.inhibit_until = 0;
            return None;
        }
        // (Re)arm the event timer when entering operational.

        if self.event_deadline.is_none() && self.event_us > 0 {
            self.event_deadline = Some(now + self.event_us);
        }
        let event_due = match self.event_deadline {
            Some(deadline) => now >= deadline,
            None => false,
        };
        if (self.send_request || event_due) && now >= self.inhibit_until {
            let (dlc, data) = pack(&self.mapping, od);
            let payload = slice_subrange(&data, 0, dlc);
            assert(payload@ =~= data@.take(dlc as int));
            tx.send(CanFrame::new(self.cob_id, payload).unwrap());
            self.send_request = false;
            self.inhibit_until = now + self.inhibit_us;
            if self.event_us > 0 {
                self.event_deadline = Some(now + self.event_us);
            }
        }
        let pending = if self.send_request {
            Some(self.inhibit_until)
        } else {
            None
        };
        // An event that comes due while the PDO is inhibited has to wait.
        let event = match self.event_deadline {
            Some(deadline) => if deadline >= self.inhibit_until {
                Some(deadline)
            } else {
                Some(self.inhibit_until)
            },
            None => None,
        };
        earliest(event, pending)
    }
}

/// Whether a mapping holds an object.
pub open spec fn maps_object(mapping: Seq<MapEntry>, index: u16, sub: u8) -> bool {
    exists|i: int|
        0 <= i < mapping.len() && (#[trigger] mapping[i]).index == index && mapping[i].sub == sub
}

/// The earlier of two deadlines.
pub(crate) fn earliest(a: Option<Micros>, b: Option<Micros>) -> (deadline: Option<Micros>)
    ensures
        deadline == earlier(a, b),
{
    match (a, b) {
        (Some(x), Some(y)) => if x <= y {
            Some(x)
        } else {
            Some(y)
        },
        (Some(x), None) => Some(x),
        (None, b) => b,
    }
}

impl Rpdo {
    /// The mapping is valid.
    pub closed spec fn wf(&self) -> bool {
        self.mapping.wf()
    }

    /// Read RPDO configuration from the OD (comm 0x1400+slot, mapping
    /// 0x1600+slot). `None` if absent, disabled or erroneously mapped.
    ///
    /// Synchronous transmission types are treated as event-driven (values
    /// are applied on reception).
    pub fn from_od<OD: ObjectDictionary>(od: &OD, slot: usize) -> (rpdo: Option<Self>)
        requires
            0x1600 + (slot as u16) <= u16::MAX,
        ensures
            rpdo is Some <==> configured_rpdo(*od, slot as u16) is Some,
            rpdo is Some ==> rpdo->0.wf() && rpdo->0@ == configured_rpdo(*od, slot as u16)->0,
    {
        let comm: u16 = 0x1400 + slot as u16;
        let cob_id: u16 = match read_cob_id(od, comm) {
            Some(cob_id) => cob_id,
            None => return None,
        };
        match read_mapping(od, 0x1600 + slot as u16, true) {
            Some(mapping) => Some(Self { cob_id, mapping }),
            None => None,
        }
    }

    /// Apply a received frame if it matches this RPDO. Values are written to
    /// the OD zero-extended. Frames shorter than the mapped length are
    /// ignored.
    pub fn on_frame<OD: ObjectDictionary>(&self, frame: &CanFrame, od: &mut OD) -> (applied: bool)
        requires
            self.wf(),
        ensures
            applied == rpdo_accepts(self@, frame@),
            rpdo_step(self@, frame@, *old(od), *final(od)),
    {
        if frame.id() != self.cob_id || frame.data().len() < self.mapping.dlc() {
            return false;
        }
        let mut bytes = [0u8; 8];
        copy_at(&mut bytes, 0, frame.data());
        let word: u64 = u64_from_le(&bytes);
        proof {
            assert(bytes@ =~= frame@.data + zeros((8 - frame@.data.len()) as nat));
            lemma_le_value_padded(frame@.data, (8 - frame@.data.len()) as nat);
        }
        let ghost mapping = self.mapping@;
        let ghost values = unpack_bits(mapping, word as nat);
        let ghost start = *od;
        let mut rest: u64 = word;
        let mut i: usize = 0;
        proof {
            vstd::arithmetic::power2::lemma2_to64();
            assert(mapping.take(0) =~= Seq::<MapEntry>::empty());
            assert(word as nat / 1 == word as nat);
        }
        while i < self.mapping.count
            invariant
                self.mapping.wf(),
                mapping == self.mapping@,
                values == unpack_bits(mapping, word as nat),
                i <= self.mapping.count,
                rest == word as nat / pow2(total_bits(mapping.take(i as int))),
                writes_values(start, mapping.take(i as int), values.take(i as int), *od),
            decreases self.mapping.count - i,
        {
            let entry = self.mapping.entries[i];
            assert(entry == mapping[i as int]);
            proof {
                lemma_entry_within(mapping, i as int);
                lemma_take_next(mapping, i as int);
                vstd::arithmetic::power2::lemma_pow2_pos(total_bits(mapping.take(i as int)));
                vstd::arithmetic::power2::lemma_pow2_pos(entry.bits as nat);
                vstd::arithmetic::div_mod::lemma_div_denominator(
                    word as int,
                    pow2(total_bits(mapping.take(i as int))) as int,
                    pow2(entry.bits as nat) as int,
                );
                vstd::arithmetic::power2::lemma_pow2_adds(
                    total_bits(mapping.take(i as int)),
                    entry.bits as nat,
                );
            }
            let value: u64 = low_bits(rest, entry.bits);
            rest = drop_bits(rest, entry.bits);
            let value_bytes = u64_to_le(value);
            let written = slice_subrange(&value_bytes, 0, entry.size as usize);
            proof {
                lemma_le_bytes_prefix(value as nat, entry.size as nat, 8);
                assert(written@ =~= value_bytes@.take(entry.size as int));
            }
            let ghost mid = *od;
            // The mapping was validated against the OD; a failing write here
            // means the OD changed shape at runtime and is ignored.
            let _ = od.write(entry.index, entry.sub, written);
            proof {
                let m = mapping.take(i + 1);
                let v = values.take(i + 1);
                assert(m.drop_last() =~= mapping.take(i as int));
                assert(v.drop_last() =~= values.take(i as int));
                assert(v.last() == value);
                lemma_one_more_write(start, m, v, mid, *od);
            }
            i += 1;
        }
        proof {
            assert(mapping.take(i as int) =~= mapping);
            assert(values.take(i as int) =~= values);
        }
        true
    }
}

/// Whether an RPDO applies a frame: it has the COB-ID and is long enough.
pub open spec fn rpdo_accepts(r: RpdoState, frame: FrameView) -> bool {
    frame.id == r.cob_id && frame.data.len() >= mapped_len(r.mapping)
}

/// Whether the reception of `frame` can take the dictionary `pre` to `post`.
pub open spec fn rpdo_step<OD: ObjectDictionary>(
    r: RpdoState,
    frame: FrameView,
    pre: OD,
    post: OD,
) -> bool {
    if rpdo_accepts(r, frame) {
        writes_values(pre, r.mapping, unpack_bits(r.mapping, le_value(frame.data)), post)
    } else {
        post == pre
    }
}

/// The bits of a mapping up to and with the entry `i`.
proof fn lemma_take_next(mapping: Seq<MapEntry>, i: int)
    requires
        0 <= i < mapping.len(),
    ensures
        total_bits(mapping.take(i + 1)) == total_bits(mapping.take(i)) + mapping[i].bits,
{
    assert(mapping.take(i + 1).drop_last() =~= mapping.take(i));
}

/// Pack mapped values LSB-first into the little-endian PDO word.
fn pack<OD: ObjectDictionary>(mapping: &Mapping, od: &OD) -> (packed: (usize, [u8; 8]))
    requires
        mapping.wf(),
    ensures
        packed.0 == mapped_len(mapping@),
        packed.0 <= 8,
        packed.1@.take(packed.0 as int) == pdo_payload(*od, mapping@),
{
    let ghost m = mapping@;
    let ghost values = mapped_values(*od, m);
    let mut word: u64 = 0;
    let mut shift: u64 = 0;
    let mut i: usize = 0;
    while i < mapping.count
        invariant
            mapping.wf(),
            m == mapping@,
            values == mapped_values(*od, m),
            i <= mapping.count,
            shift == total_bits(m.take(i as int)),
            word == pack_bits(m.take(i as int), values.take(i as int)),
        decreases mapping.count - i,
    {
        let entry = mapping.entries[i];
        assert(entry == m[i as int]);
        let mut buf = [0u8; 8];
        let ghost blank = buf@;
        // Validated at config time; on read failure the field stays 0.
        let _ = od.read(entry.index, entry.sub, &mut buf);
        let raw: u64 = u64_from_le(&buf);
        proof {
            let value = od.spec_value(entry.index, entry.sub);
            lemma_le_value_padded(Seq::empty(), 8);
            assert(Seq::<u8>::empty() + zeros(8) =~= blank);
            if value is Ok && value->Ok_0.len() <= 8 {
                let bytes = value->Ok_0;
                lemma_le_value_padded(bytes, (8 - bytes.len()) as nat);
                assert(buf@ =~= bytes + zeros((8 - bytes.len()) as nat));
            } else {
                assert(buf@ =~= blank);
            }
            assert(raw as nat == values[i as int]);
        }
        let value: u64 = low_bits(raw, entry.bits);
        proof {
            lemma_entry_within(m, i as int);
            lemma_take_next(m, i as int);
            lemma_pack_fits(m.take(i + 1), values.take(i + 1));
            assert(m.take(i + 1).drop_last() =~= m.take(i as int));
            assert(values.take(i + 1).drop_last() =~= values.take(i as int));
            let unit = pow2(total_bits(m.take(i as int)));
            assert(pack_bits(m.take(i + 1), values.take(i + 1)) == word + unit * value);
            vstd::arithmetic::power2::lemma2_to64();
            if total_bits(m.take(i + 1)) < 64 {
                vstd::arithmetic::power2::lemma_pow2_strictly_increases(
                    total_bits(m.take(i + 1)),
                    64,
                );
            }
            vstd::arithmetic::mul::lemma_mul_is_commutative(unit as int, value as int);
            vstd::bits::lemma_u64_shl_is_mul(value, shift);
        }
        word = word + (value << shift);
        shift = shift + entry.bits as u64;
        i += 1;
    }
    let dlc: usize = mapping.dlc();
    let bytes = u64_to_le(word);
    proof {
        assert(m.take(i as int) =~= m);
        assert(values.take(i as int) =~= values);
        lemma_le_bytes_prefix(word as nat, dlc as nat, 8);
    }
    (dlc, bytes)
}

/// A mask of the `bits` low-order bits.
fn mask(bits: u8) -> (mask: u64)
    requires
        1 <= bits <= 64,
    ensures
        mask == pow2(bits as nat) - 1,
{
    proof {
        vstd::arithmetic::power2::lemma2_to64();
    }
    if bits == 64 {
        u64::MAX
    } else {
        proof {
            vstd::bits::lemma_u64_pow2_no_overflow(bits as nat);
            vstd::bits::lemma_u64_shl_is_mul(1, bits as u64);
        }
        (1u64 << (bits as u64)) - 1
    }
}

/// The `bits` low-order bits of `word`.
fn low_bits(word: u64, bits: u8) -> (value: u64)
    requires
        1 <= bits <= 64,
    ensures
        value == word as nat % pow2(bits as nat),
{
    let m: u64 = mask(bits);
    proof {
        vstd::arithmetic::power2::lemma2_to64();
        if bits == 64 {
            assert(word & 0xFFFF_FFFF_FFFF_FFFF == word) by (bit_vector);
            vstd::arithmetic::div_mod::lemma_small_mod(word as nat, pow2(64));
        } else {
            vstd::bits::lemma_u64_pow2_no_overflow(bits as nat);
            vstd::bits::lemma_u64_low_bits_mask_is_mod(word, bits as nat);
        }
    }
    word & m
}

/// `word` without its `bits` low-order bits.
fn drop_bits(word: u64, bits: u8) -> (rest: u64)
    requires
        1 <= bits <= 64,
    ensures
        rest == word as nat / pow2(bits as nat),
{
    proof {
        vstd::arithmetic::power2::lemma2_to64();
    }
    if bits == 64 {
        proof {
            vstd::arithmetic::div_mod::lemma_basic_div(word as int, pow2(64) as int);
        }
        0
    } else {
        proof {
            vstd::bits::lemma_u64_shr_is_div(word, bits as u64);
        }
        word >> (bits as u64)
    }
}

} // verus!
