//! Classic CAN data frames as used by CANopen.
//!
//! CANopen (CiA 301) uses standard 11-bit identifiers and 0..=8 byte data
//! frames exclusively, so this type is deliberately simpler than a general
//! CAN frame: no extended ids, no remote frames, no CAN-FD. Adapters convert
//! at the bus boundary.

use crate::bytes::copy_at;
use vstd::prelude::*;
use vstd::slice::slice_subrange;
use vstd::std_specs::cmp::PartialEqSpec;

verus! {

/// What a frame says: an identifier and a payload.
#[verifier::ext_equal]
pub struct FrameView {
    pub id: u16,
    pub data: Seq<u8>,
}

/// The identifier type that CAN drivers share.
#[verifier::external_type_specification]
#[verifier::external_body]
pub struct ExId(embedded_can::Id);

/// The raw value of a standard identifier; `None` for an extended one.
pub uninterp spec fn standard_raw(id: embedded_can::Id) -> Option<u16>;

/// Tells the variants of `embedded_can::Id` apart; the raw value of a
/// standard identifier comes from `embedded_can::StandardId::as_raw`. The
/// contract names the result.
#[verifier::external_body]
fn read_standard_id(id: embedded_can::Id) -> (raw: Option<u16>)
    ensures
        raw == standard_raw(id),
{
    match id {
        embedded_can::Id::Standard(id) => Some(id.as_raw()),
        embedded_can::Id::Extended(_) => None,
    }
}

/// `embedded_can::StandardId::new`, which succeeds for 11-bit values: the
/// identifier is a standard one and has the raw value that it was made from.
#[verifier::external_body]
fn make_standard_id(raw: u16) -> (id: embedded_can::Id)
    requires
        raw <= 0x7FF,
    ensures
        standard_raw(id) == Some(raw),
{
    embedded_can::Id::Standard(embedded_can::StandardId::new(raw).unwrap())
}

/// A classic CAN data frame with a standard (11-bit) identifier.
#[derive(Debug, Clone, Copy, Eq)]
pub struct CanFrame {
    id: u16,
    len: u8,
    data: [u8; 8],
}

impl View for CanFrame {
    type V = FrameView;

    closed spec fn view(&self) -> FrameView {
        FrameView { id: self.id, data: self.data@.take(self.len as int) }
    }
}

/// Frames are equal if they say the same.
impl PartialEq for CanFrame {
    fn eq(&self, other: &Self) -> (equal: bool) {
        proof {
            use_type_invariant(self);
            use_type_invariant(other);
        }
        if self.id != other.id || self.len != other.len {
            assert(self.len != other.len ==> self@.data.len() != other@.data.len());
            return false;
        }
        let mut i: usize = 0;
        while i < self.len as usize
            invariant
                i <= self.len <= 8,
                self.len == other.len,
                forall|k: int| 0 <= k < i ==> self.data@[k] == other.data@[k],
            decreases self.len - i,
        {
            if self.data[i] != other.data[i] {
                assert(self@.data[i as int] != other@.data[i as int]);
                return false;
            }
            i += 1;
        }
        assert(self@ =~= other@);
        true
    }
}

impl vstd::std_specs::cmp::PartialEqSpecImpl for CanFrame {
    open spec fn obeys_eq_spec() -> bool {
        true
    }

    open spec fn eq_spec(&self, other: &Self) -> bool {
        self@ == other@
    }
}

impl CanFrame {
    #[verifier::type_invariant]
    spec fn well_formed(self) -> bool {
        &&& self.id <= 0x7FF
        &&& self.len <= 8
        &&& forall|i: int| self.len <= i < 8 ==> self.data@[i] == 0
    }

    /// Create a frame. Returns `None` if `id > 0x7FF` or `data.len() > 8`.
    pub fn new(id: u16, data: &[u8]) -> (frame: Option<Self>)
        ensures
            frame is Some <==> id <= 0x7FF && data@.len() <= 8,
            frame is Some ==> frame->0@ == (FrameView { id, data: data@ }),
            frame is Some ==> forall|other: CanFrame|
                other@.id == id && other@.data == data@ ==> #[trigger] frame->0.eq_spec(&other),
    {
        if id > 0x7FF || data.len() > 8 {
            return None;
        }
        let mut buf = [0u8; 8];
        copy_at(&mut buf, 0, data);
        let frame = Self { id, len: data.len() as u8, data: buf };
        assert(frame@.data =~= data@);
        assert forall|other: CanFrame| other@.id == id && other@.data == data@ implies
            #[trigger] frame.eq_spec(&other) by {
            assert(frame@ =~= other@);
        }
        Some(frame)
    }

    /// The 11-bit CAN identifier (COB-ID).
    pub fn id(&self) -> (id: u16)
        ensures
            id == self@.id,
            id <= 0x7FF,
    {
        proof {
            use_type_invariant(self);
        }
        self.id
    }

    /// The frame payload (0..=8 bytes).
    pub fn data(&self) -> (data: &[u8])
        ensures
            data@ == self@.data,
            data@.len() <= 8,
    {
        proof {
            use_type_invariant(self);
        }
        slice_subrange(&self.data, 0, self.len as usize)
    }

    /// Convert from what an `embedded_can::Frame` says of itself: whether it
    /// is a remote frame, its identifier and its data.
    ///
    /// Returns `None` for frames CANopen never uses: extended-id frames and
    /// remote frames.
    pub fn from_embedded(remote: bool, id: embedded_can::Id, data: &[u8]) -> (frame: Option<Self>)
        ensures
            frame is Some <==> !remote && standard_raw(id) is Some && standard_raw(id)->0 <= 0x7FF
                && data@.len() <= 8,
            frame is Some ==> frame->0@ == (FrameView { id: standard_raw(id)->0, data: data@ }),
    {
        if remote {
            return None;
        }
        Self::from_standard(read_standard_id(id), data)
    }

    /// The frame with a standard identifier and its data; `None` without a
    /// standard identifier.
    pub fn from_standard(raw: Option<u16>, data: &[u8]) -> (frame: Option<Self>)
        ensures
            frame is Some <==> raw is Some && raw->0 <= 0x7FF && data@.len() <= 8,
            frame is Some ==> frame->0@ == (FrameView { id: raw->0, data: data@ }),
    {
        match raw {
            Some(raw) => Self::new(raw, data),
            None => None,
        }
    }

    /// Convert into what an `embedded_can::Frame` is made from: a standard
    /// identifier and data of at most eight bytes.
    pub fn to_embedded(&self) -> (parts: (embedded_can::Id, &[u8]))
        ensures
            standard_raw(parts.0) == Some(self@.id),
            parts.1@ == self@.data,
            parts.1@.len() <= 8,
    {
        (make_standard_id(self.id()), self.data())
    }

    /// Payload length in bytes (DLC), 0..=8.
    pub fn dlc(&self) -> (len: u8)
        ensures
            len == self@.data.len(),
            len <= 8,
    {
        proof {
            use_type_invariant(self);
        }
        self.len
    }
}

/// Two frames are equal exactly if they have the same identifier and the same
/// data.
pub proof fn law_frames_are_what_they_say(a: CanFrame, b: CanFrame)
    ensures
        a.eq_spec(&b) <==> a@.id == b@.id && a@.data == b@.data,
{
    assert(a@.id == b@.id && a@.data == b@.data ==> a@ =~= b@);
}

} // verus!
