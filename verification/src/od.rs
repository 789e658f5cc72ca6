//! Object dictionary interface.
//!
//! An object dictionary is generated at build time from a device description
//! by [`crate::codegen`]; the generated struct implements
//! [`ObjectDictionary`]. The dictionary is owned by the node task, and other
//! tasks interact with it via messages.
//!
//! Values cross this interface as little-endian bytes, matching the SDO wire
//! format.

use crate::bytes::copy_at;
use crate::sdo::SdoAbortCode;
use vstd::prelude::*;
use vstd::slice::slice_subrange;

verus! {

/// CANopen static data types.
#[derive(Debug, Clone, Copy, PartialEq, Eq, Structural)]
pub enum DataType {
    /// BOOLEAN (1 byte on the wire).
    Boolean,
    /// INTEGER8.
    Integer8,
    /// INTEGER16.
    Integer16,
    /// INTEGER32.
    Integer32,
    /// INTEGER64.
    Integer64,
    /// UNSIGNED8.
    Unsigned8,
    /// UNSIGNED16.
    Unsigned16,
    /// UNSIGNED32.
    Unsigned32,
    /// UNSIGNED64.
    Unsigned64,
    /// REAL32.
    Real32,
    /// REAL64.
    Real64,
    /// VISIBLE_STRING.
    VisibleString,
    /// OCTET_STRING.
    OctetString,
    /// UNICODE_STRING.
    UnicodeString,
    /// DOMAIN (application-defined data, no OD-side storage).
    Domain,
}

/// SDO access rights of a sub-object.
#[derive(Debug, Clone, Copy, PartialEq, Eq, Structural)]
pub enum SdoAccess {
    /// No SDO access.
    No,
    /// Read-only.
    ReadOnly,
    /// Write-only.
    WriteOnly,
    /// Read and write.
    ReadWrite,
}

impl SdoAccess {
    /// Whether SDO reads are permitted.
    pub open spec fn spec_readable(self) -> bool {
        self is ReadOnly || self is ReadWrite
    }

    /// Whether SDO writes are permitted.
    pub open spec fn spec_writable(self) -> bool {
        self is WriteOnly || self is ReadWrite
    }

    /// Whether SDO reads are permitted.
    pub fn readable(self) -> (permitted: bool)
        ensures
            permitted == self.spec_readable(),
    {
        matches!(self, Self::ReadOnly | Self::ReadWrite)
    }

    /// Whether SDO writes are permitted.
    pub fn writable(self) -> (permitted: bool)
        ensures
            permitted == self.spec_writable(),
    {
        matches!(self, Self::WriteOnly | Self::ReadWrite)
    }
}

/// PDO mapping capability of a sub-object.
#[derive(Debug, Clone, Copy, PartialEq, Eq, Structural)]
pub enum PdoAccess {
    /// Not mappable.
    No,
    /// Mappable into RPDOs (received, written by the stack).
    Rpdo,
    /// Mappable into TPDOs (transmitted, read by the stack).
    Tpdo,
    /// Mappable in both directions.
    Both,
}

/// Errors of OD access.
#[derive(Debug, Clone, Copy, PartialEq, Eq, Structural)]
pub enum OdError {
    /// Object does not exist.
    ObjectNotFound,
    /// Sub-index does not exist.
    SubIndexNotFound,
    /// Read attempted on a write-only entry.
    WriteOnly,
    /// Write attempted on a read-only entry.
    ReadOnly,
    /// Data length does not match the entry.
    TypeMismatch,
    /// Data too long for the entry.
    DataTooLong,
    /// Written value above the entry's high limit.
    ValueTooHigh,
    /// Written value below the entry's low limit.
    ValueTooLow,
    /// No data available, e.g. DOMAIN without an application handler.
    NoData,
    /// Caller's read buffer is too small for the value.
    BufferTooSmall,
}

impl OdError {
    /// The SDO abort code that stands for this error.
    pub open spec fn spec_abort_code(self) -> SdoAbortCode {
        match self {
            Self::ObjectNotFound => SdoAbortCode(SdoAbortCode::NO_OBJECT),
            Self::SubIndexNotFound => SdoAbortCode(SdoAbortCode::SUB_UNKNOWN),
            Self::WriteOnly => SdoAbortCode(SdoAbortCode::WRITE_ONLY),
            Self::ReadOnly => SdoAbortCode(SdoAbortCode::READ_ONLY),
            Self::TypeMismatch => SdoAbortCode(SdoAbortCode::TYPE_MISMATCH),
            Self::DataTooLong => SdoAbortCode(SdoAbortCode::DATA_LONG),
            Self::ValueTooHigh => SdoAbortCode(SdoAbortCode::VALUE_HIGH),
            Self::ValueTooLow => SdoAbortCode(SdoAbortCode::VALUE_LOW),
            Self::NoData => SdoAbortCode(SdoAbortCode::NO_DATA),
            Self::BufferTooSmall => SdoAbortCode(SdoAbortCode::GENERAL),
        }
    }

    /// The SDO abort code an SDO server must answer with for this error.
    pub fn abort_code(self) -> (code: SdoAbortCode)
        ensures
            code == self.spec_abort_code(),
    {
        match self {
            Self::ObjectNotFound => SdoAbortCode(SdoAbortCode::NO_OBJECT),
            Self::SubIndexNotFound => SdoAbortCode(SdoAbortCode::SUB_UNKNOWN),
            Self::WriteOnly => SdoAbortCode(SdoAbortCode::WRITE_ONLY),
            Self::ReadOnly => SdoAbortCode(SdoAbortCode::READ_ONLY),
            Self::TypeMismatch => SdoAbortCode(SdoAbortCode::TYPE_MISMATCH),
            Self::DataTooLong => SdoAbortCode(SdoAbortCode::DATA_LONG),
            Self::ValueTooHigh => SdoAbortCode(SdoAbortCode::VALUE_HIGH),
            Self::ValueTooLow => SdoAbortCode(SdoAbortCode::VALUE_LOW),
            Self::NoData => SdoAbortCode(SdoAbortCode::NO_DATA),
            Self::BufferTooSmall => SdoAbortCode(SdoAbortCode::GENERAL),
        }
    }
}

/// Different errors are answered with different abort codes.
pub proof fn law_abort_codes_tell_errors_apart(a: OdError, b: OdError)
    ensures
        a.spec_abort_code() == b.spec_abort_code() ==> a == b,
{
}

/// Metadata of one sub-object.
#[derive(Debug, Clone, Copy, PartialEq, Eq, Structural)]
pub struct EntryInfo {
    /// Static data type of the entry.
    pub data_type: DataType,
    /// SDO access rights.
    pub sdo: SdoAccess,
    /// PDO mapping capability.
    pub pdo: PdoAccess,
    /// Current data size in bytes (actual length for strings, 0 for DOMAIN).
    pub size: usize,
}

/// Access to a node's object dictionary.
///
/// Implemented by generated OD structs ([`crate::codegen`]). Consumed by the
/// SDO server, PDO mapping and the application.
///
/// A dictionary is modelled by what it answers: the metadata of an entry,
/// the value that a read sees, whether a write is accepted, and how the
/// dictionary may look after an accepted write. Unless an implementation
/// says otherwise, it is the empty dictionary.
pub trait ObjectDictionary: Sized {
    /// The metadata of an entry.
    open spec fn spec_info(&self, index: u16, sub: u8) -> Result<EntryInfo, OdError> {
        Err(OdError::ObjectNotFound)
    }

    /// The value that a read of an entry sees.
    open spec fn spec_value(&self, index: u16, sub: u8) -> Result<Seq<u8>, OdError> {
        Err(OdError::ObjectNotFound)
    }

    /// Whether a write of `data` to an entry is accepted.
    open spec fn spec_write(&self, index: u16, sub: u8, data: Seq<u8>) -> Result<(), OdError> {
        Err(OdError::ObjectNotFound)
    }

    /// Whether `post` may be this dictionary after an accepted write.
    open spec fn spec_written(&self, index: u16, sub: u8, data: Seq<u8>, post: &Self) -> bool {
        *post == *self
    }

    /// Look up entry metadata.
    fn info(&self, index: u16, sub: u8) -> (info: Result<EntryInfo, OdError>)
        ensures
            info == self.spec_info(index, sub),
    ;

    /// Read the value of `index:sub` as little-endian bytes into `buf`,
    /// returning the number of bytes. Enforces SDO read access. A failing
    /// read leaves `buf` as it was.
    fn read(&self, index: u16, sub: u8, buf: &mut [u8]) -> (len: Result<usize, OdError>)
        ensures
            len == read_result(self.spec_value(index, sub), old(buf)@.len()),
            final(buf)@ == buffer_after_read(self.spec_value(index, sub), old(buf)@),
    ;

    /// Write little-endian bytes to `index:sub`, enforcing SDO write access,
    /// exact data length and the entry's value limits. A refused write
    /// leaves the dictionary as it was.
    fn write(&mut self, index: u16, sub: u8, data: &[u8]) -> (done: Result<(), OdError>)
        ensures
            done == old(self).spec_write(index, sub, data@),
            done is Ok ==> old(self).spec_written(index, sub, data@, final(self)),
            done is Err ==> *final(self) == *old(self),
    ;
}

/// What a read into a buffer of `room` bytes returns for the value `value`.
pub open spec fn read_result(value: Result<Seq<u8>, OdError>, room: nat) -> Result<usize, OdError> {
    match value {
        Ok(bytes) => if bytes.len() <= room {
            Ok(bytes.len() as usize)
        } else {
            Err(OdError::BufferTooSmall)
        },
        Err(e) => Err(e),
    }
}

/// What a buffer holds after the value `value` was read into it.
pub open spec fn buffer_after_read(value: Result<Seq<u8>, OdError>, before: Seq<u8>) -> Seq<u8> {
    match value {
        Ok(bytes) => if bytes.len() <= before.len() {
            bytes + before.skip(bytes.len() as int)
        } else {
            before
        },
        Err(_) => before,
    }
}

/// Whether a write of `data` can take the dictionary `pre` to `post`.
pub open spec fn write_step<OD: ObjectDictionary>(
    pre: OD,
    index: u16,
    sub: u8,
    data: Seq<u8>,
    post: OD,
) -> bool {
    match pre.spec_write(index, sub, data) {
        Ok(_) => pre.spec_written(index, sub, data, &post),
        Err(_) => post == pre,
    }
}

/// The value of an entry, if it is readable and exactly `n` bytes long.
pub open spec fn value_of_len<OD: ObjectDictionary>(od: OD, index: u16, sub: u8, n: nat) -> Option<
    Seq<u8>,
> {
    match od.spec_value(index, sub) {
        Ok(bytes) => if bytes.len() == n {
            Some(bytes)
        } else {
            None
        },
        Err(_) => None,
    }
}

/// Read an exactly-N-byte entry from the OD.
pub fn get<const N: usize, OD: ObjectDictionary>(od: &OD, index: u16, sub: u8) -> (value: Option<
    [u8; N],
>)
    ensures
        value is Some <==> value_of_len(*od, index, sub, N as nat) is Some,
        value is Some ==> value->0@ == value_of_len(*od, index, sub, N as nat)->0,
{
    let mut buf = [0u8; N];
    match od.read(index, sub, &mut buf) {
        Ok(n) => {
            if n == N {
                assert(buf@ =~= od.spec_value(index, sub)->Ok_0);
                Some(buf)
            } else {
                None
            }
        },
        Err(_) => None,
    }
}

/// Fixed-capacity byte string backing VISIBLE_STRING / OCTET_STRING entries.
#[derive(Debug, Clone, Copy, PartialEq, Eq)]
pub struct OdString<const N: usize> {
    len: usize,
    bytes: [u8; N],
}

impl<const N: usize> View for OdString<N> {
    type V = Seq<u8>;

    closed spec fn view(&self) -> Seq<u8> {
        self.bytes@.take(self.len as int)
    }
}

impl<const N: usize> OdString<N> {
    #[verifier::type_invariant]
    spec fn fits(self) -> bool {
        self.len <= N
    }

    /// Create from initial content; `init` longer than `N` is truncated
    /// (the code generator sizes `N` to fit the configured default).
    pub fn new(init: &[u8]) -> (string: Self)
        ensures
            string@ == if init@.len() > N {
                init@.take(N as int)
            } else {
                init@
            },
    {
        let len: usize = if init.len() > N {
            N
        } else {
            init.len()
        };
        let mut bytes = [0u8; N];
        copy_at(&mut bytes, 0, slice_subrange(init, 0, len));
        let string = Self { len, bytes };
        assert(string@ =~= init@.take(len as int));
        assert(init@.take(init@.len() as int) =~= init@);
        string
    }

    /// Current content.
    pub fn as_bytes(&self) -> (bytes: &[u8])
        ensures
            bytes@ == self@,
    {
        proof {
            use_type_invariant(self);
        }
        slice_subrange(&self.bytes, 0, self.len)
    }

    /// Current length in bytes.
    pub fn len(&self) -> (len: usize)
        ensures
            len == self@.len(),
            len <= N,
    {
        proof {
            use_type_invariant(self);
        }
        self.len
    }

    /// Whether the string is empty.
    pub fn is_empty(&self) -> (empty: bool)
        ensures
            empty == (self@.len() == 0),
    {
        proof {
            use_type_invariant(self);
        }
        self.len == 0
    }

    /// Replace the content; fails with [`OdError::DataTooLong`] if `data`
    /// exceeds the capacity.
    pub fn set(&mut self, data: &[u8]) -> (done: Result<(), OdError>)
        ensures
            data@.len() <= N ==> done is Ok && final(self)@ == data@,
            data@.len() > N ==> done == Err::<(), OdError>(OdError::DataTooLong) && final(self)@
                == old(self)@,
    {
        if data.len() > N {
            return Err(OdError::DataTooLong);
        }
        let mut bytes = [0u8; N];
        copy_at(&mut bytes, 0, data);
        *self = Self { len: data.len(), bytes };
        assert(self@ =~= data@);
        Ok(())
    }
}

impl<const N: usize> Default for OdString<N> {
    /// The empty string.
    fn default() -> (string: Self)
        ensures
            string@ == Seq::<u8>::empty(),
    {
        let string = Self { len: 0, bytes: [0u8; N] };
        assert(string@ =~= Seq::<u8>::empty());
        string
    }
}

/// Copy a value into a read buffer (helper for generated code).
pub fn read_bytes(buf: &mut [u8], value: &[u8]) -> (len: Result<usize, OdError>)
    ensures
        len == read_result(Ok(value@), old(buf)@.len()),
        final(buf)@ == buffer_after_read(Ok(value@), old(buf)@),
{
    if buf.len() < value.len() {
        return Err(OdError::BufferTooSmall);
    }
    copy_at(buf, 0, value);
    Ok(value.len())
}

/// Require an exact data length (helper for generated code); SDO expedited
/// writes carry the exact object size per CiA 301.
pub fn exact<const N: usize>(data: &[u8]) -> (value: Result<[u8; N], OdError>)
    ensures
        data@.len() == N ==> value is Ok && value->Ok_0@ == data@,
        data@.len() != N ==> value == Err::<[u8; N], OdError>(OdError::TypeMismatch),
{
    if data.len() != N {
        return Err(OdError::TypeMismatch);
    }
    let mut bytes = [0u8; N];
    copy_at(&mut bytes, 0, data);
    assert(bytes@ =~= data@);
    Ok(bytes)
}

} // verus!
