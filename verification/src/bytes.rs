//! Little-endian byte strings.
//!
//! Every multi-byte value that crosses the object dictionary interface or a
//! CAN payload is little-endian. The model is [`le_bytes`] and its inverse
//! [`le_value`]; the executable conversions below are proved against it.

use vstd::prelude::*;

verus! {

/// The `n` low-order bytes of `value`, least significant first.
pub open spec fn le_bytes(value: nat, n: nat) -> Seq<u8>
    decreases n,
{
    if n == 0 {
        Seq::empty()
    } else {
        seq![(value % 256) as u8] + le_bytes(value / 256, (n - 1) as nat)
    }
}

/// The number that the bytes `s` denote, least significant first.
pub open spec fn le_value(s: Seq<u8>) -> nat
    decreases s.len(),
{
    if s.len() == 0 {
        0
    } else {
        s[0] as nat + 256 * le_value(s.skip(1))
    }
}

/// `256` to the power `n`: one more than the largest value of `n` bytes.
pub open spec fn byte_range(n: nat) -> nat
    decreases n,
{
    if n == 0 {
        1
    } else {
        256 * byte_range((n - 1) as nat)
    }
}

/// `n` zero bytes.
pub open spec fn zeros(n: nat) -> Seq<u8> {
    Seq::new(n, |i: int| 0u8)
}

/// `s` followed by as many zero bytes as it takes to reach the length `n`.
pub open spec fn zero_padded(s: Seq<u8>, n: nat) -> Seq<u8> {
    s + zeros((n - s.len()) as nat)
}

/// An encoded value has the length that was asked for.
pub proof fn lemma_le_bytes_len(value: nat, n: nat)
    ensures
        le_bytes(value, n).len() == n,
    decreases n,
{
    if n > 0 {
        lemma_le_bytes_len(value / 256, (n - 1) as nat);
    }
}

/// Decoding an encoded value gives the value back, where it fits.
pub proof fn lemma_value_of_bytes(value: nat, n: nat)
    requires
        value < byte_range(n),
    ensures
        le_value(le_bytes(value, n)) == value,
    decreases n,
{
    lemma_le_bytes_len(value, n);
    if n > 0 {
        let rest = le_bytes(value / 256, (n - 1) as nat);
        lemma_value_of_bytes(value / 256, (n - 1) as nat);
        assert(le_bytes(value, n).skip(1) =~= rest);
    }
}

/// Encoding a decoded byte string gives the byte string back.
pub proof fn lemma_bytes_of_value(s: Seq<u8>)
    ensures
        le_bytes(le_value(s), s.len()) == s,
        le_value(s) < byte_range(s.len()),
    decreases s.len(),
{
    if s.len() > 0 {
        lemma_bytes_of_value(s.skip(1));
        assert(le_value(s) / 256 == le_value(s.skip(1)));
        assert(seq![s[0]] + s.skip(1) =~= s);
    }
}

/// The first bytes of an encoding are the encoding at the smaller length.
pub proof fn lemma_le_bytes_prefix(value: nat, n: nat, m: nat)
    requires
        n <= m,
    ensures
        le_bytes(value, m).take(n as int) == le_bytes(value, n),
    decreases n,
{
    lemma_le_bytes_len(value, m);
    lemma_le_bytes_len(value, n);
    if n > 0 {
        lemma_le_bytes_prefix(value / 256, (n - 1) as nat, (m - 1) as nat);
        lemma_le_bytes_len(value / 256, (m - 1) as nat);
        let rest = le_bytes(value / 256, (m - 1) as nat);
        assert(le_bytes(value, m).take(n as int) =~= seq![(value % 256) as u8] + rest.take(n - 1));
    }
}

/// Zero bytes at the end do not change the denoted value.
pub proof fn lemma_le_value_padded(s: Seq<u8>, n: nat)
    ensures
        le_value(s + zeros(n)) == le_value(s),
    decreases s.len(), n,
{
    let p = s + zeros(n);
    if s.len() > 0 {
        lemma_le_value_padded(s.skip(1), n);
        assert(p.skip(1) =~= s.skip(1) + zeros(n));
    } else if n > 0 {
        lemma_le_value_padded(s, (n - 1) as nat);
        assert(p.skip(1) =~= s + zeros((n - 1) as nat));
    }
}

/// Two bytes, spelled out.
pub proof fn lemma_le_2(value: nat)
    ensures
        le_bytes(value, 2) == seq![(value % 256) as u8, (value / 256 % 256) as u8],
{
    reveal_with_fuel(le_bytes, 3);
    assert(le_bytes(value, 2) =~= seq![(value % 256) as u8, (value / 256 % 256) as u8]);
}

/// Four bytes, spelled out.
pub proof fn lemma_le_4(value: nat)
    ensures
        le_bytes(value, 4) == seq![
            (value % 256) as u8,
            (value / 256 % 256) as u8,
            (value / 256 / 256 % 256) as u8,
            (value / 256 / 256 / 256 % 256) as u8,
        ],
{
    reveal_with_fuel(le_bytes, 5);
    assert(le_bytes(value, 4) =~= seq![
        (value % 256) as u8,
        (value / 256 % 256) as u8,
        (value / 256 / 256 % 256) as u8,
        (value / 256 / 256 / 256 % 256) as u8,
    ]);
}

/// The value of two bytes, spelled out.
pub proof fn lemma_value_2(s: Seq<u8>)
    requires
        s.len() == 2,
    ensures
        le_value(s) == s[0] + 256 * s[1],
{
    reveal_with_fuel(le_value, 3);
}

/// The value of four bytes, spelled out.
pub proof fn lemma_value_4(s: Seq<u8>)
    requires
        s.len() == 4,
    ensures
        le_value(s) == s[0] + 256 * (s[1] + 256 * (s[2] + 256 * s[3])),
{
    reveal_with_fuel(le_value, 5);
}

/// A `u16` as two little-endian bytes.
pub fn u16_to_le(value: u16) -> (bytes: [u8; 2])
    ensures
        bytes@ == le_bytes(value as nat, 2),
{
    proof {
        lemma_le_2(value as nat);
    }
    [(value % 256) as u8, (value / 256) as u8]
}

/// A `u32` as four little-endian bytes.
pub fn u32_to_le(value: u32) -> (bytes: [u8; 4])
    ensures
        bytes@ == le_bytes(value as nat, 4),
{
    proof {
        lemma_le_4(value as nat);
    }
    let v1: u32 = value / 256;
    let v2: u32 = v1 / 256;
    let v3: u32 = v2 / 256;
    [(value % 256) as u8, (v1 % 256) as u8, (v2 % 256) as u8, v3 as u8]
}

/// A `u64` as eight little-endian bytes.
pub fn u64_to_le(value: u64) -> (bytes: [u8; 8])
    ensures
        bytes@ == le_bytes(value as nat, 8),
{
    let v1: u64 = value / 256;
    let v2: u64 = v1 / 256;
    let v3: u64 = v2 / 256;
    let v4: u64 = v3 / 256;
    let v5: u64 = v4 / 256;
    let v6: u64 = v5 / 256;
    let v7: u64 = v6 / 256;
    let bytes = [
        (value % 256) as u8,
        (v1 % 256) as u8,
        (v2 % 256) as u8,
        (v3 % 256) as u8,
        (v4 % 256) as u8,
        (v5 % 256) as u8,
        (v6 % 256) as u8,
        v7 as u8,
    ];
    proof {
        reveal_with_fuel(le_bytes, 9);
        assert(bytes@ =~= le_bytes(value as nat, 8));
    }
    bytes
}

/// The `u16` that two little-endian bytes denote.
pub fn u16_from_le(b0: u8, b1: u8) -> (value: u16)
    ensures
        value as nat == le_value(seq![b0, b1]),
{
    proof {
        lemma_value_2(seq![b0, b1]);
    }
    b0 as u16 + 256 * (b1 as u16)
}

/// The `u32` that four little-endian bytes denote.
pub fn u32_from_le(b0: u8, b1: u8, b2: u8, b3: u8) -> (value: u32)
    ensures
        value as nat == le_value(seq![b0, b1, b2, b3]),
{
    proof {
        lemma_value_4(seq![b0, b1, b2, b3]);
    }
    b0 as u32 + 256 * (b1 as u32 + 256 * (b2 as u32 + 256 * (b3 as u32)))
}

/// The `u64` that eight little-endian bytes denote.
pub fn u64_from_le(b: &[u8; 8]) -> (value: u64)
    ensures
        value as nat == le_value(b@),
{
    proof {
        reveal_with_fuel(le_value, 9);
    }
    let low: u64 = b[0] as u64 + 256 * (b[1] as u64 + 256 * (b[2] as u64 + 256 * (b[3] as u64)));
    let high: u64 = b[4] as u64 + 256 * (b[5] as u64 + 256 * (b[6] as u64 + 256 * (b[7] as u64)));
    low + 0x1_0000_0000 * high
}

/// Overwrites `dst` with `src` from the position `at` on.
pub fn copy_at(dst: &mut [u8], at: usize, src: &[u8])
    requires
        at + src@.len() <= old(dst)@.len(),
    ensures
        final(dst)@ == old(dst)@.take(at as int) + src@ + old(dst)@.skip(at + src@.len()),
{
    let ghost before = dst@;
    let room: usize = dst.len();
    let mut i: usize = 0;
    while i < src.len()
        invariant
            at + src@.len() <= before.len() == room,
            i <= src@.len(),
            dst@ == before.take(at as int) + src@.take(i as int) + before.skip(at + i),
        decreases src@.len() - i,
    {
        dst[at + i] = src[i];
        i += 1;
    }
    assert(src@.take(i as int) =~= src@);
}

} // verus!
