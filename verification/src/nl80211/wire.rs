//! Fixed-width integers as they lie in a netlink message: little-endian, the
//! byte order of the hosts this daemon runs on.

use vstd::prelude::*;
use crate::nl80211::error::DecodeError;

verus! {

/// The two bytes of a 16-bit value.
#[verifier::opaque]
pub open spec fn u16_le(value: u16) -> Seq<u8> {
    seq![(value % 256) as u8, (value / 256) as u8]
}

/// The four bytes of a 32-bit value.
#[verifier::opaque]
pub open spec fn u32_le(value: u32) -> Seq<u8> {
    seq![
        (value % 256) as u8,
        (value / 256 % 256) as u8,
        (value / 256 / 256 % 256) as u8,
        (value / 256 / 256 / 256) as u8,
    ]
}

/// The eight bytes of a 64-bit value.
pub open spec fn u64_le(value: u64) -> Seq<u8> {
    u32_le((value % 4294967296) as u32) + u32_le((value / 4294967296) as u32)
}

/// The four bytes of a signed 32-bit value, in two's complement.
pub open spec fn i32_le(value: i32) -> Seq<u8> {
    u32_le(unsigned_of(value))
}

/// The unsigned value with the same 32 bits.
pub open spec fn unsigned_of(value: i32) -> u32 {
    if value < 0 {
        (value + 4294967296) as u32
    } else {
        value as u32
    }
}

/// The signed value with the same 32 bits.
pub open spec fn signed_of(value: u32) -> i32 {
    if value >= 2147483648 {
        (value - 4294967296) as i32
    } else {
        value as i32
    }
}

/// The value that two bytes stand for.
#[verifier::opaque]
pub open spec fn u16_value(bytes: Seq<u8>) -> u16
    recommends
        bytes.len() == 2,
{
    (bytes[0] + 256 * bytes[1]) as u16
}

/// The value that four bytes stand for.
#[verifier::opaque]
pub open spec fn u32_value(bytes: Seq<u8>) -> u32
    recommends
        bytes.len() == 4,
{
    (bytes[0] + 256 * (bytes[1] + 256 * (bytes[2] + 256 * bytes[3]))) as u32
}

/// The value that eight bytes stand for.
pub open spec fn u64_value(bytes: Seq<u8>) -> u64
    recommends
        bytes.len() == 8,
{
    (u32_value(bytes.subrange(0, 4)) + 4294967296 * u32_value(bytes.subrange(4, 8))) as u64
}

/// The signed value that four bytes stand for.
pub open spec fn i32_value(bytes: Seq<u8>) -> i32
    recommends
        bytes.len() == 4,
{
    signed_of(u32_value(bytes))
}

/// `n` rounded up to the next multiple of four, the alignment of netlink.
pub open spec fn align4(n: int) -> int {
    (n + 3) / 4 * 4
}

/// How far a record of `len` bytes reaches in a buffer of `total` bytes, its
/// padding included; the last record of a buffer may lack its padding.
pub open spec fn stride(len: int, total: int) -> int {
    if align4(len) <= total {
        align4(len)
    } else {
        total
    }
}

/// `count` zero bytes.
pub open spec fn zeros(count: int) -> Seq<u8> {
    Seq::new(count as nat, |i: int| 0u8)
}

/// Two bytes come out of a 16-bit value, and decoding them gives it back.
pub proof fn u16_round_trip(value: u16)
    ensures
        u16_le(value).len() == 2,
        u16_value(u16_le(value)) == value,
{
    reveal(u16_le);
    reveal(u16_value);
}

/// Four bytes come out of a 32-bit value, and decoding them gives it back.
pub proof fn u32_round_trip(value: u32)
    ensures
        u32_le(value).len() == 4,
        u32_value(u32_le(value)) == value,
{
    reveal(u32_le);
    reveal(u32_value);
    let q1 = value / 256;
    let q2 = q1 / 256;
    let q3 = q2 / 256;
    assert(value == 256 * q1 + value % 256);
    assert(q1 == 256 * q2 + q1 % 256);
    assert(q2 == 256 * q3 + q2 % 256);
    assert(q3 < 256);
    let bytes = u32_le(value);
    assert(bytes[0] == value % 256);
    assert(bytes[1] == q1 % 256);
    assert(bytes[2] == q2 % 256);
    assert(bytes[3] == q3);
}

/// Four bytes come out of a signed 32-bit value, and decoding them gives it
/// back.
pub proof fn i32_round_trip(value: i32)
    ensures
        i32_le(value).len() == 4,
        i32_value(i32_le(value)) == value,
{
    u32_round_trip(unsigned_of(value));
}

/// Eight bytes come out of a 64-bit value, and decoding them gives it back.
pub proof fn u64_round_trip(value: u64)
    ensures
        u64_le(value).len() == 8,
        u64_value(u64_le(value)) == value,
{
    let low = (value % 4294967296) as u32;
    let high = (value / 4294967296) as u32;
    u32_round_trip(low);
    u32_round_trip(high);
    assert(u64_le(value).subrange(0, 4) =~= u32_le(low));
    assert(u64_le(value).subrange(4, 8) =~= u32_le(high));
}

/// Encoding the value of two bytes gives the bytes back.
pub proof fn u16_bytes_round_trip(bytes: Seq<u8>)
    requires
        bytes.len() == 2,
    ensures
        u16_le(u16_value(bytes)) == bytes,
{
    reveal(u16_le);
    reveal(u16_value);
    assert(u16_le(u16_value(bytes)) =~= bytes);
}

/// Encoding the value of four bytes gives the bytes back, read as unsigned
/// or as signed.
pub proof fn u32_bytes_round_trip(bytes: Seq<u8>)
    requires
        bytes.len() == 4,
    ensures
        u32_le(u32_value(bytes)) == bytes,
        i32_le(i32_value(bytes)) == bytes,
{
    reveal(u32_le);
    reveal(u32_value);
    let k2 = bytes[2] + 256 * bytes[3];
    let k1 = bytes[1] + 256 * k2;
    let value = bytes[0] + 256 * k1;
    assert(0 <= k2 < 65536);
    assert(0 <= k1 < 16777216);
    assert(0 <= value < 4294967296);
    assert(value % 256 == bytes[0] && value / 256 == k1);
    assert(k1 % 256 == bytes[1] && k1 / 256 == k2);
    assert(k2 % 256 == bytes[2] && k2 / 256 == bytes[3]);
    assert(u32_value(bytes) == value);
    assert(u32_le(value as u32) =~= bytes);
    assert(unsigned_of(signed_of(value as u32)) == value);
}

/// Encoding the value of eight bytes gives the bytes back.
pub proof fn u64_bytes_round_trip(bytes: Seq<u8>)
    requires
        bytes.len() == 8,
    ensures
        u64_le(u64_value(bytes)) == bytes,
{
    let low = bytes.subrange(0, 4);
    let high = bytes.subrange(4, 8);
    u32_bytes_round_trip(low);
    u32_bytes_round_trip(high);
    let l = u32_value(low);
    let h = u32_value(high);
    let value = l + 4294967296 * h;
    assert(value % 4294967296 == l);
    assert(value / 4294967296 == h);
    assert(u64_value(bytes) == value);
    assert(u64_le(u64_value(bytes)) =~= low + high);
    assert(low + high =~= bytes);
}

/// Appends the two bytes of `value`.
pub fn push_u16(out: &mut Vec<u8>, value: u16)
    ensures
        final(out)@ == old(out)@ + u16_le(value),
{
    out.push((value % 256) as u8);
    out.push((value / 256) as u8);
    proof {
        reveal(u16_le);
        assert(out@ =~= old(out)@ + u16_le(value));
    }
}

/// Appends the four bytes of `value`.
pub fn push_u32(out: &mut Vec<u8>, value: u32)
    ensures
        final(out)@ == old(out)@ + u32_le(value),
{
    out.push((value % 256) as u8);
    out.push((value / 256 % 256) as u8);
    out.push((value / 256 / 256 % 256) as u8);
    out.push((value / 256 / 256 / 256) as u8);
    proof {
        reveal(u32_le);
        assert(out@ =~= old(out)@ + u32_le(value));
    }
}

/// Appends the zero bytes that pad a record of `len` bytes to a multiple of
/// four.
pub fn push_padding(out: &mut Vec<u8>, len: usize)
    ensures
        final(out)@ == old(out)@ + zeros(align4(len as int) - len),
{
    let over: usize = len % 4;
    let pad: usize = if over == 0 {
        0
    } else {
        4 - over
    };
    assert(pad == align4(len as int) - len);
    let mut i: usize = 0;
    assert(out@ =~= old(out)@ + zeros(0));
    while i < pad
        invariant
            i <= pad,
            out@ == old(out)@ + zeros(i as int),
        decreases pad - i,
    {
        out.push(0u8);
        assert(out@ =~= old(out)@ + zeros(i + 1));
        i += 1;
    }
}

/// How far a record of `len` bytes reaches when `remaining` bytes are left.
pub fn stride_within(len: usize, remaining: usize) -> (step: usize)
    ensures
        step == stride(len as int, remaining as int),
        step <= remaining,
        len <= remaining ==> len <= step,
{
    if len > remaining {
        return remaining;
    }
    let over: usize = len % 4;
    if over == 0 {
        len
    } else if 4 - over <= remaining - len {
        len + (4 - over)
    } else {
        remaining
    }
}

/// Reads a 16-bit value at `at`; the caller has checked that it is there.
pub fn u16_at(bytes: &[u8], at: usize) -> (value: u16)
    requires
        at + 2 <= bytes@.len(),
    ensures
        value == u16_value(bytes@.subrange(at as int, at + 2)),
{
    let low: u16 = bytes[at] as u16;
    let high: u16 = bytes[at + 1] as u16;
    proof {
        reveal(u16_value);
    }
    low + 256 * high
}

/// Reads a 32-bit value at `at`; the caller has checked that it is there.
pub fn u32_at(bytes: &[u8], at: usize) -> (value: u32)
    requires
        at + 4 <= bytes@.len(),
    ensures
        value == u32_value(bytes@.subrange(at as int, at + 4)),
{
    let b0: u32 = bytes[at] as u32;
    let b1: u32 = bytes[at + 1] as u32;
    let b2: u32 = bytes[at + 2] as u32;
    let b3: u32 = bytes[at + 3] as u32;
    proof {
        reveal(u32_value);
    }
    b0 + 256 * (b1 + 256 * (b2 + 256 * b3))
}

/// A payload read as an unsigned 32-bit value: exactly four bytes, or an error.
pub fn read_u32(payload: &[u8]) -> (result: Result<u32, DecodeError>)
    ensures
        payload@.len() == 4 ==> result == Ok::<u32, DecodeError>(u32_value(payload@)),
        payload@.len() != 4 ==> result == Err::<u32, DecodeError>(DecodeError::WrongWidth),
{
    if payload.len() != 4 {
        return Err(DecodeError::WrongWidth);
    }
    assert(payload@.subrange(0, 4) =~= payload@);
    Ok(u32_at(payload, 0))
}

/// A payload read as a signed 32-bit value: exactly four bytes, or an error.
pub fn read_i32(payload: &[u8]) -> (result: Result<i32, DecodeError>)
    ensures
        payload@.len() == 4 ==> result == Ok::<i32, DecodeError>(i32_value(payload@)),
        payload@.len() != 4 ==> result == Err::<i32, DecodeError>(DecodeError::WrongWidth),
{
    if payload.len() != 4 {
        return Err(DecodeError::WrongWidth);
    }
    assert(payload@.subrange(0, 4) =~= payload@);
    let raw: u32 = u32_at(payload, 0);
    if raw >= 2147483648 {
        Ok((raw as i64 - 4294967296) as i32)
    } else {
        Ok(raw as i32)
    }
}

/// A payload read as an unsigned 64-bit value: exactly eight bytes, or an error.
pub fn read_u64(payload: &[u8]) -> (result: Result<u64, DecodeError>)
    ensures
        payload@.len() == 8 ==> result == Ok::<u64, DecodeError>(u64_value(payload@)),
        payload@.len() != 8 ==> result == Err::<u64, DecodeError>(DecodeError::WrongWidth),
{
    if payload.len() != 8 {
        return Err(DecodeError::WrongWidth);
    }
    let low: u64 = u32_at(payload, 0) as u64;
    let high: u64 = u32_at(payload, 4) as u64;
    Ok(low + 4294967296 * high)
}

} // verus!
