//! Big-endian numbers of fixed width.

use vstd::prelude::*;

verus! {

/// The number that the two bytes at `offset` denote, most significant byte
/// first.
pub open spec fn big_endian_2(bytes: Seq<u8>, offset: int) -> int {
    bytes[offset] * 0x100 + bytes[offset + 1]
}

/// The number that the four bytes at `offset` denote, most significant byte
/// first.
pub open spec fn big_endian_4(bytes: Seq<u8>, offset: int) -> int {
    big_endian_2(bytes, offset) * 0x1_0000 + big_endian_2(bytes, offset + 2)
}

/// The number that the five bytes at `offset` denote, most significant byte
/// first.
pub open spec fn big_endian_5(bytes: Seq<u8>, offset: int) -> int {
    bytes[offset] * 0x1_0000_0000 + big_endian_4(bytes, offset + 1)
}

/// The number that the eight bytes at `offset` denote, most significant byte
/// first.
pub open spec fn big_endian_8(bytes: Seq<u8>, offset: int) -> int {
    big_endian_4(bytes, offset) * 0x1_0000_0000 + big_endian_4(bytes, offset + 4)
}

/// The signed reading of a 16-bit pattern.
pub open spec fn signed_16(value: int) -> int {
    if value >= 0x8000 {
        value - 0x1_0000
    } else {
        value
    }
}

/// The signed reading of a 32-bit pattern.
pub open spec fn signed_32(value: int) -> int {
    if value >= 0x8000_0000 {
        value - 0x1_0000_0000
    } else {
        value
    }
}

/// The signed reading of a 64-bit pattern.
pub open spec fn signed_64(value: int) -> int {
    if value >= 0x8000_0000_0000_0000 {
        value - 0x1_0000_0000_0000_0000
    } else {
        value
    }
}

/// Reads the two bytes at `offset` as one unsigned number.
fn read_2(buffer: &[u8], offset: usize) -> (value: u64)
    requires
        offset + 2 <= buffer@.len(),
    ensures
        value == big_endian_2(buffer@, offset as int),
        value < 0x1_0000,
{
    buffer[offset] as u64 * 0x100 + buffer[offset + 1] as u64
}

/// Reads the four bytes at `offset` as one unsigned number.
fn read_4(buffer: &[u8], offset: usize) -> (value: u64)
    requires
        offset + 4 <= buffer@.len(),
    ensures
        value == big_endian_4(buffer@, offset as int),
        value < 0x1_0000_0000,
{
    let _length: usize = buffer.len();
    read_2(buffer, offset) * 0x1_0000 + read_2(buffer, offset + 2)
}

/// Big-endian decoders of fixed width over a byte slice.
pub struct Deserializer;

impl Deserializer {
    /// Reads five bytes at `offset` as an unsigned number.
    pub fn get_five_bytes_long(buffer: &[u8], offset: usize) -> (value: i64)
        requires
            offset + 5 <= buffer@.len(),
        ensures
            value == big_endian_5(buffer@, offset as int),
            0 <= value < 0x100_0000_0000,
    {
        (buffer[offset] as u64 * 0x1_0000_0000 + read_4(buffer, offset + 1)) as i64
    }

    /// Reads four bytes at `offset` as a signed number.
    pub fn get_int(buffer: &[u8], offset: usize) -> (value: i32)
        requires
            offset + 4 <= buffer@.len(),
        ensures
            value == signed_32(big_endian_4(buffer@, offset as int)),
    {
        let raw: u64 = read_4(buffer, offset);
        if raw >= 0x8000_0000 {
            (raw as i64 - 0x1_0000_0000) as i32
        } else {
            raw as i32
        }
    }

    /// Reads eight bytes at `offset` as a signed number.
    pub fn get_long(buffer: &[u8], offset: usize) -> (value: i64)
        requires
            offset + 8 <= buffer@.len(),
        ensures
            value == signed_64(big_endian_8(buffer@, offset as int)),
    {
        let _length: usize = buffer.len();
        let raw: u64 = read_4(buffer, offset) * 0x1_0000_0000 + read_4(buffer, offset + 4);
        if raw >= 0x8000_0000_0000_0000 {
            (raw - 0x8000_0000_0000_0000) as i64 + i64::MIN
        } else {
            raw as i64
        }
    }

    /// Reads two bytes at `offset` as a signed number.
    pub fn get_short(buffer: &[u8], offset: usize) -> (value: i16)
        requires
            offset + 2 <= buffer@.len(),
        ensures
            value == signed_16(big_endian_2(buffer@, offset as int)),
    {
        let raw: u64 = read_2(buffer, offset);
        if raw >= 0x8000 {
            (raw as i64 - 0x1_0000) as i16
        } else {
            raw as i16
        }
    }
}

} // verus!
