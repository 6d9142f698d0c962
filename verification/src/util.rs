use vstd::prelude::*;

use vstd::utf8::{decode_utf8, valid_utf8};

verus! {

/// Byte order of a multi-byte integer field.
#[derive(Debug, Clone, Copy, PartialEq, Eq, Structural)]
pub enum ByteOrder {
    LittleEndian,
    BigEndian,
}

/// Error for the checked readers: the slice length does not match the
/// operand width.
#[derive(Debug, Clone, Copy, PartialEq, Eq, Structural)]
pub enum BytesError {
    BufferLength,
}

/// The value of a two-byte little-endian integer.
pub open spec fn u16_le(b: Seq<u8>) -> int {
    b[0] + 0x100 * b[1]
}

/// The value of a two-byte field under the given order.
pub open spec fn u16_of_bytes(b: Seq<u8>, order: ByteOrder) -> int {
    match order {
        ByteOrder::LittleEndian => u16_le(b),
        ByteOrder::BigEndian => u16_le(b.reverse()),
    }
}

/// The value of a four-byte little-endian integer.
pub open spec fn u32_le(b: Seq<u8>) -> int {
    b[0] + 0x100 * b[1] + 0x1_0000 * b[2] + 0x100_0000 * b[3]
}

/// The value of a four-byte field under the given order.
pub open spec fn u32_of_bytes(b: Seq<u8>, order: ByteOrder) -> int {
    match order {
        ByteOrder::LittleEndian => u32_le(b),
        ByteOrder::BigEndian => u32_le(b.reverse()),
    }
}

/// The value of an eight-byte little-endian integer.
pub open spec fn u64_le(b: Seq<u8>) -> int {
    b[0] + 0x100 * b[1] + 0x1_0000 * b[2] + 0x100_0000 * b[3] + 0x1_0000_0000 * b[4]
        + 0x100_0000_0000 * b[5] + 0x1_0000_0000_0000 * b[6] + 0x100_0000_0000_0000 * b[7]
}

/// The value of an eight-byte field under the given order.
pub open spec fn u64_of_bytes(b: Seq<u8>, order: ByteOrder) -> int {
    match order {
        ByteOrder::LittleEndian => u64_le(b),
        ByteOrder::BigEndian => u64_le(b.reverse()),
    }
}

/// Fixed-width integers that can be decoded from a byte slice under a
/// chosen byte order.
pub trait FromBytes: Sized {
    /// The width of the encoded field in bytes.
    spec fn size() -> nat;

    /// The decoded value.
    spec fn value_of(b: Seq<u8>, order: ByteOrder) -> Self;

    /// Decode `bytes` under `byte_order`.
    fn from_bytes(bytes: &[u8], byte_order: &ByteOrder) -> (r: Self)
        requires
            bytes@.len() == Self::size(),
        ensures
            r == Self::value_of(bytes@, *byte_order),
    ;
}

impl FromBytes for u16 {
    open spec fn size() -> nat {
        2
    }

    open spec fn value_of(b: Seq<u8>, order: ByteOrder) -> u16 {
        u16_of_bytes(b, order) as u16
    }

    fn from_bytes(bytes: &[u8], byte_order: &ByteOrder) -> (r: Self) {
        let b0 = bytes[0] as u16;
        let b1 = bytes[1] as u16;
        match byte_order {
            ByteOrder::LittleEndian => b0 + 0x100 * b1,
            ByteOrder::BigEndian => {
                assert(bytes@.reverse()[0] == bytes@[1] && bytes@.reverse()[1] == bytes@[0]);
                b1 + 0x100 * b0
            },
        }
    }
}

impl FromBytes for u32 {
    open spec fn size() -> nat {
        4
    }

    open spec fn value_of(b: Seq<u8>, order: ByteOrder) -> u32 {
        u32_of_bytes(b, order) as u32
    }

    fn from_bytes(bytes: &[u8], byte_order: &ByteOrder) -> (r: Self) {
        let (b0, b1, b2, b3) = match byte_order {
            ByteOrder::LittleEndian => (
                bytes[0] as u32,
                bytes[1] as u32,
                bytes[2] as u32,
                bytes[3] as u32,
            ),
            ByteOrder::BigEndian => {
                proof {
                    let r = bytes@.reverse();
                    assert(r[0] == bytes@[3] && r[1] == bytes@[2] && r[2] == bytes@[1] && r[3]
                        == bytes@[0]);
                }
                (bytes[3] as u32, bytes[2] as u32, bytes[1] as u32, bytes[0] as u32)
            },
        };
        b0 + 0x100 * b1 + 0x1_0000 * b2 + 0x100_0000 * b3
    }
}

impl FromBytes for u64 {
    open spec fn size() -> nat {
        8
    }

    open spec fn value_of(b: Seq<u8>, order: ByteOrder) -> u64 {
        u64_of_bytes(b, order) as u64
    }

    fn from_bytes(bytes: &[u8], byte_order: &ByteOrder) -> (r: Self) {
        let mut v: [u64; 8] = [0; 8];
        let mut i: usize = 0;
        while i < 8
            invariant
                i <= 8,
                bytes@.len() == 8,
                forall|j: int| 0 <= j < i ==> v@[j] == bytes@[j],
            decreases 8 - i,
        {
            v[i] = bytes[i] as u64;
            i = i + 1;
        }
        let (c0, c1, c2, c3, c4, c5, c6, c7) = match byte_order {
            ByteOrder::LittleEndian => (v[0], v[1], v[2], v[3], v[4], v[5], v[6], v[7]),
            ByteOrder::BigEndian => {
                proof {
                    let r = bytes@.reverse();
                    assert(forall|j: int| 0 <= j < 8 ==> r[j] == bytes@[7 - j]);
                }
                (v[7], v[6], v[5], v[4], v[3], v[2], v[1], v[0])
            },
        };
        c0 + 0x100 * c1 + 0x1_0000 * c2 + 0x100_0000 * c3 + 0x1_0000_0000 * c4 + 0x100_0000_0000
            * c5 + 0x1_0000_0000_0000 * c6 + 0x100_0000_0000_0000 * c7
    }
}

/// Checked two-byte reader: rejects a slice whose length is not the
/// operand width, and otherwise returns exactly the encoded value.
pub fn read_u16(bytes: &[u8], order: &ByteOrder) -> (r: Result<u16, BytesError>)
    ensures
        bytes@.len() == 2 ==> (r matches Ok(v) && v as int == u16_of_bytes(bytes@, *order)),
        bytes@.len() != 2 ==> r == Err::<u16, BytesError>(BytesError::BufferLength),
{
    if bytes.len() != 2 {
        return Err(BytesError::BufferLength);
    }
    Ok(u16::from_bytes(bytes, order))
}

/// Checked four-byte reader.
pub fn read_u32(bytes: &[u8], order: &ByteOrder) -> (r: Result<u32, BytesError>)
    ensures
        bytes@.len() == 4 ==> (r matches Ok(v) && v as int == u32_of_bytes(bytes@, *order)),
        bytes@.len() != 4 ==> r == Err::<u32, BytesError>(BytesError::BufferLength),
{
    if bytes.len() != 4 {
        return Err(BytesError::BufferLength);
    }
    Ok(u32::from_bytes(bytes, order))
}

/// Checked eight-byte reader; yields the raw bit pattern of an IEEE
/// double, which the caller interprets.
pub fn read_f64_bits(bytes: &[u8], order: &ByteOrder) -> (r: Result<u64, BytesError>)
    ensures
        bytes@.len() == 8 ==> (r matches Ok(v) && v as int == u64_of_bytes(bytes@, *order)),
        bytes@.len() != 8 ==> r == Err::<u64, BytesError>(BytesError::BufferLength),
{
    if bytes.len() != 8 {
        return Err(BytesError::BufferLength);
    }
    Ok(u64::from_bytes(bytes, order))
}

/// Encode a 16-bit value under the given order.  Together with
/// `read_u16` this states the decode/encode round trip: reading the
/// written bytes under the same order gives back the value.
pub fn write_u16(x: u16, order: &ByteOrder) -> (r: Vec<u8>)
    ensures
        r@.len() == 2,
        u16_of_bytes(r@, *order) == x as int,
{
    let lo = (x % 0x100) as u8;
    let hi = (x / 0x100) as u8;
    let r = match order {
        ByteOrder::LittleEndian => vec![lo, hi],
        ByteOrder::BigEndian => vec![hi, lo],
    };
    proof {
        assert(r@.reverse().len() == 2);
        assert(r@.reverse()[0] == r@[1] && r@.reverse()[1] == r@[0]);
    }
    r
}

/// Encode a 32-bit value under the given order.
pub fn write_u32(x: u32, order: &ByteOrder) -> (r: Vec<u8>)
    ensures
        r@.len() == 4,
        u32_of_bytes(r@, *order) == x as int,
{
    let b0 = (x % 0x100) as u8;
    let b1 = ((x / 0x100) % 0x100) as u8;
    let b2 = ((x / 0x1_0000) % 0x100) as u8;
    let b3 = (x / 0x100_0000) as u8;
    let r = match order {
        ByteOrder::LittleEndian => vec![b0, b1, b2, b3],
        ByteOrder::BigEndian => vec![b3, b2, b1, b0],
    };
    proof {
        let s = r@.reverse();
        assert(s[0] == r@[3] && s[1] == r@[2] && s[2] == r@[1] && s[3] == r@[0]);
    }
    r
}

/// Encode an IEEE-double bit pattern under the given order.
#[verifier::rlimit(50)]
pub fn write_f64_bits(x: u64, order: &ByteOrder) -> (r: Vec<u8>)
    ensures
        r@.len() == 8,
        u64_of_bytes(r@, *order) == x as int,
{
    let q1 = x / 0x100;
    let q2 = q1 / 0x100;
    let q3 = q2 / 0x100;
    let q4 = q3 / 0x100;
    let q5 = q4 / 0x100;
    let q6 = q5 / 0x100;
    let q7 = q6 / 0x100;
    let b0 = (x % 0x100) as u8;
    let b1 = (q1 % 0x100) as u8;
    let b2 = (q2 % 0x100) as u8;
    let b3 = (q3 % 0x100) as u8;
    let b4 = (q4 % 0x100) as u8;
    let b5 = (q5 % 0x100) as u8;
    let b6 = (q6 % 0x100) as u8;
    let b7 = (q7 % 0x100) as u8;
    proof {
        assert(x == b0 + 0x100 * q1);
        assert(q1 == b1 + 0x100 * q2);
        assert(q2 == b2 + 0x100 * q3);
        assert(q3 == b3 + 0x100 * q4);
        assert(q4 == b4 + 0x100 * q5);
        assert(q5 == b5 + 0x100 * q6);
        assert(q6 == b6 + 0x100 * q7);
        assert(q7 == b7);
        assert(x == b0 + 0x100 * b1 + 0x1_0000 * b2 + 0x100_0000 * b3 + 0x1_0000_0000 * b4
            + 0x100_0000_0000 * b5 + 0x1_0000_0000_0000 * b6 + 0x100_0000_0000_0000 * b7);
    }
    let r = match order {
        ByteOrder::LittleEndian => vec![b0, b1, b2, b3, b4, b5, b6, b7],
        ByteOrder::BigEndian => vec![b7, b6, b5, b4, b3, b2, b1, b0],
    };
    proof {
        let s = r@.reverse();
        assert(forall|j: int| 0 <= j < 8 ==> s[j] == r@[7 - j]);
    }
    r
}

/// Relies on String::from_utf8: it returns the string decoded from the
/// bytes exactly when they are valid UTF-8.
#[verifier::external_body]
pub(crate) fn string_from_utf8(v: Vec<u8>) -> (r: Option<String>)
    ensures
        r is Some <==> valid_utf8(v@),
        r matches Some(s) ==> s@ == decode_utf8(v@),
{
    String::from_utf8(v).ok()
}

} // verus!
