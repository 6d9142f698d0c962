use vstd::prelude::*;

use crate::geotiff::error::{HeaderErrorState, TIFFErrorState};
use crate::util::{u16_of_bytes, u32_of_bytes, ByteOrder, FromBytes};
use vstd::slice::slice_subrange;

verus! {

/// The eight-byte header declares a byte order: `II` for little-endian
/// or `MM` for big-endian.
pub open spec fn header_order(b: Seq<u8>) -> Option<ByteOrder> {
    if b[0] == 73 && b[1] == 73 {
        Some(ByteOrder::LittleEndian)
    } else if b[0] == 77 && b[1] == 77 {
        Some(ByteOrder::BigEndian)
    } else {
        None
    }
}

/// The declared order where one is declared; little-endian otherwise.
pub open spec fn the_header_order(b: Seq<u8>) -> ByteOrder {
    if b[0] == 77 && b[1] == 77 {
        ByteOrder::BigEndian
    } else {
        ByteOrder::LittleEndian
    }
}

/// Bytes 2..4 must encode the magic number 42 under the declared order.
pub open spec fn header_magic_ok(b: Seq<u8>, order: ByteOrder) -> bool {
    u16_of_bytes(b.subrange(2, 4), order) == 42
}

/// The absolute file offset of the first image file directory, from
/// bytes 4..8.
pub open spec fn header_ifd_offset(b: Seq<u8>, order: ByteOrder) -> int {
    u32_of_bytes(b.subrange(4, 8), order)
}

/// Parse the eight-byte TIFF header: the byte-order marker, the magic
/// number 42, and the offset of the first image file directory.
pub fn parse_header(buffer: &[u8]) -> (r: Result<(ByteOrder, u32), TIFFErrorState>)
    ensures
        buffer@.len() != 8 ==> r == Err::<(ByteOrder, u32), TIFFErrorState>(
            TIFFErrorState::HeaderError(HeaderErrorState::InvalidLength(buffer@.len() as usize)),
        ),
        buffer@.len() == 8 && header_order(buffer@) is None ==> r == Err::<
            (ByteOrder, u32),
            TIFFErrorState,
        >(
            TIFFErrorState::HeaderError(
                HeaderErrorState::UnexpectedByteOrder([buffer@[0], buffer@[1]]),
            ),
        ),
        buffer@.len() == 8 && header_order(buffer@) is Some && !header_magic_ok(
            buffer@,
            the_header_order(buffer@),
        ) ==> r == Err::<(ByteOrder, u32), TIFFErrorState>(
            TIFFErrorState::HeaderError(
                HeaderErrorState::UnexpectedMagicNumber([buffer@[2], buffer@[3]]),
            ),
        ),
        buffer@.len() == 8 && header_order(buffer@) is Some && header_magic_ok(
            buffer@,
            the_header_order(buffer@),
        ) ==> r == Ok::<(ByteOrder, u32), TIFFErrorState>(
            (
                the_header_order(buffer@),
                header_ifd_offset(buffer@, the_header_order(buffer@)) as u32,
            ),
        ),
{
    if buffer.len() != 8 {
        return Err(TIFFErrorState::HeaderError(HeaderErrorState::InvalidLength(buffer.len())));
    }
    let byte_order = if buffer[0] == 73 && buffer[1] == 73 {
        ByteOrder::LittleEndian
    } else if buffer[0] == 77 && buffer[1] == 77 {
        ByteOrder::BigEndian
    } else {
        return Err(
            TIFFErrorState::HeaderError(
                HeaderErrorState::UnexpectedByteOrder([buffer[0], buffer[1]]),
            ),
        );
    };
    let magic_ok = match byte_order {
        ByteOrder::LittleEndian => buffer[2] == 42 && buffer[3] == 0,
        ByteOrder::BigEndian => buffer[2] == 0 && buffer[3] == 42,
    };
    if !magic_ok {
        return Err(
            TIFFErrorState::HeaderError(
                HeaderErrorState::UnexpectedMagicNumber([buffer[2], buffer[3]]),
            ),
        );
    }
    proof {
        let m = buffer@.subrange(2, 4);
        assert(m[0] == buffer@[2] && m[1] == buffer@[3]);
        assert(m.reverse()[0] == buffer@[3] && m.reverse()[1] == buffer@[2]);
    }
    let ifd_offset = u32::from_bytes(slice_subrange(buffer, 4, 8), &byte_order);
    Ok((byte_order, ifd_offset))
}

} // verus!
