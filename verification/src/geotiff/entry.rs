use vstd::prelude::*;

use crate::geotiff::error::{IFDEntryErrorState, TIFFErrorState};
use crate::util::{string_from_utf8, u16_of_bytes, u32_of_bytes, u64_of_bytes, ByteOrder, FromBytes};
use vstd::slice::slice_subrange;
use vstd::utf8::{decode_utf8, valid_utf8};

verus! {

/// The field type of an image file directory entry.
#[derive(Debug, Clone, Copy, PartialEq, Eq, Structural)]
pub enum EntryType {
    BYTES,
    ASCII,
    SHORT,
    LONG,
    RATIONAL,
    UNDEFINED,
    DOUBLE,
}

/// A resolved entry value.  `DOUBLE` holds the raw bit patterns of the
/// IEEE doubles; interpreting them is the caller's concern.
#[derive(Debug, Clone, PartialEq)]
pub enum EntryValue {
    BYTES(Vec<u8>),
    ASCII(Vec<String>),
    SHORT(Vec<u16>),
    LONG(Vec<u32>),
    RATIONAL(Vec<(u32, u32)>),
    UNDEFINED(Vec<u8>),
    DOUBLE(Vec<u64>),
}

/// One 12-byte image file directory entry.  The four-byte slot holds
/// the value itself when it fits, and a file offset otherwise; `value`
/// caches the resolved value.
#[derive(Debug, Clone)]
pub struct IFDEntry {
    pub tag: u16,
    pub count: u32,
    pub field_type: EntryType,
    pub associated_bytes: [u8; 4],
    pub value: Option<EntryValue>,
}

/// The field type a 16-bit type code denotes, if any.
pub open spec fn entry_type_of(code: int) -> Option<EntryType> {
    if code == 1 {
        Some(EntryType::BYTES)
    } else if code == 2 {
        Some(EntryType::ASCII)
    } else if code == 3 {
        Some(EntryType::SHORT)
    } else if code == 4 {
        Some(EntryType::LONG)
    } else if code == 5 {
        Some(EntryType::RATIONAL)
    } else if code == 7 {
        Some(EntryType::UNDEFINED)
    } else if code == 12 {
        Some(EntryType::DOUBLE)
    } else {
        None
    }
}

/// Size in bytes of one element of the given field type.
pub open spec fn entry_elem_size(t: EntryType) -> int {
    match t {
        EntryType::BYTES => 1,
        EntryType::ASCII => 1,
        EntryType::SHORT => 2,
        EntryType::LONG => 4,
        EntryType::RATIONAL => 8,
        EntryType::UNDEFINED => 1,
        EntryType::DOUBLE => 8,
    }
}

/// Whether the value lives in the four-byte slot itself rather than
/// behind a file offset.
pub open spec fn entry_inline(t: EntryType, count: int) -> bool {
    match t {
        EntryType::BYTES => count < 5,
        EntryType::ASCII => count < 5,
        EntryType::UNDEFINED => count < 5,
        EntryType::SHORT => count < 3,
        EntryType::LONG => count == 1,
        EntryType::RATIONAL => false,
        EntryType::DOUBLE => false,
    }
}

/// The file offset held in the four-byte slot.
pub open spec fn entry_offset(a: Seq<u8>, order: ByteOrder) -> int {
    u32_of_bytes(a, order)
}

/// The byte region an `ASCII` entry decodes: the slot itself when
/// inline, else `count` bytes at the slot's offset.
pub open spec fn entry_ascii_src(count: int, a: Seq<u8>, order: ByteOrder, file: Seq<u8>) -> Seq<
    u8,
> {
    if count < 5 {
        a
    } else {
        file.subrange(entry_offset(a, order), entry_offset(a, order) + count)
    }
}

/// Whether the entry's value can be materialized from the file: it is
/// inline, or empty, or its byte range lies within the file; an `ASCII`
/// entry additionally requires its bytes to be valid UTF-8.
pub open spec fn entry_resolvable(
    t: EntryType,
    count: int,
    a: Seq<u8>,
    order: ByteOrder,
    file: Seq<u8>,
) -> bool {
    &&& (entry_inline(t, count) || count == 0 || entry_offset(a, order) + count * entry_elem_size(
        t,
    ) <= file.len())
    &&& (t == EntryType::ASCII ==> valid_utf8(entry_ascii_src(count, a, order, file)))
}

/// What the resolved value of an entry is, relative to the file image.
pub open spec fn entry_value_ok(
    t: EntryType,
    count: int,
    a: Seq<u8>,
    order: ByteOrder,
    file: Seq<u8>,
    v: EntryValue,
) -> bool {
    let off = entry_offset(a, order);
    match t {
        EntryType::BYTES => v matches EntryValue::BYTES(xs) && (if count < 5 {
            xs@ == a
        } else {
            xs@ == file.subrange(off, off + count)
        }),
        EntryType::UNDEFINED => v matches EntryValue::UNDEFINED(xs) && (if count < 5 {
            xs@ == a
        } else {
            xs@ == file.subrange(off, off + count)
        }),
        EntryType::ASCII => v matches EntryValue::ASCII(ss) && ss@.len() == 1 && ss@[0]@
            == decode_utf8(entry_ascii_src(count, a, order, file)),
        EntryType::SHORT => v matches EntryValue::SHORT(xs) && xs@.len() == count && (if count
            < 3 {
            forall|i: int|
                0 <= i < count ==> xs@[i] == u16_of_bytes(a.subrange(2 * i, 2 * i + 2), order)
        } else {
            forall|i: int|
                0 <= i < count ==> xs@[i] == u16_of_bytes(
                    file.subrange(off + 2 * i, off + 2 * i + 2),
                    order,
                )
        }),
        EntryType::LONG => v matches EntryValue::LONG(xs) && xs@.len() == count && (if count
            == 1 {
            xs@[0] == u32_of_bytes(a, order)
        } else {
            forall|i: int|
                0 <= i < count ==> xs@[i] == u32_of_bytes(
                    file.subrange(off + 4 * i, off + 4 * i + 4),
                    order,
                )
        }),
        EntryType::RATIONAL => v matches EntryValue::RATIONAL(xs) && xs@.len() == count && forall|
            i: int,
        |
            0 <= i < count ==> xs@[i] == (
                u32_of_bytes(file.subrange(off + 8 * i, off + 8 * i + 4), order) as u32,
                u32_of_bytes(file.subrange(off + 8 * i + 4, off + 8 * i + 8), order) as u32,
            ),
        EntryType::DOUBLE => v matches EntryValue::DOUBLE(xs) && xs@.len() == count && forall|
            i: int,
        |
            0 <= i < count ==> xs@[i] == u64_of_bytes(
                file.subrange(off + 8 * i, off + 8 * i + 8),
                order,
            ),
    }
}

fn read_bytes_vec(file: &[u8], base: usize, n: usize) -> (v: Vec<u8>)
    requires
        base + n <= file@.len(),
    ensures
        v@ == file@.subrange(base as int, base + n),
{
    let flen: usize = file.len();
    let mut v: Vec<u8> = Vec::new();
    let mut i: usize = 0;
    while i < n
        invariant
            i <= n,
            base + n <= file@.len(),
            file@.len() == flen,
            v@.len() == i,
            forall|j: int| 0 <= j < i ==> v@[j] == file@[base + j],
        decreases n - i,
    {
        v.push(file[base + i]);
        i = i + 1;
    }
    proof {
        assert(v@ =~= file@.subrange(base as int, base + n));
    }
    v
}

fn read_shorts(file: &[u8], base: usize, n: usize, order: &ByteOrder) -> (v: Vec<u16>)
    requires
        base + 2 * n <= file@.len(),
    ensures
        v@.len() == n,
        forall|i: int|
            0 <= i < n ==> v@[i] == u16_of_bytes(
                file@.subrange(base + 2 * i, base + 2 * i + 2),
                *order,
            ),
{
    let flen: usize = file.len();
    let mut v: Vec<u16> = Vec::new();
    let mut i: usize = 0;
    while i < n
        invariant
            i <= n,
            base + 2 * n <= file@.len(),
            file@.len() == flen,
            v@.len() == i,
            forall|j: int|
                0 <= j < i ==> v@[j] == u16_of_bytes(
                    file@.subrange(base + 2 * j, base + 2 * j + 2),
                    *order,
                ),
        decreases n - i,
    {
        v.push(u16::from_bytes(slice_subrange(file, base + 2 * i, base + 2 * i + 2), order));
        i = i + 1;
    }
    v
}

fn read_longs(file: &[u8], base: usize, n: usize, order: &ByteOrder) -> (v: Vec<u32>)
    requires
        base + 4 * n <= file@.len(),
    ensures
        v@.len() == n,
        forall|i: int|
            0 <= i < n ==> v@[i] == u32_of_bytes(
                file@.subrange(base + 4 * i, base + 4 * i + 4),
                *order,
            ),
{
    let flen: usize = file.len();
    let mut v: Vec<u32> = Vec::new();
    let mut i: usize = 0;
    while i < n
        invariant
            i <= n,
            base + 4 * n <= file@.len(),
            file@.len() == flen,
            v@.len() == i,
            forall|j: int|
                0 <= j < i ==> v@[j] == u32_of_bytes(
                    file@.subrange(base + 4 * j, base + 4 * j + 4),
                    *order,
                ),
        decreases n - i,
    {
        v.push(u32::from_bytes(slice_subrange(file, base + 4 * i, base + 4 * i + 4), order));
        i = i + 1;
    }
    v
}

fn read_rationals(file: &[u8], base: usize, n: usize, order: &ByteOrder) -> (v: Vec<(u32, u32)>)
    requires
        base + 8 * n <= file@.len(),
    ensures
        v@.len() == n,
        forall|i: int|
            0 <= i < n ==> v@[i] == (
                u32_of_bytes(file@.subrange(base + 8 * i, base + 8 * i + 4), *order) as u32,
                u32_of_bytes(file@.subrange(base + 8 * i + 4, base + 8 * i + 8), *order) as u32,
            ),
{
    let flen: usize = file.len();
    let mut v: Vec<(u32, u32)> = Vec::new();
    let mut i: usize = 0;
    while i < n
        invariant
            i <= n,
            base + 8 * n <= file@.len(),
            file@.len() == flen,
            v@.len() == i,
            forall|j: int|
                0 <= j < i ==> v@[j] == (
                    u32_of_bytes(file@.subrange(base + 8 * j, base + 8 * j + 4), *order) as u32,
                    u32_of_bytes(file@.subrange(base + 8 * j + 4, base + 8 * j + 8), *order) as u32,
                ),
        decreases n - i,
    {
        let num = u32::from_bytes(slice_subrange(file, base + 8 * i, base + 8 * i + 4), order);
        let den = u32::from_bytes(slice_subrange(file, base + 8 * i + 4, base + 8 * i + 8), order);
        v.push((num, den));
        i = i + 1;
    }
    v
}

fn read_doubles(file: &[u8], base: usize, n: usize, order: &ByteOrder) -> (v: Vec<u64>)
    requires
        base + 8 * n <= file@.len(),
    ensures
        v@.len() == n,
        forall|i: int|
            0 <= i < n ==> v@[i] == u64_of_bytes(
                file@.subrange(base + 8 * i, base + 8 * i + 8),
                *order,
            ),
{
    let flen: usize = file.len();
    let mut v: Vec<u64> = Vec::new();
    let mut i: usize = 0;
    while i < n
        invariant
            i <= n,
            base + 8 * n <= file@.len(),
            file@.len() == flen,
            v@.len() == i,
            forall|j: int|
                0 <= j < i ==> v@[j] == u64_of_bytes(
                    file@.subrange(base + 8 * j, base + 8 * j + 8),
                    *order,
                ),
        decreases n - i,
    {
        v.push(u64::from_bytes(slice_subrange(file, base + 8 * i, base + 8 * i + 8), order));
        i = i + 1;
    }
    v
}

impl IFDEntry {
    /// Parse one 12-byte directory entry: tag, field type, count and
    /// the four-byte value slot.  The value is not resolved here.
    pub fn new(entry_buf: &[u8], byte_order: &ByteOrder) -> (r: Result<IFDEntry, TIFFErrorState>)
        ensures
            entry_buf@.len() != 12 ==> r == Err::<IFDEntry, TIFFErrorState>(
                TIFFErrorState::IFDEntryError(
                    IFDEntryErrorState::InvalidLength(entry_buf@.len() as usize),
                ),
            ),
            entry_buf@.len() == 12 && entry_type_of(
                u16_of_bytes(entry_buf@.subrange(2, 4), *byte_order),
            ) is None ==> r == Err::<IFDEntry, TIFFErrorState>(
                TIFFErrorState::IFDEntryError(
                    IFDEntryErrorState::UnexpectedEntryType(
                        u16_of_bytes(entry_buf@.subrange(2, 4), *byte_order) as u16,
                    ),
                ),
            ),
            entry_buf@.len() == 12 ==> (entry_type_of(
                u16_of_bytes(entry_buf@.subrange(2, 4), *byte_order),
            ) matches Some(ft) ==> r matches Ok(e) && e.tag == u16_of_bytes(
                entry_buf@.subrange(0, 2),
                *byte_order,
            ) && e.field_type == ft && e.count == u32_of_bytes(
                entry_buf@.subrange(4, 8),
                *byte_order,
            ) && e.associated_bytes@ == entry_buf@.subrange(8, 12) && e.value is None),
    {
        if entry_buf.len() != 12 {
            return Err(
                TIFFErrorState::IFDEntryError(IFDEntryErrorState::InvalidLength(entry_buf.len())),
            );
        }
        let tag = u16::from_bytes(slice_subrange(entry_buf, 0, 2), byte_order);
        let type_code = u16::from_bytes(slice_subrange(entry_buf, 2, 4), byte_order);
        let field_type = match type_code {
            1 => EntryType::BYTES,
            2 => EntryType::ASCII,
            3 => EntryType::SHORT,
            4 => EntryType::LONG,
            5 => EntryType::RATIONAL,
            7 => EntryType::UNDEFINED,
            12 => EntryType::DOUBLE,
            _ => {
                return Err(
                    TIFFErrorState::IFDEntryError(
                        IFDEntryErrorState::UnexpectedEntryType(type_code),
                    ),
                );
            },
        };
        let count = u32::from_bytes(slice_subrange(entry_buf, 4, 8), byte_order);
        let associated_bytes: [u8; 4] = [entry_buf[8], entry_buf[9], entry_buf[10], entry_buf[11]];
        proof {
            assert(associated_bytes@ =~= entry_buf@.subrange(8, 12));
        }
        Ok(IFDEntry { tag, count, field_type, associated_bytes, value: None })
    }

    /// Materialize the entry's value from the in-memory file image:
    /// from the four-byte slot when the value fits there, else from the
    /// offset the slot holds.  The result is cached in `value`; a
    /// second call returns the cached value without touching the file.
    pub fn resolve<'a>(&'a mut self, byte_order: &ByteOrder, file: &[u8]) -> (r: Result<
        &'a EntryValue,
        TIFFErrorState,
    >)
        ensures
            old(self).value matches Some(cv) ==> (r matches Ok(v) && *v == cv && *final(self) == *old(
                self,
            )),
            old(self).value is None && entry_resolvable(
                old(self).field_type,
                old(self).count as int,
                old(self).associated_bytes@,
                *byte_order,
                file@,
            ) ==> (r matches Ok(v) && entry_value_ok(
                old(self).field_type,
                old(self).count as int,
                old(self).associated_bytes@,
                *byte_order,
                file@,
                *v,
            ) && final(self).value == Some(*v) && final(self).tag == old(self).tag
                && final(self).count == old(self).count && final(self).field_type == old(
                self,
            ).field_type && final(self).associated_bytes == old(self).associated_bytes),
            old(self).value is None && !entry_resolvable(
                old(self).field_type,
                old(self).count as int,
                old(self).associated_bytes@,
                *byte_order,
                file@,
            ) ==> r == Err::<&'a EntryValue, TIFFErrorState>(
                TIFFErrorState::IFDEntryError(
                    IFDEntryErrorState::MissingAssociatedValue(old(self).tag),
                ),
            ) && *final(self) == *old(self),
    {
        if self.value.is_some() {
            return Ok(self.value.as_ref().unwrap());
        }
        let count = self.count as usize;
        let mut assoc: Vec<u8> = Vec::new();
        assoc.push(self.associated_bytes[0]);
        assoc.push(self.associated_bytes[1]);
        assoc.push(self.associated_bytes[2]);
        assoc.push(self.associated_bytes[3]);
        proof {
            assert(assoc@ =~= self.associated_bytes@);
        }
        let offset = u32::from_bytes(assoc.as_slice(), byte_order);
        let missing = TIFFErrorState::IFDEntryError(
            IFDEntryErrorState::MissingAssociatedValue(self.tag),
        );
        let value = match self.field_type {
            EntryType::BYTES => {
                if count < 5 {
                    EntryValue::BYTES(assoc)
                } else {
                    if !range_fits(offset, count, 1, file.len()) {
                        return Err(missing);
                    }
                    EntryValue::BYTES(read_bytes_vec(file, offset as usize, count))
                }
            },
            EntryType::UNDEFINED => {
                if count < 5 {
                    EntryValue::UNDEFINED(assoc)
                } else {
                    if !range_fits(offset, count, 1, file.len()) {
                        return Err(missing);
                    }
                    EntryValue::UNDEFINED(read_bytes_vec(file, offset as usize, count))
                }
            },
            EntryType::ASCII => {
                let src = if count < 5 {
                    assoc
                } else {
                    if !range_fits(offset, count, 1, file.len()) {
                        return Err(missing);
                    }
                    read_bytes_vec(file, offset as usize, count)
                };
                match string_from_utf8(src) {
                    Some(s) => {
                        let mut ss: Vec<String> = Vec::new();
                        ss.push(s);
                        EntryValue::ASCII(ss)
                    },
                    None => {
                        return Err(missing);
                    },
                }
            },
            EntryType::SHORT => {
                if count < 3 {
                    EntryValue::SHORT(read_shorts(assoc.as_slice(), 0, count, byte_order))
                } else {
                    if !range_fits(offset, count, 2, file.len()) {
                        return Err(missing);
                    }
                    EntryValue::SHORT(read_shorts(file, offset as usize, count, byte_order))
                }
            },
            EntryType::LONG => {
                if count == 1 {
                    let mut xs: Vec<u32> = Vec::new();
                    xs.push(offset);
                    EntryValue::LONG(xs)
                } else {
                    if count > 0 && !range_fits(offset, count, 4, file.len()) {
                        return Err(missing);
                    }
                    if count == 0 {
                        EntryValue::LONG(Vec::new())
                    } else {
                        EntryValue::LONG(read_longs(file, offset as usize, count, byte_order))
                    }
                }
            },
            EntryType::RATIONAL => {
                if count > 0 && !range_fits(offset, count, 8, file.len()) {
                    return Err(missing);
                }
                if count == 0 {
                    EntryValue::RATIONAL(Vec::new())
                } else {
                    EntryValue::RATIONAL(read_rationals(file, offset as usize, count, byte_order))
                }
            },
            EntryType::DOUBLE => {
                if count > 0 && !range_fits(offset, count, 8, file.len()) {
                    return Err(missing);
                }
                if count == 0 {
                    EntryValue::DOUBLE(Vec::new())
                } else {
                    EntryValue::DOUBLE(read_doubles(file, offset as usize, count, byte_order))
                }
            },
        };
        self.value = Some(value);
        Ok(self.value.as_ref().unwrap())
    }
}

/// Whether `count` elements of `elem_size` bytes starting at `offset`
/// lie within a file of `len` bytes.
fn range_fits(offset: u32, count: usize, elem_size: u64, len: usize) -> (r: bool)
    requires
        elem_size <= 8,
        count <= u32::MAX,
    ensures
        r == (offset + count * elem_size <= len),
{
    proof {
        assert((count as u64) * elem_size <= 0xFFFF_FFFFu64 * 8) by (nonlinear_arith)
            requires
                count <= 0xFFFF_FFFFu64,
                elem_size <= 8,
        ;
    }
    let need: u64 = (count as u64) * elem_size;
    (offset as u64) <= (len as u64) && need <= (len as u64) - (offset as u64)
}

} // verus!
