pub mod entry;
pub mod error;
pub mod geokeydirectory;
pub mod header;

pub use error::GeoKeyDirectoryErrorState;
pub use error::HeaderErrorState;
pub use error::IFDEntryErrorState;
pub use error::TIFFErrorState;

use vstd::prelude::*;

use crate::fbits::f64_units;
use crate::geotiff::entry::{
    entry_offset, entry_resolvable, entry_type_of, EntryType, EntryValue, IFDEntry,
};
use crate::geotiff::geokeydirectory::{geo_keys_map, GeoKeyDirectory};
use crate::geotiff::header::{
    header_ifd_offset, header_magic_ok, header_order, parse_header, the_header_order,
};
use crate::projection::crs_proj4_of;
use crate::spatial::Coordinate;
use crate::util::{u16_of_bytes, u32_of_bytes, u64_of_bytes, ByteOrder, FromBytes};
use std::collections::HashMap;
use vstd::slice::slice_subrange;

verus! {

/// A source whose maps are read from a file system path.
pub trait FileDescriptor {
    fn get_path(&self) -> &String;
}

/// A GeoTIFF source file together with its optional world-file and
/// projection sidecars.
#[derive(Debug, Clone)]
pub struct GeoTiffMap {
    pub tiff: String,
    pub tfw: Option<String>,
    pub prj: Option<String>,
}

/// The EPSG code of WGS-84, the system every region is expressed in.
pub const EPSG_WGS84: u16 = 4326;

/// A footprint in WGS-84, in fixed-point coordinate units.
#[derive(Debug, Clone, Copy, PartialEq)]
pub struct GeoTiffRegion {
    pub top_left: Coordinate,
    pub bottom_right: Coordinate,
}

/// A parsed GeoTIFF whose region is already in WGS-84.
#[derive(Debug, Clone, PartialEq)]
pub struct GeoTiffMetaData {
    pub region: GeoTiffRegion,
    pub tags: Vec<(String, String)>,
}

/// Everything the extent computation needs, in the file's source
/// system: the tie point and pixel scale as IEEE double bit patterns,
/// the pixel dimensions, and the EPSG code of the source system.
#[derive(Debug, Clone, Copy, PartialEq)]
pub struct TiffGeoRef {
    pub top_left_bits: (u64, u64),
    pub scale_bits: (u64, u64),
    pub dimensions: (u16, u16),
    pub epsg_code: u16,
}

/// A parsed GeoTIFF: either finished in WGS-84, or awaiting the
/// projection of its native georeference, which only a PROJ transform
/// can supply.
#[derive(Debug, Clone, PartialEq)]
pub enum TiffGeoData {
    Ready(GeoTiffMetaData),
    NeedsProjection { georef: TiffGeoRef, tags: Vec<(String, String)> },
}

/// The tag list every TIFF result carries.
pub open spec fn tiff_tags_ok(tags: Seq<(String, String)>) -> bool {
    tags.len() == 1 && tags[0].0@ == "Filetype"@ && tags[0].1@ == "TIFF"@
}

/// An entry as the directory bytes describe it: tag, field type,
/// count, and the four bytes of the value slot.
pub open spec fn spec_entry_at(data: Seq<u8>, order: ByteOrder, base: int) -> (
    u16,
    EntryType,
    u32,
    Seq<u8>,
) {
    (
        u16_of_bytes(data.subrange(base, base + 2), order) as u16,
        match entry_type_of(u16_of_bytes(data.subrange(base + 2, base + 4), order)) {
            Some(t) => t,
            None => EntryType::BYTES,
        },
        u32_of_bytes(data.subrange(base + 4, base + 8), order) as u32,
        data.subrange(base + 8, base + 12),
    )
}

/// The type code of the first of the `n` entries at `base` whose code
/// names no field type, if any.
pub open spec fn first_bad_entry_code(data: Seq<u8>, order: ByteOrder, base: int, n: int) -> Option<
    u16,
>
    decreases n,
{
    if n <= 0 {
        None
    } else {
        match first_bad_entry_code(data, order, base, n - 1) {
            Some(c) => Some(c),
            None => {
                let code = u16_of_bytes(data.subrange(base + 12 * (n - 1) + 2, base + 12 * (n - 1) + 4), order);
                if entry_type_of(code) is None {
                    Some(code as u16)
                } else {
                    None
                }
            },
        }
    }
}

/// Once a prefix of the entries holds a bad type code, every longer
/// prefix reports the same first bad code.
pub proof fn lemma_first_bad_extend(data: Seq<u8>, order: ByteOrder, base: int, k: int, n: int)
    requires
        0 <= k <= n,
        first_bad_entry_code(data, order, base, k) is Some,
    ensures
        first_bad_entry_code(data, order, base, n) == first_bad_entry_code(data, order, base, k),
    decreases n - k,
{
    if n > k {
        lemma_first_bad_extend(data, order, base, k, n - 1);
    }
}

/// The first `n` directory entries keyed by tag; a later entry with
/// the same tag wins.
pub open spec fn spec_ifd_map(data: Seq<u8>, order: ByteOrder, base: int, n: int) -> Map<
    u16,
    (u16, EntryType, u32, Seq<u8>),
>
    decreases n,
{
    if n <= 0 {
        Map::empty()
    } else {
        let e = spec_entry_at(data, order, base + 12 * (n - 1));
        spec_ifd_map(data, order, base, n - 1).insert(e.0, e)
    }
}

/// Every entry of the directory map is keyed by its own tag.
pub proof fn lemma_ifd_map_keys(data: Seq<u8>, order: ByteOrder, base: int, n: int)
    ensures
        forall|k: u16|
            #[trigger] spec_ifd_map(data, order, base, n).contains_key(k) ==> spec_ifd_map(
                data,
                order,
                base,
                n,
            )[k].0 == k,
    decreases n,
{
    if n > 0 {
        lemma_ifd_map_keys(data, order, base, n - 1);
        let e = spec_entry_at(data, order, base + 12 * (n - 1));
        assert forall|k: u16| #[trigger] spec_ifd_map(data, order, base, n).contains_key(
            k,
        ) implies spec_ifd_map(data, order, base, n)[k].0 == k by {
            if k != e.0 {
                assert(spec_ifd_map(data, order, base, n - 1).contains_key(k));
            }
        }
    }
}

/// An executable entry carries what the directory bytes describe, with
/// no value resolved yet.
pub open spec fn entry_matches(e: IFDEntry, s: (u16, EntryType, u32, Seq<u8>)) -> bool {
    e.tag == s.0 && e.field_type == s.1 && e.count == s.2 && e.associated_bytes@ == s.3
        && e.value is None
}

/// The executable entry map mirrors the specification map.
pub open spec fn ifd_map_matches(
    m: Map<u16, IFDEntry>,
    s: Map<u16, (u16, EntryType, u32, Seq<u8>)>,
) -> bool {
    m.dom() == s.dom() && forall|k: u16|
        s.contains_key(k) ==> #[trigger] m.contains_key(k) && entry_matches(m[k], s[k])
}

/// The resolved values of a `SHORT` entry.
pub open spec fn spec_short_seq(data: Seq<u8>, order: ByteOrder, count: int, assoc: Seq<u8>) -> Seq<
    u16,
> {
    if count < 3 {
        Seq::new(count as nat, |i: int| u16_of_bytes(assoc.subrange(2 * i, 2 * i + 2), order) as u16)
    } else {
        Seq::new(
            count as nat,
            |i: int|
                u16_of_bytes(
                    data.subrange(
                        entry_offset(assoc, order) + 2 * i,
                        entry_offset(assoc, order) + 2 * i + 2,
                    ),
                    order,
                ) as u16,
        )
    }
}

/// The resolved bit patterns of a `DOUBLE` entry.
pub open spec fn spec_double_seq(data: Seq<u8>, order: ByteOrder, count: int, assoc: Seq<u8>) -> Seq<
    u64,
> {
    Seq::new(
        count as nat,
        |i: int|
            u64_of_bytes(
                data.subrange(
                    entry_offset(assoc, order) + 8 * i,
                    entry_offset(assoc, order) + 8 * i + 8,
                ),
                order,
            ) as u64,
    )
}

/// The first eight bytes, which form the header.
pub open spec fn tiff_head(data: Seq<u8>) -> Seq<u8> {
    data.subrange(0, 8)
}

/// The header is present and sound.
pub open spec fn tiff_header_good(data: Seq<u8>) -> bool {
    &&& data.len() >= 8
    &&& header_order(tiff_head(data)) is Some
    &&& header_magic_ok(tiff_head(data), the_header_order(tiff_head(data)))
}

/// The byte order the header declares.
pub open spec fn tiff_order(data: Seq<u8>) -> ByteOrder {
    the_header_order(tiff_head(data))
}

/// Where the directory's entries begin: two bytes past the announced
/// directory offset, which hold the entry count.
pub open spec fn tiff_base(data: Seq<u8>) -> int {
    header_ifd_offset(tiff_head(data), tiff_order(data)) + 2
}

/// The announced number of directory entries.
pub open spec fn tiff_count(data: Seq<u8>) -> int {
    u16_of_bytes(data.subrange(tiff_base(data) - 2, tiff_base(data)), tiff_order(data))
}

/// The directory is present, whole, and all its type codes are known.
pub open spec fn tiff_ifd_good(data: Seq<u8>) -> bool {
    &&& tiff_base(data) <= data.len()
    &&& tiff_base(data) + 12 * tiff_count(data) <= data.len()
    &&& first_bad_entry_code(data, tiff_order(data), tiff_base(data), tiff_count(data)) is None
}

/// The directory's entries keyed by tag.
pub open spec fn tiff_map(data: Seq<u8>) -> Map<u16, (u16, EntryType, u32, Seq<u8>)> {
    spec_ifd_map(data, tiff_order(data), tiff_base(data), tiff_count(data))
}

/// The tag is present as a resolvable `SHORT` entry of at least `min`
/// values.
pub open spec fn tag_shorts_ok(data: Seq<u8>, tag: u16, min: int) -> bool {
    let m = tiff_map(data);
    &&& m.contains_key(tag)
    &&& entry_resolvable(m[tag].1, m[tag].2 as int, m[tag].3, tiff_order(data), data)
    &&& m[tag].1 == EntryType::SHORT
    &&& m[tag].2 >= min
}

/// The resolved values of the tag's `SHORT` entry.
pub open spec fn tag_shorts(data: Seq<u8>, tag: u16) -> Seq<u16> {
    let m = tiff_map(data);
    spec_short_seq(data, tiff_order(data), m[tag].2 as int, m[tag].3)
}

/// The tag is present as a resolvable `DOUBLE` entry of at least `min`
/// values.
pub open spec fn tag_doubles_ok(data: Seq<u8>, tag: u16, min: int) -> bool {
    let m = tiff_map(data);
    &&& m.contains_key(tag)
    &&& entry_resolvable(m[tag].1, m[tag].2 as int, m[tag].3, tiff_order(data), data)
    &&& m[tag].1 == EntryType::DOUBLE
    &&& m[tag].2 >= min
}

/// The resolved bit patterns of the tag's `DOUBLE` entry.
pub open spec fn tag_doubles(data: Seq<u8>, tag: u16) -> Seq<u64> {
    let m = tiff_map(data);
    spec_double_seq(data, tiff_order(data), m[tag].2 as int, m[tag].3)
}

/// The GeoKey directory's shorts form a sound directory: a four-short
/// header of version 1 announcing exactly the key records that follow.
pub open spec fn tiff_gkd_good(data: Seq<u8>) -> bool {
    let s = tag_shorts(data, 34735);
    s.len() >= 4 && s[0] == 1 && s.len() == 4 + 4 * s[3]
}

/// The EPSG code the GeoKey directory names, if any.
pub open spec fn tiff_crs(data: Seq<u8>) -> Option<u16> {
    let s = tag_shorts(data, 34735);
    GeoKeyDirectory::spec_crs_code(geo_keys_map(s, s[3] as int))
}

/// The georeference a TIFF file denotes, when every byte-level step of
/// the extraction succeeds: header, directory, GeoKey directory, a
/// catalogued CRS code, tie point, pixel scale, and pixel dimensions.
/// Whether proj4rs also accepts the catalogued definition is decided
/// at run time and is not a function of the bytes.
pub open spec fn tiff_georef_ok(data: Seq<u8>) -> Option<TiffGeoRef> {
    if !(tiff_header_good(data) && tiff_ifd_good(data) && tag_shorts_ok(data, 34735, 0)
        && tiff_gkd_good(data)) {
        None
    } else {
        match tiff_crs(data) {
            None => None,
            Some(code) => match crs_proj4_of(code) {
                None => None,
                Some(def) => if !(tag_doubles_ok(data, 33922, 5) && tag_doubles_ok(data, 33550, 2)
                    && tag_shorts_ok(data, 256, 1) && tag_shorts_ok(data, 257, 1)) {
                    None
                } else {
                    Some(
                        TiffGeoRef {
                            top_left_bits: (
                                tag_doubles(data, 33922)[3],
                                tag_doubles(data, 33922)[4],
                            ),
                            scale_bits: (tag_doubles(data, 33550)[0], tag_doubles(data, 33550)[1]),
                            dimensions: (tag_shorts(data, 256)[0], tag_shorts(data, 257)[0]),
                            epsg_code: code,
                        },
                    )
                },
            },
        }
    }
}

/// Which error the georeference extraction reports, in the order the
/// steps run.
pub open spec fn tiff_georef_err_for(e: TIFFErrorState, data: Seq<u8>) -> bool {
    let m = tiff_map(data);
    let ord = tiff_order(data);
    if data.len() < 8 {
        e matches TIFFErrorState::UnexpectedFormat(_)
    } else if header_order(tiff_head(data)) is None {
        e matches TIFFErrorState::HeaderError(HeaderErrorState::UnexpectedByteOrder(a)) && a@
            == seq![data[0], data[1]]
    } else if !header_magic_ok(tiff_head(data), tiff_order(data)) {
        e matches TIFFErrorState::HeaderError(HeaderErrorState::UnexpectedMagicNumber(a)) && a@
            == seq![data[2], data[3]]
    } else if tiff_base(data) > data.len() || tiff_base(data) + 12 * tiff_count(data)
        > data.len() {
        e matches TIFFErrorState::UnexpectedFormat(_)
    } else if first_bad_entry_code(data, ord, tiff_base(data), tiff_count(data)) is Some {
        e == TIFFErrorState::IFDEntryError(
            IFDEntryErrorState::UnexpectedEntryType(
                first_bad_entry_code(data, ord, tiff_base(data), tiff_count(data))->Some_0,
            ),
        )
    } else if !m.contains_key(34735) {
        e == TIFFErrorState::NotEnoughGeoData
    } else if !entry_resolvable(m[34735].1, m[34735].2 as int, m[34735].3, ord, data) {
        e == TIFFErrorState::IFDEntryError(IFDEntryErrorState::MissingAssociatedValue(34735))
    } else if m[34735].1 != EntryType::SHORT {
        e matches TIFFErrorState::UnexpectedFormat(_)
    } else if !tiff_gkd_good(data) {
        e matches TIFFErrorState::GeoKeyDirectoryError(GeoKeyDirectoryErrorState::UnexpectedFormat(_))
    } else if tiff_crs(data) is None {
        if geo_keys_map(tag_shorts(data, 34735), tag_shorts(data, 34735)[3] as int).contains_key(
            2048,
        ) || geo_keys_map(tag_shorts(data, 34735), tag_shorts(data, 34735)[3] as int).contains_key(
            3072,
        ) {
            e matches TIFFErrorState::GeoKeyDirectoryError(GeoKeyDirectoryErrorState::UnexpectedFormat(_))
        } else {
            e == TIFFErrorState::NotEnoughGeoData
        }
    } else if crs_proj4_of(tiff_crs(data)->Some_0) is None {
        e == TIFFErrorState::UnsupportedCrs(tiff_crs(data)->Some_0)
    } else if !m.contains_key(33922) {
        e == TIFFErrorState::NotEnoughGeoData
    } else if !entry_resolvable(m[33922].1, m[33922].2 as int, m[33922].3, ord, data) {
        e == TIFFErrorState::IFDEntryError(IFDEntryErrorState::MissingAssociatedValue(33922))
    } else if m[33922].1 != EntryType::DOUBLE {
        e matches TIFFErrorState::UnexpectedFormat(_)
    } else if m[33922].2 < 5 {
        e == TIFFErrorState::NotEnoughGeoData
    } else if !m.contains_key(33550) {
        e == TIFFErrorState::NotEnoughGeoData
    } else if !entry_resolvable(m[33550].1, m[33550].2 as int, m[33550].3, ord, data) {
        e == TIFFErrorState::IFDEntryError(IFDEntryErrorState::MissingAssociatedValue(33550))
    } else if m[33550].1 != EntryType::DOUBLE {
        e matches TIFFErrorState::UnexpectedFormat(_)
    } else if m[33550].2 < 2 {
        e == TIFFErrorState::NotEnoughGeoData
    } else if !m.contains_key(256) {
        e == TIFFErrorState::NotEnoughGeoData
    } else if !entry_resolvable(m[256].1, m[256].2 as int, m[256].3, ord, data) {
        e == TIFFErrorState::IFDEntryError(IFDEntryErrorState::MissingAssociatedValue(256))
    } else if m[256].1 != EntryType::SHORT {
        e matches TIFFErrorState::UnexpectedFormat(_)
    } else if m[256].2 < 1 {
        e matches TIFFErrorState::UnexpectedFormat(_)
    } else if !m.contains_key(257) {
        e == TIFFErrorState::NotEnoughGeoData
    } else if !entry_resolvable(m[257].1, m[257].2 as int, m[257].3, ord, data) {
        e == TIFFErrorState::IFDEntryError(IFDEntryErrorState::MissingAssociatedValue(257))
    } else if m[257].1 != EntryType::SHORT {
        e matches TIFFErrorState::UnexpectedFormat(_)
    } else if m[257].2 < 1 {
        e matches TIFFErrorState::UnexpectedFormat(_)
    } else {
        false
    }
}

/// The announced entry count of a directory at `off`.
pub open spec fn ifd_count_at(data: Seq<u8>, off: int, order: ByteOrder) -> int {
    u16_of_bytes(data.subrange(off, off + 2), order)
}

/// Parse the image file directory at `offset`: a 16-bit entry count
/// followed by that many 12-byte entries, keyed by tag.  Values are
/// not resolved here.
pub fn parse_ifd(data: &[u8], offset: u32, order: &ByteOrder) -> (r: Result<
    HashMap<u16, IFDEntry>,
    TIFFErrorState,
>)
    ensures
        offset + 2 > data@.len() ==> (r matches Err(TIFFErrorState::UnexpectedFormat(_))),
        offset + 2 <= data@.len() && offset + 2 + 12 * ifd_count_at(data@, offset as int, *order)
            > data@.len() ==> (r matches Err(TIFFErrorState::UnexpectedFormat(_))),
        offset + 2 + 12 * ifd_count_at(data@, offset as int, *order) <= data@.len()
            ==> match first_bad_entry_code(
            data@,
            *order,
            offset + 2,
            ifd_count_at(data@, offset as int, *order),
        ) {
            Some(c) => r == Err::<HashMap<u16, IFDEntry>, TIFFErrorState>(
                TIFFErrorState::IFDEntryError(IFDEntryErrorState::UnexpectedEntryType(c)),
            ),
            None => (r matches Ok(m) && ifd_map_matches(
                m@,
                spec_ifd_map(
                    data@,
                    *order,
                    offset + 2,
                    ifd_count_at(data@, offset as int, *order),
                ),
            )),
        },
{
    let len: usize = data.len();
    if (offset as u64) + 2 > (len as u64) {
        return Err(
            TIFFErrorState::UnexpectedFormat(
                String::from_str("no room for the directory entry count"),
            ),
        );
    }
    let cs = slice_subrange(data, offset as usize, offset as usize + 2);
    proof {
        assert(cs@ =~= data@.subrange(offset as int, offset as int + 2));
    }
    let count: usize = u16::from_bytes(cs, order) as usize;
    if (offset as u64) + 2 + 12 * (count as u64) > (len as u64) {
        return Err(
            TIFFErrorState::UnexpectedFormat(
                String::from_str("the directory entries overrun the file"),
            ),
        );
    }
    let base: usize = offset as usize + 2;
    let mut entries: HashMap<u16, IFDEntry> = HashMap::with_capacity(count);
    let mut i: usize = 0;
    while i < count
        invariant
            i <= count,
            count <= 65535,
            base == offset + 2,
            base + 12 * count <= data@.len(),
            data@.len() == len,
            count == ifd_count_at(data@, offset as int, *order),
            first_bad_entry_code(data@, *order, base as int, i as int) is None,
            ifd_map_matches(entries@, spec_ifd_map(data@, *order, base as int, i as int)),
        decreases count - i,
    {
        let eb = slice_subrange(data, base + 12 * i, base + 12 * i + 12);
        proof {
            let b = base + 12 * i;
            assert(eb@ =~= data@.subrange(b as int, b + 12));
            assert(eb@.subrange(0, 2) =~= data@.subrange(b as int, b + 2));
            assert(eb@.subrange(2, 4) =~= data@.subrange(b + 2, b + 4));
            assert(eb@.subrange(4, 8) =~= data@.subrange(b + 4, b + 8));
            assert(eb@.subrange(8, 12) =~= data@.subrange(b + 8, b + 12));
        }
        match IFDEntry::new(eb, order) {
            Ok(e) => {
                proof {
                    assert(entry_matches(e, spec_entry_at(data@, *order, base + 12 * i)));
                }
                entries.insert(e.tag, e);
                proof {
                    let sm = spec_ifd_map(data@, *order, base as int, i + 1);
                    assert(entries@.dom() =~= sm.dom());
                    assert(ifd_map_matches(entries@, sm));
                }
            },
            Err(e) => {
                proof {
                    let b = base + 12 * i;
                    let code = u16_of_bytes(data@.subrange(b + 2, b + 4), *order);
                    assert(entry_type_of(code) is None);
                    assert(first_bad_entry_code(data@, *order, base as int, i + 1) == Some(
                        code as u16,
                    ));
                    lemma_first_bad_extend(data@, *order, base as int, i + 1, count as int);
                }
                return Err(e);
            },
        }
        i = i + 1;
    }
    Ok(entries)
}

fn entry_copy(e: &IFDEntry) -> (r: IFDEntry)
    ensures
        r.tag == e.tag,
        r.count == e.count,
        r.field_type == e.field_type,
        r.associated_bytes == e.associated_bytes,
        r.value is None,
{
    IFDEntry {
        tag: e.tag,
        count: e.count,
        field_type: e.field_type,
        associated_bytes: e.associated_bytes,
        value: None,
    }
}

/// Extract the georeference of a TIFF file: parse the header and the
/// directory, resolve the GeoKey directory to a catalogued EPSG code,
/// and resolve the tie point, pixel scale and pixel dimensions.
pub fn parse_tiff_georef(data: &[u8]) -> (r: Result<TiffGeoRef, TIFFErrorState>)
    ensures
        r matches Ok(g) ==> tiff_georef_ok(data@) == Some(g),
        tiff_georef_ok(data@) is None ==> (r matches Err(e) && (tiff_georef_err_for(e, data@) || (
        e matches TIFFErrorState::ProjectionError(_)))),
        tiff_georef_ok(data@) matches Some(g) ==> (r == Ok::<TiffGeoRef, TIFFErrorState>(g) || (
        r matches Err(TIFFErrorState::ProjectionError(_)))),
{
    let len: usize = data.len();
    if len < 8 {
        return Err(
            TIFFErrorState::UnexpectedFormat(String::from_str("no room for the header")),
        );
    }
    let hd = slice_subrange(data, 0, 8);
    proof {
        assert(hd@ =~= tiff_head(data@));
        assert(hd@.subrange(2, 4) =~= data@.subrange(2, 4));
        assert(hd@.subrange(4, 8) =~= data@.subrange(4, 8));
    }
    let (order, ifd_offset) = match parse_header(hd) {
        Ok(h) => h,
        Err(e) => {
            return Err(e);
        },
    };
    proof {
        assert(order == tiff_order(data@));
        assert(0 <= header_ifd_offset(tiff_head(data@), tiff_order(data@)) < 0x1_0000_0000);
        assert(ifd_offset as int == tiff_base(data@) - 2);
        lemma_ifd_map_keys(data@, tiff_order(data@), tiff_base(data@), tiff_count(data@));
    }
    let entries = match parse_ifd(data, ifd_offset, &order) {
        Ok(m) => m,
        Err(e) => {
            return Err(e);
        },
    };
    proof {
        assert(ifd_map_matches(entries@, tiff_map(data@)));
    }
    let ghost m = tiff_map(data@);
    // GeoKey directory (tag 34735)
    let mut gk = match entries.get(&34735) {
        Some(e) => entry_copy(e),
        None => {
            return Err(TIFFErrorState::NotEnoughGeoData);
        },
    };
    let gv = match gk.resolve(&order, data) {
        Ok(v) => v,
        Err(e) => {
            return Err(e);
        },
    };
    let shorts: &Vec<u16> = match gv {
        EntryValue::SHORT(xs) => xs,
        _ => {
            return Err(
                TIFFErrorState::UnexpectedFormat(
                    String::from_str("the GeoKey directory is not of type SHORT"),
                ),
            );
        },
    };
    proof {
        assert(shorts@ =~= tag_shorts(data@, 34735));
    }
    let gkd = match GeoKeyDirectory::from_shorts(shorts) {
        Ok(d) => d,
        Err(e) => {
            return Err(e);
        },
    };
    let code = match gkd.get_projection("EPSG:4326") {
        Ok(c) => c,
        Err(e) => {
            return Err(e);
        },
    };
    // Tie point (tag 33922)
    let mut tp = match entries.get(&33922) {
        Some(e) => entry_copy(e),
        None => {
            return Err(TIFFErrorState::NotEnoughGeoData);
        },
    };
    let tv = match tp.resolve(&order, data) {
        Ok(v) => v,
        Err(e) => {
            return Err(e);
        },
    };
    let tie: &Vec<u64> = match tv {
        EntryValue::DOUBLE(xs) => xs,
        _ => {
            return Err(
                TIFFErrorState::UnexpectedFormat(
                    String::from_str("the tie point is not of type DOUBLE"),
                ),
            );
        },
    };
    if tie.len() < 5 {
        return Err(TIFFErrorState::NotEnoughGeoData);
    }
    proof {
        assert(tie@ =~= tag_doubles(data@, 33922));
    }
    let tie_x = tie[3];
    let tie_y = tie[4];
    // Pixel scale (tag 33550)
    let mut sc = match entries.get(&33550) {
        Some(e) => entry_copy(e),
        None => {
            return Err(TIFFErrorState::NotEnoughGeoData);
        },
    };
    let sv = match sc.resolve(&order, data) {
        Ok(v) => v,
        Err(e) => {
            return Err(e);
        },
    };
    let scale: &Vec<u64> = match sv {
        EntryValue::DOUBLE(xs) => xs,
        _ => {
            return Err(
                TIFFErrorState::UnexpectedFormat(
                    String::from_str("the pixel scale is not of type DOUBLE"),
                ),
            );
        },
    };
    if scale.len() < 2 {
        return Err(TIFFErrorState::NotEnoughGeoData);
    }
    proof {
        assert(scale@ =~= tag_doubles(data@, 33550));
    }
    let scale_x = scale[0];
    let scale_y = scale[1];
    // Image width (tag 256)
    let mut we = match entries.get(&256) {
        Some(e) => entry_copy(e),
        None => {
            return Err(TIFFErrorState::NotEnoughGeoData);
        },
    };
    let wv = match we.resolve(&order, data) {
        Ok(v) => v,
        Err(e) => {
            return Err(e);
        },
    };
    let ws: &Vec<u16> = match wv {
        EntryValue::SHORT(xs) => xs,
        _ => {
            return Err(
                TIFFErrorState::UnexpectedFormat(
                    String::from_str("the image width is not of type SHORT"),
                ),
            );
        },
    };
    if ws.len() < 1 {
        return Err(
            TIFFErrorState::UnexpectedFormat(String::from_str("the image width is empty")),
        );
    }
    proof {
        assert(ws@ =~= tag_shorts(data@, 256));
    }
    let x = ws[0];
    // Image length (tag 257)
    let mut he = match entries.get(&257) {
        Some(e) => entry_copy(e),
        None => {
            return Err(TIFFErrorState::NotEnoughGeoData);
        },
    };
    let hv = match he.resolve(&order, data) {
        Ok(v) => v,
        Err(e) => {
            return Err(e);
        },
    };
    let hs: &Vec<u16> = match hv {
        EntryValue::SHORT(xs) => xs,
        _ => {
            return Err(
                TIFFErrorState::UnexpectedFormat(
                    String::from_str("the image length is not of type SHORT"),
                ),
            );
        },
    };
    if hs.len() < 1 {
        return Err(
            TIFFErrorState::UnexpectedFormat(String::from_str("the image length is empty")),
        );
    }
    proof {
        assert(hs@ =~= tag_shorts(data@, 257));
    }
    let y = hs[0];
    Ok(
        TiffGeoRef {
            top_left_bits: (tie_x, tie_y),
            scale_bits: (scale_x, scale_y),
            dimensions: (x, y),
            epsg_code: code,
        },
    )
}

/// The WGS-84 extent a georeference denotes when its system already is
/// WGS-84: the tie point is the top-left corner, and the bottom-right
/// corner lies `width * x-scale` east and `height * y-scale` south of
/// it.  Nothing when a bit pattern is not a finite double, or the
/// corners do not form an ordered rectangle within the WGS-84
/// longitude/latitude ranges: every region the reader exposes is a
/// well-formed rectangle in range.
pub open spec fn tiff_extent_units(tl: (u64, u64), sc: (u64, u64), dims: (u16, u16)) -> Option<
    (Coordinate, Coordinate),
> {
    match (f64_units(tl.0), f64_units(tl.1), f64_units(sc.0), f64_units(sc.1)) {
        (Some(x0), Some(y0), Some(sx), Some(sy)) => {
            let brx = x0 + sx * dims.0;
            let bry = y0 - sy * dims.1;
            if i64::MIN <= brx <= i64::MAX && i64::MIN <= bry <= i64::MAX
                && (crate::spatial::Region {
                top_left: (x0, y0),
                bottom_right: (brx as i64, bry as i64),
            }).wf() && (crate::spatial::Region {
                top_left: (x0, y0),
                bottom_right: (brx as i64, bry as i64),
            }).in_bounds() {
                Some(((x0, y0), (brx as i64, bry as i64)))
            } else {
                None
            }
        },
        _ => None,
    }
}

/// Compute the WGS-84 corners from a georeference whose system is
/// already WGS-84.
pub fn calculate_extent(top_left_bits: (u64, u64), scale_bits: (u64, u64), dimensions: (u16, u16)) -> (r:
    Result<(Coordinate, Coordinate), TIFFErrorState>)
    ensures
        tiff_extent_units(top_left_bits, scale_bits, dimensions) matches Some(c) ==> r == Ok::<
            (Coordinate, Coordinate),
            TIFFErrorState,
        >(c),
        tiff_extent_units(top_left_bits, scale_bits, dimensions) is None ==> (r matches Err(
            TIFFErrorState::ProjectionError(_),
        )),
{
    let x0 = match crate::fbits::units_from_f64_bits(top_left_bits.0) {
        Some(v) => v,
        None => {
            return Err(
                TIFFErrorState::ProjectionError(
                    String::from_str("the corner coordinates are not representable"),
                ),
            );
        },
    };
    let y0 = match crate::fbits::units_from_f64_bits(top_left_bits.1) {
        Some(v) => v,
        None => {
            return Err(
                TIFFErrorState::ProjectionError(
                    String::from_str("the corner coordinates are not representable"),
                ),
            );
        },
    };
    let sx = match crate::fbits::units_from_f64_bits(scale_bits.0) {
        Some(v) => v,
        None => {
            return Err(
                TIFFErrorState::ProjectionError(
                    String::from_str("the corner coordinates are not representable"),
                ),
            );
        },
    };
    let sy = match crate::fbits::units_from_f64_bits(scale_bits.1) {
        Some(v) => v,
        None => {
            return Err(
                TIFFErrorState::ProjectionError(
                    String::from_str("the corner coordinates are not representable"),
                ),
            );
        },
    };
    proof {
        assert(-0x8000_0000_0000_0000_0000i128 <= (sx as i128) * (dimensions.0 as i128)
            <= 0x8000_0000_0000_0000_0000i128) by (nonlinear_arith)
            requires
                -0x8000_0000_0000_0000 <= (sx as i128) <= 0x7FFF_FFFF_FFFF_FFFF,
                0 <= (dimensions.0 as i128) <= 0x1_0000,
        ;
        assert(-0x8000_0000_0000_0000_0000i128 <= (sy as i128) * (dimensions.1 as i128)
            <= 0x8000_0000_0000_0000_0000i128) by (nonlinear_arith)
            requires
                -0x8000_0000_0000_0000 <= (sy as i128) <= 0x7FFF_FFFF_FFFF_FFFF,
                0 <= (dimensions.1 as i128) <= 0x1_0000,
        ;
    }
    let brx_wide: i128 = (x0 as i128) + (sx as i128) * (dimensions.0 as i128);
    let bry_wide: i128 = (y0 as i128) - (sy as i128) * (dimensions.1 as i128);
    if brx_wide < (i64::MIN as i128) || brx_wide > (i64::MAX as i128) || bry_wide < (
    i64::MIN as i128) || bry_wide > (i64::MAX as i128) {
        return Err(
            TIFFErrorState::ProjectionError(
                String::from_str("the corner coordinates are not representable"),
            ),
        );
    }
    let brx = brx_wide as i64;
    let bry = bry_wide as i64;
    if !(x0 <= brx && y0 >= bry) || !coordinate_in_bounds_exec((x0, y0))
        || !coordinate_in_bounds_exec((brx, bry)) {
        return Err(
            TIFFErrorState::ProjectionError(
                String::from_str("the corners do not form a rectangle within WGS-84 range"),
            ),
        );
    }
    Ok(((x0, y0), (brx, bry)))
}

/// Whether a coordinate lies within the WGS-84 ranges.
fn coordinate_in_bounds_exec(c: Coordinate) -> (r: bool)
    ensures
        r == crate::spatial::coordinate_in_bounds(c),
{
    -180 * crate::COORD_SCALE <= c.0 && c.0 <= 180 * crate::COORD_SCALE && -90
        * crate::COORD_SCALE <= c.1 && c.1 <= 90 * crate::COORD_SCALE
}

/// The contents of a world-file sidecar.  Deriving a region from a
/// world file together with a projection sidecar is not supported:
/// rather than fabricate a result, the reader reports such a file as
/// lacking usable geodata.
#[derive(Debug, Clone, PartialEq)]
pub struct TFWData {}

/// Refuse a world-file sidecar; see `TFWData`.
pub fn parse_tfw(data: &[u8]) -> (r: Result<TFWData, TIFFErrorState>)
    ensures
        r == Err::<TFWData, TIFFErrorState>(TIFFErrorState::NotEnoughGeoData),
{
    Err(TIFFErrorState::NotEnoughGeoData)
}

/// Parse a TIFF file into its geographic footprint.  A file carrying
/// both a world-file and a projection sidecar is refused (see
/// `TFWData`); with at most one sidecar the embedded georeference is
/// parsed as usual.  When the embedded system already is WGS-84 the
/// extent is computed here; otherwise the caller receives the
/// georeference to project.  Whether proj4rs accepts the catalogued
/// definition of the named system is decided at run time, so the
/// successful outcomes are pinned but `ProjectionError` stays possible
/// beside them.
pub fn parse_tiff(data: &[u8], tfw: Option<&[u8]>, prj: Option<&[u8]>) -> (r: Result<
    TiffGeoData,
    TIFFErrorState,
>)
    ensures
        tfw is Some && prj is Some ==> r == Err::<TiffGeoData, TIFFErrorState>(
            TIFFErrorState::NotEnoughGeoData,
        ),
        !(tfw is Some && prj is Some) && tiff_georef_ok(data@) is None ==> (r matches Err(e) && (
        tiff_georef_err_for(e, data@) || (e matches TIFFErrorState::ProjectionError(_)))),
        !(tfw is Some && prj is Some) ==> (r matches Ok(TiffGeoData::Ready(md)) ==> ({
            &&& tiff_georef_ok(data@) matches Some(g)
            &&& g.epsg_code == EPSG_WGS84
            &&& tiff_extent_units(g.top_left_bits, g.scale_bits, g.dimensions) matches Some(c)
            &&& md.region == (GeoTiffRegion { top_left: c.0, bottom_right: c.1 })
            &&& tiff_tags_ok(md.tags@)
        })),
        !(tfw is Some && prj is Some) ==> (r matches Ok(TiffGeoData::NeedsProjection {
            georef,
            tags,
        }) ==> tiff_georef_ok(data@) == Some(georef) && georef.epsg_code != EPSG_WGS84
            && tiff_tags_ok(tags@)),
        !(tfw is Some && prj is Some) ==> (tiff_georef_ok(data@) matches Some(g) ==> (r is Ok || (
        r matches Err(TIFFErrorState::ProjectionError(_))))),
{
    if tfw.is_some() && prj.is_some() {
        if let Some(t) = tfw {
            let _ = parse_tfw(t);
        }
        return Err(TIFFErrorState::NotEnoughGeoData);
    }
    let mut tags: Vec<(String, String)> = Vec::new();
    tags.push((String::from_str("Filetype"), String::from_str("TIFF")));
    let georef = match parse_tiff_georef(data) {
        Ok(g) => g,
        Err(e) => {
            return Err(e);
        },
    };
    if georef.epsg_code == EPSG_WGS84 {
        let (top_left, bottom_right) = match calculate_extent(
            georef.top_left_bits,
            georef.scale_bits,
            georef.dimensions,
        ) {
            Ok(c) => c,
            Err(e) => {
                return Err(e);
            },
        };
        Ok(TiffGeoData::Ready(GeoTiffMetaData { region: GeoTiffRegion { top_left, bottom_right }, tags }))
    } else {
        Ok(TiffGeoData::NeedsProjection { georef, tags })
    }
}

} // verus!
