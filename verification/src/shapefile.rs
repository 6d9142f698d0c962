use vstd::prelude::*;

use crate::fbits::f64_units;
use crate::projection::{proj_kind_of, projstring_kind, projstring_of_wkt, wkt_projstring,
    ProjKind};
use crate::spatial::Region;
use crate::util::{string_from_utf8, u64_le};
use vstd::slice::slice_subrange;
use vstd::utf8::{decode_utf8, valid_utf8};

verus! {

/// Little-endian fields read from a shapefile header.
pub trait FromBytes: Sized {
    /// The width of the encoded field in bytes.
    spec fn size() -> nat;

    /// The decoded value.
    spec fn value_of(b: Seq<u8>) -> Self;

    /// Decode the little-endian field.
    fn from_bytes(bytes: &[u8]) -> (r: Self)
        requires
            bytes@.len() == Self::size(),
        ensures
            r == Self::value_of(bytes@),
    ;
}

impl FromBytes for u64 {
    open spec fn size() -> nat {
        8
    }

    open spec fn value_of(b: Seq<u8>) -> u64 {
        u64_le(b) as u64
    }

    fn from_bytes(bytes: &[u8]) -> (r: Self) {
        crate::util::FromBytes::from_bytes(bytes, &crate::util::ByteOrder::LittleEndian)
    }
}

/// A shapefile source together with its optional sidecars.
#[derive(Debug, Clone)]
pub struct ShapeFileMap {
    pub shp: String,
    pub prj: Option<String>,
    pub tfw: Option<String>,
}

/// A parsed shapefile, already unified.
#[derive(Debug, Clone, PartialEq)]
pub struct ShapeFileMetaData {
    pub region: Region,
    pub tags: Vec<(String, String)>,
}

/// Errors of the shapefile reader.
#[derive(Debug, PartialEq)]
pub enum ShapeFileErrorKind {
    UnexpectedMagicNumber([u8; 4]),
    InvalidLength(usize),
    ProjectionError(String),
    UnsupportedProjection,
}

/// The bounds of the 100-byte header, as IEEE double bit patterns in
/// the file's native system.
#[derive(Debug, Clone, Copy, PartialEq)]
pub struct ShapeFileHeader {
    pub x_min: u64,
    pub y_min: u64,
    pub x_max: u64,
    pub y_max: u64,
}

/// The tag list every shapefile result carries.
pub open spec fn shapefile_tags_ok(tags: Seq<(String, String)>) -> bool {
    tags.len() == 1 && tags[0].0@ == "Filetype"@ && tags[0].1@ == "SHAPEFILE"@
}

/// The magic bytes 9994 big-endian.
pub open spec fn shp_magic_ok(b: Seq<u8>) -> bool {
    b[0] == 0 && b[1] == 0 && b[2] == 39 && b[3] == 10
}

/// The native bounds at offsets 36..68, four little-endian doubles.
pub open spec fn shp_header_of(b: Seq<u8>) -> ShapeFileHeader {
    ShapeFileHeader {
        x_min: u64_le(b.subrange(36, 44)) as u64,
        y_min: u64_le(b.subrange(44, 52)) as u64,
        x_max: u64_le(b.subrange(52, 60)) as u64,
        y_max: u64_le(b.subrange(60, 68)) as u64,
    }
}

/// Parse the 100-byte shapefile header: the magic bytes, then the
/// native bounding box.
pub fn parse_header(buffer: &[u8]) -> (r: Result<ShapeFileHeader, ShapeFileErrorKind>)
    ensures
        buffer@.len() != 100 ==> r == Err::<ShapeFileHeader, ShapeFileErrorKind>(
            ShapeFileErrorKind::InvalidLength(buffer@.len() as usize),
        ),
        buffer@.len() == 100 && !shp_magic_ok(buffer@) ==> (r matches Err(
            ShapeFileErrorKind::UnexpectedMagicNumber(a),
        ) && a@ == buffer@.subrange(0, 4)),
        buffer@.len() == 100 && shp_magic_ok(buffer@) ==> r == Ok::<
            ShapeFileHeader,
            ShapeFileErrorKind,
        >(shp_header_of(buffer@)),
{
    if buffer.len() != 100 {
        return Err(ShapeFileErrorKind::InvalidLength(buffer.len()));
    }
    if !(buffer[0] == 0 && buffer[1] == 0 && buffer[2] == 39 && buffer[3] == 10) {
        let a: [u8; 4] = [buffer[0], buffer[1], buffer[2], buffer[3]];
        proof {
            assert(a@ =~= buffer@.subrange(0, 4));
        }
        return Err(ShapeFileErrorKind::UnexpectedMagicNumber(a));
    }
    let bx0 = slice_subrange(buffer, 36, 44);
    let by0 = slice_subrange(buffer, 44, 52);
    let bx1 = slice_subrange(buffer, 52, 60);
    let by1 = slice_subrange(buffer, 60, 68);
    proof {
        assert(bx0@ =~= buffer@.subrange(36, 44));
        assert(by0@ =~= buffer@.subrange(44, 52));
        assert(bx1@ =~= buffer@.subrange(52, 60));
        assert(by1@ =~= buffer@.subrange(60, 68));
    }
    Ok(
        ShapeFileHeader {
            x_min: u64::from_bytes(bx0),
            y_min: u64::from_bytes(by0),
            x_max: u64::from_bytes(bx1),
            y_max: u64::from_bytes(by1),
        },
    )
}

/// A parsed shapefile: finished when no projection sidecar was given
/// (the native bounds are taken to be WGS-84 already), or awaiting the
/// projection of its native corners, which only a PROJ transform can
/// supply.  The corner bit patterns are the native doubles; for a
/// geographic source system the caller converts them to radians first,
/// as the transform expects.
#[derive(Debug)]
pub enum ShpOutcome {
    Ready(ShapeFileMetaData),
    NeedsProjection {
        proj_def: String,
        kind: ProjKind,
        top_left_bits: (u64, u64),
        bottom_right_bits: (u64, u64),
        tags: Vec<(String, String)>,
    },
}

/// The region a header denotes when its bounds are already WGS-84
/// degrees: nothing when a bound is not a finite double, or the bounds
/// do not form an ordered rectangle within the WGS-84 ranges - every
/// region the reader exposes is a well-formed rectangle in range.
pub open spec fn shp_native_region(h: ShapeFileHeader) -> Option<Region> {
    match (f64_units(h.x_min), f64_units(h.y_min), f64_units(h.x_max), f64_units(h.y_max)) {
        (Some(x0), Some(y0), Some(x1), Some(y1)) => {
            let region = Region { top_left: (x0, y1), bottom_right: (x1, y0) };
            if region.wf() && region.in_bounds() {
                Some(region)
            } else {
                None
            }
        },
        _ => None,
    }
}

/// Parse a shapefile: its 100-byte header gives the native bounds.
/// With no projection sidecar the bounds pass through as WGS-84
/// degrees.  With one, the sidecar's WKT is converted to a PROJ
/// definition whose kind decides how the corners are fed to the
/// transform; a geocentric source is rejected as unsupported.
pub fn parse_shapefile(shp: &[u8], prj: Option<&[u8]>) -> (r: Result<
    ShpOutcome,
    ShapeFileErrorKind,
>)
    ensures
        shp@.len() < 100 ==> r == Err::<ShpOutcome, ShapeFileErrorKind>(
            ShapeFileErrorKind::InvalidLength(shp@.len() as usize),
        ),
        shp@.len() >= 100 && !shp_magic_ok(shp@.subrange(0, 100)) ==> (r matches Err(
            ShapeFileErrorKind::UnexpectedMagicNumber(a),
        ) && a@ == shp@.subrange(0, 4)),
        shp@.len() >= 100 && shp_magic_ok(shp@.subrange(0, 100)) && prj is None ==> (match
            shp_native_region(shp_header_of(shp@.subrange(0, 100))) {
            Some(region) => (r matches Ok(ShpOutcome::Ready(m)) && m.region == region
                && shapefile_tags_ok(m.tags@)),
            None => (r matches Err(ShapeFileErrorKind::ProjectionError(_))),
        }),
        shp@.len() >= 100 && shp_magic_ok(shp@.subrange(0, 100)) ==> (prj matches Some(pb) ==> (
        if !valid_utf8(pb@) {
            r matches Err(ShapeFileErrorKind::ProjectionError(_))
        } else {
            match projstring_of_wkt(decode_utf8(pb@)) {
                None => r matches Err(ShapeFileErrorKind::ProjectionError(_)),
                Some(def) => {
                    // whether proj4rs accepts the definition is decided
                    // at run time; the successful outcome and the
                    // geocentric rejection are pinned to the string
                    &&& (r matches Ok(o) ==> ({
                        let h = shp_header_of(shp@.subrange(0, 100));
                        o matches ShpOutcome::NeedsProjection {
                            proj_def,
                            kind,
                            top_left_bits,
                            bottom_right_bits,
                            tags,
                        } && proj_def@ == def && kind == proj_kind_of(def) && kind
                            != ProjKind::Geocentric && top_left_bits == (h.x_min, h.y_max)
                            && bottom_right_bits == (h.x_max, h.y_min) && shapefile_tags_ok(tags@)
                    }))
                    &&& (r == Err::<ShpOutcome, ShapeFileErrorKind>(
                        ShapeFileErrorKind::UnsupportedProjection,
                    ) ==> proj_kind_of(def) == ProjKind::Geocentric)
                    &&& (r matches Err(e) ==> (e == ShapeFileErrorKind::UnsupportedProjection || (
                    e matches ShapeFileErrorKind::ProjectionError(_))))
                },
            }
        })),
{
    if shp.len() < 100 {
        return Err(ShapeFileErrorKind::InvalidLength(shp.len()));
    }
    let hb = slice_subrange(shp, 0, 100);
    proof {
        assert(hb@ =~= shp@.subrange(0, 100));
        assert(hb@.subrange(0, 4) =~= shp@.subrange(0, 4));
        assert(hb@.subrange(36, 44) =~= shp@.subrange(0, 100).subrange(36, 44));
    }
    let header = match parse_header(hb) {
        Ok(h) => h,
        Err(e) => {
            return Err(e);
        },
    };
    let mut tags: Vec<(String, String)> = Vec::new();
    tags.push((String::from_str("Filetype"), String::from_str("SHAPEFILE")));
    match prj {
        None => {
            // No projection sidecar: the bounds are taken to be WGS-84
            // degrees already.
            let x0 = match crate::fbits::units_from_f64_bits(header.x_min) {
                Some(v) => v,
                None => {
                    return Err(
                        ShapeFileErrorKind::ProjectionError(
                            String::from_str("the bounds are not representable"),
                        ),
                    );
                },
            };
            let y0 = match crate::fbits::units_from_f64_bits(header.y_min) {
                Some(v) => v,
                None => {
                    return Err(
                        ShapeFileErrorKind::ProjectionError(
                            String::from_str("the bounds are not representable"),
                        ),
                    );
                },
            };
            let x1 = match crate::fbits::units_from_f64_bits(header.x_max) {
                Some(v) => v,
                None => {
                    return Err(
                        ShapeFileErrorKind::ProjectionError(
                            String::from_str("the bounds are not representable"),
                        ),
                    );
                },
            };
            let y1 = match crate::fbits::units_from_f64_bits(header.y_max) {
                Some(v) => v,
                None => {
                    return Err(
                        ShapeFileErrorKind::ProjectionError(
                            String::from_str("the bounds are not representable"),
                        ),
                    );
                },
            };
            if !(x0 <= x1 && y1 >= y0) || !(-180 * crate::COORD_SCALE <= x0 && x1 <= 180
                * crate::COORD_SCALE && -90 * crate::COORD_SCALE <= y0 && y1 <= 90
                * crate::COORD_SCALE) {
                return Err(
                    ShapeFileErrorKind::ProjectionError(
                        String::from_str(
                            "the bounds do not form a rectangle within WGS-84 range",
                        ),
                    ),
                );
            }
            Ok(
                ShpOutcome::Ready(
                    ShapeFileMetaData {
                        region: Region { top_left: (x0, y1), bottom_right: (x1, y0) },
                        tags,
                    },
                ),
            )
        },
        Some(prj_bytes) => {
            let mut pv: Vec<u8> = Vec::new();
            let mut i: usize = 0;
            while i < prj_bytes.len()
                invariant
                    i <= prj_bytes@.len(),
                    pv@ == prj_bytes@.subrange(0, i as int),
                decreases prj_bytes@.len() - i,
            {
                pv.push(prj_bytes[i]);
                proof {
                    assert(pv@ =~= prj_bytes@.subrange(0, i + 1));
                }
                i = i + 1;
            }
            proof {
                assert(pv@ =~= prj_bytes@);
            }
            let wkt = match string_from_utf8(pv) {
                Some(s) => s,
                None => {
                    return Err(
                        ShapeFileErrorKind::ProjectionError(
                            String::from_str("the projection sidecar is not text"),
                        ),
                    );
                },
            };
            let def = match wkt_projstring(wkt.as_str()) {
                Some(d) => d,
                None => {
                    return Err(
                        ShapeFileErrorKind::ProjectionError(
                            String::from_str("the projection sidecar is not WKT"),
                        ),
                    );
                },
            };
            let kind = match projstring_kind(def.as_str()) {
                Some(k) => k,
                None => {
                    return Err(
                        ShapeFileErrorKind::ProjectionError(
                            String::from_str("the projection definition does not parse"),
                        ),
                    );
                },
            };
            if let ProjKind::Geocentric = kind {
                return Err(ShapeFileErrorKind::UnsupportedProjection);
            }
            Ok(
                ShpOutcome::NeedsProjection {
                    proj_def: def,
                    kind,
                    top_left_bits: (header.x_min, header.y_max),
                    bottom_right_bits: (header.x_max, header.y_min),
                    tags,
                },
            )
        },
    }
}

} // verus!
