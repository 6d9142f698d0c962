use vstd::prelude::*;

use crate::decimal::dec_units;
use crate::decimal::parse_decimal;
use crate::kml::{field_end, is_ws, lemma_field_end_bounds, skip_ws};
use crate::spatial::{coordinate_in_bounds, Coordinate};
use vstd::slice::slice_subrange;

verus! {

/// An MBTiles footprint.
#[derive(Debug, Clone, Copy, PartialEq)]
pub struct MBTilesRegion {
    pub top_left: Coordinate,
    pub bottom_right: Coordinate,
}

/// A parsed MBTiles file.
#[derive(Debug, Clone, PartialEq)]
pub struct MBTilesMetaData {
    pub region: MBTilesRegion,
    pub tags: Vec<(String, String)>,
}

/// An MBTiles source file.
#[derive(Debug, Clone)]
pub struct MBTilesMap {
    pub path: String,
}

/// Errors of the MBTiles reader: the database steps, which the caller
/// performs, and the parse of the bounds value.
#[derive(Debug, Clone, PartialEq)]
pub enum MBTilesError {
    ConnectionFailure(String),
    QueryFailure(String),
    RowFailure(String),
    UnparsableBounds(String),
}

/// The tag list every MBTiles result carries.
pub open spec fn mbtiles_tags_ok(tags: Seq<(String, String)>) -> bool {
    tags.len() == 1 && tags[0].0@ == "Filetype"@ && tags[0].1@ == "MBTILES"@
}

/// The position after the last non-whitespace byte before `e`.
pub open spec fn trim_end_pos(b: Seq<u8>, e: int) -> int
    decreases e,
{
    if e <= 0 || !is_ws(b[e - 1]) {
        e
    } else {
        trim_end_pos(b, e - 1)
    }
}

pub proof fn lemma_trim_end_bounds(b: Seq<u8>, e: int)
    requires
        e >= 0,
    ensures
        0 <= trim_end_pos(b, e) <= e,
    decreases e,
{
    if e > 0 && is_ws(b[e - 1]) {
        lemma_trim_end_bounds(b, e - 1);
    }
}

/// Skipping whitespace never passes a non-whitespace byte.
pub proof fn lemma_skip_ws_le(b: Seq<u8>, i: int, j: int)
    requires
        0 <= i <= j < b.len(),
        !is_ws(b[j]),
    ensures
        skip_ws(b, i) <= j,
    decreases j - i,
{
    if i < j && is_ws(b[i]) {
        lemma_skip_ws_le(b, i + 1, j);
    }
}

/// The value of one comma-separated field: its bytes with surrounding
/// whitespace trimmed, read as a decimal literal.
pub open spec fn field_value(b: Seq<u8>, i: int, c: int) -> Option<i64> {
    let lo = skip_ws(b, i);
    let hi = trim_end_pos(b, c);
    if lo >= hi {
        None
    } else {
        dec_units(b.subrange(lo, hi))
    }
}

/// The decimal values of the comma-separated fields from position `i`
/// on; nothing once a field fails to parse.
pub open spec fn bounds_values(b: Seq<u8>, i: int) -> Option<Seq<i64>>
    decreases b.len() - i,
{
    let c = field_end(b, i, b.len() as int);
    if i < 0 || c < i || c > b.len() {
        None
    } else {
        match field_value(b, i, c) {
            None => None,
            Some(v) => if c >= b.len() {
                Some(seq![v])
            } else {
                match bounds_values(b, c + 1) {
                    None => None,
                    Some(rest) => Some(seq![v] + rest),
                }
            },
        }
    }
}

fn trim_end_exec(b: &[u8], e: usize) -> (r: usize)
    requires
        e <= b@.len(),
    ensures
        r == trim_end_pos(b@, e as int),
        r <= e,
{
    let mut j: usize = e;
    while j > 0 && ws_byte(b[j - 1])
        invariant
            j <= e <= b@.len(),
            trim_end_pos(b@, e as int) == trim_end_pos(b@, j as int),
        decreases j,
    {
        j = j - 1;
    }
    j
}

fn ws_byte(c: u8) -> (r: bool)
    ensures
        r == is_ws(c),
{
    c == 32 || (9 <= c && c <= 13)
}

fn skip_ws_exec(b: &[u8], i: usize) -> (r: usize)
    requires
        i <= b@.len(),
    ensures
        r == skip_ws(b@, i as int),
        i <= r <= b@.len(),
{
    let mut j: usize = i;
    while j < b.len() && ws_byte(b[j])
        invariant
            i <= j <= b@.len(),
            skip_ws(b@, i as int) == skip_ws(b@, j as int),
        decreases b@.len() - j,
    {
        j = j + 1;
    }
    j
}

fn field_end_exec(b: &[u8], i: usize, e: usize) -> (r: usize)
    requires
        i <= e <= b@.len(),
    ensures
        r == field_end(b@, i as int, e as int),
        i <= r <= e,
{
    let mut j: usize = i;
    while j < e && b[j] != 44
        invariant
            i <= j <= e <= b@.len(),
            field_end(b@, i as int, e as int) == field_end(b@, j as int, e as int),
        decreases e - j,
    {
        j = j + 1;
    }
    j
}

/// The four bounds fields form an ordered rectangle within the WGS-84
/// ranges.
pub open spec fn bounds_region_ok(vs: Seq<i64>) -> bool {
    &&& vs[0] <= vs[2]
    &&& vs[3] >= vs[1]
    &&& coordinate_in_bounds((vs[0], vs[3]))
    &&& coordinate_in_bounds((vs[2], vs[1]))
}

/// Parse the `bounds` metadata value of an MBTiles database: at least
/// four comma-separated decimal fields `west,south,east,north`, each
/// trimmed of surrounding whitespace, arranged into a region, which
/// must be an ordered rectangle within the WGS-84 ranges.
#[verifier::rlimit(100)]
pub fn parse_bounds_value(value: &[u8]) -> (r: Result<MBTilesRegion, MBTilesError>)
    ensures
        bounds_values(value@, 0) matches Some(vs) ==> (vs.len() >= 4 && bounds_region_ok(vs) ==> r
            == Ok::<MBTilesRegion, MBTilesError>(
            MBTilesRegion { top_left: (vs[0], vs[3]), bottom_right: (vs[2], vs[1]) },
        )),
        bounds_values(value@, 0) matches Some(vs) ==> (vs.len() >= 4 && !bounds_region_ok(vs)
            ==> (r matches Err(MBTilesError::UnparsableBounds(_)))),
        bounds_values(value@, 0) is None || (bounds_values(value@, 0) matches Some(vs) && vs.len()
            < 4) ==> (r matches Err(MBTilesError::UnparsableBounds(_))),
{
    let mut vals: Vec<i64> = Vec::new();
    let mut pos: usize = 0;
    let n: usize = value.len();
    loop
        invariant_except_break
            bounds_values(value@, pos as int) matches Some(rest) ==> (bounds_values(value@, 0)
                matches Some(all) && all == vals@ + rest),
            bounds_values(value@, pos as int) is None ==> bounds_values(value@, 0) is None,
        invariant
            pos <= n,
            n == value@.len(),
        ensures
            bounds_values(value@, 0) matches Some(all) && all == vals@,
        decreases n - pos,
    {
        let c = field_end_exec(value, pos, n);
        let lo = skip_ws_exec(value, pos);
        let hi = trim_end_exec(value, c);
        proof {
            lemma_field_end_bounds(value@, pos as int, n as int);
            if c < n {
                assert(value@[c as int] == 44);
                assert(!is_ws(value@[c as int]));
                lemma_skip_ws_le(value@, pos as int, c as int);
            }
            lemma_trim_end_bounds(value@, c as int);
        }
        if lo >= hi {
            proof {
                assert(field_value(value@, pos as int, c as int) is None);
            }
            return Err(
                MBTilesError::UnparsableBounds(String::from_str("empty bounds field")),
            );
        }
        let fb = slice_subrange(value, lo, hi);
        proof {
            assert(fb@ =~= value@.subrange(lo as int, hi as int));
        }
        let v = match parse_decimal(fb) {
            Some(v) => v,
            None => {
                proof {
                    assert(field_value(value@, pos as int, c as int) is None);
                }
                return Err(
                    MBTilesError::UnparsableBounds(
                        String::from_str("bounds field is not a decimal"),
                    ),
                );
            },
        };
        vals.push(v);
        proof {
            assert(field_value(value@, pos as int, c as int) == Some(v));
            let prev = vals@.drop_last();
            assert(prev =~= vals@.subrange(0, vals@.len() - 1));
            if c < n {
                if bounds_values(value@, c + 1) is Some {
                    let rest = bounds_values(value@, c + 1)->Some_0;
                    assert(bounds_values(value@, pos as int) == Some(seq![v] + rest));
                    assert(prev + (seq![v] + rest) =~= vals@ + rest);
                }
            } else {
                assert(bounds_values(value@, pos as int) == Some(seq![v]));
                assert(prev + seq![v] =~= vals@);
                assert(vals@ + Seq::<i64>::empty() =~= vals@);
            }
        }
        if c >= n {
            proof {
                if bounds_values(value@, 0) is Some {
                    let all = bounds_values(value@, 0)->Some_0;
                    assert(all == vals@ + Seq::<i64>::empty());
                    assert(vals@ + Seq::<i64>::empty() =~= vals@);
                }
            }
            break;
        }
        pos = c + 1;
    }
    if vals.len() < 4 {
        return Err(
            MBTilesError::UnparsableBounds(
                String::from_str("expected four bounds fields"),
            ),
        );
    }
    let west = vals[0];
    let south = vals[1];
    let east = vals[2];
    let north = vals[3];
    if !(west <= east && north >= south && -180 * crate::COORD_SCALE <= west && east <= 180
        * crate::COORD_SCALE && -90 * crate::COORD_SCALE <= south && north <= 90
        * crate::COORD_SCALE) {
        return Err(
            MBTilesError::UnparsableBounds(
                String::from_str("the bounds do not form a rectangle within WGS-84 range"),
            ),
        );
    }
    Ok(MBTilesRegion { top_left: (west, north), bottom_right: (east, south) })
}

/// Attach the MBTiles tag list to a parsed region.
pub fn mbtiles_metadata(region: MBTilesRegion) -> (r: MBTilesMetaData)
    ensures
        r.region == region,
        mbtiles_tags_ok(r.tags@),
{
    let mut tags: Vec<(String, String)> = Vec::new();
    tags.push((String::from_str("Filetype"), String::from_str("MBTILES")));
    MBTilesMetaData { region, tags }
}

} // verus!
