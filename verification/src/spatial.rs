use vstd::prelude::*;

use crate::dted::DT2Region;
use crate::geojson::GeoJSONRegion;
use crate::geotiff::GeoTiffRegion;
use crate::gpkg::GPKGRegion;
use crate::kml::{lats, lons, seq_max, seq_min, KMLRegion};
use crate::mbtiles::MBTilesRegion;
use crate::COORD_SCALE;

verus! {

/// A geographic position as `(longitude, latitude)`, each a signed count
/// of 1/90,000,000 of a degree.
pub type Coordinate = (i64, i64);

/// Longitude within [-180, 180] degrees and latitude within [-90, 90]
/// degrees.
pub open spec fn coordinate_in_bounds(c: Coordinate) -> bool {
    -180 * COORD_SCALE <= c.0 <= 180 * COORD_SCALE && -90 * COORD_SCALE <= c.1 <= 90
        * COORD_SCALE
}

/// The uniform WGS-84 rectangle every parser's result is converted to.
/// The y axis increases upward: `top_left` is the north-western corner
/// and `bottom_right` the south-eastern one.
#[derive(Debug, Clone, Copy, PartialEq)]
pub struct Region {
    pub top_left: Coordinate,
    pub bottom_right: Coordinate,
}

impl Region {
    /// The corners are ordered: west of or at the east edge, and north
    /// of or at the south edge.
    pub open spec fn wf(self) -> bool {
        self.top_left.0 <= self.bottom_right.0 && self.top_left.1 >= self.bottom_right.1
    }

    /// Both corners lie within the WGS-84 longitude/latitude ranges.
    pub open spec fn in_bounds(self) -> bool {
        coordinate_in_bounds(self.top_left) && coordinate_in_bounds(self.bottom_right)
    }

    /// The south-western mirror corner.
    pub fn bottom_left(&self) -> (r: Coordinate)
        ensures
            r == (self.top_left.0, self.bottom_right.1),
    {
        (self.top_left.0, self.bottom_right.1)
    }

    /// The south-eastern corner.
    pub fn bottom_right(&self) -> (r: Coordinate)
        ensures
            r == self.bottom_right,
    {
        self.bottom_right
    }

    /// The north-western corner.
    pub fn top_left(&self) -> (r: Coordinate)
        ensures
            r == self.top_left,
    {
        self.top_left
    }

    /// The north-eastern mirror corner.
    pub fn top_right(&self) -> (r: Coordinate)
        ensures
            r == (self.bottom_right.0, self.top_left.1),
    {
        (self.bottom_right.0, self.top_left.1)
    }
}

impl From<GeoTiffRegion> for Region {
    /// A GeoTIFF footprint is already a pair of opposite corners.
    fn from(t: GeoTiffRegion) -> (r: Region) {
        Region { top_left: t.top_left, bottom_right: t.bottom_right }
    }
}

impl vstd::std_specs::convert::FromSpecImpl<GeoTiffRegion> for Region {
    open spec fn obeys_from_spec() -> bool {
        true
    }

    open spec fn from_spec(t: GeoTiffRegion) -> Region {
        Region { top_left: t.top_left, bottom_right: t.bottom_right }
    }
}

impl From<KMLRegion> for Region {
    /// A KML footprint names the south-western and north-eastern
    /// corners; the unified region is their mirror.
    fn from(t: KMLRegion) -> (r: Region) {
        Region {
            top_left: (t.bottom_left.0, t.top_right.1),
            bottom_right: (t.top_right.0, t.bottom_left.1),
        }
    }
}

impl vstd::std_specs::convert::FromSpecImpl<KMLRegion> for Region {
    open spec fn obeys_from_spec() -> bool {
        true
    }

    open spec fn from_spec(t: KMLRegion) -> Region {
        Region {
            top_left: (t.bottom_left.0, t.top_right.1),
            bottom_right: (t.top_right.0, t.bottom_left.1),
        }
    }
}

impl From<GeoJSONRegion> for Region {
    /// A GeoJSON footprint names the south-western and north-eastern
    /// corners; the unified region is their mirror.
    fn from(t: GeoJSONRegion) -> (r: Region) {
        Region {
            top_left: (t.bottom_left.0, t.top_right.1),
            bottom_right: (t.top_right.0, t.bottom_left.1),
        }
    }
}

impl vstd::std_specs::convert::FromSpecImpl<GeoJSONRegion> for Region {
    open spec fn obeys_from_spec() -> bool {
        true
    }

    open spec fn from_spec(t: GeoJSONRegion) -> Region {
        Region {
            top_left: (t.bottom_left.0, t.top_right.1),
            bottom_right: (t.top_right.0, t.bottom_left.1),
        }
    }
}

impl From<DT2Region> for Region {
    /// A DTED footprint keeps its north-western corner as `top_left`
    /// and its south-eastern corner as `bottom_right`.
    fn from(t: DT2Region) -> (r: Region) {
        Region { top_left: t.top_left, bottom_right: t.bottom_right }
    }
}

impl vstd::std_specs::convert::FromSpecImpl<DT2Region> for Region {
    open spec fn obeys_from_spec() -> bool {
        true
    }

    open spec fn from_spec(t: DT2Region) -> Region {
        Region { top_left: t.top_left, bottom_right: t.bottom_right }
    }
}

impl From<MBTilesRegion> for Region {
    fn from(t: MBTilesRegion) -> (r: Region) {
        Region { top_left: t.top_left, bottom_right: t.bottom_right }
    }
}

impl vstd::std_specs::convert::FromSpecImpl<MBTilesRegion> for Region {
    open spec fn obeys_from_spec() -> bool {
        true
    }

    open spec fn from_spec(t: MBTilesRegion) -> Region {
        Region { top_left: t.top_left, bottom_right: t.bottom_right }
    }
}

impl From<GPKGRegion> for Region {
    fn from(t: GPKGRegion) -> (r: Region) {
        Region { top_left: t.top_left, bottom_right: t.bottom_right }
    }
}

impl vstd::std_specs::convert::FromSpecImpl<GPKGRegion> for Region {
    open spec fn obeys_from_spec() -> bool {
        true
    }

    open spec fn from_spec(t: GPKGRegion) -> Region {
        Region { top_left: t.top_left, bottom_right: t.bottom_right }
    }
}

/// A region unified from a DTED file whose corners form a rectangle
/// keeps the north-western corner as `top_left` and the south-eastern
/// corner as `bottom_right`, and its mirror accessors rebuild the
/// north-eastern and south-western corners.
pub proof fn lemma_region_from_dted(t: DT2Region)
    requires
        t.top_right == (t.bottom_right.0, t.top_left.1),
        t.bottom_left == (t.top_left.0, t.bottom_right.1),
    ensures
        ({
            let r = <Region as vstd::std_specs::convert::FromSpec<DT2Region>>::from_spec(t);
            &&& r.top_left == t.top_left
            &&& r.bottom_right == t.bottom_right
            &&& (r.bottom_right.0, r.top_left.1) == t.top_right
            &&& (r.top_left.0, r.bottom_right.1) == t.bottom_left
        }),
{
}

/// A region unified from a bounding box over a non-empty coordinate
/// list is well formed: its west edge lies at or left of its east
/// edge, and its north edge at or above its south edge.
pub proof fn lemma_bbox_region_wf(cs: Seq<Coordinate>, k: KMLRegion)
    requires
        cs.len() > 0,
        k.bottom_left == (seq_min(lons(cs)), seq_min(lats(cs))),
        k.top_right == (seq_max(lons(cs)), seq_max(lats(cs))),
    ensures
        <Region as vstd::std_specs::convert::FromSpec<KMLRegion>>::from_spec(k).wf(),
{
    crate::kml::lemma_seq_min_max(lons(cs));
    crate::kml::lemma_seq_min_max(lats(cs));
    assert(lons(cs)[0] == cs[0].0 && lats(cs)[0] == cs[0].1);
}

/// A bounding box over coordinates that all lie within the WGS-84
/// ranges itself lies within them.
pub proof fn lemma_bbox_region_in_bounds(cs: Seq<Coordinate>, k: KMLRegion)
    requires
        cs.len() > 0,
        forall|i: int| 0 <= i < cs.len() ==> coordinate_in_bounds(#[trigger] cs[i]),
        k.bottom_left == (seq_min(lons(cs)), seq_min(lats(cs))),
        k.top_right == (seq_max(lons(cs)), seq_max(lats(cs))),
    ensures
        <Region as vstd::std_specs::convert::FromSpec<KMLRegion>>::from_spec(k).in_bounds(),
{
    crate::kml::lemma_seq_min_max(lons(cs));
    crate::kml::lemma_seq_min_max(lats(cs));
    let i1 = choose|i: int| 0 <= i < lons(cs).len() && lons(cs)[i] == seq_min(lons(cs));
    let i2 = choose|i: int| 0 <= i < lons(cs).len() && lons(cs)[i] == seq_max(lons(cs));
    let i3 = choose|i: int| 0 <= i < lats(cs).len() && lats(cs)[i] == seq_min(lats(cs));
    let i4 = choose|i: int| 0 <= i < lats(cs).len() && lats(cs)[i] == seq_max(lats(cs));
    assert(lons(cs)[i1] == cs[i1].0 && lons(cs)[i2] == cs[i2].0);
    assert(lats(cs)[i3] == cs[i3].1 && lats(cs)[i4] == cs[i4].1);
}

/// A region whose named corners are already ordered is well formed
/// after unification; this is how the corner-naming formats (DTED,
/// GeoTIFF, MBTiles, GeoPackage) yield well-formed regions.
pub proof fn lemma_corner_region_wf(r: Region)
    requires
        r.top_left.0 <= r.bottom_right.0,
        r.top_left.1 >= r.bottom_right.1,
    ensures
        r.wf(),
{
}

} // verus!
