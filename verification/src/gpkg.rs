use vstd::prelude::*;

use crate::spatial::{coordinate_in_bounds, Coordinate};

verus! {

/// The four bounds columns of a GeoPackage contents row, in coordinate
/// units.
#[derive(Debug, Clone, Copy, PartialEq)]
pub struct GPKG {
    pub min_x: i64,
    pub min_y: i64,
    pub max_x: i64,
    pub max_y: i64,
}

/// A GeoPackage footprint.
#[derive(Debug, Clone, Copy, PartialEq)]
pub struct GPKGRegion {
    pub top_left: Coordinate,
    pub bottom_right: Coordinate,
}

/// A parsed GeoPackage.
#[derive(Debug, Clone, PartialEq)]
pub struct GPKGMetaData {
    pub region: GPKGRegion,
    pub tags: Vec<(String, String)>,
}

/// A GeoPackage source file.
#[derive(Debug, Clone)]
pub struct GPKGMap {
    pub path: String,
}

/// The tag list every GeoPackage result carries.
pub open spec fn gpkg_tags_ok(tags: Seq<(String, String)>) -> bool {
    tags.len() == 1 && tags[0].0@ == "Filetype"@ && tags[0].1@ == "GPKG"@
}

/// Errors of the GeoPackage reader's compute step; the database steps
/// are the caller's.
#[derive(Debug, Clone, PartialEq)]
pub enum GPKGError {
    InvalidBounds,
}

/// The bounds form an ordered rectangle within the WGS-84 ranges.
pub open spec fn gpkg_bounds_ok(bounds: GPKG) -> bool {
    &&& bounds.min_x <= bounds.max_x
    &&& bounds.min_y <= bounds.max_y
    &&& coordinate_in_bounds((bounds.min_x, bounds.max_y))
    &&& coordinate_in_bounds((bounds.max_x, bounds.min_y))
}

/// Arrange the bounds of a contents row into a region: north-western
/// corner from the least easting and greatest northing, south-eastern
/// corner from their opposites.  Bounds that do not form an ordered
/// rectangle within the WGS-84 ranges are rejected.
pub fn gpkg_metadata(bounds: GPKG) -> (r: Result<GPKGMetaData, GPKGError>)
    ensures
        gpkg_bounds_ok(bounds) ==> (r matches Ok(m) && m.region == (GPKGRegion {
            top_left: (bounds.min_x, bounds.max_y),
            bottom_right: (bounds.max_x, bounds.min_y),
        }) && gpkg_tags_ok(m.tags@)),
        !gpkg_bounds_ok(bounds) ==> r == Err::<GPKGMetaData, GPKGError>(GPKGError::InvalidBounds),
{
    if !(bounds.min_x <= bounds.max_x && bounds.min_y <= bounds.max_y && -180
        * crate::COORD_SCALE <= bounds.min_x && bounds.max_x <= 180 * crate::COORD_SCALE && -90
        * crate::COORD_SCALE <= bounds.min_y && bounds.max_y <= 90 * crate::COORD_SCALE) {
        return Err(GPKGError::InvalidBounds);
    }
    let mut tags: Vec<(String, String)> = Vec::new();
    tags.push((String::from_str("Filetype"), String::from_str("GPKG")));
    Ok(
        GPKGMetaData {
            region: GPKGRegion {
                top_left: (bounds.min_x, bounds.max_y),
                bottom_right: (bounds.max_x, bounds.min_y),
            },
            tags,
        },
    )
}

} // verus!
