//! Spatial discovery for a directory of geographic map files.
//!
//! The library derives a geographic footprint, an axis-aligned
//! latitude/longitude rectangle, from each supported container format,
//! keeps an in-memory spatial index over those footprints, and answers
//! rectangle queries against it.  Coordinates are held in a fixed-point
//! representation: signed 64-bit counts of 1/90,000,000 of a degree,
//! which represents exactly both arc-seconds and decimal fractions of up
//! to seven digits.

pub mod decimal;
pub mod dted;
pub mod error;
pub mod fbits;
pub mod geojson;
pub mod geotiff;
pub mod gpkg;
pub mod index;
pub mod io;
pub mod kml;
pub mod mbtiles;
pub mod parsing;
pub mod projection;
pub mod shapefile;
pub mod spatial;
pub mod util;
pub mod worker;

use vstd::prelude::*;

verus! {

/// Number of fixed-point coordinate units in one degree.
pub const COORD_SCALE: i64 = 90_000_000;

} // verus!
