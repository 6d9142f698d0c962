use vstd::prelude::*;

verus! {

/// The broad kind of a coordinate reference system, as proj4rs reports
/// it: a geographic (longitude/latitude) system, a geocentric one, or
/// any other (projected) system.
#[derive(Debug, Clone, Copy, PartialEq, Eq, Structural)]
pub enum ProjKind {
    Latlong,
    Geocentric,
    Other,
}

/// The PROJ definition string proj4wkt derives from a WKT text, if the
/// text parses as WKT.
pub uninterp spec fn projstring_of_wkt(w: Seq<char>) -> Option<Seq<char>>;

/// The PROJ definition string the embedded catalog holds for an EPSG
/// code, if the code is known.
pub uninterp spec fn crs_proj4_of(code: u16) -> Option<Seq<char>>;

/// The kind proj4rs assigns to an accepted PROJ definition string: it
/// comes from the projection parameter of the string alone.
pub uninterp spec fn proj_kind_of(s: Seq<char>) -> ProjKind;

/// Relies on crs_definitions::from_code: it returns the catalog's PROJ
/// definition string for the code, a function of the code alone.
#[verifier::external_body]
pub fn crs_proj4_def(code: u16) -> (r: Option<String>)
    ensures
        r is Some <==> crs_proj4_of(code) is Some,
        r matches Some(s) ==> Some(s@) == crs_proj4_of(code),
{
    crs_definitions::from_code(code).map(|def| def.proj4.to_string())
}

/// Relies on proj4rs::Proj::from_proj_string and Proj::projection_type.
/// Whether a definition parses can depend on the process's datum-grid
/// catalog, so nothing is promised of failure; the kind of an accepted
/// definition comes from its projection parameter alone and is pinned.
#[verifier::external_body]
pub fn projstring_kind(s: &str) -> (r: Option<ProjKind>)
    ensures
        r matches Some(k) ==> k == proj_kind_of(s@),
{
    match proj4rs::Proj::from_proj_string(s) {
        Ok(p) => Some(
            match p.projection_type() {
                proj4rs::proj::ProjType::Latlong => ProjKind::Latlong,
                proj4rs::proj::ProjType::Geocentric => ProjKind::Geocentric,
                proj4rs::proj::ProjType::Other => ProjKind::Other,
            },
        ),
        Err(_) => None,
    }
}

/// Relies on proj4wkt::wkt_to_projstring: the PROJ definition derived
/// from a WKT text is a function of the text alone.
#[verifier::external_body]
pub fn wkt_projstring(s: &str) -> (r: Option<String>)
    ensures
        r is Some <==> projstring_of_wkt(s@) is Some,
        r matches Some(p) ==> Some(p@) == projstring_of_wkt(s@),
{
    proj4wkt::wkt_to_projstring(s).ok()
}

} // verus!
