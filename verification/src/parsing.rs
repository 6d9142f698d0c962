use vstd::prelude::*;

use crate::dted::DTEDMap;
use crate::geojson::GEOJSONMap;
use crate::geotiff::GeoTiffMap;
use crate::gpkg::GPKGMap;
use crate::kml::KMLMap;
use crate::mbtiles::MBTilesMap;
use crate::shapefile::ShapeFileMap;

verus! {

/// A discovered map file, tagged by its format, with its sidecars.
#[derive(Debug, Clone)]
pub enum MapType {
    GEOTIFF(GeoTiffMap),
    DTED(DTEDMap),
    KML(KMLMap),
    GEOJSON(GEOJSONMap),
    MBTILES(MBTilesMap),
    GPKG(GPKGMap),
    SHAPEFILE(ShapeFileMap),
}

/// A file path, as discovery hands it on.
#[derive(Debug, Clone)]
pub struct FileMeta {
    pub path: String,
}

/// One regular file of a directory, described by its full path, its
/// stem, and its extension folded to lower case (file systems hand
/// names out in platform encoding, so the caller performs both
/// decompositions).
#[derive(Debug, Clone)]
pub struct FileEntry {
    pub path: String,
    pub stem: String,
    pub extension: String,
}

/// The path of the first file in the directory with the given stem and
/// extension: how a sidecar is matched to its primary.
pub open spec fn sidecar_from(files: Seq<FileEntry>, j: int, stem: Seq<char>, ext: Seq<char>) -> Option<String>
    decreases files.len() - j,
{
    if j < 0 || j >= files.len() {
        None
    } else if files[j].stem@ == stem && files[j].extension@ == ext {
        Some(files[j].path)
    } else {
        sidecar_from(files, j + 1, stem, ext)
    }
}

/// The map a directory entry denotes, by its extension: nothing for an
/// unrecognized extension.  GeoTIFF and shapefile primaries pick up
/// same-stem world-file and projection sidecars.
pub open spec fn kind_at(files: Seq<FileEntry>, i: int) -> Option<MapType> {
    let f = files[i];
    if f.extension@ == "tif"@ {
        Some(
            MapType::GEOTIFF(
                GeoTiffMap {
                    tiff: f.path,
                    tfw: sidecar_from(files, 0, f.stem@, "tfw"@),
                    prj: sidecar_from(files, 0, f.stem@, "prj"@),
                },
            ),
        )
    } else if f.extension@ == "kml"@ {
        Some(MapType::KML(KMLMap { path: f.path }))
    } else if f.extension@ == "dt1"@ || f.extension@ == "dt2"@ {
        Some(MapType::DTED(DTEDMap { path: f.path }))
    } else if f.extension@ == "geojson"@ {
        Some(MapType::GEOJSON(GEOJSONMap { path: f.path }))
    } else if f.extension@ == "mbtiles"@ {
        Some(MapType::MBTILES(MBTilesMap { path: f.path }))
    } else if f.extension@ == "gpkg"@ {
        Some(MapType::GPKG(GPKGMap { path: f.path }))
    } else if f.extension@ == "shp"@ {
        Some(
            MapType::SHAPEFILE(
                ShapeFileMap {
                    shp: f.path,
                    tfw: sidecar_from(files, 0, f.stem@, "tfw"@),
                    prj: sidecar_from(files, 0, f.stem@, "prj"@),
                },
            ),
        )
    } else {
        None
    }
}

/// The maps of the first `n` entries, in order, skipping unrecognized
/// extensions.
pub open spec fn classified_prefix(files: Seq<FileEntry>, n: int) -> Seq<MapType>
    decreases n,
{
    if n <= 0 {
        Seq::empty()
    } else {
        match kind_at(files, n - 1) {
            Some(k) => classified_prefix(files, n - 1).push(k),
            None => classified_prefix(files, n - 1),
        }
    }
}

/// Two optional paths hold the same text.
pub open spec fn opt_path_matches(a: Option<String>, b: Option<String>) -> bool {
    match (a, b) {
        (Some(x), Some(y)) => x@ == y@,
        (None, None) => true,
        _ => false,
    }
}

/// Two maps name the same format and the same file texts.
pub open spec fn map_type_matches(a: MapType, b: MapType) -> bool {
    match (a, b) {
        (MapType::GEOTIFF(x), MapType::GEOTIFF(y)) => x.tiff@ == y.tiff@ && opt_path_matches(
            x.tfw,
            y.tfw,
        ) && opt_path_matches(x.prj, y.prj),
        (MapType::DTED(x), MapType::DTED(y)) => x.path@ == y.path@,
        (MapType::KML(x), MapType::KML(y)) => x.path@ == y.path@,
        (MapType::GEOJSON(x), MapType::GEOJSON(y)) => x.path@ == y.path@,
        (MapType::MBTILES(x), MapType::MBTILES(y)) => x.path@ == y.path@,
        (MapType::GPKG(x), MapType::GPKG(y)) => x.path@ == y.path@,
        (MapType::SHAPEFILE(x), MapType::SHAPEFILE(y)) => x.shp@ == y.shp@ && opt_path_matches(
            x.tfw,
            y.tfw,
        ) && opt_path_matches(x.prj, y.prj),
        _ => false,
    }
}

fn find_sidecar(files: &Vec<FileEntry>, stem: &String, ext: &String) -> (r: Option<String>)
    ensures
        opt_path_matches(r, sidecar_from(files@, 0, stem@, ext@)),
{
    let mut j: usize = 0;
    while j < files.len()
        invariant
            j <= files@.len(),
            sidecar_from(files@, 0, stem@, ext@) == sidecar_from(files@, j as int, stem@, ext@),
        decreases files@.len() - j,
    {
        let cand = &files[j];
        if cand.stem == *stem && cand.extension == *ext {
            return Some(cand.path.clone());
        }
        j = j + 1;
    }
    None
}

/// Classify the regular files of one directory into maps: each
/// recognized extension yields one map, in directory order, with
/// sidecars matched by stem within the same directory.
pub fn classify_files(files: &Vec<FileEntry>) -> (r: Vec<MapType>)
    ensures
        r@.len() == classified_prefix(files@, files@.len() as int).len(),
        forall|i: int|
            0 <= i < r@.len() ==> map_type_matches(
                #[trigger] r@[i],
                classified_prefix(files@, files@.len() as int)[i],
            ),
{
    let mut build: Vec<MapType> = Vec::new();
    let mut i: usize = 0;
    while i < files.len()
        invariant
            i <= files@.len(),
            build@.len() == classified_prefix(files@, i as int).len(),
            forall|j: int|
                0 <= j < build@.len() ==> map_type_matches(
                    #[trigger] build@[j],
                    classified_prefix(files@, i as int)[j],
                ),
        decreases files@.len() - i,
    {
        let ext_tif = String::from_str("tif");
        let ext_tfw = String::from_str("tfw");
        let ext_prj = String::from_str("prj");
        let ext_kml = String::from_str("kml");
        let ext_dt1 = String::from_str("dt1");
        let ext_dt2 = String::from_str("dt2");
        let ext_geojson = String::from_str("geojson");
        let ext_mbtiles = String::from_str("mbtiles");
        let ext_gpkg = String::from_str("gpkg");
        let ext_shp = String::from_str("shp");
        let f = &files[i];
        if f.extension == ext_tif {
            let tfw = find_sidecar(files, &f.stem, &ext_tfw);
            let prj = find_sidecar(files, &f.stem, &ext_prj);
            build.push(MapType::GEOTIFF(GeoTiffMap { tiff: f.path.clone(), tfw, prj }));
        } else if f.extension == ext_kml {
            build.push(MapType::KML(KMLMap { path: f.path.clone() }));
        } else if f.extension == ext_dt1 || f.extension == ext_dt2 {
            build.push(MapType::DTED(DTEDMap { path: f.path.clone() }));
        } else if f.extension == ext_geojson {
            build.push(MapType::GEOJSON(GEOJSONMap { path: f.path.clone() }));
        } else if f.extension == ext_mbtiles {
            build.push(MapType::MBTILES(MBTilesMap { path: f.path.clone() }));
        } else if f.extension == ext_gpkg {
            build.push(MapType::GPKG(GPKGMap { path: f.path.clone() }));
        } else if f.extension == ext_shp {
            let tfw = find_sidecar(files, &f.stem, &ext_tfw);
            let prj = find_sidecar(files, &f.stem, &ext_prj);
            build.push(MapType::SHAPEFILE(ShapeFileMap { shp: f.path.clone(), tfw, prj }));
        }
        i = i + 1;
    }
    build
}

} // verus!
