use geoindex::dted::DT2Region;
use geoindex::geojson::{parse_geojson, GeoJSONErrorState};
use geoindex::gpkg::{gpkg_metadata, GPKG, GPKGRegion};
use geoindex::kml::{get_boundaries, parse_kml, KMLErrorState};
use geoindex::mbtiles::{parse_bounds_value, MBTilesRegion};
use geoindex::shapefile::{parse_shapefile, ShapeFileErrorKind, ShpOutcome};
use geoindex::shapefile::FromBytes;
use geoindex::spatial::Region;
use geoindex::COORD_SCALE;

fn u(x: f64) -> i64 {
    (x * COORD_SCALE as f64).round() as i64
}

#[test]
fn test_kml_bounds_scenario() {
    let kml = br#"
        <kml>
            <Document>
                <Placemark>
                    <Point>
                        <coordinates>-122.08,37.42,0</coordinates>
                    </Point>
                </Placemark>
                <Placemark>
                    <Point>
                        <coordinates>-123.08,38.42,0</coordinates>
                    </Point>
                </Placemark>
            </Document>
        </kml>
    "#;
    let meta = parse_kml(kml).unwrap();
    assert_eq!(meta.region.bottom_left, (u(-123.08), u(37.42)));
    assert_eq!(meta.region.top_right, (u(-122.08), u(38.42)));
    let unified: Region = meta.region.into();
    assert_eq!(unified.top_left, (u(-123.08), u(38.42)));
    assert_eq!(unified.bottom_right, (u(-122.08), u(37.42)));
}

#[test]
fn test_empty_kml() {
    let kml = br#"<kml></kml>"#;
    let result = parse_kml(kml);
    assert!(matches!(result, Err(KMLErrorState::NotEnoughGeoData)));
}

#[test]
fn test_parse_kml_empty_coordinates() {
    let kml = br#"
        <kml>
            <Document>
                <Placemark>
                    <Point>
                        <coordinates></coordinates>
                    </Point>
                </Placemark>
            </Document>
        </kml>
    "#;
    let result = parse_kml(kml);
    assert!(matches!(result, Err(KMLErrorState::NotEnoughGeoData)));
}

#[test]
fn test_parse_kml_with_invalid_coordinates_format() {
    let kml = br#"
        <kml>
            <Document>
                <Placemark>
                    <Point>
                        <coordinates>abc,xyz,0</coordinates>
                    </Point>
                </Placemark>
            </Document>
        </kml>
    "#;
    let result = parse_kml(kml);
    assert!(matches!(result, Err(KMLErrorState::UnexpectedFormat(_))));
}

#[test]
fn test_parse_kml_multiple_placemarks() {
    let kml = br#"
        <kml>
            <Document>
                <Placemark>
                    <Point>
                        <coordinates>-122.0,37.0,0</coordinates>
                    </Point>
                </Placemark>
                <Placemark>
                    <Point>
                        <coordinates>-123.0,38.0,0</coordinates>
                    </Point>
                </Placemark>
            </Document>
        </kml>
    "#;
    let result = parse_kml(kml).unwrap();
    assert_eq!(result.region.bottom_left, (u(-123.0), u(37.0)));
    assert_eq!(result.region.top_right, (u(-122.0), u(38.0)));
}

#[test]
fn test_parse_kml_insufficient_coordinates() {
    let kml = br#"
        <kml>
            <Document>
                <Placemark>
                    <Point>
                        <coordinates>-122.08,37.42,0</coordinates>
                    </Point>
                </Placemark>
            </Document>
        </kml>
    "#;
    let result = parse_kml(kml);
    assert!(result.is_ok());
}

#[test]
fn test_get_boundaries() {
    let coordinates = vec![
        (u(0.0), u(0.0)),
        (u(2.0), u(2.0)),
        (u(0.0), u(2.0)),
        (u(2.0), u(0.0)),
    ];
    let (bottom_left, top_right) = get_boundaries(coordinates);
    assert_eq!(bottom_left, (u(0.0), u(0.0)));
    assert_eq!(top_right, (u(2.0), u(2.0)));
}

#[test]
fn test_parse_geojson_valid() {
    let geojson_data = br#"{
        "type": "Feature",
        "geometry": {
            "type": "Polygon",
            "coordinates": [[[0.0, 0.0], [2.0, 0.0], [2.0, 2.0], [0.0, 2.0], [0.0, 0.0]]]
        }
    }"#;
    let result = parse_geojson(geojson_data);
    assert!(result.is_ok());
    let meta = result.unwrap();
    assert_eq!(meta.region.bottom_left, (u(0.0), u(0.0)));
    assert_eq!(meta.region.top_right, (u(2.0), u(2.0)));
}

#[test]
fn test_geojson_unparsable_coordinate() {
    let geojson_data = br#"{"coordinates": [[1.0e500x, 2.0]]}"#;
    let result = parse_geojson(geojson_data);
    assert!(
        matches!(result, Err(GeoJSONErrorState::UnparsableCoordinate(_)))
            || matches!(result, Err(GeoJSONErrorState::InvalidJSON(_)))
    );
}

#[test]
fn test_geojson_exponent_parses() {
    let geojson_data = br#"{"coordinates": [[1.5e1, 2.0e0]]}"#;
    let meta = parse_geojson(geojson_data).unwrap();
    assert_eq!(meta.region.bottom_left, (u(15.0), u(2.0)));
    assert_eq!(meta.region.top_right, (u(15.0), u(2.0)));
}

#[test]
fn test_geojson_out_of_range_coordinate_rejected() {
    // 1.5e3 is 1500 degrees: a fine number, but no longitude
    let geojson_data = br#"{"coordinates": [[1.5e3, 2.0]]}"#;
    let result = parse_geojson(geojson_data);
    assert!(matches!(result, Err(GeoJSONErrorState::UnexpectedFormat(_))));
}

#[test]
fn test_gpkg_bounds() {
    let meta = gpkg_metadata(GPKG { min_x: u(10.1), min_y: u(20.2), max_x: u(30.3), max_y: u(40.4) })
        .unwrap();
    assert_eq!(
        meta.region,
        GPKGRegion { top_left: (u(10.1), u(40.4)), bottom_right: (u(30.3), u(20.2)) }
    );
    assert!(meta.tags.iter().any(|(k, v)| k == "Filetype" && v == "GPKG"));
}

#[test]
fn test_mbtiles_bounds_value() {
    let region = parse_bounds_value(b"10.1,20.2,30.3,40.4").unwrap();
    assert_eq!(
        region,
        MBTilesRegion { top_left: (u(10.1), u(40.4)), bottom_right: (u(30.3), u(20.2)) }
    );
}

#[test]
fn test_mbtiles_bounds_value_trimmed() {
    let region = parse_bounds_value(b" 1.5 , -2.5 ,3.5, 4.5 ").unwrap();
    assert_eq!(
        region,
        MBTilesRegion { top_left: (u(1.5), u(4.5)), bottom_right: (u(3.5), u(-2.5)) }
    );
}

#[test]
fn test_mbtiles_bounds_value_rejects_garbage() {
    assert!(parse_bounds_value(b"1,2,3").is_err());
    assert!(parse_bounds_value(b"a,b,c,d").is_err());
    assert!(parse_bounds_value(b"").is_err());
}

#[test]
fn test_mbtiles_bounds_value_rejects_out_of_range() {
    // a latitude of 95 degrees is outside WGS-84
    assert!(parse_bounds_value(b"10.0,20.0,30.0,95.0").is_err());
    // west of east reversed
    assert!(parse_bounds_value(b"30.0,20.0,10.0,40.0").is_err());
}

#[test]
fn test_gpkg_rejects_out_of_range() {
    assert!(gpkg_metadata(GPKG { min_x: u(10.0), min_y: u(20.0), max_x: u(200.0), max_y: u(40.0) })
        .is_err());
}

fn shp_header_bytes(x_min: f64, y_min: f64, x_max: f64, y_max: f64) -> Vec<u8> {
    let mut header_bytes = vec![0u8; 100];
    header_bytes[0] = 0;
    header_bytes[1] = 0;
    header_bytes[2] = 39;
    header_bytes[3] = 10;
    header_bytes[36..44].copy_from_slice(&x_min.to_le_bytes());
    header_bytes[44..52].copy_from_slice(&y_min.to_le_bytes());
    header_bytes[52..60].copy_from_slice(&x_max.to_le_bytes());
    header_bytes[60..68].copy_from_slice(&y_max.to_le_bytes());
    header_bytes
}

#[test]
fn test_from_bytes_f64() {
    let bytes = 42.42f64.to_le_bytes();
    let result = f64::from_bits(u64::from_bytes(&bytes));
    assert!((result - 42.42).abs() < f64::EPSILON);
}

#[test]
fn shapefile_test_parse_header_valid() {
    let mut header_bytes = vec![0u8; 100];
    header_bytes[0] = 0;
    header_bytes[1] = 0;
    header_bytes[2] = 39;
    header_bytes[3] = 10;
    let x_min_bytes = (-123.456f64).to_le_bytes();
    header_bytes[36..44].copy_from_slice(&x_min_bytes);

    let header = geoindex::shapefile::parse_header(&header_bytes).unwrap();
    assert_eq!(f64::from_bits(header.x_min), -123.456);
}

#[test]
fn test_parse_header_invalid_magic_number() {
    let header_bytes = vec![0u8; 100];
    assert!(geoindex::shapefile::parse_header(&header_bytes).is_err());
}

#[test]
fn test_shapefile_without_projection_passes_through() {
    let shp = shp_header_bytes(-10.0, -5.0, 10.0, 5.0);
    match parse_shapefile(&shp, None).unwrap() {
        ShpOutcome::Ready(meta) => {
            assert_eq!(meta.region.top_left, (u(-10.0), u(5.0)));
            assert_eq!(meta.region.bottom_right, (u(10.0), u(-5.0)));
            assert!(meta.tags.iter().any(|(k, v)| k == "Filetype" && v == "SHAPEFILE"));
        },
        other => panic!("expected a finished region, got {:?}", other),
    }
}

#[test]
fn test_shapefile_with_projection_awaits_transform() {
    let shp = shp_header_bytes(-1.0, -1.0, 1.0, 1.0);
    let wkt = br#"GEOGCS["WGS 84",DATUM["WGS_1984",SPHEROID["WGS 84",6378137,298.257223563]],PRIMEM["Greenwich",0],UNIT["degree",0.0174532925199433]]"#;
    match parse_shapefile(&shp, Some(wkt.as_slice())).unwrap() {
        ShpOutcome::NeedsProjection { kind, top_left_bits, bottom_right_bits, .. } => {
            assert_eq!(kind, geoindex::projection::ProjKind::Latlong);
            assert_eq!(top_left_bits, ((-1.0f64).to_bits(), 1.0f64.to_bits()));
            assert_eq!(bottom_right_bits, (1.0f64.to_bits(), (-1.0f64).to_bits()));
        },
        other => panic!("expected a pending projection, got {:?}", other),
    }
}

#[test]
fn test_shapefile_invalid_projection_sidecar() {
    let shp = shp_header_bytes(-1.0, -1.0, 1.0, 1.0);
    let result = parse_shapefile(&shp, Some(b"INVALID_PROJECTION".as_slice()));
    assert!(matches!(result, Err(ShapeFileErrorKind::ProjectionError(_))));
}

#[test]
fn test_region_from_dted_corners() {
    let t = DT2Region {
        top_left: (u(10.0), u(100.0)),
        top_right: (u(0.5), u(0.5)),
        bottom_right: (u(0.0125), u(0.0125)),
        bottom_left: (u(0.0), u(0.0)),
    };
    let r: Region = t.into();
    assert_eq!(r.top_left, (u(10.0), u(100.0)));
    assert_eq!(r.bottom_right, (u(0.0125), u(0.0125)));
}

#[test]
fn test_region_mirror_accessors() {
    let r = Region { top_left: (u(1.0), u(4.0)), bottom_right: (u(3.0), u(2.0)) };
    assert_eq!(r.bottom_left(), (u(1.0), u(2.0)));
    assert_eq!(r.top_right(), (u(3.0), u(4.0)));
    assert_eq!(r.top_left(), (u(1.0), u(4.0)));
    assert_eq!(r.bottom_right(), (u(3.0), u(2.0)));
}
