use geoindex::geotiff::entry::{EntryType, EntryValue, IFDEntry};
use geoindex::geotiff::error::{HeaderErrorState, TIFFErrorState};
use geoindex::geotiff::header::parse_header;
use geoindex::geotiff::{parse_tiff, GeoTiffRegion, TiffGeoData};
use geoindex::util::ByteOrder;
use geoindex::COORD_SCALE;

fn u(x: f64) -> i64 {
    (x * COORD_SCALE as f64).round() as i64
}

#[test]
fn header_test_parse_header_valid() {
    let buffer = [0x49, 0x49, 0x2A, 0x00, 0x08, 0x00, 0x00, 0x00];
    let result = parse_header(&buffer);
    assert!(result.is_ok());
    let (byte_order, ifd_offset) = result.unwrap();
    assert_eq!(byte_order, ByteOrder::LittleEndian);
    assert_eq!(ifd_offset, 8);
}

#[test]
fn test_parse_header_invalid_length() {
    let buffer = [0; 7];
    let result = parse_header(&buffer);
    assert!(matches!(
        result,
        Err(TIFFErrorState::HeaderError(HeaderErrorState::InvalidLength(_)))
    ));
}

#[test]
fn test_parse_header_unexpected_byte_order() {
    let buffer = [0x00, 0x00, 0x2A, 0x00, 0x08, 0x00, 0x00, 0x00];
    let result = parse_header(&buffer);
    assert!(matches!(
        result,
        Err(TIFFErrorState::HeaderError(HeaderErrorState::UnexpectedByteOrder(_)))
    ));
}

#[test]
fn test_parse_header_unexpected_magic_number() {
    let buffer = [0x49, 0x49, 0x00, 0x00, 0x08, 0x00, 0x00, 0x00];
    let result = parse_header(&buffer);
    assert!(matches!(
        result,
        Err(TIFFErrorState::HeaderError(HeaderErrorState::UnexpectedMagicNumber(_)))
    ));
}

#[test]
fn test_parse_header_valid_big_endian() {
    let buffer = [0x4D, 0x4D, 0x00, 0x2A, 0x00, 0x00, 0x00, 0x08];
    let result = parse_header(&buffer);
    assert!(result.is_ok());
    let (byte_order, ifd_offset) = result.unwrap();
    assert_eq!(byte_order, ByteOrder::BigEndian);
    assert_eq!(ifd_offset, 8);
}

#[test]
fn test_parse_header_specific_error_values() {
    let buffer = [0x00, 0x00, 0x2A, 0x00, 0x08, 0x00, 0x00, 0x00];
    if let Err(TIFFErrorState::HeaderError(HeaderErrorState::UnexpectedByteOrder(error_bytes))) =
        parse_header(&buffer)
    {
        assert_eq!(error_bytes, [0x00, 0x00]);
    } else {
        panic!("Expected UnexpectedByteOrder error");
    }

    let buffer = [0x49, 0x49, 0x00, 0x3B, 0x08, 0x00, 0x00, 0x00];
    if let Err(TIFFErrorState::HeaderError(HeaderErrorState::UnexpectedMagicNumber(error_bytes))) =
        parse_header(&buffer)
    {
        assert_eq!(error_bytes, [0x00, 0x3B]);
    } else {
        panic!("Expected UnexpectedMagicNumber error");
    }
}

#[test]
fn test_ifd_entry_new() {
    let entry_buf: [u8; 12] = [0, 1, 0, 3, 0, 0, 0, 1, 0, 0, 0, 0];
    let byte_order = ByteOrder::BigEndian;

    let result = IFDEntry::new(&entry_buf, &byte_order);
    assert!(result.is_ok(), "Failed to parse IFDEntry: {:?}", result);
    let ifd_entry = result.expect("Failed to parse IFDEntry");

    assert_eq!(ifd_entry.tag, 1);
    assert_eq!(ifd_entry.field_type, EntryType::SHORT);
    assert_eq!(ifd_entry.count, 1);
    assert_eq!(ifd_entry.associated_bytes, [0, 0, 0, 0]);
}

#[test]
fn test_resolve_bytes() {
    let file: Vec<u8> = vec![0, 1, 2, 3, 4, 5, 6, 7];
    let mut entry = IFDEntry {
        tag: 0,
        count: 4,
        field_type: EntryType::BYTES,
        associated_bytes: [0, 1, 2, 3],
        value: None,
    };
    let result = entry.resolve(&ByteOrder::LittleEndian, &file);
    assert!(result.is_ok());
    assert_eq!(result.unwrap(), &EntryValue::BYTES(vec![0, 1, 2, 3]));
}

#[test]
fn test_resolve_ascii() {
    let file: Vec<u8> = b"Hello\0".to_vec();
    let mut entry = IFDEntry {
        tag: 0,
        count: 6,
        field_type: EntryType::ASCII,
        associated_bytes: [0; 4],
        value: None,
    };
    let result = entry.resolve(&ByteOrder::LittleEndian, &file);
    assert!(result.is_ok());
    assert_eq!(result.unwrap(), &EntryValue::ASCII(vec!["Hello\0".to_string()]));
}

#[test]
fn test_resolve_short_direct() {
    let byte_order = ByteOrder::LittleEndian;
    let mut entry = IFDEntry {
        tag: 0,
        count: 2,
        field_type: EntryType::SHORT,
        associated_bytes: [1, 0, 2, 0],
        value: None,
    };
    let file: Vec<u8> = Vec::new();
    let result = entry.resolve(&byte_order, &file);
    assert!(result.is_ok());
    assert_eq!(result.unwrap(), &EntryValue::SHORT(vec![1, 2]));
}

#[test]
fn test_resolve_long() {
    let file: Vec<u8> = vec![1, 0, 0, 0, 2, 0, 0, 0];
    let mut entry = IFDEntry {
        tag: 0,
        count: 2,
        field_type: EntryType::LONG,
        associated_bytes: [0, 0, 0, 0],
        value: None,
    };
    let result = entry.resolve(&ByteOrder::LittleEndian, &file);
    assert!(result.is_ok());
    assert_eq!(result.unwrap(), &EntryValue::LONG(vec![1, 2]));
}

#[test]
fn test_resolve_rational() {
    let file: Vec<u8> = vec![1, 0, 0, 0, 2, 0, 0, 0, 3, 0, 0, 0, 4, 0, 0, 0];
    let mut entry = IFDEntry {
        tag: 0,
        count: 2,
        field_type: EntryType::RATIONAL,
        associated_bytes: [0, 0, 0, 0],
        value: None,
    };
    let result = entry.resolve(&ByteOrder::LittleEndian, &file);
    assert!(result.is_ok());
    assert_eq!(result.unwrap(), &EntryValue::RATIONAL(vec![(1, 2), (3, 4)]));
}

#[test]
fn test_invalid_entry_length() {
    let entry_buf = [0u8; 11];
    let byte_order = ByteOrder::LittleEndian;
    let result = IFDEntry::new(&entry_buf, &byte_order);
    assert!(matches!(
        result,
        Err(TIFFErrorState::IFDEntryError(
            geoindex::geotiff::error::IFDEntryErrorState::InvalidLength(_)
        ))
    ));
}

/// Build a one-directory little-endian TIFF whose five entries carry
/// the given pixel counts, scales, tie point, and EPSG code.
fn synthetic_tiff(width: u16, height: u16, sx: f64, sy: f64, x0: f64, y0: f64, epsg: u16) -> Vec<u8> {
    let mut d: Vec<u8> = Vec::new();
    d.extend_from_slice(&[0x49, 0x49, 0x2A, 0x00]);
    d.extend_from_slice(&8u32.to_le_bytes());
    // five 12-byte entries follow the count; values live past the directory
    d.extend_from_slice(&5u16.to_le_bytes());
    let scale_off: u32 = 8 + 2 + 5 * 12 + 4;
    let tie_off: u32 = scale_off + 24;
    let gkd_off: u32 = tie_off + 48;
    // 256 ImageWidth, SHORT x1
    d.extend_from_slice(&256u16.to_le_bytes());
    d.extend_from_slice(&3u16.to_le_bytes());
    d.extend_from_slice(&1u32.to_le_bytes());
    d.extend_from_slice(&(width as u32).to_le_bytes());
    // 257 ImageLength, SHORT x1
    d.extend_from_slice(&257u16.to_le_bytes());
    d.extend_from_slice(&3u16.to_le_bytes());
    d.extend_from_slice(&1u32.to_le_bytes());
    d.extend_from_slice(&(height as u32).to_le_bytes());
    // 33550 ModelPixelScale, DOUBLE x3
    d.extend_from_slice(&33550u16.to_le_bytes());
    d.extend_from_slice(&12u16.to_le_bytes());
    d.extend_from_slice(&3u32.to_le_bytes());
    d.extend_from_slice(&scale_off.to_le_bytes());
    // 33922 ModelTiepoint, DOUBLE x6
    d.extend_from_slice(&33922u16.to_le_bytes());
    d.extend_from_slice(&12u16.to_le_bytes());
    d.extend_from_slice(&6u32.to_le_bytes());
    d.extend_from_slice(&tie_off.to_le_bytes());
    // 34735 GeoKeyDirectory, SHORT x8
    d.extend_from_slice(&34735u16.to_le_bytes());
    d.extend_from_slice(&3u16.to_le_bytes());
    d.extend_from_slice(&8u32.to_le_bytes());
    d.extend_from_slice(&gkd_off.to_le_bytes());
    // next-directory offset
    d.extend_from_slice(&0u32.to_le_bytes());
    for v in [sx, sy, 0.0] {
        d.extend_from_slice(&v.to_le_bytes());
    }
    for v in [0.0, 0.0, 0.0, x0, y0, 0.0] {
        d.extend_from_slice(&v.to_le_bytes());
    }
    for v in [1u16, 1, 0, 1, 2048, 0, 1, epsg] {
        d.extend_from_slice(&v.to_le_bytes());
    }
    d
}

#[test]
fn test_tiff_extent() {
    let data = synthetic_tiff(2, 2, 0.5, 0.5, 10.0, 20.0, 4326);
    let result = parse_tiff(&data, None, None).unwrap();
    match result {
        TiffGeoData::Ready(md) => {
            assert_eq!(
                md.region,
                GeoTiffRegion {
                    top_left: (u(10.0), u(20.0)),
                    bottom_right: (u(11.0), u(19.0)),
                }
            );
            assert_eq!(md.tags, vec![("Filetype".to_string(), "TIFF".to_string())]);
        },
        other => panic!("expected a finished region, got {:?}", other),
    }
}

#[test]
fn test_tiff_osgb_needs_projection() {
    let data = synthetic_tiff(2, 2, 1.0, 1.0, 400000.0, 100000.0, 4277);
    let result = parse_tiff(&data, None, None).unwrap();
    match result {
        TiffGeoData::NeedsProjection { georef, tags } => {
            assert_eq!(georef.epsg_code, 27700);
            assert_eq!(georef.dimensions, (2, 2));
            assert_eq!(tags, vec![("Filetype".to_string(), "TIFF".to_string())]);
        },
        other => panic!("expected a pending projection, got {:?}", other),
    }
}

#[test]
fn test_tiff_without_geo_tags() {
    // a sound header and an empty directory: no georeference at all
    let mut d: Vec<u8> = Vec::new();
    d.extend_from_slice(&[0x49, 0x49, 0x2A, 0x00]);
    d.extend_from_slice(&8u32.to_le_bytes());
    d.extend_from_slice(&0u16.to_le_bytes());
    d.extend_from_slice(&0u32.to_le_bytes());
    let result = parse_tiff(&d, None, None);
    assert!(matches!(result, Err(TIFFErrorState::NotEnoughGeoData)));
}

#[test]
fn test_tiff_world_file_sidecar_alone_is_parsed() {
    // a lone world file is ignored; the embedded georeference decides
    let data = synthetic_tiff(2, 2, 0.5, 0.5, 10.0, 20.0, 4326);
    let tfw = b"0.5\n0.0\n0.0\n-0.5\n10.0\n20.0\n";
    let result = parse_tiff(&data, Some(tfw.as_slice()), None).unwrap();
    assert!(matches!(result, TiffGeoData::Ready(_)));
}

#[test]
fn test_tiff_both_sidecars_refused() {
    let data = synthetic_tiff(2, 2, 0.5, 0.5, 10.0, 20.0, 4326);
    let tfw = b"0.5\n0.0\n0.0\n-0.5\n10.0\n20.0\n";
    let prj = b"GEOGCS[whatever]";
    let result = parse_tiff(&data, Some(tfw.as_slice()), Some(prj.as_slice()));
    assert!(matches!(result, Err(TIFFErrorState::NotEnoughGeoData)));
}

#[test]
fn test_tiff_reversed_scale_rejected() {
    // a negative pixel scale would put the bottom-right corner west of
    // the top-left one
    let data = synthetic_tiff(2, 2, -0.5, 0.5, 10.0, 20.0, 4326);
    let result = parse_tiff(&data, None, None);
    assert!(matches!(result, Err(TIFFErrorState::ProjectionError(_))));
}

#[test]
fn test_tiff_unknown_crs() {
    let data = synthetic_tiff(2, 2, 0.5, 0.5, 10.0, 20.0, 65000);
    let result = parse_tiff(&data, None, None);
    assert!(matches!(result, Err(TIFFErrorState::UnsupportedCrs(65000))));
}
