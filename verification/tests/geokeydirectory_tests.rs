use geoindex::geotiff::geokeydirectory::{GeoKey, GeoKeyDirectory, GeoKeyDirectoryHeader};
use std::collections::HashMap;

#[test]
fn test_geo_key_directory_header_from_shorts_valid() {
    let shorts = [1, 0, 0, 0];
    let result = GeoKeyDirectoryHeader::from_shorts(&shorts);
    assert!(result.is_ok());
    let header = result.unwrap();
    assert_eq!(header.key_revision, 0);
    assert_eq!(header.minor_revision, 0);
    assert_eq!(header.count, 0);
}

#[test]
fn test_geo_key_directory_header_from_shorts_invalid_length() {
    let shorts = [1, 0, 0];
    let result = GeoKeyDirectoryHeader::from_shorts(&shorts);
    assert!(result.is_err());
}

#[test]
fn test_geo_key_from_shorts_valid() {
    let shorts = [1, 0, 1, 10];
    let result = GeoKey::from_shorts(&shorts);
    assert!(result.is_ok());
    let key = result.unwrap();
    assert_eq!(key.id, 1);
    assert_eq!(key.location, 0);
    assert_eq!(key.count, 1);
    assert_eq!(key.value, Some(10));
}

#[test]
fn test_geo_key_from_shorts_invalid_length() {
    let shorts = [1, 0, 1];
    let result = GeoKey::from_shorts(&shorts);
    assert!(result.is_err());
}

#[test]
fn test_geo_key_directory_from_shorts_valid() {
    let shorts = vec![1, 0, 0, 1, 1, 0, 1, 10];
    let result = GeoKeyDirectory::from_shorts(&shorts);
    assert!(result.is_ok());
    let directory = result.unwrap();
    assert_eq!(directory.keys.len(), 1);
    assert!(directory.keys.contains_key(&1));
}

#[test]
fn test_geo_key_directory_from_shorts_invalid() {
    let shorts = vec![1, 0, 0];
    let result = GeoKeyDirectory::from_shorts(&shorts);
    assert!(result.is_err());
}

#[test]
fn test_geo_key_directory_header_unexpected_version() {
    let shorts = [2, 0, 0, 0];
    let result = GeoKeyDirectoryHeader::from_shorts(&shorts);
    assert!(result.is_err());
}

#[test]
fn test_geo_key_directory_header_unexpected_format() {
    let shorts = [1, 0, 0, 0, 0];
    let result = GeoKeyDirectoryHeader::from_shorts(&shorts);
    assert!(result.is_err());
}

#[test]
fn test_geo_key_directory_from_shorts_with_multiple_keys() {
    let shorts = vec![1, 0, 0, 2, 1, 0, 1, 10, 2, 0, 1, 20];
    let result = GeoKeyDirectory::from_shorts(&shorts);
    assert!(result.is_ok());
    let directory = result.unwrap();
    assert_eq!(directory.keys.len(), 2);
    assert!(directory.keys.contains_key(&1) && directory.keys.contains_key(&2));
}

#[test]
fn test_geo_key_directory_incorrect_header_length() {
    let incorrect_header = vec![1, 1, 0];
    let result = GeoKeyDirectory::from_shorts(&incorrect_header);
    assert!(result.is_err(), "Expected an error due to incorrect header length");
}

#[test]
fn test_geo_key_directory_unsupported_version() {
    let unsupported_version_header = vec![0, 1, 0, 1];
    let result = GeoKeyDirectory::from_shorts(&unsupported_version_header);
    assert!(result.is_err(), "Expected an error due to unsupported GeoKeyDirectory version");
}

fn prepare_geo_key_directory_with_valid_crs() -> GeoKeyDirectory {
    let header = GeoKeyDirectoryHeader { key_revision: 1, minor_revision: 0, count: 1 };

    let geographic_type_geo_key = GeoKey { id: 2048, location: 0, count: 1, value: Some(4326) };

    let mut keys = HashMap::new();
    keys.insert(geographic_type_geo_key.id, geographic_type_geo_key);

    GeoKeyDirectory { header, keys }
}

#[test]
fn test_get_projection_for_valid_crs_code() {
    let directory = prepare_geo_key_directory_with_valid_crs();
    let target_epsg = "EPSG:4326";

    let projection_result = directory.get_projection(target_epsg);

    assert!(projection_result.is_ok(), "Failed to get projection for a valid CRS code");
    assert_eq!(projection_result.unwrap(), 4326);
}

#[test]
fn test_get_projection_remaps_osgb() {
    let header = GeoKeyDirectoryHeader { key_revision: 1, minor_revision: 0, count: 1 };
    let key = GeoKey { id: 2048, location: 0, count: 1, value: Some(4277) };
    let mut keys = HashMap::new();
    keys.insert(key.id, key);
    let directory = GeoKeyDirectory { header, keys };
    assert_eq!(directory.get_projection("EPSG:4326").unwrap(), 27700);
}
