use geoindex::dted::{parse_dddmmssh, parse_ddmmssh, parse_dted, DataSetIdentification,
    UserHeaderLabel};
use geoindex::COORD_SCALE;

/// Rebuild the decimal degrees a coordinate-unit count encodes, going
/// through the degree/minute/second split so the floating-point
/// rounding matches a plain `d + m/60 + s/3600` evaluation.
fn dms_degrees(units: i64) -> f64 {
    let arc = units / 25_000;
    let (sign, arc) = if arc < 0 { (-1.0, -arc) } else { (1.0, arc) };
    let d = arc / 3600;
    let m = (arc % 3600) / 60;
    let s = arc % 60;
    sign * (d as f64 + m as f64 / 60.0 + s as f64 / 3600.0)
}

fn degrees(units: i64) -> f64 {
    units as f64 / COORD_SCALE as f64
}

#[test]
fn test_parse_dddmmssh_valid() {
    let data = b"1230456E";
    assert_eq!(dms_degrees(parse_dddmmssh(data).unwrap()), 123.08222222222221);
}

#[test]
fn test_parse_dddmmssh_invalid_length() {
    let data = b"123456";
    assert!(parse_dddmmssh(data).is_err());
}

#[test]
fn test_parse_dddmmssh_invalid_hemisphere() {
    let data = b"1230456X";
    assert!(parse_dddmmssh(data).is_err());
}

#[test]
fn test_parse_ddmmssh_valid() {
    let data = b"120456E";
    assert_eq!(dms_degrees(parse_ddmmssh(data).unwrap()), 12.082222222222223);
}

#[test]
fn test_parse_ddmmssh_invalid_length() {
    let data = b"123456";
    assert!(parse_ddmmssh(data).is_err());
}

#[test]
fn test_parse_ddmmssh_invalid_hemisphere() {
    let data = b"123045X";
    assert!(parse_ddmmssh(data).is_err());
}

#[test]
fn test_parse_ddmmssh_zero() {
    assert_eq!(parse_ddmmssh(b"000000N").unwrap(), 0);
    assert_eq!(dms_degrees(parse_ddmmssh(b"000000N").unwrap()), 0.0);
}

#[test]
fn test_parse_ddmmssh_southern_sign() {
    assert_eq!(parse_ddmmssh(b"120456S").unwrap(), -parse_ddmmssh(b"120456N").unwrap());
}

#[test]
fn test_user_header_label_from_bytes() {
    let mut buffer = [0u8; 80];
    buffer[0..4].copy_from_slice(&[85, 72, 76, 49]);
    buffer[4..12].copy_from_slice(&[49, 50, 51, 48, 52, 53, 54, 69]);
    buffer[12..20].copy_from_slice(&[48, 55, 56, 49, 53, 52, 54, 78]);

    let result = UserHeaderLabel::from_bytes(&buffer);
    assert!(result.is_ok());
}

#[test]
fn test_user_header_label_from_bytes_invalid_length() {
    let buffer = [0u8; 79];
    let result = UserHeaderLabel::from_bytes(&buffer);
    assert!(result.is_err());
}

#[test]
fn test_user_header_label_from_bytes_invalid_sentinel() {
    let buffer = [0u8; 80];
    let result = UserHeaderLabel::from_bytes(&buffer);
    assert!(result.is_err());
}

#[test]
fn test_data_set_identification_from_bytes_valid() {
    let mut buffer = vec![0; 648];
    buffer[0..4].copy_from_slice(&[68, 83, 73, 85]);
    buffer[204..211].copy_from_slice(b"000000N");
    buffer[211..219].copy_from_slice(b"0000000E");
    buffer[219..226].copy_from_slice(b"100000N");
    buffer[226..234].copy_from_slice(b"1000000E");
    buffer[234..241].copy_from_slice(b"003000N");
    buffer[241..249].copy_from_slice(b"0003000E");
    buffer[249..256].copy_from_slice(b"000045N");
    buffer[256..264].copy_from_slice(b"0000045E");

    let result = DataSetIdentification::from_bytes(&buffer);
    assert!(result.is_ok());
    let corner = result.unwrap();
    assert_eq!((degrees(corner.sw_corner.0), degrees(corner.sw_corner.1)), (0.0, 0.0));
    assert_eq!((degrees(corner.nw_corner.0), degrees(corner.nw_corner.1)), (100.0, 10.0));
    assert_eq!((degrees(corner.ne_corner.0), degrees(corner.ne_corner.1)), (0.5, 0.5));
    assert_eq!((degrees(corner.se_corner.0), degrees(corner.se_corner.1)), (0.0125, 0.0125));
}

#[test]
fn test_parse_dted_out_of_range_corner() {
    // a corner latitude of 99 degrees decodes but lies outside WGS-84
    let mut buffer = vec![0; 728];
    buffer[0..4].copy_from_slice(&[85, 72, 76, 49]);
    buffer[4..12].copy_from_slice(b"0000000E");
    buffer[12..20].copy_from_slice(b"0000000N");
    buffer[80..84].copy_from_slice(&[68, 83, 73, 85]);
    buffer[284..291].copy_from_slice(b"990000N");
    buffer[291..299].copy_from_slice(b"0000000E");
    buffer[299..306].copy_from_slice(b"000000N");
    buffer[306..314].copy_from_slice(b"0000000E");
    buffer[314..321].copy_from_slice(b"000000N");
    buffer[321..329].copy_from_slice(b"0000000E");
    buffer[329..336].copy_from_slice(b"000000N");
    buffer[336..344].copy_from_slice(b"0000000E");
    let result = parse_dted(&buffer);
    assert!(matches!(result, Err(geoindex::dted::DT2ErrorState::UnexpectedFormat(_))));
}

#[test]
fn test_parse_dt2_valid() {
    let mut test_data = Vec::new();
    test_data.extend_from_slice(&[85, 72, 76, 49]);
    test_data.extend_from_slice(&[49, 50, 51, 48, 52, 53, 54, 69]);
    test_data.extend_from_slice(&[48, 55, 56, 49, 53, 52, 54, 78]);
    test_data.extend(vec![0; 60]);
    test_data.extend_from_slice(&[68, 83, 73, 85]);
    test_data.extend(vec![0; 200]);
    test_data.extend_from_slice(b"000000N");
    test_data.extend_from_slice(b"0000000E");
    test_data.extend_from_slice(b"100000N");
    test_data.extend_from_slice(b"1000000E");
    test_data.extend_from_slice(b"003000N");
    test_data.extend_from_slice(b"0003000E");
    test_data.extend_from_slice(b"000045N");
    test_data.extend_from_slice(b"0000045E");
    test_data.extend(vec![0; 648 - 264]);

    let result = parse_dted(&test_data);
    assert!(result.is_ok());

    let dt2_meta = result.unwrap();
    let r = dt2_meta.region;
    assert_eq!((degrees(r.bottom_left.0), degrees(r.bottom_left.1)), (0.0, 0.0));
    assert_eq!((degrees(r.top_left.0), degrees(r.top_left.1)), (100.0, 10.0));
    assert_eq!((degrees(r.top_right.0), degrees(r.top_right.1)), (0.5, 0.5));
    assert_eq!((degrees(r.bottom_right.0), degrees(r.bottom_right.1)), (0.0125, 0.0125));
    assert_eq!(dt2_meta.tags, vec![("Filetype".to_string(), "DTED".to_string())]);
}
