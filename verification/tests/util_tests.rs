use geoindex::decimal::parse_decimal;
use geoindex::util::{read_f64_bits, read_u16, read_u32, write_f64_bits, write_u16, write_u32,
    ByteOrder, BytesError, FromBytes};
use geoindex::COORD_SCALE;

#[test]
fn test_u16_endianness() {
    let bytes_le = [0x01, 0x02];
    let result_le = u16::from_bytes(&bytes_le, &ByteOrder::LittleEndian);
    assert_eq!(result_le, 0x0201);

    let bytes_be = [0x01, 0x02];
    let result_be = u16::from_bytes(&bytes_be, &ByteOrder::BigEndian);
    assert_eq!(result_be, 0x0102);
}

#[test]
fn test_u32_endianness() {
    let bytes_le = [0x01, 0x02, 0x03, 0x04];
    let result_le = u32::from_bytes(&bytes_le, &ByteOrder::LittleEndian);
    assert_eq!(result_le, 0x04030201);

    let bytes_be = [0x01, 0x02, 0x03, 0x04];
    let result_be = u32::from_bytes(&bytes_be, &ByteOrder::BigEndian);
    assert_eq!(result_be, 0x01020304);
}

#[test]
fn test_f64_endianness() {
    let bytes_le = [0x00, 0x00, 0x00, 0x00, 0x00, 0x00, 0x08, 0x40];
    let result_le = u64::from_bytes(&bytes_le, &ByteOrder::LittleEndian);
    assert_eq!(f64::from_bits(result_le), 3.0);

    let bytes_be = [0x40, 0x08, 0x00, 0x00, 0x00, 0x00, 0x00, 0x00];
    let result_be = u64::from_bytes(&bytes_be, &ByteOrder::BigEndian);
    assert_eq!(f64::from_bits(result_be), 3.0);
}

#[test]
fn test_f64_extreme_values() {
    let max_positive = f64::MAX.to_le_bytes();
    let result_max_positive_le = u64::from_bytes(&max_positive, &ByteOrder::LittleEndian);
    assert_eq!(f64::from_bits(result_max_positive_le), f64::MAX);

    let max_positive_be = f64::MAX.to_be_bytes();
    let result_max_positive_be = u64::from_bytes(&max_positive_be, &ByteOrder::BigEndian);
    assert_eq!(f64::from_bits(result_max_positive_be), f64::MAX);

    let max_negative = f64::MIN.to_le_bytes();
    let result_max_negative_le = u64::from_bytes(&max_negative, &ByteOrder::LittleEndian);
    assert_eq!(f64::from_bits(result_max_negative_le), f64::MIN);

    let max_negative_be = f64::MIN.to_be_bytes();
    let result_max_negative_be = u64::from_bytes(&max_negative_be, &ByteOrder::BigEndian);
    assert_eq!(f64::from_bits(result_max_negative_be), f64::MIN);
}

#[test]
fn test_byte_order_enum_completeness() {
    assert_eq!(ByteOrder::LittleEndian, ByteOrder::LittleEndian);
    assert_eq!(ByteOrder::BigEndian, ByteOrder::BigEndian);
}

#[test]
fn test_u16_round_trip() {
    for order in [ByteOrder::LittleEndian, ByteOrder::BigEndian] {
        for x in [0u16, 1, 0x1234, 0xFFFF] {
            let bytes = write_u16(x, &order);
            assert_eq!(read_u16(&bytes, &order).unwrap(), x);
        }
    }
}

#[test]
fn test_u32_round_trip() {
    for order in [ByteOrder::LittleEndian, ByteOrder::BigEndian] {
        for x in [0u32, 1, 0xDEADBEEF, 0xFFFF_FFFF] {
            let bytes = write_u32(x, &order);
            assert_eq!(read_u32(&bytes, &order).unwrap(), x);
        }
    }
}

#[test]
fn test_f64_bits_round_trip() {
    for order in [ByteOrder::LittleEndian, ByteOrder::BigEndian] {
        for x in [0.0f64, 3.5, -12.25, f64::MAX] {
            let bytes = write_f64_bits(x.to_bits(), &order);
            assert_eq!(read_f64_bits(&bytes, &order).unwrap(), x.to_bits());
        }
    }
}

#[test]
fn test_read_buffer_length_error() {
    assert_eq!(read_u16(&[1u8, 2, 3], &ByteOrder::LittleEndian), Err(BytesError::BufferLength));
    assert_eq!(read_u32(&[1u8], &ByteOrder::BigEndian), Err(BytesError::BufferLength));
    assert_eq!(read_f64_bits(&[0u8; 7], &ByteOrder::LittleEndian), Err(BytesError::BufferLength));
}

#[test]
fn test_parse_decimal_exponents() {
    assert_eq!(parse_decimal(b"1.5e1"), Some(15 * COORD_SCALE));
    assert_eq!(parse_decimal(b"2E-2"), Some(COORD_SCALE / 50));
    assert_eq!(parse_decimal(b"-1.5e+1"), Some(-15 * COORD_SCALE));
    assert_eq!(parse_decimal(b"1e-30"), Some(0));
    assert_eq!(parse_decimal(b"1e300"), None);
    assert_eq!(parse_decimal(b"1e"), None);
    assert_eq!(parse_decimal(b"e5"), None);
    assert_eq!(parse_decimal(b"1.5"), Some(COORD_SCALE + COORD_SCALE / 2));
}
