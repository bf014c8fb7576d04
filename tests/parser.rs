use bplist::document::{Header, ObjectFormat, Trailer, HEADER_VERSION_00_MAJOR, HEADER_VERSION_00_MINOR};
use bplist::envelope::{header, offset_table, trailer};
use bplist::object::{
    any_marker, array, ascii_string, boolean, data, date, dictionary, fill, float32, float64,
    sint64, uid, uint16, uint32, uint8, utf16_string,
};
use bplist::utils::{be_u64_n, be_usize_n};

#[test]
fn test_header_bplist00() {
    let simple_header = &[0x62, 0x70, 0x6C, 0x69, 0x73, 0x74, 0x30, 0x30];
    let (value, consumed) = header(simple_header).unwrap();
    assert_eq!(simple_header.len() - consumed, 0);
    assert_eq!(value, Header { version: (HEADER_VERSION_00_MAJOR, HEADER_VERSION_00_MINOR) });
}

#[test]
fn test_offset_table_1bx1() {
    let input = &[0x08];
    let (result, consumed) = offset_table(input, 1, 1).unwrap();
    assert_eq!(input.len() - consumed, 0);
    assert_eq!(result, &[8usize]);
}

#[test]
fn test_offset_table_1bx5() {
    let input = &[0x08, 0x09, 0x10, 0x11, 0x12];
    let (result, consumed) = offset_table(input, 5, 1).unwrap();
    assert_eq!(input.len() - consumed, 0);
    assert_eq!(result, &[8usize, 9usize, 16usize, 17usize, 18usize]);
}

#[test]
fn test_offset_table_8bx5() {
    let input = &[
        0x00, 0x00, 0x00, 0x00, 0x00, 0x00, 0x00, 0x08,
        0x00, 0x00, 0x00, 0x00, 0x00, 0x00, 0x00, 0x09,
        0x00, 0x00, 0x00, 0x00, 0x00, 0x00, 0x00, 0x10,
        0x00, 0x00, 0x00, 0x00, 0x00, 0x00, 0x00, 0x11,
        0x00, 0x00, 0x00, 0x00, 0x00, 0x00, 0x00, 0x12,
    ];
    let (result, consumed) = offset_table(input, 5, 8).unwrap();
    assert_eq!(input.len() - consumed, 0);
    assert_eq!(result, &[8usize, 9usize, 16usize, 17usize, 18usize]);
}

#[test]
fn test_trailer() {
    let simple_trailer = &[
        0x00, 0x00, 0x00, 0x00, 0x00,
        0x00,
        0x01,
        0x01,
        0x00, 0x00, 0x00, 0x00, 0x00, 0x00, 0x00, 0x01,
        0x00, 0x00, 0x00, 0x00, 0x00, 0x00, 0x00, 0x00,
        0x00, 0x00, 0x00, 0x00, 0x00, 0x00, 0x00, 0x09,
    ];
    let (value, consumed) = trailer(simple_trailer).unwrap();
    assert_eq!(simple_trailer.len() - consumed, 0);
    assert_eq!(value, Trailer {
        sort_version: 0,
        offset_table_entry_size: 1,
        object_reference_size: 1,
        number_of_objects: 1,
        root_object: 0,
        offset_table_offset: 9,
    });
}

#[test]
fn test_any_marker_valid() {
    let test_markers: &[u8] = &[
        0b0000_1000, 0b0000_1001, 0b0000_1111, 0b0001_0000, 0b0001_0001, 0b0001_0010,
        0b0001_0011, 0b0010_0010, 0b0010_0011, 0b0011_0011, 0b0100_0000, 0b0100_1110,
        0b0100_1111, 0b0101_0000, 0b0101_1110, 0b0101_1111, 0b0110_0000, 0b0110_1110,
        0b0110_1111, 0b1000_0000, 0b1000_1111, 0b1010_0000, 0b1010_1110, 0b1010_1111,
        0b1101_0000, 0b1101_1110, 0b1101_1111,
    ];
    let expected_results = &[
        (ObjectFormat::Boolean, 0b0000),
        (ObjectFormat::Boolean, 0b0001),
        (ObjectFormat::Fill, 0),
        (ObjectFormat::UInt8, 0),
        (ObjectFormat::UInt16, 0),
        (ObjectFormat::UInt32, 0),
        (ObjectFormat::SInt64, 0),
        (ObjectFormat::Float32, 0),
        (ObjectFormat::Float64, 0),
        (ObjectFormat::Date, 0),
        (ObjectFormat::Data, 0b0000),
        (ObjectFormat::Data, 0b1110),
        (ObjectFormat::Data, 0b1111),
        (ObjectFormat::AsciiString, 0b0000),
        (ObjectFormat::AsciiString, 0b1110),
        (ObjectFormat::AsciiString, 0b1111),
        (ObjectFormat::Utf16String, 0b0000),
        (ObjectFormat::Utf16String, 0b1110),
        (ObjectFormat::Utf16String, 0b1111),
        (ObjectFormat::Uid, 0b0000),
        (ObjectFormat::Uid, 0b1111),
        (ObjectFormat::Array, 0b0000),
        (ObjectFormat::Array, 0b1110),
        (ObjectFormat::Array, 0b1111),
        (ObjectFormat::Dictionary, 0b0000),
        (ObjectFormat::Dictionary, 0b1110),
        (ObjectFormat::Dictionary, 0b1111),
    ];
    for i in 0..test_markers.len() {
        assert_eq!(any_marker(&test_markers[i..]), Some(expected_results[i]));
    }
}

#[test]
fn test_any_marker_invalid() {
    assert_eq!(any_marker(&[0b0111_0000]), None);
    assert_eq!(any_marker(&[0b0000_0000]), None);
    assert_eq!(any_marker(&[]), None);
}

/// Runs `parse` over consecutive objects of `input`, as many times as there
/// are expected values, and checks that the whole input was consumed.
fn parse_all<'a, T: std::fmt::Debug + PartialEq, F: Fn(&'a [u8]) -> Option<(T, usize)>>(
    input: &'a [u8],
    parse: F,
    expected: Vec<T>,
) {
    let mut at = 0;
    let mut values = Vec::new();
    for _ in 0..expected.len() {
        let (value, consumed) = parse(&input[at..]).unwrap();
        values.push(value);
        at += consumed;
    }
    assert_eq!(at, input.len());
    assert_eq!(values, expected);
}

#[test]
fn test_boolean() {
    parse_all(&[0b0000_1000, 0b0000_1001], boolean, vec![false, true]);
}

#[test]
fn test_fill() {
    parse_all(&[0b0000_1111, 0b0000_1111, 0b0000_1111], fill, vec![(), (), ()]);
}

#[test]
fn test_uint8() {
    let test_input = &[0b0001_0000, 0x00, 0b0001_0000, 0x05, 0b0001_0000, 0xFF];
    parse_all(test_input, uint8, vec![0, 5, 255]);
}

#[test]
fn test_uint16() {
    let test_input = &[
        0b0001_0001, 0x00, 0x00,
        0b0001_0001, 0x00, 0x55,
        0b0001_0001, 0xFF, 0xFF,
    ];
    parse_all(test_input, uint16, vec![0, 85, 65535]);
}

#[test]
fn test_uint32() {
    let test_input = &[
        0b0001_0010, 0x00, 0x00, 0x00, 0x00,
        0b0001_0010, 0x00, 0x00, 0x55, 0x55,
        0b0001_0010, 0xFF, 0xFF, 0xFF, 0xFF,
    ];
    parse_all(test_input, uint32, vec![0, 21845, 4294967295]);
}

#[test]
fn test_sint64() {
    let test_input = &[
        0b0001_0011, 0x00, 0x00, 0x00, 0x00, 0x00, 0x00, 0x00, 0x00,
        0b0001_0011, 0x00, 0x00, 0x00, 0x00, 0x55, 0x55, 0x55, 0x55,
        0b0001_0011, 0xFF, 0xFF, 0xFF, 0xFF, 0xFF, 0xFF, 0xFF, 0xFF,
    ];
    parse_all(test_input, sint64, vec![0, 1431655765, -1]);
}

#[test]
fn test_float32() {
    let test_input = &[
        0b0010_0010, 0x00, 0x00, 0x00, 0x00,
        0b0010_0010, 0xC0, 0x20, 0x00, 0x00,
        0b0010_0010, 0x42, 0x20, 0x88, 0x00,
    ];
    let as_float = |b: &[u8]| float32(b).map(|(bits, n)| (f32::from_bits(bits), n));
    parse_all(test_input, as_float, vec![0.0, -2.5, 40.1328125]);
}

#[test]
fn test_float64() {
    let test_input = &[
        0b0010_0011, 0x00, 0x00, 0x00, 0x00, 0x00, 0x00, 0x00, 0x00,
        0b0010_0011, 0xC0, 0x04, 0x00, 0x00, 0x00, 0x00, 0x00, 0x00,
        0b0010_0011, 0x40, 0x44, 0x11, 0x00, 0x00, 0x00, 0x00, 0x00,
    ];
    let as_float = |b: &[u8]| float64(b).map(|(bits, n)| (f64::from_bits(bits), n));
    parse_all(test_input, as_float, vec![0.0, -2.5, 40.1328125]);
}

#[test]
fn test_date() {
    let test_input = &[
        0b0011_0011, 0x00, 0x00, 0x00, 0x00, 0x00, 0x00, 0x00, 0x00,
        0b0011_0011, 0xC0, 0x04, 0x00, 0x00, 0x00, 0x00, 0x00, 0x00,
        0b0011_0011, 0x40, 0x44, 0x11, 0x00, 0x00, 0x00, 0x00, 0x00,
    ];
    let as_float = |b: &[u8]| date(b).map(|(bits, n)| (f64::from_bits(bits), n));
    parse_all(test_input, as_float, vec![0.0, -2.5, 40.1328125]);
}

#[test]
fn test_data() {
    let test_input: &[u8] = &[
        0b0100_0000,
        0b0100_0001, 0x0F,
        0b0100_1110, 0x00, 0x01, 0x02, 0x03, 0x04, 0x05, 0x06, 0x06, 0x08, 0x09, 0x0A, 0x0B, 0x0C, 0x0D,
        0b0100_1111, 0b0001_0000, 0b0000_0000,
        0b0100_1111, 0b0001_0000, 0b0000_0001, 0x0F,
    ];
    let expected = vec![
        &test_input[1..1],
        &test_input[2..3],
        &test_input[4..18],
        &test_input[21..21],
        &test_input[24..25],
    ];
    parse_all(test_input, data, expected);
}

#[test]
fn test_ascii_string() {
    let test_input = &[
        0b0101_0000,
        0b0101_0101, 0x48, 0x65, 0x6c, 0x6c, 0x6f,
        0b0101_1111, 0b0001_0000, 0b0000_0000,
        0b0101_1111, 0b0001_0000, 0b0000_0101, 0x48, 0x65, 0x6c, 0x6c, 0x6f,
    ];
    parse_all(test_input, ascii_string, vec!["", "Hello", "", "Hello"]);
}

#[test]
fn test_ascii_string_invalid() {
    let test_input = &[0b0101_0001, 0x80];
    assert_eq!(ascii_string(test_input).is_none(), true);
}

#[test]
fn test_utf16_string() {
    let test_input = &[
        0b0110_0000,
        0b0110_0101, 0x00, 0x48, 0x00, 0x65, 0x00, 0x6c, 0x00, 0x6c, 0x00, 0x6f,
        0b0110_1111, 0b0001_0000, 0b0000_0000,
        0b0110_1111, 0b0001_0000, 0b0000_0101, 0x00, 0x48, 0x00, 0x65, 0x00, 0x6c, 0x00, 0x6c, 0x00, 0x6f,
    ];
    let expected = vec![
        String::from(""),
        String::from("Hello"),
        String::from(""),
        String::from("Hello"),
    ];
    parse_all(test_input, utf16_string, expected);
}

#[test]
fn test_utf16_string_surrogate_pair() {
    let test_input = &[0b0110_0011, 0x00, 0x41, 0xD8, 0x3D, 0xDE, 0x00];
    assert_eq!(utf16_string(test_input), Some((String::from("A\u{1F600}"), 7)));
}

#[test]
fn test_utf16_string_unpaired_surrogate() {
    assert_eq!(utf16_string(&[0b0110_0001, 0xD8, 0x3D]), None);
    assert_eq!(utf16_string(&[0b0110_0010, 0xDE, 0x00, 0x00, 0x41]), None);
}

#[test]
fn test_uid() {
    let test_input: &[u8] = &[
        0b1000_0000, 0x00,
        0b1000_1111, 0x00, 0x01, 0x02, 0x03, 0x04, 0x05, 0x06, 0x06, 0x08, 0x09, 0x0A, 0x0B, 0x0C, 0x0D, 0x0E, 0x0F,
    ];
    let expected = vec![&test_input[1..2], &test_input[3..19]];
    parse_all(test_input, uid, expected);
}

#[test]
fn test_array() {
    let test_input = &[
        0b1010_0000,
        0b1010_0100, 0x00, 0x00, 0x00, 0x01, 0x00, 0x02, 0x00, 0x03,
        0b1010_1111, 0b0001_0000, 0b0000_0000,
        0b1010_1111, 0b0001_0000, 0b0000_0011, 0x00, 0x00, 0x00, 0x01, 0x00, 0x02,
    ];
    let expected: Vec<Vec<usize>> = vec![vec![], vec![0, 1, 2, 3], vec![], vec![0, 1, 2]];
    parse_all(test_input, |b: &[u8]| array(b, 2), expected);
}

#[test]
fn test_dictionary() {
    let test_input = &[
        0b1101_0000,
        0b1101_0010, 0x00, 0x00, 0x00, 0x01, 0x00, 0x02, 0x00, 0x03,
        0b1101_1111, 0b0001_0000, 0b0000_0000,
        0b1101_1111, 0b0001_0000, 0b0000_0010, 0x00, 0x00, 0x00, 0x01, 0x00, 0x02, 0x00, 0x03,
    ];
    let expected: Vec<Vec<(usize, usize)>> = vec![vec![], vec![(0, 2), (1, 3)], vec![], vec![(0, 2), (1, 3)]];
    parse_all(test_input, |b: &[u8]| dictionary(b, 2), expected);
}

#[test]
fn test_array_extended_count_sint64() {
    let test_input = &[
        0b1010_1111, 0b0001_0011, 0, 0, 0, 0, 0, 0, 0, 2, 0x07, 0x09,
    ];
    assert_eq!(array(test_input, 1), Some((vec![7, 9], 12)));
}

#[test]
fn test_array_truncated() {
    assert_eq!(array(&[0b1010_0011, 0x00, 0x01], 1), None);
    assert_eq!(data(&[0b0100_0010, 0x00]), None);
}

#[test]
fn test_be_usize_n_length_1() {
    let input = &[0x05];
    let result = be_usize_n(input, 1).unwrap();
    assert_eq!(input.len() - 1, 0);
    assert_eq!(result, 5);
}

#[test]
fn test_be_usize_n_length_3() {
    let input = &[0x00, 0x01, 0xFF];
    let result = be_usize_n(input, 3).unwrap();
    assert_eq!(input.len() - 3, 0);
    assert_eq!(result, 511);
}

#[test]
fn test_be_u64_n_length_8() {
    let input = &[0x01, 0x00, 0x00, 0x00, 0x00, 0x00, 0x01, 0xFF];
    let result = be_u64_n(input, 8).unwrap();
    assert_eq!(input.len() - 8, 0);
    assert_eq!(result, 72057594037928447);
}

#[test]
fn test_be_u64_n_short_input() {
    assert_eq!(be_u64_n(&[0x01, 0x02], 3), None);
}

#[test]
fn test_object_format_masks() {
    assert_eq!(ObjectFormat::Boolean.tag_mask(), 0b1111_1110);
    assert_eq!(ObjectFormat::Boolean.value_mask(), 0b0000_0001);
    assert_eq!(ObjectFormat::Date.tag_bits(), 0b0011_0011);
    assert_eq!(ObjectFormat::Dictionary.tag_mask(), 0b1111_0000);
    assert_eq!(ObjectFormat::Dictionary.value_mask(), 0b0000_1111);
    assert_eq!(ObjectFormat::Dictionary.tag_bits(), 0b1101_0000);
}

#[test]
fn test_extended_count_negative_sint64_is_rejected() {
    let test_input = &[0b1010_1111, 0b0001_0011, 0xFF, 0xFF, 0xFF, 0xFF, 0xFF, 0xFF, 0xFF, 0xFF];
    assert_eq!(array(test_input, 1), None);
}

#[test]
fn test_extended_count_uint16() {
    let mut test_input = vec![0b0100_1111, 0b0001_0001, 0x01, 0x00];
    test_input.extend(std::iter::repeat(7u8).take(256));
    let (bytes, consumed) = data(&test_input).unwrap();
    assert_eq!(bytes.len(), 256);
    assert_eq!(consumed, 260);
}
