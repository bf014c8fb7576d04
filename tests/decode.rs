use bplist::pseudo::{DateDeserializer, UidDeserializer, DATE_STRUCT_FIELD, UID_STRUCT_FIELD};
use bplist::{Deserializer, Error, Event, UidFromBytes};

/// Assembles a document from its objects, with one-byte offsets and
/// references, and the given root.
fn document(objects: &[&[u8]], root: u8) -> Vec<u8> {
    let mut out = vec![0x62, 0x70, 0x6C, 0x69, 0x73, 0x74, 0x30, 0x30];
    let mut offsets = Vec::new();
    for object in objects {
        offsets.push(out.len() as u8);
        out.extend_from_slice(object);
    }
    let table = out.len() as u8;
    out.extend_from_slice(&offsets);
    out.extend_from_slice(&[0, 0, 0, 0, 0, 0, 1, 1]);
    out.extend_from_slice(&[0, 0, 0, 0, 0, 0, 0, objects.len() as u8]);
    out.extend_from_slice(&[0, 0, 0, 0, 0, 0, 0, root]);
    out.extend_from_slice(&[0, 0, 0, 0, 0, 0, 0, table]);
    out
}

fn decode(input: &[u8]) -> Result<Vec<Event<'_>>, Error> {
    Deserializer::from_bytes(input).deserialize_any()
}

#[test]
fn test_minimal_empty_array() {
    let input = [
        0x62, 0x70, 0x6C, 0x69, 0x73, 0x74, 0x30, 0x30, 0xA0, 0x08, 0x00, 0x00, 0x00, 0x00,
        0x00, 0x00, 0x01, 0x01, 0x00, 0x00, 0x00, 0x00, 0x00, 0x00, 0x00, 0x01, 0x00, 0x00,
        0x00, 0x00, 0x00, 0x00, 0x00, 0x00, 0x00, 0x00, 0x00, 0x00, 0x00, 0x00, 0x00, 0x09,
    ];
    assert_eq!(decode(&input), Ok(vec![Event::SeqStart(0), Event::SeqEnd]));
}

fn point() -> Vec<u8> {
    document(
        &[
            &[0xD2, 0x01, 0x02, 0x03, 0x04],
            &[0x51, 0x78],
            &[0x51, 0x79],
            &[0x10, 0x01],
            &[0x10, 0x14],
        ],
        0,
    )
}

#[test]
fn test_deserialize_point() {
    let input = point();
    assert_eq!(
        decode(&input),
        Ok(vec![
            Event::MapStart(2),
            Event::Str("x"),
            Event::UInt8(1),
            Event::Str("y"),
            Event::UInt8(20),
            Event::MapEnd,
        ])
    );
}

fn integer_list() -> Vec<u8> {
    document(
        &[
            &[0xA5, 0x01, 0x02, 0x03, 0x04, 0x05],
            &[0x10, 0x01],
            &[0x10, 0x02],
            &[0x10, 0x03],
            &[0x10, 0x04],
            &[0x10, 0x05],
        ],
        0,
    )
}

#[test]
fn test_deserialize_integer_list() {
    let input = integer_list();
    let events = decode(&input).unwrap();
    let mut values = Vec::new();
    for event in &events[1..events.len() - 1] {
        match event {
            Event::UInt8(v) => values.push(*v),
            _ => panic!("not a byte"),
        }
    }
    assert_eq!(events[0], Event::SeqStart(5));
    assert_eq!(events[events.len() - 1], Event::SeqEnd);
    assert_eq!(values, vec![1, 2, 3, 4, 5]);
}

#[test]
fn test_deserialize_input_with_cycle() {
    let input = document(&[&[0xA1, 0x00]], 0);
    assert_eq!(decode(&input), Err(Error::CycleDetected));
}

#[test]
fn test_indirect_cycle() {
    let input = document(&[&[0xA1, 0x01], &[0xD1, 0x02, 0x00], &[0x51, 0x6B]], 0);
    assert_eq!(decode(&input), Err(Error::CycleDetected));
}

#[test]
fn test_shared_objects_are_decoded_each_time() {
    let input = document(&[&[0xA3, 0x01, 0x01, 0x02], &[0x09], &[0xA1, 0x01]], 0);
    assert_eq!(
        decode(&input),
        Ok(vec![
            Event::SeqStart(3),
            Event::Bool(true),
            Event::Bool(true),
            Event::SeqStart(1),
            Event::Bool(true),
            Event::SeqEnd,
            Event::SeqEnd,
        ])
    );
}

#[test]
fn test_shared_collection_is_not_a_cycle() {
    let input = document(&[&[0xA2, 0x01, 0x01], &[0xA0]], 0);
    assert_eq!(
        decode(&input),
        Ok(vec![
            Event::SeqStart(2),
            Event::SeqStart(0),
            Event::SeqEnd,
            Event::SeqStart(0),
            Event::SeqEnd,
            Event::SeqEnd,
        ])
    );
}

#[test]
fn test_truncated_trailer() {
    let input = [0u8; 30];
    assert_eq!(decode(&input), Err(Error::Eof));
}

#[test]
fn test_unsupported_version() {
    let mut input = document(&[&[0xA0]], 0);
    input[6] = 0x31;
    input[7] = 0x35;
    assert_eq!(decode(&input), Err(Error::UnsupportedVersion));
}

#[test]
fn test_invalid_header() {
    let mut input = document(&[&[0xA0]], 0);
    input[0] = 0x63;
    assert_eq!(decode(&input), Err(Error::MissingOrInvalidHeader));
}

#[test]
fn test_reference_out_of_range() {
    let input = document(&[&[0xA1, 0x01]], 0);
    assert_eq!(decode(&input), Err(Error::InvalidObjectReference));
}

#[test]
fn test_invalid_root_object() {
    let input = document(&[&[0xA0]], 1);
    assert_eq!(decode(&input), Err(Error::InvalidRootObject));
}

#[test]
fn test_offset_table_overlaps_trailer() {
    let mut input = document(&[&[0xA0]], 0);
    let len = input.len();
    input[len - 1] = 0x30;
    assert_eq!(decode(&input), Err(Error::MissingOrInvalidOffsetTable));
}

#[test]
fn test_reference_size_out_of_range() {
    let mut input = document(&[&[0xA0]], 0);
    let len = input.len();
    input[len - 25] = 9;
    assert_eq!(decode(&input), Err(Error::MissingOrInvalidTrailer));
}

#[test]
fn test_offset_outside_object_table() {
    let mut input = document(&[&[0xA0]], 0);
    input[9] = 0x02;
    assert_eq!(decode(&input), Err(Error::InvalidOffsetToObject));
}

#[test]
fn test_unsupported_object_format() {
    let input = document(&[&[0xA1, 0x01], &[0x70]], 0);
    assert_eq!(decode(&input), Err(Error::InvalidOrUnsupportedObjectFormat));
}

#[test]
fn test_root_not_a_collection() {
    let input = document(&[&[0x09]], 0);
    assert_eq!(decode(&input), Err(Error::RootObjectNotArrayOrDictionary));
}

#[test]
fn test_truncated_payloads() {
    let input = document(&[&[0xA1, 0x01], &[0x4F, 0x10, 0xFF]], 0);
    assert_eq!(decode(&input), Err(Error::ExpectedData));
    let input = document(&[&[0xA1, 0x01], &[0x51, 0x80]], 0);
    assert_eq!(decode(&input), Err(Error::ExpectedAsciiString));
    let input = document(&[&[0xA1, 0x01], &[0x61, 0xDC, 0x00]], 0);
    assert_eq!(decode(&input), Err(Error::ExpectedUtf16String));
}

#[test]
fn test_dates_uids_and_strings() {
    let input = document(
        &[
            &[0xA5, 0x01, 0x02, 0x03, 0x04, 0x05],
            &[0x33, 0x40, 0x44, 0x11, 0x00, 0x00, 0x00, 0x00, 0x00],
            &[0x81, 0x12, 0x34],
            &[0x62, 0x00, 0x48, 0x00, 0x69],
            &[0x42, 0xAB, 0xCD],
            &[0x0F],
        ],
        0,
    );
    let events = decode(&input).unwrap();
    assert_eq!(events.len(), 7);
    assert_eq!(events[1], Event::Date(40.1328125f64.to_bits()));
    assert_eq!(events[2], Event::Uid(&[0x12, 0x34]));
    assert_eq!(events[3], Event::String(String::from("Hi")));
    assert_eq!(events[4], Event::Bytes(&[0xAB, 0xCD]));
    assert_eq!(events[5], Event::Unit);
}

#[test]
fn test_decoding_is_deterministic() {
    let a = point();
    let b = point();
    assert_eq!(decode(&a), decode(&b));
}

#[test]
fn test_date_pseudo_struct() {
    let mut map = DateDeserializer::new(7);
    assert_eq!(map.next_key(), Some(DATE_STRUCT_FIELD));
    assert_eq!(map.next_value(), 7);
    assert_eq!(map.next_key(), None);
}

#[test]
fn test_uid_pseudo_struct() {
    let mut map = UidDeserializer::new(vec![1, 2]);
    assert_eq!(map.next_key(), Some(UID_STRUCT_FIELD));
    assert_eq!(map.next_value(), vec![1, 2]);
    assert_eq!(map.next_key(), None);
    assert_eq!(UidFromBytes::from_bytes(&[9, 8]).value.data, vec![9, 8]);
}

#[test]
fn test_error_descriptions() {
    assert_eq!(Error::CycleDetected.description(), "cycle detected");
    assert_eq!(Error::Eof.description(), "unexpected end of input");
    assert_eq!(Error::Message(String::from("boom")).description(), "boom");
}

#[test]
fn test_shortest_input_below_minimum() {
    let input = [0u8; 41];
    assert_eq!(decode(&input), Err(Error::Eof));
}

#[test]
fn test_two_byte_references() {
    let mut input = vec![0x62, 0x70, 0x6C, 0x69, 0x73, 0x74, 0x30, 0x30];
    input.extend_from_slice(&[0xA1, 0x00, 0x01, 0x08]);
    input.extend_from_slice(&[8, 11]);
    input.extend_from_slice(&[0, 0, 0, 0, 0, 0, 1, 2]);
    input.extend_from_slice(&[0, 0, 0, 0, 0, 0, 0, 2]);
    input.extend_from_slice(&[0, 0, 0, 0, 0, 0, 0, 0]);
    input.extend_from_slice(&[0, 0, 0, 0, 0, 0, 0, 12]);
    assert_eq!(decode(&input), Ok(vec![Event::SeqStart(1), Event::Bool(false), Event::SeqEnd]));
}
