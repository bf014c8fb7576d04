//! The bplist document format: constants and the sections of a document.
//!
//! A bplist document is organized into four segments: a header, an object
//! table, an offset table and a trailer.
use vstd::prelude::*;

verus! {

/// The number of bytes of data required to define a bplist header.
pub const HEADER_SIZE: usize = 8;

/// The number of bytes of data required to define a bplist trailer.
pub const TRAILER_SIZE: usize = 32;

/// The number of unused bytes in the trailer preamble.
pub const TRAILER_PREAMBLE_UNUSED_SIZE: usize = 5;

/// The first byte of the version "00" identifier.
pub const HEADER_VERSION_00_MAJOR: u8 = 0x30;

/// The second byte of the version "00" identifier.
pub const HEADER_VERSION_00_MINOR: u8 = 0x30;

/// The bplist magic number ("bplist").
pub open spec fn header_magic() -> Seq<u8> {
    seq![0x62u8, 0x70u8, 0x6Cu8, 0x69u8, 0x73u8, 0x74u8]
}

/// Binary property list header: the two-byte version marker that follows
/// the magic number.
#[derive(Debug, Clone, Copy, PartialEq, Eq)]
pub struct Header {
    /// The bplist version as two 8-bit values.
    pub version: (u8, u8),
}

/// Binary property list trailer.
///
/// The trailer holds what is needed to interpret the preceding document,
/// particularly the size of variably-sized offsets and references.
#[derive(Debug, Clone, Copy, PartialEq, Eq, Structural)]
pub struct Trailer {
    /// The sort version.
    pub sort_version: u8,
    /// Number of bytes needed for each offset table entry.
    pub offset_table_entry_size: usize,
    /// Number of bytes needed for each object reference in a container.
    pub object_reference_size: usize,
    /// Number of objects encoded in the document.
    pub number_of_objects: usize,
    /// Element id of the root object.
    pub root_object: usize,
    /// Offset into the file denoting the start of the offset table.
    pub offset_table_offset: usize,
}

/// Binary property list object wire format.
///
/// Each object consists of a marker byte and zero or more bytes of additional
/// data. The marker byte is made of 'tag' bits, which give its format, and up
/// to four bits of embedded value data. All values are big endian.
#[derive(Debug, Clone, Copy, PartialEq, Eq, Structural)]
pub enum ObjectFormat {
    /// A 1-bit boolean literal value.
    Boolean,
    /// A 'fill' byte, used for padding.
    Fill,
    /// An unsigned 8-bit integer.
    UInt8,
    /// An unsigned 16-bit integer.
    UInt16,
    /// An unsigned 32-bit integer.
    UInt32,
    /// A signed 64-bit integer.
    SInt64,
    /// A single-precision 32-bit floating point value.
    Float32,
    /// A double-precision 64-bit floating point value.
    Float64,
    /// A 64-bit double-precision CFAbsoluteTime value.
    Date,
    /// An arbitrary set of bytes.
    Data,
    /// A 7-bit ASCII string.
    AsciiString,
    /// A 16-bit UTF16 string.
    Utf16String,
    /// A UID used by NSArchiver.
    Uid,
    /// An array.
    Array,
    /// A dictionary.
    Dictionary,
}

impl ObjectFormat {
    pub open spec fn spec_tag_mask(self) -> u8 {
        match self {
            ObjectFormat::Boolean => 0b1111_1110,
            ObjectFormat::Fill | ObjectFormat::UInt8 | ObjectFormat::UInt16 | ObjectFormat::UInt32
            | ObjectFormat::SInt64 | ObjectFormat::Float32 | ObjectFormat::Float64
            | ObjectFormat::Date => 0b1111_1111,
            _ => 0b1111_0000,
        }
    }

    pub open spec fn spec_value_mask(self) -> u8 {
        match self {
            ObjectFormat::Boolean => 0b0000_0001,
            ObjectFormat::Fill | ObjectFormat::UInt8 | ObjectFormat::UInt16 | ObjectFormat::UInt32
            | ObjectFormat::SInt64 | ObjectFormat::Float32 | ObjectFormat::Float64
            | ObjectFormat::Date => 0b0000_0000,
            _ => 0b0000_1111,
        }
    }

    pub open spec fn spec_tag_bits(self) -> u8 {
        match self {
            ObjectFormat::Boolean => 0b0000_1000,
            ObjectFormat::Fill => 0b0000_1111,
            ObjectFormat::UInt8 => 0b0001_0000,
            ObjectFormat::UInt16 => 0b0001_0001,
            ObjectFormat::UInt32 => 0b0001_0010,
            ObjectFormat::SInt64 => 0b0001_0011,
            ObjectFormat::Float32 => 0b0010_0010,
            ObjectFormat::Float64 => 0b0010_0011,
            ObjectFormat::Date => 0b0011_0011,
            ObjectFormat::Data => 0b0100_0000,
            ObjectFormat::AsciiString => 0b0101_0000,
            ObjectFormat::Utf16String => 0b0110_0000,
            ObjectFormat::Uid => 0b1000_0000,
            ObjectFormat::Array => 0b1010_0000,
            ObjectFormat::Dictionary => 0b1101_0000,
        }
    }

    /// Whether the marker byte `b` is of this format.
    pub open spec fn spec_matches(self, b: u8) -> bool {
        b & self.spec_tag_mask() == self.spec_tag_bits()
    }

    /// The value bits that the marker byte `b` carries for this format.
    pub open spec fn spec_value_of(self, b: u8) -> u8 {
        b & self.spec_value_mask()
    }

    /// The mask to AND with a marker byte to obtain its tag bits.
    pub fn tag_mask(self) -> (r: u8)
        ensures
            r == self.spec_tag_mask(),
    {
        match self {
            ObjectFormat::Boolean => 0b1111_1110,
            ObjectFormat::Fill | ObjectFormat::UInt8 | ObjectFormat::UInt16 | ObjectFormat::UInt32
            | ObjectFormat::SInt64 | ObjectFormat::Float32 | ObjectFormat::Float64
            | ObjectFormat::Date => 0b1111_1111,
            _ => 0b1111_0000,
        }
    }

    /// The mask to AND with a marker byte to obtain its value bits.
    pub fn value_mask(self) -> (r: u8)
        ensures
            r == self.spec_value_mask(),
    {
        match self {
            ObjectFormat::Boolean => 0b0000_0001,
            ObjectFormat::Fill | ObjectFormat::UInt8 | ObjectFormat::UInt16 | ObjectFormat::UInt32
            | ObjectFormat::SInt64 | ObjectFormat::Float32 | ObjectFormat::Float64
            | ObjectFormat::Date => 0b0000_0000,
            _ => 0b0000_1111,
        }
    }

    /// The tag bits that identify this format among the tag bits of a marker byte.
    pub fn tag_bits(self) -> (r: u8)
        ensures
            r == self.spec_tag_bits(),
    {
        match self {
            ObjectFormat::Boolean => 0b0000_1000,
            ObjectFormat::Fill => 0b0000_1111,
            ObjectFormat::UInt8 => 0b0001_0000,
            ObjectFormat::UInt16 => 0b0001_0001,
            ObjectFormat::UInt32 => 0b0001_0010,
            ObjectFormat::SInt64 => 0b0001_0011,
            ObjectFormat::Float32 => 0b0010_0010,
            ObjectFormat::Float64 => 0b0010_0011,
            ObjectFormat::Date => 0b0011_0011,
            ObjectFormat::Data => 0b0100_0000,
            ObjectFormat::AsciiString => 0b0101_0000,
            ObjectFormat::Utf16String => 0b0110_0000,
            ObjectFormat::Uid => 0b1000_0000,
            ObjectFormat::Array => 0b1010_0000,
            ObjectFormat::Dictionary => 0b1101_0000,
        }
    }
}

/// The format of a marker byte: the first format, in declaration order,
/// whose tag bits the byte carries.
pub open spec fn marker_format(b: u8) -> Option<ObjectFormat> {
    if ObjectFormat::Boolean.spec_matches(b) { Some(ObjectFormat::Boolean) }
    else if ObjectFormat::Fill.spec_matches(b) { Some(ObjectFormat::Fill) }
    else if ObjectFormat::UInt8.spec_matches(b) { Some(ObjectFormat::UInt8) }
    else if ObjectFormat::UInt16.spec_matches(b) { Some(ObjectFormat::UInt16) }
    else if ObjectFormat::UInt32.spec_matches(b) { Some(ObjectFormat::UInt32) }
    else if ObjectFormat::SInt64.spec_matches(b) { Some(ObjectFormat::SInt64) }
    else if ObjectFormat::Float32.spec_matches(b) { Some(ObjectFormat::Float32) }
    else if ObjectFormat::Float64.spec_matches(b) { Some(ObjectFormat::Float64) }
    else if ObjectFormat::Date.spec_matches(b) { Some(ObjectFormat::Date) }
    else if ObjectFormat::Data.spec_matches(b) { Some(ObjectFormat::Data) }
    else if ObjectFormat::AsciiString.spec_matches(b) { Some(ObjectFormat::AsciiString) }
    else if ObjectFormat::Utf16String.spec_matches(b) { Some(ObjectFormat::Utf16String) }
    else if ObjectFormat::Uid.spec_matches(b) { Some(ObjectFormat::Uid) }
    else if ObjectFormat::Array.spec_matches(b) { Some(ObjectFormat::Array) }
    else if ObjectFormat::Dictionary.spec_matches(b) { Some(ObjectFormat::Dictionary) }
    else { None }
}

} // verus!
