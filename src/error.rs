//! The decoding failure kinds.
use vstd::prelude::*;

verus! {

/// Binary property list deserialization error.
#[derive(Debug, Clone, PartialEq)]
pub enum Error {
    /// Raised by whatever materializes the decoded objects.
    Message(String),
    /// The bplist magic number and version marker is missing or invalid.
    MissingOrInvalidHeader,
    /// The offset table is missing or invalid.
    MissingOrInvalidOffsetTable,
    /// The trailer is missing or invalid.
    MissingOrInvalidTrailer,
    /// The version number in the header is not one that this library supports.
    UnsupportedVersion,
    /// Encountered a reference to an object not in the offset table.
    InvalidObjectReference,
    /// Encountered an offset to an object not in the object table.
    InvalidOffsetToObject,
    /// Encountered a marker byte for an object format that is not supported.
    InvalidOrUnsupportedObjectFormat,
    /// The root object in the trailer is not in the offset table.
    InvalidRootObject,
    /// The root object is not an array or dictionary.
    RootObjectNotArrayOrDictionary,
    /// The current object was expected to be a valid boolean.
    ExpectedBool,
    /// The current object was expected to be a valid fill byte.
    ExpectedFill,
    /// The current object was expected to be a valid 8-bit unsigned integer.
    ExpectedUInt8,
    /// The current object was expected to be a valid 16-bit unsigned integer.
    ExpectedUInt16,
    /// The current object was expected to be a valid 32-bit unsigned integer.
    ExpectedUInt32,
    /// The current object was expected to be a valid 64-bit signed integer.
    ExpectedSInt64,
    /// The current object was expected to be a valid 32-bit floating point value.
    ExpectedFloat32,
    /// The current object was expected to be a valid 64-bit floating point value.
    ExpectedFloat64,
    /// The current object was expected to be a valid array.
    ExpectedArray,
    /// The current object was expected to be a valid date.
    ExpectedDate,
    /// The current object was expected to be a valid data buffer.
    ExpectedData,
    /// The current object was expected to be a valid ASCII string.
    ExpectedAsciiString,
    /// The current object was expected to be a valid UTF-16 string.
    ExpectedUtf16String,
    /// The current object was expected to be a valid UID blob.
    ExpectedUid,
    /// The current object was expected to be a valid dictionary.
    ExpectedDictionary,
    /// A collection was entered again while it was being decoded.
    CycleDetected,
    /// Prematurely reached the end of the input.
    Eof,
}

impl Error {
    /// The human-readable description of the error.
    pub open spec fn spec_description(&self) -> Seq<char> {
        match self {
            Error::Message(msg) => msg@,
            Error::MissingOrInvalidHeader => "missing or invalid bplist header"@,
            Error::MissingOrInvalidOffsetTable => "missing or invalid bplist offset table"@,
            Error::MissingOrInvalidTrailer => "missing or invalid bplist trailer"@,
            Error::UnsupportedVersion => "document is not a version (0,0) bplist"@,
            Error::InvalidObjectReference => "invalid reference to object not in offset table"@,
            Error::InvalidOffsetToObject => "invalid offset to element in offset table"@,
            Error::InvalidOrUnsupportedObjectFormat => "invalid or unsupported object format encountered"@,
            Error::InvalidRootObject => "invalid root object in document metadata"@,
            Error::RootObjectNotArrayOrDictionary => "root object is not an array or dictionary"@,
            Error::ExpectedBool => "expected boolean"@,
            Error::ExpectedFill => "expected fill unit type"@,
            Error::ExpectedUInt8 => "expected 8-bit unsigned integer"@,
            Error::ExpectedUInt16 => "expected 16-bit unsigned integer"@,
            Error::ExpectedUInt32 => "expected 32-bit unsigned integer"@,
            Error::ExpectedSInt64 => "expected 64-bit signed integer"@,
            Error::ExpectedFloat32 => "expected 32-bit single-precision floating point value"@,
            Error::ExpectedFloat64 => "expected 64-bit double-precision floating point value"@,
            Error::ExpectedArray => "expected array of object references"@,
            Error::ExpectedDate => "expected CFAbsoluteTime value"@,
            Error::ExpectedData => "expected data"@,
            Error::ExpectedAsciiString => "expected ASCII string"@,
            Error::ExpectedUtf16String => "expected UTF-16 string"@,
            Error::ExpectedUid => "expected UID value"@,
            Error::ExpectedDictionary => "expected dictionary"@,
            Error::CycleDetected => "cycle detected"@,
            Error::Eof => "unexpected end of input"@,
        }
    }

    /// Returns the human-readable description of the error.
    pub fn description(&self) -> (r: String)
        ensures
            r@ == self.spec_description(),
    {
        match self {
            Error::Message(msg) => msg.clone(),
            Error::MissingOrInvalidHeader => "missing or invalid bplist header".to_owned(),
            Error::MissingOrInvalidOffsetTable => "missing or invalid bplist offset table".to_owned(),
            Error::MissingOrInvalidTrailer => "missing or invalid bplist trailer".to_owned(),
            Error::UnsupportedVersion => "document is not a version (0,0) bplist".to_owned(),
            Error::InvalidObjectReference => "invalid reference to object not in offset table".to_owned(),
            Error::InvalidOffsetToObject => "invalid offset to element in offset table".to_owned(),
            Error::InvalidOrUnsupportedObjectFormat => "invalid or unsupported object format encountered".to_owned(),
            Error::InvalidRootObject => "invalid root object in document metadata".to_owned(),
            Error::RootObjectNotArrayOrDictionary => "root object is not an array or dictionary".to_owned(),
            Error::ExpectedBool => "expected boolean".to_owned(),
            Error::ExpectedFill => "expected fill unit type".to_owned(),
            Error::ExpectedUInt8 => "expected 8-bit unsigned integer".to_owned(),
            Error::ExpectedUInt16 => "expected 16-bit unsigned integer".to_owned(),
            Error::ExpectedUInt32 => "expected 32-bit unsigned integer".to_owned(),
            Error::ExpectedSInt64 => "expected 64-bit signed integer".to_owned(),
            Error::ExpectedFloat32 => "expected 32-bit single-precision floating point value".to_owned(),
            Error::ExpectedFloat64 => "expected 64-bit double-precision floating point value".to_owned(),
            Error::ExpectedArray => "expected array of object references".to_owned(),
            Error::ExpectedDate => "expected CFAbsoluteTime value".to_owned(),
            Error::ExpectedData => "expected data".to_owned(),
            Error::ExpectedAsciiString => "expected ASCII string".to_owned(),
            Error::ExpectedUtf16String => "expected UTF-16 string".to_owned(),
            Error::ExpectedUid => "expected UID value".to_owned(),
            Error::ExpectedDictionary => "expected dictionary".to_owned(),
            Error::CycleDetected => "cycle detected".to_owned(),
            Error::Eof => "unexpected end of input".to_owned(),
        }
    }
}

} // verus!
