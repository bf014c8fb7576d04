//! Validation of the two string encodings that objects may carry.
use vstd::prelude::*;

verus! {

/// Every byte is a 7-bit ASCII code.
pub open spec fn is_ascii_bytes(b: Seq<u8>) -> bool {
    forall|i: int| 0 <= i < b.len() ==> #[trigger] b[i] <= 0x7F
}

/// The characters that ASCII bytes stand for, one per byte.
pub open spec fn ascii_chars(b: Seq<u8>) -> Seq<char> {
    b.map_values(|x: u8| x as char)
}

/// A UTF-16 high (leading) surrogate.
pub open spec fn is_high_surrogate(u: u16) -> bool {
    0xD800 <= u <= 0xDBFF
}

/// A UTF-16 low (trailing) surrogate.
pub open spec fn is_low_surrogate(u: u16) -> bool {
    0xDC00 <= u <= 0xDFFF
}

/// Well-formed UTF-16: each high surrogate is followed by a low surrogate,
/// and each low surrogate follows a high surrogate.
pub open spec fn utf16_well_formed(u: Seq<u16>) -> bool {
    forall|i: int|
        0 <= i < u.len() ==> {
            &&& is_high_surrogate(#[trigger] u[i]) ==> i + 1 < u.len() && is_low_surrogate(u[i + 1])
            &&& is_low_surrogate(u[i]) ==> i > 0 && is_high_surrogate(u[i - 1])
        }
}

/// The characters that well-formed UTF-16 code units decode to.
pub uninterp spec fn utf16_decoded(u: Seq<u16>) -> Seq<char>;

/// Relies on `ascii::AsciiStr::from_ascii`, which succeeds exactly when every
/// byte is at most 0x7F, and on `AsciiStr::as_str`, which views the same
/// bytes as a string slice.
#[verifier::external_body]
pub(crate) fn ascii_str(bytes: &[u8]) -> (r: Option<&str>)
    ensures
        r is Some <==> is_ascii_bytes(bytes@),
        r matches Some(s) ==> s@ == ascii_chars(bytes@),
{
    match ascii::AsciiStr::from_ascii(bytes) {
        Ok(s) => Some(s.as_str()),
        Err(_) => None,
    }
}

/// Relies on `String::from_utf16`, which fails exactly when the code units
/// hold an unpaired surrogate, and otherwise returns the decoded string.
#[verifier::external_body]
pub(crate) fn decode_utf16(units: &[u16]) -> (r: Option<String>)
    ensures
        r is Some <==> utf16_well_formed(units@),
        r matches Some(s) ==> s@ == utf16_decoded(units@),
{
    match String::from_utf16(units) {
        Ok(s) => Some(s),
        Err(_) => None,
    }
}

} // verus!
