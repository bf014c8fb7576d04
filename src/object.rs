//! Parsers for single objects of the object table.
//!
//! Each parser reads one object from the start of its input and returns the
//! decoded value with the number of bytes that the object occupies.
use vstd::prelude::*;
use vstd::slice::slice_subrange;

use crate::document::{marker_format, ObjectFormat};
use crate::text::{
    ascii_chars, ascii_str, decode_utf16, is_ascii_bytes, utf16_decoded, utf16_well_formed,
};
use crate::utils::{
    be_prefix, be_u64_n, be_uint, be_usize_n, lemma_be_uint_bound, pow256,
};

verus! {

/// The value bits of the marker at the start of `s`, when it is of format `f`.
pub open spec fn spec_marker(s: Seq<u8>, f: ObjectFormat) -> Option<u8> {
    if s.len() > 0 && f.spec_matches(s[0]) {
        Some(f.spec_value_of(s[0]))
    } else {
        None
    }
}

/// The format and value bits of the marker at the start of `s`.
pub open spec fn spec_any_marker(s: Seq<u8>) -> Option<(ObjectFormat, u8)> {
    if s.len() == 0 {
        None
    } else {
        match marker_format(s[0]) {
            Some(f) => Some((f, f.spec_value_of(s[0]))),
            None => None,
        }
    }
}

/// The `w`-byte big-endian payload of an object of format `f`.
pub open spec fn spec_fixed(s: Seq<u8>, f: ObjectFormat, w: nat) -> Option<nat> {
    match spec_marker(s, f) {
        Some(_) => be_prefix(s.drop_first(), w),
        None => None,
    }
}

/// The integer object at the start of `s` read as unsigned, with its size.
pub open spec fn spec_count_integer(s: Seq<u8>) -> Option<(nat, nat)> {
    if let Some(v) = spec_fixed(s, ObjectFormat::UInt8, 1) {
        Some((v, 2))
    } else if let Some(v) = spec_fixed(s, ObjectFormat::UInt16, 2) {
        Some((v, 3))
    } else if let Some(v) = spec_fixed(s, ObjectFormat::UInt32, 4) {
        Some((v, 5))
    } else if let Some(v) = spec_fixed(s, ObjectFormat::SInt64, 8) {
        Some((v, 9))
    } else {
        None
    }
}

/// The count of a variable-length payload and the bytes its encoding takes,
/// for the value bits `encoded` of the marker and the bytes `s` after it.
pub open spec fn spec_payload_count(s: Seq<u8>, encoded: u8) -> Option<(nat, nat)> {
    if encoded == 0b0000_1111 {
        match spec_count_integer(s) {
            Some((v, c)) => if v <= usize::MAX { Some((v, c)) } else { None },
            None => None,
        }
    } else {
        Some((encoded as nat, 0))
    }
}

/// Where the payload of a variable-length object of format `f` starts, and
/// its count.
pub open spec fn spec_payload_header(s: Seq<u8>, f: ObjectFormat) -> Option<(nat, nat)> {
    match spec_marker(s, f) {
        Some(v) => match spec_payload_count(s.drop_first(), v) {
            Some((n, c)) => Some((1 + c, n)),
            None => None,
        },
        None => None,
    }
}

/// Where the payload of an object of format `f` starts, and its count, when
/// the input holds the whole payload of `count` items of `width` bytes each.
pub open spec fn spec_span(s: Seq<u8>, f: ObjectFormat, width: nat) -> Option<(nat, nat)> {
    match spec_payload_header(s, f) {
        Some((start, n)) => if start + n * width <= s.len() { Some((start, n)) } else { None },
        None => None,
    }
}

/// The bytes of a data object.
pub open spec fn spec_data(s: Seq<u8>) -> Option<(Seq<u8>, nat)> {
    match spec_span(s, ObjectFormat::Data, 1) {
        Some((start, n)) => Some((s.subrange(start as int, (start + n) as int), start + n)),
        None => None,
    }
}

/// The characters of an ASCII string object.
pub open spec fn spec_ascii_string(s: Seq<u8>) -> Option<(Seq<char>, nat)> {
    match spec_span(s, ObjectFormat::AsciiString, 1) {
        Some((start, n)) => {
            let b = s.subrange(start as int, (start + n) as int);
            if is_ascii_bytes(b) { Some((ascii_chars(b), start + n)) } else { None }
        },
        None => None,
    }
}

/// The `n` big-endian 16-bit code units that start at `start`.
pub open spec fn code_units(s: Seq<u8>, start: nat, n: nat) -> Seq<u16> {
    Seq::new(n, |i: int| be_uint(s.subrange(start + 2 * i, start + 2 * i + 2)) as u16)
}

/// The code units of a UTF-16 string object, and its size.
pub open spec fn spec_utf16_units(s: Seq<u8>) -> Option<(Seq<u16>, nat)> {
    match spec_span(s, ObjectFormat::Utf16String, 2) {
        Some((start, n)) => Some((code_units(s, start, n), start + 2 * n)),
        None => None,
    }
}

/// The characters of a UTF-16 string object.
pub open spec fn spec_utf16_string(s: Seq<u8>) -> Option<(Seq<char>, nat)> {
    match spec_utf16_units(s) {
        Some((u, size)) => if utf16_well_formed(u) { Some((utf16_decoded(u), size)) } else { None },
        None => None,
    }
}

/// The bytes of a uid object: one more than its value bits.
pub open spec fn spec_uid(s: Seq<u8>) -> Option<(Seq<u8>, nat)> {
    match spec_marker(s, ObjectFormat::Uid) {
        Some(v) => if 1 + v + 1 <= s.len() {
            Some((s.subrange(1, 1 + v + 1), (1 + v + 1) as nat))
        } else {
            None
        },
        None => None,
    }
}

/// The object reference number `i` of width `rs` in a list that starts at `base`.
pub open spec fn ref_at(s: Seq<u8>, base: nat, rs: nat, i: int) -> nat {
    be_uint(s.subrange(base + i * rs, base + i * rs + rs))
}

/// Every one of the `n` references fits in a platform word.
pub open spec fn refs_fit(s: Seq<u8>, base: nat, rs: nat, n: nat) -> bool {
    forall|i: int| 0 <= i < n ==> #[trigger] ref_at(s, base, rs, i) <= usize::MAX
}

/// The `n` references of width `rs` that start at `base`.
pub open spec fn refs(s: Seq<u8>, base: nat, rs: nat, n: nat) -> Seq<usize> {
    Seq::new(n, |i: int| ref_at(s, base, rs, i) as usize)
}

/// The object references of an array object.
pub open spec fn spec_array(s: Seq<u8>, rs: nat) -> Option<(Seq<usize>, nat)> {
    match spec_span(s, ObjectFormat::Array, rs) {
        Some((start, n)) => if refs_fit(s, start, rs, n) {
            Some((refs(s, start, rs, n), start + n * rs))
        } else {
            None
        },
        None => None,
    }
}

/// The (key, value) reference pairs of a dictionary object: all keys come
/// first, then all values, paired by position.
pub open spec fn spec_dictionary(s: Seq<u8>, rs: nat) -> Option<(Seq<(usize, usize)>, nat)> {
    match spec_span(s, ObjectFormat::Dictionary, 2 * rs) {
        Some((start, n)) => if refs_fit(s, start, rs, 2 * n) {
            Some((
                Seq::new(n, |i: int| (ref_at(s, start, rs, i) as usize, ref_at(s, start, rs, n + i) as usize)),
                start + n * (2 * rs),
            ))
        } else {
            None
        },
        None => None,
    }
}

/// Consumes a marker of the given format and returns its value bits.
fn marker(input: &[u8], format: ObjectFormat) -> (r: Option<u8>)
    ensures
        r == spec_marker(input@, format),
{
    if input.len() > 0 && input[0] & format.tag_mask() == format.tag_bits() {
        Some(input[0] & format.value_mask())
    } else {
        None
    }
}

/// Parses a marker byte and returns both the object format and its value bits.
pub fn any_marker(input: &[u8]) -> (r: Option<(ObjectFormat, u8)>)
    ensures
        r == spec_any_marker(input@),
{
    if input.len() == 0 {
        return None;
    }
    let formats = [
        ObjectFormat::Boolean,
        ObjectFormat::Fill,
        ObjectFormat::UInt8,
        ObjectFormat::UInt16,
        ObjectFormat::UInt32,
        ObjectFormat::SInt64,
        ObjectFormat::Float32,
        ObjectFormat::Float64,
        ObjectFormat::Date,
        ObjectFormat::Data,
        ObjectFormat::AsciiString,
        ObjectFormat::Utf16String,
        ObjectFormat::Uid,
        ObjectFormat::Array,
        ObjectFormat::Dictionary,
    ];
    let b = input[0];
    let mut i: usize = 0;
    while i < 15
        invariant
            formats@ == seq![
                ObjectFormat::Boolean,
                ObjectFormat::Fill,
                ObjectFormat::UInt8,
                ObjectFormat::UInt16,
                ObjectFormat::UInt32,
                ObjectFormat::SInt64,
                ObjectFormat::Float32,
                ObjectFormat::Float64,
                ObjectFormat::Date,
                ObjectFormat::Data,
                ObjectFormat::AsciiString,
                ObjectFormat::Utf16String,
                ObjectFormat::Uid,
                ObjectFormat::Array,
                ObjectFormat::Dictionary,
            ],
            i <= 15,
            b == input@[0],
            input@.len() > 0,
            forall|j: int| 0 <= j < i ==> !(#[trigger] formats@[j]).spec_matches(b),
        decreases 15 - i,
    {
        let f = formats[i];
        if b & f.tag_mask() == f.tag_bits() {
            return Some((f, b & f.value_mask()));
        }
        i = i + 1;
    }
    None
}

/// Reads the `w`-byte payload of an object of the given format.
fn fixed(input: &[u8], format: ObjectFormat, w: usize) -> (r: Option<u64>)
    requires
        1 <= w <= 8,
    ensures
        r matches Some(v) ==> spec_fixed(input@, format, w as nat) == Some(v as nat),
        r is None <==> spec_fixed(input@, format, w as nat) is None,
{
    match marker(input, format) {
        Some(_) => {
            let rest = slice_subrange(input, 1, input.len());
            assert(rest@ =~= input@.drop_first());
            be_u64_n(rest, w)
        },
        None => None,
    }
}

/// A payload of `w` bytes is below `256^w`.
proof fn lemma_fixed_bound(s: Seq<u8>, f: ObjectFormat, w: nat)
    requires
        spec_fixed(s, f, w) is Some,
    ensures
        spec_fixed(s, f, w).unwrap() < pow256(w),
{
    lemma_be_uint_bound(s.drop_first().subrange(0, w as int));
}

/// Parses a boolean object: its value bit.
pub fn boolean(input: &[u8]) -> (r: Option<(bool, usize)>)
    ensures
        r == (match spec_marker(input@, ObjectFormat::Boolean) {
            Some(v) => Some((v == 1, 1usize)),
            None => None,
        }),
{
    match marker(input, ObjectFormat::Boolean) {
        Some(v) => Some((v == 1, 1)),
        None => None,
    }
}

/// Parses a fill object, which carries no value.
pub fn fill(input: &[u8]) -> (r: Option<((), usize)>)
    ensures
        r == (match spec_marker(input@, ObjectFormat::Fill) {
            Some(_) => Some(((), 1usize)),
            None => None,
        }),
{
    match marker(input, ObjectFormat::Fill) {
        Some(_) => Some(((), 1)),
        None => None,
    }
}

/// Parses an 8-bit unsigned integer object.
pub fn uint8(input: &[u8]) -> (r: Option<(u8, usize)>)
    ensures
        r == (match spec_fixed(input@, ObjectFormat::UInt8, 1) {
            Some(v) => Some((v as u8, 2usize)),
            None => None,
        }),
        r matches Some((v, _)) ==> spec_fixed(input@, ObjectFormat::UInt8, 1) == Some(v as nat),
{
    match fixed(input, ObjectFormat::UInt8, 1) {
        Some(v) => {
            proof {
                lemma_fixed_bound(input@, ObjectFormat::UInt8, 1);
                reveal_with_fuel(pow256, 2);
            }
            Some((v as u8, 2))
        },
        None => None,
    }
}

/// Parses a 16-bit unsigned integer object.
pub fn uint16(input: &[u8]) -> (r: Option<(u16, usize)>)
    ensures
        r == (match spec_fixed(input@, ObjectFormat::UInt16, 2) {
            Some(v) => Some((v as u16, 3usize)),
            None => None,
        }),
        r matches Some((v, _)) ==> spec_fixed(input@, ObjectFormat::UInt16, 2) == Some(v as nat),
{
    match fixed(input, ObjectFormat::UInt16, 2) {
        Some(v) => {
            proof {
                lemma_fixed_bound(input@, ObjectFormat::UInt16, 2);
                reveal_with_fuel(pow256, 3);
            }
            Some((v as u16, 3))
        },
        None => None,
    }
}

/// Parses a 32-bit unsigned integer object.
pub fn uint32(input: &[u8]) -> (r: Option<(u32, usize)>)
    ensures
        r == (match spec_fixed(input@, ObjectFormat::UInt32, 4) {
            Some(v) => Some((v as u32, 5usize)),
            None => None,
        }),
        r matches Some((v, _)) ==> spec_fixed(input@, ObjectFormat::UInt32, 4) == Some(v as nat),
{
    match fixed(input, ObjectFormat::UInt32, 4) {
        Some(v) => {
            proof {
                lemma_fixed_bound(input@, ObjectFormat::UInt32, 4);
                reveal_with_fuel(pow256, 5);
            }
            Some((v as u32, 5))
        },
        None => None,
    }
}

/// Parses a 64-bit signed (two's complement) integer object.
pub fn sint64(input: &[u8]) -> (r: Option<(i64, usize)>)
    ensures
        r == (match spec_fixed(input@, ObjectFormat::SInt64, 8) {
            Some(v) => Some(((v as u64) as i64, 9usize)),
            None => None,
        }),
{
    match fixed(input, ObjectFormat::SInt64, 8) {
        Some(v) => Some((v as i64, 9)),
        None => None,
    }
}

/// Parses a 32-bit floating point object into the bits of its IEEE-754 value.
pub fn float32(input: &[u8]) -> (r: Option<(u32, usize)>)
    ensures
        r == (match spec_fixed(input@, ObjectFormat::Float32, 4) {
            Some(v) => Some((v as u32, 5usize)),
            None => None,
        }),
{
    match fixed(input, ObjectFormat::Float32, 4) {
        Some(v) => {
            proof {
                lemma_fixed_bound(input@, ObjectFormat::Float32, 4);
                reveal_with_fuel(pow256, 5);
            }
            Some((v as u32, 5))
        },
        None => None,
    }
}

/// Parses a 64-bit floating point object into the bits of its IEEE-754 value.
pub fn float64(input: &[u8]) -> (r: Option<(u64, usize)>)
    ensures
        r == (match spec_fixed(input@, ObjectFormat::Float64, 8) {
            Some(v) => Some((v as u64, 9usize)),
            None => None,
        }),
{
    match fixed(input, ObjectFormat::Float64, 8) {
        Some(v) => Some((v, 9)),
        None => None,
    }
}

/// Parses a date object into the bits of its IEEE-754 CFAbsoluteTime value.
pub fn date(input: &[u8]) -> (r: Option<(u64, usize)>)
    ensures
        r == (match spec_fixed(input@, ObjectFormat::Date, 8) {
            Some(v) => Some((v as u64, 9usize)),
            None => None,
        }),
{
    match fixed(input, ObjectFormat::Date, 8) {
        Some(v) => Some((v, 9)),
        None => None,
    }
}

/// Reads the count of a variable-length payload from the bytes that follow
/// a marker whose value bits are `encoded_value`.
///
/// Value bits up to 14 are the count itself. The value 15 announces an
/// integer object (of 1, 2, 4 or 8 bytes) that holds the count, read as
/// unsigned; it must fit in a platform word. Returns the count and the number
/// of bytes that its encoding took.
fn payload_count(input: &[u8], encoded_value: u8) -> (r: Option<(usize, usize)>)
    requires
        encoded_value < 16,
    ensures
        r matches Some((n, c)) ==> spec_payload_count(input@, encoded_value) == Some((n as nat, c as nat)),
        r is None <==> spec_payload_count(input@, encoded_value) is None,
        r matches Some((n, c)) ==> c <= 9,
{
    if encoded_value == 0b0000_1111 {
        let found: Option<(u64, usize)> = match fixed(input, ObjectFormat::UInt8, 1) {
            Some(v) => Some((v, 2)),
            None => match fixed(input, ObjectFormat::UInt16, 2) {
                Some(v) => Some((v, 3)),
                None => match fixed(input, ObjectFormat::UInt32, 4) {
                    Some(v) => Some((v, 5)),
                    None => match fixed(input, ObjectFormat::SInt64, 8) {
                        Some(v) => Some((v, 9)),
                        None => None,
                    },
                },
            },
        };
        match found {
            Some((v, c)) => {
                if v as u128 <= usize::MAX as u128 {
                    Some((v as usize, c))
                } else {
                    None
                }
            },
            None => None,
        }
    } else {
        Some((encoded_value as usize, 0))
    }
}

/// Masking a byte gives at most the mask.
proof fn lemma_and_le(x: u8, m: u8)
    ensures
        x & m <= m,
{
    assert(x & m <= m) by (bit_vector);
}

/// Reads the marker of a variable-length object of the given format and its
/// count; returns where the payload starts and the count.
fn payload_header(input: &[u8], format: ObjectFormat) -> (r: Option<(usize, usize)>)
    ensures
        r matches Some((start, n)) ==> spec_payload_header(input@, format) == Some((start as nat, n as nat)),
        r matches Some((start, n)) ==> 1 <= start <= 10,
        r is None <==> spec_payload_header(input@, format) is None,
{
    match marker(input, format) {
        Some(v) => {
            let rest = slice_subrange(input, 1, input.len());
            assert(rest@ =~= input@.drop_first());
            proof {
                lemma_and_le(input@[0], format.spec_value_mask());
            }
            match payload_count(rest, v) {
                Some((n, c)) => Some((1 + c, n)),
                None => None,
            }
        },
        None => None,
    }
}

/// Locates the payload of a variable-length object whose items are `width`
/// bytes each, checking that the input holds it.
fn span(input: &[u8], format: ObjectFormat, width: usize) -> (r: Option<(usize, usize)>)
    requires
        1 <= width <= 16,
    ensures
        r matches Some((start, n)) ==> spec_span(input@, format, width as nat) == Some((start as nat, n as nat)),
        r matches Some((start, n)) ==> 1 <= start && start + n * width <= input@.len(),
        r matches Some((start, n)) ==> start + n * width <= usize::MAX,
        r is None <==> spec_span(input@, format, width as nat) is None,
{
    match payload_header(input, format) {
        Some((start, n)) => {
            assert(n as u128 * width as u128 <= 0xFFFF_FFFF_FFFF_FFFF * 16) by (nonlinear_arith)
                requires
                    n <= 0xFFFF_FFFF_FFFF_FFFF,
                    width <= 16,
            ;
            let total: u128 = start as u128 + n as u128 * width as u128;
            let len = input.len();
            if total <= len as u128 {
                Some((start, n))
            } else {
                None
            }
        },
        None => None,
    }
}

/// Parses a variable-length data object and returns its bytes.
pub fn data(input: &[u8]) -> (r: Option<(&[u8], usize)>)
    ensures
        match spec_data(input@) {
            Some((b, size)) => r matches Some((x, c)) && x@ == b && c == size,
            None => r is None,
        },
{
    match span(input, ObjectFormat::Data, 1) {
        Some((start, n)) => Some((slice_subrange(input, start, start + n), start + n)),
        None => None,
    }
}

/// Parses a variable-length ASCII string object; every byte must be 7-bit.
pub fn ascii_string(input: &[u8]) -> (r: Option<(&str, usize)>)
    ensures
        match spec_ascii_string(input@) {
            Some((t, size)) => r matches Some((x, c)) && x@ == t && c == size,
            None => r is None,
        },
{
    match span(input, ObjectFormat::AsciiString, 1) {
        Some((start, n)) => {
            let bytes = slice_subrange(input, start, start + n);
            match ascii_str(bytes) {
                Some(text) => Some((text, start + n)),
                None => None,
            }
        },
        None => None,
    }
}

/// Reads `n` big-endian 16-bit code units that start at `start`.
fn read_code_units(input: &[u8], start: usize, n: usize) -> (r: Vec<u16>)
    requires
        start + 2 * n <= input@.len(),
    ensures
        r@ == code_units(input@, start as nat, n as nat),
{
    let mut units: Vec<u16> = Vec::new();
    let mut i: usize = 0;
    let len = input.len();
    while i < n
        invariant
            len == input@.len(),
            start + 2 * n <= input@.len(),
            i <= n,
            units@ == code_units(input@, start as nat, i as nat),
        decreases n - i,
    {
        let pos = start + 2 * i;
        let hi = input[pos];
        let lo = input[pos + 1];
        proof {
            let b = input@.subrange(pos as int, pos + 2);
            assert(b.drop_last().drop_last() =~= Seq::<u8>::empty());
            assert(b.drop_last() =~= seq![hi]);
            assert(b.last() == lo && b.drop_last().last() == hi);
            reveal_with_fuel(be_uint, 3);
            assert(be_uint(b) == hi * 256 + lo);
        }
        units.push(hi as u16 * 256 + lo as u16);
        i = i + 1;
        assert(units@ =~= code_units(input@, start as nat, i as nat));
    }
    units
}

/// Parses a variable-length UTF-16 string object; its code units must be
/// well-formed UTF-16.
pub fn utf16_string(input: &[u8]) -> (r: Option<(String, usize)>)
    ensures
        match spec_utf16_string(input@) {
            Some((t, size)) => r matches Some((x, c)) && x@ == t && c == size,
            None => r is None,
        },
{
    match span(input, ObjectFormat::Utf16String, 2) {
        Some((start, n)) => {
            let units = read_code_units(input, start, n);
            match decode_utf16(units.as_slice()) {
                Some(text) => Some((text, start + 2 * n)),
                None => None,
            }
        },
        None => None,
    }
}

/// Parses a uid object: an opaque blob of one more byte than its value bits.
pub fn uid(input: &[u8]) -> (r: Option<(&[u8], usize)>)
    ensures
        match spec_uid(input@) {
            Some((b, size)) => r matches Some((x, c)) && x@ == b && c == size,
            None => r is None,
        },
{
    match marker(input, ObjectFormat::Uid) {
        Some(v) => {
            let end = 1 + v as usize + 1;
            if end <= input.len() {
                Some((slice_subrange(input, 1, end), end))
            } else {
                None
            }
        },
        None => None,
    }
}

/// The reference `i + 1` ends where the list ends at the latest.
proof fn lemma_ref_in_list(base: nat, rs: nat, i: nat, n: nat)
    requires
        i < n,
    ensures
        base + i * rs + rs <= base + n * rs,
{
    assert(i * rs + rs <= n * rs) by (nonlinear_arith)
        requires
            i < n,
    ;
}

/// Reads `n` object references of `rs` bytes each, starting at `base`.
/// Returns `None` when one of them does not fit in a platform word.
pub(crate) fn read_refs(input: &[u8], base: usize, rs: usize, n: usize) -> (r: Option<Vec<usize>>)
    requires
        1 <= rs <= 8,
        base + n * rs <= input@.len(),
    ensures
        r matches Some(v) ==> v@ == refs(input@, base as nat, rs as nat, n as nat),
        r is Some <==> refs_fit(input@, base as nat, rs as nat, n as nat),
{
    let mut out: Vec<usize> = Vec::new();
    let mut i: usize = 0;
    let len = input.len();
    while i < n
        invariant
            len == input@.len(),
            1 <= rs <= 8,
            base + n * rs <= input@.len(),
            i <= n,
            out@ == refs(input@, base as nat, rs as nat, i as nat),
            refs_fit(input@, base as nat, rs as nat, i as nat),
        decreases n - i,
    {
        proof {
            lemma_ref_in_list(base as nat, rs as nat, i as nat, n as nat);
        }
        let pos = base + i * rs;
        let item = slice_subrange(input, pos, pos + rs);
        assert(item@.subrange(0, rs as int) =~= input@.subrange(base + i * rs, base + i * rs + rs));
        match be_usize_n(item, rs) {
            Some(v) => {
                out.push(v);
                i = i + 1;
                assert(out@ =~= refs(input@, base as nat, rs as nat, i as nat));
            },
            None => {
                assert(!(ref_at(input@, base as nat, rs as nat, i as int) <= usize::MAX));
                return None;
            },
        }
    }
    Some(out)
}

/// Parses an array object with object references of `object_reference_size`
/// bytes each; returns the referenced object ids.
pub fn array(input: &[u8], object_reference_size: usize) -> (r: Option<(Vec<usize>, usize)>)
    requires
        1 <= object_reference_size <= 8,
    ensures
        match spec_array(input@, object_reference_size as nat) {
            Some((ids, size)) => r matches Some((x, c)) && x@ == ids && c == size,
            None => r is None,
        },
{
    let rs = object_reference_size;
    match span(input, ObjectFormat::Array, rs) {
        Some((start, n)) => match read_refs(input, start, rs, n) {
            Some(ids) => Some((ids, start + n * rs)),
            None => None,
        },
        None => None,
    }
}

/// Parses a dictionary object with object references of
/// `object_reference_size` bytes each. The keys precede the values; the
/// result pairs them by position, key first.
pub fn dictionary(input: &[u8], object_reference_size: usize) -> (r: Option<(Vec<(usize, usize)>, usize)>)
    requires
        1 <= object_reference_size <= 8,
    ensures
        match spec_dictionary(input@, object_reference_size as nat) {
            Some((pairs, size)) => r matches Some((x, c)) && x@ == pairs && c == size,
            None => r is None,
        },
{
    let rs = object_reference_size;
    match span(input, ObjectFormat::Dictionary, 2 * rs) {
        Some((start, n)) => {
            assert(n * (2 * rs) == n * rs + n * rs) by (nonlinear_arith);
            let s = Ghost(input@);
            assert forall|i: int| 0 <= i < n implies #[trigger] ref_at(s@, start as nat, rs as nat, n + i)
                == ref_at(s@, (start + n * rs) as nat, rs as nat, i) by {
                assert((n + i) * rs == n * rs + i * rs) by (nonlinear_arith);
            }
            let keys = read_refs(input, start, rs, n);
            let values = read_refs(input, start + n * rs, rs, n);
            assert(refs_fit(s@, start as nat, rs as nat, 2 * n as nat) <==> (refs_fit(s@, start as nat, rs as nat, n as nat) && refs_fit(s@, (start + n * rs) as nat, rs as nat, n as nat))) by {
                if refs_fit(s@, start as nat, rs as nat, n as nat) && refs_fit(s@, (start + n * rs) as nat, rs as nat, n as nat) {
                    assert forall|i: int| 0 <= i < 2 * n implies #[trigger] ref_at(s@, start as nat, rs as nat, i) <= usize::MAX by {
                        if i >= n {
                            assert(ref_at(s@, start as nat, rs as nat, n + (i - n)) == ref_at(s@, (start + n * rs) as nat, rs as nat, i - n));
                        }
                    }
                }
                if refs_fit(s@, start as nat, rs as nat, 2 * n as nat) {
                    assert forall|i: int| 0 <= i < n implies #[trigger] ref_at(s@, (start + n * rs) as nat, rs as nat, i) <= usize::MAX by {
                        assert(ref_at(s@, start as nat, rs as nat, n + i) <= usize::MAX);
                    }
                }
            }
            match (keys, values) {
                (Some(keys), Some(values)) => {
                    let mut pairs: Vec<(usize, usize)> = Vec::new();
                    let mut i: usize = 0;
                    while i < n
                        invariant
                            i <= n,
                            keys@ == refs(s@, start as nat, rs as nat, n as nat),
                            values@ == refs(s@, (start + n * rs) as nat, rs as nat, n as nat),
                            pairs@ == Seq::new(i as nat, |j: int| (ref_at(s@, start as nat, rs as nat, j) as usize, ref_at(s@, start as nat, rs as nat, n + j) as usize)),
                            forall|j: int| 0 <= j < n ==> #[trigger] ref_at(s@, start as nat, rs as nat, n + j)
                                == ref_at(s@, (start + n * rs) as nat, rs as nat, j),
                        decreases n - i,
                    {
                        pairs.push((keys[i], values[i]));
                        i = i + 1;
                        assert(pairs@ =~= Seq::new(i as nat, |j: int| (ref_at(s@, start as nat, rs as nat, j) as usize, ref_at(s@, start as nat, rs as nat, n + j) as usize)));
                    }
                    Some((pairs, start + n * (2 * rs)))
                },
                _ => None,
            }
        },
        None => None,
    }
}

} // verus!
