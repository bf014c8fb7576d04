//! Parsers for the fixed-size header and trailer and for the offset table.
use vstd::prelude::*;
use vstd::slice::slice_subrange;

use crate::document::{header_magic, Header, Trailer, HEADER_SIZE, TRAILER_PREAMBLE_UNUSED_SIZE, TRAILER_SIZE};
use crate::object::{read_refs, refs, refs_fit};
use crate::utils::{be_prefix, be_usize_n};

verus! {

/// The header at the start of `s`: the magic number, then two version bytes.
pub open spec fn spec_header(s: Seq<u8>) -> Option<Header> {
    if s.len() >= 8 && s.subrange(0, 6) == header_magic() {
        Some(Header { version: (s[6], s[7]) })
    } else {
        None
    }
}

/// The big-endian number in the `w` bytes of `s` from `at` on.
pub open spec fn field(s: Seq<u8>, at: int, w: nat) -> Option<nat> {
    be_prefix(s.subrange(at, s.len() as int), w)
}

/// The trailer at the start of `s`: five unused bytes, the sort version, the
/// two one-byte sizes, then three 8-byte numbers that must fit in a platform
/// word.
pub open spec fn spec_trailer(s: Seq<u8>) -> Option<Trailer> {
    if s.len() < 32 {
        None
    } else {
        match (field(s, 8, 8), field(s, 16, 8), field(s, 24, 8)) {
            (Some(n), Some(root), Some(offset)) => if n <= usize::MAX && root <= usize::MAX
                && offset <= usize::MAX {
                Some(Trailer {
                    sort_version: s[5],
                    offset_table_entry_size: s[6] as usize,
                    object_reference_size: s[7] as usize,
                    number_of_objects: n as usize,
                    root_object: root as usize,
                    offset_table_offset: offset as usize,
                })
            } else {
                None
            },
            _ => None,
        }
    }
}

/// The offset table at the start of `s`: `entries` numbers of `entry_size`
/// bytes each, each of which must fit in a platform word.
pub open spec fn spec_offset_table(s: Seq<u8>, entries: nat, entry_size: nat) -> Option<Seq<usize>> {
    if entries * entry_size <= s.len() && refs_fit(s, 0, entry_size, entries) {
        Some(refs(s, 0, entry_size, entries))
    } else {
        None
    }
}

/// Parses the 8-byte header: the magic number "bplist" and the version.
pub fn header(input: &[u8]) -> (r: Option<(Header, usize)>)
    ensures
        r == (match spec_header(input@) {
            Some(h) => Some((h, 8usize)),
            None => None,
        }),
{
    if input.len() < HEADER_SIZE {
        return None;
    }
    let magic: [u8; 6] = [0x62, 0x70, 0x6C, 0x69, 0x73, 0x74];
    let mut i: usize = 0;
    while i < 6
        invariant
            magic@ == header_magic(),
            input@.len() >= 8,
            i <= 6,
            forall|j: int| 0 <= j < i ==> input@[j] == header_magic()[j],
        decreases 6 - i,
    {
        if input[i] != magic[i] {
            return None;
        }
        i = i + 1;
    }
    assert(input@.subrange(0, 6) =~= header_magic());
    Some((Header { version: (input[6], input[7]) }, HEADER_SIZE))
}

/// Reads an 8-byte trailer field that must fit in a platform word.
fn trailer_field(input: &[u8], at: usize) -> (r: Option<usize>)
    requires
        at + 8 <= input@.len(),
    ensures
        r matches Some(v) ==> field(input@, at as int, 8) == Some(v as nat),
        r is None <==> (field(input@, at as int, 8) matches Some(v) ==> v > usize::MAX),
{
    let rest = slice_subrange(input, at, input.len());
    be_usize_n(rest, 8)
}

/// Parses the 32-byte trailer. Only the field layout is checked here.
pub fn trailer(input: &[u8]) -> (r: Option<(Trailer, usize)>)
    ensures
        r == (match spec_trailer(input@) {
            Some(t) => Some((t, 32usize)),
            None => None,
        }),
{
    if input.len() < TRAILER_SIZE {
        return None;
    }
    let at = TRAILER_PREAMBLE_UNUSED_SIZE;
    let n = trailer_field(input, at + 3);
    let root = trailer_field(input, at + 11);
    let offset = trailer_field(input, at + 19);
    match (n, root, offset) {
        (Some(n), Some(root), Some(offset)) => Some((
            Trailer {
                sort_version: input[at],
                offset_table_entry_size: input[at + 1] as usize,
                object_reference_size: input[at + 2] as usize,
                number_of_objects: n,
                root_object: root,
                offset_table_offset: offset,
            },
            TRAILER_SIZE,
        )),
        _ => None,
    }
}

/// Parses an offset table of `entries` entries of `entry_size` bytes each.
pub fn offset_table(input: &[u8], entries: usize, entry_size: usize) -> (r: Option<(Vec<usize>, usize)>)
    requires
        1 <= entry_size <= 8,
    ensures
        match spec_offset_table(input@, entries as nat, entry_size as nat) {
            Some(t) => r matches Some((v, c)) && v@ == t && c == entries * entry_size,
            None => r is None,
        },
{
    assert(entries as u128 * entry_size as u128 <= 0xFFFF_FFFF_FFFF_FFFF * 8) by (nonlinear_arith)
        requires
            entries <= 0xFFFF_FFFF_FFFF_FFFF,
            entry_size <= 8,
    ;
    let len = input.len();
    if entries as u128 * entry_size as u128 > len as u128 {
        return None;
    }
    match read_refs(input, 0, entry_size, entries) {
        Some(v) => Some((v, entries * entry_size)),
        None => None,
    }
}

} // verus!
