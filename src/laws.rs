//! Properties of decoding that hold for every input.
use vstd::prelude::*;
use vstd::set_lib::{lemma_int_range, lemma_len_subset, set_int_range};

use crate::de::{
    is_reentry, spec_data_for, spec_decode, spec_events, spec_kind_of, spec_list_events,
    spec_metadata, spec_pair_events, DocumentModel,
};
use crate::document::{ObjectFormat, HEADER_SIZE};
use crate::object::{
    spec_array, spec_ascii_string, spec_dictionary, spec_payload_count, spec_utf16_string,
    spec_utf16_units,
};
use crate::error::Error;
use crate::text::utf16_well_formed;

verus! {

/// Object `id` resolves to an offset inside the object table, and so does,
/// recursively, every object that the walk from it visits.
pub open spec fn resolves_within(s: Seq<u8>, m: DocumentModel, id: usize, entered: Seq<usize>) -> bool
    decreases m.offsets.len() - entered.len(), 0int, 0int,
{
    &&& id < m.offsets.len()
    &&& HEADER_SIZE <= m.offsets[id as int] < m.table_end
    &&& {
        let d = s.subrange(m.offsets[id as int] as int, s.len() as int);
        if spec_kind_of(s, m, id as int) == Ok::<ObjectFormat, Error>(ObjectFormat::Array)
            && spec_array(d, m.reference_size as nat) is Some && !is_reentry(m, id, entered) {
            list_resolves_within(s, m, spec_array(d, m.reference_size as nat).unwrap().0, entered.push(id))
        } else if spec_kind_of(s, m, id as int) == Ok::<ObjectFormat, Error>(ObjectFormat::Dictionary)
            && spec_dictionary(d, m.reference_size as nat) is Some && !is_reentry(m, id, entered) {
            pairs_resolve_within(s, m, spec_dictionary(d, m.reference_size as nat).unwrap().0, entered.push(id))
        } else {
            true
        }
    }
}

/// Each of the objects `ids` resolves within the object table.
pub open spec fn list_resolves_within(s: Seq<u8>, m: DocumentModel, ids: Seq<usize>, entered: Seq<usize>) -> bool
    decreases m.offsets.len() - entered.len(), 1int, ids.len(),
{
    ids.len() == 0 || (list_resolves_within(s, m, ids.drop_last(), entered) && resolves_within(s, m, ids.last(), entered))
}

/// Each key and value of `pairs` resolves within the object table.
pub open spec fn pairs_resolve_within(s: Seq<u8>, m: DocumentModel, pairs: Seq<(usize, usize)>, entered: Seq<usize>) -> bool
    decreases m.offsets.len() - entered.len(), 1int, pairs.len(),
{
    pairs.len() == 0 || (pairs_resolve_within(s, m, pairs.drop_last(), entered)
        && resolves_within(s, m, pairs.last().0, entered) && resolves_within(s, m, pairs.last().1, entered))
}

/// When the events of an object decode, the object and every object that
/// its walk visits resolve to offsets inside the object table.
pub proof fn lemma_decoded_object_within_table(s: Seq<u8>, m: DocumentModel, id: usize, entered: Seq<usize>)
    requires
        spec_events(s, m, id, entered) is Ok,
    ensures
        resolves_within(s, m, id, entered),
    decreases m.offsets.len() - entered.len(), 0int, 0int,
{
    let d = s.subrange(m.offsets[id as int] as int, s.len() as int);
    assert(spec_data_for(s, m, id as int) is Ok);
    if spec_kind_of(s, m, id as int) == Ok::<ObjectFormat, Error>(ObjectFormat::Array)
        && spec_array(d, m.reference_size as nat) is Some && !is_reentry(m, id, entered) {
        lemma_decoded_list_within_table(s, m, spec_array(d, m.reference_size as nat).unwrap().0, entered.push(id));
    } else if spec_kind_of(s, m, id as int) == Ok::<ObjectFormat, Error>(ObjectFormat::Dictionary)
        && spec_dictionary(d, m.reference_size as nat) is Some && !is_reentry(m, id, entered) {
        lemma_decoded_pairs_within_table(s, m, spec_dictionary(d, m.reference_size as nat).unwrap().0, entered.push(id));
    }
}

/// When the events of a list decode, each of its objects resolves within the table.
proof fn lemma_decoded_list_within_table(s: Seq<u8>, m: DocumentModel, ids: Seq<usize>, entered: Seq<usize>)
    requires
        spec_list_events(s, m, ids, entered) is Ok,
    ensures
        list_resolves_within(s, m, ids, entered),
    decreases m.offsets.len() - entered.len(), 1int, ids.len(),
{
    if ids.len() > 0 {
        lemma_decoded_list_within_table(s, m, ids.drop_last(), entered);
        lemma_decoded_object_within_table(s, m, ids.last(), entered);
    }
}

/// When the events of a list of pairs decode, each key and value resolves
/// within the table.
proof fn lemma_decoded_pairs_within_table(s: Seq<u8>, m: DocumentModel, pairs: Seq<(usize, usize)>, entered: Seq<usize>)
    requires
        spec_pair_events(s, m, pairs, entered) is Ok,
    ensures
        pairs_resolve_within(s, m, pairs, entered),
    decreases m.offsets.len() - entered.len(), 1int, pairs.len(),
{
    if pairs.len() > 0 {
        lemma_decoded_pairs_within_table(s, m, pairs.drop_last(), entered);
        lemma_decoded_object_within_table(s, m, pairs.last().0, entered);
        lemma_decoded_object_within_table(s, m, pairs.last().1, entered);
    }
}

/// For a successful decode, the root and every object reached from it
/// resolve to offsets inside the object table.
pub proof fn lemma_decode_resolves_within_table(s: Seq<u8>)
    requires
        spec_decode(s) is Ok,
    ensures
        spec_metadata(s) is Ok,
        resolves_within(s, spec_metadata(s).unwrap(), spec_metadata(s).unwrap().root, seq![]),
{
    let m = spec_metadata(s).unwrap();
    lemma_decoded_object_within_table(s, m, m.root, seq![]);
}

/// On a stack with no id twice, all of them in the offset table, a collection
/// that is in the offset table is re-entered exactly when it is on the stack:
/// the walker's cycle check rejects nothing else.
pub proof fn lemma_reentry_is_member(m: DocumentModel, id: usize, entered: Seq<usize>)
    requires
        entered.no_duplicates(),
        forall|i: int| 0 <= i < entered.len() ==> #[trigger] entered[i] < m.offsets.len(),
        id < m.offsets.len(),
    ensures
        is_reentry(m, id, entered) <==> entered.contains(id),
{
    if !entered.contains(id) && entered.len() >= m.offsets.len() {
        let all = entered.push(id).map_values(|x: usize| x as int);
        assert(all.no_duplicates()) by {
            assert forall|i: int, j: int| 0 <= i < all.len() && 0 <= j < all.len() && i != j implies all[i] != all[j] by {
                if i < entered.len() && j < entered.len() {
                    assert(entered[i] != entered[j]);
                } else if i == entered.len() {
                    assert(entered[j] != id);
                } else {
                    assert(entered[i] != id);
                }
            }
        }
        all.unique_seq_to_set();
        lemma_int_range(0, m.offsets.len() as int);
        assert(all.to_set().subset_of(set_int_range(0, m.offsets.len() as int))) by {
            assert forall|x: int| all.to_set().contains(x) implies set_int_range(0, m.offsets.len() as int).contains(x) by {
                let i = choose|i: int| 0 <= i < all.len() && all[i] == x;
                if i < entered.len() {
                    assert(entered[i] < m.offsets.len());
                }
            }
        }
        lemma_len_subset(all.to_set(), set_int_range(0, m.offsets.len() as int));
    }
}

/// The characters of an ASCII string object are all 7-bit.
pub proof fn lemma_ascii_string_is_7bit(s: Seq<u8>)
    requires
        spec_ascii_string(s) is Some,
    ensures
        forall|i: int| 0 <= i < spec_ascii_string(s).unwrap().0.len()
            ==> (#[trigger] spec_ascii_string(s).unwrap().0[i]) as u32 <= 0x7F,
{
}

/// The code units of a UTF-16 string object that decodes hold no unpaired
/// surrogate.
pub proof fn lemma_utf16_string_is_well_formed(s: Seq<u8>)
    requires
        spec_utf16_string(s) is Some,
    ensures
        utf16_well_formed(spec_utf16_units(s).unwrap().0),
{
}

/// A count given by the extended-count escape fits in a platform word.
pub proof fn lemma_extended_count_fits(s: Seq<u8>)
    requires
        spec_payload_count(s, 0b0000_1111) is Some,
    ensures
        0 <= spec_payload_count(s, 0b0000_1111).unwrap().0 <= usize::MAX,
{
}

/// Decoding is deterministic: the same bytes give the same events, or the
/// same error.
pub proof fn lemma_decode_deterministic(a: Seq<u8>, b: Seq<u8>)
    requires
        a == b,
    ensures
        spec_decode(a) == spec_decode(b),
{
}

} // verus!
