//! Splitting a payload into its fields by tag, each value as text.

use crate::codec::text_of_bytes;
use crate::dec_helpers::entries;
use crate::dec_helpers::located;
use crate::dec_helpers::scan_entries;
use crate::dec_helpers::within;
use std::collections::HashMap;
use vstd::prelude::*;
use vstd::slice::slice_subrange;
use vstd::string::*;
use vstd::utf8::decode_utf8;
use vstd::utf8::encode_utf8_decode_utf8;
use vstd::utf8::valid_utf8;

verus! {

/// The fields of a payload, each value as text under its tag.
pub type FixFieldItems = HashMap<u32, String>;

/// The map that a list of fields fills with the values that are text,
/// each field put in turn: a field whose value is not UTF-8 is passed
/// over, and of two fields with one tag the later stays.
pub open spec fn text_items_of(fields: Seq<(u32, Seq<u8>)>) -> Map<u32, Seq<char>>
    decreases fields.len(),
{
    if fields.len() == 0 {
        Map::empty()
    } else if valid_utf8(fields.last().1) {
        text_items_of(fields.drop_last()).insert(fields.last().0, decode_utf8(fields.last().1))
    } else {
        text_items_of(fields.drop_last())
    }
}

/// The fields of a payload by tag, each value as text.
pub open spec fn split_text_items(data: Seq<u8>) -> Map<u32, Seq<char>> {
    text_items_of(entries(data))
}

/// What a map of fields holds, each value as its text.
pub open spec fn text_items_view(items: Map<u32, String>) -> Map<u32, Seq<char>> {
    items.map_values(|v: String| v@)
}

/// Splits a payload into its fields by tag, each value as text. The
/// payload is cut at every separator; a segment gives a field where it
/// holds `=` after a key that is an unsigned decimal numeral of 32 bits,
/// and the rest of it is UTF-8; every other segment is passed over. Of
/// two fields with one tag the later stays.
pub fn split_message_items(data: &[u8]) -> (items: FixFieldItems)
    ensures
        text_items_view(items@) == split_text_items(data@),
{
    broadcast use vstd::std_specs::hash::group_hash_axioms;

    let found = scan_entries(data);
    let mut items: HashMap<u32, String> = HashMap::new();
    let ghost fields = entries(data@);
    let mut k: usize = 0;
    assert(fields.take(0) =~= Seq::<(u32, Seq<u8>)>::empty());
    assert(text_items_view(items@) =~= text_items_of(fields.take(0)));
    while k < found.len()
        invariant
            k <= found@.len(),
            within(data@, found@),
            fields == located(data@, found@),
            text_items_view(items@) == text_items_of(fields.take(k as int)),
        decreases found@.len() - k,
    {
        let (tag, from, to) = found[k];
        assert(found@[k as int].1 <= found@[k as int].2 <= data@.len());
        let bytes = slice_subrange(data, from, to);
        assert(fields.take(k + 1).drop_last() =~= fields.take(k as int));
        assert(fields.take(k + 1).last() == (tag, bytes@));
        match text_of_bytes(bytes) {
            Ok(text) => {
                proof {
                    encode_utf8_decode_utf8(text@);
                }
                let value = String::from_str(text);
                let ghost before = items@;
                items.insert(tag, value);
                assert(text_items_view(items@) =~= text_items_view(before).insert(tag, value@));
            },
            Err(_) => {},
        }
        k += 1;
    }
    assert(fields.take(k as int) =~= fields);
    items
}

} // verus!
