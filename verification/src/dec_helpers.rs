//! Splitting a payload into its fields, by tag.

use crate::decimal::all_digit_bytes;
use crate::decimal::decimal_bytes;
use crate::decimal::digits_value;
use crate::decimal::is_digit_byte;
use crate::decimal::lemma_decimal_bytes_are_digits;
use crate::decimal::lemma_decimal_round_trip;
use crate::decimal::lemma_digits_value_grows;
use crate::decimal::unsigned_decimal;
use crate::wire::encoded_field;
use crate::wire::find_byte;
use crate::wire::lemma_encoded_field_shape;
use crate::wire::lemma_position;
use crate::wire::lemma_position_is;
use crate::wire::position;
use crate::wire::separator_free;
use crate::wire::ASSIGN_CHAR;
use crate::wire::SEP_CHAR;
use std::collections::HashMap;
use vstd::prelude::*;
use vstd::slice::slice_subrange;
use vstd::slice::slice_to_vec;

verus! {

/// The fields of a payload, each value under its tag.
pub type FixFieldItems = HashMap<u32, Vec<u8>>;

/// The tag that a key denotes: an unsigned decimal numeral that fits 32
/// bits. `None` for any other key.
pub open spec fn tag_of(key: Seq<u8>) -> Option<u32> {
    match unsigned_decimal(key) {
        Some(n) => if n <= u32::MAX {
            Some(n as u32)
        } else {
            None
        },
        None => None,
    }
}

/// The field that a segment holds: what stands before its first `=` is
/// the key, what follows is the value. `None` where the segment has no
/// `=`, or where its key denotes no tag.
pub open spec fn segment_entry(segment: Seq<u8>) -> Option<(u32, Seq<u8>)> {
    let p = position(segment, ASSIGN_CHAR);
    if 0 <= p < segment.len() {
        match tag_of(segment.take(p)) {
            Some(tag) => Some((tag, segment.skip(p + 1))),
            None => None,
        }
    } else {
        None
    }
}

/// The field of a segment as a list: empty, or of that one field.
pub open spec fn segment_entries(segment: Seq<u8>) -> Seq<(u32, Seq<u8>)> {
    match segment_entry(segment) {
        Some(entry) => seq![entry],
        None => Seq::empty(),
    }
}

/// The fields of a payload, in order: the payload is cut at every
/// separator, and each segment gives its field, if it holds one.
pub open spec fn entries(data: Seq<u8>) -> Seq<(u32, Seq<u8>)>
    decreases data.len(),
{
    let p = position(data, SEP_CHAR);
    if 0 <= p < data.len() {
        segment_entries(data.take(p)) + entries(data.skip(p + 1))
    } else {
        segment_entries(data)
    }
}

/// The map that a list of fields fills, each field put in turn: of two
/// fields with one tag the later stays.
pub open spec fn items_of(fields: Seq<(u32, Seq<u8>)>) -> Map<u32, Seq<u8>>
    decreases fields.len(),
{
    if fields.len() == 0 {
        Map::empty()
    } else {
        items_of(fields.drop_last()).insert(fields.last().0, fields.last().1)
    }
}

/// The fields of a payload by tag.
pub open spec fn split_items(data: Seq<u8>) -> Map<u32, Seq<u8>> {
    items_of(entries(data))
}

/// What a map of fields holds, each value as its bytes.
pub open spec fn items_view(items: Map<u32, Vec<u8>>) -> Map<u32, Seq<u8>> {
    items.map_values(|v: Vec<u8>| v@)
}

/// Where the fields of `data` stand: each with its tag and the bounds of
/// its value.
pub open spec fn located(data: Seq<u8>, found: Seq<(u32, usize, usize)>) -> Seq<(u32, Seq<u8>)> {
    Seq::new(
        found.len(),
        |k: int| (found[k].0, data.subrange(found[k].1 as int, found[k].2 as int)),
    )
}

/// Whether every bound of `found` lies inside `data`.
pub open spec fn within(data: Seq<u8>, found: Seq<(u32, usize, usize)>) -> bool {
    forall|k: int| 0 <= k < found.len() ==> (#[trigger] found[k]).1 <= found[k].2 <= data.len()
}

/// Reads `data[from..to]` as a tag.
pub fn parse_tag(data: &[u8], from: usize, to: usize) -> (r: Option<u32>)
    requires
        from <= to <= data@.len(),
    ensures
        r == tag_of(data@.subrange(from as int, to as int)),
{
    let ghost key = data@.subrange(from as int, to as int);
    let mut start = from;
    if from < to && data[from] == 43 {
        start = from + 1;
    }
    let ghost digits = data@.subrange(start as int, to as int);
    assert(digits =~= if key.len() > 0 && key[0] == 43 {
        key.skip(1)
    } else {
        key
    });
    if start >= to {
        return None;
    }
    let mut acc: u64 = 0;
    let mut i = start;
    assert(digits.take(0) =~= Seq::<u8>::empty());
    while i < to
        invariant
            from <= start <= i <= to <= data@.len(),
            start < to,
            key == data@.subrange(from as int, to as int),
            digits == data@.subrange(start as int, to as int),
            digits == if key.len() > 0 && key[0] == 43 {
                key.skip(1)
            } else {
                key
            },
            all_digit_bytes(digits.take(i - start)),
            acc == digits_value(digits.take(i - start)),
            acc <= u32::MAX,
        decreases to - i,
    {
        let b = data[i];
        assert(digits[i - start] == b);
        if b < 48 || b > 57 {
            assert(!is_digit_byte(digits[i - start]));
            return None;
        }
        let ghost before = digits.take(i - start);
        let ghost after = digits.take(i + 1 - start);
        assert(after.drop_last() =~= before);
        assert(after.last() == b);
        assert forall|j: int| 0 <= j < after.len() implies is_digit_byte(#[trigger] after[j]) by {
            if j < before.len() {
                assert(after[j] == before[j]);
            }
        }
        acc = acc * 10 + (b - 48) as u64;
        if acc > u32::MAX as u64 {
            proof {
                if all_digit_bytes(digits) {
                    lemma_digits_value_grows(digits, i + 1 - start);
                }
            }
            return None;
        }
        i += 1;
    }
    assert(digits.take(i - start) =~= digits);
    Some(acc as u32)
}

/// Finds the fields of `data` in order, each with its tag and the bounds
/// of its value.
pub(crate) fn scan_entries(data: &[u8]) -> (found: Vec<(u32, usize, usize)>)
    ensures
        within(data@, found@),
        located(data@, found@) == entries(data@),
{
    let mut found: Vec<(u32, usize, usize)> = Vec::new();
    let mut start: usize = 0;
    let mut done = false;
    assert(data@.skip(0) =~= data@);
    assert(located(data@, found@) + entries(data@.skip(0)) =~= entries(data@));
    while !done
        invariant
            start <= data@.len(),
            within(data@, found@),
            !done ==> located(data@, found@) + entries(data@.skip(start as int)) == entries(
                data@,
            ),
            done ==> located(data@, found@) == entries(data@),
        decreases
                (if done {
                    0
                } else {
                    data@.len() - start + 1
                }),
    {
        let ghost rest = data@.skip(start as int);
        let ghost before = located(data@, found@);
        assert(data@.subrange(start as int, data@.len() as int) =~= rest);
        let end = find_byte(data, start, data.len(), SEP_CHAR);
        let ghost segment = data@.subrange(start as int, end as int);
        assert(segment =~= rest.take(end - start));
        let assign = find_byte(data, start, end, ASSIGN_CHAR);
        if assign < end {
            assert(segment.take(assign - start) =~= data@.subrange(start as int, assign as int));
            assert(segment.skip(assign - start + 1) =~= data@.subrange(
                assign + 1,
                end as int,
            ));
            match parse_tag(data, start, assign) {
                Some(tag) => {
                    found.push((tag, assign + 1, end));
                    assert(located(data@, found@) =~= before + segment_entries(segment));
                },
                None => {
                    assert(located(data@, found@) =~= before + segment_entries(segment));
                },
            }
        } else {
            assert(located(data@, found@) =~= before + segment_entries(segment));
        }
        if end < data.len() {
            assert(rest.skip(end - start + 1) =~= data@.skip(end + 1));
            assert(before + (segment_entries(segment) + entries(data@.skip(end + 1))) =~= (before
                + segment_entries(segment)) + entries(data@.skip(end + 1)));
            start = end + 1;
        } else {
            assert(segment =~= rest);
            assert(before + segment_entries(segment) =~= before + entries(rest));
            done = true;
        }
    }
    found
}

/// Splits a payload into its fields by tag. The payload is cut at every
/// separator; a segment gives a field where it holds `=` after a key that
/// is an unsigned decimal numeral of 32 bits; every other segment is
/// passed over. Of two fields with one tag the later stays.
pub fn split_message_items(data: &[u8]) -> (items: FixFieldItems)
    ensures
        items_view(items@) == split_items(data@),
{
    broadcast use vstd::std_specs::hash::group_hash_axioms;

    let found = scan_entries(data);
    let mut items: HashMap<u32, Vec<u8>> = HashMap::new();
    let ghost fields = entries(data@);
    let mut k: usize = 0;
    assert(fields.take(0) =~= Seq::<(u32, Seq<u8>)>::empty());
    assert(items_view(items@) =~= items_of(fields.take(0)));
    while k < found.len()
        invariant
            k <= found@.len(),
            within(data@, found@),
            fields == located(data@, found@),
            items_view(items@) == items_of(fields.take(k as int)),
        decreases found@.len() - k,
    {
        let (tag, from, to) = found[k];
        assert(found@[k as int].1 <= found@[k as int].2 <= data@.len());
        let value = slice_to_vec(slice_subrange(data, from, to));
        let ghost before = items@;
        items.insert(tag, value);
        assert(fields.take(k + 1).drop_last() =~= fields.take(k as int));
        assert(fields.take(k + 1).last() == (tag, value@));
        assert(items_view(items@) =~= items_view(before).insert(tag, value@));
        k += 1;
    }
    assert(fields.take(k as int) =~= fields);
    items
}

/// The wire form of a list of fields: each field encoded, one after the
/// other.
pub open spec fn wire_of(fields: Seq<(u32, Seq<u8>)>) -> Seq<u8>
    decreases fields.len(),
{
    if fields.len() == 0 {
        Seq::empty()
    } else {
        encoded_field(fields[0].0, fields[0].1) + wire_of(fields.drop_first())
    }
}

/// Whether no value of the list holds a separator.
pub open spec fn values_separator_free(fields: Seq<(u32, Seq<u8>)>) -> bool {
    forall|i: int| 0 <= i < fields.len() ==> separator_free((#[trigger] fields[i]).1)
}

/// A segment without `=` holds no field; so does the empty segment.
pub proof fn lemma_segment_without_assign(segment: Seq<u8>)
    requires
        forall|i: int| 0 <= i < segment.len() ==> segment[i] != ASSIGN_CHAR,
    ensures
        segment_entry(segment) is None,
        segment_entries(segment) == Seq::<(u32, Seq<u8>)>::empty(),
{
    lemma_position_is(segment, ASSIGN_CHAR, segment.len() as int);
}

/// A segment written as a tag, `=` and a value holds that field,
/// whatever the value.
pub proof fn lemma_field_entry(tag: u32, value: Seq<u8>)
    ensures
        segment_entry(decimal_bytes(tag as nat) + seq![ASSIGN_CHAR] + value) == Some((tag, value)),
{
    let digits = decimal_bytes(tag as nat);
    let segment = digits + seq![ASSIGN_CHAR] + value;
    lemma_decimal_bytes_are_digits(tag as nat);
    lemma_decimal_round_trip(tag as nat);
    assert forall|j: int| 0 <= j < digits.len() implies segment[j] != ASSIGN_CHAR by {
        assert(segment[j] == digits[j]);
        assert(is_digit_byte(digits[j]));
    }
    assert(segment[digits.len() as int] == ASSIGN_CHAR);
    lemma_position_is(segment, ASSIGN_CHAR, digits.len() as int);
    assert(segment.take(digits.len() as int) =~= digits);
    assert(segment.skip(digits.len() as int + 1) =~= value);
}

/// A payload without a separator is one segment.
pub proof fn lemma_entries_of_segment(segment: Seq<u8>)
    requires
        separator_free(segment),
    ensures
        entries(segment) == segment_entries(segment),
{
    lemma_position_is(segment, SEP_CHAR, segment.len() as int);
}

/// A separator parts a payload in two, and the fields of the whole are
/// those of the first part, then those of the second.
pub proof fn lemma_entries_concat(a: Seq<u8>, b: Seq<u8>)
    ensures
        entries(a + seq![SEP_CHAR] + b) == entries(a) + entries(b),
    decreases a.len(),
{
    let whole = a + seq![SEP_CHAR] + b;
    let p = position(a, SEP_CHAR);
    lemma_position(a, SEP_CHAR);
    assert forall|j: int| 0 <= j < p implies whole[j] != SEP_CHAR by {
        assert(whole[j] == a[j]);
    }
    if p < a.len() {
        assert(whole[p] == a[p]);
    } else {
        assert(whole[p] == SEP_CHAR);
    }
    lemma_position_is(whole, SEP_CHAR, p);
    if p < a.len() {
        let rest = a.skip(p + 1);
        assert(whole.take(p) =~= a.take(p));
        assert(whole.skip(p + 1) =~= rest + seq![SEP_CHAR] + b);
        lemma_entries_concat(rest, b);
        assert(entries(whole) =~= entries(a) + entries(b));
    } else {
        assert(whole.take(p) =~= a);
        assert(whole.skip(p + 1) =~= b);
    }
}

/// An empty payload holds no field.
pub proof fn lemma_empty_payload()
    ensures
        entries(Seq::<u8>::empty()) == Seq::<(u32, Seq<u8>)>::empty(),
        split_items(Seq::<u8>::empty()) == Map::<u32, Seq<u8>>::empty(),
{
    lemma_segment_without_assign(Seq::<u8>::empty());
    lemma_entries_of_segment(Seq::<u8>::empty());
}

/// A segment without `=` between two parts of a payload adds no field.
pub proof fn lemma_ignored_segment(a: Seq<u8>, segment: Seq<u8>, b: Seq<u8>)
    requires
        forall|i: int|
            0 <= i < segment.len() ==> segment[i] != ASSIGN_CHAR && segment[i] != SEP_CHAR,
    ensures
        entries(a + seq![SEP_CHAR] + segment + seq![SEP_CHAR] + b) == entries(a) + entries(b),
{
    lemma_segment_without_assign(segment);
    lemma_entries_of_segment(segment);
    lemma_entries_concat(segment, b);
    lemma_entries_concat(a, segment + seq![SEP_CHAR] + b);
    assert(a + seq![SEP_CHAR] + (segment + seq![SEP_CHAR] + b) =~= a + seq![SEP_CHAR] + segment
        + seq![SEP_CHAR] + b);
    assert(entries(a) + (entries(segment) + entries(b)) =~= entries(a) + entries(b));
}

/// Separators at the start, at the end, or doubled add no field.
pub proof fn lemma_stray_separators(a: Seq<u8>, b: Seq<u8>)
    ensures
        entries(seq![SEP_CHAR] + b) == entries(b),
        entries(a + seq![SEP_CHAR]) == entries(a),
        entries(a + seq![SEP_CHAR] + seq![SEP_CHAR] + b) == entries(a + seq![SEP_CHAR] + b),
{
    let empty = Seq::<u8>::empty();
    lemma_segment_without_assign(empty);
    lemma_entries_of_segment(empty);
    lemma_entries_concat(empty, b);
    assert(empty + seq![SEP_CHAR] + b =~= seq![SEP_CHAR] + b);
    assert(entries(empty) + entries(b) =~= entries(b));
    lemma_entries_concat(a, empty);
    assert(a + seq![SEP_CHAR] + empty =~= a + seq![SEP_CHAR]);
    assert(entries(a) + entries(empty) =~= entries(a));
    lemma_entries_concat(a + seq![SEP_CHAR], b);
    lemma_entries_concat(a, b);
}

/// Splitting undoes encoding: the payload written from a list of fields
/// whose values hold no separator splits into those fields, in order.
pub proof fn lemma_entries_of_wire(fields: Seq<(u32, Seq<u8>)>)
    requires
        values_separator_free(fields),
    ensures
        entries(wire_of(fields)) == fields,
        split_items(wire_of(fields)) == items_of(fields),
    decreases fields.len(),
{
    if fields.len() == 0 {
        lemma_segment_without_assign(Seq::<u8>::empty());
        lemma_entries_of_segment(Seq::<u8>::empty());
        assert(entries(wire_of(fields)) =~= fields);
    } else {
        let tag = fields[0].0;
        let value = fields[0].1;
        let rest = fields.drop_first();
        let segment = decimal_bytes(tag as nat) + seq![ASSIGN_CHAR] + value;
        assert(separator_free(value));
        assert forall|i: int| 0 <= i < rest.len() implies separator_free(
            (#[trigger] rest[i]).1,
        ) by {
            assert(rest[i] == fields[i + 1]);
        }
        lemma_entries_of_wire(rest);
        lemma_field_entry(tag, value);
        lemma_encoded_field_shape(tag, value);
        lemma_position(encoded_field(tag, value), SEP_CHAR);
        assert(segment =~= encoded_field(tag, value).drop_last());
        assert(separator_free(segment));
        lemma_entries_of_segment(segment);
        lemma_entries_concat(segment, wire_of(rest));
        assert(wire_of(fields) =~= segment + seq![SEP_CHAR] + wire_of(rest));
        assert(seq![fields[0]] + rest =~= fields);
    }
}

/// The tags of the map are the tags of the fields.
pub proof fn lemma_items_of_tags(fields: Seq<(u32, Seq<u8>)>, tag: u32)
    ensures
        items_of(fields).contains_key(tag) <==> exists|i: int|
            0 <= i < fields.len() && (#[trigger] fields[i]).0 == tag,
    decreases fields.len(),
{
    if fields.len() > 0 {
        let before = fields.drop_last();
        lemma_items_of_tags(before, tag);
        if items_of(fields).contains_key(tag) {
            if fields.last().0 == tag {
                assert(fields[fields.len() - 1].0 == tag);
            } else {
                let i = choose|i: int| 0 <= i < before.len() && (#[trigger] before[i]).0 == tag;
                assert(fields[i].0 == tag);
            }
        }
        if exists|i: int| 0 <= i < fields.len() && (#[trigger] fields[i]).0 == tag {
            let i = choose|i: int| 0 <= i < fields.len() && (#[trigger] fields[i]).0 == tag;
            if i < before.len() {
                assert(before[i].0 == tag);
            }
        }
    }
}

/// Under a tag the map holds the value of the last field with that tag:
/// with distinct tags, the value of the one field that has it.
pub proof fn lemma_items_of_value(fields: Seq<(u32, Seq<u8>)>, i: int)
    requires
        0 <= i < fields.len(),
        forall|j: int| i < j < fields.len() ==> (#[trigger] fields[j]).0 != fields[i].0,
    ensures
        items_of(fields).contains_key(fields[i].0),
        items_of(fields)[fields[i].0] == fields[i].1,
    decreases fields.len(),
{
    if i < fields.len() - 1 {
        let before = fields.drop_last();
        assert(fields.last() == fields[fields.len() - 1]);
        assert forall|j: int| i < j < before.len() implies (#[trigger] before[j]).0
            != before[i].0 by {
            assert(before[j] == fields[j]);
        }
        lemma_items_of_value(before, i);
    }
}

/// The wire form of two lists of fields, one after the other, is the wire
/// form of the first, then that of the second.
pub proof fn lemma_wire_of_concat(a: Seq<(u32, Seq<u8>)>, b: Seq<(u32, Seq<u8>)>)
    ensures
        wire_of(a + b) == wire_of(a) + wire_of(b),
    decreases a.len(),
{
    if a.len() == 0 {
        assert(a + b =~= b);
        assert(wire_of(a) + wire_of(b) =~= wire_of(b));
    } else {
        lemma_wire_of_concat(a.drop_first(), b);
        assert((a + b).drop_first() =~= a.drop_first() + b);
        assert((a + b)[0] == a[0]);
        assert(wire_of(a + b) =~= wire_of(a) + wire_of(b));
    }
}

} // verus!
