//! The tag-value wire form: `tag=value` fields, each closed by a separator.

use crate::decimal::decimal_bytes;
use crate::decimal::is_digit_byte;
use crate::decimal::lemma_decimal_bytes_are_digits;
use crate::decimal::push_decimal;
use vstd::prelude::*;

verus! {

/// The byte that closes a field.
pub const SEP_CHAR: u8 = 0x01;

/// The byte between a field's tag and its value.
pub const ASSIGN_CHAR: u8 = 0x3D;

/// How many bytes of `s` come before the first `b`; the length of `s`
/// where it holds none.
pub open spec fn position(s: Seq<u8>, b: u8) -> int
    decreases s.len(),
{
    if s.len() == 0 {
        0
    } else if s[0] == b {
        0
    } else {
        1 + position(s.drop_first(), b)
    }
}

/// `position` is the index of the first occurrence.
pub proof fn lemma_position(s: Seq<u8>, b: u8)
    ensures
        0 <= position(s, b) <= s.len(),
        position(s, b) < s.len() ==> s[position(s, b)] == b,
        forall|j: int| 0 <= j < position(s, b) ==> s[j] != b,
    decreases s.len(),
{
    if s.len() > 0 && s[0] != b {
        let rest = s.drop_first();
        lemma_position(rest, b);
        assert forall|j: int| 0 <= j < position(s, b) implies s[j] != b by {
            if j > 0 {
                assert(s[j] == rest[j - 1]);
            }
        }
    }
}

/// The first occurrence is where `position` says.
pub proof fn lemma_position_is(s: Seq<u8>, b: u8, i: int)
    requires
        0 <= i <= s.len(),
        forall|j: int| 0 <= j < i ==> s[j] != b,
        i < s.len() ==> s[i] == b,
    ensures
        position(s, b) == i,
{
    lemma_position(s, b);
    let p = position(s, b);
    if p < i {
        assert(s[p] != b);
    } else if p > i {
        assert(s[i] == b);
    }
}

/// Finds the first `b` in `data[from..to]`; `to` where there is none.
pub fn find_byte(data: &[u8], from: usize, to: usize, b: u8) -> (p: usize)
    requires
        from <= to <= data@.len(),
    ensures
        from <= p <= to,
        p - from == position(data@.subrange(from as int, to as int), b),
{
    let mut i: usize = from;
    while i < to && data[i] != b
        invariant
            from <= i <= to <= data@.len(),
            forall|j: int| from <= j < i ==> data@[j] != b,
        decreases to - i,
    {
        i += 1;
    }
    proof {
        lemma_position_is(data@.subrange(from as int, to as int), b, i - from);
    }
    i
}

/// The wire form of one field: the tag in decimal, `=`, the value, and
/// the separator.
pub open spec fn encoded_field(tag: u32, value: Seq<u8>) -> Seq<u8> {
    decimal_bytes(tag as nat) + seq![ASSIGN_CHAR] + value + seq![SEP_CHAR]
}

/// Appends `bytes` to `out`.
pub fn push_bytes(out: &mut Vec<u8>, bytes: &[u8])
    ensures
        final(out)@ == old(out)@ + bytes@,
{
    let mut i: usize = 0;
    assert(out@ =~= old(out)@ + bytes@.take(0));
    while i < bytes.len()
        invariant
            i <= bytes@.len(),
            out@ == old(out)@ + bytes@.take(i as int),
        decreases bytes@.len() - i,
    {
        out.push(bytes[i]);
        assert(bytes@.take(i + 1) =~= bytes@.take(i as int).push(bytes@[i as int]));
        assert(out@ =~= old(out)@ + bytes@.take(i + 1));
        i += 1;
    }
    assert(bytes@.take(i as int) =~= bytes@);
}

/// Encodes one field.
pub fn encode_field(tag: u32, value: &[u8]) -> (r: Vec<u8>)
    ensures
        r@ == encoded_field(tag, value@),
{
    let mut out: Vec<u8> = Vec::new();
    push_decimal(&mut out, tag as u64);
    out.push(ASSIGN_CHAR);
    push_bytes(&mut out, value);
    out.push(SEP_CHAR);
    assert(out@ =~= encoded_field(tag, value@));
    out
}

/// Whether the bytes hold no separator.
pub open spec fn separator_free(value: Seq<u8>) -> bool {
    forall|i: int| 0 <= i < value.len() ==> value[i] != SEP_CHAR
}

/// In an encoded field the first `=` stands right after the tag, and the
/// first separator at the very end, where the value holds none.
pub proof fn lemma_encoded_field_shape(tag: u32, value: Seq<u8>)
    ensures
        position(encoded_field(tag, value), ASSIGN_CHAR) == decimal_bytes(tag as nat).len(),
        separator_free(value) ==> position(encoded_field(tag, value), SEP_CHAR) == encoded_field(
            tag,
            value,
        ).len() - 1,
{
    let digits = decimal_bytes(tag as nat);
    let field = encoded_field(tag, value);
    lemma_decimal_bytes_are_digits(tag as nat);
    assert forall|j: int| 0 <= j < digits.len() implies field[j] != ASSIGN_CHAR && field[j]
        != SEP_CHAR by {
        assert(field[j] == digits[j]);
        assert(is_digit_byte(digits[j]));
    }
    assert(field[digits.len() as int] == ASSIGN_CHAR);
    lemma_position_is(field, ASSIGN_CHAR, digits.len() as int);
    if separator_free(value) {
        assert forall|j: int| 0 <= j < field.len() - 1 implies field[j] != SEP_CHAR by {
            if j > digits.len() {
                assert(field[j] == value[j - digits.len() - 1]);
            }
        }
        assert(field[field.len() - 1] == SEP_CHAR);
        lemma_position_is(field, SEP_CHAR, field.len() - 1);
    }
}

} // verus!
