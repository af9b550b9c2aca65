//! Framing an encoded body: begin string, body length and checksum.

use crate::dec_helpers::entries;
use crate::dec_helpers::lemma_entries_of_wire;
use crate::dec_helpers::lemma_wire_of_concat;
use crate::dec_helpers::values_separator_free;
use crate::dec_helpers::wire_of;
use crate::decimal::decimal_bytes;
use crate::decimal::is_digit_byte;
use crate::decimal::lemma_decimal_bytes_are_digits;
use crate::wire::separator_free;
use crate::decimal::digit_byte;
use crate::decimal::push_decimal;
use crate::wire::encode_field;
use crate::wire::encoded_field;
use crate::wire::push_bytes;
use crate::wire::SEP_CHAR;
use vstd::prelude::*;
use vstd::string::*;

verus! {

/// The tag of the begin string.
pub const NUM_BEGIN_STRING: u32 = 8;

/// The tag of the body length.
pub const NUM_BODY_LENGTH: u32 = 9;

/// The tag of the checksum.
pub const NUM_CHECK_SUM: u32 = 10;

/// Why a body was not framed.
#[derive(Debug, Clone, Copy, PartialEq, Eq, Structural)]
pub enum EnvelopeError {
    /// The body is not empty and does not end with the separator.
    UnterminatedBody,
}

/// The sum of the bytes.
pub open spec fn byte_sum(bytes: Seq<u8>) -> nat
    decreases bytes.len(),
{
    if bytes.len() == 0 {
        0
    } else {
        byte_sum(bytes.drop_last()) + bytes.last() as nat
    }
}

/// The checksum of the bytes: their sum modulo 256.
pub open spec fn check_sum(bytes: Seq<u8>) -> nat {
    byte_sum(bytes) % 256
}

/// The three decimal digits of `n`, with zeros in front where `n` is small.
pub open spec fn three_digits(n: nat) -> Seq<u8>
    recommends
        n < 1000,
{
    seq![digit_byte(n / 100), digit_byte(n / 10 % 10), digit_byte(n % 10)]
}

/// Whether a body can be framed: it is empty, or its last byte is the
/// separator.
pub open spec fn well_terminated(body: Seq<u8>) -> bool {
    body.len() == 0 || body.last() == SEP_CHAR
}

/// What stands before the checksum: the begin string under tag 8, the
/// body's length in bytes under tag 9, and the body as it is.
pub open spec fn framed(begin: Seq<u8>, body: Seq<u8>) -> Seq<u8> {
    encoded_field(NUM_BEGIN_STRING, begin) + encoded_field(
        NUM_BODY_LENGTH,
        decimal_bytes(body.len()),
    ) + body
}

/// The framed body, closed by its checksum under tag 10: three digits for
/// the sum, modulo 256, of every byte before that field.
pub open spec fn envelope(begin: Seq<u8>, body: Seq<u8>) -> Seq<u8> {
    framed(begin, body) + encoded_field(
        NUM_CHECK_SUM,
        three_digits(check_sum(framed(begin, body))),
    )
}

/// The sum of two runs of bytes is the sum of their sums.
pub proof fn lemma_byte_sum_concat(a: Seq<u8>, b: Seq<u8>)
    ensures
        byte_sum(a + b) == byte_sum(a) + byte_sum(b),
    decreases b.len(),
{
    if b.len() == 0 {
        assert(a + b =~= a);
    } else {
        lemma_byte_sum_concat(a, b.drop_last());
        assert((a + b).drop_last() =~= a + b.drop_last());
    }
}

/// Adds the bytes to a running checksum.
fn add_to_check_sum(acc: u32, bytes: &[u8]) -> (r: u32)
    requires
        acc < 256,
    ensures
        r == (acc + byte_sum(bytes@)) % 256,
{
    let mut sum = acc;
    let mut i: usize = 0;
    assert(bytes@.take(0) =~= Seq::<u8>::empty());
    while i < bytes.len()
        invariant
            i <= bytes@.len(),
            sum < 256,
            sum == (acc + byte_sum(bytes@.take(i as int))) % 256,
        decreases bytes@.len() - i,
    {
        assert(bytes@.take(i + 1).drop_last() =~= bytes@.take(i as int));
        sum = (sum + bytes[i] as u32) % 256;
        i += 1;
    }
    assert(bytes@.take(i as int) =~= bytes@);
    sum
}

/// Encodes the two fields that stand before the body: the begin string
/// and the length of a body of `len` bytes.
fn frame_head(begin: &[u8], len: usize) -> (r: Vec<u8>)
    ensures
        r@ == encoded_field(NUM_BEGIN_STRING, begin@) + encoded_field(
            NUM_BODY_LENGTH,
            decimal_bytes(len as nat),
        ),
{
    let mut out = encode_field(NUM_BEGIN_STRING, begin);
    let mut digits: Vec<u8> = Vec::new();
    push_decimal(&mut digits, len as u64);
    assert(digits@ =~= decimal_bytes(len as nat));
    let length = encode_field(NUM_BODY_LENGTH, digits.as_slice());
    push_bytes(&mut out, length.as_slice());
    out
}

/// Encodes the checksum field for what stands before it: `head`, then
/// `body`.
fn check_sum_field(head: &[u8], body: &[u8]) -> (r: Vec<u8>)
    ensures
        r@ == encoded_field(NUM_CHECK_SUM, three_digits(check_sum(head@ + body@))),
{
    let sum = add_to_check_sum(0, head);
    let sum = add_to_check_sum(sum, body);
    assert(sum == check_sum(head@ + body@)) by {
        lemma_byte_sum_concat(head@, body@);
    }
    let mut code: Vec<u8> = Vec::new();
    code.push(48 + (sum / 100) as u8);
    code.push(48 + (sum / 10 % 10) as u8);
    code.push(48 + (sum % 10) as u8);
    assert(code@ =~= three_digits(sum as nat));
    encode_field(NUM_CHECK_SUM, code.as_slice())
}

/// Wraps an encoded body with the framing fields.
#[derive(Debug)]
pub struct FixEnvelopeBuilder {
    begin_string: String,
}

impl FixEnvelopeBuilder {
    /// The begin string that this builder writes.
    pub closed spec fn begin(&self) -> Seq<char> {
        self.begin_string@
    }

    /// A builder that writes the begin string `FIX.4.4`.
    pub fn new() -> (r: Self)
        ensures
            r.begin() == "FIX.4.4"@,
    {
        FixEnvelopeBuilder { begin_string: String::from_str("FIX.4.4") }
    }

    /// The same builder with another begin string.
    pub fn begin_string(self, value: &str) -> (r: Self)
        ensures
            r.begin() == value@,
    {
        FixEnvelopeBuilder { begin_string: String::from_str(value) }
    }

    /// Frames `data` and appends the result to `writer`. A body that is
    /// neither empty nor closed by the separator is refused, and nothing is
    /// written.
    pub fn build_message(&self, writer: &mut Vec<u8>, data: &[u8]) -> (r: Result<
        (),
        EnvelopeError,
    >)
        ensures
            r is Ok <==> well_terminated(data@),
            r is Ok ==> final(writer)@ == old(writer)@ + envelope(
                vstd::utf8::encode_utf8(self.begin()),
                data@,
            ),
            r is Err ==> r == Err::<(), EnvelopeError>(EnvelopeError::UnterminatedBody)
                && final(writer)@ == old(writer)@,
    {
        if data.len() > 0 && data[data.len() - 1] != SEP_CHAR {
            return Err(EnvelopeError::UnterminatedBody);
        }
        let head = frame_head(self.begin_string.as_str().as_bytes(), data.len());
        let check = check_sum_field(head.as_slice(), data);
        push_bytes(writer, head.as_slice());
        push_bytes(writer, data);
        push_bytes(writer, check.as_slice());
        assert(writer@ =~= old(writer)@ + (head@ + data@ + check@));
        Ok(())
    }
}

/// The fields of a framed message: the begin string, the body length,
/// the fields of the body, and the checksum.
pub open spec fn envelope_fields(begin: Seq<u8>, fields: Seq<(u32, Seq<u8>)>) -> Seq<
    (u32, Seq<u8>),
> {
    let body = wire_of(fields);
    seq![(NUM_BEGIN_STRING, begin), (NUM_BODY_LENGTH, decimal_bytes(body.len()))] + fields
        + seq![(NUM_CHECK_SUM, three_digits(check_sum(framed(begin, body))))]
}

/// Splitting undoes framing: a framed body that was written from a list
/// of fields splits into the begin string first, the body length second,
/// those fields in their order, and the checksum last, where neither the
/// begin string nor a value holds a separator.
pub proof fn lemma_entries_of_envelope(begin: Seq<u8>, fields: Seq<(u32, Seq<u8>)>)
    requires
        separator_free(begin),
        values_separator_free(fields),
    ensures
        envelope(begin, wire_of(fields)) == wire_of(envelope_fields(begin, fields)),
        entries(envelope(begin, wire_of(fields))) == envelope_fields(begin, fields),
{
    let body = wire_of(fields);
    let length = decimal_bytes(body.len());
    let check = three_digits(check_sum(framed(begin, body)));
    let head = seq![(NUM_BEGIN_STRING, begin), (NUM_BODY_LENGTH, length)];
    let tail = seq![(NUM_CHECK_SUM, check)];
    let all = envelope_fields(begin, fields);
    lemma_wire_of_concat(head + fields, tail);
    lemma_wire_of_concat(head, fields);
    assert(wire_of(head) =~= encoded_field(NUM_BEGIN_STRING, begin) + encoded_field(
        NUM_BODY_LENGTH,
        length,
    )) by {
        reveal_with_fuel(wire_of, 3);
        assert(head.drop_first() =~= seq![(NUM_BODY_LENGTH, length)]);
        assert(head.drop_first().drop_first() =~= Seq::<(u32, Seq<u8>)>::empty());
    }
    assert(wire_of(tail) =~= encoded_field(NUM_CHECK_SUM, check)) by {
        reveal_with_fuel(wire_of, 2);
        assert(tail.drop_first() =~= Seq::<(u32, Seq<u8>)>::empty());
    }
    assert(envelope(begin, body) =~= wire_of(all));
    lemma_decimal_bytes_are_digits(body.len());
    assert(separator_free(length)) by {
        assert forall|i: int| 0 <= i < length.len() implies length[i] != SEP_CHAR by {
            assert(is_digit_byte(length[i]));
        }
    }
    assert(separator_free(check));
    assert forall|i: int| 0 <= i < all.len() implies separator_free((#[trigger] all[i]).1) by {
        if 2 <= i < 2 + fields.len() {
            assert(all[i] == fields[i - 2]);
        }
    }
    lemma_entries_of_wire(all);
}

} // verus!
