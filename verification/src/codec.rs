//! The codec contracts that field and message types implement, and the
//! part of field decoding that is the same for all of them.

use crate::dec_helpers::tag_of;
use crate::dec_helpers::FixFieldItems;
use crate::decimal::decimal_bytes;
use crate::decimal::decimal_chars;
use crate::decimal::decimal_string;
use crate::decimal::is_digit_byte;
use crate::decimal::lemma_decimal_bytes_are_digits;
use crate::decimal::lemma_decimal_round_trip;
use crate::wire::encode_field;
use crate::wire::encoded_field;
use crate::wire::find_byte;
use crate::wire::lemma_position_is;
use crate::wire::position;
use crate::wire::ASSIGN_CHAR;
use std::num::ParseIntError;
use std::str::Utf8Error;
use vstd::prelude::*;
use vstd::slice::slice_subrange;
use vstd::string::*;
use vstd::utf8::encode_utf8;
use vstd::utf8::partial_valid_utf8;
use vstd::utf8::partial_valid_utf8_extend_ascii_block;
use vstd::utf8::valid_utf8;

verus! {

/// The error of std's integer parsing; opaque here.
#[verifier::external_type_specification]
#[verifier::external_body]
pub struct ExParseIntError(ParseIntError);

/// The error of std's UTF-8 validation; opaque here.
#[verifier::external_type_specification]
#[verifier::external_body]
pub struct ExUtf8Error(Utf8Error);

/// Why a field or a message could not be decoded.
#[derive(Debug, PartialEq)]
pub enum FixParseError {
    /// The key is no number.
    InvalidKey(ParseIntError),
    /// The key is a number, but not the expected tag; it holds the key.
    InvalidKeyId(u32),
    /// The data has not the expected shape.
    InvalidData,
    /// Bytes that should be text are not UTF-8.
    InvalidString(Utf8Error),
}

/// The kinds of decoding errors, without what the library errors carry.
#[derive(Debug, Clone, Copy, PartialEq, Eq, Structural)]
pub enum ParseErrorKind {
    InvalidKey,
    InvalidKeyId(u32),
    InvalidData,
    InvalidString,
}

/// The kind of a decoding error.
pub open spec fn kind_of(error: FixParseError) -> ParseErrorKind {
    match error {
        FixParseError::InvalidKey(_) => ParseErrorKind::InvalidKey,
        FixParseError::InvalidKeyId(key) => ParseErrorKind::InvalidKeyId(key),
        FixParseError::InvalidData => ParseErrorKind::InvalidData,
        FixParseError::InvalidString(_) => ParseErrorKind::InvalidString,
    }
}

/// The message of an error of the given kind, where `detail` is what the
/// parser said of a key that is no number.
pub open spec fn message_text(kind: ParseErrorKind, detail: Seq<char>) -> Seq<char> {
    match kind {
        ParseErrorKind::InvalidKey => "invalid key: "@ + detail,
        ParseErrorKind::InvalidKeyId(key) => "invalid key ID: "@ + decimal_chars(key as nat),
        ParseErrorKind::InvalidData => "invalid data"@,
        ParseErrorKind::InvalidString => "invalid string"@,
    }
}

impl FixParseError {
    /// The kind of this error.
    pub fn kind(&self) -> (r: ParseErrorKind)
        ensures
            r == kind_of(*self),
    {
        match self {
            FixParseError::InvalidKey(_) => ParseErrorKind::InvalidKey,
            FixParseError::InvalidKeyId(key) => ParseErrorKind::InvalidKeyId(*key),
            FixParseError::InvalidData => ParseErrorKind::InvalidData,
            FixParseError::InvalidString(_) => ParseErrorKind::InvalidString,
        }
    }

    /// The message of this error. For a key that is no number it ends
    /// with what the parser said of the key.
    pub fn message(&self) -> (r: String)
        ensures
            exists|detail: Seq<char>| r@ == #[trigger] message_text(kind_of(*self), detail),
            !(*self is InvalidKey) ==> r@ == message_text(kind_of(*self), Seq::empty()),
    {
        match self {
            FixParseError::InvalidKey(e) => {
                let detail = e.to_string();
                let r = String::from_str("invalid key: ").concat(detail.as_str());
                assert(r@ == message_text(kind_of(*self), detail@));
                r
            },
            FixParseError::InvalidKeyId(key) => {
                let r = String::from_str("invalid key ID: ").concat(
                    decimal_string(*key as u64).as_str(),
                );
                assert(r@ == message_text(kind_of(*self), Seq::empty()));
                r
            },
            FixParseError::InvalidData => {
                let r = String::from_str("invalid data");
                assert(r@ == message_text(kind_of(*self), Seq::empty()));
                r
            },
            FixParseError::InvalidString(_) => {
                let r = String::from_str("invalid string");
                assert(r@ == message_text(kind_of(*self), Seq::empty()));
                r
            },
        }
    }
}

/// Who a message is addressed to.
#[derive(Debug, Clone, Copy, PartialEq, Eq, Structural)]
pub enum MessageDest {
    Admin,
    App,
}

/// Calls `std::str::from_utf8`: it succeeds exactly on valid UTF-8, and
/// the text it gives then has the bytes it was given.
#[verifier::external_body]
pub(crate) fn text_of_bytes<'a>(bytes: &'a [u8]) -> (r: Result<&'a str, Utf8Error>)
    ensures
        r is Ok <==> valid_utf8(bytes@),
        r matches Ok(text) ==> text.spec_bytes() == bytes@,
{
    std::str::from_utf8(bytes)
}

/// Calls `str::parse::<u32>`: it succeeds exactly on an optional `+`
/// followed by digits that denote a number of 32 bits, and gives that
/// number.
#[verifier::external_body]
pub(crate) fn parse_unsigned(text: &str) -> (r: Result<u32, ParseIntError>)
    ensures
        r is Ok <==> tag_of(text.spec_bytes()) is Some,
        r matches Ok(v) ==> tag_of(text.spec_bytes()) == Some(v),
{
    text.parse::<u32>()
}

/// What decoding makes of a field written as `key=payload` when the tag
/// `field_id` is expected, before the payload itself is read: the payload,
/// where the key denotes that tag, and else what is wrong. Data without
/// `=` is invalid data; a key that is not UTF-8 is an invalid string; a
/// key that is no unsigned decimal numeral of 32 bits is an invalid key;
/// and a key that denotes another tag is an invalid key id, which holds
/// that tag.
pub open spec fn field_check(value: Seq<u8>, field_id: u32) -> Result<Seq<u8>, ParseErrorKind> {
    let p = position(value, ASSIGN_CHAR);
    if 0 <= p < value.len() {
        let key = value.take(p);
        if !valid_utf8(key) {
            Err(ParseErrorKind::InvalidString)
        } else {
            match tag_of(key) {
                Some(tag) => if tag == field_id {
                    Ok(value.skip(p + 1))
                } else {
                    Err(ParseErrorKind::InvalidKeyId(tag))
                },
                None => Err(ParseErrorKind::InvalidKey),
            }
        }
    } else {
        Err(ParseErrorKind::InvalidData)
    }
}

/// Checks the key of a field written as `key=payload` against the
/// expected tag, and hands out the payload.
pub fn field_payload<'a>(value: &'a [u8], field_id: u32) -> (r: Result<&'a [u8], FixParseError>)
    ensures
        match field_check(value@, field_id) {
            Ok(payload) => r is Ok && r.unwrap()@ == payload,
            Err(kind) => r is Err && kind_of(r.unwrap_err()) == kind,
        },
{
    let p = find_byte(value, 0, value.len(), ASSIGN_CHAR);
    assert(value@.subrange(0, value@.len() as int) =~= value@);
    if p >= value.len() {
        return Err(FixParseError::InvalidData);
    }
    let key = slice_subrange(value, 0, p);
    assert(key@ =~= value@.take(p as int));
    let text = match text_of_bytes(key) {
        Ok(text) => text,
        Err(e) => {
            return Err(FixParseError::InvalidString(e));
        },
    };
    let key_id = match parse_unsigned(text) {
        Ok(key_id) => key_id,
        Err(e) => {
            return Err(FixParseError::InvalidKey(e));
        },
    };
    if key_id == field_id {
        let payload = slice_subrange(value, p + 1, value.len());
        assert(payload@ =~= value@.skip(p + 1));
        Ok(payload)
    } else {
        Err(FixParseError::InvalidKeyId(key_id))
    }
}

/// Decoding undoes encoding: an encoded field without its separator,
/// checked against its own tag, gives back the value it was written
/// from, whatever the value.
pub proof fn lemma_field_round_trip(tag: u32, value: Seq<u8>)
    ensures
        encoded_field(tag, value).drop_last() == decimal_bytes(tag as nat) + seq![ASSIGN_CHAR]
            + value,
        field_check(encoded_field(tag, value).drop_last(), tag) == Ok::<Seq<u8>, ParseErrorKind>(
            value,
        ),
{
    let digits = decimal_bytes(tag as nat);
    let field = digits + seq![ASSIGN_CHAR] + value;
    assert(encoded_field(tag, value).drop_last() =~= field);
    lemma_decimal_bytes_are_digits(tag as nat);
    lemma_decimal_round_trip(tag as nat);
    assert forall|j: int| 0 <= j < digits.len() implies field[j] != ASSIGN_CHAR by {
        assert(field[j] == digits[j]);
        assert(is_digit_byte(digits[j]));
    }
    assert(field[digits.len() as int] == ASSIGN_CHAR);
    lemma_position_is(field, ASSIGN_CHAR, digits.len() as int);
    assert(field.take(digits.len() as int) =~= digits);
    assert(field.skip(digits.len() as int + 1) =~= value);
    assert(valid_utf8(digits)) by {
        assert forall|i: int| 0 <= i < digits.len() implies #[trigger] vstd::utf8::is_leading_byte_width_1(
            digits[i],
        ) by {
            assert(is_digit_byte(digits[i]));
        }
        assert(digits.subrange(0, 0) =~= Seq::<u8>::empty());
        assert(partial_valid_utf8(digits, 0));
        partial_valid_utf8_extend_ascii_block(digits, 0, digits.len() as int);
        assert(digits.subrange(0, digits.len() as int) =~= digits);
    }
}

/// A field type as the encoder sees it: a tag and a value as text.
pub trait AsFixMessageField {
    /// The value as it stands on the wire.
    fn as_fix_value(&self) -> String;

    /// The field's tag.
    fn as_fix_key(&self) -> u32;

    /// Encodes the field: the tag that `as_fix_key` gives in decimal, `=`,
    /// the value that `as_fix_value` gives in UTF-8, and the separator.
    fn encode_message(&self) -> (r: Vec<u8>)
        ensures
            exists|key: u32, value: String|
                call_ensures(Self::as_fix_key, (self,), key) && call_ensures(
                    Self::as_fix_value,
                    (self,),
                    value,
                ) && r@ == #[trigger] encoded_field(key, encode_utf8(value@)),
    {
        let key = self.as_fix_key();
        let value = self.as_fix_value();
        assert(call_ensures(Self::as_fix_key, (self,), key));
        assert(call_ensures(Self::as_fix_value, (self,), value));
        encode_field(key, value.as_str().as_bytes())
    }
}

/// A field type as the decoder sees it.
pub trait FromFixMessageField: Sized {
    /// Reads the field from its payload: the bytes after `=`.
    fn from_fix_value(value: &[u8]) -> Result<Self, FixParseError>;

    /// Decodes a field written as `key=payload`: checks the key against
    /// `field_id`, then reads the payload. Where the key denotes
    /// `field_id`, the result is what `from_fix_value` gives for the
    /// payload; else it is the error of the key, and the payload is not
    /// looked at.
    fn decode_field(value: &[u8], field_id: u32) -> (r: Result<Self, FixParseError>)
        ensures
            match field_check(value@, field_id) {
                Ok(payload) => exists|bytes: &[u8]|
                    #[trigger] bytes@ == payload && call_ensures(
                        Self::from_fix_value,
                        (bytes,),
                        r,
                    ),
                Err(kind) => (r matches Err(e) && kind_of(e) == kind),
            },
    {
        match field_payload(value, field_id) {
            Ok(payload) => {
                let r = Self::from_fix_value(payload);
                assert(call_ensures(Self::from_fix_value, (payload,), r));
                r
            },
            Err(e) => Err(e),
        }
    }
}

/// A record or message type as the encoder sees it.
pub trait AsFixMessage {
    /// Encodes the members in the order of their declaration, each closed
    /// by its separator.
    fn encode_message(&self) -> Vec<u8>;
}

/// A record or message type as the decoder sees it.
pub trait FromFixMessage: Sized {
    /// Assembles the value from the fields of a payload, by their tags.
    fn decode_message(items: &FixFieldItems) -> Result<Self, FixParseError>;
}

} // verus!
