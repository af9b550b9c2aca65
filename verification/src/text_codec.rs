//! Codec contracts for field types that are read and written as text,
//! with the tag as a constant of the type.

use vstd::prelude::*;

verus! {

/// A type that stands for one field, with its tag.
pub trait FixID {
    /// The field's tag.
    const FIELD_ID: usize;
}

/// A field type as the encoder sees it.
pub trait AsFixMessage: FixID {
    /// The standard name of the value.
    fn as_fix_str(&self) -> &'static str;

    /// The value as it stands on the wire.
    fn as_fix_value(&self) -> String;
}

/// Why a value could not be read.
#[derive(Debug, Clone, Copy, PartialEq, Eq, Structural)]
pub enum FixParseError {
    /// The text denotes no value of the type.
    InvalidData,
    /// There is no text to read.
    MissingPayload,
}

/// A field type as the decoder sees it.
pub trait FromFixMessage: FixID + Sized {
    /// Reads the value from its standard name.
    fn from_fix_str(value: &str) -> Result<Self, FixParseError>;

    /// Reads the value from its wire form.
    fn from_fix_value(value: &str) -> Result<Self, FixParseError>;
}

} // verus!
