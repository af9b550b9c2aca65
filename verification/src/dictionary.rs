//! The in-memory model of a FIX dictionary.

use vstd::prelude::*;

verus! {

/// Whether a referenced item must be present.
#[derive(Debug, Clone, Copy, PartialEq, Eq, Structural)]
pub enum Required {
    Y,
    N,
}

impl Required {
    /// The flag as a boolean.
    pub open spec fn as_bool(self) -> bool {
        self == Required::Y
    }
}

impl Default for Required {
    fn default() -> (r: Self)
        ensures
            r == Required::N,
    {
        Required::N
    }
}

impl From<Required> for bool {
    fn from(value: Required) -> (r: bool) {
        match value {
            Required::Y => true,
            Required::N => false,
        }
    }
}

impl vstd::std_specs::convert::FromSpecImpl<Required> for bool {
    open spec fn obeys_from_spec() -> bool {
        true
    }

    open spec fn from_spec(value: Required) -> bool {
        value.as_bool()
    }
}

/// Who a message is addressed to: the session layer or the application.
#[derive(Debug, Clone, Copy, PartialEq, Eq, Structural)]
pub enum MessageCategory {
    Admin,
    App,
}

/// The wire types a field can be declared with.
#[derive(Debug, Clone, Copy, PartialEq, Eq, Structural)]
pub enum FieldType {
    Boolean,
    Char,
    Int,
    Float,
    String,
    Seqnum,
    Length,
    UtcTimestamp,
    MonthYear,
    DayOfMonth,
    UtcDate,
    UtcDateOnly,
    Date,
    UtcTimeOnly,
    Time,
    Data,
    NumInGroup,
    Price,
    Amount,
    Quantity,
    Currency,
    MultipleValueString,
    Exchange,
    LocalMarketDate,
    PriceOffset,
    Percentage,
    Country,
}

/// A use of a named field.
#[derive(Debug, PartialEq)]
pub struct FieldRef {
    pub name: String,
    pub required: Required,
}

/// A use of a named component.
#[derive(Debug, PartialEq)]
pub struct ComponentRef {
    pub name: String,
    pub required: Required,
}

/// A repeating group, with the references that make up one occurrence.
#[derive(Debug, PartialEq)]
pub struct GroupRef {
    pub name: String,
    pub required: Required,
    pub refs: Vec<Reference>,
}

/// One entry of an ordered reference list.
#[derive(Debug, PartialEq)]
pub enum Reference {
    FieldRef(FieldRef),
    ComponentRef(ComponentRef),
    GroupRef(GroupRef),
}

/// The references that may appear in a message header.
#[derive(Debug, PartialEq)]
pub struct HeaderSpec {
    pub refs: Vec<Reference>,
}

/// The references that may appear in a message trailer.
#[derive(Debug, PartialEq)]
pub struct TrailerSpec {
    pub refs: Vec<Reference>,
}

/// A named, reusable list of references.
#[derive(Debug, PartialEq)]
pub struct Component {
    pub name: String,
    pub refs: Vec<Reference>,
}

/// The components of a dictionary.
#[derive(Debug, PartialEq)]
pub struct ComponentSpec {
    pub items: Vec<Component>,
}

/// The messages of a dictionary, in document order.
#[derive(Debug, PartialEq)]
pub struct MessagesSpec {
    pub items: Vec<Message>,
}

/// One message: its category, the value of tag 35, its name and members.
#[derive(Debug, PartialEq)]
pub struct Message {
    pub msgcat: MessageCategory,
    pub msgtype: String,
    pub name: String,
    pub refs: Vec<Reference>,
}

/// One allowed value of an enumerated field.
#[derive(Debug, PartialEq)]
pub struct FieldValue {
    pub value: String,
    pub description: String,
}

/// The definition of a field: name, tag, wire type and allowed values.
#[derive(Debug, PartialEq)]
pub struct FieldDef {
    pub name: String,
    pub number: u32,
    pub field_type: FieldType,
    pub values: Vec<FieldValue>,
}

/// The field definitions of a dictionary.
#[derive(Debug, PartialEq)]
pub struct FieldSpec {
    pub items: Vec<FieldDef>,
}

/// A whole dictionary.
#[derive(Debug, PartialEq)]
pub struct FixSpec {
    pub major: u8,
    pub minor: u8,
    pub servicepack: u8,
    pub header: Option<HeaderSpec>,
    pub trailer: Option<TrailerSpec>,
    pub component: Option<ComponentSpec>,
    pub message: MessagesSpec,
    pub field: FieldSpec,
}

/// What makes a dictionary unfit for emission.
#[derive(Debug, Clone, Copy, PartialEq, Eq, Structural)]
pub enum SchemaError {
    /// A name or a description holds a character outside ASCII.
    NonAsciiName,
    /// A field has the tag zero.
    ZeroTag,
    /// Two fields have one tag.
    DuplicateTag,
    /// Two fields have one name.
    DuplicateName,
    /// A field lists allowed values, but its wire type cannot be enumerated.
    EnumOnScalarType,
    /// A reference names a field or a component that is not defined.
    UnknownReference,
    /// Two references of one list name the same item.
    DuplicateReference,
}

} // verus!
