//! The source emitter: from dictionary entries to the text of the types that
//! stand for them.

use crate::dictionary::ComponentRef;
use crate::decimal::decimal_chars;
use crate::decimal::decimal_string;
use crate::dictionary::FieldDef;
use crate::dictionary::FieldRef;
use crate::dictionary::FieldValue;
use crate::dictionary::SchemaError;
use crate::dictionary::FieldType;
use crate::dictionary::Component;
use crate::dictionary::GroupRef;
use crate::dictionary::HeaderSpec;
use crate::dictionary::Message;
use crate::dictionary::MessageCategory;
use crate::dictionary::TrailerSpec;
use crate::dictionary::Reference;
use crate::dictionary::Required;
use crate::naming::case_converted;
use crate::naming::lemma_escaped_never_collides;
use crate::naming::parses_as_ident;
use crate::naming::convert_case;
use crate::naming::sanitize_field_name;
use crate::naming::sanitized;
use crate::naming::CaseStyle;
use vstd::prelude::*;
use vstd::string::*;
use vstd::utf8::is_ascii_chars;

verus! {

/// The type that holds a value of the given wire type.
pub open spec fn rust_type_name(t: FieldType) -> Seq<char> {
    match t {
        FieldType::Boolean => "bool"@,
        FieldType::Char => "char"@,
        FieldType::Int => "i64"@,
        FieldType::Float => "f64"@,
        FieldType::String => "String"@,
        FieldType::Seqnum => "usize"@,
        FieldType::Length => "usize"@,
        FieldType::UtcTimestamp => "f64"@,
        FieldType::MonthYear => "String"@,
        FieldType::DayOfMonth => "u8"@,
        FieldType::UtcDate => "chrono::NaiveDate"@,
        FieldType::UtcDateOnly => "String"@,
        FieldType::Date => "String"@,
        FieldType::UtcTimeOnly => "String"@,
        FieldType::Time => "chrono::NaiveTime"@,
        FieldType::Data => "String"@,
        FieldType::NumInGroup => "i64"@,
        FieldType::Price => "f64"@,
        FieldType::Amount => "f64"@,
        FieldType::Quantity => "f64"@,
        FieldType::Currency => "String"@,
        FieldType::MultipleValueString => "String"@,
        FieldType::Exchange => "String"@,
        FieldType::LocalMarketDate => "String"@,
        FieldType::PriceOffset => "f64"@,
        FieldType::Percentage => "f64"@,
        FieldType::Country => "String"@,
    }
}

/// Whether a field of the given wire type may list allowed values.
pub open spec fn is_enumerable(t: FieldType) -> bool {
    t == FieldType::String || t == FieldType::Char || t == FieldType::Int || t
        == FieldType::MultipleValueString || t == FieldType::Boolean || t == FieldType::NumInGroup
}

impl FieldType {
    /// The name of the type that holds a value of this wire type.
    pub fn as_rust_type(&self) -> (r: &'static str)
        ensures
            r@ == rust_type_name(*self),
    {
        match *self {
            FieldType::Boolean => "bool",
            FieldType::Char => "char",
            FieldType::Int => "i64",
            FieldType::Float => "f64",
            FieldType::String => "String",
            FieldType::Seqnum => "usize",
            FieldType::Length => "usize",
            FieldType::UtcTimestamp => "f64",
            FieldType::MonthYear => "String",
            FieldType::DayOfMonth => "u8",
            FieldType::UtcDate => "chrono::NaiveDate",
            FieldType::UtcDateOnly => "String",
            FieldType::Date => "String",
            FieldType::UtcTimeOnly => "String",
            FieldType::Time => "chrono::NaiveTime",
            FieldType::Data => "String",
            FieldType::NumInGroup => "i64",
            FieldType::Price => "f64",
            FieldType::Amount => "f64",
            FieldType::Quantity => "f64",
            FieldType::Currency => "String",
            FieldType::MultipleValueString => "String",
            FieldType::Exchange => "String",
            FieldType::LocalMarketDate => "String",
            FieldType::PriceOffset => "f64",
            FieldType::Percentage => "f64",
            FieldType::Country => "String",
        }
    }

    /// Whether a field of this wire type may list allowed values.
    pub fn can_enumerate(&self) -> (b: bool)
        ensures
            b == is_enumerable(*self),
    {
        match *self {
            FieldType::String => true,
            FieldType::Char => true,
            FieldType::Int => true,
            FieldType::MultipleValueString => true,
            FieldType::Boolean => true,
            FieldType::NumInGroup => true,
            _ => false,
        }
    }
}

/// The declaration of a record member: plain when required, optional otherwise.
pub open spec fn struct_field_text(required: Required, ident: Seq<char>, ty: Seq<char>) -> Seq<
    char,
> {
    match required {
        Required::Y => ident + ": "@ + ty,
        Required::N => ident + ": Option<"@ + ty + ">"@,
    }
}

/// The expression that applies `call` to a record member and yields an
/// optional result: always present when required, present if the member is
/// otherwise.
pub open spec fn function_call_text(required: Required, ident: Seq<char>, call: Seq<char>) -> Seq<
    char,
> {
    match required {
        Required::Y => "Some(self."@ + ident + "."@ + call + ")"@,
        Required::N => "self."@ + ident + ".as_ref().map(|x| x."@ + call + ")"@,
    }
}

/// Declares the member `ident` of type `ty`.
pub fn struct_field(required: &Required, ident: &str, ty: &str) -> (r: String)
    ensures
        r@ == struct_field_text(*required, ident@, ty@),
{
    match required {
        Required::Y => String::from_str(ident).concat(": ").concat(ty),
        Required::N => String::from_str(ident).concat(": Option<").concat(ty).concat(">"),
    }
}

/// Writes the call of `call` on the member `ident`.
pub fn function_call(required: &Required, ident: &str, call: &str) -> (r: String)
    ensures
        r@ == function_call_text(*required, ident@, call@),
{
    match required {
        Required::Y => String::from_str("Some(self.").concat(ident).concat(".").concat(call).concat(
            ")",
        ),
        Required::N => String::from_str("self.").concat(ident).concat(
            ".as_ref().map(|x| x.",
        ).concat(call).concat(")"),
    }
}

/// Declares a member named `field_name`, escaped where it is a keyword.
pub fn format_optional_struct_field(required: &Required, field_name: &str, ty: &str) -> (r:
    String)
    ensures
        r@ == struct_field_text(*required, sanitized(field_name@), ty@),
{
    let ident = sanitize_field_name(field_name);
    struct_field(required, ident.as_str(), ty)
}

/// Writes the call of `call_name` on the member named `field_name`, escaped
/// where it is a keyword.
pub fn format_optional_function_call(required: &Required, field_name: &str, call_name: &str) -> (r:
    String)
    ensures
        r@ == function_call_text(*required, sanitized(field_name@), call_name@),
{
    let ident = sanitize_field_name(field_name);
    function_call(required, ident.as_str(), call_name)
}

/// The identifier of the member that holds a reference to `name`.
pub open spec fn member_ident(name: Seq<char>) -> Seq<char> {
    sanitized(case_converted(name, CaseStyle::Snake))
}

impl FieldRef {
    /// The member that holds this field in a record.
    pub open spec fn struct_field_item(&self) -> Seq<char> {
        struct_field_text(self.required, member_ident(self.name@), self.name@)
    }

    /// The call of `call` on the member that holds this field.
    pub open spec fn function_call(&self, call: Seq<char>) -> Seq<char> {
        function_call_text(self.required, member_ident(self.name@), call)
    }

    /// Declares the member that holds this field.
    pub fn as_struct_field_item(&self) -> (r: String)
        requires
            is_ascii_chars(self.name@),
        ensures
            r@ == self.struct_field_item(),
    {
        let snake = convert_case(self.name.as_str(), CaseStyle::Snake);
        format_optional_struct_field(&self.required, snake.as_str(), self.name.as_str())
    }

    /// Writes the call of `call_name` on the member that holds this field.
    pub fn as_function_call(&self, call_name: &str) -> (r: String)
        requires
            is_ascii_chars(self.name@),
        ensures
            r@ == self.function_call(call_name@),
    {
        let snake = convert_case(self.name.as_str(), CaseStyle::Snake);
        format_optional_function_call(&self.required, snake.as_str(), call_name)
    }
}

impl ComponentRef {
    /// The member that holds this component in a record.
    pub open spec fn struct_field_item(&self) -> Seq<char> {
        struct_field_text(self.required, member_ident(self.name@), self.name@)
    }

    /// The call of `call` on the member that holds this component.
    pub open spec fn function_call(&self, call: Seq<char>) -> Seq<char> {
        function_call_text(self.required, member_ident(self.name@), call)
    }

    /// Declares the member that holds this component.
    pub fn as_struct_field_item(&self) -> (r: String)
        requires
            is_ascii_chars(self.name@),
        ensures
            r@ == self.struct_field_item(),
    {
        let snake = convert_case(self.name.as_str(), CaseStyle::Snake);
        format_optional_struct_field(&self.required, snake.as_str(), self.name.as_str())
    }

    /// Writes the call of `call_name` on the member that holds this component.
    pub fn as_function_call(&self, call_name: &str) -> (r: String)
        requires
            is_ascii_chars(self.name@),
        ensures
            r@ == self.function_call(call_name@),
    {
        let snake = convert_case(self.name.as_str(), CaseStyle::Snake);
        format_optional_function_call(&self.required, snake.as_str(), call_name)
    }
}

/// The texts of a list of strings.
pub open spec fn text_of(lines: Seq<String>) -> Seq<Seq<char>> {
    Seq::new(lines.len(), |i: int| lines[i]@)
}

/// The lines, each but the last followed by a line break.
pub open spec fn joined(lines: Seq<Seq<char>>) -> Seq<char>
    decreases lines.len(),
{
    if lines.len() == 0 {
        Seq::empty()
    } else if lines.len() == 1 {
        lines[0]
    } else {
        joined(lines.drop_last()) + "\n"@ + lines.last()
    }
}

/// Joins the lines with line breaks.
pub fn join_lines(lines: &Vec<String>) -> (r: String)
    ensures
        r@ == joined(text_of(lines@)),
{
    let mut out = String::new();
    let mut i: usize = 0;
    while i < lines.len()
        invariant
            i <= lines.len(),
            out@ == joined(text_of(lines@).take(i as int)),
        decreases lines.len() - i,
    {
        let ghost before = text_of(lines@).take(i as int);
        let ghost after = text_of(lines@).take(i + 1);
        assert(after.drop_last() =~= before);
        assert(after.last() == lines@[i as int]@);
        if i > 0 {
            out.append("\n");
        }
        out.append(lines[i].as_str());
        assert(out@ =~= joined(after));
        i += 1;
    }
    assert(text_of(lines@).take(i as int) =~= text_of(lines@));
    out
}

impl Reference {
    /// The name of the type that stands for the referenced item.
    pub open spec fn type_value(&self) -> Seq<char> {
        match self {
            Reference::FieldRef(x) => x.name@,
            Reference::ComponentRef(x) => x.name@,
            Reference::GroupRef(x) => x.name@,
        }
    }

    /// Whether the referenced name is ASCII.
    pub open spec fn ascii_name(&self) -> bool {
        is_ascii_chars(self.type_value())
    }

    /// The type a repeating group needs, if this is one.
    pub open spec fn group_struct(&self, cls_prefix: Seq<char>) -> Option<Seq<char>> {
        match self {
            Reference::FieldRef(_) => None,
            Reference::ComponentRef(_) => None,
            Reference::GroupRef(x) => Some(x.group_struct(cls_prefix)),
        }
    }

    /// The member that holds the referenced item in a record whose types
    /// are named after `cls_prefix`.
    pub open spec fn struct_field_item(&self, cls_prefix: Seq<char>) -> Seq<char> {
        match self {
            Reference::FieldRef(x) => x.struct_field_item(),
            Reference::ComponentRef(x) => x.struct_field_item(),
            Reference::GroupRef(x) => x.struct_field_item(cls_prefix),
        }
    }

    /// The call of `call` on the member that holds the referenced item.
    pub open spec fn function_call(&self, call: Seq<char>) -> Seq<char> {
        match self {
            Reference::FieldRef(x) => x.function_call(call),
            Reference::ComponentRef(x) => x.function_call(call),
            Reference::GroupRef(x) => x.function_call(call),
        }
    }

    /// The name of the type that stands for the referenced item.
    pub fn as_type_value(&self) -> (r: &str)
        ensures
            r@ == self.type_value(),
    {
        match self {
            Reference::FieldRef(x) => x.name.as_str(),
            Reference::ComponentRef(x) => x.name.as_str(),
            Reference::GroupRef(x) => x.name.as_str(),
        }
    }

    /// Emits the type of a repeating group; nothing for a field or a component.
    pub fn as_group_struct(&self, cls_prefix: &str) -> (r: Option<String>)
        requires
            self.ascii_name(),
        ensures
            r is Some <==> self is GroupRef,
            r.is_some() ==> Some(r.unwrap()@) == self.group_struct(cls_prefix@),
    {
        match self {
            Reference::FieldRef(_) => None,
            Reference::ComponentRef(_) => None,
            Reference::GroupRef(x) => Some(x.as_group_struct(cls_prefix)),
        }
    }

    /// Declares the member that holds the referenced item.
    pub fn as_struct_field_item(&self, cls_prefix: &str) -> (r: String)
        requires
            self.ascii_name(),
        ensures
            r@ == self.struct_field_item(cls_prefix@),
    {
        match self {
            Reference::FieldRef(x) => x.as_struct_field_item(),
            Reference::ComponentRef(x) => x.as_struct_field_item(),
            Reference::GroupRef(x) => x.as_struct_field_item(cls_prefix),
        }
    }

    /// Writes the call of `call_name` on the member that holds the referenced item.
    pub fn as_function_call(&self, cls_prefix: &str, call_name: &str) -> (r: String)
        requires
            self.ascii_name(),
        ensures
            r@ == self.function_call(call_name@),
    {
        match self {
            Reference::FieldRef(x) => x.as_function_call(call_name),
            Reference::ComponentRef(x) => x.as_function_call(call_name),
            Reference::GroupRef(x) => x.as_function_call(call_name, cls_prefix),
        }
    }
}

/// The variant of a group's type that carries one member.
pub open spec fn group_element_line(member: Seq<char>) -> Seq<char> {
    "\t"@ + member + "("@ + member + "),"@
}

/// The match arm that encodes one member of a group.
pub open spec fn group_encode_line(member: Seq<char>) -> Seq<char> {
    "\t\t\tSelf::"@ + member + "(ref x) => x.encode_message(),"@
}

/// The declaration of a group's type and of its encoder, from the type's
/// name and the lines of its variants and match arms.
pub open spec fn group_struct_text(cls_name: Seq<char>, elements: Seq<char>, encode: Seq<char>) -> Seq<
    char,
> {
    "\n#[derive(Debug, PartialEq)]\npub enum "@ + cls_name + " {\n"@ + elements
        + "\n}\n\nimpl AsFixMessage for "@ + cls_name
        + " {\n    fn encode_message(&self) -> Vec<u8> {\n        match *self {\n"@ + encode
        + "\n        }\n    }\n}\n"@
}

/// Emits a group's type with the given name, variant lines and match arms.
pub fn group_struct_code(cls_name: &str, elements: &str, encode: &str) -> (r: String)
    ensures
        r@ == group_struct_text(cls_name@, elements@, encode@),
{
    String::from_str("\n#[derive(Debug, PartialEq)]\npub enum ").concat(cls_name).concat(
        " {\n",
    ).concat(elements).concat("\n}\n\nimpl AsFixMessage for ").concat(cls_name).concat(
        " {\n    fn encode_message(&self) -> Vec<u8> {\n        match *self {\n",
    ).concat(encode).concat("\n        }\n    }\n}\n")
}

impl GroupRef {
    /// The name of the group's type inside a record named `cls_prefix`.
    pub open spec fn class_name(&self, cls_prefix: Seq<char>) -> Seq<char> {
        cls_prefix + case_converted(self.name@, CaseStyle::UpperCamel)
    }

    /// The variant lines of the group's type, one per member.
    pub open spec fn element_lines(&self) -> Seq<Seq<char>> {
        Seq::new(self.refs@.len(), |i: int| group_element_line(self.refs@[i].type_value()))
    }

    /// The match arms of the group's encoder, one per member.
    pub open spec fn encode_lines(&self) -> Seq<Seq<char>> {
        Seq::new(self.refs@.len(), |i: int| group_encode_line(self.refs@[i].type_value()))
    }

    /// The declaration of the group's type and encoder.
    pub open spec fn group_struct(&self, cls_prefix: Seq<char>) -> Seq<char> {
        group_struct_text(
            self.class_name(cls_prefix),
            joined(self.element_lines()),
            joined(self.encode_lines()),
        )
    }

    /// The member that holds the group in a record named `cls_prefix`.
    pub open spec fn struct_field_item(&self, cls_prefix: Seq<char>) -> Seq<char> {
        struct_field_text(self.required, member_ident(self.name@), self.class_name(cls_prefix))
    }

    /// The call of `call` on the member that holds the group.
    pub open spec fn function_call(&self, call: Seq<char>) -> Seq<char> {
        function_call_text(self.required, member_ident(self.name@), call)
    }

    /// Names the group's type inside a record named `cls_prefix`.
    pub fn cls_name(&self, cls_prefix: &str) -> (r: String)
        requires
            is_ascii_chars(self.name@),
        ensures
            r@ == self.class_name(cls_prefix@),
    {
        let camel = convert_case(self.name.as_str(), CaseStyle::UpperCamel);
        String::from_str(cls_prefix).concat(camel.as_str())
    }

    /// Emits the group's type: one variant per member, and an encoder that
    /// hands the work to the member it holds.
    pub fn as_group_struct(&self, cls_prefix: &str) -> (r: String)
        requires
            is_ascii_chars(self.name@),
        ensures
            r@ == self.group_struct(cls_prefix@),
    {
        let mut elements: Vec<String> = Vec::new();
        let mut encode: Vec<String> = Vec::new();
        let mut i: usize = 0;
        while i < self.refs.len()
            invariant
                i <= self.refs.len(),
                elements@.len() == i,
                encode@.len() == i,
                forall|k: int|
                    0 <= k < i ==> (#[trigger] elements@[k])@ == group_element_line(
                        self.refs@[k].type_value(),
                    ),
                forall|k: int|
                    0 <= k < i ==> (#[trigger] encode@[k])@ == group_encode_line(
                        self.refs@[k].type_value(),
                    ),
            decreases self.refs.len() - i,
        {
            let member = self.refs[i].as_type_value();
            elements.push(
                String::from_str("\t").concat(member).concat("(").concat(member).concat("),"),
            );
            encode.push(
                String::from_str("\t\t\tSelf::").concat(member).concat(
                    "(ref x) => x.encode_message(),",
                ),
            );
            i += 1;
        }
        assert(text_of(elements@) =~= self.element_lines());
        assert(text_of(encode@) =~= self.encode_lines());
        let name = self.cls_name(cls_prefix);
        let elements_text = join_lines(&elements);
        let encode_text = join_lines(&encode);
        group_struct_code(name.as_str(), elements_text.as_str(), encode_text.as_str())
    }

    /// Declares the member that holds the group.
    pub fn as_struct_field_item(&self, cls_prefix: &str) -> (r: String)
        requires
            is_ascii_chars(self.name@),
        ensures
            r@ == self.struct_field_item(cls_prefix@),
    {
        let snake = convert_case(self.name.as_str(), CaseStyle::Snake);
        let cls = self.cls_name(cls_prefix);
        format_optional_struct_field(&self.required, snake.as_str(), cls.as_str())
    }

    /// Writes the call of `call_name` on the member that holds the group.
    pub fn as_function_call(&self, call_name: &str, _cls_prefix: &str) -> (r: String)
        requires
            is_ascii_chars(self.name@),
        ensures
            r@ == self.function_call(call_name@),
    {
        let snake = convert_case(self.name.as_str(), CaseStyle::Snake);
        format_optional_function_call(&self.required, snake.as_str(), call_name)
    }
}

/// Whether every reference of the list names its item in ASCII.
pub open spec fn ascii_names(refs: Seq<Reference>) -> bool {
    forall|i: int| 0 <= i < refs.len() ==> (#[trigger] refs[i]).ascii_name()
}

/// The group types that the references of a record named `cls_prefix`
/// need, in the order of the references.
pub open spec fn group_structs(refs: Seq<Reference>, cls_prefix: Seq<char>) -> Seq<Seq<char>>
    decreases refs.len(),
{
    if refs.len() == 0 {
        Seq::empty()
    } else {
        let before = group_structs(refs.drop_last(), cls_prefix);
        match refs.last().group_struct(cls_prefix) {
            Some(code) => before.push(code),
            None => before,
        }
    }
}

/// The member line of one reference.
pub open spec fn field_line(item: Seq<char>) -> Seq<char> {
    "\t"@ + item + ","@
}

/// The line that encodes one member.
pub open spec fn field_encode_line(call: Seq<char>) -> Seq<char> {
    "\t\t\t"@ + call + ","@
}

/// The member lines of a record named `cls_prefix`, one per reference.
pub open spec fn field_lines(refs: Seq<Reference>, cls_prefix: Seq<char>) -> Seq<Seq<char>> {
    Seq::new(refs.len(), |i: int| field_line(refs[i].struct_field_item(cls_prefix)))
}

/// The lines that encode the members of a record, one per reference, in
/// the order of the references.
pub open spec fn field_encode_lines(refs: Seq<Reference>) -> Seq<Seq<char>> {
    Seq::new(
        refs.len(),
        |i: int| field_encode_line(refs[i].function_call("encode_message()"@)),
    )
}

/// The pieces of a record's source that come from its references.
#[derive(Debug)]
pub struct RefGeneratedCode {
    /// The types of the record's repeating groups.
    pub classes: Vec<String>,
    /// The record's member lines.
    pub fields: Vec<String>,
    /// The lines that encode the members.
    pub fields_encode: Vec<String>,
}

/// Emits the pieces of a record's source that come from its references:
/// a type for each repeating group, and for each reference, in order, a
/// member and the line that encodes it.
pub fn generate_ref_code(refs: &Vec<Reference>, cls_prefix: &str) -> (r: RefGeneratedCode)
    requires
        ascii_names(refs@),
    ensures
        text_of(r.classes@) == group_structs(refs@, cls_prefix@),
        text_of(r.fields@) == field_lines(refs@, cls_prefix@),
        text_of(r.fields_encode@) == field_encode_lines(refs@),
{
    let mut classes: Vec<String> = Vec::new();
    let mut fields: Vec<String> = Vec::new();
    let mut fields_encode: Vec<String> = Vec::new();
    let mut i: usize = 0;
    assert(refs@.take(0) =~= Seq::<Reference>::empty());
    assert(text_of(classes@) =~= group_structs(refs@.take(0), cls_prefix@));
    while i < refs.len()
        invariant
            i <= refs.len(),
            ascii_names(refs@),
            text_of(classes@) == group_structs(refs@.take(i as int), cls_prefix@),
            fields@.len() == i,
            fields_encode@.len() == i,
            forall|k: int|
                0 <= k < i ==> (#[trigger] fields@[k])@ == field_line(
                    refs@[k].struct_field_item(cls_prefix@),
                ),
            forall|k: int|
                0 <= k < i ==> (#[trigger] fields_encode@[k])@ == field_encode_line(
                    refs@[k].function_call("encode_message()"@),
                ),
        decreases refs.len() - i,
    {
        let item = &refs[i];
        assert(item.ascii_name());
        let ghost classes_before = text_of(classes@);
        assert(refs@.take(i + 1).drop_last() =~= refs@.take(i as int));
        assert(refs@.take(i + 1).last() == refs@[i as int]);
        match item.as_group_struct(cls_prefix) {
            Some(code) => {
                classes.push(code);
                assert(text_of(classes@) =~= classes_before.push(code@));
            },
            None => {},
        }
        let member = item.as_struct_field_item(cls_prefix);
        fields.push(String::from_str("\t").concat(member.as_str()).concat(","));
        let call = item.as_function_call(cls_prefix, "encode_message()");
        fields_encode.push(String::from_str("\t\t\t").concat(call.as_str()).concat(","));
        i += 1;
    }
    assert(refs@.take(i as int) =~= refs@);
    assert(text_of(fields@) =~= field_lines(refs@, cls_prefix@));
    assert(text_of(fields_encode@) =~= field_encode_lines(refs@));
    RefGeneratedCode { classes, fields, fields_encode }
}

/// The source of a record: the types of its groups, its declaration, and an
/// encoder that concatenates the encodings of the members that are present,
/// in the order of their declaration, with nothing between them.
pub open spec fn record_text(
    cls_name: Seq<char>,
    classes: Seq<char>,
    fields: Seq<char>,
    fields_encode: Seq<char>,
) -> Seq<char> {
    "\n"@ + classes + "\n\n#[derive(Debug, PartialEq)]\npub struct "@ + cls_name + " {\n"@ + fields
        + "\n}\n\nimpl AsFixMessage for "@ + cls_name
        + " {\n    fn encode_message(&self) -> Vec<u8> {\n        let fields: Vec<Option<_>> = vec![\n"@
        + fields_encode
        + "\n        ];\n\n        let mut result = vec![];\n        for field in fields {\n            if let Some(field) = field {\n                result.push(field);\n            }\n        }\n\n        result.concat()\n    }\n}\n\n"@
}

/// Emits a record named `cls_name` from the pieces that its references gave.
pub fn record_code(cls_name: &str, parts: &RefGeneratedCode) -> (r: String)
    ensures
        r@ == record_text(
            cls_name@,
            joined(text_of(parts.classes@)),
            joined(text_of(parts.fields@)),
            joined(text_of(parts.fields_encode@)),
        ),
{
    let classes = join_lines(&parts.classes);
    let fields = join_lines(&parts.fields);
    let fields_encode = join_lines(&parts.fields_encode);
    String::from_str("\n").concat(classes.as_str()).concat(
        "\n\n#[derive(Debug, PartialEq)]\npub struct ",
    ).concat(cls_name).concat(" {\n").concat(fields.as_str()).concat(
        "\n}\n\nimpl AsFixMessage for ",
    ).concat(cls_name).concat(
        " {\n    fn encode_message(&self) -> Vec<u8> {\n        let fields: Vec<Option<_>> = vec![\n",
    ).concat(fields_encode.as_str()).concat(
        "\n        ];\n\n        let mut result = vec![];\n        for field in fields {\n            if let Some(field) = field {\n                result.push(field);\n            }\n        }\n\n        result.concat()\n    }\n}\n\n",
    )
}

/// The source of the record named `cls_name` whose members are `refs`.
pub open spec fn spec_code(cls_name: Seq<char>, refs: Seq<Reference>) -> Seq<char> {
    record_text(
        cls_name,
        joined(group_structs(refs, cls_name)),
        joined(field_lines(refs, cls_name)),
        joined(field_encode_lines(refs)),
    )
}

/// Emits the record named `cls_name` whose members are `refs`.
pub fn spec_as_code(cls_name: &str, refs: &Vec<Reference>) -> (r: String)
    requires
        ascii_names(refs@),
    ensures
        r@ == spec_code(cls_name@, refs@),
{
    let parts = generate_ref_code(refs, cls_name);
    record_code(cls_name, &parts)
}

impl HeaderSpec {
    /// The source of the header record.
    pub open spec fn code(&self) -> Seq<char> {
        spec_code("MessageHeader"@, self.refs@)
    }

    /// Emits the header record, `MessageHeader`.
    pub fn as_code(&self) -> (r: String)
        requires
            ascii_names(self.refs@),
        ensures
            r@ == self.code(),
    {
        spec_as_code("MessageHeader", &self.refs)
    }
}

impl TrailerSpec {
    /// The source of the trailer record.
    pub open spec fn code(&self) -> Seq<char> {
        spec_code("MessageTrailer"@, self.refs@)
    }

    /// Emits the trailer record, `MessageTrailer`.
    pub fn as_code(&self) -> (r: String)
        requires
            ascii_names(self.refs@),
        ensures
            r@ == self.code(),
    {
        spec_as_code("MessageTrailer", &self.refs)
    }
}

impl Component {
    /// The source of the component's record.
    pub open spec fn code(&self) -> Seq<char> {
        spec_code(self.name@, self.refs@)
    }

    /// Emits the component's record, named as the component.
    pub fn as_code(&self) -> (r: String)
        requires
            ascii_names(self.refs@),
        ensures
            r@ == self.code(),
    {
        spec_as_code(self.name.as_str(), &self.refs)
    }
}

/// The constant that stands for a message category.
pub open spec fn message_dest_text(category: MessageCategory) -> Seq<char> {
    match category {
        MessageCategory::Admin => "MessageDest::Admin"@,
        MessageCategory::App => "MessageDest::App"@,
    }
}

/// The source of a message's record: the types of its groups; the record,
/// with the header and the trailer before the message's own members; its
/// two constants; and an encoder that puts the header first, then the
/// members in the order of their declaration, and the trailer last.
pub open spec fn message_text(
    cls_name: Seq<char>,
    dest: Seq<char>,
    msg_type: Seq<char>,
    classes: Seq<char>,
    fields: Seq<char>,
    fields_encode: Seq<char>,
) -> Seq<char> {
    "\n"@ + classes + "\n\n#[derive(Debug, PartialEq)]\npub struct "@ + cls_name
        + " {\n    // Common fields\n    header: MessageHeader,\n    trailer: MessageTrailer,\n\n    // Custom fields\n"@
        + fields + "\n}\n\nimpl "@ + cls_name + " {\n    pub const MESSAGE_DEST: MessageDest = "@
        + dest + ";\n    pub const MESSAGE_TYPE: &'static str = \""@ + msg_type
        + "\";\n}\n\nimpl AsFixMessage for "@ + cls_name
        + " {\n    fn encode_message(&self) -> Vec<u8> {\n        let fields: Vec<Option<_>> = vec![\n            Some(self.header.encode_message()),\n"@
        + fields_encode
        + "\n            Some(self.trailer.encode_message()),\n        ];\n\n        let mut result = vec![];\n        for field in fields {\n            if let Some(field) = field {\n                result.push(field);\n            }\n        }\n\n        result.concat()\n    }\n}\n"@
}

/// Emits a message's record from its names and the pieces that its
/// references gave.
pub fn message_code(cls_name: &str, dest: &str, msg_type: &str, parts: &RefGeneratedCode) -> (r:
    String)
    ensures
        r@ == message_text(
            cls_name@,
            dest@,
            msg_type@,
            joined(text_of(parts.classes@)),
            joined(text_of(parts.fields@)),
            joined(text_of(parts.fields_encode@)),
        ),
{
    let classes = join_lines(&parts.classes);
    let fields = join_lines(&parts.fields);
    let fields_encode = join_lines(&parts.fields_encode);
    String::from_str("\n").concat(classes.as_str()).concat(
        "\n\n#[derive(Debug, PartialEq)]\npub struct ",
    ).concat(cls_name).concat(
        " {\n    // Common fields\n    header: MessageHeader,\n    trailer: MessageTrailer,\n\n    // Custom fields\n",
    ).concat(fields.as_str()).concat("\n}\n\nimpl ").concat(cls_name).concat(
        " {\n    pub const MESSAGE_DEST: MessageDest = ",
    ).concat(dest).concat(";\n    pub const MESSAGE_TYPE: &'static str = \"").concat(
        msg_type,
    ).concat("\";\n}\n\nimpl AsFixMessage for ").concat(cls_name).concat(
        " {\n    fn encode_message(&self) -> Vec<u8> {\n        let fields: Vec<Option<_>> = vec![\n            Some(self.header.encode_message()),\n",
    ).concat(fields_encode.as_str()).concat(
        "\n            Some(self.trailer.encode_message()),\n        ];\n\n        let mut result = vec![];\n        for field in fields {\n            if let Some(field) = field {\n                result.push(field);\n            }\n        }\n\n        result.concat()\n    }\n}\n",
    )
}

impl Message {
    /// The name of the message's record.
    pub open spec fn class_name(&self) -> Seq<char> {
        "Message"@ + self.name@
    }

    /// The source of the message's record. Its group types are named after
    /// the record.
    pub open spec fn code(&self) -> Seq<char> {
        message_text(
            self.class_name(),
            message_dest_text(self.msgcat),
            self.msgtype@,
            joined(group_structs(self.refs@, self.class_name())),
            joined(field_lines(self.refs@, self.class_name())),
            joined(field_encode_lines(self.refs@)),
        )
    }

    /// Names the message's record: `Message`, then the message's name.
    pub fn message_cls_name(&self) -> (r: String)
        ensures
            r@ == self.class_name(),
    {
        String::from_str("Message").concat(self.name.as_str())
    }

    /// Names the constant of the message's category.
    pub fn message_dest(&self) -> (r: &'static str)
        ensures
            r@ == message_dest_text(self.msgcat),
    {
        match &self.msgcat {
            MessageCategory::Admin => "MessageDest::Admin",
            MessageCategory::App => "MessageDest::App",
        }
    }

    /// Emits the message's record.
    pub fn as_code(&self) -> (r: String)
        requires
            ascii_names(self.refs@),
        ensures
            r@ == self.code(),
    {
        let cls_name = self.message_cls_name();
        let parts = generate_ref_code(&self.refs, cls_name.as_str());
        message_code(cls_name.as_str(), self.message_dest(), self.msgtype.as_str(), &parts)
    }
}

/// Whether `c` is an ASCII letter.
pub open spec fn is_ascii_letter(c: char) -> bool {
    ('a' <= c && c <= 'z') || ('A' <= c && c <= 'Z')
}

/// Whether the text begins with an ASCII letter.
pub open spec fn begins_with_letter(text: Seq<char>) -> bool {
    text.len() > 0 && is_ascii_letter(text[0])
}

/// The name of the variant for a description whose upper camel case
/// spelling is `camel`: that spelling, after `Value` unless the
/// description begins with an ASCII letter.
pub open spec fn variant_name_text(description: Seq<char>, camel: Seq<char>) -> Seq<char> {
    if begins_with_letter(description) {
        camel
    } else {
        "Value"@ + camel
    }
}

/// Names the variant for `description`, given its upper camel case spelling.
pub fn variant_name(description: &str, camel: &str) -> (r: String)
    ensures
        r@ == variant_name_text(description@, camel@),
{
    let mut letter = false;
    if !description.is_empty() {
        let c = description.get_char(0);
        letter = ('a' <= c && c <= 'z') || ('A' <= c && c <= 'Z');
    }
    if letter {
        String::from_str(camel)
    } else {
        String::from_str("Value").concat(camel)
    }
}

/// The line that declares a variant.
pub open spec fn variant_line(variant: Seq<char>) -> Seq<char> {
    "\t"@ + variant + ","@
}

/// The match arm that gives a variant's text.
pub open spec fn variant_text_line(variant: Seq<char>, text: Seq<char>) -> Seq<char> {
    "\t\t\tSelf::"@ + variant + " => \""@ + text + "\","@
}

/// The match arm that reads a variant from its wire value.
pub open spec fn variant_parse_line(wire: Seq<char>, variant: Seq<char>) -> Seq<char> {
    "\t\t\tb\""@ + wire + "\" => Ok(Self::"@ + variant + "),"@
}

impl FieldValue {
    /// The name of the variant that stands for this value.
    pub open spec fn rust_desc(&self) -> Seq<char> {
        variant_name_text(
            self.description@,
            case_converted(self.description@, CaseStyle::UpperCamel),
        )
    }

    /// Names the variant that stands for this value.
    pub fn as_rust_desc(&self) -> (r: String)
        requires
            is_ascii_chars(self.description@),
        ensures
            r@ == self.rust_desc(),
    {
        let camel = convert_case(self.description.as_str(), CaseStyle::UpperCamel);
        variant_name(self.description.as_str(), camel.as_str())
    }
}

/// The source of a scalar field: a record of one member, with a
/// constructor, its display, an encoder with the field's tag, and a decoder
/// that reads the payload as text and parses it.
pub open spec fn scalar_field_text(
    field_name: Seq<char>,
    field_name_upper: Seq<char>,
    field_id: Seq<char>,
    content_type: Seq<char>,
) -> Seq<char> {
    "\n#[derive(Debug, PartialEq)]\npub struct "@ + field_name + " {\n    pub value: "@
        + content_type + "\n}\n\nimpl "@ + field_name + " {\n    pub fn new(value: "@ + content_type
        + ") -> Self {\n        Self { value }\n    }\n}\n\nimpl fmt::Display for "@ + field_name
        + " {\n    fn fmt(&self, f: &mut fmt::Formatter) -> fmt::Result {\n        write!(f, \""@
        + field_name_upper + "({})\", self.value)\n    }\n}\n\nimpl AsFixMessageField for "@
        + field_name
        + " {\n    fn as_fix_value(&self) -> String {\n        format!(\"{}\", self.value)\n    }\n\n    fn as_fix_key(&self) -> u32 {\n        "@
        + field_id + "\n    }\n}\n\nimpl FromFixMessageField for "@ + field_name
        + " {\n    fn from_fix_value(value: &[u8]) -> Result<Self, FixParseError> {\n        let value = std::str::from_utf8(value).map_err(FixParseError::InvalidString)?;\n        let value = value.parse().map_err(|_e| FixParseError::InvalidData)?;\n        Ok(Self { value })\n    }\n}\n\n"@
}

/// Emits a scalar field from its names, its tag and its member's type.
pub fn scalar_field_code(
    field_name: &str,
    field_name_upper: &str,
    field_id: &str,
    content_type: &str,
) -> (r: String)
    ensures
        r@ == scalar_field_text(field_name@, field_name_upper@, field_id@, content_type@),
{
    String::from_str("\n#[derive(Debug, PartialEq)]\npub struct ").concat(field_name).concat(
        " {\n    pub value: ",
    ).concat(content_type).concat("\n}\n\nimpl ").concat(field_name).concat(
        " {\n    pub fn new(value: ",
    ).concat(content_type).concat(
        ") -> Self {\n        Self { value }\n    }\n}\n\nimpl fmt::Display for ",
    ).concat(field_name).concat(
        " {\n    fn fmt(&self, f: &mut fmt::Formatter) -> fmt::Result {\n        write!(f, \"",
    ).concat(field_name_upper).concat(
        "({})\", self.value)\n    }\n}\n\nimpl AsFixMessageField for ",
    ).concat(field_name).concat(
        " {\n    fn as_fix_value(&self) -> String {\n        format!(\"{}\", self.value)\n    }\n\n    fn as_fix_key(&self) -> u32 {\n        ",
    ).concat(field_id).concat("\n    }\n}\n\nimpl FromFixMessageField for ").concat(
        field_name,
    ).concat(
        " {\n    fn from_fix_value(value: &[u8]) -> Result<Self, FixParseError> {\n        let value = std::str::from_utf8(value).map_err(FixParseError::InvalidString)?;\n        let value = value.parse().map_err(|_e| FixParseError::InvalidData)?;\n        Ok(Self { value })\n    }\n}\n\n",
    )
}

/// The source of an enumerated field: a type with one variant per allowed
/// value, its display, an encoder with the field's tag that writes each
/// variant's wire value, and a decoder that knows those wire values and
/// rejects every other payload.
pub open spec fn enum_field_text(
    field_name: Seq<char>,
    field_id: Seq<char>,
    field_names: Seq<char>,
    as_field_descriptions: Seq<char>,
    as_field_values: Seq<char>,
    from_field_values: Seq<char>,
) -> Seq<char> {
    "\n#[derive(Debug, PartialEq)]\npub enum "@ + field_name + " {\n"@ + field_names
        + "\n}\n\nimpl fmt::Display for "@ + field_name
        + " {\n    fn fmt(&self, f: &mut fmt::Formatter) -> fmt::Result {\n        write!(f, \"{}\", match *self {\n"@
        + as_field_descriptions + "\n        })\n    }\n}\n\nimpl AsFixMessageField for "@
        + field_name + " {\n    fn as_fix_value(&self) -> String {\n        match *self {\n"@
        + as_field_values
        + "\n        }.to_string()\n    }\n\n    fn as_fix_key(&self) -> u32 {\n        "@
        + field_id + "\n    }\n}\n\nimpl FromFixMessageField for "@ + field_name
        + " {\n    fn from_fix_value(value: &[u8]) -> Result<Self, FixParseError> {\n        match value {\n"@
        + from_field_values
        + "\n            _ => Err(FixParseError::InvalidData),\n        }\n    }\n}\n\n"@
}

/// Emits an enumerated field from its name, its tag and the lines of its
/// variants and match arms.
pub fn enum_field_code(
    field_name: &str,
    field_id: &str,
    field_names: &str,
    as_field_descriptions: &str,
    as_field_values: &str,
    from_field_values: &str,
) -> (r: String)
    ensures
        r@ == enum_field_text(
            field_name@,
            field_id@,
            field_names@,
            as_field_descriptions@,
            as_field_values@,
            from_field_values@,
        ),
{
    String::from_str("\n#[derive(Debug, PartialEq)]\npub enum ").concat(field_name).concat(
        " {\n",
    ).concat(field_names).concat("\n}\n\nimpl fmt::Display for ").concat(field_name).concat(
        " {\n    fn fmt(&self, f: &mut fmt::Formatter) -> fmt::Result {\n        write!(f, \"{}\", match *self {\n",
    ).concat(as_field_descriptions).concat(
        "\n        })\n    }\n}\n\nimpl AsFixMessageField for ",
    ).concat(field_name).concat(
        " {\n    fn as_fix_value(&self) -> String {\n        match *self {\n",
    ).concat(as_field_values).concat(
        "\n        }.to_string()\n    }\n\n    fn as_fix_key(&self) -> u32 {\n        ",
    ).concat(field_id).concat("\n    }\n}\n\nimpl FromFixMessageField for ").concat(
        field_name,
    ).concat(
        " {\n    fn from_fix_value(value: &[u8]) -> Result<Self, FixParseError> {\n        match value {\n",
    ).concat(from_field_values).concat(
        "\n            _ => Err(FixParseError::InvalidData),\n        }\n    }\n}\n\n",
    )
}

impl FieldDef {
    /// Whether the field's name and its values' descriptions are ASCII.
    pub open spec fn ascii_names(&self) -> bool {
        &&& is_ascii_chars(self.name@)
        &&& forall|i: int|
            0 <= i < self.values@.len() ==> is_ascii_chars((#[trigger] self.values@[i]).description@)
    }

    /// Whether the field is scalar, or of a wire type that can be enumerated.
    pub open spec fn enum_allowed(&self) -> bool {
        self.values@.len() == 0 || is_enumerable(self.field_type)
    }

    /// The variant lines of an enumerated field, one per allowed value.
    pub open spec fn variant_lines(&self) -> Seq<Seq<char>> {
        Seq::new(self.values@.len(), |i: int| variant_line(self.values@[i].rust_desc()))
    }

    /// The match arms that give each variant's description.
    pub open spec fn description_lines(&self) -> Seq<Seq<char>> {
        Seq::new(
            self.values@.len(),
            |i: int| variant_text_line(self.values@[i].rust_desc(), self.values@[i].description@),
        )
    }

    /// The match arms that give each variant's wire value.
    pub open spec fn value_lines(&self) -> Seq<Seq<char>> {
        Seq::new(
            self.values@.len(),
            |i: int| variant_text_line(self.values@[i].rust_desc(), self.values@[i].value@),
        )
    }

    /// The match arms that read each variant from its wire value.
    pub open spec fn parse_lines(&self) -> Seq<Seq<char>> {
        Seq::new(
            self.values@.len(),
            |i: int| variant_parse_line(self.values@[i].value@, self.values@[i].rust_desc()),
        )
    }

    /// The source of the field's type: a record where the field lists no
    /// values, an enumeration where it does.
    pub open spec fn code(&self) -> Seq<char> {
        if self.values@.len() == 0 {
            scalar_field_text(
                self.name@,
                case_converted(self.name@, CaseStyle::UpperSnake),
                decimal_chars(self.number as nat),
                rust_type_name(self.field_type),
            )
        } else {
            enum_field_text(
                self.name@,
                decimal_chars(self.number as nat),
                joined(self.variant_lines()),
                joined(self.description_lines()),
                joined(self.value_lines()),
                joined(self.parse_lines()),
            )
        }
    }

    /// Emits the field's type. A field that lists values but whose wire type
    /// cannot be enumerated is refused.
    pub fn as_code(&self) -> (r: Result<String, SchemaError>)
        requires
            self.ascii_names(),
        ensures
            r is Ok <==> self.enum_allowed(),
            r is Ok ==> r.unwrap()@ == self.code(),
            r is Err ==> r.unwrap_err() == SchemaError::EnumOnScalarType,
    {
        let field_id = decimal_string(self.number as u64);
        if self.values.len() == 0 {
            let upper = convert_case(self.name.as_str(), CaseStyle::UpperSnake);
            return Ok(
                scalar_field_code(
                    self.name.as_str(),
                    upper.as_str(),
                    field_id.as_str(),
                    self.field_type.as_rust_type(),
                ),
            );
        }
        if !self.field_type.can_enumerate() {
            return Err(SchemaError::EnumOnScalarType);
        }
        let mut names: Vec<String> = Vec::new();
        let mut descriptions: Vec<String> = Vec::new();
        let mut values: Vec<String> = Vec::new();
        let mut parsers: Vec<String> = Vec::new();
        let mut i: usize = 0;
        while i < self.values.len()
            invariant
                i <= self.values.len(),
                self.ascii_names(),
                names@.len() == i,
                descriptions@.len() == i,
                values@.len() == i,
                parsers@.len() == i,
                forall|k: int|
                    0 <= k < i ==> (#[trigger] names@[k])@ == variant_line(
                        self.values@[k].rust_desc(),
                    ),
                forall|k: int|
                    0 <= k < i ==> (#[trigger] descriptions@[k])@ == variant_text_line(
                        self.values@[k].rust_desc(),
                        self.values@[k].description@,
                    ),
                forall|k: int|
                    0 <= k < i ==> (#[trigger] values@[k])@ == variant_text_line(
                        self.values@[k].rust_desc(),
                        self.values@[k].value@,
                    ),
                forall|k: int|
                    0 <= k < i ==> (#[trigger] parsers@[k])@ == variant_parse_line(
                        self.values@[k].value@,
                        self.values@[k].rust_desc(),
                    ),
            decreases self.values.len() - i,
        {
            let item = &self.values[i];
            let variant = item.as_rust_desc();
            names.push(String::from_str("\t").concat(variant.as_str()).concat(","));
            descriptions.push(
                String::from_str("\t\t\tSelf::").concat(variant.as_str()).concat(" => \"").concat(
                    item.description.as_str(),
                ).concat("\","),
            );
            values.push(
                String::from_str("\t\t\tSelf::").concat(variant.as_str()).concat(" => \"").concat(
                    item.value.as_str(),
                ).concat("\","),
            );
            parsers.push(
                String::from_str("\t\t\tb\"").concat(item.value.as_str()).concat(
                    "\" => Ok(Self::",
                ).concat(variant.as_str()).concat("),"),
            );
            i += 1;
        }
        assert(text_of(names@) =~= self.variant_lines());
        assert(text_of(descriptions@) =~= self.description_lines());
        assert(text_of(values@) =~= self.value_lines());
        assert(text_of(parsers@) =~= self.parse_lines());
        let names_text = join_lines(&names);
        let descriptions_text = join_lines(&descriptions);
        let values_text = join_lines(&values);
        let parsers_text = join_lines(&parsers);
        Ok(
            enum_field_code(
                self.name.as_str(),
                field_id.as_str(),
                names_text.as_str(),
                descriptions_text.as_str(),
                values_text.as_str(),
                parsers_text.as_str(),
            ),
        )
    }
}

/// Keywords are escaped and nothing else is touched: the member that holds
/// a field keeps the field's snake case name where that is an identifier,
/// and else gets one that differs from it, the name behind the raw prefix.
/// The member's type is the field's own type either way, and that type is
/// emitted under the field's own name with the field's tag.
pub proof fn lemma_keyword_sanitization(field: FieldRef, definition: FieldDef)
    ensures
        ({
            let snake = case_converted(field.name@, CaseStyle::Snake);
            &&& parses_as_ident(snake) ==> member_ident(field.name@) == snake
            &&& !parses_as_ident(snake) ==> member_ident(field.name@) != snake && member_ident(
                field.name@,
            ) == "r#"@ + snake
            &&& field.struct_field_item() == struct_field_text(
                field.required,
                member_ident(field.name@),
                field.name@,
            )
            &&& definition.values@.len() == 0 ==> definition.code() == scalar_field_text(
                definition.name@,
                case_converted(definition.name@, CaseStyle::UpperSnake),
                decimal_chars(definition.number as nat),
                rust_type_name(definition.field_type),
            )
        }),
{
    let snake = case_converted(field.name@, CaseStyle::Snake);
    lemma_escaped_never_collides(snake, parses_as_ident(snake));
}

} // verus!
