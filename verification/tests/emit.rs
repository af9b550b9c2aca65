use openfix::dictionary::Component;
use openfix::dictionary::ComponentRef;
use openfix::dictionary::FieldDef;
use openfix::dictionary::FieldRef;
use openfix::dictionary::FieldType;
use openfix::dictionary::FieldValue;
use openfix::dictionary::GroupRef;
use openfix::dictionary::HeaderSpec;
use openfix::dictionary::Message;
use openfix::dictionary::MessageCategory;
use openfix::dictionary::Reference;
use openfix::dictionary::Required;
use openfix::dictionary::SchemaError;
use openfix::dictionary::TrailerSpec;
use openfix::emit::format_optional_function_call;
use openfix::emit::format_optional_struct_field;
use openfix::emit::function_call;
use openfix::emit::generate_ref_code;
use openfix::emit::join_lines;
use openfix::emit::spec_as_code;
use openfix::emit::struct_field;
use openfix::emit::variant_name;
use openfix::naming::escape_field_name;
use openfix::naming::sanitize_field_name;

fn field(name: &str, required: Required) -> Reference {
    Reference::FieldRef(FieldRef {
        name: name.into(),
        required,
    })
}

fn component(name: &str, required: Required) -> Reference {
    Reference::ComponentRef(ComponentRef {
        name: name.into(),
        required,
    })
}

fn group(name: &str, required: Required, refs: Vec<Reference>) -> GroupRef {
    GroupRef {
        name: name.into(),
        required,
        refs,
    }
}

fn value(wire: &str, description: &str) -> FieldValue {
    FieldValue {
        value: wire.into(),
        description: description.into(),
    }
}

const RECORD_ENCODER_TAIL: &str = "\n        ];\n\n        let mut result = vec![];\n        for field in fields {\n            if let Some(field) = field {\n                result.push(field);\n            }\n        }\n\n        result.concat()\n    }\n}\n";

#[test]
fn required_flag_as_a_boolean() {
    let yes: bool = Required::Y.into();
    let no: bool = Required::N.into();
    assert!(yes);
    assert!(!no);
    assert_eq!(bool::from(Required::Y), true);
    assert_eq!(Required::default(), Required::N);
}

#[test]
fn wire_types_map_to_their_representation() {
    let expected = [
        (FieldType::Boolean, "bool"),
        (FieldType::Char, "char"),
        (FieldType::Int, "i64"),
        (FieldType::Float, "f64"),
        (FieldType::String, "String"),
        (FieldType::Seqnum, "usize"),
        (FieldType::Length, "usize"),
        (FieldType::UtcTimestamp, "f64"),
        (FieldType::MonthYear, "String"),
        (FieldType::DayOfMonth, "u8"),
        (FieldType::UtcDate, "chrono::NaiveDate"),
        (FieldType::UtcDateOnly, "String"),
        (FieldType::Date, "String"),
        (FieldType::UtcTimeOnly, "String"),
        (FieldType::Time, "chrono::NaiveTime"),
        (FieldType::Data, "String"),
        (FieldType::NumInGroup, "i64"),
        (FieldType::Price, "f64"),
        (FieldType::Amount, "f64"),
        (FieldType::Quantity, "f64"),
        (FieldType::Currency, "String"),
        (FieldType::MultipleValueString, "String"),
        (FieldType::Exchange, "String"),
        (FieldType::LocalMarketDate, "String"),
        (FieldType::PriceOffset, "f64"),
        (FieldType::Percentage, "f64"),
        (FieldType::Country, "String"),
    ];
    for (wire, name) in expected {
        assert_eq!(wire.as_rust_type(), name);
    }
}

#[test]
fn only_six_wire_types_can_be_enumerated() {
    let enumerable = [
        FieldType::String,
        FieldType::Char,
        FieldType::Int,
        FieldType::MultipleValueString,
        FieldType::Boolean,
        FieldType::NumInGroup,
    ];
    for wire in enumerable {
        assert!(wire.can_enumerate());
    }
    let scalar_only = [
        FieldType::Float,
        FieldType::Seqnum,
        FieldType::Length,
        FieldType::UtcTimestamp,
        FieldType::MonthYear,
        FieldType::DayOfMonth,
        FieldType::UtcDate,
        FieldType::UtcDateOnly,
        FieldType::Date,
        FieldType::UtcTimeOnly,
        FieldType::Time,
        FieldType::Data,
        FieldType::Price,
        FieldType::Amount,
        FieldType::Quantity,
        FieldType::Currency,
        FieldType::Exchange,
        FieldType::LocalMarketDate,
        FieldType::PriceOffset,
        FieldType::Percentage,
        FieldType::Country,
    ];
    for wire in scalar_only {
        assert!(!wire.can_enumerate());
    }
}

#[test]
fn keywords_are_escaped_and_other_names_kept() {
    assert_eq!(sanitize_field_name("yield"), "r#yield");
    assert_eq!(sanitize_field_name("type"), "r#type");
    assert_eq!(sanitize_field_name("match"), "r#match");
    assert_eq!(sanitize_field_name("msg_type"), "msg_type");
    assert_eq!(sanitize_field_name("text"), "text");
    assert_eq!(escape_field_name("text", true), "text");
    assert_eq!(escape_field_name("text", false), "r#text");
    assert_eq!(escape_field_name("", false), "r#");
}

#[test]
fn members_are_plain_when_required_and_optional_otherwise() {
    assert_eq!(struct_field(&Required::Y, "a", "B"), "a: B");
    assert_eq!(struct_field(&Required::N, "a", "B"), "a: Option<B>");
    assert_eq!(
        format_optional_struct_field(&Required::Y, "msg_type", "MsgType"),
        "msg_type: MsgType"
    );
    assert_eq!(
        format_optional_struct_field(&Required::N, "msg_type", "MsgType"),
        "msg_type: Option<MsgType>"
    );
    assert_eq!(
        format_optional_struct_field(&Required::Y, "yield", "Yield"),
        "r#yield: Yield"
    );
    assert_eq!(
        format_optional_struct_field(&Required::N, "yield", "Yield"),
        "r#yield: Option<Yield>"
    );
}

#[test]
fn calls_are_always_present_when_required_and_mapped_otherwise() {
    assert_eq!(function_call(&Required::Y, "a", "f()"), "Some(self.a.f())");
    assert_eq!(
        function_call(&Required::N, "a", "f()"),
        "self.a.as_ref().map(|x| x.f())"
    );
    assert_eq!(
        format_optional_function_call(&Required::Y, "text", "encode_message()"),
        "Some(self.text.encode_message())"
    );
    assert_eq!(
        format_optional_function_call(&Required::N, "yield", "encode_message()"),
        "self.r#yield.as_ref().map(|x| x.encode_message())"
    );
}

#[test]
fn references_become_snake_case_members_of_their_own_type() {
    let msg_type = FieldRef {
        name: "MsgType".into(),
        required: Required::Y,
    };
    assert_eq!(msg_type.as_struct_field_item(), "msg_type: MsgType");
    assert_eq!(
        msg_type.as_function_call("encode_message()"),
        "Some(self.msg_type.encode_message())"
    );
    let sender = FieldRef {
        name: "SenderCompID".into(),
        required: Required::N,
    };
    assert_eq!(
        sender.as_struct_field_item(),
        "sender_comp_id: Option<SenderCompID>"
    );
    let keyword = FieldRef {
        name: "Yield".into(),
        required: Required::Y,
    };
    assert_eq!(keyword.as_struct_field_item(), "r#yield: Yield");
    assert_eq!(
        keyword.as_function_call("encode_message()"),
        "Some(self.r#yield.encode_message())"
    );
    let parties = ComponentRef {
        name: "Parties".into(),
        required: Required::N,
    };
    assert_eq!(parties.as_struct_field_item(), "parties: Option<Parties>");
    assert_eq!(
        parties.as_function_call("encode_message()"),
        "self.parties.as_ref().map(|x| x.encode_message())"
    );
}

#[test]
fn a_group_becomes_a_type_with_a_variant_for_each_member() {
    let allocs = group(
        "NoAllocs",
        Required::N,
        vec![
            field("AllocAccount", Required::Y),
            component("NestedParties", Required::N),
        ],
    );
    assert_eq!(
        allocs.cls_name("MessageNewOrderSingle"),
        "MessageNewOrderSingleNoAllocs"
    );
    assert_eq!(
        allocs.as_struct_field_item("NewOrderSingle"),
        "no_allocs: Option<NewOrderSingleNoAllocs>"
    );
    assert_eq!(
        allocs.as_function_call("encode_message()", "NewOrderSingle"),
        "self.no_allocs.as_ref().map(|x| x.encode_message())"
    );
    assert_eq!(
        allocs.as_group_struct("NewOrderSingle"),
        "\n#[derive(Debug, PartialEq)]\npub enum NewOrderSingleNoAllocs {\n\tAllocAccount(AllocAccount),\n\tNestedParties(NestedParties),\n}\n\nimpl AsFixMessage for NewOrderSingleNoAllocs {\n    fn encode_message(&self) -> Vec<u8> {\n        match *self {\n\t\t\tSelf::AllocAccount(ref x) => x.encode_message(),\n\t\t\tSelf::NestedParties(ref x) => x.encode_message(),\n        }\n    }\n}\n"
    );
    let empty = group("NoHops", Required::Y, vec![]);
    assert_eq!(
        empty.as_group_struct("Header"),
        "\n#[derive(Debug, PartialEq)]\npub enum HeaderNoHops {\n\n}\n\nimpl AsFixMessage for HeaderNoHops {\n    fn encode_message(&self) -> Vec<u8> {\n        match *self {\n\n        }\n    }\n}\n"
    );
}

#[test]
fn references_dispatch_on_their_kind() {
    let a = field("Account", Required::Y);
    let c = component("Parties", Required::N);
    let g = Reference::GroupRef(group("NoHops", Required::Y, vec![field("HopCompID", Required::N)]));
    assert_eq!(a.as_type_value(), "Account");
    assert_eq!(c.as_type_value(), "Parties");
    assert_eq!(g.as_type_value(), "NoHops");
    assert_eq!(a.as_group_struct("X"), None);
    assert_eq!(c.as_group_struct("X"), None);
    assert_eq!(
        g.as_group_struct("X"),
        Some(
            "\n#[derive(Debug, PartialEq)]\npub enum XNoHops {\n\tHopCompID(HopCompID),\n}\n\nimpl AsFixMessage for XNoHops {\n    fn encode_message(&self) -> Vec<u8> {\n        match *self {\n\t\t\tSelf::HopCompID(ref x) => x.encode_message(),\n        }\n    }\n}\n"
                .to_string()
        )
    );
    assert_eq!(a.as_struct_field_item("X"), "account: Account");
    assert_eq!(c.as_struct_field_item("X"), "parties: Option<Parties>");
    assert_eq!(g.as_struct_field_item("X"), "no_hops: XNoHops");
    assert_eq!(a.as_function_call("X", "f()"), "Some(self.account.f())");
    assert_eq!(
        c.as_function_call("X", "f()"),
        "self.parties.as_ref().map(|x| x.f())"
    );
    assert_eq!(g.as_function_call("X", "f()"), "Some(self.no_hops.f())");
}

#[test]
fn lines_are_joined_with_line_breaks() {
    assert_eq!(join_lines(&vec![]), "");
    assert_eq!(join_lines(&vec!["a".to_string()]), "a");
    assert_eq!(
        join_lines(&vec!["a".to_string(), "".to_string(), "b".to_string()]),
        "a\n\nb"
    );
}

#[test]
fn references_give_members_in_their_order() {
    let refs = vec![
        field("BeginString", Required::Y),
        Reference::GroupRef(group("NoHops", Required::N, vec![field("HopCompID", Required::N)])),
        component("Parties", Required::N),
        Reference::GroupRef(group("NoLegs", Required::Y, vec![])),
    ];
    let code = generate_ref_code(&refs, "Header");
    assert_eq!(code.classes.len(), 2);
    assert!(code.classes[0].contains("pub enum HeaderNoHops {"));
    assert!(code.classes[1].contains("pub enum HeaderNoLegs {"));
    assert_eq!(
        code.fields,
        vec![
            "\tbegin_string: BeginString,".to_string(),
            "\tno_hops: Option<HeaderNoHops>,".to_string(),
            "\tparties: Option<Parties>,".to_string(),
            "\tno_legs: HeaderNoLegs,".to_string(),
        ]
    );
    assert_eq!(
        code.fields_encode,
        vec![
            "\t\t\tSome(self.begin_string.encode_message()),".to_string(),
            "\t\t\tself.no_hops.as_ref().map(|x| x.encode_message()),".to_string(),
            "\t\t\tself.parties.as_ref().map(|x| x.encode_message()),".to_string(),
            "\t\t\tSome(self.no_legs.encode_message()),".to_string(),
        ]
    );
    let none = generate_ref_code(&vec![], "Header");
    assert!(none.classes.is_empty());
    assert!(none.fields.is_empty());
    assert!(none.fields_encode.is_empty());
}

#[test]
fn a_record_declares_its_members_and_concatenates_their_encodings() {
    let refs = vec![
        field("SignatureLength", Required::N),
        field("Signature", Required::N),
    ];
    let expected = format!(
        "{}{}",
        "\n\n\n#[derive(Debug, PartialEq)]\npub struct MessageTrailer {\n\tsignature_length: Option<SignatureLength>,\n\tsignature: Option<Signature>,\n}\n\nimpl AsFixMessage for MessageTrailer {\n    fn encode_message(&self) -> Vec<u8> {\n        let fields: Vec<Option<_>> = vec![\n\t\t\tself.signature_length.as_ref().map(|x| x.encode_message()),\n\t\t\tself.signature.as_ref().map(|x| x.encode_message()),",
        format!("{}\n", RECORD_ENCODER_TAIL)
    );
    assert_eq!(spec_as_code("MessageTrailer", &refs), expected);
    assert_eq!(TrailerSpec { refs }.as_code(), expected);
}

#[test]
fn header_trailer_and_components_are_records_under_their_names() {
    let header = HeaderSpec {
        refs: vec![field("MsgType", Required::Y)],
    };
    assert_eq!(
        header.as_code(),
        spec_as_code("MessageHeader", &vec![field("MsgType", Required::Y)])
    );
    assert!(header.as_code().contains("pub struct MessageHeader {\n\tmsg_type: MsgType,\n}"));
    let trailer = TrailerSpec { refs: vec![] };
    assert_eq!(trailer.as_code(), spec_as_code("MessageTrailer", &vec![]));
    assert!(trailer.as_code().contains("pub struct MessageTrailer {\n\n}"));
    let parties = Component {
        name: "Parties".into(),
        refs: vec![Reference::GroupRef(group(
            "NoPartyIDs",
            Required::N,
            vec![field("PartyID", Required::N)],
        ))],
    };
    let code = parties.as_code();
    assert!(code.starts_with("\n\n#[derive(Debug, PartialEq)]\npub enum PartiesNoPartyIDs {\n\tPartyID(PartyID),\n}"));
    assert!(code.contains("pub struct Parties {\n\tno_party_i_ds: Option<PartiesNoPartyIDs>,\n}"));
    assert!(!code.contains("\\x01"));
}

#[test]
fn a_message_puts_the_header_first_and_the_trailer_last() {
    let heartbeat = Message {
        msgcat: MessageCategory::Admin,
        msgtype: "0".into(),
        name: "Heartbeat".into(),
        refs: vec![field("TestReqID", Required::N)],
    };
    assert_eq!(heartbeat.message_cls_name(), "MessageHeartbeat");
    assert_eq!(heartbeat.message_dest(), "MessageDest::Admin");
    let expected = format!(
        "{}{}",
        "\n\n\n#[derive(Debug, PartialEq)]\npub struct MessageHeartbeat {\n    // Common fields\n    header: MessageHeader,\n    trailer: MessageTrailer,\n\n    // Custom fields\n\ttest_req_id: Option<TestReqID>,\n}\n\nimpl MessageHeartbeat {\n    pub const MESSAGE_DEST: MessageDest = MessageDest::Admin;\n    pub const MESSAGE_TYPE: &'static str = \"0\";\n}\n\nimpl AsFixMessage for MessageHeartbeat {\n    fn encode_message(&self) -> Vec<u8> {\n        let fields: Vec<Option<_>> = vec![\n            Some(self.header.encode_message()),\n\t\t\tself.test_req_id.as_ref().map(|x| x.encode_message()),\n            Some(self.trailer.encode_message()),",
        RECORD_ENCODER_TAIL
    );
    assert_eq!(heartbeat.as_code(), expected);

    let order = Message {
        msgcat: MessageCategory::App,
        msgtype: "D".into(),
        name: "NewOrderSingle".into(),
        refs: vec![
            field("ClOrdID", Required::Y),
            Reference::GroupRef(group("NoAllocs", Required::N, vec![field("AllocAccount", Required::N)])),
        ],
    };
    assert_eq!(order.message_dest(), "MessageDest::App");
    let code = order.as_code();
    assert!(code.starts_with("\n\n#[derive(Debug, PartialEq)]\npub enum MessageNewOrderSingleNoAllocs {"));
    assert!(code.contains("\tcl_ord_id: ClOrdID,\n\tno_allocs: Option<MessageNewOrderSingleNoAllocs>,\n}"));
    assert!(code.contains("pub const MESSAGE_DEST: MessageDest = MessageDest::App;\n    pub const MESSAGE_TYPE: &'static str = \"D\";"));
}

#[test]
fn variants_are_named_after_their_description() {
    assert_eq!(value("0", "HEARTBEAT").as_rust_desc(), "Heartbeat");
    assert_eq!(value("4", "FIX42").as_rust_desc(), "Fix42");
    assert_eq!(value("1", "2FACTOR").as_rust_desc(), "Value2Factor");
    assert_eq!(value("D", "ORDER_SINGLE").as_rust_desc(), "OrderSingle");
    assert_eq!(value("x", "_PRIVATE").as_rust_desc(), "ValuePrivate");
    assert_eq!(value("x", "").as_rust_desc(), "Value");
    assert_eq!(variant_name("abc", "Abc"), "Abc");
    assert_eq!(variant_name("Zed", "Zed"), "Zed");
    assert_eq!(variant_name("@home", "Home"), "ValueHome");
    assert_eq!(variant_name("[x", "X"), "ValueX");
    assert_eq!(variant_name("{x", "X"), "ValueX");
    assert_eq!(variant_name("`x", "X"), "ValueX");
    assert_eq!(variant_name("9", "9"), "Value9");
    assert_eq!(variant_name("\u{e9}t\u{e9}", "X"), "ValueX");
}

#[test]
fn a_scalar_field_is_a_record_of_one_member() {
    let account = FieldDef {
        name: "MsgSeqNum".into(),
        number: 34,
        field_type: FieldType::Seqnum,
        values: vec![],
    };
    assert_eq!(
        account.as_code(),
        Ok("\n#[derive(Debug, PartialEq)]\npub struct MsgSeqNum {\n    pub value: usize\n}\n\nimpl MsgSeqNum {\n    pub fn new(value: usize) -> Self {\n        Self { value }\n    }\n}\n\nimpl fmt::Display for MsgSeqNum {\n    fn fmt(&self, f: &mut fmt::Formatter) -> fmt::Result {\n        write!(f, \"MSG_SEQ_NUM({})\", self.value)\n    }\n}\n\nimpl AsFixMessageField for MsgSeqNum {\n    fn as_fix_value(&self) -> String {\n        format!(\"{}\", self.value)\n    }\n\n    fn as_fix_key(&self) -> u32 {\n        34\n    }\n}\n\nimpl FromFixMessageField for MsgSeqNum {\n    fn from_fix_value(value: &[u8]) -> Result<Self, FixParseError> {\n        let value = std::str::from_utf8(value).map_err(FixParseError::InvalidString)?;\n        let value = value.parse().map_err(|_e| FixParseError::InvalidData)?;\n        Ok(Self { value })\n    }\n}\n\n".to_string())
    );
    let scalar_of_any_type = FieldDef {
        name: "Price".into(),
        number: 4294967295,
        field_type: FieldType::Price,
        values: vec![],
    };
    let code = scalar_of_any_type.as_code().unwrap();
    assert!(code.contains("pub value: f64\n"));
    assert!(code.contains("fn as_fix_key(&self) -> u32 {\n        4294967295\n    }"));
}

#[test]
fn an_enumerated_field_is_a_type_with_a_variant_for_each_value() {
    let field = FieldDef {
        name: "ApplVerID".into(),
        number: 1128,
        field_type: FieldType::String,
        values: vec![value("3", "FIX41"), value("4", "FIX42"), value("9", "2FACTOR")],
    };
    assert_eq!(
        field.as_code(),
        Ok("\n#[derive(Debug, PartialEq)]\npub enum ApplVerID {\n\tFix41,\n\tFix42,\n\tValue2Factor,\n}\n\nimpl fmt::Display for ApplVerID {\n    fn fmt(&self, f: &mut fmt::Formatter) -> fmt::Result {\n        write!(f, \"{}\", match *self {\n\t\t\tSelf::Fix41 => \"FIX41\",\n\t\t\tSelf::Fix42 => \"FIX42\",\n\t\t\tSelf::Value2Factor => \"2FACTOR\",\n        })\n    }\n}\n\nimpl AsFixMessageField for ApplVerID {\n    fn as_fix_value(&self) -> String {\n        match *self {\n\t\t\tSelf::Fix41 => \"3\",\n\t\t\tSelf::Fix42 => \"4\",\n\t\t\tSelf::Value2Factor => \"9\",\n        }.to_string()\n    }\n\n    fn as_fix_key(&self) -> u32 {\n        1128\n    }\n}\n\nimpl FromFixMessageField for ApplVerID {\n    fn from_fix_value(value: &[u8]) -> Result<Self, FixParseError> {\n        match value {\n\t\t\tb\"3\" => Ok(Self::Fix41),\n\t\t\tb\"4\" => Ok(Self::Fix42),\n\t\t\tb\"9\" => Ok(Self::Value2Factor),\n            _ => Err(FixParseError::InvalidData),\n        }\n    }\n}\n\n".to_string())
    );
}

#[test]
fn values_on_a_wire_type_that_cannot_be_enumerated_are_refused() {
    for wire in [FieldType::Float, FieldType::Price, FieldType::UtcTimestamp, FieldType::Data] {
        let field = FieldDef {
            name: "Odd".into(),
            number: 1,
            field_type: wire,
            values: vec![value("1", "ONE")],
        };
        assert_eq!(field.as_code(), Err(SchemaError::EnumOnScalarType));
    }
    for wire in [
        FieldType::String,
        FieldType::Char,
        FieldType::Int,
        FieldType::MultipleValueString,
        FieldType::Boolean,
        FieldType::NumInGroup,
    ] {
        let field = FieldDef {
            name: "Fine".into(),
            number: 1,
            field_type: wire,
            values: vec![value("1", "ONE")],
        };
        assert!(field.as_code().is_ok());
    }
}
