use openfix::dictionary::Component;
use openfix::dictionary::ComponentRef;
use openfix::dictionary::ComponentSpec;
use openfix::dictionary::FieldDef;
use openfix::dictionary::FieldRef;
use openfix::dictionary::FieldSpec;
use openfix::dictionary::FieldType;
use openfix::dictionary::FieldValue;
use openfix::dictionary::FixSpec;
use openfix::dictionary::GroupRef;
use openfix::dictionary::HeaderSpec;
use openfix::dictionary::Message;
use openfix::dictionary::MessageCategory;
use openfix::dictionary::MessagesSpec;
use openfix::dictionary::Reference;
use openfix::dictionary::Required;
use openfix::dictionary::SchemaError;
use openfix::dictionary::TrailerSpec;
use openfix::generator::refs_are_ascii;
use openfix::generator::BuildStep;
use openfix::generator::Builder;
use openfix::schema::are_distinct;
use openfix::schema::are_resolved;
use openfix::schema::has_component;
use openfix::schema::has_field;
use openfix::schema::has_unique_names;
use openfix::schema::has_unique_tags;

fn field(name: &str, required: Required) -> Reference {
    Reference::FieldRef(FieldRef {
        name: name.into(),
        required,
    })
}

fn component(name: &str) -> Reference {
    Reference::ComponentRef(ComponentRef {
        name: name.into(),
        required: Required::N,
    })
}

fn group(name: &str, refs: Vec<Reference>) -> Reference {
    Reference::GroupRef(GroupRef {
        name: name.into(),
        required: Required::N,
        refs,
    })
}

fn scalar(name: &str, number: u32, field_type: FieldType) -> FieldDef {
    FieldDef {
        name: name.into(),
        number,
        field_type,
        values: vec![],
    }
}

fn dictionary() -> FixSpec {
    FixSpec {
        major: 4,
        minor: 4,
        servicepack: 0,
        header: Some(HeaderSpec {
            refs: vec![field("MsgType", Required::Y), field("MsgSeqNum", Required::Y)],
        }),
        trailer: Some(TrailerSpec {
            refs: vec![field("Signature", Required::N)],
        }),
        component: Some(ComponentSpec {
            items: vec![Component {
                name: "Parties".into(),
                refs: vec![group("NoPartyIDs", vec![field("PartyID", Required::N)])],
            }],
        }),
        message: MessagesSpec {
            items: vec![
                Message {
                    msgcat: MessageCategory::Admin,
                    msgtype: "0".into(),
                    name: "Heartbeat".into(),
                    refs: vec![field("TestReqID", Required::N)],
                },
                Message {
                    msgcat: MessageCategory::App,
                    msgtype: "D".into(),
                    name: "NewOrderSingle".into(),
                    refs: vec![field("TestReqID", Required::Y), component("Parties")],
                },
            ],
        },
        field: FieldSpec {
            items: vec![
                FieldDef {
                    name: "MsgType".into(),
                    number: 35,
                    field_type: FieldType::String,
                    values: vec![
                        FieldValue {
                            value: "0".into(),
                            description: "HEARTBEAT".into(),
                        },
                        FieldValue {
                            value: "D".into(),
                            description: "ORDER_SINGLE".into(),
                        },
                    ],
                },
                scalar("MsgSeqNum", 34, FieldType::Seqnum),
                scalar("Signature", 89, FieldType::Data),
                scalar("TestReqID", 112, FieldType::String),
                scalar("NoPartyIDs", 453, FieldType::NumInGroup),
                scalar("PartyID", 448, FieldType::String),
            ],
        },
    }
}

const CODE_HEADER: &str = "\n#[allow(unused_imports)]\nuse chrono::prelude::*;\n\n";

#[test]
fn a_dictionary_gives_three_files_named_after_its_stem() {
    let spec = dictionary();
    let files = spec.generate_specfile("FIX44").unwrap();
    assert_eq!(files.parsed_name, "FIX44.parsed.json");
    assert_eq!(files.fields_name, "FIX44_fields.rs");
    assert_eq!(files.messages_name, "FIX44_messages.rs");

    let mut fields = String::new();
    fields.push_str(CODE_HEADER);
    fields.push_str("\n#[allow(unused_imports)]\nuse std::fmt;\n\n#[allow(unused_imports)]\nuse crate::prelude::*;\n\n");
    for item in &spec.field.items {
        fields.push_str(&item.as_code().unwrap());
    }
    assert_eq!(files.fields_code, fields);
    assert_eq!(spec.fields_code(), Ok(fields));

    let mut messages = String::new();
    messages.push_str(CODE_HEADER);
    messages.push_str("\n#[allow(unused_imports)]\nuse super::fields::*;\n\n#[allow(unused_imports)]\nuse crate::prelude::*;\n\n");
    messages.push_str(&spec.header.as_ref().unwrap().as_code());
    messages.push_str(&spec.trailer.as_ref().unwrap().as_code());
    for item in &spec.component.as_ref().unwrap().items {
        messages.push_str(&item.as_code());
    }
    for item in &spec.message.items {
        messages.push_str(&item.as_code());
    }
    assert_eq!(files.messages_code, messages);
    assert_eq!(spec.messages_code(), messages);

    let header_at = messages.find("pub struct MessageHeader").unwrap();
    let trailer_at = messages.find("pub struct MessageTrailer").unwrap();
    let parties_at = messages.find("pub struct Parties").unwrap();
    let heartbeat_at = messages.find("pub struct MessageHeartbeat").unwrap();
    let order_at = messages.find("pub struct MessageNewOrderSingle").unwrap();
    assert!(header_at < trailer_at);
    assert!(trailer_at < parties_at);
    assert!(parties_at < heartbeat_at);
    assert!(heartbeat_at < order_at);
}

#[test]
fn a_dictionary_without_header_trailer_and_components_gives_its_messages() {
    let mut spec = dictionary();
    spec.header = None;
    spec.trailer = None;
    spec.component = None;
    spec.message.items.truncate(1);
    let files = spec.generate_specfile("x").unwrap();
    let expected = format!(
        "{}{}{}",
        CODE_HEADER,
        "\n#[allow(unused_imports)]\nuse super::fields::*;\n\n#[allow(unused_imports)]\nuse crate::prelude::*;\n\n",
        spec.message.items[0].as_code()
    );
    assert_eq!(files.messages_code, expected);
    assert_eq!(files.fields_name, "x_fields.rs");
}

#[test]
fn generation_refuses_names_beyond_ascii_and_values_on_scalar_types() {
    let mut spec = dictionary();
    spec.field.items[1].name = "MsgSeqNum\u{e9}".into();
    assert!(!spec.has_ascii_names());
    assert_eq!(spec.generate_specfile("x"), Err(SchemaError::NonAsciiName));

    let mut spec = dictionary();
    spec.field.items[0].values[1].description = "\u{e9}".into();
    assert!(!spec.field.items[0].has_ascii_names());
    assert_eq!(spec.generate_specfile("x"), Err(SchemaError::NonAsciiName));

    let mut spec = dictionary();
    spec.message.items[1].refs[0] = field("Test\u{e9}", Required::Y);
    assert!(!refs_are_ascii(&spec.message.items[1].refs));
    assert_eq!(spec.generate_specfile("x"), Err(SchemaError::NonAsciiName));

    let mut spec = dictionary();
    spec.component.as_mut().unwrap().items[0].refs[0] = component("Partie\u{df}");
    assert_eq!(spec.generate_specfile("x"), Err(SchemaError::NonAsciiName));

    let mut spec = dictionary();
    spec.field.items[0].field_type = FieldType::Float;
    assert!(spec.has_ascii_names());
    assert_eq!(spec.generate_specfile("x"), Err(SchemaError::EnumOnScalarType));
    assert_eq!(spec.fields_code(), Err(SchemaError::EnumOnScalarType));

    spec.field.items[1].name = "\u{e9}".into();
    assert_eq!(spec.generate_specfile("x"), Err(SchemaError::NonAsciiName));
}

#[test]
fn a_dictionary_that_keeps_every_rule_passes_the_check() {
    assert_eq!(dictionary().check(), Ok(()));
    let mut bare = dictionary();
    bare.header = None;
    bare.trailer = None;
    bare.component = None;
    bare.message.items.truncate(1);
    assert_eq!(bare.check(), Ok(()));
}

#[test]
fn the_check_reports_each_broken_rule() {
    let mut spec = dictionary();
    spec.field.items[2].name = "Signatur\u{e9}".into();
    assert_eq!(spec.check(), Err(SchemaError::NonAsciiName));

    let mut spec = dictionary();
    spec.field.items[3].number = 0;
    assert_eq!(spec.check(), Err(SchemaError::ZeroTag));

    let mut spec = dictionary();
    spec.field.items[5].number = 35;
    assert!(!has_unique_tags(&spec.field.items));
    assert_eq!(spec.check(), Err(SchemaError::DuplicateTag));

    let mut spec = dictionary();
    spec.field.items.push(scalar("MsgSeqNum", 9999, FieldType::Int));
    assert!(!has_unique_names(&spec.field.items));
    assert!(has_unique_tags(&spec.field.items));
    assert_eq!(spec.check(), Err(SchemaError::DuplicateName));

    let mut spec = dictionary();
    spec.field.items[0].field_type = FieldType::Price;
    assert_eq!(spec.check(), Err(SchemaError::EnumOnScalarType));

    let mut spec = dictionary();
    spec.header.as_mut().unwrap().refs.push(field("Missing", Required::N));
    assert_eq!(spec.check(), Err(SchemaError::UnknownReference));

    let mut spec = dictionary();
    spec.trailer.as_mut().unwrap().refs.push(component("Missing"));
    assert_eq!(spec.check(), Err(SchemaError::UnknownReference));

    let mut spec = dictionary();
    spec.component.as_mut().unwrap().items[0].refs =
        vec![group("NoPartyIDs", vec![group("NoPartyIDs", vec![field("Missing", Required::N)])])];
    assert_eq!(spec.check(), Err(SchemaError::UnknownReference));

    let mut spec = dictionary();
    spec.message.items[0].refs = vec![group("Missing", vec![])];
    assert_eq!(spec.check(), Err(SchemaError::UnknownReference));

    let mut spec = dictionary();
    spec.component = None;
    assert_eq!(spec.check(), Err(SchemaError::UnknownReference));

    let mut spec = dictionary();
    spec.message.items[1].refs.push(field("TestReqID", Required::N));
    assert_eq!(spec.check(), Err(SchemaError::DuplicateReference));

    let mut spec = dictionary();
    spec.component.as_mut().unwrap().items[0].refs = vec![group(
        "NoPartyIDs",
        vec![field("PartyID", Required::N), field("PartyID", Required::Y)],
    )];
    assert_eq!(spec.check(), Err(SchemaError::DuplicateReference));
}

#[test]
fn the_check_reports_the_first_broken_rule() {
    let mut spec = dictionary();
    spec.message.items[1].refs.push(field("TestReqID", Required::N));
    spec.header.as_mut().unwrap().refs.push(field("Missing", Required::N));
    assert_eq!(spec.check(), Err(SchemaError::UnknownReference));
    spec.field.items[0].field_type = FieldType::Price;
    assert_eq!(spec.check(), Err(SchemaError::EnumOnScalarType));
    spec.field.items.push(scalar("MsgSeqNum", 9999, FieldType::Int));
    assert_eq!(spec.check(), Err(SchemaError::DuplicateName));
    spec.field.items[5].number = 35;
    assert_eq!(spec.check(), Err(SchemaError::DuplicateTag));
    spec.field.items[3].number = 0;
    assert_eq!(spec.check(), Err(SchemaError::ZeroTag));
    spec.field.items[2].name = "\u{e9}".into();
    assert_eq!(spec.check(), Err(SchemaError::NonAsciiName));
}

#[test]
fn lookups_compare_whole_names() {
    let spec = dictionary();
    let fields = &spec.field.items;
    let components = &spec.component.as_ref().unwrap().items;
    assert!(has_field(fields, &"PartyID".to_string()));
    assert!(!has_field(fields, &"Party".to_string()));
    assert!(!has_field(fields, &"partyid".to_string()));
    assert!(!has_field(fields, &"Parties".to_string()));
    assert!(has_component(components, &"Parties".to_string()));
    assert!(!has_component(components, &"PartyID".to_string()));
    assert!(are_resolved(&vec![], fields, components));
    assert!(are_resolved(
        &vec![field("PartyID", Required::N), component("Parties")],
        fields,
        components
    ));
    assert!(!are_resolved(&vec![component("PartyID")], fields, components));
    assert!(are_distinct(&vec![field("A", Required::N), component("B")]));
    assert!(!are_distinct(&vec![field("A", Required::N), component("A")]));
    assert!(are_distinct(&vec![
        group("A", vec![field("A", Required::N)]),
        field("B", Required::N)
    ]));
}

#[test]
fn a_run_takes_its_dictionaries_in_order_and_stops_at_the_first_failure() {
    let builder = Builder::new()
        .add_path("FIX40.xml")
        .add_path("FIX41.xml")
        .enable_rustfmt(true);
    assert_eq!(
        builder.build(0, false),
        BuildStep::Generate {
            path: "FIX40.xml".into(),
            format: true
        }
    );
    assert_eq!(
        builder.build(1, false),
        BuildStep::Generate {
            path: "FIX41.xml".into(),
            format: true
        }
    );
    assert_eq!(builder.build(2, false), BuildStep::Finish);
    assert_eq!(builder.build(3, false), BuildStep::Finish);
    assert_eq!(builder.build(0, true), BuildStep::Abort);
    assert_eq!(builder.build(1, true), BuildStep::Abort);
    assert_eq!(builder.build(2, true), BuildStep::Abort);
}

#[test]
fn a_new_run_has_no_dictionary_and_does_not_format() {
    assert_eq!(Builder::new().build(0, false), BuildStep::Finish);
    assert_eq!(
        Builder::new().add_path("a").build(0, false),
        BuildStep::Generate {
            path: "a".into(),
            format: false
        }
    );
    assert_eq!(
        Builder::new()
            .enable_rustfmt(true)
            .add_path("a")
            .enable_rustfmt(false)
            .build(0, false),
        BuildStep::Generate {
            path: "a".into(),
            format: false
        }
    );
}
