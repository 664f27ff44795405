use asyncapi_gen::reference::ReferenceOr;
use asyncapi_gen::schema::{ArrayType, IntegerFormat, IntegerType, ObjectType, Schema, SchemaData,
    SchemaKind, StringType, Type};
use asyncapi_gen::schema_parser::{array_type_to_string, build_multi_message_enum,
    object_schema_to_string, primitive_type_to_string, schema_to_rust_types};
use asyncapi_gen::template_context::simplify_message;
use asyncapi_gen::variant_or::VariantOrUnknownOrEmpty;

fn schema(kind: SchemaKind) -> Schema {
    Schema {
        schema_data: SchemaData { name: None, title: None, description: None },
        schema_kind: kind,
    }
}

fn string_type() -> Type {
    Type::String(StringType {
        format: VariantOrUnknownOrEmpty::Empty,
        pattern: None,
        enumeration: vec![],
        min_length: None,
        max_length: None,
    })
}

fn int64_type() -> Type {
    Type::Integer(IntegerType {
        format: VariantOrUnknownOrEmpty::Item(IntegerFormat::Int64),
        multiple_of: None,
        exclusive_minimum: None,
        exclusive_maximum: None,
        minimum: None,
        maximum: None,
        enumeration: vec![],
    })
}

fn user_object() -> ObjectType {
    ObjectType {
        properties: vec![
            ("id".to_string(), ReferenceOr::Item(schema(SchemaKind::Type(int64_type())))),
            ("name".to_string(), ReferenceOr::Item(schema(SchemaKind::Type(string_type())))),
        ],
        required: vec![],
    }
}

#[test]
fn primitive_lines_are_exact() {
    assert_eq!(primitive_type_to_string(&int64_type(), "user id").unwrap(), "pub user_id: i64");
    assert_eq!(
        primitive_type_to_string(&string_type(), "").unwrap(),
        "pub value_with_no_name: String"
    );
}

#[test]
fn array_lines_are_exact() {
    let arr = ArrayType {
        items: Some(Box::new(ReferenceOr::Item(schema(SchemaKind::Type(int64_type()))))),
        min_items: None,
        max_items: None,
        unique_items: false,
    };
    assert_eq!(array_type_to_string(&arr, "scores").unwrap(), "pub scores: Vec<i64>");
    let broken = ArrayType { items: None, min_items: None, max_items: None, unique_items: false };
    assert!(array_type_to_string(&broken, "scores").is_err());
}

#[test]
fn object_registers_its_struct_definition() {
    let mut registry: Vec<(String, String)> = Vec::new();
    let name = object_schema_to_string(&user_object(), "User", &mut registry).unwrap();
    assert_eq!(name, "User");
    assert_eq!(registry.len(), 1);
    assert_eq!(registry[0].0, "User");
    assert_eq!(
        registry[0].1,
        "#[derive(Clone, Debug, Deserialize, Serialize)]\npub struct User {\npub id: i64,\npub name: String\n}\n"
    );
}

#[test]
fn can_parse_schema() {
    // the whole dispatcher over an object schema
    let mut registry: Vec<(String, String)> = Vec::new();
    let line = schema_to_rust_types(
        &schema(SchemaKind::Type(Type::Object(user_object()))),
        "User",
        &mut registry,
    )
    .unwrap();
    assert_eq!(line, "pub User: User");
    assert_eq!(registry.len(), 1);
}

#[test]
fn registering_twice_replaces_the_definition() {
    let mut registry: Vec<(String, String)> = Vec::new();
    object_schema_to_string(&user_object(), "User", &mut registry).unwrap();
    let smaller = ObjectType {
        properties: vec![
            ("id".to_string(), ReferenceOr::Item(schema(SchemaKind::Type(int64_type())))),
        ],
        required: vec![],
    };
    object_schema_to_string(&smaller, "User", &mut registry).unwrap();
    assert_eq!(registry.len(), 1);
    assert_eq!(
        registry[0].1,
        "#[derive(Clone, Debug, Deserialize, Serialize)]\npub struct User {\npub id: i64\n}\n"
    );
}

#[test]
fn composites_register_enum_and_message() {
    let one_of = schema(SchemaKind::OneOf(vec![
        ReferenceOr::Item(schema(SchemaKind::Type(string_type()))),
        ReferenceOr::Item(schema(SchemaKind::Type(int64_type()))),
    ]));
    let mut registry: Vec<(String, String)> = Vec::new();
    let combined = schema_to_rust_types(&one_of, "Event", &mut registry).unwrap();
    assert!(combined.contains("pub eventpayload1: String\n"));
    assert!(combined.contains("pub eventpayload2: i64\n"));
    assert!(combined.contains("pub enum EventPayloadEnum {"));
    assert_eq!(registry.len(), 2);
    assert_eq!(registry[0].0, "EventPayloadEnum");
    assert_eq!(registry[1].0, "Event");
    assert_eq!(
        registry[1].1,
        "#[derive(Serialize, Deserialize, Debug)]\npub struct Event {\npayload: EventPayloadEnum,\n}\n"
    );
}

#[test]
fn single_member_composites_build_no_enum() {
    let one_of = schema(SchemaKind::OneOf(vec![ReferenceOr::Item(schema(SchemaKind::Type(
        string_type(),
    )))]));
    let mut registry: Vec<(String, String)> = Vec::new();
    let combined = schema_to_rust_types(&one_of, "Event", &mut registry).unwrap();
    assert_eq!(combined, "pub eventpayload1: String\n");
    assert!(registry.is_empty());
}

#[test]
fn multi_message_enum_lists_every_message() {
    let msg = |name: &str| {
        simplify_message(
            &ReferenceOr::Item(asyncapi_gen::asyncapi_model::Message {
                name: Some(name.to_string()),
                payload: Some(asyncapi_gen::asyncapi_model::Payload::Schema(schema(
                    SchemaKind::Type(string_type()),
                ))),
                payload_schema: None,
                content_type: None,
            }),
            "op",
        )
        .unwrap()
    };
    let messages = vec![msg("first msg"), msg("second msg")];
    let me = build_multi_message_enum(&messages, "op messages").unwrap();
    assert_eq!(me.unique_id, "op messages");
    // the message identifiers are already snake case, so capitalizing them
    // only raises the first letter
    assert_eq!(
        me.struct_definition,
        "#[derive(Serialize, Deserialize, Debug)]\n#[serde(untagged)]\npub enum OpMessages {\nFirst_msg(First_msg),\nSecond_msg(Second_msg),\n\n}\n"
    );
}
