use asyncapi_gen::asyncapi_model::{AsyncAPI, Channel, Info, Message, Operation,
    OperationMessageType, Payload, Server};
use asyncapi_gen::generator::{generate_models_imports, model_file_name, schema_file_name};
use asyncapi_gen::reference::{parse_message_reference_path, ReferenceOr};
use asyncapi_gen::schema::{ObjectType, Schema, SchemaData, SchemaKind, StringType, Type};
use asyncapi_gen::schema_parser::{build_multi_message_enum, build_multi_payload_enum,
    build_multi_payload_message};
use asyncapi_gen::template_context::{create_template_context, extract_model_from_channels,
    get_publish_channels_operations, get_subscribe_channels_operations, simplify_message,
    simplify_operation, spec_to_pubsub_template_type, TemplateContextError};
use asyncapi_gen::template_functions::key_exists;
use asyncapi_gen::doc_tree::DocNode;
use asyncapi_gen::variant_or::VariantOrUnknownOrEmpty;

fn string_schema(name: Option<&str>) -> Schema {
    Schema {
        schema_data: SchemaData {
            name: name.map(|s| s.to_string()),
            title: None,
            description: None,
        },
        schema_kind: SchemaKind::Type(Type::String(StringType {
            format: VariantOrUnknownOrEmpty::Empty,
            pattern: None,
            enumeration: vec![],
            min_length: None,
            max_length: None,
        })),
    }
}

fn object_schema(name: Option<&str>, props: Vec<(&str, Schema)>) -> Schema {
    Schema {
        schema_data: SchemaData {
            name: name.map(|s| s.to_string()),
            title: None,
            description: None,
        },
        schema_kind: SchemaKind::Type(Type::Object(ObjectType {
            properties: props
                .into_iter()
                .map(|(k, v)| (k.to_string(), ReferenceOr::Item(v)))
                .collect(),
            required: vec![],
        })),
    }
}

fn message(name: Option<&str>, payload: Option<Schema>) -> Message {
    Message {
        name: name.map(|s| s.to_string()),
        payload: payload.map(Payload::Schema),
        payload_schema: None,
        content_type: None,
    }
}

fn operation(id: Option<&str>, msg: Option<OperationMessageType>) -> Operation {
    Operation {
        operation_id: id.map(|s| s.to_string()),
        summary: None,
        description: None,
        message: msg,
    }
}

fn api(servers: Vec<(&str, ReferenceOr<Server>)>, channels: Vec<(&str, Channel)>) -> AsyncAPI {
    AsyncAPI {
        asyncapi: "2.3.0".to_string(),
        info: Info {
            title: "Demo".to_string(),
            version: "1.0.0".to_string(),
            description: None,
        },
        servers: servers.into_iter().map(|(k, v)| (k.to_string(), v)).collect(),
        channels: channels.into_iter().map(|(k, v)| (k.to_string(), v)).collect(),
    }
}

fn nats_server() -> Server {
    Server {
        url: "nats://localhost:4222".to_string(),
        protocol: "nats".to_string(),
        protocol_version: None,
        description: None,
    }
}

#[test]
fn simplify_message_uses_the_declared_name() {
    let m = ReferenceOr::Item(message(
        Some("userSignedUp"),
        Some(object_schema(None, vec![("id", string_schema(None))])),
    ));
    let sm = simplify_message(&m, "parent_op").unwrap();
    assert_eq!(sm.unique_id, "usersignedup");
    let payload = sm.payload.expect("schema payload compiles");
    assert_eq!(payload.unique_id, "Usersignedup");
    assert_eq!(payload.model_type, "struct");
}

#[test]
fn simplify_message_synthesizes_a_name_from_the_parent() {
    let m = ReferenceOr::Item(message(None, Some(string_schema(None))));
    let sm = simplify_message(&m, "on_signup").unwrap();
    assert_eq!(sm.unique_id, "on_signupmessage");
    assert_eq!(sm.payload.unwrap().model_type, "primitive");
}

#[test]
fn simplify_message_without_payload_has_no_model() {
    let m = ReferenceOr::Item(message(Some("ping"), None));
    let sm = simplify_message(&m, "op").unwrap();
    assert_eq!(sm.unique_id, "");
    assert!(sm.payload.is_none());
}

#[test]
fn simplify_message_carries_the_message_through() {
    let m = ReferenceOr::Item(Message {
        name: Some("userSignedUp".to_string()),
        payload: Some(Payload::Schema(string_schema(Some("payload name")))),
        payload_schema: Some("{}".to_string()),
        content_type: Some("application/json".to_string()),
    });
    let sm = simplify_message(&m, "op").unwrap();
    assert_eq!(sm.original_message.name.as_deref(), Some("userSignedUp"));
    assert_eq!(sm.original_message.content_type.as_deref(), Some("application/json"));
    assert_eq!(sm.original_message.payload_schema.as_deref(), Some("{}"));
    assert!(sm.original_message.payload.is_some());
    assert_eq!(sm.payload_schema.as_deref(), Some("{}"));
}

#[test]
fn simplify_operation_carries_the_operation_through() {
    let op = operation(
        Some("on_signup"),
        Some(OperationMessageType::Single(ReferenceOr::Item(message(
            Some("userSignedUp"),
            None,
        )))),
    );
    let so = simplify_operation(&op, "user/signedup").unwrap();
    assert_eq!(so.original_operation.operation_id.as_deref(), Some("on_signup"));
    match &so.original_operation.message {
        Some(OperationMessageType::Single(ReferenceOr::Item(m))) => {
            assert_eq!(m.name.as_deref(), Some("userSignedUp"))
        }
        _ => panic!("expected the carried single message"),
    }
}

#[test]
fn message_references_must_be_resolved() {
    let m: ReferenceOr<Message> =
        ReferenceOr::Reference { reference: "#/components/messages/x".to_string() };
    assert!(simplify_message(&m, "op").is_err());
}

#[test]
fn simplify_operation_prefers_the_operation_id() {
    let op = operation(
        Some("on_signup"),
        Some(OperationMessageType::Single(ReferenceOr::Item(message(
            Some("userSignedUp"),
            Some(string_schema(None)),
        )))),
    );
    let so = simplify_operation(&op, "user/signedup").unwrap();
    assert_eq!(so.unique_id, "on_signup");
    assert_eq!(so.messages.len(), 1);
    assert_eq!(so.messages[0].unique_id, "usersignedup");
}

#[test]
fn simplify_operation_falls_back_to_the_channel_name() {
    let op = operation(None, None);
    let so = simplify_operation(&op, "user/signed Up").unwrap();
    assert_eq!(so.unique_id, "usersigned_up");
    assert!(so.messages.is_empty());
}

#[test]
fn channel_operations_are_split_by_direction() {
    let a = api(
        vec![("default", ReferenceOr::Item(nats_server()))],
        vec![
            (
                "one",
                Channel {
                    description: None,
                    subscribe: Some(operation(Some("sub_one"), None)),
                    publish: None,
                },
            ),
            (
                "two",
                Channel {
                    description: None,
                    subscribe: None,
                    publish: Some(operation(Some("pub_two"), None)),
                },
            ),
        ],
    );
    let pubs = get_publish_channels_operations(&a).unwrap();
    let subs = get_subscribe_channels_operations(&a).unwrap();
    assert_eq!(pubs.len(), 1);
    assert_eq!(pubs[0].0, "two");
    assert_eq!(pubs[0].1.unique_id, "pub_two");
    assert_eq!(subs.len(), 1);
    assert_eq!(subs[0].0, "one");
    assert_eq!(subs[0].1.unique_id, "sub_one");
}

#[test]
fn shared_payload_shapes_are_emitted_once() {
    // two operations carrying the same named payload schema
    let op = |opid: &str| {
        operation(
            Some(opid),
            Some(OperationMessageType::Single(ReferenceOr::Item(message(
                Some("userSignedUp"),
                Some(object_schema(Some("user"), vec![("id", string_schema(None))])),
            )))),
        )
    };
    let a = api(
        vec![("default", ReferenceOr::Item(nats_server()))],
        vec![
            ("one", Channel { description: None, subscribe: Some(op("s1")), publish: None }),
            ("two", Channel { description: None, subscribe: None, publish: Some(op("p2")) }),
        ],
    );
    let pubs = get_publish_channels_operations(&a).unwrap();
    let subs = get_subscribe_channels_operations(&a).unwrap();
    let model = extract_model_from_channels(&pubs, &subs);
    let ids: Vec<&str> = model.message_models.iter().map(|r| r.unique_id.as_str()).collect();
    // the shared struct and its field appear exactly once each
    assert_eq!(ids, vec!["User", "id"]);
}

#[test]
fn context_requires_a_server() {
    let a = api(vec![], vec![]);
    match create_template_context(&a) {
        Err(TemplateContextError::MissingServer) => {}
        _ => panic!("expected the missing-server error"),
    }
}

#[test]
fn context_rejects_a_server_reference() {
    let a = api(
        vec![("default", ReferenceOr::Reference { reference: "#/x".to_string() })],
        vec![],
    );
    match create_template_context(&a) {
        Err(TemplateContextError::UnresolvedServerReference) => {}
        _ => panic!("expected the unresolved-server error"),
    }
}

#[test]
fn context_bundles_server_channels_and_model() {
    let op = operation(
        Some("on_signup"),
        Some(OperationMessageType::Single(ReferenceOr::Item(message(
            Some("userSignedUp"),
            Some(object_schema(Some("user"), vec![("id", string_schema(None))])),
        )))),
    );
    let a = api(
        vec![("default", ReferenceOr::Item(nats_server()))],
        vec![(
            "user/signedup",
            Channel { description: None, subscribe: Some(op), publish: None },
        )],
    );
    let ctx = create_template_context(&a).unwrap();
    assert_eq!(ctx.title, "Demo");
    assert_eq!(ctx.server.url, "nats://localhost:4222");
    assert_eq!(ctx.publish_channels.len(), 0);
    assert_eq!(ctx.subscribe_channels.len(), 1);
    assert_eq!(ctx.model.message_models.len(), 2);
    let again = spec_to_pubsub_template_type(&a).unwrap();
    assert_eq!(again.model.message_models.len(), 2);
}

#[test]
fn multi_payload_enum_is_skipped_for_a_single_payload() {
    assert!(build_multi_payload_enum(&vec!["Only".to_string()], "Payloads").is_none());
}

#[test]
fn multi_payload_enum_lists_every_payload() {
    let text = build_multi_payload_enum(
        &vec!["First one".to_string(), "second".to_string()],
        "payload enum",
    )
    .unwrap();
    assert_eq!(
        text,
        "#[derive(Serialize, Deserialize, Debug)]\n#[serde(untagged)]\npub enum PayloadEnum {\nFirstOne(FirstOne),\nSecond(Second),\n\n}\n"
    );
}

#[test]
fn multi_payload_message_wraps_the_enum() {
    assert_eq!(
        build_multi_payload_message("user signed up", "payload enum"),
        "#[derive(Serialize, Deserialize, Debug)]\npub struct UserSignedUp {\npayload: PayloadEnum,\n}\n"
    );
}

#[test]
fn multi_message_enum_is_skipped_for_a_single_message() {
    let m = simplify_message(
        &ReferenceOr::Item(message(Some("only"), Some(string_schema(None)))),
        "op",
    )
    .unwrap();
    assert!(build_multi_message_enum(&vec![m], "op").is_none());
}

#[test]
fn generator_file_names_are_sanitized() {
    assert_eq!(model_file_name("User Signed Up"), "user_signed_up.rs");
    assert_eq!(schema_file_name("User Signed Up"), "user_signed_up_payload_schema.json");
}

#[test]
fn model_imports_skip_primitives() {
    let op = operation(
        Some("op"),
        Some(OperationMessageType::Single(ReferenceOr::Item(message(
            Some("m"),
            Some(object_schema(Some("user"), vec![("id", string_schema(None))])),
        )))),
    );
    let a = api(
        vec![("default", ReferenceOr::Item(nats_server()))],
        vec![("c", Channel { description: None, subscribe: Some(op), publish: None })],
    );
    let ctx = create_template_context(&a).unwrap();
    let imports = generate_models_imports(&ctx.model);
    assert_eq!(imports, "pub mod user; \n pub use user::*; \n\n");
}

#[test]
fn key_exists_walks_nested_objects() {
    let doc = DocNode::Obj(vec![(
        "a".to_string(),
        DocNode::Obj(vec![("b".to_string(), DocNode::Bool(true))]),
    )]);
    assert!(key_exists(&doc, &vec!["a".to_string(), "b".to_string()]));
    assert!(key_exists(&doc, &vec!["a".to_string()]));
    assert!(key_exists(&doc, &vec![]));
    assert!(!key_exists(&doc, &vec!["a".to_string(), "missing".to_string()]));
    assert!(!key_exists(&doc, &vec!["a".to_string(), "b".to_string(), "c".to_string()]));
}

#[test]
fn message_reference_paths_are_parsed() {
    assert_eq!(
        parse_message_reference_path("#/components/messages/userSignedUp"),
        Some("userSignedUp".to_string())
    );
    assert_eq!(parse_message_reference_path("#/components/schemas/User"), None);
    assert_eq!(parse_message_reference_path("plain"), None);
}
