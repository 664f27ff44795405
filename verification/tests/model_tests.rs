use asyncapi_gen::errors::PreprocessError;
use asyncapi_gen::json_schema_parser::parse_json_schema_to_rust_type;
use asyncapi_gen::reference::ReferenceOr;
use asyncapi_gen::schema::{Schema, SchemaData, SchemaKind, StringType, Type};
use asyncapi_gen::schema_parser_error::SchemaParserError;
use asyncapi_gen::variant_or::{VariantOrUnknown, VariantOrUnknownOrEmpty};

fn string_schema() -> Schema {
    Schema {
        schema_data: SchemaData { name: None, title: None, description: None },
        schema_kind: SchemaKind::Type(Type::String(StringType {
            format: VariantOrUnknownOrEmpty::Empty,
            pattern: None,
            enumeration: vec![],
            min_length: None,
            max_length: None,
        })),
    }
}

#[test]
fn mod_can_parse_schema() {
    // the newer dispatcher over a minimal schema
    let rep = parse_json_schema_to_rust_type(&string_schema(), "note").unwrap();
    assert_eq!(rep.unique_id, "note");
    assert_eq!(rep.struct_reference, "String");
    assert_eq!(rep.model_type, "primitive");
    assert!(rep.get_related_models_recursive().len() == 1);
}

#[test]
fn reference_constructors_round_trip() {
    let r: ReferenceOr<u64> = ReferenceOr::ref_("#/components/schemas/User");
    match r {
        ReferenceOr::Reference { reference } => {
            assert_eq!(reference, "#/components/schemas/User")
        }
        _ => panic!("expected a reference"),
    }
    let boxed: ReferenceOr<Box<u64>> = ReferenceOr::boxed_item(7u64);
    match boxed.unbox() {
        ReferenceOr::Item(v) => assert_eq!(v, 7),
        _ => panic!("expected an item"),
    }
}

#[test]
fn variant_or_empty_knows_when_it_is_empty() {
    let empty: VariantOrUnknownOrEmpty<u64> = VariantOrUnknownOrEmpty::Empty;
    assert!(empty.is_empty());
    let known: VariantOrUnknownOrEmpty<u64> = VariantOrUnknownOrEmpty::Item(3);
    assert!(!known.is_empty());
    let odd: VariantOrUnknownOrEmpty<u64> = VariantOrUnknownOrEmpty::Unknown("x".to_string());
    assert!(!odd.is_empty());
    let fallback: VariantOrUnknownOrEmpty<u64> = Default::default();
    assert!(fallback.is_empty());
    let u: VariantOrUnknown<u64> = VariantOrUnknown::Unknown("y".to_string());
    match u {
        VariantOrUnknown::Unknown(s) => assert_eq!(s, "y"),
        _ => panic!("expected the unknown variant"),
    }
}

#[test]
fn error_messages_name_the_failure() {
    let m = PreprocessError::DuplicateOperationId("get_user".to_string()).message();
    assert_eq!(m, "duplicate operationId found: get_user");
    let m = PreprocessError::PathNotFound("#/x".to_string()).message();
    assert_eq!(m, "reference path not found: #/x");
    let m = SchemaParserError::GenericError("Array type without item type".to_string(), None)
        .message();
    assert_eq!(m, "Error while parsing schema: Array type without item type");
    let m = SchemaParserError::GenericError(
        "References are not supported yet".to_string(),
        Some("User".to_string()),
    )
    .message();
    assert_eq!(
        m,
        "Error while parsing schema, inside property: User; Message: References are not supported yet"
    );
}
