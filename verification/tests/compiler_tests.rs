use asyncapi_gen::json_schema_parser::{format_to_rust_type, parse_json_schema_to_rust_type};
use asyncapi_gen::reference::ReferenceOr;
use asyncapi_gen::rust_schema_representation::RustSchemaRepresentation;
use asyncapi_gen::schema::{ArrayType, IntegerFormat, IntegerType, NumberFormat, NumberType,
    ObjectType, Schema, SchemaData, SchemaKind, StringType, Type};
use asyncapi_gen::schema_parser_error::SchemaParserError;
use asyncapi_gen::variant_or::VariantOrUnknownOrEmpty;

fn schema(kind: SchemaKind) -> Schema {
    Schema {
        schema_data: SchemaData { name: None, title: None, description: None },
        schema_kind: kind,
    }
}

fn string_schema() -> Schema {
    schema(SchemaKind::Type(Type::String(StringType {
        format: VariantOrUnknownOrEmpty::Empty,
        pattern: None,
        enumeration: vec![],
        min_length: None,
        max_length: None,
    })))
}

fn integer_schema(format: VariantOrUnknownOrEmpty<IntegerFormat>) -> Schema {
    schema(SchemaKind::Type(Type::Integer(IntegerType {
        format,
        multiple_of: None,
        exclusive_minimum: None,
        exclusive_maximum: None,
        minimum: None,
        maximum: None,
        enumeration: vec![],
    })))
}

fn object_schema(props: Vec<(&str, Schema)>) -> Schema {
    schema(SchemaKind::Type(Type::Object(ObjectType {
        properties: props
            .into_iter()
            .map(|(k, v)| (k.to_string(), ReferenceOr::Item(v)))
            .collect(),
        required: vec![],
    })))
}

#[test]
fn format_mapping_is_exact() {
    let cases: Vec<(Type, &str)> = vec![
        (
            Type::Integer(IntegerType {
                format: VariantOrUnknownOrEmpty::Item(IntegerFormat::Int32),
                multiple_of: None,
                exclusive_minimum: None,
                exclusive_maximum: None,
                minimum: None,
                maximum: None,
                enumeration: vec![],
            }),
            "i32",
        ),
        (
            Type::Integer(IntegerType {
                format: VariantOrUnknownOrEmpty::Item(IntegerFormat::Int64),
                multiple_of: None,
                exclusive_minimum: None,
                exclusive_maximum: None,
                minimum: None,
                maximum: None,
                enumeration: vec![],
            }),
            "i64",
        ),
        (
            Type::Number(NumberType { format: VariantOrUnknownOrEmpty::Item(NumberFormat::Float) }),
            "f32",
        ),
        (
            Type::Number(NumberType { format: VariantOrUnknownOrEmpty::Item(NumberFormat::Double) }),
            "f64",
        ),
        (
            Type::Number(NumberType { format: VariantOrUnknownOrEmpty::Empty }),
            "f64",
        ),
        (Type::Boolean, "bool"),
    ];
    for (t, expected) in cases {
        assert_eq!(format_to_rust_type(&t).unwrap(), expected);
    }
    assert_eq!(
        format_to_rust_type(&Type::Integer(IntegerType {
            format: VariantOrUnknownOrEmpty::Unknown("whatever".to_string()),
            multiple_of: None,
            exclusive_minimum: None,
            exclusive_maximum: None,
            minimum: None,
            maximum: None,
            enumeration: vec![],
        }))
        .unwrap(),
        "i64"
    );
}

#[test]
fn user_object_compiles_to_one_struct() {
    // {"type":"object","properties":{"id":{"type":"integer","format":"int64"},
    //  "name":{"type":"string"}}} named "User"
    let user = object_schema(vec![
        ("id", integer_schema(VariantOrUnknownOrEmpty::Item(IntegerFormat::Int64))),
        ("name", string_schema()),
    ]);
    let rep = parse_json_schema_to_rust_type(&user, "User").unwrap();
    assert_eq!(rep.unique_id, "User");
    assert_eq!(rep.struct_reference, "User");
    assert_eq!(rep.model_type, "struct");
    assert_eq!(
        rep.model_definition,
        "#[derive(Clone, Debug, Deserialize, Serialize)]\npub struct User {\npub id: i64,\npub name: String\n}\n"
    );
    assert_eq!(rep.related_models.len(), 2);
    assert!(rep.related_models.iter().all(|r| r.model_type == "primitive"));
    assert!(rep.related_models.iter().all(|r| r.model_definition.is_empty()));
    let id = &rep.related_models[0];
    assert_eq!(id.unique_id, "id");
    assert_eq!(id.struct_reference, "i64");
    let name = &rep.related_models[1];
    assert_eq!(name.unique_id, "name");
    assert_eq!(name.struct_reference, "String");
}

#[test]
fn one_of_two_objects_compiles_to_a_tagged_union() {
    let cat = object_schema(vec![("meow", string_schema())]);
    let dog = object_schema(vec![("bark", string_schema())]);
    let pet = schema(SchemaKind::OneOf(vec![ReferenceOr::Item(cat), ReferenceOr::Item(dog)]));
    let rep = parse_json_schema_to_rust_type(&pet, "Pet").unwrap();
    assert_eq!(rep.unique_id, "PetEnum");
    assert_eq!(rep.model_type, "enum");
    assert_eq!(rep.related_models.len(), 2);
    assert_eq!(rep.related_models[0].unique_id, "PetVariant1");
    assert_eq!(rep.related_models[0].model_type, "struct");
    assert_eq!(rep.related_models[1].unique_id, "PetVariant2");
    assert_eq!(rep.related_models[1].model_type, "struct");
    assert_eq!(
        rep.model_definition,
        "#[derive(Serialize, Deserialize, Debug)]\n#[serde(untagged)]\npub enum PetEnum {\nPetVariant1(PetVariant1),\nPetVariant2(PetVariant2),\n}\n"
    );
}

#[test]
fn single_alternative_composites_collapse() {
    let member = object_schema(vec![("x", string_schema())]);
    let direct = parse_json_schema_to_rust_type(&member, "Only").unwrap();
    for wrap in [
        schema(SchemaKind::OneOf(vec![ReferenceOr::Item(object_schema(vec![(
            "x",
            string_schema(),
        )]))])),
        schema(SchemaKind::AnyOf(vec![ReferenceOr::Item(object_schema(vec![(
            "x",
            string_schema(),
        )]))])),
        schema(SchemaKind::AllOf(vec![ReferenceOr::Item(object_schema(vec![(
            "x",
            string_schema(),
        )]))])),
    ] {
        let collapsed = parse_json_schema_to_rust_type(&wrap, "Only").unwrap();
        assert_eq!(collapsed.unique_id, direct.unique_id);
        assert_eq!(collapsed.struct_reference, direct.struct_reference);
        assert_eq!(collapsed.model_definition, direct.model_definition);
        assert_eq!(collapsed.model_type, direct.model_type);
        assert_eq!(collapsed.related_models.len(), direct.related_models.len());
    }
}

#[test]
fn compilation_is_structural_across_names() {
    let shape = object_schema(vec![
        ("id", integer_schema(VariantOrUnknownOrEmpty::Empty)),
        ("tag", string_schema()),
    ]);
    let a = parse_json_schema_to_rust_type(&shape, "First").unwrap();
    let b = parse_json_schema_to_rust_type(&shape, "Second").unwrap();
    assert_ne!(a.unique_id, b.unique_id);
    assert_eq!(a.model_type, b.model_type);
    assert_eq!(a.related_models.len(), b.related_models.len());
    for (x, y) in a.related_models.iter().zip(b.related_models.iter()) {
        assert_eq!(x.model_type, y.model_type);
        assert_eq!(x.related_models.len(), y.related_models.len());
    }
}

#[test]
fn arrays_compile_to_vectors_of_their_item() {
    let arr = schema(SchemaKind::Type(Type::Array(ArrayType {
        items: Some(Box::new(ReferenceOr::Item(integer_schema(VariantOrUnknownOrEmpty::Item(
            IntegerFormat::Int32,
        ))))),
        min_items: None,
        max_items: None,
        unique_items: false,
    })));
    let rep = parse_json_schema_to_rust_type(&arr, "Scores").unwrap();
    assert_eq!(rep.unique_id, "Scores");
    assert_eq!(rep.struct_reference, "Vec<i32>");
    assert_eq!(rep.model_type, "array");
    assert_eq!(rep.related_models.len(), 1);
    assert_eq!(rep.related_models[0].struct_reference, "i32");
}

#[test]
fn array_without_items_is_an_error() {
    let arr = schema(SchemaKind::Type(Type::Array(ArrayType {
        items: None,
        min_items: None,
        max_items: None,
        unique_items: false,
    })));
    match parse_json_schema_to_rust_type(&arr, "Broken") {
        Err(SchemaParserError::GenericError(msg, prop)) => {
            assert_eq!(msg, "Array type without item type");
            assert!(prop.is_none());
        }
        _ => panic!("expected the missing-items error"),
    }
}

#[test]
fn unconstrained_schema_is_an_error() {
    match parse_json_schema_to_rust_type(&schema(SchemaKind::Any), "Mystery") {
        Err(SchemaParserError::GenericError(msg, prop)) => {
            assert_eq!(msg, "Unsupported schema kind");
            assert_eq!(prop.as_deref(), Some("Mystery"));
        }
        _ => panic!("expected the unsupported-schema error"),
    }
}

#[test]
fn unresolved_property_reference_is_an_error() {
    let obj = schema(SchemaKind::Type(Type::Object(ObjectType {
        properties: vec![(
            "other".to_string(),
            ReferenceOr::Reference { reference: "#/components/schemas/Other".to_string() },
        )],
        required: vec![],
    })));
    match parse_json_schema_to_rust_type(&obj, "Holder") {
        Err(SchemaParserError::GenericError(msg, prop)) => {
            assert_eq!(msg, "References are not supported yet");
            assert_eq!(prop.as_deref(), Some("Holder"));
        }
        _ => panic!("expected the reference error"),
    }
}

#[test]
fn unresolved_composite_member_is_an_error() {
    let one = schema(SchemaKind::OneOf(vec![
        ReferenceOr::Reference { reference: "#/components/schemas/Cat".to_string() },
        ReferenceOr::Reference { reference: "#/components/schemas/Dog".to_string() },
    ]));
    match parse_json_schema_to_rust_type(&one, "Pet") {
        Err(SchemaParserError::GenericError(msg, _)) => {
            assert_eq!(msg, "Refs should be resolved by now");
        }
        _ => panic!("expected the unresolved-member error"),
    }
}

#[test]
fn primitives_fall_back_to_a_default_name() {
    let rep = parse_json_schema_to_rust_type(&string_schema(), "").unwrap();
    assert_eq!(rep.unique_id, "value_with_no_name");
    assert_eq!(rep.struct_reference, "String");
    assert_eq!(rep.model_type, "primitive");
}

#[test]
fn related_models_flatten_depth_first() {
    let nested = object_schema(vec![(
        "inner",
        object_schema(vec![("leaf", string_schema())]),
    )]);
    let rep = parse_json_schema_to_rust_type(&nested, "Outer").unwrap();
    let flat: Vec<RustSchemaRepresentation> = rep.get_related_models_recursive();
    let ids: Vec<&str> = flat.iter().map(|r| r.unique_id.as_str()).collect();
    assert_eq!(ids, vec!["Outer", "Inner", "leaf"]);
}
