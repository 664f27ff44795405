use asyncapi_gen::doc_tree::DocNode;
use asyncapi_gen::errors::PreprocessError;
use asyncapi_gen::json_text::to_json_string;
use asyncapi_gen::name_fill::fill_message_and_payload_names;
use asyncapi_gen::payload::duplicate_payload_schemas;
use asyncapi_gen::preprocessor::{parse_spec_version, preprocess_schema};
use asyncapi_gen::resolve::{resolve_json_path, resolve_refs};
use asyncapi_gen::sanitize::sanitize_operation_ids_and_check_duplicate;

fn obj(entries: Vec<(&str, DocNode)>) -> DocNode {
    DocNode::Obj(entries.into_iter().map(|(k, v)| (k.to_string(), v)).collect())
}

fn s(v: &str) -> DocNode {
    DocNode::Str(v.to_string())
}

#[test]
fn resolves_refs() {
    // a channel message referring to a component message
    let root = obj(vec![
        (
            "channels",
            obj(vec![(
                "user/signedup",
                obj(vec![("message", obj(vec![("$ref", s("#/components/messages/userSignedUp"))]))]),
            )]),
        ),
        (
            "components",
            obj(vec![("messages", obj(vec![("userSignedUp", obj(vec![("name", s("userSignedUp"))]))]))]),
        ),
    ]);
    let resolved = resolve_refs(&root, &root).expect("resolution succeeds");
    let text = to_json_string(&resolved);
    assert_eq!(
        text,
        "{\"channels\":{\"user/signedup\":{\"message\":{\"name\":\"userSignedUp\"}}},\
         \"components\":{\"messages\":{\"userSignedUp\":{\"name\":\"userSignedUp\"}}}}"
    );
}

#[test]
fn resolution_is_idempotent_on_resolved_documents() {
    let doc = obj(vec![
        ("a", obj(vec![("x", DocNode::Bool(true))])),
        ("b", DocNode::Arr(vec![DocNode::Null, s("y")])),
    ]);
    let before = to_json_string(&doc);
    let once = resolve_refs(&doc, &doc).expect("no refs, must succeed");
    assert_eq!(to_json_string(&once), before);
    let twice = resolve_refs(&once, &once).expect("still no refs");
    assert_eq!(to_json_string(&twice), before);
}

#[test]
fn missing_reference_path_is_a_fatal_error() {
    let root = obj(vec![("a", obj(vec![("$ref", s("#/does/not/exist"))]))]);
    match resolve_refs(&root, &root) {
        Err(PreprocessError::PathNotFound(p)) => assert_eq!(p, "#/does/not/exist"),
        _ => panic!("expected a path-not-found error"),
    }
}

#[test]
fn cyclic_references_are_rejected() {
    let root = obj(vec![("a", obj(vec![("$ref", s("#/a"))]))]);
    match resolve_refs(&root, &root) {
        Err(PreprocessError::DepthExceeded) => {}
        _ => panic!("expected the recursion bound to trip"),
    }
}

#[test]
fn non_string_reference_is_rejected() {
    let root = obj(vec![("a", obj(vec![("$ref", DocNode::Bool(true))]))]);
    match resolve_refs(&root, &root) {
        Err(PreprocessError::RefNotString) => {}
        _ => panic!("expected a non-string reference error"),
    }
}

#[test]
fn resolve_json_path_walks_objects() {
    let root = obj(vec![(
        "components",
        obj(vec![("schemas", obj(vec![("Cat", s("cat-schema"))]))]),
    )]);
    let found = resolve_json_path(&root, "components/schemas/Cat").expect("path exists");
    assert_eq!(to_json_string(found), "\"cat-schema\"");
    assert!(resolve_json_path(&root, "components/schemas/Dog").is_none());
}

#[test]
fn fills_missing_message_names_from_map_keys() {
    let root = obj(vec![(
        "components",
        obj(vec![(
            "messages",
            obj(vec![("userSignedUp", obj(vec![("payload", obj(vec![]))]))]),
        )]),
    )]);
    let filled = fill_message_and_payload_names(&root, false, false, None);
    let text = to_json_string(&filled);
    assert_eq!(
        text,
        "{\"components\":{\"messages\":{\"userSignedUp\":{\"payload\":{},\"name\":\"userSignedUp\"}}}}"
    );
}

#[test]
fn name_filling_is_idempotent() {
    let root = obj(vec![(
        "components",
        obj(vec![(
            "messages",
            obj(vec![("userSignedUp", obj(vec![("payload", obj(vec![]))]))]),
        )]),
    )]);
    let once = fill_message_and_payload_names(&root, false, false, None);
    let twice = fill_message_and_payload_names(&once, false, false, None);
    assert_eq!(to_json_string(&once), to_json_string(&twice));
}

#[test]
fn keeps_explicit_message_names() {
    let root = obj(vec![(
        "components",
        obj(vec![("messages", obj(vec![("key", obj(vec![("name", s("explicit"))]))]))]),
    )]);
    let filled = fill_message_and_payload_names(&root, false, false, None);
    assert_eq!(
        to_json_string(&filled),
        "{\"components\":{\"messages\":{\"key\":{\"name\":\"explicit\"}}}}"
    );
}

#[test]
fn duplicates_payload_objects_as_schema_text() {
    let root = obj(vec![("payload", obj(vec![("type", s("object"))]))]);
    let dup = duplicate_payload_schemas(&root);
    assert_eq!(
        to_json_string(&dup),
        "{\"schema\":\"{\\\"type\\\":\\\"object\\\"}\",\"payload\":{\"type\":\"object\"}}"
    );
}

#[test]
fn sanitizes_operation_ids_in_place() {
    let root = obj(vec![("operationId", s("Get User"))]);
    let mut seen: Vec<String> = Vec::new();
    let out = sanitize_operation_ids_and_check_duplicate(&root, &mut seen).expect("one id is fine");
    assert_eq!(to_json_string(&out), "{\"operationId\":\"get_user\"}");
    assert_eq!(seen, vec!["get_user".to_string()]);
}

#[test]
fn duplicate_operation_ids_abort_generation() {
    let root = obj(vec![
        ("a", obj(vec![("operationId", s("Get User"))])),
        ("b", obj(vec![("operationId", s("get user"))])),
    ]);
    let mut seen: Vec<String> = Vec::new();
    match sanitize_operation_ids_and_check_duplicate(&root, &mut seen) {
        Err(PreprocessError::DuplicateOperationId(id)) => assert_eq!(id, "get_user"),
        _ => panic!("expected a duplicate-identifier error"),
    }
}

#[test]
fn duplicate_detection_is_order_independent() {
    for (first, second) in [("Get User", "get user"), ("get user", "Get User")] {
        let root = obj(vec![
            ("a", obj(vec![("operationId", s(first))])),
            ("b", obj(vec![("operationId", s(second))])),
        ]);
        let mut seen: Vec<String> = Vec::new();
        assert!(sanitize_operation_ids_and_check_duplicate(&root, &mut seen).is_err());
    }
}

#[test]
fn non_string_operation_id_is_rejected() {
    let root = obj(vec![("operationId", DocNode::Bool(true))]);
    let mut seen: Vec<String> = Vec::new();
    match sanitize_operation_ids_and_check_duplicate(&root, &mut seen) {
        Err(PreprocessError::OperationIdNotString) => {}
        _ => panic!("expected a non-string operationId error"),
    }
}

#[test]
fn preprocess_pipeline_runs_all_stages() {
    let root = obj(vec![
        (
            "channels",
            obj(vec![(
                "user/signedup",
                obj(vec![(
                    "subscribe",
                    obj(vec![
                        ("operationId", s("On Signup")),
                        ("message", obj(vec![("$ref", s("#/components/messages/userSignedUp"))])),
                    ]),
                )]),
            )]),
        ),
        (
            "components",
            obj(vec![(
                "messages",
                obj(vec![("userSignedUp", obj(vec![("payload", obj(vec![("type", s("object"))]))]))]),
            )]),
        ),
    ]);
    let out = preprocess_schema(&root).expect("pipeline succeeds");
    let text = to_json_string(&out);
    // the operation id is sanitized
    assert!(text.contains("\"operationId\":\"on_signup\""));
    // the message acquired its name from the map key
    assert!(text.contains("\"name\":\"userSignedUp\""));
    // the payload schema was copied out as text
    assert!(text.contains("\"schema\":\"{"));
}

#[test]
fn json_text_escapes_strings() {
    let doc = obj(vec![("k\"ey", s("a\\b\nc\td\r\u{8}\u{c}\u{1f}"))]);
    assert_eq!(
        to_json_string(&doc),
        "{\"k\\\"ey\":\"a\\\\b\\nc\\td\\r\\b\\f\\u001f\"}"
    );
}

#[test]
fn json_text_renders_all_value_kinds() {
    let doc = DocNode::Arr(vec![
        DocNode::Null,
        DocNode::Bool(true),
        DocNode::Bool(false),
        DocNode::Num("3.25".to_string()),
        s("x"),
        DocNode::Arr(vec![]),
        obj(vec![]),
    ]);
    assert_eq!(to_json_string(&doc), "[null,true,false,3.25,\"x\",[],{}]");
}

#[test]
fn reads_the_declared_spec_version() {
    let root = obj(vec![("asyncapi", s("2.3.0"))]);
    assert_eq!(parse_spec_version(&root), Some("2.3.0".to_string()));
    assert_eq!(parse_spec_version(&obj(vec![])), None);
    assert_eq!(parse_spec_version(&s("2.3.0")), None);
}
