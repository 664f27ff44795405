use asyncapi_gen::ident::validate_identifier_string;
use asyncapi_gen::template_functions::{camel_to_snake_case, to_lower};

#[test]
fn snake_case_basic() {
    assert_eq!(validate_identifier_string("Get User", false), "get_user");
    assert_eq!(validate_identifier_string("Get User", true), "GetUser");
}

#[test]
fn snake_case_strips_invalid_characters() {
    assert_eq!(validate_identifier_string("user-signed.up!", false), "usersignedup");
    assert_eq!(validate_identifier_string("a+b=c", false), "abc");
}

#[test]
fn snake_case_collapses_whitespace_runs() {
    assert_eq!(validate_identifier_string("  many   words here ", false), "many_words_here");
    assert_eq!(validate_identifier_string("  many   words here ", true), "ManyWordsHere");
}

#[test]
fn sanitize_empty_and_symbol_only_strings() {
    assert_eq!(validate_identifier_string("", false), "");
    assert_eq!(validate_identifier_string("!!!", false), "");
    assert_eq!(validate_identifier_string("!!!", true), "");
}

#[test]
fn sanitize_keeps_underscores_and_digits() {
    assert_eq!(validate_identifier_string("user_42 signed", false), "user_42_signed");
    assert_eq!(validate_identifier_string("user_42 signed", true), "User_42Signed");
}

#[test]
fn sanitize_is_idempotent_on_examples() {
    for s in ["Get User", "userSignedUp", "a!b c", "", "  x  y  ", "MiXeD CaSe 9"] {
        for camel in [false, true] {
            let once = validate_identifier_string(s, camel);
            let twice = validate_identifier_string(&once, camel);
            assert_eq!(once, twice);
        }
    }
}

#[test]
fn sanitize_output_charset_is_identifier_only() {
    for s in ["Get User!", "a-b-c", "x\ty\nz", "émoji ok?"] {
        for camel in [false, true] {
            let out = validate_identifier_string(s, camel);
            assert!(out.chars().all(|c| c.is_ascii_alphanumeric() || c == '_'));
        }
    }
}

#[test]
fn camel_to_snake_case_examples() {
    assert_eq!(camel_to_snake_case("camelCase"), "camel_case");
    assert_eq!(camel_to_snake_case("CamelCase"), "camel_case");
    assert_eq!(camel_to_snake_case("already_snake"), "already_snake");
    assert_eq!(camel_to_snake_case("HTTPServer"), "httpserver");
}

#[test]
fn to_lower_examples() {
    assert_eq!(to_lower("MiXeD"), "mixed");
    assert_eq!(to_lower("lower"), "lower");
    assert_eq!(to_lower("A_B9"), "a_b9");
}
