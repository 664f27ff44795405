//! Generator core for message-based API descriptions: resolves document
//! references, fills in message names, sanitizes operation identifiers, and
//! compiles payload schemas into target-language type representations.

pub mod asyncapi_model;
pub mod channel_binding;
pub mod doc_tree;
pub mod errors;
pub mod generator;
pub mod ident;
pub mod json_schema_parser;
pub mod json_text;
pub mod message_binding;
pub mod name_fill;
pub mod operation_binding;
pub mod payload;
pub mod preprocessor;
pub mod reference;
pub mod resolve;
pub mod rust_schema_representation;
pub mod sanitize;
pub mod schema;
pub mod schema_parser;
pub mod schema_parser_error;
pub mod server_binding;
pub mod template_context;
pub mod template_functions;
pub mod template_model;
pub mod variant_or;

pub use ident::validate_identifier_string;
