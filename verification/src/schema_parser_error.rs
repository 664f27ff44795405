//! Failure value of the schema-to-type compiler.

use vstd::prelude::*;

verus! {

/// Mathematical view of a compiler failure: message and offending property.
pub enum CompileFailure {
    GenericError(Seq<char>, Option<Seq<char>>),
}

/// A compiler failure: a message and, where known, the property it concerns.
#[derive(Debug)]
pub enum SchemaParserError {
    GenericError(String, Option<String>),
}

impl View for SchemaParserError {
    type V = CompileFailure;

    open spec fn view(&self) -> CompileFailure {
        match self {
            SchemaParserError::GenericError(msg, prop) => CompileFailure::GenericError(
                msg@,
                match prop {
                    Some(p) => Some(p@),
                    None => None,
                },
            ),
        }
    }
}

/// The rendered description of a compiler failure.
pub open spec fn spec_compile_message(f: CompileFailure) -> Seq<char> {
    match f {
        CompileFailure::GenericError(msg, prop) => match prop {
            Some(p) => "Error while parsing schema, inside property: "@ + p + "; Message: "@
                + msg,
            None => "Error while parsing schema: "@ + msg,
        },
    }
}

impl SchemaParserError {
    /// A human-readable description of the failure: a fixed phrase, the
    /// offending property where one is known, and the carried message.
    pub fn message(&self) -> (r: String)
        ensures
            r@ == spec_compile_message(self@),
    {
        match self {
            SchemaParserError::GenericError(msg, prop) => {
                match prop {
                    Some(p) => {
                        let mut m = String::from_str(
                            "Error while parsing schema, inside property: ",
                        );
                        m.append(p.as_str());
                        m.append("; Message: ");
                        m.append(msg.as_str());
                        m
                    },
                    None => {
                        let mut m = String::from_str("Error while parsing schema: ");
                        m.append(msg.as_str());
                        m
                    },
                }
            },
        }
    }
}

} // verus!
