//! Failure values of the preprocessing stages.  Every failure is fatal for
//! the current run; callers report it and abort.

use vstd::prelude::*;

verus! {

/// Mathematical view of a preprocessing failure.
pub enum PreprocessFailure {
    /// A `$ref` pointer did not resolve to any subtree; carries the pointer.
    PathNotFound(Seq<char>),
    /// A `$ref` member whose value is not a string.
    RefNotString,
    /// Reference substitution exceeded the recursion bound: the reference
    /// graph is cyclic or too deep.
    DepthExceeded,
    /// An `operationId` member whose value is not a string.
    OperationIdNotString,
    /// Two operations normalized to the same identifier; carries it.
    DuplicateOperationId(Seq<char>),
}

/// A preprocessing failure as reported to callers.
#[derive(Debug)]
pub enum PreprocessError {
    PathNotFound(String),
    RefNotString,
    DepthExceeded,
    OperationIdNotString,
    DuplicateOperationId(String),
}

impl View for PreprocessError {
    type V = PreprocessFailure;

    open spec fn view(&self) -> PreprocessFailure {
        match self {
            PreprocessError::PathNotFound(p) => PreprocessFailure::PathNotFound(p@),
            PreprocessError::RefNotString => PreprocessFailure::RefNotString,
            PreprocessError::DepthExceeded => PreprocessFailure::DepthExceeded,
            PreprocessError::OperationIdNotString => PreprocessFailure::OperationIdNotString,
            PreprocessError::DuplicateOperationId(s) => PreprocessFailure::DuplicateOperationId(
                s@,
            ),
        }
    }
}

/// The rendered description of a preprocessing failure.
pub open spec fn spec_preprocess_message(f: PreprocessFailure) -> Seq<char> {
    match f {
        PreprocessFailure::PathNotFound(p) => "reference path not found: "@ + p,
        PreprocessFailure::RefNotString => "$ref value is not a string"@,
        PreprocessFailure::DepthExceeded => "reference resolution exceeded the recursion bound"@,
        PreprocessFailure::OperationIdNotString => "operationId value is not a string"@,
        PreprocessFailure::DuplicateOperationId(id) => "duplicate operationId found: "@ + id,
    }
}

impl PreprocessError {
    /// A human-readable description of the failure: a fixed phrase, plus the
    /// offending pointer or identifier where the failure carries one.
    pub fn message(&self) -> (r: String)
        ensures
            r@ == spec_preprocess_message(self@),
    {
        match self {
            PreprocessError::PathNotFound(p) => {
                let mut m = String::from_str("reference path not found: ");
                m.append(p.as_str());
                m
            },
            PreprocessError::RefNotString => String::from_str("$ref value is not a string"),
            PreprocessError::DepthExceeded => String::from_str(
                "reference resolution exceeded the recursion bound",
            ),
            PreprocessError::OperationIdNotString => String::from_str(
                "operationId value is not a string",
            ),
            PreprocessError::DuplicateOperationId(id) => {
                let mut m = String::from_str("duplicate operationId found: ");
                m.append(id.as_str());
                m
            },
        }
    }
}

} // verus!
