//! The preprocessing pipeline: name filling, reference resolution,
//! payload-schema duplication, and operation-identifier sanitization with
//! duplicate detection, in that order.  Each stage is a pure transform of the
//! document tree; the first failure aborts the run.

use vstd::prelude::*;

use crate::doc_tree::{obj_get, spec_obj_get, Doc, DocNode};
use crate::errors::{PreprocessError, PreprocessFailure};
use crate::name_fill::{fill_message_and_payload_names, spec_fill};
use crate::payload::{duplicate_payload_schemas, spec_dup_payloads};
use crate::resolve::{resolve_refs, spec_resolve_refs};
use crate::sanitize::{sanitize_operation_ids_and_check_duplicate, spec_sanitize};

verus! {

/// What preprocessing yields: the name-filled, reference-resolved,
/// payload-duplicated, identifier-sanitized document, or its first failure.
pub open spec fn spec_preprocess(d: Doc) -> Result<Doc, PreprocessFailure> {
    let filled = spec_fill(d, false, false, None);
    match spec_resolve_refs(filled, filled) {
        Ok(resolved) => {
            let dup = spec_dup_payloads(resolved);
            match spec_sanitize(dup, Seq::empty()) {
                Ok(res) => Ok(res.0),
                Err(e) => Err(e),
            }
        },
        Err(e) => Err(e),
    }
}

/// The declared specification version of a document: the string under its
/// `asyncapi` member, where there is one.
pub open spec fn spec_version_of(d: Doc) -> Option<Seq<char>> {
    match d {
        Doc::Obj(es) => match spec_obj_get(es, "asyncapi"@) {
            Some(v) => match v {
                Doc::Str(s) => Some(s),
                _ => None,
            },
            None => None,
        },
        _ => None,
    }
}

/// Reads the declared specification version of a document.
pub fn parse_spec_version(spec: &DocNode) -> (r: Option<String>)
    ensures
        match r {
            Some(s) => spec_version_of(spec@) == Some(s@),
            None => spec_version_of(spec@) is None,
        },
{
    match spec {
        DocNode::Obj(entries) => {
            let key = String::from_str("asyncapi");
            match obj_get(entries, &key) {
                Some(v) => match v {
                    DocNode::Str(s) => Some(s.clone()),
                    _ => None,
                },
                None => None,
            }
        },
        _ => None,
    }
}

/// Runs the whole preprocessing pipeline over a document.
pub fn preprocess_schema(spec: &DocNode) -> (r: Result<DocNode, PreprocessError>)
    ensures
        match r {
            Ok(n) => spec_preprocess(spec@) == Ok::<Doc, PreprocessFailure>(n@),
            Err(e) => spec_preprocess(spec@) == Err::<Doc, PreprocessFailure>(e@),
        },
{
    let with_names = fill_message_and_payload_names(spec, false, false, None);
    match resolve_refs(&with_names, &with_names) {
        Ok(resolved) => {
            let with_payload_schemas = duplicate_payload_schemas(&resolved);
            let mut seen: Vec<String> = Vec::new();
            proof {
                assert(seen.deep_view() =~= Seq::<Seq<char>>::empty());
            }
            sanitize_operation_ids_and_check_duplicate(&with_payload_schemas, &mut seen)
        },
        Err(e) => Err(e),
    }
}

} // verus!
