//! Compute parts of output generation: the file names models and payload
//! schemas are written under, and the module index that re-exports every
//! generated model.

use vstd::prelude::*;

use crate::ident::{spec_validate_identifier_string, validate_identifier_string};
use crate::rust_schema_representation::{lemma_view_reps, view_reps, RepView};
use crate::template_model::Model;

verus! {

/// The file a model with the given identifier is written to.
pub fn model_file_name(unique_id: &str) -> (r: String)
    ensures
        r@ == spec_validate_identifier_string(unique_id@, false) + ".rs"@,
{
    let mut s = validate_identifier_string(unique_id, false);
    s.append(".rs");
    s
}

/// The file a message's raw payload schema is written to.
pub fn schema_file_name(unique_id: &str) -> (r: String)
    ensures
        r@ == spec_validate_identifier_string(unique_id@, false) + "_payload_schema.json"@,
{
    let mut s = validate_identifier_string(unique_id, false);
    s.append("_payload_schema.json");
    s
}

/// The index entry of one model: a module declaration and re-export for a
/// model with a definition of its own, nothing for a primitive.
pub open spec fn import_entry(r: RepView) -> Seq<char> {
    if r.model_definition.len() > 0 {
        let m = spec_validate_identifier_string(r.unique_id, false);
        "pub mod "@ + m + "; \n pub use "@ + m + "::*; \n"@
    } else {
        Seq::empty()
    }
}

/// The whole module index: one entry per model, joined by newlines.
pub open spec fn import_lines(s: Seq<RepView>) -> Seq<char>
    decreases s,
{
    if s.len() == 0 {
        Seq::empty()
    } else if s.len() == 1 {
        import_entry(s.last())
    } else {
        import_lines(s.drop_last()) + "\n"@ + import_entry(s.last())
    }
}

/// Renders the module index that declares and re-exports every generated
/// model of the deduplicated set.
#[verifier::loop_isolation(false)]
pub fn generate_models_imports(model: &Model) -> (r: String)
    ensures
        r@ == import_lines(view_reps(model.message_models@)),
{
    proof {
        lemma_view_reps(model.message_models@);
    }
    let ghost rv = view_reps(model.message_models@);
    let n = model.message_models.len();
    let mut out = String::new();
    let mut i: usize = 0;
    proof {
        assert(out@ =~= import_lines(rv.take(0)));
    }
    while i < n
        invariant
            i <= n,
            rv.len() == n,
            out@ == import_lines(rv.take(i as int)),
        decreases n - i,
    {
        proof {
            assert(rv.take(i as int + 1).drop_last() =~= rv.take(i as int));
            assert(rv.take(i as int + 1).last() == rv[i as int]);
        }
        if i > 0 {
            out.append("\n");
        }
        if !model.message_models[i].model_definition.as_str().is_empty() {
            let m = validate_identifier_string(model.message_models[i].unique_id.as_str(), false);
            out.append("pub mod ");
            out.append(m.as_str());
            out.append("; \n pub use ");
            out.append(m.as_str());
            out.append("::*; \n");
        }
        proof {
            assert(out@ =~= import_lines(rv.take(i as int + 1)));
        }
        i = i + 1;
    }
    proof {
        assert(rv.take(n as int) =~= rv);
    }
    out
}

} // verus!
