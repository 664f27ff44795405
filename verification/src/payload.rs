//! Payload-schema duplication: beside every `payload` member whose value is
//! an object, a `schema` member is inserted carrying that object's JSON text,
//! so the raw payload schema survives into the generated service.

use vstd::prelude::*;

use crate::doc_tree::{clone_doc, lemma_view_arr, lemma_view_obj, view_arr, view_obj, Doc, DocNode};
use crate::json_text::{json_text, to_json_string};

verus! {

/// The member whose object values are copied out as JSON text.
pub open spec fn payload_key() -> Seq<char> {
    "payload"@
}

/// The member under which the JSON text is stored.
pub open spec fn schema_key() -> Seq<char> {
    "schema"@
}

/// Payload-schema duplication over one document node.
pub open spec fn spec_dup_payloads(d: Doc) -> Doc
    decreases d,
{
    match d {
        Doc::Obj(es) => Doc::Obj(spec_dup_entries(es)),
        Doc::Arr(xs) => Doc::Arr(spec_dup_elems(xs)),
        _ => d,
    }
}

/// Payload-schema duplication over object entries.  A `payload` member with
/// an object value becomes a `schema` member holding its JSON text followed
/// by the unchanged `payload` member; a `payload` member with any other value
/// is dropped; every other member is processed recursively.
pub open spec fn spec_dup_entries(s: Seq<(Seq<char>, Doc)>) -> Seq<(Seq<char>, Doc)>
    decreases s,
{
    if s.len() == 0 {
        Seq::empty()
    } else {
        let k = s.last().0;
        let v = s.last().1;
        let pre = spec_dup_entries(s.drop_last());
        if k == payload_key() {
            match v {
                Doc::Obj(se) => pre.push((schema_key(), Doc::Str(json_text(v)))).push((k, v)),
                _ => pre,
            }
        } else {
            pre.push((k, spec_dup_payloads(v)))
        }
    }
}

/// Payload-schema duplication over array elements.
pub open spec fn spec_dup_elems(s: Seq<Doc>) -> Seq<Doc>
    decreases s,
{
    if s.len() == 0 {
        Seq::empty()
    } else {
        spec_dup_elems(s.drop_last()).push(spec_dup_payloads(s.last()))
    }
}

/// Inserts beside every `payload` member whose value is an object a `schema`
/// member holding that object's JSON text.
#[verifier::loop_isolation(false)]
pub fn duplicate_payload_schemas(json: &DocNode) -> (r: DocNode)
    ensures
        r@ == spec_dup_payloads(json@),
    decreases json,
{
    match json {
        DocNode::Null => DocNode::Null,
        DocNode::Bool(b) => DocNode::Bool(*b),
        DocNode::Num(s) => DocNode::Num(s.clone()),
        DocNode::Str(s) => DocNode::Str(s.clone()),
        DocNode::Arr(items) => {
            proof {
                lemma_view_arr(items@);
            }
            let ghost xs = view_arr(items@);
            let n = items.len();
            let mut out: Vec<DocNode> = Vec::new();
            let mut i: usize = 0;
            while i < n
                invariant
                    i <= n,
                    view_arr(out@) == spec_dup_elems(xs.take(i as int)),
                decreases n - i,
            {
                proof {
                    assert(json->Arr_0 == *items);
                    assert(decreases_to!(*json => json->Arr_0));
                    assert(decreases_to!(json->Arr_0 => json->Arr_0@));
                    assert(decreases_to!(json->Arr_0@ => json->Arr_0@[i as int]));
                    assert(json->Arr_0@[i as int] == items@[i as int]);
                    assert(decreases_to!(*json => items@[i as int]));
                    assert(xs.take(i as int + 1).drop_last() =~= xs.take(i as int));
                    assert(xs.take(i as int + 1).last() == xs[i as int]);
                }
                let c = duplicate_payload_schemas(&items[i]);
                let ghost prev = out@;
                let ghost dv = c@;
                out.push(c);
                proof {
                    assert(out@.drop_last() =~= prev);
                    assert(view_arr(out@) == view_arr(prev).push(dv));
                }
                i = i + 1;
            }
            proof {
                assert(xs.take(n as int) =~= xs);
            }
            DocNode::Arr(out)
        },
        DocNode::Obj(entries) => {
            proof {
                lemma_view_obj(entries@);
            }
            let ghost es = view_obj(entries@);
            let payload_str = String::from_str("payload");
            let n = entries.len();
            let mut out: Vec<(String, DocNode)> = Vec::new();
            let mut i: usize = 0;
            while i < n
                invariant
                    i <= n,
                    payload_str@ == payload_key(),
                    view_obj(out@) == spec_dup_entries(es.take(i as int)),
                decreases n - i,
            {
                proof {
                    assert(json->Obj_0 == *entries);
                    assert(decreases_to!(*json => json->Obj_0));
                    assert(decreases_to!(json->Obj_0 => json->Obj_0@));
                    assert(decreases_to!(json->Obj_0@ => json->Obj_0@[i as int]));
                    assert(decreases_to!(json->Obj_0@[i as int] => json->Obj_0@[i as int].1));
                    assert(json->Obj_0@[i as int].1 == entries@[i as int].1);
                    assert(decreases_to!(*json => entries@[i as int].1));
                    assert(es.take(i as int + 1).drop_last() =~= es.take(i as int));
                    assert(es.take(i as int + 1).last() == es[i as int]);
                }
                let key = &entries[i].0;
                if *key == payload_str {
                    match &entries[i].1 {
                        DocNode::Obj(_schema_entries) => {
                            let text = to_json_string(&entries[i].1);
                            let schema_entry = (
                                String::from_str("schema"),
                                DocNode::Str(text),
                            );
                            let payload_entry = (key.clone(), clone_doc(&entries[i].1));
                            let ghost prev = out@;
                            let ghost sk = schema_entry.0@;
                            let ghost sv = schema_entry.1@;
                            let ghost pk = payload_entry.0@;
                            let ghost pv = payload_entry.1@;
                            out.push(schema_entry);
                            proof {
                                assert(out@.drop_last() =~= prev);
                                assert(view_obj(out@) == view_obj(prev).push((sk, sv)));
                            }
                            let ghost mid = out@;
                            out.push(payload_entry);
                            proof {
                                assert(out@.drop_last() =~= mid);
                                assert(view_obj(out@) == view_obj(mid).push((pk, pv)));
                            }
                        },
                        _ => {},
                    }
                } else {
                    let c = duplicate_payload_schemas(&entries[i].1);
                    let new_key = key.clone();
                    let ghost prev = out@;
                    let ghost kv = new_key@;
                    let ghost dv = c@;
                    out.push((new_key, c));
                    proof {
                        assert(out@.drop_last() =~= prev);
                        assert(view_obj(out@) == view_obj(prev).push((kv, dv)));
                    }
                }
                i = i + 1;
            }
            proof {
                assert(es.take(n as int) =~= es);
            }
            DocNode::Obj(out)
        },
    }
}

} // verus!
