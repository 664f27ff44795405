//! Name filling: walks the document and gives every message or schema node
//! that lacks an explicit `name` member one derived from the key under which
//! it was declared, so every payload has a stable identifier before type
//! compilation.
//!
//! The traversal carries ancestor context: whether the current node is a
//! message (directly under a `message` member, or an entry of a `messages` or
//! `schemas` map) and, in the latter case, the map key it was declared under.

use vstd::prelude::*;

use crate::doc_tree::{lemma_view_arr, lemma_view_obj, obj_get, spec_obj_get, view_arr, view_obj,
    Doc, DocNode};

verus! {

/// The member inserted when a message has no explicit name.
pub open spec fn name_key() -> Seq<char> {
    "name"@
}

/// Name filling over one document node.  `is_message` marks a node that
/// should carry a `name`; `is_message_map` marks a keyed collection of
/// messages or schemas, whose entry values are messages named by their keys;
/// `name` is the key the node was declared under, if any.
pub open spec fn spec_fill(
    d: Doc,
    is_message: bool,
    is_message_map: bool,
    name: Option<Seq<char>>,
) -> Doc
    decreases d,
{
    match d {
        Doc::Obj(es) => {
            let filled = spec_fill_entries(es, is_message_map);
            if is_message && spec_obj_get(es, name_key()) is None && name is Some {
                Doc::Obj(filled.push((name_key(), Doc::Str(name->0))))
            } else {
                Doc::Obj(filled)
            }
        },
        Doc::Arr(xs) => Doc::Arr(spec_fill_elems(xs, is_message, is_message_map, name)),
        _ => d,
    }
}

/// Name filling over the entries of an object whose message-map mark is
/// `parent_is_map`.
pub open spec fn spec_fill_entries(s: Seq<(Seq<char>, Doc)>, parent_is_map: bool) -> Seq<
    (Seq<char>, Doc),
>
    decreases s,
{
    if s.len() == 0 {
        Seq::empty()
    } else {
        let k = s.last().0;
        let v = s.last().1;
        let child_name: Option<Seq<char>> = if parent_is_map {
            Some(k)
        } else {
            None
        };
        let inside_message = parent_is_map || k == "message"@;
        let inside_map = k == "messages"@ || k == "schemas"@;
        spec_fill_entries(s.drop_last(), parent_is_map).push(
            (k, spec_fill(v, inside_message, inside_map, child_name)),
        )
    }
}

/// Name filling over array elements; the ancestor context passes through.
pub open spec fn spec_fill_elems(
    s: Seq<Doc>,
    is_message: bool,
    is_message_map: bool,
    name: Option<Seq<char>>,
) -> Seq<Doc>
    decreases s,
{
    if s.len() == 0 {
        Seq::empty()
    } else {
        spec_fill_elems(s.drop_last(), is_message, is_message_map, name).push(
            spec_fill(s.last(), is_message, is_message_map, name),
        )
    }
}

/// View of an optional borrowed name.
pub open spec fn view_opt_name(name: Option<&String>) -> Option<Seq<char>> {
    match name {
        Some(s) => Some(s@),
        None => None,
    }
}

/// Walks the document and inserts a `name` member, derived from the
/// declaration key, into every message node that lacks one.
#[verifier::loop_isolation(false)]
pub fn fill_message_and_payload_names(
    json: &DocNode,
    is_message: bool,
    is_message_map: bool,
    message_name: Option<&String>,
) -> (r: DocNode)
    ensures
        r@ == spec_fill(json@, is_message, is_message_map, view_opt_name(message_name)),
    decreases json,
{
    match json {
        DocNode::Null => DocNode::Null,
        DocNode::Bool(b) => DocNode::Bool(*b),
        DocNode::Num(s) => DocNode::Num(s.clone()),
        DocNode::Str(s) => DocNode::Str(s.clone()),
        DocNode::Arr(items) => {
            proof {
                lemma_view_arr(items@);
            }
            let ghost xs = view_arr(items@);
            let n = items.len();
            let mut out: Vec<DocNode> = Vec::new();
            let mut i: usize = 0;
            while i < n
                invariant
                    i <= n,
                    view_arr(out@) == spec_fill_elems(
                        xs.take(i as int),
                        is_message,
                        is_message_map,
                        view_opt_name(message_name),
                    ),
                decreases n - i,
            {
                proof {
                    assert(json->Arr_0 == *items);
                    assert(decreases_to!(*json => json->Arr_0));
                    assert(decreases_to!(json->Arr_0 => json->Arr_0@));
                    assert(decreases_to!(json->Arr_0@ => json->Arr_0@[i as int]));
                    assert(json->Arr_0@[i as int] == items@[i as int]);
                    assert(decreases_to!(*json => items@[i as int]));
                    assert(xs.take(i as int + 1).drop_last() =~= xs.take(i as int));
                    assert(xs.take(i as int + 1).last() == xs[i as int]);
                }
                let filled = fill_message_and_payload_names(
                    &items[i],
                    is_message,
                    is_message_map,
                    message_name,
                );
                let ghost prev = out@;
                let ghost dv = filled@;
                out.push(filled);
                proof {
                    assert(out@.drop_last() =~= prev);
                    assert(view_arr(out@) == view_arr(prev).push(dv));
                }
                i = i + 1;
            }
            proof {
                assert(xs.take(n as int) =~= xs);
            }
            DocNode::Arr(out)
        },
        DocNode::Obj(entries) => {
            proof {
                lemma_view_obj(entries@);
            }
            let ghost es = view_obj(entries@);
            let message_str = String::from_str("message");
            let messages_str = String::from_str("messages");
            let schemas_str = String::from_str("schemas");
            let n = entries.len();
            let mut out: Vec<(String, DocNode)> = Vec::new();
            let mut i: usize = 0;
            while i < n
                invariant
                    i <= n,
                    message_str@ == "message"@,
                    messages_str@ == "messages"@,
                    schemas_str@ == "schemas"@,
                    view_obj(out@) == spec_fill_entries(es.take(i as int), is_message_map),
                decreases n - i,
            {
                proof {
                    assert(json->Obj_0 == *entries);
                    assert(decreases_to!(*json => json->Obj_0));
                    assert(decreases_to!(json->Obj_0 => json->Obj_0@));
                    assert(decreases_to!(json->Obj_0@ => json->Obj_0@[i as int]));
                    assert(decreases_to!(json->Obj_0@[i as int] => json->Obj_0@[i as int].1));
                    assert(json->Obj_0@[i as int].1 == entries@[i as int].1);
                    assert(decreases_to!(*json => entries@[i as int].1));
                    assert(es.take(i as int + 1).drop_last() =~= es.take(i as int));
                    assert(es.take(i as int + 1).last() == es[i as int]);
                }
                let key = &entries[i].0;
                let child_name: Option<&String> = if is_message_map {
                    Some(key)
                } else {
                    None
                };
                let inside_message = is_message_map || *key == message_str;
                let inside_map = *key == messages_str || *key == schemas_str;
                let filled = fill_message_and_payload_names(
                    &entries[i].1,
                    inside_message,
                    inside_map,
                    child_name,
                );
                let new_key = key.clone();
                let ghost prev = out@;
                let ghost kv = new_key@;
                let ghost dv = filled@;
                out.push((new_key, filled));
                proof {
                    assert(out@.drop_last() =~= prev);
                    assert(view_obj(out@) == view_obj(prev).push((kv, dv)));
                }
                i = i + 1;
            }
            proof {
                assert(es.take(n as int) =~= es);
            }
            if is_message {
                let name_str = String::from_str("name");
                match obj_get(entries, &name_str) {
                    Option::None => {
                        match message_name {
                            Some(nm) => {
                                let key = String::from_str("name");
                                let value = DocNode::Str(nm.clone());
                                let ghost prev = out@;
                                let ghost kv = key@;
                                let ghost dv = value@;
                                out.push((key, value));
                                proof {
                                    assert(out@.drop_last() =~= prev);
                                    assert(view_obj(out@) == view_obj(prev).push((kv, dv)));
                                }
                            },
                            None => {},
                        }
                    },
                    Option::Some(_) => {},
                }
            }
            DocNode::Obj(out)
        },
    }
}

/// No entry of `s` carries the key `k` exactly when looking `k` up fails.
proof fn lemma_obj_get_none_iff(s: Seq<(Seq<char>, Doc)>, k: Seq<char>)
    ensures
        spec_obj_get(s, k) is None <==> (forall|i: int| 0 <= i < s.len() ==> (#[trigger] s[i]).0
            != k),
    decreases s.len(),
{
    if s.len() == 0 {
    } else if s[0].0 == k {
        assert(s[0].0 == k);
    } else {
        lemma_obj_get_none_iff(s.drop_first(), k);
        if spec_obj_get(s, k) is None {
            assert forall|i: int| 0 <= i < s.len() implies (#[trigger] s[i]).0 != k by {
                if i > 0 {
                    assert(s.drop_first()[i - 1] == s[i]);
                }
            }
        } else {
            let j = choose|j: int|
                0 <= j < s.drop_first().len() && s.drop_first()[j].0 == k;
            assert(s.drop_first()[j] == s[j + 1]);
            assert(s[j + 1].0 == k);
        }
    }
}

/// Name filling keeps every entry's key.
proof fn lemma_fill_entries_keys(s: Seq<(Seq<char>, Doc)>, parent_is_map: bool)
    ensures
        spec_fill_entries(s, parent_is_map).len() == s.len(),
        forall|i: int|
            0 <= i < s.len() ==> (#[trigger] spec_fill_entries(s, parent_is_map)[i]).0 == s[i].0,
    decreases s,
{
    if s.len() > 0 {
        lemma_fill_entries_keys(s.drop_last(), parent_is_map);
        assert forall|i: int| 0 <= i < s.len() implies (#[trigger] spec_fill_entries(
            s,
            parent_is_map,
        )[i]).0 == s[i].0 by {
            if i < s.len() - 1 {
                assert(spec_fill_entries(s, parent_is_map)[i] == spec_fill_entries(
                    s.drop_last(),
                    parent_is_map,
                )[i]);
                assert(s.drop_last()[i] == s[i]);
            }
        }
    }
}

/// Law: name filling is idempotent — filling an already-filled document
/// again, under the same ancestor context, returns it unchanged.
pub proof fn lemma_fill_idempotent(
    d: Doc,
    is_message: bool,
    is_message_map: bool,
    name: Option<Seq<char>>,
)
    ensures
        spec_fill(
            spec_fill(d, is_message, is_message_map, name),
            is_message,
            is_message_map,
            name,
        ) == spec_fill(d, is_message, is_message_map, name),
    decreases d,
{
    match d {
        Doc::Obj(es) => {
            let filled = spec_fill_entries(es, is_message_map);
            lemma_fill_entries_idempotent(es, is_message_map);
            lemma_fill_entries_keys(es, is_message_map);
            lemma_obj_get_none_iff(es, name_key());
            lemma_obj_get_none_iff(filled, name_key());
            if is_message && spec_obj_get(es, name_key()) is None && name is Some {
                let entry = (name_key(), Doc::Str(name->0));
                let es2 = filled.push(entry);
                lemma_obj_get_none_iff(es2, name_key());
                assert(es2[es2.len() - 1].0 == name_key());
                assert(spec_obj_get(es2, name_key()) is Some);
                assert(spec_fill_entries(es2, is_message_map) =~= spec_fill_entries(
                    filled,
                    is_message_map,
                ).push(entry)) by {
                    assert(es2.drop_last() =~= filled);
                    assert(es2.last() == entry);
                    // the inserted value is a string, which filling leaves
                    // unchanged whatever the ancestor context
                    assert(spec_fill(
                        entry.1,
                        is_message_map || entry.0 == "message"@,
                        entry.0 == "messages"@ || entry.0 == "schemas"@,
                        if is_message_map {
                            Some(entry.0)
                        } else {
                            None
                        },
                    ) == entry.1);
                }
                assert(spec_fill_entries(es2, is_message_map) =~= es2);
            } else {
                if is_message && name is Some {
                    // the document already carries a name, and keys survive
                    let j = choose|j: int| 0 <= j < es.len() && es[j].0 == name_key();
                    assert(filled[j].0 == name_key());
                    assert(spec_obj_get(filled, name_key()) is Some);
                }
            }
        },
        Doc::Arr(xs) => {
            lemma_fill_elems_idempotent(xs, is_message, is_message_map, name);
        },
        _ => {},
    }
}

proof fn lemma_fill_entries_idempotent(s: Seq<(Seq<char>, Doc)>, parent_is_map: bool)
    ensures
        spec_fill_entries(spec_fill_entries(s, parent_is_map), parent_is_map)
            == spec_fill_entries(s, parent_is_map),
    decreases s,
{
    if s.len() > 0 {
        lemma_fill_entries_idempotent(s.drop_last(), parent_is_map);
        let k = s.last().0;
        let v = s.last().1;
        let child_name: Option<Seq<char>> = if parent_is_map {
            Some(k)
        } else {
            None
        };
        let inside_message = parent_is_map || k == "message"@;
        let inside_map = k == "messages"@ || k == "schemas"@;
        lemma_fill_idempotent(v, inside_message, inside_map, child_name);
        let t = spec_fill_entries(s, parent_is_map);
        assert(t.drop_last() =~= spec_fill_entries(s.drop_last(), parent_is_map));
        assert(t.last() == (k, spec_fill(v, inside_message, inside_map, child_name)));
        assert(spec_fill_entries(t, parent_is_map) =~= t);
    }
}

proof fn lemma_fill_elems_idempotent(
    s: Seq<Doc>,
    is_message: bool,
    is_message_map: bool,
    name: Option<Seq<char>>,
)
    ensures
        spec_fill_elems(
            spec_fill_elems(s, is_message, is_message_map, name),
            is_message,
            is_message_map,
            name,
        ) == spec_fill_elems(s, is_message, is_message_map, name),
    decreases s,
{
    if s.len() > 0 {
        lemma_fill_elems_idempotent(s.drop_last(), is_message, is_message_map, name);
        lemma_fill_idempotent(s.last(), is_message, is_message_map, name);
        let t = spec_fill_elems(s, is_message, is_message_map, name);
        assert(t.drop_last() =~= spec_fill_elems(
            s.drop_last(),
            is_message,
            is_message_map,
            name,
        ));
        assert(t.last() == spec_fill(s.last(), is_message, is_message_map, name));
        assert(spec_fill_elems(t, is_message, is_message_map, name) =~= t);
    }
}

} // verus!
