//! Operation-identifier sanitization and duplicate detection: every
//! `operationId` value in the document is normalized into a valid identifier
//! and replaced in place; if two operations normalize to the same identifier
//! the document is rejected.
//!
//! The set of identifiers already produced is threaded through the walk as an
//! explicit accumulator and returned, so the guard stays composable.

use vstd::prelude::*;

use crate::doc_tree::{lemma_view_arr, lemma_view_obj, view_arr, view_obj, Doc, DocNode};
use crate::errors::{PreprocessError, PreprocessFailure};
use crate::ident::{spec_validate_identifier_string, validate_identifier_string};

verus! {

/// The member whose values are normalized and checked.
pub open spec fn operation_id_key() -> Seq<char> {
    "operationId"@
}

/// Sanitization over one document node, threading the identifiers seen so
/// far; yields the rewritten node and the extended accumulator.
pub open spec fn spec_sanitize(d: Doc, seen: Seq<Seq<char>>) -> Result<
    (Doc, Seq<Seq<char>>),
    PreprocessFailure,
>
    decreases d,
{
    match d {
        Doc::Obj(es) => match spec_sanitize_entries(es, seen) {
            Ok(res) => Ok((Doc::Obj(res.0), res.1)),
            Err(e) => Err(e),
        },
        Doc::Arr(xs) => match spec_sanitize_elems(xs, seen) {
            Ok(res) => Ok((Doc::Arr(res.0), res.1)),
            Err(e) => Err(e),
        },
        _ => Ok((d, seen)),
    }
}

/// Sanitization over object entries, left to right.
pub open spec fn spec_sanitize_entries(s: Seq<(Seq<char>, Doc)>, seen: Seq<Seq<char>>) -> Result<
    (Seq<(Seq<char>, Doc)>, Seq<Seq<char>>),
    PreprocessFailure,
>
    decreases s,
{
    if s.len() == 0 {
        Ok((Seq::empty(), seen))
    } else {
        match spec_sanitize_entries(s.drop_last(), seen) {
            Ok(pre) => {
                let k = s.last().0;
                let v = s.last().1;
                if k == operation_id_key() {
                    match v {
                        Doc::Str(val) => {
                            let sanitized = spec_validate_identifier_string(val, false);
                            if pre.1.contains(sanitized) {
                                Err(PreprocessFailure::DuplicateOperationId(sanitized))
                            } else {
                                Ok(
                                    (
                                        pre.0.push((k, Doc::Str(sanitized))),
                                        pre.1.push(sanitized),
                                    ),
                                )
                            }
                        },
                        _ => Err(PreprocessFailure::OperationIdNotString),
                    }
                } else {
                    match spec_sanitize(v, pre.1) {
                        Ok(res) => Ok((pre.0.push((k, res.0)), res.1)),
                        Err(e) => Err(e),
                    }
                }
            },
            Err(e) => Err(e),
        }
    }
}

/// Sanitization over array elements, left to right.
pub open spec fn spec_sanitize_elems(s: Seq<Doc>, seen: Seq<Seq<char>>) -> Result<
    (Seq<Doc>, Seq<Seq<char>>),
    PreprocessFailure,
>
    decreases s,
{
    if s.len() == 0 {
        Ok((Seq::empty(), seen))
    } else {
        match spec_sanitize_elems(s.drop_last(), seen) {
            Ok(pre) => match spec_sanitize(s.last(), pre.1) {
                Ok(res) => Ok((pre.0.push(res.0), res.1)),
                Err(e) => Err(e),
            },
            Err(e) => Err(e),
        }
    }
}

/// The normalized operation identifiers of `d`, in traversal order.  An
/// `operationId` member whose value is not a string contributes nothing (the
/// walk rejects such a document anyway).
pub open spec fn opids(d: Doc) -> Seq<Seq<char>>
    decreases d,
{
    match d {
        Doc::Obj(es) => opids_entries(es),
        Doc::Arr(xs) => opids_elems(xs),
        _ => Seq::empty(),
    }
}

/// The normalized operation identifiers contributed by object entries.
pub open spec fn opids_entries(s: Seq<(Seq<char>, Doc)>) -> Seq<Seq<char>>
    decreases s,
{
    if s.len() == 0 {
        Seq::empty()
    } else {
        opids_entries(s.drop_last()) + (if s.last().0 == operation_id_key() {
            match s.last().1 {
                Doc::Str(val) => seq![spec_validate_identifier_string(val, false)],
                _ => Seq::empty(),
            }
        } else {
            opids(s.last().1)
        })
    }
}

/// The normalized operation identifiers contributed by array elements.
pub open spec fn opids_elems(s: Seq<Doc>) -> Seq<Seq<char>>
    decreases s,
{
    if s.len() == 0 {
        Seq::empty()
    } else {
        opids_elems(s.drop_last()) + opids(s.last())
    }
}

/// `ids` holds no identifier twice and none that `seen` already holds.
pub open spec fn fresh_ids(seen: Seq<Seq<char>>, ids: Seq<Seq<char>>) -> bool {
    (forall|i: int| 0 <= i < ids.len() ==> !seen.contains(#[trigger] ids[i])) && (forall|
        i: int,
        j: int,
    |
        0 <= i < j < ids.len() ==> ids[i] != ids[j])
}

proof fn lemma_contains_concat(a: Seq<Seq<char>>, b: Seq<Seq<char>>, x: Seq<char>)
    ensures
        (a + b).contains(x) <==> a.contains(x) || b.contains(x),
{
    if a.contains(x) {
        let i = choose|i: int| 0 <= i < a.len() && a[i] == x;
        assert((a + b)[i] == x);
    }
    if b.contains(x) {
        let i = choose|i: int| 0 <= i < b.len() && b[i] == x;
        assert((a + b)[a.len() + i] == x);
    }
    if (a + b).contains(x) {
        let i = choose|i: int| 0 <= i < (a + b).len() && (a + b)[i] == x;
        if i < a.len() {
            assert(a[i] == x);
        } else {
            assert(b[i - a.len()] == x);
        }
    }
}

proof fn lemma_fresh_concat(seen: Seq<Seq<char>>, a: Seq<Seq<char>>, b: Seq<Seq<char>>)
    requires
        fresh_ids(seen, a),
        fresh_ids(seen + a, b),
    ensures
        fresh_ids(seen, a + b),
{
    assert forall|i: int| 0 <= i < (a + b).len() implies !seen.contains(#[trigger] (a + b)[i]) by {
        if i < a.len() {
            assert((a + b)[i] == a[i]);
        } else {
            assert((a + b)[i] == b[i - a.len()]);
            assert(!(seen + a).contains(b[i - a.len()]));
            lemma_contains_concat(seen, a, b[i - a.len()]);
        }
    }
    assert forall|i: int, j: int| 0 <= i < j < (a + b).len() implies (a + b)[i] != (a + b)[j] by {
        if j < a.len() {
        } else if i >= a.len() {
            assert((a + b)[i] == b[i - a.len()]);
            assert((a + b)[j] == b[j - a.len()]);
        } else {
            assert((a + b)[i] == a[i]);
            assert((a + b)[j] == b[j - a.len()]);
            assert(!(seen + a).contains(b[j - a.len()]));
            lemma_contains_concat(seen, a, b[j - a.len()]);
            assert(a.contains(a[i]));
        }
    }
}

proof fn lemma_sanitize_ok_ids(d: Doc, seen: Seq<Seq<char>>)
    ensures
        spec_sanitize(d, seen) is Ok ==> spec_sanitize(d, seen)->Ok_0.1 == seen + opids(d)
            && fresh_ids(seen, opids(d)),
    decreases d,
{
    match d {
        Doc::Obj(es) => {
            lemma_sanitize_entries_ok_ids(es, seen);
        },
        Doc::Arr(xs) => {
            lemma_sanitize_elems_ok_ids(xs, seen);
        },
        _ => {
            assert(seen + Seq::<Seq<char>>::empty() =~= seen);
        },
    }
}

proof fn lemma_sanitize_entries_ok_ids(s: Seq<(Seq<char>, Doc)>, seen: Seq<Seq<char>>)
    ensures
        spec_sanitize_entries(s, seen) is Ok ==> spec_sanitize_entries(s, seen)->Ok_0.1 == seen
            + opids_entries(s) && fresh_ids(seen, opids_entries(s)),
    decreases s,
{
    if s.len() == 0 {
        assert(seen + Seq::<Seq<char>>::empty() =~= seen);
    } else if spec_sanitize_entries(s, seen) is Ok {
        lemma_sanitize_entries_ok_ids(s.drop_last(), seen);
        let pre = spec_sanitize_entries(s.drop_last(), seen)->Ok_0;
        let a = opids_entries(s.drop_last());
        let k = s.last().0;
        let v = s.last().1;
        if k == operation_id_key() {
            let x = spec_validate_identifier_string(v->Str_0, false);
            let b = seq![x];
            assert(!pre.1.contains(x));
            lemma_contains_concat(seen, a, x);
            assert(fresh_ids(seen + a, b)) by {
                assert(forall|i: int| 0 <= i < b.len() ==> b[i] == x);
            }
            lemma_fresh_concat(seen, a, b);
            assert(pre.1.push(x) =~= seen + (a + b));
        } else {
            lemma_sanitize_ok_ids(v, pre.1);
            let b = opids(v);
            lemma_fresh_concat(seen, a, b);
            assert((seen + a) + b =~= seen + (a + b));
        }
    }
}

proof fn lemma_sanitize_elems_ok_ids(s: Seq<Doc>, seen: Seq<Seq<char>>)
    ensures
        spec_sanitize_elems(s, seen) is Ok ==> spec_sanitize_elems(s, seen)->Ok_0.1 == seen
            + opids_elems(s) && fresh_ids(seen, opids_elems(s)),
    decreases s,
{
    if s.len() == 0 {
        assert(seen + Seq::<Seq<char>>::empty() =~= seen);
    } else if spec_sanitize_elems(s, seen) is Ok {
        lemma_sanitize_elems_ok_ids(s.drop_last(), seen);
        let pre = spec_sanitize_elems(s.drop_last(), seen)->Ok_0;
        let a = opids_elems(s.drop_last());
        lemma_sanitize_ok_ids(s.last(), pre.1);
        let b = opids(s.last());
        lemma_fresh_concat(seen, a, b);
        assert((seen + a) + b =~= seen + (a + b));
    }
}

/// Law: duplicate detection is order-independent — whenever two positions of
/// the document carry operation identifiers that normalize to the same
/// identifier, sanitization rejects the document, whichever of the two comes
/// first in traversal order.
pub proof fn lemma_duplicate_operation_ids_rejected(
    d: Doc,
    seen: Seq<Seq<char>>,
    i: int,
    j: int,
)
    requires
        0 <= i < j < opids(d).len(),
        opids(d)[i] == opids(d)[j],
    ensures
        spec_sanitize(d, seen) is Err,
{
    if spec_sanitize(d, seen) is Ok {
        lemma_sanitize_ok_ids(d, seen);
        assert(false);
    }
}

/// Whether `seen` already holds `x`.
fn seen_contains(seen: &Vec<String>, x: &String) -> (b: bool)
    ensures
        b == seen.deep_view().contains(x@),
{
    let n = seen.len();
    let mut i: usize = 0;
    while i < n
        invariant
            n == seen@.len(),
            i <= n,
            forall|j: int| 0 <= j < i ==> seen.deep_view()[j] != x@,
        decreases n - i,
    {
        if seen[i] == *x {
            proof {
                assert(seen.deep_view()[i as int] == x@);
            }
            return true;
        }
        i = i + 1;
    }
    proof {
        assert(forall|j: int| 0 <= j < seen.deep_view().len() ==> seen.deep_view()[j] != x@);
    }
    false
}

proof fn lemma_sanitize_entries_prefix_err(
    s: Seq<(Seq<char>, Doc)>,
    i: int,
    seen: Seq<Seq<char>>,
    e: PreprocessFailure,
)
    requires
        0 <= i <= s.len(),
        spec_sanitize_entries(s.take(i), seen) == Err::<
            (Seq<(Seq<char>, Doc)>, Seq<Seq<char>>),
            PreprocessFailure,
        >(e),
    ensures
        spec_sanitize_entries(s, seen) == Err::<
            (Seq<(Seq<char>, Doc)>, Seq<Seq<char>>),
            PreprocessFailure,
        >(e),
    decreases s.len(),
{
    if i < s.len() {
        assert(s.drop_last().take(i) =~= s.take(i));
        lemma_sanitize_entries_prefix_err(s.drop_last(), i, seen, e);
    } else {
        assert(s.take(i) =~= s);
    }
}

proof fn lemma_sanitize_elems_prefix_err(s: Seq<Doc>, i: int, seen: Seq<Seq<char>>, e: PreprocessFailure)
    requires
        0 <= i <= s.len(),
        spec_sanitize_elems(s.take(i), seen) == Err::<
            (Seq<Doc>, Seq<Seq<char>>),
            PreprocessFailure,
        >(e),
    ensures
        spec_sanitize_elems(s, seen) == Err::<(Seq<Doc>, Seq<Seq<char>>), PreprocessFailure>(e),
    decreases s.len(),
{
    if i < s.len() {
        assert(s.drop_last().take(i) =~= s.take(i));
        lemma_sanitize_elems_prefix_err(s.drop_last(), i, seen, e);
    } else {
        assert(s.take(i) =~= s);
    }
}

/// Normalizes every `operationId` in `json`, replacing the value in place,
/// and extends `seen` with each identifier produced; rejects the document if
/// an identifier repeats.
#[verifier::loop_isolation(false)]
pub fn sanitize_operation_ids_and_check_duplicate(json: &DocNode, seen: &mut Vec<String>) -> (r:
    Result<DocNode, PreprocessError>)
    ensures
        match r {
            Ok(n) => spec_sanitize(json@, old(seen).deep_view()) == Ok::<
                (Doc, Seq<Seq<char>>),
                PreprocessFailure,
            >((n@, final(seen).deep_view())),
            Err(e) => spec_sanitize(json@, old(seen).deep_view()) == Err::<
                (Doc, Seq<Seq<char>>),
                PreprocessFailure,
            >(e@),
        },
    decreases json,
{
    let ghost seen0 = seen.deep_view();
    match json {
        DocNode::Null => Ok(DocNode::Null),
        DocNode::Bool(b) => Ok(DocNode::Bool(*b)),
        DocNode::Num(s) => Ok(DocNode::Num(s.clone())),
        DocNode::Str(s) => Ok(DocNode::Str(s.clone())),
        DocNode::Arr(items) => {
            proof {
                lemma_view_arr(items@);
            }
            let ghost xs = view_arr(items@);
            let n = items.len();
            let mut out: Vec<DocNode> = Vec::new();
            let mut i: usize = 0;
            while i < n
                invariant
                    i <= n,
                    spec_sanitize_elems(xs.take(i as int), seen0) == Ok::<
                        (Seq<Doc>, Seq<Seq<char>>),
                        PreprocessFailure,
                    >((view_arr(out@), seen.deep_view())),
                decreases n - i,
            {
                proof {
                    assert(json->Arr_0 == *items);
                    assert(decreases_to!(*json => json->Arr_0));
                    assert(decreases_to!(json->Arr_0 => json->Arr_0@));
                    assert(decreases_to!(json->Arr_0@ => json->Arr_0@[i as int]));
                    assert(json->Arr_0@[i as int] == items@[i as int]);
                    assert(decreases_to!(*json => items@[i as int]));
                    assert(xs.take(i as int + 1).drop_last() =~= xs.take(i as int));
                    assert(xs.take(i as int + 1).last() == xs[i as int]);
                }
                match sanitize_operation_ids_and_check_duplicate(&items[i], seen) {
                    Ok(d) => {
                        let ghost prev = out@;
                        let ghost dv = d@;
                        out.push(d);
                        proof {
                            assert(out@.drop_last() =~= prev);
                            assert(view_arr(out@) == view_arr(prev).push(dv));
                        }
                    },
                    Err(e) => {
                        proof {
                            lemma_sanitize_elems_prefix_err(xs, i as int + 1, seen0, e@);
                        }
                        return Err(e);
                    },
                }
                i = i + 1;
            }
            proof {
                assert(xs.take(n as int) =~= xs);
            }
            Ok(DocNode::Arr(out))
        },
        DocNode::Obj(entries) => {
            proof {
                lemma_view_obj(entries@);
            }
            let ghost es = view_obj(entries@);
            let opid_str = String::from_str("operationId");
            let n = entries.len();
            let mut out: Vec<(String, DocNode)> = Vec::new();
            let mut i: usize = 0;
            while i < n
                invariant
                    i <= n,
                    opid_str@ == operation_id_key(),
                    spec_sanitize_entries(es.take(i as int), seen0) == Ok::<
                        (Seq<(Seq<char>, Doc)>, Seq<Seq<char>>),
                        PreprocessFailure,
                    >((view_obj(out@), seen.deep_view())),
                decreases n - i,
            {
                proof {
                    assert(json->Obj_0 == *entries);
                    assert(decreases_to!(*json => json->Obj_0));
                    assert(decreases_to!(json->Obj_0 => json->Obj_0@));
                    assert(decreases_to!(json->Obj_0@ => json->Obj_0@[i as int]));
                    assert(decreases_to!(json->Obj_0@[i as int] => json->Obj_0@[i as int].1));
                    assert(json->Obj_0@[i as int].1 == entries@[i as int].1);
                    assert(decreases_to!(*json => entries@[i as int].1));
                    assert(es.take(i as int + 1).drop_last() =~= es.take(i as int));
                    assert(es.take(i as int + 1).last() == es[i as int]);
                }
                let key = &entries[i].0;
                if *key == opid_str {
                    match &entries[i].1 {
                        DocNode::Str(val) => {
                            let sanitized = validate_identifier_string(val.as_str(), false);
                            if seen_contains(seen, &sanitized) {
                                proof {
                                    lemma_sanitize_entries_prefix_err(
                                        es,
                                        i as int + 1,
                                        seen0,
                                        PreprocessFailure::DuplicateOperationId(sanitized@),
                                    );
                                }
                                return Err(PreprocessError::DuplicateOperationId(sanitized));
                            }
                            let new_key = key.clone();
                            let node = DocNode::Str(sanitized.clone());
                            let ghost prev = out@;
                            let ghost prev_seen = seen.deep_view();
                            let ghost kv = new_key@;
                            let ghost sv = sanitized@;
                            let ghost dv = node@;
                            seen.push(sanitized);
                            out.push((new_key, node));
                            proof {
                                assert(dv == Doc::Str(sv));
                                assert(out@.drop_last() =~= prev);
                                assert(view_obj(out@) == view_obj(prev).push((kv, dv)));
                                assert(seen.deep_view() =~= prev_seen.push(sv));
                            }
                        },
                        _ => {
                            proof {
                                lemma_sanitize_entries_prefix_err(
                                    es,
                                    i as int + 1,
                                    seen0,
                                    PreprocessFailure::OperationIdNotString,
                                );
                            }
                            return Err(PreprocessError::OperationIdNotString);
                        },
                    }
                } else {
                    match sanitize_operation_ids_and_check_duplicate(&entries[i].1, seen) {
                        Ok(d) => {
                            let new_key = key.clone();
                            let ghost prev = out@;
                            let ghost kv = new_key@;
                            let ghost dv = d@;
                            out.push((new_key, d));
                            proof {
                                assert(out@.drop_last() =~= prev);
                                assert(view_obj(out@) == view_obj(prev).push((kv, dv)));
                            }
                        },
                        Err(e) => {
                            proof {
                                lemma_sanitize_entries_prefix_err(es, i as int + 1, seen0, e@);
                            }
                            return Err(e);
                        },
                    }
                }
                i = i + 1;
            }
            proof {
                assert(es.take(n as int) =~= es);
            }
            Ok(DocNode::Obj(out))
        },
    }
}

} // verus!
