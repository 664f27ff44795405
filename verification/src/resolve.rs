//! Reference resolution: every object holding a `$ref` member is replaced by
//! the subtree its JSON pointer selects from the document root, recursively.
//!
//! Substitution is bounded by an explicit recursion depth, so a cyclic
//! reference graph is reported as a failure instead of looping.

use vstd::prelude::*;

use crate::doc_tree::{lemma_view_arr, lemma_view_obj, obj_get, spec_obj_get, view_arr, view_obj, Doc, DocNode};
use crate::errors::{PreprocessError, PreprocessFailure};

verus! {

/// How many chained `$ref` substitutions are followed before the document is
/// rejected as cyclic.
pub const MAX_RESOLVE_DEPTH: u32 = 64;

/// The key that marks a reference object.
pub open spec fn ref_key() -> Seq<char> {
    "$ref"@
}

/// Length of the leading pointer segment: characters before the first `/`.
pub open spec fn seg_len(t: Seq<char>) -> nat
    decreases t.len(),
{
    if t.len() == 0 || t[0] == '/' {
        0
    } else {
        1 + seg_len(t.drop_first())
    }
}

pub proof fn lemma_seg_len_bound(t: Seq<char>)
    ensures
        seg_len(t) <= t.len(),
    decreases t.len(),
{
    if !(t.len() == 0 || t[0] == '/') {
        lemma_seg_len_bound(t.drop_first());
    }
}

/// Walks a pointer through the tree: one segment selects one object member.
pub open spec fn spec_walk(cur: Doc, t: Seq<char>) -> Option<Doc>
    decreases t.len(),
{
    match cur {
        Doc::Obj(es) => {
            let l = seg_len(t);
            match spec_obj_get(es, t.take(l as int)) {
                Some(child) => if l >= t.len() {
                    Some(child)
                } else {
                    spec_walk(child, t.skip(l as int + 1))
                },
                None => None,
            }
        },
        _ => None,
    }
}

/// Strips every leading `#/` from a pointer.
pub open spec fn trim_ref_prefix(t: Seq<char>) -> Seq<char>
    decreases t.len(),
{
    if t.len() >= 2 && t[0] == '#' && t[1] == '/' {
        trim_ref_prefix(t.skip(2))
    } else {
        t
    }
}

/// What following the pointer `ptr` from the document root yields.
pub open spec fn spec_resolve_pointer(root: Doc, ptr: Seq<char>) -> Option<Doc> {
    spec_walk(root, trim_ref_prefix(ptr))
}

/// Reference substitution over a document, with `fuel` bounding how many
/// chained substitutions may be followed.
pub open spec fn spec_resolve_doc(d: Doc, root: Doc, fuel: nat) -> Result<
    Doc,
    PreprocessFailure,
>
    decreases fuel, d,
{
    match d {
        Doc::Obj(es) => match spec_obj_get(es, ref_key()) {
            Some(v) => match v {
                Doc::Str(ptr) => if fuel == 0 {
                    Err(PreprocessFailure::DepthExceeded)
                } else {
                    match spec_resolve_pointer(root, ptr) {
                        Some(target) => spec_resolve_doc(target, root, (fuel - 1) as nat),
                        None => Err(PreprocessFailure::PathNotFound(ptr)),
                    }
                },
                _ => Err(PreprocessFailure::RefNotString),
            },
            None => match spec_resolve_entries(es, root, fuel) {
                Ok(res) => Ok(Doc::Obj(res)),
                Err(e) => Err(e),
            },
        },
        Doc::Arr(xs) => match spec_resolve_elems(xs, root, fuel) {
            Ok(res) => Ok(Doc::Arr(res)),
            Err(e) => Err(e),
        },
        _ => Ok(d),
    }
}

/// Reference substitution over object entries, first failure wins.
pub open spec fn spec_resolve_entries(
    s: Seq<(Seq<char>, Doc)>,
    root: Doc,
    fuel: nat,
) -> Result<Seq<(Seq<char>, Doc)>, PreprocessFailure>
    decreases fuel, s,
{
    if s.len() == 0 {
        Ok(Seq::empty())
    } else {
        match spec_resolve_entries(s.drop_last(), root, fuel) {
            Ok(pre) => match spec_resolve_doc(s.last().1, root, fuel) {
                Ok(d) => Ok(pre.push((s.last().0, d))),
                Err(e) => Err(e),
            },
            Err(e) => Err(e),
        }
    }
}

/// Reference substitution over array elements, first failure wins.
pub open spec fn spec_resolve_elems(s: Seq<Doc>, root: Doc, fuel: nat) -> Result<
    Seq<Doc>,
    PreprocessFailure,
>
    decreases fuel, s,
{
    if s.len() == 0 {
        Ok(Seq::empty())
    } else {
        match spec_resolve_elems(s.drop_last(), root, fuel) {
            Ok(pre) => match spec_resolve_doc(s.last(), root, fuel) {
                Ok(d) => Ok(pre.push(d)),
                Err(e) => Err(e),
            },
            Err(e) => Err(e),
        }
    }
}

/// What `resolve_refs` computes.
pub open spec fn spec_resolve_refs(d: Doc, root: Doc) -> Result<Doc, PreprocessFailure> {
    spec_resolve_doc(d, root, MAX_RESOLVE_DEPTH as nat)
}

/// Follows a JSON pointer (with any leading `#/` stripped) from `root`.
#[verifier::loop_isolation(false)]
pub fn resolve_json_path<'a>(root: &'a DocNode, path: &str) -> (r: Option<&'a DocNode>)
    ensures
        match r {
            Some(v) => spec_walk(root@, path@) == Some(v@),
            None => spec_walk(root@, path@) is None,
        },
{
    let n = path.unicode_len();
    let mut cur: &'a DocNode = root;
    let mut p: usize = 0;
    proof {
        assert(path@.skip(0) =~= path@);
    }
    loop
        invariant
            n == path@.len(),
            p <= n,
            spec_walk(cur@, path@.skip(p as int)) == spec_walk(root@, path@),
        decreases n - p,
    {
        let ghost t = path@.skip(p as int);
        match cur {
            DocNode::Obj(entries) => {
                // scan the current segment
                let mut j: usize = p;
                while j < n && !char_is_slash(path.get_char(j))
                    invariant
                        n == path@.len(),
                        p <= j <= n,
                        t == path@.skip(p as int),
                        seg_len(t) == (j - p) + seg_len(path@.skip(j as int)),
                    decreases n - j,
                {
                    proof {
                        assert(path@.skip(j as int)[0] == path@[j as int]);
                        assert(path@.skip(j as int).drop_first() =~= path@.skip(j as int + 1));
                    }
                    j = j + 1;
                }
                proof {
                    if j == n {
                        assert(path@.skip(j as int) =~= Seq::<char>::empty());
                    } else {
                        assert(path@.skip(j as int)[0] == path@[j as int]);
                    }
                    assert(seg_len(t) == j - p);
                    lemma_seg_len_bound(t);
                }
                let seg = path.substring_char(p, j).to_owned();
                proof {
                    assert(seg@ =~= t.take(seg_len(t) as int));
                }
                match obj_get(entries, &seg) {
                    Some(child) => {
                        if j >= n {
                            return Some(child);
                        }
                        proof {
                            assert(path@.skip(p as int).skip(seg_len(t) as int + 1) =~= path@.skip(
                                j as int + 1,
                            ));
                        }
                        cur = child;
                        p = j + 1;
                    },
                    None => {
                        return None;
                    },
                }
            },
            _ => {
                return None;
            },
        }
    }
}

fn char_is_slash(c: char) -> (b: bool)
    ensures
        b == (c == '/'),
{
    c == '/'
}

/// Strips every leading `#/` from a pointer string.
#[verifier::loop_isolation(false)]
fn trim_pointer(path: &str) -> (r: String)
    ensures
        r@ == trim_ref_prefix(path@),
{
    let n = path.unicode_len();
    let mut p: usize = 0;
    proof {
        assert(path@.skip(0) =~= path@);
    }
    while n - p >= 2 && char_is_hash(path.get_char(p)) && char_is_slash(path.get_char(p + 1))
        invariant
            n == path@.len(),
            p <= n,
            trim_ref_prefix(path@.skip(p as int)) == trim_ref_prefix(path@),
        decreases n - p,
    {
        proof {
            assert(path@.skip(p as int)[0] == path@[p as int]);
            assert(path@.skip(p as int)[1] == path@[p as int + 1]);
            assert(path@.skip(p as int).skip(2) =~= path@.skip(p as int + 2));
        }
        p = p + 2;
    }
    let r = path.substring_char(p, n).to_owned();
    proof {
        assert(r@ =~= path@.skip(p as int));
        let t = path@.skip(p as int);
        assert(!(t.len() >= 2 && t[0] == '#' && t[1] == '/')) by {
            if t.len() >= 2 {
                assert(t[0] == path@[p as int]);
                assert(t[1] == path@[p as int + 1]);
            }
        }
    }
    r
}

fn char_is_hash(c: char) -> (b: bool)
    ensures
        b == (c == '#'),
{
    c == '#'
}

/// Resolves one `$ref` pointer from the document root.
fn resolve_pointer<'a>(root: &'a DocNode, ptr: &String) -> (r: Option<&'a DocNode>)
    ensures
        match r {
            Some(v) => spec_resolve_pointer(root@, ptr@) == Some(v@),
            None => spec_resolve_pointer(root@, ptr@) is None,
        },
{
    let trimmed = trim_pointer(ptr.as_str());
    resolve_json_path(root, trimmed.as_str())
}

proof fn lemma_resolve_entries_prefix_err(
    s: Seq<(Seq<char>, Doc)>,
    i: int,
    root: Doc,
    fuel: nat,
    e: PreprocessFailure,
)
    requires
        0 <= i <= s.len(),
        spec_resolve_entries(s.take(i), root, fuel) == Err::<Seq<(Seq<char>, Doc)>,
            PreprocessFailure,
        >(e),
    ensures
        spec_resolve_entries(s, root, fuel) == Err::<Seq<(Seq<char>, Doc)>, PreprocessFailure>(e),
    decreases s.len(),
{
    if i < s.len() {
        assert(s.drop_last().take(i) =~= s.take(i));
        lemma_resolve_entries_prefix_err(s.drop_last(), i, root, fuel, e);
    } else {
        assert(s.take(i) =~= s);
    }
}

proof fn lemma_resolve_elems_prefix_err(s: Seq<Doc>, i: int, root: Doc, fuel: nat, e: PreprocessFailure)
    requires
        0 <= i <= s.len(),
        spec_resolve_elems(s.take(i), root, fuel) == Err::<Seq<Doc>, PreprocessFailure>(e),
    ensures
        spec_resolve_elems(s, root, fuel) == Err::<Seq<Doc>, PreprocessFailure>(e),
    decreases s.len(),
{
    if i < s.len() {
        assert(s.drop_last().take(i) =~= s.take(i));
        lemma_resolve_elems_prefix_err(s.drop_last(), i, root, fuel, e);
    } else {
        assert(s.take(i) =~= s);
    }
}

#[verifier::loop_isolation(false)]
fn resolve_node(json: &DocNode, root: &DocNode, fuel: u32) -> (r: Result<DocNode, PreprocessError>)
    ensures
        match r {
            Ok(n) => spec_resolve_doc(json@, root@, fuel as nat) == Ok::<Doc, PreprocessFailure>(
                n@,
            ),
            Err(e) => spec_resolve_doc(json@, root@, fuel as nat) == Err::<Doc, PreprocessFailure>(
                e@,
            ),
        },
    decreases fuel, json,
{
    match json {
        DocNode::Null => Ok(DocNode::Null),
        DocNode::Bool(b) => Ok(DocNode::Bool(*b)),
        DocNode::Num(s) => Ok(DocNode::Num(s.clone())),
        DocNode::Str(s) => Ok(DocNode::Str(s.clone())),
        DocNode::Arr(items) => {
            proof {
                lemma_view_arr(items@);
            }
            let ghost xs = view_arr(items@);
            let n = items.len();
            let mut out: Vec<DocNode> = Vec::new();
            let mut i: usize = 0;
            while i < n
                invariant
                    n == items@.len(),
                    xs == view_arr(items@),
                    xs.len() == n,
                    i <= n,
                    forall|j: int| 0 <= j < items@.len() ==> xs[j] == (#[trigger] items@[j])@,
                    spec_resolve_elems(xs.take(i as int), root@, fuel as nat) == Ok::<
                        Seq<Doc>,
                        PreprocessFailure,
                    >(view_arr(out@)),
                decreases n - i,
            {
                proof {
                    assert(json->Arr_0 == *items);
                    assert(decreases_to!(*json => json->Arr_0));
                    assert(decreases_to!(json->Arr_0 => json->Arr_0@));
                    assert(decreases_to!(json->Arr_0@ => json->Arr_0@[i as int]));
                    assert(json->Arr_0@[i as int] == items@[i as int]);
                    assert(decreases_to!(fuel, *json => fuel, items@[i as int]));
                }
                let elem = &items[i];
                proof {
                    assert(xs.take(i as int + 1).drop_last() =~= xs.take(i as int));
                    assert(xs.take(i as int + 1).last() == xs[i as int]);
                }
                match resolve_node(elem, root, fuel) {
                    Ok(d) => {
                        let ghost prev = out@;
                        let ghost dv = d@;
                        out.push(d);
                        proof {
                            assert(out@.drop_last() =~= prev);
                            assert(view_arr(out@) == view_arr(prev).push(dv));
                        }
                    },
                    Err(e) => {
                        proof {
                            assert(spec_resolve_elems(xs.take(i as int + 1), root@, fuel as nat)
                                == Err::<Seq<Doc>, PreprocessFailure>(e@));
                            lemma_resolve_elems_prefix_err(
                                xs,
                                i as int + 1,
                                root@,
                                fuel as nat,
                                e@,
                            );
                            assert(spec_resolve_doc(json@, root@, fuel as nat) == Err::<
                                Doc,
                                PreprocessFailure,
                            >(e@));
                        }
                        return Err(e);
                    },
                }
                i = i + 1;
            }
            proof {
                assert(xs.take(n as int) =~= xs);
            }
            Ok(DocNode::Arr(out))
        },
        DocNode::Obj(entries) => {
            proof {
                lemma_view_obj(entries@);
            }
            let ghost es = view_obj(entries@);
            let refstr = String::from_str("$ref");
            proof {
                assert(refstr@ == ref_key());
            }
            match obj_get(entries, &refstr) {
                Some(v) => match v {
                    DocNode::Str(ptr) => {
                        if fuel == 0 {
                            Err(PreprocessError::DepthExceeded)
                        } else {
                            match resolve_pointer(root, ptr) {
                                Some(target) => {
                                    let rr = resolve_node(target, root, fuel - 1);
                                    rr
                                },
                                None => Err(PreprocessError::PathNotFound(ptr.clone())),
                            }
                        }
                    },
                    _ => Err(PreprocessError::RefNotString),
                },
                None => {
                    let n = entries.len();
                    let mut out: Vec<(String, DocNode)> = Vec::new();
                    let mut i: usize = 0;
                    while i < n
                        invariant
                            n == entries@.len(),
                            es == view_obj(entries@),
                            es.len() == n,
                            i <= n,
                            forall|j: int|
                                0 <= j < entries@.len() ==> es[j] == ((
                                #[trigger] entries@[j]).0@, entries@[j].1@),
                            spec_resolve_entries(es.take(i as int), root@, fuel as nat) == Ok::<
                                Seq<(Seq<char>, Doc)>,
                                PreprocessFailure,
                            >(view_obj(out@)),
                        decreases n - i,
                    {
                        proof {
                            assert(json->Obj_0 == *entries);
                            assert(decreases_to!(*json => json->Obj_0));
                            assert(decreases_to!(json->Obj_0 => json->Obj_0@));
                            assert(decreases_to!(json->Obj_0@ => json->Obj_0@[i as int]));
                            assert(decreases_to!(json->Obj_0@[i as int] => json->Obj_0@[i as int].1));
                            assert(json->Obj_0@[i as int].1 == entries@[i as int].1);
                            assert(decreases_to!(fuel, *json => fuel, entries@[i as int].1));
                        }
                        let value = &entries[i].1;
                        proof {
                            assert(es.take(i as int + 1).drop_last() =~= es.take(i as int));
                            assert(es.take(i as int + 1).last() == es[i as int]);
                        }
                        match resolve_node(value, root, fuel) {
                            Ok(d) => {
                                let key = entries[i].0.clone();
                                let ghost prev = out@;
                                let ghost kv = key@;
                                let ghost dv = d@;
                                out.push((key, d));
                                proof {
                                    assert(out@.drop_last() =~= prev);
                                    assert(view_obj(out@) == view_obj(prev).push((kv, dv)));
                                }
                            },
                            Err(e) => {
                                proof {
                                    assert(spec_resolve_entries(
                                        es.take(i as int + 1),
                                        root@,
                                        fuel as nat,
                                    ) == Err::<Seq<(Seq<char>, Doc)>, PreprocessFailure>(e@));
                                    lemma_resolve_entries_prefix_err(
                                        es,
                                        i as int + 1,
                                        root@,
                                        fuel as nat,
                                        e@,
                                    );
                                    assert(spec_resolve_doc(json@, root@, fuel as nat) == Err::<
                                        Doc,
                                        PreprocessFailure,
                                    >(e@));
                                }
                                return Err(e);
                            },
                        }
                        i = i + 1;
                    }
                    proof {
                        assert(es.take(n as int) =~= es);
                    }
                    Ok(DocNode::Obj(out))
                },
            }
        },
    }
}

/// Replaces every reference object in `json` by the subtree its pointer
/// selects from `root`, recursively, following at most `MAX_RESOLVE_DEPTH`
/// chained substitutions.
pub fn resolve_refs(json: &DocNode, root: &DocNode) -> (r: Result<DocNode, PreprocessError>)
    ensures
        match r {
            Ok(n) => spec_resolve_refs(json@, root@) == Ok::<Doc, PreprocessFailure>(n@),
            Err(e) => spec_resolve_refs(json@, root@) == Err::<Doc, PreprocessFailure>(e@),
        },
{
    resolve_node(json, root, MAX_RESOLVE_DEPTH)
}

/// No reference object occurs anywhere in `d`.
pub open spec fn doc_resolved(d: Doc) -> bool
    decreases d,
{
    match d {
        Doc::Obj(es) => spec_obj_get(es, ref_key()) is None && entries_resolved(es),
        Doc::Arr(xs) => elems_resolved(xs),
        _ => true,
    }
}

/// No reference object occurs in any entry value.
pub open spec fn entries_resolved(s: Seq<(Seq<char>, Doc)>) -> bool
    decreases s,
{
    s.len() == 0 || (entries_resolved(s.drop_last()) && doc_resolved(s.last().1))
}

/// No reference object occurs in any element.
pub open spec fn elems_resolved(s: Seq<Doc>) -> bool
    decreases s,
{
    s.len() == 0 || (elems_resolved(s.drop_last()) && doc_resolved(s.last()))
}

/// Law: reference resolution is idempotent on resolved documents — a document
/// in which no reference object remains is returned unchanged, whatever the
/// root and the remaining depth.
pub proof fn lemma_resolve_resolved_identity(d: Doc, root: Doc, fuel: nat)
    ensures
        doc_resolved(d) ==> spec_resolve_doc(d, root, fuel) == Ok::<Doc, PreprocessFailure>(d),
    decreases d,
{
    match d {
        Doc::Obj(es) => {
            if doc_resolved(d) {
                lemma_resolve_entries_resolved(es, root, fuel);
            }
        },
        Doc::Arr(xs) => {
            if doc_resolved(d) {
                lemma_resolve_elems_resolved(xs, root, fuel);
            }
        },
        _ => {},
    }
}

proof fn lemma_resolve_entries_resolved(s: Seq<(Seq<char>, Doc)>, root: Doc, fuel: nat)
    requires
        entries_resolved(s),
    ensures
        spec_resolve_entries(s, root, fuel) == Ok::<Seq<(Seq<char>, Doc)>, PreprocessFailure>(s),
    decreases s,
{
    if s.len() > 0 {
        lemma_resolve_entries_resolved(s.drop_last(), root, fuel);
        lemma_resolve_resolved_identity(s.last().1, root, fuel);
        assert(s.drop_last().push((s.last().0, s.last().1)) =~= s);
    } else {
        assert(s =~= Seq::<(Seq<char>, Doc)>::empty());
    }
}

proof fn lemma_resolve_elems_resolved(s: Seq<Doc>, root: Doc, fuel: nat)
    requires
        elems_resolved(s),
    ensures
        spec_resolve_elems(s, root, fuel) == Ok::<Seq<Doc>, PreprocessFailure>(s),
    decreases s,
{
    if s.len() > 0 {
        lemma_resolve_elems_resolved(s.drop_last(), root, fuel);
        lemma_resolve_resolved_identity(s.last(), root, fuel);
        assert(s.drop_last().push(s.last()) =~= s);
    } else {
        assert(s =~= Seq::<Doc>::empty());
    }
}

} // verus!
