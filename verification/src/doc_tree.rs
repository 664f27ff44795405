//! The generic document tree: a JSON/YAML-shaped value as the preprocessing
//! stages see it, together with its mathematical view.
//!
//! Numbers are carried in their lexical form; the preprocessing stages never
//! interpret them, only copy them through.

use vstd::prelude::*;

verus! {

/// An untyped document value: object, array, string, number, bool or null.
pub enum DocNode {
    Null,
    Bool(bool),
    Num(String),
    Str(String),
    Arr(Vec<DocNode>),
    Obj(Vec<(String, DocNode)>),
}

/// Mathematical view of a document value, over sequences of characters.
pub enum Doc {
    Null,
    Bool(bool),
    Num(Seq<char>),
    Str(Seq<char>),
    Arr(Seq<Doc>),
    Obj(Seq<(Seq<char>, Doc)>),
}

/// The view of one document node.
pub open spec fn view_node(n: DocNode) -> Doc
    decreases n,
{
    match n {
        DocNode::Null => Doc::Null,
        DocNode::Bool(b) => Doc::Bool(b),
        DocNode::Num(s) => Doc::Num(s@),
        DocNode::Str(s) => Doc::Str(s@),
        DocNode::Arr(items) => Doc::Arr(view_arr(items@)),
        DocNode::Obj(entries) => Doc::Obj(view_obj(entries@)),
    }
}

/// The views of a sequence of array elements.
pub open spec fn view_arr(s: Seq<DocNode>) -> Seq<Doc>
    decreases s,
{
    if s.len() == 0 {
        Seq::empty()
    } else {
        view_arr(s.drop_last()).push(view_node(s.last()))
    }
}

/// The views of a sequence of object entries.
pub open spec fn view_obj(s: Seq<(String, DocNode)>) -> Seq<(Seq<char>, Doc)>
    decreases s,
{
    if s.len() == 0 {
        Seq::empty()
    } else {
        view_obj(s.drop_last()).push((s.last().0@, view_node(s.last().1)))
    }
}

impl View for DocNode {
    type V = Doc;

    open spec fn view(&self) -> Doc {
        view_node(*self)
    }
}

/// The view of an array is the element-wise view of its items.
pub proof fn lemma_view_arr(s: Seq<DocNode>)
    ensures
        view_arr(s).len() == s.len(),
        forall|i: int| 0 <= i < s.len() ==> view_arr(s)[i] == view_node(#[trigger] s[i]),
    decreases s,
{
    if s.len() > 0 {
        lemma_view_arr(s.drop_last());
        assert forall|i: int| 0 <= i < s.len() implies view_arr(s)[i] == view_node(
            #[trigger] s[i],
        ) by {
            if i < s.len() - 1 {
                assert(s.drop_last()[i] == s[i]);
            } else {
                assert(s[i] == s.last());
            }
        }
    }
}

/// The view of an object is the entry-wise view of its entries.
pub proof fn lemma_view_obj(s: Seq<(String, DocNode)>)
    ensures
        view_obj(s).len() == s.len(),
        forall|i: int|
            0 <= i < s.len() ==> view_obj(s)[i] == ((#[trigger] s[i]).0@, view_node(s[i].1)),
    decreases s,
{
    if s.len() > 0 {
        lemma_view_obj(s.drop_last());
        assert forall|i: int| 0 <= i < s.len() implies view_obj(s)[i] == ((#[trigger] s[i]).0@,
        view_node(s[i].1)) by {
            if i < s.len() - 1 {
                assert(s.drop_last()[i] == s[i]);
            } else {
                assert(s[i] == s.last());
            }
        }
    }
}

/// First value stored under `key`, scanning entries front to back.
pub open spec fn spec_obj_get(s: Seq<(Seq<char>, Doc)>, key: Seq<char>) -> Option<Doc>
    decreases s.len(),
{
    if s.len() == 0 {
        None
    } else if s[0].0 == key {
        Some(s[0].1)
    } else {
        spec_obj_get(s.drop_first(), key)
    }
}

/// First entry of `entries` stored under `key`.
#[verifier::loop_isolation(false)]
pub fn obj_get<'a>(entries: &'a Vec<(String, DocNode)>, key: &String) -> (r: Option<&'a DocNode>)
    ensures
        match r {
            Some(v) => spec_obj_get(view_obj(entries@), key@) == Some(v@),
            None => spec_obj_get(view_obj(entries@), key@) is None,
        },
{
    proof {
        lemma_view_obj(entries@);
    }
    let ghost es = view_obj(entries@);
    proof {
        assert(es.skip(0) =~= es);
    }
    let n = entries.len();
    let mut i: usize = 0;
    while i < n
        invariant
            n == entries@.len(),
            es == view_obj(entries@),
            es.len() == n,
            i <= n,
            forall|j: int| 0 <= j < es.len() ==> es[j] == (entries@[j].0@, entries@[j].1@),
            spec_obj_get(es.skip(i as int), key@) == spec_obj_get(es, key@),
        decreases n - i,
    {
        proof {
            assert(es.skip(i as int)[0] == es[i as int]);
            assert(es.skip(i as int).drop_first() =~= es.skip(i as int + 1));
        }
        if entries[i].0 == *key {
            return Some(&entries[i].1);
        }
        i = i + 1;
    }
    proof {
        assert(es.skip(n as int) =~= Seq::<(Seq<char>, Doc)>::empty());
    }
    None
}

/// A deep copy of a document node: the copy has the same view.
#[verifier::loop_isolation(false)]
pub fn clone_doc(d: &DocNode) -> (r: DocNode)
    ensures
        r@ == d@,
    decreases d,
{
    match d {
        DocNode::Null => DocNode::Null,
        DocNode::Bool(b) => DocNode::Bool(*b),
        DocNode::Num(s) => DocNode::Num(s.clone()),
        DocNode::Str(s) => DocNode::Str(s.clone()),
        DocNode::Arr(items) => {
            proof {
                lemma_view_arr(items@);
            }
            let ghost xs = view_arr(items@);
            let n = items.len();
            let mut out: Vec<DocNode> = Vec::new();
            let mut i: usize = 0;
            while i < n
                invariant
                    i <= n,
                    view_arr(out@) == xs.take(i as int),
                decreases n - i,
            {
                proof {
                    assert(d->Arr_0 == *items);
                    assert(decreases_to!(*d => d->Arr_0));
                    assert(decreases_to!(d->Arr_0 => d->Arr_0@));
                    assert(decreases_to!(d->Arr_0@ => d->Arr_0@[i as int]));
                    assert(d->Arr_0@[i as int] == items@[i as int]);
                    assert(decreases_to!(*d => items@[i as int]));
                    assert(xs.take(i as int + 1).drop_last() =~= xs.take(i as int));
                    assert(xs.take(i as int + 1).last() == xs[i as int]);
                }
                let c = clone_doc(&items[i]);
                let ghost prev = out@;
                let ghost dv = c@;
                out.push(c);
                proof {
                    assert(out@.drop_last() =~= prev);
                    assert(view_arr(out@) == view_arr(prev).push(dv));
                    assert(view_arr(prev).push(dv) =~= xs.take(i as int + 1));
                }
                i = i + 1;
            }
            proof {
                assert(xs.take(n as int) =~= xs);
            }
            DocNode::Arr(out)
        },
        DocNode::Obj(entries) => {
            proof {
                lemma_view_obj(entries@);
            }
            let ghost es = view_obj(entries@);
            let n = entries.len();
            let mut out: Vec<(String, DocNode)> = Vec::new();
            let mut i: usize = 0;
            while i < n
                invariant
                    i <= n,
                    view_obj(out@) == es.take(i as int),
                decreases n - i,
            {
                proof {
                    assert(d->Obj_0 == *entries);
                    assert(decreases_to!(*d => d->Obj_0));
                    assert(decreases_to!(d->Obj_0 => d->Obj_0@));
                    assert(decreases_to!(d->Obj_0@ => d->Obj_0@[i as int]));
                    assert(decreases_to!(d->Obj_0@[i as int] => d->Obj_0@[i as int].1));
                    assert(d->Obj_0@[i as int].1 == entries@[i as int].1);
                    assert(decreases_to!(*d => entries@[i as int].1));
                    assert(es.take(i as int + 1).drop_last() =~= es.take(i as int));
                    assert(es.take(i as int + 1).last() == es[i as int]);
                }
                let k = entries[i].0.clone();
                let v = clone_doc(&entries[i].1);
                let ghost prev = out@;
                let ghost kv = k@;
                let ghost dv = v@;
                out.push((k, v));
                proof {
                    assert(out@.drop_last() =~= prev);
                    assert(view_obj(out@) == view_obj(prev).push((kv, dv)));
                    assert(view_obj(prev).push((kv, dv)) =~= es.take(i as int + 1));
                }
                i = i + 1;
            }
            proof {
                assert(es.take(n as int) =~= es);
            }
            DocNode::Obj(out)
        },
    }
}

} // verus!
