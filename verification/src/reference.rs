//! References: a value in the document is either given inline or named by a
//! JSON reference to another component.

use vstd::prelude::*;

use crate::resolve::{lemma_seg_len_bound, seg_len};

verus! {

/// The component name selected by a message reference: the pointer segment
/// after the `#/components/messages/` prefix, if the reference has it.
pub open spec fn spec_parse_message_reference_path(s: Seq<char>) -> Option<Seq<char>> {
    let p = "#/components/messages/"@;
    if s.len() >= p.len() && s.take(p.len() as int) == p {
        let rest = s.skip(p.len() as int);
        Some(rest.take(seg_len(rest) as int))
    } else {
        None
    }
}

/// The name of the component message a reference points at, where the
/// reference selects one.
#[verifier::loop_isolation(false)]
pub fn parse_message_reference_path(reference: &str) -> (r: Option<String>)
    ensures
        match r {
            Some(name) => spec_parse_message_reference_path(reference@) == Some(name@),
            None => spec_parse_message_reference_path(reference@) is None,
        },
{
    let prefix = "#/components/messages/";
    let pn = prefix.unicode_len();
    let n = reference.unicode_len();
    if n < pn {
        return None;
    }
    let mut i: usize = 0;
    while i < pn
        invariant
            pn == prefix@.len(),
            n == reference@.len(),
            pn <= n,
            i <= pn,
            forall|j: int| 0 <= j < i ==> reference@[j] == prefix@[j],
        decreases pn - i,
    {
        if reference.get_char(i) != prefix.get_char(i) {
            proof {
                assert(reference@.take(pn as int)[i as int] != prefix@[i as int]);
            }
            return None;
        }
        i = i + 1;
    }
    proof {
        assert(reference@.take(pn as int) =~= prefix@);
    }
    let ghost rest = reference@.skip(pn as int);
    let mut j: usize = pn;
    while j < n && !ref_char_is_slash(reference.get_char(j))
        invariant
            n == reference@.len(),
            pn <= j <= n,
            rest == reference@.skip(pn as int),
            seg_len(rest) == (j - pn) + seg_len(reference@.skip(j as int)),
        decreases n - j,
    {
        proof {
            assert(reference@.skip(j as int)[0] == reference@[j as int]);
            assert(reference@.skip(j as int).drop_first() =~= reference@.skip(j as int + 1));
        }
        j = j + 1;
    }
    proof {
        if j == n {
            assert(reference@.skip(j as int) =~= Seq::<char>::empty());
        } else {
            assert(reference@.skip(j as int)[0] == reference@[j as int]);
        }
        assert(seg_len(rest) == j - pn);
        lemma_seg_len_bound(rest);
    }
    let name = reference.substring_char(pn, j).to_owned();
    proof {
        assert(name@ =~= rest.take(seg_len(rest) as int));
    }
    Some(name)
}

fn ref_char_is_slash(c: char) -> (b: bool)
    ensures
        b == (c == '/'),
{
    c == '/'
}

/// Either a reference to another component of the document, or the item
/// itself.
pub enum ReferenceOr<T> {
    Reference { reference: String },
    Item(T),
}

impl<T> ReferenceOr<T> {
    /// A reference to the component named by `r`.
    pub fn ref_(r: &str) -> (res: Self)
        ensures
            res matches ReferenceOr::Reference { reference } && reference@ == r@,
    {
        ReferenceOr::Reference { reference: r.to_owned() }
    }

    /// Wraps an item in a box, as stored inside recursive schemas.
    pub fn boxed_item(item: T) -> (res: ReferenceOr<Box<T>>)
        ensures
            res matches ReferenceOr::Item(b) && *b == item,
    {
        ReferenceOr::Item(Box::new(item))
    }
}

impl<T> ReferenceOr<Box<T>> {
    /// Unwraps the box around an item, keeping a reference as it is.
    pub fn unbox(self) -> (res: ReferenceOr<T>)
        ensures
            match self {
                ReferenceOr::Reference { reference } => res matches ReferenceOr::Reference {
                    reference: r2,
                } && r2 == reference,
                ReferenceOr::Item(b) => res matches ReferenceOr::Item(it) && it == *b,
            },
    {
        match self {
            ReferenceOr::Reference { reference } => ReferenceOr::Reference { reference },
            ReferenceOr::Item(boxed) => ReferenceOr::Item(*boxed),
        }
    }
}

} // verus!
