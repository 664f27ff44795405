//! The compiler's output unit: a generated type's identifier, how other code
//! refers to it, its textual definition, its kind, and the representations it
//! directly depends on.

use vstd::prelude::*;

verus! {

/// Mathematical view of a type representation.
pub struct RepView {
    pub unique_id: Seq<char>,
    pub original_key: Seq<char>,
    pub struct_reference: Seq<char>,
    pub model_definition: Seq<char>,
    pub related_models: Seq<RepView>,
    pub model_type: Seq<char>,
}

/// One compiled type: identifier, reference string, definition text (empty
/// for primitives), directly related representations, and a kind tag
/// (`primitive`, `struct`, `array` or `enum`).
pub struct RustSchemaRepresentation {
    /// The unique, collision-checked identifier (e.g. a struct name).
    pub unique_id: String,
    /// The key the schema was declared under, before sanitization.
    pub original_key: String,
    /// How other generated code names this type: the identifier for structs
    /// and enums, the bare scalar name for primitives.
    pub struct_reference: String,
    /// The textual type definition; empty for primitives and arrays.
    pub model_definition: String,
    /// The representations this one directly depends on.
    pub related_models: Vec<RustSchemaRepresentation>,
    /// The kind tag: `primitive`, `struct`, `array` or `enum`.
    pub model_type: String,
}

/// The view of one representation.
pub open spec fn view_rep(r: RustSchemaRepresentation) -> RepView
    decreases r,
{
    RepView {
        unique_id: r.unique_id@,
        original_key: r.original_key@,
        struct_reference: r.struct_reference@,
        model_definition: r.model_definition@,
        related_models: view_reps(r.related_models@),
        model_type: r.model_type@,
    }
}

/// The views of a sequence of representations.
pub open spec fn view_reps(s: Seq<RustSchemaRepresentation>) -> Seq<RepView>
    decreases s,
{
    if s.len() == 0 {
        Seq::empty()
    } else {
        view_reps(s.drop_last()).push(view_rep(s.last()))
    }
}

impl View for RustSchemaRepresentation {
    type V = RepView;

    open spec fn view(&self) -> RepView {
        view_rep(*self)
    }
}

/// The view of a sequence is the element-wise view.
pub proof fn lemma_view_reps(s: Seq<RustSchemaRepresentation>)
    ensures
        view_reps(s).len() == s.len(),
        forall|i: int| 0 <= i < s.len() ==> view_reps(s)[i] == view_rep(#[trigger] s[i]),
    decreases s,
{
    if s.len() > 0 {
        lemma_view_reps(s.drop_last());
        assert forall|i: int| 0 <= i < s.len() implies view_reps(s)[i] == view_rep(
            #[trigger] s[i],
        ) by {
            if i < s.len() - 1 {
                assert(s.drop_last()[i] == s[i]);
            } else {
                assert(s[i] == s.last());
            }
        }
    }
}

/// Views distribute over concatenation.
pub proof fn lemma_view_reps_concat(a: Seq<RustSchemaRepresentation>, b: Seq<RustSchemaRepresentation>)
    ensures
        view_reps(a + b) == view_reps(a) + view_reps(b),
    decreases b,
{
    if b.len() == 0 {
        assert(a + b =~= a);
        assert(view_reps(a) + view_reps(b) =~= view_reps(a));
    } else {
        lemma_view_reps_concat(a, b.drop_last());
        assert((a + b).drop_last() =~= a + b.drop_last());
        assert((a + b).last() == b.last());
        assert(view_reps(a) + view_reps(b.drop_last()).push(view_rep(b.last())) =~= (view_reps(a)
            + view_reps(b.drop_last())).push(view_rep(b.last())));
    }
}

/// Every representation reachable from `r`: `r` itself, then, for each
/// directly related representation in order, everything reachable from it.
pub open spec fn rep_flatten(r: RepView) -> Seq<RepView>
    decreases r,
{
    seq![r] + rep_flatten_list(r.related_models)
}

/// Everything reachable from a list of representations, in order.
pub open spec fn rep_flatten_list(s: Seq<RepView>) -> Seq<RepView>
    decreases s,
{
    if s.len() == 0 {
        Seq::empty()
    } else {
        rep_flatten_list(s.drop_last()) + rep_flatten(s.last())
    }
}

impl RustSchemaRepresentation {
    /// A deep copy with the same view.
    #[verifier::loop_isolation(false)]
    pub fn duplicate(&self) -> (r: RustSchemaRepresentation)
        ensures
            r@ == self@,
        decreases self,
    {
        proof {
            lemma_view_reps(self.related_models@);
        }
        let n = self.related_models.len();
        let mut related: Vec<RustSchemaRepresentation> = Vec::new();
        let mut i: usize = 0;
        while i < n
            invariant
                i <= n,
                view_reps(related@) == view_reps(self.related_models@).take(i as int),
            decreases n - i,
        {
            proof {
                assert(decreases_to!(*self => self.related_models));
                assert(decreases_to!(self.related_models => self.related_models@));
                assert(decreases_to!(self.related_models@ => self.related_models@[i as int]));
                assert(decreases_to!(*self => self.related_models@[i as int]));
                assert(view_reps(self.related_models@).take(i as int + 1).drop_last()
                    =~= view_reps(self.related_models@).take(i as int));
            }
            let c = self.related_models[i].duplicate();
            let ghost prev = related@;
            let ghost cv = c@;
            related.push(c);
            proof {
                assert(related@.drop_last() =~= prev);
                assert(view_reps(related@) == view_reps(prev).push(cv));
            }
            i = i + 1;
        }
        proof {
            assert(view_reps(self.related_models@).take(n as int) =~= view_reps(
                self.related_models@,
            ));
        }
        RustSchemaRepresentation {
            unique_id: self.unique_id.clone(),
            original_key: self.original_key.clone(),
            struct_reference: self.struct_reference.clone(),
            model_definition: self.model_definition.clone(),
            related_models: related,
            model_type: self.model_type.clone(),
        }
    }

    /// This representation followed by everything reachable from the ones it
    /// relates to, depth-first.
    #[verifier::loop_isolation(false)]
    pub fn get_related_models_recursive(&self) -> (r: Vec<RustSchemaRepresentation>)
        ensures
            view_reps(r@) == rep_flatten(self@),
        decreases self,
    {
        proof {
            lemma_view_reps(self.related_models@);
        }
        let ghost rm = view_reps(self.related_models@);
        let mut out: Vec<RustSchemaRepresentation> = Vec::new();
        let d = self.duplicate();
        let ghost dv = d@;
        out.push(d);
        proof {
            assert(out@.drop_last() =~= Seq::<RustSchemaRepresentation>::empty());
            assert(view_reps(out@) == view_reps(out@.drop_last()).push(view_rep(out@.last())));
            assert(view_reps(out@) =~= seq![dv]);
            assert(view_reps(out@) =~= seq![self@] + rep_flatten_list(rm.take(0)));
        }
        let n = self.related_models.len();
        let mut i: usize = 0;
        while i < n
            invariant
                i <= n,
                view_reps(out@) == seq![self@] + rep_flatten_list(rm.take(i as int)),
            decreases n - i,
        {
            proof {
                assert(decreases_to!(*self => self.related_models));
                assert(decreases_to!(self.related_models => self.related_models@));
                assert(decreases_to!(self.related_models@ => self.related_models@[i as int]));
                assert(decreases_to!(*self => self.related_models@[i as int]));
                assert(rm.take(i as int + 1).drop_last() =~= rm.take(i as int));
                assert(rm.take(i as int + 1).last() == rm[i as int]);
            }
            let mut sub = self.related_models[i].get_related_models_recursive();
            let ghost prev = out@;
            let ghost subv = sub@;
            out.append(&mut sub);
            proof {
                lemma_view_reps_concat(prev, subv);
                assert(view_reps(out@) == view_reps(prev) + view_reps(subv));
                assert(seq![self@] + rep_flatten_list(rm.take(i as int)) + rep_flatten(rm[i as int])
                    =~= seq![self@] + rep_flatten_list(rm.take(i as int + 1)));
            }
            i = i + 1;
        }
        proof {
            assert(rm.take(n as int) =~= rm);
        }
        out
    }
}

} // verus!
