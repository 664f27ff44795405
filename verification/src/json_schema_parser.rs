//! The schema-to-type compiler: turns a typed schema into a target-type
//! representation, bottom-up.
//!
//! Primitives map to scalar type names refined by the declared format;
//! objects become structs whose fields are the compiled properties; arrays
//! become vectors of their compiled item; composites (`oneOf`, `anyOf`,
//! `allOf`) become tagged unions of their compiled alternatives, except that
//! a composite with exactly one alternative collapses to that alternative.
//! `allOf` is compiled like the other composites, as a union rather than a
//! structural merge.  The explicit catch-all schema is rejected.

use vstd::prelude::*;

use crate::ident::{push_char, spec_validate_identifier_string, validate_identifier_string};
use crate::reference::ReferenceOr;
use crate::rust_schema_representation::{lemma_view_reps, view_rep, view_reps, RepView,
    RustSchemaRepresentation};
use crate::schema::{ArrayType, IntegerFormat, NumberFormat, ObjectType, Schema, SchemaKind, Type};
use crate::schema_parser_error::{CompileFailure, SchemaParserError};
use crate::variant_or::VariantOrUnknownOrEmpty;

verus! {

/// Scalar type name for a primitive schema; `None` for objects and arrays.
pub open spec fn rust_primitive_type(t: Type) -> Option<Seq<char>> {
    match t {
        Type::String(_v) => Some("String"@),
        Type::Number(v) => match v.format {
            VariantOrUnknownOrEmpty::Item(f) => match f {
                NumberFormat::Float => Some("f32"@),
                NumberFormat::Double => Some("f64"@),
            },
            _ => Some("f64"@),
        },
        Type::Integer(v) => match v.format {
            VariantOrUnknownOrEmpty::Item(f) => match f {
                IntegerFormat::Int32 => Some("i32"@),
                IntegerFormat::Int64 => Some("i64"@),
            },
            _ => Some("i64"@),
        },
        Type::Boolean => Some("bool"@),
        _ => None,
    }
}

/// Decimal digit character.
pub open spec fn dec_digit(n: nat) -> char {
    (('0' as u32) + n) as char
}

/// Decimal text of a number.
pub open spec fn dec_str(n: nat) -> Seq<char>
    decreases n,
{
    if n < 10 {
        seq![dec_digit(n)]
    } else {
        dec_str(n / 10).push(dec_digit(n % 10))
    }
}

/// The name a compiled primitive is declared under when the proposed name is
/// empty.
pub open spec fn fallback_name() -> Seq<char> {
    "value_with_no_name"@
}

/// Representation of a primitive schema.
pub open spec fn primitive_rep(name: Seq<char>, scalar_name: Seq<char>) -> RepView {
    let var_name = if name.len() > 0 {
        name
    } else {
        fallback_name()
    };
    RepView {
        unique_id: spec_validate_identifier_string(var_name, false),
        original_key: name,
        struct_reference: scalar_name,
        model_definition: Seq::empty(),
        related_models: Seq::empty(),
        model_type: "primitive"@,
    }
}

/// One struct field line: the property's identifier and type reference.
pub open spec fn field_text(r: RepView) -> Seq<char> {
    "pub "@ + r.unique_id + ": "@ + r.struct_reference
}

/// Struct field lines, comma-separated.
pub open spec fn join_fields(s: Seq<RepView>) -> Seq<char>
    decreases s,
{
    if s.len() == 0 {
        Seq::empty()
    } else if s.len() == 1 {
        field_text(s.last())
    } else {
        join_fields(s.drop_last()) + ",\n"@ + field_text(s.last())
    }
}

/// Representation of an object schema with compiled properties `reps`.
pub open spec fn object_rep(name: Seq<char>, reps: Seq<RepView>) -> RepView {
    let id = spec_validate_identifier_string(name, true);
    RepView {
        unique_id: id,
        original_key: name,
        struct_reference: id,
        model_definition: "#[derive(Clone, Debug, Deserialize, Serialize)]\npub struct "@ + id
            + " {\n"@ + join_fields(reps) + "\n}\n"@,
        related_models: reps,
        model_type: "struct"@,
    }
}

/// The name the item schema of an array is compiled under.
pub open spec fn array_item_name(name: Seq<char>) -> Seq<char> {
    name + "Item"@
}

/// Representation of an array schema with compiled item `item`.
pub open spec fn array_rep(name: Seq<char>, item: RepView) -> RepView {
    let id = spec_validate_identifier_string(name, true);
    RepView {
        unique_id: id,
        original_key: name,
        struct_reference: "Vec<"@ + item.struct_reference + ">"@,
        model_definition: Seq::empty(),
        related_models: seq![item],
        model_type: "array"@,
    }
}

/// The name a composite's alternative is compiled under: parent name, the
/// variant suffix, and the one-based index.
pub open spec fn variant_name(name: Seq<char>, index1: nat) -> Seq<char> {
    name + "Variant"@ + dec_str(index1)
}

/// One union variant line.
pub open spec fn variant_text(r: RepView) -> Seq<char> {
    r.unique_id + "("@ + r.struct_reference + "),\n"@
}

/// Union variant lines, concatenated.
pub open spec fn join_variants(s: Seq<RepView>) -> Seq<char>
    decreases s,
{
    if s.len() == 0 {
        Seq::empty()
    } else {
        join_variants(s.drop_last()) + variant_text(s.last())
    }
}

/// Representation of a composite schema with compiled alternatives `reps`.
pub open spec fn enum_rep(name: Seq<char>, reps: Seq<RepView>) -> RepView {
    let id = spec_validate_identifier_string(name + "Enum"@, true);
    RepView {
        unique_id: id,
        original_key: name,
        struct_reference: id,
        model_definition: "#[derive(Serialize, Deserialize, Debug)]\n#[serde(untagged)]\npub enum "@
            + id + " {\n"@ + join_variants(reps) + "}\n"@,
        related_models: reps,
        model_type: "enum"@,
    }
}

/// Failure message for a property that is still a reference.
pub open spec fn msg_unsupported_reference() -> Seq<char> {
    "References are not supported yet"@
}

/// Failure message for a composite member that is still a reference.
pub open spec fn msg_unresolved_member() -> Seq<char> {
    "Refs should be resolved by now"@
}

/// Failure message for an array schema without an item schema.
pub open spec fn msg_array_without_items() -> Seq<char> {
    "Array type without item type"@
}

/// Failure message for the catch-all schema.
pub open spec fn msg_unsupported_kind() -> Seq<char> {
    "Unsupported schema kind"@
}

/// What compiling `s` under the proposed name `name` yields.
pub open spec fn spec_compile(s: Schema, name: Seq<char>) -> Result<RepView, CompileFailure>
    decreases s, 0int,
{
    match s.schema_kind {
        SchemaKind::Type(t) => match t {
            Type::Object(o) => spec_compile_object(o, name),
            Type::Array(a) => spec_compile_array(a, name),
            _ => match rust_primitive_type(t) {
                Some(scalar_name) => Ok(primitive_rep(name, scalar_name)),
                None => Err(CompileFailure::GenericError(msg_unsupported_kind(), Some(name))),
            },
        },
        SchemaKind::OneOf(list) => spec_compile_composite(list@, name),
        SchemaKind::AllOf(list) => spec_compile_composite(list@, name),
        SchemaKind::AnyOf(list) => spec_compile_composite(list@, name),
        SchemaKind::Any => Err(CompileFailure::GenericError(msg_unsupported_kind(), Some(name))),
    }
}

/// Compilation of an object schema.
pub open spec fn spec_compile_object(o: ObjectType, name: Seq<char>) -> Result<
    RepView,
    CompileFailure,
>
    decreases o, 0int,
{
    match spec_compile_props(o.properties@, name) {
        Ok(reps) => Ok(object_rep(name, reps)),
        Err(e) => Err(e),
    }
}

/// Compilation of an object's properties, each under its own key; a property
/// that is still a reference is a failure naming the parent.
pub open spec fn spec_compile_props(
    ps: Seq<(String, ReferenceOr<Schema>)>,
    parent: Seq<char>,
) -> Result<Seq<RepView>, CompileFailure>
    decreases ps, 0int,
{
    if ps.len() == 0 {
        Ok(Seq::empty())
    } else {
        match spec_compile_props(ps.drop_last(), parent) {
            Ok(pre) => match ps.last().1 {
                ReferenceOr::Item(sch) => match spec_compile(sch, ps.last().0@) {
                    Ok(rep) => Ok(pre.push(rep)),
                    Err(e) => Err(e),
                },
                ReferenceOr::Reference { .. } => Err(
                    CompileFailure::GenericError(msg_unsupported_reference(), Some(parent)),
                ),
            },
            Err(e) => Err(e),
        }
    }
}

/// Compilation of an array schema: its item schema, which is required, is
/// compiled under a derived name.
pub open spec fn spec_compile_array(a: ArrayType, name: Seq<char>) -> Result<
    RepView,
    CompileFailure,
>
    decreases a, 1int,
{
    match a.items {
        Some(boxed) => spec_compile_array_item(*boxed, name),
        None => Err(CompileFailure::GenericError(msg_array_without_items(), None)),
    }
}

/// Compilation of an array's item schema, inline or by reference.
pub open spec fn spec_compile_array_item(r: ReferenceOr<Schema>, name: Seq<char>) -> Result<
    RepView,
    CompileFailure,
>
    decreases r, 0int,
{
    match r {
        ReferenceOr::Item(item) => match spec_compile(item, array_item_name(name)) {
            Ok(rep) => Ok(array_rep(name, rep)),
            Err(e) => Err(e),
        },
        ReferenceOr::Reference { .. } => Err(
            CompileFailure::GenericError(msg_unsupported_reference(), Some(name)),
        ),
    }
}

/// Compilation of a composite schema: one alternative is forwarded directly,
/// several become a tagged union.
pub open spec fn spec_compile_composite(list: Seq<ReferenceOr<Schema>>, name: Seq<char>) -> Result<
    RepView,
    CompileFailure,
>
    decreases list, 1int,
{
    if list.len() == 1 {
        match list[0] {
            ReferenceOr::Item(m) => spec_compile(m, name),
            ReferenceOr::Reference { .. } => Err(
                CompileFailure::GenericError(msg_unresolved_member(), Some(name)),
            ),
        }
    } else {
        match spec_compile_variants(list, name) {
            Ok(reps) => Ok(enum_rep(name, reps)),
            Err(e) => Err(e),
        }
    }
}

/// Compilation of a composite's alternatives, each under its variant name.
pub open spec fn spec_compile_variants(list: Seq<ReferenceOr<Schema>>, name: Seq<char>) -> Result<
    Seq<RepView>,
    CompileFailure,
>
    decreases list, 0int,
{
    if list.len() == 0 {
        Ok(Seq::empty())
    } else {
        match spec_compile_variants(list.drop_last(), name) {
            Ok(pre) => match list.last() {
                ReferenceOr::Item(m) => match spec_compile(m, variant_name(name, list.len())) {
                    Ok(rep) => Ok(pre.push(rep)),
                    Err(e) => Err(e),
                },
                ReferenceOr::Reference { .. } => Err(
                    CompileFailure::GenericError(msg_unresolved_member(), Some(name)),
                ),
            },
            Err(e) => Err(e),
        }
    }
}

/// Two representations have the same shape: the same kind tag and, pairwise,
/// related representations of the same shape.  Identifiers and texts are not
/// compared.
pub open spec fn same_shape(a: RepView, b: RepView) -> bool
    decreases a,
{
    a.model_type == b.model_type && same_shape_list(a.related_models, b.related_models)
}

/// Pairwise shape equality of two lists of representations.
pub open spec fn same_shape_list(x: Seq<RepView>, y: Seq<RepView>) -> bool
    decreases x,
{
    x.len() == y.len() && (x.len() == 0 || (same_shape_list(x.drop_last(), y.drop_last())
        && same_shape(x.last(), y.last())))
}

pub proof fn lemma_same_shape_refl(a: RepView)
    ensures
        same_shape(a, a),
    decreases a,
{
    lemma_same_shape_list_refl(a.related_models);
}

pub proof fn lemma_same_shape_list_refl(s: Seq<RepView>)
    ensures
        same_shape_list(s, s),
    decreases s,
{
    if s.len() > 0 {
        lemma_same_shape_list_refl(s.drop_last());
        lemma_same_shape_refl(s.last());
    }
}

proof fn lemma_props_name_independent(
    ps: Seq<(String, ReferenceOr<Schema>)>,
    n1: Seq<char>,
    n2: Seq<char>,
)
    ensures
        spec_compile_props(ps, n1) is Ok <==> spec_compile_props(ps, n2) is Ok,
        spec_compile_props(ps, n1) is Ok ==> spec_compile_props(ps, n1) == spec_compile_props(
            ps,
            n2,
        ),
    decreases ps,
{
    if ps.len() > 0 {
        lemma_props_name_independent(ps.drop_last(), n1, n2);
    }
}

/// Law: compilation is structural — compiling the same schema under two
/// different proposed names succeeds or fails alike, and on success the two
/// representations have the same kind and the same shape of related
/// representations; only the labels differ.
pub proof fn lemma_compile_structural(s: Schema, n1: Seq<char>, n2: Seq<char>)
    ensures
        spec_compile(s, n1) is Ok <==> spec_compile(s, n2) is Ok,
        spec_compile(s, n1) is Ok ==> same_shape(
            spec_compile(s, n1)->Ok_0,
            spec_compile(s, n2)->Ok_0,
        ),
    decreases s, 2int,
{
    match s.schema_kind {
        SchemaKind::Type(t) => match t {
            Type::Object(o) => {
                assert(spec_compile(s, n1) == spec_compile_object(o, n1));
                assert(spec_compile(s, n2) == spec_compile_object(o, n2));
                lemma_props_name_independent(o.properties@, n1, n2);
                if spec_compile_props(o.properties@, n1) is Ok {
                    lemma_same_shape_list_refl(spec_compile_props(o.properties@, n1)->Ok_0);
                }
                assert(spec_compile(s, n1) is Ok <==> spec_compile(s, n2) is Ok);
            },
            Type::Array(a) => {
                assert(spec_compile(s, n1) == spec_compile_array(a, n1));
                assert(spec_compile(s, n2) == spec_compile_array(a, n2));
                match a.items {
                    Some(boxed) => match *boxed {
                        ReferenceOr::Item(item) => {
                            assert(*boxed == ReferenceOr::Item(item));
                            assert(spec_compile_array(a, n1) == spec_compile_array_item(
                                *boxed,
                                n1,
                            ));
                            assert(spec_compile_array(a, n2) == spec_compile_array_item(
                                *boxed,
                                n2,
                            ));
                            lemma_compile_structural(
                                item,
                                array_item_name(n1),
                                array_item_name(n2),
                            );
                            if spec_compile(item, array_item_name(n1)) is Ok {
                                let r1 = spec_compile(item, array_item_name(n1))->Ok_0;
                                let r2 = spec_compile(item, array_item_name(n2))->Ok_0;
                                assert(same_shape_list(
                                    Seq::<RepView>::empty(),
                                    Seq::<RepView>::empty(),
                                ));
                                assert(seq![r1].drop_last() =~= Seq::<RepView>::empty());
                                assert(seq![r2].drop_last() =~= Seq::<RepView>::empty());
                                assert(seq![r1].last() == r1);
                                assert(seq![r2].last() == r2);
                                assert(same_shape_list(seq![r1], seq![r2]));
                            }
                        },
                        ReferenceOr::Reference { .. } => {},
                    },
                    None => {},
                }
                assert(spec_compile(s, n1) is Ok <==> spec_compile(s, n2) is Ok);
            },
            _ => {
                if rust_primitive_type(t) is Some {
                    assert(same_shape_list(Seq::<RepView>::empty(), Seq::<RepView>::empty()));
                }
                assert(spec_compile(s, n1) is Ok <==> spec_compile(s, n2) is Ok);
            },
        },
        SchemaKind::OneOf(list) => {
            lemma_composite_structural(list@, n1, n2);
        },
        SchemaKind::AllOf(list) => {
            lemma_composite_structural(list@, n1, n2);
        },
        SchemaKind::AnyOf(list) => {
            lemma_composite_structural(list@, n1, n2);
        },
        SchemaKind::Any => {},
    }
}

proof fn lemma_composite_structural(list: Seq<ReferenceOr<Schema>>, n1: Seq<char>, n2: Seq<char>)
    ensures
        spec_compile_composite(list, n1) is Ok <==> spec_compile_composite(list, n2) is Ok,
        spec_compile_composite(list, n1) is Ok ==> same_shape(
            spec_compile_composite(list, n1)->Ok_0,
            spec_compile_composite(list, n2)->Ok_0,
        ),
    decreases list, 1int,
{
    if list.len() == 1 {
        match list[0] {
            ReferenceOr::Item(m) => {
                lemma_compile_structural(m, n1, n2);
            },
            ReferenceOr::Reference { .. } => {},
        }
    } else {
        lemma_variants_structural(list, n1, n2);
    }
}

proof fn lemma_variants_structural(list: Seq<ReferenceOr<Schema>>, n1: Seq<char>, n2: Seq<char>)
    ensures
        spec_compile_variants(list, n1) is Ok <==> spec_compile_variants(list, n2) is Ok,
        spec_compile_variants(list, n1) is Ok ==> same_shape_list(
            spec_compile_variants(list, n1)->Ok_0,
            spec_compile_variants(list, n2)->Ok_0,
        ),
    decreases list, 0int,
{
    if list.len() > 0 {
        lemma_variants_structural(list.drop_last(), n1, n2);
        match list.last() {
            ReferenceOr::Item(m) => {
                lemma_compile_structural(
                    m,
                    variant_name(n1, list.len()),
                    variant_name(n2, list.len()),
                );
                if spec_compile_variants(list, n1) is Ok {
                    let pre1 = spec_compile_variants(list.drop_last(), n1)->Ok_0;
                    let pre2 = spec_compile_variants(list.drop_last(), n2)->Ok_0;
                    let x1 = spec_compile(m, variant_name(n1, list.len()))->Ok_0;
                    let x2 = spec_compile(m, variant_name(n2, list.len()))->Ok_0;
                    assert(pre1.push(x1).drop_last() =~= pre1);
                    assert(pre2.push(x2).drop_last() =~= pre2);
                    assert(pre1.push(x1).last() == x1);
                    assert(pre2.push(x2).last() == x2);
                    assert(same_shape_list(pre1.push(x1), pre2.push(x2)));
                }
            },
            ReferenceOr::Reference { .. } => {},
        }
    }
}

/// Law: compilation is structural, identifier half — under two proposed
/// names whose sanitizations differ in both conventions (and with the enum
/// suffix), a schema that compiles at all yields representations with
/// different identifiers.
pub proof fn lemma_compile_distinct_identifiers(s: Schema, n1: Seq<char>, n2: Seq<char>)
    requires
        n1.len() > 0,
        n2.len() > 0,
        spec_validate_identifier_string(n1, false) != spec_validate_identifier_string(n2, false),
        spec_validate_identifier_string(n1, true) != spec_validate_identifier_string(n2, true),
        spec_validate_identifier_string(n1 + "Enum"@, true) != spec_validate_identifier_string(
            n2 + "Enum"@,
            true,
        ),
    ensures
        spec_compile(s, n1) is Ok && spec_compile(s, n2) is Ok ==> spec_compile(
            s,
            n1,
        )->Ok_0.unique_id != spec_compile(s, n2)->Ok_0.unique_id,
    decreases s,
{
    match s.schema_kind {
        SchemaKind::OneOf(list) => {
            lemma_composite_distinct_identifiers(list@, n1, n2);
        },
        SchemaKind::AllOf(list) => {
            lemma_composite_distinct_identifiers(list@, n1, n2);
        },
        SchemaKind::AnyOf(list) => {
            lemma_composite_distinct_identifiers(list@, n1, n2);
        },
        SchemaKind::Type(t) => match t {
            Type::Object(_o) => {
                assert(spec_compile(s, n1) is Ok ==> spec_compile(s, n1)->Ok_0.unique_id
                    == spec_validate_identifier_string(n1, true));
                assert(spec_compile(s, n2) is Ok ==> spec_compile(s, n2)->Ok_0.unique_id
                    == spec_validate_identifier_string(n2, true));
            },
            Type::Array(a) => {
                assert(spec_compile(s, n1) == spec_compile_array(a, n1));
                assert(spec_compile(s, n2) == spec_compile_array(a, n2));
                match a.items {
                    Some(boxed) => {
                        assert(spec_compile_array(a, n1) == spec_compile_array_item(*boxed, n1));
                        assert(spec_compile_array(a, n2) == spec_compile_array_item(*boxed, n2));
                    },
                    None => {},
                }
                assert(spec_compile(s, n1) is Ok ==> spec_compile(s, n1)->Ok_0.unique_id
                    == spec_validate_identifier_string(n1, true));
                assert(spec_compile(s, n2) is Ok ==> spec_compile(s, n2)->Ok_0.unique_id
                    == spec_validate_identifier_string(n2, true));
            },
            _ => {
                assert(spec_compile(s, n1) is Ok ==> spec_compile(s, n1)->Ok_0.unique_id
                    == spec_validate_identifier_string(n1, false));
                assert(spec_compile(s, n2) is Ok ==> spec_compile(s, n2)->Ok_0.unique_id
                    == spec_validate_identifier_string(n2, false));
            },
        },
        SchemaKind::Any => {},
    }
}

proof fn lemma_composite_distinct_identifiers(
    list: Seq<ReferenceOr<Schema>>,
    n1: Seq<char>,
    n2: Seq<char>,
)
    requires
        n1.len() > 0,
        n2.len() > 0,
        spec_validate_identifier_string(n1, false) != spec_validate_identifier_string(n2, false),
        spec_validate_identifier_string(n1, true) != spec_validate_identifier_string(n2, true),
        spec_validate_identifier_string(n1 + "Enum"@, true) != spec_validate_identifier_string(
            n2 + "Enum"@,
            true,
        ),
    ensures
        spec_compile_composite(list, n1) is Ok && spec_compile_composite(list, n2) is Ok
            ==> spec_compile_composite(list, n1)->Ok_0.unique_id != spec_compile_composite(
            list,
            n2,
        )->Ok_0.unique_id,
    decreases list,
{
    if list.len() == 1 {
        match list[0] {
            ReferenceOr::Item(m) => {
                lemma_compile_distinct_identifiers(m, n1, n2);
            },
            ReferenceOr::Reference { .. } => {},
        }
    }
}

/// Law: a composite with exactly one alternative collapses — compiling it
/// yields exactly what compiling the single alternative directly under the
/// same proposed name yields; no one-variant union is synthesized.
pub proof fn lemma_single_alternative_collapses(s: Schema, member: Schema, name: Seq<char>)
    requires
        ({
            ||| (s.schema_kind matches SchemaKind::OneOf(l) && l@ == seq![
                ReferenceOr::Item(member),
            ])
            ||| (s.schema_kind matches SchemaKind::AllOf(l) && l@ == seq![
                ReferenceOr::Item(member),
            ])
            ||| (s.schema_kind matches SchemaKind::AnyOf(l) && l@ == seq![
                ReferenceOr::Item(member),
            ])
        }),
    ensures
        spec_compile(s, name) == spec_compile(member, name),
{
    match s.schema_kind {
        SchemaKind::OneOf(l) => {
            assert(l@[0] == ReferenceOr::Item(member));
        },
        SchemaKind::AllOf(l) => {
            assert(l@[0] == ReferenceOr::Item(member));
        },
        SchemaKind::AnyOf(l) => {
            assert(l@[0] == ReferenceOr::Item(member));
        },
        _ => {},
    }
}

proof fn lemma_compile_props_prefix_err(
    ps: Seq<(String, ReferenceOr<Schema>)>,
    i: int,
    parent: Seq<char>,
    e: CompileFailure,
)
    requires
        0 <= i <= ps.len(),
        spec_compile_props(ps.take(i), parent) == Err::<Seq<RepView>, CompileFailure>(e),
    ensures
        spec_compile_props(ps, parent) == Err::<Seq<RepView>, CompileFailure>(e),
    decreases ps.len(),
{
    if i < ps.len() {
        assert(ps.drop_last().take(i) =~= ps.take(i));
        lemma_compile_props_prefix_err(ps.drop_last(), i, parent, e);
    } else {
        assert(ps.take(i) =~= ps);
    }
}

proof fn lemma_compile_variants_prefix_err(
    list: Seq<ReferenceOr<Schema>>,
    i: int,
    name: Seq<char>,
    e: CompileFailure,
)
    requires
        0 <= i <= list.len(),
        spec_compile_variants(list.take(i), name) == Err::<Seq<RepView>, CompileFailure>(e),
    ensures
        spec_compile_variants(list, name) == Err::<Seq<RepView>, CompileFailure>(e),
    decreases list.len(),
{
    if i < list.len() {
        assert(list.drop_last().take(i) =~= list.take(i));
        lemma_compile_variants_prefix_err(list.drop_last(), i, name, e);
    } else {
        assert(list.take(i) =~= list);
    }
}

fn dec_digit_exec(n: u32) -> (r: char)
    requires
        n < 10,
    ensures
        r == dec_digit(n as nat),
{
    ((48 + n) as u8) as char
}

/// The decimal text of a number.
pub fn usize_to_string(n: usize) -> (r: String)
    ensures
        r@ == dec_str(n as nat),
    decreases n,
{
    if n < 10 {
        let mut s = String::new();
        push_char(&mut s, dec_digit_exec(n as u32));
        proof {
            assert(s@ =~= dec_str(n as nat));
        }
        s
    } else {
        let mut s = usize_to_string(n / 10);
        push_char(&mut s, dec_digit_exec((n % 10) as u32));
        s
    }
}

/// The scalar type name a primitive schema compiles to, refined by its
/// format; `None` for object and array types.
pub fn format_to_rust_type(schema_type: &Type) -> (r: Option<String>)
    ensures
        match r {
            Some(s) => rust_primitive_type(*schema_type) == Some(s@),
            None => rust_primitive_type(*schema_type) is None,
        },
{
    match schema_type {
        Type::String(_v) => Some(String::from_str("String")),
        Type::Number(v) => match &v.format {
            VariantOrUnknownOrEmpty::Item(f) => match f {
                NumberFormat::Float => Some(String::from_str("f32")),
                NumberFormat::Double => Some(String::from_str("f64")),
            },
            _ => Some(String::from_str("f64")),
        },
        Type::Integer(v) => match &v.format {
            VariantOrUnknownOrEmpty::Item(f) => match f {
                IntegerFormat::Int32 => Some(String::from_str("i32")),
                IntegerFormat::Int64 => Some(String::from_str("i64")),
            },
            _ => Some(String::from_str("i64")),
        },
        Type::Boolean => Some(String::from_str("bool")),
        _ => None,
    }
}

/// Compiles a primitive schema: a scalar type reference under the sanitized
/// proposed name (or a fallback name when none is proposed), with no type
/// definition of its own.
pub fn primitive_type_to_string(schema_type: &Type, property_name: &str) -> (r: Result<
    RustSchemaRepresentation,
    SchemaParserError,
>)
    ensures
        match r {
            Ok(rep) => rust_primitive_type(*schema_type) matches Some(sn) && rep@
                == primitive_rep(property_name@, sn),
            Err(e) => rust_primitive_type(*schema_type) is None && e@
                == CompileFailure::GenericError(msg_unsupported_kind(), Some(property_name@)),
        },
{
    match format_to_rust_type(schema_type) {
        Some(scalar) => {
            let var_name: &str = if !property_name.is_empty() {
                property_name
            } else {
                "value_with_no_name"
            };
            let unique_id = validate_identifier_string(var_name, false);
            let rep = RustSchemaRepresentation {
                unique_id,
                original_key: property_name.to_owned(),
                struct_reference: scalar,
                model_definition: String::new(),
                related_models: Vec::new(),
                model_type: String::from_str("primitive"),
            };
            proof {
                assert(view_reps(rep.related_models@) =~= Seq::<RepView>::empty());
                assert(rep@ == primitive_rep(property_name@, rust_primitive_type(
                    *schema_type,
                )->Some_0));
            }
            Ok(rep)
        },
        None => Err(
            SchemaParserError::GenericError(
                String::from_str("Unsupported schema kind"),
                Some(property_name.to_owned()),
            ),
        ),
    }
}

/// Compiles an object schema: each property is compiled under its own key,
/// and the object becomes a struct whose fields are the compiled properties.
#[verifier::loop_isolation(false)]
pub fn parse_object_schema(schema: &ObjectType, property_name: &str) -> (r: Result<
    RustSchemaRepresentation,
    SchemaParserError,
>)
    ensures
        match r {
            Ok(rep) => spec_compile_object(*schema, property_name@) == Ok::<
                RepView,
                CompileFailure,
            >(rep@),
            Err(e) => spec_compile_object(*schema, property_name@) == Err::<
                RepView,
                CompileFailure,
            >(e@),
        },
    decreases schema, 0int,
{
    let ghost ps = schema.properties@;
    let n = schema.properties.len();
    let mut reps: Vec<RustSchemaRepresentation> = Vec::new();
    let mut i: usize = 0;
    while i < n
        invariant
            i <= n,
            spec_compile_props(ps.take(i as int), property_name@) == Ok::<
                Seq<RepView>,
                CompileFailure,
            >(view_reps(reps@)),
        decreases n - i,
    {
        proof {
            assert(decreases_to!(*schema => schema.properties));
            assert(decreases_to!(schema.properties => schema.properties@));
            assert(decreases_to!(schema.properties@ => schema.properties@[i as int]));
            assert(decreases_to!(schema.properties@[i as int] => schema.properties@[i as int].1));
            assert(ps.take(i as int + 1).drop_last() =~= ps.take(i as int));
            assert(ps.take(i as int + 1).last() == ps[i as int]);
        }
        match &schema.properties[i].1 {
            ReferenceOr::Item(prop_schema) => {
                proof {
                    assert(decreases_to!(schema.properties@[i as int].1 => *prop_schema));
                    assert(decreases_to!(*schema => *prop_schema));
                }
                match parse_json_schema_to_rust_type(prop_schema, schema.properties[i].0.as_str()) {
                    Ok(rep) => {
                        let ghost prev = reps@;
                        let ghost rv = rep@;
                        reps.push(rep);
                        proof {
                            assert(reps@.drop_last() =~= prev);
                            assert(view_reps(reps@) == view_reps(prev).push(rv));
                        }
                    },
                    Err(e) => {
                        proof {
                            lemma_compile_props_prefix_err(ps, i as int + 1, property_name@, e@);
                        }
                        return Err(e);
                    },
                }
            },
            ReferenceOr::Reference { .. } => {
                proof {
                    lemma_compile_props_prefix_err(
                        ps,
                        i as int + 1,
                        property_name@,
                        CompileFailure::GenericError(
                            msg_unsupported_reference(),
                            Some(property_name@),
                        ),
                    );
                }
                return Err(
                    SchemaParserError::GenericError(
                        String::from_str("References are not supported yet"),
                        Some(property_name.to_owned()),
                    ),
                );
            },
        }
        i = i + 1;
    }
    proof {
        assert(ps.take(n as int) =~= ps);
        lemma_view_reps(reps@);
    }
    let ghost rv = view_reps(reps@);
    // render the field lines
    let m = reps.len();
    let mut prop_string = String::new();
    let mut j: usize = 0;
    while j < m
        invariant
            m == reps@.len(),
            j <= m,
            rv == view_reps(reps@),
            rv.len() == m,
            prop_string@ == join_fields(rv.take(j as int)),
        decreases m - j,
    {
        proof {
            assert(rv.take(j as int + 1).drop_last() =~= rv.take(j as int));
            assert(rv.take(j as int + 1).last() == rv[j as int]);
        }
        if j > 0 {
            prop_string.append(",\n");
        }
        prop_string.append("pub ");
        prop_string.append(reps[j].unique_id.as_str());
        prop_string.append(": ");
        prop_string.append(reps[j].struct_reference.as_str());
        proof {
            assert(prop_string@ =~= join_fields(rv.take(j as int + 1)));
        }
        j = j + 1;
    }
    proof {
        assert(rv.take(m as int) =~= rv);
    }
    let identifier = validate_identifier_string(property_name, true);
    let mut definition = String::from_str("#[derive(Clone, Debug, Deserialize, Serialize)]\npub struct ");
    definition.append(identifier.as_str());
    definition.append(" {\n");
    definition.append(prop_string.as_str());
    definition.append("\n}\n");
    let rep = RustSchemaRepresentation {
        unique_id: identifier.clone(),
        original_key: property_name.to_owned(),
        struct_reference: identifier,
        model_definition: definition,
        related_models: reps,
        model_type: String::from_str("struct"),
    };
    proof {
        assert(rep@.model_definition =~= object_rep(property_name@, rv).model_definition);
        assert(rep@ == object_rep(property_name@, rv));
    }
    Ok(rep)
}

/// Compiles an array schema: the item schema, which is required, is compiled
/// under a derived name, and the array becomes a vector of the item's type
/// reference, with the item's representation related to it.
#[verifier::loop_isolation(false)]
pub fn parse_array_schema(array_type: &ArrayType, property_name: &str) -> (r: Result<
    RustSchemaRepresentation,
    SchemaParserError,
>)
    ensures
        match r {
            Ok(rep) => spec_compile_array(*array_type, property_name@) == Ok::<
                RepView,
                CompileFailure,
            >(rep@),
            Err(e) => spec_compile_array(*array_type, property_name@) == Err::<
                RepView,
                CompileFailure,
            >(e@),
        },
    decreases array_type, 1int,
{
    match &array_type.items {
        None => Err(
            SchemaParserError::GenericError(
                String::from_str("Array type without item type"),
                None,
            ),
        ),
        Some(boxed) => {
            match &**boxed {
                ReferenceOr::Reference { .. } => Err(
                    SchemaParserError::GenericError(
                        String::from_str("References are not supported yet"),
                        Some(property_name.to_owned()),
                    ),
                ),
                ReferenceOr::Item(item) => {
                    proof {
                        assert(decreases_to!(*array_type => array_type.items));
                        assert(decreases_to!(array_type.items => array_type.items->0));
                        assert(array_type.items->0 == **boxed);
                        assert(decreases_to!(**boxed => *item));
                        assert(decreases_to!(*array_type => *item));
                    }
                    let mut item_name = property_name.to_owned();
                    item_name.append("Item");
                    match parse_json_schema_to_rust_type(item, item_name.as_str()) {
                        Ok(item_rep) => {
                            let mut reference = String::from_str("Vec<");
                            reference.append(item_rep.struct_reference.as_str());
                            reference.append(">");
                            let ghost irv = item_rep@;
                            let mut related: Vec<RustSchemaRepresentation> = Vec::new();
                            related.push(item_rep);
                            proof {
                                assert(related@.drop_last()
                                    =~= Seq::<RustSchemaRepresentation>::empty());
                                assert(view_reps(related@.drop_last()) =~= Seq::<RepView>::empty());
                                assert(view_rep(related@.last()) == irv);
                                assert(view_reps(related@) == view_reps(related@.drop_last()).push(
                                    view_rep(related@.last()),
                                ));
                                assert(view_reps(related@) =~= seq![irv]);
                            }
                            let rep = RustSchemaRepresentation {
                                unique_id: validate_identifier_string(property_name, true),
                                original_key: property_name.to_owned(),
                                struct_reference: reference,
                                model_definition: String::new(),
                                related_models: related,
                                model_type: String::from_str("array"),
                            };
                            proof {
                                assert(rep.related_models@.drop_last()
                                    =~= Seq::<RustSchemaRepresentation>::empty());
                                assert(view_reps(rep.related_models@) =~= seq![irv]);
                                assert(rep@.struct_reference =~= array_rep(
                                    property_name@,
                                    irv,
                                ).struct_reference);
                                assert(rep@ == array_rep(property_name@, irv));
                            }
                            Ok(rep)
                        },
                        Err(e) => Err(e),
                    }
                },
            }
        },
    }
}

/// Compiles a composite schema: a single alternative is forwarded directly
/// under the parent's own name; several alternatives are compiled under
/// per-index variant names and become a tagged union.
#[verifier::loop_isolation(false)]
pub fn parse_enum_schema(schemas: &Vec<ReferenceOr<Schema>>, property_name: &str) -> (r: Result<
    RustSchemaRepresentation,
    SchemaParserError,
>)
    ensures
        match r {
            Ok(rep) => spec_compile_composite(schemas@, property_name@) == Ok::<
                RepView,
                CompileFailure,
            >(rep@),
            Err(e) => spec_compile_composite(schemas@, property_name@) == Err::<
                RepView,
                CompileFailure,
            >(e@),
        },
    decreases schemas, 1int,
{
    if schemas.len() == 1 {
        match &schemas[0] {
            ReferenceOr::Item(m) => {
                proof {
                    assert(decreases_to!(*schemas => schemas@));
                    assert(decreases_to!(schemas@ => schemas@[0]));
                    assert(decreases_to!(schemas@[0] => *m));
                    assert(decreases_to!(*schemas => *m));
                }
                parse_json_schema_to_rust_type(m, property_name)
            },
            ReferenceOr::Reference { .. } => Err(
                SchemaParserError::GenericError(
                    String::from_str("Refs should be resolved by now"),
                    Some(property_name.to_owned()),
                ),
            ),
        }
    } else {
        let ghost lv = schemas@;
        let n = schemas.len();
        let mut reps: Vec<RustSchemaRepresentation> = Vec::new();
        let mut i: usize = 0;
        while i < n
            invariant
                i <= n,
                spec_compile_variants(lv.take(i as int), property_name@) == Ok::<
                    Seq<RepView>,
                    CompileFailure,
                >(view_reps(reps@)),
            decreases n - i,
        {
            proof {
                assert(decreases_to!(*schemas => schemas@));
                assert(decreases_to!(schemas@ => schemas@[i as int]));
                assert(lv.take(i as int + 1).drop_last() =~= lv.take(i as int));
                assert(lv.take(i as int + 1).last() == lv[i as int]);
                assert(lv.take(i as int + 1).len() == i + 1);
            }
            match &schemas[i] {
                ReferenceOr::Item(m) => {
                    proof {
                        assert(decreases_to!(schemas@[i as int] => *m));
                        assert(decreases_to!(*schemas => *m));
                    }
                    let mut vn = property_name.to_owned();
                    vn.append("Variant");
                    let idx = usize_to_string(i + 1);
                    vn.append(idx.as_str());
                    proof {
                        assert(vn@ =~= variant_name(property_name@, (i + 1) as nat));
                    }
                    match parse_json_schema_to_rust_type(m, vn.as_str()) {
                        Ok(rep) => {
                            let ghost prev = reps@;
                            let ghost rv2 = rep@;
                            reps.push(rep);
                            proof {
                                assert(reps@.drop_last() =~= prev);
                                assert(view_reps(reps@) == view_reps(prev).push(rv2));
                            }
                        },
                        Err(e) => {
                            proof {
                                lemma_compile_variants_prefix_err(
                                    lv,
                                    i as int + 1,
                                    property_name@,
                                    e@,
                                );
                            }
                            return Err(e);
                        },
                    }
                },
                ReferenceOr::Reference { .. } => {
                    proof {
                        lemma_compile_variants_prefix_err(
                            lv,
                            i as int + 1,
                            property_name@,
                            CompileFailure::GenericError(
                                msg_unresolved_member(),
                                Some(property_name@),
                            ),
                        );
                    }
                    return Err(
                        SchemaParserError::GenericError(
                            String::from_str("Refs should be resolved by now"),
                            Some(property_name.to_owned()),
                        ),
                    );
                },
            }
            i = i + 1;
        }
        proof {
            assert(lv.take(n as int) =~= lv);
            lemma_view_reps(reps@);
        }
        let ghost rv = view_reps(reps@);
        let mut name_enum = property_name.to_owned();
        name_enum.append("Enum");
        let identifier = validate_identifier_string(name_enum.as_str(), true);
        let mut definition = String::from_str(
            "#[derive(Serialize, Deserialize, Debug)]\n#[serde(untagged)]\npub enum ",
        );
        definition.append(identifier.as_str());
        definition.append(" {\n");
        let m = reps.len();
        let mut j: usize = 0;
        while j < m
            invariant
                m == reps@.len(),
                j <= m,
                rv == view_reps(reps@),
                rv.len() == m,
                definition@ == "#[derive(Serialize, Deserialize, Debug)]\n#[serde(untagged)]\npub enum "@
                    + identifier@ + " {\n"@ + join_variants(rv.take(j as int)),
            decreases m - j,
        {
            proof {
                assert(rv.take(j as int + 1).drop_last() =~= rv.take(j as int));
                assert(rv.take(j as int + 1).last() == rv[j as int]);
            }
            definition.append(reps[j].unique_id.as_str());
            definition.append("(");
            definition.append(reps[j].struct_reference.as_str());
            definition.append("),\n");
            proof {
                assert(definition@
                    =~= "#[derive(Serialize, Deserialize, Debug)]\n#[serde(untagged)]\npub enum "@
                    + identifier@ + " {\n"@ + join_variants(rv.take(j as int + 1)));
            }
            j = j + 1;
        }
        proof {
            assert(rv.take(m as int) =~= rv);
        }
        definition.append("}\n");
        let rep = RustSchemaRepresentation {
            unique_id: identifier.clone(),
            original_key: property_name.to_owned(),
            struct_reference: identifier,
            model_definition: definition,
            related_models: reps,
            model_type: String::from_str("enum"),
        };
        proof {
            assert(name_enum@ =~= property_name@ + "Enum"@);
            assert(rep@.model_definition =~= enum_rep(property_name@, rv).model_definition);
            assert(rep@ == enum_rep(property_name@, rv));
        }
        Ok(rep)
    }
}

/// Compiles a schema to a target-type representation: dispatches on the
/// schema's shape.
#[verifier::loop_isolation(false)]
pub fn parse_json_schema_to_rust_type(schema: &Schema, property_name: &str) -> (r: Result<
    RustSchemaRepresentation,
    SchemaParserError,
>)
    ensures
        match r {
            Ok(rep) => spec_compile(*schema, property_name@) == Ok::<RepView, CompileFailure>(
                rep@,
            ),
            Err(e) => spec_compile(*schema, property_name@) == Err::<RepView, CompileFailure>(e@),
        },
    decreases schema, 2int,
{
    match &schema.schema_kind {
        SchemaKind::Type(t) => {
            proof {
                assert(decreases_to!(*schema => schema.schema_kind));
                assert(decreases_to!(schema.schema_kind => *t));
            }
            match t {
                Type::Object(o) => {
                    proof {
                        assert(decreases_to!(*t => *o));
                        assert(decreases_to!(*schema => *o));
                    }
                    parse_object_schema(o, property_name)
                },
                Type::Array(a) => {
                    proof {
                        assert(decreases_to!(*t => *a));
                        assert(decreases_to!(*schema => *a));
                    }
                    parse_array_schema(a, property_name)
                },
                _ => primitive_type_to_string(t, property_name),
            }
        },
        SchemaKind::OneOf(list) => {
            proof {
                assert(decreases_to!(*schema => schema.schema_kind));
                assert(decreases_to!(schema.schema_kind => *list));
                assert(decreases_to!(*schema => *list));
            }
            parse_enum_schema(list, property_name)
        },
        SchemaKind::AllOf(list) => {
            proof {
                assert(decreases_to!(*schema => schema.schema_kind));
                assert(decreases_to!(schema.schema_kind => *list));
                assert(decreases_to!(*schema => *list));
            }
            parse_enum_schema(list, property_name)
        },
        SchemaKind::AnyOf(list) => {
            proof {
                assert(decreases_to!(*schema => schema.schema_kind));
                assert(decreases_to!(schema.schema_kind => *list));
                assert(decreases_to!(*schema => *list));
            }
            parse_enum_schema(list, property_name)
        },
        SchemaKind::Any => Err(
            SchemaParserError::GenericError(
                String::from_str("Unsupported schema kind"),
                Some(property_name.to_owned()),
            ),
        ),
    }
}

} // verus!
