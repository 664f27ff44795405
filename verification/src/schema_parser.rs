//! Builders for the union types emitted when an operation carries several
//! messages or a payload has several shapes.

use vstd::prelude::*;

use crate::ident::{spec_validate_identifier_string, validate_identifier_string};
use crate::json_schema_parser::{dec_str, format_to_rust_type, msg_array_without_items,
    msg_unresolved_member, msg_unsupported_kind, msg_unsupported_reference, rust_primitive_type,
    usize_to_string};
use crate::reference::ReferenceOr;
use crate::rust_schema_representation::view_rep;
use crate::schema::{ArrayType, ObjectType, Schema, SchemaKind, Type};
use crate::schema_parser_error::{CompileFailure, SchemaParserError};
use crate::template_model::{lemma_view_msgs, view_msgs, MultiStructEnum, SimplifiedMessage};

verus! {

/// The variable name a property line is emitted under: the sanitized
/// property name, or a fallback when none is proposed.
pub open spec fn legacy_var_name(name: Seq<char>) -> Seq<char> {
    if name.len() > 0 {
        spec_validate_identifier_string(name, false)
    } else {
        "value_with_no_name"@
    }
}

/// The field line of a primitive property.
pub open spec fn spec_legacy_primitive(t: Type, name: Seq<char>) -> Result<
    Seq<char>,
    CompileFailure,
> {
    match rust_primitive_type(t) {
        Some(ty) => Ok("pub "@ + legacy_var_name(name) + ": "@ + ty),
        None => Err(CompileFailure::GenericError(msg_unsupported_kind(), Some(name))),
    }
}

/// The field line of an array property; the item must be a declared
/// primitive type.
pub open spec fn spec_legacy_array(a: ArrayType, name: Seq<char>) -> Result<
    Seq<char>,
    CompileFailure,
> {
    match a.items {
        Some(boxed) => match *boxed {
            ReferenceOr::Item(item) => match item.schema_kind {
                SchemaKind::Type(t) => match rust_primitive_type(t) {
                    Some(ty) => Ok(
                        "pub "@ + spec_validate_identifier_string(name, false) + ": Vec<"@ + ty
                            + ">"@,
                    ),
                    None => Err(
                        CompileFailure::GenericError(msg_unsupported_kind(), Some(name)),
                    ),
                },
                _ => Err(CompileFailure::GenericError(msg_unsupported_kind(), Some(name))),
            },
            ReferenceOr::Reference { .. } => Err(
                CompileFailure::GenericError(msg_unsupported_reference(), Some(name)),
            ),
        },
        None => Err(CompileFailure::GenericError(msg_array_without_items(), None)),
    }
}

/// Field lines joined with a comma and newline.
pub open spec fn join_lines(s: Seq<Seq<char>>) -> Seq<char>
    decreases s,
{
    if s.len() == 0 {
        Seq::empty()
    } else if s.len() == 1 {
        s.last()
    } else {
        join_lines(s.drop_last()) + ",\n"@ + s.last()
    }
}

/// What compiling a schema to field lines and registered struct definitions
/// yields: the property's field line and the updated registry.
pub open spec fn spec_schema_to_rust_types(
    s: Schema,
    name: Seq<char>,
    reg: Seq<(Seq<char>, Seq<char>)>,
) -> Result<(Seq<char>, Seq<(Seq<char>, Seq<char>)>), CompileFailure>
    decreases s, 2int,
{
    match s.schema_kind {
        SchemaKind::Type(t) => match t {
            Type::Object(o) => match spec_legacy_object(o, name, reg) {
                Ok(res) => Ok(
                    (
                        "pub "@ + res.0 + ": "@ + spec_validate_identifier_string(res.0, true),
                        res.1,
                    ),
                ),
                Err(e) => Err(e),
            },
            Type::Array(a) => match spec_legacy_array(a, name) {
                Ok(line) => Ok((line, reg)),
                Err(e) => Err(e),
            },
            _ => match spec_legacy_primitive(t, name) {
                Ok(line) => Ok((line, reg)),
                Err(e) => Err(e),
            },
        },
        SchemaKind::OneOf(list) => spec_legacy_composite(list@, name, reg),
        SchemaKind::AllOf(list) => spec_legacy_composite(list@, name, reg),
        SchemaKind::AnyOf(list) => spec_legacy_composite(list@, name, reg),
        SchemaKind::Any => Err(CompileFailure::GenericError(msg_unsupported_kind(), Some(name))),
    }
}

/// Compilation of an object to a registered struct definition; yields the
/// raw name the definition is registered under.
pub open spec fn spec_legacy_object(
    o: ObjectType,
    name: Seq<char>,
    reg: Seq<(Seq<char>, Seq<char>)>,
) -> Result<(Seq<char>, Seq<(Seq<char>, Seq<char>)>), CompileFailure>
    decreases o, 0int,
{
    match spec_legacy_props(o.properties@, name, reg) {
        Ok(res) => {
            let full = "#[derive(Clone, Debug, Deserialize, Serialize)]\npub struct "@
                + spec_validate_identifier_string(name, true) + " {\n"@ + join_lines(res.0)
                + "\n}\n"@;
            Ok((name, spec_registry_insert(res.1, name, full)))
        },
        Err(e) => Err(e),
    }
}

/// Compilation of an object's properties to field lines, threading the
/// registry; a property that is still a reference fails naming the parent.
pub open spec fn spec_legacy_props(
    ps: Seq<(String, ReferenceOr<Schema>)>,
    parent: Seq<char>,
    reg: Seq<(Seq<char>, Seq<char>)>,
) -> Result<(Seq<Seq<char>>, Seq<(Seq<char>, Seq<char>)>), CompileFailure>
    decreases ps, 0int,
{
    if ps.len() == 0 {
        Ok((Seq::empty(), reg))
    } else {
        match spec_legacy_props(ps.drop_last(), parent, reg) {
            Ok(pre) => match ps.last().1 {
                ReferenceOr::Item(sch) => match spec_schema_to_rust_types(
                    sch,
                    ps.last().0@,
                    pre.1,
                ) {
                    Ok(res) => Ok((pre.0.push(res.0), res.1)),
                    Err(e) => Err(e),
                },
                ReferenceOr::Reference { .. } => Err(
                    CompileFailure::GenericError(msg_unsupported_reference(), Some(parent)),
                ),
            },
            Err(e) => Err(e),
        }
    }
}

/// The variant name a composite's alternative is compiled under here.
pub open spec fn payload_variant_name(name: Seq<char>, index1: nat) -> Seq<char> {
    name + "Payload"@ + dec_str(index1)
}

/// Compilation of a composite's alternatives: the concatenated member lines,
/// the variant names, and the updated registry.
pub open spec fn spec_legacy_variants(
    list: Seq<ReferenceOr<Schema>>,
    name: Seq<char>,
    reg: Seq<(Seq<char>, Seq<char>)>,
) -> Result<(Seq<char>, Seq<Seq<char>>, Seq<(Seq<char>, Seq<char>)>), CompileFailure>
    decreases list, 0int,
{
    if list.len() == 0 {
        Ok((Seq::empty(), Seq::empty(), reg))
    } else {
        match spec_legacy_variants(list.drop_last(), name, reg) {
            Ok(pre) => match list.last() {
                ReferenceOr::Item(m) => {
                    let vname = payload_variant_name(name, list.len());
                    match spec_schema_to_rust_types(m, vname, pre.2) {
                        Ok(res) => Ok(
                            (pre.0 + res.0 + "\n"@, pre.1.push(vname), res.1),
                        ),
                        Err(e) => Err(e),
                    }
                },
                ReferenceOr::Reference { .. } => Err(
                    CompileFailure::GenericError(msg_unresolved_member(), Some(name)),
                ),
            },
            Err(e) => Err(e),
        }
    }
}

/// The variant lines of a payload enum, over the variant names.
pub open spec fn payload_variants_chars(names: Seq<Seq<char>>) -> Seq<char>
    decreases names,
{
    if names.len() == 0 {
        Seq::empty()
    } else {
        let id = spec_validate_identifier_string(names.last(), true);
        payload_variants_chars(names.drop_last()) + id + "("@ + id + "),\n"@
    }
}

/// The payload enum definition, over the variant names.
pub open spec fn payload_enum_text_chars(names: Seq<Seq<char>>, enum_name: Seq<char>) -> Seq<
    char,
> {
    "#[derive(Serialize, Deserialize, Debug)]\n#[serde(untagged)]\npub enum "@
        + spec_validate_identifier_string(enum_name, true) + " {\n"@ + payload_variants_chars(
        names,
    ) + "\n}\n"@
}

/// Compilation of a composite: one alternative passes through; several get
/// a payload enum and a wrapping message struct registered beside them.
pub open spec fn spec_legacy_composite(
    list: Seq<ReferenceOr<Schema>>,
    name: Seq<char>,
    reg: Seq<(Seq<char>, Seq<char>)>,
) -> Result<(Seq<char>, Seq<(Seq<char>, Seq<char>)>), CompileFailure>
    decreases list, 1int,
{
    match spec_legacy_variants(list, name, reg) {
        Ok(res) => {
            if list.len() == 1 {
                Ok((res.0, res.2))
            } else {
                let enum_name = name + "PayloadEnum"@;
                let enum_text = payload_enum_text_chars(res.1, enum_name);
                let msg_text = spec_multi_payload_message_text(name, enum_name);
                Ok(
                    (
                        res.0 + enum_text,
                        spec_registry_insert(
                            spec_registry_insert(res.2, enum_name, enum_text),
                            name,
                            msg_text,
                        ),
                    ),
                )
            }
        },
        Err(e) => Err(e),
    }
}

/// The variant lines of a multi-message enum: one line per message, naming
/// its camel-case identifier as both variant and content.
pub open spec fn spec_message_variants(msgs: Seq<SimplifiedMessage>) -> Seq<char>
    decreases msgs,
{
    if msgs.len() == 0 {
        Seq::empty()
    } else {
        let id = spec_validate_identifier_string(msgs.last().unique_id@, true);
        spec_message_variants(msgs.drop_last()) + id + "("@ + id + "),\n"@
    }
}

/// The definition text of a multi-message enum named `unique_id`.
pub open spec fn spec_multi_message_enum_text(msgs: Seq<SimplifiedMessage>, unique_id: Seq<char>) -> Seq<
    char,
> {
    "#[derive(Serialize, Deserialize, Debug)]\n#[serde(untagged)]\npub enum "@
        + spec_validate_identifier_string(unique_id, true) + " {\n"@ + spec_message_variants(msgs)
        + "\n}\n"@
}

/// The variant lines of a multi-payload enum: one line per struct name.
pub open spec fn spec_payload_variants(names: Seq<String>) -> Seq<char>
    decreases names,
{
    if names.len() == 0 {
        Seq::empty()
    } else {
        let id = spec_validate_identifier_string(names.last()@, true);
        spec_payload_variants(names.drop_last()) + id + "("@ + id + "),\n"@
    }
}

/// The definition text of a multi-payload enum named `enum_name`.
pub open spec fn spec_multi_payload_enum_text(names: Seq<String>, enum_name: Seq<char>) -> Seq<
    char,
> {
    "#[derive(Serialize, Deserialize, Debug)]\n#[serde(untagged)]\npub enum "@
        + spec_validate_identifier_string(enum_name, true) + " {\n"@ + spec_payload_variants(names)
        + "\n}\n"@
}

/// The definition text of a message struct wrapping one payload.
pub open spec fn spec_multi_payload_message_text(
    message_name: Seq<char>,
    payload_name: Seq<char>,
) -> Seq<char> {
    "#[derive(Serialize, Deserialize, Debug)]\npub struct "@ + spec_validate_identifier_string(
        message_name,
        true,
    ) + " {\npayload: "@ + spec_validate_identifier_string(payload_name, true) + ",\n}\n"@
}

/// Insert-or-replace into the registry of named struct definitions: the
/// first entry with the key is replaced in place, otherwise the pair is
/// appended.
pub open spec fn spec_registry_insert(
    s: Seq<(Seq<char>, Seq<char>)>,
    k: Seq<char>,
    v: Seq<char>,
) -> Seq<(Seq<char>, Seq<char>)>
    decreases s.len(),
{
    if s.len() == 0 {
        seq![(k, v)]
    } else if s[0].0 == k {
        seq![(k, v)] + s.drop_first()
    } else {
        seq![s[0]] + spec_registry_insert(s.drop_first(), k, v)
    }
}

/// The views of the registry entries.
pub open spec fn view_pairs(s: Seq<(String, String)>) -> Seq<(Seq<char>, Seq<char>)>
    decreases s,
{
    if s.len() == 0 {
        Seq::empty()
    } else {
        view_pairs(s.drop_last()).push((s.last().0@, s.last().1@))
    }
}

/// The view of a registry is the entry-wise view.
pub proof fn lemma_view_pairs(s: Seq<(String, String)>)
    ensures
        view_pairs(s).len() == s.len(),
        forall|i: int| 0 <= i < s.len() ==> view_pairs(s)[i] == ((#[trigger] s[i]).0@, s[i].1@),
    decreases s,
{
    if s.len() > 0 {
        lemma_view_pairs(s.drop_last());
        assert forall|i: int| 0 <= i < s.len() implies view_pairs(s)[i] == ((#[trigger] s[i]).0@,
        s[i].1@) by {
            if i < s.len() - 1 {
                assert(s.drop_last()[i] == s[i]);
            } else {
                assert(s[i] == s.last());
            }
        }
    }
}

proof fn lemma_registry_insert_no_match(rv: Seq<(Seq<char>, Seq<char>)>, i: int, k: Seq<char>, v: Seq<char>)
    requires
        0 <= i <= rv.len(),
        forall|j: int| 0 <= j < i ==> rv[j].0 != k,
    ensures
        spec_registry_insert(rv, k, v) == rv.take(i) + spec_registry_insert(rv.skip(i), k, v),
    decreases i,
{
    if i == 0 {
        assert(rv.skip(0) =~= rv);
        assert(rv.take(0) + spec_registry_insert(rv, k, v) =~= spec_registry_insert(rv, k, v));
    } else {
        lemma_registry_insert_no_match(rv, i - 1, k, v);
        let t = rv.skip(i - 1);
        assert(t[0] == rv[i - 1]);
        assert(t[0].0 != k);
        assert(t.drop_first() =~= rv.skip(i));
        assert(rv.take(i - 1) + (seq![t[0]] + spec_registry_insert(rv.skip(i), k, v)) =~= rv.take(
            i,
        ) + spec_registry_insert(rv.skip(i), k, v));
    }
}

/// Inserts a named struct definition, replacing the definition stored under
/// the same name if one exists.
#[verifier::loop_isolation(false)]
pub fn registry_insert(registry: &mut Vec<(String, String)>, key: String, value: String)
    ensures
        view_pairs(final(registry)@) == spec_registry_insert(view_pairs(old(registry)@), key@, value@),
{
    proof {
        lemma_view_pairs(registry@);
    }
    let ghost rv = view_pairs(registry@);
    let n = registry.len();
    let mut i: usize = 0;
    while i < n
        invariant
            i <= n,
            n == registry@.len(),
            rv == view_pairs(registry@),
            rv.len() == n,
            forall|j: int| 0 <= j < i ==> rv[j].0 != key@,
        decreases n - i,
    {
        if registry[i].0 == key {
            proof {
                lemma_registry_insert_no_match(rv, i as int, key@, value@);
                assert(rv.skip(i as int)[0] == rv[i as int]);
                assert(rv.skip(i as int).drop_first() =~= rv.skip(i as int + 1));
            }
            let ghost kv = key@;
            let ghost vv = value@;
            let ghost before = registry@;
            registry.remove(i);
            let ghost mid = registry@;
            registry.insert(i, (key, value));
            proof {
                assert(mid =~= before.remove(i as int));
                assert(registry@ =~= mid.insert(i as int, (key, value)));
                lemma_view_pairs(registry@);
                lemma_view_pairs(before);
                let target = rv.take(i as int) + (seq![(kv, vv)] + rv.skip(i as int + 1));
                assert(registry@.len() == n);
                assert forall|j: int| 0 <= j < n implies view_pairs(registry@)[j] == target[j] by {
                    if j < i {
                        assert(registry@[j] == before[j]);
                        assert(target[j] == rv[j]);
                    } else if j == i {
                        assert(registry@[j] == (key, value));
                    } else {
                        assert(registry@[j] == before[j]);
                        assert(target[j] == rv[j]);
                    }
                }
                assert(view_pairs(registry@) =~= target);
            }
            return ;
        }
        proof {
            lemma_view_pairs(registry@);
            assert(rv[i as int] == (registry@[i as int].0@, registry@[i as int].1@));
        }
        i = i + 1;
    }
    proof {
        lemma_registry_insert_no_match(rv, n as int, key@, value@);
        assert(rv.skip(n as int) =~= Seq::<(Seq<char>, Seq<char>)>::empty());
    }
    let ghost kv = key@;
    let ghost vv = value@;
    let ghost before = registry@;
    registry.push((key, value));
    proof {
        assert(registry@.drop_last() =~= before);
        assert(view_pairs(registry@) == view_pairs(before).push((kv, vv)));
        assert(view_pairs(registry@) =~= rv.take(n as int) + seq![(kv, vv)]);
    }
}

/// The views of a sequence of strings.
pub open spec fn view_strings(s: Seq<String>) -> Seq<Seq<char>>
    decreases s,
{
    if s.len() == 0 {
        Seq::empty()
    } else {
        view_strings(s.drop_last()).push(s.last()@)
    }
}

/// The view of a string sequence is the element-wise view.
pub proof fn lemma_view_strings(s: Seq<String>)
    ensures
        view_strings(s).len() == s.len(),
        forall|i: int| 0 <= i < s.len() ==> view_strings(s)[i] == (#[trigger] s[i])@,
    decreases s,
{
    if s.len() > 0 {
        lemma_view_strings(s.drop_last());
        assert forall|i: int| 0 <= i < s.len() implies view_strings(s)[i] == (#[trigger] s[i])@ by {
            if i < s.len() - 1 {
                assert(s.drop_last()[i] == s[i]);
            } else {
                assert(s[i] == s.last());
            }
        }
    }
}

proof fn lemma_payload_variants_bridge(names: Seq<String>, chars: Seq<Seq<char>>)
    requires
        names.len() == chars.len(),
        forall|i: int| 0 <= i < names.len() ==> (#[trigger] names[i])@ == chars[i],
    ensures
        spec_payload_variants(names) == payload_variants_chars(chars),
    decreases names,
{
    if names.len() > 0 {
        assert(names[names.len() - 1]@ == chars[chars.len() - 1]);
        assert forall|i: int| 0 <= i < names.drop_last().len() implies (#[trigger] names.drop_last()[i])@
            == chars.drop_last()[i] by {
            assert(names.drop_last()[i] == names[i]);
            assert(chars.drop_last()[i] == chars[i]);
        }
        lemma_payload_variants_bridge(names.drop_last(), chars.drop_last());
    }
}

proof fn lemma_legacy_props_prefix_err(
    ps: Seq<(String, ReferenceOr<Schema>)>,
    i: int,
    parent: Seq<char>,
    reg: Seq<(Seq<char>, Seq<char>)>,
    e: CompileFailure,
)
    requires
        0 <= i <= ps.len(),
        spec_legacy_props(ps.take(i), parent, reg) == Err::<
            (Seq<Seq<char>>, Seq<(Seq<char>, Seq<char>)>),
            CompileFailure,
        >(e),
    ensures
        spec_legacy_props(ps, parent, reg) == Err::<
            (Seq<Seq<char>>, Seq<(Seq<char>, Seq<char>)>),
            CompileFailure,
        >(e),
    decreases ps.len(),
{
    if i < ps.len() {
        assert(ps.drop_last().take(i) =~= ps.take(i));
        lemma_legacy_props_prefix_err(ps.drop_last(), i, parent, reg, e);
    } else {
        assert(ps.take(i) =~= ps);
    }
}

proof fn lemma_legacy_variants_len(
    list: Seq<ReferenceOr<Schema>>,
    name: Seq<char>,
    reg: Seq<(Seq<char>, Seq<char>)>,
)
    ensures
        spec_legacy_variants(list, name, reg) is Ok ==> spec_legacy_variants(
            list,
            name,
            reg,
        )->Ok_0.1.len() == list.len(),
    decreases list,
{
    if list.len() > 0 {
        lemma_legacy_variants_len(list.drop_last(), name, reg);
    }
}

proof fn lemma_legacy_variants_prefix_err(
    list: Seq<ReferenceOr<Schema>>,
    i: int,
    name: Seq<char>,
    reg: Seq<(Seq<char>, Seq<char>)>,
    e: CompileFailure,
)
    requires
        0 <= i <= list.len(),
        spec_legacy_variants(list.take(i), name, reg) == Err::<
            (Seq<char>, Seq<Seq<char>>, Seq<(Seq<char>, Seq<char>)>),
            CompileFailure,
        >(e),
    ensures
        spec_legacy_variants(list, name, reg) == Err::<
            (Seq<char>, Seq<Seq<char>>, Seq<(Seq<char>, Seq<char>)>),
            CompileFailure,
        >(e),
    decreases list.len(),
{
    if i < list.len() {
        assert(list.drop_last().take(i) =~= list.take(i));
        lemma_legacy_variants_prefix_err(list.drop_last(), i, name, reg, e);
    } else {
        assert(list.take(i) =~= list);
    }
}

/// The field line of a primitive property: its sanitized name (or the
/// fallback name) and its scalar type.
pub fn primitive_type_to_string(schema_type: &Type, property_name: &str) -> (r: Result<
    String,
    SchemaParserError,
>)
    ensures
        match r {
            Ok(line) => spec_legacy_primitive(*schema_type, property_name@) == Ok::<
                Seq<char>,
                CompileFailure,
            >(line@),
            Err(e) => spec_legacy_primitive(*schema_type, property_name@) == Err::<
                Seq<char>,
                CompileFailure,
            >(e@),
        },
{
    match format_to_rust_type(schema_type) {
        Some(ty) => {
            let var_name = if !property_name.is_empty() {
                validate_identifier_string(property_name, false)
            } else {
                String::from_str("value_with_no_name")
            };
            let mut line = String::from_str("pub ");
            line.append(var_name.as_str());
            line.append(": ");
            line.append(ty.as_str());
            proof {
                assert(line@ =~= "pub "@ + legacy_var_name(property_name@) + ": "@ + ty@);
            }
            Ok(line)
        },
        None => Err(
            SchemaParserError::GenericError(
                String::from_str("Unsupported schema kind"),
                Some(property_name.to_owned()),
            ),
        ),
    }
}

/// The field line of an array property, whose item schema must declare a
/// primitive type.
pub fn array_type_to_string(array_type: &ArrayType, property_name: &str) -> (r: Result<
    String,
    SchemaParserError,
>)
    ensures
        match r {
            Ok(line) => spec_legacy_array(*array_type, property_name@) == Ok::<
                Seq<char>,
                CompileFailure,
            >(line@),
            Err(e) => spec_legacy_array(*array_type, property_name@) == Err::<
                Seq<char>,
                CompileFailure,
            >(e@),
        },
{
    match &array_type.items {
        None => Err(
            SchemaParserError::GenericError(
                String::from_str("Array type without item type"),
                None,
            ),
        ),
        Some(boxed) => match &**boxed {
            ReferenceOr::Reference { .. } => Err(
                SchemaParserError::GenericError(
                    String::from_str("References are not supported yet"),
                    Some(property_name.to_owned()),
                ),
            ),
            ReferenceOr::Item(item) => match &item.schema_kind {
                SchemaKind::Type(t) => match format_to_rust_type(t) {
                    Some(ty) => {
                        let mut line = String::from_str("pub ");
                        line.append(validate_identifier_string(property_name, false).as_str());
                        line.append(": Vec<");
                        line.append(ty.as_str());
                        line.append(">");
                        proof {
                            assert(line@ =~= "pub "@ + spec_validate_identifier_string(
                                property_name@,
                                false,
                            ) + ": Vec<"@ + ty@ + ">"@);
                        }
                        Ok(line)
                    },
                    None => Err(
                        SchemaParserError::GenericError(
                            String::from_str("Unsupported schema kind"),
                            Some(property_name.to_owned()),
                        ),
                    ),
                },
                _ => Err(
                    SchemaParserError::GenericError(
                        String::from_str("Unsupported schema kind"),
                        Some(property_name.to_owned()),
                    ),
                ),
            },
        },
    }
}

/// Compiles an object to a struct definition, registers the definition under
/// the object's raw name, and returns that name.
#[verifier::loop_isolation(false)]
pub fn object_schema_to_string(
    schema: &ObjectType,
    property_name: &str,
    all_structs: &mut Vec<(String, String)>,
) -> (r: Result<String, SchemaParserError>)
    ensures
        match r {
            Ok(sname) => spec_legacy_object(
                *schema,
                property_name@,
                view_pairs(old(all_structs)@),
            ) == Ok::<(Seq<char>, Seq<(Seq<char>, Seq<char>)>), CompileFailure>(
                (sname@, view_pairs(final(all_structs)@)),
            ),
            Err(e) => spec_legacy_object(
                *schema,
                property_name@,
                view_pairs(old(all_structs)@),
            ) == Err::<(Seq<char>, Seq<(Seq<char>, Seq<char>)>), CompileFailure>(e@),
        },
    decreases schema, 3int,
{
    let ghost ps = schema.properties@;
    let ghost reg0 = view_pairs(all_structs@);
    let n = schema.properties.len();
    let mut lines: Vec<String> = Vec::new();
    let mut i: usize = 0;
    while i < n
        invariant
            i <= n,
            spec_legacy_props(ps.take(i as int), property_name@, reg0) == Ok::<
                (Seq<Seq<char>>, Seq<(Seq<char>, Seq<char>)>),
                CompileFailure,
            >((view_strings(lines@), view_pairs(all_structs@))),
        decreases n - i,
    {
        proof {
            assert(decreases_to!(*schema => schema.properties));
            assert(decreases_to!(schema.properties => schema.properties@));
            assert(decreases_to!(schema.properties@ => schema.properties@[i as int]));
            assert(decreases_to!(schema.properties@[i as int] => schema.properties@[i as int].1));
            assert(ps.take(i as int + 1).drop_last() =~= ps.take(i as int));
            assert(ps.take(i as int + 1).last() == ps[i as int]);
        }
        match &schema.properties[i].1 {
            ReferenceOr::Item(prop_schema) => {
                proof {
                    assert(decreases_to!(schema.properties@[i as int].1 => *prop_schema));
                    assert(decreases_to!(*schema => *prop_schema));
                }
                match schema_to_rust_types(
                    prop_schema,
                    schema.properties[i].0.as_str(),
                    all_structs,
                ) {
                    Ok(line) => {
                        let ghost prev = lines@;
                        let ghost lvw = line@;
                        lines.push(line);
                        proof {
                            assert(lines@.drop_last() =~= prev);
                            assert(view_strings(lines@) == view_strings(prev).push(lvw));
                        }
                    },
                    Err(e) => {
                        proof {
                            lemma_legacy_props_prefix_err(
                                ps,
                                i as int + 1,
                                property_name@,
                                reg0,
                                e@,
                            );
                        }
                        return Err(e);
                    },
                }
            },
            ReferenceOr::Reference { .. } => {
                proof {
                    lemma_legacy_props_prefix_err(
                        ps,
                        i as int + 1,
                        property_name@,
                        reg0,
                        CompileFailure::GenericError(
                            msg_unsupported_reference(),
                            Some(property_name@),
                        ),
                    );
                }
                return Err(
                    SchemaParserError::GenericError(
                        String::from_str("References are not supported yet"),
                        Some(property_name.to_owned()),
                    ),
                );
            },
        }
        i = i + 1;
    }
    proof {
        assert(ps.take(n as int) =~= ps);
        lemma_view_strings(lines@);
    }
    let ghost lsv = view_strings(lines@);
    let m = lines.len();
    let mut property_string = String::new();
    let mut j: usize = 0;
    while j < m
        invariant
            m == lines@.len(),
            j <= m,
            lsv == view_strings(lines@),
            lsv.len() == m,
            property_string@ == join_lines(lsv.take(j as int)),
        decreases m - j,
    {
        proof {
            assert(lsv.take(j as int + 1).drop_last() =~= lsv.take(j as int));
            assert(lsv.take(j as int + 1).last() == lsv[j as int]);
        }
        if j > 0 {
            property_string.append(",\n");
        }
        property_string.append(lines[j].as_str());
        proof {
            assert(property_string@ =~= join_lines(lsv.take(j as int + 1)));
        }
        j = j + 1;
    }
    proof {
        assert(lsv.take(m as int) =~= lsv);
    }
    let identifier = validate_identifier_string(property_name, true);
    let mut full = String::from_str("#[derive(Clone, Debug, Deserialize, Serialize)]\npub struct ");
    full.append(identifier.as_str());
    full.append(" {\n");
    full.append(property_string.as_str());
    full.append("\n}\n");
    proof {
        assert(full@ =~= "#[derive(Clone, Debug, Deserialize, Serialize)]\npub struct "@
            + spec_validate_identifier_string(property_name@, true) + " {\n"@ + join_lines(lsv)
            + "\n}\n"@);
    }
    registry_insert(all_structs, property_name.to_owned(), full);
    Ok(property_name.to_owned())
}

/// Compiles a schema to its field line, registering every struct definition
/// it produces along the way: the older, text-registry form of the compiler.
#[verifier::loop_isolation(false)]
pub fn schema_to_rust_types(
    schema: &Schema,
    property_name: &str,
    all_structs: &mut Vec<(String, String)>,
) -> (r: Result<String, SchemaParserError>)
    ensures
        match r {
            Ok(line) => spec_schema_to_rust_types(
                *schema,
                property_name@,
                view_pairs(old(all_structs)@),
            ) == Ok::<(Seq<char>, Seq<(Seq<char>, Seq<char>)>), CompileFailure>(
                (line@, view_pairs(final(all_structs)@)),
            ),
            Err(e) => spec_schema_to_rust_types(
                *schema,
                property_name@,
                view_pairs(old(all_structs)@),
            ) == Err::<(Seq<char>, Seq<(Seq<char>, Seq<char>)>), CompileFailure>(e@),
        },
    decreases schema, 4int,
{
    let ghost reg0 = view_pairs(all_structs@);
    match &schema.schema_kind {
        SchemaKind::Type(t) => {
            proof {
                assert(decreases_to!(*schema => schema.schema_kind));
                assert(decreases_to!(schema.schema_kind => *t));
            }
            match t {
                Type::Object(o) => {
                    proof {
                        assert(decreases_to!(*t => *o));
                        assert(decreases_to!(*schema => *o));
                    }
                    match object_schema_to_string(o, property_name, all_structs) {
                        Ok(sname) => {
                            let mut line = String::from_str("pub ");
                            line.append(sname.as_str());
                            line.append(": ");
                            line.append(validate_identifier_string(sname.as_str(), true).as_str());
                            proof {
                                assert(line@ =~= "pub "@ + sname@ + ": "@
                                    + spec_validate_identifier_string(sname@, true));
                            }
                            Ok(line)
                        },
                        Err(e) => Err(e),
                    }
                },
                Type::Array(a) => match array_type_to_string(a, property_name) {
                    Ok(line) => Ok(line),
                    Err(e) => Err(e),
                },
                _ => match primitive_type_to_string(t, property_name) {
                    Ok(line) => Ok(line),
                    Err(e) => Err(e),
                },
            }
        },
        SchemaKind::Any => Err(
            SchemaParserError::GenericError(
                String::from_str("Unsupported schema kind"),
                Some(property_name.to_owned()),
            ),
        ),
        _ => {
            let list = match &schema.schema_kind {
                SchemaKind::OneOf(list) => list,
                SchemaKind::AllOf(list) => list,
                SchemaKind::AnyOf(list) => list,
                _ => {
                    proof {
                        assert(false);
                    }
                    return Err(SchemaParserError::GenericError(String::new(), None));
                },
            };
            proof {
                assert(decreases_to!(*schema => schema.schema_kind));
                assert(decreases_to!(schema.schema_kind => *list));
                assert(decreases_to!(*schema => *list));
            }
            let ghost lv = list@;
            let n = list.len();
            let mut combined = String::new();
            let mut names: Vec<String> = Vec::new();
            let mut i: usize = 0;
            while i < n
                invariant
                    i <= n,
                    spec_legacy_variants(lv.take(i as int), property_name@, reg0) == Ok::<
                        (Seq<char>, Seq<Seq<char>>, Seq<(Seq<char>, Seq<char>)>),
                        CompileFailure,
                    >((combined@, view_strings(names@), view_pairs(all_structs@))),
                decreases n - i,
            {
                proof {
                    assert(decreases_to!(*list => list@));
                    assert(decreases_to!(list@ => list@[i as int]));
                    assert(lv.take(i as int + 1).drop_last() =~= lv.take(i as int));
                    assert(lv.take(i as int + 1).last() == lv[i as int]);
                    assert(lv.take(i as int + 1).len() == i + 1);
                }
                match &list[i] {
                    ReferenceOr::Item(m) => {
                        proof {
                            assert(decreases_to!(list@[i as int] => *m));
                            assert(decreases_to!(*schema => *m));
                        }
                        let mut vn = property_name.to_owned();
                        vn.append("Payload");
                        let idx = usize_to_string(i + 1);
                        vn.append(idx.as_str());
                        proof {
                            assert(vn@ =~= payload_variant_name(property_name@, (i + 1) as nat));
                        }
                        match schema_to_rust_types(m, vn.as_str(), all_structs) {
                            Ok(line) => {
                                combined.append(line.as_str());
                                combined.append("\n");
                                let ghost prev = names@;
                                let ghost vnw = vn@;
                                names.push(vn);
                                proof {
                                    assert(names@.drop_last() =~= prev);
                                    assert(view_strings(names@) == view_strings(prev).push(vnw));
                                }
                            },
                            Err(e) => {
                                proof {
                                    lemma_legacy_variants_prefix_err(
                                        lv,
                                        i as int + 1,
                                        property_name@,
                                        reg0,
                                        e@,
                                    );
                                }
                                return Err(e);
                            },
                        }
                    },
                    ReferenceOr::Reference { .. } => {
                        proof {
                            lemma_legacy_variants_prefix_err(
                                lv,
                                i as int + 1,
                                property_name@,
                                reg0,
                                CompileFailure::GenericError(
                                    msg_unresolved_member(),
                                    Some(property_name@),
                                ),
                            );
                        }
                        return Err(
                            SchemaParserError::GenericError(
                                String::from_str("Refs should be resolved by now"),
                                Some(property_name.to_owned()),
                            ),
                        );
                    },
                }
                i = i + 1;
            }
            proof {
                assert(lv.take(n as int) =~= lv);
                lemma_view_strings(names@);
                lemma_legacy_variants_len(lv, property_name@, reg0);
                assert(names@.len() == n);
            }
            if list.len() == 1 {
                return Ok(combined);
            }
            let mut enum_name = property_name.to_owned();
            enum_name.append("PayloadEnum");
            match build_multi_payload_enum(&names, enum_name.as_str()) {
                Some(enum_text) => {
                    proof {
                        lemma_payload_variants_bridge(names@, view_strings(names@));
                        assert(enum_name@ =~= property_name@ + "PayloadEnum"@);
                        assert(enum_text@ =~= payload_enum_text_chars(
                            view_strings(names@),
                            enum_name@,
                        ));
                    }
                    combined.append(enum_text.as_str());
                    registry_insert(all_structs, enum_name.clone(), enum_text);
                    let message_text = build_multi_payload_message(
                        property_name,
                        enum_name.as_str(),
                    );
                    registry_insert(all_structs, property_name.to_owned(), message_text);
                    Ok(combined)
                },
                None => {
                    proof {
                        assert(false);
                    }
                    Err(SchemaParserError::GenericError(String::new(), None))
                },
            }
        },
    }
}

impl SimplifiedMessage {
    /// A deep copy with the same view.
    pub fn duplicate(&self) -> (r: SimplifiedMessage)
        ensures
            r@ == self@,
    {
        SimplifiedMessage {
            unique_id: self.unique_id.clone(),
            original_message: crate::asyncapi_model::clone_message(&self.original_message),
            payload: match &self.payload {
                Some(rep) => Some(rep.duplicate()),
                None => None,
            },
            payload_schema: match &self.payload_schema {
                Some(s) => Some(s.clone()),
                None => None,
            },
        }
    }
}

/// Builds the tagged union over an operation's messages; an operation with a
/// single message needs none, so `None` is returned for it.
#[verifier::loop_isolation(false)]
pub fn build_multi_message_enum(multiple_messages: &Vec<SimplifiedMessage>, unique_id: &str) -> (r:
    Option<MultiStructEnum>)
    ensures
        match r {
            None => multiple_messages@.len() == 1,
            Some(me) => multiple_messages@.len() != 1 && me.unique_id@ == unique_id@ && view_msgs(
                me.messages@,
            ) == view_msgs(multiple_messages@) && me.struct_definition@
                == spec_multi_message_enum_text(multiple_messages@, unique_id@),
        },
{
    if multiple_messages.len() == 1 {
        return None;
    }
    let ghost mv = multiple_messages@;
    let name = validate_identifier_string(unique_id, true);
    let mut text = String::from_str(
        "#[derive(Serialize, Deserialize, Debug)]\n#[serde(untagged)]\npub enum ",
    );
    text.append(name.as_str());
    text.append(" {\n");
    let n = multiple_messages.len();
    let mut messages: Vec<SimplifiedMessage> = Vec::new();
    let mut i: usize = 0;
    while i < n
        invariant
            i <= n,
            text@ == "#[derive(Serialize, Deserialize, Debug)]\n#[serde(untagged)]\npub enum "@
                + spec_validate_identifier_string(unique_id@, true) + " {\n"@
                + spec_message_variants(mv.take(i as int)),
            view_msgs(messages@) == view_msgs(mv.take(i as int)),
        decreases n - i,
    {
        proof {
            assert(mv.take(i as int + 1).drop_last() =~= mv.take(i as int));
            assert(mv.take(i as int + 1).last() == mv[i as int]);
        }
        let message_name = validate_identifier_string(multiple_messages[i].unique_id.as_str(), true);
        text.append(message_name.as_str());
        text.append("(");
        text.append(message_name.as_str());
        text.append("),\n");
        let c = multiple_messages[i].duplicate();
        let ghost prev = messages@;
        let ghost cv = c@;
        messages.push(c);
        proof {
            assert(messages@.drop_last() =~= prev);
            assert(view_msgs(messages@) == view_msgs(prev).push(cv));
            assert(view_msgs(mv.take(i as int + 1)) == view_msgs(mv.take(i as int)).push(
                mv[i as int]@,
            ));
            assert(text@ =~= "#[derive(Serialize, Deserialize, Debug)]\n#[serde(untagged)]\npub enum "@
                + spec_validate_identifier_string(unique_id@, true) + " {\n"@
                + spec_message_variants(mv.take(i as int + 1)));
        }
        i = i + 1;
    }
    proof {
        assert(mv.take(n as int) =~= mv);
    }
    text.append("\n}\n");
    proof {
        assert(text@ =~= spec_multi_message_enum_text(mv, unique_id@));
    }
    Some(
        MultiStructEnum {
            unique_id: unique_id.to_owned(),
            messages,
            struct_definition: text,
        },
    )
}

/// Builds the tagged union over several payload struct names; a single
/// payload needs none, so `None` is returned for it.
#[verifier::loop_isolation(false)]
pub fn build_multi_payload_enum(struct_names: &Vec<String>, enum_name: &str) -> (r: Option<String>)
    ensures
        match r {
            None => struct_names@.len() == 1,
            Some(text) => struct_names@.len() != 1 && text@ == spec_multi_payload_enum_text(
                struct_names@,
                enum_name@,
            ),
        },
{
    if struct_names.len() == 1 {
        return None;
    }
    let ghost nv = struct_names@;
    let name = validate_identifier_string(enum_name, true);
    let mut text = String::from_str(
        "#[derive(Serialize, Deserialize, Debug)]\n#[serde(untagged)]\npub enum ",
    );
    text.append(name.as_str());
    text.append(" {\n");
    let n = struct_names.len();
    let mut i: usize = 0;
    while i < n
        invariant
            i <= n,
            text@ == "#[derive(Serialize, Deserialize, Debug)]\n#[serde(untagged)]\npub enum "@
                + spec_validate_identifier_string(enum_name@, true) + " {\n"@
                + spec_payload_variants(nv.take(i as int)),
        decreases n - i,
    {
        proof {
            assert(nv.take(i as int + 1).drop_last() =~= nv.take(i as int));
            assert(nv.take(i as int + 1).last() == nv[i as int]);
        }
        let message_name = validate_identifier_string(struct_names[i].as_str(), true);
        text.append(message_name.as_str());
        text.append("(");
        text.append(message_name.as_str());
        text.append("),\n");
        proof {
            assert(text@ =~= "#[derive(Serialize, Deserialize, Debug)]\n#[serde(untagged)]\npub enum "@
                + spec_validate_identifier_string(enum_name@, true) + " {\n"@
                + spec_payload_variants(nv.take(i as int + 1)));
        }
        i = i + 1;
    }
    proof {
        assert(nv.take(n as int) =~= nv);
    }
    text.append("\n}\n");
    proof {
        assert(text@ =~= spec_multi_payload_enum_text(nv, enum_name@));
    }
    Some(text)
}

/// Builds a message struct holding one payload field, for a message that
/// wraps a multi-payload enum.
pub fn build_multi_payload_message(message_name: &str, payload_name: &str) -> (r: String)
    ensures
        r@ == spec_multi_payload_message_text(message_name@, payload_name@),
{
    let mut text = String::from_str("#[derive(Serialize, Deserialize, Debug)]\npub struct ");
    text.append(validate_identifier_string(message_name, true).as_str());
    text.append(" {\npayload: ");
    text.append(validate_identifier_string(payload_name, true).as_str());
    text.append(",\n}\n");
    proof {
        assert(text@ =~= spec_multi_payload_message_text(message_name@, payload_name@));
    }
    text
}

} // verus!
