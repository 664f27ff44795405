//! The typed view of a JSON-Schema-shaped payload node: a primitive type
//! with an optional format refinement, an object of named properties, an
//! array of one item schema, or a composite of alternatives.  A schema that
//! declares none of these is the explicit catch-all, which the compiler
//! rejects.

use vstd::prelude::*;

use crate::reference::ReferenceOr;
use crate::variant_or::VariantOrUnknownOrEmpty;

verus! {

/// Data carried beside the shape of a schema.
pub struct SchemaData {
    /// Explicit name of the schema, where the document declares one.
    pub name: Option<String>,
    /// Optional human-readable title.
    pub title: Option<String>,
    /// Optional description.
    pub description: Option<String>,
}

/// A schema node: its data and its shape.
pub struct Schema {
    pub schema_data: SchemaData,
    pub schema_kind: SchemaKind,
}

/// The shape of a schema.
pub enum SchemaKind {
    /// A declared primitive, object or array type.
    Type(Type),
    /// One of the alternatives matches.
    OneOf(Vec<ReferenceOr<Schema>>),
    /// All of the alternatives match.
    AllOf(Vec<ReferenceOr<Schema>>),
    /// Any of the alternatives matches.
    AnyOf(Vec<ReferenceOr<Schema>>),
    /// No type and no composite keyword: unsupported, rejected by the
    /// compiler.
    Any,
}

/// A declared type.
pub enum Type {
    String(StringType),
    Number(NumberType),
    Integer(IntegerType),
    Object(ObjectType),
    Array(ArrayType),
    Boolean,
}

/// Constraints of a string schema.
pub struct StringType {
    pub format: VariantOrUnknownOrEmpty<StringFormat>,
    pub pattern: Option<String>,
    pub enumeration: Vec<Option<String>>,
    pub min_length: Option<usize>,
    pub max_length: Option<usize>,
}

/// Constraints of a number schema; only the format refines compilation.
pub struct NumberType {
    pub format: VariantOrUnknownOrEmpty<NumberFormat>,
}

/// Constraints of an integer schema.
pub struct IntegerType {
    pub format: VariantOrUnknownOrEmpty<IntegerFormat>,
    pub multiple_of: Option<i64>,
    pub exclusive_minimum: Option<i64>,
    pub exclusive_maximum: Option<i64>,
    pub minimum: Option<i64>,
    pub maximum: Option<i64>,
    pub enumeration: Vec<i64>,
}

/// Constraints of an object schema: named properties, each inline or by
/// reference, and the names of the required ones.
pub struct ObjectType {
    pub properties: Vec<(String, ReferenceOr<Schema>)>,
    pub required: Vec<String>,
}

/// Constraints of an array schema.
pub struct ArrayType {
    pub items: Option<Box<ReferenceOr<Schema>>>,
    pub min_items: Option<usize>,
    pub max_items: Option<usize>,
    pub unique_items: bool,
}

/// Mathematical view of an optional string.
pub open spec fn view_opt_str(o: Option<String>) -> Option<Seq<char>> {
    match o {
        Some(s) => Some(s@),
        None => None,
    }
}

/// Mathematical view of an open-ended format value.
pub enum FormatView<T> {
    Item(T),
    Unknown(Seq<char>),
    Empty,
}

/// The view of a format value; the known variants are plain enums and stand
/// for themselves.
pub open spec fn view_format<T>(v: VariantOrUnknownOrEmpty<T>) -> FormatView<T> {
    match v {
        VariantOrUnknownOrEmpty::Item(f) => FormatView::Item(f),
        VariantOrUnknownOrEmpty::Unknown(s) => FormatView::Unknown(s@),
        VariantOrUnknownOrEmpty::Empty => FormatView::Empty,
    }
}

/// Mathematical view of a schema node.
pub struct SchemaView {
    pub name: Option<Seq<char>>,
    pub title: Option<Seq<char>>,
    pub description: Option<Seq<char>>,
    pub kind: SchemaKindView,
}

/// Mathematical view of a schema's shape.
pub enum SchemaKindView {
    Type(TypeView),
    OneOf(Seq<RefOrSchemaView>),
    AllOf(Seq<RefOrSchemaView>),
    AnyOf(Seq<RefOrSchemaView>),
    Any,
}

/// Mathematical view of a schema-or-reference.
pub enum RefOrSchemaView {
    Reference(Seq<char>),
    Item(Box<SchemaView>),
}

/// Mathematical view of a declared type.
pub enum TypeView {
    String(StringTypeView),
    Number(FormatView<NumberFormat>),
    Integer(IntegerTypeView),
    Object(ObjectTypeView),
    Array(ArrayTypeView),
    Boolean,
}

/// Mathematical view of string constraints.
pub struct StringTypeView {
    pub format: FormatView<StringFormat>,
    pub pattern: Option<Seq<char>>,
    pub enumeration: Seq<Option<Seq<char>>>,
    pub min_length: Option<usize>,
    pub max_length: Option<usize>,
}

/// Mathematical view of integer constraints.
pub struct IntegerTypeView {
    pub format: FormatView<IntegerFormat>,
    pub multiple_of: Option<i64>,
    pub exclusive_minimum: Option<i64>,
    pub exclusive_maximum: Option<i64>,
    pub minimum: Option<i64>,
    pub maximum: Option<i64>,
    pub enumeration: Seq<i64>,
}

/// Mathematical view of object constraints.
pub struct ObjectTypeView {
    pub properties: Seq<(Seq<char>, RefOrSchemaView)>,
    pub required: Seq<Seq<char>>,
}

/// Mathematical view of array constraints.
pub struct ArrayTypeView {
    pub items: Option<RefOrSchemaView>,
    pub min_items: Option<usize>,
    pub max_items: Option<usize>,
    pub unique_items: bool,
}

/// The view of a schema node.
pub open spec fn view_schema(s: Schema) -> SchemaView
    decreases s, 3int,
{
    SchemaView {
        name: view_opt_str(s.schema_data.name),
        title: view_opt_str(s.schema_data.title),
        description: view_opt_str(s.schema_data.description),
        kind: view_schema_kind(s.schema_kind),
    }
}

/// The view of a schema's shape.
pub open spec fn view_schema_kind(k: SchemaKind) -> SchemaKindView
    decreases k, 2int,
{
    match k {
        SchemaKind::Type(t) => SchemaKindView::Type(view_type(t)),
        SchemaKind::OneOf(list) => SchemaKindView::OneOf(view_schema_refs(list@)),
        SchemaKind::AllOf(list) => SchemaKindView::AllOf(view_schema_refs(list@)),
        SchemaKind::AnyOf(list) => SchemaKindView::AnyOf(view_schema_refs(list@)),
        SchemaKind::Any => SchemaKindView::Any,
    }
}

/// The views of a sequence of schemas-or-references.
pub open spec fn view_schema_refs(s: Seq<ReferenceOr<Schema>>) -> Seq<RefOrSchemaView>
    decreases s, 1int,
{
    if s.len() == 0 {
        Seq::empty()
    } else {
        view_schema_refs(s.drop_last()).push(view_schema_ref(s.last()))
    }
}

/// The view of one schema-or-reference.
pub open spec fn view_schema_ref(r: ReferenceOr<Schema>) -> RefOrSchemaView
    decreases r, 4int,
{
    match r {
        ReferenceOr::Reference { reference } => RefOrSchemaView::Reference(reference@),
        ReferenceOr::Item(s) => RefOrSchemaView::Item(Box::new(view_schema(s))),
    }
}

/// The views of a sequence of named properties.
pub open spec fn view_schema_props(s: Seq<(String, ReferenceOr<Schema>)>) -> Seq<
    (Seq<char>, RefOrSchemaView),
>
    decreases s, 5int,
{
    if s.len() == 0 {
        Seq::empty()
    } else {
        view_schema_props(s.drop_last()).push((s.last().0@, view_schema_ref(s.last().1)))
    }
}

/// The views of a sequence of optional strings.
pub open spec fn view_opt_strs(s: Seq<Option<String>>) -> Seq<Option<Seq<char>>>
    decreases s,
{
    if s.len() == 0 {
        Seq::empty()
    } else {
        view_opt_strs(s.drop_last()).push(view_opt_str(s.last()))
    }
}

/// The views of a sequence of strings.
pub open spec fn view_strs(s: Seq<String>) -> Seq<Seq<char>>
    decreases s,
{
    if s.len() == 0 {
        Seq::empty()
    } else {
        view_strs(s.drop_last()).push(s.last()@)
    }
}

/// The view of a declared type.
pub open spec fn view_type(t: Type) -> TypeView
    decreases t, 1int,
{
    match t {
        Type::String(v) => TypeView::String(
            StringTypeView {
                format: view_format(v.format),
                pattern: view_opt_str(v.pattern),
                enumeration: view_opt_strs(v.enumeration@),
                min_length: v.min_length,
                max_length: v.max_length,
            },
        ),
        Type::Number(v) => TypeView::Number(view_format(v.format)),
        Type::Integer(v) => TypeView::Integer(
            IntegerTypeView {
                format: view_format(v.format),
                multiple_of: v.multiple_of,
                exclusive_minimum: v.exclusive_minimum,
                exclusive_maximum: v.exclusive_maximum,
                minimum: v.minimum,
                maximum: v.maximum,
                enumeration: v.enumeration@,
            },
        ),
        Type::Object(o) => TypeView::Object(
            ObjectTypeView {
                properties: view_schema_props(o.properties@),
                required: view_strs(o.required@),
            },
        ),
        Type::Array(a) => TypeView::Array(
            ArrayTypeView {
                items: match a.items {
                    Some(boxed) => Some(view_schema_ref(*boxed)),
                    None => None,
                },
                min_items: a.min_items,
                max_items: a.max_items,
                unique_items: a.unique_items,
            },
        ),
        Type::Boolean => TypeView::Boolean,
    }
}

impl View for Schema {
    type V = SchemaView;

    open spec fn view(&self) -> SchemaView {
        view_schema(*self)
    }
}

/// The view of a schema-or-reference sequence is the element-wise view.
pub proof fn lemma_view_schema_refs(s: Seq<ReferenceOr<Schema>>)
    ensures
        view_schema_refs(s).len() == s.len(),
        forall|i: int|
            0 <= i < s.len() ==> view_schema_refs(s)[i] == view_schema_ref(#[trigger] s[i]),
    decreases s,
{
    if s.len() > 0 {
        lemma_view_schema_refs(s.drop_last());
        assert forall|i: int| 0 <= i < s.len() implies view_schema_refs(s)[i] == view_schema_ref(
            #[trigger] s[i],
        ) by {
            if i < s.len() - 1 {
                assert(s.drop_last()[i] == s[i]);
            } else {
                assert(s[i] == s.last());
            }
        }
    }
}

/// The view of a property sequence is the element-wise view.
pub proof fn lemma_view_schema_props(s: Seq<(String, ReferenceOr<Schema>)>)
    ensures
        view_schema_props(s).len() == s.len(),
        forall|i: int|
            0 <= i < s.len() ==> view_schema_props(s)[i] == ((#[trigger] s[i]).0@,
            view_schema_ref(s[i].1)),
    decreases s,
{
    if s.len() > 0 {
        lemma_view_schema_props(s.drop_last());
        assert forall|i: int| 0 <= i < s.len() implies view_schema_props(s)[i] == ((
        #[trigger] s[i]).0@, view_schema_ref(s[i].1)) by {
            if i < s.len() - 1 {
                assert(s.drop_last()[i] == s[i]);
            } else {
                assert(s[i] == s.last());
            }
        }
    }
}

/// The view of an optional-string sequence is the element-wise view.
pub proof fn lemma_view_opt_strs(s: Seq<Option<String>>)
    ensures
        view_opt_strs(s).len() == s.len(),
        forall|i: int|
            0 <= i < s.len() ==> view_opt_strs(s)[i] == view_opt_str(#[trigger] s[i]),
    decreases s,
{
    if s.len() > 0 {
        lemma_view_opt_strs(s.drop_last());
        assert forall|i: int| 0 <= i < s.len() implies view_opt_strs(s)[i] == view_opt_str(
            #[trigger] s[i],
        ) by {
            if i < s.len() - 1 {
                assert(s.drop_last()[i] == s[i]);
            } else {
                assert(s[i] == s.last());
            }
        }
    }
}

/// The view of a string sequence is the element-wise view.
pub proof fn lemma_view_strs(s: Seq<String>)
    ensures
        view_strs(s).len() == s.len(),
        forall|i: int| 0 <= i < s.len() ==> view_strs(s)[i] == (#[trigger] s[i])@,
    decreases s,
{
    if s.len() > 0 {
        lemma_view_strs(s.drop_last());
        assert forall|i: int| 0 <= i < s.len() implies view_strs(s)[i] == (#[trigger] s[i])@ by {
            if i < s.len() - 1 {
                assert(s.drop_last()[i] == s[i]);
            } else {
                assert(s[i] == s.last());
            }
        }
    }
}

fn clone_opt_string(o: &Option<String>) -> (r: Option<String>)
    ensures
        view_opt_str(r) == view_opt_str(*o),
{
    match o {
        Some(s) => Some(s.clone()),
        None => None,
    }
}

/// A deep copy of a schema, with the same view.
pub fn clone_schema(s: &Schema) -> (r: Schema)
    ensures
        r@ == s@,
    decreases s, 3int,
{
    proof {
        assert(decreases_to!(*s => s.schema_kind));
    }
    Schema {
        schema_data: SchemaData {
            name: clone_opt_string(&s.schema_data.name),
            title: clone_opt_string(&s.schema_data.title),
            description: clone_opt_string(&s.schema_data.description),
        },
        schema_kind: clone_schema_kind(&s.schema_kind),
    }
}

fn clone_schema_kind(k: &SchemaKind) -> (r: SchemaKind)
    ensures
        view_schema_kind(r) == view_schema_kind(*k),
    decreases k, 2int,
{
    match k {
        SchemaKind::Type(t) => {
            proof {
                assert(decreases_to!(*k => *t));
            }
            SchemaKind::Type(clone_type(t))
        },
        SchemaKind::OneOf(list) => {
            proof {
                assert(decreases_to!(*k => *list));
            }
            SchemaKind::OneOf(clone_schema_list(list))
        },
        SchemaKind::AllOf(list) => {
            proof {
                assert(decreases_to!(*k => *list));
            }
            SchemaKind::AllOf(clone_schema_list(list))
        },
        SchemaKind::AnyOf(list) => {
            proof {
                assert(decreases_to!(*k => *list));
            }
            SchemaKind::AnyOf(clone_schema_list(list))
        },
        SchemaKind::Any => SchemaKind::Any,
    }
}

#[verifier::loop_isolation(false)]
fn clone_schema_list(v: &Vec<ReferenceOr<Schema>>) -> (r: Vec<ReferenceOr<Schema>>)
    ensures
        view_schema_refs(r@) == view_schema_refs(v@),
    decreases v, 1int,
{
    proof {
        lemma_view_schema_refs(v@);
    }
    let ghost vv = view_schema_refs(v@);
    let n = v.len();
    let mut out: Vec<ReferenceOr<Schema>> = Vec::new();
    let mut i: usize = 0;
    while i < n
        invariant
            i <= n,
            view_schema_refs(out@) == vv.take(i as int),
        decreases n - i,
    {
        proof {
            assert(decreases_to!(*v => v@));
            assert(decreases_to!(v@ => v@[i as int]));
            assert(decreases_to!(*v => v@[i as int]));
            assert(vv.take(i as int + 1).drop_last() =~= vv.take(i as int));
            assert(vv.take(i as int + 1).last() == vv[i as int]);
        }
        let c = clone_schema_ref(&v[i]);
        let ghost prev = out@;
        let ghost cv = view_schema_ref(c);
        out.push(c);
        proof {
            assert(out@.drop_last() =~= prev);
            assert(view_schema_refs(out@) == view_schema_refs(prev).push(cv));
            assert(view_schema_refs(out@) =~= vv.take(i as int + 1));
        }
        i = i + 1;
    }
    proof {
        assert(vv.take(n as int) =~= vv);
    }
    out
}

/// A deep copy of a schema-or-reference, with the same view.
pub fn clone_schema_ref(r: &ReferenceOr<Schema>) -> (res: ReferenceOr<Schema>)
    ensures
        view_schema_ref(res) == view_schema_ref(*r),
    decreases r, 4int,
{
    match r {
        ReferenceOr::Reference { reference } => ReferenceOr::Reference {
            reference: reference.clone(),
        },
        ReferenceOr::Item(s) => {
            proof {
                assert(decreases_to!(*r => *s));
            }
            ReferenceOr::Item(clone_schema(s))
        },
    }
}

#[verifier::loop_isolation(false)]
fn clone_type(t: &Type) -> (r: Type)
    ensures
        view_type(r) == view_type(*t),
    decreases t, 1int,
{
    match t {
        Type::String(v) => {
            proof {
                lemma_view_opt_strs(v.enumeration@);
            }
            let ghost ev = view_opt_strs(v.enumeration@);
            let mut enumeration: Vec<Option<String>> = Vec::new();
            let n = v.enumeration.len();
            let mut i: usize = 0;
            while i < n
                invariant
                    i <= n,
                    view_opt_strs(enumeration@) == ev.take(i as int),
                decreases n - i,
            {
                proof {
                    assert(ev.take(i as int + 1).drop_last() =~= ev.take(i as int));
                    assert(ev.take(i as int + 1).last() == ev[i as int]);
                }
                let c = clone_opt_string(&v.enumeration[i]);
                let ghost prev = enumeration@;
                let ghost cv = view_opt_str(c);
                enumeration.push(c);
                proof {
                    assert(enumeration@.drop_last() =~= prev);
                    assert(view_opt_strs(enumeration@) == view_opt_strs(prev).push(cv));
                    assert(view_opt_strs(enumeration@) =~= ev.take(i as int + 1));
                }
                i = i + 1;
            }
            proof {
                assert(ev.take(n as int) =~= ev);
            }
            Type::String(
                StringType {
                    format: match &v.format {
                        VariantOrUnknownOrEmpty::Item(f) => VariantOrUnknownOrEmpty::Item(
                            match f {
                                StringFormat::Date => StringFormat::Date,
                                StringFormat::DateTime => StringFormat::DateTime,
                                StringFormat::Password => StringFormat::Password,
                                StringFormat::Byte => StringFormat::Byte,
                                StringFormat::Binary => StringFormat::Binary,
                            },
                        ),
                        VariantOrUnknownOrEmpty::Unknown(u) => VariantOrUnknownOrEmpty::Unknown(
                            u.clone(),
                        ),
                        VariantOrUnknownOrEmpty::Empty => VariantOrUnknownOrEmpty::Empty,
                    },
                    pattern: clone_opt_string(&v.pattern),
                    enumeration,
                    min_length: v.min_length,
                    max_length: v.max_length,
                },
            )
        },
        Type::Number(v) => Type::Number(
            NumberType {
                format: match &v.format {
                    VariantOrUnknownOrEmpty::Item(f) => VariantOrUnknownOrEmpty::Item(
                        match f {
                            NumberFormat::Float => NumberFormat::Float,
                            NumberFormat::Double => NumberFormat::Double,
                        },
                    ),
                    VariantOrUnknownOrEmpty::Unknown(u) => VariantOrUnknownOrEmpty::Unknown(
                        u.clone(),
                    ),
                    VariantOrUnknownOrEmpty::Empty => VariantOrUnknownOrEmpty::Empty,
                },
            },
        ),
        Type::Integer(v) => {
            let mut enumeration: Vec<i64> = Vec::new();
            let n = v.enumeration.len();
            let mut i: usize = 0;
            while i < n
                invariant
                    i <= n,
                    enumeration@ == v.enumeration@.take(i as int),
                decreases n - i,
            {
                enumeration.push(v.enumeration[i]);
                proof {
                    assert(enumeration@ =~= v.enumeration@.take(i as int + 1));
                }
                i = i + 1;
            }
            proof {
                assert(v.enumeration@.take(n as int) =~= v.enumeration@);
            }
            Type::Integer(
                IntegerType {
                    format: match &v.format {
                        VariantOrUnknownOrEmpty::Item(f) => VariantOrUnknownOrEmpty::Item(
                            match f {
                                IntegerFormat::Int32 => IntegerFormat::Int32,
                                IntegerFormat::Int64 => IntegerFormat::Int64,
                            },
                        ),
                        VariantOrUnknownOrEmpty::Unknown(u) => VariantOrUnknownOrEmpty::Unknown(
                            u.clone(),
                        ),
                        VariantOrUnknownOrEmpty::Empty => VariantOrUnknownOrEmpty::Empty,
                    },
                    multiple_of: v.multiple_of,
                    exclusive_minimum: v.exclusive_minimum,
                    exclusive_maximum: v.exclusive_maximum,
                    minimum: v.minimum,
                    maximum: v.maximum,
                    enumeration,
                },
            )
        },
        Type::Object(o) => {
            proof {
                lemma_view_schema_props(o.properties@);
                lemma_view_strs(o.required@);
            }
            let ghost pv = view_schema_props(o.properties@);
            let mut properties: Vec<(String, ReferenceOr<Schema>)> = Vec::new();
            let n = o.properties.len();
            let mut i: usize = 0;
            while i < n
                invariant
                    i <= n,
                    view_schema_props(properties@) == pv.take(i as int),
                decreases n - i,
            {
                proof {
                    assert(decreases_to!(*t => *o));
                    assert(decreases_to!(*o => o.properties));
                    assert(decreases_to!(o.properties => o.properties@));
                    assert(decreases_to!(o.properties@ => o.properties@[i as int]));
                    assert(decreases_to!(o.properties@[i as int] => o.properties@[i as int].1));
                    assert(decreases_to!(*t => o.properties@[i as int].1));
                    assert(pv.take(i as int + 1).drop_last() =~= pv.take(i as int));
                    assert(pv.take(i as int + 1).last() == pv[i as int]);
                }
                let key = o.properties[i].0.clone();
                let value = clone_schema_ref(&o.properties[i].1);
                let ghost prev = properties@;
                let ghost kv = key@;
                let ghost vv2 = view_schema_ref(value);
                properties.push((key, value));
                proof {
                    assert(properties@.drop_last() =~= prev);
                    assert(view_schema_props(properties@) == view_schema_props(prev).push(
                        (kv, vv2),
                    ));
                    assert(view_schema_props(properties@) =~= pv.take(i as int + 1));
                }
                i = i + 1;
            }
            proof {
                assert(pv.take(n as int) =~= pv);
            }
            let ghost rqv = view_strs(o.required@);
            let mut required: Vec<String> = Vec::new();
            let m = o.required.len();
            let mut j: usize = 0;
            while j < m
                invariant
                    j <= m,
                    view_strs(required@) == rqv.take(j as int),
                decreases m - j,
            {
                proof {
                    assert(rqv.take(j as int + 1).drop_last() =~= rqv.take(j as int));
                    assert(rqv.take(j as int + 1).last() == rqv[j as int]);
                }
                let c = o.required[j].clone();
                let ghost prev = required@;
                let ghost cv = c@;
                required.push(c);
                proof {
                    assert(required@.drop_last() =~= prev);
                    assert(view_strs(required@) == view_strs(prev).push(cv));
                    assert(view_strs(required@) =~= rqv.take(j as int + 1));
                }
                j = j + 1;
            }
            proof {
                assert(rqv.take(m as int) =~= rqv);
            }
            Type::Object(ObjectType { properties, required })
        },
        Type::Array(a) => {
            let items = match &a.items {
                Some(boxed) => {
                    proof {
                        assert(decreases_to!(*t => *a));
                        assert(decreases_to!(*a => a.items));
                        assert(decreases_to!(a.items => a.items->0));
                        assert(decreases_to!(*t => a.items->0));
                    }
                    Some(Box::new(clone_schema_ref(&**boxed)))
                },
                None => None,
            };
            Type::Array(
                ArrayType {
                    items,
                    min_items: a.min_items,
                    max_items: a.max_items,
                    unique_items: a.unique_items,
                },
            )
        },
        Type::Boolean => Type::Boolean,
    }
}

/// Physical width of a number.
pub enum NumberFormat {
    Float,
    Double,
}

/// Physical width of an integer.
pub enum IntegerFormat {
    Int32,
    Int64,
}

/// Declared interpretation of a string.
pub enum StringFormat {
    Date,
    DateTime,
    Password,
    Byte,
    Binary,
}

} // verus!
