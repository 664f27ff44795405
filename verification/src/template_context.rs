//! The template-context assembler: simplifies each channel's publish and
//! subscribe operations, flattens and deduplicates every compiled payload
//! type reachable from them into the model, and bundles everything with the
//! first declared server.

use vstd::prelude::*;

use crate::asyncapi_model::{clone_message, clone_operation, clone_server, view_message,
    view_operation, AsyncAPI, Channel, Message, Operation, OperationMessageType, Payload};
use crate::ident::{spec_validate_identifier_string, validate_identifier_string};
use crate::json_schema_parser::{parse_json_schema_to_rust_type, spec_compile};
use crate::reference::ReferenceOr;
use crate::rust_schema_representation::{lemma_view_reps, lemma_view_reps_concat, rep_flatten,
    view_rep, view_reps, RepView, RustSchemaRepresentation};
use crate::schema_parser_error::{CompileFailure, SchemaParserError};
use crate::template_model::{lemma_view_chan_ops, lemma_view_msgs, view_chan_ops, view_msgs, Model,
    ServerView, SimplifiedMessage, SimplifiedMessageView, SimplifiedOperation,
    SimplifiedOperationView, TemplateContext};

verus! {

/// Failure of context assembly, mathematically.
pub enum ContextFailure {
    /// The document declares no server.
    MissingServer,
    /// The first server is still an unresolved reference.
    UnresolvedServerReference,
    /// A payload schema failed to compile.
    Schema(CompileFailure),
}

/// Failure of context assembly.
#[derive(Debug)]
pub enum TemplateContextError {
    MissingServer,
    UnresolvedServerReference,
    Schema(SchemaParserError),
}

impl View for TemplateContextError {
    type V = ContextFailure;

    open spec fn view(&self) -> ContextFailure {
        match self {
            TemplateContextError::MissingServer => ContextFailure::MissingServer,
            TemplateContextError::UnresolvedServerReference => ContextFailure::UnresolvedServerReference,
            TemplateContextError::Schema(e) => ContextFailure::Schema(e@),
        }
    }
}

/// Simplification of one message under its operation's identifier.
pub open spec fn spec_simplify_message(mr: ReferenceOr<Message>, parent: Seq<char>) -> Result<
    SimplifiedMessageView,
    CompileFailure,
> {
    match mr {
        ReferenceOr::Item(m) => {
            let schema_text = match m.payload_schema {
                Some(s) => Some(s@),
                None => None,
            };
            match m.payload {
                Some(p) => match p {
                    Payload::Schema(sch) => {
                        let message_name = match m.name {
                            Some(n) => n@,
                            None => parent + "Message"@,
                        };
                        let uid = spec_validate_identifier_string(message_name, false);
                        let schema_name = match sch.schema_data.name {
                            Some(n) => spec_validate_identifier_string(n@, false),
                            None => spec_validate_identifier_string(uid, false),
                        };
                        match spec_compile(sch, schema_name) {
                            Ok(rep) => Ok(
                                SimplifiedMessageView {
                                    unique_id: uid,
                                    original_message: view_message(m),
                                    payload: Some(rep),
                                    payload_schema: schema_text,
                                },
                            ),
                            Err(e) => Err(e),
                        }
                    },
                    Payload::Any(_d) => Ok(
                        SimplifiedMessageView {
                            unique_id: Seq::empty(),
                            original_message: view_message(m),
                            payload: None,
                            payload_schema: schema_text,
                        },
                    ),
                },
                None => Ok(
                    SimplifiedMessageView {
                        unique_id: Seq::empty(),
                        original_message: view_message(m),
                        payload: None,
                        payload_schema: schema_text,
                    },
                ),
            }
        },
        ReferenceOr::Reference { .. } => Err(
            CompileFailure::GenericError("Refs should be resolved by now"@, None),
        ),
    }
}

/// Simplification of a list of messages, first failure wins.
pub open spec fn spec_simplify_messages(list: Seq<ReferenceOr<Message>>, parent: Seq<char>) -> Result<
    Seq<SimplifiedMessageView>,
    CompileFailure,
>
    decreases list,
{
    if list.len() == 0 {
        Ok(Seq::empty())
    } else {
        match spec_simplify_messages(list.drop_last(), parent) {
            Ok(pre) => match spec_simplify_message(list.last(), parent) {
                Ok(m) => Ok(pre.push(m)),
                Err(e) => Err(e),
            },
            Err(e) => Err(e),
        }
    }
}

/// Simplification of a keyed collection of messages, first failure wins.
pub open spec fn spec_simplify_message_map(
    entries: Seq<(String, ReferenceOr<Message>)>,
    parent: Seq<char>,
) -> Result<Seq<SimplifiedMessageView>, CompileFailure>
    decreases entries,
{
    if entries.len() == 0 {
        Ok(Seq::empty())
    } else {
        match spec_simplify_message_map(entries.drop_last(), parent) {
            Ok(pre) => match spec_simplify_message(entries.last().1, parent) {
                Ok(m) => Ok(pre.push(m)),
                Err(e) => Err(e),
            },
            Err(e) => Err(e),
        }
    }
}

/// Simplification of one operation: its identifier is the operation id where
/// one is declared, else the sanitized channel name; its messages are the
/// operation's messages, simplified.
pub open spec fn spec_simplify_operation(op: Operation, channel: Seq<char>) -> Result<
    SimplifiedOperationView,
    CompileFailure,
> {
    let uid = match op.operation_id {
        Some(s) => s@,
        None => spec_validate_identifier_string(channel, false),
    };
    let msgs = match op.message {
        Some(decl) => match decl {
            OperationMessageType::MessageMap(entries) => spec_simplify_message_map(entries@, uid),
            OperationMessageType::Single(mr) => match spec_simplify_message(mr, uid) {
                Ok(m) => Ok(seq![m]),
                Err(e) => Err(e),
            },
            OperationMessageType::OneOf(list) => spec_simplify_messages(list@, uid),
        },
        None => Ok(Seq::empty()),
    };
    match msgs {
        Ok(ms) => Ok(
            SimplifiedOperationView {
                unique_id: uid,
                original_operation: view_operation(op),
                messages: ms,
            },
        ),
        Err(e) => Err(e),
    }
}

/// The simplified publish operations of the channels that declare one.
pub open spec fn spec_publish_channels(chs: Seq<(String, Channel)>) -> Result<
    Seq<(Seq<char>, SimplifiedOperationView)>,
    CompileFailure,
>
    decreases chs,
{
    if chs.len() == 0 {
        Ok(Seq::empty())
    } else {
        match spec_publish_channels(chs.drop_last()) {
            Ok(pre) => match chs.last().1.publish {
                Some(op) => match spec_simplify_operation(op, chs.last().0@) {
                    Ok(so) => Ok(pre.push((chs.last().0@, so))),
                    Err(e) => Err(e),
                },
                None => Ok(pre),
            },
            Err(e) => Err(e),
        }
    }
}

/// The simplified subscribe operations of the channels that declare one.
pub open spec fn spec_subscribe_channels(chs: Seq<(String, Channel)>) -> Result<
    Seq<(Seq<char>, SimplifiedOperationView)>,
    CompileFailure,
>
    decreases chs,
{
    if chs.len() == 0 {
        Ok(Seq::empty())
    } else {
        match spec_subscribe_channels(chs.drop_last()) {
            Ok(pre) => match chs.last().1.subscribe {
                Some(op) => match spec_simplify_operation(op, chs.last().0@) {
                    Ok(so) => Ok(pre.push((chs.last().0@, so))),
                    Err(e) => Err(e),
                },
                None => Ok(pre),
            },
            Err(e) => Err(e),
        }
    }
}

/// Every representation reachable from a list of simplified messages.
pub open spec fn spec_collect_msgs(msgs: Seq<SimplifiedMessageView>) -> Seq<RepView>
    decreases msgs,
{
    if msgs.len() == 0 {
        Seq::empty()
    } else {
        spec_collect_msgs(msgs.drop_last()) + (match msgs.last().payload {
            Some(rep) => rep_flatten(rep),
            None => Seq::empty(),
        })
    }
}

/// Every representation reachable from a list of channel operations.
pub open spec fn spec_collect_ops(ops: Seq<(Seq<char>, SimplifiedOperationView)>) -> Seq<RepView>
    decreases ops,
{
    if ops.len() == 0 {
        Seq::empty()
    } else {
        spec_collect_ops(ops.drop_last()) + spec_collect_msgs(ops.last().1.messages)
    }
}

/// Whether some representation in `s` carries the identifier `id`.
pub open spec fn contains_id(s: Seq<RepView>, id: Seq<char>) -> bool {
    exists|i: int| 0 <= i < s.len() && s[i].unique_id == id
}

/// How many representations in `s` carry the identifier `id`.
pub open spec fn count_id(s: Seq<RepView>, id: Seq<char>) -> nat
    decreases s,
{
    if s.len() == 0 {
        0
    } else {
        count_id(s.drop_last(), id) + (if s.last().unique_id == id {
            1nat
        } else {
            0nat
        })
    }
}

/// Deduplication by identifier: of several representations sharing an
/// identifier, the first is kept.
pub open spec fn dedup_reps(s: Seq<RepView>) -> Seq<RepView>
    decreases s,
{
    if s.len() == 0 {
        Seq::empty()
    } else {
        let pre = dedup_reps(s.drop_last());
        if contains_id(pre, s.last().unique_id) {
            pre
        } else {
            pre.push(s.last())
        }
    }
}

proof fn lemma_contains_id_push(s: Seq<RepView>, r: RepView, id: Seq<char>)
    ensures
        contains_id(s.push(r), id) <==> contains_id(s, id) || r.unique_id == id,
{
    if contains_id(s, id) {
        let i = choose|i: int| 0 <= i < s.len() && s[i].unique_id == id;
        assert(s.push(r)[i].unique_id == id);
    }
    if r.unique_id == id {
        assert(s.push(r)[s.len() as int].unique_id == id);
    }
    if contains_id(s.push(r), id) {
        let i = choose|i: int| 0 <= i < s.push(r).len() && s.push(r)[i].unique_id == id;
        if i < s.len() {
            assert(s[i].unique_id == id);
        }
    }
}

proof fn lemma_not_contains_count_zero(s: Seq<RepView>, id: Seq<char>)
    requires
        !contains_id(s, id),
    ensures
        count_id(s, id) == 0,
    decreases s,
{
    if s.len() > 0 {
        assert(!contains_id(s.drop_last(), id)) by {
            if contains_id(s.drop_last(), id) {
                let i = choose|i: int|
                    0 <= i < s.drop_last().len() && s.drop_last()[i].unique_id == id;
                assert(s[i].unique_id == id);
            }
        }
        assert(s.last().unique_id != id) by {
            assert(s[s.len() - 1] == s.last());
        }
        lemma_not_contains_count_zero(s.drop_last(), id);
    }
}

/// Law: deduplication preserves reachability — an identifier occurs in the
/// deduplicated sequence exactly when it occurs in the original one, and
/// then exactly once.
pub proof fn lemma_dedup_preserves_reachability(s: Seq<RepView>, id: Seq<char>)
    ensures
        contains_id(dedup_reps(s), id) <==> contains_id(s, id),
        contains_id(s, id) ==> count_id(dedup_reps(s), id) == 1,
    decreases s,
{
    if s.len() == 0 {
        if contains_id(s, id) {
            let i = choose|i: int| 0 <= i < s.len() && s[i].unique_id == id;
        }
        if contains_id(dedup_reps(s), id) {
            let i = choose|i: int|
                0 <= i < dedup_reps(s).len() && dedup_reps(s)[i].unique_id == id;
        }
    } else {
        let dl = s.drop_last();
        let pre = dedup_reps(dl);
        let r = s.last();
        lemma_dedup_preserves_reachability(dl, id);
        lemma_dedup_preserves_reachability(dl, r.unique_id);
        assert(contains_id(s, id) <==> contains_id(dl, id) || r.unique_id == id) by {
            assert(dl.push(r) =~= s);
            lemma_contains_id_push(dl, r, id);
        }
        if contains_id(pre, r.unique_id) {
            // the last element is dropped
            if r.unique_id == id {
                assert(contains_id(dl, id));
            }
        } else {
            lemma_contains_id_push(pre, r, id);
            assert(pre.push(r).drop_last() =~= pre);
            assert(pre.push(r).last() == r);
            if r.unique_id == id {
                assert(!contains_id(dl, id));
                lemma_not_contains_count_zero(pre, id);
            }
        }
    }
}

/// Law: the extracted model preserves reachability — an identifier reachable
/// from any operation's payload, publish or subscribe, occurs in the
/// deduplicated model, and then exactly once.
pub proof fn lemma_extract_model_preserves_reachability(
    pubs: Seq<(Seq<char>, SimplifiedOperationView)>,
    subs: Seq<(Seq<char>, SimplifiedOperationView)>,
    id: Seq<char>,
)
    ensures
        contains_id(
            dedup_reps(spec_collect_ops(pubs) + spec_collect_ops(subs)),
            id,
        ) <==> contains_id(spec_collect_ops(pubs) + spec_collect_ops(subs), id),
        contains_id(spec_collect_ops(pubs) + spec_collect_ops(subs), id) ==> count_id(
            dedup_reps(spec_collect_ops(pubs) + spec_collect_ops(subs)),
            id,
        ) == 1,
{
    lemma_dedup_preserves_reachability(spec_collect_ops(pubs) + spec_collect_ops(subs), id);
}

/// What assembling the template context from a document yields.
pub open spec fn spec_create_template_context(a: AsyncAPI) -> Result<
    TemplateContextView,
    ContextFailure,
> {
    if a.servers@.len() == 0 {
        Err(ContextFailure::MissingServer)
    } else {
        match a.servers@[0].1 {
            ReferenceOr::Reference { .. } => Err(ContextFailure::UnresolvedServerReference),
            ReferenceOr::Item(server) => match spec_publish_channels(a.channels@) {
                Ok(pubs) => match spec_subscribe_channels(a.channels@) {
                    Ok(subs) => Ok(
                        TemplateContextView {
                            title: a.info.title@,
                            description: match a.info.description {
                                Some(d) => Some(d@),
                                None => None,
                            },
                            server: server@,
                            subscribe_channels: subs,
                            publish_channels: pubs,
                            model: dedup_reps(spec_collect_ops(pubs) + spec_collect_ops(subs)),
                        },
                    ),
                    Err(e) => Err(ContextFailure::Schema(e)),
                },
                Err(e) => Err(ContextFailure::Schema(e)),
            },
        }
    }
}

proof fn lemma_simplify_messages_prefix_err(
    list: Seq<ReferenceOr<Message>>,
    i: int,
    parent: Seq<char>,
    e: CompileFailure,
)
    requires
        0 <= i <= list.len(),
        spec_simplify_messages(list.take(i), parent) == Err::<
            Seq<SimplifiedMessageView>,
            CompileFailure,
        >(e),
    ensures
        spec_simplify_messages(list, parent) == Err::<Seq<SimplifiedMessageView>, CompileFailure>(
            e,
        ),
    decreases list.len(),
{
    if i < list.len() {
        assert(list.drop_last().take(i) =~= list.take(i));
        lemma_simplify_messages_prefix_err(list.drop_last(), i, parent, e);
    } else {
        assert(list.take(i) =~= list);
    }
}

proof fn lemma_simplify_message_map_prefix_err(
    entries: Seq<(String, ReferenceOr<Message>)>,
    i: int,
    parent: Seq<char>,
    e: CompileFailure,
)
    requires
        0 <= i <= entries.len(),
        spec_simplify_message_map(entries.take(i), parent) == Err::<
            Seq<SimplifiedMessageView>,
            CompileFailure,
        >(e),
    ensures
        spec_simplify_message_map(entries, parent) == Err::<
            Seq<SimplifiedMessageView>,
            CompileFailure,
        >(e),
    decreases entries.len(),
{
    if i < entries.len() {
        assert(entries.drop_last().take(i) =~= entries.take(i));
        lemma_simplify_message_map_prefix_err(entries.drop_last(), i, parent, e);
    } else {
        assert(entries.take(i) =~= entries);
    }
}

proof fn lemma_publish_channels_prefix_err(s: Seq<(String, Channel)>, i: int, e: CompileFailure)
    requires
        0 <= i <= s.len(),
        spec_publish_channels(s.take(i)) == Err::<
            Seq<(Seq<char>, SimplifiedOperationView)>,
            CompileFailure,
        >(e),
    ensures
        spec_publish_channels(s) == Err::<
            Seq<(Seq<char>, SimplifiedOperationView)>,
            CompileFailure,
        >(e),
    decreases s.len(),
{
    if i < s.len() {
        assert(s.drop_last().take(i) =~= s.take(i));
        lemma_publish_channels_prefix_err(s.drop_last(), i, e);
    } else {
        assert(s.take(i) =~= s);
    }
}

proof fn lemma_subscribe_channels_prefix_err(s: Seq<(String, Channel)>, i: int, e: CompileFailure)
    requires
        0 <= i <= s.len(),
        spec_subscribe_channels(s.take(i)) == Err::<
            Seq<(Seq<char>, SimplifiedOperationView)>,
            CompileFailure,
        >(e),
    ensures
        spec_subscribe_channels(s) == Err::<
            Seq<(Seq<char>, SimplifiedOperationView)>,
            CompileFailure,
        >(e),
    decreases s.len(),
{
    if i < s.len() {
        assert(s.drop_last().take(i) =~= s.take(i));
        lemma_subscribe_channels_prefix_err(s.drop_last(), i, e);
    } else {
        assert(s.take(i) =~= s);
    }
}

/// Simplifies one message of an operation: derives its identifier from the
/// message name (or the parent identifier) and compiles its schema payload.
pub fn simplify_message(message_or_ref: &ReferenceOr<Message>, unique_parent_id: &str) -> (r:
    Result<SimplifiedMessage, SchemaParserError>)
    ensures
        match r {
            Ok(sm) => spec_simplify_message(*message_or_ref, unique_parent_id@) == Ok::<
                SimplifiedMessageView,
                CompileFailure,
            >(sm@),
            Err(e) => spec_simplify_message(*message_or_ref, unique_parent_id@) == Err::<
                SimplifiedMessageView,
                CompileFailure,
            >(e@),
        },
{
    match message_or_ref {
        ReferenceOr::Item(message) => {
            match &message.payload {
                Some(Payload::Schema(schema)) => {
                    let message_name = match &message.name {
                        Some(n) => n.clone(),
                        None => {
                            let mut s = unique_parent_id.to_owned();
                            s.append("Message");
                            s
                        },
                    };
                    let unique_id = validate_identifier_string(message_name.as_str(), false);
                    let schema_name = match &schema.schema_data.name {
                        Some(n) => validate_identifier_string(n.as_str(), false),
                        None => validate_identifier_string(unique_id.as_str(), false),
                    };
                    match parse_json_schema_to_rust_type(schema, schema_name.as_str()) {
                        Ok(rep) => Ok(
                            SimplifiedMessage {
                                unique_id,
                                original_message: clone_message(message),
                                payload: Some(rep),
                                payload_schema: match &message.payload_schema {
                                    Some(s) => Some(s.clone()),
                                    None => None,
                                },
                            },
                        ),
                        Err(e) => Err(e),
                    }
                },
                _ => Ok(
                    SimplifiedMessage {
                        unique_id: String::new(),
                        original_message: clone_message(message),
                        payload: None,
                        payload_schema: match &message.payload_schema {
                            Some(s) => Some(s.clone()),
                            None => None,
                        },
                    },
                ),
            }
        },
        ReferenceOr::Reference { .. } => {
            proof {
                reveal_strlit("Refs should be resolved by now");
            }
            Err(
                SchemaParserError::GenericError(
                    String::from_str("Refs should be resolved by now"),
                    None,
                ),
            )
        },
    }
}

/// Simplifies one operation of a channel: its identifier is the operation id
/// where one is declared, else the sanitized channel name; its messages are
/// simplified in declaration order.
#[verifier::loop_isolation(false)]
pub fn simplify_operation(operation: &Operation, channel_name: &str) -> (r: Result<
    SimplifiedOperation,
    SchemaParserError,
>)
    ensures
        match r {
            Ok(so) => spec_simplify_operation(*operation, channel_name@) == Ok::<
                SimplifiedOperationView,
                CompileFailure,
            >(so@),
            Err(e) => spec_simplify_operation(*operation, channel_name@) == Err::<
                SimplifiedOperationView,
                CompileFailure,
            >(e@),
        },
{
    let unique_id = match &operation.operation_id {
        Some(s) => s.clone(),
        None => validate_identifier_string(channel_name, false),
    };
    let mut messages: Vec<SimplifiedMessage> = Vec::new();
    match &operation.message {
        Some(OperationMessageType::MessageMap(entries)) => {
            let ghost ev = entries@;
            let n = entries.len();
            let mut i: usize = 0;
            while i < n
                invariant
                    i <= n,
                    spec_simplify_message_map(ev.take(i as int), unique_id@) == Ok::<
                        Seq<SimplifiedMessageView>,
                        CompileFailure,
                    >(view_msgs(messages@)),
                decreases n - i,
            {
                proof {
                    assert(ev.take(i as int + 1).drop_last() =~= ev.take(i as int));
                    assert(ev.take(i as int + 1).last() == ev[i as int]);
                }
                match simplify_message(&entries[i].1, unique_id.as_str()) {
                    Ok(sm) => {
                        let ghost prev = messages@;
                        let ghost smv = sm@;
                        messages.push(sm);
                        proof {
                            assert(messages@.drop_last() =~= prev);
                            assert(view_msgs(messages@) == view_msgs(prev).push(smv));
                        }
                    },
                    Err(e) => {
                        proof {
                            lemma_simplify_message_map_prefix_err(
                                ev,
                                i as int + 1,
                                unique_id@,
                                e@,
                            );
                        }
                        return Err(e);
                    },
                }
                i = i + 1;
            }
            proof {
                assert(ev.take(n as int) =~= ev);
            }
        },
        Some(OperationMessageType::Single(message_or_ref)) => {
            match simplify_message(message_or_ref, unique_id.as_str()) {
                Ok(sm) => {
                    let ghost smv = sm@;
                    messages.push(sm);
                    proof {
                        assert(messages@.drop_last() =~= Seq::<SimplifiedMessage>::empty());
                        assert(view_msgs(messages@.drop_last()) =~= Seq::<
                            SimplifiedMessageView,
                        >::empty());
                        assert(view_msgs(messages@) =~= seq![smv]);
                    }
                },
                Err(e) => {
                    return Err(e);
                },
            }
        },
        Some(OperationMessageType::OneOf(multiple)) => {
            let ghost lv = multiple@;
            let n = multiple.len();
            let mut i: usize = 0;
            while i < n
                invariant
                    i <= n,
                    spec_simplify_messages(lv.take(i as int), unique_id@) == Ok::<
                        Seq<SimplifiedMessageView>,
                        CompileFailure,
                    >(view_msgs(messages@)),
                decreases n - i,
            {
                proof {
                    assert(lv.take(i as int + 1).drop_last() =~= lv.take(i as int));
                    assert(lv.take(i as int + 1).last() == lv[i as int]);
                }
                match simplify_message(&multiple[i], unique_id.as_str()) {
                    Ok(sm) => {
                        let ghost prev = messages@;
                        let ghost smv = sm@;
                        messages.push(sm);
                        proof {
                            assert(messages@.drop_last() =~= prev);
                            assert(view_msgs(messages@) == view_msgs(prev).push(smv));
                        }
                    },
                    Err(e) => {
                        proof {
                            lemma_simplify_messages_prefix_err(lv, i as int + 1, unique_id@, e@);
                        }
                        return Err(e);
                    },
                }
                i = i + 1;
            }
            proof {
                assert(lv.take(n as int) =~= lv);
            }
        },
        None => {
            proof {
                assert(view_msgs(messages@) =~= Seq::<SimplifiedMessageView>::empty());
            }
        },
    }
    Ok(
        SimplifiedOperation {
            unique_id,
            original_operation: clone_operation(operation),
            messages,
        },
    )
}

/// The simplified publish operation of every channel that declares one,
/// paired with the channel's name, in declaration order.
#[verifier::loop_isolation(false)]
pub fn get_publish_channels_operations(asyncapi: &AsyncAPI) -> (r: Result<
    Vec<(String, SimplifiedOperation)>,
    SchemaParserError,
>)
    ensures
        match r {
            Ok(v) => spec_publish_channels(asyncapi.channels@) == Ok::<
                Seq<(Seq<char>, SimplifiedOperationView)>,
                CompileFailure,
            >(view_chan_ops(v@)),
            Err(e) => spec_publish_channels(asyncapi.channels@) == Err::<
                Seq<(Seq<char>, SimplifiedOperationView)>,
                CompileFailure,
            >(e@),
        },
{
    let ghost cv = asyncapi.channels@;
    let n = asyncapi.channels.len();
    let mut out: Vec<(String, SimplifiedOperation)> = Vec::new();
    let mut i: usize = 0;
    while i < n
        invariant
            i <= n,
            spec_publish_channels(cv.take(i as int)) == Ok::<
                Seq<(Seq<char>, SimplifiedOperationView)>,
                CompileFailure,
            >(view_chan_ops(out@)),
        decreases n - i,
    {
        proof {
            assert(cv.take(i as int + 1).drop_last() =~= cv.take(i as int));
            assert(cv.take(i as int + 1).last() == cv[i as int]);
        }
        match &asyncapi.channels[i].1.publish {
            Some(op) => {
                match simplify_operation(op, asyncapi.channels[i].0.as_str()) {
                    Ok(so) => {
                        let key = asyncapi.channels[i].0.clone();
                        let ghost prev = out@;
                        let ghost kv = key@;
                        let ghost sov = so@;
                        out.push((key, so));
                        proof {
                            assert(out@.drop_last() =~= prev);
                            assert(view_chan_ops(out@) == view_chan_ops(prev).push((kv, sov)));
                        }
                    },
                    Err(e) => {
                        proof {
                            lemma_publish_channels_prefix_err(cv, i as int + 1, e@);
                        }
                        return Err(e);
                    },
                }
            },
            None => {},
        }
        i = i + 1;
    }
    proof {
        assert(cv.take(n as int) =~= cv);
    }
    Ok(out)
}

/// The simplified subscribe operation of every channel that declares one,
/// paired with the channel's name, in declaration order.
#[verifier::loop_isolation(false)]
pub fn get_subscribe_channels_operations(asyncapi: &AsyncAPI) -> (r: Result<
    Vec<(String, SimplifiedOperation)>,
    SchemaParserError,
>)
    ensures
        match r {
            Ok(v) => spec_subscribe_channels(asyncapi.channels@) == Ok::<
                Seq<(Seq<char>, SimplifiedOperationView)>,
                CompileFailure,
            >(view_chan_ops(v@)),
            Err(e) => spec_subscribe_channels(asyncapi.channels@) == Err::<
                Seq<(Seq<char>, SimplifiedOperationView)>,
                CompileFailure,
            >(e@),
        },
{
    let ghost cv = asyncapi.channels@;
    let n = asyncapi.channels.len();
    let mut out: Vec<(String, SimplifiedOperation)> = Vec::new();
    let mut i: usize = 0;
    while i < n
        invariant
            i <= n,
            spec_subscribe_channels(cv.take(i as int)) == Ok::<
                Seq<(Seq<char>, SimplifiedOperationView)>,
                CompileFailure,
            >(view_chan_ops(out@)),
        decreases n - i,
    {
        proof {
            assert(cv.take(i as int + 1).drop_last() =~= cv.take(i as int));
            assert(cv.take(i as int + 1).last() == cv[i as int]);
        }
        match &asyncapi.channels[i].1.subscribe {
            Some(op) => {
                match simplify_operation(op, asyncapi.channels[i].0.as_str()) {
                    Ok(so) => {
                        let key = asyncapi.channels[i].0.clone();
                        let ghost prev = out@;
                        let ghost kv = key@;
                        let ghost sov = so@;
                        out.push((key, so));
                        proof {
                            assert(out@.drop_last() =~= prev);
                            assert(view_chan_ops(out@) == view_chan_ops(prev).push((kv, sov)));
                        }
                    },
                    Err(e) => {
                        proof {
                            lemma_subscribe_channels_prefix_err(cv, i as int + 1, e@);
                        }
                        return Err(e);
                    },
                }
            },
            None => {},
        }
        i = i + 1;
    }
    proof {
        assert(cv.take(n as int) =~= cv);
    }
    Ok(out)
}

/// Whether some representation in `v` carries the identifier `id`.
#[verifier::loop_isolation(false)]
fn contains_id_exec(v: &Vec<RustSchemaRepresentation>, id: &String) -> (b: bool)
    ensures
        b == contains_id(view_reps(v@), id@),
{
    proof {
        lemma_view_reps(v@);
    }
    let n = v.len();
    let mut i: usize = 0;
    while i < n
        invariant
            i <= n,
            forall|j: int| 0 <= j < i ==> view_reps(v@)[j].unique_id != id@,
        decreases n - i,
    {
        if v[i].unique_id == *id {
            proof {
                assert(view_reps(v@)[i as int].unique_id == id@);
            }
            return true;
        }
        i = i + 1;
    }
    proof {
        if contains_id(view_reps(v@), id@) {
            let j = choose|j: int|
                0 <= j < view_reps(v@).len() && view_reps(v@)[j].unique_id == id@;
        }
    }
    false
}

/// Appends every representation reachable from `ops` to `all`.
#[verifier::loop_isolation(false)]
fn collect_channel_models(
    ops: &Vec<(String, SimplifiedOperation)>,
    all: &mut Vec<RustSchemaRepresentation>,
)
    ensures
        view_reps(final(all)@) == view_reps(old(all)@) + spec_collect_ops(view_chan_ops(ops@)),
{
    proof {
        lemma_view_chan_ops(ops@);
        assert(view_reps(all@) + spec_collect_ops(view_chan_ops(ops@).take(0)) =~= view_reps(
            all@,
        ));
    }
    let ghost base = view_reps(all@);
    let ghost ov = view_chan_ops(ops@);
    let n = ops.len();
    let mut i: usize = 0;
    while i < n
        invariant
            i <= n,
            view_reps(all@) == base + spec_collect_ops(ov.take(i as int)),
        decreases n - i,
    {
        proof {
            assert(ov.take(i as int + 1).drop_last() =~= ov.take(i as int));
            assert(ov.take(i as int + 1).last() == ov[i as int]);
            lemma_view_msgs(ops@[i as int].1.messages@);
        }
        let ghost mv = ov[i as int].1.messages;
        let messages = &ops[i].1.messages;
        let m = messages.len();
        let mut j: usize = 0;
        proof {
            assert(spec_collect_msgs(mv.take(0)) =~= Seq::<RepView>::empty());
            assert(view_reps(all@) + spec_collect_msgs(mv.take(0)) =~= view_reps(all@));
        }
        while j < m
            invariant
                j <= m,
                m == messages@.len(),
                messages == &ops@[i as int].1.messages,
                mv == ov[i as int].1.messages,
                mv.len() == m,
                forall|k: int| 0 <= k < m ==> mv[k] == (#[trigger] messages@[k])@,
                view_reps(all@) == base + spec_collect_ops(ov.take(i as int))
                    + spec_collect_msgs(mv.take(j as int)),
            decreases m - j,
        {
            proof {
                assert(mv.take(j as int + 1).drop_last() =~= mv.take(j as int));
                assert(mv.take(j as int + 1).last() == mv[j as int]);
            }
            match &messages[j].payload {
                Some(rep) => {
                    let mut flat = rep.get_related_models_recursive();
                    let ghost prev = all@;
                    let ghost flatv = flat@;
                    all.append(&mut flat);
                    proof {
                        lemma_view_reps_concat(prev, flatv);
                        assert(view_reps(all@) == view_reps(prev) + view_reps(flatv));
                        assert(base + spec_collect_ops(ov.take(i as int)) + spec_collect_msgs(
                            mv.take(j as int),
                        ) + rep_flatten(mv[j as int].payload->0) =~= base + spec_collect_ops(
                            ov.take(i as int),
                        ) + spec_collect_msgs(mv.take(j as int + 1)));
                    }
                },
                None => {
                    proof {
                        assert(base + spec_collect_ops(ov.take(i as int)) + spec_collect_msgs(
                            mv.take(j as int),
                        ) =~= base + spec_collect_ops(ov.take(i as int)) + spec_collect_msgs(
                            mv.take(j as int + 1),
                        ));
                    }
                },
            }
            j = j + 1;
        }
        proof {
            assert(mv.take(m as int) =~= mv);
            assert(base + spec_collect_ops(ov.take(i as int)) + spec_collect_msgs(mv) =~= base
                + spec_collect_ops(ov.take(i as int + 1)));
        }
        i = i + 1;
    }
    proof {
        assert(ov.take(n as int) =~= ov);
    }
}

/// Extracts every compiled payload representation reachable from the publish
/// and subscribe operations, flattened and deduplicated by identifier; of
/// several representations sharing an identifier, the first is kept.
#[verifier::loop_isolation(false)]
pub fn extract_model_from_channels(
    pub_channels: &Vec<(String, SimplifiedOperation)>,
    sub_channels: &Vec<(String, SimplifiedOperation)>,
) -> (r: Model)
    ensures
        view_reps(r.message_models@) == dedup_reps(
            spec_collect_ops(view_chan_ops(pub_channels@)) + spec_collect_ops(
                view_chan_ops(sub_channels@),
            ),
        ),
{
    let mut all: Vec<RustSchemaRepresentation> = Vec::new();
    proof {
        assert(view_reps(all@) =~= Seq::<RepView>::empty());
    }
    collect_channel_models(pub_channels, &mut all);
    collect_channel_models(sub_channels, &mut all);
    let ghost allv = view_reps(all@);
    proof {
        assert(allv =~= spec_collect_ops(view_chan_ops(pub_channels@)) + spec_collect_ops(
            view_chan_ops(sub_channels@),
        ));
        lemma_view_reps(all@);
    }
    let n = all.len();
    let mut unique: Vec<RustSchemaRepresentation> = Vec::new();
    let mut i: usize = 0;
    proof {
        assert(dedup_reps(allv.take(0)) =~= Seq::<RepView>::empty());
        assert(view_reps(unique@) =~= Seq::<RepView>::empty());
    }
    while i < n
        invariant
            i <= n,
            view_reps(unique@) == dedup_reps(allv.take(i as int)),
        decreases n - i,
    {
        proof {
            assert(allv.take(i as int + 1).drop_last() =~= allv.take(i as int));
            assert(allv.take(i as int + 1).last() == allv[i as int]);
        }
        if !contains_id_exec(&unique, &all[i].unique_id) {
            let c = all[i].duplicate();
            let ghost prev = unique@;
            let ghost cvv = c@;
            unique.push(c);
            proof {
                assert(unique@.drop_last() =~= prev);
                assert(view_reps(unique@) == view_reps(prev).push(cvv));
            }
        }
        i = i + 1;
    }
    proof {
        assert(allv.take(n as int) =~= allv);
    }
    Model { message_models: unique }
}

/// Assembles the template context: the first declared server (required, and
/// required to be declared inline), the simplified publish and subscribe
/// operations of every channel, and the deduplicated model of every payload
/// type they reach.
pub fn create_template_context(spec: &AsyncAPI) -> (r: Result<
    TemplateContext,
    TemplateContextError,
>)
    ensures
        match r {
            Ok(ctx) => spec_create_template_context(*spec) == Ok::<
                TemplateContextView,
                ContextFailure,
            >(ctx@),
            Err(e) => spec_create_template_context(*spec) == Err::<
                TemplateContextView,
                ContextFailure,
            >(e@),
        },
{
    if spec.servers.len() == 0 {
        return Err(TemplateContextError::MissingServer);
    }
    let server = match &spec.servers[0].1 {
        ReferenceOr::Item(s) => clone_server(s),
        ReferenceOr::Reference { .. } => {
            return Err(TemplateContextError::UnresolvedServerReference);
        },
    };
    let publish_channels = match get_publish_channels_operations(spec) {
        Ok(v) => v,
        Err(e) => {
            return Err(TemplateContextError::Schema(e));
        },
    };
    let subscribe_channels = match get_subscribe_channels_operations(spec) {
        Ok(v) => v,
        Err(e) => {
            return Err(TemplateContextError::Schema(e));
        },
    };
    let model = extract_model_from_channels(&publish_channels, &subscribe_channels);
    Ok(
        TemplateContext {
            title: spec.info.title.clone(),
            description: match &spec.info.description {
                Some(d) => Some(d.clone()),
                None => None,
            },
            server,
            subscribe_channels,
            publish_channels,
            model,
        },
    )
}

/// Assembles the template context; the older name of `create_template_context`.
pub fn spec_to_pubsub_template_type(spec: &AsyncAPI) -> (r: Result<
    TemplateContext,
    TemplateContextError,
>)
    ensures
        match r {
            Ok(ctx) => spec_create_template_context(*spec) == Ok::<
                TemplateContextView,
                ContextFailure,
            >(ctx@),
            Err(e) => spec_create_template_context(*spec) == Err::<
                TemplateContextView,
                ContextFailure,
            >(e@),
        },
{
    create_template_context(spec)
}

/// Mathematical view of the assembled template context.
pub struct TemplateContextView {
    pub title: Seq<char>,
    pub description: Option<Seq<char>>,
    pub server: ServerView,
    pub subscribe_channels: Seq<(Seq<char>, SimplifiedOperationView)>,
    pub publish_channels: Seq<(Seq<char>, SimplifiedOperationView)>,
    pub model: Seq<RepView>,
}

impl View for TemplateContext {
    type V = TemplateContextView;

    open spec fn view(&self) -> TemplateContextView {
        TemplateContextView {
            title: self.title@,
            description: match self.description {
                Some(d) => Some(d@),
                None => None,
            },
            server: self.server@,
            subscribe_channels: view_chan_ops(self.subscribe_channels@),
            publish_channels: view_chan_ops(self.publish_channels@),
            model: view_reps(self.model.message_models@),
        }
    }
}

} // verus!
