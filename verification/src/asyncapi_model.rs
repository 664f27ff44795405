//! The typed view of a preprocessed API description, reduced to what the
//! context assembler reads: servers, channels, their operations and
//! messages, and message payloads.

use vstd::prelude::*;

use crate::doc_tree::{Doc, DocNode};
use crate::reference::ReferenceOr;
use crate::schema::{view_opt_str, view_schema, Schema, SchemaView};

verus! {

/// The root document: metadata, servers and channels.
pub struct AsyncAPI {
    /// The declared specification version.
    pub asyncapi: String,
    pub info: Info,
    /// Named servers, in declaration order.
    pub servers: Vec<(String, ReferenceOr<Server>)>,
    /// Named channels, in declaration order.
    pub channels: Vec<(String, Channel)>,
}

/// Metadata about the described application.
pub struct Info {
    pub title: String,
    pub version: String,
    pub description: Option<String>,
}

/// Connection details of one server.
pub struct Server {
    pub url: String,
    pub protocol: String,
    pub protocol_version: Option<String>,
    pub description: Option<String>,
}

/// A named topic or queue with at most one publish and one subscribe
/// operation.
pub struct Channel {
    pub description: Option<String>,
    pub subscribe: Option<Operation>,
    pub publish: Option<Operation>,
}

/// One operation of a channel.
pub struct Operation {
    pub operation_id: Option<String>,
    pub summary: Option<String>,
    pub description: Option<String>,
    pub message: Option<OperationMessageType>,
}

/// The message(s) an operation carries.
pub enum OperationMessageType {
    /// A named collection of messages.
    MessageMap(Vec<(String, ReferenceOr<Message>)>),
    /// A single message.
    Single(ReferenceOr<Message>),
    /// One of several messages.
    OneOf(Vec<ReferenceOr<Message>>),
}

/// One message: its machine name, its payload, and the payload's raw JSON
/// text where the preprocessor copied it out.
pub struct Message {
    pub name: Option<String>,
    pub payload: Option<Payload>,
    pub payload_schema: Option<String>,
    pub content_type: Option<String>,
}

/// A message payload: a schema, or an arbitrary value kept as a tree.
pub enum Payload {
    Schema(Schema),
    Any(DocNode),
}

/// Mathematical view of a message: its fields over character sequences,
/// its payload over the schema and document views.
pub struct MessageView {
    pub name: Option<Seq<char>>,
    pub payload: Option<PayloadView>,
    pub payload_schema: Option<Seq<char>>,
    pub content_type: Option<Seq<char>>,
}

/// Mathematical view of a payload.
pub enum PayloadView {
    Schema(SchemaView),
    Any(Doc),
}

/// Mathematical view of a message-or-reference.
pub enum RefOrMessageView {
    Reference(Seq<char>),
    Item(MessageView),
}

/// Mathematical view of an operation.
pub struct OperationView {
    pub operation_id: Option<Seq<char>>,
    pub summary: Option<Seq<char>>,
    pub description: Option<Seq<char>>,
    pub message: Option<MessageDeclView>,
}

/// Mathematical view of an operation's message declaration.
pub enum MessageDeclView {
    MessageMap(Seq<(Seq<char>, RefOrMessageView)>),
    Single(RefOrMessageView),
    OneOf(Seq<RefOrMessageView>),
}

/// The view of a payload.
pub open spec fn view_payload(p: Payload) -> PayloadView {
    match p {
        Payload::Schema(s) => PayloadView::Schema(view_schema(s)),
        Payload::Any(d) => PayloadView::Any(d@),
    }
}

/// The view of a message.
pub open spec fn view_message(m: Message) -> MessageView {
    MessageView {
        name: view_opt_str(m.name),
        payload: match m.payload {
            Some(p) => Some(view_payload(p)),
            None => None,
        },
        payload_schema: view_opt_str(m.payload_schema),
        content_type: view_opt_str(m.content_type),
    }
}

impl View for Message {
    type V = MessageView;

    open spec fn view(&self) -> MessageView {
        view_message(*self)
    }
}

/// The view of a message-or-reference.
pub open spec fn view_message_ref(m: ReferenceOr<Message>) -> RefOrMessageView {
    match m {
        ReferenceOr::Reference { reference } => RefOrMessageView::Reference(reference@),
        ReferenceOr::Item(msg) => RefOrMessageView::Item(view_message(msg)),
    }
}

/// The views of a sequence of messages-or-references.
pub open spec fn view_message_refs(s: Seq<ReferenceOr<Message>>) -> Seq<RefOrMessageView>
    decreases s,
{
    if s.len() == 0 {
        Seq::empty()
    } else {
        view_message_refs(s.drop_last()).push(view_message_ref(s.last()))
    }
}

/// The views of a keyed collection of messages.
pub open spec fn view_message_entries(s: Seq<(String, ReferenceOr<Message>)>) -> Seq<
    (Seq<char>, RefOrMessageView),
>
    decreases s,
{
    if s.len() == 0 {
        Seq::empty()
    } else {
        view_message_entries(s.drop_last()).push((s.last().0@, view_message_ref(s.last().1)))
    }
}

/// The view of an operation's message declaration.
pub open spec fn view_message_decl(m: OperationMessageType) -> MessageDeclView {
    match m {
        OperationMessageType::MessageMap(entries) => MessageDeclView::MessageMap(
            view_message_entries(entries@),
        ),
        OperationMessageType::Single(mr) => MessageDeclView::Single(view_message_ref(mr)),
        OperationMessageType::OneOf(list) => MessageDeclView::OneOf(view_message_refs(list@)),
    }
}

/// The view of an operation.
pub open spec fn view_operation(op: Operation) -> OperationView {
    OperationView {
        operation_id: view_opt_str(op.operation_id),
        summary: view_opt_str(op.summary),
        description: view_opt_str(op.description),
        message: match op.message {
            Some(m) => Some(view_message_decl(m)),
            None => None,
        },
    }
}

impl View for Operation {
    type V = OperationView;

    open spec fn view(&self) -> OperationView {
        view_operation(*self)
    }
}

/// The view of a message-or-reference sequence is the element-wise view.
pub proof fn lemma_view_message_refs(s: Seq<ReferenceOr<Message>>)
    ensures
        view_message_refs(s).len() == s.len(),
        forall|i: int|
            0 <= i < s.len() ==> view_message_refs(s)[i] == view_message_ref(#[trigger] s[i]),
    decreases s,
{
    if s.len() > 0 {
        lemma_view_message_refs(s.drop_last());
        assert forall|i: int| 0 <= i < s.len() implies view_message_refs(s)[i] == view_message_ref(
            #[trigger] s[i],
        ) by {
            if i < s.len() - 1 {
                assert(s.drop_last()[i] == s[i]);
            } else {
                assert(s[i] == s.last());
            }
        }
    }
}

/// The view of a message collection is the entry-wise view.
pub proof fn lemma_view_message_entries(s: Seq<(String, ReferenceOr<Message>)>)
    ensures
        view_message_entries(s).len() == s.len(),
        forall|i: int|
            0 <= i < s.len() ==> view_message_entries(s)[i] == ((#[trigger] s[i]).0@,
            view_message_ref(s[i].1)),
    decreases s,
{
    if s.len() > 0 {
        lemma_view_message_entries(s.drop_last());
        assert forall|i: int| 0 <= i < s.len() implies view_message_entries(s)[i] == ((
        #[trigger] s[i]).0@, view_message_ref(s[i].1)) by {
            if i < s.len() - 1 {
                assert(s.drop_last()[i] == s[i]);
            } else {
                assert(s[i] == s.last());
            }
        }
    }
}

fn clone_opt_str(o: &Option<String>) -> (r: Option<String>)
    ensures
        view_opt_str(r) == view_opt_str(*o),
{
    match o {
        Some(s) => Some(s.clone()),
        None => None,
    }
}

/// A deep copy of a message, with the same view.
pub fn clone_message(m: &Message) -> (r: Message)
    ensures
        r@ == m@,
{
    Message {
        name: clone_opt_str(&m.name),
        payload: match &m.payload {
            Some(p) => Some(clone_payload(p)),
            None => None,
        },
        payload_schema: clone_opt_str(&m.payload_schema),
        content_type: clone_opt_str(&m.content_type),
    }
}

/// A deep copy of a payload, with the same view.
pub fn clone_payload(p: &Payload) -> (r: Payload)
    ensures
        view_payload(r) == view_payload(*p),
{
    match p {
        Payload::Schema(s) => Payload::Schema(crate::schema::clone_schema(s)),
        Payload::Any(d) => Payload::Any(crate::doc_tree::clone_doc(d)),
    }
}

/// A deep copy of a message-or-reference, with the same view.
pub fn clone_message_ref(m: &ReferenceOr<Message>) -> (r: ReferenceOr<Message>)
    ensures
        view_message_ref(r) == view_message_ref(*m),
{
    match m {
        ReferenceOr::Reference { reference } => ReferenceOr::Reference {
            reference: reference.clone(),
        },
        ReferenceOr::Item(msg) => ReferenceOr::Item(clone_message(msg)),
    }
}

/// A deep copy of an operation's message declaration, with the same view.
#[verifier::loop_isolation(false)]
pub fn clone_message_decl(m: &OperationMessageType) -> (r: OperationMessageType)
    ensures
        view_message_decl(r) == view_message_decl(*m),
{
    match m {
        OperationMessageType::MessageMap(entries) => {
            proof {
                lemma_view_message_entries(entries@);
            }
            let ghost ev = view_message_entries(entries@);
            let mut out: Vec<(String, ReferenceOr<Message>)> = Vec::new();
            let n = entries.len();
            let mut i: usize = 0;
            while i < n
                invariant
                    i <= n,
                    view_message_entries(out@) == ev.take(i as int),
                decreases n - i,
            {
                proof {
                    assert(ev.take(i as int + 1).drop_last() =~= ev.take(i as int));
                    assert(ev.take(i as int + 1).last() == ev[i as int]);
                }
                let key = entries[i].0.clone();
                let value = clone_message_ref(&entries[i].1);
                let ghost prev = out@;
                let ghost kv = key@;
                let ghost vv = view_message_ref(value);
                out.push((key, value));
                proof {
                    assert(out@.drop_last() =~= prev);
                    assert(view_message_entries(out@) == view_message_entries(prev).push(
                        (kv, vv),
                    ));
                    assert(view_message_entries(out@) =~= ev.take(i as int + 1));
                }
                i = i + 1;
            }
            proof {
                assert(ev.take(n as int) =~= ev);
            }
            OperationMessageType::MessageMap(out)
        },
        OperationMessageType::Single(mr) => OperationMessageType::Single(clone_message_ref(mr)),
        OperationMessageType::OneOf(list) => {
            proof {
                lemma_view_message_refs(list@);
            }
            let ghost lv = view_message_refs(list@);
            let mut out: Vec<ReferenceOr<Message>> = Vec::new();
            let n = list.len();
            let mut i: usize = 0;
            while i < n
                invariant
                    i <= n,
                    view_message_refs(out@) == lv.take(i as int),
                decreases n - i,
            {
                proof {
                    assert(lv.take(i as int + 1).drop_last() =~= lv.take(i as int));
                    assert(lv.take(i as int + 1).last() == lv[i as int]);
                }
                let c = clone_message_ref(&list[i]);
                let ghost prev = out@;
                let ghost cv = view_message_ref(c);
                out.push(c);
                proof {
                    assert(out@.drop_last() =~= prev);
                    assert(view_message_refs(out@) == view_message_refs(prev).push(cv));
                    assert(view_message_refs(out@) =~= lv.take(i as int + 1));
                }
                i = i + 1;
            }
            proof {
                assert(lv.take(n as int) =~= lv);
            }
            OperationMessageType::OneOf(out)
        },
    }
}

/// A deep copy of an operation, with the same view.
pub fn clone_operation(op: &Operation) -> (r: Operation)
    ensures
        r@ == op@,
{
    Operation {
        operation_id: clone_opt_str(&op.operation_id),
        summary: clone_opt_str(&op.summary),
        description: clone_opt_str(&op.description),
        message: match &op.message {
            Some(m) => Some(clone_message_decl(m)),
            None => None,
        },
    }
}

/// A copy of a server, with the same view.
pub fn clone_server(s: &Server) -> (r: Server)
    ensures
        r.url@ == s.url@,
        r.protocol@ == s.protocol@,
        (r.protocol_version matches Some(v) && s.protocol_version matches Some(w) && v@ == w@) || (
        r.protocol_version is None && s.protocol_version is None),
        (r.description matches Some(v) && s.description matches Some(w) && v@ == w@) || (
        r.description is None && s.description is None),
{
    Server {
        url: s.url.clone(),
        protocol: s.protocol.clone(),
        protocol_version: clone_opt_str(&s.protocol_version),
        description: clone_opt_str(&s.description),
    }
}

} // verus!
