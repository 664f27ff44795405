//! What the template renderer consumes: simplified operations and messages,
//! the deduplicated model of all compiled payload types, and the bundled
//! template context.

use vstd::prelude::*;

use crate::asyncapi_model::{view_message, view_operation, Message, MessageView, Operation,
    OperationView, Server};
use crate::rust_schema_representation::{view_rep, view_reps, RepView, RustSchemaRepresentation};

verus! {

/// Mathematical view of a simplified message: its identifier, the view of
/// the message it carries, its compiled payload and raw payload text.
pub struct SimplifiedMessageView {
    pub unique_id: Seq<char>,
    pub original_message: MessageView,
    pub payload: Option<RepView>,
    pub payload_schema: Option<Seq<char>>,
}

/// One message of an operation: its identifier, the message it came from,
/// and its compiled payload, if the message has a schema payload.
pub struct SimplifiedMessage {
    pub unique_id: String,
    pub original_message: Message,
    pub payload: Option<RustSchemaRepresentation>,
    pub payload_schema: Option<String>,
}

impl View for SimplifiedMessage {
    type V = SimplifiedMessageView;

    open spec fn view(&self) -> SimplifiedMessageView {
        SimplifiedMessageView {
            unique_id: self.unique_id@,
            original_message: view_message(self.original_message),
            payload: match self.payload {
                Some(rep) => Some(view_rep(rep)),
                None => None,
            },
            payload_schema: match self.payload_schema {
                Some(s) => Some(s@),
                None => None,
            },
        }
    }
}

/// The views of a sequence of simplified messages.
pub open spec fn view_msgs(s: Seq<SimplifiedMessage>) -> Seq<SimplifiedMessageView>
    decreases s,
{
    if s.len() == 0 {
        Seq::empty()
    } else {
        view_msgs(s.drop_last()).push(s.last()@)
    }
}

/// The view of a message sequence is the element-wise view.
pub proof fn lemma_view_msgs(s: Seq<SimplifiedMessage>)
    ensures
        view_msgs(s).len() == s.len(),
        forall|i: int| 0 <= i < s.len() ==> view_msgs(s)[i] == (#[trigger] s[i])@,
    decreases s,
{
    if s.len() > 0 {
        lemma_view_msgs(s.drop_last());
        assert forall|i: int| 0 <= i < s.len() implies view_msgs(s)[i] == (#[trigger] s[i])@ by {
            if i < s.len() - 1 {
                assert(s.drop_last()[i] == s[i]);
            } else {
                assert(s[i] == s.last());
            }
        }
    }
}

/// Mathematical view of a simplified operation: its identifier, the view of
/// the operation it came from, and its messages.
pub struct SimplifiedOperationView {
    pub unique_id: Seq<char>,
    pub original_operation: OperationView,
    pub messages: Seq<SimplifiedMessageView>,
}

/// One publish or subscribe operation of a channel: its identifier, the
/// operation it came from, and its messages.
pub struct SimplifiedOperation {
    pub unique_id: String,
    pub original_operation: Operation,
    pub messages: Vec<SimplifiedMessage>,
}

impl View for SimplifiedOperation {
    type V = SimplifiedOperationView;

    open spec fn view(&self) -> SimplifiedOperationView {
        SimplifiedOperationView {
            unique_id: self.unique_id@,
            original_operation: view_operation(self.original_operation),
            messages: view_msgs(self.messages@),
        }
    }
}

/// The views of a sequence of named channel operations.
pub open spec fn view_chan_ops(s: Seq<(String, SimplifiedOperation)>) -> Seq<
    (Seq<char>, SimplifiedOperationView),
>
    decreases s,
{
    if s.len() == 0 {
        Seq::empty()
    } else {
        view_chan_ops(s.drop_last()).push((s.last().0@, s.last().1@))
    }
}

/// The view of a channel-operation sequence is the element-wise view.
pub proof fn lemma_view_chan_ops(s: Seq<(String, SimplifiedOperation)>)
    ensures
        view_chan_ops(s).len() == s.len(),
        forall|i: int|
            0 <= i < s.len() ==> view_chan_ops(s)[i] == ((#[trigger] s[i]).0@, s[i].1@),
    decreases s,
{
    if s.len() > 0 {
        lemma_view_chan_ops(s.drop_last());
        assert forall|i: int| 0 <= i < s.len() implies view_chan_ops(s)[i] == ((
        #[trigger] s[i]).0@, s[i].1@) by {
            if i < s.len() - 1 {
                assert(s.drop_last()[i] == s[i]);
            } else {
                assert(s[i] == s.last());
            }
        }
    }
}

/// A tagged union over several messages of one operation.
pub struct MultiStructEnum {
    pub unique_id: String,
    pub messages: Vec<SimplifiedMessage>,
    pub struct_definition: String,
}

/// The deduplicated set of every type representation reachable from any
/// operation of the document.
pub struct Model {
    pub message_models: Vec<RustSchemaRepresentation>,
}

/// Mathematical view of a server: its fields as character sequences.
pub struct ServerView {
    pub url: Seq<char>,
    pub protocol: Seq<char>,
    pub protocol_version: Option<Seq<char>>,
    pub description: Option<Seq<char>>,
}

impl View for Server {
    type V = ServerView;

    open spec fn view(&self) -> ServerView {
        ServerView {
            url: self.url@,
            protocol: self.protocol@,
            protocol_version: match self.protocol_version {
                Some(s) => Some(s@),
                None => None,
            },
            description: match self.description {
                Some(s) => Some(s@),
                None => None,
            },
        }
    }
}

/// The bundle handed to the template renderer.
pub struct TemplateContext {
    pub title: String,
    pub description: Option<String>,
    pub server: Server,
    pub subscribe_channels: Vec<(String, SimplifiedOperation)>,
    pub publish_channels: Vec<(String, SimplifiedOperation)>,
    pub model: Model,
}

} // verus!
