//! The messages of the protocol and the rule that derives a reply from a
//! request.

use vstd::prelude::*;
use vstd::string::*;

use crate::ident::generate_id;
use crate::ident::unique_id;

verus! {

/// The six kinds of message body, three requests and their three replies.
#[derive(Debug, Clone, Copy, PartialEq, Eq)]
pub enum Kind {
    Init,
    InitOk,
    Echo,
    EchoOk,
    Generate,
    GenerateOk,
}

/// What a message carries besides its two addresses.
#[derive(Debug, PartialEq, Eq)]
pub enum MessageBody {
    /// The handshake: names the receiving node and lists all participants.
    Init { msg_id: usize, node_id: String, node_ids: Vec<String> },
    /// The answer to the handshake.
    InitOk { in_reply_to: usize },
    /// Asks for `echo` to be sent back.
    Echo { msg_id: usize, echo: String },
    /// Sends `echo` back.
    EchoOk { msg_id: usize, in_reply_to: usize, echo: String },
    /// Asks for a fresh identifier.
    Generate { msg_id: usize },
    /// Carries the fresh identifier `id`.
    GenerateOk { msg_id: usize, in_reply_to: usize, id: String },
}

/// One message: sender, recipient and body.
#[derive(Debug, PartialEq, Eq)]
pub struct Message {
    pub src: String,
    pub dst: String,
    pub body: MessageBody,
}

/// A message body as a mathematical value.
pub enum BodyView {
    Init { msg_id: usize, node_id: Seq<char>, node_ids: Seq<Seq<char>> },
    InitOk { in_reply_to: usize },
    Echo { msg_id: usize, echo: Seq<char> },
    EchoOk { msg_id: usize, in_reply_to: usize, echo: Seq<char> },
    Generate { msg_id: usize },
    GenerateOk { msg_id: usize, in_reply_to: usize, id: Seq<char> },
}

/// A message as a mathematical value.
pub struct MessageView {
    pub src: Seq<char>,
    pub dst: Seq<char>,
    pub body: BodyView,
}

impl Kind {
    /// Whether a body of this kind is a request, which has an answer.
    pub open spec fn spec_is_request(self) -> bool {
        self is Init || self is Echo || self is Generate
    }

    /// Whether a body of this kind is a request, which has an answer.
    #[verifier::when_used_as_spec(spec_is_request)]
    pub fn is_request(self) -> (b: bool)
        ensures
            b == self.spec_is_request(),
    {
        match self {
            Kind::Init | Kind::Echo | Kind::Generate => true,
            _ => false,
        }
    }
}

impl BodyView {
    /// The kind of this body.
    pub open spec fn kind(self) -> Kind {
        match self {
            BodyView::Init { .. } => Kind::Init,
            BodyView::InitOk { .. } => Kind::InitOk,
            BodyView::Echo { .. } => Kind::Echo,
            BodyView::EchoOk { .. } => Kind::EchoOk,
            BodyView::Generate { .. } => Kind::Generate,
            BodyView::GenerateOk { .. } => Kind::GenerateOk,
        }
    }

    /// The body's own message id; only `init_ok` has none.
    pub open spec fn msg_id(self) -> Option<usize> {
        match self {
            BodyView::Init { msg_id, .. } => Some(msg_id),
            BodyView::InitOk { .. } => None,
            BodyView::Echo { msg_id, .. } => Some(msg_id),
            BodyView::EchoOk { msg_id, .. } => Some(msg_id),
            BodyView::Generate { msg_id } => Some(msg_id),
            BodyView::GenerateOk { msg_id, .. } => Some(msg_id),
        }
    }

    /// The id of the request that a reply answers; a request has none.
    pub open spec fn in_reply_to(self) -> Option<usize> {
        match self {
            BodyView::InitOk { in_reply_to } => Some(in_reply_to),
            BodyView::EchoOk { in_reply_to, .. } => Some(in_reply_to),
            BodyView::GenerateOk { in_reply_to, .. } => Some(in_reply_to),
            _ => None,
        }
    }
}

impl View for MessageBody {
    type V = BodyView;

    open spec fn view(&self) -> BodyView {
        match *self {
            MessageBody::Init { msg_id, node_id, node_ids } => BodyView::Init {
                msg_id,
                node_id: node_id@,
                node_ids: node_ids.deep_view(),
            },
            MessageBody::InitOk { in_reply_to } => BodyView::InitOk { in_reply_to },
            MessageBody::Echo { msg_id, echo } => BodyView::Echo { msg_id, echo: echo@ },
            MessageBody::EchoOk { msg_id, in_reply_to, echo } => BodyView::EchoOk {
                msg_id,
                in_reply_to,
                echo: echo@,
            },
            MessageBody::Generate { msg_id } => BodyView::Generate { msg_id },
            MessageBody::GenerateOk { msg_id, in_reply_to, id } => BodyView::GenerateOk {
                msg_id,
                in_reply_to,
                id: id@,
            },
        }
    }
}

impl View for Message {
    type V = MessageView;

    open spec fn view(&self) -> MessageView {
        MessageView { src: self.src@, dst: self.dst@, body: self.body@ }
    }
}

/// The body that answers `request` when the node `node` is at counter value
/// `id`. A reply reuses the request's message id as its own and as its
/// `in_reply_to`; an echo carries the payload back unchanged; a generated
/// identifier is `unique_id(node, id)`. Only requests have an answer: on any
/// other body the value is of no interest.
pub open spec fn reply_body(request: BodyView, node: Seq<char>, id: nat) -> BodyView {
    match request {
        BodyView::Init { msg_id, .. } => BodyView::InitOk { in_reply_to: msg_id },
        BodyView::Echo { msg_id, echo } => BodyView::EchoOk { msg_id, in_reply_to: msg_id, echo },
        BodyView::Generate { msg_id } => BodyView::GenerateOk {
            msg_id,
            in_reply_to: msg_id,
            id: unique_id(node, id),
        },
        other => other,
    }
}

/// The message that answers `request`: sent by `node` to the request's
/// sender, with the body `reply_body`.
pub open spec fn response(request: MessageView, node: Seq<char>, id: nat) -> MessageView {
    MessageView { src: node, dst: request.src, body: reply_body(request.body, node, id) }
}

/// Copies a list of names.
fn clone_names(names: &Vec<String>) -> (copy: Vec<String>)
    ensures
        copy@ == names@,
{
    let mut copy: Vec<String> = Vec::new();
    let mut i: usize = 0;
    while i < names.len()
        invariant
            i <= names.len(),
            copy@ == names@.take(i as int),
        decreases names.len() - i,
    {
        copy.push(names[i].clone());
        assert(copy@ =~= names@.take(i + 1));
        i = i + 1;
    }
    assert(names@.take(i as int) =~= names@);
    copy
}

impl Clone for MessageBody {
    fn clone(&self) -> (copy: MessageBody)
        ensures
            copy@ == self@,
    {
        match self {
            MessageBody::Init { msg_id, node_id, node_ids } => MessageBody::Init {
                msg_id: *msg_id,
                node_id: node_id.clone(),
                node_ids: clone_names(node_ids),
            },
            MessageBody::InitOk { in_reply_to } => MessageBody::InitOk { in_reply_to: *in_reply_to },
            MessageBody::Echo { msg_id, echo } => MessageBody::Echo {
                msg_id: *msg_id,
                echo: echo.clone(),
            },
            MessageBody::EchoOk { msg_id, in_reply_to, echo } => MessageBody::EchoOk {
                msg_id: *msg_id,
                in_reply_to: *in_reply_to,
                echo: echo.clone(),
            },
            MessageBody::Generate { msg_id } => MessageBody::Generate { msg_id: *msg_id },
            MessageBody::GenerateOk { msg_id, in_reply_to, id } => MessageBody::GenerateOk {
                msg_id: *msg_id,
                in_reply_to: *in_reply_to,
                id: id.clone(),
            },
        }
    }
}

impl Clone for Message {
    fn clone(&self) -> (copy: Message)
        ensures
            copy@ == self@,
    {
        Message { src: self.src.clone(), dst: self.dst.clone(), body: self.body.clone() }
    }
}

impl MessageBody {
    /// The kind of this body.
    pub fn kind(&self) -> (k: Kind)
        ensures
            k == self@.kind(),
    {
        match self {
            MessageBody::Init { .. } => Kind::Init,
            MessageBody::InitOk { .. } => Kind::InitOk,
            MessageBody::Echo { .. } => Kind::Echo,
            MessageBody::EchoOk { .. } => Kind::EchoOk,
            MessageBody::Generate { .. } => Kind::Generate,
            MessageBody::GenerateOk { .. } => Kind::GenerateOk,
        }
    }
}

impl Message {
    /// The name that a handshake gives to the node that receives it; `None`
    /// for every other message.
    pub fn get_node_id(&self) -> (name: Option<&str>)
        ensures
            match self@.body {
                BodyView::Init { node_id, .. } => name matches Some(s) && s@ == node_id,
                _ => name is None,
            },
    {
        match &self.body {
            MessageBody::Init { node_id, .. } => Some(node_id.as_str()),
            _ => None,
        }
    }

    /// Answers a request on behalf of the node named `node_id`, whose counter
    /// stands at `id`.
    ///
    /// The reply goes from `node_id` to the request's sender. Its
    /// `in_reply_to` is the request's `msg_id`, an echo carries the payload
    /// back character for character, and a generated identifier is
    /// `unique_id(node_id, id)`. Only the three request kinds can be
    /// answered; `Node::handle` turns the others down with an error.
    pub fn get_response(&self, node_id: &str, id: usize) -> (reply: Message)
        requires
            self@.body.kind().is_request(),
        ensures
            reply@ == response(self@, node_id@, id as nat),
            reply@.src == node_id@,
            reply@.dst == self@.src,
            reply@.body.in_reply_to() == self@.body.msg_id(),
            reply@.body.in_reply_to() is Some,
            self@.body matches BodyView::Echo { echo, .. } ==> reply@.body matches BodyView::EchoOk {
                echo: returned,
                ..
            } && returned == echo,
    {
        match &self.body {
            MessageBody::Init { msg_id, .. } => Message {
                src: String::from_str(node_id),
                dst: self.src.clone(),
                body: MessageBody::InitOk { in_reply_to: *msg_id },
            },
            MessageBody::Echo { msg_id, echo } => Message {
                src: String::from_str(node_id),
                dst: self.src.clone(),
                body: MessageBody::EchoOk {
                    msg_id: *msg_id,
                    in_reply_to: *msg_id,
                    echo: echo.clone(),
                },
            },
            MessageBody::Generate { msg_id } => Message {
                src: String::from_str(node_id),
                dst: self.src.clone(),
                body: MessageBody::GenerateOk {
                    msg_id: *msg_id,
                    in_reply_to: *msg_id,
                    id: generate_id(node_id, id),
                },
            },
            _ => unreached(),
        }
    }
}

} // verus!
