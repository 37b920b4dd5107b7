//! The node: its identity, its counter, and what it does with one request.
//!
//! A node starts without a name. The first request must be the handshake,
//! which names it for good. From then on it answers `echo` and `generate`,
//! counting the requests it answers from one; everything else is an error
//! that leaves the node as it was.

use vstd::prelude::*;
use vstd::string::*;

use crate::ident::lemma_unique_id_injective;
use crate::ident::unique_id;
use crate::json::json_parse;
use crate::json::json_text;
use crate::json::JsonView;
use crate::message::BodyView;
use crate::message::Kind;
use crate::message::Message;
use crate::message::MessageBody;
use crate::message::MessageView;
use crate::message::response;
use crate::wire::decoded;
use crate::wire::message_tree;
use crate::wire::DecodeError;
use crate::wire::EncodeError;

verus! {

/// A request that the node cannot answer in the state it is in.
#[derive(Debug, Clone, Copy, PartialEq, Eq)]
pub enum ProtocolError {
    /// The node has no name yet and the request is no handshake.
    MissingIdentity,
    /// The node has its name and the request is of a kind that it does not
    /// answer: a second handshake, or a reply.
    UnexpectedKind(Kind),
}

/// Why a line got no reply.
#[derive(Debug, Clone, Copy, PartialEq, Eq)]
pub enum NodeError {
    /// The line is no message.
    Decode(DecodeError),
    /// The message is out of place.
    Protocol(ProtocolError),
    /// The reply could not be written.
    Encode(EncodeError),
}

/// One participant of the protocol.
#[derive(Debug)]
pub struct Node {
    identity: Option<String>,
    counter: usize,
}

/// A node as a mathematical value.
pub struct NodeView {
    /// The node's name, once the handshake has given it.
    pub identity: Option<Seq<char>>,
    /// How many requests the node has answered since the handshake.
    pub counter: nat,
}

impl View for Node {
    type V = NodeView;

    closed spec fn view(&self) -> NodeView {
        NodeView {
            identity: match self.identity {
                Some(name) => Some(name@),
                None => None,
            },
            counter: self.counter as nat,
        }
    }
}

/// What one request does to a node: the node afterwards, and the reply or
/// the error.
///
/// Without a name the node accepts only the handshake, takes the name from
/// it and answers at counter value 0. With a name it answers `echo` and
/// `generate`, each at the next counter value. An error changes nothing.
pub open spec fn step(node: NodeView, request: MessageView) -> (
    NodeView,
    Result<MessageView, ProtocolError>,
) {
    match node.identity {
        None => match request.body {
            BodyView::Init { node_id, .. } => (
                NodeView { identity: Some(node_id), counter: 0 },
                Ok(response(request, node_id, 0)),
            ),
            _ => (node, Err(ProtocolError::MissingIdentity)),
        },
        Some(name) => match request.body.kind() {
            Kind::Echo | Kind::Generate => (
                NodeView { identity: node.identity, counter: node.counter + 1 },
                Ok(response(request, name, node.counter + 1)),
            ),
            kind => (node, Err(ProtocolError::UnexpectedKind(kind))),
        },
    }
}

/// What one line does to a node, given what the JSON reader makes of the
/// line and what the JSON writer makes of a tree: the node afterwards, and
/// the reply line or the error.
pub open spec fn line_step(node: NodeView, parsed: Option<JsonView>) -> (
    NodeView,
    Result<Seq<char>, NodeError>,
) {
    match decoded(parsed) {
        Err(e) => (node, Err(NodeError::Decode(e))),
        Ok(request) => match step(node, request).1 {
            Err(e) => (step(node, request).0, Err(NodeError::Protocol(e))),
            Ok(reply) => match json_text(message_tree(reply)) {
                None => (step(node, request).0, Err(NodeError::Encode(EncodeError))),
                Some(text) => (step(node, request).0, Ok(text)),
            },
        },
    }
}

/// The node after a run of requests, each one handled in turn. A request
/// that is turned down leaves the node as it was.
pub open spec fn run(node: NodeView, requests: Seq<MessageView>) -> NodeView
    decreases requests.len(),
{
    if requests.len() == 0 {
        node
    } else {
        step(run(node, requests.drop_last()), requests.last()).0
    }
}

/// The reply or the error that the request at place `i` of a run gets.
pub open spec fn reply_at(node: NodeView, requests: Seq<MessageView>, i: int) -> Result<
    MessageView,
    ProtocolError,
> {
    step(run(node, requests.take(i)), requests[i]).1
}

/// Every reply answers its request: its `in_reply_to` is the request's
/// `msg_id`. An echo comes back unchanged.
pub proof fn lemma_reply_answers_request(node: NodeView, request: MessageView)
    requires
        step(node, request).1 is Ok,
    ensures
        step(node, request).1->Ok_0.body.in_reply_to() is Some,
        step(node, request).1->Ok_0.body.in_reply_to() == request.body.msg_id(),
        step(node, request).1->Ok_0.dst == request.src,
        request.body matches BodyView::Echo { echo, .. } ==> step(node, request).1->Ok_0.body
            matches BodyView::EchoOk { echo: returned, .. } && returned == echo,
{
}

/// A node that has its name keeps it, whatever the request, and its counter
/// never goes back: it moves on by exactly one with every request that is
/// answered, and stays where it is with every request that is turned down.
pub proof fn lemma_name_is_kept(node: NodeView, request: MessageView)
    requires
        node.identity is Some,
    ensures
        step(node, request).0.identity == node.identity,
        step(node, request).1 is Ok ==> step(node, request).0.counter == node.counter + 1,
        step(node, request).1 is Err ==> step(node, request).0 == node,
        step(node, request).1 matches Ok(reply) ==> reply.src == node.identity->Some_0,
{
}

/// Over a run, a node that has its name keeps it and its counter never goes
/// back.
pub proof fn lemma_run_keeps_name(node: NodeView, requests: Seq<MessageView>, i: int, j: int)
    requires
        0 <= i <= j <= requests.len(),
        run(node, requests.take(i)).identity is Some,
    ensures
        run(node, requests.take(j)).identity == run(node, requests.take(i)).identity,
        run(node, requests.take(j)).counter >= run(node, requests.take(i)).counter,
    decreases j - i,
{
    if i < j {
        lemma_run_keeps_name(node, requests, i, j - 1);
        assert(requests.take(j).drop_last() =~= requests.take(j - 1));
        assert(requests.take(j).last() == requests[j - 1]);
        lemma_name_is_kept(run(node, requests.take(j - 1)), requests[j - 1]);
    }
}

/// No node hands out an identifier twice: two `generate` requests of one
/// run, at different places, get different identifiers.
pub proof fn lemma_generated_ids_differ(
    node: NodeView,
    requests: Seq<MessageView>,
    i: int,
    j: int,
)
    requires
        0 <= i < j < requests.len(),
        reply_at(node, requests, i) matches Ok(reply) && reply.body is GenerateOk,
        reply_at(node, requests, j) matches Ok(reply) && reply.body is GenerateOk,
    ensures
        reply_at(node, requests, i)->Ok_0.body->GenerateOk_id != reply_at(
            node,
            requests,
            j,
        )->Ok_0.body->GenerateOk_id,
{
    let before_i = run(node, requests.take(i));
    let after_i = run(node, requests.take(i + 1));
    let before_j = run(node, requests.take(j));
    assert(requests.take(i + 1).drop_last() =~= requests.take(i));
    assert(requests.take(i + 1).last() == requests[i]);
    assert(after_i == step(before_i, requests[i]).0);
    lemma_name_is_kept(before_i, requests[i]);
    lemma_run_keeps_name(node, requests, i + 1, j);
    let name = before_i.identity->Some_0;
    let id_i = reply_at(node, requests, i)->Ok_0.body->GenerateOk_id;
    let id_j = reply_at(node, requests, j)->Ok_0.body->GenerateOk_id;
    assert(id_i == unique_id(name, before_i.counter + 1));
    assert(id_j == unique_id(name, before_j.counter + 1));
    if id_i == id_j {
        lemma_unique_id_injective(name, before_i.counter + 1, name, before_j.counter + 1);
    }
}

/// No two nodes with different names hand out the same identifier, wherever
/// their counters stand.
pub proof fn lemma_ids_differ_across_nodes(
    a: NodeView,
    request_a: MessageView,
    b: NodeView,
    request_b: MessageView,
)
    requires
        a.identity is Some,
        b.identity is Some,
        a.identity != b.identity,
        step(a, request_a).1 matches Ok(reply) && reply.body is GenerateOk,
        step(b, request_b).1 matches Ok(reply) && reply.body is GenerateOk,
    ensures
        step(a, request_a).1->Ok_0.body->GenerateOk_id != step(
            b,
            request_b,
        ).1->Ok_0.body->GenerateOk_id,
{
    let id_a = step(a, request_a).1->Ok_0.body->GenerateOk_id;
    let id_b = step(b, request_b).1->Ok_0.body->GenerateOk_id;
    if id_a == id_b {
        lemma_unique_id_injective(
            a.identity->Some_0,
            a.counter + 1,
            b.identity->Some_0,
            b.counter + 1,
        );
    }
}

/// A result of answering a request, as a mathematical value.
pub open spec fn reply_result(r: Result<Message, ProtocolError>) -> Result<
    MessageView,
    ProtocolError,
> {
    match r {
        Ok(reply) => Ok(reply@),
        Err(e) => Err(e),
    }
}

/// A result of answering a line, as a mathematical value.
pub open spec fn line_result(r: Result<String, NodeError>) -> Result<Seq<char>, NodeError> {
    match r {
        Ok(line) => Ok(line@),
        Err(e) => Err(e),
    }
}

impl Node {
    /// A node before the handshake: no name, counter 0.
    pub fn new() -> (node: Node)
        ensures
            node@ == (NodeView { identity: None, counter: 0 }),
    {
        Node { identity: None, counter: 0 }
    }

    /// The node's name, once the handshake has given it.
    pub fn node_id(&self) -> (name: Option<&str>)
        ensures
            match self@.identity {
                Some(id) => name matches Some(s) && s@ == id,
                None => name is None,
            },
    {
        match &self.identity {
            Some(name) => Some(name.as_str()),
            None => None,
        }
    }

    /// How many requests the node has answered since the handshake.
    pub fn counter(&self) -> (n: usize)
        ensures
            n == self@.counter,
    {
        self.counter
    }

    /// Answers one request and moves the node on, as `step` says.
    ///
    /// The counter must have room for one more request.
    pub fn handle(&mut self, request: &Message) -> (r: Result<Message, ProtocolError>)
        requires
            old(self)@.counter < usize::MAX,
        ensures
            final(self)@ == step(old(self)@, request@).0,
            reply_result(r) == step(old(self)@, request@).1,
            r matches Ok(reply) ==> reply@.body.in_reply_to() == request@.body.msg_id(),
            r matches Ok(reply) ==> (request@.body matches BodyView::Echo { echo, .. }
                ==> reply@.body matches BodyView::EchoOk { echo: returned, .. } && returned
                == echo),
            r is Err ==> final(self)@ == old(self)@,
    {
        match &self.identity {
            None => match request.get_node_id() {
                Some(name) => {
                    let reply = request.get_response(name, 0);
                    self.identity = Some(String::from_str(name));
                    self.counter = 0;
                    Ok(reply)
                },
                None => Err(ProtocolError::MissingIdentity),
            },
            Some(name) => match request.body.kind() {
                Kind::Echo | Kind::Generate => {
                    let reply = request.get_response(name.as_str(), self.counter + 1);
                    self.counter = self.counter + 1;
                    Ok(reply)
                },
                kind => Err(ProtocolError::UnexpectedKind(kind)),
            },
        }
    }

    /// Answers one line: reads the request, answers it, writes the reply,
    /// as `line_step` says. The reply comes without a line break.
    ///
    /// The counter must have room for one more request.
    pub fn process_line(&mut self, line: &str) -> (r: Result<String, NodeError>)
        requires
            old(self)@.counter < usize::MAX,
        ensures
            final(self)@ == line_step(old(self)@, json_parse(line@)).0,
            line_result(r) == line_step(old(self)@, json_parse(line@)).1,
    {
        let request = match Message::decode(line) {
            Ok(request) => request,
            Err(e) => {
                return Err(NodeError::Decode(e));
            },
        };
        let reply = match self.handle(&request) {
            Ok(reply) => reply,
            Err(e) => {
                return Err(NodeError::Protocol(e));
            },
        };
        match reply.encode() {
            Ok(text) => Ok(text),
            Err(e) => Err(NodeError::Encode(e)),
        }
    }
}

} // verus!
