//! A node of a line-delimited JSON request/response protocol.
//!
//! The node reads one message per line, answers the handshake that names it,
//! and from then on echoes payloads and hands out identifiers that are unique
//! across the deployment.
//!
//! `message` holds the messages and the rule that derives a reply from a
//! request, `ident` the identifiers, `json` the JSON trees and the calls into
//! `serde_json`, `wire` the mapping between trees and messages, and `node`
//! the node itself.

pub mod ident;
pub mod json;
pub mod message;
pub mod node;
pub mod wire;

pub use crate::json::Json;
pub use crate::message::Kind;
pub use crate::message::Message;
pub use crate::message::MessageBody;
pub use crate::node::Node;
pub use crate::node::NodeError;
pub use crate::node::ProtocolError;
pub use crate::wire::DecodeError;
pub use crate::wire::EncodeError;
