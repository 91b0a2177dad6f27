//! Non-blocking dispatch core of a message-bus client.
//!
//! The crate turns a synchronous, poll-based transport (send a message, pop a
//! pending message) into a request/response flow: an outgoing method call is
//! registered in a reply table under the correlation token the transport
//! assigned, incoming messages are drained and routed to either the pending
//! reply entry or a registered filter, and a single-resolution oneshot cell
//! bridges the dispatch-time producer to a consumer awaiting the reply,
//! optionally racing against a deadline.
//!
//! Wire-format encoding, socket I/O and executor integration are external
//! collaborators: the dispatch logic here works on plain message values and is
//! driven through the [`dispatch::Transport`] trait.

pub mod call;
pub mod dispatch;
pub mod error;
pub mod filters;
pub mod msg;
pub mod oneshot;
pub mod replies;
pub mod rules;

pub use call::Proxy;
pub use call::RaceWinner;
pub use call::ReleaseNameReply;
pub use call::RequestNameReply;
pub use dispatch::Connection;
pub use dispatch::FilterHandler;
pub use dispatch::ReplyHandler;
pub use dispatch::Transport;
pub use error::CallError;
pub use msg::Message;
pub use msg::MsgArg;
pub use msg::MsgKind;
pub use oneshot::OneshotCell;
pub use rules::MatchRule;
