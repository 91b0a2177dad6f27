//! Plain-value model of a bus message.
//!
//! A message carries the attributes the dispatch core reads: its kind, the
//! serial the transport assigned to it, an optional reply-correlation serial,
//! the addressing strings, a flag saying whether a call demands a reply, and a
//! body of plain arguments. Marshalling to and from the wire format is an
//! external collaborator's job.

use vstd::prelude::*;

verus! {

/// What sort of unit a message is.
#[derive(Clone, Copy, Debug, PartialEq, Eq, Structural)]
pub enum MsgKind {
    /// A method call addressed to an object on the destination.
    MethodCall,
    /// A successful reply to an earlier method call.
    MethodReturn,
    /// An error reply to an earlier method call.
    Error,
    /// A broadcast signal; never demands a reply.
    Signal,
}

/// One argument in a message body.
#[derive(Clone, Debug)]
pub enum MsgArg {
    /// An unsigned 32-bit value.
    U32(u32),
    /// A string value.
    Str(String),
}

/// A message, reduced to the attributes the dispatch core inspects.
#[derive(Clone, Debug)]
pub struct Message {
    /// What sort of message this is.
    pub kind: MsgKind,
    /// The serial the transport assigned when this message was sent; `0`
    /// until a transport has accepted it.
    pub serial: u64,
    /// For a reply, the serial of the call it answers.
    pub reply_serial: Option<u64>,
    /// The bus name of the peer that sent the message, when known.
    pub sender: Option<String>,
    /// The bus name the message is addressed to, when any.
    pub destination: Option<String>,
    /// The object path the message concerns, when any.
    pub path: Option<String>,
    /// The interface the message concerns, when any.
    pub interface: Option<String>,
    /// The method or signal name, when any.
    pub member: Option<String>,
    /// Whether this message is a call that demands exactly one reply.
    pub expects_reply: bool,
    /// The body arguments.
    pub body: Vec<MsgArg>,
}

impl Message {
    /// A call that demands an answer: the dispatch engine owes such a message
    /// a default error reply when nothing else handles it and the caller is
    /// known.
    pub open spec fn demands_default_reply(self) -> bool {
        self.kind == MsgKind::MethodCall && self.expects_reply && self.sender is Some
    }
}

/// The fallback "no handler" error reply owed to an unhandled call.
///
/// Returns a reply exactly when the message is a method call that demands a
/// reply and names its sender; the reply is an error addressed back to that
/// sender, correlated by the call's serial, and itself demands no reply.
pub fn default_reply(m: &Message) -> (r: Option<Message>)
    ensures
        (r is Some) == m.demands_default_reply(),
        r matches Some(rep) ==> {
            &&& rep.kind == MsgKind::Error
            &&& rep.serial == 0
            &&& rep.reply_serial == Some(m.serial)
            &&& rep.sender is None
            &&& rep.destination == m.sender
            &&& rep.path is None
            &&& rep.interface is None
            &&& rep.member is None
            &&& rep.expects_reply == false
            &&& rep.body@ == Seq::<MsgArg>::empty()
        },
{
    if m.kind == MsgKind::MethodCall && m.expects_reply {
        match &m.sender {
            Some(s) => Some(Message {
                kind: MsgKind::Error,
                serial: 0,
                reply_serial: Some(m.serial),
                sender: None,
                destination: Some(s.clone()),
                path: None,
                interface: None,
                member: None,
                expects_reply: false,
                body: Vec::new(),
            }),
            None => None,
        }
    } else {
        None
    }
}

} // verus!
