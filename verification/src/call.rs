//! Proxies and method calls: building an outgoing call, settling the race
//! between its reply and a deadline, and decoding standard-interface
//! replies.

use vstd::prelude::*;

use crate::error::CallError;
use crate::msg::Message;
use crate::msg::MsgArg;
use crate::msg::MsgKind;
use crate::oneshot::CallOutcome;

verus! {

/// A client-side stand-in for a remote object: a destination bus name, an
/// object path on it, a per-call timeout, and some way to reach a
/// connection.
#[derive(Clone, Debug)]
pub struct Proxy<C> {
    /// The bus name of the service the proxy talks to.
    pub destination: String,
    /// The object path on the destination.
    pub path: String,
    /// Timeout for method calls, in milliseconds.
    pub timeout_ms: u64,
    /// Some way to send and receive messages, non-blocking.
    pub connection: C,
}

impl<C> Proxy<C> {
    /// Creates a new proxy struct.
    pub fn new(destination: String, path: String, timeout_ms: u64, connection: C) -> (p: Self)
        ensures
            p.destination == destination,
            p.path == path,
            p.timeout_ms == timeout_ms,
            p.connection == connection,
    {
        Proxy { destination, path, timeout_ms, connection }
    }

    /// The outgoing method-call message for this proxy: addressed to the
    /// proxy's destination and path, demanding a reply, not yet carrying a
    /// transport serial.
    pub fn call_message(&self, interface: &str, member: &str, body: Vec<MsgArg>) -> (m: Message)
        ensures
            m.kind == MsgKind::MethodCall,
            m.serial == 0,
            m.reply_serial is None,
            m.sender is None,
            m.destination matches Some(d) && d@ == self.destination@,
            m.path matches Some(p) && p@ == self.path@,
            m.interface matches Some(i) && i@ == interface@,
            m.member matches Some(mm) && mm@ == member@,
            m.expects_reply,
            m.body@ == body@,
    {
        Message {
            kind: MsgKind::MethodCall,
            serial: 0,
            reply_serial: None,
            sender: None,
            destination: Some(self.destination.clone()),
            path: Some(self.path.clone()),
            interface: Some(interface.to_owned()),
            member: Some(member.to_owned()),
            expects_reply: true,
            body,
        }
    }
}

/// The absolute deadline of a call started at `now_ms` with a timeout of
/// `timeout_ms`.
pub fn deadline_after(now_ms: u64, timeout_ms: u64) -> (d: u64)
    requires
        now_ms + timeout_ms <= u64::MAX,
    ensures
        d == now_ms + timeout_ms,
{
    now_ms + timeout_ms
}

/// Which future finished first in the race between a pending reply and the
/// deadline timer.
pub enum RaceWinner {
    /// The reply producer fired first, with the call's outcome.
    Reply(CallOutcome),
    /// The deadline elapsed first.
    Deadline,
}

/// Settle a method call: a call whose message could not be sent fails
/// immediately with a send error and never races a timer; otherwise the
/// call resolves with the reply's outcome when the reply won the race, and
/// with a timeout error when the deadline did.
pub fn settle_call(sent: bool, winner: Option<RaceWinner>) -> (r: CallOutcome)
    requires
        sent ==> winner is Some,
    ensures
        !sent ==> r == Err::<Message, CallError>(CallError::SendFailed),
        sent ==> (winner matches Some(RaceWinner::Deadline) ==> r == Err::<Message, CallError>(
            CallError::Timeout,
        )),
        sent ==> (winner matches Some(RaceWinner::Reply(x)) ==> r == x),
{
    if !sent {
        return Err(CallError::SendFailed);
    }
    match winner {
        Some(RaceWinner::Reply(x)) => x,
        Some(RaceWinner::Deadline) => Err(CallError::Timeout),
        None => {
            proof {
                assert(false);
            }
            Err(CallError::SendFailed)
        },
    }
}

/// What reading a single unsigned 32-bit result out of a reply yields: an
/// explicit error reply surfaces as a remote error, a first body argument
/// of the right shape is the result, and anything else is a decode error.
pub open spec fn spec_read_first_u32(m: Message) -> Result<u32, CallError> {
    if m.kind == MsgKind::Error {
        Err(CallError::Remote)
    } else if m.body@.len() >= 1 {
        match m.body@[0] {
            MsgArg::U32(c) => Ok(c),
            _ => Err(CallError::Decode),
        }
    } else {
        Err(CallError::Decode)
    }
}

/// Read the single unsigned 32-bit result of a reply.
pub fn read_first_u32(m: &Message) -> (r: Result<u32, CallError>)
    ensures
        r == spec_read_first_u32(*m),
{
    if m.kind == MsgKind::Error {
        return Err(CallError::Remote);
    }
    if m.body.len() >= 1 {
        match &m.body[0] {
            MsgArg::U32(c) => Ok(*c),
            _ => Err(CallError::Decode),
        }
    } else {
        Err(CallError::Decode)
    }
}

/// The flag word of a name request, combining the three options the bus
/// defines for it.
pub fn request_name_flags(
    allow_replacement: bool,
    replace_existing: bool,
    do_not_queue: bool,
) -> (flags: u32)
    ensures
        flags == (if allow_replacement {
            1u32
        } else {
            0u32
        }) + (if replace_existing {
            2u32
        } else {
            0u32
        }) + (if do_not_queue {
            4u32
        } else {
            0u32
        }),
{
    let a: u32 = if allow_replacement {
        1
    } else {
        0
    };
    let b: u32 = if replace_existing {
        2
    } else {
        0
    };
    let c: u32 = if do_not_queue {
        4
    } else {
        0
    };
    a + b + c
}

/// What a name-request call can answer.
#[derive(Clone, Copy, Debug, PartialEq, Eq, Structural)]
pub enum RequestNameReply {
    /// The caller is now the primary owner of the name.
    PrimaryOwner,
    /// The name has an owner and the caller is queued for it.
    InQueue,
    /// The name has an owner and the caller declined to queue.
    Exists,
    /// The caller already owned the name.
    AlreadyOwner,
}

impl RequestNameReply {
    /// The numeric code the bus uses for this answer.
    pub open spec fn spec_code(self) -> u32 {
        match self {
            RequestNameReply::PrimaryOwner => 1,
            RequestNameReply::InQueue => 2,
            RequestNameReply::Exists => 3,
            RequestNameReply::AlreadyOwner => 4,
        }
    }

    /// The answer a numeric code names, if it is in the expected set.
    pub open spec fn spec_from_code(c: u32) -> Option<RequestNameReply> {
        if c == 1 {
            Some(RequestNameReply::PrimaryOwner)
        } else if c == 2 {
            Some(RequestNameReply::InQueue)
        } else if c == 3 {
            Some(RequestNameReply::Exists)
        } else if c == 4 {
            Some(RequestNameReply::AlreadyOwner)
        } else {
            None
        }
    }

    /// The numeric code of this answer; decoding it yields the answer back.
    pub fn code(self) -> (c: u32)
        ensures
            c == self.spec_code(),
            Self::spec_from_code(c) == Some(self),
    {
        match self {
            RequestNameReply::PrimaryOwner => 1,
            RequestNameReply::InQueue => 2,
            RequestNameReply::Exists => 3,
            RequestNameReply::AlreadyOwner => 4,
        }
    }

    /// Map a numeric code back to the answer it names.
    pub fn from_code(c: u32) -> (r: Option<RequestNameReply>)
        ensures
            r == Self::spec_from_code(c),
    {
        if c == 1 {
            Some(RequestNameReply::PrimaryOwner)
        } else if c == 2 {
            Some(RequestNameReply::InQueue)
        } else if c == 3 {
            Some(RequestNameReply::Exists)
        } else if c == 4 {
            Some(RequestNameReply::AlreadyOwner)
        } else {
            None
        }
    }
}

/// What a name-release call can answer.
#[derive(Clone, Copy, Debug, PartialEq, Eq, Structural)]
pub enum ReleaseNameReply {
    /// The caller owned the name and gave it up.
    Released,
    /// No one owned the name.
    NonExistent,
    /// Someone else owns the name.
    NotOwner,
}

impl ReleaseNameReply {
    /// The numeric code the bus uses for this answer.
    pub open spec fn spec_code(self) -> u32 {
        match self {
            ReleaseNameReply::Released => 1,
            ReleaseNameReply::NonExistent => 2,
            ReleaseNameReply::NotOwner => 3,
        }
    }

    /// The answer a numeric code names, if it is in the expected set.
    pub open spec fn spec_from_code(c: u32) -> Option<ReleaseNameReply> {
        if c == 1 {
            Some(ReleaseNameReply::Released)
        } else if c == 2 {
            Some(ReleaseNameReply::NonExistent)
        } else if c == 3 {
            Some(ReleaseNameReply::NotOwner)
        } else {
            None
        }
    }

    /// The numeric code of this answer; decoding it yields the answer back.
    pub fn code(self) -> (c: u32)
        ensures
            c == self.spec_code(),
            Self::spec_from_code(c) == Some(self),
    {
        match self {
            ReleaseNameReply::Released => 1,
            ReleaseNameReply::NonExistent => 2,
            ReleaseNameReply::NotOwner => 3,
        }
    }

    /// Map a numeric code back to the answer it names.
    pub fn from_code(c: u32) -> (r: Option<ReleaseNameReply>)
        ensures
            r == Self::spec_from_code(c),
    {
        if c == 1 {
            Some(ReleaseNameReply::Released)
        } else if c == 2 {
            Some(ReleaseNameReply::NonExistent)
        } else if c == 3 {
            Some(ReleaseNameReply::NotOwner)
        } else {
            None
        }
    }
}

/// What decoding a name-request reply yields: the remote or decode error of
/// the reply itself, the named answer for a code in the expected set, and a
/// distinguished failure for a code outside it.
pub open spec fn spec_decode_request_name_reply(m: Message) -> Result<
    RequestNameReply,
    CallError,
> {
    match spec_read_first_u32(m) {
        Ok(c) => match RequestNameReply::spec_from_code(c) {
            Some(x) => Ok(x),
            None => Err(CallError::InvalidReply),
        },
        Err(e) => Err(e),
    }
}

/// Decode the reply to a name-request call.
pub fn decode_request_name_reply(m: &Message) -> (r: Result<RequestNameReply, CallError>)
    ensures
        r == spec_decode_request_name_reply(*m),
{
    match read_first_u32(m) {
        Ok(c) => match RequestNameReply::from_code(c) {
            Some(x) => Ok(x),
            None => Err(CallError::InvalidReply),
        },
        Err(e) => Err(e),
    }
}

/// What decoding a name-release reply yields, as for a name request.
pub open spec fn spec_decode_release_name_reply(m: Message) -> Result<
    ReleaseNameReply,
    CallError,
> {
    match spec_read_first_u32(m) {
        Ok(c) => match ReleaseNameReply::spec_from_code(c) {
            Some(x) => Ok(x),
            None => Err(CallError::InvalidReply),
        },
        Err(e) => Err(e),
    }
}

/// Decode the reply to a name-release call.
pub fn decode_release_name_reply(m: &Message) -> (r: Result<ReleaseNameReply, CallError>)
    ensures
        r == spec_decode_release_name_reply(*m),
{
    match read_first_u32(m) {
        Ok(c) => match ReleaseNameReply::from_code(c) {
            Some(x) => Ok(x),
            None => Err(CallError::InvalidReply),
        },
        Err(e) => Err(e),
    }
}

} // verus!
