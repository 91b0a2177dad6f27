//! Errors a method call can resolve to.

use vstd::prelude::*;

verus! {

/// Why a method call failed.
#[derive(Clone, Copy, Debug, PartialEq, Eq, Structural)]
pub enum CallError {
    /// The transport refused or failed to transmit the outgoing call; no
    /// reply entry was created.
    SendFailed,
    /// No reply was observed before the deadline; the reply-table entry is
    /// not retracted.
    Timeout,
    /// The remote end returned an explicit error reply.
    Remote,
    /// A reply arrived but its body does not match the expected shape.
    Decode,
    /// A standard-interface call returned a value outside the expected
    /// enumerated set.
    InvalidReply,
}

} // verus!
