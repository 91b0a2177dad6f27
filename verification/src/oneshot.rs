//! The oneshot cell: a single-producer, single-consumer bridge.
//!
//! A reply-table callback (the producer, running inside the dispatch engine)
//! stores a call's outcome in the cell; a task awaiting the call (the
//! consumer) polls the cell and either claims the outcome or parks a wake
//! handle. The cell is a plain tri-state value: the embedder shares it
//! between producer and consumer under whatever mutual exclusion it uses,
//! and performs every transition through the two functions here.

use vstd::prelude::*;

use crate::error::CallError;
use crate::msg::Message;

verus! {

/// The outcome a method call resolves to before typed decoding.
pub type CallOutcome = Result<Message, CallError>;

/// The three states of the cell.
pub enum OneshotState {
    /// No outcome stored, no consumer parked.
    Idle,
    /// A consumer is parked, holding the wake handle it registered.
    Armed(u64),
    /// An outcome is stored and not yet claimed.
    Ready(CallOutcome),
}

/// What a producer write leaves behind: the new state, and the wake handle
/// to schedule, if a consumer was parked.
pub open spec fn spec_produce(s: OneshotState, r: CallOutcome) -> (OneshotState, Option<u64>) {
    match s {
        OneshotState::Armed(w) => (OneshotState::Ready(r), Some(w)),
        _ => (OneshotState::Ready(r), None),
    }
}

/// What a consumer poll leaves behind: the new state, and the claimed
/// outcome when one was ready.
pub open spec fn spec_poll(s: OneshotState, waker: u64) -> (OneshotState, Option<CallOutcome>) {
    match s {
        OneshotState::Ready(r) => (OneshotState::Idle, Some(r)),
        _ => (OneshotState::Armed(waker), None),
    }
}

/// The tri-state cell. Share it between the producer callback and the
/// consumer task; every transition goes through `produce` and `poll`.
pub struct OneshotCell {
    state: OneshotState,
}

impl OneshotCell {
    /// The current state.
    pub closed spec fn spec_state(&self) -> OneshotState {
        self.state
    }

    /// A fresh cell: no outcome, no consumer.
    pub fn empty() -> (c: Self)
        ensures
            c.spec_state() == OneshotState::Idle,
    {
        OneshotCell { state: OneshotState::Idle }
    }

    /// Producer side: store the outcome, and report the wake handle of the
    /// parked consumer, if one was waiting. Safe to call in any state — a
    /// write into a cell whose consumer is gone simply parks the outcome
    /// where nobody will look.
    pub fn produce(&mut self, r: CallOutcome) -> (wake: Option<u64>)
        ensures
            (final(self).spec_state(), wake) == spec_produce(old(self).spec_state(), r),
            final(self).spec_state() == OneshotState::Ready(r),
    {
        let mut prev = OneshotState::Ready(r);
        core::mem::swap(&mut prev, &mut self.state);
        match prev {
            OneshotState::Armed(w) => Some(w),
            _ => None,
        }
    }

    /// Consumer side: claim a ready outcome — resetting the cell, so a
    /// completion is delivered at most once — or park `waker` and report
    /// that nothing is ready yet.
    pub fn poll(&mut self, waker: u64) -> (r: Option<CallOutcome>)
        ensures
            (final(self).spec_state(), r) == spec_poll(old(self).spec_state(), waker),
    {
        let mut prev = OneshotState::Idle;
        core::mem::swap(&mut prev, &mut self.state);
        match prev {
            OneshotState::Ready(r) => Some(r),
            _ => {
                self.state = OneshotState::Armed(waker);
                None
            },
        }
    }
}

/// A produced outcome is delivered exactly once, in either order of the
/// producer write and the consumer polls.
///
/// Starting from a cell that holds no unclaimed outcome: if the producer
/// writes first, the next poll claims exactly that outcome and a further
/// poll claims nothing; if a consumer polls first, it claims nothing and
/// parks its wake handle, the producer's write then reports exactly that
/// handle to wake, and again the next poll claims the outcome while a
/// further poll claims nothing.
pub proof fn lemma_oneshot_delivers_once(s0: OneshotState, r: CallOutcome, w1: u64, w2: u64, w3: u64)
    requires
        !(s0 is Ready),
    ensures
        ({
            let (s1, wake) = spec_produce(s0, r);
            let (s2, first) = spec_poll(s1, w1);
            let (s3, second) = spec_poll(s2, w2);
            &&& first == Some(r)
            &&& second is None
            &&& (s0 matches OneshotState::Armed(w) ==> wake == Some(w))
        }),
        ({
            let (s1, parked) = spec_poll(s0, w1);
            let (s2, wake) = spec_produce(s1, r);
            let (s3, first) = spec_poll(s2, w2);
            let (s4, second) = spec_poll(s3, w3);
            &&& parked is None
            &&& wake == Some(w1)
            &&& first == Some(r)
            &&& second is None
        }),
{
}

} // verus!
