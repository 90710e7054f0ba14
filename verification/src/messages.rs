//! The messages that canisters send to each other, as far as the queues
//! look into them.

use crate::page_map::CanisterId;
use std::sync::Arc;
use vstd::prelude::*;

verus! {

/// An amount of cycles.
pub type Cycles = u128;

/// A point in time, in nanoseconds since the epoch.
pub type Time = u64;

/// A call from one canister to another.
#[derive(Clone, Debug, PartialEq, Eq, Hash)]
pub struct Request {
    pub receiver: CanisterId,
    pub sender: CanisterId,
    pub sender_reply_callback: u64,
    /// The cycles that go with the call.
    pub payment: Cycles,
    pub method_name: String,
    pub method_payload: Vec<u8>,
}

/// The answer to a call.
#[derive(Clone, Debug, PartialEq, Eq, Hash)]
pub struct Response {
    pub originator: CanisterId,
    pub respondent: CanisterId,
    pub originator_reply_callback: u64,
    /// The cycles that come back with the answer.
    pub refund: Cycles,
    pub response_payload: Vec<u8>,
}

/// A message between canisters.
#[derive(Clone, Debug, PartialEq, Eq, Hash)]
pub enum RequestOrResponse {
    Request(Arc<Request>),
    Response(Arc<Response>),
}

impl RequestOrResponse {
    /// The cycles that the message carries.
    pub open spec fn spec_cycles(&self) -> Cycles {
        match self {
            RequestOrResponse::Request(request) => request.payment,
            RequestOrResponse::Response(response) => response.refund,
        }
    }

    /// The cycles that the message carries.
    pub fn cycles(&self) -> (c: Cycles)
        ensures
            c == self.spec_cycles(),
    {
        match self {
            RequestOrResponse::Request(request) => request.payment,
            RequestOrResponse::Response(response) => response.refund,
        }
    }

    /// Whether the message is a request.
    pub fn is_request(&self) -> (b: bool)
        ensures
            b == (self is Request),
    {
        match self {
            RequestOrResponse::Request(_) => true,
            RequestOrResponse::Response(_) => false,
        }
    }
}

/// The cycles of the first `n` of `messages` together.
pub open spec fn total_cycles(messages: Seq<RequestOrResponse>, n: int) -> int
    decreases n,
{
    if n <= 0 {
        0
    } else {
        total_cycles(messages, n - 1) + messages[n - 1].spec_cycles()
    }
}

/// An amount of cycles as it is counted: what is above `u128::MAX` is cut
/// off.
pub open spec fn saturated(amount: int) -> Cycles {
    if amount > u128::MAX {
        u128::MAX
    } else {
        amount as Cycles
    }
}

} // verus!
