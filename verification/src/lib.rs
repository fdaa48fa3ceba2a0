//! The server side of a login by signature: the server issues a random
//! challenge, the client signs it, and the server checks the signature and
//! binds the challenge to the key that signed it.

use vstd::prelude::*;

pub mod auth;
pub mod curve;
pub mod encoding;
pub mod protocol;
pub mod service;
pub mod store;

verus! {

/// What happened to the account behind a successful request.
#[derive(Debug, PartialEq, Eq, Structural, Clone, Copy)]
pub enum Event {
    Registered,
    LoggedIn,
    Linked,
    Authed,
}

/// The kind of a request.
#[derive(Debug, PartialEq, Eq, Structural, Clone, Copy)]
pub enum Tag {
    WithdrawRequest,
}

/// Withdrawal is a withdrawal resource.
#[derive(Debug, Clone)]
pub struct Withdrawal {
    /// A default withdrawal invoice description
    pub default_description: String,
    /// a second-level url which would accept a withdrawal
    /// lightning invoice as query parameter
    pub callback: String,
    /// an ephemeral secret which would allow user to withdraw funds
    pub k1: String,
    /// max withdrawable amount for a given user on a given service
    pub max_withdrawable: u64,
    /// An optional field, defaults to 1 MilliSatoshi if not present,
    /// can not be less than 1 or more than `max_withdrawable`
    pub min_withdrawable: Option<u64>,
    /// tag of the request
    pub tag: Tag,
}

/// Response is the response format returned by Service.
#[derive(Debug, PartialEq, Eq, Clone)]
pub enum Response {
    Error { reason: String },
    Okay { event: Option<Event> },
}

/// A response as a mathematical value.
pub enum ResponseView {
    Error { reason: Seq<char> },
    Okay { event: Option<Event> },
}

impl View for Response {
    type V = ResponseView;

    open spec fn view(&self) -> ResponseView {
        match self {
            Response::Error { reason } => ResponseView::Error { reason: reason@ },
            Response::Okay { event } => ResponseView::Okay { event: *event },
        }
    }
}

} // verus!
