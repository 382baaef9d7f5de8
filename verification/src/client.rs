//! The decisions of the desktop shell's connection to the Agent.
//!
//! The shell first tries to connect and uses the Agent if the handshake
//! passes. This module holds what is decided on the way: whose pipe it is,
//! which request ID to send, which incoming message answers the request, and
//! how a response is unwrapped. Moving the bytes is the caller's part.

use vstd::prelude::*;
use crate::error::ErrorPayload;
use crate::ids::RequestId;
use crate::message::{Message, Reply, Response};
use crate::name::ascii_upper;
use crate::text::{chars_of, decimal, push_decimal, str_eq};

verus! {

#[verifier::external_type_specification]
#[verifier::external_body]
pub struct ExIoError(std::io::Error);

/// A failure while connecting or exchanging.
#[derive(Debug)]
pub enum ClientError {
    /// The pipe cannot be opened: no Agent runs, or the pipe is another
    /// SID's.
    Connect(std::io::Error),
    /// Sending or receiving failed.
    Io(std::io::Error),
    /// The Agent sent a frame outside the contract.
    MalformedResponse,
    /// The Agent refused with a typed error.
    Refused(Box<ErrorPayload>),
    /// The name matched, but whoever listens is not this user. A pipe name
    /// is no secret; a match is never read as the peer's identity.
    OwnerMismatch,
    /// No answer came within the deadline.
    TimedOut,
}

/// The result a response carries. `ok = false` is never rounded to success,
/// and a success without a result is not a result.
pub open spec fn unwrap_outcome(response: Response, r: Result<Reply, ClientError>) -> bool {
    if response.ok {
        match response.result {
            Some(v) => r == Ok::<Reply, ClientError>(v),
            None => r matches Err(ClientError::MalformedResponse),
        }
    } else {
        match response.error {
            Some(e) => r matches Err(ClientError::Refused(b)) && *b == e,
            None => r matches Err(ClientError::MalformedResponse),
        }
    }
}

/// Unwraps a response into its result.
pub fn unwrap_response(response: Response) -> (r: Result<Reply, ClientError>)
    ensures
        unwrap_outcome(response, r),
{
    if response.ok {
        match response.result {
            Some(v) => Ok(v),
            None => Err(ClientError::MalformedResponse),
        }
    } else {
        match response.error {
            Some(e) => Err(ClientError::Refused(Box::new(e))),
            None => Err(ClientError::MalformedResponse),
        }
    }
}

/// The request ID of the `n`-th request of a connection: `ui-<nonce>-<n>`.
pub open spec fn spec_request_id(nonce: Seq<char>, n: nat) -> Seq<char> {
    "ui-"@ + nonce + "-"@ + decimal(n)
}

/// The idempotency key of the `n`-th request of a connection. The count is
/// not restarted per connection, and the nonce differs per connection, so a
/// key from before a reconnection is never reused for another operation.
pub fn request_id_for(nonce: &str, n: u64) -> (r: RequestId)
    ensures
        r.0@ == spec_request_id(nonce@, n as nat),
{
    let mut out = String::from_str("ui-");
    out.append(nonce);
    out.append("-");
    push_decimal(&mut out, n);
    RequestId(out)
}

/// What an incoming message means while a request waits for its answer.
pub open spec fn incoming_outcome(message: Message, expected: Seq<char>, r: Option<Result<Reply, ClientError>>) -> bool {
    match message {
        Message::Response(response) => if response.request_id.0@ == expected {
            r matches Some(result) && unwrap_outcome(response, result)
        } else {
            r matches Some(Err(ClientError::MalformedResponse))
        },
        // This version subscribes to no events; those arriving meanwhile are
        // skipped.
        Message::Event(_) => r is None,
        Message::Request(_) => r matches Some(Err(ClientError::MalformedResponse)),
    }
}

/// Decides what an incoming message means for the request `expected`:
/// `None` to keep waiting, or the request's result.
pub fn take_reply(message: Message, expected: &RequestId) -> (r: Option<Result<Reply, ClientError>>)
    ensures
        incoming_outcome(message, expected.0@, r),
{
    match message {
        Message::Response(response) => {
            if str_eq(response.request_id.0.as_str(), expected.0.as_str()) {
                Some(unwrap_response(response))
            } else {
                Some(Err(ClientError::MalformedResponse))
            }
        },
        Message::Event(_) => None,
        Message::Request(_) => Some(Err(ClientError::MalformedResponse)),
    }
}

/// Two SIDs are the same when they differ at most in the case of ASCII
/// letters.
pub open spec fn same_sid(a: Seq<char>, b: Seq<char>) -> bool {
    a.len() == b.len() && forall|i: int| 0 <= i < a.len() ==> ascii_upper(#[trigger] a[i]) == ascii_upper(b[i])
}

fn upper_code(c: char) -> (r: u32)
    ensures
        r == ascii_upper(c) as u32,
{
    if 'a' <= c && c <= 'z' {
        c as u32 - 32
    } else {
        c as u32
    }
}

/// Whether the owner of the pipe is the user who connects. The owner is
/// checked, not the name.
pub fn owner_matches(owner: &str, sid: &str) -> (r: bool)
    ensures
        r == same_sid(owner@, sid@),
{
    let a = chars_of(owner);
    let b = chars_of(sid);
    if a.len() != b.len() {
        return false;
    }
    let mut i: usize = 0;
    while i < a.len()
        invariant
            a@ == owner@,
            b@ == sid@,
            a@.len() == b@.len(),
            i <= a@.len(),
            forall|j: int| 0 <= j < i ==> ascii_upper(#[trigger] a@[j]) == ascii_upper(b@[j]),
        decreases a.len() - i,
    {
        if upper_code(a[i]) != upper_code(b[i]) {
            return false;
        }
        i = i + 1;
    }
    true
}

} // verus!
