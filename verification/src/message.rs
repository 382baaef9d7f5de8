//! The message envelope: requests, responses and events.
//!
//! Payloads are typed here. The JSON form of each payload is produced and read
//! at the edge of the program; the envelope logic works on these values.

use vstd::prelude::*;
use crate::dto::{
    ForceStopRequest, HandshakeRequest, HandshakeResult, NodeOperationRequest, NodeSnapshot,
    OperationAccepted, OperationPhase,
};
use crate::error::ErrorPayload;
use crate::handshake::PROTOCOL_MAJOR;
use crate::ids::{AgentGeneration, DecimalU64, RequestId, Timestamp};
use crate::method::Method;

verus! {

/// The readings of a request payload: for each body type a method may carry,
/// the payload read as that type, or `None` when it does not have that form.
#[derive(Debug, Clone, PartialEq, Eq)]
pub struct RequestPayload {
    pub handshake: Option<HandshakeRequest>,
    pub node_operation: Option<NodeOperationRequest>,
    pub force_stop: Option<ForceStopRequest>,
}

impl RequestPayload {
    /// A payload with none of the known forms, such as `{}`.
    pub fn empty() -> (r: RequestPayload)
        ensures
            r.handshake is None,
            r.node_operation is None,
            r.force_stop is None,
    {
        RequestPayload { handshake: None, node_operation: None, force_stop: None }
    }
}

/// A request from the UI to the Agent.
#[derive(Debug, Clone, PartialEq, Eq)]
pub struct Request {
    pub protocol_major: u32,
    /// Idempotency key; a resend converges on the same operation.
    pub request_id: RequestId,
    /// A method of the fixed registry.
    pub method: Method,
    pub payload: RequestPayload,
}

impl Request {
    pub fn new(request_id: RequestId, method: Method, payload: RequestPayload) -> (r: Request)
        ensures
            r == (Request { protocol_major: PROTOCOL_MAJOR, request_id, method, payload }),
    {
        Request { protocol_major: PROTOCOL_MAJOR, request_id, method, payload }
    }
}

/// The result carried by a successful response. An acceptance is not a
/// completion.
#[derive(Debug, Clone, PartialEq, Eq)]
pub enum Reply {
    /// An empty object.
    Empty,
    Handshake(HandshakeResult),
    Snapshot(NodeSnapshot),
    Accepted(OperationAccepted),
    Phase(OperationPhase),
}

/// The answer to a request.
#[derive(Debug, Clone, PartialEq, Eq)]
pub struct Response {
    pub protocol_major: u32,
    pub request_id: RequestId,
    pub ok: bool,
    pub result: Option<Reply>,
    pub error: Option<ErrorPayload>,
}

impl Response {
    pub fn ok(request_id: RequestId, result: Reply) -> (r: Response)
        ensures
            r == (Response {
                protocol_major: PROTOCOL_MAJOR,
                request_id,
                ok: true,
                result: Some(result),
                error: None,
            }),
    {
        Response { protocol_major: PROTOCOL_MAJOR, request_id, ok: true, result: Some(result), error: None }
    }

    pub fn err(request_id: RequestId, error: ErrorPayload) -> (r: Response)
        ensures
            r == (Response {
                protocol_major: PROTOCOL_MAJOR,
                request_id,
                ok: false,
                result: None,
                error: Some(error),
            }),
    {
        Response { protocol_major: PROTOCOL_MAJOR, request_id, ok: false, result: None, error: Some(error) }
    }
}

/// Every event the Agent can publish.
#[derive(Debug, Clone, Copy, PartialEq, Eq, Hash, Structural)]
pub enum EventKind {
    RunnerObservationChanged,
    NodeObservationChanged,
    OperationChanged,
    LogAppended,
    /// Events were lost; the subscriber must take a new snapshot.
    ResyncRequired,
}

/// The body of an event.
#[derive(Debug, Clone, PartialEq, Eq)]
pub enum EventPayload {
    /// An empty object.
    Empty,
    /// The acceptance an operation event reports.
    Operation(OperationAccepted),
    /// The instant an observation was made.
    ObservedAt(Timestamp),
    /// One appended log line.
    LogLine(String),
    /// A resync notice with the number of thinned log events.
    Resync { dropped_logs: u64 },
}

/// An event pushed by the Agent.
#[derive(Debug, Clone, PartialEq, Eq)]
pub struct Event {
    pub protocol_major: u32,
    /// Strictly increasing sequence number, carried as a decimal string.
    pub sequence: DecimalU64,
    /// Generation of the Agent that issued it; events of another generation
    /// are dropped.
    pub agent_generation: AgentGeneration,
    pub event: EventKind,
    pub payload: EventPayload,
}

impl Event {
    pub fn new(
        sequence: DecimalU64,
        agent_generation: AgentGeneration,
        event: EventKind,
        payload: EventPayload,
    ) -> (r: Event)
        ensures
            r == (Event { protocol_major: PROTOCOL_MAJOR, sequence, agent_generation, event, payload }),
    {
        Event { protocol_major: PROTOCOL_MAJOR, sequence, agent_generation, event, payload }
    }
}

/// One message on the wire.
#[derive(Debug, Clone, PartialEq, Eq)]
pub enum Message {
    Request(Request),
    Response(Response),
    Event(Event),
}

pub open spec fn spec_protocol_major(m: Message) -> u32 {
    match m {
        Message::Request(r) => r.protocol_major,
        Message::Response(r) => r.protocol_major,
        Message::Event(e) => e.protocol_major,
    }
}

impl Message {
    /// The protocol major the message declares.
    pub fn protocol_major(&self) -> (r: u32)
        ensures
            r == spec_protocol_major(*self),
    {
        match self {
            Message::Request(m) => m.protocol_major,
            Message::Response(m) => m.protocol_major,
            Message::Event(m) => m.protocol_major,
        }
    }
}

} // verus!
