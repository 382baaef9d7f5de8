//! From methods to their handling.
//!
//! The registry is the fixed [`Method`] enumeration; a name outside it fails
//! at decoding. What is decided here is only whether this version serves an
//! enumerated method. No generic `exec`, `readFile`, `writeFile` or `sql`
//! entry exists.

use vstd::prelude::*;
use crate::dto::{HandshakeResult, OperationAccepted, OperationKind};
use crate::error::{DetailValue, ErrorCode, ErrorPayload, detail_lookup, is_text_error, lemma_lookup_none_iff, spec_is_retryable, spec_message_key, text_error};
use crate::handshake::{HandshakeRejection, PROTOCOL_MAJOR, spec_review};
use crate::ids::{AgentGeneration, RequestId};
use crate::message::{Event, Reply, Request, RequestPayload};
use crate::method::{Method, wire_name};
use crate::mock::{MockBackend, MockModel, all_ages_fit, answer_view, has_headroom, mock_submit_post, snapshot_matches};
use crate::operation::{first_request, has_request};
use crate::text::str_eq;

verus! {

/// The implementation version this Agent reports in the handshake.
pub const IMPLEMENTATION_VERSION: &'static str = "0.1.0";

/// The side that handles the requests of one connection.
///
/// The order of the handshake and the checks on frames belong to
/// [`crate::session`]; an implementation only decides how an accepted
/// request is handled.
pub trait AgentService {
    /// The methods this version serves, announced as `capabilities`.
    fn served_methods(&self) -> Vec<Method>;

    /// How this implementation handles `request`: `self` before the call,
    /// `after` after it, and the answer it gives.
    spec fn handles(self, after: Self, request: Request, answer: Result<Reply, ErrorPayload>) -> bool;

    /// How this implementation hands out its events: `self` before,
    /// `after` after, and the events taken.
    spec fn drains(self, after: Self, events: Seq<Event>) -> bool;

    /// Handles a request. A request that cannot be handled gets an
    /// [`ErrorPayload`] a program can act on; a failure is never rounded to
    /// success.
    fn call(&mut self, request: &Request) -> (r: Result<Reply, ErrorPayload>)
        ensures
            (*old(self)).handles(*final(self), *request, r),
    ;

    /// The Agent generation put into the handshake.
    fn agent_generation(&self) -> AgentGeneration;

    /// Takes the events the last requests produced.
    fn drain_events(&mut self) -> (r: Vec<Event>)
        ensures
            (*old(self)).drains(*final(self), r@),
    ;
}

/// Whether this version serves a method.
pub open spec fn spec_served(m: Method) -> bool {
    match m {
        Method::SystemHandshake | Method::NodeSnapshot | Method::NodeStart | Method::NodeStop
        | Method::NodeForceStop | Method::OperationGet => true,
        _ => false,
    }
}

pub open spec fn spec_served_methods() -> Seq<Method> {
    seq![
        Method::SystemHandshake,
        Method::NodeSnapshot,
        Method::NodeStart,
        Method::NodeStop,
        Method::NodeForceStop,
        Method::OperationGet,
    ]
}

/// The methods this version serves, in registry order.
pub fn served() -> (r: Vec<Method>)
    ensures
        r@ == spec_served_methods(),
{
    let r = vec![
        Method::SystemHandshake,
        Method::NodeSnapshot,
        Method::NodeStart,
        Method::NodeStop,
        Method::NodeForceStop,
        Method::OperationGet,
    ];
    proof {
        assert(r@ =~= spec_served_methods());
    }
    r
}

/// A served method is exactly one in the served list.
pub proof fn lemma_served_list_matches(m: Method)
    ensures
        spec_served(m) <==> spec_served_methods().contains(m),
{
    if spec_served(m) {
        let s = spec_served_methods();
        let i: int = match m {
            Method::SystemHandshake => 0,
            Method::NodeSnapshot => 1,
            Method::NodeStart => 2,
            Method::NodeStop => 3,
            Method::NodeForceStop => 4,
            _ => 5,
        };
        assert(s[i] == m);
    }
}

/// `e` refuses a handshake for `rejection`, which it carries as the detail
/// `rejection` so that the UI can tell which side to update.
pub open spec fn is_rejection_error(e: ErrorPayload, rejection: HandshakeRejection) -> bool {
    &&& e.code == ErrorCode::ProtocolMismatch
    &&& e.message_key@ == spec_message_key(ErrorCode::ProtocolMismatch)
    &&& e.retryable == spec_is_retryable(ErrorCode::ProtocolMismatch)
    &&& !e.requires_confirmation
    &&& e.operation_id is None
    &&& e.details@.len() == 1
    &&& detail_lookup(e.details@, "rejection"@) == Some(DetailValue::Rejection(rejection))
}

/// The answer to an accepted handshake.
pub open spec fn is_handshake_answer(h: HandshakeResult, m: MockModel) -> bool {
    &&& h.protocol_major == PROTOCOL_MAJOR
    &&& h.implementation_version@ == IMPLEMENTATION_VERSION@
    &&& h.agent_generation.0@ == m.generation
    &&& h.capabilities@.map_values(|c: String| c@) == spec_served_methods().map_values(
        |x: Method| wire_name(x),
    )
}

/// What the handshake answers: a missing body is a protocol mismatch on
/// `payload`, another major is refused with its reason, and the same major
/// gets this Agent's description.
pub open spec fn handshake_outcome(m: MockModel, payload: RequestPayload, r: Result<HandshakeResult, ErrorPayload>) -> bool {
    match payload.handshake {
        None => r matches Err(e) && is_text_error(e, ErrorCode::ProtocolMismatch, "field"@, "payload"@),
        Some(peer) => match spec_review(peer.protocol_major) {
            Err(rejection) => r matches Err(e) && is_rejection_error(e, rejection),
            Ok(_) => r matches Ok(h) && is_handshake_answer(h, m),
        },
    }
}

/// The operation kind a node method asks for.
pub open spec fn node_kind(method: Method) -> OperationKind {
    match method {
        Method::NodeStart => OperationKind::NodeStart,
        Method::NodeStop => OperationKind::NodeStop,
        _ => OperationKind::NodeForceStop,
    }
}

/// The acceptance as a reply.
pub open spec fn as_reply(r: Result<OperationAccepted, ErrorPayload>) -> Result<Reply, ErrorPayload> {
    match r {
        Ok(a) => Ok(Reply::Accepted(a)),
        Err(e) => Err(e),
    }
}

/// Whether a node method's body is there: `node.forceStop` reads its own
/// body, the other node methods the plain one.
pub open spec fn has_node_body(method: Method, payload: RequestPayload) -> bool {
    if method == Method::NodeForceStop {
        payload.force_stop is Some
    } else {
        payload.node_operation is Some
    }
}

/// The node a node method's body names.
pub open spec fn body_node(method: Method, payload: RequestPayload) -> Seq<char> {
    if method == Method::NodeForceStop {
        payload.force_stop->0.node_id.0@
    } else {
        payload.node_operation->0.node_id.0@
    }
}

/// The revision a node method's body expects.
pub open spec fn body_revision(method: Method, payload: RequestPayload) -> u64 {
    if method == Method::NodeForceStop {
        payload.force_stop->0.expected_revision.0
    } else {
        payload.node_operation->0.expected_revision.0
    }
}

/// The confirmation a node method's body carries; only a forced stop has
/// one.
pub open spec fn body_answer(method: Method, payload: RequestPayload) -> Option<Seq<char>> {
    if method == Method::NodeForceStop {
        answer_view(payload.force_stop->0.confirmation)
    } else {
        None
    }
}

/// What a node method does: its body must be there (else a protocol
/// mismatch on `payload`), it must name this Agent's node (else
/// `PATH_NOT_OWNED` on `nodeId`: another node is never read as this one),
/// and the mock decides the rest.
pub open spec fn node_operation_outcome(
    old: MockModel,
    new: MockModel,
    method: Method,
    request_id: RequestId,
    payload: RequestPayload,
    r: Result<Reply, ErrorPayload>,
) -> bool {
    if !has_node_body(method, payload) {
        new == old && (r matches Err(e) && is_text_error(
            e,
            ErrorCode::ProtocolMismatch,
            "field"@,
            "payload"@,
        ))
    } else if body_node(method, payload) != old.node_id.0@ {
        new == old && (r matches Err(e) && is_text_error(e, ErrorCode::PathNotOwned, "field"@, "nodeId"@))
    } else if !has_headroom(old) {
        new == old && (r matches Err(e) && e.is_fresh_for(ErrorCode::RevisionConflict))
    } else {
        exists|accepted: Result<OperationAccepted, ErrorPayload>, sent: Option<String>|
            #![trigger mock_submit_post(old, new, node_kind(method), request_id, body_revision(method, payload), sent, accepted)]
            r == as_reply(accepted) && answer_view(sent) == body_answer(method, payload)
                && mock_submit_post(
                old,
                new,
                node_kind(method),
                request_id,
                body_revision(method, payload),
                sent,
                accepted,
            )
    }
}

/// What a call answers, method by method.
pub open spec fn call_outcome(old: MockModel, new: MockModel, request: Request, r: Result<Reply, ErrorPayload>) -> bool {
    match request.method {
        Method::SystemHandshake => new == old && match request.payload.handshake {
            None => r matches Err(e) && is_text_error(e, ErrorCode::ProtocolMismatch, "field"@, "payload"@),
            Some(peer) => match spec_review(peer.protocol_major) {
                Err(rejection) => r matches Err(e) && is_rejection_error(e, rejection),
                Ok(_) => r matches Ok(Reply::Handshake(h)) && is_handshake_answer(h, old),
            },
        },
        // A snapshot whose ages cannot be computed is not served as fresh.
        Method::NodeSnapshot => new == old && if all_ages_fit(old.runners, old.now) {
            r matches Ok(Reply::Snapshot(s)) && snapshot_matches(s, old)
        } else {
            r matches Err(e) && e.is_fresh_for(ErrorCode::StatusStale)
        },
        Method::NodeStart | Method::NodeStop | Method::NodeForceStop => node_operation_outcome(
            old,
            new,
            request.method,
            request.request_id,
            request.payload,
            r,
        ),
        // An unknown request ID is not rounded to "done" or "none".
        Method::OperationGet => new == old && if has_request(
            old.operations.records,
            request.request_id.0@,
        ) {
            exists|i: int|
                #![trigger old.operations.records[i]]
                first_request(old.operations.records, request.request_id.0@, i) && r == Ok::<
                    Reply,
                    ErrorPayload,
                >(Reply::Phase(old.operations.records[i].phase))
        } else {
            r matches Err(e) && is_text_error(e, ErrorCode::RequestIdConflict, "field"@, "requestId"@)
        },
        // In the registry, but not served by this version.
        _ => new == old && (r matches Err(e) && is_text_error(
            e,
            ErrorCode::MethodNotServed,
            "method"@,
            wire_name(request.method),
        )),
    }
}

/// The mock domain made reachable over IPC.
///
/// It connects to no real backend and no GitHub. It serves the handshake,
/// `node.snapshot`, the node operations and `operation.get`, and refuses the
/// rest with [`ErrorCode::MethodNotServed`].
#[derive(Debug)]
pub struct MockAgentService {
    backend: MockBackend,
}

impl View for MockAgentService {
    type V = MockModel;

    closed spec fn view(&self) -> MockModel {
        self.backend@
    }
}

impl MockAgentService {
    /// Wraps a mock domain.
    pub fn new(backend: MockBackend) -> (r: Self)
        ensures
            r@ == backend@,
    {
        MockAgentService { backend }
    }

    /// The mock behind the service.
    pub fn backend(&self) -> (r: &MockBackend)
        ensures
            r@ == self@,
    {
        &self.backend
    }

    /// Builds the answer to a handshake.
    ///
    /// # Errors
    ///
    /// [`ErrorCode::ProtocolMismatch`] when the body is missing or the major
    /// differs; the reason goes along so that the UI can tell which side to
    /// update.
    pub fn handshake(&self, payload: &RequestPayload) -> (r: Result<HandshakeResult, ErrorPayload>)
        ensures
            handshake_outcome(self@, *payload, r),
    {
        let peer = match &payload.handshake {
            Some(peer) => peer,
            None => {
                return Err(text_error(ErrorCode::ProtocolMismatch, "field", "payload"));
            },
        };
        match HandshakeRejection::evaluate(peer.protocol_major) {
            Err(rejection) => {
                let e = ErrorPayload::new(ErrorCode::ProtocolMismatch);
                proof {
                    lemma_lookup_none_iff(e.details@, "rejection"@);
                }
                return Err(e.with_detail("rejection", DetailValue::Rejection(rejection)));
            },
            Ok(()) => {},
        }
        let methods = served();
        let mut capabilities: Vec<String> = Vec::new();
        let mut i: usize = 0;
        while i < methods.len()
            invariant
                methods@ == spec_served_methods(),
                i <= methods@.len(),
                capabilities@.len() == i,
                forall|j: int| 0 <= j < i ==> (#[trigger] capabilities@[j])@ == wire_name(methods@[j]),
            decreases methods.len() - i,
        {
            capabilities.push(methods[i].as_str().to_owned());
            i = i + 1;
        }
        proof {
            assert(capabilities@.map_values(|c: String| c@) =~= spec_served_methods().map_values(
                |x: Method| wire_name(x),
            ));
        }
        Ok(
            HandshakeResult {
                protocol_major: PROTOCOL_MAJOR,
                implementation_version: IMPLEMENTATION_VERSION.to_owned(),
                agent_generation: self.backend.agent_generation().duplicate(),
                capabilities,
            },
        )
    }

    fn node_operation(&mut self, method: Method, request_id: &RequestId, payload: &RequestPayload) -> (r:
        Result<Reply, ErrorPayload>)
        requires
            method == Method::NodeStart || method == Method::NodeStop || method
                == Method::NodeForceStop,
        ensures
            node_operation_outcome(old(self)@, final(self)@, method, *request_id, *payload, r),
    {
        let (node_id, expected_revision, confirmation) = if method == Method::NodeForceStop {
            match &payload.force_stop {
                Some(f) => (
                    &f.node_id,
                    f.expected_revision.0,
                    match &f.confirmation {
                        Some(c) => Some(c.as_str()),
                        None => None,
                    },
                ),
                None => {
                    return Err(text_error(ErrorCode::ProtocolMismatch, "field", "payload"));
                },
            }
        } else {
            match &payload.node_operation {
                Some(n) => (&n.node_id, n.expected_revision.0, None),
                None => {
                    return Err(text_error(ErrorCode::ProtocolMismatch, "field", "payload"));
                },
            }
        };
        if !str_eq(node_id.0.as_str(), self.backend.node_id().0.as_str()) {
            // A request for a node this Agent does not know is never read as
            // one for its own node.
            return Err(text_error(ErrorCode::PathNotOwned, "field", "nodeId"));
        }
        if !self.backend.has_headroom() {
            return Err(ErrorPayload::new(ErrorCode::RevisionConflict));
        }
        let ghost before = self@;
        let ghost kind = node_kind(method);
        let accepted = match method {
            Method::NodeStart => self.backend.request_start(request_id, expected_revision),
            Method::NodeStop => self.backend.request_stop(request_id, expected_revision),
            _ => self.backend.request_force_stop(request_id, expected_revision, confirmation),
        };
        let ghost mut sent: Option<String> = None;
        proof {
            if method == Method::NodeForceStop {
                sent = choose|sent: Option<String>|
                    answer_view(sent) == crate::mock::answer_str_view(confirmation) && mock_submit_post(
                        before,
                        self@,
                        OperationKind::NodeForceStop,
                        *request_id,
                        expected_revision,
                        sent,
                        accepted,
                    );
            }
        }
        let ghost acc = accepted;
        let r = match accepted {
            Ok(a) => Ok(Reply::Accepted(a)),
            Err(e) => Err(e),
        };
        proof {
            assert(r == as_reply(acc));
            assert(expected_revision == body_revision(method, *payload));
            assert(mock_submit_post(before, self@, kind, *request_id, body_revision(method, *payload), sent, acc));
            assert(answer_view(sent) == body_answer(method, *payload));
        }
        r
    }
}

impl AgentService for MockAgentService {
    open spec fn handles(self, after: Self, request: Request, answer: Result<Reply, ErrorPayload>) -> bool {
        call_outcome(self@, after@, request, answer)
    }

    open spec fn drains(self, after: Self, events: Seq<Event>) -> bool {
        &&& events == self@.pending
        &&& after@ == (MockModel { pending: Seq::empty(), ..self@ })
    }

    fn served_methods(&self) -> (r: Vec<Method>)
        ensures
            r@ == spec_served_methods(),
    {
        served()
    }

    fn call(&mut self, request: &Request) -> (r: Result<Reply, ErrorPayload>)
        ensures
            call_outcome(old(self)@, final(self)@, *request, r),
    {
        match request.method {
            Method::SystemHandshake => match self.handshake(&request.payload) {
                Ok(h) => Ok(Reply::Handshake(h)),
                Err(e) => Err(e),
            },
            Method::NodeSnapshot => {
                if !self.backend.observations_fit() {
                    return Err(ErrorPayload::new(ErrorCode::StatusStale));
                }
                Ok(Reply::Snapshot(self.backend.snapshot()))
            },
            Method::NodeStart | Method::NodeStop | Method::NodeForceStop => self.node_operation(
                request.method,
                &request.request_id,
                &request.payload,
            ),
            Method::OperationGet => match self.backend.operation_phase(&request.request_id) {
                Some(phase) => Ok(Reply::Phase(phase)),
                None => Err(text_error(ErrorCode::RequestIdConflict, "field", "requestId")),
            },
            _ => Err(text_error(ErrorCode::MethodNotServed, "method", request.method.as_str())),
        }
    }

    fn agent_generation(&self) -> (r: AgentGeneration)
        ensures
            r.0@ == self@.generation,
    {
        self.backend.agent_generation().duplicate()
    }

    fn drain_events(&mut self) -> (r: Vec<Event>)
        ensures
            r@ == old(self)@.pending,
            final(self)@ == (MockModel { pending: Seq::empty(), ..old(self)@ }),
    {
        self.backend.drain_events()
    }
}

/// A node operation that reaches the mock fails only for the reasons
/// the store gives.
proof fn lemma_mock_errors(
    old: MockModel,
    new: MockModel,
    kind: OperationKind,
    request_id: RequestId,
    expected: u64,
    sent: Option<String>,
    accepted: Result<OperationAccepted, ErrorPayload>,
)
    requires
        mock_submit_post(old, new, kind, request_id, expected, sent, accepted),
    ensures
        accepted matches Err(e) ==> e.code != ErrorCode::MethodNotServed,
{
    crate::operation::lemma_submit_errors(
        old.operations,
        crate::mock::mock_request(old, kind, request_id, expected, sent),
        old.revision,
        crate::mock::spec_stop_readiness(old.runners, old.now),
        old.now,
        accepted,
        new.operations,
    );
}

/// Every method of the registry is either served or refused with
/// `METHOD_NOT_SERVED`; a served method is never refused that way.
pub proof fn lemma_every_method_is_served_or_refused(
    old: MockModel,
    new: MockModel,
    request: Request,
    r: Result<Reply, ErrorPayload>,
)
    requires
        call_outcome(old, new, request, r),
    ensures
        !spec_served(request.method) ==> (r matches Err(e) && e.code == ErrorCode::MethodNotServed),
        spec_served(request.method) ==> !(r matches Err(e) && e.code == ErrorCode::MethodNotServed),
{
    assert forall|
        kind: OperationKind,
        expected: u64,
        sent: Option<String>,
        accepted: Result<OperationAccepted, ErrorPayload>,
    | #[trigger] mock_submit_post(old, new, kind, request.request_id, expected, sent, accepted) implies (
    accepted matches Err(e) ==> e.code != ErrorCode::MethodNotServed) by {
        lemma_mock_errors(old, new, kind, request.request_id, expected, sent, accepted);
    }
}

/// The store holds an operation with ID `oid`, accepted under request ID
/// `rid`, of kind `kind`.
pub open spec fn records_operation(
    records: Seq<crate::operation::OperationRecord>,
    oid: Seq<char>,
    rid: Seq<char>,
    kind: OperationKind,
) -> bool {
    exists|i: int|
        0 <= i < records.len() && (#[trigger] records[i]).operation_id.0@ == oid
            && records[i].request_id.0@ == rid && records[i].kind == kind
}

/// An accepted node request, new or resent, stands for an operation of the
/// kind its method asks for: `node.start` a start, `node.stop` a stop and
/// `node.forceStop` a forced stop, recorded under the request's ID.
pub proof fn lemma_accepted_node_operation_has_requested_kind(
    old: MockModel,
    new: MockModel,
    request: Request,
    accepted: OperationAccepted,
)
    requires
        call_outcome(old, new, request, Ok::<Reply, ErrorPayload>(Reply::Accepted(accepted))),
        request.method == Method::NodeStart || request.method == Method::NodeStop || request.method
            == Method::NodeForceStop,
    ensures
        request.method == Method::NodeStart ==> records_operation(
            new.operations.records,
            accepted.operation_id.0@,
            request.request_id.0@,
            OperationKind::NodeStart,
        ),
        request.method == Method::NodeStop ==> records_operation(
            new.operations.records,
            accepted.operation_id.0@,
            request.request_id.0@,
            OperationKind::NodeStop,
        ),
        request.method == Method::NodeForceStop ==> records_operation(
            new.operations.records,
            accepted.operation_id.0@,
            request.request_id.0@,
            OperationKind::NodeForceStop,
        ),
{
    let method = request.method;
    let payload = request.payload;
    let rid = request.request_id;
    let (acc, sent) = choose|acc: Result<OperationAccepted, ErrorPayload>, sent: Option<String>|
        #![trigger mock_submit_post(old, new, node_kind(method), rid, body_revision(method, payload), sent, acc)]
        Ok::<Reply, ErrorPayload>(Reply::Accepted(accepted)) == as_reply(acc) && answer_view(sent)
            == body_answer(method, payload) && mock_submit_post(
            old,
            new,
            node_kind(method),
            rid,
            body_revision(method, payload),
            sent,
            acc,
        );
    assert(acc == Ok::<OperationAccepted, ErrorPayload>(accepted));
    let req = crate::mock::mock_request(old, node_kind(method), rid, body_revision(method, payload), sent);
    let kind = node_kind(method);
    let records = old.operations.records;
    if has_request(records, rid.0@) {
        let i = choose|i: int|
            #![trigger records[i]]
            first_request(records, rid.0@, i) && if records[i].kind == req.kind && records[i].target_id@
                == req.target_id@ {
                acc == Ok::<OperationAccepted, ErrorPayload>(
                    OperationAccepted {
                        operation_id: records[i].operation_id,
                        accepted: true,
                        deduplicated: true,
                    },
                )
            } else {
                acc matches Err(e) && e.is_fresh_for(ErrorCode::RequestIdConflict)
            };
        assert(new.operations.records[i] == records[i]);
        assert(records_operation(new.operations.records, accepted.operation_id.0@, rid.0@, kind));
    } else {
        let n = records.len() as int;
        assert(new.operations.records[n] == new.operations.records.last());
        assert(records_operation(new.operations.records, accepted.operation_id.0@, rid.0@, kind));
    }
}

} // verus!
