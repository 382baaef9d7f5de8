//! The decisions of one connection.
//!
//! An unknown kind of message, a protocol mismatch, an oversized frame and
//! invalid UTF-8 close the connection; nothing is skipped and carried on
//! from. A frame cut short is not taken as a whole message. Before the
//! handshake, no request other than the handshake is handled.
//!
//! Reading and writing the stream is the caller's loop: it hands every
//! decoded message to [`Session::on_message`], writes what comes back, and
//! after each response writes the events of [`Session::events_after`].

use vstd::prelude::*;
use crate::error::{ErrorCode, ErrorPayload, is_text_error, text_error};
use crate::events::{QueueModel, SubscriberQueue};
use crate::frame::{FrameError, LENGTH_PREFIX_BYTES, MAX_FRAME_BYTES};
use crate::handshake::PROTOCOL_MAJOR;
use crate::ids::DecimalU64;
use crate::message::{Event, EventKind, EventPayload, Message, Reply, Response};
use crate::method::Method;
use crate::service::AgentService;

verus! {

/// The queue limit per subscriber: a slow GUI never stops the whole Agent.
pub const EVENT_QUEUE_CAPACITY: usize = 256;

/// The most bytes buffered while a frame is incomplete. A frame declaring
/// more is refused before it is read, so the buffer never grows past this.
pub const MAX_BUFFERED_BYTES: usize = LENGTH_PREFIX_BYTES + MAX_FRAME_BYTES;

/// Why a connection ended; for logs and diagnostics only.
#[derive(Debug, Clone, PartialEq, Eq)]
pub enum SessionEnd {
    /// The peer closed normally.
    PeerClosed,
    /// A frame broke the contract.
    RejectedFrame(FrameError),
    /// Another request came before the handshake.
    HandshakeRequired,
    /// Something other than a request reached the Agent.
    UnexpectedMessageKind,
    /// Reading or writing failed.
    Io(String),
}

/// What to do with one decoded message.
#[derive(Debug)]
pub enum Step {
    /// Write the response, then the events of [`Session::events_after`].
    Respond(Response),
    /// Write the response, then close.
    RespondAndClose(Response, SessionEnd),
    /// Close at once.
    Close(SessionEnd),
}

/// The state of one connection.
#[derive(Debug)]
pub struct Session {
    handshake_done: bool,
    queue: SubscriberQueue,
}

pub struct SessionModel {
    pub handshake_done: bool,
    pub queue: QueueModel,
}

impl View for Session {
    type V = SessionModel;

    closed spec fn view(&self) -> SessionModel {
        SessionModel { handshake_done: self.handshake_done, queue: self.queue@ }
    }
}

/// One push onto a queue; a full queue drops the event and counts it as a
/// log drop or a state drop. Once the counters can grow no further, events
/// are no longer taken.
pub open spec fn push_model(q: QueueModel, e: Event) -> QueueModel {
    if q.dropped_state + q.dropped_logs >= u64::MAX {
        q
    } else if q.items.len() < q.capacity {
        QueueModel { items: q.items.push(e), ..q }
    } else if e.event == EventKind::LogAppended {
        QueueModel { dropped_logs: q.dropped_logs + 1, ..q }
    } else {
        QueueModel { dropped_state: q.dropped_state + 1, ..q }
    }
}

/// The queue after pushing `events` in order.
pub open spec fn push_all(q: QueueModel, events: Seq<Event>) -> QueueModel
    decreases events.len(),
{
    if events.len() == 0 {
        q
    } else {
        push_model(push_all(q, events.drop_last()), events.last())
    }
}

/// `m` tells the subscriber that state events were lost and it must take a
/// new snapshot. Its sequence number is 0, so that the notice itself is
/// never taken for a gap.
pub open spec fn is_resync_notice(m: Message, dropped_logs: nat) -> bool {
    m matches Message::Event(e) && e.protocol_major == PROTOCOL_MAJOR && e.sequence.0 == 0
        && e.event == EventKind::ResyncRequired && e.payload == (EventPayload::Resync {
        dropped_logs: dropped_logs as u64,
    })
}

/// The messages a flush writes: the resync notice first when a state event
/// was lost, then every queued event in order.
pub open spec fn flushed(q: QueueModel, out: Seq<Message>) -> bool {
    let offset: int = if q.dropped_state > 0 { 1 } else { 0 };
    &&& out.len() == offset + q.items.len()
    &&& q.dropped_state > 0 ==> is_resync_notice(out[0], q.dropped_logs)
    &&& forall|i: int| 0 <= i < q.items.len() ==> #[trigger] out[offset + i] == Message::Event(q.items[i])
}

impl Session {
    /// A new connection: no handshake yet, nothing queued.
    pub fn new() -> (r: Session)
        ensures
            !r@.handshake_done,
            r@.queue.capacity == EVENT_QUEUE_CAPACITY,
            r@.queue.items.len() == 0,
            r@.queue.dropped_state == 0,
            r@.queue.dropped_logs == 0,
    {
        Session { handshake_done: false, queue: SubscriberQueue::with_capacity(EVENT_QUEUE_CAPACITY) }
    }

    /// Whether a handshake has succeeded on this connection.
    pub fn handshake_done(&self) -> (r: bool)
        ensures
            r == self@.handshake_done,
    {
        self.handshake_done
    }

    /// Handles one decoded message.
    ///
    /// The Agent receives requests only; anything else closes the
    /// connection. Before the handshake, another request is answered with
    /// `PROTOCOL_MISMATCH` (reason `handshakeRequired`) and the connection
    /// closes: nothing is operated before compatibility is known. Otherwise
    /// the service answers, and a successful handshake opens the connection
    /// for the other methods.
    pub fn on_message<A: AgentService>(&mut self, message: Message, service: &mut A) -> (r: Step)
        ensures
            match message {
                Message::Request(request) => if !old(self)@.handshake_done && request.method
                    != Method::SystemHandshake {
                    &&& r matches Step::RespondAndClose(response, end) && end
                        == SessionEnd::HandshakeRequired && response.protocol_major == PROTOCOL_MAJOR
                        && response.request_id == request.request_id && !response.ok
                        && response.result is None && (response.error matches Some(e)
                        && is_text_error(e, ErrorCode::ProtocolMismatch, "reason"@, "handshakeRequired"@))
                    &&& final(self)@ == old(self)@
                    &&& *final(service) == *old(service)
                } else {
                    &&& r matches Step::Respond(response) && response.protocol_major
                        == PROTOCOL_MAJOR && response.request_id == request.request_id
                        && (response.ok ==> response.error is None && (response.result matches Some(v)
                        && (*old(service)).handles(*final(service), request, Ok::<Reply, ErrorPayload>(v))))
                        && (!response.ok ==> response.result is None && (response.error matches Some(e)
                        && (*old(service)).handles(*final(service), request, Err::<Reply, ErrorPayload>(e))))
                        && final(self)@.handshake_done == (old(self)@.handshake_done || (response.ok
                        && request.method == Method::SystemHandshake))
                    &&& final(self)@.queue == old(self)@.queue
                },
                _ => {
                    &&& r matches Step::Close(end) && end == SessionEnd::UnexpectedMessageKind
                    &&& final(self)@ == old(self)@
                    &&& *final(service) == *old(service)
                },
            },
    {
        let request = match message {
            Message::Request(request) => request,
            _ => {
                return Step::Close(SessionEnd::UnexpectedMessageKind);
            },
        };
        if !self.handshake_done && request.method != Method::SystemHandshake {
            // Nothing is operated before compatibility is known; the reason
            // is answered before the connection closes.
            let error = text_error(ErrorCode::ProtocolMismatch, "reason", "handshakeRequired");
            return Step::RespondAndClose(
                Response::err(request.request_id, error),
                SessionEnd::HandshakeRequired,
            );
        }
        let outcome = service.call(&request);
        let is_handshake = request.method == Method::SystemHandshake;
        match outcome {
            Ok(result) => {
                if is_handshake {
                    self.handshake_done = true;
                }
                Step::Respond(Response::ok(request.request_id, result))
            },
            Err(error) => Step::Respond(Response::err(request.request_id, error)),
        }
    }

    /// Takes the events the service produced, queues them, and gives what
    /// to write: a resync notice first when a state event was lost, then the
    /// queued events in order. The queue is left empty.
    pub fn events_after<A: AgentService>(&mut self, service: &mut A) -> (r: Vec<Message>)
        ensures
            final(self)@.handshake_done == old(self)@.handshake_done,
            exists|drained: Seq<Event>|
                {
                    let q = #[trigger] push_all(old(self)@.queue, drained);
                    &&& (*old(service)).drains(*final(service), drained)
                    &&& flushed(q, r@)
                    &&& final(self)@.queue == (QueueModel {
                        items: Seq::empty(),
                        dropped_state: 0,
                        ..q
                    })
                },
    {
        let ghost start = self.queue@;
        let ghost done = self.handshake_done;
        let mut rest = service.drain_events();
        let ghost drained = rest@;
        let total = rest.len();
        let mut taken: usize = 0;
        proof {
            assert(drained.take(0) =~= Seq::<Event>::empty());
            assert(rest@ =~= drained.skip(0));
        }
        while rest.len() > 0
            invariant
                taken <= drained.len(),
                taken + rest@.len() == drained.len(),
                drained.len() == total,
                self.handshake_done == done,
                rest@ == drained.skip(taken as int),
                self.queue@ == push_all(start, drained.take(taken as int)),
            decreases rest.len(),
        {
            let event = rest.remove(0);
            proof {
                assert(event == drained[taken as int]);
                assert(drained.take(taken as int + 1).drop_last() =~= drained.take(taken as int));
                assert(drained.take(taken as int + 1).last() == event);
                assert(rest@ =~= drained.skip(taken as int + 1));
            }
            if self.queue.dropped_state() < u64::MAX - self.queue.dropped_logs() {
                // A full queue drops the event; dropping is never silent.
                let _ = self.queue.push(event);
            }
            taken = taken + 1;
        }
        proof {
            assert(drained.take(taken as int) =~= drained);
        }
        let ghost q = self.queue@;
        let mut out: Vec<Message> = Vec::new();
        if self.queue.needs_resync() {
            let notice = Event::new(
                DecimalU64::new(0),
                service.agent_generation(),
                EventKind::ResyncRequired,
                EventPayload::Resync { dropped_logs: self.queue.dropped_logs() },
            );
            out.push(Message::Event(notice));
            self.queue.clear_resync();
        }
        let ghost offset: int = if q.dropped_state > 0 { 1 } else { 0 };
        let ghost popped: int = 0;
        while !self.queue.is_empty()
            invariant
                self.handshake_done == done,
                0 <= popped <= q.items.len(),
                self.queue@.items == q.items.skip(popped),
                self.queue@.dropped_state == 0,
                self.queue@.dropped_logs == q.dropped_logs,
                self.queue@.capacity == q.capacity,
                out@.len() == offset + popped,
                offset == (if q.dropped_state > 0 { 1int } else { 0int }),
                q.dropped_state > 0 ==> is_resync_notice(out@[0], q.dropped_logs),
                forall|i: int| 0 <= i < popped ==> #[trigger] out@[offset + i] == Message::Event(q.items[i]),
            decreases self.queue@.items.len(),
        {
            let event = self.queue.pop();
            match event {
                Some(e) => {
                    proof {
                        assert(e == q.items[popped]);
                        assert(q.items.skip(popped).drop_first() =~= q.items.skip(popped + 1));
                    }
                    out.push(Message::Event(e));
                    proof {
                        popped = popped + 1;
                    }
                },
                None => {},
            }
        }
        proof {
            assert(popped == q.items.len());
            assert(self.queue@.items =~= Seq::<Event>::empty());
            assert(flushed(q, out@));
            assert(push_all(start, drained) == q);
            assert(old(self)@.queue == start);
            assert(push_all(old(self)@.queue, drained) == q);
            assert(self.queue@ == (QueueModel { items: Seq::empty(), dropped_state: 0, ..q }));
        }
        out
    }
}

/// A frame that breaks the contract closes the connection.
pub fn on_frame_error(error: FrameError) -> (r: SessionEnd)
    ensures
        r == SessionEnd::RejectedFrame(error),
{
    SessionEnd::RejectedFrame(error)
}

/// Whether the buffer has grown to the limit without holding a whole frame:
/// then the connection closes.
pub fn buffer_limit(buffered: usize) -> (r: Option<SessionEnd>)
    ensures
        buffered >= MAX_BUFFERED_BYTES ==> r == Some(
            SessionEnd::RejectedFrame(FrameError::TooLarge { declared: buffered }),
        ),
        buffered < MAX_BUFFERED_BYTES ==> r is None,
{
    if buffered >= MAX_BUFFERED_BYTES {
        Some(SessionEnd::RejectedFrame(FrameError::TooLarge { declared: buffered }))
    } else {
        None
    }
}

} // verus!
