//! Applying and delivering events.
//!
//! Events of another Agent generation are dropped. A gap in the sequence
//! means no patch is applied and the subscriber returns to a snapshot. Each
//! subscriber queue is bounded, so a slow subscriber never stalls the Agent.

use vstd::prelude::*;
use std::collections::VecDeque;
use crate::ids::{AgentGeneration, DecimalU64};
use crate::message::{Event, EventKind};

verus! {

/// What became of one event.
#[derive(Debug, Clone, PartialEq, Eq)]
pub enum ApplyOutcome {
    /// The expected sequence number: apply it.
    Applied,
    /// Issued by another Agent generation: dropped.
    DroppedForeignGeneration { found: AgentGeneration },
    /// Older than what was already applied: dropped.
    DroppedStale { sequence: u64, expected: u64 },
    /// The sequence skipped ahead: take a new snapshot instead.
    ResyncRequired { gap_from: u64, received: u64 },
}

/// The receiving side's event gate. The GUI and the CLI each hold one.
#[derive(Debug, Clone)]
pub struct EventApplier {
    generation: AgentGeneration,
    next_sequence: u64,
}

impl View for EventApplier {
    /// The generation accepted and the next sequence number expected.
    type V = (Seq<char>, u64);

    closed spec fn view(&self) -> (Seq<char>, u64) {
        (self.generation.0@, self.next_sequence)
    }
}

/// The verdict on an event for a gate expecting `next` of generation `generation`.
pub open spec fn spec_apply_outcome(generation: Seq<char>, next: u64, event: Event) -> ApplyOutcome {
    if event.agent_generation.0@ != generation {
        ApplyOutcome::DroppedForeignGeneration { found: event.agent_generation }
    } else if event.sequence.0 < next {
        ApplyOutcome::DroppedStale { sequence: event.sequence.0, expected: next }
    } else if event.sequence.0 > next {
        ApplyOutcome::ResyncRequired { gap_from: next, received: event.sequence.0 }
    } else {
        ApplyOutcome::Applied
    }
}

impl EventApplier {
    /// Starts right after a snapshot; `next_sequence` follows the snapshot.
    pub fn new(generation: AgentGeneration, next_sequence: u64) -> (r: Self)
        ensures
            r@ == (generation.0@, next_sequence),
    {
        EventApplier { generation, next_sequence }
    }

    pub fn generation(&self) -> (r: &AgentGeneration)
        ensures
            r.0@ == self@.0,
    {
        &self.generation
    }

    pub fn next_sequence(&self) -> (r: u64)
        ensures
            r == self@.1,
    {
        self.next_sequence
    }

    /// The Agent restarted with a new generation; called after a new snapshot.
    pub fn rebind(&mut self, generation: AgentGeneration, next_sequence: u64)
        ensures
            final(self)@ == (generation.0@, next_sequence),
    {
        self.generation = generation;
        self.next_sequence = next_sequence;
    }

    /// Decides whether one event may be applied. Only the exact next
    /// sequence number from the current Agent is applied, and only then is
    /// the expected number advanced; the timestamps an event carries are not
    /// looked at.
    pub fn apply(&mut self, event: &Event) -> (r: ApplyOutcome)
        requires
            old(self)@.1 < u64::MAX,
        ensures
            r == spec_apply_outcome(old(self)@.0, old(self)@.1, *event),
            final(self)@.0 == old(self)@.0,
            final(self)@.1 == if r is Applied {
                (old(self)@.1 + 1) as u64
            } else {
                old(self)@.1
            },
    {
        if event.agent_generation.0 != self.generation.0 {
            return ApplyOutcome::DroppedForeignGeneration { found: event.agent_generation.duplicate() };
        }
        let sequence = event.sequence.get();
        if sequence < self.next_sequence {
            return ApplyOutcome::DroppedStale { sequence, expected: self.next_sequence };
        }
        if sequence > self.next_sequence {
            return ApplyOutcome::ResyncRequired { gap_from: self.next_sequence, received: sequence };
        }
        self.next_sequence = self.next_sequence + 1;
        ApplyOutcome::Applied
    }
}

/// What became of a push onto a subscriber queue.
#[derive(Debug, Clone, PartialEq, Eq, Structural)]
pub enum PushOutcome {
    Accepted,
    /// The queue was full and the new event was dropped; the running total of
    /// drops is given.
    Dropped { total_dropped: u64 },
}

/// A bounded queue per subscriber.
///
/// A full queue never blocks the sender. Drops are counted in two ways: a
/// dropped state event means the subscriber needs a resync
/// ([`needs_resync`](Self::needs_resync)); a thinned log line is only counted
/// ([`dropped_logs`](Self::dropped_logs)) and never forces a new snapshot.
#[derive(Debug)]
pub struct SubscriberQueue {
    capacity: usize,
    items: VecDeque<Event>,
    dropped_state: u64,
    dropped_logs: u64,
}

/// The abstract state of a queue.
pub struct QueueModel {
    pub capacity: nat,
    pub items: Seq<Event>,
    pub dropped_state: nat,
    pub dropped_logs: nat,
}

impl View for SubscriberQueue {
    type V = QueueModel;

    closed spec fn view(&self) -> QueueModel {
        QueueModel {
            capacity: self.capacity as nat,
            items: self.items@,
            dropped_state: self.dropped_state as nat,
            dropped_logs: self.dropped_logs as nat,
        }
    }
}

impl SubscriberQueue {
    #[verifier::type_invariant]
    spec fn bounded(&self) -> bool {
        &&& self.capacity >= 1
        &&& self.items@.len() <= self.capacity
    }

    /// A queue of the given capacity; a capacity of zero is taken as one.
    pub fn with_capacity(capacity: usize) -> (r: Self)
        ensures
            r@.capacity == if capacity == 0 { 1 } else { capacity as nat },
            r@.items.len() == 0,
            r@.dropped_state == 0,
            r@.dropped_logs == 0,
    {
        let capacity = if capacity > 1 { capacity } else { 1 };
        SubscriberQueue { capacity, items: VecDeque::new(), dropped_state: 0, dropped_logs: 0 }
    }

    /// Adds one event; when the queue is full the new event is dropped and
    /// counted as a log drop or a state drop.
    pub fn push(&mut self, event: Event) -> (r: PushOutcome)
        requires
            old(self)@.dropped_state + old(self)@.dropped_logs < u64::MAX,
        ensures
            final(self)@.capacity == old(self)@.capacity,
            final(self)@.items.len() <= final(self)@.capacity,
            old(self)@.items.len() < old(self)@.capacity ==> {
                &&& r == PushOutcome::Accepted
                &&& final(self)@.items == old(self)@.items.push(event)
                &&& final(self)@.dropped_state == old(self)@.dropped_state
                &&& final(self)@.dropped_logs == old(self)@.dropped_logs
            },
            old(self)@.items.len() >= old(self)@.capacity ==> {
                &&& final(self)@.items == old(self)@.items
                &&& (event.event == EventKind::LogAppended ==> final(self)@.dropped_logs
                    == old(self)@.dropped_logs + 1 && final(self)@.dropped_state
                    == old(self)@.dropped_state)
                &&& (event.event != EventKind::LogAppended ==> final(self)@.dropped_state
                    == old(self)@.dropped_state + 1 && final(self)@.dropped_logs
                    == old(self)@.dropped_logs)
                &&& r == PushOutcome::Dropped {
                    total_dropped: (final(self)@.dropped_state + final(self)@.dropped_logs) as u64,
                }
            },
    {
        proof {
            use_type_invariant(&*self);
        }
        if self.items.len() >= self.capacity {
            if event.event == EventKind::LogAppended {
                self.dropped_logs = self.dropped_logs + 1;
            } else {
                self.dropped_state = self.dropped_state + 1;
            }
            return PushOutcome::Dropped { total_dropped: self.dropped_state + self.dropped_logs };
        }
        let mut items = VecDeque::new();
        std::mem::swap(&mut items, &mut self.items);
        items.push_back(event);
        self.items = items;
        PushOutcome::Accepted
    }

    /// Takes the oldest event.
    pub fn pop(&mut self) -> (r: Option<Event>)
        ensures
            final(self)@.capacity == old(self)@.capacity,
            final(self)@.dropped_state == old(self)@.dropped_state,
            final(self)@.dropped_logs == old(self)@.dropped_logs,
            old(self)@.items.len() == 0 ==> r is None && final(self)@.items == old(self)@.items,
            old(self)@.items.len() > 0 ==> r == Some(old(self)@.items[0])
                && final(self)@.items == old(self)@.items.drop_first(),
    {
        proof {
            use_type_invariant(&*self);
        }
        let mut items = VecDeque::new();
        std::mem::swap(&mut items, &mut self.items);
        let r = items.pop_front();
        self.items = items;
        r
    }

    pub fn len(&self) -> (r: usize)
        ensures
            r == self@.items.len(),
            1 <= self@.capacity,
            r <= self@.capacity,
    {
        proof {
            use_type_invariant(&*self);
        }
        self.items.len()
    }

    pub fn is_empty(&self) -> (r: bool)
        ensures
            r == (self@.items.len() == 0),
    {
        self.items.len() == 0
    }

    /// State events dropped so far.
    pub fn dropped_state(&self) -> (r: u64)
        ensures
            r == self@.dropped_state,
    {
        self.dropped_state
    }

    /// Log events thinned so far; shown to the user as a count.
    pub fn dropped_logs(&self) -> (r: u64)
        ensures
            r == self@.dropped_logs,
    {
        self.dropped_logs
    }

    /// All drops, state and log together.
    pub fn dropped(&self) -> (r: u64)
        requires
            self@.dropped_state + self@.dropped_logs <= u64::MAX,
        ensures
            r == self@.dropped_state + self@.dropped_logs,
    {
        self.dropped_state + self.dropped_logs
    }

    /// Whether a state event was dropped, so the subscriber must return to a
    /// snapshot. Thinned logs alone never make this true.
    pub fn needs_resync(&self) -> (r: bool)
        ensures
            r == (self@.dropped_state > 0),
    {
        self.dropped_state > 0
    }

    /// A snapshot was sent again: the record of dropped state events is
    /// cleared. The log count stays, since a snapshot does not restore logs.
    pub fn clear_resync(&mut self)
        ensures
            final(self)@.dropped_state == 0,
            final(self)@.dropped_logs == old(self)@.dropped_logs,
            final(self)@.items == old(self)@.items,
            final(self)@.capacity == old(self)@.capacity,
    {
        proof {
            use_type_invariant(&*self);
        }
        self.dropped_state = 0;
    }
}

/// The sending side's sequence numbering; the Agent holds exactly one.
#[derive(Debug, Clone)]
pub struct SequenceSource {
    generation: AgentGeneration,
    next: u64,
}

impl View for SequenceSource {
    /// The generation stamped on events and the next number to hand out.
    type V = (Seq<char>, u64);

    closed spec fn view(&self) -> (Seq<char>, u64) {
        (self.generation.0@, self.next)
    }
}

impl SequenceSource {
    pub fn new(generation: AgentGeneration, start: u64) -> (r: Self)
        ensures
            r@ == (generation.0@, start),
    {
        SequenceSource { generation, next: start }
    }

    /// Hands out the next sequence number.
    pub fn take(&mut self) -> (r: DecimalU64)
        requires
            old(self)@.1 < u64::MAX,
        ensures
            r.0 == old(self)@.1,
            final(self)@ == (old(self)@.0, (old(self)@.1 + 1) as u64),
    {
        let value = self.next;
        self.next = self.next + 1;
        DecimalU64::new(value)
    }

    pub fn generation(&self) -> (r: &AgentGeneration)
        ensures
            r.0@ == self@.0,
    {
        &self.generation
    }

    /// The number the next [`SequenceSource::take`] hands out.
    pub fn peek(&self) -> (r: u64)
        ensures
            r == self@.1,
    {
        self.next
    }
}

/// Numbers handed out by a sequence source are accepted, in order, by an
/// applier that starts from the same Agent and number: both advance
/// together.
pub proof fn lemma_source_and_gate_move_in_step(generation: Seq<char>, next: u64, event: Event)
    requires
        event.agent_generation.0@ == generation,
        event.sequence.0 == next,
    ensures
        spec_apply_outcome(generation, next, event) == ApplyOutcome::Applied,
{
}

} // verus!
