//! Accepting operations and tracking their phases.
//!
//! Receiving the same `requestId` again never repeats a side effect. An
//! outside API call and the local save are not one atomic step, so a remote ID
//! learnt from a registration reply is kept on the operation; a retry after a
//! failed save reconciles against it instead of registering again.

use vstd::prelude::*;
use crate::clock::UnixMillis;
use crate::dto::{
    OperationAccepted, OperationFailure, OperationKind, OperationPhase, OperationSnapshot,
    RemoteAvailability, spec_is_terminal,
};
use crate::error::{DetailValue, ErrorCode, ErrorPayload, detail_lookup};
use crate::ids::{DecimalU64, OperationId, RequestId, Timestamp};
use crate::text::{decimal, decimal_string, padded_decimal, push_padded_decimal, str_eq};

verus! {

/// A request to accept an operation.
#[derive(Debug, Clone, PartialEq, Eq)]
pub struct OperationRequest {
    pub request_id: RequestId,
    pub kind: OperationKind,
    pub target_id: String,
    /// Revision of the snapshot last read.
    pub expected_revision: u64,
    /// Answer to a force-stop challenge; unused by other kinds.
    pub confirmation: Option<String>,
}

/// The latest observation of the target, for deciding how to stop it.
#[derive(Debug, Clone, Copy, PartialEq, Eq)]
pub struct StopReadiness {
    pub availability: RemoteAvailability,
    /// A stale observation is not taken as idle.
    pub is_fresh: bool,
}

pub open spec fn spec_confirmed_idle(r: StopReadiness) -> bool {
    r.is_fresh && r.availability == RemoteAvailability::OnlineIdle
}

impl StopReadiness {
    /// Whether the stop signal may be sent at once: only for a fresh
    /// `OnlineIdle`. Busy, unknown and stale observations wait.
    pub fn is_confirmed_idle(self) -> (r: bool)
        ensures
            r == spec_confirmed_idle(self),
    {
        self.is_fresh && match self.availability {
            RemoteAvailability::OnlineIdle => true,
            _ => false,
        }
    }
}

/// What the store keeps about one operation; more than the wire snapshot.
#[derive(Debug, Clone, PartialEq, Eq)]
pub struct OperationRecord {
    pub operation_id: OperationId,
    pub request_id: RequestId,
    pub kind: OperationKind,
    pub target_id: String,
    pub phase: OperationPhase,
    pub started_at: UnixMillis,
    pub finished_at: Option<UnixMillis>,
    /// GitHub's runner ID from the registration reply; kept even when the
    /// local save fails, so that a retry reconciles instead of registering.
    pub registered_remote_id: Option<DecimalU64>,
    pub failures: Vec<OperationFailure>,
}

impl OperationRecord {
    /// The wire form.
    pub fn to_snapshot(&self) -> (r: OperationSnapshot)
        ensures
            r.operation_id == self.operation_id,
            r.kind == self.kind,
            r.phase == self.phase,
            r.target_id == self.target_id,
            r.started_at.0@ == crate::clock::spec_rfc3339(self.started_at.0 as int),
            match self.finished_at {
                None => r.finished_at is None,
                Some(at) => r.finished_at matches Some(t) && t.0@ == crate::clock::spec_rfc3339(
                    at.0 as int,
                ),
            },
            r.failures@ == self.failures@,
    {
        let finished_at: Option<Timestamp> = match self.finished_at {
            Some(at) => Some(at.to_timestamp()),
            None => None,
        };
        let mut failures: Vec<OperationFailure> = Vec::new();
        let mut i: usize = 0;
        while i < self.failures.len()
            invariant
                i <= self.failures.len(),
                failures@ == self.failures@.take(i as int),
            decreases self.failures.len() - i,
        {
            let f = &self.failures[i];
            failures.push(OperationFailure {
                backend_id: match &f.backend_id {
                    Some(b) => Some(b.duplicate()),
                    None => None,
                },
                code: f.code,
                message_key: f.message_key.clone(),
            });
            proof {
                assert(failures@ =~= self.failures@.take(i as int + 1));
            }
            i = i + 1;
        }
        proof {
            assert(self.failures@.take(self.failures@.len() as int) =~= self.failures@);
        }
        OperationSnapshot {
            operation_id: self.operation_id.duplicate(),
            kind: self.kind,
            phase: self.phase,
            target_id: self.target_id.clone(),
            started_at: self.started_at.to_timestamp(),
            finished_at,
            failures,
        }
    }
}

/// A confirmation challenge for a forced stop.
///
/// Only an exact match with a value the Agent issued counts as confirmed; any
/// non-empty answer does not. The token is made by the caller from the OS's
/// random source; the domain holds no random source of its own.
#[derive(Debug, Clone, PartialEq, Eq)]
pub struct ForceStopChallenge {
    pub token: String,
    /// The target this challenge is for; it does not confirm another node.
    pub target_id: String,
    /// Revision when issued; once the state moves, the challenge is void.
    pub expected_revision: u64,
    pub issued_at: UnixMillis,
    pub expires_at: UnixMillis,
}

impl ForceStopChallenge {
    /// Lifetime of a challenge; a dialog left open does not confirm later.
    pub const TTL_MILLIS: i64 = 120_000;

    /// Whether the challenge can still be used at `now`.
    pub fn is_valid_at(&self, now: UnixMillis) -> (r: bool)
        requires
            i64::MIN <= now.0 - self.expires_at.0 <= i64::MAX,
        ensures
            r == (now.0 <= self.expires_at.0),
    {
        now.elapsed_since(self.expires_at) <= 0
    }

    /// A copy of the challenge.
    pub fn duplicate(&self) -> (r: ForceStopChallenge)
        ensures
            r == *self,
    {
        ForceStopChallenge {
            token: self.token.clone(),
            target_id: self.target_id.clone(),
            expected_revision: self.expected_revision,
            issued_at: self.issued_at,
            expires_at: self.expires_at,
        }
    }
}

/// The text of the `n`-th operation ID: `op-` and the number padded to four
/// digits.
pub open spec fn op_id_text(n: nat) -> Seq<char> {
    "op-"@ + padded_decimal(n, 4)
}

/// The phase an accepted operation starts in.
pub open spec fn spec_initial_phase(kind: OperationKind, readiness: StopReadiness) -> OperationPhase {
    match kind {
        OperationKind::NodeStart | OperationKind::RunnerCreate | OperationKind::RunnerRemove => OperationPhase::Requested,
        OperationKind::NodeStop => if spec_confirmed_idle(readiness) {
            OperationPhase::StopSignal
        } else {
            OperationPhase::WaitingForIdle
        },
        OperationKind::NodeForceStop => OperationPhase::StopSignal,
    }
}

/// The abstract store: records in acceptance order and the open challenges.
pub struct StoreModel {
    pub records: Seq<OperationRecord>,
    pub challenges: Seq<ForceStopChallenge>,
}

/// `i` is the first record accepted under request ID `rid`.
pub open spec fn first_request(records: Seq<OperationRecord>, rid: Seq<char>, i: int) -> bool {
    &&& 0 <= i < records.len()
    &&& records[i].request_id.0@ == rid
    &&& forall|j: int| 0 <= j < i ==> (#[trigger] records[j]).request_id.0@ != rid
}

/// `i` is the first record with operation ID `oid`.
pub open spec fn first_operation(records: Seq<OperationRecord>, oid: Seq<char>, i: int) -> bool {
    &&& 0 <= i < records.len()
    &&& records[i].operation_id.0@ == oid
    &&& forall|j: int| 0 <= j < i ==> (#[trigger] records[j]).operation_id.0@ != oid
}

pub open spec fn has_request(records: Seq<OperationRecord>, rid: Seq<char>) -> bool {
    exists|i: int| 0 <= i < records.len() && (#[trigger] records[i]).request_id.0@ == rid
}

pub open spec fn has_operation(records: Seq<OperationRecord>, oid: Seq<char>) -> bool {
    exists|i: int| 0 <= i < records.len() && (#[trigger] records[i]).operation_id.0@ == oid
}

/// The index of the open challenge for `target`, if any.
pub open spec fn challenge_for(challenges: Seq<ForceStopChallenge>, target: Seq<char>, i: int) -> bool {
    &&& 0 <= i < challenges.len()
    &&& challenges[i].target_id@ == target
}

pub open spec fn has_challenge(challenges: Seq<ForceStopChallenge>, target: Seq<char>) -> bool {
    exists|i: int| challenge_for(challenges, target, i)
}

/// Whether the request's confirmation matches the open challenge for its
/// target, issued at the current revision and not yet expired.
pub open spec fn spec_challenge_accepts(
    challenges: Seq<ForceStopChallenge>,
    request: OperationRequest,
    current_revision: u64,
    now: UnixMillis,
) -> bool {
    match request.confirmation {
        None => false,
        Some(answer) => exists|i: int|
            #![trigger challenges[i]]
            challenge_for(challenges, request.target_id@, i) && challenges[i].token@ == answer@
                && challenges[i].expected_revision == current_revision && now.0
                <= challenges[i].expires_at.0,
    }
}

/// Whether the error is the one a revision mismatch gives: `REVISION_CONFLICT`
/// with both revisions, in decimal, among the details.
pub open spec fn is_revision_conflict(e: ErrorPayload, expected: u64, current: u64) -> bool {
    &&& e.code == ErrorCode::RevisionConflict
    &&& e.message_key@ == crate::error::spec_message_key(ErrorCode::RevisionConflict)
    &&& !e.retryable
    &&& !e.requires_confirmation
    &&& e.operation_id is None
    &&& e.details@.len() == 2
    &&& detail_lookup(e.details@, "expectedRevision"@) matches Some(DetailValue::Text(t))
        && t@ == decimal(expected as nat)
    &&& detail_lookup(e.details@, "currentRevision"@) matches Some(DetailValue::Text(t))
        && t@ == decimal(current as nat)
}

/// The full contract of [`OperationStore::submit`].
pub open spec fn submit_post(
    old_store: StoreModel,
    request: OperationRequest,
    current_revision: u64,
    readiness: StopReadiness,
    now: UnixMillis,
    r: Result<OperationAccepted, ErrorPayload>,
    new_store: StoreModel,
) -> bool {
    let records = old_store.records;
    if has_request(records, request.request_id.0@) {
        // A resend: either the same operation again, or a reused key.
        &&& new_store == old_store
        &&& exists|i: int|
            #![trigger records[i]]
            first_request(records, request.request_id.0@, i) && if records[i].kind == request.kind
                && records[i].target_id@ == request.target_id@ {
                r == Ok::<OperationAccepted, ErrorPayload>(
                    OperationAccepted {
                        operation_id: records[i].operation_id,
                        accepted: true,
                        deduplicated: true,
                    },
                )
            } else {
                r matches Err(e) && e.is_fresh_for(ErrorCode::RequestIdConflict)
            }
    } else if request.expected_revision != current_revision {
        &&& new_store == old_store
        &&& r matches Err(e) && is_revision_conflict(e, request.expected_revision, current_revision)
    } else if request.kind == OperationKind::NodeForceStop && !spec_challenge_accepts(
        old_store.challenges,
        request,
        current_revision,
        now,
    ) {
        &&& new_store == old_store
        &&& r matches Err(e) && e.is_fresh_for(ErrorCode::RequiresConfirmation)
    } else {
        &&& r matches Ok(a) && {
            &&& a.accepted
            &&& !a.deduplicated
            &&& a.operation_id.0@ == op_id_text(records.len() + 1)
            &&& new_store.records == records.push(
                OperationRecord {
                    operation_id: a.operation_id,
                    request_id: request.request_id,
                    kind: request.kind,
                    target_id: request.target_id,
                    phase: spec_initial_phase(request.kind, readiness),
                    started_at: now,
                    finished_at: None,
                    registered_remote_id: None,
                    failures: new_store.records.last().failures,
                },
            )
            &&& new_store.records.last().failures@.len() == 0
        }
        &&& if request.kind == OperationKind::NodeForceStop {
            exists|i: int|
                #![trigger old_store.challenges[i]]
                challenge_for(old_store.challenges, request.target_id@, i)
                    && new_store.challenges == old_store.challenges.remove(i)
        } else {
            new_store.challenges == old_store.challenges
        }
    }
}

/// A newly accepted operation is recorded last, under the request's ID and
/// with the kind asked for. It starts in `Requested` when it starts the node
/// or creates or removes a runner. A stop sends the stop signal at once only
/// when the target was freshly seen online and idle, and otherwise waits for
/// idle. A confirmed forced stop sends the stop signal at once.
pub proof fn lemma_new_operation_starting_phase(
    old_store: StoreModel,
    request: OperationRequest,
    current_revision: u64,
    readiness: StopReadiness,
    now: UnixMillis,
    accepted: OperationAccepted,
    new_store: StoreModel,
)
    requires
        submit_post(
            old_store,
            request,
            current_revision,
            readiness,
            now,
            Ok::<OperationAccepted, ErrorPayload>(accepted),
            new_store,
        ),
        !accepted.deduplicated,
    ensures
        new_store.records.len() == old_store.records.len() + 1,
        new_store.records.last().operation_id == accepted.operation_id,
        new_store.records.last().request_id == request.request_id,
        new_store.records.last().kind == request.kind,
        new_store.records.last().started_at == now,
        new_store.records.last().finished_at is None,
        request.kind == OperationKind::NodeStart || request.kind == OperationKind::RunnerCreate
            || request.kind == OperationKind::RunnerRemove ==> new_store.records.last().phase
            == OperationPhase::Requested,
        request.kind == OperationKind::NodeStop ==> (new_store.records.last().phase
            == OperationPhase::StopSignal <==> (readiness.is_fresh && readiness.availability
            == RemoteAvailability::OnlineIdle)),
        request.kind == OperationKind::NodeStop ==> (new_store.records.last().phase
            == OperationPhase::StopSignal || new_store.records.last().phase
            == OperationPhase::WaitingForIdle),
        request.kind == OperationKind::NodeForceStop ==> new_store.records.last().phase
            == OperationPhase::StopSignal,
{
}

/// Two indices that are both the first under one request ID are the same.
proof fn lemma_first_request_unique(records: Seq<OperationRecord>, rid: Seq<char>, i: int, j: int)
    requires
        first_request(records, rid, i),
        first_request(records, rid, j),
    ensures
        i == j,
{
    if i < j {
        assert(records[i].request_id.0@ != rid);
    } else if j < i {
        assert(records[j].request_id.0@ != rid);
    }
}

/// Sending an accepted request again, at any later revision, readiness or
/// time, creates nothing new: the answer names the same operation, marked as
/// deduplicated, and the store stays as it was.
pub proof fn lemma_resend_is_deduplicated(
    s0: StoreModel,
    request: OperationRequest,
    revision: u64,
    readiness: StopReadiness,
    now: UnixMillis,
    r1: Result<OperationAccepted, ErrorPayload>,
    s1: StoreModel,
    later_revision: u64,
    later_readiness: StopReadiness,
    later: UnixMillis,
    r2: Result<OperationAccepted, ErrorPayload>,
    s2: StoreModel,
)
    requires
        submit_post(s0, request, revision, readiness, now, r1, s1),
        r1 is Ok,
        submit_post(s1, request, later_revision, later_readiness, later, r2, s2),
    ensures
        s2 == s1,
        r2 == Ok::<OperationAccepted, ErrorPayload>(
            OperationAccepted {
                operation_id: r1->Ok_0.operation_id,
                accepted: true,
                deduplicated: true,
            },
        ),
{
    let rid = request.request_id.0@;
    if has_request(s0.records, rid) {
        let i = choose|i: int|
            #![trigger s0.records[i]]
            first_request(s0.records, rid, i) && if s0.records[i].kind == request.kind
                && s0.records[i].target_id@ == request.target_id@ {
                r1 == Ok::<OperationAccepted, ErrorPayload>(
                    OperationAccepted {
                        operation_id: s0.records[i].operation_id,
                        accepted: true,
                        deduplicated: true,
                    },
                )
            } else {
                r1 matches Err(e) && e.is_fresh_for(ErrorCode::RequestIdConflict)
            };
        assert(s1 == s0);
        assert(has_request(s1.records, rid));
        let j = choose|j: int|
            #![trigger s1.records[j]]
            first_request(s1.records, rid, j) && if s1.records[j].kind == request.kind
                && s1.records[j].target_id@ == request.target_id@ {
                r2 == Ok::<OperationAccepted, ErrorPayload>(
                    OperationAccepted {
                        operation_id: s1.records[j].operation_id,
                        accepted: true,
                        deduplicated: true,
                    },
                )
            } else {
                r2 matches Err(e) && e.is_fresh_for(ErrorCode::RequestIdConflict)
            };
        lemma_first_request_unique(s0.records, rid, i, j);
    } else {
        let n = s0.records.len() as int;
        assert(s1.records.len() == n + 1);
        assert(s1.records[n].request_id.0@ == rid);
        assert forall|k: int| 0 <= k < n implies (#[trigger] s1.records[k]).request_id.0@ != rid by {
            assert(s1.records[k] == s0.records[k]);
            if s0.records[k].request_id.0@ == rid {
                assert(has_request(s0.records, rid));
            }
        }
        assert(first_request(s1.records, rid, n));
        assert(has_request(s1.records, rid));
        let j = choose|j: int|
            #![trigger s1.records[j]]
            first_request(s1.records, rid, j) && if s1.records[j].kind == request.kind
                && s1.records[j].target_id@ == request.target_id@ {
                r2 == Ok::<OperationAccepted, ErrorPayload>(
                    OperationAccepted {
                        operation_id: s1.records[j].operation_id,
                        accepted: true,
                        deduplicated: true,
                    },
                )
            } else {
                r2 matches Err(e) && e.is_fresh_for(ErrorCode::RequestIdConflict)
            };
        lemma_first_request_unique(s1.records, rid, n, j);
    }
}

/// A submission fails only for a reused request ID, a moved revision or a
/// missing confirmation.
pub proof fn lemma_submit_errors(
    s0: StoreModel,
    request: OperationRequest,
    revision: u64,
    readiness: StopReadiness,
    now: UnixMillis,
    r: Result<OperationAccepted, ErrorPayload>,
    s1: StoreModel,
)
    requires
        submit_post(s0, request, revision, readiness, now, r, s1),
    ensures
        r matches Err(e) ==> e.code == ErrorCode::RequestIdConflict || e.code
            == ErrorCode::RevisionConflict || e.code == ErrorCode::RequiresConfirmation,
{
    if has_request(s0.records, request.request_id.0@) {
        let i = choose|i: int|
            #![trigger s0.records[i]]
            first_request(s0.records, request.request_id.0@, i) && if s0.records[i].kind
                == request.kind && s0.records[i].target_id@ == request.target_id@ {
                r == Ok::<OperationAccepted, ErrorPayload>(
                    OperationAccepted {
                        operation_id: s0.records[i].operation_id,
                        accepted: true,
                        deduplicated: true,
                    },
                )
            } else {
                r matches Err(e) && e.is_fresh_for(ErrorCode::RequestIdConflict)
            };
    }
}

/// A forced stop that was accepted as new uses its challenge up: another
/// forced stop of the same target under a new request ID, at the current
/// revision, is refused with `REQUIRES_CONFIRMATION`, whatever answer it
/// carries, until a new challenge is issued.
pub proof fn lemma_challenge_authorises_once(
    s0: StoreModel,
    first: OperationRequest,
    revision: u64,
    readiness: StopReadiness,
    now: UnixMillis,
    r1: Result<OperationAccepted, ErrorPayload>,
    s1: StoreModel,
    second: OperationRequest,
    later_readiness: StopReadiness,
    later: UnixMillis,
    r2: Result<OperationAccepted, ErrorPayload>,
    s2: StoreModel,
)
    requires
        store_wf(s0),
        first.kind == OperationKind::NodeForceStop,
        submit_post(s0, first, revision, readiness, now, r1, s1),
        r1 matches Ok(a) && !a.deduplicated,
        second.kind == OperationKind::NodeForceStop,
        second.target_id@ == first.target_id@,
        second.expected_revision == revision,
        !has_request(s1.records, second.request_id.0@),
        submit_post(s1, second, revision, later_readiness, later, r2, s2),
    ensures
        s2 == s1,
        r2 matches Err(e) && e.is_fresh_for(ErrorCode::RequiresConfirmation),
{
    let target = first.target_id@;
    if has_request(s0.records, first.request_id.0@) {
        let i = choose|i: int|
            #![trigger s0.records[i]]
            first_request(s0.records, first.request_id.0@, i) && if s0.records[i].kind == first.kind
                && s0.records[i].target_id@ == first.target_id@ {
                r1 == Ok::<OperationAccepted, ErrorPayload>(
                    OperationAccepted {
                        operation_id: s0.records[i].operation_id,
                        accepted: true,
                        deduplicated: true,
                    },
                )
            } else {
                r1 matches Err(e) && e.is_fresh_for(ErrorCode::RequestIdConflict)
            };
    } else {
        let i = choose|i: int|
            #![trigger s0.challenges[i]]
            challenge_for(s0.challenges, target, i) && s1.challenges == s0.challenges.remove(i);
        assert(!has_challenge(s1.challenges, target)) by {
            if has_challenge(s1.challenges, target) {
                let k = choose|k: int| challenge_for(s1.challenges, target, k);
                let k0 = if k < i { k } else { k + 1 };
                assert(s1.challenges[k] == s0.challenges[k0]);
                if k0 < i {
                    assert(s0.challenges[k0].target_id@ != s0.challenges[i].target_id@);
                } else {
                    assert(s0.challenges[i].target_id@ != s0.challenges[k0].target_id@);
                }
            }
        }
        assert(!spec_challenge_accepts(s1.challenges, second, revision, later)) by {
            if let Some(answer) = second.confirmation {
                if exists|k: int|
                    #![trigger s1.challenges[k]]
                    challenge_for(s1.challenges, second.target_id@, k) && s1.challenges[k].token@
                        == answer@ && s1.challenges[k].expected_revision == revision && later.0
                        <= s1.challenges[k].expires_at.0 {
                    let k = choose|k: int|
                        #![trigger s1.challenges[k]]
                        challenge_for(s1.challenges, second.target_id@, k) && s1.challenges[k].token@
                            == answer@ && s1.challenges[k].expected_revision == revision && later.0
                            <= s1.challenges[k].expires_at.0;
                    assert(has_challenge(s1.challenges, target));
                }
            }
        }
    }
}

/// The accepted operations. The Agent holds exactly one.
#[derive(Debug)]
pub struct OperationStore {
    records: Vec<OperationRecord>,
    /// Issued and unused force-stop challenges, at most one per target.
    pending_challenges: Vec<ForceStopChallenge>,
}

impl View for OperationStore {
    type V = StoreModel;

    closed spec fn view(&self) -> StoreModel {
        StoreModel { records: self.records@, challenges: self.pending_challenges@ }
    }
}

/// No request ID is recorded twice, and the `n`-th record accepted carries
/// the `n`-th operation ID, so that no operation ID is recorded twice either.
pub open spec fn records_wf(records: Seq<OperationRecord>) -> bool {
    &&& forall|i: int, j: int|
        0 <= i < j < records.len() ==> (#[trigger] records[i]).request_id.0@
            != (#[trigger] records[j]).request_id.0@
    &&& forall|i: int|
        0 <= i < records.len() ==> (#[trigger] records[i]).operation_id.0@ == op_id_text(
            (i + 1) as nat,
        )
}

/// Distinct numbers give distinct operation IDs.
proof fn lemma_op_id_text_injective(a: nat, b: nat)
    requires
        op_id_text(a) == op_id_text(b),
    ensures
        a == b,
{
    reveal_strlit("op-");
    let p = "op-"@;
    assert(padded_decimal(a, 4) =~= op_id_text(a).subrange(p.len() as int, op_id_text(a).len() as int));
    assert(padded_decimal(b, 4) =~= op_id_text(b).subrange(p.len() as int, op_id_text(b).len() as int));
    crate::text::lemma_padded_decimal_injective(a, b, 4);
}

/// In a well-formed store, each record is the first, and only, one with
/// its operation ID: reading an operation by its ID finds that record.
pub proof fn lemma_record_is_found_by_its_id(records: Seq<OperationRecord>, i: int)
    requires
        records_wf(records),
        0 <= i < records.len(),
    ensures
        first_operation(records, records[i].operation_id.0@, i),
        forall|j: int|
            0 <= j < records.len() && j != i ==> (#[trigger] records[j]).operation_id.0@
                != records[i].operation_id.0@,
{
    assert forall|j: int|
        0 <= j < records.len() && j != i implies (#[trigger] records[j]).operation_id.0@
        != records[i].operation_id.0@ by {
        if records[j].operation_id.0@ == records[i].operation_id.0@ {
            lemma_op_id_text_injective((j + 1) as nat, (i + 1) as nat);
        }
    }
}

/// No target has two open challenges.
pub open spec fn challenges_wf(challenges: Seq<ForceStopChallenge>) -> bool {
    forall|i: int, j: int|
        0 <= i < j < challenges.len() ==> (#[trigger] challenges[i]).target_id@
            != (#[trigger] challenges[j]).target_id@
}

/// No request ID is recorded twice and no target has two open challenges.
pub open spec fn store_wf(m: StoreModel) -> bool {
    records_wf(m.records) && challenges_wf(m.challenges)
}

impl OperationStore {
    #[verifier::type_invariant]
    spec fn inv(&self) -> bool {
        &&& records_wf(self.records@)
        &&& challenges_wf(self.pending_challenges@)
    }

    /// An empty store.
    pub fn new() -> (r: Self)
        ensures
            r@.records.len() == 0,
            r@.challenges.len() == 0,
    {
        OperationStore { records: Vec::new(), pending_challenges: Vec::new() }
    }

    /// How many operations were accepted.
    pub fn len(&self) -> (r: usize)
        ensures
            r == self@.records.len(),
    {
        self.records.len()
    }

    /// The store never records a request ID twice, and holds at most one open
    /// challenge per target.
    pub fn check_wf(&self)
        ensures
            store_wf(self@),
    {
        proof {
            use_type_invariant(self);
        }
    }

    /// Index of the first record accepted under `request_id`.
    fn index_of_request(&self, request_id: &RequestId) -> (r: Option<usize>)
        ensures
            match r {
                Some(i) => first_request(self@.records, request_id.0@, i as int),
                None => !has_request(self@.records, request_id.0@),
            },
    {
        let mut i: usize = 0;
        while i < self.records.len()
            invariant
                i <= self.records@.len(),
                forall|j: int| 0 <= j < i ==> (#[trigger] self.records@[j]).request_id.0@
                    != request_id.0@,
            decreases self.records.len() - i,
        {
            if self.records[i].request_id.0 == request_id.0 {
                return Some(i);
            }
            i = i + 1;
        }
        None
    }

    /// Index of the first record with `operation_id`.
    fn index_of_operation(&self, operation_id: &OperationId) -> (r: Option<usize>)
        ensures
            match r {
                Some(i) => first_operation(self@.records, operation_id.0@, i as int),
                None => !has_operation(self@.records, operation_id.0@),
            },
    {
        let mut i: usize = 0;
        while i < self.records.len()
            invariant
                i <= self.records@.len(),
                forall|j: int| 0 <= j < i ==> (#[trigger] self.records@[j]).operation_id.0@
                    != operation_id.0@,
            decreases self.records.len() - i,
        {
            if self.records[i].operation_id.0 == operation_id.0 {
                return Some(i);
            }
            i = i + 1;
        }
        None
    }

    /// Index of the open challenge for `target_id`.
    fn index_of_challenge(&self, target_id: &str) -> (r: Option<usize>)
        ensures
            match r {
                Some(i) => challenge_for(self@.challenges, target_id@, i as int),
                None => !has_challenge(self@.challenges, target_id@),
            },
    {
        let mut i: usize = 0;
        while i < self.pending_challenges.len()
            invariant
                i <= self.pending_challenges@.len(),
                forall|j: int| 0 <= j < i ==> (#[trigger] self.pending_challenges@[j]).target_id@
                    != target_id@,
            decreases self.pending_challenges.len() - i,
        {
            if str_eq(self.pending_challenges[i].target_id.as_str(), target_id) {
                return Some(i);
            }
            i = i + 1;
        }
        None
    }
}

impl OperationStore {
    /// Accepts a request.
    ///
    /// A resend with the same `requestId` creates nothing new and returns the
    /// existing operation (`deduplicated = true`); the key alone is not
    /// enough, kind and target must match too, so a reused key cannot slip
    /// past the revision or confirmation gates (`REQUEST_ID_CONFLICT`). The
    /// key is looked at first, so a legitimate resend is not refused just
    /// because the revision has moved on since.
    ///
    /// # Errors
    ///
    /// `REVISION_CONFLICT` when the revision differs, and
    /// `REQUIRES_CONFIRMATION` for a forced stop without a matching challenge.
    pub fn submit(
        &mut self,
        request: &OperationRequest,
        current_revision: u64,
        readiness: StopReadiness,
        now: UnixMillis,
    ) -> (r: Result<OperationAccepted, ErrorPayload>)
        requires
            old(self)@.records.len() < u64::MAX,
        ensures
            submit_post(old(self)@, *request, current_revision, readiness, now, r, final(self)@),
            store_wf(final(self)@),
            r matches Ok(a) ==> exists|i: int|
                #![trigger final(self)@.records[i]]
                first_operation(final(self)@.records, a.operation_id.0@, i)
                    && final(self)@.records[i].request_id.0@ == request.request_id.0@,
            r matches Ok(a) ==> (!a.deduplicated ==> first_operation(
                final(self)@.records,
                a.operation_id.0@,
                old(self)@.records.len() as int,
            )),
    {
        proof {
            use_type_invariant(&*self);
        }
        if let Some(i) = self.index_of_request(&request.request_id) {
            let existing = &self.records[i];
            if existing.kind == request.kind && str_eq(existing.target_id.as_str(), request.target_id.as_str()) {
                proof {
                    lemma_record_is_found_by_its_id(self@.records, i as int);
                }
                return Ok(
                    OperationAccepted {
                        operation_id: existing.operation_id.duplicate(),
                        accepted: true,
                        deduplicated: true,
                    },
                );
            }
            return Err(ErrorPayload::new(ErrorCode::RequestIdConflict));
        }
        if request.expected_revision != current_revision {
            let e0 = ErrorPayload::new(ErrorCode::RevisionConflict);
            let e1 = e0.with_detail(
                "expectedRevision",
                DetailValue::Text(decimal_string(request.expected_revision)),
            );
            let e2 = e1.with_detail(
                "currentRevision",
                DetailValue::Text(decimal_string(current_revision)),
            );
            proof {
                reveal_strlit("expectedRevision");
                reveal_strlit("currentRevision");
                assert("expectedRevision"@ != "currentRevision"@) by {
                    assert("expectedRevision"@[0] != "currentRevision"@[0]);
                }
                crate::error::lemma_lookup_none_iff(e1.details@, "currentRevision"@);
                assert(detail_lookup(e0.details@, "currentRevision"@) is None);
            }
            return Err(e2);
        }
        if request.kind == OperationKind::NodeForceStop {
            // Confirmation is only an exact match with an issued challenge;
            // an unknown remote state never skips it.
            if !self.consume_challenge(request, current_revision, now) {
                return Err(ErrorPayload::new(ErrorCode::RequiresConfirmation));
            }
        }
        let operation_id = self.allocate_id();
        let phase = initial_phase(request.kind, readiness);
        let record = OperationRecord {
            operation_id: operation_id.duplicate(),
            request_id: request.request_id.duplicate(),
            kind: request.kind,
            target_id: request.target_id.clone(),
            phase,
            started_at: now,
            finished_at: None,
            registered_remote_id: None,
            failures: Vec::new(),
        };
        proof {
            use_type_invariant(&*self);
        }
        let ghost before = self.records@;
        let mut records: Vec<OperationRecord> = Vec::new();
        std::mem::swap(&mut records, &mut self.records);
        records.push(record);
        proof {
            assert(records@ == before.push(record));
            assert forall|i: int, j: int|
                0 <= i < j < records@.len() implies (#[trigger] records@[i]).request_id.0@
                != (#[trigger] records@[j]).request_id.0@ by {
                if j == before.len() {
                    assert(records@[i] == before[i]);
                }
            }
            assert forall|i: int|
                0 <= i < records@.len() implies (#[trigger] records@[i]).operation_id.0@ == op_id_text(
                (i + 1) as nat,
            ) by {
                if i < before.len() {
                    assert(records@[i] == before[i]);
                }
            }
            lemma_record_is_found_by_its_id(records@, before.len() as int);
        }
        self.records = records;
        Ok(OperationAccepted { operation_id, accepted: true, deduplicated: false })
    }

    /// The ID the next accepted operation gets: `op-0001`, `op-0002`, ...
    fn allocate_id(&self) -> (r: OperationId)
        requires
            self@.records.len() < u64::MAX,
        ensures
            r.0@ == op_id_text(self@.records.len() + 1),
    {
        let next: u64 = self.records.len() as u64 + 1;
        let mut text = String::from_str("op-");
        push_padded_decimal(&mut text, next, 4);
        OperationId(text)
    }

    /// Checks the confirmation against the open challenge for the target and,
    /// when it matches, uses the challenge up so that the same answer cannot
    /// authorise a second forced stop.
    fn consume_challenge(
        &mut self,
        request: &OperationRequest,
        current_revision: u64,
        now: UnixMillis,
    ) -> (r: bool)
        ensures
            final(self)@.records == old(self)@.records,
            r == spec_challenge_accepts(old(self)@.challenges, *request, current_revision, now),
            r ==> exists|i: int|
                #![trigger old(self)@.challenges[i]]
                challenge_for(old(self)@.challenges, request.target_id@, i)
                    && final(self)@.challenges == old(self)@.challenges.remove(i),
            !r ==> final(self)@.challenges == old(self)@.challenges,
            store_wf(final(self)@),
    {
        proof {
            use_type_invariant(&*self);
        }
        let answer = match &request.confirmation {
            Some(answer) => answer,
            None => {
                return false;
            },
        };
        let i = match self.index_of_challenge(request.target_id.as_str()) {
            Some(i) => i,
            None => {
                return false;
            },
        };
        let challenge = &self.pending_challenges[i];
        let matches = str_eq(challenge.token.as_str(), answer.as_str()) && str_eq(
            challenge.target_id.as_str(),
            request.target_id.as_str(),
        ) && challenge.expected_revision == current_revision && now.0 <= challenge.expires_at.0;
        proof {
            // The open challenge for a target is unique.
            assert forall|j: int| #![trigger self@.challenges[j]] challenge_for(self@.challenges, request.target_id@, j)
                implies j == i by {
                if j != i {
                    if j < i {
                        assert(self@.challenges[j].target_id@ != self@.challenges[i as int].target_id@);
                    } else {
                        assert(self@.challenges[i as int].target_id@ != self@.challenges[j].target_id@);
                    }
                }
            }
        }
        if !matches {
            return false;
        }
        let ghost before = self.pending_challenges@;
        let mut challenges = Vec::new();
        std::mem::swap(&mut challenges, &mut self.pending_challenges);
        challenges.remove(i);
        self.pending_challenges = challenges;
        proof {
            assert(self.pending_challenges@ == before.remove(i as int));
            assert forall|a: int, b: int|
                0 <= a < b < self.pending_challenges@.len() implies (#[trigger] self.pending_challenges@[a]).target_id@
                != (#[trigger] self.pending_challenges@[b]).target_id@ by {
                let a0 = if a < i { a } else { a + 1 };
                let b0 = if b < i { b } else { b + 1 };
                assert(self.pending_challenges@[a] == before[a0]);
                assert(self.pending_challenges@[b] == before[b0]);
            }
        }
        true
    }
}

impl OperationStore {
    /// Issues a confirmation challenge for a forced stop. The token comes
    /// from the caller's OS random source. One challenge is kept per target;
    /// issuing again voids the previous one.
    pub fn issue_force_stop_challenge(
        &mut self,
        token: String,
        target_id: &str,
        expected_revision: u64,
        now: UnixMillis,
    ) -> (r: ForceStopChallenge)
        requires
            now.0 + ForceStopChallenge::TTL_MILLIS <= i64::MAX,
        ensures
            r.token == token,
            r.target_id@ == target_id@,
            r.expected_revision == expected_revision,
            r.issued_at == now,
            r.expires_at.0 == now.0 + ForceStopChallenge::TTL_MILLIS,
            final(self)@.records == old(self)@.records,
            has_challenge(old(self)@.challenges, target_id@) ==> exists|i: int|
                #![trigger old(self)@.challenges[i]]
                challenge_for(old(self)@.challenges, target_id@, i) && final(self)@.challenges
                    == old(self)@.challenges.update(i, r),
            !has_challenge(old(self)@.challenges, target_id@) ==> final(self)@.challenges
                == old(self)@.challenges.push(r),
    {
        proof {
            use_type_invariant(&*self);
        }
        let challenge = ForceStopChallenge {
            token,
            target_id: target_id.to_owned(),
            expected_revision,
            issued_at: now,
            expires_at: now.plus_millis(ForceStopChallenge::TTL_MILLIS),
        };
        let stored = challenge.duplicate();
        let found = self.index_of_challenge(target_id);
        let ghost before = self.pending_challenges@;
        let mut challenges: Vec<ForceStopChallenge> = Vec::new();
        std::mem::swap(&mut challenges, &mut self.pending_challenges);
        match found {
            Some(i) => {
                challenges.set(i, stored);
                proof {
                    assert forall|a: int, b: int|
                        0 <= a < b < challenges@.len() implies (#[trigger] challenges@[a]).target_id@
                        != (#[trigger] challenges@[b]).target_id@ by {
                        if a != i && b != i {
                            assert(challenges@[a] == before[a]);
                            assert(challenges@[b] == before[b]);
                        } else if a == i {
                            assert(challenges@[b] == before[b]);
                            assert(before[a].target_id@ != before[b].target_id@);
                        } else {
                            assert(challenges@[a] == before[a]);
                            assert(before[a].target_id@ != before[b].target_id@);
                        }
                    }
                }
            },
            None => {
                challenges.push(stored);
                proof {
                    assert forall|a: int, b: int|
                        0 <= a < b < challenges@.len() implies (#[trigger] challenges@[a]).target_id@
                        != (#[trigger] challenges@[b]).target_id@ by {
                        assert(challenges@[a] == before[a]);
                        if b < before.len() {
                            assert(challenges@[b] == before[b]);
                        } else {
                            assert(!challenge_for(before, target_id@, a));
                        }
                    }
                }
            },
        }
        self.pending_challenges = challenges;
        challenge
    }

    /// The open challenge for a target, if any.
    pub fn pending_challenge(&self, target_id: &str) -> (r: Option<&ForceStopChallenge>)
        ensures
            match r {
                Some(c) => exists|i: int|
                    #![trigger self@.challenges[i]]
                    challenge_for(self@.challenges, target_id@, i) && *c == self@.challenges[i],
                None => !has_challenge(self@.challenges, target_id@),
            },
    {
        match self.index_of_challenge(target_id) {
            Some(i) => Some(&self.pending_challenges[i]),
            None => None,
        }
    }

    /// Records the remote ID from a registration reply, before the local
    /// save. The phase does not move: going on from `Registering` through
    /// `Starting` to `Verifying` is the caller's step.
    pub fn record_registration(&mut self, operation_id: &OperationId, remote_id: DecimalU64)
        ensures
            final(self)@.challenges == old(self)@.challenges,
            has_operation(old(self)@.records, operation_id.0@) ==> exists|i: int|
                #![trigger old(self)@.records[i]]
                first_operation(old(self)@.records, operation_id.0@, i) && final(self)@.records
                    == old(self)@.records.update(
                    i,
                    OperationRecord {
                        registered_remote_id: Some(remote_id),
                        ..old(self)@.records[i]
                    },
                ),
            !has_operation(old(self)@.records, operation_id.0@) ==> final(self)@.records == old(
                self,
            )@.records,
    {
        proof {
            use_type_invariant(&*self);
        }
        if let Some(i) = self.index_of_operation(operation_id) {
            let ghost before = self.records@;
            let mut records: Vec<OperationRecord> = Vec::new();
            std::mem::swap(&mut records, &mut self.records);
            let mut record = records.remove(i);
            record.registered_remote_id = Some(remote_id);
            records.insert(i, record);
            proof {
                assert(records@ =~= before.update(i as int, record));
                assert forall|a: int, b: int|
                    0 <= a < b < records@.len() implies (#[trigger] records@[a]).request_id.0@
                    != (#[trigger] records@[b]).request_id.0@ by {
                    assert(records@[a].request_id == before[a].request_id);
                    assert(records@[b].request_id == before[b].request_id);
                }
                assert forall|a: int| 0 <= a < records@.len() implies (#[trigger] records@[a]).operation_id
                    == before[a].operation_id by {}
            }
            self.records = records;
        }
    }

    /// Moves an operation to a new phase. A finished operation never moves
    /// again: rolling it back would make a completed operation look in
    /// progress. Entering a final phase stamps the finishing time. Returns
    /// whether the phase changed.
    pub fn set_phase(&mut self, operation_id: &OperationId, phase: OperationPhase, now: UnixMillis) -> (r:
        bool)
        ensures
            final(self)@.challenges == old(self)@.challenges,
            r <==> exists|i: int|
                #![trigger old(self)@.records[i]]
                first_operation(old(self)@.records, operation_id.0@, i) && !spec_is_terminal(
                    old(self)@.records[i].phase,
                ),
            !r ==> final(self)@.records == old(self)@.records,
            (exists|i: int|
                #![trigger old(self)@.records[i]]
                first_operation(old(self)@.records, operation_id.0@, i) && (old(self)@.records[i].phase
                    == OperationPhase::Succeeded || old(self)@.records[i].phase == OperationPhase::Partial
                    || old(self)@.records[i].phase == OperationPhase::Failed || old(self)@.records[i].phase
                    == OperationPhase::Canceled)) ==> !r && final(self)@.records == old(self)@.records,
            (exists|i: int|
                #![trigger old(self)@.records[i]]
                first_operation(old(self)@.records, operation_id.0@, i) && spec_is_terminal(
                    old(self)@.records[i].phase,
                )) ==> final(self)@.records == old(self)@.records,
            r ==> exists|i: int|
                #![trigger old(self)@.records[i]]
                first_operation(old(self)@.records, operation_id.0@, i) && final(self)@.records
                    == old(self)@.records.update(
                    i,
                    OperationRecord {
                        phase,
                        finished_at: if spec_is_terminal(phase) {
                            Some(now)
                        } else {
                            old(self)@.records[i].finished_at
                        },
                        ..old(self)@.records[i]
                    },
                ),
    {
        proof {
            use_type_invariant(&*self);
        }
        let i = match self.index_of_operation(operation_id) {
            Some(i) => i,
            None => {
                return false;
            },
        };
        if self.records[i].phase.is_terminal() {
            return false;
        }
        let ghost before = self.records@;
        let mut records: Vec<OperationRecord> = Vec::new();
        std::mem::swap(&mut records, &mut self.records);
        let mut record = records.remove(i);
        record.phase = phase;
        if phase.is_terminal() {
            record.finished_at = Some(now);
        }
        records.insert(i, record);
        proof {
            assert(records@ =~= before.update(i as int, record));
            assert forall|a: int, b: int|
                0 <= a < b < records@.len() implies (#[trigger] records@[a]).request_id.0@
                != (#[trigger] records@[b]).request_id.0@ by {
                assert(records@[a].request_id == before[a].request_id);
                assert(records@[b].request_id == before[b].request_id);
            }
            assert forall|a: int| 0 <= a < records@.len() implies (#[trigger] records@[a]).operation_id
                == before[a].operation_id by {}
        }
        self.records = records;
        true
    }

    /// Records the failure of one part; the parts that succeeded stay.
    pub fn push_failure(&mut self, operation_id: &OperationId, failure: OperationFailure)
        ensures
            final(self)@.challenges == old(self)@.challenges,
            has_operation(old(self)@.records, operation_id.0@) ==> exists|i: int|
                #![trigger old(self)@.records[i]]
                first_operation(old(self)@.records, operation_id.0@, i) && final(self)@.records
                    == old(self)@.records.update(
                    i,
                    OperationRecord {
                        failures: final(self)@.records[i].failures,
                        ..old(self)@.records[i]
                    },
                ) && final(self)@.records[i].failures@ == old(self)@.records[i].failures@.push(
                    failure,
                ),
            !has_operation(old(self)@.records, operation_id.0@) ==> final(self)@.records == old(
                self,
            )@.records,
    {
        proof {
            use_type_invariant(&*self);
        }
        if let Some(i) = self.index_of_operation(operation_id) {
            let ghost before = self.records@;
            let mut records: Vec<OperationRecord> = Vec::new();
            std::mem::swap(&mut records, &mut self.records);
            let mut record = records.remove(i);
            record.failures.push(failure);
            records.insert(i, record);
            proof {
                assert(records@ =~= before.update(i as int, record));
                assert forall|a: int, b: int|
                    0 <= a < b < records@.len() implies (#[trigger] records@[a]).request_id.0@
                    != (#[trigger] records@[b]).request_id.0@ by {
                    assert(records@[a].request_id == before[a].request_id);
                    assert(records@[b].request_id == before[b].request_id);
                }
                assert forall|a: int| 0 <= a < records@.len() implies (#[trigger] records@[a]).operation_id
                    == before[a].operation_id by {}
            }
            self.records = records;
        }
    }

    /// The record of an operation.
    pub fn get(&self, operation_id: &OperationId) -> (r: Option<&OperationRecord>)
        ensures
            match r {
                Some(rec) => exists|i: int|
                    #![trigger self@.records[i]]
                    first_operation(self@.records, operation_id.0@, i) && *rec == self@.records[i],
                None => !has_operation(self@.records, operation_id.0@),
            },
    {
        match self.index_of_operation(operation_id) {
            Some(i) => Some(&self.records[i]),
            None => None,
        }
    }

    /// The operation accepted under an idempotency key; recovery after an
    /// interruption starts here.
    pub fn find_by_request(&self, request_id: &RequestId) -> (r: Option<&OperationRecord>)
        ensures
            match r {
                Some(rec) => exists|i: int|
                    #![trigger self@.records[i]]
                    first_request(self@.records, request_id.0@, i) && *rec == self@.records[i],
                None => !has_request(self@.records, request_id.0@),
            },
    {
        match self.index_of_request(request_id) {
            Some(i) => Some(&self.records[i]),
            None => None,
        }
    }
}

/// The phase an accepted operation starts in.
fn initial_phase(kind: OperationKind, readiness: StopReadiness) -> (r: OperationPhase)
    ensures
        r == spec_initial_phase(kind, readiness),
{
    match kind {
        OperationKind::NodeStart | OperationKind::RunnerCreate | OperationKind::RunnerRemove => {
            OperationPhase::Requested
        },
        OperationKind::NodeStop => {
            if readiness.is_confirmed_idle() {
                OperationPhase::StopSignal
            } else {
                // Busy, unknown and stale all wait; unknown is not idle.
                OperationPhase::WaitingForIdle
            }
        },
        // A confirmed forced stop: no waiting for idle; the UI shows that a
        // job may be interrupted.
        OperationKind::NodeForceStop => OperationPhase::StopSignal,
    }
}

} // verus!
