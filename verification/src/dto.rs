//! State DTOs: the desired, observed and effective states of nodes and
//! runners, and the bodies of node operations.
//!
//! An unknown value is `None` or an explicit enum variant, never `0` or
//! `false`. Secrets never appear here.

use vstd::prelude::*;
use crate::error::ErrorCode;
use crate::ids::{
    AgentGeneration, BackendId, CredentialRefId, DecimalU64, NodeId, OperationId, RunnerId,
    ScopeId, Timestamp,
};

pub use crate::backend::BackendKind;

verus! {

/// What the user wants; kept apart from any operation in progress.
#[derive(Debug, Clone, Copy, PartialEq, Eq, Structural)]
pub enum DesiredState {
    Running,
    Stopped,
    Removed,
}

/// Observed state of the local process or guest.
#[derive(Debug, Clone, Copy, PartialEq, Eq, Structural)]
pub enum LocalRuntime {
    NotProvisioned,
    Starting,
    Running,
    Stopping,
    Stopped,
    Lost,
    Error,
    Unknown,
}

/// Whether GitHub holds a registration for the runner. Not the same as
/// being online.
#[derive(Debug, Clone, Copy, PartialEq, Eq, Structural)]
pub enum RemotePresence {
    Unchecked,
    Registered,
    NotFound,
    Unknown,
}

/// Whether GitHub sees the runner as able to take jobs.
#[derive(Debug, Clone, Copy, PartialEq, Eq, Structural)]
pub enum RemoteAvailability {
    OnlineIdle,
    OnlineBusy,
    Offline,
    Unknown,
}

/// Age of the last successful observation.
#[derive(Debug, Clone, Copy, PartialEq, Eq, Structural)]
pub enum ObservationFreshness {
    Fresh,
    Stale,
    NeverObserved,
}

/// The state shown to the user.
#[derive(Debug, Clone, Copy, PartialEq, Eq, Structural)]
pub enum EffectiveState {
    /// Running and observed as able to take jobs; not a reservation.
    Ready,
    Busy,
    /// Running locally but not seen by GitHub.
    Disconnected,
    /// Stopped locally while GitHub still reports idle; never shown green.
    Reconciling,
    /// Observation itself is impossible (for example an expired credential);
    /// the runner is not declared dead.
    MonitoringUnavailable,
    /// Backends of one node disagree.
    Partial,
    Unknown,
}

/// Kind of scope.
#[derive(Debug, Clone, Copy, PartialEq, Eq, Structural)]
pub enum ScopeKind {
    Repo,
    Org,
}

/// Everything observed about one runner.
#[derive(Debug, Clone, PartialEq, Eq)]
pub struct RunnerObservation {
    pub runner_id: RunnerId,
    pub backend_id: BackendId,
    pub scope_id: ScopeId,
    pub desired: DesiredState,
    pub local: LocalRuntime,
    pub local_freshness: ObservationFreshness,
    pub remote_presence: RemotePresence,
    pub remote_availability: RemoteAvailability,
    pub remote_freshness: ObservationFreshness,
    /// Why observation failed, kept as is.
    pub remote_error_code: Option<ErrorCode>,
    /// GitHub's runner ID; `None` until registration completes.
    pub remote_runner_id: Option<DecimalU64>,
    /// Last successful observation; `None` if there never was one.
    pub verified_at: Option<Timestamp>,
    /// Last known value shown beside a stale state.
    pub last_known_availability: Option<RemoteAvailability>,
    pub effective: EffectiveState,
}

/// A node and its runners. Carries no secret.
#[derive(Debug, Clone, PartialEq, Eq)]
pub struct NodeSnapshot {
    pub node_id: NodeId,
    pub display_name: String,
    /// Revision for optimistic locking, matched against `expectedRevision`.
    pub revision: DecimalU64,
    pub runners: Vec<RunnerObservation>,
    /// The node as a whole; `Partial` when only some backends succeed.
    pub effective: EffectiveState,
    pub observed_at: Timestamp,
}

/// Display view of a credential reference; never the secret.
#[derive(Debug, Clone, PartialEq, Eq)]
pub struct CredentialRefView {
    pub credential_ref_id: CredentialRefId,
    /// Purpose; local management and workflow monitoring are not mixed up.
    pub purpose: String,
    pub permission_summary: Vec<String>,
    pub expires_at: Option<Timestamp>,
}

/// Kind of operation.
#[derive(Debug, Clone, Copy, PartialEq, Eq, Structural)]
pub enum OperationKind {
    NodeStart,
    NodeStop,
    NodeForceStop,
    RunnerCreate,
    RunnerRemove,
}

/// Progress of an operation.
#[derive(Debug, Clone, Copy, PartialEq, Eq, Structural)]
pub enum OperationPhase {
    Requested,
    Preflight,
    Preparing,
    Registering,
    Starting,
    Verifying,
    FreshHealthCheck,
    /// Not a strict drain: a new job may still be assigned.
    WaitingForIdle,
    RequiresForceConfirmation,
    StopSignal,
    VerifyExit,
    Succeeded,
    /// Only part succeeded; the succeeded part is not removed.
    Partial,
    Failed,
    Canceled,
}

/// Phases from which an operation never moves on.
pub open spec fn spec_is_terminal(phase: OperationPhase) -> bool {
    match phase {
        OperationPhase::Succeeded | OperationPhase::Partial | OperationPhase::Failed
        | OperationPhase::Canceled => true,
        _ => false,
    }
}

/// The final phases are exactly `Succeeded`, `Partial`, `Failed` and
/// `Canceled`; an operation in any other phase is still in progress.
pub proof fn lemma_final_phases(phase: OperationPhase)
    ensures
        spec_is_terminal(phase) <==> (phase == OperationPhase::Succeeded || phase
            == OperationPhase::Partial || phase == OperationPhase::Failed || phase
            == OperationPhase::Canceled),
{
}

impl OperationPhase {
    /// Whether the phase is final.
    pub fn is_terminal(self) -> (r: bool)
        ensures
            r == spec_is_terminal(self),
    {
        match self {
            OperationPhase::Succeeded | OperationPhase::Partial | OperationPhase::Failed
            | OperationPhase::Canceled => true,
            _ => false,
        }
    }
}

/// Observation of an operation.
#[derive(Debug, Clone, PartialEq, Eq)]
pub struct OperationSnapshot {
    pub operation_id: OperationId,
    pub kind: OperationKind,
    pub phase: OperationPhase,
    /// The node or runner acted on.
    pub target_id: String,
    pub started_at: Timestamp,
    pub finished_at: Option<Timestamp>,
    /// Per-step failures; a partial failure is not hidden.
    pub failures: Vec<OperationFailure>,
}

/// One failure inside an operation.
#[derive(Debug, Clone, PartialEq, Eq)]
pub struct OperationFailure {
    pub backend_id: Option<BackendId>,
    pub code: ErrorCode,
    pub message_key: String,
}

/// Body of `node.start` and `node.stop`.
#[derive(Debug, Clone, PartialEq, Eq)]
pub struct NodeOperationRequest {
    pub node_id: NodeId,
    /// Revision of the snapshot last read; a mismatch is `REVISION_CONFLICT`.
    pub expected_revision: DecimalU64,
}

/// Body of `node.forceStop`; the confirmation challenge is mandatory.
#[derive(Debug, Clone, PartialEq, Eq)]
pub struct ForceStopRequest {
    pub node_id: NodeId,
    pub expected_revision: DecimalU64,
    /// Answer to the challenge the UI showed; `None` is never accepted.
    pub confirmation: Option<String>,
}

/// A request was accepted; not that it completed.
#[derive(Debug, Clone, PartialEq, Eq)]
pub struct OperationAccepted {
    pub operation_id: OperationId,
    pub accepted: bool,
    /// `true` when a resend with the same `requestId` converged on an
    /// existing operation.
    pub deduplicated: bool,
}

/// Body of a `system.handshake` request: the caller's self-description.
#[derive(Debug, Clone, PartialEq, Eq)]
pub struct HandshakeRequest {
    pub protocol_major: u32,
    pub implementation_version: String,
}

/// Reply to a handshake.
#[derive(Debug, Clone, PartialEq, Eq)]
pub struct HandshakeResult {
    pub protocol_major: u32,
    pub implementation_version: String,
    pub agent_generation: AgentGeneration,
    pub capabilities: Vec<String>,
}

/// What the desktop shell reports: the handshake and the current snapshot.
#[derive(Debug, Clone, PartialEq, Eq)]
pub struct AgentStatus {
    pub handshake: HandshakeResult,
    pub snapshot: NodeSnapshot,
}

} // verus!
