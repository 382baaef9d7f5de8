//! How the desktop shell turns its failures to reach the Agent into answers
//! for the UI.
//!
//! The shell connects to a running Agent first and starts the bundled one
//! only when nothing listens. The UI hands over only the intent ("connect",
//! "give me the state"); never a path, an argument or a pipe name. A failure
//! reaches the UI as an [`ErrorPayload`] with a machine-readable reason, and
//! carries neither secrets nor OS details.

use vstd::prelude::*;
use crate::client::ClientError;
use crate::error::{ErrorCode, ErrorPayload, is_text_error, text_error};

verus! {

/// The file name of the bundled Agent, looked for next to the shell. It is
/// fixed here, so that the UI can never have another program started.
pub const AGENT_EXECUTABLE: &'static str = "runnerdock-agent.exe";

/// A refusal for the UI: `code`, with the machine-readable `reason`.
pub fn refuse(code: ErrorCode, reason: &str) -> (r: ErrorPayload)
    ensures
        is_text_error(r, code, "reason"@, reason@),
{
    text_error(code, "reason", reason)
}

/// What the UI is told for a failure to reach the Agent. A typed error of
/// the Agent is passed on as it is, never rounded.
pub open spec fn payload_outcome(error: ClientError, r: ErrorPayload) -> bool {
    match error {
        ClientError::Refused(payload) => r == *payload,
        ClientError::Connect(_) => is_text_error(r, ErrorCode::PermissionOrPolicy, "reason"@, "agentNotListening"@),
        ClientError::Io(_) => is_text_error(r, ErrorCode::StatusStale, "reason"@, "agentDisconnected"@),
        ClientError::MalformedResponse => is_text_error(
            r,
            ErrorCode::ProtocolMismatch,
            "reason"@,
            "malformedAgentResponse"@,
        ),
        ClientError::OwnerMismatch => is_text_error(
            r,
            ErrorCode::PermissionOrPolicy,
            "reason"@,
            "agentOwnerMismatch"@,
        ),
        ClientError::TimedOut => is_text_error(r, ErrorCode::StatusStale, "reason"@, "agentTimedOut"@),
    }
}

/// Turns a client failure into the payload for the UI.
pub fn to_payload(error: ClientError) -> (r: ErrorPayload)
    ensures
        payload_outcome(error, r),
{
    match error {
        ClientError::Refused(payload) => *payload,
        ClientError::Connect(_) => refuse(ErrorCode::PermissionOrPolicy, "agentNotListening"),
        ClientError::Io(_) => refuse(ErrorCode::StatusStale, "agentDisconnected"),
        ClientError::MalformedResponse => refuse(ErrorCode::ProtocolMismatch, "malformedAgentResponse"),
        ClientError::OwnerMismatch => refuse(ErrorCode::PermissionOrPolicy, "agentOwnerMismatch"),
        ClientError::TimedOut => refuse(ErrorCode::StatusStale, "agentTimedOut"),
    }
}

/// Why the bundled Agent could not be started.
#[derive(Debug, Clone, Copy, PartialEq, Eq, Structural)]
pub enum StartFailure {
    /// Leaving the shell's job object was not permitted; the Agent is not
    /// started inside it instead.
    BreakawayDenied,
    /// No Agent executable next to the shell.
    BinaryMissing,
    Other,
}

pub open spec fn start_failure_reason(failure: StartFailure) -> Seq<char> {
    match failure {
        StartFailure::BreakawayDenied => "agentBreakawayDenied"@,
        StartFailure::BinaryMissing => "agentBinaryMissing"@,
        StartFailure::Other => "agentStartFailed"@,
    }
}

/// The refusal for an Agent that could not be started.
pub fn start_refusal(failure: StartFailure) -> (r: ErrorPayload)
    ensures
        is_text_error(r, ErrorCode::PermissionOrPolicy, "reason"@, start_failure_reason(failure)),
{
    let reason = match failure {
        StartFailure::BreakawayDenied => "agentBreakawayDenied",
        StartFailure::BinaryMissing => "agentBinaryMissing",
        StartFailure::Other => "agentStartFailed",
    };
    refuse(ErrorCode::PermissionOrPolicy, reason)
}

/// What follows a failed first connection.
#[derive(Debug)]
pub enum AfterConnect {
    /// Nothing listens: start the bundled Agent, then connect again.
    StartAgent,
    /// Give up with this payload.
    Fail(ErrorPayload),
}

/// Only a pipe that cannot be opened starts the Agent; any other failure,
/// an owner mismatch above all, is reported without starting anything.
pub fn after_failed_connect(error: ClientError) -> (r: AfterConnect)
    ensures
        error is Connect ==> r is StartAgent,
        !(error is Connect) ==> (r matches AfterConnect::Fail(p) && payload_outcome(error, p)),
{
    match error {
        ClientError::Connect(_) => AfterConnect::StartAgent,
        other => AfterConnect::Fail(to_payload(other)),
    }
}

/// The refusal when the user's SID cannot be read.
pub fn sid_unavailable() -> (r: ErrorPayload)
    ensures
        is_text_error(r, ErrorCode::PermissionOrPolicy, "reason"@, "sidUnavailable"@),
{
    refuse(ErrorCode::PermissionOrPolicy, "sidUnavailable")
}

/// The refusal when a started Agent never starts listening.
pub fn not_listening() -> (r: ErrorPayload)
    ensures
        is_text_error(r, ErrorCode::PermissionOrPolicy, "reason"@, "agentNotListening"@),
{
    refuse(ErrorCode::PermissionOrPolicy, "agentNotListening")
}

/// The refusal on an OS where no Agent exists.
pub fn unsupported_platform() -> (r: ErrorPayload)
    ensures
        is_text_error(r, ErrorCode::PermissionOrPolicy, "reason"@, "unsupportedPlatform"@),
{
    refuse(ErrorCode::PermissionOrPolicy, "unsupportedPlatform")
}

} // verus!
