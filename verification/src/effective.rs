//! The effective state shown to the user, as a function of the observations.
//!
//! The point of this module is that a stale, unknown or failed observation
//! never shows green (`Ready`).

use vstd::prelude::*;
use crate::dto::{
    EffectiveState, LocalRuntime, ObservationFreshness, RemoteAvailability,
};
use crate::error::ErrorCode;

verus! {

/// Everything the effective state is decided from.
#[derive(Debug, Clone, Copy, PartialEq, Eq)]
pub struct EffectiveInput {
    pub local: LocalRuntime,
    pub local_freshness: ObservationFreshness,
    pub remote_availability: RemoteAvailability,
    pub remote_freshness: ObservationFreshness,
    /// Why the remote observation failed, as is.
    pub remote_error_code: Option<ErrorCode>,
    /// Last known remote value before freshness was lost.
    pub last_known_availability: Option<RemoteAvailability>,
}

/// A contradiction shown beside the state, without changing it.
#[derive(Debug, Clone, Copy, PartialEq, Eq, Structural)]
pub enum Conflict {
    /// GitHub reports busy while the local process is lost.
    BusyWhileLocalNotRunning,
    /// The local process is stopped while GitHub still reports idle.
    LocalStoppedWhileRemoteIdle,
}

/// The verdict and the values shown beside it.
#[derive(Debug, Clone, Copy, PartialEq, Eq)]
pub struct EffectiveVerdict {
    pub state: EffectiveState,
    pub conflict: Option<Conflict>,
    /// Last known value, shown beside `Unknown`.
    pub last_known_availability: Option<RemoteAvailability>,
}

/// The local state as far as it can be trusted: an observation that is not
/// fresh says nothing about the present.
pub open spec fn trusted_local(input: EffectiveInput) -> LocalRuntime {
    if input.local_freshness == ObservationFreshness::Fresh {
        input.local
    } else {
        LocalRuntime::Unknown
    }
}

pub open spec fn verdict(
    state: EffectiveState,
    conflict: Option<Conflict>,
    input: EffectiveInput,
) -> EffectiveVerdict {
    EffectiveVerdict { state, conflict, last_known_availability: input.last_known_availability }
}

/// The table of effective states:
///
/// | condition                                  | state                 |
/// |--------------------------------------------|-----------------------|
/// | local running, credential expired          | MonitoringUnavailable |
/// | remote not fresh, or remote unknown        | Unknown               |
/// | fresh busy (local lost: with a conflict)   | Busy                  |
/// | local running, fresh idle                  | Ready                 |
/// | local running, fresh offline               | Disconnected          |
/// | local stopped, fresh idle (with conflict)  | Reconciling           |
/// | anything else                              | Unknown               |
pub open spec fn spec_evaluate_runner(input: EffectiveInput) -> EffectiveVerdict {
    let local = trusted_local(input);
    if input.remote_error_code == Some(ErrorCode::AuthExpired) && local == LocalRuntime::Running {
        verdict(EffectiveState::MonitoringUnavailable, None, input)
    } else if input.remote_freshness != ObservationFreshness::Fresh
        || input.remote_availability == RemoteAvailability::Unknown {
        verdict(EffectiveState::Unknown, None, input)
    } else {
        match (local, input.remote_availability) {
            (LocalRuntime::Lost, RemoteAvailability::OnlineBusy) => verdict(
                EffectiveState::Busy,
                Some(Conflict::BusyWhileLocalNotRunning),
                input,
            ),
            (_, RemoteAvailability::OnlineBusy) => verdict(EffectiveState::Busy, None, input),
            (LocalRuntime::Running, RemoteAvailability::OnlineIdle) => verdict(
                EffectiveState::Ready,
                None,
                input,
            ),
            (LocalRuntime::Running, RemoteAvailability::Offline) => verdict(
                EffectiveState::Disconnected,
                None,
                input,
            ),
            (LocalRuntime::Stopped, RemoteAvailability::OnlineIdle) => verdict(
                EffectiveState::Reconciling,
                Some(Conflict::LocalStoppedWhileRemoteIdle),
                input,
            ),
            _ => verdict(EffectiveState::Unknown, None, input),
        }
    }
}

/// Decides the effective state of one runner.
pub fn evaluate_runner(input: &EffectiveInput) -> (r: EffectiveVerdict)
    ensures
        r == spec_evaluate_runner(*input),
{
    let fallback = input.last_known_availability;
    let local = if input.local_freshness == ObservationFreshness::Fresh {
        input.local
    } else {
        LocalRuntime::Unknown
    };

    // Losing the means of observation is looked at first; the runner is not
    // declared dead.
    if input.remote_error_code == Some(ErrorCode::AuthExpired) && local == LocalRuntime::Running {
        return EffectiveVerdict {
            state: EffectiveState::MonitoringUnavailable,
            conflict: None,
            last_known_availability: fallback,
        };
    }

    // An old observation or an unknown value is not a present fact.
    if input.remote_freshness != ObservationFreshness::Fresh || input.remote_availability
        == RemoteAvailability::Unknown {
        return EffectiveVerdict {
            state: EffectiveState::Unknown,
            conflict: None,
            last_known_availability: fallback,
        };
    }

    match (local, input.remote_availability) {
        (LocalRuntime::Lost, RemoteAvailability::OnlineBusy) => EffectiveVerdict {
            state: EffectiveState::Busy,
            conflict: Some(Conflict::BusyWhileLocalNotRunning),
            last_known_availability: fallback,
        },
        (_, RemoteAvailability::OnlineBusy) => EffectiveVerdict {
            state: EffectiveState::Busy,
            conflict: None,
            last_known_availability: fallback,
        },
        (LocalRuntime::Running, RemoteAvailability::OnlineIdle) => EffectiveVerdict {
            state: EffectiveState::Ready,
            conflict: None,
            last_known_availability: fallback,
        },
        (LocalRuntime::Running, RemoteAvailability::Offline) => EffectiveVerdict {
            state: EffectiveState::Disconnected,
            conflict: None,
            last_known_availability: fallback,
        },
        (LocalRuntime::Stopped, RemoteAvailability::OnlineIdle) => EffectiveVerdict {
            // Waiting for GitHub to catch up, or the PID was not tracked; not green.
            state: EffectiveState::Reconciling,
            conflict: Some(Conflict::LocalStoppedWhileRemoteIdle),
            last_known_availability: fallback,
        },
        _ => EffectiveVerdict {
            state: EffectiveState::Unknown,
            conflict: None,
            last_known_availability: fallback,
        },
    }
}

/// Green is shown only for a fresh local `Running` together with a fresh
/// remote `OnlineIdle`; anything stale, unknown or failed is not green.
pub proof fn lemma_ready_only_on_fresh_idle(input: EffectiveInput)
    ensures
        spec_evaluate_runner(input).state == EffectiveState::Ready <==> (
            input.local == LocalRuntime::Running
            && input.local_freshness == ObservationFreshness::Fresh
            && input.remote_freshness == ObservationFreshness::Fresh
            && input.remote_availability == RemoteAvailability::OnlineIdle
            && input.remote_error_code != Some(ErrorCode::AuthExpired)),
        spec_evaluate_runner(input).last_known_availability == input.last_known_availability,
        input.remote_freshness != ObservationFreshness::Fresh ==> spec_evaluate_runner(input).state
            == EffectiveState::Unknown || spec_evaluate_runner(input).state
            == EffectiveState::MonitoringUnavailable,
{
}

/// States that count as running normally.
pub open spec fn spec_is_healthy(state: EffectiveState) -> bool {
    state == EffectiveState::Ready || state == EffectiveState::Busy
}

fn is_healthy(state: EffectiveState) -> (r: bool)
    ensures
        r == spec_is_healthy(state),
{
    match state {
        EffectiveState::Ready | EffectiveState::Busy => true,
        _ => false,
    }
}

/// The state of a node from those of its runners: `Unknown` with no runners;
/// the common state when all agree; a mix of `Ready` and `Busy` is `Ready` if
/// any is `Ready`; any other mix is `Partial`.
pub open spec fn spec_aggregate_node(states: Seq<EffectiveState>) -> EffectiveState {
    if states.len() == 0 {
        EffectiveState::Unknown
    } else if forall|i: int| 0 <= i < states.len() ==> #[trigger] states[i] == states[0] {
        states[0]
    } else if forall|i: int| 0 <= i < states.len() ==> spec_is_healthy(#[trigger] states[i]) {
        if states.contains(EffectiveState::Ready) {
            EffectiveState::Ready
        } else {
            EffectiveState::Busy
        }
    } else {
        EffectiveState::Partial
    }
}

/// Decides the state of a node from its runners; a node where only some
/// backends succeed is never reported as a success.
pub fn aggregate_node(runner_states: &[EffectiveState]) -> (r: EffectiveState)
    ensures
        r == spec_aggregate_node(runner_states@),
{
    let n = runner_states.len();
    if n == 0 {
        return EffectiveState::Unknown;
    }
    let first = runner_states[0];
    let mut all_same = true;
    let mut all_healthy = true;
    let mut any_ready = false;
    let mut i: usize = 0;
    while i < n
        invariant
            n == runner_states@.len(),
            n > 0,
            first == runner_states@[0],
            i <= n,
            all_same == (forall|j: int| 0 <= j < i ==> #[trigger] runner_states@[j] == first),
            all_healthy == (forall|j: int| 0 <= j < i ==> spec_is_healthy(#[trigger] runner_states@[j])),
            any_ready == (exists|j: int| 0 <= j < i && runner_states@[j] == EffectiveState::Ready),
        decreases n - i,
    {
        let s = runner_states[i];
        if s != first {
            all_same = false;
        }
        if !is_healthy(s) {
            all_healthy = false;
        }
        if s == EffectiveState::Ready {
            any_ready = true;
        }
        i = i + 1;
    }
    if all_same {
        return first;
    }
    if all_healthy {
        proof {
            if any_ready {
                let j = choose|j: int| 0 <= j < n && runner_states@[j] == EffectiveState::Ready;
                assert(runner_states@.contains(EffectiveState::Ready));
            } else {
                assert(!runner_states@.contains(EffectiveState::Ready));
            }
        }
        return if any_ready {
            EffectiveState::Ready
        } else {
            EffectiveState::Busy
        };
    }
    EffectiveState::Partial
}

/// A node shown as running normally has only runners that run normally, and
/// a node holding a `Ready` runner together with one that is not healthy is
/// `Partial`.
pub proof fn lemma_healthy_node_has_healthy_runners(states: Seq<EffectiveState>)
    ensures
        spec_is_healthy(spec_aggregate_node(states)) ==> forall|i: int|
            0 <= i < states.len() ==> spec_is_healthy(#[trigger] states[i]),
        (exists|i: int| 0 <= i < states.len() && !spec_is_healthy(#[trigger] states[i]))
            && (exists|j: int| 0 <= j < states.len() && spec_is_healthy(#[trigger] states[j]))
            ==> spec_aggregate_node(states) == EffectiveState::Partial,
{
    if states.len() > 0 && forall|i: int| 0 <= i < states.len() ==> #[trigger] states[i] == states[0] {
        assert forall|i: int| 0 <= i < states.len() implies spec_is_healthy(#[trigger] states[i])
            == spec_is_healthy(states[0]) by {}
    }
}

/// A conflict is reported only where the two observations contradict each
/// other: "busy while the local process is lost" exactly for a fresh local
/// `Lost` against a fresh remote `OnlineBusy`, and "stopped while remote
/// idle" exactly for a fresh local `Stopped` against a fresh remote
/// `OnlineIdle`. A runner that is running and busy has no conflict.
pub proof fn lemma_conflicts_only_on_contradictions(input: EffectiveInput)
    ensures
        spec_evaluate_runner(input).conflict == Some(Conflict::BusyWhileLocalNotRunning) <==> (
            input.local_freshness == ObservationFreshness::Fresh
            && input.local == LocalRuntime::Lost
            && input.remote_freshness == ObservationFreshness::Fresh
            && input.remote_availability == RemoteAvailability::OnlineBusy),
        spec_evaluate_runner(input).conflict == Some(Conflict::LocalStoppedWhileRemoteIdle) <==> (
            input.local_freshness == ObservationFreshness::Fresh
            && input.local == LocalRuntime::Stopped
            && input.remote_freshness == ObservationFreshness::Fresh
            && input.remote_availability == RemoteAvailability::OnlineIdle),
        input.local == LocalRuntime::Running ==> spec_evaluate_runner(input).conflict is None,
{
}

/// A runner is shown busy exactly when GitHub freshly reports it busy,
/// unless the credential has expired while the process is known to run.
pub proof fn lemma_busy_follows_a_fresh_busy_report(input: EffectiveInput)
    ensures
        spec_evaluate_runner(input).state == EffectiveState::Busy <==> (
            input.remote_freshness == ObservationFreshness::Fresh
            && input.remote_availability == RemoteAvailability::OnlineBusy
            && !(input.remote_error_code == Some(ErrorCode::AuthExpired)
                && input.local_freshness == ObservationFreshness::Fresh
                && input.local == LocalRuntime::Running)),
{
}

/// Runners that all agree on a state give the node that state.
pub proof fn lemma_agreeing_runners_give_their_state(states: Seq<EffectiveState>, state: EffectiveState)
    requires
        states.len() > 0,
        forall|i: int| 0 <= i < states.len() ==> #[trigger] states[i] == state,
    ensures
        spec_aggregate_node(states) == state,
{
    assert(states[0] == state);
}

/// The state of a node, from its runners' states whatever their order: no
/// runners is `Unknown`; runners that are all `Ready` or `Busy` give `Ready` as soon as one is
/// `Ready`; and a node with a runner that is neither `Ready` nor `Busy`,
/// whose runners do not all agree, is `Partial`.
pub proof fn lemma_node_state_from_runner_states(states: Seq<EffectiveState>)
    ensures
        states.len() == 0 ==> spec_aggregate_node(states) == EffectiveState::Unknown,
        (forall|i: int|
            0 <= i < states.len() ==> #[trigger] states[i] == EffectiveState::Ready || states[i]
                == EffectiveState::Busy) && (exists|k: int|
            0 <= k < states.len() && #[trigger] states[k] == EffectiveState::Ready)
            ==> spec_aggregate_node(states) == EffectiveState::Ready,
        (exists|k: int|
            0 <= k < states.len() && #[trigger] states[k] != EffectiveState::Ready && states[k]
                != EffectiveState::Busy) && (exists|a: int, b: int|
            0 <= a < states.len() && 0 <= b < states.len() && #[trigger] states[a] != #[trigger] states[b])
            ==> spec_aggregate_node(states) == EffectiveState::Partial,
{
    if (forall|i: int|
        0 <= i < states.len() ==> #[trigger] states[i] == EffectiveState::Ready || states[i]
            == EffectiveState::Busy) && (exists|k: int|
        0 <= k < states.len() && #[trigger] states[k] == EffectiveState::Ready) {
        let k = choose|k: int| 0 <= k < states.len() && #[trigger] states[k] == EffectiveState::Ready;
        assert(states.contains(EffectiveState::Ready));
        if forall|i: int| 0 <= i < states.len() ==> #[trigger] states[i] == states[0] {
            assert(states[k] == states[0]);
        } else {
            assert forall|i: int| 0 <= i < states.len() implies spec_is_healthy(#[trigger] states[i]) by {}
        }
    }
    if (exists|k: int|
        0 <= k < states.len() && #[trigger] states[k] != EffectiveState::Ready && states[k]
            != EffectiveState::Busy) && (exists|a: int, b: int|
        0 <= a < states.len() && 0 <= b < states.len() && #[trigger] states[a] != #[trigger] states[b]) {
        let k = choose|k: int|
            0 <= k < states.len() && #[trigger] states[k] != EffectiveState::Ready && states[k]
                != EffectiveState::Busy;
        let (a, b) = choose|a: int, b: int|
            0 <= a < states.len() && 0 <= b < states.len() && #[trigger] states[a] != #[trigger] states[b];
        assert(!spec_is_healthy(states[k]));
        if forall|i: int| 0 <= i < states.len() ==> #[trigger] states[i] == states[0] {
            assert(states[a] == states[0]);
            assert(states[b] == states[0]);
        }
    }
}

} // verus!
