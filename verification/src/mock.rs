//! A mock backend with a fixed seed.
//!
//! It reproduces the fixtures the developer guide asks for (Idle, Busy,
//! Offline, Unknown, Stale, Creating, PartialFailure, RateLimited,
//! ReauthenticationRequired) without network, credentials, a GitHub App or a
//! real runner.
//!
//! A remote observation is held as the members of a GitHub REST runner
//! object, not as an enum decided in advance, and goes through
//! [`crate::remote`]: in the mock too, a missing or mistyped `busy` becomes
//! `Unknown` on the same path as in production.
//!
//! Nothing falls back from the mock to the real GitHub.

use vstd::prelude::*;
use crate::backend::BackendKind;
use crate::clock::{FixedClock, UnixMillis, spec_rfc3339};
use crate::dto::{
    DesiredState, EffectiveState, LocalRuntime, NodeSnapshot, ObservationFreshness,
    OperationAccepted, OperationKind, OperationPhase, RemoteAvailability, RemotePresence,
    RunnerObservation,
};
use crate::effective::{EffectiveInput, aggregate_node, evaluate_runner, spec_aggregate_node, spec_evaluate_runner};
use crate::error::{ErrorCode, ErrorPayload};
use crate::events::SequenceSource;
use crate::freshness::{ObservationTarget, VerifiedAt, age_fits, evaluate, spec_evaluate};
use crate::ids::{AgentGeneration, BackendId, DecimalU64, NodeId, RequestId, RunnerId, ScopeId};
use crate::message::{Event, EventKind, EventPayload};
use crate::operation::{
    first_operation, ForceStopChallenge, OperationRequest, OperationStore, StopReadiness, StoreModel, challenge_for,
    first_request, has_challenge, has_request, op_id_text, submit_post,
};
use crate::remote::{
    JsonMember, MemberView, RunnerObject, RunnerObjectView, spec_object_availability,
    spec_object_remote_id, spec_unrecognized_status,
};
use crate::text::{padded_hex, push_padded_hex, wrap64};

verus! {

/// A situation the mock reproduces.
#[derive(Debug, Clone, Copy, PartialEq, Eq, Structural)]
pub enum MockScenario {
    Idle,
    Busy,
    Offline,
    Unknown,
    Stale,
    Creating,
    PartialFailure,
    RateLimited,
    ReauthenticationRequired,
}

pub open spec fn spec_all_scenarios() -> Seq<MockScenario> {
    seq![
        MockScenario::Idle,
        MockScenario::Busy,
        MockScenario::Offline,
        MockScenario::Unknown,
        MockScenario::Stale,
        MockScenario::Creating,
        MockScenario::PartialFailure,
        MockScenario::RateLimited,
        MockScenario::ReauthenticationRequired,
    ]
}

impl MockScenario {
    /// Every situation that must be reproducible.
    pub fn all() -> (r: Vec<MockScenario>)
        ensures
            r@ == spec_all_scenarios(),
    {
        let r = vec![
            MockScenario::Idle,
            MockScenario::Busy,
            MockScenario::Offline,
            MockScenario::Unknown,
            MockScenario::Stale,
            MockScenario::Creating,
            MockScenario::PartialFailure,
            MockScenario::RateLimited,
            MockScenario::ReauthenticationRequired,
        ];
        proof {
            assert(r@ =~= spec_all_scenarios());
        }
        r
    }
}

/// The base instant of the mock (2026-09-20T00:00:00Z); no seed moves it.
pub const BASE_INSTANT_MILLIS: i64 = 1_789_862_400_000;

/// How far before the base instant the stale fixture was last observed:
/// past the 90-second threshold of a shown GUI, not merely one interval.
pub const STALE_AGE_MILLIS: i64 = 120_000;

/// One SplitMix64 step; identifiers are derived from the seed with it.
pub open spec fn spec_mix(seed: u64) -> u64 {
    let z1 = wrap64(seed as nat + 0x9e37_79b9_7f4a_7c15);
    let z2 = wrap64((z1 ^ (z1 >> 30u64)) as nat * 0xbf58_476d_1ce4_e5b9);
    let z3 = wrap64((z2 ^ (z2 >> 27u64)) as nat * 0x94d0_49bb_1331_11eb);
    z3 ^ (z3 >> 31u64)
}

/// One SplitMix64 step.
pub fn mix(seed: u64) -> (r: u64)
    ensures
        r == spec_mix(seed),
{
    let z1 = seed.wrapping_add(0x9e37_79b9_7f4a_7c15);
    let z2 = (z1 ^ (z1 >> 30)).wrapping_mul(0xbf58_476d_1ce4_e5b9);
    let z3 = (z2 ^ (z2 >> 27)).wrapping_mul(0x94d0_49bb_1331_11eb);
    proof {
        assert(z1 == wrap64(seed as nat + 0x9e37_79b9_7f4a_7c15));
    }
    z3 ^ (z3 >> 31)
}

/// The low sixteen bits of a mixed value, for four-digit identifiers.
pub open spec fn low16(x: u64) -> nat {
    (x % 0x1_0000) as nat
}

pub open spec fn spec_kind_salt(kind: BackendKind) -> u64 {
    match kind {
        BackendKind::NativeWindows => 0x7769_6e00,
        BackendKind::Wsl => 0x7773_6c00,
    }
}

/// Distinguishes the backends of one seed.
pub fn kind_salt(kind: BackendKind) -> (r: u64)
    ensures
        r == spec_kind_salt(kind),
{
    match kind {
        BackendKind::NativeWindows => 0x7769_6e00,
        BackendKind::Wsl => 0x7773_6c00,
    }
}

/// GitHub's runner ID in the fixtures. Each backend has its own, so that two
/// runners of one scope never share a remote ID (the store keys runners by
/// scope and remote ID).
pub open spec fn spec_remote_id_for(kind: BackendKind) -> u64 {
    match kind {
        BackendKind::NativeWindows => 41,
        BackendKind::Wsl => 42,
    }
}

pub fn remote_id_for(kind: BackendKind) -> (r: u64)
    ensures
        r == spec_remote_id_for(kind),
{
    match kind {
        BackendKind::NativeWindows => 41,
        BackendKind::Wsl => 42,
    }
}

pub open spec fn kind_label(kind: BackendKind) -> Seq<char> {
    match kind {
        BackendKind::NativeWindows => "windows"@,
        BackendKind::Wsl => "wsl"@,
    }
}

/// `node-` and four hex digits of the mixed seed.
pub open spec fn spec_node_id(seed: u64) -> Seq<char> {
    "node-"@ + padded_hex(low16(spec_mix(seed ^ 0x6e6f_6465)), 4)
}

/// The generation: the mixed seed in hex, at least eight digits.
pub open spec fn spec_generation(seed: u64) -> Seq<char> {
    padded_hex(spec_mix(seed) as nat, 8)
}

pub open spec fn spec_runner_suffix(seed: u64, kind: BackendKind) -> Seq<char> {
    padded_hex(low16(spec_mix(seed ^ spec_kind_salt(kind))), 4)
}

pub open spec fn spec_scope_id(seed: u64) -> Seq<char> {
    "scope-"@ + padded_hex(low16(spec_mix(seed ^ 0x7363_6f70)), 4)
}

/// A GitHub REST runner object as the mock holds it.
pub open spec fn object_view(id: u64, status: Seq<char>, busy: MemberView) -> RunnerObjectView {
    RunnerObjectView { id: MemberView::Unsigned(id), status: MemberView::Str(status), busy }
}

pub open spec fn spec_online(kind: BackendKind, busy: bool) -> RunnerObjectView {
    object_view(spec_remote_id_for(kind), "online"@, MemberView::Bool(busy))
}

pub open spec fn spec_offline(kind: BackendKind) -> RunnerObjectView {
    object_view(spec_remote_id_for(kind), "offline"@, MemberView::Bool(false))
}

/// `{"id": <id>, "status": "online", "busy": <busy>}`.
fn online(kind: BackendKind, busy: bool) -> (r: RunnerObject)
    ensures
        r@ == spec_online(kind, busy),
{
    RunnerObject {
        id: JsonMember::Unsigned(remote_id_for(kind)),
        status: JsonMember::Str(String::from_str("online")),
        busy: JsonMember::Bool(busy),
    }
}

/// `{"id": <id>, "status": "offline", "busy": false}`.
fn offline(kind: BackendKind) -> (r: RunnerObject)
    ensures
        r@ == spec_offline(kind),
{
    RunnerObject {
        id: JsonMember::Unsigned(remote_id_for(kind)),
        status: JsonMember::Str(String::from_str("offline")),
        busy: JsonMember::Bool(false),
    }
}

/// What the mock keeps about one runner: the material an observation is
/// built from.
#[derive(Debug, Clone)]
pub struct MockRunner {
    pub runner_id: RunnerId,
    pub backend_id: BackendId,
    pub scope_id: ScopeId,
    pub desired: DesiredState,
    pub local: LocalRuntime,
    pub local_verified: VerifiedAt,
    /// The GitHub REST runner object; `None` when never observed.
    pub remote_object: Option<RunnerObject>,
    pub remote_verified: VerifiedAt,
    pub remote_error: Option<ErrorCode>,
    pub remote_runner_id: Option<DecimalU64>,
    pub last_known_availability: Option<RemoteAvailability>,
}

pub struct MockRunnerView {
    pub runner_id: Seq<char>,
    pub backend_id: Seq<char>,
    pub scope_id: Seq<char>,
    pub desired: DesiredState,
    pub local: LocalRuntime,
    pub local_verified: Option<UnixMillis>,
    pub remote_object: Option<RunnerObjectView>,
    pub remote_verified: Option<UnixMillis>,
    pub remote_error: Option<ErrorCode>,
    pub remote_runner_id: Option<u64>,
    pub last_known_availability: Option<RemoteAvailability>,
}

impl View for MockRunner {
    type V = MockRunnerView;

    open spec fn view(&self) -> MockRunnerView {
        MockRunnerView {
            runner_id: self.runner_id.0@,
            backend_id: self.backend_id.0@,
            scope_id: self.scope_id.0@,
            desired: self.desired,
            local: self.local,
            local_verified: self.local_verified@,
            remote_object: match self.remote_object {
                Some(o) => Some(o@),
                None => None,
            },
            remote_verified: self.remote_verified@,
            remote_error: self.remote_error,
            remote_runner_id: match self.remote_runner_id {
                Some(d) => Some(d.0),
                None => None,
            },
            last_known_availability: self.last_known_availability,
        }
    }
}

/// A running runner observed locally at `base` and never remotely.
pub open spec fn spec_base_runner(seed: u64, kind: BackendKind, base: UnixMillis) -> MockRunnerView {
    let suffix = spec_runner_suffix(seed, kind);
    MockRunnerView {
        runner_id: "runner-"@ + kind_label(kind) + "-"@ + suffix,
        backend_id: "backend-"@ + kind_label(kind) + "-"@ + suffix,
        scope_id: spec_scope_id(seed),
        desired: DesiredState::Running,
        local: LocalRuntime::Running,
        local_verified: Some(base),
        remote_object: None,
        remote_verified: None,
        remote_error: None,
        remote_runner_id: None,
        last_known_availability: None,
    }
}

/// The runner with a remote object observed at `at`.
pub open spec fn spec_with_remote(r: MockRunnerView, object: RunnerObjectView, at: UnixMillis) -> MockRunnerView {
    MockRunnerView {
        remote_object: Some(object),
        remote_verified: Some(at),
        remote_runner_id: spec_object_remote_id(object.id),
        ..r
    }
}

/// Observed successfully but long ago; the last known value stays beside it.
pub open spec fn spec_stale(r: MockRunnerView) -> MockRunnerView {
    MockRunnerView { last_known_availability: Some(RemoteAvailability::OnlineIdle), ..r }
}

pub open spec fn spec_failing(r: MockRunnerView, code: ErrorCode) -> MockRunnerView {
    MockRunnerView {
        remote_error: Some(code),
        last_known_availability: Some(RemoteAvailability::OnlineIdle),
        ..r
    }
}

/// The two runners (Windows and WSL) of each situation.
pub open spec fn spec_build_runners(seed: u64, scenario: MockScenario, base: UnixMillis) -> Seq<MockRunnerView> {
    let windows = spec_base_runner(seed, BackendKind::NativeWindows, base);
    let wsl = spec_base_runner(seed, BackendKind::Wsl, base);
    let w = BackendKind::NativeWindows;
    let l = BackendKind::Wsl;
    match scenario {
        MockScenario::Idle => seq![
            spec_with_remote(windows, spec_online(w, false), base),
            spec_with_remote(wsl, spec_online(l, false), base),
        ],
        MockScenario::Busy => seq![
            spec_with_remote(windows, spec_online(w, true), base),
            spec_with_remote(wsl, spec_online(l, true), base),
        ],
        MockScenario::Offline => seq![
            spec_with_remote(windows, spec_offline(w), base),
            spec_with_remote(wsl, spec_offline(l), base),
        ],
        MockScenario::Unknown => seq![
            spec_with_remote(
                windows,
                object_view(spec_remote_id_for(w), "online"@, MemberView::Missing),
                base,
            ),
            spec_with_remote(
                wsl,
                object_view(spec_remote_id_for(l), "online"@, MemberView::Str("false"@)),
                base,
            ),
        ],
        MockScenario::Stale => {
            let old = UnixMillis((base.0 - STALE_AGE_MILLIS) as i64);
            seq![
                spec_stale(spec_with_remote(windows, spec_online(w, false), old)),
                spec_stale(spec_with_remote(wsl, spec_online(l, false), old)),
            ]
        },
        MockScenario::Creating => seq![
            MockRunnerView { local: LocalRuntime::Starting, desired: DesiredState::Running, ..windows },
            MockRunnerView {
                local: LocalRuntime::NotProvisioned,
                desired: DesiredState::Running,
                ..wsl
            },
        ],
        MockScenario::PartialFailure => seq![
            spec_with_remote(windows, spec_online(w, false), base),
            MockRunnerView {
                local: LocalRuntime::Error,
                remote_error: Some(ErrorCode::WslGuestUnreachable),
                ..wsl
            },
        ],
        MockScenario::RateLimited => seq![
            spec_failing(spec_with_remote(windows, spec_online(w, false), base), ErrorCode::RateLimited),
            spec_failing(spec_with_remote(wsl, spec_online(l, false), base), ErrorCode::RateLimited),
        ],
        MockScenario::ReauthenticationRequired => seq![
            spec_failing(spec_with_remote(windows, spec_online(w, false), base), ErrorCode::AuthExpired),
            spec_failing(spec_with_remote(wsl, spec_online(l, false), base), ErrorCode::AuthExpired),
        ],
    }
}

fn label_of(kind: BackendKind) -> (r: &'static str)
    ensures
        r@ == kind_label(kind),
{
    match kind {
        BackendKind::NativeWindows => "windows",
        BackendKind::Wsl => "wsl",
    }
}

/// `<prefix><label>-<suffix>`.
fn labelled_id(prefix: &str, label: &str, suffix: u64) -> (r: String)
    ensures
        r@ == prefix@ + label@ + "-"@ + padded_hex(suffix as nat, 4),
{
    let mut out = String::from_str(prefix);
    out.append(label);
    out.append("-");
    push_padded_hex(&mut out, suffix, 4);
    out
}

/// `<prefix>` and four hex digits.
fn hex4_id(prefix: &str, value: u64) -> (r: String)
    ensures
        r@ == prefix@ + padded_hex(value as nat, 4),
{
    let mut out = String::from_str(prefix);
    push_padded_hex(&mut out, value, 4);
    out
}

fn base_runner(seed: u64, kind: BackendKind, base: UnixMillis) -> (r: MockRunner)
    ensures
        r@ == spec_base_runner(seed, kind, base),
{
    let suffix = mix(seed ^ kind_salt(kind)) & 0xffff;
    proof {
        let x = spec_mix(seed ^ spec_kind_salt(kind));
        assert(x & 0xffff == x % 0x1_0000) by (bit_vector);
    }
    let label = label_of(kind);
    let scope = mix(seed ^ 0x7363_6f70) & 0xffff;
    proof {
        let x = spec_mix(seed ^ 0x7363_6f70);
        assert(x & 0xffff == x % 0x1_0000) by (bit_vector);
    }
    MockRunner {
        runner_id: RunnerId(labelled_id("runner-", label, suffix)),
        backend_id: BackendId(labelled_id("backend-", label, suffix)),
        scope_id: ScopeId(hex4_id("scope-", scope)),
        desired: DesiredState::Running,
        local: LocalRuntime::Running,
        local_verified: VerifiedAt::at(base),
        remote_object: None,
        remote_verified: VerifiedAt::never(),
        remote_error: None,
        remote_runner_id: None,
        last_known_availability: None,
    }
}

fn with_remote(runner: MockRunner, object: RunnerObject, verified_at: UnixMillis) -> (r: MockRunner)
    ensures
        r@ == spec_with_remote(runner@, object@, verified_at),
{
    let mut r = runner;
    r.remote_runner_id = object.remote_id();
    r.remote_object = Some(object);
    r.remote_verified = VerifiedAt::at(verified_at);
    r
}

fn stale(runner: MockRunner) -> (r: MockRunner)
    ensures
        r@ == spec_stale(runner@),
{
    let mut r = runner;
    r.last_known_availability = Some(RemoteAvailability::OnlineIdle);
    r
}

fn rate_limited(runner: MockRunner) -> (r: MockRunner)
    ensures
        r@ == spec_failing(runner@, ErrorCode::RateLimited),
{
    let mut r = runner;
    r.remote_error = Some(ErrorCode::RateLimited);
    r.last_known_availability = Some(RemoteAvailability::OnlineIdle);
    r
}

fn reauth(runner: MockRunner) -> (r: MockRunner)
    ensures
        r@ == spec_failing(runner@, ErrorCode::AuthExpired),
{
    let mut r = runner;
    r.remote_error = Some(ErrorCode::AuthExpired);
    r.last_known_availability = Some(RemoteAvailability::OnlineIdle);
    r
}

fn object_with(kind: BackendKind, busy: JsonMember) -> (r: RunnerObject)
    ensures
        r@ == object_view(spec_remote_id_for(kind), "online"@, busy@),
{
    RunnerObject {
        id: JsonMember::Unsigned(remote_id_for(kind)),
        status: JsonMember::Str(String::from_str("online")),
        busy,
    }
}

pub open spec fn runners_view(runners: Seq<MockRunner>) -> Seq<MockRunnerView> {
    runners.map_values(|r: MockRunner| r@)
}

fn pair(a: MockRunner, b: MockRunner) -> (r: Vec<MockRunner>)
    ensures
        runners_view(r@) == seq![a@, b@],
{
    let r = vec![a, b];
    proof {
        assert(runners_view(r@) =~= seq![a@, b@]);
    }
    r
}

fn build_runners(seed: u64, scenario: MockScenario, base: UnixMillis) -> (r: Vec<MockRunner>)
    requires
        scenario == MockScenario::Stale ==> base.0 - STALE_AGE_MILLIS >= i64::MIN,
    ensures
        runners_view(r@) == spec_build_runners(seed, scenario, base),
{
    let windows = base_runner(seed, BackendKind::NativeWindows, base);
    let wsl = base_runner(seed, BackendKind::Wsl, base);
    let w = BackendKind::NativeWindows;
    let l = BackendKind::Wsl;
    match scenario {
        MockScenario::Idle => pair(
            with_remote(windows, online(w, false), base),
            with_remote(wsl, online(l, false), base),
        ),
        MockScenario::Busy => pair(
            with_remote(windows, online(w, true), base),
            with_remote(wsl, online(l, true), base),
        ),
        MockScenario::Offline => pair(
            with_remote(windows, offline(w), base),
            with_remote(wsl, offline(l), base),
        ),
        // A reply without `busy`: neither idle nor busy.
        MockScenario::Unknown => pair(
            with_remote(windows, object_with(w, JsonMember::Missing), base),
            // A `busy` that is not a boolean.
            with_remote(wsl, object_with(l, JsonMember::Str(String::from_str("false"))), base),
        ),
        // Past the stale threshold (90 seconds while the GUI is shown), not
        // merely past one observation interval.
        MockScenario::Stale => {
            let old = base.plus_millis(-STALE_AGE_MILLIS);
            pair(
                stale(with_remote(windows, online(w, false), old)),
                stale(with_remote(wsl, online(l, false), old)),
            )
        },
        MockScenario::Creating => {
            let mut a = windows;
            a.local = LocalRuntime::Starting;
            a.desired = DesiredState::Running;
            let mut b = wsl;
            b.local = LocalRuntime::NotProvisioned;
            b.desired = DesiredState::Running;
            pair(a, b)
        },
        MockScenario::PartialFailure => {
            let mut b = wsl;
            b.local = LocalRuntime::Error;
            b.remote_error = Some(ErrorCode::WslGuestUnreachable);
            pair(with_remote(windows, online(w, false), base), b)
        },
        MockScenario::RateLimited => pair(
            rate_limited(with_remote(windows, online(w, false), base)),
            rate_limited(with_remote(wsl, online(l, false), base)),
        ),
        MockScenario::ReauthenticationRequired => pair(
            reauth(with_remote(windows, online(w, false), base)),
            reauth(with_remote(wsl, online(l, false), base)),
        ),
    }
}

// ---- Observation ----------------------------------------------------------

/// What the remote side says of a runner: availability, presence, and
/// whether `status` was a string with no known meaning. A failed
/// observation asserts neither availability nor absence.
pub open spec fn spec_reading(r: MockRunnerView) -> (RemoteAvailability, RemotePresence, bool) {
    match r.remote_error {
        Some(_) => (RemoteAvailability::Unknown, RemotePresence::Unknown, false),
        None => match r.remote_object {
            Some(o) => (
                spec_object_availability(o.status, o.busy),
                RemotePresence::Registered,
                spec_unrecognized_status(o.status) is Some,
            ),
            None => (RemoteAvailability::Unknown, RemotePresence::Unchecked, false),
        },
    }
}

/// The input the effective state of a runner is decided from at `now`.
pub open spec fn spec_input(r: MockRunnerView, now: UnixMillis) -> EffectiveInput {
    EffectiveInput {
        local: r.local,
        local_freshness: spec_evaluate(ObservationTarget::Local, r.local_verified, now),
        remote_availability: spec_reading(r).0,
        remote_freshness: spec_evaluate(ObservationTarget::RemoteVisible, r.remote_verified, now),
        remote_error_code: r.remote_error,
        last_known_availability: r.last_known_availability,
    }
}

/// `o` is the observation of `r` at `now`.
pub open spec fn observation_matches(o: RunnerObservation, r: MockRunnerView, now: UnixMillis) -> bool {
    let input = spec_input(r, now);
    let reading = spec_reading(r);
    &&& o.runner_id.0@ == r.runner_id
    &&& o.backend_id.0@ == r.backend_id
    &&& o.scope_id.0@ == r.scope_id
    &&& o.desired == r.desired
    &&& o.local == r.local
    &&& o.local_freshness == input.local_freshness
    &&& o.remote_presence == reading.1
    &&& o.remote_availability == reading.0
    &&& o.remote_freshness == input.remote_freshness
    &&& o.remote_error_code == r.remote_error
    &&& match r.remote_runner_id {
        Some(n) => o.remote_runner_id == Some(DecimalU64(n)),
        None => o.remote_runner_id is None,
    }
    // The time of the last success stays even when freshness is lost.
    &&& match r.remote_verified {
        Some(at) => o.verified_at matches Some(t) && t.0@ == spec_rfc3339(at.0 as int),
        None => o.verified_at is None,
    }
    // An unknown status string is kept as a last known `Unknown`.
    &&& o.last_known_availability == match r.last_known_availability {
        Some(v) => Some(v),
        None => if reading.2 {
            Some(RemoteAvailability::Unknown)
        } else {
            None
        },
    }
    &&& o.effective == spec_evaluate_runner(input).state
}

/// The ages of a runner's observations at `now` fit in an `i64`.
pub open spec fn runner_ages_fit(r: MockRunnerView, now: UnixMillis) -> bool {
    age_fits(r.local_verified, now) && age_fits(r.remote_verified, now)
}

pub open spec fn all_ages_fit(runners: Seq<MockRunnerView>, now: UnixMillis) -> bool {
    forall|i: int| 0 <= i < runners.len() ==> runner_ages_fit(#[trigger] runners[i], now)
}

/// Builds the observation of one runner.
fn observe(runner: &MockRunner, now: UnixMillis) -> (o: RunnerObservation)
    requires
        runner_ages_fit(runner@, now),
    ensures
        observation_matches(o, runner@, now),
{
    let local_freshness = evaluate(ObservationTarget::Local, runner.local_verified.get(), now);
    let remote_freshness = evaluate(
        ObservationTarget::RemoteVisible,
        runner.remote_verified.get(),
        now,
    );
    let (availability, presence, unrecognized): (RemoteAvailability, RemotePresence, bool) =
        match &runner.remote_error {
        Some(code) => (
            crate::remote::availability_on_error(*code),
            crate::remote::presence_on_error(*code),
            false,
        ),
        None => match &runner.remote_object {
            Some(object) => {
                let verdict = object.interpret();
                (verdict.availability, RemotePresence::Registered, verdict.unrecognized_status.is_some())
            },
            None => (RemoteAvailability::Unknown, RemotePresence::Unchecked, false),
        },
    };
    let verdict = evaluate_runner(
        &EffectiveInput {
            local: runner.local,
            local_freshness,
            remote_availability: availability,
            remote_freshness,
            remote_error_code: runner.remote_error,
            last_known_availability: runner.last_known_availability,
        },
    );
    // An unknown status string also goes to the side display as the last
    // known value.
    let last_known = match verdict.last_known_availability {
        Some(v) => Some(v),
        None => if unrecognized {
            Some(RemoteAvailability::Unknown)
        } else {
            None
        },
    };
    RunnerObservation {
        runner_id: runner.runner_id.duplicate(),
        backend_id: runner.backend_id.duplicate(),
        scope_id: runner.scope_id.duplicate(),
        desired: runner.desired,
        local: runner.local,
        local_freshness,
        remote_presence: presence,
        remote_availability: availability,
        remote_freshness,
        remote_error_code: runner.remote_error,
        remote_runner_id: runner.remote_runner_id,
        verified_at: match runner.remote_verified.get() {
            Some(at) => Some(at.to_timestamp()),
            None => None,
        },
        last_known_availability: last_known,
        effective: verdict.state,
    }
}

/// Whether the whole node may be stopped at once: only when every runner
/// is a fresh `OnlineIdle`; the most cautious runner decides.
pub open spec fn spec_all_idle(runners: Seq<MockRunnerView>, now: UnixMillis) -> bool {
    &&& runners.len() > 0
    &&& forall|i: int|
        0 <= i < runners.len() ==> spec_reading(#[trigger] runners[i]).0
            == RemoteAvailability::OnlineIdle && spec_evaluate(
            ObservationTarget::RemoteVisible,
            runners[i].remote_verified,
            now,
        ) == ObservationFreshness::Fresh
}

pub open spec fn spec_stop_readiness(runners: Seq<MockRunnerView>, now: UnixMillis) -> StopReadiness {
    StopReadiness {
        availability: if spec_all_idle(runners, now) {
            RemoteAvailability::OnlineIdle
        } else {
            RemoteAvailability::Unknown
        },
        is_fresh: spec_all_idle(runners, now),
    }
}

/// Every runner's desired state set to `desired`.
pub open spec fn spec_all_desired(runners: Seq<MockRunnerView>, desired: DesiredState) -> Seq<MockRunnerView> {
    runners.map_values(|r: MockRunnerView| MockRunnerView { desired, ..r })
}

/// The runners after an accepted operation of `kind`: a start wants them
/// running, a stop (forced or not) wants them stopped.
pub open spec fn spec_runners_after(runners: Seq<MockRunnerView>, kind: OperationKind) -> Seq<MockRunnerView> {
    match kind {
        OperationKind::NodeStart => spec_all_desired(runners, DesiredState::Running),
        OperationKind::NodeStop | OperationKind::NodeForceStop => spec_all_desired(
            runners,
            DesiredState::Stopped,
        ),
        _ => runners,
    }
}

// ---- The backend ------------------------------------------------------------

/// The state of a mock backend.
pub struct MockModel {
    pub seed: u64,
    pub now: UnixMillis,
    pub node_id: NodeId,
    pub revision: u64,
    pub runners: Seq<MockRunnerView>,
    pub operations: StoreModel,
    pub generation: Seq<char>,
    pub next_sequence: u64,
    pub pending: Seq<Event>,
}

/// Room for one more accepted operation: the revision, the event sequence
/// and the operation count can each still grow, and every observation's age
/// fits in an `i64`.
pub open spec fn has_headroom(m: MockModel) -> bool {
    &&& m.revision < u64::MAX
    &&& m.next_sequence < u64::MAX
    &&& m.operations.records.len() < u64::MAX
    &&& all_ages_fit(m.runners, m.now)
}

/// `e` is an event of `kind` with `payload`, numbered `sequence`.
pub open spec fn is_event(e: Event, sequence: u64, generation: Seq<char>, kind: EventKind, payload: EventPayload) -> bool {
    &&& e.protocol_major == crate::handshake::PROTOCOL_MAJOR
    &&& e.sequence.0 == sequence
    &&& e.agent_generation.0@ == generation
    &&& e.event == kind
    &&& e.payload == payload
}

/// `e` is the event announcing `accepted`, numbered `sequence`.
pub open spec fn is_operation_event(e: Event, sequence: u64, generation: Seq<char>, accepted: OperationAccepted) -> bool {
    is_event(e, sequence, generation, EventKind::OperationChanged, EventPayload::Operation(accepted))
}

/// An optional answer as text.
pub open spec fn answer_view(answer: Option<String>) -> Option<Seq<char>> {
    match answer {
        Some(s) => Some(s@),
        None => None,
    }
}

pub open spec fn answer_str_view(answer: Option<&str>) -> Option<Seq<char>> {
    match answer {
        Some(s) => Some(s@),
        None => None,
    }
}

/// The request the mock hands to its operation store.
pub open spec fn mock_request(
    m: MockModel,
    kind: OperationKind,
    request_id: RequestId,
    expected_revision: u64,
    confirmation: Option<String>,
) -> OperationRequest {
    OperationRequest {
        request_id,
        kind,
        target_id: m.node_id.0,
        expected_revision,
        confirmation,
    }
}

/// The contract of every request to the mock: the store decides as
/// [`OperationStore::submit`] does, with the node as target and the
/// readiness of its runners; only a newly accepted request moves the desired
/// state and the revision, and announces itself with one event.
pub open spec fn mock_submit_post(
    old: MockModel,
    new: MockModel,
    kind: OperationKind,
    request_id: RequestId,
    expected_revision: u64,
    confirmation: Option<String>,
    r: Result<OperationAccepted, ErrorPayload>,
) -> bool {
    &&& submit_post(
        old.operations,
        mock_request(old, kind, request_id, expected_revision, confirmation),
        old.revision,
        spec_stop_readiness(old.runners, old.now),
        old.now,
        r,
        new.operations,
    )
    &&& new.seed == old.seed
    &&& new.now == old.now
    &&& new.node_id == old.node_id
    &&& new.generation == old.generation
    &&& if r is Ok && !r->Ok_0.deduplicated {
        let a = r->Ok_0;
        &&& new.revision == old.revision + 1
        &&& new.runners == spec_runners_after(old.runners, kind)
        &&& new.next_sequence == old.next_sequence + 1
        &&& new.pending.len() == old.pending.len() + 1
        &&& new.pending.take(old.pending.len() as int) == old.pending
        &&& is_operation_event(new.pending.last(), old.next_sequence, old.generation, a)
    } else {
        &&& new.revision == old.revision
        &&& new.runners == old.runners
        &&& new.next_sequence == old.next_sequence
        &&& new.pending == old.pending
    }
}

/// `s` is the snapshot of the mock's state.
pub open spec fn snapshot_matches(s: NodeSnapshot, m: MockModel) -> bool {
    &&& s.node_id == m.node_id
    &&& s.display_name@ == "Mock Node"@
    &&& s.revision.0 == m.revision
    &&& s.runners@.len() == m.runners.len()
    &&& forall|i: int|
        0 <= i < m.runners.len() ==> observation_matches(#[trigger] s.runners@[i], m.runners[i], m.now)
    &&& s.effective == spec_aggregate_node(s.runners@.map_values(|o: RunnerObservation| o.effective))
    &&& s.observed_at.0@ == spec_rfc3339(m.now.0 as int)
}

/// The request ID of the registration the Creating fixture holds.
pub open spec fn spec_creating_request_id(seed: u64) -> Seq<char> {
    "req-create-"@ + padded_hex(low16(spec_mix(seed)), 4)
}

/// The store of the Creating fixture: one registration of the node, accepted
/// at `now` and now in `Registering`.
pub open spec fn is_creating_store(ops: StoreModel, seed: u64, node: Seq<char>, now: UnixMillis) -> bool {
    &&& ops.challenges.len() == 0
    &&& ops.records.len() == 1
    &&& ops.records[0].operation_id.0@ == op_id_text(1)
    &&& ops.records[0].request_id.0@ == spec_creating_request_id(seed)
    &&& ops.records[0].kind == OperationKind::RunnerCreate
    &&& ops.records[0].target_id@ == node
    &&& ops.records[0].phase == OperationPhase::Registering
    &&& ops.records[0].started_at == now
    &&& ops.records[0].finished_at is None
    &&& ops.records[0].registered_remote_id is None
    &&& ops.records[0].failures@.len() == 0
}

/// The token of the challenge the mock issues: `confirm-` and sixteen hex
/// digits derived from the seed and the revision. A fixed seed gives fixed
/// tokens, as everything else in the mock.
pub open spec fn spec_challenge_token(seed: u64, revision: u64) -> Seq<char> {
    "confirm-"@ + padded_hex(spec_mix(seed ^ revision) as nat, 16)
}

/// A mock backend with a fixed seed.
///
/// The same seed and the same calls always give the same snapshots and the
/// same events.
#[derive(Debug)]
pub struct MockBackend {
    seed: u64,
    clock: FixedClock,
    node_id: NodeId,
    revision: u64,
    runners: Vec<MockRunner>,
    operations: OperationStore,
    sequence: SequenceSource,
    pending_events: Vec<Event>,
}

impl View for MockBackend {
    type V = MockModel;

    closed spec fn view(&self) -> MockModel {
        MockModel {
            seed: self.seed,
            now: self.clock.now,
            node_id: self.node_id,
            revision: self.revision,
            runners: runners_view(self.runners@),
            operations: self.operations@,
            generation: self.sequence@.0,
            next_sequence: self.sequence@.1,
            pending: self.pending_events@,
        }
    }
}

impl MockBackend {
    /// Builds the mock for a seed and a situation.
    pub fn with_scenario(seed: u64, scenario: MockScenario) -> (r: Self)
        ensures
            r@.seed == seed,
            r@.now == UnixMillis(BASE_INSTANT_MILLIS),
            r@.node_id.0@ == spec_node_id(seed),
            r@.revision == 1,
            r@.runners == spec_build_runners(seed, scenario, UnixMillis(BASE_INSTANT_MILLIS)),
            r@.generation == spec_generation(seed),
            r@.next_sequence == 1,
            r@.pending.len() == 0,
            scenario == MockScenario::Creating ==> is_creating_store(
                r@.operations,
                seed,
                spec_node_id(seed),
                UnixMillis(BASE_INSTANT_MILLIS),
            ),
            scenario != MockScenario::Creating ==> r@.operations.records.len() == 0
                && r@.operations.challenges.len() == 0,
    {
        let mut generation = String::new();
        push_padded_hex(&mut generation, mix(seed), 8);
        let node = mix(seed ^ 0x6e6f_6465) & 0xffff;
        proof {
            let x = spec_mix(seed ^ 0x6e6f_6465);
            assert(x & 0xffff == x % 0x1_0000) by (bit_vector);
        }
        let node_id = NodeId(hex4_id("node-", node));
        let base = UnixMillis(BASE_INSTANT_MILLIS);
        let runners = build_runners(seed, scenario, base);
        let mut backend = MockBackend {
            seed,
            clock: FixedClock::new(base),
            node_id,
            revision: 1,
            runners,
            operations: OperationStore::new(),
            sequence: SequenceSource::new(AgentGeneration(generation), 1),
            pending_events: Vec::new(),
        };
        if scenario == MockScenario::Creating {
            backend.seed_creating_operation();
        }
        backend
    }

    pub fn seed(&self) -> (r: u64)
        ensures
            r == self@.seed,
    {
        self.seed
    }

    pub fn revision(&self) -> (r: u64)
        ensures
            r == self@.revision,
    {
        self.revision
    }

    pub fn node_id(&self) -> (r: &NodeId)
        ensures
            *r == self@.node_id,
    {
        &self.node_id
    }

    pub fn agent_generation(&self) -> (r: &AgentGeneration)
        ensures
            r.0@ == self@.generation,
    {
        self.sequence.generation()
    }

    /// Moves only the clock. Observations are not renewed, so their
    /// freshness runs out.
    pub fn advance_millis(&mut self, millis: i64)
        requires
            i64::MIN <= old(self)@.now.0 + millis <= i64::MAX,
        ensures
            final(self)@ == (MockModel { now: UnixMillis((old(self)@.now.0 + millis) as i64), ..old(self)@ }),
    {
        self.clock.advance_millis(millis);
    }

    /// Whether the age of every observation fits in an `i64`, as
    /// [`MockBackend::snapshot`] needs.
    pub fn observations_fit(&self) -> (r: bool)
        ensures
            r == all_ages_fit(self@.runners, self@.now),
    {
        let now = self.clock.current();
        let mut i: usize = 0;
        while i < self.runners.len()
            invariant
                i <= self.runners@.len(),
                now == self@.now,
                forall|j: int| 0 <= j < i ==> runner_ages_fit(#[trigger] self@.runners[j], now),
            decreases self.runners.len() - i,
        {
            let r = &self.runners[i];
            proof {
                assert(self@.runners[i as int] == r@);
            }
            if !(ages_fit_now(r.local_verified.get(), now) && ages_fit_now(r.remote_verified.get(), now)) {
                return false;
            }
            i = i + 1;
        }
        true
    }

    /// Whether [`MockBackend::request_start`] and the other requests can be
    /// served: see [`has_headroom`].
    pub fn has_headroom(&self) -> (r: bool)
        ensures
            r == has_headroom(self@),
    {
        self.revision < u64::MAX && self.sequence.peek() < u64::MAX && (self.operations.len() as u64)
            < u64::MAX && self.observations_fit()
    }
}

/// Whether the age of an optional observation at `now` fits in an `i64`.
fn ages_fit_now(verified_at: Option<UnixMillis>, now: UnixMillis) -> (r: bool)
    ensures
        r == age_fits(verified_at, now),
{
    match verified_at {
        None => true,
        Some(at) => if at.0 >= 0 {
            now.0 >= i64::MIN + at.0
        } else {
            now.0 <= i64::MAX + at.0
        },
    }
}

impl MockBackend {
    /// Seeds one in-flight registration for the Creating fixture.
    fn seed_creating_operation(&mut self)
        requires
            old(self)@.operations.records.len() == 0,
            old(self)@.operations.challenges.len() == 0,
        ensures
            final(self)@ == (MockModel { operations: final(self)@.operations, ..old(self)@ }),
            is_creating_store(final(self)@.operations, old(self)@.seed, old(self)@.node_id.0@, old(self)@.now),
    {
        let now = self.clock.current();
        let suffix = mix(self.seed) & 0xffff;
        proof {
            let x = spec_mix(self.seed);
            assert(x & 0xffff == x % 0x1_0000) by (bit_vector);
        }
        let request = OperationRequest {
            request_id: RequestId(hex4_id("req-create-", suffix)),
            kind: OperationKind::RunnerCreate,
            target_id: self.node_id.0.clone(),
            expected_revision: self.revision,
            confirmation: None,
        };
        let readiness = StopReadiness { availability: RemoteAvailability::Unknown, is_fresh: false };
        let ghost before = self@;
        match self.operations.submit(&request, self.revision, readiness, now) {
            Ok(accepted) => {
                proof {
                    assert(!has_request(before.operations.records, request.request_id.0@));
                    assert(self@.operations.records.len() == 1);
                    assert(first_operation(self@.operations.records, accepted.operation_id.0@, 0));
                }
                self.operations.set_phase(&accepted.operation_id, OperationPhase::Registering, now);
            },
            Err(_) => {
                proof {
                    assert(!has_request(before.operations.records, request.request_id.0@));
                }
            },
        }
    }

    /// The snapshot of the current observations. Freshness and effective
    /// states are computed anew on every call.
    pub fn snapshot(&self) -> (s: NodeSnapshot)
        requires
            all_ages_fit(self@.runners, self@.now),
        ensures
            snapshot_matches(s, self@),
    {
        let now = self.clock.current();
        let mut runners: Vec<RunnerObservation> = Vec::new();
        let mut states: Vec<EffectiveState> = Vec::new();
        let mut i: usize = 0;
        while i < self.runners.len()
            invariant
                i <= self.runners@.len(),
                now == self@.now,
                all_ages_fit(self@.runners, now),
                runners@.len() == i,
                states@.len() == i,
                forall|j: int|
                    0 <= j < i ==> observation_matches(#[trigger] runners@[j], self@.runners[j], now)
                        && states@[j] == runners@[j].effective,
            decreases self.runners.len() - i,
        {
            proof {
                assert(self@.runners[i as int] == self.runners@[i as int]@);
            }
            let o = observe(&self.runners[i], now);
            states.push(o.effective);
            runners.push(o);
            i = i + 1;
        }
        proof {
            assert(states@ =~= runners@.map_values(|o: RunnerObservation| o.effective));
        }
        let effective = aggregate_node(states.as_slice());
        NodeSnapshot {
            node_id: self.node_id.duplicate(),
            display_name: String::from_str("Mock Node"),
            revision: DecimalU64::new(self.revision),
            runners,
            effective,
            observed_at: now.to_timestamp(),
        }
    }

    /// Whether the node may be stopped at once; see [`spec_stop_readiness`].
    fn stop_readiness(&self, now: UnixMillis) -> (r: StopReadiness)
        requires
            all_ages_fit(self@.runners, now),
        ensures
            r == spec_stop_readiness(self@.runners, now),
    {
        let mut all_idle = self.runners.len() > 0;
        let mut i: usize = 0;
        while i < self.runners.len()
            invariant
                i <= self.runners@.len(),
                all_ages_fit(self@.runners, now),
                all_idle == (self@.runners.len() > 0 && forall|j: int|
                    0 <= j < i ==> spec_reading(#[trigger] self@.runners[j]).0
                        == RemoteAvailability::OnlineIdle && spec_evaluate(
                        ObservationTarget::RemoteVisible,
                        self@.runners[j].remote_verified,
                        now,
                    ) == ObservationFreshness::Fresh),
            decreases self.runners.len() - i,
        {
            proof {
                assert(self@.runners[i as int] == self.runners@[i as int]@);
            }
            let o = observe(&self.runners[i], now);
            if !(o.remote_availability == RemoteAvailability::OnlineIdle && o.remote_freshness
                == ObservationFreshness::Fresh) {
                all_idle = false;
            }
            i = i + 1;
        }
        StopReadiness {
            availability: if all_idle {
                RemoteAvailability::OnlineIdle
            } else {
                RemoteAvailability::Unknown
            },
            is_fresh: all_idle,
        }
    }

    fn set_desired(&mut self, desired: DesiredState)
        ensures
            final(self)@ == (MockModel {
                runners: spec_all_desired(old(self)@.runners, desired),
                ..old(self)@
            }),
    {
        let mut rest: Vec<MockRunner> = Vec::new();
        std::mem::swap(&mut rest, &mut self.runners);
        let ghost before = rest@;
        let mut out: Vec<MockRunner> = Vec::new();
        while rest.len() > 0
            invariant
                out@.len() + rest@.len() == before.len(),
                rest@ == before.subrange(out@.len() as int, before.len() as int),
                forall|j: int|
                    0 <= j < out@.len() ==> (#[trigger] out@[j])@ == (MockRunnerView {
                        desired,
                        ..before[j]@
                    }),
            decreases rest.len(),
        {
            let mut r = rest.remove(0);
            r.desired = desired;
            out.push(r);
        }
        self.runners = out;
        proof {
            assert(runners_view(self.runners@) =~= spec_all_desired(runners_view(before), desired));
        }
    }

    fn emit(&mut self, kind: EventKind, payload: EventPayload)
        requires
            old(self)@.next_sequence < u64::MAX,
        ensures
            final(self)@.next_sequence == old(self)@.next_sequence + 1,
            final(self)@.pending.len() == old(self)@.pending.len() + 1,
            final(self)@.pending.take(old(self)@.pending.len() as int) == old(self)@.pending,
            is_event(final(self)@.pending.last(), old(self)@.next_sequence, old(self)@.generation, kind, payload),
            final(self)@ == (MockModel {
                next_sequence: final(self)@.next_sequence,
                pending: final(self)@.pending,
                ..old(self)@
            }),
    {
        let sequence = self.sequence.take();
        let generation = self.sequence.generation().duplicate();
        let ghost before = self.pending_events@;
        self.pending_events.push(Event::new(sequence, generation, kind, payload));
        proof {
            assert(self.pending_events@.take(before.len() as int) =~= before);
        }
    }

    fn submit(
        &mut self,
        kind: OperationKind,
        request_id: &RequestId,
        expected_revision: u64,
        confirmation: Option<String>,
    ) -> (r: Result<OperationAccepted, ErrorPayload>)
        requires
            has_headroom(old(self)@),
        ensures
            mock_submit_post(old(self)@, final(self)@, kind, *request_id, expected_revision, confirmation, r),
    {
        let now = self.clock.current();
        let ghost conf = confirmation;
        let request = OperationRequest {
            request_id: request_id.duplicate(),
            kind,
            target_id: self.node_id.0.clone(),
            expected_revision,
            confirmation,
        };
        let readiness = self.stop_readiness(now);
        let accepted = match self.operations.submit(&request, self.revision, readiness, now) {
            Ok(a) => a,
            Err(e) => {
                return Err(e);
            },
        };
        if !accepted.deduplicated {
            // Only an accepted request moves the desired state and the
            // revision.
            match kind {
                OperationKind::NodeStart => self.set_desired(DesiredState::Running),
                OperationKind::NodeStop | OperationKind::NodeForceStop => {
                    self.set_desired(DesiredState::Stopped)
                },
                OperationKind::RunnerCreate | OperationKind::RunnerRemove => {},
            }
            self.revision = self.revision + 1;
            let payload = EventPayload::Operation(
                OperationAccepted {
                    operation_id: accepted.operation_id.duplicate(),
                    accepted: accepted.accepted,
                    deduplicated: accepted.deduplicated,
                },
            );
            self.emit(EventKind::OperationChanged, payload);
        }
        Ok(accepted)
    }

    /// Asks for a start. A resend with the same `requestId` converges on
    /// the same operation.
    ///
    /// # Errors
    ///
    /// `REVISION_CONFLICT` when the revision has moved.
    pub fn request_start(&mut self, request_id: &RequestId, expected_revision: u64) -> (r: Result<
        OperationAccepted,
        ErrorPayload,
    >)
        requires
            has_headroom(old(self)@),
        ensures
            mock_submit_post(
                old(self)@,
                final(self)@,
                OperationKind::NodeStart,
                *request_id,
                expected_revision,
                None,
                r,
            ),
    {
        self.submit(OperationKind::NodeStart, request_id, expected_revision, None)
    }

    /// Asks for a stop. Busy and unknown runners hold it in
    /// `WaitingForIdle`.
    ///
    /// # Errors
    ///
    /// `REVISION_CONFLICT` when the revision has moved.
    pub fn request_stop(&mut self, request_id: &RequestId, expected_revision: u64) -> (r: Result<
        OperationAccepted,
        ErrorPayload,
    >)
        requires
            has_headroom(old(self)@),
        ensures
            mock_submit_post(
                old(self)@,
                final(self)@,
                OperationKind::NodeStop,
                *request_id,
                expected_revision,
                None,
                r,
            ),
    {
        self.submit(OperationKind::NodeStop, request_id, expected_revision, None)
    }

    /// Asks for a forced stop. Without the answer to the issued challenge it
    /// is not accepted.
    ///
    /// # Errors
    ///
    /// `REQUIRES_CONFIRMATION` when the answer does not match the issued
    /// challenge, `REVISION_CONFLICT` when the revision has moved.
    pub fn request_force_stop(
        &mut self,
        request_id: &RequestId,
        expected_revision: u64,
        confirmation: Option<&str>,
    ) -> (r: Result<OperationAccepted, ErrorPayload>)
        requires
            has_headroom(old(self)@),
        ensures
            exists|answer: Option<String>|
                answer_view(answer) == answer_str_view(confirmation) && mock_submit_post(
                    old(self)@,
                    final(self)@,
                    OperationKind::NodeForceStop,
                    *request_id,
                    expected_revision,
                    answer,
                    r,
                ),
    {
        let answer = match confirmation {
            Some(c) => Some(c.to_owned()),
            None => None,
        };
        let ghost kept = answer;
        let r = self.submit(OperationKind::NodeForceStop, request_id, expected_revision, answer);
        proof {
            assert(answer_view(kept) == answer_str_view(confirmation));
        }
        r
    }

    /// The phase of the operation accepted under `request_id`.
    pub fn operation_phase(&self, request_id: &RequestId) -> (r: Option<OperationPhase>)
        ensures
            match r {
                Some(p) => exists|i: int|
                    #![trigger self@.operations.records[i]]
                    first_request(self@.operations.records, request_id.0@, i)
                        && self@.operations.records[i].phase == p,
                None => !has_request(self@.operations.records, request_id.0@),
            },
    {
        match self.operations.find_by_request(request_id) {
            Some(record) => {
                proof {
                    let i = choose|i: int|
                        #![trigger self@.operations.records[i]]
                        first_request(self@.operations.records, request_id.0@, i) && *record
                            == self@.operations.records[i];
                    assert(self@.operations.records[i].phase == record.phase);
                }
                Some(record.phase)
            },
            None => None,
        }
    }

    /// Takes the events gathered so far.
    pub fn drain_events(&mut self) -> (r: Vec<Event>)
        ensures
            r@ == old(self)@.pending,
            final(self)@ == (MockModel { pending: Seq::empty(), ..old(self)@ }),
    {
        let mut out: Vec<Event> = Vec::new();
        std::mem::swap(&mut out, &mut self.pending_events);
        proof {
            assert(self.pending_events@ =~= Seq::<Event>::empty());
        }
        out
    }

    /// Issues the confirmation challenge a forced stop of the node needs.
    /// The token is derived from the seed and the revision, so that a fixed
    /// seed reproduces it.
    pub fn issue_force_stop_challenge(&mut self) -> (r: ForceStopChallenge)
        requires
            old(self)@.now.0 + ForceStopChallenge::TTL_MILLIS <= i64::MAX,
        ensures
            r.token@ == spec_challenge_token(old(self)@.seed, old(self)@.revision),
            r.target_id@ == old(self)@.node_id.0@,
            r.expected_revision == old(self)@.revision,
            r.issued_at == old(self)@.now,
            r.expires_at.0 == old(self)@.now.0 + ForceStopChallenge::TTL_MILLIS,
            final(self)@ == (MockModel { operations: final(self)@.operations, ..old(self)@ }),
            final(self)@.operations.records == old(self)@.operations.records,
            has_challenge(old(self)@.operations.challenges, r.target_id@) ==> exists|i: int|
                #![trigger old(self)@.operations.challenges[i]]
                challenge_for(old(self)@.operations.challenges, r.target_id@, i)
                    && final(self)@.operations.challenges == old(self)@.operations.challenges.update(i, r),
            !has_challenge(old(self)@.operations.challenges, r.target_id@)
                ==> final(self)@.operations.challenges == old(self)@.operations.challenges.push(r),
    {
        let now = self.clock.current();
        let mut token = String::from_str("confirm-");
        push_padded_hex(&mut token, mix(self.seed ^ self.revision), 16);
        self.operations.issue_force_stop_challenge(token, self.node_id.0.as_str(), self.revision, now)
    }
}

/// Every situation has two runners, Windows and WSL, in one scope, and the
/// two never share a remote ID: the fixture never breaks the store's
/// uniqueness of (scope, remote ID).
pub proof fn lemma_fixture_remote_ids_distinct(seed: u64, scenario: MockScenario, base: UnixMillis)
    ensures
        spec_build_runners(seed, scenario, base).len() == 2,
        spec_build_runners(seed, scenario, base)[0].scope_id == spec_build_runners(seed, scenario, base)[1].scope_id,
        spec_build_runners(seed, scenario, base)[0].remote_runner_id is Some ==> spec_build_runners(
            seed,
            scenario,
            base,
        )[0].remote_runner_id != spec_build_runners(seed, scenario, base)[1].remote_runner_id,
{
}

/// The seed only changes identifiers: two seeds give the same inputs to the
/// effective state, runner by runner, at any instant.
/// The part of a runner that is not an identifier.
pub open spec fn state_part(r: MockRunnerView) -> (
    DesiredState,
    LocalRuntime,
    Option<UnixMillis>,
    Option<RunnerObjectView>,
    Option<UnixMillis>,
    Option<ErrorCode>,
    Option<RemoteAvailability>,
) {
    (
        r.desired,
        r.local,
        r.local_verified,
        r.remote_object,
        r.remote_verified,
        r.remote_error,
        r.last_known_availability,
    )
}

proof fn lemma_state_part_decides_input(a: MockRunnerView, b: MockRunnerView, now: UnixMillis)
    requires
        state_part(a) == state_part(b),
    ensures
        spec_input(a, now) == spec_input(b, now),
{
}

/// Another seed changes only identifiers: in every situation the runners of
/// two seeds carry the same desired state and feed the same inputs into the
/// effective state, and so are shown the same.
pub proof fn lemma_seed_changes_only_identifiers(
    first: u64,
    second: u64,
    scenario: MockScenario,
    base: UnixMillis,
    now: UnixMillis,
)
    ensures
        forall|i: int|
            0 <= i < 2 ==> spec_input(#[trigger] spec_build_runners(first, scenario, base)[i], now)
                == spec_input(spec_build_runners(second, scenario, base)[i], now)
                && spec_build_runners(first, scenario, base)[i].desired == spec_build_runners(
                second,
                scenario,
                base,
            )[i].desired,
{
    let a = spec_build_runners(first, scenario, base);
    let b = spec_build_runners(second, scenario, base);
    assert(state_part(a[0]) == state_part(b[0]) && state_part(a[1]) == state_part(b[1]));
    lemma_state_part_decides_input(a[0], b[0], now);
    lemma_state_part_decides_input(a[1], b[1], now);
    assert forall|i: int| 0 <= i < 2 implies spec_input(#[trigger] a[i], now) == spec_input(b[i], now)
        && a[i].desired == b[i].desired by {
        if i == 0 {
        } else {
            assert(i == 1);
        }
    }
}

} // verus!
