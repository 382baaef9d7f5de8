//! Freshness of observations.
//!
//! The observation interval (how often an observation is attempted) and the
//! stale threshold (how long after the last success an observation turns
//! `Stale`) are separate numbers. A longer interval, for example after
//! `Retry-After`, never lengthens the threshold.

use vstd::prelude::*;
use crate::clock::UnixMillis;
use crate::dto::ObservationFreshness;

verus! {

/// What is observed; the remote cadence depends on whether the GUI is shown.
#[derive(Debug, Clone, Copy, PartialEq, Eq, Structural)]
pub enum ObservationTarget {
    /// The local process or guest.
    Local,
    /// The GitHub API while the GUI is visible.
    RemoteVisible,
    /// The GitHub API while the GUI is hidden.
    RemoteHidden,
}

pub open spec fn spec_interval(target: ObservationTarget) -> int {
    match target {
        ObservationTarget::Local => 3_000,
        ObservationTarget::RemoteVisible => 30_000,
        ObservationTarget::RemoteHidden => 60_000,
    }
}

pub open spec fn spec_threshold(target: ObservationTarget) -> int {
    match target {
        ObservationTarget::Local => 10_000,
        ObservationTarget::RemoteVisible => 90_000,
        ObservationTarget::RemoteHidden => 180_000,
    }
}

impl ObservationTarget {
    /// Milliseconds between observation attempts.
    pub fn interval_millis(self) -> (r: i64)
        ensures
            r == spec_interval(self),
    {
        match self {
            ObservationTarget::Local => 3_000,
            ObservationTarget::RemoteVisible => 30_000,
            ObservationTarget::RemoteHidden => 60_000,
        }
    }

    /// Milliseconds after the last success beyond which the observation is
    /// stale.
    pub fn stale_threshold_millis(self) -> (r: i64)
        ensures
            r == spec_threshold(self),
    {
        match self {
            ObservationTarget::Local => 10_000,
            ObservationTarget::RemoteVisible => 90_000,
            ObservationTarget::RemoteHidden => 180_000,
        }
    }
}

/// One missed observation never makes an observation stale: every threshold
/// is at least three intervals.
pub proof fn lemma_threshold_spans_three_intervals(target: ObservationTarget)
    ensures
        spec_threshold(target) >= 3 * spec_interval(target),
{
}

/// The freshness verdict. An observation timestamped after `now` (the wall
/// clock was set back) is stale, not fresh.
pub open spec fn spec_evaluate(
    target: ObservationTarget,
    verified_at: Option<UnixMillis>,
    now: UnixMillis,
) -> ObservationFreshness {
    match verified_at {
        None => ObservationFreshness::NeverObserved,
        Some(at) => {
            let age = now.0 - at.0;
            if age < 0 || age > spec_threshold(target) {
                ObservationFreshness::Stale
            } else {
                ObservationFreshness::Fresh
            }
        },
    }
}

/// Whether the age of an optional observation fits in an `i64`.
pub open spec fn age_fits(verified_at: Option<UnixMillis>, now: UnixMillis) -> bool {
    match verified_at {
        None => true,
        Some(at) => i64::MIN <= now.0 - at.0 <= i64::MAX,
    }
}

/// Judges freshness. `verified_at` is the last *successful* observation; a
/// single failure does not move it and is not staleness by itself.
pub fn evaluate(target: ObservationTarget, verified_at: Option<UnixMillis>, now: UnixMillis) -> (r:
    ObservationFreshness)
    requires
        age_fits(verified_at, now),
    ensures
        r == spec_evaluate(target, verified_at, now),
{
    match verified_at {
        None => ObservationFreshness::NeverObserved,
        Some(at) => {
            let age = now.elapsed_since(at);
            if age < 0 || age > target.stale_threshold_millis() {
                ObservationFreshness::Stale
            } else {
                ObservationFreshness::Fresh
            }
        },
    }
}

/// Record of the last successful observation. A `304 Not Modified` counts as
/// a success.
#[derive(Debug, Clone, Copy, PartialEq, Eq)]
pub struct VerifiedAt(Option<UnixMillis>);

impl View for VerifiedAt {
    type V = Option<UnixMillis>;

    closed spec fn view(&self) -> Option<UnixMillis> {
        self.0
    }
}

impl VerifiedAt {
    /// Never observed.
    pub fn never() -> (r: Self)
        ensures
            r@ == None::<UnixMillis>,
    {
        VerifiedAt(None)
    }

    pub fn at(instant: UnixMillis) -> (r: Self)
        ensures
            r@ == Some(instant),
    {
        VerifiedAt(Some(instant))
    }

    pub fn get(self) -> (r: Option<UnixMillis>)
        ensures
            r == self@,
    {
        self.0
    }

    /// An observation succeeded, whether or not the value changed.
    pub fn observed(self, now: UnixMillis) -> (r: Self)
        ensures
            r@ == Some(now),
    {
        VerifiedAt(Some(now))
    }

    /// A `304` confirmed the state unchanged; refreshes like a success.
    pub fn confirmed_unchanged(self, now: UnixMillis) -> (r: Self)
        ensures
            r@ == Some(now),
    {
        self.observed(now)
    }

    /// An observation failed; the record stays as it was.
    pub fn failed(self) -> (r: Self)
        ensures
            r@ == self@,
    {
        self
    }
}

} // verus!
