//! Reading the `status` and `busy` members of a GitHub REST runner object.
//!
//! `Unknown` is not `false`. A `busy` member that is missing, `null` or not a
//! boolean is never read as idle, so the shape of each member is told apart
//! before anything is decided. No HTTP happens here: the caller hands over the
//! JSON object it fetched.

use vstd::prelude::*;
use serde_json::Value;
use crate::dto::{RemoteAvailability, RemotePresence};
use crate::error::ErrorCode;
use crate::ids::DecimalU64;
use crate::text::str_eq;

verus! {

#[verifier::external_type_specification]
#[verifier::external_body]
pub struct ExJsonValue(serde_json::Value);

/// The JSON type of one member of an object, with the value where the logic
/// reads it.
#[derive(Debug, Clone, PartialEq, Eq)]
pub enum JsonMember {
    /// The object has no such member.
    Missing,
    Null,
    Bool(bool),
    Str(String),
    /// A number that fits in a `u64`.
    Unsigned(u64),
    /// Any other number, an array or an object.
    Other,
}

/// A member as a mathematical value: a string is its characters.
pub enum MemberView {
    Missing,
    Null,
    Bool(bool),
    Str(Seq<char>),
    Unsigned(u64),
    Other,
}

impl View for JsonMember {
    type V = MemberView;

    open spec fn view(&self) -> MemberView {
        match self {
            JsonMember::Missing => MemberView::Missing,
            JsonMember::Null => MemberView::Null,
            JsonMember::Bool(b) => MemberView::Bool(*b),
            JsonMember::Str(s) => MemberView::Str(s@),
            JsonMember::Unsigned(n) => MemberView::Unsigned(*n),
            JsonMember::Other => MemberView::Other,
        }
    }
}

/// What a JSON value holds at its top level: each member's name and shape.
/// Empty when the value is not an object.
pub uninterp spec fn json_members(object: Value) -> Map<Seq<char>, MemberView>;

/// The member `key` of `object`, `Missing` when there is none.
pub open spec fn member_view(object: Value, key: Seq<char>) -> MemberView {
    if json_members(object).contains_key(key) {
        json_members(object)[key]
    } else {
        MemberView::Missing
    }
}

/// `serde_json::Value::get` on `object` with `key`, telling apart the JSON
/// type of what it finds; a string's text is copied out and a number is read
/// with `Number::as_u64`. What it finds is named by [`json_members`] of the
/// object.
#[verifier::external_body]
fn member_of(object: &Value, key: &str) -> (r: JsonMember)
    ensures
        json_members(*object).contains_key(key@) ==> r@ == json_members(*object)[key@],
        !json_members(*object).contains_key(key@) ==> r@ == MemberView::Missing,
{
    match object.get(key) {
        None => JsonMember::Missing,
        Some(Value::Null) => JsonMember::Null,
        Some(Value::Bool(b)) => JsonMember::Bool(*b),
        Some(Value::String(s)) => JsonMember::Str(s.clone()),
        Some(Value::Number(n)) => match n.as_u64() {
            Some(u) => JsonMember::Unsigned(u),
            None => JsonMember::Other,
        },
        Some(_) => JsonMember::Other,
    }
}

/// The members of a GitHub REST runner object that are read: `id`, `status`
/// and `busy`.
#[derive(Debug, Clone, PartialEq, Eq)]
pub struct RunnerObject {
    pub id: JsonMember,
    pub status: JsonMember,
    pub busy: JsonMember,
}

pub struct RunnerObjectView {
    pub id: MemberView,
    pub status: MemberView,
    pub busy: MemberView,
}

impl View for RunnerObject {
    type V = RunnerObjectView;

    open spec fn view(&self) -> RunnerObjectView {
        RunnerObjectView { id: self.id@, status: self.status@, busy: self.busy@ }
    }
}

/// The availability a runner object gives: `OnlineIdle` only for the string
/// `online` with `busy` the boolean `false`, `OnlineBusy` for `online` with
/// `busy` the boolean `true`, `Offline` for the string `offline` whatever
/// `busy` is, and `Unknown` for everything else.
pub open spec fn spec_object_availability(status: MemberView, busy: MemberView) -> RemoteAvailability {
    match status {
        MemberView::Str(text) => if text == "offline"@ {
            RemoteAvailability::Offline
        } else if text == "online"@ {
            match busy {
                MemberView::Bool(b) => if b {
                    RemoteAvailability::OnlineBusy
                } else {
                    RemoteAvailability::OnlineIdle
                },
                _ => RemoteAvailability::Unknown,
            }
        } else {
            RemoteAvailability::Unknown
        },
        _ => RemoteAvailability::Unknown,
    }
}

/// A `status` string with no known meaning, verbatim.
pub open spec fn spec_unrecognized_status(status: MemberView) -> Option<Seq<char>> {
    match status {
        MemberView::Str(text) => if text == "offline"@ || text == "online"@ {
            None
        } else {
            Some(text)
        },
        _ => None,
    }
}

/// The remote ID an `id` member gives: a number that fits in a `u64`.
pub open spec fn spec_object_remote_id(id: MemberView) -> Option<u64> {
    match id {
        MemberView::Unsigned(n) => Some(n),
        _ => None,
    }
}

/// The shapes a `busy` member can take.
#[derive(Debug, Clone, PartialEq, Eq, Structural)]
pub enum BusyField {
    /// No member at all.
    Missing,
    Null,
    Bool(bool),
    /// A number, string or anything else that is not a boolean.
    NotABool,
}

pub open spec fn spec_busy_from_member(m: MemberView) -> BusyField {
    match m {
        MemberView::Missing => BusyField::Missing,
        MemberView::Null => BusyField::Null,
        MemberView::Bool(b) => BusyField::Bool(b),
        _ => BusyField::NotABool,
    }
}

impl BusyField {
    /// The shape of a `busy` member.
    pub fn from_member(member: &JsonMember) -> (r: BusyField)
        ensures
            r == spec_busy_from_member(member@),
    {
        match member {
            JsonMember::Missing => BusyField::Missing,
            JsonMember::Null => BusyField::Null,
            JsonMember::Bool(b) => BusyField::Bool(*b),
            _ => BusyField::NotABool,
        }
    }

    /// Reads `busy` out of a JSON object.
    pub fn from_object(object: &Value) -> (r: BusyField)
        ensures
            r == spec_busy_from_member(member_view(*object, "busy"@)),
    {
        let member = member_of(object, "busy");
        BusyField::from_member(&member)
    }

    /// Only a boolean `false` is a candidate for idle; missing, `null` and
    /// non-booleans are neither true nor false.
    pub fn is_exactly_false(&self) -> (r: bool)
        ensures
            r == (*self == BusyField::Bool(false)),
    {
        match self {
            BusyField::Bool(false) => true,
            _ => false,
        }
    }
}

/// The shapes a `status` member can take.
#[derive(Debug, Clone, PartialEq, Eq)]
pub enum StatusField {
    Missing,
    Null,
    Online,
    Offline,
    /// A string with no known meaning, kept verbatim so that it can be shown.
    UnknownValue(String),
    /// Not a string at all.
    NotAString,
}

/// Which shape a `status` member has; an unknown string keeps its text.
pub open spec fn spec_status_matches(m: MemberView, s: StatusField) -> bool {
    match m {
        MemberView::Missing => s == StatusField::Missing,
        MemberView::Null => s == StatusField::Null,
        MemberView::Str(text) => if text == "online"@ {
            s == StatusField::Online
        } else if text == "offline"@ {
            s == StatusField::Offline
        } else {
            s matches StatusField::UnknownValue(raw) && raw@ == text
        },
        _ => s == StatusField::NotAString,
    }
}

impl StatusField {
    /// The shape of a `status` member.
    pub fn from_member(member: &JsonMember) -> (r: StatusField)
        ensures
            spec_status_matches(member@, r),
    {
        match member {
            JsonMember::Missing => StatusField::Missing,
            JsonMember::Null => StatusField::Null,
            JsonMember::Str(text) => {
                if str_eq(text.as_str(), "online") {
                    StatusField::Online
                } else if str_eq(text.as_str(), "offline") {
                    StatusField::Offline
                } else {
                    StatusField::UnknownValue(text.clone())
                }
            },
            _ => StatusField::NotAString,
        }
    }

    /// Reads `status` out of a JSON object.
    pub fn from_object(object: &Value) -> (r: StatusField)
        ensures
            spec_status_matches(member_view(*object, "status"@), r),
    {
        let member = member_of(object, "status");
        StatusField::from_member(&member)
    }
}

/// The reading, together with what it rests on.
#[derive(Debug, Clone, PartialEq, Eq)]
pub struct AvailabilityVerdict {
    pub availability: RemoteAvailability,
    /// The verbatim `status` when it is a string with no known meaning.
    pub unrecognized_status: Option<String>,
}

/// `OnlineIdle` only for `online` with `busy` exactly `false`; `Offline` for
/// `offline` whatever `busy` says; everything else `Unknown`.
pub open spec fn spec_availability(status: StatusField, busy: BusyField) -> RemoteAvailability {
    match status {
        StatusField::Offline => RemoteAvailability::Offline,
        StatusField::Online => match busy {
            BusyField::Bool(false) => RemoteAvailability::OnlineIdle,
            BusyField::Bool(true) => RemoteAvailability::OnlineBusy,
            _ => RemoteAvailability::Unknown,
        },
        _ => RemoteAvailability::Unknown,
    }
}

/// Decides availability from `status` and `busy`; nothing unknown is
/// rounded to idle or to success.
pub fn interpret_availability(status: &StatusField, busy: &BusyField) -> (r: AvailabilityVerdict)
    ensures
        r.availability == spec_availability(*status, *busy),
        match *status {
            StatusField::UnknownValue(raw) => r.unrecognized_status matches Some(t) && t@ == raw@,
            _ => r.unrecognized_status is None,
        },
{
    match status {
        StatusField::Offline => AvailabilityVerdict {
            availability: RemoteAvailability::Offline,
            unrecognized_status: None,
        },
        StatusField::Online => {
            let availability = match busy {
                BusyField::Bool(false) => RemoteAvailability::OnlineIdle,
                BusyField::Bool(true) => RemoteAvailability::OnlineBusy,
                // An unknown `busy` is not idle.
                _ => RemoteAvailability::Unknown,
            };
            AvailabilityVerdict { availability, unrecognized_status: None }
        },
        StatusField::UnknownValue(raw) => AvailabilityVerdict {
            availability: RemoteAvailability::Unknown,
            unrecognized_status: Some(raw.clone()),
        },
        _ => AvailabilityVerdict {
            availability: RemoteAvailability::Unknown,
            unrecognized_status: None,
        },
    }
}

/// Reads one runner object returned by GitHub.
pub fn interpret_runner_object(object: &Value) -> (r: AvailabilityVerdict)
    ensures
        r.availability == spec_object_availability(
            member_view(*object, "status"@),
            member_view(*object, "busy"@),
        ),
        match spec_unrecognized_status(member_view(*object, "status"@)) {
            Some(raw) => r.unrecognized_status matches Some(t) && t@ == raw,
            None => r.unrecognized_status is None,
        },
{
    let status = StatusField::from_object(object);
    let busy = BusyField::from_object(object);
    proof {
        reveal_strlit("online");
        reveal_strlit("offline");
        assert("online"@ != "offline"@) by {
            assert("online"@[1] != "offline"@[1]);
        }
    }
    interpret_availability(&status, &busy)
}

impl RunnerObject {
    /// Picks `id`, `status` and `busy` out of a JSON object.
    pub fn from_value(object: &Value) -> (r: RunnerObject)
        ensures
            r@ == (RunnerObjectView {
                id: member_view(*object, "id"@),
                status: member_view(*object, "status"@),
                busy: member_view(*object, "busy"@),
            }),
    {
        RunnerObject {
            id: member_of(object, "id"),
            status: member_of(object, "status"),
            busy: member_of(object, "busy"),
        }
    }

    /// Reads the availability, as [`interpret_runner_object`] does.
    pub fn interpret(&self) -> (r: AvailabilityVerdict)
        ensures
            r.availability == spec_object_availability(self.status@, self.busy@),
            match spec_unrecognized_status(self.status@) {
                Some(raw) => r.unrecognized_status matches Some(t) && t@ == raw,
                None => r.unrecognized_status is None,
            },
    {
        let status = StatusField::from_member(&self.status);
        let busy = BusyField::from_member(&self.busy);
        proof {
            reveal_strlit("online");
            reveal_strlit("offline");
            assert("online"@ != "offline"@) by {
                assert("online"@[1] != "offline"@[1]);
            }
        }
        interpret_availability(&status, &busy)
    }

    /// GitHub's runner ID, when `id` is a number that fits in a `u64`.
    pub fn remote_id(&self) -> (r: Option<DecimalU64>)
        ensures
            match spec_object_remote_id(self.id@) {
                Some(n) => r == Some(DecimalU64(n)),
                None => r is None,
            },
    {
        match self.id {
            JsonMember::Unsigned(n) => Some(DecimalU64::new(n)),
            _ => None,
        }
    }
}

/// A runner is idle exactly when GitHub says `online` and `busy` is the
/// boolean `false`.
pub proof fn lemma_idle_needs_exact_false(status: StatusField, busy: BusyField)
    ensures
        spec_availability(status, busy) == RemoteAvailability::OnlineIdle <==> (status
            == StatusField::Online && busy == BusyField::Bool(false)),
        spec_availability(status, busy) == RemoteAvailability::Offline <==> status
            == StatusField::Offline,
{
}

/// What availability becomes when the observation itself failed: `Unknown`,
/// never `Offline`, idle or success; the freshness is kept separately.
pub fn availability_on_error(code: ErrorCode) -> (r: RemoteAvailability)
    ensures
        r == RemoteAvailability::Unknown,
{
    RemoteAvailability::Unknown
}

/// What presence becomes when the observation failed: absence is not
/// asserted.
pub fn presence_on_error(code: ErrorCode) -> (r: RemotePresence)
    ensures
        r == RemotePresence::Unknown,
{
    RemotePresence::Unknown
}

} // verus!
