//! Identifier and timestamp newtypes.
//!
//! GitHub's numeric identifiers and event sequence numbers are `u64` inside
//! the program and decimal strings on the wire, so that a JavaScript peer never
//! rounds them. Every `u64` that crosses the boundary goes through
//! [`DecimalU64`].

use vstd::prelude::*;
use crate::text::{decimal, decimal_string, parse_u64, spec_parse_u64};

verus! {

/// An unsigned integer that travels as a decimal string.
#[derive(Debug, Clone, Copy, PartialEq, Eq, PartialOrd, Ord, Hash, Default)]
pub struct DecimalU64(pub u64);

impl DecimalU64 {
    pub fn new(value: u64) -> (r: Self)
        ensures
            r.0 == value,
    {
        DecimalU64(value)
    }

    pub fn get(self) -> (r: u64)
        ensures
            r == self.0,
    {
        self.0
    }

    /// The wire form: the canonical decimal rendering.
    pub fn to_string(&self) -> (r: String)
        ensures
            r@ == decimal(self.0 as nat),
    {
        decimal_string(self.0)
    }

    /// Reads the wire form back; accepts what `str::parse::<u64>` accepts.
    pub fn parse(s: &str) -> (r: Option<DecimalU64>)
        ensures
            r == (match spec_parse_u64(s@) {
                Some(v) => Some(DecimalU64(v)),
                None => None,
            }),
    {
        match parse_u64(s) {
            Some(v) => Some(DecimalU64(v)),
            None => None,
        }
    }
}

/// Reading back what [`DecimalU64::to_string`] wrote yields the same value.
pub proof fn lemma_decimal_u64_round_trip(v: DecimalU64)
    ensures
        spec_parse_u64(decimal(v.0 as nat)) == Some(v.0),
{
    crate::text::lemma_parse_decimal_round_trip(v.0);
}

impl From<u64> for DecimalU64 {
    fn from(value: u64) -> (r: Self) {
        DecimalU64(value)
    }
}

impl vstd::std_specs::convert::FromSpecImpl<u64> for DecimalU64 {
    open spec fn obeys_from_spec() -> bool {
        true
    }

    open spec fn from_spec(v: u64) -> DecimalU64 {
        DecimalU64(v)
    }
}

/// Identifier of a node: one physical PC together with its owning user.
#[derive(Debug, Clone, PartialEq, Eq, PartialOrd, Ord, Hash)]
pub struct NodeId(pub String);

impl NodeId {
    pub fn as_str(&self) -> (r: &str)
        ensures
            r@ == self.0@,
    {
        self.0.as_str()
    }

    /// A copy of the identifier.
    pub fn duplicate(&self) -> (r: Self)
        ensures
            r == *self,
    {
        NodeId(self.0.clone())
    }
}

impl From<&str> for NodeId {
    fn from(value: &str) -> (r: Self)
        ensures
            r.0@ == value@,
    {
        NodeId(value.to_owned())
    }
}

impl vstd::std_specs::convert::FromSpecImpl<&str> for NodeId {
    open spec fn obeys_from_spec() -> bool {
        false
    }

    open spec fn from_spec(v: &str) -> NodeId {
        choose|r: NodeId| r.0@ == v@
    }
}

impl From<String> for NodeId {
    fn from(value: String) -> (r: Self)
        ensures
            r.0 == value,
    {
        NodeId(value)
    }
}

impl vstd::std_specs::convert::FromSpecImpl<String> for NodeId {
    open spec fn obeys_from_spec() -> bool {
        true
    }

    open spec fn from_spec(v: String) -> NodeId {
        NodeId(v)
    }
}

/// Identifier of a backend: native Windows or one concrete WSL environment.
#[derive(Debug, Clone, PartialEq, Eq, PartialOrd, Ord, Hash)]
pub struct BackendId(pub String);

impl BackendId {
    pub fn as_str(&self) -> (r: &str)
        ensures
            r@ == self.0@,
    {
        self.0.as_str()
    }

    /// A copy of the identifier.
    pub fn duplicate(&self) -> (r: Self)
        ensures
            r == *self,
    {
        BackendId(self.0.clone())
    }
}

impl From<&str> for BackendId {
    fn from(value: &str) -> (r: Self)
        ensures
            r.0@ == value@,
    {
        BackendId(value.to_owned())
    }
}

impl vstd::std_specs::convert::FromSpecImpl<&str> for BackendId {
    open spec fn obeys_from_spec() -> bool {
        false
    }

    open spec fn from_spec(v: &str) -> BackendId {
        choose|r: BackendId| r.0@ == v@
    }
}

impl From<String> for BackendId {
    fn from(value: String) -> (r: Self)
        ensures
            r.0 == value,
    {
        BackendId(value)
    }
}

impl vstd::std_specs::convert::FromSpecImpl<String> for BackendId {
    open spec fn obeys_from_spec() -> bool {
        true
    }

    open spec fn from_spec(v: String) -> BackendId {
        BackendId(v)
    }
}

/// Identifier of a scope: a GitHub host together with a repository or organisation.
#[derive(Debug, Clone, PartialEq, Eq, PartialOrd, Ord, Hash)]
pub struct ScopeId(pub String);

impl ScopeId {
    pub fn as_str(&self) -> (r: &str)
        ensures
            r@ == self.0@,
    {
        self.0.as_str()
    }

    /// A copy of the identifier.
    pub fn duplicate(&self) -> (r: Self)
        ensures
            r == *self,
    {
        ScopeId(self.0.clone())
    }
}

impl From<&str> for ScopeId {
    fn from(value: &str) -> (r: Self)
        ensures
            r.0@ == value@,
    {
        ScopeId(value.to_owned())
    }
}

impl vstd::std_specs::convert::FromSpecImpl<&str> for ScopeId {
    open spec fn obeys_from_spec() -> bool {
        false
    }

    open spec fn from_spec(v: &str) -> ScopeId {
        choose|r: ScopeId| r.0@ == v@
    }
}

impl From<String> for ScopeId {
    fn from(value: String) -> (r: Self)
        ensures
            r.0 == value,
    {
        ScopeId(value)
    }
}

impl vstd::std_specs::convert::FromSpecImpl<String> for ScopeId {
    open spec fn obeys_from_spec() -> bool {
        true
    }

    open spec fn from_spec(v: String) -> ScopeId {
        ScopeId(v)
    }
}

/// Locally assigned identifier of a runner; distinct from GitHub's numeric ID.
#[derive(Debug, Clone, PartialEq, Eq, PartialOrd, Ord, Hash)]
pub struct RunnerId(pub String);

impl RunnerId {
    pub fn as_str(&self) -> (r: &str)
        ensures
            r@ == self.0@,
    {
        self.0.as_str()
    }

    /// A copy of the identifier.
    pub fn duplicate(&self) -> (r: Self)
        ensures
            r == *self,
    {
        RunnerId(self.0.clone())
    }
}

impl From<&str> for RunnerId {
    fn from(value: &str) -> (r: Self)
        ensures
            r.0@ == value@,
    {
        RunnerId(value.to_owned())
    }
}

impl vstd::std_specs::convert::FromSpecImpl<&str> for RunnerId {
    open spec fn obeys_from_spec() -> bool {
        false
    }

    open spec fn from_spec(v: &str) -> RunnerId {
        choose|r: RunnerId| r.0@ == v@
    }
}

impl From<String> for RunnerId {
    fn from(value: String) -> (r: Self)
        ensures
            r.0 == value,
    {
        RunnerId(value)
    }
}

impl vstd::std_specs::convert::FromSpecImpl<String> for RunnerId {
    open spec fn obeys_from_spec() -> bool {
        true
    }

    open spec fn from_spec(v: String) -> RunnerId {
        RunnerId(v)
    }
}

/// Identifier of an operation.
#[derive(Debug, Clone, PartialEq, Eq, PartialOrd, Ord, Hash)]
pub struct OperationId(pub String);

impl OperationId {
    pub fn as_str(&self) -> (r: &str)
        ensures
            r@ == self.0@,
    {
        self.0.as_str()
    }

    /// A copy of the identifier.
    pub fn duplicate(&self) -> (r: Self)
        ensures
            r == *self,
    {
        OperationId(self.0.clone())
    }
}

impl From<&str> for OperationId {
    fn from(value: &str) -> (r: Self)
        ensures
            r.0@ == value@,
    {
        OperationId(value.to_owned())
    }
}

impl vstd::std_specs::convert::FromSpecImpl<&str> for OperationId {
    open spec fn obeys_from_spec() -> bool {
        false
    }

    open spec fn from_spec(v: &str) -> OperationId {
        choose|r: OperationId| r.0@ == v@
    }
}

impl From<String> for OperationId {
    fn from(value: String) -> (r: Self)
        ensures
            r.0 == value,
    {
        OperationId(value)
    }
}

impl vstd::std_specs::convert::FromSpecImpl<String> for OperationId {
    open spec fn obeys_from_spec() -> bool {
        true
    }

    open spec fn from_spec(v: String) -> OperationId {
        OperationId(v)
    }
}

/// Idempotency key chosen by the caller; resending the same key converges on the same operation.
#[derive(Debug, Clone, PartialEq, Eq, PartialOrd, Ord, Hash)]
pub struct RequestId(pub String);

impl RequestId {
    pub fn as_str(&self) -> (r: &str)
        ensures
            r@ == self.0@,
    {
        self.0.as_str()
    }

    /// A copy of the identifier.
    pub fn duplicate(&self) -> (r: Self)
        ensures
            r == *self,
    {
        RequestId(self.0.clone())
    }
}

impl From<&str> for RequestId {
    fn from(value: &str) -> (r: Self)
        ensures
            r.0@ == value@,
    {
        RequestId(value.to_owned())
    }
}

impl vstd::std_specs::convert::FromSpecImpl<&str> for RequestId {
    open spec fn obeys_from_spec() -> bool {
        false
    }

    open spec fn from_spec(v: &str) -> RequestId {
        choose|r: RequestId| r.0@ == v@
    }
}

impl From<String> for RequestId {
    fn from(value: String) -> (r: Self)
        ensures
            r.0 == value,
    {
        RequestId(value)
    }
}

impl vstd::std_specs::convert::FromSpecImpl<String> for RequestId {
    open spec fn obeys_from_spec() -> bool {
        true
    }

    open spec fn from_spec(v: String) -> RequestId {
        RequestId(v)
    }
}

/// Identifier of a credential reference; never the secret itself.
#[derive(Debug, Clone, PartialEq, Eq, PartialOrd, Ord, Hash)]
pub struct CredentialRefId(pub String);

impl CredentialRefId {
    pub fn as_str(&self) -> (r: &str)
        ensures
            r@ == self.0@,
    {
        self.0.as_str()
    }

    /// A copy of the identifier.
    pub fn duplicate(&self) -> (r: Self)
        ensures
            r == *self,
    {
        CredentialRefId(self.0.clone())
    }
}

impl From<&str> for CredentialRefId {
    fn from(value: &str) -> (r: Self)
        ensures
            r.0@ == value@,
    {
        CredentialRefId(value.to_owned())
    }
}

impl vstd::std_specs::convert::FromSpecImpl<&str> for CredentialRefId {
    open spec fn obeys_from_spec() -> bool {
        false
    }

    open spec fn from_spec(v: &str) -> CredentialRefId {
        choose|r: CredentialRefId| r.0@ == v@
    }
}

impl From<String> for CredentialRefId {
    fn from(value: String) -> (r: Self)
        ensures
            r.0 == value,
    {
        CredentialRefId(value)
    }
}

impl vstd::std_specs::convert::FromSpecImpl<String> for CredentialRefId {
    open spec fn obeys_from_spec() -> bool {
        true
    }

    open spec fn from_spec(v: String) -> CredentialRefId {
        CredentialRefId(v)
    }
}

/// Generation of the Agent; it changes when the Agent restarts, and events of an older generation are dropped.
#[derive(Debug, Clone, PartialEq, Eq, PartialOrd, Ord, Hash)]
pub struct AgentGeneration(pub String);

impl AgentGeneration {
    pub fn as_str(&self) -> (r: &str)
        ensures
            r@ == self.0@,
    {
        self.0.as_str()
    }

    /// A copy of the identifier.
    pub fn duplicate(&self) -> (r: Self)
        ensures
            r == *self,
    {
        AgentGeneration(self.0.clone())
    }
}

impl From<&str> for AgentGeneration {
    fn from(value: &str) -> (r: Self)
        ensures
            r.0@ == value@,
    {
        AgentGeneration(value.to_owned())
    }
}

impl vstd::std_specs::convert::FromSpecImpl<&str> for AgentGeneration {
    open spec fn obeys_from_spec() -> bool {
        false
    }

    open spec fn from_spec(v: &str) -> AgentGeneration {
        choose|r: AgentGeneration| r.0@ == v@
    }
}

impl From<String> for AgentGeneration {
    fn from(value: String) -> (r: Self)
        ensures
            r.0 == value,
    {
        AgentGeneration(value)
    }
}

impl vstd::std_specs::convert::FromSpecImpl<String> for AgentGeneration {
    open spec fn obeys_from_spec() -> bool {
        true
    }

    open spec fn from_spec(v: String) -> AgentGeneration {
        AgentGeneration(v)
    }
}

/// A UTC instant in RFC 3339 form.
#[derive(Debug, Clone, PartialEq, Eq, PartialOrd, Ord, Hash)]
pub struct Timestamp(pub String);

impl Timestamp {
    pub fn as_str(&self) -> (r: &str)
        ensures
            r@ == self.0@,
    {
        self.0.as_str()
    }

    /// A copy of the identifier.
    pub fn duplicate(&self) -> (r: Self)
        ensures
            r == *self,
    {
        Timestamp(self.0.clone())
    }
}

impl From<&str> for Timestamp {
    fn from(value: &str) -> (r: Self)
        ensures
            r.0@ == value@,
    {
        Timestamp(value.to_owned())
    }
}

impl vstd::std_specs::convert::FromSpecImpl<&str> for Timestamp {
    open spec fn obeys_from_spec() -> bool {
        false
    }

    open spec fn from_spec(v: &str) -> Timestamp {
        choose|r: Timestamp| r.0@ == v@
    }
}

impl From<String> for Timestamp {
    fn from(value: String) -> (r: Self)
        ensures
            r.0 == value,
    {
        Timestamp(value)
    }
}

impl vstd::std_specs::convert::FromSpecImpl<String> for Timestamp {
    open spec fn obeys_from_spec() -> bool {
        true
    }

    open spec fn from_spec(v: String) -> Timestamp {
        Timestamp(v)
    }
}

} // verus!
