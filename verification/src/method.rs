//! The fixed method registry.
//!
//! Every method the Agent can be asked for is listed here, and a name outside
//! the list is refused when a message is decoded. There is no generic `exec`,
//! `readFile`, `writeFile` or `sql` entry point.

use vstd::prelude::*;
use crate::text::str_eq;

verus! {

/// Every method the Agent accepts.
#[derive(Debug, Clone, Copy, PartialEq, Eq, Hash, Structural)]
pub enum Method {
    SystemHandshake,
    SystemDoctor,
    NodeSnapshot,
    NodeStart,
    NodeStop,
    NodeForceStop,
    RunnerPlanCreate,
    RunnerApplyCreate,
    RunnerPlanRemove,
    RunnerApplyRemove,
    OperationGet,
    OperationCancel,
    AuthBeginDevice,
    AuthCancel,
    AuthLogout,
    CredentialImport,
    EventsSubscribe,
    LogsSubscribe,
    LogsExport,
    SettingsPlan,
    SettingsApply,
}

/// The wire name of a method.
pub open spec fn wire_name(m: Method) -> Seq<char> {
    match m {
            Method::SystemHandshake => "system.handshake"@,
            Method::SystemDoctor => "system.doctor"@,
            Method::NodeSnapshot => "node.snapshot"@,
            Method::NodeStart => "node.start"@,
            Method::NodeStop => "node.stop"@,
            Method::NodeForceStop => "node.forceStop"@,
            Method::RunnerPlanCreate => "runner.planCreate"@,
            Method::RunnerApplyCreate => "runner.applyCreate"@,
            Method::RunnerPlanRemove => "runner.planRemove"@,
            Method::RunnerApplyRemove => "runner.applyRemove"@,
            Method::OperationGet => "operation.get"@,
            Method::OperationCancel => "operation.cancel"@,
            Method::AuthBeginDevice => "auth.beginDevice"@,
            Method::AuthCancel => "auth.cancel"@,
            Method::AuthLogout => "auth.logout"@,
            Method::CredentialImport => "credential.import"@,
            Method::EventsSubscribe => "events.subscribe"@,
            Method::LogsSubscribe => "logs.subscribe"@,
            Method::LogsExport => "logs.export"@,
            Method::SettingsPlan => "settings.plan"@,
            Method::SettingsApply => "settings.apply"@,
    }
}

/// Whether a method has effects outside the Agent. Writing a diagnostics
/// archive counts: it asks for an output location.
pub open spec fn spec_is_mutating(m: Method) -> bool {
    match m {
        Method::SystemHandshake => false,
        Method::SystemDoctor => false,
        Method::NodeSnapshot => false,
        Method::NodeStart => true,
        Method::NodeStop => true,
        Method::NodeForceStop => true,
        Method::RunnerPlanCreate => false,
        Method::RunnerApplyCreate => true,
        Method::RunnerPlanRemove => false,
        Method::RunnerApplyRemove => true,
        Method::OperationGet => false,
        Method::OperationCancel => true,
        Method::AuthBeginDevice => true,
        Method::AuthCancel => true,
        Method::AuthLogout => true,
        Method::CredentialImport => true,
        Method::EventsSubscribe => false,
        Method::LogsSubscribe => false,
        Method::LogsExport => true,
        Method::SettingsPlan => false,
        Method::SettingsApply => true,
    }
}

/// The method whose wire name is `name`, if any.
pub open spec fn spec_from_wire_name(name: Seq<char>) -> Option<Method> {
    if exists|m: Method| wire_name(m) == name {
        Some(choose|m: Method| wire_name(m) == name)
    } else {
        None
    }
}

/// The number of methods in the registry.
pub const METHOD_COUNT: usize = 21;

impl Method {
    /// The whole registry, in declaration order.
    pub fn all() -> (v: Vec<Method>)
        ensures
            v.len() == METHOD_COUNT,
            forall|m: Method| v@.contains(m),
            forall|i: int, j: int| 0 <= i < j < v.len() ==> v@[i] != v@[j],
    {
        let mut v: Vec<Method> = Vec::new();
        v.push(Method::SystemHandshake);
        v.push(Method::SystemDoctor);
        v.push(Method::NodeSnapshot);
        v.push(Method::NodeStart);
        v.push(Method::NodeStop);
        v.push(Method::NodeForceStop);
        v.push(Method::RunnerPlanCreate);
        v.push(Method::RunnerApplyCreate);
        v.push(Method::RunnerPlanRemove);
        v.push(Method::RunnerApplyRemove);
        v.push(Method::OperationGet);
        v.push(Method::OperationCancel);
        v.push(Method::AuthBeginDevice);
        v.push(Method::AuthCancel);
        v.push(Method::AuthLogout);
        v.push(Method::CredentialImport);
        v.push(Method::EventsSubscribe);
        v.push(Method::LogsSubscribe);
        v.push(Method::LogsExport);
        v.push(Method::SettingsPlan);
        v.push(Method::SettingsApply);
        proof {
            assert forall|m: Method| v@.contains(m) by {
                match m {
                    Method::SystemHandshake => assert(v@[0] == m),
                    Method::SystemDoctor => assert(v@[1] == m),
                    Method::NodeSnapshot => assert(v@[2] == m),
                    Method::NodeStart => assert(v@[3] == m),
                    Method::NodeStop => assert(v@[4] == m),
                    Method::NodeForceStop => assert(v@[5] == m),
                    Method::RunnerPlanCreate => assert(v@[6] == m),
                    Method::RunnerApplyCreate => assert(v@[7] == m),
                    Method::RunnerPlanRemove => assert(v@[8] == m),
                    Method::RunnerApplyRemove => assert(v@[9] == m),
                    Method::OperationGet => assert(v@[10] == m),
                    Method::OperationCancel => assert(v@[11] == m),
                    Method::AuthBeginDevice => assert(v@[12] == m),
                    Method::AuthCancel => assert(v@[13] == m),
                    Method::AuthLogout => assert(v@[14] == m),
                    Method::CredentialImport => assert(v@[15] == m),
                    Method::EventsSubscribe => assert(v@[16] == m),
                    Method::LogsSubscribe => assert(v@[17] == m),
                    Method::LogsExport => assert(v@[18] == m),
                    Method::SettingsPlan => assert(v@[19] == m),
                    Method::SettingsApply => assert(v@[20] == m),
                }
            }
        }
        v
    }

    /// The name on the wire.
    pub fn as_str(self) -> (r: &'static str)
        ensures
            r@ == wire_name(self),
    {
        match self {
            Method::SystemHandshake => "system.handshake",
            Method::SystemDoctor => "system.doctor",
            Method::NodeSnapshot => "node.snapshot",
            Method::NodeStart => "node.start",
            Method::NodeStop => "node.stop",
            Method::NodeForceStop => "node.forceStop",
            Method::RunnerPlanCreate => "runner.planCreate",
            Method::RunnerApplyCreate => "runner.applyCreate",
            Method::RunnerPlanRemove => "runner.planRemove",
            Method::RunnerApplyRemove => "runner.applyRemove",
            Method::OperationGet => "operation.get",
            Method::OperationCancel => "operation.cancel",
            Method::AuthBeginDevice => "auth.beginDevice",
            Method::AuthCancel => "auth.cancel",
            Method::AuthLogout => "auth.logout",
            Method::CredentialImport => "credential.import",
            Method::EventsSubscribe => "events.subscribe",
            Method::LogsSubscribe => "logs.subscribe",
            Method::LogsExport => "logs.export",
            Method::SettingsPlan => "settings.plan",
            Method::SettingsApply => "settings.apply",
        }
    }

    /// Whether the method has effects outside the Agent; a read-only method
    /// may be retried on different grounds.
    pub fn is_mutating(self) -> (r: bool)
        ensures
            r == spec_is_mutating(self),
    {
        match self {
            Method::SystemHandshake => false,
            Method::SystemDoctor => false,
            Method::NodeSnapshot => false,
            Method::NodeStart => true,
            Method::NodeStop => true,
            Method::NodeForceStop => true,
            Method::RunnerPlanCreate => false,
            Method::RunnerApplyCreate => true,
            Method::RunnerPlanRemove => false,
            Method::RunnerApplyRemove => true,
            Method::OperationGet => false,
            Method::OperationCancel => true,
            Method::AuthBeginDevice => true,
            Method::AuthCancel => true,
            Method::AuthLogout => true,
            Method::CredentialImport => true,
            Method::EventsSubscribe => false,
            Method::LogsSubscribe => false,
            Method::LogsExport => true,
            Method::SettingsPlan => false,
            Method::SettingsApply => true,
        }
    }
}

/// Wire names are pairwise distinct.
pub proof fn lemma_wire_names_distinct(a: Method, b: Method)
    ensures
        wire_name(a) == wire_name(b) ==> a == b,
{
    reveal_strlit("system.handshake");
    reveal_strlit("system.doctor");
    reveal_strlit("node.snapshot");
    reveal_strlit("node.start");
    reveal_strlit("node.stop");
    reveal_strlit("node.forceStop");
    reveal_strlit("runner.planCreate");
    reveal_strlit("runner.applyCreate");
    reveal_strlit("runner.planRemove");
    reveal_strlit("runner.applyRemove");
    reveal_strlit("operation.get");
    reveal_strlit("operation.cancel");
    reveal_strlit("auth.beginDevice");
    reveal_strlit("auth.cancel");
    reveal_strlit("auth.logout");
    reveal_strlit("credential.import");
    reveal_strlit("events.subscribe");
    reveal_strlit("logs.subscribe");
    reveal_strlit("logs.export");
    reveal_strlit("settings.plan");
    reveal_strlit("settings.apply");
    if wire_name(a) == wire_name(b) {
        assert(wire_name(a)[5] == wire_name(b)[5]);
        if wire_name(a).len() > 12 {
            assert(wire_name(a)[12] == wire_name(b)[12]);
        }
    }
}

/// Looks a method up by its wire name. A name outside the registry gives
/// `None`; the lookup is the inverse of [`Method::as_str`].
pub fn method_from_wire_name(name: &str) -> (r: Option<Method>)
    ensures
        r == spec_from_wire_name(name@),
        r matches Some(m) ==> wire_name(m) == name@,
{
    proof {
        assert forall|a: Method, b: Method| wire_name(a) == wire_name(b) implies a == b by {
            lemma_wire_names_distinct(a, b);
        }
    }
    if str_eq(name, "system.handshake") {
        assert(wire_name(Method::SystemHandshake) == name@);
        return Some(Method::SystemHandshake);
    }
    if str_eq(name, "system.doctor") {
        assert(wire_name(Method::SystemDoctor) == name@);
        return Some(Method::SystemDoctor);
    }
    if str_eq(name, "node.snapshot") {
        assert(wire_name(Method::NodeSnapshot) == name@);
        return Some(Method::NodeSnapshot);
    }
    if str_eq(name, "node.start") {
        assert(wire_name(Method::NodeStart) == name@);
        return Some(Method::NodeStart);
    }
    if str_eq(name, "node.stop") {
        assert(wire_name(Method::NodeStop) == name@);
        return Some(Method::NodeStop);
    }
    if str_eq(name, "node.forceStop") {
        assert(wire_name(Method::NodeForceStop) == name@);
        return Some(Method::NodeForceStop);
    }
    if str_eq(name, "runner.planCreate") {
        assert(wire_name(Method::RunnerPlanCreate) == name@);
        return Some(Method::RunnerPlanCreate);
    }
    if str_eq(name, "runner.applyCreate") {
        assert(wire_name(Method::RunnerApplyCreate) == name@);
        return Some(Method::RunnerApplyCreate);
    }
    if str_eq(name, "runner.planRemove") {
        assert(wire_name(Method::RunnerPlanRemove) == name@);
        return Some(Method::RunnerPlanRemove);
    }
    if str_eq(name, "runner.applyRemove") {
        assert(wire_name(Method::RunnerApplyRemove) == name@);
        return Some(Method::RunnerApplyRemove);
    }
    if str_eq(name, "operation.get") {
        assert(wire_name(Method::OperationGet) == name@);
        return Some(Method::OperationGet);
    }
    if str_eq(name, "operation.cancel") {
        assert(wire_name(Method::OperationCancel) == name@);
        return Some(Method::OperationCancel);
    }
    if str_eq(name, "auth.beginDevice") {
        assert(wire_name(Method::AuthBeginDevice) == name@);
        return Some(Method::AuthBeginDevice);
    }
    if str_eq(name, "auth.cancel") {
        assert(wire_name(Method::AuthCancel) == name@);
        return Some(Method::AuthCancel);
    }
    if str_eq(name, "auth.logout") {
        assert(wire_name(Method::AuthLogout) == name@);
        return Some(Method::AuthLogout);
    }
    if str_eq(name, "credential.import") {
        assert(wire_name(Method::CredentialImport) == name@);
        return Some(Method::CredentialImport);
    }
    if str_eq(name, "events.subscribe") {
        assert(wire_name(Method::EventsSubscribe) == name@);
        return Some(Method::EventsSubscribe);
    }
    if str_eq(name, "logs.subscribe") {
        assert(wire_name(Method::LogsSubscribe) == name@);
        return Some(Method::LogsSubscribe);
    }
    if str_eq(name, "logs.export") {
        assert(wire_name(Method::LogsExport) == name@);
        return Some(Method::LogsExport);
    }
    if str_eq(name, "settings.plan") {
        assert(wire_name(Method::SettingsPlan) == name@);
        return Some(Method::SettingsPlan);
    }
    if str_eq(name, "settings.apply") {
        assert(wire_name(Method::SettingsApply) == name@);
        return Some(Method::SettingsApply);
    }
    proof {
        assert forall|m: Method| wire_name(m) != name@ by {
            match m {
                Method::SystemHandshake => {}
                Method::SystemDoctor => {}
                Method::NodeSnapshot => {}
                Method::NodeStart => {}
                Method::NodeStop => {}
                Method::NodeForceStop => {}
                Method::RunnerPlanCreate => {}
                Method::RunnerApplyCreate => {}
                Method::RunnerPlanRemove => {}
                Method::RunnerApplyRemove => {}
                Method::OperationGet => {}
                Method::OperationCancel => {}
                Method::AuthBeginDevice => {}
                Method::AuthCancel => {}
                Method::AuthLogout => {}
                Method::CredentialImport => {}
                Method::EventsSubscribe => {}
                Method::LogsSubscribe => {}
                Method::LogsExport => {}
                Method::SettingsPlan => {}
                Method::SettingsApply => {}
            }
        }
    }
    None
}

/// Reading the wire name of a method back gives the same method.
pub proof fn lemma_wire_name_round_trip(m: Method)
    ensures
        spec_from_wire_name(wire_name(m)) == Some(m),
{
    assert forall|a: Method, b: Method| wire_name(a) == wire_name(b) implies a == b by {
        lemma_wire_names_distinct(a, b);
    }
}

} // verus!
