use runnerdock::bridge::{refuse, to_payload, AGENT_EXECUTABLE};
use runnerdock::client::{request_id_for, take_reply, unwrap_response, ClientError};
use runnerdock::dto::{ForceStopRequest, HandshakeRequest, NodeOperationRequest, OperationPhase};
use runnerdock::error::{DetailValue, ErrorCode, ErrorPayload};
use runnerdock::handshake::{HandshakeRejection, PROTOCOL_MAJOR};
use runnerdock::ids::{DecimalU64, RequestId};
use runnerdock::message::{Reply, Request, RequestPayload, Response};
use runnerdock::method::Method;
use runnerdock::mock::{MockBackend, MockScenario};
use runnerdock::name::{pipe_name, sid_hash, single_instance_name};
use runnerdock::security::{owner_only_sddl, validate_sid, SecurityError};
use runnerdock::service::{served, AgentService, MockAgentService};

const SID: &str = "S-1-5-21-1111111111-2222222222-3333333333-1001";

// ---- names ------------------------------------------------------------------------

#[test]
fn pipe_name_follows_the_documented_shape() {
    let name = pipe_name(SID).unwrap();

    assert_eq!(
        name.chars().take(9).collect::<String>(),
        ['\\', '\\', '.', '\\', 'p', 'i', 'p', 'e', '\\'].iter().collect::<String>(),
        "{name}"
    );
    assert!(name.starts_with(r"\\.\pipe\runnerdock."), "{name}");
    assert!(name.ends_with(".v1"), "{name}");
}

#[test]
fn pipe_name_does_not_leak_the_raw_sid() {
    assert!(!pipe_name(SID).unwrap().contains(SID));
}

#[test]
fn the_same_sid_always_maps_to_the_same_name() {
    assert_eq!(pipe_name(SID).unwrap(), pipe_name(SID).unwrap());
    assert_eq!(pipe_name(SID).unwrap(), pipe_name(&SID.to_ascii_lowercase()).unwrap());
}

#[test]
fn different_sids_map_to_different_names() {
    let other = "S-1-5-21-1111111111-2222222222-3333333333-1002";

    assert_ne!(pipe_name(SID).unwrap(), pipe_name(other).unwrap());
}

#[test]
fn rejects_a_value_that_is_not_a_sid() {
    assert!(pipe_name("not-a-sid").is_err());
    assert!(single_instance_name("").is_err());
}

#[test]
fn single_instance_lock_lives_in_the_local_namespace() {
    let name = single_instance_name(SID).unwrap();

    assert!(name.starts_with(r"Local\runnerdock."), "{name}");
    assert!(!name.contains(SID));
}

// ---- the DACL ---------------------------------------------------------------------

#[test]
fn grants_all_access_to_the_owner_only() {
    let sddl = owner_only_sddl(SID).unwrap();

    assert_eq!(sddl, format!("O:{SID}G:{SID}D:P(A;;GA;;;{SID})"));
    assert_eq!(sddl.matches("(A;;").count(), 1);
}

#[test]
fn the_dacl_is_protected_from_inheritance() {
    assert!(owner_only_sddl(SID).unwrap().contains("D:P("));
}

#[test]
fn does_not_grant_well_known_administrative_principals() {
    let sddl = owner_only_sddl(SID).unwrap();

    for principal in [";BA)", ";SY)", ";WD)", ";AU)"] {
        assert!(!sddl.contains(principal), "{sddl} holds {principal}");
    }
}

#[test]
fn rejects_sddl_abbreviations_and_injection_attempts() {
    for candidate in [
        "BA",
        "WD",
        "",
        "S-1",
        "S-1-5",
        "S-1-5-21-1001)(A;;GA;;;WD",
        "S-1-5-21-x",
        "S-2-5-21-1001",
    ] {
        assert_eq!(owner_only_sddl(candidate), Err(SecurityError::MalformedSid), "{candidate} accepted");
    }
}

#[test]
fn accepts_a_well_formed_sid() {
    assert!(validate_sid(SID).is_ok());
    assert!(validate_sid("S-1-5-18").is_ok());
}

// ---- the service ------------------------------------------------------------------

fn service() -> MockAgentService {
    MockAgentService::new(MockBackend::with_scenario(7, MockScenario::Idle))
}

fn request(method: Method, payload: RequestPayload) -> Request {
    Request::new(RequestId::from("req-1"), method, payload)
}

fn handshake_payload(major: u32) -> RequestPayload {
    RequestPayload {
        handshake: Some(HandshakeRequest {
            protocol_major: major,
            implementation_version: "0.0.0".to_owned(),
        }),
        node_operation: None,
        force_stop: None,
    }
}

fn node_payload(node: &str, revision: u64) -> RequestPayload {
    RequestPayload {
        handshake: None,
        node_operation: Some(NodeOperationRequest {
            node_id: node.into(),
            expected_revision: DecimalU64::new(revision),
        }),
        force_stop: None,
    }
}

#[test]
fn handshake_reports_only_the_methods_this_version_serves() {
    let service = service();

    let result = service.handshake(&handshake_payload(PROTOCOL_MAJOR)).unwrap();

    assert_eq!(result.protocol_major, PROTOCOL_MAJOR);
    assert!(result.capabilities.contains(&"node.snapshot".to_owned()));
    assert!(!result.capabilities.contains(&"credential.import".to_owned()));
}

#[test]
fn handshake_rejects_a_different_protocol_major() {
    let error = service().handshake(&handshake_payload(PROTOCOL_MAJOR + 1)).unwrap_err();

    assert_eq!(error.code, ErrorCode::ProtocolMismatch);
    assert_eq!(
        error.detail("rejection"),
        Some(&DetailValue::Rejection(HandshakeRejection::PeerTooNew {
            peer: PROTOCOL_MAJOR + 1,
            expected: PROTOCOL_MAJOR
        }))
    );
}

#[test]
fn a_registered_but_unserved_method_is_refused_instead_of_answered() {
    let error = service()
        .call(&request(Method::CredentialImport, RequestPayload::empty()))
        .unwrap_err();

    assert_eq!(error.code, ErrorCode::MethodNotServed);
    assert_eq!(error.detail("method"), Some(&DetailValue::Text("credential.import".to_owned())));
}

#[test]
fn every_method_is_either_served_or_refused() {
    let served = served();
    for method in Method::all() {
        let outcome = service().call(&request(method, RequestPayload::empty()));

        if served.contains(&method) {
            if let Err(error) = outcome {
                assert_ne!(error.code, ErrorCode::MethodNotServed, "{method:?}");
            }
        } else {
            assert_eq!(outcome.unwrap_err().code, ErrorCode::MethodNotServed, "{method:?}");
        }
    }
}

#[test]
fn node_start_refuses_a_node_id_this_agent_does_not_own() {
    let mut service = service();

    let error = service
        .call(&request(Method::NodeStart, node_payload("node-elsewhere", 1)))
        .unwrap_err();

    assert_eq!(error.code, ErrorCode::PathNotOwned);
}

#[test]
fn node_start_accepts_a_request_for_the_owned_node() {
    let mut service = service();
    let node_id = service.backend().node_id().clone();
    let revision = service.backend().revision();

    let result = service
        .call(&request(Method::NodeStart, node_payload(node_id.as_str(), revision)))
        .unwrap();

    match result {
        Reply::Accepted(accepted) => assert!(accepted.accepted),
        other => panic!("{other:?}"),
    }
}

#[test]
fn operation_get_does_not_invent_a_phase_for_an_unknown_request_id() {
    let error = service()
        .call(&request(Method::OperationGet, RequestPayload::empty()))
        .unwrap_err();

    assert_eq!(error.code, ErrorCode::RequestIdConflict);
}

// ---- the client -----------------------------------------------------------------

#[test]
fn a_refused_response_is_not_turned_into_a_result() {
    let response = Response::err(RequestId::from("ui-1"), ErrorPayload::new(ErrorCode::MethodNotServed));

    let error = unwrap_response(response).unwrap_err();

    assert!(matches!(error, ClientError::Refused(_)));
}

#[test]
fn a_success_without_a_result_is_not_accepted() {
    let response = Response {
        protocol_major: PROTOCOL_MAJOR,
        request_id: RequestId::from("ui-1"),
        ok: true,
        result: None,
        error: None,
    };

    assert!(matches!(unwrap_response(response).unwrap_err(), ClientError::MalformedResponse));
}

// ---- the desktop bridge -----------------------------------------------------------

#[test]
fn refusals_carry_a_machine_readable_reason() {
    let payload = refuse(ErrorCode::PermissionOrPolicy, "agentBreakawayDenied");

    assert_eq!(payload.code, ErrorCode::PermissionOrPolicy);
    assert_eq!(payload.detail("reason"), Some(&DetailValue::Text("agentBreakawayDenied".to_owned())));
    assert!(!payload.retryable);
}

#[test]
fn a_typed_refusal_of_the_agent_reaches_the_ui_unchanged() {
    let refused = ErrorPayload::new(ErrorCode::RevisionConflict);

    let payload = to_payload(ClientError::Refused(Box::new(refused.clone())));

    assert_eq!(payload, refused);
}

#[test]
fn a_missing_listener_is_reported_as_not_listening() {
    let payload = to_payload(ClientError::Connect(std::io::Error::from(std::io::ErrorKind::NotFound)));

    assert_eq!(payload.code, ErrorCode::PermissionOrPolicy);
    assert_eq!(payload.detail("reason"), Some(&DetailValue::Text("agentNotListening".to_owned())));
}

#[test]
fn request_ids_carry_the_connection_nonce_and_count() {
    assert_eq!(request_id_for("1f-abc", 7).0, "ui-1f-abc-7");
}

#[test]
fn an_answer_to_another_request_is_not_taken_for_this_one() {
    let response = Response::ok(RequestId::from("ui-x-2"), Reply::Phase(OperationPhase::Requested));
    let outcome = take_reply(runnerdock::message::Message::Response(response), &RequestId::from("ui-x-1"));

    assert!(matches!(outcome, Some(Err(ClientError::MalformedResponse))));
}

#[test]
fn a_force_stop_payload_reaches_the_mock_with_its_answer() {
    let mut service = service();
    let node_id = service.backend().node_id().clone();
    let revision = service.backend().revision();
    let payload = RequestPayload {
        handshake: None,
        node_operation: None,
        force_stop: Some(ForceStopRequest {
            node_id,
            expected_revision: DecimalU64::new(revision),
            confirmation: Some("not-the-token".to_owned()),
        }),
    };

    let error = service.call(&request(Method::NodeForceStop, payload)).unwrap_err();

    assert_eq!(error.code, ErrorCode::RequiresConfirmation);
}

#[test]
fn a_node_method_without_its_body_is_a_protocol_mismatch() {
    let error = service().call(&request(Method::NodeStop, RequestPayload::empty())).unwrap_err();

    assert_eq!(error.code, ErrorCode::ProtocolMismatch);
    assert_eq!(error.detail("field"), Some(&DetailValue::Text("payload".to_owned())));
}

#[test]
fn the_sid_hash_is_sixteen_lower_case_hex_digits() {
    let hash = sid_hash(SID);

    assert_eq!(hash.len(), 16);
    assert!(hash.chars().all(|c| c.is_ascii_hexdigit() && !c.is_ascii_uppercase()));
    assert_eq!(hash, sid_hash(&SID.to_ascii_lowercase()));
}

#[test]
fn the_agent_executable_is_resolved_next_to_the_shell() {
    assert_eq!(AGENT_EXECUTABLE, "runnerdock-agent.exe");
    assert!(!AGENT_EXECUTABLE.contains(std::path::MAIN_SEPARATOR));
}

#[test]
fn the_sid_hash_is_fnv1a_over_the_upper_cased_bytes() {
    assert_eq!(sid_hash(""), "cbf29ce484222325");
    assert_eq!(sid_hash("a"), "af63fc4c860222ec");
    assert_eq!(sid_hash("A"), "af63fc4c860222ec");
    assert_eq!(sid_hash("s-1-é"), sid_hash("S-1-é"));
    assert_ne!(sid_hash("é"), sid_hash("É"));
}

#[test]
fn a_malformed_sid_is_reported_with_its_message() {
    assert_eq!(SecurityError::MalformedSid.message(), "SID 文字列として解釈できない");
}
