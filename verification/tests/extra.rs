use runnerdock::contracts::{render_definition, render_typescript, type_of, JsonNode};
use runnerdock::dto::{NodeOperationRequest, OperationPhase};
use runnerdock::error::{DetailValue, ErrorCode};
use runnerdock::frame::{
    check_major, frame_payload, read_checked_frame, read_frame, EncodeError, FrameError, FrameRead,
    MajorField, MAX_FRAME_BYTES,
};
use runnerdock::handshake::PROTOCOL_MAJOR;
use runnerdock::ids::{DecimalU64, RequestId};
use runnerdock::message::{EventKind, EventPayload, Message, Reply, Request, RequestPayload, Response};
use runnerdock::method::Method;
use runnerdock::mock::{mix, MockBackend, MockScenario};
use runnerdock::service::MockAgentService;
use runnerdock::session::{buffer_limit, Session, SessionEnd, Step, MAX_BUFFERED_BYTES};

// ---- framing ------------------------------------------------------------------------

#[test]
fn a_short_buffer_is_incomplete() {
    assert_eq!(read_frame(&[1, 0, 0]), Ok(FrameRead::Incomplete));
    assert_eq!(read_frame(&[3, 0, 0, 0, b'{']), Ok(FrameRead::Incomplete));
}

#[test]
fn a_zero_length_is_refused() {
    assert_eq!(read_frame(&[0, 0, 0, 0]), Err(FrameError::ZeroLength));
}

#[test]
fn a_declared_length_over_the_limit_is_refused_before_reading() {
    let declared = (MAX_FRAME_BYTES + 1) as u32;
    assert_eq!(
        read_frame(&declared.to_le_bytes()),
        Err(FrameError::TooLarge { declared: MAX_FRAME_BYTES + 1 })
    );
}

#[test]
fn invalid_utf8_is_refused() {
    assert_eq!(read_frame(&[2, 0, 0, 0, 0xff, 0xfe]), Err(FrameError::InvalidUtf8));
}

#[test]
fn a_framed_payload_reads_back_with_what_follows_it_left_alone() {
    let mut buffer = frame_payload("{\"a\":1}".as_bytes()).unwrap();
    assert_eq!(&buffer[..4], &7u32.to_le_bytes());
    buffer.extend_from_slice(&[9, 9, 9]);

    assert_eq!(
        read_frame(&buffer),
        Ok(FrameRead::Frame { text: "{\"a\":1}".to_owned(), consumed: 11 })
    );
}

#[test]
fn an_oversized_payload_is_not_framed() {
    let payload = vec![b'a'; MAX_FRAME_BYTES + 1];
    assert_eq!(frame_payload(&payload), Err(EncodeError::TooLarge { size: MAX_FRAME_BYTES + 1 }));
}

#[test]
fn an_unknown_major_is_refused_and_a_huge_one_is_clamped() {
    assert_eq!(check_major(&MajorField::Found(PROTOCOL_MAJOR as u64)), Ok(()));
    assert_eq!(check_major(&MajorField::Found(2)), Err(FrameError::UnknownProtocolMajor { found: 2 }));
    assert_eq!(
        check_major(&MajorField::Found(u64::MAX)),
        Err(FrameError::UnknownProtocolMajor { found: u32::MAX })
    );
    assert!(matches!(check_major(&MajorField::Missing), Err(FrameError::MalformedPayload { .. })));
}

#[test]
fn a_frame_of_another_major_is_refused_when_read() {
    let buffer = frame_payload("{\"protocolMajor\":2,\"kind\":\"event\"}".as_bytes()).unwrap();
    assert_eq!(read_checked_frame(&buffer), Err(FrameError::UnknownProtocolMajor { found: 2 }));

    let not_json = frame_payload("not json".as_bytes()).unwrap();
    assert!(matches!(read_checked_frame(&not_json), Err(FrameError::MalformedPayload { .. })));

    let ok = frame_payload("{\"protocolMajor\":1}".as_bytes()).unwrap();
    assert!(matches!(read_checked_frame(&ok), Ok(FrameRead::Frame { consumed: 23, .. })));
}

// ---- sessions -----------------------------------------------------------------------

fn service() -> MockAgentService {
    MockAgentService::new(MockBackend::with_scenario(11, MockScenario::Idle))
}

fn handshake_message() -> Message {
    Message::Request(Request::new(
        RequestId::from("req-handshake"),
        Method::SystemHandshake,
        RequestPayload {
            handshake: Some(runnerdock::dto::HandshakeRequest {
                protocol_major: PROTOCOL_MAJOR,
                implementation_version: "0.0.0".to_owned(),
            }),
            node_operation: None,
            force_stop: None,
        },
    ))
}

#[test]
fn a_request_before_the_handshake_is_answered_and_closes() {
    let mut session = Session::new();
    let mut service = service();

    let step = session.on_message(
        Message::Request(Request::new(RequestId::from("req-1"), Method::NodeSnapshot, RequestPayload::empty())),
        &mut service,
    );

    match step {
        Step::RespondAndClose(response, end) => {
            assert!(!response.ok);
            let error = response.error.unwrap();
            assert_eq!(error.code, ErrorCode::ProtocolMismatch);
            assert_eq!(error.detail("reason"), Some(&DetailValue::Text("handshakeRequired".to_owned())));
            assert_eq!(end, SessionEnd::HandshakeRequired);
        },
        other => panic!("{other:?}"),
    }
}

#[test]
fn a_response_sent_to_the_agent_closes_the_session() {
    let mut session = Session::new();
    let mut service = service();

    let step = session.on_message(
        Message::Response(Response::ok(RequestId::from("req-1"), Reply::Empty)),
        &mut service,
    );

    assert!(matches!(step, Step::Close(SessionEnd::UnexpectedMessageKind)));
}

#[test]
fn after_the_handshake_a_snapshot_is_served_and_events_follow_an_accepted_start() {
    let mut session = Session::new();
    let mut service = service();

    let step = session.on_message(handshake_message(), &mut service);
    assert!(matches!(step, Step::Respond(ref r) if r.ok));
    assert!(session.handshake_done());
    assert!(session.events_after(&mut service).is_empty());

    let snapshot = session.on_message(
        Message::Request(Request::new(RequestId::from("req-snapshot"), Method::NodeSnapshot, RequestPayload::empty())),
        &mut service,
    );
    assert!(matches!(snapshot, Step::Respond(ref r) if matches!(r.result, Some(Reply::Snapshot(_)))));

    let node_id = service.backend().node_id().clone();
    let start = session.on_message(
        Message::Request(Request::new(
            RequestId::from("req-start"),
            Method::NodeStart,
            RequestPayload {
                handshake: None,
                node_operation: Some(NodeOperationRequest { node_id, expected_revision: DecimalU64::new(1) }),
                force_stop: None,
            },
        )),
        &mut service,
    );
    assert!(matches!(start, Step::Respond(ref r) if r.ok));
    let events = session.events_after(&mut service);
    assert_eq!(events.len(), 1);
    match &events[0] {
        Message::Event(event) => {
            assert_eq!(event.event, EventKind::OperationChanged);
            assert!(matches!(event.payload, EventPayload::Operation(_)));
        },
        other => panic!("{other:?}"),
    }
}

#[test]
fn a_buffer_that_reaches_the_limit_closes_the_session() {
    assert_eq!(buffer_limit(MAX_BUFFERED_BYTES - 1), None);
    assert_eq!(
        buffer_limit(MAX_BUFFERED_BYTES),
        Some(SessionEnd::RejectedFrame(FrameError::TooLarge { declared: MAX_BUFFERED_BYTES }))
    );
}

// ---- the mock's derivations ------------------------------------------------------------

#[test]
fn mixing_follows_splitmix64() {
    assert_eq!(mix(0), 0xe220_a839_7b1d_cdaf);
    assert_eq!(mix(1), 0x910a_2dec_8902_5cc1);
}

#[test]
fn identifiers_are_derived_from_the_seed() {
    let backend = MockBackend::with_scenario(7, MockScenario::Idle);
    let expected_node = format!("node-{:04x}", mix(7 ^ 0x6e6f_6465) & 0xffff);
    let expected_generation = format!("{:08x}", mix(7));

    assert_eq!(backend.node_id().0, expected_node);
    assert_eq!(backend.agent_generation().0, expected_generation);
    let snapshot = backend.snapshot();
    let suffix = mix(7 ^ 0x7769_6e00) & 0xffff;
    assert_eq!(snapshot.runners[0].runner_id.0, format!("runner-windows-{suffix:04x}"));
    assert_eq!(snapshot.runners[0].remote_runner_id, Some(DecimalU64::new(41)));
    assert_eq!(snapshot.runners[1].remote_runner_id, Some(DecimalU64::new(42)));
}

#[test]
fn the_issued_token_is_fixed_by_the_seed_and_the_revision() {
    let mut first = MockBackend::with_scenario(3, MockScenario::Busy);
    let mut second = MockBackend::with_scenario(3, MockScenario::Busy);

    let a = first.issue_force_stop_challenge();
    let b = second.issue_force_stop_challenge();

    assert_eq!(a.token, b.token);
    assert_eq!(a.token, format!("confirm-{:016x}", mix(3 ^ 1)));
    assert_eq!(a.target_id, first.node_id().0);
}

#[test]
fn the_creating_fixture_holds_a_registration_in_progress() {
    let backend = MockBackend::with_scenario(7, MockScenario::Creating);
    let request_id = RequestId(format!("req-create-{:04x}", mix(7) & 0xffff));

    assert_eq!(backend.operation_phase(&request_id), Some(OperationPhase::Registering));
}

#[test]
fn a_used_challenge_does_not_authorise_a_second_forced_stop_in_the_mock() {
    let mut backend = MockBackend::with_scenario(7, MockScenario::Busy);
    let challenge = backend.issue_force_stop_challenge();
    let revision = backend.revision();
    backend
        .request_force_stop(&RequestId::from("req-force-1"), revision, Some(&challenge.token))
        .unwrap();

    let error = backend
        .request_force_stop(&RequestId::from("req-force-2"), backend.revision(), Some(&challenge.token))
        .unwrap_err();

    assert_eq!(error.code, ErrorCode::RequiresConfirmation);
}

// ---- the contract renderer ----------------------------------------------------------------

fn text(s: &str) -> JsonNode {
    JsonNode::Str(s.to_owned())
}

fn object(members: Vec<(&str, JsonNode)>) -> JsonNode {
    JsonNode::Object(members.into_iter().map(|(k, v)| (k.to_owned(), v)).collect(), String::new())
}

fn array(items: Vec<JsonNode>) -> JsonNode {
    JsonNode::Array(items, String::new())
}

#[test]
fn primitive_types_become_typescript_types() {
    assert_eq!(type_of(&object(vec![("type", text("string"))])), "string");
    assert_eq!(type_of(&object(vec![("type", text("integer"))])), "number");
    assert_eq!(
        type_of(&object(vec![("type", array(vec![text("string"), text("null")]))])),
        "string | null"
    );
    assert_eq!(
        type_of(&object(vec![("items", object(vec![("anyOf", array(vec![object(vec![("type", text("string"))]), object(vec![("type", text("null"))])]))])), ("type", text("array"))])),
        "readonly (string | null)[]"
    );
    assert_eq!(type_of(&text("nonsense")), "unknown");
}

#[test]
fn references_enums_and_constants_are_rendered() {
    assert_eq!(type_of(&object(vec![("$ref", text("#/$defs/NodeSnapshot"))])), "NodeSnapshot");
    assert_eq!(
        type_of(&object(vec![("enum", array(vec![text("a"), text("b"), text("a")]))])),
        "\"a\" | \"b\""
    );
    assert_eq!(type_of(&object(vec![("const", text("request"))])), "\"request\"");
}

#[test]
fn an_object_becomes_an_interface_with_optional_fields_marked() {
    let definition = object(vec![
        ("description", text("A node.\n\nSecond line.  ")),
        (
            "properties",
            object(vec![
                ("name", object(vec![("type", text("string"))])),
                ("revision", object(vec![("description", text("Revision.")), ("type", text("integer"))])),
            ]),
        ),
        ("required", array(vec![text("name")])),
        ("type", text("object")),
    ]);

    assert_eq!(
        render_definition("Node", &definition),
        "/**\n * A node.\n *\n * Second line.\n */\nexport interface Node {\n  readonly name: string;\n  /**\n   * Revision.\n   */\n  readonly revision?: number;\n}\n"
    );
}

#[test]
fn the_generated_file_starts_with_the_protocol_major() {
    let schema = object(vec![("$defs", object(vec![("Flag", object(vec![("type", text("boolean"))]))]))]);

    let out = render_typescript(&schema);

    assert!(out.contains(&format!("export const PROTOCOL_MAJOR = {PROTOCOL_MAJOR};\n")));
    assert!(out.ends_with("\nexport type Flag = boolean;\n"));
}

#[test]
fn a_major_that_is_not_an_unsigned_number_is_missing() {
    for text in ["{\"protocolMajor\":\"1\"}", "{\"protocolMajor\":-1}", "{\"kind\":\"event\"}", "[1]"] {
        let buffer = frame_payload(text.as_bytes()).unwrap();
        assert_eq!(
            read_checked_frame(&buffer),
            Err(FrameError::MalformedPayload { detail: "protocolMajor がない".to_owned() }),
            "{text}"
        );
    }
}
