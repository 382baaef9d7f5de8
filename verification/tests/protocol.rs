use runnerdock::backend::BackendKind;
use runnerdock::handshake::{
    is_compatible, review, Handshake, HandshakeRejection, Peer, PROTOCOL_MAJOR, PROTOCOL_VERSION,
};
use runnerdock::method::{method_from_wire_name, Method};
use std::str::FromStr;

fn handshake_with(protocol_version: u32) -> Handshake {
    Handshake { peer: Peer { protocol_version, implementation: "test".to_owned() } }
}

#[test]
fn accepts_a_peer_speaking_the_same_protocol_version() {
    assert!(review(&handshake_with(PROTOCOL_VERSION)).is_ok());
    assert!(is_compatible(PROTOCOL_VERSION));
}

#[test]
fn distinguishes_an_older_peer_from_a_newer_one() {
    assert_eq!(
        review(&handshake_with(PROTOCOL_VERSION - 1)),
        Err(HandshakeRejection::PeerTooOld { peer: PROTOCOL_VERSION - 1, expected: PROTOCOL_VERSION })
    );
    assert_eq!(
        review(&handshake_with(PROTOCOL_VERSION + 1)),
        Err(HandshakeRejection::PeerTooNew { peer: PROTOCOL_VERSION + 1, expected: PROTOCOL_VERSION })
    );
}

#[test]
fn as_str_matches_the_wire_name() {
    for method in Method::all() {
        assert_eq!(method_from_wire_name(method.as_str()), Some(method));
    }
}

#[test]
fn a_name_outside_the_registry_is_rejected() {
    assert!(method_from_wire_name("exec").is_none());
    assert!(method_from_wire_name("node.Start").is_none());
}

#[test]
fn every_kind_round_trips_through_its_identifier() {
    for kind in BackendKind::all() {
        assert_eq!(BackendKind::from_str(kind.as_str()), Ok(kind));
    }
}

#[test]
fn identifiers_are_distinct() {
    let mut seen = Vec::new();
    for kind in BackendKind::all() {
        assert!(!seen.contains(&kind.as_str()), "duplicate id: {kind:?}");
        seen.push(kind.as_str());
    }
}

#[test]
fn returns_error_for_unknown_identifier_instead_of_defaulting() {
    let error = BackendKind::from_str("Wsl").expect_err("must not accept another casing");
    assert_eq!(error.input, "Wsl");
}

#[test]
fn the_handshake_major_is_the_protocol_version() {
    assert_eq!(PROTOCOL_MAJOR, PROTOCOL_VERSION);
    assert_eq!(HandshakeRejection::evaluate(PROTOCOL_MAJOR), Ok(()));
    assert_eq!(
        HandshakeRejection::evaluate(PROTOCOL_MAJOR + 1),
        Err(HandshakeRejection::PeerTooNew { peer: PROTOCOL_MAJOR + 1, expected: PROTOCOL_MAJOR })
    );
}

#[test]
fn an_unknown_backend_kind_is_reported_as_debug_prints_it() {
    let error = BackendKind::from_str("a\"b\\c\n").unwrap_err();
    assert_eq!(error.to_string(), "unknown backend kind: \"a\\\"b\\\\c\\n\"");
    assert_eq!(BackendKind::from_str("gpu").unwrap_err().to_string(), "unknown backend kind: \"gpu\"");
}
