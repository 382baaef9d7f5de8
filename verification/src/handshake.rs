//! Version agreement for `system.handshake`.
//!
//! The UI, the Agent and the Guest share one compatibility table. A peer whose
//! wire version differs is refused with a reason that says which side must be
//! updated; the connection never proceeds on a "probably works" basis.

use vstd::prelude::*;

verus! {

/// Version of the wire contract. Bumped on every breaking change and kept
/// apart from the implementation version of any peer.
pub const PROTOCOL_VERSION: u32 = 1;

/// The protocol major every message declares; the same number as
/// [`PROTOCOL_VERSION`].
pub const PROTOCOL_MAJOR: u32 = PROTOCOL_VERSION;

/// Self-description of the peer taking part in the handshake.
#[derive(Debug, Clone, PartialEq, Eq)]
pub struct Peer {
    /// Wire version the peer speaks.
    pub protocol_version: u32,
    /// Implementation version of the peer, for diagnostics only.
    pub implementation: String,
}

/// Body of a `system.handshake` request.
#[derive(Debug, Clone, PartialEq, Eq)]
pub struct Handshake {
    pub peer: Peer,
}

/// Why a handshake was refused. The two reasons are kept apart because they
/// tell the user which side to update.
#[derive(Debug, Clone, Copy, PartialEq, Eq)]
pub enum HandshakeRejection {
    /// The peer is older and must be updated.
    PeerTooOld { peer: u32, expected: u32 },
    /// The peer is newer; this side must be updated.
    PeerTooNew { peer: u32, expected: u32 },
}

/// The verdict on a peer version: accepted, or refused with its reason.
pub open spec fn spec_review(peer: u32) -> Result<(), HandshakeRejection> {
    if peer == PROTOCOL_VERSION {
        Ok(())
    } else if peer < PROTOCOL_VERSION {
        Err(HandshakeRejection::PeerTooOld { peer, expected: PROTOCOL_VERSION })
    } else {
        Err(HandshakeRejection::PeerTooNew { peer, expected: PROTOCOL_VERSION })
    }
}

/// Whether this implementation accepts a peer speaking the given version.
pub fn is_compatible(peer_protocol_version: u32) -> (r: bool)
    ensures
        r == (peer_protocol_version == PROTOCOL_VERSION),
{
    peer_protocol_version == PROTOCOL_VERSION
}

/// Reviews a handshake; a refusal names the side that has to be updated.
pub fn review(handshake: &Handshake) -> (r: Result<(), HandshakeRejection>)
    ensures
        r == spec_review(handshake.peer.protocol_version),
{
    let peer = handshake.peer.protocol_version;
    if peer == PROTOCOL_VERSION {
        return Ok(());
    }
    if peer < PROTOCOL_VERSION {
        return Err(HandshakeRejection::PeerTooOld { peer, expected: PROTOCOL_VERSION });
    }
    Err(HandshakeRejection::PeerTooNew { peer, expected: PROTOCOL_VERSION })
}

impl HandshakeRejection {
    /// Judges a peer's protocol major the same way [`review`] judges a
    /// handshake.
    pub fn evaluate(peer: u32) -> (r: Result<(), HandshakeRejection>)
        ensures
            r == spec_review(peer),
    {
        review(&Handshake { peer: Peer { protocol_version: peer, implementation: String::new() } })
    }
}

/// A handshake is accepted exactly when the peer is compatible, and a refused
/// peer is classified as older or newer by comparing versions.
pub proof fn lemma_review_agrees_with_compatibility(peer: u32)
    ensures
        spec_review(peer) is Ok <==> peer == PROTOCOL_VERSION,
        spec_review(peer) matches Err(HandshakeRejection::PeerTooOld { .. }) <==> peer < PROTOCOL_VERSION,
        spec_review(peer) matches Err(HandshakeRejection::PeerTooNew { .. }) <==> peer > PROTOCOL_VERSION,
{
}

} // verus!
