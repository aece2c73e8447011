use aetherlink::engine::{
    map_auth_error_to_reject, Engine, EngineConfig, KeepalivePing, OutboundControlRequestKind,
    OutboundRequest, RequestOutcome, ResponseOutcome,
};
use aetherlink::error::SessionAuthError;
use aetherlink::identity::{IdentityKey, PeerId};
use aetherlink::security::sign_session_accept;
use aetherlink::session::{ControlKeepaliveState, KeepaliveStep, KeepaliveTiming};
use aetherlink::state_machine::{ConnectionState, FailureReason};
use aetherlink::trust::TrustedPeers;
use aetherlink::wire::{
    ControlEnvelope, ControlMessage, DeviceIdentity, Ping, Pong, ProtocolVersion, RejectReason,
    SessionAccept, SessionReject, SessionRequest,
};
use libp2p::identity;

struct Node {
    engine: Engine,
    key: IdentityKey,
    peer: PeerId,
}

fn key_of(seed: u8) -> IdentityKey {
    let key = identity::Keypair::ed25519_from_bytes([seed; 32]).unwrap();
    IdentityKey::from_protobuf_encoding(&key.to_protobuf_encoding().unwrap()).unwrap()
}

fn node_with(seed: u8, config: EngineConfig, targets: Vec<String>) -> Node {
    let key = key_of(seed);
    let peer = key.local_peer_id().duplicate();
    Node { engine: Engine::new(key.clone(), config, TrustedPeers::default(), &targets), key, peer }
}

fn node(seed: u8) -> Node {
    node_with(seed, EngineConfig::new(true, true, 1200, 3, 1000, 1200, 3), Vec::new())
}

fn nonce(tag: u8) -> Vec<u8> {
    vec![tag; 16]
}

fn request_of(envelope: &ControlEnvelope) -> &SessionRequest {
    match &envelope.message {
        Some(ControlMessage::SessionRequest(request)) => request,
        other => panic!("no session request: {:?}", other),
    }
}

fn accept_of(envelope: &ControlEnvelope) -> &SessionAccept {
    match &envelope.message {
        Some(ControlMessage::SessionAccept(accept)) => accept,
        other => panic!("no session accept: {:?}", other),
    }
}

fn reject_of(envelope: &ControlEnvelope) -> &SessionReject {
    match &envelope.message {
        Some(ControlMessage::SessionReject(reject)) => reject,
        other => panic!("no session reject: {:?}", other),
    }
}

fn state(node: &Node, peer: &PeerId) -> Option<ConnectionState> {
    node.engine.state_of(peer)
}

/// Connects the two, lets `a` ask and `b` answer, and hands back the request
/// and the answer.
fn handshake(a: &mut Node, b: &mut Node, now: i64) -> (OutboundRequest, RequestOutcome) {
    a.engine.on_connected(&b.peer);
    b.engine.on_connected(&a.peer);
    assert!(a.engine.should_send_session_request(&b.peer));
    let request = a.engine.send_session_request_with(&b.peer, now, nonce(1)).unwrap();
    let outcome = b.engine.handle_control_request_with(&a.peer, &request.envelope, now, nonce(2));
    (request, outcome)
}

#[test]
fn happy_direct_handshake_reaches_active_on_both_sides() {
    let mut a = node(1);
    let mut b = node(2);
    let (request, outcome) = handshake(&mut a, &mut b, 1_000_000);

    assert_eq!(request.tag, 0);
    assert_eq!(request.peer, b.peer);
    assert_eq!(request.envelope.seq, 1_000_000);
    assert_eq!(request.envelope.request_id, "req-1000000");
    let sent = request_of(&request.envelope);
    assert_eq!(sent.session_id, "session-1000000");
    assert_eq!(sent.nonce, nonce(1));
    assert_eq!(sent.unix_ms, 1_000_000);
    assert_eq!(sent.target_device_code, b.peer.as_str());
    assert_eq!(sent.requested_role, 1);
    assert_eq!(sent.supported_video_codecs, vec![1]);
    assert!(sent.allow_relay);
    assert_eq!(
        (sent.preferred_max_fps, sent.preferred_max_width, sent.preferred_max_height),
        (30, 1280, 720)
    );
    assert_eq!(sent.version, Some(ProtocolVersion { major: 1, minor: 0, patch: 0 }));
    assert_eq!(
        sent.from,
        Some(DeviceIdentity {
            peer_id: a.peer.to_bytes(),
            identity_pubkey: a.key.public_key_bytes().to_vec(),
            device_code: a.peer.as_str().to_string(),
        })
    );
    assert_eq!(a.engine.outbound_kind(0), Some(OutboundControlRequestKind::SessionRequest));
    assert_eq!(state(&a, &b.peer), Some(ConnectionState::SecureHandshake));

    assert!(outcome.failure.is_none());
    assert!(outcome.persist_trust_store);
    let reply = outcome.reply.unwrap();
    assert_eq!(reply.request_id, "req-1000000");
    assert_eq!(reply.seq, 1_000_000);
    let accept = accept_of(&reply);
    assert_eq!(accept.session_id, "session-1000000");
    assert_eq!(accept.request_nonce, nonce(1));
    assert_eq!(accept.nonce, nonce(2));
    assert_eq!(accept.unix_ms, 1_000_000);
    assert_eq!(accept.path_id, "direct-quic");
    assert_eq!(accept.selected_codec, 1);
    assert!(!accept.using_relay);
    assert_eq!(state(&b, &a.peer), Some(ConnectionState::Active));
    assert_eq!(b.engine.trusted_peers().len(), 1);
    assert_eq!(
        b.engine.session_of(&a.peer).unwrap().active_session_id.as_deref(),
        Some("session-1000000")
    );

    let taken = a.engine.handle_control_response(&b.peer, request.tag, &reply, 1_000_050);
    assert_eq!(taken, ResponseOutcome::Activated { persist_trust_store: true });
    assert_eq!(state(&a, &b.peer), Some(ConnectionState::Active));
    assert_eq!(a.engine.trusted_peers().len(), 1);
    assert_eq!(a.engine.outbound_kind(0), None);
    let session = a.engine.session_of(&b.peer).unwrap();
    assert!(session.pending.is_none());
    assert_eq!(session.active_session_id.as_deref(), Some("session-1000000"));
    assert_eq!(session.keepalive, Some(ControlKeepaliveState::new()));
    assert!(!a.engine.should_send_session_request(&b.peer));
}

#[test]
fn replayed_request_is_rejected_as_auth_failed() {
    let mut a = node(1);
    let mut b = node(2);
    let (request, _) = handshake(&mut a, &mut b, 1_000_000);
    let records = b.engine.trusted_peers().to_records();

    let outcome =
        b.engine.handle_control_request_with(&a.peer, &request.envelope, 1_005_000, nonce(3));
    assert_eq!(outcome.failure, Some(SessionAuthError::ReplayDetected));
    assert!(!outcome.persist_trust_store);
    let reply = outcome.reply.unwrap();
    let reject = reject_of(&reply);
    assert_eq!(reject.reason, RejectReason::AuthFailed.code());
    assert_eq!(reject.detail, "replay detected");
    assert_eq!(reject.session_id, "session-1000000");
    assert_eq!(b.engine.trusted_peers().to_records(), records);
    // the session that is active stays so: `Active` has no row for the trigger
    assert_eq!(state(&b, &a.peer), Some(ConnectionState::Active));
}

#[test]
fn request_that_fails_during_the_handshake_fails_the_machine() {
    let mut a = node(1);
    let mut b = node_with(2, EngineConfig::new(true, false, 1200, 3, 1000, 1200, 3), Vec::new());
    let (_, outcome) = handshake(&mut a, &mut b, 1_000_000);
    assert_eq!(
        outcome.failure,
        Some(SessionAuthError::UntrustedPeer { device_code: a.peer.as_str().to_string() })
    );
    let reply = outcome.reply.unwrap();
    assert_eq!(reject_of(&reply).reason, RejectReason::PolicyDenied.code());
    assert_eq!(state(&b, &a.peer), Some(ConnectionState::Failed(FailureReason::AuthFailed)));
    assert!(b.engine.trusted_peers().is_empty());
    assert!(b.engine.session_of(&a.peer).unwrap().active_session_id.is_none());
}

#[test]
fn pinning_violation_is_denied_by_policy() {
    let mut a = node(1);
    let mut b = node(2);
    handshake(&mut a, &mut b, 1_000_000);
    let records = b.engine.trusted_peers().to_records();

    // another key that goes by the device code of the first
    let mut impostor = node(3);
    impostor.engine.on_connected(&b.peer);
    let mut request = impostor
        .engine
        .send_session_request_with(&b.peer, 1_000_100, nonce(4))
        .unwrap();
    let forged = match request.envelope.message.as_mut().unwrap() {
        ControlMessage::SessionRequest(r) => r,
        _ => unreachable!(),
    };
    forged.from.as_mut().unwrap().device_code = a.peer.as_str().to_string();
    aetherlink::security::sign_session_request(forged, &impostor.key).unwrap();

    b.engine.on_connected(&impostor.peer);
    let outcome = b.engine.handle_control_request_with(
        &impostor.peer,
        &request.envelope,
        1_000_100,
        nonce(5),
    );
    let reply = outcome.reply.unwrap();
    let reject = reject_of(&reply);
    assert_eq!(reject.reason, RejectReason::PolicyDenied.code());
    assert_eq!(
        reject.detail,
        format!("trusted peer mismatch for device code {}", a.peer.as_str())
    );
    assert_eq!(b.engine.trusted_peers().to_records(), records);
    assert_eq!(
        state(&b, &impostor.peer),
        Some(ConnectionState::Failed(FailureReason::AuthFailed))
    );
}

fn forged_accept(b: &Node, session_id: &str, request_nonce: &[u8], now: i64) -> ControlEnvelope {
    let mut accept = SessionAccept {
        session_id: session_id.to_string(),
        selected_codec: 1,
        selected_fps: 30,
        selected_width: 1280,
        selected_height: 720,
        using_relay: false,
        path_id: "direct-quic".to_string(),
        from: Some(DeviceIdentity {
            peer_id: b.peer.to_bytes(),
            identity_pubkey: b.key.public_key_bytes().to_vec(),
            device_code: b.peer.as_str().to_string(),
        }),
        nonce: nonce(9),
        unix_ms: now,
        signature: Vec::new(),
        request_nonce: request_nonce.to_vec(),
    };
    sign_session_accept(&mut accept, &b.key).unwrap();
    ControlEnvelope {
        seq: 1,
        request_id: "r".to_string(),
        message: Some(ControlMessage::SessionAccept(accept)),
    }
}

#[test]
fn accept_with_a_stray_request_nonce_fails_the_handshake() {
    let mut a = node(1);
    let b = node(2);
    a.engine.on_connected(&b.peer);
    let request = a.engine.send_session_request_with(&b.peer, 1_000_000, nonce(1)).unwrap();
    let reply = forged_accept(&b, "session-1000000", &[0xDE, 0xAD], 1_000_000);
    let outcome = a.engine.handle_control_response(&b.peer, request.tag, &reply, 1_000_010);
    assert_eq!(outcome, ResponseOutcome::AcceptRefused(SessionAuthError::RequestNonceMismatch));
    let session = a.engine.session_of(&b.peer).unwrap();
    assert!(session.pending.is_none());
    assert!(session.active_session_id.is_none());
    assert_eq!(state(&a, &b.peer), Some(ConnectionState::Failed(FailureReason::AuthFailed)));
    assert!(a.engine.trusted_peers().is_empty());

    // without a request that waits an accept is dropped
    let again = forged_accept(&b, "session-1000000", &nonce(1), 1_000_000);
    assert_eq!(
        a.engine.handle_control_response(&b.peer, 99, &again, 1_000_020),
        ResponseOutcome::AcceptWithoutRequest
    );
    assert!(a.engine.session_of(&b.peer).unwrap().active_session_id.is_none());
}

#[test]
fn accept_faults_are_told_apart() {
    let b = node(2);
    let refused = |reply: ControlEnvelope| {
        let mut a = node(1);
        a.engine.on_connected(&b.peer);
        let request = a.engine.send_session_request_with(&b.peer, 1_000_000, nonce(1)).unwrap();
        a.engine.handle_control_response(&b.peer, request.tag, &reply, 1_000_010)
    };
    assert_eq!(
        refused(forged_accept(&b, "session-1000000", b"", 1_000_000)),
        ResponseOutcome::AcceptRefused(SessionAuthError::MissingRequestNonceBinding)
    );
    assert_eq!(
        refused(forged_accept(&b, "session-7", &nonce(1), 1_000_000)),
        ResponseOutcome::AcceptRefused(SessionAuthError::SessionIdMismatch {
            expected: "session-1000000".to_string(),
            got: "session-7".to_string()
        })
    );
    assert!(matches!(
        refused(forged_accept(&b, "session-1000000", &nonce(1), 900_000)),
        ResponseOutcome::AcceptRefused(SessionAuthError::TimestampSkew { .. })
    ));
    let imposter = node(3);
    assert_eq!(
        refused(forged_accept(&imposter, "session-1000000", &nonce(1), 1_000_000)),
        ResponseOutcome::AcceptRefused(SessionAuthError::TransportPeerIdMismatch)
    );
    assert_eq!(
        refused(forged_accept(&b, "session-1000000", &nonce(1), 1_000_000)),
        ResponseOutcome::Activated { persist_trust_store: true }
    );
}

#[test]
fn another_major_version_is_a_version_mismatch() {
    let mut a = node(1);
    let mut b = node(2);
    a.engine.on_connected(&b.peer);
    b.engine.on_connected(&a.peer);
    let mut request = a.engine.send_session_request_with(&b.peer, 1_000_000, nonce(1)).unwrap();
    match request.envelope.message.as_mut().unwrap() {
        ControlMessage::SessionRequest(r) => {
            r.version = Some(ProtocolVersion { major: 2, minor: 0, patch: 0 })
        }
        _ => unreachable!(),
    }
    let outcome =
        b.engine.handle_control_request_with(&a.peer, &request.envelope, 1_000_000, nonce(2));
    assert!(outcome.failure.is_none());
    let reply = outcome.reply.unwrap();
    let reject = reject_of(&reply);
    assert_eq!(reject.reason, RejectReason::VersionMismatch.code());
    assert_eq!(reject.detail, "protocol major mismatch: expected 1, got Some(2)");
    assert_eq!(
        state(&b, &a.peer),
        Some(ConnectionState::Failed(FailureReason::VersionMismatch))
    );
    assert!(b.engine.trusted_peers().is_empty());

    match request.envelope.message.as_mut().unwrap() {
        ControlMessage::SessionRequest(r) => r.version = None,
        _ => unreachable!(),
    }
    let outcome =
        b.engine.handle_control_request_with(&a.peer, &request.envelope, 1_000_000, nonce(2));
    let reply = outcome.reply.unwrap();
    assert_eq!(reject_of(&reply).detail, "protocol major mismatch: expected 1, got None");
}

#[test]
fn ping_is_answered_with_pong() {
    let mut b = node(2);
    let a = node(1);
    let ping = ControlEnvelope {
        seq: 7,
        request_id: "ping-5-7".to_string(),
        message: Some(ControlMessage::Ping(Ping {
            session_id: "s".to_string(),
            seq: 7,
            send_unix_ms: 5,
        })),
    };
    let outcome = b.engine.handle_control_request(&a.peer, &ping, 9);
    assert_eq!(
        outcome.reply,
        Some(ControlEnvelope {
            seq: 9,
            request_id: "ping-5-7".to_string(),
            message: Some(ControlMessage::Pong(Pong {
                session_id: "s".to_string(),
                seq: 7,
                echo_send_unix_ms: 5,
                recv_unix_ms: 9,
            })),
        })
    );
    assert!(!outcome.persist_trust_store);
    let empty = ControlEnvelope { seq: 1, request_id: "x".to_string(), message: None };
    assert!(b.engine.handle_control_request(&a.peer, &empty, 9).reply.is_none());
}

fn active_pair(now: i64) -> (Node, Node) {
    let mut a = node(1);
    let mut b = node(2);
    let (request, outcome) = handshake(&mut a, &mut b, now);
    let reply = outcome.reply.unwrap();
    a.engine.handle_control_response(&b.peer, request.tag, &reply, now);
    (a, b)
}

#[test]
fn keepalive_loss_disconnects_after_three_timeouts() {
    let t0 = 1_000_000;
    let (mut a, b) = active_pair(t0);
    let connected = vec![b.peer.duplicate()];
    let mut now = t0;
    let mut pings = Vec::new();
    let mut lost_at = None;
    while now <= t0 + 5_000 {
        let (send, lost) = a.engine.collect_keepalive_actions(now, &connected);
        for ping in send {
            assert_eq!(ping.peer, b.peer);
            assert_eq!(ping.session_id, "session-1000000");
            let request = a.engine.send_control_ping(&ping.peer, &ping.session_id, ping.seq, now);
            assert_eq!(
                a.engine.outbound_kind(request.tag),
                Some(OutboundControlRequestKind::KeepalivePing { seq: ping.seq })
            );
            pings.push((now - t0, ping.seq));
        }
        if !lost.is_empty() {
            assert_eq!(lost, vec![b.peer.duplicate()]);
            lost_at = Some(now - t0);
            a.engine.clear_active_session(&b.peer);
            a.engine.on_disconnected(&b.peer);
            break;
        }
        now += 200;
    }
    assert_eq!(lost_at, Some(3_600));
    assert_eq!(pings, vec![(0, 1), (1_200, 2), (2_400, 3), (3_600, 4)]);
    assert_eq!(state(&a, &b.peer), Some(ConnectionState::Reconnecting));
    let session = a.engine.session_of(&b.peer).unwrap();
    assert!(session.active_session_id.is_none());
    assert!(session.keepalive.is_none());
    let machine = session.machine.as_ref().unwrap();
    assert_eq!(machine.reconnect_elapsed_ms(), 200);
    assert_eq!(machine.reconnect_attempts(), 1);
}

#[test]
fn pong_clears_the_wait_and_the_misses() {
    let t0 = 1_000_000;
    let (mut a, b) = active_pair(t0);
    let connected = vec![b.peer.duplicate()];
    let (send, _) = a.engine.collect_keepalive_actions(t0, &connected);
    assert_eq!(
        send,
        vec![KeepalivePing {
            peer: b.peer.duplicate(),
            session_id: "session-1000000".to_string(),
            seq: 1
        }]
    );
    let request = a.engine.send_control_ping(&b.peer, "session-1000000", 1, t0);
    assert_eq!(request.envelope.request_id, "ping-1000000-1");
    assert_eq!(request.envelope.seq, 1);
    // nothing more goes out while the ping waits within its time
    let (send, lost) = a.engine.collect_keepalive_actions(t0 + 1_000, &connected);
    assert!(send.is_empty() && lost.is_empty());
    // one miss
    let (send, lost) = a.engine.collect_keepalive_actions(t0 + 1_200, &connected);
    assert_eq!(send.len(), 1);
    assert!(lost.is_empty());
    let second = a.engine.send_control_ping(&b.peer, "session-1000000", 2, t0 + 1_200);
    assert_eq!(
        a.engine.session_of(&b.peer).unwrap().keepalive.unwrap().consecutive_misses,
        1
    );

    let pong = |seq: u64, session: &str| ControlEnvelope {
        seq: 1,
        request_id: "p".to_string(),
        message: Some(ControlMessage::Pong(Pong {
            session_id: session.to_string(),
            seq,
            echo_send_unix_ms: 1_001_200,
            recv_unix_ms: 1_001_210,
        })),
    };
    // a late pong for the first ping does not count
    assert_eq!(
        a.engine.handle_control_response(&b.peer, request.tag, &pong(1, "session-1000000"), t0 + 1_300),
        ResponseOutcome::Ignored
    );
    // nor one under the tag of a session request, or for another session
    assert_eq!(
        a.engine.handle_control_response(&b.peer, 77, &pong(2, "session-1000000"), t0 + 1_300),
        ResponseOutcome::Ignored
    );
    let third = a.engine.send_control_ping(&b.peer, "session-1000000", 2, t0 + 1_200);
    assert_eq!(
        a.engine.handle_control_response(&b.peer, third.tag, &pong(2, "other"), t0 + 1_300),
        ResponseOutcome::Ignored
    );
    assert_eq!(
        a.engine.handle_control_response(&b.peer, second.tag, &pong(2, "session-1000000"), t0 + 1_300),
        ResponseOutcome::Pong { rtt_ms: 100 }
    );
    let keepalive = a.engine.session_of(&b.peer).unwrap().keepalive.unwrap();
    assert_eq!(keepalive.consecutive_misses, 0);
    assert_eq!(keepalive.awaiting_seq, None);
    assert_eq!(keepalive.awaiting_since_unix_ms, None);
    assert_eq!(keepalive.next_seq, 2);
}

#[test]
fn keepalive_leaves_unconnected_and_inactive_peers_alone() {
    let t0 = 1_000_000;
    let (mut a, b) = active_pair(t0);
    let c = node(3);
    a.engine.on_connected(&c.peer);
    let (send, lost) = a.engine.collect_keepalive_actions(t0, &[c.peer.duplicate()]);
    assert!(send.is_empty() && lost.is_empty());
    assert_eq!(
        a.engine.session_of(&b.peer).unwrap().keepalive,
        Some(ControlKeepaliveState::new())
    );
    assert!(a.engine.session_of(&c.peer).unwrap().keepalive.is_none());
}

#[test]
fn failed_pings_count_as_misses() {
    let t0 = 1_000_000;
    let (mut a, b) = active_pair(t0);
    let connected = vec![b.peer.duplicate()];
    let mut now = t0;
    for round in 1..=3u64 {
        let (send, lost) = a.engine.collect_keepalive_actions(now, &connected);
        assert_eq!(send.len(), 1);
        assert!(lost.is_empty());
        let request = a.engine.send_control_ping(&b.peer, "session-1000000", send[0].seq, now);
        // the failure of a tag that is not known changes nothing
        assert!(!a.engine.handle_outbound_failure(&b.peer, 1_000));
        let disconnect = a.engine.handle_outbound_failure(&b.peer, request.tag);
        assert_eq!(disconnect, round == 3);
        // a tag counts once
        assert!(!a.engine.handle_outbound_failure(&b.peer, request.tag));
        now += 1_000;
    }
    let session = a.engine.session_of(&b.peer).unwrap();
    assert!(session.active_session_id.is_none());
    assert!(session.keepalive.is_none());
}

#[test]
fn requests_are_retried_and_then_given_up() {
    let mut a = node(1);
    let b = node(2);
    a.engine.on_connected(&b.peer);
    let t0 = 1_000_000;
    let first = a.engine.send_session_request_with(&b.peer, t0, nonce(1)).unwrap();
    assert!(!a.engine.should_send_session_request(&b.peer));
    let none: (Vec<PeerId>, Vec<PeerId>) = (vec![], vec![]);
    assert_eq!(a.engine.collect_pending_retry_actions(t0 + 1_199), none);
    assert_eq!(
        a.engine.collect_pending_retry_actions(t0 + 1_200),
        (vec![b.peer.duplicate()], vec![])
    );
    let second = a.engine.send_session_request_with(&b.peer, t0 + 1_200, nonce(2)).unwrap();
    assert_eq!(request_of(&second.envelope).session_id, "session-1000000");
    assert_eq!(second.envelope.request_id, "req-1001200");
    assert_ne!(first.tag, second.tag);
    let third = a.engine.send_session_request_with(&b.peer, t0 + 2_400, nonce(3)).unwrap();
    assert_eq!(request_of(&third.envelope).session_id, "session-1000000");
    let pending = a.engine.session_of(&b.peer).unwrap().pending.clone().unwrap();
    assert_eq!(pending.attempts, 3);
    assert_eq!(pending.last_send_unix_ms, t0 + 2_400);
    assert_eq!(pending.request_nonces, vec![nonce(1), nonce(2), nonce(3)]);

    assert_eq!(a.engine.collect_pending_retry_actions(t0 + 3_599), none);
    assert_eq!(
        a.engine.collect_pending_retry_actions(t0 + 3_600),
        (vec![], vec![b.peer.duplicate()])
    );
    a.engine.fail_pending_request(&b.peer);
    assert!(a.engine.session_of(&b.peer).unwrap().pending.is_none());
    assert_eq!(state(&a, &b.peer), Some(ConnectionState::Failed(FailureReason::AuthFailed)));
    assert_eq!(a.engine.collect_pending_retry_actions(t0 + 10_000), none);
}

#[test]
fn a_late_accept_binds_to_any_retained_nonce() {
    let mut a = node_with(1, EngineConfig::new(true, true, 1200, 2, 1000, 1200, 3), Vec::new());
    let mut b = node(2);
    a.engine.on_connected(&b.peer);
    b.engine.on_connected(&a.peer);
    let t0 = 1_000_000;
    let first = a.engine.send_session_request_with(&b.peer, t0, nonce(1)).unwrap();
    let second = a.engine.send_session_request_with(&b.peer, t0 + 1_200, nonce(2)).unwrap();
    // the answer to the first request comes in after the second went out
    let outcome =
        b.engine.handle_control_request_with(&a.peer, &first.envelope, t0 + 10, nonce(7));
    let reply = outcome.reply.unwrap();
    assert_eq!(
        a.engine.handle_control_response(&b.peer, first.tag, &reply, t0 + 1_300),
        ResponseOutcome::Activated { persist_trust_store: true }
    );
    assert_eq!(
        a.engine.outbound_kind(second.tag),
        Some(OutboundControlRequestKind::SessionRequest)
    );

    // with two attempts allowed only the last two nonces are kept
    let mut c = node_with(3, EngineConfig::new(true, true, 1200, 2, 1000, 1200, 3), Vec::new());
    c.engine.on_connected(&b.peer);
    for (i, t) in [t0, t0 + 1_200, t0 + 2_400].into_iter().enumerate() {
        c.engine.send_session_request_with(&b.peer, t, nonce(10 + i as u8)).unwrap();
    }
    let pending = c.engine.session_of(&b.peer).unwrap().pending.clone().unwrap();
    assert_eq!(pending.request_nonces, vec![nonce(11), nonce(12)]);
    assert_eq!(pending.attempts, 3);
}

#[test]
fn reject_and_send_failure_drop_the_request() {
    let mut a = node(1);
    let b = node(2);
    a.engine.on_connected(&b.peer);
    let request = a.engine.send_session_request_with(&b.peer, 1_000_000, nonce(1)).unwrap();
    let reject = ControlEnvelope {
        seq: 1,
        request_id: "req-1000000".to_string(),
        message: Some(ControlMessage::SessionReject(SessionReject {
            session_id: "session-1000000".to_string(),
            reason: RejectReason::PolicyDenied.code(),
            detail: "no".to_string(),
        })),
    };
    assert_eq!(
        a.engine.handle_control_response(&b.peer, request.tag, &reject, 1_000_010),
        ResponseOutcome::Rejected
    );
    assert!(a.engine.session_of(&b.peer).unwrap().pending.is_none());
    assert_eq!(state(&a, &b.peer), Some(ConnectionState::Failed(FailureReason::AuthFailed)));

    let mut a = node(1);
    a.engine.on_connected(&b.peer);
    let request = a.engine.send_session_request_with(&b.peer, 1_000_000, nonce(1)).unwrap();
    assert!(!a.engine.handle_outbound_failure(&b.peer, request.tag));
    assert!(a.engine.session_of(&b.peer).unwrap().pending.is_none());
    assert_eq!(state(&a, &b.peer), Some(ConnectionState::Failed(FailureReason::AuthFailed)));
    assert_eq!(a.engine.outbound_kind(request.tag), None);
}

#[test]
fn disconnect_and_hang_up() {
    let (mut a, b) = active_pair(1_000_000);
    a.engine.send_session_request_with(&b.peer, 1_000_100, nonce(5)).unwrap();
    a.engine.on_disconnected(&b.peer);
    let session = a.engine.session_of(&b.peer).unwrap();
    assert!(session.pending.is_none() && session.active_session_id.is_none());
    assert_eq!(state(&a, &b.peer), Some(ConnectionState::Reconnecting));

    let (mut a, b) = active_pair(1_000_000);
    a.engine.hang_up(&b.peer);
    assert_eq!(state(&a, &b.peer), Some(ConnectionState::Closed));
    assert!(a.engine.session_of(&b.peer).unwrap().active_session_id.is_none());
    // a peer never heard of has no machine to tell
    let c = node(3);
    a.engine.on_disconnected(&c.peer);
    assert_eq!(state(&a, &c.peer), None);
}

#[test]
fn auto_request_follows_the_targets() {
    let b = node(2);
    let c = node(3);
    let off = node_with(1, EngineConfig::new(false, true, 1200, 3, 1000, 1200, 3), Vec::new());
    assert!(!off.engine.should_auto_request_for_peer(&b.peer));
    let any = node(1);
    assert!(any.engine.should_auto_request_for_peer(&b.peer));
    let only_b = node_with(
        1,
        EngineConfig::new(true, true, 1200, 3, 1000, 1200, 3),
        vec![b.peer.as_str().to_string()],
    );
    assert!(only_b.engine.should_auto_request_for_peer(&b.peer));
    assert!(!only_b.engine.should_auto_request_for_peer(&c.peer));
    assert!(only_b.engine.should_send_session_request(&b.peer));
}

#[test]
fn targets_are_trimmed_sorted_and_never_the_local_device() {
    let local = key_of(1).local_peer_id().as_str().to_string();
    let mut a = node_with(
        1,
        EngineConfig::default(),
        vec![" zeta ".to_string(), "alpha".to_string(), "".to_string(), "  ".to_string(),
            "zeta".to_string(), format!("\t{}\n", local), "mid".to_string()],
    );
    assert_eq!(a.engine.target_device_codes(), ["alpha", "mid", "zeta"]);
    a.engine.add_target_device_code("  beta\n");
    a.engine.add_target_device_code("alpha");
    a.engine.add_target_device_code("   ");
    a.engine.add_target_device_code(&local);
    assert_eq!(a.engine.target_device_codes(), ["alpha", "beta", "mid", "zeta"]);
    a.engine.remove_target_device_code(" mid ");
    a.engine.remove_target_device_code("nothing");
    assert_eq!(a.engine.target_device_codes(), ["alpha", "beta", "zeta"]);
}

#[test]
fn discovery_dials_are_throttled() {
    let mut a = node(1);
    let b = node(2);
    assert!(a.engine.can_attempt_discovery_dial(&b.peer, false, 10));
    assert!(!a.engine.can_attempt_discovery_dial(&b.peer, true, 10));
    a.engine.mark_discovery_dial_attempt(&b.peer, 10);
    assert!(!a.engine.can_attempt_discovery_dial(&b.peer, false, 2_509));
    assert!(a.engine.can_attempt_discovery_dial(&b.peer, false, 2_510));
    a.engine.on_connected(&b.peer);
    a.engine.send_session_request_with(&b.peer, 5_000, nonce(1)).unwrap();
    assert!(!a.engine.can_attempt_discovery_dial(&b.peer, false, 9_000));
}

#[test]
fn configuration_is_raised_to_its_floors() {
    let config = EngineConfig::new(true, false, 0, 0, 0, 0, 0);
    assert_eq!(config.session_request_timeout_ms, 100);
    assert_eq!(config.session_request_max_attempts, 1);
    assert_eq!(
        config.keepalive,
        KeepaliveTiming { interval_ms: 300, timeout_ms: 500, max_misses: 1 }
    );
    let config = EngineConfig::new(true, false, u64::MAX, 9, u64::MAX, 700, 4);
    assert_eq!(config.session_request_timeout_ms, i64::MAX);
    assert_eq!(config.keepalive.interval_ms, i64::MAX);
    assert_eq!(config.keepalive.timeout_ms, 700);
    let standard = EngineConfig::default();
    assert_eq!(standard.session_request_timeout_ms, 1_200);
    assert_eq!(standard.session_request_max_attempts, 3);
    assert_eq!(
        standard.keepalive,
        KeepaliveTiming { interval_ms: 1_000, timeout_ms: 1_200, max_misses: 3 }
    );
    assert!(standard.trust_on_first_use && !standard.auto_request);
}

#[test]
fn refusals_map_to_reject_reasons() {
    let policy = [
        SessionAuthError::InvalidTargetDeviceCode { expected: "a".into(), got: "b".into() },
        SessionAuthError::UntrustedPeer { device_code: "a".into() },
        SessionAuthError::TrustedPeerMismatch { device_code: "a".into() },
    ];
    for error in policy {
        assert_eq!(map_auth_error_to_reject(&error), RejectReason::PolicyDenied);
    }
    let auth = [
        SessionAuthError::TimestampSkew { request_unix_ms: 1, now_unix_ms: 2, allowed_skew_ms: 0 },
        SessionAuthError::ReplayDetected,
        SessionAuthError::InvalidSenderPublicKey,
        SessionAuthError::InvalidSenderPeerId,
        SessionAuthError::PeerIdMismatch,
        SessionAuthError::TransportPeerIdMismatch,
        SessionAuthError::InvalidSignature,
        SessionAuthError::MissingResponderIdentity,
        SessionAuthError::MissingSenderIdentity,
        SessionAuthError::MissingDeviceCode,
        SessionAuthError::MissingNonce,
        SessionAuthError::NonceTooShort { min_bytes: 12 },
        SessionAuthError::SigningFailed,
        SessionAuthError::SessionIdMismatch { expected: "a".into(), got: "b".into() },
        SessionAuthError::MissingRequestNonceBinding,
        SessionAuthError::RequestNonceMismatch,
        SessionAuthError::TrustStoreCorrupt("x".into()),
    ];
    for error in auth {
        assert_eq!(map_auth_error_to_reject(&error), RejectReason::AuthFailed);
    }
}

#[test]
fn refusals_in_words() {
    assert_eq!(
        SessionAuthError::NonceTooShort { min_bytes: 12 }.message(),
        "nonce too short: expected at least 12 bytes"
    );
    assert_eq!(
        SessionAuthError::TimestampSkew {
            request_unix_ms: -5,
            now_unix_ms: i64::MIN,
            allowed_skew_ms: 30_000
        }
        .message(),
        "request timestamp outside allowed skew (30000 ms): request=-5, now=-9223372036854775808"
    );
    assert_eq!(
        SessionAuthError::InvalidTargetDeviceCode { expected: "a".into(), got: "b".into() }
            .message(),
        "invalid target device code: expected a, got b"
    );
    assert_eq!(
        SessionAuthError::TrustStoreCorrupt("bad".into()).message(),
        "trust store is corrupted: bad"
    );
    assert_eq!(
        SessionAuthError::UntrustedPeer { device_code: "d".into() }.message(),
        "peer is not trusted and trust-on-first-use is disabled: d"
    );
    assert_eq!(SessionAuthError::MissingNonce.message(), "missing nonce");
    assert_eq!(
        SessionAuthError::InvalidSignature.message(),
        "invalid session request signature"
    );
}

#[test]
fn keepalive_state_steps() {
    let timing = KeepaliveTiming { interval_ms: 1_000, timeout_ms: 1_200, max_misses: 2 };
    let mut state = ControlKeepaliveState::new();
    assert_eq!(state.tick(999, timing), KeepaliveStep { send: None, lost: false });
    assert_eq!(state.tick(1_000, timing), KeepaliveStep { send: Some(1), lost: false });
    assert_eq!(state.tick(2_199, timing), KeepaliveStep { send: None, lost: false });
    assert_eq!(state.tick(2_200, timing), KeepaliveStep { send: Some(2), lost: false });
    assert_eq!(state.consecutive_misses, 1);
    assert!(!state.note_pong(1));
    assert!(state.note_pong(2));
    assert!(!state.note_pong(2));
    assert_eq!(state.consecutive_misses, 0);
    assert_eq!(state.tick(3_199, timing), KeepaliveStep { send: None, lost: false });
    assert_eq!(state.tick(3_200, timing), KeepaliveStep { send: Some(3), lost: false });
    assert!(!state.note_send_failure(2, 2));
    assert!(!state.note_send_failure(3, 2));
    assert_eq!(state.consecutive_misses, 1);
    assert_eq!(state.awaiting_seq, None);
    assert_eq!(state.tick(4_200, timing), KeepaliveStep { send: Some(4), lost: false });
    assert_eq!(state.tick(5_400, timing), KeepaliveStep { send: Some(5), lost: true });
    state.next_seq = u64::MAX;
    state.awaiting_seq = None;
    state.awaiting_since_unix_ms = None;
    assert_eq!(state.tick(i64::MAX, timing).send, Some(u64::MAX));
}

#[test]
fn nonces_made_by_the_engine_are_sixteen_random_bytes() {
    let mut a = node(1);
    let mut b = node(2);
    let mut c = node(3);
    a.engine.on_connected(&b.peer);
    a.engine.on_connected(&c.peer);
    b.engine.on_connected(&a.peer);

    let to_b = a.engine.send_session_request(&b.peer, 1_000_000).unwrap();
    let to_c = a.engine.send_session_request(&c.peer, 1_000_000).unwrap();
    let first = request_of(&to_b.envelope).nonce.clone();
    let second = request_of(&to_c.envelope).nonce.clone();
    assert_eq!(first.len(), 16);
    assert_eq!(second.len(), 16);
    assert_ne!(first, second);
    assert_ne!(first, vec![0_u8; 16]);
    assert_eq!((to_b.tag, to_c.tag), (0, 1));
    assert_eq!(
        a.engine.session_of(&b.peer).unwrap().pending.as_ref().unwrap().request_nonces,
        vec![first.clone()]
    );

    let outcome = b.engine.handle_control_request(&a.peer, &to_b.envelope, 1_000_010);
    assert!(outcome.failure.is_none());
    let reply = outcome.reply.unwrap();
    let accept = accept_of(&reply);
    assert_eq!(accept.nonce.len(), 16);
    assert_ne!(accept.nonce, first);
    assert_eq!(accept.request_nonce, first);
    assert_eq!(
        a.engine.handle_control_response(&b.peer, to_b.tag, &reply, 1_000_020),
        ResponseOutcome::Activated { persist_trust_store: true }
    );
    assert_eq!(state(&a, &b.peer), Some(ConnectionState::Active));
    assert_eq!(state(&b, &a.peer), Some(ConnectionState::Active));
}

#[test]
fn refusals_do_not_depend_on_the_random_nonce() {
    let mut a = node(1);
    let mut b = node(2);
    a.engine.on_connected(&b.peer);
    b.engine.on_connected(&a.peer);
    let mut request = a.engine.send_session_request(&b.peer, 1_000_000).unwrap();
    match request.envelope.message.as_mut().unwrap() {
        ControlMessage::SessionRequest(r) => {
            r.version = Some(ProtocolVersion { major: 2, minor: 0, patch: 0 })
        }
        _ => unreachable!(),
    }
    let outcome = b.engine.handle_control_request(&a.peer, &request.envelope, 1_000_000);
    assert!(outcome.failure.is_none());
    assert!(!outcome.persist_trust_store);
    let reply = outcome.reply.unwrap();
    assert_eq!(reply.request_id, request.envelope.request_id);
    let reject = reject_of(&reply);
    assert_eq!(reject.session_id, "session-1000000");
    assert_eq!(reject.reason, RejectReason::VersionMismatch.code());
    assert!(b.engine.trusted_peers().is_empty());

    // the first request went through no check; a second one with a broken
    // signature is refused, in words that name the fault
    let mut c = node(3);
    c.engine.on_connected(&a.peer);
    let mut forged = a.engine.send_session_request(&c.peer, 1_000_000).unwrap();
    match forged.envelope.message.as_mut().unwrap() {
        ControlMessage::SessionRequest(r) => r.signature[0] ^= 1,
        _ => unreachable!(),
    }
    let outcome = c.engine.handle_control_request(&a.peer, &forged.envelope, 1_000_000);
    assert_eq!(outcome.failure, Some(SessionAuthError::InvalidSignature));
    assert!(!outcome.persist_trust_store);
    let reply = outcome.reply.unwrap();
    let reject = reject_of(&reply);
    assert_eq!(reject.reason, RejectReason::AuthFailed.code());
    assert_eq!(reject.detail, SessionAuthError::InvalidSignature.message());
    assert!(c.engine.trusted_peers().is_empty());
    assert_eq!(
        state(&c, &a.peer),
        Some(ConnectionState::Failed(FailureReason::AuthFailed))
    );
}

#[test]
fn tick_lists_name_each_peer_once() {
    let mut a = node(1);
    let mut others: Vec<Node> = (2..6).map(node).collect();
    for other in others.iter_mut() {
        a.engine.on_connected(&other.peer);
        other.engine.on_connected(&a.peer);
        let request = a.engine.send_session_request(&other.peer, 1_000_000).unwrap();
        let outcome = other.engine.handle_control_request(&a.peer, &request.envelope, 1_000_000);
        let reply = outcome.reply.unwrap();
        assert_eq!(
            a.engine.handle_control_response(&other.peer, request.tag, &reply, 1_000_000),
            ResponseOutcome::Activated { persist_trust_store: true }
        );
    }
    assert_eq!(a.engine.trusted_peers().len(), 4);
    let connected: Vec<PeerId> = others.iter().map(|o| o.peer.duplicate()).collect();
    // the list of the connected peers may name a peer twice
    let mut doubled = connected.clone();
    doubled.extend(connected.iter().map(|p| p.duplicate()));

    let (pings, lost) = a.engine.collect_keepalive_actions(1_001_000, &doubled);
    assert!(lost.is_empty());
    let pinged: Vec<PeerId> = pings.iter().map(|p| p.peer.duplicate()).collect();
    assert_eq!(pinged, connected);
    assert!(pings.iter().all(|p| p.seq == 1 && p.session_id == "session-1000000"));

    // nothing is answered: three timeouts later every peer is lost, once
    let (pings, lost) = a.engine.collect_keepalive_actions(1_002_200, &doubled);
    assert_eq!(pings.len(), 4);
    assert!(lost.is_empty());
    let (pings, lost) = a.engine.collect_keepalive_actions(1_003_400, &doubled);
    assert_eq!(pings.len(), 4);
    assert!(lost.is_empty());
    let (_, lost) = a.engine.collect_keepalive_actions(1_004_600, &doubled);
    assert_eq!(lost, connected);
}
