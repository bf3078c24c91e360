//! Sessions, pairing, peers, frames and the bus.

use mahi::connectivity::bus::{
    all_channels, route, DispatchStep, Dispatcher, Lane, Ready, SendGate,
};
use mahi::connectivity::pairing::{PairingManager, PairingMethod, PlaceholderKeypair};
use mahi::connectivity::peers::{
    PeerAddress, PeerDescriptor, PeerRegistry, PeerTransport, Reachability,
};
use mahi::connectivity::session::{Capability, SessionBoundBus, SessionManager, SessionToken};
use mahi::connectivity::transport::{
    payload_len, read_frame, write_frame, FrameError, FrameRead, MAX_FRAME_LEN,
};
use mahi::contracts::connectivity::{ChannelId, MultiplexedEnvelope};
use mahi::contracts::error::ConnectivityError;
use mahi::ident::{Timestamp, Uuid};

const MILLI: i128 = 1_000_000;

fn envelope(channel: ChannelId, session_id: Uuid, payload: &[u8]) -> MultiplexedEnvelope {
    MultiplexedEnvelope {
        channel,
        seq_no: 7,
        session_id,
        payload_type: "TestPayload".to_string(),
        payload_bytes: payload.to_vec(),
    }
}

fn before(a: &Timestamp, b: &Timestamp) -> bool {
    a.before(b)
}

#[test]
fn session_fresh_token_validates() {
    let mut manager = SessionManager::new();
    let peer = Uuid::new_v4();
    let token = manager.issue(peer, vec![Capability::Inference, Capability::Takeover]);

    assert_eq!(token.peer_id, peer);
    assert!(before(&token.issued_at, &token.expires_at));
    assert!(token.has_capability(Capability::Inference));
    assert!(!token.has_capability(Capability::FileXfr));
    assert!(!token.hmac.is_empty());

    manager.validate(&token).expect("fresh token must validate");
    assert_eq!(manager.active_sessions(), vec![token.session_id]);
}

#[test]
fn session_expired_token_is_rejected() {
    let mut manager = SessionManager::new();
    let token = manager.issue_with_ttl(Uuid::new_v4(), vec![Capability::Inference], -MILLI);
    let err = manager.validate(&token).expect_err("expired token must fail");
    assert!(matches!(err, ConnectivityError::Transport { .. }));
    assert!(err.to_text().contains("expired"), "got: {}", err.to_text());
}

#[test]
fn session_tampered_token_is_rejected() {
    let mut manager = SessionManager::new();
    let mut token = manager.issue(Uuid::new_v4(), vec![Capability::Inference]);
    // Forge a longer expiry without re-signing.
    token.expires_at.secs += 365 * 24 * 60 * 60;
    let err = manager.validate(&token).expect_err("tampered token must fail");
    assert!(err.to_text().contains("signature"), "got: {}", err.to_text());
}

#[test]
fn session_of_another_manager_is_rejected() {
    let mut manager = SessionManager::new();
    let other = SessionManager::new();
    let token = manager.issue(Uuid(1), vec![]);
    let err = other.validate(&token).expect_err("signed with another key");
    assert!(err.to_text().contains("signature"));
    let err = other.ensure_active(token.session_id).expect_err("not known");
    assert!(err.to_text().contains("unknown session"));
}

#[test]
fn session_kill_invalidates_and_downstream_sends_fail() {
    let mut manager = SessionManager::new();
    let token =
        manager.issue(Uuid::new_v4(), vec![Capability::Inference, Capability::Takeover]);
    manager.validate(&token).expect("valid before kill");
    manager
        .set_controlling(token.session_id, true)
        .expect("takeover-capable session can control");
    assert!(manager.is_controlling(token.session_id));

    let bus = SessionBoundBus::new((), token.session_id);
    assert_eq!(bus.session_id(), token.session_id);
    let sent = bus
        .send(&mut manager, envelope(ChannelId::Inference, Uuid(0), b"{}"))
        .expect("send on live session succeeds");
    assert_eq!(sent.session_id, token.session_id, "stamped with the bound session");

    assert!(manager.kill(token.session_id));
    assert!(!manager.kill(Uuid(12345)), "there is no such session");

    let err = manager.validate(&token).expect_err("killed session must fail");
    assert!(err.to_text().contains("killed"), "got: {}", err.to_text());
    assert!(!manager.is_controlling(token.session_id));
    assert!(manager.active_sessions().is_empty());
    let send_err = bus
        .send(&mut manager, envelope(ChannelId::Inference, token.session_id, b"{}"))
        .expect_err("downstream send after kill must fail");
    assert!(matches!(send_err, ConnectivityError::Transport { .. }));
}

#[test]
fn session_idle_timeout_rejects_stale_sessions() {
    let mut manager = SessionManager::with_config(50_000_000, 600_000 * MILLI);
    let now = Timestamp { secs: 1_750_000_000, nanos: 0 };
    let token = manager.issue_at(
        Uuid(1),
        Uuid(2),
        vec![Capability::Inference],
        600_000 * MILLI,
        now,
        1_000_000,
    );
    manager.validate_at(&token, now, 51_000_000).expect("within the timeout");
    let err = manager.validate_at(&token, now, 51_000_001).expect_err("idle session must fail");
    assert!(err.to_text().contains("idle"), "got: {}", err.to_text());
    // Traffic starts the idle time anew.
    manager.record_activity_at(token.session_id, 51_000_000);
    manager.validate_at(&token, now, 101_000_000).expect("awake again");
    // Until the token expires.
    let late = Timestamp { secs: 1_750_000_600, nanos: 0 };
    let err = manager.validate_at(&token, late, 101_000_000).expect_err("expired by then");
    assert_eq!(
        err.to_text(),
        "transport error: session 00000000-0000-0000-0000-000000000001: session token expired"
    );
}

#[test]
fn session_lacking_takeover_capability_cannot_control() {
    let mut manager = SessionManager::new();
    let token = manager.issue(Uuid::new_v4(), vec![Capability::Inference]);
    let err = manager
        .set_controlling(token.session_id, true)
        .expect_err("inference-only session must not take over");
    assert!(err.to_text().contains("takeover"), "got: {}", err.to_text());
    assert!(!manager.is_controlling(token.session_id));
}

#[test]
fn signed_bytes_are_laid_out_in_order() {
    let token = SessionToken {
        session_id: Uuid(1),
        peer_id: Uuid(0x0102),
        issued_at: Timestamp { secs: 1, nanos: 5_000_000 },
        expires_at: Timestamp { secs: -1, nanos: 0 },
        capabilities: vec![Capability::FileXfr, Capability::Inference],
        hmac: Vec::new(),
    };
    let bytes = token.canonical_bytes();
    assert_eq!(bytes.len(), 16 + 16 + 8 + 8 + 2);
    assert_eq!(&bytes[14..16], &[0, 1]);
    assert_eq!(&bytes[30..32], &[1, 2]);
    assert_eq!(&bytes[32..40], &1005i64.to_be_bytes());
    assert_eq!(&bytes[40..48], &(-1000i64).to_be_bytes());
    assert_eq!(&bytes[48..], &[3, 1]);
}

#[test]
fn pairing_code_is_six_digits() {
    let mut manager = PairingManager::new();
    for _ in 0..32 {
        let challenge = manager.begin_pairing();
        assert_eq!(challenge.code.len(), 6);
        assert!(challenge.code.chars().all(|c| c.is_ascii_digit()));
    }
}

#[test]
fn complete_pairing_with_matching_tag_produces_trust_record() {
    let mut initiator = PairingManager::new();
    let challenge = initiator.begin_pairing();
    let responder_keys = PlaceholderKeypair::generate();
    let responder_id = Uuid::new_v4();
    let tag = PairingManager::confirmation_tag(
        &challenge.code,
        &challenge.local_keypair.public_key,
        &responder_keys.public_key,
    );
    let record = initiator
        .complete_pairing(
            challenge.challenge_id,
            responder_id,
            responder_keys.public_key,
            &tag,
            PairingMethod::Code,
        )
        .expect("pairing should succeed with the right code");

    assert_eq!(record.peer_id, responder_id);
    assert_eq!(record.peer_public_key, responder_keys.public_key);
    assert!(!record.revoked);
    assert!(initiator.is_trusted(responder_id));

    assert!(initiator.revoke(responder_id));
    assert!(!initiator.is_trusted(responder_id));
    assert!(initiator.trust_record(responder_id).unwrap().revoked_at.is_some());
}

#[test]
fn complete_pairing_rejects_wrong_code() {
    let mut initiator = PairingManager::new();
    let challenge = initiator.begin_pairing();
    let responder_keys = PlaceholderKeypair::generate();
    let wrong_code = if challenge.code == "000000" { "000001" } else { "000000" };
    let bad_tag = PairingManager::confirmation_tag(
        wrong_code,
        &challenge.local_keypair.public_key,
        &responder_keys.public_key,
    );
    let err = initiator
        .complete_pairing(
            challenge.challenge_id,
            Uuid::new_v4(),
            responder_keys.public_key,
            &bad_tag,
            PairingMethod::Code,
        )
        .unwrap_err();
    assert!(matches!(err, ConnectivityError::Transport { .. }));
    assert!(err.to_text().contains("confirmation tag mismatch (wrong code?)"));

    // The challenge is consumed either way: no second guess.
    let retry = initiator.complete_pairing(
        challenge.challenge_id,
        Uuid::new_v4(),
        responder_keys.public_key,
        &bad_tag,
        PairingMethod::Code,
    );
    assert!(retry.unwrap_err().to_text().contains("unknown or already-used challenge"));
}

#[test]
fn pairing_with_given_values_is_reproducible() {
    let mut manager = PairingManager::new();
    let keys = PlaceholderKeypair::from_secret([0u8; 32]);
    // SHA-256 of thirty-two zero bytes.
    assert_eq!(&keys.public_key[..4], &[0x66, 0x68, 0x7a, 0xad]);
    let at = Timestamp { secs: 5, nanos: 0 };
    let challenge = manager.begin_pairing_with(Uuid(9), 42, keys, at);
    assert_eq!(challenge.code, "000042");
    let tag = PairingManager::confirmation_tag("000042", &keys.public_key, &keys.public_key);
    let record = manager
        .complete_pairing_at(Uuid(9), Uuid(3), keys.public_key, &tag, PairingMethod::Qr, at)
        .expect("the right tag");
    assert_eq!(record.pairing_date, at);
    assert_eq!(record.local_private_key, [0u8; 32]);
    assert!(manager.revoke_at(Uuid(3), at));
    assert_eq!(manager.trust_record(Uuid(3)).unwrap().revoked_at, Some(at));
    assert!(!manager.revoke(Uuid(4)));
}

#[test]
fn registry_upsert_hints_and_snapshot() {
    let mut registry = PeerRegistry::new();
    assert!(registry.is_empty());

    let peer_id = Uuid::new_v4();
    let mut descriptor = PeerDescriptor::new(peer_id, "Jack's Mac", [7u8; 32]);
    descriptor.addresses.push(PeerAddress {
        transport: PeerTransport::Tcp,
        addr: "127.0.0.1:7411".into(),
    });
    registry.upsert(descriptor);

    registry.mark_seen(peer_id, Reachability::Reachable);
    registry.record_latency(peer_id, 12);
    registry.record_load_hint(peer_id, 1.7f32.to_bits()); // clamped

    let peer = registry.get(peer_id).unwrap();
    assert_eq!(peer.reachability, Reachability::Reachable);
    assert_eq!(peer.latency_ms, Some(12));
    assert_eq!(peer.load_hint.map(f32::from_bits), Some(1.0));
    assert_eq!(peer.addresses[0].addr, "127.0.0.1:7411");

    let snapshot = registry.snapshot();
    assert_eq!(snapshot.peers.len(), 1);
    assert_eq!(snapshot.peers[0].peer_id, peer_id);
    assert_eq!(registry.len(), 1);

    assert!(registry.remove(peer_id).is_some());
    assert!(registry.is_empty());
    assert!(registry.remove(peer_id).is_none());
}

#[test]
fn loads_are_held_between_zero_and_one() {
    let mut registry = PeerRegistry::new();
    let peer_id = Uuid(5);
    registry.upsert(PeerDescriptor::new(peer_id, "Mac", [7u8; 32]));
    let loads = [
        0.0f32,
        -0.0,
        0.25,
        1.0,
        1.0000001,
        7.5,
        f32::MIN_POSITIVE,
        -f32::MIN_POSITIVE,
        -3.5,
        f32::MAX,
        f32::MIN,
        f32::INFINITY,
        f32::NEG_INFINITY,
        f32::NAN,
        -f32::NAN,
    ];
    for load in loads {
        registry.record_load_hint(peer_id, load.to_bits());
        let kept = registry.get(peer_id).unwrap().load_hint.unwrap();
        assert_eq!(kept, load.clamp(0.0, 1.0).to_bits());
    }
}

#[test]
fn frame_roundtrip_and_length_prefix() {
    let body = b"{\"token\":\"hi\"}";
    let wire = write_frame(body).unwrap();
    let prefix = u32::from_be_bytes([wire[0], wire[1], wire[2], wire[3]]) as usize;
    assert_eq!(prefix, wire.len() - 4);
    assert_eq!(&wire[4..], body);

    let mut two = wire.clone();
    two.extend(write_frame(&[1u8; 300]).unwrap());
    match read_frame(&two) {
        Ok(FrameRead::Payload { payload, used }) => {
            assert_eq!(payload, body);
            match read_frame(&two[used..]) {
                Ok(FrameRead::Payload { payload, .. }) => assert_eq!(payload, vec![1u8; 300]),
                _ => panic!("the second frame is there"),
            }
        }
        _ => panic!("the first frame is there"),
    }
}

#[test]
fn clean_eof_yields_none() {
    assert!(matches!(read_frame(&[]), Ok(FrameRead::End)));
    for cut in 1..4 {
        assert!(matches!(read_frame(&[0u8; 4][..cut]), Err(FrameError::UnexpectedEof)));
    }
    assert!(matches!(read_frame(&[0, 0, 0, 2, 9]), Err(FrameError::UnexpectedEof)));
}

#[test]
fn oversized_length_prefix_is_rejected() {
    let mut wire = ((MAX_FRAME_LEN + 1) as u32).to_be_bytes().to_vec();
    wire.extend_from_slice(b"junk");
    match read_frame(&wire) {
        Err(e) => {
            assert!(matches!(e, FrameError::IncomingOversized(n) if n == MAX_FRAME_LEN + 1));
            assert_eq!(
                e.to_text(),
                "incoming frame of 16777217 bytes exceeds MAX_FRAME_LEN"
            );
        }
        Ok(_) => panic!("too long"),
    }
    assert!(matches!(payload_len(&[1, 0, 0, 0]), Ok(n) if n == MAX_FRAME_LEN));
    let too_long = write_frame(&vec![0u8; MAX_FRAME_LEN + 1]).unwrap_err();
    assert_eq!(too_long.to_text(), "frame of 16777217 bytes exceeds MAX_FRAME_LEN");
}

#[test]
fn closed_gate_refuses_every_channel() {
    let mut gate = SendGate::new();
    for channel in all_channels() {
        let lane = gate.pick_sender(channel).expect("open");
        assert_eq!(lane == Lane::Control, channel == ChannelId::Control);
    }
    gate.close();
    assert!(gate.is_closed());
    let err = gate.pick_sender(ChannelId::Control).expect_err("send after close must fail");
    assert!(matches!(
        err,
        ConnectivityError::ChannelClosed { channel: ChannelId::Control }
    ));
}

#[test]
fn envelopes_are_routed_by_their_channel() {
    for (i, channel) in all_channels().into_iter().enumerate() {
        assert_eq!(route(&envelope(channel, Uuid(1), b"x")), i);
    }
}

#[test]
fn control_traffic_is_dispatched_first() {
    let mut d = Dispatcher::new();
    assert_eq!(d.step(Ready::Envelope, Ready::Envelope), DispatchStep::Deliver(Lane::Control));
    assert_eq!(d.step(Ready::Pending, Ready::Envelope), DispatchStep::Deliver(Lane::Normal));
    assert_eq!(d.step(Ready::Pending, Ready::Pending), DispatchStep::Wait);
    assert_eq!(d.step(Ready::Closed, Ready::Envelope), DispatchStep::Retire(Lane::Control));
    assert_eq!(d.step(Ready::Closed, Ready::Envelope), DispatchStep::Deliver(Lane::Normal));
    assert_eq!(d.step(Ready::Closed, Ready::Closed), DispatchStep::Retire(Lane::Normal));
    assert_eq!(d.step(Ready::Closed, Ready::Closed), DispatchStep::Stop);
}
