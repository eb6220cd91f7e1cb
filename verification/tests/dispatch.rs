use advanced_dtn_node::cache::Cache;
use advanced_dtn_node::codec::encode_envelope;
use advanced_dtn_node::crypto::generate_keypair;
use advanced_dtn_node::dispatch::{now, plan_for, prepare_send, SendPlan};
use advanced_dtn_node::message::DataKind;
use advanced_dtn_node::peers::PeerDirectory;
use advanced_dtn_node::protocol::{compose, handle_inbound, seal_for_recipient, RecvError};

fn alert(text: &str, urgency: u8) -> DataKind {
    DataKind::Alert {
        text: text.to_string(),
        urgency,
    }
}

#[test]
fn test_unknown_destination_is_cached_then_retried() {
    let mut dir = PeerDirectory::new();
    let mut cache = Cache::new();
    let kp = generate_keypair(512).unwrap();
    let out = prepare_send(
        &dir,
        &mut cache,
        &"me".to_string(),
        &kp,
        &"Z".to_string(),
        alert("flood", 9),
        now(),
        false,
        &None,
    )
    .unwrap();
    assert!(out.is_none());
    assert_eq!(cache.len(), 1);

    dir.add("Z".to_string(), "transport:Z".to_string());
    let mut delivered: usize = 0;
    for msg in cache.take_all() {
        match plan_for(&dir, &msg.dest) {
            SendPlan::CacheForLater => cache.put(msg),
            SendPlan::ViaBle { .. } | SendPlan::ViaBundle { .. } => {
                // the transport collaborator succeeds in this scenario
                delivered += 1;
            }
        }
    }
    assert_eq!(delivered, 1);
    assert_eq!(cache.len(), 0);
}

#[test]
fn test_known_destination_routes_by_scheme() {
    let mut dir = PeerDirectory::new();
    dir.add("radio".to_string(), "ble:3000".to_string());
    dir.add("wired".to_string(), "dtn://wired/inbox".to_string());
    match plan_for(&dir, &"radio".to_string()) {
        SendPlan::ViaBle { addr } => assert_eq!(addr, "ble:3000"),
        _ => panic!("radio peer must route via ble"),
    }
    match plan_for(&dir, &"wired".to_string()) {
        SendPlan::ViaBundle { addr } => assert_eq!(addr, "dtn://wired/inbox"),
        _ => panic!("wired peer must route via the bundle transport"),
    }
    match plan_for(&dir, &"absent".to_string()) {
        SendPlan::CacheForLater => {}
        _ => panic!("unknown peer must be cached"),
    }
}

#[test]
fn test_send_then_receive_plain() {
    let kp = generate_keypair(512).unwrap();
    let env = compose(&"alice".to_string(), alert("flood", 9), 123, &kp).unwrap();
    let bytes = encode_envelope(&env);
    let other = generate_keypair(512).unwrap();
    // a plaintext envelope is readable whatever key the receiver holds
    let d = handle_inbound(&bytes, &other.priv_der).unwrap();
    assert_eq!(d.sender, "alice");
    assert_eq!(d.timestamp, 123);
    match d.kind {
        DataKind::Alert { text, urgency } => {
            assert_eq!(text, "flood");
            assert_eq!(urgency, 9);
        }
    }
}

#[test]
fn test_send_then_receive_sealed() {
    let sender_kp = generate_keypair(512).unwrap();
    let recipient_kp = generate_keypair(512).unwrap();
    let env = compose(&"alice".to_string(), alert("quake", 7), 456, &sender_kp).unwrap();
    let outer = seal_for_recipient(&env, &recipient_kp.pub_der).unwrap();
    assert!(outer.encrypted);
    assert_eq!(outer.sender, "alice");
    assert_eq!(outer.sig, env.sig);
    let bytes = encode_envelope(&outer);
    let d = handle_inbound(&bytes, &recipient_kp.priv_der).unwrap();
    assert_eq!(d.sender, "alice");
    assert_eq!(d.timestamp, 456);
    match d.kind {
        DataKind::Alert { text, urgency } => {
            assert_eq!(text, "quake");
            assert_eq!(urgency, 7);
        }
    }
}

#[test]
fn test_sealed_envelope_wrong_key_is_decryption_error() {
    let sender_kp = generate_keypair(512).unwrap();
    let recipient_kp = generate_keypair(512).unwrap();
    let wrong_kp = generate_keypair(512).unwrap();
    let env = compose(&"alice".to_string(), alert("x", 1), 1, &sender_kp).unwrap();
    let outer = seal_for_recipient(&env, &recipient_kp.pub_der).unwrap();
    let bytes = encode_envelope(&outer);
    assert!(matches!(
        handle_inbound(&bytes, &wrong_kp.priv_der),
        Err(RecvError::DecryptionError)
    ));
    // and the loop goes on: the right key still works afterwards
    assert!(handle_inbound(&bytes, &recipient_kp.priv_der).is_ok());
}

#[test]
fn test_malformed_bytes_are_parse_error() {
    let kp = generate_keypair(512).unwrap();
    assert!(matches!(
        handle_inbound(&vec![1, 2, 3], &kp.priv_der),
        Err(RecvError::ParseError)
    ));
}

#[test]
fn test_tampered_signature_is_verification_failure() {
    let kp = generate_keypair(512).unwrap();
    let mut env = compose(&"alice".to_string(), alert("x", 1), 1, &kp).unwrap();
    env.sig[0] ^= 1;
    let bytes = encode_envelope(&env);
    assert!(matches!(
        handle_inbound(&bytes, &kp.priv_der),
        Err(RecvError::VerificationFailed)
    ));
}

#[test]
fn test_tampered_payload_is_verification_failure() {
    let kp = generate_keypair(512).unwrap();
    let env = compose(&"alice".to_string(), alert("flood", 9), 1, &kp).unwrap();
    let mut tampered = env;
    match &mut tampered.kind {
        DataKind::Alert { urgency, .. } => *urgency = 1,
    }
    let bytes = encode_envelope(&tampered);
    assert!(matches!(
        handle_inbound(&bytes, &kp.priv_der),
        Err(RecvError::VerificationFailed)
    ));
}

#[test]
fn test_prepare_send_sealed_for_known_peer() {
    let mut dir = PeerDirectory::new();
    dir.add("bob".to_string(), "dtn://bob/inbox".to_string());
    let mut cache = Cache::new();
    let sender_kp = generate_keypair(512).unwrap();
    let bob_kp = generate_keypair(512).unwrap();
    let out = prepare_send(
        &dir,
        &mut cache,
        &"alice".to_string(),
        &sender_kp,
        &"bob".to_string(),
        alert("fire", 8),
        99,
        true,
        &Some(bob_kp.pub_der.clone()),
    )
    .unwrap()
    .expect("known destination must yield an outbound message");
    assert_eq!(cache.len(), 0);
    match out.plan {
        SendPlan::ViaBundle { addr } => assert_eq!(addr, "dtn://bob/inbox"),
        _ => panic!("bob must route via the bundle transport"),
    }
    let d = handle_inbound(&out.bytes, &bob_kp.priv_der).unwrap();
    assert_eq!(d.sender, "alice");
    assert_eq!(d.timestamp, 99);
}

#[test]
fn test_chunk_bytes_splits_and_covers() {
    let data: Vec<u8> = (0u8..=9).collect();
    let chunks = advanced_dtn_node::dispatch::chunk_bytes(&data, 4);
    assert_eq!(chunks.len(), 3);
    assert_eq!(chunks[0], vec![0, 1, 2, 3]);
    assert_eq!(chunks[1], vec![4, 5, 6, 7]);
    assert_eq!(chunks[2], vec![8, 9]);

    let exact = advanced_dtn_node::dispatch::chunk_bytes(&vec![1, 2, 3, 4], 2);
    assert_eq!(exact, vec![vec![1, 2], vec![3, 4]]);

    let empty = advanced_dtn_node::dispatch::chunk_bytes(&vec![], 7);
    assert!(empty.is_empty());
}

#[test]
fn test_seal_fails_only_for_unusable_recipient_key() {
    let kp = generate_keypair(512).unwrap();
    let env = compose(&"alice".to_string(), alert("x", 1), 1, &kp).unwrap();
    assert!(seal_for_recipient(&env, &vec![0u8; 10]).is_err());
    assert!(seal_for_recipient(&env, &kp.pub_der).is_ok());
}
