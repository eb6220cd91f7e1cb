use advanced_dtn_node::codec::{encode_canonical, encode_envelope, parse_envelope};
use advanced_dtn_node::message::{DataKind, Envelope};

fn sample_plain() -> Envelope {
    Envelope {
        sender: "node-α".to_string(),
        sender_pub: vec![1, 2, 3, 4],
        kind: DataKind::Alert {
            text: "flood".to_string(),
            urgency: 9,
        },
        timestamp: 1_700_000_000,
        sig: vec![9, 9, 9],
        encrypted: false,
        enc_key: None,
        nonce: None,
        ciphertext: None,
    }
}

fn assert_same(a: &Envelope, b: &Envelope) {
    assert_eq!(a.sender, b.sender);
    assert_eq!(a.sender_pub, b.sender_pub);
    match (&a.kind, &b.kind) {
        (
            DataKind::Alert { text: t1, urgency: u1 },
            DataKind::Alert { text: t2, urgency: u2 },
        ) => {
            assert_eq!(t1, t2);
            assert_eq!(u1, u2);
        }
    }
    assert_eq!(a.timestamp, b.timestamp);
    assert_eq!(a.sig, b.sig);
    assert_eq!(a.encrypted, b.encrypted);
    assert_eq!(a.enc_key, b.enc_key);
    assert_eq!(a.nonce, b.nonce);
    assert_eq!(a.ciphertext, b.ciphertext);
}

#[test]
fn test_envelope_round_trip_plain() {
    let env = sample_plain();
    let bytes = encode_envelope(&env);
    let back = parse_envelope(&bytes).unwrap();
    assert_same(&env, &back);
}

#[test]
fn test_envelope_round_trip_encrypted() {
    let env = Envelope {
        encrypted: true,
        enc_key: Some(vec![7; 64]),
        nonce: Some(vec![0, 1, 2, 3, 4, 5, 6, 7, 8, 9, 10, 11]),
        ciphertext: Some(vec![42; 19]),
        ..sample_plain()
    };
    let bytes = encode_envelope(&env);
    let back = parse_envelope(&bytes).unwrap();
    assert_same(&env, &back);
}

#[test]
fn test_parse_rejects_garbage() {
    assert!(parse_envelope(&vec![]).is_none());
    assert!(parse_envelope(&vec![0xff; 7]).is_none());
    assert!(parse_envelope(&vec![0u8; 64]).is_none());
}

#[test]
fn test_parse_rejects_truncation_and_trailing_bytes() {
    let env = sample_plain();
    let bytes = encode_envelope(&env);
    let mut short = bytes.clone();
    short.pop();
    assert!(parse_envelope(&short).is_none());
    let mut long = bytes.clone();
    long.push(0);
    assert!(parse_envelope(&long).is_none());
}

#[test]
fn test_canonical_encoding_exact_bytes() {
    let kind = DataKind::Alert {
        text: "x".to_string(),
        urgency: 5,
    };
    let bytes = encode_canonical(&"A".to_string(), &kind, 7);
    let expected: Vec<u8> = vec![
        1, 0, 0, 0, 0, 0, 0, 0, // length of "A" in UTF-8
        0x41, // "A"
        0,    // tag of the Alert variant
        1, 0, 0, 0, 0, 0, 0, 0, // length of "x" in UTF-8
        0x78, // "x"
        5,    // urgency
        7, 0, 0, 0, 0, 0, 0, 0, // timestamp
    ];
    assert_eq!(bytes, expected);
}

#[test]
fn test_canonical_encoding_is_input_sensitive() {
    let kind1 = DataKind::Alert {
        text: "x".to_string(),
        urgency: 5,
    };
    let kind2 = DataKind::Alert {
        text: "x".to_string(),
        urgency: 6,
    };
    let a = encode_canonical(&"A".to_string(), &kind1, 7);
    let b = encode_canonical(&"A".to_string(), &kind2, 7);
    let c = encode_canonical(&"B".to_string(), &kind1, 7);
    let d = encode_canonical(&"A".to_string(), &kind1, 8);
    assert_ne!(a, b);
    assert_ne!(a, c);
    assert_ne!(a, d);
}
