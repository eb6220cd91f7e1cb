use advanced_dtn_node::crypto::{decrypt_from, encrypt_for, generate_keypair, sign, verify};

#[test]
fn test_sign_and_verify() {
    let key = generate_keypair(512).unwrap();
    let data = b"hello world".to_vec();
    let sig = sign(&data, &key.priv_der).unwrap();
    let ok = verify(&data, &sig, &key.pub_der);
    assert!(ok);
}

#[test]
fn test_verify_rejects_wrong_public_key() {
    let key1 = generate_keypair(512).unwrap();
    let key2 = generate_keypair(512).unwrap();
    let data = b"cross-key data".to_vec();
    let sig = sign(&data, &key1.priv_der).unwrap();
    assert!(!verify(&data, &sig, &key2.pub_der));
}

#[test]
fn test_verify_rejects_tampered_data() {
    let key = generate_keypair(512).unwrap();
    let data = b"original".to_vec();
    let sig = sign(&data, &key.priv_der).unwrap();
    let other = b"originax".to_vec();
    assert!(!verify(&other, &sig, &key.pub_der));
}

#[test]
fn test_encrypt_decrypt_round_trip() {
    let key = generate_keypair(512).unwrap();
    let payload = b"payload bytes, arbitrary".to_vec();
    let (ek, nonce, ct) = encrypt_for(&payload, &key.pub_der).unwrap();
    let back = decrypt_from(&ek, &nonce, &ct, &key.priv_der).unwrap();
    assert_eq!(back, payload);
}

#[test]
fn test_decrypt_with_wrong_key_fails() {
    let key1 = generate_keypair(512).unwrap();
    let key2 = generate_keypair(512).unwrap();
    let payload = b"secret".to_vec();
    let (ek, nonce, ct) = encrypt_for(&payload, &key1.pub_der).unwrap();
    assert!(decrypt_from(&ek, &nonce, &ct, &key2.priv_der).is_err());
}

#[test]
fn test_ciphertext_bit_flips_all_fail() {
    let key = generate_keypair(512).unwrap();
    let payload = b"abc".to_vec();
    let (ek, nonce, ct) = encrypt_for(&payload, &key.pub_der).unwrap();
    for byte in 0..ct.len() {
        for bit in 0..8 {
            let mut flipped = ct.clone();
            flipped[byte] ^= 1u8 << bit;
            assert!(
                decrypt_from(&ek, &nonce, &flipped, &key.priv_der).is_err(),
                "flip at byte {byte} bit {bit} was not rejected"
            );
        }
    }
}

#[test]
fn test_wrapped_key_bit_flips_never_leak_wrong_plaintext() {
    let key = generate_keypair(512).unwrap();
    let payload = b"abc".to_vec();
    let (ek, nonce, ct) = encrypt_for(&payload, &key.pub_der).unwrap();
    for byte in 0..ek.len() {
        let mut flipped = ek.clone();
        flipped[byte] ^= 1u8;
        assert!(
            decrypt_from(&flipped, &nonce, &ct, &key.priv_der).is_err(),
            "flip in wrapped key byte {byte} was not rejected"
        );
    }
}

#[test]
fn test_encrypt_output_shapes() {
    let key = generate_keypair(512).unwrap();
    let small = vec![1u8; 5];
    let large = vec![2u8; 300];
    let (ek_s, nonce, ct_s) = encrypt_for(&small, &key.pub_der).unwrap();
    let (ek_l, _, ct_l) = encrypt_for(&large, &key.pub_der).unwrap();
    assert_eq!(nonce.len(), 12);
    assert_eq!(ct_s.len(), small.len() + 16);
    assert_eq!(ct_l.len(), large.len() + 16);
    // the asymmetric cost is paid once per message: the wrapped key is one
    // modulus in size whatever the payload
    assert_eq!(ek_s.len(), ek_l.len());
    assert_eq!(ek_s.len(), 64);
}

#[test]
fn test_encrypt_for_rejects_unusable_key() {
    assert!(encrypt_for(&vec![1, 2, 3], &vec![0u8; 10]).is_err());
}
