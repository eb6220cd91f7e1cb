//! Crypto engine: RSA PKCS#1 v1.5 signatures over SHA-256 digests, and
//! hybrid encryption (fresh AES-256-GCM key and nonce, key wrapped under the
//! recipient's RSA public key).  Keys travel as DER bytes, so every contract
//! is over plain byte sequences.  The outside calls stand behind trusted
//! wrappers; their outcomes are named by uninterpreted functions, and the
//! protocol above is verified against those names.

use vstd::prelude::*;
use rsa::pkcs8::{DecodePrivateKey, DecodePublicKey, EncodePrivateKey, EncodePublicKey};
use sha2::Digest;
use aes_gcm::KeyInit;
use aes_gcm::aead::Aead;

verus! {

/// Crypto failures, by operation.
#[derive(Clone, Copy, Debug, PartialEq, Eq, Structural)]
pub enum CryptoError {
    SignFailed,
    EncryptFailed,
    DecryptFailed,
}

/// An identity: a private key and its public key, both DER-encoded (PKCS#8
/// and SPKI respectively).
pub struct KeyPair {
    pub priv_der: Vec<u8>,
    pub pub_der: Vec<u8>,
}

/// The PKCS#1 v1.5 signature over the SHA-256 digest of `data`, determined
/// by the private key alone (the scheme is deterministic).
pub uninterp spec fn signature_of(priv_der: Seq<u8>, data: Seq<u8>) -> Seq<u8>;

/// Whether `priv_der` parses as a PKCS#8 RSA private key whose modulus is
/// large enough to sign a SHA-256 digest; signing succeeds exactly then.
pub uninterp spec fn signing_key(priv_der: Seq<u8>) -> bool;

/// The outcome of PKCS#1 v1.5 signature verification: whether `sig` is a
/// valid signature by the key behind `pub_der` over the SHA-256 digest of
/// `data` (false as well when `pub_der` is refused by the public-key
/// parser, which caps the modulus at 4096 bits).
pub uninterp spec fn sig_valid(pub_der: Seq<u8>, data: Seq<u8>, sig: Seq<u8>) -> bool;

/// Whether `pub_der` is the DER form of the public half of the private key
/// behind `priv_der`, and both halves are accepted by the crate's parsers
/// — in particular the public-key parser's 4096-bit modulus cap.
pub uninterp spec fn key_pair(priv_der: Seq<u8>, pub_der: Seq<u8>) -> bool;

/// Whether `pub_der` parses as a valid RSA public key (the parser caps the
/// modulus at 4096 bits) large enough to wrap a 32-byte symmetric key;
/// hybrid encryption succeeds exactly then (its padding draws randomness,
/// but success is decided by the key bytes alone).
pub uninterp spec fn wrap_key(pub_der: Seq<u8>) -> bool;

/// The byte length of an RSA-wrapped symmetric key: the modulus size of
/// the key behind `pub_der`, fixed by the key alone, never by the payload.
pub uninterp spec fn wrapped_key_len(pub_der: Seq<u8>) -> nat;

/// The outcome of hybrid decryption with the key behind `priv_der`: RSA
/// unwrap of `enc_key`, then AES-256-GCM open of `ct` under the 12-byte
/// `nonce`.  `None` when unwrap or the authentication tag check fails; the
/// whole step is deterministic in its arguments.
pub uninterp spec fn unwraps_to(
    priv_der: Seq<u8>,
    enc_key: Seq<u8>,
    nonce: Seq<u8>,
    ct: Seq<u8>,
) -> Option<Seq<u8>>;

/// Relies on rsa's key generation and DER encoders: a fresh RSA key of
/// `bits` bits, handed out as matching DER pair.  At 512 bits and up the
/// modulus is large enough both to sign a SHA-256 digest and to wrap a
/// 32-byte symmetric key; at 4096 bits and below the public half stays
/// within the cap of the public-key parser that verification and key
/// wrapping go through.
#[verifier::external_body]
pub fn generate_keypair(bits: usize) -> (r: Option<KeyPair>)
    requires
        512 <= bits <= 4096,
    ensures
        r matches Some(kp) ==> key_pair(kp.priv_der@, kp.pub_der@) && signing_key(kp.priv_der@)
            && wrap_key(kp.pub_der@),
{
    let mut rng = rand::rngs::OsRng;
    let key = rsa::RsaPrivateKey::new(&mut rng, bits).ok()?;
    let pub_key = rsa::RsaPublicKey::from(&key);
    let priv_der = key.to_pkcs8_der().ok()?.as_bytes().to_vec();
    let pub_der = pub_key.to_public_key_der().ok()?.as_bytes().to_vec();
    Some(KeyPair { priv_der, pub_der })
}

/// Relies on rsa's deterministic PKCS#1 v1.5 signing over a sha2 digest:
/// succeeds exactly when the key is usable, and a signature made with a
/// private key verifies under the matching public key.
#[verifier::external_body]
pub fn sign(data: &Vec<u8>, priv_der: &Vec<u8>) -> (r: Result<Vec<u8>, CryptoError>)
    ensures
        r is Ok <==> signing_key(priv_der@),
        r matches Ok(s) ==> s@ == signature_of(priv_der@, data@),
        r matches Ok(s) ==> forall|pb: Seq<u8>|
            #[trigger] key_pair(priv_der@, pb) ==> sig_valid(pb, data@, s@),
        r matches Err(e) ==> e == CryptoError::SignFailed,
{
    let e = CryptoError::SignFailed;
    let key = rsa::RsaPrivateKey::from_pkcs8_der(priv_der.as_slice()).map_err(|_| e)?;
    let digest = sha2::Sha256::digest(data.as_slice());
    key.sign(rsa::Pkcs1v15Sign::new::<sha2::Sha256>(), &digest).map_err(|_| e)
}

/// Relies on rsa's PKCS#1 v1.5 verification over a sha2 digest: returns the
/// deterministic verification outcome, false (never an error) for a bad
/// signature or an unparsable key.
#[verifier::external_body]
pub fn verify(data: &Vec<u8>, sig: &Vec<u8>, pub_der: &Vec<u8>) -> (r: bool)
    ensures
        r == sig_valid(pub_der@, data@, sig@),
{
    let Ok(key) = rsa::RsaPublicKey::from_public_key_der(pub_der.as_slice()) else {
        return false;
    };
    let digest = sha2::Sha256::digest(data.as_slice());
    key.verify(rsa::Pkcs1v15Sign::new::<sha2::Sha256>(), &digest, sig.as_slice()).is_ok()
}

/// Relies on aes-gcm's authenticated encryption and rsa's PKCS#1 v1.5
/// encryption: a fresh random 256-bit key and 96-bit nonce, the payload
/// sealed under them, the key wrapped under the recipient's public key.
/// Succeeds exactly when the key can wrap; the ciphertext is the payload
/// plus the 16-byte authentication tag, the wrapped key one modulus in
/// size whatever the payload; and whatever randomness was drawn, hybrid
/// decryption with the matching private key opens the result back to
/// `data`.
#[verifier::external_body]
pub fn encrypt_for(data: &Vec<u8>, pub_der: &Vec<u8>) -> (r: Result<
    (Vec<u8>, Vec<u8>, Vec<u8>),
    CryptoError,
>)
    requires
        data@.len() < 0x1000000000,
    ensures
        r is Ok <==> wrap_key(pub_der@),
        r matches Ok(out) ==> out.0@.len() == wrapped_key_len(pub_der@) && out.1@.len() == 12
            && out.2@.len() == data@.len() + 16,
        r matches Ok(out) ==> forall|p: Seq<u8>|
            #[trigger] key_pair(p, pub_der@) ==> unwraps_to(p, out.0@, out.1@, out.2@) == Some(
                data@,
            ),
        r matches Err(e) ==> e == CryptoError::EncryptFailed,
{
    let e = CryptoError::EncryptFailed;
    let key_bytes: [u8; 32] = rand::random();
    let nonce_bytes: [u8; 12] = rand::random();
    let cipher = aes_gcm::Aes256Gcm::new_from_slice(&key_bytes).map_err(|_| e)?;
    let ct = cipher.encrypt(aes_gcm::Nonce::from_slice(&nonce_bytes), data.as_slice()).map_err(|_| e)?;
    let rpub = rsa::RsaPublicKey::from_public_key_der(pub_der.as_slice()).map_err(|_| e)?;
    let ek = rpub.encrypt(&mut rand::rngs::OsRng, rsa::Pkcs1v15Encrypt, &key_bytes).map_err(|_| e)?;
    Ok((ek, nonce_bytes.to_vec(), ct))
}

/// Relies on rsa's deterministic PKCS#1 v1.5 decryption and aes-gcm's
/// authenticated decryption: unwraps the symmetric key, then opens the
/// ciphertext; fails, returning no plaintext at all, when either the unwrap
/// or the authentication tag check fails.
#[verifier::external_body]
pub fn decrypt_from(enc_key: &Vec<u8>, nonce: &Vec<u8>, ct: &Vec<u8>, priv_der: &Vec<u8>) -> (r:
    Result<Vec<u8>, CryptoError>)
    requires
        nonce@.len() == 12,
    ensures
        r matches Ok(pt) ==> unwraps_to(priv_der@, enc_key@, nonce@, ct@) == Some(pt@),
        r matches Err(e) ==> unwraps_to(priv_der@, enc_key@, nonce@, ct@) is None && e
            == CryptoError::DecryptFailed,
{
    let e = CryptoError::DecryptFailed;
    let key = rsa::RsaPrivateKey::from_pkcs8_der(priv_der.as_slice()).map_err(|_| e)?;
    let sym = key.decrypt(rsa::Pkcs1v15Encrypt, enc_key.as_slice()).map_err(|_| e)?;
    let cipher = aes_gcm::Aes256Gcm::new_from_slice(&sym).map_err(|_| e)?;
    cipher.decrypt(aes_gcm::Nonce::from_slice(nonce.as_slice()), ct.as_slice()).map_err(|_| e)
}

} // verus!
