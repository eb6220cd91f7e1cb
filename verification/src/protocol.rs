//! Envelope protocol: building and signing plaintext envelopes, sealing a
//! serialized signed envelope for a recipient, and the receive pipeline
//! (parse, decrypt when flagged, parse again, verify the signature over the
//! canonical triple).  Every step is specified against the codec's
//! mathematical parser and the named crypto outcomes, so the receive
//! contract states exactly which bytes are delivered and which are dropped,
//! and why.

use vstd::prelude::*;
use vstd::slice::slice_to_vec;
use crate::codec::{
    bounded_envelope, encode_canonical, encode_envelope, lemma_parse_encode_envelope,
    parse_envelope, spec_canonical, spec_encode_envelope, spec_parse_envelope,
};
use crate::crypto::{
    decrypt_from, encrypt_for, key_pair, sig_valid, sign, signature_of, signing_key, unwraps_to,
    verify, wrap_key, CryptoError, KeyPair,
};
use crate::message::{DataKind, DataKindModel, Envelope, EnvelopeModel, wf_envelope};

verus! {

/// Receive-pipeline failures.  Each one drops the message and lets the
/// receive loop continue; none is fatal.
#[derive(Clone, Copy, Debug, PartialEq, Eq, Structural)]
pub enum RecvError {
    /// The bytes are not a canonical envelope encoding (outer or inner).
    ParseError,
    /// Key unwrap or the authentication tag check failed.
    DecryptionError,
    /// The embedded signature does not verify under the embedded key.
    VerificationFailed,
}

/// What a successful receive delivers to the application sink.
pub struct Delivery {
    pub sender: String,
    pub kind: DataKind,
    pub timestamp: u64,
}

/// Mathematical image of a delivery.
pub struct DeliveryModel {
    pub sender: Seq<char>,
    pub kind: DataKindModel,
    pub timestamp: u64,
}

impl View for Delivery {
    type V = DeliveryModel;

    open spec fn view(&self) -> DeliveryModel {
        DeliveryModel { sender: self.sender@, kind: self.kind@, timestamp: self.timestamp }
    }
}

/// The plaintext envelope `compose` builds: unencrypted, signed over the
/// canonical triple.
pub open spec fn plain_envelope(
    sender: Seq<char>,
    pub_der: Seq<u8>,
    kind: DataKindModel,
    timestamp: u64,
    priv_der: Seq<u8>,
) -> EnvelopeModel {
    EnvelopeModel {
        sender,
        sender_pub: pub_der,
        kind,
        timestamp,
        sig: signature_of(priv_der, spec_canonical(sender, kind, timestamp)),
        encrypted: false,
        enc_key: None,
        nonce: None,
        ciphertext: None,
    }
}

/// Build the plaintext envelope for `(sender, kind, timestamp)` and sign it
/// with the identity key; the sender's public key travels inside.  Succeeds
/// exactly when the private key can sign.
pub fn compose(sender: &String, kind: DataKind, timestamp: u64, kp: &KeyPair) -> (r: Result<
    Envelope,
    CryptoError,
>)
    ensures
        r is Ok <==> signing_key(kp.priv_der@),
        r matches Ok(e) ==> e@ == plain_envelope(
            sender@,
            kp.pub_der@,
            kind@,
            timestamp,
            kp.priv_der@,
        ),
        r matches Ok(e) ==> forall|pb: Seq<u8>|
            #[trigger] key_pair(kp.priv_der@, pb) ==> sig_valid(
                pb,
                spec_canonical(sender@, kind@, timestamp),
                e@.sig,
            ),
        r matches Err(er) ==> er == CryptoError::SignFailed,
{
    let canon = encode_canonical(sender, &kind, timestamp);
    match sign(&canon, &kp.priv_der) {
        Ok(sig) => Ok(
            Envelope {
                sender: sender.clone(),
                sender_pub: slice_to_vec(kp.pub_der.as_slice()),
                kind,
                timestamp,
                sig,
                encrypted: false,
                enc_key: None,
                nonce: None,
                ciphertext: None,
            },
        ),
        Err(er) => Err(er),
    }
}

/// The outer envelope carries the inner one's identity fields unchanged and
/// seals the inner envelope's whole serialized form: whoever holds the
/// private half of `rpub` gets those exact bytes back.
pub open spec fn sealed_over(outer: EnvelopeModel, inner: EnvelopeModel, rpub: Seq<u8>) -> bool {
    &&& outer.sender == inner.sender
    &&& outer.sender_pub == inner.sender_pub
    &&& outer.kind == inner.kind
    &&& outer.timestamp == inner.timestamp
    &&& outer.sig == inner.sig
    &&& outer.encrypted
    &&& match (outer.enc_key, outer.nonce, outer.ciphertext) {
        (Some(ek), Some(n), Some(ct)) => n.len() == 12 && forall|p: Seq<u8>|
            #[trigger] key_pair(p, rpub) ==> unwraps_to(p, ek, n, ct) == Some(
                spec_encode_envelope(inner),
            ),
        _ => false,
    }
}

/// Seal an already-signed plaintext envelope for a recipient: the full
/// serialized envelope becomes the hybrid-encryption payload, and the outer
/// envelope repeats sender, kind, timestamp and signature in the clear.
/// For any envelope that fits the cipher's bound, sealing succeeds exactly
/// when the recipient key can wrap; an oversized envelope is refused.
pub fn seal_for_recipient(env: &Envelope, recipient_pub: &Vec<u8>) -> (r: Result<
    Envelope,
    CryptoError,
>)
    requires
        wf_envelope(env@),
        !env@.encrypted,
    ensures
        r matches Ok(o) ==> wf_envelope(o@) && sealed_over(o@, env@, recipient_pub@),
        r matches Err(er) ==> er == CryptoError::EncryptFailed,
        spec_encode_envelope(env@).len() < 0x1000000000 ==> (r is Ok <==> wrap_key(
            recipient_pub@,
        )),
        spec_encode_envelope(env@).len() >= 0x1000000000 ==> r is Err,
{
    let bytes = encode_envelope(env);
    if !((bytes.len() as u64) < 0x1000000000u64) {
        return Err(CryptoError::EncryptFailed);
    }
    match encrypt_for(&bytes, recipient_pub) {
        Ok((enc_key, nonce, ciphertext)) => Ok(
            Envelope {
                sender: env.sender.clone(),
                sender_pub: slice_to_vec(env.sender_pub.as_slice()),
                kind: clone_kind(&env.kind),
                timestamp: env.timestamp,
                sig: slice_to_vec(env.sig.as_slice()),
                encrypted: true,
                enc_key: Some(enc_key),
                nonce: Some(nonce),
                ciphertext: Some(ciphertext),
            },
        ),
        Err(er) => Err(er),
    }
}

/// A copy of a payload kind, equal to the original in the model.
pub fn clone_kind(k: &DataKind) -> (r: DataKind)
    ensures
        r@ == k@,
{
    match k {
        DataKind::Alert { text, urgency } => DataKind::Alert {
            text: text.clone(),
            urgency: *urgency,
        },
    }
}

/// Signature check and delivery of an already-plaintext envelope.
pub open spec fn spec_verify_deliver(inner: EnvelopeModel) -> Result<DeliveryModel, RecvError> {
    if sig_valid(
        inner.sender_pub,
        spec_canonical(inner.sender, inner.kind, inner.timestamp),
        inner.sig,
    ) {
        Ok(DeliveryModel { sender: inner.sender, kind: inner.kind, timestamp: inner.timestamp })
    } else {
        Err(RecvError::VerificationFailed)
    }
}

/// The whole receive pipeline as a mathematical function of the inbound
/// bytes and the local private key.
pub open spec fn spec_receive(b: Seq<u8>, priv_der: Seq<u8>) -> Result<DeliveryModel, RecvError> {
    match spec_parse_envelope(b) {
        None => Err(RecvError::ParseError),
        Some(outer) => if outer.encrypted {
            match (outer.enc_key, outer.nonce, outer.ciphertext) {
                (Some(ek), Some(n), Some(ct)) => if n.len() == 12 {
                    match unwraps_to(priv_der, ek, n, ct) {
                        Some(pt) => match spec_parse_envelope(pt) {
                            Some(inner) => spec_verify_deliver(inner),
                            None => Err(RecvError::ParseError),
                        },
                        None => Err(RecvError::DecryptionError),
                    }
                } else {
                    Err(RecvError::DecryptionError)
                },
                _ => Err(RecvError::ParseError),
            }
        } else {
            spec_verify_deliver(outer)
        },
    }
}

/// Recompute the canonical triple encoding and check the envelope's
/// signature under its embedded sender key; deliver on success.
fn verify_deliver(inner: Envelope) -> (r: Result<Delivery, RecvError>)
    ensures
        match r {
            Ok(d) => spec_verify_deliver(inner@) == Ok::<DeliveryModel, RecvError>(d@),
            Err(e) => spec_verify_deliver(inner@) == Err::<DeliveryModel, RecvError>(e),
        },
{
    let canon = encode_canonical(&inner.sender, &inner.kind, inner.timestamp);
    if verify(&canon, &inner.sig, &inner.sender_pub) {
        Ok(Delivery { sender: inner.sender, kind: inner.kind, timestamp: inner.timestamp })
    } else {
        Err(RecvError::VerificationFailed)
    }
}

/// The receive pipeline: parse the inbound bytes, decrypt them with the
/// local identity key when the envelope is sealed, parse the plaintext
/// envelope, verify its signature, and deliver the triple.  The result is
/// exactly `spec_receive` of the bytes: malformed input is a `ParseError`,
/// a failed unwrap or tag check a `DecryptionError`, a bad signature a
/// `VerificationFailed`, each dropped by the caller's loop.
pub fn handle_inbound(bytes: &Vec<u8>, priv_der: &Vec<u8>) -> (r: Result<Delivery, RecvError>)
    ensures
        match r {
            Ok(d) => spec_receive(bytes@, priv_der@) == Ok::<DeliveryModel, RecvError>(d@),
            Err(e) => spec_receive(bytes@, priv_der@) == Err::<DeliveryModel, RecvError>(e),
        },
{
    let outer = match parse_envelope(bytes) {
        Some(e) => e,
        None => {
            return Err(RecvError::ParseError);
        },
    };
    if outer.encrypted {
        match (&outer.enc_key, &outer.nonce, &outer.ciphertext) {
            (Some(ek), Some(n), Some(ct)) => {
                if n.len() != 12 {
                    return Err(RecvError::DecryptionError);
                }
                let pt = match decrypt_from(ek, n, ct, priv_der) {
                    Ok(p) => p,
                    Err(_) => {
                        return Err(RecvError::DecryptionError);
                    },
                };
                match parse_envelope(&pt) {
                    Some(inner) => verify_deliver(inner),
                    None => Err(RecvError::ParseError),
                }
            },
            _ => Err(RecvError::ParseError),
        }
    } else {
        verify_deliver(outer)
    }
}

/// Law: a signed plaintext envelope whose signature verifies is accepted by
/// the receive pipeline, whatever local key the receiver holds, and
/// delivers exactly its `(sender, kind, timestamp)` triple.
pub proof fn lemma_receive_plain(e: EnvelopeModel, priv_der: Seq<u8>)
    requires
        wf_envelope(e),
        bounded_envelope(e),
        !e.encrypted,
        sig_valid(e.sender_pub, spec_canonical(e.sender, e.kind, e.timestamp), e.sig),
    ensures
        spec_receive(spec_encode_envelope(e), priv_der) == Ok::<DeliveryModel, RecvError>(
            DeliveryModel { sender: e.sender, kind: e.kind, timestamp: e.timestamp },
        ),
{
    lemma_parse_encode_envelope(e);
}

/// Law: a sealed envelope, received by the holder of the matching private
/// key, decrypts to the inner signed envelope and delivers its triple —
/// the hybrid encryption round trip composed with signature verification.
pub proof fn lemma_receive_sealed(
    outer: EnvelopeModel,
    inner: EnvelopeModel,
    rpub: Seq<u8>,
    priv_der: Seq<u8>,
)
    requires
        wf_envelope(outer),
        bounded_envelope(outer),
        wf_envelope(inner),
        bounded_envelope(inner),
        !inner.encrypted,
        sealed_over(outer, inner, rpub),
        key_pair(priv_der, rpub),
        sig_valid(inner.sender_pub, spec_canonical(inner.sender, inner.kind, inner.timestamp), inner.sig),
    ensures
        spec_receive(spec_encode_envelope(outer), priv_der) == Ok::<DeliveryModel, RecvError>(
            DeliveryModel { sender: inner.sender, kind: inner.kind, timestamp: inner.timestamp },
        ),
{
    lemma_parse_encode_envelope(outer);
    lemma_parse_encode_envelope(inner);
}

} // verus!
