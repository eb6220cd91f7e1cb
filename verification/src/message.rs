//! The message envelope: sender identity, payload kind, timestamp, signature
//! and, when sealed, the three hybrid-encryption fields.  The signature is
//! always over the canonical encoding of the plaintext triple
//! `(sender, kind, timestamp)`; sealing wraps a whole serialized signed
//! envelope, never the payload alone.

use vstd::prelude::*;

verus! {

/// Payload kinds carried by an envelope: a closed tagged union, meant to be
/// extended variant by variant without breaking existing ones.
pub enum DataKind {
    Alert { text: String, urgency: u8 },
}

/// Mathematical image of a payload kind.
pub enum DataKindModel {
    Alert { text: Seq<char>, urgency: u8 },
}

impl View for DataKind {
    type V = DataKindModel;

    open spec fn view(&self) -> DataKindModel {
        match self {
            DataKind::Alert { text, urgency } => DataKindModel::Alert {
                text: text@,
                urgency: *urgency,
            },
        }
    }
}

/// The wire envelope.  `enc_key`, `nonce` and `ciphertext` are present if
/// and only if `encrypted` is set.
pub struct Envelope {
    pub sender: String,
    pub sender_pub: Vec<u8>,
    pub kind: DataKind,
    pub timestamp: u64,
    pub sig: Vec<u8>,
    pub encrypted: bool,
    pub enc_key: Option<Vec<u8>>,
    pub nonce: Option<Vec<u8>>,
    pub ciphertext: Option<Vec<u8>>,
}

/// Mathematical image of an envelope.
pub struct EnvelopeModel {
    pub sender: Seq<char>,
    pub sender_pub: Seq<u8>,
    pub kind: DataKindModel,
    pub timestamp: u64,
    pub sig: Seq<u8>,
    pub encrypted: bool,
    pub enc_key: Option<Seq<u8>>,
    pub nonce: Option<Seq<u8>>,
    pub ciphertext: Option<Seq<u8>>,
}

pub open spec fn opt_bytes_model(o: Option<Vec<u8>>) -> Option<Seq<u8>> {
    match o {
        Some(v) => Some(v@),
        None => None,
    }
}

impl View for Envelope {
    type V = EnvelopeModel;

    open spec fn view(&self) -> EnvelopeModel {
        EnvelopeModel {
            sender: self.sender@,
            sender_pub: self.sender_pub@,
            kind: self.kind@,
            timestamp: self.timestamp,
            sig: self.sig@,
            encrypted: self.encrypted,
            enc_key: opt_bytes_model(self.enc_key),
            nonce: opt_bytes_model(self.nonce),
            ciphertext: opt_bytes_model(self.ciphertext),
        }
    }
}

/// Structural soundness: the encryption fields stand exactly under the flag.
pub open spec fn wf_envelope(e: EnvelopeModel) -> bool {
    &&& e.encrypted <==> e.enc_key is Some
    &&& e.encrypted <==> e.nonce is Some
    &&& e.encrypted <==> e.ciphertext is Some
}

} // verus!
