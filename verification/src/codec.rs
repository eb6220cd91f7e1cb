//! Canonical byte encoding of envelopes, and of the signed triple
//! `(sender, kind, timestamp)`.  The encoding is fixed and order-preserving:
//! variable-length fields carry a little-endian 64-bit length prefix,
//! strings travel as their UTF-8 bytes, the payload kind as a one-byte tag
//! followed by its fields, and the encryption fields follow a one-byte flag.
//! Two conforming encoders therefore produce byte-identical output for the
//! same logical envelope, which the signature scheme depends on.

use vstd::prelude::*;
use vstd::bytes::{
    lemma_auto_spec_u64_to_from_le_bytes, spec_u64_from_le_bytes, spec_u64_to_le_bytes,
    u64_from_le_bytes, u64_to_le_bytes,
};
use vstd::utf8::{
    decode_utf8, decode_utf8_encode_utf8, encode_utf8, encode_utf8_decode_utf8,
    encode_utf8_valid_utf8, valid_utf8,
};
use vstd::slice::slice_to_vec;
use crate::message::{DataKind, DataKindModel, Envelope, EnvelopeModel, wf_envelope};

verus! {

/// A variable-length field on the wire: 64-bit little-endian length, then
/// the bytes themselves.
pub open spec fn len_prefixed(b: Seq<u8>) -> Seq<u8> {
    spec_u64_to_le_bytes(b.len() as u64) + b
}

/// Wire form of a payload kind: a one-byte variant tag, then the fields in
/// declaration order.
pub open spec fn spec_encode_kind(k: DataKindModel) -> Seq<u8> {
    match k {
        DataKindModel::Alert { text, urgency } => seq![0u8] + len_prefixed(encode_utf8(text))
            + seq![urgency],
    }
}

/// The canonical signing encoding of the plaintext triple: identical on the
/// signing and the verifying side.
pub open spec fn spec_canonical(sender: Seq<char>, kind: DataKindModel, timestamp: u64) -> Seq<u8> {
    len_prefixed(encode_utf8(sender)) + spec_encode_kind(kind) + spec_u64_to_le_bytes(timestamp)
}

/// Wire form of the encryption tail: a presence flag, then — only when the
/// envelope is sealed — the wrapped key, the nonce and the ciphertext.
pub open spec fn spec_encode_tail(e: EnvelopeModel) -> Seq<u8> {
    match (e.encrypted, e.enc_key, e.nonce, e.ciphertext) {
        (true, Some(ek), Some(n), Some(ct)) => seq![1u8] + len_prefixed(ek) + len_prefixed(n)
            + len_prefixed(ct),
        _ => seq![0u8],
    }
}

/// Wire form of a whole envelope.
pub open spec fn spec_encode_envelope(e: EnvelopeModel) -> Seq<u8> {
    len_prefixed(encode_utf8(e.sender)) + len_prefixed(e.sender_pub) + spec_encode_kind(e.kind)
        + spec_u64_to_le_bytes(e.timestamp) + len_prefixed(e.sig) + spec_encode_tail(e)
}

// ------------------------------------------------------------------
// The parser, as a mathematical function.  Each reader yields the parsed
// value and the cursor after it, or nothing when the bytes do not fit.
pub open spec fn sp_u64(b: Seq<u8>, pos: int) -> Option<(u64, int)> {
    if 0 <= pos && pos + 8 <= b.len() {
        Some((spec_u64_from_le_bytes(b.subrange(pos, pos + 8)), pos + 8))
    } else {
        None
    }
}

pub open spec fn sp_block(b: Seq<u8>, pos: int) -> Option<(Seq<u8>, int)> {
    match sp_u64(b, pos) {
        Some((l, p)) => if p + l <= b.len() {
            Some((b.subrange(p, p + l), p + l))
        } else {
            None
        },
        None => None,
    }
}

pub open spec fn sp_byte(b: Seq<u8>, pos: int) -> Option<(u8, int)> {
    if 0 <= pos && pos < b.len() {
        Some((b[pos], pos + 1))
    } else {
        None
    }
}

pub open spec fn sp_string(b: Seq<u8>, pos: int) -> Option<(Seq<char>, int)> {
    match sp_block(b, pos) {
        Some((bs, p)) => if valid_utf8(bs) {
            Some((decode_utf8(bs), p))
        } else {
            None
        },
        None => None,
    }
}

pub open spec fn sp_kind(b: Seq<u8>, pos: int) -> Option<(DataKindModel, int)> {
    match sp_byte(b, pos) {
        Some((tag, p)) => if tag == 0 {
            match sp_string(b, p) {
                Some((text, p2)) => match sp_byte(b, p2) {
                    Some((urgency, p3)) => Some((DataKindModel::Alert { text, urgency }, p3)),
                    None => None,
                },
                None => None,
            }
        } else {
            None
        },
        None => None,
    }
}

pub open spec fn sp_tail(b: Seq<u8>, pos: int) -> Option<
    ((bool, Option<Seq<u8>>, Option<Seq<u8>>, Option<Seq<u8>>), int),
> {
    match sp_byte(b, pos) {
        Some((flag, p)) => if flag == 0 {
            Some(((false, None, None, None), p))
        } else if flag == 1 {
            match sp_block(b, p) {
                Some((ek, p2)) => match sp_block(b, p2) {
                    Some((n, p3)) => match sp_block(b, p3) {
                        Some((ct, p4)) => Some(((true, Some(ek), Some(n), Some(ct)), p4)),
                        None => None,
                    },
                    None => None,
                },
                None => None,
            }
        } else {
            None
        },
        None => None,
    }
}

/// The whole parser: an envelope exactly when the bytes are consumed
/// entirely by the field sequence above.
pub open spec fn spec_parse_envelope(b: Seq<u8>) -> Option<EnvelopeModel> {
    match sp_string(b, 0) {
        Some((sender, p1)) => match sp_block(b, p1) {
            Some((sender_pub, p2)) => match sp_kind(b, p2) {
                Some((kind, p3)) => match sp_u64(b, p3) {
                    Some((timestamp, p4)) => match sp_block(b, p4) {
                        Some((sig, p5)) => match sp_tail(b, p5) {
                            Some(((encrypted, enc_key, nonce, ciphertext), p6)) => if p6
                                == b.len() {
                                Some(
                                    EnvelopeModel {
                                        sender,
                                        sender_pub,
                                        kind,
                                        timestamp,
                                        sig,
                                        encrypted,
                                        enc_key,
                                        nonce,
                                        ciphertext,
                                    },
                                )
                            } else {
                                None
                            },
                            None => None,
                        },
                        None => None,
                    },
                    None => None,
                },
                None => None,
            },
            None => None,
        },
        None => None,
    }
}

// ------------------------------------------------------------------
// Executable encoder.
fn push_bytes(out: &mut Vec<u8>, b: &[u8])
    ensures
        final(out)@ == old(out)@ + b@,
{
    let mut i: usize = 0;
    while i < b.len()
        invariant
            i <= b@.len(),
            out@ == old(out)@ + b@.subrange(0, i as int),
        decreases b@.len() - i,
    {
        out.push(b[i]);
        i = i + 1;
        proof {
            assert(out@ =~= old(out)@ + b@.subrange(0, i as int));
        }
    }
    proof {
        assert(b@.subrange(0, b@.len() as int) =~= b@);
    }
}

fn push_u64(out: &mut Vec<u8>, x: u64)
    ensures
        final(out)@ == old(out)@ + spec_u64_to_le_bytes(x),
{
    let mut le = u64_to_le_bytes(x);
    out.append(&mut le);
}

fn push_block(out: &mut Vec<u8>, b: &[u8])
    ensures
        final(out)@ == old(out)@ + len_prefixed(b@),
{
    push_u64(out, b.len() as u64);
    push_bytes(out, b);
    proof {
        assert(out@ =~= old(out)@ + len_prefixed(b@));
    }
}

fn push_str(out: &mut Vec<u8>, s: &String)
    ensures
        final(out)@ == old(out)@ + len_prefixed(encode_utf8(s@)),
{
    let bs = s.as_str().as_bytes();
    push_block(out, bs);
}

fn push_kind(out: &mut Vec<u8>, k: &DataKind)
    ensures
        final(out)@ == old(out)@ + spec_encode_kind(k@),
{
    match k {
        DataKind::Alert { text, urgency } => {
            out.push(0u8);
            push_str(out, text);
            out.push(*urgency);
            proof {
                assert(out@ =~= old(out)@ + spec_encode_kind(k@));
            }
        },
    }
}

/// The canonical signing bytes of `(sender, kind, timestamp)`.
pub fn encode_canonical(sender: &String, kind: &DataKind, timestamp: u64) -> (r: Vec<u8>)
    ensures
        r@ == spec_canonical(sender@, kind@, timestamp),
{
    let mut out: Vec<u8> = Vec::new();
    push_str(&mut out, sender);
    push_kind(&mut out, kind);
    push_u64(&mut out, timestamp);
    proof {
        assert(out@ =~= spec_canonical(sender@, kind@, timestamp));
    }
    out
}

/// Serialize an envelope into its canonical wire bytes.
pub fn encode_envelope(e: &Envelope) -> (r: Vec<u8>)
    requires
        wf_envelope(e@),
    ensures
        r@ == spec_encode_envelope(e@),
{
    let mut out: Vec<u8> = Vec::new();
    push_str(&mut out, &e.sender);
    push_block(&mut out, e.sender_pub.as_slice());
    push_kind(&mut out, &e.kind);
    push_u64(&mut out, e.timestamp);
    push_block(&mut out, e.sig.as_slice());
    if e.encrypted {
        out.push(1u8);
        match (&e.enc_key, &e.nonce, &e.ciphertext) {
            (Some(ek), Some(n), Some(ct)) => {
                push_block(&mut out, ek.as_slice());
                push_block(&mut out, n.as_slice());
                push_block(&mut out, ct.as_slice());
            },
            _ => {
                proof {
                    assert(false);
                }
            },
        }
    } else {
        out.push(0u8);
    }
    proof {
        assert(out@ =~= spec_encode_envelope(e@));
    }
    out
}

// ------------------------------------------------------------------
// Executable parser: each reader matches its mathematical counterpart.
/// Relies on String::from_utf8: succeeds exactly on valid UTF-8, returning
/// the string those bytes encode.
#[verifier::external_body]
pub(crate) fn string_from_utf8(bytes: Vec<u8>) -> (r: Option<String>)
    ensures
        r matches Some(s) ==> encode_utf8(s@) == bytes@,
        valid_utf8(bytes@) ==> r is Some,
{
    String::from_utf8(bytes).ok()
}

fn read_u64(b: &Vec<u8>, pos: usize) -> (r: Option<(u64, usize)>)
    requires
        pos <= b@.len(),
    ensures
        match r {
            Some((x, p)) => sp_u64(b@, pos as int) == Some((x, p as int)) && p <= b@.len(),
            None => sp_u64(b@, pos as int) is None,
        },
{
    if b.len() - pos >= 8 {
        let x = u64_from_le_bytes(&b.as_slice()[pos..pos + 8]);
        Some((x, pos + 8))
    } else {
        None
    }
}

fn read_block(b: &Vec<u8>, pos: usize) -> (r: Option<(Vec<u8>, usize)>)
    requires
        pos <= b@.len(),
    ensures
        match r {
            Some((v, p)) => sp_block(b@, pos as int) == Some((v@, p as int)) && p <= b@.len(),
            None => sp_block(b@, pos as int) is None,
        },
{
    match read_u64(b, pos) {
        Some((l, p)) => {
            if l <= (b.len() - p) as u64 {
                let end = p + (l as usize);
                let v = slice_to_vec(&b.as_slice()[p..end]);
                Some((v, end))
            } else {
                None
            }
        },
        None => None,
    }
}

fn read_byte(b: &Vec<u8>, pos: usize) -> (r: Option<(u8, usize)>)
    requires
        pos <= b@.len(),
    ensures
        match r {
            Some((x, p)) => sp_byte(b@, pos as int) == Some((x, p as int)) && p <= b@.len(),
            None => sp_byte(b@, pos as int) is None,
        },
{
    if pos < b.len() {
        Some((b[pos], pos + 1))
    } else {
        None
    }
}

fn read_string(b: &Vec<u8>, pos: usize) -> (r: Option<(String, usize)>)
    requires
        pos <= b@.len(),
    ensures
        match r {
            Some((s, p)) => sp_string(b@, pos as int) == Some((s@, p as int)) && p <= b@.len(),
            None => sp_string(b@, pos as int) is None,
        },
{
    match read_block(b, pos) {
        Some((bs, p)) => {
            let ghost bs_bytes = bs@;
            match string_from_utf8(bs) {
                Some(s) => {
                    proof {
                        encode_utf8_valid_utf8(s@);
                        encode_utf8_decode_utf8(s@);
                    }
                    Some((s, p))
                },
                None => {
                    proof {
                        assert(!valid_utf8(bs_bytes));
                    }
                    None
                },
            }
        },
        None => None,
    }
}

fn read_kind(b: &Vec<u8>, pos: usize) -> (r: Option<(DataKind, usize)>)
    requires
        pos <= b@.len(),
    ensures
        match r {
            Some((k, p)) => sp_kind(b@, pos as int) == Some((k@, p as int)) && p <= b@.len(),
            None => sp_kind(b@, pos as int) is None,
        },
{
    match read_byte(b, pos) {
        Some((tag, p)) => {
            if tag == 0 {
                match read_string(b, p) {
                    Some((text, p2)) => match read_byte(b, p2) {
                        Some((urgency, p3)) => Some((DataKind::Alert { text, urgency }, p3)),
                        None => None,
                    },
                    None => None,
                }
            } else {
                None
            }
        },
        None => None,
    }
}

/// Parse canonical wire bytes back into an envelope; `None` exactly when
/// the mathematical parser rejects them.
pub fn parse_envelope(b: &Vec<u8>) -> (r: Option<Envelope>)
    ensures
        match r {
            Some(e) => spec_parse_envelope(b@) == Some(e@),
            None => spec_parse_envelope(b@) is None,
        },
{
    let r1 = read_string(b, 0);
    let (sender, p1) = match r1 {
        Some(x) => x,
        None => {
            return None;
        },
    };
    let r2 = read_block(b, p1);
    let (sender_pub, p2) = match r2 {
        Some(x) => x,
        None => {
            return None;
        },
    };
    let r3 = read_kind(b, p2);
    let (kind, p3) = match r3 {
        Some(x) => x,
        None => {
            return None;
        },
    };
    let r4 = read_u64(b, p3);
    let (timestamp, p4) = match r4 {
        Some(x) => x,
        None => {
            return None;
        },
    };
    let r5 = read_block(b, p4);
    let (sig, p5) = match r5 {
        Some(x) => x,
        None => {
            return None;
        },
    };
    let r6 = read_byte(b, p5);
    let (flag, p6) = match r6 {
        Some(x) => x,
        None => {
            return None;
        },
    };
    if flag == 0 {
        if p6 == b.len() {
            Some(
                Envelope {
                    sender,
                    sender_pub,
                    kind,
                    timestamp,
                    sig,
                    encrypted: false,
                    enc_key: None,
                    nonce: None,
                    ciphertext: None,
                },
            )
        } else {
            None
        }
    } else if flag == 1 {
        let r7 = read_block(b, p6);
        let (ek, p7) = match r7 {
            Some(x) => x,
            None => {
                return None;
            },
        };
        let r8 = read_block(b, p7);
        let (n, p8) = match r8 {
            Some(x) => x,
            None => {
                return None;
            },
        };
        let r9 = read_block(b, p8);
        let (ct, p9) = match r9 {
            Some(x) => x,
            None => {
                return None;
            },
        };
        if p9 == b.len() {
            Some(
                Envelope {
                    sender,
                    sender_pub,
                    kind,
                    timestamp,
                    sig,
                    encrypted: true,
                    enc_key: Some(ek),
                    nonce: Some(n),
                    ciphertext: Some(ct),
                },
            )
        } else {
            None
        }
    } else {
        None
    }
}

// ------------------------------------------------------------------
// Round trip: parsing the encoding of a well-formed envelope gives that
// envelope back.  Each lemma peels one field off the front of the
// remaining input.
proof fn lemma_suffix_parts(b: Seq<u8>, pos: int, p1: Seq<u8>, p2: Seq<u8>)
    requires
        0 <= pos <= b.len(),
        b.subrange(pos, b.len() as int) == p1 + p2,
    ensures
        b.len() - pos == p1.len() + p2.len(),
        b.subrange(pos, pos + p1.len() as int) == p1,
        b.subrange(pos + p1.len() as int, b.len() as int) == p2,
{
    let whole = b.subrange(pos, b.len() as int);
    assert(whole.len() == (p1 + p2).len());
    assert forall|i: int| 0 <= i < p1.len() implies b.subrange(pos, pos + p1.len() as int)[i]
        == p1[i] by {
        assert(whole[i] == (p1 + p2)[i]);
    }
    assert(b.subrange(pos, pos + p1.len() as int) =~= p1);
    assert forall|i: int|
        0 <= i < p2.len() implies b.subrange(pos + p1.len() as int, b.len() as int)[i]
        == p2[i] by {
        assert(whole[p1.len() + i] == (p1 + p2)[p1.len() + i]);
    }
    assert(b.subrange(pos + p1.len() as int, b.len() as int) =~= p2);
}

proof fn lemma_sp_u64_at(b: Seq<u8>, pos: int, x: u64, rest: Seq<u8>)
    requires
        0 <= pos <= b.len(),
        b.subrange(pos, b.len() as int) == spec_u64_to_le_bytes(x) + rest,
    ensures
        sp_u64(b, pos) == Some((x, pos + 8)),
        b.subrange(pos + 8, b.len() as int) == rest,
{
    lemma_auto_spec_u64_to_from_le_bytes();
    lemma_suffix_parts(b, pos, spec_u64_to_le_bytes(x), rest);
}

proof fn lemma_sp_byte_at(b: Seq<u8>, pos: int, x: u8, rest: Seq<u8>)
    requires
        0 <= pos <= b.len(),
        b.subrange(pos, b.len() as int) == seq![x] + rest,
    ensures
        sp_byte(b, pos) == Some((x, pos + 1)),
        b.subrange(pos + 1, b.len() as int) == rest,
{
    lemma_suffix_parts(b, pos, seq![x], rest);
    assert(b[pos] == b.subrange(pos, pos + 1)[0]);
}

proof fn lemma_sp_block_at(b: Seq<u8>, pos: int, x: Seq<u8>, rest: Seq<u8>)
    requires
        0 <= pos <= b.len(),
        x.len() < 0x10000000000000000,
        b.subrange(pos, b.len() as int) == len_prefixed(x) + rest,
    ensures
        sp_block(b, pos) == Some((x, pos + 8 + x.len())),
        b.subrange(pos + 8 + x.len() as int, b.len() as int) == rest,
{
    lemma_auto_spec_u64_to_from_le_bytes();
    assert((spec_u64_to_le_bytes(x.len() as u64) + x) + rest =~= spec_u64_to_le_bytes(
        x.len() as u64,
    ) + (x + rest));
    lemma_sp_u64_at(b, pos, x.len() as u64, x + rest);
    assert(x.len() as u64 as int == x.len() as int);
    lemma_suffix_parts(b, pos + 8, x, rest);
    assert(pos + 8 + x.len() <= b.len());
}

proof fn lemma_sp_string_at(b: Seq<u8>, pos: int, s: Seq<char>, rest: Seq<u8>)
    requires
        0 <= pos <= b.len(),
        encode_utf8(s).len() < 0x10000000000000000,
        b.subrange(pos, b.len() as int) == len_prefixed(encode_utf8(s)) + rest,
    ensures
        sp_string(b, pos) == Some((s, pos + 8 + encode_utf8(s).len())),
        b.subrange(pos + 8 + encode_utf8(s).len() as int, b.len() as int) == rest,
{
    lemma_sp_block_at(b, pos, encode_utf8(s), rest);
    encode_utf8_valid_utf8(s);
    encode_utf8_decode_utf8(s);
}

proof fn lemma_sp_kind_at(b: Seq<u8>, pos: int, k: DataKindModel, rest: Seq<u8>)
    requires
        0 <= pos <= b.len(),
        bounded_kind(k),
        b.subrange(pos, b.len() as int) == spec_encode_kind(k) + rest,
    ensures
        sp_kind(b, pos) == Some((k, pos + spec_encode_kind(k).len())),
        b.subrange(pos + spec_encode_kind(k).len() as int, b.len() as int) == rest,
{
    match k {
        DataKindModel::Alert { text, urgency } => {
            let tb = encode_utf8(text);
            assert((seq![0u8] + len_prefixed(tb) + seq![urgency]) + rest =~= seq![0u8]
                + (len_prefixed(tb) + (seq![urgency] + rest)));
            lemma_sp_byte_at(b, pos, 0u8, len_prefixed(tb) + (seq![urgency] + rest));
            lemma_sp_string_at(b, pos + 1, text, seq![urgency] + rest);
            lemma_sp_byte_at(b, pos + 1 + 8 + tb.len() as int, urgency, rest);
            assert(spec_encode_kind(k).len() == 1 + 8 + tb.len() + 1);
        },
    }
}

/// Every variable-length field fits its 64-bit length prefix.  True of any
/// envelope that exists in memory, since each field is a real vector.
pub open spec fn bounded_kind(k: DataKindModel) -> bool {
    match k {
        DataKindModel::Alert { text, urgency } => encode_utf8(text).len() < 0x10000000000000000,
    }
}

pub open spec fn bounded_envelope(e: EnvelopeModel) -> bool {
    &&& encode_utf8(e.sender).len() < 0x10000000000000000
    &&& e.sender_pub.len() < 0x10000000000000000
    &&& bounded_kind(e.kind)
    &&& e.sig.len() < 0x10000000000000000
    &&& (e.enc_key matches Some(ek) ==> ek.len() < 0x10000000000000000)
    &&& (e.nonce matches Some(n) ==> n.len() < 0x10000000000000000)
    &&& (e.ciphertext matches Some(ct) ==> ct.len() < 0x10000000000000000)
}

// ------------------------------------------------------------------
// Soundness: whatever the parser accepts is the canonical encoding of the
// envelope it returns.  Each lemma reconstructs the bytes one field read.
proof fn lemma_concat_subranges(b: Seq<u8>, i: int, j: int, k: int)
    requires
        0 <= i <= j <= k <= b.len(),
    ensures
        b.subrange(i, k) == b.subrange(i, j) + b.subrange(j, k),
{
    assert(b.subrange(i, k) =~= b.subrange(i, j) + b.subrange(j, k));
}

proof fn lemma_sp_u64_sound(b: Seq<u8>, pos: int, x: u64, p: int)
    requires
        sp_u64(b, pos) == Some((x, p)),
    ensures
        pos + 8 == p <= b.len(),
        b.subrange(pos, p) == spec_u64_to_le_bytes(x),
{
    lemma_auto_spec_u64_to_from_le_bytes();
    assert(spec_u64_to_le_bytes(spec_u64_from_le_bytes(b.subrange(pos, pos + 8))) == b.subrange(
        pos,
        pos + 8,
    ));
}

proof fn lemma_sp_byte_sound(b: Seq<u8>, pos: int, x: u8, p: int)
    requires
        sp_byte(b, pos) == Some((x, p)),
    ensures
        pos + 1 == p <= b.len(),
        b.subrange(pos, p) == seq![x],
{
    assert(b.subrange(pos, pos + 1) =~= seq![b[pos]]);
}

proof fn lemma_sp_block_sound(b: Seq<u8>, pos: int, x: Seq<u8>, p: int)
    requires
        sp_block(b, pos) == Some((x, p)),
    ensures
        pos <= pos + 8 <= p <= b.len(),
        x.len() < 0x10000000000000000,
        b.subrange(pos, p) == len_prefixed(x),
{
    let l = sp_u64(b, pos)->Some_0.0;
    lemma_sp_u64_sound(b, pos, l, pos + 8);
    assert(x.len() == l);
    assert(x.len() as u64 == l);
    lemma_concat_subranges(b, pos, pos + 8, p);
}

proof fn lemma_sp_string_sound(b: Seq<u8>, pos: int, s: Seq<char>, p: int)
    requires
        sp_string(b, pos) == Some((s, p)),
    ensures
        pos <= p <= b.len(),
        encode_utf8(s).len() < 0x10000000000000000,
        b.subrange(pos, p) == len_prefixed(encode_utf8(s)),
{
    let bs = sp_block(b, pos)->Some_0.0;
    lemma_sp_block_sound(b, pos, bs, p);
    decode_utf8_encode_utf8(bs);
}

proof fn lemma_sp_kind_sound(b: Seq<u8>, pos: int, k: DataKindModel, p: int)
    requires
        sp_kind(b, pos) == Some((k, p)),
    ensures
        pos <= p <= b.len(),
        bounded_kind(k),
        b.subrange(pos, p) == spec_encode_kind(k),
{
    let p1 = sp_byte(b, pos)->Some_0.1;
    lemma_sp_byte_sound(b, pos, 0u8, p1);
    let (text, p2) = sp_string(b, p1)->Some_0;
    lemma_sp_string_sound(b, p1, text, p2);
    let urgency = sp_byte(b, p2)->Some_0.0;
    lemma_sp_byte_sound(b, p2, urgency, p);
    lemma_concat_subranges(b, p1, p2, p);
    lemma_concat_subranges(b, pos, p1, p);
    assert(b.subrange(pos, p) =~= seq![0u8] + len_prefixed(encode_utf8(text)) + seq![urgency]);
}

proof fn lemma_sp_tail_sound(
    b: Seq<u8>,
    pos: int,
    t: (bool, Option<Seq<u8>>, Option<Seq<u8>>, Option<Seq<u8>>),
    p: int,
    e: EnvelopeModel,
)
    requires
        sp_tail(b, pos) == Some((t, p)),
        e.encrypted == t.0,
        e.enc_key == t.1,
        e.nonce == t.2,
        e.ciphertext == t.3,
    ensures
        pos <= p <= b.len(),
        wf_envelope(e),
        b.subrange(pos, p) == spec_encode_tail(e),
{
    let flag = sp_byte(b, pos)->Some_0.0;
    lemma_sp_byte_sound(b, pos, flag, pos + 1);
    if flag == 1 {
        let (ek, p2) = sp_block(b, pos + 1)->Some_0;
        lemma_sp_block_sound(b, pos + 1, ek, p2);
        let (n, p3) = sp_block(b, p2)->Some_0;
        lemma_sp_block_sound(b, p2, n, p3);
        let (ct, p4) = sp_block(b, p3)->Some_0;
        lemma_sp_block_sound(b, p3, ct, p4);
        lemma_concat_subranges(b, p3, p4, p);
        lemma_concat_subranges(b, p2, p3, p);
        lemma_concat_subranges(b, pos + 1, p2, p);
        lemma_concat_subranges(b, pos, pos + 1, p);
        assert(b.subrange(pos, p) =~= seq![1u8] + len_prefixed(ek) + len_prefixed(n)
            + len_prefixed(ct));
    } else {
        assert(b.subrange(pos, p) =~= seq![0u8]);
    }
}

/// Law: the parser accepts nothing but canonical encodings — whenever it
/// yields an envelope, the input bytes are exactly that envelope's wire
/// form, and the envelope is well formed.
#[verifier::rlimit(100)]
pub proof fn lemma_parse_sound(b: Seq<u8>)
    ensures
        spec_parse_envelope(b) matches Some(e) ==> b == spec_encode_envelope(e) && wf_envelope(e),
{
    if spec_parse_envelope(b) is Some {
        let e = spec_parse_envelope(b)->Some_0;
        let (sender, p1) = sp_string(b, 0)->Some_0;
        lemma_sp_string_sound(b, 0, sender, p1);
        let (sender_pub, p2) = sp_block(b, p1)->Some_0;
        lemma_sp_block_sound(b, p1, sender_pub, p2);
        let (kind, p3) = sp_kind(b, p2)->Some_0;
        lemma_sp_kind_sound(b, p2, kind, p3);
        let (timestamp, p4) = sp_u64(b, p3)->Some_0;
        lemma_sp_u64_sound(b, p3, timestamp, p4);
        let (sig, p5) = sp_block(b, p4)->Some_0;
        lemma_sp_block_sound(b, p4, sig, p5);
        let (t, p6) = sp_tail(b, p5)->Some_0;
        lemma_sp_tail_sound(b, p5, t, p6, e);
        lemma_concat_subranges(b, p5, p6, p6);
        lemma_concat_subranges(b, p4, p5, p6);
        lemma_concat_subranges(b, p3, p4, p6);
        lemma_concat_subranges(b, p2, p3, p6);
        lemma_concat_subranges(b, p1, p2, p6);
        lemma_concat_subranges(b, 0, p1, p6);
        assert(b =~= b.subrange(0, p6));
        assert(b == spec_encode_envelope(e));
    }
}

/// Law: the codec is lossless — parsing the canonical encoding of any
/// well-formed envelope yields exactly that envelope.  In particular the
/// encoding is unambiguous: two distinct envelopes never share their wire
/// bytes.
pub proof fn lemma_parse_encode_envelope(e: EnvelopeModel)
    requires
        wf_envelope(e),
        bounded_envelope(e),
    ensures
        spec_parse_envelope(spec_encode_envelope(e)) == Some(e),
{
    let b = spec_encode_envelope(e);
    let sb = encode_utf8(e.sender);
    let kb = spec_encode_kind(e.kind);
    let tail = spec_encode_tail(e);
    let rest1 = len_prefixed(e.sender_pub) + (kb + (spec_u64_to_le_bytes(e.timestamp)
        + (len_prefixed(e.sig) + tail)));
    let rest2 = kb + (spec_u64_to_le_bytes(e.timestamp) + (len_prefixed(e.sig) + tail));
    let rest3 = spec_u64_to_le_bytes(e.timestamp) + (len_prefixed(e.sig) + tail);
    let rest4 = len_prefixed(e.sig) + tail;
    assert(b.subrange(0, b.len() as int) =~= len_prefixed(sb) + rest1);
    lemma_sp_string_at(b, 0, e.sender, rest1);
    let p1 = 8 + sb.len() as int;
    lemma_sp_block_at(b, p1, e.sender_pub, rest2);
    let p2 = p1 + 8 + e.sender_pub.len() as int;
    lemma_sp_kind_at(b, p2, e.kind, rest3);
    let p3 = p2 + kb.len() as int;
    lemma_sp_u64_at(b, p3, e.timestamp, rest4);
    let p4 = p3 + 8;
    lemma_sp_block_at(b, p4, e.sig, tail);
    let p5 = p4 + 8 + e.sig.len() as int;
    if e.encrypted {
        let ek = e.enc_key->Some_0;
        let n = e.nonce->Some_0;
        let ct = e.ciphertext->Some_0;
        assert(tail == seq![1u8] + len_prefixed(ek) + len_prefixed(n) + len_prefixed(ct));
        assert(b.subrange(p5, b.len() as int) =~= seq![1u8] + (len_prefixed(ek) + (len_prefixed(n)
            + len_prefixed(ct))));
        lemma_sp_byte_at(b, p5, 1u8, len_prefixed(ek) + (len_prefixed(n) + len_prefixed(ct)));
        lemma_sp_block_at(b, p5 + 1, ek, len_prefixed(n) + len_prefixed(ct));
        let p7 = p5 + 1 + 8 + ek.len() as int;
        lemma_sp_block_at(b, p7, n, len_prefixed(ct));
        let p8 = p7 + 8 + n.len() as int;
        assert(b.subrange(p8, b.len() as int) =~= len_prefixed(ct) + Seq::<u8>::empty());
        lemma_sp_block_at(b, p8, ct, Seq::<u8>::empty());
        let p9 = p8 + 8 + ct.len() as int;
        assert(p9 == b.len());
        assert(spec_parse_envelope(b) == Some(e));
    } else {
        assert(tail == seq![0u8]);
        assert(b.subrange(p5, b.len() as int) =~= seq![0u8] + Seq::<u8>::empty());
        lemma_sp_byte_at(b, p5, 0u8, Seq::<u8>::empty());
        assert(p5 + 1 == b.len());
        assert(spec_parse_envelope(b) == Some(e));
    }
}

} // verus!
