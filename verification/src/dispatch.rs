//! Dispatcher: the send path of the node.  A request is composed and
//! signed, optionally sealed for the recipient, and then routed by the
//! destination's recorded address scheme — `ble:` addresses go to the radio
//! transport, anything else to the bundle transport, and an unknown
//! destination or a failed transport lands the serialized envelope in the
//! durable retry cache.  The transports themselves are collaborators; this
//! module decides, the caller performs.

use vstd::prelude::*;
use crate::cache::{Cache, CachedMsg, CachedMsgModel};
use crate::codec::{encode_envelope, spec_encode_envelope};
use crate::crypto::{signing_key, wrap_key, CryptoError, KeyPair};
use crate::message::{DataKind, DataKindModel, opt_bytes_model};
use crate::peers::{is_ble_addr, has_ble_scheme, PeerDirectory};
use crate::protocol::{compose, plain_envelope, seal_for_recipient, sealed_over};

verus! {

/// Transport failures reported by the collaborators that perform the
/// actual sends and receives.
#[derive(Clone, Copy, Debug, PartialEq, Eq, Structural)]
pub enum TransportError {
    SendFailed,
    RecvFailed,
}

/// Relies on std's SystemTime: the clock reading, in whole seconds since
/// the Unix epoch (0 if the clock stands before it).  Nothing can be
/// promised of it.
#[verifier::external_body]
pub fn now() -> u64 {
    std::time::SystemTime::now().duration_since(std::time::UNIX_EPOCH).map(|d| d.as_secs()).unwrap_or(
        0,
    )
}

/// Where a message should go, by the destination's recorded address.
pub enum SendPlan {
    /// Destination unknown: hold the bytes in the retry cache.
    CacheForLater,
    /// Radio transport, chunked, to this `ble:` address.
    ViaBle { addr: String },
    /// Bundle transport to this address.
    ViaBundle { addr: String },
}

/// Route a destination through the directory: unknown destinations are
/// cached, known ones dispatch by their address scheme.
pub fn plan_for(dir: &PeerDirectory, dest: &String) -> (r: SendPlan)
    requires
        dir.wf(),
    ensures
        match r {
            SendPlan::CacheForLater => !dir@.dom().contains(dest@),
            SendPlan::ViaBle { addr } => dir@.dom().contains(dest@) && addr@ == dir@[dest@]
                && is_ble_addr(addr@),
            SendPlan::ViaBundle { addr } => dir@.dom().contains(dest@) && addr@ == dir@[dest@]
                && !is_ble_addr(addr@),
        },
{
    match dir.get(dest) {
        None => SendPlan::CacheForLater,
        Some(addr) => {
            if has_ble_scheme(&addr) {
                SendPlan::ViaBle { addr }
            } else {
                SendPlan::ViaBundle { addr }
            }
        },
    }
}

/// A message ready for a transport: where it goes and the bytes to carry.
pub struct Outbound {
    pub plan: SendPlan,
    pub bytes: Vec<u8>,
}

/// The serialized envelope the send path produces for this request: the
/// signed plaintext envelope, or — when encryption was wanted and the
/// recipient's key known — some sealed envelope over it.
pub open spec fn outbound_payload(
    sender: Seq<char>,
    priv_der: Seq<u8>,
    pub_der: Seq<u8>,
    kind: DataKindModel,
    timestamp: u64,
    want_encrypt: bool,
    rpub: Option<Seq<u8>>,
    payload: Seq<u8>,
) -> bool {
    let inner = plain_envelope(sender, pub_der, kind, timestamp, priv_der);
    if want_encrypt && rpub is Some {
        exists|outer: crate::message::EnvelopeModel|
            payload == #[trigger] spec_encode_envelope(outer) && crate::message::wf_envelope(outer)
                && sealed_over(outer, inner, rpub->Some_0)
    } else {
        payload == spec_encode_envelope(inner)
    }
}

/// Split a bundle into the fixed-size chunks the radio transport writes
/// one by one: every chunk is full except possibly the last, together they
/// are exactly the input, and none is empty.
pub fn chunk_bytes(data: &Vec<u8>, chunk: usize) -> (r: Vec<Vec<u8>>)
    requires
        1 <= chunk,
    ensures
        data@.len() <= r@.len() * chunk,
        r@.len() > 0 ==> (r@.len() - 1) * chunk < data@.len(),
        data@.len() == 0 ==> r@.len() == 0,
        forall|i: int|
            0 <= i < r@.len() ==> #[trigger] r@[i]@ == data@.subrange(
                i * chunk,
                if (i + 1) * chunk <= data@.len() {
                    (i + 1) * chunk
                } else {
                    data@.len() as int
                },
            ),
{
    let mut out: Vec<Vec<u8>> = Vec::new();
    let mut pos: usize = 0;
    let len = data.len();
    proof {
        let z = out@.len() as int;
        assert(z * chunk == 0) by (nonlinear_arith)
            requires
                z == 0,
        ;
    }
    while pos < len
        invariant
            1 <= chunk,
            len == data@.len(),
            pos <= len,
            pos == if out@.len() * chunk <= len {
                (out@.len() * chunk) as int
            } else {
                len as int
            },
            out@.len() > 0 ==> (out@.len() - 1) * chunk < len,
            forall|i: int|
                0 <= i < out@.len() ==> #[trigger] out@[i]@ == data@.subrange(
                    i * chunk,
                    if (i + 1) * chunk <= len {
                        (i + 1) * chunk
                    } else {
                        len as int
                    },
                ),
        decreases len - pos,
    {
        let end = if len - pos > chunk {
            pos + chunk
        } else {
            len
        };
        let ghost n = out@.len() as int;
        out.push(vstd::slice::slice_to_vec(&data.as_slice()[pos..end]));
        proof {
            assert((n + 1) * chunk == n * chunk + chunk) by (nonlinear_arith);
            assert(n * chunk < (n + 1) * chunk) by (nonlinear_arith)
                requires
                    chunk >= 1,
            ;
        }
        pos = end;
    }
    out
}

/// The ways the send path can fail before any transport is involved: the
/// identity key cannot sign, or sealing was asked of a recipient key that
/// cannot wrap, or of an envelope too large for the cipher.
pub open spec fn send_failure(
    sender: Seq<char>,
    priv_der: Seq<u8>,
    pub_der: Seq<u8>,
    kind: DataKindModel,
    timestamp: u64,
    want_encrypt: bool,
    rpub: Option<Seq<u8>>,
) -> bool {
    ||| !signing_key(priv_der)
    ||| (want_encrypt && rpub is Some && (!wrap_key(rpub->Some_0) || spec_encode_envelope(
        plain_envelope(sender, pub_der, kind, timestamp, priv_der),
    ).len() >= 0x1000000000))
}

/// The send path up to the transport call: compose and sign, seal when
/// wanted and possible, then route.  It fails exactly under `send_failure`.
/// An unknown destination is not an error: the bytes go to the retry cache
/// and `None` comes back.  A known destination leaves the cache alone and
/// hands the caller the bytes with their route; on a transport failure the
/// caller re-`put`s them.
pub fn prepare_send(
    dir: &PeerDirectory,
    cache: &mut Cache,
    local_eid: &String,
    kp: &KeyPair,
    dest: &String,
    kind: DataKind,
    timestamp: u64,
    want_encrypt: bool,
    recipient_pub: &Option<Vec<u8>>,
) -> (r: Result<Option<Outbound>, CryptoError>)
    requires
        dir.wf(),
    ensures
        r is Err ==> final(cache)@ == old(cache)@ && send_failure(
            local_eid@,
            kp.priv_der@,
            kp.pub_der@,
            kind@,
            timestamp,
            want_encrypt,
            opt_bytes_model(*recipient_pub),
        ),
        r matches Ok(Some(out)) ==> {
            &&& outbound_payload(
                local_eid@,
                kp.priv_der@,
                kp.pub_der@,
                kind@,
                timestamp,
                want_encrypt,
                opt_bytes_model(*recipient_pub),
                out.bytes@,
            )
            &&& dir@.dom().contains(dest@)
            &&& final(cache)@ == old(cache)@
            &&& match out.plan {
                SendPlan::CacheForLater => false,
                SendPlan::ViaBle { addr } => addr@ == dir@[dest@] && is_ble_addr(addr@),
                SendPlan::ViaBundle { addr } => addr@ == dir@[dest@] && !is_ble_addr(addr@),
            }
        },
        r matches Ok(None) ==> !dir@.dom().contains(dest@) && exists|payload: Seq<u8>|
            {
                &&& #[trigger] outbound_payload(
                    local_eid@,
                    kp.priv_der@,
                    kp.pub_der@,
                    kind@,
                    timestamp,
                    want_encrypt,
                    opt_bytes_model(*recipient_pub),
                    payload,
                )
                &&& final(cache)@ == old(cache)@.push(
                    CachedMsgModel { dest: dest@, data: payload },
                )
            },
        !send_failure(
            local_eid@,
            kp.priv_der@,
            kp.pub_der@,
            kind@,
            timestamp,
            want_encrypt,
            opt_bytes_model(*recipient_pub),
        ) ==> r is Ok,
{
    let ghost kind_model = kind@;
    let env = match compose(local_eid, kind, timestamp, kp) {
        Ok(e) => e,
        Err(er) => {
            return Err(er);
        },
    };
    let sealed = if want_encrypt {
        match recipient_pub {
            Some(rp) => match seal_for_recipient(&env, rp) {
                Ok(o) => Some(o),
                Err(er) => {
                    return Err(er);
                },
            },
            None => None,
        }
    } else {
        None
    };
    let payload = match &sealed {
        Some(o) => encode_envelope(o),
        None => encode_envelope(&env),
    };
    let ghost pl = payload@;
    proof {
        if want_encrypt && recipient_pub is Some {
            let o = sealed->Some_0;
            assert(pl == spec_encode_envelope(o@));
        }
        assert(outbound_payload(
            local_eid@,
            kp.priv_der@,
            kp.pub_der@,
            kind_model,
            timestamp,
            want_encrypt,
            opt_bytes_model(*recipient_pub),
            pl,
        ));
    }
    match plan_for(dir, dest) {
        SendPlan::CacheForLater => {
            cache.put(CachedMsg { dest: dest.clone(), data: payload });
            proof {
                assert(cache@ == old(cache)@.push(CachedMsgModel { dest: dest@, data: pl }));
            }
            Ok(None)
        },
        p => Ok(Some(Outbound { plan: p, bytes: payload })),
    }
}

} // verus!
