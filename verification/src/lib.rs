//! Secure store-and-forward envelope subsystem for a disruption-tolerant
//! messaging node: canonical envelope encoding, sign/verify and hybrid
//! encrypt/decrypt, a durable retry cache, a peer directory, and the
//! dispatch/receive pipeline that ties them together.

pub mod cache;
pub mod codec;
pub mod crypto;
pub mod dispatch;
pub mod message;
pub mod peers;
pub mod protocol;
