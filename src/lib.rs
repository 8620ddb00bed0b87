//! Ledger blocks: a header with a canonical byte encoding, a cached SHA-256
//! identity hash, and an ECDSA (P-256) signature over the encoded header.

pub mod block;
pub mod codec;
pub mod crypto;
pub mod hash;
