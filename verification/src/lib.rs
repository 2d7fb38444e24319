//! Core of a token-gated file encryption service.
//!
//! The library holds the logic that is worth proving: the bounded-memory
//! chunking rules and the chunked authenticated cipher of the file engine,
//! the canonical key-store record encoding and its sealing under the
//! service secret, the balance interpretation and the staged access-control
//! protocol that turns owner-held re-encryption material into
//! requester-specific decryption keys.  Transport, storage and ledger I/O
//! stay outside and hand plain values in.

pub mod access;
pub mod balance;
pub mod chunking;
pub mod cipher;
pub mod engine;
pub mod errors;
pub mod record;
pub mod recrypt;
pub mod upload;
