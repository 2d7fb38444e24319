use vstd::prelude::*;

verus! {

/// Failures of the chunked crypto engine.
#[derive(Clone, Copy, Debug, PartialEq, Eq, Structural)]
pub enum CryptoError {
    /// A zero-length input: the engine refuses it explicitly rather than
    /// treating it as a zero-chunk no-op.
    EmptyInput,
    /// The worker count or memory budget cannot yield a chunk of at least
    /// one byte.
    BadConfig,
    /// The input is too large for one operation.
    Oversized,
    /// The symmetric key has the wrong length.
    BadKey,
    /// Authenticated decryption of a chunk failed: the chunk was tampered
    /// with or does not belong to this key.
    Tampered,
    /// The cipher could not produce a ciphertext (it draws randomness and
    /// that draw can fail).
    EncryptionFailed,
}

/// Failures of the key store protocol.
#[derive(Clone, Copy, Debug, PartialEq, Eq, Structural)]
pub enum StoreError {
    /// The record's fields cannot be put into the canonical encoding.
    SerializationFailed,
    /// The authenticated encryption under the service secret failed.
    EncryptionFailed,
}

/// Failures of the access control protocol, one per stage that can halt it.
///
/// A record that was not created by this service and a record that was
/// tampered with both surface as `InvalidRecord`: the two are never
/// distinguished to the caller.
#[derive(Clone, Copy, Debug, PartialEq, Eq, Structural)]
pub enum AccessError {
    /// The fetched bytes do not decrypt and decode to a key store record.
    InvalidRecord,
    /// The requester's proof of identity is not a valid signature over the
    /// protocol tag.
    InvalidSignature,
    /// A balance field returned by the ledger could not be interpreted.
    MalformedBalance,
    /// No token account of the requester holds at least one unit.
    InsufficientBalance,
    /// The requester's re-encryption public key is malformed.
    MalformedRequesterKey,
    /// The re-encryption capability rejected the stored key material.
    RecryptFailed,
}

/// Failures of the upload boundary that the library decides.
#[derive(Clone, Copy, Debug, PartialEq, Eq, Structural)]
pub enum InputError {
    /// A second file was submitted within one upload call.
    MultipleFiles,
}

} // verus!
