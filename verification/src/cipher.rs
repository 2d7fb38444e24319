use vstd::prelude::*;

use crate::errors::StoreError;

verus! {

/// Length in bytes of a symmetric key, for the service secret and for the
/// per-file key alike.
pub const KEY_LEN: usize = 32;

/// What `orion::aead::open` returns for a given key and sealed bytes: the
/// plaintext if the embedded Poly1305 tag verifies, nothing otherwise.  The
/// result is a function of the key and the bytes alone.
pub uninterp spec fn record_open_of(key: Seq<u8>, ct: Seq<u8>) -> Option<Seq<u8>>;

/// What `orion::hazardous::aead::xchacha20poly1305::open` returns for a
/// given key, nonce and ciphertext-with-tag: the plaintext if the tag
/// verifies, nothing otherwise.  The result is a function of the three
/// arguments alone.
pub uninterp spec fn chunk_open_of(key: Seq<u8>, nonce: Seq<u8>, ct: Seq<u8>) -> Option<Seq<u8>>;

/// Sealed bytes that `orion::aead::open` will even look at: at least the
/// 24-byte nonce, the 16-byte tag and one byte of ciphertext, and within the
/// single-operation size limit.
pub open spec fn sealed_len_ok(ct: Seq<u8>) -> bool {
    41 <= ct.len() <= 0x4000_0028
}

/// What authenticated decryption under the service secret yields for
/// arbitrary fetched bytes: bytes too short (or too long) for one sealing
/// operation never decrypt.
pub open spec fn record_opens(key: Seq<u8>, ct: Seq<u8>) -> Option<Seq<u8>> {
    if sealed_len_ok(ct) {
        record_open_of(key, ct)
    } else {
        None
    }
}

/// Relies on `orion::aead::seal`: XChaCha20Poly1305 under a freshly drawn
/// random nonce; the result is nonce || ciphertext || tag, 40 bytes longer
/// than the plaintext, and `orion::aead::open` returns exactly the plaintext
/// for it.  Sealing draws randomness and that draw can fail.
#[verifier::external_body]
pub(crate) fn aead_seal(key: &Vec<u8>, plaintext: &Vec<u8>) -> (r: Result<Vec<u8>, StoreError>)
    requires
        key@.len() == 32,
        1 <= plaintext@.len() <= 0x4000_0000,
    ensures
        r matches Ok(ct) ==> ct@.len() == plaintext@.len() + 40 && record_open_of(key@, ct@)
            == Some(plaintext@),
{
    let sk = match orion::aead::SecretKey::from_slice(key) {
        Ok(k) => k,
        Err(_) => {
            return Err(StoreError::EncryptionFailed);
        },
    };
    match orion::aead::seal(&sk, plaintext) {
        Ok(ct) => Ok(ct),
        Err(_) => Err(StoreError::EncryptionFailed),
    }
}

/// Relies on `orion::aead::open`: authenticated decryption that succeeds
/// exactly when the Poly1305 tag verifies, and then strips the 24-byte nonce
/// and the 16-byte tag off the sealed bytes.
#[verifier::external_body]
pub(crate) fn aead_open(key: &Vec<u8>, ct: &Vec<u8>) -> (r: Option<Vec<u8>>)
    requires
        key@.len() == 32,
        sealed_len_ok(ct@),
    ensures
        r matches Some(p) ==> record_open_of(key@, ct@) == Some(p@) && p@.len() + 40 == ct@.len(),
        r is None ==> record_open_of(key@, ct@) is None,
{
    let sk = match orion::aead::SecretKey::from_slice(key) {
        Ok(k) => k,
        Err(_) => {
            return None;
        },
    };
    match orion::aead::open(&sk, ct) {
        Ok(p) => Some(p),
        Err(_) => None,
    }
}

/// Relies on `orion::hazardous::aead::xchacha20poly1305::seal` with a
/// caller-supplied nonce: deterministic authenticated encryption that
/// appends a 16-byte Poly1305 tag, and whose output opens back to exactly
/// the plaintext under the same key and nonce.  Within the required sizes it
/// cannot fail.
#[verifier::external_body]
pub(crate) fn xchacha_seal(key: &Vec<u8>, nonce: &Vec<u8>, plaintext: &Vec<u8>) -> (r: Vec<u8>)
    requires
        key@.len() == 32,
        nonce@.len() == 24,
        1 <= plaintext@.len() <= 0x4000_0000,
    ensures
        r@.len() == plaintext@.len() + 16,
        chunk_open_of(key@, nonce@, r@) == Some(plaintext@),
{
    let sk = orion::hazardous::stream::chacha20::SecretKey::from_slice(key).unwrap();
    let n = orion::hazardous::stream::xchacha20::Nonce::from_slice(nonce).unwrap();
    let mut out = vec![0u8; plaintext.len() + 16];
    orion::hazardous::aead::xchacha20poly1305::seal(&sk, &n, plaintext, None, &mut out).unwrap();
    out
}

/// Relies on `orion::hazardous::aead::xchacha20poly1305::open`: verifies the
/// trailing Poly1305 tag and decrypts; success is exactly tag verification,
/// and the plaintext is 16 bytes shorter than the input.
#[verifier::external_body]
pub(crate) fn xchacha_open(key: &Vec<u8>, nonce: &Vec<u8>, ct: &Vec<u8>) -> (r: Option<Vec<u8>>)
    requires
        key@.len() == 32,
        nonce@.len() == 24,
        17 <= ct@.len() <= 0x4000_0010,
    ensures
        r matches Some(p) ==> chunk_open_of(key@, nonce@, ct@) == Some(p@) && p@.len() + 16
            == ct@.len(),
        r is None ==> chunk_open_of(key@, nonce@, ct@) is None,
{
    let sk = orion::hazardous::stream::chacha20::SecretKey::from_slice(key).unwrap();
    let n = orion::hazardous::stream::xchacha20::Nonce::from_slice(nonce).unwrap();
    let mut out = vec![0u8; ct.len() - 16];
    match orion::hazardous::aead::xchacha20poly1305::open(&sk, &n, ct, None, &mut out) {
        Ok(()) => Some(out),
        Err(_) => None,
    }
}

/// Relies on `orion::aead::SecretKey::default`: a freshly generated random
/// 32-byte key; nothing about its value can be promised.
#[verifier::external_body]
fn fresh_secret_key() -> (r: Vec<u8>)
    ensures
        r@.len() == 32,
{
    let k = orion::aead::SecretKey::default();
    k.unprotected_as_bytes().to_vec()
}

/// Generates a symmetric key for the authenticated cipher, for use as a
/// service secret or as a per-file key.
pub fn keygen() -> (r: Vec<u8>)
    ensures
        r@.len() == KEY_LEN,
{
    fresh_secret_key()
}

} // verus!
