use vstd::prelude::*;

use umbral_pre::{DeserializableFromArray, SerializableToArray, SerializableToSecretArray};

use crate::errors::{AccessError, StoreError};
use crate::record::RecryptionKeys;

verus! {

#[verifier::external_type_specification]
#[verifier::external_body]
pub struct ExUmbralSecretKey(umbral_pre::SecretKey);

#[verifier::external_type_specification]
#[verifier::external_body]
pub struct ExUmbralPublicKey(umbral_pre::PublicKey);

#[verifier::external_type_specification]
#[verifier::external_body]
pub struct ExUmbralCapsule(umbral_pre::Capsule);

#[verifier::external_type_specification]
#[verifier::external_body]
pub struct ExUmbralVerifiedKeyFrag(umbral_pre::VerifiedKeyFrag);

#[verifier::external_type_specification]
#[verifier::external_body]
pub struct ExUmbralVerifiedCapsuleFrag(umbral_pre::VerifiedCapsuleFrag);

/// Whether `DeserializableFromArray::from_bytes` accepts bytes as an
/// `umbral_pre::PublicKey`: a function of the bytes alone.
pub uninterp spec fn pubkey_parses(b: Seq<u8>) -> bool;

/// Whether `DeserializableFromArray::from_bytes` accepts bytes as an
/// `umbral_pre::SecretKey`: a function of the bytes alone.
pub uninterp spec fn scalar_parses(b: Seq<u8>) -> bool;

/// Whether `DeserializableFromArray::from_bytes` accepts bytes as an
/// `umbral_pre::Capsule`: a function of the bytes alone.
pub uninterp spec fn capsule_parses(b: Seq<u8>) -> bool;

/// The decryption key bundle issued to a successful requester, in plain
/// values: usable only by the holder of the matching re-encryption private
/// key, never cached or stored server-side.
#[derive(Clone, Debug, PartialEq, Eq)]
pub struct DecryptionKeys {
    pub owner_pubkey: Vec<u8>,
    pub capsule: Vec<u8>,
    pub translated_key: Vec<u8>,
    pub wrapped_key: Vec<u8>,
    pub chunk_size: u64,
}

/// Relies on `umbral_pre::SecretKey::random`: a fresh re-encryption secret;
/// nothing about its value can be promised.
#[verifier::external_body]
pub(crate) fn umbral_fresh_secret() -> (r: umbral_pre::SecretKey)
{
    umbral_pre::SecretKey::random()
}

/// Relies on `SerializableToSecretArray::to_secret_array` for
/// `umbral_pre::SecretKey`: the secret scalar as its 32 big-endian bytes,
/// which the secret-key deserializer accepts back.
#[verifier::external_body]
pub(crate) fn umbral_secret_bytes(sk: &umbral_pre::SecretKey) -> (r: Vec<u8>)
    ensures
        r@.len() == 32,
        scalar_parses(r@),
{
    sk.to_secret_array().as_secret().to_vec()
}

/// Relies on `DeserializableFromArray::from_bytes` for
/// `umbral_pre::SecretKey`: succeeds only on 32 bytes that form a valid
/// nonzero scalar.
#[verifier::external_body]
pub(crate) fn umbral_secret_from_bytes(b: &Vec<u8>) -> (r: Option<umbral_pre::SecretKey>)
    ensures
        r is Some <==> scalar_parses(b@),
        r is Some ==> b@.len() == 32,
{
    umbral_pre::SecretKey::from_bytes(b).ok()
}

/// Relies on `umbral_pre::SecretKey::public_key`: the public counterpart of
/// a secret key.
#[verifier::external_body]
pub(crate) fn umbral_public_of(sk: &umbral_pre::SecretKey) -> (r: umbral_pre::PublicKey)
{
    sk.public_key()
}

/// Relies on `SerializableToArray::to_array` for `umbral_pre::PublicKey`:
/// the 33-byte compressed curve point, which the public-key deserializer
/// accepts back.
#[verifier::external_body]
pub(crate) fn umbral_pubkey_bytes(pk: &umbral_pre::PublicKey) -> (r: Vec<u8>)
    ensures
        r@.len() == 33,
        pubkey_parses(r@),
{
    pk.to_array().to_vec()
}

/// Relies on `DeserializableFromArray::from_bytes` for
/// `umbral_pre::PublicKey`: succeeds only on 33 bytes that form a valid
/// compressed curve point.
#[verifier::external_body]
pub(crate) fn umbral_pubkey_from_bytes(b: &Vec<u8>) -> (r: Option<umbral_pre::PublicKey>)
    ensures
        r is Some <==> pubkey_parses(b@),
        r is Some ==> b@.len() == 33,
{
    umbral_pre::PublicKey::from_bytes(b).ok()
}

/// Relies on `DeserializableFromArray::from_bytes` for
/// `umbral_pre::Capsule`: succeeds only on bytes that form a valid capsule.
#[verifier::external_body]
pub(crate) fn umbral_capsule_from_bytes(b: &Vec<u8>) -> (r: Option<umbral_pre::Capsule>)
    ensures
        r is Some <==> capsule_parses(b@),
{
    umbral_pre::Capsule::from_bytes(b).ok()
}

/// Relies on `umbral_pre::encrypt`: encapsulates a fresh key under the
/// owner's public key and encrypts the plaintext with it, returning the
/// serialized capsule and the ciphertext.  Encryption draws randomness.
#[verifier::external_body]
pub(crate) fn umbral_wrap_key(pk: &umbral_pre::PublicKey, plaintext: &Vec<u8>) -> (r: Option<
    (Vec<u8>, Vec<u8>),
>)
    ensures
        r matches Some(c) ==> c.0@.len() > 0 && c.1@.len() >= plaintext@.len()
            && capsule_parses(c.0@),
{
    match umbral_pre::encrypt(pk, plaintext) {
        Ok((capsule, ct)) => Some((capsule.to_array().to_vec(), ct.to_vec())),
        Err(_) => None,
    }
}

/// Relies on `umbral_pre::generate_kfrags`: a single re-encryption key
/// fragment from the owner's secret to the receiver's public key, with
/// threshold one and a throwaway signer, as fragment verification is not
/// used without proxies.
#[verifier::external_body]
pub(crate) fn umbral_kfrag(
    owner: &umbral_pre::SecretKey,
    receiver: &umbral_pre::PublicKey,
) -> (r: umbral_pre::VerifiedKeyFrag)
{
    umbral_pre::generate_kfrags(
        owner,
        receiver,
        &umbral_pre::Signer::new(umbral_pre::SecretKey::random()),
        1,
        1,
        false,
        false,
    )[0].clone()
}

/// Relies on `umbral_pre::reencrypt`: translates a capsule with a key
/// fragment into a serialized capsule fragment, a fixed-size non-empty
/// encoding.
#[verifier::external_body]
pub(crate) fn umbral_reencrypt(
    capsule: &umbral_pre::Capsule,
    kfrag: &umbral_pre::VerifiedKeyFrag,
) -> (r: Vec<u8>)
    ensures
        r@.len() > 0,
{
    umbral_pre::reencrypt(capsule, kfrag.clone()).to_array().to_vec()
}

/// Relies on `umbral_pre::VerifiedCapsuleFrag::from_verified_bytes`:
/// succeeds only on bytes that form a valid capsule fragment.
#[verifier::external_body]
pub(crate) fn umbral_cfrag_from_bytes(b: &Vec<u8>) -> (r: Option<umbral_pre::VerifiedCapsuleFrag>)
    ensures
        true,
{
    umbral_pre::VerifiedCapsuleFrag::from_verified_bytes(b).ok()
}

/// Relies on `umbral_pre::decrypt_reencrypted`: opens the capsule with the
/// receiver's secret and the translated fragment and decrypts the wrapped
/// bytes; it fails whenever the material does not fit together.
#[verifier::external_body]
pub(crate) fn umbral_unwrap(
    receiver: &umbral_pre::SecretKey,
    owner_pk: &umbral_pre::PublicKey,
    capsule: &umbral_pre::Capsule,
    cfrag: umbral_pre::VerifiedCapsuleFrag,
    ct: &Vec<u8>,
) -> (r: Option<Vec<u8>>)
{
    match umbral_pre::decrypt_reencrypted(receiver, owner_pk, capsule, [cfrag], ct) {
        Ok(p) => Some(p.to_vec()),
        Err(_) => None,
    }
}

/// Builds the re-encryption key material for one file: a fresh owner
/// secret, and the symmetric file key wrapped under the owner's public key
/// together with its capsule.  Only the wrapped form of the file key ever
/// crosses the trust boundary.
pub fn make_recryption_keys(file_key: &Vec<u8>, chunk_size: u64) -> (r: Result<
    RecryptionKeys,
    StoreError,
>)
    requires
        file_key@.len() == 32,
    ensures
        r matches Ok(k) ==> k.chunk_size == chunk_size && k.owner_secret@.len() == 32
            && k.capsule@.len() > 0 && k.wrapped_key@.len() >= 32 && scalar_parses(
            k.owner_secret@,
        ) && capsule_parses(k.capsule@),
        r is Err ==> r == Err::<RecryptionKeys, StoreError>(StoreError::EncryptionFailed),
{
    let owner = umbral_fresh_secret();
    let owner_pk = umbral_public_of(&owner);
    match umbral_wrap_key(&owner_pk, file_key) {
        Some((capsule, wrapped_key)) => {
            let owner_secret = umbral_secret_bytes(&owner);
            Ok(RecryptionKeys { owner_secret, capsule, wrapped_key, chunk_size })
        },
        None => Err(StoreError::EncryptionFailed),
    }
}

/// Pair of serialized re-encryption keys for a requester: the secret to
/// keep and the public key to send.
pub fn make_requester_keypair() -> (r: (Vec<u8>, Vec<u8>))
    ensures
        r.0@.len() == 32,
        r.1@.len() == 33,
        scalar_parses(r.0@),
        pubkey_parses(r.1@),
{
    let sk = umbral_fresh_secret();
    let pk = umbral_public_of(&sk);
    (umbral_secret_bytes(&sk), umbral_pubkey_bytes(&pk))
}

/// Recrypt step of the access control protocol: transforms the stored
/// re-encryption key material into a bundle bound to the requester's
/// re-encryption public key.  The capsule, the wrapped file key and the
/// chunk size pass through unchanged; only the translated fragment is new.
/// The plaintext file key is never recovered server-side.
pub fn recrypt(keys: RecryptionKeys, requester_pubkey: &Vec<u8>) -> (r: Result<
    DecryptionKeys,
    AccessError,
>)
    ensures
        r matches Ok(b) ==> ({
            &&& b.capsule@ == keys.capsule@
            &&& b.wrapped_key@ == keys.wrapped_key@
            &&& b.chunk_size == keys.chunk_size
            &&& b.translated_key@.len() > 0
            &&& b.owner_pubkey@.len() == 33
        }),
        r == Err::<DecryptionKeys, AccessError>(AccessError::MalformedRequesterKey)
            <==> !pubkey_parses(requester_pubkey@),
        requester_pubkey@.len() != 33 ==> r == Err::<DecryptionKeys, AccessError>(
            AccessError::MalformedRequesterKey,
        ),
        pubkey_parses(requester_pubkey@) && !(scalar_parses(keys.owner_secret@)
            && capsule_parses(keys.capsule@)) <==> r == Err::<DecryptionKeys, AccessError>(
            AccessError::RecryptFailed,
        ),
        pubkey_parses(requester_pubkey@) && scalar_parses(keys.owner_secret@) && capsule_parses(
            keys.capsule@,
        ) ==> r is Ok,
{
    let receiver = match umbral_pubkey_from_bytes(requester_pubkey) {
        Some(pk) => pk,
        None => {
            return Err(AccessError::MalformedRequesterKey);
        },
    };
    let owner = match umbral_secret_from_bytes(&keys.owner_secret) {
        Some(sk) => sk,
        None => {
            return Err(AccessError::RecryptFailed);
        },
    };
    let capsule = match umbral_capsule_from_bytes(&keys.capsule) {
        Some(c) => c,
        None => {
            return Err(AccessError::RecryptFailed);
        },
    };
    let kfrag = umbral_kfrag(&owner, &receiver);
    let translated_key = umbral_reencrypt(&capsule, &kfrag);
    let owner_pk = umbral_public_of(&owner);
    let owner_pubkey = umbral_pubkey_bytes(&owner_pk);
    Ok(
        DecryptionKeys {
            owner_pubkey,
            capsule: keys.capsule,
            translated_key,
            wrapped_key: keys.wrapped_key,
            chunk_size: keys.chunk_size,
        },
    )
}

/// Client side of the protocol: the holder of the requester's re-encryption
/// secret recovers the symmetric file key from a decryption key bundle.
pub fn unwrap_file_key(receiver_secret: &Vec<u8>, bundle: &DecryptionKeys) -> (r: Result<
    Vec<u8>,
    AccessError,
>)
    ensures
        r is Err ==> r == Err::<Vec<u8>, AccessError>(AccessError::RecryptFailed),
{
    let receiver = match umbral_secret_from_bytes(receiver_secret) {
        Some(k) => k,
        None => {
            return Err(AccessError::RecryptFailed);
        },
    };
    let owner_pk = match umbral_pubkey_from_bytes(&bundle.owner_pubkey) {
        Some(k) => k,
        None => {
            return Err(AccessError::RecryptFailed);
        },
    };
    let capsule = match umbral_capsule_from_bytes(&bundle.capsule) {
        Some(c) => c,
        None => {
            return Err(AccessError::RecryptFailed);
        },
    };
    let cfrag = match umbral_cfrag_from_bytes(&bundle.translated_key) {
        Some(f) => f,
        None => {
            return Err(AccessError::RecryptFailed);
        },
    };
    match umbral_unwrap(&receiver, &owner_pk, &capsule, cfrag, &bundle.wrapped_key) {
        Some(k) => Ok(k),
        None => Err(AccessError::RecryptFailed),
    }
}

} // verus!
