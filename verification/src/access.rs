use vstd::prelude::*;

use crate::balance::{balances_wf, check_ownership, owns_token};
use crate::cipher::record_opens;
use crate::errors::AccessError;
use crate::record::{open_record, parse_record, RecryptionKeys};
use crate::recrypt::{recrypt, DecryptionKeys};

verus! {

/// What `nacl::sign::verify` returns for a signature, message and 32-byte
/// public key: whether the Ed25519 signature over the message verifies
/// under the key.  The verdict is a function of the three arguments alone.
pub uninterp spec fn sig_verifies(sig: Seq<u8>, msg: Seq<u8>, pk: Seq<u8>) -> bool;

/// What `bs58::encode` returns: the Base58 rendering of the bytes, a
/// function of the bytes alone.
pub uninterp spec fn base58_of(b: Seq<u8>) -> Seq<char>;

/// Relies on `nacl::sign::verify`: with a 32-byte public key it always
/// reaches a verdict, and any signature shorter than 64 bytes is rejected.
#[verifier::external_body]
pub(crate) fn verify_signature(sig: &Vec<u8>, msg: &Vec<u8>, pk: &Vec<u8>) -> (r: bool)
    requires
        pk@.len() == 32,
    ensures
        r == sig_verifies(sig@, msg@, pk@),
        sig@.len() < 64 ==> !r,
{
    match nacl::sign::verify(sig, msg, pk) {
        Ok(b) => b,
        Err(_) => false,
    }
}

/// Relies on `bs58::encode(..).into_string()`: the Base58 rendering of the
/// bytes, the ledger's address format for a public key.
#[verifier::external_body]
pub(crate) fn to_base58(b: &Vec<u8>) -> (r: String)
    ensures
        r@ == base58_of(b@),
{
    bs58::encode(b).into_string()
}

/// The fixed, service-defined tag the requester's proof must sign: the
/// ASCII bytes of the protocol's name.  Because the signed message is this
/// constant and not request-specific data, a captured signature can be
/// replayed for the same identity.
pub open spec fn protocol_tag() -> Seq<u8> {
    seq![112u8, 114u8, 101u8, 99u8, 114u8, 121u8, 112u8, 116u8]
}

/// Builds the protocol tag.
pub fn protocol_tag_bytes() -> (r: Vec<u8>)
    ensures
        r@ == protocol_tag(),
{
    let mut v: Vec<u8> = Vec::new();
    v.push(112u8);
    v.push(114u8);
    v.push(101u8);
    v.push(99u8);
    v.push(114u8);
    v.push(121u8);
    v.push(112u8);
    v.push(116u8);
    proof {
        assert(v@ =~= protocol_tag());
    }
    v
}

/// One recrypt request: the record's content identifier, the requester's
/// re-encryption public key, the requester's identity public key, and the
/// signed proof of identity.  Ephemeral: it exists only for one evaluation.
pub struct RecryptRequest {
    pub cid: String,
    pub precrypt_pubkey: Vec<u8>,
    pub sol_pubkey: Vec<u8>,
    pub sol_signed_message: Vec<u8>,
}

/// The ledger query the protocol needs answered between its two halves:
/// token accounts of this address, filtered by this mint.
#[derive(Clone, Debug, PartialEq, Eq)]
pub struct OwnershipQuery {
    pub owner_address: String,
    pub mint: Vec<u8>,
}

/// A request that has passed the Decrypt and VerifySignature stages and
/// awaits the ledger's balances.
#[derive(Clone, Debug, PartialEq, Eq)]
pub struct PendingGrant {
    pub recryption_keys: RecryptionKeys,
    pub requester_pubkey: Vec<u8>,
}

/// The requester's proof of identity is a valid signature over the
/// protocol tag under the requester's 32-byte identity key.
pub open spec fn signature_ok(req: RecryptRequest) -> bool {
    req.sol_pubkey@.len() == 32 && sig_verifies(
        req.sol_signed_message@,
        protocol_tag(),
        req.sol_pubkey@,
    )
}

/// The fetched bytes decrypt under the service secret and decode to a
/// record.
pub open spec fn record_ok(secret: Seq<u8>, ciphertext: Seq<u8>) -> bool {
    record_opens(secret, ciphertext) matches Some(pt) && parse_record(pt) is Some
}

/// Stages Fetch → Decrypt → VerifySignature of the access control
/// protocol, strictly in order and halting at the first failing stage.
/// The fetch itself is external: the caller hands in the bytes that
/// content-addressed storage returned for the request's content
/// identifier.  On success it returns the ledger query to make and the
/// pending grant for `grant`; the protocol never touches the requester's
/// re-encryption key before ownership is proven.
pub fn request(req: RecryptRequest, record_ciphertext: &Vec<u8>, service_secret: &Vec<u8>) -> (r:
    Result<(OwnershipQuery, PendingGrant), AccessError>)
    requires
        service_secret@.len() == 32,
    ensures
        r is Ok <==> record_ok(service_secret@, record_ciphertext@) && signature_ok(req),
        !record_ok(service_secret@, record_ciphertext@) ==> r == Err::<
            (OwnershipQuery, PendingGrant),
            AccessError,
        >(AccessError::InvalidRecord),
        record_ok(service_secret@, record_ciphertext@) && !signature_ok(req) ==> r == Err::<
            (OwnershipQuery, PendingGrant),
            AccessError,
        >(AccessError::InvalidSignature),
        r matches Ok(p) ==> (record_opens(service_secret@, record_ciphertext@) matches Some(pt)
            && parse_record(pt) matches Some(f) && p.0.mint@ == f.0
            && p.1.recryption_keys.owner_secret@ == f.1 && p.1.recryption_keys.capsule@ == f.2
            && p.1.recryption_keys.wrapped_key@ == f.3 && p.1.recryption_keys.chunk_size == f.4),
        r matches Ok(p) ==> p.0.owner_address@ == base58_of(req.sol_pubkey@)
            && p.1.requester_pubkey@ == req.precrypt_pubkey@,
{
    let rec = match open_record(record_ciphertext, service_secret) {
        Ok(rec) => rec,
        Err(e) => {
            return Err(e);
        },
    };
    if req.sol_pubkey.len() != 32 {
        return Err(AccessError::InvalidSignature);
    }
    let tag = protocol_tag_bytes();
    if !verify_signature(&req.sol_signed_message, &tag, &req.sol_pubkey) {
        return Err(AccessError::InvalidSignature);
    }
    let owner_address = to_base58(&req.sol_pubkey);
    Ok(
        (
            OwnershipQuery { owner_address, mint: rec.mint },
            PendingGrant {
                recryption_keys: rec.recryption_keys,
                requester_pubkey: req.precrypt_pubkey,
            },
        ),
    )
}

/// Stages VerifyOwnership → Recrypt → Respond, strictly in order and with
/// no partial credit.  `balances` are the ledger's balance fields for the
/// query that `request` returned.  A requester whose balances do not prove
/// ownership of at least one whole token never reaches the re-encryption
/// step and receives no key material; one malformed balance field is a
/// hard failure, never defaulted.
pub fn grant(pending: PendingGrant, balances: &Vec<Vec<u8>>) -> (r: Result<
    DecryptionKeys,
    AccessError,
>)
    ensures
        !balances_wf(balances@) ==> r == Err::<DecryptionKeys, AccessError>(
            AccessError::MalformedBalance,
        ),
        balances_wf(balances@) && !owns_token(balances@) ==> r == Err::<
            DecryptionKeys,
            AccessError,
        >(AccessError::InsufficientBalance),
        r is Ok ==> balances_wf(balances@) && owns_token(balances@),
        r matches Ok(b) ==> ({
            &&& b.capsule@ == pending.recryption_keys.capsule@
            &&& b.wrapped_key@ == pending.recryption_keys.wrapped_key@
            &&& b.chunk_size == pending.recryption_keys.chunk_size
            &&& b.translated_key@.len() > 0
        }),
        balances_wf(balances@) && owns_token(balances@) && pending.requester_pubkey@.len() != 33
            ==> r == Err::<DecryptionKeys, AccessError>(AccessError::MalformedRequesterKey),
        balances_wf(balances@) && owns_token(balances@) && crate::recrypt::pubkey_parses(
            pending.requester_pubkey@,
        ) && crate::recrypt::scalar_parses(pending.recryption_keys.owner_secret@)
            && crate::recrypt::capsule_parses(pending.recryption_keys.capsule@) ==> r is Ok,
{
    let owns = match check_ownership(balances) {
        Ok(b) => b,
        Err(e) => {
            return Err(e);
        },
    };
    if !owns {
        return Err(AccessError::InsufficientBalance);
    }
    recrypt(pending.recryption_keys, &pending.requester_pubkey)
}

} // verus!
