use precrypt_server::access::{grant, request, RecryptRequest};
use precrypt_server::cipher::keygen;
use precrypt_server::engine::{decrypt_chunks, encrypt_chunks};
use precrypt_server::errors::AccessError;
use precrypt_server::record::store;
use precrypt_server::recrypt::{make_recryption_keys, make_requester_keypair, unwrap_file_key};

fn b(s: &str) -> Vec<u8> {
    s.as_bytes().to_vec()
}

struct Identity {
    pubkey: Vec<u8>,
    signed_tag: Vec<u8>,
}

fn make_identity(seed: u8) -> Identity {
    let pair = nacl::sign::generate_keypair(&[seed; 32]);
    let signed_tag = nacl::sign::signature(b"precrypt", &pair.skey).unwrap();
    Identity { pubkey: pair.pkey.to_vec(), signed_tag }
}

fn stored_record(service_secret: &Vec<u8>, file_key: &Vec<u8>) -> Vec<u8> {
    let keys = make_recryption_keys(file_key, 5_000_000).unwrap();
    store(b("Mint111"), keys, service_secret).unwrap()
}

#[test]
fn full_grant_returns_a_usable_bundle() {
    // store a record, then fetch it via access control with a valid
    // signature and a sufficient balance: the bundle must be non-empty and
    // must let the requester recover the file key
    let service_secret = keygen();
    let file_key = keygen();
    let sealed = stored_record(&service_secret, &file_key);

    let identity = make_identity(1);
    let (requester_secret, requester_pubkey) = make_requester_keypair();
    let req = RecryptRequest {
        cid: String::from("bafyexamplecid"),
        precrypt_pubkey: requester_pubkey,
        sol_pubkey: identity.pubkey.clone(),
        sol_signed_message: identity.signed_tag,
    };
    let (query, pending) = request(req, &sealed, &service_secret).unwrap();
    assert_eq!(query.mint, b("Mint111"));
    assert_eq!(
        query.owner_address,
        bs58::encode(&identity.pubkey).into_string()
    );

    let bundle = grant(pending, &vec![b("2.0")]).unwrap();
    assert!(!bundle.translated_key.is_empty());
    assert_eq!(bundle.chunk_size, 5_000_000);

    let recovered = unwrap_file_key(&requester_secret, &bundle).unwrap();
    assert_eq!(recovered, file_key);
}

#[test]
fn recovered_key_decrypts_the_artifact() {
    // the whole pipeline: seal chunks under the file key, hand out the key
    // through the access protocol, decrypt the chunks with the recovered key
    let service_secret = keygen();
    let file_key = keygen();
    let data: Vec<u8> = (0..5000).map(|i| (i % 251) as u8).collect();
    let chunks = encrypt_chunks(&file_key, &data, 4, 4096).unwrap();

    let sealed = stored_record(&service_secret, &file_key);
    let identity = make_identity(2);
    let (requester_secret, requester_pubkey) = make_requester_keypair();
    let req = RecryptRequest {
        cid: String::from("cid"),
        precrypt_pubkey: requester_pubkey,
        sol_pubkey: identity.pubkey,
        sol_signed_message: identity.signed_tag,
    };
    let (_query, pending) = request(req, &sealed, &service_secret).unwrap();
    let bundle = grant(pending, &vec![b("1")]).unwrap();
    let recovered = unwrap_file_key(&requester_secret, &bundle).unwrap();
    assert_eq!(decrypt_chunks(&recovered, &chunks).unwrap(), data);
}

#[test]
fn zero_balance_is_denied_without_a_bundle() {
    let service_secret = keygen();
    let file_key = keygen();
    let sealed = stored_record(&service_secret, &file_key);
    let identity = make_identity(3);
    let (_requester_secret, requester_pubkey) = make_requester_keypair();
    let req = RecryptRequest {
        cid: String::from("cid"),
        precrypt_pubkey: requester_pubkey,
        sol_pubkey: identity.pubkey,
        sol_signed_message: identity.signed_tag,
    };
    let (_query, pending) = request(req, &sealed, &service_secret).unwrap();
    assert_eq!(
        grant(pending, &vec![b("0"), b("0.75")]),
        Err(AccessError::InsufficientBalance)
    );
}

#[test]
fn malformed_balance_is_a_hard_failure() {
    let service_secret = keygen();
    let file_key = keygen();
    let sealed = stored_record(&service_secret, &file_key);
    let identity = make_identity(4);
    let (_rs, requester_pubkey) = make_requester_keypair();
    let req = RecryptRequest {
        cid: String::from("cid"),
        precrypt_pubkey: requester_pubkey,
        sol_pubkey: identity.pubkey,
        sol_signed_message: identity.signed_tag,
    };
    let (_query, pending) = request(req, &sealed, &service_secret).unwrap();
    assert_eq!(
        grant(pending, &vec![b("not-a-number")]),
        Err(AccessError::MalformedBalance)
    );
}

#[test]
fn invalid_signature_is_rejected_before_any_query() {
    let service_secret = keygen();
    let file_key = keygen();
    let sealed = stored_record(&service_secret, &file_key);
    let identity = make_identity(5);
    // a signature over the wrong message must fail
    let pair = nacl::sign::generate_keypair(&[5u8; 32]);
    let wrong = nacl::sign::signature(b"other-protocol", &pair.skey).unwrap();
    let (_rs, requester_pubkey) = make_requester_keypair();
    let req = RecryptRequest {
        cid: String::from("cid"),
        precrypt_pubkey: requester_pubkey,
        sol_pubkey: identity.pubkey,
        sol_signed_message: wrong,
    };
    assert_eq!(
        request(req, &sealed, &service_secret),
        Err(AccessError::InvalidSignature)
    );
}

#[test]
fn foreign_identity_signature_is_rejected() {
    let service_secret = keygen();
    let file_key = keygen();
    let sealed = stored_record(&service_secret, &file_key);
    // a valid tag signature from one identity presented under another key
    let signer = make_identity(6);
    let presented = make_identity(7);
    let (_rs, requester_pubkey) = make_requester_keypair();
    let req = RecryptRequest {
        cid: String::from("cid"),
        precrypt_pubkey: requester_pubkey,
        sol_pubkey: presented.pubkey,
        sol_signed_message: signer.signed_tag,
    };
    assert_eq!(
        request(req, &sealed, &service_secret),
        Err(AccessError::InvalidSignature)
    );
}

#[test]
fn tampered_record_is_invalid() {
    let service_secret = keygen();
    let file_key = keygen();
    let mut sealed = stored_record(&service_secret, &file_key);
    let last = sealed.len() - 1;
    sealed[last] ^= 0x80;
    let identity = make_identity(8);
    let (_rs, requester_pubkey) = make_requester_keypair();
    let req = RecryptRequest {
        cid: String::from("cid"),
        precrypt_pubkey: requester_pubkey,
        sol_pubkey: identity.pubkey,
        sol_signed_message: identity.signed_tag,
    };
    assert_eq!(
        request(req, &sealed, &service_secret),
        Err(AccessError::InvalidRecord)
    );
}

#[test]
fn malformed_requester_key_fails_at_recrypt() {
    let service_secret = keygen();
    let file_key = keygen();
    let sealed = stored_record(&service_secret, &file_key);
    let identity = make_identity(9);
    let req = RecryptRequest {
        cid: String::from("cid"),
        precrypt_pubkey: vec![1, 2, 3],
        sol_pubkey: identity.pubkey,
        sol_signed_message: identity.signed_tag,
    };
    let (_query, pending) = request(req, &sealed, &service_secret).unwrap();
    assert_eq!(
        grant(pending, &vec![b("1")]),
        Err(AccessError::MalformedRequesterKey)
    );
}
