use precrypt_server::cipher::keygen;
use precrypt_server::errors::AccessError;
use precrypt_server::record::{
    decode_record, encode_record, open_record, store, KeyStoreRecord, RecryptionKeys,
};

fn sample_record() -> KeyStoreRecord {
    KeyStoreRecord {
        mint: b"Mint111111111111111111111111111111111111111".to_vec(),
        recryption_keys: RecryptionKeys {
            owner_secret: vec![7u8; 32],
            capsule: vec![1, 2, 3, 4, 5],
            wrapped_key: vec![9, 8, 7],
            chunk_size: 5_000_000,
        },
    }
}

#[test]
fn encode_decode_round_trip() {
    let rec = sample_record();
    let bytes = encode_record(&rec);
    let back = decode_record(&bytes).unwrap();
    assert_eq!(back.mint, rec.mint);
    assert_eq!(back.recryption_keys.owner_secret, rec.recryption_keys.owner_secret);
    assert_eq!(back.recryption_keys.capsule, rec.recryption_keys.capsule);
    assert_eq!(back.recryption_keys.wrapped_key, rec.recryption_keys.wrapped_key);
    assert_eq!(back.recryption_keys.chunk_size, rec.recryption_keys.chunk_size);
}

#[test]
fn decode_rejects_garbage() {
    assert!(decode_record(&Vec::new()).is_none());
    assert!(decode_record(&vec![0u8; 7]).is_none());
    assert!(decode_record(&vec![0xffu8; 64]).is_none());
    // a valid encoding with a trailing byte is not a record
    let mut bytes = encode_record(&sample_record());
    bytes.push(0);
    assert!(decode_record(&bytes).is_none());
}

#[test]
fn store_then_open_round_trip() {
    let secret = keygen();
    let rec = sample_record();
    let sealed = store(rec.mint.clone(), rec.recryption_keys, &secret).unwrap();
    let back = open_record(&sealed, &secret).unwrap();
    assert_eq!(back.mint, rec.mint);
    assert_eq!(back.recryption_keys.chunk_size, 5_000_000);
}

#[test]
fn wrong_secret_is_an_invalid_record() {
    let secret = keygen();
    let other = keygen();
    let rec = sample_record();
    let sealed = store(rec.mint, rec.recryption_keys, &secret).unwrap();
    assert_eq!(open_record(&sealed, &other), Err(AccessError::InvalidRecord));
}

#[test]
fn every_bit_flip_is_detected() {
    // the sealing is committing: flipping any bit of the sealed record
    // makes decryption fail, never yield different-looking fields
    let secret = keygen();
    let rec = KeyStoreRecord {
        mint: b"m".to_vec(),
        recryption_keys: RecryptionKeys {
            owner_secret: vec![7u8; 32],
            capsule: vec![1, 2],
            wrapped_key: vec![3],
            chunk_size: 9,
        },
    };
    let sealed = store(rec.mint, rec.recryption_keys, &secret).unwrap();
    for byte in 0..sealed.len() {
        for bit in 0..8 {
            let mut tampered = sealed.clone();
            tampered[byte] ^= 1u8 << bit;
            assert_eq!(
                open_record(&tampered, &secret),
                Err(AccessError::InvalidRecord)
            );
        }
    }
}

#[test]
fn store_open_round_trip_recovers_fields() {
    let secret = precrypt_server::cipher::keygen();
    let rec = sample_record();
    let back = precrypt_server::record::store_open_round_trip(
        rec.mint.clone(),
        rec.recryption_keys.clone(),
        &secret,
    )
    .unwrap();
    assert_eq!(back, rec);
}
