use precrypt_server::cipher::keygen;
use precrypt_server::engine::{decrypt_chunks, encrypt_chunks, round_trip};
use precrypt_server::errors::CryptoError;

fn sample_data(len: usize) -> Vec<u8> {
    (0..len).map(|i| (i * 31 + 7) as u8).collect()
}

#[test]
fn encrypt_decrypt_round_trip() {
    let key = keygen();
    let data = sample_data(100);
    // chunk size 7: the last chunk is partial
    let cts = encrypt_chunks(&key, &data, 3, 21).unwrap();
    assert_eq!(cts.len(), 15);
    for ct in &cts {
        assert!(ct.len() <= 7 + 16);
    }
    let back = decrypt_chunks(&key, &cts).unwrap();
    assert_eq!(back, data);
}

#[test]
fn round_trip_function_returns_input() {
    let key = keygen();
    let data = sample_data(12345);
    let back = round_trip(&key, &data, 10, 50_000_000);
    assert_eq!(back, data);
}

#[test]
fn single_byte_file() {
    let key = keygen();
    let data = vec![42u8];
    let cts = encrypt_chunks(&key, &data, 1, 1).unwrap();
    assert_eq!(cts.len(), 1);
    assert_eq!(decrypt_chunks(&key, &cts).unwrap(), data);
}

#[test]
fn empty_input_is_an_error() {
    let key = keygen();
    let data: Vec<u8> = Vec::new();
    assert!(matches!(
        encrypt_chunks(&key, &data, 4, 100),
        Err(CryptoError::EmptyInput)
    ));
}

#[test]
fn flipped_bit_in_a_chunk_aborts_decryption() {
    let key = keygen();
    let data = sample_data(64);
    let mut cts = encrypt_chunks(&key, &data, 2, 32).unwrap();
    cts[1][3] ^= 0x01;
    assert_eq!(decrypt_chunks(&key, &cts), Err(CryptoError::Tampered));
}

#[test]
fn reordered_chunks_abort_decryption() {
    // each chunk is bound to its index through the nonce, so swapping two
    // chunks must not decrypt
    let key = keygen();
    let data = sample_data(64);
    let mut cts = encrypt_chunks(&key, &data, 2, 32).unwrap();
    cts.swap(0, 1);
    assert_eq!(decrypt_chunks(&key, &cts), Err(CryptoError::Tampered));
}

#[test]
fn wrong_key_aborts_decryption() {
    let key = keygen();
    let other = keygen();
    let data = sample_data(64);
    let cts = encrypt_chunks(&key, &data, 2, 32).unwrap();
    assert_eq!(decrypt_chunks(&other, &cts), Err(CryptoError::Tampered));
}
