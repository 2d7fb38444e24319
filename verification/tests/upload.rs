use precrypt_server::errors::InputError;
use precrypt_server::upload::{admit_file, fresh_artifact_id, is_artifact_id};

#[test]
fn one_file_is_accepted() {
    assert!(admit_file(0).is_ok());
}

#[test]
fn a_second_file_is_a_hard_failure() {
    assert_eq!(admit_file(1), Err(InputError::MultipleFiles));
    assert_eq!(admit_file(2), Err(InputError::MultipleFiles));
}

#[test]
fn artifact_ids_are_32_hex_characters() {
    let id = fresh_artifact_id();
    assert_eq!(id.len(), 32);
    assert!(is_artifact_id(&id));
    let as_text = String::from_utf8(id).unwrap();
    assert!(as_text.chars().all(|c| c.is_ascii_hexdigit() && !c.is_ascii_uppercase()));
}

#[test]
fn fresh_ids_differ() {
    assert_ne!(fresh_artifact_id(), fresh_artifact_id());
}

#[test]
fn id_shape_is_checked() {
    assert!(!is_artifact_id(&b"short".to_vec()));
    assert!(!is_artifact_id(&b"ABCDEF0123456789ABCDEF0123456789".to_vec()));
    assert!(is_artifact_id(&b"abcdef0123456789abcdef0123456789".to_vec()));
    assert!(!is_artifact_id(&b"gbcdef0123456789abcdef0123456789".to_vec()));
}
