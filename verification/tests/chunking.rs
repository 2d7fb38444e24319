use precrypt_server::chunking::{chunk_bounds, plan_chunks};
use precrypt_server::errors::CryptoError;

#[test]
fn plan_large_upload() {
    // a 120 MB file under ten workers and a 50,000,000-byte budget
    let plan = plan_chunks(120_000_000, 10, 50_000_000).unwrap();
    assert_eq!(plan.chunk_size, 5_000_000);
    assert_eq!(plan.chunk_count, 24);
    assert!(plan.chunk_count >= 3);
    assert!(plan.chunk_size <= 5_000_000);
    // per-worker buffering stays within budget / worker_count
    assert!(10 * plan.chunk_size <= 50_000_000);
}

#[test]
fn plan_is_deterministic() {
    let a = plan_chunks(123_456_789, 7, 10_000_000).unwrap();
    let b = plan_chunks(123_456_789, 7, 10_000_000).unwrap();
    assert_eq!(a.chunk_size, b.chunk_size);
    assert_eq!(a.chunk_count, b.chunk_count);
    assert_eq!(a.file_size, b.file_size);
    for i in 0..a.chunk_count {
        assert_eq!(chunk_bounds(&a, i), chunk_bounds(&b, i));
    }
}

#[test]
fn bounds_tile_the_file() {
    let plan = plan_chunks(100, 3, 21).unwrap();
    assert_eq!(plan.chunk_size, 7);
    assert_eq!(plan.chunk_count, 15);
    let mut expected_start = 0u64;
    for i in 0..plan.chunk_count {
        let (start, end) = chunk_bounds(&plan, i);
        assert_eq!(start, expected_start);
        assert!(start < end && end <= 100);
        expected_start = end;
    }
    assert_eq!(expected_start, 100);
}

#[test]
fn file_smaller_than_one_chunk() {
    let plan = plan_chunks(10, 4, 100).unwrap();
    assert_eq!(plan.chunk_size, 25);
    assert_eq!(plan.chunk_count, 1);
    assert_eq!(chunk_bounds(&plan, 0), (0, 10));
}

#[test]
fn zero_length_file_is_an_error() {
    assert_eq!(plan_chunks(0, 4, 100), Err(CryptoError::EmptyInput));
}

#[test]
fn impossible_configs_are_errors() {
    assert_eq!(plan_chunks(10, 0, 100), Err(CryptoError::BadConfig));
    assert_eq!(plan_chunks(10, 8, 4), Err(CryptoError::BadConfig));
}
