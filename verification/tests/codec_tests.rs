use nonce_store::codec::decode_nonce_bytes;
use nonce_store::codec::encode_nonce;
use nonce_store::error::StorageError;

#[test]
fn encode_is_big_endian_eight_bytes() {
    assert_eq!(encode_nonce(0), vec![0u8; 8]);
    assert_eq!(encode_nonce(42), vec![0, 0, 0, 0, 0, 0, 0, 42]);
    assert_eq!(encode_nonce(256), vec![0, 0, 0, 0, 0, 0, 1, 0]);
    assert_eq!(
        encode_nonce(0x0102_0304_0506_0708),
        vec![1, 2, 3, 4, 5, 6, 7, 8]
    );
    assert_eq!(encode_nonce(u64::MAX), vec![0xFF; 8]);
}

#[test]
fn decode_reads_exactly_eight_bytes_big_endian() {
    assert_eq!(decode_nonce_bytes(&vec![0, 0, 0, 0, 0, 0, 0, 42]), Ok(42));
    assert_eq!(decode_nonce_bytes(&vec![0u8; 8]), Ok(0));
    assert_eq!(decode_nonce_bytes(&vec![0xFF; 8]), Ok(u64::MAX));
    assert_eq!(
        decode_nonce_bytes(&vec![1, 2, 3, 4, 5, 6, 7, 8]),
        Ok(0x0102_0304_0506_0708)
    );
}

#[test]
fn decode_rejects_any_other_length() {
    assert_eq!(
        decode_nonce_bytes(&vec![]),
        Err(StorageError::DataCorruption)
    );
    assert_eq!(
        decode_nonce_bytes(&vec![1, 2, 3]),
        Err(StorageError::DataCorruption)
    );
    assert_eq!(
        decode_nonce_bytes(&vec![0; 7]),
        Err(StorageError::DataCorruption)
    );
    assert_eq!(
        decode_nonce_bytes(&vec![0; 9]),
        Err(StorageError::DataCorruption)
    );
}

#[test]
fn encode_then_decode_round_trips() {
    for n in [0u64, 1, 42, 255, 256, 65_535, 1 << 32, u64::MAX - 1, u64::MAX] {
        assert_eq!(decode_nonce_bytes(&encode_nonce(n)), Ok(n));
    }
}
