use payment_gateway::codec::{
    decode_bytes, decode_u128, decode_u32, decode_u64, encode_bytes, encode_u128, encode_u32,
    encode_u64, CodecError,
};

#[test]
fn encode_u32_is_compact_hex() {
    assert_eq!(encode_u32(0x64), b"0x64".to_vec());
    assert_eq!(encode_u32(1), b"0x1".to_vec());
    assert_eq!(encode_u32(0xdeadbeef), b"0xdeadbeef".to_vec());
}

#[test]
fn encode_zero_is_single_digit() {
    assert_eq!(encode_u32(0), b"0x0".to_vec());
    assert_eq!(encode_u64(0), b"0x0".to_vec());
    assert_eq!(encode_u128(0), b"0x0".to_vec());
}

#[test]
fn encode_u64_max() {
    assert_eq!(encode_u64(u64::MAX), b"0xffffffffffffffff".to_vec());
}

#[test]
fn encode_u128_max() {
    assert_eq!(
        encode_u128(u128::MAX),
        b"0xffffffffffffffffffffffffffffffff".to_vec()
    );
}

#[test]
fn uint_round_trips() {
    for v in [0u32, 1, 9, 10, 15, 16, 255, 256, 0x64, u32::MAX] {
        assert_eq!(decode_u32(&encode_u32(v)), Ok(v));
    }
    for v in [0u64, 1, 0xffff_ffff, 0x1_0000_0000, u64::MAX] {
        assert_eq!(decode_u64(&encode_u64(v)), Ok(v));
    }
    for v in [0u128, 5, u64::MAX as u128 + 1, u128::MAX] {
        assert_eq!(decode_u128(&encode_u128(v)), Ok(v));
    }
}

#[test]
fn decode_accepts_uppercase_and_leading_zeros() {
    assert_eq!(decode_u32(b"0xAB"), Ok(171));
    assert_eq!(decode_u32(b"0xAb"), Ok(171));
    assert_eq!(decode_u32(b"0x00ff"), Ok(255));
    assert_eq!(decode_u64(b"0x0000000000000000000000000001"), Ok(1));
}

#[test]
fn decode_uint_rejects_malformed() {
    assert_eq!(decode_u32(b"64"), Err(CodecError::MalformedEncoding));
    assert_eq!(decode_u32(b""), Err(CodecError::MalformedEncoding));
    assert_eq!(decode_u32(b"0x"), Err(CodecError::MalformedEncoding));
    assert_eq!(decode_u32(b"x64"), Err(CodecError::MalformedEncoding));
    assert_eq!(decode_u32(b"0xg1"), Err(CodecError::MalformedEncoding));
    assert_eq!(decode_u32(b"0x 1"), Err(CodecError::MalformedEncoding));
    assert_eq!(decode_u64(b"0X64"), Err(CodecError::MalformedEncoding));
}

#[test]
fn decode_uint_rejects_out_of_range() {
    assert_eq!(decode_u32(b"0x100000000"), Err(CodecError::MalformedEncoding));
    assert_eq!(
        decode_u64(b"0x10000000000000000"),
        Err(CodecError::MalformedEncoding)
    );
    assert_eq!(
        decode_u128(b"0x100000000000000000000000000000000"),
        Err(CodecError::MalformedEncoding)
    );
    // a value in range is not rejected even under leading zeros
    assert_eq!(decode_u32(b"0x00000000ffffffff"), Ok(u32::MAX));
}

#[test]
fn encode_bytes_empty_is_prefix_alone() {
    assert_eq!(encode_bytes(&[]), b"0x".to_vec());
    assert_eq!(decode_bytes(b"0x"), Ok(vec![]));
}

#[test]
fn encode_bytes_two_digits_per_byte() {
    assert_eq!(encode_bytes(&[0x01, 0x02, 0x03, 0x04]), b"0x01020304".to_vec());
    assert_eq!(encode_bytes(&[0x00, 0xff]), b"0x00ff".to_vec());
}

#[test]
fn bytes_round_trips() {
    for b in [
        vec![],
        vec![0u8],
        vec![0x00, 0x01, 0xfe, 0xff],
        (0u8..=255).collect::<Vec<u8>>(),
    ] {
        assert_eq!(decode_bytes(&encode_bytes(&b)), Ok(b));
    }
}

#[test]
fn decode_bytes_rejects_malformed() {
    assert_eq!(decode_bytes(b"0x123"), Err(CodecError::MalformedEncoding));
    assert_eq!(decode_bytes(b"01"), Err(CodecError::MalformedEncoding));
    assert_eq!(decode_bytes(b""), Err(CodecError::MalformedEncoding));
    assert_eq!(decode_bytes(b"0xzz"), Err(CodecError::MalformedEncoding));
}

#[test]
fn decode_bytes_accepts_uppercase() {
    assert_eq!(decode_bytes(b"0xAB"), Ok(vec![0xab]));
}
