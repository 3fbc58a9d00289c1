use benchmark::codec::{decode, encode, CodecError};

#[test]
fn encode_is_big_endian() {
    assert_eq!(encode(0x0102_0304_0506_0708), [1, 2, 3, 4, 5, 6, 7, 8]);
    assert_eq!(encode(0), [0; 8]);
}

#[test]
fn decode_reads_big_endian() {
    assert_eq!(decode(&[1, 2, 3, 4, 5, 6, 7, 8]), Ok(0x0102_0304_0506_0708));
    assert_eq!(decode(&[0xff; 8]), Ok(u64::MAX));
}

#[test]
fn decode_of_four_bytes_is_insufficient() {
    assert_eq!(decode(&[0, 0, 0, 1]), Err(CodecError::InsufficientData));
    assert_eq!(decode(&[]), Err(CodecError::InsufficientData));
    assert_eq!(decode(&[1, 2, 3, 4, 5, 6, 7]), Err(CodecError::InsufficientData));
}

#[test]
fn decode_reads_only_the_first_eight_bytes() {
    assert_eq!(decode(&[0, 0, 0, 0, 0, 0, 0, 9, 7]), Ok(9));
}

#[test]
fn round_trip_of_seconds_since_epoch() {
    let secs: f64 = 1_700_000_000.123_456;
    let bits = secs.to_bits();
    assert_eq!(encode(bits), secs.to_be_bytes());
    let back = decode(&encode(bits)).unwrap();
    assert_eq!(f64::from_bits(back), secs);
    for x in [0u64, 1, 255, 256, u64::MAX, 0x8000_0000_0000_0000] {
        assert_eq!(decode(&encode(x)), Ok(x));
    }
}
