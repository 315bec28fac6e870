use ruperf::error::StatError;
use ruperf::handshake::{
    accept_go, accept_start_time, decode_start_time, encode_start_time, GO_BYTE, GO_LEN,
    START_TIME_LEN,
};

#[test]
fn handshake_lengths_are_one_and_sixteen() {
    assert_eq!(GO_LEN, 1);
    assert_eq!(GO_BYTE, 1);
    assert_eq!(START_TIME_LEN, 16);
}

#[test]
fn start_time_is_written_least_significant_byte_first() {
    assert_eq!(encode_start_time(0), [0u8; 16]);
    assert_eq!(encode_start_time(1), [1, 0, 0, 0, 0, 0, 0, 0, 0, 0, 0, 0, 0, 0, 0, 0]);
    assert_eq!(encode_start_time(258), [2, 1, 0, 0, 0, 0, 0, 0, 0, 0, 0, 0, 0, 0, 0, 0]);
    assert_eq!(
        encode_start_time(0x0102030405060708090a0b0c0d0e0f10),
        [0x10, 0x0f, 0x0e, 0x0d, 0x0c, 0x0b, 0x0a, 0x09, 0x08, 0x07, 0x06, 0x05, 0x04, 0x03, 0x02, 0x01]
    );
    assert_eq!(encode_start_time(u128::MAX), [0xff; 16]);
}

#[test]
fn start_time_bytes_are_those_of_the_standard_encoding() {
    for nanos in [0u128, 1, 255, 256, 1_000_000_007, u64::MAX as u128, u128::MAX - 1] {
        assert_eq!(encode_start_time(nanos), nanos.to_le_bytes());
        assert_eq!(decode_start_time(&nanos.to_le_bytes()), nanos);
    }
}

#[test]
fn start_time_is_read_least_significant_byte_first() {
    assert_eq!(decode_start_time(&[0u8; 16]), 0);
    assert_eq!(decode_start_time(&[2, 1, 0, 0, 0, 0, 0, 0, 0, 0, 0, 0, 0, 0, 0, 0]), 258);
    assert_eq!(decode_start_time(&[0, 0, 0, 0, 0, 0, 0, 0, 0, 0, 0, 0, 0, 0, 0, 0x80]), 1u128 << 127);
    assert_eq!(decode_start_time(&[0xff; 16]), u128::MAX);
}

#[test]
fn start_time_survives_the_pipe() {
    let mut nanos: u128 = 1;
    for _ in 0..128 {
        assert_eq!(decode_start_time(&encode_start_time(nanos)), nanos);
        assert_eq!(decode_start_time(&encode_start_time(nanos - 1)), nanos - 1);
        nanos = nanos.wrapping_mul(2).max(1);
    }
    assert_eq!(decode_start_time(&encode_start_time(123_456_789_012_345)), 123_456_789_012_345);
}

#[test]
fn go_of_one_byte_is_accepted() {
    assert_eq!(accept_go(1), Ok(()));
}

#[test]
fn go_of_any_other_length_is_fatal() {
    for nread in [0usize, 2, 3, 16, usize::MAX] {
        assert_eq!(accept_go(nread), Err(StatError::Handshake { expected: 1, got: nread }));
    }
}

#[test]
fn start_time_of_sixteen_bytes_is_accepted() {
    let bytes = encode_start_time(987_654_321);
    assert_eq!(accept_start_time(16, &bytes), Ok(987_654_321));
}

#[test]
fn start_time_of_any_other_length_is_fatal() {
    let bytes = encode_start_time(987_654_321);
    for nread in [0usize, 1, 8, 15, 17, 32, usize::MAX] {
        assert_eq!(
            accept_start_time(nread, &bytes),
            Err(StatError::Handshake { expected: 16, got: nread })
        );
    }
}
