//! Scenarios for the wire format: exact encodings, every error, the accumulator's
//! outcomes and the maximum-size bound.

use postcard::accumulator::{find_zero, CobsAccumulator, FeedResult};
use postcard::de::{from_bytes_byte_vec, from_bytes_i128, from_bytes_string, take_len, take_u16, take_u32, take_u8};
use postcard::error::Error;
use postcard::etna::{bytes_equal, from_bytes_tuple_s, take_prefix, to_stdvec_tuple_s, TupleS};
use postcard::framing::{from_bytes_cobs_byte_vec, to_stdvec_cobs_byte_vec};
use postcard::heapless_vec::{to_stdvec_hvec, to_vec_hvec, to_vec_hvec_zeros};
use postcard::max_size::{max_size_heapless_byte_vec, varint_size};
use postcard::ser::{collect_str, to_slice_bytes, to_slice_i128, to_slice_str, to_stdvec_bytes};
use postcard::varint::{encode_varint, take_varint};
use postcard::zigzag::{de_zig_zag_i128, zig_zag_i128};

#[test]
fn varint_exact_encodings() {
    assert_eq!(encode_varint(0), vec![0]);
    assert_eq!(encode_varint(127), vec![127]);
    assert_eq!(encode_varint(128), vec![128, 1]);
    assert_eq!(encode_varint(300), vec![172, 2]);
    assert_eq!(encode_varint(16384), vec![128, 128, 1]);
    let mut max = vec![255u8; 18];
    max.push(3);
    assert_eq!(encode_varint(u128::MAX), max);
}

#[test]
fn varint_reads_back_at_position() {
    assert_eq!(take_varint(&[9, 172, 2, 7], 1, 10, 1), Ok((300, 3)));
    assert_eq!(take_u32(&[240, 162, 4], 0), Ok((70000, 3)));
    assert_eq!(take_u8(&[5, 6], 1), Ok((6, 2)));
    assert_eq!(take_u8(&[5], 1), Err(Error::DeserializeUnexpectedEnd));
}

#[test]
fn varint_u16_limits() {
    assert_eq!(take_u16(&[0xff, 0xff, 0x03], 0), Ok((65535, 3)));
    assert_eq!(take_u16(&[0x80, 0x80, 0x04], 0), Err(Error::DeserializeBadVarint));
    assert_eq!(take_u16(&[0x80, 0x80, 0x80, 0x01], 0), Err(Error::DeserializeBadVarint));
    assert_eq!(take_u16(&[0x80], 0), Err(Error::DeserializeUnexpectedEnd));
    // Non-minimal encodings are accepted.
    assert_eq!(take_u16(&[0x80, 0x00], 0), Ok((0, 2)));
}

#[test]
fn length_limits() {
    let mut max = vec![255u8; 9];
    max.push(1);
    assert_eq!(take_len(&max, 0), Ok((u64::MAX as usize, 10)));
    let mut over = vec![255u8; 9];
    over.push(2);
    assert_eq!(take_len(&over, 0), Err(Error::DeserializeBadVarint));
}

#[test]
fn zigzag_values() {
    assert_eq!(zig_zag_i128(0), 0);
    assert_eq!(zig_zag_i128(-1), 1);
    assert_eq!(zig_zag_i128(1), 2);
    assert_eq!(zig_zag_i128(-2), 3);
    assert_eq!(zig_zag_i128(i128::MAX), u128::MAX - 1);
    assert_eq!(zig_zag_i128(i128::MIN), u128::MAX);
    assert_eq!(de_zig_zag_i128(u128::MAX), i128::MIN);
    assert_eq!(de_zig_zag_i128(3), -2);
    for v in [-5i128, -1, 0, 1, 7, i128::MIN, i128::MAX] {
        assert_eq!(de_zig_zag_i128(zig_zag_i128(v)), v);
    }
}

#[test]
fn i128_exact_encoding_and_roundtrip() {
    let v = -19490127978232325886905073712831_i128;
    let mut buf = [0u8; 32];
    assert_eq!(to_slice_i128(v, &mut buf), Ok(15));
    assert_eq!(
        &buf[..15],
        &[253, 250, 245, 235, 247, 255, 255, 255, 255, 195, 255, 255, 255, 255, 122]
    );
    assert_eq!(from_bytes_i128(&buf[..15]), Ok(v));
    for v in [0i128, -1, 1, i128::MIN, i128::MAX, 1 << 100] {
        let mut buf = [0u8; 32];
        let n = to_slice_i128(v, &mut buf).unwrap();
        assert_eq!(from_bytes_i128(&buf[..n]), Ok(v));
    }
    // Bytes after the value are ignored.
    assert_eq!(from_bytes_i128(&[2, 9, 9]), Ok(1));
}

#[test]
fn i128_errors() {
    let mut small = [7u8; 1];
    assert_eq!(to_slice_i128(300, &mut small), Err(Error::SerializeBufferFull));
    assert_eq!(small, [7]);
    assert_eq!(from_bytes_i128(&[]), Err(Error::DeserializeUnexpectedEnd));
    assert_eq!(from_bytes_i128(&[0x80, 0x80]), Err(Error::DeserializeUnexpectedEnd));
    assert_eq!(from_bytes_i128(&[0xff; 19]), Err(Error::DeserializeBadVarint));
    let mut last4 = vec![0xffu8; 18];
    last4.push(4);
    assert_eq!(from_bytes_i128(&last4), Err(Error::DeserializeBadVarint));
}

#[test]
fn tuple_struct_exact_encoding() {
    let t = TupleS(1, 300, 70000);
    let bytes = to_stdvec_tuple_s(&t);
    assert_eq!(bytes, vec![1, 172, 2, 240, 162, 4]);
    assert_eq!(from_bytes_tuple_s(&bytes), Ok(TupleS(1, 300, 70000)));
    assert_eq!(from_bytes_tuple_s(&[1, 172]), Err(Error::DeserializeUnexpectedEnd));
    assert_eq!(from_bytes_tuple_s(&[1, 0xff, 0xff, 0x04, 0]), Err(Error::DeserializeBadVarint));
}

#[test]
fn byte_strings() {
    let mut buf = [0u8; 8];
    assert_eq!(to_slice_bytes(&[0xCA, 0xFE], &mut buf), Ok(3));
    assert_eq!(&buf[..3], &[2, 0xCA, 0xFE]);
    assert_eq!(to_slice_bytes(&[1, 2, 3, 4, 5, 6, 7, 8], &mut buf), Err(Error::SerializeBufferFull));
    assert_eq!(to_stdvec_bytes(&[]), vec![0]);
    assert_eq!(from_bytes_byte_vec(&[2, 0xCA, 0xFE, 9]), Ok(vec![0xCA, 0xFE]));
    assert_eq!(from_bytes_byte_vec(&[3, 1, 2]), Err(Error::DeserializeUnexpectedEnd));
}

#[test]
fn strings() {
    let mut buf = [0u8; 8];
    assert_eq!(to_slice_str("hé", &mut buf), Ok(4));
    assert_eq!(&buf[..4], &[3, b'h', 0xC3, 0xA9]);
    assert_eq!(from_bytes_string(&buf[..4]), Ok("hé".to_string()));
    let mut buf2 = [0u8; 8];
    assert_eq!(collect_str("abc", &mut buf2), Ok(4));
    assert_eq!(&buf2[..4], &[3, b'a', b'b', b'c']);
    assert_eq!(from_bytes_string(&[2, 0xC3, 0x28]), Err(Error::DeserializeBadUtf8));
    assert_eq!(from_bytes_string(&[2, b'h']), Err(Error::DeserializeUnexpectedEnd));
}

#[test]
fn cobs_frames() {
    assert_eq!(to_stdvec_cobs_byte_vec(&[0xCC; 3]), vec![5, 3, 0xCC, 0xCC, 0xCC, 0]);
    assert_eq!(to_stdvec_cobs_byte_vec(&[]), vec![1, 1, 0]);
    let mut frame = vec![5, 3, 0xCC, 0xCC, 0xCC, 0];
    assert_eq!(from_bytes_cobs_byte_vec(&mut frame, 6), Ok(vec![0xCC; 3]));
    let mut bad = vec![5, 1, 0];
    assert_eq!(from_bytes_cobs_byte_vec(&mut bad, 3), Err(Error::DeserializeBadEncoding));
    let mut short = vec![2, 5, 0];
    assert_eq!(from_bytes_cobs_byte_vec(&mut short, 3), Err(Error::DeserializeUnexpectedEnd));
}

#[test]
fn accumulator_whole_frame() {
    let mut acc: CobsAccumulator<16> = CobsAccumulator::new();
    assert!(matches!(acc.feed(&[]), FeedResult::Consumed));
    match acc.feed(&[5, 3, 0xCC, 0xCC, 0xCC, 0, 7, 7]) {
        FeedResult::Success { data, remaining } => {
            assert_eq!(data, vec![0xCC; 3]);
            assert_eq!(remaining, &[7, 7]);
        }
        _ => panic!("expected a decoded frame"),
    }
}

#[test]
fn accumulator_frame_in_chunks() {
    let mut acc: CobsAccumulator<16> = CobsAccumulator::new();
    assert!(matches!(acc.feed(&[5, 3]), FeedResult::Consumed));
    match acc.feed(&[0xCC, 0xCC, 0xCC, 0]) {
        FeedResult::Success { data, remaining } => {
            assert_eq!(data, vec![0xCC; 3]);
            assert!(remaining.is_empty());
        }
        _ => panic!("expected a decoded frame"),
    }
    // The accumulator is empty again: the next frame decodes on its own.
    match acc.feed(&[1, 1, 0]) {
        FeedResult::Success { data, .. } => assert!(data.is_empty()),
        _ => panic!("expected a decoded frame"),
    }
}

#[test]
fn accumulator_overfull() {
    let mut acc: CobsAccumulator<4> = CobsAccumulator::new();
    match acc.feed(&[5, 3, 0xCC, 0xCC, 0xCC, 0, 9]) {
        FeedResult::OverFull(rest) => assert_eq!(rest, &[9]),
        _ => panic!("expected an overfull frame"),
    }
    let mut acc2: CobsAccumulator<4> = CobsAccumulator::new();
    match acc2.feed(&[1, 2, 3, 4, 5, 6]) {
        FeedResult::OverFull(rest) => assert_eq!(rest, &[5, 6]),
        _ => panic!("expected an overfull chunk"),
    }
    // A frame one byte longer than the buffer.
    let frame = to_stdvec_cobs_byte_vec(&[0xCC; 9]);
    assert_eq!(frame.len(), 12);
    let mut acc3: CobsAccumulator<11> = CobsAccumulator::new();
    match acc3.feed(&frame) {
        FeedResult::OverFull(rest) => assert!(rest.is_empty()),
        _ => panic!("expected an overfull frame"),
    }
}

#[test]
fn accumulator_deser_error() {
    let mut acc: CobsAccumulator<8> = CobsAccumulator::new();
    match acc.feed(&[5, 1, 0, 4]) {
        FeedResult::DeserError(rest) => assert_eq!(rest, &[4]),
        _ => panic!("expected a decoding error"),
    }
    match acc.feed(&[2, 5, 0]) {
        FeedResult::DeserError(rest) => assert!(rest.is_empty()),
        _ => panic!("expected a decoding error"),
    }
}

#[test]
fn accumulator_fits_exactly() {
    let frame = to_stdvec_cobs_byte_vec(&[0xCC; 9]);
    let mut acc: CobsAccumulator<12> = CobsAccumulator::new();
    match acc.feed(&frame) {
        FeedResult::Success { data, remaining } => {
            assert_eq!(data, vec![0xCC; 9]);
            assert!(remaining.is_empty());
        }
        _ => panic!("expected a decoded frame"),
    }
}

#[test]
fn zero_search() {
    assert_eq!(find_zero(&[1, 0, 0]), Some(1));
    assert_eq!(find_zero(&[1, 2]), None);
    assert_eq!(find_zero(&[]), None);
}

#[test]
fn varint_size_values() {
    assert_eq!(varint_size(0), 1);
    assert_eq!(varint_size(1), 1);
    assert_eq!(varint_size(127), 1);
    assert_eq!(varint_size(128), 2);
    assert_eq!(varint_size(16383), 2);
    assert_eq!(varint_size(16384), 3);
    assert_eq!(varint_size(usize::MAX), 10);
    for n in [0usize, 1, 63, 64, 127, 128, 300, 16383, 16384, 1 << 40] {
        assert_eq!(varint_size(n), encode_varint(n as u128).len());
    }
}

#[test]
fn max_size_values() {
    assert_eq!(max_size_heapless_byte_vec(0), 1);
    assert_eq!(max_size_heapless_byte_vec(127), 128);
    assert_eq!(max_size_heapless_byte_vec(128), 130);
    assert_eq!(max_size_heapless_byte_vec(16384), 16387);
}

#[test]
fn heapless_serialization() {
    let mut v: heapless::Vec<u8, 16400> = heapless::Vec::new();
    v.push(1).unwrap();
    v.push(2).unwrap();
    let out = to_vec_hvec(&v).unwrap();
    assert_eq!(out.as_slice(), &[2, 1, 2]);
    assert_eq!(to_stdvec_hvec(&v), vec![2, 1, 2]);
    let mut full: heapless::Vec<u8, 16400> = heapless::Vec::new();
    for _ in 0..16400 {
        full.push(0).unwrap();
    }
    assert_eq!(to_vec_hvec(&full).unwrap_err(), Error::SerializeBufferFull);
}

#[test]
fn helpers() {
    assert!(bytes_equal(&[1, 2], &[1, 2]));
    assert!(!bytes_equal(&[1, 2], &[1, 3]));
    assert!(!bytes_equal(&[1], &[1, 3]));
    assert_eq!(take_prefix(vec![7u8; 70], 64).len(), 64);
    assert_eq!(take_prefix(vec![7u8; 3], 64), vec![7, 7, 7]);
}

#[test]
fn heapless_zero_filled_serialization() {
    assert_eq!(to_vec_hvec_zeros(0).unwrap().as_slice(), &[0]);
    assert_eq!(to_vec_hvec_zeros(3).unwrap().as_slice(), &[3, 0, 0, 0]);
    let fits = to_vec_hvec_zeros(16397).unwrap();
    assert_eq!(fits.len(), 16400);
    assert_eq!(&fits[..3], &[0x8d, 0x80, 0x01]);
    assert_eq!(to_vec_hvec_zeros(16398).unwrap_err(), Error::SerializeBufferFull);
    assert_eq!(to_vec_hvec_zeros(usize::MAX).unwrap_err(), Error::SerializeBufferFull);
}
