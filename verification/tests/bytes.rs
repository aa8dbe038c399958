use lines_are_rusty::bytes::{decode_i32, decode_real, encode_i32};
use lines_are_rusty::Real;

#[test]
fn decodes_little_endian_i32() {
    assert_eq!(decode_i32(&[1, 0, 0, 0], 0), Some(1));
    assert_eq!(decode_i32(&[0x78, 0x56, 0x34, 0x12], 0), Some(0x1234_5678));
    assert_eq!(decode_i32(&[0xff, 0xff, 0xff, 0xff], 0), Some(-1));
    assert_eq!(decode_i32(&[0x00, 0x00, 0x00, 0x80], 0), Some(i32::MIN));
    assert_eq!(decode_i32(&[0xff, 0xff, 0xff, 0x7f], 0), Some(i32::MAX));
    assert_eq!(decode_i32(&[0xc0, 0xbd, 0xf0, 0xff], 0), Some(-1_000_000));
}

#[test]
fn decodes_at_a_position() {
    let data = [9, 9, 2, 0, 0, 0, 7];
    assert_eq!(decode_i32(&data, 2), Some(2));
    assert_eq!(decode_i32(&data, 3), Some(0x0700_0000));
}

#[test]
fn fewer_than_four_bytes_decode_to_nothing() {
    assert_eq!(decode_i32(&[], 0), None);
    assert_eq!(decode_i32(&[1, 2, 3], 0), None);
    assert_eq!(decode_i32(&[1, 2, 3, 4], 1), None);
    assert_eq!(decode_i32(&[1, 2, 3, 4], 4), None);
    assert_eq!(decode_i32(&[1, 2, 3, 4], usize::MAX), None);
    assert_eq!(decode_real(&[1, 2, 3], 0), None);
    assert_eq!(decode_real(&[1, 2, 3, 4], 2), None);
}

#[test]
fn encodes_little_endian_i32() {
    assert_eq!(encode_i32(1), vec![1, 0, 0, 0]);
    assert_eq!(encode_i32(0x1234_5678), vec![0x78, 0x56, 0x34, 0x12]);
    assert_eq!(encode_i32(-1), vec![0xff, 0xff, 0xff, 0xff]);
    assert_eq!(encode_i32(i32::MIN), vec![0, 0, 0, 0x80]);
    assert_eq!(encode_i32(i32::MAX), vec![0xff, 0xff, 0xff, 0x7f]);
    assert_eq!(encode_i32(-1_000_000), (-1_000_000i32).to_le_bytes().to_vec());
}

#[test]
fn decoding_then_encoding_gives_the_bytes_back() {
    let samples: [[u8; 4]; 6] = [
        [0, 0, 0, 0],
        [1, 2, 3, 4],
        [0xff, 0xff, 0xff, 0xff],
        [0x00, 0x00, 0x00, 0x80],
        [0xde, 0xad, 0xbe, 0xef],
        [0x7f, 0x80, 0x81, 0x7f],
    ];
    for bytes in samples {
        let n = decode_i32(&bytes, 0).unwrap();
        assert_eq!(n, i32::from_le_bytes(bytes));
        assert_eq!(encode_i32(n), bytes.to_vec());
    }
}

#[test]
fn encoding_then_decoding_gives_the_number_back() {
    for n in [0, 1, -1, 21, 1404, -1872, i32::MAX, i32::MIN] {
        assert_eq!(decode_i32(&encode_i32(n), 0), Some(n));
    }
}

#[test]
fn decodes_single_precision_bits() {
    let one = 1.0f32.to_le_bytes();
    assert_eq!(decode_real(&one, 0), Some(Real { bits: 0x3f80_0000 }));
    let r = decode_real(&(-2.5f32).to_le_bytes(), 0).unwrap();
    assert_eq!(f32::from_bits(r.to_bits()), -2.5);
    let r = decode_real(&[0, 0, 0xc0, 0x7f], 0).unwrap();
    assert!(f32::from_bits(r.bits).is_nan());
    assert_eq!(Real::from_bits(7).to_bits(), 7);
}
