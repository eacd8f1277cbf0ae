use triton_rust::codec::{decode_u32s, decode_u64s, encode_u32s, encode_u64s};
use triton_rust::error::ShmError;

#[test]
fn encode_u32s_is_little_endian() {
    assert_eq!(encode_u32s(&[0x1122_3344, 1]), vec![0x44, 0x33, 0x22, 0x11, 1, 0, 0, 0]);
    assert_eq!(encode_u32s(&[2.0f32.to_bits()]), vec![0, 0, 0, 0x40]);
    assert_eq!(encode_u32s(&[]), Vec::<u8>::new());
}

#[test]
fn encode_u64s_is_little_endian() {
    assert_eq!(encode_u64s(&[0x0102_0304_0506_0708]), vec![8, 7, 6, 5, 4, 3, 2, 1]);
    assert_eq!(encode_u64s(&[1.0f64.to_bits()]), vec![0, 0, 0, 0, 0, 0, 0xf0, 0x3f]);
}

#[test]
fn decode_checks_alignment() {
    assert_eq!(decode_u32s(&[1, 2, 3]), Err(ShmError::AlignmentError));
    assert_eq!(decode_u64s(&[0; 12]), Err(ShmError::AlignmentError));
    assert_eq!(decode_u32s(&[]), Ok(vec![]));
    assert_eq!(decode_u32s(&[1, 0, 0, 0, 0, 0, 0x80, 0x3f]), Ok(vec![1, 1.0f32.to_bits()]));
    assert_eq!(decode_u64s(&[0, 0, 0, 0, 0, 0, 0, 0x80]), Ok(vec![1u64 << 63]));
}

#[test]
fn typed_round_trip_widths_four_and_eight() {
    for n in [0usize, 1, 1024] {
        let xs: Vec<u32> = (0..n as u32).map(|i| (i as f32 * 0.5).to_bits()).collect();
        let bytes = encode_u32s(&xs);
        assert_eq!(bytes.len(), 4 * n);
        let back = decode_u32s(&bytes).unwrap();
        assert_eq!(back, xs);
        assert_eq!(encode_u32s(&back), bytes);

        let ys: Vec<u64> = (0..n as u64).map(|i| (i as f64 - 3.25).to_bits()).collect();
        let bytes = encode_u64s(&ys);
        assert_eq!(bytes.len(), 8 * n);
        let back = decode_u64s(&bytes).unwrap();
        assert_eq!(back, ys);
        assert_eq!(encode_u64s(&back), bytes);
    }
}
