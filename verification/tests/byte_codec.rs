use hi_observer::byte_codec::{
    get_i64, get_u32, get_u64, i64_from_bit_pattern, i64_to_bits, push_u32_be, push_u64_be,
    put_i64, put_u32, put_u64, u32_to_le_bytes, u64_to_le_bytes,
};

#[test]
fn put_then_get_gives_the_value_back() {
    let mut buffer = [0xaa_u8; 32];
    put_u32(&mut buffer, 3, 0x0102_0304);
    assert_eq!(&buffer[3..7], &[4, 3, 2, 1]);
    assert_eq!(get_u32(&buffer, 3), 0x0102_0304);
    assert_eq!(buffer[2], 0xaa);
    assert_eq!(buffer[7], 0xaa);

    put_u64(&mut buffer, 10, 0x1122_3344_5566_7788);
    assert_eq!(get_u64(&buffer, 10), 0x1122_3344_5566_7788);
    assert_eq!(&buffer[10..18], &0x1122_3344_5566_7788_u64.to_le_bytes());

    put_i64(&mut buffer, 20, -2);
    assert_eq!(get_i64(&buffer, 20), -2);
    assert_eq!(&buffer[20..28], &(-2_i64).to_le_bytes());
    put_i64(&mut buffer, 20, i64::MIN);
    assert_eq!(get_i64(&buffer, 20), i64::MIN);
    assert_eq!(buffer[28], 0xaa);
}

#[test]
fn encoders_match_std() {
    assert_eq!(u32_to_le_bytes(0xdead_beef), 0xdead_beef_u32.to_le_bytes().to_vec());
    assert_eq!(u64_to_le_bytes(u64::MAX - 1), (u64::MAX - 1).to_le_bytes().to_vec());
    let mut out = Vec::new();
    push_u32_be(&mut out, 2.5_f32.to_bits());
    push_u64_be(&mut out, 1_420_405_751.0_f64.to_bits());
    assert_eq!(&out[0..4], &2.5_f32.to_be_bytes());
    assert_eq!(&out[4..12], &1_420_405_751.0_f64.to_be_bytes());
    assert_eq!(i64_to_bits(-1), u64::MAX);
    assert_eq!(i64_to_bits(i64::MIN), 1 << 63);
    assert_eq!(i64_from_bit_pattern(u64::MAX), -1);
    assert_eq!(i64_from_bit_pattern(1 << 63), i64::MIN);
    assert_eq!(i64_from_bit_pattern(5), 5);
}

#[test]
fn writing_back_what_was_read_changes_nothing() {
    let mut buffer: Vec<u8> = (0..24_u8).map(|b| b.wrapping_mul(37)).collect();
    let before = buffer.clone();
    let small = get_u32(&buffer, 5);
    put_u32(&mut buffer, 5, small);
    let large = get_u64(&buffer, 13);
    put_u64(&mut buffer, 13, large);
    assert_eq!(buffer, before);
}
