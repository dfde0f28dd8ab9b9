use lock_time_ordinals::sat_range::{attributed_sat, sat_range_start, SAT_RANGE_BYTES};

fn pack(start: u64, length: u64) -> [u8; 11] {
    let packed = u128::from(start) | (u128::from(length) << 51);
    let bytes = packed.to_le_bytes();
    let mut chunk = [0u8; 11];
    chunk.copy_from_slice(&bytes[0..11]);
    chunk
}

#[test]
fn start_of_a_packed_range() {
    assert_eq!(sat_range_start(&pack(0, 5_000_000_000)), 0);
    assert_eq!(sat_range_start(&pack(5_000_000_000, 5_000_000_000)), 5_000_000_000);
    assert_eq!(
        sat_range_start(&pack(1_923_456_789_012_345, 1)),
        1_923_456_789_012_345
    );
}

#[test]
fn start_is_the_little_endian_reading() {
    assert_eq!(sat_range_start(&[1, 0, 0, 0, 0, 0, 0, 0, 0, 0, 0]), 1);
    assert_eq!(sat_range_start(&[0, 1, 0, 0, 0, 0, 0, 0, 0, 0, 0]), 256);
    assert_eq!(
        sat_range_start(&[0x0d, 0x0c, 0x0b, 0x0a, 0x09, 0x08, 0x07, 0, 0, 0, 0]),
        0x0007_0809_0a0b_0c0d
    );
}

#[test]
fn start_keeps_51_bits() {
    assert_eq!(sat_range_start(&[0xff; 11]), 2_251_799_813_685_247);
    assert_eq!(sat_range_start(&[0, 0, 0, 0, 0, 0, 0x08, 0, 0, 0, 0]), 0);
    assert_eq!(
        sat_range_start(&[0, 0, 0, 0, 0, 0, 0x0f, 0xff, 0xff, 0xff, 0xff]),
        7 << 48
    );
}

#[test]
fn no_ranges_give_sat_0() {
    assert_eq!(attributed_sat(&None), 0);
    assert_eq!(attributed_sat(&Some(Vec::new())), 0);
}

#[test]
fn short_first_input_gives_sat_0() {
    let short = [0xffu8; 10];
    let full = pack(77, 1);
    assert_eq!(attributed_sat(&Some(vec![&short[..], &full[..]])), 0);
    let empty: [u8; 0] = [];
    assert_eq!(attributed_sat(&Some(vec![&empty[..]])), 0);
}

#[test]
fn sat_is_the_start_of_the_first_range_of_the_first_input() {
    let mut first_input = Vec::new();
    first_input.extend_from_slice(&pack(4_321, 10));
    first_input.extend_from_slice(&pack(9_999, 10));
    let second_input = pack(55, 1);
    assert_eq!(first_input.len(), 2 * SAT_RANGE_BYTES);
    assert_eq!(
        attributed_sat(&Some(vec![&first_input[..], &second_input[..]])),
        4_321
    );
}
