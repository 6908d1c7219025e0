use tile_pod::float_bits::{single_bits_from_u32, EXACT_RANGE, ONE_BITS};

#[test]
fn cast_matches_hardware_small_values() {
    for x in 0u32..5000 {
        assert_eq!(single_bits_from_u32(x), (x as f32).to_bits(), "x = {x}");
    }
}

#[test]
fn cast_matches_hardware_near_powers_of_two() {
    for e in 0..32 {
        let p = 1u64 << e;
        for d in -3i64..4 {
            let v = p as i64 + d;
            if v >= 0 && v <= u32::MAX as i64 {
                let x = v as u32;
                assert_eq!(single_bits_from_u32(x), (x as f32).to_bits(), "x = {x}");
            }
        }
    }
}

#[test]
fn cast_matches_hardware_rounding_cases() {
    // Above 2^24 the conversion rounds; ties go to the even mantissa.
    let cases = [
        16_777_215u32,
        16_777_216,
        16_777_217,
        16_777_218,
        16_777_219,
        16_777_220,
        33_554_430,
        33_554_431,
        33_554_433,
        100_000_001,
        2_147_483_647,
        2_147_483_649,
        4_000_000_001,
        4_294_967_294,
        u32::MAX,
    ];
    for &x in cases.iter() {
        assert_eq!(single_bits_from_u32(x), (x as f32).to_bits(), "x = {x}");
    }
}

#[test]
fn cast_matches_hardware_scattered() {
    let mut x: u32 = 1;
    while x < u32::MAX / 3 {
        assert_eq!(single_bits_from_u32(x), (x as f32).to_bits(), "x = {x}");
        x = x.wrapping_mul(3).wrapping_add(7);
    }
}

#[test]
fn exact_range_is_two_to_the_24() {
    assert_eq!(EXACT_RANGE, 1u32 << 24);
    // Every integer in the exact range survives the round trip through
    // single precision.
    for x in (0u32..=EXACT_RANGE).step_by(997) {
        let bits = single_bits_from_u32(x);
        assert_eq!(f32::from_bits(bits) as u32, x);
    }
    let bits = single_bits_from_u32(EXACT_RANGE);
    assert_eq!(f32::from_bits(bits) as u32, EXACT_RANGE);
    // One past the range, exactness stops: 2^24 + 1 rounds to 2^24.
    let rounded = single_bits_from_u32(EXACT_RANGE + 1);
    assert_eq!(f32::from_bits(rounded) as u32, EXACT_RANGE);
}

#[test]
fn one_bits_is_single_precision_one() {
    assert_eq!(ONE_BITS, 1.0f32.to_bits());
    assert_eq!(single_bits_from_u32(1), ONE_BITS);
}
