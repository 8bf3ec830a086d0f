use particle_life::add;
use particle_life::encoding::{
    absolute, encode_whole, is_at_least, is_in_range, is_less, is_zero, negate, INFINITY, ONE,
    SIGN_BIT, TENTH, ZERO,
};
use particle_life::universe::{HUNDRED, HUNDRED_FORTY, RECORD};

fn samples() -> Vec<f32> {
    vec![
        0.0,
        -0.0,
        1.0,
        -1.0,
        0.1,
        -0.1,
        0.5,
        1.0e-45,
        99.99999,
        140.00002,
        4294967040.0,
        4294967296.0,
        1.0e-40,
        -1.0e-40,
        f32::MIN_POSITIVE,
        3200.0,
        56.568542,
        100.0,
        140.0,
        -40.0,
        16777216.0,
        f32::MAX,
        f32::MIN,
        f32::INFINITY,
        f32::NEG_INFINITY,
        f32::NAN,
        -f32::NAN,
    ]
}

#[test]
fn add_sums() {
    assert_eq!(add(2, 3), 5);
    assert_eq!(add(-7, 4), -3);
    assert_eq!(add(i32::MAX, -1), i32::MAX - 1);
}

#[test]
fn constants_encode_their_numbers() {
    assert_eq!(ZERO, 0.0f32.to_bits());
    assert_eq!(ONE, 1.0f32.to_bits());
    assert_eq!(TENTH, 0.1f32.to_bits());
    assert_eq!(INFINITY, f32::INFINITY.to_bits());
    assert_eq!(HUNDRED, 100.0f32.to_bits());
    assert_eq!(HUNDRED_FORTY, 140.0f32.to_bits());
    assert_eq!(SIGN_BIT, (-0.0f32).to_bits());
    assert_eq!(RECORD, 5);
}

#[test]
fn every_colour_encodes_as_its_number() {
    for k in 0..=255u8 {
        assert_eq!(encode_whole(k), (k as f32).to_bits(), "colour {}", k);
        assert_eq!(f32::from_bits(encode_whole(k)) as u8, k);
    }
}

#[test]
fn whole_numbers_encode_exactly() {
    assert_eq!(encode_whole(0), 0x0000_0000);
    assert_eq!(encode_whole(1), 0x3F80_0000);
    assert_eq!(encode_whole(2), 0x4000_0000);
    assert_eq!(encode_whole(3), 0x4040_0000);
    assert_eq!(encode_whole(255), 0x437F_0000);
}

#[test]
fn negate_flips_the_sign_only() {
    for x in samples() {
        let flipped = negate(x.to_bits());
        assert_eq!(flipped, (-x).to_bits());
        assert_eq!(negate(flipped), x.to_bits());
        assert_ne!(flipped, x.to_bits());
    }
}

#[test]
fn absolute_strips_the_sign() {
    for x in samples() {
        assert_eq!(absolute(x.to_bits()), x.abs().to_bits());
    }
}

#[test]
fn is_zero_knows_both_zeros() {
    for x in samples() {
        assert_eq!(is_zero(x.to_bits()), x == 0.0, "{}", x);
    }
    assert!(is_zero(0x8000_0000));
    assert!(!is_zero(1));
}

#[test]
fn is_less_orders_as_the_numbers_do() {
    for a in samples() {
        for b in samples() {
            assert_eq!(is_less(a.to_bits(), b.to_bits()), a < b, "{} < {}", a, b);
        }
    }
}

#[test]
fn is_at_least_orders_as_the_numbers_do() {
    for a in samples() {
        for b in samples() {
            assert_eq!(is_at_least(a.to_bits(), b.to_bits()), a >= b, "{} >= {}", a, b);
        }
    }
}

#[test]
fn nothing_compares_with_an_error_value() {
    let nan = f32::NAN.to_bits();
    assert!(!is_less(nan, ONE));
    assert!(!is_less(ONE, nan));
    assert!(!is_at_least(nan, nan));
    assert!(!is_less(ZERO, 0x8000_0000));
    assert!(is_at_least(ZERO, 0x8000_0000));
}

#[test]
fn range_test_agrees_with_the_numbers() {
    let limits = [0u32, 1, 2, 100, 140, 141, 3200, 16777216, 16777217, 4294967040, u32::MAX];
    for x in samples() {
        for n in limits {
            let expected = x >= 0.0 && (x as f64) < n as f64;
            assert_eq!(is_in_range(x.to_bits(), n), expected, "{} in [0, {})", x, n);
        }
    }
}

#[test]
fn range_ends_are_told_apart() {
    assert!(is_in_range(0.0f32.to_bits(), 1));
    assert!(is_in_range((-0.0f32).to_bits(), 1));
    assert!(!is_in_range(0.0f32.to_bits(), 0));
    assert!(is_in_range(99.99999f32.to_bits(), 100));
    assert!(!is_in_range(100.0f32.to_bits(), 100));
    assert!(is_in_range(100.0f32.to_bits(), 101));
    assert!(!is_in_range((-1.0e-45f32).to_bits(), 100));
    assert!(!is_in_range(f32::INFINITY.to_bits(), u32::MAX));
    assert!(!is_in_range(f32::NAN.to_bits(), u32::MAX));
    assert!(is_in_range(4294967040.0f32.to_bits(), u32::MAX));
    assert!(!is_in_range(4294967296.0f32.to_bits(), u32::MAX));
}

#[test]
fn whole_numbers_are_in_range_below_the_limit() {
    for k in 0..=255u8 {
        for n in [0u32, 1, 2, 3, 127, 128, 129, 254, 255, 256, 1000] {
            assert_eq!(is_in_range(encode_whole(k), n), (k as u32) < n, "{} in [0, {})", k, n);
        }
    }
}
