use voop::ieee::{to_millionths, within, NINETY, ONE_EIGHTY};

/// A generator of test inputs.
fn next(seed: &mut u64) -> u64 {
    *seed = seed.wrapping_mul(6364136223846793005).wrapping_add(1442695040888963407);
    *seed ^ (*seed >> 29)
}

#[test]
fn scaling_agrees_with_the_machine() {
    let mut seed = 7u64;
    for _ in 0..200_000 {
        let unit = (next(&mut seed) >> 11) as f64 / (1u64 << 53) as f64;
        for scale in [180.0, 1.0, 1e-3, 1e-6, 1e-9] {
            let x = (unit * 2.0 - 1.0) * scale;
            assert_eq!(to_millionths(x.to_bits()), (x * 1_000_000.0) as i32, "{:e}", x);
        }
    }
}

#[test]
fn scaling_agrees_on_microdegrees() {
    for k in (-180_000_000i32..=180_000_000).step_by(1009) {
        let x = k as f64 / 1_000_000.0;
        assert_eq!(to_millionths(x.to_bits()), (x * 1_000_000.0) as i32);
    }
}

#[test]
fn scaling_agrees_at_the_edges() {
    for x in [
        0.0, -0.0, 180.0, -180.0, 90.0, 1e-6, 9.999999999999999e-7, f64::MIN_POSITIVE, 5e-324,
        0.1, 0.3, 57.70567, 11.940034, 64.0, 128.0, 127.99999999999999, 63.999999999999993,
    ] {
        assert_eq!(to_millionths(f64::to_bits(x)), (x * 1_000_000.0) as i32, "{:e}", x);
        assert_eq!(to_millionths(f64::to_bits(-x)), (-x * 1_000_000.0) as i32, "{:e}", x);
    }
}

#[test]
fn limits_are_numbers() {
    assert_eq!(f64::from_bits(NINETY), 90.0);
    assert_eq!(f64::from_bits(ONE_EIGHTY), 180.0);
    for x in [0.0, 89.9, 90.0, 90.1, -90.0, -90.1, f64::NAN, f64::INFINITY] {
        assert_eq!(within(f64::to_bits(x), NINETY), (-90.0..=90.0).contains(&x));
    }
}
