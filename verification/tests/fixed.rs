use voop::fixed::{push_degrees, push_double, MOST_DIGITS};

fn degrees(microdeg: i32) -> String {
    let mut text = String::from(">");
    push_degrees(&mut text, microdeg);
    text
}

fn double(x: f64) -> Option<String> {
    let mut text = String::from(">");
    if push_double(&mut text, x.to_bits()) {
        Some(text)
    } else {
        assert_eq!(text, ">");
        None
    }
}

#[test]
fn degrees_are_written_like_the_doubles_they_are() {
    let check = |k: i32| {
        assert_eq!(degrees(k), format!(">{:.2}", k as f64 / 1_000_000.0), "{}", k);
    };
    // Every tie between two hundredths up to 180 degrees.
    let mut k = 5_000;
    while k <= 180_000_000 {
        check(k);
        check(-k);
        check(k - 1);
        check(k + 1);
        k += 10_000;
    }
    for k in [0, 1, -1, 99, 125_000, 375_000, i32::MIN, i32::MAX] {
        check(k);
    }
    assert_eq!(degrees(125_000), ">0.12");
    assert_eq!(degrees(-1), ">-0.00");
    assert_eq!(degrees(57_705_670), ">57.71");
}

/// A generator of test inputs.
fn next(seed: &mut u64) -> u64 {
    *seed = seed.wrapping_mul(6364136223846793005).wrapping_add(1442695040888963407);
    *seed ^ (*seed >> 29)
}

#[test]
fn doubles_are_written_with_four_decimals() {
    let mut seed = 11u64;
    for _ in 0..100_000 {
        let bits = next(&mut seed);
        // Any bits at all, and bits near the size of a coordinate.
        for x in [
            f64::from_bits(bits),
            f64::from_bits(bits & 0x800F_FFFF_FFFF_FFFF | (960 + bits % 200) << 52),
        ] {
            let expected = format!(">{:.4}", x);
            match double(x) {
                Some(text) => assert_eq!(text, expected),
                None => assert!(expected.len() > MOST_DIGITS + 1, "{}", expected),
            }
        }
    }
}

#[test]
fn ties_go_to_the_even_digit() {
    for x in [0.03125, 0.09375, 1.00625, -2.15625, 0.00005, 0.00015, 1e-300, 5e-324, 0.0, -0.0] {
        assert_eq!(double(x).unwrap(), format!(">{:.4}", x));
    }
    assert_eq!(double(0.03125).unwrap(), ">0.0312");
    assert_eq!(double(0.09375).unwrap(), ">0.0938");
    assert_eq!(double(-0.0).unwrap(), ">-0.0000");
}

#[test]
fn what_is_no_finite_number_is_named() {
    assert_eq!(double(f64::NAN).unwrap(), ">NaN");
    assert_eq!(double(-f64::NAN).unwrap(), ">NaN");
    assert_eq!(double(f64::INFINITY).unwrap(), ">inf");
    assert_eq!(double(f64::NEG_INFINITY).unwrap(), ">-inf");
    assert_eq!(double(f64::MAX), None);
    assert_eq!(double(1e33).unwrap(), format!(">{:.4}", 1e33));
}
