//! Factorials in a 64-bit accumulator.

use rpn_calc::factorial::{factorial_pattern, wrapping_factorial};

#[test]
fn factorial_of_zero_and_one_is_one() {
    assert_eq!(wrapping_factorial(0), 1);
    assert_eq!(wrapping_factorial(1), 1);
}

#[test]
fn factorials_up_to_twenty_are_exact() {
    let expected: [u64; 21] = [
        1,
        1,
        2,
        6,
        24,
        120,
        720,
        5040,
        40320,
        362880,
        3628800,
        39916800,
        479001600,
        6227020800,
        87178291200,
        1307674368000,
        20922789888000,
        355687428096000,
        6402373705728000,
        121645100408832000,
        2432902008176640000,
    ];
    for n in 0..=20u64 {
        assert_eq!(wrapping_factorial(n), expected[n as usize]);
    }
}

#[test]
fn factorial_wraps_from_twenty_one_on() {
    // 21! = 51090942171709440000 = 2 * 2^64 + 14197454024290336768
    assert_eq!(wrapping_factorial(21), 14197454024290336768);
    assert_eq!(wrapping_factorial(22), 17196083355034583040);
    assert_eq!(wrapping_factorial(25), 7034535277573963776);
}

#[test]
fn factorial_agrees_with_repeated_wrapping_multiplication() {
    let mut product: u64 = 1;
    for n in 1..=200u64 {
        product = product.wrapping_mul(n);
        assert_eq!(wrapping_factorial(n), product);
    }
}

#[test]
fn factorial_is_zero_from_sixty_six_on() {
    assert_ne!(wrapping_factorial(65), 0);
    assert_eq!(wrapping_factorial(65), 9223372036854775808);
    assert_eq!(wrapping_factorial(66), 0);
    assert_eq!(wrapping_factorial(1000), 0);
    assert_eq!(wrapping_factorial(u64::MAX), 0);
}

/// The factorial of a double as the machine's own arithmetic gives it.
fn by_the_machine(x: f64) -> f64 {
    let n = x.abs().round() as u64;
    let mut product: u64 = 1;
    for i in 1..=n.min(100) {
        product = product.wrapping_mul(i);
    }
    product as f64
}

#[test]
fn factorial_of_a_double_agrees_with_the_machine() {
    let mut inputs: Vec<f64> = vec![
        0.0,
        -0.0,
        0.4,
        0.5,
        1.0,
        1.5,
        2.5,
        -2.5,
        4.4,
        4.5,
        -5.0,
        20.0,
        20.49,
        20.5,
        21.0,
        25.0,
        64.9,
        65.0,
        65.5,
        66.0,
        1e10,
        1e300,
        f64::MAX,
        f64::MIN_POSITIVE,
        f64::INFINITY,
        f64::NEG_INFINITY,
        f64::NAN,
    ];
    for n in 0..=70 {
        inputs.push(n as f64);
        inputs.push(-(n as f64));
        inputs.push(n as f64 + 0.25);
        inputs.push(n as f64 + 0.75);
    }
    for x in inputs {
        let pattern = factorial_pattern(x.to_bits());
        assert_eq!(pattern, by_the_machine(x).to_bits(), "{x}");
    }
}

#[test]
fn factorial_of_a_double_for_given_numbers() {
    let cases: [(f64, f64); 10] = [
        (0.0, 1.0),
        (1.0, 1.0),
        (5.0, 120.0),
        (-5.0, 120.0),
        (3.5, 24.0),
        (3.4, 6.0),
        (10.0, 3628800.0),
        (20.0, 2432902008176640000.0),
        (21.0, 14197454024290336768.0),
        (66.0, 0.0),
    ];
    for (x, expected) in cases {
        assert_eq!(f64::from_bits(factorial_pattern(x.to_bits())), expected, "{x}");
    }
    assert_eq!(f64::from_bits(factorial_pattern(f64::NAN.to_bits())), 1.0);
    assert_eq!(f64::from_bits(factorial_pattern(f64::INFINITY.to_bits())), 0.0);
}
