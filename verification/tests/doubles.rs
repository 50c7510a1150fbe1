//! Doubles as bit patterns, against the machine's own arithmetic.

use rpn_calc::double::{from_integer, magnitude, negate, rounded_magnitude, INFINITY_BITS, SIGN_BIT};

/// A stream of well mixed 64-bit values.
fn scramble(state: &mut u64) -> u64 {
    *state = state.wrapping_add(0x9E37_79B9_7F4A_7C15);
    let mut z = *state;
    z = (z ^ (z >> 30)).wrapping_mul(0xBF58_476D_1CE4_E5B9);
    z = (z ^ (z >> 27)).wrapping_mul(0x94D0_49BB_1331_11EB);
    z ^ (z >> 31)
}

/// Fraction fields at and around every place where rounding may turn.
fn fractions() -> Vec<u64> {
    let top = (1u64 << 52) - 1;
    let mut all = vec![0, 1, 2, top, top - 1];
    for bit in 0..52 {
        let one = 1u64 << bit;
        for value in [one, one - 1, one + 1, top - one, top - one + 1, one | (one >> 1), one | 1] {
            all.push(value & top);
        }
    }
    all
}

#[test]
fn constants_are_the_patterns_of_the_machine() {
    assert_eq!(SIGN_BIT, (-0.0f64).to_bits());
    assert_eq!(INFINITY_BITS, f64::INFINITY.to_bits());
}

#[test]
fn negate_and_magnitude_agree_with_the_machine() {
    let mut state = 1;
    for _ in 0..200_000 {
        let bits = scramble(&mut state);
        let x = f64::from_bits(bits);
        assert_eq!(negate(bits), (-x).to_bits());
        assert_eq!(magnitude(bits), x.abs().to_bits());
    }
    for x in [0.0, -0.0, 1.5, -1.5, f64::INFINITY, f64::NEG_INFINITY, f64::NAN, -f64::NAN] {
        assert_eq!(negate(x.to_bits()), (-x).to_bits());
        assert_eq!(magnitude(x.to_bits()), x.abs().to_bits());
    }
}

#[test]
fn rounded_magnitude_of_given_numbers() {
    let cases: [(f64, u64); 24] = [
        (0.0, 0),
        (-0.0, 0),
        (0.25, 0),
        (0.49999999999999994, 0),
        (0.5, 1),
        (-0.5, 1),
        (0.75, 1),
        (1.0, 1),
        (1.4999999999999998, 1),
        (1.5, 2),
        (2.5, 3),
        (-2.5, 3),
        (3.5, 4),
        (4.4, 4),
        (4.5, 5),
        (-5.0, 5),
        (4503599627370495.5, 4503599627370496),
        (4503599627370496.0, 4503599627370496),
        (9007199254740993.0, 9007199254740992),
        (9223372036854775808.0, 9223372036854775808),
        (18446744073709549568.0, 18446744073709549568),
        (18446744073709551616.0, u64::MAX),
        (1e300, u64::MAX),
        (5e-324, 0),
    ];
    for (x, expected) in cases {
        assert_eq!(rounded_magnitude(x.to_bits()), expected, "{x}");
    }
    assert_eq!(rounded_magnitude(f64::INFINITY.to_bits()), u64::MAX);
    assert_eq!(rounded_magnitude(f64::NEG_INFINITY.to_bits()), u64::MAX);
    assert_eq!(rounded_magnitude(f64::NAN.to_bits()), 0);
    assert_eq!(rounded_magnitude((-f64::NAN).to_bits()), 0);
    assert_eq!(rounded_magnitude(0x7FF0_0000_0000_0001), 0);
    assert_eq!(rounded_magnitude(0xFFFF_FFFF_FFFF_FFFF), 0);
}

#[test]
fn rounded_magnitude_agrees_with_the_machine_at_every_exponent() {
    let fractions = fractions();
    for exponent in 0..2048u64 {
        for fraction in &fractions {
            for sign in [0, SIGN_BIT] {
                let bits = sign | (exponent << 52) | fraction;
                let expected = f64::from_bits(bits).abs().round() as u64;
                assert_eq!(rounded_magnitude(bits), expected, "{bits:#018x}");
            }
        }
    }
}

#[test]
fn rounded_magnitude_agrees_with_the_machine_on_scattered_patterns() {
    let mut state = 2;
    for _ in 0..300_000 {
        let mixed = scramble(&mut state);
        // Every third pattern gets an exponent where rounding matters.
        let bits = if mixed % 3 == 0 {
            let exponent = 1015 + (mixed >> 8) % 80;
            (mixed & (SIGN_BIT | ((1 << 52) - 1))) | (exponent << 52)
        } else {
            mixed
        };
        let expected = f64::from_bits(bits).abs().round() as u64;
        assert_eq!(rounded_magnitude(bits), expected, "{bits:#018x}");
    }
}

#[test]
fn from_integer_of_given_integers() {
    let cases: [(u64, f64); 16] = [
        (0, 0.0),
        (1, 1.0),
        (2, 2.0),
        (3, 3.0),
        (120, 120.0),
        (9007199254740991, 9007199254740991.0),
        (9007199254740992, 9007199254740992.0),
        (9007199254740993, 9007199254740992.0),
        (9007199254740994, 9007199254740994.0),
        (9007199254740995, 9007199254740996.0),
        (2432902008176640000, 2432902008176640000.0),
        (14197454024290336768, 14197454024290336768.0),
        (9223372036854775808, 9223372036854775808.0),
        (18446744073709550591, 18446744073709549568.0),
        (18446744073709550592, 18446744073709551616.0),
        (u64::MAX, 18446744073709551616.0),
    ];
    for (n, expected) in cases {
        assert_eq!(from_integer(n), expected.to_bits(), "{n}");
    }
}

#[test]
fn from_integer_agrees_with_the_machine_around_powers_of_two() {
    for bit in 0..64 {
        let power = 1u64 << bit;
        for low in 0..bit {
            let step = 1u64 << low;
            for base in [power, power | step, power | (power >> 1), power | (power - 1)] {
                for offset in [0u64, 1, 2, 3] {
                    for n in [base.wrapping_add(offset), base.wrapping_sub(offset), base ^ step ^ offset] {
                        assert_eq!(from_integer(n), (n as f64).to_bits(), "{n}");
                    }
                }
            }
        }
    }
}

#[test]
fn from_integer_agrees_with_the_machine_on_scattered_integers() {
    let mut state = 3;
    for _ in 0..300_000 {
        let mixed = scramble(&mut state);
        let n = mixed >> (mixed % 64);
        assert_eq!(from_integer(n), (n as f64).to_bits(), "{n}");
        assert_eq!(from_integer(mixed), (mixed as f64).to_bits(), "{mixed}");
    }
}

#[test]
fn integers_up_to_fifty_three_bits_come_back() {
    let mut state = 4;
    for _ in 0..100_000 {
        let n = scramble(&mut state) >> 11;
        assert_eq!(rounded_magnitude(from_integer(n)), n);
        assert_eq!(rounded_magnitude(negate(from_integer(n))), n);
    }
    for n in 0..=1000u64 {
        assert_eq!(rounded_magnitude(from_integer(n)), n);
    }
}
