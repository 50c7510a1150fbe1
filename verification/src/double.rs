//! IEEE-754 double-precision numbers as bit patterns, and what can be done
//! to them in integer arithmetic alone.
//!
//! A pattern has, from its upper end, one sign bit, eleven exponent bits and
//! fifty-two fraction bits. With exponent field `e` and fraction field `f`
//! it stands for
//!
//! - `f * 2^-1074` where `e` is 0 (zero and the subnormal numbers),
//! - `(2^52 + f) * 2^(e - 1075)` where `e` is 1 to 2046,
//! - infinity where `e` is 2047 and `f` is 0, and no number otherwise,
//!
//! each with the sign that the sign bit gives.

use vstd::arithmetic::div_mod::lemma_basic_div;
use vstd::arithmetic::div_mod::lemma_div_by_multiple;
use vstd::arithmetic::div_mod::lemma_mod_multiples_basic;
use vstd::arithmetic::div_mod::lemma_fundamental_div_mod;
use vstd::arithmetic::div_mod::lemma_fundamental_div_mod_converse;
use vstd::arithmetic::mul::lemma_mul_inequality;
use vstd::arithmetic::mul::lemma_mul_strict_inequality;
use vstd::arithmetic::power2::lemma2_to64;
use vstd::arithmetic::power2::lemma2_to64_rest;
use vstd::arithmetic::power2::lemma_pow2_adds;
use vstd::arithmetic::power2::lemma_pow2_pos;
use vstd::arithmetic::power2::lemma_pow2_strictly_increases;
use vstd::arithmetic::power2::lemma_pow2_unfold;
use vstd::arithmetic::power2::pow2;
use vstd::prelude::*;

verus! {

/// The sign bit alone: the pattern of negative zero.
pub const SIGN_BIT: u64 = 0x8000_0000_0000_0000;

/// The lowest exponent bit alone, `2^52`: one more than the largest
/// fraction field, and the leading bit of the significand of a normal number.
pub const HIDDEN_BIT: u64 = 0x0010_0000_0000_0000;

/// The pattern of positive infinity.
pub const INFINITY_BITS: u64 = 0x7FF0_0000_0000_0000;

/// The exponent field of infinity and of what is no number.
pub const TOP_EXPONENT: u64 = 2047;

/// The exponent field of the numbers from one up to, not including, two.
pub const EXPONENT_BIAS: u64 = 1023;

/// The exponent field of the numbers whose significand counts ones: those
/// from `2^52` up to, not including, `2^53`.
pub const UNIT_EXPONENT: u64 = 1075;

/// The pattern with the sign bit cleared: the magnitude of the number.
pub open spec fn magnitude_of(bits: u64) -> u64 {
    if bits >= SIGN_BIT {
        (bits - SIGN_BIT) as u64
    } else {
        bits
    }
}

/// The pattern with the sign bit reversed: the number negated.
pub open spec fn negation_of(bits: u64) -> u64 {
    if bits >= SIGN_BIT {
        (bits - SIGN_BIT) as u64
    } else {
        (bits + SIGN_BIT) as u64
    }
}

/// The exponent field of a pattern.
pub open spec fn exponent_field(bits: u64) -> nat {
    (magnitude_of(bits) / HIDDEN_BIT) as nat
}

/// The fraction field of a pattern.
pub open spec fn fraction_field(bits: u64) -> nat {
    (magnitude_of(bits) % HIDDEN_BIT) as nat
}

/// Whether the pattern stands for no number.
pub open spec fn is_nan(bits: u64) -> bool {
    exponent_field(bits) == TOP_EXPONENT && fraction_field(bits) != 0
}

/// Whether the pattern stands for an infinity.
pub open spec fn is_infinite(bits: u64) -> bool {
    exponent_field(bits) == TOP_EXPONENT && fraction_field(bits) == 0
}

/// The significand of a finite number: its magnitude is
/// `significand(bits) * 2^scale(bits)`.
pub open spec fn significand(bits: u64) -> nat {
    if exponent_field(bits) == 0 {
        fraction_field(bits)
    } else {
        (HIDDEN_BIT + fraction_field(bits)) as nat
    }
}

/// The power of two that the significand of a finite number is taken times.
pub open spec fn scale(bits: u64) -> int {
    if exponent_field(bits) == 0 {
        1 - UNIT_EXPONENT
    } else {
        exponent_field(bits) - UNIT_EXPONENT
    }
}

/// The magnitude `m * 2^s`, rounded to the nearest integer with halves going
/// up: the integer part of `m * 2^s + 1/2`.
pub open spec fn rounded(m: nat, s: int) -> nat {
    if s >= 0 {
        m * pow2(s as nat)
    } else {
        (2 * m + pow2((-s) as nat)) / (2 * pow2((-s) as nat))
    }
}

/// The magnitude of a number, rounded to the nearest integer, halves away
/// from zero, as an unsigned 64-bit integer: the largest such integer where
/// the magnitude is beyond it, infinity included, and zero for what is no
/// number.
#[verifier::opaque]
pub open spec fn rounded_magnitude_of(bits: u64) -> u64 {
    if is_nan(bits) {
        0
    } else if is_infinite(bits) {
        u64::MAX
    } else if rounded(significand(bits), scale(bits)) > u64::MAX {
        u64::MAX
    } else {
        rounded(significand(bits), scale(bits)) as u64
    }
}

/// The magnitude of a number: its pattern with the sign bit cleared.
pub fn magnitude(bits: u64) -> (cleared: u64)
    ensures
        cleared == magnitude_of(bits),
{
    if bits >= SIGN_BIT {
        bits - SIGN_BIT
    } else {
        bits
    }
}

/// A number negated: its pattern with the sign bit reversed.
pub fn negate(bits: u64) -> (reversed: u64)
    ensures
        reversed == negation_of(bits),
{
    if bits >= SIGN_BIT {
        bits - SIGN_BIT
    } else {
        bits + SIGN_BIT
    }
}

/// Two to the power `k`.
fn power_of_two(k: u64) -> (power: u64)
    requires
        k <= 63,
    ensures
        power == pow2(k as nat),
{
    let mut power: u64 = 1;
    let mut i: u64 = 0;
    proof {
        lemma2_to64();
    }
    while i < k
        invariant
            i <= k <= 63,
            power == pow2(i as nat),
        decreases k - i,
    {
        proof {
            lemma_pow2_unfold((i + 1) as nat);
            if i + 1 < 63 {
                lemma_pow2_strictly_increases((i + 1) as nat, 63);
            }
            lemma2_to64_rest();
        }
        power = power * 2;
        i += 1;
    }
    power
}

/// The magnitude of a number, rounded to the nearest integer, halves away
/// from zero, as an unsigned 64-bit integer.
pub fn rounded_magnitude(bits: u64) -> (integer: u64)
    ensures
        integer == rounded_magnitude_of(bits),
{
    reveal(rounded_magnitude_of);
    let cleared: u64 = magnitude(bits);
    let exponent: u64 = cleared / HIDDEN_BIT;
    let fraction: u64 = cleared % HIDDEN_BIT;
    if exponent == TOP_EXPONENT {
        return if fraction == 0 {
            u64::MAX
        } else {
            0
        };
    }
    proof {
        lemma2_to64();
        lemma2_to64_rest();
    }
    if exponent + 53 < UNIT_EXPONENT {
        // Less than a half.
        proof {
            let k = (-scale(bits)) as nat;
            if k > 54 {
                lemma_pow2_strictly_increases(54, k);
            }
            lemma_basic_div((2 * significand(bits) + pow2(k)) as int, (2 * pow2(k)) as int);
        }
        return 0;
    }
    let whole: u64 = HIDDEN_BIT + fraction;
    if exponent >= UNIT_EXPONENT + 12 {
        // Two to the power 64 at the least.
        proof {
            let k = scale(bits) as nat;
            if k > 12 {
                lemma_pow2_strictly_increases(12, k);
            }
            lemma_mul_inequality(pow2(12) as int, pow2(k) as int, whole as int);
            lemma_mul_inequality(HIDDEN_BIT as int, whole as int, pow2(12) as int);
            assert(whole * pow2(k) == pow2(k) * whole) by (nonlinear_arith);
            assert(whole * pow2(12) == pow2(12) * whole) by (nonlinear_arith);
        }
        return u64::MAX;
    }
    if exponent >= UNIT_EXPONENT {
        // An integer already.
        let factor: u64 = power_of_two(exponent - UNIT_EXPONENT);
        proof {
            let k = (exponent - UNIT_EXPONENT) as nat;
            if k < 11 {
                lemma_pow2_strictly_increases(k, 11);
            }
            lemma_mul_inequality(factor as int, pow2(11) as int, whole as int);
            assert(whole * factor == factor * whole) by (nonlinear_arith);
            assert(whole * pow2(11) == pow2(11) * whole) by (nonlinear_arith);
        }
        return whole * factor;
    }
    let unit: u64 = power_of_two(UNIT_EXPONENT - exponent);
    proof {
        let k = (UNIT_EXPONENT - exponent) as nat;
        if k < 53 {
            lemma_pow2_strictly_increases(k, 53);
        }
        lemma_pow2_pos(k);
    }
    (2 * whole + unit) / (2 * unit)
}

/// The position of the leading one bit of `n`: the `p` with
/// `2^p <= n < 2^(p + 1)`, and zero for zero.
pub open spec fn floor_log2(n: nat) -> nat
    decreases n,
{
    if n <= 1 {
        0
    } else {
        1 + floor_log2(n / 2)
    }
}

/// How far apart the doubles around the integer `n` lie, for `n` from `2^53`
/// on: the power of two that leaves fifty-three bits of `n`.
pub open spec fn spacing(n: nat) -> nat
    recommends
        floor_log2(n) >= 52,
{
    pow2((floor_log2(n) - 52) as nat)
}

/// The pattern of the double nearest to the integer `n`. Up to `2^53` every
/// integer is a double. Beyond, `n` goes to the nearer of the two doubles
/// around it, and from the middle between them to the one whose significand
/// is even.
#[verifier::opaque]
pub open spec fn nearest_double(n: u64) -> u64 {
    let p = floor_log2(n as nat);
    if n == 0 {
        0
    } else if p <= 52 {
        ((EXPONENT_BIAS + p) * HIDDEN_BIT + (n * pow2((52 - p) as nat) - HIDDEN_BIT)) as u64
    } else {
        let unit = spacing(n as nat);
        let below = n as nat / unit;
        let rest = n as nat % unit;
        let up: nat = if 2 * rest > unit || (2 * rest == unit && below % 2 == 1) {
            1
        } else {
            0
        };
        ((EXPONENT_BIAS + p) * HIDDEN_BIT + (below - HIDDEN_BIT) + up) as u64
    }
}

/// A positive integer lies between the power of two at its leading bit and
/// the next one.
pub proof fn lemma_floor_log2_bounds(n: nat)
    requires
        n >= 1,
    ensures
        pow2(floor_log2(n)) <= n < 2 * pow2(floor_log2(n)),
    decreases n,
{
    lemma2_to64();
    if n > 1 {
        lemma_floor_log2_bounds(n / 2);
        lemma_pow2_unfold(floor_log2(n));
    }
}

/// The position of the leading one bit of a 64-bit integer is at most 63.
proof fn lemma_floor_log2_of_u64(n: u64)
    requires
        n >= 1,
    ensures
        floor_log2(n as nat) <= 63,
{
    lemma_floor_log2_bounds(n as nat);
    lemma2_to64();
    if floor_log2(n as nat) > 64 {
        lemma_pow2_strictly_increases(64, floor_log2(n as nat));
    }
}

/// The position of the leading one bit of `n`.
fn leading_bit(n: u64) -> (p: u64)
    requires
        n >= 1,
    ensures
        p == floor_log2(n as nat),
        p <= 63,
{
    let mut p: u64 = 0;
    let mut rest: u64 = n;
    proof {
        lemma_floor_log2_of_u64(n);
    }
    while rest > 1
        invariant
            rest >= 1,
            floor_log2(n as nat) == p + floor_log2(rest as nat),
            floor_log2(n as nat) <= 63,
        decreases rest,
    {
        rest = rest / 2;
        p += 1;
    }
    p
}

/// The pattern of the double nearest to an unsigned 64-bit integer, ties
/// going to the even significand.
pub fn from_integer(n: u64) -> (bits: u64)
    ensures
        bits == nearest_double(n),
{
    reveal(nearest_double);
    if n == 0 {
        return 0;
    }
    let p: u64 = leading_bit(n);
    proof {
        lemma_floor_log2_bounds(n as nat);
        lemma2_to64();
        lemma2_to64_rest();
    }
    if p <= 52 {
        let factor: u64 = power_of_two(52 - p);
        proof {
            lemma_pow2_adds(p as nat, (52 - p) as nat);
            lemma_mul_inequality(pow2(p as nat) as int, n as int, factor as int);
            lemma_mul_strict_inequality(n as int, (2 * pow2(p as nat)) as int, factor as int);
            assert(2 * pow2(p as nat) * factor == 2 * (pow2(p as nat) * factor))
                by (nonlinear_arith);
        }
        (EXPONENT_BIAS + p) * HIDDEN_BIT + (n * factor - HIDDEN_BIT)
    } else {
        let unit: u64 = power_of_two(p - 52);
        let below: u64 = n / unit;
        let rest: u64 = n % unit;
        proof {
            lemma_leading_bits(n as nat, p as nat);
        }
        let up: u64 = if 2 * rest > unit || (2 * rest == unit && below % 2 == 1) {
            1
        } else {
            0
        };
        (EXPONENT_BIAS + p) * HIDDEN_BIT + (below - HIDDEN_BIT) + up
    }
}

/// Beyond `2^53`, cutting an integer down to the power of two fifty-two
/// places under its leading bit leaves fifty-three bits.
proof fn lemma_leading_bits(n: nat, p: nat)
    requires
        52 <= p,
        pow2(p) <= n < 2 * pow2(p),
    ensures
        HIDDEN_BIT <= n / pow2((p - 52) as nat) < 2 * HIDDEN_BIT,
        0 < pow2((p - 52) as nat),
{
    let unit = pow2((p - 52) as nat);
    lemma2_to64();
    lemma2_to64_rest();
    lemma_pow2_pos((p - 52) as nat);
    lemma_pow2_adds(52, (p - 52) as nat);
    assert(pow2(p) == HIDDEN_BIT * unit);
    let below = n / unit;
    lemma_fundamental_div_mod(n as int, unit as int);
    assert(n == unit * below + n % unit);
    assert(0 <= n % unit < unit);
    if below < HIDDEN_BIT {
        lemma_mul_inequality(below as int + 1, HIDDEN_BIT as int, unit as int);
        assert((below + 1) * unit == unit * below + unit) by (nonlinear_arith);
    }
    if below >= 2 * HIDDEN_BIT {
        lemma_mul_inequality(2 * HIDDEN_BIT as int, below as int, unit as int);
        assert(2 * HIDDEN_BIT * unit == 2 * (HIDDEN_BIT * unit)) by (nonlinear_arith);
        assert(below * unit == unit * below) by (nonlinear_arith);
    }
}

/// The sign plays no part in the rounded magnitude.
pub proof fn lemma_rounded_magnitude_ignores_sign(bits: u64)
    ensures
        rounded_magnitude_of(negation_of(bits)) == rounded_magnitude_of(bits),
        rounded_magnitude_of(magnitude_of(bits)) == rounded_magnitude_of(bits),
{
    reveal(rounded_magnitude_of);
    assert(magnitude_of(negation_of(bits)) == magnitude_of(bits));
    assert(magnitude_of(magnitude_of(bits)) == magnitude_of(bits));
}

/// Every integer below `2^53` is a double: the nearest double is the integer
/// itself, and rounding its magnitude gives the integer back.
pub proof fn lemma_small_integers_come_back(n: u64)
    requires
        n < 2 * HIDDEN_BIT,
    ensures
        rounded_magnitude_of(nearest_double(n)) == n,
{
    reveal(rounded_magnitude_of);
    reveal(nearest_double);
    let bits = nearest_double(n);
    lemma2_to64();
    lemma2_to64_rest();
    if n == 0 {
        lemma_pow2_pos(1074);
        lemma_basic_div(pow2(1074) as int, (2 * pow2(1074)) as int);
    } else {
        let p = floor_log2(n as nat);
        lemma_floor_log2_bounds(n as nat);
        if p > 53 {
            lemma_pow2_strictly_increases(53, p);
        }
        assert(p <= 52);
        let k = (52 - p) as nat;
        let unit = pow2(k);
        let whole = n * unit;
        lemma_pow2_pos(k);
        lemma_pow2_adds(p, k);
        lemma_mul_inequality(pow2(p) as int, n as int, unit as int);
        lemma_mul_strict_inequality(n as int, (2 * pow2(p)) as int, unit as int);
        assert(2 * pow2(p) * unit == 2 * (pow2(p) * unit)) by (nonlinear_arith);
        assert(HIDDEN_BIT <= whole < 2 * HIDDEN_BIT);
        assert(bits == (EXPONENT_BIAS + p) * HIDDEN_BIT + (whole - HIDDEN_BIT));
        lemma_fundamental_div_mod_converse(
            bits as int,
            HIDDEN_BIT as int,
            (EXPONENT_BIAS + p) as int,
            (whole - HIDDEN_BIT) as int,
        );
        assert(exponent_field(bits) == EXPONENT_BIAS + p);
        assert(significand(bits) == whole);
        assert(scale(bits) == -(k as int));
        if k > 0 {
            assert(2 * whole + unit == n * (2 * unit) + unit) by (nonlinear_arith)
                requires
                    whole == n * unit,
            ;
            lemma_fundamental_div_mod_converse(
                (2 * whole + unit) as int,
                (2 * unit) as int,
                n as int,
                unit as int,
            );
        } else {
            assert(unit == 1);
            assert(whole * unit == n) by (nonlinear_arith)
                requires
                    whole == n * unit,
                    unit == 1,
            ;
        }
        assert(rounded(significand(bits), scale(bits)) == n);
        assert(!is_nan(bits) && !is_infinite(bits));
    }
}

/// The integer for which a finite pattern stands, where it stands for one
/// that is `2^52` at the least.
pub open spec fn integer_of(bits: u64) -> nat
    recommends
        scale(bits) >= 0,
{
    significand(bits) * pow2(scale(bits) as nat)
}

/// The nearest double is what its name says. It is finite and not
/// negative. Up to `2^53` it is the integer itself: its significand, taken
/// times two to its scale, which is not positive, is the integer. Beyond,
/// where neighbouring doubles lie `spacing(n)` apart, it is a multiple of
/// the spacing, no further than half the spacing from the integer, and an
/// even multiple where it is exactly that far.
pub proof fn lemma_nearest_double_is_near(n: u64)
    requires
        n >= 1,
    ensures
        nearest_double(n) < INFINITY_BITS,
        floor_log2(n as nat) <= 52 ==> scale(nearest_double(n)) == floor_log2(n as nat) - 52,
        floor_log2(n as nat) <= 52 ==> significand(nearest_double(n)) == n * pow2(
            (52 - floor_log2(n as nat)) as nat,
        ),
        floor_log2(n as nat) > 52 ==> scale(nearest_double(n)) >= 0,
        floor_log2(n as nat) > 52 ==> integer_of(nearest_double(n)) % spacing(n as nat) == 0,
        floor_log2(n as nat) > 52 ==> -spacing(n as nat) <= 2 * (integer_of(nearest_double(n)) - n)
            <= spacing(n as nat),
        floor_log2(n as nat) > 52 && (2 * (integer_of(nearest_double(n)) - n) == spacing(n as nat)
            || 2 * (n - integer_of(nearest_double(n))) == spacing(n as nat)) ==> (integer_of(
            nearest_double(n),
        ) / spacing(n as nat)) % 2 == 0,
{
    reveal(nearest_double);
    let bits = nearest_double(n);
    let p = floor_log2(n as nat);
    lemma2_to64();
    lemma2_to64_rest();
    lemma_floor_log2_bounds(n as nat);
    lemma_floor_log2_of_u64(n);
    if p <= 52 {
        let k = (52 - p) as nat;
        let unit = pow2(k);
        let whole = n * unit;
        lemma_pow2_pos(k);
        lemma_pow2_adds(p, k);
        lemma_mul_inequality(pow2(p) as int, n as int, unit as int);
        lemma_mul_strict_inequality(n as int, (2 * pow2(p)) as int, unit as int);
        assert(2 * pow2(p) * unit == 2 * (pow2(p) * unit)) by (nonlinear_arith);
        assert(HIDDEN_BIT <= whole < 2 * HIDDEN_BIT);
        lemma_fundamental_div_mod_converse(
            bits as int,
            HIDDEN_BIT as int,
            (EXPONENT_BIAS + p) as int,
            (whole - HIDDEN_BIT) as int,
        );
    } else {
        let k = (p - 52) as nat;
        let unit = pow2(k);
        lemma_leading_bits(n as nat, p);
        if k > 11 {
            lemma_pow2_strictly_increases(11, k);
        }
        if k < 11 {
            lemma_pow2_strictly_increases(k, 11);
        }
        assert(unit <= 2048);
        let below = n as nat / unit;
        let rest = n as nat % unit;
        lemma_fundamental_div_mod(n as int, unit as int);
        let up: nat = if 2 * rest > unit || (2 * rest == unit && below % 2 == 1) {
            1
        } else {
            0
        };
        let steps = below + up;
        assert(bits == (EXPONENT_BIAS + p) * HIDDEN_BIT + (steps - HIDDEN_BIT));
        assert(steps * unit == unit * below + up * unit) by (nonlinear_arith)
            requires
                steps == below + up,
        ;
        lemma_div_by_multiple(steps as int, unit as int);
        lemma_mod_multiples_basic(steps as int, unit as int);
        if steps < 2 * HIDDEN_BIT {
            lemma_fundamental_div_mod_converse(
                bits as int,
                HIDDEN_BIT as int,
                (EXPONENT_BIAS + p) as int,
                (steps - HIDDEN_BIT) as int,
            );
            assert(exponent_field(bits) == EXPONENT_BIAS + p);
            assert(significand(bits) == steps);
            assert(scale(bits) == k);
        } else {
            lemma_fundamental_div_mod_converse(
                bits as int,
                HIDDEN_BIT as int,
                (EXPONENT_BIAS + p + 1) as int,
                0,
            );
            assert(exponent_field(bits) == EXPONENT_BIAS + p + 1);
            assert(significand(bits) == HIDDEN_BIT);
            assert(scale(bits) == k + 1);
            lemma_pow2_unfold(k + 1);
            assert(HIDDEN_BIT * (2 * unit) == steps * unit) by (nonlinear_arith)
                requires
                    steps == 2 * HIDDEN_BIT,
            ;
        }
    }
}

/// The position of the leading bit is the only `p` with
/// `2^p <= n < 2^(p + 1)`.
pub proof fn lemma_floor_log2_is(n: nat, p: nat)
    requires
        pow2(p) <= n < 2 * pow2(p),
    ensures
        floor_log2(n) == p,
{
    let q = floor_log2(n);
    lemma_pow2_pos(p);
    lemma_floor_log2_bounds(n);
    lemma_pow2_unfold(p + 1);
    lemma_pow2_unfold(q + 1);
    if q < p {
        if q + 1 < p {
            lemma_pow2_strictly_increases(q + 1, p);
        }
    } else if q > p {
        if p + 1 < q {
            lemma_pow2_strictly_increases(p + 1, q);
        }
    }
}

/// Every integer that is a double comes back: where `n` is below `2^53`,
/// or a multiple of the spacing of the doubles around it, the nearest
/// double is `n` itself, and rounding its magnitude gives `n`.
pub proof fn lemma_exact_integers_come_back(n: u64)
    requires
        floor_log2(n as nat) > 52 ==> n % (spacing(n as nat) as u64) == 0,
    ensures
        rounded_magnitude_of(nearest_double(n)) == n,
{
    let p = floor_log2(n as nat);
    if p <= 52 {
        if n >= 1 {
            lemma_floor_log2_bounds(n as nat);
            lemma2_to64();
            lemma2_to64_rest();
            if p < 52 {
                lemma_pow2_strictly_increases(p, 52);
            }
        }
        lemma_small_integers_come_back(n);
    } else {
        let bits = nearest_double(n);
        let unit = spacing(n as nat);
        let value = integer_of(bits);
        lemma_nearest_double_is_near(n);
        lemma_floor_log2_of_u64(n);
        lemma2_to64();
        if p - 52 < 11 {
            lemma_pow2_strictly_increases((p - 52) as nat, 11);
        }
        lemma_pow2_pos((p - 52) as nat);
        assert(value == n) by {
            lemma_fundamental_div_mod(value as int, unit as int);
            lemma_fundamental_div_mod(n as int, unit as int);
            let a = value as int / unit as int;
            let b = n as int / unit as int;
            assert(value - n == unit * (a - b)) by (nonlinear_arith)
                requires
                    value == unit * a,
                    n == unit * b,
            ;
            assert(a == b) by (nonlinear_arith)
                requires
                    -unit <= 2 * (unit * (a - b)) <= unit,
                    unit > 0,
            ;
        }
        reveal(rounded_magnitude_of);
    }
}

} // verus!
