//! Factorial on 64-bit unsigned integers, with silent wrap-around, and the
//! factorial of a double through it.

use crate::double::from_integer;
use crate::double::lemma_exact_integers_come_back;
use crate::double::floor_log2;
use crate::double::lemma_floor_log2_bounds;
use crate::double::lemma_floor_log2_is;
use crate::double::lemma_rounded_magnitude_ignores_sign;
use crate::double::lemma_small_integers_come_back;
use crate::double::nearest_double;
use crate::double::negation_of;
use crate::double::rounded_magnitude;
use crate::double::rounded_magnitude_of;
use crate::double::spacing;
use vstd::arithmetic::div_mod::lemma_mul_mod_noop_right;
use vstd::arithmetic::div_mod::lemma_small_mod;
use vstd::arithmetic::power2::lemma2_to64;
use vstd::arithmetic::power2::lemma2_to64_rest;
use vstd::arithmetic::power2::lemma_pow2_strictly_increases;
use vstd::prelude::*;

verus! {

/// The number of values a 64-bit accumulator can hold.
pub open spec fn modulus() -> nat {
    0x1_0000_0000_0000_0000
}

/// `n! = 1 * 2 * ... * n`, with `0! = 1`.
pub open spec fn factorial(n: nat) -> nat
    decreases n,
{
    if n == 0 {
        1
    } else {
        n * factorial((n - 1) as nat)
    }
}

/// What a 64-bit accumulator holds after `1 * 2 * ... * n` has been
/// multiplied into it with wrapping multiplication: `n!` modulo 2^64.
pub open spec fn wrapped_factorial(n: nat) -> u64 {
    (factorial(n) % modulus()) as u64
}

/// One more wrapping multiplication takes the accumulator from `n!` to
/// `(n + 1)!`, both modulo 2^64.
proof fn lemma_wrapped_step(n: nat)
    requires
        n + 1 < modulus(),
    ensures
        wrapped_factorial(n + 1) == ((n + 1) * wrapped_factorial(n)) % (modulus() as int),
        wrapped_factorial(n + 1) == (wrapped_factorial(n) as nat * (n + 1)) % modulus(),
{
    let m = modulus() as int;
    assert(factorial(n + 1) == (n + 1) * factorial(n));
    lemma_mul_mod_noop_right((n + 1) as int, factorial(n) as int, m);
    assert(wrapped_factorial(n) as nat * (n + 1) == (n + 1) * wrapped_factorial(n))
        by (nonlinear_arith);
}

/// Once the accumulator has wrapped to zero it stays zero.
proof fn lemma_wrapped_zero_stays(i: nat, n: nat)
    requires
        i <= n,
        wrapped_factorial(i) == 0,
    ensures
        wrapped_factorial(n) == 0,
    decreases n - i,
{
    if i < n {
        lemma_wrapped_zero_stays(i, (n - 1) as nat);
        let m = modulus() as int;
        assert(factorial(n) == n * factorial((n - 1) as nat));
        lemma_mul_mod_noop_right(n as int, factorial((n - 1) as nat) as int, m);
        assert(n * 0 == 0);
    }
}

/// Factorials are positive and never decrease.
proof fn lemma_factorial_grows(i: nat, j: nat)
    requires
        i <= j,
    ensures
        1 <= factorial(i) <= factorial(j),
    decreases j,
{
    if j > 0 {
        let below = factorial((j - 1) as nat);
        if i < j {
            lemma_factorial_grows(i, (j - 1) as nat);
        } else {
            lemma_factorial_grows((j - 1) as nat, (j - 1) as nat);
        }
        assert(j * below >= below) by (nonlinear_arith)
            requires
                j >= 1,
                below >= 1,
        ;
    }
}

/// The values of the three largest factorials below 2^64.
proof fn lemma_factorial_of_twenty()
    ensures
        factorial(18) == 6402373705728000,
        factorial(19) == 121645100408832000,
        factorial(20) == 2432902008176640000,
{
    assert(factorial(0) == 1);
    assert(factorial(1) == 1);
    assert(factorial(2) == 2);
    assert(factorial(3) == 6);
    assert(factorial(4) == 24);
    assert(factorial(5) == 120);
    assert(factorial(6) == 720);
    assert(factorial(7) == 5040);
    assert(factorial(8) == 40320);
    assert(factorial(9) == 362880);
    assert(factorial(10) == 3628800);
    assert(factorial(11) == 39916800);
    assert(factorial(12) == 479001600);
    assert(factorial(13) == 6227020800);
    assert(factorial(14) == 87178291200);
    assert(factorial(15) == 1307674368000);
    assert(factorial(16) == 20922789888000);
    assert(factorial(17) == 355687428096000);
    assert(factorial(18) == 6402373705728000);
    assert(factorial(19) == 121645100408832000);
    assert(factorial(20) == 2432902008176640000);
}

/// The factorials up to `20!` fit in 64 bits, so no wrapping occurs for them:
/// `wrapped_factorial(n) == factorial(n)` for every `n <= 20`.
pub proof fn lemma_factorial_exact_to_twenty(n: nat)
    requires
        n <= 20,
    ensures
        factorial(n) <= 2432902008176640000,
        wrapped_factorial(n) == factorial(n),
{
    lemma_factorial_of_twenty();
    lemma_factorial_grows(n, 20);
    lemma_small_mod(factorial(n), modulus());
}

/// One step of the accumulator, on given values.
proof fn lemma_wrapped_next(n: nat, before: u64, after: u64)
    requires
        n + 1 < modulus(),
        wrapped_factorial(n) == before,
        after == ((n + 1) * before) % (modulus() as int),
    ensures
        wrapped_factorial(n + 1) == after,
{
    lemma_wrapped_step(n);
}

/// From `66!` on the factorial is a multiple of 2^64, so the accumulator
/// holds zero.
pub proof fn lemma_factorial_wraps_to_zero(n: nat)
    requires
        n >= 66,
    ensures
        wrapped_factorial(n) == 0,
{
    lemma_factorial_exact_to_twenty(20);
    lemma_factorial_of_twenty();
    lemma_wrapped_next(20, 2432902008176640000, 14197454024290336768);
    lemma_wrapped_next(21, 14197454024290336768, 17196083355034583040);
    lemma_wrapped_next(22, 17196083355034583040, 8128291617894825984);
    lemma_wrapped_next(23, 8128291617894825984, 10611558092380307456);
    lemma_wrapped_next(24, 10611558092380307456, 7034535277573963776);
    lemma_wrapped_next(25, 7034535277573963776, 16877220553537093632);
    lemma_wrapped_next(26, 16877220553537093632, 12963097176472289280);
    lemma_wrapped_next(27, 12963097176472289280, 12478583540742619136);
    lemma_wrapped_next(28, 12478583540742619136, 11390785281054474240);
    lemma_wrapped_next(29, 11390785281054474240, 9682165104862298112);
    lemma_wrapped_next(30, 9682165104862298112, 4999213071378415616);
    lemma_wrapped_next(31, 4999213071378415616, 12400865694432886784);
    lemma_wrapped_next(32, 12400865694432886784, 3400198294675128320);
    lemma_wrapped_next(33, 3400198294675128320, 4926277576697053184);
    lemma_wrapped_next(34, 4926277576697053184, 6399018521010896896);
    lemma_wrapped_next(35, 6399018521010896896, 9003737871877668864);
    lemma_wrapped_next(36, 9003737871877668864, 1096907932701818880);
    lemma_wrapped_next(37, 1096907932701818880, 4789013295250014208);
    lemma_wrapped_next(38, 4789013295250014208, 2304077777655037952);
    lemma_wrapped_next(39, 2304077777655037952, 18376134811363311616);
    lemma_wrapped_next(40, 18376134811363311616, 15551764317513711616);
    lemma_wrapped_next(41, 15551764317513711616, 7538058755741581312);
    lemma_wrapped_next(42, 7538058755741581312, 10541877243825618944);
    lemma_wrapped_next(43, 10541877243825618944, 2673996885588443136);
    lemma_wrapped_next(44, 2673996885588443136, 9649395409222631424);
    lemma_wrapped_next(45, 9649395409222631424, 1150331055211806720);
    lemma_wrapped_next(46, 1150331055211806720, 17172071447535812608);
    lemma_wrapped_next(47, 17172071447535812608, 12602690238498734080);
    lemma_wrapped_next(48, 12602690238498734080, 8789267254022766592);
    lemma_wrapped_next(49, 8789267254022766592, 15188249005818642432);
    lemma_wrapped_next(50, 15188249005818642432, 18284192274659147776);
    lemma_wrapped_next(51, 18284192274659147776, 9994050523088551936);
    lemma_wrapped_next(52, 9994050523088551936, 13175843659825807360);
    lemma_wrapped_next(53, 13175843659825807360, 10519282829630636032);
    lemma_wrapped_next(54, 10519282829630636032, 6711489344688881664);
    lemma_wrapped_next(55, 6711489344688881664, 6908521828386340864);
    lemma_wrapped_next(56, 6908521828386340864, 6404118670120845312);
    lemma_wrapped_next(57, 6404118670120845312, 2504001392817995776);
    lemma_wrapped_next(58, 2504001392817995776, 162129586585337856);
    lemma_wrapped_next(59, 162129586585337856, 9727775195120271360);
    lemma_wrapped_next(60, 9727775195120271360, 3098476543630901248);
    lemma_wrapped_next(61, 3098476543630901248, 7638104968020361216);
    lemma_wrapped_next(62, 7638104968020361216, 1585267068834414592);
    lemma_wrapped_next(63, 1585267068834414592, 9223372036854775808);
    lemma_wrapped_next(64, 9223372036854775808, 9223372036854775808);
    lemma_wrapped_next(65, 9223372036854775808, 0);
    lemma_wrapped_zero_stays(66, n);
}

/// Multiplies `1, 2, ..., n` into a 64-bit accumulator that starts at one and
/// wraps silently on overflow.
///
/// The loop stops as soon as the accumulator is zero, which it is from
/// `66!` on, so the running time is bounded whatever `n` is.
pub fn wrapping_factorial(n: u64) -> (product: u64)
    ensures
        product == wrapped_factorial(n as nat),
        n <= 20 ==> product == factorial(n as nat),
        n >= 66 ==> product == 0,
{
    let mut product: u64 = 1;
    let mut i: u64 = 0;
    proof {
        lemma_small_mod(1, modulus());
    }
    while i < n && product != 0
        invariant
            i <= n,
            product == wrapped_factorial(i as nat),
        decreases n - i,
    {
        proof {
            lemma_wrapped_step(i as nat);
        }
        i += 1;
        product = product.wrapping_mul(i);
    }
    proof {
        if product == 0 {
            lemma_wrapped_zero_stays(i as nat, n as nat);
        }
        if n <= 20 {
            lemma_factorial_exact_to_twenty(n as nat);
        }
        if n >= 66 {
            lemma_factorial_wraps_to_zero(n as nat);
        }
    }
    product
}

/// The factorial of a double, as a double again. The magnitude of the
/// number is rounded to the nearest integer and taken as an unsigned 64-bit
/// integer; the factorial of that integer is taken in 64 bits, wrapping;
/// and the result is the double nearest to the product. So a negative
/// number has the factorial of its magnitude, and a number between two
/// integers that of the nearer one.
pub open spec fn factorial_of_pattern(bits: u64) -> u64 {
    nearest_double(wrapped_factorial(rounded_magnitude_of(bits) as nat))
}

/// The factorial of the number with the bit pattern `bits`, as the bit
/// pattern of a double again.
pub fn factorial_pattern(bits: u64) -> (pattern: u64)
    ensures
        pattern == factorial_of_pattern(bits),
{
    from_integer(wrapping_factorial(rounded_magnitude(bits)))
}

/// For the integers from 0 to 20, given as doubles, the factorial is the
/// exact one, as a double: the conversions lose nothing and the
/// accumulator does not wrap. The double nearest to `n!` is `n!` itself,
/// its rounded magnitude being `n!`.
pub proof fn lemma_factorial_of_small_integers(n: u64)
    requires
        n <= 20,
    ensures
        factorial(n as nat) <= u64::MAX,
        factorial_of_pattern(nearest_double(n)) == nearest_double(factorial(n as nat) as u64),
        rounded_magnitude_of(nearest_double(factorial(n as nat) as u64)) == factorial(n as nat),
{
    lemma_small_integers_come_back(n);
    lemma_factorial_exact_to_twenty(n as nat);
    let product = wrapped_factorial(n as nat);
    lemma_factorial_of_twenty();
    lemma2_to64();
    lemma2_to64_rest();
    if n <= 18 {
        lemma_factorial_grows(n as nat, 18);
        lemma_floor_log2_bounds(product as nat);
        if floor_log2(product as nat) > 53 {
            lemma_pow2_strictly_increases(53, floor_log2(product as nat));
        }
        assert(floor_log2(product as nat) <= 52);
    } else if n == 19 {
        lemma_floor_log2_is(product as nat, 56);
        assert(spacing(product as nat) == 16);
        assert(product == 121645100408832000);
        assert(product % 16 == 0);
    } else {
        lemma_floor_log2_is(product as nat, 61);
        assert(spacing(product as nat) == 512);
        assert(product == 2432902008176640000);
        assert(product % 512 == 0);
    }
    lemma_exact_integers_come_back(product);
}

/// The sign of a number plays no part in its factorial.
pub proof fn lemma_factorial_ignores_sign(bits: u64)
    ensures
        factorial_of_pattern(negation_of(bits)) == factorial_of_pattern(bits),
{
    lemma_rounded_magnitude_ignores_sign(bits);
}

} // verus!
