//! Arithmetic facts about powers of two, masks and remainders.
use vstd::arithmetic::div_mod::*;
use vstd::arithmetic::power2::*;
use vstd::bits::*;
use vstd::prelude::*;

verus! {

/// `n` is a power of two.
pub open spec fn is_power_of_two(n: int) -> bool {
    exists|exponent: nat| n == #[trigger] pow2(exponent)
}

/// The number of values of `usize`.
pub open spec fn usize_range() -> int {
    usize::MAX + 1
}

/// A power of two is positive.
pub proof fn lemma_power_of_two_positive(n: int)
    requires
        is_power_of_two(n),
    ensures
        n >= 1,
{
    let exponent = choose|exponent: nat| n == #[trigger] pow2(exponent);
    lemma_pow2_pos(exponent);
}

/// The exponent of a power of two that fits in `usize` is less than the number of its bits.
pub proof fn lemma_exponent_below_bits(n: usize, exponent: nat)
    requires
        n == pow2(exponent),
    ensures
        exponent < usize::BITS,
{
    if exponent >= usize::BITS {
        if exponent > usize::BITS {
            lemma_pow2_strictly_increases(usize::BITS as nat, exponent);
        }
        lemma2_to64();
        lemma2_to64_rest();
    }
}

/// A difference of two `usize` values, reduced to the range of `usize`.
pub proof fn lemma_reduced_difference(difference: int)
    requires
        -usize_range() < difference < usize_range(),
    ensures
        difference >= 0 ==> difference % usize_range() == difference,
        difference < 0 ==> difference % usize_range() == difference + usize_range(),
{
    if difference >= 0 {
        lemma_small_mod(difference as nat, usize_range() as nat);
    } else {
        lemma_mod_multiples_vanish(1, difference, usize_range());
        lemma_small_mod((difference + usize_range()) as nat, usize_range() as nat);
    }
}

/// Masking with a power of two less one is the remainder by that power.
pub proof fn lemma_mask_is_remainder(x: usize, n: usize)
    requires
        is_power_of_two(n as int),
    ensures
        x & ((n - 1) as usize) == x % n,
{
    let exponent = choose|exponent: nat| n as int == #[trigger] pow2(exponent);
    lemma_pow2_pos(exponent);
    lemma_exponent_below_bits(n, exponent);
    lemma_usize_low_bits_mask_is_mod(x, exponent);
}

/// A remainder by a multiple keeps the remainder by the divisor.
pub proof fn lemma_remainder_of_remainder(x: int, n: int, k: int)
    requires
        n > 0,
        k > 0,
    ensures
        (x % (k * n)) % n == x % n,
{
    lemma_mod_mod(x, n, k);
    assert(n * k == k * n) by (nonlinear_arith);
}

/// How the remainders of two numbers less than one period apart lie to each other: the later one is
/// ahead by their distance, or has wrapped around and is behind by the rest of the period.
pub proof fn lemma_remainder_distance(x: int, y: int, period: int)
    requires
        period > 0,
        0 <= y - x < period,
    ensures
        0 <= x % period < period,
        0 <= y % period < period,
        x % period <= y % period ==> y % period - x % period == y - x,
        y % period < x % period ==> y % period + period - x % period == y - x,
{
    lemma_fundamental_div_mod(x, period);
    lemma_fundamental_div_mod(y, period);
    let turns = y / period - x / period;
    assert(period * turns == period * (y / period) - period * (x / period)) by (nonlinear_arith)
        requires
            turns == y / period - x / period,
    ;
    assert(turns == 0 || turns == 1) by (nonlinear_arith)
        requires
            period > 0,
            -period < period * turns < 2 * period,
    ;
    assert(period * 1 == period);
    assert(period * 0 == 0);
}

/// Two numbers less than one period apart have the same remainder only if they are equal.
pub proof fn lemma_same_remainder(x: int, y: int, period: int)
    requires
        period > 0,
        -period < y - x < period,
        x % period == y % period,
    ensures
        x == y,
{
    if x <= y {
        lemma_remainder_distance(x, y, period);
    } else {
        lemma_remainder_distance(y, x, period);
    }
}

/// Adding before or after taking the remainder makes no difference to the remainder.
pub proof fn lemma_remainder_of_sum(x: int, y: int, period: int)
    requires
        period > 0,
    ensures
        (x % period + y) % period == (x + y) % period,
{
    lemma_add_mod_noop(x, y, period);
    lemma_add_mod_noop(x % period, y, period);
    lemma_mod_twice(x, period);
}

/// Twice a power of two is a power of two.
pub proof fn lemma_power_of_two_doubles(n: int)
    requires
        is_power_of_two(n),
    ensures
        is_power_of_two(2 * n),
{
    let exponent = choose|exponent: nat| n == #[trigger] pow2(exponent);
    lemma_pow2_unfold(exponent + 1);
    assert(2 * n == pow2(exponent + 1));
}

/// The number of values of `usize` is a multiple of four times any buffer size in use.
pub proof fn lemma_four_times_divides_range(n: int) -> (quotient: int)
    requires
        is_power_of_two(n),
        4 * n <= usize_range(),
    ensures
        quotient >= 1,
        usize_range() == quotient * (4 * n),
{
    let exponent = choose|exponent: nat| n == #[trigger] pow2(exponent);
    lemma2_to64();
    lemma2_to64_rest();
    assert(usize_range() == pow2(usize::BITS as nat));
    lemma_pow2_adds(2, exponent);
    let e: nat = exponent + 2;
    assert(pow2(e) == 4 * n);
    if e > usize::BITS {
        lemma_pow2_strictly_increases(usize::BITS as nat, e);
    }
    let rest = (usize::BITS - e) as nat;
    lemma_pow2_adds(rest, e);
    lemma_pow2_pos(rest);
    pow2(rest) as int
}

/// Returns whether a number is a power of two.
pub fn check_power_of_two(n: usize) -> (result: bool)
    ensures
        result == is_power_of_two(n as int),
{
    if n == 0 {
        proof {
            if is_power_of_two(0) {
                lemma_power_of_two_positive(0);
            }
        }
        return false;
    }
    let mut rest: usize = n;
    while rest % 2 == 0
        invariant
            rest >= 1,
            is_power_of_two(n as int) == is_power_of_two(rest as int),
        decreases rest,
    {
        proof {
            lemma_halving(rest as int);
        }
        rest = rest / 2;
    }
    proof {
        lemma_odd_power(rest as int);
    }
    rest == 1
}

/// Half of an even number is a power of two if and only if the number is.
proof fn lemma_halving(n: int)
    requires
        n >= 1,
        n % 2 == 0,
    ensures
        is_power_of_two(n) == is_power_of_two(n / 2),
{
    if is_power_of_two(n / 2) {
        lemma_power_of_two_doubles(n / 2);
    }
    if is_power_of_two(n) {
        let exponent = choose|exponent: nat| n == #[trigger] pow2(exponent);
        if exponent == 0 {
            lemma2_to64();
        } else {
            lemma_pow2_unfold(exponent);
            assert(n / 2 == pow2((exponent - 1) as nat));
        }
    }
}

/// The only odd power of two is 1.
proof fn lemma_odd_power(n: int)
    requires
        n % 2 == 1,
    ensures
        is_power_of_two(n) == (n == 1),
{
    lemma2_to64();
    assert(pow2(0) == 1);
    if is_power_of_two(n) {
        let exponent = choose|exponent: nat| n == #[trigger] pow2(exponent);
        if exponent > 0 {
            lemma_pow2_unfold(exponent);
        }
    }
}

} // verus!
