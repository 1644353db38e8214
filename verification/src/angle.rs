//! Fixed-point angles.
//!
//! A device reports an angle in semicircles: a signed integer in which
//! `2^31` stands for half a turn. This module turns such a value into
//! hundred-thousandths of a degree, rounded to the nearest unit with a tie
//! going away from zero. Everything is integer arithmetic, so the result is
//! the same on every machine.

use vstd::prelude::*;
use vstd::arithmetic::div_mod::lemma_fundamental_div_mod;
use vstd::arithmetic::div_mod::lemma_fundamental_div_mod_converse;
use vstd::arithmetic::div_mod::lemma_mod_bound;

verus! {

/// Semicircles in half a turn.
pub const HALF_TURN_SEMICIRCLES: i64 = 0x8000_0000;

/// Output units in half a turn: 180 degrees at five decimal places.
pub const HALF_TURN_UNITS: i64 = 18_000_000;

/// The largest operand that [`round_div_wide`] takes.
pub const WIDE_LIMIT: i128 = 0x1_0000_0000_0000_0000_0000_0000;

/// The integer nearest to `num / den`, a tie going away from zero.
pub open spec fn round_half_away(num: int, den: int) -> int
    recommends
        den > 0,
{
    if num >= 0 {
        (2 * num + den) / (2 * den)
    } else {
        -((2 * (-num) + den) / (2 * den))
    }
}

/// An angle of `semicircles` in hundred-thousandths of a degree:
/// `semicircles * 180 / 2^31` degrees, rounded to five decimal places.
pub open spec fn degrees_e5(semicircles: int) -> int {
    round_half_away(semicircles * HALF_TURN_UNITS, HALF_TURN_SEMICIRCLES as int)
}

/// The rounded quotient is a nearest integer: it lies within half a unit of
/// `num / den`. Where `num / den` is exactly halfway between two integers,
/// it is the one further from zero.
pub proof fn lemma_round_is_nearest(num: int, den: int)
    requires
        den > 0,
    ensures
        -den <= 2 * (num - round_half_away(num, den) * den) <= den,
        2 * (num - round_half_away(num, den) * den) == den ==> num < 0,
        2 * (num - round_half_away(num, den) * den) == -den ==> num > 0,
{
    let m = if num >= 0 { num } else { -num };
    let q = (2 * m + den) / (2 * den);
    lemma_fundamental_div_mod(2 * m + den, 2 * den);
    lemma_mod_bound(2 * m + den, 2 * den);
    assert((2 * den) * q == 2 * (q * den)) by (nonlinear_arith);
    if num < 0 {
        assert((-q) * den == -(q * den)) by (nonlinear_arith);
    }
    if num == 0 {
        lemma_round_of_zero(den);
    }
}

/// Nothing rounds to nothing.
pub proof fn lemma_round_of_zero(den: int)
    requires
        den > 0,
    ensures
        round_half_away(0, den) == 0,
{
    lemma_fundamental_div_mod_converse(den, 2 * den, 0, den);
}

/// Rounding is odd: negating the numerator negates the result.
pub proof fn lemma_round_is_odd(num: int, den: int)
    requires
        den > 0,
    ensures
        round_half_away(-num, den) == -round_half_away(num, den),
{
    if num == 0 {
        lemma_round_of_zero(den);
    }
}

/// Rounding keeps order: a larger numerator never rounds to a smaller
/// integer.
pub proof fn lemma_round_is_monotone(a: int, b: int, den: int)
    requires
        den > 0,
        a <= b,
    ensures
        round_half_away(a, den) <= round_half_away(b, den),
{
    lemma_round_is_nearest(a, den);
    lemma_round_is_nearest(b, den);
    let qa = round_half_away(a, den);
    let qb = round_half_away(b, den);
    if qa > qb {
        // 2a >= 2*qa*den - den and 2b <= 2*qb*den + den force qa == qb + 1
        // with a == b on a tie from both sides, which the tie rule excludes.
        assert((qa - qb) * den >= den) by (nonlinear_arith)
            requires
                qa - qb >= 1,
                den > 0,
        ;
        assert((qa - qb) * den == qa * den - qb * den) by (nonlinear_arith);
    }
}

/// A value that is already a whole number of units rounds to itself.
pub proof fn lemma_round_of_whole(n: int, den: int)
    requires
        den > 0,
    ensures
        round_half_away(n * den, den) == n,
{
    let m = if n >= 0 { n } else { -n };
    assert(m * den >= 0) by (nonlinear_arith)
        requires
            m >= 0,
            den > 0,
    ;
    assert(2 * (m * den) + den == m * (2 * den) + den) by (nonlinear_arith);
    lemma_fundamental_div_mod_converse(2 * (m * den) + den, 2 * den, m, den);
    if n >= 0 {
        assert(n * den == m * den);
    } else {
        assert(-(n * den) == m * den) by (nonlinear_arith)
            requires
                m == -n,
        ;
        assert(n * den < 0 || n * den == 0) by (nonlinear_arith)
            requires
                n < 0,
                den > 0,
        ;
        assert(n * den != 0) by (nonlinear_arith)
            requires
                n < 0,
                den > 0,
        ;
    }
}

/// Rounding twice is rounding once: the rounded value, taken again as a
/// number of units, rounds to itself.
pub proof fn lemma_round_is_idempotent(num: int, den: int)
    requires
        den > 0,
    ensures
        round_half_away(round_half_away(num, den) * den, den) == round_half_away(num, den),
{
    lemma_round_of_whole(round_half_away(num, den), den);
}

/// The magnitude of the rounded quotient never exceeds that of the
/// numerator.
pub proof fn lemma_round_magnitude(num: int, den: int)
    requires
        den > 0,
    ensures
        num >= 0 ==> 0 <= round_half_away(num, den) <= num,
        num <= 0 ==> num <= round_half_away(num, den) <= 0,
{
    let m = if num >= 0 { num } else { -num };
    let q = (2 * m + den) / (2 * den);
    lemma_fundamental_div_mod(2 * m + den, 2 * den);
    lemma_mod_bound(2 * m + den, 2 * den);
    assert(0 <= q <= m) by (nonlinear_arith)
        requires
            (2 * den) * q <= 2 * m + den,
            2 * m + den < (2 * den) * q + 2 * den,
            m >= 0,
            den > 0,
    ;
}

/// Half a turn, in either direction, is exactly 180 degrees, and no angle is
/// exactly none.
pub proof fn lemma_half_turn()
    ensures
        degrees_e5(HALF_TURN_SEMICIRCLES as int) == HALF_TURN_UNITS,
        degrees_e5(0) == 0,
        degrees_e5(-HALF_TURN_SEMICIRCLES) == -HALF_TURN_UNITS,
{
    lemma_degrees_unfold(HALF_TURN_SEMICIRCLES as int);
    lemma_degrees_unfold(0);
    lemma_degrees_unfold(-HALF_TURN_SEMICIRCLES);
}

/// The conversion written out over its constants.
pub proof fn lemma_degrees_unfold(semicircles: int)
    ensures
        degrees_e5(semicircles) == if semicircles >= 0 {
            (36_000_000 * semicircles + 0x8000_0000) / 0x1_0000_0000
        } else {
            -((0x8000_0000 - 36_000_000 * semicircles) / 0x1_0000_0000)
        },
{
    assert(HALF_TURN_UNITS == 18_000_000);
    assert(HALF_TURN_SEMICIRCLES == 0x8000_0000);
    assert(2 * (HALF_TURN_SEMICIRCLES as int) == 0x1_0000_0000);
}

/// The result is within 180 degrees either way exactly when the angle is
/// within half a turn, give or take the 59 semicircles that round back onto
/// 180 degrees. Every 32-bit angle is in that range.
pub proof fn lemma_degrees_within_half_turn(semicircles: int)
    ensures
        -0x8000_003b <= semicircles <= 0x8000_003b <==> -HALF_TURN_UNITS <= degrees_e5(
            semicircles,
        ) <= HALF_TURN_UNITS,
        i32::MIN <= semicircles <= i32::MAX ==> -HALF_TURN_UNITS <= degrees_e5(semicircles)
            <= HALF_TURN_UNITS,
{
    lemma_degrees_unfold(semicircles);
}

/// The result is within 90 degrees either way exactly when the angle is
/// within a quarter turn, give or take the 59 semicircles that round back
/// onto 90 degrees.
pub proof fn lemma_degrees_within_quarter_turn(semicircles: int)
    ensures
        -0x4000_003b <= semicircles <= 0x4000_003b <==> -9_000_000 <= degrees_e5(semicircles)
            <= 9_000_000,
{
    lemma_degrees_unfold(semicircles);
}

/// Divides and rounds to the nearest integer, a tie going away from zero,
/// on operands of up to 96 bits.
pub fn round_div_wide(num: i128, den: i128) -> (q: i128)
    requires
        0 < den <= WIDE_LIMIT,
        -WIDE_LIMIT <= num <= WIDE_LIMIT,
    ensures
        q == round_half_away(num as int, den as int),
{
    if num >= 0 {
        (2 * num + den) / (2 * den)
    } else {
        let m: i128 = -num;
        let q: i128 = (2 * m + den) / (2 * den);
        proof {
            lemma_round_magnitude(num as int, den as int);
        }
        -q
    }
}

/// Divides and rounds to the nearest integer, a tie going away from zero.
pub fn round_div(num: i64, den: i64) -> (q: i64)
    requires
        den > 0,
    ensures
        q == round_half_away(num as int, den as int),
{
    let q: i128 = round_div_wide(num as i128, den as i128);
    proof {
        lemma_round_magnitude(num as int, den as int);
    }
    q as i64
}

/// Converts an angle from semicircles to hundred-thousandths of a degree.
pub fn semicircles_to_degrees_e5(semicircles: i64) -> (units: i64)
    ensures
        units == degrees_e5(semicircles as int),
{
    let num: i128 = semicircles as i128 * 18_000_000;
    let q: i128 = round_div_wide(num, HALF_TURN_SEMICIRCLES as i128);
    proof {
        lemma_degrees_unfold(semicircles as int);
    }
    q as i64
}

} // verus!
