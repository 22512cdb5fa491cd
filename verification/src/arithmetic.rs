//! Single-precision arithmetic on bit patterns.
//!
//! Each operation is stated over the exact values of its operands: the result
//! of a sum, a difference or a product of two numbers is the pattern nearest to
//! the exact result, a tie going to the even significand. An operation on a NaN
//! gives the quiet NaN [`NAN`]; the infinities and the signs of zero follow
//! IEEE 754.
use crate::single::{
    bit_length, is_finite, is_infinite, is_nan, is_negative, is_zero, lemma_bit_length_above,
    lemma_bit_length_below, lemma_fields, lemma_round_exact, lemma_round_scaling, magnitude,
    magnitude_bits, pow2_u64, quantum, round_half_even, round_pack, round_to_single,
    rounded_steps, scale, sign_bit, significand, unpack, value, INFINITY, NAN, SIGN,
};
use vstd::arithmetic::mul::{lemma_mul_is_associative, lemma_mul_is_commutative};
use vstd::arithmetic::div_mod::lemma_fundamental_div_mod_converse;
use vstd::arithmetic::power2::{
    lemma2_to64, lemma_pow2_adds, lemma_pow2_pos, lemma_pow2_strictly_increases,
    lemma_pow2_unfold, pow2,
};
use vstd::prelude::*;

verus! {

/// The pattern with its sign bit cleared.
pub open spec fn single_abs(bits: u32) -> u32 {
    magnitude_bits(bits) as u32
}

/// The pattern with its sign bit flipped.
pub open spec fn single_negation(bits: u32) -> u32 {
    if is_negative(bits) {
        (bits - SIGN) as u32
    } else {
        (bits + SIGN) as u32
    }
}

/// The sign bit of a product or a quotient: set where the signs differ.
pub open spec fn product_sign(a: u32, b: u32) -> u32 {
    if is_negative(a) != is_negative(b) {
        SIGN
    } else {
        0
    }
}

/// The product of two patterns. For two numbers it is the exact product of
/// their magnitudes, which counts units of 2^-298, rounded to a pattern.
pub open spec fn single_product(a: u32, b: u32) -> u32 {
    if is_nan(a) || is_nan(b) {
        NAN
    } else if is_infinite(a) || is_infinite(b) {
        if is_zero(a) || is_zero(b) {
            NAN
        } else {
            (product_sign(a, b) + INFINITY) as u32
        }
    } else {
        (product_sign(a, b) + round_to_single(magnitude(a) * magnitude(b), -149)) as u32
    }
}

/// The absolute value: the sign bit is cleared, also on a NaN.
pub fn abs_single(bits: u32) -> (result: u32)
    ensures
        result == single_abs(bits),
{
    bits % 0x8000_0000
}

/// The negation: the sign bit is flipped, also on a NaN.
pub fn neg_single(bits: u32) -> (result: u32)
    ensures
        result == single_negation(bits),
{
    if bits >= SIGN {
        bits - SIGN
    } else {
        bits + SIGN
    }
}

/// The product of two patterns, rounded to nearest, ties to even.
pub fn mul_single(a: u32, b: u32) -> (result: u32)
    ensures
        result == single_product(a, b),
{
    let sign: u32 = if (a >= SIGN) != (b >= SIGN) {
        SIGN
    } else {
        0
    };
    let a_rest: u32 = a % 0x8000_0000;
    let b_rest: u32 = b % 0x8000_0000;
    if a_rest > INFINITY || b_rest > INFINITY {
        return NAN;
    }
    if a_rest == INFINITY || b_rest == INFINITY {
        if a_rest == 0 || b_rest == 0 {
            return NAN;
        }
        return sign + INFINITY;
    }
    let (a_significand, a_scale) = unpack(a);
    let (b_significand, b_scale) = unpack(b);
    proof {
        let n = significand(a) * significand(b);
        lemma_fields(a);
        lemma_fields(b);
        lemma_pow2_adds(scale(a), scale(b));
        assert(magnitude(a) * magnitude(b) == n * pow2(scale(a) + scale(b))) by (nonlinear_arith)
            requires
                magnitude(a) == significand(a) * pow2(scale(a)),
                magnitude(b) == significand(b) * pow2(scale(b)),
                pow2(scale(a) + scale(b)) == pow2(scale(a)) * pow2(scale(b)),
                n == significand(a) * significand(b),
        ;
        lemma_round_scaling(n, scale(a) + scale(b), -149);
        assert(n < 0x1_0000_0000_0000) by (nonlinear_arith)
            requires
                n == significand(a) * significand(b),
                significand(a) < 0x100_0000,
                significand(b) < 0x100_0000,
        ;
    }
    let rounded: u32 = round_pack(a_significand * b_significand, a_scale + b_scale - 149);
    sign + rounded
}

/// The least whole number of steps of `2^k` that is not below `n`.
pub open spec fn div_up(n: nat, k: nat) -> nat {
    if n % pow2(k) == 0 {
        n / pow2(k)
    } else {
        n / pow2(k) + 1
    }
}

/// The magnitude of a number, in whole units of 1, cut off towards zero or
/// taken away from zero.
pub open spec fn whole_magnitude(bits: u32, away: bool) -> nat {
    if away {
        div_up(magnitude(bits), 149)
    } else {
        magnitude(bits) / pow2(149)
    }
}

/// The greatest whole number that is not above the pattern's value, as a
/// pattern. The sign bit stays, so a number in `[0, 1)` gives `+0` and `-0`
/// gives `-0`. An infinity gives itself.
pub open spec fn single_floor(bits: u32) -> u32 {
    if is_nan(bits) {
        NAN
    } else if is_infinite(bits) {
        bits
    } else {
        (sign_bit(bits) + round_to_single(whole_magnitude(bits, is_negative(bits)), 149)) as u32
    }
}

/// The least whole number that is not below the pattern's value, as a
/// pattern. The sign bit stays, so a number in `(-1, 0]` gives `-0`. An
/// infinity gives itself.
pub open spec fn single_ceil(bits: u32) -> u32 {
    if is_nan(bits) {
        NAN
    } else if is_infinite(bits) {
        bits
    } else {
        (sign_bit(bits) + round_to_single(whole_magnitude(bits, !is_negative(bits)), 149)) as u32
    }
}

/// Counting a magnitude in units of 1 is counting its significand in steps
/// of `2^k`, where `k` is what the scale lacks to 149.
proof fn lemma_whole_units(bits: u32, k: nat)
    requires
        scale(bits) + k == 149,
    ensures
        magnitude(bits) / pow2(149) == significand(bits) / pow2(k),
        (magnitude(bits) % pow2(149) == 0) == (significand(bits) % pow2(k) == 0),
{
    let c = pow2(scale(bits)) as int;
    let d = pow2(k) as int;
    let n = significand(bits) as int;
    lemma_pow2_pos(scale(bits));
    lemma_pow2_pos(k);
    lemma_pow2_adds(scale(bits), k);
    vstd::arithmetic::div_mod::lemma_div_multiples_vanish_quotient(c, n, d);
    vstd::arithmetic::div_mod::lemma_truncate_middle(n, c, d);
    lemma_mul_is_commutative(c, n);
    assert((c * (n % d) == 0) == (n % d == 0)) by (nonlinear_arith)
        requires
            c > 0,
    ;
}

/// The whole number next to a finite pattern's value, towards zero or away
/// from it.
fn round_to_whole(bits: u32, away: bool) -> (result: u32)
    requires
        is_finite(bits),
    ensures
        result == sign_bit(bits) + round_to_single(whole_magnitude(bits, away), 149),
{
    let sign: u32 = if bits >= SIGN {
        SIGN
    } else {
        0
    };
    let (significand, scale) = unpack(bits);
    proof {
        lemma_fields(bits);
        lemma2_to64();
    }
    if scale >= 149 {
        proof {
            let up = (scale - 149) as nat;
            let whole = significand as nat * pow2(up);
            lemma_pow2_adds(up, 149);
            lemma_pow2_pos(149);
            lemma_mul_is_associative(significand as int, pow2(up) as int, pow2(149) as int);
            vstd::arithmetic::div_mod::lemma_fundamental_div_mod_converse(
                magnitude(bits) as int,
                pow2(149) as int,
                whole as int,
                0,
            );
            lemma_round_scaling(significand as nat, up, 149);
            lemma_round_exact(bits);
        }
        return bits;
    }
    let k: u32 = (149 - scale) as u32;
    let whole_down: u64;
    let exact: bool;
    if k >= 64 {
        proof {
            vstd::arithmetic::power2::lemma_pow2_strictly_increases(24, k as nat);
            vstd::arithmetic::div_mod::lemma_small_mod(significand as nat, pow2(k as nat));
            vstd::arithmetic::div_mod::lemma_basic_div(significand as int, pow2(k as nat) as int);
        }
        whole_down = 0;
        exact = significand == 0;
    } else {
        let unit: u64 = pow2_u64(k);
        whole_down = significand / unit;
        exact = significand % unit == 0;
    }
    proof {
        lemma_whole_units(bits, k as nat);
    }
    let whole: u64 = if away && !exact {
        whole_down + 1
    } else {
        whole_down
    };
    let rounded: u32 = round_pack(whole, 149);
    sign + rounded
}

/// The greatest whole number that is not above the value.
pub fn floor_single(bits: u32) -> (result: u32)
    ensures
        result == single_floor(bits),
{
    let rest: u32 = bits % 0x8000_0000;
    if rest > INFINITY {
        NAN
    } else if rest == INFINITY {
        bits
    } else {
        round_to_whole(bits, bits >= SIGN)
    }
}

/// The least whole number that is not below the value.
pub fn ceil_single(bits: u32) -> (result: u32)
    ensures
        result == single_ceil(bits),
{
    let rest: u32 = bits % 0x8000_0000;
    if rest > INFINITY {
        NAN
    } else if rest == INFINITY {
        bits
    } else {
        round_to_whole(bits, bits < SIGN)
    }
}

/// The sum of two patterns. For two numbers it is their exact sum, rounded to
/// a pattern; an exact zero is `+0` unless both operands are negative.
pub open spec fn single_sum(a: u32, b: u32) -> u32 {
    if is_nan(a) || is_nan(b) {
        NAN
    } else if is_infinite(a) {
        if is_infinite(b) && is_negative(a) != is_negative(b) {
            NAN
        } else {
            a
        }
    } else if is_infinite(b) {
        b
    } else {
        let total = value(a) + value(b);
        if total == 0 {
            if is_negative(a) && is_negative(b) {
                SIGN
            } else {
                0
            }
        } else if total < 0 {
            (SIGN + round_to_single((-total) as nat, 0)) as u32
        } else {
            round_to_single(total as nat, 0)
        }
    }
}

/// The difference of two patterns: the sum of the first and the negation of
/// the second.
pub open spec fn single_difference(a: u32, b: u32) -> u32 {
    single_sum(a, single_negation(b))
}

/// A normal significand `s`, scaled by `2^d`, absorbs a correction `t` that
/// is small against the rounding step: `s * 2^d + t` and `s * 2^d - t` both
/// round to the pattern of `s * 2^d`.
proof fn lemma_round_absorbs(s: nat, d: nat, t: nat, plus: bool, e: nat)
    requires
        0x80_0000 <= s < 0x100_0000,
        d >= 26,
        t < 0x100_0000,
        d + e <= 253,
    ensures
        s * pow2(d) >= t,
        round_to_single(
            if plus {
                s * pow2(d) + t
            } else {
                (s * pow2(d) - t) as nat
            },
            e as int,
        ) == (d + e) * 0x80_0000 + s,
{
    lemma2_to64();
    let top = pow2(d);
    let half = pow2((d - 1) as nat);
    lemma_pow2_unfold(d);
    if d > 26 {
        lemma_pow2_strictly_increases(25, (d - 1) as nat);
    }
    assert(half >= 0x200_0000);
    assert(top == 2 * half);
    lemma_pow2_adds(23, d);
    lemma_pow2_adds(24, d);
    lemma_pow2_adds(23, (d - 1) as nat);
    lemma_pow2_adds(24, (d - 1) as nat);
    let base = s * top;
    assert(0x80_0000 * top <= base && base + top <= 0x100_0000 * top) by (nonlinear_arith)
        requires
            base == s * top,
            0x80_0000 <= s < 0x100_0000,
            top > 0,
    ;
    if plus || t == 0 || s > 0x80_0000 {
        let total: nat = if plus {
            base + t
        } else {
            (base - t) as nat
        };
        assert(s > 0x80_0000 ==> base >= 0x80_0000 * top + top) by (nonlinear_arith)
            requires
                base == s * top,
                0x80_0000 <= s < 0x100_0000,
                top > 0,
        ;
        assert(pow2(23 + d) <= total < pow2(24 + d));
        lemma_bit_length_above(total, 23 + d);
        lemma_bit_length_below(total, 24 + d);
        assert(bit_length(total) == 24 + d);
        assert(quantum(total, e as int) == d + e);
        if plus || t == 0 {
            let rest: nat = if plus {
                t
            } else {
                0
            };
            lemma_fundamental_div_mod_converse(total as int, top as int, s as int, rest as int);
            assert(round_half_even(total, d) == s);
        } else {
            assert(total == (s - 1) * top + (top - t)) by (nonlinear_arith)
                requires
                    total == s * top - t,
            ;
            lemma_fundamental_div_mod_converse(
                total as int,
                top as int,
                (s - 1) as int,
                (top - t) as int,
            );
            assert(round_half_even(total, d) == s);
        }
        assert(rounded_steps(total, e as int) == s);
    } else {
        let total = (base - t) as nat;
        assert(base == 0x100_0000 * half) by (nonlinear_arith)
            requires
                base == s * top,
                s == 0x80_0000,
                top == 2 * half,
        ;
        assert(pow2((22 + d) as nat) <= total < pow2((23 + d) as nat));
        lemma_bit_length_above(total, (22 + d) as nat);
        lemma_bit_length_below(total, (23 + d) as nat);
        assert(bit_length(total) == 23 + d);
        assert(quantum(total, e as int) == d + e - 1);
        assert(total == 0xFF_FFFF * half + (half - t)) by (nonlinear_arith)
            requires
                total == 0x100_0000 * half - t,
        ;
        lemma_fundamental_div_mod_converse(
            total as int,
            half as int,
            0xFF_FFFF,
            (half - t) as int,
        );
        assert(round_half_even(total, (d - 1) as nat) == 0x100_0000);
        assert(rounded_steps(total, e as int) == 0x100_0000);
    }
}

/// Of two finite patterns, the one with the larger bits has the larger
/// magnitude: its scale is not below the other's, and where the scales are
/// equal its significand is not below the other's.
proof fn lemma_ordered(x: u32, y: u32)
    requires
        magnitude_bits(x) >= magnitude_bits(y),
    ensures
        scale(x) >= scale(y),
        scale(x) == scale(y) ==> significand(x) >= significand(y),
{
    lemma_fields(x);
    lemma_fields(y);
}

/// The sum of two numbers of which the first has the larger magnitude.
fn add_ordered(x: u32, y: u32) -> (result: u32)
    requires
        is_finite(x),
        is_finite(y),
        magnitude_bits(x) >= magnitude_bits(y),
    ensures
        result == single_sum(x, y),
{
    let (x_significand, x_scale) = unpack(x);
    let (y_significand, y_scale) = unpack(y);
    let x_negative: bool = x >= SIGN;
    let y_negative: bool = y >= SIGN;
    let x_sign: u32 = if x_negative {
        SIGN
    } else {
        0
    };
    proof {
        lemma2_to64();
        lemma_fields(x);
        lemma_fields(y);
        lemma_ordered(x, y);
    }
    let gap: i32 = x_scale - y_scale;
    let ghost low = pow2(y_scale as nat);
    let ghost lift = pow2(gap as nat);
    proof {
        lemma_pow2_pos(y_scale as nat);
        lemma_pow2_pos(gap as nat);
        lemma_pow2_adds(gap as nat, y_scale as nat);
        assert(magnitude(x) == (x_significand * lift) * low) by (nonlinear_arith)
            requires
                magnitude(x) == x_significand * pow2(x_scale as nat),
                pow2(x_scale as nat) == lift * low,
        ;
    }
    if gap > 38 {
        proof {
            let wide = x_significand as nat * lift;
            let plus = x_negative == y_negative;
            lemma_round_absorbs(
                x_significand as nat,
                gap as nat,
                y_significand as nat,
                plus,
                y_scale as nat,
            );
            let n: nat = if plus {
                wide + y_significand as nat
            } else {
                (wide - y_significand) as nat
            };
            assert(n > 0);
            lemma_round_scaling(n, y_scale as nat, 0);
            assert(n * low > 0) by (nonlinear_arith)
                requires
                    n > 0,
                    low > 0,
            ;
            assert((wide + y_significand) * low == wide * low + y_significand * low)
                by (nonlinear_arith);
            assert((wide - y_significand) * low == wide * low - y_significand * low)
                by (nonlinear_arith);
        }
        return x;
    }
    proof {
        if gap < 38 {
            lemma_pow2_strictly_increases(gap as nat, 38);
        }
        vstd::arithmetic::power2::lemma2_to64_rest();
        lemma_pow2_adds(24, 38);
        assert(x_significand * lift < 0x4000_0000_0000_0000) by (nonlinear_arith)
            requires
                x_significand < 0x100_0000,
                0 < lift <= 0x40_0000_0000,
        ;
        if gap > 0 {
            lemma_pow2_strictly_increases(0, gap as nat);
            assert(x_significand * lift >= 0x100_0000) by (nonlinear_arith)
                requires
                    x_significand >= 0x80_0000,
                    lift >= 2,
            ;
        } else {
            assert(x_significand * lift == x_significand) by (nonlinear_arith)
                requires
                    lift == 1,
            ;
        }
    }
    let wide: u64 = x_significand * pow2_u64(gap as u32);
    let n: u64 = if x_negative == y_negative {
        wide + y_significand
    } else {
        wide - y_significand
    };
    proof {
        lemma_round_scaling(n as nat, y_scale as nat, 0);
        assert((wide + y_significand) * low == wide * low + y_significand * low)
            by (nonlinear_arith);
        assert((wide - y_significand) * low == wide * low - y_significand * low)
            by (nonlinear_arith);
        assert(n > 0 ==> n * low > 0) by (nonlinear_arith)
            requires
                low > 0,
        ;
        assert(n == 0 ==> n * low == 0) by (nonlinear_arith);
    }
    if n == 0 {
        if x_negative && y_negative {
            return SIGN;
        }
        return 0;
    }
    let rounded: u32 = round_pack(n, y_scale);
    x_sign + rounded
}

/// The sum of two patterns, rounded to nearest, ties to even.
pub fn add_single(a: u32, b: u32) -> (result: u32)
    ensures
        result == single_sum(a, b),
{
    let a_rest: u32 = a % 0x8000_0000;
    let b_rest: u32 = b % 0x8000_0000;
    if a_rest > INFINITY || b_rest > INFINITY {
        return NAN;
    }
    if a_rest == INFINITY {
        if b_rest == INFINITY && (a >= SIGN) != (b >= SIGN) {
            return NAN;
        }
        return a;
    }
    if b_rest == INFINITY {
        return b;
    }
    if a_rest >= b_rest {
        add_ordered(a, b)
    } else {
        add_ordered(b, a)
    }
}

/// The difference of two patterns, rounded to nearest, ties to even.
pub fn sub_single(a: u32, b: u32) -> (result: u32)
    ensures
        result == single_difference(a, b),
{
    add_single(a, neg_single(b))
}

} // verus!
