//! Single-precision division on bit patterns.
//!
//! The quotient of two numbers is a ratio of two integers, which no finite
//! binary expansion need hit. This module states what the nearest pattern to a
//! ratio is, and proves that a truncated quotient with one more bit, set where
//! anything was cut off, rounds to that pattern.
use crate::arithmetic::product_sign;
use crate::single::{
    bit_length, bit_length_u64, is_infinite, is_nan, is_zero, lemma_bit_length_above,
    lemma_bit_length_below, lemma_bit_length_bounds, lemma_fields, magnitude, pow2_u64, quantum,
    round_half_even, round_pack, round_to_single, rounded_steps, unpack, INFINITY, NAN, SIGN,
};
use vstd::arithmetic::div_mod::{
    lemma_div_denominator, lemma_div_multiples_vanish_quotient, lemma_fundamental_div_mod,
    lemma_fundamental_div_mod_converse, lemma_truncate_middle,
};
use vstd::arithmetic::mul::{lemma_mul_is_associative, lemma_mul_is_commutative};
use vstd::arithmetic::power2::{
    lemma2_to64, lemma2_to64_rest, lemma_pow2_adds, lemma_pow2_pos, lemma_pow2_unfold, pow2,
};
use vstd::prelude::*;

verus! {

/// `a / b` rounded to the nearest integer, a tie going to the even one.
pub open spec fn round_ratio_half_even(a: nat, b: nat) -> nat {
    let whole = a / b;
    let rest = a % b;
    if 2 * rest > b || (2 * rest == b && whole % 2 == 1) {
        whole + 1
    } else {
        whole
    }
}

/// The positive pattern nearest to `n / d` units of 2^-149, a tie going to the
/// pattern with an even significand, and infinity where the rounded magnitude
/// is beyond the largest finite one.
pub open spec fn round_ratio_to_single(n: nat, d: nat) -> u32 {
    let q = quantum(n / d, 0);
    let packed = q * 0x80_0000 + round_ratio_half_even(n, d * pow2(q));
    if n == 0 {
        0
    } else if packed >= 0x7F80_0000 {
        INFINITY
    } else {
        packed as u32
    }
}

/// The quotient of two patterns. For two numbers, the divisor not zero, it is
/// the exact ratio of their magnitudes, rounded to a pattern.
pub open spec fn single_quotient(a: u32, b: u32) -> u32 {
    if is_nan(a) || is_nan(b) {
        NAN
    } else if is_infinite(a) {
        if is_infinite(b) {
            NAN
        } else {
            (product_sign(a, b) + INFINITY) as u32
        }
    } else if is_infinite(b) {
        product_sign(a, b)
    } else if is_zero(b) {
        if is_zero(a) {
            NAN
        } else {
            (product_sign(a, b) + INFINITY) as u32
        }
    } else {
        (product_sign(a, b) + round_ratio_to_single(magnitude(a) * pow2(149), magnitude(b))) as u32
    }
}

/// Rounding a ratio does not change when both terms are scaled alike.
pub proof fn lemma_ratio_half_even_scaled(a: nat, b: nat, c: nat)
    requires
        b > 0,
        c > 0,
    ensures
        round_ratio_half_even(a * c, b * c) == round_ratio_half_even(a, b),
{
    lemma_div_multiples_vanish_quotient(c as int, a as int, b as int);
    lemma_truncate_middle(a as int, c as int, b as int);
    lemma_mul_is_commutative(c as int, a as int);
    lemma_mul_is_commutative(c as int, b as int);
    let rest = (a as int) % (b as int);
    assert((a * c) as int == c * a);
    assert((b * c) as int == c * b);
    assert((c * a) / (c * b) == (a as int) / (b as int));
    assert((c * a) % (c * b) == c * rest);
    assert((2 * (c * rest) > c * b) == (2 * rest > b)) by (nonlinear_arith)
        requires
            c > 0,
    ;
    assert((2 * (c * rest) == c * b) == (2 * rest == b)) by (nonlinear_arith)
        requires
            c > 0,
    ;
}

/// The nearest pattern to a ratio does not change when both terms are scaled
/// alike.
pub proof fn lemma_ratio_scaled(n: nat, d: nat, c: nat)
    requires
        d > 0,
        c > 0,
    ensures
        round_ratio_to_single(n * c, d * c) == round_ratio_to_single(n, d),
{
    lemma_div_multiples_vanish_quotient(c as int, n as int, d as int);
    lemma_mul_is_commutative(c as int, n as int);
    lemma_mul_is_commutative(c as int, d as int);
    assert((n * c) / (d * c) == n / d);
    let q = quantum(n / d, 0);
    lemma_pow2_pos(q);
    let wide = d * pow2(q);
    assert(wide > 0) by (nonlinear_arith)
        requires
            d > 0,
            pow2(q) > 0,
            wide == d * pow2(q),
    ;
    lemma_ratio_half_even_scaled(n, wide, c);
    assert((d * c) * pow2(q) == wide * c) by (nonlinear_arith)
        requires
            wide == d * pow2(q),
    ;
    assert((n * c == 0) == (n == 0)) by (nonlinear_arith)
        requires
            c > 0,
    ;
}

/// Every number from `low * 2^k` up to, not including, `(low + 1) * 2^k` has
/// `k` binary digits more than `low`.
pub proof fn lemma_bit_length_range(x: nat, low: nat, k: nat)
    requires
        low > 0,
        low * pow2(k) <= x < (low + 1) * pow2(k),
    ensures
        bit_length(x) == bit_length(low) + k,
{
    let len = bit_length(low);
    lemma_bit_length_bounds(low);
    lemma_pow2_pos(k);
    lemma_pow2_adds((len - 1) as nat, k);
    lemma_pow2_adds(len, k);
    assert(pow2((len - 1) as nat) * pow2(k) <= low * pow2(k)) by (nonlinear_arith)
        requires
            pow2((len - 1) as nat) <= low,
    ;
    assert((low + 1) * pow2(k) <= pow2(len) * pow2(k)) by (nonlinear_arith)
        requires
            low + 1 <= pow2(len),
    ;
    lemma_bit_length_above(x, (len - 1 + k) as nat);
    lemma_bit_length_below(x, len + k);
}

/// Cutting `k` binary digits off a number leaves `k` digits fewer, or none.
pub proof fn lemma_bit_length_cut(x: nat, k: nat)
    ensures
        bit_length(x / pow2(k)) == if bit_length(x) >= k {
            (bit_length(x) - k) as nat
        } else {
            0
        },
{
    lemma_pow2_pos(k);
    let cut = x / pow2(k);
    lemma_fundamental_div_mod(x as int, pow2(k) as int);
    lemma_bit_length_bounds(x);
    if cut > 0 {
        assert(cut * pow2(k) <= x < (cut + 1) * pow2(k)) by (nonlinear_arith)
            requires
                x == pow2(k) * cut + x % pow2(k),
                0 <= x % pow2(k) < pow2(k),
        ;
        lemma_bit_length_range(x, cut, k);
    } else {
        assert(x < pow2(k)) by (nonlinear_arith)
            requires
                x == pow2(k) * cut + x % pow2(k),
                0 <= x % pow2(k) < pow2(k),
                cut == 0,
        ;
        lemma_bit_length_below(x, k);
        if bit_length(x) == k {
            if k > 0 {
                assert(pow2((k - 1) as nat) <= x);
                lemma_pow2_unfold(k);
            }
        }
    }
}

/// The heart of division: let `whole` be `a / b` cut off, and let `jammed` be
/// `whole` with one more bit below, set where `b` does not divide `a`. Then
/// `a` in steps of `b * 2^k` and `jammed` in steps of `2^(k + 1)` round to the
/// same number of steps, for every `k` of at least one.
pub proof fn lemma_jammed_steps(a: nat, b: nat, k: nat)
    requires
        b > 0,
        k >= 1,
    ensures
        round_ratio_half_even(a, b * pow2(k)) == round_half_even(
            2 * (a / b) + if a % b > 0 {
                1nat
            } else {
                0nat
            },
            k + 1,
        ),
{
    let whole = a / b;
    let rest = a % b;
    let sticky: nat = if rest > 0 {
        1
    } else {
        0
    };
    let jammed = 2 * whole + sticky;
    let step = pow2(k);
    let half = pow2((k - 1) as nat);
    lemma_pow2_pos(k);
    lemma_pow2_pos((k - 1) as nat);
    lemma_pow2_unfold(k);
    lemma_pow2_unfold(k + 1);
    let upper = whole / step;
    let lower = whole % step;
    lemma_fundamental_div_mod(a as int, b as int);
    lemma_fundamental_div_mod(whole as int, step as int);
    assert(a == upper * (b * step) + (lower * b + rest)) by (nonlinear_arith)
        requires
            a == b * whole + rest,
            whole == step * upper + lower,
    ;
    assert(lower * b + rest < b * step) by (nonlinear_arith)
        requires
            lower + 1 <= step,
            rest < b,
    ;
    assert(b * step > 0) by (nonlinear_arith)
        requires
            b > 0,
            step > 0,
    ;
    lemma_fundamental_div_mod_converse(
        a as int,
        (b * step) as int,
        upper as int,
        (lower * b + rest) as int,
    );
    assert(jammed == upper * (2 * step) + (2 * lower + sticky)) by (nonlinear_arith)
        requires
            jammed == 2 * whole + sticky,
            whole == step * upper + lower,
    ;
    lemma_fundamental_div_mod_converse(
        jammed as int,
        (2 * step) as int,
        upper as int,
        (2 * lower + sticky) as int,
    );
    assert(pow2(k + 1) == 2 * step);
    assert(step == 2 * half);
    let left = 2 * (lower * b + rest);
    let right = b * step;
    if lower > half {
        assert(left > right) by (nonlinear_arith)
            requires
                left == 2 * (lower * b + rest),
                right == b * step,
                step == 2 * half,
                lower >= half + 1,
                b > 0,
        ;
    } else if lower == half {
        assert(left == right + 2 * rest) by (nonlinear_arith)
            requires
                left == 2 * (lower * b + rest),
                right == b * step,
                step == 2 * half,
                lower == half,
        ;
    } else {
        assert(left < right) by (nonlinear_arith)
            requires
                left == 2 * (lower * b + rest),
                right == b * step,
                step == 2 * half,
                lower + 1 <= half,
                rest < b,
        ;
    }
}

/// A scaled number, scaled again, is scaled by the sum.
proof fn lemma_scale_twice(n: nat, x: nat, y: nat)
    ensures
        (n * pow2(x)) * pow2(y) == n * pow2(x + y),
{
    lemma_pow2_adds(x, y);
    lemma_mul_is_associative(n as int, pow2(x) as int, pow2(y) as int);
}

/// Division by way of a jammed quotient: where `a / b` has at least 38
/// binary digits, the nearest pattern to `(a / b) * 2^e` is the nearest
/// pattern to the jammed quotient times `2^(e - 1)`.
pub proof fn lemma_quotient_jammed(a: nat, b: nat, e: int)
    requires
        b > 0,
        a / b >= pow2(37),
    ensures
        round_ratio_to_single(
            a * pow2(
                if e >= 0 {
                    e as nat
                } else {
                    0
                },
            ),
            b * pow2(
                if e < 0 {
                    (-e) as nat
                } else {
                    0
                },
            ),
        ) == round_to_single(
            2 * (a / b) + if a % b > 0 {
                1nat
            } else {
                0nat
            },
            e - 1,
        ),
{
    lemma2_to64();
    let whole = a / b;
    let rest = a % b;
    let sticky: nat = if rest > 0 {
        1
    } else {
        0
    };
    let jammed = 2 * whole + sticky;
    let up: nat = if e >= 0 {
        e as nat
    } else {
        0
    };
    let down: nat = if e < 0 {
        (-e) as nat
    } else {
        0
    };
    let n = a * pow2(up);
    let d = b * pow2(down);
    lemma_pow2_pos(up);
    lemma_pow2_pos(down);
    lemma_pow2_pos(37);
    lemma_fundamental_div_mod(a as int, b as int);
    lemma_bit_length_above(whole, 37);
    assert(whole * pow2(1) <= jammed < (whole + 1) * pow2(1));
    lemma_bit_length_range(jammed, whole, 1);
    let q = quantum(jammed, e - 1);
    assert(q == if bit_length(whole) + e > 24 {
        (bit_length(whole) + e - 24) as nat
    } else {
        0
    });
    assert(a > 0) by (nonlinear_arith)
        requires
            a == b * whole + rest,
            whole > 0,
            b > 0,
            rest >= 0,
    ;
    assert(n > 0) by (nonlinear_arith)
        requires
            n == a * pow2(up),
            a > 0,
            pow2(up) > 0,
    ;
    assert(d > 0) by (nonlinear_arith)
        requires
            d == b * pow2(down),
            b > 0,
            pow2(down) > 0,
    ;
    // The whole part of the ratio has the digits that fix the same step.
    if e >= 0 {
        assert(d == b) by (nonlinear_arith)
            requires
                d == b * pow2(down),
                pow2(down) == 1,
        ;
        let lift = pow2(up);
        lemma_fundamental_div_mod(n as int, b as int);
        let ratio = n / b;
        assert(whole * lift <= ratio < (whole + 1) * lift) by (nonlinear_arith)
            requires
                n == a * lift,
                a == b * whole + rest,
                0 <= rest < b,
                n == b * ratio + n % b,
                0 <= n % b < b,
                lift > 0,
                b > 0,
        ;
        lemma_bit_length_range(ratio, whole, up);
    } else {
        assert(n == a) by (nonlinear_arith)
            requires
                n == a * pow2(up),
                pow2(up) == 1,
        ;
        lemma_div_denominator(a as int, b as int, pow2(down) as int);
        lemma_bit_length_cut(whole, down);
    }
    assert(quantum(n / d, 0) == q);
    // Both round in steps of 2^k above the ratio's own unit.
    let k = (q - e) as nat;
    assert(k >= 14);
    lemma_pow2_pos(q);
    lemma_pow2_pos(k);
    if e >= 0 {
        lemma_pow2_adds(k, up);
        let step = b * pow2(k);
        assert(step > 0) by (nonlinear_arith)
            requires
                step == b * pow2(k),
                b > 0,
                pow2(k) > 0,
        ;
        lemma_ratio_half_even_scaled(a, step, pow2(up));
        lemma_scale_twice(b, k, up);
        assert(d * pow2(q) == step * pow2(up));
    } else {
        lemma_scale_twice(b, down, q);
        assert(d * pow2(q) == b * pow2(k));
    }
    assert(round_ratio_half_even(n, d * pow2(q)) == round_ratio_half_even(a, b * pow2(k)));
    lemma_jammed_steps(a, b, k);
    assert(rounded_steps(jammed, e - 1) == round_half_even(jammed, k + 1));
}

/// The two roundings agree where both apply: a ratio whose divisor is a
/// power of two rounds as the same number written with a negative scale.
pub proof fn lemma_ratio_of_power(n: nat, k: nat)
    ensures
        round_ratio_to_single(n, pow2(k)) == round_to_single(n, -(k as int)),
{
    lemma2_to64();
    lemma_bit_length_cut(n, k);
    let q = quantum(n, -(k as int));
    assert(quantum(n / pow2(k), 0) == q);
    lemma_pow2_adds(k, q);
    assert(round_ratio_half_even(n, pow2(k) * pow2(q)) == round_half_even(n, k + q));
    if k == 0 && q == 0 {
        assert(n * pow2(0) == n) by (nonlinear_arith)
            requires
                pow2(0) == 1,
        ;
        assert(n / 1 == n && n % 1 == 0);
    }
}

/// A positive number below 2^24, shifted up by what its digits lack to 24,
/// lies in `[2^23, 2^24)`.
proof fn lemma_normalised(s: nat)
    requires
        0 < s < 0x100_0000,
    ensures
        bit_length(s) <= 24,
        0x80_0000 <= s * pow2((24 - bit_length(s)) as nat) < 0x100_0000,
{
    lemma2_to64();
    let len = bit_length(s);
    lemma_bit_length_bounds(s);
    lemma_bit_length_below(s, 24);
    let shift = (24 - len) as nat;
    lemma_pow2_pos(shift);
    lemma_pow2_adds(len, shift);
    lemma_pow2_adds((len - 1) as nat, shift);
    assert(0x80_0000 <= s * pow2(shift) < 0x100_0000) by (nonlinear_arith)
        requires
            pow2((len - 1) as nat) <= s < pow2(len),
            pow2(len) * pow2(shift) == 0x100_0000,
            pow2((len - 1) as nat) * pow2(shift) == 0x80_0000,
            pow2(shift) > 0,
    ;
}

/// The quotient of a number in `[2^61, 2^62)` by one in `[2^23, 2^24)` lies
/// in `[2^37, 2^39)`.
proof fn lemma_quotient_digits(wide: nat, b: nat)
    requires
        0x80_0000 <= b < 0x100_0000,
        pow2(61) <= wide < pow2(62),
    ensures
        pow2(37) <= wide / b < pow2(39),
        pow2(39) == 0x80_0000_0000,
{
    lemma2_to64();
    lemma2_to64_rest();
    lemma_pow2_adds(24, 37);
    lemma_pow2_adds(23, 39);
    lemma_pow2_adds(32, 7);
    lemma_fundamental_div_mod(wide as int, b as int);
    let whole = wide / b;
    let rest = wide % b;
    assert(pow2(37) <= whole < pow2(39)) by (nonlinear_arith)
        requires
            wide == b * whole + rest,
            0 <= rest < b,
            0x80_0000 <= b < 0x100_0000,
            pow2(61) <= wide < pow2(62),
            pow2(61) == 0x100_0000 * pow2(37),
            pow2(62) == 0x80_0000 * pow2(39),
    ;
}

/// The ratio of two magnitudes, over 2^-149, is the ratio of the normalised
/// significands, the first 38 digits wider, times a power of two.
proof fn lemma_same_ratio(sa: nat, qa: nat, la: nat, sb: nat, qb: nat, lb: nat, e: int)
    requires
        sb > 0,
        e == qa + 149 - la - qb + lb - 38,
    ensures
        round_ratio_to_single((sa * pow2(qa)) * pow2(149), sb * pow2(qb)) == round_ratio_to_single(
            ((sa * pow2(la)) * pow2(38)) * pow2(
                if e >= 0 {
                    e as nat
                } else {
                    0
                },
            ),
            (sb * pow2(lb)) * pow2(
                if e < 0 {
                    (-e) as nat
                } else {
                    0
                },
            ),
        ),
{
    let up: nat = if e >= 0 {
        e as nat
    } else {
        0
    };
    let down: nat = if e < 0 {
        (-e) as nat
    } else {
        0
    };
    let n1 = (sa * pow2(qa)) * pow2(149);
    let d1 = sb * pow2(qb);
    let n2 = ((sa * pow2(la)) * pow2(38)) * pow2(up);
    let d2 = (sb * pow2(lb)) * pow2(down);
    lemma_scale_twice(sa, qa, 149);
    lemma_scale_twice(sa, la, 38);
    lemma_scale_twice(sa, la + 38, up);
    lemma_scale_twice(sb, lb, down);
    lemma_pow2_pos(qb);
    lemma_pow2_pos(lb + down);
    assert(d1 > 0) by (nonlinear_arith)
        requires
            d1 == sb * pow2(qb),
            sb > 0,
            pow2(qb) > 0,
    ;
    assert(d2 > 0) by (nonlinear_arith)
        requires
            d2 == sb * pow2(lb + down),
            sb > 0,
            pow2(lb + down) > 0,
    ;
    let gain: int = la + 38 + up - qa - 149;
    assert(gain == lb + down - qb);
    if gain >= 0 {
        lemma_pow2_pos(gain as nat);
        lemma_scale_twice(sa, qa + 149, gain as nat);
        lemma_scale_twice(sb, qb, gain as nat);
        lemma_ratio_scaled(n1, d1, pow2(gain as nat));
    } else {
        lemma_pow2_pos((-gain) as nat);
        lemma_scale_twice(sa, la + 38 + up, (-gain) as nat);
        lemma_scale_twice(sb, lb + down, (-gain) as nat);
        lemma_ratio_scaled(n2, d2, pow2((-gain) as nat));
    }
}

/// The quotient of two patterns, rounded to nearest, ties to even.
pub fn div_single(a: u32, b: u32) -> (result: u32)
    ensures
        result == single_quotient(a, b),
{
    let sign: u32 = if (a >= SIGN) != (b >= SIGN) {
        SIGN
    } else {
        0
    };
    let a_rest: u32 = a % 0x8000_0000;
    let b_rest: u32 = b % 0x8000_0000;
    if a_rest > INFINITY || b_rest > INFINITY {
        return NAN;
    }
    if a_rest == INFINITY {
        if b_rest == INFINITY {
            return NAN;
        }
        return sign + INFINITY;
    }
    if b_rest == INFINITY {
        return sign;
    }
    if b_rest == 0 {
        if a_rest == 0 {
            return NAN;
        }
        return sign + INFINITY;
    }
    let (a_significand, a_scale) = unpack(a);
    let (b_significand, b_scale) = unpack(b);
    proof {
        lemma_fields(a);
        lemma_fields(b);
    }
    if a_significand == 0 {
        assert(magnitude(a) * pow2(149) == 0) by (nonlinear_arith)
            requires
                magnitude(a) == 0,
        ;
        return sign;
    }
    proof {
        lemma_normalised(a_significand as nat);
        lemma_normalised(b_significand as nat);
    }
    let a_shift: u32 = 24 - bit_length_u64(a_significand);
    let b_shift: u32 = 24 - bit_length_u64(b_significand);
    let a_normal: u64 = a_significand * pow2_u64(a_shift);
    let b_normal: u64 = b_significand * pow2_u64(b_shift);
    proof {
        lemma2_to64();
        lemma2_to64_rest();
        lemma_pow2_adds(23, 38);
        lemma_pow2_adds(24, 38);
        lemma_pow2_pos(38);
        assert(pow2(61) <= a_normal * pow2(38) < pow2(62)) by (nonlinear_arith)
            requires
                0x80_0000 <= a_normal < 0x100_0000,
                pow2(61) == 0x80_0000 * pow2(38),
                pow2(62) == 0x100_0000 * pow2(38),
                pow2(38) > 0,
        ;
    }
    let wide: u64 = a_normal * pow2_u64(38);
    let whole: u64 = wide / b_normal;
    let rest: u64 = wide % b_normal;
    proof {
        lemma_quotient_digits(wide as nat, b_normal as nat);
    }
    let jammed: u64 = 2 * whole + if rest > 0 {
        1
    } else {
        0
    };
    let e: i32 = a_scale + 149 - a_shift as i32 - b_scale + b_shift as i32 - 38;
    proof {
        lemma_quotient_jammed(wide as nat, b_normal as nat, e as int);
        lemma_same_ratio(
            a_significand as nat,
            a_scale as nat,
            a_shift as nat,
            b_significand as nat,
            b_scale as nat,
            b_shift as nat,
            e as int,
        );
    }
    let rounded: u32 = round_pack(jammed, e - 1);
    sign + rounded
}

} // verus!
