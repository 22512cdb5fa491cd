//! What rounding chooses.
//!
//! [`round_to_single`] is written as a construction: find the rounding step,
//! count steps, round the count. The laws here say what that construction
//! achieves. A finite result is a nearest pattern: no finite pattern lies
//! closer to the exact number, and where two lie equally close the result is
//! the one with the even significand. An infinite result means that the exact
//! number is at least half a step beyond the largest finite pattern.
use crate::division::{round_ratio_half_even, round_ratio_to_single};
use crate::single::{
    bit_length, is_finite, lemma_bit_length_bounds, lemma_fields, magnitude, quantum,
    round_half_even, round_to_single, rounded_steps, scale, significand, INFINITY,
};
use vstd::arithmetic::div_mod::{lemma_div_denominator, lemma_fundamental_div_mod};
use vstd::arithmetic::power2::{
    lemma2_to64, lemma_pow2_adds, lemma_pow2_pos, lemma_pow2_strictly_increases,
    lemma_pow2_unfold, pow2,
};
use vstd::prelude::*;

verus! {

/// How far apart two numbers are.
pub open spec fn distance(a: int, b: int) -> int {
    if a >= b {
        a - b
    } else {
        b - a
    }
}

/// The power of two that brings `n * 2^e` to a whole number of units: `e`
/// itself where it is positive.
pub open spec fn lift(e: int) -> nat {
    if e >= 0 {
        e as nat
    } else {
        0
    }
}

/// The power of two that a magnitude is to be scaled by to be compared with
/// `n * 2^(lift(e))`: what `e` lacks to zero where it is negative.
pub open spec fn drop(e: int) -> nat {
    if e < 0 {
        (-e) as nat
    } else {
        0
    }
}

/// The rounded count of steps stays within a significand's range, and counts
/// the exact number where no digit is cut off.
pub proof fn lemma_steps_bounds(n: nat, e: int)
    requires
        n > 0,
    ensures
        rounded_steps(n, e) <= 0x100_0000,
        quantum(n, e) > 0 ==> rounded_steps(n, e) >= 0x80_0000,
        e < quantum(n, e) ==> ({
            let k = (quantum(n, e) - e) as nat;
            &&& n / pow2(k) < 0x100_0000
            &&& quantum(n, e) > 0 ==> n / pow2(k) >= 0x80_0000
            &&& n / pow2(k) <= rounded_steps(n, e) <= n / pow2(k) + 1
        }),
{
    lemma2_to64();
    let len = bit_length(n);
    let q = quantum(n, e);
    lemma_bit_length_bounds(n);
    if e >= q {
        let up = (e - q) as nat;
        lemma_pow2_pos(up);
        lemma_pow2_adds(len, up);
        lemma_pow2_adds((len - 1) as nat, up);
        if len + up < 24 {
            lemma_pow2_strictly_increases(len + up, 24);
        }
        assert(n * pow2(up) < pow2(len + up)) by (nonlinear_arith)
            requires
                n < pow2(len),
                pow2(len + up) == pow2(len) * pow2(up),
                pow2(up) > 0,
        ;
        if q > 0 {
            assert(n * pow2(up) >= pow2((len - 1 + up) as nat)) by (nonlinear_arith)
                requires
                    n >= pow2((len - 1) as nat),
                    pow2((len - 1 + up) as nat) == pow2((len - 1) as nat) * pow2(up),
                    pow2(up) > 0,
            ;
        }
    } else {
        let k = (q - e) as nat;
        let whole = n / pow2(k);
        lemma_pow2_pos(k);
        lemma_fundamental_div_mod(n as int, pow2(k) as int);
        lemma_pow2_adds(24, k);
        if len < 24 + k {
            lemma_pow2_strictly_increases(len, 24 + k);
        }
        assert(whole < 0x100_0000) by (nonlinear_arith)
            requires
                n == pow2(k) * whole + n % pow2(k),
                0 <= n % pow2(k),
                n < 0x100_0000 * pow2(k),
                pow2(k) > 0,
        ;
        if q > 0 {
            lemma_pow2_adds(23, k);
            assert(whole >= 0x80_0000) by (nonlinear_arith)
                requires
                    n == pow2(k) * whole + n % pow2(k),
                    n % pow2(k) < pow2(k),
                    n >= 0x80_0000 * pow2(k),
                    pow2(k) > 0,
            ;
        }
    }
}

/// The pattern packed from a step `2^q` and a count of steps has the
/// magnitude `steps * 2^q`, and is even exactly where the count is.
pub proof fn lemma_packed_magnitude(q: nat, steps: nat)
    requires
        steps <= 0x100_0000,
        q > 0 ==> steps >= 0x80_0000,
        q * 0x80_0000 + steps < 0x7F80_0000,
    ensures
        magnitude((q * 0x80_0000 + steps) as u32) == steps * pow2(q),
        (q * 0x80_0000 + steps) % 2 == steps % 2,
{
    lemma2_to64();
    let packed = (q * 0x80_0000 + steps) as u32;
    lemma_fields(packed);
    if steps == 0x100_0000 {
        assert(scale(packed) == q + 1);
        assert(significand(packed) == 0x80_0000);
        lemma_pow2_unfold(q + 1);
        assert(0x80_0000 * pow2(q + 1) == 0x100_0000 * pow2(q)) by (nonlinear_arith)
            requires
                pow2(q + 1) == 2 * pow2(q),
        ;
    } else {
        assert(scale(packed) == q);
        assert(significand(packed) == steps);
    }
}

/// No finite pattern lies strictly between two neighbouring multiples of the
/// rounding step.
pub proof fn lemma_no_pattern_between(p: u32, q: nat, whole: nat)
    requires
        is_finite(p),
        q > 0 ==> whole >= 0x80_0000,
    ensures
        magnitude(p) <= whole * pow2(q) || magnitude(p) >= (whole + 1) * pow2(q),
{
    lemma2_to64();
    lemma_fields(p);
    let s = significand(p);
    let own = scale(p);
    lemma_pow2_pos(q);
    lemma_pow2_pos(own);
    if own >= q {
        let up = (own - q) as nat;
        lemma_pow2_adds(up, q);
        let count = s * pow2(up);
        assert(magnitude(p) == count * pow2(q)) by (nonlinear_arith)
            requires
                magnitude(p) == s * pow2(own),
                pow2(own) == pow2(up) * pow2(q),
                count == s * pow2(up),
        ;
        if count <= whole {
            assert(count * pow2(q) <= whole * pow2(q)) by (nonlinear_arith)
                requires
                    count <= whole,
            ;
        } else {
            assert(count * pow2(q) >= (whole + 1) * pow2(q)) by (nonlinear_arith)
                requires
                    count >= whole + 1,
            ;
        }
    } else {
        if own < q - 1 {
            lemma_pow2_strictly_increases(own, (q - 1) as nat);
        }
        lemma_pow2_unfold(q);
        assert(magnitude(p) <= whole * pow2(q)) by (nonlinear_arith)
            requires
                magnitude(p) == s * pow2(own),
                s < 0x100_0000,
                pow2(own) <= pow2((q - 1) as nat),
                pow2(q) == 2 * pow2((q - 1) as nat),
                whole >= 0x80_0000,
        ;
    }
}

/// Rounding to nearest. Where `n * 2^e` rounds to a finite pattern, no finite
/// pattern is closer to `n * 2^e` than the result; and where another
/// magnitude is exactly as close, the result is the even one of the two.
///
/// Distances are compared after scaling both sides by `2^(drop(e))`, which
/// makes them whole numbers.
pub proof fn lemma_rounding_is_nearest(n: nat, e: int, p: u32)
    requires
        n > 0,
        round_to_single(n, e) != INFINITY,
        is_finite(p),
    ensures
        distance(
            (magnitude(round_to_single(n, e)) * pow2(drop(e))) as int,
            (n * pow2(lift(e))) as int,
        ) <= distance((magnitude(p) * pow2(drop(e))) as int, (n * pow2(lift(e))) as int),
        distance(
            (magnitude(round_to_single(n, e)) * pow2(drop(e))) as int,
            (n * pow2(lift(e))) as int,
        ) == distance((magnitude(p) * pow2(drop(e))) as int, (n * pow2(lift(e))) as int)
            && magnitude(p) != magnitude(round_to_single(n, e)) ==> round_to_single(n, e) % 2
            == 0,
{
    lemma2_to64();
    let q = quantum(n, e);
    let steps = rounded_steps(n, e);
    let r = round_to_single(n, e);
    lemma_steps_bounds(n, e);
    lemma_packed_magnitude(q, steps);
    let mr = magnitude(r);
    let mp = magnitude(p);
    let up = pow2(lift(e));
    let down = pow2(drop(e));
    lemma_pow2_pos(lift(e));
    lemma_pow2_pos(drop(e));
    lemma_pow2_pos(q);
    let exact = n * up;
    if e >= q {
        // Nothing is cut off: the result is the exact number.
        lemma_pow2_adds((e - q) as nat, q);
        assert(mr * down == exact) by (nonlinear_arith)
            requires
                mr == steps * pow2(q),
                steps == n * pow2((e - q) as nat),
                pow2(e as nat) == pow2((e - q) as nat) * pow2(q),
                up == pow2(e as nat),
                down == 1,
                exact == n * up,
        ;
        assert(mp * down == mp) by (nonlinear_arith)
            requires
                down == 1,
        ;
    } else {
        let k = (q - e) as nat;
        let unit = pow2(k);
        let whole = n / unit;
        let rest = n % unit;
        lemma_pow2_pos(k);
        lemma_fundamental_div_mod(n as int, unit as int);
        lemma_no_pattern_between(p, q, whole);
        // In the scaled measure one rounding step is `unit * up`.
        lemma_pow2_adds(q, drop(e));
        lemma_pow2_adds(k, lift(e));
        assert(pow2(q) * down == unit * up);
        let below = whole * unit * up;
        let above = (whole + 1) * unit * up;
        assert(exact == below + rest * up) by (nonlinear_arith)
            requires
                exact == n * up,
                n == unit * whole + rest,
                below == whole * unit * up,
        ;
        assert(above == below + unit * up) by (nonlinear_arith)
            requires
                below == whole * unit * up,
                above == (whole + 1) * unit * up,
        ;
        assert(rest * up < unit * up) by (nonlinear_arith)
            requires
                rest < unit,
                up > 0,
        ;
        assert(mr * down == steps * unit * up) by (nonlinear_arith)
            requires
                mr == steps * pow2(q),
                pow2(q) * down == unit * up,
        ;
        assert(mp <= whole * pow2(q) ==> mp * down <= below) by (nonlinear_arith)
            requires
                pow2(q) * down == unit * up,
                below == whole * unit * up,
                down > 0,
        ;
        assert(mp >= (whole + 1) * pow2(q) ==> mp * down >= above) by (nonlinear_arith)
            requires
                pow2(q) * down == unit * up,
                above == (whole + 1) * unit * up,
                down > 0,
        ;
        assert((2 * rest > unit) == (2 * (rest * up) > unit * up)) by (nonlinear_arith)
            requires
                up > 0,
        ;
        assert((2 * rest == unit) == (2 * (rest * up) == unit * up)) by (nonlinear_arith)
            requires
                up > 0,
        ;
        assert(mp != mr ==> mp * down != mr * down) by (nonlinear_arith)
            requires
                down > 0,
        ;
        if steps == whole {
            assert(mr * down == below);
        } else {
            assert(steps == whole + 1);
            assert(mr * down == above);
        }
        // Only an exact tie leaves two magnitudes equally close, and a tie
        // goes to the even count.
        assert(steps == round_half_even(n, k));
        assert(steps == whole + 1 <==> 2 * rest > unit || (2 * rest == unit && whole % 2 == 1));
        let near = distance((mr * down) as int, exact as int);
        let far = distance((mp * down) as int, exact as int);
        if near == far && mp != mr {
            assert(2 * (rest * up) == unit * up);
            assert(steps % 2 == 0);
        }
    }
    assert(r == (q * 0x80_0000 + steps) as u32);
    assert(r % 2 == steps % 2);
}

/// Rounding to infinity. Where `n * 2^e` rounds to infinity, it is at least
/// half a step beyond the largest finite magnitude, `(2^24 - 1) * 2^253`;
/// so every finite pattern lies below it.
pub proof fn lemma_rounding_overflows(n: nat, e: int, p: u32)
    requires
        n > 0,
        round_to_single(n, e) == INFINITY,
        is_finite(p),
    ensures
        2 * (n * pow2(lift(e))) >= 0x1FF_FFFF * pow2(253 + drop(e)),
        magnitude(p) * pow2(drop(e)) < n * pow2(lift(e)),
{
    lemma2_to64();
    let q = quantum(n, e);
    let steps = rounded_steps(n, e);
    lemma_steps_bounds(n, e);
    let up = pow2(lift(e));
    let down = pow2(drop(e));
    lemma_pow2_pos(lift(e));
    lemma_pow2_pos(drop(e));
    lemma_pow2_pos(q);
    let exact = n * up;
    let top = pow2(253 + drop(e));
    lemma_pow2_adds(253, drop(e));
    // The packed pattern is at least that of infinity: the step is 2^253 with
    // a full count, or larger.
    assert(q >= 253);
    lemma_pow2_pos(253);
    lemma_pow2_unfold(q);
    if q > 254 {
        lemma_pow2_strictly_increases(253, (q - 1) as nat);
    }
    assert(q > 253 ==> pow2(q) >= 2 * pow2(253));
    // A lower bound on the exact number, in the scaled measure.
    let base = pow2(253);
    let step = pow2(q);
    if e >= q {
        lemma_pow2_adds((e - q) as nat, q);
        assert(exact == steps * step) by (nonlinear_arith)
            requires
                steps == n * pow2((e - q) as nat),
                pow2(e as nat) == pow2((e - q) as nat) * step,
                up == pow2(e as nat),
                exact == n * up,
        ;
        assert(top == base) by (nonlinear_arith)
            requires
                top == base * down,
                down == 1,
        ;
        if q == 253 {
            assert(steps * step >= 0x100_0000 * base) by (nonlinear_arith)
                requires
                    steps >= 0x100_0000,
                    step == base,
                    base > 0,
            ;
        } else {
            assert(steps * step >= 0x100_0000 * base) by (nonlinear_arith)
                requires
                    steps >= 0x80_0000,
                    step >= 2 * base,
                    base > 0,
            ;
        }
    } else {
        let k = (q - e) as nat;
        let unit = pow2(k);
        let whole = n / unit;
        let rest = n % unit;
        lemma_pow2_pos(k);
        lemma_fundamental_div_mod(n as int, unit as int);
        lemma_pow2_adds(q, drop(e));
        lemma_pow2_adds(k, lift(e));
        let wide = unit * up;
        assert(step * down == wide);
        assert(steps == round_half_even(n, k));
        assert(2 * exact >= (2 * whole) * wide + (if steps == whole + 1 {
            wide
        } else {
            0
        })) by (nonlinear_arith)
            requires
                exact == n * up,
                n == unit * whole + rest,
                0 <= rest,
                steps == whole + 1 ==> 2 * rest >= unit,
                wide == unit * up,
                up > 0,
        ;
        if q == 253 {
            assert(steps == whole + 1 && whole == 0xFF_FFFF);
            assert((2 * whole) * wide + wide >= 0x1FF_FFFF * top) by (nonlinear_arith)
                requires
                    whole == 0xFF_FFFF,
                    wide == step * down,
                    step == base,
                    top == base * down,
            ;
        } else {
            assert((2 * whole) * wide >= 0x1FF_FFFF * top) by (nonlinear_arith)
                requires
                    whole >= 0x80_0000,
                    wide == step * down,
                    step >= 2 * base,
                    top == base * down,
                    base > 0,
                    down > 0,
            ;
        }
    }
    // Every finite magnitude is at most (2^24 - 1) * 2^253.
    lemma_fields(p);
    lemma_pow2_pos(scale(p));
    if scale(p) < 253 {
        lemma_pow2_strictly_increases(scale(p), 253);
    }
    assert(2 * (magnitude(p) * down) < 0x1FF_FFFF * top) by (nonlinear_arith)
        requires
            magnitude(p) == significand(p) * pow2(scale(p)),
            significand(p) <= 0xFF_FFFF,
            pow2(scale(p)) <= pow2(253),
            top == pow2(253) * down,
            down > 0,
            pow2(253) > 0,
    ;
}

/// The count of steps that a ratio is rounded to stays within a
/// significand's range.
pub proof fn lemma_ratio_steps_bounds(n: nat, d: nat)
    requires
        n > 0,
        d > 0,
    ensures
        d * pow2(quantum(n / d, 0)) > 0,
        n / (d * pow2(quantum(n / d, 0))) < 0x100_0000,
        quantum(n / d, 0) > 0 ==> n / (d * pow2(quantum(n / d, 0))) >= 0x80_0000,
        n / (d * pow2(quantum(n / d, 0))) <= round_ratio_half_even(
            n,
            d * pow2(quantum(n / d, 0)),
        ) <= n / (d * pow2(quantum(n / d, 0))) + 1,
{
    lemma2_to64();
    let ratio = n / d;
    let q = quantum(ratio, 0);
    let len = bit_length(ratio);
    let unit = pow2(q);
    lemma_pow2_pos(q);
    lemma_bit_length_bounds(ratio);
    lemma_div_denominator(n as int, d as int, unit as int);
    assert(d * unit > 0) by (nonlinear_arith)
        requires
            d > 0,
            unit > 0,
    ;
    let whole = ratio / unit;
    assert(whole == n / (d * unit));
    lemma_fundamental_div_mod(ratio as int, unit as int);
    lemma_pow2_adds(24, q);
    if len < 24 + q {
        lemma_pow2_strictly_increases(len, 24 + q);
    }
    assert(whole < 0x100_0000) by (nonlinear_arith)
        requires
            ratio == unit * whole + ratio % unit,
            0 <= ratio % unit,
            ratio < 0x100_0000 * unit,
            unit > 0,
    ;
    if q > 0 {
        lemma_pow2_adds(23, q);
        assert(whole >= 0x80_0000) by (nonlinear_arith)
            requires
                ratio == unit * whole + ratio % unit,
                ratio % unit < unit,
                ratio >= 0x80_0000 * unit,
                unit > 0,
        ;
    }
}

/// Rounding a ratio to nearest. Where `n / d` rounds to a finite pattern, no
/// finite pattern is closer to `n / d` than the result; and where another
/// magnitude is exactly as close, the result is the even one of the two.
///
/// Distances are compared after scaling both sides by `d`, which makes them
/// whole numbers.
pub proof fn lemma_ratio_rounding_is_nearest(n: nat, d: nat, p: u32)
    requires
        n > 0,
        d > 0,
        round_ratio_to_single(n, d) != INFINITY,
        is_finite(p),
    ensures
        distance((magnitude(round_ratio_to_single(n, d)) * d) as int, n as int) <= distance(
            (magnitude(p) * d) as int,
            n as int,
        ),
        distance((magnitude(round_ratio_to_single(n, d)) * d) as int, n as int) == distance(
            (magnitude(p) * d) as int,
            n as int,
        ) && magnitude(p) != magnitude(round_ratio_to_single(n, d)) ==> round_ratio_to_single(n, d)
            % 2 == 0,
{
    lemma2_to64();
    let q = quantum(n / d, 0);
    let wide = d * pow2(q);
    let steps = round_ratio_half_even(n, wide);
    let r = round_ratio_to_single(n, d);
    lemma_ratio_steps_bounds(n, d);
    lemma_packed_magnitude(q, steps);
    let whole = n / wide;
    let rest = n % wide;
    lemma_fundamental_div_mod(n as int, wide as int);
    lemma_no_pattern_between(p, q, whole);
    let mr = magnitude(r);
    let mp = magnitude(p);
    lemma_pow2_pos(q);
    let below = whole * wide;
    let above = (whole + 1) * wide;
    assert(n == below + rest) by (nonlinear_arith)
        requires
            n == wide * whole + rest,
            below == whole * wide,
    ;
    assert(above == below + wide) by (nonlinear_arith)
        requires
            below == whole * wide,
            above == (whole + 1) * wide,
    ;
    assert(mr * d == steps * wide) by (nonlinear_arith)
        requires
            mr == steps * pow2(q),
            wide == d * pow2(q),
    ;
    assert(mp <= whole * pow2(q) ==> mp * d <= below) by (nonlinear_arith)
        requires
            wide == d * pow2(q),
            below == whole * wide,
            d > 0,
    ;
    assert(mp >= (whole + 1) * pow2(q) ==> mp * d >= above) by (nonlinear_arith)
        requires
            wide == d * pow2(q),
            above == (whole + 1) * wide,
            d > 0,
    ;
    assert(mp != mr ==> mp * d != mr * d) by (nonlinear_arith)
        requires
            d > 0,
    ;
    if steps == whole {
        assert(mr * d == below);
    } else {
        assert(steps == whole + 1);
        assert(mr * d == above);
    }
    assert(steps == whole + 1 <==> 2 * rest > wide || (2 * rest == wide && whole % 2 == 1));
    assert(r == (q * 0x80_0000 + steps) as u32);
    assert(r % 2 == steps % 2);
}

/// Rounding a ratio to infinity. Where `n / d` rounds to infinity, it is at
/// least half a step beyond the largest finite magnitude; so every finite
/// pattern lies below it.
pub proof fn lemma_ratio_rounding_overflows(n: nat, d: nat, p: u32)
    requires
        n > 0,
        d > 0,
        round_ratio_to_single(n, d) == INFINITY,
        is_finite(p),
    ensures
        2 * n >= 0x1FF_FFFF * (pow2(253) * d),
        magnitude(p) * d < n,
{
    lemma2_to64();
    let q = quantum(n / d, 0);
    let step = pow2(q);
    let base = pow2(253);
    let wide = d * step;
    let steps = round_ratio_half_even(n, wide);
    lemma_ratio_steps_bounds(n, d);
    let whole = n / wide;
    let rest = n % wide;
    lemma_fundamental_div_mod(n as int, wide as int);
    lemma_pow2_pos(q);
    lemma_pow2_pos(253);
    assert(q >= 253);
    lemma_pow2_unfold(q);
    if q > 254 {
        lemma_pow2_strictly_increases(253, (q - 1) as nat);
    }
    assert(q > 253 ==> step >= 2 * base);
    assert(2 * n >= (2 * whole) * wide + (if steps == whole + 1 {
        wide
    } else {
        0
    })) by (nonlinear_arith)
        requires
            n == wide * whole + rest,
            0 <= rest,
            steps == whole + 1 ==> 2 * rest >= wide,
    ;
    if q == 253 {
        assert(steps == whole + 1 && whole == 0xFF_FFFF);
        assert((2 * whole) * wide + wide >= 0x1FF_FFFF * (base * d)) by (nonlinear_arith)
            requires
                whole == 0xFF_FFFF,
                wide == d * step,
                step == base,
        ;
    } else {
        assert((2 * whole) * wide >= 0x1FF_FFFF * (base * d)) by (nonlinear_arith)
            requires
                whole >= 0x80_0000,
                wide == d * step,
                step >= 2 * base,
                base > 0,
                d > 0,
        ;
    }
    lemma_fields(p);
    lemma_pow2_pos(scale(p));
    if scale(p) < 253 {
        lemma_pow2_strictly_increases(scale(p), 253);
    }
    assert(2 * (magnitude(p) * d) < 0x1FF_FFFF * (base * d)) by (nonlinear_arith)
        requires
            magnitude(p) == significand(p) * pow2(scale(p)),
            significand(p) <= 0xFF_FFFF,
            pow2(scale(p)) <= base,
            d > 0,
            base > 0,
    ;
}

} // verus!
