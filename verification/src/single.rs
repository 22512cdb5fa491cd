//! Single-precision numbers as 32-bit patterns: what a pattern means, and how a
//! number that is not representable is rounded to one that is.
//!
//! A pattern has a sign bit, eight exponent bits and twenty-three fraction
//! bits. Every finite pattern stands for a whole multiple of 2^-149, so this
//! module measures magnitudes in that unit and stays within the integers.
use vstd::arithmetic::div_mod::{lemma_fundamental_div_mod_converse, lemma_small_mod};
use vstd::arithmetic::mul::{
    lemma_mul_is_associative, lemma_mul_is_commutative, lemma_mul_strict_inequality,
};
use vstd::arithmetic::power2::{
    lemma2_to64, lemma2_to64_rest, lemma_pow2_adds, lemma_pow2_pos, lemma_pow2_strictly_increases,
    lemma_pow2_unfold, pow2,
};
use vstd::prelude::*;

verus! {

/// The sign bit.
pub const SIGN: u32 = 0x8000_0000;

/// The pattern of positive infinity; every larger magnitude is a NaN.
pub const INFINITY: u32 = 0x7F80_0000;

/// The pattern of the quiet NaN that arithmetic here produces.
pub const NAN: u32 = 0x7FC0_0000;

/// The pattern of 1.0.
pub const ONE: u32 = 0x3F80_0000;

/// The weight of the implicit leading bit of a normal significand, 2^23.
pub const HIDDEN: u32 = 0x80_0000;

/// The pattern without its sign bit.
pub open spec fn magnitude_bits(bits: u32) -> nat {
    (bits % 0x8000_0000) as nat
}

/// Whether the sign bit is set.
pub open spec fn is_negative(bits: u32) -> bool {
    bits >= 0x8000_0000
}

/// The sign bit alone.
pub open spec fn sign_bit(bits: u32) -> u32 {
    if is_negative(bits) {
        SIGN
    } else {
        0
    }
}

/// Whether the pattern is a NaN.
pub open spec fn is_nan(bits: u32) -> bool {
    magnitude_bits(bits) > 0x7F80_0000
}

/// Whether the pattern is an infinity.
pub open spec fn is_infinite(bits: u32) -> bool {
    magnitude_bits(bits) == 0x7F80_0000
}

/// Whether the pattern is a number: neither NaN nor infinite.
pub open spec fn is_finite(bits: u32) -> bool {
    magnitude_bits(bits) < 0x7F80_0000
}

/// Whether the pattern is a zero of either sign.
pub open spec fn is_zero(bits: u32) -> bool {
    magnitude_bits(bits) == 0
}

/// The eight exponent bits.
pub open spec fn exponent_field(bits: u32) -> nat {
    magnitude_bits(bits) / 0x80_0000
}

/// The twenty-three fraction bits.
pub open spec fn fraction_field(bits: u32) -> nat {
    magnitude_bits(bits) % 0x80_0000
}

/// The significand: the fraction bits, with the implicit leading bit where the
/// exponent bits are not all zero.
pub open spec fn significand(bits: u32) -> nat {
    if exponent_field(bits) == 0 {
        fraction_field(bits)
    } else {
        fraction_field(bits) + 0x80_0000
    }
}

/// The power of two that the significand is scaled by, over 2^-149.
pub open spec fn scale(bits: u32) -> nat {
    if exponent_field(bits) == 0 {
        0
    } else {
        (exponent_field(bits) - 1) as nat
    }
}

/// The magnitude of a finite pattern, in units of 2^-149.
pub open spec fn magnitude(bits: u32) -> nat {
    significand(bits) * pow2(scale(bits))
}

/// The value of a finite pattern, in units of 2^-149.
pub open spec fn value(bits: u32) -> int {
    if is_negative(bits) {
        -(magnitude(bits) as int)
    } else {
        magnitude(bits) as int
    }
}

/// The number of binary digits of `n`: the least `len` with `n < 2^len`.
pub open spec fn bit_length(n: nat) -> nat
    decreases n,
{
    if n == 0 {
        0
    } else {
        1 + bit_length(n / 2)
    }
}

/// `n / 2^k` rounded to the nearest integer, a tie going to the even one.
pub open spec fn round_half_even(n: nat, k: nat) -> nat {
    let whole = n / pow2(k);
    let rest = n % pow2(k);
    if 2 * rest > pow2(k) || (2 * rest == pow2(k) && whole % 2 == 1) {
        whole + 1
    } else {
        whole
    }
}

/// The power of two, over 2^-149, of the rounding step at `n * 2^e`: zero
/// through the subnormal range and the first normal binade, and one more for
/// each binade above.
pub open spec fn quantum(n: nat, e: int) -> nat {
    if bit_length(n) + e > 24 {
        (bit_length(n) + e - 24) as nat
    } else {
        0
    }
}

/// `n * 2^e` in steps of `2^(quantum(n, e))`, rounded to the nearest whole
/// number of steps, a tie going to the even one.
pub open spec fn rounded_steps(n: nat, e: int) -> nat {
    let q = quantum(n, e);
    if e >= q {
        n * pow2((e - q) as nat)
    } else {
        round_half_even(n, (q - e) as nat)
    }
}

/// The positive pattern nearest to `n * 2^e` units of 2^-149, a tie going to
/// the pattern with an even significand, and infinity where the rounded
/// magnitude is beyond the largest finite one.
pub open spec fn round_to_single(n: nat, e: int) -> u32 {
    let packed = quantum(n, e) * 0x80_0000 + rounded_steps(n, e);
    if n == 0 {
        0
    } else if packed >= 0x7F80_0000 {
        INFINITY
    } else {
        packed as u32
    }
}

/// A number with `len` binary digits lies in `[2^(len-1), 2^len)`.
pub proof fn lemma_bit_length_bounds(n: nat)
    ensures
        n < pow2(bit_length(n)),
        n > 0 ==> bit_length(n) >= 1 && pow2((bit_length(n) - 1) as nat) <= n,
    decreases n,
{
    lemma2_to64();
    if n > 0 {
        lemma_bit_length_bounds(n / 2);
        lemma_pow2_unfold(bit_length(n));
        if n / 2 > 0 {
            lemma_pow2_unfold(bit_length(n / 2));
        }
    }
}

/// A number below `2^k` has at most `k` binary digits.
pub proof fn lemma_bit_length_below(n: nat, k: nat)
    requires
        n < pow2(k),
    ensures
        bit_length(n) <= k,
{
    lemma_bit_length_bounds(n);
    if bit_length(n) > k {
        if bit_length(n) - 1 > k {
            lemma_pow2_strictly_increases(k, (bit_length(n) - 1) as nat);
        }
    }
}

/// A number of at least `2^k` has more than `k` binary digits.
pub proof fn lemma_bit_length_above(n: nat, k: nat)
    requires
        n >= pow2(k),
    ensures
        bit_length(n) > k,
{
    lemma_bit_length_bounds(n);
    if bit_length(n) < k {
        lemma_pow2_strictly_increases(bit_length(n), k);
    }
}

/// `2^k` as a machine integer.
pub fn pow2_u64(k: u32) -> (power: u64)
    requires
        k < 64,
    ensures
        power == pow2(k as nat),
        power > 0,
{
    proof {
        vstd::bits::lemma_u64_pow2_no_overflow(k as nat);
        vstd::bits::lemma_u64_shl_is_mul(1, k as u64);
    }
    1u64 << (k as u64)
}

/// The number of binary digits of `n`.
pub fn bit_length_u64(n: u64) -> (len: u32)
    ensures
        len == bit_length(n as nat),
        len <= 64,
{
    proof {
        lemma2_to64_rest();
        lemma_bit_length_below(n as nat, 64);
    }
    let mut len: u32 = 0;
    let mut rest: u64 = n;
    while rest > 0
        invariant
            len + bit_length(rest as nat) == bit_length(n as nat),
            bit_length(n as nat) <= 64,
        decreases rest,
    {
        rest = rest / 2;
        len = len + 1;
    }
    len
}

/// Multiplying by a power of two keeps a number below the power of two that
/// is as much higher.
pub proof fn lemma_shift_bound(n: nat, len: nat, shift: nat)
    requires
        n < pow2(len),
    ensures
        n * pow2(shift) < pow2(len + shift),
{
    lemma_pow2_pos(shift);
    lemma_pow2_adds(len, shift);
    lemma_mul_strict_inequality(n as int, pow2(len) as int, pow2(shift) as int);
}

/// A number below half of `2^k` rounds to zero steps of `2^k`.
pub proof fn lemma_round_small(n: nat, k: nat)
    requires
        2 * n < pow2(k),
    ensures
        round_half_even(n, k) == 0,
{
    lemma_small_mod(n, pow2(k));
    vstd::arithmetic::div_mod::lemma_basic_div(n as int, pow2(k) as int);
}

/// The positive pattern nearest to `n * 2^e` units of 2^-149, see
/// [`round_to_single`].
pub fn round_pack(n: u64, e: i32) -> (bits: u32)
    requires
        n < 0x8000_0000_0000_0000,
        -400 <= e <= 400,
    ensures
        bits == round_to_single(n as nat, e as int),
{
    if n == 0 {
        return 0;
    }
    proof {
        lemma2_to64();
        lemma2_to64_rest();
        lemma_bit_length_bounds(n as nat);
        lemma_bit_length_below(n as nat, 63);
    }
    let len: i32 = bit_length_u64(n) as i32;
    let top: i32 = len + e;
    let q: i32 = if top > 24 {
        top - 24
    } else {
        0
    };
    assert(q == quantum(n as nat, e as int));
    if q >= 255 {
        return INFINITY;
    }
    let steps: u64;
    if e >= q {
        let shift: u32 = (e - q) as u32;
        proof {
            lemma_shift_bound(n as nat, len as nat, shift as nat);
            if len + shift < 24 {
                lemma_pow2_strictly_increases((len + shift) as nat, 24);
            }
        }
        steps = n * pow2_u64(shift);
    } else {
        let k: i32 = q - e;
        if k >= 64 {
            proof {
                if k > 64 {
                    lemma_pow2_strictly_increases(64, k as nat);
                }
                lemma_round_small(n as nat, k as nat);
            }
            steps = 0;
        } else {
            let unit: u64 = pow2_u64(k as u32);
            let whole: u64 = n / unit;
            let rest: u64 = n % unit;
            proof {
                if k < 63 {
                    lemma_pow2_strictly_increases(k as nat, 63);
                }
            }
            if 2 * rest > unit || (2 * rest == unit && whole % 2 == 1) {
                steps = whole + 1;
            } else {
                steps = whole;
            }
        }
    }
    assert(steps == rounded_steps(n as nat, e as int));
    let packed: u64 = (q as u64) * 0x80_0000 + steps;
    if packed >= 0x7F80_0000 {
        INFINITY
    } else {
        packed as u32
    }
}

/// Doubling a positive number `shift` times adds `shift` binary digits.
pub proof fn lemma_bit_length_shift(n: nat, shift: nat)
    requires
        n > 0,
    ensures
        bit_length(n * pow2(shift)) == bit_length(n) + shift,
    decreases shift,
{
    lemma2_to64();
    if shift > 0 {
        let half = n * pow2((shift - 1) as nat);
        lemma_bit_length_shift(n, (shift - 1) as nat);
        lemma_pow2_unfold(shift);
        lemma_pow2_pos((shift - 1) as nat);
        assert(n * pow2(shift) == 2 * half) by (nonlinear_arith)
            requires
                pow2(shift) == 2 * pow2((shift - 1) as nat),
                half == n * pow2((shift - 1) as nat),
        ;
        assert(half > 0) by (nonlinear_arith)
            requires
                n > 0,
                pow2((shift - 1) as nat) > 0,
                half == n * pow2((shift - 1) as nat),
        ;
        assert((2 * half) / 2 == half);
        assert(bit_length(2 * half) == 1 + bit_length(half));
    } else {
        assert(n * pow2(0) == n) by (nonlinear_arith)
            requires
                pow2(0) == 1,
        ;
    }
}

/// Rounding to steps of `2^k` does not change when the number and the step
/// are both scaled by `2^shift`.
pub proof fn lemma_round_half_even_scaled(n: nat, shift: nat, k: nat)
    ensures
        round_half_even(n * pow2(shift), k + shift) == round_half_even(n, k),
{
    let c = pow2(shift) as int;
    let d = pow2(k) as int;
    lemma_pow2_pos(shift);
    lemma_pow2_pos(k);
    lemma_pow2_adds(k, shift);
    vstd::arithmetic::div_mod::lemma_div_multiples_vanish_quotient(c, n as int, d);
    vstd::arithmetic::div_mod::lemma_truncate_middle(n as int, c, d);
    lemma_mul_is_commutative(c, n as int);
    lemma_mul_is_commutative(c, d);
    let rest = (n as int) % d;
    assert((n * pow2(shift)) as int == c * n);
    assert(pow2(k + shift) as int == c * d);
    assert((c * n) / (c * d) == (n as int) / d);
    assert((c * n) % (c * d) == c * rest);
    assert((2 * (c * rest) > c * d) == (2 * rest > d)) by (nonlinear_arith)
        requires
            c > 0,
    ;
    assert((2 * (c * rest) == c * d) == (2 * rest == d)) by (nonlinear_arith)
        requires
            c > 0,
    ;
}

/// A whole number of steps of `2^k` rounds to itself.
pub proof fn lemma_round_half_even_exact(n: nat, k: nat)
    ensures
        round_half_even(n * pow2(k), k) == n,
{
    lemma_pow2_pos(k);
    lemma_fundamental_div_mod_converse((n * pow2(k)) as int, pow2(k) as int, n as int, 0);
}

/// Rounding sees the number, not how it is written: `(n * 2^shift) * 2^e` and
/// `n * 2^(e + shift)` round to the same pattern.
pub proof fn lemma_round_scaling(n: nat, shift: nat, e: int)
    ensures
        round_to_single(n * pow2(shift), e) == round_to_single(n, e + shift),
{
    lemma_pow2_pos(shift);
    let scaled = n * pow2(shift);
    if n == 0 {
        assert(scaled == 0) by (nonlinear_arith)
            requires
                n == 0,
                scaled == n * pow2(shift),
        ;
    } else {
        assert(scaled > 0) by (nonlinear_arith)
            requires
                n > 0,
                pow2(shift) > 0,
                scaled == n * pow2(shift),
        ;
        lemma_bit_length_shift(n, shift);
        let q = quantum(n, e + shift);
        assert(quantum(scaled, e) == q);
        if e >= q {
            let up = (e - q) as nat;
            lemma_pow2_adds(shift, up);
            lemma_mul_is_associative(n as int, pow2(shift) as int, pow2(up) as int);
            assert(rounded_steps(scaled, e) == rounded_steps(n, e + shift));
        } else if e + shift >= q {
            let down = (q - e) as nat;
            let up = (e + shift - q) as nat;
            lemma_pow2_adds(up, down);
            lemma_mul_is_associative(n as int, pow2(up) as int, pow2(down) as int);
            lemma_round_half_even_exact(n * pow2(up), down);
            assert(rounded_steps(scaled, e) == rounded_steps(n, e + shift));
        } else {
            let down = (q - e - shift) as nat;
            lemma_round_half_even_scaled(n, shift, down);
            assert(rounded_steps(scaled, e) == rounded_steps(n, e + shift));
        }
    }
}

/// A pattern without its sign bit is the scale, counted in units of 2^23,
/// plus the significand; a significand is below 2^24, and at least 2^23 where
/// the scale is not zero.
pub proof fn lemma_fields(bits: u32)
    ensures
        magnitude_bits(bits) == scale(bits) * 0x80_0000 + significand(bits),
        significand(bits) < 0x100_0000,
        scale(bits) > 0 ==> significand(bits) >= 0x80_0000,
        is_finite(bits) ==> scale(bits) <= 253,
        is_zero(bits) <==> is_finite(bits) && significand(bits) == 0,
        magnitude_bits(bits) < 0x8000_0000,
{
}

/// Rounding the magnitude of a finite pattern gives the pattern back.
pub proof fn lemma_round_exact(bits: u32)
    requires
        is_finite(bits),
    ensures
        round_to_single(significand(bits), scale(bits) as int) == magnitude_bits(bits),
        round_to_single(magnitude(bits), 0) == magnitude_bits(bits),
{
    let n = significand(bits);
    let e = scale(bits);
    lemma_fields(bits);
    lemma2_to64();
    lemma_round_scaling(n, e, 0);
    if n > 0 {
        lemma_bit_length_below(n, 24);
        if e > 0 {
            lemma_bit_length_above(n, 23);
        }
        assert(quantum(n, e as int) == e);
        assert(n * pow2(0) == n) by (nonlinear_arith)
            requires
                pow2(0) == 1,
        ;
    }
}

/// The significand and the scale of a pattern.
pub fn unpack(bits: u32) -> (parts: (u64, i32))
    ensures
        parts.0 == significand(bits),
        parts.1 == scale(bits),
        parts.0 < 0x100_0000,
        0 <= parts.1 <= 254,
{
    let rest: u32 = bits % 0x8000_0000;
    let exponent: u32 = rest / 0x80_0000;
    let fraction: u32 = rest % 0x80_0000;
    if exponent == 0 {
        (fraction as u64, 0)
    } else {
        ((fraction + 0x80_0000) as u64, (exponent - 1) as i32)
    }
}

} // verus!
