use shaderkit::arithmetic::{
    abs_single, add_single, ceil_single, floor_single, mul_single, neg_single, sub_single,
};
use shaderkit::division::div_single;
use shaderkit::single::{round_pack, INFINITY, NAN, ONE};

fn bits(x: f32) -> u32 {
    x.to_bits()
}

fn same(ours: u32, native: f32) -> bool {
    if native.is_nan() {
        ours & 0x7FFF_FFFF > 0x7F80_0000
    } else {
        ours == native.to_bits()
    }
}

fn samples() -> Vec<f32> {
    let mut out: Vec<f32> = vec![
        0.0,
        -0.0,
        1.0,
        -1.0,
        0.5,
        1.5,
        2.0,
        3.0,
        0.1,
        -0.3,
        1.0e-38,
        1.0e-45,
        -1.0e-45,
        1.1754944e-38,
        1.1754942e-38,
        3.4028235e38,
        -3.4028235e38,
        1.0e38,
        1.0e20,
        1.0e-20,
        16777216.0,
        16777215.0,
        8388608.0,
        8388607.5,
        0.33333334,
        f32::INFINITY,
        f32::NEG_INFINITY,
        f32::NAN,
        f32::EPSILON,
        1.0 + f32::EPSILON,
        1.0 - f32::EPSILON / 2.0,
    ];
    let mut seed: u32 = 0x1234_5678;
    for _ in 0..400 {
        seed ^= seed << 13;
        seed ^= seed >> 17;
        seed ^= seed << 5;
        out.push(f32::from_bits(seed));
    }
    out
}

#[test]
fn product_matches_hardware() {
    let values = samples();
    for a in values.iter() {
        for b in values.iter() {
            let ours = mul_single(bits(*a), bits(*b));
            assert!(same(ours, *a * *b), "{:?} * {:?}: {:#x} vs {:#x}", a, b, ours, (*a * *b).to_bits());
        }
    }
}

#[test]
fn product_of_small_numbers() {
    assert_eq!(mul_single(bits(2.0), bits(3.0)), bits(6.0));
    assert_eq!(mul_single(bits(-2.0), bits(0.5)), bits(-1.0));
    assert_eq!(mul_single(bits(0.0), bits(-5.0)), bits(-0.0));
    assert_eq!(mul_single(INFINITY, bits(0.0)), NAN);
    assert_eq!(mul_single(bits(3.4028235e38), bits(2.0)), INFINITY);
}

#[test]
fn abs_and_negation_touch_the_sign_only() {
    assert_eq!(abs_single(bits(-1.5)), bits(1.5));
    assert_eq!(abs_single(bits(1.5)), bits(1.5));
    assert_eq!(abs_single(0xFFC0_0001), 0x7FC0_0001);
    assert_eq!(neg_single(bits(1.5)), bits(-1.5));
    assert_eq!(neg_single(bits(-0.0)), bits(0.0));
}

#[test]
fn rounding_ties_go_to_even() {
    // 2^24 + 1 lies halfway between 2^24 and 2^24 + 2.
    assert_eq!(round_pack(16777217, 149), bits(16777216.0));
    // 2^24 + 3 lies halfway between 2^24 + 2 and 2^24 + 4.
    assert_eq!(round_pack(16777219, 149), bits(16777220.0));
    assert_eq!(round_pack(1, 149), ONE);
    assert_eq!(round_pack(1, 0), 1);
    assert_eq!(round_pack(1, 400), INFINITY);
    assert_eq!(round_pack(0, 12), 0);
}

#[test]
fn floor_and_ceil_match_hardware() {
    for a in samples().iter() {
        let down = floor_single(bits(*a));
        let up = ceil_single(bits(*a));
        assert!(same(down, a.floor()), "floor {:?}: {:#x}", a, down);
        assert!(same(up, a.ceil()), "ceil {:?}: {:#x}", a, up);
    }
}

#[test]
fn floor_and_ceil_keep_the_sign_of_zero() {
    assert_eq!(floor_single(bits(0.5)), bits(0.0));
    assert_eq!(floor_single(bits(-0.5)), bits(-1.0));
    assert_eq!(ceil_single(bits(-0.5)), bits(-0.0));
    assert_eq!(ceil_single(bits(0.5)), bits(1.0));
    assert_eq!(floor_single(bits(-0.0)), bits(-0.0));
    assert_eq!(floor_single(bits(2.75)), bits(2.0));
    assert_eq!(ceil_single(bits(2.25)), bits(3.0));
    assert_eq!(floor_single(bits(-2.25)), bits(-3.0));
    assert_eq!(floor_single(bits(1.0e30)), bits(1.0e30));
}

#[test]
fn sum_and_difference_match_hardware() {
    let values = samples();
    for a in values.iter() {
        for b in values.iter() {
            let sum = add_single(bits(*a), bits(*b));
            let difference = sub_single(bits(*a), bits(*b));
            assert!(same(sum, *a + *b), "{:?} + {:?}: {:#x} vs {:#x}", a, b, sum, (*a + *b).to_bits());
            assert!(
                same(difference, *a - *b),
                "{:?} - {:?}: {:#x} vs {:#x}",
                a,
                b,
                difference,
                (*a - *b).to_bits()
            );
        }
    }
}

#[test]
fn sum_of_neighbouring_magnitudes_match_hardware() {
    // Operands whose exponents differ by every gap from 0 to 60, with
    // significands at both ends of the binade.
    let significands: [u32; 5] = [0, 1, 0x40_0000, 0x7F_FFFE, 0x7F_FFFF];
    for gap in 0u32..60 {
        for s in significands.iter() {
            for t in significands.iter() {
                let a = f32::from_bits(((100 + gap) << 23) | *s);
                let b = f32::from_bits((100 << 23) | *t);
                assert!(same(add_single(bits(a), bits(b)), a + b), "{:?} + {:?}", a, b);
                assert!(same(sub_single(bits(a), bits(b)), a - b), "{:?} - {:?}", a, b);
                assert!(same(sub_single(bits(b), bits(a)), b - a), "{:?} - {:?}", b, a);
            }
        }
    }
}

#[test]
fn sum_signs_of_zero() {
    assert_eq!(add_single(bits(0.0), bits(-0.0)), bits(0.0));
    assert_eq!(add_single(bits(-0.0), bits(-0.0)), bits(-0.0));
    assert_eq!(add_single(bits(1.5), bits(-1.5)), bits(0.0));
    assert_eq!(sub_single(bits(1.5), bits(1.5)), bits(0.0));
    assert_eq!(add_single(INFINITY, neg_single(INFINITY)), NAN);
    assert_eq!(add_single(bits(1.0), bits(2.0)), bits(3.0));
    assert_eq!(add_single(bits(16777216.0), bits(1.0)), bits(16777216.0));
}

#[test]
fn quotient_matches_hardware() {
    let values = samples();
    for a in values.iter() {
        for b in values.iter() {
            let ours = div_single(bits(*a), bits(*b));
            assert!(same(ours, *a / *b), "{:?} / {:?}: {:#x} vs {:#x}", a, b, ours, (*a / *b).to_bits());
        }
    }
}

#[test]
fn quotient_of_small_numbers() {
    assert_eq!(div_single(bits(6.0), bits(3.0)), bits(2.0));
    assert_eq!(div_single(bits(1.0), bits(3.0)), bits(0.33333334));
    assert_eq!(div_single(bits(2.0), bits(3.0)), bits(0.6666667));
    assert_eq!(div_single(bits(-1.0), bits(0.0)), neg_single(INFINITY));
    assert_eq!(div_single(bits(0.0), bits(0.0)), NAN);
    assert_eq!(div_single(INFINITY, INFINITY), NAN);
    assert_eq!(div_single(bits(1.0), neg_single(INFINITY)), bits(-0.0));
    assert_eq!(div_single(bits(0.0), bits(-4.0)), bits(-0.0));
    assert_eq!(div_single(bits(1.0e-45), bits(2.0)), bits(0.0));
    // Halves of the smallest magnitudes: 1.5 and 2.5 units both go to 2.
    assert_eq!(div_single(3, bits(2.0)), 2);
    assert_eq!(div_single(5, bits(2.0)), 2);
    assert_eq!(div_single(7, bits(2.0)), 4);
}
