use ray_tracing_in_one_weekend::scalar::{INFINITY_BITS, MAX_FINITE_BITS, ONE_BITS, SIGN_BIT};
use ray_tracing_in_one_weekend::{Scalar, Vec3};

fn num(x: f64) -> Scalar {
    Scalar::from_bits(x.to_bits())
}

fn val(s: Scalar) -> f64 {
    f64::from_bits(s.to_bits())
}

fn samples() -> Vec<f64> {
    vec![
        0.0,
        -0.0,
        1.0,
        -1.0,
        0.5,
        -0.5,
        0.001,
        -0.001,
        1e-8,
        -1e-8,
        3.25,
        -3.25,
        1e300,
        -1e300,
        f64::MIN_POSITIVE,
        -f64::MIN_POSITIVE,
        5e-324,
        -5e-324,
        f64::MAX,
        f64::MIN,
        f64::INFINITY,
        f64::NEG_INFINITY,
        f64::NAN,
        -f64::NAN,
        f64::EPSILON,
        255.999,
    ]
}

#[test]
fn bits_round_trip() {
    for x in samples() {
        assert_eq!(num(x).to_bits(), x.to_bits());
    }
    assert_eq!(Scalar::from_bits(0x3FF0_0000_0000_0000).to_bits(), 1.0f64.to_bits());
}

#[test]
fn constants_are_the_numbers_they_name() {
    assert_eq!(Scalar::zero().to_bits(), 0.0f64.to_bits());
    assert_eq!(Scalar::one().to_bits(), 1.0f64.to_bits());
    assert_eq!(ONE_BITS, 1.0f64.to_bits());
    assert_eq!(Scalar::infinity().to_bits(), f64::INFINITY.to_bits());
    assert_eq!(Scalar::neg_infinity().to_bits(), f64::NEG_INFINITY.to_bits());
    assert_eq!(Scalar::max_finite().to_bits(), f64::MAX.to_bits());
    assert_eq!(Scalar::min_finite().to_bits(), f64::MIN.to_bits());
    assert_eq!(INFINITY_BITS, f64::INFINITY.to_bits());
    assert_eq!(MAX_FINITE_BITS, f64::MAX.to_bits());
    assert_eq!(SIGN_BIT, (-0.0f64).to_bits());
}

#[test]
fn nan_is_told_from_numbers() {
    for x in samples() {
        assert_eq!(num(x).is_nan(), x.is_nan(), "is_nan of {}", x);
    }
}

#[test]
fn comparisons_agree_with_the_hardware() {
    for a in samples() {
        for b in samples() {
            assert_eq!(num(a).lt(num(b)), a < b, "{} < {}", a, b);
            assert_eq!(num(a).le(num(b)), a <= b, "{} <= {}", a, b);
            assert_eq!(num(a).gt(num(b)), a > b, "{} > {}", a, b);
            assert_eq!(num(a).ge(num(b)), a >= b, "{} >= {}", a, b);
        }
    }
}

#[test]
fn outside_is_below_or_above() {
    for t in samples() {
        for lo in samples() {
            for hi in samples() {
                assert_eq!(num(t).outside(num(lo), num(hi)), t < lo || t > hi);
            }
        }
    }
    assert!(!num(f64::NAN).outside(num(0.0), num(1.0)));
    assert!(num(2.0).outside(num(0.0), num(1.0)));
    assert!(!num(1.0).outside(num(0.0), num(1.0)));
}

#[test]
fn min_and_max_agree_with_the_hardware() {
    for a in samples() {
        for b in samples() {
            let lo = val(num(a).min(num(b)));
            let hi = val(num(a).max(num(b)));
            let want_lo = a.min(b);
            let want_hi = a.max(b);
            if want_lo.is_nan() {
                assert!(lo.is_nan());
            } else {
                assert!(lo == want_lo, "min({}, {}) gave {}", a, b, lo);
            }
            if want_hi.is_nan() {
                assert!(hi.is_nan());
            } else {
                assert!(hi == want_hi, "max({}, {}) gave {}", a, b, hi);
            }
        }
    }
}

#[test]
fn min_and_max_exact_values() {
    assert_eq!(num(2.0).min(num(3.0)).to_bits(), 2.0f64.to_bits());
    assert_eq!(num(2.0).max(num(3.0)).to_bits(), 3.0f64.to_bits());
    assert_eq!(num(f64::NAN).min(num(3.0)).to_bits(), 3.0f64.to_bits());
    assert_eq!(num(3.0).max(num(f64::NAN)).to_bits(), 3.0f64.to_bits());
    assert_eq!(num(-7.5).min(num(f64::NEG_INFINITY)).to_bits(), f64::NEG_INFINITY.to_bits());
    // of two zeros the receiver is taken
    assert_eq!(num(0.0).min(num(-0.0)).to_bits(), 0.0f64.to_bits());
    assert_eq!(num(-0.0).max(num(0.0)).to_bits(), (-0.0f64).to_bits());
}

#[test]
fn neg_and_abs_agree_with_the_hardware() {
    for a in samples() {
        assert_eq!(num(a).neg().to_bits(), (-a).to_bits(), "neg {}", a);
        assert_eq!(num(a).abs().to_bits(), a.abs().to_bits(), "abs {}", a);
        assert_eq!(num(a).neg().neg().to_bits(), a.to_bits());
    }
}

#[test]
fn key_grows_with_the_number() {
    for a in samples() {
        for b in samples() {
            if a.is_nan() || b.is_nan() {
                continue;
            }
            assert_eq!(num(a).key() < num(b).key(), a < b, "{} {}", a, b);
            assert_eq!(num(a).key() == num(b).key(), a == b, "{} {}", a, b);
        }
    }
    assert_eq!(num(0.0).key(), 0);
    assert_eq!(num(-0.0).key(), 0);
    assert_eq!(num(1.0).key(), 0x3FF0_0000_0000_0000);
    assert_eq!(num(-1.0).key(), -0x3FF0_0000_0000_0000);
}

#[test]
fn vec3_components() {
    let v = Vec3::new(num(1.0), num(2.0), num(3.0));
    assert_eq!(val(v.x()), 1.0);
    assert_eq!(val(v.y()), 2.0);
    assert_eq!(val(v.z()), 3.0);
    for axis in 0..3 {
        assert_eq!(val(v.get(axis)), axis as f64 + 1.0);
    }
    let w = v.with(1, num(9.0));
    assert_eq!((val(w.x()), val(w.y()), val(w.z())), (1.0, 9.0, 3.0));
    let z = Vec3::zero();
    assert_eq!((z.x().to_bits(), z.y().to_bits(), z.z().to_bits()), (0, 0, 0));
}

#[test]
fn vec3_neg_min_max() {
    let a = Vec3::new(num(1.0), num(-2.0), num(0.0));
    let b = Vec3::new(num(-1.0), num(5.0), num(0.5));
    let n = a.neg();
    assert_eq!((val(n.x()), val(n.y())), (-1.0, 2.0));
    assert_eq!(n.z().to_bits(), (-0.0f64).to_bits());
    let lo = a.min(&b);
    let hi = a.max(&b);
    assert_eq!((val(lo.x()), val(lo.y()), val(lo.z())), (-1.0, -2.0, 0.0));
    assert_eq!((val(hi.x()), val(hi.y()), val(hi.z())), (1.0, 5.0, 0.5));
}

#[test]
fn vec3_near_zero_is_strict_on_every_component() {
    let eps = num(1e-8);
    assert!(Vec3::new(num(0.0), num(-0.0), num(9e-9)).near_zero(eps));
    assert!(Vec3::new(num(-9e-9), num(9e-9), num(-9e-9)).near_zero(eps));
    assert!(!Vec3::new(num(1e-8), num(0.0), num(0.0)).near_zero(eps));
    assert!(!Vec3::new(num(0.0), num(-2e-8), num(0.0)).near_zero(eps));
    assert!(!Vec3::new(num(0.0), num(0.0), num(1.0)).near_zero(eps));
    assert!(!Vec3::new(num(f64::NAN), num(0.0), num(0.0)).near_zero(eps));
}
