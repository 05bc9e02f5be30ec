use fidget_shell::alu::{Alu, ScalarFn, ScalarOp};
use fidget_shell::scalar::Float32;
use fidget_shell::shell::cubic::ShellCubicCoefficients;
use fidget_shell::shell::outline::{curve_difference, curve_size, edge_bound};
use fidget_shell::shell::profile::ShellProfileNodeContinuity;
use fidget_shell::shell::reach::{coeff_size, control_values, difference_slack, line_size};
use fidget_shell::shell::section::{HermiteEdge, ProfileNodeSample};

fn single(x: f32) -> Float32 {
    Float32::from_bits(x.to_bits())
}

fn value(x: Float32) -> f32 {
    f32::from_bits(x.to_bits())
}

fn arithmetic(op: ScalarOp, x: Float32, y: Float32, z: Float32) -> Float32 {
    let (x, y, z) = (value(x), value(y), value(z));
    single(match op {
        ScalarOp::Add => x + y,
        ScalarOp::Sub => x - y,
        ScalarOp::Mul => x * y,
        ScalarOp::Div => x / y,
        ScalarOp::MulAdd => x.mul_add(y, z),
        ScalarOp::Sqrt => x.sqrt(),
        ScalarOp::Floor => x.floor(),
        ScalarOp::Ceil => x.ceil(),
        ScalarOp::Round => x.round(),
        ScalarOp::Sin => x.sin(),
        ScalarOp::Cos => x.cos(),
        ScalarOp::Tan => x.tan(),
        ScalarOp::Asin => x.asin(),
        ScalarOp::Acos => x.acos(),
        ScalarOp::Atan => x.atan(),
        ScalarOp::Exp => x.exp(),
        ScalarOp::Ln => x.ln(),
        ScalarOp::Atan2 => x.atan2(y),
        ScalarOp::RemEuclid => x.rem_euclid(y),
    })
}

fn alu() -> Alu<impl ScalarFn> {
    Alu::new(arithmetic)
}

#[test]
fn comparisons_are_those_of_numbers() {
    let values = [
        f32::NEG_INFINITY, -2.5, -1.0e-40, -0.0, 0.0, 1.0e-40, 1.0, 3.5, f32::INFINITY, f32::NAN,
    ];
    for a in values {
        for b in values {
            let (x, y) = (single(a), single(b));
            assert_eq!(x.lt(y), a < b);
            assert_eq!(x.le(y), a <= b);
            assert_eq!(x.gt(y), a > b);
            assert_eq!(x.ge(y), a >= b);
            assert_eq!(x.same(y), a == b);
        }
        assert_eq!(single(a).is_nan(), a.is_nan());
        assert_eq!(single(a).is_finite(), a.is_finite());
        assert_eq!(single(a).abs(), single(a.abs()));
        assert_eq!(single(a).neg(), single(-a));
        assert_eq!(single(a).is_zero(), a == 0.0);
    }
}

#[test]
fn selection_skips_values_that_are_not_numbers() {
    let nan = single(f32::NAN);
    assert_eq!(value(single(2.0).min(nan)), 2.0);
    assert_eq!(value(nan.max(single(2.0))), 2.0);
    assert_eq!(value(single(2.0).min(single(3.0))), 2.0);
    assert_eq!(value(single(2.0).max(single(3.0))), 3.0);
    assert_eq!(value(single(1.5).unit_clamp()), 1.0);
    assert_eq!(value(single(-1.5).unit_clamp()), 0.0);
}

#[test]
fn bytes_are_whole_parts_brought_into_range() {
    for x in [
        0.0, 0.5, 0.999, 1.0, 1.5, 2.0, 127.9, 128.0, 254.99, 255.0, 255.5, 256.0, 1.0e9, -0.5,
        -3.0, 1.0e-40, f32::INFINITY, f32::NEG_INFINITY, f32::NAN,
    ] {
        assert_eq!(single(x).to_byte(), x as u8, "{x}");
    }
}

#[test]
fn arithmetic_is_the_supplied_one() {
    let unit = alu();
    assert_eq!(value(unit.add(single(1.0), single(2.0))), 3.0);
    assert_eq!(value(unit.sub(single(1.0), single(2.0))), -1.0);
    assert_eq!(value(unit.lerp(single(1.0), single(3.0), single(0.5))), 2.0);
    assert_eq!(value(unit.sqrt(single(9.0))), 3.0);
}

/// Numbers of many sizes, the special ones among them.
fn assorted() -> Vec<f32> {
    let mut numbers = vec![0.0, f32::INFINITY, f32::MAX, f32::MIN_POSITIVE, 1.0e-40, 1.0e-5];
    let mut bits: u32 = 0x1234_5678;
    for _ in 0..20 {
        bits = bits.wrapping_mul(1_664_525).wrapping_add(1_013_904_223);
        numbers.push((bits >> 8) as f32 / 65_536.0);
        numbers.push(f32::from_bits(bits & 0x7f7f_ffff));
    }
    let negative: Vec<f32> = numbers.iter().map(|x| -x).collect();
    numbers.extend(negative);
    numbers
}

#[test]
fn machine_differences_keep_order() {
    let alu = alu();
    let numbers = assorted();
    let sub = |a: f32, b: f32| value(alu.sub(single(a), single(b)));
    let add = |a: f32, b: f32| value(alu.add(single(a), single(b)));
    for &a in &numbers {
        for &b in &numbers {
            if a > b {
                assert!(sub(a, b) > 0.0);
            }
            if a >= b && b.is_finite() {
                assert!(sub(a, b) >= 0.0);
            }
            if a.is_finite() {
                assert!(if b <= 0.0 { add(a, b) <= a } else { add(a, b) >= a });
            }
            if !sub(a, b).is_nan() {
                assert_eq!(sub(a, b).abs().to_bits(), sub(b, a).abs().to_bits());
            }
            for &c in &numbers {
                if sub(a, b) > c {
                    assert!(sub(a, c) >= b);
                }
                if c > add(a, b) {
                    assert!(sub(c, a) >= b);
                }
                if a <= c && !sub(a, b).is_nan() && !sub(c, b).is_nan() {
                    assert!(sub(a, b) <= sub(c, b));
                }
            }
        }
    }
}

#[test]
fn machine_squares_keep_order() {
    let alu = alu();
    let numbers = assorted();
    let mul = |a: f32| value(alu.mul(single(a), single(a)));
    let mul_add = |a: f32, c: f32| value(alu.mul_add(single(a), single(a), single(c)));
    let sqrt = |a: f32| value(alu.sqrt(single(a)));
    for &d in &numbers {
        assert!(mul(d) >= 0.0);
        assert_eq!(mul(d).to_bits(), mul(d.abs()).to_bits());
        if d >= 0.0 {
            assert!(sqrt(d) >= 0.0);
        }
        for &c in &numbers {
            if !mul_add(d, c).is_nan() {
                assert_eq!(mul_add(d, c).to_bits(), mul_add(d.abs(), c).to_bits());
            }
            if c >= 0.0 {
                assert!(mul_add(d, c) >= c && mul_add(d, c) >= mul(d));
            }
            if d.abs() >= 1.0e-5 && mul(d) <= c {
                assert!(d.abs() <= sqrt(c));
            }
            if d.abs() >= 1.0e-5 {
                assert!(d.abs() <= sqrt(mul(d)));
            }
            if d >= 0.0 && d <= c {
                assert!(mul(d) <= mul(c) && sqrt(d) <= sqrt(c));
                for &e in &numbers {
                    if e >= 0.0 {
                        assert!(mul_add(d, e) <= mul_add(c, e));
                        assert!(mul_add(e, d) <= mul_add(e, c));
                    }
                }
            }
        }
    }
    assert_eq!((mul(0.0), mul_add(0.0, 0.0), sqrt(0.0)), (0.0, 0.0, 0.0));
}

#[test]
fn machine_sums_products_and_quotients_keep_order() {
    let alu = alu();
    let numbers: Vec<f32> = assorted().into_iter().filter(|x| x.is_finite()).collect();
    let add = |a: f32, b: f32| value(alu.add(single(a), single(b)));
    let sub = |a: f32, b: f32| value(alu.sub(single(a), single(b)));
    let mul = |a: f32, b: f32| value(alu.mul(single(a), single(b)));
    let div = |a: f32, b: f32| value(alu.div(single(a), single(b)));
    for &a in &numbers {
        assert_eq!(sub(a, a), 0.0);
        for &b in &numbers {
            for &c in &numbers {
                if a > c {
                    continue;
                }
                assert!(add(a, b) <= add(c, b) && add(b, a) <= add(b, c));
                assert!(sub(a, b) <= sub(c, b) && sub(b, c) <= sub(b, a));
                if b >= 0.0 {
                    assert!(mul(a, b) <= mul(c, b) && mul(b, a) <= mul(b, c));
                }
                if b <= 0.0 {
                    assert!(mul(c, b) <= mul(a, b) && mul(b, c) <= mul(b, a));
                }
                if b > 0.0 {
                    assert!(div(a, b) <= div(c, b));
                }
                if b < 0.0 {
                    assert!(div(c, b) <= div(a, b));
                }
                if a > 0.0 || c < 0.0 {
                    if b >= 0.0 {
                        assert!(div(b, c) <= div(b, a));
                    }
                    if b <= 0.0 {
                        assert!(div(b, a) <= div(b, c));
                    }
                }
            }
        }
    }
    for infinite in [f32::INFINITY, f32::NEG_INFINITY] {
        for &b in &numbers {
            if b != 0.0 {
                assert_eq!(div(infinite, b), infinite * b.signum());
            }
        }
    }
}

#[test]
fn machine_results_of_nan_are_nan() {
    let alu = alu();
    let nan = single(f32::NAN);
    for x in assorted() {
        let x = single(x);
        for (a, b) in [(x, nan), (nan, x), (nan, nan)] {
            assert!(value(alu.add(a, b)).is_nan());
            assert!(value(alu.sub(a, b)).is_nan());
            assert!(value(alu.mul(a, b)).is_nan());
            assert!(value(alu.mul_add(a, b, x)).is_nan());
        }
        assert!(value(alu.mul_add(x, x, nan)).is_nan());
    }
}

#[test]
fn machine_edges_are_no_wider_than_their_bound() {
    let alu = alu();
    let node = |half_width: f32, z: f32| ProfileNodeSample {
        half_width: single(half_width),
        z: single(z),
        continuity: ShellProfileNodeContinuity::Smooth,
    };
    let widths = [0.0, 1.0e-30, 1.0e-3, 0.37, 0.9999, 1.0, 3.0, 1.0e7, 3.0e38, f32::MAX];
    let slopes = [0.0, 1.0e-20, -0.5, 0.5, 1.0, -3.0, 1.0e5, -1.0e30, 2.0e38];
    let mut checked = 0;
    for &a in &widths {
        for &c in &widths {
            for &rise in &[1.0e-8f32, 0.3, -1.0, 2.0] {
                for &s in &slopes {
                    for &e in &slopes {
                        let edge = HermiteEdge {
                            a: node(a, 0.0),
                            c: node(c, rise),
                            a_slope: single(s),
                            c_slope: single(e),
                        };
                        let (m0, m1) = (s * rise, e * rise);
                        if !m0.is_finite() || !m1.is_finite() {
                            continue;
                        }
                        let bound = value(edge_bound(
                            &alu,
                            single(a.max(c)),
                            single(m0.abs()),
                            single(m1.abs()),
                        ));
                        for i in 0..=48 {
                            let t = i as f32 / 48.0;
                            assert!(value(edge.width_at(&alu, single(t))) <= bound);
                            checked += 1;
                        }
                    }
                }
            }
        }
    }
    assert!(checked > 100_000);
}

#[test]
fn machine_sums_and_quotients_reach_the_ends() {
    let alu = alu();
    let numbers = assorted();
    let add = |a: f32, b: f32| value(alu.add(single(a), single(b)));
    let div = |a: f32, b: f32| value(alu.div(single(a), single(b)));
    for &a in &numbers {
        for &b in &numbers {
            if (a >= 0.0 && b >= 0.0) || (a <= 0.0 && b <= 0.0) {
                assert!(!add(a, b).is_nan());
            }
            if (a.is_finite() && b.is_infinite()) || (a == 0.0 && b != 0.0) {
                assert_eq!(div(a, b), 0.0);
            }
            for &c in &numbers {
                if a <= c && !add(a, b).is_nan() && !add(c, b).is_nan() {
                    assert!(add(a, b) <= add(c, b) && add(b, a) <= add(b, c));
                }
            }
        }
    }
}

#[test]
fn machine_differences_of_curves_are_near_those_of_coefficients() {
    let alu = alu();
    let mut bits: u32 = 0x8765_4321;
    let mut next = |scale: f32| {
        bits = bits.wrapping_mul(1_664_525).wrapping_add(1_013_904_223);
        ((bits >> 8) as f32 / 8_388_608.0 - 1.0) * scale
    };
    for scale in [1.0e-40f32, 1.0e-12, 1.0e-3, 1.0, 1.0e6, 1.0e16] {
        for round in 0..2000 {
            let mut curve = || ShellCubicCoefficients {
                c0: single(next(scale)),
                c1: single(next(scale)),
                c2: single(next(scale)),
                c3: single(next(scale)),
            };
            let (a, c) = (curve(), curve());
            let t = single(round as f32 / 1999.0);
            let size = curve_size(&alu, a, c);
            assert!(value(size) <= 1.0e18);
            let slack = difference_slack(&alu, size);
            let rise = value(alu.sub(c.eval(&alu, t), a.eval(&alu, t)));
            let near = curve_difference(&alu, a, c).eval(&alu, t);
            assert!(value(alu.sub(near, slack)) <= rise && rise <= value(alu.add(near, slack)));

            let size = line_size(&alu, a.c0, a.c1, c.c0, c.c1);
            let slack = difference_slack(&alu, size);
            let rise = value(alu.sub(alu.lerp(c.c0, c.c1, t), alu.lerp(a.c0, a.c1, t)));
            let near = alu.lerp(alu.sub(c.c0, a.c0), alu.sub(c.c1, a.c1), t);
            assert!(value(alu.sub(near, slack)) <= rise && rise <= value(alu.add(near, slack)));
        }
    }
}

#[test]
fn machine_curves_run_between_their_control_values() {
    let alu = alu();
    let mut bits: u32 = 0x1357_9bdf;
    let mut next = || {
        bits = bits.wrapping_mul(1_664_525).wrapping_add(1_013_904_223);
        (bits >> 8) as f32 / 16_777_216.0
    };
    for scale in [1.0e-40f32, 1.0e-12, 1.0e-3, 1.0, 1.0e6, 1.0e16] {
        for _ in 0..2000 {
            let mut number = || single((next() * 2.0 - 1.0) * scale);
            let coeffs = ShellCubicCoefficients {
                c0: number(),
                c1: number(),
                c2: number(),
                c3: number(),
            };
            let (a, b) = (next(), next());
            let (from, to) = (a.min(b), a.max(b));
            let size = coeff_size(&alu, coeffs);
            let slack = difference_slack(&alu, size);
            let controls = control_values(&alu, coeffs, single(from), single(to));
            let least = value(alu.sub(controls.least(), slack));
            let greatest = value(alu.add(controls.greatest(), slack));
            for i in 0..=10 {
                let t = (from + (to - from) * i as f32 / 10.0).min(to);
                let v = value(coeffs.eval(&alu, single(t)));
                assert!(least <= v && v <= greatest);
            }
        }
    }
}
