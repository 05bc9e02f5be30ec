use fidget_shell::alu::{Alu, ScalarFn, ScalarOp};
use fidget_shell::scalar::Float32;
use fidget_shell::shell::profile::ShellProfileSpanInterpolation;
use fidget_shell::ship::expression::{Tree, TreeBinary, TreeUnary};
use fidget_shell::ship::lines::{BuiltinHull, HullSplineRole, station_x};
use fidget_shell::ship::names::{
    ShipTarget, ShipTree, build_builtin_ship_tree, builtin_ship_options, is_builtin_ship_target,
    ship_target,
};
use fidget_shell::ship::native::{
    closed_thick_options, closed_thin_options, native_ship_profile_sections,
    native_ship_sections, open_top_options,
};
use fidget_shell::ship::spline::build_spline_ship_shell_tree;
use fidget_shell::ship::wide::{Float64, Wide, WideCall, WideFn};

fn single(x: f32) -> Float32 {
    Float32::from_bits(x.to_bits())
}

fn value(x: Float32) -> f32 {
    f32::from_bits(x.to_bits())
}

fn arithmetic(op: ScalarOp, x: Float32, y: Float32, z: Float32) -> Float32 {
    let (x, y, z) = (value(x), value(y), value(z));
    single(match op {
        ScalarOp::Add => x + y,
        ScalarOp::Sub => x - y,
        ScalarOp::Mul => x * y,
        ScalarOp::Div => x / y,
        ScalarOp::MulAdd => x.mul_add(y, z),
        ScalarOp::Sqrt => x.sqrt(),
        ScalarOp::Floor => x.floor(),
        ScalarOp::Ceil => x.ceil(),
        ScalarOp::Round => x.round(),
        ScalarOp::Sin => x.sin(),
        ScalarOp::Cos => x.cos(),
        ScalarOp::Tan => x.tan(),
        ScalarOp::Asin => x.asin(),
        ScalarOp::Acos => x.acos(),
        ScalarOp::Atan => x.atan(),
        ScalarOp::Exp => x.exp(),
        ScalarOp::Ln => x.ln(),
        ScalarOp::Atan2 => x.atan2(y),
        ScalarOp::RemEuclid => x.rem_euclid(y),
    })
}

fn alu() -> Alu<impl ScalarFn> {
    Alu::new(arithmetic)
}

fn double(x: f64) -> Float64 {
    Float64 { bits: x.to_bits() }
}

fn wide_value(x: Float64) -> f64 {
    f64::from_bits(x.bits)
}

fn wide_arithmetic(call: WideCall) -> Float64 {
    double(match call {
        WideCall::Widen(x) => value(x) as f64,
        WideCall::Count(n) => n as f64,
        WideCall::Add(x, y) => wide_value(x) + wide_value(y),
        WideCall::Sub(x, y) => wide_value(x) - wide_value(y),
        WideCall::Mul(x, y) => wide_value(x) * wide_value(y),
        WideCall::Neg(x) => -wide_value(x),
    })
}

fn wide() -> Wide<impl WideFn> {
    Wide::new(wide_arithmetic)
}

fn eval(tree: &Tree, x: f64, y: f64, z: f64) -> f64 {
    match tree {
        Tree::X => x,
        Tree::Y => y,
        Tree::Z => z,
        Tree::Constant(c) => wide_value(*c),
        Tree::Unary(op, a) => {
            let a = eval(a, x, y, z);
            match op {
                TreeUnary::Neg => -a,
                TreeUnary::Abs => a.abs(),
                TreeUnary::Sqrt => a.sqrt(),
                TreeUnary::Square => a * a,
                TreeUnary::Floor => a.floor(),
            }
        }
        Tree::Binary(op, a, b) => {
            let (a, b) = (eval(a, x, y, z), eval(b, x, y, z));
            match op {
                TreeBinary::Add => a + b,
                TreeBinary::Sub => a - b,
                TreeBinary::Mul => a * b,
                TreeBinary::Div => a / b,
                TreeBinary::Min => a.min(b),
                TreeBinary::Max => a.max(b),
                TreeBinary::Compare => {
                    if a < b {
                        -1.0
                    } else if a > b {
                        1.0
                    } else {
                        0.0
                    }
                }
            }
        }
    }
}

#[test]
fn names_are_recognized_whatever_their_case_and_surroundings() {
    for name in [
        "ship",
        "ship-expression",
        "ship-thick",
        "ship-closed-thick",
        "ship-thin",
        "ship-closed-thin",
        "ship-open",
        "ship-open-top",
        "ship-native-line-loft",
        "ship-native-curve-loft",
        "ship-native-shell",
        "ship-native-profile-shell",
        "ship-native-hull",
        "  Ship-Native-HULL\n",
        "\tSHIP ",
    ] {
        assert!(is_builtin_ship_target(name), "{name}");
    }
    for name in ["", "shi", "ships", "ship native", "ship-", "boat"] {
        assert!(!is_builtin_ship_target(name), "{name}");
        assert!(build_builtin_ship_tree(&alu(), &wide(), name).is_none());
    }
}

#[test]
fn names_stand_for_options() {
    assert_eq!(builtin_ship_options(&"ship".to_string()), Some(closed_thick_options()));
    assert_eq!(builtin_ship_options(&"ship-thin".to_string()), Some(closed_thin_options()));
    assert_eq!(builtin_ship_options(&"ship-open-top".to_string()), Some(open_top_options()));
    assert_eq!(builtin_ship_options(&"Ship".to_string()), None);
    assert_eq!(
        ship_target(&"ship-native-hull".to_string()),
        Some(ShipTarget::NativeShell)
    );
    assert_eq!(value(closed_thin_options().shell_thickness), 0.055);
    assert_eq!(value(closed_thick_options().shell_thickness), 0.115);
    assert_eq!(value(open_top_options().open_top_half_length), 0.84);
}

#[test]
fn stations_are_spread_over_the_hull() {
    assert_eq!(value(station_x(&alu(), 0)), -1.34);
    assert!((value(station_x(&alu(), 10)) - 1.18).abs() < 1.0e-6);
    assert!((value(station_x(&alu(), 5)) + 0.08).abs() < 1.0e-6);
    let hull = BuiltinHull::hercules(&alu());
    let beam = hull.spline(HullSplineRole::NativeHalfBreadth);
    assert_eq!(beam.points.len(), 11);
    assert_eq!(value(beam.points[5].y), 0.360);
    assert_eq!(value(beam.points[5].z), 0.0);
    let keel = hull.spline(HullSplineRole::KeelProfile);
    assert_eq!(value(keel.points[1].z), -0.12);
}

#[test]
fn native_sections_follow_the_lines() {
    let circles = native_ship_sections(&alu());
    assert_eq!(circles.len(), 11);
    assert!((value(circles[5].center_z) - (-0.372 + 0.158) * 0.5).abs() < 1.0e-6);
    assert_eq!(value(circles[5].radius), 0.360);
    // The last station has no breadth, so the height decides its radius.
    assert!((value(circles[10].radius) - (0.338 - 0.135) * 0.5 * 0.35).abs() < 1.0e-6);

    let sections = native_ship_profile_sections(&alu());
    assert_eq!(sections.len(), 11);
    assert_eq!(sections[7].span_interpolation, ShellProfileSpanInterpolation::SmoothCatmullRom);
    assert_eq!(sections[8].span_interpolation, ShellProfileSpanInterpolation::Linear);
    assert!(sections.iter().all(|section| section.ship_fast_path));
    assert_eq!(value(sections[0].keel_z), 0.105);
}

#[test]
fn every_ship_can_be_built() {
    assert!(matches!(
        build_builtin_ship_tree(&alu(), &wide(), "ship-native-line-loft"),
        Some(ShipTree::LineLoft(_))
    ));
    assert!(matches!(
        build_builtin_ship_tree(&alu(), &wide(), "ship-native-curve-loft"),
        Some(ShipTree::CurveLoft(_))
    ));
    assert!(matches!(
        build_builtin_ship_tree(&alu(), &wide(), "ship-native-shell"),
        Some(ShipTree::ShellHull(_))
    ));
    assert!(matches!(
        build_builtin_ship_tree(&alu(), &wide(), "ship-open"),
        Some(ShipTree::Expression(_))
    ));
}

#[test]
fn expression_is_a_shell_around_the_lines() {
    let shell = build_spline_ship_shell_tree(&alu(), &wide(), closed_thick_options());
    // Amidships, the hold is empty, the bottom is solid, and the water is outside.
    assert!(eval(&shell, 0.0, 0.0, -0.1) > 0.0);
    assert!(eval(&shell, 0.0, 0.0, -0.33) < 0.0);
    assert!(eval(&shell, 0.0, 0.0, -0.5) > 0.0);
    // The deck of the closed hull is solid, and that of the open one is not.
    assert!(eval(&shell, 0.0, 0.0, 0.12) < 0.0);
    let open = build_spline_ship_shell_tree(&alu(), &wide(), open_top_options());
    assert!(eval(&open, 0.0, 0.0, 0.12) > 0.0);
}

#[test]
fn white_space_around_a_name_is_taken_off() {
    let white = |c: char| {
        matches!(
            c as u32,
            0x9..=0xd
                | 0x20
                | 0x85
                | 0xa0
                | 0x1680
                | 0x2000..=0x200a
                | 0x2028
                | 0x2029
                | 0x202f
                | 0x205f
                | 0x3000
        )
    };
    for c in (0..=0x10_ffffu32).filter_map(char::from_u32) {
        assert_eq!(is_builtin_ship_target(&format!("{c}ship{c}{c}")), white(c));
    }
}
