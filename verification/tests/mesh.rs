use fidget_shell::alu::{Alu, ScalarFn, ScalarOp};
use fidget_shell::scalar::Float32;
use fidget_shell::mesh::sampled_quadratic::{CellBounds, SampledPoint, SampledQuadraticSolver};
use fidget_shell::mesh::sdf_normal::{
    central_difference_gradient, central_difference_normal, forward_difference_gradient,
};
use fidget_shell::shell::bounds::Point;
use nalgebra::Vector3;

fn single(x: f32) -> Float32 {
    Float32::from_bits(x.to_bits())
}

fn value(x: Float32) -> f32 {
    f32::from_bits(x.to_bits())
}

fn arithmetic(op: ScalarOp, x: Float32, y: Float32, z: Float32) -> Float32 {
    let (x, y, z) = (value(x), value(y), value(z));
    single(match op {
        ScalarOp::Add => x + y,
        ScalarOp::Sub => x - y,
        ScalarOp::Mul => x * y,
        ScalarOp::Div => x / y,
        ScalarOp::MulAdd => x.mul_add(y, z),
        ScalarOp::Sqrt => x.sqrt(),
        ScalarOp::Floor => x.floor(),
        ScalarOp::Ceil => x.ceil(),
        ScalarOp::Round => x.round(),
        ScalarOp::Sin => x.sin(),
        ScalarOp::Cos => x.cos(),
        ScalarOp::Tan => x.tan(),
        ScalarOp::Asin => x.asin(),
        ScalarOp::Acos => x.acos(),
        ScalarOp::Atan => x.atan(),
        ScalarOp::Exp => x.exp(),
        ScalarOp::Ln => x.ln(),
        ScalarOp::Atan2 => x.atan2(y),
        ScalarOp::RemEuclid => x.rem_euclid(y),
    })
}

fn alu() -> Alu<impl ScalarFn> {
    Alu::new(arithmetic)
}

fn point(p: Vector3<f32>) -> Point {
    Point { x: single(p.x), y: single(p.y), z: single(p.z) }
}

fn vector(p: Point) -> Vector3<f32> {
    Vector3::new(value(p.x), value(p.y), value(p.z))
}

/// Distance test helper.
fn close_to(actual: Vector3<f32>, expected: Vector3<f32>, tol: f32) {
    let d = (actual - expected).norm();
    assert!(
        d <= tol,
        "vector {actual:?} too far from expected {expected:?} (d={d:.4}, tol={tol:.4})"
    );
}

fn central(p: Vector3<f32>, h: f32, sdf: impl Fn(Vector3<f32>) -> f32) -> Vector3<f32> {
    let field = |p: Point| single(sdf(vector(p)));
    vector(central_difference_gradient(&alu(), point(p), single(h), &field))
}

fn forward(p: Vector3<f32>, h: f32, sdf: impl Fn(Vector3<f32>) -> f32) -> Vector3<f32> {
    let field = |p: Point| single(sdf(vector(p)));
    vector(forward_difference_gradient(&alu(), point(p), single(h), &field))
}

fn normal(
    p: Vector3<f32>,
    h: f32,
    fallback: Vector3<f32>,
    threshold: f32,
    sdf: impl Fn(Vector3<f32>) -> f32,
) -> Vector3<f32> {
    let field = |p: Point| single(sdf(vector(p)));
    vector(central_difference_normal(
        &alu(),
        point(p),
        single(h),
        point(fallback),
        single(threshold),
        &field,
    ))
}

/// Sphere of radius 0.5 at origin.
#[test]
fn sphere_gradient_matches_analytic() {
    let sdf = |p: Vector3<f32>| p.norm() - 0.5;
    // Pick a point well off-axis to exercise all three derivative slots.
    let p = Vector3::new(0.3, 0.4, 0.0);
    let expected = p.normalize(); // analytic gradient
    let g = central(p, 1.0e-3, sdf);
    close_to(g, expected, 1.0e-3);
}

/// Plane x = 0.
#[test]
fn plane_gradient_constant() {
    let sdf = |p: Vector3<f32>| p.x;
    for p in [
        Vector3::new(0.0, 0.0, 0.0),
        Vector3::new(0.5, -1.0, 0.7),
        Vector3::new(-0.3, 0.2, 0.0),
    ] {
        let g = central(p, 1.0e-2, sdf);
        close_to(g, Vector3::new(1.0, 0.0, 0.0), 1.0e-3);
    }
}

/// Forward difference matches central difference to first order for a
/// smooth field.
#[test]
fn forward_difference_agrees_first_order() {
    let sdf = |p: Vector3<f32>| p.norm() - 1.0;
    let p = Vector3::new(0.6, 0.0, 0.0);
    let g_cd = central(p, 1.0e-3, sdf);
    let g_fd = forward(p, 1.0e-3, sdf);
    close_to(g_cd, g_fd, 5.0e-3);
}

/// `central_difference_normal` returns the unit gradient when the field
/// is well-conditioned.
#[test]
fn central_difference_normal_returns_unit_gradient() {
    let sdf = |p: Vector3<f32>| p.norm() - 0.5;
    let p = Vector3::new(0.0, 0.0, 0.6);
    let n = normal(p, 1.0e-3, Vector3::new(0.0, 1.0, 0.0), 1.0e-6, sdf);
    close_to(n, Vector3::new(0.0, 0.0, 1.0), 1.0e-3);
    // Unit length within rounding.
    assert!((n.norm() - 1.0).abs() < 1.0e-3);
}

/// `central_difference_normal` returns the fallback when the gradient is
/// vanishingly small (constant field).
#[test]
fn central_difference_normal_falls_back_when_degenerate() {
    let sdf = |_p: Vector3<f32>| 0.42_f32; // constant; gradient is zero
    let y = Vector3::new(0.0, 1.0, 0.0);
    let n = normal(Vector3::new(0.0, 0.0, 0.0), 1.0e-3, y, 1.0e-6, sdf);
    assert_eq!(n, y);
}

/// On a face of a box, the gradient is that of the half-space of the face.
#[test]
fn box_face_gradient_picks_active_half_space() {
    let sdf = |p: Vector3<f32>| {
        (p.x.abs() - 0.4).max((p.y.abs() - 0.4).max(p.z.abs() - 0.4))
    };
    let p = Vector3::new(0.5, 0.0, 0.0);
    // Use a small step so we don't straddle into a different active
    // half-space across the +x face boundary.
    let g = central(p, 1.0e-3, sdf);
    close_to(g.normalize(), Vector3::new(1.0, 0.0, 0.0), 1.0e-3);
}

#[test]
fn solver_accumulates_sample_count() {
    let mut solver = SampledQuadraticSolver::new();
    assert_eq!(solver.sample_count(), 0);
    solver.add_sample(
        &alu(),
        SampledPoint { pos: point(Vector3::new(0.0, 0.0, 0.0)), value: single(0.0) },
    );
    solver.add_sample(
        &alu(),
        SampledPoint { pos: point(Vector3::new(1.0, 0.0, 0.0)), value: single(1.0) },
    );
    assert_eq!(solver.sample_count(), 2);
}

#[test]
fn solver_places_the_vertex_at_the_centroid_within_the_cell() {
    let mut solver = SampledQuadraticSolver::new();
    for x in [1.0, 2.0, 3.0] {
        solver.add_sample(
            &alu(),
            SampledPoint { pos: point(Vector3::new(x, 0.25, -1.0)), value: single(0.0) },
        );
    }
    let wide = CellBounds {
        min: point(Vector3::new(-4.0, -4.0, -4.0)),
        max: point(Vector3::new(4.0, 4.0, 4.0)),
    };
    let (vertex, residual) = solver.solve_in_cell(&alu(), wide);
    assert_eq!(vector(vertex.pos), Vector3::new(2.0, 0.25, -1.0));
    assert!(residual.is_nan());
    let (vertex, _) = solver.solve_in_cell(&alu(), CellBounds::unit());
    assert_eq!(vector(vertex.pos), Vector3::new(1.0, 0.25, 0.0));
    assert!(solver.coefficients().is_none());
}

#[test]
fn cell_bounds_contains_basic() {
    let b = CellBounds::unit();
    assert!(b.contains(point(Vector3::new(0.5, 0.5, 0.5))));
    assert!(!b.contains(point(Vector3::new(-0.1, 0.5, 0.5))));
    assert!(!b.contains(point(Vector3::new(0.5, 1.1, 0.5))));
    assert_eq!(vector(b.center(&alu())), Vector3::new(0.5, 0.5, 0.5));
}
