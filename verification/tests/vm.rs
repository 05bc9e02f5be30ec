use fidget_shell::alu::{Alu, ScalarFn, ScalarOp};
use fidget_shell::scalar::Float32;
use fidget_shell::mesh::sdf_normal::central_difference_gradient;
use fidget_shell::shell::bounds::Point;
use fidget_shell::shell::eval::{ShellEvalScratch, eval_shell_distance};
use fidget_shell::shell::interval::{Interval, ShellIntervalTrace, eval_shell_interval};
use fidget_shell::shell::params::ShellParamsView;
use fidget_shell::shell::profile::ShellProfileSectionTopology;
use fidget_shell::shell::stats::{
    ShellEvalCounters, reset_shell_eval_stats, set_shell_eval_stats_enabled, shell_eval_stats,
};
use fidget_shell::shell::topology::{OpenTopPolicy, ShellSectionTopology, ShellTopology};
use fidget_shell::vm::arithmetic::{
    Grad, GradArithmetic, GradCall, IntervalArithmetic, IntervalCall, IntervalReply,
};
use fidget_shell::vm::bulk::{BulkEvalError, VmFloatSliceEval, VmGradSliceEval};
use fidget_shell::vm::choice::Choice;
use fidget_shell::vm::data::{BadTape, VmData};
use fidget_shell::vm::function::{
    BadChoiceSlice, BadTrace, EmptyTapeStorage, VmFunction, reclaimed,
};
use fidget_shell::vm::ops::{BinaryOp, RegOp};
use fidget_shell::vm::trace::VmTrace;
use fidget_shell::vm::tracing::{TracingEvalError, VmIntervalEval, VmPointEval};
use std::sync::Arc;

fn single(x: f32) -> Float32 {
    Float32::from_bits(x.to_bits())
}

fn value(x: Float32) -> f32 {
    f32::from_bits(x.to_bits())
}

fn arithmetic(op: ScalarOp, x: Float32, y: Float32, z: Float32) -> Float32 {
    let (x, y, z) = (value(x), value(y), value(z));
    single(match op {
        ScalarOp::Add => x + y,
        ScalarOp::Sub => x - y,
        ScalarOp::Mul => x * y,
        ScalarOp::Div => x / y,
        ScalarOp::MulAdd => x.mul_add(y, z),
        ScalarOp::Sqrt => x.sqrt(),
        ScalarOp::Floor => x.floor(),
        ScalarOp::Ceil => x.ceil(),
        ScalarOp::Round => x.round(),
        ScalarOp::Sin => x.sin(),
        ScalarOp::Cos => x.cos(),
        ScalarOp::Tan => x.tan(),
        ScalarOp::Asin => x.asin(),
        ScalarOp::Acos => x.acos(),
        ScalarOp::Atan => x.atan(),
        ScalarOp::Exp => x.exp(),
        ScalarOp::Ln => x.ln(),
        ScalarOp::Atan2 => x.atan2(y),
        ScalarOp::RemEuclid => x.rem_euclid(y),
    })
}

fn alu() -> Alu<impl ScalarFn> {
    Alu::new(arithmetic)
}

fn circle(station: f32, y: f32, z: f32, radius: f32) -> ShellSectionTopology {
    ShellSectionTopology::circle(single(station), single(y), single(z), single(radius))
}

fn shell() -> ShellTopology {
    ShellTopology::line_loft_circles(
        &alu(),
        vec![circle(0.0, 0.0, 0.0, 1.0), circle(2.0, 0.0, 0.0, 1.0)],
    )
}

fn profile_shell() -> ShellTopology {
    let ship = |station: f32| {
        ShellProfileSectionTopology::ship(
            &alu(),
            single(station),
            single(-0.4),
            single(0.7),
            single(0.6),
        )
    };
    ShellTopology::ship_profile_shell_hull(
        &alu(),
        vec![ship(0.0), ship(1.0), ship(2.0), ship(3.0)],
        single(0.08),
        OpenTopPolicy::Closed,
    )
}

fn shell_data(shell: ShellTopology) -> VmData<255> {
    VmData::new(
        vec![
            RegOp::Input(0, 0),
            RegOp::Input(1, 1),
            RegOp::Input(2, 2),
            RegOp::ShellDistance(3, 0, 0, 1, 2),
            RegOp::Output(3, 0),
        ],
        4,
        0,
        1,
        3,
        vec![shell],
    )
    .unwrap()
}

fn distance(shell: &ShellTopology, x: f32, y: f32, z: f32) -> f32 {
    let mut scratch = ShellEvalScratch::default();
    value(
        eval_shell_distance(
            &alu(),
            &mut ShellEvalCounters::new(),
            shell,
            ShellParamsView::empty(),
            &mut scratch,
            single(x),
            single(y),
            single(z),
        )
        .distance,
    )
}

fn range(lower: f32, upper: f32) -> Interval {
    Interval::new(single(lower), single(upper))
}

fn no_trace() -> ShellIntervalTrace {
    ShellIntervalTrace {
        active_segment_mask: 0,
        segment_count: 0,
        sidecar_reduction_eligible: false,
    }
}

fn shell_intervals(call: IntervalCall) -> IntervalReply {
    let result = match call {
        IntervalCall::Shell(_, x, y, z) => {
            eval_shell_interval(&alu(), &mut ShellEvalCounters::new(), &shell(), x, y, z)
        }
        IntervalCall::Binary(BinaryOp::Min, a, b) => Interval::new(
            a.lower().min(b.lower()),
            a.upper().min(b.upper()),
        ),
        _ => range(f32::NEG_INFINITY, f32::INFINITY),
    };
    let choice = match call {
        IntervalCall::Binary(BinaryOp::Min, a, b) => {
            if value(a.upper()) < value(b.lower()) {
                Choice::Left
            } else if value(b.upper()) < value(a.lower()) {
                Choice::Right
            } else {
                Choice::Both
            }
        }
        _ => Choice::Unknown,
    };
    IntervalReply { value: result, choice, trace: no_trace() }
}

fn shell_gradients(call: GradCall) -> Grad {
    match call {
        GradCall::Shell(_, x, y, z) => {
            let topology = shell();
            let field = |p: Point| {
                single(distance(&topology, value(p.x), value(p.y), value(p.z)))
            };
            let at = Point { x: x.v, y: y.v, z: z.v };
            let g = central_difference_gradient(&alu(), at, single(1.0e-3), &field);
            Grad::new(field(at), g.x, g.y, g.z)
        }
        GradCall::Unary(_, a) => a,
        GradCall::Binary(_, a, _) => a,
        GradCall::Scale(a, _) => a,
    }
}

fn eval_interval(
    function: &VmFunction,
    counters: &mut ShellEvalCounters,
    x: Interval,
    y: Interval,
    z: Interval,
) -> (Interval, bool) {
    let tape = function.interval_tape(EmptyTapeStorage);
    let mut eval = VmIntervalEval::<255>::new();
    let arithmetic = IntervalArithmetic::new(shell_intervals);
    let (out, trace) = eval.eval(&alu(), &arithmetic, counters, &tape, &[x, y, z]).unwrap();
    (out[0], trace.is_some())
}

#[test]
fn shell_vm_point_eval_matches_kernel() {
    let expected = distance(&shell(), 1.0, 1.25, 0.0);

    let function = VmFunction::new(shell_data(shell()));
    let tape = function.point_tape(EmptyTapeStorage);
    let mut eval = VmPointEval::<255>::new();
    let args = [single(1.0), single(1.25), single(0.0)];

    let mut counters = ShellEvalCounters::new();
    let (out, trace) = eval.eval(&alu(), &mut counters, &tape, &args).unwrap();
    assert_approx_eq(value(out[0]), expected);
    assert!(trace.is_none());
}

#[test]
fn shell_vm_float_slice_eval_matches_kernel() {
    let samples = [(1.0, 0.0, 0.0), (1.0, 1.25, 0.0), (3.0, 0.0, 0.0)];
    let topology = shell();
    let expected: Vec<f32> =
        samples.iter().map(|&(x, y, z)| distance(&topology, x, y, z)).collect();

    let function = VmFunction::new(shell_data(topology));
    let tape = function.float_slice_tape(EmptyTapeStorage);
    let mut args = vec![vec![single(0.0); samples.len()]; 3];
    for (i, &(x, y, z)) in samples.iter().enumerate() {
        args[0][i] = single(x);
        args[1][i] = single(y);
        args[2][i] = single(z);
    }

    let mut eval = VmFloatSliceEval::<255>::new();
    let mut counters = ShellEvalCounters::new();
    let out = eval.eval(&alu(), &mut counters, &tape, &args).unwrap();
    assert_eq!(out.len(), 1);
    assert_eq!(out.row(0).len(), samples.len());
    for (&actual, &expected) in out.row(0).iter().zip(&expected) {
        assert_approx_eq(value(actual), expected);
    }
}

#[test]
fn shell_vm_grad_slice_eval_returns_native_distance_and_gradient() {
    let function = VmFunction::new(shell_data(shell()));
    let tape = function.grad_slice_tape(EmptyTapeStorage);
    let grad = |v: f32, dx: f32, dy: f32, dz: f32| {
        Grad::new(single(v), single(dx), single(dy), single(dz))
    };
    let args = vec![
        vec![grad(1.0, 1.0, 0.0, 0.0)],
        vec![grad(1.25, 0.0, 1.0, 0.0)],
        vec![grad(0.0, 0.0, 0.0, 1.0)],
    ];

    let mut eval = VmGradSliceEval::<255>::new();
    let arithmetic = GradArithmetic::new(shell_gradients);
    let mut counters = ShellEvalCounters::new();
    let out = eval.eval(&arithmetic, &mut counters, &tape, &args).unwrap().row(0)[0];

    assert_approx_eq(value(out.v), 0.25);
    assert!(value(out.dx).abs() <= 1.0e-3, "unexpected dx={}", value(out.dx));
    assert!((value(out.dy) - 1.0).abs() <= 1.0e-3, "unexpected dy={}", value(out.dy));
    assert!(value(out.dz).abs() <= 1.0e-3, "unexpected dz={}", value(out.dz));
}

#[test]
fn shell_vm_interval_eval_is_conservative() {
    let function = VmFunction::new(shell_data(shell()));
    let (out, traced) = eval_interval(
        &function,
        &mut ShellEvalCounters::new(),
        range(0.0, 2.0),
        range(-2.0, 2.0),
        range(-2.0, 2.0),
    );

    assert_eq!(value(out.lower()), f32::NEG_INFINITY);
    assert_eq!(value(out.upper()), f32::INFINITY);
    assert!(!traced);
}

#[test]
fn shell_interval_rejects_tiles_outside_global_bounds() {
    let function = VmFunction::new(shell_data(shell()));
    let (out, traced) = eval_interval(
        &function,
        &mut ShellEvalCounters::new(),
        range(4.0, 5.0),
        range(-0.25, 0.25),
        range(-0.25, 0.25),
    );

    assert!(value(out.lower()) > 0.0, "expected positive rejection interval");
    assert_eq!(value(out.upper()), f32::INFINITY);
    assert!(!traced);
}

#[test]
fn shell_interval_stays_conservative_inside_global_bounds() {
    let function = VmFunction::new(shell_data(shell()));
    let (out, traced) = eval_interval(
        &function,
        &mut ShellEvalCounters::new(),
        range(0.0, 2.0),
        range(-1.0, 1.0),
        range(-1.0, 1.0),
    );

    assert_eq!(value(out.lower()), f32::NEG_INFINITY);
    assert_eq!(value(out.upper()), f32::INFINITY);
    assert!(!traced);
}

#[test]
fn profile_shell_vm_interval_does_not_emit_sidecar_trace() {
    let function = VmFunction::new(shell_data(profile_shell()));
    let mut counters = ShellEvalCounters::new();
    set_shell_eval_stats_enabled(&mut counters, true);
    reset_shell_eval_stats(&mut counters);
    let (_out, traced) = eval_interval(
        &function,
        &mut counters,
        range(1.20, 1.30),
        range(-0.10, 0.10),
        range(0.00, 0.10),
    );
    let stats = shell_eval_stats(&counters);
    set_shell_eval_stats_enabled(&mut counters, false);

    assert!(!traced);
    assert_eq!(
        stats.interval_calls, 1,
        "profile shell VM interval eval should not run an extra trace-only interval path"
    );
}

#[test]
fn shell_vm_evaluates_constant_coordinates() {
    let data: VmData<255> = VmData::new(
        vec![
            RegOp::CopyImm(0, single(1.0)),
            RegOp::Input(1, 0),
            RegOp::CopyImm(2, single(0.0)),
            RegOp::ShellDistance(3, 0, 0, 1, 2),
            RegOp::Output(3, 0),
        ],
        4,
        0,
        1,
        1,
        vec![shell()],
    )
    .unwrap();
    let copy_imm_count =
        data.tape().iter().filter(|op| matches!(op, RegOp::CopyImm(..))).count();
    assert_eq!(copy_imm_count, 2);

    let function = VmFunction::new(data);
    let tape = function.point_tape(EmptyTapeStorage);
    let mut eval = VmPointEval::<255>::new();
    let mut counters = ShellEvalCounters::new();
    let (out, _trace) = eval.eval(&alu(), &mut counters, &tape, &[single(1.25)]).unwrap();
    assert_approx_eq(value(out[0]), 0.25);
}

#[test]
fn vm_native_shell_render_metadata_reports_bounds_and_segments() {
    let topology = ShellTopology::line_loft_circles(
        &alu(),
        vec![
            circle(0.0, 0.0, 0.0, 1.0),
            circle(1.0, 0.0, 0.0, 1.0),
            circle(2.0, 0.0, 0.0, 1.0),
        ],
    );
    let function = VmFunction::new(shell_data(topology));
    let metadata = function.native_render_metadata(&alu()).unwrap();

    let global = metadata.global_aabb.unwrap();
    assert_eq!(metadata.shell_segment_aabbs.len(), 2);
    assert!(value(global.min_x) <= 0.0 && value(global.max_x) >= 2.0);
    assert!(value(global.min_y) <= -1.0 && value(global.max_y) >= 1.0);
    assert_eq!(metadata.shell_segment_aabbs[0].shell_index, 0);
    assert_eq!(metadata.shell_segment_aabbs[0].segment_index, 0);
    assert!(value(metadata.shell_segment_aabbs[0].bounds.max_x) <= 1.0);
    assert_eq!(metadata.shell_segment_aabbs[1].segment_index, 1);
    assert!(value(metadata.shell_segment_aabbs[1].bounds.min_x) >= 1.0);
    assert!(function.has_native_render_metadata());
}

#[test]
fn vm_trace_reports_active_segment_summaries() {
    let mut trace = VmTrace::default();
    trace.resize_shells(2);
    trace.record_shell_trace(
        1,
        ShellIntervalTrace {
            active_segment_mask: 0b010,
            segment_count: 3,
            sidecar_reduction_eligible: true,
        },
    );

    let summaries = trace.active_segment_trace_summaries();
    assert_eq!(summaries.len(), 1);
    assert_eq!(summaries[0].shell_index, 1);
    assert_eq!(summaries[0].active_segment_mask, 0b010);
    assert_eq!(summaries[0].segment_count, 3);
    assert!(summaries[0].sidecar_reduction_eligible);
}

#[test]
fn vm_3d_tile_hints_preserve_general_render_defaults() {
    let sizes = VmFunction::tile_sizes_3d().as_slice().to_vec();

    assert_eq!(sizes, [128, 64, 32, 16, 8]);
}

#[test]
fn vm_2d_tile_hints() {
    assert_eq!(VmFunction::tile_sizes_2d().as_slice().to_vec(), [128, 32, 8]);
}

fn min_data() -> VmData<255> {
    VmData::new(
        vec![
            RegOp::Input(0, 0),
            RegOp::Input(1, 1),
            RegOp::MinRegReg(2, 0, 1),
            RegOp::Output(2, 0),
        ],
        3,
        1,
        1,
        2,
        vec![],
    )
    .unwrap()
}

#[test]
fn point_evaluation_records_the_operand_that_was_picked() {
    let function = VmFunction::new(min_data());
    let tape = function.point_tape(EmptyTapeStorage);
    let mut eval = VmPointEval::<255>::new();
    let mut counters = ShellEvalCounters::new();
    {
        let (out, trace) =
            eval.eval(&alu(), &mut counters, &tape, &[single(1.0), single(2.0)]).unwrap();
        assert_eq!(value(out[0]), 1.0);
        assert_eq!(trace.unwrap().as_slice(), [Choice::Left]);
    }
    {
        let (out, trace) =
            eval.eval(&alu(), &mut counters, &tape, &[single(3.0), single(2.0)]).unwrap();
        assert_eq!(value(out[0]), 2.0);
        assert_eq!(trace.unwrap().as_slice(), [Choice::Right]);
    }
    {
        let (out, trace) =
            eval.eval(&alu(), &mut counters, &tape, &[single(2.0), single(2.0)]).unwrap();
        assert_eq!(value(out[0]), 2.0);
        assert!(trace.is_none());
    }
}

#[test]
fn interval_evaluation_traces_a_choice_that_is_decided() {
    let function = VmFunction::new(min_data());
    let tape = function.interval_tape(EmptyTapeStorage);
    let arithmetic = IntervalArithmetic::new(shell_intervals);
    let mut eval = VmIntervalEval::<255>::new();
    let mut counters = ShellEvalCounters::new();
    let (out, trace) = eval
        .eval(&alu(), &arithmetic, &mut counters, &tape, &[range(0.0, 1.0), range(2.0, 3.0)])
        .unwrap();
    assert_eq!(out[0], range(0.0, 1.0));
    assert_eq!(trace.unwrap().as_slice(), [Choice::Left]);
}

#[test]
fn slices_evaluate_every_lane_like_a_point() {
    let function = VmFunction::new(min_data());
    let tape = function.float_slice_tape(EmptyTapeStorage);
    let xs = [4.0, -1.0, 0.5, 7.0];
    let ys = [3.0, 2.0, 0.25, 9.0];
    let args = vec![
        xs.iter().map(|v| single(*v)).collect::<Vec<_>>(),
        ys.iter().map(|v| single(*v)).collect::<Vec<_>>(),
    ];
    let mut slices = VmFloatSliceEval::<255>::new();
    let mut counters = ShellEvalCounters::new();
    let out = slices.eval(&alu(), &mut counters, &tape, &args).unwrap();
    for i in 0..xs.len() {
        let mut point = VmPointEval::<255>::new();
        let mut counters = ShellEvalCounters::new();
        let (expected, _) = point
            .eval(&alu(), &mut counters, &tape, &[single(xs[i]), single(ys[i])])
            .unwrap();
        assert_eq!(out.row(0)[i], expected[0]);
    }
}

#[test]
fn bad_arguments_are_refused() {
    let function = VmFunction::new(min_data());
    let tape = function.tape();
    let mut counters = ShellEvalCounters::new();
    let mut point = VmPointEval::<255>::new();
    assert_eq!(
        point.eval(&alu(), &mut counters, &tape, &[single(1.0)]).err(),
        Some(TracingEvalError::BadVarSlice { actual: 1, expected: 2 })
    );
    let mut slices = VmFloatSliceEval::<255>::new();
    let short = vec![vec![single(1.0)]];
    assert_eq!(
        slices.eval(&alu(), &mut counters, &tape, &short).err(),
        Some(BulkEvalError::BadVarSlice { actual: 1, expected: 2 })
    );
    let uneven = vec![vec![single(1.0)], vec![single(1.0), single(2.0)]];
    assert_eq!(
        slices.eval(&alu(), &mut counters, &tape, &uneven).err(),
        Some(BulkEvalError::MismatchedSlices)
    );
}

#[test]
fn bad_tapes_are_refused() {
    let missing: Result<VmData<255>, BadTape> = VmData::new(
        vec![RegOp::Input(0, 0), RegOp::Output(1, 0)],
        1,
        0,
        1,
        1,
        vec![],
    );
    assert_eq!(missing.err(), Some(BadTape::OutOfRange(1)));
    let unrecorded: Result<VmData<255>, BadTape> = VmData::new(
        vec![RegOp::Input(0, 0), RegOp::MinRegImm(0, 0, single(1.0)), RegOp::Output(0, 0)],
        1,
        0,
        1,
        1,
        vec![],
    );
    assert_eq!(unrecorded.err(), Some(BadTape::TooManyChoices));
    let tape = |ops: Vec<RegOp>, outputs: usize| -> Option<BadTape> {
        let data: Result<VmData<255>, BadTape> = VmData::new(ops, 2, 0, outputs, 1, vec![]);
        data.err()
    };
    let read = vec![RegOp::Input(0, 0), RegOp::AddRegReg(1, 0, 1), RegOp::Output(1, 0)];
    assert_eq!(tape(read, 1), Some(BadTape::ReadsUnwritten(1)));
    let output = vec![RegOp::Input(0, 0), RegOp::Output(0, 0)];
    assert_eq!(tape(output.clone(), 2), Some(BadTape::MissingOutput(1)));
    assert_eq!(tape(output, 1), None);
}

#[test]
fn data_is_reclaimed_from_the_last_reference_only() {
    let function = VmFunction::new(min_data());
    assert_eq!(function.size(), 4);
    assert!(function.can_simplify());
    let tape = function.tape();
    assert_eq!(tape.var_count(), 2);
    assert_eq!(tape.output_count(), 1);
    assert!(function.recycle().is_none());

    let alone = VmFunction::new(min_data());
    let data = alone.recycle().unwrap();
    assert_eq!(data.len(), 4);
    assert_eq!(data.choice_count(), 1);
}

#[test]
fn either_outcome_of_taking_data_is_handed_on() {
    assert_eq!(reclaimed::<255>(Ok(min_data())).unwrap().len(), 4);
    assert!(reclaimed::<255>(Err(Arc::new(min_data()))).is_none());
}

#[test]
fn simplification_hands_on_the_trace_and_its_outcome() {
    let function = VmFunction::new(min_data());
    let mut trace = VmTrace::new();
    trace.resize(1, Choice::Left);
    let simplified = function
        .simplify_with(
            &trace,
            |_data: &VmData<255>,
             choices: &[Choice],
             _shells: &[Option<ShellIntervalTrace>]|
             -> Result<VmData<255>, BadChoiceSlice> {
                assert_eq!(choices, [Choice::Left]);
                Ok(VmData::new(
                    vec![RegOp::Input(0, 0), RegOp::Output(0, 0)],
                    1,
                    0,
                    1,
                    2,
                    vec![],
                )
                .unwrap())
            },
        )
        .ok()
        .unwrap();
    assert_eq!(simplified.size(), 2);
    assert!(!simplified.can_simplify());
    let error = BadChoiceSlice { actual: 1, expected: 2 };
    let refused = function.simplify_with(
        &trace,
        |_data: &VmData<255>,
         _choices: &[Choice],
         _shells: &[Option<ShellIntervalTrace>]|
         -> Result<VmData<255>, BadChoiceSlice> { Err(error) },
    );
    assert_eq!(refused.err(), Some(BadTrace(error)));
}

#[test]
fn traces_are_filled_and_copied() {
    let mut trace = VmTrace::new();
    trace.resize(3, Choice::Unknown);
    trace.fill(Choice::Both);
    assert_eq!(trace.as_slice(), [Choice::Both, Choice::Both, Choice::Both]);
    trace.as_mut_slice()[1] = Choice::Left;
    let mut other = VmTrace::new();
    other.copy_from(&trace);
    assert_eq!(other.as_slice(), [Choice::Both, Choice::Left, Choice::Both]);
    assert!(!other.keep_simplified_shape());
    assert!(!other.has_shell_simplification());
}

fn assert_approx_eq(left: f32, right: f32) {
    let diff = (left - right).abs();
    assert!(diff <= 1.0e-5, "expected {left} to be within tolerance of {right}; diff={diff}");
}

fn mixed_data() -> VmData<255> {
    VmData::new(
        vec![
            RegOp::Input(0, 0),
            RegOp::Input(1, 1),
            RegOp::MinRegReg(2, 0, 1),
            RegOp::CompareRegReg(3, 2, 1),
            RegOp::NotReg(4, 0),
            RegOp::Output(2, 0),
            RegOp::Output(3, 1),
            RegOp::Output(4, 2),
        ],
        5,
        1,
        3,
        2,
        vec![],
    )
    .unwrap()
}

#[test]
fn interval_runs_cover_point_runs() {
    let function = VmFunction::new(mixed_data());
    let ranges = IntervalArithmetic::new(shell_intervals);
    let mut counters = ShellEvalCounters::new();
    for (x, y) in [
        (range(-1.0, 1.0), range(0.5, 2.0)),
        (range(0.0, 0.0), range(-3.0, -2.0)),
        (range(1.0, 2.0), range(3.0, 4.0)),
    ] {
        let mut eval = VmIntervalEval::<255>::new();
        let tape = function.interval_tape(EmptyTapeStorage);
        let (out, _) = eval.eval(&alu(), &ranges, &mut counters, &tape, &[x, y]).unwrap();
        let out = [out[0], out[1], out[2]];
        for i in 0..=4 {
            for j in 0..=4 {
                let at = |r: Interval, n: i32| {
                    let (lower, upper) = (value(r.lower()), value(r.upper()));
                    single(lower + (upper - lower) * n as f32 * 0.25)
                };
                let mut eval = VmPointEval::<255>::new();
                let tape = function.point_tape(EmptyTapeStorage);
                let (point, _) = eval
                    .eval(&alu(), &mut counters, &tape, &[at(x, i), at(y, j)])
                    .unwrap();
                for k in 0..3 {
                    assert!(value(out[k].lower()) <= value(point[k]));
                    assert!(value(point[k]) <= value(out[k].upper()));
                }
            }
        }
    }
}

fn chosen_gradients(call: GradCall) -> Grad {
    match call {
        GradCall::Binary(BinaryOp::Min, a, b) => if a.v.lt(b.v) { a } else { b },
        GradCall::Unary(_, a) | GradCall::Binary(_, a, _) | GradCall::Scale(a, _) => a,
        GradCall::Shell(_, x, _, _) => x,
    }
}

#[test]
fn gradient_runs_carry_the_values_of_point_runs() {
    let function = VmFunction::new(mixed_data());
    let mut counters = ShellEvalCounters::new();
    let xs = [-1.0, 0.0, 0.5, f32::NAN, 2.0];
    let ys = [0.5, -2.0, 0.5, 1.0, f32::NAN];
    let grads = |values: &[f32]| -> Vec<Grad> {
        values.iter().map(|v| Grad::constant(single(*v))).collect()
    };
    let mut eval = VmGradSliceEval::<255>::new();
    let tape = function.grad_slice_tape(EmptyTapeStorage);
    let arithmetic = GradArithmetic::new(chosen_gradients);
    let out = eval.eval(&arithmetic, &mut counters, &tape, &[grads(&xs), grads(&ys)]).unwrap();
    for i in 0..xs.len() {
        let mut eval = VmPointEval::<255>::new();
        let tape = function.point_tape(EmptyTapeStorage);
        let (point, _) = eval
            .eval(&alu(), &mut counters, &tape, &[single(xs[i]), single(ys[i])])
            .unwrap();
        for k in 0..3 {
            assert_eq!(out.row(k)[i].v, point[k]);
        }
    }
}

#[test]
fn used_evaluators_give_the_same_values() {
    let busy = VmFunction::new(mixed_data()).tape();
    let tape = VmFunction::new(min_data()).tape().clone();
    let row = |list: &[f32]| list.iter().map(|v| single(*v)).collect::<Vec<_>>();
    let mut counters = ShellEvalCounters::new();
    let mut slices = VmFloatSliceEval::<255>::new();
    let mut point = VmPointEval::<255>::new();
    let many = vec![row(&[1.0, 2.0, 3.0, 4.0, 5.0]); busy.var_count()];
    slices.eval(&alu(), &mut counters, &busy, &many).unwrap();
    let one = vec![single(9.0); busy.var_count()];
    point.eval(&alu(), &mut counters, &busy, &one).unwrap();

    let args = vec![row(&[4.0, -1.0]), row(&[3.0, 2.0])];
    let out = slices.eval(&alu(), &mut counters, &tape, &args).unwrap();
    assert_eq!((value(out.row(0)[0]), value(out.row(0)[1])), (3.0, -1.0));
    let (single_out, _) =
        point.eval(&alu(), &mut counters, &tape, &[single(4.0), single(3.0)]).unwrap();
    assert_eq!(value(single_out[0]), 3.0);
}

#[test]
fn clones_share_the_data() {
    let function = VmFunction::new(min_data());
    let copy = function.clone();
    assert_eq!((copy.size(), copy.can_simplify()), (function.size(), true));
    assert!(function.recycle().is_none());
    assert_eq!(copy.recycle().unwrap().len(), 4);
}
