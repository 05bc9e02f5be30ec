//! Laws that relate evaluation over different domains.
use crate::alu::ScalarFn;
use crate::rounding::rounds_in_order;
use crate::scalar::Float32;
use crate::scalar::NAN_BITS;
use crate::scalar::num;
use crate::shell::bounds::Point;
use crate::shell::interval::Interval;
use crate::shell::tile_laws::lemma_interval_is_conservative;
use crate::shell::topology::ShellTopology;
use crate::vm::arithmetic::Grad;
use crate::vm::arithmetic::GradCall;
use crate::vm::arithmetic::GradFn;
use crate::vm::arithmetic::IntervalFn;
use crate::vm::data::count_choices;
use crate::vm::domain::Domain;
use crate::vm::domain::GradDomain;
use crate::vm::domain::IntervalDomain;
use crate::vm::domain::PointDomain;
use crate::vm::domain::compare_value;
use crate::vm::domain::lemma_interval_compare_holds;
use crate::vm::domain::lemma_interval_not_holds;
use crate::vm::ops::BinaryOp;
use crate::vm::ops::Instr;
use crate::vm::ops::RegOp;
use crate::vm::ops::UnaryOp;
use crate::vm::state::VmState;
use crate::vm::state::lemma_run_ignores_leftovers;
use crate::vm::state::lemma_run_shape;
use crate::vm::state::ops_fit;
use crate::vm::state::run;
use crate::vm::state::self_contained;
use crate::vm::state::step;
use crate::vm::state::writes_output;
use vstd::prelude::*;

verus! {

/// Every operation of two domains takes related values to related values.
pub open spec fn relates<D: Domain, E: Domain>(
    d: &D,
    e: &E,
    shells: Seq<ShellTopology>,
    rel: spec_fn(D::Value, E::Value) -> bool,
) -> bool {
    &&& forall|imm: Float32| rel(#[trigger] d.imm_of(imm), e.imm_of(imm))
    &&& forall|op: UnaryOp, a: D::Value, b: E::Value|
        #![trigger d.unary_of(op, a), e.unary_of(op, b)]
        rel(a, b) ==> rel(d.unary_of(op, a), e.unary_of(op, b))
    &&& forall|op: BinaryOp, a: D::Value, b: D::Value, u: E::Value, v: E::Value|
        #![trigger d.binary_of(op, a, b), e.binary_of(op, u, v)]
        rel(a, u) && rel(b, v) ==> rel(d.binary_of(op, a, b), e.binary_of(op, u, v))
    &&& forall|a: D::Value, b: E::Value, imm: Float32|
        #![trigger d.scale_of(a, imm), e.scale_of(b, imm)]
        rel(a, b) ==> rel(d.scale_of(a, imm), e.scale_of(b, imm))
    &&& forall|
        index: usize,
        a: D::Value,
        b: D::Value,
        c: D::Value,
        u: E::Value,
        v: E::Value,
        w: E::Value,
    |
        #![trigger d.shell_of(&shells[index as int], index, a, b, c), e.shell_of(&shells[index as int], index, u, v, w)]
        index < shells.len() && rel(a, u) && rel(b, v) && rel(c, w) ==> rel(
            d.shell_of(&shells[index as int], index, a, b, c),
            e.shell_of(&shells[index as int], index, u, v, w),
        )
}

/// The values of two sequences are related one by one.
pub open spec fn all_related<V, W>(a: Seq<V>, b: Seq<W>, rel: spec_fn(V, W) -> bool) -> bool {
    &&& a.len() == b.len()
    &&& forall|i: int| 0 <= i < a.len() ==> rel(#[trigger] a[i], b[i])
}

proof fn lemma_step_relates<D: Domain, E: Domain>(
    d: &D,
    e: &E,
    shells: Seq<ShellTopology>,
    rel: spec_fn(D::Value, E::Value) -> bool,
    inputs: Seq<D::Value>,
    args: Seq<E::Value>,
    instr: Instr,
    s: VmState<D::Value>,
    t: VmState<E::Value>,
)
    requires
        relates(d, e, shells, rel),
        all_related(inputs, args, rel),
        all_related(s.slots, t.slots, rel),
        all_related(s.out, t.out, rel),
        s.slots.len() <= usize::MAX,
        s.out.len() <= usize::MAX,
        inputs.len() <= usize::MAX,
        shells.len() <= usize::MAX,
        instr.fits(
            s.slots.len() as usize,
            inputs.len() as usize,
            s.out.len() as usize,
            shells.len() as usize,
        ),
    ensures
        all_related(
            step(d, shells, inputs, instr, s).slots,
            step(e, shells, args, instr, t).slots,
            rel,
        ),
        all_related(
            step(d, shells, inputs, instr, s).out,
            step(e, shells, args, instr, t).out,
            rel,
        ),
{
}

/// Runs over two domains whose operations take related values to related values
/// end in related slots and outputs.
pub proof fn lemma_runs_relate<D: Domain, E: Domain>(
    d: &D,
    e: &E,
    shells: Seq<ShellTopology>,
    rel: spec_fn(D::Value, E::Value) -> bool,
    inputs: Seq<D::Value>,
    args: Seq<E::Value>,
    ops: Seq<RegOp>,
    s: VmState<D::Value>,
    t: VmState<E::Value>,
)
    requires
        relates(d, e, shells, rel),
        all_related(inputs, args, rel),
        all_related(s.slots, t.slots, rel),
        all_related(s.out, t.out, rel),
        s.slots.len() <= usize::MAX,
        s.out.len() <= usize::MAX,
        inputs.len() <= usize::MAX,
        shells.len() <= usize::MAX,
        ops_fit(ops, s.slots.len(), inputs.len(), s.out.len(), shells.len()),
        0 <= s.cursor,
        s.cursor + count_choices(ops) <= s.choices.len(),
    ensures
        all_related(
            run(d, shells, inputs, ops, s).slots,
            run(e, shells, args, ops, t).slots,
            rel,
        ),
        all_related(
            run(d, shells, inputs, ops, s).out,
            run(e, shells, args, ops, t).out,
            rel,
        ),
    decreases ops.len(),
{
    if ops.len() > 0 {
        let rest = ops.drop_last();
        assert forall|i: int| 0 <= i < rest.len() implies (#[trigger] rest[i]).decode().fits(
            s.slots.len() as usize,
            inputs.len() as usize,
            s.out.len() as usize,
            shells.len() as usize,
        ) by {
            assert(rest[i] == ops[i]);
        }
        lemma_runs_relate(d, e, shells, rel, inputs, args, rest, s, t);
        lemma_run_shape(d, shells, inputs, rest, s);
        let instr = ops.last().decode();
        assert(ops[ops.len() - 1].decode() == instr);
        lemma_step_relates(
            d,
            e,
            shells,
            rel,
            inputs,
            args,
            instr,
            run(d, shells, inputs, rest, s),
            run(e, shells, args, rest, t),
        );
    }
}

/// The range holds the number, or says nothing.
pub open spec fn range_covers(range: Interval, value: Float32) -> bool {
    range.has_nan() || range.holds(value)
}

/// The arithmetic on ranges covers the arithmetic on the numbers in them, and
/// shell bounds cover shell distances.
pub open spec fn encloses<A: ScalarFn, F: IntervalFn>(
    ranges: &IntervalDomain<'_, A, F>,
    points: &PointDomain<'_, A>,
    shells: Seq<ShellTopology>,
) -> bool {
    &&& forall|op: UnaryOp, a: Interval, x: Float32|
        #![trigger ranges.unary_of(op, a), points.unary_of(op, x)]
        op != UnaryOp::Not && range_covers(a, x) ==> range_covers(
            ranges.unary_of(op, a),
            points.unary_of(op, x),
        )
    &&& forall|op: BinaryOp, a: Interval, b: Interval, x: Float32, y: Float32|
        #![trigger ranges.binary_of(op, a, b), points.binary_of(op, x, y)]
        op != BinaryOp::Compare && range_covers(a, x) && range_covers(b, y) ==> range_covers(
            ranges.binary_of(op, a, b),
            points.binary_of(op, x, y),
        )
    &&& forall|a: Interval, x: Float32, imm: Float32|
        #![trigger ranges.scale_of(a, imm), points.scale_of(x, imm)]
        range_covers(a, x) ==> range_covers(ranges.scale_of(a, imm), points.scale_of(x, imm))
    &&& forall|
        index: usize,
        a: Interval,
        b: Interval,
        c: Interval,
        x: Float32,
        y: Float32,
        z: Float32,
    |
        #![trigger ranges.shell_of(&shells[index as int], index, a, b, c), points.shell_of(&shells[index as int], index, x, y, z)]
        index < shells.len() && range_covers(a, x) && range_covers(b, y) && range_covers(c, z) ==> range_covers(
            ranges.shell_of(&shells[index as int], index, a, b, c),
            points.shell_of(&shells[index as int], index, x, y, z),
        )
}

/// A run over ranges covers a run over any numbers in them: every output that
/// the tape writes lies in its range, whatever earlier evaluations left behind.
pub proof fn lemma_interval_run_covers<A: ScalarFn, F: IntervalFn>(
    ranges: &IntervalDomain<'_, A, F>,
    points: &PointDomain<'_, A>,
    shells: Seq<ShellTopology>,
    inputs: Seq<Interval>,
    args: Seq<Float32>,
    ops: Seq<RegOp>,
    s: VmState<Interval>,
    t: VmState<Float32>,
    output: int,
)
    requires
        encloses(ranges, points, shells),
        inputs.len() == args.len(),
        forall|i: int| 0 <= i < inputs.len() ==> range_covers(#[trigger] inputs[i], args[i]),
        s.slots.len() == t.slots.len() <= usize::MAX,
        s.out.len() == t.out.len() <= usize::MAX,
        inputs.len() <= usize::MAX,
        shells.len() <= usize::MAX,
        ops_fit(ops, s.slots.len(), inputs.len(), s.out.len(), shells.len()),
        0 <= s.cursor,
        s.cursor + count_choices(ops) <= s.choices.len(),
        self_contained(ops),
        0 <= output < s.out.len(),
        writes_output(ops, output),
    ensures
        range_covers(
            run(ranges, shells, inputs, ops, s).out[output],
            run(points, shells, args, ops, t).out[output],
        ),
{
    let rel = |range: Interval, value: Float32| range_covers(range, value);
    lemma_domains_relate(ranges, points, shells);
    let exact = |v: Seq<Float32>| Seq::new(v.len(), |i: int| Interval::new(v[i], v[i]));
    let fresh = VmState { slots: exact(t.slots), out: exact(t.out), ..s };
    lemma_runs_relate(ranges, points, shells, rel, inputs, args, ops, fresh, t);
    lemma_run_shape(ranges, shells, inputs, ops, s);
    lemma_run_ignores_leftovers(ranges, shells, inputs, ops, s, fresh);
    let a = run(ranges, shells, inputs, ops, s);
    let b = run(ranges, shells, inputs, ops, fresh);
    assert(a.out[output] == b.out[output]);
    assert(rel(b.out[output], run(points, shells, args, ops, t).out[output]));
}

proof fn lemma_domains_relate<A: ScalarFn, F: IntervalFn>(
    ranges: &IntervalDomain<'_, A, F>,
    points: &PointDomain<'_, A>,
    shells: Seq<ShellTopology>,
)
    requires
        encloses(ranges, points, shells),
    ensures
        relates(
            ranges,
            points,
            shells,
            |range: Interval, value: Float32| range_covers(range, value),
        ),
{
    assert forall|a: Interval, x: Float32| range_covers(a, x) implies range_covers(
        #[trigger] ranges.unary_of(UnaryOp::Not, a),
        #[trigger] points.unary_of(UnaryOp::Not, x),
    ) by {
        if !a.has_nan() {
            lemma_interval_not_holds(a, x);
        }
    }
    assert forall|a: Interval, b: Interval, x: Float32, y: Float32|
        range_covers(a, x) && range_covers(b, y) implies range_covers(
        #[trigger] ranges.binary_of(BinaryOp::Compare, a, b),
        #[trigger] points.binary_of(BinaryOp::Compare, x, y),
    ) by {
        if !a.has_nan() && !b.has_nan() {
            lemma_interval_compare_holds(a, b, x, y);
        }
    }
}

/// The arithmetic on numbers with derivatives has the values of the arithmetic
/// on numbers.
pub open spec fn carries_values<A: ScalarFn, F: GradFn>(
    grads: &GradDomain<'_, F>,
    points: &PointDomain<'_, A>,
    shells: Seq<ShellTopology>,
) -> bool {
    &&& forall|op: UnaryOp, a: Grad|
        (#[trigger] grads.arithmetic.apply(GradCall::Unary(op, a))).v == points.unary_of(op, a.v)
    &&& forall|op: BinaryOp, a: Grad, b: Grad|
        !a.v.is_nan() && !b.v.is_nan() || !(op is Min || op is Max) ==> (
        #[trigger] grads.arithmetic.apply(GradCall::Binary(op, a, b))).v == points.binary_of(
            op,
            a.v,
            b.v,
        )
    &&& forall|a: Grad, imm: Float32|
        (#[trigger] grads.arithmetic.apply(GradCall::Scale(a, imm))).v == points.scale_of(
            a.v,
            imm,
        )
    &&& forall|index: usize, x: Grad, y: Grad, z: Grad|
        index < shells.len() ==> (#[trigger] grads.arithmetic.apply(
            GradCall::Shell(index, x, y, z),
        )).v == points.shell_of(&shells[index as int], index, x.v, y.v, z.v)
}

/// A run over numbers with derivatives has the values of the run over the
/// numbers: on every output that the tape writes they agree.
pub proof fn lemma_grad_run_carries_values<A: ScalarFn, F: GradFn>(
    grads: &GradDomain<'_, F>,
    points: &PointDomain<'_, A>,
    shells: Seq<ShellTopology>,
    inputs: Seq<Grad>,
    args: Seq<Float32>,
    ops: Seq<RegOp>,
    s: VmState<Grad>,
    t: VmState<Float32>,
    output: int,
)
    requires
        carries_values(grads, points, shells),
        inputs.len() == args.len(),
        forall|i: int| 0 <= i < inputs.len() ==> (#[trigger] inputs[i]).v == args[i],
        s.slots.len() == t.slots.len() <= usize::MAX,
        s.out.len() == t.out.len() <= usize::MAX,
        inputs.len() <= usize::MAX,
        shells.len() <= usize::MAX,
        ops_fit(ops, s.slots.len(), inputs.len(), s.out.len(), shells.len()),
        0 <= s.cursor,
        s.cursor + count_choices(ops) <= s.choices.len(),
        self_contained(ops),
        0 <= output < s.out.len(),
        writes_output(ops, output),
    ensures
        run(grads, shells, inputs, ops, s).out[output].v == run(
            points,
            shells,
            args,
            ops,
            t,
        ).out[output],
{
    let rel = |grad: Grad, value: Float32| grad.v == value;
    assert(relates(grads, points, shells, rel));
    let still = |v: Seq<Float32>| Seq::new(v.len(), |i: int| Grad::constant(v[i]));
    let fresh = VmState { slots: still(t.slots), out: still(t.out), ..s };
    lemma_runs_relate(grads, points, shells, rel, inputs, args, ops, fresh, t);
    lemma_run_shape(grads, shells, inputs, ops, s);
    lemma_run_ignores_leftovers(grads, shells, inputs, ops, s, fresh);
    let a = run(grads, shells, inputs, ops, s);
    let b = run(grads, shells, inputs, ops, fresh);
    assert(a.out[output] == b.out[output]);
    assert(rel(b.out[output], run(points, shells, args, ops, t).out[output]));
}

/// A comparison has no derivatives, and neither has the lesser or the greater of
/// values of which one is NaN.
pub proof fn lemma_flat_operations<F: GradFn>(grads: &GradDomain<'_, F>, a: Grad, b: Grad)
    ensures
        grads.binary_of(BinaryOp::Compare, a, b) == Grad::constant(compare_value(a.v, b.v)),
        a.v.is_nan() || b.v.is_nan() ==> {
            &&& grads.binary_of(BinaryOp::Min, a, b) == Grad::constant(num(NAN_BITS))
            &&& grads.binary_of(BinaryOp::Max, a, b) == Grad::constant(num(NAN_BITS))
        },
        forall|v: Float32|
            {
                let flat = #[trigger] Grad::constant(v);
                flat.v == v && flat.dx.is_zero() && flat.dy.is_zero() && flat.dz.is_zero()
            },
{
}

/// The range of a profile hull covers its distance at every finite point of the
/// tile.
pub proof fn lemma_profile_shell_is_covered<A: ScalarFn, F: IntervalFn>(
    ranges: &IntervalDomain<'_, A, F>,
    points: &PointDomain<'_, A>,
    shell: &ShellTopology,
    index: usize,
    a: Interval,
    b: Interval,
    c: Interval,
    p: Point,
)
    requires
        rounds_in_order(points.alu),
        ranges.alu == points.alu,
        shell.wf(),
        shell.profile is Some,
        range_covers(a, p.x) && range_covers(b, p.y) && range_covers(c, p.z),
        p.x.is_finite() && p.y.is_finite() && p.z.is_finite(),
    ensures
        range_covers(
            ranges.shell_of(shell, index, a, b, c),
            points.shell_of(shell, index, p.x, p.y, p.z),
        ),
{
    if !a.has_nan() && !b.has_nan() && !c.has_nan() {
        lemma_interval_is_conservative(points.alu, shell, a, b, c, p);
    }
}

} // verus!
