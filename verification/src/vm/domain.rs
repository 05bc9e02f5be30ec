//! The value domains that a tape can be evaluated over.
use crate::alu::Alu;
use crate::alu::ScalarFn;
use crate::alu::ScalarOp;
use crate::scalar::Float32;
use crate::scalar::MINUS_ONE_BITS;
use crate::scalar::NAN_BITS;
use crate::scalar::ONE_BITS;
use crate::scalar::ZERO_BITS;
use crate::scalar::num;
use crate::shell::eval::ShellEvalScratch;
use crate::shell::eval::eval_shell_distance;
use crate::shell::eval::shell_sample;
use crate::shell::eval::shell_work;
use crate::shell::interval::Interval;
use crate::shell::interval::ShellIntervalTrace;
use crate::shell::interval::eval_shell_interval;
use crate::shell::interval::shell_interval;
use crate::shell::params::ShellParamsView;
use crate::shell::stats::ShellEvalCounters;
use crate::shell::stats::ShellWork;
use crate::shell::stats::lemma_no_work;
use crate::shell::topology::ShellTopology;
use crate::vm::arithmetic::Grad;
use crate::vm::arithmetic::GradArithmetic;
use crate::vm::arithmetic::GradCall;
use crate::vm::arithmetic::GradFn;
use crate::vm::arithmetic::IntervalArithmetic;
use crate::vm::arithmetic::IntervalCall;
use crate::vm::arithmetic::IntervalFn;
use crate::vm::choice::Choice;
use crate::vm::ops::BinaryOp;
use crate::vm::ops::UnaryOp;
use vstd::prelude::*;

verus! {

/// Values that a tape can be evaluated over, with the meaning of every
/// operation on them.
pub trait Domain {
    type Value: Copy;

    /// The value of an immediate.
    spec fn imm_of(&self, imm: Float32) -> Self::Value;

    /// The value of an operation of one operand.
    spec fn unary_of(&self, op: UnaryOp, a: Self::Value) -> Self::Value;

    /// The value of an operation of two operands.
    spec fn binary_of(&self, op: BinaryOp, a: Self::Value, b: Self::Value) -> Self::Value;

    /// Which operand an operation that chooses picks.
    spec fn choice_of(&self, op: BinaryOp, a: Self::Value, b: Self::Value) -> Choice;

    /// A value multiplied by an immediate.
    spec fn scale_of(&self, a: Self::Value, imm: Float32) -> Self::Value;

    /// The distance to a shell.
    spec fn shell_of(
        &self,
        shell: &ShellTopology,
        index: usize,
        x: Self::Value,
        y: Self::Value,
        z: Self::Value,
    ) -> Self::Value;

    /// The trace of a shell evaluation, if one is recorded.
    spec fn shell_trace_of(
        &self,
        shell: &ShellTopology,
        index: usize,
        x: Self::Value,
        y: Self::Value,
        z: Self::Value,
    ) -> Option<ShellIntervalTrace>;

    /// The counted work of a shell evaluation.
    spec fn shell_work_of(
        &self,
        shell: &ShellTopology,
        index: usize,
        x: Self::Value,
        y: Self::Value,
        z: Self::Value,
    ) -> ShellWork;

    fn imm(&self, imm: Float32) -> (r: Self::Value)
        ensures
            r == self.imm_of(imm),
    ;

    fn unary(&self, op: UnaryOp, a: Self::Value) -> (r: Self::Value)
        ensures
            r == self.unary_of(op, a),
    ;

    fn binary(&self, op: BinaryOp, a: Self::Value, b: Self::Value) -> (r: (Self::Value, Choice))
        ensures
            r.0 == self.binary_of(op, a, b),
            r.1 == self.choice_of(op, a, b),
    ;

    fn scale(&self, a: Self::Value, imm: Float32) -> (r: Self::Value)
        ensures
            r == self.scale_of(a, imm),
    ;

    fn shell(
        &self,
        counters: &mut ShellEvalCounters,
        scratch: &mut ShellEvalScratch,
        shell: &ShellTopology,
        index: usize,
        x: Self::Value,
        y: Self::Value,
        z: Self::Value,
    ) -> (r: (Self::Value, Option<ShellIntervalTrace>))
        requires
            shell.wf(),
        ensures
            r.0 == self.shell_of(shell, index, x, y, z),
            r.1 == self.shell_trace_of(shell, index, x, y, z),
            *final(counters) == old(counters).after(self.shell_work_of(shell, index, x, y, z)),
    ;
}

pub open spec fn spec_compare_value(a: Float32, b: Float32) -> Float32 {
    if a.lt(b) {
        num(MINUS_ONE_BITS)
    } else if a.gt(b) {
        num(ONE_BITS)
    } else if a.same(b) {
        num(ZERO_BITS)
    } else {
        num(NAN_BITS)
    }
}

/// Three-way comparison as a number, NaN where the operands are not ordered.
#[verifier::when_used_as_spec(spec_compare_value)]
pub fn compare_value(a: Float32, b: Float32) -> (r: Float32)
    ensures
        r == compare_value(a, b),
{
    if a.lt(b) {
        num(MINUS_ONE_BITS)
    } else if a.gt(b) {
        num(ONE_BITS)
    } else if a.same(b) {
        num(ZERO_BITS)
    } else {
        num(NAN_BITS)
    }
}

pub open spec fn spec_truth_value(truth: bool) -> Float32 {
    if truth {
        num(ONE_BITS)
    } else {
        num(ZERO_BITS)
    }
}

/// One for true, zero for false.
#[verifier::when_used_as_spec(spec_truth_value)]
pub fn truth_value(truth: bool) -> (r: Float32)
    ensures
        r == truth_value(truth),
{
    if truth {
        num(ONE_BITS)
    } else {
        num(ZERO_BITS)
    }
}

pub open spec fn spec_min_choice(a: Float32, b: Float32) -> (Float32, Choice) {
    if a.lt(b) {
        (a, Choice::Left)
    } else if b.lt(a) {
        (b, Choice::Right)
    } else if a.is_nan() || b.is_nan() {
        (num(NAN_BITS), Choice::Both)
    } else {
        (b, Choice::Both)
    }
}

/// The minimum of two numbers and the operand picked; NaN if either is NaN.
#[verifier::when_used_as_spec(spec_min_choice)]
pub fn min_choice(a: Float32, b: Float32) -> (r: (Float32, Choice))
    ensures
        r == min_choice(a, b),
{
    if a.lt(b) {
        (a, Choice::Left)
    } else if b.lt(a) {
        (b, Choice::Right)
    } else if a.is_nan() || b.is_nan() {
        (num(NAN_BITS), Choice::Both)
    } else {
        (b, Choice::Both)
    }
}

pub open spec fn spec_max_choice(a: Float32, b: Float32) -> (Float32, Choice) {
    if a.gt(b) {
        (a, Choice::Left)
    } else if b.gt(a) {
        (b, Choice::Right)
    } else if a.is_nan() || b.is_nan() {
        (num(NAN_BITS), Choice::Both)
    } else {
        (b, Choice::Both)
    }
}

/// The maximum of two numbers and the operand picked; NaN if either is NaN.
#[verifier::when_used_as_spec(spec_max_choice)]
pub fn max_choice(a: Float32, b: Float32) -> (r: (Float32, Choice))
    ensures
        r == max_choice(a, b),
{
    if a.gt(b) {
        (a, Choice::Left)
    } else if b.gt(a) {
        (b, Choice::Right)
    } else if a.is_nan() || b.is_nan() {
        (num(NAN_BITS), Choice::Both)
    } else {
        (b, Choice::Both)
    }
}

pub open spec fn spec_and_choice(a: Float32, b: Float32) -> (Float32, Choice) {
    if a.is_zero() {
        (a, Choice::Left)
    } else {
        (b, Choice::Right)
    }
}

/// The first operand if it is zero, else the second.
#[verifier::when_used_as_spec(spec_and_choice)]
pub fn and_choice(a: Float32, b: Float32) -> (r: (Float32, Choice))
    ensures
        r == and_choice(a, b),
{
    if a.is_zero() {
        (a, Choice::Left)
    } else {
        (b, Choice::Right)
    }
}

pub open spec fn spec_or_choice(a: Float32, b: Float32) -> (Float32, Choice) {
    if !a.is_zero() {
        (a, Choice::Left)
    } else {
        (b, Choice::Right)
    }
}

/// The first operand if it is not zero, else the second.
#[verifier::when_used_as_spec(spec_or_choice)]
pub fn or_choice(a: Float32, b: Float32) -> (r: (Float32, Choice))
    ensures
        r == or_choice(a, b),
{
    if !a.is_zero() {
        (a, Choice::Left)
    } else {
        (b, Choice::Right)
    }
}

/// The minimum and the maximum by choice are NaN for a NaN operand, else the
/// plain minimum and maximum.
pub proof fn lemma_min_max_choice(a: Float32, b: Float32)
    ensures
        min_choice(a, b).0 == (if a.is_nan() || b.is_nan() {
            num(NAN_BITS)
        } else {
            a.min(b)
        }),
        max_choice(a, b).0 == (if a.is_nan() || b.is_nan() {
            num(NAN_BITS)
        } else {
            a.max(b)
        }),
{
}

/// A choice of one operand is the operand that the result equals.
pub proof fn lemma_choice_is_the_result(a: Float32, b: Float32)
    ensures
        min_choice(a, b).1 == Choice::Left ==> min_choice(a, b).0 == a,
        min_choice(a, b).1 == Choice::Right ==> min_choice(a, b).0 == b,
        max_choice(a, b).1 == Choice::Left ==> max_choice(a, b).0 == a,
        max_choice(a, b).1 == Choice::Right ==> max_choice(a, b).0 == b,
        and_choice(a, b).1 == Choice::Left ==> and_choice(a, b).0 == a,
        and_choice(a, b).1 == Choice::Right ==> and_choice(a, b).0 == b,
        or_choice(a, b).1 == Choice::Left ==> or_choice(a, b).0 == a,
        or_choice(a, b).1 == Choice::Right ==> or_choice(a, b).0 == b,
{
}

pub open spec fn spec_point_unary<A: ScalarFn>(alu: &Alu<A>, op: UnaryOp, a: Float32) -> Float32 {
    match op {
        UnaryOp::Neg => a.neg(),
        UnaryOp::Abs => a.abs(),
        UnaryOp::Recip => alu.div(num(ONE_BITS), a),
        UnaryOp::Sqrt => alu.sqrt(a),
        UnaryOp::Square => alu.mul(a, a),
        UnaryOp::Floor => alu.unary(ScalarOp::Floor, a),
        UnaryOp::Ceil => alu.unary(ScalarOp::Ceil, a),
        UnaryOp::Round => alu.unary(ScalarOp::Round, a),
        UnaryOp::Sin => alu.unary(ScalarOp::Sin, a),
        UnaryOp::Cos => alu.unary(ScalarOp::Cos, a),
        UnaryOp::Tan => alu.unary(ScalarOp::Tan, a),
        UnaryOp::Asin => alu.unary(ScalarOp::Asin, a),
        UnaryOp::Acos => alu.unary(ScalarOp::Acos, a),
        UnaryOp::Atan => alu.unary(ScalarOp::Atan, a),
        UnaryOp::Exp => alu.unary(ScalarOp::Exp, a),
        UnaryOp::Ln => alu.unary(ScalarOp::Ln, a),
        UnaryOp::Not => truth_value(a.is_zero()),
        UnaryOp::Copy => a,
    }
}

/// The value of an operation of one operand on a number.
#[verifier::when_used_as_spec(spec_point_unary)]
pub fn point_unary<A: ScalarFn>(alu: &Alu<A>, op: UnaryOp, a: Float32) -> (r: Float32)
    ensures
        r == point_unary(alu, op, a),
{
    match op {
        UnaryOp::Neg => a.neg(),
        UnaryOp::Abs => a.abs(),
        UnaryOp::Recip => alu.div(num(ONE_BITS), a),
        UnaryOp::Sqrt => alu.sqrt(a),
        UnaryOp::Square => alu.mul(a, a),
        UnaryOp::Floor => alu.unary(ScalarOp::Floor, a),
        UnaryOp::Ceil => alu.unary(ScalarOp::Ceil, a),
        UnaryOp::Round => alu.unary(ScalarOp::Round, a),
        UnaryOp::Sin => alu.unary(ScalarOp::Sin, a),
        UnaryOp::Cos => alu.unary(ScalarOp::Cos, a),
        UnaryOp::Tan => alu.unary(ScalarOp::Tan, a),
        UnaryOp::Asin => alu.unary(ScalarOp::Asin, a),
        UnaryOp::Acos => alu.unary(ScalarOp::Acos, a),
        UnaryOp::Atan => alu.unary(ScalarOp::Atan, a),
        UnaryOp::Exp => alu.unary(ScalarOp::Exp, a),
        UnaryOp::Ln => alu.unary(ScalarOp::Ln, a),
        UnaryOp::Not => truth_value(a.is_zero()),
        UnaryOp::Copy => a,
    }
}

pub open spec fn spec_point_binary<A: ScalarFn>(
    alu: &Alu<A>,
    op: BinaryOp,
    a: Float32,
    b: Float32,
) -> (Float32, Choice) {
    match op {
        BinaryOp::Add => (alu.add(a, b), Choice::Unknown),
        BinaryOp::Sub => (alu.sub(a, b), Choice::Unknown),
        BinaryOp::Mul => (alu.mul(a, b), Choice::Unknown),
        BinaryOp::Div => (alu.div(a, b), Choice::Unknown),
        BinaryOp::Atan => (alu.binary(ScalarOp::Atan2, a, b), Choice::Unknown),
        BinaryOp::Mod => (alu.binary(ScalarOp::RemEuclid, a, b), Choice::Unknown),
        BinaryOp::Compare => (compare_value(a, b), Choice::Unknown),
        BinaryOp::Min => min_choice(a, b),
        BinaryOp::Max => max_choice(a, b),
        BinaryOp::And => and_choice(a, b),
        BinaryOp::Or => or_choice(a, b),
    }
}

/// The value of an operation of two operands on numbers, and the operand
/// picked.
#[verifier::when_used_as_spec(spec_point_binary)]
pub fn point_binary<A: ScalarFn>(
    alu: &Alu<A>,
    op: BinaryOp,
    a: Float32,
    b: Float32,
) -> (r: (Float32, Choice))
    ensures
        r == point_binary(alu, op, a, b),
{
    match op {
        BinaryOp::Add => (alu.add(a, b), Choice::Unknown),
        BinaryOp::Sub => (alu.sub(a, b), Choice::Unknown),
        BinaryOp::Mul => (alu.mul(a, b), Choice::Unknown),
        BinaryOp::Div => (alu.div(a, b), Choice::Unknown),
        BinaryOp::Atan => (alu.binary(ScalarOp::Atan2, a, b), Choice::Unknown),
        BinaryOp::Mod => (alu.binary(ScalarOp::RemEuclid, a, b), Choice::Unknown),
        BinaryOp::Compare => (compare_value(a, b), Choice::Unknown),
        BinaryOp::Min => min_choice(a, b),
        BinaryOp::Max => max_choice(a, b),
        BinaryOp::And => and_choice(a, b),
        BinaryOp::Or => or_choice(a, b),
    }
}

/// Evaluation over single numbers.
pub struct PointDomain<'a, A: ScalarFn> {
    pub alu: &'a Alu<A>,
}

impl<'a, A: ScalarFn> Domain for PointDomain<'a, A> {
    type Value = Float32;

    open spec fn imm_of(&self, imm: Float32) -> Float32 {
        imm
    }

    open spec fn unary_of(&self, op: UnaryOp, a: Float32) -> Float32 {
        point_unary(self.alu, op, a)
    }

    open spec fn binary_of(&self, op: BinaryOp, a: Float32, b: Float32) -> Float32 {
        point_binary(self.alu, op, a, b).0
    }

    open spec fn choice_of(&self, op: BinaryOp, a: Float32, b: Float32) -> Choice {
        point_binary(self.alu, op, a, b).1
    }

    open spec fn scale_of(&self, a: Float32, imm: Float32) -> Float32 {
        self.alu.mul(a, imm)
    }

    open spec fn shell_of(
        &self,
        shell: &ShellTopology,
        index: usize,
        x: Float32,
        y: Float32,
        z: Float32,
    ) -> Float32 {
        shell_sample(self.alu, shell, ShellParamsView::empty(), x, y, z).distance
    }

    open spec fn shell_trace_of(
        &self,
        shell: &ShellTopology,
        index: usize,
        x: Float32,
        y: Float32,
        z: Float32,
    ) -> Option<ShellIntervalTrace> {
        None
    }

    open spec fn shell_work_of(
        &self,
        shell: &ShellTopology,
        index: usize,
        x: Float32,
        y: Float32,
        z: Float32,
    ) -> ShellWork {
        shell_work(self.alu, shell, ShellParamsView::empty(), x, y, z)
    }

    fn imm(&self, imm: Float32) -> (r: Float32) {
        imm
    }

    fn unary(&self, op: UnaryOp, a: Float32) -> (r: Float32) {
        point_unary(self.alu, op, a)
    }

    fn binary(&self, op: BinaryOp, a: Float32, b: Float32) -> (r: (Float32, Choice)) {
        point_binary(self.alu, op, a, b)
    }

    fn scale(&self, a: Float32, imm: Float32) -> (r: Float32) {
        self.alu.mul(a, imm)
    }

    fn shell(
        &self,
        counters: &mut ShellEvalCounters,
        scratch: &mut ShellEvalScratch,
        shell: &ShellTopology,
        index: usize,
        x: Float32,
        y: Float32,
        z: Float32,
    ) -> (r: (Float32, Option<ShellIntervalTrace>)) {
        let sample = eval_shell_distance(
            self.alu,
            counters,
            shell,
            ShellParamsView::empty(),
            scratch,
            x,
            y,
            z,
        );
        (sample.distance, None)
    }
}

pub open spec fn spec_interval_not(a: Interval) -> Interval {
    if !(a.lower().le(num(ZERO_BITS)) && num(ZERO_BITS).le(a.upper())) && !a.has_nan() {
        Interval::new(num(ZERO_BITS), num(ZERO_BITS))
    } else if a.lower().is_zero() && a.upper().is_zero() {
        Interval::new(num(ONE_BITS), num(ONE_BITS))
    } else {
        Interval::new(num(ZERO_BITS), num(ONE_BITS))
    }
}

/// Logical not of a range: decided where the range is away from zero or is
/// zero.
#[verifier::when_used_as_spec(spec_interval_not)]
pub fn interval_not(a: Interval) -> (r: Interval)
    ensures
        r == interval_not(a),
{
    if !(a.lower().le(num(ZERO_BITS)) && num(ZERO_BITS).le(a.upper())) && !a.has_nan() {
        Interval::new(num(ZERO_BITS), num(ZERO_BITS))
    } else if a.lower().is_zero() && a.upper().is_zero() {
        Interval::new(num(ONE_BITS), num(ONE_BITS))
    } else {
        Interval::new(num(ZERO_BITS), num(ONE_BITS))
    }
}

pub open spec fn spec_interval_compare(a: Interval, b: Interval) -> Interval {
    if a.has_nan() || b.has_nan() {
        Interval::new(num(NAN_BITS), num(NAN_BITS))
    } else if a.upper().lt(b.lower()) {
        Interval::new(num(MINUS_ONE_BITS), num(MINUS_ONE_BITS))
    } else if a.lower().gt(b.upper()) {
        Interval::new(num(ONE_BITS), num(ONE_BITS))
    } else {
        Interval::new(num(MINUS_ONE_BITS), num(ONE_BITS))
    }
}

/// Three-way comparison of ranges: decided where one lies wholly below the
/// other.
#[verifier::when_used_as_spec(spec_interval_compare)]
pub fn interval_compare(a: Interval, b: Interval) -> (r: Interval)
    ensures
        r == interval_compare(a, b),
{
    if a.has_nan() || b.has_nan() {
        Interval::new(num(NAN_BITS), num(NAN_BITS))
    } else if a.upper().lt(b.lower()) {
        Interval::new(num(MINUS_ONE_BITS), num(MINUS_ONE_BITS))
    } else if a.lower().gt(b.upper()) {
        Interval::new(num(ONE_BITS), num(ONE_BITS))
    } else {
        Interval::new(num(MINUS_ONE_BITS), num(ONE_BITS))
    }
}

/// The comparison of two ranges holds the comparison of any of their numbers.
pub proof fn lemma_interval_compare_holds(a: Interval, b: Interval, x: Float32, y: Float32)
    requires
        a.holds(x),
        b.holds(y),
    ensures
        interval_compare(a, b).holds(compare_value(x, y)),
{
}

/// The negation of a range holds the negation of any of its numbers.
pub proof fn lemma_interval_not_holds(a: Interval, x: Float32)
    requires
        a.holds(x),
    ensures
        interval_not(a).holds(truth_value(x.is_zero())),
{
}

/// Evaluation over ranges, with tracing.
pub struct IntervalDomain<'a, A: ScalarFn, F: IntervalFn> {
    pub alu: &'a Alu<A>,
    pub arithmetic: &'a IntervalArithmetic<F>,
}

impl<'a, A: ScalarFn, F: IntervalFn> Domain for IntervalDomain<'a, A, F> {
    type Value = Interval;

    open spec fn imm_of(&self, imm: Float32) -> Interval {
        Interval::new(imm, imm)
    }

    open spec fn unary_of(&self, op: UnaryOp, a: Interval) -> Interval {
        match op {
            UnaryOp::Not => interval_not(a),
            UnaryOp::Copy => a,
            _ => self.arithmetic.apply(IntervalCall::Unary(op, a)).value,
        }
    }

    open spec fn binary_of(&self, op: BinaryOp, a: Interval, b: Interval) -> Interval {
        match op {
            BinaryOp::Compare => interval_compare(a, b),
            _ => self.arithmetic.apply(IntervalCall::Binary(op, a, b)).value,
        }
    }

    open spec fn choice_of(&self, op: BinaryOp, a: Interval, b: Interval) -> Choice {
        match op {
            BinaryOp::Compare => Choice::Unknown,
            _ => self.arithmetic.apply(IntervalCall::Binary(op, a, b)).choice,
        }
    }

    open spec fn scale_of(&self, a: Interval, imm: Float32) -> Interval {
        self.arithmetic.apply(IntervalCall::Scale(a, imm)).value
    }

    open spec fn shell_of(
        &self,
        shell: &ShellTopology,
        index: usize,
        x: Interval,
        y: Interval,
        z: Interval,
    ) -> Interval {
        if shell.profile is Some {
            shell_interval(self.alu, shell, ShellParamsView::empty(), x, y, z)
        } else {
            self.arithmetic.apply(IntervalCall::Shell(index, x, y, z)).value
        }
    }

    open spec fn shell_trace_of(
        &self,
        shell: &ShellTopology,
        index: usize,
        x: Interval,
        y: Interval,
        z: Interval,
    ) -> Option<ShellIntervalTrace> {
        if shell.profile is Some {
            None
        } else {
            Some(self.arithmetic.apply(IntervalCall::Shell(index, x, y, z)).trace)
        }
    }

    open spec fn shell_work_of(
        &self,
        shell: &ShellTopology,
        index: usize,
        x: Interval,
        y: Interval,
        z: Interval,
    ) -> ShellWork {
        if shell.profile is Some {
            ShellWork { interval_calls: 1, ..ShellWork::none() }
        } else {
            ShellWork::none()
        }
    }

    fn imm(&self, imm: Float32) -> (r: Interval) {
        Interval::new(imm, imm)
    }

    fn unary(&self, op: UnaryOp, a: Interval) -> (r: Interval) {
        match op {
            UnaryOp::Not => interval_not(a),
            UnaryOp::Copy => a,
            _ => self.arithmetic.apply(IntervalCall::Unary(op, a)).value,
        }
    }

    fn binary(&self, op: BinaryOp, a: Interval, b: Interval) -> (r: (Interval, Choice)) {
        match op {
            BinaryOp::Compare => (interval_compare(a, b), Choice::Unknown),
            _ => {
                let reply = self.arithmetic.apply(IntervalCall::Binary(op, a, b));
                (reply.value, reply.choice)
            },
        }
    }

    fn scale(&self, a: Interval, imm: Float32) -> (r: Interval) {
        self.arithmetic.apply(IntervalCall::Scale(a, imm)).value
    }

    fn shell(
        &self,
        counters: &mut ShellEvalCounters,
        scratch: &mut ShellEvalScratch,
        shell: &ShellTopology,
        index: usize,
        x: Interval,
        y: Interval,
        z: Interval,
    ) -> (r: (Interval, Option<ShellIntervalTrace>)) {
        if shell.profile.is_some() {
            (eval_shell_interval(self.alu, counters, shell, x, y, z), None)
        } else {
            proof {
                lemma_no_work(*counters);
            }
            let reply = self.arithmetic.apply(IntervalCall::Shell(index, x, y, z));
            (reply.value, Some(reply.trace))
        }
    }
}

/// Evaluation over numbers with derivatives.
pub struct GradDomain<'a, F: GradFn> {
    pub arithmetic: &'a GradArithmetic<F>,
}

impl<'a, F: GradFn> Domain for GradDomain<'a, F> {
    type Value = Grad;

    open spec fn imm_of(&self, imm: Float32) -> Grad {
        Grad::constant(imm)
    }

    open spec fn unary_of(&self, op: UnaryOp, a: Grad) -> Grad {
        match op {
            UnaryOp::Not => Grad::constant(truth_value(a.v.is_zero())),
            UnaryOp::Copy => a,
            UnaryOp::Square => self.arithmetic.apply(GradCall::Binary(BinaryOp::Mul, a, a)),
            UnaryOp::Recip => self.arithmetic.apply(
                GradCall::Binary(BinaryOp::Div, Grad::constant(num(ONE_BITS)), a),
            ),
            _ => self.arithmetic.apply(GradCall::Unary(op, a)),
        }
    }

    open spec fn binary_of(&self, op: BinaryOp, a: Grad, b: Grad) -> Grad {
        match op {
            BinaryOp::Compare => Grad::constant(compare_value(a.v, b.v)),
            BinaryOp::And => if a.v.is_zero() {
                a
            } else {
                b
            },
            BinaryOp::Or => if !a.v.is_zero() {
                a
            } else {
                b
            },
            BinaryOp::Min | BinaryOp::Max => if a.v.is_nan() || b.v.is_nan() {
                Grad::constant(num(NAN_BITS))
            } else {
                self.arithmetic.apply(GradCall::Binary(op, a, b))
            },
            _ => self.arithmetic.apply(GradCall::Binary(op, a, b)),
        }
    }

    open spec fn choice_of(&self, op: BinaryOp, a: Grad, b: Grad) -> Choice {
        Choice::Unknown
    }

    open spec fn scale_of(&self, a: Grad, imm: Float32) -> Grad {
        self.arithmetic.apply(GradCall::Scale(a, imm))
    }

    open spec fn shell_of(
        &self,
        shell: &ShellTopology,
        index: usize,
        x: Grad,
        y: Grad,
        z: Grad,
    ) -> Grad {
        self.arithmetic.apply(GradCall::Shell(index, x, y, z))
    }

    open spec fn shell_trace_of(
        &self,
        shell: &ShellTopology,
        index: usize,
        x: Grad,
        y: Grad,
        z: Grad,
    ) -> Option<ShellIntervalTrace> {
        None
    }

    open spec fn shell_work_of(
        &self,
        shell: &ShellTopology,
        index: usize,
        x: Grad,
        y: Grad,
        z: Grad,
    ) -> ShellWork {
        ShellWork::none()
    }

    fn imm(&self, imm: Float32) -> (r: Grad) {
        Grad::constant(imm)
    }

    fn unary(&self, op: UnaryOp, a: Grad) -> (r: Grad) {
        match op {
            UnaryOp::Not => Grad::constant(truth_value(a.v.is_zero())),
            UnaryOp::Copy => a,
            UnaryOp::Square => self.arithmetic.apply(GradCall::Binary(BinaryOp::Mul, a, a)),
            UnaryOp::Recip => self.arithmetic.apply(
                GradCall::Binary(BinaryOp::Div, Grad::constant(num(ONE_BITS)), a),
            ),
            _ => self.arithmetic.apply(GradCall::Unary(op, a)),
        }
    }

    fn binary(&self, op: BinaryOp, a: Grad, b: Grad) -> (r: (Grad, Choice)) {
        let value = match op {
            BinaryOp::Compare => Grad::constant(compare_value(a.v, b.v)),
            BinaryOp::And => if a.v.is_zero() {
                a
            } else {
                b
            },
            BinaryOp::Or => if !a.v.is_zero() {
                a
            } else {
                b
            },
            BinaryOp::Min | BinaryOp::Max => if a.v.is_nan() || b.v.is_nan() {
                Grad::constant(num(NAN_BITS))
            } else {
                self.arithmetic.apply(GradCall::Binary(op, a, b))
            },
            _ => self.arithmetic.apply(GradCall::Binary(op, a, b)),
        };
        (value, Choice::Unknown)
    }

    fn scale(&self, a: Grad, imm: Float32) -> (r: Grad) {
        self.arithmetic.apply(GradCall::Scale(a, imm))
    }

    fn shell(
        &self,
        counters: &mut ShellEvalCounters,
        scratch: &mut ShellEvalScratch,
        shell: &ShellTopology,
        index: usize,
        x: Grad,
        y: Grad,
        z: Grad,
    ) -> (r: (Grad, Option<ShellIntervalTrace>)) {
        proof {
            lemma_no_work(*counters);
        }
        (self.arithmetic.apply(GradCall::Shell(index, x, y, z)), None)
    }
}

} // verus!
