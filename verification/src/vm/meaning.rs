//! What each operation of a tape does.
use crate::alu::Alu;
use crate::alu::ScalarFn;
use crate::alu::ScalarOp;
use crate::scalar::Float32;
use crate::scalar::MINUS_ONE_BITS;
use crate::scalar::NAN_BITS;
use crate::scalar::ONE_BITS;
use crate::scalar::ZERO_BITS;
use crate::scalar::num;
use crate::shell::eval::shell_sample;
use crate::shell::interval::Interval;
use crate::shell::interval::shell_interval;
use crate::shell::params::ShellParamsView;
use crate::shell::topology::ShellTopology;
use crate::vm::arithmetic::Grad;
use crate::vm::arithmetic::GradArithmetic;
use crate::vm::arithmetic::GradCall;
use crate::vm::arithmetic::GradFn;
use crate::vm::arithmetic::IntervalArithmetic;
use crate::vm::arithmetic::IntervalCall;
use crate::vm::arithmetic::IntervalFn;
use crate::vm::choice::Choice;
use crate::vm::domain::Domain;
use crate::vm::domain::GradDomain;
use crate::vm::domain::IntervalDomain;
use crate::vm::domain::PointDomain;
use crate::vm::ops::BinaryOp;
use crate::vm::ops::RegOp;
use crate::vm::ops::UnaryOp;
use crate::vm::state::VmState;
use crate::vm::state::run;
use vstd::prelude::*;

verus! {

/// The value says how two numbers are ordered.
pub open spec fn orders(a: Float32, b: Float32, value: Float32) -> bool {
    &&& value == num(MINUS_ONE_BITS) <==> a.lt(b)
    &&& value == num(ZERO_BITS) <==> a.same(b)
    &&& value == num(ONE_BITS) <==> b.lt(a)
    &&& a.is_nan() || b.is_nan() ==> value == num(NAN_BITS)
}

/// The operation wrote a value and noted one choice.
pub open spec fn notes<V>(
    s: VmState<V>,
    r: VmState<V>,
    out: int,
    value: V,
    choice: Choice,
) -> bool {
    let known = s.choices[s.cursor];
    let noted = r.choices[s.cursor];
    &&& r.slots == s.slots.update(out, value)
    &&& r.out == s.out && r.shells == s.shells && r.work == s.work
    &&& r.cursor == s.cursor + 1
    &&& r.simplify == (s.simplify || choice == Choice::Left || choice == Choice::Right || choice
        == Choice::Unknown)
    &&& 0 <= s.cursor < s.choices.len() ==> {
        &&& r.choices == s.choices.update(s.cursor, noted)
        &&& known == Choice::Unknown ==> noted == choice
        &&& known == choice ==> noted == choice
        &&& known == Choice::Both ==> noted == Choice::Both
        &&& choice == Choice::Both ==> noted == Choice::Both
        &&& known == Choice::Left && choice == Choice::Right ==> noted == Choice::Both
        &&& known == Choice::Right && choice == Choice::Left ==> noted == Choice::Both
    }
}

/// The operation wrote the lesser number and noted which operand it is.
pub open spec fn picks_least(
    s: VmState<Float32>,
    r: VmState<Float32>,
    out: int,
    a: Float32,
    b: Float32,
) -> bool {
    if a.is_nan() || b.is_nan() {
        notes(s, r, out, num(NAN_BITS), Choice::Both)
    } else if a.lt(b) {
        notes(s, r, out, a, Choice::Left)
    } else if b.lt(a) {
        notes(s, r, out, b, Choice::Right)
    } else {
        notes(s, r, out, b, Choice::Both)
    }
}

/// The operation wrote the greater number and noted which operand it is.
pub open spec fn picks_greatest(
    s: VmState<Float32>,
    r: VmState<Float32>,
    out: int,
    a: Float32,
    b: Float32,
) -> bool {
    if a.is_nan() || b.is_nan() {
        notes(s, r, out, num(NAN_BITS), Choice::Both)
    } else if b.lt(a) {
        notes(s, r, out, a, Choice::Left)
    } else if a.lt(b) {
        notes(s, r, out, b, Choice::Right)
    } else {
        notes(s, r, out, b, Choice::Both)
    }
}

/// The operation wrote the first number if it is zero, else the second one.
pub open spec fn picks_both(
    s: VmState<Float32>,
    r: VmState<Float32>,
    out: int,
    a: Float32,
    b: Float32,
) -> bool {
    if a.same(num(ZERO_BITS)) {
        notes(s, r, out, a, Choice::Left)
    } else {
        notes(s, r, out, b, Choice::Right)
    }
}

/// The operation wrote the first number if it is not zero, else the second one.
pub open spec fn picks_either(
    s: VmState<Float32>,
    r: VmState<Float32>,
    out: int,
    a: Float32,
    b: Float32,
) -> bool {
    if a.same(num(ZERO_BITS)) {
        notes(s, r, out, b, Choice::Right)
    } else {
        notes(s, r, out, a, Choice::Left)
    }
}

/// A tape of one operation does that operation.
proof fn lemma_run_one<D: Domain>(
    domain: &D,
    shells: Seq<ShellTopology>,
    inputs: Seq<D::Value>,
    op: RegOp,
    s: VmState<D::Value>,
)
    ensures
        run(domain, shells, inputs, seq![op], s) == crate::vm::state::step(
            domain,
            shells,
            inputs,
            op.decode(),
            s,
        ),
{
    let ops = seq![op];
    assert(ops.drop_last() =~= Seq::empty());
    reveal_with_fuel(run, 2);
}

/// Over numbers, each operation writes the value of the arithmetic that it names on
/// the operands that it names, in their order.
pub proof fn lemma_point_operations<A: ScalarFn>(
    alu: &Alu<A>,
    shells: Seq<ShellTopology>,
    inputs: Seq<Float32>,
    op: RegOp,
    s: VmState<Float32>,
)
    ensures
        ({
            let r = run(&(PointDomain { alu }), shells, inputs, seq![op], s);
            match op {
                RegOp::Output(arg, index) => r == (VmState { out: s.out.update(index as int, s.slots[arg as int]), ..s }),
                RegOp::Input(out, index) => r == s.write(out as int, inputs[index as int]),
                RegOp::NegReg(out, arg) => r == s.write(out as int, s.slots[arg as int].neg()),
                RegOp::AbsReg(out, arg) => r == s.write(out as int, s.slots[arg as int].abs()),
                RegOp::RecipReg(out, arg) => r == s.write(out as int, alu.div(num(ONE_BITS), s.slots[arg as int])),
                RegOp::SqrtReg(out, arg) => r == s.write(out as int, alu.sqrt(s.slots[arg as int])),
                RegOp::SquareReg(out, arg) => r == s.write(out as int, alu.mul(s.slots[arg as int], s.slots[arg as int])),
                RegOp::FloorReg(out, arg) => r == s.write(out as int, alu.apply(ScalarOp::Floor, s.slots[arg as int], num(ZERO_BITS), num(ZERO_BITS))),
                RegOp::CeilReg(out, arg) => r == s.write(out as int, alu.apply(ScalarOp::Ceil, s.slots[arg as int], num(ZERO_BITS), num(ZERO_BITS))),
                RegOp::RoundReg(out, arg) => r == s.write(out as int, alu.apply(ScalarOp::Round, s.slots[arg as int], num(ZERO_BITS), num(ZERO_BITS))),
                RegOp::SinReg(out, arg) => r == s.write(out as int, alu.apply(ScalarOp::Sin, s.slots[arg as int], num(ZERO_BITS), num(ZERO_BITS))),
                RegOp::CosReg(out, arg) => r == s.write(out as int, alu.apply(ScalarOp::Cos, s.slots[arg as int], num(ZERO_BITS), num(ZERO_BITS))),
                RegOp::TanReg(out, arg) => r == s.write(out as int, alu.apply(ScalarOp::Tan, s.slots[arg as int], num(ZERO_BITS), num(ZERO_BITS))),
                RegOp::AsinReg(out, arg) => r == s.write(out as int, alu.apply(ScalarOp::Asin, s.slots[arg as int], num(ZERO_BITS), num(ZERO_BITS))),
                RegOp::AcosReg(out, arg) => r == s.write(out as int, alu.apply(ScalarOp::Acos, s.slots[arg as int], num(ZERO_BITS), num(ZERO_BITS))),
                RegOp::AtanReg(out, arg) => r == s.write(out as int, alu.apply(ScalarOp::Atan, s.slots[arg as int], num(ZERO_BITS), num(ZERO_BITS))),
                RegOp::ExpReg(out, arg) => r == s.write(out as int, alu.apply(ScalarOp::Exp, s.slots[arg as int], num(ZERO_BITS), num(ZERO_BITS))),
                RegOp::LnReg(out, arg) => r == s.write(out as int, alu.apply(ScalarOp::Ln, s.slots[arg as int], num(ZERO_BITS), num(ZERO_BITS))),
                RegOp::CopyReg(out, arg) => r == s.write(out as int, s.slots[arg as int]),
                RegOp::NotReg(out, arg) => (out as int) < s.slots.len() ==> {
                    let value = r.slots[out as int];
                    &&& r == s.write(out as int, value)
                    &&& value == num(ONE_BITS) || value == num(ZERO_BITS)
                    &&& value == num(ONE_BITS) <==> s.slots[arg as int].same(num(ZERO_BITS))
                },
                RegOp::AddRegImm(out, arg, imm) => r == s.write(out as int, alu.add(s.slots[arg as int], imm)),
                RegOp::AddRegReg(out, lhs, rhs) => r == s.write(out as int, alu.add(s.slots[lhs as int], s.slots[rhs as int])),
                RegOp::SubRegImm(out, arg, imm) => r == s.write(out as int, alu.sub(s.slots[arg as int], imm)),
                RegOp::SubImmReg(out, arg, imm) => r == s.write(out as int, alu.sub(imm, s.slots[arg as int])),
                RegOp::SubRegReg(out, lhs, rhs) => r == s.write(out as int, alu.sub(s.slots[lhs as int], s.slots[rhs as int])),
                RegOp::MulRegImm(out, arg, imm) => r == s.write(out as int, alu.mul(s.slots[arg as int], imm)),
                RegOp::MulRegReg(out, lhs, rhs) => r == s.write(out as int, alu.mul(s.slots[lhs as int], s.slots[rhs as int])),
                RegOp::DivRegImm(out, arg, imm) => r == s.write(out as int, alu.div(s.slots[arg as int], imm)),
                RegOp::DivImmReg(out, arg, imm) => r == s.write(out as int, alu.div(imm, s.slots[arg as int])),
                RegOp::DivRegReg(out, lhs, rhs) => r == s.write(out as int, alu.div(s.slots[lhs as int], s.slots[rhs as int])),
                RegOp::AtanRegImm(out, arg, imm) => r == s.write(out as int, alu.apply(ScalarOp::Atan2, s.slots[arg as int], imm, num(ZERO_BITS))),
                RegOp::AtanImmReg(out, arg, imm) => r == s.write(out as int, alu.apply(ScalarOp::Atan2, imm, s.slots[arg as int], num(ZERO_BITS))),
                RegOp::AtanRegReg(out, lhs, rhs) => r == s.write(out as int, alu.apply(ScalarOp::Atan2, s.slots[lhs as int], s.slots[rhs as int], num(ZERO_BITS))),
                RegOp::ModRegImm(out, arg, imm) => r == s.write(out as int, alu.apply(ScalarOp::RemEuclid, s.slots[arg as int], imm, num(ZERO_BITS))),
                RegOp::ModImmReg(out, arg, imm) => r == s.write(out as int, alu.apply(ScalarOp::RemEuclid, imm, s.slots[arg as int], num(ZERO_BITS))),
                RegOp::ModRegReg(out, lhs, rhs) => r == s.write(out as int, alu.apply(ScalarOp::RemEuclid, s.slots[lhs as int], s.slots[rhs as int], num(ZERO_BITS))),
                RegOp::CompareRegImm(out, arg, imm) => (out as int) < s.slots.len() ==> r == s.write(out as int, r.slots[out as int]) && orders(
                    s.slots[arg as int],
                    imm,
                    r.slots[out as int],
                ),
                RegOp::CompareImmReg(out, arg, imm) => (out as int) < s.slots.len() ==> r == s.write(out as int, r.slots[out as int]) && orders(
                    imm,
                    s.slots[arg as int],
                    r.slots[out as int],
                ),
                RegOp::CompareRegReg(out, lhs, rhs) => (out as int) < s.slots.len() ==> r == s.write(out as int, r.slots[out as int]) && orders(
                    s.slots[lhs as int],
                    s.slots[rhs as int],
                    r.slots[out as int],
                ),
                RegOp::MinRegImm(out, arg, imm) => picks_least(
                    s,
                    r,
                    out as int,
                    s.slots[arg as int],
                    imm,
                ),
                RegOp::MinRegReg(out, lhs, rhs) => picks_least(
                    s,
                    r,
                    out as int,
                    s.slots[lhs as int],
                    s.slots[rhs as int],
                ),
                RegOp::MaxRegImm(out, arg, imm) => picks_greatest(
                    s,
                    r,
                    out as int,
                    s.slots[arg as int],
                    imm,
                ),
                RegOp::MaxRegReg(out, lhs, rhs) => picks_greatest(
                    s,
                    r,
                    out as int,
                    s.slots[lhs as int],
                    s.slots[rhs as int],
                ),
                RegOp::AndRegImm(out, arg, imm) => picks_both(
                    s,
                    r,
                    out as int,
                    s.slots[arg as int],
                    imm,
                ),
                RegOp::AndRegReg(out, lhs, rhs) => picks_both(
                    s,
                    r,
                    out as int,
                    s.slots[lhs as int],
                    s.slots[rhs as int],
                ),
                RegOp::OrRegImm(out, arg, imm) => picks_either(
                    s,
                    r,
                    out as int,
                    s.slots[arg as int],
                    imm,
                ),
                RegOp::OrRegReg(out, lhs, rhs) => picks_either(
                    s,
                    r,
                    out as int,
                    s.slots[lhs as int],
                    s.slots[rhs as int],
                ),
                RegOp::CopyImm(out, imm) => r == s.write(out as int, imm),
                RegOp::Load(out, memory) => r == s.write(out as int, s.slots[memory as int]),
                RegOp::Store(arg, memory) => r == s.write(memory as int, s.slots[arg as int]),
                RegOp::ShellDistance(out, shell, x, y, z) => {
                    let sample = shell_sample(
                        alu,
                        &shells[shell as int],
                        ShellParamsView::empty(),
                        s.slots[x as int],
                        s.slots[y as int],
                        s.slots[z as int],
                    );
                    &&& r.slots == s.slots.update(out as int, sample.distance)
                    &&& r.out == s.out && r.choices == s.choices && r.cursor == s.cursor
                    &&& r.shells == s.shells && r.simplify == s.simplify
                },
            }
        }),
{
    lemma_run_one(&(PointDomain { alu }), shells, inputs, op, s);
}

/// The range says whether the numbers of another one are zero.
pub open spec fn denies(a: Interval, value: Interval) -> bool {
    &&& a.holds(num(ZERO_BITS)) ==> value.upper() == num(ONE_BITS)
    &&& a.lower().same(num(ZERO_BITS)) && a.upper().same(num(ZERO_BITS)) ==> value.lower() == num(
        ONE_BITS,
    )
    &&& a.upper().lt(num(ZERO_BITS)) || a.lower().gt(num(ZERO_BITS)) ==> a.has_nan()
        || value.upper() == num(ZERO_BITS)
    &&& value.lower() == num(ONE_BITS) ==> a.lower().same(num(ZERO_BITS)) && a.upper().same(
        num(ZERO_BITS),
    )
    &&& value.lower() == num(ZERO_BITS) || value.lower() == num(ONE_BITS)
    &&& value.upper() == num(ZERO_BITS) || value.upper() == num(ONE_BITS)
}

/// The range says how the numbers of two others may be ordered.
pub open spec fn orders_ranges(a: Interval, b: Interval, value: Interval) -> bool {
    if a.has_nan() || b.has_nan() {
        value.lower() == num(NAN_BITS) && value.upper() == num(NAN_BITS)
    } else {
        a.lower().le(a.upper()) && b.lower().le(b.upper()) ==> {
        &&& value.lower() == num(if a.lower().gt(b.upper()) {
            ONE_BITS
        } else {
            MINUS_ONE_BITS
        })
        &&& value.upper() == num(if a.upper().lt(b.lower()) {
            MINUS_ONE_BITS
        } else {
            ONE_BITS
        })
        }
    }
}

/// Over ranges, each operation writes what the arithmetic on ranges answers to the
/// operation that it names on the operands that it names, in their order.
pub proof fn lemma_range_operations<A: ScalarFn, F: IntervalFn>(
    alu: &Alu<A>,
    arithmetic: &IntervalArithmetic<F>,
    shells: Seq<ShellTopology>,
    inputs: Seq<Interval>,
    op: RegOp,
    s: VmState<Interval>,
)
    ensures
        ({
            let r = run(&(IntervalDomain { alu, arithmetic }), shells, inputs, seq![op], s);
            match op {
                RegOp::Output(arg, index) => r == (VmState { out: s.out.update(index as int, s.slots[arg as int]), ..s }),
                RegOp::Input(out, index) => r == s.write(out as int, inputs[index as int]),
                RegOp::NegReg(out, arg) => r == s.write(out as int, arithmetic.apply(IntervalCall::Unary(UnaryOp::Neg, s.slots[arg as int])).value),
                RegOp::AbsReg(out, arg) => r == s.write(out as int, arithmetic.apply(IntervalCall::Unary(UnaryOp::Abs, s.slots[arg as int])).value),
                RegOp::RecipReg(out, arg) => r == s.write(out as int, arithmetic.apply(IntervalCall::Unary(UnaryOp::Recip, s.slots[arg as int])).value),
                RegOp::SqrtReg(out, arg) => r == s.write(out as int, arithmetic.apply(IntervalCall::Unary(UnaryOp::Sqrt, s.slots[arg as int])).value),
                RegOp::SquareReg(out, arg) => r == s.write(out as int, arithmetic.apply(IntervalCall::Unary(UnaryOp::Square, s.slots[arg as int])).value),
                RegOp::FloorReg(out, arg) => r == s.write(out as int, arithmetic.apply(IntervalCall::Unary(UnaryOp::Floor, s.slots[arg as int])).value),
                RegOp::CeilReg(out, arg) => r == s.write(out as int, arithmetic.apply(IntervalCall::Unary(UnaryOp::Ceil, s.slots[arg as int])).value),
                RegOp::RoundReg(out, arg) => r == s.write(out as int, arithmetic.apply(IntervalCall::Unary(UnaryOp::Round, s.slots[arg as int])).value),
                RegOp::SinReg(out, arg) => r == s.write(out as int, arithmetic.apply(IntervalCall::Unary(UnaryOp::Sin, s.slots[arg as int])).value),
                RegOp::CosReg(out, arg) => r == s.write(out as int, arithmetic.apply(IntervalCall::Unary(UnaryOp::Cos, s.slots[arg as int])).value),
                RegOp::TanReg(out, arg) => r == s.write(out as int, arithmetic.apply(IntervalCall::Unary(UnaryOp::Tan, s.slots[arg as int])).value),
                RegOp::AsinReg(out, arg) => r == s.write(out as int, arithmetic.apply(IntervalCall::Unary(UnaryOp::Asin, s.slots[arg as int])).value),
                RegOp::AcosReg(out, arg) => r == s.write(out as int, arithmetic.apply(IntervalCall::Unary(UnaryOp::Acos, s.slots[arg as int])).value),
                RegOp::AtanReg(out, arg) => r == s.write(out as int, arithmetic.apply(IntervalCall::Unary(UnaryOp::Atan, s.slots[arg as int])).value),
                RegOp::ExpReg(out, arg) => r == s.write(out as int, arithmetic.apply(IntervalCall::Unary(UnaryOp::Exp, s.slots[arg as int])).value),
                RegOp::LnReg(out, arg) => r == s.write(out as int, arithmetic.apply(IntervalCall::Unary(UnaryOp::Ln, s.slots[arg as int])).value),
                RegOp::CopyReg(out, arg) => r == s.write(out as int, s.slots[arg as int]),
                RegOp::NotReg(out, arg) => (out as int) < s.slots.len() ==> r == s.write(out as int, r.slots[out as int]) && denies(s.slots[arg as int], r.slots[out as int]),
                RegOp::AddRegImm(out, arg, imm) => r == s.write(out as int, arithmetic.apply(IntervalCall::Binary(BinaryOp::Add, s.slots[arg as int], Interval::new(imm, imm))).value),
                RegOp::AddRegReg(out, lhs, rhs) => r == s.write(out as int, arithmetic.apply(IntervalCall::Binary(BinaryOp::Add, s.slots[lhs as int], s.slots[rhs as int])).value),
                RegOp::SubRegImm(out, arg, imm) => r == s.write(out as int, arithmetic.apply(IntervalCall::Binary(BinaryOp::Sub, s.slots[arg as int], Interval::new(imm, imm))).value),
                RegOp::SubImmReg(out, arg, imm) => r == s.write(out as int, arithmetic.apply(IntervalCall::Binary(BinaryOp::Sub, Interval::new(imm, imm), s.slots[arg as int])).value),
                RegOp::SubRegReg(out, lhs, rhs) => r == s.write(out as int, arithmetic.apply(IntervalCall::Binary(BinaryOp::Sub, s.slots[lhs as int], s.slots[rhs as int])).value),
                RegOp::MulRegImm(out, arg, imm) => r == s.write(out as int, arithmetic.apply(IntervalCall::Scale(s.slots[arg as int], imm)).value),
                RegOp::MulRegReg(out, lhs, rhs) => r == s.write(out as int, arithmetic.apply(IntervalCall::Binary(BinaryOp::Mul, s.slots[lhs as int], s.slots[rhs as int])).value),
                RegOp::DivRegImm(out, arg, imm) => r == s.write(out as int, arithmetic.apply(IntervalCall::Binary(BinaryOp::Div, s.slots[arg as int], Interval::new(imm, imm))).value),
                RegOp::DivImmReg(out, arg, imm) => r == s.write(out as int, arithmetic.apply(IntervalCall::Binary(BinaryOp::Div, Interval::new(imm, imm), s.slots[arg as int])).value),
                RegOp::DivRegReg(out, lhs, rhs) => r == s.write(out as int, arithmetic.apply(IntervalCall::Binary(BinaryOp::Div, s.slots[lhs as int], s.slots[rhs as int])).value),
                RegOp::AtanRegImm(out, arg, imm) => r == s.write(out as int, arithmetic.apply(IntervalCall::Binary(BinaryOp::Atan, s.slots[arg as int], Interval::new(imm, imm))).value),
                RegOp::AtanImmReg(out, arg, imm) => r == s.write(out as int, arithmetic.apply(IntervalCall::Binary(BinaryOp::Atan, Interval::new(imm, imm), s.slots[arg as int])).value),
                RegOp::AtanRegReg(out, lhs, rhs) => r == s.write(out as int, arithmetic.apply(IntervalCall::Binary(BinaryOp::Atan, s.slots[lhs as int], s.slots[rhs as int])).value),
                RegOp::ModRegImm(out, arg, imm) => r == s.write(out as int, arithmetic.apply(IntervalCall::Binary(BinaryOp::Mod, s.slots[arg as int], Interval::new(imm, imm))).value),
                RegOp::ModImmReg(out, arg, imm) => r == s.write(out as int, arithmetic.apply(IntervalCall::Binary(BinaryOp::Mod, Interval::new(imm, imm), s.slots[arg as int])).value),
                RegOp::ModRegReg(out, lhs, rhs) => r == s.write(out as int, arithmetic.apply(IntervalCall::Binary(BinaryOp::Mod, s.slots[lhs as int], s.slots[rhs as int])).value),
                RegOp::CompareRegImm(out, arg, imm) => (out as int) < s.slots.len() ==> r == s.write(out as int, r.slots[out as int]) && orders_ranges(s.slots[arg as int], Interval::new(imm, imm), r.slots[out as int]),
                RegOp::CompareImmReg(out, arg, imm) => (out as int) < s.slots.len() ==> r == s.write(out as int, r.slots[out as int]) && orders_ranges(Interval::new(imm, imm), s.slots[arg as int], r.slots[out as int]),
                RegOp::CompareRegReg(out, lhs, rhs) => (out as int) < s.slots.len() ==> r == s.write(out as int, r.slots[out as int]) && orders_ranges(s.slots[lhs as int], s.slots[rhs as int], r.slots[out as int]),
                RegOp::MinRegImm(out, arg, imm) => r == s.write(out as int, arithmetic.apply(IntervalCall::Binary(BinaryOp::Min, s.slots[arg as int], Interval::new(imm, imm))).value).pick(arithmetic.apply(IntervalCall::Binary(BinaryOp::Min, s.slots[arg as int], Interval::new(imm, imm))).choice),
                RegOp::MinRegReg(out, lhs, rhs) => r == s.write(out as int, arithmetic.apply(IntervalCall::Binary(BinaryOp::Min, s.slots[lhs as int], s.slots[rhs as int])).value).pick(arithmetic.apply(IntervalCall::Binary(BinaryOp::Min, s.slots[lhs as int], s.slots[rhs as int])).choice),
                RegOp::MaxRegImm(out, arg, imm) => r == s.write(out as int, arithmetic.apply(IntervalCall::Binary(BinaryOp::Max, s.slots[arg as int], Interval::new(imm, imm))).value).pick(arithmetic.apply(IntervalCall::Binary(BinaryOp::Max, s.slots[arg as int], Interval::new(imm, imm))).choice),
                RegOp::MaxRegReg(out, lhs, rhs) => r == s.write(out as int, arithmetic.apply(IntervalCall::Binary(BinaryOp::Max, s.slots[lhs as int], s.slots[rhs as int])).value).pick(arithmetic.apply(IntervalCall::Binary(BinaryOp::Max, s.slots[lhs as int], s.slots[rhs as int])).choice),
                RegOp::AndRegImm(out, arg, imm) => r == s.write(out as int, arithmetic.apply(IntervalCall::Binary(BinaryOp::And, s.slots[arg as int], Interval::new(imm, imm))).value).pick(arithmetic.apply(IntervalCall::Binary(BinaryOp::And, s.slots[arg as int], Interval::new(imm, imm))).choice),
                RegOp::AndRegReg(out, lhs, rhs) => r == s.write(out as int, arithmetic.apply(IntervalCall::Binary(BinaryOp::And, s.slots[lhs as int], s.slots[rhs as int])).value).pick(arithmetic.apply(IntervalCall::Binary(BinaryOp::And, s.slots[lhs as int], s.slots[rhs as int])).choice),
                RegOp::OrRegImm(out, arg, imm) => r == s.write(out as int, arithmetic.apply(IntervalCall::Binary(BinaryOp::Or, s.slots[arg as int], Interval::new(imm, imm))).value).pick(arithmetic.apply(IntervalCall::Binary(BinaryOp::Or, s.slots[arg as int], Interval::new(imm, imm))).choice),
                RegOp::OrRegReg(out, lhs, rhs) => r == s.write(out as int, arithmetic.apply(IntervalCall::Binary(BinaryOp::Or, s.slots[lhs as int], s.slots[rhs as int])).value).pick(arithmetic.apply(IntervalCall::Binary(BinaryOp::Or, s.slots[lhs as int], s.slots[rhs as int])).choice),
                RegOp::CopyImm(out, imm) => r == s.write(out as int, Interval::new(imm, imm)),
                RegOp::Load(out, memory) => r == s.write(out as int, s.slots[memory as int]),
                RegOp::Store(arg, memory) => r == s.write(memory as int, s.slots[arg as int]),
                RegOp::ShellDistance(out, shell, x, y, z) => {
                    let call = IntervalCall::Shell(
                        shell as usize,
                        s.slots[x as int],
                        s.slots[y as int],
                        s.slots[z as int],
                    );
                    let reply = arithmetic.apply(call);
                    &&& r.out == s.out && r.choices == s.choices && r.cursor == s.cursor
                    &&& shells[shell as int].profile is Some ==> {
                        &&& r.slots == s.slots.update(
                            out as int,
                            shell_interval(
                                alu,
                                &shells[shell as int],
                                ShellParamsView::empty(),
                                s.slots[x as int],
                                s.slots[y as int],
                                s.slots[z as int],
                            ),
                        )
                        &&& r.shells == s.shells && r.simplify == s.simplify
                    }
                    &&& shells[shell as int].profile is None ==> {
                        &&& r.slots == s.slots.update(out as int, reply.value)
                        &&& shell < s.shells.len() ==> r.shells == s.shells.update(
                            shell as int,
                            Some(reply.trace),
                        )
                        &&& s.simplify ==> r.simplify
                    }
                },
            }
        }),
{
    lemma_run_one(&(IntervalDomain { alu, arithmetic }), shells, inputs, op, s);
}

/// The value does not change with the coordinates.
pub open spec fn is_flat(a: Grad) -> bool {
    a.dx == num(ZERO_BITS) && a.dy == num(ZERO_BITS) && a.dz == num(ZERO_BITS)
}

/// One for zero and zero for other numbers, without derivatives.
pub open spec fn is_zero_grad(a: Grad) -> Grad {
    Grad {
        v: if a.v.same(num(ZERO_BITS)) {
            num(ONE_BITS)
        } else {
            num(ZERO_BITS)
        },
        dx: num(ZERO_BITS),
        dy: num(ZERO_BITS),
        dz: num(ZERO_BITS),
    }
}

/// Over numbers with derivatives, each operation writes what their arithmetic
/// answers to the operation that it names on the operands that it names, in their
/// order.
pub proof fn lemma_grad_operations<F: GradFn>(
    arithmetic: &GradArithmetic<F>,
    shells: Seq<ShellTopology>,
    inputs: Seq<Grad>,
    op: RegOp,
    s: VmState<Grad>,
)
    ensures
        ({
            let r = run(&(GradDomain { arithmetic }), shells, inputs, seq![op], s);
            match op {
                RegOp::Output(arg, index) => r == (VmState { out: s.out.update(index as int, s.slots[arg as int]), ..s }),
                RegOp::Input(out, index) => r == s.write(out as int, inputs[index as int]),
                RegOp::NegReg(out, arg) => r == s.write(out as int, arithmetic.apply(GradCall::Unary(UnaryOp::Neg, s.slots[arg as int]))),
                RegOp::AbsReg(out, arg) => r == s.write(out as int, arithmetic.apply(GradCall::Unary(UnaryOp::Abs, s.slots[arg as int]))),
                RegOp::RecipReg(out, arg) => r == s.write(out as int, arithmetic.apply(GradCall::Binary(BinaryOp::Div, Grad::new(num(ONE_BITS), num(ZERO_BITS), num(ZERO_BITS), num(ZERO_BITS)), s.slots[arg as int]))),
                RegOp::SqrtReg(out, arg) => r == s.write(out as int, arithmetic.apply(GradCall::Unary(UnaryOp::Sqrt, s.slots[arg as int]))),
                RegOp::SquareReg(out, arg) => r == s.write(out as int, arithmetic.apply(GradCall::Binary(BinaryOp::Mul, s.slots[arg as int], s.slots[arg as int]))),
                RegOp::FloorReg(out, arg) => r == s.write(out as int, arithmetic.apply(GradCall::Unary(UnaryOp::Floor, s.slots[arg as int]))),
                RegOp::CeilReg(out, arg) => r == s.write(out as int, arithmetic.apply(GradCall::Unary(UnaryOp::Ceil, s.slots[arg as int]))),
                RegOp::RoundReg(out, arg) => r == s.write(out as int, arithmetic.apply(GradCall::Unary(UnaryOp::Round, s.slots[arg as int]))),
                RegOp::SinReg(out, arg) => r == s.write(out as int, arithmetic.apply(GradCall::Unary(UnaryOp::Sin, s.slots[arg as int]))),
                RegOp::CosReg(out, arg) => r == s.write(out as int, arithmetic.apply(GradCall::Unary(UnaryOp::Cos, s.slots[arg as int]))),
                RegOp::TanReg(out, arg) => r == s.write(out as int, arithmetic.apply(GradCall::Unary(UnaryOp::Tan, s.slots[arg as int]))),
                RegOp::AsinReg(out, arg) => r == s.write(out as int, arithmetic.apply(GradCall::Unary(UnaryOp::Asin, s.slots[arg as int]))),
                RegOp::AcosReg(out, arg) => r == s.write(out as int, arithmetic.apply(GradCall::Unary(UnaryOp::Acos, s.slots[arg as int]))),
                RegOp::AtanReg(out, arg) => r == s.write(out as int, arithmetic.apply(GradCall::Unary(UnaryOp::Atan, s.slots[arg as int]))),
                RegOp::ExpReg(out, arg) => r == s.write(out as int, arithmetic.apply(GradCall::Unary(UnaryOp::Exp, s.slots[arg as int]))),
                RegOp::LnReg(out, arg) => r == s.write(out as int, arithmetic.apply(GradCall::Unary(UnaryOp::Ln, s.slots[arg as int]))),
                RegOp::CopyReg(out, arg) => r == s.write(out as int, s.slots[arg as int]),
                RegOp::NotReg(out, arg) => r == s.write(out as int, is_zero_grad(s.slots[arg as int])),
                RegOp::AddRegImm(out, arg, imm) => r == s.write(out as int, arithmetic.apply(GradCall::Binary(BinaryOp::Add, s.slots[arg as int], Grad::new(imm, num(ZERO_BITS), num(ZERO_BITS), num(ZERO_BITS))))),
                RegOp::AddRegReg(out, lhs, rhs) => r == s.write(out as int, arithmetic.apply(GradCall::Binary(BinaryOp::Add, s.slots[lhs as int], s.slots[rhs as int]))),
                RegOp::SubRegImm(out, arg, imm) => r == s.write(out as int, arithmetic.apply(GradCall::Binary(BinaryOp::Sub, s.slots[arg as int], Grad::new(imm, num(ZERO_BITS), num(ZERO_BITS), num(ZERO_BITS))))),
                RegOp::SubImmReg(out, arg, imm) => r == s.write(out as int, arithmetic.apply(GradCall::Binary(BinaryOp::Sub, Grad::new(imm, num(ZERO_BITS), num(ZERO_BITS), num(ZERO_BITS)), s.slots[arg as int]))),
                RegOp::SubRegReg(out, lhs, rhs) => r == s.write(out as int, arithmetic.apply(GradCall::Binary(BinaryOp::Sub, s.slots[lhs as int], s.slots[rhs as int]))),
                RegOp::MulRegImm(out, arg, imm) => r == s.write(out as int, arithmetic.apply(GradCall::Scale(s.slots[arg as int], imm))),
                RegOp::MulRegReg(out, lhs, rhs) => r == s.write(out as int, arithmetic.apply(GradCall::Binary(BinaryOp::Mul, s.slots[lhs as int], s.slots[rhs as int]))),
                RegOp::DivRegImm(out, arg, imm) => r == s.write(out as int, arithmetic.apply(GradCall::Binary(BinaryOp::Div, s.slots[arg as int], Grad::new(imm, num(ZERO_BITS), num(ZERO_BITS), num(ZERO_BITS))))),
                RegOp::DivImmReg(out, arg, imm) => r == s.write(out as int, arithmetic.apply(GradCall::Binary(BinaryOp::Div, Grad::new(imm, num(ZERO_BITS), num(ZERO_BITS), num(ZERO_BITS)), s.slots[arg as int]))),
                RegOp::DivRegReg(out, lhs, rhs) => r == s.write(out as int, arithmetic.apply(GradCall::Binary(BinaryOp::Div, s.slots[lhs as int], s.slots[rhs as int]))),
                RegOp::AtanRegImm(out, arg, imm) => r == s.write(out as int, arithmetic.apply(GradCall::Binary(BinaryOp::Atan, s.slots[arg as int], Grad::new(imm, num(ZERO_BITS), num(ZERO_BITS), num(ZERO_BITS))))),
                RegOp::AtanImmReg(out, arg, imm) => r == s.write(out as int, arithmetic.apply(GradCall::Binary(BinaryOp::Atan, Grad::new(imm, num(ZERO_BITS), num(ZERO_BITS), num(ZERO_BITS)), s.slots[arg as int]))),
                RegOp::AtanRegReg(out, lhs, rhs) => r == s.write(out as int, arithmetic.apply(GradCall::Binary(BinaryOp::Atan, s.slots[lhs as int], s.slots[rhs as int]))),
                RegOp::ModRegImm(out, arg, imm) => r == s.write(out as int, arithmetic.apply(GradCall::Binary(BinaryOp::Mod, s.slots[arg as int], Grad::new(imm, num(ZERO_BITS), num(ZERO_BITS), num(ZERO_BITS))))),
                RegOp::ModImmReg(out, arg, imm) => r == s.write(out as int, arithmetic.apply(GradCall::Binary(BinaryOp::Mod, Grad::new(imm, num(ZERO_BITS), num(ZERO_BITS), num(ZERO_BITS)), s.slots[arg as int]))),
                RegOp::ModRegReg(out, lhs, rhs) => r == s.write(out as int, arithmetic.apply(GradCall::Binary(BinaryOp::Mod, s.slots[lhs as int], s.slots[rhs as int]))),
                RegOp::CompareRegImm(out, arg, imm) => (out as int) < s.slots.len() ==> r == s.write(out as int, r.slots[out as int]) && is_flat(r.slots[out as int]) && orders((s.slots[arg as int]).v, (Grad::new(imm, num(ZERO_BITS), num(ZERO_BITS), num(ZERO_BITS))).v, r.slots[out as int].v),
                RegOp::CompareImmReg(out, arg, imm) => (out as int) < s.slots.len() ==> r == s.write(out as int, r.slots[out as int]) && is_flat(r.slots[out as int]) && orders((Grad::new(imm, num(ZERO_BITS), num(ZERO_BITS), num(ZERO_BITS))).v, (s.slots[arg as int]).v, r.slots[out as int].v),
                RegOp::CompareRegReg(out, lhs, rhs) => (out as int) < s.slots.len() ==> r == s.write(out as int, r.slots[out as int]) && is_flat(r.slots[out as int]) && orders((s.slots[lhs as int]).v, (s.slots[rhs as int]).v, r.slots[out as int].v),
                RegOp::MinRegImm(out, arg, imm) => r == s.write(out as int, if (s.slots[arg as int]).v.is_nan() || (Grad::new(imm, num(ZERO_BITS), num(ZERO_BITS), num(ZERO_BITS))).v.is_nan() { Grad::new(num(NAN_BITS), num(ZERO_BITS), num(ZERO_BITS), num(ZERO_BITS)) } else { arithmetic.apply(GradCall::Binary(BinaryOp::Min, s.slots[arg as int], Grad::new(imm, num(ZERO_BITS), num(ZERO_BITS), num(ZERO_BITS)))) }).pick(Choice::Unknown),
                RegOp::MinRegReg(out, lhs, rhs) => r == s.write(out as int, if (s.slots[lhs as int]).v.is_nan() || (s.slots[rhs as int]).v.is_nan() { Grad::new(num(NAN_BITS), num(ZERO_BITS), num(ZERO_BITS), num(ZERO_BITS)) } else { arithmetic.apply(GradCall::Binary(BinaryOp::Min, s.slots[lhs as int], s.slots[rhs as int])) }).pick(Choice::Unknown),
                RegOp::MaxRegImm(out, arg, imm) => r == s.write(out as int, if (s.slots[arg as int]).v.is_nan() || (Grad::new(imm, num(ZERO_BITS), num(ZERO_BITS), num(ZERO_BITS))).v.is_nan() { Grad::new(num(NAN_BITS), num(ZERO_BITS), num(ZERO_BITS), num(ZERO_BITS)) } else { arithmetic.apply(GradCall::Binary(BinaryOp::Max, s.slots[arg as int], Grad::new(imm, num(ZERO_BITS), num(ZERO_BITS), num(ZERO_BITS)))) }).pick(Choice::Unknown),
                RegOp::MaxRegReg(out, lhs, rhs) => r == s.write(out as int, if (s.slots[lhs as int]).v.is_nan() || (s.slots[rhs as int]).v.is_nan() { Grad::new(num(NAN_BITS), num(ZERO_BITS), num(ZERO_BITS), num(ZERO_BITS)) } else { arithmetic.apply(GradCall::Binary(BinaryOp::Max, s.slots[lhs as int], s.slots[rhs as int])) }).pick(Choice::Unknown),
                RegOp::AndRegImm(out, arg, imm) => r == s.write(out as int, if (s.slots[arg as int]).v.same(num(ZERO_BITS)) { s.slots[arg as int] } else { Grad::new(imm, num(ZERO_BITS), num(ZERO_BITS), num(ZERO_BITS)) }).pick(Choice::Unknown),
                RegOp::AndRegReg(out, lhs, rhs) => r == s.write(out as int, if (s.slots[lhs as int]).v.same(num(ZERO_BITS)) { s.slots[lhs as int] } else { s.slots[rhs as int] }).pick(Choice::Unknown),
                RegOp::OrRegImm(out, arg, imm) => r == s.write(out as int, if (s.slots[arg as int]).v.same(num(ZERO_BITS)) { Grad::new(imm, num(ZERO_BITS), num(ZERO_BITS), num(ZERO_BITS)) } else { s.slots[arg as int] }).pick(Choice::Unknown),
                RegOp::OrRegReg(out, lhs, rhs) => r == s.write(out as int, if (s.slots[lhs as int]).v.same(num(ZERO_BITS)) { s.slots[rhs as int] } else { s.slots[lhs as int] }).pick(Choice::Unknown),
                RegOp::CopyImm(out, imm) => r == s.write(out as int, Grad::new(imm, num(ZERO_BITS), num(ZERO_BITS), num(ZERO_BITS))),
                RegOp::Load(out, memory) => r == s.write(out as int, s.slots[memory as int]),
                RegOp::Store(arg, memory) => r == s.write(memory as int, s.slots[arg as int]),
                RegOp::ShellDistance(out, shell, x, y, z) => r.slots == s.slots.update(out as int, arithmetic.apply(GradCall::Shell(shell as usize, s.slots[x as int], s.slots[y as int], s.slots[z as int]))) && r.out == s.out && r.choices == s.choices && r.cursor == s.cursor && r.shells == s.shells && r.simplify == s.simplify,
            }
        }),
{
    lemma_run_one(&(GradDomain { arithmetic }), shells, inputs, op, s);
}

} // verus!
