//! Register operations of the virtual machine.
use crate::scalar::Float32;
use vstd::prelude::*;

verus! {

/// An operation of one operand.
#[derive(Clone, Copy, Debug, PartialEq, Eq, Structural)]
pub enum UnaryOp {
    /// Negate
    Neg,
    /// Absolute value
    Abs,
    /// Reciprocal
    Recip,
    /// Square root
    Sqrt,
    /// Square
    Square,
    /// Round down
    Floor,
    /// Round up
    Ceil,
    /// Round to nearest
    Round,
    /// Sine
    Sin,
    /// Cosine
    Cos,
    /// Tangent
    Tan,
    /// Arcsine
    Asin,
    /// Arccosine
    Acos,
    /// Arctangent
    Atan,
    /// Exponential
    Exp,
    /// Natural logarithm
    Ln,
    /// Logical not
    Not,
    /// Copy
    Copy,
}

/// An operation of two operands.
#[derive(Clone, Copy, Debug, PartialEq, Eq, Structural)]
pub enum BinaryOp {
    /// Addition
    Add,
    /// Subtraction
    Sub,
    /// Multiplication
    Mul,
    /// Division
    Div,
    /// Four-quadrant arctangent
    Atan,
    /// Least nonnegative remainder
    Mod,
    /// Three-way comparison
    Compare,
    /// Minimum
    Min,
    /// Maximum
    Max,
    /// Short-circuit and
    And,
    /// Short-circuit or
    Or,
}

impl BinaryOp {
    pub open spec fn spec_chooses(self) -> bool {
        match self {
            BinaryOp::Min => true,
            BinaryOp::Max => true,
            BinaryOp::And => true,
            BinaryOp::Or => true,
            _ => false,
        }
    }

    /// Whether the operation picks one of its operands and records the choice.
    #[verifier::when_used_as_spec(spec_chooses)]
    pub fn chooses(self) -> (r: bool)
        ensures
            r == self.chooses(),
    {
        match self {
            BinaryOp::Min => true,
            BinaryOp::Max => true,
            BinaryOp::And => true,
            BinaryOp::Or => true,
            _ => false,
        }
    }
}

/// One operation of a tape.
///
/// Registers are named by `u8` and memory slots by `u32`; both index the same
/// slots. The first operand is the one that is written, except for `Output`
/// and `Store`, which read it.
#[derive(Clone, Copy, Debug, PartialEq, Eq, Structural)]
pub enum RegOp {
    /// Write a register to an output.
    Output(u8, u32),
    /// Read an input into a register.
    Input(u8, u32),
    /// Negate of a register.
    NegReg(u8, u8),
    /// Absolute value of a register.
    AbsReg(u8, u8),
    /// Reciprocal of a register.
    RecipReg(u8, u8),
    /// Square root of a register.
    SqrtReg(u8, u8),
    /// Square of a register.
    SquareReg(u8, u8),
    /// Round down of a register.
    FloorReg(u8, u8),
    /// Round up of a register.
    CeilReg(u8, u8),
    /// Round to nearest of a register.
    RoundReg(u8, u8),
    /// Sine of a register.
    SinReg(u8, u8),
    /// Cosine of a register.
    CosReg(u8, u8),
    /// Tangent of a register.
    TanReg(u8, u8),
    /// Arcsine of a register.
    AsinReg(u8, u8),
    /// Arccosine of a register.
    AcosReg(u8, u8),
    /// Arctangent of a register.
    AtanReg(u8, u8),
    /// Exponential of a register.
    ExpReg(u8, u8),
    /// Natural logarithm of a register.
    LnReg(u8, u8),
    /// Logical not of a register.
    NotReg(u8, u8),
    /// Copy of a register.
    CopyReg(u8, u8),
    /// Distance to a native shell at a point held in three registers.
    ShellDistance(u8, u32, u8, u8, u8),
    /// Addition of a register and an immediate.
    AddRegImm(u8, u8, Float32),
    /// Addition of two registers.
    AddRegReg(u8, u8, u8),
    /// Subtraction of a register and an immediate.
    SubRegImm(u8, u8, Float32),
    /// Subtraction of an immediate and a register.
    SubImmReg(u8, u8, Float32),
    /// Subtraction of two registers.
    SubRegReg(u8, u8, u8),
    /// Multiplication of a register and an immediate.
    MulRegImm(u8, u8, Float32),
    /// Multiplication of two registers.
    MulRegReg(u8, u8, u8),
    /// Division of a register and an immediate.
    DivRegImm(u8, u8, Float32),
    /// Division of an immediate and a register.
    DivImmReg(u8, u8, Float32),
    /// Division of two registers.
    DivRegReg(u8, u8, u8),
    /// Four-quadrant arctangent of a register and an immediate.
    AtanRegImm(u8, u8, Float32),
    /// Four-quadrant arctangent of an immediate and a register.
    AtanImmReg(u8, u8, Float32),
    /// Four-quadrant arctangent of two registers.
    AtanRegReg(u8, u8, u8),
    /// Least nonnegative remainder of a register and an immediate.
    ModRegImm(u8, u8, Float32),
    /// Least nonnegative remainder of an immediate and a register.
    ModImmReg(u8, u8, Float32),
    /// Least nonnegative remainder of two registers.
    ModRegReg(u8, u8, u8),
    /// Three-way comparison of a register and an immediate.
    CompareRegImm(u8, u8, Float32),
    /// Three-way comparison of an immediate and a register.
    CompareImmReg(u8, u8, Float32),
    /// Three-way comparison of two registers.
    CompareRegReg(u8, u8, u8),
    /// Minimum of a register and an immediate.
    MinRegImm(u8, u8, Float32),
    /// Minimum of two registers.
    MinRegReg(u8, u8, u8),
    /// Maximum of a register and an immediate.
    MaxRegImm(u8, u8, Float32),
    /// Maximum of two registers.
    MaxRegReg(u8, u8, u8),
    /// Short-circuit and of a register and an immediate.
    AndRegImm(u8, u8, Float32),
    /// Short-circuit and of two registers.
    AndRegReg(u8, u8, u8),
    /// Short-circuit or of a register and an immediate.
    OrRegImm(u8, u8, Float32),
    /// Short-circuit or of two registers.
    OrRegReg(u8, u8, u8),
    /// Copy an immediate to a register.
    CopyImm(u8, Float32),
    /// Load a register from a memory slot.
    Load(u8, u32),
    /// Store a register to a memory slot.
    Store(u8, u32),
}

/// An operation by its shape: what it reads, what it computes and what it
/// writes.
#[derive(Clone, Copy, Debug, PartialEq, Eq, Structural)]
pub enum Instr {
    Output { arg: usize, index: usize },
    Input { out: usize, index: usize },
    Unary { unary: UnaryOp, out: usize, arg: usize },
    RegReg { op: BinaryOp, out: usize, lhs: usize, rhs: usize },
    RegImm { op: BinaryOp, out: usize, arg: usize, imm: Float32 },
    ImmReg { op: BinaryOp, out: usize, arg: usize, imm: Float32 },
    Shell { out: usize, shell: usize, x: usize, y: usize, z: usize },
    Imm { out: usize, imm: Float32 },
    Move { out: usize, arg: usize },
}

impl RegOp {
    pub open spec fn spec_decode(self) -> Instr {
        match self {
            RegOp::Output(arg, i) => Instr::Output { arg: arg as usize, index: i as usize },
            RegOp::Input(out, i) => Instr::Input { out: out as usize, index: i as usize },
            RegOp::NegReg(out, arg) => Instr::Unary {
                unary: UnaryOp::Neg,
                out: out as usize,
                arg: arg as usize,
            },
            RegOp::AbsReg(out, arg) => Instr::Unary {
                unary: UnaryOp::Abs,
                out: out as usize,
                arg: arg as usize,
            },
            RegOp::RecipReg(out, arg) => Instr::Unary {
                unary: UnaryOp::Recip,
                out: out as usize,
                arg: arg as usize,
            },
            RegOp::SqrtReg(out, arg) => Instr::Unary {
                unary: UnaryOp::Sqrt,
                out: out as usize,
                arg: arg as usize,
            },
            RegOp::SquareReg(out, arg) => Instr::Unary {
                unary: UnaryOp::Square,
                out: out as usize,
                arg: arg as usize,
            },
            RegOp::FloorReg(out, arg) => Instr::Unary {
                unary: UnaryOp::Floor,
                out: out as usize,
                arg: arg as usize,
            },
            RegOp::CeilReg(out, arg) => Instr::Unary {
                unary: UnaryOp::Ceil,
                out: out as usize,
                arg: arg as usize,
            },
            RegOp::RoundReg(out, arg) => Instr::Unary {
                unary: UnaryOp::Round,
                out: out as usize,
                arg: arg as usize,
            },
            RegOp::SinReg(out, arg) => Instr::Unary {
                unary: UnaryOp::Sin,
                out: out as usize,
                arg: arg as usize,
            },
            RegOp::CosReg(out, arg) => Instr::Unary {
                unary: UnaryOp::Cos,
                out: out as usize,
                arg: arg as usize,
            },
            RegOp::TanReg(out, arg) => Instr::Unary {
                unary: UnaryOp::Tan,
                out: out as usize,
                arg: arg as usize,
            },
            RegOp::AsinReg(out, arg) => Instr::Unary {
                unary: UnaryOp::Asin,
                out: out as usize,
                arg: arg as usize,
            },
            RegOp::AcosReg(out, arg) => Instr::Unary {
                unary: UnaryOp::Acos,
                out: out as usize,
                arg: arg as usize,
            },
            RegOp::AtanReg(out, arg) => Instr::Unary {
                unary: UnaryOp::Atan,
                out: out as usize,
                arg: arg as usize,
            },
            RegOp::ExpReg(out, arg) => Instr::Unary {
                unary: UnaryOp::Exp,
                out: out as usize,
                arg: arg as usize,
            },
            RegOp::LnReg(out, arg) => Instr::Unary {
                unary: UnaryOp::Ln,
                out: out as usize,
                arg: arg as usize,
            },
            RegOp::NotReg(out, arg) => Instr::Unary {
                unary: UnaryOp::Not,
                out: out as usize,
                arg: arg as usize,
            },
            RegOp::CopyReg(out, arg) => Instr::Unary {
                unary: UnaryOp::Copy,
                out: out as usize,
                arg: arg as usize,
            },
            RegOp::ShellDistance(out, shell, x, y, z) => Instr::Shell {
                out: out as usize,
                shell: shell as usize,
                x: x as usize,
                y: y as usize,
                z: z as usize,
            },
            RegOp::AddRegImm(out, arg, imm) => Instr::RegImm {
                op: BinaryOp::Add,
                out: out as usize,
                arg: arg as usize,
                imm,
            },
            RegOp::AddRegReg(out, lhs, rhs) => Instr::RegReg {
                op: BinaryOp::Add,
                out: out as usize,
                lhs: lhs as usize,
                rhs: rhs as usize,
            },
            RegOp::SubRegImm(out, arg, imm) => Instr::RegImm {
                op: BinaryOp::Sub,
                out: out as usize,
                arg: arg as usize,
                imm,
            },
            RegOp::SubImmReg(out, arg, imm) => Instr::ImmReg {
                op: BinaryOp::Sub,
                out: out as usize,
                arg: arg as usize,
                imm,
            },
            RegOp::SubRegReg(out, lhs, rhs) => Instr::RegReg {
                op: BinaryOp::Sub,
                out: out as usize,
                lhs: lhs as usize,
                rhs: rhs as usize,
            },
            RegOp::MulRegImm(out, arg, imm) => Instr::RegImm {
                op: BinaryOp::Mul,
                out: out as usize,
                arg: arg as usize,
                imm,
            },
            RegOp::MulRegReg(out, lhs, rhs) => Instr::RegReg {
                op: BinaryOp::Mul,
                out: out as usize,
                lhs: lhs as usize,
                rhs: rhs as usize,
            },
            RegOp::DivRegImm(out, arg, imm) => Instr::RegImm {
                op: BinaryOp::Div,
                out: out as usize,
                arg: arg as usize,
                imm,
            },
            RegOp::DivImmReg(out, arg, imm) => Instr::ImmReg {
                op: BinaryOp::Div,
                out: out as usize,
                arg: arg as usize,
                imm,
            },
            RegOp::DivRegReg(out, lhs, rhs) => Instr::RegReg {
                op: BinaryOp::Div,
                out: out as usize,
                lhs: lhs as usize,
                rhs: rhs as usize,
            },
            RegOp::AtanRegImm(out, arg, imm) => Instr::RegImm {
                op: BinaryOp::Atan,
                out: out as usize,
                arg: arg as usize,
                imm,
            },
            RegOp::AtanImmReg(out, arg, imm) => Instr::ImmReg {
                op: BinaryOp::Atan,
                out: out as usize,
                arg: arg as usize,
                imm,
            },
            RegOp::AtanRegReg(out, lhs, rhs) => Instr::RegReg {
                op: BinaryOp::Atan,
                out: out as usize,
                lhs: lhs as usize,
                rhs: rhs as usize,
            },
            RegOp::ModRegImm(out, arg, imm) => Instr::RegImm {
                op: BinaryOp::Mod,
                out: out as usize,
                arg: arg as usize,
                imm,
            },
            RegOp::ModImmReg(out, arg, imm) => Instr::ImmReg {
                op: BinaryOp::Mod,
                out: out as usize,
                arg: arg as usize,
                imm,
            },
            RegOp::ModRegReg(out, lhs, rhs) => Instr::RegReg {
                op: BinaryOp::Mod,
                out: out as usize,
                lhs: lhs as usize,
                rhs: rhs as usize,
            },
            RegOp::CompareRegImm(out, arg, imm) => Instr::RegImm {
                op: BinaryOp::Compare,
                out: out as usize,
                arg: arg as usize,
                imm,
            },
            RegOp::CompareImmReg(out, arg, imm) => Instr::ImmReg {
                op: BinaryOp::Compare,
                out: out as usize,
                arg: arg as usize,
                imm,
            },
            RegOp::CompareRegReg(out, lhs, rhs) => Instr::RegReg {
                op: BinaryOp::Compare,
                out: out as usize,
                lhs: lhs as usize,
                rhs: rhs as usize,
            },
            RegOp::MinRegImm(out, arg, imm) => Instr::RegImm {
                op: BinaryOp::Min,
                out: out as usize,
                arg: arg as usize,
                imm,
            },
            RegOp::MinRegReg(out, lhs, rhs) => Instr::RegReg {
                op: BinaryOp::Min,
                out: out as usize,
                lhs: lhs as usize,
                rhs: rhs as usize,
            },
            RegOp::MaxRegImm(out, arg, imm) => Instr::RegImm {
                op: BinaryOp::Max,
                out: out as usize,
                arg: arg as usize,
                imm,
            },
            RegOp::MaxRegReg(out, lhs, rhs) => Instr::RegReg {
                op: BinaryOp::Max,
                out: out as usize,
                lhs: lhs as usize,
                rhs: rhs as usize,
            },
            RegOp::AndRegImm(out, arg, imm) => Instr::RegImm {
                op: BinaryOp::And,
                out: out as usize,
                arg: arg as usize,
                imm,
            },
            RegOp::AndRegReg(out, lhs, rhs) => Instr::RegReg {
                op: BinaryOp::And,
                out: out as usize,
                lhs: lhs as usize,
                rhs: rhs as usize,
            },
            RegOp::OrRegImm(out, arg, imm) => Instr::RegImm {
                op: BinaryOp::Or,
                out: out as usize,
                arg: arg as usize,
                imm,
            },
            RegOp::OrRegReg(out, lhs, rhs) => Instr::RegReg {
                op: BinaryOp::Or,
                out: out as usize,
                lhs: lhs as usize,
                rhs: rhs as usize,
            },
            RegOp::CopyImm(out, imm) => Instr::Imm { out: out as usize, imm },
            RegOp::Load(out, mem) => Instr::Move { out: out as usize, arg: mem as usize },
            RegOp::Store(out, mem) => Instr::Move { out: mem as usize, arg: out as usize },
        }
    }

    /// The shape of an operation.
    #[verifier::when_used_as_spec(spec_decode)]
    pub fn decode(self) -> (r: Instr)
        ensures
            r == self.decode(),
    {
        match self {
            RegOp::Output(arg, i) => Instr::Output { arg: arg as usize, index: i as usize },
            RegOp::Input(out, i) => Instr::Input { out: out as usize, index: i as usize },
            RegOp::NegReg(out, arg) => Instr::Unary {
                unary: UnaryOp::Neg,
                out: out as usize,
                arg: arg as usize,
            },
            RegOp::AbsReg(out, arg) => Instr::Unary {
                unary: UnaryOp::Abs,
                out: out as usize,
                arg: arg as usize,
            },
            RegOp::RecipReg(out, arg) => Instr::Unary {
                unary: UnaryOp::Recip,
                out: out as usize,
                arg: arg as usize,
            },
            RegOp::SqrtReg(out, arg) => Instr::Unary {
                unary: UnaryOp::Sqrt,
                out: out as usize,
                arg: arg as usize,
            },
            RegOp::SquareReg(out, arg) => Instr::Unary {
                unary: UnaryOp::Square,
                out: out as usize,
                arg: arg as usize,
            },
            RegOp::FloorReg(out, arg) => Instr::Unary {
                unary: UnaryOp::Floor,
                out: out as usize,
                arg: arg as usize,
            },
            RegOp::CeilReg(out, arg) => Instr::Unary {
                unary: UnaryOp::Ceil,
                out: out as usize,
                arg: arg as usize,
            },
            RegOp::RoundReg(out, arg) => Instr::Unary {
                unary: UnaryOp::Round,
                out: out as usize,
                arg: arg as usize,
            },
            RegOp::SinReg(out, arg) => Instr::Unary {
                unary: UnaryOp::Sin,
                out: out as usize,
                arg: arg as usize,
            },
            RegOp::CosReg(out, arg) => Instr::Unary {
                unary: UnaryOp::Cos,
                out: out as usize,
                arg: arg as usize,
            },
            RegOp::TanReg(out, arg) => Instr::Unary {
                unary: UnaryOp::Tan,
                out: out as usize,
                arg: arg as usize,
            },
            RegOp::AsinReg(out, arg) => Instr::Unary {
                unary: UnaryOp::Asin,
                out: out as usize,
                arg: arg as usize,
            },
            RegOp::AcosReg(out, arg) => Instr::Unary {
                unary: UnaryOp::Acos,
                out: out as usize,
                arg: arg as usize,
            },
            RegOp::AtanReg(out, arg) => Instr::Unary {
                unary: UnaryOp::Atan,
                out: out as usize,
                arg: arg as usize,
            },
            RegOp::ExpReg(out, arg) => Instr::Unary {
                unary: UnaryOp::Exp,
                out: out as usize,
                arg: arg as usize,
            },
            RegOp::LnReg(out, arg) => Instr::Unary {
                unary: UnaryOp::Ln,
                out: out as usize,
                arg: arg as usize,
            },
            RegOp::NotReg(out, arg) => Instr::Unary {
                unary: UnaryOp::Not,
                out: out as usize,
                arg: arg as usize,
            },
            RegOp::CopyReg(out, arg) => Instr::Unary {
                unary: UnaryOp::Copy,
                out: out as usize,
                arg: arg as usize,
            },
            RegOp::ShellDistance(out, shell, x, y, z) => Instr::Shell {
                out: out as usize,
                shell: shell as usize,
                x: x as usize,
                y: y as usize,
                z: z as usize,
            },
            RegOp::AddRegImm(out, arg, imm) => Instr::RegImm {
                op: BinaryOp::Add,
                out: out as usize,
                arg: arg as usize,
                imm,
            },
            RegOp::AddRegReg(out, lhs, rhs) => Instr::RegReg {
                op: BinaryOp::Add,
                out: out as usize,
                lhs: lhs as usize,
                rhs: rhs as usize,
            },
            RegOp::SubRegImm(out, arg, imm) => Instr::RegImm {
                op: BinaryOp::Sub,
                out: out as usize,
                arg: arg as usize,
                imm,
            },
            RegOp::SubImmReg(out, arg, imm) => Instr::ImmReg {
                op: BinaryOp::Sub,
                out: out as usize,
                arg: arg as usize,
                imm,
            },
            RegOp::SubRegReg(out, lhs, rhs) => Instr::RegReg {
                op: BinaryOp::Sub,
                out: out as usize,
                lhs: lhs as usize,
                rhs: rhs as usize,
            },
            RegOp::MulRegImm(out, arg, imm) => Instr::RegImm {
                op: BinaryOp::Mul,
                out: out as usize,
                arg: arg as usize,
                imm,
            },
            RegOp::MulRegReg(out, lhs, rhs) => Instr::RegReg {
                op: BinaryOp::Mul,
                out: out as usize,
                lhs: lhs as usize,
                rhs: rhs as usize,
            },
            RegOp::DivRegImm(out, arg, imm) => Instr::RegImm {
                op: BinaryOp::Div,
                out: out as usize,
                arg: arg as usize,
                imm,
            },
            RegOp::DivImmReg(out, arg, imm) => Instr::ImmReg {
                op: BinaryOp::Div,
                out: out as usize,
                arg: arg as usize,
                imm,
            },
            RegOp::DivRegReg(out, lhs, rhs) => Instr::RegReg {
                op: BinaryOp::Div,
                out: out as usize,
                lhs: lhs as usize,
                rhs: rhs as usize,
            },
            RegOp::AtanRegImm(out, arg, imm) => Instr::RegImm {
                op: BinaryOp::Atan,
                out: out as usize,
                arg: arg as usize,
                imm,
            },
            RegOp::AtanImmReg(out, arg, imm) => Instr::ImmReg {
                op: BinaryOp::Atan,
                out: out as usize,
                arg: arg as usize,
                imm,
            },
            RegOp::AtanRegReg(out, lhs, rhs) => Instr::RegReg {
                op: BinaryOp::Atan,
                out: out as usize,
                lhs: lhs as usize,
                rhs: rhs as usize,
            },
            RegOp::ModRegImm(out, arg, imm) => Instr::RegImm {
                op: BinaryOp::Mod,
                out: out as usize,
                arg: arg as usize,
                imm,
            },
            RegOp::ModImmReg(out, arg, imm) => Instr::ImmReg {
                op: BinaryOp::Mod,
                out: out as usize,
                arg: arg as usize,
                imm,
            },
            RegOp::ModRegReg(out, lhs, rhs) => Instr::RegReg {
                op: BinaryOp::Mod,
                out: out as usize,
                lhs: lhs as usize,
                rhs: rhs as usize,
            },
            RegOp::CompareRegImm(out, arg, imm) => Instr::RegImm {
                op: BinaryOp::Compare,
                out: out as usize,
                arg: arg as usize,
                imm,
            },
            RegOp::CompareImmReg(out, arg, imm) => Instr::ImmReg {
                op: BinaryOp::Compare,
                out: out as usize,
                arg: arg as usize,
                imm,
            },
            RegOp::CompareRegReg(out, lhs, rhs) => Instr::RegReg {
                op: BinaryOp::Compare,
                out: out as usize,
                lhs: lhs as usize,
                rhs: rhs as usize,
            },
            RegOp::MinRegImm(out, arg, imm) => Instr::RegImm {
                op: BinaryOp::Min,
                out: out as usize,
                arg: arg as usize,
                imm,
            },
            RegOp::MinRegReg(out, lhs, rhs) => Instr::RegReg {
                op: BinaryOp::Min,
                out: out as usize,
                lhs: lhs as usize,
                rhs: rhs as usize,
            },
            RegOp::MaxRegImm(out, arg, imm) => Instr::RegImm {
                op: BinaryOp::Max,
                out: out as usize,
                arg: arg as usize,
                imm,
            },
            RegOp::MaxRegReg(out, lhs, rhs) => Instr::RegReg {
                op: BinaryOp::Max,
                out: out as usize,
                lhs: lhs as usize,
                rhs: rhs as usize,
            },
            RegOp::AndRegImm(out, arg, imm) => Instr::RegImm {
                op: BinaryOp::And,
                out: out as usize,
                arg: arg as usize,
                imm,
            },
            RegOp::AndRegReg(out, lhs, rhs) => Instr::RegReg {
                op: BinaryOp::And,
                out: out as usize,
                lhs: lhs as usize,
                rhs: rhs as usize,
            },
            RegOp::OrRegImm(out, arg, imm) => Instr::RegImm {
                op: BinaryOp::Or,
                out: out as usize,
                arg: arg as usize,
                imm,
            },
            RegOp::OrRegReg(out, lhs, rhs) => Instr::RegReg {
                op: BinaryOp::Or,
                out: out as usize,
                lhs: lhs as usize,
                rhs: rhs as usize,
            },
            RegOp::CopyImm(out, imm) => Instr::Imm { out: out as usize, imm },
            RegOp::Load(out, mem) => Instr::Move { out: out as usize, arg: mem as usize },
            RegOp::Store(out, mem) => Instr::Move { out: mem as usize, arg: out as usize },
        }
    }
}

impl Instr {
    pub open spec fn spec_chooses(self) -> bool {
        match self {
            Instr::RegReg { op, .. } => op.chooses(),
            Instr::RegImm { op, .. } => op.chooses(),
            Instr::ImmReg { op, .. } => op.chooses(),
            _ => false,
        }
    }

    /// Whether the operation records a choice.
    #[verifier::when_used_as_spec(spec_chooses)]
    pub fn chooses(self) -> (r: bool)
        ensures
            r == self.chooses(),
    {
        match self {
            Instr::RegReg { op, .. } => op.chooses(),
            Instr::RegImm { op, .. } => op.chooses(),
            Instr::ImmReg { op, .. } => op.chooses(),
            _ => false,
        }
    }

    pub open spec fn spec_fits(
        self,
        slots: usize,
        inputs: usize,
        outputs: usize,
        shells: usize,
    ) -> bool {
        match self {
            Instr::Output { arg, index } => arg < slots && index < outputs,
            Instr::Input { out, index } => out < slots && index < inputs,
            Instr::Unary { unary: _, out, arg } => out < slots && arg < slots,
            Instr::RegReg { op: _, out, lhs, rhs } => out < slots && lhs < slots && rhs < slots,
            Instr::RegImm { op: _, out, arg, imm: _ } => out < slots && arg < slots,
            Instr::ImmReg { op: _, out, arg, imm: _ } => out < slots && arg < slots,
            Instr::Shell { out, shell, x, y, z } => out < slots && shell < shells && x < slots && y
                < slots && z < slots,
            Instr::Imm { out, imm: _ } => out < slots,
            Instr::Move { out, arg } => out < slots && arg < slots,
        }
    }

    /// Whether the operation stays within the given numbers of slots, inputs,
    /// outputs and shells.
    #[verifier::when_used_as_spec(spec_fits)]
    pub fn fits(self, slots: usize, inputs: usize, outputs: usize, shells: usize) -> (r: bool)
        ensures
            r == self.fits(slots, inputs, outputs, shells),
    {
        match self {
            Instr::Output { arg, index } => arg < slots && index < outputs,
            Instr::Input { out, index } => out < slots && index < inputs,
            Instr::Unary { unary: _, out, arg } => out < slots && arg < slots,
            Instr::RegReg { op: _, out, lhs, rhs } => out < slots && lhs < slots && rhs < slots,
            Instr::RegImm { op: _, out, arg, imm: _ } => out < slots && arg < slots,
            Instr::ImmReg { op: _, out, arg, imm: _ } => out < slots && arg < slots,
            Instr::Shell { out, shell, x, y, z } => out < slots && shell < shells && x < slots && y
                < slots && z < slots,
            Instr::Imm { out, imm: _ } => out < slots,
            Instr::Move { out, arg } => out < slots && arg < slots,
        }
    }
}

} // verus!
