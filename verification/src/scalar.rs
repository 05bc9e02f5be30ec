//! Binary32 values by their bit patterns.
use vstd::arithmetic::power2::lemma_pow2_unfold;
use vstd::arithmetic::power2::pow2;
use vstd::prelude::*;

verus! {

/// Bit pattern of `0.0`.
pub const ZERO_BITS: u32 = 0x0000_0000;

/// Bit pattern of `1.0`.
pub const ONE_BITS: u32 = 0x3f80_0000;

/// Bit pattern of `-1.0`.
pub const MINUS_ONE_BITS: u32 = 0xbf80_0000;

/// Bit pattern of `255.0`.
pub const BYTE_MAX_BITS: u32 = 0x437f_0000;

/// Bit pattern of positive infinity.
pub const INFINITY_BITS: u32 = 0x7f80_0000;

/// Bit pattern of negative infinity.
pub const NEG_INFINITY_BITS: u32 = 0xff80_0000;

/// Bit pattern of the quiet NaN that kernels return.
pub const NAN_BITS: u32 = 0x7fc0_0000;

/// Bit that carries the sign.
pub const SIGN_BIT: u32 = 0x8000_0000;

/// A binary32 value, held by its bit pattern.
///
/// `==` on this type compares bit patterns; [`Float32::same`] compares numbers.
#[derive(Clone, Copy, Debug, PartialEq, Eq, Structural)]
pub struct Float32 {
    pub bits: u32,
}

/// Magnitude of a finite value in units of the smallest positive value, from
/// its bit pattern without the sign.
pub open spec fn magnitude_units(magnitude: int) -> int {
    let exponent = magnitude / 0x80_0000;
    let fraction = magnitude % 0x80_0000;
    if exponent == 0 {
        fraction
    } else {
        (0x80_0000 + fraction) * pow2((exponent - 1) as nat)
    }
}

impl Float32 {
    /// The sign bit is set.
    pub open spec fn negative(self) -> bool {
        self.bits >= SIGN_BIT
    }

    /// The bit pattern without the sign bit.
    pub open spec fn magnitude(self) -> int {
        if self.negative() {
            self.bits - SIGN_BIT
        } else {
            self.bits as int
        }
    }

    /// An integer that orders numbers as the reals order them; both zeros have
    /// the same key.
    pub open spec fn key(self) -> int {
        if self.negative() {
            -self.magnitude()
        } else {
            self.magnitude()
        }
    }

    /// An integer that orders all bit patterns, NaNs and both zeros included.
    pub open spec fn total_key(self) -> int {
        if self.negative() {
            -self.magnitude() - 1
        } else {
            self.magnitude()
        }
    }

    /// The exact value of a finite number, in units of the smallest positive one.
    pub open spec fn units(self) -> int {
        if self.negative() {
            -magnitude_units(self.magnitude())
        } else {
            magnitude_units(self.magnitude())
        }
    }

    pub open spec fn spec_from_bits(bits: u32) -> Float32 {
        Float32 { bits }
    }

    /// Builds the value with the given bit pattern.
    #[verifier::when_used_as_spec(spec_from_bits)]
    pub fn from_bits(bits: u32) -> (r: Float32)
        ensures
            r == Float32::from_bits(bits),
    {
        Float32 { bits }
    }

    pub open spec fn spec_to_bits(self) -> u32 {
        self.bits
    }

    /// Returns the bit pattern.
    #[verifier::when_used_as_spec(spec_to_bits)]
    pub fn to_bits(self) -> (r: u32)
        ensures
            r == self.to_bits(),
    {
        self.bits
    }

    pub open spec fn spec_is_nan(self) -> bool {
        self.magnitude() > INFINITY_BITS
    }

    /// Returns true when the value is not a number.
    #[verifier::when_used_as_spec(spec_is_nan)]
    pub fn is_nan(self) -> (r: bool)
        ensures
            r == self.is_nan(),
    {
        self.abs().bits > INFINITY_BITS
    }

    pub open spec fn spec_is_finite(self) -> bool {
        self.magnitude() < INFINITY_BITS
    }

    /// Returns true when the value is neither infinite nor NaN.
    #[verifier::when_used_as_spec(spec_is_finite)]
    pub fn is_finite(self) -> (r: bool)
        ensures
            r == self.is_finite(),
    {
        self.abs().bits < INFINITY_BITS
    }

    pub open spec fn spec_abs(self) -> Float32 {
        if self.negative() {
            Float32 { bits: (self.bits - SIGN_BIT) as u32 }
        } else {
            self
        }
    }

    /// Clears the sign bit.
    #[verifier::when_used_as_spec(spec_abs)]
    pub fn abs(self) -> (r: Float32)
        ensures
            r == self.abs(),
            r.magnitude() == self.magnitude(),
            !r.negative(),
    {
        if self.bits >= SIGN_BIT {
            Float32 { bits: self.bits - SIGN_BIT }
        } else {
            self
        }
    }

    pub open spec fn spec_neg(self) -> Float32 {
        if self.negative() {
            Float32 { bits: (self.bits - SIGN_BIT) as u32 }
        } else {
            Float32 { bits: (self.bits + SIGN_BIT) as u32 }
        }
    }

    /// Flips the sign bit.
    #[verifier::when_used_as_spec(spec_neg)]
    pub fn neg(self) -> (r: Float32)
        ensures
            r == self.neg(),
            r.magnitude() == self.magnitude(),
            r.negative() == !self.negative(),
    {
        if self.bits >= SIGN_BIT {
            Float32 { bits: self.bits - SIGN_BIT }
        } else {
            Float32 { bits: self.bits + SIGN_BIT }
        }
    }

    pub open spec fn spec_lt(self, other: Float32) -> bool {
        !self.is_nan() && !other.is_nan() && self.key() < other.key()
    }

    /// Numeric `<`; false when either side is NaN.
    #[verifier::when_used_as_spec(spec_lt)]
    pub fn lt(self, other: Float32) -> (r: bool)
        ensures
            r == self.lt(other),
    {
        if self.is_nan() || other.is_nan() {
            return false;
        }
        let left: u32 = self.abs().bits;
        let right: u32 = other.abs().bits;
        if self.bits >= SIGN_BIT {
            if other.bits >= SIGN_BIT {
                right < left
            } else {
                left != 0 || right != 0
            }
        } else {
            other.bits < SIGN_BIT && left < right
        }
    }

    pub open spec fn spec_gt(self, other: Float32) -> bool {
        other.lt(self)
    }

    /// Numeric `>`; false when either side is NaN.
    #[verifier::when_used_as_spec(spec_gt)]
    pub fn gt(self, other: Float32) -> (r: bool)
        ensures
            r == self.gt(other),
    {
        other.lt(self)
    }

    pub open spec fn spec_le(self, other: Float32) -> bool {
        !self.is_nan() && !other.is_nan() && self.key() <= other.key()
    }

    /// Numeric `<=`; false when either side is NaN.
    #[verifier::when_used_as_spec(spec_le)]
    pub fn le(self, other: Float32) -> (r: bool)
        ensures
            r == self.le(other),
    {
        !self.is_nan() && !other.is_nan() && !other.lt(self)
    }

    pub open spec fn spec_ge(self, other: Float32) -> bool {
        other.le(self)
    }

    /// Numeric `>=`; false when either side is NaN.
    #[verifier::when_used_as_spec(spec_ge)]
    pub fn ge(self, other: Float32) -> (r: bool)
        ensures
            r == self.ge(other),
    {
        other.le(self)
    }

    pub open spec fn spec_same(self, other: Float32) -> bool {
        !self.is_nan() && !other.is_nan() && self.key() == other.key()
    }

    /// Numeric equality: both zeros are the same, a NaN is the same as nothing.
    #[verifier::when_used_as_spec(spec_same)]
    pub fn same(self, other: Float32) -> (r: bool)
        ensures
            r == self.same(other),
    {
        self.le(other) && other.le(self)
    }

    pub open spec fn spec_is_zero(self) -> bool {
        self.magnitude() == 0
    }

    /// Returns true for both zeros.
    #[verifier::when_used_as_spec(spec_is_zero)]
    pub fn is_zero(self) -> (r: bool)
        ensures
            r == self.is_zero(),
            r == self.same(Float32::from_bits(ZERO_BITS)),
    {
        self.abs().bits == 0
    }

    pub open spec fn spec_min(self, other: Float32) -> Float32 {
        if other.is_nan() || self.lt(other) {
            self
        } else {
            other
        }
    }

    /// The smaller number, the other operand where both are the same; a NaN gives
    /// way to the other operand.
    #[verifier::when_used_as_spec(spec_min)]
    pub fn min(self, other: Float32) -> (r: Float32)
        ensures
            r == self.min(other),
    {
        if other.is_nan() || self.lt(other) {
            self
        } else {
            other
        }
    }

    pub open spec fn spec_max(self, other: Float32) -> Float32 {
        if other.is_nan() || self.gt(other) {
            self
        } else {
            other
        }
    }

    /// The larger number, the other operand where both are the same; a NaN gives
    /// way to the other operand.
    #[verifier::when_used_as_spec(spec_max)]
    pub fn max(self, other: Float32) -> (r: Float32)
        ensures
            r == self.max(other),
    {
        if other.is_nan() || self.gt(other) {
            self
        } else {
            other
        }
    }

    pub open spec fn spec_unit_clamp(self) -> Float32 {
        if self.lt(Float32::from_bits(ZERO_BITS)) {
            Float32::from_bits(ZERO_BITS)
        } else if self.gt(Float32::from_bits(ONE_BITS)) {
            Float32::from_bits(ONE_BITS)
        } else {
            self
        }
    }

    /// Restricts a number to the range from zero to one; NaN stays NaN.
    #[verifier::when_used_as_spec(spec_unit_clamp)]
    pub fn unit_clamp(self) -> (r: Float32)
        ensures
            r == self.unit_clamp(),
    {
        if self.lt(Float32::from_bits(ZERO_BITS)) {
            Float32::from_bits(ZERO_BITS)
        } else if self.gt(Float32::from_bits(ONE_BITS)) {
            Float32::from_bits(ONE_BITS)
        } else {
            self
        }
    }

    pub open spec fn spec_signum(self) -> Float32 {
        if self.is_nan() {
            Float32::from_bits(NAN_BITS)
        } else if self.negative() {
            Float32::from_bits(MINUS_ONE_BITS)
        } else {
            Float32::from_bits(ONE_BITS)
        }
    }

    /// One with the sign of the value; NaN for NaN.
    #[verifier::when_used_as_spec(spec_signum)]
    pub fn signum(self) -> (r: Float32)
        ensures
            r == self.signum(),
    {
        if self.is_nan() {
            Float32::from_bits(NAN_BITS)
        } else if self.bits >= SIGN_BIT {
            Float32::from_bits(MINUS_ONE_BITS)
        } else {
            Float32::from_bits(ONE_BITS)
        }
    }

    pub open spec fn spec_total_lt(self, other: Float32) -> bool {
        self.total_key() < other.total_key()
    }

    /// The total order on bit patterns: every pair of distinct patterns is
    /// ordered.
    #[verifier::when_used_as_spec(spec_total_lt)]
    pub fn total_lt(self, other: Float32) -> (r: bool)
        ensures
            r == self.total_lt(other),
    {
        if self.bits >= SIGN_BIT {
            other.bits < SIGN_BIT || other.bits < self.bits
        } else {
            other.bits < SIGN_BIT && self.bits < other.bits
        }
    }
}

pub open spec fn spec_num(bits: u32) -> Float32 {
    Float32 { bits }
}

/// The number with the given bit pattern, for the named constants.
#[verifier::when_used_as_spec(spec_num)]
pub fn num(bits: u32) -> (r: Float32)
    ensures
        r == num(bits),
{
    Float32 { bits }
}

impl Float32 {
    /// The whole part of the number, brought into the range of a byte; NaN
    /// counts as zero.
    pub open spec fn byte(self) -> int {
        if self.is_nan() || self.negative() {
            0
        } else if !self.is_finite() || self.units() / pow2(149) as int > 255 {
            255
        } else {
            self.units() / pow2(149) as int
        }
    }

    /// Returns the whole part of the number, brought into the range of a byte.
    pub fn to_byte(self) -> (r: u8)
        ensures
            r == self.byte(),
    {
        if self.is_nan() || self.bits >= SIGN_BIT {
            return 0;
        }
        let exponent: u32 = self.bits / 0x80_0000;
        let mantissa: u32 = 0x80_0000 + self.bits % 0x80_0000;
        if exponent < 127 {
            proof {
                lemma_byte_small(self.bits as int);
            }
            0
        } else if exponent > 134 {
            proof {
                if self.is_finite() {
                    lemma_byte_large(self.bits as int);
                }
            }
            255
        } else {
            let shift: u32 = 150 - exponent;
            proof {
                lemma_byte_middle(self.bits as int);
                vstd::bits::lemma_u32_shr_is_div(mantissa, shift);
            }
            (mantissa >> shift) as u8
        }
    }
}

proof fn lemma_byte_small(magnitude: int)
    requires
        0 <= magnitude,
        magnitude / 0x80_0000 < 127,
    ensures
        0 <= magnitude_units(magnitude) < pow2(149),
        magnitude_units(magnitude) / pow2(149) as int == 0,
{
    let top: int = 127int * 0x80_0000;
    assert(magnitude < top);
    lemma_magnitude_units_increase(magnitude, top);
    lemma_magnitude_units_nonnegative(magnitude);
    assert(top / 0x80_0000 == 127 && top % 0x80_0000 == 0);
    lemma_unit_power(126);
    vstd::arithmetic::div_mod::lemma_basic_div(magnitude_units(magnitude), pow2(149) as int);
}

proof fn lemma_unit_power(e: nat)
    ensures
        0x80_0000 * pow2(e) == pow2(e + 23),
{
    vstd::arithmetic::power2::lemma2_to64();
    vstd::arithmetic::power2::lemma_pow2_adds(23, e);
}

proof fn lemma_byte_large(magnitude: int)
    requires
        134 < magnitude / 0x80_0000,
    ensures
        magnitude_units(magnitude) / pow2(149) as int > 255,
{
    let low: int = 135int * 0x80_0000;
    assert(low <= magnitude);
    if low < magnitude {
        lemma_magnitude_units_increase(low, magnitude);
    }
    assert(low / 0x80_0000 == 135 && low % 0x80_0000 == 0);
    lemma_unit_power(134);
    vstd::arithmetic::power2::lemma2_to64();
    vstd::arithmetic::power2::lemma_pow2_adds(149, 8);
    vstd::arithmetic::power2::lemma_pow2_pos(149);
    let one = pow2(149) as int;
    let units = magnitude_units(magnitude);
    assert(units >= 256 * one);
    vstd::arithmetic::div_mod::lemma_div_is_ordered(256 * one, units, one);
    vstd::arithmetic::div_mod::lemma_div_multiples_vanish(256, one);
    assert(256 * one == one * 256) by (nonlinear_arith);
}

proof fn lemma_byte_middle(magnitude: int)
    requires
        127 <= magnitude / 0x80_0000 <= 134,
    ensures
        ({
            let shift = (150 - magnitude / 0x80_0000) as nat;
            let mantissa = 0x80_0000 + magnitude % 0x80_0000;
            &&& magnitude_units(magnitude) / pow2(149) as int == mantissa / pow2(shift) as int
            &&& 0 <= mantissa / pow2(shift) as int <= 255
        }),
{
    let e = magnitude / 0x80_0000;
    let shift = (150 - e) as nat;
    let mantissa = 0x80_0000 + magnitude % 0x80_0000;
    let p = pow2((e - 1) as nat) as int;
    let q = pow2(shift) as int;
    vstd::arithmetic::power2::lemma_pow2_adds((e - 1) as nat, shift);
    vstd::arithmetic::power2::lemma_pow2_pos((e - 1) as nat);
    vstd::arithmetic::power2::lemma_pow2_pos(shift);
    let d = mantissa / q;
    let r = mantissa % q;
    vstd::arithmetic::div_mod::lemma_fundamental_div_mod(mantissa, q);
    vstd::arithmetic::div_mod::lemma_mod_bound(mantissa, q);
    assert(mantissa * p == d * (p * q) + r * p) by (nonlinear_arith)
        requires
            mantissa == q * d + r,
    ;
    assert(0 <= r * p < p * q) by (nonlinear_arith)
        requires
            0 <= r < q,
            0 < p,
    ;
    vstd::arithmetic::div_mod::lemma_fundamental_div_mod_converse(mantissa * p, p * q, d, r * p);
    vstd::arithmetic::power2::lemma2_to64();
    vstd::arithmetic::power2::lemma_pow2_adds(shift, 8);
    if shift > 16 {
        vstd::arithmetic::power2::lemma_pow2_strictly_increases(16, shift);
    }
    assert(q >= 0x1_0000);
    vstd::arithmetic::div_mod::lemma_div_pos_is_pos(mantissa, q);
    assert(d < 256) by (nonlinear_arith)
        requires
            mantissa == q * d + r,
            0 <= r,
            q >= 0x1_0000,
            mantissa < 0x100_0000,
    ;
}

/// Magnitudes of finite numbers order as the numbers do.
proof fn lemma_magnitude_units_step(a: int)
    requires
        0 <= a,
    ensures
        magnitude_units(a) < magnitude_units(a + 1),
{
    let unit: int = 0x80_0000;
    let e = a / unit;
    let f = a % unit;
    if f + 1 < unit {
        assert((a + 1) / unit == e && (a + 1) % unit == f + 1);
        if e > 0 {
            let p = pow2((e - 1) as nat) as int;
            vstd::arithmetic::power2::lemma_pow2_pos((e - 1) as nat);
            assert((unit + f) * p < (unit + f + 1) * p) by (nonlinear_arith)
                requires
                    p > 0,
            ;
        }
    } else {
        assert((a + 1) / unit == e + 1 && (a + 1) % unit == 0);
        vstd::arithmetic::power2::lemma_pow2_pos(e as nat);
        if e == 0 {
            vstd::arithmetic::power2::lemma2_to64();
            assert(pow2(0) == 1);
        } else {
            let p = pow2((e - 1) as nat) as int;
            vstd::arithmetic::power2::lemma_pow2_pos((e - 1) as nat);
            lemma_pow2_unfold(e as nat);
            assert(pow2(e as nat) == 2 * p);
            assert((unit + f) * p < unit * (2 * p)) by (nonlinear_arith)
                requires
                    p > 0,
                    f + 1 == unit,
            ;
        }
    }
}

proof fn lemma_magnitude_units_increase(a: int, b: int)
    requires
        0 <= a < b,
    ensures
        magnitude_units(a) < magnitude_units(b),
    decreases b - a,
{
    lemma_magnitude_units_step(b - 1);
    if a < b - 1 {
        lemma_magnitude_units_increase(a, b - 1);
    }
}

proof fn lemma_magnitude_units_nonnegative(a: int)
    requires
        0 <= a,
    ensures
        magnitude_units(a) >= 0,
        magnitude_units(a) == 0 <==> a == 0,
{
    assert(magnitude_units(0) == 0);
    if a > 0 {
        lemma_magnitude_units_increase(0, a);
    }
}

/// `lt`, `le` and `same` on finite values are `<`, `<=` and `==` on the numbers
/// that the bit patterns stand for.
pub proof fn lemma_order_is_numeric(a: Float32, b: Float32)
    requires
        a.is_finite(),
        b.is_finite(),
    ensures
        a.lt(b) <==> a.units() < b.units(),
        a.le(b) <==> a.units() <= b.units(),
        a.same(b) <==> a.units() == b.units(),
{
    let x = a.magnitude();
    let y = b.magnitude();
    lemma_magnitude_units_nonnegative(x);
    lemma_magnitude_units_nonnegative(y);
    if x < y {
        lemma_magnitude_units_increase(x, y);
    }
    if y < x {
        lemma_magnitude_units_increase(y, x);
    }
}

/// `min` and `max` of two numbers are bounds of both, and each is one of them.
pub proof fn lemma_min_max_bound(a: Float32, b: Float32)
    requires
        !a.is_nan(),
        !b.is_nan(),
    ensures
        a.min(b).le(a) && a.min(b).le(b),
        a.le(a.max(b)) && b.le(a.max(b)),
        a.min(b) == a || a.min(b) == b,
        a.max(b) == a || a.max(b) == b,
{
}

/// A NaN operand of `min` or `max` gives way to the other operand.
pub proof fn lemma_min_max_skip_nan(a: Float32, b: Float32)
    requires
        a.is_nan() || b.is_nan(),
    ensures
        !a.is_nan() ==> a.min(b) == a && a.max(b) == a,
        !b.is_nan() ==> a.min(b) == b && a.max(b) == b,
{
}

/// Exactly one of less, same and greater holds of two numbers.
pub proof fn lemma_order_is_total(a: Float32, b: Float32)
    requires
        !a.is_nan(),
        !b.is_nan(),
    ensures
        a.lt(b) || a.same(b) || a.gt(b),
        !(a.lt(b) && a.gt(b)),
        !(a.lt(b) && a.same(b)),
        !(a.same(b) && a.gt(b)),
{
}

/// The total order separates any two distinct bit patterns.
pub proof fn lemma_total_order_separates(a: Float32, b: Float32)
    ensures
        a == b <==> a.total_key() == b.total_key(),
{
}

/// The total order is strict, puts one of two distinct bit patterns first, and puts
/// numbers in their order.
pub proof fn lemma_total_order(a: Float32, b: Float32)
    ensures
        !a.total_lt(a),
        a != b ==> a.total_lt(b) != b.total_lt(a),
        a.lt(b) ==> a.total_lt(b),
        a.same(b) && a != b ==> (a.total_lt(b) <==> a.negative()),
{
}

/// A comparison read from the other side.
pub proof fn lemma_order_from_the_other_side(a: Float32, b: Float32)
    ensures
        a.gt(b) <==> b.lt(a),
        a.ge(b) <==> b.le(a),
        a.le(b) <==> a.lt(b) || a.same(b),
        a.is_nan() || b.is_nan() ==> !a.le(b) && !a.ge(b) && !a.same(b),
{
}

/// Taking the negative keeps the size and turns the sign; taking the size drops it.
pub proof fn lemma_sign_operations(a: Float32)
    ensures
        a.neg().units() == -a.units(),
        a.neg().neg() == a,
        a.neg().is_nan() == a.is_nan() && a.abs().is_nan() == a.is_nan(),
        !a.abs().negative(),
        a.abs().units() == if a.units() >= 0 {
            a.units()
        } else {
            -a.units()
        },
        a.is_nan() ==> a.signum().is_nan(),
        !a.is_nan() ==> a.signum().negative() == a.negative() && a.signum().abs()
            == Float32::from_bits(ONE_BITS),
{
    lemma_magnitude_units_nonnegative(a.magnitude());
}

/// A number is brought to the nearest one between zero and one.
pub proof fn lemma_unit_clamp(a: Float32)
    requires
        !a.is_nan(),
    ensures
        Float32::from_bits(ZERO_BITS).le(a.unit_clamp()),
        a.unit_clamp().le(Float32::from_bits(ONE_BITS)),
        Float32::from_bits(ZERO_BITS).le(a) && a.le(Float32::from_bits(ONE_BITS)) ==> a.unit_clamp()
            == a,
        a.unit_clamp().le(a) || a.unit_clamp() == Float32::from_bits(ZERO_BITS),
        a.le(a.unit_clamp()) || a.unit_clamp() == Float32::from_bits(ONE_BITS),
{
}

} // verus!
