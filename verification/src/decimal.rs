//! Decimal fractions as binary numbers.
use vstd::arithmetic::power2::lemma2_to64;
use vstd::arithmetic::power2::lemma2_to64_rest;
use vstd::arithmetic::power2::pow2;
use vstd::prelude::*;

verus! {

/// The binary32 number with these bits is the nearest one to a fraction: it has a
/// mantissa of 24 bits, and no other one is closer.
#[verifier::opaque]
pub open spec fn is_single(bits: u32, numerator: int, denominator: int) -> bool {
    let exponent = ((bits / 0x80_0000) % 256) as int;
    let mantissa = 0x80_0000 + (bits % 0x80_0000) as int;
    let signed = if bits >= 0x8000_0000 {
        -mantissa
    } else {
        mantissa
    };
    let error = signed * denominator - numerator * pow2((150 - exponent) as nat);
    if exponent == 0 {
        bits == 0 && numerator == 0
    } else {
        exponent <= 150 && -denominator <= 2 * error <= denominator
    }
}

/// The binary64 number with these bits is the nearest one to a fraction: it has a
/// mantissa of 53 bits, and no other one is closer.
#[verifier::opaque]
pub open spec fn is_double(bits: u64, numerator: int, denominator: int) -> bool {
    let exponent = ((bits / 0x10_0000_0000_0000) % 2048) as int;
    let mantissa = 0x10_0000_0000_0000 + (bits % 0x10_0000_0000_0000) as int;
    let signed = if bits >= 0x8000_0000_0000_0000 {
        -mantissa
    } else {
        mantissa
    };
    let error = signed * denominator - numerator * pow2((1075 - exponent) as nat);
    if exponent == 0 {
        bits == 0 && numerator == 0
    } else {
        exponent <= 1075 && -denominator <= 2 * error <= denominator
    }
}

/// Whether a binary32 number is the nearest one to a fraction, by its parts.
pub proof fn lemma_single(bits: u32, numerator: int, denominator: int, shift: nat, power: int)
    requires
        pow2(shift) == power,
        (bits / 0x80_0000) % 256 == 150 - shift,
        shift < 150,
        shift <= 64,
        ({
            let mantissa = 0x80_0000 + (bits % 0x80_0000) as int;
            let signed = if bits >= 0x8000_0000 {
                -mantissa
            } else {
                mantissa
            };
            let error = signed * denominator - numerator * power;
            -denominator <= 2 * error <= denominator
        }),
    ensures
        is_single(bits, numerator, denominator),
{
    reveal(is_single);
}

/// Zero has no bits set.
pub proof fn lemma_zero(denominator: int)
    ensures
        is_single(0, 0, denominator),
        is_double(0, 0, denominator),
{
    reveal(is_single);
    reveal(is_double);
}

/// Whether a binary64 number is the nearest one to a fraction, by its parts.
pub proof fn lemma_double(bits: u64, numerator: int, denominator: int, shift: nat, power: int)
    requires
        pow2(shift) == power,
        (bits / 0x10_0000_0000_0000) % 2048 == 1075 - shift,
        shift <= 64,
        ({
            let mantissa = 0x10_0000_0000_0000 + (bits % 0x10_0000_0000_0000) as int;
            let signed = if bits >= 0x8000_0000_0000_0000 {
                -mantissa
            } else {
                mantissa
            };
            let error = signed * denominator - numerator * power;
            -denominator <= 2 * error <= denominator
        }),
    ensures
        is_double(bits, numerator, denominator),
{
    reveal(is_double);
}

/// The powers of two up to the sixty-fourth.
pub proof fn lemma_powers()
    ensures
        pow2(0) == 0x1,
        pow2(1) == 0x2,
        pow2(2) == 0x4,
        pow2(3) == 0x8,
        pow2(4) == 0x10,
        pow2(5) == 0x20,
        pow2(6) == 0x40,
        pow2(7) == 0x80,
        pow2(8) == 0x100,
        pow2(9) == 0x200,
        pow2(10) == 0x400,
        pow2(11) == 0x800,
        pow2(12) == 0x1000,
        pow2(13) == 0x2000,
        pow2(14) == 0x4000,
        pow2(15) == 0x8000,
        pow2(16) == 0x10000,
        pow2(17) == 0x20000,
        pow2(18) == 0x40000,
        pow2(19) == 0x80000,
        pow2(20) == 0x100000,
        pow2(21) == 0x200000,
        pow2(22) == 0x400000,
        pow2(23) == 0x800000,
        pow2(24) == 0x1000000,
        pow2(25) == 0x2000000,
        pow2(26) == 0x4000000,
        pow2(27) == 0x8000000,
        pow2(28) == 0x10000000,
        pow2(29) == 0x20000000,
        pow2(30) == 0x40000000,
        pow2(31) == 0x80000000,
        pow2(32) == 0x100000000,
        pow2(33) == 0x200000000,
        pow2(34) == 0x400000000,
        pow2(35) == 0x800000000,
        pow2(36) == 0x1000000000,
        pow2(37) == 0x2000000000,
        pow2(38) == 0x4000000000,
        pow2(39) == 0x8000000000,
        pow2(40) == 0x10000000000,
        pow2(41) == 0x20000000000,
        pow2(42) == 0x40000000000,
        pow2(43) == 0x80000000000,
        pow2(44) == 0x100000000000,
        pow2(45) == 0x200000000000,
        pow2(46) == 0x400000000000,
        pow2(47) == 0x800000000000,
        pow2(48) == 0x1000000000000,
        pow2(49) == 0x2000000000000,
        pow2(50) == 0x4000000000000,
        pow2(51) == 0x8000000000000,
        pow2(52) == 0x10000000000000,
        pow2(53) == 0x20000000000000,
        pow2(54) == 0x40000000000000,
        pow2(55) == 0x80000000000000,
        pow2(56) == 0x100000000000000,
        pow2(57) == 0x200000000000000,
        pow2(58) == 0x400000000000000,
        pow2(59) == 0x800000000000000,
        pow2(60) == 0x1000000000000000,
        pow2(61) == 0x2000000000000000,
        pow2(62) == 0x4000000000000000,
        pow2(63) == 0x8000000000000000,
        pow2(64) == 0x10000000000000000,
{
    lemma2_to64();
    lemma2_to64_rest();
}

} // verus!
