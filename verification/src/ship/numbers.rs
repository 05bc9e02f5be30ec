//! Bit patterns of the numbers that the expression of the hull is made of.
use vstd::prelude::*;

verus! {

/// `0.0`
pub const ZERO_WIDE: u64 = 0x0000_0000_0000_0000;

/// `0.02`
pub const OFFSET_WIDE: u64 = 0x3f94_7ae1_47ae_147b;

/// `0.012`
pub const BEAM_FLOOR_WIDE: u64 = 0x3f88_9374_bc6a_7efa;

/// `0.045`
pub const KEEL_WIDTH_WIDE: u64 = 0x3fa7_0a3d_70a3_d70a;

/// `0.06`
pub const HEIGHT_FLOOR_WIDE: u64 = 0x3fae_b851_eb85_1eb8;

/// `0.12`
pub const BOW_PINCH_WIDE: u64 = 0x3fbe_b851_eb85_1eb8;

/// `0.18`
pub const STERN_SPAN_WIDE: u64 = 0x3fc7_0a3d_70a3_d70a;

/// `0.3`
pub const TUCK_WIDE: u64 = 0x3fd3_3333_3333_3333;

/// `0.5`
pub const HALF_WIDE: u64 = 0x3fe0_0000_0000_0000;

/// `0.62`
pub const TUCK_FLOOR_WIDE: u64 = 0x3fe3_d70a_3d70_a3d7;

/// `0.82`
pub const STERN_START_WIDE: u64 = 0x3fea_3d70_a3d7_0a3d;

/// `0.88`
pub const STERN_TAPER_WIDE: u64 = 0x3fec_28f5_c28f_5c29;

/// `0.92`
pub const INSET_HEIGHT_WIDE: u64 = 0x3fed_70a3_d70a_3d71;

/// `0.96`
pub const INSET_WIDTH_WIDE: u64 = 0x3fee_b851_eb85_1eb8;

/// `1.0`
pub const ONE_WIDE: u64 = 0x3ff0_0000_0000_0000;

/// `1.2`
pub const WIDTH_SCALE_WIDE: u64 = 0x3ff3_3333_3333_3333;

/// `2.0`
pub const TWO_WIDE: u64 = 0x4000_0000_0000_0000;

/// `3.0`
pub const THREE_WIDE: u64 = 0x4008_0000_0000_0000;

/// `4.0`
pub const FOUR_WIDE: u64 = 0x4010_0000_0000_0000;

/// `5.0`
pub const FIVE_WIDE: u64 = 0x4014_0000_0000_0000;

} // verus!
