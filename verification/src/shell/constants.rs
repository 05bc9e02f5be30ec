//! Bit patterns of the numeric constants that the shell kernels use.
use vstd::prelude::*;

verus! {

/// `0.5`
pub const HALF_BITS: u32 = 0x3f00_0000;

/// `2.0`
pub const TWO_BITS: u32 = 0x4000_0000;

/// `3.0`
pub const THREE_BITS: u32 = 0x4040_0000;

/// `4.0`
pub const FOUR_BITS: u32 = 0x4080_0000;

/// `5.0`
pub const FIVE_BITS: u32 = 0x40a0_0000;

/// `6.0`
pub const SIX_BITS: u32 = 0x40c0_0000;

/// `12.0`
pub const TWELVE_BITS: u32 = 0x4140_0000;

/// `0.25`
pub const QUARTER_BITS: u32 = 0x3e80_0000;

/// `0.75`
pub const THREE_QUARTERS_BITS: u32 = 0x3f40_0000;

/// `-2.0`
pub const MINUS_TWO_BITS: u32 = 0xc000_0000;

/// `-4.0`
pub const MINUS_FOUR_BITS: u32 = 0xc080_0000;

/// `-6.0`
pub const MINUS_SIX_BITS: u32 = 0xc0c0_0000;

/// `-12.0`
pub const MINUS_TWELVE_BITS: u32 = 0xc140_0000;

/// `1.0e-5`, the smallest radius of a circular section
pub const RADIUS_FLOOR_BITS: u32 = 0x3727_c5ac;

/// `1.0e-6`, below which a span, a width or a coefficient counts as zero
pub const SPAN_EPSILON_BITS: u32 = 0x3586_37bd;

/// `1.0e-8`, below which a profile edge or a Newton step counts as flat
pub const CURVE_EPSILON_BITS: u32 = 0x322b_cc77;

/// `1.0e-12`, below which a squared edge length counts as zero
pub const LENGTH_SQ_EPSILON_BITS: u32 = 0x2b8c_bccc;

/// `0.012`, the smallest half width of a profile section
pub const WIDTH_FLOOR_BITS: u32 = 0x3c44_9ba6;

/// `0.060`, the smallest height of a ship section
pub const HEIGHT_FLOOR_BITS: u32 = 0x3d75_c28f;

/// `0.035`, the smallest radius of a circle around a profile section
pub const CIRCLE_FLOOR_BITS: u32 = 0x3d0f_5c29;

/// `1.35`, how far a circle or a bound reaches past the beam of a profile section
pub const CIRCLE_SCALE_BITS: u32 = 0x3fac_cccd;

/// `0.96`, how much of an inset is taken off the half width
pub const INSET_WIDTH_SCALE_BITS: u32 = 0x3f75_c28f;

/// `0.92`, how much of an inset is taken off the keel and the sheer
pub const INSET_HEIGHT_SCALE_BITS: u32 = 0x3f6b_851f;

/// `0.03`, how far the bow cap reaches before the first station
pub const BOW_CAP_BITS: u32 = 0x3cf5_c28f;

/// `0.05`, how far the stern cap reaches after the last station
pub const STERN_CAP_BITS: u32 = 0x3d4c_cccd;

/// `0.20`, how much of an inset is taken off the caps
pub const CAP_INSET_SCALE_BITS: u32 = 0x3e4c_cccd;

/// `0.105`, half width of the second ship node as a share of the beam
pub const SHIP_WIDTH_1_BITS: u32 = 0x3dd7_0a3d;

/// `0.070`, height of the second ship node as a share of the section
pub const SHIP_HEIGHT_1_BITS: u32 = 0x3d8f_5c29;

/// `0.285`
pub const SHIP_WIDTH_2_BITS: u32 = 0x3e91_eb85;

/// `0.185`
pub const SHIP_HEIGHT_2_BITS: u32 = 0x3e3d_70a4;

/// `0.585`
pub const SHIP_WIDTH_3_BITS: u32 = 0x3f15_c28f;

/// `0.390`
pub const SHIP_HEIGHT_3_BITS: u32 = 0x3ec7_ae14;

/// `0.930`
pub const SHIP_WIDTH_4_BITS: u32 = 0x3f6e_147b;

/// `0.615`
pub const SHIP_HEIGHT_4_BITS: u32 = 0x3f1d_70a4;

/// `1.080`
pub const SHIP_WIDTH_5_BITS: u32 = 0x3f8a_3d71;

/// `0.805`
pub const SHIP_HEIGHT_5_BITS: u32 = 0x3f4e_147b;

/// `0.970`, half width of the last ship node as a share of the beam
pub const SHIP_WIDTH_6_BITS: u32 = 0x3f78_51ec;

/// `1.0e-4`, slack around the boxes that interval rejection tests
pub const INTERVAL_PADDING_BITS: u32 = 0x38d1_b717;

/// `1.02`, how far interval rejection widens the beam
pub const INTERVAL_WIDTH_SCALE_BITS: u32 = 0x3f82_8f5c;

/// `0.125`
pub const EIGHTH_BITS: u32 = 0x3e00_0000;

/// `0.375`
pub const THREE_EIGHTHS_BITS: u32 = 0x3ec0_0000;

/// `0.625`
pub const FIVE_EIGHTHS_BITS: u32 = 0x3f20_0000;

/// `0.875`
pub const SEVEN_EIGHTHS_BITS: u32 = 0x3f60_0000;

/// `0.149`, the share of an end slope by which a smooth edge may bulge
pub const EDGE_BULGE_BITS: u32 = 0x3e18_9375;

/// `1.00001`, slack around smooth edges
pub const EDGE_SLACK_BITS: u32 = 0x3f80_0054;

/// `4.0e-6`, slack around differences of curves as a share of their size
pub const DIFFERENCE_SLACK_BITS: u32 = 0x3686_37bd;

/// `1.0e18`, the greatest size of curves whose differences are looked at
pub const DIFFERENCE_LIMIT_BITS: u32 = 0x5d5e_0b6b;

} // verus!
