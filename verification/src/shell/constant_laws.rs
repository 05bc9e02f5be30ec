//! What the numbers of the shell kernels are.
use crate::decimal::is_single;
use crate::decimal::lemma_powers;
use crate::decimal::lemma_single;
use crate::shell::constants::BOW_CAP_BITS;
use crate::shell::constants::CAP_INSET_SCALE_BITS;
use crate::shell::constants::CIRCLE_FLOOR_BITS;
use crate::shell::constants::CIRCLE_SCALE_BITS;
use crate::shell::constants::CURVE_EPSILON_BITS;
use crate::shell::constants::DIFFERENCE_SLACK_BITS;
use crate::shell::constants::EDGE_BULGE_BITS;
use crate::shell::constants::EDGE_SLACK_BITS;
use crate::shell::constants::EIGHTH_BITS;
use crate::shell::constants::FIVE_BITS;
use crate::shell::constants::FIVE_EIGHTHS_BITS;
use crate::shell::constants::FOUR_BITS;
use crate::shell::constants::HALF_BITS;
use crate::shell::constants::HEIGHT_FLOOR_BITS;
use crate::shell::constants::INSET_HEIGHT_SCALE_BITS;
use crate::shell::constants::INSET_WIDTH_SCALE_BITS;
use crate::shell::constants::INTERVAL_PADDING_BITS;
use crate::shell::constants::INTERVAL_WIDTH_SCALE_BITS;
use crate::shell::constants::LENGTH_SQ_EPSILON_BITS;
use crate::shell::constants::MINUS_FOUR_BITS;
use crate::shell::constants::MINUS_SIX_BITS;
use crate::shell::constants::MINUS_TWELVE_BITS;
use crate::shell::constants::MINUS_TWO_BITS;
use crate::shell::constants::QUARTER_BITS;
use crate::shell::constants::RADIUS_FLOOR_BITS;
use crate::shell::constants::SEVEN_EIGHTHS_BITS;
use crate::shell::constants::SHIP_HEIGHT_1_BITS;
use crate::shell::constants::SHIP_HEIGHT_2_BITS;
use crate::shell::constants::SHIP_HEIGHT_3_BITS;
use crate::shell::constants::SHIP_HEIGHT_4_BITS;
use crate::shell::constants::SHIP_HEIGHT_5_BITS;
use crate::shell::constants::SHIP_WIDTH_1_BITS;
use crate::shell::constants::SHIP_WIDTH_2_BITS;
use crate::shell::constants::SHIP_WIDTH_3_BITS;
use crate::shell::constants::SHIP_WIDTH_4_BITS;
use crate::shell::constants::SHIP_WIDTH_5_BITS;
use crate::shell::constants::SHIP_WIDTH_6_BITS;
use crate::shell::constants::SIX_BITS;
use crate::shell::constants::SPAN_EPSILON_BITS;
use crate::shell::constants::STERN_CAP_BITS;
use crate::shell::constants::THREE_BITS;
use crate::shell::constants::THREE_EIGHTHS_BITS;
use crate::shell::constants::THREE_QUARTERS_BITS;
use crate::shell::constants::TWELVE_BITS;
use crate::shell::constants::TWO_BITS;
use crate::shell::constants::WIDTH_FLOOR_BITS;
use vstd::prelude::*;

verus! {

proof fn lemma_shell_numbers_0()
    ensures
        is_single(HALF_BITS, 1, 2),
        is_single(TWO_BITS, 2, 1),
        is_single(THREE_BITS, 3, 1),
        is_single(FOUR_BITS, 4, 1),
        is_single(FIVE_BITS, 5, 1),
        is_single(SIX_BITS, 6, 1),
        is_single(TWELVE_BITS, 12, 1),
        is_single(QUARTER_BITS, 1, 4),
        is_single(THREE_QUARTERS_BITS, 3, 4),
        is_single(MINUS_TWO_BITS, -2, 1),
        is_single(MINUS_FOUR_BITS, -4, 1),
        is_single(MINUS_SIX_BITS, -6, 1),
{
    lemma_powers();
    lemma_single(HALF_BITS, 1, 2, 24, 0x1000000);
    lemma_single(TWO_BITS, 2, 1, 22, 0x400000);
    lemma_single(THREE_BITS, 3, 1, 22, 0x400000);
    lemma_single(FOUR_BITS, 4, 1, 21, 0x200000);
    lemma_single(FIVE_BITS, 5, 1, 21, 0x200000);
    lemma_single(SIX_BITS, 6, 1, 21, 0x200000);
    lemma_single(TWELVE_BITS, 12, 1, 20, 0x100000);
    lemma_single(QUARTER_BITS, 1, 4, 25, 0x2000000);
    lemma_single(THREE_QUARTERS_BITS, 3, 4, 24, 0x1000000);
    lemma_single(MINUS_TWO_BITS, -2, 1, 22, 0x400000);
    lemma_single(MINUS_FOUR_BITS, -4, 1, 21, 0x200000);
    lemma_single(MINUS_SIX_BITS, -6, 1, 21, 0x200000);
}

proof fn lemma_shell_numbers_1()
    ensures
        is_single(MINUS_TWELVE_BITS, -12, 1),
        is_single(RADIUS_FLOOR_BITS, 1, 100000),
        is_single(SPAN_EPSILON_BITS, 1, 1000000),
        is_single(CURVE_EPSILON_BITS, 1, 100000000),
        is_single(LENGTH_SQ_EPSILON_BITS, 1, 1000000000000),
        is_single(WIDTH_FLOOR_BITS, 3, 250),
        is_single(HEIGHT_FLOOR_BITS, 3, 50),
        is_single(CIRCLE_FLOOR_BITS, 7, 200),
        is_single(CIRCLE_SCALE_BITS, 27, 20),
        is_single(INSET_WIDTH_SCALE_BITS, 24, 25),
        is_single(INSET_HEIGHT_SCALE_BITS, 23, 25),
        is_single(BOW_CAP_BITS, 3, 100),
{
    lemma_powers();
    lemma_single(MINUS_TWELVE_BITS, -12, 1, 20, 0x100000);
    lemma_single(RADIUS_FLOOR_BITS, 1, 100000, 40, 0x10000000000);
    lemma_single(SPAN_EPSILON_BITS, 1, 1000000, 43, 0x80000000000);
    lemma_single(CURVE_EPSILON_BITS, 1, 100000000, 50, 0x4000000000000);
    lemma_single(LENGTH_SQ_EPSILON_BITS, 1, 1000000000000, 63, 0x8000000000000000);
    lemma_single(WIDTH_FLOOR_BITS, 3, 250, 30, 0x40000000);
    lemma_single(HEIGHT_FLOOR_BITS, 3, 50, 28, 0x10000000);
    lemma_single(CIRCLE_FLOOR_BITS, 7, 200, 28, 0x10000000);
    lemma_single(CIRCLE_SCALE_BITS, 27, 20, 23, 0x800000);
    lemma_single(INSET_WIDTH_SCALE_BITS, 24, 25, 24, 0x1000000);
    lemma_single(INSET_HEIGHT_SCALE_BITS, 23, 25, 24, 0x1000000);
    lemma_single(BOW_CAP_BITS, 3, 100, 29, 0x20000000);
}

proof fn lemma_shell_numbers_2()
    ensures
        is_single(STERN_CAP_BITS, 1, 20),
        is_single(CAP_INSET_SCALE_BITS, 1, 5),
        is_single(SHIP_WIDTH_1_BITS, 21, 200),
        is_single(SHIP_HEIGHT_1_BITS, 7, 100),
        is_single(SHIP_WIDTH_2_BITS, 57, 200),
        is_single(SHIP_HEIGHT_2_BITS, 37, 200),
        is_single(SHIP_WIDTH_3_BITS, 117, 200),
        is_single(SHIP_HEIGHT_3_BITS, 39, 100),
        is_single(SHIP_WIDTH_4_BITS, 93, 100),
        is_single(SHIP_HEIGHT_4_BITS, 123, 200),
        is_single(SHIP_WIDTH_5_BITS, 27, 25),
        is_single(SHIP_HEIGHT_5_BITS, 161, 200),
{
    lemma_powers();
    lemma_single(STERN_CAP_BITS, 1, 20, 28, 0x10000000);
    lemma_single(CAP_INSET_SCALE_BITS, 1, 5, 26, 0x4000000);
    lemma_single(SHIP_WIDTH_1_BITS, 21, 200, 27, 0x8000000);
    lemma_single(SHIP_HEIGHT_1_BITS, 7, 100, 27, 0x8000000);
    lemma_single(SHIP_WIDTH_2_BITS, 57, 200, 25, 0x2000000);
    lemma_single(SHIP_HEIGHT_2_BITS, 37, 200, 26, 0x4000000);
    lemma_single(SHIP_WIDTH_3_BITS, 117, 200, 24, 0x1000000);
    lemma_single(SHIP_HEIGHT_3_BITS, 39, 100, 25, 0x2000000);
    lemma_single(SHIP_WIDTH_4_BITS, 93, 100, 24, 0x1000000);
    lemma_single(SHIP_HEIGHT_4_BITS, 123, 200, 24, 0x1000000);
    lemma_single(SHIP_WIDTH_5_BITS, 27, 25, 23, 0x800000);
    lemma_single(SHIP_HEIGHT_5_BITS, 161, 200, 24, 0x1000000);
}

proof fn lemma_shell_numbers_3()
    ensures
        is_single(SHIP_WIDTH_6_BITS, 97, 100),
        is_single(INTERVAL_PADDING_BITS, 1, 10000),
        is_single(INTERVAL_WIDTH_SCALE_BITS, 51, 50),
        is_single(EIGHTH_BITS, 1, 8),
        is_single(THREE_EIGHTHS_BITS, 3, 8),
        is_single(FIVE_EIGHTHS_BITS, 5, 8),
        is_single(SEVEN_EIGHTHS_BITS, 7, 8),
        is_single(EDGE_BULGE_BITS, 149, 1000),
        is_single(EDGE_SLACK_BITS, 100001, 100000),
        is_single(DIFFERENCE_SLACK_BITS, 1, 250000),
{
    lemma_powers();
    lemma_single(SHIP_WIDTH_6_BITS, 97, 100, 24, 0x1000000);
    lemma_single(INTERVAL_PADDING_BITS, 1, 10000, 37, 0x2000000000);
    lemma_single(INTERVAL_WIDTH_SCALE_BITS, 51, 50, 23, 0x800000);
    lemma_single(EIGHTH_BITS, 1, 8, 26, 0x4000000);
    lemma_single(THREE_EIGHTHS_BITS, 3, 8, 25, 0x2000000);
    lemma_single(FIVE_EIGHTHS_BITS, 5, 8, 24, 0x1000000);
    lemma_single(SEVEN_EIGHTHS_BITS, 7, 8, 24, 0x1000000);
    lemma_single(EDGE_BULGE_BITS, 149, 1000, 26, 0x4000000);
    lemma_single(EDGE_SLACK_BITS, 100001, 100000, 23, 0x800000);
    lemma_single(DIFFERENCE_SLACK_BITS, 1, 250000, 41, 0x20000000000);
}

/// The numbers of the shell kernels are the nearest ones to these fractions.
pub proof fn lemma_shell_numbers()
    ensures
        is_single(HALF_BITS, 1, 2),
        is_single(TWO_BITS, 2, 1),
        is_single(THREE_BITS, 3, 1),
        is_single(FOUR_BITS, 4, 1),
        is_single(FIVE_BITS, 5, 1),
        is_single(SIX_BITS, 6, 1),
        is_single(TWELVE_BITS, 12, 1),
        is_single(QUARTER_BITS, 1, 4),
        is_single(THREE_QUARTERS_BITS, 3, 4),
        is_single(MINUS_TWO_BITS, -2, 1),
        is_single(MINUS_FOUR_BITS, -4, 1),
        is_single(MINUS_SIX_BITS, -6, 1),
        is_single(MINUS_TWELVE_BITS, -12, 1),
        is_single(RADIUS_FLOOR_BITS, 1, 100000),
        is_single(SPAN_EPSILON_BITS, 1, 1000000),
        is_single(CURVE_EPSILON_BITS, 1, 100000000),
        is_single(LENGTH_SQ_EPSILON_BITS, 1, 1000000000000),
        is_single(WIDTH_FLOOR_BITS, 3, 250),
        is_single(HEIGHT_FLOOR_BITS, 3, 50),
        is_single(CIRCLE_FLOOR_BITS, 7, 200),
        is_single(CIRCLE_SCALE_BITS, 27, 20),
        is_single(INSET_WIDTH_SCALE_BITS, 24, 25),
        is_single(INSET_HEIGHT_SCALE_BITS, 23, 25),
        is_single(BOW_CAP_BITS, 3, 100),
        is_single(STERN_CAP_BITS, 1, 20),
        is_single(CAP_INSET_SCALE_BITS, 1, 5),
        is_single(SHIP_WIDTH_1_BITS, 21, 200),
        is_single(SHIP_HEIGHT_1_BITS, 7, 100),
        is_single(SHIP_WIDTH_2_BITS, 57, 200),
        is_single(SHIP_HEIGHT_2_BITS, 37, 200),
        is_single(SHIP_WIDTH_3_BITS, 117, 200),
        is_single(SHIP_HEIGHT_3_BITS, 39, 100),
        is_single(SHIP_WIDTH_4_BITS, 93, 100),
        is_single(SHIP_HEIGHT_4_BITS, 123, 200),
        is_single(SHIP_WIDTH_5_BITS, 27, 25),
        is_single(SHIP_HEIGHT_5_BITS, 161, 200),
        is_single(SHIP_WIDTH_6_BITS, 97, 100),
        is_single(INTERVAL_PADDING_BITS, 1, 10000),
        is_single(INTERVAL_WIDTH_SCALE_BITS, 51, 50),
        is_single(EIGHTH_BITS, 1, 8),
        is_single(THREE_EIGHTHS_BITS, 3, 8),
        is_single(FIVE_EIGHTHS_BITS, 5, 8),
        is_single(SEVEN_EIGHTHS_BITS, 7, 8),
        is_single(EDGE_BULGE_BITS, 149, 1000),
        is_single(EDGE_SLACK_BITS, 100001, 100000),
        is_single(DIFFERENCE_SLACK_BITS, 1, 250000),
{
    lemma_shell_numbers_0();
    lemma_shell_numbers_1();
    lemma_shell_numbers_2();
    lemma_shell_numbers_3();
}

} // verus!
