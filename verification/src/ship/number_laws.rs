//! What the numbers of the built-in ship are.
use crate::decimal::is_double;
use crate::decimal::is_single;
use crate::decimal::lemma_double;
use crate::decimal::lemma_powers;
use crate::decimal::lemma_single;
use crate::decimal::lemma_zero;
use crate::ship::lines::HULL_X_MAX_BITS;
use crate::ship::lines::HULL_X_MIN_BITS;
use crate::ship::native::HEIGHT_SHARE_BITS;
use crate::ship::native::OPEN_CUT_BITS;
use crate::ship::native::OPEN_LENGTH_BITS;
use crate::ship::native::OPEN_OFFSET_BITS;
use crate::ship::native::OPEN_THICKNESS_BITS;
use crate::ship::native::OPEN_WIDTH_BITS;
use crate::ship::native::THICKNESS_FLOOR_BITS;
use crate::ship::native::THICK_BITS;
use crate::ship::native::THIN_BITS;
use crate::ship::numbers::BEAM_FLOOR_WIDE;
use crate::ship::numbers::BOW_PINCH_WIDE;
use crate::ship::numbers::FIVE_WIDE;
use crate::ship::numbers::FOUR_WIDE;
use crate::ship::numbers::HALF_WIDE;
use crate::ship::numbers::HEIGHT_FLOOR_WIDE;
use crate::ship::numbers::INSET_HEIGHT_WIDE;
use crate::ship::numbers::INSET_WIDTH_WIDE;
use crate::ship::numbers::KEEL_WIDTH_WIDE;
use crate::ship::numbers::OFFSET_WIDE;
use crate::ship::numbers::ONE_WIDE;
use crate::ship::numbers::STERN_SPAN_WIDE;
use crate::ship::numbers::STERN_START_WIDE;
use crate::ship::numbers::STERN_TAPER_WIDE;
use crate::ship::numbers::THREE_WIDE;
use crate::ship::numbers::TUCK_FLOOR_WIDE;
use crate::ship::numbers::TUCK_WIDE;
use crate::ship::numbers::TWO_WIDE;
use crate::ship::numbers::WIDTH_SCALE_WIDE;
use crate::ship::numbers::ZERO_WIDE;
use crate::ship::spline::SPLINE_BOW_CAP_BITS;
use crate::ship::spline::SPLINE_CAP_INSET_BITS;
use crate::ship::spline::SPLINE_STERN_CAP_BITS;
use crate::ship::lines::keel_profile;
use crate::ship::lines::sheer_profile;
use crate::ship::lines::half_breadth;
use crate::ship::lines::native_keel_profile;
use crate::ship::lines::native_sheer_profile;
use crate::ship::lines::native_half_breadth;
use crate::ship::lines::station_number;
use vstd::prelude::*;

verus! {

proof fn lemma_ship_numbers_0()
    ensures
        is_double(ZERO_WIDE, 0, 1),
        is_double(OFFSET_WIDE, 1, 50),
        is_double(BEAM_FLOOR_WIDE, 3, 250),
        is_double(KEEL_WIDTH_WIDE, 9, 200),
        is_double(HEIGHT_FLOOR_WIDE, 3, 50),
        is_double(BOW_PINCH_WIDE, 3, 25),
        is_double(STERN_SPAN_WIDE, 9, 50),
        is_double(TUCK_WIDE, 3, 10),
{
    lemma_powers();
    lemma_zero(1);
    lemma_double(OFFSET_WIDE, 1, 50, 58, 0x400000000000000);
    lemma_double(BEAM_FLOOR_WIDE, 3, 250, 59, 0x800000000000000);
    lemma_double(KEEL_WIDTH_WIDE, 9, 200, 57, 0x200000000000000);
    lemma_double(HEIGHT_FLOOR_WIDE, 3, 50, 57, 0x200000000000000);
    lemma_double(BOW_PINCH_WIDE, 3, 25, 56, 0x100000000000000);
    lemma_double(STERN_SPAN_WIDE, 9, 50, 55, 0x80000000000000);
    lemma_double(TUCK_WIDE, 3, 10, 54, 0x40000000000000);
}

proof fn lemma_ship_numbers_1()
    ensures
        is_double(HALF_WIDE, 1, 2),
        is_double(TUCK_FLOOR_WIDE, 31, 50),
        is_double(STERN_START_WIDE, 41, 50),
        is_double(STERN_TAPER_WIDE, 22, 25),
        is_double(INSET_HEIGHT_WIDE, 23, 25),
        is_double(INSET_WIDTH_WIDE, 24, 25),
        is_double(ONE_WIDE, 1, 1),
        is_double(WIDTH_SCALE_WIDE, 6, 5),
{
    lemma_powers();
    lemma_double(HALF_WIDE, 1, 2, 53, 0x20000000000000);
    lemma_double(TUCK_FLOOR_WIDE, 31, 50, 53, 0x20000000000000);
    lemma_double(STERN_START_WIDE, 41, 50, 53, 0x20000000000000);
    lemma_double(STERN_TAPER_WIDE, 22, 25, 53, 0x20000000000000);
    lemma_double(INSET_HEIGHT_WIDE, 23, 25, 53, 0x20000000000000);
    lemma_double(INSET_WIDTH_WIDE, 24, 25, 53, 0x20000000000000);
    lemma_double(ONE_WIDE, 1, 1, 52, 0x10000000000000);
    lemma_double(WIDTH_SCALE_WIDE, 6, 5, 52, 0x10000000000000);
}

proof fn lemma_ship_numbers_2()
    ensures
        is_double(TWO_WIDE, 2, 1),
        is_double(THREE_WIDE, 3, 1),
        is_double(FOUR_WIDE, 4, 1),
        is_double(FIVE_WIDE, 5, 1),
        is_single(HULL_X_MIN_BITS, -67, 50),
        is_single(HULL_X_MAX_BITS, 59, 50),
        is_single(SPLINE_BOW_CAP_BITS, 3, 100),
        is_single(SPLINE_STERN_CAP_BITS, 1, 20),
{
    lemma_powers();
    lemma_double(TWO_WIDE, 2, 1, 51, 0x8000000000000);
    lemma_double(THREE_WIDE, 3, 1, 51, 0x8000000000000);
    lemma_double(FOUR_WIDE, 4, 1, 50, 0x4000000000000);
    lemma_double(FIVE_WIDE, 5, 1, 50, 0x4000000000000);
    lemma_single(HULL_X_MIN_BITS, -67, 50, 23, 0x800000);
    lemma_single(HULL_X_MAX_BITS, 59, 50, 23, 0x800000);
    lemma_single(SPLINE_BOW_CAP_BITS, 3, 100, 29, 0x20000000);
    lemma_single(SPLINE_STERN_CAP_BITS, 1, 20, 28, 0x10000000);
}

proof fn lemma_ship_numbers_3()
    ensures
        is_single(SPLINE_CAP_INSET_BITS, 1, 5),
        is_single(THICKNESS_FLOOR_BITS, 1, 125),
        is_single(HEIGHT_SHARE_BITS, 7, 20),
        is_single(THIN_BITS, 11, 200),
        is_single(THICK_BITS, 23, 200),
        is_single(OPEN_THICKNESS_BITS, 7, 100),
        is_single(OPEN_CUT_BITS, 3, 200),
        is_single(OPEN_LENGTH_BITS, 21, 25),
{
    lemma_powers();
    lemma_single(SPLINE_CAP_INSET_BITS, 1, 5, 26, 0x4000000);
    lemma_single(THICKNESS_FLOOR_BITS, 1, 125, 30, 0x40000000);
    lemma_single(HEIGHT_SHARE_BITS, 7, 20, 25, 0x2000000);
    lemma_single(THIN_BITS, 11, 200, 28, 0x10000000);
    lemma_single(THICK_BITS, 23, 200, 27, 0x8000000);
    lemma_single(OPEN_THICKNESS_BITS, 7, 100, 27, 0x8000000);
    lemma_single(OPEN_CUT_BITS, 3, 200, 30, 0x40000000);
    lemma_single(OPEN_LENGTH_BITS, 21, 25, 24, 0x1000000);
}

proof fn lemma_ship_numbers_4()
    ensures
        is_single(OPEN_WIDTH_BITS, 1, 5),
        is_single(OPEN_OFFSET_BITS, -1, 50),
{
    lemma_powers();
    lemma_single(OPEN_WIDTH_BITS, 1, 5, 26, 0x4000000);
    lemma_single(OPEN_OFFSET_BITS, -1, 50, 29, 0x20000000);
}

/// The numbers of the built-in ship are the nearest ones to these fractions.
pub proof fn lemma_ship_numbers()
    ensures
        is_double(ZERO_WIDE, 0, 1),
        is_double(OFFSET_WIDE, 1, 50),
        is_double(BEAM_FLOOR_WIDE, 3, 250),
        is_double(KEEL_WIDTH_WIDE, 9, 200),
        is_double(HEIGHT_FLOOR_WIDE, 3, 50),
        is_double(BOW_PINCH_WIDE, 3, 25),
        is_double(STERN_SPAN_WIDE, 9, 50),
        is_double(TUCK_WIDE, 3, 10),
        is_double(HALF_WIDE, 1, 2),
        is_double(TUCK_FLOOR_WIDE, 31, 50),
        is_double(STERN_START_WIDE, 41, 50),
        is_double(STERN_TAPER_WIDE, 22, 25),
        is_double(INSET_HEIGHT_WIDE, 23, 25),
        is_double(INSET_WIDTH_WIDE, 24, 25),
        is_double(ONE_WIDE, 1, 1),
        is_double(WIDTH_SCALE_WIDE, 6, 5),
        is_double(TWO_WIDE, 2, 1),
        is_double(THREE_WIDE, 3, 1),
        is_double(FOUR_WIDE, 4, 1),
        is_double(FIVE_WIDE, 5, 1),
        is_single(HULL_X_MIN_BITS, -67, 50),
        is_single(HULL_X_MAX_BITS, 59, 50),
        is_single(SPLINE_BOW_CAP_BITS, 3, 100),
        is_single(SPLINE_STERN_CAP_BITS, 1, 20),
        is_single(SPLINE_CAP_INSET_BITS, 1, 5),
        is_single(THICKNESS_FLOOR_BITS, 1, 125),
        is_single(HEIGHT_SHARE_BITS, 7, 20),
        is_single(THIN_BITS, 11, 200),
        is_single(THICK_BITS, 23, 200),
        is_single(OPEN_THICKNESS_BITS, 7, 100),
        is_single(OPEN_CUT_BITS, 3, 200),
        is_single(OPEN_LENGTH_BITS, 21, 25),
        is_single(OPEN_WIDTH_BITS, 1, 5),
        is_single(OPEN_OFFSET_BITS, -1, 50),
{
    lemma_ship_numbers_0();
    lemma_ship_numbers_1();
    lemma_ship_numbers_2();
    lemma_ship_numbers_3();
    lemma_ship_numbers_4();
}

/// The keel of the lines, by station, in thousandths.
pub proof fn lemma_keel_profile(index: usize)
    requires
        index < 11,
    ensures
        is_single(keel_profile(index).bits, seq![60int, -120int, -260int, -330int, -360int, -370int, -360int, -320int, -220int, -60int, 100int][index as int], 1000),
{
    lemma_powers();
    let numbers = seq![60int, -120int, -260int, -330int, -360int, -370int, -360int, -320int, -220int, -60int, 100int];
    if index == 0 {
        assert(numbers[0] == 60);
        lemma_single(0x3d75_c28f, 60, 1000, 28, 0x10000000);
    }
    if index == 1 {
        assert(numbers[1] == -120);
        lemma_single(0xbdf5_c28f, -120, 1000, 27, 0x8000000);
    }
    if index == 2 {
        assert(numbers[2] == -260);
        lemma_single(0xbe85_1eb8, -260, 1000, 25, 0x2000000);
    }
    if index == 3 {
        assert(numbers[3] == -330);
        lemma_single(0xbea8_f5c3, -330, 1000, 25, 0x2000000);
    }
    if index == 4 {
        assert(numbers[4] == -360);
        lemma_single(0xbeb8_51ec, -360, 1000, 25, 0x2000000);
    }
    if index == 5 {
        assert(numbers[5] == -370);
        lemma_single(0xbebd_70a4, -370, 1000, 25, 0x2000000);
    }
    if index == 6 {
        assert(numbers[6] == -360);
        lemma_single(0xbeb8_51ec, -360, 1000, 25, 0x2000000);
    }
    if index == 7 {
        assert(numbers[7] == -320);
        lemma_single(0xbea3_d70a, -320, 1000, 25, 0x2000000);
    }
    if index == 8 {
        assert(numbers[8] == -220);
        lemma_single(0xbe61_47ae, -220, 1000, 26, 0x4000000);
    }
    if index == 9 {
        assert(numbers[9] == -60);
        lemma_single(0xbd75_c28f, -60, 1000, 28, 0x10000000);
    }
    if index == 10 {
        assert(numbers[10] == 100);
        lemma_single(0x3dcc_cccd, 100, 1000, 27, 0x8000000);
    }
}

/// The sheer of the lines, by station, in thousandths.
pub proof fn lemma_sheer_profile(index: usize)
    requires
        index < 11,
    ensures
        is_single(sheer_profile(index).bits, seq![320int, 240int, 190int, 170int, 160int, 155int, 160int, 170int, 190int, 220int, 270int][index as int], 1000),
{
    lemma_powers();
    let numbers = seq![320int, 240int, 190int, 170int, 160int, 155int, 160int, 170int, 190int, 220int, 270int];
    if index == 0 {
        assert(numbers[0] == 320);
        lemma_single(0x3ea3_d70a, 320, 1000, 25, 0x2000000);
    }
    if index == 1 {
        assert(numbers[1] == 240);
        lemma_single(0x3e75_c28f, 240, 1000, 26, 0x4000000);
    }
    if index == 2 {
        assert(numbers[2] == 190);
        lemma_single(0x3e42_8f5c, 190, 1000, 26, 0x4000000);
    }
    if index == 3 {
        assert(numbers[3] == 170);
        lemma_single(0x3e2e_147b, 170, 1000, 26, 0x4000000);
    }
    if index == 4 {
        assert(numbers[4] == 160);
        lemma_single(0x3e23_d70a, 160, 1000, 26, 0x4000000);
    }
    if index == 5 {
        assert(numbers[5] == 155);
        lemma_single(0x3e1e_b852, 155, 1000, 26, 0x4000000);
    }
    if index == 6 {
        assert(numbers[6] == 160);
        lemma_single(0x3e23_d70a, 160, 1000, 26, 0x4000000);
    }
    if index == 7 {
        assert(numbers[7] == 170);
        lemma_single(0x3e2e_147b, 170, 1000, 26, 0x4000000);
    }
    if index == 8 {
        assert(numbers[8] == 190);
        lemma_single(0x3e42_8f5c, 190, 1000, 26, 0x4000000);
    }
    if index == 9 {
        assert(numbers[9] == 220);
        lemma_single(0x3e61_47ae, 220, 1000, 26, 0x4000000);
    }
    if index == 10 {
        assert(numbers[10] == 270);
        lemma_single(0x3e8a_3d71, 270, 1000, 25, 0x2000000);
    }
}

/// The half breadth of the lines, by station, in thousandths.
pub proof fn lemma_half_breadth(index: usize)
    requires
        index < 11,
    ensures
        is_single(half_breadth(index).bits, seq![0int, 20int, 85int, 190int, 275int, 330int, 345int, 325int, 245int, 145int, 55int][index as int], 1000),
{
    lemma_powers();
    let numbers = seq![0int, 20int, 85int, 190int, 275int, 330int, 345int, 325int, 245int, 145int, 55int];
    if index == 0 {
        assert(numbers[0] == 0);
        lemma_zero(1000);
    }
    if index == 1 {
        assert(numbers[1] == 20);
        lemma_single(0x3ca3_d70a, 20, 1000, 29, 0x20000000);
    }
    if index == 2 {
        assert(numbers[2] == 85);
        lemma_single(0x3dae_147b, 85, 1000, 27, 0x8000000);
    }
    if index == 3 {
        assert(numbers[3] == 190);
        lemma_single(0x3e42_8f5c, 190, 1000, 26, 0x4000000);
    }
    if index == 4 {
        assert(numbers[4] == 275);
        lemma_single(0x3e8c_cccd, 275, 1000, 25, 0x2000000);
    }
    if index == 5 {
        assert(numbers[5] == 330);
        lemma_single(0x3ea8_f5c3, 330, 1000, 25, 0x2000000);
    }
    if index == 6 {
        assert(numbers[6] == 345);
        lemma_single(0x3eb0_a3d7, 345, 1000, 25, 0x2000000);
    }
    if index == 7 {
        assert(numbers[7] == 325);
        lemma_single(0x3ea6_6666, 325, 1000, 25, 0x2000000);
    }
    if index == 8 {
        assert(numbers[8] == 245);
        lemma_single(0x3e7a_e148, 245, 1000, 26, 0x4000000);
    }
    if index == 9 {
        assert(numbers[9] == 145);
        lemma_single(0x3e14_7ae1, 145, 1000, 26, 0x4000000);
    }
    if index == 10 {
        assert(numbers[10] == 55);
        lemma_single(0x3d61_47ae, 55, 1000, 28, 0x10000000);
    }
}

/// The keel of the native hull, by station, in thousandths.
pub proof fn lemma_native_keel_profile(index: usize)
    requires
        index < 11,
    ensures
        is_single(native_keel_profile(index).bits, seq![105int, -55int, -215int, -320int, -365int, -372int, -368int, -335int, -245int, -45int, 135int][index as int], 1000),
{
    lemma_powers();
    let numbers = seq![105int, -55int, -215int, -320int, -365int, -372int, -368int, -335int, -245int, -45int, 135int];
    if index == 0 {
        assert(numbers[0] == 105);
        lemma_single(0x3dd7_0a3d, 105, 1000, 27, 0x8000000);
    }
    if index == 1 {
        assert(numbers[1] == -55);
        lemma_single(0xbd61_47ae, -55, 1000, 28, 0x10000000);
    }
    if index == 2 {
        assert(numbers[2] == -215);
        lemma_single(0xbe5c_28f6, -215, 1000, 26, 0x4000000);
    }
    if index == 3 {
        assert(numbers[3] == -320);
        lemma_single(0xbea3_d70a, -320, 1000, 25, 0x2000000);
    }
    if index == 4 {
        assert(numbers[4] == -365);
        lemma_single(0xbeba_e148, -365, 1000, 25, 0x2000000);
    }
    if index == 5 {
        assert(numbers[5] == -372);
        lemma_single(0xbebe_76c9, -372, 1000, 25, 0x2000000);
    }
    if index == 6 {
        assert(numbers[6] == -368);
        lemma_single(0xbebc_6a7f, -368, 1000, 25, 0x2000000);
    }
    if index == 7 {
        assert(numbers[7] == -335);
        lemma_single(0xbeab_851f, -335, 1000, 25, 0x2000000);
    }
    if index == 8 {
        assert(numbers[8] == -245);
        lemma_single(0xbe7a_e148, -245, 1000, 26, 0x4000000);
    }
    if index == 9 {
        assert(numbers[9] == -45);
        lemma_single(0xbd38_51ec, -45, 1000, 28, 0x10000000);
    }
    if index == 10 {
        assert(numbers[10] == 135);
        lemma_single(0x3e0a_3d71, 135, 1000, 26, 0x4000000);
    }
}

/// The sheer of the native hull, by station, in thousandths.
pub proof fn lemma_native_sheer_profile(index: usize)
    requires
        index < 11,
    ensures
        is_single(native_sheer_profile(index).bits, seq![275int, 232int, 198int, 174int, 162int, 158int, 162int, 180int, 224int, 282int, 338int][index as int], 1000),
{
    lemma_powers();
    let numbers = seq![275int, 232int, 198int, 174int, 162int, 158int, 162int, 180int, 224int, 282int, 338int];
    if index == 0 {
        assert(numbers[0] == 275);
        lemma_single(0x3e8c_cccd, 275, 1000, 25, 0x2000000);
    }
    if index == 1 {
        assert(numbers[1] == 232);
        lemma_single(0x3e6d_9168, 232, 1000, 26, 0x4000000);
    }
    if index == 2 {
        assert(numbers[2] == 198);
        lemma_single(0x3e4a_c083, 198, 1000, 26, 0x4000000);
    }
    if index == 3 {
        assert(numbers[3] == 174);
        lemma_single(0x3e32_2d0e, 174, 1000, 26, 0x4000000);
    }
    if index == 4 {
        assert(numbers[4] == 162);
        lemma_single(0x3e25_e354, 162, 1000, 26, 0x4000000);
    }
    if index == 5 {
        assert(numbers[5] == 158);
        lemma_single(0x3e21_cac1, 158, 1000, 26, 0x4000000);
    }
    if index == 6 {
        assert(numbers[6] == 162);
        lemma_single(0x3e25_e354, 162, 1000, 26, 0x4000000);
    }
    if index == 7 {
        assert(numbers[7] == 180);
        lemma_single(0x3e38_51ec, 180, 1000, 26, 0x4000000);
    }
    if index == 8 {
        assert(numbers[8] == 224);
        lemma_single(0x3e65_6042, 224, 1000, 26, 0x4000000);
    }
    if index == 9 {
        assert(numbers[9] == 282);
        lemma_single(0x3e90_624e, 282, 1000, 25, 0x2000000);
    }
    if index == 10 {
        assert(numbers[10] == 338);
        lemma_single(0x3ead_0e56, 338, 1000, 25, 0x2000000);
    }
}

/// The half breadth of the native hull, by station, in thousandths.
pub proof fn lemma_native_half_breadth(index: usize)
    requires
        index < 11,
    ensures
        is_single(native_half_breadth(index).bits, seq![120int, 225int, 285int, 335int, 355int, 360int, 342int, 292int, 175int, 48int, 0int][index as int], 1000),
{
    lemma_powers();
    let numbers = seq![120int, 225int, 285int, 335int, 355int, 360int, 342int, 292int, 175int, 48int, 0int];
    if index == 0 {
        assert(numbers[0] == 120);
        lemma_single(0x3df5_c28f, 120, 1000, 27, 0x8000000);
    }
    if index == 1 {
        assert(numbers[1] == 225);
        lemma_single(0x3e66_6666, 225, 1000, 26, 0x4000000);
    }
    if index == 2 {
        assert(numbers[2] == 285);
        lemma_single(0x3e91_eb85, 285, 1000, 25, 0x2000000);
    }
    if index == 3 {
        assert(numbers[3] == 335);
        lemma_single(0x3eab_851f, 335, 1000, 25, 0x2000000);
    }
    if index == 4 {
        assert(numbers[4] == 355);
        lemma_single(0x3eb5_c28f, 355, 1000, 25, 0x2000000);
    }
    if index == 5 {
        assert(numbers[5] == 360);
        lemma_single(0x3eb8_51ec, 360, 1000, 25, 0x2000000);
    }
    if index == 6 {
        assert(numbers[6] == 342);
        lemma_single(0x3eaf_1aa0, 342, 1000, 25, 0x2000000);
    }
    if index == 7 {
        assert(numbers[7] == 292);
        lemma_single(0x3e95_8106, 292, 1000, 25, 0x2000000);
    }
    if index == 8 {
        assert(numbers[8] == 175);
        lemma_single(0x3e33_3333, 175, 1000, 26, 0x4000000);
    }
    if index == 9 {
        assert(numbers[9] == 48);
        lemma_single(0x3d44_9ba6, 48, 1000, 28, 0x10000000);
    }
    if index == 10 {
        assert(numbers[10] == 0);
        lemma_zero(1000);
    }
}

/// The number of a station.
pub proof fn lemma_station_number(index: usize)
    requires
        index < 11,
    ensures
        is_single(station_number(index).bits, seq![0int, 1int, 2int, 3int, 4int, 5int, 6int, 7int, 8int, 9int, 10int][index as int], 1),
{
    lemma_powers();
    let numbers = seq![0int, 1int, 2int, 3int, 4int, 5int, 6int, 7int, 8int, 9int, 10int];
    if index == 0 {
        assert(numbers[0] == 0);
        lemma_zero(1);
    }
    if index == 1 {
        assert(numbers[1] == 1);
        lemma_single(0x3f80_0000, 1, 1, 23, 0x800000);
    }
    if index == 2 {
        assert(numbers[2] == 2);
        lemma_single(0x4000_0000, 2, 1, 22, 0x400000);
    }
    if index == 3 {
        assert(numbers[3] == 3);
        lemma_single(0x4040_0000, 3, 1, 22, 0x400000);
    }
    if index == 4 {
        assert(numbers[4] == 4);
        lemma_single(0x4080_0000, 4, 1, 21, 0x200000);
    }
    if index == 5 {
        assert(numbers[5] == 5);
        lemma_single(0x40a0_0000, 5, 1, 21, 0x200000);
    }
    if index == 6 {
        assert(numbers[6] == 6);
        lemma_single(0x40c0_0000, 6, 1, 21, 0x200000);
    }
    if index == 7 {
        assert(numbers[7] == 7);
        lemma_single(0x40e0_0000, 7, 1, 21, 0x200000);
    }
    if index == 8 {
        assert(numbers[8] == 8);
        lemma_single(0x4100_0000, 8, 1, 20, 0x100000);
    }
    if index == 9 {
        assert(numbers[9] == 9);
        lemma_single(0x4110_0000, 9, 1, 20, 0x100000);
    }
    if index == 10 {
        assert(numbers[10] == 10);
        lemma_single(0x4120_0000, 10, 1, 20, 0x100000);
    }
}

} // verus!
