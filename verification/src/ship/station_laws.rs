//! What the stations and the sections of the built-in ship are.
use crate::alu::Alu;
use crate::alu::ScalarFn;
use crate::exact::Reading;
use crate::exact::can_hold;
use crate::exact::is_exact;
use crate::exact::lemma_add;
use crate::exact::lemma_div;
use crate::exact::lemma_mul;
use crate::exact::lemma_order;
use crate::exact::lemma_signs;
use crate::exact::lemma_small_numbers;
use crate::exact::lemma_sub;
use crate::exact::reads_as;
use crate::scalar::Float32;
use crate::scalar::ZERO_BITS;
use crate::scalar::num;
use crate::shell::constants::CIRCLE_FLOOR_BITS;
use crate::shell::constants::CIRCLE_SCALE_BITS;
use crate::shell::constants::HALF_BITS;
use crate::shell::constants::HEIGHT_FLOOR_BITS;
use crate::shell::constants::SHIP_HEIGHT_1_BITS;
use crate::shell::constants::SHIP_HEIGHT_2_BITS;
use crate::shell::constants::SHIP_HEIGHT_3_BITS;
use crate::shell::constants::SHIP_HEIGHT_4_BITS;
use crate::shell::constants::SHIP_HEIGHT_5_BITS;
use crate::shell::constants::SHIP_WIDTH_1_BITS;
use crate::shell::constants::SHIP_WIDTH_2_BITS;
use crate::shell::constants::SHIP_WIDTH_3_BITS;
use crate::shell::constants::SHIP_WIDTH_4_BITS;
use crate::shell::constants::SHIP_WIDTH_5_BITS;
use crate::shell::constants::SHIP_WIDTH_6_BITS;
use crate::shell::constants::WIDTH_FLOOR_BITS;
use crate::shell::profile::ShellProfileNodeContinuity;
use crate::shell::profile::ShellProfileSectionTopology;
use crate::shell::profile::ShellProfileSpanInterpolation;
use crate::shell::profile::ship_nodes;
use crate::shell::segments::enclosing_circle;
use crate::shell::topology::OpenTopPolicy;
use crate::ship::lines::HULL_X_MAX_BITS;
use crate::ship::lines::HULL_X_MIN_BITS;
use crate::ship::lines::HullPoint3;
use crate::ship::lines::HullSplineRole;
use crate::ship::lines::half_breadth;
use crate::ship::lines::hull_point;
use crate::ship::lines::keel_profile;
use crate::ship::lines::native_half_breadth;
use crate::ship::lines::native_keel_profile;
use crate::ship::lines::native_sheer_profile;
use crate::ship::lines::sheer_profile;
use crate::ship::lines::station_number;
use crate::ship::lines::station_x;
use crate::ship::native::HEIGHT_SHARE_BITS;
use crate::ship::native::HullShellOptions;
use crate::ship::native::OPEN_OFFSET_BITS;
use crate::ship::native::THICKNESS_FLOOR_BITS;
use crate::ship::native::circle_at;
use crate::ship::native::closed_thick_options;
use crate::ship::native::closed_thin_options;
use crate::ship::native::open_top_options;
use crate::ship::native::span_after;
use crate::ship::value::greater;
use crate::ship::value::size_of;
use vstd::prelude::*;

verus! {

/// Stations are spread evenly from the first end of the hull to the last, where
/// nothing is rounded.
pub proof fn lemma_stations_are_spread_evenly<A: ScalarFn>(
    alu: &Alu<A>,
    read: Reading,
    index: usize,
    share: real,
)
    requires
        is_exact(alu, read),
        index <= 10,
        reads_as(read, station_number(index), index as int as real),
        reads_as(read, station_number(10), 10 as real),
        share * (10 as real) == index as int as real && can_hold(read, share),
        ({
            let first = read(num(HULL_X_MIN_BITS));
            let length = read(num(HULL_X_MAX_BITS)) - first;
            &&& can_hold(read, length) && can_hold(read, length * share)
            &&& can_hold(read, first + length * share)
        }),
    ensures
        ({
            let first = read(num(HULL_X_MIN_BITS));
            let last = read(num(HULL_X_MAX_BITS));
            &&& reads_as(read, station_x(alu, index), first + (last - first) * share)
            &&& index == 0 ==> reads_as(read, station_x(alu, index), first)
            &&& index == 10 ==> reads_as(read, station_x(alu, index), last)
        }),
{
    let (x0, x1) = (num(HULL_X_MIN_BITS), num(HULL_X_MAX_BITS));
    let length = read(x1) - read(x0);
    lemma_sub(alu, read, x1, read(x1), x0, read(x0));
    lemma_div(
        alu,
        read,
        station_number(index),
        index as int as real,
        station_number(10),
        10 as real,
        share,
    );
    let part = alu.div(station_number(index), station_number(10));
    lemma_mul(alu, read, alu.sub(x1, x0), length, part, share);
    lemma_add(alu, read, x0, read(x0), alu.mul(alu.sub(x1, x0), part), length * share);
    if index == 0 {
        assert(share == 0 as real);
        assert(length * (0 as real) == 0 as real) by (nonlinear_arith);
    }
    if index == 10 {
        assert(share == 1 as real);
        assert(length * (1 as real) == length) by (nonlinear_arith);
    }
}

/// The points of each line stand at the stations, with the breadth or the height of
/// the line of that name.
pub proof fn lemma_lines_have_their_points<A: ScalarFn>(alu: &Alu<A>, index: usize)
    ensures
        hull_point(alu, HullSplineRole::KeelProfile, index).z == keel_profile(index),
        hull_point(alu, HullSplineRole::SheerProfile, index).z == sheer_profile(index),
        hull_point(alu, HullSplineRole::HalfBreadth, index).y == half_breadth(index),
        hull_point(alu, HullSplineRole::NativeKeelProfile, index).z == native_keel_profile(index),
        hull_point(alu, HullSplineRole::NativeSheerProfile, index).z == native_sheer_profile(
            index,
        ),
        hull_point(alu, HullSplineRole::NativeHalfBreadth, index).y == native_half_breadth(index),
        forall|role: HullSplineRole| #[trigger]
            hull_point(alu, role, index).x == station_x(alu, index),
{
}

/// The circle that stands for a profile section is at its station, midway between its
/// keel and its sheer, and as wide as the greatest of its beam, half its height and a
/// floor, times a margin, where nothing is rounded.
pub proof fn lemma_enclosing_circle<A: ScalarFn>(
    alu: &Alu<A>,
    read: Reading,
    section: ShellProfileSectionTopology,
    keel: real,
    sheer: real,
    beam: real,
    middle: real,
    half: real,
)
    requires
        is_exact(alu, read),
        reads_as(read, section.keel_z, keel) && reads_as(read, section.sheer_z, sheer),
        reads_as(read, section.beam, beam),
        can_hold(read, keel + sheer) && can_hold(read, sheer - keel),
        middle + middle == keel + sheer && can_hold(read, middle),
        half + half == size_of(sheer - keel) && can_hold(read, half),
        ({
            let widest = greater(greater(size_of(beam), half), read(num(CIRCLE_FLOOR_BITS)));
            can_hold(read, widest * read(num(CIRCLE_SCALE_BITS)))
        }),
    ensures
        ({
            let circle = enclosing_circle(alu, section);
            let widest = greater(greater(size_of(beam), half), read(num(CIRCLE_FLOOR_BITS)));
            &&& circle.station == section.station
            &&& reads_as(read, circle.center_y, 0 as real)
            &&& reads_as(read, circle.center_z, middle)
            &&& reads_as(read, circle.radius, widest * read(num(CIRCLE_SCALE_BITS)))
        }),
{
    lemma_small_numbers(alu, read);
    lemma_middle(alu, read, section.keel_z, keel, section.sheer_z, sheer, middle, half);
    lemma_signs(alu, read, section.beam, beam);
    let height = alu.mul(alu.sub(section.sheer_z, section.keel_z).abs(), num(HALF_BITS));
    lemma_order(alu, read, section.beam.abs(), size_of(beam), height, half);
    let floor = num(CIRCLE_FLOOR_BITS);
    let wide = section.beam.abs().max(height);
    lemma_order(alu, read, wide, greater(size_of(beam), half), floor, read(floor));
    let widest = greater(greater(size_of(beam), half), read(floor));
    let scale = num(CIRCLE_SCALE_BITS);
    lemma_mul(alu, read, wide.max(floor), widest, scale, read(scale));
}

proof fn lemma_middle<A: ScalarFn>(
    alu: &Alu<A>,
    read: Reading,
    low: Float32,
    keel: real,
    high: Float32,
    sheer: real,
    middle: real,
    half: real,
)
    requires
        is_exact(alu, read),
        reads_as(read, low, keel) && reads_as(read, high, sheer),
        can_hold(read, keel + sheer) && can_hold(read, sheer - keel),
        middle + middle == keel + sheer && can_hold(read, middle),
        half + half == size_of(sheer - keel) && can_hold(read, half),
    ensures
        reads_as(read, alu.mul(alu.add(low, high), num(HALF_BITS)), middle),
        reads_as(read, alu.mul(alu.sub(high, low).abs(), num(HALF_BITS)), half),
{
    lemma_small_numbers(alu, read);
    lemma_add(alu, read, low, keel, high, sheer);
    lemma_sub(alu, read, high, sheer, low, keel);
    lemma_signs(alu, read, alu.sub(high, low), sheer - keel);
    let h = read(num(HALF_BITS));
    lemma_half_of(keel + sheer, middle, h);
    lemma_half_of(size_of(sheer - keel), half, h);
    lemma_mul(alu, read, alu.add(low, high), keel + sheer, num(HALF_BITS), h);
    lemma_mul(alu, read, alu.sub(high, low).abs(), size_of(sheer - keel), num(HALF_BITS), h);
}

proof fn lemma_half_of(x: real, half: real, h: real)
    requires
        h + h == 1 as real,
        half + half == x,
    ensures
        x * h == half,
{
    assert((half + half) * h == half * (h + h)) by (nonlinear_arith);
    assert(half * (1 as real) == half) by (nonlinear_arith);
}

/// The circular section of a station of the native hull is midway between its keel
/// and its sheer, and as wide as the greatest of its half breadth, a share of half
/// its height and the floors, where nothing is rounded.
pub proof fn lemma_native_circle<A: ScalarFn>(
    alu: &Alu<A>,
    read: Reading,
    keel: HullPoint3,
    sheer: HullPoint3,
    beam: HullPoint3,
    low: real,
    high: real,
    width: real,
    middle: real,
    half: real,
)
    requires
        is_exact(alu, read),
        reads_as(read, keel.z, low) && reads_as(read, sheer.z, high) && reads_as(
            read,
            beam.y,
            width,
        ),
        can_hold(read, low + high) && can_hold(read, high - low),
        middle + middle == low + high && can_hold(read, middle),
        half + half == size_of(high - low) && can_hold(read, half),
        can_hold(read, half * read(num(HEIGHT_SHARE_BITS))),
    ensures
        ({
            let circle = circle_at(alu, keel, sheer, beam);
            let floors = greater(read(num(WIDTH_FLOOR_BITS)), read(num(CIRCLE_FLOOR_BITS)));
            &&& circle.station == keel.x
            &&& reads_as(read, circle.center_y, 0 as real)
            &&& reads_as(read, circle.center_z, middle)
            &&& reads_as(
                read,
                circle.radius,
                greater(greater(width, half * read(num(HEIGHT_SHARE_BITS))), floors),
            )
        }),
{
    lemma_small_numbers(alu, read);
    lemma_middle(alu, read, keel.z, low, sheer.z, high, middle, half);
    let height = alu.mul(alu.sub(sheer.z, keel.z).abs(), num(HALF_BITS));
    let share = num(HEIGHT_SHARE_BITS);
    lemma_mul(alu, read, height, half, share, read(share));
    let part = alu.mul(height, share);
    let (w, c) = (num(WIDTH_FLOOR_BITS), num(CIRCLE_FLOOR_BITS));
    lemma_order(alu, read, beam.y, width, w, read(w));
    let first = greater(width, read(w));
    lemma_order(alu, read, beam.y.max(w), first, part, half * read(share));
    let second = greater(first, half * read(share));
    lemma_order(alu, read, beam.y.max(w).max(part), second, c, read(c));
}

/// The last spans of the native hull are straight, and the others fair.
pub proof fn lemma_last_spans_are_straight(index: usize)
    ensures
        span_after(index) == ShellProfileSpanInterpolation::Linear <==> index >= 8,
        span_after(index) == ShellProfileSpanInterpolation::SmoothCatmullRom <==> index < 8,
{
}

/// A ship section starts at its keel without breadth and ends at its sheer, with
/// straight ends and fair nodes between. Each node is a share of the beam wide and
/// stands at a share of the height above the keel, where nothing is rounded.
pub proof fn lemma_ship_section<A: ScalarFn>(
    alu: &Alu<A>,
    read: Reading,
    keel_z: Float32,
    sheer_z: Float32,
    beam: Float32,
    keel: real,
    sheer: real,
    breadth: real,
    i: int,
    width_share: Float32,
    height_share: Float32,
)
    requires
        is_exact(alu, read),
        reads_as(read, keel_z, keel) && reads_as(read, sheer_z, sheer) && reads_as(
            read,
            beam,
            breadth,
        ),
        can_hold(read, sheer - keel),
        1 <= i <= 6,
        width_share == num(
            if i == 1 {
                SHIP_WIDTH_1_BITS
            } else if i == 2 {
                SHIP_WIDTH_2_BITS
            } else if i == 3 {
                SHIP_WIDTH_3_BITS
            } else if i == 4 {
                SHIP_WIDTH_4_BITS
            } else if i == 5 {
                SHIP_WIDTH_5_BITS
            } else {
                SHIP_WIDTH_6_BITS
            },
        ),
        height_share == num(
            if i == 1 {
                SHIP_HEIGHT_1_BITS
            } else if i == 2 {
                SHIP_HEIGHT_2_BITS
            } else if i == 3 {
                SHIP_HEIGHT_3_BITS
            } else if i == 4 {
                SHIP_HEIGHT_4_BITS
            } else {
                SHIP_HEIGHT_5_BITS
            },
        ),
        ({
            let height = greater(sheer - keel, read(num(HEIGHT_FLOOR_BITS)));
            let widest = greater(size_of(breadth), read(num(WIDTH_FLOOR_BITS)));
            &&& can_hold(read, widest * read(width_share)) && widest * read(width_share)
                >= 0 as real
            &&& can_hold(read, height * read(height_share))
            &&& can_hold(read, keel + height * read(height_share))
        }),
    ensures
        ({
            let nodes = ship_nodes(alu, keel_z, sheer_z, beam);
            let height = greater(sheer - keel, read(num(HEIGHT_FLOOR_BITS)));
            let widest = greater(size_of(breadth), read(num(WIDTH_FLOOR_BITS)));
            &&& nodes.len() == 7
            &&& nodes[0].half_width == num(ZERO_BITS) && nodes[0].z == keel_z
            &&& nodes[0].continuity == ShellProfileNodeContinuity::Linear
            &&& reads_as(read, nodes[i].half_width, widest * read(width_share))
            &&& i < 6 ==> reads_as(read, nodes[i].z, keel + height * read(height_share))
                && nodes[i].continuity == ShellProfileNodeContinuity::Smooth
            &&& i == 6 ==> nodes[i].z == sheer_z && nodes[i].continuity
                == ShellProfileNodeContinuity::Linear
        }),
{
    lemma_sub(alu, read, sheer_z, sheer, keel_z, keel);
    let (hf, wf) = (num(HEIGHT_FLOOR_BITS), num(WIDTH_FLOOR_BITS));
    lemma_order(alu, read, alu.sub(sheer_z, keel_z), sheer - keel, hf, read(hf));
    lemma_signs(alu, read, beam, breadth);
    lemma_order(alu, read, beam.abs(), size_of(breadth), wf, read(wf));
    let tall = alu.sub(sheer_z, keel_z).max(hf);
    let wide = beam.abs().max(wf);
    let height = greater(sheer - keel, read(hf));
    let widest = greater(size_of(breadth), read(wf));
    lemma_mul(alu, read, wide, widest, width_share, read(width_share));
    let w = alu.mul(wide, width_share);
    lemma_small_numbers(alu, read);
    lemma_signs(alu, read, w, widest * read(width_share));
    lemma_order(alu, read, w.abs(), widest * read(width_share), num(ZERO_BITS), 0 as real);
    lemma_mul(alu, read, tall, height, height_share, read(height_share));
    lemma_add(
        alu,
        read,
        keel_z,
        keel,
        alu.mul(tall, height_share),
        height * read(height_share),
    );
}

/// A hull has an opening exactly if its options say so: the box that they describe.
/// Its shell is never thinner than they say, nor than a floor.
pub proof fn lemma_options_say_what_is_built(options: HullShellOptions)
    requires
        !options.shell_thickness.is_nan(),
    ensures
        options.open_top_policy() is Closed <==> !options.open_top,
        options.open_top_policy() matches OpenTopPolicy::BoxCut {
            cut_z,
            half_length,
            half_width,
            offset_x,
        } ==> cut_z == options.open_top_cut_z && half_length == options.open_top_half_length
            && half_width == options.open_top_half_width && offset_x == num(OPEN_OFFSET_BITS),
        options.thickness().ge(options.shell_thickness),
        options.thickness().ge(num(THICKNESS_FLOOR_BITS)),
        options.thickness() == options.shell_thickness || options.thickness() == num(
            THICKNESS_FLOOR_BITS,
        ),
        !closed_thin_options().open_top && !closed_thick_options().open_top
            && open_top_options().open_top,
        closed_thin_options().shell_thickness.lt(closed_thick_options().shell_thickness),
{
}

} // verus!
