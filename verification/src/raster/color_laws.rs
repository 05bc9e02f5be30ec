//! What pixels show, and how long their normals are.
use crate::alu::Alu;
use crate::alu::ScalarFn;
use crate::exact::Reading;
use crate::exact::can_hold;
use crate::exact::is_exact;
use crate::exact::lemma_add;
use crate::exact::lemma_mul;
use crate::exact::lemma_sqrt;
use crate::exact::reads_as;
use crate::raster::assemble::combined;
use crate::raster::grid::GeometryPixel;
use crate::raster::grid::Normal;
use crate::raster::grid::normal_length;
use crate::scalar::ONE_BITS;
use crate::scalar::ZERO_BITS;
use crate::scalar::num;
use vstd::prelude::*;

verus! {

/// The square of the length of a normal is the sum of the squares of all three
/// components, where nothing is rounded.
pub proof fn lemma_normal_length<A: ScalarFn>(
    alu: &Alu<A>,
    read: Reading,
    normal: Normal,
    x: real,
    y: real,
    z: real,
    n: real,
)
    requires
        is_exact(alu, read),
        reads_as(read, normal.x, x) && reads_as(read, normal.y, y) && reads_as(read, normal.z, z),
        can_hold(read, x * x) && can_hold(read, y * y) && can_hold(read, z * z),
        can_hold(read, x * x + y * y) && can_hold(read, x * x + y * y + z * z),
        n >= 0 as real && n * n == x * x + y * y + z * z && can_hold(read, n),
    ensures
        reads_as(read, normal_length(alu, normal), n),
{
    lemma_mul(alu, read, normal.x, x, normal.x, x);
    lemma_mul(alu, read, normal.y, y, normal.y, y);
    lemma_mul(alu, read, normal.z, z, normal.z, z);
    let xx = alu.mul(normal.x, normal.x);
    let yy = alu.mul(normal.y, normal.y);
    let zz = alu.mul(normal.z, normal.z);
    lemma_add(alu, read, xx, x * x, yy, y * y);
    lemma_add(alu, read, alu.add(xx, yy), x * x + y * y, zz, z * z);
    lemma_sqrt(alu, read, alu.add(alu.add(xx, yy), zz), x * x + y * y + z * z, n);
}

/// Of two pixels the nearer one is shown, and of two at the same depth the later one. A
/// pixel that is put into the image is nowhere deeper than the image, one within it is not
/// changed, and one at its end faces the camera.
pub proof fn lemma_nearer_pixel_is_shown(image: GeometryPixel, out: GeometryPixel, depth: u32)
    ensures
        ({
            let shown = combined(image, out, depth);
            &&& out.depth < image.depth ==> shown == image
            &&& out.depth >= image.depth && out.depth < depth ==> shown == out
            &&& out.depth >= image.depth && out.depth >= depth ==> {
                &&& shown.depth == depth
                &&& shown.normal.x == num(ZERO_BITS) && shown.normal.y == num(ZERO_BITS)
                &&& shown.normal.z == num(ONE_BITS)
            }
        }),
{
}

} // verus!
