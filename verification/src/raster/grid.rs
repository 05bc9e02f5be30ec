//! The pixels of one root tile.
use crate::alu::Alu;
use crate::alu::ScalarFn;
use crate::scalar::BYTE_MAX_BITS;
use crate::scalar::Float32;
use crate::scalar::ZERO_BITS;
use crate::scalar::num;
use vstd::prelude::*;

verus! {

/// The direction in which a surface faces.
#[derive(Clone, Copy, Debug, PartialEq, Eq, Structural)]
pub struct Normal {
    pub x: Float32,
    pub y: Float32,
    pub z: Float32,
}

/// Pixel of a rendered image.
#[derive(Clone, Copy, Debug, PartialEq, Eq, Structural)]
pub struct GeometryPixel {
    /// Z position of this pixel, in voxel units
    ///
    /// Empty pixels always have a depth of 0.
    pub depth: usize,
    /// Function gradients at this pixel
    pub normal: Normal,
}

impl GeometryPixel {
    pub open spec fn spec_empty() -> Self {
        GeometryPixel { depth: 0, normal: Normal { x: num(ZERO_BITS), y: num(ZERO_BITS), z: num(ZERO_BITS) } }
    }

    /// A pixel without a surface.
    #[verifier::when_used_as_spec(spec_empty)]
    pub fn empty() -> (r: Self)
        ensures
            r == Self::empty(),
    {
        GeometryPixel { depth: 0, normal: Normal { x: num(ZERO_BITS), y: num(ZERO_BITS), z: num(ZERO_BITS) } }
    }
}

impl GeometryPixel {
    /// The pixel brought to at least a depth.
    pub open spec fn brought_to(self, fill: usize) -> GeometryPixel {
        if self.depth < fill {
            GeometryPixel { depth: fill, ..self }
        } else {
            self
        }
    }
}

/// The length of a direction.
pub open spec fn normal_length<A: ScalarFn>(alu: &Alu<A>, normal: Normal) -> Float32 {
    alu.sqrt(
        alu.add(
            alu.add(alu.mul(normal.x, normal.x), alu.mul(normal.y, normal.y)),
            alu.mul(normal.z, normal.z),
        ),
    )
}

impl GeometryPixel {
    /// Converts the normal into a normalized RGB value
    pub fn to_color<A: ScalarFn>(&self, alu: &Alu<A>) -> (r: [u8; 3])
        ensures
            ({
                let s = normal_length(alu, self.normal);
                let scale = alu.div(num(BYTE_MAX_BITS), s);
                if s.same(num(ZERO_BITS)) {
                    r@ == seq![0u8, 0, 0]
                } else {
                    &&& r@.len() == 3
                    &&& r@[0] == alu.mul(self.normal.x.abs(), scale).byte()
                    &&& r@[1] == alu.mul(self.normal.y.abs(), scale).byte()
                    &&& r@[2] == alu.mul(self.normal.z.abs(), scale).byte()
                }
            }),
    {
        let n = self.normal;
        let s = alu.sqrt(
            alu.add(alu.add(alu.mul(n.x, n.x), alu.mul(n.y, n.y)), alu.mul(n.z, n.z)),
        );
        if s.same(num(ZERO_BITS)) {
            [0, 0, 0]
        } else {
            let scale = alu.div(num(BYTE_MAX_BITS), s);
            [
                alu.mul(n.x.abs(), scale).to_byte(),
                alu.mul(n.y.abs(), scale).to_byte(),
                alu.mul(n.z.abs(), scale).to_byte(),
            ]
        }
    }
}

impl Default for GeometryPixel {
    fn default() -> (r: Self)
        ensures
            r == GeometryPixel::empty(),
    {
        GeometryPixel::empty()
    }
}

/// The place of the pixel at column `x` of row `y` in rows of `width` pixels.
pub open spec fn place(x: int, y: int, width: int) -> int {
    x + y * width
}

/// Every pixel has its own place, from which its column and row can be told.
pub proof fn lemma_place(x: int, y: int, width: int, height: int)
    requires
        0 <= x < width,
        0 <= y < height,
    ensures
        0 <= place(x, y, width) < width * height,
        place(x, y, width) % width == x,
        place(x, y, width) / width == y,
{
    vstd::arithmetic::div_mod::lemma_fundamental_div_mod_converse(x + y * width, width, y, x);
    assert(x + y * width < width * height) by (nonlinear_arith)
        requires
            0 <= x < width,
            0 <= y < height,
    ;
    assert(0 <= y * width) by (nonlinear_arith)
        requires
            0 <= y,
            0 < width,
    ;
}

/// Every place in rows of `width` pixels is that of a column and a row.
pub proof fn lemma_column_and_row(o: int, width: int, height: int)
    requires
        0 < width,
        0 <= o < width * height,
    ensures
        0 <= o % width < width,
        0 <= o / width < height,
        place(o % width, o / width, width) == o,
{
    vstd::arithmetic::div_mod::lemma_fundamental_div_mod(o, width);
    vstd::arithmetic::div_mod::lemma_mod_bound(o, width);
    vstd::arithmetic::div_mod::lemma_div_pos_is_pos(o, width);
    assert(o / width < height) by (nonlinear_arith)
        requires
            0 < width,
            0 <= o < width * height,
            o == width * (o / width) + o % width,
            0 <= o % width,
    ;
    assert(width * (o / width) == (o / width) * width) by (nonlinear_arith);
}

/// A square of pixels within a root tile.
#[derive(Clone, Copy, Debug, PartialEq, Eq, Structural)]
pub struct Window {
    /// Size of the root tile.
    pub root: usize,
    /// First column.
    pub x: usize,
    /// First row.
    pub y: usize,
    /// Number of columns and rows.
    pub size: usize,
}

impl Window {
    /// The square lies within the root tile.
    pub open spec fn wf(self) -> bool {
        &&& self.root > 0
        &&& self.x + self.size <= self.root
        &&& self.y + self.size <= self.root
    }

    /// The square holds the pixel.
    pub open spec fn holds(self, column: int, row: int) -> bool {
        self.x <= column < self.x + self.size && self.y <= row < self.y + self.size
    }

    /// The square holds the pixel at a place.
    pub open spec fn covers(self, o: int) -> bool {
        self.holds(o % (self.root as int), o / (self.root as int))
    }

    /// The place of a pixel of the square.
    pub open spec fn at(self, i: int, j: int) -> int {
        place(self.x + i, self.y + j, self.root as int)
    }

    /// Returns the place of a pixel of the square.
    pub fn offset(self, i: usize, j: usize, len: usize) -> (r: usize)
        requires
            self.wf(),
            i < self.size,
            j < self.size,
            len == self.root * self.root,
        ensures
            r == self.at(i as int, j as int),
            r < len,
            self.covers(r as int),
            r as int % self.root as int == self.x + i,
            r as int / self.root as int == self.y + j,
    {
        proof {
            lemma_place(self.x + i, self.y + j, self.root as int, self.root as int);
            assert((self.y + j) * self.root <= place(self.x + i, self.y + j, self.root as int));
        }
        (self.x + i) + (self.y + j) * self.root
    }
}

/// Every pixel of the square is at full depth.
pub open spec fn all_filled(pixels: Seq<GeometryPixel>, window: Window, fill: usize) -> bool {
    forall|o: int|
        0 <= o < pixels.len() && window.covers(o) ==> (#[trigger] pixels[o]).depth >= fill
}

/// The pixels with those of the square brought to at least full depth.
pub open spec fn filled(
    pixels: Seq<GeometryPixel>,
    window: Window,
    fill: usize,
) -> Seq<GeometryPixel> {
    Seq::new(
        pixels.len(),
        |o: int|
            if window.covers(o) {
                pixels[o].brought_to(fill)
            } else {
                pixels[o]
            },
    )
}

/// Every pixel of the square is empty or shows something at `z` or in front of it.
pub open spec fn clear_behind(pixels: Seq<GeometryPixel>, window: Window, z: int) -> bool {
    forall|o: int|
        0 <= o < pixels.len() && window.covers(o) ==> (#[trigger] pixels[o]).depth == 0
            || pixels[o].depth >= z
}

/// Every pixel of the square is empty or shows something in front of `z`.
pub open spec fn clear_past(pixels: Seq<GeometryPixel>, window: Window, z: int) -> bool {
    forall|o: int|
        0 <= o < pixels.len() && window.covers(o) ==> (#[trigger] pixels[o]).depth == 0
            || pixels[o].depth > z
}

/// Returns whether every pixel of the square is at full depth.
pub fn is_filled(pixels: &Vec<GeometryPixel>, window: Window, fill: usize) -> (r: bool)
    requires
        window.wf(),
        pixels@.len() == window.root * window.root,
    ensures
        r == all_filled(pixels@, window, fill),
{
    let len: usize = pixels.len();
    let mut j: usize = 0;
    while j < window.size
        invariant
            window.wf(),
            len == pixels@.len(),
            len == window.root * window.root,
            j <= window.size,
            forall|o: int|
                0 <= o < pixels@.len() && window.covers(o) && o / (window.root as int) < window.y
                    + j ==> (#[trigger] pixels@[o]).depth >= fill,
        decreases window.size - j,
    {
        let mut i: usize = 0;
        while i < window.size
            invariant
                window.wf(),
                len == pixels@.len(),
                len == window.root * window.root,
                i <= window.size,
                j < window.size,
                forall|o: int|
                    0 <= o < pixels@.len() && window.covers(o) && (o / (window.root as int)
                        < window.y + j || (o / (window.root as int) == window.y + j && o % (
                    window.root as int) < window.x + i)) ==> (#[trigger] pixels@[o]).depth >= fill,
            decreases window.size - i,
        {
            let o = window.offset(i, j, len);
            if pixels[o].depth < fill {
                return false;
            }
            proof {
                assert forall|p: int|
                    0 <= p < pixels@.len() && window.covers(p) && (p / (window.root as int)
                        < window.y + j || (p / (window.root as int) == window.y + j && p % (
                    window.root as int) < window.x + i + 1)) implies (#[trigger] pixels@[p]).depth
                    >= fill by {
                    lemma_column_and_row(p, window.root as int, window.root as int);
                    if p / (window.root as int) == window.y + j && p % (window.root as int)
                        == window.x + i {
                        assert(p == o);
                    }
                }
            }
            i = i + 1;
        }
        j = j + 1;
    }
    true
}

/// Brings the pixels of the square to at least full depth.
pub fn fill(pixels: &mut Vec<GeometryPixel>, window: Window, fill: usize)
    requires
        window.wf(),
        old(pixels)@.len() == window.root * window.root,
    ensures
        final(pixels)@ == filled(old(pixels)@, window, fill),
{
    let ghost given = pixels@;
    let len: usize = pixels.len();
    let mut j: usize = 0;
    while j < window.size
        invariant
            window.wf(),
            len == pixels@.len(),
            given.len() == len,
            len == window.root * window.root,
            j <= window.size,
            forall|o: int|
                0 <= o < len ==> #[trigger] pixels@[o] == (if window.covers(o) && o / (
                window.root as int) < window.y + j {
                    filled(given, window, fill)[o]
                } else {
                    given[o]
                }),
        decreases window.size - j,
    {
        let mut i: usize = 0;
        while i < window.size
            invariant
                window.wf(),
                len == pixels@.len(),
                given.len() == len,
                len == window.root * window.root,
                i <= window.size,
                j < window.size,
                forall|o: int|
                    0 <= o < len ==> #[trigger] pixels@[o] == (if window.covers(o) && (o / (
                    window.root as int) < window.y + j || (o / (window.root as int) == window.y + j
                        && o % (window.root as int) < window.x + i)) {
                        filled(given, window, fill)[o]
                    } else {
                        given[o]
                    }),
            decreases window.size - i,
        {
            let o = window.offset(i, j, len);
            let ghost before = pixels@;
            let pixel = pixels[o];
            if pixel.depth < fill {
                pixels.set(o, GeometryPixel { depth: fill, ..pixel });
            }
            proof {
                assert forall|p: int| 0 <= p < len implies #[trigger] pixels@[p] == (
                if window.covers(p) && (p / (window.root as int) < window.y + j || (p / (
                window.root as int) == window.y + j && p % (window.root as int) < window.x + i
                    + 1)) {
                    filled(given, window, fill)[p]
                } else {
                    given[p]
                }) by {
                    lemma_column_and_row(p, window.root as int, window.root as int);
                    assert(before[p] == before[p]);
                    if p / (window.root as int) == window.y + j && p % (window.root as int)
                        == window.x + i {
                        assert(p == o);
                    } else {
                        assert(p != o);
                    }
                }
            }
            i = i + 1;
        }
        j = j + 1;
    }
    assert(pixels@ =~= filled(given, window, fill));
}

} // verus!
