//! Tiles and the sizes that they are divided into.
use vstd::prelude::*;

verus! {

/// The corner of a square of pixels.
#[derive(Clone, Copy, Debug, PartialEq, Eq, Structural)]
pub struct Tile2 {
    pub x: usize,
    pub y: usize,
}

/// The corner of a cube of voxels.
#[derive(Clone, Copy, Debug, PartialEq, Eq, Structural)]
pub struct Tile {
    pub x: usize,
    pub y: usize,
    pub z: usize,
}

/// A voxel of an image.
#[derive(Clone, Copy, Debug, PartialEq, Eq, Structural)]
pub struct Voxel {
    pub x: usize,
    pub y: usize,
    pub z: usize,
}

/// Why a list is not a list of tile sizes.
#[derive(Clone, Copy, Debug, PartialEq, Eq, Structural)]
pub enum TileSizeError {
    /// There are no sizes.
    Empty,
    /// The last size is zero.
    Zero,
    /// A size is not smaller than the one before it.
    BadOrder(usize, usize),
    /// A size does not divide the one before it.
    BadSize(usize, usize),
}

/// Each size is smaller than the one before it and divides it, and the last is
/// not zero.
pub open spec fn are_tile_sizes(sizes: Seq<usize>) -> bool {
    &&& sizes.len() > 0
    &&& sizes.last() > 0
    &&& forall|i: int| 1 <= i < sizes.len() ==> #[trigger] halves(sizes, i)
}

/// The size at `i` is smaller than the one before it and divides it.
pub open spec fn halves(sizes: Seq<usize>, i: int) -> bool {
    sizes[i] < sizes[i - 1] && sizes[i] > 0 && sizes[i - 1] % sizes[i] == 0
}

/// Sizes of the tiles at every level, from the largest to the smallest.
#[derive(Debug)]
pub struct TileSizes {
    sizes: Vec<usize>,
}

impl View for TileSizes {
    type V = Seq<usize>;

    closed spec fn view(&self) -> Seq<usize> {
        self.sizes@
    }
}

/// The first place at which a list fails to be a list of tile sizes.
pub open spec fn first_bad_pair(sizes: Seq<usize>, i: int) -> bool {
    &&& 1 <= i < sizes.len()
    &&& forall|k: int| 1 <= k < i ==> #[trigger] divides_previous(sizes, k)
    &&& !divides_previous(sizes, i)
}

/// The size at `i` is smaller than the one before it, and divides it unless it
/// is zero.
pub open spec fn divides_previous(sizes: Seq<usize>, i: int) -> bool {
    sizes[i] < sizes[i - 1] && (sizes[i] == 0 || sizes[i - 1] % sizes[i] == 0)
}

impl TileSizes {
    #[verifier::type_invariant]
    pub closed spec fn inv(self) -> bool {
        are_tile_sizes(self.sizes@)
    }

    /// Builds a list of tile sizes.
    pub fn new(sizes: &[usize]) -> (r: Result<Self, TileSizeError>)
        ensures
            match r {
                Ok(list) => list@ == sizes@ && are_tile_sizes(sizes@),
                Err(TileSizeError::Empty) => sizes@.len() == 0,
                Err(TileSizeError::BadOrder(a, b)) => exists|i: int|
                    #[trigger] first_bad_pair(sizes@, i) && a == sizes@[i - 1] && b == sizes@[i]
                        && a <= b,
                Err(TileSizeError::BadSize(a, b)) => exists|i: int|
                    #[trigger] first_bad_pair(sizes@, i) && a == sizes@[i - 1] && b == sizes@[i]
                        && a > b,
                Err(TileSizeError::Zero) => sizes@.len() > 0 && sizes@.last() == 0 && forall|
                    i: int,
                |
                    1 <= i < sizes@.len() ==> #[trigger] divides_previous(sizes@, i),
            },
    {
        if sizes.len() == 0 {
            return Err(TileSizeError::Empty);
        }
        let mut list: Vec<usize> = Vec::new();
        list.push(sizes[0]);
        let mut i: usize = 1;
        while i < sizes.len()
            invariant
                1 <= i <= sizes@.len(),
                list@ == sizes@.take(i as int),
                forall|k: int| 1 <= k < i ==> #[trigger] divides_previous(sizes@, k),
            decreases sizes.len() - i,
        {
            let a = sizes[i - 1];
            let b = sizes[i];
            if a <= b {
                assert(first_bad_pair(sizes@, i as int));
                return Err(TileSizeError::BadOrder(a, b));
            }
            if b != 0 && a % b != 0 {
                assert(first_bad_pair(sizes@, i as int));
                return Err(TileSizeError::BadSize(a, b));
            }
            list.push(b);
            assert(divides_previous(sizes@, i as int));
            i = i + 1;
            assert(list@ =~= sizes@.take(i as int));
        }
        assert(list@ =~= sizes@);
        if sizes[sizes.len() - 1] == 0 {
            return Err(TileSizeError::Zero);
        }
        assert forall|k: int| 1 <= k < sizes@.len() implies #[trigger] halves(sizes@, k) by {
            assert(divides_previous(sizes@, k));
            if k + 1 < sizes@.len() {
                assert(divides_previous(sizes@, k + 1));
            }
        }
        Ok(TileSizes { sizes: list })
    }

    /// Returns the number of levels.
    pub fn len(&self) -> (r: usize)
        ensures
            r == self@.len(),
            r > 0,
    {
        proof {
            use_type_invariant(self);
        }
        self.sizes.len()
    }

    /// Returns the sizes, from the largest to the smallest.
    pub fn as_slice(&self) -> (r: &[usize])
        ensures
            r@ == self@,
            are_tile_sizes(r@),
    {
        proof {
            use_type_invariant(self);
        }
        self.sizes.as_slice()
    }
}

/// Tile sizes used to render shapes in 3D by default
pub fn tile_sizes_3d() -> (r: TileSizes)
    ensures
        r@ == seq![128usize, 64, 32, 16, 8],
{
    let mut sizes: Vec<usize> = Vec::new();
    sizes.push(128);
    sizes.push(64);
    sizes.push(32);
    sizes.push(16);
    sizes.push(8);
    assert(sizes@ =~= seq![128usize, 64, 32, 16, 8]);
    assert(halves(sizes@, 1) && halves(sizes@, 2) && halves(sizes@, 3) && halves(sizes@, 4));
    TileSizes { sizes }
}

/// Tile sizes used to render shapes in 2D by default
pub fn tile_sizes_2d() -> (r: TileSizes)
    ensures
        r@ == seq![128usize, 32, 8],
{
    let mut sizes: Vec<usize> = Vec::new();
    sizes.push(128);
    sizes.push(32);
    sizes.push(8);
    assert(sizes@ =~= seq![128usize, 32, 8]);
    assert(halves(sizes@, 1) && halves(sizes@, 2));
    TileSizes { sizes }
}

/// The level at which rendering of an image starts: the last one whose size
/// reaches the whole image, or the first.
pub open spec fn first_level(sizes: Seq<usize>, max_size: usize) -> int {
    if exists|i: int| 0 <= i < sizes.len() && sizes[i] < max_size {
        let i = choose|i: int|
            0 <= i < sizes.len() && sizes[i] < max_size && forall|k: int|
                0 <= k < i ==> sizes[k] >= max_size;
        if i > 0 {
            i - 1
        } else {
            0
        }
    } else {
        sizes.len() - 1
    }
}

/// The part of a list of tile sizes that an image is rendered with.
#[derive(Clone, Copy, Debug)]
pub struct TileSizesRef<'a> {
    sizes: &'a [usize],
}

impl<'a> View for TileSizesRef<'a> {
    type V = Seq<usize>;

    closed spec fn view(&self) -> Seq<usize> {
        self.sizes@
    }
}

impl<'a> TileSizesRef<'a> {
    #[verifier::type_invariant]
    pub closed spec fn inv(self) -> bool {
        are_tile_sizes(self.sizes@)
    }

    /// Picks the sizes for an image whose longer side is `max_size`.
    pub fn new(tiles: &'a TileSizes, max_size: usize) -> (r: Self)
        ensures
            r@ == tiles@.skip(first_level(tiles@, max_size)),
    {
        let sizes = tiles.as_slice();
        let mut i: usize = 0;
        while i < sizes.len() && sizes[i] >= max_size
            invariant
                i <= sizes@.len(),
                forall|k: int| 0 <= k < i ==> sizes@[k] >= max_size,
            decreases sizes.len() - i,
        {
            i = i + 1;
        }
        let level: usize = if i > 0 {
            i - 1
        } else {
            0
        };
        proof {
            if i < sizes@.len() {
                assert(sizes@[i as int] < max_size);
                let j = choose|j: int|
                    0 <= j < sizes@.len() && sizes@[j] < max_size && forall|k: int|
                        0 <= k < j ==> sizes@[k] >= max_size;
                assert(j == i);
            }
            assert(level == first_level(sizes@, max_size));
            let rest = sizes@.skip(level as int);
            assert forall|k: int| 1 <= k < rest.len() implies #[trigger] halves(rest, k) by {
                assert(halves(sizes@, k + level));
            }
            assert(rest =~= sizes@.subrange(level as int, sizes@.len() as int));
        }
        TileSizesRef { sizes: vstd::slice::slice_subrange(sizes, level, sizes.len()) }
    }

    /// Returns the sizes, from the largest to the smallest.
    pub fn as_slice(&self) -> (r: &'a [usize])
        ensures
            r@ == self@,
            are_tile_sizes(r@),
    {
        proof {
            use_type_invariant(self);
        }
        self.sizes
    }

    /// Returns the size of the smallest tiles.
    pub fn last(&self) -> (r: usize)
        ensures
            r == self@.last(),
            r > 0,
    {
        proof {
            use_type_invariant(self);
        }
        self.sizes[self.sizes.len() - 1]
    }

    /// Returns the size at a level, if there is one.
    pub fn get(&self, level: usize) -> (r: Option<usize>)
        ensures
            r == (if level < self@.len() {
                Some(self@[level as int])
            } else {
                None
            }),
    {
        if level < self.sizes.len() {
            Some(self.sizes[level])
        } else {
            None
        }
    }
}

} // verus!
