//! A tile that keeps its image to itself.

use crate::tools::matrix::{Grid, Matrix};
use crate::tools::transform::{Dimensions, Position};
use vstd::prelude::*;

verus! {

/// A tile of packed colours, as wide and as high as it was made, that
/// does not wrap.
pub struct Tile {
    /// The image.
    matrix: Matrix<u32>,
}

impl View for Tile {
    type V = Grid<u32>;

    closed spec fn view(&self) -> Grid<u32> {
        self.matrix@
    }
}

impl Tile {
    /// The image is well formed and does not wrap.
    #[verifier::type_invariant]
    spec fn inv(&self) -> bool {
        self.matrix.wf() && !self.matrix.wrapping
    }

    /// A tile of the given extent with 0 in every pixel.
    pub fn new(width: usize, height: usize) -> (tile: Self)
        requires
            width * height <= usize::MAX,
        ensures
            tile@.wf(),
            tile@.width == width,
            tile@.height == height,
            !tile@.wrapping,
            tile@.cells == Seq::new((width * height) as nat, |k: int| 0u32),
    {
        let matrix: Matrix<u32> = Matrix::new(Dimensions { width, height }, false);
        assert(matrix.values@ =~= Seq::new((width * height) as nat, |k: int| 0u32));
        Self { matrix }
    }

    /// The width of the tile in pixels.
    pub fn get_width(&self) -> (width: usize)
        ensures
            width == self@.width,
    {
        self.matrix.dimensions.width
    }

    /// The height of the tile in pixels.
    pub fn get_height(&self) -> (height: usize)
        ensures
            height == self@.height,
    {
        self.matrix.dimensions.height
    }

    /// The pixel in column `x` of row `y`, if the tile has one there.
    pub fn get_pixel(&self, x: usize, y: usize) -> (pixel: Option<&u32>)
        ensures
            self@.wf(),
            pixel == if x < self@.width && y < self@.height {
                Some(&self@.at(x as int, y as int))
            } else {
                None
            },
    {
        proof {
            use_type_invariant(self);
        }
        self.matrix.get(Position { x, y })
    }
}

impl Clone for Tile {
    fn clone(&self) -> (copy: Self)
        ensures
            copy@ == self@,
    {
        proof {
            use_type_invariant(self);
        }
        let matrix = self.matrix.clone();
        assert(matrix.values@ =~= self.matrix.values@);
        Self { matrix }
    }
}

impl Default for Tile {
    /// The tile without pixels.
    fn default() -> (tile: Self)
        ensures
            tile@.wf(),
            tile@.width == 0,
            tile@.height == 0,
            tile@.cells.len() == 0,
    {
        Self { matrix: Matrix::default() }
    }
}

} // verus!
