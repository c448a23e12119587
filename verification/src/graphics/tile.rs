//! What a tile has to offer, and a tile of five kinds.

use super::pixel::Pixel;
use crate::tools::matrix::Matrix;
use vstd::prelude::*;
use vstd::std_specs::iter::IteratorSpec;

verus! {

/// What makes up a map or an entity.
///
/// A tile is an image: a grid of pixels. It gives the grid itself and the
/// pixels of the grid row by row.
///
/// `image` is what the contracts speak of. Code that is compiled without
/// being verified gives it as an ordinary function that returns a copy of
/// the grid. `Iter` is the type of what `get_iter` gives; for a tile that
/// holds its image in a [`Matrix`] it is the iterator of a slice.
pub trait Tile: Clone + Sized + Sync + Send {
    /// What lists the pixels of the image.
    type Iter<'a>: Iterator<Item = &'a Pixel> where Self: 'a;

    /// The image.
    spec fn image(&self) -> Matrix<Pixel>;

    /// The grid that holds the image.
    fn get_matrix(&self) -> (matrix: &Matrix<Pixel>)
        ensures
            *matrix == self.image(),
    ;

    /// The pixels of the image, row by row.
    fn get_iter<'a>(&'a self) -> (iter: Self::Iter<'a>)
        ensures
            iter.obeys_prophetic_iter_laws(),
            iter.decrease() is Some,
            iter.remaining().unref() == self.image().values@,
    ;
}

/// A tile of one of five kinds, each with an image of its own.
pub enum TileBase {
    ONE(Matrix<Pixel>),
    TWO(Matrix<Pixel>),
    THREE(Matrix<Pixel>),
    FOUR(Matrix<Pixel>),
    FIVE(Matrix<Pixel>),
}

impl TileBase {
    /// The grid that holds the image, whatever the kind.
    pub open spec fn matrix(&self) -> Matrix<Pixel> {
        match self {
            TileBase::ONE(m) => *m,
            TileBase::TWO(m) => *m,
            TileBase::THREE(m) => *m,
            TileBase::FOUR(m) => *m,
            TileBase::FIVE(m) => *m,
        }
    }

    /// The number of the kind, from 0 for `ONE` to 4 for `FIVE`.
    pub open spec fn kind(&self) -> int {
        match self {
            TileBase::ONE(_) => 0,
            TileBase::TWO(_) => 1,
            TileBase::THREE(_) => 2,
            TileBase::FOUR(_) => 3,
            TileBase::FIVE(_) => 4,
        }
    }

    /// The tile with the image `matrix` whose kind is `i` modulo five,
    /// where 0 is `ONE` and 4 is `FIVE`.
    pub fn from_usize(i: usize, matrix: Matrix<Pixel>) -> (tile: Self)
        ensures
            tile.matrix() == matrix,
            tile.kind() == i % 5,
    {
        match i % 5 {
            0 => Self::ONE(matrix),
            1 => Self::TWO(matrix),
            2 => Self::THREE(matrix),
            3 => Self::FOUR(matrix),
            _ => Self::FIVE(matrix),
        }
    }
}

impl Clone for TileBase {
    /// The same kind with a copy of the image.
    fn clone(&self) -> (copy: Self)
        ensures
            copy.kind() == self.kind(),
            copy.matrix()@ == self.matrix()@,
    {
        let copy = match self {
            Self::ONE(m) => Self::ONE(m.clone()),
            Self::TWO(m) => Self::TWO(m.clone()),
            Self::THREE(m) => Self::THREE(m.clone()),
            Self::FOUR(m) => Self::FOUR(m.clone()),
            Self::FIVE(m) => Self::FIVE(m.clone()),
        };
        assert(copy.matrix().values@ =~= self.matrix().values@);
        copy
    }
}

impl Tile for TileBase {
    type Iter<'a> = std::slice::Iter<'a, Pixel>;

    open spec fn image(&self) -> Matrix<Pixel> {
        self.matrix()
    }

    fn get_matrix(&self) -> (matrix: &Matrix<Pixel>) {
        match self {
            Self::ONE(m) => m,
            Self::TWO(m) => m,
            Self::THREE(m) => m,
            Self::FOUR(m) => m,
            Self::FIVE(m) => m,
        }
    }

    fn get_iter<'a>(&'a self) -> (iter: std::slice::Iter<'a, Pixel>) {
        let iter = self.get_matrix().values.iter();
        assert(iter.remaining().unref() =~= self.matrix().values@);
        iter
    }
}

} // verus!
