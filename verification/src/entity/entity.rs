//! What an entity has to offer, and the entity that a player steers.

use crate::graphics::pixel::Pixel;
use crate::graphics::tile::Tile;
use crate::tools::matrix::Matrix;
use crate::tools::transform::Transform;
use vstd::prelude::*;
use vstd::std_specs::iter::IteratorSpec;

verus! {

/// Something that is drawn on top of the background: it has a place and a
/// facing, a tile to show and a rank in the order of drawing.
///
/// `transform`, `tile` and `order` are what the contracts speak of. Code
/// that is compiled without being verified gives them as ordinary
/// functions that return what `get_position_matrix` and `get_order` refer
/// to.
pub trait Entity {
    /// The kind of tile that the entity shows.
    type Image: Tile;

    /// Where the entity stands and which way it faces.
    spec fn transform(&self) -> Transform;

    /// The tile that the entity shows now.
    spec fn tile(&self) -> Self::Image;

    /// The rank in the order of drawing; lower ranks are drawn first.
    spec fn order(&self) -> usize;

    /// Where the entity stands and faces, and the tile that it shows.
    fn get_position_matrix(&self) -> (placed: (&Transform, &Self::Image))
        ensures
            *placed.0 == self.transform(),
            *placed.1 == self.tile(),
    ;

    /// The rank in the order of drawing; lower ranks are drawn first.
    fn get_order(&self) -> (order: &usize)
        ensures
            *order == self.order(),
    ;
}

/// The entity that a player steers: one image, shown where the player
/// stands and turned the way the player faces. It is drawn first.
pub struct Player {
    pub transform: Transform,
    pub matrix: Matrix<Pixel>,
}

impl Clone for Player {
    fn clone(&self) -> (copy: Self)
        ensures
            copy.transform == self.transform,
            copy.matrix@ == self.matrix@,
    {
        let copy = Player { transform: self.transform, matrix: self.matrix.clone() };
        assert(copy.matrix.values@ =~= self.matrix.values@);
        copy
    }
}

impl Tile for Player {
    type Iter<'a> = std::slice::Iter<'a, Pixel>;

    open spec fn image(&self) -> Matrix<Pixel> {
        self.matrix
    }

    fn get_iter<'a>(&'a self) -> (iter: std::slice::Iter<'a, Pixel>) {
        let iter = self.matrix.values.iter();
        assert(iter.remaining().unref() =~= self.matrix.values@);
        iter
    }

    fn get_matrix(&self) -> (matrix: &Matrix<Pixel>) {
        &self.matrix
    }
}

impl Entity for Player {
    type Image = Player;

    open spec fn transform(&self) -> Transform {
        self.transform
    }

    open spec fn tile(&self) -> Player {
        *self
    }

    open spec fn order(&self) -> usize {
        0
    }

    fn get_order(&self) -> (order: &usize) {
        &0
    }

    fn get_position_matrix(&self) -> (placed: (&Transform, &Player)) {
        (&self.transform, self)
    }
}

} // verus!
