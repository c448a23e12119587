//! A map of tiles and the buffer of colours that it is rendered to.

use super::pixel::{colors, colors_of};
use super::tile::Tile;
use crate::tools::color::Color;
use crate::tools::dual_trait::{into_dual, Algebra};
use crate::tools::matrix::layer::Layer;
use crate::tools::matrix::layout::lemma_offset_join;
use crate::tools::matrix::{Grid, Matrix};
use crate::tools::transform::{Dimensions, Position};
use vstd::prelude::*;

verus! {

/// What the cell at place `k` of `map`, counted row by row, lays on the
/// buffer. A cell that holds a tile lays the pixels of the tile, as a
/// rectangle `tw` wide and `th` high, with its top left pixel on the
/// cell's column times `tw` and the cell's row times `th`; pixels without
/// colour put nothing. A cell that holds no tile lays nothing.
pub open spec fn cell_layer<T: Tile>(map: Grid<Option<T>>, tw: int, th: int, k: int) -> Layer<
    Color,
> {
    match map.cells[k] {
        Some(tile) => Layer {
            items: colors(tile.image().values@),
            x: (k % map.width) * tw,
            y: (k / map.width) * th,
            width: tw,
            height: th,
        },
        None => Layer::nothing(),
    }
}

/// What the cells of `map` lay on the buffer, cell by cell and row by
/// row.
pub open spec fn cell_layers<T: Tile>(map: Grid<Option<T>>, tw: int, th: int) -> Seq<Layer<Color>> {
    Seq::new(map.cells.len(), |k: int| cell_layer(map, tw, th, k))
}

/// Whether the buffer of a map of the extent `dimensions`, with a place
/// of the extent `tile` for each cell, can be counted in `usize`, and the
/// cells of the map too. Where no side of either extent is more than 255
/// they always can.
pub open spec fn renders(dimensions: Dimensions, tile: Dimensions) -> bool {
    ||| dimensions.width <= 0xFF && dimensions.height <= 0xFF && tile.width <= 0xFF && tile.height
        <= 0xFF
    ||| {
        &&& dimensions.spec_area() <= usize::MAX
        &&& dimensions.width * tile.width <= usize::MAX
        &&& dimensions.height * tile.height <= usize::MAX
        &&& (dimensions.width * tile.width) * (dimensions.height * tile.height) <= usize::MAX
    }
}

/// The sides of a buffer that [`renders`] and the number of its pixels
/// stay within `usize`.
pub proof fn lemma_renders(dimensions: Dimensions, tile: Dimensions)
    requires
        renders(dimensions, tile),
    ensures
        dimensions.countable(),
        dimensions.width * tile.width <= usize::MAX,
        dimensions.height * tile.height <= usize::MAX,
        (dimensions.width * tile.width) * (dimensions.height * tile.height) <= usize::MAX,
{
    let w = dimensions.width as int;
    let h = dimensions.height as int;
    let tw = tile.width as int;
    let th = tile.height as int;
    if w <= 0xFF && h <= 0xFF && tw <= 0xFF && th <= 0xFF {
        assert(0 <= w * tw <= 0xFF * 0xFF && 0 <= h * th <= 0xFF * 0xFF) by (nonlinear_arith)
            requires
                0 <= w <= 0xFF,
                0 <= h <= 0xFF,
                0 <= tw <= 0xFF,
                0 <= th <= 0xFF,
        ;
        let a = w * tw;
        let b = h * th;
        assert(a * b <= (0xFF * 0xFF) * (0xFF * 0xFF)) by (nonlinear_arith)
            requires
                0 <= a <= 0xFF * 0xFF,
                0 <= b <= 0xFF * 0xFF,
        ;
    }
}

/// A map of tiles: which tile lies in which cell, and the colours that
/// the map is rendered to.
pub struct TileMap<T: Tile> {
    /// For each cell its tile, if it has one.
    pub map: Matrix<Option<T>>,
    /// The extent in pixels of the place of a tile.
    tile_dimensions: Dimensions,
    /// The colours that the map is rendered to.
    pub buffer: Matrix<Color>,
}

impl<T: Tile> TileMap<T> {
    /// The cells of the map: each holds a tile, or none.
    pub closed spec fn map(&self) -> Grid<Option<T>> {
        self.map@
    }

    /// The colours that the map has been rendered to.
    pub closed spec fn buffer(&self) -> Grid<Color> {
        self.buffer@
    }

    /// The extent in pixels of the place of a tile.
    pub closed spec fn tile_dimensions(&self) -> Dimensions {
        self.tile_dimensions
    }

    /// Map and buffer are well formed, and the buffer has a place of a
    /// tile for every cell of the map.
    pub open spec fn wf(&self) -> bool {
        &&& self.map().wf()
        &&& self.buffer().wf()
        &&& self.buffer().width == self.map().width * self.tile_dimensions().width
        &&& self.buffer().height == self.map().height * self.tile_dimensions().height
    }

    /// A map of the extent `dimensions` whose cells hold no tile, with a
    /// black buffer that has a place of the extent `tile_dimensions` for
    /// each cell.
    pub fn new(dimensions: Dimensions, wrapping: bool, tile_dimensions: Dimensions) -> (made: Self)
        requires
            renders(dimensions, tile_dimensions),
        ensures
            made.wf(),
            made.tile_dimensions() == tile_dimensions,
            made.map().width == dimensions.width,
            made.map().height == dimensions.height,
            made.map().wrapping == wrapping,
            made.buffer().wrapping == wrapping,
            made.map().cells == Seq::new(dimensions.spec_area() as nat, |k: int| None::<T>),
            made.buffer().cells == Seq::new(
                made.buffer().cells.len(),
                |k: int| Color { red: 0, green: 0, blue: 0 },
            ),
    {
        proof {
            lemma_renders(dimensions, tile_dimensions);
        }
        let map: Matrix<Option<T>> = Matrix::new(dimensions, wrapping);
        let buffer: Matrix<Color> = Matrix::new(dimensions.mul(tile_dimensions), wrapping);
        assert(map.values@ =~= Seq::new(dimensions.spec_area() as nat, |k: int| None::<T>));
        assert(buffer.values@ =~= Seq::new(
            buffer.values@.len(),
            |k: int| Color { red: 0, green: 0, blue: 0 },
        ));
        Self { map, tile_dimensions, buffer }
    }

    /// Renders the map to the buffer. Until this is done the buffer shows
    /// no tile.
    ///
    /// Every cell that holds a tile has the pixels of the tile laid on
    /// its place in the buffer, cell by cell and row by row; only the
    /// pixels that have a colour are written. Cells that hold no tile
    /// leave the buffer as it is.
    pub fn update_buffer(&mut self)
        requires
            old(self).wf(),
        ensures
            final(self).wf(),
            final(self).map() == old(self).map(),
            final(self).tile_dimensions() == old(self).tile_dimensions(),
            final(self).buffer() == old(self).buffer().laid_all(
                cell_layers(
                    old(self).map(),
                    old(self).tile_dimensions().width as int,
                    old(self).tile_dimensions().height as int,
                ),
            ),
            final(self).buffer().laid_all(
                cell_layers(
                    old(self).map(),
                    old(self).tile_dimensions().width as int,
                    old(self).tile_dimensions().height as int,
                ),
            ) == final(self).buffer(),
    {
        let cells = self.map.enumerated();
        let ghost map = self.map@;
        let ghost before = self.buffer@;
        let ghost tw = self.tile_dimensions.width as int;
        let ghost th = self.tile_dimensions.height as int;
        let ghost layers = cell_layers(map, tw, th);
        let mut k: usize = 0;
        while k < cells.len()
            invariant
                self.map@ == map,
                map.wf(),
                before.wf(),
                map == old(self).map@,
                before == old(self).buffer@,
                self.tile_dimensions == old(self).tile_dimensions,
                tw == self.tile_dimensions.width,
                th == self.tile_dimensions.height,
                before.width == map.width * tw,
                before.height == map.height * th,
                cells@.len() == map.cells.len(),
                forall|j: int|
                    0 <= j < cells@.len() ==> {
                        &&& (#[trigger] cells@[j]).0.x == j % map.width
                        &&& cells@[j].0.y == j / map.width
                        &&& *cells@[j].1 == map.cells[j]
                    },
                k <= cells@.len(),
                layers == cell_layers(map, tw, th),
                self.buffer.wf(),
                self.buffer@ == before.laid_all(layers.take(k as int)),
            decreases cells@.len() - k,
        {
            let position: Position = cells[k].0;
            proof {
                before.lemma_laid_all(layers.take(k as int));
                before.lemma_laid_next(layers, k as int);
                lemma_offset_join(map.width, map.height, k as int);
                assert(position.x * tw <= map.width * tw && position.y * th <= map.height * th)
                    by (nonlinear_arith)
                    requires
                        0 <= position.x < map.width,
                        0 <= position.y < map.height,
                        0 <= tw,
                        0 <= th,
                ;
            }
            if let Some(tile) = cells[k].1 {
                let items = colors_of(tile.get_iter());
                let extent: Position = into_dual(&self.tile_dimensions);
                self.buffer.transparent_overlay_iter(
                    items.into_iter(),
                    position.mul(extent),
                    self.tile_dimensions,
                );
            } else {
                proof {
                    self.buffer@.lemma_laid_nothing(layers[k as int]);
                }
            }
            k += 1;
        }
        proof {
            assert(layers.take(k as int) =~= layers);
            before.lemma_laid_all(layers);
            before.lemma_laid_all_again(layers);
        }
    }
}

} // verus!
