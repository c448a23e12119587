//! Tiles of packed colours, a library of them, and a map that stamps
//! them on a buffer.

use crate::tools::matrix::layer::{present, Layer};
use crate::tools::matrix::layout::lemma_offset_join;
use crate::tools::matrix::{Grid, Matrix};
use crate::tools::transform::{Dimensions, Position};
use vstd::prelude::*;

verus! {

/// A tile of packed colours.
pub enum Tile {
    /// Every pixel has a value.
    Simple(Matrix<u32>),
    /// A pixel has a value or none.
    Transparent(Matrix<Option<u32>>),
}

impl Tile {
    /// The image is well formed.
    pub open spec fn wf(&self) -> bool {
        match self {
            Tile::Simple(matrix) => matrix.wf(),
            Tile::Transparent(matrix) => matrix.wf(),
        }
    }

    /// The image with a value or nothing in each pixel, whatever the
    /// kind of the tile.
    pub open spec fn pixels(&self) -> Grid<Option<u32>> {
        match self {
            Tile::Simple(matrix) => Grid {
                cells: Seq::new(matrix.values@.len(), |k: int| Some(matrix.values@[k])),
                width: matrix.dimensions.width as int,
                height: matrix.dimensions.height as int,
                wrapping: matrix.wrapping,
            },
            Tile::Transparent(matrix) => matrix@,
        }
    }

    /// A tile of the given extent with 0 in every pixel.
    pub fn new_simple(width: usize, height: usize) -> (tile: Self)
        requires
            width * height <= usize::MAX,
        ensures
            tile.wf(),
            tile matches Tile::Simple(matrix) && matrix.dimensions.width == width
                && matrix.dimensions.height == height && !matrix.wrapping && matrix.values@
                == Seq::new((width * height) as nat, |k: int| 0u32),
    {
        let matrix: Matrix<u32> = Matrix::new(Dimensions { width, height }, false);
        assert(matrix.values@ =~= Seq::new((width * height) as nat, |k: int| 0u32));
        Self::Simple(matrix)
    }

    /// A tile of the given extent with nothing in any pixel.
    pub fn new_transparent(width: usize, height: usize) -> (tile: Self)
        requires
            width * height <= usize::MAX,
        ensures
            tile.wf(),
            tile matches Tile::Transparent(matrix) && matrix.dimensions.width == width
                && matrix.dimensions.height == height && !matrix.wrapping && matrix.values@
                == Seq::new((width * height) as nat, |k: int| None::<u32>),
    {
        let matrix: Matrix<Option<u32>> = Matrix::new(Dimensions { width, height }, false);
        assert(matrix.values@ =~= Seq::new((width * height) as nat, |k: int| None::<u32>));
        Self::Transparent(matrix)
    }

    /// The tile with every pixel filled: a pixel that holds nothing gets
    /// 0. A tile whose pixels all have a value is copied as it is; the
    /// other kind gives a tile that does not wrap.
    pub fn to_simple(&self) -> (tile: Self)
        ensures
            tile matches Tile::Simple(made) && made.dimensions == self.pixels().dimensions()
                && made.values@ == Seq::new(
                self.pixels().cells.len(),
                |k: int|
                    match self.pixels().cells[k] {
                        Some(value) => value,
                        None => 0u32,
                    },
            ) && made.wrapping == (self is Simple && self.pixels().wrapping),
            self.wf() ==> tile.wf(),
    {
        match self {
            Self::Transparent(matrix) => {
                let mut values: Vec<u32> = Vec::new();
                let mut k: usize = 0;
                while k < matrix.values.len()
                    invariant
                        k <= matrix.values@.len(),
                        values@.len() == k,
                        forall|j: int|
                            0 <= j < k ==> #[trigger] values@[j] == match matrix.values@[j] {
                                Some(value) => value,
                                None => 0u32,
                            },
                    decreases matrix.values@.len() - k,
                {
                    values.push(
                        match matrix.values[k] {
                            Some(value) => value,
                            None => 0,
                        },
                    );
                    k += 1;
                }
                let made = Matrix { values, dimensions: matrix.dimensions, wrapping: false };
                assert(made.values@ =~= Seq::new(
                    self.pixels().cells.len(),
                    |k: int|
                        match self.pixels().cells[k] {
                            Some(value) => value,
                            None => 0u32,
                        },
                ));
                Self::Simple(made)
            },
            Self::Simple(matrix) => {
                let made = matrix.clone();
                assert(made.values@ =~= Seq::new(
                    self.pixels().cells.len(),
                    |k: int|
                        match self.pixels().cells[k] {
                            Some(value) => value,
                            None => 0u32,
                        },
                ));
                Self::Simple(made)
            },
        }
    }

    /// The tile with a value or nothing in each pixel: every pixel of a
    /// tile whose pixels all have a value holds its value. A tile of the
    /// other kind is copied as it is; a filled tile gives one that does
    /// not wrap.
    pub fn to_transparent(&self) -> (tile: Self)
        ensures
            tile matches Tile::Transparent(made) && made.dimensions == self.pixels().dimensions()
                && made.values@ == self.pixels().cells && made.wrapping == (self is Transparent
                && self.pixels().wrapping),
            self.wf() ==> tile.wf(),
    {
        match self {
            Self::Simple(matrix) => {
                let mut values: Vec<Option<u32>> = Vec::new();
                let mut k: usize = 0;
                while k < matrix.values.len()
                    invariant
                        k <= matrix.values@.len(),
                        values@.len() == k,
                        forall|j: int| 0 <= j < k ==> #[trigger] values@[j] == Some(matrix.values@[j]),
                    decreases matrix.values@.len() - k,
                {
                    values.push(Some(matrix.values[k]));
                    k += 1;
                }
                let made = Matrix { values, dimensions: matrix.dimensions, wrapping: false };
                assert(made.values@ =~= self.pixels().cells);
                Self::Transparent(made)
            },
            Self::Transparent(matrix) => {
                let made = matrix.clone();
                assert(made.values@ =~= self.pixels().cells);
                Self::Transparent(made)
            },
        }
    }
}

impl Clone for Tile {
    /// The same kind of tile with a copy of the image.
    fn clone(&self) -> (copy: Self)
        ensures
            copy is Simple == self is Simple,
            copy.pixels() == self.pixels(),
    {
        match self {
            Self::Simple(matrix) => {
                let made = matrix.clone();
                assert(made.values@ =~= matrix.values@);
                Self::Simple(made)
            },
            Self::Transparent(matrix) => {
                let made = matrix.clone();
                assert(made.values@ =~= matrix.values@);
                Self::Transparent(made)
            },
        }
    }
}

/// The tiles that a map can name, by number.
pub struct TileLibrary(Vec<Tile>);

impl View for TileLibrary {
    type V = Seq<Tile>;

    closed spec fn view(&self) -> Seq<Tile> {
        self.0@
    }
}

impl TileLibrary {
    /// A library without tiles.
    pub fn new() -> (library: Self)
        ensures
            library@ == Seq::<Tile>::empty(),
    {
        Self(Vec::new())
    }

    /// Puts `tile` behind the tiles that the library holds.
    pub fn add(&mut self, tile: Tile)
        ensures
            final(self)@ == old(self)@.push(tile),
    {
        self.0.push(tile)
    }

    /// The tile with the number `index`, counted from 0 in the order in
    /// which the tiles were added.
    pub fn get(&self, index: usize) -> (tile: Option<&Tile>)
        ensures
            tile == if index < self@.len() {
                Some(&self@[index as int])
            } else {
                None
            },
    {
        if index < self.0.len() {
            Some(&self.0[index])
        } else {
            None
        }
    }
}

/// What the cell at place `k` of `map`, counted row by row, lays on the
/// buffer. A cell that names a tile of `library` lays that tile, in the
/// tile's own extent, with its top left pixel on the cell's column times
/// `tw` and the cell's row times `th`; pixels that hold no value put
/// nothing. Any other cell lays nothing.
pub open spec fn cell_layer(
    map: Grid<Option<usize>>,
    library: Seq<Tile>,
    tw: int,
    th: int,
    k: int,
) -> Layer<u32> {
    match map.cells[k] {
        Some(index) => if index < library.len() {
            Layer {
                items: library[index as int].pixels().cells,
                x: (k % map.width) * tw,
                y: (k / map.width) * th,
                width: library[index as int].pixels().width,
                height: library[index as int].pixels().height,
            }
        } else {
            Layer::nothing()
        },
        None => Layer::nothing(),
    }
}

/// What the cells of `map` lay on the buffer, cell by cell and row by
/// row.
pub open spec fn cell_layers(
    map: Grid<Option<usize>>,
    library: Seq<Tile>,
    tw: int,
    th: int,
) -> Seq<Layer<u32>> {
    Seq::new(map.cells.len(), |k: int| cell_layer(map, library, tw, th, k))
}

/// A map of tiles: which tile of a library lies in which cell, and the
/// pixels that the map is rendered to.
pub struct TileMap {
    /// For each cell the number of its tile, if it has one.
    pub map: Matrix<Option<usize>>,
    /// The width in pixels of the place of a tile.
    tile_width: usize,
    /// The height in pixels of the place of a tile.
    tile_height: usize,
    /// The pixels that the map is rendered to.
    pub buffer: Matrix<u32>,
}

impl TileMap {
    /// The cells of the map: each names a tile of a library, or none.
    pub closed spec fn map(&self) -> Grid<Option<usize>> {
        self.map@
    }

    /// The pixels that the map has been rendered to.
    pub closed spec fn buffer(&self) -> Grid<u32> {
        self.buffer@
    }

    /// The width in pixels of the place of a tile.
    pub closed spec fn tile_width(&self) -> int {
        self.tile_width as int
    }

    /// The height in pixels of the place of a tile.
    pub closed spec fn tile_height(&self) -> int {
        self.tile_height as int
    }

    /// Map and buffer are well formed, and the buffer has a place of a
    /// tile for every cell of the map.
    pub open spec fn wf(&self) -> bool {
        &&& self.map().wf()
        &&& self.buffer().wf()
        &&& self.buffer().width == self.map().width * self.tile_width()
        &&& self.buffer().height == self.map().height * self.tile_height()
    }

    /// A map of `width` by `height` cells that name no tile, with a
    /// buffer of zeros that has `tile_width` by `tile_height` pixels for
    /// each cell.
    pub fn new(width: usize, height: usize, wrapping: bool, tile_width: usize, tile_height: usize) -> (made:
        Self)
        requires
            width * height <= usize::MAX,
            width * tile_width <= usize::MAX,
            height * tile_height <= usize::MAX,
            (width * tile_width) * (height * tile_height) <= usize::MAX,
        ensures
            made.wf(),
            made.tile_width() == tile_width,
            made.tile_height() == tile_height,
            made.map().width == width,
            made.map().height == height,
            made.map().wrapping == wrapping,
            made.buffer().wrapping == wrapping,
            made.map().cells == Seq::new((width * height) as nat, |k: int| None::<usize>),
            made.buffer().cells == Seq::new(
                ((width * tile_width) * (height * tile_height)) as nat,
                |k: int| 0u32,
            ),
    {
        let map: Matrix<Option<usize>> = Matrix::new(Dimensions { width, height }, wrapping);
        let buffer: Matrix<u32> = Matrix::new(
            Dimensions { width: width * tile_width, height: height * tile_height },
            wrapping,
        );
        assert(map.values@ =~= Seq::new((width * height) as nat, |k: int| None::<usize>));
        assert(buffer.values@ =~= Seq::new(
            ((width * tile_width) * (height * tile_height)) as nat,
            |k: int| 0u32,
        ));
        Self { map, tile_width, tile_height, buffer }
    }

    /// Renders the map to the buffer: every cell that names a tile of
    /// `tile_library` has that tile laid on its place in the buffer, cell
    /// by cell and row by row. A tile whose pixels all have a value
    /// replaces what lies under it; of the other kind only the pixels
    /// that have a value are written. Cells that name no tile of the
    /// library leave the buffer as it is.
    pub fn update_buffer(&mut self, tile_library: &TileLibrary)
        requires
            old(self).wf(),
            forall|k: int| 0 <= k < tile_library@.len() ==> (#[trigger] tile_library@[k]).wf(),
        ensures
            final(self).wf(),
            final(self).map() == old(self).map(),
            final(self).tile_width() == old(self).tile_width(),
            final(self).tile_height() == old(self).tile_height(),
            final(self).buffer() == old(self).buffer().laid_all(
                cell_layers(
                    old(self).map(),
                    tile_library@,
                    old(self).tile_width(),
                    old(self).tile_height(),
                ),
            ),
            final(self).buffer().laid_all(
                cell_layers(
                    old(self).map(),
                    tile_library@,
                    old(self).tile_width(),
                    old(self).tile_height(),
                ),
            ) == final(self).buffer(),
    {
        let cells = self.map.enumerated();
        let ghost map = self.map@;
        let ghost before = self.buffer@;
        let ghost tw = self.tile_width as int;
        let ghost th = self.tile_height as int;
        let ghost layers = cell_layers(map, tile_library@, tw, th);
        let mut k: usize = 0;
        while k < cells.len()
            invariant
                self.map@ == map,
                map.wf(),
                before.wf(),
                map == old(self).map@,
                before == old(self).buffer@,
                self.tile_width == old(self).tile_width,
                self.tile_height == old(self).tile_height,
                tw == self.tile_width,
                th == self.tile_height,
                before.width == map.width * tw,
                before.height == map.height * th,
                forall|j: int| 0 <= j < tile_library@.len() ==> (#[trigger] tile_library@[j]).wf(),
                cells@.len() == map.cells.len(),
                forall|j: int|
                    0 <= j < cells@.len() ==> {
                        &&& (#[trigger] cells@[j]).0.x == j % map.width
                        &&& cells@[j].0.y == j / map.width
                        &&& *cells@[j].1 == map.cells[j]
                    },
                k <= cells@.len(),
                layers == cell_layers(map, tile_library@, tw, th),
                self.buffer.wf(),
                self.buffer@ == before.laid_all(layers.take(k as int)),
            decreases cells@.len() - k,
        {
            let x: usize = cells[k].0.x;
            let y: usize = cells[k].0.y;
            proof {
                before.lemma_laid_all(layers.take(k as int));
                before.lemma_laid_next(layers, k as int);
                lemma_offset_join(map.width, map.height, k as int);
                assert(x * tw <= map.width * tw && y * th <= map.height * th) by (nonlinear_arith)
                    requires
                        0 <= x < map.width,
                        0 <= y < map.height,
                        0 <= tw,
                        0 <= th,
                ;
            }
            let named: Option<&Tile> = match cells[k].1 {
                Some(index) => tile_library.get(*index),
                None => None,
            };
            match named {
                Some(tile) => {
                    let place = Position { x: x * self.tile_width, y: y * self.tile_height };
                    match tile {
                        Tile::Simple(m) => {
                            self.buffer.overlay(m, place);
                            assert(tile.pixels().cells =~= present(m.values@));
                        },
                        Tile::Transparent(m) => {
                            self.buffer.transparent_overlay(m, place);
                        },
                    }
                },
                None => {
                    proof {
                        self.buffer@.lemma_laid_nothing(layers[k as int]);
                    }
                },
            }
            k += 1;
        }
        proof {
            assert(layers.take(k as int) =~= layers);
            before.lemma_laid_all(layers);
            before.lemma_laid_all_again(layers);
        }
    }
}

} // verus!
