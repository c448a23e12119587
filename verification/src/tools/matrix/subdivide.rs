//! The division of a grid into equal parts.

use super::layer::{present, Layer};
use super::layout::{clip, lemma_offset_in_storage, lemma_offset_join, lemma_offset_split};
use super::{clones, Grid, Matrix};
use crate::tools::transform::{Dimensions, Position};
use vstd::prelude::*;

verus! {

/// Part number `i` of `count` equal parts of `length` cells, each
/// `length / count` long, lies inside the length.
pub proof fn lemma_part_inside(length: int, count: int, i: int)
    requires
        0 <= length,
        0 <= i < count,
    ensures
        0 <= i * (length / count),
        i * (length / count) + length / count <= length,
        clip(i * (length / count), length / count, length) == length / count,
{
    let part = length / count;
    vstd::arithmetic::div_mod::lemma_fundamental_div_mod(length, count);
    vstd::arithmetic::div_mod::lemma_mod_bound(length, count);
    vstd::arithmetic::div_mod::lemma_div_pos_is_pos(length, count);
    assert(0 <= i * part && i * part + part <= count * part) by (nonlinear_arith)
        requires
            0 <= i < count,
            0 <= part,
    ;
}

/// The layers that lay the parts of `grid`, cut into `columns` by `rows`
/// parts, back where they were cut, part by part and row by row.
pub open spec fn part_layers<T>(grid: Grid<T>, columns: int, rows: int) -> Seq<Layer<T>> {
    let w = grid.width / columns;
    let h = grid.height / rows;
    Seq::new(
        (columns * rows) as nat,
        |k: int|
            Layer {
                items: present(grid.clamp((k % columns) * w, (k / columns) * h, w, h)),
                x: (k % columns) * w,
                y: (k / columns) * h,
                width: w,
                height: h,
            },
    )
}

/// The part in which a cell lies: where the parts are `part` cells long,
/// the cell at `at` lies in the part with the number `at / part`, at
/// place `at % part` of it.
proof fn lemma_part_of(at: int, part: int, count: int)
    requires
        0 <= at < count * part,
        0 <= count,
    ensures
        0 < part,
        0 <= at / part < count,
        0 <= at % part < part,
        (at / part) * part + at % part == at,
{
    assert(0 < part) by (nonlinear_arith)
        requires
            0 <= at < count * part,
            0 <= count,
    ;
    assert(count * part == part * count) by (nonlinear_arith);
    lemma_offset_join(part, count, at);
}

/// A cell lies in one part only: the part `i` in which the cell at `at`
/// lies has the number `at / part`.
proof fn lemma_only_part(at: int, part: int, i: int)
    requires
        0 < part,
        i * part <= at < i * part + part,
    ensures
        i == at / part,
{
    vstd::arithmetic::div_mod::lemma_fundamental_div_mod_converse(at, part, i, at - i * part);
}

/// The parts of a grid that divides evenly, laid back where they were
/// cut on any grid of the same extent, give the cells of the divided grid
/// in their order.
pub proof fn lemma_parts_make_the_whole<T>(grid: Grid<T>, under: Grid<T>, columns: int, rows: int)
    requires
        grid.wf(),
        under.wf(),
        under.width == grid.width,
        under.height == grid.height,
        0 < columns,
        0 < rows,
        grid.width == columns * (grid.width / columns),
        grid.height == rows * (grid.height / rows),
    ensures
        under.laid_all(part_layers(grid, columns, rows)) == under.with_cells(grid.cells),
{
    let w = grid.width / columns;
    let h = grid.height / rows;
    let layers = part_layers(grid, columns, rows);
    let whole = under.laid_all(layers);
    under.lemma_laid_all(layers);
    assert forall|x: int, y: int| whole.holds(x, y) implies whole.at(x, y) == under.with_cells(
        grid.cells,
    ).at(x, y) by {
        lemma_part_of(x, w, columns);
        lemma_part_of(y, h, rows);
        let sx = x / w;
        let sy = y / h;
        let k = sy * columns + sx;
        lemma_offset_in_storage(columns, rows, sx, sy);
        lemma_offset_split(columns, sx, sy);
        lemma_part_inside(grid.width, columns, sx);
        lemma_part_inside(grid.height, rows, sy);
        lemma_offset_in_storage(w, h, x % w, y % h);
        lemma_offset_split(w, x % w, y % h);
        assert((y - sy * h) * w + (x - sx * w) == (y % h) * w + x % w);
        assert(layers[k].at(x, y) == Some(grid.at(x, y)));
        assert forall|n: int| k < n < layers.len() implies (#[trigger] layers[n]).at(x, y)
            is None by {
            lemma_offset_join(columns, rows, n);
            if layers[n].at(x, y) is Some {
                lemma_only_part(x, w, n % columns);
                lemma_only_part(y, h, n / columns);
            }
        }
        under.lemma_last_layer(layers, x, y, k);
    }
    whole.lemma_same_cells(under.with_cells(grid.cells));
}

impl<T: Default + Clone> Matrix<T> {
    /// Divides the grid into a grid of grids.
    ///
    /// The grid is cut into `subdivision_quantities.width` columns and
    /// `subdivision_quantities.height` rows of parts of one size, the
    /// grid's extent divided by the counts and rounded down; what is left
    /// over at the right and at the bottom belongs to no part. The parts
    /// stand row by row, each a grid of its own that does not wrap and
    /// holds copies of the cells.
    pub fn subdivide_matrix(&self, subdivision_quantities: Dimensions) -> (parts: Matrix<Self>)
        requires
            self.wf(),
            subdivision_quantities.countable(),
        ensures
            parts.wf(),
            parts.dimensions == subdivision_quantities,
            parts.wrapping == self.wrapping,
            forall|k: int|
                0 <= k < parts.values@.len() ==> {
                    let part = #[trigger] parts.values@[k];
                    let w = self.dimensions.width as int / subdivision_quantities.width as int;
                    let h = self.dimensions.height as int / subdivision_quantities.height as int;
                    &&& part.wf()
                    &&& !part.wrapping
                    &&& part.dimensions.width == w
                    &&& part.dimensions.height == h
                    &&& clones(
                        self@.clamp(
                            (k % subdivision_quantities.width as int) * w,
                            (k / subdivision_quantities.width as int) * h,
                            w,
                            h,
                        ),
                        part.values@,
                    )
                },
    {
        let columns: usize = subdivision_quantities.width;
        let rows: usize = subdivision_quantities.height;
        proof {
            subdivision_quantities.lemma_countable();
        }
        let mut values: Vec<Self> = Vec::new();
        if columns == 0 || rows == 0 {
            assert(columns * rows == 0) by (nonlinear_arith)
                requires
                    columns == 0 || rows == 0,
            ;
            return Matrix { values, dimensions: subdivision_quantities, wrapping: self.wrapping };
        }
        let w: usize = self.dimensions.width / columns;
        let h: usize = self.dimensions.height / rows;
        let mut y: usize = 0;
        while y < rows
            invariant
                self.wf(),
                columns == subdivision_quantities.width,
                rows == subdivision_quantities.height,
                columns > 0,
                rows > 0,
                w == self.dimensions.width as int / columns as int,
                h == self.dimensions.height as int / rows as int,
                y <= rows,
                values@.len() == y * columns,
                forall|k: int|
                    0 <= k < values@.len() ==> {
                        let part = #[trigger] values@[k];
                        &&& part.wf()
                        &&& !part.wrapping
                        &&& part.dimensions.width == w
                        &&& part.dimensions.height == h
                        &&& clones(
                            self@.clamp((k % columns as int) * w, (k / columns as int) * h, w as int, h as int),
                            part.values@,
                        )
                    },
            decreases rows - y,
        {
            let mut x: usize = 0;
            while x < columns
                invariant
                    self.wf(),
                    columns == subdivision_quantities.width,
                    rows == subdivision_quantities.height,
                    columns > 0,
                    rows > 0,
                    w == self.dimensions.width as int / columns as int,
                    h == self.dimensions.height as int / rows as int,
                    y < rows,
                    x <= columns,
                    values@.len() == y * columns + x,
                    forall|k: int|
                        0 <= k < values@.len() ==> {
                            let part = #[trigger] values@[k];
                            &&& part.wf()
                            &&& !part.wrapping
                            &&& part.dimensions.width == w
                            &&& part.dimensions.height == h
                            &&& clones(
                                self@.clamp(
                                    (k % columns as int) * w,
                                    (k / columns as int) * h,
                                    w as int,
                                    h as int,
                                ),
                                part.values@,
                            )
                        },
                decreases columns - x,
            {
                proof {
                    lemma_part_inside(self.dimensions.width as int, columns as int, x as int);
                    lemma_part_inside(self.dimensions.height as int, rows as int, y as int);
                    lemma_offset_split(columns as int, x as int, y as int);
                }
                let part = self.clamp_to_matrix(
                    Position { x: x * w, y: y * h },
                    Dimensions { width: w, height: h },
                );
                values.push(part);
                x += 1;
            }
            assert((y + 1) * columns == y * columns + columns) by (nonlinear_arith);
            y += 1;
        }
        proof {
            assert(rows * columns == columns * rows) by (nonlinear_arith);
        }
        Matrix { values, dimensions: subdivision_quantities, wrapping: self.wrapping }
    }
}

} // verus!
