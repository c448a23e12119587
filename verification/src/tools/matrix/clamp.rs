//! Rectangles cut out of a grid: clipped at the border or wrapped round
//! it, listed or copied.

use super::layout::{clip, lemma_clip_area, lemma_offset_join, lemma_offset_split, offset};
use super::{clones, Grid, Matrix};
use crate::tools::transform::{Dimensions, Position};
use vstd::prelude::*;
use vstd::std_specs::iter::IteratorSpec;

verus! {

impl<T> Grid<T> {
    /// The cells of the rectangle that starts at `(x, y)` and is `w` wide
    /// and `h` high, as far as it lies inside the grid, row by row.
    pub open spec fn clamp(self, x: int, y: int, w: int, h: int) -> Seq<T> {
        let cw = clip(x, w, self.width);
        let ch = clip(y, h, self.height);
        Seq::new((cw * ch) as nat, |k: int| self.at(x + k % cw, y + k / cw))
    }

    /// The cells of the rectangle that starts at `(x, y)` and is `w` wide
    /// and `h` high, row by row, where columns and rows past the border
    /// start again at the other side. A grid without cells gives none.
    pub open spec fn clamp_wrap(self, x: int, y: int, w: int, h: int) -> Seq<T> {
        if self.width > 0 && self.height > 0 {
            Seq::new((w * h) as nat, |k: int| self.at((x + k % w) % self.width, (y + k / w) % self.height))
        } else {
            Seq::empty()
        }
    }
}

/// `(a + 1) % m`, from `a % m`.
pub proof fn lemma_mod_step(a: int, m: int)
    requires
        0 <= a,
        0 < m,
    ensures
        (a + 1) % m == if a % m + 1 == m {
            0
        } else {
            a % m + 1
        },
        0 <= a % m < m,
{
    vstd::arithmetic::div_mod::lemma_fundamental_div_mod(a, m);
    vstd::arithmetic::div_mod::lemma_mod_bound(a, m);
    let q = a / m;
    let r = a % m;
    assert(m * q == q * m) by (nonlinear_arith);
    if r + 1 == m {
        assert(a + 1 == (q + 1) * m + 0) by (nonlinear_arith)
            requires
                a == q * m + r,
                r + 1 == m,
        ;
        vstd::arithmetic::div_mod::lemma_fundamental_div_mod_converse(a + 1, m, q + 1, 0);
    } else {
        vstd::arithmetic::div_mod::lemma_fundamental_div_mod_converse(a + 1, m, q, r + 1);
    }
}

/// The position that the numbering functions give to the element at
/// place `k` of a listing that starts at `position`: the start, moved by
/// the column and the row that `k` has in a grid `width` cells wide.
pub open spec fn numbered(position: Position, width: int, k: int) -> (int, int) {
    (position.x + k % width, position.y + k / width)
}

/// How much of `extent` cells, counted from `start`, lies below `limit`.
pub(crate) fn clipped(start: usize, extent: usize, limit: usize) -> (kept: usize)
    ensures
        kept == clip(start as int, extent as int, limit as int),
{
    if start >= limit {
        0
    } else if extent <= limit - start {
        extent
    } else {
        limit - start
    }
}

impl<T: Default + Clone> Matrix<T> {
    /// A rectangle `w` wide and `h` high at `(x, y)` that lies inside the
    /// grid: the place of its cell number `k`, counted row by row, is the
    /// place of a cell of the grid.
    proof fn lemma_rect_cell(&self, x: int, y: int, w: int, h: int, i: int, j: int)
        requires
            self.wf(),
            0 <= x,
            0 <= y,
            x + w <= self.dimensions.width,
            y + h <= self.dimensions.height,
            0 <= i < w,
            0 <= j < h,
        ensures
            offset(w, i, j) % w == i,
            offset(w, i, j) / w == j,
            0 <= j * w,
            j * w + i == offset(w, i, j),
            0 <= (y + j) * self.dimensions.width,
            (y + j) * self.dimensions.width + (x + i) == offset(self.dimensions.width as int, x + i, y + j),
            offset(self.dimensions.width as int, x + i, y + j) < self.values@.len() <= usize::MAX,
    {
        lemma_offset_split(w, i, j);
        self.lemma_cell_in_storage(x + i, y + j);
        assert(0 <= j * w) by (nonlinear_arith)
            requires
                0 <= j,
                0 <= w,
        ;
    }

    /// The values of the rectangle at `position` with the extent
    /// `dimensions`, row by row, as far as the rectangle lies inside the
    /// grid: there may be fewer than the extent says, or none.
    pub fn clamp(&self, position: Position, dimensions: Dimensions) -> (iter: std::vec::IntoIter<
        &T,
    >)
        requires
            self.wf(),
        ensures
            iter.obeys_prophetic_iter_laws(),
            iter.decrease() is Some,
            iter.remaining().unref() == self@.clamp(
                position.x as int,
                position.y as int,
                dimensions.width as int,
                dimensions.height as int,
            ),
    {
        let cells = self.clamped(position, dimensions);
        let iter = cells.into_iter();
        assert(iter.remaining().unref() =~= cells@.unref());
        iter
    }

    /// The values that [`Matrix::clamp`] lists.
    pub(crate) fn clamped(&self, position: Position, dimensions: Dimensions) -> (cells: Vec<&T>)
        requires
            self.wf(),
        ensures
            cells@.unref() == self@.clamp(
                position.x as int,
                position.y as int,
                dimensions.width as int,
                dimensions.height as int,
            ),
    {
        let width: usize = self.dimensions.width;
        let cw: usize = clipped(position.x, dimensions.width, width);
        let ch: usize = clipped(position.y, dimensions.height, self.dimensions.height);
        let ghost expected = self@.clamp(
            position.x as int,
            position.y as int,
            dimensions.width as int,
            dimensions.height as int,
        );
        let mut cells: Vec<&T> = Vec::new();
        let mut j: usize = 0;
        while j < ch
            invariant
                self.wf(),
                width == self.dimensions.width,
                cw == clip(position.x as int, dimensions.width as int, width as int),
                ch == clip(position.y as int, dimensions.height as int, self.dimensions.height as int),
                expected == self@.clamp(
                    position.x as int,
                    position.y as int,
                    dimensions.width as int,
                    dimensions.height as int,
                ),
                j <= ch,
                cells@.len() == j * cw,
                forall|k: int| 0 <= k < cells@.len() ==> *(#[trigger] cells@[k]) == expected[k],
            decreases ch - j,
        {
            let mut i: usize = 0;
            while i < cw
                invariant
                    self.wf(),
                    width == self.dimensions.width,
                    cw == clip(position.x as int, dimensions.width as int, width as int),
                    ch == clip(position.y as int, dimensions.height as int, self.dimensions.height as int),
                    expected == self@.clamp(
                        position.x as int,
                        position.y as int,
                        dimensions.width as int,
                        dimensions.height as int,
                    ),
                    j < ch,
                    i <= cw,
                    cells@.len() == j * cw + i,
                    forall|k: int| 0 <= k < cells@.len() ==> *(#[trigger] cells@[k]) == expected[k],
                decreases cw - i,
            {
                proof {
                    self.lemma_rect_cell(
                        position.x as int,
                        position.y as int,
                        cw as int,
                        ch as int,
                        i as int,
                        j as int,
                    );
                    assert(j * cw + i < cw * ch) by (nonlinear_arith)
                        requires
                            0 <= i < cw,
                            0 <= j < ch,
                    ;
                }
                cells.push(&self.values[(position.y + j) * width + (position.x + i)]);
                i += 1;
            }
            assert((j + 1) * cw == j * cw + cw) by (nonlinear_arith);
            j += 1;
        }
        proof {
            assert(ch * cw == cw * ch) by (nonlinear_arith);
            assert(cells@.unref() =~= expected);
        }
        cells
    }

    /// The cell that [`Matrix::clamp`] lists at place `index`, open for
    /// writing; `None` past the last cell of the rectangle.
    pub fn clamp_mut(&mut self, position: Position, dimensions: Dimensions, index: usize) -> (found:
        Option<&mut T>)
        requires
            old(self).wf(),
        ensures
            ({
                let cw = clip(
                    position.x as int,
                    dimensions.width as int,
                    old(self).dimensions.width as int,
                );
                let ch = clip(
                    position.y as int,
                    dimensions.height as int,
                    old(self).dimensions.height as int,
                );
                if index < cw * ch {
                    let place = offset(
                        old(self).dimensions.width as int,
                        position.x + index as int % cw,
                        position.y + index as int / cw,
                    );
                    &&& found matches Some(cell) && *cell == old(self).values@[place]
                        && final(self)@ == old(self)@.with_cells(
                        old(self).values@.update(place, *final(cell)),
                    )
                    &&& 0 <= place < old(self).values@.len()
                } else {
                    found is None && *final(self) == *old(self)
                }
            }),
    {
        let width: usize = self.dimensions.width;
        let cw: usize = clipped(position.x, dimensions.width, width);
        let ch: usize = clipped(position.y, dimensions.height, self.dimensions.height);
        proof {
            lemma_clip_area(
                position.x as int,
                dimensions.width as int,
                width as int,
                position.y as int,
                dimensions.height as int,
                self.dimensions.height as int,
            );
            assert(self.values.len() == self.values@.len());
        }
        if index < cw * ch {
            proof {
                lemma_offset_join(cw as int, ch as int, index as int);
                self.lemma_rect_cell(
                    position.x as int,
                    position.y as int,
                    cw as int,
                    ch as int,
                    index as int % cw as int,
                    index as int / cw as int,
                );
            }
            let place: usize = (position.y + index / cw) * width + (position.x + index % cw);
            Some(&mut self.values[place])
        } else {
            None
        }
    }

    /// The values of the rectangle at `position` with the extent
    /// `dimensions`, row by row; columns and rows past the border start
    /// again at the other side. A grid without cells gives none.
    pub fn clamp_wrap(&self, position: Position, dimensions: Dimensions) -> (iter: std::vec::IntoIter<
        &T,
    >)
        requires
            self.wf(),
            self.dimensions.width > 0 && self.dimensions.height > 0 ==> dimensions.countable(),
        ensures
            iter.obeys_prophetic_iter_laws(),
            iter.decrease() is Some,
            iter.remaining().unref() == self@.clamp_wrap(
                position.x as int,
                position.y as int,
                dimensions.width as int,
                dimensions.height as int,
            ),
    {
        let cells = self.clamped_wrap(position, dimensions);
        let iter = cells.into_iter();
        assert(iter.remaining().unref() =~= cells@.unref());
        iter
    }

    /// The values that [`Matrix::clamp_wrap`] lists.
    pub(crate) fn clamped_wrap(&self, position: Position, dimensions: Dimensions) -> (cells: Vec<
        &T,
    >)
        requires
            self.wf(),
            self.dimensions.width > 0 && self.dimensions.height > 0 ==> dimensions.countable(),
        ensures
            cells@.unref() == self@.clamp_wrap(
                position.x as int,
                position.y as int,
                dimensions.width as int,
                dimensions.height as int,
            ),
    {
        let width: usize = self.dimensions.width;
        let height: usize = self.dimensions.height;
        let mut cells: Vec<&T> = Vec::new();
        if width == 0 || height == 0 {
            assert(cells@.unref() =~= Seq::<T>::empty());
            return cells;
        }
        let w: usize = dimensions.width;
        let h: usize = dimensions.height;
        proof {
            dimensions.lemma_countable();
        }
        let ghost expected = self@.clamp_wrap(
            position.x as int,
            position.y as int,
            w as int,
            h as int,
        );
        let mut row: usize = position.y % height;
        let mut j: usize = 0;
        while j < h
            invariant
                self.wf(),
                width == self.dimensions.width,
                height == self.dimensions.height,
                width > 0,
                height > 0,
                w * h <= usize::MAX,
                expected == self@.clamp_wrap(position.x as int, position.y as int, w as int, h as int),
                j <= h,
                row == (position.y + j) % height as int,
                cells@.len() == j * w,
                forall|k: int| 0 <= k < cells@.len() ==> *(#[trigger] cells@[k]) == expected[k],
            decreases h - j,
        {
            let mut column: usize = position.x % width;
            let mut i: usize = 0;
            while i < w
                invariant
                    self.wf(),
                    width == self.dimensions.width,
                    height == self.dimensions.height,
                    width > 0,
                    height > 0,
                    w * h <= usize::MAX,
                    expected == self@.clamp_wrap(
                        position.x as int,
                        position.y as int,
                        w as int,
                        h as int,
                    ),
                    j < h,
                    i <= w,
                    row == (position.y + j) % height as int,
                    column == (position.x + i) % width as int,
                    cells@.len() == j * w + i,
                    forall|k: int| 0 <= k < cells@.len() ==> *(#[trigger] cells@[k]) == expected[k],
                decreases w - i,
            {
                proof {
                    lemma_offset_split(w as int, i as int, j as int);
                    self.lemma_cell_in_storage(column as int, row as int);
                    assert(j * w + i < w * h) by (nonlinear_arith)
                        requires
                            0 <= i < w,
                            0 <= j < h,
                    ;
                    lemma_mod_step(position.x + i, width as int);
                }
                cells.push(&self.values[row * width + column]);
                column = if column + 1 == width {
                    0
                } else {
                    column + 1
                };
                i += 1;
            }
            proof {
                assert((j + 1) * w == j * w + w) by (nonlinear_arith);
                lemma_mod_step(position.y + j, height as int);
            }
            row = if row + 1 == height {
                0
            } else {
                row + 1
            };
            j += 1;
        }
        proof {
            assert(h * w == w * h) by (nonlinear_arith);
            assert(cells@.unref() =~= expected);
        }
        cells
    }

    /// A grid of its own that holds copies of the cells of the rectangle
    /// at `position` with the extent `dimensions`, as far as the rectangle
    /// lies inside this grid. Its extent is that of the part inside, and
    /// it does not wrap.
    pub fn clamp_to_matrix(&self, position: Position, dimensions: Dimensions) -> (part: Self)
        requires
            self.wf(),
        ensures
            part.wf(),
            !part.wrapping,
            part.dimensions.width == clip(
                position.x as int,
                dimensions.width as int,
                self.dimensions.width as int,
            ),
            part.dimensions.height == clip(
                position.y as int,
                dimensions.height as int,
                self.dimensions.height as int,
            ),
            clones(
                self@.clamp(
                    position.x as int,
                    position.y as int,
                    dimensions.width as int,
                    dimensions.height as int,
                ),
                part.values@,
            ),
    {
        let width: usize = self.dimensions.width;
        let cw: usize = clipped(position.x, dimensions.width, width);
        let ch: usize = clipped(position.y, dimensions.height, self.dimensions.height);
        let ghost expected = self@.clamp(
            position.x as int,
            position.y as int,
            dimensions.width as int,
            dimensions.height as int,
        );
        let mut values: Vec<T> = Vec::new();
        let mut j: usize = 0;
        while j < ch
            invariant
                self.wf(),
                width == self.dimensions.width,
                cw == clip(position.x as int, dimensions.width as int, width as int),
                ch == clip(position.y as int, dimensions.height as int, self.dimensions.height as int),
                expected == self@.clamp(
                    position.x as int,
                    position.y as int,
                    dimensions.width as int,
                    dimensions.height as int,
                ),
                j <= ch,
                values@.len() == j * cw,
                forall|k: int| 0 <= k < values@.len() ==> cloned(expected[k], #[trigger] values@[k]),
            decreases ch - j,
        {
            let mut i: usize = 0;
            while i < cw
                invariant
                    self.wf(),
                    width == self.dimensions.width,
                    cw == clip(position.x as int, dimensions.width as int, width as int),
                    ch == clip(position.y as int, dimensions.height as int, self.dimensions.height as int),
                    expected == self@.clamp(
                        position.x as int,
                        position.y as int,
                        dimensions.width as int,
                        dimensions.height as int,
                    ),
                    j < ch,
                    i <= cw,
                    values@.len() == j * cw + i,
                    forall|k: int|
                        0 <= k < values@.len() ==> cloned(expected[k], #[trigger] values@[k]),
                decreases cw - i,
            {
                proof {
                    self.lemma_rect_cell(
                        position.x as int,
                        position.y as int,
                        cw as int,
                        ch as int,
                        i as int,
                        j as int,
                    );
                    assert(j * cw + i < cw * ch) by (nonlinear_arith)
                        requires
                            0 <= i < cw,
                            0 <= j < ch,
                    ;
                }
                values.push(self.values[(position.y + j) * width + (position.x + i)].clone());
                i += 1;
            }
            assert((j + 1) * cw == j * cw + cw) by (nonlinear_arith);
            j += 1;
        }
        proof {
            assert(ch * cw == cw * ch) by (nonlinear_arith);
        }
        Self { dimensions: Dimensions { width: cw, height: ch }, values, wrapping: false }
    }

    /// Pairs each element of `listed` with its numbered position.
    fn number<'a>(&self, listed: Vec<&'a T>, position: Position) -> (cells: Vec<(Position, &'a T)>)
        requires
            listed@.len() > 0 ==> self.dimensions.width > 0,
            forall|k: int|
                0 <= k < listed@.len() ==> {
                    let place = #[trigger] numbered(position, self.dimensions.width as int, k);
                    place.0 <= usize::MAX && place.1 <= usize::MAX
                },
        ensures
            cells@.len() == listed@.len(),
            forall|k: int|
                0 <= k < cells@.len() ==> {
                    &&& (#[trigger] cells@[k]).0.x == numbered(
                        position,
                        self.dimensions.width as int,
                        k,
                    ).0
                    &&& cells@[k].0.y == numbered(position, self.dimensions.width as int, k).1
                    &&& *cells@[k].1 == *listed@[k]
                },
    {
        let width: usize = self.dimensions.width;
        let mut cells: Vec<(Position, &'a T)> = Vec::new();
        let mut k: usize = 0;
        while k < listed.len()
            invariant
                width == self.dimensions.width,
                listed@.len() > 0 ==> width > 0,
                forall|n: int|
                    0 <= n < listed@.len() ==> {
                        let place = #[trigger] numbered(position, width as int, n);
                        place.0 <= usize::MAX && place.1 <= usize::MAX
                    },
                k <= listed@.len(),
                cells@.len() == k,
                forall|n: int|
                    0 <= n < k ==> {
                        &&& (#[trigger] cells@[n]).0.x == numbered(position, width as int, n).0
                        &&& cells@[n].0.y == numbered(position, width as int, n).1
                        &&& *cells@[n].1 == *listed@[n]
                    },
            decreases listed@.len() - k,
        {
            assert(numbered(position, width as int, k as int).0 <= usize::MAX);
            let place = Position { x: position.x + k % width, y: position.y + k / width };
            cells.push((place, listed[k]));
            k += 1;
        }
        cells
    }

    /// The values that [`Matrix::clamp`] lists, each with a position.
    ///
    /// The element at place `k` of [`Matrix::clamp`] comes with the
    /// position [`numbered`] `k` from `position`, by this grid's width.
    pub fn enumerate_clamp(&self, position: Position, dimensions: Dimensions) -> (iter: std::vec::IntoIter<
        (Position, &T),
    >)
        requires
            self.wf(),
            forall|k: int|
                0 <= k < clip(position.x as int, dimensions.width as int, self.dimensions.width as int)
                    * clip(
                    position.y as int,
                    dimensions.height as int,
                    self.dimensions.height as int,
                ) ==> {
                    let place = #[trigger] numbered(position, self.dimensions.width as int, k);
                    place.0 <= usize::MAX && place.1 <= usize::MAX
                },
        ensures
            iter.obeys_prophetic_iter_laws(),
            iter.decrease() is Some,
            ({
                let listed = self@.clamp(
                    position.x as int,
                    position.y as int,
                    dimensions.width as int,
                    dimensions.height as int,
                );
                &&& iter.remaining().len() == listed.len()
                &&& forall|k: int|
                    0 <= k < iter.remaining().len() ==> {
                        &&& (#[trigger] iter.remaining()[k]).0.x == numbered(
                            position,
                            self.dimensions.width as int,
                            k,
                        ).0
                        &&& iter.remaining()[k].0.y == numbered(position, self.dimensions.width as int, k).1
                        &&& *iter.remaining()[k].1 == listed[k]
                    }
            }),
    {
        let listed = self.clamped(position, dimensions);
        proof {
            lemma_clip_area(
                position.x as int,
                dimensions.width as int,
                self.dimensions.width as int,
                position.y as int,
                dimensions.height as int,
                self.dimensions.height as int,
            );
            assert(listed@.unref().len() == listed@.len());
            if listed@.len() > 0 && self.dimensions.width == 0 {
                assert(clip(position.x as int, dimensions.width as int, 0) == 0);
                assert(0 * clip(
                    position.y as int,
                    dimensions.height as int,
                    self.dimensions.height as int,
                ) == 0);
            }
            assert forall|k: int| 0 <= k < listed@.len() implies *listed@[k] == self@.clamp(
                position.x as int,
                position.y as int,
                dimensions.width as int,
                dimensions.height as int,
            )[k] by {
                assert(listed@.unref()[k] == *listed@[k]);
            }
        }
        self.number(listed, position).into_iter()
    }

    /// The values that [`Matrix::clamp_wrap`] lists, each with a position.
    ///
    /// The element at place `k` of [`Matrix::clamp_wrap`] comes with the
    /// position [`numbered`] `k` from `position`, by this grid's width.
    pub fn enumerate_clamp_wrap(&self, position: Position, dimensions: Dimensions) -> (iter: std::vec::IntoIter<
        (Position, &T),
    >)
        requires
            self.wf(),
            self.dimensions.width > 0 && self.dimensions.height > 0 ==> dimensions.countable(),
            self.dimensions.width > 0 && self.dimensions.height > 0 ==> forall|k: int|
                0 <= k < dimensions.spec_area() ==> {
                    let place = #[trigger] numbered(position, self.dimensions.width as int, k);
                    place.0 <= usize::MAX && place.1 <= usize::MAX
                },
        ensures
            iter.obeys_prophetic_iter_laws(),
            iter.decrease() is Some,
            ({
                let listed = self@.clamp_wrap(
                    position.x as int,
                    position.y as int,
                    dimensions.width as int,
                    dimensions.height as int,
                );
                &&& iter.remaining().len() == listed.len()
                &&& forall|k: int|
                    0 <= k < iter.remaining().len() ==> {
                        &&& (#[trigger] iter.remaining()[k]).0.x == numbered(
                            position,
                            self.dimensions.width as int,
                            k,
                        ).0
                        &&& iter.remaining()[k].0.y == numbered(position, self.dimensions.width as int, k).1
                        &&& *iter.remaining()[k].1 == listed[k]
                    }
            }),
    {
        let listed = self.clamped_wrap(position, dimensions);
        proof {
            assert(listed@.unref().len() == listed@.len());
            assert forall|k: int| 0 <= k < listed@.len() implies *listed@[k] == self@.clamp_wrap(
                position.x as int,
                position.y as int,
                dimensions.width as int,
                dimensions.height as int,
            )[k] by {
                assert(listed@.unref()[k] == *listed@[k]);
            }
        }
        self.number(listed, position).into_iter()
    }
}

} // verus!
