//! The eight ways to lay a grid on itself: the reflections, the quarter
//! turns, the half turn and leaving it as it is.
//!
//! Each is given by the cell of the old grid that a cell of the new grid
//! shows. The functions of this file arrange a grid's cells by any of the
//! eight; the reflections and rotations of [`Matrix`] are built on them.

use super::layout::{lemma_offset_in_storage, lemma_offset_join, lemma_offset_split, offset};
use super::{Grid, Matrix};
use crate::tools::transform::Rotation;
use vstd::prelude::*;

verus! {

/// One of the eight arrangements of a grid.
#[derive(Clone, Copy, Debug)]
pub enum Arrangement {
    /// Every cell stays.
    Identity,
    /// The rows in reverse order.
    ReflectVertical,
    /// Each row in reverse order.
    ReflectHorizontal,
    /// Columns become rows: the cell `(x, y)` shows the old `(y, x)`.
    ReflectDiagonal,
    /// Columns become rows, both in reverse order.
    ReflectNegativeDiagonal,
    /// The quarter turn made of `ReflectDiagonal`, then `ReflectVertical`.
    RotateRight,
    /// The quarter turn that undoes `RotateRight`.
    RotateLeft,
    /// The half turn.
    Rotate180,
}

impl Arrangement {
    /// Whether the new grid is as wide as the old one was high, and as
    /// high as it was wide.
    pub open spec fn transposes(self) -> bool {
        match self {
            Arrangement::ReflectDiagonal => true,
            Arrangement::ReflectNegativeDiagonal => true,
            Arrangement::RotateRight => true,
            Arrangement::RotateLeft => true,
            _ => false,
        }
    }

    /// The cell of an old grid `w` wide and `h` high that the cell
    /// `(x, y)` of the new grid shows.
    pub open spec fn source_cell(self, w: int, h: int, x: int, y: int) -> (int, int) {
        match self {
            Arrangement::Identity => (x, y),
            Arrangement::ReflectVertical => (x, h - 1 - y),
            Arrangement::ReflectHorizontal => (w - 1 - x, y),
            Arrangement::ReflectDiagonal => (y, x),
            Arrangement::ReflectNegativeDiagonal => (w - 1 - y, h - 1 - x),
            Arrangement::RotateRight => (w - 1 - y, x),
            Arrangement::RotateLeft => (y, h - 1 - x),
            Arrangement::Rotate180 => (w - 1 - x, h - 1 - y),
        }
    }

    /// The width of the new grid.
    pub open spec fn new_width(self, w: int, h: int) -> int {
        if self.transposes() {
            h
        } else {
            w
        }
    }

    /// The height of the new grid.
    pub open spec fn new_height(self, w: int, h: int) -> int {
        if self.transposes() {
            w
        } else {
            h
        }
    }

    /// The place in the old storage of what stands at place `k` of the
    /// new storage.
    pub open spec fn source_place(self, w: int, h: int, k: int) -> int {
        let cell = self.source_cell(w, h, k % self.new_width(w, h), k / self.new_width(w, h));
        offset(w, cell.0, cell.1)
    }

    /// The arrangement that undoes this one.
    pub open spec fn inverse(self) -> Arrangement {
        match self {
            Arrangement::RotateRight => Arrangement::RotateLeft,
            Arrangement::RotateLeft => Arrangement::RotateRight,
            other => other,
        }
    }

    /// A cell of the new grid shows a cell of the old grid.
    pub proof fn lemma_source_inside(self, w: int, h: int, k: int)
        requires
            0 <= w,
            0 <= h,
            0 <= k < w * h,
        ensures
            0 <= k % self.new_width(w, h) < self.new_width(w, h),
            0 <= k / self.new_width(w, h) < self.new_height(w, h),
            0 <= self.source_cell(w, h, k % self.new_width(w, h), k / self.new_width(w, h)).0 < w,
            0 <= self.source_cell(w, h, k % self.new_width(w, h), k / self.new_width(w, h)).1 < h,
            0 <= self.source_place(w, h, k) < w * h,
    {
        assert(w * h == h * w) by (nonlinear_arith);
        lemma_offset_join(self.new_width(w, h), self.new_height(w, h), k);
        let cell = self.source_cell(w, h, k % self.new_width(w, h), k / self.new_width(w, h));
        lemma_offset_in_storage(w, h, cell.0, cell.1);
    }

    /// Two places of the new storage never show the same place of the old.
    pub proof fn lemma_source_distinct(self, w: int, h: int, a: int, b: int)
        requires
            0 <= w,
            0 <= h,
            0 <= a < w * h,
            0 <= b < w * h,
            self.source_place(w, h, a) == self.source_place(w, h, b),
        ensures
            a == b,
    {
        self.lemma_source_inside(w, h, a);
        self.lemma_source_inside(w, h, b);
        let nw = self.new_width(w, h);
        let nh = self.new_height(w, h);
        let ca = self.source_cell(w, h, a % nw, a / nw);
        let cb = self.source_cell(w, h, b % nw, b / nw);
        lemma_offset_split(w, ca.0, ca.1);
        lemma_offset_split(w, cb.0, cb.1);
        assert(ca == cb);
        assert(a % nw == b % nw && a / nw == b / nw);
        assert(w * h == h * w) by (nonlinear_arith);
        lemma_offset_join(nw, nh, a);
        lemma_offset_join(nw, nh, b);
    }
}

/// The arrangement that turns a tile stored facing up to a facing.
pub open spec fn facing(rotation: Rotation) -> Arrangement {
    match rotation {
        Rotation::UP => Arrangement::Identity,
        Rotation::DOWN => Arrangement::Rotate180,
        Rotation::LEFT => Arrangement::RotateLeft,
        Rotation::RIGHT => Arrangement::RotateRight,
    }
}

impl<T> Grid<T> {
    /// The grid whose cells show the cells of this one as `how` says.
    pub open spec fn arranged(self, how: Arrangement) -> Grid<T> {
        Grid {
            cells: Seq::new(
                self.cells.len(),
                |k: int| self.cells[how.source_place(self.width, self.height, k)],
            ),
            width: how.new_width(self.width, self.height),
            height: how.new_height(self.width, self.height),
            wrapping: self.wrapping,
        }
    }

    /// An arranged grid has as many cells as its new extent says, and its
    /// cell `(x, y)` is the cell of the old grid that `how` names.
    pub proof fn lemma_arranged(self, how: Arrangement)
        requires
            self.wf(),
        ensures
            self.arranged(how).wf(),
            forall|x: int, y: int| #[trigger]
                self.arranged(how).holds(x, y) ==> {
                    let cell = how.source_cell(self.width, self.height, x, y);
                    self.holds(cell.0, cell.1) && self.arranged(how).at(x, y) == self.at(
                        cell.0,
                        cell.1,
                    )
                },
    {
        let new = self.arranged(how);
        assert(self.width * self.height == self.height * self.width) by (nonlinear_arith);
        assert forall|x: int, y: int| #[trigger] new.holds(x, y) implies {
            let cell = how.source_cell(self.width, self.height, x, y);
            self.holds(cell.0, cell.1) && new.at(x, y) == self.at(cell.0, cell.1)
        } by {
            lemma_offset_in_storage(new.width, new.height, x, y);
            lemma_offset_split(new.width, x, y);
        }
    }

    /// Arranging twice is arranging once, by the arrangement whose source
    /// cell is the source cell of the source cell.
    pub proof fn lemma_arranged_twice(self, first: Arrangement, second: Arrangement, both: Arrangement)
        requires
            self.wf(),
            both.transposes() == (first.transposes() != second.transposes()),
            forall|w: int, h: int, x: int, y: int|
                0 <= x < both.new_width(w, h) && 0 <= y < both.new_height(w, h) ==> {
                    let middle = #[trigger] second.source_cell(
                        first.new_width(w, h),
                        first.new_height(w, h),
                        x,
                        y,
                    );
                    first.source_cell(w, h, middle.0, middle.1) == both.source_cell(w, h, x, y)
                },
        ensures
            self.arranged(first).arranged(second) == self.arranged(both),
    {
        let w = self.width;
        let h = self.height;
        let once = self.arranged(first);
        let twice = once.arranged(second);
        let direct = self.arranged(both);
        self.lemma_arranged(first);
        once.lemma_arranged(second);
        self.lemma_arranged(both);
        assert(w * h == h * w) by (nonlinear_arith);
        assert forall|k: int| 0 <= k < twice.cells.len() implies twice.cells[k] == direct.cells[k] by {
            lemma_offset_join(direct.width, direct.height, k);
            let x = k % direct.width;
            let y = k / direct.width;
            assert(twice.holds(x, y));
            assert(direct.holds(x, y));
            assert(twice.at(x, y) == twice.cells[k]);
            assert(direct.at(x, y) == direct.cells[k]);
            let middle = second.source_cell(once.width, once.height, x, y);
            assert(once.holds(middle.0, middle.1));
        }
        assert(twice.cells =~= direct.cells);
    }
}

impl Arrangement {
    /// The cell of an old grid `w` wide and `h` high that the cell
    /// `(x, y)` of the new grid shows.
    fn source(self, w: usize, h: usize, x: usize, y: usize) -> (cell: (usize, usize))
        requires
            x < self.new_width(w as int, h as int),
            y < self.new_height(w as int, h as int),
        ensures
            (cell.0 as int, cell.1 as int) == self.source_cell(w as int, h as int, x as int, y as int),
            cell.0 < w,
            cell.1 < h,
    {
        match self {
            Arrangement::Identity => (x, y),
            Arrangement::ReflectVertical => (x, h - 1 - y),
            Arrangement::ReflectHorizontal => (w - 1 - x, y),
            Arrangement::ReflectDiagonal => (y, x),
            Arrangement::ReflectNegativeDiagonal => (w - 1 - y, h - 1 - x),
            Arrangement::RotateRight => (w - 1 - y, x),
            Arrangement::RotateLeft => (y, h - 1 - x),
            Arrangement::Rotate180 => (w - 1 - x, h - 1 - y),
        }
    }

    /// Whether the new grid is as wide as the old one was high.
    fn swaps(self) -> (swapped: bool)
        ensures
            swapped == self.transposes(),
    {
        match self {
            Arrangement::ReflectDiagonal => true,
            Arrangement::ReflectNegativeDiagonal => true,
            Arrangement::RotateRight => true,
            Arrangement::RotateLeft => true,
            _ => false,
        }
    }
}

/// The arrangement that turns a tile stored facing up to a facing.
pub(crate) fn facing_of(rotation: Rotation) -> (how: Arrangement)
    ensures
        how == facing(rotation),
{
    match rotation {
        Rotation::UP => Arrangement::Identity,
        Rotation::DOWN => Arrangement::Rotate180,
        Rotation::LEFT => Arrangement::RotateLeft,
        Rotation::RIGHT => Arrangement::RotateRight,
    }
}

impl<T: Default + Clone> Matrix<T> {
    /// For each place of the new storage, in order, the place of the old
    /// storage that it shows.
    fn order(&self, how: Arrangement) -> (places: Vec<usize>)
        requires
            self.wf(),
        ensures
            places@.len() == self.values@.len(),
            forall|k: int|
                0 <= k < places@.len() ==> #[trigger] places@[k] == how.source_place(
                    self.dimensions.width as int,
                    self.dimensions.height as int,
                    k,
                ),
            forall|k: int| 0 <= k < places@.len() ==> #[trigger] places@[k] < self.values@.len(),
    {
        let w: usize = self.dimensions.width;
        let h: usize = self.dimensions.height;
        let swapped: bool = how.swaps();
        let nw: usize = if swapped {
            h
        } else {
            w
        };
        let nh: usize = if swapped {
            w
        } else {
            h
        };
        let mut places: Vec<usize> = Vec::new();
        let mut y: usize = 0;
        while y < nh
            invariant
                self.wf(),
                w == self.dimensions.width,
                h == self.dimensions.height,
                nw == how.new_width(w as int, h as int),
                nh == how.new_height(w as int, h as int),
                y <= nh,
                places@.len() == y * nw,
                forall|k: int|
                    0 <= k < places@.len() ==> #[trigger] places@[k] == how.source_place(
                        w as int,
                        h as int,
                        k,
                    ),
                forall|k: int| 0 <= k < places@.len() ==> #[trigger] places@[k] < self.values@.len(),
            decreases nh - y,
        {
            let mut x: usize = 0;
            while x < nw
                invariant
                    self.wf(),
                    w == self.dimensions.width,
                    h == self.dimensions.height,
                    nw == how.new_width(w as int, h as int),
                    nh == how.new_height(w as int, h as int),
                    y < nh,
                    x <= nw,
                    places@.len() == y * nw + x,
                    forall|k: int|
                        0 <= k < places@.len() ==> #[trigger] places@[k] == how.source_place(
                            w as int,
                            h as int,
                            k,
                        ),
                    forall|k: int|
                        0 <= k < places@.len() ==> #[trigger] places@[k] < self.values@.len(),
                decreases nw - x,
            {
                let cell = how.source(w, h, x, y);
                proof {
                    lemma_offset_split(nw as int, x as int, y as int);
                    self.lemma_cell_in_storage(cell.0 as int, cell.1 as int);
                }
                places.push(cell.1 * w + cell.0);
                x += 1;
            }
            assert((y + 1) * nw == y * nw + nw) by (nonlinear_arith);
            y += 1;
        }
        proof {
            assert(nh * nw == w * h) by (nonlinear_arith)
                requires
                    (nw == w && nh == h) || (nw == h && nh == w),
            ;
        }
        places
    }

    /// The values of the cells in the order in which the arranged grid
    /// holds them.
    pub(crate) fn arranged(&self, how: Arrangement) -> (cells: Vec<&T>)
        requires
            self.wf(),
        ensures
            cells@.unref() == self@.arranged(how).cells,
    {
        let places = self.order(how);
        let mut cells: Vec<&T> = Vec::new();
        let mut k: usize = 0;
        while k < places.len()
            invariant
                places@.len() == self.values@.len(),
                forall|j: int|
                    0 <= j < places@.len() ==> #[trigger] places@[j] == how.source_place(
                        self.dimensions.width as int,
                        self.dimensions.height as int,
                        j,
                    ),
                forall|j: int| 0 <= j < places@.len() ==> #[trigger] places@[j] < self.values@.len(),
                k <= places@.len(),
                cells@.len() == k,
                forall|j: int|
                    0 <= j < k ==> *(#[trigger] cells@[j]) == self.values@[how.source_place(
                        self.dimensions.width as int,
                        self.dimensions.height as int,
                        j,
                    )],
            decreases places@.len() - k,
        {
            assert(places@[k as int] < self.values@.len());
            cells.push(&self.values[places[k]]);
            k += 1;
        }
        assert(cells@.unref() =~= self@.arranged(how).cells);
        cells
    }

    /// The cell that the arranged grid holds at place `index` of its
    /// storage, open for writing; `None` past the last cell. The grid
    /// itself is not arranged.
    pub(crate) fn arranged_mut(&mut self, how: Arrangement, index: usize) -> (found: Option<&mut T>)
        requires
            old(self).wf(),
        ensures
            if index < old(self).values@.len() {
                let place = how.source_place(
                    old(self).dimensions.width as int,
                    old(self).dimensions.height as int,
                    index as int,
                );
                &&& 0 <= place < old(self).values@.len()
                &&& found matches Some(cell) && *cell == old(self).values@[place] && final(self)@
                    == old(self)@.with_cells(old(self).values@.update(place, *final(cell)))
            } else {
                found is None && *final(self) == *old(self)
            },
    {
        if index < self.values.len() {
            let w: usize = self.dimensions.width;
            let h: usize = self.dimensions.height;
            let nw: usize = if how.swaps() {
                h
            } else {
                w
            };
            proof {
                how.lemma_source_inside(w as int, h as int, index as int);
            }
            let cell = how.source(w, h, index % nw, index / nw);
            proof {
                self.lemma_cell_in_storage(cell.0 as int, cell.1 as int);
            }
            let place: usize = cell.1 * w + cell.0;
            Some(&mut self.values[place])
        } else {
            None
        }
    }

    /// Arranges the grid in place. Every value is moved, none is cloned.
    pub(crate) fn arrange(&mut self, how: Arrangement)
        requires
            old(self).wf(),
        ensures
            final(self).wf(),
            final(self)@ == old(self)@.arranged(how),
    {
        let places = self.order(how);
        let count: usize = places.len();
        let ghost before = self.values@;
        let ghost w = self.dimensions.width as int;
        let ghost h = self.dimensions.height as int;
        let mut taken: Vec<T> = Vec::new();
        let mut k: usize = 0;
        while k < count
            invariant
                0 <= w,
                0 <= h,
                count == w * h,
                w == self.dimensions.width,
                h == self.dimensions.height,
                self.dimensions == old(self).dimensions,
                self.wrapping == old(self).wrapping,
                before == old(self).values@,
                count == places@.len(),
                count == before.len(),
                self.values@.len() == count,
                forall|j: int|
                    0 <= j < count ==> #[trigger] places@[j] == how.source_place(w, h, j),
                forall|j: int| 0 <= j < count ==> #[trigger] places@[j] < count,
                k <= count,
                taken@.len() == k,
                forall|j: int| 0 <= j < k ==> #[trigger] taken@[j] == before[places@[j] as int],
                forall|j: int|
                    k <= j < count ==> self.values@[#[trigger] places@[j] as int] == before[places@[j] as int],
            decreases count - k,
        {
            let place: usize = places[k];
            let mut value: T = T::default();
            self.values.set_and_swap(place, &mut value);
            taken.push(value);
            proof {
                assert forall|j: int| k < j < count implies self.values@[#[trigger] places@[j] as int]
                    == before[places@[j] as int] by {
                    if places@[j] == place {
                        how.lemma_source_distinct(w, h, j, k as int);
                    }
                }
            }
            k += 1;
        }
        self.values = taken;
        if how.swaps() {
            self.dimensions.swap();
        }
        proof {
            assert(w * h == h * w) by (nonlinear_arith);
            assert(self@.cells =~= old(self)@.arranged(how).cells);
        }
    }
}

} // verus!
