//! The grid container: a rectangle of cells in row-major order.

pub mod arrange;
pub mod clamp;
pub mod laws;
pub mod layer;
pub mod layout;
pub mod overlay;
pub mod reflect;
pub mod rotate;
pub mod subdivide;

use super::transform::{Dimensions, Position};
use layout::{lemma_offset_in_storage, lemma_offset_join, offset};
use vstd::prelude::*;
use vstd::std_specs::iter::IteratorSpec;

verus! {

/// What a matrix holds, as mathematics: the cells row by row, the extent
/// and the addressing mode.
pub struct Grid<T> {
    pub cells: Seq<T>,
    pub width: int,
    pub height: int,
    pub wrapping: bool,
}

impl<T> Grid<T> {
    /// There are as many cells as the extent says.
    pub open spec fn wf(self) -> bool {
        &&& 0 <= self.width
        &&& 0 <= self.height
        &&& self.cells.len() == self.width * self.height
    }

    /// The cell in column `x` of row `y`.
    pub open spec fn at(self, x: int, y: int) -> T {
        self.cells[offset(self.width, x, y)]
    }

    /// Whether `(x, y)` names a cell without wrapping.
    pub open spec fn holds(self, x: int, y: int) -> bool {
        0 <= x < self.width && 0 <= y < self.height
    }

    /// The place in the storage that the address `(x, y)` stands for, if
    /// any. A wrapping grid takes both coordinates modulo its extent and
    /// has no place at all when it has no cells; a grid that does not wrap
    /// has a place only for the addresses inside it.
    pub open spec fn resolve(self, x: int, y: int) -> Option<int> {
        if self.wrapping {
            if self.width > 0 && self.height > 0 {
                Some(offset(self.width, x % self.width, y % self.height))
            } else {
                None
            }
        } else if self.holds(x, y) {
            Some(offset(self.width, x, y))
        } else {
            None
        }
    }

    /// The extent of the grid.
    pub open spec fn dimensions(self) -> Dimensions {
        Dimensions { width: self.width as usize, height: self.height as usize }
    }

    /// The same grid with other cells.
    pub open spec fn with_cells(self, cells: Seq<T>) -> Self {
        Grid { cells, width: self.width, height: self.height, wrapping: self.wrapping }
    }
}

/// `copy` has an element for each element of `source`, and each is what
/// `Clone` makes of the source's.
pub open spec fn clones<T: Clone>(source: Seq<T>, copy: Seq<T>) -> bool {
    &&& source.len() == copy.len()
    &&& forall|k: int| 0 <= k < source.len() ==> cloned(source[k], #[trigger] copy[k])
}

/// Whether a clone of a `T` is always equal to what it was made from, as
/// it is for the types that are copied bit by bit.
pub open spec fn clones_exactly<T: Clone>() -> bool {
    forall|a: T, b: T| #[trigger] cloned(a, b) ==> a == b
}

/// Where clones are exact, a sequence of clones is the sequence itself.
pub proof fn lemma_clones_exactly<T: Clone>(source: Seq<T>, copy: Seq<T>)
    requires
        clones(source, copy),
        clones_exactly::<T>(),
    ensures
        copy == source,
{
    assert forall|k: int| 0 <= k < source.len() implies copy[k] == source[k] by {
        assert(cloned(source[k], copy[k]));
    }
    assert(copy =~= source);
}

/// A grid of values: a vector that holds the cells row by row, with the
/// extent of the grid and its addressing mode.
#[derive(Debug)]
pub struct Matrix<T: Default + Clone> {
    pub values: Vec<T>,
    pub dimensions: Dimensions,
    /// Whether positions outside the grid stand for the cells they reach
    /// when counting goes round the border.
    pub wrapping: bool,
}

impl<T: Default + Clone> View for Matrix<T> {
    type V = Grid<T>;

    open spec fn view(&self) -> Grid<T> {
        Grid {
            cells: self.values@,
            width: self.dimensions.width as int,
            height: self.dimensions.height as int,
            wrapping: self.wrapping,
        }
    }
}

impl<T: Default + Clone> Clone for Matrix<T> {
    /// A deep copy: the same extent and mode, each cell cloned.
    fn clone(&self) -> (copy: Self)
        ensures
            copy.dimensions == self.dimensions,
            copy.wrapping == self.wrapping,
            clones(self.values@, copy.values@),
            clones_exactly::<T>() ==> copy@ == self@,
            self.wf() ==> copy.wf(),
    {
        let copy = Matrix {
            values: self.values.clone(),
            dimensions: self.dimensions,
            wrapping: self.wrapping,
        };
        proof {
            if clones_exactly::<T>() {
                lemma_clones_exactly(self.values@, copy.values@);
            }
        }
        copy
    }
}

impl<T: Default + Clone> Default for Matrix<T> {
    /// The grid without cells, which does not wrap.
    fn default() -> (empty: Self)
        ensures
            empty.wf(),
            empty.values@.len() == 0,
            empty.dimensions.width == 0,
            empty.dimensions.height == 0,
            !empty.wrapping,
    {
        Matrix {
            values: Vec::new(),
            dimensions: Dimensions { width: 0, height: 0 },
            wrapping: false,
        }
    }
}

impl<T: Default + Clone> Matrix<T> {
    /// The storage holds one value for each cell of the extent.
    pub open spec fn wf(&self) -> bool {
        self@.wf()
    }

    /// A cell of the grid has its place in the storage, and computing the
    /// place stays within `usize`.
    pub proof fn lemma_cell_in_storage(&self, x: int, y: int)
        requires
            self.wf(),
            self@.holds(x, y),
        ensures
            0 <= y * self.dimensions.width <= offset(self.dimensions.width as int, x, y),
            offset(self.dimensions.width as int, x, y) < self.values@.len() <= usize::MAX,
    {
        lemma_offset_in_storage(
            self.dimensions.width as int,
            self.dimensions.height as int,
            x,
            y,
        );
        assert(self.values.len() == self.values@.len());
        assert(0 <= y * self.dimensions.width) by (nonlinear_arith)
            requires
                0 <= y,
                0 <= self.dimensions.width,
        ;
    }

    /// A grid of the given extent in which every cell holds the default
    /// value of `T`.
    pub fn new(dimensions: Dimensions, wrapping: bool) -> (made: Self)
        requires
            dimensions.countable(),
        ensures
            made.wf(),
            made.dimensions == dimensions,
            made.wrapping == wrapping,
            forall|k: int|
                0 <= k < made.values@.len() ==> call_ensures(T::default, (), #[trigger] made.values@[k]),
    {
        let area: usize = dimensions.area();
        let mut values: Vec<T> = Vec::new();
        let mut k: usize = 0;
        while k < area
            invariant
                k <= area,
                values@.len() == k,
                forall|j: int| 0 <= j < k ==> call_ensures(T::default, (), #[trigger] values@[j]),
            decreases area - k,
        {
            values.push(T::default());
            k += 1;
        }
        Self { values, dimensions, wrapping }
    }

    /// The place in the storage that `position` stands for, if any.
    ///
    /// Without wrapping there is one exactly for the positions inside the
    /// grid. With wrapping there is one for every position, unless the
    /// grid has no cells.
    pub fn some_bound(&self, position: Position) -> (index: Option<usize>)
        requires
            self.wf(),
        ensures
            self@.resolve(position.x as int, position.y as int) == match index {
                Some(i) => Some(i as int),
                None => None,
            },
            !self.wrapping ==> (index is Some <==> position.x < self.dimensions.width && position.y
                < self.dimensions.height),
            self.wrapping ==> (index is Some <==> self.dimensions.width > 0
                && self.dimensions.height > 0),
            index matches Some(i) ==> i < self.values@.len(),
    {
        let width: usize = self.dimensions.width;
        let height: usize = self.dimensions.height;
        if self.wrapping {
            if width == 0 || height == 0 {
                None
            } else {
                let x: usize = position.x % width;
                let y: usize = position.y % height;
                proof {
                    self.lemma_cell_in_storage(x as int, y as int);
                }
                Some(x + y * width)
            }
        } else if width > position.x && height > position.y {
            proof {
                self.lemma_cell_in_storage(position.x as int, position.y as int);
            }
            Some(position.x + position.y * width)
        } else {
            None
        }
    }

    /// The value at `position`, if the position stands for a cell.
    pub fn get(&self, position: Position) -> (found: Option<&T>)
        requires
            self.wf(),
        ensures
            found == match self@.resolve(position.x as int, position.y as int) {
                Some(i) => Some(&self.values@[i]),
                None => None,
            },
    {
        if let Some(index) = self.some_bound(position) {
            Some(&self.values[index])
        } else {
            None
        }
    }

    /// The cell at `position`, open for writing, if the position stands
    /// for a cell. What is written through it is the only change.
    pub fn get_mut(&mut self, position: Position) -> (found: Option<&mut T>)
        requires
            old(self).wf(),
        ensures
            match old(self)@.resolve(position.x as int, position.y as int) {
                Some(i) => {
                    &&& found matches Some(cell) && *cell == old(self).values@[i]
                        && final(self)@ == old(self)@.with_cells(
                        old(self).values@.update(i, *final(cell)),
                    )
                },
                None => found is None && *final(self) == *old(self),
            },
    {
        if let Some(index) = self.some_bound(position) {
            Some(&mut self.values[index])
        } else {
            None
        }
    }

    /// The value at `position`, where counting goes round the border,
    /// whatever the addressing mode. The grid must have cells.
    pub fn get_wrap(&self, position: Position) -> (found: &T)
        requires
            self.wf(),
            self.dimensions.width > 0,
            self.dimensions.height > 0,
        ensures
            *found == self@.at(
                position.x as int % self.dimensions.width as int,
                position.y as int % self.dimensions.height as int,
            ),
    {
        let x: usize = position.x % self.dimensions.width;
        let y: usize = position.y % self.dimensions.height;
        proof {
            self.lemma_cell_in_storage(x as int, y as int);
        }
        &self.values[x + y * self.dimensions.width]
    }

    /// The cell at `position`, open for writing, where counting goes round
    /// the border, whatever the addressing mode. The grid must have cells.
    /// What is written through it is the only change.
    pub fn get_wrap_mut(&mut self, position: Position) -> (found: &mut T)
        requires
            old(self).wf(),
            old(self).dimensions.width > 0,
            old(self).dimensions.height > 0,
        ensures
            *found == old(self)@.at(
                position.x as int % old(self).dimensions.width as int,
                position.y as int % old(self).dimensions.height as int,
            ),
            final(self)@ == old(self)@.with_cells(
                old(self).values@.update(
                    offset(
                        old(self).dimensions.width as int,
                        position.x as int % old(self).dimensions.width as int,
                        position.y as int % old(self).dimensions.height as int,
                    ),
                    *final(found),
                ),
            ),
    {
        let x: usize = position.x % self.dimensions.width;
        let y: usize = position.y % self.dimensions.height;
        proof {
            self.lemma_cell_in_storage(x as int, y as int);
        }
        let index: usize = x + y * self.dimensions.width;
        &mut self.values[index]
    }

    /// Writes `value` at `position`. A position that stands for no cell
    /// leaves the grid as it is.
    pub fn set(&mut self, position: Position, value: T)
        requires
            old(self).wf(),
        ensures
            final(self).wf(),
            final(self)@ == match old(self)@.resolve(position.x as int, position.y as int) {
                Some(i) => old(self)@.with_cells(old(self).values@.update(i, value)),
                None => old(self)@,
            },
    {
        if let Some(index) = self.some_bound(position) {
            self.values.set(index, value);
        }
    }

    /// Replaces the value at `position` by what `func` makes of it.
    ///
    /// A position that stands for no cell leaves the grid as it is, and
    /// `func` is not called.
    pub fn apply<F: Fn(&T) -> T>(&mut self, position: Position, func: F)
        requires
            old(self).wf(),
            old(self)@.resolve(position.x as int, position.y as int) matches Some(i)
                ==> call_requires(func, (&old(self).values@[i],)),
        ensures
            final(self).wf(),
            final(self).dimensions == old(self).dimensions,
            final(self).wrapping == old(self).wrapping,
            match old(self)@.resolve(position.x as int, position.y as int) {
                Some(i) => {
                    &&& call_ensures(func, (&old(self).values@[i],), final(self).values@[i])
                    &&& final(self).values@ == old(self).values@.update(i, final(self).values@[i])
                },
                None => final(self).values@ == old(self).values@,
            },
    {
        if let Some(index) = self.some_bound(position) {
            let value = func(&self.values[index]);
            self.values.set(index, value);
        }
    }

    /// Every cell with its position, row by row from the top, each row
    /// from the left.
    pub fn enumerate(&self) -> (iter: std::vec::IntoIter<(Position, &T)>)
        requires
            self.wf(),
        ensures
            iter.obeys_prophetic_iter_laws(),
            iter.decrease() is Some,
            iter.remaining().len() == self.values@.len(),
            forall|k: int|
                0 <= k < iter.remaining().len() ==> {
                    &&& (#[trigger] iter.remaining()[k]).0.x == k % self.dimensions.width as int
                    &&& iter.remaining()[k].0.y == k / self.dimensions.width as int
                    &&& *iter.remaining()[k].1 == self.values@[k]
                },
    {
        self.enumerated().into_iter()
    }

    /// Every cell with its position, as [`Matrix::enumerate`] lists them.
    pub(crate) fn enumerated(&self) -> (cells: Vec<(Position, &T)>)
        requires
            self.wf(),
        ensures
            cells@.len() == self.values@.len(),
            forall|k: int|
                0 <= k < cells@.len() ==> {
                    &&& (#[trigger] cells@[k]).0.x == k % self.dimensions.width as int
                    &&& cells@[k].0.y == k / self.dimensions.width as int
                    &&& *cells@[k].1 == self.values@[k]
                },
    {
        let width: usize = self.dimensions.width;
        let mut cells: Vec<(Position, &T)> = Vec::new();
        let mut k: usize = 0;
        while k < self.values.len()
            invariant
                self.wf(),
                width == self.dimensions.width,
                k <= self.values@.len(),
                cells@.len() == k,
                forall|j: int|
                    0 <= j < k ==> {
                        &&& (#[trigger] cells@[j]).0.x == j % width as int
                        &&& cells@[j].0.y == j / width as int
                        &&& *cells@[j].1 == self.values@[j]
                    },
            decreases self.values@.len() - k,
        {
            proof {
                lemma_offset_join(width as int, self.dimensions.height as int, k as int);
            }
            cells.push((Position { x: k % width, y: k / width }, &self.values[k]));
            k += 1;
        }
        cells
    }

    /// The cell that [`Matrix::enumerate`] lists at place `index`, with
    /// its position, open for writing; `None` past the last cell.
    pub fn enumerate_mut(&mut self, index: usize) -> (found: Option<(Position, &mut T)>)
        requires
            old(self).wf(),
        ensures
            match found {
                Some((position, cell)) => {
                    &&& index < old(self).values@.len()
                    &&& position.x == index as int % old(self).dimensions.width as int
                    &&& position.y == index as int / old(self).dimensions.width as int
                    &&& *cell == old(self).values@[index as int]
                    &&& final(self)@ == old(self)@.with_cells(
                        old(self).values@.update(index as int, *final(cell)),
                    )
                },
                None => index >= old(self).values@.len() && *final(self) == *old(self),
            },
    {
        if index < self.values.len() {
            let width: usize = self.dimensions.width;
            proof {
                lemma_offset_join(width as int, self.dimensions.height as int, index as int);
            }
            Some((Position { x: index % width, y: index / width }, &mut self.values[index]))
        } else {
            None
        }
    }
}

} // verus!
