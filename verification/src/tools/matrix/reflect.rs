//! Reflections of a grid.

use super::arrange::Arrangement;
use super::{Grid, Matrix};
use vstd::prelude::*;
use vstd::std_specs::iter::IteratorSpec;

verus! {

impl<T> Grid<T> {
    /// This grid with its rows in reverse order.
    pub open spec fn reflect_vertical(self) -> Grid<T> {
        self.arranged(Arrangement::ReflectVertical)
    }

    /// This grid with each row in reverse order.
    pub open spec fn reflect_horizontal(self) -> Grid<T> {
        self.arranged(Arrangement::ReflectHorizontal)
    }

    /// This grid with columns for rows: its cell `(x, y)` is the cell
    /// `(y, x)` of this one.
    pub open spec fn reflect_diagonal(self) -> Grid<T> {
        self.arranged(Arrangement::ReflectDiagonal)
    }

    /// This grid with columns for rows, both in reverse order: its cell
    /// `(x, y)` is the cell `(width - 1 - y, height - 1 - x)` of this one.
    pub open spec fn reflect_negative_diagonal(self) -> Grid<T> {
        self.arranged(Arrangement::ReflectNegativeDiagonal)
    }
}

impl<T: Default + Clone> Matrix<T> {
    /// Mirrors the grid top to bottom.
    ///
    /// The rows come in reverse order; each row stays as it is.
    pub fn reflect_vertical(&mut self)
        requires
            old(self).wf(),
        ensures
            final(self).wf(),
            final(self)@ == old(self)@.reflect_vertical(),
    {
        self.arrange(Arrangement::ReflectVertical)
    }

    /// The values in the order in which the vertically reflected grid
    /// holds them; this grid is left as it is.
    pub fn iter_reflect_vertical(&self) -> (iter: std::vec::IntoIter<&T>)
        requires
            self.wf(),
        ensures
            iter.obeys_prophetic_iter_laws(),
            iter.decrease() is Some,
            iter.remaining().unref() == self@.reflect_vertical().cells,
    {
        let cells = self.arranged(Arrangement::ReflectVertical);
        let iter = cells.into_iter();
        assert(iter.remaining().unref() =~= cells@.unref());
        iter
    }

    /// The cell that [`Matrix::iter_reflect_vertical`] lists at place `index`,
    /// open for writing; `None` past the last cell. The grid itself is not
    /// reflected.
    pub fn iter_reflect_vertical_mut(&mut self, index: usize) -> (found: Option<&mut T>)
        requires
            old(self).wf(),
        ensures
            if index < old(self).values@.len() {
                let place = Arrangement::ReflectVertical.source_place(
                    old(self).dimensions.width as int,
                    old(self).dimensions.height as int,
                    index as int,
                );
                &&& 0 <= place < old(self).values@.len()
                &&& found matches Some(cell) && *cell == old(self).values@[place] && final(self)@
                    == old(self)@.with_cells(old(self).values@.update(place, *final(cell)))
            } else {
                found is None && *final(self) == *old(self)
            },
    {
        self.arranged_mut(Arrangement::ReflectVertical, index)
    }

    /// Mirrors the grid left to right.
    ///
    /// Each row comes in reverse order; the rows stay where they are.
    pub fn reflect_horizontal(&mut self)
        requires
            old(self).wf(),
        ensures
            final(self).wf(),
            final(self)@ == old(self)@.reflect_horizontal(),
    {
        self.arrange(Arrangement::ReflectHorizontal)
    }

    /// The values in the order in which the horizontally reflected grid
    /// holds them; this grid is left as it is.
    pub fn iter_reflect_horizontal(&self) -> (iter: std::vec::IntoIter<&T>)
        requires
            self.wf(),
        ensures
            iter.obeys_prophetic_iter_laws(),
            iter.decrease() is Some,
            iter.remaining().unref() == self@.reflect_horizontal().cells,
    {
        let cells = self.arranged(Arrangement::ReflectHorizontal);
        let iter = cells.into_iter();
        assert(iter.remaining().unref() =~= cells@.unref());
        iter
    }

    /// The cell that [`Matrix::iter_reflect_horizontal`] lists at place `index`,
    /// open for writing; `None` past the last cell. The grid itself is not
    /// reflected.
    pub fn iter_reflect_horizontal_mut(&mut self, index: usize) -> (found: Option<&mut T>)
        requires
            old(self).wf(),
        ensures
            if index < old(self).values@.len() {
                let place = Arrangement::ReflectHorizontal.source_place(
                    old(self).dimensions.width as int,
                    old(self).dimensions.height as int,
                    index as int,
                );
                &&& 0 <= place < old(self).values@.len()
                &&& found matches Some(cell) && *cell == old(self).values@[place] && final(self)@
                    == old(self)@.with_cells(old(self).values@.update(place, *final(cell)))
            } else {
                found is None && *final(self) == *old(self)
            },
    {
        self.arranged_mut(Arrangement::ReflectHorizontal, index)
    }

    /// Mirrors the grid on the diagonal from the top left.
    ///
    /// Width and height change places, and the cell `(x, y)` shows what the
    /// cell `(y, x)` held.
    pub fn reflect_diagonal(&mut self)
        requires
            old(self).wf(),
        ensures
            final(self).wf(),
            final(self)@ == old(self)@.reflect_diagonal(),
    {
        self.arrange(Arrangement::ReflectDiagonal)
    }

    /// The values in the order in which the diagonally reflected grid
    /// holds them; this grid is left as it is.
    pub fn iter_reflect_diagonal(&self) -> (iter: std::vec::IntoIter<&T>)
        requires
            self.wf(),
        ensures
            iter.obeys_prophetic_iter_laws(),
            iter.decrease() is Some,
            iter.remaining().unref() == self@.reflect_diagonal().cells,
    {
        let cells = self.arranged(Arrangement::ReflectDiagonal);
        let iter = cells.into_iter();
        assert(iter.remaining().unref() =~= cells@.unref());
        iter
    }

    /// Mirrors the grid on the diagonal from the top right.
    ///
    /// Width and height change places, and the cell `(x, y)` shows what the
    /// cell `(width - 1 - y, height - 1 - x)` held.
    pub fn reflect_negative_diagonal(&mut self)
        requires
            old(self).wf(),
        ensures
            final(self).wf(),
            final(self)@ == old(self)@.reflect_negative_diagonal(),
    {
        self.arrange(Arrangement::ReflectNegativeDiagonal)
    }

    /// The values in the order in which the grid reflected on the other
    /// diagonal holds them; this grid is left as it is.
    pub fn iter_reflect_negative_diagonal(&self) -> (iter: std::vec::IntoIter<&T>)
        requires
            self.wf(),
        ensures
            iter.obeys_prophetic_iter_laws(),
            iter.decrease() is Some,
            iter.remaining().unref() == self@.reflect_negative_diagonal().cells,
    {
        let cells = self.arranged(Arrangement::ReflectNegativeDiagonal);
        let iter = cells.into_iter();
        assert(iter.remaining().unref() =~= cells@.unref());
        iter
    }
}

} // verus!
