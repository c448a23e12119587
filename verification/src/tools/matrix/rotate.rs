//! Rotations of a grid.

use super::arrange::{facing, facing_of, Arrangement};
use super::{Grid, Matrix};
use crate::tools::transform::Rotation;
use vstd::prelude::*;
use vstd::std_specs::iter::IteratorSpec;

verus! {

impl<T> Grid<T> {
    /// This grid after a quarter turn to the right: its cell `(x, y)` is
    /// the cell `(width - 1 - y, x)` of this one.
    pub open spec fn rotate_right(self) -> Grid<T> {
        self.arranged(Arrangement::RotateRight)
    }

    /// This grid after a quarter turn to the left: its cell `(x, y)` is
    /// the cell `(y, height - 1 - x)` of this one.
    pub open spec fn rotate_left(self) -> Grid<T> {
        self.arranged(Arrangement::RotateLeft)
    }

    /// This grid after a half turn: its cell `(x, y)` is the cell
    /// `(width - 1 - x, height - 1 - y)` of this one.
    pub open spec fn rotate_180(self) -> Grid<T> {
        self.arranged(Arrangement::Rotate180)
    }

    /// This grid, turned from facing up to the facing `rotation`: left as
    /// it is for `UP`, by a half turn for `DOWN`, rotated left for `LEFT`
    /// and right for `RIGHT`.
    pub open spec fn rotate(self, rotation: Rotation) -> Grid<T> {
        self.arranged(facing(rotation))
    }
}

impl<T: Default + Clone> Matrix<T> {
    /// Turns the grid by a quarter to the right.
    ///
    /// Width and height change places. The result is that of
    /// [`Matrix::reflect_diagonal`] followed by [`Matrix::reflect_vertical`].
    pub fn rotate_right(&mut self)
        requires
            old(self).wf(),
        ensures
            final(self).wf(),
            final(self)@ == old(self)@.rotate_right(),
            final(self)@ == old(self)@.reflect_diagonal().reflect_vertical(),
    {
        proof {
            old(self)@.lemma_rotate_by_reflections();
        }
        self.arrange(Arrangement::RotateRight)
    }

    /// The values in the order in which the grid rotated right holds
    /// them; this grid is left as it is.
    pub fn iter_rotate_right(&self) -> (iter: std::vec::IntoIter<&T>)
        requires
            self.wf(),
        ensures
            iter.obeys_prophetic_iter_laws(),
            iter.decrease() is Some,
            iter.remaining().unref() == self@.rotate_right().cells,
    {
        let cells = self.arranged(Arrangement::RotateRight);
        let iter = cells.into_iter();
        assert(iter.remaining().unref() =~= cells@.unref());
        iter
    }

    /// Turns the grid by a quarter to the left.
    ///
    /// Width and height change places. This undoes [`Matrix::rotate_right`].
    pub fn rotate_left(&mut self)
        requires
            old(self).wf(),
        ensures
            final(self).wf(),
            final(self)@ == old(self)@.rotate_left(),
            final(self)@.rotate_right() == old(self)@,
    {
        proof {
            old(self)@.lemma_rotate_round_trip();
        }
        self.arrange(Arrangement::RotateLeft)
    }

    /// The values in the order in which the grid rotated left holds
    /// them; this grid is left as it is.
    pub fn iter_rotate_left(&self) -> (iter: std::vec::IntoIter<&T>)
        requires
            self.wf(),
        ensures
            iter.obeys_prophetic_iter_laws(),
            iter.decrease() is Some,
            iter.remaining().unref() == self@.rotate_left().cells,
    {
        let cells = self.arranged(Arrangement::RotateLeft);
        let iter = cells.into_iter();
        assert(iter.remaining().unref() =~= cells@.unref());
        iter
    }

    /// Turns the grid by a half.
    ///
    /// The values come in reverse order; the extent stays.
    pub fn rotate_180(&mut self)
        requires
            old(self).wf(),
        ensures
            final(self).wf(),
            final(self)@ == old(self)@.rotate_180(),
            final(self).values@ == old(self).values@.reverse(),
            final(self).dimensions == old(self).dimensions,
    {
        proof {
            old(self)@.lemma_rotate_180_reverses();
        }
        self.arrange(Arrangement::Rotate180)
    }

    /// The values in reverse order; this grid is left as it is.
    pub fn iter_rotate_180(&self) -> (iter: std::vec::IntoIter<&T>)
        requires
            self.wf(),
        ensures
            iter.obeys_prophetic_iter_laws(),
            iter.decrease() is Some,
            iter.remaining().unref() == self@.rotate_180().cells,
            iter.remaining().unref() == self.values@.reverse(),
    {
        proof {
            self@.lemma_rotate_180_reverses();
        }
        let cells = self.arranged(Arrangement::Rotate180);
        let iter = cells.into_iter();
        assert(iter.remaining().unref() =~= cells@.unref());
        iter
    }

    /// Turns the grid from facing up to the facing `rotation`.
    ///
    /// `UP` leaves the grid as it is, `DOWN` is the half turn, `LEFT` is
    /// [`Matrix::rotate_left`] and `RIGHT` is [`Matrix::rotate_right`].
    pub fn rotate(&mut self, rotation: Rotation)
        requires
            old(self).wf(),
        ensures
            final(self).wf(),
            final(self)@ == old(self)@.rotate(rotation),
            final(self)@ == match rotation {
                Rotation::UP => old(self)@,
                Rotation::DOWN => old(self)@.rotate_180(),
                Rotation::LEFT => old(self)@.rotate_left(),
                Rotation::RIGHT => old(self)@.rotate_right(),
            },
    {
        proof {
            old(self)@.lemma_identity();
        }
        match rotation {
            Rotation::DOWN => self.rotate_180(),
            Rotation::LEFT => self.rotate_left(),
            Rotation::RIGHT => self.rotate_right(),
            _ => (),
        }
    }

    /// The values in the order in which the rotated grid holds them; this
    /// grid is left as it is.
    pub fn iter_rotate(&self, rotation: Rotation) -> (iter: std::vec::IntoIter<&T>)
        requires
            self.wf(),
        ensures
            iter.obeys_prophetic_iter_laws(),
            iter.decrease() is Some,
            iter.remaining().unref() == self@.rotate(rotation).cells,
    {
        let cells = self.arranged(facing_of(rotation));
        let iter = cells.into_iter();
        assert(iter.remaining().unref() =~= cells@.unref());
        iter
    }
}

} // verus!
