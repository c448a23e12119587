//! What the reflections and rotations of a grid do to one another.

use super::arrange::Arrangement;
use super::layout::lemma_offset_join;
use super::Grid;
use vstd::prelude::*;

verus! {

impl<T> Grid<T> {
    /// Leaving every cell where it is gives the same grid.
    pub proof fn lemma_identity(self)
        requires
            self.wf(),
        ensures
            self.arranged(Arrangement::Identity) == self,
    {
        let same = self.arranged(Arrangement::Identity);
        assert forall|k: int| 0 <= k < self.cells.len() implies same.cells[k] == self.cells[k] by {
            lemma_offset_join(self.width, self.height, k);
        }
        assert(same.cells =~= self.cells);
    }

    /// Arranging a grid and then undoing the arrangement gives the grid
    /// it started from, in extent and in every cell.
    pub proof fn lemma_arranged_back(self, how: Arrangement)
        requires
            self.wf(),
        ensures
            self.arranged(how).arranged(how.inverse()) == self,
    {
        self.lemma_arranged_twice(how, how.inverse(), Arrangement::Identity);
        self.lemma_identity();
    }

    /// Rotating left and then right, or right and then left, gives the
    /// grid it started from, in extent and in the order of its values.
    pub proof fn lemma_rotate_round_trip(self)
        requires
            self.wf(),
        ensures
            self.rotate_left().rotate_right() == self,
            self.rotate_right().rotate_left() == self,
    {
        self.lemma_arranged_back(Arrangement::RotateLeft);
        self.lemma_arranged_back(Arrangement::RotateRight);
    }

    /// Two half turns give the grid it started from.
    pub proof fn lemma_rotate_180_twice(self)
        requires
            self.wf(),
        ensures
            self.rotate_180().rotate_180() == self,
    {
        self.lemma_arranged_back(Arrangement::Rotate180);
    }

    /// Each reflection, made twice, gives the grid it started from.
    pub proof fn lemma_reflect_twice(self)
        requires
            self.wf(),
        ensures
            self.reflect_vertical().reflect_vertical() == self,
            self.reflect_horizontal().reflect_horizontal() == self,
            self.reflect_diagonal().reflect_diagonal() == self,
            self.reflect_negative_diagonal().reflect_negative_diagonal() == self,
    {
        self.lemma_arranged_back(Arrangement::ReflectVertical);
        self.lemma_arranged_back(Arrangement::ReflectHorizontal);
        self.lemma_arranged_back(Arrangement::ReflectDiagonal);
        self.lemma_arranged_back(Arrangement::ReflectNegativeDiagonal);
    }

    /// Rotating right is reflecting on the diagonal and then vertically.
    /// Rotating left is reflecting vertically and then on the diagonal.
    pub proof fn lemma_rotate_by_reflections(self)
        requires
            self.wf(),
        ensures
            self.rotate_right() == self.reflect_diagonal().reflect_vertical(),
            self.rotate_left() == self.reflect_vertical().reflect_diagonal(),
    {
        self.lemma_arranged_twice(
            Arrangement::ReflectDiagonal,
            Arrangement::ReflectVertical,
            Arrangement::RotateRight,
        );
        self.lemma_arranged_twice(
            Arrangement::ReflectVertical,
            Arrangement::ReflectDiagonal,
            Arrangement::RotateLeft,
        );
    }

    /// The half turn is two quarter turns, either way.
    pub proof fn lemma_rotate_180_by_quarters(self)
        requires
            self.wf(),
        ensures
            self.rotate_180() == self.rotate_right().rotate_right(),
            self.rotate_180() == self.rotate_left().rotate_left(),
    {
        self.lemma_arranged_twice(
            Arrangement::RotateRight,
            Arrangement::RotateRight,
            Arrangement::Rotate180,
        );
        self.lemma_arranged_twice(
            Arrangement::RotateLeft,
            Arrangement::RotateLeft,
            Arrangement::Rotate180,
        );
    }

    /// The half turn holds the values in reverse order, in the same
    /// extent.
    pub proof fn lemma_rotate_180_reverses(self)
        requires
            self.wf(),
        ensures
            self.rotate_180() == self.with_cells(self.cells.reverse()),
    {
        let turned = self.rotate_180();
        let w = self.width;
        let h = self.height;
        assert forall|k: int| 0 <= k < self.cells.len() implies turned.cells[k]
            == self.cells.reverse()[k] by {
            lemma_offset_join(w, h, k);
            let x = k % w;
            let y = k / w;
            assert((h - 1 - y) * w + (w - 1 - x) == w * h - 1 - (y * w + x)) by (nonlinear_arith);
        }
        assert(turned.cells =~= self.cells.reverse());
    }
}

} // verus!
