//! Laying one grid, or a sequence of elements, onto another.
//!
//! The source is a rectangle whose top left cell is laid on a position of
//! the destination. Source cell `(sx, sy)` goes to the destination cell
//! `(x + sx, y + sy)`; what falls outside the destination is left out,
//! whether or not the destination wraps. A cell of the source keeps its
//! place in the rectangle when the rectangle is cut off at the border: the
//! rows of the source stay in line.

use super::layout::{
    clip, lemma_offset_in_storage, lemma_offset_join, lemma_offset_split, offset,
};
use super::clamp::clipped;
use super::layer::{covers, present, Layer};
use super::{clones, clones_exactly, Matrix};
use crate::tools::transform::{Dimensions, Position};
use vstd::prelude::*;
use vstd::std_specs::iter::IteratorSpec;

verus! {

/// Whether the part of a rectangle `w` wide at `(x0, y0)` that has been
/// written so far lies on the cell `(x, y)`: the rows above row `rows` of
/// the rectangle, and the first `columns` cells of that row.
spec fn written(
    x0: int,
    y0: int,
    w: int,
    rows: int,
    columns: int,
    x: int,
    y: int,
) -> bool {
    covers(x0, y0, w, rows, x, y) || covers(x0, y0 + rows, columns, 1, x, y)
}

/// What a cell shows once `item` has been laid on it: a clone of what the
/// item holds, or, under an item that holds nothing, the value `kept`.
pub open spec fn shows<T: Clone>(item: Option<T>, kept: T, cell: T) -> bool {
    match item {
        Some(value) => cloned(value, cell),
        None => cell == kept,
    }
}

/// The place of source cell `(sx, sy)` in a sequence that lists a
/// rectangle `w` wide row by row, if it can be counted in `usize`.
fn source_place(w: usize, sx: usize, sy: usize) -> (place: Option<usize>)
    ensures
        match place {
            Some(p) => p == offset(w as int, sx as int, sy as int),
            None => offset(w as int, sx as int, sy as int) > usize::MAX,
        },
{
    match sy.checked_mul(w) {
        Some(above) => above.checked_add(sx),
        None => None,
    }
}

impl<T: Default + Clone> Matrix<T> {
    /// Lays a listed rectangle on the grid, starting at `position`.
    ///
    /// `iter` lists a rectangle of the extent `dimensions` row by row.
    /// Each cell of the grid on which the rectangle lies, and for which
    /// `iter` has an element, gets a clone of that element. Every other
    /// cell keeps its value. Elements are taken from `iter` only for the
    /// rows of the rectangle that reach into the grid, and none if the
    /// rectangle lies outside.
    pub fn overlay_iter<'a, I: Iterator<Item = &'a T>>(
        &mut self,
        iter: I,
        position: Position,
        dimensions: Dimensions,
    ) where T: 'a
        requires
            old(self).wf(),
        ensures
            final(self).wf(),
            final(self).dimensions == old(self).dimensions,
            final(self).wrapping == old(self).wrapping,
            iter.obeys_prophetic_iter_laws() ==> forall|x: int, y: int|
                old(self)@.holds(x, y) ==> shows(
                    Layer::new(present(iter.remaining().unref()), position, dimensions).at(x, y),
                    old(self)@.at(x, y),
                    #[trigger] final(self)@.at(x, y),
                ),
            iter.obeys_prophetic_iter_laws() && clones_exactly::<T>() ==> final(self)@
                == old(self)@.laid(Layer::new(present(iter.remaining().unref()), position, dimensions)),
    {
        let mut iter = iter;
        let width: usize = self.dimensions.width;
        let height: usize = self.dimensions.height;
        let w: usize = dimensions.width;
        let cw: usize = clipped(position.x, w, width);
        let ch: usize = if cw == 0 {
            0
        } else {
            clipped(position.y, dimensions.height, height)
        };
        let ghost x0 = position.x as int;
        let ghost y0 = position.y as int;
        let ghost h = dimensions.height as int;
        let ghost before = self@;
        let ghost all = iter.remaining();
        let ghost obeys = iter.obeys_prophetic_iter_laws();
        let ghost layer = Layer::new(present(all.unref()), position, dimensions);
        let ghost mut taken: int = 0;
        let mut done: bool = false;
        let mut sy: usize = 0;
        while sy < ch && !done
            invariant
                self.wf(),
                before.wf(),
                self.dimensions == old(self).dimensions,
                self.wrapping == old(self).wrapping,
                before == old(self)@,
                width == self.dimensions.width,
                height == self.dimensions.height,
                w == dimensions.width,
                h == dimensions.height,
                x0 == position.x,
                y0 == position.y,
                cw == clip(x0, w as int, width as int),
                ch <= clip(y0, h, height as int),
                cw > 0 ==> ch == clip(y0, h, height as int),
                layer == Layer::new(present(all.unref()), position, dimensions),
                obeys == iter.obeys_prophetic_iter_laws(),
                sy <= ch,
                !done ==> taken == sy * w,
                done && obeys ==> taken == all.len(),
                obeys ==> 0 <= taken <= all.len() && iter.remaining() == all.skip(taken),
                obeys ==> forall|x: int, y: int|
                    before.holds(x, y) ==> if offset(w as int, x - x0, y - y0) < taken {
                        shows(layer.at(x, y), before.at(x, y), #[trigger] self@.at(x, y))
                    } else {
                        self@.at(x, y) == before.at(x, y)
                    },
            decreases
                    (ch - sy) + (if done {
                        0int
                    } else {
                        1int
                    }),
        {
            let mut sx: usize = 0;
            while sx < w && !done
                invariant
                    self.wf(),
                    before.wf(),
                    self.dimensions == old(self).dimensions,
                    self.wrapping == old(self).wrapping,
                    before == old(self)@,
                    width == self.dimensions.width,
                    height == self.dimensions.height,
                    w == dimensions.width,
                    h == dimensions.height,
                    x0 == position.x,
                    y0 == position.y,
                    cw == clip(x0, w as int, width as int),
                    ch <= clip(y0, h, height as int),
                cw > 0 ==> ch == clip(y0, h, height as int),
                    layer == Layer::new(present(all.unref()), position, dimensions),
                    obeys == iter.obeys_prophetic_iter_laws(),
                    sy < ch,
                    sx <= w,
                    !done ==> taken == sy * w + sx,
                    done && obeys ==> taken == all.len(),
                    obeys ==> 0 <= taken <= all.len() && iter.remaining() == all.skip(taken),
                    obeys ==> forall|x: int, y: int|
                        before.holds(x, y) ==> if offset(w as int, x - x0, y - y0) < taken {
                            shows(layer.at(x, y), before.at(x, y), #[trigger] self@.at(x, y))
                        } else {
                            self@.at(x, y) == before.at(x, y)
                        },
                decreases
                        (w - sx) + (if done {
                            0int
                        } else {
                            1int
                        }),
            {
                let ghost earlier = self@;
                match iter.next() {
                    Some(item) => {
                        if sx < cw {
                            proof {
                                self.lemma_cell_in_storage(x0 + sx, y0 + sy);
                            }
                            let target: usize = (position.y + sy) * width + (position.x + sx);
                            self.values.set(target, item.clone());
                        }
                        proof {
                            if obeys {
                                assert(all.skip(taken)[0] == all[taken]);
                                assert(all.skip(taken).drop_first() =~= all.skip(taken + 1));
                                assert(all.unref()[taken] == *all[taken]);
                                lemma_offset_split(w as int, sx as int, sy as int);
                                assert forall|x: int, y: int| before.holds(x, y) implies if offset(
                                    w as int,
                                    x - x0,
                                    y - y0,
                                ) < taken + 1 {
                                    shows(layer.at(x, y), before.at(x, y), #[trigger] self@.at(x, y))
                                } else {
                                    self@.at(x, y) == before.at(x, y)
                                } by {
                                    lemma_offset_split(width as int, x, y);
                                    lemma_offset_in_storage(width as int, height as int, x, y);
                                    let kept = earlier.at(x, y);
                                    if x == x0 + sx && y == y0 + sy {
                                        lemma_offset_split(width as int, x0 + sx, y0 + sy);
                                    } else {
                                        if sx < cw {
                                            lemma_offset_split(width as int, x0 + sx, y0 + sy);
                                        }
                                        assert(self@.at(x, y) == kept);
                                        if covers(x0, y0, w as int, h, x, y) {
                                            lemma_offset_split(w as int, x - x0, y - y0);
                                        }
                                    }
                                }
                            }
                            taken = taken + 1;
                        }
                        sx += 1;
                    },
                    None => {
                        done = true;
                    },
                }
            }
            if !done {
                assert((sy + 1) * w == sy * w + w) by (nonlinear_arith);
                sy += 1;
            }
        }
        proof {
            if obeys {
                assert forall|x: int, y: int| before.holds(x, y) implies shows(
                    layer.at(x, y),
                    before.at(x, y),
                    #[trigger] self@.at(x, y),
                ) by {
                    let place = offset(w as int, x - x0, y - y0);
                    if place >= taken && covers(x0, y0, w as int, h, x, y) && !done {
                        assert(place < ch * w) by (nonlinear_arith)
                            requires
                                place == (y - y0) * w + (x - x0),
                                0 <= x - x0 < w,
                                0 <= y - y0 < ch,
                        ;
                    }
                }
            }
            if obeys && clones_exactly::<T>() {
                let expected = before.laid(layer);
                assert forall|k: int| 0 <= k < self.values@.len() implies self.values@[k]
                    == expected.cells[k] by {
                    lemma_offset_join(width as int, height as int, k);
                    let x = k % width as int;
                    let y = k / width as int;
                    assert(self@.at(x, y) == self.values@[k]);
                    assert(before.at(x, y) == before.cells[k]);
                }
                assert(self@.cells =~= expected.cells);
            }
        }
    }

    /// Lays a listed rectangle on the grid, starting at `position`, as
    /// far as its elements hold a value.
    ///
    /// `iter` lists a rectangle of the extent `dimensions` row by row.
    /// Each cell of the grid on which the rectangle lies, and for which
    /// `iter` has an element that is `Some`, gets a clone of what the
    /// element holds. Every other cell keeps its value. Elements are
    /// taken from `iter` only for the rows of the rectangle that reach
    /// into the grid, and none if the rectangle lies outside.
    pub fn transparent_overlay_iter<I: Iterator<Item = Option<T>>>(
        &mut self,
        iter: I,
        position: Position,
        dimensions: Dimensions,
    )
        requires
            old(self).wf(),
        ensures
            final(self).wf(),
            final(self).dimensions == old(self).dimensions,
            final(self).wrapping == old(self).wrapping,
            iter.obeys_prophetic_iter_laws() ==> forall|x: int, y: int|
                old(self)@.holds(x, y) ==> shows(
                    Layer::new(iter.remaining(), position, dimensions).at(x, y),
                    old(self)@.at(x, y),
                    #[trigger] final(self)@.at(x, y),
                ),
            iter.obeys_prophetic_iter_laws() && (forall|k: int|
                0 <= k < iter.remaining().len() ==> iter.remaining()[k] is None)
                ==> final(self).values@ == old(self).values@,
            iter.obeys_prophetic_iter_laws() && clones_exactly::<T>() ==> final(self)@
                == old(self)@.laid(Layer::new(iter.remaining(), position, dimensions)),
    {
        let mut iter = iter;
        let width: usize = self.dimensions.width;
        let height: usize = self.dimensions.height;
        let w: usize = dimensions.width;
        let cw: usize = clipped(position.x, w, width);
        let ch: usize = if cw == 0 {
            0
        } else {
            clipped(position.y, dimensions.height, height)
        };
        let ghost x0 = position.x as int;
        let ghost y0 = position.y as int;
        let ghost h = dimensions.height as int;
        let ghost before = self@;
        let ghost all = iter.remaining();
        let ghost obeys = iter.obeys_prophetic_iter_laws();
        let ghost layer = Layer::new(all, position, dimensions);
        let ghost mut taken: int = 0;
        let mut done: bool = false;
        let mut sy: usize = 0;
        while sy < ch && !done
            invariant
                self.wf(),
                before.wf(),
                self.dimensions == old(self).dimensions,
                self.wrapping == old(self).wrapping,
                before == old(self)@,
                width == self.dimensions.width,
                height == self.dimensions.height,
                w == dimensions.width,
                h == dimensions.height,
                x0 == position.x,
                y0 == position.y,
                cw == clip(x0, w as int, width as int),
                ch <= clip(y0, h, height as int),
                cw > 0 ==> ch == clip(y0, h, height as int),
                layer == Layer::new(all, position, dimensions),
                obeys == iter.obeys_prophetic_iter_laws(),
                sy <= ch,
                !done ==> taken == sy * w,
                done && obeys ==> taken == all.len(),
                obeys ==> 0 <= taken <= all.len() && iter.remaining() == all.skip(taken),
                obeys ==> forall|x: int, y: int|
                    before.holds(x, y) ==> if offset(w as int, x - x0, y - y0) < taken {
                        shows(layer.at(x, y), before.at(x, y), #[trigger] self@.at(x, y))
                    } else {
                        self@.at(x, y) == before.at(x, y)
                    },
            decreases
                    (ch - sy) + (if done {
                        0int
                    } else {
                        1int
                    }),
        {
            let mut sx: usize = 0;
            while sx < w && !done
                invariant
                    self.wf(),
                    before.wf(),
                    self.dimensions == old(self).dimensions,
                    self.wrapping == old(self).wrapping,
                    before == old(self)@,
                    width == self.dimensions.width,
                    height == self.dimensions.height,
                    w == dimensions.width,
                    h == dimensions.height,
                    x0 == position.x,
                    y0 == position.y,
                    cw == clip(x0, w as int, width as int),
                    ch <= clip(y0, h, height as int),
                cw > 0 ==> ch == clip(y0, h, height as int),
                    layer == Layer::new(all, position, dimensions),
                    obeys == iter.obeys_prophetic_iter_laws(),
                    sy < ch,
                    sx <= w,
                    !done ==> taken == sy * w + sx,
                    done && obeys ==> taken == all.len(),
                    obeys ==> 0 <= taken <= all.len() && iter.remaining() == all.skip(taken),
                    obeys ==> forall|x: int, y: int|
                        before.holds(x, y) ==> if offset(w as int, x - x0, y - y0) < taken {
                            shows(layer.at(x, y), before.at(x, y), #[trigger] self@.at(x, y))
                        } else {
                            self@.at(x, y) == before.at(x, y)
                        },
                decreases
                        (w - sx) + (if done {
                            0int
                        } else {
                            1int
                        }),
            {
                let ghost earlier = self@;
                match iter.next() {
                    Some(item) => {
                        if sx < cw {
                            if let Some(value) = &item {
                                proof {
                                    self.lemma_cell_in_storage(x0 + sx, y0 + sy);
                                }
                                let target: usize = (position.y + sy) * width + (position.x + sx);
                                self.values.set(target, value.clone());
                            }
                        }
                        proof {
                            if obeys {
                                assert(all.skip(taken)[0] == all[taken]);
                                assert(all.skip(taken).drop_first() =~= all.skip(taken + 1));
                                lemma_offset_split(w as int, sx as int, sy as int);
                                assert forall|x: int, y: int| before.holds(x, y) implies if offset(
                                    w as int,
                                    x - x0,
                                    y - y0,
                                ) < taken + 1 {
                                    shows(layer.at(x, y), before.at(x, y), #[trigger] self@.at(x, y))
                                } else {
                                    self@.at(x, y) == before.at(x, y)
                                } by {
                                    lemma_offset_split(width as int, x, y);
                                    lemma_offset_in_storage(width as int, height as int, x, y);
                                    let kept = earlier.at(x, y);
                                    if x == x0 + sx && y == y0 + sy {
                                        lemma_offset_split(width as int, x0 + sx, y0 + sy);
                                    } else {
                                        if sx < cw {
                                            lemma_offset_split(width as int, x0 + sx, y0 + sy);
                                        }
                                        assert(self@.at(x, y) == kept);
                                        if covers(x0, y0, w as int, h, x, y) {
                                            lemma_offset_split(w as int, x - x0, y - y0);
                                        }
                                    }
                                }
                            }
                            taken = taken + 1;
                        }
                        sx += 1;
                    },
                    None => {
                        done = true;
                    },
                }
            }
            if !done {
                assert((sy + 1) * w == sy * w + w) by (nonlinear_arith);
                sy += 1;
            }
        }
        proof {
            if obeys {
                assert forall|x: int, y: int| before.holds(x, y) implies shows(
                    layer.at(x, y),
                    before.at(x, y),
                    #[trigger] self@.at(x, y),
                ) by {
                    let place = offset(w as int, x - x0, y - y0);
                    if place >= taken && covers(x0, y0, w as int, h, x, y) && !done {
                        assert(place < ch * w) by (nonlinear_arith)
                            requires
                                place == (y - y0) * w + (x - x0),
                                0 <= x - x0 < w,
                                0 <= y - y0 < ch,
                        ;
                    }
                }
            }
            if obeys && (forall|k: int| 0 <= k < all.len() ==> all[k] is None) {
                assert forall|k: int| 0 <= k < self.values@.len() implies self.values@[k]
                    == before.cells[k] by {
                    lemma_offset_join(width as int, height as int, k);
                    let x = k % width as int;
                    let y = k / width as int;
                    assert(self@.at(x, y) == self.values@[k]);
                    assert(before.at(x, y) == before.cells[k]);
                }
                assert(self.values@ =~= before.cells);
            }
            if obeys && clones_exactly::<T>() {
                let expected = before.laid(layer);
                assert forall|k: int| 0 <= k < self.values@.len() implies self.values@[k]
                    == expected.cells[k] by {
                    lemma_offset_join(width as int, height as int, k);
                    let x = k % width as int;
                    let y = k / width as int;
                    assert(self@.at(x, y) == self.values@[k]);
                    assert(before.at(x, y) == before.cells[k]);
                }
                assert(self@.cells =~= expected.cells);
            }
        }
    }

    /// Lays a rectangle of the extent `dimensions`, listed row by row in
    /// a slice, on the grid, as far as its elements hold a value.
    fn lay_present(&mut self, items: &[Option<T>], position: Position, dimensions: Dimensions)
        requires
            old(self).wf(),
        ensures
            final(self).wf(),
            final(self).dimensions == old(self).dimensions,
            final(self).wrapping == old(self).wrapping,
            forall|x: int, y: int|
                old(self)@.holds(x, y) ==> shows(
                    Layer::new(items@, position, dimensions).at(x, y),
                    old(self)@.at(x, y),
                    #[trigger] final(self)@.at(x, y),
                ),
            (forall|k: int| 0 <= k < items@.len() ==> items@[k] is None) ==> final(self).values@
                == old(self).values@,
            clones_exactly::<T>() ==> final(self)@ == old(self)@.laid(
                Layer::new(items@, position, dimensions),
            ),
    {
        let width: usize = self.dimensions.width;
        let height: usize = self.dimensions.height;
        let w: usize = dimensions.width;
        let cw: usize = clipped(position.x, w, width);
        let ch: usize = clipped(position.y, dimensions.height, height);
        let ghost x0 = position.x as int;
        let ghost y0 = position.y as int;
        let ghost before = self@;
        let count: usize = items.len();
        let mut sy: usize = 0;
        while sy < ch
            invariant
                self.wf(),
                before.wf(),
                self.dimensions == old(self).dimensions,
                self.wrapping == old(self).wrapping,
                before == old(self)@,
                width == self.dimensions.width,
                height == self.dimensions.height,
                w == dimensions.width,
                x0 == position.x,
                y0 == position.y,
                cw == clip(x0, w as int, width as int),
                ch == clip(y0, dimensions.height as int, height as int),
                count == items@.len(),
                sy <= ch,
                forall|x: int, y: int|
                    before.holds(x, y) ==> {
                        let place = offset(w as int, x - x0, y - y0);
                        if covers(x0, y0, w as int, sy as int, x, y) && place < items@.len() {
                            shows(items@[place], before.at(x, y), #[trigger] self@.at(x, y))
                        } else {
                            self@.at(x, y) == before.at(x, y)
                        }
                    },
            decreases ch - sy,
        {
            let mut sx: usize = 0;
            while sx < cw
                invariant
                    self.wf(),
                    before.wf(),
                    self.dimensions == old(self).dimensions,
                    self.wrapping == old(self).wrapping,
                    before == old(self)@,
                    width == self.dimensions.width,
                    height == self.dimensions.height,
                    w == dimensions.width,
                    x0 == position.x,
                    y0 == position.y,
                    cw == clip(x0, w as int, width as int),
                    ch == clip(y0, dimensions.height as int, height as int),
                    count == items@.len(),
                    sy < ch,
                    sx <= cw,
                    forall|x: int, y: int|
                        before.holds(x, y) ==> {
                            let place = offset(w as int, x - x0, y - y0);
                            if written(x0, y0, w as int, sy as int, sx as int, x, y) && place
                                < items@.len() {
                                shows(items@[place], before.at(x, y), #[trigger] self@.at(x, y))
                            } else {
                                self@.at(x, y) == before.at(x, y)
                            }
                        },
                decreases cw - sx,
            {
                proof {
                    self.lemma_cell_in_storage(x0 + sx, y0 + sy);
                }
                let place = source_place(w, sx, sy);
                let target: usize = (position.y + sy) * width + (position.x + sx);
                let ghost earlier = self@;
                match place {
                    Some(p) => {
                        if p < count {
                            if let Some(item) = &items[p] {
                                self.values.set(target, item.clone());
                            }
                        }
                    },
                    None => {},
                }
                proof {
                    assert forall|x: int, y: int| before.holds(x, y) implies {
                        let place = offset(w as int, x - x0, y - y0);
                        if written(x0, y0, w as int, sy as int, sx + 1, x, y) && place
                            < items@.len() {
                            shows(items@[place], before.at(x, y), #[trigger] self@.at(x, y))
                        } else {
                            self@.at(x, y) == before.at(x, y)
                        }
                    } by {
                        lemma_offset_split(width as int, x, y);
                        lemma_offset_split(width as int, x0 + sx, y0 + sy);
                        lemma_offset_in_storage(width as int, height as int, x, y);
                        let kept = earlier.at(x, y);
                        if x == x0 + sx && y == y0 + sy {
                            assert(offset(width as int, x, y) == target);
                            assert(!written(x0, y0, w as int, sy as int, sx as int, x, y));
                        } else {
                            assert(offset(width as int, x, y) != target);
                            assert(self@.at(x, y) == kept);
                            assert(written(x0, y0, w as int, sy as int, sx + 1, x, y) == written(
                                x0,
                                y0,
                                w as int,
                                sy as int,
                                sx as int,
                                x,
                                y,
                            ));
                        }
                    }
                }
                sx += 1;
            }
            proof {
                assert forall|x: int, y: int| before.holds(x, y) implies {
                    let place = offset(w as int, x - x0, y - y0);
                    if covers(x0, y0, w as int, sy + 1, x, y) && place < items@.len() {
                        shows(items@[place], before.at(x, y), #[trigger] self@.at(x, y))
                    } else {
                        self@.at(x, y) == before.at(x, y)
                    }
                } by {
                    assert(covers(x0, y0, w as int, sy + 1, x, y) == written(
                        x0,
                        y0,
                        w as int,
                        sy as int,
                        cw as int,
                        x,
                        y,
                    ));
                }
            }
            sy += 1;
        }
        proof {
            if forall|k: int| 0 <= k < items@.len() ==> items@[k] is None {
                assert forall|k: int| 0 <= k < self.values@.len() implies self.values@[k]
                    == before.cells[k] by {
                    lemma_offset_join(width as int, height as int, k);
                    let x = k % width as int;
                    let y = k / width as int;
                    assert(self@.at(x, y) == self.values@[k]);
                    assert(before.at(x, y) == before.cells[k]);
                }
                assert(self.values@ =~= before.cells);
            }
            if clones_exactly::<T>() {
                let expected = before.laid(Layer::new(items@, position, dimensions));
                assert forall|k: int| 0 <= k < self.values@.len() implies self.values@[k]
                    == expected.cells[k] by {
                    lemma_offset_join(width as int, height as int, k);
                    let x = k % width as int;
                    let y = k / width as int;
                    assert(self@.at(x, y) == self.values@[k]);
                    assert(before.at(x, y) == before.cells[k]);
                }
                assert(self@.cells =~= expected.cells);
            }
        }
    }

    /// Lays `matrix` on the grid, starting at `position`.
    ///
    /// Each cell of this grid on which `matrix` lies gets a clone of the
    /// cell of `matrix` that lies on it. Every other cell keeps its value:
    /// only the part of `matrix` that falls inside this grid is written.
    /// A `matrix` of this grid's extent laid on the top left corner
    /// replaces every cell.
    pub fn overlay(&mut self, matrix: &Matrix<T>, position: Position)
        requires
            old(self).wf(),
            matrix.wf(),
        ensures
            final(self).wf(),
            final(self).dimensions == old(self).dimensions,
            final(self).wrapping == old(self).wrapping,
            forall|x: int, y: int|
                old(self)@.holds(x, y) ==> if covers(
                    position.x as int,
                    position.y as int,
                    matrix.dimensions.width as int,
                    matrix.dimensions.height as int,
                    x,
                    y,
                ) {
                    cloned(
                        matrix@.at(x - position.x, y - position.y),
                        #[trigger] final(self)@.at(x, y),
                    )
                } else {
                    final(self)@.at(x, y) == old(self)@.at(x, y)
                },
            matrix.dimensions == old(self).dimensions && position.x == 0 && position.y == 0
                ==> clones(matrix.values@, final(self).values@),
            clones_exactly::<T>() ==> final(self)@ == old(self)@.laid(
                Layer::new(present(matrix.values@), position, matrix.dimensions),
            ),
    {
        let source = matrix.values.iter();
        let ghost items = source.remaining();
        self.overlay_iter(source, position, matrix.dimensions);
        proof {
            assert(items.unref() =~= matrix.values@);
            let width = self.dimensions.width as int;
            let height = self.dimensions.height as int;
            let source = matrix.dimensions.width as int;
            assert forall|x: int, y: int| old(self)@.holds(x, y) implies if covers(
                position.x as int,
                position.y as int,
                source,
                matrix.dimensions.height as int,
                x,
                y,
            ) {
                cloned(matrix@.at(x - position.x, y - position.y), #[trigger] self@.at(x, y))
            } else {
                self@.at(x, y) == old(self)@.at(x, y)
            } by {
                if covers(
                    position.x as int,
                    position.y as int,
                    source,
                    matrix.dimensions.height as int,
                    x,
                    y,
                ) {
                    lemma_offset_in_storage(
                        source,
                        matrix.dimensions.height as int,
                        x - position.x,
                        y - position.y,
                    );
                    let place = offset(source, x - position.x, y - position.y);
                    assert(items.unref()[place] == *items[place]);
                }
            }
            if matrix.dimensions == old(self).dimensions && position.x == 0 && position.y == 0 {
                assert forall|k: int| 0 <= k < matrix.values@.len() implies cloned(
                    matrix.values@[k],
                    #[trigger] self.values@[k],
                ) by {
                    lemma_offset_join(width, height, k);
                    assert(cloned(matrix@.at(k % width, k / width), self@.at(k % width, k / width)));
                }
            }
        }
    }

    /// Lays `matrix` on the grid, starting at `position`, as far as its
    /// cells hold a value.
    ///
    /// Each cell of this grid on which a cell of `matrix` lies that holds
    /// a value gets a clone of that value. Every other cell keeps its
    /// value; a `matrix` that holds no value at all changes nothing.
    pub fn transparent_overlay(&mut self, matrix: &Matrix<Option<T>>, position: Position)
        requires
            old(self).wf(),
            matrix.wf(),
        ensures
            final(self).wf(),
            final(self).dimensions == old(self).dimensions,
            final(self).wrapping == old(self).wrapping,
            forall|x: int, y: int|
                old(self)@.holds(x, y) ==> if covers(
                    position.x as int,
                    position.y as int,
                    matrix.dimensions.width as int,
                    matrix.dimensions.height as int,
                    x,
                    y,
                ) {
                    shows(
                        matrix@.at(x - position.x, y - position.y),
                        old(self)@.at(x, y),
                        #[trigger] final(self)@.at(x, y),
                    )
                } else {
                    final(self)@.at(x, y) == old(self)@.at(x, y)
                },
            (forall|k: int| 0 <= k < matrix.values@.len() ==> matrix.values@[k] is None)
                ==> final(self).values@ == old(self).values@,
            clones_exactly::<T>() ==> final(self)@ == old(self)@.laid(
                Layer::new(matrix.values@, position, matrix.dimensions),
            ),
    {
        self.lay_present(matrix.values.as_slice(), position, matrix.dimensions);
        proof {
            let source = matrix.dimensions.width as int;
            assert forall|x: int, y: int| old(self)@.holds(x, y) implies if covers(
                position.x as int,
                position.y as int,
                source,
                matrix.dimensions.height as int,
                x,
                y,
            ) {
                shows(
                    matrix@.at(x - position.x, y - position.y),
                    old(self)@.at(x, y),
                    #[trigger] self@.at(x, y),
                )
            } else {
                self@.at(x, y) == old(self)@.at(x, y)
            } by {
                if covers(
                    position.x as int,
                    position.y as int,
                    source,
                    matrix.dimensions.height as int,
                    x,
                    y,
                ) {
                    lemma_offset_in_storage(
                        source,
                        matrix.dimensions.height as int,
                        x - position.x,
                        y - position.y,
                    );
                }
            }
        }
    }
}

} // verus!
