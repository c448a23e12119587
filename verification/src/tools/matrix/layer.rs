//! Layers: rectangles of items that are laid on a grid one after the
//! other, where an item that holds nothing lets show what lies below.

use super::layout::{lemma_offset_in_storage, lemma_offset_join, lemma_offset_split, offset};
use super::Grid;
use crate::tools::transform::{Dimensions, Position};
use vstd::prelude::*;

verus! {

/// Whether a rectangle `w` wide and `h` high, laid with its top left cell
/// on `(x0, y0)`, lies on the cell `(x, y)`.
pub open spec fn covers(x0: int, y0: int, w: int, h: int, x: int, y: int) -> bool {
    x0 <= x < x0 + w && y0 <= y < y0 + h
}

/// The sequence in which each element holds the element of `values` at
/// its place.
pub open spec fn present<T>(values: Seq<T>) -> Seq<Option<T>> {
    Seq::new(values.len(), |k: int| Some(values[k]))
}

/// A rectangle `width` wide and `height` high whose top left cell lies on
/// `(x, y)`, with the items that its cells hold, row by row. There may be
/// fewer items than cells, or more; only an item that has a cell counts.
pub struct Layer<T> {
    pub items: Seq<Option<T>>,
    pub x: int,
    pub y: int,
    pub width: int,
    pub height: int,
}

impl<T> Layer<T> {
    /// The layer that lists a rectangle of the extent `dimensions` laid
    /// on `position`.
    pub open spec fn new(items: Seq<Option<T>>, position: Position, dimensions: Dimensions) -> Layer<
        T,
    > {
        Layer {
            items,
            x: position.x as int,
            y: position.y as int,
            width: dimensions.width as int,
            height: dimensions.height as int,
        }
    }

    /// The layer that puts nothing anywhere.
    pub open spec fn nothing() -> Layer<T> {
        Layer { items: Seq::empty(), x: 0, y: 0, width: 0, height: 0 }
    }

    /// What the layer puts on the cell `(x, y)`: what the item holds
    /// whose cell lies there, if the rectangle lies on the cell and has
    /// an item for it.
    pub open spec fn at(self, x: int, y: int) -> Option<T> {
        let place = offset(self.width, x - self.x, y - self.y);
        if covers(self.x, self.y, self.width, self.height, x, y) && place < self.items.len() {
            self.items[place]
        } else {
            None
        }
    }
}

impl<T> Grid<T> {
    /// This grid with `layer` laid on it: each cell shows what the layer
    /// puts on it, and its own value where the layer puts nothing.
    pub open spec fn laid(self, layer: Layer<T>) -> Grid<T> {
        self.with_cells(
            Seq::new(
                self.cells.len(),
                |k: int|
                    match layer.at(k % self.width, k / self.width) {
                        Some(value) => value,
                        None => self.cells[k],
                    },
            ),
        )
    }

    /// This grid with the layers laid on it one after the other, the
    /// first layer first.
    pub open spec fn laid_all(self, layers: Seq<Layer<T>>) -> Grid<T>
        decreases layers.len(),
    {
        if layers.len() == 0 {
            self
        } else {
            self.laid_all(layers.drop_last()).laid(layers.last())
        }
    }

    /// A grid with a layer laid on it has the same extent, and each of
    /// its cells shows what the layer puts on it, or what it showed
    /// before.
    pub proof fn lemma_laid(self, layer: Layer<T>)
        requires
            self.wf(),
        ensures
            self.laid(layer).wf(),
            self.laid(layer).width == self.width,
            self.laid(layer).height == self.height,
            self.laid(layer).wrapping == self.wrapping,
            forall|x: int, y: int|
                self.holds(x, y) ==> #[trigger] self.laid(layer).at(x, y) == match layer.at(x, y) {
                    Some(value) => value,
                    None => self.at(x, y),
                },
    {
        assert forall|x: int, y: int| self.holds(x, y) implies #[trigger] self.laid(layer).at(x, y)
            == match layer.at(x, y) {
            Some(value) => value,
            None => self.at(x, y),
        } by {
            lemma_offset_in_storage(self.width, self.height, x, y);
            lemma_offset_split(self.width, x, y);
        }
    }

    /// Two grids of one extent and mode are equal if they show the same
    /// in every cell.
    pub proof fn lemma_same_cells(self, other: Grid<T>)
        requires
            self.wf(),
            other.wf(),
            self.width == other.width,
            self.height == other.height,
            self.wrapping == other.wrapping,
            forall|x: int, y: int| self.holds(x, y) ==> self.at(x, y) == other.at(x, y),
        ensures
            self == other,
    {
        assert forall|k: int| 0 <= k < self.cells.len() implies self.cells[k] == other.cells[k] by {
            lemma_offset_join(self.width, self.height, k);
            assert(self.at(k % self.width, k / self.width) == other.at(
                k % self.width,
                k / self.width,
            ));
        }
        assert(self.cells =~= other.cells);
    }

    /// A layer that puts nothing on any cell of the grid changes nothing.
    pub proof fn lemma_laid_nothing(self, layer: Layer<T>)
        requires
            self.wf(),
            forall|x: int, y: int| self.holds(x, y) ==> layer.at(x, y) is None,
        ensures
            self.laid(layer) == self,
    {
        self.lemma_laid(layer);
        self.laid(layer).lemma_same_cells(self);
    }

    /// A layer of the grid's own extent, laid on the top left corner with
    /// a value in every item, replaces every cell, whatever the grid
    /// showed before.
    pub proof fn lemma_laid_full(self, values: Seq<T>)
        requires
            self.wf(),
            values.len() == self.cells.len(),
        ensures
            self.laid(
                Layer { items: present(values), x: 0, y: 0, width: self.width, height: self.height },
            ) == self.with_cells(values),
    {
        let layer = Layer {
            items: present(values),
            x: 0,
            y: 0,
            width: self.width,
            height: self.height,
        };
        assert forall|k: int| 0 <= k < self.cells.len() implies self.laid(layer).cells[k]
            == values[k] by {
            lemma_offset_join(self.width, self.height, k);
        }
        assert(self.laid(layer).cells =~= values);
    }

    /// Laying layers keeps the extent and the mode.
    pub proof fn lemma_laid_all(self, layers: Seq<Layer<T>>)
        requires
            self.wf(),
        ensures
            self.laid_all(layers).wf(),
            self.laid_all(layers).width == self.width,
            self.laid_all(layers).height == self.height,
            self.laid_all(layers).wrapping == self.wrapping,
        decreases layers.len(),
    {
        if layers.len() > 0 {
            self.lemma_laid_all(layers.drop_last());
            self.laid_all(layers.drop_last()).lemma_laid(layers.last());
        }
    }

    /// Laying one more layer: the layers up to place `count` and then the
    /// layer at that place are the layers up to the place after it.
    pub proof fn lemma_laid_next(self, layers: Seq<Layer<T>>, count: int)
        requires
            0 <= count < layers.len(),
        ensures
            self.laid_all(layers.take(count + 1)) == self.laid_all(layers.take(count)).laid(
                layers[count],
            ),
    {
        assert(layers.take(count + 1).drop_last() =~= layers.take(count));
    }

    /// A cell shows what the last layer puts on it that puts something
    /// there: if the layer at place `top` puts a value on the cell
    /// `(x, y)` and no later layer puts one there, the cell shows that
    /// value.
    pub proof fn lemma_last_layer(self, layers: Seq<Layer<T>>, x: int, y: int, top: int)
        requires
            self.wf(),
            self.holds(x, y),
            0 <= top < layers.len(),
            layers[top].at(x, y) is Some,
            forall|k: int| top < k < layers.len() ==> (#[trigger] layers[k]).at(x, y) is None,
        ensures
            self.laid_all(layers).at(x, y) == layers[top].at(x, y)->0,
        decreases layers.len(),
    {
        let rest = layers.drop_last();
        self.lemma_laid_all(rest);
        self.laid_all(rest).lemma_laid(layers.last());
        if top < layers.len() - 1 {
            assert(layers[layers.len() - 1].at(x, y) is None);
            assert forall|k: int| top < k < rest.len() implies (#[trigger] rest[k]).at(x, y)
                is None by {
                assert(rest[k] == layers[k]);
            }
            self.lemma_last_layer(rest, x, y, top);
        }
    }

    /// A cell on which no layer puts anything shows what it showed
    /// before.
    pub proof fn lemma_no_layer(self, layers: Seq<Layer<T>>, x: int, y: int)
        requires
            self.wf(),
            self.holds(x, y),
            forall|k: int| 0 <= k < layers.len() ==> (#[trigger] layers[k]).at(x, y) is None,
        ensures
            self.laid_all(layers).at(x, y) == self.at(x, y),
        decreases layers.len(),
    {
        if layers.len() > 0 {
            let rest = layers.drop_last();
            self.lemma_laid_all(rest);
            self.laid_all(rest).lemma_laid(layers.last());
            assert(layers[layers.len() - 1].at(x, y) is None);
            assert forall|k: int| 0 <= k < rest.len() implies (#[trigger] rest[k]).at(x, y)
                is None by {
                assert(rest[k] == layers[k]);
            }
            self.lemma_no_layer(rest, x, y);
        }
    }

    /// Laying the same layers once more changes nothing: every cell
    /// already shows what the last layer puts on it.
    pub proof fn lemma_laid_all_again(self, layers: Seq<Layer<T>>)
        requires
            self.wf(),
        ensures
            self.laid_all(layers).laid_all(layers) == self.laid_all(layers),
    {
        let once = self.laid_all(layers);
        let twice = once.laid_all(layers);
        self.lemma_laid_all(layers);
        once.lemma_laid_all(layers);
        assert forall|x: int, y: int| twice.holds(x, y) implies twice.at(x, y) == once.at(x, y) by {
            let top = last_on(layers, x, y);
            lemma_last_on(layers, x, y);
            if top >= 0 {
                self.lemma_last_layer(layers, x, y, top);
                once.lemma_last_layer(layers, x, y, top);
            } else {
                once.lemma_no_layer(layers, x, y);
            }
        }
        twice.lemma_same_cells(once);
    }
}

/// The place of the last layer that puts something on the cell `(x, y)`,
/// or -1 if none does.
pub open spec fn last_on<T>(layers: Seq<Layer<T>>, x: int, y: int) -> int
    decreases layers.len(),
{
    if layers.len() == 0 {
        -1
    } else if layers.last().at(x, y) is Some {
        layers.len() - 1
    } else {
        last_on(layers.drop_last(), x, y)
    }
}

/// [`last_on`] finds the last layer that puts something on the cell, and
/// finds none only where there is none.
pub proof fn lemma_last_on<T>(layers: Seq<Layer<T>>, x: int, y: int)
    ensures
        -1 <= last_on(layers, x, y) < layers.len(),
        last_on(layers, x, y) >= 0 ==> layers[last_on(layers, x, y)].at(x, y) is Some,
        forall|k: int|
            last_on(layers, x, y) < k < layers.len() ==> (#[trigger] layers[k]).at(x, y) is None,
    decreases layers.len(),
{
    if layers.len() > 0 && !(layers.last().at(x, y) is Some) {
        let rest = layers.drop_last();
        lemma_last_on(rest, x, y);
        assert forall|k: int| last_on(layers, x, y) < k < layers.len() implies (
        #[trigger] layers[k]).at(x, y) is None by {
            if k < rest.len() {
                assert(rest[k] == layers[k]);
            }
        }
    }
}

} // verus!
