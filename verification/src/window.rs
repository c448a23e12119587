//! The frame that goes to the display: the background with the entities
//! drawn on it, and its packed form.

use crate::entity::entity::Entity;
use crate::entity::order::{drawn_before, in_drawing_order, sort_by_order};
use crate::graphics::pixel::{colors, colors_of, Pixel};
use crate::graphics::tile::Tile;
use crate::tools::color::{pack, Color};
use crate::tools::matrix::layer::Layer;
use crate::tools::matrix::{Grid, Matrix};
use crate::tools::transform::{Dimensions, Rotation};
use vstd::prelude::*;
use vstd::std_specs::iter::IteratorSpec;

verus! {

/// The image of an entity's tile, turned to the entity's facing.
pub open spec fn turned<E: Entity>(entity: E) -> Grid<Pixel> {
    entity.tile().image()@.rotate(entity.transform().rotation)
}

/// What an entity lays on the frame: its turned image with the top left
/// pixel on the entity's position. Pixels without colour put nothing.
pub open spec fn layer_of<E: Entity>(entity: E) -> Layer<Color> {
    Layer {
        items: colors(turned(entity).cells),
        x: entity.transform().position.x as int,
        y: entity.transform().position.y as int,
        width: turned(entity).width,
        height: turned(entity).height,
    }
}

/// What the entities lay on the frame, each in its turn.
pub open spec fn layers_of<E: Entity>(entities: Seq<E>) -> Seq<Layer<Color>> {
    Seq::new(entities.len(), |k: int| layer_of(entities[k]))
}

/// `background` with the entities drawn on it one after the other, the
/// first entity first.
pub open spec fn composed<E: Entity>(background: Grid<Color>, entities: Seq<E>) -> Grid<Color> {
    background.laid_all(layers_of(entities))
}

/// The packed values of a sequence of colours.
pub open spec fn packed(colors: Seq<Color>) -> Seq<u32> {
    Seq::new(colors.len(), |k: int| pack(colors[k]))
}

/// The order of drawing decides what a cell shows. Among the entities
/// that put a colour on the cell `(x, y)`, the one of the highest rank
/// shows, and among these the one that came last in `given`: if that
/// is the entity at place `top` of `given`, the frame composed from
/// the entities in drawing order shows its colour.
pub proof fn lemma_highest_order_wins<E: Entity>(
    background: Grid<Color>,
    given: Seq<E>,
    sorted: Seq<E>,
    from: Seq<int>,
    to: Seq<int>,
    x: int,
    y: int,
    top: int,
)
    requires
        background.wf(),
        background.holds(x, y),
        in_drawing_order(given, sorted, from, to),
        0 <= top < given.len(),
        layer_of(given[top]).at(x, y) is Some,
        forall|i: int|
            0 <= i < given.len() && i != top && (#[trigger] layer_of(given[i])).at(x, y)
                is Some ==> given[i].order() < given[top].order() || (given[i].order()
                == given[top].order() && i < top),
    ensures
        composed(background, sorted).at(x, y) == layer_of(given[top]).at(x, y)->0,
{
    let place = to[top];
    let layers = layers_of(sorted);
    assert(from[place] == top);
    assert(sorted[place] == given[top]);
    assert forall|k: int| place < k < layers.len() implies (#[trigger] layers[k]).at(x, y)
        is None by {
        let i = from[k];
        assert(sorted[k] == given[i]);
        assert(drawn_before(sorted, from, place, k));
        if layer_of(given[i]).at(x, y) is Some {
            assert(i != top);
        }
    }
    background.lemma_last_layer(layers, x, y, place);
}

/// A cell on which no entity puts a colour shows the background.
pub proof fn lemma_background_shows<E: Entity>(
    background: Grid<Color>,
    entities: Seq<E>,
    x: int,
    y: int,
)
    requires
        background.wf(),
        background.holds(x, y),
        forall|k: int|
            0 <= k < entities.len() ==> (#[trigger] layer_of(entities[k])).at(x, y) is None,
    ensures
        composed(background, entities).at(x, y) == background.at(x, y),
{
    let layers = layers_of(entities);
    assert forall|k: int| 0 <= k < layers.len() implies (#[trigger] layers[k]).at(x, y) is None by {
        assert(layer_of(entities[k]).at(x, y) is None);
    }
    background.lemma_no_layer(layers, x, y);
}

/// WindowController holds the frame that is shown: the grid of colours
/// that is the background, and the packed values that go to the display.
pub struct WindowController {
    /// The colours of the background.
    pub matrix: Matrix<Color>,
    /// The packed values that go to the window.
    buffer: Vec<u32>,
}

impl WindowController {
    /// The background.
    pub closed spec fn background(&self) -> Grid<Color> {
        self.matrix@
    }

    /// The packed values that go to the display.
    pub closed spec fn shown(&self) -> Seq<u32> {
        self.buffer@
    }

    /// A frame of the given extent. The background is black, and so is
    /// what is shown.
    pub fn new(dimensions: Dimensions, wrapping: bool) -> (made: Self)
        requires
            dimensions.countable(),
        ensures
            made.background().wf(),
            made.background().width == dimensions.width,
            made.background().height == dimensions.height,
            made.background().wrapping == wrapping,
            forall|k: int|
                0 <= k < made.background().cells.len() ==> #[trigger] made.background().cells[k]
                    == (Color { red: 0, green: 0, blue: 0 }),
            made.shown() == Seq::new(dimensions.spec_area() as nat, |k: int| 0u32),
    {
        let matrix: Matrix<Color> = Matrix::new(dimensions, wrapping);
        let area: usize = dimensions.area();
        let mut buffer: Vec<u32> = Vec::new();
        let mut k: usize = 0;
        while k < area
            invariant
                k <= area,
                buffer@.len() == k,
                forall|j: int| 0 <= j < k ==> #[trigger] buffer@[j] == 0u32,
            decreases area - k,
        {
            buffer.push(0);
            k += 1;
        }
        assert(buffer@ =~= Seq::new(dimensions.spec_area() as nat, |k: int| 0u32));
        Self { matrix, buffer }
    }

    /// The packed values that go to the display, row by row.
    pub fn buffer(&self) -> (values: &Vec<u32>)
        ensures
            values@ == self.shown(),
    {
        &self.buffer
    }

    /// Shows the colours that `buffer` lists: each is packed, in order.
    /// The list must come to an end.
    pub fn update_buffer<I: Iterator<Item = Color>>(&mut self, buffer: I)
        requires
            buffer.obeys_prophetic_iter_laws(),
            buffer.decrease() is Some,
        ensures
            final(self).background() == old(self).background(),
            final(self).shown() == packed(buffer.remaining()),
    {
        let mut buffer = buffer;
        let ghost all = buffer.remaining();
        let mut values: Vec<u32> = Vec::new();
        loop
            invariant
                buffer.obeys_prophetic_iter_laws(),
                buffer.decrease() is Some,
                values@.len() + buffer.remaining().len() == all.len(),
                buffer.remaining() == all.skip(values@.len() as int),
                forall|j: int| 0 <= j < values@.len() ==> #[trigger] values@[j] == pack(all[j]),
            ensures
                values@ == packed(all),
            decreases buffer.decrease()->0,
        {
            let ghost taken = values@.len() as int;
            match buffer.next() {
                Some(color) => {
                    proof {
                        assert(all.skip(taken)[0] == all[taken]);
                        assert(all.skip(taken).drop_first() =~= all.skip(taken + 1));
                    }
                    values.push(u32::from(color));
                },
                None => {
                    assert(values@ =~= packed(all));
                    break ;
                },
            }
        }
        self.buffer = values;
    }

    /// Shows the background with the entities drawn on it.
    ///
    /// The entities are sorted into the order of drawing, and stay so.
    /// Each is then drawn on a copy of the background: its tile, turned to
    /// its facing, is laid at its position, and only the pixels that have
    /// a colour are written. What falls outside the background is left
    /// out. The background itself stays as it is; what is shown is the
    /// packed form of the copy.
    pub fn update_with_entities<E: Entity>(&mut self, entities: &mut [E])
        requires
            old(self).background().wf(),
            forall|k: int|
                0 <= k < old(entities)@.len() ==> (#[trigger] old(entities)@[k]).tile().image().wf(),
        ensures
            final(self).background() == old(self).background(),
            exists|from: Seq<int>, to: Seq<int>|
                in_drawing_order(old(entities)@, final(entities)@, from, to),
            final(self).shown() == packed(
                composed(old(self).background(), final(entities)@).cells,
            ),
            final(self).shown().len() == old(self).background().cells.len(),
    {
        let mut frame: Matrix<Color> = self.matrix.clone();
        assert(frame@.cells =~= self.matrix@.cells);
        let Ghost(maps) = sort_by_order(entities);
        let ghost background = self.matrix@;
        proof {
            assert forall|j: int| 0 <= j < entities@.len() implies (#[trigger] entities@[j]).tile().image().wf() by {
                assert(entities@[j] == old(entities)@[maps.0[j]]);
            }
        }
        let count: usize = entities.len();
        let mut k: usize = 0;
        while k < count
            invariant
                background.wf(),
                count == entities@.len(),
                k <= count,
                forall|j: int|
                    0 <= j < entities@.len() ==> (#[trigger] entities@[j]).tile().image().wf(),
                frame.wf(),
                frame@ == background.laid_all(layers_of(entities@).take(k as int)),
            decreases count - k,
        {
            let (transform, tile) = entities[k].get_position_matrix();
            let image: &Matrix<Pixel> = tile.get_matrix();
            let items: Vec<Option<Color>> = colors_of(image.iter_rotate(transform.rotation));
            let extent: Dimensions = match transform.rotation {
                Rotation::LEFT => Dimensions {
                    width: image.dimensions.height,
                    height: image.dimensions.width,
                },
                Rotation::RIGHT => Dimensions {
                    width: image.dimensions.height,
                    height: image.dimensions.width,
                },
                _ => image.dimensions,
            };
            proof {
                let entity = entities@[k as int];
                assert(entity.tile().image().wf());
                background.lemma_laid_next(layers_of(entities@), k as int);
            }
            frame.transparent_overlay_iter(items.into_iter(), transform.position, extent);
            k += 1;
        }
        proof {
            assert(layers_of(entities@).take(count as int) =~= layers_of(entities@));
            background.lemma_laid_all(layers_of(entities@));
        }
        self.update_buffer(frame.values.into_iter());
        assert(in_drawing_order(old(entities)@, entities@, maps.0, maps.1));
    }
}

} // verus!
