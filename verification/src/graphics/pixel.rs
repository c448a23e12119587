//! The element of a tile.

use crate::tools::color::Color;
use vstd::prelude::*;
use vstd::std_specs::iter::IteratorSpec;

verus! {

/// One element of a tile: a colour, or nothing.
#[derive(Debug, Clone, Copy)]
pub enum Pixel {
    /// A colour to draw.
    Color(Color),
    /// Nothing to draw: what lies below shows.
    Absent,
}

impl Default for Pixel {
    /// No pixel.
    fn default() -> (pixel: Self)
        ensures
            pixel == Pixel::Absent,
    {
        Pixel::Absent
    }
}

impl Pixel {
    /// The colour to draw, if there is one.
    pub open spec fn spec_color(self) -> Option<Color> {
        match self {
            Pixel::Color(color) => Some(color),
            Pixel::Absent => None,
        }
    }

    /// The colour to draw, if there is one.
    pub fn color(&self) -> (color: Option<Color>)
        ensures
            color == self.spec_color(),
    {
        match self {
            Pixel::Color(color) => Some(*color),
            Pixel::Absent => None,
        }
    }
}

/// For each pixel the colour to draw, if there is one.
pub open spec fn colors(pixels: Seq<Pixel>) -> Seq<Option<Color>> {
    Seq::new(pixels.len(), |k: int| pixels[k].spec_color())
}

/// For each pixel that `pixels` lists the colour to draw, if there is
/// one. The list must come to an end.
pub fn colors_of<'a, I: Iterator<Item = &'a Pixel>>(pixels: I) -> (items: Vec<Option<Color>>)
    requires
        pixels.obeys_prophetic_iter_laws(),
        pixels.decrease() is Some,
    ensures
        items@ == colors(pixels.remaining().unref()),
{
    let mut pixels = pixels;
    let ghost all = pixels.remaining();
    let mut items: Vec<Option<Color>> = Vec::new();
    loop
        invariant
            pixels.obeys_prophetic_iter_laws(),
            pixels.decrease() is Some,
            items@.len() + pixels.remaining().len() == all.len(),
            pixels.remaining() == all.skip(items@.len() as int),
            forall|j: int| 0 <= j < items@.len() ==> #[trigger] items@[j] == all[j].spec_color(),
        ensures
            items@ == colors(all.unref()),
        decreases pixels.decrease()->0,
    {
        let ghost taken = items@.len() as int;
        match pixels.next() {
            Some(pixel) => {
                proof {
                    assert(all.skip(taken)[0] == all[taken]);
                    assert(all.skip(taken).drop_first() =~= all.skip(taken + 1));
                }
                items.push(pixel.color());
            },
            None => {
                assert(items@ =~= colors(all.unref()));
                break ;
            },
        }
    }
    items
}

} // verus!
