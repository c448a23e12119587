//! Entities: what is drawn on top of the background.

pub mod animation;
pub mod entity;
pub mod order;

use crate::tile::Tile;
use animation::AnimationPlayer;
use vstd::prelude::*;

verus! {

/// A tile that is drawn on top of a tile map, at a place of its own.
pub enum Entity<'a> {
    Animated {
        /// The column of the top left pixel.
        x: usize,
        /// The row of the top left pixel.
        y: usize,
        /// The player whose frame the entity showed when it was made.
        animation_player: &'a AnimationPlayer<'a, &'a Tile>,
        /// The tile that the entity shows.
        tile: &'a Tile,
        /// The rank in the order of drawing; lower ranks are drawn first.
        order: usize,
    },
    Simple {
        /// The column of the top left pixel.
        x: usize,
        /// The row of the top left pixel.
        y: usize,
        /// The tile that the entity shows.
        tile: &'a Tile,
        /// The rank in the order of drawing; lower ranks are drawn first.
        order: usize,
    },
}

impl<'a> Entity<'a> {
    /// The column of the entity's top left pixel.
    pub open spec fn x(&self) -> usize {
        match self {
            Entity::Simple { x, .. } => *x,
            Entity::Animated { x, .. } => *x,
        }
    }

    /// The row of the entity's top left pixel.
    pub open spec fn y(&self) -> usize {
        match self {
            Entity::Simple { y, .. } => *y,
            Entity::Animated { y, .. } => *y,
        }
    }

    /// The tile that the entity shows.
    pub open spec fn tile(&self) -> &'a Tile {
        match self {
            Entity::Simple { tile, .. } => *tile,
            Entity::Animated { tile, .. } => *tile,
        }
    }

    /// The rank in the order of drawing.
    pub open spec fn order(&self) -> usize {
        match self {
            Entity::Simple { order, .. } => *order,
            Entity::Animated { order, .. } => *order,
        }
    }

    /// This entity in another place.
    pub open spec fn moved(&self, to_x: usize, to_y: usize) -> Entity<'a> {
        match self {
            Entity::Simple { tile, order, .. } => Entity::Simple {
                x: to_x,
                y: to_y,
                tile: *tile,
                order: *order,
            },
            Entity::Animated { animation_player, tile, order, .. } => Entity::Animated {
                x: to_x,
                y: to_y,
                animation_player: *animation_player,
                tile: *tile,
                order: *order,
            },
        }
    }

    /// An entity that shows `tile`.
    pub fn new_simple(x: usize, y: usize, tile: &'a Tile, order: usize) -> (entity: Self)
        ensures
            entity == (Entity::Simple { x, y, tile, order }),
    {
        Self::Simple { x, y, tile, order }
    }

    /// An entity that shows the frame which `animation_player` shows now.
    pub fn new_animated(
        x: usize,
        y: usize,
        animation_player: &'a AnimationPlayer<'a, &'a Tile>,
        order: usize,
    ) -> (entity: Self)
        requires
            animation_player.index < animation_player.reels().len(),
            animation_player.reels()[animation_player.index as int].shown()
                < animation_player.frames@.len(),
        ensures
            entity == (Entity::Animated {
                x,
                y,
                animation_player,
                tile: animation_player.frames@[animation_player.reels()[animation_player.index as int].shown() as int],
                order,
            }),
    {
        Self::Animated { x, y, animation_player, tile: *animation_player.get_frame(), order }
    }

    /// The place of the entity and the tile that it shows.
    pub fn to_position_matrix(&self) -> (placed: (usize, usize, &Tile))
        ensures
            placed.0 == self.x(),
            placed.1 == self.y(),
            placed.2 == self.tile(),
    {
        match self {
            Self::Simple { x, y, tile, .. } => (*x, *y, *tile),
            Self::Animated { x, y, tile, .. } => (*x, *y, *tile),
        }
    }

    /// The column of the top left pixel.
    pub fn get_x(&self) -> (x: &usize)
        ensures
            *x == self.x(),
    {
        match self {
            Self::Simple { x, .. } => x,
            Self::Animated { x, .. } => x,
        }
    }

    /// The column, open for writing. Nothing else of the entity changes.
    pub fn get_x_mut(&mut self) -> (x: &mut usize)
        ensures
            *x == old(self).x(),
            *final(self) == old(self).moved(*final(x), old(self).y()),
    {
        match self {
            Self::Simple { x, .. } => x,
            Self::Animated { x, .. } => x,
        }
    }

    /// The row of the top left pixel.
    pub fn get_y(&self) -> (y: &usize)
        ensures
            *y == self.y(),
    {
        match self {
            Self::Simple { y, .. } => y,
            Self::Animated { y, .. } => y,
        }
    }

    /// The row, open for writing. Nothing else of the entity changes.
    pub fn get_y_mut(&mut self) -> (y: &mut usize)
        ensures
            *y == old(self).y(),
            *final(self) == old(self).moved(old(self).x(), *final(y)),
    {
        match self {
            Self::Simple { y, .. } => y,
            Self::Animated { y, .. } => y,
        }
    }

    /// The tile that the entity shows.
    pub fn get_tile(&self) -> (tile: &Tile)
        ensures
            tile == self.tile(),
    {
        match self {
            Self::Simple { tile, .. } => tile,
            Self::Animated { tile, .. } => tile,
        }
    }

    /// The rank in the order of drawing; lower ranks are drawn first.
    pub fn get_order(&self) -> (order: &usize)
        ensures
            *order == self.order(),
    {
        match self {
            Self::Simple { order, .. } => order,
            Self::Animated { order, .. } => order,
        }
    }
}

impl<'a> Clone for Entity<'a> {
    fn clone(&self) -> (copy: Self)
        ensures
            copy == *self,
    {
        match self {
            Self::Simple { x, y, tile, order } => Self::Simple {
                x: *x,
                y: *y,
                tile: *tile,
                order: *order,
            },
            Self::Animated { x, y, animation_player, tile, order } => Self::Animated {
                x: *x,
                y: *y,
                animation_player: *animation_player,
                tile: *tile,
                order: *order,
            },
        }
    }
}

} // verus!
