//! Coordinates, extents and orientations.

use super::dual_trait::Algebra;
use vstd::prelude::*;

verus! {

/// Where something stands and which way it faces.
#[derive(Clone, Copy, Default)]
pub struct Transform {
    pub position: Position,
    pub rotation: Rotation,
}

impl Transform {
    /// Whether a step toward `facing` leads to a position that can be
    /// counted: up and left need a row or a column to go back to, down
    /// and right one to go on to.
    pub open spec fn can_step(self, facing: Rotation) -> bool {
        match facing {
            Rotation::UP => self.position.y > 0,
            Rotation::LEFT => self.position.x > 0,
            Rotation::DOWN => self.position.y < usize::MAX,
            Rotation::RIGHT => self.position.x < usize::MAX,
        }
    }

    /// This transform after one step toward `facing`: turned to the
    /// facing, and one cell further that way. Up is toward row 0 and left
    /// toward column 0.
    pub open spec fn stepped(self, facing: Rotation) -> Transform {
        Transform {
            position: match facing {
                Rotation::UP => Position { x: self.position.x, y: (self.position.y - 1) as usize },
                Rotation::LEFT => Position {
                    x: (self.position.x - 1) as usize,
                    y: self.position.y,
                },
                Rotation::DOWN => Position {
                    x: self.position.x,
                    y: (self.position.y + 1) as usize,
                },
                Rotation::RIGHT => Position {
                    x: (self.position.x + 1) as usize,
                    y: self.position.y,
                },
            },
            rotation: facing,
        }
    }

    /// Whether a step toward `facing` leads to a position that can be
    /// counted.
    pub fn steps(&self, facing: Rotation) -> (possible: bool)
        ensures
            possible == self.can_step(facing),
    {
        match facing {
            Rotation::UP => self.position.y > 0,
            Rotation::LEFT => self.position.x > 0,
            Rotation::DOWN => self.position.y < usize::MAX,
            Rotation::RIGHT => self.position.x < usize::MAX,
        }
    }

    /// Turns to `facing` and goes one cell that way.
    pub fn step(&mut self, facing: Rotation)
        requires
            old(self).can_step(facing),
        ensures
            *final(self) == old(self).stepped(facing),
    {
        match facing {
            Rotation::UP => {
                self.position.y -= 1;
            },
            Rotation::LEFT => {
                self.position.x -= 1;
            },
            Rotation::DOWN => {
                self.position.y += 1;
            },
            Rotation::RIGHT => {
                self.position.x += 1;
            },
        }
        self.rotation = facing;
    }
}

/// One of four facings. `UP` is the facing in which a tile is stored.
#[derive(Clone, Copy, Default)]
pub enum Rotation {
    #[default]
    UP,
    DOWN,
    LEFT,
    RIGHT,
}

/// A cell address: column `x`, row `y`, counted from the top left.
#[derive(Clone, Copy, Default, Debug)]
pub struct Position {
    pub x: usize,
    pub y: usize,
}

impl Algebra for Position {
    type Item = usize;

    open spec fn pair(&self) -> (usize, usize) {
        (self.x, self.y)
    }

    fn new(first: usize, last: usize) -> (made: Self) {
        Self { x: first, y: last }
    }

    fn first(&self) -> (part: usize) {
        self.x
    }

    fn last(&self) -> (part: usize) {
        self.y
    }

    fn splat(value: usize) -> (made: Self)
        ensures
            made.pair() == (value, value),
    {
        Self { x: value, y: value }
    }
}

/// The extent of a rectangle, in cells.
#[derive(Clone, Copy, Default, Debug)]
pub struct Dimensions {
    pub width: usize,
    pub height: usize,
}

impl Algebra for Dimensions {
    type Item = usize;

    open spec fn pair(&self) -> (usize, usize) {
        (self.width, self.height)
    }

    fn new(first: usize, last: usize) -> (made: Self) {
        Self { width: first, height: last }
    }

    fn first(&self) -> (part: usize) {
        self.width
    }

    fn last(&self) -> (part: usize) {
        self.height
    }

    fn splat(value: usize) -> (made: Self)
        ensures
            made.pair() == (value, value),
    {
        Self { width: value, height: value }
    }
}

impl Dimensions {
    /// The number of cells in a rectangle of this extent.
    pub open spec fn spec_area(&self) -> int {
        self.width * self.height
    }

    /// Whether the number of cells can be counted in `usize`. An extent of
    /// no more than 65535 by 65535 always can.
    pub open spec fn countable(&self) -> bool {
        (self.width <= 0xFFFF && self.height <= 0xFFFF) || self.spec_area() <= usize::MAX
    }

    /// The cells of a countable extent are no more than `usize::MAX`.
    pub proof fn lemma_countable(&self)
        requires
            self.countable(),
        ensures
            0 <= self.spec_area() <= usize::MAX,
    {
        let w = self.width as int;
        let h = self.height as int;
        assert(0 <= w * h) by (nonlinear_arith)
            requires
                0 <= w,
                0 <= h,
        ;
        if w <= 0xFFFF && h <= 0xFFFF {
            assert(w * h <= 0xFFFF * 0xFFFF) by (nonlinear_arith)
                requires
                    0 <= w <= 0xFFFF,
                    0 <= h <= 0xFFFF,
            ;
        }
    }

    /// The number of cells in a rectangle of this extent.
    pub fn area(&self) -> (cells: usize)
        requires
            self.countable(),
        ensures
            cells == self.spec_area(),
    {
        proof {
            self.lemma_countable();
        }
        self.mul_self()
    }

    /// Exchanges width and height.
    pub fn swap(&mut self)
        ensures
            final(self).width == old(self).height,
            final(self).height == old(self).width,
    {
        let hold: usize = self.width;
        self.width = self.height;
        self.height = hold
    }
}

} // verus!
