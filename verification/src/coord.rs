use vstd::prelude::*;

verus! {

/// An integer position (or offset) in the voxel grid.
#[derive(Clone, Copy, Debug, PartialEq, Eq, Structural)]
pub struct Coord {
    pub x: i32,
    pub y: i32,
    pub z: i32,
}

/// One of the three grid axes.
#[derive(Clone, Copy, Debug, PartialEq, Eq, Structural)]
pub enum Axis {
    X,
    Y,
    Z,
}

impl Coord {
    pub fn new(x: i32, y: i32, z: i32) -> (c: Coord)
        ensures
            c.x == x,
            c.y == y,
            c.z == z,
    {
        Coord { x, y, z }
    }

    /// The component of `self` along `axis`.
    pub open spec fn along(self, axis: Axis) -> int {
        match axis {
            Axis::X => self.x as int,
            Axis::Y => self.y as int,
            Axis::Z => self.z as int,
        }
    }

    /// The point as a tuple of mathematical integers.
    pub open spec fn as_triple(self) -> (int, int, int) {
        (self.x as int, self.y as int, self.z as int)
    }
}

} // verus!
