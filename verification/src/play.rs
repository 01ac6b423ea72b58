//! The integer side of playing: choosing a block with the digit keys, one
//! step of a ray through the grid, and placing or breaking the block a ray
//! hit.
use vstd::prelude::*;
use crate::coord::{Axis, Coord};
use crate::input::{Input, Key};
use crate::world::World;

verus! {

/// The selection after the digit keys are read: the highest held digit, or
/// `current` when no digit is held.
pub open spec fn digit_selection(keys: Set<Key>, current: u32) -> u32 {
    if keys.contains(Key::Digit9) {
        9
    } else if keys.contains(Key::Digit8) {
        8
    } else if keys.contains(Key::Digit7) {
        7
    } else if keys.contains(Key::Digit6) {
        6
    } else if keys.contains(Key::Digit5) {
        5
    } else if keys.contains(Key::Digit4) {
        4
    } else if keys.contains(Key::Digit3) {
        3
    } else if keys.contains(Key::Digit2) {
        2
    } else if keys.contains(Key::Digit1) {
        1
    } else {
        current
    }
}

/// What one step of a ray does.
#[derive(Clone, Copy, Debug, PartialEq, Eq, Structural)]
pub enum RayStep {
    /// The ray left the grid.
    Exited,
    /// The ray entered this empty cell.
    Moved(Coord),
    /// The ray entered this solid cell through the face with this outward
    /// normal.
    Hit(Coord, Coord),
}

/// `c` moved along `axis` by that component of `step`.
pub open spec fn advance(c: Coord, axis: Axis, step: Coord) -> Coord {
    match axis {
        Axis::X => Coord { x: (c.x + step.x) as i32, ..c },
        Axis::Y => Coord { y: (c.y + step.y) as i32, ..c },
        Axis::Z => Coord { z: (c.z + step.z) as i32, ..c },
    }
}

/// The outward normal of the face a ray stepping along `axis` enters
/// through: against the step when the step is positive, along the axis
/// otherwise.
pub open spec fn face_normal(axis: Axis, step: Coord) -> Coord {
    let n: i32 = if step.along(axis) > 0 {
        -1i32
    } else {
        1i32
    };
    match axis {
        Axis::X => Coord { x: n, y: 0, z: 0 },
        Axis::Y => Coord { x: 0, y: n, z: 0 },
        Axis::Z => Coord { x: 0, y: 0, z: n },
    }
}

/// `v` clamped to `lo..=hi`.
pub open spec fn clamp_int(v: int, lo: int, hi: int) -> int {
    if v < lo {
        lo
    } else if v > hi {
        hi
    } else {
        v
    }
}

/// Whether each component of `c` lies in `0..=size`.
pub open spec fn in_closed_grid(c: Coord, size: Coord) -> bool {
    0 <= c.x <= size.x && 0 <= c.y <= size.y && 0 <= c.z <= size.z
}

impl World {
    /// One step of a ray from `coord` along `axis`: leaves the grid, enters
    /// an empty cell, or hits a solid one.
    pub open spec fn step_outcome(&self, coord: Coord, axis: Axis, step: Coord) -> RayStep {
        let next = advance(coord, axis, step);
        if !self.in_bounds(next.x as int, next.y as int, next.z as int) {
            RayStep::Exited
        } else if self@[next.as_triple()] != 0 {
            RayStep::Hit(next, face_normal(axis, step))
        } else {
            RayStep::Moved(next)
        }
    }

    /// A ray walked from `coord` taking one step along each axis of `axes` in
    /// turn: the first step that leaves the grid or hits a solid block ends
    /// the walk with that outcome; when every step enters an empty cell the
    /// result is `Moved` to the last one (`coord` itself for no steps).
    pub open spec fn walk(&self, coord: Coord, axes: Seq<Axis>, step: Coord) -> RayStep
        decreases axes.len(),
    {
        if axes.len() == 0 {
            RayStep::Moved(coord)
        } else {
            match self.step_outcome(coord, axes[0], step) {
                RayStep::Moved(next) => self.walk(next, axes.drop_first(), step),
                other => other,
            }
        }
    }

    /// Reads the digit keys: the highest held digit becomes the selected
    /// block; with none held the selection stays.
    pub fn select_from_keys(&mut self, input: &Input)
        ensures
            final(self).selected_block == digit_selection(input@, old(self).selected_block),
            final(self).blocks == old(self).blocks,
            final(self).size == old(self).size,
            final(self).seed == old(self).seed,
            final(self).updated == old(self).updated,
    {
        if input.pressed(&Key::Digit1) {
            self.selected_block = 1;
        }
        if input.pressed(&Key::Digit2) {
            self.selected_block = 2;
        }
        if input.pressed(&Key::Digit3) {
            self.selected_block = 3;
        }
        if input.pressed(&Key::Digit4) {
            self.selected_block = 4;
        }
        if input.pressed(&Key::Digit5) {
            self.selected_block = 5;
        }
        if input.pressed(&Key::Digit6) {
            self.selected_block = 6;
        }
        if input.pressed(&Key::Digit7) {
            self.selected_block = 7;
        }
        if input.pressed(&Key::Digit8) {
            self.selected_block = 8;
        }
        if input.pressed(&Key::Digit9) {
            self.selected_block = 9;
        }
    }

    /// `coord` clamped into `0..=size` on each axis, where a ray's walk
    /// through the grid starts.
    pub fn clamp_to_grid(&self, coord: Coord) -> (c: Coord)
        requires
            self.wf(),
        ensures
            c.x == clamp_int(coord.x as int, 0, self.size.x as int),
            c.y == clamp_int(coord.y as int, 0, self.size.y as int),
            c.z == clamp_int(coord.z as int, 0, self.size.z as int),
            in_closed_grid(c, self.size),
    {
        let x = if coord.x < 0 {
            0
        } else if coord.x > self.size.x {
            self.size.x
        } else {
            coord.x
        };
        let y = if coord.y < 0 {
            0
        } else if coord.y > self.size.y {
            self.size.y
        } else {
            coord.y
        };
        let z = if coord.z < 0 {
            0
        } else if coord.z > self.size.z {
            self.size.z
        } else {
            coord.z
        };
        Coord { x, y, z }
    }

    /// Moves a ray one cell from `coord` along `axis` by the matching
    /// component of `step` (each component -1, 0 or 1), then reports whether
    /// it left the grid, hit a solid block, or entered an empty cell. Only a
    /// step that lands inside the grid reads a block.
    pub fn traverse_step(&self, coord: Coord, axis: Axis, step: Coord) -> (r: RayStep)
        requires
            self.wf(),
            self.in_bounds(
                advance(coord, axis, step).x as int,
                advance(coord, axis, step).y as int,
                advance(coord, axis, step).z as int,
            ) ==> self.is_generated(),
            -1 <= step.x <= 1,
            -1 <= step.y <= 1,
            -1 <= step.z <= 1,
            i32::MIN <= coord.along(axis) + step.along(axis) <= i32::MAX,
        ensures
            r == self.step_outcome(coord, axis, step),
    {
        let next = match axis {
            Axis::X => Coord { x: coord.x + step.x, ..coord },
            Axis::Y => Coord { y: coord.y + step.y, ..coord },
            Axis::Z => Coord { z: coord.z + step.z, ..coord },
        };
        if next.x >= self.size.x || next.y >= self.size.y || next.z >= self.size.z || next.x < 0
            || next.y < 0 || next.z < 0 {
            return RayStep::Exited;
        }
        if self.get_block(next.x, next.y, next.z) != 0 {
            let s = match axis {
                Axis::X => step.x,
                Axis::Y => step.y,
                Axis::Z => step.z,
            };
            let n: i32 = if s > 0 {
                -1
            } else {
                1
            };
            let normal = match axis {
                Axis::X => Coord { x: n, y: 0, z: 0 },
                Axis::Y => Coord { x: 0, y: n, z: 0 },
                Axis::Z => Coord { x: 0, y: 0, z: n },
            };
            RayStep::Hit(next, normal)
        } else {
            RayStep::Moved(next)
        }
    }

    /// Puts the selected block in the cell in front of the hit face: `hit`
    /// moved by `normal`. Outside the grid nothing happens.
    pub fn place_block(&mut self, hit: Coord, normal: Coord)
        requires
            old(self).wf(),
            i32::MIN <= hit.x + normal.x <= i32::MAX,
            i32::MIN <= hit.y + normal.y <= i32::MAX,
            i32::MIN <= hit.z + normal.z <= i32::MAX,
            old(self).in_bounds(hit.x + normal.x, hit.y + normal.y, hit.z + normal.z)
                ==> old(self).is_generated(),
        ensures
            final(self).wf(),
            final(self).same_setup(old(self)),
            final(self).blocks@.len() == old(self).blocks@.len(),
            old(self).in_bounds(hit.x + normal.x, hit.y + normal.y, hit.z + normal.z) ==> {
                &&& final(self)@ == old(self)@.insert(
                    (hit.x + normal.x, hit.y + normal.y, hit.z + normal.z),
                    old(self).selected_block,
                )
                &&& final(self).updated
            },
            !old(self).in_bounds(hit.x + normal.x, hit.y + normal.y, hit.z + normal.z)
                ==> *final(self) == *old(self),
    {
        let b = self.selected_block;
        self.set_block(hit.x + normal.x, hit.y + normal.y, hit.z + normal.z, b);
    }

    /// Clears the hit cell to air. Outside the grid nothing happens.
    pub fn break_block(&mut self, hit: Coord)
        requires
            old(self).wf(),
            old(self).in_bounds(hit.x as int, hit.y as int, hit.z as int) ==> old(self).is_generated(),
        ensures
            final(self).wf(),
            final(self).same_setup(old(self)),
            final(self).blocks@.len() == old(self).blocks@.len(),
            old(self).in_bounds(hit.x as int, hit.y as int, hit.z as int) ==> {
                &&& final(self)@ == old(self)@.insert(hit.as_triple(), 0)
                &&& final(self).updated
            },
            !old(self).in_bounds(hit.x as int, hit.y as int, hit.z as int) ==> *final(self)
                == *old(self),
    {
        self.set_block(hit.x, hit.y, hit.z, 0);
    }
}

} // verus!
