use vstd::prelude::*;
use crate::coord::Coord;
use crate::grid_math::{linear_index, lemma_index_bounds, lemma_index_injective};

verus! {

/// Edge length of the world along each axis, in blocks.
pub const WORLD_EDGE: i32 = 256;

/// The voxel world: a grid of `size.x * size.y * size.z` block ids stored
/// x-fastest, then y, then z. Block id 0 is air. The grid is empty until
/// `generate` (or `build_terrain`) allocates it.
pub struct World {
    pub blocks: Vec<u32>,
    pub seed: u32,
    pub size: Coord,
    /// Set whenever a write lands inside the grid; the renderer clears it
    /// after uploading the blocks.
    pub updated: bool,
    /// The block id that placing puts down.
    pub selected_block: u32,
}

/// Whether `(x, y, z)` lies in the box with corners `(x1, y1, z1)` and
/// `(x2, y2, z2)`, both inclusive.
pub open spec fn in_box(x: int, y: int, z: int, x1: int, y1: int, z1: int, x2: int, y2: int, z2: int) -> bool {
    x1 <= x <= x2 && y1 <= y <= y2 && z1 <= z <= z2
}

/// Whether the inclusive range `lo..=hi` meets `0..n`.
pub open spec fn range_meets(lo: int, hi: int, n: int) -> bool {
    lo <= hi && lo < n && 0 <= hi && 0 < n
}

/// Whether the box meets a grid of the given size.
pub open spec fn box_meets_size(size: Coord, x1: int, y1: int, z1: int, x2: int, y2: int, z2: int) -> bool {
    &&& range_meets(x1, x2, size.x as int)
    &&& range_meets(y1, y2, size.y as int)
    &&& range_meets(z1, z2, size.z as int)
}

/// `m` with every position of the box set to `block`.
pub open spec fn fill_map(
    m: Map<(int, int, int), u32>,
    x1: int,
    y1: int,
    z1: int,
    x2: int,
    y2: int,
    z2: int,
    block: u32,
) -> Map<(int, int, int), u32> {
    Map::new(
        |p: (int, int, int)| m.contains_key(p),
        |p: (int, int, int)|
            if in_box(p.0, p.1, p.2, x1, y1, z1, x2, y2, z2) {
                block
            } else {
                m[p]
            },
    )
}

/// Whether `p` comes before the cursor `(z, y, x)` in z-, then y-, then
/// x-order.
spec fn visited(p: (int, int, int), z: int, y: int, x: int) -> bool {
    p.2 < z || (p.2 == z && p.1 < y) || (p.2 == z && p.1 == y && p.0 < x)
}

/// `m` with the positions of the box that come before the cursor set to
/// `block`.
spec fn fill_prefix(
    m: Map<(int, int, int), u32>,
    x1: int,
    y1: int,
    z1: int,
    x2: int,
    y2: int,
    z2: int,
    block: u32,
    z: int,
    y: int,
    x: int,
) -> Map<(int, int, int), u32> {
    Map::new(
        |p: (int, int, int)| m.contains_key(p),
        |p: (int, int, int)|
            if in_box(p.0, p.1, p.2, x1, y1, z1, x2, y2, z2) && visited(p, z, y, x) {
                block
            } else {
                m[p]
            },
    )
}

impl World {
    /// Number of blocks in the grid.
    pub open spec fn volume(&self) -> int {
        self.size.x * self.size.y * self.size.z
    }

    /// A size with no negative component whose volume, and the area of each
    /// z-layer, fit in an `i32`, and a grid that is either not yet allocated
    /// or holds exactly one id per position.
    pub open spec fn wf(&self) -> bool {
        &&& self.size_ok()
        &&& (self.blocks.len() == 0 || self.blocks.len() == self.volume())
    }

    /// A size with no negative component whose volume, and the area of each
    /// z-layer, fit in an `i32`.
    pub open spec fn size_ok(&self) -> bool {
        &&& 0 <= self.size.x
        &&& 0 <= self.size.y
        &&& 0 <= self.size.z
        &&& self.size.x * self.size.y <= i32::MAX
        &&& self.volume() <= i32::MAX
    }

    pub open spec fn is_generated(&self) -> bool {
        self.blocks.len() == self.volume()
    }

    pub open spec fn in_bounds(&self, x: int, y: int, z: int) -> bool {
        &&& 0 <= x < self.size.x
        &&& 0 <= y < self.size.y
        &&& 0 <= z < self.size.z
    }

    pub open spec fn index_of(&self, x: int, y: int, z: int) -> int {
        linear_index(x, y, z, self.size.x as int, self.size.y as int)
    }

    /// Whether the box meets the grid.
    pub open spec fn box_meets(&self, x1: int, y1: int, z1: int, x2: int, y2: int, z2: int) -> bool {
        box_meets_size(self.size, x1, y1, z1, x2, y2, z2)
    }

    /// Size, seed and selection: everything but the blocks and the flag.
    pub open spec fn same_setup(&self, other: &World) -> bool {
        &&& self.size == other.size
        &&& self.seed == other.seed
        &&& self.selected_block == other.selected_block
    }

    /// A world with the given seed, 256 blocks along each axis, no blocks
    /// allocated yet, and block 1 selected.
    pub fn new(seed: u32) -> (w: World)
        ensures
            w.wf(),
            w.seed == seed,
            w.size == (Coord { x: WORLD_EDGE, y: WORLD_EDGE, z: WORLD_EDGE }),
            w.blocks@.len() == 0,
            !w.updated,
            w.selected_block == 1,
    {
        let w = World {
            blocks: Vec::new(),
            seed,
            size: Coord { x: WORLD_EDGE, y: WORLD_EDGE, z: WORLD_EDGE },
            updated: false,
            selected_block: 1,
        };
        assert(w.volume() == 16777216 && w.size.x * w.size.y == 65536) by (nonlinear_arith)
            requires
                w.size.x == 256,
                w.size.y == 256,
                w.size.z == 256,
        ;
        w
    }

    /// Position of an in-bounds block in `blocks`.
    fn index(&self, x: i32, y: i32, z: i32) -> (i: usize)
        requires
            self.wf(),
            self.in_bounds(x as int, y as int, z as int),
        ensures
            i == self.index_of(x as int, y as int, z as int),
            i < self.volume(),
    {
        proof {
            lemma_index_bounds(
                x as int,
                y as int,
                z as int,
                self.size.x as int,
                self.size.y as int,
                self.size.z as int,
            );
        }
        (x + y * self.size.x + z * self.size.x * self.size.y) as usize
    }

    /// Sets the block at `(x, y, z)`; a position outside the grid is ignored.
    /// A write inside the grid raises `updated`.
    pub fn set_block(&mut self, x: i32, y: i32, z: i32, block: u32)
        requires
            old(self).wf(),
            old(self).in_bounds(x as int, y as int, z as int) ==> old(self).is_generated(),
        ensures
            final(self).wf(),
            final(self).same_setup(old(self)),
            final(self).blocks@.len() == old(self).blocks@.len(),
            old(self).in_bounds(x as int, y as int, z as int) ==> {
                &&& final(self).blocks@ == old(self).blocks@.update(
                    old(self).index_of(x as int, y as int, z as int),
                    block,
                )
                &&& final(self)@ == old(self)@.insert((x as int, y as int, z as int), block)
                &&& final(self).updated
            },
            !old(self).in_bounds(x as int, y as int, z as int) ==> *final(self) == *old(self),
    {
        if x >= 0 && y >= 0 && z >= 0 && x < self.size.x && y < self.size.y && z < self.size.z {
            let idx = self.index(x, y, z);
            self.blocks.set(idx, block);
            self.updated = true;
            proof {
                let p = (x as int, y as int, z as int);
                assert forall|q: (int, int, int)| #[trigger]
                    self@.contains_key(q) && q != p implies self@[q] == old(self)@[q] by {
                    if self.index_of(q.0, q.1, q.2) == self.index_of(p.0, p.1, p.2) {
                        lemma_index_injective(
                            q.0,
                            q.1,
                            q.2,
                            p.0,
                            p.1,
                            p.2,
                            self.size.x as int,
                            self.size.y as int,
                        );
                    }
                    lemma_index_bounds(
                        q.0,
                        q.1,
                        q.2,
                        self.size.x as int,
                        self.size.y as int,
                        self.size.z as int,
                    );
                }
                assert(self@ =~= old(self)@.insert(p, block));
            }
        }
    }

    /// The block at `(x, y, z)`, or 0 (air) outside the grid.
    pub fn get_block(&self, x: i32, y: i32, z: i32) -> (b: u32)
        requires
            self.wf(),
            self.in_bounds(x as int, y as int, z as int) ==> self.is_generated(),
        ensures
            b == if self@.contains_key((x as int, y as int, z as int)) {
                self@[(x as int, y as int, z as int)]
            } else {
                0
            },
    {
        if x >= 0 && y >= 0 && z >= 0 && x < self.size.x && y < self.size.y && z < self.size.z {
            let idx = self.index(x, y, z);
            self.blocks[idx]
        } else {
            0
        }
    }

    /// Sets every block of the box from `(x1, y1, z1)` to `(x2, y2, z2)`,
    /// both corners included, to `block`; positions outside the grid are
    /// skipped. `updated` is raised when the box meets the grid.
    pub fn fill_blocks(&mut self, x1: i32, y1: i32, z1: i32, x2: i32, y2: i32, z2: i32, block: u32)
        requires
            old(self).wf(),
            old(self).box_meets(x1 as int, y1 as int, z1 as int, x2 as int, y2 as int, z2 as int)
                ==> old(self).is_generated(),
        ensures
            final(self).wf(),
            final(self).same_setup(old(self)),
            final(self).blocks@.len() == old(self).blocks@.len(),
            final(self)@ == fill_map(
                old(self)@,
                x1 as int,
                y1 as int,
                z1 as int,
                x2 as int,
                y2 as int,
                z2 as int,
                block,
            ),
            final(self).updated == (old(self).updated || old(self).box_meets(
                x1 as int,
                y1 as int,
                z1 as int,
                x2 as int,
                y2 as int,
                z2 as int,
            )),
    {
        let ghost w0 = *self;
        let ghost bx1 = x1 as int;
        let ghost by1 = y1 as int;
        let ghost bz1 = z1 as int;
        let ghost bx2 = x2 as int;
        let ghost by2 = y2 as int;
        let ghost bz2 = z2 as int;
        let ghost sx = self.size.x as int;
        let ghost sy = self.size.y as int;
        let ghost sz = self.size.z as int;
        let ghost mx = range_meets(bx1, bx2, sx);
        let ghost my = range_meets(by1, by2, sy);
        let mut z: i64 = z1 as i64;
        while z <= z2 as i64
            invariant
                self.wf(),
                self.same_setup(&w0),
                self.blocks@.len() == w0.blocks@.len(),
                w0.box_meets(bx1, by1, bz1, bx2, by2, bz2) ==> w0.is_generated(),
                bz1 <= z <= bz2 + 1 || z == bz1,
                sx == self.size.x && sy == self.size.y && sz == self.size.z,
                bx1 == x1 && by1 == y1 && bz1 == z1 && bx2 == x2 && by2 == y2 && bz2 == z2,
                mx == range_meets(bx1, bx2, sx) && my == range_meets(by1, by2, sy),
                self@ == fill_prefix(w0@, bx1, by1, bz1, bx2, by2, bz2, block, z as int, by1, bx1),
                self.updated == (w0.updated || (mx && my && range_meets(bz1, z - 1, sz))),
            decreases bz2 + 1 - z,
        {
            let mut y: i64 = y1 as i64;
            while y <= y2 as i64
                invariant
                    self.wf(),
                    self.same_setup(&w0),
                    self.blocks@.len() == w0.blocks@.len(),
                    w0.box_meets(bx1, by1, bz1, bx2, by2, bz2) ==> w0.is_generated(),
                    bz1 <= z <= bz2,
                    by1 <= y <= by2 + 1 || y == by1,
                    sx == self.size.x && sy == self.size.y && sz == self.size.z,
                    bx1 == x1 && by1 == y1 && bz1 == z1 && bx2 == x2 && by2 == y2 && bz2 == z2,
                    mx == range_meets(bx1, bx2, sx) && my == range_meets(by1, by2, sy),
                    self@ == fill_prefix(w0@, bx1, by1, bz1, bx2, by2, bz2, block, z as int, y as int, bx1),
                    self.updated == (w0.updated || (mx && my && range_meets(bz1, z - 1, sz)) || (mx && 0
                        <= z < sz && range_meets(by1, y - 1, sy))),
                decreases by2 + 1 - y,
            {
                let mut x: i64 = x1 as i64;
                while x <= x2 as i64
                    invariant
                        self.wf(),
                        self.same_setup(&w0),
                        self.blocks@.len() == w0.blocks@.len(),
                        w0.box_meets(bx1, by1, bz1, bx2, by2, bz2) ==> w0.is_generated(),
                        bz1 <= z <= bz2,
                        by1 <= y <= by2,
                        bx1 <= x <= bx2 + 1 || x == bx1,
                        sx == self.size.x && sy == self.size.y && sz == self.size.z,
                        bx1 == x1 && by1 == y1 && bz1 == z1 && bx2 == x2 && by2 == y2 && bz2 == z2,
                        mx == range_meets(bx1, bx2, sx) && my == range_meets(by1, by2, sy),
                        self@ == fill_prefix(
                            w0@,
                            bx1,
                            by1,
                            bz1,
                            bx2,
                            by2,
                            bz2,
                            block,
                            z as int,
                            y as int,
                            x as int,
                        ),
                        self.updated == (w0.updated || (mx && my && range_meets(bz1, z - 1, sz)) || (mx
                            && 0 <= z < sz && range_meets(by1, y - 1, sy)) || (0 <= z < sz && 0 <= y
                            < sy && range_meets(bx1, x - 1, sx))),
                    decreases bx2 + 1 - x,
                {
                    self.set_block(x as i32, y as i32, z as i32, block);
                    proof {
                        let p = (x as int, y as int, z as int);
                        if self.in_bounds(p.0, p.1, p.2) {
                            assert(w0.is_generated());
                        }
                        assert(self@ =~= fill_prefix(
                            w0@,
                            bx1,
                            by1,
                            bz1,
                            bx2,
                            by2,
                            bz2,
                            block,
                            z as int,
                            y as int,
                            x + 1,
                        ));
                    }
                    x = x + 1;
                }
                assert(self@ =~= fill_prefix(
                    w0@,
                    bx1,
                    by1,
                    bz1,
                    bx2,
                    by2,
                    bz2,
                    block,
                    z as int,
                    y + 1,
                    bx1,
                ));
                y = y + 1;
            }
            assert(self@ =~= fill_prefix(
                w0@,
                bx1,
                by1,
                bz1,
                bx2,
                by2,
                bz2,
                block,
                z + 1,
                by1,
                bx1,
            ));
            z = z + 1;
        }
        assert(self@ =~= fill_map(w0@, bx1, by1, bz1, bx2, by2, bz2, block));
    }
}

impl View for World {
    /// The blocks of an allocated grid, keyed by position; empty before the
    /// grid is allocated.
    type V = Map<(int, int, int), u32>;

    open spec fn view(&self) -> Map<(int, int, int), u32> {
        Map::new(
            |p: (int, int, int)| self.is_generated() && self.in_bounds(p.0, p.1, p.2),
            |p: (int, int, int)| self.blocks@[self.index_of(p.0, p.1, p.2)],
        )
    }
}

} // verus!
