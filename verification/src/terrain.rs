//! Terrain: one column of stone, dirt and grass per `(x, z)`, with a tree on
//! top of some columns.
use vstd::prelude::*;
use crate::coord::Coord;
use crate::grid_math::{lemma_column_of, lemma_index_bounds};
use crate::rng::TreeRng;
use crate::world::{box_meets_size, fill_map, in_box, World};

verus! {

/// Block ids used by the terrain.
pub const STONE: u32 = 1;
pub const GRASS: u32 = 2;
pub const DIRT: u32 = 3;
pub const LOG: u32 = 4;
pub const LEAVES: u32 = 5;

/// A tree grows on a column with a chance of `TREE_CHANCE_NUM` in
/// `TREE_CHANCE_DEN`.
pub const TREE_CHANCE_NUM: u32 = 1;
pub const TREE_CHANCE_DEN: u32 = 100;

/// The block at height `y` of a column whose surface is at height `h`: grass
/// on the surface, four blocks of dirt under it, stone below, air above.
pub open spec fn terrain_block(y: int, h: int) -> u32 {
    if y == h {
        GRASS
    } else if h - 4 <= y < h {
        DIRT
    } else if y < h {
        STONE
    } else {
        0
    }
}

/// The block at `(x, y, z)` once column `(cx, cz)` with surface `h` is laid
/// over `prev`: air in the column leaves what was there.
pub open spec fn column_value(x: int, y: int, z: int, cx: int, h: int, cz: int, prev: u32) -> u32 {
    if x == cx && z == cz && terrain_block(y, h) != 0 {
        terrain_block(y, h)
    } else {
        prev
    }
}

/// The block at `(x, y, z)` once a tree on the column `(cx, cz)` with surface
/// `h` is planted over `prev`: a trunk of three logs, then two layers of 5x5
/// leaves, a 3x3 layer, and a plus-shaped top.
pub open spec fn tree_value(x: int, y: int, z: int, cx: int, h: int, cz: int, prev: u32) -> u32 {
    let v1 = if in_box(x, y, z, cx, h + 1, cz, cx, h + 3, cz) {
        LOG
    } else {
        prev
    };
    let v2 = if in_box(x, y, z, cx - 2, h + 4, cz - 2, cx + 2, h + 5, cz + 2) {
        LEAVES
    } else {
        v1
    };
    let v3 = if in_box(x, y, z, cx - 1, h + 6, cz - 1, cx + 1, h + 6, cz + 1) {
        LEAVES
    } else {
        v2
    };
    let v4 = if in_box(x, y, z, cx - 1, h + 7, cz, cx + 1, h + 7, cz) {
        LEAVES
    } else {
        v3
    };
    if in_box(x, y, z, cx, h + 7, cz - 1, cx, h + 7, cz + 1) {
        LEAVES
    } else {
        v4
    }
}

/// Whether a tree on column `(cx, cz)` with surface `h` has a block inside a
/// grid of the given size.
pub open spec fn tree_meets(size: Coord, cx: int, h: int, cz: int) -> bool {
    ||| box_meets_size(size, cx, h + 1, cz, cx, h + 3, cz)
    ||| box_meets_size(size, cx - 2, h + 4, cz - 2, cx + 2, h + 5, cz + 2)
    ||| box_meets_size(size, cx - 1, h + 6, cz - 1, cx + 1, h + 6, cz + 1)
    ||| box_meets_size(size, cx - 1, h + 7, cz, cx + 1, h + 7, cz)
    ||| box_meets_size(size, cx, h + 7, cz - 1, cx, h + 7, cz + 1)
}

/// The block at `(x, y, z)` after the first `k` columns, taken z-major over a
/// grid `sx` wide, have been laid down in order: column `c` has surface
/// `heights[c]` and carries a tree when `trees[c]`.
pub open spec fn terrain_value(
    sx: int,
    heights: Seq<i32>,
    trees: Seq<bool>,
    k: nat,
    x: int,
    y: int,
    z: int,
) -> u32
    decreases k,
{
    if k == 0 {
        0
    } else {
        let c = k - 1;
        let cx = c % sx;
        let cz = c / sx;
        let h = heights[c] as int;
        let v = column_value(
            x,
            y,
            z,
            cx,
            h,
            cz,
            terrain_value(sx, heights, trees, (k - 1) as nat, x, y, z),
        );
        if trees[c] {
            tree_value(x, y, z, cx, h, cz, v)
        } else {
            v
        }
    }
}

/// Whether laying down the first `k` columns writes inside the grid.
pub open spec fn terrain_touches(size: Coord, heights: Seq<i32>, trees: Seq<bool>, k: nat) -> bool
    decreases k,
{
    if k == 0 {
        false
    } else {
        let c = k - 1;
        ||| terrain_touches(size, heights, trees, (k - 1) as nat)
        ||| (heights[c] >= 0 && size.y > 0)
        ||| (trees[c] && tree_meets(size, c % size.x as int, heights[c] as int, c / size.x as int))
    }
}

/// The outcome of each draw: whether each column got a tree.
pub open spec fn drawn_trees(draws: Seq<(u32, u32, bool)>) -> Seq<bool> {
    draws.map_values(|d: (u32, u32, bool)| d.2)
}

/// Whether `(x, y, z)` lies in a grid of the given size.
pub open spec fn in_size(size: Coord, x: int, y: int, z: int) -> bool {
    0 <= x < size.x && 0 <= y < size.y && 0 <= z < size.z
}

/// The grid after the first `k` columns have been laid down.
pub open spec fn terrain_prefix(size: Coord, heights: Seq<i32>, trees: Seq<bool>, k: nat) -> Map<
    (int, int, int),
    u32,
> {
    Map::new(
        |p: (int, int, int)| in_size(size, p.0, p.1, p.2),
        |p: (int, int, int)| terrain_value(size.x as int, heights, trees, k, p.0, p.1, p.2),
    )
}

/// The whole terrain: every column of the grid laid down.
pub open spec fn terrain_map(size: Coord, heights: Seq<i32>, trees: Seq<bool>) -> Map<
    (int, int, int),
    u32,
> {
    terrain_prefix(size, heights, trees, (size.x * size.z) as nat)
}

/// Whether `heights` and `trees` describe every column of a grid of the given
/// size, with every tree fitting in `i32` coordinates.
pub open spec fn terrain_inputs_ok(size: Coord, heights: Seq<i32>, trees: Seq<bool>) -> bool {
    &&& heights.len() == size.x * size.z
    &&& trees.len() == size.x * size.z
    &&& forall|c: int|
        0 <= c < trees.len() && #[trigger] trees[c] ==> {
            &&& heights[c] + 7 <= i32::MAX
            &&& c % size.x as int + 2 <= i32::MAX
            &&& c / size.x as int + 2 <= i32::MAX
        }
}

/// The block at height `y` of a column whose surface is at height `h`.
pub fn column_block(y: i32, h: i32) -> (b: u32)
    ensures
        b == terrain_block(y as int, h as int),
{
    let y = y as i64;
    let h = h as i64;
    if y == h {
        GRASS
    } else if y >= h - 4 && y < h {
        DIRT
    } else if y < h {
        STONE
    } else {
        0
    }
}

impl World {
    /// Lays column `(x, z)` with surface `h` over the grid, writing each of
    /// its non-air blocks.
    fn fill_column(&mut self, x: i32, z: i32, h: i32)
        requires
            old(self).wf(),
            old(self).is_generated(),
            0 <= x < old(self).size.x,
            0 <= z < old(self).size.z,
        ensures
            final(self).wf(),
            final(self).is_generated(),
            final(self).same_setup(old(self)),
            final(self)@ == Map::new(
                |p: (int, int, int)| old(self)@.contains_key(p),
                |p: (int, int, int)|
                    column_value(p.0, p.1, p.2, x as int, h as int, z as int, old(self)@[p]),
            ),
            final(self).updated == (old(self).updated || (h >= 0 && old(self).size.y > 0)),
    {
        let ghost w0 = *self;
        let mut y: i32 = 0;
        while y < self.size.y
            invariant
                self.wf(),
                self.is_generated(),
                self.same_setup(&w0),
                0 <= y <= self.size.y,
                0 <= x < self.size.x,
                0 <= z < self.size.z,
                self@ == Map::new(
                    |p: (int, int, int)| w0@.contains_key(p),
                    |p: (int, int, int)|
                        if p.1 < y {
                            column_value(p.0, p.1, p.2, x as int, h as int, z as int, w0@[p])
                        } else {
                            w0@[p]
                        },
                ),
                self.updated == (w0.updated || (y > 0 && h >= 0)),
            decreases self.size.y - y,
        {
            let block = column_block(y, h);
            if block != 0 {
                self.set_block(x, y, z, block);
            }
            assert(self@ =~= Map::new(
                |p: (int, int, int)| w0@.contains_key(p),
                |p: (int, int, int)|
                    if p.1 < y + 1 {
                        column_value(p.0, p.1, p.2, x as int, h as int, z as int, w0@[p])
                    } else {
                        w0@[p]
                    },
            ));
            y = y + 1;
        }
        assert(self@ =~= Map::new(
            |p: (int, int, int)| w0@.contains_key(p),
            |p: (int, int, int)| column_value(p.0, p.1, p.2, x as int, h as int, z as int, w0@[p]),
        ));
    }

    /// Plants a tree on column `(x, z)` whose surface is at height `h`.
    fn plant_tree(&mut self, x: i32, h: i32, z: i32)
        requires
            old(self).wf(),
            old(self).is_generated(),
            0 <= x,
            0 <= z,
            x + 2 <= i32::MAX,
            z + 2 <= i32::MAX,
            h + 7 <= i32::MAX,
        ensures
            final(self).wf(),
            final(self).is_generated(),
            final(self).same_setup(old(self)),
            final(self)@ == Map::new(
                |p: (int, int, int)| old(self)@.contains_key(p),
                |p: (int, int, int)|
                    tree_value(p.0, p.1, p.2, x as int, h as int, z as int, old(self)@[p]),
            ),
            final(self).updated == (old(self).updated || tree_meets(
                old(self).size,
                x as int,
                h as int,
                z as int,
            )),
    {
        let ghost w0 = *self;
        self.fill_blocks(x, h + 1, z, x, h + 3, z, LOG);
        self.fill_blocks(x - 2, h + 4, z - 2, x + 2, h + 5, z + 2, LEAVES);
        self.fill_blocks(x - 1, h + 6, z - 1, x + 1, h + 6, z + 1, LEAVES);
        self.fill_blocks(x - 1, h + 7, z, x + 1, h + 7, z, LEAVES);
        self.fill_blocks(x, h + 7, z - 1, x, h + 7, z + 1, LEAVES);
        assert(self@ =~= Map::new(
            |p: (int, int, int)| w0@.contains_key(p),
            |p: (int, int, int)| tree_value(p.0, p.1, p.2, x as int, h as int, z as int, w0@[p]),
        ));
    }

    /// Allocates the grid and lays down every column, z-major: column
    /// `c = z * size.x + x` gets surface `heights[c]` and, when `trees[c]`,
    /// a tree. Earlier columns' trees may be overwritten by later columns'
    /// ground and the other way round, in that order.
    pub fn build_terrain(&mut self, heights: &Vec<i32>, trees: &Vec<bool>)
        requires
            old(self).size_ok(),
            terrain_inputs_ok(old(self).size, heights@, trees@),
        ensures
            final(self).wf(),
            final(self).is_generated(),
            final(self).same_setup(old(self)),
            final(self)@ == terrain_map(old(self).size, heights@, trees@),
            final(self).updated == (old(self).updated || terrain_touches(
                old(self).size,
                heights@,
                trees@,
                (old(self).size.x * old(self).size.z) as nat,
            )),
    {
        let ghost w0 = *self;
        let ghost sx = self.size.x as int;
        let ghost sz = self.size.z as int;
        proof {
            assert(0 <= self.size.x * self.size.y && 0 <= self.volume()) by (nonlinear_arith)
                requires
                    0 <= self.size.x,
                    0 <= self.size.y,
                    0 <= self.size.z,
            ;
        }
        let volume = (self.size.x * self.size.y * self.size.z) as usize;
        self.blocks = vec![0u32; volume];
        proof {
            assert forall|p: (int, int, int)| #[trigger]
                self@.contains_key(p) implies self@[p] == terrain_prefix(
                w0.size,
                heights@,
                trees@,
                0,
            )[p] by {
                lemma_index_bounds(
                    p.0,
                    p.1,
                    p.2,
                    self.size.x as int,
                    self.size.y as int,
                    self.size.z as int,
                );
                assert(cloned(0u32, self.blocks@[self.index_of(p.0, p.1, p.2)]));
            }
            assert(self@ =~= terrain_prefix(w0.size, heights@, trees@, 0));
        }
        let mut z: i32 = 0;
        while z < self.size.z
            invariant
                self.wf(),
                self.is_generated(),
                self.same_setup(&w0),
                sx == self.size.x,
                sz == self.size.z,
                terrain_inputs_ok(w0.size, heights@, trees@),
                0 <= z <= sz,
                self@ == terrain_prefix(w0.size, heights@, trees@, (z * sx) as nat),
                self.updated == (w0.updated || terrain_touches(
                    w0.size,
                    heights@,
                    trees@,
                    (z * sx) as nat,
                )),
            decreases sz - z,
        {
            let mut x: i32 = 0;
            while x < self.size.x
                invariant
                    self.wf(),
                    self.is_generated(),
                    self.same_setup(&w0),
                    sx == self.size.x,
                    sz == self.size.z,
                        terrain_inputs_ok(w0.size, heights@, trees@),
                    0 <= z < sz,
                    0 <= x <= sx,
                    self@ == terrain_prefix(w0.size, heights@, trees@, (z * sx + x) as nat),
                    self.updated == (w0.updated || terrain_touches(
                        w0.size,
                        heights@,
                        trees@,
                        (z * sx + x) as nat,
                    )),
                decreases sx - x,
            {
                let ghost k = z * sx + x;
                proof {
                    assert(z * sx + x < sx * sz) by (nonlinear_arith)
                        requires
                            0 <= z < sz,
                            0 <= x < sx,
                    ;
                    lemma_column_of(x as int, z as int, sx);
                    assert(0 <= z * sx) by (nonlinear_arith)
                        requires
                            0 <= z,
                            0 <= sx,
                    ;
                    assert(z * sx + x < heights@.len());
                    assert(heights@.len() == heights.len());
                    assert(z * sx + x <= usize::MAX);
                }
                let c = z as usize * self.size.x as usize + x as usize;
                let h = heights[c];
                self.fill_column(x, z, h);
                if trees[c] {
                    self.plant_tree(x, h, z);
                }
                assert(self@ =~= terrain_prefix(w0.size, heights@, trees@, (k + 1) as nat));
                assert((z * sx + x + 1) as nat == (k + 1) as nat);
                x = x + 1;
            }
            assert((z + 1) * sx == z * sx + sx) by (nonlinear_arith);
            z = z + 1;
        }
        assert(sz * sx == sx * sz) by (nonlinear_arith);
    }

    /// Allocates the grid and lays down the terrain: `heights[c]` is the
    /// surface of column `c = z * size.x + x`, and each column, z-major, gets
    /// a tree with a chance of 1 in 100, drawn from a generator seeded with
    /// `seed`. Returns that generator: it was seeded with the world's seed and
    /// was asked once per column, in column order, for a chance of
    /// `TREE_CHANCE_NUM` in `TREE_CHANCE_DEN`, and the terrain has a tree on
    /// exactly the columns whose draw came out true. The outcomes themselves
    /// are not stated.
    pub fn generate(&mut self, heights: &Vec<i32>) -> (rng: TreeRng)
        requires
            old(self).size_ok(),
            heights@.len() == old(self).size.x * old(self).size.z,
            forall|c: int| 0 <= c < heights@.len() ==> #[trigger] heights@[c] + 7 <= i32::MAX,
            old(self).size.x + 1 <= i32::MAX,
            old(self).size.z + 1 <= i32::MAX,
        ensures
            final(self).wf(),
            final(self).is_generated(),
            final(self).same_setup(old(self)),
            rng.seed() == old(self).seed as u64,
            rng.draws().len() == old(self).size.x * old(self).size.z,
            forall|c: int|
                0 <= c < rng.draws().len() ==> (#[trigger] rng.draws()[c]).0 == TREE_CHANCE_NUM
                    && rng.draws()[c].1 == TREE_CHANCE_DEN,
            final(self)@ == terrain_map(old(self).size, heights@, drawn_trees(rng.draws())),
            final(self).updated == (old(self).updated || terrain_touches(
                old(self).size,
                heights@,
                drawn_trees(rng.draws()),
                (old(self).size.x * old(self).size.z) as nat,
            )),
    {
        let columns = heights.len();
        let mut rng = TreeRng::seeded(self.seed as u64);
        let mut trees: Vec<bool> = Vec::new();
        let mut c: usize = 0;
        while c < columns
            invariant
                c <= columns,
                trees@.len() == c,
                rng.draws().len() == c,
                rng.seed() == self.seed as u64,
                trees@ == drawn_trees(rng.draws()),
                forall|j: int|
                    0 <= j < c ==> (#[trigger] rng.draws()[j]).0 == TREE_CHANCE_NUM && rng.draws()[j].1
                        == TREE_CHANCE_DEN,
            decreases columns - c,
        {
            let t = rng.chance(TREE_CHANCE_NUM, TREE_CHANCE_DEN);
            trees.push(t);
            assert(trees@ =~= drawn_trees(rng.draws()));
            c = c + 1;
        }
        proof {
            let sx = self.size.x as int;
            assert forall|c: int| 0 <= c < trees@.len() && #[trigger] trees@[c] implies {
                &&& heights@[c] + 7 <= i32::MAX
                &&& c % sx + 2 <= i32::MAX
                &&& c / sx + 2 <= i32::MAX
            } by {
                assert(0 < sx && c / sx < self.size.z) by (nonlinear_arith)
                    requires
                        0 <= c < sx * self.size.z,
                        0 <= sx,
                        0 <= self.size.z,
                ;
            }
        }
        self.build_terrain(heights, &trees);
        rng
    }
}

} // verus!
