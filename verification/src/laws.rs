//! Properties of the world that span several operations, proved over the
//! same spec functions the operations' contracts use.
use vstd::prelude::*;
use vstd::arithmetic::div_mod::lemma_fundamental_div_mod;
use crate::coord::{Axis, Coord};
use crate::grid_math::{lemma_column_of, lemma_index_onto};
use crate::input::{cursor_after, keys_after, CursorChange, Key};
use crate::play::{advance, digit_selection, in_closed_grid, RayStep};
use crate::terrain::{in_size, terrain_block, terrain_map, terrain_value};
use crate::world::{fill_map, in_box, World};

verus! {

/// After a block is written inside an allocated grid, reading that position
/// gives the block back and every other position reads as before.
pub proof fn law_read_after_write(before: World, after: World, x: int, y: int, z: int, block: u32)
    requires
        before.wf(),
        before.is_generated(),
        before.in_bounds(x, y, z),
        after@ == before@.insert((x, y, z), block),
    ensures
        after@.contains_key((x, y, z)),
        after@[(x, y, z)] == block,
        forall|p: (int, int, int)|
            #![trigger after@[p]]
            before@.contains_key(p) && p != (x, y, z) ==> after@[p] == before@[p],
        after@.dom() == before@.dom(),
{
    assert(after@.dom() =~= before@.dom());
}

/// Two allocated worlds of one size that read the same everywhere hold the
/// same blocks.
pub proof fn law_view_fixes_blocks(a: World, b: World)
    requires
        a.wf(),
        b.wf(),
        a.is_generated(),
        b.is_generated(),
        a.size == b.size,
        a@ == b@,
    ensures
        a.blocks@ == b.blocks@,
{
    assert forall|i: int| 0 <= i < a.blocks@.len() implies a.blocks@[i] == b.blocks@[i] by {
        let p = lemma_index_onto(i, a.size.x as int, a.size.y as int, a.size.z as int);
        assert(a.index_of(p.0, p.1, p.2) == i);
        assert(b.index_of(p.0, p.1, p.2) == i);
        assert(a@.contains_key(p));
        assert(a@[p] == a.blocks@[i]);
        assert(b@[p] == b.blocks@[i]);
    }
    assert(a.blocks@ =~= b.blocks@);
}

/// Building terrain from the same size, surface heights and tree draws gives
/// the same blocks, whatever either world held before: no earlier block,
/// placed or broken, survives a rebuild.
pub proof fn law_terrain_fixes_blocks(a: World, b: World, heights: Seq<i32>, trees: Seq<bool>)
    requires
        a.wf(),
        b.wf(),
        a.is_generated(),
        b.is_generated(),
        a.size == b.size,
        a@ == terrain_map(a.size, heights, trees),
        b@ == terrain_map(b.size, heights, trees),
    ensures
        a.blocks@ == b.blocks@,
{
    law_view_fixes_blocks(a, b);
}

/// Filling a box twice with the same block is the same as filling it once.
pub proof fn law_fill_idempotent(
    m: Map<(int, int, int), u32>,
    x1: int,
    y1: int,
    z1: int,
    x2: int,
    y2: int,
    z2: int,
    block: u32,
)
    ensures
        fill_map(fill_map(m, x1, y1, z1, x2, y2, z2, block), x1, y1, z1, x2, y2, z2, block)
            == fill_map(m, x1, y1, z1, x2, y2, z2, block),
{
    assert(fill_map(fill_map(m, x1, y1, z1, x2, y2, z2, block), x1, y1, z1, x2, y2, z2, block)
        =~= fill_map(m, x1, y1, z1, x2, y2, z2, block));
}

/// Filling the same box twice keeps only the second block.
pub proof fn law_fill_last_wins(
    m: Map<(int, int, int), u32>,
    x1: int,
    y1: int,
    z1: int,
    x2: int,
    y2: int,
    z2: int,
    first: u32,
    second: u32,
)
    ensures
        fill_map(fill_map(m, x1, y1, z1, x2, y2, z2, first), x1, y1, z1, x2, y2, z2, second)
            == fill_map(m, x1, y1, z1, x2, y2, z2, second),
{
    assert(fill_map(fill_map(m, x1, y1, z1, x2, y2, z2, first), x1, y1, z1, x2, y2, z2, second)
        =~= fill_map(m, x1, y1, z1, x2, y2, z2, second));
}

/// Filling a one-block box at a position of the grid is writing that block.
pub proof fn law_fill_single_is_write(m: Map<(int, int, int), u32>, x: int, y: int, z: int, block: u32)
    requires
        m.contains_key((x, y, z)),
    ensures
        fill_map(m, x, y, z, x, y, z, block) == m.insert((x, y, z), block),
{
    assert(fill_map(m, x, y, z, x, y, z, block) =~= m.insert((x, y, z), block));
}

/// Fills of two boxes with no position in common commute.
pub proof fn law_fill_disjoint_commute(
    m: Map<(int, int, int), u32>,
    a: (int, int, int, int, int, int),
    b: (int, int, int, int, int, int),
    block_a: u32,
    block_b: u32,
)
    requires
        forall|x: int, y: int, z: int|
            !(#[trigger] in_box(x, y, z, a.0, a.1, a.2, a.3, a.4, a.5) && in_box(
                x,
                y,
                z,
                b.0,
                b.1,
                b.2,
                b.3,
                b.4,
                b.5,
            )),
    ensures
        fill_map(fill_map(m, a.0, a.1, a.2, a.3, a.4, a.5, block_a), b.0, b.1, b.2, b.3, b.4, b.5, block_b)
            == fill_map(
            fill_map(m, b.0, b.1, b.2, b.3, b.4, b.5, block_b),
            a.0,
            a.1,
            a.2,
            a.3,
            a.4,
            a.5,
            block_a,
        ),
{
    let l = fill_map(
        fill_map(m, a.0, a.1, a.2, a.3, a.4, a.5, block_a),
        b.0,
        b.1,
        b.2,
        b.3,
        b.4,
        b.5,
        block_b,
    );
    let r = fill_map(
        fill_map(m, b.0, b.1, b.2, b.3, b.4, b.5, block_b),
        a.0,
        a.1,
        a.2,
        a.3,
        a.4,
        a.5,
        block_a,
    );
    assert forall|p: (int, int, int)| l.contains_key(p) implies l[p] == r[p] by {
        assert(!(in_box(p.0, p.1, p.2, a.0, a.1, a.2, a.3, a.4, a.5) && in_box(
            p.0,
            p.1,
            p.2,
            b.0,
            b.1,
            b.2,
            b.3,
            b.4,
            b.5,
        )));
    }
    assert(l =~= r);
}

/// A box that misses the grid leaves the world as it was.
pub proof fn law_fill_outside_grid(w: World, x1: int, y1: int, z1: int, x2: int, y2: int, z2: int, block: u32)
    requires
        w.wf(),
        !w.box_meets(x1, y1, z1, x2, y2, z2),
    ensures
        fill_map(w@, x1, y1, z1, x2, y2, z2, block) == w@,
{
    assert(fill_map(w@, x1, y1, z1, x2, y2, z2, block) =~= w@);
}

/// When every tree among the first `k` columns stands on a surface at or
/// above height `y`, laying those columns down gives `(x, y, z)` the block of
/// its own column if that column is laid, and air otherwise.
proof fn lemma_own_column_prefix(
    size: Coord,
    heights: Seq<i32>,
    trees: Seq<bool>,
    k: nat,
    x: int,
    y: int,
    z: int,
)
    requires
        0 < size.x,
        in_size(size, x, y, z),
        k <= trees.len(),
        k <= heights.len(),
        forall|c: int| 0 <= c < k && #[trigger] trees[c] ==> y <= heights[c],
    ensures
        terrain_value(size.x as int, heights, trees, k, x, y, z) == if z * size.x + x < k {
            terrain_block(y, heights[z * size.x + x] as int)
        } else {
            0
        },
    decreases k,
{
    let sx = size.x as int;
    if k > 0 {
        lemma_own_column_prefix(size, heights, trees, (k - 1) as nat, x, y, z);
        let c = k - 1;
        lemma_column_of(x, z, sx);
        lemma_fundamental_div_mod(c, sx);
        assert(c == sx * (c / sx) + c % sx);
        if c % sx == x && c / sx == z {
            assert(z * sx + x == sx * (c / sx) + c % sx) by (nonlinear_arith)
                requires
                    c % sx == x,
                    c / sx == z,
            ;
        } else {
            assert(c != z * sx + x) by {
                if c == z * sx + x {
                    lemma_column_of(x, z, sx);
                }
            }
        }
    }
}

/// Without trees every column holds exactly its own layers: grass at the
/// surface, four dirt blocks below it, stone further down, air above.
pub proof fn law_terrain_without_trees(size: Coord, heights: Seq<i32>, trees: Seq<bool>, x: int, y: int, z: int)
    requires
        0 < size.x,
        0 < size.z,
        heights.len() == size.x * size.z,
        trees.len() == size.x * size.z,
        forall|c: int| 0 <= c < trees.len() ==> !#[trigger] trees[c],
        in_size(size, x, y, z),
    ensures
        terrain_map(size, heights, trees).contains_key((x, y, z)),
        terrain_map(size, heights, trees)[(x, y, z)] == terrain_block(
            y,
            heights[z * size.x + x] as int,
        ),
{
    assert(z * size.x + x < size.x * size.z) by (nonlinear_arith)
        requires
            0 <= z < size.z,
            0 <= x < size.x,
    ;
    lemma_own_column_prefix(size, heights, trees, (size.x * size.z) as nat, x, y, z);
}

/// Trees only grow upward from their own surface: where every column has
/// the same surface `h`, each position at or below it holds its layer
/// whatever trees were planted.
pub proof fn law_trees_leave_ground(size: Coord, heights: Seq<i32>, trees: Seq<bool>, h: i32, x: int, y: int, z: int)
    requires
        0 < size.x,
        0 < size.z,
        heights.len() == size.x * size.z,
        trees.len() == size.x * size.z,
        forall|c: int| 0 <= c < heights.len() ==> #[trigger] heights[c] == h,
        in_size(size, x, y, z),
        y <= h,
    ensures
        terrain_map(size, heights, trees).contains_key((x, y, z)),
        terrain_map(size, heights, trees)[(x, y, z)] == terrain_block(y, h as int),
{
    assert(z * size.x + x < size.x * size.z) by (nonlinear_arith)
        requires
            0 <= z < size.z,
            0 <= x < size.x,
    ;
    assert forall|c: int| 0 <= c < (size.x * size.z) as nat && #[trigger] trees[c] implies y <= heights[c] by {
        assert(heights[c] == h);
    }
    lemma_own_column_prefix(size, heights, trees, (size.x * size.z) as nat, x, y, z);
}

/// A ray that hits a solid cell stepping by one along an axis hits it
/// inside the grid, and the hit cell moved by the face normal is the cell
/// the ray came from; a ray that moves on enters an empty cell of the grid.
pub proof fn law_ray_hit_face(w: World, coord: Coord, axis: Axis, step: Coord)
    requires
        w.wf(),
        w.is_generated(),
        step.along(axis) == 1 || step.along(axis) == -1,
        i32::MIN <= coord.along(axis) + step.along(axis) <= i32::MAX,
    ensures
        w.step_outcome(coord, axis, step) matches RayStep::Hit(b, n) ==> {
            &&& w.in_bounds(b.x as int, b.y as int, b.z as int)
            &&& w@[b.as_triple()] != 0
            &&& b.x + n.x == coord.x
            &&& b.y + n.y == coord.y
            &&& b.z + n.z == coord.z
        },
        w.step_outcome(coord, axis, step) matches RayStep::Moved(c) ==> {
            &&& w.in_bounds(c.x as int, c.y as int, c.z as int)
            &&& w@[c.as_triple()] == 0
            &&& c == advance(coord, axis, step)
        },
{
}

/// How many more cells a ray stepping by `d` on an axis of length `n` can
/// enter from coordinate `c` before it leaves the grid on that axis.
spec fn room(c: int, d: int, n: int) -> int {
    if d > 0 {
        n - 1 - c
    } else {
        c
    }
}

spec fn non_negative(v: int) -> int {
    if v < 0 {
        0
    } else {
        v
    }
}

/// How many more empty cells a ray from `c` can enter in all.
spec fn room_left(size: Coord, c: Coord, step: Coord) -> int {
    non_negative(room(c.x as int, step.x as int, size.x as int)) + non_negative(
        room(c.y as int, step.y as int, size.y as int),
    ) + non_negative(room(c.z as int, step.z as int, size.z as int))
}

/// A walk that is still going has taken no more steps than there was room
/// for.
proof fn lemma_walk_bounded(w: World, coord: Coord, axes: Seq<Axis>, step: Coord)
    requires
        w.wf(),
        w.size.x < i32::MAX,
        w.size.y < i32::MAX,
        w.size.z < i32::MAX,
        in_closed_grid(coord, w.size),
        step.x == 1 || step.x == -1,
        step.y == 1 || step.y == -1,
        step.z == 1 || step.z == -1,
    ensures
        w.walk(coord, axes, step) is Moved ==> axes.len() <= room_left(w.size, coord, step),
    decreases axes.len(),
{
    if axes.len() > 0 {
        let a = axes[0];
        match w.step_outcome(coord, a, step) {
            RayStep::Moved(next) => {
                assert(next == advance(coord, a, step));
                assert(in_closed_grid(next, w.size));
                assert(room_left(w.size, next, step) == room_left(w.size, coord, step) - 1);
                lemma_walk_bounded(w, next, axes.drop_first(), step);
            },
            _ => {},
        }
    }
}

/// A ray whose step on every axis is fixed at one cell forward or back,
/// started anywhere in the grid or on its far faces, leaves the grid or hits
/// a solid block within `size.x + size.y + size.z + 1` steps, whichever axes
/// the steps take.
pub proof fn law_walk_ends(w: World, coord: Coord, axes: Seq<Axis>, step: Coord)
    requires
        w.wf(),
        w.size.x < i32::MAX,
        w.size.y < i32::MAX,
        w.size.z < i32::MAX,
        in_closed_grid(coord, w.size),
        step.x == 1 || step.x == -1,
        step.y == 1 || step.y == -1,
        step.z == 1 || step.z == -1,
        axes.len() > w.size.x + w.size.y + w.size.z,
    ensures
        w.walk(coord, axes, step) is Exited || w.walk(coord, axes, step) is Hit,
{
    lemma_walk_bounded(w, coord, axes, step);
}

/// Pressing a key that was not held and then releasing it leaves the held
/// keys as they were; while it is held, it is reported held.
pub proof fn law_press_release(keys: Set<Key>, key: Key)
    requires
        !keys.contains(key),
    ensures
        keys_after(keys, key, true, false).contains(key),
        keys_after(keys_after(keys, key, true, false), key, false, false) == keys,
        !keys_after(keys_after(keys, key, true, false), key, false, false).contains(key),
{
    assert(keys_after(keys_after(keys, key, true, false), key, false, false) =~= keys);
}

/// A repeated key event changes nothing.
pub proof fn law_repeat_ignored(keys: Set<Key>, key: Key, is_pressed: bool)
    ensures
        keys_after(keys, key, is_pressed, true) == keys,
{
}

/// Holding a single digit key selects that digit's block.
pub proof fn law_single_digit_selects(current: u32)
    ensures
        digit_selection(set![Key::Digit1], current) == 1,
        digit_selection(set![Key::Digit2], current) == 2,
        digit_selection(set![Key::Digit3], current) == 3,
        digit_selection(set![Key::Digit4], current) == 4,
        digit_selection(set![Key::Digit5], current) == 5,
        digit_selection(set![Key::Digit6], current) == 6,
        digit_selection(set![Key::Digit7], current) == 7,
        digit_selection(set![Key::Digit8], current) == 8,
        digit_selection(set![Key::Digit9], current) == 9,
        digit_selection(Set::<Key>::empty(), current) == current,
{
}

/// One ray step along an axis whose step is one cell forward or back: it
/// leaves the grid exactly when the next cell is outside; on a solid next
/// cell it hits that cell through the face turned towards the ray, so the
/// normal is minus the step and points back at the cell the ray came from;
/// on an empty next cell it moves there. Stated for both signs of the step
/// on every axis.
pub proof fn law_step_exact(w: World, coord: Coord, axis: Axis, step: Coord)
    requires
        w.wf(),
        w.is_generated(),
        step.along(axis) == 1 || step.along(axis) == -1,
        i32::MIN <= coord.along(axis) + step.along(axis) <= i32::MAX,
    ensures
        ({
            let dx: int = if axis == Axis::X { step.x as int } else { 0 };
            let dy: int = if axis == Axis::Y { step.y as int } else { 0 };
            let dz: int = if axis == Axis::Z { step.z as int } else { 0 };
            let nx = coord.x + dx;
            let ny = coord.y + dy;
            let nz = coord.z + dz;
            let inside = 0 <= nx < w.size.x && 0 <= ny < w.size.y && 0 <= nz < w.size.z;
            let out = w.step_outcome(coord, axis, step);
            &&& (out is Exited <==> !inside)
            &&& inside && w@[(nx, ny, nz)] != 0 ==> {
                &&& out is Hit
                &&& out->Hit_0.x == nx && out->Hit_0.y == ny && out->Hit_0.z == nz
                &&& out->Hit_1.x == -dx && out->Hit_1.y == -dy && out->Hit_1.z == -dz
                &&& out->Hit_0.x + out->Hit_1.x == coord.x
                &&& out->Hit_0.y + out->Hit_1.y == coord.y
                &&& out->Hit_0.z + out->Hit_1.z == coord.z
            }
            &&& inside && w@[(nx, ny, nz)] == 0 ==> {
                &&& out is Moved
                &&& out->Moved_0.x == nx && out->Moved_0.y == ny && out->Moved_0.z == nz
            }
        }),
{
}

/// The held digit keys choose the block: the highest held digit wins over
/// every lower one, and with no digit held the choice stays.
pub proof fn law_highest_digit_wins(keys: Set<Key>, current: u32)
    ensures
        keys.contains(Key::Digit9) ==> digit_selection(keys, current) == 9,
        keys.contains(Key::Digit8) && !keys.contains(Key::Digit9) ==> digit_selection(keys, current)
            == 8,
        keys.contains(Key::Digit7) && !keys.contains(Key::Digit8) && !keys.contains(Key::Digit9)
            ==> digit_selection(keys, current) == 7,
        keys.contains(Key::Digit6) && !keys.contains(Key::Digit7) && !keys.contains(Key::Digit8)
            && !keys.contains(Key::Digit9) ==> digit_selection(keys, current) == 6,
        keys.contains(Key::Digit5) && !keys.contains(Key::Digit6) && !keys.contains(Key::Digit7)
            && !keys.contains(Key::Digit8) && !keys.contains(Key::Digit9) ==> digit_selection(
            keys,
            current,
        ) == 5,
        keys.contains(Key::Digit4) && !keys.contains(Key::Digit5) && !keys.contains(Key::Digit6)
            && !keys.contains(Key::Digit7) && !keys.contains(Key::Digit8) && !keys.contains(
            Key::Digit9,
        ) ==> digit_selection(keys, current) == 4,
        keys.contains(Key::Digit3) && !keys.contains(Key::Digit4) && !keys.contains(Key::Digit5)
            && !keys.contains(Key::Digit6) && !keys.contains(Key::Digit7) && !keys.contains(
            Key::Digit8,
        ) && !keys.contains(Key::Digit9) ==> digit_selection(keys, current) == 3,
        keys.contains(Key::Digit2) && !keys.contains(Key::Digit3) && !keys.contains(Key::Digit4)
            && !keys.contains(Key::Digit5) && !keys.contains(Key::Digit6) && !keys.contains(
            Key::Digit7,
        ) && !keys.contains(Key::Digit8) && !keys.contains(Key::Digit9) ==> digit_selection(
            keys,
            current,
        ) == 2,
        keys.contains(Key::Digit1) && !keys.contains(Key::Digit2) && !keys.contains(Key::Digit3)
            && !keys.contains(Key::Digit4) && !keys.contains(Key::Digit5) && !keys.contains(
            Key::Digit6,
        ) && !keys.contains(Key::Digit7) && !keys.contains(Key::Digit8) && !keys.contains(
            Key::Digit9,
        ) ==> digit_selection(keys, current) == 1,
        !keys.contains(Key::Digit1) && !keys.contains(Key::Digit2) && !keys.contains(Key::Digit3)
            && !keys.contains(Key::Digit4) && !keys.contains(Key::Digit5) && !keys.contains(
            Key::Digit6,
        ) && !keys.contains(Key::Digit7) && !keys.contains(Key::Digit8) && !keys.contains(
            Key::Digit9,
        ) ==> digit_selection(keys, current) == current,
{
}

/// Every column, whatever its surface height `h`: grass (2) at `h`, dirt (3)
/// on the four blocks under it, stone (1) further down, air (0) above.
pub proof fn law_column_layers(y: int, h: int)
    ensures
        terrain_block(h, h) == 2,
        h - 4 <= y < h ==> terrain_block(y, h) == 3,
        y < h - 4 ==> terrain_block(y, h) == 1,
        y > h ==> terrain_block(y, h) == 0,
{
}

/// A fresh press of any key but Escape grabs the cursor, a fresh press of
/// Escape frees it, and releases and repeats leave it alone.
pub proof fn law_cursor_on_keys(key: Key, is_pressed: bool, repeat: bool)
    ensures
        key != Key::Escape && is_pressed && !repeat ==> cursor_after(key, is_pressed, repeat)
            == Some(CursorChange::Grab),
        key == Key::Escape && is_pressed && !repeat ==> cursor_after(key, is_pressed, repeat)
            == Some(CursorChange::Release),
        !is_pressed || repeat ==> cursor_after(key, is_pressed, repeat) is None,
{
}

} // verus!
