//! Arithmetic facts about the x-fastest, z-slowest layout of the block grid.
use vstd::prelude::*;
use vstd::arithmetic::div_mod::{
    lemma_div_pos_is_pos, lemma_fundamental_div_mod, lemma_fundamental_div_mod_converse,
    lemma_mod_bound, lemma_multiply_divide_lt,
};

verus! {

/// The position of block `(x, y, z)` in a grid of `sx` by `sy` columns.
pub open spec fn linear_index(x: int, y: int, z: int, sx: int, sy: int) -> int {
    x + y * sx + z * sx * sy
}

/// Every in-range position has an index below the volume, and each partial
/// product stays below the volume too.
pub proof fn lemma_index_bounds(x: int, y: int, z: int, sx: int, sy: int, sz: int)
    requires
        0 <= x < sx,
        0 <= y < sy,
        0 <= z < sz,
    ensures
        0 <= y * sx <= (sy - 1) * sx,
        0 <= z * sx <= sx * sz <= sx * sy * sz,
        0 <= z * sx * sy <= (sz - 1) * sx * sy,
        0 <= linear_index(x, y, z, sx, sy) < sx * sy * sz,
{
    assert(0 <= y * sx <= (sy - 1) * sx) by (nonlinear_arith)
        requires
            0 <= y < sy,
            0 < sx,
    ;
    assert(0 <= z * sx <= sx * sz <= sx * sy * sz) by (nonlinear_arith)
        requires
            0 <= z < sz,
            0 < sx,
            0 < sy,
    ;
    assert(0 <= z * sx * sy <= (sz - 1) * sx * sy) by (nonlinear_arith)
        requires
            0 <= z < sz,
            0 < sx,
            0 < sy,
    ;
    assert(x + y * sx + z * sx * sy < sx * sy * sz) by (nonlinear_arith)
        requires
            0 <= x < sx,
            0 <= y * sx <= (sy - 1) * sx,
            0 <= z * sx * sy <= (sz - 1) * sx * sy,
            0 < sy,
    ;
}

/// The index determines the position: x is the remainder by `sx`, y the
/// remainder of the quotient by `sy`, z what is left.
pub proof fn lemma_index_decompose(x: int, y: int, z: int, sx: int, sy: int)
    requires
        0 <= x < sx,
        0 <= y < sy,
        0 <= z,
    ensures
        linear_index(x, y, z, sx, sy) % sx == x,
        linear_index(x, y, z, sx, sy) / sx == y + z * sy,
        (y + z * sy) % sy == y,
        (y + z * sy) / sy == z,
{
    let i = linear_index(x, y, z, sx, sy);
    assert(x + y * sx + z * sx * sy == (y + z * sy) * sx + x) by (nonlinear_arith);
    lemma_fundamental_div_mod_converse(i, sx, y + z * sy, x);
    lemma_fundamental_div_mod_converse(y + z * sy, sy, z, y);
}

/// Distinct in-range positions have distinct indices.
pub proof fn lemma_index_injective(
    x1: int,
    y1: int,
    z1: int,
    x2: int,
    y2: int,
    z2: int,
    sx: int,
    sy: int,
)
    requires
        0 <= x1 < sx,
        0 <= y1 < sy,
        0 <= z1,
        0 <= x2 < sx,
        0 <= y2 < sy,
        0 <= z2,
        linear_index(x1, y1, z1, sx, sy) == linear_index(x2, y2, z2, sx, sy),
    ensures
        x1 == x2,
        y1 == y2,
        z1 == z2,
{
    lemma_index_decompose(x1, y1, z1, sx, sy);
    lemma_index_decompose(x2, y2, z2, sx, sy);
}

/// Every index below the volume is the index of some in-range position.
pub proof fn lemma_index_onto(i: int, sx: int, sy: int, sz: int) -> (p: (int, int, int))
    requires
        0 <= sx,
        0 <= sy,
        0 <= sz,
        0 <= i < sx * sy * sz,
    ensures
        0 <= p.0 < sx,
        0 <= p.1 < sy,
        0 <= p.2 < sz,
        linear_index(p.0, p.1, p.2, sx, sy) == i,
{
    assert(0 < sx && 0 < sy && 0 < sz) by (nonlinear_arith)
        requires
            0 <= sx,
            0 <= sy,
            0 <= sz,
            0 <= i < sx * sy * sz,
    ;
    let q = i / sx;
    let x = i % sx;
    let y = q % sy;
    let z = q / sy;
    lemma_fundamental_div_mod(i, sx);
    lemma_fundamental_div_mod(q, sy);
    lemma_mod_bound(i, sx);
    lemma_mod_bound(q, sy);
    lemma_div_pos_is_pos(i, sx);
    lemma_div_pos_is_pos(q, sy);
    assert(sx * sy * sz == sx * (sy * sz)) by (nonlinear_arith);
    lemma_multiply_divide_lt(i, sx, sy * sz);
    lemma_multiply_divide_lt(q, sy, sz);
    assert(x + y * sx + z * sx * sy == x + sx * (y + sy * z)) by (nonlinear_arith);
    assert(sx * (y + sy * z) == sx * q) by (nonlinear_arith)
        requires
            q == sy * z + y,
    ;
    (x, y, z)
}

/// Column `c` of a grid `sx` wide, taken z-major, sits at `(c % sx, c / sx)`.
pub proof fn lemma_column_of(x: int, z: int, sx: int)
    requires
        0 <= x < sx,
        0 <= z,
    ensures
        (z * sx + x) % sx == x,
        (z * sx + x) / sx == z,
{
    lemma_fundamental_div_mod_converse(z * sx + x, sx, z, x);
}

} // verus!
