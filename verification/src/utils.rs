use vstd::prelude::*;

use vstd::arithmetic::div_mod::lemma_fundamental_div_mod;

use crate::components::Pos;
use crate::constants::{CELL_OFFSET, CELL_SIZE};

verus! {

/// Exact coincidence of two lattice positions; positions are
/// lattice-aligned, so equality is exact, never approximate.
pub open spec fn same_cell(a: Pos, b: Pos) -> bool {
    a.x == b.x && a.y == b.y
}

/// Two entities occupy the same cell iff both coordinates agree exactly.
pub fn is_equal(a: &Pos, b: &Pos) -> (r: bool)
    ensures
        r == same_cell(*a, *b),
{
    a.x == b.x && a.y == b.y
}

/// `(ax, ay)` lies within half a cell of `(bx, by)` on each axis, in world
/// units; each window is half-open toward the positive side.
pub open spec fn approx_eq(ax: int, ay: int, bx: int, by: int) -> bool {
    &&& bx - CELL_OFFSET <= ax < bx + CELL_OFFSET
    &&& by - CELL_OFFSET <= ay < by + CELL_OFFSET
}

/// Approximate coincidence of two world positions, with a tolerance of
/// half a cell width on each axis.
pub fn is_equal_approximate(ax: i32, ay: i32, bx: i32, by: i32) -> (r: bool)
    ensures
        r == approx_eq(ax as int, ay as int, bx as int, by as int),
{
    let axw: i64 = ax as i64;
    let ayw: i64 = ay as i64;
    let bxw: i64 = bx as i64;
    let byw: i64 = by as i64;
    let half: i64 = CELL_OFFSET as i64;
    bxw - half <= axw && axw < bxw + half && byw - half <= ayw && ayw < byw + half
}

/// A world coordinate is lattice-aligned when it is an integer multiple
/// of the cell size.
pub open spec fn lattice_aligned(x: int) -> bool {
    x % (CELL_SIZE as int) == 0
}

/// World coordinate of a cell index.
pub open spec fn world_of(c: int) -> int {
    c * (CELL_SIZE as int)
}

/// Maps a cell index to its world coordinate, which is lattice-aligned.
pub fn cell_to_world(c: i32) -> (r: i32)
    requires
        i32::MIN <= (c as int) * (CELL_SIZE as int) <= i32::MAX,
    ensures
        r as int == world_of(c as int),
        lattice_aligned(r as int),
{
    proof {
        lemma_fundamental_div_mod((c as int) * (CELL_SIZE as int), CELL_SIZE as int);
    }
    c * CELL_SIZE
}

/// On one axis, two lattice-aligned world coordinates within half a cell
/// of each other are equal.
proof fn lemma_aligned_window(a: int, b: int)
    requires
        lattice_aligned(a),
        lattice_aligned(b),
    ensures
        (b - CELL_OFFSET <= a < b + CELL_OFFSET) <==> a == b,
{
    let w = CELL_SIZE as int;
    lemma_fundamental_div_mod(a, w);
    lemma_fundamental_div_mod(b, w);
    let d = a / w - b / w;
    assert(a - b == w * d) by (nonlinear_arith)
        requires a == w * (a / w) + a % w, b == w * (b / w) + b % w, a % w == 0, b % w == 0,
            d == a / w - b / w;
    if d >= 1 {
        assert(w * d >= w) by (nonlinear_arith)
            requires d >= 1, w == CELL_SIZE as int;
    }
    if d <= -1 {
        assert(w * d <= -w) by (nonlinear_arith)
            requires d <= -1, w == CELL_SIZE as int;
    }
}

/// For lattice-aligned world positions the approximate test decides
/// nothing coarser than the exact one: within tolerance iff equal. The
/// simulation may therefore compare contact by exact cell coincidence.
pub proof fn lemma_approx_eq_on_lattice(ax: int, ay: int, bx: int, by: int)
    requires
        lattice_aligned(ax),
        lattice_aligned(ay),
        lattice_aligned(bx),
        lattice_aligned(by),
    ensures
        approx_eq(ax, ay, bx, by) <==> (ax == bx && ay == by),
{
    lemma_aligned_window(ax, bx);
    lemma_aligned_window(ay, by);
}

} // verus!
