use vstd::prelude::*;

use vstd::seq_lib::*;
use vstd::set_lib::*;

use crate::cell::Cell;

verus! {

/// Whether `c` lies on a board of `w` by `h` cells.
pub open spec fn in_bounds(c: Cell, w: int, h: int) -> bool {
    0 <= c.x < w && 0 <= c.y < h
}

/// Whether `a` and `b` differ by exactly one unit step.
pub open spec fn adjacent(a: Cell, b: Cell) -> bool {
    ||| a.x - b.x == 1 && a.y == b.y
    ||| b.x - a.x == 1 && a.y == b.y
    ||| a.y - b.y == 1 && a.x == b.x
    ||| b.y - a.y == 1 && a.x == b.x
}

/// Row-major position of a cell on a board `h` cells high.
pub open spec fn cell_index(c: Cell, h: int) -> int {
    c.x * h + c.y
}

proof fn lemma_cell_index_injective(x1: int, y1: int, x2: int, y2: int, h: int)
    by (nonlinear_arith)
    requires
        0 <= y1 < h,
        0 <= y2 < h,
        x1 * h + y1 == x2 * h + y2,
    ensures
        x1 == x2 && y1 == y2,
{
}

proof fn lemma_cell_index_range(x: int, y: int, w: int, h: int)
    by (nonlinear_arith)
    requires
        0 <= x < w,
        0 <= y < h,
    ensures
        0 <= x * h + y < w * h,
{
}

/// Pigeonhole bound: pairwise distinct cells that all lie on a `w` by `h`
/// board number at most `w * h`.
pub proof fn lemma_distinct_in_bounds_len(cells: Seq<Cell>, w: int, h: int)
    requires
        0 < w,
        0 < h,
        cells.no_duplicates(),
        forall|i: int| 0 <= i < cells.len() ==> in_bounds(#[trigger] cells[i], w, h),
    ensures
        cells.len() <= w * h,
{
    let f = |c: Cell| cell_index(c, h);
    let m = cells.map_values(f);
    assert forall|i: int, j: int|
        0 <= i < m.len() && 0 <= j < m.len() && i != j implies m[i] != m[j] by {
        if m[i] == m[j] {
            lemma_cell_index_injective(
                cells[i].x as int,
                cells[i].y as int,
                cells[j].x as int,
                cells[j].y as int,
                h,
            );
        }
    }
    m.unique_seq_to_set();
    assert forall|a: int| m.to_set().contains(a) implies set_int_range(0, w * h).contains(
        a,
    ) by {
        let i = choose|i: int| 0 <= i < m.len() && m[i] == a;
        lemma_cell_index_range(cells[i].x as int, cells[i].y as int, w, h);
    }
    lemma_int_range(0, w * h);
    lemma_len_subset(m.to_set(), set_int_range(0, w * h));
}

} // verus!
