use vstd::prelude::*;

verus! {

/// A dense `width x height` grid stores the logical cell `(x, y)` at the
/// linear slot `x * height + y` of its buffer.  The two lemmas below are the
/// arithmetic facts every grid operation rests on: the slot of an in-range
/// cell lies inside the buffer, and distinct cells get distinct slots.
pub proof fn lemma_grid_index_bound(x: int, y: int, w: int, h: int)
    requires
        0 <= x < w,
        0 <= y < h,
    ensures
        0 <= x * h + y < w * h,
{
    assert(0 <= x * h + y < w * h) by (nonlinear_arith)
        requires
            0 <= x < w,
            0 <= y < h,
    ;
}

/// Distinct in-range cells map to distinct linear slots.
pub proof fn lemma_grid_index_injective(x1: int, y1: int, x2: int, y2: int, h: int)
    requires
        0 <= x1,
        0 <= x2,
        0 <= y1 < h,
        0 <= y2 < h,
        x1 * h + y1 == x2 * h + y2,
    ensures
        x1 == x2 && y1 == y2,
{
    assert(x1 == x2 && y1 == y2) by (nonlinear_arith)
        requires
            0 <= x1,
            0 <= x2,
            0 <= y1 < h,
            0 <= y2 < h,
            x1 * h + y1 == x2 * h + y2,
    ;
}

/// Cells in column-then-row order get strictly increasing linear slots.
pub proof fn lemma_grid_index_mono(x1: int, y1: int, x2: int, y2: int, h: int)
    requires
        0 <= x1,
        0 <= y1 < h,
        0 <= y2 < h,
        x1 < x2 || (x1 == x2 && y1 < y2),
    ensures
        x1 * h + y1 < x2 * h + y2,
{
    assert(x1 * h + y1 < x2 * h + y2) by (nonlinear_arith)
        requires
            0 <= x1,
            0 <= y1 < h,
            0 <= y2 < h,
            x1 < x2 || (x1 == x2 && y1 < y2),
    ;
}

} // verus!
