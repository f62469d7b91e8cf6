//! Diffusion moves intensity between cells without creating or destroying
//! any: the proof that a pass without fading keeps the total, up to the
//! rounding of each cell.

use vstd::prelude::*;
use vstd::arithmetic::div_mod::{
    lemma_fundamental_div_mod, lemma_fundamental_div_mod_converse, lemma_mod_bound, lemma_small_mod,
};
use crate::fixed::{lemma_wrap_periodic, UNIT};
use crate::sums::{
    lemma_sum_equal, lemma_sum_over_add3, lemma_sum_over_equal, lemma_sum_over_le,
    lemma_sum_over_linear, lemma_sum_over_shift_down, lemma_sum_over_shift_left,
    lemma_sum_over_shift_right, lemma_sum_over_shift_up, sum_over, sum_to,
};
use crate::trail::{blend, lemma_index_in_range, next_intensity, Grid, MAX_INTENSITY};

verus! {

/// Going once around the grid in either direction comes back to the same
/// cell.
pub proof fn lemma_at_periodic(grid: Grid, x: int, y: int)
    requires
        grid.width >= 1,
        grid.height >= 1,
    ensures
        grid.at(x + grid.width, y) == grid.at(x, y),
        grid.at(x, y + grid.height) == grid.at(x, y),
{
    lemma_wrap_periodic(x, 1, grid.width);
    lemma_wrap_periodic(y, 1, grid.height);
}

/// Every intensity that `at` reads on a well-formed grid is within
/// `[0, MAX_INTENSITY]`.
pub proof fn lemma_at_in_range(grid: Grid, x: int, y: int)
    requires
        grid.wf(),
    ensures
        0 <= grid.at(x, y) <= MAX_INTENSITY,
{
    lemma_index_in_range(grid, x, y);
}

/// A row sum, written as a sum of a function of the column.
pub proof fn lemma_row_sum_is_sum(grid: Grid, x0: int, y: int, count: int)
    ensures
        grid.row_sum(x0, y, count) == sum_to(|i: int| grid.at(x0 + i, y), count),
    decreases count,
{
    if count > 0 {
        lemma_row_sum_is_sum(grid, x0, y, count - 1);
    }
}

/// A block sum, written as a sum of a function of column and row.
pub proof fn lemma_block_sum_is_sum(grid: Grid, x0: int, y0: int, columns: int, rows: int)
    ensures
        grid.block_sum(x0, y0, columns, rows) == sum_over(
            |x: int, y: int| grid.at(x0 + x, y0 + y),
            columns,
            rows,
        ),
    decreases rows,
{
    let cell = |x: int, y: int| grid.at(x0 + x, y0 + y);
    let lines = |y: int| sum_to(|x: int| cell(x, y), columns);
    if rows > 0 {
        lemma_block_sum_is_sum(grid, x0, y0, columns, rows - 1);
        lemma_row_sum_is_sum(grid, x0, y0 + rows - 1, columns);
        lemma_sum_equal(
            |x: int| cell(x, rows - 1),
            |i: int| grid.at(x0 + i, y0 + rows - 1),
            columns,
        );
        assert(sum_to(lines, rows) == sum_to(lines, rows - 1) + lines(rows - 1));
    }
}

/// The total of a grid is the sum of `at` over its cells.
pub proof fn lemma_total_is_sum(grid: Grid)
    ensures
        grid.total() == sum_over(|x: int, y: int| grid.at(x, y), grid.width, grid.height),
{
    lemma_block_sum_is_sum(grid, 0, 0, grid.width, grid.height);
    lemma_sum_over_equal(
        |x: int, y: int| grid.at(0 + x, 0 + y),
        |x: int, y: int| grid.at(x, y),
        grid.width,
        grid.height,
    );
}

/// The total intensity of a grid cannot diverge: it lies between zero and
/// the number of cells times `MAX_INTENSITY`.
pub proof fn lemma_total_is_bounded(grid: Grid)
    requires
        grid.wf(),
    ensures
        0 <= grid.total() <= grid.width * grid.height * MAX_INTENSITY,
{
    let w = grid.width;
    let h = grid.height;
    let cell = |x: int, y: int| grid.at(x, y);
    let none = |x: int, y: int| 0 * cell(x, y) + 0 * cell(x, y) + 0;
    let full = |x: int, y: int| 0 * cell(x, y) + 0 * cell(x, y) + MAX_INTENSITY as int;
    assert forall|x: int, y: int| 0 <= x < w && 0 <= y < h implies #[trigger] none(x, y) <= cell(
        x,
        y,
    ) by {
        lemma_at_in_range(grid, x, y);
    }
    assert forall|x: int, y: int| 0 <= x < w && 0 <= y < h implies #[trigger] cell(x, y) <= full(
        x,
        y,
    ) by {
        lemma_at_in_range(grid, x, y);
    }
    lemma_sum_over_le(none, cell, w, h);
    lemma_sum_over_le(cell, full, w, h);
    lemma_sum_over_linear(cell, cell, 0, 0, 0, w, h);
    lemma_sum_over_linear(cell, cell, 0, 0, MAX_INTENSITY as int, w, h);
    lemma_total_is_sum(grid);
    assert(MAX_INTENSITY * (w * h) == w * h * MAX_INTENSITY) by (nonlinear_arith);
}

/// The sum over the three cells of row `y` around column `x`.
pub open spec fn triple(grid: Grid, x: int, y: int) -> int {
    grid.at(x - 1, y) + grid.at(x, y) + grid.at(x + 1, y)
}

/// A neighbourhood sum is the sum of the nine cells around and including
/// the cell, three rows of three.
pub proof fn lemma_neighbourhood_is_nine_cells(grid: Grid, x: int, y: int)
    ensures
        grid.neighbourhood(x, y) == triple(grid, x, y - 1) + triple(grid, x, y) + triple(
            grid,
            x,
            y + 1,
        ),
{
    reveal_with_fuel(Grid::block_sum, 4);
    reveal_with_fuel(Grid::row_sum, 4);
}

/// Summed over all cells, the triples count every cell three times.
proof fn lemma_triples_total(grid: Grid)
    requires
        grid.width >= 1,
        grid.height >= 1,
    ensures
        sum_over(|x: int, y: int| triple(grid, x, y), grid.width, grid.height) == 3 * sum_over(
            |x: int, y: int| grid.at(x, y),
            grid.width,
            grid.height,
        ),
{
    let w = grid.width;
    let h = grid.height;
    let cell = |x: int, y: int| grid.at(x, y);
    let before = |x: int, y: int| cell(x - 1, y);
    let after = |x: int, y: int| cell(x + 1, y);
    assert forall|y: int| 0 <= y < h implies #[trigger] cell(w, y) == cell(0, y) by {
        lemma_at_periodic(grid, 0, y);
    }
    assert forall|y: int| 0 <= y < h implies #[trigger] cell(-1, y) == cell(w - 1, y) by {
        lemma_at_periodic(grid, -1, y);
    }
    lemma_sum_over_shift_right(cell, w, h);
    lemma_sum_over_shift_left(cell, w, h);
    lemma_sum_over_equal(before, |x: int, y: int| cell(x - 1, y), w, h);
    lemma_sum_over_equal(after, |x: int, y: int| cell(x + 1, y), w, h);
    lemma_sum_over_add3(before, cell, after, w, h);
    lemma_sum_over_equal(
        |x: int, y: int| triple(grid, x, y),
        |x: int, y: int| before(x, y) + cell(x, y) + after(x, y),
        w,
        h,
    );
}

/// Summed over all cells, the neighbourhood sums count every cell nine
/// times.
pub proof fn lemma_neighbourhoods_total(grid: Grid)
    requires
        grid.width >= 1,
        grid.height >= 1,
    ensures
        sum_over(|x: int, y: int| grid.neighbourhood(x, y), grid.width, grid.height) == 9
            * grid.total(),
{
    let w = grid.width;
    let h = grid.height;
    let three = |x: int, y: int| triple(grid, x, y);
    let above = |x: int, y: int| three(x, y - 1);
    let below = |x: int, y: int| three(x, y + 1);
    assert forall|x: int| 0 <= x < w implies #[trigger] three(x, h) == three(x, 0) by {
        lemma_at_periodic(grid, x - 1, 0);
        lemma_at_periodic(grid, x, 0);
        lemma_at_periodic(grid, x + 1, 0);
    }
    assert forall|x: int| 0 <= x < w implies #[trigger] three(x, -1) == three(x, h - 1) by {
        lemma_at_periodic(grid, x - 1, -1);
        lemma_at_periodic(grid, x, -1);
        lemma_at_periodic(grid, x + 1, -1);
    }
    lemma_sum_over_shift_down(three, w, h);
    lemma_sum_over_shift_up(three, w, h);
    lemma_sum_over_equal(above, |x: int, y: int| three(x, y - 1), w, h);
    lemma_sum_over_equal(below, |x: int, y: int| three(x, y + 1), w, h);
    lemma_sum_over_add3(above, three, below, w, h);
    assert forall|x: int, y: int| 0 <= x < w && 0 <= y < h implies #[trigger] grid.neighbourhood(
        x,
        y,
    ) == above(x, y) + three(x, y) + below(x, y) by {
        lemma_neighbourhood_is_nine_cells(grid, x, y);
    }
    lemma_sum_over_equal(
        |x: int, y: int| grid.neighbourhood(x, y),
        |x: int, y: int| above(x, y) + three(x, y) + below(x, y),
        w,
        h,
    );
    lemma_triples_total(grid);
    lemma_total_is_sum(grid);
    lemma_sum_over_equal(three, |x: int, y: int| triple(grid, x, y), w, h);
}

/// What a pass writes to the cell in column `x` of row `y`.
pub proof fn lemma_diffused_cell(grid: Grid, weight: int, amount: int, x: int, y: int)
    requires
        grid.wf(),
        0 <= x < grid.width,
        0 <= y < grid.height,
    ensures
        grid.diffused(weight, amount).at(x, y) == next_intensity(
            grid.at(x, y),
            grid.neighbourhood(x, y),
            weight,
            amount,
        ),
{
    let w = grid.width;
    let i = y * w + x;
    lemma_small_mod(x as nat, w as nat);
    lemma_small_mod(y as nat, grid.height as nat);
    lemma_index_in_range(grid, x, y);
    lemma_fundamental_div_mod_converse(i, w, y, x);
}

/// No cell's blend with its neighbourhood leaves `[0, MAX_INTENSITY]`, so
/// that a pass clamps nothing.
pub open spec fn blends_in_range(grid: Grid, weight: int) -> bool {
    forall|x: int, y: int|
        0 <= x < grid.width && 0 <= y < grid.height ==> 0 <= #[trigger] blend(
            grid.at(x, y),
            grid.neighbourhood(x, y),
            weight,
        ) <= MAX_INTENSITY
}

/// A blend weight of at most one whole unit moves every cell to a value
/// between itself and its neighbourhood's average, so no blend leaves the
/// range.
pub proof fn lemma_gentle_blend_stays_in_range(grid: Grid, weight: int)
    requires
        grid.wf(),
        0 <= weight <= UNIT,
    ensures
        blends_in_range(grid, weight),
{
    assert forall|x: int, y: int| 0 <= x < grid.width && 0 <= y < grid.height implies 0
        <= #[trigger] blend(grid.at(x, y), grid.neighbourhood(x, y), weight) <= MAX_INTENSITY by {
        let own = grid.at(x, y);
        let around = grid.neighbourhood(x, y);
        lemma_at_in_range(grid, x, y);
        lemma_neighbourhood_is_nine_cells(grid, x, y);
        lemma_at_in_range(grid, x - 1, y - 1);
        lemma_at_in_range(grid, x, y - 1);
        lemma_at_in_range(grid, x + 1, y - 1);
        lemma_at_in_range(grid, x - 1, y);
        lemma_at_in_range(grid, x + 1, y);
        lemma_at_in_range(grid, x - 1, y + 1);
        lemma_at_in_range(grid, x, y + 1);
        lemma_at_in_range(grid, x + 1, y + 1);
        let scale = 9 * (UNIT as int);
        let numerator = scale * own + weight * (around - 9 * own);
        assert(0 <= numerator <= scale * 1_000_000) by (nonlinear_arith)
            requires
                numerator == scale * own + weight * (around - 9 * own),
                scale == 9_000_000,
                0 <= weight <= 1_000_000,
                0 <= own <= 1_000_000,
                0 <= around <= 9_000_000,
        ;
        lemma_fundamental_div_mod(numerator, scale);
        lemma_mod_bound(numerator, scale);
        assert(0 <= numerator / scale <= 1_000_000) by (nonlinear_arith)
            requires
                0 <= numerator <= scale * 1_000_000,
                numerator == scale * (numerator / scale) + numerator % scale,
                0 <= numerator % scale < scale,
                scale == 9_000_000,
        ;
    }
}

/// Diffusion conserves the total intensity. A pass that fades nothing and
/// clamps nothing changes the total only by the rounding of each cell: the
/// total does not grow, and it shrinks by less than one millionth a cell.
pub proof fn lemma_diffusion_conserves_total(grid: Grid, weight: int)
    requires
        grid.wf(),
        blends_in_range(grid, weight),
    ensures
        grid.diffused(weight, 0).total() <= grid.total(),
        grid.total() - grid.diffused(weight, 0).total() < grid.width * grid.height,
{
    let w = grid.width;
    let h = grid.height;
    let scale = 9 * (UNIT as int);
    let after = grid.diffused(weight, 0);
    let cell = |x: int, y: int| grid.at(x, y);
    let around = |x: int, y: int| grid.neighbourhood(x, y);
    let fresh = |x: int, y: int| after.at(x, y);
    let numerator = |x: int, y: int| (scale - 9 * weight) * cell(x, y) + weight * around(x, y) + 0;
    let floor = |x: int, y: int| scale * fresh(x, y) + 0 * fresh(x, y) + 0;
    let ceiling = |x: int, y: int| scale * fresh(x, y) + 0 * fresh(x, y) + (scale - 1);

    assert forall|x: int, y: int| 0 <= x < w && 0 <= y < h implies #[trigger] floor(x, y)
        <= numerator(x, y) && numerator(x, y) <= ceiling(x, y) by {
        let own = grid.at(x, y);
        let near = grid.neighbourhood(x, y);
        let n = scale * own + weight * (near - 9 * own);
        lemma_diffused_cell(grid, weight, 0, x, y);
        assert(0 <= blend(own, near, weight) <= MAX_INTENSITY);
        assert(after.at(x, y) == n / scale);
        assert(n == (scale - 9 * weight) * own + weight * near) by (nonlinear_arith)
            requires
                n == scale * own + weight * (near - 9 * own),
        ;
        lemma_fundamental_div_mod(n, scale);
        lemma_mod_bound(n, scale);
    }
    assert forall|x: int, y: int| 0 <= x < w && 0 <= y < h implies #[trigger] numerator(x, y)
        <= ceiling(x, y) by {
        assert(floor(x, y) <= numerator(x, y));
    }
    lemma_sum_over_le(floor, numerator, w, h);
    lemma_sum_over_le(numerator, ceiling, w, h);
    lemma_sum_over_linear(cell, around, scale - 9 * weight, weight, 0, w, h);
    lemma_sum_over_linear(fresh, fresh, scale, 0, 0, w, h);
    lemma_sum_over_linear(fresh, fresh, scale, 0, scale - 1, w, h);
    lemma_neighbourhoods_total(grid);
    lemma_total_is_sum(grid);
    lemma_total_is_sum(after);
    let total = grid.total();
    let total_after = after.total();
    let cells = w * h;
    assert(sum_over(numerator, w, h) == scale * total) by (nonlinear_arith)
        requires
            sum_over(numerator, w, h) == (scale - 9 * weight) * total + weight * (9 * total) + 0 * (w
                * h),
    ;
    assert(sum_over(floor, w, h) == scale * total_after) by (nonlinear_arith)
        requires
            sum_over(floor, w, h) == scale * total_after + 0 * total_after + 0 * (w * h),
    ;
    assert(sum_over(ceiling, w, h) == scale * total_after + (scale - 1) * cells) by (nonlinear_arith)
        requires
            sum_over(ceiling, w, h) == scale * total_after + 0 * total_after + (scale - 1) * (w * h),
            cells == w * h,
    ;
    assert(cells >= 1) by (nonlinear_arith)
        requires
            w >= 1,
            h >= 1,
            cells == w * h,
    ;
    assert(total_after <= total && total - total_after < cells) by (nonlinear_arith)
        requires
            scale * total_after <= scale * total,
            scale * total <= scale * total_after + (scale - 1) * cells,
            scale == 9_000_000,
            cells >= 1,
    ;
}

/// With a blend weight of at most one whole unit and no fading, a pass
/// keeps the total intensity up to rounding, whatever the grid holds.
pub proof fn lemma_gentle_diffusion_conserves_total(grid: Grid, weight: int)
    requires
        grid.wf(),
        0 <= weight <= UNIT,
    ensures
        grid.diffused(weight, 0).total() <= grid.total(),
        grid.total() - grid.diffused(weight, 0).total() < grid.width * grid.height,
{
    lemma_gentle_blend_stays_in_range(grid, weight);
    lemma_diffusion_conserves_total(grid, weight);
}

} // verus!
