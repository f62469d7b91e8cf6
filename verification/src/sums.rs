//! Finite sums of integer functions over a range and over a rectangle, with
//! the few facts about them that the conservation law rests on.

use vstd::prelude::*;

verus! {

/// `f(0) + f(1) + ... + f(n - 1)`.
pub open spec fn sum_to(f: spec_fn(int) -> int, n: int) -> int
    decreases n,
{
    if n <= 0 {
        0
    } else {
        sum_to(f, n - 1) + f(n - 1)
    }
}

/// The sum of `f(x, y)` over `0 <= x < w` and `0 <= y < h`.
pub open spec fn sum_over(f: spec_fn(int, int) -> int, w: int, h: int) -> int {
    sum_to(|y: int| sum_to(|x: int| f(x, y), w), h)
}

/// Functions that agree on the range have the same sum.
pub proof fn lemma_sum_equal(f: spec_fn(int) -> int, g: spec_fn(int) -> int, n: int)
    requires
        forall|i: int| 0 <= i < n ==> #[trigger] f(i) == g(i),
    ensures
        sum_to(f, n) == sum_to(g, n),
    decreases n,
{
    if n > 0 {
        lemma_sum_equal(f, g, n - 1);
    }
}

/// A function that is nowhere larger on the range has no larger a sum.
pub proof fn lemma_sum_le(f: spec_fn(int) -> int, g: spec_fn(int) -> int, n: int)
    requires
        forall|i: int| 0 <= i < n ==> #[trigger] f(i) <= g(i),
    ensures
        sum_to(f, n) <= sum_to(g, n),
    decreases n,
{
    if n > 0 {
        lemma_sum_le(f, g, n - 1);
    }
}

/// The sum of a linear combination is the combination of the sums.
pub proof fn lemma_sum_linear(
    f: spec_fn(int) -> int,
    g: spec_fn(int) -> int,
    a: int,
    b: int,
    c: int,
    n: int,
)
    requires
        n >= 0,
    ensures
        sum_to(|i: int| a * f(i) + b * g(i) + c, n) == a * sum_to(f, n) + b * sum_to(g, n) + c * n,
    decreases n,
{
    let combined = |i: int| a * f(i) + b * g(i) + c;
    if n > 0 {
        lemma_sum_linear(f, g, a, b, c, n - 1);
        let sf = sum_to(f, n - 1);
        let sg = sum_to(g, n - 1);
        let vf = f(n - 1);
        let vg = g(n - 1);
        assert(a * (sf + vf) + b * (sg + vg) + c * n == (a * sf + b * sg + c * (n - 1)) + (a * vf + b
            * vg + c)) by (nonlinear_arith);
        assert(combined(n - 1) == a * vf + b * vg + c);
    } else {
        assert(a * 0 + b * 0 + c * 0 == 0) by (nonlinear_arith);
    }
}

/// A sum is its first term plus the sum of the rest.
pub proof fn lemma_sum_peel_first(f: spec_fn(int) -> int, n: int)
    requires
        n >= 1,
    ensures
        sum_to(f, n) == f(0) + sum_to(|i: int| f(i + 1), n - 1),
    decreases n,
{
    let rest = |i: int| f(i + 1);
    if n == 1 {
        assert(sum_to(f, 0) == 0);
        assert(sum_to(rest, 0) == 0);
    } else {
        lemma_sum_peel_first(f, n - 1);
        assert(sum_to(rest, n - 1) == sum_to(rest, n - 2) + rest(n - 2));
    }
}

/// On a circle of `n` places, summing from the second place round to the
/// first again gives the same sum.
pub proof fn lemma_sum_shift_up(f: spec_fn(int) -> int, n: int)
    requires
        n >= 1,
        f(n) == f(0),
    ensures
        sum_to(|i: int| f(i + 1), n) == sum_to(f, n),
{
    let shifted = |i: int| f(i + 1);
    lemma_sum_peel_first(f, n);
    assert(sum_to(shifted, n) == sum_to(shifted, n - 1) + shifted(n - 1));
}

/// On a circle of `n` places, summing from the last place round gives the
/// same sum.
pub proof fn lemma_sum_shift_down(f: spec_fn(int) -> int, n: int)
    requires
        n >= 1,
        f(-1) == f(n - 1),
    ensures
        sum_to(|i: int| f(i - 1), n) == sum_to(f, n),
{
    let lowered = |i: int| f(i - 1);
    lemma_sum_shift_up(lowered, n);
    lemma_sum_equal(|i: int| lowered(i + 1), f, n);
}

/// Functions that agree on the rectangle have the same sum over it.
pub proof fn lemma_sum_over_equal(
    f: spec_fn(int, int) -> int,
    g: spec_fn(int, int) -> int,
    w: int,
    h: int,
)
    requires
        forall|x: int, y: int| 0 <= x < w && 0 <= y < h ==> #[trigger] f(x, y) == g(x, y),
    ensures
        sum_over(f, w, h) == sum_over(g, w, h),
{
    let rows_f = |y: int| sum_to(|x: int| f(x, y), w);
    let rows_g = |y: int| sum_to(|x: int| g(x, y), w);
    assert forall|y: int| 0 <= y < h implies #[trigger] rows_f(y) == rows_g(y) by {
        lemma_sum_equal(|x: int| f(x, y), |x: int| g(x, y), w);
    }
    lemma_sum_equal(rows_f, rows_g, h);
}

/// A function that is nowhere larger on the rectangle has no larger a sum.
pub proof fn lemma_sum_over_le(
    f: spec_fn(int, int) -> int,
    g: spec_fn(int, int) -> int,
    w: int,
    h: int,
)
    requires
        forall|x: int, y: int| 0 <= x < w && 0 <= y < h ==> #[trigger] f(x, y) <= g(x, y),
    ensures
        sum_over(f, w, h) <= sum_over(g, w, h),
{
    let rows_f = |y: int| sum_to(|x: int| f(x, y), w);
    let rows_g = |y: int| sum_to(|x: int| g(x, y), w);
    assert forall|y: int| 0 <= y < h implies #[trigger] rows_f(y) <= rows_g(y) by {
        lemma_sum_le(|x: int| f(x, y), |x: int| g(x, y), w);
    }
    lemma_sum_le(rows_f, rows_g, h);
}

/// The sum over a rectangle of a linear combination is the combination of
/// the sums.
pub proof fn lemma_sum_over_linear(
    f: spec_fn(int, int) -> int,
    g: spec_fn(int, int) -> int,
    a: int,
    b: int,
    c: int,
    w: int,
    h: int,
)
    requires
        w >= 0,
        h >= 0,
    ensures
        sum_over(|x: int, y: int| a * f(x, y) + b * g(x, y) + c, w, h) == a * sum_over(f, w, h) + b
            * sum_over(g, w, h) + c * (w * h),
{
    let combined = |x: int, y: int| a * f(x, y) + b * g(x, y) + c;
    let rows = |y: int| sum_to(|x: int| combined(x, y), w);
    let rows_f = |y: int| sum_to(|x: int| f(x, y), w);
    let rows_g = |y: int| sum_to(|x: int| g(x, y), w);
    let mixed = |y: int| a * rows_f(y) + b * rows_g(y) + c * w;
    assert forall|y: int| 0 <= y < h implies #[trigger] rows(y) == mixed(y) by {
        lemma_sum_linear(|x: int| f(x, y), |x: int| g(x, y), a, b, c, w);
        lemma_sum_equal(
            |x: int| combined(x, y),
            |x: int| a * (|x: int| f(x, y))(x) + b * (|x: int| g(x, y))(x) + c,
            w,
        );
    }
    lemma_sum_equal(rows, mixed, h);
    lemma_sum_linear(rows_f, rows_g, a, b, c * w, h);
    assert(c * w * h == c * (w * h)) by (nonlinear_arith);
}

/// The sum over a rectangle of three functions added together is the sum
/// of their three sums.
pub proof fn lemma_sum_over_add3(
    f: spec_fn(int, int) -> int,
    g: spec_fn(int, int) -> int,
    k: spec_fn(int, int) -> int,
    w: int,
    h: int,
)
    requires
        w >= 0,
        h >= 0,
    ensures
        sum_over(|x: int, y: int| f(x, y) + g(x, y) + k(x, y), w, h) == sum_over(f, w, h) + sum_over(
            g,
            w,
            h,
        ) + sum_over(k, w, h),
{
    let pair = |x: int, y: int| 1 * g(x, y) + 1 * k(x, y) + 0;
    lemma_sum_over_linear(g, k, 1, 1, 0, w, h);
    lemma_sum_over_linear(f, pair, 1, 1, 0, w, h);
    lemma_sum_over_equal(
        |x: int, y: int| f(x, y) + g(x, y) + k(x, y),
        |x: int, y: int| 1 * f(x, y) + 1 * pair(x, y) + 0,
        w,
        h,
    );
    assert(0 * (w * h) == 0) by (nonlinear_arith);
}

/// Over a rectangle whose right edge meets its left edge, summing one
/// column further gives the same sum.
pub proof fn lemma_sum_over_shift_right(f: spec_fn(int, int) -> int, w: int, h: int)
    requires
        w >= 1,
        forall|y: int| 0 <= y < h ==> #[trigger] f(w, y) == f(0, y),
    ensures
        sum_over(|x: int, y: int| f(x + 1, y), w, h) == sum_over(f, w, h),
{
    let moved = |x: int, y: int| f(x + 1, y);
    let rows_moved = |y: int| sum_to(|x: int| moved(x, y), w);
    let rows = |y: int| sum_to(|x: int| f(x, y), w);
    assert forall|y: int| 0 <= y < h implies #[trigger] rows_moved(y) == rows(y) by {
        let line = |x: int| f(x, y);
        lemma_sum_shift_up(line, w);
        lemma_sum_equal(|x: int| moved(x, y), |x: int| line(x + 1), w);
    }
    lemma_sum_equal(rows_moved, rows, h);
}

/// Over a rectangle whose left edge meets its right edge, summing one
/// column back gives the same sum.
pub proof fn lemma_sum_over_shift_left(f: spec_fn(int, int) -> int, w: int, h: int)
    requires
        w >= 1,
        forall|y: int| 0 <= y < h ==> #[trigger] f(-1, y) == f(w - 1, y),
    ensures
        sum_over(|x: int, y: int| f(x - 1, y), w, h) == sum_over(f, w, h),
{
    let moved = |x: int, y: int| f(x - 1, y);
    let rows_moved = |y: int| sum_to(|x: int| moved(x, y), w);
    let rows = |y: int| sum_to(|x: int| f(x, y), w);
    assert forall|y: int| 0 <= y < h implies #[trigger] rows_moved(y) == rows(y) by {
        let line = |x: int| f(x, y);
        lemma_sum_shift_down(line, w);
        lemma_sum_equal(|x: int| moved(x, y), |x: int| line(x - 1), w);
    }
    lemma_sum_equal(rows_moved, rows, h);
}

/// Over a rectangle whose bottom edge meets its top edge, summing one row
/// further gives the same sum.
pub proof fn lemma_sum_over_shift_down(f: spec_fn(int, int) -> int, w: int, h: int)
    requires
        h >= 1,
        forall|x: int| 0 <= x < w ==> #[trigger] f(x, h) == f(x, 0),
    ensures
        sum_over(|x: int, y: int| f(x, y + 1), w, h) == sum_over(f, w, h),
{
    let moved = |x: int, y: int| f(x, y + 1);
    let rows_moved = |y: int| sum_to(|x: int| moved(x, y), w);
    let rows = |y: int| sum_to(|x: int| f(x, y), w);
    assert(rows(h) == rows(0)) by {
        lemma_sum_equal(|x: int| f(x, h), |x: int| f(x, 0), w);
    }
    lemma_sum_shift_up(rows, h);
    assert forall|y: int| 0 <= y < h implies #[trigger] rows_moved(y) == (|y: int| rows(y + 1))(y) by {
        lemma_sum_equal(|x: int| moved(x, y), |x: int| f(x, y + 1), w);
    }
    lemma_sum_equal(rows_moved, |y: int| rows(y + 1), h);
}

/// Over a rectangle whose top edge meets its bottom edge, summing one row
/// back gives the same sum.
pub proof fn lemma_sum_over_shift_up(f: spec_fn(int, int) -> int, w: int, h: int)
    requires
        h >= 1,
        forall|x: int| 0 <= x < w ==> #[trigger] f(x, -1) == f(x, h - 1),
    ensures
        sum_over(|x: int, y: int| f(x, y - 1), w, h) == sum_over(f, w, h),
{
    let moved = |x: int, y: int| f(x, y - 1);
    let rows_moved = |y: int| sum_to(|x: int| moved(x, y), w);
    let rows = |y: int| sum_to(|x: int| f(x, y), w);
    assert(rows(-1) == rows(h - 1)) by {
        lemma_sum_equal(|x: int| f(x, -1), |x: int| f(x, h - 1), w);
    }
    lemma_sum_shift_down(rows, h);
    assert forall|y: int| 0 <= y < h implies #[trigger] rows_moved(y) == (|y: int| rows(y - 1))(y) by {
        lemma_sum_equal(|x: int| moved(x, y), |x: int| f(x, y - 1), w);
    }
    lemma_sum_equal(rows_moved, |y: int| rows(y - 1), h);
}

} // verus!
