//! The trail map: a dense toroidal grid of intensities that agents deposit
//! into and that diffuses and fades once per frame.

use vstd::prelude::*;
use vstd::arithmetic::div_mod::lemma_fundamental_div_mod_converse;
use crate::fixed::{lemma_wrap_successor, wrap, wrap_index, UNIT};

verus! {

/// The largest intensity a cell can hold: one whole unit.
pub const MAX_INTENSITY: u32 = 1_000_000;

/// What one agent adds to the cell it stands on, each frame.
pub const DEPOSIT_AMOUNT: u32 = 250_000;

/// An intensity brought back into `[0, MAX_INTENSITY]`.
pub open spec fn clamp_intensity(value: int) -> int {
    if value < 0 {
        0
    } else if value > MAX_INTENSITY as int {
        MAX_INTENSITY as int
    } else {
        value
    }
}

/// A cell's intensity moved towards the average of its 3x3 neighbourhood by
/// `weight` millionths of the way, rounded towards minus infinity.
/// `neighbourhood` is the sum over the nine cells, so their average is a
/// ninth of it.
pub open spec fn blend(own: int, neighbourhood: int, weight: int) -> int {
    (9 * (UNIT as int) * own + weight * (neighbourhood - 9 * own)) / (9 * (UNIT as int))
}

/// An intensity after `amount` has faded from it, never below zero.
pub open spec fn fade(value: int, amount: int) -> int {
    if value > amount {
        value - amount
    } else {
        0
    }
}

/// A cell's intensity after one diffuse-and-decay pass: blended with its
/// neighbourhood, kept within range, then faded.
pub open spec fn next_intensity(own: int, neighbourhood: int, weight: int, amount: int) -> int {
    fade(clamp_intensity(blend(own, neighbourhood, weight)), amount)
}

/// The mathematical content of a trail map: its size and the intensity of
/// every cell, row by row.
pub struct Grid {
    pub width: int,
    pub height: int,
    pub cells: Seq<int>,
}

impl Grid {
    /// The grid has at least one cell, one entry per cell, and every
    /// intensity is within `[0, MAX_INTENSITY]`.
    pub open spec fn wf(self) -> bool {
        &&& self.width >= 1
        &&& self.height >= 1
        &&& self.cells.len() == self.width * self.height
        &&& forall|i: int|
            0 <= i < self.cells.len() ==> 0 <= #[trigger] self.cells[i] <= MAX_INTENSITY as int
    }

    /// Position in `cells` of the cell that the coordinates `(x, y)` fall on
    /// once wrapped around the grid.
    pub open spec fn index(self, x: int, y: int) -> int {
        wrap(y, self.height) * self.width + wrap(x, self.width)
    }

    /// Intensity at `(x, y)`, for any integer coordinates: opposite edges of
    /// the grid are adjacent.
    pub open spec fn at(self, x: int, y: int) -> int {
        self.cells[self.index(x, y)]
    }

    /// Sum of the `count` cells of row `y` that start at column `x0`.
    pub open spec fn row_sum(self, x0: int, y: int, count: int) -> int
        decreases count,
    {
        if count <= 0 {
            0
        } else {
            self.row_sum(x0, y, count - 1) + self.at(x0 + count - 1, y)
        }
    }

    /// Sum of the `columns` by `rows` block of cells whose first cell is
    /// `(x0, y0)`.
    pub open spec fn block_sum(self, x0: int, y0: int, columns: int, rows: int) -> int
        decreases rows,
    {
        if rows <= 0 {
            0
        } else {
            self.block_sum(x0, y0, columns, rows - 1) + self.row_sum(x0, y0 + rows - 1, columns)
        }
    }

    /// Sum of all intensities.
    pub open spec fn total(self) -> int {
        self.block_sum(0, 0, self.width, self.height)
    }

    /// Sum over the 3x3 neighbourhood of `(x, y)`, the cell itself included.
    pub open spec fn neighbourhood(self, x: int, y: int) -> int {
        self.block_sum(x - 1, y - 1, 3, 3)
    }

    /// Sum over the square window of half-width `half` centred on `(x, y)`.
    pub open spec fn window(self, x: int, y: int, half: int) -> int {
        self.block_sum(x - half, y - half, 2 * half + 1, 2 * half + 1)
    }

    /// The grid after `amount` was added to the cell at `(x, y)`, the cell
    /// stopping at `MAX_INTENSITY`.
    pub open spec fn deposited(self, x: int, y: int, amount: int) -> Grid {
        Grid {
            width: self.width,
            height: self.height,
            cells: self.cells.update(
                self.index(x, y),
                clamp_intensity(self.at(x, y) + amount),
            ),
        }
    }

    /// The grid after one diffuse-and-decay pass in which every cell reads
    /// its neighbourhood as it was before the pass.
    pub open spec fn diffused(self, weight: int, amount: int) -> Grid {
        Grid {
            width: self.width,
            height: self.height,
            cells: Seq::new(
                self.cells.len(),
                |i: int|
                    next_intensity(
                        self.cells[i],
                        self.neighbourhood(i % self.width, i / self.width),
                        weight,
                        amount,
                    ),
            ),
        }
    }

    /// A grid of the given size with nothing on it.
    pub open spec fn blank(width: int, height: int) -> Grid {
        Grid { width, height, cells: Seq::new((width * height) as nat, |i: int| 0int) }
    }
}

/// Wrapped coordinates index a cell of the grid.
pub proof fn lemma_index_in_range(grid: Grid, x: int, y: int)
    requires
        grid.width >= 1,
        grid.height >= 1,
    ensures
        0 <= grid.index(x, y) < grid.width * grid.height,
{
    let w = grid.width;
    let h = grid.height;
    let xx = wrap(x, w);
    let yy = wrap(y, h);
    assert(0 <= yy * w + xx < w * h) by (nonlinear_arith)
        requires
            0 <= xx < w,
            0 <= yy < h,
    ;
}

/// A cell's intensity after one diffuse-and-decay pass, from its own
/// intensity and the sum over its 3x3 neighbourhood.
pub fn diffuse_cell(own: u32, neighbourhood: u32, weight: u64, amount: u64) -> (next: u32)
    requires
        own <= MAX_INTENSITY,
        neighbourhood <= 9 * MAX_INTENSITY,
    ensures
        next == next_intensity(own as int, neighbourhood as int, weight as int, amount as int),
        next <= MAX_INTENSITY,
{
    let scale: u128 = 9 * (UNIT as u128);
    let base: u128 = scale * (own as u128);
    let nine_own: u128 = 9 * (own as u128);
    let blended: u128 = if neighbourhood as u128 >= nine_own {
        let gain: u128 = neighbourhood as u128 - nine_own;
        assert(weight as u128 * gain <= 0xffff_ffff_ffff_ffff * 9_000_000) by (nonlinear_arith)
            requires
                weight <= 0xffff_ffff_ffff_ffff,
                gain <= 9_000_000,
        ;
        let numerator: u128 = base + (weight as u128) * gain;
        assert(numerator == 9 * (UNIT as int) * own + weight * (neighbourhood - 9 * own));
        let quotient: u128 = numerator / scale;
        if quotient > MAX_INTENSITY as u128 {
            MAX_INTENSITY as u128
        } else {
            quotient
        }
    } else {
        let loss: u128 = nine_own - neighbourhood as u128;
        assert(weight as u128 * loss <= 0xffff_ffff_ffff_ffff * 9_000_000) by (nonlinear_arith)
            requires
                weight <= 0xffff_ffff_ffff_ffff,
                loss <= 9_000_000,
        ;
        let taken: u128 = (weight as u128) * loss;
        assert(base - taken == 9 * (UNIT as int) * own + weight * (neighbourhood - 9 * own))
            by (nonlinear_arith)
            requires
                base == 9 * (UNIT as int) * own,
                taken == weight * loss,
                loss == 9 * own - neighbourhood,
        ;
        if taken > base {
            assert((base - taken) / (scale as int) < 0) by (nonlinear_arith)
                requires
                    base - taken < 0,
                    scale > 0,
            ;
            0
        } else {
            let quotient: u128 = (base - taken) / scale;
            assert(quotient <= own) by (nonlinear_arith)
                requires
                    quotient == (base - taken) / (scale as int),
                    base == scale * own,
                    taken >= 0,
                    scale > 0,
            ;
            quotient
        }
    };
    assert(blended == clamp_intensity(blend(own as int, neighbourhood as int, weight as int)));
    if blended > amount as u128 {
        (blended - amount as u128) as u32
    } else {
        0
    }
}

/// The 8-bit shade that shows an intensity: 0 for none, 255 for
/// `MAX_INTENSITY`.
pub open spec fn shade_of(intensity: int) -> int {
    intensity * 255 / (MAX_INTENSITY as int)
}

/// The 8-bit shade that shows an intensity.
pub fn shade(intensity: u32) -> (level: u8)
    requires
        intensity <= MAX_INTENSITY,
    ensures
        level == shade_of(intensity as int),
{
    ((intensity as u64 * 255) / (MAX_INTENSITY as u64)) as u8
}

/// The trail map.
pub struct TrailMap {
    width: u32,
    height: u32,
    cells: Vec<u32>,
}

impl View for TrailMap {
    type V = Grid;

    closed spec fn view(&self) -> Grid {
        Grid {
            width: self.width as int,
            height: self.height as int,
            cells: self.cells@.map_values(|v: u32| v as int),
        }
    }
}

impl TrailMap {
    /// The invariant of every trail map: what it shows is a well-formed
    /// grid. Every constructor establishes it and every method keeps it.
    pub open spec fn wf(&self) -> bool {
        self@.wf()
    }

    /// A map of the given size with every cell at zero, or `None` when the
    /// grid would have no cell or more cells than can be addressed.
    pub fn new(width: u32, height: u32) -> (made: Option<TrailMap>)
        ensures
            made is Some <==> width >= 1 && height >= 1 && width * height <= usize::MAX,
            made matches Some(map) ==> map.wf() && map@ == Grid::blank(width as int, height as int),
    {
        if width == 0 || height == 0 {
            return None;
        }
        assert(width * height <= 0xffff_ffff * 0xffff_ffff) by (nonlinear_arith)
            requires
                width <= 0xffff_ffff,
                height <= 0xffff_ffff,
        ;
        let count: u64 = width as u64 * height as u64;
        if count > usize::MAX as u64 {
            return None;
        }
        let n: usize = count as usize;
        let mut cells: Vec<u32> = Vec::new();
        let mut i: usize = 0;
        while i < n
            invariant
                i <= n,
                cells.len() == i,
                forall|k: int| 0 <= k < i ==> cells[k] == 0,
            decreases n - i,
        {
            cells.push(0);
            i = i + 1;
        }
        let map = TrailMap { width, height, cells };
        assert(map@.cells =~= Grid::blank(width as int, height as int).cells);
        Some(map)
    }

    /// A map with the given intensities, row by row, or `None` when the grid
    /// would have no cell, the number of intensities is not that of its
    /// cells, or one of them exceeds `MAX_INTENSITY`.
    pub fn from_cells(width: u32, height: u32, cells: Vec<u32>) -> (made: Option<TrailMap>)
        ensures
            made is Some <==> {
                &&& width >= 1
                &&& height >= 1
                &&& cells.len() == width * height
                &&& forall|i: int| 0 <= i < cells.len() ==> cells[i] <= MAX_INTENSITY
            },
            made matches Some(map) ==> {
                &&& map.wf()
                &&& map@.width == width
                &&& map@.height == height
                &&& map@.cells == cells@.map_values(|v: u32| v as int)
            },
    {
        if width == 0 || height == 0 {
            return None;
        }
        assert(width * height <= 0xffff_ffff * 0xffff_ffff) by (nonlinear_arith)
            requires
                width <= 0xffff_ffff,
                height <= 0xffff_ffff,
        ;
        let count: u64 = width as u64 * height as u64;
        if cells.len() as u64 != count {
            return None;
        }
        let mut i: usize = 0;
        while i < cells.len()
            invariant
                i <= cells.len(),
                forall|k: int| 0 <= k < i ==> cells[k] <= MAX_INTENSITY,
            decreases cells.len() - i,
        {
            if cells[i] > MAX_INTENSITY {
                return None;
            }
            i = i + 1;
        }
        Some(TrailMap { width, height, cells })
    }

    /// Number of cell columns.
    pub fn width(&self) -> (w: u32)
        requires
            self.wf(),
        ensures
            w == self@.width,
            w >= 1,
    {
        self.width
    }

    /// Number of cell rows.
    pub fn height(&self) -> (h: u32)
        requires
            self.wf(),
        ensures
            h == self@.height,
            h >= 1,
    {
        self.height
    }

    /// Position in `cells` of the cell that `(x, y)` wraps onto.
    fn slot(&self, x: u32, y: u32) -> (i: usize)
        requires
            self.wf(),
        ensures
            i == self@.index(x as int, y as int),
            i < self.cells.len(),
    {
        proof {
            lemma_index_in_range(self@, x as int, y as int);
        }
        let column: usize = (x % self.width) as usize;
        let row: usize = (y % self.height) as usize;
        assert(row as int == wrap(y as int, self@.height));
        assert(column as int == wrap(x as int, self@.width));
        assert(row * self.width + column == self@.index(x as int, y as int));
        assert(self@.cells.len() == self.cells.len());
        row * (self.width as usize) + column
    }

    /// Adds `amount` to the cell that `(x, y)` wraps onto; the cell stops at
    /// `MAX_INTENSITY`.
    pub fn deposit(&mut self, x: u32, y: u32, amount: u32)
        requires
            old(self).wf(),
        ensures
            final(self)@ == old(self)@.deposited(x as int, y as int, amount as int),
            final(self).wf(),
    {
        let i: usize = self.slot(x, y);
        assert(self@.cells[i as int] == self.cells[i as int]);
        let raised: u64 = self.cells[i] as u64 + amount as u64;
        let value: u32 = if raised > MAX_INTENSITY as u64 {
            MAX_INTENSITY
        } else {
            raised as u32
        };
        let ghost before = self@;
        self.cells.set(i, value);
        assert(self@.cells =~= before.deposited(x as int, y as int, amount as int).cells);
    }

    /// One diffuse-and-decay pass over every cell. Each cell is blended
    /// towards the average of its 3x3 neighbourhood by `diffuse_speed`
    /// millionths, then loses `fade_speed`. All neighbourhoods are read as
    /// they were before the pass, so the order of the cells does not matter.
    pub fn diffuse(&mut self, diffuse_speed: u64, fade_speed: u64)
        requires
            old(self).wf(),
        ensures
            final(self)@ == old(self)@.diffused(diffuse_speed as int, fade_speed as int),
            final(self).wf(),
    {
        let n: usize = self.cells.len();
        let mut next: Vec<u32> = Vec::new();
        let mut x: u32 = 0;
        let mut y: u32 = 0;
        let mut k: usize = 0;
        while k < n
            invariant
                self@.wf(),
                self@ == old(self)@,
                n == self.cells.len(),
                k <= n,
                next.len() == k,
                k == y * self.width + x,
                x < self.width,
                k < n ==> y < self.height,
                forall|j: int|
                    0 <= j < k ==> #[trigger] next[j] == next_intensity(
                        self@.cells[j],
                        self@.neighbourhood(j % self@.width, j / self@.width),
                        diffuse_speed as int,
                        fade_speed as int,
                    ),
                forall|j: int| 0 <= j < k ==> #[trigger] next[j] <= MAX_INTENSITY,
            decreases n - k,
        {
            proof {
                let w = self@.width;
                lemma_fundamental_div_mod_converse(k as int, w, y as int, x as int);
                assert(self@.cells[k as int] == self.cells[k as int]);
            }
            let around: u32 = self.neighbourhood_sum(x, y);
            let value: u32 = diffuse_cell(self.cells[k], around, diffuse_speed, fade_speed);
            next.push(value);
            k = k + 1;
            if x + 1 == self.width {
                proof {
                    let w = self@.width;
                    let h = self@.height;
                    assert((y + 1) * w + 0 == y * w + x + 1) by (nonlinear_arith)
                        requires
                            x + 1 == w,
                    ;
                    if k < n {
                        assert(y + 1 < h) by (nonlinear_arith)
                            requires
                                (y + 1) * w < w * h,
                                w >= 1,
                        ;
                    }
                }
                x = 0;
                y = y + 1;
            } else {
                x = x + 1;
            }
        }
        let ghost before = self@;
        self.cells = next;
        assert(self@.cells =~= before.diffused(diffuse_speed as int, fade_speed as int).cells);
    }

    /// The map as RGBA pixels, row by row, four bytes a cell: the cell's
    /// shade in the three colour channels and full opacity. `None` when the
    /// pixels would be more bytes than can be addressed.
    pub fn to_rgba8(&self) -> (pixels: Option<Vec<u8>>)
        requires
            self.wf(),
        ensures
            pixels is Some <==> 4 * self@.cells.len() <= usize::MAX,
            pixels matches Some(bytes) ==> {
                &&& bytes.len() == 4 * self@.cells.len()
                &&& forall|k: int|
                    0 <= k < self@.cells.len() ==> {
                        &&& bytes[4 * k] == shade_of(#[trigger] self@.cells[k])
                        &&& bytes[4 * k + 1] == shade_of(self@.cells[k])
                        &&& bytes[4 * k + 2] == shade_of(self@.cells[k])
                        &&& bytes[4 * k + 3] == 255
                    }
            },
    {
        let n: usize = self.cells.len();
        if n > usize::MAX / 4 {
            return None;
        }
        let mut bytes: Vec<u8> = Vec::new();
        let mut k: usize = 0;
        while k < n
            invariant
                self@.wf(),
                n == self.cells.len(),
                4 * n <= usize::MAX,
                k <= n,
                bytes.len() == 4 * k,
                forall|j: int|
                    0 <= j < k ==> {
                        &&& bytes[4 * j] == shade_of(#[trigger] self@.cells[j])
                        &&& bytes[4 * j + 1] == shade_of(self@.cells[j])
                        &&& bytes[4 * j + 2] == shade_of(self@.cells[j])
                        &&& bytes[4 * j + 3] == 255
                    },
            decreases n - k,
        {
            assert(self@.cells[k as int] == self.cells[k as int]);
            let level: u8 = shade(self.cells[k]);
            bytes.push(level);
            bytes.push(level);
            bytes.push(level);
            bytes.push(255);
            k = k + 1;
        }
        Some(bytes)
    }

    /// Sum of `count` consecutive cells of row `y`, starting at column `x0`
    /// and wrapping around the end of the row.
    fn sum_row(&self, x0: i64, y: i64, count: u64) -> (sum: u128)
        requires
            self.wf(),
            -0x1_0000_0000 <= x0 <= 0x1_0000_0000,
            count <= 0x2_0000_0000,
        ensures
            sum == self@.row_sum(x0 as int, y as int, count as int),
            sum <= count * MAX_INTENSITY,
    {
        let row: usize = wrap_index(y, self.height) as usize;
        let mut column: u32 = wrap_index(x0, self.width);
        let mut sum: u128 = 0;
        let mut done: u64 = 0;
        while done < count
            invariant
                self@.wf(),
                row == wrap(y as int, self@.height),
                done <= count <= 0x2_0000_0000,
                column == wrap(x0 + done, self@.width),
                sum == self@.row_sum(x0 as int, y as int, done as int),
                sum <= done * MAX_INTENSITY,
            decreases count - done,
        {
            proof {
                lemma_index_in_range(self@, x0 + done, y as int);
                lemma_wrap_successor(x0 + done, self@.width);
                assert(self@.cells.len() == self.cells.len());
                assert(row * self.width + column == self@.index(x0 + done, y as int));
            }
            let i: usize = row * (self.width as usize) + column as usize;
            assert(i == self@.index(x0 + done, y as int));
            assert(self@.cells[i as int] == self.cells[i as int]);
            sum = sum + self.cells[i] as u128;
            column = if column + 1 == self.width {
                0
            } else {
                column + 1
            };
            done = done + 1;
        }
        sum
    }

    /// Sum of a block of `columns` by `rows` cells whose first cell is
    /// `(x0, y0)`, wrapping around both ends of the grid.
    fn sum_block(&self, x0: i64, y0: i64, columns: u64, rows: u64) -> (sum: u128)
        requires
            self.wf(),
            -0x1_0000_0000 <= x0 <= 0x1_0000_0000,
            -0x1_0000_0000 <= y0 <= 0x1_0000_0000,
            columns <= 0x2_0000_0000,
            rows <= 0x2_0000_0000,
        ensures
            sum == self@.block_sum(x0 as int, y0 as int, columns as int, rows as int),
            sum <= rows * columns * MAX_INTENSITY,
    {
        let mut sum: u128 = 0;
        let mut done: u64 = 0;
        while done < rows
            invariant
                self.wf(),
                done <= rows <= 0x2_0000_0000,
                columns <= 0x2_0000_0000,
                -0x1_0000_0000 <= x0 <= 0x1_0000_0000,
                -0x1_0000_0000 <= y0 <= 0x1_0000_0000,
                sum == self@.block_sum(x0 as int, y0 as int, columns as int, done as int),
                sum <= done * columns * MAX_INTENSITY,
            decreases rows - done,
        {
            let line: u128 = self.sum_row(x0, y0 + done as i64, columns);
            assert((done + 1) * columns * MAX_INTENSITY == done * columns * MAX_INTENSITY + columns
                * MAX_INTENSITY) by (nonlinear_arith);
            assert((done + 1) * columns * MAX_INTENSITY <= 0x2_0000_0000 * 0x2_0000_0000 * 1_000_000)
                by (nonlinear_arith)
                requires
                    done + 1 <= 0x2_0000_0000,
                    columns <= 0x2_0000_0000,
            ;
            sum = sum + line;
            done = done + 1;
        }
        sum
    }

    /// Sum of the intensities of the 3x3 block of cells centred on the cell
    /// that `(x, y)` wraps onto.
    pub fn neighbourhood_sum(&self, x: u32, y: u32) -> (sum: u32)
        requires
            self.wf(),
        ensures
            sum == self@.neighbourhood(x as int, y as int),
            sum <= 9 * MAX_INTENSITY,
    {
        let sum: u128 = self.sum_block(x as i64 - 1, y as i64 - 1, 3, 3);
        sum as u32
    }

    /// Sum of the intensities of the square window of half-width `half`
    /// centred on the cell that `(x, y)` wraps onto.
    pub fn window_sum(&self, x: u32, y: u32, half: u32) -> (sum: u128)
        requires
            self.wf(),
        ensures
            sum == self@.window(x as int, y as int, half as int),
    {
        let side: u64 = 2 * (half as u64) + 1;
        self.sum_block(x as i64 - half as i64, y as i64 - half as i64, side, side)
    }

    /// Sum of all intensities.
    pub fn total(&self) -> (sum: u128)
        requires
            self.wf(),
        ensures
            sum == self@.total(),
    {
        self.sum_block(0, 0, self.width as u64, self.height as u64)
    }

    /// Intensity of the cell that `(x, y)` falls on once wrapped around the
    /// grid.
    pub fn intensity_at(&self, x: u32, y: u32) -> (value: u32)
        requires
            self.wf(),
        ensures
            value == self@.at(x as int, y as int),
            value <= MAX_INTENSITY,
    {
        let i: usize = self.slot(x, y);
        assert(self@.cells[i as int] == self.cells[i as int]);
        self.cells[i]
    }
}

} // verus!
