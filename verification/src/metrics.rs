//! Read-only terrain metrics: ground/water population counts, scaled average
//! displacements, continuity and linear-run scores, and the extrema. These
//! drive the generator's termination heuristic.
use vstd::prelude::*;

use crate::arith::usize_of_i32_or;
use crate::arith::uwadd;
use crate::arith::uwmul;
use crate::arith::wsub;
use crate::conv::Reducer;
use crate::conv::get_filter;
use crate::conv::probe;
use crate::heightmap::HeightMap;
use crate::heightmap::view_of;

verus! {

/// Cells of a row strictly above the threshold.
pub open spec fn row_count_above(row: Seq<i32>, wl: i32) -> int
    decreases row.len(),
{
    if row.len() == 0 {
        0
    } else {
        row_count_above(row.drop_last(), wl) + if row.last() > wl {
            1int
        } else {
            0int
        }
    }
}

/// Cells of a grid strictly above the threshold.
pub open spec fn grid_count_above(g: Seq<Seq<i32>>, wl: i32) -> int
    decreases g.len(),
{
    if g.len() == 0 {
        0
    } else {
        grid_count_above(g.drop_last(), wl) + row_count_above(g.last(), wl)
    }
}

/// Cells of a row strictly below the threshold.
pub open spec fn row_count_below(row: Seq<i32>, wl: i32) -> int
    decreases row.len(),
{
    if row.len() == 0 {
        0
    } else {
        row_count_below(row.drop_last(), wl) + if row.last() < wl {
            1int
        } else {
            0int
        }
    }
}

/// Cells of a grid strictly below the threshold.
pub open spec fn grid_count_below(g: Seq<Seq<i32>>, wl: i32) -> int
    decreases g.len(),
{
    if g.len() == 0 {
        0
    } else {
        grid_count_below(g.drop_last(), wl) + row_count_below(g.last(), wl)
    }
}

/// Cells of a row exactly at the threshold.
pub open spec fn row_count_equal(row: Seq<i32>, wl: i32) -> int
    decreases row.len(),
{
    if row.len() == 0 {
        0
    } else {
        row_count_equal(row.drop_last(), wl) + if row.last() == wl {
            1int
        } else {
            0int
        }
    }
}

/// Cells of a grid exactly at the threshold.
pub open spec fn grid_count_equal(g: Seq<Seq<i32>>, wl: i32) -> int
    decreases g.len(),
{
    if g.len() == 0 {
        0
    } else {
        grid_count_equal(g.drop_last(), wl) + row_count_equal(g.last(), wl)
    }
}

/// Every cell of a row is above, below or at the threshold.
pub proof fn lemma_row_partition(row: Seq<i32>, wl: i32)
    ensures
        row_count_above(row, wl) + row_count_below(row, wl) + row_count_equal(row, wl)
            == row.len(),
        0 <= row_count_above(row, wl) <= row.len(),
        0 <= row_count_below(row, wl) <= row.len(),
        0 <= row_count_equal(row, wl) <= row.len(),
    decreases row.len(),
{
    if row.len() > 0 {
        lemma_row_partition(row.drop_last(), wl);
    }
}

/// Every cell of a grid is above, below or at the threshold: the three
/// population counts always partition the cell count.
pub proof fn lemma_grid_partition(g: Seq<Seq<i32>>, wl: i32, w: int)
    requires
        forall|i: int| 0 <= i < g.len() ==> #[trigger] g[i].len() == w,
    ensures
        grid_count_above(g, wl) + grid_count_below(g, wl) + grid_count_equal(g, wl) == g.len() * w,
        0 <= grid_count_above(g, wl) <= g.len() * w,
        0 <= grid_count_below(g, wl) <= g.len() * w,
        0 <= grid_count_equal(g, wl) <= g.len() * w,
    decreases g.len(),
{
    if g.len() == 0 {
    } else {
        lemma_grid_partition(g.drop_last(), wl, w);
        lemma_row_partition(g.last(), wl);
        assert((g.len() - 1) * w + w == g.len() * w) by (nonlinear_arith);
    }
}

/// The wrapped total of the non-negative displacements `cell - wl` over
/// cells above the threshold, within one row.
pub open spec fn row_total_above(row: Seq<i32>, wl: i32) -> usize
    decreases row.len(),
{
    if row.len() == 0 {
        0usize
    } else {
        uwadd(
            row_total_above(row.drop_last(), wl),
            if row.last() > wl {
                usize_of_i32_or(wsub(row.last(), wl), 0)
            } else {
                0usize
            },
        )
    }
}

/// The wrapped grid total of [`row_total_above`].
pub open spec fn grid_total_above(g: Seq<Seq<i32>>, wl: i32) -> usize
    decreases g.len(),
{
    if g.len() == 0 {
        0usize
    } else {
        uwadd(grid_total_above(g.drop_last(), wl), row_total_above(g.last(), wl))
    }
}

/// The wrapped total of the displacements `wl - cell`, converted with the
/// zero fallback, accumulated over cells above the threshold, within one row.
/// The accumulation deliberately filters on cells above the level while the
/// caller scales by the water sub-range; with every displacement negative the
/// conversion fallback zeroes each summand, so the total is zero unless a
/// wrapped subtraction turns a displacement positive. The evolution loop's
/// termination depends on this exact reading, so it is kept as it stands.
pub open spec fn row_total_water(row: Seq<i32>, wl: i32) -> usize
    decreases row.len(),
{
    if row.len() == 0 {
        0usize
    } else {
        uwadd(
            row_total_water(row.drop_last(), wl),
            if row.last() > wl {
                usize_of_i32_or(wsub(wl, row.last()), 0)
            } else {
                0usize
            },
        )
    }
}

/// The wrapped grid total of [`row_total_water`].
pub open spec fn grid_total_water(g: Seq<Seq<i32>>, wl: i32) -> usize
    decreases g.len(),
{
    if g.len() == 0 {
        0usize
    } else {
        uwadd(grid_total_water(g.drop_last(), wl), row_total_water(g.last(), wl))
    }
}

/// The wrapped total of the per-cell score matrix values, converted with the
/// zero fallback, over cells of `g` above the threshold, within row `i`.
pub open spec fn row_total_scores(g: Seq<Seq<i32>>, scores: Seq<Seq<i32>>, wl: i32, i: int, j: int) -> usize
    decreases j,
{
    if j <= 0 {
        0usize
    } else {
        uwadd(
            row_total_scores(g, scores, wl, i, j - 1),
            if g[i][j - 1] > wl {
                usize_of_i32_or(scores[i][j - 1], 0)
            } else {
                0usize
            },
        )
    }
}

/// The grid total of [`row_total_scores`] over the first `i` rows.
pub open spec fn grid_total_scores(g: Seq<Seq<i32>>, scores: Seq<Seq<i32>>, wl: i32, i: int, w: int) -> usize
    decreases i,
{
    if i <= 0 {
        0usize
    } else {
        uwadd(grid_total_scores(g, scores, wl, i - 1, w), row_total_scores(g, scores, wl, i - 1, w))
    }
}

/// As [`row_total_scores`], over cells not above the threshold.
pub open spec fn row_total_scores_water(g: Seq<Seq<i32>>, scores: Seq<Seq<i32>>, wl: i32, i: int, j: int) -> usize
    decreases j,
{
    if j <= 0 {
        0usize
    } else {
        uwadd(
            row_total_scores_water(g, scores, wl, i, j - 1),
            if !(g[i][j - 1] > wl) {
                usize_of_i32_or(scores[i][j - 1], 0)
            } else {
                0usize
            },
        )
    }
}

/// The grid total of [`row_total_scores_water`] over the first `i` rows.
pub open spec fn grid_total_scores_water(g: Seq<Seq<i32>>, scores: Seq<Seq<i32>>, wl: i32, i: int, w: int) -> usize
    decreases i,
{
    if i <= 0 {
        0usize
    } else {
        uwadd(
            grid_total_scores_water(g, scores, wl, i - 1, w),
            row_total_scores_water(g, scores, wl, i - 1, w),
        )
    }
}

/// The ground continuity and water continuity of a grid: the same-side
/// neighbor scores of the probe, summed per side over the whole grid and
/// divided by 8.
pub open spec fn continuity_spec(g: Seq<Seq<i32>>, h: int, w: int, wl: i32) -> (usize, usize) {
    let scores = probe((Reducer::SameSide { water_level: wl }), g, h, w);
    (
        (grid_total_scores(g, scores, wl, h, w) as int / 8) as usize,
        (grid_total_scores_water(g, scores, wl, h, w) as int / 8) as usize,
    )
}

/// The linear-run score of a grid: the straight-line-pair scores of the
/// probe, summed over ground cells and divided by 8.
pub open spec fn linear_ground_spec(g: Seq<Seq<i32>>, h: int, w: int, wl: i32) -> usize {
    let scores = probe((Reducer::LinearRun { water_level: wl }), g, h, w);
    (grid_total_scores(g, scores, wl, h, w) as int / 8) as usize
}

/// The scaled average ground displacement of a grid.
pub open spec fn average_ground_spec(g: Seq<Seq<i32>>, wl: i32, max: i32) -> usize {
    let total = grid_total_above(g, wl);
    let scale = usize_of_i32_or(wsub(max, wl), 1);
    let ground = grid_count_above(g, wl);
    if ground * scale != 0 {
        uwmul(((total as int / ground) as usize), scale)
    } else {
        0usize
    }
}

/// The scaled average water displacement of a grid, under the literal
/// ground-filtered accumulation of [`row_total_water`].
pub open spec fn average_water_spec(g: Seq<Seq<i32>>, wl: i32, min: i32) -> usize {
    let total = grid_total_water(g, wl);
    let scale = usize_of_i32_or(wsub(wl, min), 1);
    let water = grid_count_below(g, wl);
    if water * scale != 0 {
        uwmul(((total as int / water) as usize), scale)
    } else {
        0usize
    }
}

/// The row-major fold of the strict-maximum scan over one row.
pub open spec fn max_scan_row(row: Seq<i32>, i: int, j: int, cur: (i32, int, int)) -> (i32, int, int)
    decreases j,
{
    if j <= 0 {
        cur
    } else {
        let p = max_scan_row(row, i, j - 1, cur);
        if p.0 < row[j - 1] {
            (row[j - 1], i, j - 1)
        } else {
            p
        }
    }
}

/// The row-major fold of the strict-maximum scan over the first `i` rows.
pub open spec fn max_scan(g: Seq<Seq<i32>>, i: int, w: int, cur: (i32, int, int)) -> (i32, int, int)
    decreases i,
{
    if i <= 0 {
        cur
    } else {
        max_scan_row(g[i - 1], i - 1, w, max_scan(g, i - 1, w, cur))
    }
}

/// The row-major fold of the strict-minimum scan over one row.
pub open spec fn min_scan_row(row: Seq<i32>, i: int, j: int, cur: (i32, int, int)) -> (i32, int, int)
    decreases j,
{
    if j <= 0 {
        cur
    } else {
        let p = min_scan_row(row, i, j - 1, cur);
        if p.0 > row[j - 1] {
            (row[j - 1], i, j - 1)
        } else {
            p
        }
    }
}

/// The row-major fold of the strict-minimum scan over the first `i` rows.
pub open spec fn min_scan(g: Seq<Seq<i32>>, i: int, w: int, cur: (i32, int, int)) -> (i32, int, int)
    decreases i,
{
    if i <= 0 {
        cur
    } else {
        min_scan_row(g[i - 1], i - 1, w, min_scan(g, i - 1, w, cur))
    }
}

/// Counts the cells of a matrix strictly above the threshold.
pub fn count_cells_above(m: &Vec<Vec<i32>>, height: usize, width: usize, wl: i32) -> (n: usize)
    requires
        crate::conv::dims(*m, height, width),
        height <= 64,
        width <= 64,
    ensures
        n == grid_count_above(view_of(*m).take(height as int), wl),
        n <= height * width,
{
    let mut n: usize = 0;
    let ghost g = view_of(*m);
    for i in 0..height
        invariant
            crate::conv::dims(*m, height, width),
            height <= 64,
            width <= 64,
            g == view_of(*m),
            n == grid_count_above(g.take(i as int), wl),
            n <= i * width,
    {
        let ghost gpre = g.take(i as int);
        let mut rn: usize = 0;
        for j in 0..width
            invariant
                crate::conv::dims(*m, height, width),
                g == view_of(*m),
                i < height,
                rn == row_count_above(g[i as int].take(j as int), wl),
                rn <= j,
        {
            proof {
                assert(g[i as int].take(j as int + 1).drop_last() =~= g[i as int].take(j as int));
                assert(g[i as int].take(j as int + 1).last() == m@[i as int]@[j as int]);
            }
            if m[i][j] > wl {
                rn = rn + 1;
            }
        }
        proof {
            assert(g[i as int].take(width as int) =~= g[i as int]);
            assert(g.take(i as int + 1).drop_last() =~= g.take(i as int));
            assert(g.take(i as int + 1).last() == g[i as int]);
            lemma_row_partition(g[i as int], wl);
            assert((i + 1) * width == i * width + width) by (nonlinear_arith);
            assert((i + 1) * width <= 64 * 64) by (nonlinear_arith)
                requires
                    0 <= i as int && i as int + 1 <= height as int && height <= 64 && width <= 64,
            ;
        }
        n = n + rn;
    }
    n
}

impl HeightMap {
    /// The number of ground cells: heights strictly above the water level.
    pub fn count_ground(&self) -> (n: usize)
        requires
            self.well_formed(),
        ensures
            n == grid_count_above(self.grid(), self.water_level),
            n <= self.size.0 * self.size.1,
    {
        let n = count_cells_above(&self.map, self.size.0, self.size.1, self.water_level);
        proof {
            assert(self.grid().take(self.size.0 as int) =~= self.grid());
        }
        n
    }

    /// The number of water cells: heights strictly below the water level.
    /// Cells exactly at the water level count toward neither class.
    pub fn count_water(&self) -> (n: usize)
        requires
            self.well_formed(),
        ensures
            n == grid_count_below(self.grid(), self.water_level),
            n <= self.size.0 * self.size.1,
    {
        let mut n: usize = 0;
        let ghost g = self.grid();
        let height = self.size.0;
        let width = self.size.1;
        for i in 0..height
            invariant
                self.well_formed(),
                height == self.size.0,
                width == self.size.1,
                g == self.grid(),
                n == grid_count_below(g.take(i as int), self.water_level),
                n <= i * width,
        {
            let mut rn: usize = 0;
            for j in 0..width
                invariant
                    self.well_formed(),
                    height == self.size.0,
                    width == self.size.1,
                    g == self.grid(),
                    i < height,
                    rn == row_count_below(g[i as int].take(j as int), self.water_level),
                    rn <= j,
            {
                proof {
                    assert(g[i as int].take(j as int + 1).drop_last() =~= g[i as int].take(
                        j as int,
                    ));
                    assert(g[i as int].take(j as int + 1).last() == self.map@[i as int]@[j as int]);
                }
                if self.map[i][j] < self.water_level {
                    rn = rn + 1;
                }
            }
            proof {
                assert(g[i as int].take(width as int) =~= g[i as int]);
                assert(g.take(i as int + 1).drop_last() =~= g.take(i as int));
                assert(g.take(i as int + 1).last() == g[i as int]);
                lemma_row_partition(g[i as int], self.water_level);
                assert((i + 1) * width == i * width + width) by (nonlinear_arith);
                assert((i + 1) * width <= 64 * 64) by (nonlinear_arith)
                    requires
                        0 <= i as int && i as int + 1 <= height as int && height <= 64 && width
                            <= 64,
                ;
            }
            n = n + rn;
        }
        proof {
            assert(g.take(height as int) =~= g);
        }
        n
    }

    /// The number of cells exactly at the water level.
    pub fn count_equal_water_level(&self) -> (n: usize)
        requires
            self.well_formed(),
        ensures
            n == grid_count_equal(self.grid(), self.water_level),
            n <= self.size.0 * self.size.1,
    {
        let mut n: usize = 0;
        let ghost g = self.grid();
        let height = self.size.0;
        let width = self.size.1;
        for i in 0..height
            invariant
                self.well_formed(),
                height == self.size.0,
                width == self.size.1,
                g == self.grid(),
                n == grid_count_equal(g.take(i as int), self.water_level),
                n <= i * width,
        {
            let mut rn: usize = 0;
            for j in 0..width
                invariant
                    self.well_formed(),
                    height == self.size.0,
                    width == self.size.1,
                    g == self.grid(),
                    i < height,
                    rn == row_count_equal(g[i as int].take(j as int), self.water_level),
                    rn <= j,
            {
                proof {
                    assert(g[i as int].take(j as int + 1).drop_last() =~= g[i as int].take(
                        j as int,
                    ));
                    assert(g[i as int].take(j as int + 1).last() == self.map@[i as int]@[j as int]);
                }
                if self.map[i][j] == self.water_level {
                    rn = rn + 1;
                }
            }
            proof {
                assert(g[i as int].take(width as int) =~= g[i as int]);
                assert(g.take(i as int + 1).drop_last() =~= g.take(i as int));
                assert(g.take(i as int + 1).last() == g[i as int]);
                lemma_row_partition(g[i as int], self.water_level);
                assert((i + 1) * width == i * width + width) by (nonlinear_arith);
                assert((i + 1) * width <= 64 * 64) by (nonlinear_arith)
                    requires
                        0 <= i as int && i as int + 1 <= height as int && height <= 64 && width
                            <= 64,
                ;
            }
            n = n + rn;
        }
        proof {
            assert(g.take(height as int) =~= g);
        }
        n
    }

    /// The ground, water and neither-class populations always partition the
    /// grid: their sum is exactly the cell count.
    pub proof fn lemma_population_partition(self)
        requires
            self.well_formed(),
        ensures
            grid_count_above(self.grid(), self.water_level) + grid_count_below(
                self.grid(),
                self.water_level,
            ) + grid_count_equal(self.grid(), self.water_level) == self.size.0 * self.size.1,
    {
        lemma_grid_partition(self.grid(), self.water_level, self.size.1 as int);
        assert(self.grid().len() * self.size.1 == self.size.0 * self.size.1) by (nonlinear_arith)
            requires
                self.grid().len() == self.size.0,
        ;
    }
}

impl HeightMap {
    /// The mean ground displacement above the water level, scaled by the
    /// ground sub-range; 0 where there are no ground cells.
    pub fn average_ground(&self) -> (r: usize)
        requires
            self.well_formed(),
        ensures
            r == average_ground_spec(self.grid(), self.water_level, self.max),
    {
        let h = self.size.0;
        let w = self.size.1;
        let wl = self.water_level;
        let ghost g = self.grid();
        let mut total: usize = 0;
        for i in 0..h
            invariant
                self.well_formed(),
                h == self.size.0,
                w == self.size.1,
                wl == self.water_level,
                g == self.grid(),
                total == grid_total_above(g.take(i as int), wl),
        {
            let mut rt: usize = 0;
            for j in 0..w
                invariant
                    self.well_formed(),
                    h == self.size.0,
                    w == self.size.1,
                    wl == self.water_level,
                    g == self.grid(),
                    i < h,
                    rt == row_total_above(g[i as int].take(j as int), wl),
            {
                proof {
                    assert(g[i as int].take(j as int + 1).drop_last() =~= g[i as int].take(
                        j as int,
                    ));
                    assert(g[i as int].take(j as int + 1).last() == self.map@[i as int]@[j as int]);
                }
                let item = self.map[i][j];
                if item > wl {
                    rt = rt.wrapping_add(crate::arith::exec_usize_of_i32_or(item.wrapping_sub(wl), 0));
                }
            }
            proof {
                assert(g[i as int].take(w as int) =~= g[i as int]);
                assert(g.take(i as int + 1).drop_last() =~= g.take(i as int));
                assert(g.take(i as int + 1).last() == g[i as int]);
            }
            total = total.wrapping_add(rt);
        }
        proof {
            assert(g.take(h as int) =~= g);
        }
        let scale = crate::arith::exec_usize_of_i32_or(self.max.wrapping_sub(wl), 1);
        let ground = self.count_ground();
        proof {
            assert(scale <= 2000);
            assert(ground <= 4096) by {
                assert(self.size.0 * self.size.1 <= 64 * 64) by (nonlinear_arith)
                    requires
                        self.size.0 <= 64 && self.size.1 <= 64,
                ;
            }
            assert(ground * scale <= 4096 * 2000) by (nonlinear_arith)
                requires
                    0 <= ground <= 4096 && 0 <= scale <= 2000,
            ;
        }
        if ground * scale != 0 {
            proof {
                assert(ground != 0) by (nonlinear_arith)
                    requires
                        ground * scale != 0,
                ;
            }
            (total / ground).wrapping_mul(scale)
        } else {
            0
        }
    }

    /// The nominal water counterpart of [`HeightMap::average_ground`],
    /// scaling by the water sub-range while accumulating over ground cells
    /// with the zero conversion fallback; see [`row_total_water`].
    pub fn average_water(&self) -> (r: usize)
        requires
            self.well_formed(),
        ensures
            r == average_water_spec(self.grid(), self.water_level, self.min),
    {
        let h = self.size.0;
        let w = self.size.1;
        let wl = self.water_level;
        let ghost g = self.grid();
        let mut total: usize = 0;
        for i in 0..h
            invariant
                self.well_formed(),
                h == self.size.0,
                w == self.size.1,
                wl == self.water_level,
                g == self.grid(),
                total == grid_total_water(g.take(i as int), wl),
        {
            let mut rt: usize = 0;
            for j in 0..w
                invariant
                    self.well_formed(),
                    h == self.size.0,
                    w == self.size.1,
                    wl == self.water_level,
                    g == self.grid(),
                    i < h,
                    rt == row_total_water(g[i as int].take(j as int), wl),
            {
                proof {
                    assert(g[i as int].take(j as int + 1).drop_last() =~= g[i as int].take(
                        j as int,
                    ));
                    assert(g[i as int].take(j as int + 1).last() == self.map@[i as int]@[j as int]);
                }
                let item = self.map[i][j];
                if item > wl {
                    rt = rt.wrapping_add(crate::arith::exec_usize_of_i32_or(wl.wrapping_sub(item), 0));
                }
            }
            proof {
                assert(g[i as int].take(w as int) =~= g[i as int]);
                assert(g.take(i as int + 1).drop_last() =~= g.take(i as int));
                assert(g.take(i as int + 1).last() == g[i as int]);
            }
            total = total.wrapping_add(rt);
        }
        proof {
            assert(g.take(h as int) =~= g);
        }
        let scale = crate::arith::exec_usize_of_i32_or(wl.wrapping_sub(self.min), 1);
        let water = self.count_water();
        proof {
            assert(scale <= 2000);
            assert(water <= 4096) by {
                assert(self.size.0 * self.size.1 <= 64 * 64) by (nonlinear_arith)
                    requires
                        self.size.0 <= 64 && self.size.1 <= 64,
                ;
            }
            assert(water * scale <= 4096 * 2000) by (nonlinear_arith)
                requires
                    0 <= water <= 4096 && 0 <= scale <= 2000,
            ;
        }
        if water * scale != 0 {
            proof {
                assert(water != 0) by (nonlinear_arith)
                    requires
                        water * scale != 0,
                ;
            }
            (total / water).wrapping_mul(scale)
        } else {
            0
        }
    }

    /// The number of same-side neighbor pairings per class: the same-side
    /// probe summed over ground cells and over the rest, each divided by 8.
    pub fn count_continuity(&self) -> (r: (usize, usize))
        requires
            self.well_formed(),
        ensures
            r == continuity_spec(self.grid(), self.rows(), self.cols(), self.water_level),
            r.0 <= usize::MAX / 8,
            r.1 <= usize::MAX / 8,
    {
        let h = self.size.0;
        let w = self.size.1;
        let wl = self.water_level;
        let ghost g = self.grid();
        let red = Reducer::SameSide { water_level: wl };
        let sc = get_filter(&self.map, h, w, &red);
        let ghost scv = view_of(sc);
        let mut gt: usize = 0;
        let mut wt: usize = 0;
        for i in 0..h
            invariant
                self.well_formed(),
                h == self.size.0,
                w == self.size.1,
                wl == self.water_level,
                g == self.grid(),
                scv == view_of(sc),
                crate::conv::dims(sc, h, w),
                gt == grid_total_scores(g, scv, wl, i as int, w as int),
                wt == grid_total_scores_water(g, scv, wl, i as int, w as int),
        {
            let mut rgt: usize = 0;
            let mut rwt: usize = 0;
            for j in 0..w
                invariant
                    self.well_formed(),
                    h == self.size.0,
                    w == self.size.1,
                    wl == self.water_level,
                    g == self.grid(),
                    scv == view_of(sc),
                    crate::conv::dims(sc, h, w),
                    i < h,
                    rgt == row_total_scores(g, scv, wl, i as int, j as int),
                    rwt == row_total_scores_water(g, scv, wl, i as int, j as int),
            {
                proof {
                    assert(view_of(self.map)[i as int] == self.map@[i as int]@);
                    assert(view_of(sc)[i as int] == sc@[i as int]@);
                }
                if self.map[i][j] > wl {
                    rgt = rgt.wrapping_add(crate::arith::exec_usize_of_i32_or(sc[i][j], 0));
                } else {
                    rwt = rwt.wrapping_add(crate::arith::exec_usize_of_i32_or(sc[i][j], 0));
                }
            }
            gt = gt.wrapping_add(rgt);
            wt = wt.wrapping_add(rwt);
        }
        (gt / 8, wt / 8)
    }

    /// The linear-run score: the straight-line-pair probe summed over ground
    /// cells with the zero conversion fallback, divided by 8.
    pub fn linear_ground(&self) -> (r: usize)
        requires
            self.well_formed(),
        ensures
            r == linear_ground_spec(self.grid(), self.rows(), self.cols(), self.water_level),
            r <= usize::MAX / 8,
    {
        let h = self.size.0;
        let w = self.size.1;
        let wl = self.water_level;
        let ghost g = self.grid();
        let red = Reducer::LinearRun { water_level: wl };
        let sc = get_filter(&self.map, h, w, &red);
        let ghost scv = view_of(sc);
        let mut gt: usize = 0;
        for i in 0..h
            invariant
                self.well_formed(),
                h == self.size.0,
                w == self.size.1,
                wl == self.water_level,
                g == self.grid(),
                scv == view_of(sc),
                crate::conv::dims(sc, h, w),
                gt == grid_total_scores(g, scv, wl, i as int, w as int),
        {
            let mut rgt: usize = 0;
            for j in 0..w
                invariant
                    self.well_formed(),
                    h == self.size.0,
                    w == self.size.1,
                    wl == self.water_level,
                    g == self.grid(),
                    scv == view_of(sc),
                    crate::conv::dims(sc, h, w),
                    i < h,
                    rgt == row_total_scores(g, scv, wl, i as int, j as int),
            {
                proof {
                    assert(view_of(self.map)[i as int] == self.map@[i as int]@);
                    assert(view_of(sc)[i as int] == sc@[i as int]@);
                }
                if self.map[i][j] > wl {
                    rgt = rgt.wrapping_add(crate::arith::exec_usize_of_i32_or(sc[i][j], 0));
                }
            }
            gt = gt.wrapping_add(rgt);
        }
        gt / 8
    }

    /// The termination heuristic: any of the four signals asks for another
    /// evolution round.
    pub fn continuity_comparison(&self) -> (r: bool)
        requires
            self.well_formed(),
        ensures
            r == continuity_comparison_spec(
                self.grid(),
                self.rows(),
                self.cols(),
                self.water_level,
                self.max,
            ),
    {
        let c = self.count_continuity();
        let lg = self.linear_ground();
        let ag = self.average_ground();
        proof {
            assert(self.size.0 * self.size.1 <= 64 * 64) by (nonlinear_arith)
                requires
                    self.size.0 <= 64 && self.size.1 <= 64,
            ;
        }
        3 * c.0 > 5 * c.1 || c.1 > 2 * c.0 || 4 * lg < self.size.0 * self.size.1 || ag == 0
    }

    /// The first-occurring maximum height in row-major order, with its
    /// coordinates; the scan starts at the configured floor at `(0, 0)`.
    pub fn max_point(&self) -> (r: (i32, usize, usize))
        requires
            self.well_formed(),
        ensures
            r.0 == max_scan(self.grid(), self.rows(), self.cols(), (self.min, 0, 0)).0,
            r.1 as int == max_scan(self.grid(), self.rows(), self.cols(), (self.min, 0, 0)).1,
            r.2 as int == max_scan(self.grid(), self.rows(), self.cols(), (self.min, 0, 0)).2,
    {
        let h = self.size.0;
        let w = self.size.1;
        let ghost g = self.grid();
        let mut best: i32 = self.min;
        let mut bi: usize = 0;
        let mut bj: usize = 0;
        for i in 0..h
            invariant
                self.well_formed(),
                h == self.size.0,
                w == self.size.1,
                g == self.grid(),
                bi < 64 && bj < 64,
                best == max_scan(g, i as int, w as int, ((self.min), 0int, 0int)).0,
                bi as int == max_scan(g, i as int, w as int, ((self.min), 0int, 0int)).1,
                bj as int == max_scan(g, i as int, w as int, ((self.min), 0int, 0int)).2,
        {
            for j in 0..w
                invariant
                    self.well_formed(),
                    h == self.size.0,
                    w == self.size.1,
                    g == self.grid(),
                    i < h,
                    bi < 64 && bj < 64,
                    best == max_scan_row(
                        g[i as int],
                        i as int,
                        j as int,
                        max_scan(g, i as int, w as int, ((self.min), 0int, 0int)),
                    ).0,
                    bi as int == max_scan_row(
                        g[i as int],
                        i as int,
                        j as int,
                        max_scan(g, i as int, w as int, ((self.min), 0int, 0int)),
                    ).1,
                    bj as int == max_scan_row(
                        g[i as int],
                        i as int,
                        j as int,
                        max_scan(g, i as int, w as int, ((self.min), 0int, 0int)),
                    ).2,
            {
                proof {
                    assert(view_of(self.map)[i as int] == self.map@[i as int]@);
                }
                if best < self.map[i][j] {
                    best = self.map[i][j];
                    bi = i;
                    bj = j;
                }
            }
        }
        (best, bi, bj)
    }

    /// The first-occurring minimum height in row-major order, with its
    /// coordinates; the scan starts at the configured ceiling at `(0, 0)`.
    pub fn min_point(&self) -> (r: (i32, usize, usize))
        requires
            self.well_formed(),
        ensures
            r.0 == min_scan(self.grid(), self.rows(), self.cols(), (self.max, 0, 0)).0,
            r.1 as int == min_scan(self.grid(), self.rows(), self.cols(), (self.max, 0, 0)).1,
            r.2 as int == min_scan(self.grid(), self.rows(), self.cols(), (self.max, 0, 0)).2,
    {
        let h = self.size.0;
        let w = self.size.1;
        let ghost g = self.grid();
        let mut best: i32 = self.max;
        let mut bi: usize = 0;
        let mut bj: usize = 0;
        for i in 0..h
            invariant
                self.well_formed(),
                h == self.size.0,
                w == self.size.1,
                g == self.grid(),
                bi < 64 && bj < 64,
                best == min_scan(g, i as int, w as int, ((self.max), 0int, 0int)).0,
                bi as int == min_scan(g, i as int, w as int, ((self.max), 0int, 0int)).1,
                bj as int == min_scan(g, i as int, w as int, ((self.max), 0int, 0int)).2,
        {
            for j in 0..w
                invariant
                    self.well_formed(),
                    h == self.size.0,
                    w == self.size.1,
                    g == self.grid(),
                    i < h,
                    bi < 64 && bj < 64,
                    best == min_scan_row(
                        g[i as int],
                        i as int,
                        j as int,
                        min_scan(g, i as int, w as int, ((self.max), 0int, 0int)),
                    ).0,
                    bi as int == min_scan_row(
                        g[i as int],
                        i as int,
                        j as int,
                        min_scan(g, i as int, w as int, ((self.max), 0int, 0int)),
                    ).1,
                    bj as int == min_scan_row(
                        g[i as int],
                        i as int,
                        j as int,
                        min_scan(g, i as int, w as int, ((self.max), 0int, 0int)),
                    ).2,
            {
                proof {
                    assert(view_of(self.map)[i as int] == self.map@[i as int]@);
                }
                if best > self.map[i][j] {
                    best = self.map[i][j];
                    bi = i;
                    bj = j;
                }
            }
        }
        (best, bi, bj)
    }
}

/// The full termination heuristic of the evolution loop: a logical OR of the
/// four independent signals.
pub open spec fn continuity_comparison_spec(
    g: Seq<Seq<i32>>,
    h: int,
    w: int,
    wl: i32,
    max: i32,
) -> bool {
    let c = continuity_spec(g, h, w, wl);
    ||| 3 * c.0 > 5 * c.1
    ||| c.1 > 2 * c.0
    ||| 4 * linear_ground_spec(g, h, w, wl) < h * w
    ||| average_ground_spec(g, wl, max) == 0
}

} // verus!
