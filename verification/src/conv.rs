//! The generic 8-neighbor convolution framework.
//!
//! For every cell strictly inside the border ring, the eight immediate
//! neighbors are gathered in a fixed order — up-left, left, down-left, up,
//! down, up-right, right, down-right — and a reducer is invoked once per
//! neighbor; the eight contributions are summed (wrapping) into a scalar
//! filter value per cell. Probe mode returns those per-cell values with a
//! zero border ring; transform mode replaces each interior cell by a combiner
//! of its old value and its filter value, and never writes the border ring.
use vstd::prelude::*;

use crate::arith::div32;
use crate::arith::exec_div32;
use crate::arith::exec_i32_of_usize_or;
use crate::arith::exec_usize_of_i32_or;
use crate::arith::i32_of_usize_or;
use crate::arith::usize_of_i32_or;
use crate::arith::wadd;
use crate::arith::wmul;
use crate::arith::wsub;
use crate::heightmap::HeightMap;
use crate::heightmap::view_of;
use crate::prime::lp_val;

verus! {

/// The per-neighbor contribution rules used by the passes and metrics.
pub enum Reducer {
    /// The neighbor's value itself.
    NeighborValue,
    /// Neighbor minus center (smoothing).
    DiffFromCenter,
    /// The absolute difference between neighbor and center (saturation).
    AbsDiff,
    /// The neighbor where it is at least the center, else its negation
    /// (sliding).
    SlideSign,
    /// 1 where neighbor and center lie on the same side of the water level,
    /// else 0 (continuity).
    SameSide { water_level: i32 },
    /// 1 where the neighbor is above the water level, else -1 (migration).
    AboveWater { water_level: i32 },
    /// The water population where the neighbor is above the water level, else
    /// the negated ground population (clumping).
    ClassPopulation { water_level: i32, water: i32, ground: i32 },
    /// 1 for a ground center with a straight-line pair of ground neighbors
    /// through it along one of the four axes, else -1; reads the fixed
    /// neighbor positions, not the visited neighbor (linear runs).
    LinearRun { water_level: i32 },
}

/// The interior-cell replacement rules used by the transform passes.
pub enum Combiner {
    /// Adds a sixteenth of the filter value (sliding).
    SlideAdd,
    /// Averages the cell, an eighth of the filter value and the water level
    /// (noise reduction).
    Smooth { water_level: i32 },
    /// Pushes the cell halfway toward the nearer bound where the mean
    /// absolute neighbor difference exceeds half the total range (saturation).
    Saturate { max: i32, min: i32, water_level: i32 },
    /// Nudges the cell toward its class's extreme proportionally to the
    /// opposite class's population (clumping).
    Clump { max: i32, min: i32, water_level: i32, water: i32, ground: i32 },
    /// Nudges the cell by the sign balance of its neighbors; the water-side
    /// weight is identically zero, so a non-positive balance halves the cell
    /// (migration).
    Migrate { max: i32, water_level: i32 },
    /// Replaces the cell by the descending prime search of the filter value
    /// reduced by the diffusion modulus; a negative filter value falls back
    /// to the seed (noise grid).
    NoiseCell { seed: usize, eff: usize },
}

impl Combiner {
    /// The noise combiner needs a nonzero diffusion modulus.
    pub open spec fn wf(self) -> bool {
        match self {
            Combiner::NoiseCell { seed, eff } => eff >= 1,
            _ => true,
        }
    }
}

/// One reducer invocation: the contribution of `item` to the cell holding
/// `center`, with the eight gathered neighbors in `dirs`.
pub open spec fn reduce_one(r: Reducer, center: i32, dirs: Seq<i32>, item: i32) -> i32 {
    match r {
        Reducer::NeighborValue => item,
        Reducer::DiffFromCenter => wsub(item, center),
        Reducer::AbsDiff => if wsub(item, center) > 0 {
            wsub(item, center)
        } else {
            wsub(center, item)
        },
        Reducer::SlideSign => if item >= center {
            item
        } else {
            wsub(0, item)
        },
        Reducer::SameSide { water_level } => if (center > water_level) == (item > water_level) {
            1
        } else {
            0
        },
        Reducer::AboveWater { water_level } => if item > water_level {
            1
        } else {
            -1i32
        },
        Reducer::ClassPopulation { water_level, water, ground } => if item > water_level {
            water
        } else {
            wsub(0, ground)
        },
        Reducer::LinearRun { water_level } => if center > water_level && ((dirs[0] > water_level
            && dirs[7] > water_level) || (dirs[1] > water_level && dirs[6] > water_level) || (
        dirs[2] > water_level && dirs[5] > water_level) || (dirs[3] > water_level && dirs[4]
            > water_level)) {
            1
        } else {
            -1i32
        },
    }
}

/// The eight neighbors of `(i, j)` in the fixed gathering order.
pub open spec fn dirs_at(g: Seq<Seq<i32>>, i: int, j: int) -> Seq<i32> {
    seq![
        g[i - 1][j - 1],
        g[i][j - 1],
        g[i + 1][j - 1],
        g[i - 1][j],
        g[i + 1][j],
        g[i - 1][j + 1],
        g[i][j + 1],
        g[i + 1][j + 1],
    ]
}

/// The wrapping sum of the first `k` contributions.
pub open spec fn fsum(r: Reducer, center: i32, dirs: Seq<i32>, k: int) -> i32
    decreases k,
{
    if k <= 0 {
        0
    } else {
        wadd(fsum(r, center, dirs, k - 1), reduce_one(r, center, dirs, dirs[k - 1]))
    }
}

/// The filter value of interior cell `(i, j)`.
pub open spec fn fval(r: Reducer, g: Seq<Seq<i32>>, i: int, j: int) -> i32 {
    fsum(r, g[i][j], dirs_at(g, i, j), 8)
}

/// Whether `(i, j)` lies strictly inside the border ring.
pub open spec fn interior(h: int, w: int, i: int, j: int) -> bool {
    1 <= i < h - 1 && 1 <= j < w - 1
}

/// Probe mode: the per-cell filter values, zero on the border ring.
pub open spec fn probe(r: Reducer, g: Seq<Seq<i32>>, h: int, w: int) -> Seq<Seq<i32>> {
    Seq::new(
        h as nat,
        |i: int|
            Seq::new(
                w as nat,
                |j: int|
                    if interior(h, w, i, j) {
                        fval(r, g, i, j)
                    } else {
                        0i32
                    },
            ),
    )
}

/// One combiner invocation: the replacement for an interior cell holding
/// `center` with filter value `fv`.
pub open spec fn combine(c: Combiner, center: i32, fv: i32) -> i32 {
    match c {
        Combiner::SlideAdd => wadd(center, div32(fv, 16)),
        Combiner::Smooth { water_level } => div32(wadd(wadd(center, div32(fv, 8)), water_level), 3),
        Combiner::Saturate { max, min, water_level } => if div32(fv, 8) > div32(
            wsub(max, min),
            2,
        ) {
            if center > water_level {
                div32(wadd(center, max), 2)
            } else {
                div32(wadd(center, min), 2)
            }
        } else {
            center
        },
        Combiner::Clump { max, min, water_level, water, ground } => {
            let den = wmul(8, wadd(water, ground));
            let nzden = if den == 0 {
                1i32
            } else {
                den
            };
            if center > water_level {
                div32(wadd(center, div32(wmul(fv, wsub(max, water_level)), nzden)), 2)
            } else {
                div32(wadd(center, div32(wmul(fv, wsub(water_level, min)), nzden)), 2)
            }
        },
        Combiner::Migrate { max, water_level } => if fv > 0 {
            div32(wadd(div32(wmul(fv, wsub(max, water_level)), 8), center), 2)
        } else {
            div32(center, 2)
        },
        Combiner::NoiseCell { seed, eff } => {
            let x = usize_of_i32_or(fv, seed) as int % eff as int;
            i32_of_usize_or(lp_val(x) as usize, 1)
        },
    }
}

/// Transform mode: every interior cell replaced by the combiner of its old
/// value and its filter value; the border ring untouched.
pub open spec fn transform(c: Combiner, r: Reducer, g: Seq<Seq<i32>>, h: int, w: int) -> Seq<
    Seq<i32>,
> {
    Seq::new(
        h as nat,
        |i: int|
            Seq::new(
                w as nat,
                |j: int|
                    if interior(h, w, i, j) {
                        combine(c, g[i][j], fval(r, g, i, j))
                    } else {
                        g[i][j]
                    },
            ),
    )
}

/// The matrix has `height` rows of `width` cells.
pub open spec fn dims(m: Vec<Vec<i32>>, height: usize, width: usize) -> bool {
    &&& m.len() == height
    &&& forall|i: int| 0 <= i < height ==> #[trigger] m@[i]@.len() == width
}

/// Executable form of [`reduce_one`].
pub fn exec_reduce_one(r: &Reducer, center: i32, dirs: &[i32; 8], item: i32) -> (c: i32)
    ensures
        c == reduce_one(*r, center, dirs@, item),
{
    match r {
        Reducer::NeighborValue => item,
        Reducer::DiffFromCenter => item.wrapping_sub(center),
        Reducer::AbsDiff => {
            let d = item.wrapping_sub(center);
            if d > 0 {
                d
            } else {
                center.wrapping_sub(item)
            }
        },
        Reducer::SlideSign => if item >= center {
            item
        } else {
            0i32.wrapping_sub(item)
        },
        Reducer::SameSide { water_level } => if (center > *water_level) == (item > *water_level) {
            1
        } else {
            0
        },
        Reducer::AboveWater { water_level } => if item > *water_level {
            1
        } else {
            -1
        },
        Reducer::ClassPopulation { water_level, water, ground } => if item > *water_level {
            *water
        } else {
            0i32.wrapping_sub(*ground)
        },
        Reducer::LinearRun { water_level } => {
            let wl = *water_level;
            if center > wl && ((dirs[0] > wl && dirs[7] > wl) || (dirs[1] > wl && dirs[6] > wl) || (
            dirs[2] > wl && dirs[5] > wl) || (dirs[3] > wl && dirs[4] > wl)) {
                1
            } else {
                -1
            }
        },
    }
}

/// Executable form of [`combine`].
pub fn exec_combine(c: &Combiner, center: i32, fv: i32) -> (v: i32)
    requires
        c.wf(),
    ensures
        v == combine(*c, center, fv),
{
    match c {
        Combiner::SlideAdd => center.wrapping_add(exec_div32(fv, 16)),
        Combiner::Smooth { water_level } => exec_div32(
            center.wrapping_add(exec_div32(fv, 8)).wrapping_add(*water_level),
            3,
        ),
        Combiner::Saturate { max, min, water_level } => {
            if exec_div32(fv, 8) > exec_div32(max.wrapping_sub(*min), 2) {
                if center > *water_level {
                    exec_div32(center.wrapping_add(*max), 2)
                } else {
                    exec_div32(center.wrapping_add(*min), 2)
                }
            } else {
                center
            }
        },
        Combiner::Clump { max, min, water_level, water, ground } => {
            let den = 8i32.wrapping_mul(water.wrapping_add(*ground));
            let nzden = if den == 0 {
                1i32
            } else {
                den
            };
            if center > *water_level {
                exec_div32(
                    center.wrapping_add(
                        exec_div32(fv.wrapping_mul(max.wrapping_sub(*water_level)), nzden),
                    ),
                    2,
                )
            } else {
                exec_div32(
                    center.wrapping_add(
                        exec_div32(fv.wrapping_mul(water_level.wrapping_sub(*min)), nzden),
                    ),
                    2,
                )
            }
        },
        Combiner::Migrate { max, water_level } => if fv > 0 {
            exec_div32(
                exec_div32(fv.wrapping_mul(max.wrapping_sub(*water_level)), 8).wrapping_add(center),
                2,
            )
        } else {
            exec_div32(center, 2)
        },
        Combiner::NoiseCell { seed, eff } => {
            let x = exec_usize_of_i32_or(fv, *seed) % *eff;
            let lp = HeightMap::last_prime(x);
            exec_i32_of_usize_or(lp, 1)
        },
    }
}

/// Probe mode: the per-cell filter values of the interior, zero on the
/// border ring; the input matrix is left untouched.
pub fn get_filter(matrix: &Vec<Vec<i32>>, height: usize, width: usize, reducer: &Reducer) -> (out:
    Vec<Vec<i32>>)
    requires
        dims(*matrix, height, width),
        2 <= height,
        2 <= width,
    ensures
        dims(out, height, width),
        view_of(out) == probe(*reducer, view_of(*matrix), height as int, width as int),
{
    let ghost g = view_of(*matrix);
    let mut out: Vec<Vec<i32>> = Vec::new();
    for i in 0..height
        invariant
            dims(*matrix, height, width),
            2 <= height,
            2 <= width,
            g == view_of(*matrix),
            out.len() == i,
            forall|k: int| 0 <= k < i ==> #[trigger] out@[k]@.len() == width,
            forall|k: int, l: int|
                0 <= k < i && 0 <= l < width ==> #[trigger] out@[k]@[l] == (if interior(
                    height as int,
                    width as int,
                    k,
                    l,
                ) {
                    fval(*reducer, g, k, l)
                } else {
                    0i32
                }),
    {
        let mut row: Vec<i32> = Vec::new();
        for j in 0..width
            invariant
                dims(*matrix, height, width),
                2 <= height,
                2 <= width,
                g == view_of(*matrix),
                i < height,
                row.len() == j,
                forall|l: int|
                    0 <= l < j ==> #[trigger] row@[l] == (if interior(
                        height as int,
                        width as int,
                        i as int,
                        l,
                    ) {
                        fval(*reducer, g, i as int, l)
                    } else {
                        0i32
                    }),
        {
            if 1 <= i && i < height - 1 && 1 <= j && j < width - 1 {
                let dirs: [i32; 8] = [
                    matrix[i - 1][j - 1],
                    matrix[i][j - 1],
                    matrix[i + 1][j - 1],
                    matrix[i - 1][j],
                    matrix[i + 1][j],
                    matrix[i - 1][j + 1],
                    matrix[i][j + 1],
                    matrix[i + 1][j + 1],
                ];
                proof {
                    assert(dirs@ =~= dirs_at(g, i as int, j as int));
                }
                let center = matrix[i][j];
                let mut acc: i32 = 0;
                for k in 0..8usize
                    invariant
                        acc == fsum(*reducer, center, dirs@, k as int),
                        center == g[i as int][j as int],
                        dirs@ == dirs_at(g, i as int, j as int),
                {
                    acc = acc.wrapping_add(exec_reduce_one(reducer, center, &dirs, dirs[k]));
                }
                row.push(acc);
            } else {
                row.push(0);
            }
        }
        out.push(row);
    }
    proof {
        assert(view_of(out) =~~= probe(*reducer, g, height as int, width as int));
    }
    out
}

/// Transform mode: replaces every interior cell by the combiner of its old
/// value and its filter value. The border ring is never written by this
/// mechanism; any border handling is a separate explicit step.
pub fn filter(
    matrix: &mut Vec<Vec<i32>>,
    height: usize,
    width: usize,
    reducer: &Reducer,
    combiner: &Combiner,
)
    requires
        dims(*old(matrix), height, width),
        2 <= height,
        2 <= width,
        combiner.wf(),
    ensures
        dims(*final(matrix), height, width),
        view_of(*final(matrix)) == transform(
            *combiner,
            *reducer,
            view_of(*old(matrix)),
            height as int,
            width as int,
        ),
{
    let ghost g = view_of(*old(matrix));
    let probe_m = get_filter(matrix, height, width, reducer);
    let mut out: Vec<Vec<i32>> = Vec::new();
    for i in 0..height
        invariant
            dims(*matrix, height, width),
            dims(probe_m, height, width),
            2 <= height,
            2 <= width,
            combiner.wf(),
            g == view_of(*matrix),
            view_of(probe_m) == probe(*reducer, g, height as int, width as int),
            out.len() == i,
            forall|k: int| 0 <= k < i ==> #[trigger] out@[k]@.len() == width,
            forall|k: int, l: int|
                0 <= k < i && 0 <= l < width ==> #[trigger] out@[k]@[l] == (if interior(
                    height as int,
                    width as int,
                    k,
                    l,
                ) {
                    combine(*combiner, g[k][l], fval(*reducer, g, k, l))
                } else {
                    g[k][l]
                }),
    {
        let mut row: Vec<i32> = Vec::new();
        for j in 0..width
            invariant
                dims(*matrix, height, width),
                dims(probe_m, height, width),
                2 <= height,
                2 <= width,
                combiner.wf(),
                g == view_of(*matrix),
                view_of(probe_m) == probe(*reducer, g, height as int, width as int),
                i < height,
                row.len() == j,
                forall|l: int|
                    0 <= l < j ==> #[trigger] row@[l] == (if interior(
                        height as int,
                        width as int,
                        i as int,
                        l,
                    ) {
                        combine(*combiner, g[i as int][l], fval(*reducer, g, i as int, l))
                    } else {
                        g[i as int][l]
                    }),
        {
            proof {
                assert(g[i as int][j as int] == matrix@[i as int]@[j as int]) by {
                    assert(view_of(*matrix)[i as int] == matrix@[i as int]@);
                }
                assert(view_of(probe_m)[i as int] == probe_m@[i as int]@);
                assert(probe(*reducer, g, height as int, width as int)[i as int][j as int]
                    == probe_m@[i as int]@[j as int]);
            }
            if 1 <= i && i < height - 1 && 1 <= j && j < width - 1 {
                row.push(exec_combine(combiner, matrix[i][j], probe_m[i][j]));
            } else {
                row.push(matrix[i][j]);
            }
        }
        out.push(row);
    }
    *matrix = out;
    proof {
        assert(view_of(*matrix) =~~= transform(
            *combiner,
            *reducer,
            g,
            height as int,
            width as int,
        ));
    }
}

} // verus!
