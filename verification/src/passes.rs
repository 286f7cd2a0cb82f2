//! The per-pass numeric operators: whole-grid cell maps and convolution
//! passes over the terrain, each stated exactly over the wrapped arithmetic
//! model.
use vstd::prelude::*;

use crate::arith::div32;
use crate::arith::exec_div32;
use crate::arith::exec_rem32;
use crate::arith::i32_of_usize_or;
use crate::arith::rem32;
use crate::arith::wadd;
use crate::arith::wmul;
use crate::arith::wsub;
use crate::conv::Combiner;
use crate::conv::Reducer;
use crate::conv::dims;
use crate::conv::get_filter;
use crate::conv::probe;
use crate::conv::transform;
use crate::heightmap::HeightMap;
use crate::heightmap::view_of;
use crate::metrics::grid_count_above;
use crate::metrics::lemma_grid_partition;
use crate::prime::np_val;

verus! {

/// A zero divisor falls back to 1, as the range scaling requires.
pub open spec fn nz32(d: i32) -> i32 {
    if d == 0 {
        1i32
    } else {
        d
    }
}

/// The configuration of `a` carried unchanged into `b`.
pub open spec fn keeps(a: HeightMap, b: HeightMap) -> bool {
    &&& b.size == a.size
    &&& b.max == a.max
    &&& b.min == a.min
    &&& b.water_level == a.water_level
    &&& b.seed == a.seed
}

/// The pointwise cell maps.
pub enum CellOp {
    /// Negates the height.
    Invert,
    /// Folds the lower half of each band back across the water level.
    Fractal { max: i32, min: i32, water_level: i32 },
    /// Pulls the height halfway toward one of four band midpoints.
    Brighten { max: i32, min: i32, water_level: i32 },
    /// Folds the height into the configured range by remainder and offset.
    HardRange { max: i32, min: i32 },
    /// Rescales the ground and water sub-ranges against the scanned extrema.
    Rescale { max: i32, min: i32, water_level: i32, mx: i32, mn: i32 },
}

impl CellOp {
    /// The range fold needs a nonzero range.
    pub open spec fn wf(self) -> bool {
        match self {
            CellOp::HardRange { max, min } => wsub(max, min) != 0,
            _ => true,
        }
    }
}

/// One pointwise cell map applied to a single height.
pub open spec fn cell_op(op: CellOp, v: i32) -> i32 {
    match op {
        CellOp::Invert => wmul(v, -1i32),
        CellOp::Fractal { max, min, water_level } => if v > water_level && v < div32(
            wsub(max, water_level),
            2,
        ) {
            wsub(0, wsub(v, water_level))
        } else if v < water_level && v > div32(wsub(water_level, min), 2) {
            wsub(0, wsub(water_level, v))
        } else {
            v
        },
        CellOp::Brighten { max, min, water_level } => if v > water_level {
            if v > div32(wsub(max, water_level), 2) {
                div32(wadd(v, max), 2)
            } else {
                div32(wadd(v, water_level), 2)
            }
        } else if v > div32(wsub(water_level, min), 2) {
            div32(wadd(v, water_level), 2)
        } else {
            div32(wadd(v, min), 2)
        },
        CellOp::HardRange { max, min } => wadd(rem32(v, wsub(max, min)), min),
        CellOp::Rescale { max, min, water_level, mx, mn } => if v > water_level {
            div32(wmul(v, wsub(max, water_level)), nz32(wsub(mx, water_level)))
        } else {
            div32(wmul(v, wsub(water_level, min)), nz32(wsub(water_level, mn)))
        },
    }
}

/// A pointwise cell map applied to a whole grid.
pub open spec fn map_op(op: CellOp, g: Seq<Seq<i32>>, h: int, w: int) -> Seq<Seq<i32>> {
    Seq::new(h as nat, |i: int| Seq::new(w as nat, |j: int| cell_op(op, g[i][j])))
}

/// Executable form of [`cell_op`].
pub fn exec_cell_op(op: &CellOp, v: i32) -> (r: i32)
    requires
        op.wf(),
    ensures
        r == cell_op(*op, v),
{
    match op {
        CellOp::Invert => v.wrapping_mul(-1),
        CellOp::Fractal { max, min, water_level } => {
            if v > *water_level && v < exec_div32(max.wrapping_sub(*water_level), 2) {
                0i32.wrapping_sub(v.wrapping_sub(*water_level))
            } else if v < *water_level && v > exec_div32(water_level.wrapping_sub(*min), 2) {
                0i32.wrapping_sub(water_level.wrapping_sub(v))
            } else {
                v
            }
        },
        CellOp::Brighten { max, min, water_level } => {
            if v > *water_level {
                if v > exec_div32(max.wrapping_sub(*water_level), 2) {
                    exec_div32(v.wrapping_add(*max), 2)
                } else {
                    exec_div32(v.wrapping_add(*water_level), 2)
                }
            } else if v > exec_div32(water_level.wrapping_sub(*min), 2) {
                exec_div32(v.wrapping_add(*water_level), 2)
            } else {
                exec_div32(v.wrapping_add(*min), 2)
            }
        },
        CellOp::HardRange { max, min } => {
            exec_rem32(v, max.wrapping_sub(*min)).wrapping_add(*min)
        },
        CellOp::Rescale { max, min, water_level, mx, mn } => {
            if v > *water_level {
                let den = mx.wrapping_sub(*water_level);
                exec_div32(
                    v.wrapping_mul(max.wrapping_sub(*water_level)),
                    if den != 0 {
                        den
                    } else {
                        1
                    },
                )
            } else {
                let den = water_level.wrapping_sub(*mn);
                exec_div32(
                    v.wrapping_mul(water_level.wrapping_sub(*min)),
                    if den != 0 {
                        den
                    } else {
                        1
                    },
                )
            }
        },
    }
}

/// Applies a pointwise cell map to every cell of a matrix.
pub fn apply_cell_op(matrix: &mut Vec<Vec<i32>>, height: usize, width: usize, op: &CellOp)
    requires
        dims(*old(matrix), height, width),
        op.wf(),
    ensures
        dims(*final(matrix), height, width),
        view_of(*final(matrix)) == map_op(*op, view_of(*old(matrix)), height as int, width as int),
{
    let ghost g = view_of(*old(matrix));
    let mut out: Vec<Vec<i32>> = Vec::new();
    for i in 0..height
        invariant
            dims(*matrix, height, width),
            op.wf(),
            g == view_of(*matrix),
            out.len() == i,
            forall|k: int| 0 <= k < i ==> #[trigger] out@[k]@.len() == width,
            forall|k: int, l: int|
                0 <= k < i && 0 <= l < width ==> #[trigger] out@[k]@[l] == cell_op(*op, g[k][l]),
    {
        let mut row: Vec<i32> = Vec::new();
        for j in 0..width
            invariant
                dims(*matrix, height, width),
                op.wf(),
                g == view_of(*matrix),
                i < height,
                row.len() == j,
                forall|l: int| 0 <= l < j ==> #[trigger] row@[l] == cell_op(*op, g[i as int][l]),
        {
            proof {
                assert(view_of(*matrix)[i as int] == matrix@[i as int]@);
            }
            row.push(exec_cell_op(op, matrix[i][j]));
        }
        out.push(row);
    }
    *matrix = out;
    proof {
        assert(view_of(*matrix) =~~= map_op(*op, g, height as int, width as int));
    }
}

/// Copies a height matrix.
pub fn copy_matrix(matrix: &Vec<Vec<i32>>, height: usize, width: usize) -> (out: Vec<Vec<i32>>)
    requires
        dims(*matrix, height, width),
    ensures
        dims(out, height, width),
        view_of(out) == view_of(*matrix),
{
    let mut out: Vec<Vec<i32>> = Vec::new();
    for i in 0..height
        invariant
            dims(*matrix, height, width),
            out.len() == i,
            forall|k: int| 0 <= k < i ==> #[trigger] out@[k]@.len() == width,
            forall|k: int, l: int|
                0 <= k < i && 0 <= l < width ==> #[trigger] out@[k]@[l] == matrix@[k]@[l],
    {
        let mut row: Vec<i32> = Vec::new();
        for j in 0..width
            invariant
                dims(*matrix, height, width),
                i < height,
                row.len() == j,
                forall|l: int| 0 <= l < j ==> #[trigger] row@[l] == matrix@[i as int]@[l],
        {
            row.push(matrix[i][j]);
        }
        out.push(row);
    }
    proof {
        assert(view_of(out) =~~= view_of(*matrix));
    }
    out
}

/// The scan of both extrema used by the rescaling pass, over one row: a new
/// maximum is taken first, a new minimum only otherwise.
pub open spec fn mm_scan_row(row: Seq<i32>, j: int, cur: (i32, i32)) -> (i32, i32)
    decreases j,
{
    if j <= 0 {
        cur
    } else {
        let p = mm_scan_row(row, j - 1, cur);
        if row[j - 1] > p.0 {
            (row[j - 1], p.1)
        } else if row[j - 1] < p.1 {
            (p.0, row[j - 1])
        } else {
            p
        }
    }
}

/// The extrema scan over the first `i` rows.
pub open spec fn mm_scan(g: Seq<Seq<i32>>, i: int, w: int, cur: (i32, i32)) -> (i32, i32)
    decreases i,
{
    if i <= 0 {
        cur
    } else {
        mm_scan_row(g[i - 1], w, mm_scan(g, i - 1, w, cur))
    }
}

/// The rescaling pass: the whole-grid cell map against the scanned extrema,
/// with the scan started at the configured floor and ceiling.
pub open spec fn scale_spec(g: Seq<Seq<i32>>, h: int, w: int, max: i32, min: i32, wl: i32) -> Seq<
    Seq<i32>,
> {
    let s = mm_scan(g, h, w, (min, max));
    map_op((CellOp::Rescale { max, min, water_level: wl, mx: s.0, mn: s.1 }), g, h, w)
}

/// The clumping pass: the populations of the sign probe feed the clump
/// convolution.
pub open spec fn clump_spec(g: Seq<Seq<i32>>, h: int, w: int, max: i32, min: i32, wl: i32) -> Seq<
    Seq<i32>,
> {
    let sc = probe((Reducer::AboveWater { water_level: wl }), g, h, w);
    let gc = grid_count_above(sc, wl);
    let wc = h * w - gc;
    transform(
        (Combiner::Clump {
            max,
            min,
            water_level: wl,
            water: wc as i32,
            ground: gc as i32,
        }),
        (Reducer::ClassPopulation { water_level: wl, water: wc as i32, ground: gc as i32 }),
        g,
        h,
        w,
    )
}

/// One noise recombination: the noise value `nv` rehashes the height `mv`.
/// A zero noise value leaves a zero remainder in the divisor, which the
/// uniform fallback then raises to 1.
pub open spec fn noise_cell(nv: i32, mv: i32, s32: i32, max: i32, min: i32, wl: i32) -> i32 {
    let num = wsub(wsub(wmul(nv, mv), rem32(nv, wsub(max, min))), wmul(div32(nv, 2), wl));
    let dv = wadd(
        if nv != 0 {
            rem32(s32, nv)
        } else {
            0i32
        },
        1,
    );
    div32(num, nz32(dv))
}

/// The noise pass: the noise grid is the prime-search convolution of the
/// heights, and every cell outside row 0 and column 0 is recombined with its
/// noise value.
pub open spec fn add_noise_spec(
    g: Seq<Seq<i32>>,
    h: int,
    w: int,
    max: i32,
    min: i32,
    wl: i32,
    seed: usize,
) -> Seq<Seq<i32>> {
    let eff = np_val(if h > w {
        h
    } else {
        w
    }) as usize;
    let ng = transform((Combiner::NoiseCell { seed, eff }), (Reducer::NeighborValue), g, h, w);
    Seq::new(
        h as nat,
        |i: int|
            Seq::new(
                w as nat,
                |j: int|
                    if 1 <= i && 1 <= j {
                        noise_cell(ng[i][j], g[i][j], i32_of_usize_or(seed, 1), max, min, wl)
                    } else {
                        g[i][j]
                    },
            ),
    )
}

/// The border pass: every border-ring cell forced to the floor.
pub open spec fn remove_edges_spec(g: Seq<Seq<i32>>, h: int, w: int, min: i32) -> Seq<Seq<i32>> {
    Seq::new(
        h as nat,
        |i: int|
            Seq::new(
                w as nat,
                |j: int|
                    if i == 0 || i == h - 1 || j == 0 || j == w - 1 {
                        min
                    } else {
                        g[i][j]
                    },
            ),
    )
}

impl HeightMap {
    /// Negates every height, flipping the ground/water classification.
    pub fn invert(&mut self)
        requires
            old(self).well_formed(),
        ensures
            final(self).well_formed(),
            keeps(*old(self), *final(self)),
            final(self).grid() == map_op(
                (CellOp::Invert),
                old(self).grid(),
                old(self).rows(),
                old(self).cols(),
            ),
    {
        let h = self.size.0;
        let w = self.size.1;
        apply_cell_op(&mut self.map, h, w, &CellOp::Invert);
    }

    /// Folds mid-range ground and water heights back across the water level.
    pub fn fractal(&mut self)
        requires
            old(self).well_formed(),
        ensures
            final(self).well_formed(),
            keeps(*old(self), *final(self)),
            final(self).grid() == map_op(
                (CellOp::Fractal {
                    max: old(self).max,
                    min: old(self).min,
                    water_level: old(self).water_level,
                }),
                old(self).grid(),
                old(self).rows(),
                old(self).cols(),
            ),
    {
        let h = self.size.0;
        let w = self.size.1;
        let op = CellOp::Fractal { max: self.max, min: self.min, water_level: self.water_level };
        apply_cell_op(&mut self.map, h, w, &op);
    }

    /// Pulls every height halfway toward one of four band midpoints.
    pub fn brighten(&mut self)
        requires
            old(self).well_formed(),
        ensures
            final(self).well_formed(),
            keeps(*old(self), *final(self)),
            final(self).grid() == map_op(
                (CellOp::Brighten {
                    max: old(self).max,
                    min: old(self).min,
                    water_level: old(self).water_level,
                }),
                old(self).grid(),
                old(self).rows(),
                old(self).cols(),
            ),
    {
        let h = self.size.0;
        let w = self.size.1;
        let op = CellOp::Brighten { max: self.max, min: self.min, water_level: self.water_level };
        apply_cell_op(&mut self.map, h, w, &op);
    }

    /// Folds every height into the configured range by the truncating
    /// remainder against the total range, offset by the floor.
    pub fn hard_range(&mut self)
        requires
            old(self).well_formed(),
        ensures
            final(self).well_formed(),
            keeps(*old(self), *final(self)),
            final(self).grid() == map_op(
                (CellOp::HardRange { max: old(self).max, min: old(self).min }),
                old(self).grid(),
                old(self).rows(),
                old(self).cols(),
            ),
    {
        let h = self.size.0;
        let w = self.size.1;
        let op = CellOp::HardRange { max: self.max, min: self.min };
        proof {
            assert(op.wf());
        }
        apply_cell_op(&mut self.map, h, w, &op);
    }

    /// Renormalizes the ground and water sub-ranges independently against the
    /// scanned extrema, falling back to the divisor 1 on a zero sub-range.
    pub fn scale(&mut self)
        requires
            old(self).well_formed(),
        ensures
            final(self).well_formed(),
            keeps(*old(self), *final(self)),
            final(self).grid() == scale_spec(
                old(self).grid(),
                old(self).rows(),
                old(self).cols(),
                old(self).max,
                old(self).min,
                old(self).water_level,
            ),
    {
        let h = self.size.0;
        let w = self.size.1;
        let ghost g = self.grid();
        let mut mx: i32 = self.min;
        let mut mn: i32 = self.max;
        for i in 0..h
            invariant
                self.well_formed(),
                h == self.size.0,
                w == self.size.1,
                g == self.grid(),
                (mx, mn) == mm_scan(g, i as int, w as int, (self.min, self.max)),
        {
            for j in 0..w
                invariant
                    self.well_formed(),
                    h == self.size.0,
                    w == self.size.1,
                    g == self.grid(),
                    i < h,
                    (mx, mn) == mm_scan_row(
                        g[i as int],
                        j as int,
                        mm_scan(g, i as int, w as int, (self.min, self.max)),
                    ),
            {
                proof {
                    assert(view_of(self.map)[i as int] == self.map@[i as int]@);
                }
                let item = self.map[i][j];
                if item > mx {
                    mx = item;
                } else if item < mn {
                    mn = item;
                }
            }
        }
        let op = CellOp::Rescale { max: self.max, min: self.min, water_level: self.water_level, mx, mn };
        apply_cell_op(&mut self.map, h, w, &op);
    }

    /// Adds a sixteenth of the signed neighbor-difference convolution to each
    /// interior cell.
    pub fn slide(&mut self)
        requires
            old(self).well_formed(),
        ensures
            final(self).well_formed(),
            keeps(*old(self), *final(self)),
            final(self).grid() == transform(
                (Combiner::SlideAdd),
                (Reducer::SlideSign),
                old(self).grid(),
                old(self).rows(),
                old(self).cols(),
            ),
    {
        let h = self.size.0;
        let w = self.size.1;
        crate::conv::filter(&mut self.map, h, w, &Reducer::SlideSign, &Combiner::SlideAdd);
    }

    /// The smoothing pass: averages each interior cell with an eighth of its
    /// neighbor-difference convolution and the water level.
    pub fn reduce_noise(&mut self)
        requires
            old(self).well_formed(),
        ensures
            final(self).well_formed(),
            keeps(*old(self), *final(self)),
            final(self).grid() == transform(
                (Combiner::Smooth { water_level: old(self).water_level }),
                (Reducer::DiffFromCenter),
                old(self).grid(),
                old(self).rows(),
                old(self).cols(),
            ),
    {
        let h = self.size.0;
        let w = self.size.1;
        let c = Combiner::Smooth { water_level: self.water_level };
        crate::conv::filter(&mut self.map, h, w, &Reducer::DiffFromCenter, &c);
    }

    /// Pushes interior cells toward the nearer bound where the absolute
    /// neighbor-difference sum exceeds half the total range.
    pub fn saturate(&mut self)
        requires
            old(self).well_formed(),
        ensures
            final(self).well_formed(),
            keeps(*old(self), *final(self)),
            final(self).grid() == transform(
                (Combiner::Saturate {
                    max: old(self).max,
                    min: old(self).min,
                    water_level: old(self).water_level,
                }),
                (Reducer::AbsDiff),
                old(self).grid(),
                old(self).rows(),
                old(self).cols(),
            ),
    {
        let h = self.size.0;
        let w = self.size.1;
        let c = Combiner::Saturate { max: self.max, min: self.min, water_level: self.water_level };
        crate::conv::filter(&mut self.map, h, w, &Reducer::AbsDiff, &c);
    }

    /// Nudges interior cells by the binary above/below-water sign convolution
    /// of their neighbors.
    pub fn migrate(&mut self)
        requires
            old(self).well_formed(),
        ensures
            final(self).well_formed(),
            keeps(*old(self), *final(self)),
            final(self).grid() == transform(
                (Combiner::Migrate { max: old(self).max, water_level: old(self).water_level }),
                (Reducer::AboveWater { water_level: old(self).water_level }),
                old(self).grid(),
                old(self).rows(),
                old(self).cols(),
            ),
    {
        let h = self.size.0;
        let w = self.size.1;
        let r = Reducer::AboveWater { water_level: self.water_level };
        let c = Combiner::Migrate { max: self.max, water_level: self.water_level };
        crate::conv::filter(&mut self.map, h, w, &r, &c);
    }

    /// Separates the populations of the sign probe and nudges each interior
    /// cell toward its class's extreme proportionally to the opposite class's
    /// population.
    pub fn clump(&mut self)
        requires
            old(self).well_formed(),
        ensures
            final(self).well_formed(),
            keeps(*old(self), *final(self)),
            final(self).grid() == clump_spec(
                old(self).grid(),
                old(self).rows(),
                old(self).cols(),
                old(self).max,
                old(self).min,
                old(self).water_level,
            ),
    {
        let h = self.size.0;
        let w = self.size.1;
        let wl = self.water_level;
        let r = Reducer::AboveWater { water_level: wl };
        let sc = get_filter(&self.map, h, w, &r);
        let ground = crate::metrics::count_cells_above(&sc, h, w, wl);
        proof {
            assert(view_of(sc).take(h as int) =~= view_of(sc));
            lemma_grid_partition(view_of(sc), wl, w as int);
            assert(view_of(sc).len() * w == h * w) by (nonlinear_arith)
                requires
                    view_of(sc).len() == h as int,
            ;
        }
        proof {
            assert(h * w <= 64 * 64) by (nonlinear_arith)
                requires
                    h <= 64 && w <= 64,
            ;
        }
        let total = h * w;
        let water = total - ground;
        let gi: i32 = ground as i32;
        let wi: i32 = water as i32;
        let red = Reducer::ClassPopulation { water_level: wl, water: wi, ground: gi };
        let comb = Combiner::Clump { max: self.max, min: self.min, water_level: wl, water: wi, ground: gi };
        crate::conv::filter(&mut self.map, h, w, &red, &comb);
    }

    /// Rehashes every cell outside row 0 and column 0 against the noise grid
    /// drawn from the prime-search convolution of the current heights.
    pub fn add_noise(&mut self, seed: usize)
        requires
            old(self).well_formed(),
        ensures
            final(self).well_formed(),
            keeps(*old(self), *final(self)),
            final(self).grid() == add_noise_spec(
                old(self).grid(),
                old(self).rows(),
                old(self).cols(),
                old(self).max,
                old(self).min,
                old(self).water_level,
                seed,
            ),
    {
        let h = self.size.0;
        let w = self.size.1;
        let max = self.max;
        let min = self.min;
        let wl = self.water_level;
        let eff = HeightMap::next_prime(if h > w {
            h
        } else {
            w
        });
        let mut noise = copy_matrix(&self.map, h, w);
        let c = Combiner::NoiseCell { seed, eff };
        crate::conv::filter(&mut noise, h, w, &Reducer::NeighborValue, &c);
        let ghost g = self.grid();
        let ghost ng = view_of(noise);
        let s32 = crate::arith::exec_i32_of_usize_or(seed, 1);
        let mut out: Vec<Vec<i32>> = Vec::new();
        for i in 0..h
            invariant
                self.well_formed(),
                h == self.size.0,
                w == self.size.1,
                max == self.max,
                min == self.min,
                wl == self.water_level,
                g == self.grid(),
                ng == view_of(noise),
                dims(noise, h, w),
                s32 == i32_of_usize_or(seed, 1),
                out.len() == i,
                forall|k: int| 0 <= k < i ==> #[trigger] out@[k]@.len() == w,
                forall|k: int, l: int|
                    0 <= k < i && 0 <= l < w ==> #[trigger] out@[k]@[l] == (if 1 <= k && 1 <= l {
                        noise_cell(ng[k][l], g[k][l], s32, max, min, wl)
                    } else {
                        g[k][l]
                    }),
        {
            let mut row: Vec<i32> = Vec::new();
            for j in 0..w
                invariant
                    self.well_formed(),
                    h == self.size.0,
                    w == self.size.1,
                    max == self.max,
                    min == self.min,
                    wl == self.water_level,
                    g == self.grid(),
                    ng == view_of(noise),
                    dims(noise, h, w),
                    s32 == i32_of_usize_or(seed, 1),
                    i < h,
                    row.len() == j,
                    forall|l: int|
                        0 <= l < j ==> #[trigger] row@[l] == (if 1 <= i as int && 1 <= l {
                            noise_cell(ng[i as int][l], g[i as int][l], s32, max, min, wl)
                        } else {
                            g[i as int][l]
                        }),
            {
                proof {
                    assert(view_of(self.map)[i as int] == self.map@[i as int]@);
                    assert(view_of(noise)[i as int] == noise@[i as int]@);
                }
                if i >= 1 && j >= 1 {
                    let nv = noise[i][j];
                    let mv = self.map[i][j];
                    let num = nv.wrapping_mul(mv).wrapping_sub(
                        exec_rem32(nv, max.wrapping_sub(min)),
                    ).wrapping_sub(exec_div32(nv, 2).wrapping_mul(wl));
                    let dvbase: i32 = if nv != 0 {
                        exec_rem32(s32, nv)
                    } else {
                        0
                    };
                    let dv = dvbase.wrapping_add(1);
                    let dv1 = if dv != 0 {
                        dv
                    } else {
                        1
                    };
                    row.push(exec_div32(num, dv1));
                } else {
                    row.push(self.map[i][j]);
                }
            }
            out.push(row);
        }
        self.map = out;
        proof {
            assert(final(self).grid() =~~= add_noise_spec(
                g,
                h as int,
                w as int,
                max,
                min,
                wl,
                seed,
            ));
        }
    }

    /// Forces every border-ring cell to the floor.
    pub fn remove_edges(&mut self)
        requires
            old(self).well_formed(),
        ensures
            final(self).well_formed(),
            keeps(*old(self), *final(self)),
            final(self).grid() == remove_edges_spec(
                old(self).grid(),
                old(self).rows(),
                old(self).cols(),
                old(self).min,
            ),
    {
        let h = self.size.0;
        let w = self.size.1;
        let min = self.min;
        let ghost g = self.grid();
        let mut out: Vec<Vec<i32>> = Vec::new();
        for i in 0..h
            invariant
                self.well_formed(),
                h == self.size.0,
                w == self.size.1,
                min == self.min,
                g == self.grid(),
                out.len() == i,
                forall|k: int| 0 <= k < i ==> #[trigger] out@[k]@.len() == w,
                forall|k: int, l: int|
                    0 <= k < i && 0 <= l < w ==> #[trigger] out@[k]@[l] == (if k == 0 || k == h - 1
                        || l == 0 || l == w - 1 {
                        min
                    } else {
                        g[k][l]
                    }),
        {
            let mut row: Vec<i32> = Vec::new();
            for j in 0..w
                invariant
                    self.well_formed(),
                    h == self.size.0,
                    w == self.size.1,
                    min == self.min,
                    g == self.grid(),
                    i < h,
                    row.len() == j,
                    forall|l: int|
                        0 <= l < j ==> #[trigger] row@[l] == (if i as int == 0 || i as int == h - 1
                            || l == 0 || l == w - 1 {
                            min
                        } else {
                            g[i as int][l]
                        }),
            {
                proof {
                    assert(view_of(self.map)[i as int] == self.map@[i as int]@);
                }
                if i == 0 || i == h - 1 || j == 0 || j == w - 1 {
                    row.push(min);
                } else {
                    row.push(self.map[i][j]);
                }
            }
            out.push(row);
        }
        self.map = out;
        proof {
            assert(final(self).grid() =~~= remove_edges_spec(g, h as int, w as int, min));
        }
    }
}

/// Applied twice, the inversion returns the original grid exactly.
pub proof fn lemma_invert_involution(g: Seq<Seq<i32>>, h: int, w: int)
    requires
        g.len() == h,
        forall|i: int| 0 <= i < h ==> #[trigger] g[i].len() == w,
    ensures
        map_op((CellOp::Invert), map_op((CellOp::Invert), g, h, w), h, w) == g,
{
    assert forall|v: i32| #[trigger] cell_op((CellOp::Invert), cell_op((CellOp::Invert), v)) == v by {
        assert(wmul(wmul(v, -1i32), -1i32) == v);
    }
    assert(map_op((CellOp::Invert), map_op((CellOp::Invert), g, h, w), h, w) =~~= g);
}

/// A transform-mode convolution pass never writes the border ring: after the
/// border pass, any such pass leaves the border ring at the floor unchanged.
pub proof fn lemma_border_preserved(
    c: Combiner,
    r: Reducer,
    g: Seq<Seq<i32>>,
    h: int,
    w: int,
    i: int,
    j: int,
)
    requires
        0 <= i < h,
        0 <= j < w,
        !crate::conv::interior(h, w, i, j),
    ensures
        transform(c, r, g, h, w)[i][j] == g[i][j],
{
}

} // verus!
