//! The terrain entity: a fixed-size grid of signed integer heights together
//! with its immutable bounds configuration and the seed it was generated from.
use vstd::prelude::*;

use crate::arith::abs_usize_or_one;
use crate::arith::div32;
use crate::arith::exec_abs_usize_or_one;
use crate::arith::exec_usize_of_i32_or;
use crate::arith::usize_of_i32_or;
use crate::arith::uwadd;
use crate::arith::uwmul;
use crate::arith::wsub;
use vstd::string::StringSliceAdditionalSpecFns;

verus! {

/// Default grid side length.
pub const DEFAULT_SIZE: usize = 64;

/// Default nominal height ceiling.
pub const DEFAULT_MAX: i32 = 128;

/// Default nominal height floor.
pub const DEFAULT_MIN: i32 = -128;

/// Largest accepted grid side length; keeps the hash recurrence's prime
/// searches inside their tabulated ceiling.
pub const SIZE_LIMIT: usize = 64;

/// Largest accepted magnitude for the height ceiling and floor.
pub const RANGE_LIMIT: i32 = 1000;

/// A fixed-size rectangular grid of signed integer heights.
///
/// `size` is `(rows, columns)`, set once at construction and never changed.
/// Cells with a height above `water_level` are ground, below it water; a cell
/// exactly at `water_level` belongs to neither class. Heights are not clamped
/// to `[min, max]` between passes; `scale` renormalizes toward that range.
pub struct HeightMap {
    /// Grid dimensions as `(rows, columns)`.
    pub size: (usize, usize),
    /// Nominal height ceiling.
    pub max: i32,
    /// Nominal height floor.
    pub min: i32,
    /// The ground/water threshold, strictly between `min` and `max`.
    pub water_level: i32,
    /// The integer drawn from the input text, once generation has run.
    pub seed: Option<usize>,
    /// The height grid, addressed `[row][column]`.
    pub map: Vec<Vec<i32>>,
}

impl HeightMap {
    /// The grid as a sequence of rows of heights.
    pub open spec fn grid(self) -> Seq<Seq<i32>> {
        view_of(self.map)
    }

    /// Rows of the grid.
    pub open spec fn rows(self) -> int {
        self.size.0 as int
    }

    /// Columns of the grid.
    pub open spec fn cols(self) -> int {
        self.size.1 as int
    }

    /// The configuration invariant every operation preserves: the grid has
    /// exactly the configured dimensions, both within the accepted limit, and
    /// the water level lies strictly between the bounded floor and ceiling.
    pub open spec fn well_formed(self) -> bool {
        &&& 2 <= self.size.0 <= SIZE_LIMIT
        &&& 2 <= self.size.1 <= SIZE_LIMIT
        &&& -RANGE_LIMIT <= self.min < self.water_level < self.max <= RANGE_LIMIT
        &&& self.map.len() == self.size.0
        &&& forall|i: int| 0 <= i < self.size.0 ==> #[trigger] self.map@[i]@.len() == self.size.1
    }

    /// The scalar configuration, unchanged by every pass.
    pub open spec fn config(self) -> ((usize, usize), i32, i32, i32) {
        (self.size, self.max, self.min, self.water_level)
    }

    /// Builds a zero-filled map with the given dimensions and bounds; the
    /// water level is derived as an eighth of the total range above the floor,
    /// offset to zero. Rejects dimensions or bounds outside the accepted
    /// limits.
    pub fn with_config(rows: usize, cols: usize, max: i32, min: i32, water_level: i32) -> (r: Option<
        HeightMap,
    >)
        ensures
            r is Some <==> (2 <= rows <= SIZE_LIMIT && 2 <= cols <= SIZE_LIMIT && -RANGE_LIMIT
                <= min < water_level < max <= RANGE_LIMIT),
            r is Some ==> {
                &&& r->Some_0.well_formed()
                &&& r->Some_0.size == (rows, cols)
                &&& r->Some_0.max == max
                &&& r->Some_0.min == min
                &&& r->Some_0.water_level == water_level
                &&& r->Some_0.seed is None
                &&& r->Some_0.grid() == zero_grid(rows as int, cols as int)
            },
    {
        if 2 <= rows && rows <= SIZE_LIMIT && 2 <= cols && cols <= SIZE_LIMIT && -RANGE_LIMIT <= min
            && min < water_level && water_level < max && max <= RANGE_LIMIT {
            let hm = HeightMap {
                size: (rows, cols),
                max,
                min,
                water_level,
                seed: None,
                map: empty_matrix(rows, cols),
            };
            proof {
                assert(hm.grid() =~~= zero_grid(rows as int, cols as int));
            }
            Some(hm)
        } else {
            None
        }
    }

    /// The height at `(row, col)`.
    pub fn get_cell(&self, row: usize, col: usize) -> (r: i32)
        requires
            self.well_formed(),
            row < self.size.0,
            col < self.size.1,
        ensures
            r == self.grid()[row as int][col as int],
    {
        self.map[row][col]
    }

    /// Overwrites the height at `(row, col)`.
    pub fn set_cell(&mut self, row: usize, col: usize, v: i32)
        requires
            old(self).well_formed(),
            row < old(self).size.0,
            col < old(self).size.1,
        ensures
            final(self).well_formed(),
            final(self).config() == old(self).config(),
            final(self).seed == old(self).seed,
            final(self).grid() == old(self).grid().update(
                row as int,
                old(self).grid()[row as int].update(col as int, v),
            ),
    {
        let row_ref = &mut self.map[row];
        row_ref[col] = v;
        proof {
            assert(final(self).grid() =~~= old(self).grid().update(
                row as int,
                old(self).grid()[row as int].update(col as int, v),
            ));
        }
    }
}

impl Default for HeightMap {
    /// The default terrain: a zero-filled 64 x 64 grid with the height range
    /// `[-128, 128]` and the water level at an eighth of that range, 32.
    fn default() -> (r: HeightMap)
        ensures
            r.well_formed(),
            r.size == (DEFAULT_SIZE, DEFAULT_SIZE),
            r.max == DEFAULT_MAX,
            r.min == DEFAULT_MIN,
            r.water_level == div32((DEFAULT_MAX - DEFAULT_MIN) as i32, 8),
            r.seed is None,
            r.grid() == zero_grid(DEFAULT_SIZE as int, DEFAULT_SIZE as int),
    {
        let hm = HeightMap {
            size: (DEFAULT_SIZE, DEFAULT_SIZE),
            max: DEFAULT_MAX,
            min: DEFAULT_MIN,
            water_level: (DEFAULT_MAX - DEFAULT_MIN) / 8,
            seed: None,
            map: empty_matrix(DEFAULT_SIZE, DEFAULT_SIZE),
        };
        proof {
            assert(hm.grid() =~~= zero_grid(DEFAULT_SIZE as int, DEFAULT_SIZE as int));
        }
        hm
    }
}

/// The rows of a height matrix as mathematical sequences.
pub open spec fn view_of(m: Vec<Vec<i32>>) -> Seq<Seq<i32>> {
    Seq::new(m@.len(), |i: int| m@[i]@)
}

/// A grid of the given dimensions with every height zero.
pub open spec fn zero_grid(rows: int, cols: int) -> Seq<Seq<i32>> {
    Seq::new(rows as nat, |i: int| Seq::new(cols as nat, |j: int| 0i32))
}

/// Builds a `height` x `width` matrix of zero heights.
pub fn empty_matrix(height: usize, width: usize) -> (m: Vec<Vec<i32>>)
    ensures
        view_of(m) == zero_grid(height as int, width as int),
        m.len() == height,
        forall|i: int| 0 <= i < height ==> #[trigger] m@[i]@.len() == width,
{
    let mut m: Vec<Vec<i32>> = Vec::new();
    for i in 0..height
        invariant
            m.len() == i,
            forall|k: int| 0 <= k < i ==> #[trigger] m@[k]@.len() == width,
            forall|k: int, l: int| 0 <= k < i && 0 <= l < width ==> #[trigger] m@[k]@[l] == 0i32,
    {
        let mut row: Vec<i32> = Vec::new();
        for j in 0..width
            invariant
                row.len() == j,
                forall|l: int| 0 <= l < j ==> #[trigger] row[l] == 0i32,
        {
            row.push(0);
        }
        m.push(row);
    }
    proof {
        assert(view_of(m) =~~= zero_grid(height as int, width as int));
    }
    m
}

/// The safety cap on evolution rounds: a deliberate deviation from an
/// otherwise unbounded loop, so that generation always returns and a
/// non-converging seed is reported rather than spun on forever.
pub const GENERATION_LIMIT: usize = 1000000;

/// The position-weighted checksum of the first `n` input bytes, wrapped at
/// the word size: each byte contributes its value times its index.
pub open spec fn checksum_prefix(b: Seq<u8>, n: int) -> usize
    decreases n,
{
    if n <= 0 {
        0usize
    } else {
        uwadd(checksum_prefix(b, n - 1), uwmul((n - 1) as usize, b[n - 1] as usize))
    }
}

/// One draw of the hash recurrence: the descending search of `x` and the
/// ascending search of `y`, both reduced by the diffusion modulus, summed and
/// spread through the diffusion primitive.
pub open spec fn draw(eff: usize, x: usize, y: usize) -> usize {
    crate::prime::rv_spec(
        ((crate::prime::lp_val((x as int) % (eff as int)) + crate::prime::np_val(
            (y as int) % (eff as int),
        )) as usize),
    )
}

/// The draw that seeds column 0 at row `i`.
pub open spec fn col0_draw(seed: usize, eff: usize, i: int) -> usize {
    draw(eff, seed, uwadd(seed, i as usize))
}

/// The draw that seeds row 0 at column `j`; it runs after the column draws
/// and overwrites the corner.
pub open spec fn row0_draw(seed: usize, eff: usize, j: int) -> usize {
    draw(eff, uwadd(seed, j as usize), seed)
}

/// An unsigned draw becomes a height where it fits; otherwise the cell keeps
/// its previous value.
pub open spec fn fit32(r: usize, fb: i32) -> i32 {
    if r <= i32::MAX as usize {
        r as i32
    } else {
        fb
    }
}

/// The value of cell `(i, j)` after the hash recurrence over the grid `g0`:
/// the border row and column are drawn from the seed alone; each interior
/// cell's draw depends on the already-computed cell above and to its left,
/// propagating diagonally from the top-left.
pub open spec fn rand_cell(g0: Seq<Seq<i32>>, seed: usize, eff: usize, i: int, j: int) -> i32
    decreases i + j,
{
    if i <= 0 {
        if j <= 0 {
            fit32(row0_draw(seed, eff, 0), fit32(col0_draw(seed, eff, 0), g0[0][0]))
        } else {
            fit32(row0_draw(seed, eff, j), g0[0][j])
        }
    } else if j <= 0 {
        fit32(col0_draw(seed, eff, i), g0[i][0])
    } else {
        let a = abs_usize_or_one(rand_cell(g0, seed, eff, i - 1, j));
        let b = abs_usize_or_one(rand_cell(g0, seed, eff, i, j - 1));
        fit32(draw(eff, uwmul(seed, a), uwmul(seed, b)), g0[i][j])
    }
}

/// The whole grid after the hash recurrence.
pub open spec fn randomize_spec(g0: Seq<Seq<i32>>, seed: usize, h: int, w: int) -> Seq<Seq<i32>> {
    let eff = crate::prime::np_val(
        if h > w {
            h
        } else {
            w
        },
    ) as usize;
    Seq::new(h as nat, |i: int| Seq::new(w as nat, |j: int| rand_cell(g0, seed, eff, i, j)))
}

/// The number of clump/fractal/slide repetitions inside one evolution round.
pub open spec fn evolve_reps(h: int, w: int, max: i32, min: i32) -> int {
    (h + w + usize_of_i32_or(wsub(max, min), 1) as int) / 128
}

/// `n` repetitions of the clump, fractal and slide passes.
pub open spec fn rep3_spec(
    g: Seq<Seq<i32>>,
    h: int,
    w: int,
    max: i32,
    min: i32,
    wl: i32,
    n: int,
) -> Seq<Seq<i32>>
    decreases n,
{
    if n <= 0 {
        g
    } else {
        let p = rep3_spec(g, h, w, max, min, wl, n - 1);
        let p1 = crate::passes::clump_spec(p, h, w, max, min, wl);
        let p2 = crate::passes::map_op(
            (crate::passes::CellOp::Fractal { max, min, water_level: wl }),
            p1,
            h,
            w,
        );
        crate::conv::transform(
            (crate::conv::Combiner::SlideAdd),
            (crate::conv::Reducer::SlideSign),
            p2,
            h,
            w,
        )
    }
}

/// One full evolution round.
pub open spec fn evolve_spec(
    g: Seq<Seq<i32>>,
    h: int,
    w: int,
    max: i32,
    min: i32,
    wl: i32,
    seed: usize,
) -> Seq<Seq<i32>> {
    let a = crate::passes::add_noise_spec(g, h, w, max, min, wl, seed);
    let b = crate::passes::clump_spec(a, h, w, max, min, wl);
    let c = rep3_spec(b, h, w, max, min, wl, evolve_reps(h, w, max, min) - 1);
    let d = crate::conv::transform(
        (crate::conv::Combiner::Migrate { max, water_level: wl }),
        (crate::conv::Reducer::AboveWater { water_level: wl }),
        c,
        h,
        w,
    );
    let e = crate::passes::map_op(
        (crate::passes::CellOp::Fractal { max, min, water_level: wl }),
        d,
        h,
        w,
    );
    let f = crate::passes::map_op(
        (crate::passes::CellOp::Brighten { max, min, water_level: wl }),
        e,
        h,
        w,
    );
    let sgrid = crate::conv::transform(
        (crate::conv::Combiner::Saturate { max, min, water_level: wl }),
        (crate::conv::Reducer::AbsDiff),
        f,
        h,
        w,
    );
    crate::passes::scale_spec(sgrid, h, w, max, min, wl)
}

/// The fixed post-construction sequence: the hash recurrence, the range
/// fold, one smoothing pass, one evolution round, then the border pass.
pub open spec fn generate_spec(
    g: Seq<Seq<i32>>,
    h: int,
    w: int,
    max: i32,
    min: i32,
    wl: i32,
    seed: usize,
) -> Seq<Seq<i32>> {
    let r = randomize_spec(g, seed, h, w);
    let hr = crate::passes::map_op((crate::passes::CellOp::HardRange { max, min }), r, h, w);
    let rn = crate::conv::transform(
        (crate::conv::Combiner::Smooth { water_level: wl }),
        (crate::conv::Reducer::DiffFromCenter),
        hr,
        h,
        w,
    );
    let ev = evolve_spec(rn, h, w, max, min, wl, seed);
    crate::passes::remove_edges_spec(ev, h, w, min)
}

/// The terrain is settled once no termination signal asks for more rounds.
#[verifier::opaque]
pub open spec fn settled(g: Seq<Seq<i32>>, h: int, w: int, wl: i32, max: i32) -> bool {
    !crate::metrics::continuity_comparison_spec(g, h, w, wl, max)
}

/// One round of the main generation loop at generation `gen`.
#[verifier::opaque]
pub open spec fn step_spec(
    g: Seq<Seq<i32>>,
    h: int,
    w: int,
    max: i32,
    min: i32,
    wl: i32,
    gen: usize,
) -> Seq<Seq<i32>> {
    let ag = crate::metrics::average_ground_spec(g, wl, max);
    let aw = crate::metrics::average_water_spec(g, wl, min);
    let g1 = if ag == aw {
        crate::passes::map_op((crate::passes::CellOp::Invert), g, h, w)
    } else if aw == 0 {
        crate::passes::scale_spec(
            crate::conv::transform(
                (crate::conv::Combiner::Smooth { water_level: wl }),
                (crate::conv::Reducer::DiffFromCenter),
                crate::passes::add_noise_spec(g, h, w, max, min, wl, gen),
                h,
                w,
            ),
            h,
            w,
            max,
            min,
            wl,
        )
    } else {
        g
    };
    evolve_spec(g1, h, w, max, min, wl, gen)
}

/// The state of the main loop after `k` rounds from the generated base grid.
#[verifier::opaque]
pub open spec fn iterate_spec(
    g0: Seq<Seq<i32>>,
    h: int,
    w: int,
    max: i32,
    min: i32,
    wl: i32,
    k: int,
) -> Seq<Seq<i32>>
    decreases k,
{
    if k <= 0 {
        g0
    } else {
        step_spec(iterate_spec(g0, h, w, max, min, wl, k - 1), h, w, max, min, wl, k as usize)
    }
}

/// The grid `g` is what the main loop leaves behind when started on `g0`:
/// some number of rounds were run, none of the earlier states was settled,
/// and the last state is settled or the round cap was reached. Together with
/// the round-by-round determinism of [`iterate_spec`], this pins the result
/// to a function of the seed alone.
pub open spec fn run_from(
    g0: Seq<Seq<i32>>,
    g: Seq<Seq<i32>>,
    h: int,
    w: int,
    max: i32,
    min: i32,
    wl: i32,
    cap: int,
) -> bool {
    exists|k: int|
        0 <= k <= cap && g == #[trigger] iterate_spec(g0, h, w, max, min, wl, k) && (forall|j: int|
            0 <= j < k ==> !settled(iterate_spec(g0, h, w, max, min, wl, j), h, w, wl, max)) && (
        settled(iterate_spec(g0, h, w, max, min, wl, k), h, w, wl, max) || k >= cap)
}

/// Two runs from the same seed pass through bit-identical states: the round
/// function is a mathematical function of the grid and the generation
/// number, with no hidden source of randomness.
pub proof fn lemma_generation_deterministic(
    g0: Seq<Seq<i32>>,
    g1: Seq<Seq<i32>>,
    h: int,
    w: int,
    max: i32,
    min: i32,
    wl: i32,
    k: int,
)
    requires
        g0 == g1,
    ensures
        iterate_spec(g0, h, w, max, min, wl, k) == iterate_spec(g1, h, w, max, min, wl, k),
{
}

impl HeightMap {
    /// One draw of the hash recurrence, from the raw search inputs.
    fn draw_value(&self, eff: usize, x: usize, y: usize) -> (r: usize)
        requires
            1 <= eff <= 67,
        ensures
            r == draw(eff, x, y),
    {
        let a = HeightMap::last_prime(x % eff);
        let b = HeightMap::next_prime(y % eff);
        proof {
            crate::prime::lemma_np_ok_67();
            crate::prime::lemma_np_result_le((y % eff) as int, b as int, 67);
        }
        self.random_value(a + b)
    }

    /// Fills the grid through the diagonal hash recurrence: the border row
    /// and column are drawn from the seed, then each interior cell from the
    /// already-computed cells above and to its left, in strict row-major
    /// order.
    pub fn randomize(&mut self, seed: usize)
        requires
            old(self).well_formed(),
        ensures
            final(self).well_formed(),
            crate::passes::keeps(*old(self), *final(self)),
            final(self).grid() == randomize_spec(
                old(self).grid(),
                seed,
                old(self).rows(),
                old(self).cols(),
            ),
    {
        let h = self.size.0;
        let w = self.size.1;
        let eff = HeightMap::next_prime(if h > w {
            h
        } else {
            w
        });
        proof {
            crate::prime::lemma_np_ok_67();
            crate::prime::lemma_np_result_le(
                if h > w {
                    h as int
                } else {
                    w as int
                },
                eff as int,
                67,
            );
        }
        let ghost g0 = self.grid();
        let mut out: Vec<Vec<i32>> = Vec::new();
        let c00r = self.draw_value(eff, seed, seed.wrapping_add(0));
        let base00: i32 = if c00r <= (i32::MAX as usize) {
            c00r as i32
        } else {
            proof {
                assert(view_of(self.map)[0] == self.map@[0]@);
            }
            self.map[0][0]
        };
        let mut row0: Vec<i32> = Vec::new();
        for j in 0..w
            invariant
                self.well_formed(),
                h == self.size.0,
                w == self.size.1,
                1 <= eff <= 67,
                eff as int == crate::prime::np_val(
                    if h > w {
                        h as int
                    } else {
                        w as int
                    },
                ),
                g0 == self.grid(),
                base00 == fit32(col0_draw(seed, eff, 0), g0[0][0]),
                row0.len() == j,
                forall|l: int|
                    0 <= l < j ==> #[trigger] row0@[l] == rand_cell(g0, seed, eff, 0, l),
        {
            let r = self.draw_value(eff, seed.wrapping_add(j), seed);
            proof {
                assert(view_of(self.map)[0] == self.map@[0]@);
            }
            if r <= (i32::MAX as usize) {
                row0.push(r as i32);
            } else if j == 0 {
                row0.push(base00);
            } else {
                row0.push(self.map[0][j]);
            }
        }
        out.push(row0);
        for i in 1..h
            invariant
                self.well_formed(),
                h == self.size.0,
                w == self.size.1,
                1 <= eff <= 67,
                eff as int == crate::prime::np_val(
                    if h > w {
                        h as int
                    } else {
                        w as int
                    },
                ),
                g0 == self.grid(),
                out.len() == i,
                forall|k: int| 0 <= k < i ==> #[trigger] out@[k]@.len() == w,
                forall|k: int, l: int|
                    0 <= k < i && 0 <= l < w ==> #[trigger] out@[k]@[l] == rand_cell(
                        g0,
                        seed,
                        eff,
                        k,
                        l,
                    ),
        {
            let mut row: Vec<i32> = Vec::new();
            let r0 = self.draw_value(eff, seed, seed.wrapping_add(i));
            proof {
                assert(view_of(self.map)[i as int] == self.map@[i as int]@);
            }
            if r0 <= (i32::MAX as usize) {
                row.push(r0 as i32);
            } else {
                row.push(self.map[i][0]);
            }
            for j in 1..w
                invariant
                    self.well_formed(),
                    h == self.size.0,
                    w == self.size.1,
                    1 <= eff <= 67,
                    eff as int == crate::prime::np_val(
                        if h > w {
                            h as int
                        } else {
                            w as int
                        },
                    ),
                    g0 == self.grid(),
                    1 <= i < h,
                    out.len() == i,
                    forall|k: int| 0 <= k < i ==> #[trigger] out@[k]@.len() == w,
                    forall|k: int, l: int|
                        0 <= k < i && 0 <= l < w ==> #[trigger] out@[k]@[l] == rand_cell(
                            g0,
                            seed,
                            eff,
                            k,
                            l,
                        ),
                    row.len() == j,
                    forall|l: int|
                        0 <= l < j ==> #[trigger] row@[l] == rand_cell(g0, seed, eff, i as int, l),
            {
                proof {
                    assert(view_of(self.map)[i as int] == self.map@[i as int]@);
                }
                let a = exec_abs_usize_or_one(out[i - 1][j]);
                let b = exec_abs_usize_or_one(row[j - 1]);
                let r = self.draw_value(eff, seed.wrapping_mul(a), seed.wrapping_mul(b));
                if r <= (i32::MAX as usize) {
                    row.push(r as i32);
                } else {
                    row.push(self.map[i][j]);
                }
            }
            out.push(row);
        }
        self.map = out;
        proof {
            assert(final(self).grid() =~~= randomize_spec(g0, seed, h as int, w as int));
        }
    }

    /// One full evolution round: the noise pass, a clump, the repeated
    /// clump/fractal/slide block, then migrate, fractal, brighten, saturate
    /// and scale.
    pub fn evolve(&mut self, seed: usize)
        requires
            old(self).well_formed(),
        ensures
            final(self).well_formed(),
            crate::passes::keeps(*old(self), *final(self)),
            final(self).grid() == evolve_spec(
                old(self).grid(),
                old(self).rows(),
                old(self).cols(),
                old(self).max,
                old(self).min,
                old(self).water_level,
                seed,
            ),
    {
        let ghost h = self.rows();
        let ghost w = self.cols();
        let ghost max = self.max;
        let ghost min = self.min;
        let ghost wl = self.water_level;
        self.add_noise(seed);
        self.clump();
        let ghost base = self.grid();
        let range = exec_usize_of_i32_or(self.max.wrapping_sub(self.min), 1);
        proof {
            assert(range <= i32::MAX);
        }
        let reps = (self.size.0 + self.size.1 + range) / 128;
        let reps1 = if reps >= 1 {
            reps
        } else {
            1
        };
        for k in 1..reps1
            invariant
                self.well_formed(),
                self.rows() == h,
                self.cols() == w,
                self.max == max,
                self.min == min,
                self.water_level == wl,
                self.seed == old(self).seed,
                self.size == old(self).size,
                reps as int == evolve_reps(h, w, max, min),
                reps1 as int == if evolve_reps(h, w, max, min) >= 1 {
                    evolve_reps(h, w, max, min)
                } else {
                    1
                },
                1 <= k,
                self.grid() == rep3_spec(base, h, w, max, min, wl, k as int - 1),
        {
            self.clump();
            self.fractal();
            self.slide();
        }
        proof {
            assert(self.grid() == rep3_spec(base, h, w, max, min, wl, reps as int - 1));
        }
        self.migrate();
        self.fractal();
        self.brighten();
        self.saturate();
        self.scale();
    }

    /// The fixed post-construction sequence: records the seed, fills the
    /// grid through the hash recurrence, folds it into range, smooths it,
    /// runs one evolution round and forces the border to the floor.
    pub fn generate(&mut self, seed: usize)
        requires
            old(self).well_formed(),
        ensures
            final(self).well_formed(),
            final(self).size == old(self).size,
            final(self).max == old(self).max,
            final(self).min == old(self).min,
            final(self).water_level == old(self).water_level,
            final(self).seed == Some(seed),
            final(self).grid() == generate_spec(
                old(self).grid(),
                old(self).rows(),
                old(self).cols(),
                old(self).max,
                old(self).min,
                old(self).water_level,
                seed,
            ),
    {
        self.seed = Some(seed);
        self.randomize(seed);
        self.hard_range();
        self.reduce_noise();
        self.evolve(seed);
        self.remove_edges();
    }

    /// Builds the default terrain from a seed text and runs the main
    /// generation loop until the terrain settles or the round cap is
    /// reached. The cap is a deliberate safety deviation: without it a
    /// pathological seed loops forever.
    pub fn new(seed: &str) -> (r: HeightMap)
        ensures
            r.well_formed(),
            r.size == (DEFAULT_SIZE, DEFAULT_SIZE),
            r.max == DEFAULT_MAX,
            r.min == DEFAULT_MIN,
            r.seed == Some(checksum_prefix(seed.spec_bytes(), seed.spec_bytes().len() as int)),
            run_from(
                generate_spec(
                    zero_grid(DEFAULT_SIZE as int, DEFAULT_SIZE as int),
                    DEFAULT_SIZE as int,
                    DEFAULT_SIZE as int,
                    r.max,
                    r.min,
                    r.water_level,
                    checksum_prefix(seed.spec_bytes(), seed.spec_bytes().len() as int),
                ),
                r.grid(),
                DEFAULT_SIZE as int,
                DEFAULT_SIZE as int,
                r.max,
                r.min,
                r.water_level,
                GENERATION_LIMIT as int,
            ),
    {
        let (hm, _) = HeightMap::new_bounded(seed, GENERATION_LIMIT);
        hm
    }

    /// As [`HeightMap::new`], under a caller-chosen round cap; the flag
    /// reports whether the terrain settled before the cap.
    /// One round of the main generation loop: the degenerate-average
    /// adjustments, then a full evolution round.
    fn run_step(&mut self, generation: usize)
        requires
            old(self).well_formed(),
        ensures
            final(self).well_formed(),
            crate::passes::keeps(*old(self), *final(self)),
            final(self).grid() == step_spec(
                old(self).grid(),
                old(self).rows(),
                old(self).cols(),
                old(self).max,
                old(self).min,
                old(self).water_level,
                generation,
            ),
    {
        proof {
            reveal(step_spec);
        }
        if self.average_ground() == self.average_water() {
            self.invert();
        } else if self.average_water() == 0 {
            self.add_noise(generation);
            self.reduce_noise();
            self.scale();
        }
        self.evolve(generation);
    }

    #[verifier::rlimit(80)]
    pub fn new_bounded(seed: &str, cap: usize) -> (r: (HeightMap, bool))
        requires
            cap < usize::MAX,
        ensures
            r.0.well_formed(),
            r.0.size == (DEFAULT_SIZE, DEFAULT_SIZE),
            r.0.max == DEFAULT_MAX,
            r.0.min == DEFAULT_MIN,
            r.0.seed == Some(checksum_prefix(seed.spec_bytes(), seed.spec_bytes().len() as int)),
            run_from(
                generate_spec(
                    zero_grid(DEFAULT_SIZE as int, DEFAULT_SIZE as int),
                    DEFAULT_SIZE as int,
                    DEFAULT_SIZE as int,
                    r.0.max,
                    r.0.min,
                    r.0.water_level,
                    checksum_prefix(seed.spec_bytes(), seed.spec_bytes().len() as int),
                ),
                r.0.grid(),
                DEFAULT_SIZE as int,
                DEFAULT_SIZE as int,
                r.0.max,
                r.0.min,
                r.0.water_level,
                cap as int,
            ),
            r.1 == settled(
                r.0.grid(),
                DEFAULT_SIZE as int,
                DEFAULT_SIZE as int,
                r.0.water_level,
                r.0.max,
            ),
    {
        let bytes = seed.as_bytes();
        let mut total: usize = 0;
        let n = bytes.len();
        for i in 0..n
            invariant
                n == seed.spec_bytes().len(),
                bytes@ == seed.spec_bytes(),
                total == checksum_prefix(seed.spec_bytes(), i as int),
        {
            total = total.wrapping_add(i.wrapping_mul(bytes[i] as usize));
        }
        let mut hm = HeightMap::default();
        hm.generate(total);
        let ghost base = hm.grid();
        proof {
            reveal(iterate_spec);
            reveal(settled);
        }
        let ghost h = hm.rows();
        let ghost w = hm.cols();
        let ghost max = hm.max;
        let ghost min = hm.min;
        let ghost wl = hm.water_level;
        let mut generation: usize = 1;
        let mut go = hm.continuity_comparison();
        while go && generation <= cap
            invariant
                hm.well_formed(),
                hm.rows() == h,
                hm.cols() == w,
                hm.max == max,
                hm.min == min,
                hm.water_level == wl,
                hm.size == (DEFAULT_SIZE, DEFAULT_SIZE),
                hm.max == DEFAULT_MAX,
                hm.min == DEFAULT_MIN,
                hm.seed == Some(total),
                cap < usize::MAX,
                1 <= generation,
                generation <= cap + 1,
                hm.grid() == iterate_spec(base, h, w, max, min, wl, generation as int - 1),
                go == !settled(hm.grid(), h, w, wl, max),
                forall|j: int|
                    0 <= j < generation - 1 ==> !settled(
                        #[trigger] iterate_spec(base, h, w, max, min, wl, j),
                        h,
                        w,
                        wl,
                        max,
                    ),
            decreases cap + 1 - generation,
        {
            hm.run_step(generation);
            proof {
                reveal(iterate_spec);
                reveal(settled);
                assert(hm.grid() == iterate_spec(base, h, w, max, min, wl, generation as int));
            }
            generation = generation + 1;
            go = hm.continuity_comparison();
        }
        proof {
            reveal(settled);
            let k = generation as int - 1;
            assert(0 <= k <= cap as int);
            assert(hm.grid() == iterate_spec(base, h, w, max, min, wl, k));
            assert(settled(iterate_spec(base, h, w, max, min, wl, k), h, w, wl, max) || k
                >= cap as int);
        }
        (hm, !go)
    }
}

} // verus!
