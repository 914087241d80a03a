use vstd::prelude::*;
use rand::rngs::StdRng;
use crate::buffer::RecencyBuffer;
use crate::buffer::is_first_nearest;
use crate::grid::Grid;
use crate::openset::RandomRemovalSet;
use crate::pixel::Color;
use crate::pixel::Loc;
use crate::pixel::Pixel;
use crate::pixel::color_dist_sq;
use crate::rng::new_rng;
use crate::rng::random_byte;
use crate::rng::random_in_range;
use crate::walk::WalkOutcome;
use crate::walk::boundary_walk;
use crate::numeric::isqrt;
use crate::numeric::sqrt_floor;
use crate::numeric::lemma_sqrt_floor_bounds;

verus! {

/// The run parameters, fixed at invocation. The two jitter fractions are
/// exact rationals `num / den`, which keeps every width computation in
/// integers: `start_spread` must lie in `[0, 1]` and `cont_spread` is any
/// non-negative value.
#[derive(Clone, Copy, PartialEq, Eq, Structural, Debug)]
pub struct Config {
    pub size: usize,
    pub num_centers: usize,
    pub num_lookback: usize,
    pub start_spread_num: u64,
    pub start_spread_den: u64,
    pub cont_spread_num: u64,
    pub cont_spread_den: u64,
}

impl Config {
    /// The configurations generation accepts. The grid side is bounded so
    /// that all walk and width arithmetic stays in machine range; at least
    /// one seed center is required, since the growth phase needs a
    /// non-empty recency buffer to pick a reference pixel from.
    pub open spec fn valid(self) -> bool {
        &&& 1 <= self.size <= 16384
        &&& 1 <= self.num_centers <= self.size * self.size
        &&& 1 <= self.num_lookback
        &&& 1 <= self.start_spread_den <= 1000000
        &&& self.start_spread_num <= self.start_spread_den
        &&& 1 <= self.cont_spread_den <= 1000000
        &&& self.cont_spread_num <= 1000000
    }
}

/// The seeding phase's jitter half-width: `floor(size * start_spread)`.
pub open spec fn seed_width_spec(cfg: Config) -> int {
    (cfg.size * cfg.start_spread_num) / (cfg.start_spread_den as int)
}

/// The growth phase's jitter half-width:
/// `max(1, floor(sqrt(color_dist_sq) * cont_spread))`. With `cont_spread`
/// the rational `p / q`, `floor(sqrt(d) * p / q)` equals
/// `floor(sqrt(d * p * p)) / q`, which is exact in integers.
pub open spec fn growth_width_spec(cfg: Config, dsq: int) -> int {
    let scaled = sqrt_floor((dsq * cfg.cont_spread_num * cfg.cont_spread_num) as nat) as int
        / (cfg.cont_spread_den as int);
    if scaled < 1 {
        1
    } else {
        scaled
    }
}

/// Computes the seeding phase's jitter half-width.
pub fn seed_width(cfg: Config) -> (w: usize)
    requires
        cfg.valid(),
    ensures
        w == seed_width_spec(cfg),
        w <= cfg.size,
{
    proof {
        assert(cfg.size * cfg.start_spread_num <= 16384 * 1000000) by (nonlinear_arith)
            requires 0 <= cfg.size <= 16384, 0 <= cfg.start_spread_num <= 1000000;
        assert(cfg.size * cfg.start_spread_num <= cfg.start_spread_den * cfg.size)
            by (nonlinear_arith)
            requires cfg.start_spread_num <= cfg.start_spread_den, 0 <= cfg.size;
        vstd::arithmetic::div_mod::lemma_multiply_divide_le(
            cfg.size * cfg.start_spread_num as int,
            cfg.start_spread_den as int,
            cfg.size as int,
        );
    }
    let prod: u64 = cfg.size as u64 * cfg.start_spread_num;
    let w64: u64 = prod / cfg.start_spread_den;
    w64 as usize
}

/// Computes the growth phase's jitter half-width from a squared color
/// distance.
pub fn growth_width(cfg: Config, dsq: u32) -> (w: usize)
    requires
        cfg.valid(),
        dsq <= 195075,
    ensures
        w == growth_width_spec(cfg, dsq as int),
        1 <= w <= 500_000_000,
{
    proof {
        assert(dsq * cfg.cont_spread_num <= 195075000000
            && dsq * cfg.cont_spread_num * cfg.cont_spread_num <= 195075000000000000)
            by (nonlinear_arith)
            requires
                0 <= dsq <= 195075,
                0 <= cfg.cont_spread_num <= 1000000;
    }
    let scaled_in: u64 = dsq as u64 * cfg.cont_spread_num * cfg.cont_spread_num;
    let root: u64 = isqrt(scaled_in);
    proof {
        lemma_sqrt_floor_bounds(scaled_in as nat);
        assert(root < 500_000_000) by (nonlinear_arith)
            requires
                (root as int) * (root as int) <= 195075000000000000,
                root >= 0;
        vstd::arithmetic::div_mod::lemma_div_nonincreasing(root as int, cfg.cont_spread_den as int);
        vstd::arithmetic::div_mod::lemma_div_pos_is_pos(root as int, cfg.cont_spread_den as int);
    }
    let w64: u64 = root / cfg.cont_spread_den;
    if w64 < 1 {
        1
    } else {
        w64 as usize
    }
}

/// Samples a coordinate uniformly from the window `[v - w, v + w]`
/// clamped to `[0, size - 1]`, with saturating subtraction at zero.
fn sample_axis(rng: &mut StdRng, v: usize, w: usize, size: usize) -> (r: usize)
    requires
        1 <= size <= 16384,
        v < size,
        w <= 1_000_000_000,
    ensures
        (if v >= w { v - w } else { 0 }) <= r,
        r <= (if v + w < size { v + w } else { size - 1 }),
        r < size,
{
    let lo = if v >= w { v - w } else { 0 };
    let hi_raw = v + w;
    let hi = if hi_raw < size { hi_raw } else { size - 1 };
    random_in_range(rng, lo, hi)
}

/// The whole mutable state of one generation run.
pub struct GenState {
    pub cfg: Config,
    pub grid: Grid,
    pub open_cells: RandomRemovalSet,
    pub lookback: RecencyBuffer,
    pub placed: usize,
}

impl GenState {
    /// The state invariant, preserved by every placement step:
    /// - the grid is well-formed (filled cells hold in-bounds pixels keyed
    ///   by their own location);
    /// - the open set ranges over exactly the `size * size` cell space and
    ///   its membership is the complement of the filled cells, so the two
    ///   partition the coordinate space;
    /// - exactly `placed` cells have been filled so far;
    /// - the recency buffer holds in-bounds pixels, capped at
    ///   `num_lookback`, and is non-empty once anything was placed.
    pub open spec fn wf(self) -> bool {
        &&& self.cfg.valid()
        &&& self.grid.wf()
        &&& self.grid.spec_size() == self.cfg.size
        &&& self.open_cells.wf()
        &&& self.open_cells.domain() == self.cfg.size * self.cfg.size
        &&& self.placed <= self.cfg.size * self.cfg.size
        &&& self.open_cells.len() == self.cfg.size * self.cfg.size - self.placed
        &&& forall|c: int|
            0 <= c < self.grid@.len() ==> ((#[trigger] self.open_cells.contains(c))
                <==> self.grid@[c] is None)
        &&& self.lookback.wf()
        &&& self.lookback.cap() == self.cfg.num_lookback
        &&& forall|i: int|
            0 <= i < self.lookback@.len() ==> (#[trigger] self.lookback@[i]).loc.in_bounds(
                self.cfg.size as int) && self.lookback@[i].center.in_bounds(self.cfg.size as int)
        &&& (self.placed >= 1 ==> self.lookback@.len() >= 1)
    }

    /// Creates the initial state: an empty grid, every cell open, an empty
    /// recency buffer.
    pub fn new(cfg: Config) -> (s: Self)
        requires
            cfg.valid(),
        ensures
            s.wf(),
            s.cfg == cfg,
            s.placed == 0,
            forall|c: int| 0 <= c < s.grid@.len() ==> (#[trigger] s.grid@[c]) is None,
    {
        proof {
            assert(cfg.size * cfg.size <= 0x1000_0000) by (nonlinear_arith)
                requires 1 <= cfg.size <= 16384;
            assert(cfg.size * cfg.size >= 1) by (nonlinear_arith)
                requires 1 <= cfg.size;
        }
        let n: usize = cfg.size * cfg.size;
        let grid = Grid::new(cfg.size);
        let open_cells = RandomRemovalSet::new_full(n);
        let lookback = RecencyBuffer::new(cfg.num_lookback);
        GenState { cfg, grid, open_cells, lookback, placed: 0 }
    }

    /// Draws a random open cell, jitters a center around it within the
    /// seeding half-width, and commits the pixel there: the seeding phase's
    /// placement, also the fallback when a walk aborts.
    fn place_random(&mut self, rng: &mut StdRng, color: Color)
        requires
            old(self).wf(),
            old(self).placed < old(self).cfg.size * old(self).cfg.size,
        ensures
            final(self).wf(),
            final(self).cfg == old(self).cfg,
            final(self).placed == old(self).placed + 1,
            forall|c: int|
                0 <= c < old(self).grid@.len() && (#[trigger] old(self).grid@[c]) is Some
                    ==> final(self).grid@[c] == old(self).grid@[c],
    {
        let size = self.cfg.size;
        proof {
            assert(size * size <= 0x1000_0000) by (nonlinear_arith)
                requires 1 <= size <= 16384;
        }
        let ghost old_open = self.open_cells;
        let c_opt = self.open_cells.remove_random(rng);
        let c = c_opt.unwrap();
        proof {
            old_open.lemma_contains_domain();
            assert(c < size * size);
            vstd::arithmetic::div_mod::lemma_fundamental_div_mod(c as int, size as int);
            vstd::arithmetic::div_mod::lemma_mod_division_less_than_divisor(c as int, size as int);
            vstd::arithmetic::div_mod::lemma_div_pos_is_pos(c as int, size as int);
            assert((c as int) / (size as int) < size as int
                && ((c as int) / (size as int)) * (size as int) + (c as int) % (size as int)
                    == c as int) by (nonlinear_arith)
                requires
                    c as int == (size as int) * ((c as int) / (size as int)) + (c as int) % (
                    size as int),
                    0 <= (c as int) % (size as int),
                    c < size * size,
                    1 <= size;
        }
        let x = c / size;
        let y = c % size;
        let loc = Loc { x, y };
        proof {
            assert(loc.cell_id(size as int) == c);
        }
        let w = seed_width(self.cfg);
        let cx = sample_axis(rng, x, w, size);
        let cy = sample_axis(rng, y, w, size);
        let pixel = Pixel { color, loc, center: Loc { x: cx, y: cy } };
        self.grid.put(pixel);
        self.lookback.push(pixel);
        self.placed = self.placed + 1;
    }

    /// One iteration of the generation loop: draw a color; in the seeding
    /// phase place it at a random open cell, and in the growth phase walk
    /// the boundary around the nearest-colored recent pixel, committing at
    /// the open cell found or falling back to random placement.
    pub fn step(&mut self, rng: &mut StdRng)
        requires
            old(self).wf(),
            old(self).placed < old(self).cfg.size * old(self).cfg.size,
        ensures
            final(self).wf(),
            final(self).cfg == old(self).cfg,
            final(self).placed == old(self).placed + 1,
            forall|c: int|
                0 <= c < old(self).grid@.len() && (#[trigger] old(self).grid@[c]) is Some
                    ==> final(self).grid@[c] == old(self).grid@[c],
    {
        let r = random_byte(rng);
        let g = random_byte(rng);
        let b = random_byte(rng);
        let color = Color { r, g, b };
        if self.placed < self.cfg.num_centers {
            self.place_random(rng, color);
        } else {
            let nearest = self.lookback.nearest(color);
            proof {
                let i = choose|i: int|
                    is_first_nearest(self.lookback@, color, i) && nearest == self.lookback@[i];
                assert(self.lookback@[i].loc.in_bounds(self.cfg.size as int));
            }
            let (outcome, _steps) = boundary_walk(&self.grid, nearest);
            match outcome {
                WalkOutcome::Fallback => {
                    self.place_random(rng, color);
                }
                WalkOutcome::Open(l) => {
                    let size = self.cfg.size;
                    proof {
                        assert(size * size <= 0x1000_0000) by (nonlinear_arith)
                            requires 1 <= size <= 16384;
                    }
                    let dsq = color_dist_sq(color, nearest.color);
                    let w = growth_width(self.cfg, dsq);
                    let cx = sample_axis(rng, nearest.center.x, w, size);
                    let cy = sample_axis(rng, nearest.center.y, w, size);
                    let pixel = Pixel { color, loc: l, center: Loc { x: cx, y: cy } };
                    let cell = self.grid.cell_index(l);
                    self.grid.put(pixel);
                    let was_open = self.open_cells.remove(cell);
                    proof {
                        assert(was_open);
                    }
                    self.lookback.push(pixel);
                    self.placed = self.placed + 1;
                }
            }
        }
    }
}

/// Completeness: once `size * size` placements are done, every grid cell is
/// filled and the open set is empty.
pub proof fn lemma_generation_complete(s: GenState)
    requires
        s.wf(),
        s.placed == s.cfg.size * s.cfg.size,
    ensures
        s.open_cells.len() == 0,
        forall|c: int| 0 <= c < s.grid@.len() ==> (#[trigger] s.grid@[c]) is Some,
{
    s.open_cells.lemma_empty();
    assert forall|c: int| 0 <= c < s.grid@.len() implies s.grid@[c] is Some by {
        assert(!s.open_cells.contains(c));
    }
}

/// Set/Grid partition: in a well-formed state, open-set membership and
/// filled cells are disjoint and together cover the whole coordinate space.
pub proof fn lemma_partition(s: GenState, c: int)
    requires
        s.wf(),
        0 <= c < s.cfg.size * s.cfg.size,
    ensures
        s.open_cells.contains(c) <==> s.grid@[c] is None,
{
}

/// Runs the whole generation loop for the given configuration and seed and
/// returns the finished grid: well-formed, every cell filled exactly once
/// with an in-bounds pixel keyed by its own location.
pub fn generate(cfg: Config, seed: u64) -> (grid: Grid)
    requires
        cfg.valid(),
    ensures
        grid.wf(),
        grid.spec_size() == cfg.size,
        forall|c: int| 0 <= c < grid@.len() ==> (#[trigger] grid@[c]) is Some,
        forall|c: int|
            0 <= c < grid@.len() ==> (#[trigger] grid@[c]->0).loc.in_bounds(cfg.size as int)
                && grid@[c]->0.center.in_bounds(cfg.size as int),
        forall|c1: int, c2: int|
            0 <= c1 < grid@.len() && 0 <= c2 < grid@.len() && c1 != c2
                ==> (#[trigger] grid@[c1]->0).loc != (#[trigger] grid@[c2]->0).loc,
{
    let mut rng = new_rng(seed);
    let mut state = GenState::new(cfg);
    proof {
        assert(cfg.size * cfg.size <= 0x1000_0000) by (nonlinear_arith)
            requires 1 <= cfg.size <= 16384;
    }
    let n: usize = cfg.size * cfg.size;
    while state.placed < n
        invariant
            state.wf(),
            state.cfg == cfg,
            n == cfg.size * cfg.size,
        decreases n - state.placed,
    {
        state.step(&mut rng);
    }
    proof {
        lemma_generation_complete(state);
        assert forall|c1: int, c2: int|
            0 <= c1 < state.grid@.len() && 0 <= c2 < state.grid@.len() && c1 != c2
                implies (state.grid@[c1]->0).loc != (state.grid@[c2]->0).loc by {
            state.grid.lemma_loc_unique(c1, c2);
        }
    }
    state.grid
}

} // verus!
