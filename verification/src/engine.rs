use crate::grid::{index_of, neighbors_spec, Grid};
use crate::random::{bernoulli, rng_from_seed};
use crate::rule::{burning_count, count_burning, draw_ok, next_state, step_cell};
use crate::state::{Coordinate, FireError, Probability, VegetationState};
use vstd::arithmetic::div_mod::lemma_fundamental_div_mod_converse;
use vstd::prelude::*;

verus! {

/// The committed states of the clipped Moore neighborhood of (x, y), in
/// neighbor order.
pub open spec fn neighbor_states(
    g: Seq<VegetationState>,
    w: int,
    h: int,
    x: int,
    y: int,
) -> Seq<VegetationState> {
    neighbors_spec(x, y, w, h).map_values(|c: Coordinate| g[index_of(c.x as int, c.y as int, w)])
}

/// The next state of the cell at row-major index k of generation `g`, for
/// the given draw outcomes: the transition rule applied to the cell's own
/// state and its burning-neighbor count, both read from `g` alone.
pub open spec fn cell_next(
    g: Seq<VegetationState>,
    w: int,
    h: int,
    k: int,
    fire: bool,
    regrow: bool,
) -> VegetationState {
    step_cell(g[k], burning_count(neighbor_states(g, w, h, k % w, k / w)), fire, regrow)
}

/// The whole next generation for per-cell draw outcomes `fires` / `regrows`:
/// every cell steps from the same frozen snapshot `g`, so the result does not
/// depend on any visiting order.
pub open spec fn next_gen(
    g: Seq<VegetationState>,
    w: int,
    h: int,
    fires: Seq<bool>,
    regrows: Seq<bool>,
) -> Seq<VegetationState> {
    Seq::new(g.len(), |k: int| cell_next(g, w, h, k, fires[k], regrows[k]))
}

/// Every draw of the sequence is admissible for probability p.
pub open spec fn draws_ok(p: Probability, ds: Seq<bool>) -> bool {
    forall|k: int| 0 <= k < ds.len() ==> draw_ok(p, #[trigger] ds[k])
}

/// How one tick relates the old committed generation to the new one: some
/// admissible per-cell draws turn `g0` into `g1` pointwise, each cell reading
/// only `g0`.
pub open spec fn tick_rel(
    g0: Seq<VegetationState>,
    g1: Seq<VegetationState>,
    w: int,
    h: int,
    p_fire: Probability,
    p_regrow: Probability,
) -> bool {
    exists|fires: Seq<bool>, regrows: Seq<bool>|
        fires.len() == g0.len() && regrows.len() == g0.len() && draws_ok(p_fire, fires)
            && draws_ok(p_regrow, regrows) && g1 == #[trigger] next_gen(g0, w, h, fires, regrows)
}

/// What one pause toggle does to the running flag.
pub open spec fn toggled(running: bool) -> bool {
    !running
}

/// The automaton engine: a grid, the two transition probabilities, the pause
/// flag, and the pseudo-random source for the stochastic draws.
pub struct Engine {
    grid: Grid,
    running: bool,
    p_fire: Probability,
    p_regrow: Probability,
    rng: rand::rngs::StdRng,
}

impl Engine {
    pub closed spec fn spec_grid(self) -> Grid {
        self.grid
    }

    pub closed spec fn spec_running(self) -> bool {
        self.running
    }

    pub closed spec fn spec_p_fire(self) -> Probability {
        self.p_fire
    }

    pub closed spec fn spec_p_regrow(self) -> Probability {
        self.p_regrow
    }

    /// The committed generation visible to external readers.
    pub open spec fn committed(self) -> Seq<VegetationState> {
        self.spec_grid().committed_gen()
    }

    pub open spec fn wf(self) -> bool {
        self.spec_grid().wf() && self.spec_p_fire().wf() && self.spec_p_regrow().wf()
    }

    /// Builds a running engine over a grid whose committed generation is
    /// `init`, read row major, with the draw stream seeded by `seed`. Fails
    /// with `InvalidConfiguration` exactly when a dimension is not positive,
    /// a probability is malformed, or `init` does not cover the extent.
    pub fn new(
        width: i32,
        height: i32,
        p_fire: Probability,
        p_regrow: Probability,
        seed: u64,
        init: Vec<VegetationState>,
    ) -> (r: Result<Engine, FireError>)
        ensures
            r is Ok <==> (1 <= width && 1 <= height && p_fire.wf() && p_regrow.wf() && init@.len()
                == width * height),
            r is Ok ==> {
                let e = r->Ok_0;
                &&& e.wf()
                &&& e.spec_running()
                &&& e.spec_grid().spec_width() == width
                &&& e.spec_grid().spec_height() == height
                &&& e.committed() == init@
                &&& e.spec_p_fire() == p_fire
                &&& e.spec_p_regrow() == p_regrow
            },
            r is Err ==> r->Err_0 == FireError::InvalidConfiguration,
    {
        if !(1 <= p_fire.den && p_fire.num <= p_fire.den) {
            return Err(FireError::InvalidConfiguration);
        }
        if !(1 <= p_regrow.den && p_regrow.num <= p_regrow.den) {
            return Err(FireError::InvalidConfiguration);
        }
        match Grid::new(width, height, init) {
            Err(e) => Err(e),
            Ok(grid) => Ok(
                Engine { grid, running: true, p_fire, p_regrow, rng: rng_from_seed(seed) },
            ),
        }
    }

    /// Builds a running engine whose initial generation is drawn cell by
    /// cell: Green with probability `p_green`, else Empty — and, like `new`,
    /// fails exactly on a malformed configuration. The extent must also fit
    /// in a machine word.
    pub fn new_random(
        width: i32,
        height: i32,
        p_fire: Probability,
        p_regrow: Probability,
        p_green: Probability,
        seed: u64,
    ) -> (r: Result<Engine, FireError>)
        ensures
            r is Ok <==> (1 <= width && 1 <= height && p_fire.wf() && p_regrow.wf()
                && p_green.wf() && width * height <= usize::MAX),
            r is Ok ==> {
                let e = r->Ok_0;
                &&& e.wf()
                &&& e.spec_running()
                &&& e.spec_grid().spec_width() == width
                &&& e.spec_grid().spec_height() == height
                &&& e.spec_p_fire() == p_fire
                &&& e.spec_p_regrow() == p_regrow
                &&& forall|k: int|
                    0 <= k < e.committed().len() ==> (#[trigger] e.committed()[k] is Green
                        || e.committed()[k] is Empty) && draw_ok(p_green, e.committed()[k] is Green)
            },
            r is Err ==> r->Err_0 == FireError::InvalidConfiguration,
    {
        if width < 1 || height < 1 {
            return Err(FireError::InvalidConfiguration);
        }
        if !(1 <= p_green.den && p_green.num <= p_green.den) {
            return Err(FireError::InvalidConfiguration);
        }
        let mut rng = rng_from_seed(seed);
        match (width as usize).checked_mul(height as usize) {
            None => Err(FireError::InvalidConfiguration),
            Some(cells) => {
                let init = random_states(cells, p_green, &mut rng);
                Self::new(width, height, p_fire, p_regrow, seed, init)
            },
        }
    }

    pub fn width(&self) -> (w: i32)
        ensures
            w == self.spec_grid().spec_width(),
    {
        self.grid.width()
    }

    pub fn height(&self) -> (h: i32)
        ensures
            h == self.spec_grid().spec_height(),
    {
        self.grid.height()
    }

    pub fn is_running(&self) -> (r: bool)
        ensures
            r == self.spec_running(),
    {
        self.running
    }

    /// The committed state at `c`, for the external renderer; fails with
    /// `OutOfBounds` exactly when `c` lies outside the extent.
    pub fn get(&self, c: Coordinate) -> (r: Result<VegetationState, FireError>)
        requires
            self.wf(),
        ensures
            r is Ok <==> self.spec_grid().spec_in_bounds(c),
            r is Ok ==> r->Ok_0 == self.spec_grid().spec_state_at(c),
            r is Err ==> r->Err_0 == FireError::OutOfBounds,
    {
        self.grid.get(c)
    }

    /// Flips the pause flag once (edge triggered); everything else — grid
    /// data, probabilities — is untouched.
    pub fn toggle_pause(&mut self)
        ensures
            final(self).spec_running() == toggled(old(self).spec_running()),
            final(self).spec_grid() == old(self).spec_grid(),
            final(self).spec_p_fire() == old(self).spec_p_fire(),
            final(self).spec_p_regrow() == old(self).spec_p_regrow(),
    {
        self.running = !self.running;
    }

    /// One synchronous generation step. When paused, the grid is untouched.
    /// When running, every cell of the next committed generation is the
    /// transition rule applied to that cell's state and burning-neighbor
    /// count in the old committed generation, under per-cell draws admitted
    /// by the two probabilities (`tick_rel`); the old committed generation
    /// becomes the staging buffer of the next tick.
    pub fn tick(&mut self)
        requires
            old(self).wf(),
        ensures
            final(self).wf(),
            final(self).spec_running() == old(self).spec_running(),
            final(self).spec_p_fire() == old(self).spec_p_fire(),
            final(self).spec_p_regrow() == old(self).spec_p_regrow(),
            final(self).spec_grid().spec_width() == old(self).spec_grid().spec_width(),
            final(self).spec_grid().spec_height() == old(self).spec_grid().spec_height(),
            !old(self).spec_running() ==> *final(self) == *old(self),
            old(self).spec_running() ==> tick_rel(
                old(self).committed(),
                final(self).committed(),
                old(self).spec_grid().spec_width(),
                old(self).spec_grid().spec_height(),
                old(self).spec_p_fire(),
                old(self).spec_p_regrow(),
            ),
            old(self).spec_running() ==> final(self).spec_grid().staging_gen() == old(
                self,
            ).committed(),
    {
        if !self.running {
            return ;
        }
        let w_i = self.grid.width();
        let h_i = self.grid.height();
        let w = w_i as usize;
        let h = h_i as usize;
        let ghost g0 = self.grid.committed_gen();
        let ghost mut fires: Seq<bool> = Seq::<bool>::empty();
        let ghost mut regrows: Seq<bool> = Seq::<bool>::empty();
        let mut y: usize = 0;
        while y < h
            invariant
                y <= h,
                self.wf(),
                self.spec_running() == old(self).spec_running(),
                self.spec_p_fire() == old(self).spec_p_fire(),
                self.spec_p_regrow() == old(self).spec_p_regrow(),
                self.spec_grid().spec_width() == w as int,
                self.spec_grid().spec_height() == h as int,
                old(self).spec_grid().spec_width() == w as int,
                old(self).spec_grid().spec_height() == h as int,
                self.spec_grid().committed_gen() == g0,
                g0 == old(self).committed(),
                g0.len() == w as int * h as int,
                fires.len() == y * w,
                regrows.len() == y * w,
                draws_ok(self.spec_p_fire(), fires),
                draws_ok(self.spec_p_regrow(), regrows),
                forall|j: int|
                    0 <= j < fires.len() ==> self.spec_grid().staging_gen()[j] == cell_next(
                        g0,
                        w as int,
                        h as int,
                        j,
                        fires[j],
                        regrows[j],
                    ),
            decreases h - y,
        {
            let mut x: usize = 0;
            while x < w
                invariant
                    x <= w,
                    y < h,
                    self.wf(),
                    self.spec_running() == old(self).spec_running(),
                    self.spec_p_fire() == old(self).spec_p_fire(),
                    self.spec_p_regrow() == old(self).spec_p_regrow(),
                    self.spec_grid().spec_width() == w as int,
                    self.spec_grid().spec_height() == h as int,
                    old(self).spec_grid().spec_width() == w as int,
                    old(self).spec_grid().spec_height() == h as int,
                    self.spec_grid().committed_gen() == g0,
                    g0 == old(self).committed(),
                    g0.len() == w as int * h as int,
                    fires.len() == y * w + x,
                    regrows.len() == y * w + x,
                    draws_ok(self.spec_p_fire(), fires),
                    draws_ok(self.spec_p_regrow(), regrows),
                    forall|j: int|
                        0 <= j < fires.len() ==> self.spec_grid().staging_gen()[j] == cell_next(
                            g0,
                            w as int,
                            h as int,
                            j,
                            fires[j],
                            regrows[j],
                        ),
                decreases w - x,
            {
                let ghost k: int = y as int * w as int + x as int;
                proof {
                    assert(0 <= k < w as int * h as int) by (nonlinear_arith)
                        requires
                            0 <= x < w as int,
                            0 <= y < h as int,
                            k == y as int * w as int + x as int,
                    ;
                    lemma_fundamental_div_mod_converse(k, w as int, y as int, x as int);
                }
                let c = Coordinate { x: x as i32, y: y as i32 };
                proof {
                    assert(c.x as int == x as int && c.y as int == y as int);
                    assert(self.spec_grid().spec_in_bounds(c));
                }
                let nbrs = self.grid.neighbors(c);
                let mut states: Vec<VegetationState> = Vec::new();
                let mut t: usize = 0;
                while t < nbrs.len()
                    invariant
                        t <= nbrs@.len(),
                        self.wf(),
                        self.spec_grid().committed_gen() == g0,
                        self.spec_grid().spec_width() == w as int,
                        self.spec_grid().spec_height() == h as int,
                        nbrs@ == neighbors_spec(c.x as int, c.y as int, w as int, h as int),
                        forall|i: int|
                            0 <= i < nbrs@.len() ==> self.spec_grid().spec_in_bounds(
                                #[trigger] nbrs@[i],
                            ),
                        states@.len() == t,
                        forall|i: int|
                            0 <= i < t ==> states@[i] == g0[index_of(
                                (#[trigger] nbrs@[i]).x as int,
                                nbrs@[i].y as int,
                                w as int,
                            )],
                    decreases nbrs@.len() - t,
                {
                    let nc = nbrs[t];
                    let s = self.grid.state_at(nc);
                    states.push(s);
                    t = t + 1;
                }
                proof {
                    assert(states@ =~= neighbor_states(g0, w as int, h as int, x as int, y as int));
                }
                let cur = self.grid.state_at(c);
                let burning = count_burning(&states);
                let mut fire_draw = false;
                let mut regrow_draw = false;
                let ghost mut fire_rec: bool = self.spec_p_fire().num > 0;
                let ghost mut regrow_rec: bool = self.spec_p_regrow().num > 0;
                if cur == VegetationState::Green && burning == 0 {
                    fire_draw = bernoulli(&mut self.rng, self.p_fire.num, self.p_fire.den);
                    proof {
                        fire_rec = fire_draw;
                    }
                }
                if cur == VegetationState::Empty {
                    regrow_draw = bernoulli(&mut self.rng, self.p_regrow.num, self.p_regrow.den);
                    proof {
                        regrow_rec = regrow_draw;
                    }
                }
                let next = next_state(cur, burning, fire_draw, regrow_draw);
                proof {
                    assert(draw_ok(self.spec_p_fire(), fire_rec));
                    assert(draw_ok(self.spec_p_regrow(), regrow_rec));
                    assert(k % (w as int) == x as int && k / (w as int) == y as int);
                    assert(cur == g0[k]);
                    assert(next == cell_next(g0, w as int, h as int, k, fire_rec, regrow_rec));
                }
                self.grid.commit_next(c, next);
                proof {
                    fires = fires.push(fire_rec);
                    regrows = regrows.push(regrow_rec);
                    assert(forall|j: int|
                        0 <= j < fires.len() ==> self.spec_grid().staging_gen()[j] == cell_next(
                            g0,
                            w as int,
                            h as int,
                            j,
                            fires[j],
                            regrows[j],
                        ));
                }
                x = x + 1;
            }
            proof {
                assert((y as int + 1) * (w as int) == y as int * w as int + w as int)
                    by (nonlinear_arith);
            }
            y = y + 1;
        }
        proof {
            assert(h as int * w as int == w as int * h as int) by (nonlinear_arith);
            assert(fires.len() == g0.len());
            assert(self.spec_grid().staging_gen() =~= next_gen(
                g0,
                w as int,
                h as int,
                fires,
                regrows,
            ));
        }
        self.grid.swap_generations();
        proof {
            assert(self.committed() == next_gen(g0, w as int, h as int, fires, regrows));
            assert(tick_rel(
                g0,
                self.committed(),
                w as int,
                h as int,
                self.spec_p_fire(),
                self.spec_p_regrow(),
            ));
        }
    }
}

/// Draws `count` initial cell states: Green on a Bernoulli draw with
/// probability `p_green`, else Empty.
pub fn random_states(count: usize, p_green: Probability, rng: &mut rand::rngs::StdRng) -> (r: Vec<
    VegetationState,
>)
    requires
        p_green.wf(),
    ensures
        r@.len() == count,
        forall|k: int|
            0 <= k < count ==> (#[trigger] r@[k] is Green || r@[k] is Empty) && draw_ok(
                p_green,
                r@[k] is Green,
            ),
{
    let mut r: Vec<VegetationState> = Vec::new();
    let mut i: usize = 0;
    while i < count
        invariant
            i <= count,
            p_green.wf(),
            r@.len() == i,
            forall|k: int|
                0 <= k < i ==> (#[trigger] r@[k] is Green || r@[k] is Empty) && draw_ok(
                    p_green,
                    r@[k] is Green,
                ),
        decreases count - i,
    {
        if bernoulli(rng, p_green.num, p_green.den) {
            r.push(VegetationState::Green);
        } else {
            r.push(VegetationState::Empty);
        }
        i = i + 1;
    }
    r
}

/// Burning decays across a whole tick: wherever the old generation burns,
/// any admissible next generation is Empty there, with no randomness
/// involved.
pub proof fn lemma_tick_burning_decays(
    g0: Seq<VegetationState>,
    g1: Seq<VegetationState>,
    w: int,
    h: int,
    p_fire: Probability,
    p_regrow: Probability,
    k: int,
)
    requires
        tick_rel(g0, g1, w, h, p_fire, p_regrow),
        0 <= k < g0.len(),
        g0[k] is Burning,
    ensures
        g1[k] is Empty,
{
    let (fires, regrows) = choose|fires: Seq<bool>, regrows: Seq<bool>|
        fires.len() == g0.len() && regrows.len() == g0.len() && draws_ok(p_fire, fires)
            && draws_ok(p_regrow, regrows) && g1 == #[trigger] next_gen(g0, w, h, fires, regrows);
    assert(g1[k] == cell_next(g0, w, h, k, fires[k], regrows[k]));
}

/// Ignition spreads across a whole tick: a Green cell with at least one
/// Burning neighbor in the old generation is Burning in any admissible next
/// generation, whatever the draws.
pub proof fn lemma_tick_ignition_spreads(
    g0: Seq<VegetationState>,
    g1: Seq<VegetationState>,
    w: int,
    h: int,
    p_fire: Probability,
    p_regrow: Probability,
    k: int,
)
    requires
        tick_rel(g0, g1, w, h, p_fire, p_regrow),
        0 <= k < g0.len(),
        g0[k] is Green,
        burning_count(neighbor_states(g0, w, h, k % w, k / w)) >= 1,
    ensures
        g1[k] is Burning,
{
    let (fires, regrows) = choose|fires: Seq<bool>, regrows: Seq<bool>|
        fires.len() == g0.len() && regrows.len() == g0.len() && draws_ok(p_fire, fires)
            && draws_ok(p_regrow, regrows) && g1 == #[trigger] next_gen(g0, w, h, fires, regrows);
    assert(g1[k] == cell_next(g0, w, h, k, fires[k], regrows[k]));
}

/// With both probabilities zero the tick is fully deterministic: every cell
/// of the new generation is the rule applied with both draws false, a pure
/// function of the old generation alone — whatever order the cells were
/// processed in.
pub proof fn lemma_tick_deterministic_when_certain(
    g0: Seq<VegetationState>,
    g1: Seq<VegetationState>,
    w: int,
    h: int,
    p_fire: Probability,
    p_regrow: Probability,
    k: int,
)
    requires
        tick_rel(g0, g1, w, h, p_fire, p_regrow),
        p_fire.num == 0,
        p_regrow.num == 0,
        0 <= k < g0.len(),
    ensures
        g1[k] == step_cell(
            g0[k],
            burning_count(neighbor_states(g0, w, h, k % w, k / w)),
            false,
            false,
        ),
{
    let (fires, regrows) = choose|fires: Seq<bool>, regrows: Seq<bool>|
        fires.len() == g0.len() && regrows.len() == g0.len() && draws_ok(p_fire, fires)
            && draws_ok(p_regrow, regrows) && g1 == #[trigger] next_gen(g0, w, h, fires, regrows);
    assert(draw_ok(p_fire, fires[k]) && draw_ok(p_regrow, regrows[k]));
    assert(!fires[k] && !regrows[k]);
    assert(g1[k] == cell_next(g0, w, h, k, fires[k], regrows[k]));
}

/// Pause idempotence: one toggle flips the running flag, a second restores
/// it.
pub proof fn lemma_toggle_twice(running: bool)
    ensures
        toggled(toggled(running)) == running,
{
}

} // verus!
