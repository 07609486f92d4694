use crate::random::bernoulli;
use crate::state::{Probability, VegetationState};
use vstd::prelude::*;

verus! {

/// How many states of the sequence are `Burning`.
pub open spec fn burning_count(s: Seq<VegetationState>) -> nat
    decreases s.len(),
{
    if s.len() == 0 {
        0
    } else {
        burning_count(s.drop_last()) + if s.last() is Burning {
            1nat
        } else {
            0nat
        }
    }
}

/// The transition rule with its two stochastic draws made explicit: `fire` is
/// the ignition draw (true with probability p_fire) and `regrow` the regrowth
/// draw (true with probability p_regrow). A Green cell with a burning
/// neighbor always ignites; an isolated Green cell ignites on the fire draw;
/// a Burning cell always decays to Empty; an Empty cell regrows on the
/// regrowth draw.
pub open spec fn step_cell(
    cur: VegetationState,
    burning: nat,
    fire: bool,
    regrow: bool,
) -> VegetationState {
    match cur {
        VegetationState::Green => if burning >= 1 {
            VegetationState::Burning
        } else if fire {
            VegetationState::Burning
        } else {
            VegetationState::Green
        },
        VegetationState::Burning => VegetationState::Empty,
        VegetationState::Empty => if regrow {
            VegetationState::Green
        } else {
            VegetationState::Empty
        },
    }
}

/// The outcomes a Bernoulli draw with probability `p` can have: an impossible
/// draw (p = 0) is never true, a certain draw (p = 1) is never false.
pub open spec fn draw_ok(p: Probability, b: bool) -> bool {
    (b ==> p.num > 0) && (!b ==> p.num < p.den)
}

/// The set of next states a cell can reach under the given probabilities:
/// exactly the values of `step_cell` over the draws that `draw_ok` admits.
pub open spec fn can_step(
    p_fire: Probability,
    p_regrow: Probability,
    cur: VegetationState,
    burning: nat,
    next: VegetationState,
) -> bool {
    match cur {
        VegetationState::Green => if burning >= 1 {
            next is Burning
        } else {
            (next is Burning && p_fire.num > 0) || (next is Green && p_fire.num < p_fire.den)
        },
        VegetationState::Burning => next is Empty,
        VegetationState::Empty => (next is Green && p_regrow.num > 0) || (next is Empty
            && p_regrow.num < p_regrow.den),
    }
}

/// Any outcome of `step_cell` under admissible draws satisfies `can_step`:
/// the per-draw description of the rule refines the per-probability one.
pub proof fn lemma_can_step_exact(
    p_fire: Probability,
    p_regrow: Probability,
    cur: VegetationState,
    burning: nat,
    fire: bool,
    regrow: bool,
)
    requires
        p_fire.wf(),
        p_regrow.wf(),
        draw_ok(p_fire, fire),
        draw_ok(p_regrow, regrow),
    ensures
        can_step(p_fire, p_regrow, cur, burning, step_cell(cur, burning, fire, regrow)),
{
}

/// The deterministic core of the transition rule: the next state for given
/// current state, burning-neighbor count, and draw outcomes.
pub fn next_state(cur: VegetationState, burning: usize, fire: bool, regrow: bool) -> (r:
    VegetationState)
    ensures
        r == step_cell(cur, burning as nat, fire, regrow),
{
    match cur {
        VegetationState::Green => {
            if burning >= 1 {
                VegetationState::Burning
            } else if fire {
                VegetationState::Burning
            } else {
                VegetationState::Green
            }
        },
        VegetationState::Burning => VegetationState::Empty,
        VegetationState::Empty => {
            if regrow {
                VegetationState::Green
            } else {
                VegetationState::Empty
            }
        },
    }
}

/// Counts the burning states in a neighbor snapshot.
pub fn count_burning(states: &Vec<VegetationState>) -> (n: usize)
    ensures
        n == burning_count(states@),
{
    let mut n: usize = 0;
    let mut i: usize = 0;
    while i < states.len()
        invariant
            i <= states@.len(),
            n <= i,
            n == burning_count(states@.take(i as int)),
        decreases states@.len() - i,
    {
        proof {
            assert(states@.take(i + 1).drop_last() =~= states@.take(i as int));
            assert(states@.take(i + 1).last() == states@[i as int]);
        }
        if states[i] == VegetationState::Burning {
            n = n + 1;
        }
        i = i + 1;
    }
    proof {
        assert(states@.take(states@.len() as int) =~= states@);
    }
    n
}

/// One stochastic transition: draws from `rng` as the rule requires and
/// returns a next state that `can_step` admits for the current state and the
/// burning-neighbor count.
pub fn transition(
    cur: VegetationState,
    neighbor_states: &Vec<VegetationState>,
    p_fire: Probability,
    p_regrow: Probability,
    rng: &mut rand::rngs::StdRng,
) -> (r: VegetationState)
    requires
        p_fire.wf(),
        p_regrow.wf(),
    ensures
        can_step(p_fire, p_regrow, cur, burning_count(neighbor_states@), r),
{
    let burning = count_burning(neighbor_states);
    match cur {
        VegetationState::Green => {
            if burning >= 1 {
                VegetationState::Burning
            } else if bernoulli(rng, p_fire.num, p_fire.den) {
                VegetationState::Burning
            } else {
                VegetationState::Green
            }
        },
        VegetationState::Burning => VegetationState::Empty,
        VegetationState::Empty => {
            if bernoulli(rng, p_regrow.num, p_regrow.den) {
                VegetationState::Green
            } else {
                VegetationState::Empty
            }
        },
    }
}

/// Closure: the rule only ever yields one of the three vegetation states.
pub proof fn lemma_rule_closure(cur: VegetationState, burning: nat, fire: bool, regrow: bool)
    ensures
        step_cell(cur, burning, fire, regrow) is Green || step_cell(cur, burning, fire, regrow)
            is Burning || step_cell(cur, burning, fire, regrow) is Empty,
{
}

/// Determinism under fixed randomness: with the draw outcomes fixed, the rule
/// is a function of its inputs — equal inputs give equal next states.
pub proof fn lemma_rule_deterministic(
    c1: VegetationState,
    n1: nat,
    f1: bool,
    g1: bool,
    c2: VegetationState,
    n2: nat,
    f2: bool,
    g2: bool,
)
    requires
        c1 == c2,
        n1 == n2,
        f1 == f2,
        g1 == g2,
    ensures
        step_cell(c1, n1, f1, g1) == step_cell(c2, n2, f2, g2),
{
}

/// Burning decays: a Burning cell always becomes Empty, whatever the draws.
pub proof fn lemma_burning_decays(burning: nat, fire: bool, regrow: bool)
    ensures
        step_cell(VegetationState::Burning, burning, fire, regrow) is Empty,
{
}

/// Ignition spreads: a Green cell with at least one Burning neighbor always
/// becomes Burning, whatever the draws.
pub proof fn lemma_ignition_spreads(burning: nat, fire: bool, regrow: bool)
    requires
        burning >= 1,
    ensures
        step_cell(VegetationState::Green, burning, fire, regrow) is Burning,
{
}

/// Isolation: a Green cell with no Burning neighbor ignites exactly when the
/// ignition draw comes up true, and stays Green otherwise.
pub proof fn lemma_isolation_stability(fire: bool, regrow: bool)
    ensures
        step_cell(VegetationState::Green, 0, fire, regrow) == if fire {
            VegetationState::Burning
        } else {
            VegetationState::Green
        },
{
}

} // verus!
