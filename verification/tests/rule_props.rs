use forest_fire::rule::{count_burning, next_state, transition};
use forest_fire::state::{FireError, Probability, VegetationState};
use rand::SeedableRng;

fn prob(num: u32, den: u32) -> Probability {
    Probability::new(num, den).unwrap()
}

#[test]
fn rule_table_green_with_burning_neighbor_burns() {
    assert_eq!(
        next_state(VegetationState::Green, 1, false, false),
        VegetationState::Burning
    );
    assert_eq!(
        next_state(VegetationState::Green, 8, false, true),
        VegetationState::Burning
    );
}

#[test]
fn rule_table_isolated_green_follows_fire_draw() {
    assert_eq!(
        next_state(VegetationState::Green, 0, true, false),
        VegetationState::Burning
    );
    assert_eq!(
        next_state(VegetationState::Green, 0, false, true),
        VegetationState::Green
    );
}

#[test]
fn rule_table_burning_always_decays() {
    for burning in [0usize, 1, 8] {
        for fire in [false, true] {
            for regrow in [false, true] {
                assert_eq!(
                    next_state(VegetationState::Burning, burning, fire, regrow),
                    VegetationState::Empty
                );
            }
        }
    }
}

#[test]
fn rule_table_empty_follows_regrow_draw() {
    assert_eq!(
        next_state(VegetationState::Empty, 3, true, true),
        VegetationState::Green
    );
    assert_eq!(
        next_state(VegetationState::Empty, 3, true, false),
        VegetationState::Empty
    );
}

#[test]
fn rule_closure_over_all_inputs() {
    let states = [
        VegetationState::Green,
        VegetationState::Burning,
        VegetationState::Empty,
    ];
    for cur in states {
        for burning in 0usize..=8 {
            for fire in [false, true] {
                for regrow in [false, true] {
                    let next = next_state(cur, burning, fire, regrow);
                    assert!(states.contains(&next));
                }
            }
        }
    }
}

#[test]
fn count_burning_counts_exactly() {
    let v = vec![
        VegetationState::Green,
        VegetationState::Burning,
        VegetationState::Empty,
        VegetationState::Burning,
    ];
    assert_eq!(count_burning(&v), 2);
    assert_eq!(count_burning(&Vec::new()), 0);
}

#[test]
fn transition_deterministic_under_fixed_randomness() {
    let neighbors = vec![VegetationState::Green, VegetationState::Empty];
    let mut a = rand::rngs::StdRng::seed_from_u64(42);
    let mut b = rand::rngs::StdRng::seed_from_u64(42);
    for _ in 0..200 {
        let ra = transition(
            VegetationState::Green,
            &neighbors,
            prob(1, 3),
            prob(1, 2),
            &mut a,
        );
        let rb = transition(
            VegetationState::Green,
            &neighbors,
            prob(1, 3),
            prob(1, 2),
            &mut b,
        );
        assert_eq!(ra, rb);
    }
}

#[test]
fn isolated_green_burns_with_probability_p_fire() {
    let no_neighbors: Vec<VegetationState> = Vec::new();
    let mut rng = rand::rngs::StdRng::seed_from_u64(7);
    let trials = 10_000;
    let mut burned = 0;
    for _ in 0..trials {
        let r = transition(
            VegetationState::Green,
            &no_neighbors,
            prob(1, 10),
            prob(1, 100),
            &mut rng,
        );
        match r {
            VegetationState::Burning => burned += 1,
            VegetationState::Green => {}
            VegetationState::Empty => panic!("isolated green cell can only stay or ignite"),
        }
    }
    // expectation 1000, five standard deviations is 150
    assert!((850..=1150).contains(&burned), "burned = {}", burned);
}

#[test]
fn isolated_green_never_burns_when_p_fire_zero() {
    let no_neighbors: Vec<VegetationState> = Vec::new();
    let mut rng = rand::rngs::StdRng::seed_from_u64(7);
    for _ in 0..1000 {
        let r = transition(
            VegetationState::Green,
            &no_neighbors,
            prob(0, 1),
            prob(1, 100),
            &mut rng,
        );
        assert_eq!(r, VegetationState::Green);
    }
}

#[test]
fn isolated_green_always_burns_when_p_fire_one() {
    let no_neighbors: Vec<VegetationState> = Vec::new();
    let mut rng = rand::rngs::StdRng::seed_from_u64(7);
    for _ in 0..1000 {
        let r = transition(
            VegetationState::Green,
            &no_neighbors,
            prob(1, 1),
            prob(1, 100),
            &mut rng,
        );
        assert_eq!(r, VegetationState::Burning);
    }
}

#[test]
fn probability_rejects_ratios_outside_unit_interval() {
    assert_eq!(
        Probability::new(3, 2),
        Err(FireError::InvalidConfiguration)
    );
    assert_eq!(
        Probability::new(0, 0),
        Err(FireError::InvalidConfiguration)
    );
    assert!(Probability::new(0, 1).is_ok());
    assert!(Probability::new(1, 1).is_ok());
    assert!(Probability::new(1, 1000).is_ok());
}
