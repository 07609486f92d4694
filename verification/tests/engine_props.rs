use forest_fire::engine::Engine;
use forest_fire::grid::Grid;
use forest_fire::state::{Coordinate, FireError, Probability, VegetationState};

fn prob(num: u32, den: u32) -> Probability {
    Probability::new(num, den).unwrap()
}

fn coord(x: i32, y: i32) -> Coordinate {
    Coordinate { x, y }
}

fn snapshot(e: &Engine, width: i32, height: i32) -> Vec<VegetationState> {
    let mut v = Vec::new();
    for y in 0..height {
        for x in 0..width {
            v.push(e.get(coord(x, y)).unwrap());
        }
    }
    v
}

#[test]
fn corner_has_exactly_three_neighbors_all_inside() {
    let grid = Grid::new(4, 5, vec![VegetationState::Empty; 20]).unwrap();
    let n = grid.neighbors(coord(0, 0));
    assert_eq!(n.len(), 3);
    for c in &n {
        assert!(0 <= c.x && c.x < 4 && 0 <= c.y && c.y < 5);
    }
    assert_eq!(n, vec![coord(0, 1), coord(1, 1), coord(1, 0)]);
}

#[test]
fn interior_cell_has_eight_neighbors_in_fixed_order() {
    let grid = Grid::new(3, 3, vec![VegetationState::Empty; 9]).unwrap();
    let n = grid.neighbors(coord(1, 1));
    assert_eq!(
        n,
        vec![
            coord(1, 2),
            coord(2, 2),
            coord(2, 1),
            coord(2, 0),
            coord(1, 0),
            coord(0, 0),
            coord(0, 1),
            coord(0, 2),
        ]
    );
}

#[test]
fn degenerate_single_cell_grid_has_no_neighbors() {
    let grid = Grid::new(1, 1, vec![VegetationState::Green]).unwrap();
    assert!(grid.neighbors(coord(0, 0)).is_empty());
}

#[test]
fn get_fails_out_of_bounds() {
    let grid = Grid::new(2, 2, vec![VegetationState::Green; 4]).unwrap();
    assert_eq!(grid.get(coord(2, 0)), Err(FireError::OutOfBounds));
    assert_eq!(grid.get(coord(0, -1)), Err(FireError::OutOfBounds));
    assert_eq!(grid.get(coord(1, 1)), Ok(VegetationState::Green));
}

#[test]
fn cell_at_pairs_state_with_coordinate() {
    let grid = Grid::new(2, 1, vec![VegetationState::Green, VegetationState::Burning]).unwrap();
    let cell = grid.cell_at(coord(1, 0)).unwrap();
    assert_eq!(cell.state, VegetationState::Burning);
    assert_eq!(cell.coordinate, coord(1, 0));
    assert_eq!(grid.cell_at(coord(5, 5)), Err(FireError::OutOfBounds));
}

#[test]
fn staged_states_invisible_until_swap() {
    let mut grid = Grid::new(2, 1, vec![VegetationState::Green, VegetationState::Green]).unwrap();
    grid.commit_next(coord(0, 0), VegetationState::Burning);
    grid.commit_next(coord(1, 0), VegetationState::Empty);
    assert_eq!(grid.get(coord(0, 0)), Ok(VegetationState::Green));
    assert_eq!(grid.get(coord(1, 0)), Ok(VegetationState::Green));
    grid.swap_generations();
    assert_eq!(grid.get(coord(0, 0)), Ok(VegetationState::Burning));
    assert_eq!(grid.get(coord(1, 0)), Ok(VegetationState::Empty));
}

#[test]
fn commit_next_twice_last_write_wins() {
    let mut grid = Grid::new(1, 1, vec![VegetationState::Green]).unwrap();
    grid.commit_next(coord(0, 0), VegetationState::Burning);
    grid.commit_next(coord(0, 0), VegetationState::Empty);
    grid.swap_generations();
    assert_eq!(grid.get(coord(0, 0)), Ok(VegetationState::Empty));
}

#[test]
fn engine_rejects_invalid_configuration() {
    let p = prob(1, 1000);
    let q = prob(1, 100);
    assert!(matches!(
        Engine::new(0, 3, p, q, 1, Vec::new()),
        Err(FireError::InvalidConfiguration)
    ));
    assert!(matches!(
        Engine::new(3, -1, p, q, 1, Vec::new()),
        Err(FireError::InvalidConfiguration)
    ));
    // initial generation of the wrong length
    assert!(matches!(
        Engine::new(2, 2, p, q, 1, vec![VegetationState::Green; 3]),
        Err(FireError::InvalidConfiguration)
    ));
    // a probability built by hand outside [0, 1]
    let bad = Probability { num: 2, den: 1 };
    assert!(matches!(
        Engine::new(2, 2, bad, q, 1, vec![VegetationState::Green; 4]),
        Err(FireError::InvalidConfiguration)
    ));
}

#[test]
fn burning_decays_to_empty_in_one_tick() {
    let mut e = Engine::new(1, 1, prob(1, 2), prob(1, 2), 3, vec![VegetationState::Burning])
        .unwrap();
    e.tick();
    assert_eq!(e.get(coord(0, 0)), Ok(VegetationState::Empty));
}

#[test]
fn end_to_end_center_fire_spreads_to_all_neighbors() {
    // 3 x 3, center Burning, all 8 neighbors Green, p_fire = 0: after one
    // tick the center is Empty and all former neighbors are Burning.
    let mut init = vec![VegetationState::Green; 9];
    init[4] = VegetationState::Burning;
    let mut e = Engine::new(3, 3, prob(0, 1), prob(0, 1), 11, init).unwrap();
    e.tick();
    for y in 0..3 {
        for x in 0..3 {
            let expected = if x == 1 && y == 1 {
                VegetationState::Empty
            } else {
                VegetationState::Burning
            };
            assert_eq!(e.get(coord(x, y)), Ok(expected));
        }
    }
}

#[test]
fn generation_isolation_no_tick_order_dependency() {
    // Row of three: Burning, Green, Green with deterministic probabilities.
    // The rightmost cell must read its middle neighbor as Green (the frozen
    // tick-start snapshot), not as already Burning, whatever order the cells
    // were processed in.
    let init = vec![
        VegetationState::Burning,
        VegetationState::Green,
        VegetationState::Green,
    ];
    let mut e = Engine::new(3, 1, prob(0, 1), prob(0, 1), 5, init).unwrap();
    e.tick();
    assert_eq!(e.get(coord(0, 0)), Ok(VegetationState::Empty));
    assert_eq!(e.get(coord(1, 0)), Ok(VegetationState::Burning));
    assert_eq!(e.get(coord(2, 0)), Ok(VegetationState::Green));
}

#[test]
fn same_seed_same_history() {
    let make = || {
        Engine::new_random(16, 12, prob(1, 50), prob(1, 20), prob(1, 2), 99).unwrap()
    };
    let mut a = make();
    let mut b = make();
    for _ in 0..20 {
        a.tick();
        b.tick();
        assert_eq!(snapshot(&a, 16, 12), snapshot(&b, 16, 12));
    }
}

#[test]
fn certain_regrowth_and_impossible_regrowth() {
    // p_regrow = 1: an Empty cell regrows in one tick, always.
    let mut e = Engine::new(1, 1, prob(0, 1), prob(1, 1), 2, vec![VegetationState::Empty])
        .unwrap();
    e.tick();
    assert_eq!(e.get(coord(0, 0)), Ok(VegetationState::Green));
    // p_regrow = 0: an Empty cell never regrows.
    let mut e = Engine::new(1, 1, prob(0, 1), prob(0, 1), 2, vec![VegetationState::Empty])
        .unwrap();
    for _ in 0..50 {
        e.tick();
        assert_eq!(e.get(coord(0, 0)), Ok(VegetationState::Empty));
    }
}

#[test]
fn pause_idempotence_and_paused_tick_is_noop() {
    let mut init = vec![VegetationState::Green; 9];
    init[4] = VegetationState::Burning;
    let mut e = Engine::new(3, 3, prob(1, 2), prob(1, 2), 13, init).unwrap();
    assert!(e.is_running());
    e.toggle_pause();
    assert!(!e.is_running());
    let before = snapshot(&e, 3, 3);
    for _ in 0..10 {
        e.tick();
    }
    assert_eq!(snapshot(&e, 3, 3), before);
    e.toggle_pause();
    assert!(e.is_running());
    e.tick();
    assert_eq!(e.get(coord(1, 1)), Ok(VegetationState::Empty));
}

#[test]
fn random_seeding_respects_certain_and_impossible_draws() {
    let all_green = Engine::new_random(8, 8, prob(0, 1), prob(0, 1), prob(1, 1), 4).unwrap();
    let all_empty = Engine::new_random(8, 8, prob(0, 1), prob(0, 1), prob(0, 1), 4).unwrap();
    for y in 0..8 {
        for x in 0..8 {
            assert_eq!(all_green.get(coord(x, y)), Ok(VegetationState::Green));
            assert_eq!(all_empty.get(coord(x, y)), Ok(VegetationState::Empty));
        }
    }
}

#[test]
fn random_seeding_is_roughly_balanced_at_one_half() {
    let e = Engine::new_random(40, 40, prob(0, 1), prob(0, 1), prob(1, 2), 21).unwrap();
    let green = snapshot(&e, 40, 40)
        .iter()
        .filter(|s| **s == VegetationState::Green)
        .count();
    // expectation 800 of 1600, five standard deviations is 100
    assert!((700..=900).contains(&green), "green = {}", green);
}
