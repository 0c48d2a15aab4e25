use conway_life::CellState;
use conway_life::ConwayState;
use conway_life::GenerationPair;

fn grid_with_alive(width: usize, height: usize, alive: &[(usize, usize)]) -> ConwayState {
    let mut g = ConwayState::new_dead(width, height);
    for &(x, y) in alive {
        g.set_cell(x, y, CellState::Alive);
    }
    g
}

fn alive_cells(g: &ConwayState) -> Vec<(usize, usize)> {
    let mut out = Vec::new();
    for y in 0..g.height() {
        for x in 0..g.width() {
            if matches!(g.get_cell(x, y), CellState::Alive) {
                out.push((x, y));
            }
        }
    }
    out
}

fn grids_equal(a: &ConwayState, b: &ConwayState) -> bool {
    if a.width() != b.width() || a.height() != b.height() {
        return false;
    }
    for y in 0..a.height() {
        for x in 0..a.width() {
            if a.get_cell(x, y) != b.get_cell(x, y) {
                return false;
            }
        }
    }
    true
}

#[test]
fn neighbor_count_ignores_out_of_bounds() {
    // every cell alive: an interior cell sees 8 neighbors, an edge cell 5,
    // a corner cell only 3 — nothing outside the grid is ever counted
    let mut alive = Vec::new();
    for y in 0..3 {
        for x in 0..3 {
            alive.push((x, y));
        }
    }
    let g = grid_with_alive(3, 3, &alive);
    assert_eq!(g.count_alive_neighbors(1, 1), 8);
    assert_eq!(g.count_alive_neighbors(1, 0), 5);
    assert_eq!(g.count_alive_neighbors(0, 1), 5);
    assert_eq!(g.count_alive_neighbors(0, 0), 3);
    assert_eq!(g.count_alive_neighbors(2, 2), 3);
    assert_eq!(g.count_alive_neighbors(2, 0), 3);
    assert_eq!(g.count_alive_neighbors(0, 2), 3);
}

#[test]
fn neighbor_count_one_by_one_grid() {
    let g = grid_with_alive(1, 1, &[(0, 0)]);
    assert_eq!(g.count_alive_neighbors(0, 0), 0);
}

#[test]
fn rule_table_all_eighteen_combinations() {
    // exact table: dead becomes alive only on 3; alive survives only on 2 or 3
    for count in 0..=8usize {
        let dead_next = ConwayState::apply_rule(CellState::Dead, count);
        if count == 3 {
            assert_eq!(dead_next, CellState::Alive, "dead with {} neighbors", count);
        } else {
            assert_eq!(dead_next, CellState::Dead, "dead with {} neighbors", count);
        }
        let alive_next = ConwayState::apply_rule(CellState::Alive, count);
        if count == 2 || count == 3 {
            assert_eq!(alive_next, CellState::Alive, "alive with {} neighbors", count);
        } else {
            assert_eq!(alive_next, CellState::Dead, "alive with {} neighbors", count);
        }
    }
}

#[test]
fn rule_table_through_grids() {
    // the same 18 combinations observed through next_cell_state on a 3x3
    // grid whose center is the cell under test
    let spots = [(0, 0), (1, 0), (2, 0), (0, 1), (2, 1), (0, 2), (1, 2), (2, 2)];
    for center_alive in [false, true] {
        for count in 0..=8usize {
            let mut alive: Vec<(usize, usize)> = spots[..count].to_vec();
            if center_alive {
                alive.push((1, 1));
            }
            let g = grid_with_alive(3, 3, &alive);
            assert_eq!(g.count_alive_neighbors(1, 1), count);
            let expected = match (center_alive, count) {
                (false, 3) => CellState::Alive,
                (true, 2) | (true, 3) => CellState::Alive,
                _ => CellState::Dead,
            };
            assert_eq!(g.next_cell_state(1, 1), expected);
        }
    }
}

#[test]
fn step_result_independent_of_chunk_size() {
    // the same generation must come out for chunk sizes 1, 2 and the whole
    // height, from the parallel and the serial stepper alike
    let start = ConwayState::new(7, 5);
    let mut results = Vec::new();
    for chunk in [1usize, 2, 5, 64] {
        let mut scratch = ConwayState::new_dead(7, 5);
        start.next_state_with_chunk_size(&mut scratch, chunk);
        results.push(scratch);
    }
    let mut serial = ConwayState::new_dead(7, 5);
    start.next_state_serial(&mut serial, 1);
    results.push(serial);
    let mut serial3 = ConwayState::new_dead(7, 5);
    start.next_state_serial(&mut serial3, 3);
    results.push(serial3);
    let mut stock = ConwayState::new_dead(7, 5);
    start.next_state(&mut stock);
    results.push(stock);
    for r in &results[1..] {
        assert!(grids_equal(&results[0], r));
    }
}

#[test]
fn step_writes_scratch_and_leaves_current_alone() {
    // the scratch grid is overwritten wholesale: whatever it held before
    // the step leaves no trace, and the source grid is unchanged
    let start = grid_with_alive(5, 5, &[(1, 2), (2, 2), (3, 2)]);
    let before = start.duplicate();
    let mut scratch_a = ConwayState::new_dead(5, 5);
    let mut alive = Vec::new();
    for y in 0..5 {
        for x in 0..5 {
            alive.push((x, y));
        }
    }
    let mut scratch_b = grid_with_alive(5, 5, &alive);
    start.next_state(&mut scratch_a);
    start.next_state(&mut scratch_b);
    assert!(grids_equal(&scratch_a, &scratch_b));
    assert!(grids_equal(&start, &before));
    // the horizontal blinker turned vertical, in the scratch grids only
    assert_eq!(alive_cells(&scratch_a), vec![(2, 1), (2, 2), (2, 3)]);
}

#[test]
fn blinker_oscillates_with_period_two() {
    let vertical: Vec<(usize, usize)> = vec![(2, 1), (2, 2), (2, 3)];
    let horizontal: Vec<(usize, usize)> = vec![(1, 2), (2, 2), (3, 2)];
    let mut current = grid_with_alive(5, 5, &vertical);
    let mut scratch = ConwayState::new_dead(5, 5);
    for step in 0..4 {
        current.next_state(&mut scratch);
        current.swap_state(&mut scratch);
        let expect = if step % 2 == 0 { &horizontal } else { &vertical };
        assert_eq!(alive_cells(&current), *expect, "after step {}", step + 1);
    }
}

#[test]
fn empty_grid_stays_empty() {
    for (w, h) in [(1usize, 1usize), (4, 7), (16, 3)] {
        let mut current = ConwayState::new_dead(w, h);
        let mut scratch = ConwayState::new_dead(w, h);
        for _ in 0..6 {
            current.next_state(&mut scratch);
            current.swap_state(&mut scratch);
            assert!(alive_cells(&current).is_empty());
        }
    }
}

#[test]
fn swap_exchanges_the_two_grids() {
    let a = grid_with_alive(4, 4, &[(0, 0), (3, 3)]);
    let b = grid_with_alive(4, 4, &[(1, 2)]);
    let mut x = a.duplicate();
    let mut y = b.duplicate();
    x.swap_state(&mut y);
    assert!(grids_equal(&x, &b));
    assert!(grids_equal(&y, &a));
}

#[test]
fn random_grid_has_requested_dimensions() {
    let g = ConwayState::new(9, 4);
    assert_eq!(g.width(), 9);
    assert_eq!(g.height(), 4);
    for y in 0..4 {
        for x in 0..9 {
            // every cell is one of the two states; reading it must not panic
            let _ = g.get_cell(x, y);
        }
    }
}

#[test]
fn pair_advances_and_counts_frames() {
    let mut pair = GenerationPair::new_dead(6, 6);
    assert_eq!(pair.current_frame_count(), 0);
    pair.advance();
    pair.advance();
    pair.advance();
    assert_eq!(pair.current_frame_count(), 3);
    assert!(alive_cells(pair.current()).is_empty());
    pair.reset_frame_count();
    assert_eq!(pair.current_frame_count(), 0);
}

#[test]
fn pair_snapshots_match_recomputed_generations() {
    // every snapshot a consumer takes between steps equals the generation
    // recomputed independently and serially from the starting contents
    let mut pair = GenerationPair::new_random(8, 8);
    let mut expected = pair.current().duplicate();
    for _ in 0..5 {
        pair.advance();
        let mut next = ConwayState::new_dead(8, 8);
        expected.next_state_serial(&mut next, 1);
        expected = next;
        assert!(grids_equal(pair.current(), &expected));
    }
}

#[test]
fn pair_step_then_swap_equals_advance() {
    let mut a = GenerationPair::new_dead(5, 4);
    let mut b = GenerationPair::new_dead(5, 4);
    a.step();
    a.swap();
    b.advance();
    assert!(grids_equal(a.current(), b.current()));
    assert_eq!(a.current_frame_count(), 0);
    assert_eq!(b.current_frame_count(), 1);
}

use conway_life::SharedSim;

#[test]
fn shared_sim_snapshots_match_recomputed_generations() {
    // a snapshot taken between steps is one whole generation, equal to the
    // one recomputed independently from the starting snapshot
    let (sim, mut scratch) = SharedSim::new_random(6, 9);
    let mut expected = sim.snapshot();
    for _ in 0..4 {
        sim.step_into(&mut scratch);
        sim.swap_in(&mut scratch);
        let mut next = ConwayState::new_dead(6, 9);
        expected.next_state_serial(&mut next, 2);
        expected = next;
        assert!(grids_equal(&sim.snapshot(), &expected));
    }
}

#[test]
fn shared_sim_dead_grid_stays_dead() {
    let (sim, mut scratch) = SharedSim::new_dead(5, 5);
    for _ in 0..3 {
        sim.step_into(&mut scratch);
        sim.swap_in(&mut scratch);
        assert!(alive_cells(&sim.snapshot()).is_empty());
    }
}

#[test]
fn shared_sim_swap_makes_the_step_visible() {
    // before the swap, a snapshot still shows the old generation; after
    // it, the stepped one
    let (sim, mut scratch) = SharedSim::new_random(7, 4);
    let before = sim.snapshot();
    sim.step_into(&mut scratch);
    assert!(grids_equal(&sim.snapshot(), &before));
    let mut expected = ConwayState::new_dead(7, 4);
    before.next_state_serial(&mut expected, 1);
    sim.swap_in(&mut scratch);
    assert!(grids_equal(&sim.snapshot(), &expected));
    // the old generation came back as the new scratch
    assert!(grids_equal(&scratch, &before));
}

#[test]
fn checked_constructors_reject_zero_dimensions() {
    assert!(ConwayState::try_new(0, 5).is_none());
    assert!(ConwayState::try_new(5, 0).is_none());
    assert!(ConwayState::try_new_dead(0, 0).is_none());
    assert!(ConwayState::try_new_dead(usize::MAX, usize::MAX).is_none());
    let g = ConwayState::try_new(5, 4).expect("usable dimensions");
    assert_eq!(g.width(), 5);
    assert_eq!(g.height(), 4);
    let d = ConwayState::try_new_dead(3, 3).expect("usable dimensions");
    assert!(alive_cells(&d).is_empty());
}
