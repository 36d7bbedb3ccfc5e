use conway_rs::conway::game_state::{CellDelta, ConwayGameState};

fn grid_with(width: usize, height: usize, periodic: bool, alive: &[(usize, usize)]) -> ConwayGameState {
    let mut state = ConwayGameState::new(width, height, periodic);
    for &(x, y) in alive {
        state.set_cell(x, y, true);
    }
    state
}

fn live_cells(state: &ConwayGameState) -> Vec<(usize, usize)> {
    let mut found = Vec::new();
    for y in 0..state.get_height() {
        for x in 0..state.get_width() {
            if state.get_cell(x, y) {
                found.push((x, y));
            }
        }
    }
    found
}

#[test]
fn new_grid_is_all_dead() {
    let state = ConwayGameState::new(8, 5, true);
    assert_eq!(state.get_width(), 8);
    assert_eq!(state.get_height(), 5);
    assert!(state.get_is_periodic());
    assert_eq!(state.get_cells(), &vec![false; 40]);
}

#[test]
fn set_cell_changes_one_cell_in_row_major_order() {
    let mut state = ConwayGameState::new(8, 8, false);
    state.set_cell(3, 2, true);
    assert!(state.get_cell(3, 2));
    let mut expected = vec![false; 64];
    expected[2 * 8 + 3] = true;
    assert_eq!(state.get_cells(), &expected);
    state.set_cell(3, 2, false);
    assert_eq!(state.get_cells(), &vec![false; 64]);
}

#[test]
fn all_dead_grid_stays_dead() {
    for &periodic in &[false, true] {
        for &(w, h) in &[(8usize, 8usize), (64, 64), (8, 64), (13, 9), (1, 1), (0, 0)] {
            let mut state = ConwayGameState::new(w, h, periodic);
            state.step();
            assert_eq!(state.get_cells(), &vec![false; w * h]);
            assert!(state.get_newly_born_cells().is_empty());
        }
    }
}

#[test]
fn single_live_cell_dies() {
    for &periodic in &[false, true] {
        let mut state = grid_with(8, 8, periodic, &[(3, 3)]);
        assert_eq!(state.count_neighors(3, 3), 0);
        state.step();
        assert_eq!(live_cells(&state), vec![]);
        assert_eq!(state.get_newly_dead_cells(), vec![(3, 3)]);
    }
}

#[test]
fn block_is_a_still_life() {
    for &periodic in &[false, true] {
        for &(w, h) in &[(4usize, 4usize), (8, 8), (9, 5)] {
            let block = [(1, 1), (2, 1), (1, 2), (2, 2)];
            let mut state = grid_with(w, h, periodic, &block);
            for _ in 0..10 {
                state.step();
                assert_eq!(live_cells(&state), block.to_vec());
            }
            assert_eq!(state.get_retained_cells(), block.to_vec());
            assert!(state.get_newly_born_cells().is_empty());
            assert!(state.get_newly_dead_cells().is_empty());
        }
    }
}

#[test]
fn blinker_returns_after_two_steps() {
    for &periodic in &[false, true] {
        let horizontal = [(2, 3), (3, 3), (4, 3)];
        let vertical = [(3, 2), (3, 3), (3, 4)];
        let mut state = grid_with(8, 8, periodic, &horizontal);
        state.step();
        assert_eq!(live_cells(&state), vertical.to_vec());
        assert_eq!(state.get_newly_born_cells(), vec![(3, 2), (3, 4)]);
        assert_eq!(state.get_newly_dead_cells(), vec![(2, 3), (4, 3)]);
        assert_eq!(state.get_retained_cells(), vec![(3, 3)]);
        state.step();
        assert_eq!(live_cells(&state), horizontal.to_vec());
    }
}

#[test]
fn neighbors_wrap_around_on_a_periodic_grid() {
    let alive = [(7, 7), (0, 7), (7, 0)];
    let periodic = grid_with(8, 8, true, &alive);
    assert_eq!(periodic.count_neighors(0, 0), 3);
    let bounded = grid_with(8, 8, false, &alive);
    assert_eq!(bounded.count_neighors(0, 0), 0);
    assert_eq!(bounded.count_neighors(7, 7), 0);
    assert_eq!(bounded.count_neighors(6, 7), 1);
    assert_eq!(periodic.count_neighors(7, 7), 2);
}

#[test]
fn a_cell_counts_itself_where_a_narrow_periodic_grid_wraps_onto_it() {
    let state = grid_with(2, 1, true, &[(0, 0)]);
    assert_eq!(state.count_neighors(0, 0), 2);
    assert_eq!(state.count_neighors(1, 0), 6);
}

#[test]
fn corner_birth_on_a_periodic_grid() {
    let mut state = grid_with(8, 8, true, &[(7, 7), (0, 7), (7, 0)]);
    state.step();
    assert!(state.get_cell(0, 0));
    let mut bounded = grid_with(8, 8, false, &[(7, 7), (0, 7), (7, 0)]);
    bounded.step();
    assert!(!bounded.get_cell(0, 0));
}

#[test]
fn survival_and_overcrowding() {
    // A live cell with four live neighbours dies, one with three survives.
    let mut state = grid_with(8, 8, false, &[(3, 3), (2, 3), (4, 3), (3, 2), (3, 4)]);
    assert_eq!(state.count_neighors(3, 3), 4);
    assert_eq!(state.count_neighors(2, 3), 3);
    state.step();
    assert!(!state.get_cell(3, 3));
    assert!(state.get_cell(2, 3));
    assert!(state.get_cell(2, 2));
}

#[test]
fn resize_keeps_the_overlap_and_adds_dead_cells() {
    let mut state = grid_with(8, 8, false, &[(0, 0), (7, 7), (3, 5), (7, 0)]);
    state.resize(10, 6);
    assert_eq!(state.get_width(), 10);
    assert_eq!(state.get_height(), 6);
    assert_eq!(live_cells(&state), vec![(0, 0), (7, 0), (3, 5)]);
    state.resize(4, 12);
    assert_eq!(live_cells(&state), vec![(0, 0), (3, 5)]);
    assert_eq!(state.get_cells().len(), 48);
}

#[test]
fn resize_keeps_the_snapshot_of_the_generation_before() {
    let mut state = grid_with(8, 8, false, &[(2, 3), (3, 3), (4, 3)]);
    state.step();
    state.resize(9, 9);
    assert_eq!(state.get_newly_born_cells(), vec![(3, 2), (3, 4)]);
    assert_eq!(state.get_newly_dead_cells(), vec![(2, 3), (4, 3)]);
    assert_eq!(state.get_retained_cells(), vec![(3, 3)]);
}

#[test]
fn clear_kills_every_cell_and_keeps_the_rest() {
    let mut state = grid_with(9, 8, true, &[(2, 3), (3, 3), (4, 3)]);
    state.step();
    state.clear();
    assert_eq!(state.get_cells(), &vec![false; 72]);
    assert!(state.get_newly_dead_cells().is_empty());
    assert_eq!((state.get_width(), state.get_height(), state.get_is_periodic()), (9, 8, true));
}

#[test]
fn set_cells_replaces_the_generation_and_forgets_the_last() {
    let mut state = grid_with(8, 8, false, &[(2, 3), (3, 3), (4, 3)]);
    state.step();
    let mut cells = vec![false; 64];
    cells[0] = true;
    cells[63] = true;
    state.set_cells(cells.clone());
    assert_eq!(state.get_cells(), &cells);
    assert_eq!(state.get_newly_born_cells(), vec![(0, 0), (7, 7)]);
    assert!(state.get_retained_cells().is_empty());
    assert!(state.get_newly_dead_cells().is_empty());
}

#[test]
fn set_is_periodic_changes_only_the_mode() {
    let mut state = grid_with(8, 8, false, &[(0, 0)]);
    state.set_is_periodic(true);
    assert!(state.get_is_periodic());
    assert_eq!(live_cells(&state), vec![(0, 0)]);
}

#[test]
fn delta_queries_run_row_by_row() {
    let mut state = ConwayGameState::new(8, 8, false);
    state.set_cells({
        let mut c = vec![false; 64];
        c[5] = true;
        c[8] = true;
        c[1] = true;
        c
    });
    assert_eq!(state.get_cells_with_delta(CellDelta::Born), vec![(1, 0), (5, 0), (0, 1)]);
}

#[test]
fn blinker_returns_on_the_smallest_grid_that_holds_it() {
    for &periodic in &[false, true] {
        let horizontal = [(0, 1), (1, 1), (2, 1)];
        let mut state = grid_with(4, 4, periodic, &horizontal);
        state.step();
        assert_eq!(live_cells(&state), vec![(1, 0), (1, 1), (1, 2)]);
        state.step();
        assert_eq!(live_cells(&state), horizontal.to_vec());
    }
}

#[test]
fn single_cell_dies_on_a_periodic_grid_of_three_by_three() {
    for y in 0..3 {
        for x in 0..3 {
            let mut state = grid_with(3, 3, true, &[(x, y)]);
            state.step();
            assert_eq!(live_cells(&state), vec![]);
        }
    }
}

#[test]
fn single_cell_that_meets_itself_around_the_edge_survives() {
    let mut state = grid_with(2, 1, true, &[(0, 0)]);
    state.step();
    assert_eq!(live_cells(&state), vec![(0, 0)]);
    let mut bounded = grid_with(2, 1, false, &[(0, 0)]);
    bounded.step();
    assert_eq!(live_cells(&bounded), vec![]);
}
