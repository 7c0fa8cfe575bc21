use automata::cell::CellState;
use automata::cell::SimulationMode;
use automata::grid::SimulationState;
use automata::sim::get_next_state;
use automata::sim::set_cell_alive_batch;
use automata::sim::step;
use automata::trainer::QModel;
use automata::tree::initial_agent;
use automata::util::count_cells;

fn board_of(n: usize, coords: Vec<(usize, usize)>) -> SimulationState {
    let mut state = SimulationState::new_filled(n, CellState::Dead);
    set_cell_alive_batch(&mut state, &coords);
    state
}

#[test]
fn counter_full_neighborhoods() {
    // every cell alive: the counter sees every on-board neighbor
    let mut coords: Vec<(usize, usize)> = Vec::new();
    for r in 0..4 {
        for c in 0..4 {
            coords.push((r, c));
        }
    }
    let state = board_of(4, coords);
    // corner: three on-board neighbors
    assert_eq!(count_cells(&state, 0, 0, CellState::Alive), 3);
    assert_eq!(count_cells(&state, 3, 3, CellState::Alive), 3);
    // edge: five on-board neighbors
    assert_eq!(count_cells(&state, 0, 2, CellState::Alive), 5);
    assert_eq!(count_cells(&state, 2, 0, CellState::Alive), 5);
    // interior: all eight
    assert_eq!(count_cells(&state, 1, 1, CellState::Alive), 8);
}

#[test]
fn counter_empty_neighborhoods() {
    // no cell alive: the counter sees nothing anywhere
    let state = SimulationState::new_filled(4, CellState::Dead);
    for r in 0..4 {
        for c in 0..4 {
            assert_eq!(count_cells(&state, r, c, CellState::Alive), 0);
        }
    }
}

#[test]
fn conway_block_is_still_life() {
    // a 2x2 block of live cells survives a step unchanged
    let mut state = board_of(4, vec![(1, 1), (1, 2), (2, 1), (2, 2)]);
    let expected = board_of(4, vec![(1, 1), (1, 2), (2, 1), (2, 2)]);
    let mut buffer = SimulationState::new_filled(4, CellState::Dead);
    let model = QModel::new();
    let mut agent = initial_agent(4);
    let live = step(
        &mut state,
        &mut buffer,
        SimulationMode::ConwaysLife,
        &model,
        &mut agent,
    );
    assert_eq!(state, expected);
    assert_eq!(live, 4);
}

#[test]
fn conway_blinker_oscillates() {
    // a row of three flips to a column of three and back
    let mut state = board_of(5, vec![(2, 1), (2, 2), (2, 3)]);
    let horizontal = board_of(5, vec![(2, 1), (2, 2), (2, 3)]);
    let vertical = board_of(5, vec![(1, 2), (2, 2), (3, 2)]);
    let mut buffer = SimulationState::new_filled(5, CellState::Dead);
    let model = QModel::new();
    let mut agent = initial_agent(5);
    step(
        &mut state,
        &mut buffer,
        SimulationMode::ConwaysLife,
        &model,
        &mut agent,
    );
    assert_eq!(state, vertical);
    step(
        &mut state,
        &mut buffer,
        SimulationMode::ConwaysLife,
        &model,
        &mut agent,
    );
    assert_eq!(state, horizontal);
}

#[test]
fn seeds_every_live_cell_dies() {
    // whatever the neighborhoods, live cells are all dead after a step
    let alive = vec![(0, 0), (1, 1), (1, 2), (2, 2), (3, 0)];
    let mut state = board_of(4, alive.clone());
    let mut buffer = SimulationState::new_filled(4, CellState::Dead);
    let model = QModel::new();
    let mut agent = initial_agent(4);
    get_next_state(
        &state,
        &mut buffer,
        SimulationMode::Seeds,
        &model,
        &mut agent,
    );
    for (r, c) in alive {
        assert_eq!(buffer.get(r, c), CellState::Dead);
    }
}

#[test]
fn seeds_dead_cell_with_two_neighbors_is_born() {
    let state = board_of(4, vec![(1, 0), (1, 2)]);
    let mut buffer = SimulationState::new_filled(4, CellState::Dead);
    let model = QModel::new();
    let mut agent = initial_agent(4);
    get_next_state(
        &state,
        &mut buffer,
        SimulationMode::Seeds,
        &model,
        &mut agent,
    );
    assert_eq!(buffer.get(1, 1), CellState::Alive);
}

#[test]
fn brain_firing_cell_decays_in_two_steps() {
    // a firing cell is dying after one step and dead after two
    let mut state = board_of(4, vec![(1, 1), (2, 2), (0, 3)]);
    let mut buffer = SimulationState::new_filled(4, CellState::Dead);
    let model = QModel::new();
    let mut agent = initial_agent(4);
    step(
        &mut state,
        &mut buffer,
        SimulationMode::BriansBrain,
        &model,
        &mut agent,
    );
    assert_eq!(state.get(1, 1), CellState::Dying);
    assert_eq!(state.get(2, 2), CellState::Dying);
    assert_eq!(state.get(0, 3), CellState::Dying);
    step(
        &mut state,
        &mut buffer,
        SimulationMode::BriansBrain,
        &model,
        &mut agent,
    );
    assert_eq!(state.get(1, 1), CellState::Dead);
    assert_eq!(state.get(2, 2), CellState::Dead);
    assert_eq!(state.get(0, 3), CellState::Dead);
}

#[test]
fn brain_dead_cell_with_two_firing_neighbors_fires() {
    let state = board_of(4, vec![(0, 0), (0, 2)]);
    let mut buffer = SimulationState::new_filled(4, CellState::Dead);
    let model = QModel::new();
    let mut agent = initial_agent(4);
    get_next_state(
        &state,
        &mut buffer,
        SimulationMode::BriansBrain,
        &model,
        &mut agent,
    );
    assert_eq!(buffer.get(0, 1), CellState::Alive);
    assert_eq!(buffer.get(1, 1), CellState::Alive);
}

#[test]
fn highlife_dead_cell_with_six_neighbors_is_born() {
    // six of the eight neighbors of the dead center are alive
    let state = board_of(
        4,
        vec![(0, 0), (0, 1), (0, 2), (1, 0), (1, 2), (2, 0)],
    );
    assert_eq!(count_cells(&state, 1, 1, CellState::Alive), 6);
    let mut buffer = SimulationState::new_filled(4, CellState::Dead);
    let model = QModel::new();
    let mut agent = initial_agent(4);
    get_next_state(
        &state,
        &mut buffer,
        SimulationMode::HighLife,
        &model,
        &mut agent,
    );
    assert_eq!(buffer.get(1, 1), CellState::Alive);
}

#[test]
fn highlife_cell_with_four_neighbors_dies() {
    // a Conway-style overpopulated cell dies under HighLife too
    let state = board_of(4, vec![(0, 0), (0, 1), (0, 2), (1, 0), (1, 1)]);
    assert_eq!(count_cells(&state, 1, 1, CellState::Alive), 4);
    let mut buffer = SimulationState::new_filled(4, CellState::Dead);
    let model = QModel::new();
    let mut agent = initial_agent(4);
    get_next_state(
        &state,
        &mut buffer,
        SimulationMode::HighLife,
        &model,
        &mut agent,
    );
    assert_eq!(buffer.get(1, 1), CellState::Dead);
}
