use automata::cell::CellState;
use automata::cell::SimulationMode;
use automata::grid::SimulationState;
use automata::rng::cell_marked;
use automata::sim::randomize_sim_state;
use automata::sim::reset_sim_state;
use automata::sim::select_sim_mode;
use automata::sim::set_cell_alive_batch;
use automata::sim::step;
use automata::trainer::QModel;
use automata::tree::initial_agent;

#[test]
fn reset_is_idempotent() {
    // two resets in a row yield the same clean board and agent both times
    let mut state = SimulationState::new_filled(6, CellState::Dead);
    let mut buffer = SimulationState::new_filled(6, CellState::Dead);
    let mut agent = initial_agent(6);
    set_cell_alive_batch(&mut state, &vec![(0, 0), (3, 3), (5, 5)]);
    agent.row = 1;

    reset_sim_state(&mut state, &mut buffer, &mut agent);
    let first_state = state.clone();
    let first_agent = agent;

    reset_sim_state(&mut state, &mut buffer, &mut agent);
    assert_eq!(state, first_state);
    assert_eq!(agent, first_agent);

    let clean = SimulationState::new_filled(6, CellState::Dead);
    assert_eq!(state, clean);
    assert_eq!(agent, initial_agent(6));
}

#[test]
fn mode_switch_is_deterministic_per_seed() {
    // the same seed and probability always mark the same set of cells
    let mut state_a = SimulationState::new_filled(8, CellState::Dead);
    let mut buffer_a = SimulationState::new_filled(8, CellState::Dead);
    let mut agent_a = initial_agent(8);
    let mut mode_a = SimulationMode::ConwaysLife;
    select_sim_mode(
        &mut state_a,
        &mut buffer_a,
        &mut agent_a,
        &mut mode_a,
        SimulationMode::Seeds,
        42,
        5,
    );

    let mut state_b = SimulationState::new_filled(8, CellState::Dead);
    let mut buffer_b = SimulationState::new_filled(8, CellState::Dead);
    let mut agent_b = initial_agent(8);
    let mut mode_b = SimulationMode::HighLife;
    select_sim_mode(
        &mut state_b,
        &mut buffer_b,
        &mut agent_b,
        &mut mode_b,
        SimulationMode::Seeds,
        42,
        5,
    );

    assert_eq!(state_a, state_b);
    assert_eq!(agent_a, agent_b);
    assert!(matches!(mode_a, SimulationMode::Seeds));
    assert!(matches!(mode_b, SimulationMode::Seeds));

    // and the marks agree cell by cell with the deterministic draw
    for r in 0..8usize {
        for c in 0..8usize {
            let expected = if cell_marked(42, 5, r as u64, c as u64) {
                CellState::Alive
            } else {
                CellState::Dead
            };
            assert_eq!(state_a.get(r, c), expected);
        }
    }
}

#[test]
fn randomize_with_probability_one_fills_the_board() {
    let mut state = SimulationState::new_filled(4, CellState::Dead);
    let mut buffer = SimulationState::new_filled(4, CellState::Dead);
    let mut agent = initial_agent(4);
    randomize_sim_state(&mut state, &mut buffer, &mut agent, 7, 1);
    for r in 0..4usize {
        for c in 0..4usize {
            assert_eq!(state.get(r, c), CellState::Alive);
        }
    }
}

#[test]
fn step_reports_live_cell_count() {
    // a blinker holds exactly three live cells after every step
    let mut state = SimulationState::new_filled(5, CellState::Dead);
    let mut buffer = SimulationState::new_filled(5, CellState::Dead);
    let mut agent = initial_agent(5);
    set_cell_alive_batch(&mut state, &vec![(2, 1), (2, 2), (2, 3)]);
    let model = QModel::new();
    let live = step(
        &mut state,
        &mut buffer,
        SimulationMode::ConwaysLife,
        &model,
        &mut agent,
    );
    assert_eq!(live, 3);
}

#[test]
fn batch_marks_cluster_and_ignores_off_board() {
    let mut state = SimulationState::new_filled(4, CellState::Dead);
    // the click cluster: the cell and its right, below and diagonal
    // neighbors, plus one coordinate far off the board
    let coords = vec![(1, 1), (1, 2), (2, 1), (2, 2), (9, 9)];
    set_cell_alive_batch(&mut state, &coords);
    for r in 0..4usize {
        for c in 0..4usize {
            let expected = if (1..=2).contains(&r) && (1..=2).contains(&c) {
                CellState::Alive
            } else {
                CellState::Dead
            };
            assert_eq!(state.get(r, c), expected);
        }
    }
}

#[test]
fn mode_names_and_default() {
    assert_eq!(SimulationMode::default().name(), "Conway's Game of Life");
    assert_eq!(SimulationMode::BriansBrain.name(), "Brian's Brain");
    assert_eq!(SimulationMode::HighLife.name(), "HighLife");
    assert_eq!(SimulationMode::Seeds.name(), "Seeds");
    assert_eq!(SimulationMode::Tree.name(), "Tree");
}
