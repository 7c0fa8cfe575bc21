use automata::cell::CellState;
use automata::cell::SimulationMode;
use automata::grid::SimulationState;
use automata::sim::step;
use automata::trainer::describe;
use automata::trainer::sprout_action_legal;
use automata::trainer::AgentAction;
use automata::trainer::QModel;
use automata::trainer::SimState;
use automata::trainer::StateDescriptor;
use automata::tree::initial_agent;
use automata::tree::AgentState;

fn bottom_center_descriptor(n: usize) -> StateDescriptor {
    let board = SimulationState::new_filled(n, CellState::Dead);
    describe(&board, n - 1, n / 2)
}

#[test]
fn untrained_model_leaves_the_board_alone() {
    let mut state = SimulationState::new_filled(4, CellState::Dead);
    let mut buffer = SimulationState::new_filled(4, CellState::Dead);
    let mut agent = initial_agent(4);
    let model = QModel::new();
    let live = step(
        &mut state,
        &mut buffer,
        SimulationMode::Tree,
        &model,
        &mut agent,
    );
    assert_eq!(live, 0);
    assert_eq!(state, SimulationState::new_filled(4, CellState::Dead));
    assert_eq!(agent, initial_agent(4));
}

#[test]
fn trained_trunk_action_grows_and_moves_up() {
    // value the trunk action at the start descriptor, then step
    let mut model = QModel::new();
    model.insert(bottom_center_descriptor(4), AgentAction::ToTrunk, 10);

    let mut state = SimulationState::new_filled(4, CellState::Dead);
    let mut buffer = SimulationState::new_filled(4, CellState::Dead);
    let mut agent = initial_agent(4);
    assert_eq!(
        model.get_next_action(&state, agent.row, agent.column, agent.prev_move),
        Some(AgentAction::ToTrunk)
    );
    step(
        &mut state,
        &mut buffer,
        SimulationMode::Tree,
        &model,
        &mut agent,
    );
    assert_eq!(state.get(3, 2), CellState::Dying);
    assert_eq!(
        agent,
        AgentState { row: 2, column: 2, prev_move: Some(AgentAction::ToTrunk) }
    );
}

#[test]
fn sprouting_marks_the_row_of_leaves() {
    // put the agent above a trunk and value only the sprout action
    let mut state = SimulationState::new_filled(4, CellState::Dead);
    let mut buffer = SimulationState::new_filled(4, CellState::Dead);
    let mut agent = initial_agent(4);
    let mut model = QModel::new();
    model.insert(bottom_center_descriptor(4), AgentAction::ToTrunk, 10);
    model.insert(
        describe(&{
            let mut b = SimulationState::new_filled(4, CellState::Dead);
            b.set(3, 2, CellState::Dying);
            b
        }, 2, 2),
        AgentAction::SproutLeaves,
        20,
    );
    // first step grows the trunk, second sprouts above it
    step(
        &mut state,
        &mut buffer,
        SimulationMode::Tree,
        &model,
        &mut agent,
    );
    let live = step(
        &mut state,
        &mut buffer,
        SimulationMode::Tree,
        &model,
        &mut agent,
    );
    assert_eq!(state.get(2, 1), CellState::Alive);
    assert_eq!(state.get(2, 2), CellState::Alive);
    assert_eq!(state.get(2, 3), CellState::Alive);
    assert_eq!(state.get(3, 2), CellState::Dying);
    assert_eq!(live, 3);
    assert_eq!(agent.row, 2);
    assert_eq!(agent.prev_move, Some(AgentAction::SproutLeaves));
}

#[test]
fn tied_estimates_fall_back_to_doing_nothing() {
    // both actions legal at this descriptor, with equal estimates
    let mut board = SimulationState::new_filled(4, CellState::Dead);
    board.set(3, 2, CellState::Dying);
    let d = describe(&board, 2, 2);
    let mut model = QModel::new();
    model.insert(d, AgentAction::ToTrunk, 7);
    model.insert(d, AgentAction::SproutLeaves, 7);
    assert_eq!(model.get_next_action(&board, 2, 2, None), None);

    // a strictly higher estimate wins
    let mut model2 = QModel::new();
    model2.insert(d, AgentAction::ToTrunk, 7);
    model2.insert(d, AgentAction::SproutLeaves, 8);
    assert_eq!(
        model2.get_next_action(&board, 2, 2, None),
        Some(AgentAction::SproutLeaves)
    );
}

#[test]
fn illegal_actions_are_never_picked() {
    // the agent stands at the top row on a leaf above a trunk: neither
    // the trunk action (not on the bottom row, row zero) nor sprouting
    // (already a leaf) is legal, however high their stored estimates
    let mut board = SimulationState::new_filled(2, CellState::Dead);
    board.set(1, 1, CellState::Dying);
    board.set(0, 1, CellState::Alive);
    let d = describe(&board, 0, 1);
    let mut model = QModel::new();
    model.insert(d, AgentAction::ToTrunk, 100);
    model.insert(d, AgentAction::SproutLeaves, 100);
    assert_eq!(model.get_next_action(&board, 0, 1, None), None);

    // stepping from row zero therefore never moves the agent off board
    let mut state = board.clone();
    let mut buffer = SimulationState::new_filled(2, CellState::Dead);
    let mut agent = AgentState { row: 0, column: 1, prev_move: None };
    step(
        &mut state,
        &mut buffer,
        SimulationMode::Tree,
        &model,
        &mut agent,
    );
    assert_eq!(agent.row, 0);
    assert_eq!(agent.column, 1);
}

#[test]
fn sprouting_needs_a_trunk_below() {
    let empty_below = StateDescriptor {
        left: Some(CellState::Dead),
        right: Some(CellState::Dead),
        down: Some(CellState::Dead),
        current: CellState::Dead,
        row: 1,
        column: 1,
    };
    assert!(!sprout_action_legal(&empty_below));

    let off_board_below = StateDescriptor { down: None, ..empty_below };
    assert!(!sprout_action_legal(&off_board_below));

    let trunk_below = StateDescriptor { down: Some(CellState::Dying), ..empty_below };
    assert!(sprout_action_legal(&trunk_below));

    let already_leaf = StateDescriptor {
        down: Some(CellState::Dying),
        current: CellState::Alive,
        ..empty_below
    };
    assert!(!sprout_action_legal(&already_leaf));
}

#[test]
fn training_state_tracks_actions() {
    let mut s = SimState::new(4);
    assert_eq!(s.row, 3);
    assert_eq!(s.column, 2);
    assert_eq!(s.reward(), 0);
    // at the start only doing nothing and growing trunk are legal
    assert_eq!(
        s.actions(),
        vec![AgentAction::DoNothing, AgentAction::ToTrunk]
    );

    s.take_action(&AgentAction::ToTrunk);
    assert_eq!(s.row, 2);
    assert_eq!(s.board.get(3, 2), CellState::Dying);
    // above a trunk, every action is legal
    assert_eq!(
        s.actions(),
        vec![
            AgentAction::DoNothing,
            AgentAction::ToTrunk,
            AgentAction::SproutLeaves
        ]
    );

    s.take_action(&AgentAction::SproutLeaves);
    assert_eq!(s.board.get(2, 1), CellState::Alive);
    assert_eq!(s.board.get(2, 2), CellState::Alive);
    assert_eq!(s.board.get(2, 3), CellState::Alive);
    // three leaves and one trunk: the trunk is worth a hundredth
    assert_eq!(s.reward(), 3);
}
