use automata::cell::CellState;
use automata::grid::SimulationState;
use automata::models::cell_to_u8;
use automata::models::predict_tree_next_cell_state;
use automata::util::get_cell_with_bounds_check;

#[test]
fn bounds_checked_lookup() {
    let mut board = SimulationState::new_filled(3, CellState::Dead);
    board.set(1, 2, CellState::Alive);
    assert_eq!(
        get_cell_with_bounds_check(&board, Some(1), Some(2)),
        Some(CellState::Alive)
    );
    assert_eq!(
        get_cell_with_bounds_check(&board, Some(0), Some(0)),
        Some(CellState::Dead)
    );
    assert_eq!(get_cell_with_bounds_check(&board, Some(3), Some(0)), None);
    assert_eq!(get_cell_with_bounds_check(&board, Some(0), Some(9)), None);
    assert_eq!(get_cell_with_bounds_check(&board, None, Some(0)), None);
    assert_eq!(get_cell_with_bounds_check(&board, Some(0), None), None);
}

#[test]
fn feature_bytes_encode_cells() {
    let mut board = SimulationState::new_filled(3, CellState::Dead);
    board.set(1, 1, CellState::Alive);
    board.set(2, 2, CellState::Dying);
    assert_eq!(cell_to_u8(&board, Some(1), Some(1)), 1);
    assert_eq!(cell_to_u8(&board, Some(2), Some(2)), 2);
    assert_eq!(cell_to_u8(&board, Some(0), Some(0)), 0);
    // absent and off-board coordinates contribute zero
    assert_eq!(cell_to_u8(&board, None, Some(1)), 0);
    assert_eq!(cell_to_u8(&board, Some(7), Some(1)), 0);
}

#[test]
fn parity_model_predicts_from_feature_sum() {
    // all-dead surroundings sum to zero: even, so alive
    let board = SimulationState::new_filled(3, CellState::Dead);
    assert_eq!(predict_tree_next_cell_state(&board, 1, 1), CellState::Alive);

    // one live neighbor makes the sum odd: dead
    let mut one = SimulationState::new_filled(3, CellState::Dead);
    one.set(1, 0, CellState::Alive);
    assert_eq!(predict_tree_next_cell_state(&one, 1, 1), CellState::Dead);

    // a dying neighbor adds two and keeps the sum even: alive
    let mut two = SimulationState::new_filled(3, CellState::Dead);
    two.set(1, 0, CellState::Dying);
    assert_eq!(predict_tree_next_cell_state(&two, 1, 1), CellState::Alive);
}
