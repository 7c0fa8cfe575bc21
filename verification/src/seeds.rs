use vstd::prelude::*;

use crate::cell::CellState;
use crate::grid::SimulationState;
use crate::util::count_cells;
use crate::util::spec_count_cells;

verus! {

/// The next state of a cell under Seeds: live cells always die, and a
/// dead cell comes alive exactly when two of its neighbors are alive;
/// every other cell is dead.
pub open spec fn spec_seeds_next(g: Seq<Seq<CellState>>, row: int, column: int) -> CellState {
    if g[row][column] == CellState::Dead && spec_count_cells(g, row, column, CellState::Alive)
        == 2 {
        CellState::Alive
    } else {
        CellState::Dead
    }
}

/// The Seeds variation of the Game of Life.
pub fn get_seeds_next_cell_state(state: &SimulationState, row: usize, column: usize) -> (r:
    CellState)
    requires
        state.wf(),
        row < state@.len(),
        column < state@.len(),
    ensures
        r == spec_seeds_next(state@, row as int, column as int),
{
    let live_cell_count = count_cells(state, row, column, CellState::Alive);

    match state.get(row, column) {
        CellState::Alive => CellState::Dead,
        CellState::Dead => {
            if live_cell_count == 2 {
                CellState::Alive
            } else {
                CellState::Dead
            }
        },
        _ => CellState::Dead,
    }
}

/// A live cell is dead one step later, whatever its neighbors hold.
pub proof fn lemma_seeds_alive_dies(g: Seq<Seq<CellState>>, row: int, column: int)
    requires
        g[row][column] == CellState::Alive,
    ensures
        spec_seeds_next(g, row, column) == CellState::Dead,
{
}

} // verus!
