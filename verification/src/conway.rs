use vstd::prelude::*;

use crate::cell::CellState;
use crate::grid::SimulationState;
use crate::util::count_cells;
use crate::util::spec_count_cells;

verus! {

/// The next state of a cell under Conway's Game of Life: death below
/// two or above three live neighbors, birth at exactly three, unchanged
/// otherwise.
pub open spec fn spec_conway_next(g: Seq<Seq<CellState>>, row: int, column: int) -> CellState {
    let live = spec_count_cells(g, row, column, CellState::Alive);
    if live < 2 || live > 3 {
        CellState::Dead
    } else if live == 3 {
        CellState::Alive
    } else {
        g[row][column]
    }
}

/// Conway's Game of Life.
pub fn get_conway_next_cell_state(state: &SimulationState, row: usize, column: usize) -> (r:
    CellState)
    requires
        state.wf(),
        row < state@.len(),
        column < state@.len(),
    ensures
        r == spec_conway_next(state@, row as int, column as int),
{
    let live_cell_count = count_cells(state, row, column, CellState::Alive);

    // underpopulated or overpopulated
    if live_cell_count < 2 || live_cell_count > 3 {
        return CellState::Dead;
    }

    // just right
    if live_cell_count == 3 {
        return CellState::Alive;
    }

    // unchanged otherwise
    state.get(row, column)
}

} // verus!
