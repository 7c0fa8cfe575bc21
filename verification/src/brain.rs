use vstd::prelude::*;

use crate::cell::CellState;
use crate::grid::SimulationState;
use crate::util::count_cells;
use crate::util::spec_count_cells;

verus! {

/// The next state of a cell under Brian's Brain: a firing cell starts
/// dying, a dying cell dies, and a dead cell fires exactly when two of
/// its neighbors fire; otherwise it stays dead.
pub open spec fn spec_brain_next(g: Seq<Seq<CellState>>, row: int, column: int) -> CellState {
    if g[row][column] == CellState::Alive {
        CellState::Dying
    } else if g[row][column] == CellState::Dying {
        CellState::Dead
    } else if spec_count_cells(g, row, column, CellState::Alive) == 2 {
        CellState::Alive
    } else {
        CellState::Dead
    }
}

/// Brian's Brain.
pub fn get_brain_next_cell_state(state: &SimulationState, row: usize, column: usize) -> (r:
    CellState)
    requires
        state.wf(),
        row < state@.len(),
        column < state@.len(),
    ensures
        r == spec_brain_next(state@, row as int, column as int),
{
    // live cells begin dying
    if state.get(row, column) == CellState::Alive {
        return CellState::Dying;
    }

    // dying cells die
    if state.get(row, column) == CellState::Dying {
        return CellState::Dead;
    }

    // dead cells fire on exactly two firing neighbors
    let target_count = count_cells(state, row, column, CellState::Alive);
    if target_count == 2 {
        CellState::Alive
    } else {
        CellState::Dead
    }
}

/// A firing cell is dying one step later, whatever its neighbors hold.
pub proof fn lemma_brain_alive_starts_dying(g: Seq<Seq<CellState>>, row: int, column: int)
    requires
        g[row][column] == CellState::Alive,
    ensures
        spec_brain_next(g, row, column) == CellState::Dying,
{
}

/// A dying cell is dead one step later, whatever its neighbors hold.
pub proof fn lemma_brain_dying_dies(g: Seq<Seq<CellState>>, row: int, column: int)
    requires
        g[row][column] == CellState::Dying,
    ensures
        spec_brain_next(g, row, column) == CellState::Dead,
{
}

} // verus!
