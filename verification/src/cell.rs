use vstd::prelude::*;

verus! {

/// One cell of the automaton board.
///
/// Two rule families share this tag set. The two-state rules (Conway's
/// Life, HighLife, Seeds) use only `Alive` and `Dead`. The three-state
/// rules read the middle tag as well: Brian's Brain treats `Dying` as its
/// refractory phase, and the tree rule reads `Alive` as a leaf, `Dying`
/// as a trunk segment and `Dead` as empty ground.
#[derive(Clone, Copy, Debug, PartialEq, Eq, Hash, Structural)]
pub enum CellState {
    Alive,
    Dying,
    Dead,
}

/// Which transition rule the stepper applies to the board.
#[derive(Clone, Copy, Debug, PartialEq, Eq, Structural)]
pub enum SimulationMode {
    ConwaysLife,
    BriansBrain,
    HighLife,
    Seeds,
    Tree,
}

/// Stable one-byte code of a cell state, used as a model feature.
pub open spec fn spec_cell_code(c: CellState) -> u8 {
    match c {
        CellState::Dead => 0,
        CellState::Alive => 1,
        CellState::Dying => 2,
    }
}

impl CellState {
    /// The stable one-byte code of this state.
    pub fn code(&self) -> (r: u8)
        ensures
            r == spec_cell_code(*self),
    {
        match self {
            CellState::Dead => 0,
            CellState::Alive => 1,
            CellState::Dying => 2,
        }
    }
}

impl Default for SimulationMode {
    /// The mode the simulation starts in.
    fn default() -> (r: Self)
        ensures
            r == SimulationMode::ConwaysLife,
    {
        SimulationMode::ConwaysLife
    }
}

impl SimulationMode {
    /// Human-readable name of the mode, for the host's status line.
    pub fn name(&self) -> (r: String)
        ensures
            *self == SimulationMode::ConwaysLife ==> r@ == "Conway's Game of Life"@,
            *self == SimulationMode::BriansBrain ==> r@ == "Brian's Brain"@,
            *self == SimulationMode::HighLife ==> r@ == "HighLife"@,
            *self == SimulationMode::Seeds ==> r@ == "Seeds"@,
            *self == SimulationMode::Tree ==> r@ == "Tree"@,
    {
        match self {
            SimulationMode::ConwaysLife => "Conway's Game of Life".to_string(),
            SimulationMode::BriansBrain => "Brian's Brain".to_string(),
            SimulationMode::HighLife => "HighLife".to_string(),
            SimulationMode::Seeds => "Seeds".to_string(),
            SimulationMode::Tree => "Tree".to_string(),
        }
    }
}

} // verus!
