use vstd::prelude::*;

use crate::cell::CellState;
use crate::grid::SimulationState;
use crate::util::get_cell_with_bounds_check;
use crate::util::on_board;

verus! {

/// An action the tree-growth agent can take at its current cell.
#[derive(Clone, Copy, Debug, PartialEq, Eq, Hash, Structural)]
pub enum AgentAction {
    /// Turn the current cell to trunk and move up.
    ToTrunk,
    /// Grow leaves around the current location.
    SproutLeaves,
    /// No-op.
    DoNothing,
}

/// The abstracted state the policy is keyed on: the states of the
/// agent's immediate left, right and below neighbors (absent when off
/// the board), the agent's own cell state, and its position.
#[derive(Clone, Copy, Debug, PartialEq, Eq, Hash)]
pub struct StateDescriptor {
    pub left: Option<CellState>,
    pub right: Option<CellState>,
    pub down: Option<CellState>,
    pub current: CellState,
    pub row: usize,
    pub column: usize,
}

/// The cell at `row`, `column`, or nothing when the coordinates fall
/// off the board.
pub open spec fn spec_cell_at(g: Seq<Seq<CellState>>, row: int, column: int) -> Option<CellState> {
    if on_board(g.len() as int, row, column) {
        Some(g[row][column])
    } else {
        None
    }
}

/// The abstracted state descriptor of the cell at `row`, `column`.
pub open spec fn spec_descriptor(g: Seq<Seq<CellState>>, row: usize, column: usize) -> StateDescriptor {
    StateDescriptor {
        left: spec_cell_at(g, row as int, column as int - 1),
        right: spec_cell_at(g, row as int, column as int + 1),
        down: spec_cell_at(g, row as int + 1, column as int),
        current: g[row as int][column as int],
        row,
        column,
    }
}

/// Equality of two optional cell states.
fn opt_cell_eq(a: Option<CellState>, b: Option<CellState>) -> (r: bool)
    ensures
        r == (a == b),
{
    match (a, b) {
        (Option::None, Option::None) => true,
        (Option::Some(x), Option::Some(y)) => x == y,
        _ => false,
    }
}

/// Equality of two state descriptors.
fn descriptor_eq(a: &StateDescriptor, b: &StateDescriptor) -> (r: bool)
    ensures
        r == (*a == *b),
{
    opt_cell_eq(a.left, b.left) && opt_cell_eq(a.right, b.right) && opt_cell_eq(a.down, b.down)
        && a.current == b.current && a.row == b.row && a.column == b.column
}

/// Read the abstracted state descriptor of the cell at `row`, `column`
/// off the board.
pub fn describe(board: &SimulationState, row: usize, column: usize) -> (d: StateDescriptor)
    requires
        board.wf(),
        row < board@.len(),
        column < board@.len(),
    ensures
        d == spec_descriptor(board@, row, column),
{
    let left = get_cell_with_bounds_check(board, Some(row), column.checked_sub(1));
    let right = get_cell_with_bounds_check(board, Some(row), column.checked_add(1));
    let down = get_cell_with_bounds_check(board, row.checked_add(1), Some(column));
    let current = board.get(row, column);
    proof {
        let g = board@;
        let n = g.len() as int;
        assert(n <= usize::MAX as int) by (nonlinear_arith)
            requires
                1 <= n,
                n * n <= usize::MAX as int,
        ;
        assert(left == spec_cell_at(g, row as int, column as int - 1));
        assert(right == spec_cell_at(g, row as int, column as int + 1));
        assert(down == spec_cell_at(g, row as int + 1, column as int));
    }
    StateDescriptor { left, right, down, current, row, column }
}

/// "Grow trunk and move up" is legal exactly when the agent stands on
/// the bottom row with empty left and right neighbors, or above row
/// zero with a trunk directly below.
pub open spec fn spec_trunk_legal(n: int, d: StateDescriptor) -> bool {
    ||| (d.row == n - 1 && d.left == Some(CellState::Dead) && d.right == Some(CellState::Dead))
    ||| (d.row > 0 && d.down == Some(CellState::Dying))
}

/// "Sprout leaves" is legal exactly when a trunk lies directly below
/// the agent and the agent's cell is not already a leaf.
pub open spec fn spec_sprout_legal(d: StateDescriptor) -> bool {
    d.down == Some(CellState::Dying) && d.current != CellState::Alive
}

/// Whether `action` is legal at descriptor `d` on a board of dimension
/// `n`; doing nothing is always legal.
pub open spec fn spec_action_legal(n: int, d: StateDescriptor, action: AgentAction) -> bool {
    match action {
        AgentAction::ToTrunk => spec_trunk_legal(n, d),
        AgentAction::SproutLeaves => spec_sprout_legal(d),
        AgentAction::DoNothing => true,
    }
}

/// Exec test for the trunk action's legality.
pub fn trunk_action_legal(n: usize, d: &StateDescriptor) -> (r: bool)
    requires
        n >= 1,
    ensures
        r == spec_trunk_legal(n as int, *d),
{
    (d.row == n - 1 && opt_cell_eq(d.left, Some(CellState::Dead)) && opt_cell_eq(
        d.right,
        Some(CellState::Dead),
    )) || (d.row > 0 && opt_cell_eq(d.down, Some(CellState::Dying)))
}

/// Exec test for the sprout action's legality.
pub fn sprout_action_legal(d: &StateDescriptor) -> (r: bool)
    ensures
        r == spec_sprout_legal(*d),
{
    opt_cell_eq(d.down, Some(CellState::Dying)) && !(d.current == CellState::Alive)
}

/// Sprouting leaves is never legal while the cell below the agent is
/// not a trunk.
pub proof fn lemma_sprout_needs_trunk_below(d: StateDescriptor)
    ensures
        spec_sprout_legal(d) ==> d.down == Some(CellState::Dying),
{
}

/// On a board with at least two rows, a legal trunk action never starts
/// at row zero, so taking it never moves the agent above the top row.
pub proof fn lemma_trunk_stays_on_board(n: int, d: StateDescriptor)
    requires
        n >= 2,
    ensures
        spec_trunk_legal(n, d) ==> d.row >= 1,
{
}

/// The legal actions at descriptor `d`, in a fixed order: doing nothing
/// first, then the trunk action, then sprouting.
pub open spec fn spec_actions(n: int, d: StateDescriptor) -> Seq<AgentAction> {
    let base = seq![AgentAction::DoNothing];
    let with_trunk = if spec_trunk_legal(n, d) {
        base.push(AgentAction::ToTrunk)
    } else {
        base
    };
    if spec_sprout_legal(d) {
        with_trunk.push(AgentAction::SproutLeaves)
    } else {
        with_trunk
    }
}

/// The training-time state of the tree agent: the whole board together
/// with the cached abstracted descriptor of the agent's surroundings.
///
/// `wf()` ties the cache to the board: the four cached cell states are
/// exactly what a fresh probe of the board at the agent's position
/// yields, the position is on the board, and the board has at least two
/// rows (one ground row and room to grow above it).
#[derive(Clone, Debug, PartialEq, Eq, Hash)]
pub struct SimState {
    pub board: SimulationState,
    pub left: Option<CellState>,
    pub right: Option<CellState>,
    pub down: Option<CellState>,
    pub current: CellState,
    pub row: usize,
    pub column: usize,
}

impl SimState {
    /// The cached abstracted descriptor.
    pub open spec fn descriptor(&self) -> StateDescriptor {
        StateDescriptor {
            left: self.left,
            right: self.right,
            down: self.down,
            current: self.current,
            row: self.row,
            column: self.column,
        }
    }

    /// Well-formedness: board shape, agent on the board, cache in sync.
    pub open spec fn wf(&self) -> bool {
        &&& self.board.wf()
        &&& self.board@.len() >= 2
        &&& self.row < self.board@.len()
        &&& self.column < self.board@.len()
        &&& self.descriptor() == spec_descriptor(self.board@, self.row, self.column)
    }

    /// The fixed training start state: an empty board of dimension `n`
    /// with the agent at the bottom-center cell and no action taken yet.
    pub fn new(n: usize) -> (r: Self)
        requires
            2 <= n,
            n * n <= usize::MAX,
        ensures
            r.wf(),
            r.board@.len() == n,
            r.board.is_filled_with(CellState::Dead),
            r.row == n - 1,
            r.column == n / 2,
    {
        let board = SimulationState::new_filled(n, CellState::Dead);
        let row = n - 1;
        let column = n / 2;
        let d = describe(&board, row, column);
        SimState {
            board,
            left: d.left,
            right: d.right,
            down: d.down,
            current: d.current,
            row,
            column,
        }
    }

    /// The exec copy of the cached descriptor.
    pub fn current_descriptor(&self) -> (d: StateDescriptor)
        ensures
            d == self.descriptor(),
    {
        StateDescriptor {
            left: self.left,
            right: self.right,
            down: self.down,
            current: self.current,
            row: self.row,
            column: self.column,
        }
    }

    /// The legal actions at the current state, in a fixed order.
    pub fn actions(&self) -> (r: Vec<AgentAction>)
        requires
            self.wf(),
        ensures
            r@ == spec_actions(self.board@.len() as int, self.descriptor()),
    {
        let n = self.board.dimension();
        let mut valid_actions: Vec<AgentAction> = Vec::new();
        valid_actions.push(AgentAction::DoNothing);

        let d = self.current_descriptor();

        // can turn to trunk:
        // 1) on the ground layer with free neighbor cells, or
        // 2) above the bottom with a trunk directly below
        if trunk_action_legal(n, &d) {
            valid_actions.push(AgentAction::ToTrunk);
        }

        // can sprout leaves if the cell below is trunk and we are not
        // already on a leaf cell
        if sprout_action_legal(&d) {
            valid_actions.push(AgentAction::SproutLeaves);
        }

        proof {
            assert(valid_actions@ =~= spec_actions(self.board@.len() as int, self.descriptor()));
        }
        valid_actions
    }

    /// The integer core of the training reward: one point per leaf cell
    /// plus one per hundred trunk cells — leaves weigh far more.
    pub fn reward(&self) -> (r: usize)
        requires
            self.wf(),
        ensures
            r as int == crate::grid::spec_board_count(self.board@, CellState::Dying) / 100
                + crate::grid::spec_board_count(self.board@, CellState::Alive),
    {
        let trunk_count = self.board.count_matching(CellState::Dying);
        let leaf_count = self.board.count_matching(CellState::Alive);
        proof {
            crate::grid::lemma_board_counts_disjoint(
                self.board@,
                CellState::Dying,
                CellState::Alive,
            );
        }
        trunk_count / 100 + leaf_count
    }
}

/// The board after `action` is applied at `row`, `column`: the trunk
/// action marks the cell as trunk; sprouting marks the cell and its
/// on-board left and right neighbors as leaves; doing nothing changes
/// nothing.
pub open spec fn spec_apply_action_board(
    g: Seq<Seq<CellState>>,
    row: int,
    column: int,
    action: AgentAction,
) -> Seq<Seq<CellState>> {
    match action {
        AgentAction::ToTrunk => g.update(row, g[row].update(column, CellState::Dying)),
        AgentAction::SproutLeaves => {
            let r0 = g[row].update(column, CellState::Alive);
            let r1 = if column > 0 {
                r0.update(column - 1, CellState::Alive)
            } else {
                r0
            };
            let r2 = if column + 1 < g.len() {
                r1.update(column + 1, CellState::Alive)
            } else {
                r1
            };
            g.update(row, r2)
        },
        AgentAction::DoNothing => g,
    }
}

impl SimState {
    /// Apply a legal action: mutate the board, move the agent for the
    /// trunk action, and refresh the cached descriptor.
    pub fn take_action(&mut self, action: &AgentAction)
        requires
            old(self).wf(),
            spec_action_legal(
                old(self).board@.len() as int,
                old(self).descriptor(),
                *action,
            ),
        ensures
            final(self).wf(),
            final(self).board@.len() == old(self).board@.len(),
            final(self).board@ == spec_apply_action_board(
                old(self).board@,
                old(self).row as int,
                old(self).column as int,
                *action,
            ),
            final(self).column == old(self).column,
            final(self).row == (if *action == AgentAction::ToTrunk {
                (old(self).row - 1) as usize
            } else {
                old(self).row
            }),
    {
        let n = self.board.dimension();
        match action {
            AgentAction::ToTrunk => {
                let row = self.row;
                let column = self.column;
                self.board.set(row, column, CellState::Dying);
                proof {
                    assert(self.board.wf());
                }
                let new_row = row - 1;
                let d = describe(&self.board, new_row, column);
                self.left = d.left;
                self.right = d.right;
                self.down = d.down;
                self.current = d.current;
                self.row = new_row;
            },
            AgentAction::SproutLeaves => {
                let row = self.row;
                let column = self.column;
                if column > 0 {
                    self.board.set(row, column - 1, CellState::Alive);
                }
                if column < n - 1 {
                    self.board.set(row, column + 1, CellState::Alive);
                }
                self.board.set(row, column, CellState::Alive);
                proof {
                    assert(self.board.wf());
                    assert(self.board@ =~~= spec_apply_action_board(
                        old(self).board@,
                        row as int,
                        column as int,
                        AgentAction::SproutLeaves,
                    ));
                }
                let d = describe(&self.board, row, column);
                self.left = d.left;
                self.right = d.right;
                self.down = d.down;
                self.current = d.current;
            },
            AgentAction::DoNothing => {
                // no-op
            },
        }
    }
}

/// One trained estimate: the expected value of taking `action` at the
/// abstracted state `state`, in a caller-chosen fixed-point scale.
#[derive(Clone, Copy, Debug, PartialEq, Eq)]
pub struct QEntry {
    pub state: StateDescriptor,
    pub action: AgentAction,
    pub value: i64,
}

/// The stored estimate for (`d`, `action`): the first matching entry's
/// value, or nothing when no entry matches.
pub open spec fn spec_lookup(
    entries: Seq<QEntry>,
    d: StateDescriptor,
    action: AgentAction,
) -> Option<i64>
    decreases entries.len(),
{
    if entries.len() == 0 {
        None
    } else if entries[0].state == d && entries[0].action == action {
        Some(entries[0].value)
    } else {
        spec_lookup(entries.subrange(1, entries.len() as int), d, action)
    }
}

/// The action the policy picks at descriptor `d`: among the two
/// state-changing actions that are legal at `d` and have a stored
/// estimate, the one with the strictly highest estimate; none when no
/// estimate exists or the estimates tie.
pub open spec fn spec_best_action(
    entries: Seq<QEntry>,
    n: int,
    d: StateDescriptor,
) -> Option<AgentAction> {
    let sprout = if spec_sprout_legal(d) {
        spec_lookup(entries, d, AgentAction::SproutLeaves)
    } else {
        None
    };
    let trunk = if spec_trunk_legal(n, d) {
        spec_lookup(entries, d, AgentAction::ToTrunk)
    } else {
        None
    };
    match (sprout, trunk) {
        (Option::None, Option::None) => None,
        (Option::Some(_), Option::None) => Some(AgentAction::SproutLeaves),
        (Option::None, Option::Some(_)) => Some(AgentAction::ToTrunk),
        (Option::Some(s), Option::Some(t)) => if s > t {
            Some(AgentAction::SproutLeaves)
        } else if t > s {
            Some(AgentAction::ToTrunk)
        } else {
            None
        },
    }
}

/// The policy picks an action only if that action is legal.
pub proof fn lemma_best_action_legal(entries: Seq<QEntry>, n: int, d: StateDescriptor)
    ensures
        spec_best_action(entries, n, d) == Some(AgentAction::SproutLeaves) ==> spec_sprout_legal(
            d,
        ),
        spec_best_action(entries, n, d) == Some(AgentAction::ToTrunk) ==> spec_trunk_legal(n, d),
        spec_best_action(entries, n, d) != Some(AgentAction::DoNothing),
{
}

/// The frozen, trained policy: expected values per (abstracted state,
/// action) pair. Built once by an offline trainer, then only read; a
/// pair that was never recorded has no estimate.
pub struct QModel {
    entries: Vec<QEntry>,
}

impl View for QModel {
    type V = Seq<QEntry>;

    closed spec fn view(&self) -> Seq<QEntry> {
        self.entries@
    }
}

impl QModel {
    /// An empty policy: every lookup yields no estimate.
    pub fn new() -> (r: Self)
        ensures
            r@ == Seq::<QEntry>::empty(),
    {
        QModel { entries: Vec::new() }
    }

    /// Record a trained estimate. Earlier entries shadow later ones, so
    /// a trainer should record each pair once.
    pub fn insert(&mut self, state: StateDescriptor, action: AgentAction, value: i64)
        ensures
            final(self)@ == old(self)@.push(QEntry { state, action, value }),
    {
        self.entries.push(QEntry { state, action, value });
    }

    /// The stored estimate for (`state`, `action`), if any.
    pub fn get_expected_value(&self, state: &StateDescriptor, action: &AgentAction) -> (r: Option<
        i64,
    >)
        ensures
            r == spec_lookup(self@, *state, *action),
    {
        let mut i: usize = 0;
        proof {
            assert(self@.subrange(0, self@.len() as int) =~= self@);
        }
        while i < self.entries.len()
            invariant
                i <= self.entries.len(),
                spec_lookup(self@, *state, *action) == spec_lookup(
                    self@.subrange(i as int, self@.len() as int),
                    *state,
                    *action,
                ),
            decreases self.entries.len() - i,
        {
            let e = &self.entries[i];
            let ghost rest = self@.subrange(i as int, self@.len() as int);
            if descriptor_eq(&e.state, state) && e.action == *action {
                proof {
                    assert(rest[0] == self@[i as int]);
                }
                return Some(e.value);
            }
            proof {
                assert(rest[0] == self@[i as int]);
                assert(rest.subrange(1, rest.len() as int) =~= self@.subrange(
                    i as int + 1,
                    self@.len() as int,
                ));
            }
            i = i + 1;
        }
        proof {
            assert(self@.subrange(i as int, self@.len() as int) =~= Seq::<QEntry>::empty());
        }
        None
    }

    /// Consult the policy at the abstracted descriptor of `row`,
    /// `column` on the given board and pick the legal state-changing
    /// action with the strictly highest estimate; `prev_move` is the
    /// agent's action memory, which the descriptor does not include.
    pub fn get_next_action(
        &self,
        simulation_state: &SimulationState,
        row: usize,
        column: usize,
        prev_move: Option<AgentAction>,
    ) -> (r: Option<AgentAction>)
        requires
            simulation_state.wf(),
            row < simulation_state@.len(),
            column < simulation_state@.len(),
    ensures
            r == spec_best_action(
                self@,
                simulation_state@.len() as int,
                spec_descriptor(simulation_state@, row, column),
            ),
    {
        let _ = prev_move;
        let n = simulation_state.dimension();
        let model_state = describe(simulation_state, row, column);

        let sprout_value = if sprout_action_legal(&model_state) {
            self.get_expected_value(&model_state, &AgentAction::SproutLeaves)
        } else {
            None
        };
        let trunk_value = if trunk_action_legal(n, &model_state) {
            self.get_expected_value(&model_state, &AgentAction::ToTrunk)
        } else {
            None
        };

        match (sprout_value, trunk_value) {
            (Option::None, Option::None) => None,
            (Option::Some(_), Option::None) => Some(AgentAction::SproutLeaves),
            (Option::None, Option::Some(_)) => Some(AgentAction::ToTrunk),
            (Option::Some(s), Option::Some(t)) => {
                if s > t {
                    Some(AgentAction::SproutLeaves)
                } else if t > s {
                    Some(AgentAction::ToTrunk)
                } else {
                    None
                }
            },
        }
    }
}

} // verus!
