use vstd::prelude::*;

use crate::cell::CellState;
use crate::util::ind;

verus! {

/// How many cells of a row hold `target`.
pub open spec fn spec_row_count(row: Seq<CellState>, target: CellState) -> int
    decreases row.len(),
{
    if row.len() == 0 {
        0
    } else {
        spec_row_count(row.drop_last(), target) + ind(row.last() == target)
    }
}

/// How many cells of a board hold `target`.
pub open spec fn spec_board_count(g: Seq<Seq<CellState>>, target: CellState) -> int
    decreases g.len(),
{
    if g.len() == 0 {
        0
    } else {
        spec_board_count(g.drop_last(), target) + spec_row_count(g.last(), target)
    }
}

/// The total number of cells on a board.
pub open spec fn spec_total_cells(g: Seq<Seq<CellState>>) -> int
    decreases g.len(),
{
    if g.len() == 0 {
        0
    } else {
        spec_total_cells(g.drop_last()) + g.last().len()
    }
}

/// Counting one more cell of a row extends the count by whether that
/// cell holds the target.
pub proof fn lemma_row_count_take_step(row: Seq<CellState>, target: CellState, j: int)
    requires
        0 <= j < row.len(),
    ensures
        spec_row_count(row.take(j + 1), target) == spec_row_count(row.take(j), target) + ind(
            row[j] == target,
        ),
{
    assert(row.take(j + 1).drop_last() =~= row.take(j));
    assert(row.take(j + 1).last() == row[j]);
}

/// A row's count is between zero and the row's length.
pub proof fn lemma_row_count_bounds(row: Seq<CellState>, target: CellState)
    ensures
        0 <= spec_row_count(row, target) <= row.len(),
    decreases row.len(),
{
    if row.len() > 0 {
        lemma_row_count_bounds(row.drop_last(), target);
    }
}

/// Counting one more row of a board extends the count by that row's
/// count.
pub proof fn lemma_board_count_take_step(g: Seq<Seq<CellState>>, target: CellState, i: int)
    requires
        0 <= i < g.len(),
    ensures
        spec_board_count(g.take(i + 1), target) == spec_board_count(g.take(i), target)
            + spec_row_count(g[i], target),
{
    assert(g.take(i + 1).drop_last() =~= g.take(i));
    assert(g.take(i + 1).last() == g[i]);
}

/// On a board whose rows all have length `n`, the count over the first
/// `i` rows is at most `i * n`.
pub proof fn lemma_board_count_prefix_bound(
    g: Seq<Seq<CellState>>,
    target: CellState,
    i: int,
    n: int,
)
    requires
        0 <= i <= g.len(),
        forall|k: int| 0 <= k < g.len() ==> (#[trigger] g[k]).len() == n,
    ensures
        0 <= spec_board_count(g.take(i), target) <= i * n,
    decreases i,
{
    if i == 0 {
        assert(g.take(0) =~= Seq::<Seq<CellState>>::empty());
    } else {
        lemma_board_count_prefix_bound(g, target, i - 1, n);
        lemma_board_count_take_step(g, target, i - 1);
        lemma_row_count_bounds(g[i - 1], target);
        assert((i - 1) * n + n == i * n) by (nonlinear_arith);
    }
}

/// A row's counts of two different targets together never exceed the
/// row's length.
pub proof fn lemma_row_counts_disjoint(row: Seq<CellState>, a: CellState, b: CellState)
    requires
        a != b,
    ensures
        spec_row_count(row, a) + spec_row_count(row, b) <= row.len(),
    decreases row.len(),
{
    if row.len() > 0 {
        lemma_row_counts_disjoint(row.drop_last(), a, b);
    }
}

/// A board's counts of two different targets together never exceed the
/// number of cells.
pub proof fn lemma_counts_within_total(g: Seq<Seq<CellState>>, a: CellState, b: CellState)
    requires
        a != b,
    ensures
        spec_board_count(g, a) + spec_board_count(g, b) <= spec_total_cells(g),
    decreases g.len(),
{
    if g.len() > 0 {
        lemma_counts_within_total(g.drop_last(), a, b);
        lemma_row_counts_disjoint(g.last(), a, b);
    }
}

/// On a board whose rows all have length `n`, the total cell count is
/// the number of rows times `n`.
pub proof fn lemma_total_cells_const_rows(g: Seq<Seq<CellState>>, n: int)
    requires
        forall|k: int| 0 <= k < g.len() ==> (#[trigger] g[k]).len() == n,
    ensures
        spec_total_cells(g) == g.len() * n,
    decreases g.len(),
{
    if g.len() == 0 {
    } else {
        lemma_total_cells_const_rows(g.drop_last(), n);
        assert((g.len() - 1) * n + n == g.len() * n) by (nonlinear_arith);
    }
}

/// On a well-formed board, the counts of two different targets together
/// never exceed the squared dimension.
pub proof fn lemma_board_counts_disjoint(g: Seq<Seq<CellState>>, a: CellState, b: CellState)
    requires
        a != b,
        forall|k: int| 0 <= k < g.len() ==> (#[trigger] g[k]).len() == g.len(),
    ensures
        spec_board_count(g, a) + spec_board_count(g, b) <= g.len() * g.len(),
        0 <= spec_board_count(g, a),
        0 <= spec_board_count(g, b),
{
    lemma_counts_within_total(g, a, b);
    lemma_total_cells_const_rows(g, g.len() as int);
    assert(g.take(g.len() as int) =~= g);
    lemma_board_count_prefix_bound(g, a, g.len() as int, g.len() as int);
    lemma_board_count_prefix_bound(g, b, g.len() as int, g.len() as int);
}

/// A square board of cells.
///
/// The board is viewed as a sequence of rows, each a sequence of cells.
/// `wf()` states the shape invariant: every row is as long as there are
/// rows, and the total cell count fits in a `usize` (a board that does
/// not satisfy the latter could not be addressed in memory).
#[derive(Clone, Debug, PartialEq, Eq, Hash)]
pub struct SimulationState {
    cells: Vec<Vec<CellState>>,
}

impl View for SimulationState {
    type V = Seq<Seq<CellState>>;

    closed spec fn view(&self) -> Seq<Seq<CellState>> {
        Seq::new(self.cells@.len() as nat, |i: int| self.cells@[i]@)
    }
}

impl SimulationState {
    /// Shape invariant of a board: square, and small enough to address.
    pub open spec fn wf(&self) -> bool {
        &&& forall|i: int|
            0 <= i < self@.len() ==> (#[trigger] self@[i]).len() == self@.len()
        &&& self@.len() * self@.len() <= usize::MAX
    }

    /// Every cell of the board holds `fill`.
    pub open spec fn is_filled_with(&self, fill: CellState) -> bool {
        forall|i: int, j: int|
            0 <= i < self@.len() && 0 <= j < self@.len() ==> #[trigger] self@[i][j] == fill
    }

    /// A fresh `n` by `n` board with every cell set to `fill`.
    pub fn new_filled(n: usize, fill: CellState) -> (r: Self)
        requires
            n * n <= usize::MAX,
        ensures
            r.wf(),
            r@.len() == n,
            r.is_filled_with(fill),
    {
        let mut cells: Vec<Vec<CellState>> = Vec::new();
        let mut i: usize = 0;
        while i < n
            invariant
                i <= n,
                cells@.len() == i,
                forall|k: int| 0 <= k < i ==> (#[trigger] cells@[k])@.len() == n,
                forall|k: int, j: int|
                    0 <= k < i && 0 <= j < n ==> #[trigger] cells@[k]@[j] == fill,
            decreases n - i,
        {
            let mut row: Vec<CellState> = Vec::new();
            let mut j: usize = 0;
            while j < n
                invariant
                    j <= n,
                    row@.len() == j,
                    forall|k: int| 0 <= k < j ==> #[trigger] row@[k] == fill,
                decreases n - j,
            {
                row.push(fill);
                j = j + 1;
            }
            cells.push(row);
            i = i + 1;
        }
        let r = SimulationState { cells };
        proof {
            assert(r@.len() == n);
            assert forall|i2: int| 0 <= i2 < r@.len() implies (#[trigger] r@[i2]).len()
                == r@.len() by {
                assert(r@[i2] == cells@[i2]@);
            }
            assert forall|i2: int, j2: int|
                0 <= i2 < r@.len() && 0 <= j2 < r@.len() implies #[trigger] r@[i2][j2]
                == fill by {
                assert(r@[i2] == cells@[i2]@);
            }
        }
        r
    }

    /// Number of rows (and, on a well-formed board, of columns).
    pub fn dimension(&self) -> (n: usize)
        ensures
            n == self@.len(),
    {
        self.cells.len()
    }

    /// Read the cell at `row`, `column`; both must be in bounds.
    pub fn get(&self, row: usize, column: usize) -> (r: CellState)
        requires
            row < self@.len(),
            column < self@[row as int].len(),
        ensures
            r == self@[row as int][column as int],
    {
        self.cells[row][column]
    }

    /// Overwrite the cell at `row`, `column`; both must be in bounds.
    pub fn set(&mut self, row: usize, column: usize, value: CellState)
        requires
            row < old(self)@.len(),
            column < old(self)@[row as int].len(),
        ensures
            final(self)@ == old(self)@.update(
                row as int,
                old(self)@[row as int].update(column as int, value),
            ),
    {
        self.cells[row][column] = value;
        proof {
            assert(self@ =~~= old(self)@.update(
                row as int,
                old(self)@[row as int].update(column as int, value),
            ));
        }
    }

    /// How many cells of the board hold `target`.
    pub fn count_matching(&self, target: CellState) -> (r: usize)
        requires
            self.wf(),
        ensures
            r as int == spec_board_count(self@, target),
    {
        let n = self.dimension();
        let mut count: usize = 0;
        let mut i: usize = 0;
        while i < n
            invariant
                self.wf(),
                n == self@.len(),
                i <= n,
                count as int == spec_board_count(self@.take(i as int), target),
            decreases n - i,
        {
            proof {
                lemma_board_count_prefix_bound(self@, target, i as int, n as int);
            }
            let mut j: usize = 0;
            while j < n
                invariant
                    self.wf(),
                    n == self@.len(),
                    i < n,
                    j <= n,
                    count as int == spec_board_count(self@.take(i as int), target)
                        + spec_row_count(self@[i as int].take(j as int), target),
                    spec_board_count(self@.take(i as int), target) <= i * n,
                decreases n - j,
            {
                proof {
                    lemma_row_count_bounds(self@[i as int].take(j as int), target);
                    assert(i * n + j < n * n) by (nonlinear_arith)
                        requires
                            0 <= i < n,
                            0 <= j < n,
                    ;
                    lemma_row_count_take_step(self@[i as int], target, j as int);
                }
                if self.get(i, j) == target {
                    count = count + 1;
                }
                j = j + 1;
            }
            proof {
                assert(self@[i as int].take(n as int) =~= self@[i as int]);
                lemma_board_count_take_step(self@, target, i as int);
            }
            i = i + 1;
        }
        proof {
            assert(self@.take(n as int) =~= self@);
        }
        count
    }

    /// Make this board an exact copy of `other`.
    pub fn copy_from(&mut self, other: &SimulationState)
        requires
            other.wf(),
        ensures
            final(self)@ == other@,
            final(self).wf(),
    {
        let n = other.dimension();
        let mut cells: Vec<Vec<CellState>> = Vec::new();
        let mut i: usize = 0;
        while i < n
            invariant
                other.wf(),
                n == other@.len(),
                i <= n,
                cells@.len() == i,
                forall|k: int| 0 <= k < i ==> (#[trigger] cells@[k])@ == other@[k],
            decreases n - i,
        {
            let mut row: Vec<CellState> = Vec::new();
            let mut j: usize = 0;
            while j < n
                invariant
                    other.wf(),
                    n == other@.len(),
                    i < n,
                    j <= n,
                    row@.len() == j,
                    forall|k: int| 0 <= k < j ==> #[trigger] row@[k] == other@[i as int][k],
                decreases n - j,
            {
                row.push(other.get(i, j));
                j = j + 1;
            }
            proof {
                assert(row@ =~= other@[i as int]);
            }
            cells.push(row);
            i = i + 1;
        }
        self.cells = cells;
        proof {
            assert(self@ =~~= other@);
        }
    }

    /// Replace a whole row; the new row must have the same length.
    pub fn set_row(&mut self, row: usize, values: Vec<CellState>)
        requires
            row < old(self)@.len(),
        ensures
            final(self)@ == old(self)@.update(row as int, values@),
    {
        self.cells.set(row, values);
        proof {
            assert(self@ =~~= old(self)@.update(row as int, values@));
        }
    }
}

} // verus!
