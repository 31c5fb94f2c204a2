//! Cells, boards and the transition rule.
use crate::topology::{topology, Vec2};
use vstd::prelude::*;

verus! {

/// The state of one cell.
#[derive(Debug, Clone, Copy, PartialEq, Eq, Structural)]
pub enum CellState {
    /// The cell is live.
    Live,
    /// The cell is dead.
    Dead,
}

/// A cell: its state and the coordinates of its eight neighbors.
#[derive(Debug, Clone)]
pub struct Cell {
    pub state: CellState,
    pub neighbors: Vec<Vec2>,
}

/// The mathematical picture of a grid: rows of cell states, `b[y][x]`.
pub type Board = Seq<Seq<CellState>>;

/// The states of a grid of cells.
pub open spec fn board_of(grid: Seq<Vec<Cell>>) -> Board {
    Seq::new(grid.len(), |y: int| Seq::new(grid[y]@.len(), |x: int| grid[y]@[x].state))
}

/// The cell at `p` is live.
pub open spec fn live_at(b: Board, p: Vec2) -> bool {
    b[p.y as int][p.x as int] == CellState::Live
}

/// How many of the cells listed in `ps` are live.
pub open spec fn count_live(b: Board, ps: Seq<Vec2>) -> nat
    decreases ps.len(),
{
    if ps.len() == 0 {
        0
    } else {
        count_live(b, ps.drop_last()) + if live_at(b, ps.last()) {
            1nat
        } else {
            0nat
        }
    }
}

/// The number of live neighbors of `(x, y)` on the torus that `b` covers.
pub open spec fn live_neighbors(b: Board, x: int, y: int) -> nat {
    count_live(b, topology(x, y, b.len() as int, b[0].len() as int))
}

/// The state that a cell in state `s` with `n` live neighbors has in the
/// next generation.
pub open spec fn rule(s: CellState, n: int) -> CellState {
    if n < 2 {
        CellState::Dead
    } else if s == CellState::Live && (n == 2 || n == 3) {
        CellState::Live
    } else if s == CellState::Live && n > 3 {
        CellState::Dead
    } else if s == CellState::Dead && n == 3 {
        CellState::Live
    } else {
        s
    }
}

/// The next generation of `b`: every cell follows the rule, reading only `b`.
pub open spec fn next_board(b: Board) -> Board {
    Seq::new(
        b.len(),
        |y: int| Seq::new(b[y].len(), |x: int| rule(b[y][x], live_neighbors(b, x, y) as int)),
    )
}

/// A dead cell with exactly three live neighbors is live in the next
/// generation; with two or four it stays dead.
pub proof fn lemma_birth(b: Board, x: int, y: int)
    requires
        0 <= y < b.len(),
        0 <= x < b[y].len(),
        b[y][x] == CellState::Dead,
    ensures
        live_neighbors(b, x, y) == 3 ==> next_board(b)[y][x] == CellState::Live,
        live_neighbors(b, x, y) == 2 || live_neighbors(b, x, y) == 4 ==> next_board(b)[y][x]
            == CellState::Dead,
{
}

/// A live cell with no or one live neighbor dies of underpopulation; with
/// more than three it dies of overpopulation.
pub proof fn lemma_death(b: Board, x: int, y: int)
    requires
        0 <= y < b.len(),
        0 <= x < b[y].len(),
        b[y][x] == CellState::Live,
    ensures
        live_neighbors(b, x, y) <= 1 ==> next_board(b)[y][x] == CellState::Dead,
        live_neighbors(b, x, y) > 3 ==> next_board(b)[y][x] == CellState::Dead,
{
}

/// A live cell with two or three live neighbors stays live.
pub proof fn lemma_survival(b: Board, x: int, y: int)
    requires
        0 <= y < b.len(),
        0 <= x < b[y].len(),
        b[y][x] == CellState::Live,
    ensures
        live_neighbors(b, x, y) == 2 || live_neighbors(b, x, y) == 3 ==> next_board(b)[y][x]
            == CellState::Live,
{
}

/// Applies the rule to a cell in state `state` with `live` live neighbors.
pub fn apply_rule(state: CellState, live: usize) -> (r: CellState)
    ensures
        r == rule(state, live as int),
{
    let is_live = state == CellState::Live;
    if live < 2 {
        CellState::Dead
    } else if (live == 2 || live == 3) && is_live {
        CellState::Live
    } else if live > 3 && is_live {
        CellState::Dead
    } else if live == 3 && !is_live {
        CellState::Live
    } else {
        state
    }
}

impl Cell {
    /// A cell in state `state` that knows no neighbors yet.
    pub fn new(state: CellState) -> (r: Cell)
        ensures
            r.state == state,
            r.neighbors@.len() == 0,
    {
        Cell { state, neighbors: Vec::new() }
    }

    pub fn is_live(&self) -> (r: bool)
        ensures
            r == (self.state == CellState::Live),
    {
        self.state == CellState::Live
    }

    /// The number of this cell's neighbors that are live in `grid`.
    pub fn live_neighbor_count(&self, grid: &[Vec<Cell>]) -> (r: usize)
        requires
            forall|i: int|
                0 <= i < self.neighbors@.len() ==> {
                    &&& (#[trigger] self.neighbors@[i]).y < grid@.len()
                    &&& self.neighbors@[i].x < grid@[self.neighbors@[i].y as int]@.len()
                },
        ensures
            r == count_live(board_of(grid@), self.neighbors@),
    {
        let ghost b = board_of(grid@);
        let mut live_count: usize = 0;
        let n = self.neighbors.len();
        for i in 0..n
            invariant
                n == self.neighbors@.len(),
                b == board_of(grid@),
                live_count <= i,
                live_count == count_live(b, self.neighbors@.take(i as int)),
                forall|j: int|
                    0 <= j < self.neighbors@.len() ==> {
                        &&& (#[trigger] self.neighbors@[j]).y < grid@.len()
                        &&& self.neighbors@[j].x < grid@[self.neighbors@[j].y as int]@.len()
                    },
        {
            let p = self.neighbors[i];
            proof {
                let t = self.neighbors@.take(i + 1);
                assert(t.drop_last() =~= self.neighbors@.take(i as int));
                assert(t.last() == p);
            }
            if grid[p.y][p.x].is_live() {
                live_count += 1;
            }
        }
        assert(self.neighbors@.take(n as int) =~= self.neighbors@);
        live_count
    }
}

} // verus!
