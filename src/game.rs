//! The game state: its grid, the generation counter, and the seed and draws
//! that the grid was initialized from.
use crate::config::Config;
use crate::grid::{apply_rule, board_of, live_neighbors, next_board, Board, Cell, CellState};
use crate::random::draw;
use crate::topology::{lemma_neighbors_in_range, neighbors_of, topology, Vec2};
use vstd::prelude::*;

verus! {

/// The state of a cell whose draw was `draw` under `seed`: live when the
/// wrapping sum of the two is even.
pub open spec fn seeded_state(seed: usize, draw: usize) -> CellState {
    if vstd::wrapping::usize_specs::wrapping_add(seed, draw) % 2 == 0 {
        CellState::Live
    } else {
        CellState::Dead
    }
}

/// The board that `draws`, one per cell in row-major order, give under `seed`.
pub open spec fn seeded_board(rows: int, cols: int, seed: usize, draws: Seq<usize>) -> Board {
    Seq::new(rows as nat, |y: int| Seq::new(cols as nat, |x: int| seeded_state(seed, draws[y * cols + x])))
}

/// The state of a game.
#[derive(Debug)]
pub struct Game {
    /// The cells, row by row.
    pub grid: Vec<Vec<Cell>>,
    /// The number of generations computed so far.
    pub generation: usize,
    /// The seed that the grid was initialized with.
    pub seed: usize,
    /// The random draws, one per cell in row-major order, that were added to
    /// the seed during initialization; replaying them rebuilds the grid.
    pub numbers_added: Vec<usize>,
}

/// The state of a cell after the grid is resized: kept where the old grid
/// had the cell, dead elsewhere.
pub open spec fn resized_board(b: Board, rows: int, cols: int) -> Board {
    Seq::new(
        rows as nat,
        |y: int|
            Seq::new(
                cols as nat,
                |x: int|
                    if y < b.len() && x < b[y].len() {
                        b[y][x]
                    } else {
                        CellState::Dead
                    },
            ),
    )
}

fn copy_coords(v: &Vec<Vec2>) -> (r: Vec<Vec2>)
    ensures
        r@ == v@,
{
    let mut r: Vec<Vec2> = Vec::new();
    for i in 0..v.len()
        invariant
            r@ == v@.take(i as int),
    {
        r.push(v[i]);
        assert(r@ =~= v@.take(i + 1));
    }
    assert(v@.take(v@.len() as int) =~= v@);
    r
}

impl Game {
    /// Number of rows of the grid.
    pub open spec fn rows(&self) -> int {
        self.grid@.len() as int
    }

    /// Number of columns of the grid.
    pub open spec fn cols(&self) -> int {
        self.grid@[0]@.len() as int
    }

    /// The states of the cells.
    pub open spec fn board(&self) -> Board {
        board_of(self.grid@)
    }

    /// The grid has at least one cell and all its rows are equally long.
    pub open spec fn rectangular(&self) -> bool {
        &&& self.rows() >= 1
        &&& self.cols() >= 1
        &&& forall|y: int| 0 <= y < self.rows() ==> (#[trigger] self.grid@[y])@.len() == self.cols()
    }

    /// The grid is rectangular and every cell knows its eight neighbors on
    /// the torus of the grid's size.
    pub open spec fn wf(&self) -> bool {
        &&& self.rectangular()
        &&& forall|y: int, x: int|
            0 <= y < self.rows() && 0 <= x < self.cols() ==> (#[trigger] self.grid@[y]@[x]).neighbors@
                == topology(x, y, self.rows(), self.cols())
    }

    /// Sets each cell's neighbors anew from the grid's dimensions; the old
    /// neighbor lists are discarded, not patched.
    pub fn set_cell_neighbors(&mut self)
        requires
            old(self).rectangular(),
        ensures
            final(self).wf(),
            final(self).board() == old(self).board(),
            final(self).rows() == old(self).rows(),
            final(self).cols() == old(self).cols(),
            final(self).generation == old(self).generation,
            final(self).seed == old(self).seed,
            final(self).numbers_added == old(self).numbers_added,
    {
        let ghost b = self.board();
        let rows = self.grid.len();
        let cols = self.grid[0].len();
        for y in 0..rows
            invariant
                rows == self.grid@.len(),
                cols == self.grid@[0]@.len(),
                self.rectangular(),
                self.board() == b,
                self.generation == old(self).generation,
                self.seed == old(self).seed,
                self.numbers_added == old(self).numbers_added,
                forall|y1: int, x1: int|
                    0 <= y1 < y && 0 <= x1 < cols ==> (#[trigger] self.grid@[y1]@[x1]).neighbors@
                        == topology(x1, y1, rows as int, cols as int),
        {
            for x in 0..cols
                invariant
                    0 <= y < rows,
                    rows == self.grid@.len(),
                    cols == self.grid@[0]@.len(),
                    self.rectangular(),
                    self.board() == b,
                    self.generation == old(self).generation,
                    self.seed == old(self).seed,
                    self.numbers_added == old(self).numbers_added,
                    forall|y1: int, x1: int|
                        (0 <= y1 < y && 0 <= x1 < cols) || (y1 == y && 0 <= x1 < x)
                            ==> (#[trigger] self.grid@[y1]@[x1]).neighbors@ == topology(
                            x1,
                            y1,
                            rows as int,
                            cols as int,
                        ),
            {
                let ns = neighbors_of(x, y, rows, cols);
                let ghost before = self.grid@;
                self.grid[y][x].neighbors = ns;
                assert(board_of(self.grid@) =~~= board_of(before));
            }
        }
    }

    /// A game at generation 0 whose grid of `rows` by `cols` cells is rebuilt
    /// from `seed` and the draws `numbers_added`, one per cell in row-major
    /// order.
    pub fn replay(rows: usize, cols: usize, seed: usize, numbers_added: Vec<usize>) -> (g: Game)
        requires
            rows >= 1,
            cols >= 1,
            numbers_added@.len() == rows * cols,
        ensures
            g.wf(),
            g.rows() == rows,
            g.cols() == cols,
            g.board() == seeded_board(rows as int, cols as int, seed, numbers_added@),
            g.generation == 0,
            g.seed == seed,
            g.numbers_added@ == numbers_added@,
    {
        let ghost target = seeded_board(rows as int, cols as int, seed, numbers_added@);
        let n = numbers_added.len();
        let mut grid: Vec<Vec<Cell>> = Vec::new();
        let mut i: usize = 0;
        let mut y: usize = 0;
        while y < rows
            invariant
                n == numbers_added@.len(),
                n == rows * cols,
                target == seeded_board(rows as int, cols as int, seed, numbers_added@),
                y <= rows,
                i == y * cols,
                grid@.len() == y,
                forall|y1: int| 0 <= y1 < y ==> (#[trigger] grid@[y1])@.len() == cols,
                forall|y1: int, x1: int|
                    0 <= y1 < y && 0 <= x1 < cols ==> (#[trigger] grid@[y1]@[x1]).state
                        == target[y1][x1],
            decreases rows - y,
        {
            let mut row: Vec<Cell> = Vec::new();
            let mut x: usize = 0;
            while x < cols
                invariant
                    y < rows,
                    x <= cols,
                    target == seeded_board(rows as int, cols as int, seed, numbers_added@),
                    n == numbers_added@.len(),
                    n == rows * cols,
                    i == y * cols + x,
                    row@.len() == x,
                    forall|x1: int| 0 <= x1 < x ==> (#[trigger] row@[x1]).state == target[y as int][x1],
                decreases cols - x,
            {
                assert(i < rows * cols) by (nonlinear_arith)
                    requires
                        i == y * cols + x,
                        x < cols,
                        y < rows,
                ;
                let state = if seed.wrapping_add(numbers_added[i]) % 2 == 0 {
                    CellState::Live
                } else {
                    CellState::Dead
                };
                assert(target[y as int][x as int] == seeded_state(seed, numbers_added@[i as int]));
                row.push(Cell::new(state));
                i = i + 1;
                x = x + 1;
            }
            assert(i == (y + 1) * cols) by (nonlinear_arith)
                requires
                    i == y * cols + cols,
            ;
            grid.push(row);
            y = y + 1;
        }
        let mut g = Game { grid, generation: 0, seed, numbers_added };
        assert(g.board() =~~= target);
        g.set_cell_neighbors();
        g
    }

    /// A game at generation 0 with a grid of the configured size. The seed is
    /// the configured one, or a random one when none is configured; each
    /// cell draws a random number, which is recorded, and is live when the
    /// wrapping sum of the seed and its draw is even.
    ///
    /// The draws do not derive from the seed, so the seed alone does not
    /// determine the grid: the recorded draws are what reproduces it, through
    /// `replay`.
    pub fn new(config: &Config) -> (g: Game)
        requires
            config.valid(),
        ensures
            g.wf(),
            g.rows() == config.rows_of(),
            g.cols() == config.cols_of(),
            g.generation == 0,
            config.seed is Some ==> g.seed == config.seed.unwrap(),
            g.numbers_added@.len() == config.rows_of() * config.cols_of(),
            g.board() == seeded_board(g.rows(), g.cols(), g.seed, g.numbers_added@),
    {
        let rows = config.rows();
        let cols = config.cols();
        let seed = match config.seed {
            Some(s) => s,
            None => draw(),
        };
        let mut numbers_added: Vec<usize> = Vec::new();
        let mut y: usize = 0;
        while y < rows
            invariant
                y <= rows,
                numbers_added@.len() == y * cols,
            decreases rows - y,
        {
            let mut x: usize = 0;
            while x < cols
                invariant
                    x <= cols,
                    numbers_added@.len() == y * cols + x,
                decreases cols - x,
            {
                numbers_added.push(draw());
                x = x + 1;
            }
            assert(numbers_added@.len() == (y + 1) * cols) by (nonlinear_arith)
                requires
                    numbers_added@.len() == y * cols + cols,
            ;
            y = y + 1;
        }
        Game::replay(rows, cols, seed, numbers_added)
    }

    /// Computes the next generation: every cell follows the rule, reading
    /// only the current grid, and the result replaces it.
    pub fn step(&mut self)
        requires
            old(self).wf(),
            old(self).generation < usize::MAX,
        ensures
            final(self).wf(),
            final(self).rows() == old(self).rows(),
            final(self).cols() == old(self).cols(),
            final(self).board() == next_board(old(self).board()),
            final(self).generation == old(self).generation + 1,
            final(self).seed == old(self).seed,
            final(self).numbers_added == old(self).numbers_added,
    {
        let ghost b = self.board();
        let ghost target = next_board(b);
        let rows = self.grid.len();
        let cols = self.grid[0].len();
        let mut future: Vec<Vec<Cell>> = Vec::new();
        for y in 0..rows
            invariant
                self.wf(),
                b == self.board(),
                target == next_board(b),
                rows == self.rows(),
                cols == self.cols(),
                future@.len() == y,
                forall|y1: int| 0 <= y1 < y ==> (#[trigger] future@[y1])@.len() == cols,
                forall|y1: int, x1: int|
                    0 <= y1 < y && 0 <= x1 < cols ==> {
                        &&& (#[trigger] future@[y1]@[x1]).state == target[y1][x1]
                        &&& future@[y1]@[x1].neighbors@ == topology(x1, y1, rows as int, cols as int)
                    },
        {
            let mut row: Vec<Cell> = Vec::new();
            for x in 0..cols
                invariant
                    0 <= y < rows,
                    self.wf(),
                    b == self.board(),
                    target == next_board(b),
                    rows == self.rows(),
                    cols == self.cols(),
                    row@.len() == x,
                    forall|x1: int|
                        0 <= x1 < x ==> {
                            &&& (#[trigger] row@[x1]).state == target[y as int][x1]
                            &&& row@[x1].neighbors@ == topology(x1, y as int, rows as int, cols as int)
                        },
            {
                let cell = &self.grid[y][x];
                proof {
                    lemma_neighbors_in_range(x as int, y as int, rows as int, cols as int);
                    assert(self.grid@[y as int]@[x as int].neighbors@ == topology(x as int, y as int, rows as int, cols as int));
                }
                let live = cell.live_neighbor_count(self.grid.as_slice());
                assert(live == live_neighbors(b, x as int, y as int));
                let state = apply_rule(cell.state, live);
                row.push(Cell { state, neighbors: copy_coords(&cell.neighbors) });
            }
            future.push(row);
        }
        self.generation = self.generation + 1;
        self.grid = future;
        assert(self.board() =~~= target);
    }

    /// Reallocates the grid at `rows` by `cols` cells and rebuilds the
    /// neighbors: a cell that the old grid had keeps its state, a new cell is
    /// dead.
    pub fn resize(&mut self, rows: usize, cols: usize)
        requires
            old(self).wf(),
            rows >= 1,
            cols >= 1,
        ensures
            final(self).wf(),
            final(self).rows() == rows,
            final(self).cols() == cols,
            final(self).board() == resized_board(old(self).board(), rows as int, cols as int),
            final(self).generation == old(self).generation,
            final(self).seed == old(self).seed,
            final(self).numbers_added == old(self).numbers_added,
    {
        let ghost b = self.board();
        let ghost target = resized_board(b, rows as int, cols as int);
        let old_rows = self.grid.len();
        let old_cols = self.grid[0].len();
        let mut grid: Vec<Vec<Cell>> = Vec::new();
        for y in 0..rows
            invariant
                self.wf(),
                b == self.board(),
                target == resized_board(b, rows as int, cols as int),
                old_rows == self.rows(),
                old_cols == self.cols(),
                grid@.len() == y,
                forall|y1: int| 0 <= y1 < y ==> (#[trigger] grid@[y1])@.len() == cols,
                forall|y1: int, x1: int|
                    0 <= y1 < y && 0 <= x1 < cols ==> (#[trigger] grid@[y1]@[x1]).state
                        == target[y1][x1],
        {
            let mut row: Vec<Cell> = Vec::new();
            for x in 0..cols
                invariant
                    0 <= y < rows,
                    self.wf(),
                    b == self.board(),
                    target == resized_board(b, rows as int, cols as int),
                    old_rows == self.rows(),
                    old_cols == self.cols(),
                    row@.len() == x,
                    forall|x1: int| 0 <= x1 < x ==> (#[trigger] row@[x1]).state == target[y as int][x1],
            {
                let state = if y < old_rows && x < old_cols {
                    self.grid[y][x].state
                } else {
                    CellState::Dead
                };
                row.push(Cell::new(state));
            }
            grid.push(row);
        }
        self.grid = grid;
        assert(self.board() =~~= target);
        self.set_cell_neighbors();
    }
}

} // verus!
