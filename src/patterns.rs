//! Patterns placed anywhere on the torus, and the oscillator and spaceship
//! laws that the rule gives them.
use crate::grid::{count_live, live_at, live_neighbors, next_board, rule, Board, CellState};
use crate::topology::{lemma_wrap, neighbor, offset_x, offset_y, topology};
use vstd::arithmetic::div_mod::{lemma_add_mod_noop_right, lemma_mod_bound};
use vstd::prelude::*;

verus! {

/// The state of a cell that a pattern marks (live) or not (dead).
pub open spec fn state_of(live: bool) -> CellState {
    if live {
        CellState::Live
    } else {
        CellState::Dead
    }
}

/// The board of `rows` by `cols` cells on which the live cells are those
/// that `p` marks, in coordinates relative to the origin `(ox, oy)` and
/// wrapped around the torus.
pub open spec fn placed(rows: int, cols: int, ox: int, oy: int, p: spec_fn(int, int) -> bool) -> Board {
    Seq::new(
        rows as nat,
        |y: int| Seq::new(cols as nat, |x: int| state_of(p((x - ox) % cols, (y - oy) % rows))),
    )
}

/// How many of the first `n` neighbors of the relative cell `(u, v)` the
/// pattern `p` marks.
pub open spec fn rel_count(p: spec_fn(int, int) -> bool, rows: int, cols: int, u: int, v: int, n: int) -> nat
    decreases n,
{
    if n <= 0 {
        0
    } else {
        rel_count(p, rows, cols, u, v, n - 1) + if p((u + offset_x(n - 1)) % cols, (v + offset_y(n - 1)) % rows) {
            1nat
        } else {
            0nat
        }
    }
}

/// Under the rule, the pattern `p` becomes the pattern `q` on a torus of
/// `rows` by `cols` cells, wherever it is placed.
pub open spec fn steps_to(p: spec_fn(int, int) -> bool, q: spec_fn(int, int) -> bool, rows: int, cols: int) -> bool {
    forall|u: int, v: int|
        0 <= u < cols && 0 <= v < rows ==> rule(state_of(p(u, v)), #[trigger] rel_count(p, rows, cols, u, v, 8) as int)
            == state_of(q(u, v))
}

proof fn lemma_rel_coord(a: int, d: int, o: int, m: int)
    requires
        0 < m,
    ensures
        ((a + d) % m - o) % m == ((a - o) % m + d) % m,
{
    lemma_add_mod_noop_right(-o, a + d, m);
    lemma_add_mod_noop_right(d, a - o, m);
    assert((-o + (a + d) % m) == ((a + d) % m - o));
    assert((d + (a - o) % m) == ((a - o) % m + d));
    assert(-o + (a + d) == d + (a - o));
}

proof fn lemma_count_rel(
    rows: int,
    cols: int,
    ox: int,
    oy: int,
    p: spec_fn(int, int) -> bool,
    x: int,
    y: int,
    n: int,
)
    requires
        1 <= rows <= usize::MAX,
        1 <= cols <= usize::MAX,
        0 <= x < cols,
        0 <= y < rows,
        0 <= n <= 8,
    ensures
        count_live(placed(rows, cols, ox, oy, p), topology(x, y, rows, cols).take(n)) == rel_count(
            p,
            rows,
            cols,
            (x - ox) % cols,
            (y - oy) % rows,
            n,
        ),
    decreases n,
{
    if n > 0 {
        let t = topology(x, y, rows, cols);
        let b = placed(rows, cols, ox, oy, p);
        lemma_count_rel(rows, cols, ox, oy, p, x, y, n - 1);
        assert(t.take(n).drop_last() =~= t.take(n - 1));
        let k = n - 1;
        let nb = neighbor(x, y, rows, cols, k);
        assert(t.take(n).last() == nb);
        let nx = (x + offset_x(k)) % cols;
        let ny = (y + offset_y(k)) % rows;
        lemma_mod_bound(x + offset_x(k), cols);
        lemma_mod_bound(y + offset_y(k), rows);
        assert(nb.x as int == nx);
        assert(nb.y as int == ny);
        lemma_rel_coord(x, offset_x(k), ox, cols);
        lemma_rel_coord(y, offset_y(k), oy, rows);
        assert(live_at(b, nb) == p(((x - ox) % cols + offset_x(k)) % cols, ((y - oy) % rows + offset_y(k)) % rows));
    }
}

/// Where `p` steps to `q`, the next generation of `p` placed anywhere is `q`
/// placed at the same origin.
pub proof fn lemma_placed_step(
    rows: int,
    cols: int,
    ox: int,
    oy: int,
    p: spec_fn(int, int) -> bool,
    q: spec_fn(int, int) -> bool,
)
    requires
        1 <= rows <= usize::MAX,
        1 <= cols <= usize::MAX,
        steps_to(p, q, rows, cols),
    ensures
        next_board(placed(rows, cols, ox, oy, p)) == placed(rows, cols, ox, oy, q),
{
    let b = placed(rows, cols, ox, oy, p);
    let c = placed(rows, cols, ox, oy, q);
    assert forall|y: int, x: int| 0 <= y < rows && 0 <= x < cols implies #[trigger] next_board(b)[y][x] == c[y][x] by {
        lemma_count_rel(rows, cols, ox, oy, p, x, y, 8);
        assert(topology(x, y, rows, cols).take(8) =~= topology(x, y, rows, cols));
        lemma_mod_bound(x - ox, cols);
        lemma_mod_bound(y - oy, rows);
        assert(live_neighbors(b, x, y) == rel_count(p, rows, cols, (x - ox) % cols, (y - oy) % rows, 8));
    }
    assert(next_board(b) =~~= c);
}

/// A horizontal row of three cells, in the middle row of a 3 by 3 box.
pub open spec fn blinker_horizontal() -> spec_fn(int, int) -> bool {
    |u: int, v: int| v == 1 && 0 <= u <= 2
}

/// A vertical column of three cells, in the middle column of a 3 by 3 box.
pub open spec fn blinker_vertical() -> spec_fn(int, int) -> bool {
    |u: int, v: int| u == 1 && 0 <= v <= 2
}

proof fn lemma_blinker_steps(rows: int, cols: int)
    requires
        rows >= 5,
        cols >= 5,
    ensures
        steps_to(blinker_horizontal(), blinker_vertical(), rows, cols),
        steps_to(blinker_vertical(), blinker_horizontal(), rows, cols),
{
    reveal_with_fuel(rel_count, 9);
    assert forall|u: int, v: int| 0 <= u < cols && 0 <= v < rows implies rule(
        state_of(blinker_horizontal()(u, v)),
        #[trigger] rel_count(blinker_horizontal(), rows, cols, u, v, 8) as int,
    ) == state_of(blinker_vertical()(u, v)) by {
        lemma_wrap(u - 1, cols);
        lemma_wrap(u, cols);
        lemma_wrap(u + 1, cols);
        lemma_wrap(v - 1, rows);
        lemma_wrap(v, rows);
        lemma_wrap(v + 1, rows);
    }
    assert forall|u: int, v: int| 0 <= u < cols && 0 <= v < rows implies rule(
        state_of(blinker_vertical()(u, v)),
        #[trigger] rel_count(blinker_vertical(), rows, cols, u, v, 8) as int,
    ) == state_of(blinker_horizontal()(u, v)) by {
        lemma_wrap(u - 1, cols);
        lemma_wrap(u, cols);
        lemma_wrap(u + 1, cols);
        lemma_wrap(v - 1, rows);
        lemma_wrap(v, rows);
        lemma_wrap(v + 1, rows);
    }
}

/// A blinker on a torus of at least 5 by 5 cells, wherever it stands,
/// turns from horizontal to vertical and back, and so is horizontal again
/// after exactly two generations (and not after one).
pub proof fn lemma_blinker(rows: int, cols: int, ox: int, oy: int)
    requires
        5 <= rows <= usize::MAX,
        5 <= cols <= usize::MAX,
    ensures
        next_board(placed(rows, cols, ox, oy, blinker_horizontal())) == placed(
            rows,
            cols,
            ox,
            oy,
            blinker_vertical(),
        ),
        next_board(placed(rows, cols, ox, oy, blinker_vertical())) == placed(
            rows,
            cols,
            ox,
            oy,
            blinker_horizontal(),
        ),
        next_board(next_board(placed(rows, cols, ox, oy, blinker_horizontal()))) == placed(
            rows,
            cols,
            ox,
            oy,
            blinker_horizontal(),
        ),
        placed(rows, cols, ox, oy, blinker_vertical()) != placed(
            rows,
            cols,
            ox,
            oy,
            blinker_horizontal(),
        ),
{
    lemma_blinker_steps(rows, cols);
    lemma_placed_step(rows, cols, ox, oy, blinker_horizontal(), blinker_vertical());
    lemma_placed_step(rows, cols, ox, oy, blinker_vertical(), blinker_horizontal());
    let x = (ox + 1) % cols;
    let y = oy % rows;
    lemma_wrap(1, cols);
    lemma_rel_coord(ox, 1, ox, cols);
    lemma_rel_coord(oy, 0, oy, rows);
    lemma_wrap(0, rows);
    lemma_wrap(0, cols);
    lemma_mod_bound(ox + 1, cols);
    lemma_mod_bound(oy, rows);
    assert(((x - ox) % cols) == 1);
    assert(((y - oy) % rows) == 0);
    assert(placed(rows, cols, ox, oy, blinker_vertical())[y][x] != placed(
        rows,
        cols,
        ox,
        oy,
        blinker_horizontal(),
    )[y][x]);
}

/// The glider: a cell at the top middle, one at the right of the middle
/// row, and the whole bottom row of a 3 by 3 box.
pub open spec fn glider_phase0() -> spec_fn(int, int) -> bool {
    |u: int, v: int| (u == 1 && v == 0) || (u == 2 && v == 1) || (u == 0 && v == 2) || (u == 1 && v == 2) || (u == 2 && v == 2)
}

/// The glider one generation on.
pub open spec fn glider_phase1() -> spec_fn(int, int) -> bool {
    |u: int, v: int| (u == 0 && v == 1) || (u == 2 && v == 1) || (u == 1 && v == 2) || (u == 2 && v == 2) || (u == 1 && v == 3)
}

/// The glider two generations on.
pub open spec fn glider_phase2() -> spec_fn(int, int) -> bool {
    |u: int, v: int| (u == 2 && v == 1) || (u == 0 && v == 2) || (u == 2 && v == 2) || (u == 1 && v == 3) || (u == 2 && v == 3)
}

/// The glider three generations on.
pub open spec fn glider_phase3() -> spec_fn(int, int) -> bool {
    |u: int, v: int| (u == 1 && v == 1) || (u == 2 && v == 2) || (u == 3 && v == 2) || (u == 1 && v == 3) || (u == 2 && v == 3)
}

/// The glider four generations on: the first phase moved one cell right and
/// one cell down.
pub open spec fn glider_phase4() -> spec_fn(int, int) -> bool {
    |u: int, v: int| (u == 2 && v == 1) || (u == 3 && v == 2) || (u == 1 && v == 3) || (u == 2 && v == 3) || (u == 3 && v == 3)
}

#[verifier::rlimit(50)]
proof fn lemma_glider_step0(rows: int, cols: int)
    requires
        rows >= 6,
        cols >= 6,
    ensures
        steps_to(glider_phase0(), glider_phase1(), rows, cols),
{
    reveal_with_fuel(rel_count, 9);
    assert forall|u: int, v: int| 0 <= u < cols && 0 <= v < rows implies rule(
        state_of(glider_phase0()(u, v)),
        #[trigger] rel_count(glider_phase0(), rows, cols, u, v, 8) as int,
    ) == state_of(glider_phase1()(u, v)) by {
        lemma_wrap(u - 1, cols);
        lemma_wrap(u, cols);
        lemma_wrap(u + 1, cols);
        lemma_wrap(v - 1, rows);
        lemma_wrap(v, rows);
        lemma_wrap(v + 1, rows);
    }
}

#[verifier::rlimit(50)]
proof fn lemma_glider_step1(rows: int, cols: int)
    requires
        rows >= 6,
        cols >= 6,
    ensures
        steps_to(glider_phase1(), glider_phase2(), rows, cols),
{
    reveal_with_fuel(rel_count, 9);
    assert forall|u: int, v: int| 0 <= u < cols && 0 <= v < rows implies rule(
        state_of(glider_phase1()(u, v)),
        #[trigger] rel_count(glider_phase1(), rows, cols, u, v, 8) as int,
    ) == state_of(glider_phase2()(u, v)) by {
        lemma_wrap(u - 1, cols);
        lemma_wrap(u, cols);
        lemma_wrap(u + 1, cols);
        lemma_wrap(v - 1, rows);
        lemma_wrap(v, rows);
        lemma_wrap(v + 1, rows);
    }
}

#[verifier::rlimit(50)]
proof fn lemma_glider_step2(rows: int, cols: int)
    requires
        rows >= 6,
        cols >= 6,
    ensures
        steps_to(glider_phase2(), glider_phase3(), rows, cols),
{
    reveal_with_fuel(rel_count, 9);
    assert forall|u: int, v: int| 0 <= u < cols && 0 <= v < rows implies rule(
        state_of(glider_phase2()(u, v)),
        #[trigger] rel_count(glider_phase2(), rows, cols, u, v, 8) as int,
    ) == state_of(glider_phase3()(u, v)) by {
        lemma_wrap(u - 1, cols);
        lemma_wrap(u, cols);
        lemma_wrap(u + 1, cols);
        lemma_wrap(v - 1, rows);
        lemma_wrap(v, rows);
        lemma_wrap(v + 1, rows);
    }
}

#[verifier::rlimit(50)]
proof fn lemma_glider_step3(rows: int, cols: int)
    requires
        rows >= 6,
        cols >= 6,
    ensures
        steps_to(glider_phase3(), glider_phase4(), rows, cols),
{
    reveal_with_fuel(rel_count, 9);
    assert forall|u: int, v: int| 0 <= u < cols && 0 <= v < rows implies rule(
        state_of(glider_phase3()(u, v)),
        #[trigger] rel_count(glider_phase3(), rows, cols, u, v, 8) as int,
    ) == state_of(glider_phase4()(u, v)) by {
        lemma_wrap(u - 1, cols);
        lemma_wrap(u, cols);
        lemma_wrap(u + 1, cols);
        lemma_wrap(v - 1, rows);
        lemma_wrap(v, rows);
        lemma_wrap(v + 1, rows);
    }
}

/// The cell at `(u, v)` from the origin shows what `p` marks there.
proof fn lemma_placed_at(rows: int, cols: int, ox: int, oy: int, p: spec_fn(int, int) -> bool, u: int, v: int)
    requires
        1 <= rows,
        1 <= cols,
        0 <= u < cols,
        0 <= v < rows,
    ensures
        0 <= (ox + u) % cols < cols,
        0 <= (oy + v) % rows < rows,
        placed(rows, cols, ox, oy, p)[(oy + v) % rows][(ox + u) % cols] == state_of(p(u, v)),
{
    lemma_mod_bound(ox + u, cols);
    lemma_mod_bound(oy + v, rows);
    lemma_rel_coord(ox, u, ox, cols);
    lemma_rel_coord(oy, v, oy, rows);
    lemma_wrap(0, cols);
    lemma_wrap(0, rows);
    lemma_wrap(u, cols);
    lemma_wrap(v, rows);
}

/// A glider on a torus of at least 6 by 6 cells, wherever it stands, is the
/// same glider moved one cell right and one cell down after exactly four
/// generations: the three generations between differ from it.
pub proof fn lemma_glider(rows: int, cols: int, ox: int, oy: int)
    requires
        6 <= rows <= usize::MAX,
        6 <= cols <= usize::MAX,
    ensures
        next_board(next_board(next_board(next_board(placed(rows, cols, ox, oy, glider_phase0())))))
            == placed(rows, cols, ox + 1, oy + 1, glider_phase0()),
        next_board(placed(rows, cols, ox, oy, glider_phase0())) != placed(rows, cols, ox + 1, oy + 1, glider_phase0()),
        next_board(next_board(placed(rows, cols, ox, oy, glider_phase0()))) != placed(rows, cols, ox + 1, oy + 1, glider_phase0()),
        next_board(next_board(next_board(placed(rows, cols, ox, oy, glider_phase0())))) != placed(rows, cols, ox + 1, oy + 1, glider_phase0()),
{
    lemma_glider_step0(rows, cols);
    lemma_glider_step1(rows, cols);
    lemma_glider_step2(rows, cols);
    lemma_glider_step3(rows, cols);
    lemma_placed_step(rows, cols, ox, oy, glider_phase0(), glider_phase1());
    lemma_placed_step(rows, cols, ox, oy, glider_phase1(), glider_phase2());
    lemma_placed_step(rows, cols, ox, oy, glider_phase2(), glider_phase3());
    lemma_placed_step(rows, cols, ox, oy, glider_phase3(), glider_phase4());
    let moved = placed(rows, cols, ox + 1, oy + 1, glider_phase0());
    let last = placed(rows, cols, ox, oy, glider_phase4());
    assert forall|y: int, x: int| 0 <= y < rows && 0 <= x < cols implies #[trigger] last[y][x] == moved[y][x] by {
        lemma_add_mod_noop_right(-1, x - ox, cols);
        lemma_add_mod_noop_right(-1, y - oy, rows);
        lemma_mod_bound(x - ox, cols);
        lemma_mod_bound(y - oy, rows);
        lemma_wrap((x - ox) % cols - 1, cols);
        lemma_wrap((y - oy) % rows - 1, rows);
        assert(x - (ox + 1) == -1 + (x - ox));
        assert(y - (oy + 1) == -1 + (y - oy));
    }
    assert(last =~~= moved);
    lemma_placed_at(rows, cols, ox, oy, glider_phase1(), 3, 3);
    lemma_placed_at(rows, cols, ox, oy, glider_phase4(), 3, 3);
    lemma_placed_at(rows, cols, ox, oy, glider_phase2(), 3, 2);
    lemma_placed_at(rows, cols, ox, oy, glider_phase4(), 3, 2);
    lemma_placed_at(rows, cols, ox, oy, glider_phase3(), 1, 1);
    lemma_placed_at(rows, cols, ox, oy, glider_phase4(), 1, 1);
}

} // verus!
