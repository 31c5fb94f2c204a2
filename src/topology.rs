//! The Moore neighborhood of a cell on a torus.
use vstd::arithmetic::div_mod::{lemma_mod_add_multiples_vanish, lemma_mod_sub_multiples_vanish, lemma_small_mod};
use vstd::prelude::*;

verus! {

/// A cell coordinate: `x` is the column, `y` the row.
#[derive(Debug, Clone, Copy, PartialEq, Eq, Structural)]
pub struct Vec2 {
    pub x: usize,
    pub y: usize,
}

impl Vec2 {
    pub fn new(x: usize, y: usize) -> (r: Vec2)
        ensures
            r.x == x,
            r.y == y,
    {
        Vec2 { x, y }
    }
}

/// Column offset of the `k`-th neighbor, in the order top-left, top,
/// top-right, left, right, bottom-left, bottom, bottom-right.
pub open spec fn offset_x(k: int) -> int {
    if k == 0 || k == 3 || k == 5 {
        -1
    } else if k == 2 || k == 4 || k == 7 {
        1
    } else {
        0
    }
}

/// Row offset of the `k`-th neighbor, in the same order as `offset_x`.
pub open spec fn offset_y(k: int) -> int {
    if k <= 2 {
        -1
    } else if k <= 4 {
        0
    } else {
        1
    }
}

/// The `k`-th neighbor of `(x, y)` on a torus of `rows` by `cols` cells.
pub open spec fn neighbor(x: int, y: int, rows: int, cols: int, k: int) -> Vec2 {
    Vec2 { x: ((x + offset_x(k)) % cols) as usize, y: ((y + offset_y(k)) % rows) as usize }
}

/// The eight neighbors of `(x, y)`, in order.
pub open spec fn topology(x: int, y: int, rows: int, cols: int) -> Seq<Vec2> {
    Seq::new(8, |k: int| neighbor(x, y, rows, cols, k))
}

/// `c` wrapped into `0..n` when it lies at most one step outside.
pub proof fn lemma_wrap(c: int, n: int)
    requires
        0 < n,
        -1 <= c <= n,
    ensures
        c % n == (if c < 0 {
            n - 1
        } else if c == n {
            0
        } else {
            c
        }),
{
    if c < 0 {
        lemma_mod_add_multiples_vanish(c, n);
        lemma_small_mod((n + c) as nat, n as nat);
    } else if c == n {
        lemma_mod_sub_multiples_vanish(c, n);
        lemma_small_mod(0, n as nat);
    } else {
        lemma_small_mod(c as nat, n as nat);
    }
}

/// Every neighbor of a cell of the torus is itself a cell of the torus.
pub proof fn lemma_neighbors_in_range(x: int, y: int, rows: int, cols: int)
    requires
        0 <= x < cols,
        0 <= y < rows,
    ensures
        topology(x, y, rows, cols).len() == 8,
        forall|k: int|
            0 <= k < 8 ==> {
                &&& (#[trigger] topology(x, y, rows, cols)[k]).x < cols
                &&& topology(x, y, rows, cols)[k].y < rows
            },
{
    assert forall|k: int| 0 <= k < 8 implies {
        &&& (#[trigger] topology(x, y, rows, cols)[k]).x < cols
        &&& topology(x, y, rows, cols)[k].y < rows
    } by {
        lemma_wrap(x + offset_x(k), cols);
        lemma_wrap(y + offset_y(k), rows);
    }
}

/// The corners see each other through the wrapped edges: the top-left
/// neighbor of `(0, 0)` is `(cols - 1, rows - 1)`, and the bottom-right
/// neighbor of `(cols - 1, rows - 1)` is `(0, 0)`.
pub proof fn lemma_corners_wrap(rows: int, cols: int)
    requires
        rows >= 1,
        cols >= 1,
    ensures
        topology(0, 0, rows, cols)[0] == (Vec2 { x: (cols - 1) as usize, y: (rows - 1) as usize }),
        topology(cols - 1, rows - 1, rows, cols)[7] == (Vec2 { x: 0, y: 0 }),
{
    lemma_wrap(-1, cols);
    lemma_wrap(-1, rows);
    lemma_wrap(cols, cols);
    lemma_wrap(rows, rows);
}

/// The eight neighbors of `(x, y)` on a torus of `rows` by `cols` cells.
pub fn neighbors_of(x: usize, y: usize, rows: usize, cols: usize) -> (r: Vec<Vec2>)
    requires
        x < cols,
        y < rows,
    ensures
        r@ == topology(x as int, y as int, rows as int, cols as int),
        r@.len() == 8,
        forall|k: int| 0 <= k < 8 ==> (#[trigger] r@[k]).x < cols && r@[k].y < rows,
{
    let left: usize = if x == 0 { cols - 1 } else { x - 1 };
    let right: usize = if x + 1 == cols { 0 } else { x + 1 };
    let up: usize = if y == 0 { rows - 1 } else { y - 1 };
    let down: usize = if y + 1 == rows { 0 } else { y + 1 };
    proof {
        lemma_wrap(x - 1, cols as int);
        lemma_wrap(x as int, cols as int);
        lemma_wrap(x + 1, cols as int);
        lemma_wrap(y - 1, rows as int);
        lemma_wrap(y as int, rows as int);
        lemma_wrap(y + 1, rows as int);
    }
    let mut r: Vec<Vec2> = Vec::new();
    r.push(Vec2::new(left, up));
    r.push(Vec2::new(x, up));
    r.push(Vec2::new(right, up));
    r.push(Vec2::new(left, y));
    r.push(Vec2::new(right, y));
    r.push(Vec2::new(left, down));
    r.push(Vec2::new(x, down));
    r.push(Vec2::new(right, down));
    assert(r@ =~= topology(x as int, y as int, rows as int, cols as int));
    r
}

} // verus!
