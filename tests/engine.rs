use toroidal_life::game::Game;
use toroidal_life::grid::{apply_rule, Cell, CellState};
use toroidal_life::topology::{neighbors_of, Vec2};

/// A game whose live cells are exactly `live`, built by replaying draws
/// under seed 0: an even draw makes a live cell, an odd one a dead cell.
fn game_with(rows: usize, cols: usize, live: &[(usize, usize)]) -> Game {
    let mut draws = vec![1usize; rows * cols];
    for &(x, y) in live {
        draws[y * cols + x] = 0;
    }
    Game::replay(rows, cols, 0, draws)
}

fn live_cells(g: &Game) -> Vec<(usize, usize)> {
    let mut out = Vec::new();
    for (y, row) in g.grid.iter().enumerate() {
        for (x, cell) in row.iter().enumerate() {
            if cell.is_live() {
                out.push((x, y));
            }
        }
    }
    out.sort();
    out
}

fn sorted(mut v: Vec<(usize, usize)>) -> Vec<(usize, usize)> {
    v.sort();
    v
}

#[test]
fn neighbors_are_eight_and_in_range() {
    for rows in 1..5usize {
        for cols in 1..5usize {
            for y in 0..rows {
                for x in 0..cols {
                    let ns = neighbors_of(x, y, rows, cols);
                    assert_eq!(ns.len(), 8);
                    for n in &ns {
                        assert!(n.x < cols && n.y < rows);
                    }
                }
            }
        }
    }
}

#[test]
fn neighbors_in_order() {
    let ns = neighbors_of(2, 3, 6, 5);
    let expected = vec![
        Vec2::new(1, 2),
        Vec2::new(2, 2),
        Vec2::new(3, 2),
        Vec2::new(1, 3),
        Vec2::new(3, 3),
        Vec2::new(1, 4),
        Vec2::new(2, 4),
        Vec2::new(3, 4),
    ];
    assert_eq!(ns, expected);
}

#[test]
fn corners_wrap() {
    let (rows, cols) = (4usize, 7usize);
    let top_left = neighbors_of(0, 0, rows, cols)[0];
    assert_eq!(top_left, Vec2::new(cols - 1, rows - 1));
    let bottom_right = neighbors_of(cols - 1, rows - 1, rows, cols)[7];
    assert_eq!(bottom_right, Vec2::new(0, 0));
}

#[test]
fn rule_birth() {
    assert_eq!(apply_rule(CellState::Dead, 3), CellState::Live);
    assert_eq!(apply_rule(CellState::Dead, 2), CellState::Dead);
    assert_eq!(apply_rule(CellState::Dead, 4), CellState::Dead);
}

#[test]
fn rule_death() {
    assert_eq!(apply_rule(CellState::Live, 0), CellState::Dead);
    assert_eq!(apply_rule(CellState::Live, 1), CellState::Dead);
    assert_eq!(apply_rule(CellState::Live, 4), CellState::Dead);
    assert_eq!(apply_rule(CellState::Live, 8), CellState::Dead);
}

#[test]
fn rule_survival() {
    assert_eq!(apply_rule(CellState::Live, 2), CellState::Live);
    assert_eq!(apply_rule(CellState::Live, 3), CellState::Live);
}

#[test]
fn counts_live_neighbors_through_the_edges() {
    let g = game_with(4, 4, &[(3, 3), (0, 3), (3, 0)]);
    assert_eq!(g.grid[0][0].live_neighbor_count(&g.grid), 3);
    assert_eq!(g.grid[1][1].live_neighbor_count(&g.grid), 0);
    let lone = Cell::new(CellState::Live);
    assert!(lone.is_live());
    assert_eq!(lone.live_neighbor_count(&g.grid), 0);
}

#[test]
fn replay_sets_cells_by_parity() {
    let g = Game::replay(2, 3, 5, vec![1, 2, 3, 4, 5, usize::MAX]);
    // 5 + 1 = 6 even: live; 5 + 2 = 7 odd: dead; the last sum wraps to 4.
    let states: Vec<bool> = g.grid.iter().flatten().map(|c| c.is_live()).collect();
    assert_eq!(states, vec![true, false, true, false, true, true]);
    assert_eq!(g.generation, 0);
    assert_eq!(g.seed, 5);
    assert_eq!(g.numbers_added, vec![1, 2, 3, 4, 5, usize::MAX]);
}

#[test]
fn blinker_oscillates() {
    let mut g = game_with(5, 5, &[(1, 2), (2, 2), (3, 2)]);
    g.step();
    assert_eq!(live_cells(&g), sorted(vec![(2, 1), (2, 2), (2, 3)]));
    g.step();
    assert_eq!(live_cells(&g), sorted(vec![(1, 2), (2, 2), (3, 2)]));
    assert_eq!(g.generation, 2);
}

#[test]
fn blinker_across_the_edge() {
    let mut g = game_with(5, 6, &[(5, 0), (0, 0), (1, 0)]);
    g.step();
    assert_eq!(live_cells(&g), sorted(vec![(0, 4), (0, 0), (0, 1)]));
    g.step();
    assert_eq!(live_cells(&g), sorted(vec![(5, 0), (0, 0), (1, 0)]));
}

#[test]
fn glider_moves_diagonally() {
    let glider = [(1, 0), (2, 1), (0, 2), (1, 2), (2, 2)];
    let mut g = game_with(6, 6, &glider);
    for _ in 0..3 {
        g.step();
        let moved: Vec<(usize, usize)> = glider.iter().map(|&(x, y)| (x + 1, y + 1)).collect();
        assert_ne!(live_cells(&g), sorted(moved));
    }
    g.step();
    let moved: Vec<(usize, usize)> = glider.iter().map(|&(x, y)| (x + 1, y + 1)).collect();
    assert_eq!(live_cells(&g), sorted(moved));
    assert_eq!(g.generation, 4);
}

#[test]
fn glider_wraps_around() {
    let glider = [(1, 0), (2, 1), (0, 2), (1, 2), (2, 2)];
    let (rows, cols) = (7usize, 6usize);
    let start: Vec<(usize, usize)> = glider.iter().map(|&(x, y)| ((x + 4) % cols, (y + 5) % rows)).collect();
    let mut g = game_with(rows, cols, &start);
    for _ in 0..4 {
        g.step();
    }
    let moved: Vec<(usize, usize)> = glider.iter().map(|&(x, y)| ((x + 5) % cols, (y + 6) % rows)).collect();
    assert_eq!(live_cells(&g), sorted(moved));
}

#[test]
fn step_reads_only_the_old_grid() {
    // An L of three cells becomes a block: a cell updated in place would
    // change the counts of the cells after it.
    let mut g = game_with(6, 6, &[(1, 1), (2, 1), (1, 2)]);
    g.step();
    assert_eq!(live_cells(&g), sorted(vec![(1, 1), (2, 1), (1, 2), (2, 2)]));
}

#[test]
fn single_cell_dies() {
    let mut g = game_with(1, 1, &[(0, 0)]);
    g.step();
    assert!(live_cells(&g).is_empty());
}

#[test]
fn resize_keeps_overlap() {
    let mut g = game_with(3, 3, &[(0, 0), (2, 2), (1, 0)]);
    g.resize(2, 4);
    assert_eq!(g.grid.len(), 2);
    assert!(g.grid.iter().all(|r| r.len() == 4));
    assert_eq!(live_cells(&g), sorted(vec![(0, 0), (1, 0)]));
    for (y, row) in g.grid.iter().enumerate() {
        for (x, cell) in row.iter().enumerate() {
            assert_eq!(cell.neighbors, neighbors_of(x, y, 2, 4));
        }
    }
}
