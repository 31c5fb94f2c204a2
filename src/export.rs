//! What a game hands to the outside: the seed record, the saved state and
//! the rendered frame.
use crate::config::{opt_or, Config};
use crate::game::Game;
use crate::grid::{Board, CellState};
use crate::record::{encode_seed_record, seed_record_text};
use crate::text::{ascii_chars, decimal, push_bytes, push_decimal, push_decimal_chars};
use vstd::prelude::*;

verus! {

/// `generation = `
pub open spec fn generation_label() -> Seq<u8> {
    seq![
        'g' as u8, 'e' as u8, 'n' as u8, 'e' as u8, 'r' as u8, 'a' as u8, 't' as u8, 'i' as u8,
        'o' as u8, 'n' as u8, ' ' as u8, '=' as u8, ' ' as u8,
    ]
}

/// `cells = [` and a line break.
pub open spec fn cells_label() -> Seq<u8> {
    seq!['c' as u8, 'e' as u8, 'l' as u8, 'l' as u8, 's' as u8, ' ' as u8, '=' as u8, ' ' as u8, '[' as u8, '\n' as u8]
}

/// `#` for a live cell, `.` for a dead one.
pub open spec fn cell_byte(s: CellState) -> u8 {
    if s == CellState::Live {
        '#' as u8
    } else {
        '.' as u8
    }
}

/// One row of the saved state: the row's cells between quotes, then a comma
/// and a line break.
pub open spec fn row_line(row: Seq<CellState>) -> Seq<u8> {
    seq!['"' as u8] + row.map_values(|s: CellState| cell_byte(s)) + seq!['"' as u8, ',' as u8, '\n' as u8]
}

/// The rows of the saved state, in order.
pub open spec fn rows_text(b: Board) -> Seq<u8>
    decreases b.len(),
{
    if b.len() == 0 {
        seq![]
    } else {
        rows_text(b.drop_last()) + row_line(b.last())
    }
}

/// The saved state of a game: its generation, its seed record and its cells.
pub open spec fn state_text(generation: usize, seed: usize, numbers: Seq<usize>, b: Board) -> Seq<u8> {
    generation_label() + decimal(generation as nat) + seq!['\n' as u8] + seed_record_text(seed, numbers)
        + cells_label() + rows_text(b) + seq![']' as u8, '\n' as u8]
}

/// `Generation: `
pub open spec fn header_label() -> Seq<char> {
    seq!['G', 'e', 'n', 'e', 'r', 'a', 't', 'i', 'o', 'n', ':', ' ']
}

/// One row of the frame: a glyph per cell, then a line break.
pub open spec fn frame_line(row: Seq<CellState>, live: char, dead: char) -> Seq<char> {
    row.map_values(|s: CellState| if s == CellState::Live { live } else { dead }) + seq!['\n']
}

/// The rows of the frame, in order.
pub open spec fn frame_rows(b: Board, live: char, dead: char) -> Seq<char>
    decreases b.len(),
{
    if b.len() == 0 {
        seq![]
    } else {
        frame_rows(b.drop_last(), live, dead) + frame_line(b.last(), live, dead)
    }
}

/// The frame of a game at `generation` with cells `b`: a header line, then a
/// line per row.
pub open spec fn frame(generation: usize, b: Board, live: char, dead: char) -> Seq<char> {
    header_label() + ascii_chars(decimal(generation as nat)) + seq!['\n'] + frame_rows(b, live, dead)
}

impl Game {
    /// The text of the seed record of this game: its seed and its draws.
    pub fn save_seed(&self) -> (r: Vec<u8>)
        ensures
            r@ == seed_record_text(self.seed, self.numbers_added@),
    {
        encode_seed_record(self.seed, &self.numbers_added)
    }

    /// The full saved state of this game.
    pub fn save_state(&self) -> (r: Vec<u8>)
        ensures
            r@ == state_text(self.generation, self.seed, self.numbers_added@, self.board()),
    {
        let mut out: Vec<u8> = Vec::new();
        let label = vec![
            'g' as u8, 'e' as u8, 'n' as u8, 'e' as u8, 'r' as u8, 'a' as u8, 't' as u8, 'i' as u8,
            'o' as u8, 'n' as u8, ' ' as u8, '=' as u8, ' ' as u8,
        ];
        assert(label@ =~= generation_label());
        push_bytes(&mut out, &label);
        push_decimal(&mut out, self.generation);
        out.push('\n' as u8);
        push_bytes(&mut out, &self.save_seed());
        let cells = vec!['c' as u8, 'e' as u8, 'l' as u8, 'l' as u8, 's' as u8, ' ' as u8, '=' as u8, ' ' as u8, '[' as u8, '\n' as u8];
        assert(cells@ =~= cells_label());
        push_bytes(&mut out, &cells);
        let ghost head = out@;
        let ghost b = self.board();
        for y in 0..self.grid.len()
            invariant
                b == self.board(),
                out@ == head + rows_text(b.take(y as int)),
        {
            let row = &self.grid[y];
            let ghost row_b = b[y as int];
            let ghost start = out@;
            out.push('"' as u8);
            for x in 0..row.len()
                invariant
                    b == self.board(),
                    0 <= y < self.grid@.len(),
                    row@ == self.grid@[y as int]@,
                    row_b == b[y as int],
                    row_b.len() == row@.len(),
                    out@ == start + seq!['"' as u8] + row_b.take(x as int).map_values(|s: CellState| cell_byte(s)),
            {
                assert(row_b[x as int] == row@[x as int].state);
                out.push(if row[x].state == CellState::Live { '#' as u8 } else { '.' as u8 });
                assert(row_b.take(x + 1).map_values(|s: CellState| cell_byte(s)) =~= row_b.take(x as int).map_values(|s: CellState| cell_byte(s)).push(cell_byte(row_b[x as int])));
            }
            out.push('"' as u8);
            out.push(',' as u8);
            out.push('\n' as u8);
            proof {
                assert(row_b.take(row_b.len() as int) =~= row_b);
                assert(b.take(y + 1).drop_last() =~= b.take(y as int));
                assert(out@ =~= head + (rows_text(b.take(y as int)) + row_line(row_b)));
            }
        }
        assert(b.take(b.len() as int) =~= b);
        out.push(']' as u8);
        out.push('\n' as u8);
        assert(out@ =~= state_text(self.generation, self.seed, self.numbers_added@, b));
        out
    }

    /// The frame that shows this game with the configured glyphs: a line
    /// `Generation: <n>`, then one line of glyphs per row.
    pub fn show(&self, config: &Config) -> (r: Vec<char>)
        ensures
            r@ == frame(
                self.generation,
                self.board(),
                opt_or(config.live_cell, '\u{25A0}'),
                opt_or(config.dead_cell, ' '),
            ),
    {
        let live = config.live_glyph();
        let dead = config.dead_glyph();
        let mut out: Vec<char> = vec!['G', 'e', 'n', 'e', 'r', 'a', 't', 'i', 'o', 'n', ':', ' '];
        assert(out@ =~= header_label());
        push_decimal_chars(&mut out, self.generation);
        out.push('\n');
        let ghost head = out@;
        let ghost b = self.board();
        for y in 0..self.grid.len()
            invariant
                b == self.board(),
                out@ == head + frame_rows(b.take(y as int), live, dead),
        {
            let row = &self.grid[y];
            let ghost row_b = b[y as int];
            let ghost start = out@;
            for x in 0..row.len()
                invariant
                    b == self.board(),
                    0 <= y < self.grid@.len(),
                    row@ == self.grid@[y as int]@,
                    row_b == b[y as int],
                    row_b.len() == row@.len(),
                    out@ == start + row_b.take(x as int).map_values(
                        |s: CellState| if s == CellState::Live { live } else { dead },
                    ),
            {
                assert(row_b[x as int] == row@[x as int].state);
                out.push(if row[x].state == CellState::Live { live } else { dead });
                assert(row_b.take(x + 1).map_values(
                    |s: CellState| if s == CellState::Live { live } else { dead },
                ) =~= row_b.take(x as int).map_values(
                    |s: CellState| if s == CellState::Live { live } else { dead },
                ).push(if row_b[x as int] == CellState::Live { live } else { dead }));
            }
            out.push('\n');
            proof {
                assert(row_b.take(row_b.len() as int) =~= row_b);
                assert(b.take(y + 1).drop_last() =~= b.take(y as int));
                assert(out@ =~= head + (frame_rows(b.take(y as int), live, dead) + frame_line(row_b, live, dead)));
            }
        }
        assert(b.take(b.len() as int) =~= b);
        assert(out@ =~= frame(self.generation, b, live, dead));
        out
    }
}

} // verus!
