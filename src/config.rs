//! Simulation settings and their validation and refresh.
use vstd::prelude::*;

verus! {

/// Height of the grid, in rows, when the settings name none.
pub const GRID_ROWS: usize = 50;

/// Width of the grid, in columns, when the settings name none.
pub const GRID_COLS: usize = 50;

/// Why a set of settings cannot drive a simulation.
#[derive(Debug, Clone, Copy, PartialEq, Eq, Structural)]
pub enum ConfigError {
    /// `grid_rows` is zero.
    ZeroRows,
    /// `grid_cols` is zero.
    ZeroCols,
}

impl ConfigError {
    /// A sentence for the operator.
    pub fn message(&self) -> &'static str {
        match self {
            ConfigError::ZeroRows => "grid_rows must be at least 1",
            ConfigError::ZeroCols => "grid_cols must be at least 1",
        }
    }
}

/// The settings of a simulation, each one optional with a default, and the
/// file that they were read from.
#[derive(Debug, Clone)]
pub struct Config {
    pub file_name: Option<String>,
    pub dead_cell: Option<char>,
    pub live_cell: Option<char>,
    pub grid_rows: Option<usize>,
    pub grid_cols: Option<usize>,
    pub speed: Option<u64>,
    pub seed: Option<usize>,
}

pub open spec fn opt_or<T>(o: Option<T>, d: T) -> T {
    match o {
        Some(v) => v,
        None => d,
    }
}

fn same_char(a: Option<char>, b: Option<char>) -> (r: bool)
    ensures
        r == (a == b),
{
    match (a, b) {
        (Some(p), Some(q)) => p == q,
        (None, None) => true,
        _ => false,
    }
}

fn same_usize(a: Option<usize>, b: Option<usize>) -> (r: bool)
    ensures
        r == (a == b),
{
    match (a, b) {
        (Some(p), Some(q)) => p == q,
        (None, None) => true,
        _ => false,
    }
}

fn same_u64(a: Option<u64>, b: Option<u64>) -> (r: bool)
    ensures
        r == (a == b),
{
    match (a, b) {
        (Some(p), Some(q)) => p == q,
        (None, None) => true,
        _ => false,
    }
}

impl Config {
    /// Number of rows of the grid.
    pub open spec fn rows_of(&self) -> usize {
        opt_or(self.grid_rows, GRID_ROWS)
    }

    /// Number of columns of the grid.
    pub open spec fn cols_of(&self) -> usize {
        opt_or(self.grid_cols, GRID_COLS)
    }

    /// The settings describe a grid of at least one cell.
    pub open spec fn valid(&self) -> bool {
        self.rows_of() >= 1 && self.cols_of() >= 1
    }

    /// The error, if any, that `check` reports.
    pub open spec fn error_of(&self) -> Option<ConfigError> {
        if self.rows_of() == 0 {
            Some(ConfigError::ZeroRows)
        } else if self.cols_of() == 0 {
            Some(ConfigError::ZeroCols)
        } else {
            None
        }
    }

    /// Every setting but the file name is the same in both.
    pub open spec fn same_settings(&self, other: &Config) -> bool {
        &&& self.dead_cell == other.dead_cell
        &&& self.live_cell == other.live_cell
        &&& self.grid_rows == other.grid_rows
        &&& self.grid_cols == other.grid_cols
        &&& self.speed == other.speed
        &&& self.seed == other.seed
    }

    /// Settings read from `file`, bound to that file once they are found valid.
    pub fn new(file: String, loaded: Config) -> (r: Result<Config, ConfigError>)
        ensures
            loaded.valid() ==> r is Ok,
            r is Ok ==> {
                &&& r->Ok_0.same_settings(&loaded)
                &&& r->Ok_0.file_name == Some(file)
                &&& r->Ok_0.valid()
            },
            r is Err ==> Some(r->Err_0) == loaded.error_of(),
    {
        match loaded.check() {
            Ok(()) => Ok(Config { file_name: Some(file), ..loaded }),
            Err(e) => Err(e),
        }
    }

    /// Reports whether the settings describe a grid of at least one cell.
    pub fn check(&self) -> (r: Result<(), ConfigError>)
        ensures
            r is Ok <==> self.valid(),
            r is Err ==> Some(r->Err_0) == self.error_of(),
            self.error_of() is None <==> self.valid(),
    {
        if self.rows() == 0 {
            Err(ConfigError::ZeroRows)
        } else if self.cols() == 0 {
            Err(ConfigError::ZeroCols)
        } else {
            Ok(())
        }
    }

    /// What `refresh` reports when the settings are `self` and `fresh` is read.
    pub open spec fn refresh_result(&self, fresh: &Config) -> Result<bool, ConfigError> {
        if !fresh.valid() {
            Err(fresh.error_of().unwrap())
        } else {
            Ok(!self.same_settings(fresh))
        }
    }

    /// The settings after `refresh` with `fresh`: the fresh ones, bound to
    /// the same file, when they are valid and differ; the current ones else.
    pub open spec fn refreshed(&self, fresh: &Config) -> Config {
        if fresh.valid() && !self.same_settings(fresh) {
            Config { file_name: self.file_name, ..*fresh }
        } else {
            *self
        }
    }

    /// Replaces the settings by `fresh`, freshly read from the same file.
    /// Invalid settings are refused and the current ones kept; otherwise the
    /// result says whether any setting differed.
    pub fn refresh(&mut self, fresh: Config) -> (r: Result<bool, ConfigError>)
        ensures
            r == old(self).refresh_result(&fresh),
            *final(self) == old(self).refreshed(&fresh),
    {
        match fresh.check() {
            Err(e) => Err(e),
            Ok(()) => {
                if self.same_settings_as(&fresh) {
                    Ok(false)
                } else {
                    let file_name = self.file_name.clone();
                    *self = Config { file_name, ..fresh };
                    Ok(true)
                }
            },
        }
    }

    fn same_settings_as(&self, other: &Config) -> (r: bool)
        ensures
            r == self.same_settings(other),
    {
        same_char(self.dead_cell, other.dead_cell) && same_char(self.live_cell, other.live_cell)
            && same_usize(self.grid_rows, other.grid_rows) && same_usize(
            self.grid_cols,
            other.grid_cols,
        ) && same_u64(self.speed, other.speed) && same_usize(self.seed, other.seed)
    }

    /// Number of rows of the grid.
    pub fn rows(&self) -> (r: usize)
        ensures
            r == self.rows_of(),
    {
        match self.grid_rows {
            Some(r) => r,
            None => GRID_ROWS,
        }
    }

    /// Number of columns of the grid.
    pub fn cols(&self) -> (r: usize)
        ensures
            r == self.cols_of(),
    {
        match self.grid_cols {
            Some(c) => c,
            None => GRID_COLS,
        }
    }

    /// Milliseconds to wait between two generations.
    pub open spec fn tick_interval_ms_of(&self) -> u64 {
        opt_or(self.speed, 0)
    }

    /// Milliseconds to wait between two generations.
    pub fn tick_interval_ms(&self) -> (r: u64)
        ensures
            r == self.tick_interval_ms_of(),
    {
        match self.speed {
            Some(s) => s,
            None => 0,
        }
    }

    /// The glyph of a live cell.
    pub fn live_glyph(&self) -> (r: char)
        ensures
            r == opt_or(self.live_cell, '\u{25A0}'),
    {
        match self.live_cell {
            Some(c) => c,
            None => '\u{25A0}',
        }
    }

    /// The glyph of a dead cell.
    pub fn dead_glyph(&self) -> (r: char)
        ensures
            r == opt_or(self.dead_cell, ' '),
    {
        match self.dead_cell {
            Some(c) => c,
            None => ' ',
        }
    }
}

} // verus!
