//! The command controller: it owns the game, applies commands and paces the
//! automatic generations, and tells the caller what to do outside.
use crate::config::{Config, ConfigError};
use crate::export::state_text;
use crate::game::{resized_board, seeded_board, Game};
use crate::grid::{next_board, Board};
use crate::record::seed_record_text;
use vstd::prelude::*;

verus! {

/// Whether generations advance on their own.
#[derive(Debug, Clone, Copy, PartialEq, Eq, Structural)]
pub enum RunState {
    Running,
    Paused,
}

/// A request from the operator.
#[derive(Debug, Clone)]
pub enum Command {
    /// Stop advancing on its own.
    Pause,
    /// Advance on its own again.
    Unpause,
    /// Compute one generation now, and stay paused.
    StepForward,
    /// Go back one generation; no history is kept, so this is refused.
    StepBackward,
    /// Write the seed record to the file at the path.
    SaveSeed(String),
    /// Write the full state to the file at the path.
    SaveState(String),
    /// End the simulation.
    Quit,
}

/// A command or a tick that could not be carried out.
#[derive(Debug, Clone, Copy, PartialEq, Eq, Structural)]
pub enum ControlError {
    /// Going back a generation needs a history, which is not kept.
    StepBackwardUnsupported,
    /// The generation counter is at its largest value.
    GenerationLimit,
}

impl ControlError {
    /// A sentence for the operator.
    pub fn message(&self) -> &'static str {
        match self {
            ControlError::StepBackwardUnsupported => "stepping backward is not supported: no history is kept",
            ControlError::GenerationLimit => "the generation counter cannot advance any further",
        }
    }
}

/// What the caller is to do after a command or a tick.
#[derive(Debug)]
pub enum Effect {
    /// Nothing.
    Nothing,
    /// Show the current state.
    Render,
    /// Write `bytes` to the file at `path`.
    Write { path: String, bytes: Vec<u8> },
    /// Tell the operator that the request failed.
    Report(ControlError),
    /// End the process.
    Exit,
}

/// The outcome of one tick.
#[derive(Debug)]
pub struct Tick {
    /// What reloading the settings gave, when they were reloaded.
    pub reloaded: Option<Result<bool, ConfigError>>,
    /// What to do now.
    pub effect: Effect,
    /// How long to wait, in milliseconds, before the next tick.
    pub delay_ms: u64,
}

/// The game, the settings it runs under and whether it runs.
#[derive(Debug)]
pub struct Controller {
    pub game: Game,
    pub config: Config,
    pub state: RunState,
}

/// The cells after the settings change to `c`: reallocated when the
/// dimensions differ, the same otherwise.
pub open spec fn board_under(g: Game, c: Config) -> Board {
    if g.rows() == c.rows_of() && g.cols() == c.cols_of() {
        g.board()
    } else {
        resized_board(g.board(), c.rows_of() as int, c.cols_of() as int)
    }
}

impl Controller {
    /// The game is well formed and has the dimensions of the valid settings.
    pub open spec fn wf(&self) -> bool {
        &&& self.game.wf()
        &&& self.config.valid()
        &&& self.game.rows() == self.config.rows_of()
        &&& self.game.cols() == self.config.cols_of()
    }

    /// A running controller over a fresh game under `config`.
    pub fn new(config: Config) -> (r: Controller)
        requires
            config.valid(),
        ensures
            r.wf(),
            r.state == RunState::Running,
            r.config == config,
            r.game.generation == 0,
            config.seed is Some ==> r.game.seed == config.seed.unwrap(),
            r.game.numbers_added@.len() == config.rows_of() * config.cols_of(),
            r.game.board() == seeded_board(
                config.rows_of() as int,
                config.cols_of() as int,
                r.game.seed,
                r.game.numbers_added@,
            ),
    {
        let game = Game::new(&config);
        Controller { game, config, state: RunState::Running }
    }

    fn advance(&mut self) -> (r: Effect)
        requires
            old(self).wf(),
        ensures
            final(self).wf(),
            final(self).config == old(self).config,
            old(self).game.generation < usize::MAX ==> {
                &&& final(self).game.board() == next_board(old(self).game.board())
                &&& final(self).game.generation == old(self).game.generation + 1
                &&& final(self).state == old(self).state
                &&& r is Render
            },
            old(self).game.generation == usize::MAX ==> {
                &&& final(self).game == old(self).game
                &&& final(self).state == RunState::Paused
                &&& r == Effect::Report(ControlError::GenerationLimit)
            },
            final(self).game.seed == old(self).game.seed,
            final(self).game.numbers_added == old(self).game.numbers_added,
    {
        if self.game.generation < usize::MAX {
            self.game.step();
            Effect::Render
        } else {
            self.state = RunState::Paused;
            Effect::Report(ControlError::GenerationLimit)
        }
    }

    /// Applies one command.
    pub fn handle(&mut self, cmd: Command) -> (r: Effect)
        requires
            old(self).wf(),
        ensures
            final(self).wf(),
            final(self).config == old(self).config,
            final(self).game.seed == old(self).game.seed,
            final(self).game.numbers_added == old(self).game.numbers_added,
            !(cmd is StepForward) ==> final(self).game == old(self).game,
            match cmd {
                Command::Pause => final(self).state == RunState::Paused && r is Nothing,
                Command::Unpause => final(self).state == RunState::Running && r is Nothing,
                Command::StepForward => final(self).state == RunState::Paused && if old(
                    self,
                ).game.generation < usize::MAX {
                    &&& final(self).game.board() == next_board(old(self).game.board())
                    &&& final(self).game.generation == old(self).game.generation + 1
                    &&& r is Render
                } else {
                    &&& final(self).game == old(self).game
                    &&& r == Effect::Report(ControlError::GenerationLimit)
                },
                Command::StepBackward => final(self).state == old(self).state && r == Effect::Report(
                    ControlError::StepBackwardUnsupported,
                ),
                Command::SaveSeed(path) => final(self).state == old(self).state && r == (Effect::Write {
                    path,
                    bytes: r->bytes,
                }) && r->bytes@ == seed_record_text(old(self).game.seed, old(self).game.numbers_added@),
                Command::SaveState(path) => final(self).state == old(self).state && r == (Effect::Write {
                    path,
                    bytes: r->bytes,
                }) && r->bytes@ == state_text(
                    old(self).game.generation,
                    old(self).game.seed,
                    old(self).game.numbers_added@,
                    old(self).game.board(),
                ),
                Command::Quit => final(self).state == old(self).state && r is Exit,
            },
    {
        match cmd {
            Command::Pause => {
                self.state = RunState::Paused;
                Effect::Nothing
            },
            Command::Unpause => {
                self.state = RunState::Running;
                Effect::Nothing
            },
            Command::StepForward => {
                self.state = RunState::Paused;
                self.advance()
            },
            Command::StepBackward => Effect::Report(ControlError::StepBackwardUnsupported),
            Command::SaveSeed(path) => Effect::Write { path, bytes: self.game.save_seed() },
            Command::SaveState(path) => Effect::Write { path, bytes: self.game.save_state() },
            Command::Quit => Effect::Exit,
        }
    }

    /// One cycle of the automatic advance. While paused nothing happens.
    /// While running, the settings `fresh` that were read again (none when
    /// they could not be read) replace the current ones when valid, the grid
    /// is reallocated when its dimensions changed, and one generation is
    /// computed.
    pub fn tick(&mut self, fresh: Option<Config>) -> (r: Tick)
        requires
            old(self).wf(),
        ensures
            final(self).wf(),
            r.delay_ms == final(self).config.tick_interval_ms_of(),
            final(self).game.seed == old(self).game.seed,
            final(self).game.numbers_added == old(self).game.numbers_added,
            old(self).state == RunState::Paused ==> {
                &&& final(self).game == old(self).game
                &&& final(self).config == old(self).config
                &&& final(self).state == RunState::Paused
                &&& r.reloaded is None
                &&& r.effect is Nothing
            },
            old(self).state == RunState::Running ==> {
                &&& match fresh {
                    Some(c) => {
                        &&& final(self).config == old(self).config.refreshed(&c)
                        &&& r.reloaded == Some(old(self).config.refresh_result(&c))
                    },
                    None => final(self).config == old(self).config && r.reloaded is None,
                }
                &&& final(self).game.rows() == final(self).config.rows_of()
                &&& final(self).game.cols() == final(self).config.cols_of()
                &&& if old(self).game.generation < usize::MAX {
                    &&& final(self).game.board() == next_board(board_under(old(self).game, final(self).config))
                    &&& final(self).game.generation == old(self).game.generation + 1
                    &&& final(self).state == RunState::Running
                    &&& r.effect is Render
                } else {
                    &&& final(self).game.board() == board_under(old(self).game, final(self).config)
                    &&& final(self).game.generation == old(self).game.generation
                    &&& final(self).state == RunState::Paused
                    &&& r.effect == Effect::Report(ControlError::GenerationLimit)
                }
            },
    {
        if self.state == RunState::Paused {
            return Tick { reloaded: None, effect: Effect::Nothing, delay_ms: self.config.tick_interval_ms() };
        }
        let reloaded = match fresh {
            Some(c) => Some(self.config.refresh(c)),
            None => None,
        };
        let rows = self.config.rows();
        let cols = self.config.cols();
        if rows != self.game.grid.len() || cols != self.game.grid[0].len() {
            self.game.resize(rows, cols);
        }
        let effect = self.advance();
        Tick { reloaded, effect, delay_ms: self.config.tick_interval_ms() }
    }
}

} // verus!
