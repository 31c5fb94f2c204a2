use toroidal_life::config::{Config, ConfigError, GRID_COLS, GRID_ROWS};
use toroidal_life::controller::{Command, ControlError, Controller, Effect, RunState};
use toroidal_life::game::Game;
use toroidal_life::record::{decode_seed_record, encode_seed_record};

fn settings(rows: Option<usize>, cols: Option<usize>) -> Config {
    Config {
        file_name: None,
        dead_cell: None,
        live_cell: None,
        grid_rows: rows,
        grid_cols: cols,
        speed: Some(20),
        seed: Some(4),
    }
}

fn controller(rows: usize, cols: usize, live: &[(usize, usize)]) -> Controller {
    let mut draws = vec![1usize; rows * cols];
    for &(x, y) in live {
        draws[y * cols + x] = 0;
    }
    let config = Config::new("life.toml".to_string(), settings(Some(rows), Some(cols))).unwrap();
    Controller { game: Game::replay(rows, cols, 0, draws), config, state: RunState::Running }
}

fn live_count(c: &Controller) -> usize {
    c.game.grid.iter().flatten().filter(|cell| cell.is_live()).count()
}

#[test]
fn config_defaults() {
    let c = settings(None, None);
    assert_eq!(c.rows(), GRID_ROWS);
    assert_eq!(c.cols(), GRID_COLS);
    assert_eq!(c.rows(), 50);
    assert_eq!(c.cols(), 50);
    assert_eq!(c.live_glyph(), '\u{25A0}');
    assert_eq!(c.dead_glyph(), ' ');
    let mut quiet = settings(None, None);
    quiet.speed = None;
    assert_eq!(quiet.tick_interval_ms(), 0);
    assert_eq!(c.tick_interval_ms(), 20);
}

#[test]
fn config_rejects_zero_dimensions() {
    let e = Config::new("a.toml".to_string(), settings(Some(0), Some(3))).unwrap_err();
    assert_eq!(e, ConfigError::ZeroRows);
    let e = Config::new("a.toml".to_string(), settings(Some(3), Some(0))).unwrap_err();
    assert_eq!(e, ConfigError::ZeroCols);
    assert!(!e.message().is_empty());
    let ok = Config::new("a.toml".to_string(), settings(Some(3), Some(2))).unwrap();
    assert_eq!(ok.file_name, Some("a.toml".to_string()));
    assert_eq!(ok.rows(), 3);
}

#[test]
fn config_refresh() {
    let mut c = Config::new("a.toml".to_string(), settings(Some(3), Some(3))).unwrap();
    assert_eq!(c.refresh(settings(Some(3), Some(3))), Ok(false));
    assert_eq!(c.refresh(settings(Some(4), Some(3))), Ok(true));
    assert_eq!(c.rows(), 4);
    assert_eq!(c.file_name, Some("a.toml".to_string()));
    assert_eq!(c.refresh(settings(Some(0), Some(3))), Err(ConfigError::ZeroRows));
    assert_eq!(c.rows(), 4);
}

#[test]
fn new_game_follows_config() {
    let config = settings(Some(4), Some(6));
    let g = Game::new(&config);
    assert_eq!(g.seed, 4);
    assert_eq!(g.grid.len(), 4);
    assert!(g.grid.iter().all(|r| r.len() == 6));
    assert_eq!(g.numbers_added.len(), 24);
    for (i, cell) in g.grid.iter().flatten().enumerate() {
        assert_eq!(cell.is_live(), 4usize.wrapping_add(g.numbers_added[i]) % 2 == 0);
    }
    let again = Game::replay(4, 6, g.seed, g.numbers_added.clone());
    let a: Vec<bool> = g.grid.iter().flatten().map(|c| c.is_live()).collect();
    let b: Vec<bool> = again.grid.iter().flatten().map(|c| c.is_live()).collect();
    assert_eq!(a, b);
}

#[test]
fn controller_starts_running() {
    let c = Controller::new(settings(Some(3), Some(5)));
    assert_eq!(c.state, RunState::Running);
    assert_eq!(c.game.generation, 0);
    assert_eq!(c.game.grid.len(), 3);
}

#[test]
fn pause_and_unpause_are_idempotent() {
    let mut c = controller(5, 5, &[(1, 2), (2, 2), (3, 2)]);
    assert!(matches!(c.handle(Command::Unpause), Effect::Nothing));
    assert_eq!(c.state, RunState::Running);
    assert_eq!(c.game.generation, 0);
    assert!(matches!(c.handle(Command::Pause), Effect::Nothing));
    assert!(matches!(c.handle(Command::Pause), Effect::Nothing));
    assert_eq!(c.state, RunState::Paused);
    assert_eq!(c.game.generation, 0);
}

#[test]
fn step_forward_steps_and_pauses() {
    let mut c = controller(5, 5, &[(1, 2), (2, 2), (3, 2)]);
    assert!(matches!(c.handle(Command::StepForward), Effect::Render));
    assert_eq!(c.state, RunState::Paused);
    assert_eq!(c.game.generation, 1);
    assert!(c.game.grid[1][2].is_live() && c.game.grid[3][2].is_live());
    assert!(!c.game.grid[2][1].is_live());
}

#[test]
fn step_backward_is_refused() {
    let mut c = controller(3, 3, &[]);
    match c.handle(Command::StepBackward) {
        Effect::Report(e) => {
            assert_eq!(e, ControlError::StepBackwardUnsupported);
            assert!(!e.message().is_empty());
        },
        other => panic!("unexpected {:?}", other),
    }
    assert_eq!(c.state, RunState::Running);
}

#[test]
fn generation_limit_is_reported() {
    let mut c = controller(3, 3, &[]);
    c.game.generation = usize::MAX;
    match c.handle(Command::StepForward) {
        Effect::Report(e) => assert_eq!(e, ControlError::GenerationLimit),
        other => panic!("unexpected {:?}", other),
    }
    assert_eq!(c.game.generation, usize::MAX);
}

#[test]
fn save_commands_hand_out_bytes() {
    let mut c = controller(1, 2, &[(0, 0)]);
    match c.handle(Command::SaveSeed("seed.toml".to_string())) {
        Effect::Write { path, bytes } => {
            assert_eq!(path, "seed.toml");
            assert_eq!(String::from_utf8(bytes).unwrap(), "seed = 0\nnumbers_added = [0, 1]\n");
        },
        other => panic!("unexpected {:?}", other),
    }
    match c.handle(Command::SaveState("state.toml".to_string())) {
        Effect::Write { path, bytes } => {
            assert_eq!(path, "state.toml");
            assert_eq!(
                String::from_utf8(bytes).unwrap(),
                "generation = 0\nseed = 0\nnumbers_added = [0, 1]\ncells = [\n\"#.\",\n]\n"
            );
        },
        other => panic!("unexpected {:?}", other),
    }
    assert!(matches!(c.handle(Command::Quit), Effect::Exit));
    assert_eq!(c.state, RunState::Running);
}

#[test]
fn tick_while_paused_does_nothing() {
    let mut c = controller(5, 5, &[(1, 2), (2, 2), (3, 2)]);
    c.handle(Command::Pause);
    let t = c.tick(Some(settings(Some(7), Some(7))));
    assert!(matches!(t.effect, Effect::Nothing));
    assert_eq!(t.reloaded, None);
    assert_eq!(c.game.generation, 0);
    assert_eq!(c.game.grid.len(), 5);
}

#[test]
fn tick_steps_while_running() {
    let mut c = controller(5, 5, &[(1, 2), (2, 2), (3, 2)]);
    let t = c.tick(None);
    assert!(matches!(t.effect, Effect::Render));
    assert_eq!(t.delay_ms, 20);
    assert_eq!(c.game.generation, 1);
    assert_eq!(live_count(&c), 3);
    assert!(c.game.grid[1][2].is_live());
}

#[test]
fn tick_resizes_after_config_change() {
    let mut c = controller(5, 5, &[(1, 2), (2, 2), (3, 2)]);
    let t = c.tick(Some(settings(Some(8), Some(6))));
    assert_eq!(t.reloaded, Some(Ok(true)));
    assert_eq!(c.config.rows(), 8);
    assert_eq!(c.game.grid.len(), 8);
    assert!(c.game.grid.iter().all(|r| r.len() == 6));
    assert_eq!(c.game.generation, 1);
    assert_eq!(live_count(&c), 3);
    assert!(c.game.grid[1][2].is_live() && c.game.grid[2][2].is_live() && c.game.grid[3][2].is_live());
    // Shrinking cuts the grid and keeps stepping within it.
    let t = c.tick(Some(settings(Some(2), Some(2))));
    assert_eq!(t.reloaded, Some(Ok(true)));
    assert_eq!(c.game.grid.len(), 2);
    assert!(c.game.grid.iter().all(|r| r.len() == 2));
    assert_eq!(c.game.generation, 2);
}

#[test]
fn tick_keeps_config_on_invalid_reload() {
    let mut c = controller(5, 5, &[]);
    let t = c.tick(Some(settings(Some(0), Some(5))));
    assert_eq!(t.reloaded, Some(Err(ConfigError::ZeroRows)));
    assert_eq!(c.config.rows(), 5);
    assert_eq!(c.game.grid.len(), 5);
    assert_eq!(c.game.generation, 1);
}

#[test]
fn seed_record_round_trip() {
    let numbers = vec![0usize, 7, 1234567890, usize::MAX, 10];
    let bytes = encode_seed_record(usize::MAX - 1, &numbers);
    let back = decode_seed_record(&bytes).unwrap();
    assert_eq!(back.seed, usize::MAX - 1);
    assert_eq!(back.numbers_added, numbers);
    let empty = encode_seed_record(3, &Vec::new());
    assert_eq!(String::from_utf8(empty.clone()).unwrap(), "seed = 3\nnumbers_added = []\n");
    let back = decode_seed_record(&empty).unwrap();
    assert_eq!(back.seed, 3);
    assert!(back.numbers_added.is_empty());
}

#[test]
fn game_seed_round_trip() {
    let g = Game::new(&settings(Some(6), Some(7)));
    let back = decode_seed_record(&g.save_seed()).unwrap();
    assert_eq!(back.seed, g.seed);
    assert_eq!(back.numbers_added, g.numbers_added);
}

#[test]
fn seed_record_text_is_exact() {
    let bytes = encode_seed_record(42, &vec![5, 10, 0]);
    assert_eq!(String::from_utf8(bytes).unwrap(), "seed = 42\nnumbers_added = [5, 10, 0]\n");
}

#[test]
fn seed_record_rejects_bad_text() {
    for text in [
        "",
        "seed = \nnumbers_added = []\n",
        "seed = 1\nnumbers_added = [1,2]\n",
        "seed = 1\nnumbers_added = [1, 2]",
        "seed = 18446744073709551616\nnumbers_added = []\n",
        "seed = 1\nnumbers_added = [1, ]\n",
        "speed = 1\nnumbers_added = []\n",
    ] {
        assert!(decode_seed_record(&text.as_bytes().to_vec()).is_none(), "{}", text);
    }
    let max = decode_seed_record(&"seed = 18446744073709551615\nnumbers_added = [2]\n".as_bytes().to_vec()).unwrap();
    assert_eq!(max.seed, usize::MAX);
    assert_eq!(max.numbers_added, vec![2]);
}

#[test]
fn show_renders_frame() {
    let mut c = controller(2, 3, &[(0, 0), (2, 1)]);
    c.config.live_cell = Some('#');
    c.config.dead_cell = Some('-');
    let frame: String = c.game.show(&c.config).into_iter().collect();
    assert_eq!(frame, "Generation: 0\n#--\n--#\n");
    c.config.live_cell = None;
    c.config.dead_cell = None;
    c.game.generation = 12;
    let frame: String = c.game.show(&c.config).into_iter().collect();
    assert_eq!(frame, "Generation: 12\n\u{25A0}  \n  \u{25A0}\n");
}
