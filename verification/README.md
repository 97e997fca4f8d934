# Lexivo

Lexivo is a word puzzle game: a scrambled source word and a hint are shown,
and the player types or taps the letters of the answer. This crate holds the
game's rules, verified with Verus, and a desktop front end around them.

## Layout

- `src/` — the verified library (`lexivo`):
  - `app.rs` — the game state `LexivoApp`, its model `AppModel`, timer
    policy and messages;
  - `round.rs` — starting games and daily challenges, loading puzzle sets,
    moving from puzzle to puzzle;
  - `turn.rs` — checking answers, scoring and the round clock;
  - `hints.rs` — revealing letters for points;
  - `answer.rs` — the answer slots and typed input;
  - `scores.rs` — the leaderboard of the five best distinct scores;
  - `navigation.rs` — screens and the confirmations that guard them;
  - `changelog.rs` — parsing the release notes;
  - `updates.rs` — what the latest published release means for this build;
  - `utils.rs`, `text.rs` — seeds, shuffling, scrambling, normalising
    answers and character-level text operations;
  - `types.rs`, `config.rs`, `platform_feedback.rs` — shared types,
    constants and platform hooks.
- `tests/` — tests of the library.
- `app/` — the desktop program: window and screens (egui/eframe), saved
  games, puzzle files and the background update check.

Puzzle files are read from `assets/data/puzzles-{easy,medium,hard}.json`
and the release notes from `CHANGELOG.md`, next to the working directory or
the executable.
