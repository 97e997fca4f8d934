//! Shared data types: the core enums and structs of the game.
use vstd::prelude::*;

verus! {

/// Defines the user interface theme mode.
#[derive(Clone, Copy, Debug, PartialEq, Eq, Structural)]
pub enum ThemeMode {
    System,
    Light,
    Dark,
}

/// The theme mode that a fresh installation starts with.
pub fn default_theme_mode() -> (mode: ThemeMode)
    ensures
        mode == ThemeMode::System,
{
    ThemeMode::System
}

/// The value of boolean settings that default to on.
pub fn default_true() -> (b: bool)
    ensures
        b,
{
    true
}

/// Represents the different text sizes.
#[derive(Clone, Copy, Debug, PartialEq, Eq, Structural)]
pub enum TextSize {
    Small,
    Normal,
    Large,
}

/// The text size that a fresh installation starts with.
pub fn default_text_size() -> (size: TextSize)
    ensures
        size == TextSize::Normal,
{
    TextSize::Normal
}

/// Represents the different screens/views in the application.
#[derive(Clone, Copy, Debug, PartialEq, Eq, Structural)]
pub enum Screen {
    Start,
    Game,
    Leaderboard,
    Settings,
}

/// The available game modes.
#[derive(Clone, Copy, Debug, PartialEq, Eq, Structural)]
pub enum GameMode {
    QuickPlay,
    DailyChallenge,
}

/// Status of the application update check.
#[derive(Clone, Debug, PartialEq, Eq, Default)]
pub enum UpdateStatus {
    #[default]
    Idle,
    Checking,
    UpToDate,
    Available { version: String, url: String },
    Error(String),
}

/// Difficulty levels that select the puzzle pool.
#[derive(Clone, Copy, Debug, PartialEq, Eq, Structural)]
pub enum Difficulty {
    Easy,
    Medium,
    Hard,
}

/// The lower-case key that names a difficulty.
pub open spec fn mode_key_spec(level: Difficulty) -> Seq<char> {
    match level {
        Difficulty::Easy => "easy"@,
        Difficulty::Medium => "medium"@,
        Difficulty::Hard => "hard"@,
    }
}

/// The name of the puzzle data file of a difficulty.
pub open spec fn file_name_spec(level: Difficulty) -> Seq<char> {
    match level {
        Difficulty::Easy => "puzzles-easy.json"@,
        Difficulty::Medium => "puzzles-medium.json"@,
        Difficulty::Hard => "puzzles-hard.json"@,
    }
}

impl Difficulty {
    pub fn as_mode_key(self) -> (key: &'static str)
        ensures
            key@ == mode_key_spec(self),
    {
        match self {
            Difficulty::Easy => "easy",
            Difficulty::Medium => "medium",
            Difficulty::Hard => "hard",
        }
    }

    pub fn file_name(self) -> (name: &'static str)
        ensures
            name@ == file_name_spec(self),
    {
        match self {
            Difficulty::Easy => "puzzles-easy.json",
            Difficulty::Medium => "puzzles-medium.json",
            Difficulty::Hard => "puzzles-hard.json",
        }
    }
}

/// Represents a single word puzzle.
#[derive(Clone, Debug)]
pub struct Puzzle {
    /// The starting word displayed to the user.
    pub source: String,
    /// A textual hint describing the answer.
    pub hint: String,
    /// The target word the user must guess.
    pub answer: String,
}

/// The contents of a puzzle, as character sequences.
pub struct PuzzleModel {
    pub source: Seq<char>,
    pub hint: Seq<char>,
    pub answer: Seq<char>,
}

impl View for Puzzle {
    type V = PuzzleModel;

    open spec fn view(&self) -> PuzzleModel {
        PuzzleModel { source: self.source@, hint: self.hint@, answer: self.answer@ }
    }
}

} // verus!
