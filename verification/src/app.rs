//! The game state and its rules: rounds, timers, scoring, navigation and
//! the leaderboard.
use crate::config::AppConfig;
use crate::types::{Difficulty, GameMode, Puzzle, Screen, TextSize, ThemeMode};
use vstd::prelude::*;

verus! {

/// The main application state of the game. Times are held in whole
/// milliseconds.
pub struct LexivoApp {
    /// The list of puzzles loaded for the current difficulty.
    pub puzzles: Vec<Puzzle>,
    /// Index of the current puzzle in the `puzzles` list.
    pub current_index: usize,
    /// The current source word after being scrambled.
    pub scrambled_source: String,
    /// Current text entered by the user in the answer slots.
    pub user_input: String,
    /// Current session score.
    pub score: u32,
    /// Highest score achieved.
    pub best_score: u32,
    /// Current consecutive correct answers.
    pub streak: u32,
    /// Highest streak achieved.
    pub best_streak: u32,
    /// Top scores, highest first.
    pub leaderboard: Vec<u32>,
    /// Feedback message displayed to the user (e.g. "Correct!").
    pub message: String,
    /// Whether the input should automatically grab focus.
    pub auto_focus: bool,
    /// State for the pseudo-random number generator.
    pub rng_state: u64,
    /// Remaining time for the current round, in milliseconds.
    pub time_left_ms: u32,
    /// Whether the current game or round has ended.
    pub game_over: bool,
    /// The currently active screen.
    pub screen: Screen,
    /// The previous screen visited, used for back-navigation.
    pub previous_screen: Option<Screen>,
    /// Whether the back-navigation confirmation is visible.
    pub show_back_confirm: bool,
    /// Pending target screen after confirming back-navigation.
    pub pending_back_target: Option<Screen>,
    /// Whether the reset-progress confirmation is visible.
    pub show_reset_confirm: bool,
    /// Toggle for tile animations.
    pub animations_enabled: bool,
    /// Toggle for sound effects and answer feedback.
    pub sound_enabled: bool,
    /// Toggle for the game timer.
    pub timer_enabled: bool,
    /// Total number of questions in a challenge.
    pub challenge_total: usize,
    /// Number of questions completed in the current challenge.
    pub challenge_progress: usize,
    /// Whether a daily challenge is being played.
    pub daily_challenge_active: bool,
    /// Number of questions selected for the challenge (0 means all).
    pub selected_question_count: usize,
    /// The selected game mode.
    pub selected_mode: GameMode,
    /// The current difficulty setting.
    pub current_difficulty: Difficulty,
    /// Indices of answer letters revealed through hints.
    pub revealed_answer_indices: Vec<usize>,
    /// The preferred theme mode.
    pub theme_mode: ThemeMode,
    /// The preferred text size.
    pub text_size: TextSize,
    /// Whether the build information is shown.
    pub show_build_info: bool,
    /// Whether the game instructions are shown.
    pub show_game_instructions: bool,
    /// Whether the update check window is shown.
    pub check_app_for_updates: bool,
    /// Whether the changelog is shown.
    pub show_changelog: bool,
    /// Whether the support window is shown.
    pub support_development: bool,
    /// Currently focused answer slot for keyboard input.
    pub focused_slot: Option<usize>,
    /// Time left before the feedback message disappears, in milliseconds.
    pub message_timer_ms: u32,
}

/// The state of the game as mathematical values.
pub struct AppModel {
    pub puzzles: Seq<Puzzle>,
    pub current_index: usize,
    pub scrambled_source: Seq<char>,
    pub user_input: Seq<char>,
    pub score: u32,
    pub best_score: u32,
    pub streak: u32,
    pub best_streak: u32,
    pub leaderboard: Seq<u32>,
    pub message: Seq<char>,
    pub auto_focus: bool,
    pub rng_state: u64,
    pub time_left_ms: u32,
    pub game_over: bool,
    pub screen: Screen,
    pub previous_screen: Option<Screen>,
    pub show_back_confirm: bool,
    pub pending_back_target: Option<Screen>,
    pub show_reset_confirm: bool,
    pub animations_enabled: bool,
    pub sound_enabled: bool,
    pub timer_enabled: bool,
    pub challenge_total: usize,
    pub challenge_progress: usize,
    pub daily_challenge_active: bool,
    pub selected_question_count: usize,
    pub selected_mode: GameMode,
    pub current_difficulty: Difficulty,
    pub revealed_answer_indices: Seq<usize>,
    pub theme_mode: ThemeMode,
    pub text_size: TextSize,
    pub show_build_info: bool,
    pub show_game_instructions: bool,
    pub check_app_for_updates: bool,
    pub show_changelog: bool,
    pub support_development: bool,
    pub focused_slot: Option<usize>,
    pub message_timer_ms: u32,
}

impl View for LexivoApp {
    type V = AppModel;

    open spec fn view(&self) -> AppModel {
        AppModel {
            puzzles: self.puzzles@,
            current_index: self.current_index,
            scrambled_source: self.scrambled_source@,
            user_input: self.user_input@,
            score: self.score,
            best_score: self.best_score,
            streak: self.streak,
            best_streak: self.best_streak,
            leaderboard: self.leaderboard@,
            message: self.message@,
            auto_focus: self.auto_focus,
            rng_state: self.rng_state,
            time_left_ms: self.time_left_ms,
            game_over: self.game_over,
            screen: self.screen,
            previous_screen: self.previous_screen,
            show_back_confirm: self.show_back_confirm,
            pending_back_target: self.pending_back_target,
            show_reset_confirm: self.show_reset_confirm,
            animations_enabled: self.animations_enabled,
            sound_enabled: self.sound_enabled,
            timer_enabled: self.timer_enabled,
            challenge_total: self.challenge_total,
            challenge_progress: self.challenge_progress,
            daily_challenge_active: self.daily_challenge_active,
            selected_question_count: self.selected_question_count,
            selected_mode: self.selected_mode,
            current_difficulty: self.current_difficulty,
            revealed_answer_indices: self.revealed_answer_indices@,
            theme_mode: self.theme_mode,
            text_size: self.text_size,
            show_build_info: self.show_build_info,
            show_game_instructions: self.show_game_instructions,
            check_app_for_updates: self.check_app_for_updates,
            show_changelog: self.show_changelog,
            support_development: self.support_development,
            focused_slot: self.focused_slot,
            message_timer_ms: self.message_timer_ms,
        }
    }
}

/// The time limit, in seconds, that a question count sets: none for all
/// questions (0).
pub open spec fn time_limit_spec(question_count: usize) -> Option<u32> {
    if question_count == 10 {
        Some(60)
    } else if question_count == 20 {
        Some(120)
    } else if question_count == 30 {
        Some(180)
    } else if question_count == 0 {
        None
    } else {
        Some(AppConfig::ROUND_TIME_SECS)
    }
}

/// The time limit, in milliseconds, that a question count sets: none for
/// all questions (0).
pub open spec fn time_limit_ms_spec(question_count: usize) -> Option<u32> {
    if question_count == 10 {
        Some(60_000)
    } else if question_count == 20 {
        Some(120_000)
    } else if question_count == 30 {
        Some(180_000)
    } else if question_count == 0 {
        None
    } else {
        Some(AppConfig::ROUND_TIME_MS)
    }
}

/// The time limit, in seconds, of a round under a question count.
pub open spec fn round_secs_spec(question_count: usize) -> u32 {
    match time_limit_spec(question_count) {
        Some(s) => s,
        None => AppConfig::ROUND_TIME_SECS,
    }
}

/// The time limit, in milliseconds, of a round under a question count.
pub open spec fn round_ms_spec(question_count: usize) -> u32 {
    match time_limit_ms_spec(question_count) {
        Some(ms) => ms,
        None => AppConfig::ROUND_TIME_MS,
    }
}

/// The time on the clock when a question count is set: its limit, or zero
/// when it has none.
pub open spec fn policy_ms(question_count: usize) -> u32 {
    match time_limit_ms_spec(question_count) {
        Some(ms) => ms,
        None => 0,
    }
}

/// The timer that a question count sets: its milliseconds and whether it runs.
pub open spec fn timer_policy(m: AppModel) -> AppModel {
    AppModel {
        time_left_ms: policy_ms(m.selected_question_count),
        timer_enabled: time_limit_ms_spec(m.selected_question_count) is Some,
        ..m
    }
}

/// The challenge length that a question count gives, with `n` puzzles
/// loaded: all of them for 0 or for a count at least `n` (and at least one).
pub open spec fn challenge_total_spec(count: usize, n: nat) -> usize {
    if count == 0 || count >= n {
        if n >= 1 { n as usize } else { 1 }
    } else {
        count
    }
}

/// A message and its display time, set.
pub open spec fn with_message(m: AppModel, text: Seq<char>) -> AppModel {
    AppModel { message: text, message_timer_ms: AppConfig::MESSAGE_DURATION_MS, ..m }
}

impl LexivoApp {
    /// The time limit, in seconds, that a question count sets, if any.
    pub fn question_count_time_limit_secs(question_count: usize) -> (r: Option<u32>)
        ensures
            r == time_limit_spec(question_count),
    {
        if question_count == 10 {
            Some(60)
        } else if question_count == 20 {
            Some(120)
        } else if question_count == 30 {
            Some(180)
        } else if question_count == 0 {
            None
        } else {
            Some(AppConfig::ROUND_TIME_SECS)
        }
    }

    /// The time limit, in seconds, of a round under the selected count.
    pub fn current_time_limit_secs(&self) -> (r: u32)
        ensures
            r == round_secs_spec(self.selected_question_count),
            r <= 180,
    {
        match Self::question_count_time_limit_secs(self.selected_question_count) {
            Some(s) => s,
            None => AppConfig::ROUND_TIME_SECS,
        }
    }

    /// The time limit, in milliseconds, that a question count sets, if any.
    pub fn question_count_time_limit_ms(question_count: usize) -> (r: Option<u32>)
        ensures
            r == time_limit_ms_spec(question_count),
    {
        if question_count == 10 {
            Some(60_000)
        } else if question_count == 20 {
            Some(120_000)
        } else if question_count == 30 {
            Some(180_000)
        } else if question_count == 0 {
            None
        } else {
            Some(AppConfig::ROUND_TIME_MS)
        }
    }

    /// The time limit, in milliseconds, of a round under the selected count.
    pub fn current_time_limit_ms(&self) -> (r: u32)
        ensures
            r == round_ms_spec(self.selected_question_count),
    {
        match Self::question_count_time_limit_ms(self.selected_question_count) {
            Some(ms) => ms,
            None => AppConfig::ROUND_TIME_MS,
        }
    }

    /// Sets the timer from the selected question count.
    pub fn apply_question_count_timer_policy(&mut self)
        ensures
            final(self)@ == timer_policy(old(self)@),
    {
        let limit = Self::question_count_time_limit_ms(self.selected_question_count);
        let (ms, on): (u32, bool) = match limit {
            Some(ms) => (ms, true),
            None => (0, false),
        };
        self.time_left_ms = ms;
        self.timer_enabled = on;
    }

    /// The challenge length that a question count gives with `n` puzzles.
    pub fn challenge_total_for(count: usize, n: usize) -> (r: usize)
        ensures
            r == challenge_total_spec(count, n as nat),
    {
        if count == 0 || count >= n {
            if n >= 1 { n } else { 1 }
        } else {
            count
        }
    }

    /// Configures the number of questions of the next challenge.
    pub fn set_question_count(&mut self, count: usize)
        ensures
            final(self)@ == timer_policy(
                AppModel {
                    selected_question_count: count,
                    challenge_total: challenge_total_spec(count, old(self)@.puzzles.len()),
                    ..old(self)@
                },
            ),
    {
        let total = Self::challenge_total_for(count, self.puzzles.len());
        self.selected_question_count = count;
        self.challenge_total = total;
        self.apply_question_count_timer_policy();
    }

    /// Clears what does not outlive a session once a saved game is restored:
    /// the typed text, the message, the confirmations and the focused slot;
    /// input focus is requested and the timer is set from the question count.
    pub fn reset_transient_state(&mut self)
        ensures
            final(self)@ == timer_policy(
                AppModel {
                    user_input: seq![],
                    message: seq![],
                    auto_focus: true,
                    show_back_confirm: false,
                    pending_back_target: None,
                    show_reset_confirm: false,
                    focused_slot: None,
                    ..old(self)@
                },
            ),
    {
        self.user_input = String::new();
        self.message = String::new();
        self.auto_focus = true;
        self.apply_question_count_timer_policy();
        self.show_back_confirm = false;
        self.pending_back_target = None;
        self.show_reset_confirm = false;
        self.focused_slot = None;
    }

    /// Selects the game mode.
    pub fn set_mode(&mut self, mode: GameMode)
        ensures
            final(self)@ == (AppModel { selected_mode: mode, ..old(self)@ }),
    {
        self.selected_mode = mode;
    }

    /// Displays a temporary feedback message.
    pub fn set_message(&mut self, text: &str)
        ensures
            final(self)@ == with_message(old(self)@, text@),
    {
        self.message = String::from_str(text);
        self.message_timer_ms = AppConfig::MESSAGE_DURATION_MS;
    }
}

} // verus!
