//! Rounds of play: loading a puzzle set, starting a quick game or the daily
//! challenge, and moving from puzzle to puzzle.
use crate::config::AppConfig;
use crate::app::{round_ms_spec, timer_policy, with_message, AppModel, LexivoApp};
use crate::types::{mode_key_spec, Difficulty, GameMode, Puzzle, Screen, TextSize, ThemeMode};
use crate::navigation::go_to_spec;
use crate::utils::{
    all_same, daily_seed_for_difficulty, daily_seed_spec, difficulty_twist, scramble_word,
    seed_from_time, shuffle_slice,
};
use vstd::prelude::*;

verus! {

/// Whether `s` is a scramble of `word`: the same letters, rearranged so
/// that the word changes whenever it has two different letters.
pub open spec fn scrambled_from(s: Seq<char>, word: Seq<char>) -> bool {
    &&& s.len() == word.len()
    &&& s.to_multiset() == word.to_multiset()
    &&& (word.len() < 2 ==> s == word)
    &&& (!all_same(word) ==> s != word)
}

/// Whether `new` holds the puzzles of `old`, in some order.
pub open spec fn permuted(new: Seq<Puzzle>, old: Seq<Puzzle>) -> bool {
    new.len() == old.len() && new.to_multiset() == old.to_multiset()
}

/// Whether `new` shows puzzle `new.current_index` with a scramble of its
/// source word.
pub open spec fn showing_scramble(new: AppModel) -> bool {
    &&& new.current_index < new.puzzles.len()
    &&& scrambled_from(new.scrambled_source, new.puzzles[new.current_index as int]@.source)
}

/// The fields a fresh round resets: score, streak, message, typed text,
/// game over, timer, focus, challenge progress, daily mode and revealed
/// letters.
pub open spec fn round_reset(m: AppModel) -> AppModel {
    AppModel {
        score: 0,
        streak: 0,
        message: seq![],
        user_input: seq![],
        game_over: false,
        time_left_ms: round_ms_spec(m.selected_question_count),
        auto_focus: true,
        challenge_progress: 0,
        daily_challenge_active: false,
        revealed_answer_indices: seq![],
        ..m
    }
}

/// Whether `new` is a state that `restart_game` may leave `old` in: the
/// round is reset and, when puzzles are loaded, they are reshuffled and the
/// first one is shown scrambled.
pub open spec fn restart_rel(old: AppModel, new: AppModel) -> bool {
    if old.puzzles.len() == 0 {
        new == round_reset(old)
    } else {
        &&& new == (AppModel {
            puzzles: new.puzzles,
            current_index: 0,
            scrambled_source: new.scrambled_source,
            rng_state: new.rng_state,
            ..round_reset(old)
        })
        &&& permuted(new.puzzles, old.puzzles)
        &&& showing_scramble(new)
    }
}

/// Whether `new` is a state that `next_puzzle` may leave `old` in: the next
/// puzzle is shown scrambled, after a reshuffle when the set is used up,
/// with the typed text, message and revealed letters cleared and the timer
/// reset.
pub open spec fn next_puzzle_rel(old: AppModel, new: AppModel) -> bool {
    if old.puzzles.len() == 0 {
        new == old
    } else {
        let base = AppModel {
            user_input: seq![],
            message: seq![],
            auto_focus: true,
            time_left_ms: round_ms_spec(old.selected_question_count),
            game_over: false,
            revealed_answer_indices: seq![],
            ..old
        };
        &&& new == (AppModel {
            puzzles: new.puzzles,
            current_index: new.current_index,
            scrambled_source: new.scrambled_source,
            rng_state: new.rng_state,
            ..base
        })
        &&& if old.current_index + 1 >= old.puzzles.len() {
            new.current_index == 0 && permuted(new.puzzles, old.puzzles)
        } else {
            new.current_index == old.current_index + 1 && new.puzzles == old.puzzles
        }
        &&& showing_scramble(new)
    }
}

/// Whether `new` is a state that loading `puzzles` for `level` may leave
/// `old` in: the set replaces the old one, shuffled, with the first puzzle
/// shown scrambled (or nothing shown for an empty set), and the typed text
/// cleared.
pub open spec fn load_rel(old: AppModel, level: Difficulty, puzzles: Seq<Puzzle>, new: AppModel) -> bool {
    &&& new == (AppModel {
        puzzles: new.puzzles,
        scrambled_source: new.scrambled_source,
        rng_state: new.rng_state,
        current_difficulty: level,
        current_index: 0,
        user_input: seq![],
        ..old
    })
    &&& if puzzles.len() == 0 {
        new.puzzles == puzzles && new.scrambled_source == Seq::<char>::empty() && new.rng_state
            == old.rng_state
    } else {
        permuted(new.puzzles, puzzles) && showing_scramble(new)
    }
}

/// The length of the daily challenge with `n` puzzles loaded: the
/// configured total, or all puzzles when it is 0 or at least `n`.
pub open spec fn daily_total_spec(total: usize, n: nat) -> usize {
    if total == 0 || total >= n {
        n as usize
    } else {
        total
    }
}

/// Whether `new` is a state that starting the daily challenge at
/// `epoch_seconds` may leave `old` in: the score, streak, progress, typed
/// text and timer are reset and the daily mode is on; the puzzles are
/// shuffled by the day's seed for the difficulty and cut to the challenge
/// length, and the first one is shown scrambled. Which order the day's seed
/// gives is left unsaid: it comes from `rand`'s standard generator, which is
/// documented as not portable across platforms, so the relation holds of any
/// reordering and does not tie the order to the seed.
pub open spec fn daily_rel(old: AppModel, epoch_seconds: u64, new: AppModel) -> bool {
    let base = AppModel {
        score: 0,
        streak: 0,
        challenge_progress: 0,
        user_input: seq![],
        game_over: false,
        time_left_ms: round_ms_spec(old.selected_question_count),
        auto_focus: true,
        daily_challenge_active: true,
        ..old
    };
    if old.puzzles.len() == 0 {
        new == (AppModel { challenge_total: 0, ..base })
    } else {
        let total = daily_total_spec(old.challenge_total, old.puzzles.len());
        &&& new == (AppModel {
            puzzles: new.puzzles,
            challenge_total: total,
            current_index: 0,
            scrambled_source: new.scrambled_source,
            rng_state: new.rng_state,
            ..base
        })
        &&& exists|order: Seq<Puzzle>| #[trigger] permuted(order, old.puzzles) && new.puzzles == order.take(total as int)
        &&& showing_scramble(new)
    }
}

/// The puzzle shown when no puzzle set could be loaded.
pub open spec fn fallback_puzzle_ok(p: Puzzle) -> bool {
    &&& p@.source == "LEXIVO"@
    &&& p@.hint == "The name of this app"@
    &&& p@.answer == "LEXIVO"@
}

/// The settings and counters of a fresh game.
pub open spec fn fresh_settings(m: AppModel) -> bool {
    &&& m.score == 0 && m.best_score == 0 && m.streak == 0 && m.best_streak == 0
    &&& m.leaderboard == Seq::<u32>::empty()
    &&& m.message == Seq::<char>::empty() && m.message_timer_ms == 0
    &&& m.user_input == Seq::<char>::empty()
    &&& m.auto_focus
    &&& m.time_left_ms == 60_000 && m.timer_enabled
    &&& !m.game_over
    &&& m.screen == Screen::Start && m.previous_screen is None
    &&& !m.show_back_confirm && m.pending_back_target is None && !m.show_reset_confirm
    &&& !m.animations_enabled && m.sound_enabled
    &&& m.challenge_total == 10 && m.challenge_progress == 0 && !m.daily_challenge_active
    &&& m.selected_question_count == 10
    &&& m.selected_mode == GameMode::QuickPlay
    &&& m.current_difficulty == Difficulty::Easy
    &&& m.revealed_answer_indices == Seq::<usize>::empty()
    &&& m.theme_mode == ThemeMode::System && m.text_size == TextSize::Normal
    &&& !m.show_build_info && m.show_game_instructions && !m.check_app_for_updates
    &&& !m.show_changelog && !m.support_development
    &&& m.focused_slot is None
    &&& m.current_index == 0
}

/// The index of the puzzle after `index`; when the set is used up (or
/// `index` lies past its end), the set is reshuffled and the first puzzle
/// comes next.
fn advance_index(puzzles: &mut Vec<Puzzle>, index: usize, rng_state: &mut u64) -> (next: usize)
    requires
        old(puzzles)@.len() > 0,
    ensures
        next < final(puzzles)@.len(),
        if index + 1 >= old(puzzles)@.len() {
            next == 0 && permuted(final(puzzles)@, old(puzzles)@)
        } else {
            next == index + 1 && final(puzzles)@ == old(puzzles)@ && *final(rng_state) == *old(rng_state)
        },
{
    if index >= puzzles.len() - 1 {
        shuffle_slice(puzzles.as_mut_slice(), rng_state);
        0
    } else {
        index + 1
    }
}

impl LexivoApp {
    /// Shows a scramble of the current puzzle's source word.
    pub(crate) fn scramble_current(&mut self)
        requires
            old(self).current_index < old(self).puzzles.len(),
        ensures
            final(self)@ == (AppModel {
                scrambled_source: final(self)@.scrambled_source,
                rng_state: final(self)@.rng_state,
                ..old(self)@
            }),
            showing_scramble(final(self)@),
    {
        let scrambled = scramble_word(
            self.puzzles[self.current_index].source.as_str(),
            &mut self.rng_state,
        );
        self.scrambled_source = scrambled;
    }

    /// Shuffles the loaded puzzles with the game's generator; fewer than two
    /// puzzles, and the generator, stay as they are. Which order comes out is
    /// drawn from the generator and is left unsaid.
    pub(crate) fn shuffle_puzzles(&mut self)
        ensures
            final(self)@ == (AppModel {
                puzzles: final(self)@.puzzles,
                rng_state: final(self)@.rng_state,
                ..old(self)@
            }),
            permuted(final(self)@.puzzles, old(self)@.puzzles),
            old(self)@.puzzles.len() < 2 ==> final(self)@ == old(self)@,
    {
        shuffle_slice(self.puzzles.as_mut_slice(), &mut self.rng_state);
    }

    /// Resets the game state for a new round of play.
    #[verifier::rlimit(40)]
    pub fn restart_game(&mut self)
        ensures
            restart_rel(old(self)@, final(self)@),
    {
        let limit = self.current_time_limit_ms();
        self.score = 0;
        self.streak = 0;
        self.message = String::new();
        self.user_input = String::new();
        self.game_over = false;
        self.time_left_ms = limit;
        self.auto_focus = true;
        self.challenge_progress = 0;
        self.daily_challenge_active = false;
        self.revealed_answer_indices.clear();
        if self.puzzles.len() == 0 {
            return;
        }
        self.shuffle_puzzles();
        self.current_index = 0;
        self.scramble_current();
    }

    /// Advances the game to the next puzzle in the current set; past the end
    /// of the set, it is reshuffled and play starts again at its first puzzle.
    #[verifier::rlimit(40)]
    pub fn next_puzzle(&mut self)
        requires
            old(self)@.puzzles.len() > 0 ==> old(self)@.current_index < usize::MAX,
        ensures
            next_puzzle_rel(old(self)@, final(self)@),
    {
        if self.puzzles.len() == 0 {
            return;
        }
        let next = advance_index(&mut self.puzzles, self.current_index, &mut self.rng_state);
        self.current_index = next;
        self.scramble_current();
        let limit = self.current_time_limit_ms();
        self.user_input = String::new();
        self.message = String::new();
        self.auto_focus = true;
        self.time_left_ms = limit;
        self.game_over = false;
        self.revealed_answer_indices.clear();
    }

    /// Puts `puzzles` in place for `level`, at the first puzzle, with the
    /// typed text cleared.
    fn install_set(&mut self, level: Difficulty, puzzles: Vec<Puzzle>)
        ensures
            final(self)@ == (AppModel {
                puzzles: puzzles@,
                current_difficulty: level,
                current_index: 0,
                user_input: seq![],
                ..old(self)@
            }),
    {
        self.puzzles = puzzles;
        self.current_difficulty = level;
        self.current_index = 0;
        self.user_input = String::new();
    }

    /// Shuffles a non-empty set and shows its first puzzle scrambled.
    fn shuffle_and_show_first(&mut self)
        requires
            old(self).current_index == 0,
            old(self).puzzles.len() > 0,
        ensures
            final(self)@ == (AppModel {
                puzzles: final(self)@.puzzles,
                scrambled_source: final(self)@.scrambled_source,
                rng_state: final(self)@.rng_state,
                ..old(self)@
            }),
            permuted(final(self)@.puzzles, old(self)@.puzzles),
            showing_scramble(final(self)@),
    {
        self.shuffle_puzzles();
        self.scramble_current();
    }

    /// Puts a loaded puzzle set for `level` in place of the current one.
    #[verifier::rlimit(40)]
    pub fn load_difficulty(&mut self, level: Difficulty, puzzles: Vec<Puzzle>)
        ensures
            load_rel(old(self)@, level, puzzles@, final(self)@),
    {
        self.install_set(level, puzzles);
        if self.puzzles.len() == 0 {
            self.scrambled_source = String::new();
            return;
        }
        self.shuffle_and_show_first();
    }

    /// Starts the daily challenge of the day that `epoch_seconds` falls in.
    #[verifier::rlimit(60)]
    pub fn start_daily_challenge_at(&mut self, epoch_seconds: u64)
        ensures
            daily_rel(old(self)@, epoch_seconds, final(self)@),
    {
        let limit = self.current_time_limit_ms();
        self.score = 0;
        self.streak = 0;
        self.challenge_progress = 0;
        self.user_input = String::new();
        self.game_over = false;
        self.time_left_ms = limit;
        self.auto_focus = true;
        self.daily_challenge_active = true;
        if self.puzzles.len() == 0 {
            self.challenge_total = 0;
            return;
        }
        let ghost before = self.puzzles@;
        let mut order_state = daily_seed_for_difficulty(self.current_difficulty, epoch_seconds);
        shuffle_slice(self.puzzles.as_mut_slice(), &mut order_state);
        let ghost order = self.puzzles@;
        let n = self.puzzles.len();
        let total = if self.challenge_total == 0 || self.challenge_total >= n {
            n
        } else {
            self.challenge_total
        };
        self.challenge_total = total;
        self.puzzles.truncate(total);
        assert(self.puzzles@ == order.take(total as int));
        assert(permuted(order, before));
        self.current_index = 0;
        self.scramble_current();
    }

    /// Starts the daily challenge of today, by the system clock.
    pub fn start_daily_challenge(&mut self)
        ensures
            exists|epoch_seconds: u64| #[trigger] daily_rel(old(self)@, epoch_seconds, final(self)@),
    {
        let secs = crate::utils::current_epoch_seconds();
        self.start_daily_challenge_at(secs);
    }
}

/// A reordering of a single puzzle is that puzzle.
proof fn lemma_single_permuted(new: Seq<Puzzle>, old: Seq<Puzzle>)
    requires
        permuted(new, old),
        old.len() == 1,
    ensures
        new.len() == 1,
        new[0] == old[0],
{
    broadcast use vstd::seq_lib::group_to_multiset_ensures;

    assert(new.contains(new[0]));
    assert(new.to_multiset().count(new[0]) > 0);
    assert(old.contains(new[0]));
}

/// The puzzle shown when no puzzle set could be loaded.
fn fallback_puzzle() -> (p: Puzzle)
    ensures
        fallback_puzzle_ok(p),
{
    Puzzle {
        source: String::from_str("LEXIVO"),
        hint: String::from_str("The name of this app"),
        answer: String::from_str("LEXIVO"),
    }
}

impl LexivoApp {
    /// A fresh game on the `loaded` puzzle set, or on the built-in puzzle
    /// where no set could be loaded; the generator starts from `seed`, the
    /// set is shuffled and its first puzzle is shown scrambled.
    pub fn from_puzzles(loaded: Option<Vec<Puzzle>>, seed: u64) -> (app: Self)
        requires
            loaded matches Some(p) ==> p.len() > 0,
        ensures
            fresh_settings(app@),
            loaded matches Some(p) ==> permuted(app@.puzzles, p@),
            loaded is None ==> app@.puzzles.len() == 1 && fallback_puzzle_ok(app@.puzzles[0]),
            showing_scramble(app@),
    {
        let ghost given = loaded;
        let puzzles = match loaded {
            Some(p) => p,
            None => vec![fallback_puzzle()],
        };
        assert(given matches Some(p) ==> puzzles@ == p@);
        let mut app = LexivoApp {
            puzzles: puzzles,
            current_index: 0,
            scrambled_source: String::new(),
            user_input: String::new(),
            score: 0,
            best_score: 0,
            streak: 0,
            best_streak: 0,
            leaderboard: Vec::new(),
            message: String::new(),
            auto_focus: true,
            rng_state: seed,
            time_left_ms: AppConfig::ROUND_TIME_MS,
            game_over: false,
            screen: Screen::Start,
            previous_screen: None,
            show_back_confirm: false,
            pending_back_target: None,
            show_reset_confirm: false,
            animations_enabled: false,
            sound_enabled: true,
            timer_enabled: true,
            challenge_total: 10,
            challenge_progress: 0,
            daily_challenge_active: false,
            selected_question_count: 10,
            selected_mode: GameMode::QuickPlay,
            current_difficulty: Difficulty::Easy,
            revealed_answer_indices: Vec::new(),
            theme_mode: ThemeMode::System,
            text_size: TextSize::Normal,
            show_build_info: false,
            show_game_instructions: true,
            check_app_for_updates: false,
            show_changelog: false,
            support_development: false,
            focused_slot: None,
            message_timer_ms: 0,
        };
        let ghost before = app.puzzles@;
        app.shuffle_and_show_first();
        proof {
            if given is None {
                lemma_single_permuted(app.puzzles@, before);
            }
        }
        app.apply_question_count_timer_policy();
        app
    }
}

impl Default for LexivoApp {
    /// A fresh game on the built-in puzzle, with the generator seeded from
    /// the clock. The library reads no files: a program that has the easy
    /// puzzle set at hand starts with `from_puzzles` on it instead.
    fn default() -> (app: Self)
        ensures
            fresh_settings(app@),
            app@.puzzles.len() == 1,
            fallback_puzzle_ok(app@.puzzles[0]),
            showing_scramble(app@),
    {
        Self::from_puzzles(None, seed_from_time())
    }
}

/// The message shown when the puzzle set of `level` could not be reloaded.
pub open spec fn reload_failed_message(level: Difficulty) -> Seq<char> {
    "Could not reload "@ + mode_key_spec(level) + " puzzles, starting with current set."@
}

/// A reloaded puzzle set, as a sequence.
pub open spec fn loaded_set(reloaded: Option<Vec<Puzzle>>) -> Option<Seq<Puzzle>> {
    match reloaded {
        Some(v) => Some(v@),
        None => None,
    }
}

/// Whether `new` is a state that reloading the current difficulty may leave
/// `old` in: the reloaded set is put in place, or a message says that the
/// current set stays.
pub open spec fn reload_rel(old: AppModel, reloaded: Option<Seq<Puzzle>>, new: AppModel) -> bool {
    match reloaded {
        Some(p) => load_rel(old, old.current_difficulty, p, new),
        None => new == with_message(old, reload_failed_message(old.current_difficulty)),
    }
}

/// Whether `new` is a state that starting the selected mode from `mid` may
/// lead to: a quick game on the game screen, or the daily challenge of the
/// day that `epoch_seconds` falls in.
pub open spec fn play_rel(mid: AppModel, epoch_seconds: u64, new: AppModel) -> bool {
    match mid.selected_mode {
        GameMode::QuickPlay => restart_rel(
            go_to_spec(AppModel { daily_challenge_active: false, ..mid }, Screen::Game),
            new,
        ),
        GameMode::DailyChallenge => exists|d: AppModel|
            #[trigger] daily_rel(mid, epoch_seconds, d) && new == go_to_spec(d, Screen::Game),
    }
}

/// Whether `new` is a state that starting the selected mode may leave `old`
/// in, with `reloaded` the outcome of reloading the current difficulty.
pub open spec fn start_mode_rel(
    old: AppModel,
    reloaded: Option<Seq<Puzzle>>,
    epoch_seconds: u64,
    new: AppModel,
) -> bool {
    exists|mid: AppModel| #[trigger] reload_rel(old, reloaded, mid) && play_rel(mid, epoch_seconds, new)
}

/// The message shown when switching to `level` could not load its puzzles.
pub open spec fn switch_failed_message(level: Difficulty) -> Seq<char> {
    "Could not load "@ + mode_key_spec(level) + " puzzles, using current set."@
}

/// Whether `new` is a state that switching `old` to the set loaded for
/// `level` may lead to: the set is put in place, or a message says that the
/// current set stays.
pub open spec fn switch_outcome(
    old: AppModel,
    level: Difficulty,
    loaded: Option<Seq<Puzzle>>,
    new: AppModel,
) -> bool {
    match loaded {
        Some(p) => load_rel(old, level, p, new),
        None => new == with_message(old, switch_failed_message(level)),
    }
}

/// The message shown when switching to `level` could not load its puzzles.
fn switch_failed_text(level: Difficulty) -> (text: String)
    ensures
        text@ == switch_failed_message(level),
{
    let mut text = String::from_str("Could not load ");
    text.append(level.as_mode_key());
    text.append(" puzzles, using current set.");
    text
}

/// The message shown when the puzzle set of `level` could not be reloaded.
fn reload_failed_text(level: Difficulty) -> (text: String)
    ensures
        text@ == reload_failed_message(level),
{
    let mut text = String::from_str("Could not reload ");
    text.append(level.as_mode_key());
    text.append(" puzzles, starting with current set.");
    text
}

impl LexivoApp {
    /// Puts the reloaded set of the current difficulty in place, or says
    /// that the current set stays where it could not be reloaded.
    fn reload(&mut self, reloaded: Option<Vec<Puzzle>>)
        ensures
            reload_rel(old(self)@, loaded_set(reloaded), final(self)@),
    {
        match reloaded {
            Some(p) => self.load_difficulty(self.current_difficulty, p),
            None => {
                let text = reload_failed_text(self.current_difficulty);
                self.set_message(text.as_str());
            },
        }
    }

    /// Starts the selected mode on the game screen, after the puzzle set of
    /// the current difficulty was reloaded (`None` where that failed); a
    /// daily challenge is that of the day that `epoch_seconds` falls in.
    pub fn start_selected_mode_at(&mut self, reloaded: Option<Vec<Puzzle>>, epoch_seconds: u64)
        ensures
            start_mode_rel(old(self)@, loaded_set(reloaded), epoch_seconds, final(self)@),
    {
        let ghost given = loaded_set(reloaded);
        self.reload(reloaded);
        let ghost mid = self@;
        match self.selected_mode {
            GameMode::QuickPlay => {
                self.daily_challenge_active = false;
                self.go_to_screen(Screen::Game);
                self.restart_game();
            },
            GameMode::DailyChallenge => {
                self.start_daily_challenge_at(epoch_seconds);
                let ghost d = self@;
                self.go_to_screen(Screen::Game);
                assert(daily_rel(mid, epoch_seconds, d));
            },
        }
        assert(reload_rel(old(self)@, given, mid));
    }

    /// Starts the selected mode on the game screen, after the puzzle set of
    /// the current difficulty was reloaded (`None` where that failed); a
    /// daily challenge is that of today, by the system clock.
    pub fn start_selected_mode(&mut self, reloaded: Option<Vec<Puzzle>>)
        ensures
            exists|epoch_seconds: u64| #[trigger]
                start_mode_rel(old(self)@, loaded_set(reloaded), epoch_seconds, final(self)@),
    {
        let epoch_seconds = match self.selected_mode {
            GameMode::DailyChallenge => crate::utils::current_epoch_seconds(),
            GameMode::QuickPlay => 0,
        };
        self.start_selected_mode_at(reloaded, epoch_seconds);
    }

    /// Puts the set loaded for `level` in place, or says that the current
    /// set stays where none could be loaded.
    fn apply_loaded(&mut self, level: Difficulty, loaded: Option<Vec<Puzzle>>)
        ensures
            switch_outcome(old(self)@, level, loaded_set(loaded), final(self)@),
    {
        match loaded {
            Some(p) => self.load_difficulty(level, p),
            None => {
                let text = switch_failed_text(level);
                self.set_message(text.as_str());
            },
        }
    }

    /// Switches to difficulty `level`, with its puzzle set as loaded
    /// (`None` where it could not be loaded, and the current set stays).
    pub fn select_difficulty(&mut self, level: Difficulty, loaded: Option<Vec<Puzzle>>)
        ensures
            switch_outcome(
                AppModel { current_difficulty: level, ..old(self)@ },
                level,
                loaded_set(loaded),
                final(self)@,
            ),
    {
        self.current_difficulty = level;
        self.apply_loaded(level, loaded);
    }

    /// Installing a downloaded update is left to the Android build; here the
    /// player is told so.
    pub fn install_update(&mut self, url: &str)
        ensures
            final(self)@ == with_message(old(self)@, "Update download only supported on Android."@),
    {
        let _ = url;
        self.set_message("Update download only supported on Android.");
    }
}


/// Moving on to the next puzzle starts its clock afresh at the time limit
/// of the selected question count (two minutes for 20 questions, three for
/// 30, one minute otherwise), the limit that choosing that count sets; the
/// game is in play, the typed text and revealed letters are cleared, and
/// the score and streak stay.
pub proof fn lemma_next_puzzle_resets_clock(old: AppModel, new: AppModel)
    requires
        next_puzzle_rel(old, new),
        old.puzzles.len() > 0,
    ensures
        new.time_left_ms == (if old.selected_question_count == 20 {
            120_000u32
        } else if old.selected_question_count == 30 {
            180_000u32
        } else {
            60_000u32
        }),
        old.selected_question_count != 0 ==> new.time_left_ms == timer_policy(old).time_left_ms,
        !new.game_over,
        new.user_input.len() == 0,
        new.revealed_answer_indices.len() == 0,
        new.score == old.score && new.streak == old.streak,
        new.current_index < new.puzzles.len(),
{
}

/// Playing again always starts a round in play: the game is not over, the
/// score, streak and challenge progress are zero, the daily mode is off,
/// the clock holds the time limit of the selected question count, and the
/// first puzzle is shown when puzzles are loaded.
pub proof fn lemma_restart_starts_fresh_round(old: AppModel, new: AppModel)
    requires
        restart_rel(old, new),
    ensures
        !new.game_over,
        new.score == 0 && new.streak == 0 && new.challenge_progress == 0,
        !new.daily_challenge_active,
        new.time_left_ms == (if old.selected_question_count == 20 {
            120_000u32
        } else if old.selected_question_count == 30 {
            180_000u32
        } else {
            60_000u32
        }),
        new.user_input.len() == 0,
        new.revealed_answer_indices.len() == 0,
        old.puzzles.len() > 0 ==> new.current_index == 0 && new.puzzles.len() == old.puzzles.len(),
{
}

/// Starting the daily challenge starts a round in play in daily mode: the
/// game is not over, score, streak and progress are zero, the clock holds
/// the time limit of the selected question count, and with puzzles loaded
/// the challenge asks the configured number of questions (all loaded
/// puzzles where that is 0 or more than are loaded), which is how many
/// puzzles it keeps, starting at the first.
pub proof fn lemma_daily_starts_in_play(old: AppModel, epoch_seconds: u64, new: AppModel)
    requires
        daily_rel(old, epoch_seconds, new),
        old.puzzles.len() <= usize::MAX,
    ensures
        !new.game_over && new.daily_challenge_active,
        new.score == 0 && new.streak == 0 && new.challenge_progress == 0,
        new.time_left_ms == (if old.selected_question_count == 20 {
            120_000u32
        } else if old.selected_question_count == 30 {
            180_000u32
        } else {
            60_000u32
        }),
        old.puzzles.len() > 0 ==> new.current_index == 0 && new.challenge_total == (if 0
            < old.challenge_total < old.puzzles.len() {
            old.challenge_total as int
        } else {
            old.puzzles.len() as int
        }) && new.puzzles.len() == new.challenge_total,
{
    if old.puzzles.len() > 0 {
        let order = choose|order: Seq<Puzzle>|
            #[trigger] permuted(order, old.puzzles) && new.puzzles == order.take(
                daily_total_spec(old.challenge_total, old.puzzles.len()) as int,
            );
        assert(order.len() == old.puzzles.len());
    }
}

} // verus!
