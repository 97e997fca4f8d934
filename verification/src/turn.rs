//! A turn of play: checking the typed answer, and the clock that runs the
//! round and the feedback message.
use crate::answer::{
    clear_slot_spec, composed_spec, current_answer, drop_last_spec, index_valid, lemma_sync_fits,
    max_manual_spec, slots_consistent, slots_spec, typed_spec,
};
use crate::config::AppConfig;
use crate::hints::{paid_reveal, picked_index, reveal_picked, reveal_spec};
use crate::app::{with_message, AppModel, LexivoApp};
use crate::round::{next_puzzle_rel, restart_rel, showing_scramble};
use crate::scores::{leaderboard_after, record_spec};
use crate::text::{decimal_spec, push_decimal};
use crate::types::Screen;
use crate::utils::{normalise_answer, normalise_spec};
use vstd::prelude::*;

verus! {

broadcast use vstd::string::group_string_axioms;

/// A display time after `dt` milliseconds pass: it runs down to zero.
pub open spec fn time_after(t: u32, dt: u32) -> u32 {
    if dt >= t {
        0
    } else {
        (t - dt) as u32
    }
}

/// The feedback message after `dt` milliseconds pass, with `t` milliseconds
/// of display time left: it goes when its display time runs out.
pub open spec fn message_after(message: Seq<char>, t: u32, dt: u32) -> Seq<char> {
    if t > 0 && dt >= t {
        seq![]
    } else {
        message
    }
}

/// The state after `dt` milliseconds pass for the feedback message: its
/// display time runs down, and the message goes once it has run out.
pub open spec fn message_tick(m: AppModel, dt: u32) -> AppModel {
    AppModel {
        message_timer_ms: time_after(m.message_timer_ms, dt),
        message: message_after(m.message, m.message_timer_ms, dt),
        ..m
    }
}

/// Whether the round clock stands still: the timer is off, the game is
/// over, a confirmation or the instructions are shown, the game screen is
/// not shown, no puzzle is loaded, or all questions are selected.
pub open spec fn clock_paused(m: AppModel) -> bool {
    ||| !m.timer_enabled
    ||| m.game_over
    ||| m.show_back_confirm
    ||| m.show_reset_confirm
    ||| m.show_game_instructions
    ||| m.screen != Screen::Game
    ||| m.puzzles.len() == 0
    ||| m.selected_question_count == 0
}

/// The state when the round clock runs out: the game is over, the streak
/// is lost and the score is recorded.
pub open spec fn time_up(m: AppModel) -> AppModel {
    AppModel {
        time_left_ms: 0,
        game_over: true,
        streak: 0,
        leaderboard: leaderboard_after(m.leaderboard, m.score),
        user_input: seq![],
        auto_focus: true,
        ..m
    }
}

/// The state after `dt` milliseconds pass on the round clock.
pub open spec fn clock_tick(m: AppModel, dt: u32) -> AppModel {
    if clock_paused(m) {
        m
    } else if dt >= m.time_left_ms {
        time_up(m)
    } else {
        AppModel { time_left_ms: (m.time_left_ms - dt) as u32, ..m }
    }
}

/// The state after `dt` milliseconds pass.
pub open spec fn timer_spec(m: AppModel, dt: u32) -> AppModel {
    clock_tick(message_tick(m, dt), dt)
}

/// The word that the answer slots spell, when all of them are filled.
pub open spec fn typed_answer(m: AppModel) -> Option<Seq<char>> {
    composed_spec(slots_spec(m))
}

/// Whether the slots spell the answer of the current puzzle, once both are
/// normalised.
pub open spec fn answer_matches(m: AppModel) -> bool {
    &&& m.puzzles.len() > 0
    &&& typed_answer(m) is Some
    &&& normalise_spec(typed_answer(m)->0) == normalise_spec(current_answer(m))
}

/// The time bonus of an answer: the whole seconds left, rounded up, and at
/// least one.
pub open spec fn time_bonus(time_left_ms: u32) -> int {
    let secs = (time_left_ms + 999) / 1000;
    if secs >= 1 {
        secs
    } else {
        1
    }
}

/// The whole seconds shown on the clock with `time_left_ms` left, rounded
/// up.
pub open spec fn seconds_shown(time_left_ms: u32) -> int {
    (time_left_ms + 999) / 1000
}

/// The points that a right answer earns.
pub open spec fn earned_points(m: AppModel) -> int {
    10 + time_bonus(m.time_left_ms)
}

/// Whether the counters that a right answer raises stay in range.
pub open spec fn credit_fits(m: AppModel) -> bool {
    &&& m.streak < u32::MAX
    &&& m.score + earned_points(m) <= u32::MAX
    &&& m.daily_challenge_active ==> m.challenge_progress < usize::MAX
}

/// The state after a right answer is credited: the streak grows, the
/// points are added, the best values follow and the score is recorded.
pub open spec fn credited(m: AppModel) -> AppModel {
    let streak = (m.streak + 1) as u32;
    let score = (m.score + earned_points(m)) as u32;
    record_spec(
        AppModel {
            streak: streak,
            best_streak: if m.best_streak >= streak {
                m.best_streak
            } else {
                streak
            },
            score: score,
            best_score: if m.best_score >= score {
                m.best_score
            } else {
                score
            },
            ..m
        },
    )
}

/// The state after a right answer counts toward the daily challenge.
pub open spec fn progressed(m: AppModel) -> AppModel {
    if m.daily_challenge_active {
        AppModel { challenge_progress: (m.challenge_progress + 1) as usize, ..m }
    } else {
        m
    }
}

/// Whether the daily challenge has reached its length.
pub open spec fn daily_complete(m: AppModel) -> bool {
    m.daily_challenge_active && m.challenge_progress >= m.challenge_total
}

/// The message at the end of a daily challenge.
pub open spec fn daily_complete_message(score: u32) -> Seq<char> {
    "Daily challenge complete! Final score: "@ + decimal_spec(score as nat)
}

/// The message after a right answer.
pub open spec fn correct_message(earned: int) -> Seq<char> {
    "Correct! +"@ + decimal_spec(earned as nat) + " points"@
}

/// The state when the daily challenge is complete: the game is over.
pub open spec fn finished_daily(m: AppModel) -> AppModel {
    with_message(
        AppModel {
            game_over: true,
            daily_challenge_active: false,
            user_input: seq![],
            auto_focus: true,
            ..m
        },
        daily_complete_message(m.score),
    )
}

/// The state after a right answer, before the next puzzle is shown.
pub open spec fn before_next(m: AppModel, earned: int) -> AppModel {
    AppModel { user_input: seq![], auto_focus: true, ..with_message(m, correct_message(earned)) }
}

/// Whether `new` is a state that checking the answer may leave `old` in.
pub open spec fn check_rel(old: AppModel, new: AppModel) -> bool {
    if old.game_over {
        new == old
    } else if old.puzzles.len() == 0 {
        new == with_message(old, "No puzzles loaded"@)
    } else if typed_answer(old) is None {
        new == with_message(old, "Enter a word first."@)
    } else if !answer_matches(old) {
        new == with_message(AppModel { streak: 0, ..old }, "Not quite. Try again!"@)
    } else {
        let p = progressed(credited(old));
        if daily_complete(p) {
            new == finished_daily(p)
        } else {
            next_puzzle_rel(before_next(p, earned_points(old)), new)
        }
    }
}

/// The time bonus of an answer with `time_left_ms` left.
fn bonus_for(time_left_ms: u32) -> (b: u32)
    ensures
        b == time_bonus(time_left_ms),
        1 <= b <= 4_294_968,
{
    let secs = time_left_ms / 1000 + if time_left_ms % 1000 != 0 {
        1
    } else {
        0
    };
    if secs >= 1 {
        secs
    } else {
        1
    }
}

/// The message after a right answer.
fn correct_text(earned: u32) -> (text: String)
    ensures
        text@ == correct_message(earned as int),
{
    let mut text = String::from_str("Correct! +");
    push_decimal(&mut text, earned as u64);
    text.append(" points");
    text
}

/// The message at the end of a daily challenge.
fn daily_complete_text(score: u32) -> (text: String)
    ensures
        text@ == daily_complete_message(score),
{
    let mut text = String::from_str("Daily challenge complete! Final score: ");
    push_decimal(&mut text, score as u64);
    text
}

impl LexivoApp {
    /// Runs the feedback message's display time down by `dt` milliseconds.
    fn tick_message(&mut self, dt: u32)
        ensures
            final(self)@ == message_tick(old(self)@, dt),
    {
        let t = self.message_timer_ms;
        let expired = t > 0 && dt >= t;
        let left = if dt >= t {
            0
        } else {
            t - dt
        };
        self.message_timer_ms = left;
        if expired {
            self.message = String::new();
        }
    }

    /// Whether the round clock stands still.
    fn clock_is_paused(&self) -> (b: bool)
        ensures
            b == clock_paused(self@),
    {
        !self.timer_enabled || self.game_over || self.show_back_confirm || self.show_reset_confirm
            || self.show_game_instructions || self.screen != Screen::Game || self.puzzles.len()
            == 0 || self.selected_question_count == 0
    }

    /// Ends the game when the round clock runs out.
    fn end_by_time(&mut self)
        ensures
            final(self)@ == time_up(old(self)@),
    {
        self.time_left_ms = 0;
        self.game_over = true;
        self.streak = 0;
        self.record_score();
        self.user_input = String::new();
        self.auto_focus = true;
    }

    /// Runs the round clock down by `dt` milliseconds.
    fn tick_clock(&mut self, dt: u32)
        ensures
            final(self)@ == clock_tick(old(self)@, dt),
    {
        if self.clock_is_paused() {
            return;
        }
        if dt >= self.time_left_ms {
            self.end_by_time();
        } else {
            self.time_left_ms = self.time_left_ms - dt;
        }
    }

    /// Lets `dt` milliseconds pass: the feedback message fades, and the
    /// round clock runs while a game is being played; the game ends when
    /// the clock reaches zero.
    pub fn update_timer(&mut self, dt: u32)
        ensures
            final(self)@ == timer_spec(old(self)@, dt),
    {
        self.tick_message(dt);
        self.tick_clock(dt);
    }

    /// The clock as shown: minutes and seconds left, rounded up to the
    /// second.
    pub fn time_left_clock(&self) -> (r: (u32, u32))
        ensures
            r.0 == seconds_shown(self.time_left_ms) / 60,
            r.1 == seconds_shown(self.time_left_ms) % 60,
    {
        let ms = self.time_left_ms;
        let secs = ms / 1000 + if ms % 1000 != 0 {
            1
        } else {
            0
        };
        (secs / 60, secs % 60)
    }

    /// Gives the answer feedback (sound and vibration) where it is enabled.
    pub fn trigger_answer_feedback(&self, correct: bool) {
        if self.sound_enabled {
            crate::platform_feedback::trigger_answer_feedback(correct, self.sound_enabled);
        }
    }

    /// Credits a right answer: streak, points, best values and leaderboard.
    fn credit_answer(&mut self, earned: u32)
        requires
            earned == earned_points(old(self)@),
            credit_fits(old(self)@),
        ensures
            final(self)@ == credited(old(self)@),
    {
        let streak = self.streak + 1;
        let score = self.score + earned;
        let best_streak = if self.best_streak < streak {
            streak
        } else {
            self.best_streak
        };
        let best_score = if self.best_score < score {
            score
        } else {
            self.best_score
        };
        self.streak = streak;
        self.best_streak = best_streak;
        self.score = score;
        self.best_score = best_score;
        self.record_score();
    }

    /// Counts a right answer toward the daily challenge.
    fn count_progress(&mut self)
        requires
            old(self).daily_challenge_active ==> old(self).challenge_progress < usize::MAX,
        ensures
            final(self)@ == progressed(old(self)@),
    {
        if self.daily_challenge_active {
            self.challenge_progress = self.challenge_progress + 1;
        }
    }

    /// Ends the daily challenge once its length is reached.
    fn finish_daily(&mut self)
        ensures
            final(self)@ == finished_daily(old(self)@),
    {
        self.game_over = true;
        let text = daily_complete_text(self.score);
        self.set_message(text.as_str());
        self.daily_challenge_active = false;
        self.user_input = String::new();
        self.auto_focus = true;
    }

    /// Announces the points of a right answer and clears the typed text.
    fn announce_points(&mut self, earned: u32)
        ensures
            final(self)@ == before_next(old(self)@, earned as int),
    {
        let text = correct_text(earned);
        self.set_message(text.as_str());
        self.user_input = String::new();
        self.auto_focus = true;
    }

    /// Scores a right answer and moves on: to the next puzzle, or to the end
    /// of a completed daily challenge.
    fn accept_answer(&mut self)
        requires
            index_valid(old(self)@),
            old(self)@.puzzles.len() > 0,
            credit_fits(old(self)@),
        ensures
            ({
                let p = progressed(credited(old(self)@));
                if daily_complete(p) {
                    final(self)@ == finished_daily(p)
                } else {
                    next_puzzle_rel(before_next(p, earned_points(old(self)@)), final(self)@)
                }
            }),
    {
        let earned = 10 + bonus_for(self.time_left_ms);
        self.credit_answer(earned);
        self.trigger_answer_feedback(true);
        self.count_progress();
        if self.daily_challenge_active && self.challenge_progress >= self.challenge_total {
            self.finish_daily();
            return;
        }
        self.announce_points(earned);
        assert(self.current_index < self.puzzles.len());
        self.next_puzzle();
    }

    /// Turns down a wrong answer: the streak is lost.
    fn reject_answer(&mut self)
        ensures
            final(self)@ == with_message(
                AppModel { streak: 0, ..old(self)@ },
                "Not quite. Try again!"@,
            ),
    {
        self.streak = 0;
        self.trigger_answer_feedback(false);
        self.set_message("Not quite. Try again!");
    }

    /// Whether the answer slots spell the current puzzle's answer.
    fn typed_answer_matches(&self) -> (b: bool)
        requires
            index_valid(self@),
        ensures
            b == answer_matches(self@),
    {
        if self.puzzles.len() == 0 {
            return false;
        }
        match self.composed_answer_from_slots() {
            Some(word) => {
                let given = normalise_answer(word.as_str());
                let expected = normalise_answer(self.puzzles[self.current_index].answer.as_str());
                given == expected
            },
            None => false,
        }
    }

    /// Whether the counters that a right answer raises stay in range.
    fn credit_would_fit(&self) -> (b: bool)
        ensures
            b == credit_fits(self@),
    {
        let earned = 10 + bonus_for(self.time_left_ms) as u64;
        self.streak < u32::MAX && (self.score as u64) + earned <= u32::MAX as u64 && (
        !self.daily_challenge_active || self.challenge_progress < usize::MAX)
    }

    /// Checks the typed answer as `check_answer` does, unless a right answer
    /// would take the score, the streak or the challenge progress out of
    /// range; then nothing changes and `false` is returned.
    pub fn submit_answer(&mut self) -> (checked: bool)
        requires
            index_valid(old(self)@),
        ensures
            checked == !(!old(self)@.game_over && answer_matches(old(self)@) && !credit_fits(
                old(self)@,
            )),
            checked ==> check_rel(old(self)@, final(self)@),
            !checked ==> final(self)@ == old(self)@,
    {
        if !self.game_over && self.typed_answer_matches() && !self.credit_would_fit() {
            return false;
        }
        self.check_answer();
        true
    }

    /// Checks the word in the answer slots against the current puzzle: a
    /// right answer scores and moves on, a wrong one loses the streak.
    pub fn check_answer(&mut self)
        requires
            index_valid(old(self)@),
            !old(self)@.game_over && answer_matches(old(self)@) ==> credit_fits(old(self)@),
        ensures
            check_rel(old(self)@, final(self)@),
    {
        if self.game_over {
            return;
        }
        if self.puzzles.len() == 0 {
            self.set_message("No puzzles loaded");
            return;
        }
        let projected = match self.composed_answer_from_slots() {
            Some(word) => word,
            None => {
                self.set_message("Enter a word first.");
                return;
            },
        };
        let given = normalise_answer(projected.as_str());
        let expected = normalise_answer(self.puzzles[self.current_index].answer.as_str());
        if given == expected {
            self.accept_answer();
        } else {
            self.reject_answer();
        }
    }
}

} // verus!

verus! {

/// The message's display time runs down the same in one step as in two.
proof fn lemma_message_steps_add(m: AppModel, a: u32, b: u32)
    requires
        a + b <= u32::MAX,
    ensures
        message_tick(message_tick(m, a), b) == message_tick(m, (a + b) as u32),
{
}

/// The round clock runs down the same in one step as in two.
proof fn lemma_clock_steps_add(m: AppModel, a: u32, b: u32)
    requires
        a + b <= u32::MAX,
    ensures
        clock_tick(clock_tick(m, a), b) == clock_tick(m, (a + b) as u32),
{
    if !clock_paused(m) && a >= m.time_left_ms {
        assert(clock_paused(clock_tick(m, a)));
    }
}

/// The message and the round clock run independently of each other.
proof fn lemma_ticks_commute(m: AppModel, a: u32, c: u32)
    ensures
        message_tick(clock_tick(m, c), a) == clock_tick(message_tick(m, a), c),
{
    assert(clock_paused(message_tick(m, a)) == clock_paused(m));
}

/// Time passes the same in one step as in two: `a` and then `b`
/// milliseconds leave the game as `a + b` milliseconds at once do.
pub proof fn lemma_timer_steps_add(m: AppModel, a: u32, b: u32)
    requires
        a + b <= u32::MAX,
    ensures
        timer_spec(timer_spec(m, a), b) == timer_spec(m, (a + b) as u32),
{
    let ab = (a + b) as u32;
    lemma_ticks_commute(message_tick(m, a), b, a);
    lemma_message_steps_add(m, a, b);
    lemma_clock_steps_add(message_tick(m, ab), a, b);
}

/// A daily challenge never runs past its length: checking an answer while
/// one is under way leaves it under way with questions left, or completed
/// with its last question answered.
pub proof fn lemma_daily_within_length(old: AppModel, new: AppModel)
    requires
        check_rel(old, new),
        old.daily_challenge_active,
        old.challenge_progress < old.challenge_total,
    ensures
        new.challenge_total == old.challenge_total,
        new.challenge_progress <= new.challenge_total,
        new.daily_challenge_active ==> new.challenge_progress < new.challenge_total,
{
    if !old.game_over && old.puzzles.len() > 0 && typed_answer(old) is Some && answer_matches(old) {
        let p = progressed(credited(old));
        assert(p.challenge_progress == old.challenge_progress + 1);
        assert(p.challenge_total == old.challenge_total);
        assert(p.daily_challenge_active);
        if !daily_complete(p) {
            let b = before_next(p, earned_points(old));
            assert(b.challenge_progress == p.challenge_progress);
            assert(b.challenge_total == p.challenge_total);
        }
    }
}

/// A turn of play keeps the current puzzle index valid: checking an answer,
/// revealing a letter and letting time pass all leave it naming a puzzle
/// whenever one is loaded.
pub proof fn lemma_turns_keep_index_valid(old: AppModel, new: AppModel, dt: u32)
    requires
        index_valid(old),
    ensures
        check_rel(old, new) ==> index_valid(new),
        index_valid(reveal_spec(old)),
        index_valid(timer_spec(old, dt)),
{
    if !old.game_over && old.puzzles.len() > 0 && answer_matches(old) {
        let p = progressed(credited(old));
        assert(p.puzzles == old.puzzles && p.current_index == old.current_index);
    }
    if !old.game_over && old.puzzles.len() > 0 && old.score >= AppConfig::LETTER_REVEAL_COST_POINTS {
        let idx = picked_index(old);
        let paid = paid_reveal(old, idx);
        assert(paid.puzzles == old.puzzles && paid.current_index == old.current_index);
        assert(reveal_picked(old, idx).puzzles == old.puzzles);
        assert(reveal_picked(old, idx).current_index == old.current_index);
    }
}

/// Editing the typed text keeps the answer slots consistent: tapping a tile
/// while a slot is open, typing into a slot, erasing the last letter and
/// clearing a slot.
proof fn lemma_edits_keep_slots(m: AppModel, c: char, slot: int)
    requires
        slots_consistent(m),
    ensures
        m.user_input.len() < max_manual_spec(m) ==> slots_consistent(
            AppModel { user_input: m.user_input.push(c), ..m },
        ),
        m.user_input.len() < max_manual_spec(m) ==> slots_consistent(typed_spec(m, c)),
        slots_consistent(AppModel { focused_slot: None, ..m }),
        slots_consistent(
            AppModel { user_input: drop_last_spec(m.user_input), focused_slot: None, ..m },
        ),
        slots_consistent(clear_slot_spec(m, slot).0),
        slots_consistent(AppModel { auto_focus: true, ..clear_slot_spec(m, slot).0 }),
{
    lemma_sync_fits(m.user_input.push(c), max_manual_spec(m));
    if slot >= 0 {
        crate::hints::lemma_unrevealed_mono(m.revealed_answer_indices, 0, slot);
    }
}

/// Checking an answer keeps the answer slots consistent.
proof fn lemma_check_keeps_slots(m: AppModel, new: AppModel)
    requires
        slots_consistent(m),
        check_rel(m, new),
    ensures
        slots_consistent(new),
{
    if !m.game_over && m.puzzles.len() > 0 && answer_matches(m) {
        let p = progressed(credited(m));
        assert(p.puzzles == m.puzzles && p.current_index == m.current_index);
        assert(p.revealed_answer_indices == m.revealed_answer_indices);
        if !daily_complete(p) {
            assert(showing_scramble(new));
        }
    }
}

/// The answer slots stay consistent through a turn of play: tapping a tile,
/// typing into a slot, erasing, clearing a slot, letting time pass,
/// checking an answer, moving to the next puzzle and playing again.
/// (Revealing a letter keeps them consistent too; `reveal_hint_letter`
/// states it.)
pub proof fn lemma_slots_stay_consistent(
    m: AppModel,
    c: char,
    slot: int,
    dt: u32,
    checked: AppModel,
    next: AppModel,
    restarted: AppModel,
)
    requires
        slots_consistent(m),
    ensures
        m.user_input.len() < max_manual_spec(m) ==> slots_consistent(
            AppModel { user_input: m.user_input.push(c), ..m },
        ),
        m.user_input.len() < max_manual_spec(m) ==> slots_consistent(typed_spec(m, c)),
        slots_consistent(AppModel { focused_slot: None, ..m }),
        slots_consistent(
            AppModel { user_input: drop_last_spec(m.user_input), focused_slot: None, ..m },
        ),
        slots_consistent(AppModel { auto_focus: true, ..clear_slot_spec(m, slot).0 }),
        slots_consistent(timer_spec(m, dt)),
        check_rel(m, checked) ==> slots_consistent(checked),
        next_puzzle_rel(m, next) ==> slots_consistent(next),
        restart_rel(m, restarted) ==> slots_consistent(restarted),
{
    lemma_edits_keep_slots(m, c, slot);
    if check_rel(m, checked) {
        lemma_check_keeps_slots(m, checked);
    }
    if next_puzzle_rel(m, next) && m.puzzles.len() > 0 {
        assert(showing_scramble(next));
    }
    if restart_rel(m, restarted) && m.puzzles.len() > 0 {
        assert(showing_scramble(restarted));
    }
}


/// A right answer earns 10 points plus the seconds left on the clock,
/// rounded up, and at least 1: the score grows by exactly that, with no cap
/// on the bonus, whether the next puzzle follows or a daily challenge ends.
pub proof fn lemma_right_answer_points(old: AppModel, new: AppModel)
    requires
        check_rel(old, new),
        !old.game_over,
        answer_matches(old),
        old.score + 11 + old.time_left_ms / 1000 <= u32::MAX,
    ensures
        new.score == old.score + 10 + (if old.time_left_ms == 0 {
            1
        } else {
            (old.time_left_ms + 999) / 1000
        }),
        new.score >= old.score + 10 + old.time_left_ms / 1000,
        new.score <= old.score + 11 + old.time_left_ms / 1000,
{
    let p = progressed(credited(old));
    assert(p.score == new.score) by {
        if !daily_complete(p) {
            assert(before_next(p, earned_points(old)).score == p.score);
        }
    }
}

/// A right answer during a daily challenge counts one more question, and
/// the challenge ends exactly when that count reaches its length: short of
/// it the challenge goes on with the game not over; at it the game is over
/// and the daily mode ends. Outside a daily challenge a right answer never
/// ends the game.
pub proof fn lemma_right_answer_daily_progress(old: AppModel, new: AppModel)
    requires
        check_rel(old, new),
        !old.game_over,
        answer_matches(old),
        old.challenge_progress < usize::MAX,
    ensures
        old.daily_challenge_active ==> new.challenge_progress == old.challenge_progress + 1,
        old.daily_challenge_active && old.challenge_progress + 1 < old.challenge_total
            ==> new.daily_challenge_active && !new.game_over,
        old.daily_challenge_active && old.challenge_progress + 1 >= old.challenge_total
            ==> !new.daily_challenge_active && new.game_over,
        !old.daily_challenge_active ==> !new.game_over && !new.daily_challenge_active
            && new.challenge_progress == old.challenge_progress,
{
    let p = progressed(credited(old));
    if !daily_complete(p) {
        let b = before_next(p, earned_points(old));
        assert(b.daily_challenge_active == p.daily_challenge_active);
        assert(b.challenge_progress == p.challenge_progress);
    }
}

/// The round clock stands still while the timer is off, the game is over,
/// a confirmation or the instructions are shown, another screen than the
/// game is shown, no puzzle is loaded or all questions are selected: the
/// time left and whether the game is over stay as they were. Otherwise the
/// clock runs down by the time that passed, and the game ends exactly when
/// it reaches zero.
pub proof fn lemma_clock_runs_only_in_play(m: AppModel, dt: u32)
    ensures
        (!m.timer_enabled || m.game_over || m.show_back_confirm || m.show_reset_confirm
            || m.show_game_instructions || m.screen != Screen::Game || m.puzzles.len() == 0
            || m.selected_question_count == 0) ==> timer_spec(m, dt).time_left_ms == m.time_left_ms
            && timer_spec(m, dt).game_over == m.game_over,
        !(!m.timer_enabled || m.game_over || m.show_back_confirm || m.show_reset_confirm
            || m.show_game_instructions || m.screen != Screen::Game || m.puzzles.len() == 0
            || m.selected_question_count == 0) ==> timer_spec(m, dt).time_left_ms == (if dt
            >= m.time_left_ms {
            0
        } else {
            m.time_left_ms - dt
        }) && timer_spec(m, dt).game_over == (dt >= m.time_left_ms),
{
    assert(clock_paused(message_tick(m, dt)) == clock_paused(m));
}

/// A wrong answer costs the streak and nothing else that counts: the
/// score, the puzzle shown, the typed text and the clock stay, and the game
/// goes on.
pub proof fn lemma_wrong_answer_loses_streak(old: AppModel, new: AppModel)
    requires
        check_rel(old, new),
        !old.game_over,
        old.puzzles.len() > 0,
        typed_answer(old) is Some,
        !answer_matches(old),
    ensures
        new.streak == 0,
        new.score == old.score,
        !new.game_over,
        new.current_index == old.current_index && new.puzzles == old.puzzles,
        new.user_input == old.user_input,
        new.time_left_ms == old.time_left_ms,
        new.daily_challenge_active == old.daily_challenge_active,
        new.challenge_progress == old.challenge_progress,
{
}

} // verus!
