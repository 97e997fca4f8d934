//! Moving between screens, and the confirmations that guard leaving a game
//! and resetting progress.
use crate::app::{with_message, AppModel, LexivoApp};
use crate::types::Screen;
use vstd::prelude::*;

verus! {

/// The state after moving to `target`: the screen before is remembered,
/// unless the move stays on the same screen.
pub open spec fn go_to_spec(m: AppModel, target: Screen) -> AppModel {
    if m.screen != target {
        AppModel { previous_screen: Some(m.screen), screen: target, ..m }
    } else {
        m
    }
}

/// Where going back leads: the remembered screen, unless it is the current
/// one or there is none, in which case the start screen.
pub open spec fn back_target_spec(m: AppModel) -> Screen {
    match m.previous_screen {
        Some(p) => if p != m.screen { p } else { Screen::Start },
        None => Screen::Start,
    }
}

/// The state after asking to go back: during a game in progress, the
/// confirmation is shown with the start screen pending; otherwise the move
/// happens at once.
pub open spec fn request_back_spec(m: AppModel) -> AppModel {
    if m.screen == Screen::Game && !m.game_over {
        AppModel { pending_back_target: Some(Screen::Start), show_back_confirm: true, ..m }
    } else {
        go_to_spec(
            AppModel { show_back_confirm: false, pending_back_target: None, ..m },
            back_target_spec(m),
        )
    }
}

/// The state after confirming the pending move.
pub open spec fn confirm_back_spec(m: AppModel) -> AppModel {
    let target = match m.pending_back_target {
        Some(t) => t,
        None => Screen::Start,
    };
    go_to_spec(AppModel { pending_back_target: None, show_back_confirm: false, ..m }, target)
}

/// The state after progress is reset: best score, streak, best streak and
/// leaderboard cleared, with a message.
pub open spec fn reset_progress_spec(m: AppModel) -> AppModel {
    with_message(
        AppModel { best_score: 0, streak: 0, best_streak: 0, leaderboard: seq![], ..m },
        "Progress reset"@,
    )
}

/// The state after the pending move is called off.
pub open spec fn cancel_back_spec(m: AppModel) -> AppModel {
    AppModel { show_back_confirm: false, pending_back_target: None, ..m }
}

/// Leaving a game in progress takes a confirmation: the request keeps the
/// game screen and shows the confirmation, and confirming then lands on the
/// start screen with the confirmation closed.
pub proof fn lemma_leave_game_confirmed(m: AppModel)
    requires
        m.screen == Screen::Game,
        !m.game_over,
    ensures
        request_back_spec(m).screen == Screen::Game,
        request_back_spec(m).show_back_confirm,
        confirm_back_spec(request_back_spec(m)) == go_to_spec(cancel_back_spec(m), Screen::Start),
        confirm_back_spec(request_back_spec(m)).screen == Screen::Start,
        !confirm_back_spec(request_back_spec(m)).show_back_confirm,
{
}

/// Calling off the request to leave a game in progress keeps the game as it
/// was.
pub proof fn lemma_leave_game_cancelled(m: AppModel)
    requires
        m.screen == Screen::Game,
        !m.game_over,
    ensures
        cancel_back_spec(request_back_spec(m)) == cancel_back_spec(m),
{
}

/// Resetting progress clears only the best score, the streaks and the
/// leaderboard, and shows a message: the round in play is kept.
pub proof fn lemma_reset_keeps_round(m: AppModel)
    ensures
        ({
            let r = reset_progress_spec(m);
            &&& r.best_score == 0 && r.streak == 0 && r.best_streak == 0
            &&& r.leaderboard.len() == 0
            &&& r.score == m.score && r.user_input == m.user_input
            &&& r.time_left_ms == m.time_left_ms && r.game_over == m.game_over
            &&& r.puzzles == m.puzzles && r.current_index == m.current_index
            &&& r.screen == m.screen
        }),
{
}

impl LexivoApp {
    /// Moves to another screen, remembering the current one.
    pub fn go_to_screen(&mut self, target: Screen)
        ensures
            final(self)@ == go_to_spec(old(self)@, target),
    {
        if self.screen != target {
            self.previous_screen = Some(self.screen);
            self.screen = target;
        }
    }

    /// Where going back leads.
    pub fn back_target(&self) -> (target: Screen)
        ensures
            target == back_target_spec(self@),
    {
        match self.previous_screen {
            Some(previous) => if previous != self.screen { previous } else { Screen::Start },
            None => Screen::Start,
        }
    }

    /// Goes back, or asks for a confirmation first while a game is running.
    #[verifier::rlimit(40)]
    pub fn request_back_navigation(&mut self)
        ensures
            final(self)@ == request_back_spec(old(self)@),
    {
        if self.screen == Screen::Game && !self.game_over {
            self.pending_back_target = Some(Screen::Start);
            self.show_back_confirm = true;
            return;
        }
        let target = self.back_target();
        self.show_back_confirm = false;
        self.pending_back_target = None;
        self.go_to_screen(target);
    }

    /// Leaves for the pending target screen.
    pub fn confirm_back_navigation(&mut self)
        ensures
            final(self)@ == confirm_back_spec(old(self)@),
    {
        let target = match self.pending_back_target.take() {
            Some(t) => t,
            None => Screen::Start,
        };
        self.show_back_confirm = false;
        self.go_to_screen(target);
    }

    /// Stays on the current screen.
    pub fn cancel_back_navigation(&mut self)
        ensures
            final(self)@ == cancel_back_spec(old(self)@),
    {
        self.show_back_confirm = false;
        self.pending_back_target = None;
    }

    /// Asks for a confirmation before progress is reset.
    pub fn request_reset_progress(&mut self)
        ensures
            final(self)@ == (AppModel { show_reset_confirm: true, ..old(self)@ }),
    {
        self.show_reset_confirm = true;
    }

    /// Resets progress after the confirmation.
    pub fn confirm_reset_progress(&mut self)
        ensures
            final(self)@ == reset_progress_spec(
                AppModel { show_reset_confirm: false, ..old(self)@ },
            ),
    {
        self.show_reset_confirm = false;
        self.reset_progress();
    }

    /// Keeps progress.
    pub fn cancel_reset_progress(&mut self)
        ensures
            final(self)@ == (AppModel { show_reset_confirm: false, ..old(self)@ }),
    {
        self.show_reset_confirm = false;
    }

    /// Clears the best score, the streaks and the leaderboard.
    pub fn reset_progress(&mut self)
        ensures
            final(self)@ == reset_progress_spec(old(self)@),
    {
        self.best_score = 0;
        self.streak = 0;
        self.best_streak = 0;
        self.leaderboard.clear();
        self.set_message("Progress reset");
    }
}

} // verus!
