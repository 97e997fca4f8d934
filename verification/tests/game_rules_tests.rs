use lexivo::app::LexivoApp;
use lexivo::types::{Difficulty, GameMode, Puzzle, Screen, TextSize};

fn puzzle(source: &str, hint: &str, answer: &str) -> Puzzle {
    Puzzle {
        source: source.to_owned(),
        hint: hint.to_owned(),
        answer: answer.to_owned(),
    }
}

fn game_with(puzzles: Vec<Puzzle>) -> LexivoApp {
    LexivoApp {
        screen: Screen::Game,
        show_game_instructions: false,
        ..LexivoApp::from_puzzles(Some(puzzles), 2024)
    }
}

fn three_puzzles() -> Vec<Puzzle> {
    vec![
        puzzle("SERUM", "A medical professional", "NURSE"),
        puzzle("CARE", "A speed contest", "RACE"),
        puzzle("STOP", "Cooking vessels", "POTS"),
    ]
}

#[test]
fn default_game_shows_the_built_in_puzzle() {
    let app = LexivoApp::default();
    assert_eq!(app.puzzles.len(), 1);
    assert_eq!(app.puzzles[0].source, "LEXIVO");
    assert_eq!(app.puzzles[0].hint, "The name of this app");
    assert_eq!(app.puzzles[0].answer, "LEXIVO");
    assert_ne!(app.scrambled_source, "LEXIVO");
    let mut letters: Vec<char> = app.scrambled_source.chars().collect();
    letters.sort_unstable();
    assert_eq!(letters, vec!['E', 'I', 'L', 'O', 'V', 'X']);
    assert_eq!(app.screen, Screen::Start);
    assert_eq!(app.time_left_ms, 60_000);
    assert!(app.timer_enabled);
    assert_eq!(app.selected_question_count, 10);
    assert_eq!(app.challenge_total, 10);
    assert_eq!(app.selected_mode, GameMode::QuickPlay);
    assert_eq!(app.current_difficulty, Difficulty::Easy);
    assert_eq!(app.text_size, TextSize::Normal);
    assert!(app.show_game_instructions);
    assert!(app.sound_enabled);
    assert!(!app.animations_enabled);
    assert!(app.leaderboard.is_empty());
}

#[test]
fn from_puzzles_keeps_the_loaded_set() {
    let app = LexivoApp::from_puzzles(Some(three_puzzles()), 7);
    assert_eq!(app.puzzles.len(), 3);
    let mut answers: Vec<String> = app.puzzles.iter().map(|p| p.answer.clone()).collect();
    answers.sort();
    assert_eq!(answers, vec!["NURSE", "POTS", "RACE"]);
    assert_eq!(app.current_index, 0);
}

#[test]
fn reveal_announces_the_letter() {
    let mut app = LexivoApp {
        score: 20,
        puzzles: vec![puzzle("A", "one letter", "Q")],
        current_index: 0,
        rng_state: 3,
        ..LexivoApp::default()
    };
    app.reveal_hint_letter();
    assert_eq!(app.revealed_answer_indices, vec![0]);
    assert_eq!(app.message, "Letter revealed: letter 1 is 'Q' (-5 points)");
    assert_eq!(app.message_timer_ms, 3000);
    assert_eq!(
        app.rng_state,
        3u64.wrapping_mul(6364136223846793005)
            .wrapping_add(1442695040888963407)
    );
}

#[test]
fn reveal_picks_by_generator_state() {
    let mut app = LexivoApp {
        score: 20,
        puzzles: vec![puzzle("ABCD", "letters", "ABCD")],
        current_index: 0,
        revealed_answer_indices: vec![2, 0],
        rng_state: 1,
        ..LexivoApp::default()
    };
    // Free letters are 1 and 3; state 1 picks the second of them.
    app.reveal_hint_letter();
    assert_eq!(app.revealed_answer_indices, vec![0, 2, 3]);
    assert_eq!(app.message, "Letter revealed: letter 4 is 'D' (-5 points)");
    assert_eq!(app.score, 15);
}

#[test]
fn reveal_messages_for_refusals() {
    let mut poor = LexivoApp {
        score: 4,
        ..LexivoApp::default()
    };
    poor.reveal_hint_letter();
    assert_eq!(poor.message, "Need 5 points to reveal a letter");

    let mut done = LexivoApp {
        score: 40,
        puzzles: vec![puzzle("AB", "two", "AB")],
        current_index: 0,
        revealed_answer_indices: vec![0, 1],
        ..LexivoApp::default()
    };
    done.reveal_hint_letter();
    assert_eq!(done.message, "All letters are already revealed for this answer.");
    assert_eq!(done.score, 40);

    let mut empty = LexivoApp {
        score: 40,
        puzzles: Vec::new(),
        ..LexivoApp::default()
    };
    empty.reveal_hint_letter();
    assert_eq!(empty.message, "No puzzles loaded");

    let mut over = LexivoApp {
        score: 40,
        game_over: true,
        ..LexivoApp::default()
    };
    over.reveal_hint_letter();
    assert_eq!(over.score, 40);
    assert_eq!(over.message, "");
}

#[test]
fn reveal_to_zero_records_the_score() {
    let mut app = LexivoApp {
        score: 5,
        leaderboard: vec![30, 20],
        streak: 3,
        daily_challenge_active: true,
        user_input: "LE".to_owned(),
        ..LexivoApp::default()
    };
    app.reveal_hint_letter();
    assert_eq!(app.leaderboard, vec![30, 20, 0]);
    assert_eq!(app.streak, 0);
    assert!(!app.daily_challenge_active);
    assert!(app.user_input.is_empty());
}

#[test]
fn check_answer_messages() {
    let mut app = game_with(vec![puzzle("SERUM", "hint", "NURSE")]);
    app.check_answer();
    assert_eq!(app.message, "Enter a word first.");

    app.user_input = "NURSS".to_owned();
    app.streak = 2;
    app.check_answer();
    assert_eq!(app.message, "Not quite. Try again!");
    assert_eq!(app.streak, 0);

    let mut empty = LexivoApp {
        puzzles: Vec::new(),
        ..LexivoApp::default()
    };
    empty.check_answer();
    assert_eq!(empty.message, "No puzzles loaded");
}

#[test]
fn right_answer_scores_and_moves_on() {
    let mut app = game_with(three_puzzles());
    app.time_left_ms = 41_001;
    app.user_input = app.puzzles[0].answer.to_lowercase();
    app.streak = 1;
    app.best_streak = 1;
    app.check_answer();
    // 41.001 seconds round up to 42.
    assert_eq!(app.score, 52);
    assert_eq!(app.best_score, 52);
    assert_eq!(app.streak, 2);
    assert_eq!(app.best_streak, 2);
    assert_eq!(app.leaderboard, vec![52]);
    assert_eq!(app.current_index, 1);
    assert_eq!(app.time_left_ms, 60_000);
    assert!(app.user_input.is_empty());
    // The next puzzle clears the announcement, whose display time stays.
    assert_eq!(app.message, "");
    assert_eq!(app.message_timer_ms, 3000);
}

#[test]
fn time_bonus_is_at_least_one_point() {
    let mut app = game_with(three_puzzles());
    app.time_left_ms = 0;
    app.user_input = app.puzzles[0].answer.clone();
    app.check_answer();
    assert_eq!(app.score, 11);
}

#[test]
fn daily_challenge_completion_message() {
    let mut app = game_with(three_puzzles());
    app.set_question_count(1);
    app.start_daily_challenge_at(1_700_000_000);
    assert_eq!(app.challenge_total, 1);
    assert_eq!(app.puzzles.len(), 1);
    app.user_input = app.puzzles[0].answer.clone();
    app.check_answer();
    assert_eq!(app.message, "Daily challenge complete! Final score: 70");
    assert!(app.game_over);
}

#[test]
fn submit_answer_refuses_an_overflowing_score() {
    let mut app = game_with(three_puzzles());
    app.score = u32::MAX - 5;
    app.user_input = app.puzzles[0].answer.clone();
    let before_index = app.current_index;
    assert!(!app.submit_answer());
    assert_eq!(app.score, u32::MAX - 5);
    assert_eq!(app.current_index, before_index);

    app.user_input = "WRONG".to_owned();
    assert!(app.submit_answer());
    assert_eq!(app.message, "Not quite. Try again!");
}

#[test]
fn clock_is_paused_outside_the_game_screen() {
    let mut app = LexivoApp::default();
    app.update_timer(5000);
    assert_eq!(app.time_left_ms, 60_000);

    let mut game = game_with(three_puzzles());
    game.update_timer(5000);
    assert_eq!(game.time_left_ms, 55_000);
    game.show_back_confirm = true;
    game.update_timer(5000);
    assert_eq!(game.time_left_ms, 55_000);
}

#[test]
fn time_runs_out_records_the_score() {
    let mut game = game_with(three_puzzles());
    game.score = 42;
    game.streak = 3;
    game.user_input = "AB".to_owned();
    game.update_timer(60_000);
    assert!(game.game_over);
    assert_eq!(game.time_left_ms, 0);
    assert_eq!(game.streak, 0);
    assert_eq!(game.leaderboard, vec![42]);
    assert!(game.user_input.is_empty());
}

#[test]
fn time_steps_add_up() {
    let mut split = game_with(three_puzzles());
    split.set_message("Hi");
    let mut whole = game_with(three_puzzles());
    whole.set_message("Hi");
    split.update_timer(1200);
    split.update_timer(2300);
    whole.update_timer(3500);
    assert_eq!(split.time_left_ms, whole.time_left_ms);
    assert_eq!(split.message, whole.message);
    assert_eq!(split.message_timer_ms, whole.message_timer_ms);
    assert_eq!(split.game_over, whole.game_over);
}

#[test]
fn clock_display_rounds_up() {
    let app = LexivoApp {
        time_left_ms: 61_001,
        ..LexivoApp::default()
    };
    assert_eq!(app.time_left_clock(), (1, 2));
    let zero = LexivoApp {
        time_left_ms: 0,
        ..LexivoApp::default()
    };
    assert_eq!(zero.time_left_clock(), (0, 0));
}

#[test]
fn leaderboard_keeps_best_distinct_scores() {
    let mut app = LexivoApp::default();
    let scores = [12, 7, 30, 7, 25, 1, 30, 19, 3];
    for value in scores {
        app.score = value;
        app.record_score();
    }
    assert_eq!(app.leaderboard, vec![30, 25, 19, 12, 7]);
}

#[test]
fn leaving_a_game_can_be_called_off() {
    let mut app = game_with(three_puzzles());
    app.request_back_navigation();
    assert!(app.show_back_confirm);
    assert_eq!(app.pending_back_target, Some(Screen::Start));
    app.cancel_back_navigation();
    assert!(!app.show_back_confirm);
    assert_eq!(app.pending_back_target, None);
    assert_eq!(app.screen, Screen::Game);
}

#[test]
fn back_from_settings_returns_to_previous_screen() {
    let mut app = LexivoApp::default();
    app.go_to_screen(Screen::Leaderboard);
    app.go_to_screen(Screen::Settings);
    assert_eq!(app.previous_screen, Some(Screen::Leaderboard));
    app.request_back_navigation();
    assert_eq!(app.screen, Screen::Leaderboard);
    assert_eq!(app.previous_screen, Some(Screen::Settings));
}

#[test]
fn reset_progress_can_be_called_off() {
    let mut app = LexivoApp {
        best_score: 9,
        ..LexivoApp::default()
    };
    app.request_reset_progress();
    assert!(app.show_reset_confirm);
    app.cancel_reset_progress();
    assert!(!app.show_reset_confirm);
    assert_eq!(app.best_score, 9);
}

#[test]
fn question_count_sets_challenge_length() {
    let mut app = LexivoApp::from_puzzles(Some(three_puzzles()), 1);
    app.set_question_count(2);
    assert_eq!(app.challenge_total, 2);
    assert_eq!(app.time_left_ms, 60_000);
    app.set_question_count(10);
    assert_eq!(app.challenge_total, 3);
    app.set_question_count(0);
    assert_eq!(app.challenge_total, 3);
    assert_eq!(LexivoApp::challenge_total_for(0, 0), 1);
    assert_eq!(LexivoApp::question_count_time_limit_secs(20), Some(120));
    assert_eq!(LexivoApp::question_count_time_limit_secs(7), Some(60));
    assert_eq!(LexivoApp::question_count_time_limit_ms(0), None);
}

#[test]
fn daily_challenge_is_the_same_for_one_day() {
    let mut first = game_with(three_puzzles());
    let mut second = game_with(three_puzzles());
    second.puzzles = first.puzzles.clone();
    first.start_daily_challenge_at(1_700_000_000);
    second.start_daily_challenge_at(1_700_000_000 + 3_600);
    let a: Vec<String> = first.puzzles.iter().map(|p| p.answer.clone()).collect();
    let b: Vec<String> = second.puzzles.iter().map(|p| p.answer.clone()).collect();
    assert_eq!(a, b);
    assert!(first.daily_challenge_active);
    assert_eq!(first.score, 0);
}

#[test]
fn failed_reload_keeps_the_set_with_a_message() {
    let mut app = LexivoApp::from_puzzles(Some(three_puzzles()), 5);
    app.set_mode(GameMode::DailyChallenge);
    app.start_selected_mode(None);
    assert_eq!(app.message, "Could not reload easy puzzles, starting with current set.");
    assert_eq!(app.screen, Screen::Game);
    assert!(app.daily_challenge_active);

    let mut quick = LexivoApp::from_puzzles(Some(three_puzzles()), 5);
    quick.start_selected_mode_at(None, 0);
    assert_eq!(quick.screen, Screen::Game);
    assert_eq!(quick.puzzles.len(), 3);
    assert!(!quick.daily_challenge_active);
}

#[test]
fn difficulty_switch_failure_keeps_the_set() {
    let mut app = LexivoApp::from_puzzles(Some(three_puzzles()), 5);
    app.select_difficulty(Difficulty::Medium, None);
    assert_eq!(app.current_difficulty, Difficulty::Medium);
    assert_eq!(app.puzzles.len(), 3);
    assert_eq!(app.message, "Could not load medium puzzles, using current set.");

    app.select_difficulty(Difficulty::Hard, Some(vec![puzzle("ABC", "h", "CAB")]));
    assert_eq!(app.current_difficulty, Difficulty::Hard);
    assert_eq!(app.puzzles.len(), 1);
    assert_ne!(app.scrambled_source, "ABC");
}

#[test]
fn loading_an_empty_set_shows_nothing() {
    let mut app = LexivoApp::from_puzzles(Some(three_puzzles()), 5);
    app.load_difficulty(Difficulty::Hard, Vec::new());
    assert!(app.puzzles.is_empty());
    assert!(app.scrambled_source.is_empty());
    app.next_puzzle();
    assert!(app.puzzles.is_empty());
}

#[test]
fn install_update_is_left_to_android() {
    let mut app = LexivoApp::default();
    app.install_update("https://example.com/app.apk");
    assert_eq!(app.message, "Update download only supported on Android.");
}

#[test]
fn restored_games_lose_transient_state() {
    let mut app = LexivoApp {
        user_input: "AB".to_owned(),
        message: "old".to_owned(),
        show_back_confirm: true,
        pending_back_target: Some(Screen::Start),
        show_reset_confirm: true,
        focused_slot: Some(2),
        auto_focus: false,
        selected_question_count: 30,
        time_left_ms: 5,
        ..LexivoApp::default()
    };
    app.reset_transient_state();
    assert!(app.user_input.is_empty());
    assert!(app.message.is_empty());
    assert!(!app.show_back_confirm);
    assert_eq!(app.pending_back_target, None);
    assert!(!app.show_reset_confirm);
    assert_eq!(app.focused_slot, None);
    assert!(app.auto_focus);
    assert_eq!(app.time_left_ms, 180_000);
}

#[test]
fn typing_into_slots() {
    let mut app = LexivoApp {
        puzzles: vec![puzzle("ESRUN", "Medical professional", "NURSE")],
        current_index: 0,
        revealed_answer_indices: vec![1],
        ..LexivoApp::default()
    };
    assert_eq!(app.first_empty_slot(), Some(0));
    app.type_into_slot('n');
    assert_eq!(app.user_input, "N");
    assert_eq!(app.focused_slot, Some(2));
    app.tap_tile('R');
    app.tap_tile('S');
    app.tap_tile('E');
    assert_eq!(app.user_input, "NRSE");
    app.tap_tile('X');
    assert_eq!(app.user_input, "NRSE");
    assert_eq!(app.first_empty_slot(), None);
    app.type_into_slot('Q');
    assert_eq!(app.focused_slot, None);
    app.erase_last_typed();
    assert_eq!(app.user_input, "NRS");
    app.clear_slot(2);
    assert_eq!(app.user_input, "NS");
    app.clear_slot(1);
    assert_eq!(app.user_input, "NS");
    app.focus_slot(3);
    assert_eq!(app.focused_slot, Some(3));
}

#[test]
fn typed_text_is_cleaned_to_alphanumerics() {
    let mut app = LexivoApp {
        puzzles: vec![puzzle("ESRUN", "Medical professional", "NURSE")],
        current_index: 0,
        user_input: "a-1é".to_owned(),
        ..LexivoApp::default()
    };
    app.sync_manual_input();
    assert_eq!(app.user_input, "A1É");
}

#[test]
fn answer_feedback_can_be_triggered() {
    let app = LexivoApp::default();
    app.trigger_answer_feedback(true);
    app.trigger_answer_feedback(false);
    assert_eq!(LexivoApp::normalise_input(" a b "), "AB");
}

#[test]
fn next_puzzle_past_the_end_starts_over() {
    let mut app = LexivoApp::from_puzzles(Some(three_puzzles()), 9);
    app.current_index = 7;
    app.next_puzzle();
    assert_eq!(app.current_index, 0);
    assert_eq!(app.puzzles.len(), 3);
    assert_eq!(app.time_left_ms, 60_000);
}

#[test]
fn entered_characters_are_upper_cased() {
    let mut app = LexivoApp {
        puzzles: vec![puzzle("ESRUN", "Medical professional", "NURSE")],
        current_index: 0,
        ..LexivoApp::default()
    };
    app.enter_char('n');
    assert_eq!(app.user_input, "N");
    assert_eq!(app.focused_slot, Some(1));
    app.enter_char('ß');
    assert_eq!(app.user_input, "NS");
}

#[test]
fn reveal_locks_the_slot_it_shows() {
    let mut app = LexivoApp {
        score: 20,
        puzzles: vec![puzzle("ABCD", "letters", "ABCD")],
        current_index: 0,
        revealed_answer_indices: vec![2, 0],
        user_input: "XY".to_owned(),
        rng_state: 1,
        ..LexivoApp::default()
    };
    app.reveal_hint_letter();
    // Letter 3 is locked: its slot shows 'D' and cannot be cleared.
    assert_eq!(app.revealed_answer_indices, vec![0, 2, 3]);
    assert_eq!(app.answer_slots()[3], Some('D'));
    assert!(!app.remove_manual_input_for_slot(3));
    // 'Y' stood on slot 3 and is gone; 'X' stays on slot 1.
    assert_eq!(app.user_input, "X");
    assert!(!app.game_over);
    assert!(app.user_input.chars().count() <= app.max_manual_input_len());
}

#[test]
fn typed_text_keeps_fitting_the_open_slots() {
    let mut app = LexivoApp {
        score: 50,
        puzzles: vec![puzzle("ESRUN", "Medical professional", "NURSE")],
        current_index: 0,
        ..LexivoApp::default()
    };
    for c in ['N', 'U', 'R', 'S', 'E', 'Q'] {
        app.tap_tile(c);
    }
    assert_eq!(app.user_input, "NURSE");
    for _ in 0..5 {
        app.reveal_hint_letter();
        assert!(app.user_input.chars().count() <= app.max_manual_input_len());
        assert!(app.revealed_answer_indices.iter().all(|i| *i < 5));
    }
    assert_eq!(app.max_manual_input_len(), 0);
    assert!(app.user_input.is_empty());
}
