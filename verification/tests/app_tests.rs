use lexivo::app::LexivoApp;
use lexivo::types::{Difficulty, GameMode, Puzzle, Screen, ThemeMode, UpdateStatus};

fn puzzle(source: &str, hint: &str, answer: &str) -> Puzzle {
    Puzzle {
        source: source.to_owned(),
        hint: hint.to_owned(),
        answer: answer.to_owned(),
    }
}

/// A set of thirty puzzles, standing in for the easy puzzle file.
fn easy_puzzles() -> Vec<Puzzle> {
    let words = [
        ("SERUM", "A medical professional", "NURSE"),
        ("CARE", "A speed contest", "RACE"),
        ("STOP", "Cooking vessels", "POTS"),
        ("LISTEN", "Not making a sound", "SILENT"),
        ("EVIL", "To be alive", "LIVE"),
        ("NIGHT", "An object", "THING"),
        ("ACT", "A feline pet", "CAT"),
        ("DUSTY", "To learn", "STUDY"),
        ("HEART", "Our planet", "EARTH"),
        ("LEMON", "A fruit melon", "MELON"),
        ("SAVE", "A flower holder", "VASE"),
        ("TEAM", "Food from animals", "MEAT"),
        ("DEAR", "To look at words", "READ"),
        ("TAPS", "Earlier times", "PAST"),
        ("ARMY", "A girl's name", "MARY"),
        ("BELOW", "A joint of the arm", "ELBOW"),
        ("STATE", "To sample food", "TASTE"),
        ("PEACH", "Low in price", "CHEAP"),
        ("NOTE", "A musical sound", "TONE"),
        ("SILENT", "Catalogues", "LISTEN"),
        ("FRIES", "A spark of flame", "FIRES"),
        ("SWORD", "Units of text", "WORDS"),
        ("ANGEL", "Cheerful cheer", "GLEAN"),
        ("RATS", "Shining in the sky", "STAR"),
        ("MEAL", "Cannot walk well", "LAME"),
        ("STEAL", "Smallest amount", "LEAST"),
        ("SHOUT", "Towards the south", "SOUTH"),
        ("CIDER", "Fried grain", "RICED"),
        ("DIARY", "Milk farm", "DAIRY"),
        ("EARNS", "Close to", "NEARS"),
    ];
    words
        .iter()
        .map(|(source, hint, answer)| puzzle(source, hint, answer))
        .collect()
}

/// A set of medium puzzles, standing in for the medium puzzle file.
fn medium_puzzles() -> Vec<Puzzle> {
    vec![
        puzzle("PLANETS", "A small bed of flowers", "PLANTER"),
        puzzle("GARDEN", "Peril", "DANGER"),
        puzzle("MASTER", "Flowing water", "STREAM"),
    ]
}

/// A game as it starts with the easy puzzle file loaded.
fn easy_app() -> LexivoApp {
    LexivoApp::from_puzzles(Some(easy_puzzles()), 12345)
}

fn nurse_puzzle() -> Vec<Puzzle> {
    vec![puzzle("ESRUN", "Medical professional", "NURSE")]
}

#[test]
fn timer_expiration_marks_game_over() {
    let mut app = LexivoApp {
        screen: Screen::Game,
        show_game_instructions: false,
        timer_enabled: true,
        time_left_ms: 100,
        ..LexivoApp::default()
    };

    app.update_timer(200);

    assert!(app.game_over);
    assert_eq!(app.time_left_ms, 0);
}

#[test]
fn daily_challenge_uses_selected_question_count() {
    let mut app = easy_app();
    app.set_question_count(20);
    app.start_daily_challenge();

    assert_eq!(app.challenge_total, 20);
    assert!(app.daily_challenge_active);
}

#[test]
fn all_mode_uses_full_puzzle_pool() {
    let mut app = easy_app();
    app.set_question_count(0);
    app.start_daily_challenge();

    assert_eq!(app.challenge_total, app.puzzles.len());
}

#[test]
fn start_screen_selects_mode_and_question_count() {
    let mut app = easy_app();
    app.set_question_count(30);
    app.set_mode(GameMode::DailyChallenge);
    app.start_selected_mode(Some(easy_puzzles()));

    assert_eq!(app.selected_question_count, 30);
    assert!(app.daily_challenge_active);
}

#[test]
fn challenge_progress_increments_after_correct_answer() {
    let mut app = easy_app();
    app.set_question_count(2);
    app.start_daily_challenge();

    let original = app.puzzles[app.current_index].answer.clone();
    app.user_input = original.clone();
    app.check_answer();

    assert_eq!(app.challenge_progress, 1);
    let bonus = app.time_left_ms.div_ceil(1000).max(1);
    assert_eq!(app.score, 10 + bonus);
}

#[test]
fn challenge_ends_cleanly_when_configured_count_is_reached() {
    let mut app = easy_app();
    app.set_question_count(1);
    app.start_daily_challenge();

    let original = app.puzzles[app.current_index].answer.clone();
    app.user_input = original;
    app.check_answer();

    assert!(app.game_over);
    assert!(!app.daily_challenge_active);
    assert_eq!(app.challenge_progress, 1);
}

#[test]
fn quick_play_resets_round_state() {
    let mut app = LexivoApp {
        score: 999,
        streak: 4,
        time_left_ms: 1000,
        ..easy_app()
    };
    app.set_mode(GameMode::QuickPlay);

    app.start_selected_mode(Some(easy_puzzles()));

    assert_eq!(app.score, 0);
    assert_eq!(app.streak, 0);
    assert_eq!(app.time_left_ms, 60_000);
    assert!(!app.daily_challenge_active);
}

#[test]
fn daily_challenge_keeps_mode_state_and_count() {
    let mut app = easy_app();
    app.set_question_count(30);
    app.set_mode(GameMode::DailyChallenge);
    app.start_selected_mode(Some(easy_puzzles()));

    assert!(app.daily_challenge_active);
    assert_eq!(app.challenge_total, 30);
    assert_eq!(app.selected_mode, GameMode::DailyChallenge);
}

#[test]
fn exactly_zero_seconds_marks_game_over() {
    let mut app = LexivoApp {
        screen: Screen::Game,
        show_game_instructions: false,
        timer_enabled: true,
        time_left_ms: 0,
        ..LexivoApp::default()
    };

    app.update_timer(0);

    assert!(app.game_over);
}

#[test]
fn game_over_blocks_scoring() {
    let mut app = LexivoApp {
        game_over: true,
        user_input: "NURSE".to_owned(),
        score: 10,
        ..LexivoApp::default()
    };

    app.check_answer();

    assert_eq!(app.score, 10);
}

#[test]
fn next_puzzle_resets_timer() {
    let mut app = LexivoApp {
        time_left_ms: 1000,
        ..LexivoApp::default()
    };
    app.next_puzzle();

    assert_eq!(app.time_left_ms, 60_000);
}

#[test]
fn question_count_sets_expected_timer_lengths() {
    let mut app = LexivoApp::default();

    app.set_question_count(10);
    assert_eq!(app.time_left_ms, 60_000);
    assert!(app.timer_enabled);

    app.set_question_count(20);
    assert_eq!(app.time_left_ms, 120_000);
    assert!(app.timer_enabled);

    app.set_question_count(30);
    assert_eq!(app.time_left_ms, 180_000);
    assert!(app.timer_enabled);
}

#[test]
fn all_questions_disables_timer() {
    let mut app = LexivoApp::default();
    app.set_question_count(0);

    assert!(!app.timer_enabled);
    assert_eq!(app.time_left_ms, 0);
}

#[test]
fn hint_reaching_zero_points_triggers_game_over() {
    let mut app = LexivoApp {
        score: 5,
        ..LexivoApp::default()
    };

    app.reveal_hint_letter();

    assert_eq!(app.score, 0);
    assert!(app.game_over);
    assert_eq!(app.message, "Game over! Score reached zero.");
}

#[test]
fn leaderboard_includes_high_score_and_sorts_descending() {
    let mut app = LexivoApp {
        score: 30,
        ..LexivoApp::default()
    };
    app.record_score();
    app.score = 50;
    app.record_score();
    app.score = 40;
    app.record_score();

    assert_eq!(app.leaderboard, vec![50, 40, 30]);
}

#[test]
fn leaderboard_trims_to_top_five() {
    let mut app = LexivoApp::default();
    for value in [1, 2, 3, 4, 5, 6] {
        app.score = value;
        app.record_score();
    }

    assert_eq!(app.leaderboard.len(), 5);
    assert_eq!(app.leaderboard[0], 6);
    assert_eq!(app.leaderboard[4], 2);
}

#[test]
fn reset_progress_clears_stats_without_changing_round_state() {
    let mut app = LexivoApp {
        score: 37,
        best_score: 90,
        streak: 4,
        best_streak: 11,
        leaderboard: vec![90, 70, 50],
        user_input: "ABCD".to_owned(),
        time_left_ms: 12_500,
        game_over: true,
        ..LexivoApp::default()
    };

    app.reset_progress();

    assert_eq!(app.score, 37);
    assert_eq!(app.best_score, 0);
    assert_eq!(app.streak, 0);
    assert_eq!(app.best_streak, 0);
    assert!(app.leaderboard.is_empty());
    assert_eq!(app.user_input, "ABCD");
    assert_eq!(app.time_left_ms, 12_500);
    assert!(app.game_over);
    assert_eq!(app.message, "Progress reset");
}

#[test]
fn hint_reveals_one_letter_and_costs_points() {
    let mut app = LexivoApp {
        score: 20,
        ..LexivoApp::default()
    };

    app.reveal_hint_letter();

    assert_eq!(app.score, 15);
    assert_eq!(app.revealed_answer_indices.len(), 1);
}

#[test]
fn hint_requires_enough_points() {
    let mut app = LexivoApp {
        score: 4,
        ..LexivoApp::default()
    };

    app.reveal_hint_letter();

    assert_eq!(app.score, 4);
    assert!(app.revealed_answer_indices.is_empty());
}

#[test]
fn theme_mode_defaults_to_system() {
    let app = LexivoApp::default();
    assert_eq!(app.theme_mode, ThemeMode::System);
}

#[test]
fn remove_char_at_drops_only_selected_slot() {
    assert_eq!(LexivoApp::remove_char_at("WORD", 1), "WRD");
    assert_eq!(LexivoApp::remove_char_at("WORD", 0), "ORD");
    assert_eq!(LexivoApp::remove_char_at("WORD", 3), "WOR");
}

#[test]
fn update_status_transitions() {
    let mut update_status = UpdateStatus::default();
    assert_eq!(update_status, UpdateStatus::Idle);

    update_status = UpdateStatus::Checking;
    assert_eq!(update_status, UpdateStatus::Checking);

    update_status = UpdateStatus::Available {
        version: "1.1.0".to_owned(),
        url: "https://link".to_owned(),
    };

    if let UpdateStatus::Available { version, .. } = &update_status {
        assert_eq!(version, "1.1.0");
    } else {
        panic!("Expected Available status");
    }
}

#[test]
fn revealed_indices_are_ignored_in_manual_input() {
    let mut app = LexivoApp {
        revealed_answer_indices: vec![1, 3],
        puzzles: nurse_puzzle(),
        current_index: 0,
        ..LexivoApp::default()
    };

    assert_eq!(app.max_manual_input_len(), 3);

    app.user_input = "ABC".to_owned();
    app.sync_manual_input();
    assert_eq!(app.user_input, "ABC");

    app.user_input = "ABCD".to_owned();
    app.sync_manual_input();
    assert_eq!(app.user_input, "ABC");
}

#[test]
fn answer_slots_merges_manual_and_revealed() {
    let app = LexivoApp {
        puzzles: nurse_puzzle(),
        current_index: 0,
        revealed_answer_indices: vec![0, 2],
        user_input: "US".to_owned(),
        ..LexivoApp::default()
    };

    let slots = app.answer_slots();
    assert_eq!(slots[0], Some('N'));
    assert_eq!(slots[1], Some('U'));
    assert_eq!(slots[2], Some('R'));
    assert_eq!(slots[3], Some('S'));
    assert_eq!(slots[4], None);
}

#[test]
fn composed_answer_requires_all_slots_filled() {
    let mut app = LexivoApp {
        puzzles: nurse_puzzle(),
        current_index: 0,
        revealed_answer_indices: vec![0],
        ..LexivoApp::default()
    };

    app.user_input = "U".to_owned();
    assert_eq!(app.composed_answer_from_slots(), None);

    app.user_input = "URSE".to_owned();
    assert_eq!(app.composed_answer_from_slots(), Some("NURSE".to_owned()));
}

#[test]
fn hint_reveal_clears_overlapping_manual_input() {
    let mut app = LexivoApp {
        score: 50,
        puzzles: vec![puzzle("SOURCE", "HINT", "ABC")],
        current_index: 0,
        user_input: "XY".to_owned(),
        ..LexivoApp::default()
    };

    while !app.revealed_answer_indices.contains(&1) {
        app.score = 50;
        app.reveal_hint_letter();
    }

    assert!(app.user_input.len() < 2);
}

#[test]
fn leaderboard_deduplicates_scores() {
    let mut app = LexivoApp {
        score: 100,
        ..LexivoApp::default()
    };
    app.record_score();
    app.score = 100;
    app.record_score();

    assert_eq!(app.leaderboard, vec![100]);
}

#[test]
fn back_navigation_confirmation_logic() {
    let mut app = LexivoApp {
        screen: Screen::Start,
        ..LexivoApp::default()
    };

    app.go_to_screen(Screen::Leaderboard);
    app.request_back_navigation();
    assert_eq!(app.screen, Screen::Start);
    assert!(!app.show_back_confirm);

    app.screen = Screen::Game;
    app.game_over = false;
    app.request_back_navigation();
    assert_eq!(app.screen, Screen::Game);
    assert!(app.show_back_confirm);

    app.confirm_back_navigation();
    assert_eq!(app.screen, Screen::Start);
    assert!(!app.show_back_confirm);
}

#[test]
fn confirm_reset_progress_clears_state() {
    let mut app = LexivoApp {
        best_score: 500,
        streak: 10,
        best_streak: 15,
        leaderboard: vec![500, 400],
        ..LexivoApp::default()
    };

    app.confirm_reset_progress();

    assert_eq!(app.best_score, 0);
    assert_eq!(app.streak, 0);
    assert_eq!(app.best_streak, 0);
    assert!(app.leaderboard.is_empty());
    assert_eq!(app.message, "Progress reset");
}

#[test]
fn message_toast_lifecycle() {
    let mut app = LexivoApp::default();
    app.set_message("Hello");
    assert_eq!(app.message, "Hello");
    assert!(app.message_timer_ms > 0);

    app.update_timer(2000);
    assert_eq!(app.message, "Hello");

    app.update_timer(1100);
    assert_eq!(app.message, "");
}

#[test]
fn difficulty_reload_resets_state() {
    let mut app = LexivoApp {
        score: 100,
        current_difficulty: Difficulty::Easy,
        ..LexivoApp::default()
    };

    app.load_difficulty(Difficulty::Medium, medium_puzzles());
    assert_eq!(app.current_difficulty, Difficulty::Medium);
    assert_eq!(app.current_index, 0);
    assert!(app.user_input.is_empty());
}

#[test]
fn app_tests_daily_challenge_uses_selected_question_count() {
    let mut app = easy_app();
    app.set_question_count(20);
    app.start_daily_challenge();

    assert_eq!(app.challenge_total, 20);
    assert!(app.daily_challenge_active);
}

#[test]
fn app_tests_all_mode_uses_full_puzzle_pool() {
    let mut app = easy_app();
    app.set_question_count(0);
    app.start_daily_challenge();

    assert_eq!(app.challenge_total, app.puzzles.len());
}

#[test]
fn app_tests_start_screen_selects_mode_and_question_count() {
    let mut app = easy_app();
    app.set_question_count(30);
    app.set_mode(GameMode::DailyChallenge);
    app.start_selected_mode(Some(easy_puzzles()));

    assert_eq!(app.selected_question_count, 30);
    assert!(app.daily_challenge_active);
}

#[test]
fn app_tests_challenge_progress_increments_after_correct_answer() {
    let mut app = easy_app();
    app.set_question_count(2);
    app.start_daily_challenge();

    let original = app.puzzles[app.current_index].answer.clone();
    app.user_input = original.clone();
    app.check_answer();

    assert_eq!(app.challenge_progress, 1);
    assert_eq!(app.score, 10 + app.time_left_ms.div_ceil(1000).max(1));
}

#[test]
fn app_tests_challenge_ends_cleanly_when_configured_count_is_reached() {
    let mut app = easy_app();
    app.set_question_count(1);
    app.start_daily_challenge();

    let original = app.puzzles[app.current_index].answer.clone();
    app.user_input = original;
    app.check_answer();

    assert!(app.game_over);
    assert!(!app.daily_challenge_active);
    assert_eq!(app.challenge_progress, 1);
}

#[test]
fn app_tests_daily_challenge_keeps_mode_state_and_count() {
    let mut app = easy_app();
    app.set_question_count(30);
    app.set_mode(GameMode::DailyChallenge);
    app.start_selected_mode(Some(easy_puzzles()));

    assert!(app.daily_challenge_active);
    assert_eq!(app.challenge_total, 30);
    assert_eq!(app.selected_mode, GameMode::DailyChallenge);
}

#[test]
fn app_tests_game_over_blocks_scoring() {
    let mut app = LexivoApp::default();
    app.game_over = true;
    app.user_input = "NURSE".to_string();
    app.score = 10;

    app.check_answer();

    assert_eq!(app.score, 10);
}

#[test]
fn app_tests_leaderboard_includes_high_score_and_sorts_descending() {
    let mut app = LexivoApp::default();
    app.score = 30;
    app.record_score();
    app.score = 50;
    app.record_score();
    app.score = 40;
    app.record_score();

    assert_eq!(app.leaderboard, vec![50, 40, 30]);
}

#[test]
fn app_tests_leaderboard_trims_to_top_five() {
    let mut app = LexivoApp::default();
    for value in [1, 2, 3, 4, 5, 6] {
        app.score = value;
        app.record_score();
    }

    assert_eq!(app.leaderboard.len(), 5);
    assert_eq!(app.leaderboard[0], 6);
    assert_eq!(app.leaderboard[4], 2);
}

#[test]
fn typed_text_is_cleaned_and_cut_to_the_open_slots() {
    assert_eq!(lexivo::answer::clean_typed("A-1É?B", 3), "A1É");
    assert_eq!(lexivo::answer::clean_typed("AB", 5), "AB");
    assert_eq!(lexivo::answer::clean_typed("ABC", 0), "");
}
