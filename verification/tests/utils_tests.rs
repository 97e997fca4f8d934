use lexivo::types::Difficulty;
use lexivo::utils::{
    daily_seed, daily_seed_for_day, daily_seed_for_difficulty, normalise_answer, scramble_word,
    seed_from_nanos, seed_from_time, shuffle_slice,
};

#[test]
fn answer_validation_ignores_case_and_whitespace() {
    assert_eq!(normalise_answer("  nurse  "), "NURSE");
    assert_eq!(normalise_answer("nUrSe"), "NURSE");
}

#[test]
fn app_tests_answer_validation_ignores_case_and_whitespace() {
    assert_eq!(normalise_answer("  nurse  "), "NURSE");
    assert_eq!(normalise_answer("nUrSe"), "NURSE");
}

#[test]
fn answer_validation_handles_empty_input_and_punctuation() {
    assert_eq!(normalise_answer(""), "");
    assert_eq!(normalise_answer("   "), "");
    assert_eq!(normalise_answer("nurse!"), "NURSE");
    assert_eq!(normalise_answer("n-u-r-s-e"), "NURSE");
}

#[test]
fn app_tests_answer_validation_handles_empty_input_and_punctuation() {
    assert_eq!(normalise_answer(""), "");
    assert_eq!(normalise_answer("   "), "");
    assert_eq!(normalise_answer("nurse!"), "NURSE");
    assert_eq!(normalise_answer("n-u-r-s-e"), "NURSE");
}

#[test]
fn daily_seed_is_stable_for_the_same_day() {
    assert_eq!(
        daily_seed_for_day(1_700_000_000),
        daily_seed_for_day(1_700_000_000)
    );
}

#[test]
fn app_tests_daily_seed_is_stable_for_the_same_day() {
    assert_eq!(
        daily_seed_for_day(1_700_000_000),
        daily_seed_for_day(1_700_000_000)
    );
}

#[test]
fn daily_seed_changes_for_different_days() {
    assert_ne!(
        daily_seed_for_day(1_700_000_000),
        daily_seed_for_day(1_700_000_000 + 86_400)
    );
}

#[test]
fn daily_seed_changes_by_difficulty_on_same_day() {
    let easy = daily_seed_for_difficulty(Difficulty::Easy, 1_700_000_000);
    let medium = daily_seed_for_difficulty(Difficulty::Medium, 1_700_000_000);
    let hard = daily_seed_for_difficulty(Difficulty::Hard, 1_700_000_000);

    assert_ne!(easy, medium);
    assert_ne!(easy, hard);
    assert_ne!(medium, hard);
}

#[test]
fn normalise_answer_filters_special_chars() {
    assert_eq!(normalise_answer("word-123!"), "WORD123");
    assert_eq!(normalise_answer("  multiple   words  "), "MULTIPLEWORDS");
}

#[test]
fn scramble_word_handles_single_char() {
    let mut state = 12345;
    assert_eq!(scramble_word("A", &mut state), "A");
}

#[test]
fn scramble_word_handles_identical_chars() {
    let mut state = 12345;
    assert_eq!(scramble_word("AAAAA", &mut state), "AAAAA");
}

#[test]
fn scramble_word_changes_word() {
    let mut state = 12345;
    let original = "LEXIVO";
    let scrambled = scramble_word(original, &mut state);
    assert_ne!(original, scrambled);

    let mut original_chars: Vec<char> = original.chars().collect();
    let mut scrambled_chars: Vec<char> = scrambled.chars().collect();
    original_chars.sort_unstable();
    scrambled_chars.sort_unstable();
    assert_eq!(original_chars, scrambled_chars);
}

#[test]
fn shuffle_slice_empty_and_single() {
    let mut state = 12345;
    let mut empty: Vec<i32> = vec![];
    shuffle_slice(&mut empty, &mut state);
    assert!(empty.is_empty());

    let mut single = vec![1];
    shuffle_slice(&mut single, &mut state);
    assert_eq!(single, vec![1]);
}

#[test]
fn shuffle_slice_is_deterministic_with_seed() {
    let seed = 42;
    let mut state1 = seed;
    let mut items1 = vec![1, 2, 3, 4, 5];
    shuffle_slice(&mut items1, &mut state1);

    let mut state2 = seed;
    let mut items2 = vec![1, 2, 3, 4, 5];
    shuffle_slice(&mut items2, &mut state2);

    assert_eq!(items1, items2);
}

#[test]
fn normalise_answer_trims_unicode_whitespace_and_keeps_digits() {
    assert_eq!(normalise_answer("\u{3000}abc 1\t"), "ABC1");
    assert_eq!(normalise_answer("\u{a0}é?"), "");
}

#[test]
fn normalise_answer_upper_cases_through_std() {
    // 'ß' upper-cases to "SS" through `str::to_uppercase`.
    assert_eq!(normalise_answer("straße"), "STRASSE");
}

#[test]
fn daily_seed_for_day_matches_formula() {
    assert_eq!(daily_seed_for_day(0), 0x00C0_FFEE_1234);
    assert_eq!(daily_seed_for_day(86_399), 0x00C0_FFEE_1234);
    assert_eq!(daily_seed_for_day(86_400), 1 ^ 0x00C0_FFEE_1234);
    assert_eq!(
        daily_seed_for_day(1_700_000_000),
        (1_700_000_000u64 / 86_400) ^ 0x00C0_FFEE_1234
    );
}

#[test]
fn daily_seed_same_day_law_on_values() {
    assert_eq!(
        daily_seed_for_day(1_700_000_000 - 1_700_000_000 % 86_400),
        daily_seed_for_day(1_700_000_000 - 1_700_000_000 % 86_400 + 86_399)
    );
}

#[test]
fn daily_seed_for_difficulty_twists() {
    let base = daily_seed_for_day(1_700_000_000);
    assert_eq!(daily_seed_for_difficulty(Difficulty::Easy, 1_700_000_000), base ^ 0x1111_1111_1111_11);
    assert_eq!(daily_seed_for_difficulty(Difficulty::Medium, 1_700_000_000), base ^ 0x2222_2222_2222_22);
    assert_eq!(daily_seed_for_difficulty(Difficulty::Hard, 1_700_000_000), base ^ 0x3333_3333_3333_33);
}

#[test]
fn seed_from_nanos_handles_zero_and_large_readings() {
    assert_eq!(seed_from_nanos(None), 0x9E37_79B9_7F4A_7C15);
    assert_eq!(seed_from_nanos(Some(0)), 0x9E37_79B9_7F4A_7C15);
    assert_eq!(seed_from_nanos(Some(7)), 7);
    assert_eq!(seed_from_nanos(Some(u128::MAX)), u64::MAX);
}

#[test]
fn clock_seeds_are_usable() {
    assert_ne!(seed_from_time(), 0);
    let seed = daily_seed();
    assert_eq!(seed & !0xFFFF_FFFF_FFFF, 0);
}

#[test]
fn shuffle_slice_keeps_items_and_moves_state() {
    let mut state = 99;
    let mut items = vec![5, 3, 9, 1, 7, 2];
    shuffle_slice(&mut items, &mut state);
    assert_ne!(state, 99);
    let mut sorted = items.clone();
    sorted.sort_unstable();
    assert_eq!(sorted, vec![1, 2, 3, 5, 7, 9]);
}

#[test]
fn scramble_word_keeps_state_for_short_words() {
    let mut state = 777;
    assert_eq!(scramble_word("", &mut state), "");
    assert_eq!(state, 777);
    assert_eq!(scramble_word("Q", &mut state), "Q");
    assert_eq!(state, 777);
}

#[test]
fn scramble_word_changes_two_letter_word() {
    let mut state = 5;
    assert_eq!(scramble_word("AB", &mut state), "BA");
}

#[test]
fn shuffle_slice_reorders_a_long_slice() {
    let mut state = 42;
    let original: Vec<u32> = (0..10).collect();
    let mut items = original.clone();
    shuffle_slice(&mut items, &mut state);
    assert_ne!(items, original);
}

#[test]
fn normalising_twice_changes_nothing() {
    for value in ["  nurse  ", "n-u-r-s-e", "straße 42!", "\u{3000}Ab c\t", ""] {
        let once = normalise_answer(value);
        assert!(once.chars().all(|c| c.is_ascii_uppercase() || c.is_ascii_digit()));
        assert_eq!(normalise_answer(&once), once);
    }
}

#[test]
fn kept_characters_are_ascii_letters_and_digits() {
    assert_eq!(lexivo::utils::keep_ascii_alphanumeric("A-B 1É!"), "AB1");
}
