use typing_game::settings::StartEndSentence;
use typing_game::text_generator::{format_text, TextGenerator, WordList};
use typing_game::text_source::{can_select_text, count_words, extend_text_if_needed, select_text};

#[test]
fn format_text_cleans_newlines_spaces_and_punctuation() {
    assert_eq!(format_text("Hello,world\nfoo   bar"), "Hello, world foo bar");
    assert_eq!(format_text("a.b"), "a. b");
    assert_eq!(format_text("end."), "end.");
    assert_eq!(format_text(""), "");
}

#[test]
fn format_text_result_is_clean() {
    let out = format_text("x\n\n\ny  ,z  \n w?!");
    assert!(!out.contains('\n'));
    assert!(!out.contains("  "));
}

#[test]
fn count_words_counts_whitespace_separated_words() {
    assert_eq!(count_words("a b  c"), 3);
    assert_eq!(count_words("   "), 0);
    assert_eq!(count_words("one\ntwo\tthree "), 3);
}

#[test]
fn extend_text_repeats_short_texts() {
    let (text, n) = extend_text_if_needed("a b".to_string(), 5, 2);
    assert_eq!(text, "a b a b a b");
    assert_eq!(n, 2 * 3 + 3 - 1);
    let (text, n) = extend_text_if_needed("a b c".to_string(), 2, 3);
    assert_eq!(text, "a b c");
    assert_eq!(n, 3);
}

#[test]
fn select_text_any_rotates_words() {
    assert_eq!(select_text("a b c d", None, 1, StartEndSentence::Any), "b c d a");
    assert_eq!(select_text("a b c d", None, 0, StartEndSentence::Any), "a b c d");
}

#[test]
fn select_text_start_skips_to_next_sentence() {
    assert_eq!(select_text("a b. c d. e", None, 1, StartEndSentence::Start), "c d. e a b.");
}

#[test]
fn race_text_has_the_asked_number_of_words() {
    let out = select_text("a b c", Some(5), 0, StartEndSentence::Any);
    assert_eq!(out, "a b c a b");
    assert_eq!(count_words(&out), 5);
    let out = select_text("a b c d e f", Some(3), 5, StartEndSentence::Any);
    assert_eq!(count_words(&out), 3);
    assert_eq!(out, "d e f");
}

#[test]
fn select_text_start_end_keeps_whole_sentences() {
    let out = select_text("x. a b. c d e. f g.", Some(2), 0, StartEndSentence::StartEnd);
    assert_eq!(out, "a b. c d e.");
}

#[test]
fn can_select_text_refuses_empty_text_for_a_race() {
    assert!(!can_select_text("", Some(3), 0, StartEndSentence::Any));
    assert!(can_select_text("a b", Some(3), 0, StartEndSentence::Any));
}

fn word_list(words: &[&str]) -> WordList {
    WordList { name: "test".to_string(), words: words.iter().map(|w| w.to_string()).collect() }
}

#[test]
fn generator_draws_words_of_its_list() {
    let mut g = TextGenerator::from_language(word_list(&["alpha", "beta", "gamma"]), Some(7)).unwrap();
    let words = g.take_words(20);
    assert_eq!(words.len(), 20);
    for w in &words {
        assert!(["alpha", "beta", "gamma"].contains(&w.as_str()));
    }
}

#[test]
fn generator_on_empty_list_gives_nothing() {
    let mut g = TextGenerator::from_language(word_list(&[]), Some(1)).unwrap();
    assert_eq!(g.next_word(), None);
    assert_eq!(g.take_words(4).len(), 0);
}

#[test]
fn same_seed_gives_same_words() {
    let list: Vec<String> = (0..50).map(|i| format!("w{i}")).collect();
    let mut g1 = TextGenerator::from_language(WordList { name: "n".to_string(), words: list.clone() }, Some(42)).unwrap();
    let mut g2 = TextGenerator::from_language(WordList { name: "n".to_string(), words: list }, Some(42)).unwrap();
    assert_eq!(g1.take_words(30), g2.take_words(30));
}

#[test]
fn cloned_generator_draws_the_same_words() {
    let list: Vec<String> = (0..50).map(|i| format!("w{i}")).collect();
    let mut g1 = TextGenerator::from_language(WordList { name: "n".to_string(), words: list }, Some(3)).unwrap();
    g1.skip_n(5);
    let mut g2 = g1.clone_generator();
    assert_eq!(g1.take_words(10), g2.take_words(10));
}

#[test]
fn skipping_words_moves_the_generator_as_drawing_them() {
    let list: Vec<String> = (0..50).map(|i| format!("w{i}")).collect();
    let mut g1 = TextGenerator::from_language(WordList { name: "n".to_string(), words: list.clone() }, Some(11)).unwrap();
    let mut g2 = TextGenerator::from_language(WordList { name: "n".to_string(), words: list.clone() }, Some(11)).unwrap();
    let mut g3 = TextGenerator::from_language(WordList { name: "n".to_string(), words: list }, Some(11)).unwrap();
    g1.skip_n(3);
    g2.take_words(3);
    let after_skip = g1.take_words(8);
    assert_eq!(after_skip, g2.take_words(8));
    assert_ne!(after_skip, g3.take_words(8));
}

#[test]
fn next_word_draws_the_same_word_as_take_words() {
    let list: Vec<String> = (0..40).map(|i| format!("w{i}")).collect();
    let mut g1 = TextGenerator::from_language(WordList { name: "n".to_string(), words: list.clone() }, Some(21)).unwrap();
    let mut g2 = TextGenerator::from_language(WordList { name: "n".to_string(), words: list }, Some(21)).unwrap();
    let a = g1.next_word().unwrap();
    let b = g1.next_word().unwrap();
    assert_eq!(g2.take_words(2), vec![a, b]);
}

#[test]
fn generator_seeded_by_the_system_draws_words_of_its_list() {
    let mut g = TextGenerator::from_language(word_list(&["x", "y"]), None).expect("the system gives a seed");
    for w in g.take_words(5) {
        assert!(w == "x" || w == "y");
    }
}
