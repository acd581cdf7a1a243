use typing_game::action::Action;
use typing_game::text_generator::{TextGenerator, WordList};
use typing_game::text::{
    get_lines, get_new_typechar_text, CharacterState, TextSource, TextWidgetComponent, TextWidgetState,
    TypeChar,
};

fn loaded_race(text: &str, n_words: usize) -> TextWidgetComponent {
    let mut t = TextWidgetComponent::new(Some(n_words));
    assert!(!t.widget.is_available());
    let up = t.update(
        Action::AsyncCachedRecievedData(None),
        Some(TextSource::StaticText(Some(text.to_string()))),
    );
    assert!(!up.layout_failed);
    assert!(t.widget.is_available());
    t
}

fn line_text(t: &TextWidgetComponent) -> String {
    t.widget
        .lines
        .as_ref()
        .unwrap()
        .iter()
        .flat_map(|l| l.line.iter().map(|c| c.char))
        .collect()
}

#[test]
fn loading_a_text_lays_it_out() {
    let t = loaded_race("ab cd", 2);
    assert!(matches!(t.widget.state, TextWidgetState::InProgress));
    assert_eq!(line_text(&t), "ab cd");
    assert_eq!(t.widget.total_position, 0);
}

#[test]
fn failed_load_is_an_error() {
    let mut t = TextWidgetComponent::new(Some(2));
    let src = TextSource::StaticText(None);
    assert!(src.as_fail());
    let up = t.update(Action::AsyncCachedRecievedData(None), Some(src));
    assert!(!up.layout_failed);
    assert!(matches!(t.widget.state, TextWidgetState::ErrorLoading));
    assert!(t.widget.lines.is_none());
}

#[test]
fn typing_every_character_correctly_wins_the_race() {
    let mut t = loaded_race("ab cd", 2);
    let mut words_done = 0;
    for c in "ab cd".chars() {
        assert!(t.check_update(Action::KeyPressed(c)));
        let up = t.update(Action::KeyPressed(c), None);
        if up.word_done {
            words_done += 1;
        }
    }
    assert!(t.is_done());
    assert!(t.is_done_correctly());
    assert_eq!(t.widget.mistakes_counter, 0);
    assert_eq!(t.get_n_words_correctly_typed(), 1);
    assert!(words_done >= 1);
}

#[test]
fn a_mistake_is_counted_and_backspace_undoes_it() {
    let mut t = loaded_race("ab cd", 2);
    t.update(Action::KeyPressed('x'), None);
    assert_eq!(t.widget.mistakes_counter, 1);
    assert_eq!(t.widget.total_position, 1);
    t.update(Action::BackspacePressed, None);
    assert_eq!(t.widget.mistakes_counter, 0);
    assert_eq!(t.widget.total_position, 0);
    let first = t.widget.lines.as_ref().unwrap()[0].line[0];
    assert_eq!(first.char, 'a');
    assert!(first.is_not_typed());
}

#[test]
fn a_race_with_a_mistake_left_is_not_won() {
    let mut t = loaded_race("ab", 1);
    t.update(Action::KeyPressed('a'), None);
    t.update(Action::KeyPressed('x'), None);
    assert!(t.is_done());
    assert!(!t.is_done_correctly());
    assert!(matches!(t.widget.state, TextWidgetState::DoneWithMistakes));
    t.update(Action::KeyPressed('b'), None);
    assert!(t.is_done_correctly());
}

#[test]
fn get_lines_wraps_at_spaces() {
    let chars: Vec<TypeChar> = "aaa bbb ccc"
        .chars()
        .map(|c| TypeChar { char: c, state: CharacterState::NotTyped })
        .collect();
    let lines = get_lines(chars, 8);
    let texts: Vec<String> = lines.iter().map(|l| l.line.iter().map(|c| c.char).collect()).collect();
    assert_eq!(texts.concat(), "aaa bbb ccc");
    assert!(texts.len() >= 2);
    for t in &texts {
        assert!(t.chars().count() <= 8);
    }
}

#[test]
fn typechar_state_changes() {
    let mut c = TypeChar::space();
    assert!(c.is_space());
    assert!(c.is_not_typed());
    assert!(c.typed().is_typed());
    assert!(c.incorrect().is_incorrect());
    assert!(c.selected().is_cursor());
    assert!(c.not_typed().is_not_typed());
    assert_eq!(TypeChar::guard(), TypeChar::space());
}

#[test]
fn short_text_is_repeated_for_the_words_asked() {
    let v = get_new_typechar_text(&"a b".to_string(), 5);
    let s: String = v.iter().map(|c| c.char).collect();
    assert_eq!(s, "a b a b a b");
    assert!(v.iter().all(|c| c.state == CharacterState::NotTyped));
}

#[test]
fn prepare_view_cuts_the_text_for_the_area() {
    let mut t = loaded_race("aaa bbb ccc ddd eee", 5);
    let view = t.widget.prepare_view(8, 10, 5);
    assert!(view.laid_out);
    assert_eq!(t.widget.current_width, 8);
    assert_eq!(view.first_line, 0);
    let n_lines = t.widget.lines.as_ref().unwrap().len();
    assert!(n_lines >= 3);
    assert_eq!(view.n_lines, std::cmp::min(5, n_lines));
    assert_eq!(line_text(&t), "aaa bbb ccc ddd eee");
    let view = t.widget.prepare_view(8, 2, 5);
    assert_eq!(view.n_lines, 2);
}

#[test]
fn prepare_view_shows_nothing_while_loading() {
    let mut t = TextWidgetComponent::new(Some(3));
    let view = t.widget.prepare_view(0, 0, 5);
    assert!(view.laid_out);
    assert_eq!(view.n_lines, 0);
}

#[test]
fn an_empty_text_cannot_be_laid_out_for_a_race() {
    let mut t = TextWidgetComponent::new(Some(3));
    let up = t.update(Action::AsyncCachedRecievedData(None), Some(TextSource::StaticText(Some(String::new()))));
    assert!(up.layout_failed);
    assert!(t.widget.lines.is_none());
    assert!(matches!(t.widget.state, TextWidgetState::Loading));
}

#[test]
fn an_endless_text_from_a_word_list_is_laid_out() {
    let list = WordList { name: "l".to_string(), words: vec!["cat".to_string(), "dog".to_string()] };
    let mut t = TextWidgetComponent::new(None);
    let up = t.update(
        Action::AsyncCachedRecievedData(None),
        Some(TextSource::Generator(Some(TextGenerator::from_language(list, Some(5)).unwrap()))),
    );
    assert!(!up.layout_failed);
    assert!(matches!(t.widget.state, TextWidgetState::InProgress));
    let text = line_text(&t);
    assert!(text.split(' ').all(|w| w == "cat" || w == "dog"));
    let before = text.len();
    let view = t.widget.prepare_view(20, 5, 5);
    assert!(view.laid_out);
    assert!(line_text(&t).len() >= before);
}

#[test]
fn previous_typechar_stops_at_the_first_character() {
    let mut t = loaded_race("ab cd", 2);
    t.update(Action::KeyPressed('a'), None);
    t.update(Action::KeyPressed('b'), None);
    assert_eq!(t.widget.previous_typechar(1).char, 'b');
    assert_eq!(t.widget.previous_typechar(2).char, 'a');
    assert_eq!(t.widget.previous_typechar(9).char, 'a');
    assert_eq!(t.widget.previous_typechar(0).char, ' ');
}

#[test]
fn batches_of_a_word_list_repeat_the_same_words() {
    let list = WordList { name: "l".to_string(), words: (0..30).map(|i| format!("w{i}")).collect() };
    let mut t = TextWidgetComponent::new(None);
    t.update(
        Action::AsyncCachedRecievedData(None),
        Some(TextSource::Generator(Some(TextGenerator::from_language(list, Some(8)).unwrap()))),
    );
    let first = line_text(&t);
    assert!(t.widget.genrate_new_batch(3, 20));
    let all = line_text(&t);
    assert!(all.starts_with(&first));
    let added: Vec<&str> = all[first.len()..].split(' ').filter(|w| !w.is_empty()).collect();
    let leading: Vec<&str> = first.split(' ').take(3).collect();
    assert_eq!(added, leading);
}

#[test]
fn correct_position_past_every_line_keeps_the_line() {
    let mut t = loaded_race("ab cd", 2);
    t.widget.reformat(80);
    assert_eq!(t.widget.lines.as_ref().unwrap().len(), 1);
    t.widget.total_position = 7;
    t.widget.correct_position();
    assert_eq!(t.widget.n_line, 0);
    assert_eq!(t.widget.pos_in_line, 2);
    t.widget.lines = Some(Vec::new());
    t.widget.total_position = 3;
    t.widget.correct_position();
    assert_eq!(t.widget.n_line, 0);
    assert_eq!(t.widget.pos_in_line, 3);
}

#[test]
fn correct_position_finds_the_line_of_the_cursor() {
    let mut t = loaded_race("ab cd", 2);
    t.widget.reformat(80);
    t.widget.total_position = 4;
    t.widget.correct_position();
    assert_eq!(t.widget.n_line, 0);
    assert_eq!(t.widget.pos_in_line, 4);
    t.widget.reformat(3);
    assert_eq!(t.widget.lines.as_ref().unwrap().len(), 3);
    assert!(t.widget.lines.as_ref().unwrap()[0].line.is_empty());
    assert_eq!(t.widget.n_line, 2);
    assert_eq!(t.widget.pos_in_line, 1);
}

#[test]
fn lines_break_only_between_words() {
    let chars: Vec<TypeChar> = "abcdef gh ij"
        .chars()
        .map(|c| TypeChar { char: c, state: CharacterState::NotTyped })
        .collect();
    let lines = get_lines(chars, 4);
    let texts: Vec<String> = lines.iter().map(|l| l.line.iter().map(|c| c.char).collect()).collect();
    assert_eq!(texts, vec!["".to_string(), "abcdef ".to_string(), "gh ".to_string(), "ij".to_string()]);
    for t in &texts[..texts.len() - 1] {
        assert!(t.is_empty() || t.ends_with(' '));
    }
}
