use typing_game::action::{Action, Store};
use typing_game::config::{
    default_language, default_text, miliseconds_per_frame, path_general_config, path_languages, path_settings,
    path_texts, GeneralConfig,
};
use typing_game::deferred::{Deferred, TaskState};
use typing_game::settings::{
    GameSettings, Settings, StartEndSentence, StartingPointSentence, TextOrigin, TextSettings,
};
use typing_game::text_settings::{
    GeneratingOption, NumberWord, PartStyle, StartEndSentenceState, StartingPointState, TextSettingPart,
    TextSettingScreen, TimeClock,
};

fn game_settings() -> GameSettings {
    GameSettings::new_default(TextSettings::new_default(Some("lotr.txt".to_string())))
}

#[test]
fn default_settings_values() {
    let s = Settings::new_default(TextSettings::new_default(None));
    assert_eq!(s.game_settings.clock_game_settings.time, 30);
    assert_eq!(s.game_settings.race_game_settings.number_words, 50);
    assert!(!s.game_settings.keep_seed);
    assert_eq!(s.game_settings.seed, None);
    assert_eq!(s.game_settings.text_settings.text_origin, TextOrigin::Language);
}

#[test]
fn try_get_filename_prefers_the_default_file() {
    assert_eq!(
        TextSettings::try_get_filename(true, "a.json".to_string(), Some("b.json".to_string())),
        Some("a.json".to_string())
    );
    assert_eq!(
        TextSettings::try_get_filename(false, "a.json".to_string(), Some("b.json".to_string())),
        Some("b.json".to_string())
    );
    assert_eq!(TextSettings::try_get_filename(false, "a.json".to_string(), None), None);
}

#[test]
fn general_config_defaults() {
    let c = GeneralConfig::default();
    assert_eq!(path_languages(&c), "languages");
    assert_eq!(path_texts(&c), "texts");
    assert_eq!(default_language(&c), "english_1k.json");
    assert_eq!(default_text(&c), "lotr.txt");
    assert_eq!(miliseconds_per_frame(&c), 20);
    assert_eq!(path_general_config(), "config/general_settings.toml");
    assert_eq!(path_settings(&c), "config/solo_games_settings.toml");
}

#[test]
fn choices_round_trip_through_their_values() {
    for w in [NumberWord::W10, NumberWord::W25, NumberWord::W50, NumberWord::W100] {
        assert_eq!(NumberWord::from_value(w.value()), w);
    }
    for t in [TimeClock::S10, TimeClock::S20, TimeClock::S30, TimeClock::S60] {
        assert_eq!(TimeClock::from_value(t.value()), t);
    }
    assert_eq!(NumberWord::from_value(7), NumberWord::Custom(7));
    assert_eq!(TimeClock::from_value(45), TimeClock::Custom(45));
    assert_eq!(NumberWord::W100.next(), NumberWord::W100);
    assert_eq!(NumberWord::W10.previous(), NumberWord::W10);
    assert_eq!(TimeClock::S30.next(), TimeClock::S60);
    assert_eq!(TimeClock::S20.state(), 1);
    assert_eq!(NumberWord::get_list_option(), ["10", "25", "50", "100"]);
    assert_eq!(TimeClock::get_list_option(), ["10s", "20s", "30s", "60s"]);
    assert_eq!(GeneratingOption::get_list(), ["Text", "Language"]);
}

#[test]
fn sentence_choices_round_trip() {
    for s in [StartEndSentenceState::Any, StartEndSentenceState::Start, StartEndSentenceState::StartEnd] {
        assert_eq!(StartEndSentenceState::from_setting_value(s.setting_value()), s);
    }
    assert_eq!(StartEndSentenceState::from_setting_value(StartEndSentence::Start).state(), 1);
    assert_eq!(StartingPointState::from_setting_value(StartingPointSentence::Random), StartingPointState::Random);
    assert_eq!(StartEndSentenceState::StartEnd.next(), StartEndSentenceState::StartEnd);
    assert_eq!(StartingPointState::Random.previous(), StartingPointState::Beginning);
}

#[test]
fn screen_reads_the_settings() {
    let mut g = game_settings();
    g.text_settings.text_origin =
        TextOrigin::Text { start_end_sentence: StartEndSentence::StartEnd, starting_point: StartingPointSentence::Random };
    g.clock_game_settings.time = 60;
    g.race_game_settings.number_words = 25;
    let s = TextSettingScreen::new(&g);
    assert_eq!(s.state_generator, GeneratingOption::Text);
    assert_eq!(s.start_end_option, StartEndSentenceState::StartEnd);
    assert_eq!(s.starting_point_option, StartingPointState::Random);
    assert_eq!(s.state_time_clock, TimeClock::S60);
    assert_eq!(s.state_number_words_race, NumberWord::W25);
    assert_eq!(s.selected_text_name, Some("lotr.txt".to_string()));
    assert_eq!(s.selected_language_name, Some("lotr.txt".to_string()));
}

#[test]
fn arrows_move_between_boxes_and_enter_edits() {
    let mut s = TextSettingScreen::new(&game_settings());
    assert_eq!(s.selected_part, TextSettingPart::Generator);
    s.update(Action::RightPressed);
    assert_eq!(s.selected_part, TextSettingPart::StartEnd);
    s.update(Action::RightPressed);
    assert_eq!(s.selected_part, TextSettingPart::NumberWordsRace);
    s.update(Action::DownPressed);
    assert_eq!(s.selected_part, TextSettingPart::TimeClock);
    s.update(Action::LeftPressed);
    assert_eq!(s.selected_part, TextSettingPart::StartEnd);
    s.update(Action::EnterPressed);
    assert_eq!(s.editing_part, Some(TextSettingPart::StartEnd));
    s.update(Action::DownPressed);
    assert_eq!(s.start_end_option, StartEndSentenceState::Start);
    assert_eq!(s.selected_part, TextSettingPart::StartEnd);
    s.update(Action::EnterPressed);
    assert_eq!(s.editing_part, None);
}

#[test]
fn editing_lengths_changes_the_choices() {
    let mut s = TextSettingScreen::new(&game_settings());
    s.update(Action::RightPressed);
    s.update(Action::RightPressed);
    s.update(Action::EnterPressed);
    assert!(s.check_update_ok(Action::RightPressed));
    s.update(Action::RightPressed);
    assert_eq!(s.state_number_words_race, NumberWord::W100);
    s.update(Action::DownPressed);
    assert_eq!(s.editing_part, None);
    assert_eq!(s.selected_part, TextSettingPart::TimeClock);
    s.update(Action::EnterPressed);
    s.update(Action::LeftPressed);
    assert_eq!(s.state_time_clock, TimeClock::S20);
}

#[test]
fn custom_lengths_cannot_be_changed() {
    let mut g = game_settings();
    g.race_game_settings.number_words = 7;
    let mut s = TextSettingScreen::new(&g);
    s.update(Action::RightPressed);
    s.update(Action::RightPressed);
    s.update(Action::EnterPressed);
    assert!(!s.check_update_ok(Action::RightPressed));
    assert!(s.check_update_ok(Action::UpPressed));
    assert!(!s.check_save_ok());
}

#[test]
fn source_list_selection_moves_within_the_list() {
    let mut s = TextSettingScreen::new(&game_settings());
    s.state_generator = GeneratingOption::Text;
    s.texts = Some(vec!["a.txt".to_string(), "b.txt".to_string()]);
    s.update(Action::DownPressed);
    assert_eq!(s.selected_part, TextSettingPart::Source);
    s.update(Action::EnterPressed);
    s.update(Action::DownPressed);
    assert_eq!(s.selected_text, Some(1));
    s.update(Action::DownPressed);
    assert_eq!(s.selected_text, Some(1));
    s.update(Action::UpPressed);
    s.update(Action::UpPressed);
    assert_eq!(s.selected_text, Some(0));
    assert_eq!(s.get_current_filename(), Some("a.txt".to_string()));
}

#[test]
fn wanted_names_are_selected_once_the_lists_are_loaded() {
    let mut s = TextSettingScreen::new(&game_settings());
    s.texts = Some(vec!["a.txt".to_string(), "lotr.txt".to_string()]);
    s.languages = Some(vec!["fr.json".to_string(), "english_1k.json".to_string()]);
    s.resolve_wanted_names(&"lotr.txt".to_string(), &"english_1k.json".to_string());
    assert_eq!(s.selected_text, Some(1));
    assert_eq!(s.selected_language, Some(1));
    assert_eq!(s.selected_text_name, None);
    assert_eq!(s.selected_language_name, None);
}

#[test]
fn saving_then_reading_gives_the_same_choices() {
    let mut s = TextSettingScreen::new(&game_settings());
    s.languages = Some(vec!["fr.json".to_string(), "en.json".to_string()]);
    s.state_generator = GeneratingOption::Language;
    s.selected_language = Some(1);
    s.state_time_clock = TimeClock::S10;
    s.state_number_words_race = NumberWord::W25;
    let mut g = game_settings();
    assert!(s.check_save_ok());
    s.close(&mut g);
    assert_eq!(g.text_settings.filename, Some("en.json".to_string()));
    assert_eq!(g.text_settings.text_origin, TextOrigin::Language);
    assert_eq!(g.clock_game_settings.time, 10);
    assert_eq!(g.race_game_settings.number_words, 25);
    let mut back = TextSettingScreen::new(&game_settings());
    back.open(&g);
    assert_eq!(back.state_generator, GeneratingOption::Language);
    assert_eq!(back.state_time_clock, TimeClock::S10);
    assert_eq!(back.state_number_words_race, NumberWord::W25);
    assert_eq!(back.selected_language_name, Some("en.json".to_string()));
}

#[test]
fn deferred_starts_once_and_reports_its_state() {
    let mut d: Deferred<u32> = Deferred::new();
    assert!(d.is_pending());
    assert!(d.begin());
    assert!(!d.begin());
    assert!(d.try_get().is_none());
    assert!(d.set_value(5));
    assert!(!d.set_value(6));
    assert_eq!(d.try_get(), Some(&5));
    assert!(d.is_ready());
    d.finish();
    assert!(matches!(d.get_state(), TaskState::Completed(&5)));
}

#[test]
fn deferred_finished_without_value_has_panicked() {
    let mut d: Deferred<String> = Deferred::start();
    assert!(!d.begin());
    d.finish();
    assert!(d.has_panicked());
    assert!(!d.is_ready());
}

#[test]
fn boxes_are_drawn_by_selection_and_edition() {
    let mut s = TextSettingScreen::new(&game_settings());
    assert_eq!(s.create_block(TextSettingPart::Generator), PartStyle::Selected);
    assert_eq!(s.create_block(TextSettingPart::Source), PartStyle::Plain);
    s.update(Action::EnterPressed);
    assert_eq!(s.create_block(TextSettingPart::Generator), PartStyle::Editing);
}

#[test]
fn wanted_names_are_kept_while_the_lists_load() {
    let mut s = TextSettingScreen::new(&game_settings());
    s.selected_text = Some(3);
    s.resolve_wanted_names(&"lotr.txt".to_string(), &"english_1k.json".to_string());
    assert_eq!(s.selected_text_name, Some("lotr.txt".to_string()));
    assert_eq!(s.selected_language_name, Some("lotr.txt".to_string()));
    assert_eq!(s.selected_text, Some(3));
    s.texts = Some(vec!["a.txt".to_string(), "lotr.txt".to_string()]);
    s.resolve_wanted_names(&"lotr.txt".to_string(), &"english_1k.json".to_string());
    assert_eq!(s.selected_text, Some(1));
    assert_eq!(s.selected_text_name, None);
    assert_eq!(s.selected_language_name, Some("lotr.txt".to_string()));
}
