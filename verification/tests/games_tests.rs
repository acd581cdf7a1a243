use typing_game::action::Action;
use typing_game::games::{GameMod, GameModParam, SoloGameScreen};
use typing_game::screens::Screen;
use typing_game::settings::{GameSettings, TextSettings};
use typing_game::win_data::GameModEndResult;

#[test]
fn clock_game_counts_down_then_ends() {
    let mut g = SoloGameScreen::new(GameMod::Clock);
    g.game_mod_params = GameModParam::Clock { time: 10 };
    let (clock, sent) = g.clock_tick(0);
    assert_eq!(clock.duration, 10);
    assert!(sent.is_empty());
    g.start_time = Some(1000);
    let (clock, sent) = g.clock_tick(5500);
    assert_eq!(clock.duration, 5);
    assert!(sent.is_empty());
    assert!(!g.done);
    let (clock, sent) = g.clock_tick(11001);
    assert_eq!(clock.duration, 0);
    assert_eq!(sent, vec![Action::AskChangeToScreen(Screen::WinMenu)]);
    assert!(g.done);
}

#[test]
fn race_clock_shows_the_elapsed_seconds() {
    let mut g = SoloGameScreen::new(GameMod::Race);
    assert_eq!(g.elapsed_clock(500).duration, 0);
    g.start_time = Some(1000);
    assert_eq!(g.elapsed_clock(5600).duration, 4);
}

#[test]
fn opening_a_game_reads_the_settings_and_draws_a_seed() {
    let mut g = SoloGameScreen::new(GameMod::Race);
    let mut settings = GameSettings::new_default(TextSettings::new_default(Some("t.txt".to_string())));
    settings.race_game_settings.number_words = 12;
    let setup = g.open(&mut settings).unwrap();
    assert_eq!(setup.n_words, Some(12));
    assert_eq!(setup.filename, Some("t.txt".to_string()));
    assert_eq!(settings.seed, Some(setup.seed));
    assert_eq!(g.game_mod_params, GameModParam::Race { n_words: 12 });
    assert!(g.text_component.is_some());
    settings.keep_seed = true;
    let again = g.open(&mut settings).unwrap();
    assert_eq!(again.seed, setup.seed);
}

#[test]
fn closing_a_race_reports_its_time() {
    let mut g = SoloGameScreen::new(GameMod::Race);
    let mut settings = GameSettings::new_default(TextSettings::new_default(None));
    g.open(&mut settings).unwrap();
    g.start_time = Some(100);
    let result = g.process_end(2100);
    match result {
        GameModEndResult::Race(d) => {
            assert!(d.skip);
            assert_eq!(d.time, 2000);
            assert_eq!(d.n_words, 0);
        },
        other => panic!("unexpected {:?}", other),
    }
    assert!(g.start_time.is_none());
}
