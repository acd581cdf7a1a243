use std::collections::VecDeque;
use typing_game::action::Action;
use typing_game::app_store::AppStore;
use typing_game::screens::Screen;
use typing_game::settings::{Settings, TextOrigin, TextSettings, StartEndSentence, StartingPointSentence};
use typing_game::text::TextSource;
use typing_game::win_data::GameModEndResult;

/// Runs actions until none is left, as the dispatcher does; returns whether a
/// text load was asked for.
fn run(store: &mut AppStore, first: Action, now: u64, text: Option<&str>) -> bool {
    let mut queue = VecDeque::from([first]);
    let mut asked_load = false;
    while let Some(action) = queue.pop_front() {
        assert!(store.check_update(action, now));
        let loaded = match (action, text) {
            (Action::AsyncCachedRecievedData(_), Some(t)) => Some(TextSource::StaticText(Some(t.to_string()))),
            _ => None,
        };
        let step = store.update(action, now, loaded);
        asked_load |= step.load.is_some();
        queue.extend(step.screen_sent);
        queue.extend(step.router_sent);
    }
    asked_load
}

fn text_settings() -> Settings {
    let mut s = Settings::new_default(TextSettings::new_default(Some("lotr.txt".to_string())));
    s.game_settings.text_settings.text_origin =
        TextOrigin::Text { start_end_sentence: StartEndSentence::Any, starting_point: StartingPointSentence::Beginning };
    s.game_settings.race_game_settings.number_words = 2;
    s
}

#[test]
fn app_starts_on_the_first_menu_and_reaches_a_race() {
    let mut store = AppStore::new(text_settings());
    run(&mut store, Action::StartingApp, 0, None);
    assert_eq!(store.screen_router.current_sceen_kind, Screen::FirstMenu);
    run(&mut store, Action::EnterPressed, 0, None);
    assert_eq!(store.screen_router.current_sceen_kind, Screen::SoloGamesMenu);
    let asked = run(&mut store, Action::EnterPressed, 0, None);
    assert_eq!(store.screen_router.current_sceen_kind, Screen::SoloRaceGame);
    assert!(asked);
    assert!(store.settings.game_settings.seed.is_some());
}

#[test]
fn a_won_race_leads_to_the_end_screen_with_its_result() {
    let mut store = AppStore::new(text_settings());
    run(&mut store, Action::StartingApp, 0, None);
    run(&mut store, Action::EnterPressed, 0, None);
    run(&mut store, Action::EnterPressed, 0, None);
    run(&mut store, Action::AsyncCachedRecievedData(None), 0, Some("ab cd"));
    let mut now = 1000;
    for c in "ab cd".chars() {
        run(&mut store, Action::KeyPressed(c), now, None);
        now += 100;
    }
    assert_eq!(store.screen_router.current_sceen_kind, Screen::WinMenu);
    match store.win_data.game {
        GameModEndResult::Race(data) => {
            assert!(!data.skip);
            assert_eq!(data.n_words, 1);
            assert_eq!(data.time, now - 100 - 1000);
        },
        other => panic!("unexpected result {:?}", other),
    }
}

#[test]
fn leaving_a_race_reports_it_as_skipped() {
    let mut store = AppStore::new(text_settings());
    run(&mut store, Action::StartingApp, 0, None);
    run(&mut store, Action::EnterPressed, 0, None);
    run(&mut store, Action::EnterPressed, 0, None);
    run(&mut store, Action::EscPressed, 50, None);
    assert_eq!(store.screen_router.current_sceen_kind, Screen::FirstMenu);
    assert!(matches!(store.win_data.game, GameModEndResult::Race(d) if d.skip));
}

#[test]
fn escape_on_the_first_menu_exits() {
    let mut store = AppStore::new(text_settings());
    run(&mut store, Action::StartingApp, 0, None);
    run(&mut store, Action::EscPressed, 0, None);
    assert!(store.exit);
}

#[test]
fn closing_the_text_settings_saves_them() {
    let mut store = AppStore::new(text_settings());
    store.settings.game_settings.race_game_settings.number_words = 10;
    run(&mut store, Action::StartingApp, 0, None);
    run(&mut store, Action::EnterPressed, 0, None);
    for _ in 0..3 {
        run(&mut store, Action::DownPressed, 0, None);
    }
    run(&mut store, Action::EnterPressed, 0, None);
    assert_eq!(store.screen_router.current_sceen_kind, Screen::SoloGameSettings);
    run(&mut store, Action::RightPressed, 0, None);
    run(&mut store, Action::RightPressed, 0, None);
    run(&mut store, Action::EnterPressed, 0, None);
    run(&mut store, Action::RightPressed, 0, None);
    assert!(store.check_update(Action::AskCloseScreen(Screen::SoloGamesMenu), 0));
    let step = store.update(Action::AskCloseScreen(Screen::SoloGamesMenu), 0, None);
    assert!(step.save_settings);
    assert_eq!(step.screen_sent.last(), Some(&Action::ScreenClosed(Screen::SoloGamesMenu)));
    assert_eq!(store.settings.game_settings.race_game_settings.number_words, 25);
}

#[test]
fn playing_the_same_text_again_keeps_the_seed() {
    let mut store = AppStore::new(text_settings());
    run(&mut store, Action::StartingApp, 0, None);
    run(&mut store, Action::EnterPressed, 0, None);
    run(&mut store, Action::EnterPressed, 0, None);
    let seed = store.settings.game_settings.seed;
    assert!(seed.is_some());
    run(&mut store, Action::AsyncCachedRecievedData(None), 0, Some("ab cd"));
    for c in "ab cd".chars() {
        run(&mut store, Action::KeyPressed(c), 10, None);
    }
    assert_eq!(store.screen_router.current_sceen_kind, Screen::WinMenu);
    let asked = run(&mut store, Action::EnterPressed, 20, None);
    assert!(asked);
    assert_eq!(store.screen_router.current_sceen_kind, Screen::SoloRaceGame);
    assert!(store.settings.game_settings.keep_seed);
    assert_eq!(store.settings.game_settings.seed, seed);
}
