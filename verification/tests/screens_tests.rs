use typing_game::action::{action_of_key, Action, Key, Store};
use typing_game::clock::ClockWidget;
use typing_game::list::{MenuListComponent, MenuMultipleListComponent, MutipleEntry};
use typing_game::menus::{FirstMenuScreen, SelectedOption, SoloGamesMenuScreen, WinMenuScreen};
use typing_game::screens::{Screen, ScreenRouterComponent};
use typing_game::settings::{GameSettings, TextSettings};
use typing_game::win_data::{GameModEndResult, RaceData, WinData};
use ratatui::layout::Constraint;

#[test]
fn keys_map_to_actions() {
    assert_eq!(action_of_key(Key::Char('a')), Some(Action::KeyPressed('a')));
    assert_eq!(action_of_key(Key::Esc), Some(Action::EscPressed));
    assert_eq!(action_of_key(Key::Other), None);
}

#[test]
fn escape_leads_back_to_the_first_menu() {
    assert_eq!(Screen::FirstMenu.previous(), None);
    assert_eq!(Screen::SoloGameSettings.previous(), Some(Screen::SoloGamesMenu));
    assert_eq!(Screen::SoloGamesMenu.previous(), Some(Screen::FirstMenu));
    let mut s = Screen::SoloInfiniteGame;
    let mut steps = 0;
    while let Some(p) = s.previous() {
        s = p;
        steps += 1;
    }
    assert_eq!(s, Screen::FirstMenu);
    assert_eq!(steps, 2);
}

#[test]
fn router_changes_screen_by_protocol() {
    let mut router = ScreenRouterComponent::new();
    assert_eq!(router.update(Action::StartingApp), vec![Action::AskOpenScreen]);
    let sent = router.update(Action::AskChangeToScreen(Screen::SoloGamesMenu));
    assert_eq!(sent, vec![Action::AskCloseScreen(Screen::SoloGamesMenu)]);
    assert_eq!(router.current_sceen_kind, Screen::FirstMenu);
    let sent = router.update(Action::ScreenClosed(Screen::SoloGamesMenu));
    assert_eq!(sent, vec![Action::AskOpenScreen]);
    assert_eq!(router.current_sceen_kind, Screen::SoloGamesMenu);
    let sent = router.update(Action::EscPressed);
    assert_eq!(sent, vec![Action::AskChangeToScreen(Screen::FirstMenu)]);
}

#[test]
fn escape_on_first_menu_exits() {
    let mut router = ScreenRouterComponent::new();
    assert_eq!(router.update(Action::EscPressed), vec![Action::Exit]);
    assert!(router.update(Action::AskChangeToScreen(Screen::FirstMenu)).is_empty());
}

#[test]
fn first_menu_enter_asks_for_solo_games() {
    let mut m = FirstMenuScreen::new();
    assert_eq!(m.update(Action::EnterPressed), vec![Action::AskChangeToScreen(Screen::SoloGamesMenu)]);
    m.update(Action::DownPressed);
    assert_eq!(m.update(Action::EnterPressed), vec![Action::Idle]);
}

#[test]
fn menu_list_moves_within_its_entries() {
    let options = vec!["a".to_string(), "b".to_string()];
    let actions = vec![Action::Exit, Action::EscPressed];
    let mut m = MenuListComponent::new("t".to_string(), options, actions);
    assert_eq!(m.get_options(), vec!["a".to_string(), "b".to_string()]);
    assert_eq!(m.get_actions(), vec![Action::Exit, Action::EscPressed]);
    m.update(Action::DownPressed);
    assert_eq!(m.list_state, Some(1));
    m.update(Action::DownPressed);
    assert_eq!(m.list_state, Some(1));
    assert_eq!(m.update(Action::EnterPressed), vec![Action::EscPressed]);
    m.update(Action::UpPressed);
    m.update(Action::UpPressed);
    assert_eq!(m.list_state, Some(0));
}

#[test]
fn multiple_list_moves_between_columns() {
    let e1 = MutipleEntry::new(vec!["a".to_string(), "b".to_string()], vec![Action::Exit, Action::EnterPressed]);
    let e2 = MutipleEntry::new(vec!["c".to_string(), "d".to_string()], vec![Action::UpPressed, Action::DownPressed]);
    let mut m = MenuMultipleListComponent::new(
        "t".to_string(),
        vec![e1, e2],
        vec![Constraint::Percentage(50), Constraint::Percentage(50)],
    );
    assert_eq!(m.get_options(1), vec!["c".to_string(), "d".to_string()]);
    assert_eq!(m.get_options_column(1), vec!["b".to_string(), "d".to_string()]);
    assert_eq!(m.current_selected_action(), Some(Action::Exit));
    m.try_move_cursor_right();
    assert_eq!(m.list_state_entry, Some(1));
    m.try_move_cursor_right();
    assert_eq!(m.list_state_entry, Some(1));
    assert_eq!(m.update(Action::DownPressed), vec![]);
    assert_eq!(m.current_selected_action(), Some(Action::DownPressed));
    assert_eq!(m.get_state_list(1), Some(Some(1)));
    assert_eq!(m.get_state_list(0), Some(None));
    m.try_move_cursor_left();
    assert_eq!(m.list_state_entry, Some(0));
}

#[test]
fn solo_games_menu_targets() {
    let mut m = SoloGamesMenuScreen::new();
    assert_eq!(m.update(Action::EnterPressed), vec![Action::AskChangeToScreen(Screen::SoloRaceGame)]);
    for _ in 0..5 {
        m.update(Action::DownPressed);
    }
    assert_eq!(m.selected_entry, 3);
    assert_eq!(m.update(Action::EnterPressed), vec![Action::AskChangeToScreen(Screen::SoloGameSettings)]);
    m.update(Action::UpPressed);
    assert_eq!(m.update(Action::EnterPressed), vec![Action::AskChangeToScreen(Screen::SoloInfiniteGame)]);
}

fn settings() -> GameSettings {
    GameSettings::new_default(TextSettings::new_default(Some("english_1k.json".to_string())))
}

#[test]
fn win_menu_same_text_keeps_the_seed() {
    let mut w = WinMenuScreen::new();
    assert_eq!(w.choice_state, SelectedOption::Same);
    let data = WinData { game: GameModEndResult::Race(RaceData { skip: false, time: 1000, n_words: 3 }) };
    let mut g = settings();
    g.seed = Some(9);
    let sent = w.update(Action::EnterPressed, &data, &mut g);
    assert_eq!(sent, vec![Action::AskChangeToScreen(Screen::SoloRaceGame)]);
    assert!(g.keep_seed);
    assert_eq!(g.seed, Some(9));
}

#[test]
fn win_menu_leave_goes_back() {
    let mut w = WinMenuScreen::new();
    w.update(Action::LeftPressed, &WinData::default(), &mut settings());
    assert_eq!(w.choice_state, SelectedOption::Leave);
    assert_eq!(w.choice_state.get_pos(), 0);
    let mut g = settings();
    g.keep_seed = true;
    let sent = w.update(Action::EnterPressed, &WinData::default(), &mut g);
    assert_eq!(sent, vec![Action::EscPressed]);
    assert!(!g.keep_seed);
}

#[test]
fn win_menu_without_a_game_escapes() {
    let w = WinMenuScreen::new();
    assert_eq!(w.new_game(&WinData::default()), Action::EscPressed);
    assert_eq!(SelectedOption::Next.next(), SelectedOption::Next);
    assert_eq!(SelectedOption::Same.previous(), SelectedOption::Leave);
}

#[test]
fn clock_shows_minutes_and_seconds() {
    assert_eq!(ClockWidget::new(125).time_str(), "02:05");
    assert_eq!(ClockWidget::new(0).time_str(), "00:00");
    assert_eq!(ClockWidget::new(6000).time_str(), "100:00");
}

#[test]
fn multiple_list_update_moves_the_column_with_the_arrows() {
    let e1 = MutipleEntry::new(vec!["a".to_string(), "b".to_string()], vec![Action::Exit, Action::EnterPressed]);
    let e2 = MutipleEntry::new(vec!["c".to_string(), "d".to_string()], vec![Action::UpPressed, Action::DownPressed]);
    let mut m = MenuMultipleListComponent::new(
        "t".to_string(),
        vec![e1, e2],
        vec![Constraint::Percentage(50), Constraint::Percentage(50)],
    );
    m.update(Action::RightPressed);
    assert_eq!(m.list_state_entry, Some(1));
    assert_eq!(m.list_state_line, Some(0));
    m.update(Action::DownPressed);
    assert_eq!(m.list_state_entry, Some(1));
    assert_eq!(m.list_state_line, Some(1));
    m.update(Action::LeftPressed);
    assert_eq!(m.list_state_entry, Some(0));
    assert_eq!(m.update(Action::EnterPressed), vec![Action::UpPressed]);
}
