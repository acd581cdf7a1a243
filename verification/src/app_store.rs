use vstd::prelude::*;
use crate::action::{Action, Store};
use crate::games::{GameMod, GameModParam, GameSetup, SoloGameScreen, kept_seed};
use crate::menus::{
    DebugMenuScreen, FirstMenuScreen, SelectedOption, SoloGamesMenuScreen, WinMenuScreen, new_game_action,
    settings_after_choice, solo_menu_target,
};
use crate::settings::GameSettings;
use crate::screens::{IsScreen, Screen, ScreenRouterComponent, router_effect};
use crate::settings::Settings;
use crate::text::{TextSource, TextUpdate, TextWidgetState};
use crate::text_settings::{TextSettingScreen, focus_after};
use crate::win_data::WinData;

verus! {

/// What handling one action asks of the caller: the actions to send (those
/// of the shown screen, then those of the router), the text to load for a
/// game that was opened (or whether the fresh seed it needed could not be
/// drawn), whether the settings are to be written to disk, and what
/// happened to the text of the game shown.
pub struct AppStep {
    pub screen_sent: Vec<Action>,
    pub router_sent: Vec<Action>,
    pub load: Option<GameSetup>,
    pub seed_failed: bool,
    pub save_settings: bool,
    pub text: TextUpdate,
}

/// Whether a screen is one of the solo games.
pub open spec fn is_game_screen(s: Screen) -> bool {
    s == Screen::SoloRaceGame || s == Screen::SoloClockGame || s == Screen::SoloInfiniteGame
}

/// Whether a screen shows the text settings.
pub open spec fn is_text_settings_screen(s: Screen) -> bool {
    s == Screen::SoloRaceSettingScreen || s == Screen::SoloGameSettings
}

/// A game screen after an action that is not a key: a race whose text is
/// typed without a mistake left counts as finished.
pub open spec fn settled(g: SoloGameScreen) -> SoloGameScreen {
    SoloGameScreen {
        done: g.done || (g.game_mod is Race && (g.text_component matches Some(t) && t.widget.state is Done)),
        ..g
    }
}

/// A game screen can take the action at `now`: its text can, its clock
/// did not start after `now`, and closing it can report a result (an
/// endless game has none, and a clock game needs its text).
pub open spec fn game_ok(g: SoloGameScreen, action: Action, now: u64) -> bool {
    &&& g.can_update(action)
    &&& g.start_time matches Some(s) ==> s <= now
    &&& action is AskCloseScreen ==> !(g.game_mod_params is Infinite) && (g.game_mod_params is Clock
        ==> g.text_component is Some)
}

/// The state of the application: the router, every screen, and the
/// settings and end-of-game data that the screens share.
pub struct AppStore {
    pub exit: bool,
    pub screen_router: ScreenRouterComponent,
    pub first_menu: FirstMenuScreen,
    pub solo_games_menu: SoloGamesMenuScreen,
    pub race_game: SoloGameScreen,
    pub clock_game: SoloGameScreen,
    pub infinite_game: SoloGameScreen,
    pub text_settings: TextSettingScreen,
    pub win_menu: WinMenuScreen,
    pub debug_menu: DebugMenuScreen,
    pub settings: Settings,
    pub win_data: WinData,
}

impl AppStore {
    /// Every screen keeps its own invariant, and each game screen plays its
    /// own kind of game.
    pub open spec fn wf(&self) -> bool {
        &&& self.first_menu.list_store.wf()
        &&& self.first_menu.list_store.entries@.len() > 0
        &&& self.solo_games_menu.wf()
        &&& self.race_game.wf() && self.race_game.game_mod == GameMod::Race
        &&& self.clock_game.wf() && self.clock_game.game_mod == GameMod::Clock
        &&& self.infinite_game.wf() && self.infinite_game.game_mod == GameMod::Infinite
        &&& self.text_settings.wf()
    }

    /// The game screen that a screen shows, if it is one.
    pub open spec fn game_of(&self, s: Screen) -> SoloGameScreen {
        if s == Screen::SoloRaceGame {
            self.race_game
        } else if s == Screen::SoloClockGame {
            self.clock_game
        } else {
            self.infinite_game
        }
    }

    /// The shown screen can take the action at `now` without failing.
    pub open spec fn update_ok(&self, action: Action, now: u64) -> bool {
        let cur = self.screen_router.current_sceen_kind;
        &&& is_game_screen(cur) ==> game_ok(self.game_of(cur), action, now)
        &&& is_text_settings_screen(cur) ==> self.text_settings.update_ok(action) && (action is AskCloseScreen
            ==> self.text_settings.save_ok())
        &&& cur == Screen::WinMenu ==> ((action is EnterPressed && self.win_menu.choice_state
            != SelectedOption::Leave) ==> !(self.win_data.game is Infinite))
    }

    /// The application at start: the first menu shown, every screen new,
    /// the given settings and no game played.
    pub fn new(settings: Settings) -> (r: AppStore)
        ensures
            r.wf(),
            !r.exit,
            r.screen_router.current_sceen_kind == Screen::FirstMenu,
            r.settings == settings,
            r.text_settings == TextSettingScreen::initial().loaded_from(settings.game_settings),
    {
        let text_settings = TextSettingScreen::new(&settings.game_settings);
        AppStore {
            exit: false,
            screen_router: ScreenRouterComponent::new(),
            first_menu: FirstMenuScreen::new(),
            solo_games_menu: SoloGamesMenuScreen::new(),
            race_game: SoloGameScreen::new(GameMod::Race),
            clock_game: SoloGameScreen::new(GameMod::Clock),
            infinite_game: SoloGameScreen::new(GameMod::Infinite),
            text_settings,
            win_menu: WinMenuScreen::new(),
            debug_menu: DebugMenuScreen::new(),
            settings,
            win_data: WinData::default(),
        }
    }

    /// The exact form of `update_ok`, to be asked before `update`.
    pub fn check_update(&self, action: Action, now: u64) -> (r: bool)
        requires
            self.wf(),
        ensures
            r == self.update_ok(action, now),
    {
        let closing = match action {
            Action::AskCloseScreen(_) => true,
            _ => false,
        };
        match self.screen_router.current_sceen_kind {
            Screen::SoloRaceGame => game_check(&self.race_game, action, now, closing),
            Screen::SoloClockGame => game_check(&self.clock_game, action, now, closing),
            Screen::SoloInfiniteGame => game_check(&self.infinite_game, action, now, closing),
            Screen::SoloRaceSettingScreen | Screen::SoloGameSettings => {
                self.text_settings.check_update_ok(action) && (!closing || self.text_settings.check_save_ok())
            },
            Screen::WinMenu => {
                let enter = match action {
                    Action::EnterPressed => true,
                    _ => false,
                };
                let leave = match self.win_menu.choice_state {
                    SelectedOption::Leave => true,
                    _ => false,
                };
                let infinite = match self.win_data.game {
                    crate::win_data::GameModEndResult::Infinite(_) => true,
                    _ => false,
                };
                !(enter && !leave) || !infinite
            },
            _ => true,
        }
    }
}

/// The exact form of `game_ok`.
fn game_check(g: &SoloGameScreen, action: Action, now: u64, closing: bool) -> (r: bool)
    requires
        g.wf(),
        closing == action is AskCloseScreen,
    ensures
        r == game_ok(*g, action, now),
{
    let text_ok = g.check_update(action);
    let clock_ok = match g.start_time {
        Some(s) => s <= now,
        None => true,
    };
    let end_ok = match g.game_mod_params {
        GameModParam::Infinite => false,
        GameModParam::Clock { .. } => g.text_component.is_some(),
        GameModParam::Race { .. } => true,
    };
    text_ok && clock_ok && (!closing || end_ok)
}

/// A game screen takes an action: the game handles it, then the screen is
/// closed (its result becomes the end-of-game data) or opened (a new game
/// is prepared from the settings, and its text is to be loaded, or the
/// fresh seed it needed could not be drawn).
fn game_step(
    game: &mut SoloGameScreen,
    action: Action,
    now: u64,
    loaded: Option<TextSource>,
    settings: &mut Settings,
    win_data: &mut WinData,
) -> (r: (Vec<Action>, Option<GameSetup>, TextUpdate, bool))
    requires
        old(game).wf(),
        game_ok(*old(game), action, now),
    ensures
        final(game).wf(),
        final(game).game_mod == old(game).game_mod,
        action matches Action::AskCloseScreen(s) ==> r.0@.len() > 0 && r.0@.last() == Action::ScreenClosed(s)
            && final(win_data).game == settled(*old(game)).end_result(now),
        !(action is AskCloseScreen) ==> *final(win_data) == *old(win_data),
        r.1 is Some ==> action is AskOpenScreen,
        r.3 <==> (action is AskOpenScreen && r.1 is None),
        r.1 is Some ==> r.1->0.filename == old(settings).game_settings.text_settings.filename
            && r.1->0.text_origin == old(settings).game_settings.text_settings.text_origin,
        r.3 ==> kept_seed(old(settings).game_settings) is None && *final(settings) == *old(settings),
        !(action is AskOpenScreen) ==> *final(settings) == *old(settings),
        (!(action is AskCloseScreen || action is AskOpenScreen) && old(game).text_component is Some)
            ==> final(game).text_component is Some && final(game).text_component->0.updated_from(
            old(game).text_component->0,
            action,
            loaded,
            r.2,
        ),
        old(game).text_component is None ==> r.2 == (TextUpdate { word_done: false, layout_failed: false }),
{
    let (mut sent, text) = game.update(action, now, loaded);
    let mut load: Option<GameSetup> = None;
    let mut seed_failed = false;
    match action {
        Action::AskCloseScreen(asked_screen) => {
            let result = game.process_end(now);
            win_data.game = result;
            sent.push(Action::ScreenClosed(asked_screen));
        },
        Action::AskOpenScreen => {
            load = game.open(&mut settings.game_settings);
            seed_failed = load.is_none();
        },
        _ => {},
    }
    (sent, load, text, seed_failed)
}

impl AppStore {
    /// Handles one action: the shown screen takes it (and is opened or
    /// closed when asked), then the router takes it; `Exit` ends the
    /// application. `now` is the time in milliseconds, `loaded` what loading
    /// the text of the shown game gave, if it answered.
    pub fn update(&mut self, action: Action, now: u64, loaded: Option<TextSource>) -> (r: AppStep)
        requires
            old(self).wf(),
            old(self).update_ok(action, now),
        ensures
            final(self).wf(),
            final(self).exit == (old(self).exit || action is Exit),
            ({
                let (next, sent) = router_effect(old(self).screen_router.current_sceen_kind, action);
                final(self).screen_router.current_sceen_kind == next && r.router_sent@ == sent
            }),
            ({
                let cur = old(self).screen_router.current_sceen_kind;
                &&& cur != Screen::FirstMenu ==> final(self).first_menu == old(self).first_menu
                &&& cur != Screen::SoloGamesMenu ==> final(self).solo_games_menu == old(self).solo_games_menu
                &&& cur != Screen::SoloRaceGame ==> final(self).race_game == old(self).race_game
                &&& cur != Screen::SoloClockGame ==> final(self).clock_game == old(self).clock_game
                &&& cur != Screen::SoloInfiniteGame ==> final(self).infinite_game == old(self).infinite_game
                &&& !is_text_settings_screen(cur) ==> final(self).text_settings == old(self).text_settings
                &&& cur != Screen::WinMenu ==> final(self).win_menu == old(self).win_menu
                &&& action matches Action::AskCloseScreen(s) ==> r.screen_sent@.len() > 0 && r.screen_sent@.last() == Action::ScreenClosed(s)
                &&& r.load is Some ==> (is_game_screen(cur) && action is AskOpenScreen)
                &&& ((is_game_screen(cur) && action is AskOpenScreen) <==> (r.load is Some || r.seed_failed))
                &&& r.seed_failed ==> r.load is None && kept_seed(old(self).settings.game_settings) is None
                    && final(self).settings == old(self).settings
                &&& r.load is Some ==> r.load->0.filename == old(self).settings.game_settings.text_settings.filename
                    && r.load->0.text_origin == old(self).settings.game_settings.text_settings.text_origin
                &&& (r.save_settings <==> (is_text_settings_screen(cur) && action is AskCloseScreen))
                &&& r.save_settings ==> final(self).settings.game_settings == old(
                    self,
                ).text_settings.saved_into(old(self).settings.game_settings)
                &&& (is_game_screen(cur) && action is AskCloseScreen) ==> final(self).win_data.game == settled(
                    old(self).game_of(cur),
                ).end_result(now)
                &&& !(is_game_screen(cur) && action is AskCloseScreen) ==> final(self).win_data == old(self).win_data
                &&& !((is_game_screen(cur) && action is AskOpenScreen) || r.save_settings || (cur == Screen::WinMenu
                    && action is EnterPressed)) ==> final(self).settings == old(self).settings
                &&& (is_game_screen(cur) && !(action is AskCloseScreen || action is AskOpenScreen)
                    && old(self).game_of(cur).text_component is Some) ==> final(self).game_of(
                    cur,
                ).text_component->0.updated_from(old(self).game_of(cur).text_component->0, action, loaded, r.text)
                &&& !(is_game_screen(cur) && old(self).game_of(cur).text_component is Some) ==> r.text == (
                TextUpdate { word_done: false, layout_failed: false })
                &&& is_text_settings_screen(cur) ==> (final(self).text_settings.selected_part,
                    final(self).text_settings.editing_part) == focus_after(
                    old(self).text_settings.selected_part,
                    old(self).text_settings.editing_part,
                    action,
                )
                &&& (cur == Screen::FirstMenu && action is EnterPressed) ==> r.screen_sent@ == seq![
                    old(self).first_menu.list_store.entries@[old(self).first_menu.list_store.list_state->0 as int].action,
                ]
                &&& (cur == Screen::SoloGamesMenu && action is EnterPressed) ==> r.screen_sent@ == seq![
                    Action::AskChangeToScreen(solo_menu_target(old(self).solo_games_menu.selected_entry)),
                ]
                &&& (cur == Screen::WinMenu && action is EnterPressed) ==> {
                    &&& r.screen_sent@ == seq![
                        if old(self).win_menu.choice_state == SelectedOption::Leave {
                            Action::EscPressed
                        } else {
                            new_game_action(old(self).win_data.game)
                        },
                    ]
                    &&& final(self).settings.game_settings == settings_after_choice(
                        old(self).win_menu.choice_state,
                        old(self).settings.game_settings,
                    )
                }
            }),
    {
        match action {
            Action::Exit => self.exit = true,
            _ => {},
        }
        let mut load: Option<GameSetup> = None;
        let mut seed_failed = false;
        let mut save_settings = false;
        let mut text = TextUpdate { word_done: false, layout_failed: false };
        let screen_sent = match self.screen_router.current_sceen_kind {
            Screen::FirstMenu => {
                let mut sent = self.first_menu.update(action);
                match action {
                    Action::AskCloseScreen(asked_screen) => {
                        self.first_menu.close();
                        sent.push(Action::ScreenClosed(asked_screen));
                    },
                    Action::AskOpenScreen => self.first_menu.open(),
                    _ => {},
                }
                sent
            },
            Screen::SoloGamesMenu => {
                let mut sent = self.solo_games_menu.update(action);
                match action {
                    Action::AskCloseScreen(asked_screen) => {
                        self.solo_games_menu.close();
                        sent.push(Action::ScreenClosed(asked_screen));
                    },
                    Action::AskOpenScreen => self.solo_games_menu.open(),
                    _ => {},
                }
                sent
            },
            Screen::SoloRaceGame => {
                let (sent, l, t, f) = game_step(&mut self.race_game, action, now, loaded, &mut self.settings,
                    &mut self.win_data);
                load = l;
                seed_failed = f;
                text = t;
                sent
            },
            Screen::SoloClockGame => {
                let (sent, l, t, f) = game_step(&mut self.clock_game, action, now, loaded, &mut self.settings,
                    &mut self.win_data);
                load = l;
                seed_failed = f;
                text = t;
                sent
            },
            Screen::SoloInfiniteGame => {
                let (sent, l, t, f) = game_step(&mut self.infinite_game, action, now, loaded, &mut self.settings,
                    &mut self.win_data);
                load = l;
                seed_failed = f;
                text = t;
                sent
            },
            Screen::SoloRaceSettingScreen | Screen::SoloGameSettings => {
                let mut sent = self.text_settings.update(action);
                match action {
                    Action::AskCloseScreen(asked_screen) => {
                        self.text_settings.close(&mut self.settings.game_settings);
                        save_settings = true;
                        sent.push(Action::ScreenClosed(asked_screen));
                    },
                    Action::AskOpenScreen => self.text_settings.open(&self.settings.game_settings),
                    _ => {},
                }
                sent
            },
            Screen::WinMenu => {
                let mut sent = self.win_menu.update(action, &self.win_data, &mut self.settings.game_settings);
                match action {
                    Action::AskCloseScreen(asked_screen) => sent.push(Action::ScreenClosed(asked_screen)),
                    _ => {},
                }
                sent
            },
            Screen::DebugMenu => {
                let mut sent = self.debug_menu.update(action);
                match action {
                    Action::AskCloseScreen(asked_screen) => {
                        self.debug_menu.close();
                        sent.push(Action::ScreenClosed(asked_screen));
                    },
                    Action::AskOpenScreen => self.debug_menu.open(),
                    _ => {},
                }
                sent
            },
        };
        let router_sent = self.screen_router.update(action);
        AppStep { screen_sent, router_sent, load, seed_failed, save_settings, text }
    }
}

/// Playing the same text again keeps the seed of the game just played, so
/// the next game is given that seed (and so the same text); playing a new
/// text or leaving drops it, and the next game draws a fresh one.
pub proof fn law_redo_keeps_seed(settings: GameSettings)
    requires
        settings.seed is Some,
    ensures
        kept_seed(settings_after_choice(SelectedOption::Same, settings)) == settings.seed,
        kept_seed(settings_after_choice(SelectedOption::Next, settings)) is None,
        kept_seed(settings_after_choice(SelectedOption::Leave, settings)) is None,
{
}

} // verus!
