use vstd::prelude::*;
use crate::action::{Action, Store};
use crate::list::{MenuListComponent, paired};
use crate::screens::{IsScreen, Screen};
use crate::settings::GameSettings;
use crate::win_data::{GameModEndResult, WinData};

verus! {

//------------------------------------------------------------------
//    First menu
//------------------------------------------------------------------

/// The first menu: solo games, and entries not made yet.
pub struct FirstMenuScreen {
    pub list_store: MenuListComponent,
}

impl FirstMenuScreen {
    pub fn new() -> (r: FirstMenuScreen)
        ensures
            r.list_store.wf(),
            r.list_store.entries@.len() == 4,
            r.list_store.entries@[0].option@ == "Solo"@,
            r.list_store.entries@[0].action == Action::AskChangeToScreen(Screen::SoloGamesMenu),
            r.list_store.entries@[1].option@ == "Multi (in progress)"@,
            r.list_store.entries@[2].option@ == "Settings"@,
            r.list_store.entries@[3].option@ == "About"@,
            forall|i: int| 1 <= i < 4 ==> (#[trigger] r.list_store.entries@[i]).action == Action::Idle,
    {
        let mut options: Vec<String> = Vec::new();
        options.push(String::from_str("Solo"));
        options.push(String::from_str("Multi (in progress)"));
        options.push(String::from_str("Settings"));
        options.push(String::from_str("About"));
        let mut actions: Vec<Action> = Vec::new();
        actions.push(Action::AskChangeToScreen(Screen::SoloGamesMenu));
        actions.push(Action::Idle);
        actions.push(Action::Idle);
        actions.push(Action::Idle);
        let list_store = MenuListComponent::new(String::from_str("Menu"), options, actions);
        FirstMenuScreen { list_store }
    }
}

impl Store for FirstMenuScreen {
    open spec fn update_ok(&self, action: Action) -> bool {
        self.list_store.update_ok(action)
    }

    /// The menu list handles the action.
    fn update(&mut self, action: Action) -> (r: Vec<Action>)
        ensures
            final(self).list_store.wf(),
            final(self).list_store.entries == old(self).list_store.entries,
            action is EnterPressed ==> r@ == seq![
                old(self).list_store.entries@[old(self).list_store.list_state->0 as int].action,
            ],
            !(action is EnterPressed) ==> r@.len() == 0,
    {
        self.list_store.update(action)
    }
}

impl IsScreen for FirstMenuScreen {
    fn open(&mut self)
        ensures
            *final(self) == *old(self),
    {
    }

    fn close(&mut self)
        ensures
            *final(self) == *old(self),
    {
    }
}

//------------------------------------------------------------------
//    Solo games menu
//------------------------------------------------------------------

/// The menu of solo games: race, clock, endless, and the settings below.
pub struct SoloGamesMenuScreen {
    pub selected_entry: usize,
}

/// The screen each entry of the solo games menu leads to.
pub open spec fn solo_menu_target(entry: usize) -> Screen {
    if entry == 0 {
        Screen::SoloRaceGame
    } else if entry == 1 {
        Screen::SoloClockGame
    } else if entry == 2 {
        Screen::SoloInfiniteGame
    } else {
        Screen::SoloGameSettings
    }
}

impl SoloGamesMenuScreen {
    pub open spec fn wf(&self) -> bool {
        self.selected_entry <= 3
    }

    pub fn new() -> (r: SoloGamesMenuScreen)
        ensures
            r.wf(),
            r.selected_entry == 0,
    {
        SoloGamesMenuScreen { selected_entry: 0 }
    }

    pub fn select_next(&mut self)
        requires
            old(self).wf(),
        ensures
            final(self).wf(),
            final(self).selected_entry == (if old(self).selected_entry + 1 < 3 {
                old(self).selected_entry + 1
            } else {
                3
            }),
    {
        self.selected_entry = if self.selected_entry + 1 < 3 {
            self.selected_entry + 1
        } else {
            3
        };
    }

    pub fn select_previous(&mut self)
        requires
            old(self).wf(),
        ensures
            final(self).wf(),
            final(self).selected_entry == (if old(self).selected_entry == 0 {
                0
            } else {
                old(self).selected_entry - 1
            }),
    {
        self.selected_entry = self.selected_entry.saturating_sub(1);
    }
}

impl Store for SoloGamesMenuScreen {
    open spec fn update_ok(&self, action: Action) -> bool {
        self.wf()
    }

    /// Down and up move the selection within the four entries; enter asks
    /// for the selected entry's screen.
    fn update(&mut self, action: Action) -> (r: Vec<Action>)
        ensures
            final(self).wf(),
            action is EnterPressed ==> r@ == seq![Action::AskChangeToScreen(solo_menu_target(old(self).selected_entry))]
                && final(self).selected_entry == old(self).selected_entry,
            !(action is EnterPressed) ==> r@.len() == 0,
            action is DownPressed ==> final(self).selected_entry == (if old(self).selected_entry < 3 {
                old(self).selected_entry + 1
            } else {
                3
            }),
            action is UpPressed ==> final(self).selected_entry == (if old(self).selected_entry == 0 {
                0
            } else {
                old(self).selected_entry - 1
            }),
            !(action is DownPressed || action is UpPressed) ==> final(self).selected_entry
                == old(self).selected_entry,
    {
        let mut out: Vec<Action> = Vec::new();
        match action {
            Action::DownPressed => self.select_next(),
            Action::UpPressed => self.select_previous(),
            Action::EnterPressed => {
                let target = match self.selected_entry {
                    0 => Screen::SoloRaceGame,
                    1 => Screen::SoloClockGame,
                    2 => Screen::SoloInfiniteGame,
                    _ => Screen::SoloGameSettings,
                };
                out.push(Action::AskChangeToScreen(target));
            },
            _ => {},
        }
        out
    }
}

impl IsScreen for SoloGamesMenuScreen {
    fn open(&mut self)
        ensures
            *final(self) == *old(self),
    {
    }

    fn close(&mut self)
        ensures
            *final(self) == *old(self),
    {
    }
}

//------------------------------------------------------------------
//    Debug menu and settings screen
//------------------------------------------------------------------

/// A screen that shows a debugging text and ignores every action.
pub struct DebugMenuScreen {}

impl DebugMenuScreen {
    pub fn new() -> (r: DebugMenuScreen) {
        DebugMenuScreen {  }
    }
}

impl Store for DebugMenuScreen {
    open spec fn update_ok(&self, action: Action) -> bool {
        true
    }

    fn update(&mut self, action: Action) -> (r: Vec<Action>)
        ensures
            r@.len() == 0,
    {
        Vec::new()
    }
}

impl IsScreen for DebugMenuScreen {
    fn open(&mut self)
        ensures
            *final(self) == *old(self),
    {
    }

    fn close(&mut self)
        ensures
            *final(self) == *old(self),
    {
    }
}

/// A settings screen that only shows a scrolling text and ignores actions.
pub struct SettingsScreenComponent {}

impl SettingsScreenComponent {
    pub fn new() -> (r: SettingsScreenComponent) {
        SettingsScreenComponent {  }
    }
}

impl Store for SettingsScreenComponent {
    open spec fn update_ok(&self, action: Action) -> bool {
        true
    }

    fn update(&mut self, action: Action) -> (r: Vec<Action>)
        ensures
            r@.len() == 0,
    {
        Vec::new()
    }
}

//------------------------------------------------------------------
//    End of game menu
//------------------------------------------------------------------

/// The choices after a game: quit, play the same text again, play a new one.
#[derive(Clone, Copy, Debug, PartialEq, Eq, Structural)]
pub enum SelectedOption {
    Leave,
    Same,
    Next,
}

impl Default for SelectedOption {
    fn default() -> (r: Self)
        ensures
            r == SelectedOption::Same,
    {
        SelectedOption::Same
    }
}

impl SelectedOption {
    pub open spec fn pos(self) -> int {
        match self {
            SelectedOption::Leave => 0,
            SelectedOption::Same => 1,
            SelectedOption::Next => 2,
        }
    }

    /// The choice on the right (the last one stays).
    pub fn next(&self) -> (r: SelectedOption)
        ensures
            r.pos() == (if self.pos() < 2 {
                self.pos() + 1
            } else {
                2
            }),
    {
        match self {
            SelectedOption::Leave => SelectedOption::Same,
            SelectedOption::Same => SelectedOption::Next,
            SelectedOption::Next => SelectedOption::Next,
        }
    }

    /// The choice on the left (the first one stays).
    pub fn previous(&self) -> (r: SelectedOption)
        ensures
            r.pos() == (if self.pos() > 0 {
                self.pos() - 1
            } else {
                0
            }),
    {
        match self {
            SelectedOption::Leave => SelectedOption::Leave,
            SelectedOption::Same => SelectedOption::Leave,
            SelectedOption::Next => SelectedOption::Same,
        }
    }

    pub fn get_pos(&self) -> (r: usize)
        ensures
            r == self.pos(),
    {
        match self {
            SelectedOption::Leave => 0,
            SelectedOption::Same => 1,
            SelectedOption::Next => 2,
        }
    }
}

/// The settings after a choice of the end screen: the seed is kept only to
/// play the same text again.
pub open spec fn settings_after_choice(choice: SelectedOption, settings: GameSettings) -> GameSettings {
    GameSettings { keep_seed: choice == SelectedOption::Same, ..settings }
}

/// The screen that asks for another game of the same kind.
pub open spec fn new_game_action(game: GameModEndResult) -> Action {
    match game {
        GameModEndResult::Race(_) => Action::AskChangeToScreen(Screen::SoloRaceGame),
        GameModEndResult::Clock(_) => Action::AskChangeToScreen(Screen::SoloClockGame),
        _ => Action::EscPressed,
    }
}

/// The end of game screen.
pub struct WinMenuScreen {
    pub choice_state: SelectedOption,
}

impl WinMenuScreen {
    pub fn new() -> (r: WinMenuScreen)
        ensures
            r.choice_state == SelectedOption::Same,
    {
        WinMenuScreen { choice_state: SelectedOption::default() }
    }

    /// Asks for another game of the kind just played; escape when there was
    /// none.
    pub fn new_game(&self, win_data: &WinData) -> (r: Action)
        requires
            !(win_data.game is Infinite),
        ensures
            r == new_game_action(win_data.game),
    {
        match win_data.game {
            GameModEndResult::Race(_) => Action::AskChangeToScreen(Screen::SoloRaceGame),
            GameModEndResult::Clock(_) => Action::AskChangeToScreen(Screen::SoloClockGame),
            _ => Action::EscPressed,
        }
    }

    /// Carries out the choice: quitting drops the seed and goes back; the
    /// same text keeps the seed for another game of the same kind; a new
    /// text drops the seed for another game of the same kind.
    pub fn option_selected(&self, win_data: &WinData, settings: &mut GameSettings) -> (r: Action)
        requires
            self.choice_state != SelectedOption::Leave ==> !(win_data.game is Infinite),
        ensures
            *final(settings) == settings_after_choice(self.choice_state, *old(settings)),
            r == (if self.choice_state == SelectedOption::Leave {
                Action::EscPressed
            } else {
                new_game_action(win_data.game)
            }),
    {
        match self.choice_state {
            SelectedOption::Leave => {
                settings.keep_seed = false;
                Action::EscPressed
            },
            SelectedOption::Same => {
                settings.keep_seed = true;
                self.new_game(win_data)
            },
            SelectedOption::Next => {
                settings.keep_seed = false;
                self.new_game(win_data)
            },
        }
    }

    /// Right and left move the choice; enter carries it out.
    pub fn update(&mut self, action: Action, win_data: &WinData, settings: &mut GameSettings) -> (r: Vec<Action>)
        requires
            (action is EnterPressed && old(self).choice_state != SelectedOption::Leave) ==> !(win_data.game is Infinite),
        ensures
            action is RightPressed ==> final(self).choice_state.pos() == (if old(self).choice_state.pos() < 2 {
                old(self).choice_state.pos() + 1
            } else {
                2
            }),
            action is LeftPressed ==> final(self).choice_state.pos() == (if old(self).choice_state.pos() > 0 {
                old(self).choice_state.pos() - 1
            } else {
                0
            }),
            !(action is RightPressed || action is LeftPressed) ==> final(self).choice_state == old(self).choice_state,
            action is EnterPressed ==> r@ == seq![if old(self).choice_state == SelectedOption::Leave {
                Action::EscPressed
            } else {
                new_game_action(win_data.game)
            }] && *final(settings) == settings_after_choice(old(self).choice_state, *old(settings)),
            !(action is EnterPressed) ==> r@.len() == 0 && *final(settings) == *old(settings),
    {
        let mut out: Vec<Action> = Vec::new();
        match action {
            Action::RightPressed => self.choice_state = self.choice_state.next(),
            Action::LeftPressed => self.choice_state = self.choice_state.previous(),
            Action::EnterPressed => {
                let a = self.option_selected(win_data, settings);
                out.push(a);
            },
            _ => {},
        }
        out
    }
}

} // verus!
