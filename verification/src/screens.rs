use vstd::prelude::*;
use crate::action::Action;

verus! {

/// The screens of the application.
#[derive(Clone, Copy, Debug, PartialEq, Eq, Structural)]
pub enum Screen {
    FirstMenu,
    SoloGamesMenu,
    SoloRaceGame,
    SoloClockGame,
    SoloRaceSettingScreen,
    SoloGameSettings,
    SoloInfiniteGame,
    WinMenu,
    DebugMenu,
}

impl Default for Screen {
    fn default() -> (r: Self)
        ensures
            r == Screen::FirstMenu,
    {
        Screen::FirstMenu
    }
}

/// The screen that escape leads back to; none from the first menu.
pub open spec fn spec_previous(s: Screen) -> Option<Screen> {
    match s {
        Screen::FirstMenu => None,
        Screen::SoloGamesMenu => Some(Screen::FirstMenu),
        Screen::SoloRaceGame => Some(Screen::FirstMenu),
        Screen::SoloClockGame => Some(Screen::FirstMenu),
        Screen::SoloRaceSettingScreen => Some(Screen::SoloGamesMenu),
        Screen::SoloGameSettings => Some(Screen::SoloGamesMenu),
        Screen::SoloInfiniteGame => Some(Screen::SoloGamesMenu),
        Screen::DebugMenu => Some(Screen::FirstMenu),
        Screen::WinMenu => Some(Screen::FirstMenu),
    }
}

impl Screen {
    pub fn previous(self) -> (r: Option<Screen>)
        ensures
            r == spec_previous(self),
    {
        match self {
            Screen::FirstMenu => None,
            Screen::SoloGamesMenu => Some(Screen::FirstMenu),
            Screen::SoloRaceGame => Some(Screen::FirstMenu),
            Screen::SoloClockGame => Some(Screen::FirstMenu),
            Screen::SoloRaceSettingScreen => Some(Screen::SoloGamesMenu),
            Screen::SoloGameSettings => Some(Screen::SoloGamesMenu),
            Screen::SoloInfiniteGame => Some(Screen::SoloGamesMenu),
            Screen::DebugMenu => Some(Screen::FirstMenu),
            Screen::WinMenu => Some(Screen::FirstMenu),
        }
    }
}

/// How many escapes lead from a screen back to the first menu.
pub open spec fn depth(s: Screen) -> nat {
    match s {
        Screen::FirstMenu => 0,
        Screen::SoloGamesMenu | Screen::SoloRaceGame | Screen::SoloClockGame | Screen::DebugMenu
        | Screen::WinMenu => 1,
        Screen::SoloRaceSettingScreen | Screen::SoloGameSettings | Screen::SoloInfiniteGame => 2,
    }
}

/// Escape always leads closer to the first menu, which is the only screen
/// without a previous one.
pub proof fn law_previous_leads_home(s: Screen)
    ensures
        spec_previous(s) is None <==> s == Screen::FirstMenu,
        spec_previous(s) matches Some(p) ==> depth(p) < depth(s),
{
}

/// The screen the application starts on.
pub const STARTING_SCREEN: Screen = Screen::FirstMenu;

/// Which screen is shown, and the protocol to change it: asking to change
/// closes the current screen, and the new one is opened once the old one
/// says it is closed.
pub struct ScreenRouterComponent {
    pub current_sceen_kind: Screen,
}

/// What escape and starting ask for: the previous screen (or to quit), and
/// to open the first screen.
pub open spec fn router_requests(current: Screen, action: Action) -> Seq<Action> {
    match action {
        Action::EscPressed => match spec_previous(current) {
            Some(p) => seq![Action::AskChangeToScreen(p)],
            None => seq![Action::Exit],
        },
        Action::StartingApp => seq![Action::AskOpenScreen],
        _ => Seq::empty(),
    }
}

/// The change protocol: asking for another screen asks the current one to
/// close; a closed screen makes the asked one current and asks it to open.
pub open spec fn protocol_effect(current: Screen, action: Action) -> (Screen, Seq<Action>) {
    match action {
        Action::AskChangeToScreen(asked) => if current != asked {
            (current, seq![Action::AskCloseScreen(asked)])
        } else {
            (current, Seq::empty())
        },
        Action::ScreenClosed(asked) => (asked, seq![Action::AskOpenScreen]),
        _ => (current, Seq::empty()),
    }
}

/// The router's answer to an action: its requests, then the protocol.
pub open spec fn router_effect(current: Screen, action: Action) -> (Screen, Seq<Action>) {
    let (next, sent) = protocol_effect(current, action);
    (next, router_requests(current, action) + sent)
}

impl ScreenRouterComponent {
    pub fn new() -> (r: ScreenRouterComponent)
        ensures
            r.current_sceen_kind == Screen::FirstMenu,
    {
        ScreenRouterComponent { current_sceen_kind: STARTING_SCREEN }
    }

    fn change_screen_protocol(&mut self, action: Action, out: &mut Vec<Action>)
        ensures
            ({
                let (cur, sent) = protocol_effect(old(self).current_sceen_kind, action);
                &&& final(self).current_sceen_kind == cur
                &&& final(out)@ == old(out)@ + sent
            }),
    {
        match action {
            Action::AskChangeToScreen(asked_screen) => {
                if self.current_sceen_kind != asked_screen {
                    out.push(Action::AskCloseScreen(asked_screen));
                }
            },
            Action::ScreenClosed(asked_screen) => {
                self.current_sceen_kind = asked_screen;
                out.push(Action::AskOpenScreen);
            },
            _ => {},
        }
    }
}

impl crate::action::Store for ScreenRouterComponent {
    open spec fn update_ok(&self, action: Action) -> bool {
        true
    }

    /// The router's own part of handling an action (after the current screen
    /// has handled it), as `router_effect` states.
    fn update(&mut self, action: Action) -> (r: Vec<Action>)
        ensures
            (final(self).current_sceen_kind, r@) == router_effect(old(self).current_sceen_kind, action),
    {
        let mut out: Vec<Action> = Vec::new();
        match action {
            Action::EscPressed => {
                match self.current_sceen_kind.previous() {
                    Some(new_screen) => out.push(Action::AskChangeToScreen(new_screen)),
                    None => out.push(Action::Exit),
                }
            },
            Action::StartingApp => out.push(Action::AskOpenScreen),
            _ => {},
        }
        self.change_screen_protocol(action, &mut out);
        assert(out@ =~= router_effect(old(self).current_sceen_kind, action).1);
        out
    }
}

/// The protocol ends on the asked screen: asking for another screen makes
/// the router ask to close the current one, and when that screen says it is
/// closed, the asked one becomes current and is asked to open.
pub proof fn law_change_screen_protocol(current: Screen, asked: Screen)
    requires
        current != asked,
    ensures
        router_effect(current, Action::AskChangeToScreen(asked)) == (current, seq![Action::AskCloseScreen(asked)]),
        router_effect(current, Action::ScreenClosed(asked)) == (asked, seq![Action::AskOpenScreen]),
{
    assert(Seq::<Action>::empty() + seq![Action::AskCloseScreen(asked)] =~= seq![Action::AskCloseScreen(asked)]);
    assert(Seq::<Action>::empty() + seq![Action::AskOpenScreen] =~= seq![Action::AskOpenScreen]);
}

/// Something shown on a screen: it is opened and closed by the router's
/// protocol.
pub trait IsScreen: crate::action::Store {
    fn open(&mut self);

    fn close(&mut self);

    /// Handles an action, then opens or closes the screen when asked; a
    /// closed screen says so.
    fn update_screen(&mut self, action: Action) -> (r: Vec<Action>)
        requires
            old(self).update_ok(action),
        ensures
            action matches Action::AskCloseScreen(s) ==> r@.len() > 0 && r@.last() == Action::ScreenClosed(s),
    {
        let mut out = self.update(action);
        match action {
            Action::AskCloseScreen(asked_screen) => {
                self.close();
                out.push(Action::ScreenClosed(asked_screen));
            },
            Action::AskOpenScreen => self.open(),
            _ => {},
        }
        out
    }
}

} // verus!
