use vstd::prelude::*;
use crate::screens::Screen;

verus! {

/// What the parts of the application tell each other.
#[derive(Clone, Copy, Debug, PartialEq, Eq, Structural)]
pub enum Action {
    StartingApp,
    AskChangeToScreen(Screen),
    AskOpenScreen,
    AskCloseScreen(Screen),
    ScreenClosed(Screen),
    KeyPressed(char),
    BackspacePressed,
    EscPressed,
    EnterPressed,
    UpPressed,
    DownPressed,
    RightPressed,
    LeftPressed,
    Exit,
    AsyncCachedRecievedData(Option<u32>),
    Idle,
}

/// A key read from the terminal.
#[derive(Clone, Copy, Debug, PartialEq, Eq, Structural)]
pub enum Key {
    Char(char),
    Backspace,
    Esc,
    Up,
    Down,
    Right,
    Left,
    Enter,
    Other,
}

/// The action a key stands for; `None` for the keys the game ignores.
pub fn action_of_key(key: Key) -> (r: Option<Action>)
    ensures
        r == (match key {
            Key::Char(c) => Some(Action::KeyPressed(c)),
            Key::Backspace => Some(Action::BackspacePressed),
            Key::Esc => Some(Action::EscPressed),
            Key::Up => Some(Action::UpPressed),
            Key::Down => Some(Action::DownPressed),
            Key::Right => Some(Action::RightPressed),
            Key::Left => Some(Action::LeftPressed),
            Key::Enter => Some(Action::EnterPressed),
            Key::Other => Option::<Action>::None,
        }),
{
    match key {
        Key::Char(c) => Some(Action::KeyPressed(c)),
        Key::Backspace => Some(Action::BackspacePressed),
        Key::Esc => Some(Action::EscPressed),
        Key::Up => Some(Action::UpPressed),
        Key::Down => Some(Action::DownPressed),
        Key::Right => Some(Action::RightPressed),
        Key::Left => Some(Action::LeftPressed),
        Key::Enter => Some(Action::EnterPressed),
        Key::Other => Option::None,
    }
}

/// Something that changes on actions and answers with the actions it sends.
pub trait Store {
    /// Whether the action can be handled without failing.
    spec fn update_ok(&self, action: Action) -> bool;

    fn update(&mut self, action: Action) -> (r: Vec<Action>)
        requires
            old(self).update_ok(action),
    ;
}

} // verus!
