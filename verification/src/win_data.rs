use vstd::prelude::*;

verus! {

/// The result of an endless game; the time is in milliseconds.
#[derive(Clone, Copy, Debug, PartialEq, Eq, Structural, Default)]
pub struct InfiniteData {
    pub time_spend: u64,
}

/// The result of a race: whether it was left before the end, its time in
/// milliseconds and the words typed correctly.
#[derive(Clone, Copy, Debug, PartialEq, Eq, Structural, Default)]
pub struct RaceData {
    pub skip: bool,
    pub time: u64,
    pub n_words: usize,
}

/// The result of a clock game: whether it was left before the end, its time
/// in seconds and the words typed correctly.
#[derive(Clone, Copy, Debug, PartialEq, Eq, Structural, Default)]
pub struct ClockData {
    pub skip: bool,
    pub time: usize,
    pub n_words: usize,
}

#[derive(Clone, Copy, Debug, PartialEq, Eq, Structural)]
pub enum GameModEndResult {
    NoGame,
    Infinite(InfiniteData),
    Race(RaceData),
    Clock(ClockData),
}

impl Default for GameModEndResult {
    fn default() -> (r: Self)
        ensures
            r == GameModEndResult::NoGame,
    {
        GameModEndResult::NoGame
    }
}

/// What the end screen shows: the result of the last game.
#[derive(Clone, Copy, Debug, PartialEq, Eq, Structural)]
pub struct WinData {
    pub game: GameModEndResult,
}

impl Default for WinData {
    fn default() -> (r: Self)
        ensures
            r.game == GameModEndResult::NoGame,
    {
        WinData { game: GameModEndResult::default() }
    }
}

} // verus!
