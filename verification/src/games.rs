use vstd::prelude::*;
use crate::action::Action;
use crate::clock::ClockWidget;
use crate::screens::Screen;
use crate::settings::{GameSettings, TextOrigin};
use crate::text::{TextSource, TextUpdate, TextWidgetComponent, TextWidgetState, count_lines, correct_words,
    law_correct_words_counted, lemma_count_lines_bound};
use crate::text_generator::random_seed;
use crate::win_data::{ClockData, GameModEndResult, RaceData};

verus! {

/// The kinds of solo games.
#[derive(Clone, Copy, Debug, PartialEq, Eq, Structural)]
pub enum GameMod {
    Race,
    Clock,
    Infinite,
}

/// The parameters of a game of each kind.
#[derive(Clone, Copy, Debug, PartialEq, Eq, Structural)]
pub enum GameModParam {
    Race { n_words: usize },
    Clock { time: usize },
    Infinite,
}

impl Default for GameModParam {
    fn default() -> (r: Self)
        ensures
            r == GameModParam::Infinite,
    {
        GameModParam::Infinite
    }
}

/// What is needed to load the text of a game that is opened.
#[derive(Clone, Debug)]
pub struct GameSetup {
    pub text_origin: TextOrigin,
    pub filename: Option<String>,
    pub n_words: Option<usize>,
    pub seed: u64,
}

/// The seed that the settings ask to keep: the seed of the last game when
/// the same text is to be played again.
pub open spec fn kept_seed(settings: GameSettings) -> Option<u64> {
    if settings.keep_seed {
        settings.seed
    } else {
        None
    }
}

/// The start of a game's clock after an action at `now`: the first key
/// starts it.
pub open spec fn start_after(start: Option<u64>, action: Action, now: u64) -> Option<u64> {
    if action is KeyPressed && start is None {
        Some(now)
    } else {
        start
    }
}

/// The start of a game's clock after a run of actions, each at its time.
pub open spec fn start_after_all(start: Option<u64>, steps: Seq<(Action, u64)>) -> Option<u64>
    decreases steps.len(),
{
    if steps.len() == 0 {
        start
    } else {
        start_after_all(start_after(start, steps[0].0, steps[0].1), steps.drop_first())
    }
}

/// How many times the end screen is asked for along a run of updates of a
/// race: `ends[i]` is whether the text is won after update `i`, and a
/// request is sent when the text is won while the race was not yet done.
pub open spec fn end_requests(done: bool, ends: Seq<bool>) -> nat
    decreases ends.len(),
{
    if ends.len() == 0 {
        0
    } else {
        (if !done && ends[0] {
            1nat
        } else {
            0nat
        }) + end_requests(done || ends[0], ends.drop_first())
    }
}

/// The clock of a game starts at the first key and is never set again:
/// once started, no run of actions moves it.
pub proof fn law_start_time_set_once(start: Option<u64>, steps: Seq<(Action, u64)>, key: char, now: u64)
    ensures
        start is Some ==> start_after_all(start, steps) == start,
        start_after(None, Action::KeyPressed(key), now) == Some(now),
    decreases steps.len(),
{
    if steps.len() > 0 {
        law_start_time_set_once(start_after(start, steps[0].0, steps[0].1), steps.drop_first(), key, now);
    }
}

/// A race asks for the end screen exactly once: on the first update after
/// which its text is won, and never again (none when it is never won or
/// was already done).
pub proof fn law_race_end_sent_once(done: bool, ends: Seq<bool>)
    ensures
        end_requests(done, ends) == (if !done && ends.contains(true) {
            1nat
        } else {
            0nat
        }),
    decreases ends.len(),
{
    if ends.len() > 0 {
        law_race_end_sent_once(done || ends[0], ends.drop_first());
        assert(ends.contains(true) <==> (ends[0] || ends.drop_first().contains(true))) by {
            if ends.contains(true) {
                let i = choose|i: int| 0 <= i < ends.len() && ends[i] == true;
                if i > 0 {
                    assert(ends.drop_first()[i - 1] == true);
                }
            }
            if ends.drop_first().contains(true) {
                let j = choose|j: int| 0 <= j < ends.drop_first().len() && ends.drop_first()[j] == true;
                assert(ends[j + 1] == true);
            }
            if ends[0] {
                assert(ends.contains(true));
            }
        }
        if done || ends[0] {
            law_race_end_sent_once(true, ends.drop_first());
        }
    }
}

/// The parameters of a game of the given kind, from the settings.
pub open spec fn params_of(game_mod: GameMod, settings: GameSettings) -> GameModParam {
    match game_mod {
        GameMod::Race => GameModParam::Race { n_words: settings.race_game_settings.number_words },
        GameMod::Clock => GameModParam::Clock { time: settings.clock_game_settings.time },
        GameMod::Infinite => GameModParam::Infinite,
    }
}

/// A solo game screen; times are milliseconds on the caller's clock.
pub struct SoloGameScreen {
    pub screen: Screen,
    pub game_mod: GameMod,
    pub game_mod_params: GameModParam,
    pub text_component: Option<TextWidgetComponent>,
    pub start_time: Option<u64>,
    pub done: bool,
}

impl SoloGameScreen {
    pub open spec fn wf(&self) -> bool {
        self.text_component matches Some(t) ==> t.widget.wf()
    }

    pub fn new(game_mod: GameMod) -> (r: SoloGameScreen)
        ensures
            r.wf(),
            r.game_mod == game_mod,
            r.game_mod_params == GameModParam::Infinite,
            r.text_component is None,
            r.start_time is None,
            !r.done,
    {
        SoloGameScreen {
            screen: Screen::SoloRaceGame,
            game_mod,
            game_mod_params: GameModParam::default(),
            text_component: None,
            start_time: None,
            done: false,
        }
    }

    /// Prepares a new game from the settings: the clock is reset, the seed
    /// is kept when the settings ask for it and one is there, and a fresh
    /// seed is drawn (and stored in the settings) otherwise; a text widget
    /// for the game's words is made when a text file is set. Returns what
    /// is needed to load the text, or `None`, changing nothing, when a fresh
    /// seed was needed and the operating system's random source failed.
    pub fn load_settings(&mut self, settings: &mut GameSettings) -> (r: Option<GameSetup>)
        ensures
            kept_seed(*old(settings)) is Some ==> r is Some,
            r is None ==> *final(self) == *old(self) && *final(settings) == *old(settings),
            r matches Some(setup) ==> ({
                &&& old(self).wf() ==> final(self).wf()
                &&& final(self).start_time is None
                &&& final(self).game_mod == old(self).game_mod
                &&& final(self).game_mod_params == params_of(old(self).game_mod, *old(settings))
                &&& final(self).done == old(self).done
                &&& setup.text_origin == old(settings).text_settings.text_origin
                &&& setup.filename == old(settings).text_settings.filename
                &&& setup.n_words == (match params_of(old(self).game_mod, *old(settings)) {
                    GameModParam::Race { n_words } => Some(n_words),
                    _ => None,
                })
                &&& kept_seed(*old(settings)) matches Some(k) ==> setup.seed == k && *final(settings)
                    == *old(settings)
                &&& kept_seed(*old(settings)) is None ==> *final(settings) == (GameSettings {
                    seed: Some(setup.seed),
                    ..*old(settings)
                })
                &&& old(settings).text_settings.filename is Some ==> (final(self).text_component matches Some(
                    t,
                ) && t.widget.lines is None && t.widget.state == TextWidgetState::Loading
                    && t.widget.kind_length == (match setup.n_words {
                    Some(n) => crate::text::KindLength::Finished(n),
                    None => crate::text::KindLength::Unlimited,
                }))
                &&& old(settings).text_settings.filename is None ==> final(self).text_component
                    == old(self).text_component
            }),
    {
        let seed = if !settings.keep_seed || settings.seed.is_none() {
            match random_seed() {
                Some(new_seed) => {
                    settings.seed = Some(new_seed);
                    new_seed
                },
                None => {
                    return None;
                },
            }
        } else {
            match settings.seed {
                Some(s) => s,
                None => 0,
            }
        };
        self.start_time = None;
        let game_mod_params = match self.game_mod {
            GameMod::Race => GameModParam::Race { n_words: settings.race_game_settings.number_words },
            GameMod::Clock => GameModParam::Clock { time: settings.clock_game_settings.time },
            GameMod::Infinite => GameModParam::Infinite,
        };
        let text_origin = settings.text_settings.text_origin;
        let filename = settings.text_settings.filename.clone();
        let n_words = match game_mod_params {
            GameModParam::Race { n_words } => Some(n_words),
            _ => None,
        };
        if filename.is_some() {
            self.text_component = Some(TextWidgetComponent::new(n_words));
        }
        self.game_mod_params = game_mod_params;
        Some(GameSetup { text_origin, filename, n_words, seed })
    }

    /// The result of the game at `now` (on the same clock as the start
    /// time): a race reports its time in milliseconds and the words typed
    /// correctly, a clock game its whole seconds and words; the game is
    /// marked as left when it was not finished.
    pub open spec fn end_result(&self, now: u64) -> GameModEndResult {
        let start = match self.start_time {
            Some(s) => s,
            None => now,
        };
        let words = match self.text_component {
            Some(t) => if t.widget.lines is None {
                0
            } else {
                count_lines(t.widget.line_seqs()).counter
            },
            None => 0,
        };
        match self.game_mod_params {
            GameModParam::Race { .. } => GameModEndResult::Race(
                RaceData { skip: !self.done, time: (now - start) as u64, n_words: words as usize },
            ),
            GameModParam::Clock { .. } => GameModEndResult::Clock(
                ClockData { skip: !self.done, time: ((now - start) / 1000) as usize, n_words: words as usize },
            ),
            GameModParam::Infinite => GameModEndResult::NoGame,
        }
    }

    /// A game's result reports it as skipped exactly when the game was not
    /// finished, for races and clock games alike; a race reports its time in
    /// milliseconds and a clock game in whole seconds (when they fit in a
    /// `usize`), both from the start of the game (or none when it never
    /// started).
    pub proof fn law_skipped_exactly_when_unfinished(g: &SoloGameScreen, now: u64)
        requires
            g.start_time matches Some(s) ==> s <= now,
        ensures
            match g.end_result(now) {
                GameModEndResult::Race(d) => g.game_mod_params is Race && d.skip == !g.done && d.time
                    == now - (match g.start_time {
                    Some(s) => s,
                    None => now,
                }),
                GameModEndResult::Clock(d) => {
                    let elapsed = now - (match g.start_time {
                        Some(s) => s,
                        None => now,
                    });
                    &&& g.game_mod_params is Clock
                    &&& d.skip == !g.done
                    &&& elapsed / 1000 <= usize::MAX ==> d.time * 1000 <= elapsed < (d.time + 1) * 1000
                },
                GameModEndResult::NoGame => g.game_mod_params is Infinite,
                GameModEndResult::Infinite(_) => false,
            },
    {
    }

    /// The words a game's result reports are the words typed correctly in
    /// its text (none when there is no text yet).
    pub proof fn law_result_counts_correct_words(g: &SoloGameScreen, now: u64)
        ensures
            ({
                let expected = match g.text_component {
                    Some(t) => if t.widget.lines is Some {
                        correct_words(t.widget.line_seqs())
                    } else {
                        0
                    },
                    None => 0,
                };
                expected <= usize::MAX ==> match g.end_result(now) {
                    GameModEndResult::Race(d) => d.n_words == expected,
                    GameModEndResult::Clock(d) => d.n_words == expected,
                    _ => true,
                }
            }),
    {
        if let Some(t) = g.text_component {
            if t.widget.lines is Some {
                law_correct_words_counted(t.widget.line_seqs());
                lemma_count_lines_bound(t.widget.line_seqs());
            }
        }
    }

    /// The result of the game when its screen is closed; the clock and the
    /// text are cleared.
    pub fn process_end(&mut self, now: u64) -> (r: GameModEndResult)
        requires
            old(self).wf(),
            !(old(self).game_mod_params is Infinite),
            old(self).game_mod_params is Clock ==> old(self).text_component is Some,
            old(self).start_time matches Some(s) ==> s <= now,
        ensures
            final(self).start_time is None,
            final(self).text_component is None,
            final(self).done == old(self).done,
            final(self).game_mod_params == old(self).game_mod_params,
            final(self).game_mod == old(self).game_mod,
            r == old(self).end_result(now),
            old(self).game_mod_params is Race ==> (r matches GameModEndResult::Race(d) && d.skip
                == !old(self).done),
            old(self).game_mod_params is Clock ==> (r matches GameModEndResult::Clock(d) && d.skip
                == !old(self).done),
    {
        proof {
            SoloGameScreen::law_skipped_exactly_when_unfinished(&*old(self), now);
        }
        let start = match self.start_time {
            Some(s) => s,
            None => now,
        };
        let n_words = match &self.text_component {
            Some(text) => text.get_n_words_correctly_typed(),
            None => 0,
        };
        let result = match self.game_mod_params {
            GameModParam::Race { .. } => GameModEndResult::Race(
                RaceData { skip: !self.done, time: now - start, n_words },
            ),
            GameModParam::Clock { .. } => GameModEndResult::Clock(
                ClockData { skip: !self.done, time: ((now - start) / 1000) as usize, n_words },
            ),
            GameModParam::Infinite => GameModEndResult::NoGame,
        };
        self.start_time = None;
        self.text_component = None;
        result
    }

    /// Whether the text can take the action without failing.
    pub open spec fn can_update(&self, action: Action) -> bool {
        self.text_component matches Some(t) ==> t.can_update(action)
    }

    /// Handles an action during the game: the first key starts the clock,
    /// the text takes the action, and a race typed without a mistake left is
    /// over: the end screen is asked for, once.
    pub fn update(&mut self, action: Action, now: u64, loaded: Option<TextSource>) -> (r: (
        Vec<Action>,
        TextUpdate,
    ))
        requires
            old(self).wf(),
            old(self).can_update(action),
        ensures
            final(self).wf(),
            final(self).start_time == start_after(old(self).start_time, action, now),
            final(self).game_mod == old(self).game_mod,
            final(self).game_mod_params == old(self).game_mod_params,
            final(self).text_component is Some == old(self).text_component is Some,
            !(action is KeyPressed || action is BackspacePressed || action is AsyncCachedRecievedData)
                ==> final(self).text_component == old(self).text_component,
            old(self).text_component is Some ==> final(self).text_component->0.updated_from(
                old(self).text_component->0,
                action,
                loaded,
                r.1,
            ),
            old(self).text_component is None ==> r.1 == (TextUpdate { word_done: false, layout_failed: false }),
            ({
                let finished_now = old(self).game_mod is Race && !old(self).done
                    && (final(self).text_component matches Some(t) && t.widget.state is Done);
                &&& final(self).done == (old(self).done || finished_now)
                &&& r.0@ == (if finished_now {
                    seq![Action::AskChangeToScreen(Screen::WinMenu)]
                } else {
                    Seq::<Action>::empty()
                })
            }),
    {
        if matches!(action, Action::KeyPressed(_)) && self.start_time.is_none() {
            self.start_time = Some(now);
        }
        let outcome = match &mut self.text_component {
            Some(text) => text.update(action, loaded),
            None => TextUpdate { word_done: false, layout_failed: false },
        };
        let mut out: Vec<Action> = Vec::new();
        if matches!(self.game_mod, GameMod::Race) {
            match &self.text_component {
                Some(text_component) => {
                    if text_component.is_done_correctly() && !self.done {
                        self.done = true;
                        out.push(Action::AskChangeToScreen(Screen::WinMenu));
                    }
                },
                None => {},
            }
        }
        (out, outcome)
    }

    /// The exact form of `can_update`, to be asked before `update`.
    pub fn check_update(&self, action: Action) -> (r: bool)
        requires
            self.wf(),
        ensures
            r == self.can_update(action),
    {
        match &self.text_component {
            Some(t) => t.check_update(action),
            None => true,
        }
    }

    /// The clock of a race or an endless game at `now`: the whole seconds
    /// since the first key, or zero before it.
    pub fn elapsed_clock(&self, now: u64) -> (r: ClockWidget)
        requires
            self.start_time matches Some(s) ==> s <= now,
        ensures
            r.duration == (match self.start_time {
                Some(s) => (now - s) / 1000,
                None => 0,
            }),
    {
        match self.start_time {
            Some(s) => ClockWidget::new((now - s) / 1000),
            None => ClockWidget::new(0),
        }
    }

    /// The clock of a clock game at `now`: the whole seconds left, or all of
    /// them before the first key. Once the time is over the game is done,
    /// the end screen is asked for, and the clock shows zero.
    pub fn clock_tick(&mut self, now: u64) -> (r: (ClockWidget, Vec<Action>))
        requires
            old(self).game_mod_params is Clock,
            old(self).start_time matches Some(s) ==> s <= now,
        ensures
            ({
                let time = old(self).game_mod_params->time as int;
                match old(self).start_time {
                    Some(s) => if (now - s) <= time * 1000 {
                        &&& r.0.duration == (time * 1000 - (now - s)) / 1000
                        &&& r.1@.len() == 0
                        &&& *final(self) == *old(self)
                    } else {
                        &&& r.0.duration == 0
                        &&& r.1@ == seq![Action::AskChangeToScreen(Screen::WinMenu)]
                        &&& *final(self) == (SoloGameScreen { done: true, ..*old(self) })
                    },
                    None => {
                        &&& r.0.duration == time
                        &&& r.1@.len() == 0
                        &&& *final(self) == *old(self)
                    },
                }
            }),
    {
        let time: usize = match self.game_mod_params {
            GameModParam::Clock { time } => time,
            _ => 0,
        };
        let mut out: Vec<Action> = Vec::new();
        match self.start_time {
            Some(s) => {
                let time_ms: u128 = (time as u128) * 1000;
                let elapsed: u128 = (now - s) as u128;
                if elapsed <= time_ms {
                    let left: u128 = (time_ms - elapsed) / 1000;
                    (ClockWidget::new(left as u64), out)
                } else {
                    self.done = true;
                    out.push(Action::AskChangeToScreen(Screen::WinMenu));
                    (ClockWidget::new(0), out)
                }
            },
            None => (ClockWidget::new(time as u64), out),
        }
    }

    /// Opening the screen starts a new game from the settings; `None` when
    /// a fresh seed was needed and could not be drawn.
    pub fn open(&mut self, settings: &mut GameSettings) -> (r: Option<GameSetup>)
        requires
            old(self).wf(),
        ensures
            final(self).wf(),
            !final(self).done,
            final(self).game_mod == old(self).game_mod,
            kept_seed(*old(settings)) is Some ==> r is Some,
            r is None ==> *final(self) == (SoloGameScreen { done: false, ..*old(self) }) && *final(settings)
                == *old(settings),
            r matches Some(setup) ==> ({
                &&& final(self).start_time is None
                &&& final(self).game_mod_params == params_of(old(self).game_mod, *old(settings))
                &&& setup.text_origin == old(settings).text_settings.text_origin
                &&& setup.filename == old(settings).text_settings.filename
                &&& setup.n_words == (match params_of(old(self).game_mod, *old(settings)) {
                    GameModParam::Race { n_words } => Some(n_words),
                    _ => None,
                })
                &&& kept_seed(*old(settings)) matches Some(k) ==> setup.seed == k && *final(settings)
                    == *old(settings)
                &&& kept_seed(*old(settings)) is None ==> *final(settings) == (GameSettings {
                    seed: Some(setup.seed),
                    ..*old(settings)
                })
            }),
    {
        self.done = false;
        self.load_settings(settings)
    }
}

} // verus!
