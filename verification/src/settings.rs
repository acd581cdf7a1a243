use vstd::prelude::*;

verus! {

/// How a text taken from a file is cut to fit whole sentences.
#[derive(Clone, Copy, Debug, PartialEq, Eq, Structural)]
pub enum StartEndSentence {
    Any,
    Start,
    StartEnd,
}

impl Default for StartEndSentence {
    fn default() -> (r: Self)
        ensures
            r == StartEndSentence::Any,
    {
        StartEndSentence::Any
    }
}

/// Where in a text file the typed text begins.
#[derive(Clone, Copy, Debug, PartialEq, Eq, Structural)]
pub enum StartingPointSentence {
    Beginning,
    Random,
}

impl Default for StartingPointSentence {
    fn default() -> (r: Self)
        ensures
            r == StartingPointSentence::Beginning,
    {
        StartingPointSentence::Beginning
    }
}

} // verus!

verus! {

/// Where the text of a game comes from: words drawn from a language list,
/// or a text file cut as asked.
#[derive(Clone, Copy, Debug, PartialEq, Eq, Structural)]
pub enum TextOrigin {
    Language,
    Text { start_end_sentence: StartEndSentence, starting_point: StartingPointSentence },
}

impl Default for TextOrigin {
    fn default() -> (r: Self)
        ensures
            r == TextOrigin::Language,
    {
        TextOrigin::Language
    }
}

#[derive(Clone, Copy, Debug, PartialEq, Eq, Structural)]
pub enum OffsetText {
    Beginning,
    Random,
}

impl Default for OffsetText {
    fn default() -> (r: Self)
        ensures
            r == OffsetText::Random,
    {
        OffsetText::Random
    }
}

/// Where the text comes from and which file it is read from.
#[derive(Clone, Debug)]
pub struct TextSettings {
    pub text_origin: TextOrigin,
    pub filename: Option<String>,
}

impl TextSettings {
    /// The default text settings: words from a language list, read from the
    /// given file (found on disk by the caller, if any).
    pub fn new_default(filename: Option<String>) -> (r: TextSettings)
        ensures
            r.text_origin == TextOrigin::Language,
            r.filename == filename,
    {
        TextSettings { text_origin: TextOrigin::default(), filename }
    }
}

impl TextSettings {
    /// The file to start with: the default file when it exists in its
    /// folder, or else the first entry found by listing (none when there is
    /// no entry or the folder cannot be read). The caller looks at the disk.
    pub fn try_get_filename(default_exists: bool, default_filename: String, first_entry: Option<String>) -> (r:
        Option<String>)
        ensures
            r == (if default_exists {
                Some(default_filename)
            } else {
                first_entry
            }),
    {
        if default_exists {
            Some(default_filename)
        } else {
            first_entry
        }
    }
}

#[derive(Clone, Copy, Debug, PartialEq, Eq, Structural, Default)]
pub struct InfiniteGameSettings {}

/// The length of a clock game, in seconds.
#[derive(Clone, Copy, Debug, PartialEq, Eq, Structural)]
pub struct ClockGameSettings {
    pub time: usize,
}

impl Default for ClockGameSettings {
    fn default() -> (r: Self)
        ensures
            r.time == 30,
    {
        ClockGameSettings { time: 30 }
    }
}

/// The number of words of a race.
#[derive(Clone, Copy, Debug, PartialEq, Eq, Structural)]
pub struct RaceGameSettings {
    pub number_words: usize,
}

impl Default for RaceGameSettings {
    fn default() -> (r: Self)
        ensures
            r.number_words == 50,
    {
        RaceGameSettings { number_words: 50 }
    }
}

#[derive(Clone, Debug)]
pub struct GameSettings {
    pub keep_seed: bool,
    pub seed: Option<u64>,
    pub clock_game_settings: ClockGameSettings,
    pub race_game_settings: RaceGameSettings,
    pub infinite_game_settings: InfiniteGameSettings,
    pub text_settings: TextSettings,
}

impl GameSettings {
    /// The default game settings around the given text settings: no seed
    /// kept, 30 seconds of clock, 50 words of race.
    pub fn new_default(text_settings: TextSettings) -> (r: GameSettings)
        ensures
            !r.keep_seed,
            r.seed is None,
            r.clock_game_settings.time == 30,
            r.race_game_settings.number_words == 50,
            r.text_settings == text_settings,
    {
        GameSettings {
            keep_seed: false,
            seed: None,
            clock_game_settings: ClockGameSettings::default(),
            race_game_settings: RaceGameSettings::default(),
            infinite_game_settings: InfiniteGameSettings {},
            text_settings,
        }
    }
}

#[derive(Clone, Debug)]
pub struct Settings {
    pub game_settings: GameSettings,
}

impl Settings {
    /// The default settings around the given text settings.
    pub fn new_default(text_settings: TextSettings) -> (r: Settings)
        ensures
            !r.game_settings.keep_seed,
            r.game_settings.seed is None,
            r.game_settings.clock_game_settings.time == 30,
            r.game_settings.race_game_settings.number_words == 50,
            r.game_settings.text_settings == text_settings,
    {
        Settings { game_settings: GameSettings::new_default(text_settings) }
    }
}

} // verus!
