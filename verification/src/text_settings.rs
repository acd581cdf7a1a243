use vstd::prelude::*;
use crate::action::{Action, Store};
use crate::list::{list_select_next, list_select_previous, selection_after_next, selection_after_previous};
use crate::settings::{GameSettings, StartEndSentence, StartingPointSentence, TextOrigin};

verus! {

//------------------------------------------------------------------
//    The choices of the text settings screen
//------------------------------------------------------------------

/// Whether the text is taken from a text file or drawn from a word list.
#[derive(Clone, Copy, Debug, PartialEq, Eq, Structural)]
pub enum GeneratingOption {
    Text,
    Language,
}

impl Default for GeneratingOption {
    fn default() -> (r: Self)
        ensures
            r == GeneratingOption::Text,
    {
        GeneratingOption::Text
    }
}

impl GeneratingOption {
    /// The place of the choice in its list.
    pub open spec fn pos(self) -> int {
        match self {
            GeneratingOption::Text => 0,
            GeneratingOption::Language => 1,
        }
    }

    /// The choice on the right (the last one stays).
    pub fn next(self) -> (r: Self)
        ensures
            r == GeneratingOption::Language,
    {
        match self {
            GeneratingOption::Text => GeneratingOption::Language,
            GeneratingOption::Language => GeneratingOption::Language,
        }
    }

    /// The choice on the left (the first one stays).
    pub fn previous(self) -> (r: Self)
        ensures
            r == GeneratingOption::Text,
    {
        match self {
            GeneratingOption::Text => GeneratingOption::Text,
            GeneratingOption::Language => GeneratingOption::Text,
        }
    }

    /// The names of the choices, in order.
    pub fn get_list() -> (r: [&'static str; 2])
        ensures
            r@.len() == 2,
            r@[0]@ == "Text"@,
            r@[1]@ == "Language"@,
    {
        ["Text", "Language"]
    }

    /// The selected line of the list that shows the choices.
    pub fn to_list_state(self) -> (r: usize)
        ensures
            r == self.pos(),
    {
        match self {
            GeneratingOption::Text => 0,
            GeneratingOption::Language => 1,
        }
    }
}

/// How the text is cut to sentences, as chosen on the screen.
#[derive(Clone, Copy, Debug, PartialEq, Eq, Structural)]
pub enum StartEndSentenceState {
    Any,
    Start,
    StartEnd,
}

impl Default for StartEndSentenceState {
    fn default() -> (r: Self)
        ensures
            r == StartEndSentenceState::Any,
    {
        StartEndSentenceState::Any
    }
}

impl StartEndSentenceState {
    pub open spec fn pos(self) -> int {
        match self {
            StartEndSentenceState::Any => 0,
            StartEndSentenceState::Start => 1,
            StartEndSentenceState::StartEnd => 2,
        }
    }

    /// The setting that the choice stands for.
    pub open spec fn setting(self) -> StartEndSentence {
        match self {
            StartEndSentenceState::Any => StartEndSentence::Any,
            StartEndSentenceState::Start => StartEndSentence::Start,
            StartEndSentenceState::StartEnd => StartEndSentence::StartEnd,
        }
    }

    /// The choice that stands for a setting.
    pub open spec fn of_setting(setting: StartEndSentence) -> Self {
        match setting {
            StartEndSentence::Any => StartEndSentenceState::Any,
            StartEndSentence::Start => StartEndSentenceState::Start,
            StartEndSentence::StartEnd => StartEndSentenceState::StartEnd,
        }
    }

    /// The next choice down the list (the last one stays).
    pub fn next(self) -> (r: Self)
        ensures
            r.pos() == (if self.pos() < 2 {
                self.pos() + 1
            } else {
                2
            }),
    {
        match self {
            StartEndSentenceState::Any => StartEndSentenceState::Start,
            StartEndSentenceState::Start => StartEndSentenceState::StartEnd,
            StartEndSentenceState::StartEnd => StartEndSentenceState::StartEnd,
        }
    }

    /// The choice up the list (the first one stays).
    pub fn previous(self) -> (r: Self)
        ensures
            r.pos() == (if self.pos() > 0 {
                self.pos() - 1
            } else {
                0
            }),
    {
        match self {
            StartEndSentenceState::Any => StartEndSentenceState::Any,
            StartEndSentenceState::Start => StartEndSentenceState::Any,
            StartEndSentenceState::StartEnd => StartEndSentenceState::Start,
        }
    }

    /// The selected line of the list that shows the choices.
    pub fn state(self) -> (r: usize)
        ensures
            r == self.pos(),
    {
        match self {
            StartEndSentenceState::Any => 0,
            StartEndSentenceState::Start => 1,
            StartEndSentenceState::StartEnd => 2,
        }
    }

    pub fn setting_value(self) -> (r: StartEndSentence)
        ensures
            r == self.setting(),
    {
        match self {
            StartEndSentenceState::Any => StartEndSentence::Any,
            StartEndSentenceState::Start => StartEndSentence::Start,
            StartEndSentenceState::StartEnd => StartEndSentence::StartEnd,
        }
    }

    pub fn from_setting_value(setting_value: StartEndSentence) -> (r: Self)
        ensures
            r == Self::of_setting(setting_value),
    {
        match setting_value {
            StartEndSentence::Any => StartEndSentenceState::Any,
            StartEndSentence::Start => StartEndSentenceState::Start,
            StartEndSentence::StartEnd => StartEndSentenceState::StartEnd,
        }
    }
}

/// Where the text begins, as chosen on the screen.
#[derive(Clone, Copy, Debug, PartialEq, Eq, Structural)]
pub enum StartingPointState {
    Beginning,
    Random,
}

impl Default for StartingPointState {
    fn default() -> (r: Self)
        ensures
            r == StartingPointState::Beginning,
    {
        StartingPointState::Beginning
    }
}

impl StartingPointState {
    pub open spec fn pos(self) -> int {
        match self {
            StartingPointState::Beginning => 0,
            StartingPointState::Random => 1,
        }
    }

    pub open spec fn setting(self) -> StartingPointSentence {
        match self {
            StartingPointState::Beginning => StartingPointSentence::Beginning,
            StartingPointState::Random => StartingPointSentence::Random,
        }
    }

    pub open spec fn of_setting(setting: StartingPointSentence) -> Self {
        match setting {
            StartingPointSentence::Beginning => StartingPointState::Beginning,
            StartingPointSentence::Random => StartingPointState::Random,
        }
    }

    pub fn next(self) -> (r: Self)
        ensures
            r == StartingPointState::Random,
    {
        match self {
            Self::Beginning => Self::Random,
            Self::Random => Self::Random,
        }
    }

    pub fn previous(self) -> (r: Self)
        ensures
            r == StartingPointState::Beginning,
    {
        match self {
            Self::Beginning => Self::Beginning,
            Self::Random => Self::Beginning,
        }
    }

    pub fn state(self) -> (r: usize)
        ensures
            r == self.pos(),
    {
        match self {
            StartingPointState::Beginning => 0,
            StartingPointState::Random => 1,
        }
    }

    pub fn setting_value(self) -> (r: StartingPointSentence)
        ensures
            r == self.setting(),
    {
        match self {
            Self::Beginning => StartingPointSentence::Beginning,
            Self::Random => StartingPointSentence::Random,
        }
    }

    pub fn from_setting_value(setting_value: StartingPointSentence) -> (r: Self)
        ensures
            r == Self::of_setting(setting_value),
    {
        match setting_value {
            StartingPointSentence::Beginning => StartingPointState::Beginning,
            StartingPointSentence::Random => StartingPointState::Random,
        }
    }
}

/// The number of words of a race, as chosen on the screen; `Custom` holds a
/// number read from the settings that the list does not offer.
#[derive(Clone, Copy, Debug, PartialEq, Eq, Structural)]
pub enum NumberWord {
    W10,
    W25,
    W50,
    W100,
    Custom(usize),
}

impl Default for NumberWord {
    fn default() -> (r: Self)
        ensures
            r == NumberWord::W50,
    {
        NumberWord::W50
    }
}

impl NumberWord {
    /// The place of the choice in the list (a custom number has none).
    pub open spec fn pos(self) -> int {
        match self {
            NumberWord::W10 => 0,
            NumberWord::W25 => 1,
            NumberWord::W50 => 2,
            NumberWord::W100 => 3,
            NumberWord::Custom(_) => -1,
        }
    }

    /// The number of words the choice stands for.
    pub open spec fn count(self) -> int {
        match self {
            NumberWord::W10 => 10,
            NumberWord::W25 => 25,
            NumberWord::W50 => 50,
            NumberWord::W100 => 100,
            NumberWord::Custom(n) => n as int,
        }
    }

    /// The choice that stands for a number of words.
    pub open spec fn of_value(value: usize) -> Self {
        if value == 10 {
            NumberWord::W10
        } else if value == 25 {
            NumberWord::W25
        } else if value == 50 {
            NumberWord::W50
        } else if value == 100 {
            NumberWord::W100
        } else {
            NumberWord::Custom(value)
        }
    }

    /// The next choice of the list (the last one stays).
    pub fn next(self) -> (r: Self)
        requires
            !(self is Custom),
        ensures
            !(r is Custom),
            r.pos() == (if self.pos() < 3 {
                self.pos() + 1
            } else {
                3
            }),
    {
        match self {
            NumberWord::W10 => NumberWord::W25,
            NumberWord::W25 => NumberWord::W50,
            NumberWord::W50 => NumberWord::W100,
            _ => NumberWord::W100,
        }
    }

    /// The previous choice of the list (the first one stays).
    pub fn previous(self) -> (r: Self)
        requires
            !(self is Custom),
        ensures
            !(r is Custom),
            r.pos() == (if self.pos() > 0 {
                self.pos() - 1
            } else {
                0
            }),
    {
        match self {
            NumberWord::W25 => NumberWord::W10,
            NumberWord::W50 => NumberWord::W25,
            NumberWord::W100 => NumberWord::W50,
            _ => NumberWord::W10,
        }
    }

    /// The selected line of the list that shows the choices.
    pub fn state(self) -> (r: usize)
        requires
            !(self is Custom),
        ensures
            r == self.pos(),
    {
        match self {
            NumberWord::W10 => 0,
            NumberWord::W25 => 1,
            NumberWord::W50 => 2,
            _ => 3,
        }
    }

    /// The number of words of the choice.
    pub fn value(self) -> (r: usize)
        requires
            !(self is Custom),
        ensures
            r == self.count(),
    {
        match self {
            NumberWord::W10 => 10,
            NumberWord::W25 => 25,
            NumberWord::W50 => 50,
            _ => 100,
        }
    }

    /// The names of the choices of the list, in order.
    pub fn get_list_option() -> (r: [&'static str; 4])
        ensures
            r@.len() == 4,
            r@[0]@ == "10"@,
            r@[1]@ == "25"@,
            r@[2]@ == "50"@,
            r@[3]@ == "100"@,
    {
        ["10", "25", "50", "100"]
    }

    /// The choice for a number of words: one of the list, or a custom one.
    pub fn from_value(value: usize) -> (r: Self)
        ensures
            r == Self::of_value(value),
            r.count() == value,
    {
        match value {
            10 => NumberWord::W10,
            25 => NumberWord::W25,
            50 => NumberWord::W50,
            100 => NumberWord::W100,
            _ => NumberWord::Custom(value),
        }
    }
}

/// The length of a clock game, as chosen on the screen; `Custom` holds a
/// length read from the settings that the list does not offer.
#[derive(Clone, Copy, Debug, PartialEq, Eq, Structural)]
pub enum TimeClock {
    S10,
    S20,
    S30,
    S60,
    Custom(usize),
}

impl Default for TimeClock {
    fn default() -> (r: Self)
        ensures
            r == TimeClock::S30,
    {
        TimeClock::S30
    }
}

impl TimeClock {
    pub open spec fn pos(self) -> int {
        match self {
            TimeClock::S10 => 0,
            TimeClock::S20 => 1,
            TimeClock::S30 => 2,
            TimeClock::S60 => 3,
            TimeClock::Custom(_) => -1,
        }
    }

    /// The number of seconds the choice stands for.
    pub open spec fn seconds(self) -> int {
        match self {
            TimeClock::S10 => 10,
            TimeClock::S20 => 20,
            TimeClock::S30 => 30,
            TimeClock::S60 => 60,
            TimeClock::Custom(n) => n as int,
        }
    }

    pub open spec fn of_value(value: usize) -> Self {
        if value == 10 {
            TimeClock::S10
        } else if value == 20 {
            TimeClock::S20
        } else if value == 30 {
            TimeClock::S30
        } else if value == 60 {
            TimeClock::S60
        } else {
            TimeClock::Custom(value)
        }
    }

    pub fn next(self) -> (r: Self)
        requires
            !(self is Custom),
        ensures
            !(r is Custom),
            r.pos() == (if self.pos() < 3 {
                self.pos() + 1
            } else {
                3
            }),
    {
        match self {
            TimeClock::S10 => TimeClock::S20,
            TimeClock::S20 => TimeClock::S30,
            TimeClock::S30 => TimeClock::S60,
            _ => TimeClock::S60,
        }
    }

    pub fn previous(self) -> (r: Self)
        requires
            !(self is Custom),
        ensures
            !(r is Custom),
            r.pos() == (if self.pos() > 0 {
                self.pos() - 1
            } else {
                0
            }),
    {
        match self {
            TimeClock::S20 => TimeClock::S10,
            TimeClock::S30 => TimeClock::S20,
            TimeClock::S60 => TimeClock::S30,
            _ => TimeClock::S10,
        }
    }

    pub fn state(self) -> (r: usize)
        requires
            !(self is Custom),
        ensures
            r == self.pos(),
    {
        match self {
            TimeClock::S10 => 0,
            TimeClock::S20 => 1,
            TimeClock::S30 => 2,
            _ => 3,
        }
    }

    pub fn value(self) -> (r: usize)
        requires
            !(self is Custom),
        ensures
            r == self.seconds(),
    {
        match self {
            TimeClock::S10 => 10,
            TimeClock::S20 => 20,
            TimeClock::S30 => 30,
            _ => 60,
        }
    }

    pub fn get_list_option() -> (r: [&'static str; 4])
        ensures
            r@.len() == 4,
            r@[0]@ == "10s"@,
            r@[1]@ == "20s"@,
            r@[2]@ == "30s"@,
            r@[3]@ == "60s"@,
    {
        ["10s", "20s", "30s", "60s"]
    }

    pub fn from_value(value: usize) -> (r: Self)
        ensures
            r == Self::of_value(value),
            r.seconds() == value,
    {
        match value {
            10 => TimeClock::S10,
            20 => TimeClock::S20,
            30 => TimeClock::S30,
            60 => TimeClock::S60,
            _ => TimeClock::Custom(value),
        }
    }
}

/// Reading a choice back from the number it stands for gives the choice:
/// the number of words of a race and the length of a clock game, as the
/// screen saves and reloads them.
pub proof fn law_choice_value_round_trip(w: NumberWord, t: TimeClock, n: usize)
    ensures
        !(w is Custom) ==> NumberWord::of_value(w.count() as usize) == w,
        !(t is Custom) ==> TimeClock::of_value(t.seconds() as usize) == t,
        NumberWord::of_value(n).count() == n,
        TimeClock::of_value(n).seconds() == n,
{
}

/// A fit-sentence or starting-point choice and its setting stand for each
/// other.
pub proof fn law_setting_round_trip(a: StartEndSentenceState, b: StartingPointState, x: StartEndSentence, y: StartingPointSentence)
    ensures
        StartEndSentenceState::of_setting(a.setting()) == a,
        StartEndSentenceState::of_setting(x).setting() == x,
        StartingPointState::of_setting(b.setting()) == b,
        StartingPointState::of_setting(y).setting() == y,
{
}

//------------------------------------------------------------------
//    The text settings screen
//------------------------------------------------------------------

/// The boxes of the screen, in three columns: generator over source, fit
/// sentences over starting point, race words over clock time.
#[derive(Clone, Copy, Debug, PartialEq, Eq, Structural)]
pub enum TextSettingPart {
    Generator,
    Source,
    StartEnd,
    StartingPoint,
    TimeClock,
    NumberWordsRace,
}

impl Default for TextSettingPart {
    fn default() -> (r: Self)
        ensures
            r == TextSettingPart::Generator,
    {
        TextSettingPart::Generator
    }
}

/// The arrow keys.
pub open spec fn is_arrow(action: Action) -> bool {
    action is DownPressed || action is UpPressed || action is RightPressed || action is LeftPressed
}

/// The box next to a box in the direction of an arrow, on the grid of
/// three columns (generator over source, fit sentences over starting point,
/// race words over clock time); from the third column, left leads to the fit
/// sentences box. The box itself where there is none.
pub open spec fn neighbour(part: TextSettingPart, action: Action) -> TextSettingPart {
    match (part, action) {
        (TextSettingPart::Generator, Action::DownPressed) => TextSettingPart::Source,
        (TextSettingPart::StartEnd, Action::DownPressed) => TextSettingPart::StartingPoint,
        (TextSettingPart::NumberWordsRace, Action::DownPressed) => TextSettingPart::TimeClock,
        (TextSettingPart::Source, Action::UpPressed) => TextSettingPart::Generator,
        (TextSettingPart::StartingPoint, Action::UpPressed) => TextSettingPart::StartEnd,
        (TextSettingPart::TimeClock, Action::UpPressed) => TextSettingPart::NumberWordsRace,
        (TextSettingPart::Generator, Action::RightPressed) => TextSettingPart::StartEnd,
        (TextSettingPart::Source, Action::RightPressed) => TextSettingPart::StartingPoint,
        (TextSettingPart::StartEnd, Action::RightPressed) => TextSettingPart::NumberWordsRace,
        (TextSettingPart::StartingPoint, Action::RightPressed) => TextSettingPart::TimeClock,
        (TextSettingPart::StartEnd, Action::LeftPressed) => TextSettingPart::Generator,
        (TextSettingPart::StartingPoint, Action::LeftPressed) => TextSettingPart::Source,
        (TextSettingPart::NumberWordsRace, Action::LeftPressed) => TextSettingPart::StartEnd,
        (TextSettingPart::TimeClock, Action::LeftPressed) => TextSettingPart::StartEnd,
        _ => part,
    }
}

/// The arrows that change the value of an edited box: right and left on
/// the horizontal lists (generator, race words, clock time), down and up
/// on the vertical ones.
pub open spec fn changes_value(part: TextSettingPart, action: Action) -> bool {
    match part {
        TextSettingPart::Generator | TextSettingPart::NumberWordsRace | TextSettingPart::TimeClock => action
            is RightPressed || action is LeftPressed,
        _ => action is DownPressed || action is UpPressed,
    }
}

/// Where an edited box is left for on the other arrows: its neighbour, but
/// left from the starting point leads to the generator.
pub open spec fn exit_target(part: TextSettingPart, action: Action) -> TextSettingPart {
    if part == TextSettingPart::StartingPoint && action is LeftPressed {
        TextSettingPart::Generator
    } else {
        neighbour(part, action)
    }
}

/// Where the selection and the edited box go on an arrow key or enter:
/// without an edited box an arrow moves the selection to the neighbour; in
/// an edited box the arrows that change its value keep it, and the other
/// arrows stop editing and move to the exit target; enter starts or stops
/// editing the selected box. A state where a box other than the selected
/// one is edited does not move.
pub open spec fn focus_after(
    selected: TextSettingPart,
    editing: Option<TextSettingPart>,
    action: Action,
) -> (TextSettingPart, Option<TextSettingPart>) {
    if action is EnterPressed {
        match editing {
            None => (selected, Some(selected)),
            Some(_) => (selected, None),
        }
    } else if !is_arrow(action) {
        (selected, editing)
    } else {
        match editing {
            None => (neighbour(selected, action), None),
            Some(p) => if p != selected || changes_value(p, action) {
                (selected, editing)
            } else {
                (exit_target(p, action), None)
            },
        }
    }
}

/// The selection of a source list after down: one line further while that
/// stays in the list, the first line when nothing is selected.
pub open spec fn selection_after_down(selected: Option<usize>, len: nat) -> Option<usize> {
    match selected {
        Some(i) => if i + 1 < len {
            selection_after_next(selected)
        } else {
            selected
        },
        None => Some(0),
    }
}

/// How a box of the settings screen is drawn: edited, selected, or plain.
#[derive(Clone, Copy, Debug, PartialEq, Eq, Structural)]
pub enum PartStyle {
    Editing,
    Selected,
    Plain,
}

/// The first place of a name in a list of names.
pub open spec fn is_first_place(names: Seq<String>, name: Seq<char>, i: int) -> bool {
    &&& 0 <= i < names.len()
    &&& names[i]@ == name
    &&& forall|j: int| 0 <= j < i ==> names[j]@ != name
}

/// The place of a name in a list of names, if it is there.
pub fn position_of(names: &Vec<String>, name: &String) -> (r: Option<usize>)
    ensures
        match r {
            Some(i) => is_first_place(names@, name@, i as int),
            None => forall|j: int| 0 <= j < names@.len() ==> names@[j]@ != name@,
        },
{
    let mut i: usize = 0;
    while i < names.len()
        invariant
            i <= names@.len(),
            forall|j: int| 0 <= j < i ==> names@[j]@ != name@,
        decreases names.len() - i,
    {
        if names[i] == *name {
            return Some(i);
        }
        i = i + 1;
    }
    None
}

/// The line to select in a list of sources for a wanted name: the line of
/// the name, or else of the default name, or else the first line (no line
/// is chosen while the list is not loaded).
pub open spec fn wanted_line(sources: Option<Vec<String>>, name: Seq<char>, default: Seq<char>) -> int {
    match sources {
        Some(list) => if exists|i: int| is_first_place(list@, name, i) {
            choose|i: int| is_first_place(list@, name, i)
        } else if exists|i: int| is_first_place(list@, default, i) {
            choose|i: int| is_first_place(list@, default, i)
        } else {
            0
        },
        None => 0,
    }
}

/// The screen where the text of the games is chosen: how it is generated,
/// from which file, how it is cut and where it starts, and the length of
/// races and clock games. The lists of text files and word lists are
/// `None` until they are loaded; the wanted names are the files named by
/// the settings, to be selected once the lists can be looked at.
pub struct TextSettingScreen {
    pub start_end_option: StartEndSentenceState,
    pub starting_point_option: StartingPointState,
    pub selected_part: TextSettingPart,
    pub editing_part: Option<TextSettingPart>,
    pub state_generator: GeneratingOption,
    pub texts: Option<Vec<String>>,
    pub selected_text_name: Option<String>,
    pub selected_text: Option<usize>,
    pub languages: Option<Vec<String>>,
    pub selected_language_name: Option<String>,
    pub selected_language: Option<usize>,
    pub state_number_words_race: NumberWord,
    pub state_time_clock: TimeClock,
}

/// A place that is first for a name is the only one.
proof fn lemma_first_place_unique(names: Seq<String>, name: Seq<char>, i: int, j: int)
    requires
        is_first_place(names, name, i),
        is_first_place(names, name, j),
    ensures
        i == j,
{
    if i < j {
        assert(names[i]@ != name);
    } else if j < i {
        assert(names[j]@ != name);
    }
}

/// The place of a name, or else of a default name, in a loaded list, or
/// the first line.
fn wanted_line_of(sources: &Option<Vec<String>>, name: &String, default: &String) -> (r: usize)
    ensures
        r == wanted_line(*sources, name@, default@),
{
    match sources {
        Some(list) => {
            match position_of(list, name) {
                Some(i) => {
                    proof {
                        assert(is_first_place(list@, name@, i as int));
                        let c = choose|k: int| is_first_place(list@, name@, k);
                        lemma_first_place_unique(list@, name@, i as int, c);
                    }
                    i
                },
                None => {
                    assert(!exists|k: int| is_first_place(list@, name@, k));
                    match position_of(list, default) {
                        Some(i) => {
                            proof {
                                assert(is_first_place(list@, default@, i as int));
                                let c = choose|k: int| is_first_place(list@, default@, k);
                                lemma_first_place_unique(list@, default@, i as int, c);
                            }
                            i
                        },
                        None => {
                            assert(!exists|k: int| is_first_place(list@, default@, k));
                            0
                        },
                    }
                },
            }
        },
        None => 0,
    }
}

impl TextSettingScreen {
    /// Only the selected box can be edited.
    pub open spec fn wf(&self) -> bool {
        self.editing_part is None || self.editing_part == Some(self.selected_part)
    }

    /// Whether the given box is the selected one and is being edited.
    pub open spec fn edits(&self, part: TextSettingPart) -> bool {
        self.selected_part == part && self.editing_part == Some(part)
    }

    /// The screen before the settings are read into it: the first choices
    /// selected, no list loaded yet.
    pub open spec fn initial() -> Self {
        TextSettingScreen {
            start_end_option: StartEndSentenceState::Any,
            starting_point_option: StartingPointState::Beginning,
            selected_part: TextSettingPart::Generator,
            editing_part: None,
            state_generator: GeneratingOption::Text,
            texts: None,
            selected_text_name: None,
            selected_text: Some(0),
            languages: None,
            selected_language_name: None,
            selected_language: Some(0),
            state_number_words_race: NumberWord::W50,
            state_time_clock: TimeClock::S30,
        }
    }

    /// The screen after the settings are read into it: the choices that the
    /// settings name, and the file they name wanted in both lists.
    pub open spec fn loaded_from(self, settings: GameSettings) -> Self {
        let origin = settings.text_settings.text_origin;
        TextSettingScreen {
            state_generator: match origin {
                TextOrigin::Language => GeneratingOption::Language,
                TextOrigin::Text { .. } => GeneratingOption::Text,
            },
            start_end_option: match origin {
                TextOrigin::Language => self.start_end_option,
                TextOrigin::Text { start_end_sentence, .. } => StartEndSentenceState::of_setting(
                    start_end_sentence,
                ),
            },
            starting_point_option: match origin {
                TextOrigin::Language => self.starting_point_option,
                TextOrigin::Text { starting_point, .. } => StartingPointState::of_setting(starting_point),
            },
            selected_text_name: settings.text_settings.filename,
            selected_language_name: settings.text_settings.filename,
            state_time_clock: TimeClock::of_value(settings.clock_game_settings.time),
            state_number_words_race: NumberWord::of_value(settings.race_game_settings.number_words),
            ..self
        }
    }

    /// The file selected in the list of the current generator, if that list
    /// is loaded and a line is selected.
    pub open spec fn current_filename(self) -> Option<String> {
        match self.state_generator {
            GeneratingOption::Text => match (self.selected_text, self.texts) {
                (Some(i), Some(t)) => Some(t@[i as int]),
                _ => None,
            },
            GeneratingOption::Language => match (self.selected_language, self.languages) {
                (Some(i), Some(t)) => Some(t@[i as int]),
                _ => None,
            },
        }
    }

    /// The selected line of the current generator's list is in the list,
    /// when the list is loaded.
    pub open spec fn filename_ok(self) -> bool {
        match self.state_generator {
            GeneratingOption::Text => (self.selected_text is Some && self.texts is Some)
                ==> self.selected_text->0 < self.texts->0@.len(),
            GeneratingOption::Language => (self.selected_language is Some && self.languages is Some)
                ==> self.selected_language->0 < self.languages->0@.len(),
        }
    }

    /// The choices can be written to the settings: the selected file is in
    /// its list, and both lengths are choices of the lists.
    pub open spec fn save_ok(self) -> bool {
        &&& self.filename_ok()
        &&& !(self.state_number_words_race is Custom)
        &&& !(self.state_time_clock is Custom)
    }

    /// Where the text comes from, as chosen.
    pub open spec fn origin(self) -> TextOrigin {
        match self.state_generator {
            GeneratingOption::Text => TextOrigin::Text {
                start_end_sentence: self.start_end_option.setting(),
                starting_point: self.starting_point_option.setting(),
            },
            GeneratingOption::Language => TextOrigin::Language,
        }
    }

    /// The settings with the choices of the screen written into them.
    pub open spec fn saved_into(self, settings: GameSettings) -> GameSettings {
        GameSettings {
            text_settings: crate::settings::TextSettings {
                text_origin: self.origin(),
                filename: self.current_filename(),
            },
            race_game_settings: crate::settings::RaceGameSettings {
                number_words: self.state_number_words_race.count() as usize,
            },
            clock_game_settings: crate::settings::ClockGameSettings {
                time: self.state_time_clock.seconds() as usize,
            },
            ..settings
        }
    }

    /// The screen with the choices read from the settings.
    pub fn new(settings: &GameSettings) -> (r: TextSettingScreen)
        ensures
            r == Self::initial().loaded_from(*settings),
            r.wf(),
    {
        let mut screen = TextSettingScreen {
            start_end_option: StartEndSentenceState::default(),
            starting_point_option: StartingPointState::default(),
            selected_part: TextSettingPart::default(),
            editing_part: None,
            state_generator: GeneratingOption::default(),
            texts: None,
            selected_text_name: None,
            selected_text: Some(0),
            languages: None,
            selected_language_name: None,
            selected_language: Some(0),
            state_number_words_race: NumberWord::default(),
            state_time_clock: TimeClock::default(),
        };
        screen.update_from_settings(settings);
        screen
    }

    /// How a box is drawn: as edited when it is the edited one, as selected
    /// when it is the selected one, plain otherwise.
    pub fn create_block(&self, part: TextSettingPart) -> (r: PartStyle)
        ensures
            r == (if self.editing_part == Some(part) {
                PartStyle::Editing
            } else if self.selected_part == part {
                PartStyle::Selected
            } else {
                PartStyle::Plain
            }),
    {
        let editing = match self.editing_part {
            Some(p) => p == part,
            None => false,
        };
        if editing {
            PartStyle::Editing
        } else if self.selected_part == part {
            PartStyle::Selected
        } else {
            PartStyle::Plain
        }
    }

    /// Reads the choices from the settings.
    pub fn update_from_settings(&mut self, settings: &GameSettings)
        ensures
            *final(self) == old(self).loaded_from(*settings),
    {
        match settings.text_settings.text_origin {
            TextOrigin::Language => self.state_generator = GeneratingOption::Language,
            TextOrigin::Text { start_end_sentence, starting_point } => {
                self.state_generator = GeneratingOption::Text;
                self.start_end_option = StartEndSentenceState::from_setting_value(start_end_sentence);
                self.starting_point_option = StartingPointState::from_setting_value(starting_point);
            },
        }
        self.selected_text_name = match &settings.text_settings.filename {
            Some(f) => Some(f.clone()),
            None => None,
        };
        self.selected_language_name = match &settings.text_settings.filename {
            Some(f) => Some(f.clone()),
            None => None,
        };
        self.state_time_clock = TimeClock::from_value(settings.clock_game_settings.time);
        self.state_number_words_race = NumberWord::from_value(settings.race_game_settings.number_words);
    }

    pub fn next_chosen_time(&mut self)
        requires
            !(old(self).state_time_clock is Custom),
        ensures
            *final(self) == (TextSettingScreen { state_time_clock: final(self).state_time_clock, ..*old(self) }),
            !(final(self).state_time_clock is Custom),
            final(self).state_time_clock.pos() == (if old(self).state_time_clock.pos() < 3 {
                old(self).state_time_clock.pos() + 1
            } else {
                3
            }),
    {
        self.state_time_clock = self.state_time_clock.next();
    }

    pub fn previous_chosen_time(&mut self)
        requires
            !(old(self).state_time_clock is Custom),
        ensures
            *final(self) == (TextSettingScreen { state_time_clock: final(self).state_time_clock, ..*old(self) }),
            !(final(self).state_time_clock is Custom),
            final(self).state_time_clock.pos() == (if old(self).state_time_clock.pos() > 0 {
                old(self).state_time_clock.pos() - 1
            } else {
                0
            }),
    {
        self.state_time_clock = self.state_time_clock.previous();
    }

    pub fn next_chosen_number_words(&mut self)
        requires
            !(old(self).state_number_words_race is Custom),
        ensures
            *final(self) == (TextSettingScreen {
                state_number_words_race: final(self).state_number_words_race,
                ..*old(self)
            }),
            !(final(self).state_number_words_race is Custom),
            final(self).state_number_words_race.pos() == (if old(self).state_number_words_race.pos() < 3 {
                old(self).state_number_words_race.pos() + 1
            } else {
                3
            }),
    {
        self.state_number_words_race = self.state_number_words_race.next();
    }

    pub fn previous_chosen_number_words(&mut self)
        requires
            !(old(self).state_number_words_race is Custom),
        ensures
            *final(self) == (TextSettingScreen {
                state_number_words_race: final(self).state_number_words_race,
                ..*old(self)
            }),
            !(final(self).state_number_words_race is Custom),
            final(self).state_number_words_race.pos() == (if old(self).state_number_words_race.pos() > 0 {
                old(self).state_number_words_race.pos() - 1
            } else {
                0
            }),
    {
        self.state_number_words_race = self.state_number_words_race.previous();
    }

    pub fn next_start_end(&mut self)
        ensures
            *final(self) == (TextSettingScreen { start_end_option: final(self).start_end_option, ..*old(self) }),
            final(self).start_end_option.pos() == (if old(self).start_end_option.pos() < 2 {
                old(self).start_end_option.pos() + 1
            } else {
                2
            }),
    {
        self.start_end_option = self.start_end_option.next();
    }

    pub fn previous_start_end(&mut self)
        ensures
            *final(self) == (TextSettingScreen { start_end_option: final(self).start_end_option, ..*old(self) }),
            final(self).start_end_option.pos() == (if old(self).start_end_option.pos() > 0 {
                old(self).start_end_option.pos() - 1
            } else {
                0
            }),
    {
        self.start_end_option = self.start_end_option.previous();
    }

    pub fn next_starting_point(&mut self)
        ensures
            *final(self) == (TextSettingScreen {
                starting_point_option: StartingPointState::Random,
                ..*old(self)
            }),
    {
        self.starting_point_option = self.starting_point_option.next();
    }

    pub fn previous_starting_point(&mut self)
        ensures
            *final(self) == (TextSettingScreen {
                starting_point_option: StartingPointState::Beginning,
                ..*old(self)
            }),
    {
        self.starting_point_option = self.starting_point_option.previous();
    }

    /// The file selected in the list of the current generator.
    pub fn get_current_filename(&self) -> (r: Option<String>)
        requires
            self.filename_ok(),
        ensures
            r == self.current_filename(),
    {
        match self.state_generator {
            GeneratingOption::Text => {
                match (self.selected_text, &self.texts) {
                    (Some(idx), Some(texts)) => Some(texts[idx].clone()),
                    _ => None,
                }
            },
            GeneratingOption::Language => {
                match (self.selected_language, &self.languages) {
                    (Some(idx), Some(languages)) => Some(languages[idx].clone()),
                    _ => None,
                }
            },
        }
    }

    /// Writes the choices into the settings (which the caller then saves).
    pub fn save_in_settings(&self, settings: &mut GameSettings)
        requires
            self.save_ok(),
        ensures
            *final(settings) == self.saved_into(*old(settings)),
    {
        let text_origin = match self.state_generator {
            GeneratingOption::Text => TextOrigin::Text {
                start_end_sentence: self.start_end_option.setting_value(),
                starting_point: self.starting_point_option.setting_value(),
            },
            GeneratingOption::Language => TextOrigin::Language,
        };
        let filename = self.get_current_filename();
        let time_clock = self.state_time_clock.value();
        let number_words = self.state_number_words_race.value();
        settings.text_settings.filename = filename;
        settings.text_settings.text_origin = text_origin;
        settings.race_game_settings.number_words = number_words;
        settings.clock_game_settings.time = time_clock;
    }

    /// Selects the wanted files in their lists once the lists are loaded,
    /// each by its name, or else by the default name, or else on the first
    /// line; a wanted name is then forgotten. While a list is still loading,
    /// its wanted name is kept and its selection is left as it is.
    pub fn resolve_wanted_names(&mut self, default_text: &String, default_language: &String)
        ensures
            old(self).texts is None ==> final(self).selected_text_name == old(self).selected_text_name
                && final(self).selected_text == old(self).selected_text,
            old(self).texts is Some ==> final(self).selected_text_name is None && final(self).selected_text == (
            match old(self).selected_text_name {
                Some(name) => Some(wanted_line(old(self).texts, name@, default_text@) as usize),
                None => old(self).selected_text,
            }),
            old(self).languages is None ==> final(self).selected_language_name == old(self).selected_language_name
                && final(self).selected_language == old(self).selected_language,
            old(self).languages is Some ==> final(self).selected_language_name is None
                && final(self).selected_language == (match old(self).selected_language_name {
                Some(name) => Some(wanted_line(old(self).languages, name@, default_language@) as usize),
                None => old(self).selected_language,
            }),
            *final(self) == (TextSettingScreen {
                selected_text_name: final(self).selected_text_name,
                selected_language_name: final(self).selected_language_name,
                selected_text: final(self).selected_text,
                selected_language: final(self).selected_language,
                ..*old(self)
            }),
    {
        if self.texts.is_some() {
            let text_name = self.selected_text_name.take();
            match text_name {
                Some(name) => {
                    let index = wanted_line_of(&self.texts, &name, default_text);
                    self.selected_text = Some(index);
                },
                None => {},
            }
        }
        if self.languages.is_some() {
            let language_name = self.selected_language_name.take();
            match language_name {
                Some(name) => {
                    let index = wanted_line_of(&self.languages, &name, default_language);
                    self.selected_language = Some(index);
                },
                None => {},
            }
        }
    }

    /// Opening the screen reads the settings again.
    pub fn open(&mut self, settings: &GameSettings)
        ensures
            *final(self) == old(self).loaded_from(*settings),
    {
        self.update_from_settings(settings);
    }

    /// Closing the screen writes the choices into the settings.
    pub fn close(&self, settings: &mut GameSettings)
        requires
            self.save_ok(),
        ensures
            *final(settings) == self.saved_into(*old(settings)),
    {
        self.save_in_settings(settings);
    }
}

/// Saving the choices into any settings and reading those settings back
/// gives the same choices, and wants the file that was selected.
pub proof fn law_save_then_reload(screen: TextSettingScreen, settings: GameSettings)
    requires
        screen.save_ok(),
    ensures
        ({
            let back = screen.loaded_from(screen.saved_into(settings));
            &&& back.state_generator == screen.state_generator
            &&& back.start_end_option == screen.start_end_option
            &&& back.starting_point_option == screen.starting_point_option
            &&& back.state_time_clock == screen.state_time_clock
            &&& back.state_number_words_race == screen.state_number_words_race
            &&& back.selected_text_name == screen.current_filename()
            &&& back.selected_language_name == screen.current_filename()
        }),
{
    law_choice_value_round_trip(screen.state_number_words_race, screen.state_time_clock, 0);
    law_setting_round_trip(screen.start_end_option, screen.starting_point_option, StartEndSentence::Any,
        StartingPointSentence::Beginning);
}

impl TextSettingScreen {
    /// Down in the edited source list can be taken: a loaded list with a
    /// selected line is not empty.
    pub open spec fn source_down_ok(&self) -> bool {
        match self.state_generator {
            GeneratingOption::Text => (self.texts is Some && self.selected_text is Some)
                ==> self.texts->0@.len() > 0,
            GeneratingOption::Language => (self.languages is Some && self.selected_language is Some)
                ==> self.languages->0@.len() > 0,
        }
    }

    /// Down in the edited source list of the current generator, once loaded.
    fn source_down(&mut self)
        requires
            old(self).source_down_ok(),
        ensures
            *final(self) == (TextSettingScreen {
                selected_text: final(self).selected_text,
                selected_language: final(self).selected_language,
                ..*old(self)
            }),
            final(self).selected_text == (if old(self).state_generator == GeneratingOption::Text
                && old(self).texts is Some {
                selection_after_down(old(self).selected_text, old(self).texts->0@.len())
            } else {
                old(self).selected_text
            }),
            final(self).selected_language == (if old(self).state_generator == GeneratingOption::Language
                && old(self).languages is Some {
                selection_after_down(old(self).selected_language, old(self).languages->0@.len())
            } else {
                old(self).selected_language
            }),
    {
        match self.state_generator {
            GeneratingOption::Text => {
                match &self.texts {
                    Some(sources) => {
                        match self.selected_text {
                            Some(idx) => {
                                if idx < sources.len() - 1 {
                                    self.selected_text = list_select_next(self.selected_text);
                                }
                            },
                            None => self.selected_text = Some(0),
                        }
                    },
                    None => {},
                }
            },
            GeneratingOption::Language => {
                match &self.languages {
                    Some(sources) => {
                        match self.selected_language {
                            Some(idx) => {
                                if idx < sources.len() - 1 {
                                    self.selected_language = list_select_next(self.selected_language);
                                }
                            },
                            None => self.selected_language = Some(0),
                        }
                    },
                    None => {},
                }
            },
        }
    }

    /// Up in the edited source list of the current generator, once loaded.
    fn source_up(&mut self)
        ensures
            *final(self) == (TextSettingScreen {
                selected_text: final(self).selected_text,
                selected_language: final(self).selected_language,
                ..*old(self)
            }),
            final(self).selected_text == (if old(self).state_generator == GeneratingOption::Text
                && old(self).texts is Some {
                selection_after_previous(old(self).selected_text)
            } else {
                old(self).selected_text
            }),
            final(self).selected_language == (if old(self).state_generator == GeneratingOption::Language
                && old(self).languages is Some {
                selection_after_previous(old(self).selected_language)
            } else {
                old(self).selected_language
            }),
    {
        match self.state_generator {
            GeneratingOption::Text => {
                if self.texts.is_some() {
                    self.selected_text = list_select_previous(self.selected_text);
                }
            },
            GeneratingOption::Language => {
                if self.languages.is_some() {
                    self.selected_language = list_select_previous(self.selected_language);
                }
            },
        }
    }
}

impl TextSettingScreen {
    /// The exact form of `save_ok`, to be asked before saving.
    pub fn check_save_ok(&self) -> (r: bool)
        ensures
            r == self.save_ok(),
    {
        let filename_ok = match self.state_generator {
            GeneratingOption::Text => match (self.selected_text, &self.texts) {
                (Some(i), Some(t)) => i < t.len(),
                _ => true,
            },
            GeneratingOption::Language => match (self.selected_language, &self.languages) {
                (Some(i), Some(t)) => i < t.len(),
                _ => true,
            },
        };
        let words_ok = match self.state_number_words_race {
            NumberWord::Custom(_) => false,
            _ => true,
        };
        let time_ok = match self.state_time_clock {
            TimeClock::Custom(_) => false,
            _ => true,
        };
        filename_ok && words_ok && time_ok
    }

    /// The exact form of `update_ok`, to be asked before `update`.
    pub fn check_update_ok(&self, action: Action) -> (r: bool)
        ensures
            r == self.update_ok(action),
    {
        let edits_source = match (self.selected_part, self.editing_part) {
            (TextSettingPart::Source, Some(TextSettingPart::Source)) => true,
            _ => false,
        };
        let edits_words = match (self.selected_part, self.editing_part) {
            (TextSettingPart::NumberWordsRace, Some(TextSettingPart::NumberWordsRace)) => true,
            _ => false,
        };
        let edits_time = match (self.selected_part, self.editing_part) {
            (TextSettingPart::TimeClock, Some(TextSettingPart::TimeClock)) => true,
            _ => false,
        };
        let down = match action {
            Action::DownPressed => true,
            _ => false,
        };
        let sideways = match action {
            Action::RightPressed | Action::LeftPressed => true,
            _ => false,
        };
        let source_ok = match self.state_generator {
            GeneratingOption::Text => match (&self.texts, self.selected_text) {
                (Some(t), Some(_)) => t.len() > 0,
                _ => true,
            },
            GeneratingOption::Language => match (&self.languages, self.selected_language) {
                (Some(t), Some(_)) => t.len() > 0,
                _ => true,
            },
        };
        let words_custom = match self.state_number_words_race {
            NumberWord::Custom(_) => true,
            _ => false,
        };
        let time_custom = match self.state_time_clock {
            TimeClock::Custom(_) => true,
            _ => false,
        };
        (!(down && edits_source) || source_ok) && (!(sideways && edits_words) || !words_custom) && (!(
        sideways && edits_time) || !time_custom)
    }
}

impl Store for TextSettingScreen {
    /// Down in an edited source list needs a non-empty list; changing an
    /// edited length needs a length of the list.
    open spec fn update_ok(&self, action: Action) -> bool {
        &&& (action is DownPressed && self.edits(TextSettingPart::Source)) ==> self.source_down_ok()
        &&& ((action is RightPressed || action is LeftPressed) && self.edits(TextSettingPart::NumberWordsRace))
            ==> !(self.state_number_words_race is Custom)
        &&& ((action is RightPressed || action is LeftPressed) && self.edits(TextSettingPart::TimeClock))
            ==> !(self.state_time_clock is Custom)
    }

    /// The arrows move the selection between boxes, or change the choice of
    /// the edited box (down and up in the columns' lists, right and left in
    /// the horizontal ones), or leave the edited box; enter starts or stops
    /// editing. Nothing is sent.
    fn update(&mut self, action: Action) -> (r: Vec<Action>)
        ensures
            r@.len() == 0,
            (final(self).selected_part, final(self).editing_part) == focus_after(
                old(self).selected_part,
                old(self).editing_part,
                action,
            ),
            old(self).wf() ==> final(self).wf(),
            final(self).texts == old(self).texts,
            final(self).languages == old(self).languages,
            final(self).selected_text_name == old(self).selected_text_name,
            final(self).selected_language_name == old(self).selected_language_name,
            final(self).state_generator == (if old(self).edits(TextSettingPart::Generator)
                && action is RightPressed {
                GeneratingOption::Language
            } else if old(self).edits(TextSettingPart::Generator) && action is LeftPressed {
                GeneratingOption::Text
            } else {
                old(self).state_generator
            }),
            final(self).selected_text == (if old(self).edits(TextSettingPart::Source)
                && old(self).state_generator == GeneratingOption::Text && old(self).texts is Some {
                if action is DownPressed {
                    selection_after_down(old(self).selected_text, old(self).texts->0@.len())
                } else if action is UpPressed {
                    selection_after_previous(old(self).selected_text)
                } else {
                    old(self).selected_text
                }
            } else {
                old(self).selected_text
            }),
            final(self).selected_language == (if old(self).edits(TextSettingPart::Source)
                && old(self).state_generator == GeneratingOption::Language && old(self).languages is Some {
                if action is DownPressed {
                    selection_after_down(old(self).selected_language, old(self).languages->0@.len())
                } else if action is UpPressed {
                    selection_after_previous(old(self).selected_language)
                } else {
                    old(self).selected_language
                }
            } else {
                old(self).selected_language
            }),
            (old(self).edits(TextSettingPart::StartEnd) && action is DownPressed)
                ==> final(self).start_end_option.pos() == (if old(self).start_end_option.pos() < 2 {
                old(self).start_end_option.pos() + 1
            } else {
                2
            }),
            (old(self).edits(TextSettingPart::StartEnd) && action is UpPressed)
                ==> final(self).start_end_option.pos() == (if old(self).start_end_option.pos() > 0 {
                old(self).start_end_option.pos() - 1
            } else {
                0
            }),
            !(old(self).edits(TextSettingPart::StartEnd) && (action is DownPressed || action is UpPressed))
                ==> final(self).start_end_option == old(self).start_end_option,
            final(self).starting_point_option == (if old(self).edits(TextSettingPart::StartingPoint)
                && action is DownPressed {
                StartingPointState::Random
            } else if old(self).edits(TextSettingPart::StartingPoint) && action is UpPressed {
                StartingPointState::Beginning
            } else {
                old(self).starting_point_option
            }),
            (old(self).edits(TextSettingPart::NumberWordsRace) && action is RightPressed)
                ==> final(self).state_number_words_race.pos() == (if old(self).state_number_words_race.pos()
                < 3 {
                old(self).state_number_words_race.pos() + 1
            } else {
                3
            }),
            (old(self).edits(TextSettingPart::NumberWordsRace) && action is LeftPressed)
                ==> final(self).state_number_words_race.pos() == (if old(self).state_number_words_race.pos()
                > 0 {
                old(self).state_number_words_race.pos() - 1
            } else {
                0
            }),
            !(old(self).edits(TextSettingPart::NumberWordsRace) && (action is RightPressed
                || action is LeftPressed)) ==> final(self).state_number_words_race
                == old(self).state_number_words_race,
            (old(self).edits(TextSettingPart::TimeClock) && action is RightPressed)
                ==> final(self).state_time_clock.pos() == (if old(self).state_time_clock.pos() < 3 {
                old(self).state_time_clock.pos() + 1
            } else {
                3
            }),
            (old(self).edits(TextSettingPart::TimeClock) && action is LeftPressed)
                ==> final(self).state_time_clock.pos() == (if old(self).state_time_clock.pos() > 0 {
                old(self).state_time_clock.pos() - 1
            } else {
                0
            }),
            !(old(self).edits(TextSettingPart::TimeClock) && (action is RightPressed || action is LeftPressed))
                ==> final(self).state_time_clock == old(self).state_time_clock,
    {
        match action {
            Action::DownPressed => match (self.selected_part, self.editing_part) {
                (TextSettingPart::Generator, None) => self.selected_part = TextSettingPart::Source,
                (TextSettingPart::Generator, Some(TextSettingPart::Generator)) => {
                    self.editing_part = None;
                    self.selected_part = TextSettingPart::Source;
                },
                (TextSettingPart::Source, Some(TextSettingPart::Source)) => self.source_down(),
                (TextSettingPart::StartEnd, None) => self.selected_part = TextSettingPart::StartingPoint,
                (TextSettingPart::StartEnd, Some(TextSettingPart::StartEnd)) => self.next_start_end(),
                (TextSettingPart::StartingPoint, Some(TextSettingPart::StartingPoint)) => {
                    self.next_starting_point()
                },
                (TextSettingPart::NumberWordsRace, None) => self.selected_part = TextSettingPart::TimeClock,
                (TextSettingPart::NumberWordsRace, Some(TextSettingPart::NumberWordsRace)) => {
                    self.editing_part = None;
                    self.selected_part = TextSettingPart::TimeClock;
                },
                (TextSettingPart::TimeClock, Some(TextSettingPart::TimeClock)) => self.editing_part = None,
                _ => {},
            },
            Action::UpPressed => match (self.selected_part, self.editing_part) {
                (TextSettingPart::Generator, Some(TextSettingPart::Generator)) => self.editing_part = None,
                (TextSettingPart::Source, None) => self.selected_part = TextSettingPart::Generator,
                (TextSettingPart::Source, Some(TextSettingPart::Source)) => self.source_up(),
                (TextSettingPart::StartEnd, Some(TextSettingPart::StartEnd)) => self.previous_start_end(),
                (TextSettingPart::StartingPoint, None) => self.selected_part = TextSettingPart::StartEnd,
                (TextSettingPart::StartingPoint, Some(TextSettingPart::StartingPoint)) => {
                    self.previous_starting_point()
                },
                (TextSettingPart::NumberWordsRace, Some(TextSettingPart::NumberWordsRace)) => {
                    self.editing_part = None
                },
                (TextSettingPart::TimeClock, None) => self.selected_part = TextSettingPart::NumberWordsRace,
                (TextSettingPart::TimeClock, Some(TextSettingPart::TimeClock)) => {
                    self.editing_part = None;
                    self.selected_part = TextSettingPart::NumberWordsRace;
                },
                _ => {},
            },
            Action::RightPressed => match (self.selected_part, self.editing_part) {
                (TextSettingPart::Generator, None) => self.selected_part = TextSettingPart::StartEnd,
                (TextSettingPart::Generator, Some(TextSettingPart::Generator)) => {
                    self.state_generator = self.state_generator.next()
                },
                (TextSettingPart::Source, None) => self.selected_part = TextSettingPart::StartingPoint,
                (TextSettingPart::Source, Some(TextSettingPart::Source)) => {
                    self.editing_part = None;
                    self.selected_part = TextSettingPart::StartingPoint;
                },
                (TextSettingPart::StartEnd, None) => self.selected_part = TextSettingPart::NumberWordsRace,
                (TextSettingPart::StartEnd, Some(TextSettingPart::StartEnd)) => {
                    self.selected_part = TextSettingPart::NumberWordsRace;
                    self.editing_part = None;
                },
                (TextSettingPart::StartingPoint, None) => self.selected_part = TextSettingPart::TimeClock,
                (TextSettingPart::StartingPoint, Some(TextSettingPart::StartingPoint)) => {
                    self.selected_part = TextSettingPart::TimeClock;
                    self.editing_part = None;
                },
                (TextSettingPart::NumberWordsRace, Some(TextSettingPart::NumberWordsRace)) => {
                    self.next_chosen_number_words()
                },
                (TextSettingPart::TimeClock, Some(TextSettingPart::TimeClock)) => self.next_chosen_time(),
                _ => {},
            },
            Action::LeftPressed => match (self.selected_part, self.editing_part) {
                (TextSettingPart::Generator, Some(TextSettingPart::Generator)) => {
                    self.state_generator = self.state_generator.previous()
                },
                (TextSettingPart::Source, Some(TextSettingPart::Source)) => self.editing_part = None,
                (TextSettingPart::StartEnd, None) => self.selected_part = TextSettingPart::Generator,
                (TextSettingPart::StartEnd, Some(TextSettingPart::StartEnd)) => {
                    self.editing_part = None;
                    self.selected_part = TextSettingPart::Generator;
                },
                (TextSettingPart::StartingPoint, None) => self.selected_part = TextSettingPart::Source,
                (TextSettingPart::StartingPoint, Some(TextSettingPart::StartingPoint)) => {
                    self.editing_part = None;
                    self.selected_part = TextSettingPart::Generator;
                },
                (TextSettingPart::NumberWordsRace, None) => self.selected_part = TextSettingPart::StartEnd,
                (TextSettingPart::NumberWordsRace, Some(TextSettingPart::NumberWordsRace)) => {
                    self.previous_chosen_number_words()
                },
                (TextSettingPart::TimeClock, None) => self.selected_part = TextSettingPart::StartEnd,
                (TextSettingPart::TimeClock, Some(TextSettingPart::TimeClock)) => self.previous_chosen_time(),
                _ => {},
            },
            Action::EnterPressed => match self.editing_part {
                None => self.editing_part = Some(self.selected_part),
                Some(_) => self.editing_part = None,
            },
            _ => {},
        }
        Vec::new()
    }
}

/// The column of a box on the screen: generator and source on the left,
/// fit sentences and starting point in the middle, race words and clock time
/// on the right.
pub open spec fn grid_column(p: TextSettingPart) -> int {
    match p {
        TextSettingPart::Generator | TextSettingPart::Source => 0,
        TextSettingPart::StartEnd | TextSettingPart::StartingPoint => 1,
        TextSettingPart::NumberWordsRace | TextSettingPart::TimeClock => 2,
    }
}

/// The row of a box: generator, fit sentences and race words on top.
pub open spec fn grid_row(p: TextSettingPart) -> int {
    match p {
        TextSettingPart::Generator | TextSettingPart::StartEnd | TextSettingPart::NumberWordsRace => 0,
        _ => 1,
    }
}

/// Without an edited box the arrows move the selection on the grid: right
/// to the next column in the same row, left to the previous column in the
/// same row (from the right column, to the top box of the middle one), down
/// and up within the column; an arrow with no box that way keeps the
/// selection.
pub proof fn law_arrows_follow_grid(p: TextSettingPart)
    ensures
        ({
            let right = focus_after(p, None, Action::RightPressed);
            let left = focus_after(p, None, Action::LeftPressed);
            let down = focus_after(p, None, Action::DownPressed);
            let up = focus_after(p, None, Action::UpPressed);
            &&& right.1 is None && left.1 is None && down.1 is None && up.1 is None
            &&& grid_column(p) < 2 ==> grid_column(right.0) == grid_column(p) + 1 && grid_row(right.0)
                == grid_row(p)
            &&& grid_column(p) == 2 ==> right.0 == p
            &&& grid_column(p) == 1 ==> grid_column(left.0) == 0 && grid_row(left.0) == grid_row(p)
            &&& grid_column(p) == 2 ==> grid_column(left.0) == 1 && grid_row(left.0) == 0
            &&& grid_column(p) == 0 ==> left.0 == p
            &&& grid_row(p) == 0 ==> grid_row(down.0) == 1 && grid_column(down.0) == grid_column(p)
            &&& grid_row(p) == 1 ==> down.0 == p
            &&& grid_row(p) == 1 ==> grid_row(up.0) == 0 && grid_column(up.0) == grid_column(p)
            &&& grid_row(p) == 0 ==> up.0 == p
        }),
{
}

/// Two boxes in the same place of the grid are the same box.
pub proof fn law_grid_places_are_distinct(p: TextSettingPart, q: TextSettingPart)
    ensures
        grid_column(p) == grid_column(q) && grid_row(p) == grid_row(q) ==> p == q,
{
}

/// The boxes whose choices are laid out side by side (generator, race
/// words, clock time); the others list their choices one under the other.
pub open spec fn choices_side_by_side(p: TextSettingPart) -> bool {
    p is Generator || p is NumberWordsRace || p is TimeClock
}

/// In the edited box the arrows along its choices change the choice (the
/// selection and the editing stay); the other arrows leave the box: editing
/// stops and the selection moves as it would without editing, except that
/// left from the starting point leads to the generator.
pub proof fn law_arrows_leave_edited_box(p: TextSettingPart, a: Action)
    requires
        is_arrow(a),
    ensures
        ({
            let (q, e) = focus_after(p, Some(p), a);
            let along = if choices_side_by_side(p) {
                a is RightPressed || a is LeftPressed
            } else {
                a is DownPressed || a is UpPressed
            };
            &&& along ==> q == p && e == Some(p)
            &&& !along ==> e is None && q == (if p == TextSettingPart::StartingPoint && a is LeftPressed {
                TextSettingPart::Generator
            } else {
                focus_after(p, None, a).0
            })
        }),
{
}

/// A box edited while another is selected (a state the screen never
/// reaches) does not move on arrows.
pub proof fn law_arrows_keep_stray_editing(p: TextSettingPart, q: TextSettingPart, a: Action)
    requires
        is_arrow(a),
        p != q,
    ensures
        focus_after(p, Some(q), a) == (p, Some(q)),
{
}

/// Enter starts editing the selected box and a second enter stops it: the
/// screen is back where it was.
pub proof fn law_enter_twice(selected: TextSettingPart)
    ensures
        focus_after(selected, None, Action::EnterPressed) == (selected, Some(selected)),
        focus_after(selected, Some(selected), Action::EnterPressed) == (selected, Option::<TextSettingPart>::None),
{
}

} // verus!
