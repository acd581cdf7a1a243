use vstd::prelude::*;
use ratatui::layout::Constraint;
use ratatui::widgets::ListState;
use crate::action::{Action, Store};

verus! {

#[verifier::external_type_specification]
#[verifier::external_body]
pub struct ExConstraint(Constraint);

/// The selection after `ratatui::widgets::ListState::select_next`: the next
/// item, or the first one when nothing is selected (the index saturates).
pub open spec fn selection_after_next(selected: Option<usize>) -> Option<usize> {
    match selected {
        Some(i) => Some(if i == usize::MAX {
            i
        } else {
            (i + 1) as usize
        }),
        None => Some(0),
    }
}

/// The selection after `ratatui::widgets::ListState::select_previous`: the
/// previous item, or the last one (`usize::MAX`, corrected when the list is
/// drawn) when nothing is selected.
pub open spec fn selection_after_previous(selected: Option<usize>) -> Option<usize> {
    match selected {
        Some(i) => Some(if i == 0 {
            0
        } else {
            (i - 1) as usize
        }),
        None => Some(usize::MAX),
    }
}

/// `ListState::select_next` on a list state with the given selection, as
/// its source shows: `selected.map_or(0, |i| i.saturating_add(1))`.
#[verifier::external_body]
pub(crate) fn list_select_next(selected: Option<usize>) -> (r: Option<usize>)
    ensures
        r == selection_after_next(selected),
{
    let mut state = ListState::default().with_selected(selected);
    state.select_next();
    state.selected()
}

/// `ListState::select_previous` on a list state with the given selection,
/// as its source shows: `selected.map_or(usize::MAX, |i| i.saturating_sub(1))`.
#[verifier::external_body]
pub(crate) fn list_select_previous(selected: Option<usize>) -> (r: Option<usize>)
    ensures
        r == selection_after_previous(selected),
{
    let mut state = ListState::default().with_selected(selected);
    state.select_previous();
    state.selected()
}

/// An option of a menu and the action it sends.
#[derive(Clone, Debug)]
pub struct Entry {
    pub option: String,
    pub action: Action,
}

/// The entries made of options and actions paired in order (as many as the
/// shorter of the two).
pub open spec fn paired(options: Seq<String>, actions: Seq<Action>, entries: Seq<Entry>) -> bool {
    &&& entries.len() == (if options.len() < actions.len() {
        options.len()
    } else {
        actions.len()
    })
    &&& forall|i: int|
        0 <= i < entries.len() ==> (#[trigger] entries[i]).option == options[i] && entries[i].action
            == actions[i]
}

fn pair_entries(options: Vec<String>, actions: Vec<Action>) -> (r: Vec<Entry>)
    ensures
        paired(options@, actions@, r@),
{
    let n = if options.len() < actions.len() {
        options.len()
    } else {
        actions.len()
    };
    let mut entries: Vec<Entry> = Vec::new();
    let mut opts = options;
    let ghost o = opts@;
    let mut i: usize = 0;
    while i < n
        invariant
            n <= o.len(),
            n <= actions@.len(),
            i <= n,
            entries@.len() == i,
            opts@.len() == o.len(),
            forall|j: int| i <= j < o.len() ==> #[trigger] opts@[j] == o[j],
            forall|j: int|
                0 <= j < i ==> (#[trigger] entries@[j]).option == o[j] && entries@[j].action
                    == actions@[j],
        decreases n - i,
    {
        let mut taken = String::new();
        std::mem::swap(&mut taken, &mut opts[i]);
        entries.push(Entry { option: taken, action: actions[i] });
        i = i + 1;
    }
    entries
}

/// A vertical menu; `list_state` is the selected entry.
pub struct MenuListComponent {
    pub list_state: Option<usize>,
    pub entries: Vec<Entry>,
    pub title: String,
}

impl MenuListComponent {
    /// The selection names an entry (or the first place of an empty menu).
    pub open spec fn wf(&self) -> bool {
        self.list_state matches Some(i) && (i < self.entries@.len() || (self.entries@.len() == 0 && i
            == 0))
    }

    /// A menu with the options paired with their actions, the first one
    /// selected.
    pub fn new(title: String, options: Vec<String>, actions: Vec<Action>) -> (r: MenuListComponent)
        requires
            options@.len() == actions@.len(),
        ensures
            r.wf(),
            r.title == title,
            r.list_state == Some(0usize),
            paired(options@, actions@, r.entries@),
    {
        let entries = pair_entries(options, actions);
        MenuListComponent { title, list_state: Some(0), entries }
    }

    pub fn get_options(&self) -> (r: Vec<String>)
        ensures
            r@.len() == self.entries@.len(),
            forall|i: int| 0 <= i < r@.len() ==> (#[trigger] r@[i])@ == self.entries@[i].option@,
    {
        let mut r: Vec<String> = Vec::new();
        for i in 0..self.entries.len()
            invariant
                r@.len() == i,
                forall|j: int| 0 <= j < i ==> (#[trigger] r@[j])@ == self.entries@[j].option@,
        {
            r.push(self.entries[i].option.clone());
        }
        r
    }

    pub fn get_actions(&self) -> (r: Vec<Action>)
        ensures
            r@.len() == self.entries@.len(),
            forall|i: int| 0 <= i < r@.len() ==> #[trigger] r@[i] == self.entries@[i].action,
    {
        let mut r: Vec<Action> = Vec::new();
        for i in 0..self.entries.len()
            invariant
                r@.len() == i,
                forall|j: int| 0 <= j < i ==> #[trigger] r@[j] == self.entries@[j].action,
        {
            r.push(self.entries[i].action);
        }
        r
    }
}

impl Store for MenuListComponent {
    /// Down and enter need an entry.
    open spec fn update_ok(&self, action: Action) -> bool {
        &&& self.wf()
        &&& (action is DownPressed || action is EnterPressed) ==> self.entries@.len() > 0
    }

    /// Down selects the next entry unless the last one is selected, up the
    /// previous one, and enter sends the selected entry's action.
    fn update(&mut self, action: Action) -> (r: Vec<Action>)
        ensures
            final(self).wf(),
            final(self).entries == old(self).entries,
            final(self).title == old(self).title,
            action is DownPressed ==> final(self).list_state == (if old(self).list_state->0 + 1
                < old(self).entries@.len() {
                selection_after_next(old(self).list_state)
            } else {
                old(self).list_state
            }),
            action is UpPressed ==> final(self).list_state == selection_after_previous(
                old(self).list_state,
            ),
            action is EnterPressed ==> r@ == seq![old(self).entries@[old(self).list_state->0 as int].action]
                && final(self).list_state == old(self).list_state,
            !(action is EnterPressed) ==> r@.len() == 0,
            !(action is DownPressed || action is UpPressed) ==> final(self).list_state == old(self).list_state,
    {
        let mut out: Vec<Action> = Vec::new();
        match action {
            Action::DownPressed => {
                match self.list_state {
                    Some(value) => {
                        if value < self.entries.len() - 1 {
                            self.list_state = list_select_next(self.list_state);
                        }
                    },
                    None => {},
                }
            },
            Action::UpPressed => {
                self.list_state = list_select_previous(self.list_state);
            },
            Action::EnterPressed => {
                match self.list_state {
                    Some(selected) => {
                        let actions = self.get_actions();
                        out.push(actions[selected]);
                    },
                    None => {},
                }
            },
            _ => {},
        }
        out
    }
}

/// A line of a menu with several columns.
pub struct MutipleEntry {
    pub entries: Vec<Entry>,
}

impl MutipleEntry {
    pub fn new(options: Vec<String>, actions: Vec<Action>) -> (r: MutipleEntry)
        ensures
            paired(options@, actions@, r.entries@),
    {
        MutipleEntry { entries: pair_entries(options, actions) }
    }
}

/// A menu of lines with several columns: one selection for the line, one for
/// the column.
pub struct MenuMultipleListComponent {
    pub list_state_line: Option<usize>,
    pub list_state_entry: Option<usize>,
    pub entries: Vec<MutipleEntry>,
    pub constraints: Vec<Constraint>,
    pub title: String,
}

impl MenuMultipleListComponent {
    /// Every line has one entry per column.
    pub open spec fn wf(&self) -> bool {
        forall|i: int|
            0 <= i < self.entries@.len() ==> (#[trigger] self.entries@[i]).entries@.len()
                == self.constraints@.len()
    }

    pub fn new(title: String, entries: Vec<MutipleEntry>, constraints: Vec<Constraint>) -> (r:
        MenuMultipleListComponent)
        requires
            forall|i: int|
                0 <= i < entries@.len() ==> (#[trigger] entries@[i]).entries@.len() == constraints@.len(),
        ensures
            r.wf(),
            r.title == title,
            r.entries == entries,
            r.constraints == constraints,
            r.list_state_line == Some(0usize),
            r.list_state_entry == Some(0usize),
    {
        MenuMultipleListComponent {
            title,
            list_state_line: Some(0),
            list_state_entry: Some(0),
            constraints,
            entries,
        }
    }

    pub fn get_options(&self, line: usize) -> (r: Vec<String>)
        requires
            line < self.entries@.len(),
        ensures
            r@.len() == self.entries@[line as int].entries@.len(),
            forall|i: int|
                0 <= i < r@.len() ==> (#[trigger] r@[i])@ == self.entries@[line as int].entries@[i].option@,
    {
        let row = &self.entries[line].entries;
        let mut r: Vec<String> = Vec::new();
        for i in 0..row.len()
            invariant
                row == &self.entries@[line as int].entries,
                r@.len() == i,
                forall|j: int| 0 <= j < i ==> (#[trigger] r@[j])@ == row@[j].option@,
        {
            r.push(row[i].option.clone());
        }
        r
    }

    pub fn get_options_column(&self, column: usize) -> (r: Vec<String>)
        requires
            forall|i: int| 0 <= i < self.entries@.len() ==> column < (#[trigger] self.entries@[i]).entries@.len(),
        ensures
            r@.len() == self.entries@.len(),
            forall|i: int|
                0 <= i < r@.len() ==> (#[trigger] r@[i])@ == self.entries@[i].entries@[column as int].option@,
    {
        let mut r: Vec<String> = Vec::new();
        for i in 0..self.entries.len()
            invariant
                forall|k: int| 0 <= k < self.entries@.len() ==> column < (#[trigger] self.entries@[k]).entries@.len(),
                r@.len() == i,
                forall|j: int| 0 <= j < i ==> (#[trigger] r@[j])@ == self.entries@[j].entries@[column as int].option@,
        {
            r.push(self.entries[i].entries[column].option.clone());
        }
        r
    }

    pub fn get_actions(&self, line: usize) -> (r: Vec<Action>)
        requires
            line < self.entries@.len(),
        ensures
            r@.len() == self.entries@[line as int].entries@.len(),
            forall|i: int| 0 <= i < r@.len() ==> #[trigger] r@[i] == self.entries@[line as int].entries@[i].action,
    {
        let row = &self.entries[line].entries;
        let mut r: Vec<Action> = Vec::new();
        for i in 0..row.len()
            invariant
                row == &self.entries@[line as int].entries,
                r@.len() == i,
                forall|j: int| 0 <= j < i ==> #[trigger] r@[j] == row@[j].action,
        {
            r.push(row[i].action);
        }
        r
    }

    /// The column selection after right: the next column when the selected
    /// line has one there.
    pub open spec fn entry_after_right(&self) -> Option<usize> {
        match (self.list_state_line, self.list_state_entry) {
            (Some(n), Some(e)) => if self.entries@[n as int].entries@.len() > e + 1 {
                selection_after_next(self.list_state_entry)
            } else {
                self.list_state_entry
            },
            _ => self.list_state_entry,
        }
    }

    /// The column selection after left: from a column that is not the first,
    /// the one before it (the column taken modulo the line's length).
    pub open spec fn entry_after_left(&self) -> Option<usize> {
        match (self.list_state_line, self.list_state_entry) {
            (Some(n), Some(e)) => if e > 0 {
                Some((((e as int) % (self.entries@[n as int].entries@.len() as int)) - 1) as usize)
            } else {
                self.list_state_entry
            },
            _ => self.list_state_entry,
        }
    }

    /// Moves the column selection right when the line has a column there.
    pub fn try_move_cursor_right(&mut self)
        requires
            old(self).list_state_line matches Some(n) ==> n < old(self).entries@.len(),
            (old(self).list_state_line is Some && old(self).list_state_entry is Some) ==> old(self).list_state_entry->0
                < usize::MAX,
        ensures
            final(self).list_state_line == old(self).list_state_line,
            final(self).entries == old(self).entries,
            final(self).list_state_entry == old(self).entry_after_right(),
            final(self).title == old(self).title,
            final(self).constraints == old(self).constraints,
    {
        match (self.list_state_line, self.list_state_entry) {
            (Some(n_line), Some(n_entry)) => {
                if self.entries[n_line].entries.len() > n_entry + 1 {
                    self.list_state_entry = list_select_next(self.list_state_entry);
                }
            },
            _ => {},
        }
    }

    /// Moves the column selection left, from a column that is not the first.
    pub fn try_move_cursor_left(&mut self)
        requires
            old(self).list_state_line matches Some(n) ==> n < old(self).entries@.len(),
            (old(self).list_state_line is Some && old(self).list_state_entry is Some && old(self).list_state_entry->0
                > 0) ==> old(self).entries@[old(self).list_state_line->0 as int].entries@.len() > 0
                && (old(self).list_state_entry->0 as int) % (old(self).entries@[old(self).list_state_line->0 as int].entries@.len() as int)
                >= 1,
        ensures
            final(self).list_state_line == old(self).list_state_line,
            final(self).entries == old(self).entries,
            final(self).list_state_entry == old(self).entry_after_left(),
            final(self).title == old(self).title,
            final(self).constraints == old(self).constraints,
    {
        match (self.list_state_line, self.list_state_entry) {
            (Some(n_line), Some(n_entry)) => {
                if n_entry > 0 {
                    let len = self.entries[n_line].entries.len();
                    self.list_state_entry = Some((n_entry % len) - 1);
                }
            },
            _ => {},
        }
    }

    /// The action under the line and column selection (the column taken
    /// modulo the line's length); `None` when a selection is missing.
    pub fn current_selected_action(&self) -> (r: Option<Action>)
        requires
            (self.list_state_line is Some && self.list_state_entry is Some) ==> self.list_state_line->0
                < self.entries@.len() && self.entries@[self.list_state_line->0 as int].entries@.len() > 0,
        ensures
            r == (match (self.list_state_line, self.list_state_entry) {
                (Some(n), Some(e)) => Some(
                    self.entries@[n as int].entries@[((e as int) % (self.entries@[n as int].entries@.len() as int)) as int].action,
                ),
                _ => None,
            }),
    {
        match (self.list_state_line, self.list_state_entry) {
            (Some(n_line), Some(n_entry)) => {
                let len = self.entries[n_line].entries.len();
                Some(self.entries[n_line].entries[n_entry % len].action)
            },
            _ => None,
        }
    }

    /// The selection shown in column `column`: the line selection in the
    /// selected column, no selection in the others.
    pub fn get_state_list(&self, column: usize) -> (r: Option<Option<usize>>)
        ensures
            r == (match self.list_state_entry {
                Some(e) => if e == column {
                    Some(self.list_state_line)
                } else {
                    Some(Option::<usize>::None)
                },
                None => None,
            }),
    {
        match self.list_state_entry {
            Some(n_entry) => {
                if n_entry == column {
                    Some(self.list_state_line)
                } else {
                    Some(None)
                }
            },
            None => None,
        }
    }
}

impl Store for MenuMultipleListComponent {
    /// The selections must name a line and a column of it; down needs a line.
    open spec fn update_ok(&self, action: Action) -> bool {
        &&& self.list_state_line matches Some(n) ==> n < self.entries@.len()
        &&& action is DownPressed ==> (self.list_state_line is Some ==> self.entries@.len() > 0)
        &&& action is RightPressed ==> ((self.list_state_line is Some && self.list_state_entry is Some)
            ==> self.list_state_entry->0 < usize::MAX)
        &&& action is LeftPressed ==> ((self.list_state_line is Some && self.list_state_entry is Some
            && self.list_state_entry->0 > 0) ==> self.entries@[self.list_state_line->0 as int].entries@.len() > 0
            && (self.list_state_entry->0 as int) % (self.entries@[self.list_state_line->0 as int].entries@.len() as int) >= 1)
        &&& action is EnterPressed ==> (self.list_state_line is Some && self.list_state_entry is Some
            && self.entries@[self.list_state_line->0 as int].entries@.len() > 0)
    }

    /// Down and up move the line selection (down stops at the last line),
    /// right and left the column selection, and enter sends the selected
    /// action.
    fn update(&mut self, action: Action) -> (r: Vec<Action>)
        ensures
            final(self).entries == old(self).entries,
            action is EnterPressed ==> r@ == seq![
                old(self).entries@[old(self).list_state_line->0 as int].entries@[(old(self).list_state_entry->0 as int)
                    % (old(self).entries@[old(self).list_state_line->0 as int].entries@.len() as int)].action,
            ],
            !(action is EnterPressed) ==> r@.len() == 0,
            action is DownPressed ==> final(self).list_state_line == (if old(self).list_state_line matches Some(v) && v + 1
                < old(self).entries@.len() {
                selection_after_next(old(self).list_state_line)
            } else {
                old(self).list_state_line
            }),
            action is UpPressed ==> final(self).list_state_line == selection_after_previous(
                old(self).list_state_line,
            ),
            !(action is DownPressed || action is UpPressed) ==> final(self).list_state_line
                == old(self).list_state_line,
            action is RightPressed ==> final(self).list_state_entry == old(self).entry_after_right(),
            action is LeftPressed ==> final(self).list_state_entry == old(self).entry_after_left(),
            !(action is RightPressed || action is LeftPressed) ==> final(self).list_state_entry
                == old(self).list_state_entry,
            final(self).title == old(self).title,
            final(self).constraints == old(self).constraints,
    {
        let mut out: Vec<Action> = Vec::new();
        match action {
            Action::DownPressed => {
                match self.list_state_line {
                    Some(value) => {
                        if value < self.entries.len() - 1 {
                            self.list_state_line = list_select_next(self.list_state_line);
                        }
                    },
                    None => {},
                }
            },
            Action::UpPressed => {
                self.list_state_line = list_select_previous(self.list_state_line);
            },
            Action::RightPressed => self.try_move_cursor_right(),
            Action::LeftPressed => self.try_move_cursor_left(),
            Action::EnterPressed => {
                match self.current_selected_action() {
                    Some(a) => out.push(a),
                    None => {},
                }
            },
            _ => {},
        }
        out
    }
}

} // verus!
