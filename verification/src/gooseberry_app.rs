//! The tabs, one for each kind of entry, and what the keys do to them. A key
//! changes what is on screen at once; what must reach the stored files first
//! is handed to the caller as an action, and the catalog follows once the
//! caller reports that the file was written or removed.

use vstd::prelude::*;

use crate::catalog::{Catalog, CatalogView};
use crate::entry::{
    entry_from_boxes, file_name, form_fields, form_of, merged, no_moment, GooseberryEntry,
    GooseberryEntryTrait, GooseberryEntryType,
};
use crate::errors::{Malformation, Sorry, SorryView};
use crate::record::{encode, kind_name, malformed, EntryView};
use crate::timestamp::{storable, Timestamp};
use crate::display::listing;
use crate::utility::formatting::{StyledText, StyledTextView};
use crate::utility::interactive::{
    percent_sum, InputBox, InputBoxView, InputBoxes, InputBoxesView, KeyEvent, HELP_BOX_PERCENT,
    TAB_BOX_PERCENT,
};

verus! {

/// Keyboard shortcuts in scrolling mode
pub const HELP_TEXT: &'static str =
    "< > : change tabs, ^ v : scroll\nn : new entry, e <id>[Enter] : edit entry, d <id>[Enter] : delete entry\n\\t : toggle fold\nt <id>[Enter] : toggle Task\nq : quit";

/// Keyboard shortcuts in writing mode
pub const WRITING_HELP_TEXT: &'static str =
    "Ctrl-n : next box, Ctrl-b : previous box\nCtrl-s : save, Esc : give up writing";

/// What the caller has to do to the stored files after a key.
#[derive(Debug)]
pub enum Action {
    /// Nothing.
    Nothing,
    /// End the program.
    Quit,
    /// Write `content` to the file named `file`, then report `entry` as stored.
    Store { file: String, content: String, entry: GooseberryEntry },
    /// Remove the file named `file`, then report the entry `id` as erased.
    Erase { file: String, id: u64 },
}

/// An action as a mathematical value.
pub enum ActionView {
    Nothing,
    Quit,
    Store { file: Seq<char>, content: Seq<char>, entry: EntryView },
    Erase { file: Seq<char>, id: u64 },
}

impl View for Action {
    type V = ActionView;

    open spec fn view(&self) -> ActionView {
        match self {
            Action::Nothing => ActionView::Nothing,
            Action::Quit => ActionView::Quit,
            Action::Store { file, content, entry } => ActionView::Store {
                file: file@,
                content: content@,
                entry: entry@,
            },
            Action::Erase { file, id } => ActionView::Erase { file: file@, id: *id },
        }
    }
}

/// The action that stores an entry in the file of its kind and identifier.
pub open spec fn store_action(e: EntryView) -> ActionView {
    ActionView::Store { file: file_name(e.entry_type(), e.id()), content: encode(e), entry: e }
}

/// A task with its `done` flag flipped; any other entry as it is.
pub open spec fn toggled(e: EntryView) -> EntryView {
    match e {
        EntryView::Task { id, task, description, datetime, done, tags } => EntryView::Task {
            id,
            task,
            description,
            datetime,
            done: !done,
            tags,
        },
        _ => e,
    }
}

/// The error for an entry reported as erased while the tab is in writing mode.
pub open spec fn still_writing() -> SorryView {
    SorryView::OutOfCheeseError { message: "No entry is erased while one is written"@ }
}

/// The value of a decimal digit, if `c` is one.
pub open spec fn digit_value(c: char) -> Option<u64> {
    if '0' <= c <= '9' {
        Some((c as u64 - '0' as u64) as u64)
    } else {
        None
    }
}

/// Picks an entry by the digits of its identifier, for a command given before.
#[derive(Copy, Clone, Debug, PartialEq, Eq, Structural)]
pub struct TargetPicker {
    /// the command that waits for an identifier
    pub picking_char: Option<char>,
    /// true => an identifier is being typed
    pub picking_entry: bool,
    /// the identifier typed so far
    pub selected_entry: u64,
}

impl TargetPicker {
    /// Armed exactly when a command waits; idle, the identifier is 0.
    pub open spec fn wf(self) -> bool {
        &&& self.picking_entry <==> self.picking_char is Some
        &&& !self.picking_entry ==> self.selected_entry == 0
    }

    /// The idle picker.
    pub open spec fn idle() -> TargetPicker {
        TargetPicker { picking_char: None, picking_entry: false, selected_entry: 0 }
    }

    /// The picker armed with a command, no digit typed yet.
    pub open spec fn armed(command: char) -> TargetPicker {
        TargetPicker { picking_char: Some(command), picking_entry: true, selected_entry: 0 }
    }

    /// The identifier after one more digit: the digits typed so far moved one
    /// decimal place up, plus the new digit.
    pub open spec fn appended(self, d: u64) -> int {
        self.selected_entry * 10 + d
    }

    /// The picker after the digit `d`, or the error where the identifier
    /// would not fit: idle, a digit changes nothing.
    pub open spec fn with_digit(self, d: u64) -> Result<TargetPicker, SorryView> {
        if !self.picking_entry {
            Ok(self)
        } else if self.appended(d) > u64::MAX {
            Err(malformed("ID"@, Malformation::NotANumber))
        } else {
            Ok(TargetPicker { selected_entry: self.appended(d) as u64, ..self })
        }
    }

    /// What a confirmation hands over: the command and the identifier, where
    /// the picker is armed.
    pub open spec fn picked(self) -> Option<(char, u64)> {
        match self.picking_char {
            Some(command) => Some((command, self.selected_entry)),
            None => None,
        }
    }

    /// A picker that waits for nothing.
    pub fn new() -> (r: TargetPicker)
        ensures
            r == TargetPicker::idle(),
            r.wf(),
    {
        TargetPicker { picking_char: None, picking_entry: false, selected_entry: 0 }
    }

    /// Arms the picker with a command; the identifier starts at 0.
    pub fn arm(&mut self, command: char)
        ensures
            *final(self) == TargetPicker::armed(command),
            final(self).wf(),
    {
        self.picking_char = Some(command);
        self.picking_entry = true;
        self.selected_entry = 0;
    }

    /// Takes a digit `d` (0 to 9). On an error the picker stays as it was.
    pub fn digit(&mut self, d: u64) -> (r: Result<(), Sorry>)
        requires
            d <= 9,
        ensures
            match r {
                Ok(()) => old(self).with_digit(d) == Ok::<TargetPicker, SorryView>(*final(self)),
                Err(e) => old(self).with_digit(d) == Err::<TargetPicker, SorryView>(e@) && *final(self) == *old(self),
            },
            old(self).wf() ==> final(self).wf(),
    {
        if self.picking_entry {
            if self.selected_entry > (u64::MAX - d) / 10 {
                return Err(
                    Sorry::MalformedHeaderElement {
                        element: "ID".to_owned(),
                        cause: Malformation::NotANumber,
                    },
                );
            }
            self.selected_entry = self.selected_entry * 10 + d;
        }
        Ok(())
    }

    /// Hands over the command and the identifier, where the picker is armed,
    /// and leaves the picker idle whatever it was.
    pub fn confirm(&mut self) -> (r: Option<(char, u64)>)
        ensures
            r == old(self).picked(),
            *final(self) == TargetPicker::idle(),
            final(self).wf(),
    {
        let picked = match self.picking_char {
            Some(command) => Some((command, self.selected_entry)),
            None => None,
        };
        self.picking_entry = false;
        self.selected_entry = 0;
        self.picking_char = None;
        picked
    }
}

/// A tab as a mathematical value.
pub struct TabView {
    pub title: Seq<char>,
    pub entry_type: GooseberryEntryType,
    pub fold: bool,
    pub catalog: CatalogView,
    pub is_writing: bool,
    pub input_boxes: InputBoxesView,
    pub scroll: u16,
    pub picker: TargetPicker,
    pub editing_entry: Option<EntryView>,
}

impl TabView {
    /// The parts are well formed and fit each other: the catalog and the form
    /// are those of the tab's kind, and an entry is being edited only while
    /// the tab is in writing mode, and is one of the catalog's.
    pub open spec fn wf(self) -> bool {
        &&& self.catalog.wf()
        &&& self.catalog.entry_type == self.entry_type
        &&& self.input_boxes.wf()
        &&& self.input_boxes.boxes.len() == form_fields(self.entry_type).len()
        &&& self.picker.wf()
        &&& self.editing_entry matches Some(e) ==> self.is_writing && e.entry_type()
            == self.entry_type && self.catalog.entries.contains_key(e.id())
    }

    /// The tab of a catalog, as it is when the program starts.
    pub open spec fn fresh(catalog: CatalogView) -> TabView {
        TabView {
            title: kind_name(catalog.entry_type),
            entry_type: catalog.entry_type,
            fold: false,
            catalog,
            is_writing: false,
            input_boxes: crate::entry::blank_form(catalog.entry_type),
            scroll: 0,
            picker: TargetPicker::idle(),
            editing_entry: None,
        }
    }

    /// What saving the boxes of the form asks for, at the moment `now`: an
    /// edit keeps the identifier, the moment and the `done` flag of the entry
    /// as it was; a new entry gets the next identifier and the moment `now`.
    pub open spec fn saved(self, boxes: Seq<InputBoxView>, now: Option<int>) -> Result<
        ActionView,
        SorryView,
    > {
        match now {
            None => Err(no_moment()),
            Some(t) => match self.editing_entry {
                Some(old) => match entry_from_boxes(self.entry_type, old.id(), boxes, t) {
                    Err(e) => Err(e),
                    Ok(edited) => Ok(store_action(merged(edited, old))),
                },
                None => if self.catalog.next_id == u64::MAX {
                    Err(crate::catalog::no_identifier_left())
                } else {
                    match entry_from_boxes(self.entry_type, self.catalog.next_id, boxes, t) {
                        Err(e) => Err(e),
                        Ok(entry) => Ok(store_action(entry)),
                    }
                },
            },
        }
    }

    /// The tab and the outcome after a key in writing mode: the key goes to
    /// the form; when the form ends writing, no entry is being edited any
    /// more; when it hands over its boxes, they are saved.
    pub open spec fn step_writing(self, key: KeyEvent, now: Option<int>) -> (
        TabView,
        Result<ActionView, SorryView>,
    ) {
        let (form, snapshot, stop) = self.input_boxes.step(key);
        let after = TabView {
            input_boxes: form,
            is_writing: !stop,
            editing_entry: if stop {
                None
            } else {
                self.editing_entry
            },
            ..self
        };
        match snapshot {
            None => (after, Ok(ActionView::Nothing)),
            Some(boxes) => (after, self.saved(boxes, now)),
        }
    }

    /// The outcome of a confirmed command on the entry `id`: `t` flips a task,
    /// `e` shows the entry in the form, `d` asks to erase it. On a tab of
    /// another kind than tasks, `t` does nothing.
    pub open spec fn dispatched(self, command: char, id: u64) -> (
        TabView,
        Result<ActionView, SorryView>,
    ) {
        let found = self.catalog.entries.contains_key(id);
        let missing = Err::<ActionView, SorryView>(self.catalog.missing(id));
        if command == 't' {
            if self.entry_type != GooseberryEntryType::Task {
                (self, Ok(ActionView::Nothing))
            } else if !found {
                (self, missing)
            } else {
                (self, Ok(store_action(toggled(self.catalog.entries[id]))))
            }
        } else if command == 'e' {
            if !found {
                (self, missing)
            } else {
                let entry = self.catalog.entries[id];
                (
                    TabView {
                        input_boxes: form_of(entry),
                        is_writing: true,
                        editing_entry: Some(entry),
                        ..self
                    },
                    Ok(ActionView::Nothing),
                )
            }
        } else if command == 'd' {
            if !found {
                (self, missing)
            } else {
                (self, Ok(ActionView::Erase { file: file_name(self.entry_type, id), id }))
            }
        } else {
            (self, Ok(ActionView::Nothing))
        }
    }

    /// The tab and the outcome after a key in scrolling mode.
    pub open spec fn step_scrolling(self, key: KeyEvent) -> (TabView, Result<ActionView, SorryView>) {
        let nothing = Ok::<ActionView, SorryView>(ActionView::Nothing);
        match key {
            KeyEvent::Char(c) => if c == 'n' {
                (
                    TabView {
                        is_writing: true,
                        input_boxes: self.input_boxes.cleared().focus_at(0),
                        ..self
                    },
                    nothing,
                )
            } else if c == '\t' {
                (TabView { fold: !self.fold, ..self }, nothing)
            } else if c == 't' || c == 'e' || c == 'd' {
                (TabView { picker: TargetPicker::armed(c), ..self }, nothing)
            } else if digit_value(c) is Some {
                match self.picker.with_digit(digit_value(c)->0) {
                    Ok(picker) => (TabView { picker, ..self }, nothing),
                    Err(e) => (self, Err(e)),
                }
            } else if c == '\n' {
                let idle = TabView { picker: TargetPicker::idle(), ..self };
                match self.picker.picked() {
                    Some((command, id)) => idle.dispatched(command, id),
                    None => (idle, nothing),
                }
            } else {
                (self, nothing)
            },
            KeyEvent::Down => if self.scroll < u16::MAX {
                (TabView { scroll: (self.scroll + 1) as u16, ..self }, nothing)
            } else {
                (self, nothing)
            },
            KeyEvent::Up => if self.scroll > 0 {
                (TabView { scroll: (self.scroll - 1) as u16, ..self }, nothing)
            } else {
                (self, nothing)
            },
            _ => (self, nothing),
        }
    }

    /// The tab and the outcome after a key, at the moment `now`.
    pub open spec fn step(self, key: KeyEvent, now: Option<int>) -> (
        TabView,
        Result<ActionView, SorryView>,
    ) {
        if self.is_writing {
            self.step_writing(key, now)
        } else {
            self.step_scrolling(key)
        }
    }

}

/// Tab for displaying and editing a list of entries
/// Also allows adding new ones
pub struct GooseberryTab {
    /// title of the Tab
    title: String,
    /// type of entries listed
    entry_type: GooseberryEntryType,
    /// true => hides the longer descriptions
    fold: bool,
    /// the entries, which ids to display, and the id to use when a new entry is added
    catalog: Catalog,
    /// true if Tab is in writing mode
    is_writing: bool,
    /// struct of text input boxes used in writing mode
    input_boxes: InputBoxes,
    /// scroll index for the list display
    scroll: u16,
    /// keeps track of the mode (editing/toggling task/deleting) and the ID entered
    picker: TargetPicker,
    /// if editing an entry, this stores the old entry
    editing_entry: Option<GooseberryEntry>,
}

impl View for GooseberryTab {
    type V = TabView;

    closed spec fn view(&self) -> TabView {
        TabView {
            title: self.title@,
            entry_type: self.entry_type,
            fold: self.fold,
            catalog: self.catalog@,
            is_writing: self.is_writing,
            input_boxes: self.input_boxes@,
            scroll: self.scroll,
            picker: self.picker,
            editing_entry: match self.editing_entry {
                Some(e) => Some(e@),
                None => None,
            },
        }
    }
}

/// The action that stores an entry in the file of its kind and identifier.
pub fn save_entry(entry: GooseberryEntry) -> (r: Action)
    ensures
        r@ == store_action(entry@),
{
    let file = entry.entry_type().get_file(entry.id());
    let content = entry.to_file();
    Action::Store { file, content, entry }
}

/// The value of a decimal digit, if `c` is one.
pub fn digit_of_key(c: char) -> (r: Option<u64>)
    ensures
        r == digit_value(c),
        r matches Some(d) ==> d <= 9,
{
    if '0' <= c && c <= '9' {
        Some((c as u32 - '0' as u32) as u64)
    } else {
        None
    }
}

impl GooseberryTab {
    /// The tab of the stored texts of a kind.
    pub fn from_folder(entry_type: GooseberryEntryType, contents: &Vec<String>) -> (r: Result<
        Self,
        Sorry,
    >)
        ensures
            match r {
                Ok(tab) => CatalogView::loaded(entry_type, contents.deep_view()) matches Ok(catalog)
                    && tab@ == TabView::fresh(catalog) && tab@.wf(),
                Err(e) => CatalogView::loaded(entry_type, contents.deep_view()) == Err::<
                    CatalogView,
                    SorryView,
                >(e@),
            },
    {
        let catalog = match Catalog::load(entry_type, contents) {
            Ok(catalog) => catalog,
            Err(e) => {
                return Err(e);
            },
        };
        Ok(
            GooseberryTab {
                title: entry_type.to_string(),
                entry_type,
                fold: false,
                catalog,
                is_writing: false,
                input_boxes: entry_type.get_input_boxes(),
                scroll: 0,
                picker: TargetPicker::new(),
                editing_entry: None,
            },
        )
    }

    /// Whether the tab is in writing mode.
    pub fn is_writing(&self) -> (r: bool)
        ensures
            r == self@.is_writing,
    {
        self.is_writing
    }

    /// The title of the tab.
    pub fn get_title(&self) -> (r: String)
        ensures
            r@ == self@.title,
    {
        self.title.clone()
    }

    /// Whether the longer descriptions are hidden.
    pub fn is_folded(&self) -> (r: bool)
        ensures
            r == self@.fold,
    {
        self.fold
    }

    /// The scroll index for the list display.
    pub fn get_scroll(&self) -> (r: u16)
        ensures
            r == self@.scroll,
    {
        self.scroll
    }

    /// The entries of the tab.
    pub fn get_catalog(&self) -> (r: &Catalog)
        ensures
            r@ == self@.catalog,
    {
        &self.catalog
    }

    /// The form of the tab.
    pub fn get_input_boxes(&self) -> (r: &InputBoxes)
        ensures
            r@ == self@.input_boxes,
    {
        &self.input_boxes
    }

    /// The picker of the tab.
    pub fn get_picker(&self) -> (r: TargetPicker)
        ensures
            r == self@.picker,
    {
        self.picker
    }

    /// The entry that is being edited, if one is.
    pub fn get_editing_entry(&self) -> (r: Option<&GooseberryEntry>)
        ensures
            match r {
                Some(e) => self@.editing_entry == Some(e@),
                None => self@.editing_entry is None,
            },
    {
        match &self.editing_entry {
            Some(e) => Some(e),
            None => None,
        }
    }

    /// The keyboard shortcuts of the mode that the tab is in.
    pub fn help_text(&self) -> (r: &'static str)
        ensures
            r@ == if self@.is_writing {
                WRITING_HELP_TEXT@
            } else {
                HELP_TEXT@
            },
    {
        if self.is_writing {
            WRITING_HELP_TEXT
        } else {
            HELP_TEXT
        }
    }

    /// The shares of the terminal, in percent from top to bottom, based on
    /// the mode (writing/scrolling): the tab bar, the list of entries, in
    /// writing mode the text input boxes, then the help. `None` where the
    /// boxes ask for more than there is.
    pub fn get_layout(&self) -> (r: Option<Vec<u16>>)
        ensures
            !self@.is_writing ==> (r matches Some(shares) && shares@ == seq![
                TAB_BOX_PERCENT,
                (100 - TAB_BOX_PERCENT - HELP_BOX_PERCENT) as u16,
                HELP_BOX_PERCENT,
            ]),
            self@.is_writing ==> match r {
                Some(shares) => {
                    let sum = percent_sum(self@.input_boxes.boxes);
                    &&& sum + TAB_BOX_PERCENT + HELP_BOX_PERCENT <= 100
                    &&& shares@.len() == self@.input_boxes.boxes.len() + 3
                    &&& shares@[0] == TAB_BOX_PERCENT
                    &&& shares@[1] == 100 - TAB_BOX_PERCENT - sum - HELP_BOX_PERCENT
                    &&& forall|i: int|
                        0 <= i < self@.input_boxes.boxes.len() ==> shares@[i + 2]
                            == self@.input_boxes.boxes[i].percent
                    &&& shares@.last() == HELP_BOX_PERCENT
                },
                None => percent_sum(self@.input_boxes.boxes) + TAB_BOX_PERCENT + HELP_BOX_PERCENT
                    > 100,
            },
    {
        if self.is_writing {
            self.input_boxes.get_constraints()
        } else {
            let mut shares: Vec<u16> = Vec::new();
            shares.push(TAB_BOX_PERCENT);
            shares.push(100 - TAB_BOX_PERCENT - HELP_BOX_PERCENT);
            shares.push(HELP_BOX_PERCENT);
            assert(shares@ =~= seq![
                TAB_BOX_PERCENT,
                (100 - TAB_BOX_PERCENT - HELP_BOX_PERCENT) as u16,
                HELP_BOX_PERCENT,
            ]);
            Some(shares)
        }
    }

    /// Retrieves styled texts to display: the entries in the order of their
    /// moments, in short where the tab is folded.
    pub fn get_texts(&self, terminal_width: u16) -> (r: Result<Vec<StyledText>, Sorry>)
        ensures
            ({
                let shown = listing(
                    self@.catalog.entries,
                    self@.catalog.visible_ids,
                    self@.fold,
                    terminal_width,
                );
                match r {
                    Ok(texts) => shown == Ok::<Seq<StyledTextView>, SorryView>(texts.deep_view()),
                    Err(e) => shown == Err::<Seq<StyledTextView>, SorryView>(e@),
                }
            }),
    {
        self.catalog.styled_texts(self.fold, terminal_width)
    }

    /// fold = true => short display (title, date, tags)
    /// fold = false => displays everything
    pub fn toggle_fold(&mut self)
        ensures
            final(self)@ == (TabView { fold: !old(self)@.fold, ..old(self)@ }),
    {
        self.fold = !self.fold;
    }

    /// Called when user inputs `t <id>[Enter]` in the Task tab
    /// asks to store the Task entry with its state toggled (done/not done)
    fn toggle_task_entry(&self, id: u64) -> (r: Result<Action, Sorry>)
        requires
            self@.wf(),
        ensures
            match r {
                Ok(action) => self@.dispatched('t', id).1 == Ok::<ActionView, SorryView>(action@),
                Err(e) => self@.dispatched('t', id).1 == Err::<ActionView, SorryView>(e@),
            },
    {
        if self.entry_type != GooseberryEntryType::Task {
            return Ok(Action::Nothing);
        }
        match self.catalog.get(id) {
            None => Err(Sorry::MissingEntryID { entry_type: self.entry_type, entry_id: id }),
            Some(entry) => {
                let mut changed = entry.clone();
                match &mut changed {
                    GooseberryEntry::Task(t) => {
                        t.toggle();
                    },
                    _ => {},
                }
                Ok(save_entry(changed))
            },
        }
    }

    /// Put an existing entry into text input boxes for editing
    fn start_editing(&mut self, id: u64) -> (r: Result<(), Sorry>)
        requires
            old(self)@.wf(),
            !old(self)@.is_writing,
        ensures
            final(self)@ == old(self)@.dispatched('e', id).0,
            match r {
                Ok(()) => old(self)@.dispatched('e', id).1 == Ok::<ActionView, SorryView>(
                    ActionView::Nothing,
                ),
                Err(e) => old(self)@.dispatched('e', id).1 == Err::<ActionView, SorryView>(e@),
            },
            final(self)@.wf(),
    {
        let entry = match self.catalog.get(id) {
            None => {
                return Err(Sorry::MissingEntryID { entry_type: self.entry_type, entry_id: id });
            },
            Some(entry) => entry.clone(),
        };
        self.input_boxes = entry.to_input_boxes();
        self.is_writing = true;
        self.editing_entry = Some(entry);
        Ok(())
    }

    /// Asks to erase an entry
    fn delete_entry(&self, id: u64) -> (r: Result<Action, Sorry>)
        requires
            self@.wf(),
        ensures
            match r {
                Ok(action) => self@.dispatched('d', id).1 == Ok::<ActionView, SorryView>(action@),
                Err(e) => self@.dispatched('d', id).1 == Err::<ActionView, SorryView>(e@),
            },
    {
        if !self.catalog.contains(id) {
            return Err(Sorry::MissingEntryID { entry_type: self.entry_type, entry_id: id });
        }
        Ok(Action::Erase { file: self.entry_type.get_file(id), id })
    }

    /// Get an entry from input boxes after Ctrl-s in writing mode, merge it
    /// with the entry as it was, and ask to store it
    fn merge_entry(&self, boxes: Vec<InputBox>, old_entry: &GooseberryEntry, now: Timestamp) -> (r:
        Result<Action, Sorry>)
        ensures
            match entry_from_boxes(self@.entry_type, old_entry@.id(), boxes.deep_view(), now@) {
                Err(e) => r matches Err(s) && s@ == e,
                Ok(edited) => r matches Ok(action) && action@ == store_action(
                    merged(edited, old_entry@),
                ),
            },
    {
        let id = old_entry.id();
        let mut new_entry = match GooseberryEntry::from_input_boxes_at(
            id,
            self.entry_type,
            boxes,
            now,
        ) {
            Ok(entry) => entry,
            Err(e) => {
                return Err(e);
            },
        };
        new_entry.merge_with_entry(old_entry);
        Ok(save_entry(new_entry))
    }

    /// Get an entry from input boxes after Ctrl-s in writing mode, and ask to store it
    fn add_entry(&self, boxes: Vec<InputBox>, id: u64, now: Timestamp) -> (r: Result<Action, Sorry>)
        ensures
            match entry_from_boxes(self@.entry_type, id, boxes.deep_view(), now@) {
                Err(e) => r matches Err(s) && s@ == e,
                Ok(entry) => r matches Ok(action) && action@ == store_action(entry),
            },
    {
        match GooseberryEntry::from_input_boxes_at(id, self.entry_type, boxes, now) {
            Ok(entry) => Ok(save_entry(entry)),
            Err(e) => Err(e),
        }
    }

    /// What saving the boxes asks for.
    fn save_boxes(
        &self,
        boxes: Vec<InputBox>,
        editing: Option<GooseberryEntry>,
        now: Option<Timestamp>,
    ) -> (r: Result<Action, Sorry>)
        requires
            self@.catalog.wf(),
        ensures
            ({
                let tab = TabView {
                    editing_entry: match editing {
                        Some(e) => Some(e@),
                        None => None,
                    },
                    ..self@
                };
                let moment = match now {
                    Some(t) => Some(t@),
                    None => None,
                };
                match r {
                    Ok(action) => tab.saved(boxes.deep_view(), moment) == Ok::<
                        ActionView,
                        SorryView,
                    >(action@),
                    Err(e) => tab.saved(boxes.deep_view(), moment) == Err::<ActionView, SorryView>(
                        e@,
                    ),
                }
            }),
    {
        let now = match now {
            Some(now) => now,
            None => {
                return Err(
                    Sorry::OutOfCheeseError {
                        message: "The clock gives no moment to store".to_owned(),
                    },
                );
            },
        };
        match editing {
            Some(old_entry) => self.merge_entry(boxes, &old_entry, now),
            None => {
                let id = self.catalog.next_available_id();
                if id == u64::MAX {
                    return Err(
                        Sorry::OutOfCheeseError {
                            message: "No identifier is left after this one".to_owned(),
                        },
                    );
                }
                self.add_entry(boxes, id, now)
            },
        }
    }

    /// Handles keyboard input at the moment `now`
    /// in scrolling mode:
    ///     ^ v: scrolls
    ///     n: starts writing mode
    ///     `\t`: toggles folding
    ///     e/t/d: starts ID entry mode
    ///     0-9: if in ID entry mode, adds the digit to the ID
    ///     `\n`: stops ID entry mode and executes e/t/d
    /// in writing mode the key goes to the text input boxes.
    /// The catalog stays as it is: it follows with `stored` and `erased`.
    pub fn keypress_at(&mut self, key: KeyEvent, now: Option<Timestamp>) -> (r: Result<Action, Sorry>)
        requires
            old(self)@.wf(),
        ensures
            ({
                let moment = match now {
                    Some(t) => Some(t@),
                    None => None,
                };
                &&& final(self)@ == old(self)@.step(key, moment).0
                &&& match r {
                    Ok(action) => old(self)@.step(key, moment).1 == Ok::<ActionView, SorryView>(
                        action@,
                    ),
                    Err(e) => old(self)@.step(key, moment).1 == Err::<ActionView, SorryView>(e@),
                }
            }),
            final(self)@.wf(),
            final(self)@.catalog == old(self)@.catalog,
            final(self)@.entry_type == old(self)@.entry_type,
    {
        if self.is_writing {
            let (new_entry, stop_writing) = self.input_boxes.keypress(key);
            let mut editing: Option<GooseberryEntry> = None;
            if stop_writing {
                self.is_writing = false;
                std::mem::swap(&mut editing, &mut self.editing_entry);
            }
            match new_entry {
                Some(boxes) => self.save_boxes(boxes, editing, now),
                None => Ok(Action::Nothing),
            }
        } else {
            match key {
                KeyEvent::Char(c) => {
                    if c == 'n' {
                        self.is_writing = true;
                        self.input_boxes.start_writing();
                    } else if c == '\t' {
                        self.toggle_fold();
                    } else if c == 't' || c == 'e' || c == 'd' {
                        self.picker.arm(c);
                    } else if let Some(d) = digit_of_key(c) {
                        match self.picker.digit(d) {
                            Ok(()) => {},
                            Err(e) => {
                                return Err(e);
                            },
                        }
                    } else if c == '\n' {
                        match self.picker.confirm() {
                            Some((command, id)) => {
                                if command == 't' {
                                    return self.toggle_task_entry(id);
                                } else if command == 'e' {
                                    match self.start_editing(id) {
                                        Ok(()) => {},
                                        Err(e) => {
                                            return Err(e);
                                        },
                                    }
                                } else if command == 'd' {
                                    return self.delete_entry(id);
                                }
                            },
                            None => {},
                        }
                    }
                },
                KeyEvent::Down => {
                    if self.scroll < u16::MAX {
                        self.scroll += 1;
                    }
                },
                KeyEvent::Up => {
                    if self.scroll > 0 {
                        self.scroll -= 1;
                    }
                },
                _ => {},
            }
            Ok(Action::Nothing)
        }
    }

    /// Handles keyboard input. The clock is read only for a save: the
    /// outcome is that of `keypress_at` at some moment that can be stored,
    /// or at none where the clock gives none.
    pub fn keypress(&mut self, key: KeyEvent) -> (r: Result<Action, Sorry>)
        requires
            old(self)@.wf(),
        ensures
            exists|moment: Option<int>|
                {
                    &&& moment matches Some(t) ==> storable(t)
                    &&& final(self)@ == #[trigger] old(self)@.step(key, moment).0
                    &&& match r {
                        Ok(action) => old(self)@.step(key, moment).1 == Ok::<ActionView, SorryView>(
                            action@,
                        ),
                        Err(e) => old(self)@.step(key, moment).1 == Err::<ActionView, SorryView>(
                            e@,
                        ),
                    }
                },
            final(self)@.wf(),
            final(self)@.catalog == old(self)@.catalog,
            final(self)@.entry_type == old(self)@.entry_type,
    {
        let now = match key {
            KeyEvent::Ctrl(c) => if self.is_writing && c == 's' {
                Timestamp::now()
            } else {
                None
            },
            _ => None,
        };
        let ghost moment = match now {
            Some(t) => Some(t@),
            None => None,
        };
        proof {
            if let Some(t) = now {
                use_type_invariant(t);
            }
        }
        let r = self.keypress_at(key, now);
        assert(final(self)@ == old(self)@.step(key, moment).0);
        r
    }

    /// The file of `entry` was written: the catalog takes the entry in. On
    /// an error the tab stays as it was.
    pub fn stored(&mut self, entry: GooseberryEntry) -> (r: Result<(), Sorry>)
        requires
            old(self)@.wf(),
        ensures
            match r {
                Ok(()) => old(self)@.catalog.add(entry@) matches Ok(catalog) && final(self)@ == (
                TabView { catalog, ..old(self)@ }),
                Err(e) => old(self)@.catalog.add(entry@) == Err::<CatalogView, SorryView>(e@)
                    && final(self)@ == old(self)@,
            },
            final(self)@.wf(),
    {
        self.catalog.add(entry)
    }

    /// The file of the entry `id` was removed: the catalog lets the entry
    /// go and hands it over. On an error the tab stays as it was.
    pub fn erased(&mut self, id: u64) -> (r: Result<GooseberryEntry, Sorry>)
        requires
            old(self)@.wf(),
        ensures
            match r {
                Ok(entry) => !old(self)@.is_writing && old(self)@.catalog.entries.contains_key(id)
                    && entry@ == old(self)@.catalog.entries[id] && final(self)@ == (TabView {
                    catalog: old(self)@.catalog.remove(id),
                    ..old(self)@
                }),
                Err(e) => final(self)@ == old(self)@ && if old(self)@.is_writing {
                    e@ == still_writing()
                } else {
                    !old(self)@.catalog.entries.contains_key(id) && e@ == old(self)@.catalog.missing(
                        id,
                    )
                },
            },
            final(self)@.wf(),
    {
        if self.is_writing {
            return Err(
                Sorry::OutOfCheeseError {
                    message: "No entry is erased while one is written".to_owned(),
                },
            );
        }
        self.catalog.remove(id)
    }
}

impl DeepView for GooseberryTab {
    type V = TabView;

    open spec fn deep_view(&self) -> TabView {
        self@
    }
}

/// Main application
pub struct GooseberryTabs {
    /// list of `GooseberryTab`s
    pub tabs: Vec<GooseberryTab>,
    /// index of active tab
    pub index: usize,
}

/// The tabs as a mathematical value.
pub struct TabsView {
    pub tabs: Seq<TabView>,
    pub index: int,
}

impl TabsView {
    /// There is an active tab, and every tab is well formed.
    pub open spec fn wf(self) -> bool {
        &&& 0 <= self.index < self.tabs.len()
        &&& forall|i: int| 0 <= i < self.tabs.len() ==> (#[trigger] self.tabs[i]).wf()
    }

    /// The active tab.
    pub open spec fn active(self) -> TabView {
        self.tabs[self.index]
    }

    /// The tabs with the next one active, the first after the last.
    pub open spec fn next(self) -> TabsView {
        TabsView { index: (self.index + 1) % (self.tabs.len() as int), ..self }
    }

    /// The tabs with the one before active, the last before the first.
    pub open spec fn previous(self) -> TabsView {
        TabsView {
            index: if self.index > 0 {
                self.index - 1
            } else {
                self.tabs.len() - 1
            },
            ..self
        }
    }

    /// The tabs with the active one replaced.
    pub open spec fn with_active(self, tab: TabView) -> TabsView {
        TabsView { tabs: self.tabs.update(self.index, tab), ..self }
    }

    /// The tabs and the outcome after a key, at the moment `now`. While the
    /// active tab is in writing mode every key goes to it; otherwise `q` asks
    /// to quit, the right and left arrows change the active tab, and any
    /// other key goes to the active tab.
    pub open spec fn step(self, key: KeyEvent, now: Option<int>) -> (
        TabsView,
        Result<ActionView, SorryView>,
    ) {
        let forwarded = (
            self.with_active(self.active().step(key, now).0),
            self.active().step(key, now).1,
        );
        if self.active().is_writing {
            forwarded
        } else {
            match key {
                KeyEvent::Char(c) => if c == 'q' {
                    (self, Ok(ActionView::Quit))
                } else {
                    forwarded
                },
                KeyEvent::Right => (self.next(), Ok(ActionView::Nothing)),
                KeyEvent::Left => (self.previous(), Ok(ActionView::Nothing)),
                _ => forwarded,
            }
        }
    }
}

impl View for GooseberryTabs {
    type V = TabsView;

    open spec fn view(&self) -> TabsView {
        TabsView { tabs: self.tabs.deep_view(), index: self.index as int }
    }
}

impl GooseberryTabs {
    /// Makes a tab for each kind of entry from the stored texts of that kind
    /// (the contents of the files named `<entry_type>_<entry_id>.md`): tasks,
    /// journal, research, events, the first of them active. The first kind
    /// that does not load is the error.
    pub fn from_folder(
        tasks: &Vec<String>,
        journal: &Vec<String>,
        research: &Vec<String>,
        events: &Vec<String>,
    ) -> (r: Result<Self, Sorry>)
        ensures
            match r {
                Ok(app) => {
                    &&& app@.wf()
                    &&& app@.index == 0
                    &&& app@.tabs.len() == 4
                    &&& CatalogView::loaded(GooseberryEntryType::Task, tasks.deep_view())
                        matches Ok(c) && app@.tabs[0] == TabView::fresh(c)
                    &&& CatalogView::loaded(GooseberryEntryType::Journal, journal.deep_view())
                        matches Ok(c) && app@.tabs[1] == TabView::fresh(c)
                    &&& CatalogView::loaded(GooseberryEntryType::Research, research.deep_view())
                        matches Ok(c) && app@.tabs[2] == TabView::fresh(c)
                    &&& CatalogView::loaded(GooseberryEntryType::Event, events.deep_view())
                        matches Ok(c) && app@.tabs[3] == TabView::fresh(c)
                },
                Err(e) => {
                    let first = CatalogView::loaded(GooseberryEntryType::Task, tasks.deep_view());
                    let second = CatalogView::loaded(
                        GooseberryEntryType::Journal,
                        journal.deep_view(),
                    );
                    let third = CatalogView::loaded(
                        GooseberryEntryType::Research,
                        research.deep_view(),
                    );
                    let fourth = CatalogView::loaded(GooseberryEntryType::Event, events.deep_view());
                    if first is Err {
                        first == Err::<CatalogView, SorryView>(e@)
                    } else if second is Err {
                        second == Err::<CatalogView, SorryView>(e@)
                    } else if third is Err {
                        third == Err::<CatalogView, SorryView>(e@)
                    } else {
                        fourth == Err::<CatalogView, SorryView>(e@)
                    }
                },
            },
    {
        let first = match GooseberryTab::from_folder(GooseberryEntryType::Task, tasks) {
            Ok(tab) => tab,
            Err(e) => {
                return Err(e);
            },
        };
        let second = match GooseberryTab::from_folder(GooseberryEntryType::Journal, journal) {
            Ok(tab) => tab,
            Err(e) => {
                return Err(e);
            },
        };
        let third = match GooseberryTab::from_folder(GooseberryEntryType::Research, research) {
            Ok(tab) => tab,
            Err(e) => {
                return Err(e);
            },
        };
        let fourth = match GooseberryTab::from_folder(GooseberryEntryType::Event, events) {
            Ok(tab) => tab,
            Err(e) => {
                return Err(e);
            },
        };
        let mut tabs: Vec<GooseberryTab> = Vec::new();
        tabs.push(first);
        tabs.push(second);
        tabs.push(third);
        tabs.push(fourth);
        Ok(Self { tabs, index: 0 })
    }

    /// The titles of the tabs, for the tab bar.
    pub fn titles(&self) -> (r: Vec<String>)
        ensures
            r@.len() == self@.tabs.len(),
            forall|i: int| 0 <= i < r@.len() ==> (#[trigger] r@[i])@ == self@.tabs[i].title,
    {
        let mut out: Vec<String> = Vec::new();
        let mut i: usize = 0;
        while i < self.tabs.len()
            invariant
                i <= self.tabs.len(),
                out@.len() == i,
                forall|j: int| 0 <= j < i ==> (#[trigger] out@[j])@ == self@.tabs[j].title,
            decreases self.tabs.len() - i,
        {
            out.push(self.tabs[i].get_title());
            i += 1;
        }
        out
    }

    /// Checks if the active tab is in writing mode
    pub fn is_writing(&self) -> (r: bool)
        requires
            self@.wf(),
        ensures
            r == self@.active().is_writing,
    {
        self.tabs[self.index].is_writing()
    }

    /// The active tab.
    pub fn active(&self) -> (r: &GooseberryTab)
        requires
            self@.wf(),
        ensures
            r@ == self@.active(),
    {
        &self.tabs[self.index]
    }

    /// Handle keyboard input events at the moment `now`
    /// left and right arrow keys change the active tab
    /// `q` in scrolling mode asks to quit
    /// Everything else is handled by the active tab's keypress function
    pub fn keypress_at(&mut self, key: KeyEvent, now: Option<Timestamp>) -> (r: Result<Action, Sorry>)
        requires
            old(self)@.wf(),
        ensures
            ({
                let moment = match now {
                    Some(t) => Some(t@),
                    None => None,
                };
                &&& final(self)@ == old(self)@.step(key, moment).0
                &&& match r {
                    Ok(action) => old(self)@.step(key, moment).1 == Ok::<ActionView, SorryView>(
                        action@,
                    ),
                    Err(e) => old(self)@.step(key, moment).1 == Err::<ActionView, SorryView>(e@),
                }
            }),
            final(self)@.wf(),
    {
        if !self.is_writing() {
            match key {
                KeyEvent::Char(c) => {
                    if c == 'q' {
                        return Ok(Action::Quit);
                    }
                },
                KeyEvent::Right => {
                    self.next();
                    return Ok(Action::Nothing);
                },
                KeyEvent::Left => {
                    self.previous();
                    return Ok(Action::Nothing);
                },
                _ => {},
            }
        }
        let i = self.index;
        let r = self.tabs[i].keypress_at(key, now);
        assert(self@.tabs =~= old(self)@.step(key, match now {
            Some(t) => Some(t@),
            None => None,
        }).0.tabs);
        r
    }

    /// Handle keyboard input events. The clock is read only for a save in
    /// writing mode: the outcome is that of `keypress_at` at some moment that
    /// can be stored, or at none where the clock gives none.
    pub fn keypress(&mut self, key: KeyEvent) -> (r: Result<Action, Sorry>)
        requires
            old(self)@.wf(),
        ensures
            exists|moment: Option<int>|
                {
                    &&& moment matches Some(t) ==> storable(t)
                    &&& final(self)@ == #[trigger] old(self)@.step(key, moment).0
                    &&& match r {
                        Ok(action) => old(self)@.step(key, moment).1 == Ok::<ActionView, SorryView>(
                            action@,
                        ),
                        Err(e) => old(self)@.step(key, moment).1 == Err::<ActionView, SorryView>(
                            e@,
                        ),
                    }
                },
            final(self)@.wf(),
    {
        let now = match key {
            KeyEvent::Ctrl(c) => if self.is_writing() && c == 's' {
                Timestamp::now()
            } else {
                None
            },
            _ => None,
        };
        let ghost moment = match now {
            Some(t) => Some(t@),
            None => None,
        };
        proof {
            if let Some(t) = now {
                use_type_invariant(t);
            }
        }
        let r = self.keypress_at(key, now);
        assert(final(self)@ == old(self)@.step(key, moment).0);
        r
    }

    /// The file of `entry` was written: the active tab's catalog takes the
    /// entry in. On an error the tabs stay as they were.
    pub fn stored(&mut self, entry: GooseberryEntry) -> (r: Result<(), Sorry>)
        requires
            old(self)@.wf(),
        ensures
            match r {
                Ok(()) => old(self)@.active().catalog.add(entry@) matches Ok(catalog) && final(self)@ == old(self)@.with_active(TabView { catalog, ..old(self)@.active() }),
                Err(e) => old(self)@.active().catalog.add(entry@) == Err::<CatalogView, SorryView>(
                    e@,
                ) && final(self)@ == old(self)@,
            },
            final(self)@.wf(),
    {
        let i = self.index;
        let r = self.tabs[i].stored(entry);
        proof {
            let tab = old(self)@.active();
            match r {
                Ok(()) => {
                    let catalog = tab.catalog.add(entry@)->Ok_0;
                    assert(self@.tabs =~= old(self)@.with_active(TabView { catalog, ..tab }).tabs);
                },
                Err(_) => {
                    assert(self@.tabs =~= old(self)@.tabs);
                },
            }
        }
        r
    }

    /// The file of the entry `id` was removed: the active tab's catalog lets
    /// the entry go and hands it over. On an error the tabs stay as they were.
    pub fn erased(&mut self, id: u64) -> (r: Result<GooseberryEntry, Sorry>)
        requires
            old(self)@.wf(),
        ensures
            match r {
                Ok(entry) => {
                    let tab = old(self)@.active();
                    &&& !tab.is_writing
                    &&& tab.catalog.entries.contains_key(id)
                    &&& entry@ == tab.catalog.entries[id]
                    &&& final(self)@ == old(self)@.with_active(
                        TabView { catalog: tab.catalog.remove(id), ..tab },
                    )
                },
                Err(e) => final(self)@ == old(self)@ && if old(self)@.active().is_writing {
                    e@ == still_writing()
                } else {
                    !old(self)@.active().catalog.entries.contains_key(id) && e@ == old(self)@.active().catalog.missing(id)
                },
            },
            final(self)@.wf(),
    {
        let i = self.index;
        let r = self.tabs[i].erased(id);
        proof {
            let tab = old(self)@.active();
            match r {
                Ok(_) => {
                    assert(self@.tabs =~= old(self)@.with_active(
                        TabView { catalog: tab.catalog.remove(id), ..tab },
                    ).tabs);
                },
                Err(_) => {
                    assert(self@.tabs =~= old(self)@.tabs);
                },
            }
        }
        r
    }

    /// Makes the next tab the active one (wraps around)
    pub fn next(&mut self)
        requires
            old(self)@.wf(),
        ensures
            final(self)@ == old(self)@.next(),
            final(self)@.wf(),
    {
        proof {
            let len = self.tabs.len() as int;
            if self.index + 1 < len {
                vstd::arithmetic::div_mod::lemma_small_mod((self.index + 1) as nat, len as nat);
            } else {
                vstd::arithmetic::div_mod::lemma_mod_self_0(len);
            }
        }
        self.index = if self.index + 1 < self.tabs.len() {
            self.index + 1
        } else {
            0
        };
    }

    /// Makes the tab before the active one (wraps around)
    pub fn previous(&mut self)
        requires
            old(self)@.wf(),
        ensures
            final(self)@ == old(self)@.previous(),
            final(self)@.wf(),
    {
        if self.index > 0 {
            self.index -= 1;
        } else {
            self.index = self.tabs.len() - 1;
        }
    }
}

/// Flipping a task twice gives the task as it was; and a flip changes
/// nothing but the `done` flag.
pub proof fn lemma_toggle_twice(e: EntryView)
    ensures
        toggled(toggled(e)) == e,
        toggled(e).id() == e.id(),
        toggled(e).datetime() == e.datetime(),
        toggled(e).tags() == e.tags(),
        toggled(e).body() == e.body(),
        match e {
            EntryView::Task { id, task, description, datetime, done, tags } => toggled(e) == (
            EntryView::Task { id, task, description, datetime, done: !done, tags }),
            _ => toggled(e) == e,
        },
{
}

/// An edit of an entry keeps the identifier and the moment of the entry as
/// it was, and with a task whether it is done; the texts are those of the edit.
pub proof fn lemma_merge_on_edit(edited: EntryView, old: EntryView)
    requires
        edited.entry_type() == old.entry_type(),
    ensures
        merged(edited, old).id() == old.id(),
        merged(edited, old).datetime() == old.datetime(),
        merged(edited, old).entry_type() == old.entry_type(),
        merged(edited, old).tags() == edited.tags(),
        merged(edited, old).body() == edited.body(),
        merged(edited, old).own_header().len() == edited.own_header().len(),
        match (edited, old) {
            (
                EntryView::Task { task, description, tags, .. },
                EntryView::Task { id, datetime, done, .. },
            ) => merged(edited, old) == (EntryView::Task {
                id,
                task,
                description,
                datetime,
                done,
                tags,
            }),
            _ => true,
        },
{
}

/// What a key asks to store or erase, the catalog takes once the file is
/// written or removed: the entry to store is of the tab's kind and has an
/// identifier that leaves room for a next one, and the entry to erase is in
/// the catalog of a tab that is not in writing mode.
pub proof fn lemma_action_is_accepted(tab: TabView, key: KeyEvent, now: Option<int>)
    requires
        tab.wf(),
    ensures
        tab.step(key, now).1 matches Ok(ActionView::Store { entry, .. }) ==> tab.step(
            key,
            now,
        ).0.catalog.add(entry) is Ok,
        tab.step(key, now).1 matches Ok(ActionView::Erase { id, .. }) ==> !tab.step(
            key,
            now,
        ).0.is_writing && tab.step(key, now).0.catalog.entries.contains_key(id),
        !(tab.step(key, now).1 matches Ok(ActionView::Quit)),
{
    if let Ok(ActionView::Store { entry, .. }) = tab.step(key, now).1 {
        if tab.is_writing {
            let boxes = tab.input_boxes.step(key).1->0;
            match tab.editing_entry {
                Some(old) => {
                    assert(tab.catalog.entries.contains_key(old.id()));
                },
                None => {},
            }
        } else {
            let picked = tab.picker.picked()->0;
            assert(tab.catalog.entries.contains_key(picked.1));
        }
    }
}

} // verus!
