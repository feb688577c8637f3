//! The kinds of entries, the entries themselves, and how they are read from
//! and written to their stored text.

use vstd::prelude::*;
use vstd::string::StringExecFns;

use crate::errors::{Malformation, Sorry, SorryView};
use crate::record::{
    closing, common_header, common_of, decode, encode, entry_of, event_of, header_of, journal_of,
    kind_name, kind_of, lemma_closing_bounds, lemma_closing_is, line_break, line_of, lookup,
    pair_break, pair_of, pairs_of, record_lines, record_text, required, research_of, sections,
    task_of, EntryView, HeaderView,
};
use crate::text::{
    chars_of, copy_strings, decimal, decimal_text, flag_string, join_from, join_text, list_items,
    list_of, list_text, parse_flag, parse_number, same_text, split_text, string_of, trimmed,
};
use crate::timestamp::{storable, Timestamp};
use crate::display::{listing, tui_long, tui_short};
use crate::utility::formatting::{
    extend_texts, line_break_text, markdown_to_styled_texts, style_people, style_short,
    StyledText, StyledTextView, TaskState, HEADER_MARK,
};
use crate::utility::interactive::{InputBox, InputBoxView, InputBoxes, InputBoxesView};

verus! {

/// The kinds of entries.
#[derive(Copy, Debug, Clone, PartialEq, Eq, Structural)]
pub enum GooseberryEntryType {
    Task,
    Research,
    Journal,
    Event,
}

/// The name of the file that stores the entry `id` of a kind:
/// `<entry_type>_<entry_id>.md`.
pub open spec fn file_name(kind: GooseberryEntryType, id: u64) -> Seq<char> {
    kind_name(kind) + "_"@ + decimal(id as nat) + ".md"@
}

impl GooseberryEntryType {
    /// The name of the file to save an entry in: `<entry_type>_<entry_id>.md`
    pub fn get_file(self, id: u64) -> (r: String)
        ensures
            r@ == file_name(self, id),
    {
        let mut name = self.to_string();
        name.append("_");
        name.append(decimal_text(id).as_str());
        name.append(".md");
        name
    }

    /// For reading the entry type from the markdown metadata
    pub fn from_str(s: &str) -> (r: Result<GooseberryEntryType, Sorry>)
        ensures
            match r {
                Ok(kind) => kind_of(s@) == Ok::<GooseberryEntryType, SorryView>(kind),
                Err(e) => kind_of(s@) == Err::<GooseberryEntryType, SorryView>(e@),
            },
    {
        let inner = trimmed(s);
        if same_text(inner.as_str(), "Task") {
            Ok(GooseberryEntryType::Task)
        } else if same_text(inner.as_str(), "Research") {
            Ok(GooseberryEntryType::Research)
        } else if same_text(inner.as_str(), "Journal") {
            Ok(GooseberryEntryType::Journal)
        } else if same_text(inner.as_str(), "Event") {
            Ok(GooseberryEntryType::Event)
        } else {
            Err(Sorry::UnknownEntryType { entry_type: s.to_owned() })
        }
    }

    /// For displaying the tabs on the Tab bar
    pub fn to_string(self) -> (r: String)
        ensures
            r@ == kind_name(self),
    {
        match self {
            GooseberryEntryType::Task => "Task".to_owned(),
            GooseberryEntryType::Journal => "Journal".to_owned(),
            GooseberryEntryType::Research => "Research".to_owned(),
            GooseberryEntryType::Event => "Event".to_owned(),
        }
    }
}

/// The key and the value of a header line, split at its first `": "`.
pub fn split_pair(line: &str) -> (r: Option<(String, String)>)
    ensures
        match r {
            Some(pair) => pair_of(line@) == Some((pair.0@, pair.1@)),
            None => pair_of(line@) is None,
        },
{
    let v = chars_of(line);
    let n = v.len();
    let mut i: usize = 0;
    while n - i >= 2
        invariant
            i <= n == v.len(),
            v@ == line@,
            pair_break(v@, 0) == pair_break(v@, i as int),
        decreases n - i,
    {
        if v[i] == ':' && v[i + 1] == ' ' {
            let key = string_of(&v, 0, i);
            let value = string_of(&v, i + 2, n);
            return Some((key, value));
        }
        i += 1;
    }
    None
}

/// The value that a header gives for `key`: that of the last line with this key.
pub fn header_get<'a>(header: &'a Vec<(String, String)>, key: &str) -> (r: Option<&'a String>)
    ensures
        match r {
            Some(value) => lookup(header.deep_view(), key@) == Some(value@),
            None => lookup(header.deep_view(), key@) is None,
        },
{
    let ghost h = header.deep_view();
    let mut i: usize = header.len();
    assert(h.take(i as int) == h);
    while i > 0
        invariant
            i <= header.len(),
            h == header.deep_view(),
            lookup(h, key@) == lookup(h.take(i as int), key@),
        decreases i,
    {
        i -= 1;
        assert(h.take(i + 1).drop_last() == h.take(i as int));
        assert(h.take(i + 1).last() == (header@[i as int].0@, header@[i as int].1@));
        if same_text(header[i].0.as_str(), key) {
            return Some(&header[i].1);
        }
    }
    None
}

/// The value of a required element, or the error that names the element.
pub fn header_require<'a>(header: &'a Vec<(String, String)>, key: &str) -> (r: Result<
    &'a String,
    Sorry,
>)
    ensures
        match r {
            Ok(value) => required(header.deep_view(), key@) == Ok::<Seq<char>, SorryView>(value@),
            Err(e) => required(header.deep_view(), key@) == Err::<Seq<char>, SorryView>(e@),
        },
{
    match header_get(header, key) {
        Some(value) => Ok(value),
        None => Err(Sorry::MissingHeaderElement { element: key.to_owned() }),
    }
}

/// Reads metadata from markdown: the header that the lines begin with, and
/// the index of the first line after it.
pub fn consume_markdown_header(lines: &Vec<String>) -> (r: Result<
    (Vec<(String, String)>, usize),
    Sorry,
>)
    ensures
        match r {
            Ok((header, next)) => header_of(lines.deep_view()) == Ok::<
                (HeaderView, int),
                SorryView,
            >((header.deep_view(), next as int)) && next <= lines.len(),
            Err(e) => header_of(lines.deep_view()) == Err::<(HeaderView, int), SorryView>(e@),
        },
{
    let ghost all = lines.deep_view();
    let n = lines.len();
    if n == 0 || !same_text(lines[0].as_str(), HEADER_MARK) {
        assert(n > 0 ==> all[0] == lines@[0]@);
        return Err(Sorry::MissingHeader);
    }
    assert(all[0] == lines@[0]@);
    let mut k: usize = 1;
    while k < n && !same_text(lines[k].as_str(), HEADER_MARK)
        invariant
            1 <= k <= n == lines.len(),
            all == lines.deep_view(),
            forall|j: int| 1 <= j < k ==> all[j] != HEADER_MARK@,
        decreases n - k,
    {
        assert(all[k as int] == lines@[k as int]@);
        k += 1;
    }
    proof {
        lemma_closing_bounds(all, 1);
        if k < n {
            assert(all[k as int] == lines@[k as int]@);
            lemma_closing_is(all, 1, k as int);
        }
    }
    if k == n {
        return Err(Sorry::MissingHeader);
    }
    let ghost inner = all.subrange(1, k as int);
    let mut header: Vec<(String, String)> = Vec::new();
    let mut i: usize = 1;
    assert(inner.take(0) =~= Seq::<Seq<char>>::empty());
    assert(header.deep_view() =~= Seq::<(Seq<char>, Seq<char>)>::empty());
    while i < k
        invariant
            1 <= i <= k < n == lines.len(),
            all == lines.deep_view(),
            inner == all.subrange(1, k as int),
            pairs_of(inner.take(i - 1)) == Ok::<HeaderView, SorryView>(header.deep_view()),
            closing(all, 1) == k,
            all[0] == HEADER_MARK@,
        decreases k - i,
    {
        proof {
            assert(inner.take(i as int).drop_last() == inner.take(i - 1));
            assert(inner.take(i as int).last() == lines@[i as int]@);
        }
        match split_pair(lines[i].as_str()) {
            None => {
                proof {
                    lemma_pairs_of_error(inner, i as int);
                }
                return Err(
                    Sorry::MalformedHeaderElement {
                        element: lines[i].clone(),
                        cause: Malformation::NoSeparator,
                    },
                );
            },
            Some(pair) => {
                let ghost before = header.deep_view();
                let ghost p = (pair.0@, pair.1@);
                header.push(pair);
                assert(header.deep_view() =~= before.push(p));
            },
        }
        i += 1;
    }
    assert(inner.take(k - 1) == inner);
    Ok((header, k + 1))
}

/// An error among the first lines is the error of all the lines.
pub proof fn lemma_pairs_of_error(lines: Seq<Seq<char>>, k: int)
    requires
        0 <= k <= lines.len(),
        pairs_of(lines.take(k)) is Err,
    ensures
        pairs_of(lines) == pairs_of(lines.take(k)),
    decreases lines.len() - k,
{
    if k < lines.len() {
        assert(lines.take(k + 1).drop_last() == lines.take(k));
        lemma_pairs_of_error(lines, k + 1);
    } else {
        assert(lines.take(k) == lines);
    }
}

/// Splits the content of a markdown file into the metadata and the content
pub fn get_header_lines(content: &str) -> (r: Result<(Vec<(String, String)>, String), Sorry>)
    ensures
        match r {
            Ok((header, body)) => sections(content@) == Ok::<(HeaderView, Seq<char>), SorryView>(
                (header.deep_view(), body@),
            ),
            Err(e) => sections(content@) == Err::<(HeaderView, Seq<char>), SorryView>(e@),
        },
{
    let lines = split_text(content, '\n');
    match consume_markdown_header(&lines) {
        Err(e) => Err(e),
        Ok((header, next)) => {
            proof {
                reveal_strlit("\n");
                assert("\n"@ =~= line_break());
            }
            let body = join_from(&lines, next, "\n");
            Ok((header, body))
        },
    }
}

/// The header line of a key and a value.
pub fn pair_line(key: &str, value: &str) -> (r: String)
    ensures
        r@ == line_of((key@, value@)),
{
    proof {
        reveal_strlit(": ");
        assert(": "@ =~= seq![':', ' ']);
    }
    let mut line = key.to_owned();
    line.append(": ");
    line.append(value);
    line
}

/// The stored text of a header and a body.
pub fn write_record(header: &Vec<(String, String)>, body: &str) -> (r: String)
    ensures
        r@ == record_text(header.deep_view(), body@),
{
    let ghost h = header.deep_view();
    let ghost written = h.map_values(|p: (Seq<char>, Seq<char>)| line_of(p));
    let mut lines: Vec<String> = Vec::new();
    lines.push(HEADER_MARK.to_owned());
    assert(lines.deep_view() =~= seq![HEADER_MARK@] + written.take(0));
    let mut i: usize = 0;
    while i < header.len()
        invariant
            i <= header.len(),
            h == header.deep_view(),
            written == h.map_values(|p: (Seq<char>, Seq<char>)| line_of(p)),
            lines.deep_view() == seq![HEADER_MARK@] + written.take(i as int),
        decreases header.len() - i,
    {
        let ghost before = lines.deep_view();
        let line = pair_line(header[i].0.as_str(), header[i].1.as_str());
        lines.push(line);
        assert(h[i as int] == (header@[i as int].0@, header@[i as int].1@));
        assert(lines.deep_view() =~= before.push(line@));
        i += 1;
        assert(lines.deep_view() =~= seq![HEADER_MARK@] + written.take(i as int));
    }
    assert(written.take(i as int) == written);
    let ghost before = lines.deep_view();
    lines.push(HEADER_MARK.to_owned());
    let ghost middle = lines.deep_view();
    assert(middle =~= before.push(HEADER_MARK@));
    lines.push(body.to_owned());
    assert(lines.deep_view() =~= middle.push(body@));
    assert(lines.deep_view() =~= record_lines(h, body@));
    proof {
        reveal_strlit("\n");
        assert("\n"@ =~= line_break());
    }
    join_text(&lines, "\n")
}

/// Gets the ID, DateTime, and tags from a markdown header
pub fn get_id_datetime_tags(header: &Vec<(String, String)>) -> (r: Result<
    (u64, Timestamp, Vec<String>),
    Sorry,
>)
    ensures
        match r {
            Ok((id, datetime, tags)) => common_of(header.deep_view()) == Ok::<
                (u64, int, Seq<Seq<char>>),
                SorryView,
            >((id, datetime@, tags.deep_view())),
            Err(e) => common_of(header.deep_view()) == Err::<
                (u64, int, Seq<Seq<char>>),
                SorryView,
            >(e@),
        },
{
    let id_text = match header_require(header, "ID") {
        Ok(value) => value,
        Err(e) => {
            return Err(e);
        },
    };
    let id = match parse_number(id_text.as_str()) {
        Some(id) => id,
        None => {
            return Err(
                Sorry::MalformedHeaderElement {
                    element: "ID".to_owned(),
                    cause: Malformation::NotANumber,
                },
            );
        },
    };
    let stamp = match header_require(header, "DateTime") {
        Ok(value) => value,
        Err(e) => {
            return Err(e);
        },
    };
    let datetime = match Timestamp::parse(stamp.as_str()) {
        Some(datetime) => datetime,
        None => {
            return Err(
                Sorry::MalformedHeaderElement {
                    element: "DateTime".to_owned(),
                    cause: Malformation::NotADateTime,
                },
            );
        },
    };
    let tags_text = match header_require(header, "Tags") {
        Ok(value) => value,
        Err(e) => {
            return Err(e);
        },
    };
    let tags = list_of(tags_text.as_str());
    Ok((id, datetime, tags))
}

/// The four header elements that every kind of entry writes.
pub fn common_pairs(
    kind: GooseberryEntryType,
    id: u64,
    datetime: &Timestamp,
    tags: &Vec<String>,
) -> (r: Vec<(String, String)>)
    ensures
        r.deep_view() == common_header(kind, id, datetime@, tags.deep_view()),
{
    proof {
        reveal_strlit(", ");
        assert(", "@ =~= seq![',', ' ']);
    }
    let mut header: Vec<(String, String)> = Vec::new();
    header.push(("Type".to_owned(), kind.to_string()));
    header.push(("ID".to_owned(), decimal_text(id)));
    header.push(("DateTime".to_owned(), datetime.to_text()));
    header.push(("Tags".to_owned(), join_text(tags, ", ")));
    assert(header.deep_view() =~= common_header(kind, id, datetime@, tags.deep_view()));
    header
}

/// An empty box of a form.
pub open spec fn field(title: Seq<char>, markdown: bool, percent: u16) -> InputBoxView {
    InputBoxView { title, is_writing: false, content: Seq::empty(), markdown, percent, scroll: 0 }
}

/// The boxes in which an entry of a kind is written, in their order.
pub open spec fn form_fields(kind: GooseberryEntryType) -> Seq<InputBoxView> {
    match kind {
        GooseberryEntryType::Task => seq![
            field("Task"@, false, 10),
            field("Description"@, true, 60),
            field("Tags"@, false, 10),
        ],
        GooseberryEntryType::Journal => seq![
            field("Description"@, false, 10),
            field("Tags"@, false, 10),
        ],
        GooseberryEntryType::Research => seq![
            field("Title"@, false, 10),
            field("Notes"@, true, 60),
            field("Tags"@, false, 10),
        ],
        GooseberryEntryType::Event => seq![
            field("Title"@, false, 10),
            field("Notes"@, true, 50),
            field("People"@, false, 10),
            field("Tags"@, false, 10),
        ],
    }
}

/// The empty form of a kind, its first box in focus.
pub open spec fn blank_form(kind: GooseberryEntryType) -> InputBoxesView {
    (InputBoxesView { boxes: form_fields(kind), index: 0 }).focus_at(0)
}

/// The form with `content` in box `i`.
pub open spec fn filled(form: InputBoxesView, i: int, content: Seq<char>) -> InputBoxesView {
    form.with_box(i, form.boxes[i].with_content(content))
}

/// The form that shows an entry for editing.
pub open spec fn form_of(e: EntryView) -> InputBoxesView {
    let blank = blank_form(e.entry_type());
    match e {
        EntryView::Task { task, description, tags, .. } => filled(
            filled(filled(blank, 0, task), 1, description),
            2,
            list_text(tags),
        ),
        EntryView::Journal { description, tags, .. } => filled(
            filled(blank, 0, description),
            1,
            list_text(tags),
        ),
        EntryView::Research { title, notes, tags, .. } => filled(
            filled(filled(blank, 0, title), 1, notes),
            2,
            list_text(tags),
        ),
        EntryView::Event { title, notes, people, tags, .. } => filled(
            filled(filled(filled(blank, 0, title), 1, notes), 2, list_text(people)),
            3,
            list_text(tags),
        ),
    }
}

/// The error for a row of boxes that is shorter than the form of the kind.
pub open spec fn too_few_boxes() -> SorryView {
    SorryView::OutOfCheeseError { message: "Expected a box for every field"@ }
}

/// The entry that the boxes of a form say, with the identifier `id` and
/// written at the moment `now`: a task is not done yet.
pub open spec fn entry_from_boxes(
    kind: GooseberryEntryType,
    id: u64,
    boxes: Seq<InputBoxView>,
    now: int,
) -> Result<EntryView, SorryView> {
    if boxes.len() < form_fields(kind).len() {
        Err(too_few_boxes())
    } else {
        Ok(
            match kind {
                GooseberryEntryType::Task => EntryView::Task {
                    id,
                    task: boxes[0].content,
                    description: boxes[1].content,
                    datetime: now,
                    done: false,
                    tags: list_items(boxes[2].content),
                },
                GooseberryEntryType::Journal => EntryView::Journal {
                    id,
                    description: boxes[0].content,
                    datetime: now,
                    tags: list_items(boxes[1].content),
                },
                GooseberryEntryType::Research => EntryView::Research {
                    id,
                    title: boxes[0].content,
                    notes: boxes[1].content,
                    datetime: now,
                    tags: list_items(boxes[2].content),
                },
                GooseberryEntryType::Event => EntryView::Event {
                    id,
                    title: boxes[0].content,
                    notes: boxes[1].content,
                    people: list_items(boxes[2].content),
                    datetime: now,
                    tags: list_items(boxes[3].content),
                },
            },
        )
    }
}

/// The entry that `kind` makes of the boxes where it is asked as `asked`:
/// asked as another kind, it is the error that names both.
pub open spec fn entry_from_boxes_as(
    kind: GooseberryEntryType,
    asked: GooseberryEntryType,
    id: u64,
    boxes: Seq<InputBoxView>,
    now: int,
) -> Result<EntryView, SorryView> {
    if asked != kind {
        Err(SorryView::WrongEntryType { expected: kind, got: asked })
    } else {
        entry_from_boxes(kind, id, boxes, now)
    }
}

/// An edited entry with what the edit may not change taken from the entry as
/// it was: the identifier, the moment, and whether a task is done. Entries of
/// two kinds do not merge: the edited one stays as it is.
pub open spec fn merged(edited: EntryView, old: EntryView) -> EntryView {
    match (edited, old) {
        (
            EntryView::Task { task, description, tags, .. },
            EntryView::Task { id, datetime, done, .. },
        ) => EntryView::Task { id, task, description, datetime, done, tags },
        (
            EntryView::Journal { description, tags, .. },
            EntryView::Journal { id, datetime, .. },
        ) => EntryView::Journal { id, description, datetime, tags },
        (
            EntryView::Research { title, notes, tags, .. },
            EntryView::Research { id, datetime, .. },
        ) => EntryView::Research { id, title, notes, datetime, tags },
        (
            EntryView::Event { title, people, notes, tags, .. },
            EntryView::Event { id, datetime, .. },
        ) => EntryView::Event { id, title, people, datetime, notes, tags },
        _ => edited,
    }
}

/// Trait to make a new kind of Entry type
pub trait GooseberryEntryTrait: Sized + View<V = EntryView> {
    /// What a header and a body read as, for this type.
    spec fn read(header: HeaderView, body: Seq<char>) -> Result<EntryView, SorryView>;

    /// What the boxes of a form say, for this type.
    spec fn written(
        id: u64,
        entry_type: GooseberryEntryType,
        boxes: Seq<InputBoxView>,
        now: int,
    ) -> Result<EntryView, SorryView>;

    /// Gets metadata from header and main description/notes content from lines
    fn from_header_lines(header: Vec<(String, String)>, lines: String) -> (r: Result<Self, Sorry>)
        ensures
            match r {
                Ok(e) => Self::read(header.deep_view(), lines@) == Ok::<EntryView, SorryView>(e@),
                Err(s) => Self::read(header.deep_view(), lines@) == Err::<EntryView, SorryView>(
                    s@,
                ),
            },
    ;

    /// Converts text input boxes to an entry written at the moment `now`
    fn from_input_boxes_at(
        id: u64,
        entry_type: GooseberryEntryType,
        boxes: Vec<InputBox>,
        now: Timestamp,
    ) -> (r: Result<Self, Sorry>)
        ensures
            match r {
                Ok(e) => Self::written(id, entry_type, boxes.deep_view(), now@) == Ok::<
                    EntryView,
                    SorryView,
                >(e@),
                Err(s) => Self::written(id, entry_type, boxes.deep_view(), now@) == Err::<
                    EntryView,
                    SorryView,
                >(s@),
            },
    ;

    /// Puts contents of the entry into respective text input boxes for editing
    fn to_input_boxes(&self) -> (r: InputBoxes)
        ensures
            r@ == form_of(self@),
            r@.wf(),
    ;

    fn id(&self) -> (r: u64)
        ensures
            r == self@.id(),
    ;

    fn tags(&self) -> (r: &[String])
        ensures
            r.deep_view() == self@.tags(),
    ;

    fn datetime(&self) -> (r: &Timestamp)
        ensures
            r@ == self@.datetime(),
    ;

    fn entry_type(&self) -> (r: GooseberryEntryType)
        ensures
            r == self@.entry_type(),
    ;

    /// The text that goes to the entry's file
    fn to_file(&self) -> (r: String)
        ensures
            r@ == encode(self@),
    ;

    /// Styles entry for short display (in fold mode)
    fn to_tui_short(&self, terminal_width: u16) -> (r: Result<Vec<StyledText>, Sorry>)
        ensures
            match r {
                Ok(texts) => tui_short(self@, terminal_width) == Ok::<
                    Seq<StyledTextView>,
                    SorryView,
                >(texts.deep_view()),
                Err(e) => tui_short(self@, terminal_width) == Err::<Seq<StyledTextView>, SorryView>(
                    e@,
                ),
            },
    ;

    /// Styles entry for full display
    fn to_tui_long(&self, terminal_width: u16) -> (r: Result<Vec<StyledText>, Sorry>)
        ensures
            match r {
                Ok(texts) => tui_long(self@, terminal_width) == Ok::<Seq<StyledTextView>, SorryView>(
                    texts.deep_view(),
                ),
                Err(e) => tui_long(self@, terminal_width) == Err::<Seq<StyledTextView>, SorryView>(
                    e@,
                ),
            },
    ;

    /// Takes from the entry as it was what an edit may not change
    fn merge_with_entry(&mut self, old_entry: &Self)
        ensures
            final(self)@ == merged(old(self)@, old_entry@),
    ;

    /// This metadata is common for all entries
    fn format_id_datetime_tags(&self) -> (r: String)
        ensures
            r@ == common_text(self@),
    ;

    /// Converts text input boxes to an entry written now. The clock decides
    /// the moment: the entry is what the boxes say at some moment that can be
    /// stored, and where the clock gives no such moment the error says so.
    fn from_input_boxes(id: u64, entry_type: GooseberryEntryType, boxes: Vec<InputBox>) -> (r:
        Result<Self, Sorry>)
        ensures
            match r {
                Ok(e) => exists|now: int|
                    storable(now) && #[trigger] Self::written(
                        id,
                        entry_type,
                        boxes.deep_view(),
                        now,
                    ) == Ok::<EntryView, SorryView>(e@),
                Err(s) => s@ == no_moment() || exists|now: int|
                    #[trigger] Self::written(id, entry_type, boxes.deep_view(), now) == Err::<
                        EntryView,
                        SorryView,
                    >(s@),
            },
    {
        match Timestamp::now() {
            Some(now) => {
                proof {
                    use_type_invariant(now);
                }
                Self::from_input_boxes_at(id, entry_type, boxes, now)
            },
            None => Err(Sorry::OutOfCheeseError { message: "The clock gives no moment to store".to_owned() }),
        }
    }
}

/// The error for a clock whose moment cannot be stored.
pub open spec fn no_moment() -> SorryView {
    SorryView::OutOfCheeseError { message: "The clock gives no moment to store"@ }
}

/// The four header lines that every kind of entry writes, as one text.
pub open spec fn common_text(e: EntryView) -> Seq<char> {
    crate::text::join(
        common_header(e.entry_type(), e.id(), e.datetime(), e.tags()).map_values(
            |p: (Seq<char>, Seq<char>)| line_of(p),
        ),
        line_break(),
    )
}

/// The four header lines that every kind of entry writes, as one text.
pub fn format_common(
    kind: GooseberryEntryType,
    id: u64,
    datetime: &Timestamp,
    tags: &Vec<String>,
) -> (r: String)
    ensures
        r@ == crate::text::join(
            common_header(kind, id, datetime@, tags.deep_view()).map_values(
                |p: (Seq<char>, Seq<char>)| line_of(p),
            ),
            line_break(),
        ),
{
    let header = common_pairs(kind, id, datetime, tags);
    let ghost h = header.deep_view();
    let ghost written = h.map_values(|p: (Seq<char>, Seq<char>)| line_of(p));
    let mut lines: Vec<String> = Vec::new();
    let mut i: usize = 0;
    assert(lines.deep_view() =~= written.take(0));
    while i < header.len()
        invariant
            i <= header.len(),
            h == header.deep_view(),
            written == h.map_values(|p: (Seq<char>, Seq<char>)| line_of(p)),
            lines.deep_view() == written.take(i as int),
        decreases header.len() - i,
    {
        let ghost before = lines.deep_view();
        let line = pair_line(header[i].0.as_str(), header[i].1.as_str());
        lines.push(line);
        assert(h[i as int] == (header@[i as int].0@, header@[i as int].1@));
        assert(lines.deep_view() =~= before.push(line@));
        i += 1;
        assert(lines.deep_view() =~= written.take(i as int));
    }
    assert(written.take(i as int) == written);
    proof {
        reveal_strlit("\n");
        assert("\n"@ =~= line_break());
    }
    join_text(&lines, "\n")
}

/// Entry type to store tasks/todos
#[derive(Debug)]
pub struct TaskEntry {
    pub id: u64,
    /// Short one-liner on what to do
    pub task: String,
    /// Longer markdown-formatted description on how to do it
    pub description: String,
    pub datetime: Timestamp,
    /// state of completion
    pub done: bool,
    pub tags: Vec<String>,
}

impl View for TaskEntry {
    type V = EntryView;

    open spec fn view(&self) -> EntryView {
        EntryView::Task {
            id: self.id,
            task: self.task@,
            description: self.description@,
            datetime: self.datetime@,
            done: self.done,
            tags: self.tags.deep_view(),
        }
    }
}

impl TaskEntry {
    /// Flips the state of completion; nothing else changes.
    pub fn toggle(&mut self)
        ensures
            final(self)@ == (EntryView::Task {
                id: old(self).id,
                task: old(self).task@,
                description: old(self).description@,
                datetime: old(self).datetime@,
                done: !old(self).done,
                tags: old(self).tags.deep_view(),
            }),
    {
        self.done = !self.done;
    }
}

impl Clone for TaskEntry {
    fn clone(&self) -> (r: Self)
        ensures
            r@ == self@,
    {
        TaskEntry {
            id: self.id,
            task: self.task.clone(),
            description: self.description.clone(),
            datetime: self.datetime,
            done: self.done,
            tags: copy_strings(&self.tags),
        }
    }
}

impl GooseberryEntryTrait for TaskEntry {
    open spec fn read(header: HeaderView, body: Seq<char>) -> Result<EntryView, SorryView> {
        task_of(header, body)
    }

    open spec fn written(
        id: u64,
        entry_type: GooseberryEntryType,
        boxes: Seq<InputBoxView>,
        now: int,
    ) -> Result<EntryView, SorryView> {
        entry_from_boxes_as(GooseberryEntryType::Task, entry_type, id, boxes, now)
    }

    /// Extra metadata - the task and the task state
    fn from_header_lines(header: Vec<(String, String)>, lines: String) -> (r: Result<Self, Sorry>) {
        let (id, datetime, tags) = match get_id_datetime_tags(&header) {
            Ok(common) => common,
            Err(e) => {
                return Err(e);
            },
        };
        let task = match header_require(&header, "Task") {
            Ok(value) => trimmed(value.as_str()),
            Err(e) => {
                return Err(e);
            },
        };
        let done_text = match header_require(&header, "Done") {
            Ok(value) => trimmed(value.as_str()),
            Err(e) => {
                return Err(e);
            },
        };
        let done = match parse_flag(done_text.as_str()) {
            Some(done) => done,
            None => {
                return Err(
                    Sorry::MalformedHeaderElement {
                        element: "Done".to_owned(),
                        cause: Malformation::NotABool,
                    },
                );
            },
        };
        Ok(TaskEntry { id, task, description: lines, datetime, done, tags })
    }

    /// Assumes that the first box has the task, the second has the description, and the third has tags
    fn from_input_boxes_at(
        id: u64,
        entry_type: GooseberryEntryType,
        boxes: Vec<InputBox>,
        now: Timestamp,
    ) -> (r: Result<Self, Sorry>) {
        if entry_type != GooseberryEntryType::Task {
            return Err(
                Sorry::WrongEntryType { expected: GooseberryEntryType::Task, got: entry_type },
            );
        }
        if boxes.len() < 3 {
            return Err(too_few());
        }
        let task = boxes[0].get_content();
        let description = boxes[1].get_content();
        let tags = list_of(boxes[2].get_content().as_str());
        Ok(TaskEntry { id, task, description, datetime: now, done: false, tags })
    }

    /// Puts the contents into three text input boxes: task, description, and tags
    fn to_input_boxes(&self) -> (r: InputBoxes) {
        let mut input_boxes = GooseberryEntryType::Task.get_input_boxes();
        input_boxes.replace_content(0, self.task.as_str());
        input_boxes.replace_content(1, self.description.as_str());
        input_boxes.replace_content(2, tag_text(&self.tags).as_str());
        input_boxes
    }

    fn id(&self) -> (r: u64) {
        self.id
    }

    fn tags(&self) -> (r: &[String]) {
        self.tags.as_slice()
    }

    fn datetime(&self) -> (r: &Timestamp) {
        &self.datetime
    }

    fn entry_type(&self) -> (r: GooseberryEntryType) {
        GooseberryEntryType::Task
    }

    fn to_file(&self) -> (r: String) {
        let mut header = common_pairs(
            GooseberryEntryType::Task,
            self.id,
            &self.datetime,
            &self.tags,
        );
        let ghost common = header.deep_view();
        header.push(("Task".to_owned(), self.task.clone()));
        header.push(("Done".to_owned(), flag_string(self.done)));
        assert(header.deep_view() =~= common + self@.own_header());
        write_record(&header, self.description.as_str())
    }

    fn to_tui_short(&self, terminal_width: u16) -> (r: Result<Vec<StyledText>, Sorry>) {
        let mark = TaskState::of(self.done);
        style_short(
            self.id,
            self.task.as_str(),
            Some(mark),
            &self.datetime,
            &self.tags,
            terminal_width,
            false,
            false,
            true,
        )
    }

    fn to_tui_long(&self, terminal_width: u16) -> (r: Result<Vec<StyledText>, Sorry>) {
        let mut styled_text = match self.to_tui_short(terminal_width) {
            Ok(texts) => texts,
            Err(e) => {
                return Err(e);
            },
        };
        let ghost short = styled_text.deep_view();
        extend_texts(
            &mut styled_text,
            markdown_to_styled_texts(trimmed(self.description.as_str()).as_str()),
        );
        let ghost before1 = styled_text.deep_view();
        let piece1 = line_break_text();
        styled_text.push(piece1);
        assert(styled_text.deep_view() =~= before1.push(piece1@));
        let ghost before2 = styled_text.deep_view();
        let piece2 = line_break_text();
        styled_text.push(piece2);
        assert(styled_text.deep_view() =~= before2.push(piece2@));
        assert(styled_text.deep_view() =~= short + crate::display::tui_rest(self@));
        Ok(styled_text)
    }

    fn merge_with_entry(&mut self, old_entry: &Self) {
        self.id = old_entry.id;
        self.datetime = old_entry.datetime;
        self.done = old_entry.done;
    }

    fn format_id_datetime_tags(&self) -> (r: String) {
        format_common(GooseberryEntryType::Task, self.id, &self.datetime, &self.tags)
    }
}

/// The error for a row of boxes that is shorter than the form of the kind.
pub fn too_few() -> (r: Sorry)
    ensures
        r@ == too_few_boxes(),
{
    Sorry::OutOfCheeseError { message: "Expected a box for every field".to_owned() }
}

/// The items written as a list, with a comma and a space between neighbours.
pub fn tag_text(items: &Vec<String>) -> (r: String)
    ensures
        r@ == list_text(items.deep_view()),
{
    proof {
        reveal_strlit(", ");
        assert(", "@ =~= seq![',', ' ']);
    }
    join_text(items, ", ")
}

impl GooseberryEntryType {
    /// Gets the text input boxes for each entry type along with their desired percentages
    pub fn get_input_boxes(self) -> (r: InputBoxes)
        ensures
            r@ == blank_form(self),
            r@.wf(),
    {
        let mut boxes: Vec<InputBox> = Vec::new();
        match self {
            GooseberryEntryType::Task => {
                boxes.push(InputBox::new("Task".to_owned(), false, 10));
                boxes.push(InputBox::new("Description".to_owned(), true, 60));
                boxes.push(InputBox::new("Tags".to_owned(), false, 10));
            },
            GooseberryEntryType::Journal => {
                boxes.push(InputBox::new("Description".to_owned(), false, 10));
                boxes.push(InputBox::new("Tags".to_owned(), false, 10));
            },
            GooseberryEntryType::Research => {
                boxes.push(InputBox::new("Title".to_owned(), false, 10));
                boxes.push(InputBox::new("Notes".to_owned(), true, 60));
                boxes.push(InputBox::new("Tags".to_owned(), false, 10));
            },
            GooseberryEntryType::Event => {
                boxes.push(InputBox::new("Title".to_owned(), false, 10));
                boxes.push(InputBox::new("Notes".to_owned(), true, 50));
                boxes.push(InputBox::new("People".to_owned(), false, 10));
                boxes.push(InputBox::new("Tags".to_owned(), false, 10));
            },
        }
        assert(boxes.deep_view() =~= form_fields(self));
        InputBoxes::new(boxes)
    }
}


/// Short updates on things you do during the day
#[derive(Debug)]
pub struct JournalEntry {
    pub id: u64,
    /// plain text, single line
    pub description: String,
    pub datetime: Timestamp,
    pub tags: Vec<String>,
}

impl View for JournalEntry {
    type V = EntryView;

    open spec fn view(&self) -> EntryView {
        EntryView::Journal {
            id: self.id,
            description: self.description@,
            datetime: self.datetime@,
            tags: self.tags.deep_view(),
        }
    }
}

impl JournalEntry {
    /// The day of the entry, counted from the first day of 1970 (UTC): the
    /// journal is shown by days.
    pub fn date(&self) -> (r: i64)
        ensures
            r == crate::timestamp::day_of(self.datetime@),
    {
        self.datetime.day()
    }
}

impl GooseberryEntryTrait for JournalEntry {
    open spec fn read(header: HeaderView, body: Seq<char>) -> Result<EntryView, SorryView> {
        journal_of(header, body)
    }

    open spec fn written(
        id: u64,
        entry_type: GooseberryEntryType,
        boxes: Seq<InputBoxView>,
        now: int,
    ) -> Result<EntryView, SorryView> {
        entry_from_boxes_as(GooseberryEntryType::Journal, entry_type, id, boxes, now)
    }

    fn from_header_lines(header: Vec<(String, String)>, lines: String) -> (r: Result<Self, Sorry>) {
        let (id, datetime, tags) = match get_id_datetime_tags(&header) {
            Ok(common) => common,
            Err(e) => {
                return Err(e);
            },
        };
        Ok(JournalEntry { id, description: lines, datetime, tags })
    }

    fn from_input_boxes_at(
        id: u64,
        entry_type: GooseberryEntryType,
        boxes: Vec<InputBox>,
        now: Timestamp,
    ) -> (r: Result<Self, Sorry>) {
        if entry_type != GooseberryEntryType::Journal {
            return Err(
                Sorry::WrongEntryType { expected: GooseberryEntryType::Journal, got: entry_type },
            );
        }
        if boxes.len() < 2 {
            return Err(too_few());
        }
        let description = boxes[0].get_content();
        let tags = list_of(boxes[1].get_content().as_str());
        Ok(JournalEntry { id, description, datetime: now, tags })
    }

    fn to_input_boxes(&self) -> (r: InputBoxes) {
        let mut input_boxes = GooseberryEntryType::Journal.get_input_boxes();
        input_boxes.replace_content(0, self.description.as_str());
        input_boxes.replace_content(1, tag_text(&self.tags).as_str());
        input_boxes
    }

    fn id(&self) -> (r: u64) {
        self.id
    }

    fn tags(&self) -> (r: &[String]) {
        self.tags.as_slice()
    }

    fn datetime(&self) -> (r: &Timestamp) {
        &self.datetime
    }

    fn entry_type(&self) -> (r: GooseberryEntryType) {
        GooseberryEntryType::Journal
    }

    fn to_file(&self) -> (r: String) {
        let mut header = common_pairs(
            GooseberryEntryType::Journal,
            self.id,
            &self.datetime,
            &self.tags,
        );
        let ghost common = header.deep_view();
        assert(header.deep_view() =~= common + self@.own_header());
        write_record(&header, self.description.as_str())
    }

    fn to_tui_short(&self, terminal_width: u16) -> (r: Result<Vec<StyledText>, Sorry>) {
        style_short(
            self.id,
            self.description.as_str(),
            None,
            &self.datetime,
            &self.tags,
            terminal_width,
            false,
            true,
            false,
        )
    }

    fn to_tui_long(&self, terminal_width: u16) -> (r: Result<Vec<StyledText>, Sorry>) {
        let mut styled_text = match self.to_tui_short(terminal_width) {
            Ok(texts) => texts,
            Err(e) => {
                return Err(e);
            },
        };
        let ghost short = styled_text.deep_view();
        let ghost before1 = styled_text.deep_view();
        let piece1 = line_break_text();
        styled_text.push(piece1);
        assert(styled_text.deep_view() =~= before1.push(piece1@));
        assert(styled_text.deep_view() =~= short + crate::display::tui_rest(self@));
        Ok(styled_text)
    }

    fn merge_with_entry(&mut self, old_entry: &Self) {
        self.id = old_entry.id;
        self.datetime = old_entry.datetime;
    }

    fn format_id_datetime_tags(&self) -> (r: String) {
        format_common(GooseberryEntryType::Journal, self.id, &self.datetime, &self.tags)
    }
}

impl Clone for JournalEntry {
    fn clone(&self) -> (r: Self)
        ensures
            r@ == self@,
    {
        JournalEntry {
            id: self.id,
            description: self.description.clone(),
            datetime: self.datetime,
            tags: copy_strings(&self.tags),
        }
    }
}

/// Long-form notes on an interesting topic
/// e.g. textbook/course notes
#[derive(Debug)]
pub struct ResearchEntry {
    pub id: u64,
    pub title: String,
    pub notes: String,
    pub datetime: Timestamp,
    pub tags: Vec<String>,
}

impl View for ResearchEntry {
    type V = EntryView;

    open spec fn view(&self) -> EntryView {
        EntryView::Research {
            id: self.id,
            title: self.title@,
            notes: self.notes@,
            datetime: self.datetime@,
            tags: self.tags.deep_view(),
        }
    }
}

impl GooseberryEntryTrait for ResearchEntry {
    open spec fn read(header: HeaderView, body: Seq<char>) -> Result<EntryView, SorryView> {
        research_of(header, body)
    }

    open spec fn written(
        id: u64,
        entry_type: GooseberryEntryType,
        boxes: Seq<InputBoxView>,
        now: int,
    ) -> Result<EntryView, SorryView> {
        entry_from_boxes_as(GooseberryEntryType::Research, entry_type, id, boxes, now)
    }

    fn from_header_lines(header: Vec<(String, String)>, lines: String) -> (r: Result<Self, Sorry>) {
        let (id, datetime, tags) = match get_id_datetime_tags(&header) {
            Ok(common) => common,
            Err(e) => {
                return Err(e);
            },
        };
        let title = match header_require(&header, "Title") {
            Ok(value) => trimmed(value.as_str()),
            Err(e) => {
                return Err(e);
            },
        };
        Ok(ResearchEntry { id, title, notes: lines, datetime, tags })
    }

    fn from_input_boxes_at(
        id: u64,
        entry_type: GooseberryEntryType,
        boxes: Vec<InputBox>,
        now: Timestamp,
    ) -> (r: Result<Self, Sorry>) {
        if entry_type != GooseberryEntryType::Research {
            return Err(
                Sorry::WrongEntryType { expected: GooseberryEntryType::Research, got: entry_type },
            );
        }
        if boxes.len() < 3 {
            return Err(too_few());
        }
        let title = boxes[0].get_content();
        let notes = boxes[1].get_content();
        let tags = list_of(boxes[2].get_content().as_str());
        Ok(ResearchEntry { id, title, notes, datetime: now, tags })
    }

    fn to_input_boxes(&self) -> (r: InputBoxes) {
        let mut input_boxes = GooseberryEntryType::Research.get_input_boxes();
        input_boxes.replace_content(0, self.title.as_str());
        input_boxes.replace_content(1, self.notes.as_str());
        input_boxes.replace_content(2, tag_text(&self.tags).as_str());
        input_boxes
    }

    fn id(&self) -> (r: u64) {
        self.id
    }

    fn tags(&self) -> (r: &[String]) {
        self.tags.as_slice()
    }

    fn datetime(&self) -> (r: &Timestamp) {
        &self.datetime
    }

    fn entry_type(&self) -> (r: GooseberryEntryType) {
        GooseberryEntryType::Research
    }

    fn to_file(&self) -> (r: String) {
        let mut header = common_pairs(
            GooseberryEntryType::Research,
            self.id,
            &self.datetime,
            &self.tags,
        );
        let ghost common = header.deep_view();
        header.push(("Title".to_owned(), self.title.clone()));
        assert(header.deep_view() =~= common + self@.own_header());
        write_record(&header, self.notes.as_str())
    }

    fn to_tui_short(&self, terminal_width: u16) -> (r: Result<Vec<StyledText>, Sorry>) {
        style_short(
            self.id,
            self.title.as_str(),
            None,
            &self.datetime,
            &self.tags,
            terminal_width,
            true,
            false,
            true,
        )
    }

    fn to_tui_long(&self, terminal_width: u16) -> (r: Result<Vec<StyledText>, Sorry>) {
        let mut styled_text = match self.to_tui_short(terminal_width) {
            Ok(texts) => texts,
            Err(e) => {
                return Err(e);
            },
        };
        let ghost short = styled_text.deep_view();
        let ghost before0 = styled_text.deep_view();
        let piece0 = line_break_text();
        styled_text.push(piece0);
        assert(styled_text.deep_view() =~= before0.push(piece0@));
        extend_texts(
            &mut styled_text,
            markdown_to_styled_texts(trimmed(self.notes.as_str()).as_str()),
        );
        let ghost before1 = styled_text.deep_view();
        let piece1 = line_break_text();
        styled_text.push(piece1);
        assert(styled_text.deep_view() =~= before1.push(piece1@));
        let ghost before2 = styled_text.deep_view();
        let piece2 = line_break_text();
        styled_text.push(piece2);
        assert(styled_text.deep_view() =~= before2.push(piece2@));
        assert(styled_text.deep_view() =~= short + crate::display::tui_rest(self@));
        Ok(styled_text)
    }

    fn merge_with_entry(&mut self, old_entry: &Self) {
        self.id = old_entry.id;
        self.datetime = old_entry.datetime;
    }

    fn format_id_datetime_tags(&self) -> (r: String) {
        format_common(GooseberryEntryType::Research, self.id, &self.datetime, &self.tags)
    }
}

impl Clone for ResearchEntry {
    fn clone(&self) -> (r: Self)
        ensures
            r@ == self@,
    {
        ResearchEntry {
            id: self.id,
            title: self.title.clone(),
            notes: self.notes.clone(),
            datetime: self.datetime,
            tags: copy_strings(&self.tags),
        }
    }
}

/// About a meeting or a conference presentation or a seminar etc.
#[derive(Debug)]
pub struct EventEntry {
    pub id: u64,
    /// Title of the talk/meeting description
    pub title: String,
    /// Who's involved/who's presenting
    pub people: Vec<String>,
    pub datetime: Timestamp,
    pub notes: String,
    pub tags: Vec<String>,
}

impl View for EventEntry {
    type V = EntryView;

    open spec fn view(&self) -> EntryView {
        EntryView::Event {
            id: self.id,
            title: self.title@,
            people: self.people.deep_view(),
            datetime: self.datetime@,
            notes: self.notes@,
            tags: self.tags.deep_view(),
        }
    }
}

impl GooseberryEntryTrait for EventEntry {
    open spec fn read(header: HeaderView, body: Seq<char>) -> Result<EntryView, SorryView> {
        event_of(header, body)
    }

    open spec fn written(
        id: u64,
        entry_type: GooseberryEntryType,
        boxes: Seq<InputBoxView>,
        now: int,
    ) -> Result<EntryView, SorryView> {
        entry_from_boxes_as(GooseberryEntryType::Event, entry_type, id, boxes, now)
    }

    fn from_header_lines(header: Vec<(String, String)>, lines: String) -> (r: Result<Self, Sorry>) {
        let (id, datetime, tags) = match get_id_datetime_tags(&header) {
            Ok(common) => common,
            Err(e) => {
                return Err(e);
            },
        };
        let title = match header_require(&header, "Title") {
            Ok(value) => trimmed(value.as_str()),
            Err(e) => {
                return Err(e);
            },
        };
        let people = match header_require(&header, "People") {
            Ok(value) => list_of(value.as_str()),
            Err(e) => {
                return Err(e);
            },
        };
        Ok(EventEntry { id, title, people, datetime, notes: lines, tags })
    }

    fn from_input_boxes_at(
        id: u64,
        entry_type: GooseberryEntryType,
        boxes: Vec<InputBox>,
        now: Timestamp,
    ) -> (r: Result<Self, Sorry>) {
        if entry_type != GooseberryEntryType::Event {
            return Err(
                Sorry::WrongEntryType { expected: GooseberryEntryType::Event, got: entry_type },
            );
        }
        if boxes.len() < 4 {
            return Err(too_few());
        }
        let title = boxes[0].get_content();
        let notes = boxes[1].get_content();
        let people = list_of(boxes[2].get_content().as_str());
        let tags = list_of(boxes[3].get_content().as_str());
        Ok(EventEntry { id, title, notes, datetime: now, people, tags })
    }

    fn to_input_boxes(&self) -> (r: InputBoxes) {
        let mut input_boxes = GooseberryEntryType::Event.get_input_boxes();
        input_boxes.replace_content(0, self.title.as_str());
        input_boxes.replace_content(1, self.notes.as_str());
        input_boxes.replace_content(2, self.format_people().as_str());
        input_boxes.replace_content(3, tag_text(&self.tags).as_str());
        input_boxes
    }

    fn id(&self) -> (r: u64) {
        self.id
    }

    fn tags(&self) -> (r: &[String]) {
        self.tags.as_slice()
    }

    fn datetime(&self) -> (r: &Timestamp) {
        &self.datetime
    }

    fn entry_type(&self) -> (r: GooseberryEntryType) {
        GooseberryEntryType::Event
    }

    fn to_file(&self) -> (r: String) {
        let mut header = common_pairs(
            GooseberryEntryType::Event,
            self.id,
            &self.datetime,
            &self.tags,
        );
        let ghost common = header.deep_view();
        header.push(("Title".to_owned(), self.title.clone()));
        header.push(("People".to_owned(), self.format_people()));
        assert(header.deep_view() =~= common + self@.own_header());
        write_record(&header, self.notes.as_str())
    }

    fn to_tui_short(&self, terminal_width: u16) -> (r: Result<Vec<StyledText>, Sorry>) {
        style_short(
            self.id,
            self.title.as_str(),
            None,
            &self.datetime,
            &self.tags,
            terminal_width,
            false,
            false,
            true,
        )
    }

    fn to_tui_long(&self, terminal_width: u16) -> (r: Result<Vec<StyledText>, Sorry>) {
        let mut styled_text = match self.to_tui_short(terminal_width) {
            Ok(texts) => texts,
            Err(e) => {
                return Err(e);
            },
        };
        let ghost short = styled_text.deep_view();
        let ghost before0 = styled_text.deep_view();
        let piece0 = style_people(&self.people);
        styled_text.push(piece0);
        assert(styled_text.deep_view() =~= before0.push(piece0@));
        let ghost before3 = styled_text.deep_view();
        let piece3 = line_break_text();
        styled_text.push(piece3);
        assert(styled_text.deep_view() =~= before3.push(piece3@));
        extend_texts(
            &mut styled_text,
            markdown_to_styled_texts(trimmed(self.notes.as_str()).as_str()),
        );
        let ghost before1 = styled_text.deep_view();
        let piece1 = line_break_text();
        styled_text.push(piece1);
        assert(styled_text.deep_view() =~= before1.push(piece1@));
        let ghost before2 = styled_text.deep_view();
        let piece2 = line_break_text();
        styled_text.push(piece2);
        assert(styled_text.deep_view() =~= before2.push(piece2@));
        assert(styled_text.deep_view() =~= short + crate::display::tui_rest(self@));
        Ok(styled_text)
    }

    fn merge_with_entry(&mut self, old_entry: &Self) {
        self.id = old_entry.id;
        self.datetime = old_entry.datetime;
    }

    fn format_id_datetime_tags(&self) -> (r: String) {
        format_common(GooseberryEntryType::Event, self.id, &self.datetime, &self.tags)
    }
}

impl Clone for EventEntry {
    fn clone(&self) -> (r: Self)
        ensures
            r@ == self@,
    {
        EventEntry {
            id: self.id,
            title: self.title.clone(),
            people: copy_strings(&self.people),
            datetime: self.datetime,
            notes: self.notes.clone(),
            tags: copy_strings(&self.tags),
        }
    }
}

impl EventEntry {
    /// How to display a list of people
    pub fn format_people(&self) -> (r: String)
        ensures
            r@ == list_text(self.people.deep_view()),
    {
        tag_text(&self.people)
    }
}

/// An entry of any kind.
#[derive(Debug)]
pub enum GooseberryEntry {
    /// Tasks/todos with an attached description
    Task(TaskEntry),
    /// Short journal entries
    Journal(JournalEntry),
    /// Long-form notes about a topic
    Research(ResearchEntry),
    /// Meetings/Conferences etc. with other people/presenters
    Event(EventEntry),
}

impl View for GooseberryEntry {
    type V = EntryView;

    open spec fn view(&self) -> EntryView {
        match self {
            GooseberryEntry::Task(e) => e@,
            GooseberryEntry::Journal(e) => e@,
            GooseberryEntry::Research(e) => e@,
            GooseberryEntry::Event(e) => e@,
        }
    }
}

impl Clone for GooseberryEntry {
    fn clone(&self) -> (r: Self)
        ensures
            r@ == self@,
    {
        match self {
            GooseberryEntry::Task(e) => GooseberryEntry::Task(e.clone()),
            GooseberryEntry::Journal(e) => GooseberryEntry::Journal(e.clone()),
            GooseberryEntry::Research(e) => GooseberryEntry::Research(e.clone()),
            GooseberryEntry::Event(e) => GooseberryEntry::Event(e.clone()),
        }
    }
}

impl GooseberryEntry {
    /// Retrieves styled texts to display for a dict of entries with the same
    /// type: the entries in the order of their moments, in short where `fold`;
    /// the journal by days.
    pub fn entries_to_styled_texts_same_type(
        entries: &std::collections::HashMap<u64, Self>,
        visible_ids: &[u64],
        fold: bool,
        terminal_width: u16,
    ) -> (r: Result<Vec<StyledText>, Sorry>)
        ensures
            ({
                let shown = listing(
                    entries@.map_values(|e: GooseberryEntry| e@),
                    visible_ids@,
                    fold,
                    terminal_width,
                );
                match r {
                    Ok(texts) => shown == Ok::<Seq<StyledTextView>, SorryView>(texts.deep_view()),
                    Err(e) => shown == Err::<Seq<StyledTextView>, SorryView>(e@),
                }
            }),
    {
        crate::display::entries_to_styled_texts(entries, visible_ids, fold, terminal_width)
    }

    /// Reads an entry from the content of its file. Whatever is read is well
    /// formed: written out again, it reads as the same entry.
    pub fn from_file(content: &str) -> (r: Result<Self, Sorry>)
        ensures
            match r {
                Ok(e) => decode(content@) == Ok::<EntryView, SorryView>(e@) && e@.wf(),
                Err(s) => decode(content@) == Err::<EntryView, SorryView>(s@),
            },
    {
        proof {
            crate::record::lemma_decode_wf(content@);
        }
        match get_header_lines(content) {
            Err(e) => Err(e),
            Ok((header, lines)) => Self::from_header_lines(header, lines),
        }
    }
}

/// This was a bit annoying - just calls the underlying variant's trait method for each trait method
impl GooseberryEntryTrait for GooseberryEntry {
    open spec fn read(header: HeaderView, body: Seq<char>) -> Result<EntryView, SorryView> {
        entry_of(header, body)
    }

    open spec fn written(
        id: u64,
        entry_type: GooseberryEntryType,
        boxes: Seq<InputBoxView>,
        now: int,
    ) -> Result<EntryView, SorryView> {
        entry_from_boxes(entry_type, id, boxes, now)
    }

    fn from_header_lines(header: Vec<(String, String)>, lines: String) -> (r: Result<Self, Sorry>) {
        let name = match header_require(&header, "Type") {
            Ok(value) => value,
            Err(e) => {
                return Err(e);
            },
        };
        let entry_type = match GooseberryEntryType::from_str(name.as_str()) {
            Ok(kind) => kind,
            Err(e) => {
                return Err(e);
            },
        };
        match entry_type {
            GooseberryEntryType::Task => match TaskEntry::from_header_lines(header, lines) {
                Ok(e) => Ok(GooseberryEntry::Task(e)),
                Err(e) => Err(e),
            },
            GooseberryEntryType::Research => match ResearchEntry::from_header_lines(header, lines) {
                Ok(e) => Ok(GooseberryEntry::Research(e)),
                Err(e) => Err(e),
            },
            GooseberryEntryType::Journal => match JournalEntry::from_header_lines(header, lines) {
                Ok(e) => Ok(GooseberryEntry::Journal(e)),
                Err(e) => Err(e),
            },
            GooseberryEntryType::Event => match EventEntry::from_header_lines(header, lines) {
                Ok(e) => Ok(GooseberryEntry::Event(e)),
                Err(e) => Err(e),
            },
        }
    }

    fn from_input_boxes_at(
        id: u64,
        entry_type: GooseberryEntryType,
        boxes: Vec<InputBox>,
        now: Timestamp,
    ) -> (r: Result<Self, Sorry>) {
        match entry_type {
            GooseberryEntryType::Task => match TaskEntry::from_input_boxes_at(
                id,
                entry_type,
                boxes,
                now,
            ) {
                Ok(e) => Ok(GooseberryEntry::Task(e)),
                Err(e) => Err(e),
            },
            GooseberryEntryType::Journal => match JournalEntry::from_input_boxes_at(
                id,
                entry_type,
                boxes,
                now,
            ) {
                Ok(e) => Ok(GooseberryEntry::Journal(e)),
                Err(e) => Err(e),
            },
            GooseberryEntryType::Event => match EventEntry::from_input_boxes_at(
                id,
                entry_type,
                boxes,
                now,
            ) {
                Ok(e) => Ok(GooseberryEntry::Event(e)),
                Err(e) => Err(e),
            },
            GooseberryEntryType::Research => match ResearchEntry::from_input_boxes_at(
                id,
                entry_type,
                boxes,
                now,
            ) {
                Ok(e) => Ok(GooseberryEntry::Research(e)),
                Err(e) => Err(e),
            },
        }
    }

    fn to_input_boxes(&self) -> (r: InputBoxes) {
        match self {
            GooseberryEntry::Task(e) => e.to_input_boxes(),
            GooseberryEntry::Journal(e) => e.to_input_boxes(),
            GooseberryEntry::Event(e) => e.to_input_boxes(),
            GooseberryEntry::Research(e) => e.to_input_boxes(),
        }
    }

    fn id(&self) -> (r: u64) {
        match self {
            GooseberryEntry::Task(e) => e.id(),
            GooseberryEntry::Journal(e) => e.id(),
            GooseberryEntry::Event(e) => e.id(),
            GooseberryEntry::Research(e) => e.id(),
        }
    }

    fn tags(&self) -> (r: &[String]) {
        match self {
            GooseberryEntry::Task(e) => e.tags(),
            GooseberryEntry::Journal(e) => e.tags(),
            GooseberryEntry::Event(e) => e.tags(),
            GooseberryEntry::Research(e) => e.tags(),
        }
    }

    fn datetime(&self) -> (r: &Timestamp) {
        match self {
            GooseberryEntry::Task(e) => e.datetime(),
            GooseberryEntry::Journal(e) => e.datetime(),
            GooseberryEntry::Event(e) => e.datetime(),
            GooseberryEntry::Research(e) => e.datetime(),
        }
    }

    fn entry_type(&self) -> (r: GooseberryEntryType) {
        match self {
            GooseberryEntry::Task(e) => e.entry_type(),
            GooseberryEntry::Journal(e) => e.entry_type(),
            GooseberryEntry::Event(e) => e.entry_type(),
            GooseberryEntry::Research(e) => e.entry_type(),
        }
    }

    fn to_file(&self) -> (r: String) {
        match self {
            GooseberryEntry::Task(e) => e.to_file(),
            GooseberryEntry::Journal(e) => e.to_file(),
            GooseberryEntry::Event(e) => e.to_file(),
            GooseberryEntry::Research(e) => e.to_file(),
        }
    }

    fn to_tui_short(&self, terminal_width: u16) -> (r: Result<Vec<StyledText>, Sorry>) {
        match self {
            GooseberryEntry::Task(e) => e.to_tui_short(terminal_width),
            GooseberryEntry::Journal(e) => e.to_tui_short(terminal_width),
            GooseberryEntry::Event(e) => e.to_tui_short(terminal_width),
            GooseberryEntry::Research(e) => e.to_tui_short(terminal_width),
        }
    }

    fn to_tui_long(&self, terminal_width: u16) -> (r: Result<Vec<StyledText>, Sorry>) {
        match self {
            GooseberryEntry::Task(e) => e.to_tui_long(terminal_width),
            GooseberryEntry::Journal(e) => e.to_tui_long(terminal_width),
            GooseberryEntry::Event(e) => e.to_tui_long(terminal_width),
            GooseberryEntry::Research(e) => e.to_tui_long(terminal_width),
        }
    }

    fn merge_with_entry(&mut self, old_entry: &Self) {
        match self {
            GooseberryEntry::Task(e) => {
                if let GooseberryEntry::Task(o) = old_entry {
                    e.merge_with_entry(o)
                }
            },
            GooseberryEntry::Journal(e) => {
                if let GooseberryEntry::Journal(o) = old_entry {
                    e.merge_with_entry(o)
                }
            },
            GooseberryEntry::Event(e) => {
                if let GooseberryEntry::Event(o) = old_entry {
                    e.merge_with_entry(o)
                }
            },
            GooseberryEntry::Research(e) => {
                if let GooseberryEntry::Research(o) = old_entry {
                    e.merge_with_entry(o)
                }
            },
        }
    }

    fn format_id_datetime_tags(&self) -> (r: String) {
        match self {
            GooseberryEntry::Task(e) => e.format_id_datetime_tags(),
            GooseberryEntry::Journal(e) => e.format_id_datetime_tags(),
            GooseberryEntry::Event(e) => e.format_id_datetime_tags(),
            GooseberryEntry::Research(e) => e.format_id_datetime_tags(),
        }
    }
}

} // verus!
