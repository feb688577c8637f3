//! Marks and symbols of the stored and the displayed form.

use vstd::prelude::*;
use vstd::string::StringExecFns;

use crate::errors::{Sorry, SorryView};
use crate::text::{decimal, decimal_text, join, join_text, trim, trimmed};
use crate::timestamp::{written_seconds, Timestamp};

verus! {

/// The line that opens and closes the header of a stored entry.
pub const HEADER_MARK: &'static str = "---";

/// The symbol of a task that is done.
pub const DONE: char = '\u{2713}';

/// The symbol of a task that is not done.
pub const NOT_DONE: char = '\u{2715}';

/// Task states
#[derive(Copy, Debug, Clone, PartialEq, Eq, Structural)]
pub enum TaskState {
    Done,
    NotDone,
}

impl TaskState {
    /// The state that a task's `done` flag stands for.
    pub fn of(done: bool) -> (r: TaskState)
        ensures
            r == if done {
                TaskState::Done
            } else {
                TaskState::NotDone
            },
    {
        if done {
            TaskState::Done
        } else {
            TaskState::NotDone
        }
    }

    /// Unicode symbol for task states
    pub fn symbol(self) -> (r: char)
        ensures
            r == match self {
                TaskState::Done => DONE,
                TaskState::NotDone => NOT_DONE,
            },
    {
        match self {
            TaskState::Done => DONE,
            TaskState::NotDone => NOT_DONE,
        }
    }
}

/// How a piece of text is to be shown. The colours are the caller's.
#[derive(Copy, Debug, Clone, PartialEq, Eq, Structural)]
pub enum TextStyle {
    /// Plain.
    Raw,
    /// The symbol of a task state, in the colour of the state.
    Mark(TaskState),
    /// A title: italic, and bold where `bold` says so.
    Title { bold: bool },
    /// The line of tags and moment, in the first colour for metadata.
    PrimaryMetadata,
    /// The line of people, in the second colour for metadata.
    SecondaryMetadata,
    /// The heading of a day in the journal: the second colour for metadata, bold.
    DateHeading,
    /// Markdown, still to be highlighted.
    Markdown,
}

/// A piece of text with the way to show it.
#[derive(Debug)]
pub struct StyledText {
    pub text: String,
    pub style: TextStyle,
}

/// A styled text as a mathematical value.
pub struct StyledTextView {
    pub text: Seq<char>,
    pub style: TextStyle,
}

impl View for StyledText {
    type V = StyledTextView;

    open spec fn view(&self) -> StyledTextView {
        StyledTextView { text: self.text@, style: self.style }
    }
}

impl DeepView for StyledText {
    type V = StyledTextView;

    open spec fn deep_view(&self) -> StyledTextView {
        self@
    }
}

impl Clone for StyledText {
    fn clone(&self) -> (r: Self)
        ensures
            r@ == self@,
    {
        StyledText { text: self.text.clone(), style: self.style }
    }
}

/// The number of terminal columns that a text takes, as the crate
/// unicode-width counts them.
pub uninterp spec fn text_width(s: Seq<char>) -> nat;

/// `unicode_width::UnicodeWidthStr::width`. The contract names the result,
/// and says that the empty text has no width: the crate goes over the
/// characters from the last to the first, carrying a state from one to the
/// next, and starts its count at 0.
#[verifier::external_body]
fn display_width(s: &str) -> (r: usize)
    ensures
        r == text_width(s@),
        s@.len() == 0 ==> r == 0,
{
    unicode_width::UnicodeWidthStr::width(s)
}

/// The pattern of a date on screen.
pub const DATE_PATTERN: &'static str = "%b %d %Y";

/// The pattern of a time of day on screen.
pub const TIME_PATTERN: &'static str = "%r";

/// The pattern of a date and time on screen.
pub const DATE_TIME_PATTERN: &'static str = "%r %a %b %d %Y";

/// A plain line break.
pub open spec fn raw_break() -> StyledTextView {
    StyledTextView { text: seq!['\n'], style: TextStyle::Raw }
}

/// `n` spaces; none where `n` is not positive.
pub open spec fn spaces(n: int) -> Seq<char> {
    Seq::new(
        if n > 0 {
            n as nat
        } else {
            0
        },
        |i: int| ' ',
    )
}

/// `text` with `new_text` at the right end of a line of `terminal_width`
/// columns, the two taking `text_len` and `new_text_len` columns. Where they
/// do not fit with a space between them, `new_text` goes to the next line: at
/// its left where `left_too_long`, else at its right end if it fits there.
pub open spec fn right_formatted(
    text: Seq<char>,
    new_text: Seq<char>,
    text_len: int,
    new_text_len: int,
    terminal_width: int,
    left_too_long: bool,
) -> Seq<char> {
    if terminal_width < text_len + new_text_len + 1 {
        if left_too_long {
            text + seq!['\n'] + new_text + seq!['\n']
        } else if terminal_width < new_text_len + 1 {
            text + seq!['\n'] + seq!['\n'] + new_text + seq!['\n']
        } else {
            text + seq!['\n'] + spaces(terminal_width - new_text_len) + new_text + seq!['\n']
        }
    } else {
        text + spaces(terminal_width - text_len - new_text_len) + new_text + seq!['\n']
    }
}

/// `right_formatted` with the widths that the texts have on a terminal.
pub open spec fn placed_right(
    text: Seq<char>,
    new_text: Seq<char>,
    terminal_width: u16,
    left_too_long: bool,
) -> Seq<char> {
    right_formatted(
        text,
        new_text,
        text_width(text) as int,
        text_width(new_text) as int,
        terminal_width as int,
        left_too_long,
    )
}

/// The error for a moment that cannot be written under a pattern.
pub open spec fn unwritten() -> SorryView {
    SorryView::OutOfCheeseError { message: "The moment cannot be written"@ }
}

/// A moment written under a pattern, or the error.
pub open spec fn moment_text(secs: int, pattern: Seq<char>) -> Result<Seq<char>, SorryView> {
    match written_seconds(secs, pattern) {
        Some(text) => Ok(text),
        None => Err(unwritten()),
    }
}

/// The symbol of a task state with a space behind it.
pub open spec fn mark_text(state: TaskState) -> StyledTextView {
    StyledTextView {
        text: seq![
            match state {
                TaskState::Done => DONE,
                TaskState::NotDone => NOT_DONE,
            },
            ' ',
        ],
        style: TextStyle::Mark(state),
    }
}

/// The title line of an entry: the mark of its state if it has one, then the
/// trimmed title with the identifier at the right end of the line. The mark
/// takes two columns of the line.
pub open spec fn title_texts(
    id: u64,
    title: Seq<char>,
    mark: Option<TaskState>,
    terminal_width: u16,
    bold: bool,
) -> Seq<StyledTextView> {
    let width: u16 = match mark {
        Some(_) => if terminal_width >= 2 {
            (terminal_width - 2) as u16
        } else {
            0
        },
        None => terminal_width,
    };
    let line = StyledTextView {
        text: placed_right(trim(title), decimal(id as nat), width, false),
        style: TextStyle::Title { bold },
    };
    match mark {
        Some(state) => seq![mark_text(state), line],
        None => seq![line],
    }
}

/// The pattern under which the moment of an entry is shown.
pub open spec fn shown_pattern(date_only: bool, time_only: bool) -> Seq<char> {
    if date_only {
        DATE_PATTERN@
    } else if time_only {
        TIME_PATTERN@
    } else {
        DATE_TIME_PATTERN@
    }
}

/// The line of tags and moment: the tags with commas between them, the moment
/// at the right end.
pub open spec fn datetime_tags_text(
    datetime: int,
    tags: Seq<Seq<char>>,
    terminal_width: u16,
    date_only: bool,
    time_only: bool,
) -> Result<StyledTextView, SorryView> {
    match moment_text(datetime, shown_pattern(date_only, time_only)) {
        Err(e) => Err(e),
        Ok(moment) => Ok(
            StyledTextView {
                text: placed_right(join(tags, seq![',']), moment, terminal_width, true),
                style: TextStyle::PrimaryMetadata,
            },
        ),
    }
}

/// An entry in short: its title line, then its line of tags and moment.
pub open spec fn short_texts(
    id: u64,
    title: Seq<char>,
    mark: Option<TaskState>,
    datetime: int,
    tags: Seq<Seq<char>>,
    terminal_width: u16,
    date_only: bool,
    time_only: bool,
    bold_title: bool,
) -> Result<Seq<StyledTextView>, SorryView> {
    match datetime_tags_text(datetime, tags, terminal_width, date_only, time_only) {
        Err(e) => Err(e),
        Ok(line) => Ok(title_texts(id, title, mark, terminal_width, bold_title).push(line)),
    }
}

/// The line of the people of an event.
pub open spec fn people_text(people: Seq<Seq<char>>) -> StyledTextView {
    StyledTextView {
        text: join(people, seq![',', ' ']) + seq!['\n'],
        style: TextStyle::SecondaryMetadata,
    }
}

/// How many entries a day has, in words.
pub open spec fn entry_count_text(num_entries: usize) -> Seq<char> {
    decimal(num_entries as nat) + seq![' '] + if num_entries > 1 {
        "entries"@
    } else {
        "entry"@
    }
}

/// The heading of a day in the journal: the date, and at the right end the
/// number of the day's entries.
pub open spec fn date_num_entries_text(
    datetime: int,
    num_entries: usize,
    terminal_width: u16,
) -> Result<StyledTextView, SorryView> {
    match moment_text(datetime, DATE_PATTERN@) {
        Err(e) => Err(e),
        Ok(date) => Ok(
            StyledTextView {
                text: placed_right(date, entry_count_text(num_entries), terminal_width, true),
                style: TextStyle::DateHeading,
            },
        ),
    }
}

/// A markdown text as one piece, still to be highlighted.
pub open spec fn markdown_texts(markdown_text: Seq<char>) -> Seq<StyledTextView> {
    seq![StyledTextView { text: markdown_text, style: TextStyle::Markdown }]
}

impl TaskState {
    /// The symbol with a space behind it, to be shown in the colour of the state
    pub fn styled_symbol(self) -> (r: StyledText)
        ensures
            r@ == mark_text(self),
    {
        let mut text = String::new();
        text.push(self.symbol());
        text.push(' ');
        assert(text@ =~= mark_text(self).text);
        StyledText { text, style: TextStyle::Mark(self) }
    }
}

/// A plain line break.
pub fn line_break_text() -> (r: StyledText)
    ensures
        r@ == raw_break(),
{
    let mut text = String::new();
    text.push('\n');
    assert(text@ =~= seq!['\n']);
    StyledText { text, style: TextStyle::Raw }
}

/// A markdown-formatted string as a piece of text for the highlighter
pub fn markdown_to_styled_texts(markdown_text: &str) -> (r: Vec<StyledText>)
    ensures
        r.deep_view() == markdown_texts(markdown_text@),
{
    let mut texts: Vec<StyledText> = Vec::new();
    texts.push(StyledText { text: markdown_text.to_owned(), style: TextStyle::Markdown });
    assert(texts.deep_view() =~= markdown_texts(markdown_text@));
    texts
}

/// `n` spaces.
fn spaces_text(n: usize) -> (r: String)
    ensures
        r@ == spaces(n as int),
{
    let mut out = String::new();
    let mut i: usize = 0;
    assert(out@ =~= spaces(0));
    while i < n
        invariant
            i <= n,
            out@ == spaces(i as int),
        decreases n - i,
    {
        out.push(' ');
        i += 1;
        assert(out@ =~= spaces(i as int));
    }
    out
}

/// Adds text to an existing string but on the right, the two texts taking
/// `text_len` and `new_text_len` columns. If there's not enough space in the
/// terminal to do that with at least one space in the middle then puts the
/// new_text on the next line (on the left if left_too_long else right)
pub fn right_format_with(
    text: &str,
    new_text: &str,
    text_len: usize,
    new_text_len: usize,
    terminal_width: u16,
    left_too_long: bool,
) -> (r: String)
    ensures
        r@ == right_formatted(
            text@,
            new_text@,
            text_len as int,
            new_text_len as int,
            terminal_width as int,
            left_too_long,
        ),
{
    proof {
        reveal_strlit("\n");
        assert("\n"@ =~= seq!['\n']);
    }
    let width: usize = terminal_width as usize;
    let mut out = text.to_owned();
    if text_len >= width || new_text_len >= width - text_len {
        out.append("\n");
        if left_too_long {
        } else if new_text_len >= width {
            out.append("\n");
        } else {
            out.append(spaces_text(width - new_text_len).as_str());
        }
    } else {
        out.append(spaces_text(width - text_len - new_text_len).as_str());
    }
    out.append(new_text);
    out.append("\n");
    out
}

/// Adds text to an existing string but on the right, as `right_format_with`
/// with the columns that the two texts take on a terminal.
pub fn right_format(text: &str, new_text: &str, terminal_width: u16, left_too_long: bool) -> (r:
    String)
    ensures
        r@ == placed_right(text@, new_text@, terminal_width, left_too_long),
{
    let text_len = display_width(text);
    let new_text_len = display_width(new_text);
    right_format_with(text, new_text, text_len, new_text_len, terminal_width, left_too_long)
}

/// A moment written under a pattern, or the error.
pub fn format_moment(datetime: &Timestamp, pattern: &str) -> (r: Result<String, Sorry>)
    ensures
        match r {
            Ok(text) => moment_text(datetime@, pattern@) == Ok::<Seq<char>, SorryView>(text@),
            Err(e) => moment_text(datetime@, pattern@) == Err::<Seq<char>, SorryView>(e@),
        },
{
    match datetime.format(pattern) {
        Some(text) => Ok(text),
        None => Err(
            Sorry::OutOfCheeseError { message: "The moment cannot be written".to_owned() },
        ),
    }
}

/// The date of a moment, as in `Jan 01 2023`
pub fn format_date(datetime: &Timestamp) -> (r: Result<String, Sorry>)
    ensures
        match r {
            Ok(text) => moment_text(datetime@, DATE_PATTERN@) == Ok::<Seq<char>, SorryView>(text@),
            Err(e) => moment_text(datetime@, DATE_PATTERN@) == Err::<Seq<char>, SorryView>(e@),
        },
{
    format_moment(datetime, DATE_PATTERN)
}

/// The time of day of a moment, as in `12:00:00 AM`
pub fn format_time(datetime: &Timestamp) -> (r: Result<String, Sorry>)
    ensures
        match r {
            Ok(text) => moment_text(datetime@, TIME_PATTERN@) == Ok::<Seq<char>, SorryView>(text@),
            Err(e) => moment_text(datetime@, TIME_PATTERN@) == Err::<Seq<char>, SorryView>(e@),
        },
{
    format_moment(datetime, TIME_PATTERN)
}

/// The time and date of a moment, as in `12:00:00 AM Sun Jan 01 2023`
pub fn format_datetime(datetime: &Timestamp) -> (r: Result<String, Sorry>)
    ensures
        match r {
            Ok(text) => moment_text(datetime@, DATE_TIME_PATTERN@) == Ok::<Seq<char>, SorryView>(
                text@,
            ),
            Err(e) => moment_text(datetime@, DATE_TIME_PATTERN@) == Err::<Seq<char>, SorryView>(
                e@,
            ),
        },
{
    format_moment(datetime, DATE_TIME_PATTERN)
}

/// Add Style to a title with optional Task state
pub fn style_title(
    id: u64,
    title: &str,
    mark: Option<TaskState>,
    terminal_width: u16,
    bold: bool,
) -> (r: Vec<StyledText>)
    ensures
        r.deep_view() == title_texts(id, title@, mark, terminal_width, bold),
{
    let mut texts: Vec<StyledText> = Vec::new();
    let mut width = terminal_width;
    if let Some(state) = mark {
        texts.push(state.styled_symbol());
        width = if width >= 2 {
            width - 2
        } else {
            0
        };
    }
    let ghost before = texts.deep_view();
    let line = StyledText {
        text: right_format(trimmed(title).as_str(), decimal_text(id).as_str(), width, false),
        style: TextStyle::Title { bold },
    };
    texts.push(line);
    assert(texts.deep_view() =~= before.push(line@));
    assert(texts.deep_view() =~= title_texts(id, title@, mark, terminal_width, bold));
    texts
}

/// The line of the people of an event.
pub fn style_people(people: &Vec<String>) -> (r: StyledText)
    ensures
        r@ == people_text(people.deep_view()),
{
    proof {
        reveal_strlit(", ");
        assert(", "@ =~= seq![',', ' ']);
        reveal_strlit("\n");
        assert("\n"@ =~= seq!['\n']);
    }
    let mut text = join_text(people, ", ");
    text.append("\n");
    StyledText { text, style: TextStyle::SecondaryMetadata }
}

/// Style datetime and tags on same line, tags on left, date on right
pub fn style_datetime_tags(
    datetime: &Timestamp,
    tags: &Vec<String>,
    terminal_width: u16,
    date_only: bool,
    time_only: bool,
) -> (r: Result<StyledText, Sorry>)
    ensures
        match r {
            Ok(line) => datetime_tags_text(
                datetime@,
                tags.deep_view(),
                terminal_width,
                date_only,
                time_only,
            ) == Ok::<StyledTextView, SorryView>(line@),
            Err(e) => datetime_tags_text(
                datetime@,
                tags.deep_view(),
                terminal_width,
                date_only,
                time_only,
            ) == Err::<StyledTextView, SorryView>(e@),
        },
{
    let formatted = if date_only {
        format_date(datetime)
    } else if time_only {
        format_time(datetime)
    } else {
        format_datetime(datetime)
    };
    let moment = match formatted {
        Ok(moment) => moment,
        Err(e) => {
            return Err(e);
        },
    };
    proof {
        reveal_strlit(",");
        assert(","@ =~= seq![',']);
    }
    Ok(
        StyledText {
            text: right_format(
                join_text(tags, ",").as_str(),
                moment.as_str(),
                terminal_width,
                true,
            ),
            style: TextStyle::PrimaryMetadata,
        },
    )
}

/// Style an entry for short display
/// ID <task state> Title
/// Date Time
/// Tags
pub fn style_short(
    id: u64,
    title: &str,
    mark: Option<TaskState>,
    datetime: &Timestamp,
    tags: &Vec<String>,
    terminal_width: u16,
    date_only: bool,
    time_only: bool,
    bold_title: bool,
) -> (r: Result<Vec<StyledText>, Sorry>)
    ensures
        match r {
            Ok(texts) => short_texts(
                id,
                title@,
                mark,
                datetime@,
                tags.deep_view(),
                terminal_width,
                date_only,
                time_only,
                bold_title,
            ) == Ok::<Seq<StyledTextView>, SorryView>(texts.deep_view()),
            Err(e) => short_texts(
                id,
                title@,
                mark,
                datetime@,
                tags.deep_view(),
                terminal_width,
                date_only,
                time_only,
                bold_title,
            ) == Err::<Seq<StyledTextView>, SorryView>(e@),
        },
{
    let line = match style_datetime_tags(datetime, tags, terminal_width, date_only, time_only) {
        Ok(line) => line,
        Err(e) => {
            return Err(e);
        },
    };
    let mut texts = style_title(id, title, mark, terminal_width, bold_title);
    let ghost before = texts.deep_view();
    texts.push(line);
    assert(texts.deep_view() =~= before.push(line@));
    Ok(texts)
}

/// The heading of a day in the journal
pub fn style_date_num_entries(datetime: &Timestamp, num_entries: usize, terminal_width: u16) -> (r:
    Result<StyledText, Sorry>)
    ensures
        match r {
            Ok(line) => date_num_entries_text(datetime@, num_entries, terminal_width) == Ok::<
                StyledTextView,
                SorryView,
            >(line@),
            Err(e) => date_num_entries_text(datetime@, num_entries, terminal_width) == Err::<
                StyledTextView,
                SorryView,
            >(e@),
        },
{
    let date = match format_date(datetime) {
        Ok(date) => date,
        Err(e) => {
            return Err(e);
        },
    };
    proof {
        reveal_strlit(" ");
        assert(" "@ =~= seq![' ']);
    }
    let mut count = decimal_text(num_entries as u64);
    count.append(" ");
    if num_entries > 1 {
        count.append("entries");
    } else {
        count.append("entry");
    }
    Ok(
        StyledText {
            text: right_format(date.as_str(), count.as_str(), terminal_width, true),
            style: TextStyle::DateHeading,
        },
    )
}

/// Puts the pieces `more` behind the pieces `out`.
pub fn extend_texts(out: &mut Vec<StyledText>, more: Vec<StyledText>)
    ensures
        final(out).deep_view() == old(out).deep_view() + more.deep_view(),
{
    let mut more = more;
    let ghost all = more.deep_view();
    let ghost start = out.deep_view();
    let mut i: usize = 0;
    assert(out.deep_view() =~= start + all.take(0));
    while i < more.len()
        invariant
            i <= more.len(),
            all == more.deep_view(),
            out.deep_view() == start + all.take(i as int),
        decreases more.len() - i,
    {
        let ghost before = out.deep_view();
        let piece = more[i].clone();
        out.push(piece);
        assert(out.deep_view() =~= before.push(piece@));
        i += 1;
        assert(out.deep_view() =~= start + all.take(i as int));
    }
    assert(all.take(i as int) == all);
}

} // verus!
