//! The stored form of an entry as a function of text: a header of
//! `Key: Value` lines between two marks, then the body.

use vstd::prelude::*;

use crate::entry::GooseberryEntryType;
use crate::errors::{Malformation, SorryView};
use crate::text::{
    decimal, flag_of, flag_text, is_trimmed, join, lemma_join_split, lemma_join_without,
    lemma_list_items, lemma_list_items_of_text, lemma_number_of_decimal, lemma_split_concat,
    lemma_split_join, lemma_split_pieces, lemma_trim, lemma_trim_trimmed, list_items, list_safe, list_text, number_of,
    split, trim,
};
use crate::timestamp::{stamp_of, stamp_text, storable};
use crate::utility::formatting::HEADER_MARK;

verus! {

/// A header: its keys with their values, in the order of the lines.
pub type HeaderView = Seq<(Seq<char>, Seq<char>)>;

/// The line break, as a separator.
pub open spec fn line_break() -> Seq<char> {
    seq!['\n']
}

/// What stands between a key and its value.
pub open spec fn pair_separator() -> Seq<char> {
    seq![':', ' ']
}

/// The first position at or after `from` where `": "` begins in `s`, or the
/// length of `s` where there is none.
pub open spec fn pair_break(s: Seq<char>, from: int) -> int
    decreases s.len() - from,
{
    if from < 0 || from + 1 >= s.len() {
        s.len() as int
    } else if s[from] == ':' && s[from + 1] == ' ' {
        from
    } else {
        pair_break(s, from + 1)
    }
}

/// The key and the value of a header line, split at its first `": "`.
pub open spec fn pair_of(line: Seq<char>) -> Option<(Seq<char>, Seq<char>)> {
    let i = pair_break(line, 0);
    if i < line.len() {
        Some((line.take(i), line.skip(i + 2)))
    } else {
        None
    }
}

/// The header line of a key and a value.
pub open spec fn line_of(pair: (Seq<char>, Seq<char>)) -> Seq<char> {
    pair.0 + pair_separator() + pair.1
}

/// The value that a header gives for `key`: that of the last line with this key.
pub open spec fn lookup(header: HeaderView, key: Seq<char>) -> Option<Seq<char>>
    decreases header.len(),
{
    if header.len() == 0 {
        None
    } else if header.last().0 == key {
        Some(header.last().1)
    } else {
        lookup(header.drop_last(), key)
    }
}

/// The index of the first line at or after `from` that is the mark, or the
/// number of lines where there is none.
pub open spec fn closing(lines: Seq<Seq<char>>, from: int) -> int
    decreases lines.len() - from,
{
    if from < 0 || from >= lines.len() {
        lines.len() as int
    } else if lines[from] == HEADER_MARK@ {
        from
    } else {
        closing(lines, from + 1)
    }
}

/// The pairs of the header lines; the first line that is no pair is the error.
pub open spec fn pairs_of(lines: Seq<Seq<char>>) -> Result<HeaderView, SorryView>
    decreases lines.len(),
{
    if lines.len() == 0 {
        Ok(Seq::empty())
    } else {
        match pairs_of(lines.drop_last()) {
            Err(e) => Err(e),
            Ok(header) => match pair_of(lines.last()) {
                None => Err(
                    SorryView::MalformedHeaderElement {
                        element: lines.last(),
                        cause: Malformation::NoSeparator,
                    },
                ),
                Some(pair) => Ok(header.push(pair)),
            },
        }
    }
}

/// The header that the lines begin with, and the index of the first line after
/// it. The first line must be the mark, and a later line must be the mark
/// again; the lines between them must be pairs.
pub open spec fn header_of(lines: Seq<Seq<char>>) -> Result<(HeaderView, int), SorryView> {
    if lines.len() == 0 || lines[0] != HEADER_MARK@ {
        Err(SorryView::MissingHeader)
    } else {
        let k = closing(lines, 1);
        if k >= lines.len() {
            Err(SorryView::MissingHeader)
        } else {
            match pairs_of(lines.subrange(1, k)) {
                Err(e) => Err(e),
                Ok(header) => Ok((header, k + 1)),
            }
        }
    }
}

/// The header and the body of a stored entry.
pub open spec fn sections(content: Seq<char>) -> Result<(HeaderView, Seq<char>), SorryView> {
    let lines = split(content, '\n');
    match header_of(lines) {
        Err(e) => Err(e),
        Ok((header, next)) => Ok((header, join(lines.skip(next), line_break()))),
    }
}

/// The lines of a stored entry: the mark, the header lines, the mark, the body.
pub open spec fn record_lines(header: HeaderView, body: Seq<char>) -> Seq<Seq<char>> {
    seq![HEADER_MARK@] + header.map_values(|p: (Seq<char>, Seq<char>)| line_of(p)) + seq![
        HEADER_MARK@,
        body,
    ]
}

/// The stored text of a header and a body.
pub open spec fn record_text(header: HeaderView, body: Seq<char>) -> Seq<char> {
    join(record_lines(header, body), line_break())
}

/// A key that a header line can carry: no colon and no line break in it.
pub open spec fn key_safe(key: Seq<char>) -> bool {
    !key.contains(':') && !key.contains('\n')
}

/// A header whose lines read back as they were written: safe keys, and no
/// line break in a value.
pub open spec fn header_safe(header: HeaderView) -> bool {
    forall|i: int|
        0 <= i < header.len() ==> key_safe((#[trigger] header[i]).0) && !header[i].1.contains('\n')
}

/// `pair_break` finds the first `": "`.
pub proof fn lemma_pair_break_is(s: Seq<char>, from: int, k: int)
    requires
        0 <= from <= k,
        k + 1 < s.len(),
        s[k] == ':',
        s[k + 1] == ' ',
        forall|j: int| from <= j < k ==> s[j] != ':',
    ensures
        pair_break(s, from) == k,
    decreases k - from,
{
    if from < k {
        lemma_pair_break_is(s, from + 1, k);
    }
}

/// A line written from a safe key reads as its pair, has no line break where
/// the value has none, and is not the mark.
pub proof fn lemma_pair_of_line(pair: (Seq<char>, Seq<char>))
    requires
        key_safe(pair.0),
    ensures
        pair_of(line_of(pair)) == Some(pair),
        line_of(pair) != HEADER_MARK@,
        !pair.1.contains('\n') ==> !line_of(pair).contains('\n'),
{
    let line = line_of(pair);
    let k = pair.0.len() as int;
    assert(line[k] == ':');
    assert(line[k + 1] == ' ');
    assert forall|j: int| 0 <= j < k implies line[j] != ':' by {
        assert(line[j] == pair.0[j]);
    }
    lemma_pair_break_is(line, 0, k);
    assert(line.take(k) == pair.0);
    assert(line.skip(k + 2) == pair.1);
    reveal_strlit("---");
    if line == HEADER_MARK@ {
        assert(HEADER_MARK@[k] == ':');
    }
    if !pair.1.contains('\n') {
        assert forall|j: int| 0 <= j < line.len() implies line[j] != '\n' by {
            if j < k {
                assert(line[j] == pair.0[j]);
            } else if j >= k + 2 {
                assert(line[j] == pair.1[j - k - 2]);
            }
        }
    }
}

/// The lines written from a safe header read as its pairs.
pub proof fn lemma_pairs_of_lines(header: HeaderView)
    requires
        header_safe(header),
    ensures
        pairs_of(header.map_values(|p: (Seq<char>, Seq<char>)| line_of(p))) == Ok::<
            HeaderView,
            SorryView,
        >(header),
    decreases header.len(),
{
    let lines = header.map_values(|p: (Seq<char>, Seq<char>)| line_of(p));
    if header.len() == 0 {
        assert(header == Seq::<(Seq<char>, Seq<char>)>::empty());
    } else {
        let front = header.drop_last();
        assert(lines.drop_last() == front.map_values(|p: (Seq<char>, Seq<char>)| line_of(p)));
        lemma_pairs_of_lines(front);
        lemma_pair_of_line(header.last());
        assert(lines.last() == line_of(header.last()));
        assert(front.push(header.last()) == header);
    }
}

/// `closing` finds the first mark.
pub proof fn lemma_closing_is(lines: Seq<Seq<char>>, from: int, k: int)
    requires
        0 <= from <= k < lines.len(),
        lines[k] == HEADER_MARK@,
        forall|j: int| from <= j < k ==> lines[j] != HEADER_MARK@,
    ensures
        closing(lines, from) == k,
    decreases k - from,
{
    if from < k {
        lemma_closing_is(lines, from + 1, k);
    }
}

/// A stored text written from a safe header reads as that header and body.
pub proof fn lemma_sections_of_record(header: HeaderView, body: Seq<char>)
    requires
        header_safe(header),
    ensures
        sections(record_text(header, body)) == Ok::<(HeaderView, Seq<char>), SorryView>(
            (header, body),
        ),
{
    let written = header.map_values(|p: (Seq<char>, Seq<char>)| line_of(p));
    let top = seq![HEADER_MARK@] + written + seq![HEADER_MARK@];
    let all = record_lines(header, body);
    let n = header.len() as int;
    reveal_strlit("---");
    assert(all == top.push(body));
    assert(all.drop_last() == top);
    assert(record_text(header, body) == join(top, line_break()) + line_break() + body);
    assert forall|i: int| 0 <= i < top.len() implies !(#[trigger] top[i]).contains('\n') by {
        if 1 <= i <= n {
            lemma_pair_of_line(header[i - 1]);
            assert(top[i] == line_of(header[i - 1]));
        } else {
            assert(top[i] == HEADER_MARK@);
        }
    }
    lemma_split_join(top, '\n');
    lemma_split_concat(join(top, line_break()), body, '\n');
    let lines = split(record_text(header, body), '\n');
    assert(lines == top + split(body, '\n'));
    assert(lines[0] == HEADER_MARK@);
    assert(lines[n + 1] == HEADER_MARK@);
    assert forall|j: int| 1 <= j < n + 1 implies lines[j] != HEADER_MARK@ by {
        lemma_pair_of_line(header[j - 1]);
        assert(lines[j] == line_of(header[j - 1]));
    }
    lemma_closing_is(lines, 1, n + 1);
    assert(lines.subrange(1, n + 1) == written);
    lemma_pairs_of_lines(header);
    assert(lines.skip(n + 2) == split(body, '\n'));
    lemma_join_split(body, '\n');
}

/// An entry as a mathematical value: its texts as sequences of characters,
/// its moment in seconds.
pub enum EntryView {
    Task {
        id: u64,
        task: Seq<char>,
        description: Seq<char>,
        datetime: int,
        done: bool,
        tags: Seq<Seq<char>>,
    },
    Journal { id: u64, description: Seq<char>, datetime: int, tags: Seq<Seq<char>> },
    Research { id: u64, title: Seq<char>, notes: Seq<char>, datetime: int, tags: Seq<Seq<char>> },
    Event {
        id: u64,
        title: Seq<char>,
        people: Seq<Seq<char>>,
        datetime: int,
        notes: Seq<char>,
        tags: Seq<Seq<char>>,
    },
}

/// The name of a kind of entry, as it stands in a header and in a file name.
pub open spec fn kind_name(kind: GooseberryEntryType) -> Seq<char> {
    match kind {
        GooseberryEntryType::Task => "Task"@,
        GooseberryEntryType::Research => "Research"@,
        GooseberryEntryType::Journal => "Journal"@,
        GooseberryEntryType::Event => "Event"@,
    }
}

/// The kind that a `Type` value names, once trimmed; an unknown name is the
/// error, with the value as it stood.
pub open spec fn kind_of(name: Seq<char>) -> Result<GooseberryEntryType, SorryView> {
    let inner = trim(name);
    if inner == "Task"@ {
        Ok(GooseberryEntryType::Task)
    } else if inner == "Research"@ {
        Ok(GooseberryEntryType::Research)
    } else if inner == "Journal"@ {
        Ok(GooseberryEntryType::Journal)
    } else if inner == "Event"@ {
        Ok(GooseberryEntryType::Event)
    } else {
        Err(SorryView::UnknownEntryType { entry_type: name })
    }
}

/// The error for a header without the element `key`.
pub open spec fn missing(key: Seq<char>) -> SorryView {
    SorryView::MissingHeaderElement { element: key }
}

/// The error for a header whose element `key` cannot be read.
pub open spec fn malformed(key: Seq<char>, cause: Malformation) -> SorryView {
    SorryView::MalformedHeaderElement { element: key, cause }
}

/// The value of a required element.
pub open spec fn required(header: HeaderView, key: Seq<char>) -> Result<Seq<char>, SorryView> {
    match lookup(header, key) {
        Some(value) => Ok(value),
        None => Err(missing(key)),
    }
}

/// What every kind of entry reads from its header: the identifier, the moment
/// and the tags, asked for in this order.
pub open spec fn common_of(header: HeaderView) -> Result<(u64, int, Seq<Seq<char>>), SorryView> {
    match required(header, "ID"@) {
        Err(e) => Err(e),
        Ok(id_text) => match number_of(id_text) {
            None => Err(malformed("ID"@, Malformation::NotANumber)),
            Some(id) => match required(header, "DateTime"@) {
                Err(e) => Err(e),
                Ok(stamp) => match stamp_of(stamp) {
                    None => Err(malformed("DateTime"@, Malformation::NotADateTime)),
                    Some(datetime) => match required(header, "Tags"@) {
                        Err(e) => Err(e),
                        Ok(tags) => Ok((id, datetime, list_items(tags))),
                    },
                },
            },
        },
    }
}

/// The task that a header and a body read as.
pub open spec fn task_of(header: HeaderView, body: Seq<char>) -> Result<EntryView, SorryView> {
    match common_of(header) {
        Err(e) => Err(e),
        Ok((id, datetime, tags)) => match required(header, "Task"@) {
            Err(e) => Err(e),
            Ok(task) => match required(header, "Done"@) {
                Err(e) => Err(e),
                Ok(done_text) => match flag_of(trim(done_text)) {
                    None => Err(malformed("Done"@, Malformation::NotABool)),
                    Some(done) => Ok(
                        EntryView::Task {
                            id,
                            task: trim(task),
                            description: body,
                            datetime,
                            done,
                            tags,
                        },
                    ),
                },
            },
        },
    }
}

/// The journal entry that a header and a body read as.
pub open spec fn journal_of(header: HeaderView, body: Seq<char>) -> Result<EntryView, SorryView> {
    match common_of(header) {
        Err(e) => Err(e),
        Ok((id, datetime, tags)) => Ok(EntryView::Journal { id, description: body, datetime, tags }),
    }
}

/// The research entry that a header and a body read as.
pub open spec fn research_of(header: HeaderView, body: Seq<char>) -> Result<EntryView, SorryView> {
    match common_of(header) {
        Err(e) => Err(e),
        Ok((id, datetime, tags)) => match required(header, "Title"@) {
            Err(e) => Err(e),
            Ok(title) => Ok(
                EntryView::Research { id, title: trim(title), notes: body, datetime, tags },
            ),
        },
    }
}

/// The event that a header and a body read as.
pub open spec fn event_of(header: HeaderView, body: Seq<char>) -> Result<EntryView, SorryView> {
    match common_of(header) {
        Err(e) => Err(e),
        Ok((id, datetime, tags)) => match required(header, "Title"@) {
            Err(e) => Err(e),
            Ok(title) => match required(header, "People"@) {
                Err(e) => Err(e),
                Ok(people) => Ok(
                    EntryView::Event {
                        id,
                        title: trim(title),
                        people: list_items(people),
                        datetime,
                        notes: body,
                        tags,
                    },
                ),
            },
        },
    }
}

/// The entry that a header and a body read as: the `Type` element picks the
/// kind, and the kind says which elements are required.
pub open spec fn entry_of(header: HeaderView, body: Seq<char>) -> Result<EntryView, SorryView> {
    match required(header, "Type"@) {
        Err(e) => Err(e),
        Ok(name) => match kind_of(name) {
            Err(e) => Err(e),
            Ok(GooseberryEntryType::Task) => task_of(header, body),
            Ok(GooseberryEntryType::Journal) => journal_of(header, body),
            Ok(GooseberryEntryType::Research) => research_of(header, body),
            Ok(GooseberryEntryType::Event) => event_of(header, body),
        },
    }
}

/// The entry that a stored text reads as.
pub open spec fn decode(content: Seq<char>) -> Result<EntryView, SorryView> {
    match sections(content) {
        Err(e) => Err(e),
        Ok((header, body)) => entry_of(header, body),
    }
}

/// The four header elements that every kind of entry writes.
pub open spec fn common_header(
    kind: GooseberryEntryType,
    id: u64,
    datetime: int,
    tags: Seq<Seq<char>>,
) -> HeaderView {
    seq![
        ("Type"@, kind_name(kind)),
        ("ID"@, decimal(id as nat)),
        ("DateTime"@, stamp_text(datetime)),
        ("Tags"@, list_text(tags)),
    ]
}

impl EntryView {
    /// The identifier.
    pub open spec fn id(self) -> u64 {
        match self {
            EntryView::Task { id, .. } => id,
            EntryView::Journal { id, .. } => id,
            EntryView::Research { id, .. } => id,
            EntryView::Event { id, .. } => id,
        }
    }

    /// The moment at which the entry was written, in seconds.
    pub open spec fn datetime(self) -> int {
        match self {
            EntryView::Task { datetime, .. } => datetime,
            EntryView::Journal { datetime, .. } => datetime,
            EntryView::Research { datetime, .. } => datetime,
            EntryView::Event { datetime, .. } => datetime,
        }
    }

    /// The tags.
    pub open spec fn tags(self) -> Seq<Seq<char>> {
        match self {
            EntryView::Task { tags, .. } => tags,
            EntryView::Journal { tags, .. } => tags,
            EntryView::Research { tags, .. } => tags,
            EntryView::Event { tags, .. } => tags,
        }
    }

    /// The kind of the entry.
    pub open spec fn entry_type(self) -> GooseberryEntryType {
        match self {
            EntryView::Task { .. } => GooseberryEntryType::Task,
            EntryView::Journal { .. } => GooseberryEntryType::Journal,
            EntryView::Research { .. } => GooseberryEntryType::Research,
            EntryView::Event { .. } => GooseberryEntryType::Event,
        }
    }

    /// The part of the entry that is stored after the header.
    pub open spec fn body(self) -> Seq<char> {
        match self {
            EntryView::Task { description, .. } => description,
            EntryView::Journal { description, .. } => description,
            EntryView::Research { notes, .. } => notes,
            EntryView::Event { notes, .. } => notes,
        }
    }

    /// The elements that the kind adds to the common four.
    pub open spec fn own_header(self) -> HeaderView {
        match self {
            EntryView::Task { task, done, .. } => seq![("Task"@, task), ("Done"@, flag_text(done))],
            EntryView::Journal { .. } => seq![],
            EntryView::Research { title, .. } => seq![("Title"@, title)],
            EntryView::Event { title, people, .. } => seq![
                ("Title"@, title),
                ("People"@, list_text(people)),
            ],
        }
    }

    /// The header of the stored entry.
    pub open spec fn header(self) -> HeaderView {
        common_header(self.entry_type(), self.id(), self.datetime(), self.tags())
            + self.own_header()
    }

    /// The entry reads back from its stored text as it is: its moment can be
    /// stored, its one-line texts are trimmed and on one line, and the items
    /// of its lists are trimmed, on one line and free of commas. A list may be
    /// empty; the list of one empty item is left out, since its text is that
    /// of the empty list.
    pub open spec fn wf(self) -> bool {
        &&& storable(self.datetime())
        &&& stored_list(self.tags())
        &&& match self {
            EntryView::Task { task, .. } => stored_line(task),
            EntryView::Journal { .. } => true,
            EntryView::Research { title, .. } => stored_line(title),
            EntryView::Event { title, people, .. } => stored_line(title) && stored_list(people),
        }
    }
}

/// A text that comes back from a header value: trimmed and on one line.
pub open spec fn stored_line(s: Seq<char>) -> bool {
    is_trimmed(s) && !s.contains('\n')
}

/// A list that comes back from a header value.
pub open spec fn stored_list(items: Seq<Seq<char>>) -> bool {
    &&& list_safe(items)
    &&& forall|i: int| 0 <= i < items.len() ==> !(#[trigger] items[i]).contains('\n')
}

/// The stored text of an entry.
pub open spec fn encode(e: EntryView) -> Seq<char> {
    record_text(e.header(), e.body())
}

/// The last line with a key gives the key's value.
pub proof fn lemma_lookup_at(header: HeaderView, i: int)
    requires
        0 <= i < header.len(),
        forall|j: int| i < j < header.len() ==> header[j].0 != header[i].0,
    ensures
        lookup(header, header[i].0) == Some(header[i].1),
    decreases header.len(),
{
    if i < header.len() - 1 {
        lemma_lookup_at(header.drop_last(), i);
    }
}

/// The text of a stored list is on one line.
pub proof fn lemma_list_text_line(items: Seq<Seq<char>>)
    requires
        stored_list(items),
    ensures
        !list_text(items).contains('\n'),
{
    let sep = seq![',', ' '];
    assert(!sep.contains('\n')) by {
        assert forall|j: int| 0 <= j < sep.len() implies sep[j] != '\n' by {}
    }
    lemma_join_without(items, sep, '\n');
}

/// What the header elements of an entry hold, by position.
proof fn lemma_header_shape(e: EntryView)
    ensures
        e.header().len() == 4 + e.own_header().len(),
        e.header()[0] == ("Type"@, kind_name(e.entry_type())),
        e.header()[1] == ("ID"@, decimal(e.id() as nat)),
        e.header()[2] == ("DateTime"@, stamp_text(e.datetime())),
        e.header()[3] == ("Tags"@, list_text(e.tags())),
        forall|j: int| 0 <= j < e.own_header().len() ==> e.header()[4 + j] == e.own_header()[j],
{
}

/// The names in a header are texts of their own: each differs from the
/// others, none holds a colon or a line break, and the names of the kinds are
/// trimmed.
proof fn lemma_names()
    ensures
        key_safe("Type"@),
        key_safe("ID"@),
        key_safe("DateTime"@),
        key_safe("Tags"@),
        key_safe("Task"@),
        key_safe("Done"@),
        key_safe("Title"@),
        key_safe("People"@),
        "Type"@.len() == 4,
        "ID"@.len() == 2,
        "DateTime"@.len() == 8,
        "Tags"@.len() == 4 && "Tags"@[1] == 'a',
        "Task"@.len() == 4 && "Task"@[1] == 'a' && "Task"@[2] == 's',
        "Done"@.len() == 4 && "Done"@[1] == 'o',
        "Title"@.len() == 5 && "Title"@[0] == 'T',
        "People"@.len() == 6,
        "Type"@[1] == 'y',
        "Tags"@[2] == 'g',
        stored_line("Task"@),
        stored_line("Research"@),
        stored_line("Journal"@),
        stored_line("Event"@),
        "Research"@.len() == 8,
        "Journal"@.len() == 7,
        "Event"@.len() == 5 && "Event"@[0] == 'E',
{
    reveal_strlit("Type");
    reveal_strlit("ID");
    reveal_strlit("DateTime");
    reveal_strlit("Tags");
    reveal_strlit("Task");
    reveal_strlit("Done");
    reveal_strlit("Title");
    reveal_strlit("People");
    reveal_strlit("Research");
    reveal_strlit("Journal");
    reveal_strlit("Event");
}

/// Reading what a well-formed entry writes gives the entry: for every entry
/// `e` with `e.wf()`, `decode(encode(e)) == Ok(e)`.
pub proof fn lemma_round_trip(e: EntryView)
    requires
        e.wf(),
    ensures
        decode(encode(e)) == Ok::<EntryView, SorryView>(e),
{
    let h = e.header();
    let own = e.own_header();
    lemma_names();
    lemma_header_shape(e);
    lemma_number_of_decimal(e.id());
    lemma_list_text_line(e.tags());
    lemma_list_items_of_text(e.tags());
    lemma_trim_trimmed(kind_name(e.entry_type()));
    assert(flag_of(trim(flag_text(true))) == Some(true)) by {
        lemma_trim_trimmed(flag_text(true));
    }
    assert(flag_of(trim(flag_text(false))) == Some(false)) by {
        lemma_trim_trimmed(flag_text(false));
    }
    match e {
        EntryView::Task { task, done, .. } => {
            lemma_trim_trimmed(task);
            assert(own[0] == ("Task"@, task));
            assert(own[1] == ("Done"@, flag_text(done)));
            assert(!flag_text(done).contains('\n'));
        },
        EntryView::Journal { .. } => {},
        EntryView::Research { title, .. } => {
            lemma_trim_trimmed(title);
            assert(own[0] == ("Title"@, title));
        },
        EntryView::Event { title, people, .. } => {
            lemma_trim_trimmed(title);
            lemma_list_text_line(people);
            lemma_list_items_of_text(people);
            assert(own[0] == ("Title"@, title));
            assert(own[1] == ("People"@, list_text(people)));
        },
    }
    assert(header_safe(h)) by {
        assert forall|i: int| 0 <= i < h.len() implies key_safe((#[trigger] h[i]).0)
            && !h[i].1.contains('\n') by {
            if i >= 4 {
                assert(h[i] == own[i - 4]);
            }
        }
    }
    lemma_sections_of_record(h, e.body());
    lemma_lookup_at(h, 0);
    lemma_lookup_at(h, 1);
    lemma_lookup_at(h, 2);
    lemma_lookup_at(h, 3);
    if own.len() >= 1 {
        lemma_lookup_at(h, 4);
    }
    if own.len() >= 2 {
        lemma_lookup_at(h, 5);
    }
}

/// What reads from a header and a body is well formed.
pub proof fn lemma_entry_of_wf(header: HeaderView, body: Seq<char>)
    requires
        header_safe_values(header),
    ensures
        entry_of(header, body) matches Ok(e) ==> e.wf(),
{
    if let Ok(e) = entry_of(header, body) {
        lemma_lookup_in(header, "Tags"@);
        lemma_lookup_in(header, "Task"@);
        lemma_lookup_in(header, "Title"@);
        lemma_lookup_in(header, "People"@);
        lemma_stored_items(lookup(header, "Tags"@)->0);
        match e {
            EntryView::Task { .. } => {
                lemma_trim(lookup(header, "Task"@)->0);
            },
            EntryView::Journal { .. } => {},
            EntryView::Research { .. } => {
                lemma_trim(lookup(header, "Title"@)->0);
            },
            EntryView::Event { .. } => {
                lemma_trim(lookup(header, "Title"@)->0);
                lemma_stored_items(lookup(header, "People"@)->0);
            },
        }
    }
}

/// No value of the header holds a line break.
pub open spec fn header_safe_values(header: HeaderView) -> bool {
    forall|i: int| 0 <= i < header.len() ==> !(#[trigger] header[i]).1.contains('\n')
}

/// A value that a lookup finds is the value of one of the lines.
pub proof fn lemma_lookup_in(header: HeaderView, key: Seq<char>)
    ensures
        lookup(header, key) matches Some(v) ==> exists|i: int|
            0 <= i < header.len() && (#[trigger] header[i]).1 == v,
    decreases header.len(),
{
    if header.len() > 0 && header.last().0 != key {
        lemma_lookup_in(header.drop_last(), key);
        if let Some(v) = lookup(header, key) {
            let i = choose|i: int|
                0 <= i < header.drop_last().len() && (#[trigger] header.drop_last()[i]).1 == v;
            assert(header[i].1 == v);
        }
    } else if header.len() > 0 {
        assert(header[header.len() - 1].1 == header.last().1);
    }
}

/// The items of a one-line list text are a stored list.
pub proof fn lemma_stored_items(s: Seq<char>)
    requires
        !s.contains('\n'),
    ensures
        stored_list(list_items(s)),
{
    lemma_list_items(s);
}

/// Where `pair_break` stops short of the end, `": "` stands there, and no
/// `": "` begins before it.
pub proof fn lemma_pair_break(s: Seq<char>, from: int)
    requires
        0 <= from,
    ensures
        pair_break(s, from) < s.len() ==> from <= pair_break(s, from) && pair_break(s, from) + 1
            < s.len() && s[pair_break(s, from)] == ':' && s[pair_break(s, from) + 1] == ' ',
        pair_break(s, from) <= s.len(),
        forall|j: int|
            from <= j < pair_break(s, from) && j + 1 < s.len() ==> !(#[trigger] s[j] == ':' && s[j
                + 1] == ' '),
    decreases s.len() - from,
{
    if from + 1 < s.len() && !(s[from] == ':' && s[from + 1] == ' ') {
        lemma_pair_break(s, from + 1);
    }
}

/// `closing` stays within the lines, at or after where it starts.
pub proof fn lemma_closing_bounds(lines: Seq<Seq<char>>, from: int)
    requires
        0 <= from <= lines.len(),
    ensures
        from <= closing(lines, from) <= lines.len(),
        closing(lines, from) < lines.len() ==> lines[closing(lines, from)] == HEADER_MARK@,
        forall|j: int| from <= j < closing(lines, from) ==> lines[j] != HEADER_MARK@,
    decreases lines.len() - from,
{
    if from < lines.len() && lines[from] != HEADER_MARK@ {
        lemma_closing_bounds(lines, from + 1);
    }
}

/// The values of the pairs of one-line lines are on one line.
pub proof fn lemma_pairs_of_values(lines: Seq<Seq<char>>)
    requires
        forall|i: int| 0 <= i < lines.len() ==> !(#[trigger] lines[i]).contains('\n'),
    ensures
        pairs_of(lines) matches Ok(header) ==> header_safe_values(header),
    decreases lines.len(),
{
    if lines.len() > 0 {
        let front = lines.drop_last();
        assert forall|i: int| 0 <= i < front.len() implies !(#[trigger] front[i]).contains(
            '\n',
        ) by {
            assert(front[i] == lines[i]);
        }
        lemma_pairs_of_values(front);
        if let Ok(header) = pairs_of(lines) {
            let line = lines.last();
            let pair = pair_of(line)->0;
            assert(!line.contains('\n'));
            lemma_pair_break(line, 0);
            assert(!pair.1.contains('\n')) by {
                if pair.1.contains('\n') {
                    let j = choose|j: int| 0 <= j < pair.1.len() && pair.1[j] == '\n';
                    assert(line[pair_break(line, 0) + 2 + j] == '\n');
                }
            }
            let before = pairs_of(front)->Ok_0;
            assert forall|i: int| 0 <= i < header.len() implies !(#[trigger] header[i]).1.contains(
                '\n',
            ) by {
                if i < before.len() {
                    assert(header[i] == before[i]);
                }
            }
        }
    }
}

/// Whatever reads from a stored text is well formed, so it reads back from
/// its own stored text as itself.
pub proof fn lemma_decode_wf(content: Seq<char>)
    ensures
        decode(content) matches Ok(e) ==> e.wf(),
{
    if let Ok((header, body)) = sections(content) {
        let lines = split(content, '\n');
        lemma_split_pieces(content, '\n');
        let k = closing(lines, 1);
        lemma_closing_bounds(lines, 1);
        let inner = lines.subrange(1, k);
        assert forall|i: int| 0 <= i < inner.len() implies !(#[trigger] inner[i]).contains(
            '\n',
        ) by {
            assert(inner[i] == lines[i + 1]);
        }
        lemma_pairs_of_values(inner);
        lemma_entry_of_wf(header, body);
    }
}

} // verus!
