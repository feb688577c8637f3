//! What a list of entries looks like on screen: the entries in the order of
//! their moments, each as pieces of styled text; in the journal, a heading
//! before the first entry of each day.

use std::collections::HashMap;
use vstd::prelude::*;

use crate::entry::{GooseberryEntry, GooseberryEntryTrait, GooseberryEntryType};
use crate::errors::{Sorry, SorryView};
use crate::record::EntryView;
use crate::text::trim;
use crate::timestamp::{day_of, day_of_seconds};
use crate::utility::formatting::{
    date_num_entries_text, extend_texts, markdown_texts, people_text, raw_break, short_texts,
    style_date_num_entries, StyledText, StyledTextView, TaskState,
};

verus! {

broadcast use vstd::std_specs::hash::group_hash_axioms;

/// A moment in seconds with the identifier of the entry written then.
pub type Row = (i64, u64);

/// The state that a task's `done` flag stands for.
pub open spec fn state_of(done: bool) -> TaskState {
    if done {
        TaskState::Done
    } else {
        TaskState::NotDone
    }
}

/// An entry in short: the title line and the line of tags and moment. A task
/// shows its state, a research entry only the date, a journal entry only the
/// time of day.
pub open spec fn tui_short(e: EntryView, terminal_width: u16) -> Result<
    Seq<StyledTextView>,
    SorryView,
> {
    match e {
        EntryView::Task { id, task, datetime, done, tags, .. } => short_texts(
            id,
            task,
            Some(state_of(done)),
            datetime,
            tags,
            terminal_width,
            false,
            false,
            true,
        ),
        EntryView::Journal { id, description, datetime, tags } => short_texts(
            id,
            description,
            None,
            datetime,
            tags,
            terminal_width,
            false,
            true,
            false,
        ),
        EntryView::Research { id, title, datetime, tags, .. } => short_texts(
            id,
            title,
            None,
            datetime,
            tags,
            terminal_width,
            true,
            false,
            true,
        ),
        EntryView::Event { id, title, datetime, tags, .. } => short_texts(
            id,
            title,
            None,
            datetime,
            tags,
            terminal_width,
            false,
            false,
            true,
        ),
    }
}

/// What an entry shows after its short form.
pub open spec fn tui_rest(e: EntryView) -> Seq<StyledTextView> {
    match e {
        EntryView::Task { description, .. } => markdown_texts(trim(description)) + seq![
            raw_break(),
            raw_break(),
        ],
        EntryView::Journal { .. } => seq![raw_break()],
        EntryView::Research { notes, .. } => seq![raw_break()] + markdown_texts(trim(notes))
            + seq![raw_break(), raw_break()],
        EntryView::Event { people, notes, .. } => seq![people_text(people), raw_break()]
            + markdown_texts(trim(notes)) + seq![raw_break(), raw_break()],
    }
}

/// An entry in full.
pub open spec fn tui_long(e: EntryView, terminal_width: u16) -> Result<
    Seq<StyledTextView>,
    SorryView,
> {
    match tui_short(e, terminal_width) {
        Err(s) => Err(s),
        Ok(short) => Ok(short + tui_rest(e)),
    }
}

/// An entry as the list shows it: in short where the list is folded.
pub open spec fn shown(e: EntryView, fold: bool, terminal_width: u16) -> Result<
    Seq<StyledTextView>,
    SorryView,
> {
    if fold {
        tui_short(e, terminal_width)
    } else {
        tui_long(e, terminal_width)
    }
}

/// A row put into rows that are in the order of their moments: behind the
/// last row that is not later than it.
pub open spec fn inserted(sorted: Seq<Row>, row: Row) -> Seq<Row>
    decreases sorted.len(),
{
    if sorted.len() == 0 {
        seq![row]
    } else if sorted.last().0 <= row.0 {
        sorted.push(row)
    } else {
        inserted(sorted.drop_last(), row).push(sorted.last())
    }
}

/// The rows in the order of their moments; rows of one moment keep their order.
pub open spec fn by_moment(rows: Seq<Row>) -> Seq<Row>
    decreases rows.len(),
{
    if rows.len() == 0 {
        Seq::empty()
    } else {
        inserted(by_moment(rows.drop_last()), rows.last())
    }
}

/// The moments and identifiers of the entries with the identifiers `ids`.
pub open spec fn rows_of(entries: Map<u64, EntryView>, ids: Seq<u64>) -> Seq<Row> {
    Seq::new(ids.len(), |i: int| (entries[ids[i]].datetime() as i64, ids[i]))
}

/// The parts put together, or the first error among them.
pub open spec fn gathered(parts: Seq<Result<Seq<StyledTextView>, SorryView>>) -> Result<
    Seq<StyledTextView>,
    SorryView,
>
    decreases parts.len(),
{
    if parts.len() == 0 {
        Ok(Seq::empty())
    } else {
        match gathered(parts.drop_last()) {
            Err(e) => Err(e),
            Ok(front) => match parts.last() {
                Err(e) => Err(e),
                Ok(more) => Ok(front + more),
            },
        }
    }
}

/// How many of the rows lie in the day `day`.
pub open spec fn day_count(rows: Seq<Row>, day: int) -> nat
    decreases rows.len(),
{
    if rows.len() == 0 {
        0
    } else {
        day_count(rows.drop_last(), day) + if day_of(rows.last().0 as int) == day {
            1nat
        } else {
            0nat
        }
    }
}

/// No row before row `k` lies in the day of row `k`.
pub open spec fn first_of_day(rows: Seq<Row>, k: int) -> bool {
    forall|j: int| 0 <= j < k ==> day_of(#[trigger] rows[j].0 as int) != day_of(rows[k].0 as int)
}

/// What the journal shows for row `k`: before the first entry of a day the
/// heading of the day with the number of its entries; then the entry in
/// full, unless the list is folded.
pub open spec fn journal_part(
    entries: Map<u64, EntryView>,
    rows: Seq<Row>,
    k: int,
    fold: bool,
    terminal_width: u16,
) -> Result<Seq<StyledTextView>, SorryView> {
    let entry = entries[rows[k].1];
    let heading = if first_of_day(rows, k) {
        match date_num_entries_text(
            entry.datetime(),
            day_count(rows, day_of(rows[k].0 as int)) as usize,
            terminal_width,
        ) {
            Err(e) => Err(e),
            Ok(line) => Ok(seq![line]),
        }
    } else {
        Ok(Seq::empty())
    };
    match heading {
        Err(e) => Err(e),
        Ok(above) => if fold {
            Ok(above)
        } else {
            match tui_long(entry, terminal_width) {
                Err(e) => Err(e),
                Ok(full) => Ok(above + full),
            }
        },
    }
}

/// The error for a visible identifier that no entry has.
pub open spec fn stray_id() -> SorryView {
    SorryView::OutOfCheeseError { message: "Expected an entry for every visible id"@ }
}

/// The error for a list with entries of more than one kind.
pub open spec fn mixed_kinds() -> SorryView {
    SorryView::OutOfCheeseError { message: "Expected entries of the same type"@ }
}

/// What a list of entries of one kind shows: the entries with the
/// identifiers `ids`, in the order of their moments, each as `shown`; in the
/// journal as `journal_part`. An identifier without an entry, or entries of
/// two kinds, are errors.
pub open spec fn listing(
    entries: Map<u64, EntryView>,
    ids: Seq<u64>,
    fold: bool,
    terminal_width: u16,
) -> Result<Seq<StyledTextView>, SorryView> {
    let rows = by_moment(rows_of(entries, ids));
    if exists|i: int| 0 <= i < ids.len() && !entries.contains_key(#[trigger] ids[i]) {
        Err(stray_id())
    } else if ids.len() == 0 {
        Ok(Seq::empty())
    } else {
        let kind = entries[rows[0].1].entry_type();
        if exists|i: int| 0 <= i < ids.len() && (#[trigger] entries[ids[i]]).entry_type() != kind {
            Err(mixed_kinds())
        } else if kind == GooseberryEntryType::Journal {
            gathered(
                Seq::new(rows.len(), |k: int| journal_part(entries, rows, k, fold, terminal_width)),
            )
        } else {
            gathered(Seq::new(rows.len(), |k: int| shown(entries[rows[k].1], fold, terminal_width)))
        }
    }
}

/// The rows in the order of their moments are the same rows, none later
/// than the one behind it.
pub proof fn lemma_by_moment(rows: Seq<Row>)
    ensures
        by_moment(rows).len() == rows.len(),
        forall|i: int, j: int|
            0 <= i <= j < rows.len() ==> (#[trigger] by_moment(rows)[i]).0 <= (#[trigger] by_moment(
                rows,
            )[j]).0,
        forall|i: int| 0 <= i < rows.len() ==> rows.contains(#[trigger] by_moment(rows)[i]),
        forall|i: int| 0 <= i < rows.len() ==> by_moment(rows).contains(#[trigger] rows[i]),
    decreases rows.len(),
{
    if rows.len() > 0 {
        let front = rows.drop_last();
        lemma_by_moment(front);
        lemma_inserted(by_moment(front), rows.last());
        let before = by_moment(front);
        let after = by_moment(rows);
        assert forall|i: int| 0 <= i < rows.len() implies rows.contains(#[trigger] after[i]) by {
            if after[i] == rows.last() {
                assert(rows[rows.len() - 1] == rows.last());
            } else {
                assert(before.contains(after[i]));
                let j = choose|j: int| 0 <= j < before.len() && before[j] == after[i];
                assert(front.contains(before[j]));
                let m = choose|m: int| 0 <= m < front.len() && front[m] == before[j];
                assert(rows[m] == after[i]);
            }
        }
        assert forall|i: int| 0 <= i < rows.len() implies after.contains(#[trigger] rows[i]) by {
            if i < front.len() {
                assert(front[i] == rows[i]);
                assert(before.contains(front[i]));
            }
        }
    }
}

/// Putting a row into ordered rows keeps them ordered, and adds the row and
/// nothing else.
pub proof fn lemma_inserted(sorted: Seq<Row>, row: Row)
    requires
        forall|i: int, j: int|
            0 <= i <= j < sorted.len() ==> (#[trigger] sorted[i]).0 <= (#[trigger] sorted[j]).0,
    ensures
        inserted(sorted, row).len() == sorted.len() + 1,
        forall|i: int, j: int|
            0 <= i <= j < sorted.len() + 1 ==> (#[trigger] inserted(sorted, row)[i]).0 <= (
            #[trigger] inserted(sorted, row)[j]).0,
        forall|i: int|
            0 <= i < sorted.len() + 1 ==> (#[trigger] inserted(sorted, row)[i]) == row
                || sorted.contains(inserted(sorted, row)[i]),
        inserted(sorted, row).contains(row),
        forall|i: int| 0 <= i < sorted.len() ==> inserted(sorted, row).contains(#[trigger] sorted[i]),
    decreases sorted.len(),
{
    let after = inserted(sorted, row);
    if sorted.len() == 0 {
        assert(after[0] == row);
    } else if sorted.last().0 <= row.0 {
        assert(after[sorted.len() as int] == row);
        assert forall|i: int| 0 <= i < sorted.len() + 1 implies (#[trigger] after[i]) == row
            || sorted.contains(after[i]) by {
            if i < sorted.len() {
                assert(after[i] == sorted[i]);
            }
        }
        assert forall|i: int| 0 <= i < sorted.len() implies after.contains(#[trigger] sorted[i]) by {
            assert(after[i] == sorted[i]);
        }
        assert forall|i: int, j: int| 0 <= i <= j < sorted.len() + 1 implies (#[trigger] after[i]).0
            <= (#[trigger] after[j]).0 by {
            if j < sorted.len() {
                assert(after[i] == sorted[i] && after[j] == sorted[j]);
            } else if i < sorted.len() {
                assert(after[i] == sorted[i]);
                assert(sorted[i].0 <= sorted[sorted.len() - 1].0);
            }
        }
    } else {
        let front = sorted.drop_last();
        assert forall|i: int, j: int| 0 <= i <= j < front.len() implies (#[trigger] front[i]).0 <= (
        #[trigger] front[j]).0 by {
            assert(front[i] == sorted[i] && front[j] == sorted[j]);
        }
        lemma_inserted(front, row);
        let inner = inserted(front, row);
        let n = sorted.len() as int;
        assert(after[n] == sorted.last());
        assert forall|i: int| 0 <= i < n + 1 implies (#[trigger] after[i]) == row || sorted.contains(
            after[i],
        ) by {
            if i < n {
                assert(after[i] == inner[i]);
                if inner[i] != row {
                    assert(front.contains(inner[i]));
                    let m = choose|m: int| 0 <= m < front.len() && front[m] == inner[i];
                    assert(sorted[m] == inner[i]);
                }
            } else {
                assert(sorted[n - 1] == after[i]);
            }
        }
        assert(after.contains(row)) by {
            let m = choose|m: int| 0 <= m < inner.len() && inner[m] == row;
            assert(after[m] == row);
        }
        assert forall|i: int| 0 <= i < n implies after.contains(#[trigger] sorted[i]) by {
            if i < n - 1 {
                assert(front[i] == sorted[i]);
                assert(inner.contains(front[i]));
                let m = choose|m: int| 0 <= m < inner.len() && inner[m] == front[i];
                assert(after[m] == sorted[i]);
            } else {
                assert(after[n] == sorted[i]);
            }
        }
        assert forall|i: int, j: int| 0 <= i <= j < n + 1 implies (#[trigger] after[i]).0 <= (
        #[trigger] after[j]).0 by {
            if j < n {
                assert(after[i] == inner[i] && after[j] == inner[j]);
            } else if i < n {
                assert(after[i] == inner[i]);
                if inner[i] != row {
                    assert(front.contains(inner[i]));
                    let m = choose|m: int| 0 <= m < front.len() && front[m] == inner[i];
                    assert(sorted[m].0 <= sorted[n - 1].0);
                }
            }
        }
    }
}

/// Behind the rows that are not later than it, and in front of the others,
/// is where a row is put.
proof fn lemma_inserted_at(sorted: Seq<Row>, row: Row, pos: int)
    requires
        0 <= pos <= sorted.len(),
        pos > 0 ==> sorted[pos - 1].0 <= row.0,
        forall|j: int| pos <= j < sorted.len() ==> sorted[j].0 > row.0,
    ensures
        inserted(sorted, row) == sorted.insert(pos, row),
    decreases sorted.len() - pos,
{
    if pos == sorted.len() {
        assert(sorted.insert(pos, row) =~= sorted.push(row));
        if sorted.len() == 0 {
            assert(sorted.push(row) =~= seq![row]);
        }
    } else {
        let front = sorted.drop_last();
        lemma_inserted_at(front, row, pos);
        assert(front.insert(pos, row).push(sorted.last()) =~= sorted.insert(pos, row));
    }
}

/// The rows in the order of their moments.
pub fn sort_rows(rows: &Vec<Row>) -> (r: Vec<Row>)
    ensures
        r@ == by_moment(rows@),
{
    let mut out: Vec<Row> = Vec::new();
    let mut i: usize = 0;
    assert(rows@.take(0) =~= Seq::<Row>::empty());
    while i < rows.len()
        invariant
            i <= rows.len(),
            out@ == by_moment(rows@.take(i as int)),
            out@.len() == i,
        decreases rows.len() - i,
    {
        let row = rows[i];
        let mut pos: usize = out.len();
        while pos > 0 && out[pos - 1].0 > row.0
            invariant
                pos <= out.len(),
                forall|j: int| pos <= j < out.len() ==> out@[j].0 > row.0,
            decreases pos,
        {
            pos -= 1;
        }
        proof {
            lemma_inserted_at(out@, row, pos as int);
            assert(rows@.take(i + 1).drop_last() == rows@.take(i as int));
            assert(rows@.take(i + 1).last() == row);
        }
        out.insert(pos, row);
        i += 1;
    }
    assert(rows@.take(i as int) == rows@);
    out
}

/// How many of the rows lie in the day `day`.
fn count_day(rows: &Vec<Row>, day: i64) -> (r: usize)
    ensures
        r == day_count(rows@, day as int),
{
    let mut count: usize = 0;
    let mut i: usize = 0;
    assert(rows@.take(0) =~= Seq::<Row>::empty());
    while i < rows.len()
        invariant
            i <= rows.len(),
            count == day_count(rows@.take(i as int), day as int),
            count <= i,
        decreases rows.len() - i,
    {
        assert(rows@.take(i + 1).drop_last() == rows@.take(i as int));
        assert(rows@.take(i + 1).last() == rows@[i as int]);
        if day_of_seconds(rows[i].0) == day {
            count += 1;
        }
        i += 1;
    }
    assert(rows@.take(i as int) == rows@);
    count
}

/// Whether no row before row `k` lies in the day of row `k`.
fn is_first_of_day(rows: &Vec<Row>, k: usize) -> (r: bool)
    requires
        k < rows.len(),
    ensures
        r == first_of_day(rows@, k as int),
{
    let day = day_of_seconds(rows[k].0);
    let mut j: usize = 0;
    while j < k
        invariant
            j <= k < rows.len(),
            day == day_of(rows@[k as int].0 as int),
            forall|m: int| 0 <= m < j ==> day_of(#[trigger] rows@[m].0 as int) != day,
        decreases k - j,
    {
        if day_of_seconds(rows[j].0) == day {
            return false;
        }
        j += 1;
    }
    true
}

/// The error for a visible identifier that no entry has.
fn stray() -> (r: Sorry)
    ensures
        r@ == stray_id(),
{
    Sorry::OutOfCheeseError { message: "Expected an entry for every visible id".to_owned() }
}

/// Retrieves styled texts to display for a dict of entries with the same type
pub fn entries_to_styled_texts(
    entries: &HashMap<u64, GooseberryEntry>,
    visible_ids: &[u64],
    fold: bool,
    terminal_width: u16,
) -> (r: Result<Vec<StyledText>, Sorry>)
    ensures
        ({
            let shown = listing(
                entries@.map_values(|e: GooseberryEntry| e@),
                visible_ids@,
                fold,
                terminal_width,
            );
            match r {
                Ok(texts) => shown == Ok::<Seq<StyledTextView>, SorryView>(texts.deep_view()),
                Err(e) => shown == Err::<Seq<StyledTextView>, SorryView>(e@),
            }
        }),
{
    let ghost views = entries@.map_values(|e: GooseberryEntry| e@);
    let ghost ids = visible_ids@;
    let n = visible_ids.len();
    let mut rows: Vec<Row> = Vec::new();
    let mut i: usize = 0;
    while i < n
        invariant
            i <= n == visible_ids.len(),
            ids == visible_ids@,
            views == entries@.map_values(|e: GooseberryEntry| e@),
            rows@.len() == i,
            forall|j: int| 0 <= j < i ==> views.contains_key(#[trigger] ids[j]),
            forall|j: int| 0 <= j < i ==> rows@[j] == rows_of(views, ids)[j],
        decreases n - i,
    {
        let id = visible_ids[i];
        match entries.get(&id) {
            None => {
                assert(!views.contains_key(ids[i as int]));
                return Err(stray());
            },
            Some(entry) => {
                rows.push((entry.datetime().seconds(), id));
            },
        }
        i += 1;
    }
    assert(rows@ =~= rows_of(views, ids));
    let mut out: Vec<StyledText> = Vec::new();
    if n == 0 {
        assert(out.deep_view() =~= Seq::<StyledTextView>::empty());
        return Ok(out);
    }
    let sorted = sort_rows(&rows);
    assert(ids.len() == n);
    proof {
        lemma_by_moment(rows@);
        assert forall|k: int| 0 <= k < sorted@.len() implies views.contains_key(
            (#[trigger] sorted@[k]).1,
        ) by {
            assert(rows@.contains(sorted@[k]));
            let m = choose|m: int| 0 <= m < rows@.len() && rows@[m] == sorted@[k];
            assert(views.contains_key(ids[m]));
        }
    }
    let kind = match entries.get(&sorted[0].1) {
        Some(entry) => entry.entry_type(),
        None => {
            return Err(stray());
        },
    };
    let mut j: usize = 0;
    while j < n
        invariant
            j <= n == visible_ids.len(),
            ids == visible_ids@,
            views == entries@.map_values(|e: GooseberryEntry| e@),
            forall|m: int| 0 <= m < n ==> views.contains_key(#[trigger] ids[m]),
            forall|m: int| 0 <= m < j ==> (#[trigger] views[ids[m]]).entry_type() == kind,
            n > 0,
            sorted@ == by_moment(rows_of(views, ids)),
            kind == views[sorted@[0].1].entry_type(),
        decreases n - j,
    {
        match entries.get(&visible_ids[j]) {
            Some(entry) => {
                if entry.entry_type() != kind {
                    assert(views[ids[j as int]].entry_type() != kind);
                    return Err(
                        Sorry::OutOfCheeseError {
                            message: "Expected entries of the same type".to_owned(),
                        },
                    );
                }
            },
            None => {
                return Err(stray());
            },
        }
        j += 1;
    }
    let ghost parts = if kind == GooseberryEntryType::Journal {
        Seq::new(
            sorted@.len(),
            |k: int| journal_part(views, sorted@, k, fold, terminal_width),
        )
    } else {
        Seq::new(sorted@.len(), |k: int| shown(views[sorted@[k].1], fold, terminal_width))
    };
    let mut k: usize = 0;
    assert(parts.take(0) =~= Seq::<Result<Seq<StyledTextView>, SorryView>>::empty());
    assert(out.deep_view() =~= Seq::<StyledTextView>::empty());
    while k < n
        invariant
            k <= n == sorted@.len(),
            parts.len() == n,
            n > 0,
            n == ids.len(),
            ids == visible_ids@,
            views == entries@.map_values(|e: GooseberryEntry| e@),
            forall|m: int| 0 <= m < n ==> views.contains_key(#[trigger] ids[m]),
            forall|m: int| 0 <= m < n ==> (#[trigger] views[ids[m]]).entry_type() == kind,
            sorted@ == by_moment(rows_of(views, ids)),
            kind == views[sorted@[0].1].entry_type(),
            forall|m: int| 0 <= m < n ==> views.contains_key((#[trigger] sorted@[m]).1),
            parts == if kind == GooseberryEntryType::Journal {
                Seq::new(
                    sorted@.len(),
                    |k: int| journal_part(views, sorted@, k, fold, terminal_width),
                )
            } else {
                Seq::new(sorted@.len(), |k: int| shown(views[sorted@[k].1], fold, terminal_width))
            },
            gathered(parts.take(k as int)) == Ok::<Seq<StyledTextView>, SorryView>(out.deep_view()),
        decreases n - k,
    {
        proof {
            assert(parts.take(k + 1).drop_last() == parts.take(k as int));
            assert(parts.take(k + 1).last() == parts[k as int]);
            assert(views.contains_key(sorted@[k as int].1));
        }
        let entry = match entries.get(&sorted[k].1) {
            Some(entry) => entry,
            None => {
                return Err(stray());
            },
        };
        let ghost start = out.deep_view();
        let ghost above: Seq<StyledTextView> = Seq::empty();
        if kind == GooseberryEntryType::Journal {
            if is_first_of_day(&sorted, k) {
                let count = count_day(&sorted, day_of_seconds(sorted[k].0));
                match style_date_num_entries(entry.datetime(), count, terminal_width) {
                    Ok(line) => {
                        out.push(line);
                        proof {
                            above = seq![line@];
                            assert(out.deep_view() =~= start + above);
                        }
                    },
                    Err(e) => {
                        proof {
                            assert(first_of_day(sorted@, k as int));
                            assert(parts[k as int] == journal_part(
                                views,
                                sorted@,
                                k as int,
                                fold,
                                terminal_width,
                            ));
                            assert(parts[k as int] == Err::<Seq<StyledTextView>, SorryView>(e@));
                            assert(gathered(parts.take(k + 1)) == Err::<
                                Seq<StyledTextView>,
                                SorryView,
                            >(e@));
                            lemma_gathered_error(parts, k + 1);
                        }
                        return Err(e);
                    },
                }
            }
            assert(out.deep_view() =~= start + above);
            if !fold {
                match entry.to_tui_long(terminal_width) {
                    Ok(full) => {
                        extend_texts(&mut out, full);
                        assert(out.deep_view() =~= start + (above + full.deep_view()));
                    },
                    Err(e) => {
                        proof {
                            lemma_gathered_error(parts, k + 1);
                        }
                        return Err(e);
                    },
                }
            }
        } else {
            let texts = if fold {
                entry.to_tui_short(terminal_width)
            } else {
                entry.to_tui_long(terminal_width)
            };
            match texts {
                Ok(more) => {
                    extend_texts(&mut out, more);
                },
                Err(e) => {
                    proof {
                        assert(parts[k as int] == Err::<Seq<StyledTextView>, SorryView>(e@));
                        assert(gathered(parts.take(k + 1)) == Err::<
                            Seq<StyledTextView>,
                            SorryView,
                        >(e@));
                        lemma_gathered_error(parts, k + 1);
                    }
                    return Err(e);
                },
            }
        }
        proof {
            assert(parts[k as int] is Ok);
            assert(out.deep_view() =~= start + parts[k as int]->Ok_0);
        }
        k += 1;
    }
    assert(parts.take(k as int) == parts);
    Ok(out)
}

/// An error among the first parts is the error of all the parts.
pub proof fn lemma_gathered_error(parts: Seq<Result<Seq<StyledTextView>, SorryView>>, k: int)
    requires
        0 <= k <= parts.len(),
        gathered(parts.take(k)) is Err,
    ensures
        gathered(parts) == gathered(parts.take(k)),
    decreases parts.len() - k,
{
    if k < parts.len() {
        assert(parts.take(k + 1).drop_last() == parts.take(k));
        lemma_gathered_error(parts, k + 1);
    } else {
        assert(parts.take(k) == parts);
    }
}

} // verus!
