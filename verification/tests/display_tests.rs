use gooseberry_tm::catalog::Catalog;
use gooseberry_tm::display::sort_rows;
use gooseberry_tm::timestamp::day_of_seconds;
use gooseberry_tm::entry::{
    EventEntry, GooseberryEntry, GooseberryEntryTrait, GooseberryEntryType, ResearchEntry,
};
use gooseberry_tm::errors::Sorry;
use gooseberry_tm::gooseberry_app::{GooseberryTab, GooseberryTabs, HELP_TEXT, WRITING_HELP_TEXT};
use gooseberry_tm::timestamp::Timestamp;
use gooseberry_tm::utility::formatting::{
    format_date, format_datetime, format_time, markdown_to_styled_texts, right_format,
    right_format_with, style_date_num_entries, style_datetime_tags, style_people, style_short,
    style_title, StyledText, TaskState, TextStyle,
};
use gooseberry_tm::utility::interactive::KeyEvent;
use std::collections::HashMap;

const T: i64 = 1_672_531_200;

fn stamp(secs: i64) -> Timestamp {
    Timestamp::from_seconds(secs).unwrap()
}

fn strings(items: &[&str]) -> Vec<String> {
    items.iter().map(|s| s.to_string()).collect()
}

fn line(left: &str, gap: usize, right: &str) -> String {
    format!("{}{}{}\n", left, " ".repeat(gap), right)
}

fn pieces(texts: &[StyledText]) -> Vec<(String, TextStyle)> {
    texts.iter().map(|t| (t.text.clone(), t.style)).collect()
}

fn journal_text(id: u64, moment: &str, body: &str) -> String {
    format!("---\nType: Journal\nID: {}\nDateTime: {}\nTags: a\n---\n{}", id, moment, body)
}

#[test]
fn right_format_puts_the_new_text_at_the_right_end() {
    assert_eq!(right_format("ab", "cd", 10, false), "ab      cd\n");
    assert_eq!(right_format("ab", "cd", 5, true), "ab cd\n");
    assert_eq!(right_format("", "cd", 4, true), "  cd\n");
}

#[test]
fn right_format_moves_on_when_the_line_is_full() {
    assert_eq!(right_format("abcdef", "ghij", 10, true), "abcdef\nghij\n");
    assert_eq!(right_format("abcdef", "ghij", 10, false), "abcdef\n      ghij\n");
    assert_eq!(right_format("abcdef", "0123456789", 10, false), "abcdef\n\n0123456789\n");
    assert_eq!(right_format("ab", "cd", 4, true), "ab\ncd\n");
    assert_eq!(right_format("ab", "cd", 0, false), "ab\n\ncd\n");
}

#[test]
fn right_format_counts_columns_not_characters() {
    assert_eq!(right_format("日本", "x", 7, false), "日本  x\n");
    assert_eq!(right_format("日本語", "xy", 8, true), "日本語\nxy\n");
    assert_eq!(right_format("e\u{301}", "x", 4, true), "e\u{301}  x\n");
}

#[test]
fn right_format_with_given_widths() {
    assert_eq!(right_format_with("a", "b", 1, 1, 5, true), "a   b\n");
    assert_eq!(right_format_with("a", "b", 100, 100, 10, true), "a\nb\n");
    assert_eq!(right_format_with("a", "b", 3, 2, 5, false), "a\n   b\n");
    assert_eq!(right_format_with("a", "b", 0, 9, 9, false), "a\n\nb\n");
    assert_eq!(right_format_with("a", "b", usize::MAX, usize::MAX, u16::MAX, true), "a\nb\n");
}

#[test]
fn moments_on_screen() {
    let t = stamp(T + 13 * 3600 + 5 * 60);
    assert_eq!(format_date(&t).unwrap(), "Jan 01 2023");
    assert_eq!(format_time(&t).unwrap(), "01:05:00 PM");
    assert_eq!(format_datetime(&t).unwrap(), "01:05:00 PM Sun Jan 01 2023");
    assert_eq!(t.format("%Y").unwrap(), "2023");
    assert_eq!(t.format("%"), None);
}

#[test]
fn days_are_counted_from_1970() {
    assert_eq!(stamp(0).day(), 0);
    assert_eq!(stamp(86_399).day(), 0);
    assert_eq!(stamp(86_400).day(), 1);
    assert_eq!(stamp(-1).day(), -1);
    assert_eq!(stamp(-86_400).day(), -1);
    assert_eq!(stamp(-86_401).day(), -2);
    assert_eq!(stamp(T).day(), 19_358);
    for secs in [i64::MIN, -86_401, -86_400, -1, 0, 1, 86_399, 86_400, i64::MAX] {
        assert_eq!(day_of_seconds(secs), secs.div_euclid(86_400));
    }
}

#[test]
fn title_with_and_without_mark() {
    let plain = style_title(12, "  Groceries ", None, 20, false);
    assert_eq!(
        pieces(&plain),
        vec![(line("Groceries", 9, "12"), TextStyle::Title { bold: false })]
    );
    let marked = style_title(12, "Groceries", Some(TaskState::Done), 20, true);
    assert_eq!(
        pieces(&marked),
        vec![
            ("\u{2713} ".to_string(), TextStyle::Mark(TaskState::Done)),
            (line("Groceries", 7, "12"), TextStyle::Title { bold: true }),
        ]
    );
    let narrow = style_title(7, "ab", Some(TaskState::NotDone), 1, true);
    assert_eq!(narrow[0].text, "\u{2715} ");
    assert_eq!(narrow[1].text, "ab\n\n7\n");
}

#[test]
fn line_of_tags_and_moment() {
    let tags = strings(&["x", "y"]);
    let full = style_datetime_tags(&stamp(T), &tags, 40, false, false).unwrap();
    assert_eq!(full.text, line("x,y", 10, "12:00:00 AM Sun Jan 01 2023"));
    assert_eq!(full.style, TextStyle::PrimaryMetadata);
    let date = style_datetime_tags(&stamp(T), &tags, 40, true, false).unwrap();
    assert_eq!(date.text, line("x,y", 26, "Jan 01 2023"));
    let time = style_datetime_tags(&stamp(T), &tags, 40, false, true).unwrap();
    assert_eq!(time.text, line("x,y", 26, "12:00:00 AM"));
    let tight = style_datetime_tags(&stamp(T), &tags, 10, true, true).unwrap();
    assert_eq!(tight.text, "x,y\nJan 01 2023\n");
}

#[test]
fn short_form_has_title_then_metadata() {
    let texts = style_short(
        3,
        "buy milk",
        Some(TaskState::NotDone),
        &stamp(T),
        &strings(&["x", "y"]),
        40,
        false,
        false,
        true,
    )
    .unwrap();
    assert_eq!(
        pieces(&texts),
        vec![
            ("\u{2715} ".to_string(), TextStyle::Mark(TaskState::NotDone)),
            (line("buy milk", 29, "3"), TextStyle::Title { bold: true }),
            (line("x,y", 10, "12:00:00 AM Sun Jan 01 2023"), TextStyle::PrimaryMetadata),
        ]
    );
}

#[test]
fn people_and_day_headings() {
    let people = style_people(&strings(&["Ada", "Grace"]));
    assert_eq!(people.text, "Ada, Grace\n");
    assert_eq!(people.style, TextStyle::SecondaryMetadata);
    let one = style_date_num_entries(&stamp(T), 1, 30).unwrap();
    assert_eq!(one.text, line("Jan 01 2023", 12, "1 entry"));
    assert_eq!(one.style, TextStyle::DateHeading);
    let many = style_date_num_entries(&stamp(T), 12, 30).unwrap();
    assert_eq!(many.text, line("Jan 01 2023", 9, "12 entries"));
    let none = style_date_num_entries(&stamp(T), 0, 30).unwrap();
    assert_eq!(none.text, line("Jan 01 2023", 12, "0 entry"));
}

#[test]
fn markdown_is_one_piece_for_the_highlighter() {
    assert_eq!(
        pieces(&markdown_to_styled_texts("# a\n*b*")),
        vec![("# a\n*b*".to_string(), TextStyle::Markdown)]
    );
}

#[test]
fn task_in_short_and_in_full() {
    let text = "---\nType: Task\nID: 3\nDateTime: Jan 01 2023 12:00:00 AM\nTags: x, y\nTask: buy milk\nDone: true\n---\n  buy 2% milk\n";
    let entry = GooseberryEntry::from_file(text).unwrap();
    let short = entry.to_tui_short(40).unwrap();
    assert_eq!(
        pieces(&short),
        vec![
            ("\u{2713} ".to_string(), TextStyle::Mark(TaskState::Done)),
            (line("buy milk", 29, "3"), TextStyle::Title { bold: true }),
            (line("x,y", 10, "12:00:00 AM Sun Jan 01 2023"), TextStyle::PrimaryMetadata),
        ]
    );
    let long = entry.to_tui_long(40).unwrap();
    assert_eq!(pieces(&long[..3]), pieces(&short));
    assert_eq!(
        pieces(&long[3..]),
        vec![
            ("buy 2% milk".to_string(), TextStyle::Markdown),
            ("\n".to_string(), TextStyle::Raw),
            ("\n".to_string(), TextStyle::Raw),
        ]
    );
}

#[test]
fn research_and_event_in_full() {
    let research = ResearchEntry {
        id: 1,
        title: "Graphs".to_string(),
        notes: "trees\n".to_string(),
        datetime: stamp(T),
        tags: strings(&["cs"]),
    };
    assert_eq!(
        pieces(&research.to_tui_long(20).unwrap()),
        vec![
            (line("Graphs", 13, "1"), TextStyle::Title { bold: true }),
            (line("cs", 7, "Jan 01 2023"), TextStyle::PrimaryMetadata),
            ("\n".to_string(), TextStyle::Raw),
            ("trees".to_string(), TextStyle::Markdown),
            ("\n".to_string(), TextStyle::Raw),
            ("\n".to_string(), TextStyle::Raw),
        ]
    );
    let event = EventEntry {
        id: 2,
        title: "Talk".to_string(),
        people: strings(&["Ada", "Grace"]),
        datetime: stamp(T),
        notes: String::new(),
        tags: strings(&["x"]),
    };
    assert_eq!(
        pieces(&event.to_tui_long(40).unwrap()),
        vec![
            (line("Talk", 35, "2"), TextStyle::Title { bold: true }),
            (line("x", 12, "12:00:00 AM Sun Jan 01 2023"), TextStyle::PrimaryMetadata),
            ("Ada, Grace\n".to_string(), TextStyle::SecondaryMetadata),
            ("\n".to_string(), TextStyle::Raw),
            ("".to_string(), TextStyle::Markdown),
            ("\n".to_string(), TextStyle::Raw),
            ("\n".to_string(), TextStyle::Raw),
        ]
    );
}

#[test]
fn rows_are_sorted_by_moment_and_stay_in_order_within_one() {
    assert_eq!(
        sort_rows(&vec![(5, 1), (3, 2), (5, 3), (-1, 4), (3, 5)]),
        vec![(-1, 4), (3, 2), (3, 5), (5, 1), (5, 3)]
    );
    assert_eq!(sort_rows(&Vec::new()), Vec::new());
    let rows: Vec<(i64, u64)> = (0..40).map(|i| ((i * 7 % 11) as i64, i as u64)).collect();
    let mut expected = rows.clone();
    expected.sort_by(|a, b| a.0.cmp(&b.0));
    assert_eq!(sort_rows(&rows), expected);
}

fn journal() -> Catalog {
    Catalog::load(
        GooseberryEntryType::Journal,
        &vec![
            journal_text(1, "Jan 01 2023 10:00:00 AM", "ten"),
            journal_text(2, "Jan 02 2023 09:00:00 AM", "next day"),
            journal_text(3, "Jan 01 2023 08:00:00 AM", "eight"),
        ],
    )
    .unwrap()
}

#[test]
fn folded_journal_shows_the_days() {
    assert_eq!(
        pieces(&journal().styled_texts(true, 30).unwrap()),
        vec![
            (line("Jan 01 2023", 10, "2 entries"), TextStyle::DateHeading),
            (line("Jan 02 2023", 12, "1 entry"), TextStyle::DateHeading),
        ]
    );
}

#[test]
fn journal_in_full_is_by_day_and_by_moment() {
    assert_eq!(
        pieces(&journal().styled_texts(false, 30).unwrap()),
        vec![
            (line("Jan 01 2023", 10, "2 entries"), TextStyle::DateHeading),
            (line("eight", 24, "3"), TextStyle::Title { bold: false }),
            (line("a", 18, "08:00:00 AM"), TextStyle::PrimaryMetadata),
            ("\n".to_string(), TextStyle::Raw),
            (line("ten", 26, "1"), TextStyle::Title { bold: false }),
            (line("a", 18, "10:00:00 AM"), TextStyle::PrimaryMetadata),
            ("\n".to_string(), TextStyle::Raw),
            (line("Jan 02 2023", 12, "1 entry"), TextStyle::DateHeading),
            (line("next day", 21, "2"), TextStyle::Title { bold: false }),
            (line("a", 18, "09:00:00 AM"), TextStyle::PrimaryMetadata),
            ("\n".to_string(), TextStyle::Raw),
        ]
    );
}

fn task_text(id: u64, moment: &str, summary: &str) -> String {
    format!(
        "---\nType: Task\nID: {}\nDateTime: {}\nTags: t\nTask: {}\nDone: false\n---\nbody {}",
        id, moment, summary, id
    )
}

#[test]
fn tasks_are_listed_in_the_order_of_their_moments() {
    let tab = GooseberryTab::from_folder(
        GooseberryEntryType::Task,
        &vec![
            task_text(1, "Jan 02 2023 12:00:00 AM", "later"),
            task_text(2, "Jan 01 2023 12:00:00 AM", "sooner"),
        ],
    )
    .unwrap();
    let full = tab.get_texts(30).unwrap();
    let titles: Vec<String> =
        full.iter().filter(|t| t.style == TextStyle::Title { bold: true }).map(|t| t.text.clone()).collect();
    assert_eq!(titles, vec![line("sooner", 21, "2"), line("later", 22, "1")]);
    assert_eq!(full.len(), 12);
    assert_eq!(full[3].text, "body 2");
    let mut folded = tab;
    folded.toggle_fold();
    assert_eq!(folded.get_texts(30).unwrap().len(), 6);
}

#[test]
fn an_empty_list_shows_nothing() {
    let catalog = Catalog::new(GooseberryEntryType::Event);
    assert!(catalog.styled_texts(false, 80).unwrap().is_empty());
    let entries: HashMap<u64, GooseberryEntry> = HashMap::new();
    assert!(GooseberryEntry::entries_to_styled_texts_same_type(&entries, &[], true, 80)
        .unwrap()
        .is_empty());
}

#[test]
fn a_visible_id_without_entry_is_an_error() {
    let mut entries: HashMap<u64, GooseberryEntry> = HashMap::new();
    entries.insert(
        1,
        GooseberryEntry::from_file(&task_text(1, "Jan 02 2023 12:00:00 AM", "a")).unwrap(),
    );
    match GooseberryEntry::entries_to_styled_texts_same_type(&entries, &[1, 2], true, 80) {
        Err(Sorry::OutOfCheeseError { message }) => {
            assert_eq!(message, "Expected an entry for every visible id")
        }
        other => panic!("expected an error, got {:?}", other),
    }
}

#[test]
fn entries_of_two_kinds_are_an_error() {
    let mut entries: HashMap<u64, GooseberryEntry> = HashMap::new();
    entries.insert(
        1,
        GooseberryEntry::from_file(&task_text(1, "Jan 02 2023 12:00:00 AM", "a")).unwrap(),
    );
    entries.insert(
        2,
        GooseberryEntry::from_file(&journal_text(2, "Jan 01 2023 12:00:00 AM", "b")).unwrap(),
    );
    match GooseberryEntry::entries_to_styled_texts_same_type(&entries, &[1, 2], false, 80) {
        Err(Sorry::OutOfCheeseError { message }) => {
            assert_eq!(message, "Expected entries of the same type")
        }
        other => panic!("expected an error, got {:?}", other),
    }
    assert!(GooseberryEntry::entries_to_styled_texts_same_type(&entries, &[1], false, 80).is_ok());
}

#[test]
fn layout_and_help_follow_the_mode() {
    let mut tab = GooseberryTab::from_folder(GooseberryEntryType::Task, &Vec::new()).unwrap();
    assert_eq!(tab.get_layout(), Some(vec![7, 80, 13]));
    assert_eq!(tab.help_text(), HELP_TEXT);
    tab.keypress(KeyEvent::Char('n')).unwrap();
    assert_eq!(tab.get_layout(), Some(vec![7, 0, 10, 60, 10, 13]));
    assert_eq!(tab.help_text(), WRITING_HELP_TEXT);
    assert!(HELP_TEXT.contains("q : quit"));
    assert!(WRITING_HELP_TEXT.contains("Ctrl-s : save"));
}

#[test]
fn titles_of_the_tabs() {
    let tabs =
        GooseberryTabs::from_folder(&Vec::new(), &Vec::new(), &Vec::new(), &Vec::new()).unwrap();
    assert_eq!(tabs.titles(), strings(&["Task", "Journal", "Research", "Event"]));
}
