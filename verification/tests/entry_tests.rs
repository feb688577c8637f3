use gooseberry_tm::entry::{
    consume_markdown_header, get_header_lines, get_id_datetime_tags, header_get, split_pair,
    EventEntry, GooseberryEntry, GooseberryEntryTrait, GooseberryEntryType, JournalEntry,
    ResearchEntry, TaskEntry,
};
use gooseberry_tm::errors::{Malformation, Sorry};
use gooseberry_tm::timestamp::Timestamp;
use gooseberry_tm::utility::interactive::InputBox;

const NEW_YEAR_2023: i64 = 1_672_531_200;

fn stamp(secs: i64) -> Timestamp {
    Timestamp::from_seconds(secs).unwrap()
}

fn strings(items: &[&str]) -> Vec<String> {
    items.iter().map(|s| s.to_string()).collect()
}

fn task_text() -> String {
    "---\nType: Task\nID: 3\nDateTime: Jan 01 2023 12:00:00 AM\nTags: x, y\nTask: buy milk\nDone: false\n---\nbuy 2% milk"
        .to_string()
}

fn boxes(contents: &[&str]) -> Vec<InputBox> {
    let form = GooseberryEntryType::Event.get_input_boxes();
    let mut out = Vec::new();
    for (i, content) in contents.iter().enumerate() {
        let mut row = GooseberryEntryType::Event.get_input_boxes();
        row.replace_content(i % form.len(), content);
        out.push(row.get_box(i % form.len()).clone());
    }
    out
}

#[test]
fn decode_task_scenario() {
    let entry = GooseberryEntry::from_file(&task_text()).unwrap();
    match entry {
        GooseberryEntry::Task(task) => {
            assert_eq!(task.id, 3);
            assert_eq!(task.tags, strings(&["x", "y"]));
            assert_eq!(task.task, "buy milk");
            assert!(!task.done);
            assert_eq!(task.description, "buy 2% milk");
            assert_eq!(task.datetime.seconds(), NEW_YEAR_2023);
        }
        other => panic!("expected a task, got {:?}", other),
    }
}

#[test]
fn encode_task_exact_text() {
    let task = TaskEntry {
        id: 3,
        task: "buy milk".to_string(),
        description: "buy 2% milk".to_string(),
        datetime: stamp(NEW_YEAR_2023),
        done: false,
        tags: strings(&["x", "y"]),
    };
    assert_eq!(task.to_file(), task_text());
    assert_eq!(
        task.format_id_datetime_tags(),
        "Type: Task\nID: 3\nDateTime: Jan 01 2023 12:00:00 AM\nTags: x, y"
    );
}

#[test]
fn encode_journal_exact_text() {
    let entry = JournalEntry {
        id: 12,
        description: "walked the dog".to_string(),
        datetime: stamp(NEW_YEAR_2023 + 13 * 3600 + 5 * 60 + 9),
        tags: strings(&["home"]),
    };
    assert_eq!(
        entry.to_file(),
        "---\nType: Journal\nID: 12\nDateTime: Jan 01 2023 01:05:09 PM\nTags: home\n---\nwalked the dog"
    );
}

#[test]
fn encode_research_exact_text() {
    let entry = ResearchEntry {
        id: 1,
        title: "Graphs".to_string(),
        notes: "# Trees\n\nA tree is a graph.".to_string(),
        datetime: stamp(0),
        tags: strings(&["maths", "cs"]),
    };
    assert_eq!(
        entry.to_file(),
        "---\nType: Research\nID: 1\nDateTime: Jan 01 1970 12:00:00 AM\nTags: maths, cs\nTitle: Graphs\n---\n# Trees\n\nA tree is a graph."
    );
}

#[test]
fn encode_event_exact_text() {
    let entry = EventEntry {
        id: 40,
        title: "Seminar".to_string(),
        people: strings(&["Ada", "Grace"]),
        datetime: stamp(NEW_YEAR_2023),
        notes: String::new(),
        tags: strings(&[""]),
    };
    assert_eq!(
        entry.to_file(),
        "---\nType: Event\nID: 40\nDateTime: Jan 01 2023 12:00:00 AM\nTags: \nTitle: Seminar\nPeople: Ada, Grace\n---\n"
    );
}

fn assert_round_trip(entry: GooseberryEntry) {
    let text = entry.to_file();
    let back = GooseberryEntry::from_file(&text).unwrap();
    assert_eq!(back.to_file(), text);
    assert_eq!(back.id(), entry.id());
    assert_eq!(back.tags(), entry.tags());
    assert_eq!(back.datetime().seconds(), entry.datetime().seconds());
    assert_eq!(back.entry_type(), entry.entry_type());
    match (back, entry) {
        (GooseberryEntry::Task(a), GooseberryEntry::Task(b)) => {
            assert_eq!(a.task, b.task);
            assert_eq!(a.description, b.description);
            assert_eq!(a.done, b.done);
        }
        (GooseberryEntry::Journal(a), GooseberryEntry::Journal(b)) => {
            assert_eq!(a.description, b.description);
        }
        (GooseberryEntry::Research(a), GooseberryEntry::Research(b)) => {
            assert_eq!(a.title, b.title);
            assert_eq!(a.notes, b.notes);
        }
        (GooseberryEntry::Event(a), GooseberryEntry::Event(b)) => {
            assert_eq!(a.title, b.title);
            assert_eq!(a.people, b.people);
            assert_eq!(a.notes, b.notes);
        }
        (a, b) => panic!("kinds differ: {:?} and {:?}", a, b),
    }
}

#[test]
fn round_trip_task() {
    assert_round_trip(GooseberryEntry::Task(TaskEntry {
        id: 7,
        task: "write: the report".to_string(),
        description: "line one\n---\nline three\n".to_string(),
        datetime: stamp(NEW_YEAR_2023 + 86_399),
        done: true,
        tags: strings(&["work", "a b"]),
    }));
}

#[test]
fn round_trip_journal() {
    assert_round_trip(GooseberryEntry::Journal(JournalEntry {
        id: 0,
        description: String::new(),
        datetime: stamp(-1),
        tags: Vec::new(),
    }));
}

#[test]
fn round_trip_research() {
    assert_round_trip(GooseberryEntry::Research(ResearchEntry {
        id: u64::MAX,
        title: "".to_string(),
        notes: "\n\n".to_string(),
        datetime: stamp(951_782_400),
        tags: strings(&["leap", "day"]),
    }));
}

#[test]
fn round_trip_event() {
    assert_round_trip(GooseberryEntry::Event(EventEntry {
        id: 18_446_744_073_709_551_614,
        title: "Talk".to_string(),
        people: strings(&["Ada Lovelace", "", "Grace"]),
        datetime: stamp(NEW_YEAR_2023),
        notes: "Type: Task".to_string(),
        tags: strings(&["x"]),
    }));
}

#[test]
fn untrimmed_title_does_not_come_back() {
    let entry = ResearchEntry {
        id: 1,
        title: " padded ".to_string(),
        notes: String::new(),
        datetime: stamp(0),
        tags: strings(&["a"]),
    };
    match GooseberryEntry::from_file(&entry.to_file()).unwrap() {
        GooseberryEntry::Research(back) => assert_eq!(back.title, "padded"),
        other => panic!("expected research, got {:?}", other),
    }
}

#[test]
fn decode_splits_at_first_separator_only() {
    let text = "---\nType: Research\nID: 5\nDateTime: Jan 01 2023 12:00:00 AM\nTags: a\nTitle: one: two: three\n---\n";
    match GooseberryEntry::from_file(text).unwrap() {
        GooseberryEntry::Research(entry) => assert_eq!(entry.title, "one: two: three"),
        other => panic!("expected research, got {:?}", other),
    }
}

#[test]
fn decode_last_of_two_equal_keys_wins() {
    let text = "---\nType: Journal\nID: 5\nID: 6\nDateTime: Jan 01 2023 12:00:00 AM\nTags: a\n---\nbody";
    assert_eq!(GooseberryEntry::from_file(text).unwrap().id(), 6);
}

#[test]
fn decode_accepts_plus_sign_and_leading_zeros() {
    let text = "---\nType: Journal\nID: +007\nDateTime: Jan 01 2023 12:00:00 AM\nTags: a\n---\n";
    assert_eq!(GooseberryEntry::from_file(text).unwrap().id(), 7);
}

#[test]
fn decode_trims_type_tags_and_flag() {
    let text = "---\nType:   Task \nID: 1\nDateTime:  Jan 01 2023 12:00:00 AM \nTags:  a ,b,  c d \nTask:  t \nDone:  true \n---\n";
    match GooseberryEntry::from_file(text).unwrap() {
        GooseberryEntry::Task(task) => {
            assert_eq!(task.tags, strings(&["a", "b", "c d"]));
            assert_eq!(task.task, "t");
            assert!(task.done);
        }
        other => panic!("expected a task, got {:?}", other),
    }
}

#[test]
fn decode_empty_tags_is_no_tag() {
    let text = "---\nType: Journal\nID: 1\nDateTime: Jan 01 2023 12:00:00 AM\nTags: \n---\n";
    assert!(GooseberryEntry::from_file(text).unwrap().tags().is_empty());
    let blank = "---\nType: Journal\nID: 1\nDateTime: Jan 01 2023 12:00:00 AM\nTags:  \t \n---\n";
    assert!(GooseberryEntry::from_file(blank).unwrap().tags().is_empty());
    let commas = "---\nType: Journal\nID: 1\nDateTime: Jan 01 2023 12:00:00 AM\nTags: ,\n---\n";
    assert_eq!(GooseberryEntry::from_file(commas).unwrap().tags(), strings(&["", ""]));
}

#[test]
fn task_without_tags_comes_back_as_it_was() {
    let task = TaskEntry {
        id: 1,
        task: "a".to_string(),
        description: "b".to_string(),
        datetime: stamp(NEW_YEAR_2023),
        done: false,
        tags: Vec::new(),
    };
    let text = task.to_file();
    assert_eq!(
        text,
        "---\nType: Task\nID: 1\nDateTime: Jan 01 2023 12:00:00 AM\nTags: \nTask: a\nDone: false\n---\nb"
    );
    match GooseberryEntry::from_file(&text).unwrap() {
        GooseberryEntry::Task(back) => {
            assert!(back.tags.is_empty());
            assert_eq!(back.id, 1);
            assert_eq!(back.task, "a");
            assert_eq!(back.description, "b");
            assert!(!back.done);
            assert_eq!(back.datetime.seconds(), NEW_YEAR_2023);
        }
        other => panic!("expected a task, got {:?}", other),
    }
}

#[test]
fn event_without_people_or_tags_comes_back_as_it_was() {
    assert_round_trip(GooseberryEntry::Event(EventEntry {
        id: 2,
        title: "Talk".to_string(),
        people: Vec::new(),
        datetime: stamp(NEW_YEAR_2023),
        notes: "n".to_string(),
        tags: Vec::new(),
    }));
}

#[test]
fn one_empty_tag_reads_back_as_no_tag() {
    let entry = JournalEntry {
        id: 1,
        description: "d".to_string(),
        datetime: stamp(0),
        tags: strings(&[""]),
    };
    assert!(GooseberryEntry::from_file(&entry.to_file()).unwrap().tags().is_empty());
}

#[test]
fn missing_header_without_opening_mark() {
    assert!(matches!(GooseberryEntry::from_file("Type: Task\n---\n"), Err(Sorry::MissingHeader)));
    assert!(matches!(GooseberryEntry::from_file(""), Err(Sorry::MissingHeader)));
    assert!(matches!(GooseberryEntry::from_file("--- \nType: Task\n---\n"), Err(Sorry::MissingHeader)));
}

#[test]
fn missing_header_without_closing_mark() {
    assert!(matches!(
        GooseberryEntry::from_file("---\nType: Task\nID: 3\n"),
        Err(Sorry::MissingHeader)
    ));
    assert!(matches!(GooseberryEntry::from_file("---"), Err(Sorry::MissingHeader)));
    assert!(matches!(
        GooseberryEntry::from_file("---\nno separator here"),
        Err(Sorry::MissingHeader)
    ));
}

#[test]
fn malformed_line_without_separator() {
    match GooseberryEntry::from_file("---\nType: Task\nTags:\n---\n") {
        Err(Sorry::MalformedHeaderElement { element, cause }) => {
            assert_eq!(element, "Tags:");
            assert_eq!(cause, Malformation::NoSeparator);
        }
        other => panic!("expected a malformed element, got {:?}", other),
    }
}

fn expect_missing(text: &str, name: &str) {
    match GooseberryEntry::from_file(text) {
        Err(Sorry::MissingHeaderElement { element }) => assert_eq!(element, name),
        other => panic!("expected {} to be missing, got {:?}", name, other),
    }
}

#[test]
fn missing_header_elements() {
    expect_missing("---\nID: 3\n---\n", "Type");
    expect_missing("---\nType: Task\n---\n", "ID");
    expect_missing("---\nType: Task\nID: 3\n---\n", "DateTime");
    expect_missing("---\nType: Task\nID: 3\nDateTime: Jan 01 2023 12:00:00 AM\n---\n", "Tags");
    expect_missing(
        "---\nType: Task\nID: 3\nDateTime: Jan 01 2023 12:00:00 AM\nTags: a\n---\n",
        "Task",
    );
    expect_missing(
        "---\nType: Task\nID: 3\nDateTime: Jan 01 2023 12:00:00 AM\nTags: a\nTask: t\n---\n",
        "Done",
    );
    expect_missing(
        "---\nType: Research\nID: 3\nDateTime: Jan 01 2023 12:00:00 AM\nTags: a\n---\n",
        "Title",
    );
    expect_missing(
        "---\nType: Event\nID: 3\nDateTime: Jan 01 2023 12:00:00 AM\nTags: a\n---\n",
        "Title",
    );
    expect_missing(
        "---\nType: Event\nID: 3\nDateTime: Jan 01 2023 12:00:00 AM\nTags: a\nTitle: t\n---\n",
        "People",
    );
}

#[test]
fn unknown_entry_type() {
    match GooseberryEntry::from_file("---\nType:  Chore\nID: 3\n---\n") {
        Err(Sorry::UnknownEntryType { entry_type }) => assert_eq!(entry_type, " Chore"),
        other => panic!("expected an unknown type, got {:?}", other),
    }
    assert!(matches!(
        GooseberryEntryType::from_str("task"),
        Err(Sorry::UnknownEntryType { .. })
    ));
}

fn expect_malformed(text: &str, name: &str, why: Malformation) {
    match GooseberryEntry::from_file(text) {
        Err(Sorry::MalformedHeaderElement { element, cause }) => {
            assert_eq!(element, name);
            assert_eq!(cause, why);
        }
        other => panic!("expected {} to be malformed, got {:?}", name, other),
    }
}

#[test]
fn malformed_header_elements() {
    expect_malformed("---\nType: Task\nID: three\n---\n", "ID", Malformation::NotANumber);
    expect_malformed("---\nType: Task\nID:  3\n---\n", "ID", Malformation::NotANumber);
    expect_malformed("---\nType: Task\nID: -3\n---\n", "ID", Malformation::NotANumber);
    expect_malformed("---\nType: Task\nID: \n---\n", "ID", Malformation::NotANumber);
    expect_malformed("---\nType: Task\nID: +\n---\n", "ID", Malformation::NotANumber);
    expect_malformed(
        "---\nType: Task\nID: 18446744073709551616\n---\n",
        "ID",
        Malformation::NotANumber,
    );
    expect_malformed(
        "---\nType: Task\nID: 3\nDateTime: 2023-01-01 00:00:00\n---\n",
        "DateTime",
        Malformation::NotADateTime,
    );
    expect_malformed(
        "---\nType: Task\nID: 3\nDateTime: Feb 30 2023 12:00:00 AM\n---\n",
        "DateTime",
        Malformation::NotADateTime,
    );
    expect_malformed(
        "---\nType: Task\nID: 3\nDateTime: Jan 01 2023 12:00:00 AM\nTags: a\nTask: t\nDone: yes\n---\n",
        "Done",
        Malformation::NotABool,
    );
}

#[test]
fn largest_identifier_reads() {
    let text = "---\nType: Journal\nID: 18446744073709551615\nDateTime: Jan 01 2023 12:00:00 AM\nTags: a\n---\n";
    assert_eq!(GooseberryEntry::from_file(text).unwrap().id(), u64::MAX);
}

#[test]
fn header_and_body_are_split() {
    let (header, body) = get_header_lines("---\nA: 1\nB: two: 2\n---\nfirst\n---\nlast\n").unwrap();
    assert_eq!(
        header,
        vec![("A".to_string(), "1".to_string()), ("B".to_string(), "two: 2".to_string())]
    );
    assert_eq!(body, "first\n---\nlast\n");
    assert_eq!(header_get(&header, "B"), Some(&"two: 2".to_string()));
    assert_eq!(header_get(&header, "C"), None);
}

#[test]
fn header_ends_at_first_closing_mark() {
    let lines = strings(&["---", "A: 1", "---", "B: 2", "---"]);
    let (header, next) = consume_markdown_header(&lines).unwrap();
    assert_eq!(header, vec![("A".to_string(), "1".to_string())]);
    assert_eq!(next, 3);
    assert!(matches!(consume_markdown_header(&Vec::new()), Err(Sorry::MissingHeader)));
}

#[test]
fn pairs_split_at_first_colon_space() {
    assert_eq!(split_pair("a: b"), Some(("a".to_string(), "b".to_string())));
    assert_eq!(split_pair("a:b: c: d"), Some(("a:b".to_string(), "c: d".to_string())));
    assert_eq!(split_pair(": "), Some((String::new(), String::new())));
    assert_eq!(split_pair("a:"), None);
    assert_eq!(split_pair(""), None);
}

#[test]
fn common_elements_are_read_in_order() {
    let header = vec![
        ("Tags".to_string(), "q, r".to_string()),
        ("DateTime".to_string(), "Jan 01 2023 12:00:00 AM".to_string()),
        ("ID".to_string(), "9".to_string()),
    ];
    let (id, datetime, tags) = get_id_datetime_tags(&header).unwrap();
    assert_eq!(id, 9);
    assert_eq!(datetime.seconds(), NEW_YEAR_2023);
    assert_eq!(tags, strings(&["q", "r"]));
}

#[test]
fn file_names() {
    assert_eq!(GooseberryEntryType::Task.get_file(3), "Task_3.md");
    assert_eq!(GooseberryEntryType::Journal.get_file(0), "Journal_0.md");
    assert_eq!(GooseberryEntryType::Research.get_file(120), "Research_120.md");
    assert_eq!(
        GooseberryEntryType::Event.get_file(u64::MAX),
        "Event_18446744073709551615.md"
    );
}

#[test]
fn kind_names_read_back() {
    for kind in [
        GooseberryEntryType::Task,
        GooseberryEntryType::Research,
        GooseberryEntryType::Journal,
        GooseberryEntryType::Event,
    ] {
        assert_eq!(GooseberryEntryType::from_str(&kind.to_string()).unwrap(), kind);
    }
    assert_eq!(GooseberryEntryType::from_str(" Event\n").unwrap(), GooseberryEntryType::Event);
}

#[test]
fn forms_of_the_kinds() {
    let titles = |kind: GooseberryEntryType| {
        let form = kind.get_input_boxes();
        (0..form.len()).map(|i| form.get_box(i).get_title()).collect::<Vec<_>>()
    };
    assert_eq!(titles(GooseberryEntryType::Task), strings(&["Task", "Description", "Tags"]));
    assert_eq!(titles(GooseberryEntryType::Journal), strings(&["Description", "Tags"]));
    assert_eq!(titles(GooseberryEntryType::Research), strings(&["Title", "Notes", "Tags"]));
    assert_eq!(titles(GooseberryEntryType::Event), strings(&["Title", "Notes", "People", "Tags"]));
    let form = GooseberryEntryType::Event.get_input_boxes();
    assert_eq!(form.get_index(), 0);
    assert!(form.get_box(0).is_writing());
    assert!(!form.get_box(1).is_writing());
    assert!(form.get_box(1).is_markdown());
    assert!(!form.get_box(2).is_markdown());
    assert_eq!(form.get_box(1).get_percent(), 50);
    assert_eq!(form.get_box(3).get_percent(), 10);
    assert_eq!(GooseberryEntryType::Task.get_input_boxes().get_box(1).get_percent(), 60);
}

#[test]
fn entry_from_boxes_at_a_moment() {
    let now = stamp(NEW_YEAR_2023);
    let entry = GooseberryEntry::from_input_boxes_at(
        4,
        GooseberryEntryType::Event,
        boxes(&["Standup", "notes\nhere", "Ada , Grace", "team,daily"]),
        now,
    )
    .unwrap();
    match entry {
        GooseberryEntry::Event(event) => {
            assert_eq!(event.id, 4);
            assert_eq!(event.title, "Standup");
            assert_eq!(event.notes, "notes\nhere");
            assert_eq!(event.people, strings(&["Ada", "Grace"]));
            assert_eq!(event.tags, strings(&["team", "daily"]));
            assert_eq!(event.datetime.seconds(), NEW_YEAR_2023);
        }
        other => panic!("expected an event, got {:?}", other),
    }
    let task = TaskEntry::from_input_boxes_at(
        9,
        GooseberryEntryType::Task,
        boxes(&["sum", "long", "a"]),
        now,
    )
    .unwrap();
    assert!(!task.done);
    assert_eq!(task.task, "sum");
    assert_eq!(task.description, "long");
    assert_eq!(task.tags, strings(&["a"]));
}

#[test]
fn entry_from_boxes_now() {
    let before = Timestamp::now().unwrap().seconds();
    let entry =
        JournalEntry::from_input_boxes(1, GooseberryEntryType::Journal, boxes(&["today", "t"]))
            .unwrap();
    let after = Timestamp::now().unwrap().seconds();
    assert!(before <= entry.datetime.seconds() && entry.datetime.seconds() <= after);
    assert_eq!(entry.description, "today");
}

#[test]
fn wrong_entry_type_from_boxes() {
    match TaskEntry::from_input_boxes_at(
        1,
        GooseberryEntryType::Journal,
        boxes(&["a", "b", "c"]),
        stamp(0),
    ) {
        Err(Sorry::WrongEntryType { expected, got }) => {
            assert_eq!(expected, GooseberryEntryType::Task);
            assert_eq!(got, GooseberryEntryType::Journal);
        }
        other => panic!("expected a wrong type, got {:?}", other),
    }
    assert!(matches!(
        EventEntry::from_input_boxes_at(1, GooseberryEntryType::Task, boxes(&["a"]), stamp(0)),
        Err(Sorry::WrongEntryType { .. })
    ));
}

#[test]
fn too_few_boxes_is_an_error() {
    match GooseberryEntry::from_input_boxes_at(
        1,
        GooseberryEntryType::Event,
        boxes(&["a", "b", "c"]),
        stamp(0),
    ) {
        Err(Sorry::OutOfCheeseError { message }) => {
            assert_eq!(message, "Expected a box for every field")
        }
        other => panic!("expected an error, got {:?}", other),
    }
    assert!(matches!(
        JournalEntry::from_input_boxes_at(1, GooseberryEntryType::Journal, Vec::new(), stamp(0)),
        Err(Sorry::OutOfCheeseError { .. })
    ));
}

#[test]
fn entry_to_boxes() {
    let entry = GooseberryEntry::from_file(&task_text()).unwrap();
    let form = entry.to_input_boxes();
    assert_eq!(form.len(), 3);
    assert_eq!(form.get_box(0).get_content(), "buy milk");
    assert_eq!(form.get_box(1).get_content(), "buy 2% milk");
    assert_eq!(form.get_box(2).get_content(), "x, y");
    assert_eq!(form.get_index(), 0);
    assert!(form.get_box(0).is_writing());
}

#[test]
fn merge_keeps_identifier_moment_and_flag() {
    let old = TaskEntry {
        id: 7,
        task: "old".to_string(),
        description: "old text".to_string(),
        datetime: stamp(NEW_YEAR_2023),
        done: true,
        tags: strings(&["a"]),
    };
    let mut edited = TaskEntry {
        id: 99,
        task: "new".to_string(),
        description: "new text".to_string(),
        datetime: stamp(NEW_YEAR_2023 + 500),
        done: false,
        tags: strings(&["b"]),
    };
    edited.merge_with_entry(&old);
    assert_eq!(edited.id, 7);
    assert_eq!(edited.datetime.seconds(), NEW_YEAR_2023);
    assert!(edited.done);
    assert_eq!(edited.task, "new");
    assert_eq!(edited.description, "new text");
    assert_eq!(edited.tags, strings(&["b"]));
}

#[test]
fn merge_of_two_kinds_changes_nothing() {
    let old = GooseberryEntry::from_file(&task_text()).unwrap();
    let mut edited = GooseberryEntry::Journal(JournalEntry {
        id: 50,
        description: "d".to_string(),
        datetime: stamp(5),
        tags: strings(&["t"]),
    });
    edited.merge_with_entry(&old);
    assert_eq!(edited.id(), 50);
    assert_eq!(edited.datetime().seconds(), 5);
}

#[test]
fn toggle_flips_done_only() {
    let mut task = match GooseberryEntry::from_file(&task_text()).unwrap() {
        GooseberryEntry::Task(task) => task,
        other => panic!("expected a task, got {:?}", other),
    };
    task.toggle();
    assert!(task.done);
    assert_eq!(task.id, 3);
    assert_eq!(task.datetime.seconds(), NEW_YEAR_2023);
    assert_eq!(task.tags, strings(&["x", "y"]));
    task.toggle();
    assert!(!task.done);
    assert_eq!(task.to_file(), task_text());
}

#[test]
fn journal_entries_have_a_day() {
    let entry = JournalEntry {
        id: 1,
        description: "d".to_string(),
        datetime: stamp(NEW_YEAR_2023 + 86_399),
        tags: strings(&["t"]),
    };
    assert_eq!(entry.date(), 19_358);
}

#[test]
fn clone_is_the_same_entry() {
    let entry = GooseberryEntry::from_file(&task_text()).unwrap();
    assert_eq!(entry.clone().to_file(), task_text());
}
