use gooseberry_tm::entry::{GooseberryEntry, GooseberryEntryTrait, GooseberryEntryType};
use gooseberry_tm::errors::{Malformation, Sorry};
use gooseberry_tm::gooseberry_app::{
    digit_of_key, save_entry, Action, GooseberryTab, GooseberryTabs, TargetPicker,
};
use gooseberry_tm::timestamp::Timestamp;
use gooseberry_tm::utility::interactive::KeyEvent;

const T: i64 = 1_672_531_200;

fn task_text(id: u64, summary: &str, done: bool) -> String {
    format!(
        "---\nType: Task\nID: {}\nDateTime: Jan 01 2023 12:00:00 AM\nTags: x, y\nTask: {}\nDone: {}\n---\ndetails of {}",
        id, summary, done, id
    )
}

fn journal_text(id: u64) -> String {
    format!("---\nType: Journal\nID: {}\nDateTime: Jan 01 2023 12:00:00 AM\nTags: a\n---\nline", id)
}

fn task_tab(texts: &[String]) -> GooseberryTab {
    GooseberryTab::from_folder(GooseberryEntryType::Task, &texts.to_vec()).unwrap()
}

fn press(tab: &mut GooseberryTab, keys: &str) {
    for c in keys.chars() {
        assert!(matches!(tab.keypress(KeyEvent::Char(c)), Ok(Action::Nothing)));
    }
}

fn as_task(entry: &GooseberryEntry) -> &gooseberry_tm::entry::TaskEntry {
    match entry {
        GooseberryEntry::Task(task) => task,
        other => panic!("expected a task, got {:?}", other),
    }
}

#[test]
fn digits_accumulate_left_to_right() {
    let mut picker = TargetPicker::new();
    picker.arm('e');
    picker.digit(4).unwrap();
    picker.digit(2).unwrap();
    assert_eq!(picker.selected_entry, 42);
    assert_eq!(picker.confirm(), Some(('e', 42)));
    assert_eq!(picker, TargetPicker::new());
    assert_eq!(picker.confirm(), None);
}

#[test]
fn digits_are_ignored_while_idle() {
    let mut picker = TargetPicker::new();
    picker.digit(4).unwrap();
    assert_eq!(picker, TargetPicker::new());
}

#[test]
fn arming_again_starts_over() {
    let mut picker = TargetPicker::new();
    picker.arm('t');
    picker.digit(9).unwrap();
    picker.arm('d');
    picker.digit(0).unwrap();
    picker.digit(1).unwrap();
    assert_eq!(picker.confirm(), Some(('d', 1)));
}

#[test]
fn an_identifier_that_does_not_fit_is_an_error() {
    let mut picker = TargetPicker::new();
    picker.arm('e');
    for c in "1844674407370955161".chars() {
        picker.digit(digit_of_key(c).unwrap()).unwrap();
    }
    let before = picker;
    match picker.digit(6) {
        Err(Sorry::MalformedHeaderElement { element, cause }) => {
            assert_eq!(element, "ID");
            assert_eq!(cause, Malformation::NotANumber);
        }
        other => panic!("expected an error, got {:?}", other),
    }
    assert_eq!(picker, before);
    picker.digit(5).unwrap();
    assert_eq!(picker.selected_entry, u64::MAX);
}

#[test]
fn digit_keys() {
    assert_eq!(digit_of_key('0'), Some(0));
    assert_eq!(digit_of_key('9'), Some(9));
    assert_eq!(digit_of_key('a'), None);
    assert_eq!(digit_of_key('٣'), None);
}

#[test]
fn picker_in_a_tab_takes_four_then_two() {
    let mut tab = task_tab(&[task_text(42, "answer", false)]);
    press(&mut tab, "e42");
    assert_eq!(tab.get_picker().selected_entry, 42);
    assert_eq!(tab.get_picker().picking_char, Some('e'));
    press(&mut tab, "\n");
    assert!(tab.is_writing());
    assert_eq!(tab.get_editing_entry().unwrap().id(), 42);
    assert_eq!(tab.get_picker(), TargetPicker::new());
}

#[test]
fn fresh_tab() {
    let tab = task_tab(&[task_text(3, "a", false), task_text(5, "b", true)]);
    assert_eq!(tab.get_title(), "Task");
    assert!(!tab.is_writing());
    assert!(!tab.is_folded());
    assert_eq!(tab.get_scroll(), 0);
    assert_eq!(tab.get_catalog().visible_ids(), &vec![3, 5]);
    assert_eq!(tab.get_catalog().next_available_id(), 6);
    assert_eq!(tab.get_input_boxes().len(), 3);
    assert!(tab.get_editing_entry().is_none());
}

#[test]
fn merge_on_edit_keeps_id_timestamp_and_done() {
    let mut tab = task_tab(&[task_text(7, "old", true)]);
    press(&mut tab, "e7\n");
    assert!(tab.is_writing());
    assert_eq!(tab.get_input_boxes().get_box(0).get_content(), "old");
    assert_eq!(tab.get_input_boxes().get_box(1).get_content(), "details of 7");
    assert_eq!(tab.get_input_boxes().get_box(2).get_content(), "x, y");
    for _ in 0..3 {
        tab.keypress(KeyEvent::Backspace).unwrap();
    }
    press(&mut tab, "new\n!");
    let action = tab.keypress(KeyEvent::Ctrl('s')).unwrap();
    assert!(!tab.is_writing());
    assert!(tab.get_editing_entry().is_none());
    match action {
        Action::Store { file, content, entry } => {
            assert_eq!(file, "Task_7.md");
            let task = as_task(&entry);
            assert_eq!(task.id, 7);
            assert_eq!(task.datetime.seconds(), T);
            assert!(task.done);
            assert_eq!(task.task, "new");
            assert_eq!(task.description, "details of 7!");
            assert_eq!(content, entry.to_file());
            assert_eq!(as_task(tab.get_catalog().get(7).unwrap()).task, "old");
            tab.stored(entry).unwrap();
        }
        other => panic!("expected a store, got {:?}", other),
    }
    assert_eq!(as_task(tab.get_catalog().get(7).unwrap()).task, "new");
    assert_eq!(tab.get_catalog().visible_ids(), &vec![7]);
    assert_eq!(tab.get_catalog().next_available_id(), 8);
}

#[test]
fn a_new_entry_gets_the_next_identifier() {
    let mut tab = task_tab(&[task_text(3, "a", false)]);
    press(&mut tab, "n");
    assert!(tab.is_writing());
    press(&mut tab, "buy milk\nsecond\nline");
    tab.keypress(KeyEvent::Ctrl('n')).unwrap();
    press(&mut tab, "food, home");
    let before = Timestamp::now().unwrap().seconds();
    let action = tab.keypress(KeyEvent::Ctrl('s')).unwrap();
    let after = Timestamp::now().unwrap().seconds();
    match action {
        Action::Store { file, content, entry } => {
            assert_eq!(file, "Task_4.md");
            let task = as_task(&entry);
            assert_eq!(task.id, 4);
            assert_eq!(task.task, "buy milk");
            assert_eq!(task.description, "second\nline");
            assert_eq!(task.tags, vec!["food".to_string(), "home".to_string()]);
            assert!(!task.done);
            assert!(before <= task.datetime.seconds() && task.datetime.seconds() <= after);
            assert!(content.starts_with("---\nType: Task\nID: 4\nDateTime: "));
            assert!(content.ends_with("\nTags: food, home\nTask: buy milk\nDone: false\n---\nsecond\nline"));
            assert_eq!(tab.get_catalog().len(), 1);
            tab.stored(entry).unwrap();
        }
        other => panic!("expected a store, got {:?}", other),
    }
    assert_eq!(tab.get_catalog().visible_ids(), &vec![3, 4]);
    assert_eq!(tab.get_catalog().next_available_id(), 5);
    assert_eq!(tab.get_input_boxes().get_box(0).get_content(), "");
}

#[test]
fn a_save_at_a_given_moment() {
    let mut tab = GooseberryTab::from_folder(GooseberryEntryType::Journal, &Vec::new()).unwrap();
    tab.keypress_at(KeyEvent::Char('n'), None).unwrap();
    tab.keypress_at(KeyEvent::Char('h'), None).unwrap();
    tab.keypress_at(KeyEvent::Char('i'), None).unwrap();
    let now = Timestamp::from_seconds(T + 60);
    match tab.keypress_at(KeyEvent::Ctrl('s'), now).unwrap() {
        Action::Store { file, content, .. } => {
            assert_eq!(file, "Journal_1.md");
            assert_eq!(
                content,
                "---\nType: Journal\nID: 1\nDateTime: Jan 01 2023 12:01:00 AM\nTags: \n---\nhi"
            );
        }
        other => panic!("expected a store, got {:?}", other),
    }
}

#[test]
fn a_save_without_a_moment_is_an_error() {
    let mut tab = GooseberryTab::from_folder(GooseberryEntryType::Journal, &Vec::new()).unwrap();
    tab.keypress_at(KeyEvent::Char('n'), None).unwrap();
    match tab.keypress_at(KeyEvent::Ctrl('s'), None) {
        Err(Sorry::OutOfCheeseError { message }) => {
            assert_eq!(message, "The clock gives no moment to store")
        }
        other => panic!("expected an error, got {:?}", other),
    }
    assert!(!tab.is_writing());
}

#[test]
fn cancel_ends_writing_and_forgets_the_edit() {
    let mut tab = task_tab(&[task_text(3, "a", false)]);
    press(&mut tab, "e3\n");
    assert!(tab.get_editing_entry().is_some());
    assert!(matches!(tab.keypress(KeyEvent::Esc), Ok(Action::Nothing)));
    assert!(!tab.is_writing());
    assert!(tab.get_editing_entry().is_none());
    assert_eq!(tab.get_input_boxes().get_box(0).get_content(), "");
    press(&mut tab, "n");
    press(&mut tab, "fresh");
    match tab.keypress(KeyEvent::Ctrl('s')).unwrap() {
        Action::Store { entry, .. } => assert_eq!(entry.id(), 4),
        other => panic!("expected a store, got {:?}", other),
    }
}

#[test]
fn keys_are_text_while_writing() {
    let mut tab = task_tab(&[task_text(3, "a", false)]);
    press(&mut tab, "n");
    press(&mut tab, "qtd3");
    assert!(tab.is_writing());
    assert_eq!(tab.get_input_boxes().get_box(0).get_content(), "qtd3");
    assert_eq!(tab.get_picker(), TargetPicker::new());
}

#[test]
fn toggle_done_twice_restores_the_flag() {
    let mut tab = task_tab(&[task_text(3, "a", false), task_text(5, "b", true)]);
    press(&mut tab, "t3");
    let first = match tab.keypress(KeyEvent::Char('\n')).unwrap() {
        Action::Store { file, content, entry } => {
            assert_eq!(file, "Task_3.md");
            assert_eq!(content, task_text(3, "a", true));
            entry
        }
        other => panic!("expected a store, got {:?}", other),
    };
    assert!(!as_task(tab.get_catalog().get(3).unwrap()).done);
    tab.stored(first).unwrap();
    {
        let task = as_task(tab.get_catalog().get(3).unwrap());
        assert!(task.done);
        assert_eq!(task.id, 3);
        assert_eq!(task.datetime.seconds(), T);
        assert_eq!(task.tags, vec!["x".to_string(), "y".to_string()]);
    }
    press(&mut tab, "t3");
    match tab.keypress(KeyEvent::Char('\n')).unwrap() {
        Action::Store { content, entry, .. } => {
            assert_eq!(content, task_text(3, "a", false));
            tab.stored(entry).unwrap();
        }
        other => panic!("expected a store, got {:?}", other),
    }
    assert_eq!(tab.get_catalog().get(3).unwrap().to_file(), task_text(3, "a", false));
    assert!(as_task(tab.get_catalog().get(5).unwrap()).done);
    assert_eq!(tab.get_catalog().visible_ids(), &vec![3, 5]);
}

#[test]
fn toggle_on_another_kind_does_nothing() {
    let mut tab =
        GooseberryTab::from_folder(GooseberryEntryType::Journal, &vec![journal_text(1)]).unwrap();
    press(&mut tab, "t1\n");
    press(&mut tab, "t9\n");
    assert_eq!(tab.get_picker(), TargetPicker::new());
    assert_eq!(tab.get_catalog().get(1).unwrap().to_file(), journal_text(1));
}

#[test]
fn delete_asks_to_erase_and_then_lets_go() {
    let mut tab = task_tab(&[task_text(3, "a", false), task_text(5, "b", true)]);
    press(&mut tab, "d3");
    match tab.keypress(KeyEvent::Char('\n')).unwrap() {
        Action::Erase { file, id } => {
            assert_eq!(file, "Task_3.md");
            assert_eq!(id, 3);
            assert_eq!(tab.get_catalog().visible_ids(), &vec![3, 5]);
            assert_eq!(tab.erased(id).unwrap().id(), 3);
        }
        other => panic!("expected an erase, got {:?}", other),
    }
    assert_eq!(tab.get_catalog().visible_ids(), &vec![5]);
    assert!(!tab.get_catalog().contains(3));
    assert_eq!(tab.get_picker(), TargetPicker::new());
}

#[test]
fn commands_on_a_missing_entry_are_errors_and_leave_the_tab_scrolling() {
    for command in ['e', 't', 'd'] {
        let mut tab = task_tab(&[task_text(3, "a", false)]);
        press(&mut tab, &format!("{}4", command));
        match tab.keypress(KeyEvent::Char('\n')) {
            Err(Sorry::MissingEntryID { entry_type, entry_id }) => {
                assert_eq!(entry_type, GooseberryEntryType::Task);
                assert_eq!(entry_id, 4);
            }
            other => panic!("expected a missing entry, got {:?}", other),
        }
        assert!(!tab.is_writing());
        assert_eq!(tab.get_picker(), TargetPicker::new());
        assert_eq!(tab.get_catalog().visible_ids(), &vec![3]);
    }
}

#[test]
fn erased_while_writing_is_refused() {
    let mut tab = task_tab(&[task_text(3, "a", false)]);
    press(&mut tab, "n");
    assert!(matches!(tab.erased(3), Err(Sorry::OutOfCheeseError { .. })));
    assert!(tab.get_catalog().contains(3));
}

#[test]
fn enter_without_a_command_does_nothing() {
    let mut tab = task_tab(&[task_text(3, "a", false)]);
    press(&mut tab, "3\n");
    assert!(!tab.is_writing());
    assert_eq!(tab.get_picker(), TargetPicker::new());
}

#[test]
fn fold_and_scroll() {
    let mut tab = task_tab(&[]);
    press(&mut tab, "\t");
    assert!(tab.is_folded());
    tab.toggle_fold();
    assert!(!tab.is_folded());
    tab.keypress(KeyEvent::Up).unwrap();
    assert_eq!(tab.get_scroll(), 0);
    tab.keypress(KeyEvent::Down).unwrap();
    tab.keypress(KeyEvent::Down).unwrap();
    tab.keypress(KeyEvent::Up).unwrap();
    assert_eq!(tab.get_scroll(), 1);
    press(&mut tab, "qxz");
    tab.keypress(KeyEvent::Other).unwrap();
    assert_eq!(tab.get_scroll(), 1);
}

#[test]
fn save_entry_names_the_file_and_the_text() {
    let entry = GooseberryEntry::from_file(&task_text(12, "s", false)).unwrap();
    match save_entry(entry) {
        Action::Store { file, content, entry } => {
            assert_eq!(file, "Task_12.md");
            assert_eq!(content, task_text(12, "s", false));
            assert_eq!(entry.id(), 12);
        }
        other => panic!("expected a store, got {:?}", other),
    }
}

fn app() -> GooseberryTabs {
    GooseberryTabs::from_folder(
        &vec![task_text(3, "a", false)],
        &vec![journal_text(1), journal_text(2)],
        &Vec::new(),
        &Vec::new(),
    )
    .unwrap()
}

#[test]
fn four_tabs_in_order() {
    let tabs = app();
    assert_eq!(tabs.index, 0);
    let titles: Vec<String> = tabs.tabs.iter().map(|t| t.get_title()).collect();
    assert_eq!(titles, vec!["Task", "Journal", "Research", "Event"]);
    assert_eq!(tabs.tabs[1].get_catalog().visible_ids(), &vec![1, 2]);
    assert!(!tabs.is_writing());
    assert_eq!(tabs.active().get_title(), "Task");
}

#[test]
fn a_text_that_does_not_read_fails_the_whole_start() {
    let r = GooseberryTabs::from_folder(
        &vec![task_text(3, "a", false)],
        &vec!["broken".to_string()],
        &vec!["also broken".to_string()],
        &Vec::new(),
    );
    assert!(matches!(r, Err(Sorry::MissingHeader)));
}

#[test]
fn arrows_cycle_through_the_tabs() {
    let mut tabs = app();
    let mut seen = Vec::new();
    for _ in 0..4 {
        assert!(matches!(tabs.keypress(KeyEvent::Right), Ok(Action::Nothing)));
        seen.push(tabs.index);
    }
    assert_eq!(seen, vec![1, 2, 3, 0]);
    assert!(matches!(tabs.keypress(KeyEvent::Left), Ok(Action::Nothing)));
    assert_eq!(tabs.index, 3);
    tabs.previous();
    assert_eq!(tabs.index, 2);
    tabs.next();
    tabs.next();
    assert_eq!(tabs.index, 0);
}

#[test]
fn quit_only_while_scrolling() {
    let mut tabs = app();
    assert!(matches!(tabs.keypress(KeyEvent::Char('q')), Ok(Action::Quit)));
    tabs.keypress(KeyEvent::Char('n')).unwrap();
    assert!(tabs.is_writing());
    assert!(matches!(tabs.keypress(KeyEvent::Char('q')), Ok(Action::Nothing)));
    assert!(matches!(tabs.keypress(KeyEvent::Right), Ok(Action::Nothing)));
    assert_eq!(tabs.index, 0);
    assert_eq!(tabs.active().get_input_boxes().get_box(0).get_content(), "q");
    tabs.keypress(KeyEvent::Esc).unwrap();
    assert!(matches!(tabs.keypress(KeyEvent::Char('q')), Ok(Action::Quit)));
}

#[test]
fn the_active_tab_stores_and_erases() {
    let mut tabs = app();
    tabs.keypress(KeyEvent::Right).unwrap();
    for c in "d2".chars() {
        tabs.keypress(KeyEvent::Char(c)).unwrap();
    }
    match tabs.keypress(KeyEvent::Char('\n')).unwrap() {
        Action::Erase { file, id } => {
            assert_eq!(file, "Journal_2.md");
            tabs.erased(id).unwrap();
        }
        other => panic!("expected an erase, got {:?}", other),
    }
    assert_eq!(tabs.active().get_catalog().visible_ids(), &vec![1]);
    tabs.keypress(KeyEvent::Char('n')).unwrap();
    tabs.keypress(KeyEvent::Char('x')).unwrap();
    match tabs.keypress(KeyEvent::Ctrl('s')).unwrap() {
        Action::Store { file, entry, .. } => {
            assert_eq!(file, "Journal_3.md");
            tabs.stored(entry).unwrap();
        }
        other => panic!("expected a store, got {:?}", other),
    }
    assert_eq!(tabs.active().get_catalog().visible_ids(), &vec![1, 3]);
    assert_eq!(tabs.tabs[0].get_catalog().visible_ids(), &vec![3]);
    tabs.keypress(KeyEvent::Left).unwrap();
    let stray = GooseberryEntry::from_file(&journal_text(8)).unwrap();
    assert!(matches!(tabs.stored(stray), Err(Sorry::WrongEntryType { .. })));
}
