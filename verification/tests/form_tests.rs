use gooseberry_tm::entry::GooseberryEntryType;
use gooseberry_tm::utility::formatting::{TaskState, DONE, HEADER_MARK, NOT_DONE};
use gooseberry_tm::utility::interactive::{
    Event, InputBox, InputBoxes, KeyEvent, HELP_BOX_PERCENT, TAB_BOX_PERCENT,
};

fn three_boxes() -> InputBoxes {
    InputBoxes::new(vec![
        InputBox::new("One".to_string(), false, 10),
        InputBox::new("Two".to_string(), true, 40),
        InputBox::new("Three".to_string(), false, 20),
    ])
}

fn contents(form: &InputBoxes) -> Vec<String> {
    (0..form.len()).map(|i| form.get_box(i).get_content()).collect()
}

fn writing(form: &InputBoxes) -> Vec<bool> {
    (0..form.len()).map(|i| form.get_box(i).is_writing()).collect()
}

fn type_text(form: &mut InputBoxes, text: &str) {
    for c in text.chars() {
        assert!(matches!(form.keypress(KeyEvent::Char(c)), (None, false)));
    }
}

#[test]
fn new_box_is_empty_and_idle() {
    let b = InputBox::new("Title".to_string(), true, 25);
    assert_eq!(b.get_title(), "Title");
    assert_eq!(b.get_content(), "");
    assert!(b.is_markdown());
    assert!(!b.is_writing());
    assert_eq!(b.get_percent(), 25);
    assert_eq!(b.get_scroll(), 0);
}

#[test]
fn new_form_focuses_first_box() {
    let form = three_boxes();
    assert_eq!(form.len(), 3);
    assert!(!form.is_empty());
    assert_eq!(form.get_index(), 0);
    assert_eq!(writing(&form), vec![true, false, false]);
}

#[test]
fn focus_wraps_after_as_many_moves_as_boxes() {
    for start in 0..3 {
        let mut form = three_boxes();
        for _ in 0..start {
            form.increment_box();
        }
        assert_eq!(form.get_index(), start);
        for _ in 0..form.len() {
            form.keypress(KeyEvent::Ctrl('n'));
        }
        assert_eq!(form.get_index(), start);
    }
    let mut form = GooseberryEntryType::Event.get_input_boxes();
    let seen: Vec<usize> = (0..4)
        .map(|_| {
            form.keypress(KeyEvent::Ctrl('n'));
            form.get_index()
        })
        .collect();
    assert_eq!(seen, vec![1, 2, 3, 0]);
}

#[test]
fn previous_box_wraps_to_the_last() {
    let mut form = three_boxes();
    form.decrement_box();
    assert_eq!(form.get_index(), 2);
    assert_eq!(writing(&form), vec![false, false, true]);
    form.keypress(KeyEvent::Ctrl('b'));
    assert_eq!(form.get_index(), 1);
    assert_eq!(writing(&form), vec![false, true, false]);
}

#[test]
fn characters_go_to_the_focused_box() {
    let mut form = three_boxes();
    type_text(&mut form, "ab");
    form.keypress(KeyEvent::Ctrl('n'));
    type_text(&mut form, "cd");
    assert_eq!(contents(&form), vec!["ab", "cd", ""]);
}

#[test]
fn newline_moves_on_in_a_plain_box_and_stays_in_markdown() {
    let mut form = three_boxes();
    type_text(&mut form, "a\n");
    assert_eq!(form.get_index(), 1);
    type_text(&mut form, "b\nc");
    assert_eq!(form.get_index(), 1);
    assert_eq!(contents(&form), vec!["a", "b\nc", ""]);
}

#[test]
fn backspace_removes_the_last_character() {
    let mut form = three_boxes();
    type_text(&mut form, "héé");
    assert!(matches!(form.keypress(KeyEvent::Backspace), (None, false)));
    assert_eq!(contents(&form), vec!["hé", "", ""]);
    form.keypress(KeyEvent::Backspace);
    form.keypress(KeyEvent::Backspace);
    form.keypress(KeyEvent::Backspace);
    assert_eq!(contents(&form), vec!["", "", ""]);
}

#[test]
fn scroll_is_per_box_and_stops_at_zero() {
    let mut form = three_boxes();
    form.keypress(KeyEvent::Up);
    assert_eq!(form.get_box(0).get_scroll(), 0);
    form.keypress(KeyEvent::Down);
    form.keypress(KeyEvent::Down);
    form.keypress(KeyEvent::Up);
    assert_eq!(form.get_box(0).get_scroll(), 1);
    form.keypress(KeyEvent::Ctrl('n'));
    form.keypress(KeyEvent::Down);
    assert_eq!(form.get_box(0).get_scroll(), 1);
    assert_eq!(form.get_box(1).get_scroll(), 1);
    assert_eq!(form.get_box(2).get_scroll(), 0);
}

#[test]
fn save_hands_over_the_boxes_and_clears_them() {
    let mut form = three_boxes();
    type_text(&mut form, "a\nb");
    let (saved, stop) = form.keypress(KeyEvent::Ctrl('s'));
    assert!(stop);
    let saved = saved.unwrap();
    assert_eq!(saved.len(), 3);
    assert_eq!(saved[0].get_content(), "a");
    assert_eq!(saved[1].get_content(), "b");
    assert_eq!(saved[2].get_content(), "");
    assert_eq!(saved[1].get_title(), "Two");
    assert_eq!(contents(&form), vec!["", "", ""]);
    assert_eq!(form.get_index(), 0);
    assert_eq!(writing(&form), vec![false, false, false]);
}

#[test]
fn cancel_clears_without_handing_over() {
    let mut form = three_boxes();
    type_text(&mut form, "a\nb");
    assert!(matches!(form.keypress(KeyEvent::Esc), (None, true)));
    assert_eq!(contents(&form), vec!["", "", ""]);
    assert_eq!(form.get_index(), 0);
    assert_eq!(writing(&form), vec![false, false, false]);
}

#[test]
fn other_keys_change_nothing() {
    let mut form = three_boxes();
    type_text(&mut form, "a");
    for key in [KeyEvent::Ctrl('x'), KeyEvent::Left, KeyEvent::Right, KeyEvent::Other] {
        assert!(matches!(form.keypress(key), (None, false)));
    }
    assert_eq!(contents(&form), vec!["a", "", ""]);
    assert_eq!(form.get_index(), 0);
}

#[test]
fn start_and_stop_writing() {
    let mut form = three_boxes();
    form.increment_box();
    form.stop_writing();
    assert_eq!(form.get_index(), 0);
    assert_eq!(writing(&form), vec![false, false, false]);
    form.start_writing();
    assert_eq!(form.get_index(), 0);
    assert_eq!(writing(&form), vec![true, false, false]);
}

#[test]
fn start_writing_empties_every_box() {
    let mut form = three_boxes();
    form.replace_content(0, "left over");
    form.replace_content(2, "x");
    form.increment_box();
    form.start_writing();
    assert_eq!(contents(&form), vec!["", "", ""]);
    assert_eq!(form.get_index(), 0);
    assert_eq!(writing(&form), vec![true, false, false]);
    assert_eq!(form.len(), 3);
    assert_eq!(form.get_box(1).get_title(), "Two");
    assert!(form.get_box(1).is_markdown());
}

#[test]
fn a_new_form_keeps_what_its_boxes_hold() {
    let mut first = three_boxes();
    first.replace_content(1, "kept");
    let form = InputBoxes::new(first.save());
    assert_eq!(contents(&form), vec!["", "kept", ""]);
    assert_eq!(writing(&form), vec![true, false, false]);
}

#[test]
fn replace_content_of_one_box() {
    let mut form = three_boxes();
    form.replace_content(2, "x\ny");
    assert_eq!(contents(&form), vec!["", "", "x\ny"]);
    form.replace_content(2, "");
    assert_eq!(contents(&form), vec!["", "", ""]);
}

#[test]
fn save_directly() {
    let mut form = three_boxes();
    form.replace_content(0, "kept");
    let boxes = form.save();
    assert_eq!(boxes[0].get_content(), "kept");
    assert!(boxes[0].is_writing());
    assert_eq!(contents(&form), vec!["", "", ""]);
}

#[test]
fn constraints_share_out_the_terminal() {
    assert_eq!(TAB_BOX_PERCENT, 7);
    assert_eq!(HELP_BOX_PERCENT, 13);
    assert_eq!(three_boxes().get_constraints(), Some(vec![7, 10, 10, 40, 20, 13]));
    assert_eq!(
        GooseberryEntryType::Task.get_input_boxes().get_constraints(),
        Some(vec![7, 0, 10, 60, 10, 13])
    );
    assert_eq!(
        GooseberryEntryType::Event.get_input_boxes().get_constraints(),
        Some(vec![7, 0, 10, 50, 10, 10, 13])
    );
    let wide = InputBoxes::new(vec![
        InputBox::new("a".to_string(), false, 60),
        InputBox::new("b".to_string(), false, 21),
    ]);
    assert_eq!(wide.get_constraints(), None);
    let huge = InputBoxes::new(vec![
        InputBox::new("a".to_string(), false, u16::MAX),
        InputBox::new("b".to_string(), false, u16::MAX),
    ]);
    assert_eq!(huge.get_constraints(), None);
}

#[test]
fn task_state_symbols() {
    assert_eq!(HEADER_MARK, "---");
    assert_eq!(TaskState::Done.symbol(), '\u{2713}');
    assert_eq!(TaskState::NotDone.symbol(), '\u{2715}');
    assert_eq!(TaskState::Done.symbol(), DONE);
    assert_eq!(TaskState::NotDone.symbol(), NOT_DONE);
    assert_eq!(TaskState::of(true), TaskState::Done);
    assert_eq!(TaskState::of(false), TaskState::NotDone);
}

#[test]
fn events_carry_input() {
    let event: Event<KeyEvent> = Event::Input(KeyEvent::Char('a'));
    assert!(matches!(event, Event::Input(KeyEvent::Char('a'))));
    let tick: Event<KeyEvent> = Event::Tick;
    assert!(matches!(tick, Event::Tick));
}
