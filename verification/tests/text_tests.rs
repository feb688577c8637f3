use gooseberry_tm::text::{
    chars_of, copy_strings, decimal_text, flag_string, has_char, is_space, join_from, join_text,
    list_of, parse_flag, parse_number, same_text, split_text, string_of, trimmed,
};

fn strings(items: &[&str]) -> Vec<String> {
    items.iter().map(|s| s.to_string()).collect()
}

#[test]
fn split_gives_one_piece_more_than_separators() {
    assert_eq!(split_text("a,b,,c", ','), strings(&["a", "b", "", "c"]));
    assert_eq!(split_text("", ','), strings(&[""]));
    assert_eq!(split_text(",", ','), strings(&["", ""]));
    assert_eq!(split_text("abc", ','), strings(&["abc"]));
    assert_eq!(split_text("a\nb\n", '\n'), strings(&["a", "b", ""]));
}

#[test]
fn split_agrees_with_std() {
    for text in ["", "x", "a, b", ",,", "é,ü,", "one\ntwo"] {
        for sep in [',', '\n', 'é'] {
            let expected: Vec<String> = text.split(sep).map(|s| s.to_string()).collect();
            assert_eq!(split_text(text, sep), expected);
        }
    }
}

#[test]
fn join_puts_the_separator_between() {
    assert_eq!(join_text(&strings(&["a", "b", "c"]), ", "), "a, b, c");
    assert_eq!(join_text(&strings(&["a"]), ", "), "a");
    assert_eq!(join_text(&strings(&[]), ", "), "");
    assert_eq!(join_text(&strings(&["", ""]), "\n"), "\n");
    assert_eq!(join_from(&strings(&["a", "b", "c"]), 1, "-"), "b-c");
    assert_eq!(join_from(&strings(&["a", "b", "c"]), 3, "-"), "");
}

#[test]
fn join_undoes_split() {
    for text in ["", "a", "a\nb", "\n\n", "x\n"] {
        assert_eq!(join_text(&split_text(text, '\n'), "\n"), text);
    }
}

#[test]
fn trim_agrees_with_std() {
    for text in ["", " ", " a ", "\t\na b\r\n", "\u{a0}x\u{3000}", "\u{2003}\u{85}", "a\u{200b}", "x"] {
        assert_eq!(trimmed(text), text.trim());
    }
}

#[test]
fn whitespace_agrees_with_std() {
    let mut c = 0u32;
    while c <= 0x3100 {
        if let Some(ch) = char::from_u32(c) {
            assert_eq!(is_space(ch), ch.is_whitespace(), "at {:x}", c);
        }
        c += 1;
    }
    assert!(!is_space('\u{feff}'));
    assert!(!is_space('\u{10ffff}'));
}

#[test]
fn lists_are_split_and_trimmed() {
    assert_eq!(list_of("x, y"), strings(&["x", "y"]));
    assert_eq!(list_of(" a b ,c,, d "), strings(&["a b", "c", "", "d"]));
    assert_eq!(list_of(""), strings(&[]));
    assert_eq!(list_of(" \t"), strings(&[]));
    assert_eq!(list_of(","), strings(&["", ""]));
    assert_eq!(list_of(" x "), strings(&["x"]));
}

#[test]
fn numbers_are_read_as_std_reads_them() {
    for text in [
        "0", "7", "+7", "007", "42", "18446744073709551615", "18446744073709551616",
        "99999999999999999999999", "", "+", "-1", " 1", "1 ", "1a", "٣", "++1",
    ] {
        assert_eq!(parse_number(text), text.parse::<u64>().ok(), "for {:?}", text);
    }
    assert_eq!(parse_number("42"), Some(42));
}

#[test]
fn numbers_are_written_in_base_ten() {
    assert_eq!(decimal_text(0), "0");
    assert_eq!(decimal_text(9), "9");
    assert_eq!(decimal_text(10), "10");
    assert_eq!(decimal_text(42), "42");
    assert_eq!(decimal_text(u64::MAX), "18446744073709551615");
    for n in [0u64, 1, 99, 100, 12345678901234567890] {
        assert_eq!(parse_number(&decimal_text(n)), Some(n));
    }
}

#[test]
fn flags_are_true_or_false() {
    assert_eq!(parse_flag("true"), Some(true));
    assert_eq!(parse_flag("false"), Some(false));
    assert_eq!(parse_flag("True"), None);
    assert_eq!(parse_flag(""), None);
    assert_eq!(parse_flag("true "), None);
    assert_eq!(flag_string(true), "true");
    assert_eq!(flag_string(false), "false");
}

#[test]
fn characters_and_strings() {
    assert_eq!(chars_of("aé\n"), vec!['a', 'é', '\n']);
    assert_eq!(string_of(&vec!['a', 'b', 'c'], 1, 3), "bc");
    assert_eq!(string_of(&vec!['a', 'b', 'c'], 2, 2), "");
    assert!(same_text("abc", "abc"));
    assert!(!same_text("abc", "abd"));
    assert!(!same_text("abc", "ab"));
    assert!(has_char("a\nb", '\n'));
    assert!(!has_char("ab", '\n'));
    assert_eq!(copy_strings(&strings(&["a", "", "b"])), strings(&["a", "", "b"]));
}

#[test]
fn string_push_and_pop_are_as_stated() {
    let mut s = String::from("ab");
    s.push('c');
    assert_eq!(s, "abc");
    assert_eq!(s.pop(), Some('c'));
    assert_eq!(s, "ab");
    let mut empty = String::new();
    assert_eq!(empty.pop(), None);
    assert_eq!(empty, "");
}
