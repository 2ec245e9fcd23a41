use license_exam::game::{split_lines, GameStrings};

#[test]
fn puzzle_message_joins_fragments_in_order() {
    let strings = GameStrings {
        welcome_begin: "one".to_string(),
        puzzle_prompt: "-two-".to_string(),
        welcome_end: "three".to_string(),
    };
    assert_eq!(strings.puzzle_message(), "one-two-three");
}

#[test]
fn split_lines_keeps_empty_pieces() {
    let pieces = split_lines("a\n\nb");
    assert_eq!(pieces, vec!["a".to_string(), "".to_string(), "b".to_string()]);
}

#[test]
fn split_lines_without_newline_is_one_piece() {
    assert_eq!(split_lines("plain"), vec!["plain".to_string()]);
    assert_eq!(split_lines(""), vec!["".to_string()]);
}

#[test]
fn split_lines_trailing_newline_yields_trailing_empty() {
    assert_eq!(split_lines("a\n"), vec!["a".to_string(), "".to_string()]);
    assert_eq!(split_lines("\nb"), vec!["".to_string(), "b".to_string()]);
}
