use dd_emailforge::tui::help::{help_lines, help_sections, wrap_to_lines, HelpKind, HELP_NOTE};

#[test]
fn wrap_keeps_words_within_width() {
    assert_eq!(
        wrap_to_lines("the quick brown fox jumps", 10),
        vec!["the quick".to_string(), "brown fox".to_string(), "jumps".to_string()]
    );
}

#[test]
fn wrap_splits_a_word_longer_than_the_width() {
    assert_eq!(
        wrap_to_lines("abcdefghij xy", 4),
        vec!["abcd".to_string(), "efgh".to_string(), "ij".to_string(), "xy".to_string()]
    );
}

#[test]
fn wrap_of_blank_text_is_one_empty_line() {
    assert_eq!(wrap_to_lines("   ", 10), vec![String::new()]);
}

#[test]
fn help_has_sections_and_ends_with_notes() {
    let sections = help_sections();
    assert!(!sections.is_empty());
    let lines = help_lines(&sections, HELP_NOTE, 60);
    assert!(lines.iter().any(|l| matches!(l.kind, HelpKind::Heading)));
    assert!(lines.iter().any(|l| matches!(l.kind, HelpKind::Rule)));
    assert!(lines.iter().any(|l| l.key.contains("F1")));
    assert!(lines.iter().any(|l| l.text.contains("Autosave")));
}
