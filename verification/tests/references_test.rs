use obsidian_export::references::FormatError;
use obsidian_export::ObsidianNoteReference;

fn reference(file: Option<&str>, label: Option<&str>, section: Option<&str>) -> ObsidianNoteReference {
    ObsidianNoteReference {
        file: file.map(String::from),
        section: section.map(String::from),
        label: label.map(String::from),
    }
}

fn check_parse(input: &str, file: Option<&str>, label: Option<&str>, section: Option<&str>) {
    assert_eq!(
        ObsidianNoteReference::from_str(input).unwrap(),
        reference(file, label, section)
    );
}

#[test]
fn parse_note_refs_from_strings_just_a_note() {
    check_parse("Just a note", Some("Just a note"), None, None);
}

#[test]
fn parse_note_refs_from_strings_question_mark() {
    check_parse("A note?", Some("A note?"), None, None);
}

#[test]
fn parse_note_refs_from_strings_with_heading() {
    check_parse("Note#with heading", Some("Note"), None, Some("with heading"));
}

#[test]
fn parse_note_refs_from_strings_heading_and_label() {
    check_parse("Note#Heading|Label", Some("Note"), Some("Label"), Some("Heading"));
}

#[test]
fn parse_note_refs_from_strings_no_file() {
    check_parse("#Heading|Label", None, Some("Label"), Some("Heading"));
}

#[test]
fn test_display_of_note_refs_file() {
    assert_eq!("Note", reference(Some("Note"), None, None).display());
}

#[test]
fn test_display_of_note_refs_file_and_section() {
    assert_eq!("Note > Heading", reference(Some("Note"), None, Some("Heading")).display());
}

#[test]
fn test_display_of_note_refs_section() {
    assert_eq!("Heading", reference(None, None, Some("Heading")).display());
}

#[test]
fn test_display_of_note_refs_label_wins() {
    assert_eq!("Label", reference(Some("Note"), Some("Label"), Some("Heading")).display());
}

#[test]
fn test_display_of_note_refs_label_without_file() {
    assert_eq!("Label", reference(None, Some("Label"), Some("Heading")).display());
}

#[test]
fn test_display_error_case() {
    let reference = ObsidianNoteReference {
        file: None,
        label: None,
        section: None,
    };

    let result = reference.fmt();

    assert!(
        result.is_err(),
        "Expected fmt::Error for reference with no file, label, or section"
    );
    assert_eq!(result, Err(FormatError));
}

#[test]
fn label_is_not_trimmed_but_file_and_section_are() {
    check_parse("  Note  #  Heading  |  Label  ", Some("Note"), Some("  Label  "), Some("Heading"));
}

#[test]
fn label_may_hold_delimiters() {
    check_parse("Note|a#b|c", Some("Note"), Some("a#b|c"), None);
}

#[test]
fn section_ends_at_first_bar_that_opens_a_label() {
    check_parse("Note#a|b|c", Some("Note"), Some("b|c"), Some("a"));
    check_parse("Note#a|", Some("Note"), None, Some("a|"));
    check_parse("#|b", None, None, Some("|b"));
}

#[test]
fn dangling_delimiters_are_no_reference() {
    for text in ["#", "|", "Note#", "Note|", "", "   ", "Note#a\nb", "Note|a\nb"] {
        let err = ObsidianNoteReference::from_str(text).unwrap_err();
        assert_eq!(err.reference_text, text);
    }
}

#[test]
fn file_may_hold_a_line_feed() {
    check_parse("No\nte#Heading", Some("No\nte"), None, Some("Heading"));
}

#[test]
fn section_of_white_space_is_kept_empty() {
    check_parse("Note#  ", Some("Note"), None, Some(""));
}

#[test]
fn parse_error_names_the_text() {
    let err = ObsidianNoteReference::from_str("Note#").unwrap_err();
    assert_eq!(err.message(), "Malformed note reference: Note#");
}
