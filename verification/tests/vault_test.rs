use obsidian_export::vault::find_in_vault;
use obsidian_export::{lookup_filename_in_vault, Vault};

fn vault() -> Vec<String> {
    vec![
        "NoteA.md".to_string(),
        "Document.pdf".to_string(),
        "Note.1.md".to_string(),
        "nested/NoteA.md".to_string(),
        "Note\u{E4}.md".to_string(), // Noteä.md, see also encodings() below
    ]
}

#[test]
fn encodings() {
    // Standard "Latin Small Letter A with Diaeresis" (U+00E4)
    // Encoded in UTF-8 as two bytes: 0xC3 0xA4
    assert_eq!(String::from_utf8(vec![0xC3, 0xA4]).unwrap(), "ä");
    assert_eq!("\u{E4}", "ä");

    // Basic (ASCII) lowercase a followed by Unicode Character “◌̈” (U+0308)
    // Renders the same visual appearance but is encoded in UTF-8 as three bytes:
    // 0x61 0xCC 0x88
    assert_eq!(String::from_utf8(vec![0x61, 0xCC, 0x88]).unwrap(), "ä");
    assert_eq!("a\u{308}", "ä");
    assert_eq!("\u{61}\u{308}", "ä");

    // For more examples and a better explanation of this concept, see
    // https://www.w3.org/TR/charmod-norm/#aringExample
}

fn check_lookup(input: &str, expected: &str) {
    let vault = vault();
    let result = lookup_filename_in_vault(input, &vault);
    println!("Test input: {input:?}");
    println!("Expecting: {expected:?}");
    assert_eq!(result, Some(&expected.to_string()));
}

#[test]
fn test_lookup_filename_in_vault_exact_match() {
    check_lookup("NoteA.md", "NoteA.md");
    check_lookup("NoteA", "NoteA.md");
}

#[test]
fn test_lookup_filename_in_vault_subdir() {
    // Same note in subdir, exact match should find it
    check_lookup("nested/NoteA.md", "nested/NoteA.md");
    check_lookup("nested/NoteA", "nested/NoteA.md");
}

#[test]
fn test_lookup_filename_in_vault_extensions() {
    check_lookup("Document.pdf", "Document.pdf");
    check_lookup("Note.1", "Note.1.md");
    check_lookup("Note.1.md", "Note.1.md");
}

#[test]
fn test_lookup_filename_in_vault_case_insensitive() {
    check_lookup("notea.md", "NoteA.md");
    check_lookup("notea", "NoteA.md");
    check_lookup("NESTED/notea.md", "nested/NoteA.md");
    check_lookup("NESTED/notea", "nested/NoteA.md");
}

#[test]
fn test_lookup_filename_in_vault_composed() {
    // "Latin Small Letter A with Diaeresis" (U+00E4)
    check_lookup("Note\u{E4}.md", "Note\u{E4}.md");
    check_lookup("Note\u{E4}", "Note\u{E4}.md");
}

#[test]
fn test_lookup_filename_in_vault_decomposed() {
    // Basic (ASCII) lowercase a followed by Unicode Character “◌̈” (U+0308)
    // The UTF-8 encoding is different but it renders the same visual appearance as the case above,
    // so we expect it to find the same file.
    check_lookup("Note\u{61}\u{308}.md", "Note\u{E4}.md");
    check_lookup("Note\u{61}\u{308}", "Note\u{E4}.md");
}

#[test]
fn test_lookup_filename_in_vault_upper_case_umlaut() {
    // NoteÄ where Ä = Single Ä (U+00C4)
    check_lookup("Note\u{C4}.md", "Note\u{E4}.md");
    check_lookup("Note\u{C4}", "Note\u{E4}.md");
    // NoteÄ where Ä = decomposed to A (U+0041) + ◌̈ (U+0308)
    check_lookup("Note\u{41}\u{308}.md", "Note\u{E4}.md");
    check_lookup("Note\u{41}\u{308}", "Note\u{E4}.md");
}

#[test]
fn lookup_matches_whole_components_only() {
    let vault = vault();
    assert_eq!(lookup_filename_in_vault("A.md", &vault), None);
    assert_eq!(lookup_filename_in_vault("A", &vault), None);
    assert_eq!(lookup_filename_in_vault("Document", &vault), None);
    assert_eq!(lookup_filename_in_vault("ested/NoteA", &vault), None);
    assert_eq!(lookup_filename_in_vault("Ghost", &vault), None);
}

#[test]
fn first_match_wins() {
    let vault = vault();
    assert_eq!(find_in_vault("NoteA", &vault), Some(0));
    assert_eq!(find_in_vault("nested/NoteA", &vault), Some(3));

    let mut longer = vault.clone();
    longer.push("other/NoteA.md".to_string());
    assert_eq!(find_in_vault("NoteA", &longer), Some(0));

    let mut unrelated = vault.clone();
    unrelated.insert(0, "Unrelated.md".to_string());
    assert_eq!(
        lookup_filename_in_vault("NoteA", &unrelated),
        Some(&"NoteA.md".to_string())
    );
    assert_eq!(find_in_vault("NoteA", &unrelated), Some(1));

    let mut related = vault.clone();
    related.insert(0, "first/notea.md".to_string());
    assert_eq!(
        lookup_filename_in_vault("NoteA", &related),
        Some(&"first/notea.md".to_string())
    );
}

#[test]
fn vault_reads_the_text_beside_the_first_equal_path() {
    let vault = Vault {
        paths: vec!["a.md".to_string(), "b.png".to_string(), "a.md".to_string(), "c.md".to_string()],
        texts: vec![Some("first".to_string()), None, Some("second".to_string())],
    };
    assert_eq!(vault.read_note("a.md"), Some(&"first".to_string()));
    assert_eq!(vault.read_note("b.png"), None);
    assert_eq!(vault.read_note("c.md"), None);
    assert_eq!(vault.read_note("A.md"), None);
    assert_eq!(Vault::new().read_note("a.md"), None);
}
