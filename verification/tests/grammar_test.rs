use obsidian_export::ObsidianNoteReference;
use regex::Regex;

fn by_pattern(pattern: &Regex, text: &str) -> Option<(Option<String>, Option<String>, Option<String>)> {
    let captures = pattern.captures(text)?;
    let file = captures
        .name("file")
        .map(|v| v.as_str().trim())
        .filter(|s| !s.is_empty())
        .map(ToString::to_string);
    let label = captures.name("label").map(|v| v.as_str().to_owned());
    let section = captures.name("section").map(|v| v.as_str().trim().to_owned());
    if file.is_none() && section.is_none() && label.is_none() {
        return None;
    }
    Some((file, section, label))
}

fn by_library(text: &str) -> Option<(Option<String>, Option<String>, Option<String>)> {
    ObsidianNoteReference::from_str(text)
        .ok()
        .map(|r| (r.file, r.section, r.label))
}

#[test]
fn references_are_parsed_as_the_pattern_says() {
    let pattern =
        Regex::new(r"^(?P<file>[^#|]+)??(#(?P<section>.+?))??(\|(?P<label>.+?))??$").unwrap();
    let pieces = ["a", " ", "#", "|", "\n", "ä", "b c"];
    let mut texts = vec![String::new()];
    let mut last = vec![String::new()];
    for _ in 0..5 {
        let mut longer = Vec::new();
        for text in &last {
            for piece in pieces {
                longer.push(format!("{}{}", text, piece));
            }
        }
        texts.extend(longer.iter().cloned());
        last = longer;
    }
    assert!(texts.len() > 19000);
    for text in texts {
        assert_eq!(by_library(&text), by_pattern(&pattern, &text), "{:?}", text);
    }
}
