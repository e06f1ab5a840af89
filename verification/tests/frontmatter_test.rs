use obsidian_export::frontmatter::encode_frontmatter;
use obsidian_export::{
    frontmatter_from_str, frontmatter_strategy_from_str, frontmatter_to_str, split_frontmatter,
    Frontmatter, FrontmatterStrategy, WalkOptions,
};
use serde_yaml::Value;

#[test]
fn empty_string_should_yield_empty_frontmatter() {
    assert_eq!(frontmatter_from_str("").unwrap(), Frontmatter::new());
}

#[test]
fn empty_frontmatter_to_str() {
    let frontmatter = Frontmatter::new();
    assert_eq!(
        frontmatter_to_str(&frontmatter).unwrap(),
        format!("---\n---\n")
    );
}

#[test]
fn nonempty_frontmatter_to_str() {
    let mut frontmatter = Frontmatter::new();
    frontmatter.insert(
        Value::String("foo".to_string()),
        Value::String("bar".to_string()),
    );
    assert_eq!(
        frontmatter_to_str(&frontmatter).unwrap(),
        format!("---\nfoo: bar\n---\n")
    );
}

#[test]
fn frontmatter_is_decoded_as_yaml() {
    let frontmatter = frontmatter_from_str("foo: bar\nnumber: 3\n").unwrap();
    assert_eq!(frontmatter.len(), 2);
    assert_eq!(frontmatter.get("foo"), Some(&Value::String("bar".to_string())));
    assert_eq!(frontmatter.get("number"), Some(&Value::Number(3.into())));
}

#[test]
fn frontmatter_that_is_no_mapping_is_refused() {
    assert!(frontmatter_from_str("- a\n- b\n").is_err());
    assert!(frontmatter_from_str("just a text").is_err());
    assert!(frontmatter_from_str("a: [unclosed").is_err());
}

fn one_entry() -> Frontmatter {
    let mut frontmatter = Frontmatter::new();
    frontmatter.insert(Value::String("k".to_string()), Value::String("v".to_string()));
    frontmatter
}

#[test]
fn frontmatter_is_written_as_the_strategy_says() {
    let empty = Frontmatter::new();
    let full = one_entry();
    assert_eq!(encode_frontmatter(&empty, FrontmatterStrategy::Always).unwrap(), "---\n---\n\n");
    assert_eq!(encode_frontmatter(&full, FrontmatterStrategy::Always).unwrap(), "---\nk: v\n---\n\n");
    assert_eq!(encode_frontmatter(&empty, FrontmatterStrategy::Never).unwrap(), "");
    assert_eq!(encode_frontmatter(&full, FrontmatterStrategy::Never).unwrap(), "");
    assert_eq!(encode_frontmatter(&empty, FrontmatterStrategy::Auto).unwrap(), "");
    assert_eq!(encode_frontmatter(&full, FrontmatterStrategy::Auto).unwrap(), "---\nk: v\n---\n\n");
}

fn split(content: &str) -> (String, String) {
    split_frontmatter(content)
}

fn parts(frontmatter: &str, body: &str) -> (String, String) {
    (frontmatter.to_string(), body.to_string())
}

#[test]
fn note_without_fence_is_all_body() {
    assert_eq!(split(""), parts("", ""));
    assert_eq!(split("body"), parts("", "body"));
    assert_eq!(split("body\n---\nk: v\n---\n"), parts("", "body\n---\nk: v\n---\n"));
    assert_eq!(split("----\nk: v\n----\n"), parts("", "----\nk: v\n----\n"));
    assert_eq!(split("--- \nk: v\n---\n"), parts("", "--- \nk: v\n---\n"));
}

#[test]
fn frontmatter_is_cut_off_at_the_fences() {
    assert_eq!(split("---\nk: v\n---\nbody"), parts("k: v\n", "body"));
    assert_eq!(split("---\nk: v\n---\n\nbody\n"), parts("k: v\n", "\nbody\n"));
    assert_eq!(split("---\nk: v\n---"), parts("k: v\n", ""));
    assert_eq!(split("---\n---\nbody"), parts("", "body"));
    assert_eq!(split("---\na: 1\nb: 2\n---\nbody\n---\nmore"), parts("a: 1\nb: 2\n", "body\n---\nmore"));
}

#[test]
fn plus_fences_delimit_frontmatter_too() {
    assert_eq!(split("+++\nk: v\n+++\nbody"), parts("k: v\n", "body"));
    assert_eq!(split("+++\nk: v\n---\nbody"), parts("", "+++\nk: v\n---\nbody"));
    assert_eq!(split("---\nk: v\n+++\nbody"), parts("", "---\nk: v\n+++\nbody"));
}

#[test]
fn closing_fence_is_a_line_of_its_own() {
    assert_eq!(split("---\nk: v---\nbody"), parts("", "---\nk: v---\nbody"));
    assert_eq!(split("---\nk: v\n---x\nbody"), parts("", "---\nk: v\n---x\nbody"));
    assert_eq!(split("---\nk: v\n---x\n---\nbody"), parts("k: v\n---x\n", "body"));
    assert_eq!(split("---\nk: v\n"), parts("", "---\nk: v\n"));
}

#[test]
fn strategies_are_named_in_lower_case() {
    assert_eq!(frontmatter_strategy_from_str("auto"), Some(FrontmatterStrategy::Auto));
    assert_eq!(frontmatter_strategy_from_str("always"), Some(FrontmatterStrategy::Always));
    assert_eq!(frontmatter_strategy_from_str("never"), Some(FrontmatterStrategy::Never));
    for name in ["", "Auto", "ALWAYS", "never ", "sometimes"] {
        assert_eq!(frontmatter_strategy_from_str(name), None);
    }
}

#[test]
fn walk_options_default() {
    let options = WalkOptions::new();
    assert_eq!(options.ignore_filename, ".export-ignore");
    assert!(options.ignore_hidden);
    assert!(options.honor_gitignore);
    assert_eq!(WalkOptions::default(), options);
}
