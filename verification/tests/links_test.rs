use obsidian_export::exporter::plan_jobs;
use obsidian_export::pipeline::{has_image_extension, link_to_image};
use obsidian_export::vault::holds_path;
use obsidian_export::links::{build_link, build_link_url, is_markdown_file};
use obsidian_export::paths::percent_encode;
use obsidian_export::text::{chars_of, find_from, matches_at, string_of, trim_range};
use obsidian_export::{
    Context, Findings, LinkKind, MarkdownEvent, MarkdownTag, MarkdownTagEnd, MissingReference,
    ObsidianNoteReference,
};

fn link(url: &str, shown: &str) -> Vec<MarkdownEvent> {
    vec![
        MarkdownEvent::Start(MarkdownTag::Link {
            link_type: LinkKind::Inline,
            dest_url: url.to_string(),
            title: String::new(),
            id: String::new(),
        }),
        MarkdownEvent::Text(shown.to_string()),
        MarkdownEvent::End(MarkdownTagEnd::Link),
    ]
}

fn emphasized(shown: &str) -> Vec<MarkdownEvent> {
    vec![
        MarkdownEvent::Start(MarkdownTag::Emphasis),
        MarkdownEvent::Text(shown.to_string()),
        MarkdownEvent::End(MarkdownTagEnd::Emphasis),
    ]
}

fn vault() -> Vec<String> {
    vec![
        "/vault/A.md".to_string(),
        "/vault/sub/B.md".to_string(),
        "/vault/sub/pic.png".to_string(),
    ]
}

fn built(text: &str, context: &Context, linked_only: bool) -> (Vec<MarkdownEvent>, Findings) {
    let reference = ObsidianNoteReference::from_str(text).unwrap();
    let mut findings = Findings::new();
    let events = build_link(&vault(), linked_only, &reference, context, &mut findings);
    (events, findings)
}

#[test]
fn link_is_relative_to_the_root_note() {
    let root = Context::new("/vault/A.md".to_string(), "/out/A.md".to_string());
    assert_eq!(built("B", &root, false).0, link("sub/B.md", "B"));
    let nested = Context::from_parent(&root, "/vault/sub/B.md");
    assert_eq!(built("A", &nested, false).0, link("A.md", "A"));
    assert_eq!(built("pic.png", &nested, false).0, link("sub/pic.png", "pic.png"));
    let from_sub = Context::new("/vault/sub/B.md".to_string(), "/out/sub/B.md".to_string());
    assert_eq!(built("A", &from_sub, false).0, link("../A.md", "A"));
}

#[test]
fn link_shows_label_and_points_to_section() {
    let root = Context::new("/vault/A.md".to_string(), "/out/A.md".to_string());
    assert_eq!(built("B#Some Heading!", &root, false).0, link("sub/B.md#some-heading", "B > Some Heading!"));
    assert_eq!(built("B#Äh|shown", &root, false).0, link("sub/B.md#ah", "shown"));
}

#[test]
fn link_without_file_points_into_the_current_note() {
    let root = Context::new("/vault/A.md".to_string(), "/out/A.md".to_string());
    assert_eq!(built("#Heading", &root, false).0, link("A.md#heading", "Heading"));
    let nested = Context::from_parent(&root, "/vault/sub/B.md");
    assert_eq!(built("#Heading", &nested, false).0, link("sub/B.md#heading", "Heading"));
    assert_eq!(built("|only a label", &nested, false).0, link("sub/B.md", "only a label"));
}

#[test]
fn link_to_nowhere_is_emphasized_and_noted_down() {
    let root = Context::new("/vault/A.md".to_string(), "/out/A.md".to_string());
    let (events, findings) = built("Ghost#part|shown", &root, true);
    assert_eq!(events, emphasized("shown"));
    assert_eq!(
        findings.missing,
        vec![MissingReference {
            reference: "Ghost".to_string(),
            source: "/vault/A.md".to_string(),
            embed: false,
        }]
    );
    assert!(findings.attachments.is_empty());
}

#[test]
fn link_without_a_way_is_emphasized() {
    let root = Context::new("/".to_string(), "/out/A.md".to_string());
    assert_eq!(built("B", &root, false).0, emphasized("B"));
    let relative = Context::new("vault/A.md".to_string(), "/out/A.md".to_string());
    assert_eq!(built("B", &relative, false).0, link("/vault/sub/B.md", "B"));
    assert_eq!(build_link_url("/vault/A.md", "sub/B.md", &None), None);
}

#[test]
fn linked_attachments_are_noted_down_once() {
    let root = Context::new("/vault/A.md".to_string(), "/out/A.md".to_string());
    let reference = ObsidianNoteReference::from_str("pic.png").unwrap();
    let note = ObsidianNoteReference::from_str("B").unwrap();
    let mut findings = Findings::new();
    build_link(&vault(), true, &reference, &root, &mut findings);
    build_link(&vault(), true, &note, &root, &mut findings);
    build_link(&vault(), true, &reference, &root, &mut findings);
    assert_eq!(findings.attachments, vec!["/vault/sub/pic.png".to_string()]);
    assert!(findings.missing.is_empty());

    let mut findings = Findings::new();
    build_link(&vault(), false, &reference, &root, &mut findings);
    assert!(findings.attachments.is_empty());
}

#[test]
fn url_is_the_encoded_way_and_the_slug() {
    assert_eq!(
        build_link_url("/vault/A.md", "/vault/a b/c(1)?.md", &None),
        Some("a%20b/c%281%29%3F.md".to_string())
    );
    assert_eq!(
        build_link_url("/vault/x/A.md", "/vault/B.md", &Some("My Heading".to_string())),
        Some("../B.md#my-heading".to_string())
    );
}

#[test]
fn percent_encoding_escapes_the_fixed_set() {
    assert_eq!(percent_encode(""), "");
    assert_eq!(percent_encode("plain/path-1_2.md"), "plain/path-1_2.md");
    assert_eq!(percent_encode(" ()%?"), "%20%28%29%25%3F");
    assert_eq!(percent_encode("\u{0}\u{1f}\u{7f}"), "%00%1F%7F");
    assert_eq!(percent_encode("ä€😀"), "%C3%A4%E2%82%AC%F0%9F%98%80");
    assert_eq!(percent_encode("#&+'\"<>[]{}|\\^`~!$*,;:=@"), "#&+'\"<>[]{}|\\^`~!$*,;:=@");
}

#[test]
fn percent_encoding_is_that_of_the_crate() {
    const SET: &percent_encoding::AsciiSet = &percent_encoding::CONTROLS
        .add(b' ')
        .add(b'(')
        .add(b')')
        .add(b'%')
        .add(b'?');
    for code in 0..=0x2ff_u32 {
        let text = format!("a{}b", char::from_u32(code).unwrap());
        assert_eq!(
            percent_encode(&text),
            percent_encoding::utf8_percent_encode(&text, SET).to_string()
        );
    }
}

#[test]
fn markdown_files_have_the_extension_md() {
    assert!(is_markdown_file("/vault/A.md"));
    assert!(is_markdown_file("a.b.md"));
    assert!(!is_markdown_file("/vault/A.MD"));
    assert!(!is_markdown_file("/vault/A.md.txt"));
    assert!(!is_markdown_file("/vault/md"));
    assert!(!is_markdown_file("/vault/.md"));
    assert!(!is_markdown_file("/vault.md/A"));
}

#[test]
fn images_are_known_by_their_extension() {
    for extension in ["png", "jpg", "jpeg", "gif", "webp", "svg"] {
        assert!(has_image_extension(&Some(extension.to_string())));
    }
    for extension in ["PNG", "md", "pdf", "", "pngx"] {
        assert!(!has_image_extension(&Some(extension.to_string())));
    }
    assert!(!has_image_extension(&None));
}

#[test]
fn link_becomes_image() {
    let mut events = link("pic.png", "pic");
    events.push(MarkdownEvent::SoftBreak);
    let images = link_to_image(events);
    assert_eq!(
        images,
        vec![
            MarkdownEvent::Start(MarkdownTag::Image {
                link_type: LinkKind::Inline,
                dest_url: "pic.png".to_string(),
                title: String::new(),
                id: String::new(),
            }),
            MarkdownEvent::Text("pic".to_string()),
            MarkdownEvent::End(MarkdownTagEnd::Image),
            MarkdownEvent::SoftBreak,
        ]
    );
    assert_eq!(link_to_image(emphasized("x")), emphasized("x"));
}

#[test]
fn tree_holds_its_paths() {
    let tree = vec!["a.md".to_string(), "b.md".to_string()];
    assert!(holds_path(&tree, "a.md"));
    assert!(holds_path(&tree, "b.md"));
    assert!(!holds_path(&tree, "c.md"));
    assert!(!holds_path(&tree, "A.md"));
    assert!(!holds_path(&vec![], "a.md"));
}

#[test]
fn jobs_mirror_the_tree_below_the_starting_point() {
    let paths = vec![
        "/vault/a.md".to_string(),
        "/vault/sub/b.md".to_string(),
        "/vault/sub/c.png".to_string(),
        "/elsewhere/d.md".to_string(),
    ];
    let pairs = |start_at: &str, notes_only: bool| -> Vec<(String, String)> {
        plan_jobs(&paths, start_at, "/out", notes_only)
            .into_iter()
            .map(|job| (job.source, job.destination))
            .collect()
    };
    assert_eq!(
        pairs("/vault", false),
        vec![
            ("/vault/a.md".to_string(), "/out/a.md".to_string()),
            ("/vault/sub/b.md".to_string(), "/out/sub/b.md".to_string()),
            ("/vault/sub/c.png".to_string(), "/out/sub/c.png".to_string()),
        ]
    );
    assert_eq!(
        pairs("/vault/sub", true),
        vec![("/vault/sub/b.md".to_string(), "/out/b.md".to_string())]
    );
    assert_eq!(pairs("/vault/su", false), vec![]);
}

#[test]
fn context_keeps_the_file_tree() {
    let root = Context::new("/vault/A.md".to_string(), "/out/A.md".to_string());
    assert_eq!(root.note_depth(), 1);
    assert_eq!(root.current_file(), "/vault/A.md");
    assert_eq!(root.root_file(), "/vault/A.md");
    assert_eq!(root.file_tree(), vec!["/vault/A.md".to_string()]);
    assert_eq!(root.destination, "/out/A.md");
    assert!(root.frontmatter.is_empty());

    let mut with_frontmatter = Context::new("/vault/A.md".to_string(), "/out/A.md".to_string());
    with_frontmatter.frontmatter.insert("k".into(), "v".into());
    let child = Context::from_parent(&with_frontmatter, "/vault/B.md");
    assert_eq!(child.note_depth(), 2);
    assert_eq!(child.current_file(), "/vault/B.md");
    assert_eq!(child.root_file(), "/vault/A.md");
    assert_eq!(
        child.file_tree(),
        vec!["/vault/A.md".to_string(), "/vault/B.md".to_string()]
    );
    assert_eq!(child.destination, "/out/A.md");
    assert_eq!(child.frontmatter, with_frontmatter.frontmatter);
    assert_eq!(with_frontmatter.note_depth(), 1);
}

#[test]
fn text_helpers_work_on_characters() {
    let chars = chars_of("  äb c \n");
    assert_eq!(chars, vec![' ', ' ', 'ä', 'b', ' ', 'c', ' ', '\n']);
    assert_eq!(string_of(&chars, 2, 6), "äb c");
    assert_eq!(string_of(&chars, 3, 3), "");
    assert_eq!(trim_range(&chars, 0, 8), (2, 6));
    assert_eq!(trim_range(&chars, 3, 5), (3, 4));
    assert_eq!(trim_range(&chars, 0, 2), (2, 2));
    assert_eq!(trim_range(&chars_of("\u{a0}x\u{2003}"), 0, 3), (1, 2));
    let pattern = chars_of("b ");
    assert!(matches_at(&chars, &pattern, 3));
    assert!(!matches_at(&chars, &pattern, 2));
    assert!(!matches_at(&chars, &pattern, 7));
    assert_eq!(find_from(&chars, &pattern, 0), Some(3));
    assert_eq!(find_from(&chars, &pattern, 4), None);
    assert_eq!(find_from(&chars, &chars_of(" "), 2), Some(4));
    assert_eq!(find_from(&chars, &chars_of(""), 8), Some(8));
    assert_eq!(find_from(&chars, &chars_of(""), 9), None);
}
