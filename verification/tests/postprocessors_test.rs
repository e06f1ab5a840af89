use obsidian_export::postprocessors::{
    filter_by_tags, filter_by_tags_, has_balanced_comments, parse_obsidian_comments,
    softbreaks_to_hardbreaks, TagFilter,
};
use obsidian_export::preprocessors::remove_ignore_blocks;
use obsidian_export::{
    render_mdevents_to_mdtext, Context, ExportAction, Exporter, MarkdownEvent, MarkdownEvents,
    MissingReference, Postprocessor, PostprocessorResult,
};
use serde_yaml::Value;
use std::collections::HashSet;
use std::sync::Mutex;

type HookFn<'a> = Box<dyn Fn(&mut Context, &mut MarkdownEvents) -> PostprocessorResult + 'a>;

struct Hook<'a>(HookFn<'a>);

impl<'a> Hook<'a> {
    fn new(f: impl Fn(&mut Context, &mut MarkdownEvents) -> PostprocessorResult + 'a) -> Self {
        Hook(Box::new(f))
    }
}

impl Postprocessor for Hook<'_> {
    fn process(&self, context: &mut Context, events: &mut MarkdownEvents) -> PostprocessorResult {
        (self.0)(context, events)
    }
}

/// This postprocessor replaces any instance of "foo" with "bar" in the note body.
fn foo_to_bar(_ctx: &mut Context, events: &mut MarkdownEvents) -> PostprocessorResult {
    for event in events.iter_mut() {
        if let MarkdownEvent::Text(text) = event {
            *event = MarkdownEvent::Text(text.replace("foo", "bar"))
        }
    }
    PostprocessorResult::Continue
}

/// This postprocessor appends "bar: baz" to frontmatter.
fn append_frontmatter(ctx: &mut Context, _events: &mut MarkdownEvents) -> PostprocessorResult {
    ctx.frontmatter.insert(
        Value::String("bar".to_string()),
        Value::String("baz".to_string()),
    );
    PostprocessorResult::Continue
}

const NOTE: &str = "---\nfoo: bar\nis_root_note: true\n---\n\n# Title\n\nfoo one\ntwo\n\n![[_embed]]\n";
const EMBED: &str = "---\nis_root_note: false\n---\n\nembedded foo\n";

fn exporter<'a>() -> Exporter<Hook<'a>> {
    let mut exporter = Exporter::new("/vault".to_string(), "/out".to_string());
    exporter.load_vault(
        vec!["/vault/Note.md".to_string(), "/vault/_embed.md".to_string()],
        vec![Some(NOTE.to_string()), Some(EMBED.to_string())],
    );
    exporter
}

fn run(exporter: &Exporter<Hook<'_>>) -> Option<(String, String)> {
    let mut missing: Vec<MissingReference> = Vec::new();
    match exporter.export_note("/vault/Note.md", "/out/Note.md", &mut missing).unwrap() {
        ExportAction::Write(note) => {
            let body = render_mdevents_to_mdtext(&note.events).unwrap();
            Some((note.destination, format!("{}{}", note.head, body)))
        }
        ExportAction::Skip => None,
        other => panic!("unexpected action: {:?}", other),
    }
}

#[test]
fn test_postprocessors() {
    let mut exporter = exporter();
    exporter.add_postprocessor(Hook::new(foo_to_bar));
    exporter.add_postprocessor(Hook::new(append_frontmatter));

    let (_, actual) = run(&exporter).unwrap();
    let expected = "---\nfoo: bar\nis_root_note: true\nbar: baz\n---\n\n# Title\n\nbar one\ntwo\n\nembedded bar\n";
    assert_eq!(expected, actual);
}

#[test]
fn test_postprocessor_stophere() {
    let mut exporter = exporter();

    exporter.add_postprocessor(Hook::new(|_ctx, _mdevents| PostprocessorResult::StopHere));
    exporter.add_embed_postprocessor(Hook::new(|_ctx, _mdevents| PostprocessorResult::StopHere));
    exporter.add_postprocessor(Hook::new(|_, _| panic!("should not be called due to above processor")));
    exporter.add_embed_postprocessor(Hook::new(|_, _| {
        panic!("should not be called due to above processor")
    }));
    let (_, actual) = run(&exporter).unwrap();
    assert_eq!(
        actual,
        "---\nfoo: bar\nis_root_note: true\n---\n\n# Title\n\nfoo one\ntwo\n\nembedded foo\n"
    );
}

#[test]
fn test_postprocessor_stop_and_skip() {
    let mut exporter = exporter();
    assert!(run(&exporter).is_some());

    exporter.add_postprocessor(Hook::new(|_ctx, _mdevents| PostprocessorResult::StopAndSkipNote));
    assert!(run(&exporter).is_none());
}

#[test]
fn test_postprocessor_change_destination() {
    let mut exporter = exporter();
    let (destination, _) = run(&exporter).unwrap();
    assert_eq!(destination, "/out/Note.md");

    exporter.add_postprocessor(Hook::new(|ctx, _mdevents| {
        ctx.destination = "/out/MovedNote.md".to_string();
        PostprocessorResult::Continue
    }));
    let (destination, _) = run(&exporter).unwrap();
    assert_eq!(destination, "/out/MovedNote.md");
}

#[test]
fn test_postprocessor_stateful_callback() {
    let parents: Mutex<HashSet<String>> = Default::default();
    {
        let mut exporter = exporter();
        let callback = |ctx: &mut Context, _mdevents: &mut MarkdownEvents| -> PostprocessorResult {
            let parent = ctx.destination.rsplit_once('/').unwrap().0.to_string();
            parents.lock().unwrap().insert(parent);
            PostprocessorResult::Continue
        };
        exporter.add_postprocessor(Hook::new(callback));

        run(&exporter).unwrap();
    }

    let parents = parents.lock().unwrap();
    println!("{:?}", parents);
    assert_eq!(1, parents.len());
    assert!(parents.contains("/out"));
}

#[test]
fn test_embed_postprocessors() {
    let mut exporter = exporter();
    exporter.add_embed_postprocessor(Hook::new(foo_to_bar));
    // Should have no effect with embeds:
    exporter.add_embed_postprocessor(Hook::new(append_frontmatter));

    let (_, actual) = run(&exporter).unwrap();
    let expected = "---\nfoo: bar\nis_root_note: true\n---\n\n# Title\n\nfoo one\ntwo\n\nembedded bar\n";
    assert_eq!(expected, actual);
}

#[test]
fn test_embed_postprocessors_stop_and_skip() {
    let mut exporter = exporter();
    exporter.add_embed_postprocessor(Hook::new(|_ctx, _mdevents| {
        PostprocessorResult::StopAndSkipNote
    }));

    let (_, actual) = run(&exporter).unwrap();
    let expected = "---\nfoo: bar\nis_root_note: true\n---\n\n# Title\n\nfoo one\ntwo\n\n\n";
    assert_eq!(expected, actual);
}

#[test]
fn embed_postprocessors_stop_at_the_first_skip() {
    let mut exporter = exporter();
    exporter.add_embed_postprocessor(Hook::new(|_ctx, _mdevents| {
        PostprocessorResult::StopAndSkipNote
    }));
    exporter.add_embed_postprocessor(Hook::new(|_, _| panic!("the chain has ended")));
    assert!(run(&exporter).is_some());
}

#[test]
fn test_embed_postprocessors_context() {
    let mut exporter = exporter();

    exporter.add_postprocessor(Hook::new(|ctx, _mdevents| {
        if ctx.current_file() != "/vault/Note.md" {
            return PostprocessorResult::Continue;
        }
        assert_eq!(ctx.note_depth(), 1);
        assert_eq!(ctx.root_file(), "/vault/Note.md");
        let is_root_note = ctx
            .frontmatter
            .get(&Value::String("is_root_note".to_string()))
            .unwrap();
        if is_root_note != &Value::Bool(true) {
            panic!(
                "postprocessor: expected is_root_note in {} to be true, got false",
                &ctx.current_file()
            )
        }
        PostprocessorResult::Continue
    }));
    exporter.add_embed_postprocessor(Hook::new(|ctx, _mdevents| {
        assert_eq!(ctx.note_depth(), 2);
        assert_eq!(ctx.current_file(), "/vault/_embed.md");
        assert_eq!(ctx.root_file(), "/vault/Note.md");
        assert_eq!(ctx.file_tree(), vec!["/vault/Note.md".to_string(), "/vault/_embed.md".to_string()]);
        assert_eq!(ctx.destination, "/out/Note.md");
        let is_root_note = ctx
            .frontmatter
            .get(&Value::String("is_root_note".to_string()))
            .unwrap();
        if is_root_note == &Value::Bool(true) {
            panic!(
                "embed_postprocessor: expected is_root_note in {} to be false, got true",
                &ctx.current_file()
            )
        }
        PostprocessorResult::Continue
    }));

    run(&exporter).unwrap();
}

#[test]
fn test_softbreaks_to_hardbreaks() {
    let mut exporter = exporter();
    exporter.add_postprocessor(Hook::new(softbreaks_to_hardbreaks));
    let (_, actual) = run(&exporter).unwrap();
    let expected = "---\nfoo: bar\nis_root_note: true\n---\n\n# Title\n\nfoo one  \ntwo\n\nembedded foo\n";
    assert_eq!(expected, actual);
}

#[test]
fn softbreaks_to_hardbreaks_changes_soft_breaks_only() {
    let mut context = Context::new("a".to_string(), "b".to_string());
    let mut events = vec![
        MarkdownEvent::Text("x".to_string()),
        MarkdownEvent::SoftBreak,
        MarkdownEvent::HardBreak,
        MarkdownEvent::SoftBreak,
    ];
    assert_eq!(
        softbreaks_to_hardbreaks(&mut context, &mut events),
        PostprocessorResult::Continue
    );
    assert_eq!(
        events,
        vec![
            MarkdownEvent::Text("x".to_string()),
            MarkdownEvent::HardBreak,
            MarkdownEvent::HardBreak,
            MarkdownEvent::HardBreak,
        ]
    );
}

fn filtered(text: &str, filter: TagFilter) -> bool {
    let mut exporter: Exporter<TagFilter> = Exporter::new("/vault".to_string(), "/out".to_string());
    exporter.load_vault(vec!["/vault/n.md".to_string()], vec![Some(text.to_string())]);
    exporter.add_postprocessor(filter);
    let mut missing = Vec::new();
    matches!(
        exporter.export_note("/vault/n.md", "/out/n.md", &mut missing).unwrap(),
        ExportAction::Skip
    )
}

#[test]
fn test_filter_by_tags() {
    let filter = || {
        filter_by_tags(
            vec!["private".to_string(), "no-export".to_string()],
            vec!["export".to_string()],
        )
    };
    assert!(!filtered("---\ntags: [export]\n---\nbody", filter()));
    assert!(!filtered("---\ntags:\n- me\n- export\n---\nbody", filter()));
    assert!(filtered("---\ntags: [export, private]\n---\nbody", filter()));
    assert!(filtered("---\ntags: [no-export]\n---\nbody", filter()));
    assert!(filtered("---\ntags: [other]\n---\nbody", filter()));
    assert!(filtered("---\ntitle: untagged\n---\nbody", filter()));
    assert!(filtered("body without frontmatter", filter()));
    assert!(!filtered("---\ntags: export\n---\nbody", filter()));
    assert!(!filtered("---\ntags: [1, export]\n---\nbody", filter()));
}

fn tags(names: &[&str]) -> Vec<Option<String>> {
    names.iter().map(|name| Some(name.to_string())).collect()
}

fn names(names: &[&str]) -> Vec<String> {
    names.iter().map(|name| name.to_string()).collect()
}

#[test]
fn test_filter_tags() {
    let tags = tags(&["skip", "publish"]);
    let empty_tags = vec![];
    assert_eq!(
        filter_by_tags_(&empty_tags, &names(&[]), &names(&[])),
        PostprocessorResult::Continue,
        "When no exclusion & inclusion are specified, files without tags are included"
    );
    assert_eq!(
        filter_by_tags_(&tags, &names(&[]), &names(&[])),
        PostprocessorResult::Continue,
        "When no exclusion & inclusion are specified, files with tags are included"
    );
    assert_eq!(
        filter_by_tags_(&tags, &names(&["exclude"]), &names(&[])),
        PostprocessorResult::Continue,
        "When exclusion tags don't match files with tags are included"
    );
    assert_eq!(
        filter_by_tags_(&empty_tags, &names(&["exclude"]), &names(&[])),
        PostprocessorResult::Continue,
        "When exclusion tags don't match files without tags are included"
    );
    assert_eq!(
        filter_by_tags_(&tags, &names(&[]), &names(&["publish"])),
        PostprocessorResult::Continue,
        "When exclusion tags don't match files with tags are included"
    );
    assert_eq!(
        filter_by_tags_(&empty_tags, &names(&[]), &names(&["include"])),
        PostprocessorResult::StopAndSkipNote,
        "When inclusion tags are specified files without tags are excluded"
    );
    assert_eq!(
        filter_by_tags_(&tags, &names(&[]), &names(&["include"])),
        PostprocessorResult::StopAndSkipNote,
        "When exclusion tags don't match files with tags are exluded"
    );
    assert_eq!(
        filter_by_tags_(&tags, &names(&["skip"]), &names(&["skip"])),
        PostprocessorResult::StopAndSkipNote,
        "When both inclusion and exclusion tags are the same exclusion wins"
    );
    assert_eq!(
        filter_by_tags_(&tags, &names(&["skip"]), &names(&["publish"])),
        PostprocessorResult::StopAndSkipNote,
        "When both inclusion and exclusion tags match exclusion wins"
    );
}

fn text(s: &str) -> MarkdownEvent {
    MarkdownEvent::Text(s.to_string())
}

fn html(s: &str) -> MarkdownEvent {
    MarkdownEvent::InlineHtml(s.to_string())
}

fn comments(mut events: MarkdownEvents) -> MarkdownEvents {
    let mut context = Context::new("a".to_string(), "b".to_string());
    assert!(has_balanced_comments(&events));
    assert_eq!(
        parse_obsidian_comments(&mut context, &mut events),
        PostprocessorResult::Continue
    );
    events
}

#[test]
fn obsidian_comments_become_html_comments() {
    assert_eq!(
        comments(vec![text("before %% hidden %% after")]),
        vec![text("before "), html("<!-- hidden -->"), text(" after")]
    );
}

#[test]
fn obsidian_comments_may_span_events() {
    assert_eq!(
        comments(vec![
            text("a %%b"),
            MarkdownEvent::SoftBreak,
            text("c%% d"),
            MarkdownEvent::SoftBreak,
            text("%%%%e"),
        ]),
        vec![text("a "), html("<!--bc-->"), text(" d"), MarkdownEvent::SoftBreak, text("e")]
    );
}

#[test]
fn unclosed_obsidian_comment_is_told() {
    assert!(!has_balanced_comments(&vec![text("a %% b")]));
    assert!(has_balanced_comments(&vec![text("a %% b"), text("%%")]));
    assert!(has_balanced_comments(&vec![text("a % b")]));
}

fn without_ignored(source: &str) -> String {
    let mut context = Context::new("a".to_string(), "b".to_string());
    let mut string = source.to_string();
    assert_eq!(
        remove_ignore_blocks(&mut context, &mut string),
        PostprocessorResult::Continue
    );
    string
}

#[test]
fn ignore_blocks_are_removed() {
    assert_eq!(
        without_ignored("a%% EXPORT_IGNORE_BEGIN %%x\ny%% EXPORT_IGNORE_END %%b"),
        "ab"
    );
    assert_eq!(
        without_ignored("a\n# EXPORT_IGNORE_BEGIN\nx\n# EXPORT_IGNORE_END\nb"),
        "a\n\nb"
    );
    assert_eq!(
        without_ignored(
            "1%% EXPORT_IGNORE_BEGIN %%2%% EXPORT_IGNORE_END %%3%% EXPORT_IGNORE_BEGIN %%4%% EXPORT_IGNORE_END %%5%% EXPORT_IGNORE_END %%"
        ),
        "135%% EXPORT_IGNORE_END %%"
    );
    assert_eq!(without_ignored("a%% EXPORT_IGNORE_BEGIN %%b"), "a%% EXPORT_IGNORE_BEGIN %%b");
    assert_eq!(without_ignored("nothing to remove"), "nothing to remove");
}

#[test]
fn ignore_blocks_are_removed_as_the_patterns_say() {
    let first = regex::Regex::new(r"%% EXPORT_IGNORE_BEGIN %%(.|\n)*?%% EXPORT_IGNORE_END %%").unwrap();
    let second = regex::Regex::new(r"# EXPORT_IGNORE_BEGIN(.|\n)*?# EXPORT_IGNORE_END").unwrap();
    let pieces = [
        "%% EXPORT_IGNORE_BEGIN %%",
        "%% EXPORT_IGNORE_END %%",
        "# EXPORT_IGNORE_BEGIN",
        "# EXPORT_IGNORE_END",
        "text\n",
        "%",
    ];
    let mut sources = vec![String::new()];
    for _ in 0..4 {
        let mut longer = Vec::new();
        for source in &sources {
            for piece in pieces {
                longer.push(format!("{}{}", source, piece));
            }
        }
        sources.extend(longer);
    }
    for source in sources {
        let expected = second
            .replace_all(&first.replace_all(&source, ""), "")
            .to_string();
        assert_eq!(without_ignored(&source), expected, "{:?}", source);
    }
}

#[test]
fn postprocessor_rename() {
    let mut exporter = exporter();
    exporter.add_postprocessor(Hook::new(|ctx, _mdevents| {
        ctx.destination = "Moved.md".to_string();
        PostprocessorResult::Continue
    }));
    let (destination, _) = run(&exporter).unwrap();
    assert_eq!(destination, "Moved.md");
}
